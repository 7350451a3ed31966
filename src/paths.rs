//! Percent-decoding of request paths, and the extension, MIME type and
//! audio test of file paths.
use vstd::prelude::*;
use vstd::utf8::{valid_utf8, decode_utf8, encode_utf8};

verus! {

/// ASCII `%`.
pub const PERCENT: u8 = 37;
/// ASCII `/`.
pub const SLASH: u8 = 47;
/// ASCII `.`.
pub const DOT: u8 = 46;

/// The value of a hexadecimal digit, in either case.
pub open spec fn hex_digit_value(c: u8) -> Option<u8> {
    if 48 <= c <= 57 {
        Some((c - 48) as u8)
    } else if 97 <= c <= 102 {
        Some((c - 87) as u8)
    } else if 65 <= c <= 70 {
        Some((c - 55) as u8)
    } else {
        None
    }
}

/// The value of a hexadecimal digit (`0`-`9`, `a`-`f`, `A`-`F`).
pub fn hex_val(byte: u8) -> (r: Option<u8>)
    ensures
        r == hex_digit_value(byte),
{
    if 48 <= byte && byte <= 57 {
        Some(byte - 48)
    } else if 97 <= byte && byte <= 102 {
        Some(byte - 97 + 10)
    } else if 65 <= byte && byte <= 70 {
        Some(byte - 65 + 10)
    } else {
        None
    }
}

/// `b` with each `%` followed by two hexadecimal digits replaced by the byte
/// they spell, read from the left; other bytes are kept.
pub open spec fn percent_decoded(b: Seq<u8>) -> Seq<u8>
    decreases b.len(),
{
    if b.len() == 0 {
        Seq::empty()
    } else if b[0] == PERCENT && b.len() >= 3 && hex_digit_value(b[1]) is Some && hex_digit_value(
        b[2],
    ) is Some {
        seq![(hex_digit_value(b[1]).unwrap() * 16 + hex_digit_value(b[2]).unwrap()) as u8]
            + percent_decoded(b.subrange(3, b.len() as int))
    } else {
        seq![b[0]] + percent_decoded(b.drop_first())
    }
}

/// The percent-decoded text: the decoded bytes read as UTF-8, or the text
/// unchanged where they are not valid UTF-8.
pub open spec fn percent_decode_text(s: Seq<char>) -> Seq<char> {
    let d = percent_decoded(encode_utf8(s));
    if valid_utf8(d) {
        decode_utf8(d)
    } else {
        s
    }
}

fn percent_decode_bytes(bytes: &[u8]) -> (r: Vec<u8>)
    ensures
        r@ == percent_decoded(bytes@),
{
    let n = bytes.len();
    let mut out: Vec<u8> = Vec::new();
    let mut i: usize = 0;
    assert(bytes@.subrange(0, n as int) =~= bytes@);
    while i < n
        invariant
            i <= n,
            n == bytes@.len(),
            out@ + percent_decoded(bytes@.subrange(i as int, n as int)) == percent_decoded(bytes@),
        decreases n - i,
    {
        let ghost rest = bytes@.subrange(i as int, n as int);
        if bytes[i] == PERCENT && n - i > 2 {
            let h = hex_val(bytes[i + 1]);
            let l = hex_val(bytes[i + 2]);
            if let (Some(h), Some(l)) = (h, l) {
                let ghost prev = out@;
                out.push(h * 16 + l);
                proof {
                    assert(rest.subrange(3, rest.len() as int) =~= bytes@.subrange(
                        i as int + 3,
                        n as int,
                    ));
                    assert(out@ + percent_decoded(bytes@.subrange(i as int + 3, n as int)) =~= prev
                        + percent_decoded(rest));
                }
                i += 3;
                continue;
            }
        }
        let ghost prev = out@;
        out.push(bytes[i]);
        proof {
            assert(rest.drop_first() =~= bytes@.subrange(i as int + 1, n as int));
            assert(out@ + percent_decoded(bytes@.subrange(i as int + 1, n as int)) =~= prev
                + percent_decoded(rest));
        }
        i += 1;
    }
    proof {
        assert(out@ + percent_decoded(bytes@.subrange(n as int, n as int)) =~= out@);
    }
    out
}

/// Relies on String::from_utf8: it accepts exactly the valid UTF-8 byte
/// sequences, and the string then holds the characters they encode.
#[verifier::external_body]
fn string_from_utf8(bytes: Vec<u8>) -> (r: Option<String>)
    ensures
        match r {
            Some(s) => valid_utf8(bytes@) && s@ == decode_utf8(bytes@),
            None => !valid_utf8(bytes@),
        },
{
    String::from_utf8(bytes).ok()
}

/// Percent-decodes a URI path (`%20` becomes a space). Where the decoded
/// bytes are not valid UTF-8 the input is returned unchanged.
pub fn percent_decode(input: &str) -> (r: String)
    ensures
        r@ == percent_decode_text(input@),
{
    let bytes = percent_decode_bytes(input.as_bytes());
    match string_from_utf8(bytes) {
        Some(s) => s,
        None => input.to_owned(),
    }
}

/// Whether an escaped path separator (`%2F`, `%3A` or `%5C`, in either
/// case) starts at `i`.
pub open spec fn escaped_separator_at(b: Seq<u8>, i: int) -> bool {
    &&& 0 <= i
    &&& i + 2 < b.len()
    &&& b[i] == PERCENT
    &&& {
        ||| b[i + 1] == 50 && (b[i + 2] == 70 || b[i + 2] == 102)
        ||| b[i + 1] == 51 && (b[i + 2] == 65 || b[i + 2] == 97)
        ||| b[i + 1] == 53 && (b[i + 2] == 67 || b[i + 2] == 99)
    }
}

/// Whether `b` still holds an escaped path separator.
pub open spec fn has_escaped_separator(b: Seq<u8>) -> bool {
    exists|i: int| escaped_separator_at(b, i)
}

fn contains_escaped_separator(b: &[u8]) -> (r: bool)
    ensures
        r == has_escaped_separator(b@),
{
    let n = b.len();
    let mut i: usize = 0;
    while i < n && n - i > 2
        invariant
            n == b@.len(),
            forall|j: int| 0 <= j < i ==> !escaped_separator_at(b@, j),
        decreases n - i,
    {
        if b[i] == PERCENT {
            let c = b[i + 1];
            let d = b[i + 2];
            if (c == 50 && (d == 70 || d == 102)) || (c == 51 && (d == 65 || d == 97)) || (
            c == 53 && (d == 67 || d == 99)) {
                assert(escaped_separator_at(b@, i as int));
                return true;
            }
        }
        i += 1;
    }
    assert forall|j: int| !escaped_separator_at(b@, j) by {
        if 0 <= j && j >= i {
            assert(j + 2 >= n);
        }
    }
    false
}

/// Percent-decodes once, and a second time when the result still holds an
/// escaped path separator, which mends paths that were encoded twice.
pub open spec fn percent_decode_twice_text(s: Seq<char>) -> Seq<char> {
    let once = percent_decode_text(s);
    if has_escaped_separator(encode_utf8(once)) {
        percent_decode_text(once)
    } else {
        once
    }
}

/// Percent-decodes a path, twice where it was encoded twice.
pub fn percent_decode_maybe_twice(input: &str) -> (r: String)
    ensures
        r@ == percent_decode_twice_text(input@),
{
    let once = percent_decode(input);
    if contains_escaped_separator(once.as_str().as_bytes()) {
        percent_decode(once.as_str())
    } else {
        once
    }
}

/// The bytes after the last `sep` of `b` (all of `b` when it holds none).
pub open spec fn tail_after(b: Seq<u8>, sep: u8) -> Seq<u8>
    decreases b.len(),
{
    if b.len() == 0 || b.last() == sep {
        Seq::empty()
    } else {
        tail_after(b.drop_last(), sep).push(b.last())
    }
}

/// The file name of a `/`-separated path: its last component, with
/// trailing separators and `.` components passed over; none when that
/// component is `..` or there is none.
pub open spec fn file_name_of(b: Seq<u8>) -> Option<Seq<u8>>
    decreases b.len(),
{
    if b.len() == 0 {
        None
    } else if b.last() == SLASH {
        file_name_of(b.drop_last())
    } else if tail_after(b, SLASH) == seq![DOT] {
        file_name_of(b.drop_last())
    } else if tail_after(b, SLASH) == seq![DOT, DOT] {
        None
    } else {
        Some(tail_after(b, SLASH))
    }
}

/// The extension of a file name: what follows its last `.`; none when it
/// has no `.` or its only `.` leads it.
pub open spec fn extension_of_name(n: Seq<u8>) -> Option<Seq<u8>> {
    let after = tail_after(n, DOT);
    if after.len() == n.len() || after.len() + 1 == n.len() {
        None
    } else {
        Some(after)
    }
}

/// The extension of a path's file name.
pub open spec fn path_extension(b: Seq<u8>) -> Option<Seq<u8>> {
    match file_name_of(b) {
        Some(n) => extension_of_name(n),
        None => None,
    }
}

fn segment_start(b: &[u8], lo: usize, j: usize, sep: u8) -> (k: usize)
    requires
        lo <= j <= b@.len(),
    ensures
        lo <= k <= j,
        tail_after(b@.subrange(lo as int, j as int), sep) == b@.subrange(k as int, j as int),
        k == lo || b@[k - 1] == sep,
        forall|x: int| k <= x < j ==> b@[x] != sep,
{
    let mut k = j;
    while k > lo && b[k - 1] != sep
        invariant
            lo <= k <= j <= b@.len(),
            tail_after(b@.subrange(lo as int, j as int), sep) == tail_after(
                b@.subrange(lo as int, k as int),
                sep,
            ) + b@.subrange(k as int, j as int),
            forall|x: int| k <= x < j ==> b@[x] != sep,
        decreases k,
    {
        proof {
            let s = b@.subrange(lo as int, k as int);
            assert(s.drop_last() =~= b@.subrange(lo as int, k - 1));
            assert(s.last() == b@[k - 1]);
            assert(tail_after(s, sep) + b@.subrange(k as int, j as int) =~= tail_after(
                b@.subrange(lo as int, k - 1),
                sep,
            ) + b@.subrange(k - 1, j as int));
        }
        k -= 1;
    }
    proof {
        let s = b@.subrange(lo as int, k as int);
        if k > lo {
            assert(s.last() == b@[k - 1]);
        }
        assert(tail_after(s, sep) + b@.subrange(k as int, j as int) =~= b@.subrange(
            k as int,
            j as int,
        ));
    }
    k
}

fn file_name_range(b: &[u8]) -> (r: Option<(usize, usize)>)
    ensures
        match r {
            Some((s, e)) => s <= e <= b@.len() && file_name_of(b@) == Some(
                b@.subrange(s as int, e as int),
            ),
            None => file_name_of(b@) is None,
        },
{
    let mut j = b.len();
    assert(b@.subrange(0, j as int) =~= b@);
    while j > 0
        invariant
            j <= b@.len(),
            file_name_of(b@.subrange(0, j as int)) == file_name_of(b@),
        decreases j,
    {
        let ghost s = b@.subrange(0, j as int);
        assert(s.drop_last() =~= b@.subrange(0, j - 1));
        assert(s.last() == b@[j - 1]);
        if b[j - 1] == SLASH {
            j -= 1;
        } else {
            let k = segment_start(b, 0, j, SLASH);
            if j - k == 1 && b[k] == DOT {
                assert(b@.subrange(k as int, j as int) =~= seq![DOT]);
                j -= 1;
            } else if j - k == 2 && b[k] == DOT && b[k + 1] == DOT {
                assert(b@.subrange(k as int, j as int) =~= seq![DOT, DOT]);
                return None;
            } else {
                let ghost seg = b@.subrange(k as int, j as int);
                assert(seq![DOT].len() == 1 && seq![DOT][0] == DOT);
                assert(seq![DOT, DOT].len() == 2 && seq![DOT, DOT][0] == DOT && seq![DOT, DOT][1] == DOT);
                if j - k == 1 {
                    assert(seg[0] == b@[k as int]);
                }
                if j - k == 2 {
                    assert(seg[0] == b@[k as int] && seg[1] == b@[k + 1]);
                }
                assert(seg != seq![DOT]);
                assert(seg != seq![DOT, DOT]);
                return Some((k, j));
            }
        }
    }
    None
}

fn extension_range(b: &[u8]) -> (r: Option<(usize, usize)>)
    ensures
        match r {
            Some((s, e)) => s <= e <= b@.len() && path_extension(b@) == Some(
                b@.subrange(s as int, e as int),
            ),
            None => path_extension(b@) is None,
        },
{
    match file_name_range(b) {
        None => None,
        Some((s, e)) => {
            let k = segment_start(b, s, e, DOT);
            if k == s || k == s + 1 {
                None
            } else {
                Some((k, e))
            }
        },
    }
}

/// `c` with ASCII upper-case letters made lower-case.
pub open spec fn ascii_lower(c: u8) -> u8 {
    if 65 <= c <= 90 {
        (c + 32) as u8
    } else {
        c
    }
}

/// Whether `a` equals the lower-case ASCII word `w`, ignoring ASCII case.
pub open spec fn equals_ignoring_case(a: Seq<u8>, w: Seq<u8>) -> bool {
    &&& a.len() == w.len()
    &&& forall|i: int| 0 <= i < a.len() ==> ascii_lower(a[i]) == w[i]
}

fn range_equals_ignoring_case(b: &[u8], s: usize, e: usize, w: &Vec<u8>) -> (r: bool)
    requires
        s <= e <= b@.len(),
    ensures
        r == equals_ignoring_case(b@.subrange(s as int, e as int), w@),
{
    if e - s != w.len() {
        return false;
    }
    let mut i: usize = 0;
    while i < w.len()
        invariant
            s <= e <= b@.len(),
            e - s == w@.len(),
            i <= w@.len(),
            forall|x: int| 0 <= x < i ==> ascii_lower(b@[s + x]) == w@[x],
        decreases w@.len() - i,
    {
        let c = b[s + i];
        let lower = if 65 <= c && c <= 90 {
            c + 32
        } else {
            c
        };
        if lower != w[i] {
            assert(b@.subrange(s as int, e as int)[i as int] == c);
            return false;
        }
        i += 1;
    }
    true
}

/// The word `mp3`.
pub open spec fn word_mp3() -> Seq<u8> {
    seq![109u8, 112u8, 51u8]
}

/// The word `flac`.
pub open spec fn word_flac() -> Seq<u8> {
    seq![102u8, 108u8, 97u8, 99u8]
}

/// The word `wav`.
pub open spec fn word_wav() -> Seq<u8> {
    seq![119u8, 97u8, 118u8]
}

/// The word `ogg`.
pub open spec fn word_ogg() -> Seq<u8> {
    seq![111u8, 103u8, 103u8]
}

/// The word `m4a`.
pub open spec fn word_m4a() -> Seq<u8> {
    seq![109u8, 52u8, 97u8]
}

/// The word `aac`.
pub open spec fn word_aac() -> Seq<u8> {
    seq![97u8, 97u8, 99u8]
}

/// The word `aiff`.
pub open spec fn word_aiff() -> Seq<u8> {
    seq![97u8, 105u8, 102u8, 102u8]
}

/// The word `aif`.
pub open spec fn word_aif() -> Seq<u8> {
    seq![97u8, 105u8, 102u8]
}

/// The MIME type served for a path, by its extension in any case;
/// `application/octet-stream` for other extensions and for none.
pub open spec fn mime_of_path(b: Seq<u8>) -> Seq<char> {
    match path_extension(b) {
        Some(e) => {
            if equals_ignoring_case(e, word_mp3()) {
                "audio/mpeg"@
            } else if equals_ignoring_case(e, word_flac()) {
                "audio/flac"@
            } else if equals_ignoring_case(e, word_wav()) {
                "audio/wav"@
            } else if equals_ignoring_case(e, word_ogg()) {
                "audio/ogg"@
            } else if equals_ignoring_case(e, word_m4a()) {
                "audio/mp4"@
            } else if equals_ignoring_case(e, word_aac()) {
                "audio/aac"@
            } else if equals_ignoring_case(e, word_aiff()) {
                "audio/aiff"@
            } else if equals_ignoring_case(e, word_aif()) {
                "audio/aiff"@
            } else {
                "application/octet-stream"@
            }
        },
        None => "application/octet-stream"@,
    }
}

/// Whether a path names an audio file: its extension is, in any case, one
/// of mp3, flac, wav, ogg, m4a, aac, aiff, aif.
pub open spec fn is_audio_path(b: Seq<u8>) -> bool {
    match path_extension(b) {
        Some(e) => {
            ||| equals_ignoring_case(e, word_mp3())
            ||| equals_ignoring_case(e, word_flac())
            ||| equals_ignoring_case(e, word_wav())
            ||| equals_ignoring_case(e, word_ogg())
            ||| equals_ignoring_case(e, word_m4a())
            ||| equals_ignoring_case(e, word_aac())
            ||| equals_ignoring_case(e, word_aiff())
            ||| equals_ignoring_case(e, word_aif())
        },
        None => false,
    }
}

/// The MIME type of an audio file, by its extension.
pub fn audio_mime_type(path: &str) -> (r: &'static str)
    ensures
        r@ == mime_of_path(encode_utf8(path@)),
{
    let b = path.as_bytes();
    match extension_range(b) {
        None => "application/octet-stream",
        Some((s, e)) => {
            if range_equals_ignoring_case(b, s, e, &vec![109u8, 112u8, 51u8]) {
                "audio/mpeg"
            } else if range_equals_ignoring_case(b, s, e, &vec![102u8, 108u8, 97u8, 99u8]) {
                "audio/flac"
            } else if range_equals_ignoring_case(b, s, e, &vec![119u8, 97u8, 118u8]) {
                "audio/wav"
            } else if range_equals_ignoring_case(b, s, e, &vec![111u8, 103u8, 103u8]) {
                "audio/ogg"
            } else if range_equals_ignoring_case(b, s, e, &vec![109u8, 52u8, 97u8]) {
                "audio/mp4"
            } else if range_equals_ignoring_case(b, s, e, &vec![97u8, 97u8, 99u8]) {
                "audio/aac"
            } else if range_equals_ignoring_case(b, s, e, &vec![97u8, 105u8, 102u8, 102u8]) {
                "audio/aiff"
            } else if range_equals_ignoring_case(b, s, e, &vec![97u8, 105u8, 102u8]) {
                "audio/aiff"
            } else {
                "application/octet-stream"
            }
        },
    }
}

/// Whether a path names an audio file, by its extension.
pub fn is_audio_file(path: &str) -> (r: bool)
    ensures
        r == is_audio_path(encode_utf8(path@)),
{
    let b = path.as_bytes();
    match extension_range(b) {
        None => false,
        Some((s, e)) => range_equals_ignoring_case(b, s, e, &vec![109u8, 112u8, 51u8]) || range_equals_ignoring_case(b, s, e, &vec![102u8, 108u8, 97u8, 99u8]) || range_equals_ignoring_case(b, s, e, &vec![119u8, 97u8, 118u8]) || range_equals_ignoring_case(b, s, e, &vec![111u8, 103u8, 103u8]) || range_equals_ignoring_case(b, s, e, &vec![109u8, 52u8, 97u8]) || range_equals_ignoring_case(b, s, e, &vec![97u8, 97u8, 99u8]) || range_equals_ignoring_case(b, s, e, &vec![97u8, 105u8, 102u8, 102u8]) || range_equals_ignoring_case(b, s, e, &vec![97u8, 105u8, 102u8]),
    }
}

} // verus!
