//! The HTTP `Range` header of audio stream requests.
use vstd::prelude::*;
use vstd::utf8::encode_utf8;
use crate::paths::{ascii_lower, equals_ignoring_case};

verus! {

/// ASCII `-`.
pub const DASH: u8 = 45;

/// ASCII `+`.
pub const PLUS: u8 = 43;

/// ASCII white space: space, tab, line feed, vertical tab, form feed,
/// carriage return.
pub open spec fn is_space(c: u8) -> bool {
    c == 32 || (9 <= c && c <= 13)
}

/// `b` without its leading white space.
pub open spec fn trim_start(b: Seq<u8>) -> Seq<u8>
    decreases b.len(),
{
    if b.len() > 0 && is_space(b[0]) {
        trim_start(b.drop_first())
    } else {
        b
    }
}

/// `b` without its trailing white space.
pub open spec fn trim_end(b: Seq<u8>) -> Seq<u8>
    decreases b.len(),
{
    if b.len() > 0 && is_space(b.last()) {
        trim_end(b.drop_last())
    } else {
        b
    }
}

/// `b` without leading and trailing white space.
pub open spec fn trim(b: Seq<u8>) -> Seq<u8> {
    trim_end(trim_start(b))
}

/// The bytes of `b` before its first `sep` (all of `b` when it holds none).
pub open spec fn field_before(b: Seq<u8>, sep: u8) -> Seq<u8>
    decreases b.len(),
{
    if b.len() == 0 || b[0] == sep {
        Seq::empty()
    } else {
        seq![b[0]] + field_before(b.drop_first(), sep)
    }
}

/// Whether every byte of `d` is a decimal digit.
pub open spec fn all_digits(d: Seq<u8>) -> bool {
    forall|i: int| 0 <= i < d.len() ==> 48 <= #[trigger] d[i] <= 57
}

/// The number that the decimal digits `d` spell.
pub open spec fn digits_value(d: Seq<u8>) -> nat
    decreases d.len(),
{
    if d.len() == 0 {
        0
    } else {
        digits_value(d.drop_last()) * 10 + (d.last() - 48) as nat
    }
}

/// A `usize` written in decimal, with an optional leading `+`: none when
/// there are no digits, something else, or a value beyond `usize::MAX`.
pub open spec fn parse_usize(b: Seq<u8>) -> Option<usize> {
    let d = if b.len() > 0 && b[0] == PLUS {
        b.drop_first()
    } else {
        b
    };
    if d.len() > 0 && all_digits(d) && digits_value(d) <= usize::MAX {
        Some(digits_value(d) as usize)
    } else {
        None
    }
}

/// The word `bytes=`.
pub open spec fn word_bytes_unit() -> Seq<u8> {
    seq![98u8, 121u8, 116u8, 101u8, 115u8, 61u8]
}

/// The byte range `[start, end)` that a `Range` header asks of a body of
/// `total` bytes. The header is `bytes=START-END` (the unit in any case,
/// white space allowed around the parts): `END` is inclusive and is cut to
/// the body; without it the range runs to the end. Fields after a second
/// `-` are ignored. There is no range when the header is malformed, when
/// `START` is not before the end of the body, or when the range is empty.
pub open spec fn requested_range(header: Seq<u8>, total: usize) -> Option<(usize, usize)> {
    let h = trim(header);
    if h.len() < 6 || !equals_ignoring_case(h.take(6), word_bytes_unit()) {
        None
    } else {
        let rest = trim(h.skip(6));
        let first = field_before(rest, DASH);
        let second = if first.len() < rest.len() {
            field_before(rest.skip(first.len() + 1 as int), DASH)
        } else {
            Seq::empty()
        };
        let end_text = trim(second);
        match parse_usize(trim(first)) {
            None => None,
            Some(start) => {
                let end: Option<usize> = if end_text.len() == 0 {
                    Some(total)
                } else {
                    match parse_usize(end_text) {
                        Some(e) => Some(
                            if e < total {
                                (e + 1) as usize
                            } else {
                                total
                            },
                        ),
                        None => None,
                    }
                };
                match end {
                    Some(end) => if start >= total || start >= end {
                        None
                    } else {
                        Some((start, end))
                    },
                    None => None,
                }
            },
        }
    }
}

fn trim_range(b: &[u8], lo: usize, hi: usize) -> (r: (usize, usize))
    requires
        lo <= hi <= b@.len(),
    ensures
        lo <= r.0 <= r.1 <= hi,
        trim(b@.subrange(lo as int, hi as int)) == b@.subrange(r.0 as int, r.1 as int),
{
    let mut i = lo;
    while i < hi && (b[i] == 32 || (9 <= b[i] && b[i] <= 13))
        invariant
            lo <= i <= hi <= b@.len(),
            trim_start(b@.subrange(lo as int, hi as int)) == trim_start(
                b@.subrange(i as int, hi as int),
            ),
        decreases hi - i,
    {
        assert(b@.subrange(i as int, hi as int).drop_first() =~= b@.subrange(i + 1, hi as int));
        i += 1;
    }
    let mut j = hi;
    while j > i && (b[j - 1] == 32 || (9 <= b[j - 1] && b[j - 1] <= 13))
        invariant
            lo <= i <= j <= hi <= b@.len(),
            trim_start(b@.subrange(lo as int, hi as int)) == b@.subrange(i as int, hi as int),
            trim_end(b@.subrange(i as int, hi as int)) == trim_end(
                b@.subrange(i as int, j as int),
            ),
        decreases j - i,
    {
        assert(b@.subrange(i as int, j as int).drop_last() =~= b@.subrange(i as int, j - 1));
        j -= 1;
    }
    (i, j)
}

fn field_end(b: &[u8], lo: usize, hi: usize, sep: u8) -> (k: usize)
    requires
        lo <= hi <= b@.len(),
    ensures
        lo <= k <= hi,
        field_before(b@.subrange(lo as int, hi as int), sep) == b@.subrange(lo as int, k as int),
        k < hi ==> b@[k as int] == sep,
{
    let mut k = lo;
    assert(b@.subrange(lo as int, lo as int) + b@.subrange(lo as int, hi as int) =~= b@.subrange(
        lo as int,
        hi as int,
    ));
    while k < hi && b[k] != sep
        invariant
            lo <= k <= hi <= b@.len(),
            field_before(b@.subrange(lo as int, hi as int), sep) == b@.subrange(lo as int, k as int)
                + field_before(b@.subrange(k as int, hi as int), sep),
        decreases hi - k,
    {
        let ghost s = b@.subrange(k as int, hi as int);
        assert(s.drop_first() =~= b@.subrange(k + 1, hi as int));
        assert(b@.subrange(lo as int, k as int) + (seq![s[0]] + field_before(s.drop_first(), sep))
            =~= b@.subrange(lo as int, k + 1) + field_before(b@.subrange(k + 1, hi as int), sep));
        k += 1;
    }
    assert(b@.subrange(lo as int, k as int) + field_before(b@.subrange(k as int, hi as int), sep)
        =~= b@.subrange(lo as int, k as int));
    k
}

proof fn lemma_digits_value_grows(d: Seq<u8>, j: int)
    requires
        0 <= j <= d.len(),
    ensures
        digits_value(d) >= digits_value(d.take(j)),
    decreases d.len(),
{
    if j < d.len() {
        assert(d.drop_last().take(j) =~= d.take(j));
        lemma_digits_value_grows(d.drop_last(), j);
    } else {
        assert(d.take(j) =~= d);
    }
}

proof fn lemma_parse_usize_digits(whole: Seq<u8>, d: Seq<u8>)
    requires
        d == (if whole.len() > 0 && whole[0] == PLUS {
            whole.drop_first()
        } else {
            whole
        }),
    ensures
        parse_usize(whole) == (if d.len() > 0 && all_digits(d) && digits_value(d) <= usize::MAX {
            Some(digits_value(d) as usize)
        } else {
            None
        }),
{
}

fn parse_usize_range(b: &[u8], lo: usize, hi: usize) -> (r: Option<usize>)
    requires
        lo <= hi <= b@.len(),
    ensures
        r == parse_usize(b@.subrange(lo as int, hi as int)),
{
    let ghost whole = b@.subrange(lo as int, hi as int);
    let s = if lo < hi && b[lo] == PLUS {
        lo + 1
    } else {
        lo
    };
    let ghost d = b@.subrange(s as int, hi as int);
    proof {
        if lo < hi {
            assert(whole[0] == b@[lo as int]);
        }
        assert(d =~= (if whole.len() > 0 && whole[0] == PLUS {
            whole.drop_first()
        } else {
            whole
        }));
        lemma_parse_usize_digits(whole, d);
    }
    if s == hi {
        return None;
    }
    let mut acc: usize = 0;
    let mut i = s;
    assert(b@.subrange(s as int, s as int) =~= Seq::<u8>::empty());
    while i < hi
        invariant
            s <= i <= hi <= b@.len(),
            whole == b@.subrange(lo as int, hi as int),
            d == b@.subrange(s as int, hi as int),
            parse_usize(whole) == (if d.len() > 0 && all_digits(d) && digits_value(d)
                <= usize::MAX {
                Some(digits_value(d) as usize)
            } else {
                None
            }),
            acc == digits_value(b@.subrange(s as int, i as int)),
            all_digits(b@.subrange(s as int, i as int)),
        decreases hi - i,
    {
        let c = b[i];
        let ghost p = b@.subrange(s as int, i + 1);
        assert(p.drop_last() =~= b@.subrange(s as int, i as int));
        assert(p.last() == c);
        assert(d.take(i + 1 - s) =~= p);
        if c < 48 || c > 57 {
            assert(d[i - s] == c);
            assert(!all_digits(d));
            return None;
        }
        let digit = (c - 48) as usize;
        assert(digits_value(p) == acc * 10 + digit);
        match acc.checked_mul(10) {
            None => {
                proof {
                    if all_digits(d) {
                        lemma_digits_value_grows(d, i + 1 - s);
                    }
                }
                return None;
            },
            Some(m) => match m.checked_add(digit) {
                None => {
                    proof {
                        if all_digits(d) {
                            lemma_digits_value_grows(d, i + 1 - s);
                        }
                    }
                    return None;
                },
                Some(v) => {
                    acc = v;
                },
            },
        }
        assert(all_digits(p));
        i += 1;
    }
    assert(b@.subrange(s as int, i as int) =~= d);
    Some(acc)
}

fn has_bytes_unit(b: &[u8], lo: usize, hi: usize) -> (r: bool)
    requires
        lo <= hi <= b@.len(),
    ensures
        r == (hi - lo >= 6 && equals_ignoring_case(
            b@.subrange(lo as int, hi as int).take(6),
            word_bytes_unit(),
        )),
{
    let ghost h = b@.subrange(lo as int, hi as int);
    if hi - lo < 6 {
        return false;
    }
    let unit = vec![98u8, 121u8, 116u8, 101u8, 115u8, 61u8];
    let mut i: usize = 0;
    while i < 6
        invariant
            lo + 6 <= hi <= b@.len(),
            h == b@.subrange(lo as int, hi as int),
            i <= 6,
            unit@ == word_bytes_unit(),
            forall|x: int| 0 <= x < i ==> ascii_lower(#[trigger] h.take(6)[x]) == unit@[x],
        decreases 6 - i,
    {
        let c = b[lo + i];
        assert(h.take(6)[i as int] == c);
        let lower = if 65 <= c && c <= 90 {
            c + 32
        } else {
            c
        };
        if lower != unit[i] {
            return false;
        }
        i += 1;
    }
    true
}

/// The byte range `[start, end)` that a `Range` header asks of a body of
/// `total_len` bytes, as `requested_range` says.
pub fn parse_range(range_header: &str, total_len: usize) -> (r: Option<(usize, usize)>)
    ensures
        r == requested_range(encode_utf8(range_header@), total_len),
{
    let b = range_header.as_bytes();
    let (lo, hi) = trim_range(b, 0, b.len());
    assert(b@.subrange(0, b@.len() as int) =~= b@);
    let ghost h = b@.subrange(lo as int, hi as int);
    if !has_bytes_unit(b, lo, hi) {
        return None;
    }
    let (rlo, rhi) = trim_range(b, lo + 6, hi);
    assert(h.skip(6) =~= b@.subrange(lo + 6, hi as int));
    let ghost rest = b@.subrange(rlo as int, rhi as int);
    let k = field_end(b, rlo, rhi, DASH);
    let (slo, shi) = trim_range(b, rlo, k);
    let (elo, ehi) = if k < rhi {
        let k2 = field_end(b, k + 1, rhi, DASH);
        assert(rest.skip(k - rlo + 1) =~= b@.subrange(k + 1, rhi as int));
        trim_range(b, k + 1, k2)
    } else {
        assert(b@.subrange(k as int, k as int) =~= Seq::<u8>::empty());
        assert(trim(Seq::<u8>::empty()) =~= Seq::<u8>::empty());
        (k, k)
    };
    let ghost end_text = b@.subrange(elo as int, ehi as int);
    let start = match parse_usize_range(b, slo, shi) {
        Some(s) => s,
        None => return None,
    };
    let end = if elo == ehi {
        assert(end_text.len() == 0);
        total_len
    } else {
        match parse_usize_range(b, elo, ehi) {
            Some(e) => if e < total_len {
                e + 1
            } else {
                total_len
            },
            None => return None,
        }
    };
    if start >= total_len || start >= end {
        return None;
    }
    Some((start, end))
}

} // verus!
