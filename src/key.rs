//! Key notation: the Camelot wheel, Open Key and conventional key names of
//! the 24 major and minor keys, and the pitch-class arithmetic of the
//! chromagram.
use vstd::prelude::*;

verus! {

/// Number of pitch classes (C, C#, ..., B).
pub const PITCH_CLASSES: usize = 12;

/// Lowest frequency, in Hz, that the chromagram counts.
pub const CHROMA_MIN_HZ: u64 = 65;

/// Highest frequency, in Hz, that the chromagram counts.
pub const CHROMA_MAX_HZ: u64 = 2000;

/// Camelot wheel number (1 to 12) of the key with tonic `pc` (0 = C); minor
/// keys sit on the outer ring (A), major keys on the inner ring (B).
pub open spec fn camelot_number(pc: nat, minor: bool) -> nat {
    if minor {
        (7 * pc + 4) % 12 + 1
    } else {
        (7 * pc + 7) % 12 + 1
    }
}

/// The decimal digit `d`.
pub open spec fn digit_char(d: nat) -> char {
    if d == 0 {
        '0'
    } else if d == 1 {
        '1'
    } else if d == 2 {
        '2'
    } else if d == 3 {
        '3'
    } else if d == 4 {
        '4'
    } else if d == 5 {
        '5'
    } else if d == 6 {
        '6'
    } else if d == 7 {
        '7'
    } else if d == 8 {
        '8'
    } else {
        '9'
    }
}

/// The decimal text of a wheel number below 20.
pub open spec fn number_text(n: nat) -> Seq<char> {
    if n < 10 {
        seq![digit_char(n)]
    } else {
        seq!['1', digit_char((n - 10) as nat)]
    }
}

/// Camelot code of a key: wheel number, then `A` (minor) or `B` (major).
pub open spec fn camelot_code(pc: nat, minor: bool) -> Seq<char> {
    number_text(camelot_number(pc, minor)) + seq![if minor { 'A' } else { 'B' }]
}

/// Open Key code of a key: wheel number, then `m` (minor) or `d` (major).
pub open spec fn open_key_code(pc: nat, minor: bool) -> Seq<char> {
    number_text(camelot_number(pc, minor)) + seq![if minor { 'm' } else { 'd' }]
}

/// Conventional name of the major key with tonic `pc`.
pub open spec fn major_name(pc: nat) -> Seq<char> {
    if pc == 0 {
        "C"@
    } else if pc == 1 {
        "Db"@
    } else if pc == 2 {
        "D"@
    } else if pc == 3 {
        "Eb"@
    } else if pc == 4 {
        "E"@
    } else if pc == 5 {
        "F"@
    } else if pc == 6 {
        "F#"@
    } else if pc == 7 {
        "G"@
    } else if pc == 8 {
        "Ab"@
    } else if pc == 9 {
        "A"@
    } else if pc == 10 {
        "Bb"@
    } else {
        "B"@
    }
}

/// Conventional name of the minor key with tonic `pc`.
pub open spec fn minor_name(pc: nat) -> Seq<char> {
    if pc == 0 {
        "Cm"@
    } else if pc == 1 {
        "C#m"@
    } else if pc == 2 {
        "Dm"@
    } else if pc == 3 {
        "Ebm"@
    } else if pc == 4 {
        "Em"@
    } else if pc == 5 {
        "Fm"@
    } else if pc == 6 {
        "F#m"@
    } else if pc == 7 {
        "Gm"@
    } else if pc == 8 {
        "G#m"@
    } else if pc == 9 {
        "Am"@
    } else if pc == 10 {
        "Bbm"@
    } else {
        "Bm"@
    }
}

/// Conventional name of a key.
pub open spec fn musical_name(pc: nat, minor: bool) -> Seq<char> {
    if minor {
        minor_name(pc)
    } else {
        major_name(pc)
    }
}

/// A key in the three notations.
#[derive(Clone, Debug)]
pub struct KeyNames {
    pub camelot: String,
    pub open_key: String,
    pub musical_key: String,
}

fn number_str(n: usize) -> (r: &'static str)
    requires
        1 <= n <= 12,
    ensures
        r@ == number_text(n as nat),
{
    match n {
        1 => {
            proof {
                reveal_strlit("1");
            }
            "1"
        },
        2 => {
            proof {
                reveal_strlit("2");
            }
            "2"
        },
        3 => {
            proof {
                reveal_strlit("3");
            }
            "3"
        },
        4 => {
            proof {
                reveal_strlit("4");
            }
            "4"
        },
        5 => {
            proof {
                reveal_strlit("5");
            }
            "5"
        },
        6 => {
            proof {
                reveal_strlit("6");
            }
            "6"
        },
        7 => {
            proof {
                reveal_strlit("7");
            }
            "7"
        },
        8 => {
            proof {
                reveal_strlit("8");
            }
            "8"
        },
        9 => {
            proof {
                reveal_strlit("9");
            }
            "9"
        },
        10 => {
            proof {
                reveal_strlit("10");
            }
            "10"
        },
        11 => {
            proof {
                reveal_strlit("11");
            }
            "11"
        },
        _ => {
            proof {
                reveal_strlit("12");
            }
            "12"
        },
    }
}

/// The Camelot code of the key with tonic `pc` (0 = C, ..., 11 = B).
pub fn camelot(pc: usize, minor: bool) -> (r: String)
    requires
        pc < PITCH_CLASSES,
    ensures
        r@ == camelot_code(pc as nat, minor),
{
    let n = if minor {
        (7 * pc + 4) % 12 + 1
    } else {
        (7 * pc + 7) % 12 + 1
    };
    let letter = if minor {
        proof {
            reveal_strlit("A");
        }
        "A"
    } else {
        proof {
            reveal_strlit("B");
        }
        "B"
    };
    let r = String::from_str(number_str(n)).concat(letter);
    assert(r@ =~= camelot_code(pc as nat, minor));
    r
}

/// The Open Key code of the key with tonic `pc`.
pub fn open_key(pc: usize, minor: bool) -> (r: String)
    requires
        pc < PITCH_CLASSES,
    ensures
        r@ == open_key_code(pc as nat, minor),
{
    let n = if minor {
        (7 * pc + 4) % 12 + 1
    } else {
        (7 * pc + 7) % 12 + 1
    };
    let letter = if minor {
        proof {
            reveal_strlit("m");
        }
        "m"
    } else {
        proof {
            reveal_strlit("d");
        }
        "d"
    };
    let r = String::from_str(number_str(n)).concat(letter);
    assert(r@ =~= open_key_code(pc as nat, minor));
    r
}

/// The conventional name of the key with tonic `pc`: the note, with `m`
/// after it for minor keys.
pub fn musical_key(pc: usize, minor: bool) -> (r: String)
    requires
        pc < PITCH_CLASSES,
    ensures
        r@ == musical_name(pc as nat, minor),
{
    let s: &'static str = if minor {
        match pc {
            0 => "Cm",
            1 => "C#m",
            2 => "Dm",
            3 => "Ebm",
            4 => "Em",
            5 => "Fm",
            6 => "F#m",
            7 => "Gm",
            8 => "G#m",
            9 => "Am",
            10 => "Bbm",
            _ => "Bm",
        }
    } else {
        match pc {
            0 => "C",
            1 => "Db",
            2 => "D",
            3 => "Eb",
            4 => "E",
            5 => "F",
            6 => "F#",
            7 => "G",
            8 => "Ab",
            9 => "A",
            10 => "Bb",
            _ => "B",
        }
    };
    String::from_str(s)
}

/// The key with tonic `pc` in all three notations.
pub fn key_names(pc: usize, minor: bool) -> (r: KeyNames)
    requires
        pc < PITCH_CLASSES,
    ensures
        r.camelot@ == camelot_code(pc as nat, minor),
        r.open_key@ == open_key_code(pc as nat, minor),
        r.musical_key@ == musical_name(pc as nat, minor),
{
    KeyNames { camelot: camelot(pc, minor), open_key: open_key(pc, minor), musical_key: musical_key(pc, minor) }
}

/// Every Camelot code is a wheel number from 1 to 12 followed by `A` or `B`,
/// `A` exactly for minor keys.
pub proof fn lemma_camelot_code_shape(pc: nat, minor: bool)
    requires
        pc < 12,
    ensures
        1 <= camelot_number(pc, minor) <= 12,
        camelot_code(pc, minor) == number_text(camelot_number(pc, minor)) + seq![
            if minor {
                'A'
            } else {
                'B'
            },
        ],
        camelot_code(pc, minor).last() == 'A' <==> minor,
        camelot_code(pc, minor).last() == 'A' || camelot_code(pc, minor).last() == 'B',
{
}

proof fn lemma_number_text_injective(a: nat, b: nat)
    requires
        1 <= a <= 12,
        1 <= b <= 12,
        number_text(a) == number_text(b),
    ensures
        a == b,
{
    let ta = number_text(a);
    let tb = number_text(b);
    if a < 10 {
        assert(ta.len() == 1 && ta[0] == digit_char(a));
    } else {
        assert(ta.len() == 2 && ta[1] == digit_char((a - 10) as nat));
    }
    if b < 10 {
        assert(tb.len() == 1 && tb[0] == digit_char(b));
    } else {
        assert(tb.len() == 2 && tb[1] == digit_char((b - 10) as nat));
    }
}

/// The 24 keys have 24 different Camelot codes.
pub proof fn lemma_camelot_codes_distinct(pc1: nat, minor1: bool, pc2: nat, minor2: bool)
    requires
        pc1 < 12,
        pc2 < 12,
        pc1 != pc2 || minor1 != minor2,
    ensures
        camelot_code(pc1, minor1) != camelot_code(pc2, minor2),
{
    let c1 = camelot_code(pc1, minor1);
    let c2 = camelot_code(pc2, minor2);
    let t1 = number_text(camelot_number(pc1, minor1));
    let t2 = number_text(camelot_number(pc2, minor2));
    if c1 == c2 {
        assert(c1.last() == c2.last());
        assert(minor1 == minor2);
        assert(t1 =~= c1.drop_last());
        assert(t2 =~= c2.drop_last());
        lemma_number_text_injective(camelot_number(pc1, minor1), camelot_number(pc2, minor2));
        assert(pc1 == pc2);
    }
}

/// A major key and its relative minor (three semitones below, that is nine
/// above) share a wheel number.
pub proof fn lemma_relative_keys_share_number(pc: nat)
    requires
        pc < 12,
    ensures
        camelot_number(pc, false) == camelot_number((pc + 9) % 12, true),
        camelot_code(pc, false).drop_last() == camelot_code((pc + 9) % 12, true).drop_last(),
        open_key_code(pc, false).drop_last() == open_key_code((pc + 9) % 12, true).drop_last(),
{
    let m = (pc + 9) % 12;
    assert(camelot_code(pc, false).drop_last() =~= number_text(camelot_number(pc, false)));
    assert(camelot_code(m, true).drop_last() =~= number_text(camelot_number(m, true)));
    assert(open_key_code(pc, false).drop_last() =~= number_text(camelot_number(pc, false)));
    assert(open_key_code(m, true).drop_last() =~= number_text(camelot_number(m, true)));
}

/// Minor key names end in `m`; major key names do not.
pub proof fn lemma_musical_names_mark_mode(pc: nat)
    requires
        pc < 12,
    ensures
        minor_name(pc).last() == 'm',
        major_name(pc).last() != 'm',
{
    reveal_strlit("C");
    reveal_strlit("Db");
    reveal_strlit("D");
    reveal_strlit("Eb");
    reveal_strlit("E");
    reveal_strlit("F");
    reveal_strlit("F#");
    reveal_strlit("G");
    reveal_strlit("Ab");
    reveal_strlit("A");
    reveal_strlit("Bb");
    reveal_strlit("B");
    reveal_strlit("Cm");
    reveal_strlit("C#m");
    reveal_strlit("Dm");
    reveal_strlit("Ebm");
    reveal_strlit("Em");
    reveal_strlit("Fm");
    reveal_strlit("F#m");
    reveal_strlit("Gm");
    reveal_strlit("G#m");
    reveal_strlit("Am");
    reveal_strlit("Bbm");
    reveal_strlit("Bm");
}

/// The pitch class (0 = C) of the note `semitones` equal-tempered semitones
/// above A (below, when negative).
pub open spec fn pitch_class_of(semitones: int) -> nat {
    ((semitones + 9) % 12) as nat
}

/// The pitch class of a note given as its (rounded) semitone distance from A.
pub fn pitch_class_from_a(semitones: i32) -> (r: usize)
    ensures
        r == pitch_class_of(semitones as int),
        r < PITCH_CLASSES,
{
    let t: i64 = semitones as i64 + 9;
    let m: i64 = t % 12;
    let r: i64 = if m < 0 {
        m + 12
    } else {
        m
    };
    r as usize
}

/// Whether spectrum bin `bin` of a `fft_size`-sample spectrum at
/// `sample_rate` lies between `CHROMA_MIN_HZ` and `CHROMA_MAX_HZ` (both
/// included); its centre frequency is `bin * sample_rate / fft_size`.
pub open spec fn in_chroma_range(bin: nat, fft_size: nat, sample_rate: nat) -> bool {
    &&& bin * sample_rate >= CHROMA_MIN_HZ * fft_size
    &&& bin * sample_rate <= CHROMA_MAX_HZ * fft_size
}

/// Whether a bin of the key spectrum counts towards the chromagram.
pub fn chroma_bin_counts(bin: usize, fft_size: usize, sample_rate: u32) -> (r: bool)
    requires
        bin <= fft_size,
        fft_size <= 65536,
    ensures
        r == in_chroma_range(bin as nat, fft_size as nat, sample_rate as nat),
{
    assert(bin * sample_rate <= 65536 * 4294967295u64) by (nonlinear_arith)
        requires
            bin <= 65536,
            sample_rate <= 4294967295u64,
    ;
    let at = (bin as u64) * (sample_rate as u64);
    at >= CHROMA_MIN_HZ * (fft_size as u64) && at <= CHROMA_MAX_HZ * (fft_size as u64)
}

} // verus!
