use recodeck_audio::key::{camelot, chroma_bin_counts, key_names, musical_key, open_key, pitch_class_from_a};

#[test]
fn test_camelot_tables_valid() {
    let mut all_codes: Vec<String> = Vec::new();
    for minor in [false, true] {
        for pc in 0..12 {
            let name = camelot(pc, minor);
            let num_part = &name[..name.len() - 1];
            let letter = &name[name.len() - 1..];
            let num: u32 = num_part.parse().expect("Camelot number should parse");
            assert!(num >= 1 && num <= 12, "Number should be 1-12, got {}", num);
            assert!(letter == "A" || letter == "B", "Letter should be A or B, got {}", letter);
            all_codes.push(name);
        }
    }
    all_codes.sort();
    all_codes.dedup();
    assert_eq!(all_codes.len(), 24, "Should have 24 unique Camelot codes");
}

#[test]
fn test_musical_key_names_valid() {
    for pc in 0..12 {
        let name = musical_key(pc, false);
        assert!(!name.ends_with('m'), "Major key should not end with 'm': {}", name);
    }
    for pc in 0..12 {
        let name = musical_key(pc, true);
        assert!(name.ends_with('m'), "Minor key should end with 'm': {}", name);
    }
}

#[test]
fn camelot_tables_match_the_wheel() {
    let major = ["8B", "3B", "10B", "5B", "12B", "7B", "2B", "9B", "4B", "11B", "6B", "1B"];
    let minor = ["5A", "12A", "7A", "2A", "9A", "4A", "11A", "6A", "1A", "8A", "3A", "10A"];
    for pc in 0..12 {
        assert_eq!(camelot(pc, false), major[pc]);
        assert_eq!(camelot(pc, true), minor[pc]);
    }
}

#[test]
fn open_key_tables() {
    assert_eq!(open_key(0, false), "8d");
    assert_eq!(open_key(9, true), "8m");
    assert_eq!(open_key(4, false), "12d");
    assert_eq!(open_key(1, true), "12m");
}

#[test]
fn relative_keys_share_a_number() {
    for pc in 0..12 {
        let major = camelot(pc, false);
        let minor = camelot((pc + 9) % 12, true);
        assert_eq!(major[..major.len() - 1], minor[..minor.len() - 1]);
    }
}

#[test]
fn a_major_and_a_minor_names() {
    let a_major = key_names(9, false);
    assert_eq!(a_major.camelot, "11B");
    assert_eq!(a_major.open_key, "11d");
    assert_eq!(a_major.musical_key, "A");
    let a_minor = key_names(9, true);
    assert_eq!(a_minor.camelot, "8A");
    assert_eq!(a_minor.open_key, "8m");
    assert_eq!(a_minor.musical_key, "Am");
    assert_eq!(musical_key(1, true), "C#m");
    assert_eq!(musical_key(10, false), "Bb");
}

#[test]
fn pitch_classes_from_a() {
    assert_eq!(pitch_class_from_a(0), 9);
    assert_eq!(pitch_class_from_a(3), 0);
    assert_eq!(pitch_class_from_a(-9), 0);
    assert_eq!(pitch_class_from_a(-10), 11);
    assert_eq!(pitch_class_from_a(-33), 0);
    assert_eq!(pitch_class_from_a(15), 0);
    assert_eq!(pitch_class_from_a(i32::MIN), ((i32::MIN as i64 + 9).rem_euclid(12)) as usize);
}

#[test]
fn chroma_range_bounds_are_inclusive() {
    assert!(!chroma_bin_counts(6, 4096, 44100));
    assert!(chroma_bin_counts(7, 4096, 44100));
    assert!(chroma_bin_counts(185, 4096, 44100));
    assert!(!chroma_bin_counts(186, 4096, 44100));
    assert!(chroma_bin_counts(65, 4096, 4096));
    assert!(chroma_bin_counts(2000, 4096, 4096));
    assert!(!chroma_bin_counts(64, 4096, 4096));
    assert!(!chroma_bin_counts(10, 4096, 0));
}
