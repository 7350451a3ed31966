use recodeck_audio::paths::{audio_mime_type, hex_val, is_audio_file, percent_decode, percent_decode_maybe_twice};

#[test]
fn hex_digits() {
    assert_eq!(hex_val(b'0'), Some(0));
    assert_eq!(hex_val(b'9'), Some(9));
    assert_eq!(hex_val(b'a'), Some(10));
    assert_eq!(hex_val(b'F'), Some(15));
    assert_eq!(hex_val(b'g'), None);
    assert_eq!(hex_val(b'%'), None);
}

#[test]
fn percent_decoding() {
    assert_eq!(percent_decode("My%20Music/a%2Fb.mp3"), "My Music/a/b.mp3");
    assert_eq!(percent_decode("caf%C3%A9"), "café");
    assert_eq!(percent_decode("100%"), "100%");
    assert_eq!(percent_decode("%2"), "%2");
    assert_eq!(percent_decode("%zz%41"), "%zzA");
    assert_eq!(percent_decode(""), "");
}

#[test]
fn invalid_utf8_keeps_the_input() {
    assert_eq!(percent_decode("bad%FFbyte"), "bad%FFbyte");
}

#[test]
fn double_encoded_paths_are_decoded_twice() {
    assert_eq!(percent_decode_maybe_twice("%252FUsers%252Fme"), "/Users/me");
    assert_eq!(percent_decode_maybe_twice("C%253A%255Cx"), "C:\\x");
    assert_eq!(percent_decode_maybe_twice("50%2525"), "50%25");
    assert_eq!(percent_decode_maybe_twice("a%20b"), "a b");
}

#[test]
fn mime_types_by_extension() {
    assert_eq!(audio_mime_type("/m/a.mp3"), "audio/mpeg");
    assert_eq!(audio_mime_type("/m/a.FLAC"), "audio/flac");
    assert_eq!(audio_mime_type("a.wav"), "audio/wav");
    assert_eq!(audio_mime_type("a.ogg"), "audio/ogg");
    assert_eq!(audio_mime_type("a.M4a"), "audio/mp4");
    assert_eq!(audio_mime_type("a.aac"), "audio/aac");
    assert_eq!(audio_mime_type("a.aiff"), "audio/aiff");
    assert_eq!(audio_mime_type("a.AIF"), "audio/aiff");
    assert_eq!(audio_mime_type("a.txt"), "application/octet-stream");
    assert_eq!(audio_mime_type("mp3"), "application/octet-stream");
    assert_eq!(audio_mime_type(".mp3"), "application/octet-stream");
    assert_eq!(audio_mime_type("dir.mp3/"), "audio/mpeg");
    assert_eq!(audio_mime_type("dir.mp3/."), "audio/mpeg");
    assert_eq!(audio_mime_type("x.mp3/.."), "application/octet-stream");
}

#[test]
fn audio_files_by_extension() {
    for p in ["a.mp3", "b.flac", "c.wav", "d.ogg", "e.m4a", "f.aac", "g.aiff", "h.aif", "/x/y/Z.MP3"] {
        assert!(is_audio_file(p), "{}", p);
    }
    for p in ["a.txt", "mp3", ".mp3", "/", "", "a.mp33", "..mp3x", "a.mp3.bak"] {
        assert!(!is_audio_file(p), "{}", p);
    }
    assert!(is_audio_file("..mp3"));
}

#[test]
fn extension_rules_follow_std_path() {
    let cases = ["a.mp3", ".mp3", "..mp3", "a.mp3/", "a.mp3/.", "a.mp3//./", "x/..", "./", ".", "a..", "a.b.wav", "dir/.hidden.ogg"];
    for c in cases {
        let std_ext = std::path::Path::new(c)
            .extension()
            .and_then(|e| e.to_str())
            .map(|s| s.to_lowercase());
        let expected = matches!(
            std_ext.as_deref(),
            Some("mp3") | Some("flac") | Some("wav") | Some("ogg") | Some("m4a") | Some("aac") | Some("aiff") | Some("aif")
        );
        assert_eq!(is_audio_file(c), expected, "{}", c);
    }
}
