use whisper_stt::text::{
    strip_prefix_or_same, strip_suffix_or_same, to_ascii_lower, to_dashed, to_decimal,
    to_squeezed, trim,
};

#[test]
fn white_space_is_that_of_unicode() {
    for c in '\0'..=char::MAX {
        let padded = format!("{c}x{c}");
        assert_eq!(trim(&padded), padded.trim(), "padding with {c:?}");
    }
}

#[test]
fn trimming_keeps_inner_white_space() {
    assert_eq!(trim(" \t a b \n"), "a b");
    assert_eq!(trim("   "), "");
    assert_eq!(trim(""), "");
}

#[test]
fn only_ascii_letters_are_lower_cased() {
    for c in '\0'..='\u{17f}' {
        assert_eq!(to_ascii_lower(&c.to_string()), c.to_string().to_ascii_lowercase());
    }
}

#[test]
fn affixes_are_stripped_once() {
    assert_eq!(strip_suffix_or_same("a.bin.bin", ".bin"), "a.bin");
    assert_eq!(strip_suffix_or_same("bin", ".bin"), "bin");
    assert_eq!(strip_suffix_or_same(".bin", ".bin"), "");
    assert_eq!(strip_prefix_or_same("ggml-ggml-a", "ggml-"), "ggml-a");
    assert_eq!(strip_prefix_or_same("ggml", "ggml-"), "ggml");
}

#[test]
fn separators_become_dashes() {
    assert_eq!(to_dashed("a_b c-d.e"), "a-b-c-d.e");
}

#[test]
fn underscores_and_spaces_are_squeezed_out() {
    assert_eq!(to_squeezed("_a_b c-d.e \t"), "abc-d.e\t");
    assert_eq!(to_squeezed("_ _"), "");
    assert_eq!(to_squeezed(""), "");
}

#[test]
fn numbers_are_written_in_decimal() {
    for n in [0u32, 7, 10, 404, 16_000, 44_100, u32::MAX] {
        assert_eq!(to_decimal(n), n.to_string());
    }
}
