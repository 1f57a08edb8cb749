use pumpkin_embed::text::{c_text, decimal_text, is_white_space, same_text, strip_prefix, trim};

#[test]
fn white_space_is_what_the_standard_library_trims() {
    for code in 0..=0x10_ffffu32 {
        if let Some(c) = char::from_u32(code) {
            assert_eq!(is_white_space(c), c.is_whitespace(), "U+{code:04X}");
        }
    }
}

#[test]
fn trimming_takes_white_space_off_both_ends_only() {
    for raw in [
        "",
        " ",
        " \t\r\n ",
        "line",
        "  a line \r",
        "\u{3000}\u{e9}t\u{e9} \u{1f383}\u{a0}",
        "a\u{200b} ",
    ] {
        assert_eq!(trim(raw), raw.trim());
    }
}

#[test]
fn a_prefix_is_taken_off_once() {
    assert_eq!(strip_prefix("minecraft:plains", "minecraft:"), "plains");
    assert_eq!(strip_prefix("plains", "minecraft:"), "plains");
    assert_eq!(strip_prefix("minecraft:", "minecraft:"), "");
    assert_eq!(strip_prefix("minecraft:minecraft:plains", "minecraft:"), "minecraft:plains");
    assert_eq!(strip_prefix("mine", "minecraft:"), "mine");
    assert_eq!(strip_prefix("\u{e9}t\u{e9}", "\u{e9}"), "t\u{e9}");
}

#[test]
fn same_text_compares_every_character() {
    assert!(same_text("", ""));
    assert!(same_text("nether", "nether"));
    assert!(!same_text("nether", "Nether"));
    assert!(!same_text("nether", "the_nether"));
}

#[test]
fn numbers_are_written_in_decimal() {
    for n in [0, 7, 9, 10, 99, 100, 4_294_967_295, u64::MAX] {
        assert_eq!(decimal_text(n), n.to_string());
    }
}

#[test]
fn text_with_a_nul_cannot_be_a_c_string() {
    assert_eq!(c_text("plain".to_owned()), "plain");
    assert_eq!(c_text("cut\0short".to_owned()), "");
    assert_eq!(c_text("\0".to_owned()), "");
    assert_eq!(c_text(String::new()), "");
}
