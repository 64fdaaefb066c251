use starmap::text::{is_whitespace, same_text, trimmed, u64_to_decimal};

#[test]
fn decimal_rendering() {
    assert_eq!(u64_to_decimal(0), "0");
    assert_eq!(u64_to_decimal(42), "42");
    assert_eq!(u64_to_decimal(u64::MAX), u64::MAX.to_string());
}

#[test]
fn whitespace_matches_std() {
    for u in 0u32..0x3100 {
        if let Some(c) = char::from_u32(u) {
            assert_eq!(is_whitespace(c), c.is_whitespace(), "{u:#x}");
        }
    }
}

#[test]
fn trimming() {
    assert_eq!(trimmed("\t a b \n"), "a b");
    assert_eq!(trimmed("   "), "");
    assert!(same_text("x", "x"));
    assert!(!same_text("x", "xy"));
}
