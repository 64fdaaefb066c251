use starmap::readme::{decode_readme, readme_step, readme_text, truncate_utf8, ReadmeError, ReadmeStep};

#[test]
fn truncate_ascii() {
    assert_eq!(truncate_utf8("hello world", 5), "hello");
    assert_eq!(truncate_utf8("hi", 100), "hi");
}

#[test]
fn truncate_multibyte_safe() {
    let s = "あいうえお";
    let t = truncate_utf8(s, 5);
    assert_eq!(t, "あ");
    assert!(t.is_char_boundary(t.len()));
}

#[test]
fn truncate_zero() {
    assert_eq!(truncate_utf8("hello", 0), "");
}

#[test]
fn truncate_exact_boundary() {
    assert_eq!(truncate_utf8("あいう", 6), "あい");
    assert_eq!(truncate_utf8("aé", 2), "a");
    assert_eq!(truncate_utf8("aé", 3), "aé");
}

#[test]
fn steps() {
    assert!(matches!(readme_step(404, 0, None), ReadmeStep::Unavailable));
    assert!(matches!(readme_step(429, 0, None), ReadmeStep::Retry { wait_secs: 2, next_attempt: 1 }));
    assert!(matches!(readme_step(403, 2, Some(9)), ReadmeStep::Retry { wait_secs: 9, next_attempt: 3 }));
    assert!(matches!(readme_step(504, 3, None), ReadmeStep::Retry { wait_secs: 16, next_attempt: 4 }));
    assert!(matches!(readme_step(501, 0, None), ReadmeStep::Failed { status: 501 }));
    assert!(matches!(readme_step(503, 4, None), ReadmeStep::Failed { status: 503 }));
    assert!(matches!(readme_step(401, 0, None), ReadmeStep::Failed { status: 401 }));
    assert!(matches!(readme_step(200, 0, None), ReadmeStep::Decode));
}

#[test]
fn decodes_base64_payload() {
    assert_eq!(decode_readme("aGVs\nbG8=\n", "base64"), Ok(Some("hello".to_string())));
    assert_eq!(decode_readme("aGVsbG8=", "utf-8"), Ok(None));
    assert_eq!(decode_readme("!!!", "base64"), Err(ReadmeError::InvalidBase64));
    assert_eq!(decode_readme("/w==", "base64"), Err(ReadmeError::NotUtf8));
}

#[test]
fn text_of_bytes() {
    assert_eq!(readme_text(vec![0x68, 0x69]), Ok("hi".to_string()));
    assert_eq!(readme_text(vec![0xff]), Err(ReadmeError::NotUtf8));
}

#[test]
fn truncation_across_budgets() {
    let s = "héllo wörld";
    let small = truncate_utf8(s, 3);
    let large = truncate_utf8(s, 8);
    assert_eq!(small, "hé");
    assert_eq!(large, "héllo w");
    assert!(large.starts_with(small));
    assert_eq!(truncate_utf8(large, 3), small);
    assert_eq!(truncate_utf8(small, 3), small);
}
