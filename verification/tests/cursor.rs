use ficant_application::cursor::{CatalogCursorKey, issue_cursor_text, parse_cursor_text, parse_u64_field};
use ficant_application::error::ApplicationErrorCategory;

fn key() -> CatalogCursorKey {
    CatalogCursorKey {
        book_code: "BOOK:01".to_owned(),
        group_path: "利率/信用".to_owned(),
        portfolio_code: "P-7".to_owned(),
        version: 42,
    }
}

#[test]
fn issued_cursor_has_the_documented_shape() {
    let text = issue_cursor_text(&[0xab, 0x01], &key());
    assert_eq!(
        text,
        format!(
            "portfolio-catalog-cursor/v1:ab01:{}:{}:{}:42",
            "424f4f4b3a3031",
            "利率/信用".bytes().map(|b| format!("{b:02x}")).collect::<String>(),
            "502d37"
        )
    );
}

#[test]
fn cursor_resumes_at_the_issued_key() {
    let fingerprint = [1u8, 2, 3, 250];
    let text = issue_cursor_text(&fingerprint, &key());
    assert_eq!(parse_cursor_text(&text, &fingerprint).unwrap(), key());
    let zero = CatalogCursorKey { book_code: String::new(), group_path: String::new(), portfolio_code: String::new(), version: 0 };
    let text = issue_cursor_text(&[], &zero);
    assert_eq!(parse_cursor_text(&text, &[]).unwrap(), zero);
}

#[test]
fn foreign_or_tampered_cursors_are_forbidden() {
    let fingerprint = [9u8];
    let text = issue_cursor_text(&fingerprint, &key());
    assert_eq!(parse_cursor_text(&text, &[8u8]).unwrap_err().category(), ApplicationErrorCategory::Forbidden);
    assert!(parse_cursor_text(&format!("{text}:extra"), &fingerprint).is_err());
    assert!(parse_cursor_text(&text.replace("portfolio-catalog-cursor/v1", "other/v1"), &fingerprint).is_err());
    assert!(parse_cursor_text("portfolio-catalog-cursor/v1:09:zz:00:00:1", &fingerprint).is_err());
    assert!(parse_cursor_text("portfolio-catalog-cursor/v1:09:ff:00:00:1", &fingerprint).is_err());
    assert!(parse_cursor_text("portfolio-catalog-cursor/v1:09:41:42:43:-1", &fingerprint).is_err());
    let parsed = parse_cursor_text("portfolio-catalog-cursor/v1:09:41:42:43:+7", &fingerprint).unwrap();
    assert_eq!((parsed.book_code.as_str(), parsed.group_path.as_str(), parsed.portfolio_code.as_str(), parsed.version), ("A", "B", "C", 7));
}

#[test]
fn versions_parse_like_u64() {
    assert_eq!(parse_u64_field(b"18446744073709551615"), Some(u64::MAX));
    assert_eq!(parse_u64_field(b"18446744073709551616"), None);
    assert_eq!(parse_u64_field(b"+12"), Some(12));
    assert_eq!(parse_u64_field(b"007"), Some(7));
    assert_eq!(parse_u64_field(b""), None);
    assert_eq!(parse_u64_field(b"+"), None);
    assert_eq!(parse_u64_field(b"1 "), None);
    for text in ["0", "9", "10", "65535", "12345678901234567890"] {
        assert_eq!(parse_u64_field(text.as_bytes()), text.parse::<u64>().ok());
    }
}
