//! Field-level primitives: optional numerals, comma-separated member
//! lists, and decimal rendering.

use scubainit::entfiles::ReadEntryError;
use scubainit::util::maybe_parse;
use scubainit::util::parse_u32_str;
use scubainit::util::split_csv_str;
use scubainit::util::to_string_or_empty;
use scubainit::util::u32_to_string;

#[test]
fn maybe_parse_works() {
    assert!(maybe_parse("zzz").is_err());
    assert_eq!(maybe_parse(""), Ok(None));
    assert_eq!(maybe_parse("1234"), Ok(Some(1234)));
}

#[test]
fn maybe_parse_error_is_parse_int() {
    assert!(matches!(maybe_parse("zzz"), Err(ReadEntryError::ParseInt)));
}

#[test]
fn util_split_csv_str_works() {
    let empty: Vec<String> = vec![];
    assert_eq!(split_csv_str(""), empty);
    assert_eq!(split_csv_str("abc"), vec!["abc".to_string()]);
    assert_eq!(
        split_csv_str("abc,def,ghi"),
        vec!["abc".to_string(), "def".to_string(), "ghi".to_string()]
    );
    assert_eq!(
        split_csv_str(",abc,def,ghi"),
        vec!["".to_string(), "abc".to_string(), "def".to_string(), "ghi".to_string()]
    );
    assert_eq!(
        split_csv_str("abc,def,ghi,"),
        vec!["abc".to_string(), "def".to_string(), "ghi".to_string(), "".to_string()]
    );
}

#[test]
fn util_to_string_or_empty_works() {
    assert_eq!(to_string_or_empty(None), "");
    assert_eq!(to_string_or_empty(Some(1234)), "1234");
}

#[test]
fn parse_u32_bounds() {
    assert_eq!(parse_u32_str("0"), Some(0));
    assert_eq!(parse_u32_str("007"), Some(7));
    assert_eq!(parse_u32_str("4294967295"), Some(4294967295));
    assert_eq!(parse_u32_str("4294967296"), None);
    assert_eq!(parse_u32_str(""), None);
    assert_eq!(parse_u32_str("12 3"), None);
    assert_eq!(parse_u32_str("-1"), None);
    assert_eq!(parse_u32_str("+1"), None);
}

#[test]
fn u32_to_string_exact() {
    assert_eq!(u32_to_string(0), "0");
    assert_eq!(u32_to_string(7), "7");
    assert_eq!(u32_to_string(1003), "1003");
    assert_eq!(u32_to_string(4294967295), "4294967295");
}
