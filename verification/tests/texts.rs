use rivect::contracts::{ErrorCode, Lifecycle, Page, RetryClass, TaskId, WireError};
use rivect::digest::{bytes_of, digest_hex, hex};
use rivect::json::{fits_i64, parse_json, render_json, signed_text, Json};
use rivect::names::{less, NameMap};
use rivect::table::Table;
use rivect::text::{
    decimal_text, join_names, lines_of, parse_unsigned, split_text, starts_with, text3,
};

#[test]
fn hexadecimal_is_two_lower_case_digits_per_byte() {
    assert_eq!(hex(&[0, 15, 16, 171, 255]), "000f10abff");
    assert_eq!(hex(&[]), "");
}

#[test]
fn different_bytes_have_different_hexadecimal() {
    assert_ne!(hex(&[1, 16]), hex(&[17, 0]));
}

#[test]
fn a_digest_is_the_published_sha256() {
    assert_eq!(
        digest_hex(b"abc"),
        "ba7816bf8f01cfea414140de5dae2223b00361a396177a9cb410ff61f20015ad"
    );
    assert_eq!(
        digest_hex(b""),
        "e3b0c44298fc1c149afbf4c8996fb92427ae41e4649b934ca495991b7852b855"
    );
}

#[test]
fn the_bytes_of_a_text_are_its_encoding() {
    assert_eq!(bytes_of("aé"), vec![0x61, 0xc3, 0xa9]);
}

#[test]
fn generated_ids_are_version_four_and_fresh() {
    let a = TaskId::generate();
    let b = TaskId::generate();
    assert_ne!(a.0, b.0);
    assert_eq!(a.0.len(), 36);
    assert_eq!(a.0.as_bytes()[14], b'4');
    assert_eq!(a.clone().0, a.0);
}

#[test]
fn decimals_read_back() {
    assert_eq!(decimal_text(0), "0");
    assert_eq!(decimal_text(u64::MAX), "18446744073709551615");
    assert_eq!(parse_unsigned("18446744073709551615"), Some(u64::MAX));
    assert_eq!(parse_unsigned("18446744073709551616"), None);
    assert_eq!(parse_unsigned(""), None);
    assert_eq!(signed_text(i64::MIN), "-9223372036854775808");
    assert_eq!(signed_text(-7), "-7");
    assert!(fits_i64("-9223372036854775808"));
    assert!(!fits_i64("9223372036854775808"));
}

#[test]
fn texts_split_and_join() {
    assert_eq!(split_text("a.b..c", '.'), vec!["a", "b", "", "c"]);
    assert_eq!(lines_of("one\r\ntwo\n"), vec!["one", "two"]);
    assert_eq!(join_names(&vec!["a".to_string(), "b".to_string()], ", "), "a, b");
    assert_eq!(text3("a", "b", "c"), "abc");
    assert!(starts_with("read x", "read "));
    assert!(!starts_with("rea", "read "));
}

#[test]
fn names_are_ordered_by_their_characters() {
    assert!(less("a", "b"));
    assert!(less("a", "ab"));
    assert!(!less("b", "a"));
    assert!(!less("a", "a"));
    let mut map: NameMap<u32> = NameMap::new();
    map.insert("b".to_string(), 2);
    map.insert("a".to_string(), 1);
    map.insert("b".to_string(), 3);
    assert_eq!(map.len(), 2);
    assert_eq!(map.name(0), "a");
    assert_eq!(map.get("b"), Some(&3));
    assert!(!map.contains("c"));
}

#[test]
fn a_table_holds_one_value_per_name() {
    let mut table: Table<u32> = Table::new();
    table.insert("x".to_string(), 1);
    table.insert("x".to_string(), 2);
    assert_eq!(table.len(), 1);
    assert_eq!(table.get("x"), Some(&2));
    assert_eq!(table.remove("x"), Some(2));
    assert_eq!(table.remove("x"), None);
}

#[test]
fn a_json_text_is_parsed_and_rendered() {
    let parsed = parse_json("{\"a\": [1, -2.5, null, true], \"b\": \"x\\n\"}").expect("json");
    assert_eq!(parsed.get_text("b"), Some("x\n"));
    assert_eq!(
        render_json(&parsed),
        "{\"a\":[1,-2.5,null,true],\"b\":\"x\\n\"}"
    );
    assert!(parse_json("{").is_none());
    assert!(parse_json("1 2").is_none());
}

#[test]
fn rendered_text_is_escaped() {
    let text = Json::Text("\u{1}\u{8}\u{c}\t\r\n\"\\/\u{7f}é".to_string());
    assert_eq!(
        render_json(&text),
        "\"\\u0001\\b\\f\\t\\r\\n\\\"\\\\/\u{7f}é\""
    );
    let back = parse_json(&render_json(&text)).expect("reads back");
    assert_eq!(back.as_text(), text.as_text());
}

#[test]
fn numbers_count_only_when_they_are_whole_and_in_range() {
    let n = parse_json("{\"a\": 7, \"b\": -7, \"c\": 7.0, \"d\": \"7\"}").expect("json");
    assert_eq!(n.get_u64("a"), Some(7));
    assert_eq!(n.get_u64("b"), None);
    assert_eq!(n.get_u64("c"), None);
    assert_eq!(n.get_u64("d"), None);
    assert_eq!(n.get_u64("e"), None);
}

#[test]
fn error_codes_have_their_wire_names_and_exit_codes() {
    assert_eq!(ErrorCode::CapabilityUnavailable.as_str(), "capability_unavailable");
    assert_eq!(ErrorCode::NotFound.as_str(), "not_found");
    let codes = [
        ErrorCode::InvalidInput,
        ErrorCode::UnsupportedVersion,
        ErrorCode::UnknownMethod,
        ErrorCode::NotFound,
        ErrorCode::Conflict,
        ErrorCode::StaleIntent,
        ErrorCode::AlreadyTerminal,
        ErrorCode::Denied,
        ErrorCode::CapabilityUnavailable,
        ErrorCode::DependencyBlocked,
        ErrorCode::OutcomeUnknown,
        ErrorCode::ContextOverflow,
        ErrorCode::BudgetExhausted,
        ErrorCode::StorageUnavailable,
        ErrorCode::OutputLimit,
        ErrorCode::InternalError,
        ErrorCode::Cancelled,
    ];
    for (i, a) in codes.iter().enumerate() {
        for b in codes.iter().skip(i + 1) {
            assert_ne!(a.as_str(), b.as_str());
        }
    }
    let wire = WireError::new(ErrorCode::Conflict, "taken".to_string());
    assert_eq!(wire.message, "taken");
    assert!(matches!(wire.retry_class, RetryClass::NoRetry));
}

#[test]
fn terminal_states_are_completed_and_cancelled() {
    assert!(Lifecycle::Completed.is_terminal());
    assert!(Lifecycle::Cancelled.is_terminal());
    assert!(!Lifecycle::Waiting.is_terminal());
    assert_eq!(Lifecycle::Running.name(), "running");
    let page = Page::new(vec![1, 2], 9);
    assert_eq!(page.items.len(), 2);
}
