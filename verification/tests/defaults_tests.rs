use dbmeta::defaults::{
    extract_digits_from_current_timestamp, is_current_timestamp_like,
    parse_current_timestamp_on_update, parse_default_value, set_column_metadata_default,
    unescape_expression_default,
};
use dbmeta::store::{ColumnDefault, ColumnMetadata, IdentityGeneration};

fn blank_column() -> ColumnMetadata {
    ColumnMetadata {
        name: String::from("c"),
        position: 1,
        default: None,
        on_update: None,
        nullable: false,
        column_type: String::from("int"),
        character_set: String::new(),
        collation: String::new(),
        comment: String::new(),
        identity_generation: IdentityGeneration::Unspecified,
    }
}

#[test]
fn current_timestamp_default_is_expression() {
    let mut col = blank_column();
    set_column_metadata_default(&mut col, Some(String::from("CURRENT_TIMESTAMP")), false, "");
    match col.default {
        Some(ColumnDefault::Expression(e)) => assert_eq!(e, "CURRENT_TIMESTAMP"),
        _ => panic!("expected an expression default"),
    }
    assert!(col.on_update.is_none());
}

#[test]
fn auto_increment_marker_without_default() {
    let mut col = blank_column();
    set_column_metadata_default(&mut col, None, false, "auto_increment");
    assert!(matches!(col.default, Some(ColumnDefault::AutoIncrement)));
}

#[test]
fn nullable_without_default_gets_explicit_null() {
    let mut col = blank_column();
    set_column_metadata_default(&mut col, None, true, "");
    assert!(matches!(col.default, Some(ColumnDefault::Null)));
}

#[test]
fn generated_default_is_wrapped_expression() {
    let mut col = blank_column();
    set_column_metadata_default(&mut col, Some(String::from("0")), false, "DEFAULT_GENERATED");
    match col.default {
        Some(ColumnDefault::Expression(e)) => assert_eq!(e, "(0)"),
        _ => panic!("expected an expression default"),
    }
}

#[test]
fn literal_default_is_kept_verbatim() {
    let mut col = blank_column();
    set_column_metadata_default(&mut col, Some(String::from("42")), true, "");
    match col.default {
        Some(ColumnDefault::Literal(l)) => assert_eq!(l, "42"),
        _ => panic!("expected a literal default"),
    }
}

#[test]
fn not_nullable_without_default_stays_unset() {
    let mut col = blank_column();
    set_column_metadata_default(&mut col, None, false, "");
    assert!(col.default.is_none());
}

#[test]
fn auto_increment_wins_over_nullable_fallback() {
    let mut col = blank_column();
    set_column_metadata_default(&mut col, None, true, "AUTO_INCREMENT");
    assert!(matches!(col.default, Some(ColumnDefault::AutoIncrement)));
}

#[test]
fn on_update_clause_is_captured() {
    let mut col = blank_column();
    set_column_metadata_default(
        &mut col,
        Some(String::from("CURRENT_TIMESTAMP(6)")),
        false,
        "DEFAULT_GENERATED on update CURRENT_TIMESTAMP(6)",
    );
    match col.default {
        Some(ColumnDefault::Expression(e)) => assert_eq!(e, "CURRENT_TIMESTAMP(6)"),
        _ => panic!("expected an expression default"),
    }
    assert_eq!(col.on_update.unwrap(), "CURRENT_TIMESTAMP(6)");
}

#[test]
fn on_update_without_precision() {
    let r = parse_current_timestamp_on_update("on update CURRENT_TIMESTAMP").unwrap();
    assert_eq!(r, "CURRENT_TIMESTAMP");
}

#[test]
fn on_update_with_precision() {
    let r = parse_current_timestamp_on_update("on update CURRENT_TIMESTAMP(3)").unwrap();
    assert_eq!(r, "CURRENT_TIMESTAMP(3)");
}

#[test]
fn digits_extraction() {
    assert_eq!(extract_digits_from_current_timestamp("on update CURRENT_TIMESTAMP(6)"), Some("6"));
    assert_eq!(extract_digits_from_current_timestamp("on update CURRENT_TIMESTAMP"), None);
    assert_eq!(extract_digits_from_current_timestamp("CURRENT_TIMESTAMP()"), None);
}

#[test]
fn timestamp_likeness_is_case_insensitive() {
    assert!(is_current_timestamp_like("CURRENT_TIMESTAMP"));
    assert!(is_current_timestamp_like("current_timestamp"));
    assert!(is_current_timestamp_like("CURRENT_TIMESTAMP(6)"));
    assert!(is_current_timestamp_like("current_timestamp(6)"));
    assert!(is_current_timestamp_like("Current_Timestamp(3)"));
    assert!(!is_current_timestamp_like("CURRENT_TIMESTAMP()"));
    assert!(!is_current_timestamp_like("CURRENT_TIMESTAMP(6x)"));
    assert!(!is_current_timestamp_like("NOW()"));
}

#[test]
fn lowercase_timestamp_default_is_expression_verbatim() {
    let mut col = blank_column();
    set_column_metadata_default(&mut col, Some(String::from("current_timestamp(6)")), true, "");
    match col.default {
        Some(ColumnDefault::Expression(e)) => assert_eq!(e, "current_timestamp(6)"),
        _ => panic!("expected an expression default"),
    }
}

#[test]
fn unescaping_quotes_and_backslashes() {
    assert_eq!(unescape_expression_default("a\\'b"), "a'b");
    assert_eq!(unescape_expression_default("a\\\\b"), "a\\b");
    assert_eq!(unescape_expression_default("plain"), "plain");
}

#[test]
fn parse_default_value_rules() {
    match parse_default_value("CURRENT_TIMESTAMP", "").unwrap() {
        ColumnDefault::Expression(e) => assert_eq!(e, "CURRENT_TIMESTAMP"),
        _ => panic!("expected an expression default"),
    }
    match parse_default_value("it\\'s", "DEFAULT_GENERATED").unwrap() {
        ColumnDefault::Expression(e) => assert_eq!(e, "(it's)"),
        _ => panic!("expected an expression default"),
    }
    match parse_default_value("abc", "").unwrap() {
        ColumnDefault::Literal(l) => assert_eq!(l, "abc"),
        _ => panic!("expected a literal default"),
    }
}
