use dbmeta::error::DBError;
use dbmeta::version::{mysql_index_dialect, parse_triple, parse_version, IndexDialect};

#[test]
fn parse_version_with_log_suffix() {
    let (head, tail) = parse_version("8.0.32-log").unwrap();
    assert_eq!(head, "8.0.32");
    assert_eq!(tail, "-log");
}

#[test]
fn parse_version_with_vendor_suffix() {
    let (head, tail) = parse_version("10.5.9-MariaDB").unwrap();
    assert_eq!(head, "10.5.9");
    assert_eq!(tail, "-MariaDB");
}

#[test]
fn parse_version_without_triplet_fails() {
    let err = parse_version("notaversion").unwrap_err();
    match err {
        DBError::Unknow(m) => assert_eq!(m, "failed to parse version notaversion"),
        _ => panic!("expected an unrecognized-data error"),
    }
}

#[test]
fn parse_version_bare_triplet() {
    let (head, tail) = parse_version("5.7.44").unwrap();
    assert_eq!(head, "5.7.44");
    assert_eq!(tail, "");
}

#[test]
fn parse_version_two_components_fails() {
    assert!(parse_version("8.0").is_err());
    assert!(parse_version("8.0.").is_err());
    assert!(parse_version(".1.2.3").is_err());
}

#[test]
fn parse_triple_reads_components() {
    assert_eq!(parse_triple("8.0.32"), Some((8, 0, 32)));
    assert_eq!(parse_triple("10.11.2"), Some((10, 11, 2)));
    assert_eq!(parse_triple("8.0.32-log"), None);
    assert_eq!(parse_triple(""), None);
}

#[test]
fn dialect_boundary_is_inclusive() {
    assert_eq!(mysql_index_dialect("8.0.13", "").unwrap(), IndexDialect::Legacy);
    assert_eq!(mysql_index_dialect("8.0.14", "").unwrap(), IndexDialect::Modern);
    assert_eq!(mysql_index_dialect("5.7.44", "").unwrap(), IndexDialect::Legacy);
    assert_eq!(mysql_index_dialect("9.1.0", "").unwrap(), IndexDialect::Modern);
}

#[test]
fn dialect_vendor_flavor_is_legacy() {
    assert_eq!(mysql_index_dialect("10.5.9", "-MariaDB").unwrap(), IndexDialect::Legacy);
}

#[test]
fn dialect_unparsable_version_fails() {
    let err = mysql_index_dialect("8.0.32-log", "").unwrap_err();
    match err {
        DBError::Unknow(m) => assert_eq!(m, "db version 8.0.32-log cannot be parsed"),
        _ => panic!("expected an unrecognized-data error"),
    }
}
