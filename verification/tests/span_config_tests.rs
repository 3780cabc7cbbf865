//! Tests for source positions, lint configuration, and the directory
//! store's computational core.

use dotprompt::config::Config;
use dotprompt::dir::DirStore;
use dotprompt::span::position_at_offset;

#[test]
fn test_position_at_offset_start() {
    let source = "hello\nworld";
    let pos = position_at_offset(source, 0);
    assert_eq!(pos.line, 1);
    assert_eq!(pos.column, 1);
}

#[test]
fn test_position_at_offset_middle_of_line() {
    let source = "hello\nworld";
    let pos = position_at_offset(source, 3);
    assert_eq!(pos.line, 1);
    assert_eq!(pos.column, 4);
}

#[test]
fn test_position_at_offset_second_line() {
    let source = "hello\nworld";
    let pos = position_at_offset(source, 6);
    assert_eq!(pos.line, 2);
    assert_eq!(pos.column, 1);
}

#[test]
fn test_position_at_offset_end() {
    let source = "hello\nworld";
    let pos = position_at_offset(source, 11);
    assert_eq!(pos.line, 2);
    assert_eq!(pos.column, 6);
}

#[test]
fn test_merge_cli_overrides() {
    let mut config = Config::new();
    config.allow.push("rule-a".to_string());
    config.deny.push("rule-b".to_string());

    // a rule denied on the command line overrides an earlier allow
    config.merge_cli(&Vec::new(), &vec!["rule-a".to_string()], false);
    assert!(!config.is_allowed("rule-a"));
    assert!(config.is_denied("rule-a"));

    // a rule allowed on the command line overrides an earlier deny
    config.merge_cli(&vec!["rule-b".to_string()], &Vec::new(), false);
    assert!(config.is_allowed("rule-b"));
    assert!(!config.is_denied("rule-b"));
}

#[test]
fn test_merge_cli_strict() {
    let mut config = Config::new();
    assert!(!config.warnings_as_errors);

    config.merge_cli(&Vec::new(), &Vec::new(), true);
    assert!(config.warnings_as_errors);
}

#[test]
fn test_parse_filename_plain_and_variant() {
    assert_eq!(
        DirStore::parse_filename("greeting.prompt"),
        Some(("greeting".to_string(), None))
    );
    assert_eq!(
        DirStore::parse_filename("greeting.casual.prompt"),
        Some(("greeting".to_string(), Some("casual".to_string())))
    );
    assert_eq!(
        DirStore::parse_filename("a.b.c.prompt"),
        Some(("a.b".to_string(), Some("c".to_string())))
    );
    assert_eq!(DirStore::parse_filename("notes.txt"), None);
}

#[test]
fn test_is_partial() {
    assert!(DirStore::is_partial("_header.prompt"));
    assert!(!DirStore::is_partial("header.prompt"));
    assert!(!DirStore::is_partial(""));
}

#[test]
fn test_calculate_version_known_digest() {
    // the SHA-1 of "hello" begins aaf4c61d
    assert_eq!(DirStore::calculate_version("hello"), "aaf4c61d");
}

#[test]
fn test_calculate_version_empty_source() {
    let version = DirStore::calculate_version("");
    assert_eq!(version, "da39a3ee");
    assert_eq!(version.len(), 8);
}
