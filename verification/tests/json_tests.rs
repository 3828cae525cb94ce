use crm_core::config::DbConfig;
use crm_core::json::{parse_db_config, render_db_config, ConfigError};

fn config(host: &str, port: &str, username: &str, password: &str, database: &str) -> DbConfig {
    DbConfig {
        host: host.to_owned(),
        port: port.to_owned(),
        username: username.to_owned(),
        password: password.to_owned(),
        database: database.to_owned(),
    }
}

#[test]
fn render_produces_the_pretty_object() {
    let c = config("localhost", "5432", "alice", "pw", "crm");
    let expected = "{\n  \"host\": \"localhost\",\n  \"port\": \"5432\",\n  \"username\": \"alice\",\n  \"password\": \"pw\",\n  \"database\": \"crm\"\n}";
    assert_eq!(render_db_config(&c), expected);
}

#[test]
fn parse_reads_the_rendered_file_back() {
    let c = config("localhost", "5432", "alice", "pw", "crm");
    let text = render_db_config(&c);
    assert_eq!(parse_db_config(&text), Ok(c));
}

#[test]
fn round_trip_keeps_characters_that_need_escaping() {
    let c = config("h\"o\\st", "54\n32", "a\tlice", "p\u{1}w", "crm\r");
    let text = render_db_config(&c);
    assert_eq!(parse_db_config(&text), Ok(c));
}

#[test]
fn render_escapes_quotes_backslashes_and_controls() {
    let c = config("a\"b", "c\\d", "e\nf", "g\u{1}h", "i");
    let text = render_db_config(&c);
    assert!(text.contains("\"host\": \"a\\\"b\""));
    assert!(text.contains("\"port\": \"c\\\\d\""));
    assert!(text.contains("\"username\": \"e\\nf\""));
    assert!(text.contains("\"password\": \"g\\u0001h\""));
}

#[test]
fn parse_accepts_members_in_any_order() {
    let text = "{ \"database\": \"d\", \"password\": \"w\", \"username\": \"u\", \"port\": \"p\", \"host\": \"h\" }";
    assert_eq!(parse_db_config(text), Ok(config("h", "p", "u", "w", "d")));
}

#[test]
fn parse_accepts_compact_whitespace() {
    let text = "{\"host\":\"h\",\"port\":\"p\",\"username\":\"u\",\"password\":\"w\",\"database\":\"d\"}";
    assert_eq!(parse_db_config(text), Ok(config("h", "p", "u", "w", "d")));
}

#[test]
fn parse_decodes_named_and_hex_escapes() {
    let text = "{\"host\":\"a\\\"b\",\"port\":\"c\\\\d\",\"username\":\"e\\nf\",\"password\":\"g\\u0009h\",\"database\":\"\\b\\f\\r\\/\"}";
    assert_eq!(parse_db_config(text), Ok(config("a\"b", "c\\d", "e\nf", "g\th", "\u{8}\u{c}\r/")));
}

#[test]
fn parse_refuses_a_missing_member() {
    let text = "{\"host\":\"h\",\"port\":\"p\",\"username\":\"u\",\"password\":\"w\"}";
    assert_eq!(parse_db_config(text), Err(ConfigError::Malformed));
}

#[test]
fn parse_refuses_a_duplicate_member() {
    let text =
        "{\"host\":\"h\",\"host\":\"h2\",\"port\":\"p\",\"username\":\"u\",\"password\":\"w\"}";
    assert_eq!(parse_db_config(text), Err(ConfigError::Malformed));
}

#[test]
fn parse_refuses_an_unknown_member() {
    let text = "{\"host\":\"h\",\"port\":\"p\",\"username\":\"u\",\"password\":\"w\",\"schema\":\"s\"}";
    assert_eq!(parse_db_config(text), Err(ConfigError::Malformed));
}

#[test]
fn parse_refuses_trailing_text() {
    let text = "{\"host\":\"h\",\"port\":\"p\",\"username\":\"u\",\"password\":\"w\",\"database\":\"d\"} x";
    assert_eq!(parse_db_config(text), Err(ConfigError::Malformed));
}

#[test]
fn parse_refuses_a_bad_escape() {
    let text = "{\"host\":\"\\q\",\"port\":\"p\",\"username\":\"u\",\"password\":\"w\",\"database\":\"d\"}";
    assert_eq!(parse_db_config(text), Err(ConfigError::Malformed));
}

#[test]
fn parse_refuses_plain_text() {
    assert_eq!(parse_db_config("not json"), Err(ConfigError::Malformed));
    assert_eq!(parse_db_config(""), Err(ConfigError::Malformed));
}
