//! The credentials file the library writes is ordinary JSON, and the
//! library reads the file an ordinary JSON writer produces.
use crm_core::config::DbConfig;
use crm_core::json::parse_db_config;

fn config(host: &str, port: &str, username: &str, password: &str, database: &str) -> DbConfig {
    DbConfig {
        host: host.to_owned(),
        port: port.to_owned(),
        username: username.to_owned(),
        password: password.to_owned(),
        database: database.to_owned(),
    }
}

#[test]
fn a_rendered_file_is_valid_json_with_the_five_members() {
    let c = config("localhost", "5432", "alice", "p\"w\\d\nx", "crm");
    let text = c.save();
    let value: serde_json::Value = serde_json::from_str(&text).expect("valid JSON");
    let object = value.as_object().expect("a JSON object");
    assert_eq!(object.len(), 5);
    assert_eq!(object.get("host").and_then(|v| v.as_str()), Some("localhost"));
    assert_eq!(object.get("port").and_then(|v| v.as_str()), Some("5432"));
    assert_eq!(object.get("username").and_then(|v| v.as_str()), Some("alice"));
    assert_eq!(object.get("password").and_then(|v| v.as_str()), Some("p\"w\\d\nx"));
    assert_eq!(object.get("database").and_then(|v| v.as_str()), Some("crm"));
}

#[test]
fn a_file_written_by_an_ordinary_json_writer_parses() {
    let mut object = serde_json::Map::new();
    object.insert("host".to_owned(), serde_json::Value::String("h".to_owned()));
    object.insert("port".to_owned(), serde_json::Value::String("5432".to_owned()));
    object.insert("username".to_owned(), serde_json::Value::String("u".to_owned()));
    object.insert("password".to_owned(), serde_json::Value::String("p\tw\u{3}".to_owned()));
    object.insert("database".to_owned(), serde_json::Value::String("d".to_owned()));
    let text = serde_json::to_string_pretty(&serde_json::Value::Object(object)).unwrap();
    assert_eq!(parse_db_config(&text), Ok(config("h", "5432", "u", "p\tw\u{3}", "d")));
}
