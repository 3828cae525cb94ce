use crm_core::config::DbConfig;
use crm_core::date::Date;
use crm_core::records::{ContactHistory, Customer};
use crm_core::sql::{
    contact_history_params, create_database_command, customer_params, database_creation_commands,
    database_exists_query, grant_privileges_command, insert_contact_history_statement,
    insert_customer_statement, select_contact_history_query, select_customer_query,
    select_customers_query, SqlParam,
};

fn sample_config() -> DbConfig {
    DbConfig {
        host: "localhost".to_owned(),
        port: "5432".to_owned(),
        username: "crm".to_owned(),
        password: "pw".to_owned(),
        database: "crmdb".to_owned(),
    }
}

#[test]
fn provisioning_commands_name_the_database_and_user() {
    assert_eq!(create_database_command("crmdb"), "CREATE DATABASE crmdb");
    assert_eq!(
        grant_privileges_command("crmdb", "crm"),
        "GRANT ALL PRIVILEGES ON DATABASE crmdb TO crm"
    );
}

#[test]
fn an_existing_database_needs_no_commands() {
    let c = sample_config();
    assert!(database_creation_commands(&c, true).is_empty());
    let cmds = database_creation_commands(&c, false);
    assert_eq!(cmds, vec![
        "CREATE DATABASE crmdb".to_owned(),
        "GRANT ALL PRIVILEGES ON DATABASE crmdb TO crm".to_owned(),
    ]);
}

#[test]
fn the_fixed_queries_are_the_expected_sql() {
    assert_eq!(
        database_exists_query(),
        "SELECT EXISTS(SELECT 1 FROM pg_database WHERE datname = $1)"
    );
    assert_eq!(select_customers_query(), "SELECT * FROM customers ORDER BY company_name");
    assert_eq!(select_customer_query(), "SELECT * FROM customers WHERE customer_id = $1");
    assert_eq!(
        select_contact_history_query(),
        "SELECT * FROM contact_history WHERE customer_id = $1 ORDER BY contact_date DESC"
    );
    assert!(insert_customer_statement().starts_with("INSERT INTO customers (company_name,"));
    assert!(insert_customer_statement().ends_with("($1, $2, $3, $4, $5, $6, $7, $8, $9, $10)"));
    assert!(
        insert_contact_history_statement().starts_with("INSERT INTO contact_history (customer_id,")
    );
}

#[test]
fn customer_params_bind_the_fields_in_column_order() {
    let c = Customer::from_parts(
        "Acme".to_owned(),
        "Ada".to_owned(),
        "CTO".to_owned(),
        "1 Main St".to_owned(),
        "Springfield".to_owned(),
        "12345".to_owned(),
        "US".to_owned(),
        "555".to_owned(),
        "ada@acme.test".to_owned(),
        "acme.test".to_owned(),
        9,
    );
    let params = customer_params(&c);
    assert_eq!(params, vec![
        SqlParam::Text("Acme".to_owned()),
        SqlParam::Text("Ada".to_owned()),
        SqlParam::Text("CTO".to_owned()),
        SqlParam::Text("1 Main St".to_owned()),
        SqlParam::Text("Springfield".to_owned()),
        SqlParam::Text("12345".to_owned()),
        SqlParam::Text("US".to_owned()),
        SqlParam::Text("555".to_owned()),
        SqlParam::Text("ada@acme.test".to_owned()),
        SqlParam::Text("acme.test".to_owned()),
    ]);
}

#[test]
fn contact_history_params_bind_the_fields_in_column_order() {
    let mut h = ContactHistory::default_now();
    h.customer_id = 7;
    h.contact_type = "call".to_owned();
    h.contact_date = 1700000000;
    h.contact_duration = Some(15);
    h.contact_method = Some("phone".to_owned());
    h.contact_outcome = "ok".to_owned();
    h.notes = "notes".to_owned();
    h.follow_up_date = Some(Date { year: 2024, month: 1, day: 2 });
    h.created_by = "ada".to_owned();
    h.created_at = 1700000001;
    h.updated_at = 1700000002;
    let params = contact_history_params(&h);
    assert_eq!(params, vec![
        SqlParam::Int(7),
        SqlParam::Text("call".to_owned()),
        SqlParam::Timestamp(1700000000),
        SqlParam::OptInt(Some(15)),
        SqlParam::OptText(Some("phone".to_owned())),
        SqlParam::Text("ok".to_owned()),
        SqlParam::Text("notes".to_owned()),
        SqlParam::OptDate(Some(Date { year: 2024, month: 1, day: 2 })),
        SqlParam::Text("ada".to_owned()),
        SqlParam::Timestamp(1700000001),
        SqlParam::Timestamp(1700000002),
    ]);
}

#[test]
fn a_blank_entry_is_stamped_consistently() {
    let h = ContactHistory::default_now();
    assert_eq!(h.history_id, 0);
    assert_eq!(h.customer_id, 0);
    assert!(h.contact_type.is_empty());
    assert!(h.notes.is_empty());
    assert!(h.contact_duration.is_none());
    assert!(h.contact_method.is_none());
    assert!(h.follow_up_date.is_none());
    assert!(h.contact_date >= 0);
    assert_eq!(h.contact_date, h.created_at);
    assert_eq!(h.created_at, h.updated_at);
}
