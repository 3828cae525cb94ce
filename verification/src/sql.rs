//! The SQL the application issues: the provisioning statements, the
//! fixed queries, and the positional parameter lists that bind a record's
//! fields to an INSERT.
use vstd::prelude::*;

use crate::config::DbConfig;
use crate::date::Date;
use crate::records::{ContactHistory, Customer};
use crate::text::{chars_to_string, push_chars};

verus! {

/// One value bound to a statement placeholder.
#[derive(Clone, Debug, PartialEq, Eq)]
#[verifier::ext_equal]
pub enum SqlParam {
    Text(String),
    OptText(Option<String>),
    Int(i32),
    OptInt(Option<i32>),
    Timestamp(i64),
    OptDate(Option<Date>),
}

/// The query that asks whether the configured database exists.
pub fn database_exists_query() -> (r: &'static str)
    ensures
        r@ == "SELECT EXISTS(SELECT 1 FROM pg_database WHERE datname = $1)"@,
{
    "SELECT EXISTS(SELECT 1 FROM pg_database WHERE datname = $1)"
}

/// The command that creates the named database.
pub open spec fn spec_create_database_command(database: Seq<char>) -> Seq<char> {
    "CREATE DATABASE "@ + database
}

/// Builds the command that creates the named database.
pub fn create_database_command(database: &str) -> (r: String)
    ensures
        r@ == spec_create_database_command(database@),
{
    let mut out: Vec<char> = Vec::new();
    push_chars(&mut out, "CREATE DATABASE ");
    push_chars(&mut out, database);
    chars_to_string(&out)
}

/// The command that grants the configured user every privilege on the
/// named database.
pub open spec fn spec_grant_privileges_command(database: Seq<char>, username: Seq<char>) -> Seq<
    char,
> {
    "GRANT ALL PRIVILEGES ON DATABASE "@ + database + " TO "@ + username
}

/// Builds the command that grants the configured user every privilege on
/// the named database.
pub fn grant_privileges_command(database: &str, username: &str) -> (r: String)
    ensures
        r@ == spec_grant_privileges_command(database@, username@),
{
    let mut out: Vec<char> = Vec::new();
    push_chars(&mut out, "GRANT ALL PRIVILEGES ON DATABASE ");
    push_chars(&mut out, database);
    push_chars(&mut out, " TO ");
    push_chars(&mut out, username);
    chars_to_string(&out)
}

/// The commands to run after asking whether the database exists: nothing
/// when it does, else its creation and the grant, in that order.
pub fn database_creation_commands(config: &DbConfig, db_exists: bool) -> (r: Vec<String>)
    ensures
        db_exists ==> r@.len() == 0,
        !db_exists ==> r@.len() == 2 && r@[0]@ == spec_create_database_command(config.database@)
            && r@[1]@ == spec_grant_privileges_command(config.database@, config.username@),
{
    let mut r: Vec<String> = Vec::new();
    if !db_exists {
        r.push(create_database_command(config.database.as_str()));
        r.push(grant_privileges_command(config.database.as_str(), config.username.as_str()));
    }
    r
}

/// The statement that inserts a customer; its ten placeholders take
/// [`customer_params`] in order.  The id column is assigned by the
/// database.
pub fn insert_customer_statement() -> (r: &'static str)
    ensures
        r@ == "INSERT INTO customers (company_name, contact_name, contact_position, address, city, postal_code, country, phone, email, website) VALUES ($1, $2, $3, $4, $5, $6, $7, $8, $9, $10)"@,
{
    "INSERT INTO customers (company_name, contact_name, contact_position, address, city, postal_code, country, phone, email, website) VALUES ($1, $2, $3, $4, $5, $6, $7, $8, $9, $10)"
}

/// The query that lists every customer, ordered by company name.
pub fn select_customers_query() -> (r: &'static str)
    ensures
        r@ == "SELECT * FROM customers ORDER BY company_name"@,
{
    "SELECT * FROM customers ORDER BY company_name"
}

/// The query that fetches one customer by id.
pub fn select_customer_query() -> (r: &'static str)
    ensures
        r@ == "SELECT * FROM customers WHERE customer_id = $1"@,
{
    "SELECT * FROM customers WHERE customer_id = $1"
}

/// The query that lists a customer's contact history, newest first.
pub fn select_contact_history_query() -> (r: &'static str)
    ensures
        r@ == "SELECT * FROM contact_history WHERE customer_id = $1 ORDER BY contact_date DESC"@,
{
    "SELECT * FROM contact_history WHERE customer_id = $1 ORDER BY contact_date DESC"
}

/// The statement that inserts a contact-history entry; its eleven
/// placeholders take [`contact_history_params`] in order.  The id column
/// is assigned by the database.
pub fn insert_contact_history_statement() -> (r: &'static str)
    ensures
        r@ == "INSERT INTO contact_history (customer_id, contact_type, contact_date, contact_duration, contact_method, contact_outcome, notes, follow_up_date, created_by, created_at, updated_at) VALUES ($1, $2, $3, $4, $5, $6, $7, $8, $9, $10, $11)"@,
{
    "INSERT INTO contact_history (customer_id, contact_type, contact_date, contact_duration, contact_method, contact_outcome, notes, follow_up_date, created_by, created_at, updated_at) VALUES ($1, $2, $3, $4, $5, $6, $7, $8, $9, $10, $11)"
}

/// The values a customer record binds to [`insert_customer_statement`],
/// in placeholder order.
pub open spec fn spec_customer_params(c: Customer) -> Seq<SqlParam> {
    seq![
        SqlParam::Text(c.company_name),
        SqlParam::Text(c.contact_name),
        SqlParam::Text(c.contact_position),
        SqlParam::Text(c.address),
        SqlParam::Text(c.city),
        SqlParam::Text(c.postal_code),
        SqlParam::Text(c.country),
        SqlParam::Text(c.phone),
        SqlParam::Text(c.email),
        SqlParam::Text(c.website),
    ]
}

/// Binds a customer record's fields to the insert statement's
/// placeholders, in order.
pub fn customer_params(c: &Customer) -> (r: Vec<SqlParam>)
    ensures
        r@ == spec_customer_params(*c),
{
    let mut r: Vec<SqlParam> = Vec::new();
    r.push(SqlParam::Text(c.company_name.clone()));
    r.push(SqlParam::Text(c.contact_name.clone()));
    r.push(SqlParam::Text(c.contact_position.clone()));
    r.push(SqlParam::Text(c.address.clone()));
    r.push(SqlParam::Text(c.city.clone()));
    r.push(SqlParam::Text(c.postal_code.clone()));
    r.push(SqlParam::Text(c.country.clone()));
    r.push(SqlParam::Text(c.phone.clone()));
    r.push(SqlParam::Text(c.email.clone()));
    r.push(SqlParam::Text(c.website.clone()));
    proof {
        assert(r@ =~= spec_customer_params(*c));
    }
    r
}

/// The values a contact-history entry binds to
/// [`insert_contact_history_statement`], in placeholder order.
pub open spec fn spec_contact_history_params(h: ContactHistory) -> Seq<SqlParam> {
    seq![
        SqlParam::Int(h.customer_id),
        SqlParam::Text(h.contact_type),
        SqlParam::Timestamp(h.contact_date),
        SqlParam::OptInt(h.contact_duration),
        SqlParam::OptText(h.contact_method),
        SqlParam::Text(h.contact_outcome),
        SqlParam::Text(h.notes),
        SqlParam::OptDate(h.follow_up_date),
        SqlParam::Text(h.created_by),
        SqlParam::Timestamp(h.created_at),
        SqlParam::Timestamp(h.updated_at),
    ]
}

/// Binds a contact-history entry's fields to the insert statement's
/// placeholders, in order.
pub fn contact_history_params(h: &ContactHistory) -> (r: Vec<SqlParam>)
    ensures
        r@ == spec_contact_history_params(*h),
{
    let contact_method = match &h.contact_method {
        Some(m) => Some(m.clone()),
        None => None,
    };
    let mut r: Vec<SqlParam> = Vec::new();
    r.push(SqlParam::Int(h.customer_id));
    r.push(SqlParam::Text(h.contact_type.clone()));
    r.push(SqlParam::Timestamp(h.contact_date));
    r.push(SqlParam::OptInt(h.contact_duration));
    r.push(SqlParam::OptText(contact_method));
    r.push(SqlParam::Text(h.contact_outcome.clone()));
    r.push(SqlParam::Text(h.notes.clone()));
    r.push(SqlParam::OptDate(h.follow_up_date));
    r.push(SqlParam::Text(h.created_by.clone()));
    r.push(SqlParam::Timestamp(h.created_at));
    r.push(SqlParam::Timestamp(h.updated_at));
    proof {
        assert(r@ =~= spec_contact_history_params(*h));
    }
    r
}

/// The customer a parameter list describes: the inverse of
/// [`spec_customer_params`], given the id the database assigned.
pub open spec fn spec_customer_of_params(params: Seq<SqlParam>, customer_id: i32) -> Option<
    Customer,
> {
    if params.len() == 10 && params[0] is Text && params[1] is Text && params[2] is Text
        && params[3] is Text && params[4] is Text && params[5] is Text && params[6] is Text
        && params[7] is Text && params[8] is Text && params[9] is Text {
        Some(
            Customer {
                company_name: params[0]->Text_0,
                contact_name: params[1]->Text_0,
                contact_position: params[2]->Text_0,
                address: params[3]->Text_0,
                city: params[4]->Text_0,
                postal_code: params[5]->Text_0,
                country: params[6]->Text_0,
                phone: params[7]->Text_0,
                email: params[8]->Text_0,
                website: params[9]->Text_0,
                customer_id: customer_id,
            },
        )
    } else {
        None
    }
}

/// Round trip of the add-customer form: the row written through the
/// insert's parameters, read back with the id the database assigned,
/// is the record that was saved, under that id.
pub proof fn lemma_customer_params_round_trip(c: Customer, customer_id: i32)
    ensures
        spec_customer_of_params(spec_customer_params(c), customer_id) == Some(
            (Customer { customer_id: customer_id, ..c }),
        ),
{
    let params = spec_customer_params(c);
    assert(params.len() == 10);
    assert(spec_customer_of_params(params, customer_id)->0 =~= (Customer {
        customer_id: customer_id,
        ..c
    }));
}

/// The contact-history entry a parameter list describes: the inverse of
/// [`spec_contact_history_params`], given the id the database assigned.
pub open spec fn spec_contact_history_of_params(params: Seq<SqlParam>, history_id: i32) -> Option<
    ContactHistory,
> {
    if params.len() == 11 && params[0] is Int && params[1] is Text && params[2] is Timestamp
        && params[3] is OptInt && params[4] is OptText && params[5] is Text && params[6] is Text
        && params[7] is OptDate && params[8] is Text && params[9] is Timestamp
        && params[10] is Timestamp {
        Some(
            ContactHistory {
                history_id: history_id,
                customer_id: params[0]->Int_0,
                contact_type: params[1]->Text_0,
                contact_date: params[2]->Timestamp_0,
                contact_duration: params[3]->OptInt_0,
                contact_method: params[4]->OptText_0,
                contact_outcome: params[5]->Text_0,
                notes: params[6]->Text_0,
                follow_up_date: params[7]->OptDate_0,
                created_by: params[8]->Text_0,
                created_at: params[9]->Timestamp_0,
                updated_at: params[10]->Timestamp_0,
            },
        )
    } else {
        None
    }
}

/// Round trip of the contact form: the row written through the insert's
/// parameters, read back with the id the database assigned, is the entry
/// that was saved, under that id.
pub proof fn lemma_contact_history_params_round_trip(h: ContactHistory, history_id: i32)
    ensures
        spec_contact_history_of_params(spec_contact_history_params(h), history_id) == Some(
            (ContactHistory { history_id: history_id, ..h }),
        ),
{
    let params = spec_contact_history_params(h);
    assert(params.len() == 11);
    assert(spec_contact_history_of_params(params, history_id)->0 =~= (ContactHistory {
        history_id: history_id,
        ..h
    }));
}

} // verus!
