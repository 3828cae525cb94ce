use crm_core::app_state::{CrmApp, View};
use crm_core::records::{ContactHistory, Customer};
use crm_core::wizard::{wizard_next, WizardEvent, WizardStep};

fn customer(id: i32, contact_name: &str) -> Customer {
    let mut c = Customer::empty();
    c.customer_id = id;
    c.contact_name = contact_name.to_owned();
    c
}

#[test]
fn a_new_app_shows_the_main_view_with_nothing_loaded() {
    let app = CrmApp::new();
    assert!(matches!(app.current_view, View::Main));
    assert!(app.customers.is_empty());
    assert!(!app.customer_contact_window_open);
    assert_eq!(app.active_customer_index, 0);
    assert!(app.selected_customer.is_none());
    assert!(app.needs_customer_load());
}

#[test]
fn selecting_a_view_changes_only_the_view() {
    let mut app = CrmApp::new();
    app.select_view(View::Invoices);
    assert!(matches!(app.current_view, View::Invoices));
    assert!(app.customers.is_empty());
}

#[test]
fn opening_customer_contact_opens_the_window() {
    let mut app = CrmApp::new();
    app.open_customer_contact();
    assert!(matches!(app.current_view, View::CustomerContact));
    assert!(app.customer_contact_window_open);
}

#[test]
fn a_loaded_list_ends_the_need_to_load() {
    let mut app = CrmApp::new();
    app.set_customers(vec![customer(1, "A")]);
    assert!(!app.needs_customer_load());
}

#[test]
fn replacing_the_list_with_a_shorter_one_resets_the_index() {
    let mut app = CrmApp::new();
    app.set_customers(vec![customer(1, "A"), customer(2, "B"), customer(3, "C")]);
    app.next_customer();
    app.next_customer();
    assert_eq!(app.active_customer_index, 2);
    app.set_customers(vec![customer(1, "A")]);
    assert_eq!(app.active_customer_index, 0);
}

#[test]
fn navigation_stays_inside_the_list() {
    let mut app = CrmApp::new();
    app.set_customers(vec![customer(1, "A"), customer(2, "B")]);
    app.previous_customer();
    assert_eq!(app.active_customer_index, 0);
    app.next_customer();
    assert_eq!(app.active_customer_index, 1);
    app.next_customer();
    assert_eq!(app.active_customer_index, 1);
    app.previous_customer();
    assert_eq!(app.active_customer_index, 0);
    assert_eq!(app.current_customer().customer_id, 1);
}

#[test]
fn an_added_customer_is_appended() {
    let mut app = CrmApp::new();
    app.set_customers(vec![customer(1, "A")]);
    app.record_added_customer(customer(2, "B"));
    assert_eq!(app.customers.len(), 2);
    assert_eq!(app.customers[1].customer_id, 2);
}

#[test]
fn the_history_cache_serves_what_was_stored() {
    let mut app = CrmApp::new();
    assert!(app.history_for(7).is_none());
    let mut entry = ContactHistory::default_now();
    entry.customer_id = 7;
    entry.contact_type = "call".to_owned();
    app.store_history(7, vec![entry.clone()]);
    let held = app.history_for(7).expect("history was stored");
    assert_eq!(held.len(), 1);
    assert_eq!(held[0], entry);
    assert!(app.history_for(8).is_none());
}

#[test]
fn selecting_a_customer_addresses_a_blank_draft_to_it() {
    let mut app = CrmApp::new();
    app.select_customer(customer(42, "Ada"));
    assert_eq!(app.selected_customer.as_ref().map(|c| c.customer_id), Some(42));
    assert_eq!(app.new_contact_history.customer_id, 42);
    assert!(!app.contact_entry_ready());
}

#[test]
fn a_draft_is_ready_once_type_and_notes_are_filled() {
    let mut app = CrmApp::new();
    app.select_customer(customer(1, "A"));
    app.new_contact_history.contact_type = "call".to_owned();
    assert!(!app.contact_entry_ready());
    app.new_contact_history.notes = "spoke about the invoice".to_owned();
    assert!(app.contact_entry_ready());
}

#[test]
fn run_search_filters_the_mirror() {
    let mut app = CrmApp::new();
    app.set_customers(vec![customer(1, "Alice"), customer(2, "Bob")]);
    app.search_query = "ali".to_owned();
    app.run_search();
    assert_eq!(app.search_results.len(), 1);
    assert_eq!(app.search_results[0].customer_id, 1);
}

#[test]
fn the_wizard_advances_only_on_its_own_successes() {
    let s0 = WizardStep::DatabaseConfig;
    assert_eq!(wizard_next(s0, WizardEvent::DatabaseCreationFailed), WizardStep::DatabaseConfig);
    assert_eq!(wizard_next(s0, WizardEvent::StructureCreated), WizardStep::DatabaseConfig);
    let s1 = wizard_next(s0, WizardEvent::DatabaseCreated);
    assert_eq!(s1, WizardStep::DatabaseStructure);
    assert_eq!(wizard_next(s1, WizardEvent::StructureCreationFailed), WizardStep::DatabaseStructure);
    let s2 = wizard_next(s1, WizardEvent::StructureCreated);
    assert_eq!(s2, WizardStep::Complete);
    assert_eq!(wizard_next(s2, WizardEvent::Closed), WizardStep::DatabaseConfig);
}
