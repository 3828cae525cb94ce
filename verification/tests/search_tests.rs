use crm_core::records::Customer;
use crm_core::search::search_customers;

fn customer(id: i32, contact_name: &str) -> Customer {
    let mut c = Customer::empty();
    c.customer_id = id;
    c.contact_name = contact_name.to_owned();
    c
}

#[test]
fn search_is_case_insensitive_both_ways() {
    let customers = vec![
        customer(1, "Alice Carroll"),
        customer(2, "Bob Moreno"),
        customer(3, "ALICIA VEGA"),
    ];
    let hits = search_customers(&customers, "aLiC");
    let ids: Vec<i32> = hits.iter().map(|c| c.customer_id).collect();
    assert_eq!(ids, vec![1, 3]);
}

#[test]
fn search_matches_in_the_middle_of_the_name() {
    let customers = vec![customer(1, "Maria del Sol"), customer(2, "Jon Snow")];
    let hits = search_customers(&customers, "DEL");
    assert_eq!(hits.len(), 1);
    assert_eq!(hits[0].customer_id, 1);
}

#[test]
fn empty_query_matches_everyone() {
    let customers = vec![customer(1, "A"), customer(2, "B")];
    let hits = search_customers(&customers, "");
    assert_eq!(hits.len(), 2);
}

#[test]
fn no_match_returns_an_empty_list() {
    let customers = vec![customer(1, "Alice"), customer(2, "Bob")];
    assert_eq!(search_customers(&customers, "zz").len(), 0);
}

#[test]
fn results_keep_the_original_order_and_records() {
    let customers = vec![customer(9, "Ann"), customer(4, "Anna"), customer(7, "Bo")];
    let hits = search_customers(&customers, "an");
    assert_eq!(hits.len(), 2);
    assert_eq!(hits[0], customers[0]);
    assert_eq!(hits[1], customers[1]);
}

#[test]
fn search_on_an_empty_list_finds_nothing() {
    let customers: Vec<Customer> = Vec::new();
    assert_eq!(search_customers(&customers, "a").len(), 0);
}
