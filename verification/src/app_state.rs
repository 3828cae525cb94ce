//! The application's in-memory state: the current view, the shared
//! customer list, the contact-history cache, and the search and contact
//! forms, together with every decision the screens make on them.
use std::collections::HashMap;

use vstd::prelude::*;
use vstd::view::View as _;

use crate::records::{contact_entry_complete, ContactHistory, Customer};
use crate::search::{customer_matches, search_customers};

verus! {

broadcast use vstd::std_specs::hash::group_hash_axioms;

/// Which screen is shown.
#[derive(PartialEq, Eq, Structural, Clone, Copy, Debug)]
pub enum View {
    Main,
    SetupWizard,
    Customers,
    Invoices,
    Settings,
    CustomerContact,
    CustomerSearch,
}

/// The application state behind the screens.
pub struct CrmApp {
    /// Which screen is shown.
    pub current_view: View,
    /// The in-memory mirror of the customers table.
    pub customers: Vec<Customer>,
    /// Whether the customer-contact window is open.
    pub customer_contact_window_open: bool,
    /// Which customer the contact screen shows.
    pub active_customer_index: usize,
    /// Contact history already fetched, by customer id.
    pub contact_history_cache: HashMap<i32, Vec<ContactHistory>>,
    /// The search screen's query.
    pub search_query: String,
    /// The search screen's current results.
    pub search_results: Vec<Customer>,
    /// The customer picked on the search screen, if any.
    pub selected_customer: Option<Customer>,
    /// The contact-history entry being drafted.
    pub new_contact_history: ContactHistory,
}

impl CrmApp {
    /// The one invariant the screens rely on: the active index stays
    /// inside the customer list whenever the list is not empty, and is
    /// zero when it is.
    pub open spec fn wf(&self) -> bool {
        if self.customers@.len() == 0 {
            self.active_customer_index == 0
        } else {
            self.active_customer_index < self.customers@.len()
        }
    }

    /// The state the application starts in: the main screen, nothing
    /// loaded, nothing selected, a blank draft entry.
    pub fn new() -> (r: CrmApp)
        ensures
            r.wf(),
            r.current_view == View::Main,
            r.customers@.len() == 0,
            !r.customer_contact_window_open,
            r.active_customer_index == 0,
            r.contact_history_cache@ == Map::<i32, Vec<ContactHistory>>::empty(),
            r.search_query@.len() == 0,
            r.search_results@.len() == 0,
            r.selected_customer is None,
            !contact_entry_complete(r.new_contact_history),
    {
        CrmApp {
            current_view: View::Main,
            customers: Vec::new(),
            customer_contact_window_open: false,
            active_customer_index: 0,
            contact_history_cache: HashMap::new(),
            search_query: String::new(),
            search_results: Vec::new(),
            selected_customer: None,
            new_contact_history: ContactHistory::default_now(),
        }
    }

    /// Shows another screen.
    pub fn select_view(&mut self, view: View)
        ensures
            final(self).current_view == view,
            final(self).customers == old(self).customers,
            final(self).customer_contact_window_open == old(self).customer_contact_window_open,
            final(self).active_customer_index == old(self).active_customer_index,
            final(self).contact_history_cache == old(self).contact_history_cache,
            final(self).search_results == old(self).search_results,
            final(self).selected_customer == old(self).selected_customer,
            old(self).wf() ==> final(self).wf(),
    {
        self.current_view = view;
    }

    /// Opens the customer-contact window and shows its screen, as the
    /// menu does.
    pub fn open_customer_contact(&mut self)
        ensures
            final(self).current_view == View::CustomerContact,
            final(self).customer_contact_window_open,
            final(self).customers == old(self).customers,
            final(self).active_customer_index == old(self).active_customer_index,
            old(self).wf() ==> final(self).wf(),
    {
        self.customer_contact_window_open = true;
        self.current_view = View::CustomerContact;
    }

    /// Whether the customer list still has to be fetched: the contact
    /// screen triggers a load exactly when the mirror is empty.
    pub fn needs_customer_load(&self) -> (r: bool)
        ensures
            r == (self.customers@.len() == 0),
    {
        self.customers.len() == 0
    }

    /// Replaces the customer list wholesale, as a finished background
    /// load does.  An active index the new list no longer covers is
    /// reset to the first customer.
    pub fn set_customers(&mut self, customers: Vec<Customer>)
        ensures
            final(self).customers == customers,
            final(self).wf(),
            final(self).active_customer_index == old(self).active_customer_index || final(self).active_customer_index == 0,
            final(self).current_view == old(self).current_view,
            final(self).contact_history_cache == old(self).contact_history_cache,
            final(self).selected_customer == old(self).selected_customer,
            final(self).search_results == old(self).search_results,
    {
        if self.active_customer_index >= customers.len() {
            self.active_customer_index = 0;
        }
        self.customers = customers;
        if self.customers.len() == 0 {
            self.active_customer_index = 0;
        }
    }

    /// Appends a customer that was just written to the table, as the
    /// add-customer form does after a successful insert.
    pub fn record_added_customer(&mut self, customer: Customer)
        requires
            old(self).customers@.len() < usize::MAX,
        ensures
            final(self).customers@ == old(self).customers@.push(customer),
            final(self).active_customer_index == old(self).active_customer_index,
            old(self).wf() ==> final(self).wf(),
            final(self).current_view == old(self).current_view,
            final(self).contact_history_cache == old(self).contact_history_cache,
    {
        self.customers.push(customer);
    }

    /// The customer the contact screen shows.
    pub fn current_customer(&self) -> (r: &Customer)
        requires
            self.wf(),
            self.customers@.len() > 0,
        ensures
            *r == self.customers@[self.active_customer_index as int],
    {
        &self.customers[self.active_customer_index]
    }

    /// Steps the contact screen to the previous customer; the first
    /// customer stays put.
    pub fn previous_customer(&mut self)
        requires
            old(self).wf(),
        ensures
            final(self).wf(),
            final(self).customers == old(self).customers,
            old(self).active_customer_index > 0 ==> final(self).active_customer_index == old(self).active_customer_index - 1,
            old(self).active_customer_index == 0 ==> final(self).active_customer_index == 0,
    {
        if self.active_customer_index > 0 {
            self.active_customer_index = self.active_customer_index - 1;
        }
    }

    /// Steps the contact screen to the next customer; the last customer
    /// stays put.
    pub fn next_customer(&mut self)
        requires
            old(self).wf(),
        ensures
            final(self).wf(),
            final(self).customers == old(self).customers,
            old(self).customers@.len() > 0 && old(self).active_customer_index + 1 < old(self).customers@.len() ==> final(self).active_customer_index == old(self).active_customer_index + 1,
            old(self).customers@.len() > 0 && old(self).active_customer_index + 1 >= old(self).customers@.len() ==> final(self).active_customer_index == old(self).active_customer_index,
    {
        if self.customers.len() > 0 && self.active_customer_index < self.customers.len() - 1 {
            self.active_customer_index = self.active_customer_index + 1;
        }
    }

    /// Stores a customer's fetched contact history in the cache,
    /// replacing anything held for that customer.
    pub fn store_history(&mut self, customer_id: i32, entries: Vec<ContactHistory>)
        ensures
            final(self).contact_history_cache@ == old(self).contact_history_cache@.insert(
                customer_id,
                entries,
            ),
            final(self).customers == old(self).customers,
            final(self).active_customer_index == old(self).active_customer_index,
            old(self).wf() ==> final(self).wf(),
    {
        self.contact_history_cache.insert(customer_id, entries);
    }

    /// The cached contact history for a customer, if it was fetched.
    pub fn history_for(&self, customer_id: i32) -> (r: Option<&Vec<ContactHistory>>)
        ensures
            match r {
                Some(entries) => self.contact_history_cache@.contains_key(customer_id)
                    && *entries == self.contact_history_cache@[customer_id],
                None => !self.contact_history_cache@.contains_key(customer_id),
            },
    {
        self.contact_history_cache.get(&customer_id)
    }

    /// Picks a customer on the search screen: remembers it and starts a
    /// blank draft entry addressed to it.
    pub fn select_customer(&mut self, customer: Customer)
        ensures
            final(self).selected_customer == Some(customer),
            final(self).new_contact_history.customer_id == customer.customer_id,
            !contact_entry_complete(final(self).new_contact_history),
            final(self).customers == old(self).customers,
            final(self).active_customer_index == old(self).active_customer_index,
            old(self).wf() ==> final(self).wf(),
    {
        let mut draft = ContactHistory::default_now();
        draft.customer_id = customer.customer_id;
        self.new_contact_history = draft;
        self.selected_customer = Some(customer);
    }

    /// Runs the search screen's filter over the customer mirror.
    pub fn run_search(&mut self)
        ensures
            final(self).search_results@ == old(self).customers@.filter(
                |c: Customer| customer_matches(c, old(self).search_query@),
            ),
            final(self).customers == old(self).customers,
            final(self).search_query == old(self).search_query,
            final(self).active_customer_index == old(self).active_customer_index,
            old(self).wf() ==> final(self).wf(),
    {
        self.search_results = search_customers(&self.customers, self.search_query.as_str());
    }

    /// Whether the drafted entry may be saved: its type and notes are
    /// filled in.
    pub fn contact_entry_ready(&self) -> (r: bool)
        ensures
            r == contact_entry_complete(self.new_contact_history),
    {
        self.new_contact_history.is_complete()
    }
}

} // verus!
