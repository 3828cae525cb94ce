//! The two records the application manages: customers and their logged
//! contact history.
use vstd::prelude::*;

use crate::date::Date;

verus! {

/// A customer record, as the customers table stores it.
#[derive(Clone, Debug, PartialEq, Eq)]
#[verifier::ext_equal]
pub struct Customer {
    pub company_name: String,
    pub contact_name: String,
    pub contact_position: String,
    pub address: String,
    pub city: String,
    pub postal_code: String,
    pub country: String,
    pub phone: String,
    pub email: String,
    pub website: String,
    pub customer_id: i32,
}

impl Customer {
    /// An exact copy of the record.
    pub fn duplicate(&self) -> (r: Customer)
        ensures
            r == *self,
    {
        let r = Customer {
            company_name: self.company_name.clone(),
            contact_name: self.contact_name.clone(),
            contact_position: self.contact_position.clone(),
            address: self.address.clone(),
            city: self.city.clone(),
            postal_code: self.postal_code.clone(),
            country: self.country.clone(),
            phone: self.phone.clone(),
            email: self.email.clone(),
            website: self.website.clone(),
            customer_id: self.customer_id,
        };
        proof {
            assert(r =~= *self);
        }
        r
    }

    /// A record with every text field empty and the id zero: what the
    /// add-customer form starts from.
    pub fn empty() -> (r: Customer)
        ensures
            r.company_name@.len() == 0,
            r.contact_name@.len() == 0,
            r.contact_position@.len() == 0,
            r.address@.len() == 0,
            r.city@.len() == 0,
            r.postal_code@.len() == 0,
            r.country@.len() == 0,
            r.phone@.len() == 0,
            r.email@.len() == 0,
            r.website@.len() == 0,
            r.customer_id == 0,
    {
        Customer {
            company_name: String::new(),
            contact_name: String::new(),
            contact_position: String::new(),
            address: String::new(),
            city: String::new(),
            postal_code: String::new(),
            country: String::new(),
            phone: String::new(),
            email: String::new(),
            website: String::new(),
            customer_id: 0,
        }
    }

    /// A record built from its eleven column values, in table order.
    pub fn from_parts(
        company_name: String,
        contact_name: String,
        contact_position: String,
        address: String,
        city: String,
        postal_code: String,
        country: String,
        phone: String,
        email: String,
        website: String,
        customer_id: i32,
    ) -> (r: Customer)
        ensures
            r.company_name == company_name,
            r.contact_name == contact_name,
            r.contact_position == contact_position,
            r.address == address,
            r.city == city,
            r.postal_code == postal_code,
            r.country == country,
            r.phone == phone,
            r.email == email,
            r.website == website,
            r.customer_id == customer_id,
    {
        Customer {
            company_name,
            contact_name,
            contact_position,
            address,
            city,
            postal_code,
            country,
            phone,
            email,
            website,
            customer_id,
        }
    }
}

impl Default for Customer {
    /// The blank record the add-customer form starts from.
    fn default() -> (r: Customer)
        ensures
            r.company_name@.len() == 0,
            r.contact_name@.len() == 0,
            r.contact_position@.len() == 0,
            r.address@.len() == 0,
            r.city@.len() == 0,
            r.postal_code@.len() == 0,
            r.country@.len() == 0,
            r.phone@.len() == 0,
            r.email@.len() == 0,
            r.website@.len() == 0,
            r.customer_id == 0,
    {
        Customer::empty()
    }
}

/// One logged interaction with a customer.
///
/// Timestamps are whole seconds since the Unix epoch, in UTC.
#[derive(Clone, Debug, PartialEq, Eq)]
#[verifier::ext_equal]
pub struct ContactHistory {
    pub history_id: i32,
    pub customer_id: i32,
    pub contact_type: String,
    pub contact_date: i64,
    pub contact_duration: Option<i32>,
    pub contact_method: Option<String>,
    pub contact_outcome: String,
    pub notes: String,
    pub follow_up_date: Option<Date>,
    pub created_by: String,
    pub created_at: i64,
    pub updated_at: i64,
}

/// An entry the contact form may save: its type and notes are filled in.
pub open spec fn contact_entry_complete(h: ContactHistory) -> bool {
    h.contact_type@.len() > 0 && h.notes@.len() > 0
}

/// Relies on chrono's `Utc::now` and `DateTime::timestamp`: the clock
/// reading in whole seconds since the Unix epoch.  `Utc::now` refuses a
/// system time before the epoch, so the reading is never negative.
#[verifier::external_body]
fn now_utc_timestamp() -> (r: i64)
    ensures
        r >= 0,
{
    chrono::Utc::now().timestamp()
}

impl ContactHistory {
    /// A blank entry stamped with the current time: every text field
    /// empty, no optional part, and all three timestamps equal.
    pub fn default_now() -> (r: ContactHistory)
        ensures
            r.history_id == 0,
            r.customer_id == 0,
            r.contact_type@.len() == 0,
            r.contact_duration is None,
            r.contact_method is None,
            r.contact_outcome@.len() == 0,
            r.notes@.len() == 0,
            r.follow_up_date is None,
            r.created_by@.len() == 0,
            r.contact_date == r.created_at && r.created_at == r.updated_at,
            r.contact_date >= 0,
            !contact_entry_complete(r),
    {
        let now = now_utc_timestamp();
        ContactHistory {
            history_id: 0,
            customer_id: 0,
            contact_type: String::new(),
            contact_date: now,
            contact_duration: None,
            contact_method: None,
            contact_outcome: String::new(),
            notes: String::new(),
            follow_up_date: None,
            created_by: String::new(),
            created_at: now,
            updated_at: now,
        }
    }

    /// Whether the entry may be saved: its type and notes are filled in.
    pub fn is_complete(&self) -> (r: bool)
        ensures
            r == contact_entry_complete(*self),
    {
        !self.contact_type.as_str().is_empty() && !self.notes.as_str().is_empty()
    }
}

impl Default for ContactHistory {
    /// A blank entry stamped with the current time.
    fn default() -> (r: ContactHistory)
        ensures
            r.history_id == 0,
            r.customer_id == 0,
            r.contact_type@.len() == 0,
            r.contact_duration is None,
            r.contact_method is None,
            r.contact_outcome@.len() == 0,
            r.notes@.len() == 0,
            r.follow_up_date is None,
            r.created_by@.len() == 0,
            r.contact_date == r.created_at && r.created_at == r.updated_at,
            r.contact_date >= 0,
            !contact_entry_complete(r),
    {
        ContactHistory::default_now()
    }
}

} // verus!
