//! The customer search: a case-insensitive substring filter over the
//! in-memory customer list.
use vstd::prelude::*;

use crate::records::Customer;
use crate::text::str_to_chars;

verus! {

/// The lowercase form of a text, as `str::to_lowercase` defines it.
pub uninterp spec fn lower_of(s: Seq<char>) -> Seq<char>;

/// Relies on `str::to_lowercase`: the result depends on the characters
/// alone, and an empty string stays empty.
#[verifier::external_body]
fn lowercase(s: &str) -> (r: String)
    ensures
        r@ == lower_of(s@),
        s@.len() == 0 ==> r@.len() == 0,
{
    s.to_lowercase()
}

/// Whether `needle` occurs contiguously inside `hay`.
pub open spec fn contains_seq(hay: Seq<char>, needle: Seq<char>) -> bool {
    exists|k: int|
        0 <= k <= hay.len() - needle.len() && #[trigger] hay.subrange(k, k + needle.len() as int)
            == needle
}

/// Whether `needle` occurs in `hay` starting at position `k`.
fn matches_at(hay: &[char], needle: &[char], k: usize) -> (r: bool)
    requires
        k + needle@.len() <= hay@.len(),
    ensures
        r == (hay@.subrange(k as int, k + needle@.len() as int) == needle@),
{
    let n = needle.len();
    let hl = hay.len();
    let mut i: usize = 0;
    while i < n
        invariant
            i <= n,
            n == needle@.len(),
            hl == hay@.len(),
            k + n <= hl,
            forall|j: int| 0 <= j < i ==> hay@[k + j] == needle@[j],
        decreases n - i,
    {
        if hay[k + i] != needle[i] {
            proof {
                let sub = hay@.subrange(k as int, k + needle@.len() as int);
                assert(sub[i as int] == hay@[k + i]);
            }
            return false;
        }
        i += 1;
    }
    proof {
        assert(hay@.subrange(k as int, k + needle@.len() as int) =~= needle@);
    }
    true
}

/// Whether `needle` occurs contiguously inside `hay`.
pub fn contains_chars(hay: &[char], needle: &[char]) -> (r: bool)
    ensures
        r == contains_seq(hay@, needle@),
{
    let n = needle.len();
    let h = hay.len();
    if n > h {
        proof {
            assert(!contains_seq(hay@, needle@));
        }
        return false;
    }
    if n == 0 {
        proof {
            assert(hay@.subrange(0, 0 + needle@.len() as int) =~= needle@);
            assert(contains_seq(hay@, needle@));
        }
        return true;
    }
    let mut k: usize = 0;
    while k <= h - n
        invariant
            0 < n <= h,
            h == hay@.len(),
            n == needle@.len(),
            k <= h - n + 1,
            forall|kk: int|
                0 <= kk < k ==> #[trigger] hay@.subrange(kk, kk + needle@.len() as int)
                    != needle@,
        decreases h - n + 1 - k,
    {
        if matches_at(hay, needle, k) {
            proof {
                assert(contains_seq(hay@, needle@));
            }
            return true;
        }
        k += 1;
    }
    proof {
        if contains_seq(hay@, needle@) {
            let kk = choose|kk: int|
                0 <= kk <= hay@.len() - needle@.len() && #[trigger] hay@.subrange(
                    kk,
                    kk + needle@.len() as int,
                ) == needle@;
            assert(hay@.subrange(kk, kk + needle@.len() as int) != needle@);
        }
    }
    false
}

/// Whether a customer matches a query: its contact name, lowercased,
/// holds the lowercased query.
pub open spec fn customer_matches(c: Customer, query: Seq<char>) -> bool {
    contains_seq(lower_of(c.contact_name@), lower_of(query))
}

/// Pushing one element onto a sequence filters to the old filtered
/// sequence, with the element appended exactly when it passes.
proof fn lemma_filter_push<A>(s: Seq<A>, pred: spec_fn(A) -> bool, x: A)
    ensures
        s.push(x).filter(pred) == if pred(x) {
            s.filter(pred).push(x)
        } else {
            s.filter(pred)
        },
{
    reveal(Seq::filter);
    assert(s.push(x).drop_last() =~= s);
    assert(s.push(x).last() == x);
}

/// The customers whose contact name holds the query, case-insensitively,
/// in their original order.
pub fn search_customers(customers: &Vec<Customer>, query: &str) -> (r: Vec<Customer>)
    ensures
        r@ == customers@.filter(|c: Customer| customer_matches(c, query@)),
{
    let ghost pred = |c: Customer| customer_matches(c, query@);
    let lowered_query = lowercase(query);
    let needle = str_to_chars(lowered_query.as_str());
    let mut r: Vec<Customer> = Vec::new();
    let n = customers.len();
    let mut i: usize = 0;
    proof {
        assert(customers@.subrange(0, 0).filter(pred) =~= Seq::<Customer>::empty());
    }
    while i < n
        invariant
            i <= n,
            n == customers@.len(),
            needle@ == lower_of(query@),
            r@ == customers@.subrange(0, i as int).filter(pred),
            pred == (|c: Customer| customer_matches(c, query@)),
        decreases n - i,
    {
        let c = &customers[i];
        let lowered_name = lowercase(c.contact_name.as_str());
        let hay = str_to_chars(lowered_name.as_str());
        proof {
            assert(customers@.subrange(0, i + 1) =~= customers@.subrange(0, i as int).push(
                customers@[i as int],
            ));
            lemma_filter_push(customers@.subrange(0, i as int), pred, customers@[i as int]);
        }
        if contains_chars(hay.as_slice(), needle.as_slice()) {
            r.push(c.duplicate());
        }
        i += 1;
    }
    proof {
        assert(customers@.subrange(0, n as int) =~= customers@);
    }
    r
}

} // verus!
