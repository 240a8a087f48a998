use vstd::prelude::*;
use vstd::string::*;

verus! {

/// An account or contract on the ledger, identified by its textual key.
///
/// Only identity matters to the contract: two addresses are the same account
/// exactly when their keys hold the same characters.
#[derive(Debug)]
pub struct Address {
    pub key: String,
}

impl View for Address {
    type V = Seq<char>;

    open spec fn view(&self) -> Seq<char> {
        self.key@
    }
}

impl Address {
    pub fn new(key: String) -> (r: Address)
        ensures
            r.key == key,
    {
        Address { key }
    }

    /// A usable address has a non-empty key.
    pub open spec fn is_valid(&self) -> bool {
        self@.len() > 0
    }

    pub fn is_empty(&self) -> (r: bool)
        ensures
            r == !self.is_valid(),
    {
        self.key.as_str().unicode_len() == 0
    }

    pub fn same_as(&self, other: &Address) -> (r: bool)
        ensures
            r == (self@ == other@),
    {
        self.key == other.key
    }
}

impl Clone for Address {
    fn clone(&self) -> (r: Self)
        ensures
            r == *self,
    {
        Address { key: self.key.clone() }
    }
}

impl PartialEq for Address {
    fn eq(&self, other: &Address) -> (r: bool) {
        self.key == other.key
    }
}

impl vstd::std_specs::cmp::PartialEqSpecImpl for Address {
    open spec fn obeys_eq_spec() -> bool {
        true
    }

    open spec fn eq_spec(&self, other: &Address) -> bool {
        self@ == other@
    }
}

} // verus!
