//! Accounts of the logged-in customer.
use vstd::prelude::*;

verus! {

#[derive(Clone, Debug)]
pub struct Item {
    pub account: Account,
}

#[derive(Clone, Debug)]
pub struct Account {
    pub account_number: String,
}

} // verus!
