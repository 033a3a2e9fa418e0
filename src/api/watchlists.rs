//! Watchlists and their entries.
use vstd::prelude::*;

use crate::api::InstrumentType;

verus! {

#[derive(Clone, Debug)]
pub struct Item {
    pub name: String,
    pub entries: Vec<Entry>,
}

#[derive(Clone, Debug)]
pub struct Entry {
    pub symbol: String,
    pub instrument_type: Option<InstrumentType>,
}

} // verus!
