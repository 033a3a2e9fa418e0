//! The brokerage's REST resources, as plain values.
use vstd::prelude::*;

pub mod accounts;
pub mod market_metrics;
pub mod option_chains;
pub mod positions;
pub mod transactions;
pub mod watchlists;

verus! {

/// Where a paged listing stands.
#[derive(Clone, Copy, Debug, PartialEq, Eq, Structural)]
pub struct Pagination {
    pub page_offset: i32,
    pub total_pages: i32,
}

impl Pagination {
    /// The offset of the page after this one, or `None` after the last page.
    pub fn next_page_offset(&self) -> (r: Option<i32>)
        ensures
            r is Some <==> self.page_offset + 1 < self.total_pages,
            r matches Some(o) ==> o == self.page_offset + 1,
    {
        if (self.page_offset as i64) + 1 < self.total_pages as i64 {
            Some(self.page_offset + 1)
        } else {
            None
        }
    }
}

#[derive(Clone, Copy, Debug, PartialEq, Eq, Hash, Structural)]
pub enum InstrumentType {
    Future,
    Equity,
    Index,
    Cryptocurrency,
    Unknown,
}

} // verus!
