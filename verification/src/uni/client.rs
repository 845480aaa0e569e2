//! The platform client as the binding layer exposes it.

use std::sync::Arc;

use vstd::prelude::*;

use crate::ids::{parse_uuid, uuid_parse};
use crate::pocketoption::deal_book::DealBook;
use crate::uni::error::UniError;

verus! {

/// A PocketOption client handle; `C` is the platform client it wraps.
pub struct PocketOption<C> {
    inner: C,
}

impl<C> PocketOption<C> {
    /// The platform client that this handle wraps.
    pub closed spec fn client(&self) -> C {
        self.inner
    }

    /// Wraps a platform client.
    pub fn from_inner(inner: C) -> (r: Arc<Self>)
        ensures
            (*r).client() == inner,
    {
        Arc::new(PocketOption { inner })
    }

    /// The platform client.
    pub fn inner(&self) -> (r: &C)
        ensures
            *r == self.client(),
    {
        &self.inner
    }

    /// Reads the id of a trade given as text, as `result` and
    /// `result_with_timeout` do: a UUID, or an error that says the text is
    /// not one.
    pub fn trade_id(id: &str) -> (r: Result<u128, UniError>)
        ensures
            match uuid_parse(id@) {
                Some(v) => r matches Ok(x) && x == v,
                None => r matches Err(UniError::Uuid(m)) && "Invalid UUID: "@.is_prefix_of(m@),
            },
    {
        match parse_uuid(id) {
            Ok(v) => Ok(v),
            Err(e) => Err(UniError::Uuid(String::from_str("Invalid UUID: ").concat(e.as_str()))),
        }
    }

    /// The deal whose close time `get_deal_end_time` reports for the id
    /// given as text: none when the text is not a UUID; else the closed deal
    /// with that id, if there is one, else the open deal with that id.
    pub fn deal_for_end_time<'a, D>(id: &str, book: &'a DealBook<D>) -> (r: Option<&'a D>)
        ensures
            match uuid_parse(id@) {
                None => r is None,
                Some(v) => if book.closed_deals().contains_key(v) {
                    r matches Some(d) && *d == book.closed_deals()[v]
                } else if book.opened().contains_key(v) {
                    r matches Some(d) && *d == book.opened()[v]
                } else {
                    r is None
                },
            },
    {
        let v = match parse_uuid(id) {
            Ok(v) => v,
            Err(_) => {
                return None;
            },
        };
        match book.closed_deal(v) {
            Some(d) => Some(d),
            None => book.opened_deal(v),
        }
    }
}

} // verus!
