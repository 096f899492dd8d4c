//! Cursors for endpoints that answer page by page.

use crate::types::order::{query_entry, query_text, text_of};
use vstd::prelude::*;

verus! {

/// The cursor that marks the end of a listing.
pub const END_CURSOR: &'static str = "LTE=";

/// The cursor of the first page.
pub const INITIAL_CURSOR: &'static str = "MA==";

/// Pagination parameters for list endpoints.
#[derive(Debug, Clone)]
pub struct PaginationParams {
    pub next_cursor: Option<String>,
}

impl PaginationParams {
    /// The query of these parameters: `next_cursor`, if there is a cursor.
    pub open spec fn query(&self) -> Seq<(Seq<char>, Seq<char>)> {
        query_entry("next_cursor"@, text_of(self.next_cursor))
    }

    /// No cursor.
    pub fn new() -> (params: Self)
        ensures
            params.next_cursor is None,
    {
        Self { next_cursor: None }
    }

    /// The page at `cursor`.
    pub fn with_cursor(cursor: &str) -> (params: Self)
        ensures
            text_of(params.next_cursor) == Some(cursor@),
    {
        Self { next_cursor: Some(cursor.to_owned()) }
    }

    /// The first page.
    pub fn initial() -> (params: Self)
        ensures
            text_of(params.next_cursor) == Some(INITIAL_CURSOR@),
    {
        Self { next_cursor: Some(INITIAL_CURSOR.to_owned()) }
    }

    pub fn to_query_params(&self) -> (params: Vec<(&str, String)>)
        ensures
            query_text(params@) == self.query(),
    {
        let mut params: Vec<(&str, String)> = Vec::new();
        if let Some(ref cursor) = self.next_cursor {
            params.push(("next_cursor", cursor.clone()));
        }
        assert(query_text(params@) =~= self.query());
        params
    }
}

impl Default for PaginationParams {
    fn default() -> (params: Self)
        ensures
            params.next_cursor is None,
    {
        Self::new()
    }
}

} // verus!
