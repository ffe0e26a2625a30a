//! The request side of one search session: deriving the next page's
//! request from a response, and folding the new page context back into a
//! freshly decoded response.
//!
//! The library builds URLs and decodes trees; the HTTP round trip itself
//! is the caller's, so each operation here is pure.

use vstd::prelude::*;
use crate::APIResponse;
use crate::errors::QwantError;
use crate::url::next_page_url;
use crate::url::next_page_url_spec;

verus! {

/// The page offset a response carries: the one its echoed query holds,
/// and zero for a first page that echoed none.
pub open spec fn last_offset_spec(resp: APIResponse) -> u32 {
    match resp.data {
        Some(d) => match d.query {
            Some(q) => q.offset,
            None => 0u32,
        },
        None => 0u32,
    }
}

impl APIResponse {
    /// The page offset this response carries (zero when no query was
    /// echoed).
    pub fn last_offset(&self) -> (r: u32)
        ensures
            r == last_offset_spec(*self),
    {
        match &self.data {
            Some(d) => match &d.query {
                Some(q) => q.offset,
                None => 0,
            },
            None => 0,
        }
    }

    /// The URL and offset that request the page after this one: the
    /// retained request URL with `&offset=<last + 10>` appended. Fails
    /// with [`QwantError::InvalidArgument`] when this response retained
    /// no request URL, or when the offset cannot advance within `u32`.
    pub fn next_page_request(&self) -> (r: Result<(String, u32), QwantError>)
        ensures
            self.search_str is None ==> (r matches Err(e) && e matches QwantError::InvalidArgument),
            (self.search_str is Some && last_offset_spec(*self) + 10 > u32::MAX) ==> (r matches Err(
                e,
            ) && e matches QwantError::InvalidArgument),
            self.search_str matches Some(u) ==> (last_offset_spec(*self) + 10 <= u32::MAX ==> (
            r matches Ok(p) && p.1 == last_offset_spec(*self) + 10 && p.0@ == next_page_url_spec(
                u@,
                p.1,
            ))),
    {
        let offset = self.last_offset();
        match &self.search_str {
            None => Err(QwantError::InvalidArgument),
            Some(u) => next_page_url(u.as_str(), offset),
        }
    }

    /// Folds a new page's context into a freshly decoded response: the
    /// echoed query's offset is overridden with the offset actually
    /// requested, and the request URL is retained for the page after.
    /// Everything else of the response is kept as it was; a response
    /// whose data or echoed query is absent keeps its data untouched.
    pub fn with_page_context(self, offset: u32, url: String) -> (r: APIResponse)
        ensures
            r.status == self.status,
            r.search_str == Some(url),
            self.data is None ==> r.data is None,
            self.data matches Some(d) ==> (d.query is None ==> (r.data matches Some(d2) && d2.query
                is None && d2.cache == d.cache && d2.result == d.result && d2.error_code
                == d.error_code)),
            self.data matches Some(d) ==> (d.query matches Some(q) ==> (r.data matches Some(d2)
                && d2.cache == d.cache && d2.result == d.result && d2.error_code == d.error_code
                && (d2.query matches Some(q2) && q2.offset == offset && q2.locale == q.locale
                && q2.query == q.query))),
    {
        let APIResponse { status, data, search_str: _ } = self;
        let data = match data {
            None => None,
            Some(mut d) => {
                let query = match d.query {
                    None => None,
                    Some(mut q) => {
                        q.offset = offset;
                        Some(q)
                    },
                };
                d.query = query;
                Some(d)
            },
        };
        APIResponse { status, data, search_str: Some(url) }
    }

    /// The query-level error code the API reported, if any: present
    /// exactly when the served data carries one.
    pub fn application_error(&self) -> (r: Option<u32>)
        ensures
            match self.data {
                Some(d) => r == d.error_code,
                None => r is None,
            },
    {
        match &self.data {
            Some(d) => d.error_code,
            None => None,
        }
    }
}

} // verus!
