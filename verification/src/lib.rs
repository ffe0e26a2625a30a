//! Client-side model of the Qwant search API: typed response records,
//! request-URL construction with query escaping, pagination arithmetic,
//! a JSON-tree codec for the response schema, and an HTML-tag stripper
//! for highlighted text fields.
//!
//! The library itself performs no I/O: a caller issues the HTTP GET for a
//! URL built here and hands the decoded body back as a [`json::Json`] tree.

use vstd::prelude::*;

pub mod client;
pub mod codec;
pub mod errors;
pub mod json;
pub mod strip;
pub mod types;
pub mod url;

verus! {

/// Kinds of search the API offers; each maps to a fixed lowercase
/// path segment of the request URL.
#[derive(Clone, Copy, Debug, PartialEq, Eq, Structural)]
pub enum SearchType {
    Web,
    News,
    Images,
    Videos,
    Shopping,
    Music,
}

/// Top-level response: the status string and, when the request could be
/// served at all, the data. `search_str` carries the exact request URL
/// used, so that pagination can reuse it; it is not part of the wire
/// format.
#[derive(Clone, Debug, PartialEq)]
pub struct APIResponse {
    pub status: String,
    pub data: Option<Data>,
    pub search_str: Option<String>,
}

/// Body of a served response. On success `query` and `cache` are present
/// and `error_code` absent; on a query-level failure `error_code` is set,
/// `query` and `cache` are absent and `result.items` is empty.
#[derive(Clone, Debug, PartialEq)]
pub struct Data {
    pub query: Option<Query>,
    pub cache: Option<Cache>,
    pub result: QwantResult,
    pub error_code: Option<u32>,
}

/// Cache metadata echoed by the server.
#[derive(Clone, Debug, PartialEq)]
pub struct Cache {
    pub key: String,
    pub created: u64,
    pub expiration: u64,
    pub status: String,
    pub age: u64,
}

/// The request parameters as the server echoed them back.
#[derive(Clone, Debug, PartialEq)]
pub struct Query {
    /// A locale string such as "en_US".
    pub locale: String,
    /// The term that was searched for.
    pub query: String,
    /// Zero-based offset of the first item of this page.
    pub offset: u32,
}

/// One page of results together with the refinement facets.
#[derive(Clone, Debug, PartialEq)]
pub struct QwantResult {
    pub items: Vec<Item>,
    pub filters: Filters,
    pub version: String,
    pub domain: Option<String>,
    /// True when this is the final page.
    pub last: Option<bool>,
}

/// One search hit. Which optional fields are present varies with the
/// kind of search (web, image, video, music, shopping, news).
#[derive(Clone, Debug, PartialEq)]
pub struct Item {
    pub title: String,
    pub _id: String,
    pub type_: Option<String>,
    pub favicon: Option<String>,
    pub url: String,
    pub source: Option<String>,
    pub desc: String,
    pub desc_short: Option<String>,
    pub position: Option<u64>,
    pub duration: Option<u64>,
    pub thumbnail: Option<String>,
    pub thumb_height: Option<u64>,
    pub thumb_width: Option<u64>,
    pub thumb_type: Option<String>,
    pub width: Option<String>,
    pub height: Option<String>,
    pub size: Option<String>,
    pub b_id: Option<String>,
    pub media_fullsize: Option<String>,
    pub count: Option<u64>,
    pub domain: Option<String>,
    pub date: Option<u64>,
    pub media: Option<String>,
    pub media_: Option<Vec<types::media::Media>>,
}

/// The refinement facets offered alongside a result page.
#[derive(Clone, Debug, PartialEq)]
pub struct Filters {
    pub freshness: Freshness,
    pub size: Option<Size>,
    pub license: Option<License>,
}

/// The size facet (image searches).
#[derive(Clone, Debug, PartialEq)]
pub struct Size {
    pub label: String,
    pub name: String,
    pub type_: String,
    pub selected: String,
    pub values: Vec<Values>,
}

/// The license facet (image searches).
#[derive(Clone, Debug, PartialEq)]
pub struct License {
    pub label: String,
    pub name: String,
    pub type_: String,
    pub selected: String,
    pub values: Vec<Values>,
}

/// The freshness facet, present on every result page.
#[derive(Clone, Debug, PartialEq)]
pub struct Freshness {
    pub label: String,
    pub name: String,
    pub type_: String,
    pub selected: String,
    pub values: Vec<Values>,
}

/// One selectable value of a facet.
#[derive(Clone, Debug, PartialEq)]
pub struct Values {
    pub value: String,
    pub label: String,
    pub translate: bool,
}

} // verus!
