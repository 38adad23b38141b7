//! The values that cross the service boundary.

use vstd::prelude::*;

verus! {

/// A request to map `short_code` to `url`.
#[derive(Debug)]
pub struct CreateUrlRequest {
    pub url: String,
    pub short_code: String,
}

/// A request to point an existing code at a new `url`.
#[derive(Debug)]
pub struct UpdateUrlRequest {
    pub url: String,
}

/// What a retrieval shows of a record: its URL, code and times as text.
/// The access count is left out; it is shown only by the statistics.
#[derive(Debug)]
pub struct UrlResponse {
    pub url: String,
    pub short_code: String,
    pub created_at: Option<String>,
    pub updated_at: Option<String>,
}

/// The mathematical value of a [`UrlResponse`].
pub ghost struct UrlResponseView {
    pub url: Seq<char>,
    pub short_code: Seq<char>,
    pub created_at: Option<Seq<char>>,
    pub updated_at: Option<Seq<char>>,
}

/// The characters of an optional string.
pub open spec fn text_view(s: Option<String>) -> Option<Seq<char>> {
    match s {
        Some(t) => Some(t@),
        None => None,
    }
}

impl View for UrlResponse {
    type V = UrlResponseView;

    open spec fn view(&self) -> UrlResponseView {
        UrlResponseView {
            url: self.url@,
            short_code: self.short_code@,
            created_at: text_view(self.created_at),
            updated_at: text_view(self.updated_at),
        }
    }
}

} // verus!
