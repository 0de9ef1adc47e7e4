//! The quote entity, its mathematical view, the creation payload and the
//! error taxonomy of the service.

use vstd::prelude::*;

use crate::text::is_blank;

verus! {

/// The mathematical shape of a stored quote: plain sequences and integers.
pub ghost struct QuoteView {
    pub id: Seq<char>,
    pub text: Seq<char>,
    pub author: Option<Seq<char>>,
    pub created_at: int,
    pub updated_at: int,
}

impl QuoteView {
    /// Record invariant: the text is never empty or all-whitespace, and the
    /// creation stamp never exceeds the update stamp.
    pub open spec fn wf(self) -> bool {
        &&& !is_blank(self.text)
        &&& self.created_at <= self.updated_at
    }
}

/// The view of an optional attribution string.
pub open spec fn author_view(a: Option<String>) -> Option<Seq<char>> {
    match a {
        Option::Some(s) => Option::Some(s@),
        Option::None => Option::None,
    }
}

/// A stored quotation. Timestamps are milliseconds since the Unix epoch.
#[derive(Debug, PartialEq, Eq)]
pub struct Quote {
    pub id: String,
    pub quote: String,
    pub author: Option<String>,
    pub created_at: i64,
    pub updated_at: i64,
}

impl View for Quote {
    type V = QuoteView;

    open spec fn view(&self) -> QuoteView {
        QuoteView {
            id: self.id@,
            text: self.quote@,
            author: author_view(self.author),
            created_at: self.created_at as int,
            updated_at: self.updated_at as int,
        }
    }
}

impl DeepView for Quote {
    type V = QuoteView;

    open spec fn deep_view(&self) -> QuoteView {
        self.view()
    }
}

impl Clone for Quote {
    fn clone(&self) -> (r: Self)
        ensures
            r == *self,
    {
        Quote {
            id: self.id.clone(),
            quote: self.quote.clone(),
            author: match &self.author {
                Option::Some(a) => Option::Some(a.clone()),
                Option::None => Option::None,
            },
            created_at: self.created_at,
            updated_at: self.updated_at,
        }
    }
}

/// The payload of a create request: the text and an optional attribution.
#[derive(Debug, PartialEq, Eq)]
pub struct CreateQuote {
    pub quote: String,
    pub author: Option<String>,
}

/// How an operation fails: rejected input, a missing record, or a fault of
/// the backing store.
#[derive(Debug, Clone, Copy, PartialEq, Eq, Structural)]
pub enum ApiError {
    Validation,
    NotFound,
    Storage,
}

impl ApiError {
    /// The HTTP status code each failure maps to.
    pub fn status_code(&self) -> (c: u16)
        ensures
            *self == ApiError::Validation ==> c == 400,
            *self == ApiError::NotFound ==> c == 404,
            *self == ApiError::Storage ==> c == 500,
    {
        match self {
            ApiError::Validation => 400,
            ApiError::NotFound => 404,
            ApiError::Storage => 500,
        }
    }
}

} // verus!
