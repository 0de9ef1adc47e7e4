//! The API service layer: it validates create requests, runs the moderation
//! filter, stamps fresh ids and timestamps, and answers the four operations
//! of the HTTP surface from the store.

use vstd::prelude::*;

use crate::moderation::{denylist_spec, hits, Denylist};
use crate::quote::{author_view, ApiError, CreateQuote, Quote, QuoteView};
use crate::store::{
    filtered, insert_pos, page_window, search_view, sorted_desc, unique_ids, QuoteStore,
};
use crate::text::{chars_of, is_blank, is_blank_chars};

verus! {

/// Relies on `uuid::Uuid::new_v4` and its hyphenated `Display` form: a
/// freshly drawn version-4 UUID rendered as 36 characters. Nothing is
/// assumed about which id comes back.
#[verifier::external_body]
fn fresh_id() -> (r: String)
    ensures
        r@.len() == 36,
{
    uuid::Uuid::new_v4().to_string()
}

/// Relies on `chrono::Utc::now`: the current wall-clock time, taken as
/// milliseconds since the Unix epoch. Nothing is assumed about the value.
#[verifier::external_body]
fn now_millis() -> i64 {
    chrono::Utc::now().timestamp_millis()
}

/// A create request is rejected exactly when the text is blank, or the text
/// or the attribution trips the denylist.
pub open spec fn create_rejected(
    banned: Seq<Seq<char>>,
    text: Seq<char>,
    author: Option<Seq<char>>,
) -> bool {
    is_blank(text) || hits(banned, text) || (match author {
        Option::Some(a) => hits(banned, a),
        Option::None => false,
    })
}

/// The default page when a request names none.
pub open spec fn page_or_default(page: Option<u64>) -> int {
    match page {
        Option::Some(p) => p as int,
        Option::None => 1,
    }
}

/// The default limit when a request names none.
pub open spec fn limit_or_default(limit: Option<u64>) -> int {
    match limit {
        Option::Some(l) => l as int,
        Option::None => 10,
    }
}

/// The service: the moderation denylist, fixed at construction, and the
/// quote store.
pub struct QuoteManager {
    denylist: Denylist,
    store: QuoteStore,
}

impl QuoteManager {
    /// The stored records, newest first.
    pub closed spec fn quotes(&self) -> Seq<QuoteView> {
        self.store@
    }

    /// The moderation denylist entries.
    pub closed spec fn banned(&self) -> Seq<Seq<char>> {
        self.denylist@
    }

    /// A fresh service over an empty store, with the denylist read from the
    /// comma-separated configuration string. An empty configuration forbids
    /// nothing.
    pub fn new(forbidden: &str) -> (m: Self)
        ensures
            m.quotes() == Seq::<QuoteView>::empty(),
            m.banned() == denylist_spec(forbidden@),
            forbidden@.len() == 0 ==> m.banned().len() == 0,
    {
        QuoteManager { denylist: Denylist::from_config(forbidden), store: QuoteStore::new() }
    }

    /// Creates a quote. Blank or forbidden content is rejected before any
    /// store write; otherwise the record gets a fresh 36-character id, equal
    /// creation and update stamps, and goes into the store at its place in
    /// the creation-time order — unless the drawn id already exists, which
    /// is a storage fault that leaves the store unchanged. A storage fault
    /// takes a collision, so against an empty store a valid request is owed
    /// success.
    pub fn create_quote(&mut self, req: CreateQuote) -> (r: Result<Quote, ApiError>)
        ensures
            final(self).banned() == old(self).banned(),
            unique_ids(final(self).quotes()),
            sorted_desc(final(self).quotes()),
            r == Err::<Quote, ApiError>(ApiError::Storage) ==> old(self).quotes().len() > 0,
            create_rejected(old(self).banned(), req.quote@, author_view(req.author)) ==> r
                == Err::<Quote, ApiError>(ApiError::Validation) && final(self).quotes() == old(
                self,
            ).quotes(),
            !create_rejected(old(self).banned(), req.quote@, author_view(req.author)) ==> match r {
                Ok(q) => {
                    &&& q@.wf()
                    &&& q@.text == req.quote@
                    &&& q@.author == author_view(req.author)
                    &&& q@.created_at == q@.updated_at
                    &&& q@.id.len() == 36
                    &&& forall|k: int|
                        0 <= k < old(self).quotes().len() ==> (#[trigger] old(
                            self,
                        ).quotes()[k]).id != q@.id
                    &&& final(self).quotes() == old(self).quotes().insert(
                        insert_pos(old(self).quotes(), q@.created_at),
                        q@,
                    )
                },
                Err(e) => e == ApiError::Storage && final(self).quotes() == old(self).quotes(),
            },
    {
        proof {
            use_type_invariant(&self.store);
        }
        let tc = chars_of(req.quote.as_str());
        if is_blank_chars(&tc) {
            return Err(ApiError::Validation);
        }
        if self.denylist.check_text(req.quote.as_str()) {
            return Err(ApiError::Validation);
        }
        let author_hit = match &req.author {
            Option::Some(a) => self.denylist.check_text(a.as_str()),
            Option::None => false,
        };
        if author_hit {
            return Err(ApiError::Validation);
        }
        let id = fresh_id();
        let now = now_millis();
        let q = Quote { id, quote: req.quote, author: req.author, created_at: now, updated_at: now };
        let out = q.clone();
        match self.store.insert(q) {
            Ok(()) => Ok(out),
            Err(e) => Err(e),
        }
    }

    /// Lists one result page: paging defaults to the first page of ten,
    /// the limit is clamped to at most one hundred, an optional pattern is
    /// matched case-insensitively against text or author, and the order is
    /// by creation time, newest first.
    pub fn fetch_quotes(&self, page: Option<u64>, limit: Option<u64>, search: Option<&str>) -> (r:
        Vec<Quote>)
        ensures
            r.deep_view() == page_window(
                filtered(self.quotes(), search_view(search)),
                page_or_default(page),
                limit_or_default(limit),
            ),
            r@.len() <= 100,
            sorted_desc(r.deep_view()),
            forall|k: int|
                0 <= k < r.deep_view().len() ==> self.quotes().contains(
                    #[trigger] r.deep_view()[k],
                ),
    {
        let pg: u64 = match page {
            Option::Some(p) => p,
            Option::None => 1,
        };
        let lm: u64 = match limit {
            Option::Some(l) => l,
            Option::None => 10,
        };
        self.store.list(pg, lm, search)
    }

    /// Returns the record with the given id, or NotFound — never any other
    /// failure — when no record carries it.
    pub fn get_quote_by_id(&self, id: &str) -> (r: Result<Quote, ApiError>)
        ensures
            match r {
                Ok(q) => q@.id == id@ && self.quotes().contains(q@),
                Err(e) => e == ApiError::NotFound && forall|k: int|
                    0 <= k < self.quotes().len() ==> (#[trigger] self.quotes()[k]).id != id@,
            },
    {
        match self.store.get_by_id(id) {
            Option::Some(q) => Ok(q),
            Option::None => Err(ApiError::NotFound),
        }
    }

    /// Returns one stored record chosen without client-specified criteria,
    /// or NotFound exactly when the store is empty.
    pub fn get_random_quote(&self) -> (r: Result<Quote, ApiError>)
        ensures
            match r {
                Ok(q) => self.quotes().len() > 0 && self.quotes().contains(q@),
                Err(e) => e == ApiError::NotFound && self.quotes().len() == 0,
            },
    {
        match self.store.random() {
            Option::Some(q) => Ok(q),
            Option::None => Err(ApiError::NotFound),
        }
    }
}

} // verus!
