//! The quote repository: an insert-only store of quote records ordered by
//! creation time (newest first), with lookup by id, pagination,
//! case-insensitive search and random selection.

use vstd::prelude::*;

use crate::quote::{ApiError, Quote, QuoteView};
use crate::text::{chars_of, contains_chars, contains_sub, lower_chars, lower_of};

verus! {

/// Records are ordered by creation time, newest first.
pub open spec fn sorted_desc(s: Seq<QuoteView>) -> bool {
    forall|i: int, j: int| 0 <= i < j < s.len() ==> s[i].created_at >= s[j].created_at
}

/// No two records share an id.
pub open spec fn unique_ids(s: Seq<QuoteView>) -> bool {
    forall|i: int, j: int| 0 <= i < j < s.len() ==> s[i].id != s[j].id
}

/// A record matches an already lower-cased pattern when the pattern occurs
/// in its lower-cased text, or in its lower-cased author when one is set.
pub open spec fn matches_lowered(q: QuoteView, lp: Seq<char>) -> bool {
    contains_sub(lower_of(q.text), lp) || (match q.author {
        Option::Some(a) => contains_sub(lower_of(a), lp),
        Option::None => false,
    })
}

/// Case-insensitive search: the pattern is lower-cased, then matched as a
/// substring against text or author.
pub open spec fn matches_search(q: QuoteView, p: Seq<char>) -> bool {
    matches_lowered(q, lower_of(p))
}

/// The records that match the pattern, in their store order.
pub open spec fn filtered_by(s: Seq<QuoteView>, p: Seq<char>) -> Seq<QuoteView>
    decreases s.len(),
{
    if s.len() == 0 {
        Seq::empty()
    } else {
        let rest = filtered_by(s.drop_last(), p);
        if matches_search(s.last(), p) {
            rest.push(s.last())
        } else {
            rest
        }
    }
}

/// The records a listing draws from: all of them, or those that match the
/// search pattern.
pub open spec fn filtered(s: Seq<QuoteView>, pat: Option<Seq<char>>) -> Seq<QuoteView> {
    match pat {
        Option::Some(p) => filtered_by(s, p),
        Option::None => s,
    }
}

/// The requested limit, clamped to the inclusive range 1 to 100.
pub open spec fn clamped_limit(limit: int) -> int {
    if limit < 1 {
        1
    } else if limit > 100 {
        100
    } else {
        limit
    }
}

/// The requested page, one-based; anything below one reads as the first.
pub open spec fn clamped_page(page: int) -> int {
    if page < 1 {
        1
    } else {
        page
    }
}

/// The page the listing returns: the records from the offset the page and
/// limit give, at most a limit's worth, empty past the end.
pub open spec fn page_window(s: Seq<QuoteView>, page: int, limit: int) -> Seq<QuoteView> {
    let lim = clamped_limit(limit);
    let off = (clamped_page(page) - 1) * lim;
    let start = if off > s.len() { s.len() as int } else { off };
    let end = if off + lim > s.len() { s.len() as int } else { off + lim };
    s.subrange(start, end)
}

/// The view of an optional search pattern.
pub open spec fn search_view(search: Option<&str>) -> Option<Seq<char>> {
    match search {
        Option::Some(s) => Option::Some(s@),
        Option::None => Option::None,
    }
}

proof fn lemma_filtered_by_props(s: Seq<QuoteView>, p: Seq<char>)
    ensures
        filtered_by(s, p).len() <= s.len(),
        sorted_desc(s) ==> sorted_desc(filtered_by(s, p)),
        forall|i: int| 0 <= i < filtered_by(s, p).len() ==> s.contains(#[trigger] filtered_by(s, p)[i]),
    decreases s.len(),
{
    if s.len() > 0 {
        let d = s.drop_last();
        lemma_filtered_by_props(d, p);
        let rest = filtered_by(d, p);
        let out = filtered_by(s, p);
        assert(sorted_desc(s) ==> sorted_desc(d));
        assert forall|i: int| 0 <= i < out.len() implies s.contains(out[i]) by {
            if matches_search(s.last(), p) && i == out.len() - 1 {
                assert(out[i] == s[s.len() - 1]);
            } else {
                assert(out[i] == rest[i]);
                assert(d.contains(rest[i]));
                let j = choose|j: int| 0 <= j < d.len() && d[j] == rest[i];
                assert(s[j] == out[i]);
            }
        }
        if sorted_desc(s) {
            assert forall|i: int, j: int| 0 <= i < j < out.len() implies out[i].created_at
                >= out[j].created_at by {
                if matches_search(s.last(), p) && j == out.len() - 1 {
                    assert(d.contains(out[i]));
                    let k = choose|k: int| 0 <= k < d.len() && d[k] == out[i];
                    assert(s[k] == out[i]);
                    assert(out[j] == s[s.len() - 1]);
                }
            }
        }
    }
}

/// Where a record created at `t` goes: before every strictly newer record,
/// and before the existing records of the same creation time.
pub open spec fn insert_pos(s: Seq<QuoteView>, t: int) -> int
    decreases s.len(),
{
    if s.len() == 0 {
        0
    } else if s[0].created_at <= t {
        0
    } else {
        1 + insert_pos(s.drop_first(), t)
    }
}

proof fn lemma_insert_pos_props(s: Seq<QuoteView>, t: int)
    ensures
        0 <= insert_pos(s, t) <= s.len(),
        forall|k: int| 0 <= k < insert_pos(s, t) ==> s[k].created_at > t,
        insert_pos(s, t) < s.len() ==> s[insert_pos(s, t)].created_at <= t,
    decreases s.len(),
{
    if s.len() > 0 && s[0].created_at > t {
        lemma_insert_pos_props(s.drop_first(), t);
        assert forall|k: int| 0 <= k < insert_pos(s, t) implies s[k].created_at > t by {
            if k > 0 {
                assert(s.drop_first()[k - 1] == s[k]);
            }
        }
    }
}

/// Law: an id determines its record. In a store whose ids are unique — an
/// invariant every operation maintains — two positions holding the same id
/// are one position, so an id created once reads back stably.
pub proof fn lemma_id_determines_record(s: Seq<QuoteView>, i: int, j: int)
    requires
        unique_ids(s),
        0 <= i < s.len(),
        0 <= j < s.len(),
        s[i].id == s[j].id,
    ensures
        i == j,
{
}

/// Law: asking for the second page of ten returns exactly the eleventh
/// through twentieth most recent matching records when at least twenty
/// match.
pub proof fn lemma_second_page(s: Seq<QuoteView>)
    requires
        s.len() >= 20,
    ensures
        page_window(s, 2, 10) == s.subrange(10, 20),
{
    assert(clamped_limit(10) == 10);
    assert(clamped_page(2) == 2);
    assert(page_window(s, 2, 10) =~= s.subrange(10, 20));
}

/// Relies on `rand::random_range` of the rand crate: the result is drawn
/// from the half-open range below `n`. Nothing more is assumed of the draw.
#[verifier::external_body]
fn random_index(n: usize) -> (r: usize)
    requires
        n > 0,
    ensures
        r < n,
{
    rand::random_range(0..n)
}

/// Whether one record matches an already lower-cased search pattern.
fn record_matches(q: &Quote, pat: &Vec<char>) -> (r: bool)
    ensures
        r == matches_lowered(q@, pat@),
{
    let tc = chars_of(q.quote.as_str());
    let tl = lower_chars(&tc);
    if contains_chars(&tl, pat) {
        return true;
    }
    match &q.author {
        Option::Some(a) => {
            let ac = chars_of(a.as_str());
            let al = lower_chars(&ac);
            contains_chars(&al, pat)
        },
        Option::None => false,
    }
}

/// The insert-only quote store.
pub struct QuoteStore {
    quotes: Vec<Quote>,
}

impl View for QuoteStore {
    type V = Seq<QuoteView>;

    closed spec fn view(&self) -> Seq<QuoteView> {
        self.quotes.deep_view()
    }
}

impl QuoteStore {
    /// Store invariant, maintained by every operation: every record is well
    /// formed, ids are unique, and records are ordered by creation time,
    /// newest first.
    #[verifier::type_invariant]
    pub(crate) open spec fn inv(self) -> bool {
        &&& forall|i: int| 0 <= i < self@.len() ==> (#[trigger] self@[i]).wf()
        &&& unique_ids(self@)
        &&& sorted_desc(self@)
    }

    /// An empty store.
    pub fn new() -> (s: Self)
        ensures
            s@ == Seq::<QuoteView>::empty(),
    {
        let s = QuoteStore { quotes: Vec::new() };
        assert(s@ =~= Seq::<QuoteView>::empty());
        s
    }

    /// How many records the store holds.
    pub fn len(&self) -> (n: usize)
        ensures
            n == self@.len(),
    {
        self.quotes.len()
    }

    /// Adds a record. A duplicate id is a storage fault (the id column is
    /// the primary key) and leaves the store unchanged; otherwise the record
    /// goes in at its position in the creation-time order.
    pub fn insert(&mut self, q: Quote) -> (r: Result<(), ApiError>)
        requires
            q@.wf(),
        ensures
            unique_ids(final(self)@),
            sorted_desc(final(self)@),
            forall|i: int| 0 <= i < final(self)@.len() ==> (#[trigger] final(self)@[i]).wf(),
            match r {
                Ok(()) => {
                    &&& forall|k: int|
                        0 <= k < old(self)@.len() ==> (#[trigger] old(self)@[k]).id != q@.id
                    &&& final(self)@ == old(self)@.insert(
                        insert_pos(old(self)@, q@.created_at),
                        q@,
                    )
                },
                Err(e) => {
                    &&& e == ApiError::Storage
                    &&& final(self)@ == old(self)@
                    &&& exists|k: int|
                        0 <= k < old(self)@.len() && (#[trigger] old(self)@[k]).id == q@.id
                },
            },
    {
        proof {
            use_type_invariant(&*self);
        }
        let ghost s0 = self@;
        let n = self.quotes.len();
        let mut i: usize = 0;
        while i < n
            invariant
                i <= n,
                n == self.quotes@.len(),
                s0 == self@,
                unique_ids(s0),
                sorted_desc(s0),
                forall|j: int| 0 <= j < s0.len() ==> (#[trigger] s0[j]).wf(),
                forall|k: int| 0 <= k < i ==> (#[trigger] self@[k]).id != q@.id,
            decreases n - i,
        {
            assert(self@[i as int].id =~= self.quotes@[i as int].id@);
            if self.quotes[i].id == q.id {
                assert(self@[i as int].id == q@.id);
                return Err(ApiError::Storage);
            }
            i = i + 1;
        }
        let mut pos: usize = 0;
        while pos < n
            invariant
                pos <= n,
                n == self.quotes@.len(),
                s0 == self@,
                forall|k: int| 0 <= k < pos ==> (#[trigger] self@[k]).created_at > q@.created_at,
            ensures
                pos <= n,
                forall|k: int| 0 <= k < pos ==> (#[trigger] self@[k]).created_at > q@.created_at,
                pos < n ==> self@[pos as int].created_at <= q@.created_at,
            decreases n - pos,
        {
            if self.quotes[pos].created_at <= q.created_at {
                break;
            }
            pos = pos + 1;
        }
        proof {
            lemma_insert_pos_props(s0, q@.created_at);
            assert(insert_pos(s0, q@.created_at) == pos as int);
        }
        let ghost qv = q@;
        let mut qs: Vec<Quote> = Vec::new();
        proof {
            assert(qs.deep_view() =~= Seq::<QuoteView>::empty());
        }
        std::mem::swap(&mut self.quotes, &mut qs);
        qs.insert(pos, q);
        proof {
            assert(qs.deep_view() =~= s0.insert(pos as int, qv));
            s0.insert_ensures(pos as int, qv);
        }
        self.quotes = qs;
        assert(self@ == s0.insert(pos as int, qv));
        Ok(())
    }

    /// Looks a record up by id; returns a copy or nothing.
    pub fn get_by_id(&self, id: &str) -> (r: Option<Quote>)
        ensures
            match r {
                Some(q) => q@.id == id@ && self@.contains(q@),
                None => forall|k: int| 0 <= k < self@.len() ==> (#[trigger] self@[k]).id != id@,
            },
    {
        let key: String = id.to_owned();
        let n = self.quotes.len();
        let mut i: usize = 0;
        while i < n
            invariant
                i <= n,
                n == self.quotes@.len(),
                key@ == id@,
                forall|k: int| 0 <= k < i ==> (#[trigger] self@[k]).id != id@,
            decreases n - i,
        {
            assert(self@[i as int].id =~= self.quotes@[i as int].id@);
            if self.quotes[i].id == key {
                let q = self.quotes[i].clone();
                assert(self@[i as int] == q@);
                return Some(q);
            }
            i = i + 1;
        }
        None
    }

    /// The records of one result page: paging is clamped, the optional
    /// search pattern is matched case-insensitively against text or author,
    /// and the store order (newest first) is kept.
    pub fn list(&self, page: u64, limit: u64, search: Option<&str>) -> (r: Vec<Quote>)
        ensures
            r.deep_view() == page_window(
                filtered(self@, search_view(search)),
                page as int,
                limit as int,
            ),
            r@.len() <= 100,
            sorted_desc(r.deep_view()),
            forall|k: int|
                0 <= k < r.deep_view().len() ==> self@.contains(#[trigger] r.deep_view()[k]),
    {
        proof {
            use_type_invariant(&*self);
        }
        let lim: u64 = if limit < 1 {
            1
        } else if limit > 100 {
            100
        } else {
            limit
        };
        let pg: u64 = if page < 1 {
            1
        } else {
            page
        };
        let n = self.quotes.len();
        let ghost pat = search_view(search);
        let ghost full = filtered(self@, pat);
        let mut flt: Vec<Quote> = Vec::new();
        match search {
            Option::None => {
                let mut i: usize = 0;
                assert(flt.deep_view() =~= self@.subrange(0, 0));
                while i < n
                    invariant
                        i <= n,
                        n == self.quotes@.len(),
                        flt.deep_view() == self@.subrange(0, i as int),
                    decreases n - i,
                {
                    let ghost before = flt.deep_view();
                    let q = self.quotes[i].clone();
                    assert(q@ == self@[i as int]);
                    flt.push(q);
                    assert(flt.deep_view() =~= before.push(self@[i as int]));
                    assert(flt.deep_view() =~= self@.subrange(0, i + 1));
                    i = i + 1;
                }
                assert(self@.subrange(0, n as int) =~= self@);
            },
            Option::Some(s) => {
                let sc = chars_of(s);
                let sl = lower_chars(&sc);
                let mut i: usize = 0;
                assert(filtered_by(self@.subrange(0, 0), s@) =~= flt.deep_view());
                while i < n
                    invariant
                        i <= n,
                        n == self.quotes@.len(),
                        sl@ == lower_of(s@),
                        flt.deep_view() == filtered_by(self@.subrange(0, i as int), s@),
                    decreases n - i,
                {
                    let ghost prefix = self@.subrange(0, i as int);
                    assert(self@.subrange(0, i + 1).drop_last() =~= prefix);
                    assert(self@.subrange(0, i + 1).last() == self@[i as int]);
                    if record_matches(&self.quotes[i], &sl) {
                        let ghost before = flt.deep_view();
                        let q = self.quotes[i].clone();
                        assert(q@ == self@[i as int]);
                        flt.push(q);
                        assert(flt.deep_view() =~= before.push(self@[i as int]));
                    }
                    i = i + 1;
                }
                assert(self@.subrange(0, n as int) =~= self@);
            },
        }
        proof {
            match pat {
                Option::Some(p) => lemma_filtered_by_props(self@, p),
                Option::None => {},
            }
            assert(flt.deep_view() == full);
            assert(full.len() <= self@.len());
            assert(sorted_desc(full));
        }
        let flen = flt.len();
        proof {
            assert((pg as int - 1) * (lim as int) <= 0xFFFF_FFFF_FFFF_FFFF * 100) by (nonlinear_arith)
                requires
                    1 <= pg as int <= 0xFFFF_FFFF_FFFF_FFFF,
                    0 <= lim as int <= 100,
            ;
        }
        let off128: u128 = (pg as u128 - 1) * (lim as u128);
        let start: usize = if off128 >= flen as u128 {
            flen
        } else {
            off128 as usize
        };
        let end: usize = {
            let e128: u128 = off128 + lim as u128;
            if e128 >= flen as u128 {
                flen
            } else {
                e128 as usize
            }
        };
        assert(start <= end <= flen);
        let mut r: Vec<Quote> = Vec::new();
        let mut k: usize = start;
        assert(r.deep_view() =~= full.subrange(start as int, start as int));
        while k < end
            invariant
                start <= k <= end,
                end <= flen,
                flen == flt@.len(),
                flt.deep_view() == full,
                r.deep_view() == full.subrange(start as int, k as int),
            decreases end - k,
        {
            let ghost before = r.deep_view();
            let q = flt[k].clone();
            assert(q@ == full[k as int]);
            r.push(q);
            assert(r.deep_view() =~= before.push(full[k as int]));
            assert(r.deep_view() =~= full.subrange(start as int, k + 1));
            k = k + 1;
        }
        proof {
            let lim_s = clamped_limit(limit as int);
            let off_s = (clamped_page(page as int) - 1) * lim_s;
            assert(lim_s == lim as int);
            assert(off128 as int == off_s);
            assert(r.deep_view() =~= page_window(full, page as int, limit as int));
        }
        r
    }

    /// One record chosen without client-specified criteria, or nothing when
    /// the store is empty.
    pub fn random(&self) -> (r: Option<Quote>)
        ensures
            match r {
                Some(q) => self@.len() > 0 && self@.contains(q@),
                None => self@.len() == 0,
            },
    {
        let n = self.quotes.len();
        if n == 0 {
            return None;
        }
        let idx = random_index(n);
        let q = self.quotes[idx].clone();
        assert(self@[idx as int] == q@);
        Some(q)
    }
}

} // verus!
