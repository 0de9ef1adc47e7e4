//! The content moderation filter: a read-only denylist of forbidden
//! substrings, loaded once from a comma-separated configuration string and
//! checked case-insensitively against any text accepted for storage.

use vstd::prelude::*;

use crate::text::{
    chars_of, contains_chars, contains_sub, lower_chars, lower_of, split_commas,
    split_commas_chars, trim_chars, trim_spec,
};

verus! {

/// A configuration field as it enters the denylist: trimmed, then
/// lower-cased.
pub open spec fn normalize_entry(f: Seq<char>) -> Seq<char> {
    lower_of(trim_spec(f))
}

/// The denylist that a field sequence yields: each field normalized, empty
/// entries discarded.
pub open spec fn denylist_of_fields(fields: Seq<Seq<char>>) -> Seq<Seq<char>> {
    fields.map_values(|f: Seq<char>| normalize_entry(f)).filter(|e: Seq<char>| e.len() > 0)
}

/// The denylist that a configuration string yields: its comma-separated
/// fields, trimmed and lower-cased, with empty entries discarded.
pub open spec fn denylist_spec(config: Seq<char>) -> Seq<Seq<char>> {
    denylist_of_fields(split_commas(config))
}

/// Some entry occurs as a substring of the lower-cased text.
pub open spec fn hits(entries: Seq<Seq<char>>, text: Seq<char>) -> bool {
    exists|i: int| 0 <= i < entries.len() && contains_sub(lower_of(text), entries[i])
}

proof fn lemma_denylist_fields_step(fields: Seq<Seq<char>>, f: Seq<char>)
    ensures
        denylist_of_fields(fields.push(f)) == if normalize_entry(f).len() > 0 {
            denylist_of_fields(fields).push(normalize_entry(f))
        } else {
            denylist_of_fields(fields)
        },
{
    reveal(Seq::filter);
    let norm = |g: Seq<char>| normalize_entry(g);
    let m1 = fields.push(f).map_values(norm);
    assert(m1.drop_last() =~= fields.map_values(norm));
    assert(m1.last() == normalize_entry(f));
    assert(m1.len() > 0);
}

/// The process-wide read-only denylist.
pub struct Denylist {
    entries: Vec<Vec<char>>,
}

impl View for Denylist {
    type V = Seq<Seq<char>>;

    closed spec fn view(&self) -> Seq<Seq<char>> {
        self.entries.deep_view()
    }
}

impl Denylist {
    /// Loads the denylist from the comma-separated configuration string.
    /// An empty configuration yields an empty denylist, which forbids
    /// nothing.
    pub fn from_config(config: &str) -> (d: Denylist)
        ensures
            d@ == denylist_spec(config@),
            config@.len() == 0 ==> d@.len() == 0,
    {
        let cfg = chars_of(config);
        let fields = split_commas_chars(&cfg);
        let ghost all_fields = fields.deep_view();
        let mut entries: Vec<Vec<char>> = Vec::new();
        let n = fields.len();
        let mut i: usize = 0;
        assert(entries.deep_view() =~~= denylist_of_fields(all_fields.subrange(0, 0))) by {
            reveal(Seq::filter);
            assert(all_fields.subrange(0, 0).map_values(
                |f: Seq<char>| normalize_entry(f),
            ) =~= Seq::<Seq<char>>::empty());
        }
        while i < n
            invariant
                i <= n,
                n == fields@.len(),
                all_fields == fields.deep_view(),
                all_fields == split_commas(config@),
                entries.deep_view() == denylist_of_fields(all_fields.subrange(0, i as int)),
                config@.len() == 0 ==> entries@.len() == 0,
            decreases n - i,
        {
            let trimmed = trim_chars(&fields[i]);
            let normalized = lower_chars(&trimmed);
            let ghost prefix = all_fields.subrange(0, i as int);
            proof {
                assert(fields@[i as int].deep_view() =~= fields@[i as int]@);
                assert(normalized@ == normalize_entry(all_fields[i as int]));
                assert(all_fields.subrange(0, i + 1) =~= prefix.push(all_fields[i as int]));
                lemma_denylist_fields_step(prefix, all_fields[i as int]);
                if config@.len() == 0 {
                    // the sole field of an empty configuration is empty, so
                    // its trimmed and lower-cased form is empty too
                    assert(config@ =~= Seq::<char>::empty());
                    assert(all_fields =~= seq![Seq::<char>::empty()]);
                    assert(all_fields.len() == fields@.len());
                    assert(i == 0);
                    assert(all_fields[0] =~= Seq::<char>::empty());
                    assert(fields@[i as int].deep_view() == all_fields[i as int]);
                    assert(fields@[i as int]@ =~= Seq::<char>::empty());
                    assert(trim_spec(Seq::<char>::empty()) =~= Seq::<char>::empty());
                    assert(trimmed@.len() == 0);
                }
            }
            if normalized.len() > 0 {
                let ghost old_entries = entries.deep_view();
                entries.push(normalized);
                assert(entries.deep_view() =~~= old_entries.push(
                    normalize_entry(all_fields[i as int]),
                ));
            }
            i = i + 1;
        }
        assert(all_fields.subrange(0, n as int) =~= all_fields);
        Denylist { entries }
    }

    /// True when some denylist entry occurs in the lower-cased text:
    /// the check the service runs on any text accepted for storage.
    pub fn check_text(&self, text: &str) -> (r: bool)
        ensures
            r == hits(self@, text@),
    {
        let tc = chars_of(text);
        let low = lower_chars(&tc);
        let n = self.entries.len();
        let mut i: usize = 0;
        while i < n
            invariant
                i <= n,
                n == self.entries@.len(),
                low@ == lower_of(text@),
                forall|k: int|
                    0 <= k < i ==> !contains_sub(lower_of(text@), self.entries.deep_view()[k]),
            decreases n - i,
        {
            assert(self.entries.deep_view()[i as int] =~= self.entries@[i as int]@);
            if contains_chars(&low, &self.entries[i]) {
                assert(hits(self@, text@));
                return true;
            }
            i = i + 1;
        }
        false
    }
}

} // verus!
