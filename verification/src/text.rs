//! Character-level text helpers: substring search, whitespace tests and
//! lower-casing, shared by the moderation filter and the search logic.

use vstd::prelude::*;

verus! {

/// The Unicode lower-casing of a character sequence, as `str::to_lowercase`
/// computes it. Its exact value is left unspecified; it is fixed by the
/// arguments alone.
pub uninterp spec fn lower_of(s: Seq<char>) -> Seq<char>;

/// Whether a character has the Unicode whitespace property, as
/// `char::is_whitespace` decides it.
pub uninterp spec fn is_space_char(c: char) -> bool;

/// `needle` occurs in `hay` starting at position `i`.
pub open spec fn is_substring_at(hay: Seq<char>, needle: Seq<char>, i: int) -> bool {
    0 <= i && i + needle.len() <= hay.len() && hay.subrange(i, i + needle.len()) == needle
}

/// `needle` occurs somewhere in `hay` (every sequence contains the empty one).
pub open spec fn contains_sub(hay: Seq<char>, needle: Seq<char>) -> bool {
    exists|i: int| is_substring_at(hay, needle, i)
}

/// The sequence holds nothing but whitespace; the empty sequence is blank.
pub open spec fn is_blank(s: Seq<char>) -> bool {
    forall|i: int| 0 <= i < s.len() ==> is_space_char(s[i])
}

/// Index of the first character that is not whitespace, or the length when
/// every character is whitespace.
pub open spec fn trim_start_idx(s: Seq<char>) -> int
    decreases s.len(),
{
    if s.len() == 0 {
        0
    } else if !is_space_char(s[0]) {
        0
    } else {
        1 + trim_start_idx(s.drop_first())
    }
}

/// One past the index of the last character that is not whitespace, or zero
/// when every character is whitespace.
pub open spec fn trim_end_idx(s: Seq<char>) -> int
    decreases s.len(),
{
    if s.len() == 0 {
        0
    } else if !is_space_char(s[s.len() - 1]) {
        s.len() as int
    } else {
        trim_end_idx(s.drop_last())
    }
}

/// The sequence with leading and trailing whitespace removed.
pub open spec fn trim_spec(s: Seq<char>) -> Seq<char> {
    if trim_start_idx(s) <= trim_end_idx(s) {
        s.subrange(trim_start_idx(s), trim_end_idx(s))
    } else {
        Seq::empty()
    }
}

/// The comma-separated fields of `s`, in order; a sequence with no comma is
/// one field, and each comma ends a field, so there is always at least one.
pub open spec fn split_commas(s: Seq<char>) -> Seq<Seq<char>>
    decreases s.len(),
{
    if s.len() == 0 {
        seq![Seq::<char>::empty()]
    } else {
        let rest = split_commas(s.drop_last());
        if s.last() == ',' {
            rest.push(Seq::empty())
        } else {
            rest.update(rest.len() - 1, rest.last().push(s.last()))
        }
    }
}

proof fn lemma_split_commas_nonempty(s: Seq<char>)
    ensures
        split_commas(s).len() >= 1,
    decreases s.len(),
{
    if s.len() > 0 {
        lemma_split_commas_nonempty(s.drop_last());
    }
}

proof fn lemma_trim_start_props(s: Seq<char>)
    ensures
        0 <= trim_start_idx(s) <= s.len(),
        forall|k: int| 0 <= k < trim_start_idx(s) ==> is_space_char(s[k]),
        trim_start_idx(s) < s.len() ==> !is_space_char(s[trim_start_idx(s)]),
    decreases s.len(),
{
    if s.len() > 0 && is_space_char(s[0]) {
        lemma_trim_start_props(s.drop_first());
        assert forall|k: int| 0 <= k < trim_start_idx(s) implies is_space_char(s[k]) by {
            if k > 0 {
                assert(s.drop_first()[k - 1] == s[k]);
            }
        }
    }
}

proof fn lemma_trim_end_props(s: Seq<char>)
    ensures
        0 <= trim_end_idx(s) <= s.len(),
        forall|k: int| trim_end_idx(s) <= k < s.len() ==> is_space_char(s[k]),
        trim_end_idx(s) > 0 ==> !is_space_char(s[trim_end_idx(s) - 1]),
    decreases s.len(),
{
    if s.len() > 0 && is_space_char(s[s.len() - 1]) {
        lemma_trim_end_props(s.drop_last());
        assert forall|k: int| trim_end_idx(s) <= k < s.len() implies is_space_char(s[k]) by {
            if k < s.len() - 1 {
                assert(s.drop_last()[k] == s[k]);
            }
        }
    }
}

/// Relies on `str::to_lowercase` of std: the lower-cased text is a function
/// of the input characters alone.
#[verifier::external_body]
pub(crate) fn lower_chars(v: &Vec<char>) -> (r: Vec<char>)
    ensures
        r@ == lower_of(v@),
        v@.len() == 0 ==> r@.len() == 0,
{
    v.iter().collect::<String>().to_lowercase().chars().collect()
}

/// Relies on `char::is_whitespace` of std: true exactly on characters with
/// the Unicode whitespace property.
#[verifier::external_body]
pub(crate) fn is_space(c: char) -> (r: bool)
    ensures
        r == is_space_char(c),
{
    c.is_whitespace()
}

/// Relies on `str::chars` of std: it yields exactly the characters of the
/// string, in order.
#[verifier::external_body]
pub(crate) fn chars_of(s: &str) -> (r: Vec<char>)
    ensures
        r@ == s@,
{
    s.chars().collect()
}

/// `needle` occurs in `hay` at position `i`, decided by comparing characters.
fn match_at(hay: &Vec<char>, needle: &Vec<char>, i: usize) -> (r: bool)
    requires
        i + needle@.len() <= hay@.len(),
    ensures
        r == is_substring_at(hay@, needle@, i as int),
{
    let hlen = hay.len();
    let mut k: usize = 0;
    while k < needle.len()
        invariant
            hay@.len() == hlen,
            i + needle@.len() <= hay@.len(),
            k <= needle@.len(),
            forall|j: int| 0 <= j < k ==> hay@[i + j] == needle@[j],
        decreases needle@.len() - k,
    {
        if hay[i + k] != needle[k] {
            assert(!is_substring_at(hay@, needle@, i as int)) by {
                if hay@.subrange(i as int, i + needle@.len()) == needle@ {
                    assert(hay@.subrange(i as int, i + needle@.len())[k as int] == hay@[i + k]);
                }
            }
            return false;
        }
        k = k + 1;
    }
    assert(hay@.subrange(i as int, i + needle@.len()) =~= needle@);
    true
}

/// Substring search: whether `needle` occurs anywhere in `hay`.
pub fn contains_chars(hay: &Vec<char>, needle: &Vec<char>) -> (r: bool)
    ensures
        r == contains_sub(hay@, needle@),
{
    if needle.len() == 0 {
        assert(is_substring_at(hay@, needle@, 0)) by {
            assert(hay@.subrange(0, 0) =~= needle@);
        }
        return true;
    }
    if needle.len() > hay.len() {
        return false;
    }
    let hlen = hay.len();
    let bound = hlen - needle.len();
    let mut i: usize = 0;
    while i <= bound
        invariant
            hay@.len() == hlen,
            1 <= needle@.len() <= hay@.len(),
            bound == hay@.len() - needle@.len(),
            i <= bound + 1,
            forall|j: int| 0 <= j < i ==> !is_substring_at(hay@, needle@, j),
        decreases bound + 1 - i,
    {
        if match_at(hay, needle, i) {
            return true;
        }
        i = i + 1;
    }
    false
}

/// Every character of `v` is whitespace (true of the empty vector).
pub fn is_blank_chars(v: &Vec<char>) -> (r: bool)
    ensures
        r == is_blank(v@),
{
    let n = v.len();
    let mut i: usize = 0;
    while i < n
        invariant
            i <= n,
            n == v@.len(),
            forall|k: int| 0 <= k < i ==> is_space_char(v@[k]),
        decreases n - i,
    {
        if !is_space(v[i]) {
            return false;
        }
        i = i + 1;
    }
    true
}

/// `v` with leading and trailing whitespace removed.
pub fn trim_chars(v: &Vec<char>) -> (r: Vec<char>)
    ensures
        r@ == trim_spec(v@),
{
    proof {
        lemma_trim_start_props(v@);
        lemma_trim_end_props(v@);
    }
    let n = v.len();
    let mut lo: usize = 0;
    while lo < n
        invariant
            lo <= n,
            n == v@.len(),
            forall|k: int| 0 <= k < lo ==> is_space_char(v@[k]),
        ensures
            lo <= n,
            forall|k: int| 0 <= k < lo ==> is_space_char(v@[k]),
            lo == n || !is_space_char(v@[lo as int]),
        decreases n - lo,
    {
        if !is_space(v[lo]) {
            break;
        }
        lo = lo + 1;
    }
    if lo == n {
        // every character is whitespace, so the trimmed sequence is empty
        let r: Vec<char> = Vec::new();
        assert(r@ =~= trim_spec(v@));
        return r;
    }
    let mut hi: usize = n;
    while hi > lo
        invariant
            lo <= hi <= n,
            n == v@.len(),
            lo < n && !is_space_char(v@[lo as int]),
            forall|k: int| hi <= k < n ==> is_space_char(v@[k]),
        ensures
            lo <= hi <= n,
            forall|k: int| hi <= k < n ==> is_space_char(v@[k]),
            hi == lo || !is_space_char(v@[hi - 1]),
        decreases hi,
    {
        if !is_space(v[hi - 1]) {
            break;
        }
        hi = hi - 1;
    }
    assert(hi > lo);
    assert(trim_start_idx(v@) == lo);
    assert(trim_end_idx(v@) == hi);
    let mut r: Vec<char> = Vec::new();
    let mut k: usize = lo;
    while k < hi
        invariant
            lo <= k <= hi <= n,
            n == v@.len(),
            r@ == v@.subrange(lo as int, k as int),
        decreases hi - k,
    {
        r.push(v[k]);
        assert(r@ =~= v@.subrange(lo as int, k + 1));
        k = k + 1;
    }
    r
}

/// The comma-separated fields of `v`, in order.
pub fn split_commas_chars(v: &Vec<char>) -> (r: Vec<Vec<char>>)
    ensures
        r.deep_view() == split_commas(v@),
{
    let mut done: Vec<Vec<char>> = Vec::new();
    let mut cur: Vec<char> = Vec::new();
    let n = v.len();
    let mut i: usize = 0;
    assert(done.deep_view().push(cur@) =~~= split_commas(v@.subrange(0, 0)));
    while i < n
        invariant
            i <= n,
            n == v@.len(),
            done.deep_view().push(cur@) == split_commas(v@.subrange(0, i as int)),
        decreases n - i,
    {
        let ghost prefix = v@.subrange(0, i as int);
        let ghost rest = split_commas(prefix);
        let c = v[i];
        assert(v@.subrange(0, i + 1).drop_last() =~= prefix);
        assert(v@.subrange(0, i + 1).last() == v@[i as int]);
        if c == ',' {
            let ghost old_done = done.deep_view();
            let ghost old_cur = cur@;
            done.push(cur);
            cur = Vec::new();
            assert(done.deep_view() =~~= old_done.push(old_cur));
            assert(done.deep_view().push(cur@) =~~= split_commas(v@.subrange(0, i + 1)));
        } else {
            let ghost old_cur = cur@;
            cur.push(c);
            proof {
                lemma_split_commas_nonempty(prefix);
                assert(rest.last() == old_cur);
                assert(done.deep_view().push(cur@) =~~= rest.update(
                    rest.len() - 1,
                    rest.last().push(v@[i as int]),
                ));
            }
        }
        i = i + 1;
    }
    assert(v@.subrange(0, n as int) =~= v@);
    let ghost old_done = done.deep_view();
    let ghost old_cur = cur@;
    done.push(cur);
    assert(done.deep_view() =~~= old_done.push(old_cur));
    done
}

} // verus!
