//! Verified text utilities: string equality, substring search, and the
//! case-insensitive name matching used to resolve kick targets and
//! autocomplete choices.

use vstd::prelude::*;
use vstd::string::StrSliceExecFns;

verus! {

/// Character-wise equality of two string slices.
pub fn str_eq(a: &str, b: &str) -> (r: bool)
    ensures
        r == (a@ == b@),
{
    let alen = a.unicode_len();
    let blen = b.unicode_len();
    if alen != blen {
        return false;
    }
    let mut i: usize = 0;
    while i < alen
        invariant
            alen == a@.len(),
            blen == b@.len(),
            alen == blen,
            i <= alen,
            forall|k: int| 0 <= k < i ==> a@[k] == b@[k],
        decreases alen - i,
    {
        if a.get_char(i) != b.get_char(i) {
            return false;
        }
        i = i + 1;
    }
    assert(a@ =~= b@);
    true
}

/// The characters of a string slice, in order.
pub fn chars_vec(s: &str) -> (r: Vec<char>)
    ensures
        r@ == s@,
{
    let n = s.unicode_len();
    let mut r: Vec<char> = Vec::new();
    let mut i: usize = 0;
    while i < n
        invariant
            n == s@.len(),
            i <= n,
            r@.len() == i,
            forall|k: int| 0 <= k < i ==> r@[k] == s@[k],
        decreases n - i,
    {
        r.push(s.get_char(i));
        i = i + 1;
    }
    assert(r@ =~= s@);
    r
}

/// `needle` occurs in `hay` starting at position `i`.
pub open spec fn occurs_at(hay: Seq<char>, needle: Seq<char>, i: int) -> bool {
    0 <= i && i + needle.len() <= hay.len() && hay.subrange(i, i + needle.len()) == needle
}

/// `needle` occurs somewhere in `hay`.
pub open spec fn contains_seq(hay: Seq<char>, needle: Seq<char>) -> bool {
    exists|i: int| occurs_at(hay, needle, i)
}

fn occurs_at_exec(hay: &Vec<char>, needle: &Vec<char>, i: usize) -> (r: bool)
    requires
        i + needle@.len() <= hay@.len(),
    ensures
        r == occurs_at(hay@, needle@, i as int),
{
    let mut k: usize = 0;
    while k < needle.len()
        invariant
            i + needle.len() <= hay.len(),
            k <= needle@.len(),
            forall|m: int| 0 <= m < k ==> hay@[i + m] == needle@[m],
        decreases needle@.len() - k,
    {
        if hay[i + k] != needle[k] {
            assert(hay@.subrange(i as int, i + needle@.len())[k as int] != needle@[k as int]);
            return false;
        }
        k = k + 1;
    }
    assert(hay@.subrange(i as int, i + needle@.len()) =~= needle@);
    true
}

/// Substring search: does `needle` occur anywhere in `hay`?
pub fn contains_chars(hay: &Vec<char>, needle: &Vec<char>) -> (r: bool)
    ensures
        r == contains_seq(hay@, needle@),
{
    if needle.len() > hay.len() {
        return false;
    }
    if needle.len() == 0 {
        assert(occurs_at(hay@, needle@, 0)) by {
            assert(hay@.subrange(0, 0) =~= needle@);
        }
        return true;
    }
    let last_start = hay.len() - needle.len();
    let mut i: usize = 0;
    while i <= last_start
        invariant
            0 < needle.len() <= hay.len(),
            last_start == hay.len() - needle.len(),
            i <= last_start + 1,
            forall|j: int| 0 <= j < i ==> !occurs_at(hay@, needle@, j),
        decreases last_start + 1 - i,
    {
        if occurs_at_exec(hay, needle, i) {
            return true;
        }
        i = i + 1;
    }
    false
}

/// What `str::to_lowercase` returns for a string with the given characters;
/// the result depends on the characters alone.
pub uninterp spec fn lower_of(s: Seq<char>) -> Seq<char>;

/// Relies on str::to_lowercase: returns the lowercase equivalent of the
/// string, a function of its characters alone.
#[verifier::external_body]
fn to_lowercase(s: &str) -> (r: String)
    ensures
        r@ == lower_of(s@),
{
    s.to_lowercase()
}

/// Case-insensitive match: the lowercased fragment occurs in the lowercased
/// display name.
pub open spec fn name_matches(name: Seq<char>, fragment: Seq<char>) -> bool {
    contains_seq(lower_of(name), lower_of(fragment))
}

/// Does the display name contain the fragment, ignoring case?
pub fn name_contains_fragment(name: &str, fragment: &str) -> (r: bool)
    ensures
        r == name_matches(name@, fragment@),
{
    let lname = to_lowercase(name);
    let lfrag = to_lowercase(fragment);
    let hay = chars_vec(lname.as_str());
    let needle = chars_vec(lfrag.as_str());
    contains_chars(&hay, &needle)
}

/// The identifier paired with the first display name in the roster, in the
/// order supplied by the caller, that matches the fragment
/// case-insensitively. Since a plain substring policy can be ambiguous, the
/// first match in roster order wins.
pub open spec fn kick_target_in(roster: Seq<(String, String)>, fragment: Seq<char>) -> Option<
    Seq<char>,
>
    decreases roster.len(),
{
    if roster.len() == 0 {
        None
    } else if name_matches(roster[0].1@, fragment) {
        Some(roster[0].0@)
    } else {
        kick_target_in(roster.drop_first(), fragment)
    }
}

proof fn lemma_kick_target_at(roster: Seq<(String, String)>, fragment: Seq<char>, i: int)
    requires
        0 <= i < roster.len(),
        name_matches(roster[i].1@, fragment),
        forall|j: int| 0 <= j < i ==> !name_matches(#[trigger] roster[j].1@, fragment),
    ensures
        kick_target_in(roster, fragment) == Some(roster[i].0@),
    decreases i,
{
    if i > 0 {
        lemma_kick_target_at(roster.drop_first(), fragment, i - 1);
    }
}

proof fn lemma_kick_target_none(roster: Seq<(String, String)>, fragment: Seq<char>)
    requires
        forall|j: int| 0 <= j < roster.len() ==> !name_matches(#[trigger] roster[j].1@, fragment),
    ensures
        kick_target_in(roster, fragment) is None,
    decreases roster.len(),
{
    if roster.len() > 0 {
        lemma_kick_target_none(roster.drop_first(), fragment);
    }
}

/// Resolves a kick request: the identifier of the first roster entry whose
/// display name contains the fragment, ignoring case.
pub fn resolve_kick_target(fragment: &str, roster: &Vec<(String, String)>) -> (r: Option<String>)
    ensures
        match r {
            Some(id) => kick_target_in(roster@, fragment@) == Some(id@),
            None => kick_target_in(roster@, fragment@) is None,
        },
{
    let mut i: usize = 0;
    while i < roster.len()
        invariant
            i <= roster@.len(),
            forall|j: int| 0 <= j < i ==> !name_matches(#[trigger] roster@[j].1@, fragment@),
        decreases roster@.len() - i,
    {
        if name_contains_fragment(roster[i].1.as_str(), fragment) {
            proof {
                lemma_kick_target_at(roster@, fragment@, i as int);
            }
            return Some(roster[i].0.clone());
        }
        i = i + 1;
    }
    proof {
        lemma_kick_target_none(roster@, fragment@);
    }
    None
}

/// A display name is offered as an autocomplete choice when the typed text is
/// empty or occurs in the name, ignoring case.
pub open spec fn autocomplete_keeps(name: Seq<char>, typed: Seq<char>) -> bool {
    typed.len() == 0 || name_matches(name, typed)
}

/// The platform shows at most this many autocomplete choices.
pub const AUTOCOMPLETE_LIMIT: usize = 25;

/// The matching display names, in roster order, capped at the platform limit.
pub open spec fn autocomplete_view(names: Seq<Seq<char>>, typed: Seq<char>) -> Seq<Seq<char>> {
    let kept = names.filter(|n: Seq<char>| autocomplete_keeps(n, typed));
    if kept.len() > AUTOCOMPLETE_LIMIT {
        kept.take(AUTOCOMPLETE_LIMIT as int)
    } else {
        kept
    }
}

pub(crate) proof fn lemma_filter_push<A>(s: Seq<A>, x: A, pred: spec_fn(A) -> bool)
    ensures
        s.push(x).filter(pred) == if pred(x) {
            s.filter(pred).push(x)
        } else {
            s.filter(pred)
        },
{
    reveal(Seq::filter);
    assert(s.push(x).drop_last() =~= s);
    assert(s.push(x).last() == x);
}

/// Display names from the queue that match the typed text, first matches
/// first, stopping at the platform's choice limit.
pub fn autocomplete_matches(names: &Vec<String>, typed: &str) -> (r: Vec<String>)
    ensures
        r.deep_view() == autocomplete_view(names.deep_view(), typed@),
{
    let ghost pred = |n: Seq<char>| autocomplete_keeps(n, typed@);
    let typed_empty = typed.unicode_len() == 0;
    let mut r: Vec<String> = Vec::new();
    let mut i: usize = 0;
    while i < names.len()
        invariant
            i <= names@.len(),
            r@.len() < AUTOCOMPLETE_LIMIT,
            pred == |n: Seq<char>| autocomplete_keeps(n, typed@),
            typed_empty == (typed@.len() == 0),
            r.deep_view() == names.deep_view().take(i as int).filter(pred),
        decreases names@.len() - i,
    {
        let keep = typed_empty || name_contains_fragment(names[i].as_str(), typed);
        proof {
            assert(names.deep_view().take(i + 1).drop_last() =~= names.deep_view().take(i as int));
            lemma_filter_push(names.deep_view().take(i as int), names.deep_view()[i as int], pred);
            assert(names.deep_view().take(i as int).push(names.deep_view()[i as int]) =~= names
                .deep_view()
                .take(i + 1));
        }
        if keep {
            r.push(names[i].clone());
            assert(r.deep_view() =~= names.deep_view().take(i + 1).filter(pred));
            if r.len() == AUTOCOMPLETE_LIMIT {
                proof {
                    let all = names.deep_view();
                    assert(all.take(i + 1) + all.skip(i + 1) =~= all);
                    Seq::filter_distributes_over_add(all.take(i + 1), all.skip(i + 1), pred);
                    assert(all.filter(pred).take(AUTOCOMPLETE_LIMIT as int) =~= all.take(i + 1)
                        .filter(pred));
                }
                return r;
            }
        }
        i = i + 1;
    }
    assert(names.deep_view().take(names@.len() as int) =~= names.deep_view());
    r
}

} // verus!
