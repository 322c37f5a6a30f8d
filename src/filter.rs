//! The filter engine: keeps the candidates that contain the query as a
//! contiguous, case-sensitive substring, in their original order.

use vstd::prelude::*;

verus! {

/// `query` occurs in `item` as a contiguous run of characters.
pub open spec fn is_substring(query: Seq<char>, item: Seq<char>) -> bool {
    exists|i: int|
        0 <= i && i + query.len() <= item.len() && #[trigger] item.subrange(i, i + query.len())
            == query
}

/// The candidates that contain `query`, in the order in which they come.
pub open spec fn filter_spec(query: Seq<char>, candidates: Seq<Seq<char>>) -> Seq<Seq<char>> {
    candidates.filter(|item: Seq<char>| is_substring(query, item))
}

/// `idx` picks, in increasing order, the positions of `full` at which the
/// items of `sub` stand.
pub open spec fn is_embedding(idx: Seq<int>, sub: Seq<Seq<char>>, full: Seq<Seq<char>>) -> bool {
    &&& idx.len() == sub.len()
    &&& forall|k: int|
        0 <= k < idx.len() ==> 0 <= #[trigger] idx[k] < full.len() && full[idx[k]] == sub[k]
    &&& forall|k: int, l: int| 0 <= k < l < idx.len() ==> #[trigger] idx[k] < #[trigger] idx[l]
}

/// `sub` is `full` with some items left out and the rest kept in order.
pub open spec fn is_subsequence(sub: Seq<Seq<char>>, full: Seq<Seq<char>>) -> bool {
    exists|idx: Seq<int>| is_embedding(idx, sub, full)
}

/// The characters of `s`, one by one.
fn chars_of(s: &str) -> (r: Vec<char>)
    ensures
        r@ == s@,
{
    let n = s.unicode_len();
    let mut r: Vec<char> = Vec::new();
    let mut i: usize = 0;
    while i < n
        invariant
            n == s@.len(),
            i <= n,
            r@ == s@.subrange(0, i as int),
        decreases n - i,
    {
        r.push(s.get_char(i));
        i += 1;
    }
    assert(r@ =~= s@);
    r
}

/// Whether `query` stands in `item` from position `start` on.
fn occurs_at(item: &Vec<char>, query: &Vec<char>, start: usize) -> (r: bool)
    requires
        start + query@.len() <= item@.len(),
    ensures
        r == (item@.subrange(start as int, start + query@.len()) == query@),
{
    let n = item.len();
    let mut j: usize = 0;
    while j < query.len()
        invariant
            j <= query@.len(),
            n == item@.len(),
            start + query@.len() <= n,
            forall|k: int| 0 <= k < j ==> item@[start + k] == query@[k],
        decreases query@.len() - j,
    {
        if item[start + j] != query[j] {
            assert(item@.subrange(start as int, start + query@.len())[j as int] != query@[j as int]);
            return false;
        }
        j += 1;
    }
    assert(item@.subrange(start as int, start + query@.len()) =~= query@);
    true
}

/// Whether `query` occurs in `item`, both given as characters.
fn contains_chars(item: &Vec<char>, query: &Vec<char>) -> (r: bool)
    ensures
        r == is_substring(query@, item@),
{
    if query.len() > item.len() {
        return false;
    }
    let last = item.len() - query.len();
    let mut i: usize = 0;
    loop
        invariant
            last == item@.len() - query@.len(),
            i <= last,
            forall|k: int| 0 <= k < i ==> #[trigger] item@.subrange(k, k + query@.len()) != query@,
        decreases last - i,
    {
        if occurs_at(item, query, i) {
            return true;
        }
        if i == last {
            return false;
        }
        i += 1;
    }
}

/// Whether `item` contains `query` as a contiguous substring; the empty
/// query is contained in every item.
pub fn contains_query(item: &str, query: &str) -> (r: bool)
    ensures
        r == is_substring(query@, item@),
{
    let item_chars = chars_of(item);
    let query_chars = chars_of(query);
    contains_chars(&item_chars, &query_chars)
}

/// The candidates that contain `query`, in the order in which they come.
pub fn filter(query: &str, candidates: &Vec<String>) -> (r: Vec<String>)
    ensures
        r.deep_view() == filter_spec(query@, candidates.deep_view()),
{
    let query_chars = chars_of(query);
    let ghost all = candidates.deep_view();
    let mut r: Vec<String> = Vec::new();
    let mut i: usize = 0;
    while i < candidates.len()
        invariant
            i <= candidates@.len(),
            query_chars@ == query@,
            all == candidates.deep_view(),
            r.deep_view() == filter_spec(query@, all.subrange(0, i as int)),
        decreases candidates@.len() - i,
    {
        let item = &candidates[i];
        let item_chars = chars_of(item.as_str());
        let keep = contains_chars(&item_chars, &query_chars);
        let ghost before = r.deep_view();
        if keep {
            r.push(item.clone());
            assert(r.deep_view() =~= before.push(all[i as int]));
        }
        proof {
            let prefix = all.subrange(0, i + 1);
            assert(prefix.drop_last() =~= all.subrange(0, i as int));
            assert(prefix.last() == all[i as int]);
            reveal(Seq::filter);
        }
        i += 1;
    }
    assert(all.subrange(0, all.len() as int) =~= all);
    r
}

/// Every item that the filter keeps contains the query, and the kept items
/// are a subsequence of the candidates, in the order in which they came.
pub proof fn lemma_filter_sound(query: Seq<char>, candidates: Seq<Seq<char>>)
    ensures
        forall|k: int|
            0 <= k < filter_spec(query, candidates).len() ==> is_substring(
                query,
                #[trigger] filter_spec(query, candidates)[k],
            ),
        is_subsequence(filter_spec(query, candidates), candidates),
    decreases candidates.len(),
{
    reveal(Seq::filter);
    let out = filter_spec(query, candidates);
    if candidates.len() == 0 {
        assert(is_embedding(Seq::empty(), out, candidates));
    } else {
        let rest = candidates.drop_last();
        lemma_filter_sound(query, rest);
        let sub = filter_spec(query, rest);
        let idx = choose|idx: Seq<int>| is_embedding(idx, sub, rest);
        if is_substring(query, candidates.last()) {
            assert(out == sub.push(candidates.last()));
            let idx2 = idx.push(candidates.len() - 1);
            assert(is_embedding(idx2, out, candidates));
        } else {
            assert(out == sub);
            assert(is_embedding(idx, out, candidates));
        }
    }
}

/// The empty query is a substring of every item.
pub proof fn lemma_empty_is_substring(item: Seq<char>)
    ensures
        is_substring(Seq::empty(), item),
{
    let empty = Seq::<char>::empty();
    assert(item.subrange(0, 0 + empty.len() as int) =~= empty);
}

/// The empty query keeps every candidate, in the order in which they came.
pub proof fn lemma_filter_empty_query(candidates: Seq<Seq<char>>)
    ensures
        filter_spec(Seq::empty(), candidates) == candidates,
    decreases candidates.len(),
{
    reveal(Seq::filter);
    if candidates.len() > 0 {
        lemma_filter_empty_query(candidates.drop_last());
        lemma_empty_is_substring(candidates.last());
        assert(candidates.drop_last().push(candidates.last()) =~= candidates);
    }
}

/// Filtering the candidates whose every item contains the query leaves them
/// as they are.
proof fn lemma_filter_keeps_matches(query: Seq<char>, candidates: Seq<Seq<char>>)
    requires
        forall|k: int| 0 <= k < candidates.len() ==> is_substring(query, #[trigger] candidates[k]),
    ensures
        filter_spec(query, candidates) == candidates,
    decreases candidates.len(),
{
    reveal(Seq::filter);
    if candidates.len() > 0 {
        let rest = candidates.drop_last();
        assert forall|k: int| 0 <= k < rest.len() implies is_substring(query, #[trigger] rest[k]) by {
            assert(rest[k] == candidates[k]);
        }
        lemma_filter_keeps_matches(query, rest);
        assert(is_substring(query, candidates[candidates.len() - 1]));
        assert(rest.push(candidates.last()) =~= candidates);
    }
}

/// Filtering a second time by the same query changes nothing.
pub proof fn lemma_filter_idempotent(query: Seq<char>, candidates: Seq<Seq<char>>)
    ensures
        filter_spec(query, filter_spec(query, candidates)) == filter_spec(query, candidates),
{
    lemma_filter_sound(query, candidates);
    lemma_filter_keeps_matches(query, filter_spec(query, candidates));
}

} // verus!
