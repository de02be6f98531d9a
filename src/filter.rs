use crate::text::{contains_str, has_substring, lemma_empty_substring, lemma_prefix_substring};
use vstd::prelude::*;

verus! {

/// The strings of `items` that contain `query`, in their order in `items`.
pub open spec fn filter(items: Seq<String>, query: Seq<char>) -> Seq<String>
    decreases items.len(),
{
    if items.len() == 0 {
        Seq::empty()
    } else {
        let rest = filter(items.drop_last(), query);
        if has_substring(items.last()@, query) {
            rest.push(items.last())
        } else {
            rest
        }
    }
}

/// Drops characters from the end of `query` until it matches some string of `items`
/// or is empty.
pub open spec fn shrink(items: Seq<String>, query: Seq<char>) -> Seq<char>
    decreases query.len(),
{
    if query.len() == 0 || filter(items, query).len() > 0 {
        query
    } else {
        shrink(items, query.drop_last())
    }
}

/// Filtering by the empty query keeps everything.
pub proof fn lemma_filter_empty_query(items: Seq<String>)
    ensures
        filter(items, Seq::<char>::empty()) == items,
    decreases items.len(),
{
    if items.len() > 0 {
        lemma_filter_empty_query(items.drop_last());
        lemma_empty_substring(items.last()@);
        assert(items.drop_last().push(items.last()) =~= items);
    }
}

/// Filtering never yields more strings than it was given.
pub proof fn lemma_filter_len(items: Seq<String>, query: Seq<char>)
    ensures
        filter(items, query).len() <= items.len(),
    decreases items.len(),
{
    if items.len() > 0 {
        lemma_filter_len(items.drop_last(), query);
    }
}

/// Appending a string to `items` appends it to the filtered sequence exactly when it matches.
pub proof fn lemma_filter_push(items: Seq<String>, s: String, query: Seq<char>)
    ensures
        filter(items.push(s), query) == if has_substring(s@, query) {
            filter(items, query).push(s)
        } else {
            filter(items, query)
        },
{
    assert(items.push(s).drop_last() =~= items);
}

/// Narrowing: when `q` is a prefix of `q2`, filtering by `q2` within the matches of `q`
/// gives exactly the matches of `q2`.
pub proof fn lemma_filter_narrow(items: Seq<String>, q: Seq<char>, q2: Seq<char>)
    requires
        q.is_prefix_of(q2),
    ensures
        filter(filter(items, q), q2) == filter(items, q2),
    decreases items.len(),
{
    if items.len() > 0 {
        let rest = items.drop_last();
        let s = items.last();
        lemma_filter_narrow(rest, q, q2);
        if has_substring(s@, q) {
            lemma_filter_push(filter(rest, q), s, q2);
        } else if has_substring(s@, q2) {
            lemma_prefix_substring(s@, q, q2);
        }
    }
}

/// Monotonicity: extending the query never lets more strings through, and what a longer
/// query lets through is the matches of the shorter one, narrowed.
pub proof fn lemma_narrowing_shrinks(items: Seq<String>, q: Seq<char>, q2: Seq<char>)
    requires
        q.is_prefix_of(q2),
    ensures
        filter(filter(items, q), q2) == filter(items, q2),
        filter(items, q2).len() <= filter(items, q).len(),
{
    lemma_filter_narrow(items, q, q2);
    lemma_filter_len(filter(items, q), q2);
}

/// The shrunk query is a prefix of the original, and it matches something whenever
/// `items` is not empty.
pub proof fn lemma_shrink(items: Seq<String>, query: Seq<char>)
    ensures
        shrink(items, query).is_prefix_of(query),
        items.len() > 0 ==> filter(items, shrink(items, query)).len() > 0,
    decreases query.len(),
{
    if query.len() == 0 {
        lemma_filter_empty_query(items);
        assert(query =~= Seq::<char>::empty());
    } else if filter(items, query).len() == 0 {
        lemma_shrink(items, query.drop_last());
        let r = shrink(items, query.drop_last());
        assert(r =~= query.subrange(0, r.len() as int));
    }
}

/// Copies out the strings of `items` that contain `query`, keeping their order.
pub fn matching(items: &Vec<String>, query: &str) -> (r: Vec<String>)
    ensures
        r@ == filter(items@, query@),
{
    let mut out: Vec<String> = Vec::new();
    let mut i: usize = 0;
    while i < items.len()
        invariant
            i <= items.len(),
            out@ == filter(items@.subrange(0, i as int), query@),
        decreases items.len() - i,
    {
        let s = &items[i];
        let keep = contains_str(s.as_str(), query);
        proof {
            lemma_filter_push(items@.subrange(0, i as int), *s, query@);
            assert(items@.subrange(0, i as int).push(*s) =~= items@.subrange(0, i + 1));
        }
        if keep {
            out.push(s.clone());
        }
        i = i + 1;
    }
    assert(items@.subrange(0, items.len() as int) =~= items@);
    out
}

} // verus!
