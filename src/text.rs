use vstd::prelude::*;

verus! {

/// `q` occurs in `s` starting at position `i`.
pub open spec fn occurs_at(s: Seq<char>, q: Seq<char>, i: int) -> bool {
    0 <= i && i + q.len() <= s.len() && s.subrange(i, i + q.len()) == q
}

/// `q` is a contiguous run of characters of `s`.
pub open spec fn has_substring(s: Seq<char>, q: Seq<char>) -> bool {
    exists|i: int| #[trigger] occurs_at(s, q, i)
}

/// Every string holds the empty string.
pub proof fn lemma_empty_substring(s: Seq<char>)
    ensures
        has_substring(s, Seq::<char>::empty()),
{
    assert(s.subrange(0, 0) =~= Seq::<char>::empty());
    assert(occurs_at(s, Seq::<char>::empty(), 0));
}

/// A string that holds `q2` holds every prefix of `q2`.
pub proof fn lemma_prefix_substring(s: Seq<char>, q: Seq<char>, q2: Seq<char>)
    requires
        q.is_prefix_of(q2),
        has_substring(s, q2),
    ensures
        has_substring(s, q),
{
    let i = choose|i: int| occurs_at(s, q2, i);
    assert(s.subrange(i, i + q.len()) =~= s.subrange(i, i + q2.len()).subrange(0, q.len() as int));
    assert(occurs_at(s, q, i));
}

/// Relies on `str::contains`: true exactly when `q` matches a sub-slice of `s`.
#[verifier::external_body]
pub(crate) fn contains_str(s: &str, q: &str) -> (r: bool)
    ensures
        r == has_substring(s@, q@),
{
    s.contains(q)
}

/// Relies on `String::push`: appends `c` to the end of `s`.
#[verifier::external_body]
pub(crate) fn push_char(s: &mut String, c: char)
    ensures
        final(s)@ == old(s)@.push(c),
{
    s.push(c)
}

/// Relies on `String::pop`: removes and returns the last character, `None` when `s` is empty.
#[verifier::external_body]
pub(crate) fn pop_char(s: &mut String) -> (r: Option<char>)
    ensures
        old(s)@.len() == 0 ==> r is None && final(s)@ == old(s)@,
        old(s)@.len() > 0 ==> r == Some(old(s)@.last()) && final(s)@ == old(s)@.drop_last(),
{
    s.pop()
}

} // verus!
