use crate::filter::{
    filter, lemma_filter_empty_query, lemma_filter_push, lemma_narrowing_shrinks, lemma_shrink,
    matching, shrink,
};
use crate::text::{pop_char, push_char};
use vstd::prelude::*;

verus! {

/// Narrows a fixed set of strings down to those that contain a query built one
/// character at a time.
pub struct Searcher {
    queried_strings: Vec<String>,
    search_string: String,
    search_cache: Vec<String>,
}

#[derive(Debug)]
pub enum SearcherError {
    /// Nothing matched: the rejected character, or the string that was not there to remove.
    NoneFound(String),
    /// Removing the string would leave nothing to search.
    EmptyingRepository,
    /// The removal went through, and the query was cut back to this one to keep matches.
    SeachStringShrunk(String),
}

impl SearcherError {
    /// A sentence that describes the error.
    pub fn to_string(&self) -> (r: String)
        ensures
            r@ == match self {
                SearcherError::NoneFound(s) => "string '"@ + s@ + "' didn't return any results"@,
                SearcherError::EmptyingRepository => "the search repository is empty"@,
                SearcherError::SeachStringShrunk(s) => "the search string was changed to \""@
                    + s@ + "\" because it yeilded no results"@,
            },
    {
        match self {
            SearcherError::NoneFound(s) => {
                let mut r = "string '".to_owned();
                r.append(s.as_str());
                r.append("' didn't return any results");
                r
            },
            SearcherError::EmptyingRepository => "the search repository is empty".to_owned(),
            SearcherError::SeachStringShrunk(s) => {
                let mut r = "the search string was changed to \"".to_owned();
                r.append(s.as_str());
                r.append("\" because it yeilded no results");
                r
            },
        }
    }
}

/// The shortened query after removing its last character; the empty query stays empty.
pub open spec fn without_last(query: Seq<char>) -> Seq<char> {
    if query.len() == 0 {
        query
    } else {
        query.drop_last()
    }
}

/// `i` is the first position of `items` that holds a string equal to `s`.
pub open spec fn is_first_index(items: Seq<String>, s: Seq<char>, i: int) -> bool {
    0 <= i < items.len() && items[i]@ == s && forall|j: int| 0 <= j < i ==> items[j]@ != s
}

/// Some string of `items` equals `s`.
pub open spec fn holds_string(items: Seq<String>, s: Seq<char>) -> bool {
    exists|i: int| 0 <= i < items.len() && #[trigger] items[i]@ == s
}

/// The first position of `items` that holds `s`.
pub open spec fn first_index(items: Seq<String>, s: Seq<char>) -> int {
    choose|i: int| is_first_index(items, s, i)
}

/// Only one position is the first one.
proof fn lemma_first_index(items: Seq<String>, s: Seq<char>, i: int)
    requires
        is_first_index(items, s, i),
    ensures
        first_index(items, s) == i,
{
    let k = first_index(items, s);
    assert(is_first_index(items, s, k));
    if k < i {
        assert(items[k]@ != s);
    } else if i < k {
        assert(items[i]@ != s);
    }
}

/// Appending a character and then removing one restores the searcher: when `appended` is
/// what a successful `add_search_character` leaves from `before`, and `after` is what
/// `remove_search_character` leaves from `appended`, then `after` has the query and the
/// reported strings of `before`.
pub proof fn lemma_add_then_remove(
    before: Searcher,
    character: char,
    appended: Searcher,
    after: Searcher,
)
    requires
        before.wf(),
        appended.corpus() == before.corpus(),
        appended.query() == before.query().push(character),
        appended.cache() == filter(before.corpus(), appended.query()),
        after.corpus() == appended.corpus(),
        after.query() == without_last(appended.query()),
        after.cache() == filter(appended.corpus(), after.query()),
    ensures
        after.corpus() == before.corpus(),
        after.query() == before.query(),
        after.cache() == before.cache(),
{
    assert(before.query().push(character).drop_last() =~= before.query());
}

impl Searcher {
    /// Every string that may be returned, in order.
    pub closed spec fn corpus(&self) -> Seq<String> {
        self.queried_strings@
    }

    /// The query built so far.
    pub closed spec fn query(&self) -> Seq<char> {
        self.search_string@
    }

    /// The strings that the searcher currently reports.
    pub closed spec fn cache(&self) -> Seq<String> {
        self.search_cache@
    }

    /// The reported strings are exactly those of the corpus that contain the query, and the
    /// query matches something unless the corpus is empty (then the query is empty too).
    pub open spec fn wf(&self) -> bool {
        &&& self.cache() == filter(self.corpus(), self.query())
        &&& self.corpus().len() > 0 ==> self.cache().len() > 0
        &&& self.corpus().len() == 0 ==> self.query().len() == 0
    }

    /// Creates a searcher over `queried_strings` with an empty query.
    pub fn new(queried_strings: Vec<String>) -> (r: Self)
        ensures
            r.wf(),
            r.corpus() == queried_strings@,
            r.query() == Seq::<char>::empty(),
            r.cache() == queried_strings@,
    {
        let search_string = String::new();
        let search_cache = matching(&queried_strings, search_string.as_str());
        proof {
            lemma_filter_empty_query(queried_strings@);
        }
        Self { queried_strings, search_string, search_cache }
    }

    /// A copy of the strings that contain the query.
    pub fn search_results(&self) -> (r: Vec<String>)
        requires
            self.wf(),
        ensures
            r@ == self.cache(),
            r@ == filter(self.corpus(), self.query()),
    {
        let mut out: Vec<String> = Vec::new();
        let mut i: usize = 0;
        while i < self.search_cache.len()
            invariant
                i <= self.search_cache.len(),
                out@ == self.search_cache@.subrange(0, i as int),
            decreases self.search_cache.len() - i,
        {
            out.push(self.search_cache[i].clone());
            i = i + 1;
            assert(out@ =~= self.search_cache@.subrange(0, i as int));
        }
        assert(out@ =~= self.search_cache@);
        out
    }

    /// Extends the query by `character` if the longer query still matches some string;
    /// otherwise leaves everything as it was and reports the character.
    pub fn add_search_character(&mut self, character: char) -> (r: Result<String, SearcherError>)
        requires
            old(self).wf(),
        ensures
            final(self).wf(),
            final(self).corpus() == old(self).corpus(),
            filter(old(self).corpus(), old(self).query().push(character)).len() > 0 ==> {
                &&& final(self).query() == old(self).query().push(character)
                &&& final(self).cache() == filter(old(self).corpus(), final(self).query())
                &&& r is Ok
                &&& r->Ok_0@ == final(self).query()
            },
            filter(old(self).corpus(), old(self).query().push(character)).len() == 0 ==> {
                &&& final(self).query() == old(self).query()
                &&& final(self).cache() == old(self).cache()
                &&& r is Err
                &&& r->Err_0 is NoneFound
                &&& r->Err_0->NoneFound_0@ == seq![character]
            },
    {
        let mut search_string = self.search_string.clone();
        push_char(&mut search_string, character);
        let found = self.substring_search(search_string.as_str());
        proof {
            assert(self.search_string@.is_prefix_of(search_string@));
            lemma_narrowing_shrinks(self.corpus(), self.query(), search_string@);
        }
        if found.len() > 0 {
            self.search_string = search_string;
            self.search_cache = found;
            return Ok(self.search_string.clone());
        }
        let mut rejected = String::new();
        push_char(&mut rejected, character);
        proof {
            assert(rejected@ =~= seq![character]);
        }
        Err(SearcherError::NoneFound(rejected))
    }

    /// Drops the last character of the query, if any, and recomputes the reported strings
    /// from the whole corpus.
    pub fn remove_search_character(&mut self)
        requires
            old(self).wf(),
        ensures
            final(self).wf(),
            final(self).corpus() == old(self).corpus(),
            final(self).query() == without_last(old(self).query()),
            final(self).cache() == filter(old(self).corpus(), final(self).query()),
    {
        let ghost q = self.search_string@;
        pop_char(&mut self.search_string);
        proof {
            if q.len() > 0 {
                assert(self.search_string@.is_prefix_of(q));
                lemma_narrowing_shrinks(self.corpus(), self.search_string@, q);
            }
        }
        self.reset_cache();
    }

    /// Empties the query; every string of the corpus is reported again.
    pub fn reset_search(&mut self)
        requires
            old(self).wf(),
        ensures
            final(self).wf(),
            final(self).corpus() == old(self).corpus(),
            final(self).query() == Seq::<char>::empty(),
            final(self).cache() == old(self).corpus(),
    {
        self.search_string = String::new();
        self.search_cache = matching(&self.queried_strings, self.search_string.as_str());
        proof {
            lemma_filter_empty_query(self.corpus());
        }
    }

    /// Appends `string_to_add` to the corpus and recomputes the reported strings under the
    /// current query.
    pub fn add_to_vec(&mut self, string_to_add: String)
        requires
            old(self).wf(),
        ensures
            final(self).wf(),
            final(self).corpus() == old(self).corpus().push(string_to_add),
            final(self).query() == old(self).query(),
            final(self).cache() == filter(final(self).corpus(), final(self).query()),
    {
        proof {
            lemma_filter_push(self.corpus(), string_to_add, self.query());
            if self.corpus().len() == 0 {
                assert(self.query() =~= Seq::<char>::empty());
                lemma_filter_empty_query(self.corpus().push(string_to_add));
            }
        }
        self.queried_strings.push(string_to_add);
        self.reset_cache();
    }

    /// Removes the first string of the corpus equal to `string_to_remove`.
    ///
    /// Refused, with nothing changed, when the corpus has fewer than two strings or does not
    /// hold the string. When nothing left matches the query, the query is cut back one
    /// character at a time until something does, and the shortened query is reported as
    /// an error even though the removal went through.
    pub fn remove_from_vec(&mut self, string_to_remove: &str) -> (r: Result<String, SearcherError>)
        requires
            old(self).wf(),
        ensures
            final(self).wf(),
            old(self).corpus().len() < 2 ==> {
                &&& r is Err && r->Err_0 is EmptyingRepository
                &&& final(self).corpus() == old(self).corpus()
                &&& final(self).query() == old(self).query()
                &&& final(self).cache() == old(self).cache()
            },
            old(self).corpus().len() >= 2 && !holds_string(old(self).corpus(), string_to_remove@)
                ==> {
                &&& r is Err && r->Err_0 is NoneFound
                &&& r->Err_0->NoneFound_0@ == string_to_remove@
                &&& final(self).corpus() == old(self).corpus()
                &&& final(self).query() == old(self).query()
                &&& final(self).cache() == old(self).cache()
            },
            old(self).corpus().len() >= 2 && holds_string(old(self).corpus(), string_to_remove@)
                ==> {
                let i = first_index(old(self).corpus(), string_to_remove@);
                let rest = old(self).corpus().remove(i);
                &&& final(self).corpus() == rest
                &&& final(self).query() == shrink(rest, old(self).query())
                &&& final(self).cache() == filter(rest, final(self).query())
                &&& filter(rest, old(self).query()).len() > 0 ==> r == Ok::<String, SearcherError>(
                    old(self).corpus()[i],
                )
                &&& filter(rest, old(self).query()).len() == 0 ==> {
                    &&& r is Err && r->Err_0 is SeachStringShrunk
                    &&& r->Err_0->SeachStringShrunk_0@ == final(self).query()
                }
            },
    {
        if self.queried_strings.len() < 2 {
            return Err(SearcherError::EmptyingRepository);
        }
        let target = string_to_remove.to_owned();
        let mut index: usize = 0;
        while index < self.queried_strings.len()
            invariant
                index <= self.queried_strings.len(),
                target@ == string_to_remove@,
                forall|j: int| 0 <= j < index ==> self.queried_strings@[j]@ != target@,
            ensures
                index < self.queried_strings.len() ==> self.queried_strings@[index as int]@
                    == target@,
                forall|j: int| 0 <= j < index ==> self.queried_strings@[j]@ != target@,
            decreases self.queried_strings.len() - index,
        {
            if self.queried_strings[index] == target {
                break;
            }
            index = index + 1;
        }
        if index == self.queried_strings.len() {
            return Err(SearcherError::NoneFound(target));
        }
        proof {
            assert(is_first_index(self.corpus(), string_to_remove@, index as int));
            lemma_first_index(self.corpus(), string_to_remove@, index as int);
        }
        let result = self.queried_strings.remove(index);
        let ghost rest = self.queried_strings@;
        let ghost q = self.search_string@;
        let mut found = matching(&self.queried_strings, self.search_string.as_str());
        if found.len() > 0 {
            self.search_cache = found;
            return Ok(result);
        }
        while found.len() == 0
            invariant
                self.queried_strings@ == rest,
                rest.len() > 0,
                found@ == filter(rest, self.search_string@),
                shrink(rest, self.search_string@) == shrink(rest, q),
            decreases self.search_string@.len(),
        {
            proof {
                if self.search_string@.len() == 0 {
                    assert(self.search_string@ =~= Seq::<char>::empty());
                    lemma_filter_empty_query(rest);
                }
            }
            pop_char(&mut self.search_string);
            found = matching(&self.queried_strings, self.search_string.as_str());
        }
        proof {
            lemma_shrink(rest, q);
        }
        self.search_cache = found;
        Err(SearcherError::SeachStringShrunk(self.search_string.clone()))
    }

    /// The strings of the current reported set that contain `search_string`.
    fn substring_search(&self, search_string: &str) -> (r: Vec<String>)
        ensures
            r@ == filter(self.cache(), search_string@),
    {
        matching(&self.search_cache, search_string)
    }

    /// Recomputes the reported strings from the whole corpus.
    fn reset_cache(&mut self)
        ensures
            final(self).corpus() == old(self).corpus(),
            final(self).query() == old(self).query(),
            final(self).cache() == filter(old(self).corpus(), old(self).query()),
    {
        self.search_cache = matching(&self.queried_strings, self.search_string.as_str());
    }
}

} // verus!
