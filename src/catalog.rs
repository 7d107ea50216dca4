use vstd::prelude::*;
use vstd::string::*;

use crate::text::{chars_of, split_words, texts, words_of};

verus! {

/// Where a search answer came from.
#[derive(PartialEq, Eq, Structural, Clone, Copy, Debug)]
pub enum SearchSource {
    /// The local catalog already knew matching tracks.
    Local,
    /// The catalog knew none, and the remote catalog was asked.
    Remote,
}

/// A search is answered locally whenever the local catalog has any hit.
pub fn source_for(local_hits: usize) -> (r: SearchSource)
    ensures
        r == (if local_hits > 0 {
            SearchSource::Local
        } else {
            SearchSource::Remote
        }),
{
    if local_hits > 0 {
        SearchSource::Local
    } else {
        SearchSource::Remote
    }
}

/// The full-text query for a search: every word as a prefix match (`word*`), separated
/// by single spaces.
pub open spec fn prefix_query(words: Seq<Seq<char>>) -> Seq<char>
    decreases words.len(),
{
    if words.len() == 0 {
        Seq::empty()
    } else if words.len() == 1 {
        words[0] + "*"@
    } else {
        prefix_query(words.drop_last()) + " "@ + words.last() + "*"@
    }
}

/// The full-text query for a local search, or `None` for a query without words, which
/// finds nothing.
pub fn fts_query(query: &str) -> (r: Option<String>)
    ensures
        words_of(query@).len() == 0 ==> r is None,
        words_of(query@).len() > 0 ==> (r matches Some(q) && q@ == prefix_query(words_of(query@))),
{
    let words = split_words(&chars_of(query));
    let ghost ws = texts(words@);
    if words.len() == 0 {
        return None;
    }
    let mut q = String::from_str(words[0].as_str()).concat("*");
    assert(ws.take(1).drop_last() =~= ws.take(0));
    let mut i: usize = 1;
    while i < words.len()
        invariant
            ws == texts(words@),
            1 <= i <= ws.len(),
            q@ == prefix_query(ws.take(i as int)),
        decreases ws.len() - i,
    {
        q = q.concat(" ").concat(words[i].as_str()).concat("*");
        assert(ws.take(i + 1).drop_last() =~= ws.take(i as int));
        i = i + 1;
    }
    assert(ws.take(i as int) =~= ws);
    Some(q)
}

} // verus!
