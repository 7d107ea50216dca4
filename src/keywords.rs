use vstd::prelude::*;
use vstd::string::*;
use vstd::set_lib::{lemma_int_range, lemma_len_subset, set_int_range};
use vstd::utf8::encode_utf8;

use crate::text::{chars_of, contains_text, lower_of, lowercase, split_words, texts, words_of};

verus! {

/// What `char::is_alphanumeric` says of a character (Unicode `Alphabetic` or `Numeric`).
pub uninterp spec fn is_alphanumeric_char(c: char) -> bool;

/// Relies on `char::is_alphanumeric`, which depends on the character alone.
#[verifier::external_body]
fn alphanumeric(c: char) -> (r: bool)
    ensures
        r == is_alphanumeric_char(c),
{
    c.is_alphanumeric()
}

/// Punctuation and symbols become spaces; letters, digits and spaces stay.
pub open spec fn clean_char(c: char) -> char {
    if is_alphanumeric_char(c) || c == ' ' {
        c
    } else {
        ' '
    }
}

pub open spec fn cleaned(s: Seq<char>) -> Seq<char> {
    s.map_values(|c: char| clean_char(c))
}

/// Words that say nothing of a listener's taste.
pub open spec fn stopwords() -> Seq<Seq<char>> {
    seq![
        "the"@, "a"@, "an"@, "and"@, "or"@, "of"@, "in"@, "on"@, "at"@, "to"@, "for"@,
        "is"@, "it"@, "my"@, "me"@, "i"@, "you"@, "we"@, "he"@, "she"@, "this"@, "that"@,
        "with"@, "from"@, "by"@, "not"@, "no"@, "but"@, "so"@, "if"@, "up"@, "out"@,
        "all"@, "just"@, "like"@, "one"@, "do"@, "don"@, "be"@, "am"@, "are"@, "was"@,
        "has"@, "had"@, "have"@, "will"@, "can"@, "would"@, "could"@, "should"@,
        "ft"@, "feat"@, "vs"@, "official"@, "video"@, "audio"@, "music"@,
        "lyric"@, "lyrics"@, "visualizer"@, "visualiser"@, "hd"@, "hq"@,
        "full"@, "new"@, "version"@, "album"@, "single"@, "ep"@,
    ]
}

fn stopword_list() -> (r: Vec<String>)
    ensures
        texts(r@) == stopwords(),
{
    let words = [
        "the", "a", "an", "and", "or", "of", "in", "on", "at", "to", "for",
        "is", "it", "my", "me", "i", "you", "we", "he", "she", "this", "that",
        "with", "from", "by", "not", "no", "but", "so", "if", "up", "out",
        "all", "just", "like", "one", "do", "don", "be", "am", "are", "was",
        "has", "had", "have", "will", "can", "would", "could", "should",
        "ft", "feat", "vs", "official", "video", "audio", "music",
        "lyric", "lyrics", "visualizer", "visualiser", "hd", "hq",
        "full", "new", "version", "album", "single", "ep",
    ];
    let ghost spec_words = stopwords();
    assert(words@.len() == spec_words.len());
    assert(forall|k: int| 0 <= k < spec_words.len() ==> #[trigger] words@[k]@ == spec_words[k]);
    let mut r: Vec<String> = Vec::new();
    let mut i: usize = 0;
    while i < words.len()
        invariant
            spec_words == stopwords(),
            words@.len() == spec_words.len(),
            forall|k: int| 0 <= k < spec_words.len() ==> #[trigger] words@[k]@ == spec_words[k],
            i <= words@.len(),
            texts(r@) == spec_words.take(i as int),
        decreases words@.len() - i,
    {
        let ghost before = texts(r@);
        r.push(String::from_str(words[i]));
        assert(texts(r@) =~= before.push(spec_words[i as int]));
        i = i + 1;
        assert(texts(r@) =~= spec_words.take(i as int));
    }
    assert(spec_words.take(i as int) =~= spec_words);
    r
}

/// A word counts as a keyword when its UTF-8 form has three bytes or more and it is no
/// stop word.
pub open spec fn is_keyword(w: Seq<char>) -> bool {
    encode_utf8(w).len() >= 3 && !stopwords().contains(w)
}

/// The keywords among `ws`, in order.
pub open spec fn keywords_in(ws: Seq<Seq<char>>) -> Seq<Seq<char>>
    decreases ws.len(),
{
    if ws.len() == 0 {
        Seq::empty()
    } else if is_keyword(ws.last()) {
        keywords_in(ws.drop_last()).push(ws.last())
    } else {
        keywords_in(ws.drop_last())
    }
}

/// The keywords of a title: lower-cased, punctuation turned to spaces, split into words.
pub open spec fn title_words(title: Seq<char>) -> Seq<Seq<char>> {
    keywords_in(words_of(cleaned(lower_of(title))))
}

/// The keywords of all titles, title after title.
pub open spec fn all_words(titles: Seq<Seq<char>>) -> Seq<Seq<char>>
    decreases titles.len(),
{
    if titles.len() == 0 {
        Seq::empty()
    } else {
        all_words(titles.drop_last()) + title_words(titles.last())
    }
}

/// Appends the keywords of one title to `out`.
fn push_title_words(title: &str, stop: &Vec<String>, out: &mut Vec<String>)
    requires
        texts(stop@) == stopwords(),
    ensures
        texts(final(out)@) == texts(old(out)@) + title_words(title@),
{
    let lower = lowercase(title);
    let chars = chars_of(lower.as_str());
    let mut clean: Vec<char> = Vec::new();
    let mut i: usize = 0;
    while i < chars.len()
        invariant
            chars@ == lower_of(title@),
            i <= chars@.len(),
            clean@ == cleaned(chars@).take(i as int),
        decreases chars@.len() - i,
    {
        let c = chars[i];
        if alphanumeric(c) || c == ' ' {
            clean.push(c);
        } else {
            clean.push(' ');
        }
        i = i + 1;
        assert(clean@ =~= cleaned(chars@).take(i as int));
    }
    assert(cleaned(chars@).take(i as int) =~= cleaned(chars@));
    let words = split_words(&clean);
    let ghost ws = texts(words@);
    let ghost base = texts(out@);
    let mut k: usize = 0;
    while k < words.len()
        invariant
            texts(stop@) == stopwords(),
            ws == texts(words@),
            ws == words_of(cleaned(lower_of(title@))),
            k <= ws.len(),
            texts(out@) == base + keywords_in(ws.take(k as int)),
        decreases ws.len() - k,
    {
        let word = &words[k];
        let w = word.as_str();
        assert(ws.take(k + 1).drop_last() =~= ws.take(k as int));
        assert(ws.take(k + 1).last() == w@);
        let ghost before = texts(out@);
        let long_enough = w.as_bytes().len() >= 3;
        assert(long_enough == (encode_utf8(w@).len() >= 3));
        if long_enough && !contains_text(stop, word) {
            out.push(String::from_str(w));
            assert(texts(out@) =~= before.push(w@));
        }
        k = k + 1;
        assert(texts(out@) =~= base + keywords_in(ws.take(k as int)));
    }
    assert(ws.take(k as int) =~= ws);
}

/// The keywords of all titles, in order.
pub fn keywords_of_titles(titles: &Vec<String>) -> (r: Vec<String>)
    ensures
        texts(r@) == all_words(texts(titles@)),
{
    let stop = stopword_list();
    let ghost ts = texts(titles@);
    let mut r: Vec<String> = Vec::new();
    let mut i: usize = 0;
    while i < titles.len()
        invariant
            texts(stop@) == stopwords(),
            ts == texts(titles@),
            i <= ts.len(),
            texts(r@) == all_words(ts.take(i as int)),
        decreases ts.len() - i,
    {
        assert(ts.take(i + 1).drop_last() =~= ts.take(i as int));
        push_title_words(titles[i].as_str(), &stop, &mut r);
        i = i + 1;
    }
    assert(ts.take(i as int) =~= ts);
    r
}

/// The distinct words of `ws`, in order of first appearance.
pub open spec fn distinct_words(ws: Seq<Seq<char>>) -> Seq<Seq<char>>
    decreases ws.len(),
{
    if ws.len() == 0 {
        Seq::empty()
    } else if distinct_words(ws.drop_last()).contains(ws.last()) {
        distinct_words(ws.drop_last())
    } else {
        distinct_words(ws.drop_last()).push(ws.last())
    }
}

/// How many times `w` occurs in `ws`.
pub open spec fn occurrences(ws: Seq<Seq<char>>, w: Seq<char>) -> nat
    decreases ws.len(),
{
    if ws.len() == 0 {
        0
    } else {
        occurrences(ws.drop_last(), w) + if ws.last() == w {
            1nat
        } else {
            0nat
        }
    }
}

pub open spec fn no_duplicates(ws: Seq<Seq<char>>) -> bool {
    forall|i: int, j: int| 0 <= i < ws.len() && 0 <= j < ws.len() && i != j ==> ws[i] != ws[j]
}

proof fn lemma_occurrences_bounded(ws: Seq<Seq<char>>, w: Seq<char>)
    ensures
        occurrences(ws, w) <= ws.len(),
        !ws.contains(w) ==> occurrences(ws, w) == 0,
    decreases ws.len(),
{
    if ws.len() > 0 {
        lemma_occurrences_bounded(ws.drop_last(), w);
        if !ws.contains(w) {
            assert forall|k: int| 0 <= k < ws.drop_last().len() implies ws.drop_last()[k] != w by {
                assert(ws.drop_last()[k] == ws[k]);
            };
            assert(ws.last() == ws[ws.len() - 1]);
        }
    }
}

proof fn lemma_distinct_words(ws: Seq<Seq<char>>)
    ensures
        no_duplicates(distinct_words(ws)),
        forall|x: Seq<char>| #[trigger] distinct_words(ws).contains(x) <==> ws.contains(x),
    decreases ws.len(),
{
    if ws.len() > 0 {
        let p = ws.drop_last();
        lemma_distinct_words(p);
        let d = distinct_words(p);
        assert forall|x: Seq<char>| #[trigger] distinct_words(ws).contains(x) <==> ws.contains(x) by {
            if ws.contains(x) {
                let k = choose|k: int| 0 <= k < ws.len() && ws[k] == x;
                if k < ws.len() - 1 {
                    assert(p[k] == x);
                    assert(p.contains(x));
                    assert(d.contains(x));
                    let m = choose|m: int| 0 <= m < d.len() && d[m] == x;
                    if !d.contains(ws.last()) {
                        assert(d.push(ws.last())[m] == x);
                    }
                } else if !d.contains(ws.last()) {
                    assert(d.push(ws.last())[d.len() as int] == x);
                }
            }
            if distinct_words(ws).contains(x) {
                let m = choose|m: int| 0 <= m < distinct_words(ws).len() && distinct_words(ws)[m] == x;
                if m < d.len() {
                    assert(d[m] == x);
                    assert(d.contains(x));
                    let k = choose|k: int| 0 <= k < p.len() && p[k] == x;
                    assert(ws[k] == x);
                } else {
                    assert(ws[ws.len() - 1] == x);
                }
            }
        };
    }
}

fn position_of(words: &Vec<String>, w: &String) -> (r: Option<usize>)
    ensures
        match r {
            Some(j) => j < words@.len() && texts(words@)[j as int] == w@,
            None => !texts(words@).contains(w@),
        },
{
    let mut i: usize = 0;
    while i < words.len()
        invariant
            i <= words@.len(),
            forall|j: int| 0 <= j < i ==> texts(words@)[j] != w@,
        decreases words@.len() - i,
    {
        if words[i].eq(w) {
            return Some(i);
        }
        i = i + 1;
    }
    None
}

/// The distinct words of `words`, in order of first appearance, each with how many
/// times it occurs.
pub fn count_words(words: &Vec<String>) -> (r: (Vec<String>, Vec<usize>))
    ensures
        texts(r.0@) == distinct_words(texts(words@)),
        r.1@.len() == r.0@.len(),
        forall|i: int|
            0 <= i < r.1@.len() ==> #[trigger] r.1@[i] == occurrences(texts(words@), texts(r.0@)[i]),
{
    let ghost ws = texts(words@);
    let mut seen: Vec<String> = Vec::new();
    let mut counts: Vec<usize> = Vec::new();
    let mut i: usize = 0;
    while i < words.len()
        invariant
            ws == texts(words@),
            i <= ws.len(),
            texts(seen@) == distinct_words(ws.take(i as int)),
            counts@.len() == seen@.len(),
            forall|k: int|
                0 <= k < counts@.len() ==> #[trigger] counts@[k] == occurrences(
                    ws.take(i as int),
                    texts(seen@)[k],
                ),
        decreases ws.len() - i,
    {
        let ghost prefix = ws.take(i as int);
        let ghost next = ws.take(i + 1);
        assert(next.drop_last() =~= prefix);
        assert(next.last() == ws[i as int]);
        proof {
            lemma_distinct_words(prefix);
        }
        let w = &words[i];
        let ghost d = texts(seen@);
        match position_of(&seen, w) {
            Some(j) => {
                proof {
                    lemma_occurrences_bounded(next, w@);
                }
                let c = counts[j] + 1;
                counts.set(j, c);
                assert forall|k: int| 0 <= k < counts@.len() implies #[trigger] counts@[k]
                    == occurrences(next, texts(seen@)[k]) by {
                    if k != j {
                        assert(d[k] != d[j as int]);
                    }
                };
            },
            None => {
                proof {
                    lemma_occurrences_bounded(prefix, w@);
                }
                seen.push(w.clone());
                counts.push(1);
                assert(texts(seen@) =~= d.push(w@));
                assert forall|k: int| 0 <= k < counts@.len() implies #[trigger] counts@[k]
                    == occurrences(next, texts(seen@)[k]) by {
                    if k < d.len() {
                        assert(d.contains(d[k]));
                        assert(texts(seen@)[k] == d[k]);
                    }
                };
            },
        }
        i = i + 1;
    }
    assert(ws.take(i as int) =~= ws);
    (seen, counts)
}

/// When every index below `n` occurs in `order`, `order` has at least `n` elements.
proof fn lemma_covering_indices(order: Seq<usize>, n: nat)
    requires
        n <= usize::MAX,
        forall|k: int| 0 <= k < n ==> #[trigger] order.contains(k as usize),
    ensures
        order.len() >= n,
{
    let ints = order.map_values(|x: usize| x as int);
    let range = set_int_range(0, n as int);
    lemma_int_range(0, n as int);
    assert forall|k: int| range.contains(k) implies ints.to_set().contains(k) by {
        assert(order.contains(k as usize));
        let j = choose|j: int| 0 <= j < order.len() && order[j] == k as usize;
        assert(ints[j] == k);
    };
    vstd::seq_lib::seq_to_set_is_finite(ints);
    lemma_len_subset(range, ints.to_set());
    ints.lemma_cardinality_of_set();
}

/// The positions of the `limit` largest counts (all of them if there are fewer), largest
/// first; equal counts keep their order.
pub fn top_indices(counts: &Vec<usize>, limit: usize) -> (order: Vec<usize>)
    ensures
        order@.len() == if limit < counts@.len() {
            limit as int
        } else {
            counts@.len() as int
        },
        forall|a: int| 0 <= a < order@.len() ==> #[trigger] order@[a] < counts@.len(),
        order@.no_duplicates(),
        forall|a: int, b: int|
            0 <= a < b < order@.len() ==> #[trigger] counts@[order@[a] as int] >= #[trigger] counts@[order@[b] as int],
        forall|a: int, k: int|
            0 <= a < order@.len() && 0 <= k < counts@.len() && !order@.contains(k as usize)
                ==> #[trigger] counts@[order@[a] as int] >= #[trigger] counts@[k],
{
    let n = if limit < counts.len() {
        limit
    } else {
        counts.len()
    };
    let mut taken: Vec<bool> = Vec::new();
    let mut t: usize = 0;
    while t < counts.len()
        invariant
            t <= counts@.len(),
            taken@.len() == t,
            forall|k: int| 0 <= k < t ==> !#[trigger] taken@[k],
        decreases counts@.len() - t,
    {
        taken.push(false);
        t = t + 1;
    }
    let mut order: Vec<usize> = Vec::new();
    while order.len() < n
        invariant
            n <= counts@.len(),
            taken@.len() == counts@.len(),
            order@.len() <= n,
            forall|a: int| 0 <= a < order@.len() ==> #[trigger] order@[a] < counts@.len(),
            forall|a: int| 0 <= a < order@.len() ==> #[trigger] taken@[order@[a] as int],
            forall|k: int| 0 <= k < taken@.len() && #[trigger] taken@[k] ==> order@.contains(k as usize),
            order@.no_duplicates(),
            forall|a: int, b: int|
                0 <= a < b < order@.len() ==> #[trigger] counts@[order@[a] as int] >= #[trigger] counts@[order@[b] as int],
            forall|a: int, k: int|
                0 <= a < order@.len() && 0 <= k < counts@.len() && !taken@[k]
                    ==> #[trigger] counts@[order@[a] as int] >= #[trigger] counts@[k],
        decreases n - order@.len(),
    {
        let mut best: Option<usize> = None;
        let mut k: usize = 0;
        while k < counts.len()
            invariant
                taken@.len() == counts@.len(),
                k <= counts@.len(),
                match best {
                    Some(b) => b < k && !taken@[b as int] && forall|j: int|
                        0 <= j < k && !taken@[j] ==> counts@[b as int] >= #[trigger] counts@[j],
                    None => forall|j: int| 0 <= j < k ==> #[trigger] taken@[j],
                },
            decreases counts@.len() - k,
        {
            if !taken[k] {
                match best {
                    None => {
                        best = Some(k);
                    },
                    Some(b) => {
                        if counts[k] > counts[b] {
                            best = Some(k);
                        }
                    },
                }
            }
            k = k + 1;
        }
        match best {
            Some(b) => {
                let ghost old_order = order@;
                let ghost old_taken = taken@;
                taken.set(b, true);
                order.push(b);
                assert forall|a: int| 0 <= a < order@.len() implies #[trigger] taken@[order@[a] as int] by {
                    if a < old_order.len() {
                        assert(order@[a] == old_order[a]);
                    }
                };
                assert forall|j: int| 0 <= j < taken@.len() && #[trigger] taken@[j] implies order@.contains(
                    j as usize,
                ) by {
                    if j == b as int {
                        assert(order@[old_order.len() as int] == b);
                    } else {
                        assert(old_taken[j]);
                        assert(old_order.contains(j as usize));
                        let a = choose|a: int| 0 <= a < old_order.len() && old_order[a] == j as usize;
                        assert(order@[a] == j as usize);
                    }
                };
                assert forall|x: int, y: int|
                    0 <= x < order@.len() && 0 <= y < order@.len() && x != y implies order@[x]
                    != order@[y] by {
                    if x == old_order.len() as int && y < old_order.len() {
                        assert(old_taken[old_order[y] as int]);
                    } else if y == old_order.len() as int && x < old_order.len() {
                        assert(old_taken[old_order[x] as int]);
                    }
                };
            },
            None => {
                proof {
                    assert forall|j: int| 0 <= j < counts@.len() implies #[trigger] order@.contains(
                        j as usize,
                    ) by {
                        assert(taken@[j]);
                    };
                    lemma_covering_indices(order@, counts@.len());
                }
            },
        }
    }
    proof {
        assert forall|a: int, k: int|
            0 <= a < order@.len() && 0 <= k < counts@.len() && !order@.contains(k as usize)
                implies #[trigger] counts@[order@[a] as int] >= #[trigger] counts@[k] by {
            if taken@[k] {
                assert(order@.contains(k as usize));
            }
        };
    }
    order
}

/// A count as an `i64`, saturating.
pub open spec fn saturated(n: nat) -> i64 {
    if n > i64::MAX {
        i64::MAX
    } else {
        n as i64
    }
}

pub open spec fn pair_words(r: Seq<(String, i64)>) -> Seq<Seq<char>> {
    r.map_values(|p: (String, i64)| p.0@)
}

/// The `limit` most frequent keywords of `titles` with their counts, most frequent first.
/// Keywords with equal counts may come in any order; that order is not part of the contract.
pub fn keyword_counts(titles: &Vec<String>, limit: usize) -> (r: Vec<(String, i64)>)
    ensures
        ({
            let all = all_words(texts(titles@));
            let distinct = distinct_words(all);
            &&& r@.len() == if limit < distinct.len() {
                limit as int
            } else {
                distinct.len() as int
            }
            &&& no_duplicates(pair_words(r@))
            &&& forall|i: int| 0 <= i < r@.len() ==> all.contains(#[trigger] r@[i].0@)
            &&& forall|i: int|
                0 <= i < r@.len() ==> #[trigger] r@[i].1 == saturated(occurrences(all, r@[i].0@))
            &&& forall|i: int, j: int|
                0 <= i < j < r@.len() ==> #[trigger] r@[i].1 >= #[trigger] r@[j].1
            &&& forall|w: Seq<char>, i: int|
                all.contains(w) && !pair_words(r@).contains(w) && 0 <= i < r@.len()
                    ==> #[trigger] r@[i].1 >= saturated(#[trigger] occurrences(all, w))
        }),
{
    let words = keywords_of_titles(titles);
    let ghost all = texts(words@);
    let (distinct, counts) = count_words(&words);
    let ghost d = texts(distinct@);
    proof {
        lemma_distinct_words(all);
    }
    let order = top_indices(&counts, limit);
    let mut r: Vec<(String, i64)> = Vec::new();
    let mut a: usize = 0;
    while a < order.len()
        invariant
            all == all_words(texts(titles@)),
            d == texts(distinct@),
            d == distinct_words(all),
            no_duplicates(d),
            forall|x: Seq<char>| #[trigger] d.contains(x) <==> all.contains(x),
            counts@.len() == distinct@.len(),
            forall|i: int| 0 <= i < counts@.len() ==> #[trigger] counts@[i] == occurrences(all, d[i]),
            forall|b: int| 0 <= b < order@.len() ==> #[trigger] order@[b] < counts@.len(),
            a <= order@.len(),
            r@.len() == a,
            forall|b: int|
                0 <= b < a ==> (#[trigger] r@[b]).0@ == d[order@[b] as int] && r@[b].1 == saturated(
                    counts@[order@[b] as int] as nat,
                ),
        decreases order@.len() - a,
    {
        let k = order[a];
        let c = counts[k];
        let sat: i64 = if (c as u64) > (i64::MAX as u64) {
            i64::MAX
        } else {
            c as i64
        };
        assert(sat == saturated(c as nat));
        let w = distinct[k].clone();
        assert(w@ == d[k as int]);
        let ghost before = r@;
        r.push((w, sat));
        assert(forall|b: int| 0 <= b < a ==> r@[b] == before[b]);
        a = a + 1;
    }
    proof {
        assert forall|i: int| 0 <= i < r@.len() implies all.contains(#[trigger] r@[i].0@) by {
            assert(d[order@[i] as int] == r@[i].0@);
            assert(d.contains(r@[i].0@));
        };
        assert forall|i: int, j: int|
            0 <= i < r@.len() && 0 <= j < r@.len() && i != j implies pair_words(r@)[i]
            != pair_words(r@)[j] by {
            assert(order@[i] != order@[j]);
        };
        assert forall|w: Seq<char>, i: int|
            all.contains(w) && !pair_words(r@).contains(w) && 0 <= i < r@.len()
                implies #[trigger] r@[i].1 >= saturated(#[trigger] occurrences(all, w)) by {
            assert(d.contains(w));
            let k = choose|k: int| 0 <= k < d.len() && d[k] == w;
            if order@.contains(k as usize) {
                let b = choose|b: int| 0 <= b < order@.len() && order@[b] == k as usize;
                assert(pair_words(r@)[b] == w);
            }
            assert(counts@[order@[i] as int] >= counts@[k]);
        };
    }
    r
}

} // verus!
