use vstd::prelude::*;
use vstd::string::*;
use vstd::utf8::encode_utf8;
use vstd::wrapping::usize_specs;

use crate::text::{chars_of, contains_text, lower_of, lowercase, occurs, occurs_in, texts};

verus! {

/// What `char::to_uppercase` makes of a character: one or more characters, by the
/// Unicode case mapping.
pub uninterp spec fn upper_of(c: char) -> Seq<char>;

/// Relies on `char::to_uppercase`: the upper-case mapping of one character, which
/// depends on the character alone.
#[verifier::external_body]
fn uppercase_of(c: char) -> (r: String)
    ensures
        r@ == upper_of(c),
{
    c.to_uppercase().collect::<String>()
}

pub open spec fn capitalized(s: Seq<char>) -> Seq<char> {
    if s.len() == 0 {
        Seq::empty()
    } else {
        upper_of(s[0]) + s.drop_first()
    }
}

/// `s` with its first character in upper case.
pub fn capitalize(s: &str) -> (r: String)
    ensures
        r@ == capitalized(s@),
{
    let n = s.unicode_len();
    if n == 0 {
        return String::new();
    }
    let first = uppercase_of(s.get_char(0));
    let rest = s.substring_char(1, n);
    assert(rest@ =~= s@.drop_first());
    first.concat(rest)
}

/// The multiplicative string hash over bytes: `h = h * 31 + b`, wrapping in `usize`.
pub open spec fn hash_of(bytes: Seq<u8>) -> usize
    decreases bytes.len(),
{
    if bytes.len() == 0 {
        0
    } else {
        usize_specs::wrapping_add(
            usize_specs::wrapping_mul(hash_of(bytes.drop_last()), 31),
            bytes.last() as usize,
        )
    }
}

/// A cheap, stable hash of the UTF-8 bytes of `s`.
pub fn simple_hash(s: &str) -> (r: usize)
    ensures
        r == hash_of(s.spec_bytes()),
{
    let b = s.as_bytes();
    let mut h: usize = 0;
    let mut i: usize = 0;
    while i < b.len()
        invariant
            b@ == s.spec_bytes(),
            i <= b@.len(),
            h == hash_of(b@.take(i as int)),
        decreases b@.len() - i,
    {
        assert(b@.take(i + 1).drop_last() =~= b@.take(i as int));
        h = h.wrapping_mul(31).wrapping_add(b[i] as usize);
        i = i + 1;
    }
    assert(b@.take(i as int) =~= b@);
    h
}

/// Relies on `SystemTime::now`: whole seconds since the Unix epoch (0 for a clock set
/// before it). Nothing is known of the value.
#[verifier::external_body]
fn unix_time_secs() -> (r: u64) {
    std::time::SystemTime::now().duration_since(std::time::UNIX_EPOCH).unwrap_or_default().as_secs()
}

/// The number of whole minutes in `secs` seconds.
pub open spec fn minute_of(secs: u64) -> usize {
    (secs / 60) as usize
}

pub fn minutes_since_epoch(secs: u64) -> (r: usize)
    ensures
        r == minute_of(secs),
{
    (secs / 60) as usize
}

/// The current minute since the Unix epoch, read from the clock.
pub fn chrono_minute() -> (r: usize)
    ensures
        exists|secs: u64| r == #[trigger] minute_of(secs),
{
    minutes_since_epoch(unix_time_secs())
}

/// One section that the explore page asks the remote catalog for.
pub struct SectionRequest {
    pub title: String,
    pub query: String,
    pub limit: usize,
}

pub struct SectionView {
    pub title: Seq<char>,
    pub query: Seq<char>,
    pub limit: usize,
}

impl View for SectionRequest {
    type V = SectionView;

    open spec fn view(&self) -> SectionView {
        SectionView { title: self.title@, query: self.query@, limit: self.limit }
    }
}

pub open spec fn section_views(v: Seq<SectionRequest>) -> Seq<SectionView> {
    v.map_values(|s: SectionRequest| s@)
}

pub open spec fn section(title: Seq<char>, query: Seq<char>, limit: usize) -> SectionView {
    SectionView { title, query, limit }
}

fn make_section(title: String, query: String, limit: usize) -> (r: SectionRequest)
    ensures
        r@ == section(title@, query@, limit),
{
    SectionRequest { title, query, limit }
}

/// Listeners with fewer plays than this get the starter sections.
pub const STARTER_THRESHOLD: i64 = 5;

/// Whether a listener with this many plays gets the starter page.
pub fn wants_starters(listen_count: i64) -> (r: bool)
    ensures
        r == (listen_count < STARTER_THRESHOLD),
{
    listen_count < STARTER_THRESHOLD
}

/// How many starter sections a page shows, out of the eight.
pub const STARTER_SECTIONS: usize = 5;

/// The eight starter sections, by index.
pub open spec fn starter(k: int) -> (Seq<char>, Seq<char>) {
    if k == 0 {
        ("Popular Right Now"@, "popular music hits"@)
    } else if k == 1 {
        ("Chill Vibes"@, "chill relaxing music"@)
    } else if k == 2 {
        ("Upbeat Energy"@, "upbeat energetic songs"@)
    } else if k == 3 {
        ("Discover Indie"@, "indie music discover"@)
    } else if k == 4 {
        ("Hip-Hop Spotlight"@, "hip hop rap new music"@)
    } else if k == 5 {
        ("Electronic Beats"@, "electronic dance music"@)
    } else if k == 6 {
        ("Acoustic Sessions"@, "acoustic singer songwriter"@)
    } else {
        ("R&B Soul"@, "rnb soul music"@)
    }
}

fn starter_at(k: usize) -> (r: (String, String))
    requires
        k < 8,
    ensures
        (r.0@, r.1@) == starter(k as int),
{
    let (t, q) = if k == 0 {
        ("Popular Right Now", "popular music hits")
    } else if k == 1 {
        ("Chill Vibes", "chill relaxing music")
    } else if k == 2 {
        ("Upbeat Energy", "upbeat energetic songs")
    } else if k == 3 {
        ("Discover Indie", "indie music discover")
    } else if k == 4 {
        ("Hip-Hop Spotlight", "hip hop rap new music")
    } else if k == 5 {
        ("Electronic Beats", "electronic dance music")
    } else if k == 6 {
        ("Acoustic Sessions", "acoustic singer songwriter")
    } else {
        ("R&B Soul", "rnb soul music")
    };
    (String::from_str(t), String::from_str(q))
}

/// The starter page: five of the eight starter sections, in order, beginning at the one
/// that the minute selects, so that the page rotates over time.
pub open spec fn starter_plan(minute: usize) -> Seq<SectionView> {
    Seq::new(
        STARTER_SECTIONS as nat,
        |i: int|
            section(
                starter((minute % 8 + i) % 8).0,
                starter((minute % 8 + i) % 8).1,
                8,
            ),
    )
}

pub fn starter_sections(minute: usize) -> (r: Vec<SectionRequest>)
    ensures
        section_views(r@) == starter_plan(minute),
{
    let offset = minute % 8;
    let mut r: Vec<SectionRequest> = Vec::new();
    let mut i: usize = 0;
    while i < STARTER_SECTIONS
        invariant
            offset == minute % 8,
            i <= STARTER_SECTIONS,
            section_views(r@) == starter_plan(minute).take(i as int),
        decreases STARTER_SECTIONS - i,
    {
        let (t, q) = starter_at((offset + i) % 8);
        let sec = make_section(t, q, 8);
        let ghost before = r@;
        assert(sec@ == starter_plan(minute)[i as int]);
        r.push(sec);
        assert(r@ == before.push(sec));
        assert(section_views(r@) =~= section_views(before).push(sec@));
        i = i + 1;
        assert(section_views(r@) =~= starter_plan(minute).take(i as int));
    }
    assert(starter_plan(minute).take(i as int) =~= starter_plan(minute));
    r
}

/// A keyword speaks of a mood when it was seen at least twice and is not part of the
/// (lower-cased) name of a top artist.
pub open spec fn is_mood(word: Seq<char>, count: i64, lowered_artists: Seq<Seq<char>>) -> bool {
    &&& count >= 2
    &&& forall|k: int| 0 <= k < lowered_artists.len() ==> !occurs_in(word, #[trigger] lowered_artists[k])
}

/// The mood keywords among `keywords`, in order.
pub open spec fn moods(keywords: Seq<(String, i64)>, lowered_artists: Seq<Seq<char>>) -> Seq<Seq<char>>
    decreases keywords.len(),
{
    if keywords.len() == 0 {
        Seq::empty()
    } else {
        let prev = moods(keywords.drop_last(), lowered_artists);
        let (w, c) = keywords.last();
        if is_mood(w@, c, lowered_artists) {
            prev.push(w@)
        } else {
            prev
        }
    }
}

/// At most the first `n` elements of `s`.
pub open spec fn first_n<A>(s: Seq<A>, n: nat) -> Seq<A> {
    if s.len() <= n {
        s
    } else {
        s.take(n as int)
    }
}

/// How many mood keywords the page uses at most.
pub const MOOD_LIMIT: usize = 6;

/// The mood keywords, from keyword counts and the lower-cased names of the top artists:
/// at most six, in the order of `keywords`.
pub fn mood_keywords_among(keywords: &Vec<(String, i64)>, lowered_artists: &Vec<String>) -> (r: Vec<String>)
    ensures
        texts(r@) == first_n(moods(keywords@, texts(lowered_artists@)), MOOD_LIMIT as nat),
{
    let ghost la = texts(lowered_artists@);
    let mut artist_chars: Vec<Vec<char>> = Vec::new();
    let mut a: usize = 0;
    while a < lowered_artists.len()
        invariant
            la == texts(lowered_artists@),
            a <= lowered_artists@.len(),
            artist_chars@.len() == a,
            forall|k: int| 0 <= k < a ==> #[trigger] artist_chars@[k]@ == la[k],
        decreases lowered_artists@.len() - a,
    {
        artist_chars.push(chars_of(lowered_artists[a].as_str()));
        a = a + 1;
    }
    let mut r: Vec<String> = Vec::new();
    let mut i: usize = 0;
    while i < keywords.len()
        invariant
            la == texts(lowered_artists@),
            artist_chars@.len() == la.len(),
            forall|k: int| 0 <= k < la.len() ==> #[trigger] artist_chars@[k]@ == la[k],
            i <= keywords@.len(),
            texts(r@) == first_n(moods(keywords@.take(i as int), la), MOOD_LIMIT as nat),
        decreases keywords@.len() - i,
    {
        let ghost prev = moods(keywords@.take(i as int), la);
        assert(keywords@.take(i + 1).drop_last() =~= keywords@.take(i as int));
        let w = &keywords[i].0;
        let count = keywords[i].1;
        let mut mood = count >= 2;
        if mood {
            let wc = chars_of(w.as_str());
            let mut k: usize = 0;
            while k < artist_chars.len()
                invariant
                    artist_chars@.len() == la.len(),
                    forall|j: int| 0 <= j < la.len() ==> #[trigger] artist_chars@[j]@ == la[j],
                    wc@ == w@,
                    k <= la.len(),
                    mood == forall|j: int| 0 <= j < k ==> !occurs_in(w@, #[trigger] la[j]),
                decreases la.len() - k,
            {
                if occurs(&wc, &artist_chars[k]) {
                    mood = false;
                }
                k = k + 1;
            }
            assert(mood == is_mood(w@, count, la));
        }
        let ghost before = r@;
        if mood && r.len() < MOOD_LIMIT {
            let wcopy = w.clone();
            r.push(wcopy);
            assert(texts(r@) =~= texts(before).push(w@));
        }
        assert(keywords@.take(i + 1).last() == keywords@[i as int]);
        assert(moods(keywords@.take(i + 1), la) == if mood {
            prev.push(w@)
        } else {
            prev
        });
        i = i + 1;
        assert(texts(r@) =~= first_n(moods(keywords@.take(i as int), la), MOOD_LIMIT as nat));
    }
    assert(keywords@.take(i as int) =~= keywords@);
    r
}

/// The mood keywords for the given top artists.
pub fn mood_keywords(keywords: &Vec<(String, i64)>, top_artists: &Vec<String>) -> (r: Vec<String>)
    ensures
        texts(r@) == first_n(
            moods(keywords@, texts(top_artists@).map_values(|a: Seq<char>| lower_of(a))),
            MOOD_LIMIT as nat,
        ),
{
    let mut lowered: Vec<String> = Vec::new();
    let mut a: usize = 0;
    while a < top_artists.len()
        invariant
            a <= top_artists@.len(),
            texts(lowered@) == texts(top_artists@).map_values(|s: Seq<char>| lower_of(s)).take(a as int),
        decreases top_artists@.len() - a,
    {
        let low = lowercase(top_artists[a].as_str());
        let ghost before = lowered@;
        lowered.push(low);
        assert(texts(lowered@) =~= texts(before).push(low@));
        a = a + 1;
        assert(texts(lowered@) =~= texts(top_artists@).map_values(|s: Seq<char>| lower_of(s)).take(a as int));
    }
    assert(texts(top_artists@).map_values(|s: Seq<char>| lower_of(s)).take(a as int)
        =~= texts(top_artists@).map_values(|s: Seq<char>| lower_of(s)));
    mood_keywords_among(keywords, &lowered)
}

/// The query for an artist section: one of three phrasings, picked by the artist's hash.
pub open spec fn strategy(artist: Seq<char>, pick: int) -> Seq<char> {
    if pick == 0 {
        artist + " similar artists music"@
    } else if pick == 1 {
        artist + " fans also like"@
    } else {
        artist + " type music"@
    }
}

pub open spec fn artist_section(artist: Seq<char>) -> SectionView {
    section(
        "Because you listen to "@ + artist,
        strategy(artist, (hash_of(encode_utf8(artist)) as int) % 3),
        8,
    )
}

/// One section for each of the first three top artists.
pub open spec fn artist_plan(top: Seq<Seq<char>>) -> Seq<SectionView> {
    first_n(top, 3).map_values(|a: Seq<char>| artist_section(a))
}

/// A section for one or two mood keywords.
pub open spec fn chunk_section(words: Seq<Seq<char>>) -> SectionView {
    if words.len() == 1 {
        section("More "@ + capitalized(words[0]), words[0] + " music"@, 8)
    } else {
        section(
            "More "@ + capitalized(words[0]) + " & "@ + capitalized(words[1]),
            words[0] + " "@ + words[1] + " music"@,
            8,
        )
    }
}

/// With two mood keywords or more: a section for the first pair, and one for the next
/// pair (or the single third keyword).
pub open spec fn mood_plan(mood: Seq<Seq<char>>) -> Seq<SectionView> {
    if mood.len() < 2 {
        Seq::empty()
    } else if mood.len() == 2 {
        seq![chunk_section(mood)]
    } else {
        seq![
            chunk_section(mood.take(2)),
            chunk_section(mood.subrange(2, if mood.len() < 4 { mood.len() as int } else { 4 })),
        ]
    }
}

/// With four top artists or more: a mix of the first and the middle one.
pub open spec fn discovery_plan(top: Seq<Seq<char>>) -> Seq<SectionView> {
    if top.len() >= 4 {
        seq![section("Discovery Mix"@, top[0] + " "@ + top[(top.len() / 2) as int] + " mix playlist"@, 8)]
    } else {
        Seq::empty()
    }
}

/// With five top artists or more: a spotlight on the least played of them.
pub open spec fn deep_plan(top: Seq<Seq<char>>) -> Seq<SectionView> {
    if top.len() >= 5 {
        seq![section("Dig Deeper: "@ + top.last(), top.last() + " best songs"@, 6)]
    } else {
        Seq::empty()
    }
}

/// The keyword that the first top artist's hash selects, unless it is a mood keyword.
pub open spec fn keyword_plan(
    top: Seq<Seq<char>>,
    keywords: Seq<(String, i64)>,
    mood: Seq<Seq<char>>,
) -> Seq<SectionView> {
    if keywords.len() == 0 {
        Seq::empty()
    } else {
        let seed = if top.len() > 0 {
            top[0]
        } else {
            Seq::empty()
        };
        let w = keywords[(hash_of(encode_utf8(seed)) as int) % (keywords.len() as int)].0@;
        if mood.contains(w) {
            Seq::empty()
        } else {
            seq![section("You Might Like: "@ + capitalized(w), w + " songs playlist"@, 8)]
        }
    }
}

/// The sections of a listener with a history, in page order.
pub open spec fn personal_plan(
    top: Seq<Seq<char>>,
    keywords: Seq<(String, i64)>,
    mood: Seq<Seq<char>>,
) -> Seq<SectionView> {
    artist_plan(top) + mood_plan(mood) + discovery_plan(top) + deep_plan(top) + keyword_plan(
        top,
        keywords,
        mood,
    )
}

fn artist_sections(top: &Vec<String>) -> (r: Vec<SectionRequest>)
    ensures
        section_views(r@) == artist_plan(texts(top@)),
{
    let n = if top.len() < 3 {
        top.len()
    } else {
        3
    };
    let ghost plan = artist_plan(texts(top@));
    assert(plan.len() == n);
    let mut r: Vec<SectionRequest> = Vec::new();
    let mut i: usize = 0;
    while i < n
        invariant
            plan == artist_plan(texts(top@)),
            plan.len() == n,
            n <= top@.len(),
            i <= n,
            section_views(r@) == plan.take(i as int),
        decreases n - i,
    {
        let artist = top[i].as_str();
        let pick = simple_hash(artist) % 3;
        let query = if pick == 0 {
            String::from_str(artist).concat(" similar artists music")
        } else if pick == 1 {
            String::from_str(artist).concat(" fans also like")
        } else {
            String::from_str(artist).concat(" type music")
        };
        let title = String::from_str("Because you listen to ").concat(artist);
        let sec = make_section(title, query, 8);
        assert(sec@ == plan[i as int]);
        let ghost before = r@;
        r.push(sec);
        assert(section_views(r@) =~= section_views(before).push(sec@));
        i = i + 1;
        assert(section_views(r@) =~= plan.take(i as int));
    }
    assert(plan.take(i as int) =~= plan);
    r
}

fn chunk_request(first: &str, second: Option<&str>) -> (r: SectionRequest)
    ensures
        r@ == chunk_section(
            match second {
                None => seq![first@],
                Some(s) => seq![first@, s@],
            },
        ),
{
    match second {
        None => {
            let title = String::from_str("More ").concat(capitalize(first).as_str());
            let query = String::from_str(first).concat(" music");
            make_section(title, query, 8)
        },
        Some(s) => {
            let title = String::from_str("More ").concat(capitalize(first).as_str()).concat(
                " & ",
            ).concat(capitalize(s).as_str());
            let query = String::from_str(first).concat(" ").concat(s).concat(" music");
            make_section(title, query, 8)
        },
    }
}

fn mood_sections(mood: &Vec<String>) -> (r: Vec<SectionRequest>)
    ensures
        section_views(r@) == mood_plan(texts(mood@)),
{
    let ghost m = texts(mood@);
    let mut r: Vec<SectionRequest> = Vec::new();
    if mood.len() < 2 {
        assert(section_views(r@) =~= mood_plan(m));
        return r;
    }
    let first = chunk_request(mood[0].as_str(), Some(mood[1].as_str()));
    if mood.len() == 2 {
        assert(seq![m[0], m[1]] =~= m);
    } else {
        assert(seq![m[0], m[1]] =~= m.take(2));
    }
    r.push(first);
    if mood.len() > 2 {
        let second = if mood.len() == 3 {
            assert(seq![m[2]] =~= m.subrange(2, 3));
            chunk_request(mood[2].as_str(), None)
        } else {
            assert(seq![m[2], m[3]] =~= m.subrange(2, 4));
            chunk_request(mood[2].as_str(), Some(mood[3].as_str()))
        };
        r.push(second);
    }
    assert(section_views(r@) =~= mood_plan(m));
    r
}

fn discovery_sections(top: &Vec<String>) -> (r: Vec<SectionRequest>)
    ensures
        section_views(r@) == discovery_plan(texts(top@)),
{
    let mut r: Vec<SectionRequest> = Vec::new();
    if top.len() >= 4 {
        let query = String::from_str(top[0].as_str()).concat(" ").concat(
            top[top.len() / 2].as_str(),
        ).concat(" mix playlist");
        r.push(make_section(String::from_str("Discovery Mix"), query, 8));
    }
    assert(section_views(r@) =~= discovery_plan(texts(top@)));
    r
}

fn deep_sections(top: &Vec<String>) -> (r: Vec<SectionRequest>)
    ensures
        section_views(r@) == deep_plan(texts(top@)),
{
    let mut r: Vec<SectionRequest> = Vec::new();
    if top.len() >= 5 {
        let deep = top[top.len() - 1].as_str();
        let title = String::from_str("Dig Deeper: ").concat(deep);
        let query = String::from_str(deep).concat(" best songs");
        r.push(make_section(title, query, 6));
    }
    assert(section_views(r@) =~= deep_plan(texts(top@)));
    r
}

fn keyword_sections(top: &Vec<String>, keywords: &Vec<(String, i64)>, mood: &Vec<String>) -> (r: Vec<
    SectionRequest,
>)
    ensures
        section_views(r@) == keyword_plan(texts(top@), keywords@, texts(mood@)),
{
    let mut r: Vec<SectionRequest> = Vec::new();
    if keywords.len() == 0 {
        assert(section_views(r@) =~= keyword_plan(texts(top@), keywords@, texts(mood@)));
        return r;
    }
    let h = if top.len() > 0 {
        simple_hash(top[0].as_str())
    } else {
        proof {
            reveal_strlit("");
        }
        simple_hash("")
    };
    let w = &keywords[h % keywords.len()].0;
    if !contains_text(mood, w) {
        let title = String::from_str("You Might Like: ").concat(capitalize(w.as_str()).as_str());
        let query = String::from_str(w.as_str()).concat(" songs playlist");
        r.push(make_section(title, query, 8));
    }
    assert(section_views(r@) =~= keyword_plan(texts(top@), keywords@, texts(mood@)));
    r
}

/// The sections asked of the remote catalog for a listener with a history: `top_artists`
/// most played first, `keywords` with their counts, and `mood` from `mood_keywords`.
pub fn personal_sections(
    top_artists: &Vec<String>,
    keywords: &Vec<(String, i64)>,
    mood: &Vec<String>,
) -> (r: Vec<SectionRequest>)
    ensures
        section_views(r@) == personal_plan(texts(top_artists@), keywords@, texts(mood@)),
{
    let mut r = artist_sections(top_artists);
    let mut m = mood_sections(mood);
    let mut d = discovery_sections(top_artists);
    let mut p = deep_sections(top_artists);
    let mut k = keyword_sections(top_artists, keywords, mood);
    let ghost (artist_part, mood_part, mix_part, deep_part, word_part) = (r@, m@, d@, p@, k@);
    r.append(&mut m);
    r.append(&mut d);
    r.append(&mut p);
    r.append(&mut k);
    assert(r@ == artist_part + mood_part + mix_part + deep_part + word_part);
    assert(section_views(r@) =~= section_views(artist_part) + section_views(mood_part)
        + section_views(mix_part) + section_views(deep_part) + section_views(word_part));
    r
}

/// Which of `ids` have not been seen, in order: an id is unseen when neither `seen` nor an
/// earlier element of `ids` holds it. Every id of `ids` is recorded as seen afterwards.
pub fn keep_unseen(ids: &Vec<String>, seen: &mut Vec<String>) -> (keep: Vec<bool>)
    ensures
        keep@.len() == ids@.len(),
        forall|i: int|
            0 <= i < ids@.len() ==> #[trigger] keep@[i] == !(texts(old(seen)@) + texts(
                ids@,
            ).take(i)).contains(ids@[i]@),
        texts(final(seen)@) == texts(old(seen)@) + texts(ids@),
{
    let ghost s0 = texts(seen@);
    let ghost t = texts(ids@);
    let mut keep: Vec<bool> = Vec::new();
    let mut i: usize = 0;
    while i < ids.len()
        invariant
            s0 == texts(old(seen)@),
            t == texts(ids@),
            i <= ids@.len(),
            keep@.len() == i,
            forall|j: int| 0 <= j < i ==> #[trigger] keep@[j] == !(s0 + t.take(j)).contains(t[j]),
            texts(seen@) == s0 + t.take(i as int),
        decreases ids@.len() - i,
    {
        let id = &ids[i];
        let present = contains_text(seen, id);
        keep.push(!present);
        let ghost before = texts(seen@);
        seen.push(id.clone());
        assert(texts(seen@) =~= before.push(t[i as int]));
        i = i + 1;
        assert(texts(seen@) =~= s0 + t.take(i as int));
    }
    assert(t.take(i as int) =~= t);
    keep
}

} // verus!
