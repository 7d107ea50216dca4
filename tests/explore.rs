use sunder::explore::{capitalize, minutes_since_epoch, simple_hash, chrono_minute};

#[test]
fn capitalize_first_character() {
    assert_eq!(capitalize("hello"), "Hello");
    assert_eq!(capitalize(""), "");
    assert_eq!(capitalize("éa"), "Éa");
    assert_eq!(capitalize("ßx"), "SSx");
    assert_eq!(capitalize("Already"), "Already");
}

#[test]
fn simple_hash_values() {
    assert_eq!(simple_hash(""), 0);
    assert_eq!(simple_hash("a"), 97);
    assert_eq!(simple_hash("ab"), 97 * 31 + 98);
    assert_eq!(simple_hash("é"), 0xc3 * 31 + 0xa9);
}

#[test]
fn minutes() {
    assert_eq!(minutes_since_epoch(0), 0);
    assert_eq!(minutes_since_epoch(59), 0);
    assert_eq!(minutes_since_epoch(125), 2);
    assert!(chrono_minute() > 28_000_000);
}

use sunder::explore::{
    keep_unseen, mood_keywords, mood_keywords_among, personal_sections, starter_sections,
    wants_starters, SectionRequest,
};

fn strings(v: &[&str]) -> Vec<String> {
    v.iter().map(|s| s.to_string()).collect()
}

fn kw(v: &[(&str, i64)]) -> Vec<(String, i64)> {
    v.iter().map(|(w, c)| (w.to_string(), *c)).collect()
}

fn summary(v: &[SectionRequest]) -> Vec<(String, String, usize)> {
    v.iter().map(|s| (s.title.clone(), s.query.clone(), s.limit)).collect()
}

#[test]
fn starter_page_rotates_with_the_minute() {
    assert!(wants_starters(0));
    assert!(wants_starters(4));
    assert!(!wants_starters(5));
    let at0 = starter_sections(0);
    assert_eq!(at0.len(), 5);
    assert_eq!(at0[0].title, "Popular Right Now");
    assert_eq!(at0[0].query, "popular music hits");
    assert_eq!(at0[4].title, "Hip-Hop Spotlight");
    assert!(at0.iter().all(|s| s.limit == 8));
    let at6 = starter_sections(14);
    let titles: Vec<&str> = at6.iter().map(|s| s.title.as_str()).collect();
    assert_eq!(
        titles,
        vec!["Acoustic Sessions", "R&B Soul", "Popular Right Now", "Chill Vibes", "Upbeat Energy"]
    );
}

#[test]
fn mood_keywords_skip_rare_words_and_artist_names() {
    let keywords = kw(&[("night", 5), ("drake", 4), ("rain", 1), ("summer", 2), ("dance", 3)]);
    let top = strings(&["Drake", "Night Owls"]);
    assert_eq!(mood_keywords(&keywords, &top), strings(&["summer", "dance"]));
    let lowered = strings(&["drake"]);
    assert_eq!(mood_keywords_among(&keywords, &lowered), strings(&["night", "summer", "dance"]));
}

#[test]
fn mood_keywords_are_at_most_six() {
    let keywords = kw(&[("aa", 2), ("bb", 2), ("cc", 2), ("dd", 2), ("ee", 2), ("ff", 2), ("gg", 2)]);
    assert_eq!(mood_keywords(&keywords, &Vec::new()), strings(&["aa", "bb", "cc", "dd", "ee", "ff"]));
}

#[test]
fn personal_page_sections() {
    let top = strings(&["a", "b", "c", "d", "e"]);
    let keywords = kw(&[("rain", 3), ("summer", 2), ("dance", 2)]);
    let mood = strings(&["rain", "summer", "dance"]);
    let got = summary(&personal_sections(&top, &keywords, &mood));
    let s = |t: &str, q: &str, l: usize| (t.to_string(), q.to_string(), l);
    // simple_hash("a") = 97, 97 % 3 == 1; "b" = 98 -> 2; "c" = 99 -> 0.
    let expected = vec![
        s("Because you listen to a", "a fans also like", 8),
        s("Because you listen to b", "b type music", 8),
        s("Because you listen to c", "c similar artists music", 8),
        s("More Rain & Summer", "rain summer music", 8),
        s("More Dance", "dance music", 8),
        s("Discovery Mix", "a c mix playlist", 8),
        s("Dig Deeper: e", "e best songs", 6),
    ];
    // The keyword that "a" selects (97 % 3 == 1, "summer") is a mood keyword: no section.
    assert_eq!(got, expected);
}

#[test]
fn keyword_section_when_not_a_mood() {
    let top = strings(&["a"]);
    let keywords = kw(&[("rain", 1), ("ocean", 1)]);
    let got = summary(&personal_sections(&top, &keywords, &Vec::new()));
    // 97 % 2 == 1: "ocean".
    assert_eq!(
        got,
        vec![
            ("Because you listen to a".to_string(), "a fans also like".to_string(), 8),
            ("You Might Like: Ocean".to_string(), "ocean songs playlist".to_string(), 8),
        ]
    );
    assert!(personal_sections(&Vec::new(), &Vec::new(), &Vec::new()).is_empty());
}

#[test]
fn unseen_ids_are_kept_once() {
    let mut seen = strings(&["x"]);
    let keep = keep_unseen(&strings(&["a", "x", "b", "a"]), &mut seen);
    assert_eq!(keep, vec![true, false, true, false]);
    assert_eq!(seen, strings(&["x", "a", "x", "b", "a"]));
}
