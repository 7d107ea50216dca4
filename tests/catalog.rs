use sunder::catalog::{fts_query, source_for, SearchSource};
use sunder::extraction::Extractor;
use sunder::keywords::{count_words, keyword_counts, keywords_of_titles, top_indices};

fn strings(v: &[&str]) -> Vec<String> {
    v.iter().map(|s| s.to_string()).collect()
}

#[test]
fn search_source_follows_local_hits() {
    assert_eq!(source_for(3), SearchSource::Local);
    assert_eq!(source_for(0), SearchSource::Remote);
}

#[test]
fn full_text_queries() {
    assert_eq!(fts_query("  "), None);
    assert_eq!(fts_query(""), None);
    assert_eq!(fts_query("daft punk").as_deref(), Some("daft* punk*"));
    assert_eq!(fts_query("  one\tmore  time ").as_deref(), Some("one* more* time*"));
}

#[test]
fn extractor_arguments() {
    let e = Extractor::new("yt-dlp".to_string());
    assert_eq!(e.bin(), "yt-dlp");
    assert_eq!(
        e.search_args("lofi beats", 10),
        strings(&["ytsearch10:lofi beats", "--dump-json", "--flat-playlist", "--no-warnings", "--ignore-errors"])
    );
    assert_eq!(
        e.metadata_args("abc"),
        strings(&["https://www.youtube.com/watch?v=abc", "-j", "--no-playlist", "--no-warnings"])
    );
    assert_eq!(e.search_args("x", 0)[0], "ytsearch0:x");
}

#[test]
fn title_words_are_cleaned_and_filtered() {
    let titles = strings(&["The Weeknd - Blinding Lights (Official Video)", "Ünder Pressure, feat. QUEEN!"]);
    assert_eq!(
        keywords_of_titles(&titles),
        strings(&["weeknd", "blinding", "lights", "ünder", "pressure", "queen"])
    );
    // "é" and "ab" have fewer than three bytes... "éa" has three.
    assert_eq!(keywords_of_titles(&strings(&["ab éa é"])), strings(&["éa"]));
}

#[test]
fn words_are_counted_once_each() {
    let (words, counts) = count_words(&strings(&["rain", "sun", "rain", "rain", "sun", "fog"]));
    assert_eq!(words, strings(&["rain", "sun", "fog"]));
    assert_eq!(counts, vec![3, 2, 1]);
}

#[test]
fn top_indices_keep_order_among_equals() {
    assert_eq!(top_indices(&vec![1, 5, 3, 5, 2], 3), vec![1, 3, 2]);
    assert_eq!(top_indices(&vec![1, 2], 10), vec![1, 0]);
    assert!(top_indices(&vec![], 4).is_empty());
    assert!(top_indices(&vec![7, 8], 0).is_empty());
}

#[test]
fn keyword_counts_rank_by_frequency() {
    let titles = strings(&[
        "Rain on Me",
        "Purple Rain",
        "Rainy Night Drive",
        "Night Drive - Official Audio",
        "Rain",
    ]);
    let got = keyword_counts(&titles, 2);
    assert_eq!(got.len(), 2);
    assert_eq!(got[0], ("rain".to_string(), 3));
    assert_eq!(got[1].1, 2);
    assert!(got[1].0 == "night" || got[1].0 == "drive");
    let all = keyword_counts(&titles, 15);
    assert_eq!(all.len(), 5);
    assert!(all.windows(2).all(|w| w[0].1 >= w[1].1));
    assert!(keyword_counts(&Vec::new(), 15).is_empty());
}
