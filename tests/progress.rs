use sunder::progress::{is_conversion_line, line_stage, percent_text, ProgressStage};

#[test]
fn percentages_in_order() {
    let lines = [
        "[download]  12.3% of 3.45MiB at 1.2MiB/s ETA 00:02",
        "[download]  45.0% of 3.45MiB at 1.2MiB/s ETA 00:01",
        "[download] 100.0% of 3.45MiB in 00:03",
    ];
    let got: Vec<f64> = lines
        .iter()
        .filter_map(|l| percent_text(l))
        .filter_map(|t| t.parse::<f64>().ok())
        .collect();
    assert_eq!(got, vec![12.3, 45.0, 100.0]);
}

#[test]
fn lines_without_marker_or_percent_give_nothing() {
    assert_eq!(percent_text("  12.3% of 3.45MiB"), None);
    assert_eq!(percent_text("[info] 45.0% something"), None);
    assert_eq!(percent_text("[download] Destination: /tmp/sunder/x.webm"), None);
    assert_eq!(percent_text(""), None);
    assert_eq!(percent_text("[download"), None);
}

#[test]
fn percent_text_is_trimmed() {
    assert_eq!(percent_text("   [download]   7.5%  ").as_deref(), Some("7.5"));
    assert_eq!(percent_text("[download]%").as_deref(), Some(""));
    assert_eq!(percent_text("[download] 1% then 2%").as_deref(), Some("1"));
    assert_eq!(percent_text("\t[download]\u{a0}33.0\u{3000}% x").as_deref(), Some("33.0"));
}

#[test]
fn conversion_lines() {
    assert!(is_conversion_line("[ExtractAudio] Destination: /tmp/sunder/x.mp3"));
    assert!(is_conversion_line("xx [ExtractAudio]"));
    assert!(!is_conversion_line("[ExtractAudio"));
    assert!(!is_conversion_line(""));
}

#[test]
fn stages() {
    assert_eq!(line_stage("[download]  5.0%", true), Some(ProgressStage::Downloading));
    assert_eq!(line_stage("[download] n/a% [ExtractAudio]", false), Some(ProgressStage::Converting));
    assert_eq!(line_stage("[info] nothing", false), None);
    assert_eq!(ProgressStage::Preparing.name(), "preparing");
    assert_eq!(ProgressStage::Downloading.name(), "downloading");
    assert_eq!(ProgressStage::Converting.name(), "converting");
}
