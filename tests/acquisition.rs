use sunder::acquisition::{
    cache_file_name, decoder_error, download_args, download_verdict, output_template_name,
    spawn_error, wait_error, watch_url,
};
use sunder::error::AppError;

#[test]
fn cache_names() {
    assert_eq!(cache_file_name("dQw4w9WgXcQ"), "dQw4w9WgXcQ.mp3");
    assert_eq!(output_template_name("dQw4w9WgXcQ"), "dQw4w9WgXcQ.%(ext)s");
    assert_eq!(watch_url("abc"), "https://www.youtube.com/watch?v=abc");
}

#[test]
fn download_arguments() {
    let args = download_args("abc", "/tmp/sunder/abc.%(ext)s");
    let expected = vec![
        "https://www.youtube.com/watch?v=abc",
        "--extract-audio",
        "--audio-format",
        "mp3",
        "--audio-quality",
        "2",
        "-o",
        "/tmp/sunder/abc.%(ext)s",
        "--no-playlist",
        "--newline",
        "--concurrent-fragments",
        "4",
    ];
    assert_eq!(args, expected);
}

#[test]
fn verdict_missing_output() {
    match download_verdict(true, "exit status: 0", false, "/tmp/sunder/x.mp3") {
        Err(AppError::Extraction(m)) => assert_eq!(m, "yt-dlp produced no output at /tmp/sunder/x.mp3"),
        other => panic!("unexpected {:?}", other),
    }
    assert!(download_verdict(true, "exit status: 0", true, "/tmp/sunder/x.mp3").is_ok());
}

#[test]
fn error_texts() {
    assert_eq!(AppError::Audio("x".to_string()).to_text(), "audio: x");
    assert_eq!(AppError::Database("x".to_string()).to_text(), "database: x");
    assert_eq!(AppError::Extraction("x".to_string()).to_text(), "extraction: x");
    assert_eq!(AppError::Io("x".to_string()).to_text(), "io: x");
    assert_eq!(spawn_error("not found").to_text(), "extraction: failed to spawn yt-dlp: not found");
    assert_eq!(wait_error("broken").to_text(), "extraction: yt-dlp wait: broken");
    assert_eq!(decoder_error("bad header").to_text(), "audio: decoder init failed: bad header");
}
