use vstd::prelude::*;
use vstd::string::*;

use crate::error::AppError;

verus! {

/// The cached asset of a track: `<track_id>.mp3` under the cache root.
pub open spec fn cache_name(video_id: Seq<char>) -> Seq<char> {
    video_id + ".mp3"@
}

/// The output template handed to the downloader; after conversion it names `cache_name`.
pub open spec fn template_name(video_id: Seq<char>) -> Seq<char> {
    video_id + ".%(ext)s"@
}

pub open spec fn watch_url_of(video_id: Seq<char>) -> Seq<char> {
    "https://www.youtube.com/watch?v="@ + video_id
}

/// The downloader's arguments: fetch the track, extract its audio, always convert it to
/// mp3 at the given output template, and report progress one line at a time.
pub open spec fn download_args_of(video_id: Seq<char>, template_path: Seq<char>) -> Seq<Seq<char>> {
    seq![
        watch_url_of(video_id),
        "--extract-audio"@,
        "--audio-format"@,
        "mp3"@,
        "--audio-quality"@,
        "2"@,
        "-o"@,
        template_path,
        "--no-playlist"@,
        "--newline"@,
        "--concurrent-fragments"@,
        "4"@,
    ]
}

pub fn cache_file_name(video_id: &str) -> (r: String)
    ensures
        r@ == cache_name(video_id@),
{
    String::from_str(video_id).concat(".mp3")
}

pub fn output_template_name(video_id: &str) -> (r: String)
    ensures
        r@ == template_name(video_id@),
{
    String::from_str(video_id).concat(".%(ext)s")
}

pub fn watch_url(video_id: &str) -> (r: String)
    ensures
        r@ == watch_url_of(video_id@),
{
    String::from_str("https://www.youtube.com/watch?v=").concat(video_id)
}

pub fn download_args(video_id: &str, template_path: &str) -> (r: Vec<String>)
    ensures
        r@.map_values(|a: String| a@) == download_args_of(video_id@, template_path@),
{
    let mut r: Vec<String> = Vec::new();
    r.push(watch_url(video_id));
    r.push(String::from_str("--extract-audio"));
    r.push(String::from_str("--audio-format"));
    r.push(String::from_str("mp3"));
    r.push(String::from_str("--audio-quality"));
    r.push(String::from_str("2"));
    r.push(String::from_str("-o"));
    r.push(String::from_str(template_path));
    r.push(String::from_str("--no-playlist"));
    r.push(String::from_str("--newline"));
    r.push(String::from_str("--concurrent-fragments"));
    r.push(String::from_str("4"));
    assert(r@.map_values(|a: String| a@) =~= download_args_of(video_id@, template_path@));
    r
}

/// How a track's asset is obtained.
#[derive(PartialEq, Eq, Structural, Clone, Copy, Debug)]
pub enum AcquisitionPlan {
    /// The asset is already in the cache: no download is started.
    UseCached,
    /// Run the downloader, then check its exit and its output.
    Download,
}

pub open spec fn plan_of(asset_exists: bool) -> AcquisitionPlan {
    if asset_exists {
        AcquisitionPlan::UseCached
    } else {
        AcquisitionPlan::Download
    }
}

/// The cache check: a present asset is used as it is.
pub fn plan_acquisition(asset_exists: bool) -> (r: AcquisitionPlan)
    ensures
        r == plan_of(asset_exists),
{
    if asset_exists {
        AcquisitionPlan::UseCached
    } else {
        AcquisitionPlan::Download
    }
}

/// Why a finished download is refused, if it is: a non-zero exit (with its status), or a
/// clean exit that left no asset where one was expected.
pub open spec fn download_failure(
    exit_success: bool,
    exit_status: Seq<char>,
    output_exists: bool,
    expected_path: Seq<char>,
) -> Option<Seq<char>> {
    if !exit_success {
        Some("yt-dlp failed ("@ + exit_status + ")"@)
    } else if !output_exists {
        Some("yt-dlp produced no output at "@ + expected_path)
    } else {
        None
    }
}

/// The verdict on a finished download: `exit_status` is the text of the exit status and
/// `output_exists` whether the asset is at `expected_path`.
pub fn download_verdict(
    exit_success: bool,
    exit_status: &str,
    output_exists: bool,
    expected_path: &str,
) -> (r: Result<(), AppError>)
    ensures
        match download_failure(exit_success, exit_status@, output_exists, expected_path@) {
            None => r is Ok,
            Some(m) => r matches Err(AppError::Extraction(t)) && t@ == m,
        },
{
    if !exit_success {
        let m = String::from_str("yt-dlp failed (").concat(exit_status).concat(")");
        Err(AppError::Extraction(m))
    } else if !output_exists {
        let m = String::from_str("yt-dlp produced no output at ").concat(expected_path);
        Err(AppError::Extraction(m))
    } else {
        Ok(())
    }
}

/// The downloader could not be started.
pub fn spawn_error(detail: &str) -> (r: AppError)
    ensures
        r matches AppError::Extraction(t) && t@ == "failed to spawn yt-dlp: "@ + detail@,
{
    AppError::Extraction(String::from_str("failed to spawn yt-dlp: ").concat(detail))
}

/// Waiting for the downloader failed.
pub fn wait_error(detail: &str) -> (r: AppError)
    ensures
        r matches AppError::Extraction(t) && t@ == "yt-dlp wait: "@ + detail@,
{
    AppError::Extraction(String::from_str("yt-dlp wait: ").concat(detail))
}

/// The cached asset could not be decoded.
pub fn decoder_error(detail: &str) -> (r: AppError)
    ensures
        r matches AppError::Audio(t) && t@ == "decoder init failed: "@ + detail@,
{
    AppError::Audio(String::from_str("decoder init failed: ").concat(detail))
}

/// An accepted download leaves the asset in the cache. While nothing deletes it, the next
/// acquisition of the same track is a cache hit: the downloader runs at most once per track.
pub proof fn lemma_accepted_download_is_reused(
    exit_status: Seq<char>,
    output_exists: bool,
    expected_path: Seq<char>,
)
    requires
        download_failure(true, exit_status, output_exists, expected_path) is None,
    ensures
        plan_of(output_exists) == AcquisitionPlan::UseCached,
{
}

} // verus!
