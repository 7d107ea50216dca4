use vstd::prelude::*;
use vstd::string::*;

use crate::acquisition::{watch_url, watch_url_of};

verus! {

/// The decimal digits of `n`, most significant first, without leading zeros.
pub open spec fn decimal_of(n: nat) -> Seq<char>
    decreases n,
{
    if n < 10 {
        seq![digit_char(n)]
    } else {
        decimal_of(n / 10) + seq![digit_char(n % 10)]
    }
}

pub open spec fn digit_char(d: nat) -> char {
    if d == 0 { '0' } else if d == 1 { '1' } else if d == 2 { '2' } else if d == 3 { '3' }
    else if d == 4 { '4' } else if d == 5 { '5' } else if d == 6 { '6' } else if d == 7 { '7' }
    else if d == 8 { '8' } else { '9' }
}

/// Relies on `usize`'s `Display` (through `to_string`): the decimal digits of the number.
#[verifier::external_body]
fn decimal(n: usize) -> (r: String)
    ensures
        r@ == decimal_of(n as nat),
{
    n.to_string()
}

/// The metadata resolver: the downloader binary, queried for search results and for the
/// metadata of one track.
pub struct Extractor {
    bin: String,
}

/// The search query handed to the downloader: `ytsearch<limit>:<query>`.
pub open spec fn search_target(query: Seq<char>, limit: nat) -> Seq<char> {
    "ytsearch"@ + decimal_of(limit) + ":"@ + query
}

pub open spec fn search_args_of(query: Seq<char>, limit: nat) -> Seq<Seq<char>> {
    seq![
        search_target(query, limit),
        "--dump-json"@,
        "--flat-playlist"@,
        "--no-warnings"@,
        "--ignore-errors"@,
    ]
}

pub open spec fn metadata_args_of(video_id: Seq<char>) -> Seq<Seq<char>> {
    seq![watch_url_of(video_id), "-j"@, "--no-playlist"@, "--no-warnings"@]
}

impl View for Extractor {
    type V = Seq<char>;

    closed spec fn view(&self) -> Seq<char> {
        self.bin@
    }
}

impl Extractor {
    /// An extractor that runs the downloader binary `bin`.
    pub fn new(bin: String) -> (r: Extractor)
        ensures
            r@ == bin@,
    {
        Extractor { bin }
    }

    /// The downloader binary.
    pub fn bin(&self) -> (r: &str)
        ensures
            r@ == self@,
    {
        self.bin.as_str()
    }

    /// Arguments for a search of at most `limit` results, one JSON object per line.
    pub fn search_args(&self, query: &str, limit: usize) -> (r: Vec<String>)
        ensures
            r@.map_values(|a: String| a@) == search_args_of(query@, limit as nat),
    {
        let target = String::from_str("ytsearch").concat(decimal(limit).as_str()).concat(":").concat(
            query,
        );
        let mut r: Vec<String> = Vec::new();
        r.push(target);
        r.push(String::from_str("--dump-json"));
        r.push(String::from_str("--flat-playlist"));
        r.push(String::from_str("--no-warnings"));
        r.push(String::from_str("--ignore-errors"));
        assert(r@.map_values(|a: String| a@) =~= search_args_of(query@, limit as nat));
        r
    }

    /// Arguments for the metadata of one track, as one JSON object.
    pub fn metadata_args(&self, video_id: &str) -> (r: Vec<String>)
        ensures
            r@.map_values(|a: String| a@) == metadata_args_of(video_id@),
    {
        let mut r: Vec<String> = Vec::new();
        r.push(watch_url(video_id));
        r.push(String::from_str("-j"));
        r.push(String::from_str("--no-playlist"));
        r.push(String::from_str("--no-warnings"));
        assert(r@.map_values(|a: String| a@) =~= metadata_args_of(video_id@));
        r
    }
}

} // verus!
