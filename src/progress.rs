use vstd::prelude::*;
use vstd::string::*;

use crate::text::{chars_of, occurs, occurs_at, occurs_in, trim_white_space, trimmed};

verus! {

/// The marker that opens a download-progress line.
pub open spec fn download_marker() -> Seq<char> {
    "[download]"@
}

/// The marker of a line that announces the conversion stage.
pub open spec fn conversion_marker() -> Seq<char> {
    "[ExtractAudio]"@
}

/// `i` is the first position of `c` in `s`.
pub open spec fn is_first_index(s: Seq<char>, c: char, i: int) -> bool {
    &&& 0 <= i < s.len()
    &&& s[i] == c
    &&& forall|j: int| 0 <= j < i ==> s[j] != c
}

/// The text of a download-progress line that stands for its percentage: the line is
/// trimmed, must open with the download marker, and the rest must hold a `%`; the text
/// is what precedes the first `%`, trimmed.
pub open spec fn percent_text_of(line: Seq<char>) -> Option<Seq<char>> {
    let t = trimmed(line);
    let m = download_marker();
    if t.len() >= m.len() && t.take(m.len() as int) == m {
        let rest = t.skip(m.len() as int);
        if exists|i: int| is_first_index(rest, '%', i) {
            let i = choose|i: int| is_first_index(rest, '%', i);
            Some(trimmed(rest.take(i)))
        } else {
            None
        }
    } else {
        None
    }
}

/// A line that, once trimmed, does not open with the download marker, or holds no `%`,
/// reports no percentage.
pub proof fn lemma_unmarked_line_reports_nothing(line: Seq<char>)
    requires
        !(trimmed(line).len() >= download_marker().len() && trimmed(line).take(
            download_marker().len() as int,
        ) == download_marker()) || !trimmed(line).contains('%'),
    ensures
        percent_text_of(line) is None,
{
    let t = trimmed(line);
    let m = download_marker().len() as int;
    if t.len() >= m && t.take(m) == download_marker() {
        let rest = t.skip(m);
        assert forall|i: int| !is_first_index(rest, '%', i) by {
            if is_first_index(rest, '%', i) {
                assert(t[m + i] == '%');
            }
        };
    }
}

/// The percentage text of a download-progress line, or `None` for any other line.
/// The caller reads the number from this text; a line whose text is not a number is
/// no progress either.
pub fn percent_text(line: &str) -> (r: Option<String>)
    ensures
        match percent_text_of(line@) {
            None => r is None,
            Some(t) => r matches Some(s) && s@ == t,
        },
{
    let t = trim_white_space(line);
    let tc = chars_of(t);
    let marker = chars_of("[download]");
    proof {
        reveal_strlit("[download]");
    }
    let m = marker.len();
    if tc.len() < m {
        return None;
    }
    let opens = occurs_at(&marker, &tc, 0);
    assert(tc@.take(m as int) =~= tc@.subrange(0, m as int));
    if !opens {
        return None;
    }
    let ghost rest = t@.skip(m as int);
    let n = tc.len();
    let mut k: usize = m;
    while k < n
        invariant
            n == tc@.len(),
            tc@ == t@,
            t@ == trimmed(line@),
            m == download_marker().len(),
            m <= t@.len(),
            t@.take(m as int) == download_marker(),
            rest == t@.skip(m as int),
            m <= k <= n,
            forall|j: int| 0 <= j < k - m ==> rest[j] != '%',
        decreases n - k,
    {
        if tc[k] == '%' {
            let ghost i = k - m;
            proof {
                assert(is_first_index(rest, '%', i));
                let c = choose|c: int| is_first_index(rest, '%', c);
                assert(c == i) by {
                    if c < i {
                        assert(rest[c] != '%');
                    } else if c > i {
                        assert(rest[i as int] != '%');
                    }
                };
            }
            let digits = t.substring_char(m, k);
            assert(digits@ =~= rest.take(i));
            let text = trim_white_space(digits);
            assert(percent_text_of(line@) == Some(trimmed(rest.take(i))));
            return Some(String::from_str(text));
        }
        k = k + 1;
    }
    assert forall|i: int| !is_first_index(rest, '%', i) by {
        if 0 <= i < rest.len() {
            assert(rest[i] == tc@[m + i]);
        }
    };
    None
}

/// Whether the line announces the conversion stage.
pub fn is_conversion_line(line: &str) -> (r: bool)
    ensures
        r == occurs_in(conversion_marker(), line@),
{
    let s = chars_of(line);
    let p = chars_of("[ExtractAudio]");
    occurs(&p, &s)
}

/// The stage that a `download-progress` event reports.
#[derive(PartialEq, Eq, Structural, Clone, Copy, Debug)]
pub enum ProgressStage {
    Preparing,
    Downloading,
    Converting,
}

impl ProgressStage {
    pub open spec fn name_of(self) -> Seq<char> {
        match self {
            ProgressStage::Preparing => "preparing"@,
            ProgressStage::Downloading => "downloading"@,
            ProgressStage::Converting => "converting"@,
        }
    }

    pub fn name(&self) -> (r: String)
        ensures
            r@ == self.name_of(),
    {
        match self {
            ProgressStage::Preparing => String::from_str("preparing"),
            ProgressStage::Downloading => String::from_str("downloading"),
            ProgressStage::Converting => String::from_str("converting"),
        }
    }
}

/// The stage that a line of the downloader's diagnostics reports, given whether its
/// percentage text read as a number: a percentage wins over the conversion marker,
/// and any other line reports nothing.
pub fn line_stage(line: &str, percent_read: bool) -> (r: Option<ProgressStage>)
    ensures
        r == (if percent_read {
            Some(ProgressStage::Downloading)
        } else if occurs_in(conversion_marker(), line@) {
            Some(ProgressStage::Converting)
        } else {
            None::<ProgressStage>
        }),
{
    if percent_read {
        Some(ProgressStage::Downloading)
    } else if is_conversion_line(line) {
        Some(ProgressStage::Converting)
    } else {
        None
    }
}

} // verus!
