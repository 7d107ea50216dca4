use vstd::prelude::*;
use vstd::string::*;

verus! {

/// Why a playback attempt or a catalog operation failed. Each variant carries the
/// text of the underlying failure.
#[derive(Debug, Clone)]
pub enum AppError {
    Audio(String),
    Database(String),
    Extraction(String),
    Io(String),
}

impl AppError {
    /// The diagnostic of this error: its kind, a colon and the underlying text.
    pub open spec fn text(&self) -> Seq<char> {
        match self {
            AppError::Audio(m) => "audio: "@ + m@,
            AppError::Database(m) => "database: "@ + m@,
            AppError::Extraction(m) => "extraction: "@ + m@,
            AppError::Io(m) => "io: "@ + m@,
        }
    }

    pub fn to_text(&self) -> (r: String)
        ensures
            r@ == self.text(),
    {
        match self {
            AppError::Audio(m) => String::from_str("audio: ").concat(m.as_str()),
            AppError::Database(m) => String::from_str("database: ").concat(m.as_str()),
            AppError::Extraction(m) => String::from_str("extraction: ").concat(m.as_str()),
            AppError::Io(m) => String::from_str("io: ").concat(m.as_str()),
        }
    }

    /// The diagnostic is never empty, whatever the underlying text.
    pub proof fn lemma_text_nonempty(&self)
        ensures
            self.text().len() > 0,
    {
        reveal_strlit("audio: ");
        reveal_strlit("database: ");
        reveal_strlit("extraction: ");
        reveal_strlit("io: ");
    }
}

} // verus!
