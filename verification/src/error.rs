//! Error kinds shared by the whole library.
use vstd::prelude::*;
use crate::sqpath::SqPathBuf;

verus! {

/// Every failure the library reports.
#[derive(Debug)]
pub enum LastLegendError {
    /// A logical path whose category or expansion segment is unknown.
    InvalidSqPath(String),
    /// A hash that is absent from an index; carries the path and the index file.
    MissingEntryFromIndex(SqPathBuf, String),
    /// A catch-all with a plain message.
    Custom(String),
    /// Additional context wrapped around an inner error.
    LastLegend(String, Box<LastLegendError>),
    /// An I/O failure described by a plain message.
    Io(String),
    /// A magic, enum value or structural invariant that does not hold.
    InvalidFormat(String),
    /// An entry whose content type the streaming path does not support;
    /// carries the content type code.
    UnsupportedContentType(u32),
    /// A failure of the external audio transcoder.
    FFMPEG(String),
}

impl LastLegendError {
    /// Wrap this error with one line of context.
    pub fn add_context(self, message: String) -> (r: Self)
        ensures
            r == LastLegendError::LastLegend(message, Box::new(self)),
    {
        LastLegendError::LastLegend(message, Box::new(self))
    }
}

} // verus!
