//! A format-string-directed variadic log decoder.
//!
//! A C-style `printf` template is the only type information available for the
//! variadic arguments of a logged event. The classifier walks the template,
//! recognises each conversion specifier (with an optional `l` length
//! modifier), and emits an index-aligned list of argument-kind tags and
//! literal segments. The composer then interleaves the literal segments with
//! the rendered argument values into one length-bounded message, dropping
//! whole appends that would overflow the fixed capacity rather than
//! truncating or panicking.

use vstd::prelude::*;

pub mod classify;
pub mod compose;
pub mod cursor;
pub mod render;

pub use classify::ArgType;
pub use classify::MAX_SPECIFIERS;
pub use classify::Segment;
pub use classify::Tag;
pub use classify::extract_types;
pub use compose::ArgValue;
pub use compose::MAX_MESSAGE_LEN;
pub use compose::compose;
pub use compose::decode_message;
pub use cursor::DoublePeekIterator;

verus! {

/// The four ordered severity levels a decoded event can carry,
/// from least to most severe.
#[derive(Debug, Clone, Copy, PartialEq, Eq, Structural)]
pub enum Level {
    Trace,
    Debug,
    Warn,
    Error,
}

impl Level {
    /// Maps the numeric level code used at the logging boundary
    /// (0 = trace, 1 = debug, 2 = warn, 3 = error) to a severity level.
    pub fn from_code(code: u8) -> (r: Option<Level>)
        ensures
            r == (match code {
                0u8 => Some(Level::Trace),
                1u8 => Some(Level::Debug),
                2u8 => Some(Level::Warn),
                3u8 => Some(Level::Error),
                _ => None::<Level>,
            }),
    {
        match code {
            0 => Some(Level::Trace),
            1 => Some(Level::Debug),
            2 => Some(Level::Warn),
            3 => Some(Level::Error),
            _ => None,
        }
    }
}

} // verus!
