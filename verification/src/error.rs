//! The errors that the library reports.

use vstd::prelude::*;
use vstd::string::*;

verus! {

/// Why an evolution, or a replacement in a source text, could not be made.
#[derive(Debug, Clone, PartialEq, Eq)]
pub enum EvolutionError {
    /// The JSON sample is not well formed; the message is the reader's.
    InvalidJson { message: String },
    /// The source text is not well formed; the message is the parser's.
    InvalidSource { message: String },
    /// Two of the declarations to replace overlap.
    OverlappingDefinitions,
    /// A declaration to replace does not lie inside the source text.
    SpanOutOfRange,
}

impl EvolutionError {
    /// The error as a line of text.
    pub fn message(&self) -> (r: String)
        ensures
            match self {
                EvolutionError::InvalidJson { message } => r@ == "JSON parsing error: "@
                    + message@,
                EvolutionError::InvalidSource { message } => r@ == "Rust parsing error: "@
                    + message@,
                EvolutionError::OverlappingDefinitions => r@
                    == "Overlapping type definitions detected"@,
                EvolutionError::SpanOutOfRange => r@
                    == "Type definition outside of the source text"@,
            },
    {
        match self {
            EvolutionError::InvalidJson { message } => crate::text::concat2(
                "JSON parsing error: ",
                message.as_str(),
            ),
            EvolutionError::InvalidSource { message } => crate::text::concat2(
                "Rust parsing error: ",
                message.as_str(),
            ),
            EvolutionError::OverlappingDefinitions => String::from_str(
                "Overlapping type definitions detected",
            ),
            EvolutionError::SpanOutOfRange => String::from_str(
                "Type definition outside of the source text",
            ),
        }
    }
}

} // verus!
