use vstd::prelude::*;

verus! {

/// The three unrecoverable conditions of a translation run.  Any of them
/// aborts the whole pipeline: there is no partial output and no recovery.
#[derive(Debug, Clone, Copy, PartialEq, Eq, Structural)]
pub enum RudError {
    /// The character under the cursor matches no lexical rule.
    ScanFailure,
    /// A string literal lacks its closing quote before the buffer ends.
    UnterminatedLiteral,
    /// A token run does not match the one recognized syntactic shape.
    ShapeMismatch,
}

} // verus!
