use vstd::prelude::*;

verus! {

/// The fatal conditions that code generation can report. Each variant carries
/// the offending name or literal text, so a caller can produce a message.
#[derive(Debug)]
pub enum CompileError {
    /// A declaration of a name that is already live (including the reserved
    /// temporary colliding with a user name).
    DuplicateVariable(String),
    /// A reference to, deletion of, or marker-pointing to a name that is not
    /// currently live.
    UnknownVariable(String),
    /// A constant, character, or hexadecimal literal that fails to parse.
    MalformedLiteral(String),
}

/// The mathematical form of a `CompileError`: the same variants over
/// character sequences.
pub ghost enum ErrV {
    DuplicateVariable(Seq<char>),
    UnknownVariable(Seq<char>),
    MalformedLiteral(Seq<char>),
}

impl View for CompileError {
    type V = ErrV;

    open spec fn view(&self) -> ErrV {
        match self {
            CompileError::DuplicateVariable(n) => ErrV::DuplicateVariable(n@),
            CompileError::UnknownVariable(n) => ErrV::UnknownVariable(n@),
            CompileError::MalformedLiteral(t) => ErrV::MalformedLiteral(t@),
        }
    }
}

} // verus!
