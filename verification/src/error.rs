//! Load errors.  Every error is fatal to the whole load: no partial scene is
//! ever returned.  Line numbers are 1-based and best-effort.

use vstd::prelude::*;

verus! {

/// Spec-level value of a load error.
pub enum ErrV {
    /// A field failed numeric parsing, an expected field was missing, or a
    /// polygon referenced a vertex index outside its object's vertices.
    MalformedLine { line: Seq<char>, lineno: int },
    /// End of input was reached while a block was still open.
    TruncatedFile { lineno: int },
    /// A polygon record had a field count other than 3 or 4.
    UnsupportedPolygon { line: Seq<char>, lineno: int },
    /// A `parent` reference named an object absent from the final collection.
    UnresolvedParent { child: Seq<char>, parent: Seq<char> },
    /// The source file could not be opened or read.
    IoFailure { path: Seq<char> },
}

/// A fatal load error, carrying the offending line verbatim where one
/// applies and a best-effort 1-based line number.
#[derive(Clone, Debug, PartialEq, Eq)]
pub enum ParseError {
    MalformedLine { line: String, lineno: usize },
    TruncatedFile { lineno: usize },
    UnsupportedPolygon { line: String, lineno: usize },
    UnresolvedParent { child: String, parent: String },
    IoFailure { path: String },
}

impl View for ParseError {
    type V = ErrV;

    open spec fn view(&self) -> ErrV {
        match self {
            ParseError::MalformedLine { line, lineno } => ErrV::MalformedLine {
                line: line@,
                lineno: *lineno as int,
            },
            ParseError::TruncatedFile { lineno } => ErrV::TruncatedFile { lineno: *lineno as int },
            ParseError::UnsupportedPolygon { line, lineno } => ErrV::UnsupportedPolygon {
                line: line@,
                lineno: *lineno as int,
            },
            ParseError::UnresolvedParent { child, parent } => ErrV::UnresolvedParent {
                child: child@,
                parent: parent@,
            },
            ParseError::IoFailure { path } => ErrV::IoFailure { path: path@ },
        }
    }
}

} // verus!
