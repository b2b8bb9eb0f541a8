use vstd::prelude::*;

verus! {

/// Why a load stops.
#[derive(Debug)]
pub enum PccError {
    /// A descriptor line holds no `:`.
    MalformedLine,
    /// A descriptor line names a directive that the schema does not know.
    UnknownDirective(String),
    /// A list or descriptor path is empty.
    EmptyPathToken,
    /// A descriptor path names no file inside a directory.
    NoParentDir,
    /// Records were offered under a directive that does not name list files.
    NotAList(String),
}

} // verus!
