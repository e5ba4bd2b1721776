//! Failures of the report pipeline.
use vstd::prelude::*;

verus! {

/// Why a report could not be processed.
#[derive(Debug, Clone, PartialEq, Eq)]
pub enum CsvError {
    /// Writing the output failed; carries the reason.
    Io(String),
    /// The input is not a valid table; carries the reason.
    Parse(String),
    /// The input file does not exist; carries its path.
    NotFound(String),
    /// A required column is absent from the input; carries the column name.
    Schema(String),
}

/// Fails with `NotFound` carrying `path` unless the input file exists.
pub fn require_input(path: &str, exists: bool) -> (r: Result<(), CsvError>)
    ensures
        r is Ok <==> exists,
        !exists ==> (r matches Err(CsvError::NotFound(p)) && p@ == path@),
{
    if exists {
        Ok(())
    } else {
        Err(CsvError::NotFound(String::from_str(path)))
    }
}

} // verus!
