//! Where a job writes before its output is moved into place.
use crate::error::{AppError, JOB_OUTPUT_INVALID};
use vstd::prelude::*;
use vstd::string::*;

verus! {

/// The final component of a path, as `Path::file_name` gives it.
pub uninterp spec fn path_file_name(p: Seq<char>) -> Option<Seq<char>>;

/// A path with its final component replaced, as `Path::with_file_name` gives it.
pub uninterp spec fn path_with_file_name(p: Seq<char>, name: Seq<char>) -> Option<Seq<char>>;

/// Relies on `Path::file_name` (and `OsStr::to_str`): the final component of
/// `path`, if it has one that is text.
#[verifier::external_body]
fn file_name_of(path: &str) -> (r: Option<String>)
    ensures
        r matches Some(s) ==> path_file_name(path@) == Some(s@),
        r is None ==> path_file_name(path@) is None,
{
    std::path::Path::new(path).file_name().and_then(|n| n.to_str()).map(|n| n.to_string())
}

/// Relies on `Path::with_file_name` (and `Path::to_str`): `path` with its final
/// component replaced by `name`, if the result is text.
#[verifier::external_body]
fn replace_file_name(path: &str, name: &str) -> (r: Option<String>)
    ensures
        r matches Some(s) ==> path_with_file_name(path@, name@) == Some(s@),
        r is None ==> path_with_file_name(path@, name@) is None,
{
    std::path::Path::new(path).with_file_name(name).to_str().map(|s| s.to_string())
}

/// The name of the temporary file beside the output: the output's file name
/// with `.tmp` appended, or `output.tmp` when the path has no file name.
pub open spec fn temp_name(output: Seq<char>) -> Seq<char> {
    match path_file_name(output) {
        Some(n) => n + ".tmp"@,
        None => "output.tmp"@,
    }
}

/// The sibling temporary path of `output_path`; an error where that path is
/// not text.
pub fn temp_path_for(output_path: &str) -> (r: Result<String, AppError>)
    ensures
        r matches Ok(t) ==> path_with_file_name(output_path@, temp_name(output_path@)) == Some(t@),
        r is Err <==> path_with_file_name(output_path@, temp_name(output_path@)) is None,
        r matches Err(e) ==> e.code == JOB_OUTPUT_INVALID,
{
    let name = match file_name_of(output_path) {
        Some(n) => n.concat(".tmp"),
        None => String::from_str("output.tmp"),
    };
    match replace_file_name(output_path, name.as_str()) {
        Some(t) => Ok(t),
        None => Err(
            AppError {
                code: JOB_OUTPUT_INVALID,
                message: String::from_str("Output path contains invalid UTF-8"),
            },
        ),
    }
}

} // verus!
