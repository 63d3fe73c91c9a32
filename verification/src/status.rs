//! Names for the status codes of responses.
//!
//! Status 0 is success. Every other status is an error code of the server, and
//! its name is that of the variant of `iggy_common::IggyError` with that code.

use iggy_common::IggyError;
use vstd::prelude::*;

verus! {

/// The name under which `iggy_common::IggyError` knows the error code `code`:
/// the `snake_case` name of the variant with that discriminant, or `None` where
/// no variant has it.
pub uninterp spec fn iggy_error_name(code: u32) -> Option<Seq<char>>;

/// The characters of a name that may be absent.
pub open spec fn name_view(name: Option<&'static str>) -> Option<Seq<char>> {
    match name {
        Some(n) => Some(n@),
        None => None,
    }
}

/// Asks `IggyError::from_repr` for the variant with discriminant `code` and turns
/// it into its static name. That the answer is a function of `code` alone is
/// taken on trust, under the name `iggy_error_name`; nothing is claimed of which
/// codes have a name, nor of what a name is.
#[verifier::external_body]
fn error_name(code: u32) -> (name: Option<&'static str>)
    ensures
        name_view(name) == iggy_error_name(code),
{
    match IggyError::from_repr(code) {
        Some(error) => Some(error.into()),
        None => None,
    }
}

/// The name of `status` where the error table gives `table_name` for it:
/// `OK` for 0, else the table's name, else `unknown`.
pub open spec fn status_label(status: u32, table_name: Option<Seq<char>>) -> Seq<char> {
    if status == 0 {
        "OK"@
    } else {
        match table_name {
            Some(name) => name,
            None => "unknown"@,
        }
    }
}

/// The name of `status`.
pub open spec fn spec_status_name(status: u32) -> Seq<char> {
    status_label(status, iggy_error_name(status))
}

/// Names `status`, given what the error table holds for it.
pub fn label_status(status: u32, table_name: Option<&'static str>) -> (label: &'static str)
    ensures
        label@ == status_label(status, name_view(table_name)),
{
    if status == 0 {
        "OK"
    } else {
        match table_name {
            Some(name) => name,
            None => "unknown",
        }
    }
}

/// Names `status`: `OK` for 0, the error table's name for an error code it
/// knows, `unknown` for any other.
pub fn status_name(status: u32) -> (label: &'static str)
    ensures
        label@ == spec_status_name(status),
{
    if status == 0 {
        "OK"
    } else {
        label_status(status, error_name(status))
    }
}

} // verus!
