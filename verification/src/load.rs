//! What loading a content tree decides: whether the name of a directory
//! entry can be a node's name.

use vstd::prelude::*;
use vstd::string::*;
use vstd::utf8::*;
use crate::error::{Failure, SiteError};
use crate::page::decode_text;

verus! {

/// The name of a directory entry, from the bytes of its file name. A name
/// that is not valid UTF-8 is refused, and the failure reports `shown_path`,
/// the path of the entry as it can be shown.
pub fn entry_name(raw: &[u8], shown_path: &str) -> (r: Result<String, SiteError>)
    ensures
        match r {
            Ok(name) => valid_utf8(raw@) && name@ == decode_utf8(raw@),
            Err(e) => !valid_utf8(raw@) && e@ == (Failure::InvalidName { path: shown_path@ }),
        },
{
    match decode_text(raw) {
        Some(name) => Ok(name.to_owned()),
        None => Err(SiteError::InvalidName { path: shown_path.to_owned() }),
    }
}

} // verus!
