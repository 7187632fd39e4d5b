//! The metadata endpoint for an item given by URL or identifier.

use vstd::prelude::*;
use crate::url_processing::{construct_metadata_url, extract_identifier_from_url, spec_extract_id};

verus! {

/// The metadata API URL for a details URL; an input from which no identifier
/// can be read is returned unchanged.
pub fn get_json_url(url: &str) -> (r: String)
    ensures
        match spec_extract_id(url@) {
            Some(id) => r@ == "https://archive.org/metadata/"@ + id,
            None => r@ == url@,
        },
{
    match extract_identifier_from_url(url) {
        Ok(id) => construct_metadata_url(id.as_str()),
        Err(_) => String::from_str(url),
    }
}

} // verus!
