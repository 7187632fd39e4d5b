//! Verified core of a bulk downloader for Internet Archive items.
//!
//! The library models the download pipeline: identifier and URL handling,
//! metadata normalisation, file filtering, session persistence, and the
//! bounded-concurrency download engine with its per-file state machine.
//! Network and file I/O live outside the library; the functions here take
//! plain values and return plain values, with contracts checked by Verus.

pub mod command_handlers;
pub mod compression;
pub mod config;
pub mod constants;
pub mod download_history;
pub mod download_service;
pub mod engine;
pub mod error;
pub mod filters;
pub mod http_client;
pub mod json;
pub mod metadata;
pub mod network;
pub mod metadata_storage;
pub mod strutil;
pub mod url_processing;
pub mod wire;

use vstd::prelude::*;
use crate::error::IaGetError;
use crate::strutil::{chars_to_string, spec_find_from, find_index, str_to_chars};
use crate::url_processing::spec_slash_end;

verus! {

/// The identifier named by a details URL, or the input itself when it holds
/// no `archive.org/details/` marker and is taken as a bare identifier.
pub open spec fn spec_loose_identifier(url: Seq<char>) -> Seq<char> {
    let d = spec_find_from(url, "archive.org/details/"@, 0);
    if d == -1 {
        url
    } else {
        let b = d + 20;
        let e = spec_slash_end(url, b);
        url.subrange(b, e)
    }
}

/// Reads the identifier out of a details URL; any other input is assumed to
/// be an identifier already and comes back unchanged.
pub fn extract_identifier_from_url(url: &str) -> (r: Result<String, IaGetError>)
    ensures
        r matches Ok(id) && id@ == spec_loose_identifier(url@),
{
    let v = str_to_chars(url);
    let needle = str_to_chars("archive.org/details/");
    proof {
        reveal_strlit("archive.org/details/");
        assert(needle@.len() == 20);
    }
    match find_index(&v, &needle) {
        Some(d) => {
            proof {
                crate::url_processing::lemma_find_from_in_range(v@, needle@, 0);
                assert(v@.len() == v.len());
            }
            let b = d + 20;
            let e = crate::url_processing::slash_end_exec(&v, b);
            let mut id: Vec<char> = Vec::new();
            let mut i: usize = b;
            while i < e
                invariant
                    b <= i <= e,
                    e <= v.len(),
                    id@ == v@.subrange(b as int, i as int),
                decreases e - i,
            {
                id.push(v[i]);
                i = i + 1;
                proof {
                    assert(id@ =~= v@.subrange(b as int, i as int));
                }
            }
            Ok(chars_to_string(&id))
        },
        None => Ok(String::from_str(url)),
    }
}

} // verus!
