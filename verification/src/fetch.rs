//! Naming decisions for source acquisition.
//!
//! Fetching itself is an external collaborator (network or local filesystem);
//! the library decides whether a source is remote and under which local file
//! name it is stored.

use vstd::prelude::*;

use crate::archive::{last_component, spec_last_component};
use crate::text::{find_char, rfind_char, spec_find, spec_has_prefix, spec_rfind, starts_with_str};

verus! {

/// True when the source is fetched over HTTP rather than copied from disk.
pub open spec fn spec_remote_source(s: Seq<char>) -> bool {
    spec_has_prefix(s, "http://"@) || spec_has_prefix(s, "https://"@)
}

/// Whether the source string names a remote artifact.
pub fn is_remote_source(source: &str) -> (r: bool)
    ensures
        r == spec_remote_source(source@),
{
    starts_with_str(source, "http://") || starts_with_str(source, "https://")
}

/// The naming rule for a fetched remote source: the part of the URL after its
/// last slash, truncated at the first query separator.
pub open spec fn spec_source_filename(s: Seq<char>) -> Seq<char> {
    let tail = match spec_rfind(s, '/') {
        Some(i) => s.subrange(i + 1, s.len() as int),
        None => s,
    };
    match spec_find(tail, '?') {
        Some(j) => tail.subrange(0, j),
        None => tail,
    }
}

/// The local file name a remote source is stored under: the URL rule's
/// result, or the fallback name when the URL names no file.
pub open spec fn spec_stored_filename(s: Seq<char>) -> Seq<char> {
    if spec_source_filename(s).len() == 0 {
        "downloaded_file"@
    } else {
        spec_source_filename(s)
    }
}

/// The local file name under which a remote source is stored; a URL that
/// names no file (one ending in a slash, or whose last segment is all query)
/// falls back to `downloaded_file`.
pub fn source_filename(source: &str) -> (r: String)
    ensures
        r@ == spec_stored_filename(source@),
{
    let tail = match rfind_char(source, '/') {
        Some(i) => {
            let n = source.unicode_len();
            source.substring_char(i + 1, n).to_owned()
        },
        None => source.to_owned(),
    };
    let name = match find_char(tail.as_str(), '?') {
        Some(j) => {
            proof {
                crate::text::lemma_find_props(tail@, '?');
            }
            tail.as_str().substring_char(0, j).to_owned()
        },
        None => tail,
    };
    if name.as_str().is_empty() {
        "downloaded_file".to_owned()
    } else {
        name
    }
}

/// The local file name of a copied local source: the path's base name, kept
/// exactly (a local file's name is never truncated at a query separator).
pub fn local_source_filename(source: &str) -> (r: String)
    ensures
        r@ == spec_last_component(source@),
{
    last_component(source)
}

} // verus!
