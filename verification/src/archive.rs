//! Archive classification for the extraction dispatcher.
//!
//! Dispatch is strictly by file extension, never by magic bytes: `.gz`, `.xz`,
//! `.bz2` and `.zst` select their codec over a tar stream, `.tar` selects tar
//! with no outer decompression, and any other extension is reported as
//! unsupported — the caller distinguishes "plain file" from "archive with an
//! unsupported codec" before invoking the extractor at all.

use vstd::prelude::*;

use crate::errors::BuildError;
use crate::text::{ends_with_str, rfind_char, spec_has_suffix, spec_rfind, str_eq};

verus! {

/// The decompression codec selected for a source archive.
#[derive(Clone, Copy, Debug, PartialEq, Eq, Structural)]
pub enum ArchiveKind {
    /// gzip over tar.
    Gzip,
    /// xz over tar.
    Xz,
    /// bzip2 over tar.
    Bzip2,
    /// zstd over tar.
    Zstd,
    /// A bare tar stream.
    Tar,
}

/// The path's final component: everything after the last separator.
pub open spec fn spec_last_component(path: Seq<char>) -> Seq<char> {
    match spec_rfind(path, '/') {
        Some(i) => path.subrange(i + 1, path.len() as int),
        None => path,
    }
}

/// The extension of the path's final component: the characters after its last
/// dot, empty when the component has no dot or begins with its only dot.
pub open spec fn spec_extension(path: Seq<char>) -> Seq<char> {
    let f = spec_last_component(path);
    match spec_rfind(f, '.') {
        Some(i) => if i > 0 {
            f.subrange(i + 1, f.len() as int)
        } else {
            Seq::empty()
        },
        None => Seq::empty(),
    }
}

/// The codec the extractor selects for a path, by extension alone.
pub open spec fn spec_classify(path: Seq<char>) -> Option<ArchiveKind> {
    let e = spec_extension(path);
    if e == "gz"@ {
        Some(ArchiveKind::Gzip)
    } else if e == "xz"@ {
        Some(ArchiveKind::Xz)
    } else if e == "bz2"@ {
        Some(ArchiveKind::Bzip2)
    } else if e == "zst"@ {
        Some(ArchiveKind::Zstd)
    } else if spec_has_suffix(path, ".tar"@) {
        Some(ArchiveKind::Tar)
    } else {
        None
    }
}

/// The path's final component.
pub fn last_component(p: &str) -> (r: String)
    ensures
        r@ == spec_last_component(p@),
{
    match rfind_char(p, '/') {
        Some(i) => {
            let n = p.unicode_len();
            p.substring_char(i + 1, n).to_owned()
        },
        None => p.to_owned(),
    }
}

/// The extension of the path's final component, empty when there is none.
pub fn extension_of(path: &str) -> (r: String)
    ensures
        r@ == spec_extension(path@),
{
    let comp = match rfind_char(path, '/') {
        Some(i) => {
            let n = path.unicode_len();
            path.substring_char(i + 1, n).to_owned()
        },
        None => path.to_owned(),
    };
    match rfind_char(comp.as_str(), '.') {
        Some(i) => {
            if i > 0 {
                let m = comp.as_str().unicode_len();
                comp.as_str().substring_char(i + 1, m).to_owned()
            } else {
                proof {
                    reveal_strlit("");
                    assert(""@ =~= Seq::<char>::empty());
                }
                "".to_owned()
            }
        },
        None => {
            proof {
                reveal_strlit("");
                assert(""@ =~= Seq::<char>::empty());
            }
            "".to_owned()
        },
    }
}

/// Selects the codec for a source path, or reports the extension as
/// unsupported.
///
/// Succeeds exactly on the recognised suffixes; the error carries the
/// offending extension for diagnostics.
pub fn classify_archive(path: &str) -> (r: Result<ArchiveKind, BuildError>)
    ensures
        match spec_classify(path@) {
            Some(k) => r matches Ok(rk) && rk == k,
            None => r matches Err(e) && e matches BuildError::UnsupportedArchiveFormat(x) && x@
                == spec_extension(path@),
        },
{
    let e = extension_of(path);
    if str_eq(e.as_str(), "gz") {
        Ok(ArchiveKind::Gzip)
    } else if str_eq(e.as_str(), "xz") {
        Ok(ArchiveKind::Xz)
    } else if str_eq(e.as_str(), "bz2") {
        Ok(ArchiveKind::Bzip2)
    } else if str_eq(e.as_str(), "zst") {
        Ok(ArchiveKind::Zstd)
    } else if ends_with_str(path, ".tar") {
        Ok(ArchiveKind::Tar)
    } else {
        Err(BuildError::UnsupportedArchiveFormat(e))
    }
}

/// Whether the file name carries one of the archive suffixes the pipeline
/// unpacks after fetching.
pub open spec fn spec_supported_archive(name: Seq<char>) -> bool {
    spec_has_suffix(name, ".tar.gz"@) || spec_has_suffix(name, ".tar.xz"@) || spec_has_suffix(
        name,
        ".tar.bz2"@,
    ) || spec_has_suffix(name, ".tar.zst"@) || spec_has_suffix(name, ".tar"@)
}

/// Whether a fetched file should be unpacked as a source archive.
pub fn is_supported_archive(name: &str) -> (r: bool)
    ensures
        r == spec_supported_archive(name@),
{
    ends_with_str(name, ".tar.gz") || ends_with_str(name, ".tar.xz") || ends_with_str(
        name,
        ".tar.bz2",
    ) || ends_with_str(name, ".tar.zst") || ends_with_str(name, ".tar")
}

} // verus!
