//! Container streams for the hand-built Debian emitter.
//!
//! The gzip-compressed tar streams and the outer `ar` archive are produced by
//! external collaborators (`tar`, `flate2`, `ar`) writing into in-memory
//! buffers. The entries appended to each stream are tracked as a sequence, and
//! the finished byte stream is named as an uninterpreted function of exactly
//! that sequence: every header field the wrappers set (mode, zero mtime, zero
//! owner) is fixed, so equal entry sequences give equal bytes.

use vstd::prelude::*;

use crate::text::{lemma_find_none, spec_split};

verus! {

/// An in-progress gzip-compressed tar stream writing into memory.
///
/// Holds the collaborating `tar` builder over a `flate2` encoder; the struct
/// is opaque to the verifier, which sees the stream only through
/// [`targz_contents`].
#[verifier::external_body]
pub struct TarGzStream {
    inner: tar::Builder<flate2::write::GzEncoder<Vec<u8>>>,
}

/// An in-progress `ar` archive writing into memory.
///
/// Holds the collaborating `ar` builder; the verifier sees the archive only
/// through [`ar_contents`].
#[verifier::external_body]
pub struct ArArchive {
    inner: ar::Builder<Vec<u8>>,
}

/// One tar entry: path, permission mode, whether it is a directory, and its
/// bytes (empty for a directory).
pub type TarEntry = (Seq<char>, u32, bool, Seq<u8>);

/// True when the tar stream accepts a path: its first slash-separated segment
/// is an ordinary name (non-empty, not `.` or `..`), no segment is the parent
/// directory, and no character is a NUL. Such a path is relative, names at
/// least one component, and long forms of it go through the long-name
/// extension, so appending it cannot fail.
pub open spec fn spec_tar_path_ok(p: Seq<char>) -> bool {
    let pieces = spec_split(p, '/');
    &&& pieces[0].len() > 0
    &&& pieces[0] != "."@
    &&& (forall|i: int| 0 <= i < pieces.len() ==> #[trigger] pieces[i] != ".."@)
    &&& (forall|i: int| 0 <= i < p.len() ==> p[i] != '\u{0}')
}

/// A non-empty name without separators, NULs, or a leading-dot reading is a
/// path the tar stream accepts.
pub proof fn lemma_plain_name_tar_ok(p: Seq<char>)
    requires
        p.len() > 0,
        p != "."@,
        p != ".."@,
        forall|i: int| 0 <= i < p.len() ==> p[i] != '/' && p[i] != '\u{0}',
    ensures
        spec_tar_path_ok(p),
{
    lemma_find_none(p, '/');
    assert(spec_split(p, '/') == seq![p]);
    assert(spec_split(p, '/')[0] == p);
    assert(forall|i: int| 0 <= i < 1 ==> #[trigger] spec_split(p, '/')[i] != ".."@);
}

/// The entries appended so far to a gzip-compressed tar stream, in order.
pub uninterp spec fn targz_contents(b: TarGzStream) -> Seq<TarEntry>;

/// The finished gzip-compressed tar stream holding exactly these entries, in
/// this order, with zeroed timestamps and ownership.
pub uninterp spec fn targz_bytes(entries: Seq<TarEntry>) -> Seq<u8>;

/// The members appended so far to an `ar` archive, in order: identifier and
/// bytes.
pub uninterp spec fn ar_contents(b: ArArchive) -> Seq<(Seq<char>, Seq<u8>)>;

/// The finished `ar` archive holding exactly these members, in this order,
/// with zeroed timestamps and ownership.
pub uninterp spec fn ar_bytes(members: Seq<(Seq<char>, Seq<u8>)>) -> Seq<u8>;

/// Relies on tar::Builder::new over a fresh flate2 gzip encoder (default
/// level, zero mtime in the gzip header): a new stream holds no entries.
#[verifier::external_body]
pub(crate) fn targz_new() -> (b: TarGzStream)
    ensures
        targz_contents(b) == Seq::<TarEntry>::empty(),
{
    TarGzStream {
        inner: tar::Builder::new(
            flate2::write::GzEncoder::new(Vec::new(), flate2::Compression::default()),
        ),
    }
}

/// Relies on tar::Builder::append_data with a GNU header whose size, mode and
/// checksum are set and whose mtime and ownership are zero: on success the
/// stream gains exactly one regular-file entry at the end. Into an in-memory
/// buffer the only failures are path failures (an empty, absolute,
/// NUL-holding or parent-directory path), so an accepted path always
/// succeeds.
#[verifier::external_body]
pub(crate) fn targz_append_file(b: &mut TarGzStream, path: &String, mode: u32, data: &Vec<u8>) -> (ok:
    bool)
    ensures
        ok ==> targz_contents(*final(b)) == targz_contents(*old(b)).push((path@, mode, false, data@)),
        spec_tar_path_ok(path@) ==> ok,
{
    let mut header = tar::Header::new_gnu();
    header.set_size(data.len() as u64);
    header.set_mode(mode);
    header.set_mtime(0);
    b.inner.append_data(&mut header, path.as_str(), data.as_slice()).is_ok()
}

/// Relies on tar::Builder::append_data with a GNU directory header (zero size,
/// zero mtime and ownership): on success the stream gains exactly one
/// directory entry at the end; an accepted path always succeeds, as for a
/// regular file.
#[verifier::external_body]
pub(crate) fn targz_append_dir(b: &mut TarGzStream, path: &String, mode: u32) -> (ok: bool)
    ensures
        ok ==> targz_contents(*final(b)) == targz_contents(*old(b)).push(
            (path@, mode, true, Seq::<u8>::empty()),
        ),
        spec_tar_path_ok(path@) ==> ok,
{
    let mut header = tar::Header::new_gnu();
    header.set_entry_type(tar::EntryType::dir());
    header.set_size(0);
    header.set_mode(mode);
    header.set_mtime(0);
    b.inner.append_data(&mut header, path.as_str(), &[] as &[u8]).is_ok()
}

/// Relies on tar::Builder::into_inner (writes the terminating blocks) and
/// flate2's GzEncoder::finish: the finished stream's bytes, a function of the
/// appended entries alone. Both steps only write into the in-memory buffer,
/// which cannot refuse a write, so finishing never fails.
#[verifier::external_body]
pub(crate) fn targz_finish(b: TarGzStream) -> (r: Option<Vec<u8>>)
    ensures
        r is Some,
        r matches Some(bytes) ==> bytes@ == targz_bytes(targz_contents(b)),
{
    match b.inner.into_inner() {
        Ok(enc) => match enc.finish() {
            Ok(v) => Some(v),
            Err(_) => None,
        },
        Err(_) => None,
    }
}

/// Relies on ar::Builder::new: a new archive holds no members.
#[verifier::external_body]
pub(crate) fn ar_new() -> (b: ArArchive)
    ensures
        ar_contents(b) == Seq::<(Seq<char>, Seq<u8>)>::empty(),
{
    ArArchive { inner: ar::Builder::new(Vec::new()) }
}

/// Relies on ar::Builder::append with a header whose mtime, ownership and mode
/// are zero and whose size is the data's length: the archive gains exactly
/// one member at the end. Into an in-memory buffer this cannot fail: long or
/// space-holding identifiers go through the extended-identifier form, the
/// copied length always equals the header size, and the buffer cannot refuse
/// a write.
#[verifier::external_body]
pub(crate) fn ar_append(b: &mut ArArchive, name: &String, data: &Vec<u8>) -> (ok: bool)
    ensures
        ok,
        ok ==> ar_contents(*final(b)) == ar_contents(*old(b)).push((name@, data@)),
{
    let header = ar::Header::new(name.as_bytes().to_vec(), data.len() as u64);
    b.inner.append(&header, data.as_slice()).is_ok()
}

/// Relies on ar::Builder::into_inner, which merely hands the buffer back and
/// cannot fail: the finished archive's bytes, a function of the appended
/// members alone.
#[verifier::external_body]
pub(crate) fn ar_finish(b: ArArchive) -> (r: Option<Vec<u8>>)
    ensures
        r is Some,
        r matches Some(bytes) ==> bytes@ == ar_bytes(ar_contents(b)),
{
    match b.inner.into_inner() {
        Ok(v) => Some(v),
        Err(_) => None,
    }
}

} // verus!
