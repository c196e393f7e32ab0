//! The hand-built Debian container emitter.
//!
//! Every part of the `.deb` is assembled in memory from the description and
//! the staged entries: the `control` file with its fixed field order, the
//! `postrm` maintainer script, `debian-binary`, the `md5sums` record of every
//! shipped regular file, the two gzip-compressed tar streams, and the outer
//! `ar` container with its three members in the fixed order `debian-binary`,
//! `control.tar.gz`, `data.tar.gz` — an order the consuming package manager
//! requires.

use vstd::prelude::*;
use vstd::utf8::encode_utf8;

use crate::containers::{
    ar_append, ar_bytes, ar_finish, ar_new, lemma_plain_name_tar_ok, spec_tar_path_ok,
    targz_append_dir, targz_append_file, targz_bytes, targz_contents, targz_finish, targz_new,
    TarEntry,
};
use crate::errors::BuildError;
use crate::hashes::{hex_encode, hex_of, md5_digest, md5_of};
use crate::metadata::{Metadata, MetaView};
use crate::text::{
    contains_string, join_list, spec_has_prefix, spec_join, spec_list_contains, starts_with_str,
    str_eq,
};

verus! {

/// One entry of the finished staging tree, as the tree walk reports it:
/// staging-relative path, permission mode, directory flag, and file bytes
/// (empty for a directory).
#[derive(Debug)]
pub struct StagedEntry {
    pub path: String,
    pub mode: u32,
    pub is_dir: bool,
    pub data: Vec<u8>,
}

impl View for StagedEntry {
    type V = TarEntry;

    open spec fn view(&self) -> TarEntry {
        (self.path@, self.mode, self.is_dir, self.data@)
    }
}

impl DeepView for StagedEntry {
    type V = TarEntry;

    open spec fn deep_view(&self) -> TarEntry {
        self.view()
    }
}

/// One emitted container artifact: its conventional file name and its bytes.
#[derive(Debug)]
pub struct DebArtifact {
    pub file_name: String,
    pub bytes: Vec<u8>,
}

/// The Debian architecture tag: `amd64` when the description lists `x86_64`,
/// else `all`.
pub open spec fn spec_deb_architecture(arch: Seq<Seq<char>>) -> Seq<char> {
    if spec_list_contains(arch, "x86_64"@) {
        "amd64"@
    } else {
        "all"@
    }
}

/// The Debian architecture tag of a description.
pub fn deb_architecture(arch: &Vec<String>) -> (r: String)
    ensures
        r@ == spec_deb_architecture(arch.deep_view()),
{
    if contains_string(arch, "x86_64") {
        "amd64".to_owned()
    } else {
        "all".to_owned()
    }
}

/// The `DEBIAN/control` text: required fields first, the optional relation
/// fields only when their lists are non-empty, then the fixed trailing fields.
pub open spec fn spec_control_text(m: MetaView) -> Seq<char> {
    "Package: "@ + m.name + "\n"@ + "Version: "@ + m.version + "-"@ + m.release + "\n"@
        + "Architecture: "@ + spec_deb_architecture(m.arch) + "\n"@ + "Maintainer: "@
        + m.maintainer + " <"@ + m.email + ">\n"@ + (if m.deb_depends.len() > 0 {
        "Depends: "@ + spec_join(m.deb_depends, ", "@) + "\n"@
    } else {
        Seq::empty()
    }) + (if m.conflicts.len() > 0 {
        "Conflicts: "@ + spec_join(m.conflicts, ", "@) + "\n"@
    } else {
        Seq::empty()
    }) + (if m.provides.len() > 0 {
        "Provides: "@ + spec_join(m.provides, ", "@) + "\n"@
    } else {
        Seq::empty()
    }) + "Section: utils\n"@ + "Priority: optional\n"@ + "Homepage: "@ + m.url + "\n"@
        + "Description: "@ + m.description + "\n"@
}

/// The `DEBIAN/control` text of a description.
pub fn control_text(m: &Metadata) -> (r: String)
    ensures
        r@ == spec_control_text(m@),
{
    let mut s = String::new();
    s.append("Package: ");
    s.append(m.name.as_str());
    s.append("\n");
    s.append("Version: ");
    s.append(m.version.as_str());
    s.append("-");
    s.append(m.release.as_str());
    s.append("\n");
    s.append("Architecture: ");
    let arch = deb_architecture(&m.arch);
    s.append(arch.as_str());
    s.append("\n");
    s.append("Maintainer: ");
    s.append(m.maintainer.as_str());
    s.append(" <");
    s.append(m.email.as_str());
    s.append(">\n");
    if m.deb_depends.len() > 0 {
        s.append("Depends: ");
        let joined = join_list(&m.deb_depends, ", ");
        s.append(joined.as_str());
        s.append("\n");
    }
    if m.conflicts.len() > 0 {
        s.append("Conflicts: ");
        let joined = join_list(&m.conflicts, ", ");
        s.append(joined.as_str());
        s.append("\n");
    }
    if m.provides.len() > 0 {
        s.append("Provides: ");
        let joined = join_list(&m.provides, ", ");
        s.append(joined.as_str());
        s.append("\n");
    }
    s.append("Section: utils\n");
    s.append("Priority: optional\n");
    s.append("Homepage: ");
    s.append(m.url.as_str());
    s.append("\n");
    s.append("Description: ");
    s.append(m.description.as_str());
    s.append("\n");
    proof {
        assert(m.deb_depends.deep_view().len() == m.deb_depends@.len());
        assert(m.conflicts.deep_view().len() == m.conflicts@.len());
        assert(m.provides.deep_view().len() == m.provides@.len());
        assert(s@ =~= spec_control_text(m@));
    }
    s
}

/// The `postrm` maintainer script, marked executable in the control stream.
pub open spec fn spec_postrm_text() -> Seq<char> {
    ("#!/bin/sh\nset -e\nif [ \"$1\" = \"remove\" ] || [ \"$1\" = \"purge\" ]; then\n    apt-get autoremove -y 2>/dev/null || true\nfi\n")@
}

/// The `postrm` maintainer script.
pub fn postrm_text() -> (r: &'static str)
    ensures
        r@ == spec_postrm_text(),
{
    "#!/bin/sh\nset -e\nif [ \"$1\" = \"remove\" ] || [ \"$1\" = \"purge\" ]; then\n    apt-get autoremove -y 2>/dev/null || true\nfi\n"
}

/// The `debian-binary` member: the container format version, one line.
pub open spec fn spec_debian_binary_text() -> Seq<char> {
    ("2.0\n")@
}

/// The `debian-binary` member's text.
pub fn debian_binary_text() -> (r: &'static str)
    ensures
        r@ == spec_debian_binary_text(),
{
    "2.0\n"
}

/// The emitted container's conventional file name,
/// `<name>_<version>-<release>_<arch>.deb`.
pub open spec fn spec_deb_file_name(m: MetaView) -> Seq<char> {
    m.name + "_"@ + m.version + "-"@ + m.release + "_"@ + spec_deb_architecture(m.arch) + ".deb"@
}

/// The emitted container's conventional file name.
pub fn deb_file_name(m: &Metadata) -> (r: String)
    ensures
        r@ == spec_deb_file_name(m@),
{
    let mut s = String::new();
    s.append(m.name.as_str());
    s.append("_");
    s.append(m.version.as_str());
    s.append("-");
    s.append(m.release.as_str());
    s.append("_");
    let arch = deb_architecture(&m.arch);
    s.append(arch.as_str());
    s.append(".deb");
    proof {
        assert(s@ =~= spec_deb_file_name(m@));
    }
    s
}

/// True when a staged entry ships in the data stream: the control directory
/// and the emitter's own intermediate artifacts never ship.
pub open spec fn spec_shipped(e: TarEntry) -> bool {
    !(e.0 == "DEBIAN"@ || spec_has_prefix(e.0, "DEBIAN/"@) || e.0 == "debian-binary"@ || e.0
        == "data.tar.gz"@ || e.0 == "control.tar.gz"@)
}

/// A staged entry as it is appended to the data stream: a directory carries no
/// bytes.
pub open spec fn spec_data_entry(e: TarEntry) -> TarEntry {
    if e.2 {
        (e.0, e.1, true, Seq::<u8>::empty())
    } else {
        e
    }
}

/// The data-stream entries of a staged tree: the shipped entries, in walk
/// order.
pub open spec fn spec_data_entries(staged: Seq<TarEntry>) -> Seq<TarEntry> {
    staged.filter(|e: TarEntry| spec_shipped(e)).map_values(|e: TarEntry| spec_data_entry(e))
}

/// One `md5sums` line: the file's hex MD5 digest, two spaces, its
/// staging-relative path.
pub open spec fn spec_md5_line(e: TarEntry) -> Seq<char> {
    hex_of(md5_of(e.3)) + "  "@ + e.0 + "\n"@
}

/// The `DEBIAN/md5sums` text: one line per shipped regular file, in walk
/// order; directories contribute nothing.
pub open spec fn spec_md5sums_text(entries: Seq<TarEntry>) -> Seq<char>
    decreases entries.len(),
{
    if entries.len() == 0 {
        Seq::empty()
    } else {
        spec_md5sums_text(entries.drop_last()) + (if entries.last().2 {
            Seq::<char>::empty()
        } else {
            spec_md5_line(entries.last())
        })
    }
}

/// The three control-stream entries, in order: `control`, `md5sums`, `postrm`
/// (executable), flat with no subdirectory.
pub open spec fn spec_control_entries(m: MetaView, data: Seq<TarEntry>) -> Seq<TarEntry> {
    seq![
        ("control"@, 0o644u32, false, encode_utf8(spec_control_text(m))),
        ("md5sums"@, 0o644u32, false, encode_utf8(spec_md5sums_text(data))),
        ("postrm"@, 0o755u32, false, encode_utf8(spec_postrm_text())),
    ]
}

/// The finished container's bytes: an `ar` archive holding exactly
/// `debian-binary`, `control.tar.gz` and `data.tar.gz`, in that order.
pub open spec fn spec_deb_bytes(m: MetaView, staged: Seq<TarEntry>) -> Seq<u8> {
    let data = spec_data_entries(staged);
    ar_bytes(
        seq![
            ("debian-binary"@, encode_utf8(spec_debian_binary_text())),
            ("control.tar.gz"@, targz_bytes(spec_control_entries(m, data))),
            ("data.tar.gz"@, targz_bytes(data)),
        ],
    )
}

/// Emits the Debian container for a description and its finished staging
/// tree.
///
/// On success the artifact's name is the Debian naming convention and its
/// bytes are the `ar` archive of exactly the three members in their required
/// order, over the shipped staged entries. Success is owed whenever every
/// staged path is one the tar stream accepts — as every path reported by a
/// staging-tree walk is — and the only failure, a stream refusing an entry
/// over a bad path, produces no artifact.
pub fn deb_build(m: &Metadata, staged: &Vec<StagedEntry>) -> (r: Result<DebArtifact, BuildError>)
    ensures
        r matches Ok(a) ==> a.file_name@ == spec_deb_file_name(m@) && a.bytes@ == spec_deb_bytes(
            m@,
            staged.deep_view(),
        ),
        r matches Err(e) ==> e matches BuildError::IoError(_),
        (forall|i: int|
            0 <= i < staged.deep_view().len() ==> spec_tar_path_ok(
                #[trigger] staged.deep_view()[i].0,
            )) ==> r is Ok,
{
    let ghost all = staged.deep_view();
    let ghost shipped_pred = |e: TarEntry| spec_shipped(e);
    let ghost to_data = |e: TarEntry| spec_data_entry(e);
    let mut data_stream = targz_new();
    let mut md5s = String::new();
    let mut i: usize = 0;
    proof {
        reveal(Seq::filter);
        assert(all.subrange(0, 0) =~= Seq::<TarEntry>::empty());
        assert(spec_data_entries(all.subrange(0, 0)) =~= Seq::<TarEntry>::empty());
        assert(spec_md5sums_text(Seq::<TarEntry>::empty()) =~= Seq::<char>::empty());
    }
    while i < staged.len()
        invariant
            all == staged.deep_view(),
            shipped_pred == (|e: TarEntry| spec_shipped(e)),
            to_data == (|e: TarEntry| spec_data_entry(e)),
            0 <= i <= staged.len(),
            targz_contents(data_stream) == spec_data_entries(all.subrange(0, i as int)),
            md5s@ == spec_md5sums_text(spec_data_entries(all.subrange(0, i as int))),
        decreases staged.len() - i,
    {
        let e = &staged[i];
        let shipped = !(str_eq(e.path.as_str(), "DEBIAN") || starts_with_str(
            e.path.as_str(),
            "DEBIAN/",
        ) || str_eq(e.path.as_str(), "debian-binary") || str_eq(e.path.as_str(), "data.tar.gz")
            || str_eq(e.path.as_str(), "control.tar.gz"));
        proof {
            let pre = all.subrange(0, i as int);
            let cur = all.subrange(0, i as int + 1);
            assert(cur.drop_last() =~= pre);
            assert(cur.last() == all[i as int]);
            assert(all[i as int] == staged@[i as int]@);
            reveal(Seq::filter);
            assert(cur.filter(shipped_pred) == if spec_shipped(all[i as int]) {
                pre.filter(shipped_pred).push(all[i as int])
            } else {
                pre.filter(shipped_pred)
            });
            if spec_shipped(all[i as int]) {
                assert(cur.filter(shipped_pred).map_values(to_data) =~= pre.filter(
                    shipped_pred,
                ).map_values(to_data).push(spec_data_entry(all[i as int])));
            } else {
                assert(cur.filter(shipped_pred).map_values(to_data) =~= pre.filter(
                    shipped_pred,
                ).map_values(to_data));
            }
        }
        if shipped {
            if e.is_dir {
                let ok = targz_append_dir(&mut data_stream, &e.path, e.mode);
                if !ok {
                    proof {
                        assert(staged.deep_view()[i as int].0 == e.path@);
                    }
                    return Err(BuildError::IoError("data stream refused an entry".to_owned()));
                }
            } else {
                let ok = targz_append_file(&mut data_stream, &e.path, e.mode, &e.data);
                if !ok {
                    proof {
                        assert(staged.deep_view()[i as int].0 == e.path@);
                    }
                    return Err(BuildError::IoError("data stream refused an entry".to_owned()));
                }
                let digest = md5_digest(e.data.as_slice());
                let line_hex = hex_encode(digest.as_slice());
                md5s.append(line_hex.as_str());
                md5s.append("  ");
                md5s.append(e.path.as_str());
                md5s.append("\n");
            }
            proof {
                let prev = spec_data_entries(all.subrange(0, i as int));
                let now = spec_data_entries(all.subrange(0, i as int + 1));
                assert(now == prev.push(spec_data_entry(all[i as int])));
                assert(now.drop_last() =~= prev);
                assert(md5s@ =~= spec_md5sums_text(now));
            }
        }
        i = i + 1;
    }
    proof {
        assert(all.subrange(0, staged.len() as int) =~= all);
    }
    let data_bytes = match targz_finish(data_stream) {
        Some(v) => v,
        None => {
            return Err(BuildError::IoError("data stream failed to finish".to_owned()));
        },
    };
    let control = control_text(m);
    let mut control_stream = targz_new();
    let control_vec = control.as_str().as_bytes_vec();
    proof {
        reveal_strlit("control");
        reveal_strlit("md5sums");
        reveal_strlit("postrm");
        reveal_strlit(".");
        reveal_strlit("..");
        assert("control"@.len() == 7 && "md5sums"@.len() == 7 && "postrm"@.len() == 6);
        assert("."@.len() == 1 && ".."@.len() == 2);
        lemma_plain_name_tar_ok("control"@);
        lemma_plain_name_tar_ok("md5sums"@);
        lemma_plain_name_tar_ok("postrm"@);
    }
    let ok1 = targz_append_file(&mut control_stream, &"control".to_owned(), 0o644, &control_vec);
    if !ok1 {
        return Err(BuildError::IoError("control stream refused an entry".to_owned()));
    }
    let md5s_vec = md5s.as_str().as_bytes_vec();
    let ok2 = targz_append_file(&mut control_stream, &"md5sums".to_owned(), 0o644, &md5s_vec);
    if !ok2 {
        return Err(BuildError::IoError("control stream refused an entry".to_owned()));
    }
    let postrm_vec = postrm_text().as_bytes_vec();
    let ok3 = targz_append_file(&mut control_stream, &"postrm".to_owned(), 0o755, &postrm_vec);
    if !ok3 {
        return Err(BuildError::IoError("control stream refused an entry".to_owned()));
    }
    proof {
        assert(targz_contents(control_stream) =~= spec_control_entries(
            m@,
            spec_data_entries(all),
        ));
    }
    let control_bytes = match targz_finish(control_stream) {
        Some(v) => v,
        None => {
            return Err(BuildError::IoError("control stream failed to finish".to_owned()));
        },
    };
    let mut archive = ar_new();
    let debbin_vec = debian_binary_text().as_bytes_vec();
    let ok4 = ar_append(&mut archive, &"debian-binary".to_owned(), &debbin_vec);
    if !ok4 {
        return Err(BuildError::IoError("container refused a member".to_owned()));
    }
    let ok5 = ar_append(&mut archive, &"control.tar.gz".to_owned(), &control_bytes);
    if !ok5 {
        return Err(BuildError::IoError("container refused a member".to_owned()));
    }
    let ok6 = ar_append(&mut archive, &"data.tar.gz".to_owned(), &data_bytes);
    if !ok6 {
        return Err(BuildError::IoError("container refused a member".to_owned()));
    }
    proof {
        assert(crate::containers::ar_contents(archive) =~= seq![
            ("debian-binary"@, encode_utf8(spec_debian_binary_text())),
            ("control.tar.gz"@, targz_bytes(spec_control_entries(m@, spec_data_entries(all)))),
            ("data.tar.gz"@, targz_bytes(spec_data_entries(all))),
        ]);
    }
    let bytes = match ar_finish(archive) {
        Some(v) => v,
        None => {
            return Err(BuildError::IoError("container failed to finish".to_owned()));
        },
    };
    let file_name = deb_file_name(m);
    Ok(DebArtifact { file_name, bytes })
}

/// Emission is a pure function of its inputs: two runs over an unchanged
/// description and an unchanged staging tree name the same artifact and
/// produce byte-identical members, in the same order.
pub proof fn lemma_emission_deterministic(
    m1: MetaView,
    m2: MetaView,
    s1: Seq<TarEntry>,
    s2: Seq<TarEntry>,
)
    requires
        m1 == m2,
        s1 == s2,
    ensures
        spec_deb_file_name(m1) == spec_deb_file_name(m2),
        spec_deb_bytes(m1, s1) == spec_deb_bytes(m2, s2),
{
}

} // verus!
