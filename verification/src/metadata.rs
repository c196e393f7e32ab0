//! The build-description parser.
//!
//! The description is line-oriented: blank lines and `#` comments are ignored,
//! `key: value` sets a scalar, `key: [a, b, "c"]` sets a list, and `key: {`
//! opens a block whose lines are collected verbatim until a line equal to `}`.
//! Unknown keys are ignored. After the scan, the identity and provenance
//! scalars must be non-empty and at least one checksum list populated; a
//! violation is reported as a `ValidationError` naming the first missing
//! field. The architecture, relation and source lists may be empty: the
//! stages that need one of them populated guard it themselves.

use vstd::prelude::*;
use vstd::string::StringSliceAdditionalSpecFns;

use crate::errors::{BuildError, ParseErrorKind, RequiredField};
use crate::hashes::{hex_encode, hex_of, sha256_digest, sha256_of};
use crate::text::{
    spec_find, spec_lines, spec_split, spec_strip_edges, spec_strip_leading, spec_strip_trailing,
    spec_trim, split_char, split_lines, str_eq, strip_edges, strip_pair, trim,
};

verus! {

/// The parsed build description.
#[derive(Debug)]
pub struct Metadata {
    pub name: String,
    pub version: String,
    pub release: String,
    pub maintainer: String,
    pub email: String,
    pub description: String,
    pub arch: Vec<String>,
    pub url: String,
    pub license: String,
    pub alpm_depends: Vec<String>,
    pub deb_depends: Vec<String>,
    pub rpm_depends: Vec<String>,
    pub provides: Vec<String>,
    pub conflicts: Vec<String>,
    pub sources: Vec<String>,
    pub md5sums: Vec<String>,
    pub sha1sums: Vec<String>,
    pub sha256sums: Vec<String>,
    pub sha512sums: Vec<String>,
    pub alpm_build_env: Vec<String>,
    pub appimage_exec: String,
    pub package_instructions: Vec<String>,
    pub appimage_icon_instructions: Vec<String>,
    pub appimage_desktop_instructions: Vec<String>,
    pub pkgbuild_sha256sum: String,
}

/// The mathematical model of a `Metadata` value.
#[verifier::ext_equal]
pub struct MetaView {
    pub name: Seq<char>,
    pub version: Seq<char>,
    pub release: Seq<char>,
    pub maintainer: Seq<char>,
    pub email: Seq<char>,
    pub description: Seq<char>,
    pub arch: Seq<Seq<char>>,
    pub url: Seq<char>,
    pub license: Seq<char>,
    pub alpm_depends: Seq<Seq<char>>,
    pub deb_depends: Seq<Seq<char>>,
    pub rpm_depends: Seq<Seq<char>>,
    pub provides: Seq<Seq<char>>,
    pub conflicts: Seq<Seq<char>>,
    pub sources: Seq<Seq<char>>,
    pub md5sums: Seq<Seq<char>>,
    pub sha1sums: Seq<Seq<char>>,
    pub sha256sums: Seq<Seq<char>>,
    pub sha512sums: Seq<Seq<char>>,
    pub alpm_build_env: Seq<Seq<char>>,
    pub appimage_exec: Seq<char>,
    pub package_instructions: Seq<Seq<char>>,
    pub appimage_icon_instructions: Seq<Seq<char>>,
    pub appimage_desktop_instructions: Seq<Seq<char>>,
    pub pkgbuild_sha256sum: Seq<char>,
}

impl View for Metadata {
    type V = MetaView;

    open spec fn view(&self) -> MetaView {
        MetaView {
            name: self.name@,
            version: self.version@,
            release: self.release@,
            maintainer: self.maintainer@,
            email: self.email@,
            description: self.description@,
            arch: self.arch.deep_view(),
            url: self.url@,
            license: self.license@,
            alpm_depends: self.alpm_depends.deep_view(),
            deb_depends: self.deb_depends.deep_view(),
            rpm_depends: self.rpm_depends.deep_view(),
            provides: self.provides.deep_view(),
            conflicts: self.conflicts.deep_view(),
            sources: self.sources.deep_view(),
            md5sums: self.md5sums.deep_view(),
            sha1sums: self.sha1sums.deep_view(),
            sha256sums: self.sha256sums.deep_view(),
            sha512sums: self.sha512sums.deep_view(),
            alpm_build_env: self.alpm_build_env.deep_view(),
            appimage_exec: self.appimage_exec@,
            package_instructions: self.package_instructions.deep_view(),
            appimage_icon_instructions: self.appimage_icon_instructions.deep_view(),
            appimage_desktop_instructions: self.appimage_desktop_instructions.deep_view(),
            pkgbuild_sha256sum: self.pkgbuild_sha256sum@,
        }
    }
}

/// The description before any line is scanned: every field empty, except the
/// default build-environment options.
pub open spec fn spec_default_meta() -> MetaView {
    MetaView {
        name: Seq::empty(),
        version: Seq::empty(),
        release: Seq::empty(),
        maintainer: Seq::empty(),
        email: Seq::empty(),
        description: Seq::empty(),
        arch: Seq::empty(),
        url: Seq::empty(),
        license: Seq::empty(),
        alpm_depends: Seq::empty(),
        deb_depends: Seq::empty(),
        rpm_depends: Seq::empty(),
        provides: Seq::empty(),
        conflicts: Seq::empty(),
        sources: Seq::empty(),
        md5sums: Seq::empty(),
        sha1sums: Seq::empty(),
        sha256sums: Seq::empty(),
        sha512sums: Seq::empty(),
        alpm_build_env: seq!["!distcc"@, "color"@, "!ccache"@, "check"@, "!sign"@],
        appimage_exec: Seq::empty(),
        package_instructions: Seq::empty(),
        appimage_icon_instructions: Seq::empty(),
        appimage_desktop_instructions: Seq::empty(),
        pkgbuild_sha256sum: Seq::empty(),
    }
}

impl Default for Metadata {
    /// An empty description record with the default build-environment options.
    fn default() -> (r: Metadata)
        ensures
            r@ == spec_default_meta(),
    {
        let r = Metadata {
            name: String::new(),
            version: String::new(),
            release: String::new(),
            maintainer: String::new(),
            email: String::new(),
            description: String::new(),
            arch: Vec::new(),
            url: String::new(),
            license: String::new(),
            alpm_depends: Vec::new(),
            deb_depends: Vec::new(),
            rpm_depends: Vec::new(),
            provides: Vec::new(),
            conflicts: Vec::new(),
            sources: Vec::new(),
            md5sums: Vec::new(),
            sha1sums: Vec::new(),
            sha256sums: Vec::new(),
            sha512sums: Vec::new(),
            alpm_build_env: vec![
                "!distcc".to_owned(),
                "color".to_owned(),
                "!ccache".to_owned(),
                "check".to_owned(),
                "!sign".to_owned(),
            ],
            appimage_exec: String::new(),
            package_instructions: Vec::new(),
            appimage_icon_instructions: Vec::new(),
            appimage_desktop_instructions: Vec::new(),
            pkgbuild_sha256sum: String::new(),
        };
        proof {
            assert(r.arch.deep_view() =~= Seq::<Seq<char>>::empty());
            assert(r.alpm_depends.deep_view() =~= Seq::<Seq<char>>::empty());
            assert(r.deb_depends.deep_view() =~= Seq::<Seq<char>>::empty());
            assert(r.rpm_depends.deep_view() =~= Seq::<Seq<char>>::empty());
            assert(r.provides.deep_view() =~= Seq::<Seq<char>>::empty());
            assert(r.conflicts.deep_view() =~= Seq::<Seq<char>>::empty());
            assert(r.sources.deep_view() =~= Seq::<Seq<char>>::empty());
            assert(r.md5sums.deep_view() =~= Seq::<Seq<char>>::empty());
            assert(r.sha1sums.deep_view() =~= Seq::<Seq<char>>::empty());
            assert(r.sha256sums.deep_view() =~= Seq::<Seq<char>>::empty());
            assert(r.sha512sums.deep_view() =~= Seq::<Seq<char>>::empty());
            assert(r.package_instructions.deep_view() =~= Seq::<Seq<char>>::empty());
            assert(r.appimage_icon_instructions.deep_view() =~= Seq::<Seq<char>>::empty());
            assert(r.appimage_desktop_instructions.deep_view() =~= Seq::<Seq<char>>::empty());
            assert(r.alpm_build_env.deep_view() =~= seq![
                "!distcc"@,
                "color"@,
                "!ccache"@,
                "check"@,
                "!sign"@,
            ]);
        }
        r
    }
}

/// One list element after cleaning: trimmed, then stripped of quote characters
/// at both ends.
pub open spec fn spec_clean_elem(e: Seq<char>) -> Seq<char> {
    spec_strip_edges(spec_trim(e), '"')
}

/// The value of a `key: [a, b, "c"]` list: brackets stripped, split on commas,
/// elements cleaned, empty elements dropped.
pub open spec fn spec_parse_array(v: Seq<char>) -> Seq<Seq<char>> {
    spec_split(spec_strip_trailing(spec_strip_leading(v, '['), ']'), ',').map_values(
        |e: Seq<char>| spec_clean_elem(e),
    ).filter(|e: Seq<char>| e.len() > 0)
}

/// The elements of a bracketed, comma-separated list value.
pub fn parse_array(value: &str) -> (r: Vec<String>)
    ensures
        r.deep_view() == spec_parse_array(value@),
{
    let stripped = strip_pair(value, '[', ']');
    let pieces = split_char(stripped.as_str(), ',');
    let mut out: Vec<String> = Vec::new();
    let ghost all = pieces.deep_view();
    let ghost cleaned = |e: Seq<char>| spec_clean_elem(e);
    let ghost nonempty = |e: Seq<char>| e.len() > 0;
    let mut k: usize = 0;
    proof {
        assert(all.subrange(0, 0).map_values(cleaned) =~= Seq::<Seq<char>>::empty());
        reveal(Seq::filter);
        assert(out.deep_view() =~= Seq::<Seq<char>>::empty());
    }
    while k < pieces.len()
        invariant
            all == pieces.deep_view(),
            cleaned == (|e: Seq<char>| spec_clean_elem(e)),
            nonempty == (|e: Seq<char>| e.len() > 0),
            0 <= k <= pieces.len(),
            out.deep_view() =~= all.subrange(0, k as int).map_values(cleaned).filter(nonempty),
        decreases pieces.len() - k,
    {
        let t = trim(pieces[k].as_str());
        let e = strip_edges(t.as_str(), '"');
        proof {
            let pre = all.subrange(0, k as int).map_values(cleaned);
            let cur = all.subrange(0, k as int + 1).map_values(cleaned);
            assert(cur =~= pre.push(spec_clean_elem(all[k as int])));
            assert(cur.drop_last() =~= pre);
            reveal(Seq::filter);
        }
        if !e.as_str().is_empty() {
            out.push(e);
        }
        k = k + 1;
    }
    proof {
        assert(all.subrange(0, pieces.len() as int) =~= all);
    }
    out
}

/// The in-progress collection of one `key: {` block.
#[verifier::ext_equal]
pub struct BlockState {
    pub key: Seq<char>,
    pub acc: Seq<Seq<char>>,
}

/// The scanner's state between lines.
#[verifier::ext_equal]
pub struct ScanState {
    pub m: MetaView,
    pub block: Option<BlockState>,
    pub err: Option<ParseErrorKind>,
}

/// The scanner's initial state.
pub open spec fn init_scan_state() -> ScanState {
    ScanState { m: spec_default_meta(), block: None, err: None }
}

/// The effect of one `key: value` line on the record; unknown keys change nothing.
pub open spec fn apply_scalar(m: MetaView, key: Seq<char>, value: Seq<char>) -> MetaView {
    if key == "name"@ {
        MetaView { name: value, ..m }
    } else if key == "version"@ {
        MetaView { version: value, ..m }
    } else if key == "release"@ {
        MetaView { release: value, ..m }
    } else if key == "maintainer"@ {
        MetaView { maintainer: value, ..m }
    } else if key == "email"@ {
        MetaView { email: value, ..m }
    } else if key == "description"@ {
        MetaView { description: value, ..m }
    } else if key == "arch"@ {
        MetaView { arch: spec_parse_array(value), ..m }
    } else if key == "url"@ {
        MetaView { url: value, ..m }
    } else if key == "license"@ {
        MetaView { license: value, ..m }
    } else if key == "alpm_depends"@ {
        MetaView { alpm_depends: spec_parse_array(value), ..m }
    } else if key == "deb_depends"@ {
        MetaView { deb_depends: spec_parse_array(value), ..m }
    } else if key == "rpm_depends"@ {
        MetaView { rpm_depends: spec_parse_array(value), ..m }
    } else if key == "provides"@ {
        MetaView { provides: spec_parse_array(value), ..m }
    } else if key == "conflicts"@ {
        MetaView { conflicts: spec_parse_array(value), ..m }
    } else if key == "sources"@ {
        MetaView { sources: spec_parse_array(value), ..m }
    } else if key == "md5sums"@ {
        MetaView { md5sums: spec_parse_array(value), ..m }
    } else if key == "sha1sums"@ {
        MetaView { sha1sums: spec_parse_array(value), ..m }
    } else if key == "sha256sums"@ {
        MetaView { sha256sums: spec_parse_array(value), ..m }
    } else if key == "sha512sums"@ {
        MetaView { sha512sums: spec_parse_array(value), ..m }
    } else if key == "alpm_build_env"@ {
        MetaView { alpm_build_env: spec_parse_array(value), ..m }
    } else if key == "appimage_exec"@ {
        MetaView { appimage_exec: spec_strip_edges(value, '"'), ..m }
    } else {
        m
    }
}

/// Committing a finished block to its named instruction list; unknown block
/// keys discard the collected lines.
pub open spec fn commit_block(m: MetaView, key: Seq<char>, acc: Seq<Seq<char>>) -> MetaView {
    if key == "package"@ {
        MetaView { package_instructions: acc, ..m }
    } else if key == "appimage_icon"@ {
        MetaView { appimage_icon_instructions: acc, ..m }
    } else if key == "appimage_desktop"@ {
        MetaView { appimage_desktop_instructions: acc, ..m }
    } else {
        m
    }
}

/// The effect of one raw description line on the scanner's state.
pub open spec fn scan_line(st: ScanState, line: Seq<char>) -> ScanState {
    if st.err is Some {
        st
    } else {
        let t = spec_trim(line);
        match st.block {
            Some(b) => if t == "}"@ {
                ScanState { m: commit_block(st.m, b.key, b.acc), block: None, err: None }
            } else if t.len() == 0 || t[0] == '#' {
                st
            } else {
                ScanState {
                    block: Some(BlockState { key: b.key, acc: b.acc.push(t) }),
                    ..st
                }
            },
            None => {
                if t.len() == 0 || t[0] == '#' {
                    st
                } else {
                    match spec_find(t, ':') {
                        Some(i) => {
                            let key = spec_trim(t.subrange(0, i));
                            let value = spec_trim(t.subrange(i + 1, t.len() as int));
                            if value == "{"@ {
                                ScanState {
                                    block: Some(BlockState { key: key, acc: Seq::empty() }),
                                    ..st
                                }
                            } else {
                                ScanState { m: apply_scalar(st.m, key, value), ..st }
                            }
                        },
                        None => ScanState { err: Some(ParseErrorKind::MalformedLine), ..st },
                    }
                }
            },
        }
    }
}

/// The scanner's state after the first `n` lines.
pub open spec fn scan_upto(lines: Seq<Seq<char>>, n: int) -> ScanState
    decreases n,
{
    if n <= 0 {
        init_scan_state()
    } else {
        scan_line(scan_upto(lines, n - 1), lines[n - 1])
    }
}

/// A scan error is never forgotten by later lines.
proof fn lemma_scan_sticky(lines: Seq<Seq<char>>, i: int, j: int)
    requires
        0 <= i <= j,
        scan_upto(lines, i).err is Some,
    ensures
        scan_upto(lines, j).err == scan_upto(lines, i).err,
    decreases j - i,
{
    if j > i {
        lemma_scan_sticky(lines, i, j - 1);
    }
}

/// The first required field of the scanned record that is empty, in
/// declaration order: the identity and provenance scalars, then the checksum
/// lists taken together. The architecture, relation and source lists may be
/// empty here; the stages that need one of them populated guard it
/// themselves.
pub open spec fn first_missing(m: MetaView) -> Option<RequiredField> {
    if m.name.len() == 0 {
        Some(RequiredField::Name)
    } else if m.version.len() == 0 {
        Some(RequiredField::Version)
    } else if m.release.len() == 0 {
        Some(RequiredField::Release)
    } else if m.maintainer.len() == 0 {
        Some(RequiredField::Maintainer)
    } else if m.description.len() == 0 {
        Some(RequiredField::Description)
    } else if m.url.len() == 0 {
        Some(RequiredField::Url)
    } else if m.license.len() == 0 {
        Some(RequiredField::License)
    } else if m.md5sums.len() == 0 && m.sha1sums.len() == 0 && m.sha256sums.len() == 0
        && m.sha512sums.len() == 0 {
        Some(RequiredField::Checksums)
    } else {
        None
    }
}

/// Whether required field `f` is empty in `m`; for `Checksums`, whether every
/// checksum list is empty.
pub open spec fn required_field_empty(m: MetaView, f: RequiredField) -> bool {
    match f {
        RequiredField::Name => m.name.len() == 0,
        RequiredField::Version => m.version.len() == 0,
        RequiredField::Release => m.release.len() == 0,
        RequiredField::Maintainer => m.maintainer.len() == 0,
        RequiredField::Description => m.description.len() == 0,
        RequiredField::Url => m.url.len() == 0,
        RequiredField::License => m.license.len() == 0,
        RequiredField::Checksums => m.md5sums.len() == 0 && m.sha1sums.len() == 0
            && m.sha256sums.len() == 0 && m.sha512sums.len() == 0,
        // The AppImage-specific fields are demanded only by that emitter's own
        // validation, never by the base scan.
        RequiredField::AppimageExec => false,
        RequiredField::AppimageDesktop => false,
        RequiredField::AppimageIcon => false,
    }
}

/// The position of a required field in the order validation checks them; the
/// AppImage-specific fields come after every field of the base scan.
pub open spec fn field_rank(f: RequiredField) -> int {
    match f {
        RequiredField::Name => 0,
        RequiredField::Version => 1,
        RequiredField::Release => 2,
        RequiredField::Maintainer => 3,
        RequiredField::Description => 4,
        RequiredField::Url => 5,
        RequiredField::License => 6,
        RequiredField::Checksums => 7,
        RequiredField::AppimageExec => 8,
        RequiredField::AppimageDesktop => 9,
        RequiredField::AppimageIcon => 10,
    }
}

/// Validation reports a field if and only if that field is empty, and never
/// mis-reports another field's absence: the reported field is empty, every
/// field checked before it is populated, and nothing is reported when every
/// required field is populated.
pub proof fn lemma_validation_names_missing_field(m: MetaView)
    ensures
        match first_missing(m) {
            Some(f) => required_field_empty(m, f) && forall|g: RequiredField|
                field_rank(g) < field_rank(f) ==> !required_field_empty(m, g),
            None => forall|f: RequiredField| !required_field_empty(m, f),
        },
{
}

/// The outcome of parsing: the scanned record stamped with the description
/// digest, or the first error.
pub open spec fn spec_outcome(lines: Seq<Seq<char>>, sha_hex: Seq<char>) -> Result<
    MetaView,
    BuildError,
> {
    let st = scan_upto(lines, lines.len() as int);
    match st.err {
        Some(k) => Err(BuildError::ParseError(k)),
        None => match st.block {
            Some(_) => Err(BuildError::ParseError(ParseErrorKind::UnterminatedBlock)),
            None => match first_missing(st.m) {
                Some(f) => Err(BuildError::ValidationError(f)),
                None => Ok(MetaView { pkgbuild_sha256sum: sha_hex, ..st.m }),
            },
        },
    }
}

/// Parses the raw text of a build description.
///
/// On success the returned record holds exactly the scanned fields, plus the
/// SHA-256 digest of the raw text as its provenance stamp. On failure the
/// error is the first one encountered: a parse fault, an unterminated block,
/// or the first missing required field.
pub fn extract_metadata(text: &str) -> (r: Result<Metadata, BuildError>)
    ensures
        ({
            let outcome = spec_outcome(spec_lines(text@), hex_of(sha256_of(text.spec_bytes())));
            match (r, outcome) {
                (Ok(m), Ok(v)) => m@ == v,
                (Err(e), Err(w)) => e == w,
                _ => false,
            }
        }),
{
    let digest = sha256_digest(text.as_bytes());
    let sha_hex = hex_encode(digest.as_slice());
    let lines = split_lines(text);
    let ghost lv = lines.deep_view();
    let mut m = Metadata::default();
    let mut block_key: Option<String> = None;
    let mut block_acc: Vec<String> = Vec::new();
    let n = lines.len();
    let mut idx: usize = 0;
    proof {
        assert(block_acc.deep_view() =~= Seq::<Seq<char>>::empty());
    }
    while idx < n
        invariant
            n == lines.len(),
            lv == lines.deep_view(),
            lv == spec_lines(text@),
            0 <= idx <= n,
            scan_upto(lv, idx as int).err is None,
            ({
                let st = scan_upto(lv, idx as int);
                &&& m@ == st.m
                &&& match block_key {
                    Some(bk) => st.block matches Some(b) && b.key == bk@ && b.acc
                        == block_acc.deep_view(),
                    None => st.block is None,
                }
            }),
        decreases n - idx,
    {
        let ghost st = scan_upto(lv, idx as int);
        proof {
            assert(scan_upto(lv, idx as int + 1) == scan_line(st, lv[idx as int]));
        }
        let t = trim(lines[idx].as_str());
        let is_blank_or_comment = t.as_str().is_empty() || {
            let c = t.as_str().get_char(0);
            c == '#'
        };
        if block_key.is_some() {
            {
                if str_eq(t.as_str(), "}") {
                    let bk = block_key.take().unwrap();
                    let acc = block_acc;
                    block_acc = Vec::new();
                    if str_eq(bk.as_str(), "package") {
                        m.package_instructions = acc;
                    } else if str_eq(bk.as_str(), "appimage_icon") {
                        m.appimage_icon_instructions = acc;
                    } else if str_eq(bk.as_str(), "appimage_desktop") {
                        m.appimage_desktop_instructions = acc;
                    }
                    proof {
                        assert(block_acc.deep_view() =~= Seq::<Seq<char>>::empty());
                    }
                } else if is_blank_or_comment {
                    // collected blocks skip blank and comment lines
                } else {
                    block_acc.push(t);
                }
            }
        } else {
            {
                if is_blank_or_comment {
                    // ignored line
                } else {
                    match crate::text::find_char(t.as_str(), ':') {
                        Some(ci) => {
                            proof {
                                crate::text::lemma_find_props(t@, ':');
                            }
                            let tn = t.as_str().unicode_len();
                            let key = trim(t.as_str().substring_char(0, ci));
                            let value = trim(t.as_str().substring_char(ci + 1, tn));
                            if str_eq(value.as_str(), "{") {
                                block_key = Some(key);
                                block_acc = Vec::new();
                                proof {
                                    assert(block_acc.deep_view() =~= Seq::<Seq<char>>::empty());
                                }
                            } else {
                                let k = key.as_str();
                                if str_eq(k, "name") {
                                    m.name = value;
                                } else if str_eq(k, "version") {
                                    m.version = value;
                                } else if str_eq(k, "release") {
                                    m.release = value;
                                } else if str_eq(k, "maintainer") {
                                    m.maintainer = value;
                                } else if str_eq(k, "email") {
                                    m.email = value;
                                } else if str_eq(k, "description") {
                                    m.description = value;
                                } else if str_eq(k, "arch") {
                                    m.arch = parse_array(value.as_str());
                                } else if str_eq(k, "url") {
                                    m.url = value;
                                } else if str_eq(k, "license") {
                                    m.license = value;
                                } else if str_eq(k, "alpm_depends") {
                                    m.alpm_depends = parse_array(value.as_str());
                                } else if str_eq(k, "deb_depends") {
                                    m.deb_depends = parse_array(value.as_str());
                                } else if str_eq(k, "rpm_depends") {
                                    m.rpm_depends = parse_array(value.as_str());
                                } else if str_eq(k, "provides") {
                                    m.provides = parse_array(value.as_str());
                                } else if str_eq(k, "conflicts") {
                                    m.conflicts = parse_array(value.as_str());
                                } else if str_eq(k, "sources") {
                                    m.sources = parse_array(value.as_str());
                                } else if str_eq(k, "md5sums") {
                                    m.md5sums = parse_array(value.as_str());
                                } else if str_eq(k, "sha1sums") {
                                    m.sha1sums = parse_array(value.as_str());
                                } else if str_eq(k, "sha256sums") {
                                    m.sha256sums = parse_array(value.as_str());
                                } else if str_eq(k, "sha512sums") {
                                    m.sha512sums = parse_array(value.as_str());
                                } else if str_eq(k, "alpm_build_env") {
                                    m.alpm_build_env = parse_array(value.as_str());
                                } else if str_eq(k, "appimage_exec") {
                                    m.appimage_exec = strip_edges(value.as_str(), '"');
                                }
                            }
                        },
                        None => {
                            proof {
                                lemma_scan_sticky(lv, idx as int + 1, lv.len() as int);
                            }
                            return Err(BuildError::ParseError(ParseErrorKind::MalformedLine));
                        },
                    }
                }
            }
        }
        idx = idx + 1;
    }
    if block_key.is_some() {
        return Err(BuildError::ParseError(ParseErrorKind::UnterminatedBlock));
    }
    if m.name.as_str().is_empty() {
        return Err(BuildError::ValidationError(RequiredField::Name));
    }
    if m.version.as_str().is_empty() {
        return Err(BuildError::ValidationError(RequiredField::Version));
    }
    if m.release.as_str().is_empty() {
        return Err(BuildError::ValidationError(RequiredField::Release));
    }
    if m.maintainer.as_str().is_empty() {
        return Err(BuildError::ValidationError(RequiredField::Maintainer));
    }
    if m.description.as_str().is_empty() {
        return Err(BuildError::ValidationError(RequiredField::Description));
    }
    if m.url.as_str().is_empty() {
        return Err(BuildError::ValidationError(RequiredField::Url));
    }
    if m.license.as_str().is_empty() {
        return Err(BuildError::ValidationError(RequiredField::License));
    }
    if m.md5sums.len() == 0 && m.sha1sums.len() == 0 && m.sha256sums.len() == 0
        && m.sha512sums.len() == 0 {
        return Err(BuildError::ValidationError(RequiredField::Checksums));
    }
    m.pkgbuild_sha256sum = sha_hex;
    Ok(m)
}

} // verus!
