//! The install-directive interpreter.
//!
//! One directive line has the form `install [-mMODE] "<source>" [to "<dest>"]`
//! with MODE an octal string. Parsing yields a typed directive; resolution
//! turns its destination into a concrete staging-relative path (appending the
//! source's base name when the destination looks like a directory); planning
//! decides the filesystem effect, refusing a missing source or a directory
//! source before any mutation is performed.

use vstd::prelude::*;

use crate::archive::{last_component, spec_last_component};
use crate::errors::{BuildError, ParseErrorKind};
use crate::text::{
    ends_with_char, parse_octal, rfind_char, spec_ends_with, spec_has_prefix, spec_octal_ok,
    spec_octal_val, spec_rfind, spec_split, spec_strip_edges, spec_tokens, split_char,
    starts_with_char, starts_with_str, str_eq, strip_edges, tokens,
};

verus! {

/// One parsed install directive: permission mode, source file name, and the
/// raw destination as written.
#[derive(Debug)]
pub struct InstallDirective {
    pub mode: u32,
    pub source: String,
    pub dest: String,
}

/// The model of a directive: mode and the two path strings.
pub struct DirectiveView {
    pub mode: u32,
    pub source: Seq<char>,
    pub dest: Seq<char>,
}

impl View for InstallDirective {
    type V = DirectiveView;

    open spec fn view(&self) -> DirectiveView {
        DirectiveView { mode: self.mode, source: self.source@, dest: self.dest@ }
    }
}

impl DeepView for InstallDirective {
    type V = DirectiveView;

    open spec fn deep_view(&self) -> DirectiveView {
        self.view()
    }
}

/// One concrete staging operation: copy the source file's bytes to the
/// staging-relative destination and set its permission bits.
#[derive(Debug)]
pub struct InstallOp {
    pub source: String,
    pub dest_rel: String,
    pub mode: u32,
}

/// The default permission mode of an install directive, octal 644.
pub open spec fn default_mode() -> u32 {
    0o644
}

/// The outcome of parsing one directive line from its token list: a directive,
/// a skip, or a malformed-directive error.
pub open spec fn spec_parse_directive_tokens(toks: Seq<Seq<char>>, default_to_root: bool) -> Result<
    Option<DirectiveView>,
    BuildError,
> {
    if toks.len() == 0 || toks[0] != "install"@ {
        Ok(None)
    } else {
        let has_mode = toks.len() > 1 && spec_has_prefix(toks[1], "-m"@);
        let src_idx: int = if has_mode {
            2
        } else {
            1
        };
        if has_mode && !spec_octal_ok(toks[1].subrange(2, toks[1].len() as int)) {
            Err(BuildError::ParseError(ParseErrorKind::MalformedDirective))
        } else {
            let mode: u32 = if has_mode {
                spec_octal_val(toks[1].subrange(2, toks[1].len() as int)) as u32
            } else {
                default_mode()
            };
            if src_idx >= toks.len() {
                Ok(None)
            } else {
                let source = spec_strip_edges(toks[src_idx], '"');
                let dest_idx = src_idx + 1;
                if dest_idx < toks.len() && toks[dest_idx] == "to"@ {
                    if dest_idx + 1 < toks.len() {
                        Ok(
                            Some(
                                DirectiveView {
                                    mode,
                                    source,
                                    dest: spec_strip_edges(toks[dest_idx + 1], '"'),
                                },
                            ),
                        )
                    } else {
                        Ok(Some(DirectiveView { mode, source, dest: "/"@ }))
                    }
                } else if default_to_root {
                    Ok(Some(DirectiveView { mode, source, dest: "/"@ }))
                } else {
                    Ok(None)
                }
            }
        }
    }
}

/// The outcome of parsing one raw directive line.
pub open spec fn spec_parse_directive(line: Seq<char>, default_to_root: bool) -> Result<
    Option<DirectiveView>,
    BuildError,
> {
    spec_parse_directive_tokens(spec_tokens(line), default_to_root)
}

/// Parses one raw directive line.
///
/// Lines that do not begin with the word `install`, or that name no source or
/// destination where one is required, are skipped (`Ok(None)`); a mode token
/// that is not valid octal is a malformed-directive error. With
/// `default_to_root` set (icon and desktop rules), a missing `to` pair
/// defaults the destination to the staging root.
pub fn parse_install_directive(line: &str, default_to_root: bool) -> (r: Result<
    Option<InstallDirective>,
    BuildError,
>)
    ensures
        ({
            let outcome = spec_parse_directive(line@, default_to_root);
            match (r, outcome) {
                (Ok(Some(d)), Ok(Some(v))) => d@ == v,
                (Ok(None), Ok(None)) => true,
                (Err(e), Err(w)) => e == w,
                _ => false,
            }
        }),
{
    let toks = tokens(line);
    if toks.len() == 0 || !str_eq(toks[0].as_str(), "install") {
        return Ok(None);
    }
    let has_mode = toks.len() > 1 && starts_with_str(toks[1].as_str(), "-m");
    let mut mode: u32 = 0o644;
    let src_idx: usize = if has_mode {
        2
    } else {
        1
    };
    if has_mode {
        let t1 = &toks[1];
        let t1n = t1.as_str().unicode_len();
        proof {
            reveal_strlit("-m");
            assert(toks.deep_view()[1] == toks@[1]@);
            assert(t1@.len() >= 2);
        }
        let mode_str = t1.as_str().substring_char(2, t1n);
        proof {
            assert(mode_str@ =~= toks.deep_view()[1].subrange(2, toks.deep_view()[1].len() as int));
        }
        match parse_octal(mode_str) {
            Some(v) => {
                mode = v;
            },
            None => {
                return Err(BuildError::ParseError(ParseErrorKind::MalformedDirective));
            },
        }
    }
    if src_idx >= toks.len() {
        return Ok(None);
    }
    let source = strip_edges(toks[src_idx].as_str(), '"');
    let dest_idx = src_idx + 1;
    if dest_idx < toks.len() && str_eq(toks[dest_idx].as_str(), "to") {
        if dest_idx + 1 < toks.len() {
            let dest = strip_edges(toks[dest_idx + 1].as_str(), '"');
            Ok(Some(InstallDirective { mode, source, dest }))
        } else {
            Ok(Some(InstallDirective { mode, source, dest: "/".to_owned() }))
        }
    } else if default_to_root {
        Ok(Some(InstallDirective { mode, source, dest: "/".to_owned() }))
    } else {
        Ok(None)
    }
}

/// The directives of the first `n` lines of an instruction block, in
/// declaration order, skipped lines dropped; the first malformed line aborts.
pub open spec fn spec_parse_block_upto(
    lines: Seq<Seq<char>>,
    n: int,
    default_to_root: bool,
) -> Result<Seq<DirectiveView>, BuildError>
    decreases n,
{
    if n <= 0 {
        Ok(Seq::empty())
    } else {
        match spec_parse_block_upto(lines, n - 1, default_to_root) {
            Err(e) => Err(e),
            Ok(ds) => match spec_parse_directive(lines[n - 1], default_to_root) {
                Err(e) => Err(e),
                Ok(None) => Ok(ds),
                Ok(Some(d)) => Ok(ds.push(d)),
            },
        }
    }
}

/// Parses a whole instruction block into its directives, in declaration
/// order.
///
/// Later directives stand after earlier ones, so applying them in order gives
/// the block's last-write-wins semantics; the first malformed line aborts the
/// block with its error.
pub fn parse_instruction_block(lines: &Vec<String>, default_to_root: bool) -> (r: Result<
    Vec<InstallDirective>,
    BuildError,
>)
    ensures
        ({
            let outcome = spec_parse_block_upto(
                lines.deep_view(),
                lines.deep_view().len() as int,
                default_to_root,
            );
            match (r, outcome) {
                (Ok(ds), Ok(vs)) => ds.deep_view() == vs,
                (Err(e), Err(w)) => e == w,
                _ => false,
            }
        }),
{
    let mut out: Vec<InstallDirective> = Vec::new();
    let mut i: usize = 0;
    proof {
        assert(out.deep_view() =~= Seq::<DirectiveView>::empty());
    }
    while i < lines.len()
        invariant
            0 <= i <= lines.len(),
            spec_parse_block_upto(lines.deep_view(), i as int, default_to_root) matches Ok(vs)
                && vs == out.deep_view(),
        decreases lines.len() - i,
    {
        let ghost pre = out.deep_view();
        match parse_install_directive(lines[i].as_str(), default_to_root) {
            Ok(Some(d)) => {
                out.push(d);
                proof {
                    assert(out.deep_view() =~= pre.push(out@[out@.len() - 1]@));
                }
            },
            Ok(None) => {},
            Err(e) => {
                proof {
                    lemma_block_error_sticky(
                        lines.deep_view(),
                        i as int + 1,
                        lines.deep_view().len() as int,
                        default_to_root,
                    );
                }
                return Err(e);
            },
        }
        i = i + 1;
    }
    Ok(out)
}

proof fn lemma_block_error_sticky(lines: Seq<Seq<char>>, i: int, j: int, default_to_root: bool)
    requires
        0 <= i <= j,
        spec_parse_block_upto(lines, i, default_to_root) is Err,
    ensures
        spec_parse_block_upto(lines, j, default_to_root) == spec_parse_block_upto(
            lines,
            i,
            default_to_root,
        ),
    decreases j - i,
{
    if j > i {
        lemma_block_error_sticky(lines, i, j - 1, default_to_root);
    }
}

/// Staging is a pure function of the block and of what the filesystem says:
/// two runs over an unchanged instruction block yield the same directives,
/// and equal directives resolve to the same staging destination — the staging
/// tree's contents are therefore byte-identical across runs.
pub proof fn lemma_staging_deterministic(
    l1: Seq<Seq<char>>,
    l2: Seq<Seq<char>>,
    default_to_root: bool,
    d1: DirectiveView,
    d2: DirectiveView,
)
    requires
        l1 == l2,
        d1 == d2,
    ensures
        spec_parse_block_upto(l1, l1.len() as int, default_to_root) == spec_parse_block_upto(
            l2,
            l2.len() as int,
            default_to_root,
        ),
        spec_resolved_dest(d1.dest, d1.source) == spec_resolved_dest(d2.dest, d2.source),
{
}

/// The destination with one leading separator removed.
pub open spec fn spec_strip_one_slash(d: Seq<char>) -> Seq<char> {
    if d.len() > 0 && d[0] == '/' {
        d.subrange(1, d.len() as int)
    } else {
        d
    }
}

/// True when the path's final segment carries a file extension: it holds a dot
/// after its first character.
pub open spec fn spec_has_file_extension(p: Seq<char>) -> bool {
    match spec_rfind(spec_last_component(p), '.') {
        Some(i) => i > 0,
        None => false,
    }
}

/// True when the destination is treated as a directory: it ends with a
/// separator, or its final segment has no file extension.
pub open spec fn spec_dir_like(dest: Seq<char>) -> bool {
    spec_ends_with(dest, '/') || !spec_has_file_extension(dest)
}

/// The staging-relative destination path of a directive: the destination with
/// one leading separator removed, with the source's base name appended when
/// the destination is directory-like.
pub open spec fn spec_resolved_dest(dest: Seq<char>, source: Seq<char>) -> Seq<char> {
    let t = spec_strip_one_slash(dest);
    if spec_dir_like(dest) {
        let b = spec_last_component(source);
        if t.len() == 0 {
            b
        } else if t[t.len() - 1] == '/' {
            t + b
        } else {
            t + seq!['/'] + b
        }
    } else {
        t
    }
}

/// Whether the path's final segment carries a file extension.
pub fn has_file_extension(p: &str) -> (r: bool)
    ensures
        r == spec_has_file_extension(p@),
{
    let comp = last_component(p);
    match rfind_char(comp.as_str(), '.') {
        Some(i) => i > 0,
        None => false,
    }
}

/// The staging-relative destination the directive installs to.
pub fn resolve_dest(dest: &str, source: &str) -> (r: String)
    ensures
        r@ == spec_resolved_dest(dest@, source@),
{
    let n = dest.unicode_len();
    let t = if n > 0 && dest.get_char(0) == '/' {
        dest.substring_char(1, n).to_owned()
    } else {
        dest.to_owned()
    };
    let dir_like = ends_with_char(dest, '/') || !has_file_extension(dest);
    if dir_like {
        let b = last_component(source);
        let tn = t.as_str().unicode_len();
        if tn == 0 {
            b
        } else if t.as_str().get_char(tn - 1) == '/' {
            let mut out = t;
            out.append(b.as_str());
            out
        } else {
            let mut out = t;
            out.append("/");
            proof {
                reveal_strlit("/");
                assert("/"@ =~= seq!['/']);
            }
            out.append(b.as_str());
            out
        }
    } else {
        t
    }
}

/// True when a resolved staging destination stays inside the staging root:
/// it is not absolute and no slash-separated segment is the parent
/// directory.
pub open spec fn spec_dest_stays_inside(d: Seq<char>) -> bool {
    !(d.len() > 0 && d[0] == '/') && (forall|i: int|
        0 <= i < spec_split(d, '/').len() ==> #[trigger] spec_split(d, '/')[i] != ".."@)
}

/// Whether a resolved destination stays inside the staging root; applying an
/// operation whose destination does not would write outside the tree.
pub fn dest_stays_inside(dest_rel: &str) -> (r: bool)
    ensures
        r == spec_dest_stays_inside(dest_rel@),
{
    if starts_with_char(dest_rel, '/') {
        return false;
    }
    let pieces = split_char(dest_rel, '/');
    let mut i: usize = 0;
    while i < pieces.len()
        invariant
            pieces.deep_view() == spec_split(dest_rel@, '/'),
            0 <= i <= pieces.len(),
            forall|k: int| 0 <= k < i ==> #[trigger] pieces.deep_view()[k] != ".."@,
        decreases pieces.len() - i,
    {
        if str_eq(pieces[i].as_str(), "..") {
            proof {
                assert(pieces.deep_view()[i as int] == pieces@[i as int]@);
            }
            return false;
        }
        proof {
            assert(pieces.deep_view()[i as int] == pieces@[i as int]@);
        }
        i = i + 1;
    }
    true
}

/// Decides the filesystem effect of one parsed directive, given what the
/// filesystem says about the source path.
///
/// A missing source is a hard failure and a directory source is a hard
/// failure; in both cases no operation is produced, so no mutation is
/// performed. Otherwise the operation copies the source to the resolved
/// destination with the directive's mode.
pub fn plan_install(d: &InstallDirective, source_exists: bool, source_is_dir: bool) -> (r: Result<
    InstallOp,
    BuildError,
>)
    ensures
        !source_exists ==> (r matches Err(e) && e matches BuildError::SourceNotFound(s) && s@
            == d.source@),
        source_exists && source_is_dir ==> (r matches Err(e) && e matches
            BuildError::SourceIsDirectory(s) && s@ == d.source@),
        source_exists && !source_is_dir ==> (r matches Ok(op) && op.source@ == d.source@
            && op.dest_rel@ == spec_resolved_dest(d.dest@, d.source@) && op.mode == d.mode),
{
    if !source_exists {
        return Err(BuildError::SourceNotFound(d.source.clone()));
    }
    if source_is_dir {
        return Err(BuildError::SourceIsDirectory(d.source.clone()));
    }
    let dest_rel = resolve_dest(d.dest.as_str(), d.source.as_str());
    Ok(InstallOp { source: d.source.clone(), dest_rel, mode: d.mode })
}

} // verus!
