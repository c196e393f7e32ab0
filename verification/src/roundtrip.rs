//! The parser's round-trip law.
//!
//! A description rendered from a record whose values are clean — no embedded
//! newlines, separators or quoting in the places the grammar reserves for
//! them — parses back to exactly that record: no trimming or quoting artifact
//! leaks into any scalar or list value.

use vstd::prelude::*;

use crate::metadata::{
    apply_scalar, commit_block, init_scan_state, scan_line, scan_upto, spec_parse_array, MetaView,
    ScanState,
};
use crate::text::{
    is_space_char, lemma_find_at, lemma_find_none, lemma_trim_fixed, spec_join, spec_lines,
    spec_trim,
};

verus! {

/// True when `s` holds no newline.
pub open spec fn no_newline(s: Seq<char>) -> bool {
    forall|i: int| 0 <= i < s.len() ==> s[i] != '\n'
}

/// A scalar value that renders without artifacts: no newline, no surrounding
/// whitespace, and not the block opener.
pub open spec fn clean_scalar(v: Seq<char>) -> bool {
    no_newline(v) && v != "{"@ && (v.len() == 0 || (!is_space_char(v[0]) && !is_space_char(
        v[v.len() - 1],
    )))
}

/// A list element that renders without artifacts: non-empty, no newline,
/// comma, or edge whitespace, bracket or quote.
pub open spec fn clean_elem(e: Seq<char>) -> bool {
    e.len() > 0 && no_newline(e) && !is_space_char(e[0]) && !is_space_char(e[e.len() - 1]) && e[0]
        != '[' && e[e.len() - 1] != ']' && e[0] != '"' && e[e.len() - 1] != '"' && (forall|i: int|
        0 <= i < e.len() ==> e[i] != ',')
}

pub open spec fn clean_list(l: Seq<Seq<char>>) -> bool {
    forall|i: int| 0 <= i < l.len() ==> clean_elem(#[trigger] l[i])
}

/// A block line that is collected verbatim: non-empty after trimming is
/// itself, no newline, not a comment, not the block closer.
pub open spec fn clean_block_line(b: Seq<char>) -> bool {
    b.len() > 0 && no_newline(b) && !is_space_char(b[0]) && !is_space_char(b[b.len() - 1]) && b[0]
        != '#' && b != "}"@
}

pub open spec fn clean_block(l: Seq<Seq<char>>) -> bool {
    forall|i: int| 0 <= i < l.len() ==> clean_block_line(#[trigger] l[i])
}

/// A record every one of whose values renders without artifacts.
pub open spec fn clean_meta(m: MetaView) -> bool {
    &&& clean_scalar(m.name)
    &&& clean_scalar(m.version)
    &&& clean_scalar(m.release)
    &&& clean_scalar(m.maintainer)
    &&& clean_scalar(m.email)
    &&& clean_scalar(m.description)
    &&& clean_scalar(m.url)
    &&& clean_scalar(m.license)
    &&& clean_scalar(m.appimage_exec)
    &&& (m.appimage_exec.len() == 0 || (m.appimage_exec[0] != '"' && m.appimage_exec[m.appimage_exec.len() - 1] != '"'))
    &&& clean_list(m.arch)
    &&& clean_list(m.alpm_depends)
    &&& clean_list(m.deb_depends)
    &&& clean_list(m.rpm_depends)
    &&& clean_list(m.provides)
    &&& clean_list(m.conflicts)
    &&& clean_list(m.sources)
    &&& clean_list(m.md5sums)
    &&& clean_list(m.sha1sums)
    &&& clean_list(m.sha256sums)
    &&& clean_list(m.sha512sums)
    &&& clean_list(m.alpm_build_env)
    &&& clean_block(m.package_instructions)
    &&& clean_block(m.appimage_icon_instructions)
    &&& clean_block(m.appimage_desktop_instructions)
}

/// One rendered scalar line.
pub open spec fn scalar_line(key: Seq<char>, v: Seq<char>) -> Seq<char> {
    key + ": "@ + v
}

/// One rendered list line.
pub open spec fn list_line(key: Seq<char>, l: Seq<Seq<char>>) -> Seq<char> {
    key + ": ["@ + spec_join(l, ", "@) + "]"@
}

/// One rendered block: opener, body lines, closer.
pub open spec fn block_lines(key: Seq<char>, ls: Seq<Seq<char>>) -> Seq<Seq<char>> {
    seq![key + ": {"@] + ls + seq!["}"@]
}

/// The rendered description, line by line.
pub open spec fn render_lines(m: MetaView) -> Seq<Seq<char>> {
    seq![
        scalar_line("name"@, m.name),
        scalar_line("version"@, m.version),
        scalar_line("release"@, m.release),
        scalar_line("maintainer"@, m.maintainer),
        scalar_line("email"@, m.email),
        scalar_line("description"@, m.description),
        scalar_line("url"@, m.url),
        scalar_line("license"@, m.license),
        scalar_line("appimage_exec"@, m.appimage_exec),
        list_line("arch"@, m.arch),
        list_line("alpm_depends"@, m.alpm_depends),
        list_line("deb_depends"@, m.deb_depends),
        list_line("rpm_depends"@, m.rpm_depends),
        list_line("provides"@, m.provides),
        list_line("conflicts"@, m.conflicts),
        list_line("sources"@, m.sources),
        list_line("md5sums"@, m.md5sums),
        list_line("sha1sums"@, m.sha1sums),
        list_line("sha256sums"@, m.sha256sums),
        list_line("sha512sums"@, m.sha512sums),
        list_line("alpm_build_env"@, m.alpm_build_env),
    ] + block_lines("package"@, m.package_instructions) + block_lines(
        "appimage_icon"@,
        m.appimage_icon_instructions,
    ) + block_lines("appimage_desktop"@, m.appimage_desktop_instructions)
}

/// Lines joined back into one text, each with a terminating newline.
pub open spec fn spec_unlines(ls: Seq<Seq<char>>) -> Seq<char>
    decreases ls.len(),
{
    if ls.len() == 0 {
        Seq::empty()
    } else {
        ls[0] + "\n"@ + spec_unlines(ls.drop_first())
    }
}

/// The rendered description text of a record.
pub open spec fn spec_render(m: MetaView) -> Seq<char> {
    spec_unlines(render_lines(m))
}

/// Splitting rendered text recovers exactly the rendered lines.
pub proof fn lemma_lines_unlines(ls: Seq<Seq<char>>)
    requires
        forall|i: int| 0 <= i < ls.len() ==> no_newline(#[trigger] ls[i]),
    ensures
        spec_lines(spec_unlines(ls)) == ls,
    decreases ls.len(),
{
    reveal_strlit("\n");
    if ls.len() == 0 {
        assert(spec_lines(spec_unlines(ls)) =~= ls);
    } else {
        let l0 = ls[0];
        let rest = spec_unlines(ls.drop_first());
        let s = spec_unlines(ls);
        assert(s == l0 + "\n"@ + rest);
        assert("\n"@.len() == 1 && "\n"@[0] == '\n');
        assert(s.len() == l0.len() + 1 + rest.len());
        assert(s[l0.len() as int] == '\n');
        assert(forall|k: int| 0 <= k < l0.len() ==> s[k] == l0[k] && s[k] != '\n');
        lemma_find_at(s, '\n', l0.len() as int);
        assert(s.subrange(0, l0.len() as int) =~= l0);
        assert(s.subrange(l0.len() as int + 1, s.len() as int) =~= rest);
        lemma_lines_unlines(ls.drop_first());
        assert(spec_lines(s) == seq![l0] + ls.drop_first());
        assert(seq![l0] + ls.drop_first() =~= ls);
    }
}

/// The scanner folded forward over a line sequence from a given state.
pub open spec fn scan_fold(st: ScanState, lines: Seq<Seq<char>>) -> ScanState
    decreases lines.len(),
{
    if lines.len() == 0 {
        st
    } else {
        scan_fold(scan_line(st, lines[0]), lines.drop_first())
    }
}

pub proof fn lemma_scan_fold_append(st: ScanState, a: Seq<Seq<char>>, b: Seq<Seq<char>>)
    ensures
        scan_fold(st, a + b) == scan_fold(scan_fold(st, a), b),
    decreases a.len(),
{
    if a.len() == 0 {
        assert(a + b =~= b);
    } else {
        assert((a + b)[0] == a[0]);
        assert((a + b).drop_first() =~= a.drop_first() + b);
        lemma_scan_fold_append(scan_line(st, a[0]), a.drop_first(), b);
    }
}

proof fn lemma_scan_fold_snoc(st: ScanState, l: Seq<Seq<char>>, x: Seq<char>)
    ensures
        scan_fold(st, l.push(x)) == scan_line(scan_fold(st, l), x),
    decreases l.len(),
{
    if l.len() == 0 {
        assert(l.push(x)[0] == x);
        assert(l.push(x).drop_first() =~= Seq::<Seq<char>>::empty());
        assert(scan_fold(scan_line(st, x), Seq::<Seq<char>>::empty()) == scan_line(st, x));
        assert(scan_fold(st, l.push(x)) == scan_fold(
            scan_line(st, x),
            Seq::<Seq<char>>::empty(),
        ));
        assert(scan_fold(st, l) == st);
    } else {
        assert(l.push(x)[0] == l[0]);
        assert(l.push(x).drop_first() =~= l.drop_first().push(x));
        lemma_scan_fold_snoc(scan_line(st, l[0]), l.drop_first(), x);
        assert(scan_fold(st, l.push(x)) == scan_fold(
            scan_line(st, l[0]),
            l.drop_first().push(x),
        ));
        assert(scan_fold(st, l) == scan_fold(scan_line(st, l[0]), l.drop_first()));
    }
}

/// A key as the grammar requires it: non-empty, no whitespace, no colon, not
/// a comment opener.
pub open spec fn key_wf(key: Seq<char>) -> bool {
    key.len() > 0 && key[0] != '#' && (forall|i: int|
        0 <= i < key.len() ==> !is_space_char(#[trigger] key[i]) && key[i] != ':')
}

/// Scanning a rendered scalar line applies exactly that key and value.
pub proof fn lemma_scalar_line_scan(st: ScanState, key: Seq<char>, v: Seq<char>)
    requires
        st.err is None,
        st.block is None,
        key_wf(key),
        clean_scalar(v),
    ensures
        scan_line(st, scalar_line(key, v)) == (ScanState {
            m: apply_scalar(st.m, key, v),
            ..st
        }),
{
    reveal_strlit(": ");
    reveal_strlit("{");
    let line = scalar_line(key, v);
    let kn = key.len() as int;
    assert(": "@.len() == 2 && ": "@[0] == ':' && ": "@[1] == ' ');
    assert(line.len() == kn + 2 + v.len());
    assert(forall|i: int| 0 <= i < kn ==> line[i] == key[i]);
    assert(line[kn] == ':' && line[kn + 1] == ' ');
    assert(forall|i: int| 0 <= i < v.len() ==> line[kn + 2 + i] == v[i]);
    let t = if v.len() > 0 {
        line
    } else {
        line.subrange(0, kn + 1)
    };
    if v.len() > 0 {
        assert(!is_space_char(line[0]));
        assert(line[line.len() - 1] == v[v.len() - 1]);
        lemma_trim_fixed(line);
    } else {
        crate::text::lemma_trim_start_at(line, 0);
        assert(is_space_char(line[line.len() - 1]));
        assert(!is_space_char(line[line.len() - 2]));
        crate::text::lemma_trim_end_at(line, line.len() - 1);
        assert(spec_trim(line) == line.subrange(0, kn + 1));
    }
    assert(spec_trim(line) == t);
    assert(t.len() > 0);
    assert(t[0] == key[0] && t[0] != '#');
    assert(forall|i: int| 0 <= i < kn ==> t[i] == key[i] && t[i] != ':');
    assert(t[kn] == ':');
    lemma_find_at(t, ':', kn);
    assert(t.subrange(0, kn) =~= key);
    lemma_trim_fixed(key);
    let vp = t.subrange(kn + 1, t.len() as int);
    if v.len() > 0 {
        assert(vp[0] == ' ');
        assert(forall|i: int| 0 <= i < v.len() ==> vp[1 + i] == v[i]);
        crate::text::lemma_trim_start_at(vp, 1);
        let vq = vp.subrange(1, vp.len() as int);
        assert(vq =~= v);
        assert(spec_trim(vp) == crate::text::spec_trim_end(vq));
        crate::text::lemma_trim_end_at(vq, vq.len() as int);
        assert(spec_trim(vp) == vq.subrange(0, vq.len() as int));
        assert(vq.subrange(0, vq.len() as int) =~= v);
    } else {
        assert(vp =~= Seq::<char>::empty());
        assert(spec_trim(vp) =~= Seq::<char>::empty());
        assert(spec_trim(vp) == v);
    }
    assert(spec_trim(vp) == v);
    assert(v != "{"@);
}

/// Scanning a rendered block opener enters exactly that block, empty.
pub proof fn lemma_block_open_scan(st: ScanState, key: Seq<char>)
    requires
        st.err is None,
        st.block is None,
        key_wf(key),
    ensures
        scan_line(st, key + ": {"@) == (ScanState {
            block: Some(
                crate::metadata::BlockState { key: key, acc: Seq::<Seq<char>>::empty() },
            ),
            ..st
        }),
{
    reveal_strlit(": {");
    reveal_strlit("{");
    let line = key + ": {"@;
    let kn = key.len() as int;
    assert(": {"@.len() == 3 && ": {"@[0] == ':' && ": {"@[1] == ' ' && ": {"@[2] == '{');
    assert(line.len() == kn + 3);
    assert(forall|i: int| 0 <= i < kn ==> line[i] == key[i]);
    assert(line[kn] == ':' && line[kn + 1] == ' ' && line[kn + 2] == '{');
    assert(!is_space_char(line[0]));
    assert(!is_space_char(line[line.len() - 1]));
    lemma_trim_fixed(line);
    let t = line;
    assert(t[0] != '#');
    lemma_find_at(t, ':', kn);
    assert(t.subrange(0, kn) =~= key);
    lemma_trim_fixed(key);
    let vp = t.subrange(kn + 1, t.len() as int);
    assert(vp.len() == 2 && vp[0] == ' ' && vp[1] == '{');
    crate::text::lemma_trim_start_at(vp, 1);
    let vq = vp.subrange(1, 2);
    assert(spec_trim(vp) == crate::text::spec_trim_end(vq));
    crate::text::lemma_trim_end_at(vq, 1);
    assert(spec_trim(vp) == vq.subrange(0, 1));
    assert(vq.subrange(0, 1) =~= "{"@);
}

/// Scanning a clean block body line collects exactly that line.
pub proof fn lemma_block_body_scan(st: ScanState, b: Seq<char>)
    requires
        st.err is None,
        st.block is Some,
        clean_block_line(b),
    ensures
        scan_line(st, b) == (ScanState {
            block: Some(
                crate::metadata::BlockState {
                    key: st.block->Some_0.key,
                    acc: st.block->Some_0.acc.push(b),
                },
            ),
            ..st
        }),
{
    reveal_strlit("}");
    lemma_trim_fixed(b);
    assert(b != "}"@);
}

/// Scanning the block closer commits the collected block.
pub proof fn lemma_block_close_scan(st: ScanState)
    requires
        st.err is None,
        st.block is Some,
    ensures
        scan_line(st, "}"@) == (ScanState {
            m: commit_block(st.m, st.block->Some_0.key, st.block->Some_0.acc),
            block: None,
            err: None,
        }),
{
    reveal_strlit("}");
    assert("}"@.len() == 1 && "}"@[0] == '}');
    assert(!is_space_char("}"@[0]));
    lemma_trim_fixed("}"@);
}

proof fn lemma_scan_block_body(st: ScanState, ls: Seq<Seq<char>>)
    requires
        st.err is None,
        st.block is Some,
        clean_block(ls),
    ensures
        scan_fold(st, ls) == (ScanState {
            block: Some(
                crate::metadata::BlockState {
                    key: st.block->Some_0.key,
                    acc: st.block->Some_0.acc + ls,
                },
            ),
            ..st
        }),
    decreases ls.len(),
{
    if ls.len() == 0 {
        assert(st.block->Some_0.acc + ls =~= st.block->Some_0.acc);
        assert((ScanState {
            block: Some(
                crate::metadata::BlockState {
                    key: st.block->Some_0.key,
                    acc: st.block->Some_0.acc,
                },
            ),
            ..st
        }) == st);
    } else {
        lemma_block_body_scan(st, ls[0]);
        let st1 = scan_line(st, ls[0]);
        assert(clean_block(ls.drop_first()));
        lemma_scan_block_body(st1, ls.drop_first());
        assert(st.block->Some_0.acc.push(ls[0]) + ls.drop_first() =~= st.block->Some_0.acc + ls);
    }
}

/// Scanning a rendered block — opener, body, closer — commits exactly the
/// body lines under the block's key.
pub proof fn lemma_scan_block(st: ScanState, key: Seq<char>, ls: Seq<Seq<char>>)
    requires
        st.err is None,
        st.block is None,
        key_wf(key),
        clean_block(ls),
    ensures
        scan_fold(st, block_lines(key, ls)) == (ScanState {
            m: commit_block(st.m, key, ls),
            block: None,
            err: None,
        }),
{
    let opener = seq![key + ": {"@];
    let closer = seq!["}"@];
    lemma_scan_fold_append(st, opener, ls + closer);
    assert(block_lines(key, ls) =~= opener + (ls + closer));
    assert(opener.drop_first() =~= Seq::<Seq<char>>::empty());
    assert(scan_fold(scan_line(st, opener[0]), Seq::<Seq<char>>::empty()) == scan_line(
        st,
        opener[0],
    ));
    assert(scan_fold(st, opener) == scan_fold(scan_line(st, opener[0]), opener.drop_first()));
    assert(scan_fold(st, opener) == scan_line(st, opener[0]));
    lemma_block_open_scan(st, key);
    let st1 = scan_line(st, key + ": {"@);
    lemma_scan_fold_append(st1, ls, closer);
    lemma_scan_block_body(st1, ls);
    let st2 = scan_fold(st1, ls);
    assert(Seq::<Seq<char>>::empty() + ls =~= ls);
    assert(closer.drop_first() =~= Seq::<Seq<char>>::empty());
    assert(scan_fold(scan_line(st2, closer[0]), Seq::<Seq<char>>::empty()) == scan_line(
        st2,
        closer[0],
    ));
    assert(scan_fold(st2, closer) == scan_fold(scan_line(st2, closer[0]), closer.drop_first()));
    assert(scan_fold(st2, closer) == scan_line(st2, "}"@));
    lemma_block_close_scan(st2);
}

/// The rendered value of a list line: the joined elements in brackets.
pub open spec fn list_value(l: Seq<Seq<char>>) -> Seq<char> {
    "["@ + spec_join(l, ", "@) + "]"@
}

proof fn lemma_join_front(l: Seq<Seq<char>>, sep: Seq<char>)
    requires
        l.len() >= 2,
    ensures
        spec_join(l, sep) == l[0] + sep + spec_join(l.drop_first(), sep),
    decreases l.len(),
{
    if l.len() == 2 {
        assert(l.drop_last() =~= seq![l[0]]);
        assert(l.drop_first() =~= seq![l[1]]);
        assert(spec_join(seq![l[0]], sep) == l[0]);
        assert(spec_join(seq![l[1]], sep) == l[1]);
    } else {
        lemma_join_front(l.drop_last(), sep);
        assert(l.drop_last()[0] == l[0]);
        assert(l.drop_last().drop_first() =~= l.drop_first().drop_last());
        assert(spec_join(l, sep) == spec_join(l.drop_last(), sep) + sep + l.last());
        assert(spec_join(l.drop_first(), sep) == spec_join(l.drop_first().drop_last(), sep) + sep
            + l.drop_first().last());
        assert(l.drop_first().last() == l.last());
        assert((l[0] + sep + spec_join(l.drop_first().drop_last(), sep)) + sep + l.last() =~= l[0]
            + sep + (spec_join(l.drop_first().drop_last(), sep) + sep + l.last()));
    }
}

proof fn lemma_join_clean_chars(l: Seq<Seq<char>>)
    requires
        clean_list(l),
        l.len() > 0,
    ensures
        spec_join(l, ", "@).len() > 0,
        spec_join(l, ", "@)[0] == l[0][0],
        spec_join(l, ", "@)[spec_join(l, ", "@).len() - 1] == l.last()[l.last().len() - 1],
        no_newline(spec_join(l, ", "@)),
    decreases l.len(),
{
    reveal_strlit(", ");
    assert(", "@.len() == 2 && ", "@[0] == ',' && ", "@[1] == ' ');
    if l.len() == 1 {
        assert(spec_join(l, ", "@) == l[0]);
        assert(clean_elem(l[0]));
    } else {
        assert(clean_list(l.drop_last()));
        lemma_join_clean_chars(l.drop_last(), );
        let j0 = spec_join(l.drop_last(), ", "@);
        let j = spec_join(l, ", "@);
        assert(j == j0 + ", "@ + l.last());
        assert(clean_elem(l.last()));
        assert(j[0] == j0[0]);
        assert(l.drop_last()[0] == l[0]);
        assert(j[j.len() - 1] == l.last()[l.last().len() - 1]);
        assert forall|i: int| 0 <= i < j.len() implies j[i] != '\n' by {
            if i < j0.len() {
                assert(j[i] == j0[i]);
            } else if i < j0.len() + 2 {
            } else {
                assert(j[i] == l.last()[i - j0.len() - 2]);
            }
        }
    }
}

proof fn lemma_split_join_tail(l: Seq<Seq<char>>)
    requires
        clean_list(l),
        l.len() > 0,
    ensures
        crate::text::spec_split(" "@ + spec_join(l, ", "@), ',') == l.map_values(
            |e: Seq<char>| " "@ + e,
        ),
    decreases l.len(),
{
    reveal_strlit(" ");
    reveal_strlit(", ");
    assert(" "@.len() == 1 && " "@[0] == ' ');
    assert(", "@.len() == 2 && ", "@[0] == ',' && ", "@[1] == ' ');
    let s = " "@ + spec_join(l, ", "@);
    if l.len() == 1 {
        assert(spec_join(l, ", "@) == l[0]);
        assert(clean_elem(l[0]));
        assert(forall|k: int| 0 <= k < s.len() ==> s[k] != ',');
        lemma_find_none(s, ',');
        assert(crate::text::spec_split(s, ',') == seq![s]);
        assert(l.map_values(|e: Seq<char>| " "@ + e) =~= seq![" "@ + l[0]]);
    } else {
        lemma_join_front(l, ", "@);
        let e0 = l[0];
        let rest = spec_join(l.drop_first(), ", "@);
        let jj = spec_join(l, ", "@);
        assert(jj == e0 + ", "@ + rest);
        let idx = 1 + e0.len() as int;
        assert(clean_elem(e0));
        assert(s.len() == 1 + jj.len());
        assert(s[0] == ' ');
        assert(forall|k: int| 0 <= k < jj.len() ==> s[1 + k] == jj[k]);
        assert(forall|k: int| 0 <= k < e0.len() ==> jj[k] == e0[k]);
        assert(jj[e0.len() as int] == ',');
        assert(forall|k: int| 1 <= k < idx ==> s[k] == e0[k - 1]);
        assert(forall|k: int| 0 <= k < idx ==> s[k] != ',');
        assert(s[idx] == ',');
        assert(0 <= idx < s.len());
        lemma_find_at(s, ',', idx);
        assert(s.subrange(0, idx) =~= " "@ + e0);
        assert(s.subrange(idx + 1, s.len() as int) =~= " "@ + rest);
        assert(crate::text::spec_split(s, ',') == seq![s.subrange(0, idx)]
            + crate::text::spec_split(s.subrange(idx + 1, s.len() as int), ','));
        assert(clean_list(l.drop_first()));
        lemma_split_join_tail(l.drop_first());
        assert(crate::text::spec_split(s, ',') == seq![" "@ + e0] + l.drop_first().map_values(
            |e: Seq<char>| " "@ + e,
        ));
        assert(seq![" "@ + e0] + l.drop_first().map_values(|e: Seq<char>| " "@ + e)
            =~= l.map_values(|e: Seq<char>| " "@ + e));
    }
}

proof fn lemma_filter_all<A>(s: Seq<A>, pred: spec_fn(A) -> bool)
    requires
        forall|i: int| 0 <= i < s.len() ==> pred(#[trigger] s[i]),
    ensures
        s.filter(pred) == s,
    decreases s.len(),
{
    reveal(Seq::filter);
    if s.len() > 0 {
        lemma_filter_all(s.drop_last(), pred);
        assert(s.drop_last().push(s.last()) =~= s);
    }
}

proof fn lemma_clean_elem_identity(e: Seq<char>)
    requires
        clean_elem(e),
    ensures
        crate::metadata::spec_clean_elem(e) == e,
        crate::metadata::spec_clean_elem(" "@ + e) == e,
{
    reveal_strlit(" ");
    assert(" "@.len() == 1 && " "@[0] == ' ');
    lemma_trim_fixed(e);
    crate::text::lemma_strip_leading_at(e, '"', 0);
    crate::text::lemma_strip_trailing_at(e, '"', e.len() as int);
    assert(e.subrange(0, e.len() as int) =~= e);
    let s = " "@ + e;
    assert(is_space_char(s[0]));
    assert(forall|k: int| 0 <= k < e.len() ==> s[1 + k] == e[k]);
    crate::text::lemma_trim_start_at(s, 1);
    let t = s.subrange(1, s.len() as int);
    assert(t =~= e);
    crate::text::lemma_trim_end_at(t, t.len() as int);
    assert(t.subrange(0, t.len() as int) =~= e);
    assert(spec_trim(s) == e);
}

/// A bracketed, comma-joined rendering of clean elements parses back to
/// exactly those elements.
pub proof fn lemma_parse_array_roundtrip(l: Seq<Seq<char>>)
    requires
        clean_list(l),
    ensures
        spec_parse_array(list_value(l)) == l,
{
    reveal_strlit("[");
    reveal_strlit("]");
    assert("["@.len() == 1 && "["@[0] == '[');
    assert("]"@.len() == 1 && "]"@[0] == ']');
    let v = list_value(l);
    let cleaned = |e: Seq<char>| crate::metadata::spec_clean_elem(e);
    let nonempty = |e: Seq<char>| e.len() > 0;
    if l.len() == 0 {
        assert(spec_join(l, ", "@) == Seq::<char>::empty());
        assert(v =~= seq!['[', ']']);
        crate::text::lemma_strip_leading_at(v, '[', 1);
        let v1 = v.subrange(1, 2);
        assert(v1 =~= seq![']']);
        crate::text::lemma_strip_trailing_at(v1, ']', 0);
        let v2 = v1.subrange(0, 0);
        assert(v2 =~= Seq::<char>::empty());
        lemma_find_none(v2, ',');
        assert(crate::text::spec_split(v2, ',') == seq![v2]);
        assert(spec_trim(v2) =~= Seq::<char>::empty());
        crate::text::lemma_strip_leading_at(Seq::<char>::empty(), '"', 0);
        crate::text::lemma_strip_trailing_at(Seq::<char>::empty(), '"', 0);
        assert(crate::metadata::spec_clean_elem(v2).len() == 0);
        assert(seq![v2].map_values(cleaned) =~= seq![crate::metadata::spec_clean_elem(v2)]);
        reveal(Seq::filter);
        assert(Seq::<Seq<char>>::empty().filter(nonempty) =~= Seq::<Seq<char>>::empty());
        assert(seq![crate::metadata::spec_clean_elem(v2)].drop_last()
            =~= Seq::<Seq<char>>::empty());
        assert(seq![crate::metadata::spec_clean_elem(v2)].filter(nonempty)
            =~= Seq::<Seq<char>>::empty());
        assert(spec_parse_array(v) =~= l);
    } else {
        lemma_join_clean_chars(l);
        let j = spec_join(l, ", "@);
        assert(clean_elem(l[0]));
        assert(clean_elem(l.last()));
        assert(v.len() == 1 + j.len() + 1);
        assert(v[0] == '[');
        assert(forall|k: int| 0 <= k < j.len() ==> v[1 + k] == j[k]);
        assert(v[1] == j[0] && j[0] == l[0][0] && l[0][0] != '[');
        crate::text::lemma_strip_leading_at(v, '[', 1);
        let v1 = v.subrange(1, v.len() as int);
        assert(v1 =~= j + "]"@);
        assert(v1[v1.len() - 1] == ']');
        assert(v1[v1.len() - 2] == j[j.len() - 1] && j[j.len() - 1] != ']');
        crate::text::lemma_strip_trailing_at(v1, ']', v1.len() - 1);
        let v2 = v1.subrange(0, v1.len() - 1);
        assert(v2 =~= j);
        let pieces: Seq<Seq<char>> = if l.len() == 1 {
            seq![l[0]]
        } else {
            seq![l[0]] + l.drop_first().map_values(|e: Seq<char>| " "@ + e)
        };
        if l.len() == 1 {
            assert(j == l[0]);
            lemma_find_none(j, ',');
            assert(crate::text::spec_split(j, ',') == seq![j]);
        } else {
            reveal_strlit(", ");
            reveal_strlit(" ");
            assert(", "@.len() == 2 && ", "@[0] == ',' && ", "@[1] == ' ');
            assert(" "@.len() == 1 && " "@[0] == ' ');
            lemma_join_front(l, ", "@);
            let rest = spec_join(l.drop_first(), ", "@);
            assert(j == l[0] + ", "@ + rest);
            let idx = l[0].len() as int;
            assert(forall|k: int| 0 <= k < idx ==> j[k] == l[0][k] && j[k] != ',');
            assert(j[idx] == ',');
            assert(0 <= idx < j.len());
            lemma_find_at(j, ',', idx);
            assert(j.subrange(0, idx) =~= l[0]);
            assert(j.subrange(idx + 1, j.len() as int) =~= " "@ + rest);
            assert(crate::text::spec_split(j, ',') == seq![j.subrange(0, idx)]
                + crate::text::spec_split(j.subrange(idx + 1, j.len() as int), ','));
            assert(clean_list(l.drop_first()));
            lemma_split_join_tail(l.drop_first());
            assert(crate::text::spec_split(j, ',') == seq![l[0]] + l.drop_first().map_values(
                |e: Seq<char>| " "@ + e,
            ));
        }
        assert(crate::text::spec_split(j, ',') == pieces);
        assert forall|i: int| 0 <= i < pieces.len() implies cleaned(#[trigger] pieces[i]) == l[i]
            && nonempty(l[i]) by {
            if i == 0 {
                lemma_clean_elem_identity(l[0]);
            } else {
                assert(pieces[i] == " "@ + l.drop_first().map_values(
                    |e: Seq<char>| e,
                )[i - 1] || true);
                assert(pieces[i] == " "@ + l[i]);
                assert(clean_elem(l[i]));
                lemma_clean_elem_identity(l[i]);
            }
        }
        assert(pieces.map_values(cleaned) =~= l);
        lemma_filter_all(l, nonempty);
        assert(spec_parse_array(v) == l);
    }
}

proof fn lemma_list_value_clean(l: Seq<Seq<char>>)
    requires
        clean_list(l),
    ensures
        clean_scalar(list_value(l)),
        no_newline(list_value(l)),
        list_value(l)[0] == '[',
    decreases l.len(),
{
    reveal_strlit("[");
    reveal_strlit("]");
    reveal_strlit("{");
    assert("["@.len() == 1 && "["@[0] == '[');
    assert("]"@.len() == 1 && "]"@[0] == ']');
    let v = list_value(l);
    let j = spec_join(l, ", "@);
    if l.len() > 0 {
        lemma_join_clean_chars(l);
    } else {
        assert(j == Seq::<char>::empty());
    }
    assert(v.len() == 1 + j.len() + 1);
    assert(v[0] == '[');
    assert(v[v.len() - 1] == ']');
    assert forall|i: int| 0 <= i < v.len() implies v[i] != '\n' by {
        if i == 0 || i == v.len() - 1 {
        } else {
            assert(v[i] == j[i - 1]);
        }
    }
    assert(v != "{"@) by {
        assert(v[0] == '[');
        assert("{"@.len() == 1 && "{"@[0] == '{');
    }
}

/// Scanning a rendered list line applies exactly that key and the bracketed
/// value.
pub proof fn lemma_list_line_scan(st: ScanState, key: Seq<char>, l: Seq<Seq<char>>)
    requires
        st.err is None,
        st.block is None,
        key_wf(key),
        clean_list(l),
    ensures
        scan_line(st, list_line(key, l)) == (ScanState {
            m: apply_scalar(st.m, key, list_value(l)),
            ..st
        }),
{
    reveal_strlit(": [");
    reveal_strlit(": ");
    reveal_strlit("[");
    assert(": ["@.len() == 3 && ": ["@[0] == ':' && ": ["@[1] == ' ' && ": ["@[2] == '[');
    assert(": "@.len() == 2 && ": "@[0] == ':' && ": "@[1] == ' ');
    assert("["@.len() == 1 && "["@[0] == '[');
    lemma_list_value_clean(l);
    let v = list_value(l);
    assert(list_line(key, l) =~= scalar_line(key, v));
    lemma_scalar_line_scan(st, key, v);
}

proof fn lemma_strip_quotes_noop(v: Seq<char>)
    requires
        v.len() == 0 || (v[0] != '"' && v[v.len() - 1] != '"'),
    ensures
        crate::text::spec_strip_edges(v, '"') == v,
{
    crate::text::lemma_strip_leading_at(v, '"', 0);
    assert(v.subrange(0, v.len() as int) =~= v);
    crate::text::lemma_strip_trailing_at(v, '"', v.len() as int);
}

/// The indexed scan of the parser equals the forward fold.
pub proof fn lemma_scan_upto_is_fold(lines: Seq<Seq<char>>, n: int)
    requires
        0 <= n <= lines.len(),
    ensures
        scan_upto(lines, n) == scan_fold(init_scan_state(), lines.subrange(0, n)),
    decreases n,
{
    if n == 0 {
        assert(lines.subrange(0, 0) =~= Seq::<Seq<char>>::empty());
    } else {
        lemma_scan_upto_is_fold(lines, n - 1);
        assert(lines.subrange(0, n) =~= lines.subrange(0, n - 1).push(lines[n - 1]));
        lemma_scan_fold_snoc(init_scan_state(), lines.subrange(0, n - 1), lines[n - 1]);
    }
}



proof fn lemma_scalar_line_no_newline(key: Seq<char>, v: Seq<char>)
    requires
        key_wf(key),
        no_newline(v),
    ensures
        no_newline(scalar_line(key, v)),
{
    reveal_strlit(": ");
    assert(": "@.len() == 2 && ": "@[0] == ':' && ": "@[1] == ' ');
    let s = scalar_line(key, v);
    assert forall|i: int| 0 <= i < s.len() implies s[i] != '\n' by {
        if i < key.len() {
            assert(s[i] == key[i]);
            assert(!is_space_char(key[i]));
        } else if i < key.len() + 2 {
        } else {
            assert(s[i] == v[i - key.len() - 2]);
        }
    }
}

proof fn lemma_list_line_eq_scalar(key: Seq<char>, l: Seq<Seq<char>>)
    ensures
        list_line(key, l) == scalar_line(key, list_value(l)),
{
    reveal_strlit(": [");
    reveal_strlit(": ");
    reveal_strlit("[");
    assert(": ["@.len() == 3 && ": ["@[0] == ':' && ": ["@[1] == ' ' && ": ["@[2] == '[');
    assert(": "@.len() == 2 && ": "@[0] == ':' && ": "@[1] == ' ');
    assert("["@.len() == 1 && "["@[0] == '[');
    assert(list_line(key, l) =~= scalar_line(key, list_value(l)));
}

proof fn lemma_block_lines_no_newline(key: Seq<char>, ls: Seq<Seq<char>>)
    requires
        key_wf(key),
        clean_block(ls),
    ensures
        forall|i: int|
            0 <= i < block_lines(key, ls).len() ==> no_newline(#[trigger] block_lines(key, ls)[i]),
{
    reveal_strlit(": {");
    reveal_strlit("}");
    assert(": {"@.len() == 3 && ": {"@[0] == ':' && ": {"@[1] == ' ' && ": {"@[2] == '{');
    assert("}"@.len() == 1 && "}"@[0] == '}');
    let bl = block_lines(key, ls);
    assert forall|i: int| 0 <= i < bl.len() implies no_newline(#[trigger] bl[i]) by {
        if i == 0 {
            let s = key + ": {"@;
            assert(bl[0] == s);
            assert forall|k: int| 0 <= k < s.len() implies s[k] != '\n' by {
                if k < key.len() {
                    assert(s[k] == key[k]);
                    assert(!is_space_char(key[k]));
                }
            }
        } else if i < 1 + ls.len() {
            assert(bl[i] == ls[i - 1]);
            assert(clean_block_line(ls[i - 1]));
        } else {
            assert(bl[i] == "}"@);
        }
    }
}

/// The scalar lines of the rendering, in declaration order.
pub open spec fn scalar_lines(m: MetaView) -> Seq<Seq<char>> {
    seq![
        scalar_line("name"@, m.name),
        scalar_line("version"@, m.version),
        scalar_line("release"@, m.release),
        scalar_line("maintainer"@, m.maintainer),
        scalar_line("email"@, m.email),
        scalar_line("description"@, m.description),
        scalar_line("url"@, m.url),
        scalar_line("license"@, m.license),
        scalar_line("appimage_exec"@, m.appimage_exec),
    ]
}

/// The list lines of the rendering, in declaration order.
pub open spec fn list_lines(m: MetaView) -> Seq<Seq<char>> {
    seq![
        list_line("arch"@, m.arch),
        list_line("alpm_depends"@, m.alpm_depends),
        list_line("deb_depends"@, m.deb_depends),
        list_line("rpm_depends"@, m.rpm_depends),
        list_line("provides"@, m.provides),
        list_line("conflicts"@, m.conflicts),
        list_line("sources"@, m.sources),
        list_line("md5sums"@, m.md5sums),
        list_line("sha1sums"@, m.sha1sums),
        list_line("sha256sums"@, m.sha256sums),
        list_line("sha512sums"@, m.sha512sums),
        list_line("alpm_build_env"@, m.alpm_build_env),
    ]
}

proof fn lemma_render_lines_split(m: MetaView)
    ensures
        render_lines(m) == scalar_lines(m) + list_lines(m) + block_lines(
            "package"@,
            m.package_instructions,
        ) + block_lines("appimage_icon"@, m.appimage_icon_instructions) + block_lines(
            "appimage_desktop"@,
            m.appimage_desktop_instructions,
        ),
{
    assert(render_lines(m) =~= scalar_lines(m) + list_lines(m) + block_lines(
        "package"@,
        m.package_instructions,
    ) + block_lines("appimage_icon"@, m.appimage_icon_instructions) + block_lines(
        "appimage_desktop"@,
        m.appimage_desktop_instructions,
    ));
}

#[verifier::rlimit(100)]
proof fn lemma_render_lines_no_newline(m: MetaView)
    requires
        clean_meta(m),
    ensures
        forall|i: int|
            0 <= i < render_lines(m).len() ==> no_newline(#[trigger] render_lines(m)[i]),
{
    reveal_strlit("name");
    assert(key_wf("name"@));
    lemma_scalar_line_no_newline("name"@, m.name);
    reveal_strlit("version");
    assert(key_wf("version"@));
    lemma_scalar_line_no_newline("version"@, m.version);
    reveal_strlit("release");
    assert(key_wf("release"@));
    lemma_scalar_line_no_newline("release"@, m.release);
    reveal_strlit("maintainer");
    assert(key_wf("maintainer"@));
    lemma_scalar_line_no_newline("maintainer"@, m.maintainer);
    reveal_strlit("email");
    assert(key_wf("email"@));
    lemma_scalar_line_no_newline("email"@, m.email);
    reveal_strlit("description");
    assert(key_wf("description"@));
    lemma_scalar_line_no_newline("description"@, m.description);
    reveal_strlit("url");
    assert(key_wf("url"@));
    lemma_scalar_line_no_newline("url"@, m.url);
    reveal_strlit("license");
    assert(key_wf("license"@));
    lemma_scalar_line_no_newline("license"@, m.license);
    reveal_strlit("appimage_exec");
    assert(key_wf("appimage_exec"@));
    lemma_scalar_line_no_newline("appimage_exec"@, m.appimage_exec);
    reveal_strlit("arch");
    assert(key_wf("arch"@));
    lemma_list_value_clean(m.arch);
    lemma_list_line_eq_scalar("arch"@, m.arch);
    lemma_scalar_line_no_newline("arch"@, list_value(m.arch));
    reveal_strlit("alpm_depends");
    assert(key_wf("alpm_depends"@));
    lemma_list_value_clean(m.alpm_depends);
    lemma_list_line_eq_scalar("alpm_depends"@, m.alpm_depends);
    lemma_scalar_line_no_newline("alpm_depends"@, list_value(m.alpm_depends));
    reveal_strlit("deb_depends");
    assert(key_wf("deb_depends"@));
    lemma_list_value_clean(m.deb_depends);
    lemma_list_line_eq_scalar("deb_depends"@, m.deb_depends);
    lemma_scalar_line_no_newline("deb_depends"@, list_value(m.deb_depends));
    reveal_strlit("rpm_depends");
    assert(key_wf("rpm_depends"@));
    lemma_list_value_clean(m.rpm_depends);
    lemma_list_line_eq_scalar("rpm_depends"@, m.rpm_depends);
    lemma_scalar_line_no_newline("rpm_depends"@, list_value(m.rpm_depends));
    reveal_strlit("provides");
    assert(key_wf("provides"@));
    lemma_list_value_clean(m.provides);
    lemma_list_line_eq_scalar("provides"@, m.provides);
    lemma_scalar_line_no_newline("provides"@, list_value(m.provides));
    reveal_strlit("conflicts");
    assert(key_wf("conflicts"@));
    lemma_list_value_clean(m.conflicts);
    lemma_list_line_eq_scalar("conflicts"@, m.conflicts);
    lemma_scalar_line_no_newline("conflicts"@, list_value(m.conflicts));
    reveal_strlit("sources");
    assert(key_wf("sources"@));
    lemma_list_value_clean(m.sources);
    lemma_list_line_eq_scalar("sources"@, m.sources);
    lemma_scalar_line_no_newline("sources"@, list_value(m.sources));
    reveal_strlit("md5sums");
    assert(key_wf("md5sums"@));
    lemma_list_value_clean(m.md5sums);
    lemma_list_line_eq_scalar("md5sums"@, m.md5sums);
    lemma_scalar_line_no_newline("md5sums"@, list_value(m.md5sums));
    reveal_strlit("sha1sums");
    assert(key_wf("sha1sums"@));
    lemma_list_value_clean(m.sha1sums);
    lemma_list_line_eq_scalar("sha1sums"@, m.sha1sums);
    lemma_scalar_line_no_newline("sha1sums"@, list_value(m.sha1sums));
    reveal_strlit("sha256sums");
    assert(key_wf("sha256sums"@));
    lemma_list_value_clean(m.sha256sums);
    lemma_list_line_eq_scalar("sha256sums"@, m.sha256sums);
    lemma_scalar_line_no_newline("sha256sums"@, list_value(m.sha256sums));
    reveal_strlit("sha512sums");
    assert(key_wf("sha512sums"@));
    lemma_list_value_clean(m.sha512sums);
    lemma_list_line_eq_scalar("sha512sums"@, m.sha512sums);
    lemma_scalar_line_no_newline("sha512sums"@, list_value(m.sha512sums));
    reveal_strlit("alpm_build_env");
    assert(key_wf("alpm_build_env"@));
    lemma_list_value_clean(m.alpm_build_env);
    lemma_list_line_eq_scalar("alpm_build_env"@, m.alpm_build_env);
    lemma_scalar_line_no_newline("alpm_build_env"@, list_value(m.alpm_build_env));
    reveal_strlit("package");
    assert(key_wf("package"@));
    lemma_block_lines_no_newline("package"@, m.package_instructions);
    reveal_strlit("appimage_icon");
    assert(key_wf("appimage_icon"@));
    lemma_block_lines_no_newline("appimage_icon"@, m.appimage_icon_instructions);
    reveal_strlit("appimage_desktop");
    assert(key_wf("appimage_desktop"@));
    lemma_block_lines_no_newline("appimage_desktop"@, m.appimage_desktop_instructions);
    lemma_render_lines_split(m);
    let a = scalar_lines(m);
    let b = list_lines(m);
    let b1 = block_lines("package"@, m.package_instructions);
    let b2 = block_lines("appimage_icon"@, m.appimage_icon_instructions);
    let b3 = block_lines("appimage_desktop"@, m.appimage_desktop_instructions);
    let rl = render_lines(m);
    assert forall|i: int| 0 <= i < rl.len() implies no_newline(#[trigger] rl[i]) by {
        if i < 9 {
            assert(rl[i] == a[i]);
        } else if i < 21 {
            assert(rl[i] == b[i - 9]);
        } else if i < 21 + b1.len() {
            assert(rl[i] == b1[i - 21]);
        } else if i < 21 + b1.len() + b2.len() {
            assert(rl[i] == b2[i - 21 - b1.len()]);
        } else {
            assert(rl[i] == b3[i - 21 - b1.len() - b2.len()]);
        }
    }
}

/// The scanner state after the scalar lines: exactly those fields set over
/// the defaults.
pub open spec fn state_after_scalars(m: MetaView) -> ScanState {
    ScanState {
        m: MetaView {
            name: m.name,
            version: m.version,
            release: m.release,
            maintainer: m.maintainer,
            email: m.email,
            description: m.description,
            url: m.url,
            license: m.license,
            appimage_exec: m.appimage_exec,
            ..crate::metadata::spec_default_meta()
        },
        block: None,
        err: None,
    }
}

#[verifier::rlimit(100)]
proof fn lemma_scan_scalar_lines(m: MetaView)
    requires
        clean_meta(m),
    ensures
        scan_fold(init_scan_state(), scalar_lines(m)) == state_after_scalars(m),
{
    reveal_strlit("name");
    reveal_strlit("version");
    reveal_strlit("release");
    reveal_strlit("maintainer");
    reveal_strlit("email");
    reveal_strlit("description");
    reveal_strlit("url");
    reveal_strlit("license");
    reveal_strlit("appimage_exec");
    reveal_strlit("arch");
    reveal_strlit("alpm_depends");
    reveal_strlit("deb_depends");
    reveal_strlit("rpm_depends");
    reveal_strlit("provides");
    reveal_strlit("conflicts");
    reveal_strlit("sources");
    reveal_strlit("md5sums");
    reveal_strlit("sha1sums");
    reveal_strlit("sha256sums");
    reveal_strlit("sha512sums");
    reveal_strlit("alpm_build_env");
    let a = scalar_lines(m);
    let s0 = init_scan_state();
    assert(a.len() == 9 && a[0] == a[0]);
    assert(key_wf("name"@));
    lemma_scalar_line_scan(s0, "name"@, m.name);
    let s1 = scan_line(s0, a[0]);
    let a1 = a.drop_first();
    assert(scan_fold(s0, a) == scan_fold(s1, a1));
    assert(a1.len() == 8 && a1[0] == a[1]);
    assert(key_wf("version"@));
    lemma_scalar_line_scan(s1, "version"@, m.version);
    let s2 = scan_line(s1, a[1]);
    let a2 = a1.drop_first();
    assert(scan_fold(s1, a1) == scan_fold(s2, a2));
    assert(a2.len() == 7 && a2[0] == a[2]);
    assert(key_wf("release"@));
    lemma_scalar_line_scan(s2, "release"@, m.release);
    let s3 = scan_line(s2, a[2]);
    let a3 = a2.drop_first();
    assert(scan_fold(s2, a2) == scan_fold(s3, a3));
    assert(a3.len() == 6 && a3[0] == a[3]);
    assert(key_wf("maintainer"@));
    lemma_scalar_line_scan(s3, "maintainer"@, m.maintainer);
    let s4 = scan_line(s3, a[3]);
    let a4 = a3.drop_first();
    assert(scan_fold(s3, a3) == scan_fold(s4, a4));
    assert(a4.len() == 5 && a4[0] == a[4]);
    assert(key_wf("email"@));
    lemma_scalar_line_scan(s4, "email"@, m.email);
    let s5 = scan_line(s4, a[4]);
    let a5 = a4.drop_first();
    assert(scan_fold(s4, a4) == scan_fold(s5, a5));
    assert(a5.len() == 4 && a5[0] == a[5]);
    assert(key_wf("description"@));
    lemma_scalar_line_scan(s5, "description"@, m.description);
    let s6 = scan_line(s5, a[5]);
    let a6 = a5.drop_first();
    assert(scan_fold(s5, a5) == scan_fold(s6, a6));
    assert(a6.len() == 3 && a6[0] == a[6]);
    assert(key_wf("url"@));
    lemma_scalar_line_scan(s6, "url"@, m.url);
    let s7 = scan_line(s6, a[6]);
    let a7 = a6.drop_first();
    assert(scan_fold(s6, a6) == scan_fold(s7, a7));
    assert(a7.len() == 2 && a7[0] == a[7]);
    assert(key_wf("license"@));
    lemma_scalar_line_scan(s7, "license"@, m.license);
    let s8 = scan_line(s7, a[7]);
    let a8 = a7.drop_first();
    assert(scan_fold(s7, a7) == scan_fold(s8, a8));
    assert(a8.len() == 1 && a8[0] == a[8]);
    assert(clean_scalar(m.appimage_exec) && (m.appimage_exec.len() == 0 || (m.appimage_exec[0] != '"' && m.appimage_exec[m.appimage_exec.len() - 1] != '"')));
    assert(key_wf("appimage_exec"@));
    lemma_scalar_line_scan(s8, "appimage_exec"@, m.appimage_exec);
    let s9 = scan_line(s8, a[8]);
    let a9 = a8.drop_first();
    assert(scan_fold(s8, a8) == scan_fold(s9, a9));
    assert(a9.len() == 0);
    assert(scan_fold(s9, a9) == s9);
    lemma_strip_quotes_noop(m.appimage_exec);
    assert(s9.m =~= state_after_scalars(m).m);
    assert(s9 =~= state_after_scalars(m));
}

/// The scanner state after the list lines as well: every field of the record
/// set, only the provenance stamp and instruction blocks still default.
pub open spec fn state_after_lists(m: MetaView) -> ScanState {
    ScanState {
        m: MetaView {
            pkgbuild_sha256sum: Seq::empty(),
            package_instructions: Seq::empty(),
            appimage_icon_instructions: Seq::empty(),
            appimage_desktop_instructions: Seq::empty(),
            ..m
        },
        block: None,
        err: None,
    }
}

#[verifier::rlimit(100)]
proof fn lemma_scan_list_lines(m: MetaView)
    requires
        clean_meta(m),
    ensures
        scan_fold(state_after_scalars(m), list_lines(m)) == state_after_lists(m),
{
    reveal_strlit("name");
    reveal_strlit("version");
    reveal_strlit("release");
    reveal_strlit("maintainer");
    reveal_strlit("email");
    reveal_strlit("description");
    reveal_strlit("url");
    reveal_strlit("license");
    reveal_strlit("appimage_exec");
    reveal_strlit("arch");
    reveal_strlit("alpm_depends");
    reveal_strlit("deb_depends");
    reveal_strlit("rpm_depends");
    reveal_strlit("provides");
    reveal_strlit("conflicts");
    reveal_strlit("sources");
    reveal_strlit("md5sums");
    reveal_strlit("sha1sums");
    reveal_strlit("sha256sums");
    reveal_strlit("sha512sums");
    reveal_strlit("alpm_build_env");
    let b = list_lines(m);
    let s0 = state_after_scalars(m);
    assert(b.len() == 12 && b[0] == b[0]);
    assert(key_wf("arch"@));
    lemma_list_line_eq_scalar("arch"@, m.arch);
    lemma_list_line_scan(s0, "arch"@, m.arch);
    lemma_parse_array_roundtrip(m.arch);
    let s1 = scan_line(s0, b[0]);
    assert(s1.m =~= MetaView { arch: m.arch, ..s0.m });
    let b1 = b.drop_first();
    assert(scan_fold(s0, b) == scan_fold(s1, b1));
    assert(b1.len() == 11 && b1[0] == b[1]);
    assert(key_wf("alpm_depends"@));
    lemma_list_line_eq_scalar("alpm_depends"@, m.alpm_depends);
    lemma_list_line_scan(s1, "alpm_depends"@, m.alpm_depends);
    lemma_parse_array_roundtrip(m.alpm_depends);
    let s2 = scan_line(s1, b[1]);
    assert(s2.m =~= MetaView { alpm_depends: m.alpm_depends, ..s1.m });
    let b2 = b1.drop_first();
    assert(scan_fold(s1, b1) == scan_fold(s2, b2));
    assert(b2.len() == 10 && b2[0] == b[2]);
    assert(key_wf("deb_depends"@));
    assert("deb_depends"@[2] == 'b' && "description"@[2] == 's');
    assert("deb_depends"@ != "description"@);
    lemma_list_line_eq_scalar("deb_depends"@, m.deb_depends);
    lemma_list_line_scan(s2, "deb_depends"@, m.deb_depends);
    lemma_parse_array_roundtrip(m.deb_depends);
    let s3 = scan_line(s2, b[2]);
    assert(s3.m =~= MetaView { deb_depends: m.deb_depends, ..s2.m });
    let b3 = b2.drop_first();
    assert(scan_fold(s2, b2) == scan_fold(s3, b3));
    assert(b3.len() == 9 && b3[0] == b[3]);
    assert(key_wf("rpm_depends"@));
    lemma_list_line_eq_scalar("rpm_depends"@, m.rpm_depends);
    lemma_list_line_scan(s3, "rpm_depends"@, m.rpm_depends);
    lemma_parse_array_roundtrip(m.rpm_depends);
    let s4 = scan_line(s3, b[3]);
    assert(s4.m =~= MetaView { rpm_depends: m.rpm_depends, ..s3.m });
    let b4 = b3.drop_first();
    assert(scan_fold(s3, b3) == scan_fold(s4, b4));
    assert(b4.len() == 8 && b4[0] == b[4]);
    assert(key_wf("provides"@));
    lemma_list_line_eq_scalar("provides"@, m.provides);
    lemma_list_line_scan(s4, "provides"@, m.provides);
    lemma_parse_array_roundtrip(m.provides);
    let s5 = scan_line(s4, b[4]);
    assert(s5.m =~= MetaView { provides: m.provides, ..s4.m });
    let b5 = b4.drop_first();
    assert(scan_fold(s4, b4) == scan_fold(s5, b5));
    assert(b5.len() == 7 && b5[0] == b[5]);
    assert(key_wf("conflicts"@));
    lemma_list_line_eq_scalar("conflicts"@, m.conflicts);
    lemma_list_line_scan(s5, "conflicts"@, m.conflicts);
    lemma_parse_array_roundtrip(m.conflicts);
    let s6 = scan_line(s5, b[5]);
    assert(s6.m =~= MetaView { conflicts: m.conflicts, ..s5.m });
    let b6 = b5.drop_first();
    assert(scan_fold(s5, b5) == scan_fold(s6, b6));
    assert(b6.len() == 6 && b6[0] == b[6]);
    assert(key_wf("sources"@));
    lemma_list_line_eq_scalar("sources"@, m.sources);
    lemma_list_line_scan(s6, "sources"@, m.sources);
    lemma_parse_array_roundtrip(m.sources);
    let s7 = scan_line(s6, b[6]);
    assert(s7.m =~= MetaView { sources: m.sources, ..s6.m });
    let b7 = b6.drop_first();
    assert(scan_fold(s6, b6) == scan_fold(s7, b7));
    assert(b7.len() == 5 && b7[0] == b[7]);
    assert(key_wf("md5sums"@));
    lemma_list_line_eq_scalar("md5sums"@, m.md5sums);
    lemma_list_line_scan(s7, "md5sums"@, m.md5sums);
    lemma_parse_array_roundtrip(m.md5sums);
    let s8 = scan_line(s7, b[7]);
    assert(s8.m =~= MetaView { md5sums: m.md5sums, ..s7.m });
    let b8 = b7.drop_first();
    assert(scan_fold(s7, b7) == scan_fold(s8, b8));
    assert(b8.len() == 4 && b8[0] == b[8]);
    assert(key_wf("sha1sums"@));
    lemma_list_line_eq_scalar("sha1sums"@, m.sha1sums);
    lemma_list_line_scan(s8, "sha1sums"@, m.sha1sums);
    lemma_parse_array_roundtrip(m.sha1sums);
    let s9 = scan_line(s8, b[8]);
    assert(s9.m =~= MetaView { sha1sums: m.sha1sums, ..s8.m });
    let b9 = b8.drop_first();
    assert(scan_fold(s8, b8) == scan_fold(s9, b9));
    assert(b9.len() == 3 && b9[0] == b[9]);
    assert(key_wf("sha256sums"@));
    lemma_list_line_eq_scalar("sha256sums"@, m.sha256sums);
    lemma_list_line_scan(s9, "sha256sums"@, m.sha256sums);
    lemma_parse_array_roundtrip(m.sha256sums);
    let s10 = scan_line(s9, b[9]);
    assert(s10.m =~= MetaView { sha256sums: m.sha256sums, ..s9.m });
    let b10 = b9.drop_first();
    assert(scan_fold(s9, b9) == scan_fold(s10, b10));
    assert(b10.len() == 2 && b10[0] == b[10]);
    assert(key_wf("sha512sums"@));
    assert("sha512sums"@[3] == '5' && "sha256sums"@[3] == '2');
    assert("sha512sums"@ != "sha256sums"@);
    lemma_list_line_eq_scalar("sha512sums"@, m.sha512sums);
    lemma_list_line_scan(s10, "sha512sums"@, m.sha512sums);
    lemma_parse_array_roundtrip(m.sha512sums);
    let s11 = scan_line(s10, b[10]);
    assert(s11.m =~= MetaView { sha512sums: m.sha512sums, ..s10.m });
    let b11 = b10.drop_first();
    assert(scan_fold(s10, b10) == scan_fold(s11, b11));
    assert(b11.len() == 1 && b11[0] == b[11]);
    assert(key_wf("alpm_build_env"@));
    lemma_list_line_eq_scalar("alpm_build_env"@, m.alpm_build_env);
    lemma_list_line_scan(s11, "alpm_build_env"@, m.alpm_build_env);
    lemma_parse_array_roundtrip(m.alpm_build_env);
    let s12 = scan_line(s11, b[11]);
    assert(s12.m =~= MetaView { alpm_build_env: m.alpm_build_env, ..s11.m });
    let b12 = b11.drop_first();
    assert(scan_fold(s11, b11) == scan_fold(s12, b12));
    assert(b12.len() == 0);
    assert(scan_fold(s12, b12) == s12);
    assert(s12.m =~= state_after_lists(m).m);
    assert(s12 =~= state_after_lists(m));
}

/// The round-trip law of the parser: a description rendered from a clean
/// record whose required fields are populated parses back to exactly that
/// record — every scalar and list value survives without trimming or quoting
/// artifacts — stamped with the digest of the rendered text.
#[verifier::rlimit(100)]
pub proof fn lemma_parse_render_round_trip(m: MetaView, sha_hex: Seq<char>)
    requires
        clean_meta(m),
        m.name.len() > 0,
        m.version.len() > 0,
        m.release.len() > 0,
        m.maintainer.len() > 0,
        m.description.len() > 0,
        m.url.len() > 0,
        m.license.len() > 0,
        m.md5sums.len() > 0 || m.sha1sums.len() > 0 || m.sha256sums.len() > 0 || m.sha512sums.len()
            > 0,
    ensures
        crate::metadata::spec_outcome(spec_lines(spec_render(m)), sha_hex) == Ok::<
            MetaView,
            crate::errors::BuildError,
        >(MetaView { pkgbuild_sha256sum: sha_hex, ..m }),
{
    reveal_strlit("package");
    reveal_strlit("appimage_icon");
    reveal_strlit("appimage_desktop");
    assert(key_wf("package"@));
    assert(key_wf("appimage_icon"@));
    assert(key_wf("appimage_desktop"@));
    lemma_render_lines_no_newline(m);
    let rl = render_lines(m);
    lemma_lines_unlines(rl);
    assert(spec_lines(spec_render(m)) == rl);
    lemma_render_lines_split(m);
    let a = scalar_lines(m);
    let b = list_lines(m);
    let b1 = block_lines("package"@, m.package_instructions);
    let b2 = block_lines("appimage_icon"@, m.appimage_icon_instructions);
    let b3 = block_lines("appimage_desktop"@, m.appimage_desktop_instructions);
    let s0 = init_scan_state();
    lemma_scan_fold_append(s0, a + b + b1 + b2, b3);
    lemma_scan_fold_append(s0, a + b + b1, b2);
    lemma_scan_fold_append(s0, a + b, b1);
    lemma_scan_fold_append(s0, a, b);
    lemma_scan_scalar_lines(m);
    lemma_scan_list_lines(m);
    let s2 = state_after_lists(m);
    lemma_scan_block(s2, "package"@, m.package_instructions);
    let s3 = scan_fold(s2, b1);
    lemma_scan_block(s3, "appimage_icon"@, m.appimage_icon_instructions);
    let s4 = scan_fold(s3, b2);
    lemma_scan_block(s4, "appimage_desktop"@, m.appimage_desktop_instructions);
    let sf = scan_fold(s4, b3);
    assert(scan_fold(s0, rl) == sf);
    assert(sf.err is None && sf.block is None);
    assert(sf.m =~= MetaView { pkgbuild_sha256sum: Seq::<char>::empty(), ..m });
    lemma_scan_upto_is_fold(rl, rl.len() as int);
    assert(rl.subrange(0, rl.len() as int) =~= rl);
    assert(scan_upto(rl, rl.len() as int) == sf);
    assert(crate::metadata::first_missing(sf.m) is None);
}

} // verus!
