//! Verified character-level string utilities.
//!
//! The build-description grammar is line-oriented, so everything here is
//! specified over `Seq<char>` views: trimming, splitting into lines, finding
//! separators, and stripping quote or bracket characters.

use vstd::prelude::*;

verus! {

/// The whitespace characters that trimming removes.
pub open spec fn is_space_char(c: char) -> bool {
    c == ' ' || c == '\t' || c == '\r' || c == '\n' || c == '\u{b}' || c == '\u{c}'
}

/// Whitespace test on one character.
pub fn is_space(c: char) -> (r: bool)
    ensures
        r == is_space_char(c),
{
    c == ' ' || c == '\t' || c == '\r' || c == '\n' || c == '\u{b}' || c == '\u{c}'
}

/// The sequence with its leading whitespace removed.
pub open spec fn spec_trim_start(s: Seq<char>) -> Seq<char>
    decreases s.len(),
{
    if s.len() > 0 && is_space_char(s[0]) {
        spec_trim_start(s.drop_first())
    } else {
        s
    }
}

/// The sequence with its trailing whitespace removed.
pub open spec fn spec_trim_end(s: Seq<char>) -> Seq<char>
    decreases s.len(),
{
    if s.len() > 0 && is_space_char(s[s.len() - 1]) {
        spec_trim_end(s.drop_last())
    } else {
        s
    }
}

/// The sequence with whitespace removed from both ends.
pub open spec fn spec_trim(s: Seq<char>) -> Seq<char> {
    spec_trim_end(spec_trim_start(s))
}

pub proof fn lemma_trim_start_at(s: Seq<char>, i: int)
    requires
        0 <= i <= s.len(),
        forall|k: int| 0 <= k < i ==> is_space_char(s[k]),
        i == s.len() || !is_space_char(s[i]),
    ensures
        spec_trim_start(s) == s.subrange(i, s.len() as int),
    decreases i,
{
    if i == 0 {
        assert(s.subrange(0, s.len() as int) =~= s);
    } else {
        assert(is_space_char(s[0]));
        lemma_trim_start_at(s.drop_first(), i - 1);
        assert(s.drop_first().subrange(i - 1, s.drop_first().len() as int) =~= s.subrange(
            i,
            s.len() as int,
        ));
    }
}

pub proof fn lemma_trim_end_at(s: Seq<char>, j: int)
    requires
        0 <= j <= s.len(),
        forall|k: int| j <= k < s.len() ==> is_space_char(s[k]),
        j == 0 || !is_space_char(s[j - 1]),
    ensures
        spec_trim_end(s) == s.subrange(0, j),
    decreases s.len() - j,
{
    if j == s.len() {
        assert(s.subrange(0, s.len() as int) =~= s);
    } else {
        assert(is_space_char(s[s.len() - 1]));
        lemma_trim_end_at(s.drop_last(), j);
        assert(s.drop_last().subrange(0, j) =~= s.subrange(0, j));
    }
}

/// A trimmed sequence is unchanged when its first and last characters are not whitespace.
pub proof fn lemma_trim_fixed(s: Seq<char>)
    requires
        s.len() == 0 || (!is_space_char(s[0]) && !is_space_char(s[s.len() - 1])),
    ensures
        spec_trim(s) == s,
{
    lemma_trim_start_at(s, 0);
    assert(s.subrange(0, s.len() as int) =~= s);
    lemma_trim_end_at(s, s.len() as int);
}

/// Whitespace removed from both ends of `s`.
pub fn trim(s: &str) -> (r: String)
    ensures
        r@ == spec_trim(s@),
{
    let n = s.unicode_len();
    let mut i: usize = 0;
    while i < n && is_space(s.get_char(i))
        invariant
            n == s@.len(),
            0 <= i <= n,
            forall|k: int| 0 <= k < i ==> is_space_char(s@[k]),
        decreases n - i,
    {
        i = i + 1;
    }
    let mut j: usize = n;
    while j > i && is_space(s.get_char(j - 1))
        invariant
            n == s@.len(),
            0 <= i <= j <= n,
            forall|k: int| j <= k < n ==> is_space_char(s@[k]),
        decreases j,
    {
        j = j - 1;
    }
    proof {
        lemma_trim_start_at(s@, i as int);
        let t = s@.subrange(i as int, n as int);
        lemma_trim_end_at(t, j - i);
        assert(t.subrange(0, j - i) =~= s@.subrange(i as int, j as int));
    }
    s.substring_char(i, j).to_owned()
}

/// The index of the first occurrence of `c` in `s`, if any.
pub open spec fn spec_find(s: Seq<char>, c: char) -> Option<int>
    decreases s.len(),
{
    if s.len() == 0 {
        None
    } else if s[0] == c {
        Some(0int)
    } else {
        match spec_find(s.drop_first(), c) {
            Some(i) => Some(i + 1),
            None => None,
        }
    }
}

/// `spec_find` returns the first index holding `c`.
pub proof fn lemma_find_at(s: Seq<char>, c: char, i: int)
    requires
        0 <= i < s.len(),
        s[i] == c,
        forall|k: int| 0 <= k < i ==> s[k] != c,
    ensures
        spec_find(s, c) == Some(i),
    decreases i,
{
    if i > 0 {
        lemma_find_at(s.drop_first(), c, i - 1);
    }
}

/// `spec_find` returns `None` exactly when `c` does not occur.
pub proof fn lemma_find_none(s: Seq<char>, c: char)
    requires
        forall|k: int| 0 <= k < s.len() ==> s[k] != c,
    ensures
        spec_find(s, c) == None::<int>,
    decreases s.len(),
{
    if s.len() > 0 {
        lemma_find_none(s.drop_first(), c);
    }
}

/// Where `spec_find` succeeds, it names the first occurrence.
pub proof fn lemma_find_props(s: Seq<char>, c: char)
    ensures
        match spec_find(s, c) {
            Some(i) => 0 <= i < s.len() && s[i] == c && forall|k: int| 0 <= k < i ==> s[k] != c,
            None => forall|k: int| 0 <= k < s.len() ==> s[k] != c,
        },
    decreases s.len(),
{
    if s.len() > 0 && s[0] != c {
        lemma_find_props(s.drop_first(), c);
        let t = s.drop_first();
        assert(forall|k: int| 1 <= k < s.len() ==> s[k] == t[k - 1]);
        match spec_find(t, c) {
            Some(i) => {
                assert(s[i + 1] == t[i]);
            },
            None => {},
        }
    }
}

/// The first index of `c` in `s`, if any.
pub fn find_char(s: &str, c: char) -> (r: Option<usize>)
    ensures
        match r {
            Some(i) => spec_find(s@, c) == Some(i as int),
            None => spec_find(s@, c) == None::<int>,
        },
{
    let n = s.unicode_len();
    let mut i: usize = 0;
    while i < n
        invariant
            n == s@.len(),
            0 <= i <= n,
            forall|k: int| 0 <= k < i ==> s@[k] != c,
        decreases n - i,
    {
        if s.get_char(i) == c {
            proof {
                lemma_find_at(s@, c, i as int);
            }
            return Some(i);
        }
        i = i + 1;
    }
    proof {
        lemma_find_none(s@, c);
    }
    None
}

/// The index of the last occurrence of `c` in `s`, if any.
pub open spec fn spec_rfind(s: Seq<char>, c: char) -> Option<int>
    decreases s.len(),
{
    if s.len() == 0 {
        None
    } else if s[s.len() - 1] == c {
        Some(s.len() - 1)
    } else {
        spec_rfind(s.drop_last(), c)
    }
}

proof fn lemma_rfind_at(s: Seq<char>, c: char, i: int)
    requires
        0 <= i < s.len(),
        s[i] == c,
        forall|k: int| i < k < s.len() ==> s[k] != c,
    ensures
        spec_rfind(s, c) == Some(i),
    decreases s.len(),
{
    if i < s.len() - 1 {
        lemma_rfind_at(s.drop_last(), c, i);
    }
}

proof fn lemma_rfind_none(s: Seq<char>, c: char)
    requires
        forall|k: int| 0 <= k < s.len() ==> s[k] != c,
    ensures
        spec_rfind(s, c) == None::<int>,
    decreases s.len(),
{
    if s.len() > 0 {
        lemma_rfind_none(s.drop_last(), c);
    }
}

/// The last index of `c` in `s`, if any.
pub fn rfind_char(s: &str, c: char) -> (r: Option<usize>)
    ensures
        match r {
            Some(i) => spec_rfind(s@, c) == Some(i as int) && i < s@.len(),
            None => spec_rfind(s@, c) == None::<int>,
        },
{
    let n = s.unicode_len();
    let mut j: usize = n;
    while j > 0
        invariant
            n == s@.len(),
            0 <= j <= n,
            forall|k: int| j <= k < n ==> s@[k] != c,
        decreases j,
    {
        if s.get_char(j - 1) == c {
            proof {
                lemma_rfind_at(s@, c, j - 1);
            }
            return Some(j - 1);
        }
        j = j - 1;
    }
    proof {
        lemma_rfind_none(s@, c);
    }
    None
}

/// True when `s` ends with the suffix `t`.
pub open spec fn spec_has_suffix(s: Seq<char>, t: Seq<char>) -> bool {
    s.len() >= t.len() && s.subrange(s.len() - t.len(), s.len() as int) == t
}

/// True when `s` begins with the prefix `t`.
pub open spec fn spec_has_prefix(s: Seq<char>, t: Seq<char>) -> bool {
    s.len() >= t.len() && s.subrange(0, t.len() as int) == t
}

/// Whether `s` ends with the suffix `t`.
pub fn ends_with_str(s: &str, t: &str) -> (r: bool)
    ensures
        r == spec_has_suffix(s@, t@),
{
    let n = s.unicode_len();
    let m = t.unicode_len();
    if n < m {
        return false;
    }
    let mut i: usize = 0;
    while i < m
        invariant
            n == s@.len(),
            m == t@.len(),
            m <= n,
            0 <= i <= m,
            forall|k: int| 0 <= k < i ==> s@[n - m + k] == t@[k],
        decreases m - i,
    {
        if s.get_char(n - m + i) != t.get_char(i) {
            proof {
                assert(s@.subrange(n - m, n as int)[i as int] != t@[i as int]);
            }
            return false;
        }
        i = i + 1;
    }
    proof {
        assert(s@.subrange(n - m, n as int) =~= t@);
    }
    true
}

/// Whether `s` begins with the prefix `t`.
pub fn starts_with_str(s: &str, t: &str) -> (r: bool)
    ensures
        r == spec_has_prefix(s@, t@),
{
    let n = s.unicode_len();
    let m = t.unicode_len();
    if n < m {
        return false;
    }
    let mut i: usize = 0;
    while i < m
        invariant
            n == s@.len(),
            m == t@.len(),
            m <= n,
            0 <= i <= m,
            forall|k: int| 0 <= k < i ==> s@[k] == t@[k],
        decreases m - i,
    {
        if s.get_char(i) != t.get_char(i) {
            proof {
                assert(s@.subrange(0, m as int)[i as int] != t@[i as int]);
            }
            return false;
        }
        i = i + 1;
    }
    proof {
        assert(s@.subrange(0, m as int) =~= t@);
    }
    true
}

/// The text split at every newline, one element per line; a trailing newline
/// adds no empty final line, matching line-by-line reading.
pub open spec fn spec_lines(s: Seq<char>) -> Seq<Seq<char>>
    decreases s.len(),
{
    if s.len() == 0 {
        Seq::empty()
    } else {
        match spec_find(s, '\n') {
            Some(i) => if 0 <= i < s.len() {
                seq![s.subrange(0, i)] + spec_lines(s.subrange(i + 1, s.len() as int))
            } else {
                seq![s]
            },
            None => seq![s],
        }
    }
}

/// The text split at every occurrence of `c`; splitting the empty text gives
/// one empty piece, matching `str::split`.
pub open spec fn spec_split(s: Seq<char>, c: char) -> Seq<Seq<char>>
    decreases s.len(),
{
    match spec_find(s, c) {
        Some(i) => if 0 <= i < s.len() {
            seq![s.subrange(0, i)] + spec_split(s.subrange(i + 1, s.len() as int), c)
        } else {
            seq![s]
        },
        None => seq![s],
    }
}

/// The lines of `s`, one owned `String` per line.
pub fn split_lines(s: &str) -> (r: Vec<String>)
    ensures
        r.deep_view() == spec_lines(s@),
{
    let n = s.unicode_len();
    let mut out: Vec<String> = Vec::new();
    let mut p: usize = 0;
    proof {
        assert(s@.subrange(0, n as int) =~= s@);
        assert(out.deep_view() =~= Seq::<Seq<char>>::empty());
    }
    while p < n
        invariant
            n == s@.len(),
            0 <= p <= n,
            spec_lines(s@) =~= out.deep_view() + spec_lines(s@.subrange(p as int, n as int)),
        decreases n - p,
    {
        let mut q: usize = p;
        while q < n && s.get_char(q) != '\n'
            invariant
                n == s@.len(),
                p <= q <= n,
                forall|k: int| p <= k < q ==> s@[k] != '\n',
            decreases n - q,
        {
            q = q + 1;
        }
        let piece = s.substring_char(p, q).to_owned();
        proof {
            let rest = s@.subrange(p as int, n as int);
            assert(rest.len() > 0);
            if q < n {
                assert(rest[q - p] == '\n');
                lemma_find_at(rest, '\n', q - p);
                assert(rest.subrange(0, q - p) =~= s@.subrange(p as int, q as int));
                assert(rest.subrange(q - p + 1, rest.len() as int) =~= s@.subrange(
                    q + 1,
                    n as int,
                ));
            } else {
                lemma_find_none(rest, '\n');
                assert(rest.subrange(0, rest.len() as int) =~= rest);
            }
        }
        out.push(piece);
        if q < n {
            p = q + 1;
        } else {
            p = n;
            proof {
                assert(s@.subrange(n as int, n as int) =~= Seq::<char>::empty());
            }
        }
        proof {
            assert(out.deep_view() =~= out.deep_view());
        }
    }
    proof {
        assert(s@.subrange(p as int, n as int) =~= Seq::<char>::empty());
        assert(out.deep_view() + Seq::<Seq<char>>::empty() =~= out.deep_view());
    }
    out
}

/// `s` split at every occurrence of `c`, one owned `String` per piece.
pub fn split_char(s: &str, c: char) -> (r: Vec<String>)
    ensures
        r.deep_view() == spec_split(s@, c),
{
    let n = s.unicode_len();
    let mut out: Vec<String> = Vec::new();
    let mut p: usize = 0;
    proof {
        assert(s@.subrange(0, n as int) =~= s@);
        assert(out.deep_view() =~= Seq::<Seq<char>>::empty());
    }
    loop
        invariant
            n == s@.len(),
            0 <= p <= n,
            spec_split(s@, c) =~= out.deep_view() + spec_split(
                s@.subrange(p as int, n as int),
                c,
            ),
        decreases n - p + 1,
    {
        let mut q: usize = p;
        while q < n && s.get_char(q) != c
            invariant
                n == s@.len(),
                p <= q <= n,
                forall|k: int| p <= k < q ==> s@[k] != c,
            decreases n - q,
        {
            q = q + 1;
        }
        let piece = s.substring_char(p, q).to_owned();
        proof {
            let rest = s@.subrange(p as int, n as int);
            if q < n {
                assert(rest[q - p] == c);
                lemma_find_at(rest, c, q - p);
                assert(rest.subrange(0, q - p) =~= s@.subrange(p as int, q as int));
                assert(rest.subrange(q - p + 1, rest.len() as int) =~= s@.subrange(
                    q + 1,
                    n as int,
                ));
            } else {
                lemma_find_none(rest, c);
            }
        }
        out.push(piece);
        if q < n {
            p = q + 1;
        } else {
            return out;
        }
    }
}

/// The elements joined with the separator between consecutive elements.
pub open spec fn spec_join(l: Seq<Seq<char>>, sep: Seq<char>) -> Seq<char>
    decreases l.len(),
{
    if l.len() == 0 {
        Seq::empty()
    } else if l.len() == 1 {
        l[0]
    } else {
        spec_join(l.drop_last(), sep) + sep + l.last()
    }
}

/// The elements of `v` joined with `sep`.
pub fn join_list(v: &Vec<String>, sep: &str) -> (r: String)
    ensures
        r@ == spec_join(v.deep_view(), sep@),
{
    let mut out = String::new();
    let mut i: usize = 0;
    proof {
        assert(v.deep_view().subrange(0, 0) =~= Seq::<Seq<char>>::empty());
    }
    while i < v.len()
        invariant
            0 <= i <= v.len(),
            out@ == spec_join(v.deep_view().subrange(0, i as int), sep@),
        decreases v.len() - i,
    {
        if i > 0 {
            out.append(sep);
        }
        out.append(v[i].as_str());
        i = i + 1;
        proof {
            let pre = v.deep_view().subrange(0, i - 1);
            let cur = v.deep_view().subrange(0, i as int);
            assert(cur.drop_last() =~= pre);
            assert(cur.last() == v.deep_view()[i - 1]);
            assert(v.deep_view()[i - 1] == v@[i - 1]@);
            if i == 1 {
                assert(out@ =~= cur[0]);
            }
        }
    }
    proof {
        assert(v.deep_view().subrange(0, v.len() as int) =~= v.deep_view());
    }
    out
}

/// True when some element of `l` equals `s`.
pub open spec fn spec_list_contains(l: Seq<Seq<char>>, s: Seq<char>) -> bool {
    exists|i: int| 0 <= i < l.len() && l[i] == s
}

/// Whether some element of `v` equals `s`.
pub fn contains_string(v: &Vec<String>, s: &str) -> (r: bool)
    ensures
        r == spec_list_contains(v.deep_view(), s@),
{
    let mut i: usize = 0;
    while i < v.len()
        invariant
            0 <= i <= v.len(),
            forall|k: int| 0 <= k < i ==> v.deep_view()[k] != s@,
        decreases v.len() - i,
    {
        if str_eq(v[i].as_str(), s) {
            proof {
                assert(v.deep_view()[i as int] == v@[i as int]@);
            }
            return true;
        }
        proof {
            assert(v.deep_view()[i as int] == v@[i as int]@);
        }
        i = i + 1;
    }
    false
}

/// The index of the first whitespace character in `s`, if any.
pub open spec fn spec_find_space(s: Seq<char>) -> Option<int>
    decreases s.len(),
{
    if s.len() == 0 {
        None
    } else if is_space_char(s[0]) {
        Some(0int)
    } else {
        match spec_find_space(s.drop_first()) {
            Some(i) => Some(i + 1),
            None => None,
        }
    }
}

proof fn lemma_find_space_at(s: Seq<char>, i: int)
    requires
        0 <= i < s.len(),
        is_space_char(s[i]),
        forall|k: int| 0 <= k < i ==> !is_space_char(s[k]),
    ensures
        spec_find_space(s) == Some(i),
    decreases i,
{
    if i > 0 {
        lemma_find_space_at(s.drop_first(), i - 1);
    }
}

proof fn lemma_find_space_none(s: Seq<char>)
    requires
        forall|k: int| 0 <= k < s.len() ==> !is_space_char(s[k]),
    ensures
        spec_find_space(s) == None::<int>,
    decreases s.len(),
{
    if s.len() > 0 {
        lemma_find_space_none(s.drop_first());
    }
}

/// The whitespace-separated tokens of `s`, in order, each non-empty.
pub open spec fn spec_tokens(s: Seq<char>) -> Seq<Seq<char>>
    decreases s.len(),
{
    if s.len() == 0 {
        Seq::empty()
    } else if is_space_char(s[0]) {
        spec_tokens(s.drop_first())
    } else {
        match spec_find_space(s) {
            Some(k) => if 0 < k < s.len() {
                seq![s.subrange(0, k)] + spec_tokens(s.subrange(k, s.len() as int))
            } else {
                seq![s]
            },
            None => seq![s],
        }
    }
}

/// The whitespace-separated tokens of `s`, one owned `String` each.
pub fn tokens(s: &str) -> (r: Vec<String>)
    ensures
        r.deep_view() == spec_tokens(s@),
{
    let n = s.unicode_len();
    let mut out: Vec<String> = Vec::new();
    let mut p: usize = 0;
    proof {
        assert(s@.subrange(0, n as int) =~= s@);
        assert(out.deep_view() =~= Seq::<Seq<char>>::empty());
    }
    while p < n
        invariant
            n == s@.len(),
            0 <= p <= n,
            spec_tokens(s@) =~= out.deep_view() + spec_tokens(s@.subrange(p as int, n as int)),
        decreases n - p,
    {
        if is_space(s.get_char(p)) {
            proof {
                let rest = s@.subrange(p as int, n as int);
                assert(rest.drop_first() =~= s@.subrange(p + 1, n as int));
            }
            p = p + 1;
        } else {
            let mut q: usize = p;
            while q < n && !is_space(s.get_char(q))
                invariant
                    n == s@.len(),
                    p <= q <= n,
                    forall|k: int| p <= k < q ==> !is_space_char(s@[k]),
                decreases n - q,
            {
                q = q + 1;
            }
            let piece = s.substring_char(p, q).to_owned();
            proof {
                let rest = s@.subrange(p as int, n as int);
                assert(!is_space_char(rest[0]));
                if q < n {
                    assert(is_space_char(rest[q - p]));
                    lemma_find_space_at(rest, q - p);
                    assert(rest.subrange(0, q - p) =~= s@.subrange(p as int, q as int));
                    assert(rest.subrange(q - p, rest.len() as int) =~= s@.subrange(
                        q as int,
                        n as int,
                    ));
                } else {
                    lemma_find_space_none(rest);
                }
            }
            out.push(piece);
            p = q;
        }
    }
    proof {
        assert(s@.subrange(p as int, n as int) =~= Seq::<char>::empty());
        assert(out.deep_view() + Seq::<Seq<char>>::empty() =~= out.deep_view());
    }
    out
}

/// The sequence with every leading occurrence of `c` removed.
pub open spec fn spec_strip_leading(s: Seq<char>, c: char) -> Seq<char>
    decreases s.len(),
{
    if s.len() > 0 && s[0] == c {
        spec_strip_leading(s.drop_first(), c)
    } else {
        s
    }
}

/// The sequence with every trailing occurrence of `c` removed.
pub open spec fn spec_strip_trailing(s: Seq<char>, c: char) -> Seq<char>
    decreases s.len(),
{
    if s.len() > 0 && s[s.len() - 1] == c {
        spec_strip_trailing(s.drop_last(), c)
    } else {
        s
    }
}

/// The sequence with every occurrence of `c` removed from both ends.
pub open spec fn spec_strip_edges(s: Seq<char>, c: char) -> Seq<char> {
    spec_strip_trailing(spec_strip_leading(s, c), c)
}

pub proof fn lemma_strip_leading_at(s: Seq<char>, c: char, i: int)
    requires
        0 <= i <= s.len(),
        forall|k: int| 0 <= k < i ==> s[k] == c,
        i == s.len() || s[i] != c,
    ensures
        spec_strip_leading(s, c) == s.subrange(i, s.len() as int),
    decreases i,
{
    if i == 0 {
        assert(s.subrange(0, s.len() as int) =~= s);
    } else {
        lemma_strip_leading_at(s.drop_first(), c, i - 1);
        assert(s.drop_first().subrange(i - 1, s.drop_first().len() as int) =~= s.subrange(
            i,
            s.len() as int,
        ));
    }
}

pub proof fn lemma_strip_trailing_at(s: Seq<char>, c: char, j: int)
    requires
        0 <= j <= s.len(),
        forall|k: int| j <= k < s.len() ==> s[k] == c,
        j == 0 || s[j - 1] != c,
    ensures
        spec_strip_trailing(s, c) == s.subrange(0, j),
    decreases s.len() - j,
{
    if j == s.len() {
        assert(s.subrange(0, s.len() as int) =~= s);
    } else {
        lemma_strip_trailing_at(s.drop_last(), c, j);
        assert(s.drop_last().subrange(0, j) =~= s.subrange(0, j));
    }
}

/// `s` with every occurrence of `c` removed from both ends.
pub fn strip_edges(s: &str, c: char) -> (r: String)
    ensures
        r@ == spec_strip_edges(s@, c),
{
    let n = s.unicode_len();
    let mut i: usize = 0;
    while i < n && s.get_char(i) == c
        invariant
            n == s@.len(),
            0 <= i <= n,
            forall|k: int| 0 <= k < i ==> s@[k] == c,
        decreases n - i,
    {
        i = i + 1;
    }
    let mut j: usize = n;
    while j > i && s.get_char(j - 1) == c
        invariant
            n == s@.len(),
            0 <= i <= j <= n,
            forall|k: int| j <= k < n ==> s@[k] == c,
        decreases j,
    {
        j = j - 1;
    }
    proof {
        lemma_strip_leading_at(s@, c, i as int);
        let t = s@.subrange(i as int, n as int);
        lemma_strip_trailing_at(t, c, j - i);
        assert(t.subrange(0, j - i) =~= s@.subrange(i as int, j as int));
    }
    s.substring_char(i, j).to_owned()
}

/// `s` with every leading `lead` and every trailing `trail` removed.
pub fn strip_pair(s: &str, lead: char, trail: char) -> (r: String)
    ensures
        r@ == spec_strip_trailing(spec_strip_leading(s@, lead), trail),
{
    let n = s.unicode_len();
    let mut i: usize = 0;
    while i < n && s.get_char(i) == lead
        invariant
            n == s@.len(),
            0 <= i <= n,
            forall|k: int| 0 <= k < i ==> s@[k] == lead,
        decreases n - i,
    {
        i = i + 1;
    }
    let mut j: usize = n;
    while j > i && s.get_char(j - 1) == trail
        invariant
            n == s@.len(),
            0 <= i <= j <= n,
            forall|k: int| j <= k < n ==> s@[k] == trail,
        decreases j,
    {
        j = j - 1;
    }
    proof {
        lemma_strip_leading_at(s@, lead, i as int);
        let t = s@.subrange(i as int, n as int);
        lemma_strip_trailing_at(t, trail, j - i);
        assert(t.subrange(0, j - i) =~= s@.subrange(i as int, j as int));
    }
    s.substring_char(i, j).to_owned()
}

/// Whether the two strings hold the same characters.
pub fn str_eq(a: &str, b: &str) -> (r: bool)
    ensures
        r == (a@ == b@),
{
    let na = a.unicode_len();
    let nb = b.unicode_len();
    if na != nb {
        return false;
    }
    let mut i: usize = 0;
    while i < na
        invariant
            na == a@.len(),
            nb == b@.len(),
            na == nb,
            0 <= i <= na,
            forall|k: int| 0 <= k < i ==> a@[k] == b@[k],
        decreases na - i,
    {
        if a.get_char(i) != b.get_char(i) {
            return false;
        }
        i = i + 1;
    }
    proof {
        assert(a@ =~= b@);
    }
    true
}

/// True when `s` begins with the character `c`.
pub open spec fn spec_starts_with(s: Seq<char>, c: char) -> bool {
    s.len() > 0 && s[0] == c
}

/// True when `s` ends with the character `c`.
pub open spec fn spec_ends_with(s: Seq<char>, c: char) -> bool {
    s.len() > 0 && s[s.len() - 1] == c
}

/// Whether `s` begins with the character `c`.
pub fn starts_with_char(s: &str, c: char) -> (r: bool)
    ensures
        r == spec_starts_with(s@, c),
{
    let n = s.unicode_len();
    n > 0 && s.get_char(0) == c
}

/// Whether `s` ends with the character `c`.
pub fn ends_with_char(s: &str, c: char) -> (r: bool)
    ensures
        r == spec_ends_with(s@, c),
{
    let n = s.unicode_len();
    n > 0 && s.get_char(n - 1) == c
}

/// True when the two characters are equal up to ASCII case.
pub open spec fn char_eq_ci(a: char, b: char) -> bool {
    a == b || ('A' <= a && a <= 'Z' && (a as u32) + 32 == (b as u32)) || ('A' <= b && b <= 'Z' && (
    b as u32) + 32 == (a as u32))
}

/// True when the two sequences are equal up to ASCII case, character by character.
pub open spec fn spec_eq_ignore_case(a: Seq<char>, b: Seq<char>) -> bool {
    a.len() == b.len() && forall|i: int| 0 <= i < a.len() ==> char_eq_ci(a[i], b[i])
}

/// Whether `a` and `b` are equal up to ASCII case.
pub fn eq_ignore_case(a: &str, b: &str) -> (r: bool)
    ensures
        r == spec_eq_ignore_case(a@, b@),
{
    let na = a.unicode_len();
    let nb = b.unicode_len();
    if na != nb {
        return false;
    }
    let mut i: usize = 0;
    while i < na
        invariant
            na == a@.len(),
            nb == b@.len(),
            na == nb,
            0 <= i <= na,
            forall|k: int| 0 <= k < i ==> char_eq_ci(a@[k], b@[k]),
        decreases na - i,
    {
        let x = a.get_char(i);
        let y = b.get_char(i);
        let xu = x as u32;
        let yu = y as u32;
        let same = x == y || (65 <= xu && xu <= 90 && xu + 32 == yu) || (65 <= yu && yu <= 90 && yu
            + 32 == xu);
        if !same {
            assert(!char_eq_ci(a@[i as int], b@[i as int]));
            return false;
        }
        assert(char_eq_ci(a@[i as int], b@[i as int]));
        i = i + 1;
    }
    true
}

/// The numeric value of an octal digit string, most significant digit first.
pub open spec fn spec_octal_val(s: Seq<char>) -> nat
    decreases s.len(),
{
    if s.len() == 0 {
        0
    } else {
        spec_octal_val(s.drop_last()) * 8 + octal_digit_val(s[s.len() - 1])
    }
}

/// The value of one octal digit character.
pub open spec fn octal_digit_val(c: char) -> nat {
    ((c as u32) - 48) as nat
}

/// True when `c` is one of the characters `0` through `7`.
pub open spec fn is_octal_digit(c: char) -> bool {
    '0' <= c && c <= '7'
}

/// True when `s` is a non-empty string of octal digits whose value fits in `u32`.
pub open spec fn spec_octal_ok(s: Seq<char>) -> bool {
    s.len() > 0 && (forall|i: int| 0 <= i < s.len() ==> is_octal_digit(s[i])) && spec_octal_val(s)
        <= u32::MAX
}

proof fn lemma_octal_monotonic(s: Seq<char>, i: int)
    requires
        0 <= i <= s.len(),
    ensures
        spec_octal_val(s.subrange(0, i)) <= spec_octal_val(s),
    decreases s.len() - i,
{
    if i == s.len() {
        assert(s.subrange(0, i) =~= s);
    } else {
        lemma_octal_monotonic(s, i + 1);
        let p = s.subrange(0, i + 1);
        assert(p.drop_last() =~= s.subrange(0, i));
        assert(spec_octal_val(p) == spec_octal_val(s.subrange(0, i)) * 8 + octal_digit_val(p[i]));
    }
}

/// The value of a non-empty octal digit string, or `None` when a character is
/// not an octal digit or the value does not fit in `u32`.
pub fn parse_octal(s: &str) -> (r: Option<u32>)
    ensures
        spec_octal_ok(s@) ==> r == Some((spec_octal_val(s@) as u32)),
        !spec_octal_ok(s@) ==> r == None::<u32>,
{
    let n = s.unicode_len();
    if n == 0 {
        return None;
    }
    let mut acc: u32 = 0;
    let mut i: usize = 0;
    while i < n
        invariant
            n == s@.len(),
            0 <= i <= n,
            forall|k: int| 0 <= k < i ==> is_octal_digit(s@[k]),
            acc == spec_octal_val(s@.subrange(0, i as int)),
        decreases n - i,
    {
        let c = s.get_char(i);
        if !('0' <= c && c <= '7') {
            assert(!is_octal_digit(s@[i as int]));
            return None;
        }
        let d: u32 = (c as u32) - 48;
        proof {
            let p = s@.subrange(0, i + 1);
            assert(p.drop_last() =~= s@.subrange(0, i as int));
            assert(spec_octal_val(p) == acc * 8 + d);
        }
        if acc > (u32::MAX - d) / 8 {
            proof {
                lemma_octal_monotonic(s@, i + 1);
                assert(acc * 8 + d > u32::MAX) by (nonlinear_arith)
                    requires
                        acc > (u32::MAX - d) / 8,
                        d <= 7,
                ;
            }
            return None;
        }
        proof {
            assert(acc * 8 + d <= u32::MAX) by (nonlinear_arith)
                requires
                    acc <= (u32::MAX - d) / 8,
                    d <= 7,
            ;
        }
        acc = acc * 8 + d;
        i = i + 1;
    }
    proof {
        assert(s@.subrange(0, n as int) =~= s@);
    }
    Some(acc)
}

} // verus!
