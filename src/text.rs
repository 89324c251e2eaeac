//! The string operations the decoders are built from, each with a model over
//! `Seq<char>`: whitespace, trimming, splitting, lines and integer parsing.

use vstd::prelude::*;
use vstd::string::*;

verus! {

/// Unicode's `White_Space` property, the set `char::is_whitespace` tests.
pub open spec fn is_ws(c: char) -> bool {
    ('\t' <= c && c <= '\r') || c == ' ' || c == '\u{85}' || c == '\u{a0}' || c == '\u{1680}'
        || ('\u{2000}' <= c && c <= '\u{200a}') || c == '\u{2028}' || c == '\u{2029}'
        || c == '\u{202f}' || c == '\u{205f}' || c == '\u{3000}'
}

/// The characters that one trimming operation strips from both ends.
#[derive(Clone, Copy, PartialEq, Eq, Structural)]
pub enum Strip {
    /// Whitespace, as `str::trim`.
    Space,
    /// Whitespace and `-`.
    SpaceOrDash,
    /// Whitespace and `:`.
    SpaceOrColon,
    /// `:` alone.
    Colon,
    /// `)` alone.
    CloseParen,
    /// `(` and `)`.
    Parens,
}

impl Strip {
    /// Whether this operation strips `c`.
    pub open spec fn spec_strips(self, c: char) -> bool {
        match self {
            Strip::Space => is_ws(c),
            Strip::SpaceOrDash => is_ws(c) || c == '-',
            Strip::SpaceOrColon => is_ws(c) || c == ':',
            Strip::Colon => c == ':',
            Strip::CloseParen => c == ')',
            Strip::Parens => c == '(' || c == ')',
        }
    }

    /// Whether this operation strips `c`.
    pub fn strips(&self, c: char) -> (r: bool)
        ensures
            r == self.spec_strips(c),
    {
        let ws = is_whitespace(c);
        match self {
            Strip::Space => ws,
            Strip::SpaceOrDash => ws || c == '-',
            Strip::SpaceOrColon => ws || c == ':',
            Strip::Colon => c == ':',
            Strip::CloseParen => c == ')',
            Strip::Parens => c == '(' || c == ')',
        }
    }
}

/// Whether `c` is whitespace, as `char::is_whitespace`.
pub fn is_whitespace(c: char) -> (r: bool)
    ensures
        r == is_ws(c),
{
    ('\t' <= c && c <= '\r') || c == ' ' || c == '\u{85}' || c == '\u{a0}' || c == '\u{1680}'
        || ('\u{2000}' <= c && c <= '\u{200a}') || c == '\u{2028}' || c == '\u{2029}'
        || c == '\u{202f}' || c == '\u{205f}' || c == '\u{3000}'
}

/// `s` without the leading characters that `k` strips.
pub open spec fn trim_start_by(s: Seq<char>, k: Strip) -> Seq<char>
    decreases s.len(),
{
    if s.len() > 0 && k.spec_strips(s[0]) {
        trim_start_by(s.drop_first(), k)
    } else {
        s
    }
}

/// `s` without the trailing characters that `k` strips.
pub open spec fn trim_end_by(s: Seq<char>, k: Strip) -> Seq<char>
    decreases s.len(),
{
    if s.len() > 0 && k.spec_strips(s.last()) {
        trim_end_by(s.drop_last(), k)
    } else {
        s
    }
}

/// `s` without the characters that `k` strips at either end.
pub open spec fn trim_by(s: Seq<char>, k: Strip) -> Seq<char> {
    trim_end_by(trim_start_by(s, k), k)
}

/// `s` without whitespace at either end, as `str::trim`.
pub open spec fn trim(s: Seq<char>) -> Seq<char> {
    trim_by(s, Strip::Space)
}

/// The characters of `s`, in order.
pub fn chars_of(s: &str) -> (r: Vec<char>)
    ensures
        r@ == s@,
{
    broadcast use axiom_spec_iter;

    let mut v: Vec<char> = Vec::new();
    let ghost all: Seq<char> = s@;
    for c in it: s.chars()
        invariant
            v@ == it.seq().take(it.index() as int),
            it.seq() == all,
    {
        v.push(c);
    }
    assert(v@ =~= all);
    v
}

/// `s` without the characters that `k` strips at either end.
pub fn trim_matches<'a>(s: &'a str, k: Strip) -> (r: &'a str)
    ensures
        r@ == trim_by(s@, k),
{
    let cs = chars_of(s);
    let n = cs.len();
    let mut i: usize = 0;
    assert(s@.subrange(0, n as int) =~= s@);
    while i < n && k.strips(cs[i])
        invariant
            i <= n == cs@.len(),
            cs@ == s@,
            trim_start_by(s@, k) == trim_start_by(s@.subrange(i as int, n as int), k),
        decreases n - i,
    {
        assert(s@.subrange(i as int, n as int).drop_first() =~= s@.subrange(i + 1, n as int));
        i += 1;
    }
    assert(trim_start_by(s@, k) == s@.subrange(i as int, n as int));
    let mut j: usize = n;
    while j > i && k.strips(cs[j - 1])
        invariant
            i <= j <= n == cs@.len(),
            cs@ == s@,
            trim_by(s@, k) == trim_end_by(s@.subrange(i as int, j as int), k),
        decreases j,
    {
        assert(s@.subrange(i as int, j as int).drop_last() =~= s@.subrange(i as int, j - 1));
        j -= 1;
    }
    s.substring_char(i, j)
}

/// `s` without whitespace at either end.
pub fn trim_str<'a>(s: &'a str) -> (r: &'a str)
    ensures
        r@ == trim(s@),
{
    trim_matches(s, Strip::Space)
}

/// The views of an optional string slice.
pub open spec fn opt_view(o: Option<&str>) -> Option<Seq<char>> {
    match o {
        Some(s) => Some(s@),
        None => None,
    }
}

/// The views of a sequence of string slices.
pub open spec fn strs(v: Seq<&str>) -> Seq<Seq<char>> {
    v.map_values(|x: &str| x@)
}

/// The pieces of `s` between occurrences of `sep`, as `str::split`: one more
/// piece than there are separators, empty pieces kept.
pub open spec fn pieces(s: Seq<char>, sep: char) -> Seq<Seq<char>>
    decreases s.len(),
{
    if s.len() == 0 {
        seq![Seq::empty()]
    } else {
        let p = pieces(s.drop_last(), sep);
        if s.last() == sep {
            p.push(Seq::empty())
        } else {
            p.update(p.len() - 1, p.last().push(s.last()))
        }
    }
}

/// `l` without one trailing carriage return.
pub open spec fn strip_cr(l: Seq<char>) -> Seq<char> {
    if l.len() > 0 && l.last() == '\r' {
        l.drop_last()
    } else {
        l
    }
}

/// The lines of `s`, as `str::lines`: split at each line feed, no final empty
/// line after a trailing line feed, and a carriage return before a line feed
/// dropped.
pub open spec fn lines_of(s: Seq<char>) -> Seq<Seq<char>> {
    let p = pieces(s, '\n');
    let n = if p.last().len() == 0 {
        p.len() - 1
    } else {
        p.len() as int
    };
    Seq::new(n as nat, |i: int| if i + 1 < p.len() { strip_cr(p[i]) } else { p[i] })
}

/// The number of characters of `s` before the first `c` (all of them if none).
pub open spec fn prefix_len(s: Seq<char>, c: char) -> nat
    decreases s.len(),
{
    if s.len() == 0 || s[0] == c {
        0
    } else {
        1 + prefix_len(s.drop_first(), c)
    }
}

/// The number of characters of `s` before its first whitespace (all of them
/// if none).
pub open spec fn word_len(s: Seq<char>) -> nat
    decreases s.len(),
{
    if s.len() == 0 || is_ws(s[0]) {
        0
    } else {
        1 + word_len(s.drop_first())
    }
}

/// The first run of non-whitespace characters of `s`, as the first item of
/// `str::split_whitespace`; absent where `s` is blank.
pub open spec fn first_word(s: Seq<char>) -> Option<Seq<char>> {
    let t = trim_start_by(s, Strip::Space);
    if t.len() == 0 {
        None
    } else {
        Some(t.take(word_len(t) as int))
    }
}

/// The parts of `s` before and after its first `c`, as `str::split_once`.
pub open spec fn split_once_of(s: Seq<char>, c: char) -> Option<(Seq<char>, Seq<char>)> {
    let k = prefix_len(s, c) as int;
    if k < s.len() {
        Some((s.take(k), s.skip(k + 1)))
    } else {
        None
    }
}

/// What follows the first `c` of `s`, or all of `s` where it holds no `c`;
/// the last piece of `str::splitn(2, c)`.
pub open spec fn after_first(s: Seq<char>, c: char) -> Seq<char> {
    match split_once_of(s, c) {
        Some(p) => p.1,
        None => s,
    }
}

/// `s` split at its first `n - 1` occurrences of `c`, as `str::splitn`.
pub open spec fn pieces_n(s: Seq<char>, n: nat, c: char) -> Seq<Seq<char>>
    decreases n,
{
    match split_once_of(s, c) {
        Some(p) => if n <= 1 {
            seq![s]
        } else {
            seq![p.0] + pieces_n(p.1, (n - 1) as nat, c)
        },
        None => seq![s],
    }
}

/// Whether `needle` occurs in `hay` as a contiguous run.
pub open spec fn occurs_in(needle: Seq<char>, hay: Seq<char>) -> bool {
    exists|i: int|
        0 <= i && i + needle.len() <= hay.len() && #[trigger] hay.subrange(i, i + needle.len())
            == needle
}

/// The pieces of `s` between occurrences of `sep`.
pub fn split<'a>(s: &'a str, sep: char) -> (r: Vec<&'a str>)
    ensures
        strs(r@) == pieces(s@, sep),
{
    let cs = chars_of(s);
    let n = cs.len();
    let mut out: Vec<&'a str> = Vec::new();
    let mut start: usize = 0;
    let mut i: usize = 0;
    assert(s@.take(0) =~= Seq::<char>::empty());
    assert(s@.subrange(0, 0) =~= Seq::<char>::empty());
    assert(strs(out@).push(s@.subrange(0, 0)) =~= seq![Seq::<char>::empty()]);
    while i < n
        invariant
            start <= i <= n == cs@.len(),
            cs@ == s@,
            pieces(s@.take(i as int), sep) == strs(out@).push(s@.subrange(start as int, i as int)),
        decreases n - i,
    {
        assert(s@.take(i + 1).drop_last() =~= s@.take(i as int));
        assert(s@.take(i + 1).last() == cs@[i as int]);
        if cs[i] == sep {
            let piece = s.substring_char(start, i);
            let ghost before = out@;
            out.push(piece);
            assert(strs(out@) =~= strs(before).push(piece@));
            start = i + 1;
            assert(s@.subrange(start as int, i + 1) =~= Seq::<char>::empty());
        } else {
            assert(s@.subrange(start as int, i + 1) =~= s@.subrange(start as int, i as int).push(
                cs@[i as int],
            ));
        }
        i += 1;
        assert(pieces(s@.take(i as int), sep) =~= strs(out@).push(
            s@.subrange(start as int, i as int),
        ));
    }
    let last = s.substring_char(start, n);
    let ghost before = out@;
    out.push(last);
    assert(s@.take(n as int) =~= s@);
    assert(strs(out@) =~= strs(before).push(last@));
    out
}

/// `s` has at least one piece.
pub proof fn lemma_pieces_nonempty(s: Seq<char>, sep: char)
    ensures
        pieces(s, sep).len() >= 1,
    decreases s.len(),
{
    if s.len() > 0 {
        lemma_pieces_nonempty(s.drop_last(), sep);
    }
}

/// Each line of `s` is one of its pieces at line feeds.
pub proof fn lemma_lines_index(s: Seq<char>, i: int)
    requires
        0 <= i < lines_of(s).len(),
    ensures
        lines_of(s)[i] == (if i + 1 < pieces(s, '\n').len() {
            strip_cr(pieces(s, '\n')[i])
        } else {
            pieces(s, '\n')[i]
        }),
{
}

/// `l` without one trailing carriage return.
fn strip_cr_str<'a>(l: &'a str) -> (r: &'a str)
    ensures
        r@ == strip_cr(l@),
{
    let cs = chars_of(l);
    let n = cs.len();
    if n > 0 && cs[n - 1] == '\r' {
        l.substring_char(0, n - 1)
    } else {
        l.substring_char(0, n)
    }
}

/// The lines of `s`.
pub fn lines<'a>(s: &'a str) -> (r: Vec<&'a str>)
    ensures
        strs(r@) == lines_of(s@),
{
    let p = split(s, '\n');
    let ghost ps = pieces(s@, '\n');
    assert(ps.len() == p@.len());
    let mut n = p.len();
    if n > 0 && p[n - 1].unicode_len() == 0 {
        n = n - 1;
    }
    proof {
        lemma_pieces_nonempty(s@, '\n');
    }
    assert(n == lines_of(s@).len());
    let mut out: Vec<&'a str> = Vec::new();
    let mut i: usize = 0;
    while i < n
        invariant
            i <= n <= p@.len() == ps.len(),
            strs(p@) == ps,
            ps == pieces(s@, '\n'),
            n == lines_of(s@).len(),
            strs(out@) =~= lines_of(s@).take(i as int),
        decreases n - i,
    {
        assert(ps[i as int] == p@[i as int]@);
        proof {
            lemma_lines_index(s@, i as int);
        }
        let l = if i + 1 < p.len() {
            let t = strip_cr_str(p[i]);
            t
        } else {
            p[i]
        };
        assert(l@ == lines_of(s@)[i as int]);
        let ghost before = out@;
        out.push(l);
        assert(strs(out@) =~= strs(before).push(l@));
        i += 1;
    }
    assert(lines_of(s@).take(n as int) =~= lines_of(s@));
    out
}

/// The number of characters of `cs` before the first `c` (all of them if none).
fn prefix_len_exec(cs: &Vec<char>, c: char) -> (r: usize)
    ensures
        r == prefix_len(cs@, c),
        r <= cs@.len(),
{
    let n = cs.len();
    let mut i: usize = 0;
    assert(cs@.skip(0) =~= cs@);
    while i < n && cs[i] != c
        invariant
            i <= n == cs@.len(),
            prefix_len(cs@, c) == i + prefix_len(cs@.skip(i as int), c),
        decreases n - i,
    {
        assert(cs@.skip(i as int).drop_first() =~= cs@.skip(i + 1));
        i += 1;
    }
    i
}

/// The first run of non-whitespace characters of `s`.
pub fn first_word_str<'a>(s: &'a str) -> (r: Option<&'a str>)
    ensures
        opt_view(r) == first_word(s@),
{
    let cs = chars_of(s);
    let n = cs.len();
    let mut i: usize = 0;
    assert(s@.subrange(0, n as int) =~= s@);
    while i < n && is_whitespace(cs[i])
        invariant
            i <= n == cs@.len(),
            cs@ == s@,
            trim_start_by(s@, Strip::Space) == trim_start_by(s@.subrange(i as int, n as int), Strip::Space),
        decreases n - i,
    {
        assert(s@.subrange(i as int, n as int).drop_first() =~= s@.subrange(i + 1, n as int));
        i += 1;
    }
    let ghost t = s@.subrange(i as int, n as int);
    assert(trim_start_by(s@, Strip::Space) == t);
    if i == n {
        return None;
    }
    let mut j: usize = i;
    assert(t.skip(0) =~= t);
    while j < n && !is_whitespace(cs[j])
        invariant
            i <= j <= n == cs@.len(),
            cs@ == s@,
            t == s@.subrange(i as int, n as int),
            word_len(t) == (j - i) + word_len(t.skip(j - i)),
        decreases n - j,
    {
        assert(t.skip(j - i).drop_first() =~= t.skip(j + 1 - i));
        j += 1;
    }
    let w = s.substring_char(i, j);
    assert(w@ =~= t.take(word_len(t) as int));
    Some(w)
}

/// The parts of `s` before and after its first `c`.
pub fn split_once<'a>(s: &'a str, c: char) -> (r: Option<(&'a str, &'a str)>)
    ensures
        match r {
            Some(p) => split_once_of(s@, c) == Some((p.0@, p.1@)),
            None => split_once_of(s@, c) is None,
        },
{
    let cs = chars_of(s);
    let k = prefix_len_exec(&cs, c);
    if k < cs.len() {
        let a = s.substring_char(0, k);
        let b = s.substring_char(k + 1, cs.len());
        assert(a@ =~= s@.take(k as int));
        assert(b@ =~= s@.skip(k + 1));
        Some((a, b))
    } else {
        None
    }
}

/// What follows the first `c` of `s`, or all of `s` where it holds no `c`.
pub fn after_first_str<'a>(s: &'a str, c: char) -> (r: &'a str)
    ensures
        r@ == after_first(s@, c),
{
    match split_once(s, c) {
        Some(p) => p.1,
        None => s,
    }
}

/// `s` split at its first `n - 1` occurrences of `c`.
pub fn splitn<'a>(s: &'a str, n: usize, c: char) -> (r: Vec<&'a str>)
    ensures
        strs(r@) == pieces_n(s@, n as nat, c),
    decreases n,
{
    match split_once(s, c) {
        Some(p) => if n <= 1 {
            let r = vec![s];
            assert(strs(r@) =~= seq![s@]);
            r
        } else {
            let mut head = vec![p.0];
            let mut tail = splitn(p.1, n - 1, c);
            head.append(&mut tail);
            assert(strs(head@) =~= seq![p.0@] + pieces_n(p.1@, (n - 1) as nat, c));
            head
        },
        None => {
            let r = vec![s];
            assert(strs(r@) =~= seq![s@]);
            r
        },
    }
}

/// Whether `hay` holds `needle` at position `i`.
fn occurs_at(hay: &Vec<char>, needle: &Vec<char>, i: usize) -> (r: bool)
    requires
        i + needle@.len() <= hay@.len(),
    ensures
        r == (hay@.subrange(i as int, i + needle@.len()) == needle@),
{
    let m = needle.len();
    let hl = hay.len();
    let mut j: usize = 0;
    while j < m
        invariant
            j <= m == needle@.len(),
            hl == hay@.len(),
            i + m <= hay@.len(),
            hay@.subrange(i as int, i + j) == needle@.take(j as int),
        decreases m - j,
    {
        if hay[i + j] != needle[j] {
            assert(hay@.subrange(i as int, i + m)[j as int] != needle@[j as int]);
            return false;
        }
        assert(hay@.subrange(i as int, i + j + 1) =~= needle@.take(j + 1));
        j += 1;
    }
    assert(needle@.take(m as int) =~= needle@);
    true
}

/// Whether `needle` occurs in `hay`, as `str::contains`.
pub fn contains(hay: &str, needle: &str) -> (r: bool)
    ensures
        r == occurs_in(needle@, hay@),
{
    let h = chars_of(hay);
    let nd = chars_of(needle);
    if nd.len() > h.len() {
        return false;
    }
    let last = h.len() - nd.len();
    let mut i: usize = 0;
    loop
        invariant
            i <= last,
            last + nd@.len() == h@.len(),
            h@ == hay@,
            nd@ == needle@,
            forall|k: int| 0 <= k < i ==> #[trigger] hay@.subrange(k, k + needle@.len()) != needle@,
        decreases last - i,
    {
        if occurs_at(&h, &nd, i) {
            return true;
        }
        if i == last {
            return false;
        }
        i += 1;
    }
}

/// Whether `a` and `b` hold the same characters.
pub fn same_chars(a: &str, b: &str) -> (r: bool)
    ensures
        r == (a@ == b@),
{
    let x = chars_of(a);
    let y = chars_of(b);
    if x.len() != y.len() {
        return false;
    }
    let mut i: usize = 0;
    while i < x.len()
        invariant
            x@.len() == y@.len(),
            x@ == a@,
            y@ == b@,
            forall|k: int| 0 <= k < i ==> x@[k] == y@[k],
        decreases x@.len() - i,
    {
        if x[i] != y[i] {
            return false;
        }
        i += 1;
    }
    assert(x@ =~= y@);
    true
}

/// Each of `ls` trimmed.
pub open spec fn trimmed(ls: Seq<Seq<char>>) -> Seq<Seq<char>> {
    ls.map_values(|l: Seq<char>| trim(l))
}

/// The non-empty members of `ls`, in order.
pub open spec fn nonblank(ls: Seq<Seq<char>>) -> Seq<Seq<char>>
    decreases ls.len(),
{
    if ls.len() == 0 {
        ls
    } else {
        let r = nonblank(ls.drop_last());
        if ls.last().len() > 0 {
            r.push(ls.last())
        } else {
            r
        }
    }
}

/// The tab-separated values of `s`: each trimmed, empty ones left out.
pub open spec fn tokens_of(s: Seq<char>) -> Seq<Seq<char>> {
    nonblank(trimmed(pieces(s, '\t')))
}

/// `ls` joined with a line feed between each two.
pub open spec fn join_lines(ls: Seq<Seq<char>>) -> Seq<char>
    decreases ls.len(),
{
    if ls.len() == 0 {
        Seq::empty()
    } else if ls.len() == 1 {
        ls[0]
    } else {
        join_lines(ls.drop_last()) + seq!['\n'] + ls.last()
    }
}

/// Each of `v` trimmed.
pub fn trim_each<'a>(v: &Vec<&'a str>, k: Strip) -> (r: Vec<&'a str>)
    ensures
        strs(r@) == strs(v@).map_values(|l: Seq<char>| trim_by(l, k)),
{
    let mut out: Vec<&'a str> = Vec::new();
    let mut i: usize = 0;
    while i < v.len()
        invariant
            i <= v@.len(),
            strs(out@) =~= strs(v@).map_values(|l: Seq<char>| trim_by(l, k)).take(i as int),
        decreases v@.len() - i,
    {
        let t = trim_matches(v[i], k);
        let ghost before = out@;
        out.push(t);
        assert(strs(out@) =~= strs(before).push(t@));
        i += 1;
    }
    assert(strs(v@).map_values(|l: Seq<char>| trim_by(l, k)).take(i as int) =~= strs(v@).map_values(
        |l: Seq<char>| trim_by(l, k),
    ));
    out
}

/// Each of `v` trimmed of whitespace.
pub fn trim_all<'a>(v: &Vec<&'a str>) -> (r: Vec<&'a str>)
    ensures
        strs(r@) == trimmed(strs(v@)),
{
    let r = trim_each(v, Strip::Space);
    assert(strs(r@) =~= trimmed(strs(v@)));
    r
}

/// The non-empty members of `v`, in order.
pub fn drop_blank<'a>(v: &Vec<&'a str>) -> (r: Vec<&'a str>)
    ensures
        strs(r@) == nonblank(strs(v@)),
{
    let mut out: Vec<&'a str> = Vec::new();
    let mut i: usize = 0;
    while i < v.len()
        invariant
            i <= v@.len(),
            strs(out@) == nonblank(strs(v@).take(i as int)),
        decreases v@.len() - i,
    {
        assert(strs(v@).take(i + 1).drop_last() =~= strs(v@).take(i as int));
        if v[i].unicode_len() > 0 {
            let ghost before = out@;
            out.push(v[i]);
            assert(strs(out@) =~= strs(before).push(v@[i as int]@));
        }
        i += 1;
    }
    assert(strs(v@).take(i as int) =~= strs(v@));
    out
}

/// The tab-separated values of `s`: each trimmed, empty ones left out.
pub fn tokens<'a>(s: &'a str) -> (r: Vec<&'a str>)
    ensures
        strs(r@) == tokens_of(s@),
{
    let p = split(s, '\t');
    let t = trim_all(&p);
    drop_blank(&t)
}

/// The value at `k` of `t`, or `default` where `t` has none.
pub open spec fn field_or(t: Seq<Seq<char>>, k: int, default: Seq<char>) -> Seq<char> {
    if 0 <= k < t.len() {
        t[k]
    } else {
        default
    }
}

/// The value at `k` of `t`, or `default` where `t` has none.
pub fn value_or<'a>(t: &Vec<&'a str>, k: usize, default: &'a str) -> (r: &'a str)
    ensures
        r@ == field_or(strs(t@), k as int, default@),
{
    if k < t.len() {
        t[k]
    } else {
        default
    }
}

/// The first `n` members of `s`, or all of them where it has fewer, as
/// `Iterator::take`.
pub open spec fn upto<A>(s: Seq<A>, n: int) -> Seq<A> {
    if n < s.len() {
        s.take(n)
    } else {
        s
    }
}

/// The first `n` members of `v`, or all of them where it has fewer.
pub fn take<'a>(v: &Vec<&'a str>, n: usize) -> (r: Vec<&'a str>)
    ensures
        r@ == upto(v@, n as int),
        strs(r@) == upto(strs(v@), n as int),
{
    let mut out: Vec<&'a str> = Vec::new();
    let mut i: usize = 0;
    while i < n && i < v.len()
        invariant
            i <= v@.len(),
            i <= n,
            out@ == v@.take(i as int),
        decreases v@.len() - i,
    {
        out.push(v[i]);
        i += 1;
        assert(out@ =~= v@.take(i as int));
    }
    assert(out@ =~= upto(v@, n as int));
    assert(strs(out@) =~= upto(strs(v@), n as int));
    out
}

/// The members of `s` from index `n` on, as `Iterator::skip`.
pub open spec fn after<A>(s: Seq<A>, n: int) -> Seq<A> {
    if n <= s.len() {
        s.skip(n)
    } else {
        Seq::empty()
    }
}

/// The members of `v` from index `n` on.
pub fn skip<'a>(v: &Vec<&'a str>, n: usize) -> (r: Vec<&'a str>)
    ensures
        r@ == after(v@, n as int),
        strs(r@) == after(strs(v@), n as int),
{
    let mut out: Vec<&'a str> = Vec::new();
    if n >= v.len() {
        assert(out@ =~= after(v@, n as int));
        assert(strs(out@) =~= after(strs(v@), n as int));
        return out;
    }
    let mut i: usize = n;
    while i < v.len()
        invariant
            n <= i <= v@.len(),
            out@ == v@.subrange(n as int, i as int),
        decreases v@.len() - i,
    {
        out.push(v[i]);
        i += 1;
        assert(out@ =~= v@.subrange(n as int, i as int));
    }
    assert(out@ =~= after(v@, n as int));
    assert(strs(out@) =~= after(strs(v@), n as int));
    out
}

/// `v` joined with a line feed between each two.
pub fn join_with_newlines(v: &Vec<&str>) -> (r: String)
    ensures
        r@ == join_lines(strs(v@)),
{
    let mut out = String::new();
    let mut i: usize = 0;
    proof {
        reveal_strlit("\n");
    }
    while i < v.len()
        invariant
            i <= v@.len(),
            out@ == join_lines(strs(v@).take(i as int)),
            "\n"@ == seq!['\n'],
        decreases v@.len() - i,
    {
        assert(strs(v@).take(i + 1).drop_last() =~= strs(v@).take(i as int));
        if i > 0 {
            out.append("\n");
        } else {
            assert(out@ =~= Seq::<char>::empty());
        }
        out.append(v[i]);
        i += 1;
        assert(out@ =~= join_lines(strs(v@).take(i as int)));
    }
    assert(strs(v@).take(i as int) =~= strs(v@));
    out
}

/// An ASCII decimal digit.
pub open spec fn is_digit(c: char) -> bool {
    '0' <= c && c <= '9'
}

/// `d` is one or more ASCII decimal digits.
pub open spec fn all_digits(d: Seq<char>) -> bool {
    d.len() > 0 && forall|i: int| 0 <= i < d.len() ==> is_digit(#[trigger] d[i])
}

/// The number that the decimal digits `d` write.
pub open spec fn digits_value(d: Seq<char>) -> nat
    decreases d.len(),
{
    if d.len() == 0 {
        0
    } else {
        digits_value(d.drop_last()) * 10 + (d.last() as u32 - '0' as u32) as nat
    }
}

/// `s` without one leading `+`, or `-` where `minus_too` holds.
pub open spec fn unsigned_part(s: Seq<char>, minus_too: bool) -> Seq<char> {
    if s.len() > 0 && (s[0] == '+' || (minus_too && s[0] == '-')) {
        s.drop_first()
    } else {
        s
    }
}

/// What `str::parse::<usize>` reads in `s`: an optional `+` and decimal
/// digits whose value fits in a `usize`.
pub open spec fn usize_of(s: Seq<char>) -> Option<nat> {
    let d = unsigned_part(s, false);
    if all_digits(d) && digits_value(d) <= usize::MAX {
        Some(digits_value(d))
    } else {
        None
    }
}

/// What `str::parse::<i32>` reads in `s`: an optional `+` or `-` and decimal
/// digits whose value fits in an `i32`.
pub open spec fn i32_of(s: Seq<char>) -> Option<int> {
    let d = unsigned_part(s, true);
    let v: int = if s.len() > 0 && s[0] == '-' {
        -digits_value(d)
    } else {
        digits_value(d) as int
    };
    if all_digits(d) && i32::MIN <= v <= i32::MAX {
        Some(v)
    } else {
        None
    }
}

/// A prefix of a digit string has at most its value.
pub proof fn lemma_digits_prefix(d: Seq<char>, j: int)
    requires
        0 <= j <= d.len(),
    ensures
        digits_value(d.take(j)) <= digits_value(d),
    decreases d.len(),
{
    if j < d.len() {
        lemma_digits_prefix(d.drop_last(), j);
        assert(d.drop_last().take(j) =~= d.take(j));
    } else {
        assert(d.take(j) =~= d);
    }
}

/// The value of the digits `cs[from..]`, where they are one or more digits
/// and their value is at most `limit`.
fn digits_upto(cs: &Vec<char>, from: usize, limit: u64) -> (r: Option<u64>)
    requires
        from <= cs@.len(),
        limit >= 9,
    ensures
        r == (if all_digits(cs@.skip(from as int)) && digits_value(cs@.skip(from as int)) <= limit {
            Some(digits_value(cs@.skip(from as int)) as u64)
        } else {
            None::<u64>
        }),
{
    let ghost d = cs@.skip(from as int);
    let n = cs.len();
    if from == n {
        return None;
    }
    let mut i: usize = from;
    while i < n
        invariant
            from <= i <= n == cs@.len(),
            d == cs@.skip(from as int),
            forall|k: int| from <= k < i ==> is_digit(#[trigger] cs@[k]),
        decreases n - i,
    {
        if !('0' <= cs[i] && cs[i] <= '9') {
            assert(!is_digit(d[i - from]));
            return None;
        }
        i += 1;
    }
    assert(all_digits(d));
    let mut v: u64 = 0;
    let mut i: usize = from;
    assert(d.take(0) =~= Seq::<char>::empty());
    while i < n
        invariant
            from <= i <= n == cs@.len(),
            d == cs@.skip(from as int),
            all_digits(d),
            limit >= 9,
            v == digits_value(d.take(i - from)),
            v <= limit,
        decreases n - i,
    {
        assert(d[i - from] == cs@[i as int]);
        assert(is_digit(d[i - from]));
        assert(d.take(i + 1 - from).drop_last() =~= d.take(i - from));
        let dg: u64 = (cs[i] as u32 - '0' as u32) as u64;
        assert(dg <= 9);
        if v > (limit - dg) / 10 {
            assert(v * 10 + dg > limit) by (nonlinear_arith)
                requires
                    v > (limit - dg) / 10,
                    dg <= 9,
                    limit >= 9,
            ;
            proof {
                lemma_digits_prefix(d, i + 1 - from);
            }
            return None;
        }
        assert(v * 10 + dg <= limit) by (nonlinear_arith)
            requires
                v <= (limit - dg) / 10,
                dg <= 9,
                limit >= 9,
        ;
        v = v * 10 + dg;
        i += 1;
    }
    assert(d.take(n - from) =~= d);
    Some(v)
}

/// `s` read as a `usize`, as `str::parse::<usize>`.
pub fn parse_usize(s: &str) -> (r: Option<usize>)
    ensures
        match r {
            Some(v) => usize_of(s@) == Some(v as nat),
            None => usize_of(s@) is None,
        },
{
    let cs = chars_of(s);
    let from: usize = if cs.len() > 0 && cs[0] == '+' {
        1
    } else {
        0
    };
    assert(cs@.skip(from as int) =~= unsigned_part(s@, false));
    match digits_upto(&cs, from, usize::MAX as u64) {
        Some(v) => Some(v as usize),
        None => None,
    }
}

/// `s` read as an `i32`, as `str::parse::<i32>`.
pub fn parse_i32(s: &str) -> (r: Option<i32>)
    ensures
        match r {
            Some(v) => i32_of(s@) == Some(v as int),
            None => i32_of(s@) is None,
        },
{
    let cs = chars_of(s);
    let neg = cs.len() > 0 && cs[0] == '-';
    let from: usize = if cs.len() > 0 && (cs[0] == '+' || cs[0] == '-') {
        1
    } else {
        0
    };
    assert(cs@.skip(from as int) =~= unsigned_part(s@, true));
    let limit: u64 = if neg {
        2147483648
    } else {
        2147483647
    };
    match digits_upto(&cs, from, limit) {
        Some(v) => if neg {
            Some((0 - (v as i64)) as i32)
        } else {
            Some(v as i32)
        },
        None => None,
    }
}

} // verus!
