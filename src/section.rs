//! Locating a named section of the report, and the sentinel tokens that
//! stand for an absent value.

use vstd::prelude::*;
use vstd::string::*;
use crate::text::{
    after, chars_of, is_whitespace, is_ws, lemma_pieces_nonempty, lines, lines_of, opt_view, pieces,
    same_chars, skip, split, trim, trim_str,
};

verus! {

/// `l` holds a character that is not whitespace.
pub open spec fn has_text(l: Seq<char>) -> bool {
    exists|k: int| 0 <= k < l.len() && !is_ws(#[trigger] l[k])
}

/// A header line (without its line break): it does not begin with a tab and
/// is not blank.
pub open spec fn is_header(l: Seq<char>) -> bool {
    !(l.len() > 0 && l[0] == '\t') && has_text(l)
}

/// `l` begins with `p`.
pub open spec fn starts_with(l: Seq<char>, p: Seq<char>) -> bool {
    p.len() <= l.len() && l.take(p.len() as int) == p
}

/// The scan of `t` for the section `name`, from position `i`, where the
/// current line began at `line_start` and `group` is the start of the section
/// header seen last, if any. Only a line that ends with a line break counts as
/// a header. A header that begins with `name` opens (or reopens) the section;
/// any other header closes an open one, which then spans from its header up to
/// the line break before the closing header.
pub open spec fn scan(t: Seq<char>, name: Seq<char>, i: int, line_start: int, group: Option<int>) -> Option<(int, int)>
    decreases t.len() - i,
{
    if i < 0 || i >= t.len() {
        None
    } else if t[i] == '\n' {
        let l = t.subrange(line_start, i);
        if is_header(l) && starts_with(l, name) {
            scan(t, name, i + 1, i + 1, Some(line_start))
        } else if is_header(l) && group is Some {
            Some((group->0, line_start - 1))
        } else {
            scan(t, name, i + 1, i + 1, group)
        }
    } else {
        scan(t, name, i + 1, line_start, group)
    }
}

/// The text of the section `name` of `t`: from the start of its header line
/// up to the line break before the next header line.
pub open spec fn group_of(t: Seq<char>, name: Seq<char>) -> Option<Seq<char>> {
    match scan(t, name, 0, 0, None) {
        Some(span) => Some(t.subrange(span.0, span.1)),
        None => None,
    }
}

/// `t[a..b]` is a whole line of `t` that a line break ends.
pub open spec fn is_line(t: Seq<char>, a: int, b: int) -> bool {
    &&& 0 <= a <= b < t.len()
    &&& (a == 0 || t[a - 1] == '\n')
    &&& t[b] == '\n'
    &&& forall|k: int| a <= k < b ==> t[k] != '\n'
}

/// No header line of `t` begins with `name`.
pub open spec fn no_header_named(t: Seq<char>, name: Seq<char>) -> bool {
    forall|a: int, b: int|
        #[trigger] is_line(t, a, b) ==> !(is_header(t.subrange(a, b)) && starts_with(
            t.subrange(a, b),
            name,
        ))
}

/// Why a section that was found could not be decoded.
#[derive(Clone, Copy, Debug, PartialEq, Eq, Structural)]
pub enum DecodeError {
    /// A section ends before a line that its layout places at a fixed position.
    TooFewLines,
    /// A row has fewer columns than its layout asks for.
    TooFewColumns,
    /// A row has more columns than the header row that opened its block.
    TooManyColumns,
    /// A leading index is not a non-negative integer.
    InvalidIndex,
}

/// The rows of `rows` that have at least `n` values, in order.
pub open spec fn rows_with_at_least(rows: Seq<Seq<Seq<char>>>, n: nat) -> Seq<Seq<Seq<char>>>
    decreases rows.len(),
{
    if rows.len() == 0 {
        rows
    } else {
        let r = rows_with_at_least(rows.drop_last(), n);
        if rows.last().len() >= n {
            r.push(rows.last())
        } else {
            r
        }
    }
}

/// The value that an optional field holds: absent for the sentinels `--` and
/// `None`, the token itself otherwise.
pub open spec fn decode_optional(s: Seq<char>) -> Option<Seq<char>> {
    if s == "--"@ || s == "None"@ {
        None
    } else {
        Some(s)
    }
}

/// Whether `cs[a..b]` is a header line.
fn header_at(cs: &Vec<char>, a: usize, b: usize) -> (r: bool)
    requires
        a <= b <= cs@.len(),
    ensures
        r == is_header(cs@.subrange(a as int, b as int)),
{
    let ghost l = cs@.subrange(a as int, b as int);
    if a < b && cs[a] == '\t' {
        return false;
    }
    let mut k: usize = a;
    while k < b
        invariant
            a <= k <= b <= cs@.len(),
            l == cs@.subrange(a as int, b as int),
            !(l.len() > 0 && l[0] == '\t'),
            forall|j: int| 0 <= j < k - a ==> is_ws(#[trigger] l[j]),
        decreases b - k,
    {
        if !is_whitespace(cs[k]) {
            assert(!is_ws(l[k - a]));
            return true;
        }
        k += 1;
    }
    false
}

/// Whether `cs[a..b]` begins with `p`.
fn starts_at(cs: &Vec<char>, a: usize, b: usize, p: &Vec<char>) -> (r: bool)
    requires
        a <= b <= cs@.len(),
    ensures
        r == starts_with(cs@.subrange(a as int, b as int), p@),
{
    let ghost l = cs@.subrange(a as int, b as int);
    if p.len() > b - a {
        return false;
    }
    let mut k: usize = 0;
    while k < p.len()
        invariant
            a <= b <= cs@.len(),
            p@.len() <= b - a,
            k <= p@.len(),
            l == cs@.subrange(a as int, b as int),
            forall|j: int| 0 <= j < k ==> l[j] == p@[j],
        decreases p@.len() - k,
    {
        if cs[a + k] != p[k] {
            assert(l.take(p@.len() as int)[k as int] != p@[k as int]);
            return false;
        }
        k += 1;
    }
    assert(l.take(p@.len() as int) =~= p@);
    true
}

/// The text of the section `group_name` of `text`: from the start of the
/// first header line that begins with `group_name` (or the last of several
/// such headers in a row) up to the line break before the next header line.
/// Absent where no such header is followed by another header.
pub fn extract_group<'a>(text: &'a str, group_name: &str) -> (r: Option<&'a str>)
    ensures
        opt_view(r) == group_of(text@, group_name@),
{
    let t = chars_of(text);
    let nm = chars_of(group_name);
    let n = t.len();
    let mut line_start: usize = 0;
    let mut group: Option<usize> = None;
    let mut i: usize = 0;
    while i < n
        invariant
            i <= n == t@.len(),
            t@ == text@,
            nm@ == group_name@,
            line_start <= i,
            group matches Some(g) ==> g < line_start,
            scan(t@, nm@, 0, 0, None) == scan(t@, nm@, i as int, line_start as int, match group {
                Some(g) => Some(g as int),
                None => None,
            }),
        decreases n - i,
    {
        if t[i] == '\n' {
            let hdr = header_at(&t, line_start, i);
            if hdr && starts_at(&t, line_start, i, &nm) {
                group = Some(line_start);
            } else if hdr {
                if let Some(g) = group {
                    return Some(text.substring_char(g, line_start - 1));
                }
            }
            line_start = i + 1;
        }
        i += 1;
    }
    None
}

/// The value that an optional field holds: absent for the sentinels `--` and
/// `None`, the token itself otherwise.
pub fn to_option<'a>(s: &'a str) -> (r: Option<&'a str>)
    ensures
        opt_view(r) == decode_optional(s@),
        r matches Some(t) ==> t == s,
{
    if same_chars(s, "--") || same_chars(s, "None") {
        None
    } else {
        Some(s)
    }
}

/// The callsign of the report's owner: the first space-separated word of the
/// first content line of the Mission Overview section (after its header and
/// one more line), trimmed; empty where there is no such line. Absent where
/// the section is.
pub open spec fn owner_of(b: Seq<char>) -> Option<Seq<char>> {
    match group_of(b, "Mission Overview"@) {
        Some(ov) => Some(
            if after(lines_of(ov), 2).len() > 0 {
                pieces(trim(after(lines_of(ov), 2)[0]), ' ')[0]
            } else {
                Seq::empty()
            },
        ),
        None => None,
    }
}

/// The callsign of the report's owner.
pub fn owner_callsign<'a>(briefing: &'a str) -> (r: Option<&'a str>)
    ensures
        opt_view(r) == owner_of(briefing@),
{
    let ov = match extract_group(briefing, "Mission Overview") {
        Some(s) => s,
        None => return None,
    };
    let all = lines(ov);
    let ls = skip(&all, 2);
    if ls.len() > 0 {
        let first = trim_str(ls[0]);
        let words = split(first, ' ');
        proof {
            lemma_pieces_nonempty(first@, ' ');
        }
        Some(words[0])
    } else {
        proof {
            reveal_strlit("");
        }
        Some("")
    }
}

/// A scan that has no section open, from the start of a line on, finds none
/// where no header line begins with `name`.
proof fn lemma_scan_finds_none(t: Seq<char>, name: Seq<char>, i: int, line_start: int)
    requires
        no_header_named(t, name),
        0 <= line_start <= i <= t.len(),
        line_start == 0 || t[line_start - 1] == '\n',
        forall|k: int| line_start <= k < i ==> t[k] != '\n',
    ensures
        scan(t, name, i, line_start, None) is None,
    decreases t.len() - i,
{
    if i < t.len() {
        if t[i] == '\n' {
            assert(is_line(t, line_start, i));
            lemma_scan_finds_none(t, name, i + 1, i + 1);
        } else {
            lemma_scan_finds_none(t, name, i + 1, line_start);
        }
    }
}

/// A report in which no header line begins with `name` has no section
/// `name`.
pub proof fn lemma_missing_section(t: Seq<char>, name: Seq<char>)
    requires
        no_header_named(t, name),
    ensures
        group_of(t, name) is None,
{
    lemma_scan_finds_none(t, name, 0, 0);
}

/// The sentinels `--` and `None` decode to an absent value; every other
/// token decodes to itself.
pub proof fn lemma_sentinels(s: Seq<char>)
    ensures
        decode_optional("--"@) is None,
        decode_optional("None"@) is None,
        s != "--"@ && s != "None"@ ==> decode_optional(s) == Some(s),
{
}

} // verus!
