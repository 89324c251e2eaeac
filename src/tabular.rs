//! Sections laid out as rows of tab-separated columns: steerpoints, the comm
//! ladder and the pilot roster.

use vstd::prelude::*;
use vstd::string::*;
use crate::section::{
    decode_optional, extract_group, group_of, owner_callsign, owner_of,
    rows_with_at_least, to_option, DecodeError,
};
use crate::text::{
    after, chars_of, is_whitespace, is_ws, drop_blank, field_or, lines, lines_of, nonblank, opt_view, parse_usize, same_chars, skip, strs, tokens,
    tokens_of, trim_all, trim_by, trim_matches, trimmed, usize_of, value_or, Strip,
};

verus! {

/// One route point of the flight plan.
pub struct Steerpoint<'a> {
    pub steerpoint: usize,
    pub description: Option<&'a str>,
    pub time: Option<&'a str>,
    /// The distance as printed; it stands for a real number where it reads as
    /// one.
    pub distance: &'a str,
    pub heading: Option<usize>,
    pub cas: Option<usize>,
    pub altitude: Option<&'a str>,
    pub action: Option<&'a str>,
    pub form: Option<&'a str>,
    pub comments: Option<&'a str>,
}

/// The optional number that an optional `usize` stands for.
pub open spec fn opt_nat(o: Option<usize>) -> Option<nat> {
    match o {
        Some(v) => Some(v as nat),
        None => None,
    }
}

/// The values of each content line of the section `name`: the lines after
/// the first `skip_n`, trimmed, blank ones left out, each split into its
/// tab-separated values.
pub open spec fn section_rows(b: Seq<char>, name: Seq<char>, skip_n: int) -> Seq<Seq<Seq<char>>> {
    match group_of(b, name) {
        Some(sec) => nonblank(trimmed(after(lines_of(sec), skip_n))).map_values(
            |l: Seq<char>| tokens_of(l),
        ),
        None => Seq::empty(),
    }
}

/// The rows of the Steerpoints section.
pub open spec fn steerpoint_rows(b: Seq<char>) -> Seq<Seq<Seq<char>>> {
    section_rows(b, "Steerpoints"@, 4)
}

/// A row whose leading value is not an index.
pub open spec fn bad_index_row(t: Seq<Seq<char>>) -> bool {
    t.len() > 0 && usize_of(t[0]) is None
}

/// `s` is the steerpoint that the values `t` describe.
pub open spec fn steerpoint_from(s: Steerpoint, t: Seq<Seq<char>>) -> bool {
    &&& usize_of(t[0]) == Some(s.steerpoint as nat)
    &&& opt_view(s.description) == decode_optional(t[1])
    &&& opt_view(s.time) == decode_optional(t[2])
    &&& s.distance@ == t[3]
    &&& opt_nat(s.heading) == usize_of(t[4])
    &&& opt_nat(s.cas) == usize_of(t[5])
    &&& opt_view(s.altitude) == decode_optional(t[6])
    &&& opt_view(s.action) == decode_optional(t[7])
    &&& opt_view(s.form) == decode_optional(t[8])
    &&& opt_view(s.comments) == decode_optional(t[9])
}

impl<'a> Steerpoint<'a> {
    /// The steerpoint that a row of at least ten values describes.
    fn from_values(t: &Vec<&'a str>, index: usize) -> (r: Self)
        requires
            t@.len() >= 10,
            usize_of(t@[0]@) == Some(index as nat),
        ensures
            steerpoint_from(r, strs(t@)),
    {
        Steerpoint {
            steerpoint: index,
            description: to_option(t[1]),
            time: to_option(t[2]),
            distance: t[3],
            heading: parse_usize(t[4]),
            cas: parse_usize(t[5]),
            altitude: to_option(t[6]),
            action: to_option(t[7]),
            form: to_option(t[8]),
            comments: to_option(t[9]),
        }
    }

    /// The steerpoints of the report, one for each content row with at least
    /// ten values. A row whose leading value is not an index is an error.
    pub fn from_briefing(briefing: &'a str) -> (r: Result<Vec<Self>, DecodeError>)
        ensures
            match r {
                Ok(v) => {
                    &&& forall|i: int|
                        0 <= i < steerpoint_rows(briefing@).len() ==> !bad_index_row(
                            #[trigger] steerpoint_rows(briefing@)[i],
                        )
                    &&& v@.len() == rows_with_at_least(steerpoint_rows(briefing@), 10).len()
                    &&& forall|j: int|
                        0 <= j < v@.len() ==> steerpoint_from(
                            #[trigger] v@[j],
                            rows_with_at_least(steerpoint_rows(briefing@), 10)[j],
                        )
                },
                Err(e) => {
                    &&& e == DecodeError::InvalidIndex
                    &&& exists|i: int|
                        0 <= i < steerpoint_rows(briefing@).len() && bad_index_row(
                            #[trigger] steerpoint_rows(briefing@)[i],
                        )
                },
            },
    {
        let ghost rows = steerpoint_rows(briefing@);
        let mut out: Vec<Self> = Vec::new();
        let sec = match extract_group(briefing, "Steerpoints") {
            Some(s) => s,
            None => {
                assert(rows_with_at_least(rows, 10) =~= Seq::<Seq<Seq<char>>>::empty());
                return Ok(out);
            },
        };
        let all = lines(sec);
        let ls = skip(&all, 4);
        let ls = trim_all(&ls);
        let ls = drop_blank(&ls);
        assert(rows =~= strs(ls@).map_values(|l: Seq<char>| tokens_of(l)));
        let mut i: usize = 0;
        while i < ls.len()
            invariant
                i <= ls@.len() == rows.len(),
                rows == strs(ls@).map_values(|l: Seq<char>| tokens_of(l)),
                rows == steerpoint_rows(briefing@),
                forall|k: int| 0 <= k < i ==> !bad_index_row(#[trigger] rows[k]),
                out@.len() == rows_with_at_least(rows.take(i as int), 10).len(),
                forall|j: int|
                    0 <= j < out@.len() ==> steerpoint_from(
                        #[trigger] out@[j],
                        rows_with_at_least(rows.take(i as int), 10)[j],
                    ),
            decreases ls@.len() - i,
        {
            let t = tokens(ls[i]);
            assert(strs(t@) == rows[i as int]);
            assert(rows.take(i + 1).drop_last() =~= rows.take(i as int));
            if t.len() > 0 {
                let index = match parse_usize(t[0]) {
                    Some(v) => v,
                    None => {
                        assert(bad_index_row(rows[i as int]));
                        return Err(DecodeError::InvalidIndex);
                    },
                };
                if t.len() >= 10 {
                    let sp = Self::from_values(&t, index);
                    out.push(sp);
                }
            }
            i += 1;
        }
        assert(rows.take(i as int) =~= rows);
        Ok(out)
    }
}

/// One agency of the comm ladder.
pub struct Comm<'a> {
    pub agency: &'a str,
    pub callsign: Option<&'a str>,
    pub uhf: Option<&'a str>,
    pub vhf: Option<&'a str>,
    pub notes: Option<&'a str>,
}

/// The values of each line of the Comm Ladder section after its header and
/// two boilerplate lines.
pub open spec fn comm_rows(b: Seq<char>) -> Seq<Seq<Seq<char>>> {
    match group_of(b, "Comm Ladder"@) {
        Some(sec) => after(lines_of(sec), 3).map_values(|l: Seq<char>| tokens_of(l)),
        None => Seq::empty(),
    }
}

/// `c` is the comm entry that the values `t` describe.
pub open spec fn comm_from(c: Comm, t: Seq<Seq<char>>) -> bool {
    &&& c.agency@ == trim_by(t[0], Strip::Colon)
    &&& opt_view(c.callsign) == decode_optional(t[1])
    &&& opt_view(c.uhf) == decode_optional(t[2])
    &&& opt_view(c.vhf) == decode_optional(t[3])
    &&& opt_view(c.notes) == decode_optional(t[4])
}

/// Whether `c` is alphabetic or numeric, as Unicode defines them.
pub uninterp spec fn alphanumeric(c: char) -> bool;

/// Relies on `char::is_alphanumeric`: whether `c` is alphabetic or numeric in
/// Unicode's terms, a property of `c` alone; ASCII letters and digits are.
#[verifier::external_body]
fn is_alphanumeric(c: char) -> (r: bool)
    ensures
        r == alphanumeric(c),
        ('a' <= c && c <= 'z') || ('A' <= c && c <= 'Z') || ('0' <= c && c <= '9') ==> r,
{
    c.is_alphanumeric()
}

/// A character that a displayed callsign may hold: alphanumeric, whitespace
/// or `-`.
pub open spec fn callsign_char(c: char) -> bool {
    alphanumeric(c) || is_ws(c) || c == '-'
}

/// The number of leading characters of `s` that a callsign may hold.
pub open spec fn callsign_len(s: Seq<char>) -> nat
    decreases s.len(),
{
    if s.len() == 0 || !callsign_char(s[0]) {
        0
    } else {
        1 + callsign_len(s.drop_first())
    }
}

/// The callsign that `s` begins with: its leading characters up to the first
/// one that is neither alphanumeric, whitespace nor `-`.
pub fn callsign_head<'a>(s: &'a str) -> (r: &'a str)
    ensures
        r@ == s@.take(callsign_len(s@) as int),
{
    let cs = chars_of(s);
    let n = cs.len();
    let mut i: usize = 0;
    assert(s@.skip(0) =~= s@);
    while i < n && (is_alphanumeric(cs[i]) || is_whitespace(cs[i]) || cs[i] == '-')
        invariant
            i <= n == cs@.len(),
            cs@ == s@,
            callsign_len(s@) == i + callsign_len(s@.skip(i as int)),
        decreases n - i,
    {
        assert(s@.skip(i as int).drop_first() =~= s@.skip(i + 1));
        i += 1;
    }
    let r = s.substring_char(0, i);
    assert(r@ =~= s@.take(i as int));
    r
}

impl<'a> Comm<'a> {
    /// Cuts the callsign at its first character that is neither
    /// alphanumeric, whitespace nor `-`, for display; the other fields stay.
    pub fn shorten_callsign(&mut self)
        ensures
            final(self).agency == old(self).agency,
            final(self).uhf == old(self).uhf,
            final(self).vhf == old(self).vhf,
            final(self).notes == old(self).notes,
            match old(self).callsign {
                Some(c) => final(self).callsign matches Some(d) && d@ == c@.take(
                    callsign_len(c@) as int,
                ),
                None => final(self).callsign is None,
            },
    {
        match self.callsign {
            Some(c) => {
                self.callsign = Some(callsign_head(c));
            },
            None => {},
        }
    }

    /// The comm ladder of the report, one entry for each row with at least
    /// five values.
    pub fn from_briefing(briefing: &'a str) -> (r: Vec<Self>)
        ensures
            r@.len() == rows_with_at_least(comm_rows(briefing@), 5).len(),
            forall|j: int|
                0 <= j < r@.len() ==> comm_from(
                    #[trigger] r@[j],
                    rows_with_at_least(comm_rows(briefing@), 5)[j],
                ),
    {
        let ghost rows = comm_rows(briefing@);
        let mut out: Vec<Self> = Vec::new();
        let sec = match extract_group(briefing, "Comm Ladder") {
            Some(s) => s,
            None => {
                assert(rows_with_at_least(rows, 5) =~= Seq::<Seq<Seq<char>>>::empty());
                return out;
            },
        };
        let all = lines(sec);
        let ls = skip(&all, 3);
        assert(rows =~= strs(ls@).map_values(|l: Seq<char>| tokens_of(l)));
        let mut i: usize = 0;
        while i < ls.len()
            invariant
                i <= ls@.len() == rows.len(),
                rows == strs(ls@).map_values(|l: Seq<char>| tokens_of(l)),
                rows == comm_rows(briefing@),
                out@.len() == rows_with_at_least(rows.take(i as int), 5).len(),
                forall|j: int|
                    0 <= j < out@.len() ==> comm_from(
                        #[trigger] out@[j],
                        rows_with_at_least(rows.take(i as int), 5)[j],
                    ),
            decreases ls@.len() - i,
        {
            let t = tokens(ls[i]);
            assert(strs(t@) == rows[i as int]);
            assert(rows.take(i + 1).drop_last() =~= rows.take(i as int));
            if t.len() >= 5 {
                let c = Comm {
                    agency: trim_matches(t[0], Strip::Colon),
                    callsign: to_option(t[1]),
                    uhf: to_option(t[2]),
                    vhf: to_option(t[3]),
                    notes: to_option(t[4]),
                };
                out.push(c);
            }
            i += 1;
        }
        assert(rows.take(i as int) =~= rows);
        out
    }
}

/// One flight of the pilot roster.
pub struct PilotRoster<'a> {
    /// The flight's callsign is the owner's.
    pub primary: bool,
    pub callsign: &'a str,
    pub lead: &'a str,
    pub wing: &'a str,
    pub element: &'a str,
    pub four: &'a str,
}

/// The rows of the Pilot Roster section.
pub open spec fn roster_rows(b: Seq<char>) -> Seq<Seq<Seq<char>>> {
    section_rows(b, "Pilot Roster"@, 4)
}

/// `p` is the roster entry that the values `t` describe, for the owner `own`.
pub open spec fn roster_from(p: PilotRoster, t: Seq<Seq<char>>, own: Seq<char>) -> bool {
    &&& p.callsign@ == field_or(t, 0, ""@)
    &&& p.primary == (p.callsign@ == own)
    &&& p.lead@ == field_or(t, 1, "N/A"@)
    &&& p.wing@ == field_or(t, 2, "N/A"@)
    &&& p.element@ == field_or(t, 3, "N/A"@)
    &&& p.four@ == field_or(t, 4, "N/A"@)
}

impl<'a> PilotRoster<'a> {
    /// The pilot roster, one entry for each content row, where the owner's
    /// callsign is `own`. A missing value reads `N/A`.
    pub fn from_briefing_with_owner(briefing: &'a str, own: &str) -> (r: Vec<Self>)
        ensures
            r@.len() == roster_rows(briefing@).len(),
            forall|j: int|
                0 <= j < r@.len() ==> roster_from(#[trigger] r@[j], roster_rows(briefing@)[j], own@),
    {
        let ghost rows = roster_rows(briefing@);
        let mut out: Vec<Self> = Vec::new();
        let sec = match extract_group(briefing, "Pilot Roster") {
            Some(s) => s,
            None => return out,
        };
        let all = lines(sec);
        let ls = skip(&all, 4);
        let ls = trim_all(&ls);
        let ls = drop_blank(&ls);
        assert(rows =~= strs(ls@).map_values(|l: Seq<char>| tokens_of(l)));
        let mut i: usize = 0;
        while i < ls.len()
            invariant
                i <= ls@.len() == rows.len(),
                rows == strs(ls@).map_values(|l: Seq<char>| tokens_of(l)),
                rows == roster_rows(briefing@),
                out@.len() == i,
                forall|j: int| 0 <= j < i ==> roster_from(#[trigger] out@[j], rows[j], own@),
            decreases ls@.len() - i,
        {
            let t = tokens(ls[i]);
            assert(strs(t@) == rows[i as int]);
            let callsign = value_or(&t, 0, "");
            let p = PilotRoster {
                primary: same_chars(callsign, own),
                callsign,
                lead: value_or(&t, 1, "N/A"),
                wing: value_or(&t, 2, "N/A"),
                element: value_or(&t, 3, "N/A"),
                four: value_or(&t, 4, "N/A"),
            };
            out.push(p);
            i += 1;
        }
        out
    }

    /// The pilot roster, one entry for each content row, with `primary` set on
    /// the owner's flight. Empty where the report has no Mission Overview.
    pub fn from_briefing(briefing: &'a str) -> (r: Vec<Self>)
        ensures
            match owner_of(briefing@) {
                Some(own) => {
                    &&& r@.len() == roster_rows(briefing@).len()
                    &&& forall|j: int|
                        0 <= j < r@.len() ==> roster_from(
                            #[trigger] r@[j],
                            roster_rows(briefing@)[j],
                            own,
                        )
                },
                None => r@.len() == 0,
            },
    {
        match owner_callsign(briefing) {
            Some(own) => Self::from_briefing_with_owner(briefing, own),
            None => Vec::new(),
        }
    }
}

} // verus!
