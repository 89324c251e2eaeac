//! Sections read as a whole: the mission overview, free-text sections, and
//! plain tables.

use vstd::prelude::*;
use vstd::string::*;
use crate::section::{extract_group, group_of, DecodeError};
use crate::text::{
    after, drop_blank, field_or, first_word, first_word_str,
    i32_of, join_lines, join_with_newlines, lemma_pieces_nonempty, lines, lines_of, nonblank,
    parse_i32, pieces, skip, split, split_once, split_once_of, strs, trim, trim_all, trim_by,
    trim_each, trim_matches, trim_str, trimmed, value_or, Strip,
};

verus! {

/// The head of the mission overview.
pub struct Overview<'a> {
    pub callsign: &'a str,
    pub mission_type: &'a str,
    pub package_id: i32,
    pub package_description: &'a str,
    pub package_mission: &'a str,
    pub target_area: &'a str,
    pub time_on_target: &'a str,
    pub sunrise: &'a str,
    pub sunset: &'a str,
}

/// The content lines of the Mission Overview section text `ov`: the lines
/// after its header and one more, trimmed. Fields are read by position.
pub open spec fn overview_lines(ov: Seq<char>) -> Seq<Seq<char>> {
    trimmed(after(lines_of(ov), 2))
}

/// What follows the first `:` of `l`, up to a second one, trimmed.
pub open spec fn labelled(l: Seq<char>) -> Seq<char> {
    trim(field_or(pieces(l, ':'), 1, ""@))
}

/// What follows the first `:` of `l`, trimmed; empty where `l` has none.
pub open spec fn labelled_rest(l: Seq<char>) -> Seq<char> {
    match split_once_of(l, ':') {
        Some(p) => trim(p.1),
        None => ""@,
    }
}

/// The package number: the first word after the label of `l`, read as an
/// `i32`; 0 where there is none or it does not read.
pub open spec fn package_id_of(l: Seq<char>) -> int {
    let a = pieces(l, ':');
    if a.len() > 1 {
        match first_word(a[1]) {
            Some(w) => match i32_of(w) {
                Some(v) => v,
                None => 0,
            },
            None => 0,
        }
    } else {
        0
    }
}

/// The package description: within the value after the label of `l`, what
/// follows the first `(` up to the next, closing parentheses stripped.
pub open spec fn package_description_of(l: Seq<char>) -> Seq<char> {
    let q = pieces(labelled(l), '(');
    if q.len() > 1 {
        trim_by(q[1], Strip::CloseParen)
    } else {
        ""@
    }
}

/// `o` is the overview that the content lines `ls` give: `<callsign>
/// (<mission type>)` on line 0, `Label: <id> (<description>)` on line 2, and
/// `Label: <value>` for mission, target area, time on target, sunrise and
/// sunset on lines 3, 4, 5, 7 and 8.
pub open spec fn overview_from(o: Overview, ls: Seq<Seq<char>>) -> bool {
    let first = pieces(ls[0], ' ');
    &&& o.callsign@ == first[0]
    &&& o.mission_type@ == (if first.len() > 1 {
        trim_by(first[1], Strip::Parens)
    } else {
        ""@
    })
    &&& o.package_id as int == package_id_of(ls[2])
    &&& o.package_description@ == package_description_of(ls[2])
    &&& o.package_mission@ == labelled(ls[3])
    &&& o.target_area@ == labelled(ls[4])
    &&& o.time_on_target@ == labelled_rest(ls[5])
    &&& o.sunrise@ == labelled_rest(ls[7])
    &&& o.sunset@ == labelled_rest(ls[8])
}

/// `o` has every text field empty and package number 0.
pub open spec fn overview_is_empty(o: Overview) -> bool {
    &&& o.callsign@.len() == 0
    &&& o.mission_type@.len() == 0
    &&& o.package_id == 0
    &&& o.package_description@.len() == 0
    &&& o.package_mission@.len() == 0
    &&& o.target_area@.len() == 0
    &&& o.time_on_target@.len() == 0
    &&& o.sunrise@.len() == 0
    &&& o.sunset@.len() == 0
}

/// What follows the first `:` of `l`, up to a second one, trimmed.
fn labelled_str<'a>(l: &'a str) -> (r: &'a str)
    ensures
        r@ == labelled(l@),
{
    proof {
        reveal_strlit("");
    }
    let a = split(l, ':');
    trim_str(value_or(&a, 1, ""))
}

/// What follows the first `:` of `l`, trimmed.
fn labelled_rest_str<'a>(l: &'a str) -> (r: &'a str)
    ensures
        r@ == labelled_rest(l@),
{
    match split_once(l, ':') {
        Some(p) => trim_str(p.1),
        None => "",
    }
}

impl<'a> Overview<'a> {
    /// The overview with every text field empty and package number 0.
    pub fn empty() -> (r: Self)
        ensures
            overview_is_empty(r),
    {
        proof {
            reveal_strlit("");
        }
        Overview {
            callsign: "",
            mission_type: "",
            package_id: 0,
            package_description: "",
            package_mission: "",
            target_area: "",
            time_on_target: "",
            sunrise: "",
            sunset: "",
        }
    }

    /// The overview of the report, read by line position; empty where the
    /// report has no Mission Overview. A section with fewer than nine content
    /// lines is an error.
    pub fn from_briefing(briefing: &'a str) -> (r: Result<Self, DecodeError>)
        ensures
            match group_of(briefing@, "Mission Overview"@) {
                Some(ov) => match r {
                    Ok(o) => overview_lines(ov).len() >= 9 && overview_from(o, overview_lines(ov)),
                    Err(e) => overview_lines(ov).len() < 9 && e == DecodeError::TooFewLines,
                },
                None => r matches Ok(o) && overview_is_empty(o),
            },
    {
        proof {
            reveal_strlit("");
        }
        let ov = match extract_group(briefing, "Mission Overview") {
            Some(s) => s,
            None => return Ok(Self::empty()),
        };
        let all = lines(ov);
        let ls = skip(&all, 2);
        let ls = trim_all(&ls);
        if ls.len() < 9 {
            return Err(DecodeError::TooFewLines);
        }
        assert(strs(ls@)[0] == ls@[0]@);
        let first = split(ls[0], ' ');
        proof {
            lemma_pieces_nonempty(ls@[0]@, ' ');
        }
        let callsign = first[0];
        let mission_type = if first.len() > 1 {
            trim_matches(first[1], Strip::Parens)
        } else {
            ""
        };

        let l2 = ls[2];
        let a = split(l2, ':');
        let package_id: i32 = if a.len() > 1 {
            match first_word_str(a[1]) {
                Some(w) => match parse_i32(w) {
                    Some(v) => v,
                    None => 0,
                },
                None => 0,
            }
        } else {
            0
        };
        let q = split(labelled_str(l2), '(');
        let package_description = if q.len() > 1 {
            trim_matches(q[1], Strip::CloseParen)
        } else {
            ""
        };
        let o = Overview {
            callsign,
            mission_type,
            package_id,
            package_description,
            package_mission: labelled_str(ls[3]),
            target_area: labelled_str(ls[4]),
            time_on_target: labelled_rest_str(ls[5]),
            sunrise: labelled_rest_str(ls[7]),
            sunset: labelled_rest_str(ls[8]),
        };
        assert(strs(ls@) == overview_lines(ov@));
        Ok(o)
    }
}

/// The free text of the section `name`: its lines after the header and one
/// more, trimmed, blank ones left out, joined with line feeds; empty where
/// the section is absent.
pub open spec fn free_text_of(b: Seq<char>, name: Seq<char>) -> Seq<char> {
    match group_of(b, name) {
        Some(sec) => join_lines(nonblank(trimmed(after(lines_of(sec), 2)))),
        None => Seq::empty(),
    }
}

/// The free text of the section `name`.
fn free_text(briefing: &str, name: &str) -> (r: String)
    ensures
        r@ == free_text_of(briefing@, name@),
{
    let sec = match extract_group(briefing, name) {
        Some(s) => s,
        None => return String::new(),
    };
    let all = lines(sec);
    let ls = skip(&all, 2);
    let ls = trim_all(&ls);
    let ls = drop_blank(&ls);
    join_with_newlines(&ls)
}

/// The situation report.
pub struct Sitrep(pub String);

impl Sitrep {
    /// The text of the Situation section.
    pub fn from_briefing(briefing: &str) -> (r: Self)
        ensures
            r.0@ == free_text_of(briefing@, "Situation"@),
    {
        Sitrep(free_text(briefing, "Situation"))
    }
}

/// The rules of engagement.
pub struct RulesOfEngagement(pub String);

impl RulesOfEngagement {
    /// The text of the Rules of Engagement section.
    pub fn from_briefing(briefing: &str) -> (r: Self)
        ensures
            r.0@ == free_text_of(briefing@, "Rules of Engagement"@),
    {
        RulesOfEngagement(free_text(briefing, "Rules of Engagement"))
    }
}

/// The emergency procedures.
pub struct Emergency(pub String);

impl Emergency {
    /// The text of the Emergency Procedures section.
    pub fn from_briefing(briefing: &str) -> (r: Self)
        ensures
            r.0@ == free_text_of(briefing@, "Emergency Procedures"@),
    {
        Emergency(free_text(briefing, "Emergency Procedures"))
    }
}

/// The threat analysis, as printed.
pub struct ThreatAnalysis<'a>(pub &'a str);

/// The text of the Threat Analysis section after its first two lines, blank
/// lines and indentation kept; empty where the section is absent or has no
/// more than two lines.
pub open spec fn threat_text_of(b: Seq<char>) -> Seq<char> {
    match group_of(b, "Threat Analysis"@) {
        Some(sec) => match split_once_of(sec, '\n') {
            Some(p) => match split_once_of(p.1, '\n') {
                Some(q) => q.1,
                None => Seq::empty(),
            },
            None => Seq::empty(),
        },
        None => Seq::empty(),
    }
}

impl<'a> ThreatAnalysis<'a> {
    /// The text of the Threat Analysis section after its first two lines;
    /// empty where it has no more.
    pub fn from_briefing(briefing: &'a str) -> (r: Self)
        ensures
            r.0@ == threat_text_of(briefing@),
    {
        proof {
            reveal_strlit("");
        }
        let sec = match extract_group(briefing, "Threat Analysis") {
            Some(s) => s,
            None => return ThreatAnalysis(""),
        };
        match split_once(sec, '\n') {
            Some(p) => match split_once(p.1, '\n') {
                Some(q) => ThreatAnalysis(q.1),
                None => ThreatAnalysis(""),
            },
            None => ThreatAnalysis(""),
        }
    }
}

/// The views of rows of string slices.
pub open spec fn table_view(v: Seq<Vec<&str>>) -> Seq<Seq<Seq<char>>> {
    v.map_values(|r: Vec<&str>| strs(r@))
}

/// The table of the section `name`: its lines after the first `skip_n`,
/// trimmed, blank ones left out, each split at tabs into values stripped as
/// `k` says; empty where the section is absent.
pub open spec fn table_of(b: Seq<char>, name: Seq<char>, skip_n: int, k: Strip) -> Seq<Seq<Seq<char>>> {
    match group_of(b, name) {
        Some(sec) => nonblank(trimmed(after(lines_of(sec), skip_n))).map_values(
            |l: Seq<char>| pieces(l, '\t').map_values(|p: Seq<char>| trim_by(p, k)),
        ),
        None => Seq::empty(),
    }
}

/// The table of the section `name`.
fn table<'a>(briefing: &'a str, name: &str, skip_n: usize, k: Strip) -> (r: Vec<Vec<&'a str>>)
    ensures
        table_view(r@) == table_of(briefing@, name@, skip_n as int, k),
{
    let mut out: Vec<Vec<&'a str>> = Vec::new();
    let sec = match extract_group(briefing, name) {
        Some(s) => s,
        None => {
            assert(table_view(out@) =~= Seq::<Seq<Seq<char>>>::empty());
            return out;
        },
    };
    let all = lines(sec);
    let ls = skip(&all, skip_n);
    let ls = trim_all(&ls);
    let ls = drop_blank(&ls);
    let ghost target = table_of(briefing@, name@, skip_n as int, k);
    let mut i: usize = 0;
    while i < ls.len()
        invariant
            i <= ls@.len() == target.len(),
            target == strs(ls@).map_values(
                |l: Seq<char>| pieces(l, '\t').map_values(|p: Seq<char>| trim_by(p, k)),
            ),
            table_view(out@) =~= target.take(i as int),
        decreases ls@.len() - i,
    {
        let p = split(ls[i], '\t');
        let row = trim_each(&p, k);
        let ghost before = out@;
        out.push(row);
        assert(table_view(out@) =~= table_view(before).push(strs(row@)));
        i += 1;
    }
    assert(target.take(i as int) =~= target);
    out
}

/// The weather table.
pub struct Weather<'a>(pub Vec<Vec<&'a str>>);

impl<'a> Weather<'a> {
    /// The rows of the Weather section after its header and one more line,
    /// each value trimmed.
    pub fn from_briefing(briefing: &'a str) -> (r: Self)
        ensures
            table_view(r.0@) == table_of(briefing@, "Weather"@, 2, Strip::Space),
    {
        Weather(table(briefing, "Weather", 2, Strip::Space))
    }
}

/// The support table.
pub struct Support<'a>(pub Vec<Vec<&'a str>>);

impl<'a> Support<'a> {
    /// The rows of the Support section after its header and three more lines,
    /// each value stripped of whitespace and colons.
    pub fn from_briefing(briefing: &'a str) -> (r: Self)
        ensures
            table_view(r.0@) == table_of(briefing@, "Support"@, 4, Strip::SpaceOrColon),
    {
        Support(table(briefing, "Support", 4, Strip::SpaceOrColon))
    }
}

} // verus!
