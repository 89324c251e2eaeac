//! The Iff section: an initial configuration block, rows of timed events,
//! and a row of events by position.

use vstd::prelude::*;
use vstd::string::*;
use crate::section::{extract_group, group_of};
use crate::text::{
    after, after_first, after_first_str, drop_blank, field_or, lines, lines_of, nonblank, pieces,
    pieces_n, skip, split, splitn, strs, take, tokens, tokens_of, trim, trim_all, trim_str,
    trimmed, upto, value_or,
};

verus! {

/// The initial IFF configuration.
pub struct IffInitial<'a> {
    pub modes_active: &'a str,
    pub codes: Vec<&'a str>,
    pub m4_validity_time_until: Vec<&'a str>,
    /// One policy for each of modes 1, 2 and 3.
    pub iff_policy: Vec<&'a str>,
    pub code_change_setting: &'a str,
}

/// Line `k` of the configuration block of the Iff section text `iff`: the
/// block begins after the header and two more lines; empty where the
/// section has no such line.
pub open spec fn config_line(iff: Seq<char>, k: int) -> Seq<char> {
    field_or(after(lines_of(iff), 3), k, ""@)
}

/// The active modes: the second value of the first configuration line, after
/// its label (up to the first `:`), trimmed.
pub open spec fn modes_active_of(iff: Seq<char>) -> Seq<char> {
    trim(after_first(field_or(tokens_of(config_line(iff, 0)), 1, ""@), ':'))
}

/// The codes: the first configuration line cut at its first four tabs, the
/// parts trimmed, blank ones left out; the fourth of what remains (or an empty
/// value) split at tabs, each value trimmed, blank ones left out.
pub open spec fn codes_of(iff: Seq<char>) -> Seq<Seq<char>> {
    nonblank(trimmed(
        pieces(
            field_or(nonblank(trimmed(pieces_n(config_line(iff, 0), 5, '\t'))), 3, ""@),
            '\t',
        ),
    ))
}

/// `r` is the initial configuration that the Iff section text `iff` gives.
pub open spec fn iff_initial_from(r: IffInitial, iff: Seq<char>) -> bool {
    &&& r.modes_active@ == modes_active_of(iff)
    &&& strs(r.codes@) == codes_of(iff)
    &&& strs(r.m4_validity_time_until@) == after(tokens_of(config_line(iff, 1)), 1)
    &&& strs(r.iff_policy@) == after(tokens_of(config_line(iff, 2)), 1)
    &&& r.code_change_setting@ == field_or(tokens_of(config_line(iff, 3)), 1, ""@)
}

impl<'a> IffInitial<'a> {
    /// The initial configuration that the Iff section text `iff` gives.
    pub fn from_iff(iff: &'a str) -> (r: Self)
        ensures
            iff_initial_from(r, iff@),
    {
        proof {
            reveal_strlit("");
        }
        let all = lines(iff);
        let rest = skip(&all, 3);
        let block = take(&rest, 4);
        let l0 = value_or(&block, 0, "");
        let l1 = value_or(&block, 1, "");
        let l2 = value_or(&block, 2, "");
        let l3 = value_or(&block, 3, "");
        assert(l0@ == config_line(iff@, 0));
        assert(l1@ == config_line(iff@, 1));
        assert(l2@ == config_line(iff@, 2));
        assert(l3@ == config_line(iff@, 3));

        let t0 = tokens(l0);
        let modes_active = trim_str(after_first_str(value_or(&t0, 1, ""), ':'));

        let parts = splitn(l0, 5, '\t');
        let parts = trim_all(&parts);
        let parts = drop_blank(&parts);
        let codes = split(value_or(&parts, 3, ""), '\t');
        let codes = trim_all(&codes);
        let codes = drop_blank(&codes);

        let t1 = tokens(l1);
        let m4_validity_time_until = skip(&t1, 1);
        let t2 = tokens(l2);
        let iff_policy = skip(&t2, 1);
        let t3 = tokens(l3);
        let code_change_setting = value_or(&t3, 1, "");
        IffInitial { modes_active, codes, m4_validity_time_until, iff_policy, code_change_setting }
    }
}

/// The IFF plan of the report.
pub struct Iff<'a> {
    pub initial: IffInitial<'a>,
    /// Each row of timed events, split at tabs.
    pub time_events: Vec<Vec<&'a str>>,
    /// The events by position.
    pub pos_events: Vec<&'a str>,
}

/// The views of rows of string slices.
pub open spec fn rows_view(v: Seq<Vec<&str>>) -> Seq<Seq<Seq<char>>> {
    v.map_values(|r: Vec<&str>| strs(r@))
}

/// The timed event rows: of the five lines that follow the header and eight
/// more, the non-blank ones, trimmed and split at tabs.
pub open spec fn time_events_of(iff: Seq<char>) -> Seq<Seq<Seq<char>>> {
    nonblank(trimmed(upto(after(lines_of(iff), 9), 5))).map_values(|l: Seq<char>| pieces(l, '\t'))
}

/// The events by position: the values of the last line of the section.
pub open spec fn pos_events_of(iff: Seq<char>) -> Seq<Seq<char>> {
    if lines_of(iff).len() > 0 {
        tokens_of(lines_of(iff).last())
    } else {
        tokens_of(""@)
    }
}

impl<'a> Iff<'a> {
    /// The IFF plan of the report; every part empty where the report has no
    /// Iff section.
    pub fn from_briefing(briefing: &'a str) -> (r: Self)
        ensures
            match group_of(briefing@, "Iff"@) {
                Some(iff) => {
                    &&& iff_initial_from(r.initial, iff)
                    &&& rows_view(r.time_events@) == time_events_of(iff)
                    &&& strs(r.pos_events@) == pos_events_of(iff)
                },
                None => {
                    &&& r.initial.modes_active@.len() == 0
                    &&& r.initial.codes@.len() == 0
                    &&& r.initial.m4_validity_time_until@.len() == 0
                    &&& r.initial.iff_policy@.len() == 0
                    &&& r.initial.code_change_setting@.len() == 0
                    &&& r.time_events@.len() == 0
                    &&& r.pos_events@.len() == 0
                },
            },
    {
        proof {
            reveal_strlit("");
        }
        let iff = match extract_group(briefing, "Iff") {
            Some(s) => s,
            None => {
                return Iff {
                    initial: IffInitial {
                        modes_active: "",
                        codes: Vec::new(),
                        m4_validity_time_until: Vec::new(),
                        iff_policy: Vec::new(),
                        code_change_setting: "",
                    },
                    time_events: Vec::new(),
                    pos_events: Vec::new(),
                };
            },
        };
        let initial = IffInitial::from_iff(iff);
        let all = lines(iff);
        let rest = skip(&all, 9);
        let block = take(&rest, 5);
        let block = trim_all(&block);
        let block = drop_blank(&block);
        let ghost target = time_events_of(iff@);
        assert(strs(block@) == nonblank(trimmed(upto(after(lines_of(iff@), 9), 5))));
        let mut time_events: Vec<Vec<&'a str>> = Vec::new();
        let mut i: usize = 0;
        while i < block.len()
            invariant
                i <= block@.len() == target.len(),
                target == strs(block@).map_values(|l: Seq<char>| pieces(l, '\t')),
                rows_view(time_events@) =~= target.take(i as int),
            decreases block@.len() - i,
        {
            let row = split(block[i], '\t');
            let ghost before = time_events@;
            time_events.push(row);
            assert(rows_view(time_events@) =~= rows_view(before).push(strs(row@)));
            i += 1;
        }
        assert(target.take(i as int) =~= target);
        let last = if all.len() > 0 {
            all[all.len() - 1]
        } else {
            ""
        };
        let pos_events = tokens(last);
        Iff { initial, time_events, pos_events }
    }
}

} // verus!
