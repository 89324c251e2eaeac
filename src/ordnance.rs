//! The Ordnance section: blocks of rows, each opened by a header row that
//! names the pilots, and closed by a blank line.

use vstd::prelude::*;
use vstd::string::*;
use crate::section::{extract_group, group_of, DecodeError};
use crate::text::{
    after, lines, lines_of, pieces, skip, split, strs, trim_all, trim_by, trim_each, trimmed,
    Strip,
};

verus! {

/// The flights of the Ordnance section: for each flight one column per
/// pilot, a column holding the pilot's callsign and then the ordnance listed
/// for that pilot, row by row.
pub struct Ordnance<'a> {
    pub flights: Vec<Vec<Vec<&'a str>>>,
}

/// The views of one flight's columns.
pub open spec fn flight_view(f: Vec<Vec<&str>>) -> Seq<Seq<Seq<char>>> {
    f@.map_values(|c: Vec<&str>| strs(c@))
}

/// The views of a sequence of flights.
pub open spec fn flights_view(v: Seq<Vec<Vec<&str>>>) -> Seq<Seq<Seq<Seq<char>>>> {
    v.map_values(|f: Vec<Vec<&str>>| flight_view(f))
}

/// The columns that a header row opens: its tab-separated values stripped of
/// whitespace and dashes, the first (a row label) left out, each the first
/// entry of its column.
pub open spec fn opened_columns(l: Seq<char>) -> Seq<Seq<Seq<char>>> {
    after(pieces(l, '\t').map_values(|p: Seq<char>| trim_by(p, Strip::SpaceOrDash)), 1).map_values(
        |c: Seq<char>| seq![c],
    )
}

/// The columns `cols` with the values `vals` appended, the `i`-th value to
/// the `i`-th column; a column without a value stays as it was.
pub open spec fn extended(cols: Seq<Seq<Seq<char>>>, vals: Seq<Seq<char>>) -> Seq<Seq<Seq<char>>> {
    Seq::new(cols.len(), |i: int| if i < vals.len() { cols[i].push(vals[i]) } else { cols[i] })
}

/// The state after reading the trimmed lines `ls`: the flights closed so far
/// and the flight still open, if any; absent where a row had more values
/// than its flight has columns.
pub open spec fn ordnance_state(ls: Seq<Seq<char>>) -> Option<
    (Seq<Seq<Seq<Seq<char>>>>, Option<Seq<Seq<Seq<char>>>>),
>
    decreases ls.len(),
{
    if ls.len() == 0 {
        Some((Seq::empty(), None))
    } else {
        match ordnance_state(ls.drop_last()) {
            None => None,
            Some(st) => {
                let l = ls.last();
                if l.len() == 0 {
                    match st.1 {
                        Some(f) => Some((st.0.push(f), None)),
                        None => Some((st.0, None)),
                    }
                } else {
                    match st.1 {
                        None => Some((st.0, Some(opened_columns(l)))),
                        Some(f) => {
                            let vals = trimmed(pieces(l, '\t'));
                            if vals.len() <= f.len() {
                                Some((st.0, Some(extended(f, vals))))
                            } else {
                                None
                            }
                        },
                    }
                }
            },
        }
    }
}

/// The flights that the trimmed lines `ls` describe: those closed by a blank
/// line, then the one still open at the end.
pub open spec fn flights_of(ls: Seq<Seq<char>>) -> Option<Seq<Seq<Seq<Seq<char>>>>> {
    match ordnance_state(ls) {
        Some(st) => Some(
            match st.1 {
                Some(f) => st.0.push(f),
                None => st.0,
            },
        ),
        None => None,
    }
}

/// The flights of the report: the lines of the Ordnance section after its
/// header and two more, trimmed. Empty where the section is absent.
pub open spec fn ordnance_of(b: Seq<char>) -> Option<Seq<Seq<Seq<Seq<char>>>>> {
    match group_of(b, "Ordnance"@) {
        Some(sec) => flights_of(trimmed(after(lines_of(sec), 3))),
        None => Some(Seq::empty()),
    }
}

/// The optional flight's view.
pub open spec fn open_view(o: Option<Vec<Vec<&str>>>) -> Option<Seq<Seq<Seq<char>>>> {
    match o {
        Some(f) => Some(flight_view(f)),
        None => None,
    }
}

/// One column for each value, holding that value.
fn columns_of<'a>(h: &Vec<&'a str>) -> (r: Vec<Vec<&'a str>>)
    ensures
        flight_view(r) == strs(h@).map_values(|c: Seq<char>| seq![c]),
{
    let mut out: Vec<Vec<&'a str>> = Vec::new();
    let mut i: usize = 0;
    while i < h.len()
        invariant
            i <= h@.len(),
            flight_view(out) =~= strs(h@).map_values(|c: Seq<char>| seq![c]).take(i as int),
        decreases h@.len() - i,
    {
        let col = vec![h[i]];
        assert(strs(col@) =~= seq![h@[i as int]@]);
        let ghost before = out;
        out.push(col);
        assert(flight_view(out) =~= flight_view(before).push(strs(col@)));
        i += 1;
    }
    assert(strs(h@).map_values(|c: Seq<char>| seq![c]).take(i as int) =~= strs(h@).map_values(
        |c: Seq<char>| seq![c],
    ));
    out
}

/// Appends the `i`-th of `vals` to the `i`-th column of `f`.
fn extend_columns<'a>(f: &mut Vec<Vec<&'a str>>, vals: &Vec<&'a str>)
    requires
        vals@.len() <= old(f)@.len(),
    ensures
        flight_view(*final(f)) == extended(flight_view(*old(f)), strs(vals@)),
{
    let ghost start = flight_view(*f);
    let mut i: usize = 0;
    while i < vals.len()
        invariant
            i <= vals@.len() <= f@.len(),
            start.len() == f@.len(),
            start == extended(start, Seq::<Seq<char>>::empty()),
            forall|j: int|
                0 <= j < f@.len() ==> #[trigger] flight_view(*f)[j] == (if j < i {
                    start[j].push(vals@[j]@)
                } else {
                    start[j]
                }),
        decreases vals@.len() - i,
    {
        let ghost prev = *f;
        f[i].push(vals[i]);
        assert(f@ == prev@.update(i as int, f@[i as int]));
        assert(flight_view(prev)[i as int] == start[i as int]);
        assert(strs(f@[i as int]@) =~= strs(prev@[i as int]@).push(vals@[i as int]@));
        assert(flight_view(*f) =~= flight_view(prev).update(
            i as int,
            start[i as int].push(vals@[i as int]@),
        ));
        i += 1;
    }
    assert(flight_view(*f) =~= extended(start, strs(vals@)));
}

impl<'a> Ordnance<'a> {
    /// The flights of the Ordnance section text `sec`: its lines after the
    /// header and two more, trimmed. A row with more values than its flight
    /// has columns is an error.
    pub fn from_section(sec: &'a str) -> (r: Result<Self, DecodeError>)
        ensures
            match r {
                Ok(o) => flights_of(trimmed(after(lines_of(sec@), 3))) == Some(
                    flights_view(o.flights@),
                ),
                Err(e) => flights_of(trimmed(after(lines_of(sec@), 3))) is None && e
                    == DecodeError::TooManyColumns,
            },
    {
        let mut flights: Vec<Vec<Vec<&'a str>>> = Vec::new();
        let all = lines(sec);
        let ls = skip(&all, 3);
        let ls = trim_all(&ls);
        let ghost tl = strs(ls@);
        let mut open: Option<Vec<Vec<&'a str>>> = None;
        let mut i: usize = 0;
        assert(tl.take(0) =~= Seq::<Seq<char>>::empty());
        assert(flights_view(flights@) =~= Seq::<Seq<Seq<Seq<char>>>>::empty());
        while i < ls.len()
            invariant
                i <= ls@.len() == tl.len(),
                tl == strs(ls@),
                tl == trimmed(after(lines_of(sec@), 3)),
                ordnance_state(tl.take(i as int)) == Some((flights_view(flights@), open_view(open))),
            decreases ls@.len() - i,
        {
            assert(tl.take(i + 1).drop_last() =~= tl.take(i as int));
            assert(tl.take(i + 1).last() == ls@[i as int]@);
            let line = ls[i];
            if line.unicode_len() == 0 {
                match open {
                    Some(f) => {
                        let ghost before = flights@;
                        flights.push(f);
                        assert(flights_view(flights@) =~= flights_view(before).push(flight_view(f)));
                    },
                    None => {},
                }
                open = None;
            } else {
                match open {
                    None => {
                        let p = split(line, '\t');
                        let h = trim_each(&p, Strip::SpaceOrDash);
                        let h = skip(&h, 1);
                        let cols = columns_of(&h);
                        open = Some(cols);
                    },
                    Some(f) => {
                        let p = split(line, '\t');
                        let vals = trim_all(&p);
                        if vals.len() > f.len() {
                            assert(strs(vals@) == trimmed(pieces(line@, '\t')));
                            proof {
                                lemma_error_persists(tl, i as int + 1);
                            }
                            return Err(DecodeError::TooManyColumns);
                        }
                        let mut f = f;
                        extend_columns(&mut f, &vals);
                        open = Some(f);
                    },
                }
            }
            i += 1;
        }
        assert(tl.take(i as int) =~= tl);
        match open {
            Some(f) => {
                let ghost before = flights@;
                flights.push(f);
                assert(flights_view(flights@) =~= flights_view(before).push(flight_view(f)));
            },
            None => {},
        }
        Ok(Ordnance { flights })
    }

    /// The flights of the report's Ordnance section; none where the report
    /// has no such section. A row with more values than its flight has
    /// columns is an error.
    pub fn from_briefing(briefing: &'a str) -> (r: Result<Self, DecodeError>)
        ensures
            match r {
                Ok(o) => ordnance_of(briefing@) == Some(flights_view(o.flights@)),
                Err(e) => ordnance_of(briefing@) is None && e == DecodeError::TooManyColumns,
            },
    {
        match extract_group(briefing, "Ordnance") {
            Some(sec) => Self::from_section(sec),
            None => {
                let flights: Vec<Vec<Vec<&'a str>>> = Vec::new();
                assert(flights_view(flights@) =~= Seq::<Seq<Seq<Seq<char>>>>::empty());
                Ok(Ordnance { flights })
            },
        }
    }
}

/// Once a row is too wide, the state stays absent for every longer prefix.
pub proof fn lemma_error_persists(ls: Seq<Seq<char>>, k: int)
    requires
        0 <= k <= ls.len(),
        ordnance_state(ls.take(k)) is None,
    ensures
        ordnance_state(ls) is None,
    decreases ls.len() - k,
{
    if k < ls.len() {
        assert(ls.take(k + 1).drop_last() =~= ls.take(k));
        lemma_error_persists(ls, k + 1);
    } else {
        assert(ls.take(k) =~= ls);
    }
}

/// A blank line that follows a non-blank one closes exactly one flight: the
/// flight that was open joins the closed ones, which are otherwise kept, and
/// none stays open.
pub proof fn lemma_blank_line_closes_one_flight(ls: Seq<Seq<char>>, blank: Seq<char>)
    requires
        ls.len() > 0,
        ls.last().len() > 0,
        blank.len() == 0,
        ordnance_state(ls) is Some,
    ensures
        ordnance_state(ls).unwrap().1 is Some,
        ordnance_state(ls.push(blank)) == Some(
            (
                ordnance_state(ls).unwrap().0.push(ordnance_state(ls).unwrap().1.unwrap()),
                None::<Seq<Seq<Seq<char>>>>,
            ),
        ),
{
    assert(ls.push(blank).drop_last() =~= ls);
}

/// A blank line that follows a blank one changes nothing: consecutive blank
/// lines never close an empty flight.
pub proof fn lemma_blank_after_blank(ls: Seq<Seq<char>>, blank: Seq<char>)
    requires
        ls.len() > 0,
        ls.last().len() == 0,
        blank.len() == 0,
    ensures
        ordnance_state(ls.push(blank)) == ordnance_state(ls),
{
    assert(ls.push(blank).drop_last() =~= ls);
}

} // verus!
