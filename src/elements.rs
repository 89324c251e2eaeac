//! The Package Elements section, where two lines make one record.

use vstd::prelude::*;
use vstd::string::*;
use crate::section::{extract_group, group_of, owner_callsign, owner_of, DecodeError};
use crate::text::{
    after, contains, drop_blank, lines, lines_of, nonblank, occurs_in, pieces, skip, split, strs,
    trim_all, trimmed,
};

verus! {

/// One flight of the package.
pub struct PackageElement {
    /// The flight's callsign column holds the owner's callsign.
    pub is_primary: bool,
    pub callsign: String,
    pub flight: String,
    pub role: String,
    pub aircraft: String,
    pub task: String,
}

/// The content lines of the Package Elements section: the lines after its
/// header and three more, trimmed, blank ones left out.
pub open spec fn element_lines(b: Seq<char>) -> Seq<Seq<char>> {
    match group_of(b, "Package Elements"@) {
        Some(sec) => nonblank(trimmed(after(lines_of(sec), 4))),
        None => Seq::empty(),
    }
}

/// The number of records that the content lines pair into: a trailing line
/// without a partner makes none.
pub open spec fn element_count(b: Seq<char>) -> nat {
    element_lines(b).len() / 2
}

/// The two lines of a pair have the columns that a record reads: five in the
/// first, four in the second.
pub open spec fn pair_complete(first: Seq<char>, second: Seq<char>) -> bool {
    pieces(first, '\t').len() >= 5 && pieces(second, '\t').len() >= 4
}

/// Every pair of content lines is complete.
pub open spec fn all_pairs_complete(b: Seq<char>) -> bool {
    forall|k: int|
        0 <= k < element_count(b) ==> #[trigger] pair_complete(
            element_lines(b)[2 * k],
            element_lines(b)[2 * k + 1],
        )
}

/// Two values stacked on two display lines.
pub open spec fn stacked(a: Seq<char>, b: Seq<char>) -> Seq<char> {
    a + seq!['\n'] + b
}

/// `e` is the record that the lines `first` and `second` describe, for the
/// owner `own`.
pub open spec fn element_from(e: PackageElement, first: Seq<char>, second: Seq<char>, own: Seq<char>) -> bool {
    let a = pieces(first, '\t');
    let b = pieces(second, '\t');
    &&& e.is_primary == occurs_in(own, a[0])
    &&& e.callsign@ == a[0]
    &&& e.flight@ == stacked(a[1], b[0])
    &&& e.role@ == stacked(a[2], b[1])
    &&& e.aircraft@ == stacked(a[3], b[2])
    &&& e.task@ == stacked(a[4], b[3])
}

/// Two values stacked on two display lines.
fn stack(a: &str, b: &str) -> (r: String)
    ensures
        r@ == stacked(a@, b@),
{
    proof {
        reveal_strlit("\n");
    }
    let mut s = String::from_str(a);
    s.append("\n");
    s.append(b);
    s
}

impl PackageElement {
    /// The record that two lines describe, where they have the columns it
    /// reads.
    fn from_pair(first: &str, second: &str, own: &str) -> (r: Result<Self, DecodeError>)
        ensures
            match r {
                Ok(e) => pair_complete(first@, second@) && element_from(e, first@, second@, own@),
                Err(e) => !pair_complete(first@, second@) && e == DecodeError::TooFewColumns,
            },
    {
        let a = split(first, '\t');
        let b = split(second, '\t');
        if a.len() < 5 || b.len() < 4 {
            return Err(DecodeError::TooFewColumns);
        }
        Ok(PackageElement {
            is_primary: contains(a[0], own),
            callsign: String::from_str(a[0]),
            flight: stack(a[1], b[0]),
            role: stack(a[2], b[1]),
            aircraft: stack(a[3], b[2]),
            task: stack(a[4], b[3]),
        })
    }

    /// The package elements, where the owner's callsign is `own`: content
    /// lines `2k` and `2k + 1` make record `k`, and a trailing line without a
    /// partner is left out. A pair that lacks a column is an error.
    pub fn from_briefing_with_owner(briefing: &str, own: &str) -> (r: Result<Vec<Self>, DecodeError>)
        ensures
            match r {
                Ok(v) => {
                    &&& all_pairs_complete(briefing@)
                    &&& v@.len() == element_count(briefing@)
                    &&& forall|k: int|
                        0 <= k < v@.len() ==> element_from(
                            #[trigger] v@[k],
                            element_lines(briefing@)[2 * k],
                            element_lines(briefing@)[2 * k + 1],
                            own@,
                        )
                },
                Err(e) => !all_pairs_complete(briefing@) && e == DecodeError::TooFewColumns,
            },
    {
        let ghost ls = element_lines(briefing@);
        let mut out: Vec<Self> = Vec::new();
        let sec = match extract_group(briefing, "Package Elements") {
            Some(s) => s,
            None => return Ok(out),
        };
        let all = lines(sec);
        let v = skip(&all, 4);
        let v = trim_all(&v);
        let v = drop_blank(&v);
        assert(strs(v@) == ls);
        let len = v.len();
        let n = len / 2;
        let mut k: usize = 0;
        while k < n
            invariant
                n == ls.len() / 2,
                len == v@.len(),
                n == len / 2,
                v@.len() == ls.len(),
                strs(v@) == ls,
                ls == element_lines(briefing@),
                k <= n,
                out@.len() == k,
                forall|j: int| 0 <= j < k ==> #[trigger] pair_complete(ls[2 * j], ls[2 * j + 1]),
                forall|j: int|
                    0 <= j < k ==> element_from(#[trigger] out@[j], ls[2 * j], ls[2 * j + 1], own@),
            decreases n - k,
        {
            assert(2 * k + 1 < len);
            assert(strs(v@)[2 * k as int] == v@[2 * k as int]@);
            assert(strs(v@)[2 * k + 1] == v@[2 * k + 1]@);
            match Self::from_pair(v[2 * k], v[2 * k + 1], own) {
                Ok(e) => out.push(e),
                Err(e) => {
                    assert(!pair_complete(ls[2 * k as int], ls[2 * k + 1]));
                    return Err(e);
                },
            }
            k += 1;
        }
        Ok(out)
    }

    /// The package elements, with `is_primary` set where the callsign column
    /// holds the owner's callsign. Empty where the report has no Mission
    /// Overview.
    pub fn from_briefing(briefing: &str) -> (r: Result<Vec<Self>, DecodeError>)
        ensures
            match owner_of(briefing@) {
                Some(own) => match r {
                    Ok(v) => {
                        &&& all_pairs_complete(briefing@)
                        &&& v@.len() == element_count(briefing@)
                        &&& forall|k: int|
                            0 <= k < v@.len() ==> element_from(
                                #[trigger] v@[k],
                                element_lines(briefing@)[2 * k],
                                element_lines(briefing@)[2 * k + 1],
                                own,
                            )
                    },
                    Err(e) => !all_pairs_complete(briefing@) && e == DecodeError::TooFewColumns,
                },
                None => r matches Ok(v) && v@.len() == 0,
            },
    {
        match owner_callsign(briefing) {
            Some(own) => Self::from_briefing_with_owner(briefing, own),
            None => Ok(Vec::new()),
        }
    }
}

/// Pairing: `2n` content lines, or `2n + 1` with a trailing one left over,
/// make exactly `n` records.
pub proof fn lemma_elements_pair_up(b: Seq<char>, n: nat)
    requires
        element_lines(b).len() == 2 * n || element_lines(b).len() == 2 * n + 1,
    ensures
        element_count(b) == n,
{
}

} // verus!
