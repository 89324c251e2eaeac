//! Decoders for the sections of a flight-mission briefing report.
//!
//! The report is a tab-indented text document. A header line (not indented,
//! not blank, ended by a line break) opens a section that runs to the next
//! header line. Each decoder locates its section and turns it into records;
//! a section that is absent decodes to an empty value.

use vstd::prelude::*;

pub mod text;
pub mod input;
pub mod section;
pub mod scalar;
pub mod tabular;
pub mod elements;
pub mod ordnance;
pub mod iff;

pub use elements::PackageElement;
pub use iff::{Iff, IffInitial};
pub use input::{decode_report, normalize};
pub use ordnance::Ordnance;
pub use scalar::{Emergency, Overview, RulesOfEngagement, Sitrep, Support, ThreatAnalysis, Weather};
pub use section::{extract_group, owner_callsign, to_option, DecodeError};
pub use tabular::{Comm, PilotRoster, Steerpoint};

use crate::elements::element_count;
use crate::ordnance::ordnance_of;
use crate::scalar::{free_text_of, table_of, threat_text_of};
use crate::section::{group_of, lemma_missing_section, no_header_named, owner_of, rows_with_at_least};
use crate::tabular::{comm_rows, roster_rows, steerpoint_rows};
use crate::text::Strip;

verus! {

/// Where no header line of the report begins with a section's name, the
/// section is absent and its decoder yields its empty value.
pub proof fn lemma_absent_sections_decode_empty(b: Seq<char>)
    ensures
        no_header_named(b, "Mission Overview"@) ==> group_of(b, "Mission Overview"@) is None
            && owner_of(b) is None,
        no_header_named(b, "Situation"@) ==> free_text_of(b, "Situation"@).len() == 0,
        no_header_named(b, "Rules of Engagement"@) ==> free_text_of(
            b,
            "Rules of Engagement"@,
        ).len() == 0,
        no_header_named(b, "Emergency Procedures"@) ==> free_text_of(
            b,
            "Emergency Procedures"@,
        ).len() == 0,
        no_header_named(b, "Threat Analysis"@) ==> threat_text_of(b).len() == 0,
        no_header_named(b, "Weather"@) ==> table_of(b, "Weather"@, 2, Strip::Space).len() == 0,
        no_header_named(b, "Support"@) ==> table_of(b, "Support"@, 4, Strip::SpaceOrColon).len()
            == 0,
        no_header_named(b, "Steerpoints"@) ==> rows_with_at_least(steerpoint_rows(b), 10).len()
            == 0,
        no_header_named(b, "Comm Ladder"@) ==> rows_with_at_least(comm_rows(b), 5).len() == 0,
        no_header_named(b, "Pilot Roster"@) ==> roster_rows(b).len() == 0,
        no_header_named(b, "Package Elements"@) ==> element_count(b) == 0,
        no_header_named(b, "Iff"@) ==> group_of(b, "Iff"@) is None,
        no_header_named(b, "Ordnance"@) ==> ordnance_of(b) == Some(
            Seq::<Seq<Seq<Seq<char>>>>::empty(),
        ),
{
    if no_header_named(b, "Mission Overview"@) {
        lemma_missing_section(b, "Mission Overview"@);
    }
    if no_header_named(b, "Situation"@) {
        lemma_missing_section(b, "Situation"@);
    }
    if no_header_named(b, "Rules of Engagement"@) {
        lemma_missing_section(b, "Rules of Engagement"@);
    }
    if no_header_named(b, "Emergency Procedures"@) {
        lemma_missing_section(b, "Emergency Procedures"@);
    }
    if no_header_named(b, "Threat Analysis"@) {
        lemma_missing_section(b, "Threat Analysis"@);
    }
    if no_header_named(b, "Weather"@) {
        lemma_missing_section(b, "Weather"@);
    }
    if no_header_named(b, "Support"@) {
        lemma_missing_section(b, "Support"@);
    }
    if no_header_named(b, "Steerpoints"@) {
        lemma_missing_section(b, "Steerpoints"@);
    }
    if no_header_named(b, "Comm Ladder"@) {
        lemma_missing_section(b, "Comm Ladder"@);
    }
    if no_header_named(b, "Pilot Roster"@) {
        lemma_missing_section(b, "Pilot Roster"@);
    }
    if no_header_named(b, "Package Elements"@) {
        lemma_missing_section(b, "Package Elements"@);
    }
    if no_header_named(b, "Iff"@) {
        lemma_missing_section(b, "Iff"@);
    }
    if no_header_named(b, "Ordnance"@) {
        lemma_missing_section(b, "Ordnance"@);
    }
}

} // verus!
