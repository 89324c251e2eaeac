use bms_briefing_parser::tabular::callsign_head;
use bms_briefing_parser::{
    decode_report, extract_group, normalize, owner_callsign, to_option, Comm, DecodeError, Emergency, Iff, IffInitial,
    Ordnance, Overview, PackageElement, PilotRoster, RulesOfEngagement, Sitrep, Steerpoint,
    Support, ThreatAnalysis, Weather,
};

const REPORT: &str = "Mission Briefing\n\
Mission Overview:\n\
\tOverview of the flight\n\
\tVIPER1 (Strike)\n\
\tFlight of four\n\
\tPackage: 4711 (Deep strike)\n\
\tPackage Mission: Strike\n\
\tTarget Area: Airbase\n\
\tTime on Target: 12:30:00\n\
\tWeapons hot\n\
\tSunrise: 06:00:00\n\
\tSunset: 18:00:00\n\
Situation:\n\
\tSituation report\n\
\t  The enemy is near.  \n\
\n\
\tStay alert.\n\
Pilot Roster:\n\
\tFlight\tLead\tWing\tElement\tFour\n\
\t----\n\
\t\n\
\tVIPER1\tAlpha\tBravo\tCharlie\tDelta\n\
\tCOBRA2\tEcho\n\
Package Elements:\n\
\tElements\n\
\tCallsign\tFlight\tRole\tAircraft\tTask\n\
\t----\n\
\tVIPER1*\tFlight A\tStrike\tF-16C\tBomb\n\
\t\t4 ship\tSEAD\tBlock 50\tTarget 1\n\
\tCOBRA2\tFlight B\tEscort\tF-15C\tCAP\n\
\t\t2 ship\tOCA\tEagle\tTarget 2\n\
Threat Analysis:\n\
\tThreats\n\
\tSAM sites to the north.\n\
\n\
\tAAA near the target.\n\
Steerpoints:\n\
\tSteerpoints\n\
\tNr\tDescription\tTime\n\
\t----\n\
\t3\tIP\t00:05:00\t12.5\t270\t420\tFL200\tAttack\t--\tnote\n\
\t4\tTarget\n\
\t5\tEgress\t00:09:00\t--\tNone\t380\tFL150\tRTB\tWedge\tNone\n\
Comm Ladder:\n\
\tAgency\tCallsign\tUHF\tVHF\tNotes\n\
\t----\n\
\tAgency1:\tCALL1\t--\t123.4\tNone\n\
\tTower:\tTWR\t251.0\tNone\tGround\n\
\tShort\trow\n\
Iff:\n\
\tIFF plan\n\
\tInitial\n\
\tModes\tActive: M1 M3\tx\tCodes\t1234\t5678\n\
\tM4 valid until\t12:00\t13:00\n\
\tPolicy\tAuto\tManual\tAuto\n\
\tCode change\tNone\n\
\tEvents\n\
\tTime\tMode\tCode\n\
\t10:00\tM3\t1200\n\
\t\n\
\t11:00\tM1\t0400\n\
\t12:00\tM2\t0500\n\
\t13:00\tM3\t0600\n\
\tPos\tA\tB\n\
Ordnance:\n\
\tOrdnance\n\
\t----\n\
\t  -Flight-\t CALL1 \t CALL2 \n\
\tAIM-120\tMK-84\n\
\tAIM-9\n\
\n\
\n\
\t-Flight-\tCALL3\n\
\tGBU-12\n\
Weather:\n\
\tWeather\n\
\tWind\t 270 \t15 kts\n\
\n\
\tClouds\tSCT\n\
Support:\n\
\tSupport\n\
\tAgency\n\
\t----\n\
\tTanker: \tTEXACO:\t 1 \n\
Rules of Engagement:\n\
\tROE\n\
\tWeapons tight.\n\
\n\
\t  Visual ID required.\n\
Emergency Procedures:\n\
\tEmergencies\n\
\tDivert to home plate.\n\
\n\
\tEject over water.\n\
End of Briefing\n";

#[test]
fn extract_group_spans_header_to_next_header() {
    let s = extract_group("Title\nAlpha:\n\tone\n\ttwo\nBeta:\n\tthree\nEnd\n", "Alpha");
    assert_eq!(s, Some("Alpha:\n\tone\n\ttwo"));
}

#[test]
fn extract_group_absent_name() {
    assert_eq!(extract_group(REPORT, "Nonexistent"), None);
}

#[test]
fn extract_group_last_section_is_not_closed() {
    assert_eq!(extract_group("Title\nAlpha:\n\tone\n", "Alpha"), None);
}

#[test]
fn extract_group_section_at_start() {
    assert_eq!(extract_group("Alpha:\n\tone\nBeta\n", "Alpha"), Some("Alpha:\n\tone"));
}

#[test]
fn extract_group_ignores_indented_and_blank_lines() {
    let s = extract_group("Alpha:\n\tBeta\n   \n\tx\nGamma\n", "Alpha");
    assert_eq!(s, Some("Alpha:\n\tBeta\n   \n\tx"));
}

#[test]
fn extract_group_matches_by_prefix() {
    let s = extract_group("Title\nAlpha Two:\n\tx\nOmega\n", "Alpha");
    assert_eq!(s, Some("Alpha Two:\n\tx"));
}

#[test]
fn to_option_sentinels() {
    assert_eq!(to_option("--"), None);
    assert_eq!(to_option("None"), None);
    assert_eq!(to_option("none"), Some("none"));
    assert_eq!(to_option("-"), Some("-"));
    assert_eq!(to_option("123.4"), Some("123.4"));
}

#[test]
fn owner_is_first_word_of_overview() {
    assert_eq!(owner_callsign(REPORT), Some("VIPER1"));
    assert_eq!(owner_callsign("Title\nOther\n"), None);
}

#[test]
fn overview_fields() {
    let o = Overview::from_briefing(REPORT).unwrap();
    assert_eq!(o.callsign, "VIPER1");
    assert_eq!(o.mission_type, "Strike");
    assert_eq!(o.package_id, 4711);
    assert_eq!(o.package_description, "Deep strike");
    assert_eq!(o.package_mission, "Strike");
    assert_eq!(o.target_area, "Airbase");
    assert_eq!(o.time_on_target, "12:30:00");
    assert_eq!(o.sunrise, "06:00:00");
    assert_eq!(o.sunset, "18:00:00");
}

#[test]
fn overview_package_id_defaults_to_zero() {
    let r = "T\nMission Overview:\n\tx\n\tA1 (CAP)\n\tx\n\tPackage: none (d)\n\tM: m\n\tT: t\n\tTOT: 1\n\tx\n\tR: r\n\tS: s\nEnd\n";
    let o = Overview::from_briefing(r).unwrap();
    assert_eq!(o.package_id, 0);
    assert_eq!(o.package_description, "d");
    assert_eq!(o.mission_type, "CAP");
}

#[test]
fn overview_negative_package_id() {
    let r = "T\nMission Overview:\n\tx\n\tA1\n\tx\n\tPackage: -12\n\tM: m\n\tT: t\n\tTOT: 1\n\tx\n\tR: r\n\tS: s\nEnd\n";
    let o = Overview::from_briefing(r).unwrap();
    assert_eq!(o.package_id, -12);
    assert_eq!(o.mission_type, "");
    assert_eq!(o.package_description, "");
}

#[test]
fn overview_absent_is_empty() {
    let o = Overview::from_briefing("Title\nOther:\n\tx\nEnd\n").unwrap();
    assert_eq!(o.callsign, "");
    assert_eq!(o.package_id, 0);
    assert_eq!(o.sunset, "");
}

#[test]
fn overview_too_few_lines() {
    let r = Overview::from_briefing("T\nMission Overview:\n\tx\n\tA1 (CAP)\nEnd\n");
    assert!(matches!(r, Err(DecodeError::TooFewLines)));
}

#[test]
fn sitrep_joins_trimmed_nonblank_lines() {
    assert_eq!(Sitrep::from_briefing(REPORT).0, "The enemy is near.\nStay alert.");
}

#[test]
fn sitrep_absent_is_empty() {
    assert_eq!(Sitrep::from_briefing("Title\nEnd\n").0, "");
}

#[test]
fn roe_text() {
    assert_eq!(
        RulesOfEngagement::from_briefing(REPORT).0,
        "Weapons tight.\nVisual ID required."
    );
}

#[test]
fn emergency_text_drops_blank_lines() {
    assert_eq!(
        Emergency::from_briefing(REPORT).0,
        "Divert to home plate.\nEject over water."
    );
}

#[test]
fn threat_analysis_keeps_text_after_two_lines() {
    assert_eq!(
        ThreatAnalysis::from_briefing(REPORT).0,
        "\tSAM sites to the north.\n\n\tAAA near the target."
    );
    assert_eq!(ThreatAnalysis::from_briefing("Title\nEnd\n").0, "");
}

#[test]
fn pilot_roster_rows() {
    let r = PilotRoster::from_briefing(REPORT);
    assert_eq!(r.len(), 2);
    assert!(r[0].primary);
    assert_eq!(r[0].callsign, "VIPER1");
    assert_eq!(r[0].lead, "Alpha");
    assert_eq!(r[0].wing, "Bravo");
    assert_eq!(r[0].element, "Charlie");
    assert_eq!(r[0].four, "Delta");
    assert!(!r[1].primary);
    assert_eq!(r[1].callsign, "COBRA2");
    assert_eq!(r[1].lead, "Echo");
    assert_eq!(r[1].wing, "N/A");
    assert_eq!(r[1].element, "N/A");
    assert_eq!(r[1].four, "N/A");
}

#[test]
fn pilot_roster_with_explicit_owner() {
    let r = PilotRoster::from_briefing_with_owner(REPORT, "COBRA2");
    assert!(!r[0].primary);
    assert!(r[1].primary);
}

#[test]
fn pilot_roster_without_overview_is_empty() {
    let r = PilotRoster::from_briefing("T\nPilot Roster:\n\ta\n\tb\n\tc\n\tX1\nEnd\n");
    assert!(r.is_empty());
}

#[test]
fn package_elements_merge_two_lines() {
    let e = PackageElement::from_briefing(REPORT).unwrap();
    assert_eq!(e.len(), 2);
    assert!(e[0].is_primary);
    assert_eq!(e[0].callsign, "VIPER1*");
    assert_eq!(e[0].flight, "Flight A\n4 ship");
    assert_eq!(e[0].role, "Strike\nSEAD");
    assert_eq!(e[0].aircraft, "F-16C\nBlock 50");
    assert_eq!(e[0].task, "Bomb\nTarget 1");
    assert!(!e[1].is_primary);
    assert_eq!(e[1].callsign, "COBRA2");
    assert_eq!(e[1].task, "CAP\nTarget 2");
}

fn elements_report(lines: &[&str]) -> String {
    let mut r = String::from("T\nMission Overview:\n\tx\n\tVIPER1 (Strike)\nPackage Elements:\n\ta\n\tb\n\tc\n");
    for l in lines {
        r.push_str(l);
        r.push('\n');
    }
    r.push_str("End\n");
    r
}

#[test]
fn package_elements_odd_line_is_dropped() {
    let r = elements_report(&[
        "\tA1\tF\tR\tAC\tT",
        "\t\tf\tr\tac\tt",
        "\tB2\tF\tR\tAC\tT",
    ]);
    let e = PackageElement::from_briefing(&r).unwrap();
    assert_eq!(e.len(), 1);
    assert_eq!(e[0].callsign, "A1");
    assert_eq!(e[0].flight, "F\nf");
}

#[test]
fn package_elements_even_lines_pair_up() {
    let r = elements_report(&[
        "\tA1\tF\tR\tAC\tT",
        "\t\tf\tr\tac\tt",
        "",
        "\tB2\tG\tS\tBC\tU",
        "\t\tg\ts\tbc\tu",
    ]);
    let e = PackageElement::from_briefing(&r).unwrap();
    assert_eq!(e.len(), 2);
    assert_eq!(e[1].role, "S\ns");
}

#[test]
fn package_elements_empty_section() {
    let r = elements_report(&[]);
    assert_eq!(PackageElement::from_briefing(&r).unwrap().len(), 0);
    let single = elements_report(&["\tA1\tF\tR\tAC\tT"]);
    assert_eq!(PackageElement::from_briefing(&single).unwrap().len(), 0);
}

#[test]
fn package_elements_short_row_is_an_error() {
    let r = elements_report(&["\tA1\tF\tR", "\t\tf\tr\tac\tt"]);
    assert!(matches!(
        PackageElement::from_briefing(&r),
        Err(DecodeError::TooFewColumns)
    ));
}

#[test]
fn package_elements_primary_by_substring() {
    let e = PackageElement::from_briefing_with_owner(REPORT, "OBRA").unwrap();
    assert!(!e[0].is_primary);
    assert!(e[1].is_primary);
}

#[test]
fn steerpoint_row_example() {
    let s = Steerpoint::from_briefing(REPORT).unwrap();
    assert_eq!(s.len(), 2);
    let p = &s[0];
    assert_eq!(p.steerpoint, 3);
    assert_eq!(p.description, Some("IP"));
    assert_eq!(p.time, Some("00:05:00"));
    assert_eq!(p.distance.parse::<f64>().ok(), Some(12.5));
    assert_eq!(p.heading, Some(270));
    assert_eq!(p.cas, Some(420));
    assert_eq!(p.altitude, Some("FL200"));
    assert_eq!(p.action, Some("Attack"));
    assert_eq!(p.form, None);
    assert_eq!(p.comments, Some("note"));
}

#[test]
fn steerpoint_sentinels_and_unparsed_numbers() {
    let s = Steerpoint::from_briefing(REPORT).unwrap();
    let p = &s[1];
    assert_eq!(p.steerpoint, 5);
    assert_eq!(p.distance, "--");
    assert_eq!(p.distance.parse::<f64>().ok(), None);
    assert_eq!(p.heading, None);
    assert_eq!(p.cas, Some(380));
    assert_eq!(p.form, Some("Wedge"));
    assert_eq!(p.comments, None);
}

#[test]
fn steerpoint_bad_index_is_an_error() {
    let r = "T\nSteerpoints:\n\ta\n\tb\n\tc\n\tX\tIP\nEnd\n";
    assert!(matches!(
        Steerpoint::from_briefing(r),
        Err(DecodeError::InvalidIndex)
    ));
}

#[test]
fn steerpoint_absent_is_empty() {
    assert!(Steerpoint::from_briefing("T\nEnd\n").unwrap().is_empty());
}

#[test]
fn comm_ladder_example() {
    let r = "Briefing\nComm Ladder:\n\tAgency\tCallsign\n\t----\n\tAgency1:\tCALL1\t--\t123.4\tNone\nEnd\n";
    let c = Comm::from_briefing(r);
    assert_eq!(c.len(), 1);
    assert_eq!(c[0].agency, "Agency1");
    assert_eq!(c[0].callsign, Some("CALL1"));
    assert_eq!(c[0].uhf, None);
    assert_eq!(c[0].vhf, Some("123.4"));
    assert_eq!(c[0].notes, None);
}

#[test]
fn comm_ladder_skips_short_rows() {
    let c = Comm::from_briefing(REPORT);
    assert_eq!(c.len(), 2);
    assert_eq!(c[1].agency, "Tower");
    assert_eq!(c[1].callsign, Some("TWR"));
    assert_eq!(c[1].uhf, Some("251.0"));
    assert_eq!(c[1].vhf, None);
    assert_eq!(c[1].notes, Some("Ground"));
}

#[test]
fn iff_initial_block() {
    let iff = Iff::from_briefing(REPORT);
    assert_eq!(iff.initial.modes_active, "M1 M3");
    assert_eq!(iff.initial.codes, vec!["Codes", "1234", "5678"]);
    assert_eq!(iff.initial.m4_validity_time_until, vec!["12:00", "13:00"]);
    assert_eq!(iff.initial.iff_policy, vec!["Auto", "Manual", "Auto"]);
    assert_eq!(iff.initial.code_change_setting, "None");
}

#[test]
fn iff_events() {
    let iff = Iff::from_briefing(REPORT);
    assert_eq!(
        iff.time_events,
        vec![
            vec!["10:00", "M3", "1200"],
            vec!["11:00", "M1", "0400"],
            vec!["12:00", "M2", "0500"],
            vec!["13:00", "M3", "0600"],
        ]
    );
    assert_eq!(iff.pos_events, vec!["Pos", "A", "B"]);
}

#[test]
fn iff_absent_is_empty() {
    let iff = Iff::from_briefing("T\nEnd\n");
    assert_eq!(iff.initial.modes_active, "");
    assert!(iff.initial.codes.is_empty());
    assert!(iff.time_events.is_empty());
    assert!(iff.pos_events.is_empty());
}

#[test]
fn iff_initial_from_short_text() {
    let i = IffInitial::from_iff("Iff");
    assert_eq!(i.modes_active, "");
    assert!(i.codes.is_empty());
    assert!(i.m4_validity_time_until.is_empty());
    assert_eq!(i.code_change_setting, "");
}

#[test]
fn ordnance_block_example() {
    let o = Ordnance::from_section("Ordnance\n\tx\n\ty\n  -Flight-\t CALL1 \t CALL2 \n\tAIM-120\tMK-84\n\n")
        .unwrap();
    assert_eq!(
        o.flights,
        vec![vec![vec!["CALL1", "AIM-120"], vec!["CALL2", "MK-84"]]]
    );
}

#[test]
fn ordnance_flights_of_report() {
    let o = Ordnance::from_briefing(REPORT).unwrap();
    assert_eq!(
        o.flights,
        vec![
            vec![vec!["CALL1", "AIM-120", "AIM-9"], vec!["CALL2", "MK-84"]],
            vec![vec!["CALL3", "GBU-12"]],
        ]
    );
}

#[test]
fn ordnance_blank_lines_close_one_flight() {
    let o = Ordnance::from_section("O\n\tx\n\ty\n\t-F-\tA\n\n\n\n\t-F-\tB\n").unwrap();
    assert_eq!(o.flights, vec![vec![vec!["A"]], vec![vec!["B"]]]);
    let none = Ordnance::from_section("O\n\tx\n\ty\n\n\n").unwrap();
    assert!(none.flights.is_empty());
}

#[test]
fn ordnance_wide_row_is_an_error() {
    let r = Ordnance::from_section("O\n\tx\n\ty\n\t-F-\tA\n\tM1\tM2\n");
    assert!(matches!(r, Err(DecodeError::TooManyColumns)));
}

#[test]
fn ordnance_absent_is_empty() {
    assert!(Ordnance::from_briefing("T\nEnd\n").unwrap().flights.is_empty());
}

#[test]
fn weather_table() {
    let w = Weather::from_briefing(REPORT);
    assert_eq!(w.0, vec![vec!["Wind", "270", "15 kts"], vec!["Clouds", "SCT"]]);
}

#[test]
fn support_table_strips_colons() {
    let s = Support::from_briefing(REPORT);
    assert_eq!(s.0, vec![vec!["Tanker", "TEXACO", "1"]]);
}

#[test]
fn absent_sections_decode_empty() {
    let r = "Title\nOther:\n\tx\nEnd\n";
    assert_eq!(extract_group(r, "Situation"), None);
    assert_eq!(Sitrep::from_briefing(r).0, "");
    assert_eq!(RulesOfEngagement::from_briefing(r).0, "");
    assert_eq!(Emergency::from_briefing(r).0, "");
    assert_eq!(ThreatAnalysis::from_briefing(r).0, "");
    assert!(Weather::from_briefing(r).0.is_empty());
    assert!(Support::from_briefing(r).0.is_empty());
    assert!(Comm::from_briefing(r).is_empty());
    assert!(PilotRoster::from_briefing(r).is_empty());
    assert!(PackageElement::from_briefing(r).unwrap().is_empty());
}

#[test]
fn normalize_drops_crlf_and_non_ascii() {
    assert_eq!(normalize("a\r\nb\u{e9}c\rd\r\r\n"), "a\nbc\rd\r\n");
    assert_eq!(normalize(""), "");
}

#[test]
fn decode_report_from_windows_1252() {
    let bytes = [b'A', 0x93, b'B', b'\r', b'\n', 0xE9, b'C'];
    assert_eq!(decode_report(&bytes), "AB\nC");
}

#[test]
fn decode_report_keeps_ascii() {
    assert_eq!(decode_report(b"Title\n\tx\tY\n"), "Title\n\tx\tY\n");
}

#[test]
fn comm_callsign_is_shortened() {
    let r = "B\nComm Ladder:\n\tx\n\ty\n\tAWACS:\tDark-Star/1 (A)\t251\t--\tNone\n\tTower:\tTWR (GND)\t1\t2\t3\nEnd\n";
    let mut c = Comm::from_briefing(r);
    assert_eq!(c[0].callsign, Some("Dark-Star/1 (A)"));
    for e in c.iter_mut() {
        e.shorten_callsign();
    }
    assert_eq!(c[0].callsign, Some("Dark-Star"));
    assert_eq!(c[1].callsign, Some("TWR "));
    assert_eq!(c[0].agency, "AWACS");
    assert_eq!(c[0].uhf, Some("251"));
}

#[test]
fn callsign_head_keeps_unicode_letters() {
    assert_eq!(callsign_head("Ärger 1.5"), "Ärger 1");
    assert_eq!(callsign_head("*x"), "");
}

#[test]
fn threat_analysis_with_two_lines_is_empty() {
    assert_eq!(ThreatAnalysis::from_briefing("T\nThreat Analysis:\n\tx\nEnd\n").0, "");
    assert_eq!(ThreatAnalysis::from_briefing("T\nThreat Analysis:\nEnd\n").0, "");
}

#[test]
fn iff_codes_drop_blank_cells() {
    let i = IffInitial::from_iff("Iff\n\ta\n\tb\n\tModes\tActive: M1\tx\tCodes\t\t1234\t \t5678\n");
    assert_eq!(i.codes, vec!["Codes", "1234", "5678"]);
}
