use pyren::installer::ec::{
    must_load, EcProbe, Loading, OMEN_THERMAL_OFFSET, VICTUS_S_THERMAL_OFFSET,
};

#[test]
fn the_offsets_match_the_drivers_own_enum() {
    // `enum hp_ec_offsets` in hp-wmi.c. If upstream moves them, the
    // probe would be reading two unrelated bytes and confidently
    // deciding from them.
    assert_eq!(VICTUS_S_THERMAL_OFFSET, 0x59);
    assert_eq!(OMEN_THERMAL_OFFSET, 0x95);
}

#[test]
fn a_profile_value_at_the_omen_offset_names_that_offset() {
    let probe = EcProbe::Read { victus_s: 0x00, omen: 0x31 };
    assert_eq!(probe.omen_offset_in_use(), Some(OMEN_THERMAL_OFFSET));
}

#[test]
fn a_profile_value_at_the_victus_s_offset_names_that_one() {
    let probe = EcProbe::Read { victus_s: 0x30, omen: 0x07 };
    assert_eq!(probe.omen_offset_in_use(), Some(VICTUS_S_THERMAL_OFFSET));
}

/// The answer that matters most: neither byte holds a thermal profile,
/// so no offset should be claimed. Guessing one here is how a driver
/// ends up reading an unrelated EC register and reporting it as the
/// machine's performance mode.
#[test]
fn neither_offset_holding_a_profile_is_an_answer_not_a_tie() {
    let probe = EcProbe::Read { victus_s: 0x07, omen: 0xa2 };
    assert_eq!(probe.omen_offset_in_use(), None);
}

#[test]
fn an_unread_ec_claims_nothing() {
    for probe in [
        EcProbe::ModuleNotLoaded,
        EcProbe::NotPermitted,
        EcProbe::NotProbed,
        EcProbe::Unavailable { reason: "no such module".into() },
    ] {
        assert_eq!(probe.omen_offset_in_use(), None);
    }
}

/// 0x00 and 0x01 are the Victus S profile values, and they are also two
/// of the commonest bytes in EC space - so they are deliberately not in
/// the plausible set. Matching on them would name an offset from noise.
#[test]
fn the_victus_profile_values_are_not_treated_as_evidence() {
    let probe = EcProbe::Read { victus_s: 0x01, omen: 0x00 };
    assert_eq!(probe.omen_offset_in_use(), None);
}

#[test]
fn the_probe_says_why_it_could_not_read() {
    assert!(must_load(false, true));
    assert!(!must_load(true, true) && !must_load(false, false));

    let read = EcProbe::detect(true, false, &Loading::Loaded, true, Some(0x30), Some(0x31));
    assert_eq!(read, EcProbe::Read { victus_s: 0x30, omen: 0x31 });
    assert_eq!(read.omen_offset_in_use(), Some(OMEN_THERMAL_OFFSET));

    let unreadable = EcProbe::detect(true, false, &Loading::Loaded, true, Some(0x30), None);
    assert_eq!(unreadable, EcProbe::NotPermitted);

    let absent = EcProbe::detect(false, false, &Loading::Loaded, false, None, None);
    assert_eq!(absent, EcProbe::ModuleNotLoaded);

    let refused = Loading::Refused(" no such module\n".to_string());
    assert_eq!(
        EcProbe::detect(false, true, &refused, false, None, None),
        EcProbe::Unavailable { reason: "no such module".to_string() }
    );
    let not_run = Loading::NotRun("modprobe: not found".to_string());
    assert_eq!(
        EcProbe::detect(false, true, &not_run, false, None, None),
        EcProbe::Unavailable { reason: "modprobe: not found".to_string() }
    );
    match EcProbe::detect(false, true, &Loading::Loaded, false, None, None) {
        EcProbe::Unavailable { reason } => assert!(reason.contains("still absent")),
        other => panic!("{other:?}"),
    }
}
