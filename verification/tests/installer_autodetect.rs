use pyren::installer::autodetect::{
    calibrated_max_rpm, decide, positive_rpm, Autodetected, Dmi, Family, ParamsEffect, RpmSource,
};
use pyren::installer::ec::EcProbe;
use pyren::installer::patch::{BoardParams, BoardTable, MaxRpm};

const SOURCE: &str = r#"
static const char * const omen_thermal_profile_boards[] = {
	"8D2F",
};

static const struct dmi_system_id hp_wmi_feature_boards[] __initconst = {
	{
		.matches = {DMI_MATCH(DMI_BOARD_NAME, "8C99")},
		.driver_data = (void *)&victus_s_board_params,
	},
	{},
};
"#;

fn dmi_for(board: &str, product: &str) -> Dmi {
    Dmi {
        board_name: Some(board.to_string()),
        product_name: Some(product.to_string()),
        sys_vendor: Some("HP".to_string()),
        product_family: None,
    }
}

fn suggest(board: &str, product: &str) -> Autodetected {
    suggest_with(board, product, EcProbe::NotProbed)
}

fn suggest_with(board: &str, product: &str, ec: EcProbe) -> Autodetected {
    decide(
        dmi_for(board, product),
        Some(SOURCE),
        MaxRpm::default(),
        RpmSource::DriverFallback,
        ec,
    )
}

#[test]
fn a_board_the_driver_already_lists_needs_no_patch() {
    let result = suggest("8C99", "OMEN Gaming Laptop 16-am0xxx");
    assert!(result.board_known);
    assert_eq!(result.experimental_board, None);
    assert!(result.notes.iter().any(|n| n.key == "installer.auto.boardKnown"));
}

/// The test laptop: listed as an omen thermal-profile board, but absent
/// from the feature table, which is the one that gives it a fan profile.
#[test]
fn a_board_missing_from_the_feature_table_is_offered_for_injection() {
    let result = suggest("8D2F", "OMEN Gaming Laptop 16-am0xxx");
    assert!(!result.board_known);
    assert_eq!(result.experimental_board.as_deref(), Some("8D2F"));
    assert_eq!(
        result.board_table,
        Some(BoardTable::Features(BoardParams::OmenV1NoEc))
    );
}

/// The test laptop's real situation. 8D2F is in
/// `omen_thermal_profile_boards` but not in the feature table, so it
/// needs the entry - and the variant that entry names changes nothing,
/// because the driver takes the OMEN profile path for it either way.
/// Saying "this is a guess, pick another if you know better" about a
/// choice with no effect is worse than saying nothing.
#[test]
fn a_board_on_the_omen_profile_path_is_told_the_variant_is_inert() {
    let result = suggest("8D2F", "OMEN Gaming Laptop 16-am0xxx");
    assert_eq!(result.params_effect, ParamsEffect::InertOmenPath);
    assert!(result.notes.iter().any(|n| n.key == "installer.auto.paramsInert"));
    assert!(
        !result.notes.iter().any(|n| n.key == "installer.auto.paramsUnmeasured"),
        "no caveat about a choice that does not matter"
    );
}

/// Where it *does* matter, the EC decides it. A profile value sitting at
/// 0x95 is the classic OMEN layout, which is what omen_v1_legacy reads.
#[test]
fn a_board_off_the_profile_path_has_its_variant_measured() {
    let ec = EcProbe::Read { victus_s: 0x00, omen: 0x31 };
    let result = suggest_with("8FFF", "OMEN Gaming Laptop 16-am0xxx", ec);
    assert_eq!(result.params_effect, ParamsEffect::DecidesReadback);
    assert_eq!(
        result.board_table,
        Some(BoardTable::Features(BoardParams::OmenV1Legacy))
    );
    assert!(result.notes.iter().any(|n| n.key == "installer.auto.paramsMeasuredOmen"));
}

#[test]
fn the_other_offset_names_the_other_variant() {
    let ec = EcProbe::Read { victus_s: 0x30, omen: 0x00 };
    let result = suggest_with("8FFF", "OMEN Gaming Laptop 16-am0xxx", ec);
    assert_eq!(result.board_table, Some(BoardTable::Features(BoardParams::OmenV1)));
}

/// An EC holding a profile at neither offset is a real answer, not a
/// failure: the variant that reads none of them is then correct.
#[test]
fn an_ec_with_no_profile_at_either_offset_settles_on_no_ec() {
    let ec = EcProbe::Read { victus_s: 0x07, omen: 0xa2 };
    let result = suggest_with("8FFF", "OMEN Gaming Laptop 16-am0xxx", ec);
    assert_eq!(result.board_table, Some(BoardTable::Features(BoardParams::OmenV1NoEc)));
    assert!(result.notes.iter().any(|n| n.key == "installer.auto.paramsNoOffset"));
}

/// And an unreadable one still gets the safe variant, but says it did
/// not measure - the two must not read the same.
#[test]
fn an_unreadable_ec_says_so_rather_than_claiming_a_measurement() {
    let result = suggest_with("8FFF", "OMEN Gaming Laptop 16-am0xxx", EcProbe::ModuleNotLoaded);
    assert_eq!(result.board_table, Some(BoardTable::Features(BoardParams::OmenV1NoEc)));
    assert!(result.notes.iter().any(|n| n.key == "installer.auto.paramsUnmeasured"));
}

#[test]
fn a_victus_gets_the_victus_parameters() {
    let result = suggest("8D2F", "Victus by HP Gaming Laptop 16-s1xxx");
    assert_eq!(
        result.board_table,
        Some(BoardTable::Features(BoardParams::VictusS))
    );
}

/// The families write different thermal-profile values, so a machine
/// that names neither is a question, not a default.
#[test]
fn a_machine_of_neither_family_is_left_to_the_user() {
    let result = suggest("8D2F", "ThinkPad X1 Carbon");
    assert_eq!(result.family, Family::Unknown);
    assert_eq!(result.experimental_board, None);
    assert!(result.notes.iter().any(|n| n.key == "installer.auto.unknownFamily"));
}

#[test]
fn without_the_driver_sources_no_board_claim_is_made() {
    let result = decide(
        dmi_for("8D2F", "OMEN Gaming Laptop 16-am0xxx"),
        None,
        MaxRpm::default(),
        RpmSource::DriverFallback,
        EcProbe::NotProbed,
    );
    assert!(!result.board_known);
    assert_eq!(result.experimental_board, None);
    assert!(result.notes.iter().any(|n| n.key == "installer.auto.noDriverSource"));
}

#[test]
fn firmware_placeholders_are_not_treated_as_a_model_name() {
    let dmi = Dmi {
        board_name: Some("8D2F".into()),
        product_name: Some("Default string".into()),
        ..Dmi::default()
    };
    // Read() applies the filter; here the point is that a machine with
    // nothing usable falls through to Unknown rather than matching.
    assert_eq!(dmi.family(), Family::Unknown);
}

#[test]
fn measured_ceilings_are_carried_through_as_the_installer_wants_them() {
    let result = decide(
        dmi_for("8D2F", "OMEN Gaming Laptop 16-am0xxx"),
        Some(SOURCE),
        MaxRpm { cpu: Some(6400), gpu: Some(5800) },
        RpmSource::Calibrated,
        EcProbe::NotProbed,
    );
    assert_eq!(result.max_rpm().cpu, Some(6400));
    assert_eq!(result.max_rpm().gpu, Some(5800));
    assert!(result.notes.iter().any(|n| n.key == "installer.auto.rpmCalibrated"));
}

#[test]
fn an_uncalibrated_machine_says_so_and_patches_no_ceiling() {
    let result = suggest("8D2F", "OMEN Gaming Laptop 16-am0xxx");
    assert!(result.max_rpm().is_empty());
    assert!(result
        .notes
        .iter()
        .any(|n| n.key == "installer.auto.rpmNotCalibrated"));
}

/// The suggestion has to survive the round trip into `execute`'s
/// arguments, which is the only reason it is computed.
#[test]
fn the_suggestion_converts_into_execute_arguments() {
    let result = suggest("8D2F", "OMEN Gaming Laptop 16-am0xxx");
    let (table, board) = result.board().expect("a board to inject");
    assert_eq!(board, "8D2F");
    assert_eq!(table.array_name(), "hp_wmi_feature_boards");
}

#[test]
fn reading_the_firmware_drops_what_names_nothing() {
    let dmi = Dmi::read(
        &Some(" 8D2F\n".to_string()),
        &Some("Default string".to_string()),
        &Some("".to_string()),
        &Some("HP".to_string()),
    );
    assert_eq!(dmi.board_name.as_deref(), Some("8D2F"));
    assert_eq!(dmi.product_name, None);
    assert_eq!(dmi.product_family, None);
    assert_eq!(dmi.sys_vendor.as_deref(), Some("HP"));
}

#[test]
fn the_family_is_found_whatever_its_case() {
    let mut dmi = dmi_for("8D2F", "oMeN by HP");
    assert_eq!(dmi.family(), Family::Omen);
    dmi.product_name = Some("VICTUS 15".to_string());
    assert_eq!(dmi.family(), Family::Victus);
}

#[test]
fn only_a_positive_ceiling_counts_as_measured() {
    assert_eq!(positive_rpm(6400), Some(6400));
    assert_eq!(positive_rpm(0), None);
    assert_eq!(positive_rpm(-1), None);
    let (rpm, source) = calibrated_max_rpm(Some(6400), Some(0));
    assert_eq!(rpm, MaxRpm { cpu: Some(6400), gpu: None });
    assert_eq!(source, RpmSource::Calibrated);
    assert_eq!(calibrated_max_rpm(None, Some(-5)).1, RpmSource::DriverFallback);
}
