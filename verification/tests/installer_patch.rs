use pyren::installer::patch::{
    board_in_table, inject_board, patch_driver_tree, patch_max_rpm, BoardParams, BoardTable, MaxRpm,
    PatchError,
};

const SOURCE: &str = r#"
/* fallback */
#define OMEN_CPU_MAX_RPM 60
#define OMEN_GPU_MAX_RPM 58

static const char * const omen_thermal_profile_boards[] = {
	"8607", "8746", "8747",
};

static const struct dmi_system_id hp_wmi_feature_boards[] __initconst = {
	{
		.matches = {DMI_MATCH(DMI_BOARD_NAME, "8C99")},
		.driver_data = (void *)&victus_s_board_params,
	},
	{},
};
"#;

#[test]
fn max_rpm_is_written_in_hundreds_of_rpm() {
    let (patched, applied) =
        patch_max_rpm(SOURCE, MaxRpm { cpu: Some(6400), gpu: Some(5800) }).unwrap();
    assert!(patched.contains("#define OMEN_CPU_MAX_RPM 64"));
    assert!(patched.contains("#define OMEN_GPU_MAX_RPM 58"));
    assert_eq!(applied.len(), 2);
}

#[test]
fn each_fan_can_be_calibrated_on_its_own() {
    let (patched, applied) =
        patch_max_rpm(SOURCE, MaxRpm { cpu: Some(7000), gpu: None }).unwrap();
    assert!(patched.contains("#define OMEN_CPU_MAX_RPM 70"));
    // The GPU fan keeps the driver's own fallback.
    assert!(patched.contains("#define OMEN_GPU_MAX_RPM 58"));
    assert_eq!(applied.len(), 1);
}

#[test]
fn a_driver_with_the_old_single_constant_still_patches() {
    let legacy = "#define OMEN_MAX_RPM 60\n";
    let (patched, applied) =
        patch_max_rpm(legacy, MaxRpm { cpu: Some(6400), gpu: None }).unwrap();
    assert_eq!(patched, "#define OMEN_MAX_RPM 64\n");
    assert_eq!(applied.len(), 1);
}

/// Only the value is rewritten; the rest of the line is kept.
#[test]
fn a_comment_behind_a_value_is_kept() {
    let legacy = |source: &str| {
        patch_max_rpm(source, MaxRpm { cpu: Some(6400), gpu: None }).unwrap().0
    };
    assert_eq!(
        legacy("#define OMEN_MAX_RPM 60 /* fallback */\n"),
        "#define OMEN_MAX_RPM 64 /* fallback */\n"
    );
    assert_eq!(legacy("#define OMEN_MAX_RPM\t60// x\r\nint a;"), "#define OMEN_MAX_RPM\t64// x\r\nint a;");
    assert_eq!(legacy("#define OMEN_MAX_RPM (30 + 30)  \n"), "#define OMEN_MAX_RPM 64  \n");
    assert_eq!(legacy("#define OMEN_MAX_RPM"), "#define OMEN_MAX_RPM 64");
    let once = legacy("#define OMEN_MAX_RPM 60/2 /* half */\n");
    assert_eq!(once, "#define OMEN_MAX_RPM 64 /* half */\n");
    assert_eq!(legacy(&once), once);
}

#[test]
fn a_line_that_ends_in_a_carriage_return_keeps_it() {
    let legacy = |source: &str| {
        patch_max_rpm(source, MaxRpm { cpu: Some(6400), gpu: None }).unwrap().0
    };
    assert_eq!(legacy("#define OMEN_MAX_RPM\r\n"), "#define OMEN_MAX_RPM 64\r\n");
    assert_eq!(legacy("#define OMEN_MAX_RPM 60\r\n"), "#define OMEN_MAX_RPM 64\r\n");
    assert_eq!(legacy("#define OMEN_MAX_RPM\r60\n"), "#define OMEN_MAX_RPM 64\n");
}

/// Whatever stands around it, the define holds the one value afterwards.
#[test]
fn a_comment_is_never_taken_for_a_value() {
    let legacy = |source: &str| {
        patch_max_rpm(source, MaxRpm { cpu: Some(6400), gpu: None }).unwrap().0
    };
    for (before, after) in [
        ("#define OMEN_MAX_RPM /* c */ 60\n", "#define OMEN_MAX_RPM /* c */ 64\n"),
        ("#define OMEN_MAX_RPM/* c *//* d */60\n", "#define OMEN_MAX_RPM/* c *//* d */64\n"),
        ("#define OMEN_MAX_RPM 60 /* c */ + 4 /* d */\n", "#define OMEN_MAX_RPM 64 /* d */\n"),
        ("#define OMEN_MAX_RPM /* c */\n", "#define OMEN_MAX_RPM 64 /* c */\n"),
        ("#define OMEN_MAX_RPM // 60\n", "#define OMEN_MAX_RPM 64 // 60\n"),
        ("#define OMEN_MAX_RPM 60 /* c\n d */\n", "#define OMEN_MAX_RPM 64 /* c\n d */\n"),
        ("#define OMEN_MAX_RPM \"/* 60\" // c\n", "#define OMEN_MAX_RPM 64 // c\n"),
        ("#define OMEN_MAX_RPM '\\'' '/' // c\n", "#define OMEN_MAX_RPM 64 // c\n"),
        ("#define OMEN_MAX_RPM(x) 60\n", "#define OMEN_MAX_RPM 64\n"),
        ("#define OMEN_MAX_RPM  \n60\n", "#define OMEN_MAX_RPM 64  \n60\n"),
    ] {
        assert_eq!(legacy(before), after);
        assert_eq!(legacy(after), after);
    }
}

#[test]
fn the_legacy_name_does_not_match_the_per_fan_constants() {
    // "#define OMEN_MAX_RPM" is not a prefix of the CPU/GPU names, but
    // a sloppy search could still mangle the wrong line.
    let (patched, _) = patch_max_rpm(SOURCE, MaxRpm { cpu: Some(6400), gpu: None }).unwrap();
    assert!(patched.contains("#define OMEN_GPU_MAX_RPM 58"));
}

#[test]
fn a_prefix_match_is_not_mistaken_for_the_define() {
    let source = "#define OMEN_CPU_MAX_RPM_LIMIT 99\n";
    // Only a longer macro is present, so there is nothing to patch and
    // the caller must be told rather than shipping an unpatched driver.
    assert!(patch_max_rpm(source, MaxRpm { cpu: Some(6000), gpu: None }).is_err());
}

#[test]
fn a_missing_anchor_is_an_error_rather_than_a_silent_no_op() {
    // If upstream renames the constants, the build must not quietly
    // produce a driver with the wrong fan ceiling.
    assert!(patch_max_rpm("int main(void) { return 0; }", MaxRpm { cpu: Some(6000), gpu: None })
        .is_err());
}

#[test]
fn asking_for_no_calibration_is_not_an_error() {
    let (patched, applied) = patch_max_rpm(SOURCE, MaxRpm::default()).unwrap();
    assert_eq!(patched, SOURCE);
    assert!(applied.is_empty());
}

#[test]
fn a_board_is_appended_to_the_plain_string_table() {
    let patched = inject_board(SOURCE, BoardTable::OmenThermalProfile, "8D41").unwrap();
    assert!(patched.contains("\"8D41\""));
    // ...inside the right array, before its closing brace.
    let array = patched
        .split("omen_thermal_profile_boards[] = {")
        .nth(1)
        .unwrap()
        .split("};")
        .next()
        .unwrap();
    assert!(array.contains("\"8D41\""));
}

#[test]
fn injecting_a_board_twice_changes_nothing() {
    let once = inject_board(SOURCE, BoardTable::OmenThermalProfile, "8D41").unwrap();
    let twice = inject_board(&once, BoardTable::OmenThermalProfile, "8D41").unwrap();
    assert_eq!(once, twice);
}

#[test]
fn a_board_is_recognised_in_the_table_that_lists_it() {
    assert!(board_in_table(SOURCE, BoardTable::OmenThermalProfile, "8746").unwrap());
    assert!(!board_in_table(SOURCE, BoardTable::OmenThermalProfile, "8D41").unwrap());
    // Listed in one table says nothing about another: 8C99 has feature
    // data but is not an omen thermal-profile board.
    assert!(board_in_table(SOURCE, BoardTable::Features(BoardParams::VictusS), "8C99").unwrap());
    assert!(!board_in_table(SOURCE, BoardTable::OmenThermalProfile, "8C99").unwrap());
}

#[test]
fn an_already_listed_board_is_left_alone() {
    let patched = inject_board(SOURCE, BoardTable::OmenThermalProfile, "8746").unwrap();
    assert_eq!(patched, SOURCE);
}

#[test]
fn the_victus_s_sentinel_stays_last() {
    let patched = inject_board(SOURCE, BoardTable::Features(BoardParams::VictusS), "8D41").unwrap();
    let table = patched.split("hp_wmi_feature_boards[] __initconst = {").nth(1).unwrap();
    let new_entry = table.find("8D41").unwrap();
    let sentinel = table.find("{}").unwrap();
    // A dmi_system_id table is scanned until the empty entry, so a board
    // added after it would never be matched.
    assert!(new_entry < sentinel, "the board must come before the {{}} sentinel");
}

/// The injected entry has to look like the ones already there: this is
/// upstream kernel source, and a double-indented entry next to a
/// de-indented sentinel is the kind of thing that gets noticed when the
/// file is pasted into a bug report.
#[test]
fn an_injected_entry_keeps_the_tables_indentation() {
    let patched =
        inject_board(SOURCE, BoardTable::Features(BoardParams::VictusS), "8D2F").unwrap();

    assert!(
        patched.contains("\t{\n\t\t.matches = {DMI_MATCH(DMI_BOARD_NAME, \"8D2F\")},"),
        "the entry should open at one tab:\n{patched}"
    );
    // ...and the sentinel keeps its own line and its own indentation.
    assert!(patched.contains("\t},\n\t{},\n"), "sentinel lost its line:\n{patched}");
}

#[test]
fn boards_go_into_the_table_the_profile_names() {
    let patched =
        inject_board(SOURCE, BoardTable::Features(BoardParams::VictusS), "8ABC").unwrap();
    let omen_table = patched
        .split("omen_thermal_profile_boards[] = {")
        .nth(1)
        .unwrap()
        .split("};")
        .next()
        .unwrap();
    assert!(!omen_table.contains("8ABC"));
}

#[test]
fn an_unknown_table_is_reported_rather_than_guessed_at() {
    let source = "static const char * const something_else[] = { \"1\" };";
    assert!(inject_board(source, BoardTable::OmenThermalProfile, "8D41").is_err());
}

#[test]
fn a_missing_anchor_is_named() {
    let error = inject_board("int x;", BoardTable::OmenTimed, "8D41").unwrap_err();
    match &error {
        PatchError::AnchorMissing(what) => assert!(what.contains(BoardTable::OmenTimed.array_name())),
        other => panic!("{other:?}"),
    }
    assert!(error.to_text().starts_with("could not find `"));
    let io = PatchError::Io { path: "/x".to_string(), detail: "denied".to_string() };
    assert_eq!(io.to_text(), "io error on /x: denied");
}

#[test]
fn every_injected_board_is_then_listed() {
    let mut source = SOURCE.to_string();
    for (table, board) in [
        (BoardTable::OmenThermalProfile, "8D41"),
        (BoardTable::Features(BoardParams::OmenV1), "8D42"),
    ] {
        assert!(!board_in_table(&source, table, board).unwrap());
        source = inject_board(&source, table, board).unwrap();
        assert!(board_in_table(&source, table, board).unwrap());
    }
}

#[test]
fn a_table_on_one_line_takes_the_entry_inside_its_braces() {
    let table = BoardTable::Features(BoardParams::OmenV1);
    for source in [
        "int a;\nstatic const struct dmi_system_id hp_wmi_feature_boards[] = { {} };\n",
        "static const struct dmi_system_id hp_wmi_feature_boards[] = {{}};",
        "int a;\nhp_wmi_feature_boards[] = {\n\t{},\n};\n",
    ] {
        let once = inject_board(source, table, "8D42").unwrap();
        assert!(board_in_table(&once, table, "8D42").unwrap());
        assert!(once.find("8D42").unwrap() < once.rfind("{}").unwrap());
        assert_eq!(inject_board(&once, table, "8D42").unwrap(), once);
    }
    assert_eq!(
        inject_board("\nhp_wmi_feature_boards[] = { {} };", table, "8D42").unwrap(),
        format!("\nhp_wmi_feature_boards[] = {{{} {{}} }};", table.entry_for("8D42")),
    );
}

#[test]
fn writing_the_ceiling_that_is_there_changes_nothing() {
    let (patched, _) =
        patch_max_rpm(SOURCE, MaxRpm { cpu: Some(6000), gpu: Some(5800) }).unwrap();
    assert_eq!(patched, SOURCE);
}

#[test]
fn patching_the_tree_reports_each_change_and_starts_from_the_pristine_source() {
    let rpm = MaxRpm { cpu: Some(6400), gpu: None };
    let board = Some((BoardTable::OmenThermalProfile, "8D41"));
    let (patched, applied) = patch_driver_tree(SOURCE, rpm, board).unwrap();
    assert_eq!(applied.len(), 2);
    assert!(patched.contains("#define OMEN_CPU_MAX_RPM 64"));
    assert!(board_in_table(&patched, BoardTable::OmenThermalProfile, "8D41").unwrap());

    let (same, none) = patch_driver_tree(SOURCE, MaxRpm::default(), None).unwrap();
    assert_eq!(same, SOURCE);
    assert!(none.is_empty());

    assert!(patch_driver_tree("", rpm, None).is_err());
}

#[test]
fn the_table_decides_the_entry() {
    assert_eq!(BoardTable::OmenThermalProfile.array_name(), "omen_thermal_profile_boards");
    assert!(BoardTable::OmenThermalProfile.entry_for("8D41").contains("\"8D41\""));
    assert!(!BoardTable::OmenThermalProfile.has_sentinel());
    let features = BoardTable::Features(BoardParams::VictusS);
    assert!(features.entry_for("8D41").contains(BoardParams::VictusS.symbol()));
    assert!(features.has_sentinel());
}
