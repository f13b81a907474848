use pyren::error::{ErrorKind, ModuleError, Wording};
use pyren::overclock::climb::{Climb, ClimbAction};
use pyren::overclock::hardware::{
    clock_write, core_write, differs, fault_watch, index_of, keep_kind, mem_write, nvidia_error,
    nvidia_index, step_error, verify_core, verify_mem, write_target, ClockWrite,
};
use pyren::overclock::nvidia::{
    assignment_outcome, attribute_outcome, choose_socket, explain, explained, first_error, home_of,
    is_cookie_name, message_of, parse_attribute, parse_clock_list, parse_gpu_list, refused_by_smi,
    run_ok, smi_written, socket_display, writable, Nvidia, NvidiaError, Output, XDisplay,
    CORE_ATTRIBUTE,
};
use pyren::overclock::nvml::{
    available, core_offset, mem_offset, set_core_offset, set_mem_offset, translate, NvmlError,
    Reading, Symbols, Writing, NVML_NOT_SUPPORTED, NVML_NO_PERMISSION, NVML_SUCCESS,
};
use pyren::overclock::plan::{clamp, ramp, Ceiling, ClockLock, Range, Target};
use pyren::overclock::probe::{
    amd, ask_writable, describe_nvidia, driver_of, drm_card, intel, is_card_name, nvidia_card,
    probe, read_offsets, GpuProbe, Probe, Vendor,
};
use pyren::overclock::request::{merge, route, ApplyRequest, Call, Field, HoldField, LockField};
use pyren::overclock::state::{
    hold_from, hold_secs, needs_undoing, watchdog_tick, Consent, OverclockConfig, OverclockModule,
    Pending, ResetRun, ResetStep, Restore, RevertReason, CONSENT, CONSENT_VERSION,
    DEFAULT_HOLD_SECS, MAX_HOLD_SECS, MIN_HOLD_SECS,
};
use pyren::overclock::targets::TargetMap;
use serde_json::Value;

/// Words for refusals, as a host would choose them.
fn words() -> Wording {
    Wording {
        invalid_params: "bad request: ".to_string(),
        unknown_method: "no such method: ".to_string(),
        unsupported: "not supported".to_string(),
        not_capable: "not possible: ".to_string(),
        permission_denied: "needs elevated privileges: ".to_string(),
        busy: "busy: ".to_string(),
        io: "I/O: ".to_string(),
        failed: String::new(),
        internal: "internal: ".to_string(),
    }
}

fn object(fields: Vec<(&str, Value)>) -> Value {
    let mut map = serde_json::Map::new();
    for (name, value) in fields {
        map.insert(name.to_string(), value);
    }
    Value::Object(map)
}

// --- the plan ------------------------------------------------------------

/// A lock that is asked for upside down is swapped, and only a clamp is
/// remarked upon.
#[test]
fn an_upside_down_lock_is_swapped() {
    let asked = |min_mhz: i32, max_mhz: i32| Target {
        core_clock: Some(ClockLock { min_mhz, max_mhz }),
        ..Target::default()
    };
    let swapped = clamp(asked(2500, 2000), &ceiling());
    assert_eq!(swapped.target, asked(2000, 2500));
    assert!(swapped.notes.is_empty());
    let cut = clamp(asked(9000, 100), &ceiling());
    assert_eq!(cut.target, asked(210, 3090));
    assert_eq!(cut.notes.len(), 1);
    assert!(cut.notes[0].text.starts_with("clock lock 9000-100 MHz is outside"));
}

fn ceiling() -> Ceiling {
    Ceiling {
        core_offset: Some(Range::new(-1000, 1000)),
        mem_offset: Some(Range::new(-2000, 6000)),
        clock: Some(Range::new(210, 3090)),
    }
}

#[test]
fn a_request_inside_the_advertised_range_is_left_alone() {
    let request = Target { core_offset_mhz: 120, mem_offset_mhz: 400, core_clock: None };
    let clamped = clamp(request, &ceiling());
    assert_eq!(clamped.target, request);
    assert!(clamped.notes.is_empty(), "an untouched request must not be decorated");
}

#[test]
fn a_request_past_the_advertised_range_is_cut_down_and_said_so() {
    let clamped =
        clamp(Target { core_offset_mhz: 5000, mem_offset_mhz: 0, core_clock: None }, &ceiling());
    assert_eq!(clamped.target.core_offset_mhz, 1000);
    assert_eq!(clamped.notes.len(), 1);
    assert!(clamped.notes[0].text.contains("1000"));
}

#[test]
fn a_knob_this_card_lacks_is_dropped_not_refused() {
    let ceiling = Ceiling { mem_offset: None, ..ceiling() };
    let clamped =
        clamp(Target { core_offset_mhz: 90, mem_offset_mhz: 300, core_clock: None }, &ceiling);
    assert_eq!(clamped.target.core_offset_mhz, 90);
    assert_eq!(clamped.target.mem_offset_mhz, 0);
    assert_eq!(clamped.notes.len(), 1);
    assert!(clamped.notes[0].text.contains("memory offset"));
}

#[test]
fn a_clock_lock_is_clamped_to_the_clocks_the_card_lists() {
    let clamped = clamp(
        Target { core_clock: Some(ClockLock { min_mhz: 100, max_mhz: 9000 }), ..Target::default() },
        &ceiling(),
    );
    assert_eq!(clamped.target.core_clock, Some(ClockLock { min_mhz: 210, max_mhz: 3090 }));
    assert_eq!(clamped.notes.len(), 1);
}

#[test]
fn the_climb_moves_by_one_step_at_a_time() {
    let steps = ramp(Target::default(), Target { core_offset_mhz: 40, ..Target::default() });
    let offsets: Vec<i32> = steps.iter().map(|t| t.core_offset_mhz).collect();
    assert_eq!(offsets, vec![15, 30, 40]);
}

#[test]
fn the_two_offsets_climb_together() {
    let steps = ramp(
        Target::default(),
        Target { core_offset_mhz: 30, mem_offset_mhz: 200, core_clock: None },
    );
    assert_eq!(steps.len(), 4);
    assert_eq!(steps.last().unwrap().core_offset_mhz, 30);
    assert_eq!(steps.last().unwrap().mem_offset_mhz, 200);
}

#[test]
fn the_climb_works_downwards_too() {
    let from = Target { core_offset_mhz: 45, ..Target::default() };
    let steps = ramp(from, Target::default());
    let offsets: Vec<i32> = steps.iter().map(|t| t.core_offset_mhz).collect();
    assert_eq!(offsets, vec![30, 15, 0]);
}

#[test]
fn a_clock_lock_on_its_own_is_still_one_step() {
    let lock = Some(ClockLock { min_mhz: 2000, max_mhz: 2500 });
    let steps = ramp(Target::default(), Target { core_clock: lock, ..Target::default() });
    assert_eq!(steps, vec![Target { core_clock: lock, ..Target::default() }]);
}

#[test]
fn the_clock_lock_arrives_with_the_last_step() {
    let lock = Some(ClockLock { min_mhz: 2000, max_mhz: 2500 });
    let steps = ramp(
        Target::default(),
        Target { core_offset_mhz: 30, core_clock: lock, ..Target::default() },
    );
    assert!(steps[..steps.len() - 1].iter().all(|s| s.core_clock.is_none()));
    assert_eq!(steps.last().unwrap().core_clock, lock);
}

#[test]
fn stock_is_the_default_and_knows_it() {
    assert!(Target::default().is_stock());
    assert!(!Target { core_offset_mhz: 1, ..Target::default() }.is_stock());
}

#[test]
fn a_lock_entirely_outside_the_clocks_collapses_onto_their_end() {
    let clamped = clamp(
        Target { core_clock: Some(ClockLock { min_mhz: 5000, max_mhz: 6000 }), ..Target::default() },
        &ceiling(),
    );
    assert_eq!(clamped.target.core_clock, Some(ClockLock { min_mhz: 3090, max_mhz: 3090 }));
}

#[test]
fn a_climb_to_where_the_card_is_has_one_last_step_at_most() {
    let here = Target { core_offset_mhz: 30, mem_offset_mhz: 100, core_clock: None };
    let steps = ramp(here, here);
    assert!(steps.iter().all(|step| *step == here));
    assert!(steps.len() <= 1);
}

#[test]
fn a_range_knows_what_it_contains() {
    let range = Range::new(-5, 5);
    assert!(range.contains(-5) && range.contains(5) && !range.contains(6));
    assert_eq!(range.clamp(9), 5);
    assert_eq!(range.clamp(-9), -5);
    assert_eq!(range.clamp(2), 2);
}

// --- the vendor's tools --------------------------------------------------

const CORE_QUERY: &str = "\
  Attribute 'GPUGraphicsClockOffsetAllPerformanceLevels' ([gpu:0]): 0.
    The valid values for 'GPUGraphicsClockOffsetAllPerformanceLevels' are in the range -1000 - 1000 (inclusive).
    'GPUGraphicsClockOffsetAllPerformanceLevels' can use the following target types: GPU.
";

const REFUSED: &str = "

ERROR: The current user does not have permission for operation


ERROR: Error assigning value 0 to attribute 'GPUGraphicsClockOffsetAllPerformanceLevels' ([gpu:0]) as specified in assignment '[gpu:0]/GPUGraphicsClockOffsetAllPerformanceLevels=0' (Operation not permitted for the current user).
";

#[test]
fn an_attribute_query_yields_the_value_and_the_range() {
    let (value, range) = parse_attribute(CORE_QUERY, CORE_ATTRIBUTE).expect("a value");
    assert_eq!(value, 0);
    assert_eq!(range, Some(Range::new(-1000, 1000)));
}

#[test]
fn a_range_with_negative_ends_is_read_correctly() {
    let text = "  Attribute 'X' ([gpu:0]): -50.\n    The valid values for 'X' are in the range -2000 - -100 (inclusive).";
    let (value, range) = parse_attribute(text, "X").expect("a value");
    assert_eq!(value, -50);
    assert_eq!(range, Some(Range::new(-2000, -100)));
}

#[test]
fn the_range_is_the_last_two_numbers_of_its_line() {
    let text = "  Attribute 'X' ([gpu:0]): 5.\n    The values for 'X' are in the range of level 3: -1000 - 1000 (inclusive).";
    assert_eq!(parse_attribute(text, "X"), Some((5, Some(Range::new(-1000, 1000)))));
    let one = "  Attribute 'X' ([gpu:0]): 5.\n    The values for 'X' are in the range - 1000.";
    assert_eq!(parse_attribute(one, "X"), Some((5, None)));
}

#[test]
fn a_refusal_is_not_read_as_a_value() {
    assert!(parse_attribute(REFUSED, CORE_ATTRIBUTE).is_none());
    assert!(first_error(REFUSED).unwrap().contains("does not have permission"));
}

#[test]
fn a_permission_refusal_from_the_x_screen_names_coolbits() {
    let explained = explain(first_error(REFUSED).unwrap());
    assert!(explained.contains("Coolbits"));
    assert!(explained.contains("root does not"));
    assert_eq!(explain("no such attribute".to_string()), "no such attribute");
}

#[test]
fn the_gpu_list_survives_a_name_with_no_clock_beside_it() {
    let gpus = parse_gpu_list("0, NVIDIA GeForce RTX 5060 Laptop GPU, 3090\n1, Quadro, [N/A]\n");
    assert_eq!(gpus.len(), 2);
    assert_eq!(gpus[0].index, 0);
    assert_eq!(gpus[0].max_core_mhz, Some(3090));
    assert_eq!(gpus[1].max_core_mhz, None, "an unreadable clock is absent, not zero");
}

#[test]
fn the_supported_clocks_become_a_range() {
    assert_eq!(parse_clock_list("3090\n3082\n3075\n210\n"), Some(Range::new(210, 3090)));
    assert_eq!(parse_clock_list(""), None);
}

/// The refusal's words are looked at whatever their letter case.
#[test]
fn a_refusal_in_capitals_is_recognised_through_lower_case() {
    assert!(explain("PERMISSION denied".to_string()).contains("Coolbits"));
    assert_eq!(explained("PERMISSION denied".to_string(), "PERMISSION denied"), "PERMISSION denied");
    let answer: Result<Output, String> = Ok(Output {
        success: false,
        stdout: "Insufficient PERMISSIONS".to_string(),
        stderr: String::new(),
    });
    assert!(matches!(smi_written(&answer), Err(NvidiaError::NeedsRoot(m))
        if m == "nvidia-smi refused: Insufficient PERMISSIONS"));
    assert!(matches!(refused_by_smi("No", "no"), NvidiaError::Refused(m) if m == "nvidia-smi refused: No"));
}

#[test]
fn the_tools_answers_are_told_apart() {
    let failed: Result<Output, String> = Err("not found".to_string());
    assert!(matches!(smi_written(&failed), Err(NvidiaError::Unreadable { what: "nvidia-smi", .. })));
    let fine: Result<Output, String> =
        Ok(Output { success: true, stdout: CORE_QUERY.to_string(), stderr: String::new() });
    assert!(smi_written(&fine).is_ok());
    let (value, range) = attribute_outcome(&fine, CORE_ATTRIBUTE).expect("a value");
    assert_eq!((value, range), (0, Some(Range::new(-1000, 1000))));
    let refused: Result<Output, String> =
        Ok(Output { success: true, stdout: String::new(), stderr: REFUSED.to_string() });
    assert!(matches!(assignment_outcome(&refused), Err(NvidiaError::Refused(_))));
    assert!(!writable(assignment_outcome(&refused)).unwrap());
    assert!(writable(Ok(())).unwrap());
    assert!(writable(Err(NvidiaError::NotInstalled("nvidia-settings"))).is_err());
    assert_eq!(run_ok(None), None);
    assert_eq!(
        run_ok(Some(Output { success: true, stdout: "x".to_string(), stderr: String::new() })),
        Some("x".to_string())
    );
    assert_eq!(message_of(" a ", " b "), "a b");
    assert_eq!(message_of("", " "), "no output");
}

#[test]
fn the_tools_are_asked_in_their_own_terms() {
    let bare = Nvidia::detect(false, false, None);
    assert!(bare.gpus().is_none());
    assert!(matches!(bare.reset_clocks(0), Err(NvidiaError::NotInstalled("nvidia-smi"))));
    assert!(matches!(bare.core_offset(0), Err(NvidiaError::NotInstalled("nvidia-settings"))));
    let blind = Nvidia::detect(true, true, None);
    assert!(matches!(blind.mem_offset(0), Err(NvidiaError::NoDisplay(_))));
    let display = XDisplay { name: ":1".to_string(), xauthority: None, owner_uid: 1000 };
    let full = Nvidia::detect(true, true, Some(display));
    let lock = full.lock_clocks(2, ClockLock { min_mhz: 210, max_mhz: 2500 }).unwrap();
    assert_eq!(lock.program, "nvidia-smi");
    assert_eq!(lock.args, vec!["-i", "2", "--lock-gpu-clocks=210,2500"]);
    let set = full.set_core_offset(0, -15).unwrap();
    assert_eq!(set.args, vec!["-a", "[gpu:0]/GPUGraphicsClockOffsetAllPerformanceLevels=-15"]);
    assert_eq!(set.display, Some((":1".to_string(), None)));
    let same = full.probe_writable(0, Ok((30, None))).unwrap();
    assert_eq!(same.args[1], "[gpu:0]/GPUGraphicsClockOffsetAllPerformanceLevels=30");
}

#[test]
fn a_display_is_found_by_its_socket() {
    assert_eq!(socket_display("X1"), Some(":1".to_string()));
    assert_eq!(socket_display("X1_"), None);
    assert_eq!(socket_display("X"), None);
    let root_first = vec![(":0".to_string(), 0u32), (":1".to_string(), 1000u32)];
    assert_eq!(choose_socket(&root_first), Some(1), "a user's session wins over root's");
    let only_root = vec![(":2".to_string(), 0u32), (":1".to_string(), 0u32)];
    assert_eq!(choose_socket(&only_root), Some(1));
    assert_eq!(choose_socket(&Vec::new()), None);
    assert!(is_cookie_name("xauth_abc") && is_cookie_name(".mutter-Xwaylandauth.1"));
    assert!(!is_cookie_name("bus"));
    let passwd = "root:x:0:0:root:/root:/bin/sh\nann:x:1000:1000::/home/ann:/bin/sh\n";
    assert_eq!(home_of(passwd, 1000), Some("/home/ann".to_string()));
    assert_eq!(home_of(passwd, 7), None);
}

// --- the driver's library ------------------------------------------------

fn symbols() -> Symbols {
    Symbols {
        get_core: true,
        set_core: true,
        get_mem: true,
        set_mem: true,
        core_range: true,
        mem_range: true,
    }
}

fn reading(device_rc: i32, get_rc: i32, value: i32) -> Reading {
    Reading {
        device_rc,
        get_rc,
        value,
        range_rc: NVML_SUCCESS,
        min: -1000,
        max: 1000,
        words: "some words".to_string(),
    }
}

#[test]
fn asking_whether_nvml_exists_is_safe_on_any_machine() {
    assert!(!available(None));
    let _ = available(Some(symbols()));
}

#[test]
fn a_gpu_that_does_not_exist_is_an_error_not_a_crash() {
    if !available(Some(symbols())) {
        return;
    }
    assert!(core_offset(Some(symbols()), &reading(2, 0, 0)).is_err());
}

#[test]
fn the_offsets_can_be_read_without_being_writable() {
    if !available(Some(symbols())) {
        return;
    }
    if let Ok((offset, Some(range))) = core_offset(Some(symbols()), &reading(0, 0, 0)) {
        assert!(range.min <= offset && offset <= range.max, "{offset} outside {range:?}");
        assert!(range.min <= 0 && range.max >= 0, "stock must be inside the range");
    }
}

#[test]
fn the_librarys_codes_are_told_apart() {
    let words = "some words".to_string();
    assert_eq!(translate(NVML_NOT_SUPPORTED, &words), NvmlError::NotSupported);
    assert_eq!(translate(NVML_NO_PERMISSION, &words), NvmlError::NeedsRoot);
    assert_eq!(translate(999, &words), NvmlError::Failed("some words".to_string()));
    assert_eq!(core_offset(None, &reading(0, 0, 0)), Err(NvmlError::Unavailable));
    assert_eq!(
        mem_offset(Some(symbols()), &reading(0, 0, 25)),
        Ok((25, Some(Range::new(-1000, 1000))))
    );
    let written = Writing { device_rc: 0, set_rc: NVML_NO_PERMISSION, words: words.clone() };
    assert_eq!(set_core_offset(Some(symbols()), &written), Err(NvmlError::NeedsRoot));
    let fine = Writing { device_rc: 0, set_rc: 0, words };
    assert_eq!(set_mem_offset(Some(symbols()), &fine), Ok(()));
    let readable = Symbols { set_core: false, set_mem: false, ..symbols() };
    assert!(!available(Some(readable)), "an offset that can only be read");
    let blind = Symbols { get_core: false, get_mem: false, ..symbols() };
    assert!(!available(Some(blind)), "an offset that can only be written");
    assert!(available(Some(Symbols { get_mem: false, set_mem: false, ..symbols() })));
    let old = Symbols { set_mem: false, ..symbols() };
    assert_eq!(set_mem_offset(Some(old), &fine), Err(NvmlError::Unavailable));
}

// --- the probe -----------------------------------------------------------

#[test]
fn probing_a_machine_with_no_gpu_is_not_an_error() {
    let probe = probe(Vec::new(), Vec::new());
    if probe.gpus.is_empty() {
        assert!(!probe.supported);
        assert!(!probe.detail.is_empty(), "a machine with nothing must still say so");
    }
}

#[test]
fn a_card_with_no_knobs_does_not_count_as_supported() {
    let gpu = GpuProbe {
        id: "drm:card0".into(),
        name: "Intel graphics".into(),
        vendor: Vendor::Intel,
        driver: "i915".into(),
        core_offset: None,
        mem_offset: None,
        clock_lock: None,
        offsets_writable: None,
        detail: String::new(),
    };
    assert!(!gpu.drivable());
}

fn nvidia_listed() -> GpuProbe {
    nvidia_card(
        parse_gpu_list("0, RTX, 3090\n").remove(0),
        Some(Range::new(210, 3090)),
        &Ok((0, Some(Range::new(-1000, 1000)))),
        &Ok((0, Some(Range::new(-2000, 6000)))),
        None,
    )
}

#[test]
fn the_probe_finds_the_cards_that_can_be_driven() {
    let card = nvidia_listed();
    assert_eq!(card.id, "nvidia:0");
    assert!(card.drivable());
    let found = probe(vec![card], vec![intel("drm:card0".to_string(), "i915", None)]);
    assert!(found.supported);
    assert_eq!(found.default_gpu().unwrap().id, "nvidia:0");
    assert_eq!(found.gpu("drm:card0").unwrap().vendor, Vendor::Intel);
    assert!(found.gpu("drm:card7").is_none());
    assert!(is_card_name("card0") && !is_card_name("card0-HDMI-A-1") && !is_card_name("renderD128"));
    assert_eq!(driver_of("DRIVER=amdgpu\nPCI_ID=1\n"), "amdgpu");
    assert!(drm_card("card1", "DRIVER=nvidia\n", None, None).is_none());
    assert_eq!(drm_card("card1", "DRIVER=amdgpu\n", None, None).unwrap().vendor, Vendor::Amd);
    assert!(!amd("drm:card1".to_string(), "amdgpu", Some("OD_SCLK:\n".to_string())).drivable());
    assert!(ask_writable(true, Some(Range::new(0, 1))) && !ask_writable(true, None));
}

#[test]
fn what_is_said_of_a_card_names_what_is_missing() {
    let (core, mem, detail) = read_offsets(
        &Err(NvidiaError::NotInstalled("nvidia-settings")),
        &Ok((0, None)),
    );
    assert!(core.is_none() && mem.is_none());
    assert!(detail.starts_with("no clock offsets: "));
    assert!(describe_nvidia("", Some(false), None, None).contains("Coolbits"));
}

// --- requests ------------------------------------------------------------

#[test]
fn a_request_that_mentions_one_offset_leaves_the_other_alone() {
    let current = Target { core_offset_mhz: 30, mem_offset_mhz: 200, core_clock: None };
    let request = ApplyRequest::read(&object(vec![("coreOffsetMhz", Value::from(60))]));
    let merged = merge(&request, current).unwrap();
    assert_eq!(merged.core_offset_mhz, 60);
    assert_eq!(merged.mem_offset_mhz, 200);
}

#[test]
fn a_clock_lock_is_removed_only_when_it_is_named() {
    let locked = Target {
        core_clock: Some(ClockLock { min_mhz: 1000, max_mhz: 2000 }),
        ..Target::default()
    };
    let empty = ApplyRequest::read(&object(vec![]));
    assert_eq!(merge(&empty, locked).unwrap().core_clock, locked.core_clock);
    let null = ApplyRequest::read(&object(vec![("clockLock", Value::Null)]));
    assert_eq!(merge(&null, locked).unwrap().core_clock, None);
}

#[test]
fn a_wrong_type_is_a_refusal_and_not_a_zero() {
    let request = ApplyRequest::read(&object(vec![("coreOffsetMhz", Value::from("lots"))]));
    assert!(matches!(merge(&request, Target::default()), Err(ModuleError::InvalidParams(_))));
}

#[test]
fn a_request_is_read_field_by_field() {
    let lock = object(vec![("minMhz", Value::from(300)), ("maxMhz", Value::from(900))]);
    let request = ApplyRequest::read(&object(vec![
        ("gpu", Value::from("nvidia:0")),
        ("memOffsetMhz", Value::from(-250)),
        ("clockLock", lock),
        ("holdSecs", Value::from(30)),
    ]));
    assert_eq!(request.gpu, Some("nvidia:0".to_string()));
    assert_eq!(request.core, Field::Absent);
    assert_eq!(request.mem, Field::Value(-250));
    assert_eq!(request.lock, LockField::Value(ClockLock { min_mhz: 300, max_mhz: 900 }));
    assert_eq!(request.hold, HoldField::Value(30));
    let merged = merge(&request, Target::default()).unwrap();
    assert_eq!(merged.mem_offset_mhz, -250);
    let wrong = ApplyRequest::read(&object(vec![
        ("memOffsetMhz", Value::from(1u64 << 40)),
        ("holdSecs", Value::from(-1)),
    ]));
    assert_eq!(wrong.mem, Field::Invalid);
    assert_eq!(wrong.hold, HoldField::Invalid);
    let half = ApplyRequest::read(&object(vec![(
        "clockLock",
        object(vec![("minMhz", Value::from(300))]),
    )]));
    assert_eq!(half.lock, LockField::Incomplete);
}

#[test]
fn an_unknown_method_is_named_in_the_error() {
    assert!(matches!(
        route("overvolt", &Value::Null),
        Err(ModuleError::UnknownMethod(m)) if m == "overvolt"
    ));
}

#[test]
fn every_method_is_routed() {
    assert!(matches!(route("getState", &Value::Null), Ok(Call::GetState)));
    assert!(matches!(route("confirm", &Value::Null), Ok(Call::Confirm)));
    assert!(matches!(route("cancel", &Value::Null), Ok(Call::Cancel)));
    let accepted = object(vec![("accepted", Value::from(true))]);
    assert!(matches!(route("setConsent", &accepted), Ok(Call::SetConsent { accepted: true })));
    assert!(route("setConsent", &object(vec![])).is_err());
    let gpu = object(vec![("gpu", Value::from("nvidia:0"))]);
    assert!(matches!(route("reset", &gpu), Ok(Call::Reset { gpu: Some(g) }) if g == "nvidia:0"));
    let enabled = object(vec![("enabled", Value::from(false))]);
    assert!(matches!(
        route("setRestoreOnStart", &enabled),
        Ok(Call::SetRestoreOnStart { enabled: false })
    ));
    assert!(matches!(route("probe", &Value::Null), Ok(Call::Probe { allow_writes: false })));
}

// --- the module ----------------------------------------------------------

fn gpu_probe(id: &str, vendor: Vendor) -> GpuProbe {
    GpuProbe {
        id: id.to_string(),
        name: "a card".to_string(),
        vendor,
        driver: "whatever".to_string(),
        core_offset: None,
        mem_offset: None,
        clock_lock: None,
        offsets_writable: None,
        detail: String::new(),
    }
}

fn tunable() -> GpuProbe {
    GpuProbe {
        core_offset: Some(Range::new(-1000, 1000)),
        mem_offset: Some(Range::new(-2000, 6000)),
        clock_lock: Some(Range::new(210, 3090)),
        ..gpu_probe("nvidia:0", Vendor::Nvidia)
    }
}

fn machine() -> Probe {
    probe(vec![tunable()], Vec::new())
}

/// A change armed at the start of the clock, for as long as the caller says.
fn armed(hold_ms: u64) -> Pending {
    Pending { gpu: "nvidia:0".to_string(), revert_to: Target::default(), deadline: hold_ms }
}

fn asks_for(core: i32) -> ApplyRequest {
    ApplyRequest::read(&object(vec![("coreOffsetMhz", Value::from(core))]))
}

fn consented() -> OverclockModule {
    let mut module = OverclockModule::new();
    module.set_consent(true, 1000);
    module
}

#[test]
fn a_fresh_config_is_stock_and_unconsented() {
    let config = OverclockConfig::default();
    assert!(config.consent.is_none());
    assert!(!config.restore_on_start);
    assert!(config.targets.is_empty());
    assert!(config.armed_gpu.is_none());
}

#[test]
fn an_offset_cannot_be_applied_before_the_warning_is_accepted() {
    let module = OverclockModule::new();
    let machine = machine();
    let error = match module.prepare(&machine, &asks_for(50)) {
        Err(e) => e,
        Ok(_) => panic!("an unconsented apply must be refused"),
    };
    assert!(matches!(error.kind(), ErrorKind::InvalidParams | ErrorKind::NotCapable));
}

#[test]
fn the_consent_text_travels_with_the_state() {
    let module = OverclockModule::new();
    let status = module.status(&machine(), 0);
    assert_eq!(status.consent_text, CONSENT);
    assert_eq!(status.consent_version, CONSENT_VERSION);
    assert!(!status.consent_accepted);
}

#[test]
fn consent_on_its_own_changes_no_clock() {
    let mut module = OverclockModule::new();
    module.set_consent(true, 1000);
    let status = module.status(&machine(), 0);
    assert!(status.consent_accepted);
    assert!(module.pending.is_none());
    assert!(module.applied.is_empty());
}

#[test]
fn confirming_nothing_is_a_refusal_rather_than_a_no_op() {
    let mut module = OverclockModule::new();
    assert_eq!(module.confirm().unwrap_err().kind(), ErrorKind::InvalidParams);
}

#[test]
fn cancelling_nothing_is_a_refusal_too() {
    let module = OverclockModule::new();
    assert_eq!(module.cancel().unwrap_err().kind(), ErrorKind::InvalidParams);
}

#[test]
fn an_armed_config_stops_the_next_boot_restoring_anything() {
    let mut targets = TargetMap::new();
    targets.insert("nvidia:0", Target { core_offset_mhz: 150, ..Target::default() });
    let config = OverclockConfig {
        consent: Some(Consent { accepted_at: 1000, version: CONSENT_VERSION }),
        targets,
        restore_on_start: true,
        armed_gpu: Some("nvidia:0".to_string()),
        hold_secs: None,
    };
    let module = OverclockModule::with_store(config);
    assert!(module.unconfirmed_at_start);
    assert!(matches!(module.restore(), Restore::Unconfirmed));
    assert!(module.applied.is_empty(), "nothing may be written on such a boot");
    assert!(module.last_note[0].text.contains("never confirmed"));
}

#[test]
fn the_armed_flag_is_cleared_once_it_has_been_acted_on() {
    let config = OverclockConfig { armed_gpu: Some("nvidia:0".into()), ..Default::default() };
    let module = OverclockModule::with_store(config);
    assert!(module.config.armed_gpu.is_none());
}

#[test]
fn a_confirmed_config_is_restored_where_that_is_wanted() {
    let wanted = Target { core_offset_mhz: 150, ..Target::default() };
    let mut targets = TargetMap::new();
    targets.insert("nvidia:1", Target::default());
    targets.insert("nvidia:0", wanted);
    let config = OverclockConfig {
        consent: Some(Consent { accepted_at: 1000, version: CONSENT_VERSION }),
        targets,
        restore_on_start: true,
        armed_gpu: None,
        hold_secs: None,
    };
    let mut module = OverclockModule::with_store(config);
    match module.restore() {
        Restore::Targets(entries) => {
            assert_eq!(entries.len(), 1, "a card at stock has nothing to restore");
            assert_eq!(entries[0].gpu, "nvidia:0");
            assert_eq!(entries[0].target, wanted);
        }
        _ => panic!("a confirmed target is restored"),
    }
    module.restored("nvidia:0", wanted, Ok(()), &words());
    assert_eq!(module.current("nvidia:0"), wanted);
    let mut withdrawn = OverclockModule::with_store(OverclockConfig {
        restore_on_start: true,
        ..Default::default()
    });
    assert!(matches!(withdrawn.restore(), Restore::Nothing | Restore::NotConsented));
    withdrawn.saved(Err("disk full".to_string()));
    assert_eq!(withdrawn.last_save_error, Some("disk full".to_string()));
}

#[test]
fn the_hold_is_clamped_to_something_a_person_can_react_within() {
    let config = OverclockConfig::default();
    let hold = |params: Value| hold_from(&config, ApplyRequest::read(&params).hold);
    assert_eq!(hold(object(vec![("holdSecs", Value::from(1))])).unwrap(), MIN_HOLD_SECS);
    assert_eq!(hold(object(vec![("holdSecs", Value::from(99999))])).unwrap(), MAX_HOLD_SECS);
    assert_eq!(hold(object(vec![])).unwrap(), DEFAULT_HOLD_SECS);
    assert!(hold(object(vec![("holdSecs", Value::from("soon"))])).is_err());
    assert_eq!(hold_secs(&config), DEFAULT_HOLD_SECS);
}

#[test]
fn adding_context_to_an_error_keeps_its_kind() {
    let e = keep_kind(ModuleError::PermissionDenied("nvidia-smi said no".into()), "stopped");
    assert!(matches!(e, ModuleError::PermissionDenied(_)));
    let message = e.to_text(&words());
    assert!(message.contains("stopped") && message.contains("nvidia-smi said no"));
    assert_eq!(
        message.matches("elevated privileges").count(),
        1,
        "the prefix must not be announced twice"
    );
}

#[test]
fn context_stands_in_front_of_every_kind() {
    let said = || "said no".to_string();
    for e in [
        ModuleError::UnknownMethod(said()),
        ModuleError::InvalidParams(said()),
        ModuleError::Failed(said()),
        ModuleError::Internal(said()),
        ModuleError::Io(said()),
        ModuleError::Busy(said()),
        ModuleError::NotCapable(said()),
    ] {
        let kind = e.kind();
        let wrapped = keep_kind(e, "stopped");
        assert_eq!(wrapped.kind(), kind);
        assert!(wrapped.to_text(&words()).ends_with("stopped: said no"));
    }
    assert!(matches!(keep_kind(ModuleError::Unsupported, "stopped"), ModuleError::Unsupported));
}

#[test]
fn undoing_a_card_we_never_moved_writes_nothing() {
    assert!(!needs_undoing(None));
    assert!(!needs_undoing(Some(Target::default())));
    assert!(needs_undoing(Some(Target { core_offset_mhz: 100, ..Target::default() })));
}

#[test]
fn a_knob_that_is_not_changing_is_not_written() {
    assert!(!differs(&Ok((0, None)), 0));
    assert!(differs(&Ok((0, None)), 15));
    assert!(
        differs(&Err(NvidiaError::NotInstalled("nvidia-settings")), 0),
        "an offset we could not read is not one we may assume matches"
    );
}

#[test]
fn a_watchdog_tick_with_nothing_armed_undoes_nothing_however_the_card_behaves() {
    assert!(watchdog_tick(None, false, 0).is_none());
    assert!(watchdog_tick(None, true, 0).is_none());
}

#[test]
fn a_change_still_inside_its_hold_on_a_healthy_card_is_left_alone() {
    let pending = armed(20_000);
    assert!(watchdog_tick(Some(&pending), false, 0).is_none());
}

#[test]
fn a_hold_that_runs_out_undoes_the_change_without_anyone_asking() {
    let pending = armed(20_000);
    let expired = pending.deadline + 1;
    assert!(matches!(
        watchdog_tick(Some(&pending), false, expired),
        Some(RevertReason::NotConfirmed)
    ));
}

#[test]
fn a_card_that_reports_a_fault_is_not_left_waiting_for_the_rest_of_the_hold() {
    let pending = armed(20_000);
    assert!(matches!(
        watchdog_tick(Some(&pending), true, 0),
        Some(RevertReason::FaultReported)
    ));
}

#[test]
fn a_hold_that_ran_out_is_reported_as_such_even_when_the_card_also_complained() {
    let pending = armed(20_000);
    let expired = pending.deadline + 1;
    assert!(matches!(
        watchdog_tick(Some(&pending), true, expired),
        Some(RevertReason::NotConfirmed)
    ));
}

#[test]
fn a_revert_disarms_what_it_undid_so_the_next_tick_finds_nothing() {
    let mut module = OverclockModule::new();
    let pending = Pending {
        gpu: "absent:0".to_string(),
        revert_to: Target::default(),
        deadline: 20_000,
    };
    module.pending = Some(pending.clone());

    let gone = pyren::overclock::state::gpu_gone("absent:0");
    let outcome = module.revert(&pending, RevertReason::FaultReported, Err(gone), &words());
    assert!(outcome.is_err(), "a card that is not there cannot be written to");
    assert!(module.pending.is_none(), "a revert must disarm what it undid");
    assert!(module.fault_watch.is_none(), "the fault watch outlives nothing");
    assert!(module.config.armed_gpu.is_none());
    assert!(
        watchdog_tick(module.pending.as_ref(), true, 0).is_none(),
        "the tick after a revert must not ask for a second one"
    );
}

#[test]
fn a_fault_note_reads_differently_from_a_timeout_note_and_names_the_card() {
    let fault = RevertReason::FaultReported.note("nvidia:0");
    let timeout = RevertReason::NotConfirmed.note("nvidia:0");
    assert_ne!(fault.key, timeout.key, "two reasons, two keys to translate");
    assert_ne!(fault.text, timeout.text);
    let gpu = fault.params.iter().find(|p| p.name == "gpu").unwrap();
    assert_eq!(gpu.value, "nvidia:0");
    assert!(fault.text.contains("nvidia:0"), "the note must say which card: {}", fault.text);
    assert!(!fault.text.contains('{'), "every placeholder must be filled: {}", fault.text);
    assert!(fault.text.contains("fault"), "a fault must read as one: {}", fault.text);
}

#[test]
fn a_card_that_is_not_an_nvidia_index_gets_no_fault_watch() {
    assert!(fault_watch(&gpu_probe("drm:card0", Vendor::Intel)).is_none());
    assert!(fault_watch(&gpu_probe("drm:card1", Vendor::Amd)).is_none());
    assert!(
        fault_watch(&gpu_probe("drm:card1", Vendor::Nvidia)).is_none(),
        "an NVIDIA card whose id is not an nvidia-smi index has no index to register with"
    );
}

/// A refusal does not wait for a card's ranges: one that is the wrong way round
/// matters only to a request that gets as far as it.
#[test]
fn a_card_with_a_crossed_range_does_not_stand_in_the_way_of_a_refusal() {
    let mut crossed = tunable();
    crossed.id = "nvidia:1".to_string();
    crossed.core_offset = Some(Range::new(1000, -1000));
    let machine = probe(vec![tunable(), crossed], Vec::new());
    let named = |id: &str| {
        ApplyRequest::read(&object(vec![
            ("gpu", Value::from(id)),
            ("coreOffsetMhz", Value::from(50)),
        ]))
    };
    let kind = |module: &OverclockModule, id: &str| {
        assert!(module.can_prepare(&machine, &named(id)));
        module.prepare(&machine, &named(id)).err().map(|e| e.kind())
    };
    assert_eq!(kind(&OverclockModule::new(), "nvidia:1"), Some(ErrorKind::InvalidParams));
    let mut module = consented();
    assert_eq!(kind(&module, "nvidia:0"), None, "the other card's ranges are not looked at");
    assert!(!module.can_prepare(&machine, &named("nvidia:1")));
    module.pending = Some(armed(1000));
    assert_eq!(kind(&module, "nvidia:1"), Some(ErrorKind::Busy));
}

/// Asking for what is already on the card is not a change.
#[test]
fn asking_for_what_is_there_moves_nothing() {
    let mut module = consented();
    let machine = machine();
    let prepared = module.prepare(&machine, &asks_for(0)).ok().unwrap().1;
    assert!(!prepared.moves());
    module.already_there(&prepared);
    assert!(module.pending.is_none() && module.last_note.is_empty());
    assert!(module.prepare(&machine, &asks_for(60)).ok().unwrap().1.moves());
}

/// A reset that fails on two cards says so of each.
#[test]
fn every_card_that_could_not_be_reset_is_named() {
    let mut module = consented();
    let mut other = tunable();
    other.id = "nvidia:1".to_string();
    let machine = probe(vec![tunable(), other], Vec::new());
    let moved = Target { core_offset_mhz: 15, ..Target::default() };
    module.restored("nvidia:0", moved, Ok(()), &words());
    module.restored("nvidia:1", moved, Ok(()), &words());
    let mut run = ResetRun::begin(&machine, None);
    for said in ["first", "second"] {
        assert_eq!(module.reset_next(&machine, &run).unwrap(), ResetStep::Write);
        module.reset_done(&mut run, Some(Err(ModuleError::PermissionDenied(said.to_string()))));
    }
    let error = module.reset_finish(run, &words()).unwrap_err();
    assert_eq!(error.kind(), ErrorKind::PermissionDenied);
    let said: Vec<&str> = module.last_error.iter().map(|m| m.text.as_str()).collect();
    assert_eq!(
        said,
        vec![
            "nvidia:0: needs elevated privileges: first",
            "nvidia:1: needs elevated privileges: second",
        ]
    );
    assert_eq!(module.current("nvidia:1"), moved, "what could not be written is still there");
}

/// Applying arms, confirming keeps, and the hold runs from the moment of
/// applying.
#[test]
fn an_apply_is_armed_until_it_is_confirmed() {
    let mut module = consented();
    let machine = machine();
    let (gpu, prepared) = match module.prepare(&machine, &asks_for(5000)) {
        Ok(found) => found,
        Err(e) => panic!("{}", e.to_text(&words())),
    };
    assert_eq!(prepared.clamped.target.core_offset_mhz, 1000, "held under the card's range");
    assert_eq!(prepared.from, Target::default());
    module.finish_apply(gpu, &prepared, Ok(()), &words(), 5_000).unwrap();
    assert_eq!(module.pending.as_ref().unwrap().deadline, 5_000 + 1000 * DEFAULT_HOLD_SECS);
    assert_eq!(module.config.armed_gpu, Some("nvidia:0".to_string()));
    assert_eq!(module.fault_watch, Some(0));
    assert_eq!(module.status(&machine, 6_000).millis_left, Some(1000 * DEFAULT_HOLD_SECS - 1_000));
    assert!(module.prepare(&machine, &asks_for(10)).is_err(), "one change at a time");
    module.confirm().unwrap();
    assert!(module.pending.is_none());
    assert_eq!(module.confirmed("nvidia:0").core_offset_mhz, 1000);
    assert!(module.config.armed_gpu.is_none());
}

/// Cancelling hands back what the timer would undo, to the same place.
#[test]
fn cancelling_undoes_what_the_timer_would_have_undone() {
    let mut module = consented();
    let machine = machine();
    let (gpu, prepared) = match module.prepare(&machine, &asks_for(60)) {
        Ok(found) => found,
        Err(e) => panic!("{}", e.to_text(&words())),
    };
    module.finish_apply(gpu, &prepared, Ok(()), &words(), 0).unwrap();
    let pending = module.cancel().unwrap();
    assert_eq!(pending.revert_to, Target::default());
    module.revert(&pending, RevertReason::Undone, Ok(()), &words()).unwrap();
    assert_eq!(module.current("nvidia:0"), Target::default());
    assert!(module.pending.is_none());
    assert_eq!(module.last_note[0].key, "overclock.note.revertedUndone");
}

#[test]
fn withdrawing_consent_asks_for_a_reset() {
    let mut module = consented();
    let machine = machine();
    let (gpu, prepared) = match module.prepare(&machine, &asks_for(60)) {
        Ok(found) => found,
        Err(e) => panic!("{}", e.to_text(&words())),
    };
    module.finish_apply(gpu, &prepared, Ok(()), &words(), 0).unwrap();
    assert!(module.set_consent(false, 2000));
    assert!(!module.status(&machine, 0).consent_accepted);
    let mut run = ResetRun::begin(&machine, None);
    assert_eq!(module.reset_next(&machine, &run).unwrap(), ResetStep::Write);
    module.reset_done(&mut run, Some(Ok(())));
    assert_eq!(module.reset_next(&machine, &run).unwrap(), ResetStep::Finished);
    module.reset_finish(run, &words()).unwrap();
    assert_eq!(module.current("nvidia:0"), Target::default());
    let missing = ResetRun::begin(&machine, Some("nvidia:9".to_string()));
    assert!(module.reset_next(&machine, &missing).is_err());
}

#[test]
fn a_failed_climb_leaves_nothing_armed() {
    let mut module = consented();
    let machine = machine();
    let (gpu, prepared) = match module.prepare(&machine, &asks_for(60)) {
        Ok(found) => found,
        Err(e) => panic!("{}", e.to_text(&words())),
    };
    let error = ModuleError::Failed("no".into());
    let failed = module.finish_apply(gpu, &prepared, Err(error), &words(), 0);
    assert!(failed.is_err());
    assert!(module.pending.is_none() && module.config.armed_gpu.is_none());
    assert_eq!(module.last_error[0].text, "no");
}

#[test]
fn saying_no_is_not_moved_by_a_flag() {
    let mut module = OverclockModule::new();
    module.set_restore_on_start(true);
    assert!(module.config.restore_on_start);
    assert!(matches!(module.restore(), Restore::Nothing | Restore::NotConsented));
}

// --- the card ------------------------------------------------------------

#[test]
fn only_what_a_card_has_is_written_and_read_back() {
    let card = tunable();
    let target = Target { core_offset_mhz: 15, mem_offset_mhz: 50, core_clock: None };
    assert_eq!(index_of("nvidia:3"), Some(3));
    assert_eq!(index_of("drm:card0"), None);
    assert_eq!(nvidia_index(&card).unwrap(), 0);
    assert_eq!(write_target(&card).unwrap(), 0);
    assert_eq!(write_target(&gpu_probe("drm:card0", Vendor::Amd)).unwrap_err().kind(), ErrorKind::NotCapable);
    assert_eq!(fault_watch(&card), Some(0));
    assert_eq!(core_write(&card, target, &Ok((0, None))), Some(15));
    assert_eq!(core_write(&card, target, &Ok((15, None))), None);
    assert_eq!(mem_write(&card, target, &Ok((50, None))), None);
    assert_eq!(clock_write(&card, target), ClockWrite::Reset);
    assert_eq!(clock_write(&gpu_probe("nvidia:0", Vendor::Nvidia), target), ClockWrite::Nothing);
    assert!(verify_core(&card, target, Ok((15, None))).is_ok());
    assert!(verify_core(&card, target, Ok((0, None))).is_err());
    assert!(verify_mem(&card, target, Ok((0, None))).is_err());
    assert_eq!(nvidia_error(&NvidiaError::NeedsRoot("no".into())).kind(), ErrorKind::PermissionDenied);
    let wrapped = step_error(target, Target::default(), ModuleError::Failed("said no".into()));
    assert!(wrapped.to_text(&words()).contains("said no"));
}

#[test]
fn a_climb_writes_reads_back_and_stops_at_the_first_failure() {
    let to = Target { core_offset_mhz: 30, ..Target::default() };
    let first = Target { core_offset_mhz: 15, ..Target::default() };
    let climb = Climb::begin(Target::default(), to);
    assert_eq!(climb.action(), ClimbAction::Write(first));
    let climb = climb.report(Ok(()));
    assert_eq!(climb.action(), ClimbAction::Verify(first));
    let climb = climb.report(Ok(()));
    assert_eq!(climb.action(), ClimbAction::Write(to));
    let failing = climb.clone().report(Err(ModuleError::Failed("stuck".into())));
    assert_eq!(failing.action(), ClimbAction::PutBack(Target::default()));
    let failing = failing.report(Ok(()));
    assert_eq!(failing.action(), ClimbAction::Finished);
    assert!(failing.result().unwrap().is_err());
    let done = climb.report(Ok(())).report(Ok(()));
    assert_eq!(done.action(), ClimbAction::Finished);
    assert!(done.result().unwrap().is_ok());
}

#[test]
fn the_targets_are_kept_by_card() {
    let mut targets = TargetMap::new();
    let a = Target { core_offset_mhz: 1, ..Target::default() };
    let b = Target { core_offset_mhz: 2, ..Target::default() };
    targets.insert("nvidia:1", a);
    targets.insert("nvidia:0", a);
    targets.insert("nvidia:1", b);
    assert_eq!(targets.len(), 2);
    assert_eq!(targets.at(0).gpu, "nvidia:0");
    assert_eq!(targets.get("nvidia:1"), Some(b));
    assert_eq!(targets.get("nvidia:2"), None);
}
