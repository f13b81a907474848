use pyren::power::backend::{
    apply, cpus_unreadable, current_mode, find_power_profiles, force_arg, forced_state,
    get_profile_args, is_cpu_name, parse_tlp_mode, parse_variant_string, pick_platform_profile,
    plan, printed, read_state, read_trimmed, release_auto_cpufreq, set_and_confirm,
    set_profile_args, succeeded, write_all_cpus, BackendState, BusReply, Confirmation, Readings,
    Search, Step, StepOutcome, Try,
};
use pyren::power::mode::PowerMode;

fn choices(values: &[&str]) -> Vec<String> {
    values.iter().map(|v| v.to_string()).collect()
}

#[test]
fn eco_prefers_low_power_when_offered() {
    let available = choices(&["low-power", "balanced", "performance"]);
    assert_eq!(pick_platform_profile(PowerMode::Eco, &available).unwrap(), "low-power");
}

#[test]
fn eco_falls_back_to_quiet_on_firmware_that_calls_it_that() {
    let available = choices(&["quiet", "balanced", "performance"]);
    assert_eq!(pick_platform_profile(PowerMode::Eco, &available).unwrap(), "quiet");
}

#[test]
fn unlimited_maps_onto_performance() {
    let available = choices(&["low-power", "balanced", "performance"]);
    assert_eq!(
        pick_platform_profile(PowerMode::Unlimited, &available).unwrap(),
        "performance"
    );
}

#[test]
fn a_firmware_offering_nothing_usable_yields_none() {
    assert_eq!(pick_platform_profile(PowerMode::Unlimited, &choices(&["custom"])), None);
}

/// A laptop with both mechanisms, which is the case the split exists
/// for: the firmware profile and the desktop's are different things.
fn full_machine() -> BackendState {
    BackendState {
        platform_profile: Some("balanced".into()),
        platform_profile_choices: choices(&["low-power", "balanced", "performance"]),
        power_profiles_daemon: Some("balanced".into()),
        tlp: None,
        auto_cpufreq: false,
        energy_preference: Some("balance_performance".into()),
        governor: Some("powersave".into()),
        available: choices(&["platform_profile", "power-profiles-daemon"]),
    }
}

/// The OS step is planned - and applied - before the firmware step,
/// on purpose: see the race documented on `plan` itself. This is the
/// assertion that would catch a well-meaning reordering.
#[test]
fn both_halves_are_applied_when_the_os_profile_is_wanted() {
    let (steps, problems) = plan(&full_machine(), PowerMode::Eco, true);

    assert_eq!(
        steps,
        vec![
            Step::PowerProfilesDaemon("power-saver"),
            Step::PlatformProfile("low-power".into()),
        ],
        "the firmware write must come last, so it wins any race with ppd's own driver"
    );
    assert!(problems.is_empty());
}

/// Saying no to the OS profile still changes the laptop's own, which is
/// the half that moves the fan curve.
#[test]
fn declining_the_os_profile_leaves_the_firmware_profile_alone() {
    let (steps, _) = plan(&full_machine(), PowerMode::Eco, false);
    assert_eq!(steps, vec![Step::PlatformProfile("low-power".into())]);
}

/// power-profiles-daemon already drives EPP; writing it ourselves on
/// top would be two things fighting over the same files.
#[test]
fn the_cpu_hint_is_only_used_where_there_is_no_daemon_to_delegate_to() {
    let no_ppd = BackendState { power_profiles_daemon: None, ..full_machine() };
    let (steps, _) = plan(&no_ppd, PowerMode::Eco, true);

    assert_eq!(
        steps,
        vec![Step::EnergyPreference("power"), Step::PlatformProfile("low-power".into())]
    );
}

/// Board 8D2F: no firmware profile at all, so the OS half is the whole
/// answer - and switching it off leaves nothing to do.
#[test]
fn a_machine_with_no_firmware_profile_has_only_the_os_half() {
    let no_firmware = BackendState {
        platform_profile: None,
        platform_profile_choices: Vec::new(),
        ..full_machine()
    };

    let (steps, _) = plan(&no_firmware, PowerMode::Eco, true);
    assert_eq!(steps, vec![Step::PowerProfilesDaemon("power-saver")]);

    let (steps, problems) = plan(&no_firmware, PowerMode::Eco, false);
    assert!(steps.is_empty() && problems.is_empty(), "nothing to do is not a failure");
}

/// TLP without tlp-pd: no power-profiles API, so TLP is asked in its
/// own terms - and the hint is left to it, since TLP would rewrite it
/// on the next charger event anyway.
#[test]
fn tlp_is_asked_directly_where_nothing_serves_the_profiles_api() {
    let tlp = BackendState {
        power_profiles_daemon: None,
        tlp: Some("balanced".into()),
        ..full_machine()
    };
    let (steps, _) = plan(&tlp, PowerMode::Eco, true);
    assert_eq!(
        steps,
        vec![Step::Tlp("power-saver"), Step::PlatformProfile("low-power".into())]
    );
}

/// tlp-pd is TLP behind the D-Bus API; asking both would apply TLP's
/// whole profile twice.
#[test]
fn the_profiles_api_wins_over_tlp() {
    let both = BackendState { tlp: Some("balanced".into()), ..full_machine() };
    let (steps, _) = plan(&both, PowerMode::Performance, true);
    assert!(steps.contains(&Step::PowerProfilesDaemon("performance")));
    assert!(!steps.iter().any(|s| matches!(s, Step::Tlp(_))));
}

/// auto-cpufreq rewrites the governor and EPP every few seconds, so it
/// is told alongside whatever else is here, and the hint is never
/// written underneath it. Balanced hands control back to it.
#[test]
fn auto_cpufreq_is_told_whatever_else_is_running() {
    let auto = BackendState {
        power_profiles_daemon: None,
        tlp: Some("balanced".into()),
        auto_cpufreq: true,
        ..full_machine()
    };
    let (steps, _) = plan(&auto, PowerMode::Eco, true);
    assert_eq!(
        steps,
        vec![
            Step::Tlp("power-saver"),
            Step::AutoCpufreq("powersave"),
            Step::PlatformProfile("low-power".into()),
        ]
    );

    let alone = BackendState { tlp: None, ..auto };
    let (steps, _) = plan(&alone, PowerMode::Balanced, true);
    assert_eq!(
        steps,
        vec![Step::AutoCpufreq("reset"), Step::PlatformProfile("balanced".into())]
    );
}

#[test]
fn tlp_stat_mode_is_read_as_a_profile_or_not_at_all() {
    assert_eq!(parse_tlp_mode("balanced/BAT\n").as_deref(), Some("balanced"));
    assert_eq!(parse_tlp_mode("power-saver/SAV (manual)\n").as_deref(), Some("power-saver"));
    assert_eq!(parse_tlp_mode("performance/AC (default)").as_deref(), Some("performance"));
    // TLP before 1.8, and a TLP that has not run this boot.
    assert_eq!(parse_tlp_mode("AC\n"), None);
    assert_eq!(parse_tlp_mode("unknown\n"), None);
    assert_eq!(parse_tlp_mode(""), None);
}

#[test]
fn a_busctl_string_variant_is_unwrapped() {
    assert_eq!(parse_variant_string("v s \"power-saver\"\n").as_deref(), Some("power-saver"));
    assert_eq!(parse_variant_string("b true"), None);
    assert_eq!(parse_variant_string("v s \"\""), None);
}

// --- reading the machine -------------------------------------------------

fn nothing() -> Readings {
    Readings {
        platform_profile: None,
        platform_profile_choices: None,
        power_profiles: None,
        tlp: None,
        auto_cpufreq: false,
        energy_preference: None,
        governor: None,
    }
}

#[test]
fn an_attribute_is_trimmed_and_an_empty_one_is_none() {
    assert_eq!(read_trimmed(&Some(" balanced\n".to_string())).as_deref(), Some("balanced"));
    assert_eq!(read_trimmed(&Some(" \n".to_string())), None);
    assert_eq!(read_trimmed(&None), None);
}

#[test]
fn the_state_lists_what_could_be_used() {
    let state = read_state(Readings {
        platform_profile: Some("balanced\n".to_string()),
        platform_profile_choices: Some("low-power balanced performance\n".to_string()),
        power_profiles: Some("performance".to_string()),
        tlp: Some("balanced/AC\n".to_string()),
        auto_cpufreq: true,
        energy_preference: Some("power\n".to_string()),
        governor: Some("powersave\n".to_string()),
    });
    assert_eq!(state.platform_profile.as_deref(), Some("balanced"));
    assert_eq!(state.platform_profile_choices, ["low-power", "balanced", "performance"]);
    assert_eq!(state.tlp, None, "whatever serves the API is not asked a second time");
    assert_eq!(state.available[0], "platform_profile");
    assert!(state.available.contains(&"auto-cpufreq".to_string()));

    let tlp = read_state(Readings { tlp: Some("balanced/AC\n".to_string()), ..nothing() });
    assert_eq!(tlp.tlp.as_deref(), Some("balanced"));
    assert_eq!(tlp.available, ["tlp"]);

    let bare = read_state(nothing());
    assert!(bare.available.is_empty());
    assert_eq!(current_mode(&bare), None);
}

#[test]
fn the_current_mode_is_the_firmware_profiles() {
    let mut state = full_machine();
    state.platform_profile = Some("low-power".to_string());
    assert_eq!(current_mode(&state), Some(PowerMode::Eco));
    state.platform_profile = None;
    state.power_profiles_daemon = Some("performance".to_string());
    assert_eq!(current_mode(&state), Some(PowerMode::Performance));
}

#[test]
fn auto_cpufreq_is_let_go_only_where_it_runs() {
    assert_eq!(release_auto_cpufreq(&full_machine()), None);
    let state = BackendState { auto_cpufreq: true, ..full_machine() };
    assert_eq!(release_auto_cpufreq(&state), Some(Step::AutoCpufreq("reset")));
}

#[test]
fn the_firmware_profile_is_always_the_last_step() {
    for m in PowerMode::all() {
        for os_profile in [false, true] {
            let (steps, _) = plan(&full_machine(), m, os_profile);
            let place = steps.iter().position(|s| matches!(s, Step::PlatformProfile(_)));
            assert_eq!(place, Some(steps.len() - 1));
        }
    }
}

// --- applying ------------------------------------------------------------

fn told(result: Result<usize, String>) -> StepOutcome {
    StepOutcome { result, hint: Some("power".to_string()) }
}

#[test]
fn every_step_is_reported_as_it_went() {
    let steps = vec![
        Step::EnergyPreference("power"),
        Step::Tlp("power-saver"),
        Step::PlatformProfile("low-power".to_string()),
    ];
    let outcomes = vec![told(Ok(8)), told(Err("no such tool".to_string())), told(Ok(0))];
    let report = apply(&steps, Vec::new(), &outcomes, Some("low-power".to_string()));
    assert_eq!(
        report.applied,
        ["energy_performance_preference=power (8 cpus)", "platform_profile=low-power"]
    );
    assert_eq!(report.failed, ["tlp: no such tool"]);
    assert_eq!(report.expected.energy_preference.as_deref(), Some("power"));
    assert_eq!(report.expected.platform_profile.as_deref(), Some("low-power"));
    assert!(!report.is_empty() && !report.rolled_back);

    let problems = vec!["nothing fits".to_string()];
    let none = apply(&Vec::new(), problems, &Vec::new(), None);
    assert!(none.is_empty());
    assert_eq!(none.failed, ["nothing fits"]);
}

#[test]
fn the_hint_is_expected_only_where_it_was_written() {
    let steps = vec![Step::EnergyPreference("power")];
    let report = apply(&steps, Vec::new(), &vec![told(Err("denied".to_string()))], None);
    assert_eq!(report.expected.energy_preference, None);
    assert_eq!(report.failed, ["energy_performance_preference: denied"]);
}

// --- the power managers --------------------------------------------------

#[test]
fn the_bus_is_never_asked_to_start_anything() {
    for api in [0, 1] {
        for args in [get_profile_args(api), set_profile_args(api, "balanced")] {
            assert!(args.iter().any(|a| a == "--auto-start=no"), "{args:?}");
            assert!(args.iter().any(|a| a == "ActiveProfile"));
        }
    }
    let set = set_profile_args(0, "balanced");
    assert_eq!(&set[set.len() - 2..], ["s".to_string(), "balanced".to_string()]);
    assert_ne!(get_profile_args(0), get_profile_args(1));
}

#[test]
fn both_names_are_asked_before_the_service_counts_as_absent() {
    assert_eq!(find_power_profiles(&vec![]), Search::Ask(0));
    assert_eq!(find_power_profiles(&vec![BusReply::NotInstalled]), Search::Cli);
    assert_eq!(find_power_profiles(&vec![BusReply::Broken]), Search::Absent);
    assert_eq!(find_power_profiles(&vec![BusReply::Refused]), Search::Ask(1));
    assert_eq!(
        find_power_profiles(&vec![BusReply::Refused, BusReply::Refused]),
        Search::Absent
    );
    let said = BusReply::Said("v s \"balanced\"\n".to_string());
    assert_eq!(
        find_power_profiles(&vec![BusReply::Refused, said]),
        Search::Found(1, "balanced".to_string())
    );
}

#[test]
fn a_manager_is_asked_again_once_and_then_given_up_on() {
    let tried = |seen: Option<&str>| Try { request: Ok(()), seen: seen.map(str::to_string) };
    let settled = |tries: Vec<Try>| match set_and_confirm("tlp", "balanced", &tries) {
        Confirmation::Ask => None,
        Confirmation::Settled(result) => Some(result),
    };
    assert_eq!(settled(vec![]), None);
    assert_eq!(settled(vec![tried(Some("balanced"))]), Some(Ok(())));
    assert_eq!(settled(vec![tried(Some("performance"))]), None);
    assert_eq!(settled(vec![tried(None), tried(Some("balanced"))]), Some(Ok(())));
    assert_eq!(
        settled(vec![tried(None), tried(Some("performance"))]),
        Some(Err("asked for balanced, tlp settled on performance (tried 2 times)".to_string()))
    );
    assert_eq!(
        settled(vec![tried(None), tried(None)]),
        Some(Err("asked for balanced, tlp did not answer afterwards (tried 2 times)".to_string()))
    );
    let refused = Try { request: Err("denied".to_string()), seen: None };
    assert_eq!(settled(vec![refused]), Some(Err("denied".to_string())));
}

#[test]
fn a_failed_command_speaks_in_its_own_words() {
    let s = |t: &str| t.to_string();
    assert_eq!(succeeded(true, s("noise"), s(""), "exit status: 0"), Ok(()));
    assert_eq!(succeeded(false, s(" bad\n"), s("out"), "x"), Err(s("bad")));
    assert_eq!(succeeded(false, s("\n"), s(" out "), "x"), Err(s("out")));
    assert_eq!(succeeded(false, s(""), s(""), "1"), Err(s("exited with 1")));
    assert_eq!(printed(true, s(" balanced\n")).as_deref(), Some("balanced"));
    assert_eq!(printed(false, s("balanced")), None);
    assert_eq!(printed(true, s(" ")), None);
}

#[test]
fn auto_cpufreq_is_forced_and_reset() {
    assert_eq!(force_arg("powersave"), "--force=powersave");
    assert_eq!(forced_state("powersave"), "powersave");
    assert_eq!(forced_state("reset"), "default");
}

// --- the CPUs ------------------------------------------------------------

#[test]
fn only_a_failure_on_every_cpu_is_a_failure() {
    let no = || Err("denied".to_string());
    assert_eq!(write_all_cpus(&vec![Ok(()), no(), Ok(())]), Ok(2));
    assert_eq!(write_all_cpus(&vec![Err("first".to_string()), no()]), no().map(|_: ()| 0));
    assert_eq!(write_all_cpus(&vec![]), Err("no cpu exposes this attribute".to_string()));
    assert!(is_cpu_name("cpu0") && is_cpu_name("cpu12"));
    assert!(!is_cpu_name("cpufreq") && !is_cpu_name("online"));
    assert_eq!(cpus_unreadable("/sys/cpu"), "/sys/cpu is unreadable");
}
