use pyren::error::{ErrorKind, ModuleError, Wording};
use pyren::power::auto::{AutoConfig, AutoInputs, Threshold};
use pyren::power::backend::{read_state, ApplyReport, BackendState, Readings};
use pyren::power::limits::{LimitPaths, Limits, LockSource, Tuning, TurboKnob, ZoneReading};
use pyren::power::mode::PowerMode;
use pyren::power::module::{
    apply_profile, boot_mode, call_named, highest, invalid_auto_config, percent_of,
    power_mode_available, read_mode_field, read_turbo_field, route, sane_stock, set_mode_reply,
    surface, Announcement, Announcer, Call, EnvelopeDone, ModeField, PowerConfig, PowerModule,
    Tuned, TuningRequest, TurboField, Watts,
};
use pyren::power::watch::{Knobs, Override};
use serde_json::Value;

/// Words for refusals, as a host would choose them.
fn words() -> Wording {
    Wording {
        invalid_params: "bad request: ".to_string(),
        unknown_method: "no such method: ".to_string(),
        unsupported: "not supported".to_string(),
        not_capable: "not possible: ".to_string(),
        permission_denied: "needs elevated privileges: ".to_string(),
        busy: "busy: ".to_string(),
        io: "I/O: ".to_string(),
        failed: String::new(),
        internal: "internal: ".to_string(),
    }
}

const W: u64 = 1_000_000;

fn millionths(value: f64) -> i64 {
    (value * 1e6).round() as i64
}

/// Watts of a request: nothing where they are not finite.
fn watts(value: f64) -> Option<i64> {
    if value.is_finite() {
        Some(millionths(value))
    } else {
        None
    }
}

fn object(fields: Vec<(&str, Value)>) -> Value {
    let mut map = serde_json::Map::new();
    for (name, value) in fields {
        map.insert(name.to_string(), value);
    }
    Value::Object(map)
}

fn bare_machine() -> BackendState {
    read_state(Readings {
        platform_profile: None,
        platform_profile_choices: None,
        power_profiles: None,
        tlp: None,
        auto_cpufreq: false,
        energy_preference: None,
        governor: None,
    })
}

fn module() -> PowerModule {
    PowerModule::new(stock(), Some(PowerMode::Balanced), Some("balanced".to_string()), 0)
}

fn stock() -> Limits {
    Limits { pl1_uw: Some(77 * W), pl2_uw: Some(77 * W), pl4_uw: Some(168 * W) }
}

/// The report of a mode that moved the firmware profile, or of one that moved
/// nothing.
fn report(applied: bool) -> ApplyReport {
    ApplyReport {
        applied: if applied { vec!["platform_profile=low-power".to_string()] } else { vec![] },
        failed: if applied { vec![] } else { vec!["platform_profile: denied".to_string()] },
        expected: Knobs { platform_profile: Some("low-power".to_string()), ..Knobs::default() },
        rolled_back: false,
    }
}

fn done(limits: Limits) -> EnvelopeDone {
    EnvelopeDone { applied: vec![], failed: vec![], limits, turbo: None, turbo_now: Some(true) }
}

// --- names ---------------------------------------------------------------

#[test]
fn the_wire_name_is_the_variant_in_lower_case() {
    for mode in PowerMode::all() {
        let lowered = format!("{mode:?}").to_lowercase();
        assert_eq!(lowered, mode.as_str(), "{mode:?}");
        assert_eq!(PowerMode::parse(mode.as_str()), Some(mode));
    }
}

#[test]
fn modes_parse_case_insensitively_and_reject_junk() {
    assert_eq!(PowerMode::parse("ECO"), Some(PowerMode::Eco));
    assert_eq!(PowerMode::parse("unlimited"), Some(PowerMode::Unlimited));
    assert_eq!(PowerMode::parse("turbo"), None);
}

/// The performance key steps through every mode and comes back round.
#[test]
fn the_modes_cycle_in_the_order_the_app_shows_them() {
    assert_eq!(PowerMode::Eco.next(), PowerMode::Balanced);
    assert_eq!(PowerMode::Balanced.next(), PowerMode::Performance);
    assert_eq!(PowerMode::Performance.next(), PowerMode::Unlimited);
    assert_eq!(PowerMode::Unlimited.next(), PowerMode::Eco);

    let mut seen = vec![PowerMode::Eco];
    while seen.len() < PowerMode::all().len() {
        seen.push(seen[seen.len() - 1].next());
    }
    assert_eq!(seen, PowerMode::all(), "every mode is reachable by pressing the key");
}

// --- the ceiling ---------------------------------------------------------

/// Reading the envelope at startup while Eco is in force would otherwise record
/// Eco's reduced limit as the machine's ceiling.
#[test]
fn a_capped_machine_does_not_become_its_own_new_ceiling() {
    let stored = Limits { pl1_uw: Some(77 * W), pl2_uw: Some(77 * W), pl4_uw: None };
    let while_capped = Limits { pl1_uw: Some(34 * W), pl2_uw: Some(42 * W), pl4_uw: None };

    assert_eq!(highest(Some(stored), while_capped), stored);
}

/// A value above what is on file can only have come from the firmware.
#[test]
fn a_higher_reading_replaces_the_recorded_stock() {
    let stored = Limits { pl1_uw: Some(45 * W), ..Default::default() };
    let observed = Limits { pl1_uw: Some(77 * W), pl4_uw: Some(168 * W), ..Default::default() };

    let merged = highest(Some(stored), observed);
    assert_eq!(merged.pl1_uw, Some(77 * W));
    assert_eq!(merged.pl4_uw, Some(168 * W), "a limit seen for the first time is recorded");
}

#[test]
fn a_stored_ceiling_no_machine_could_have_is_not_trusted() {
    let observed = Limits { pl1_uw: Some(45 * W), pl2_uw: Some(60 * W), pl4_uw: Some(168 * W) };
    let edited = Limits { pl1_uw: Some(200 * W), pl2_uw: Some(90_000 * W), pl4_uw: Some(400 * W) };
    assert_eq!(
        sane_stock(Some(edited), observed),
        Limits {
            // The absurd PL2 on file is dropped for the 60 W read now,
            // and the stored 200 W PL1 is lowered under it.
            pl1_uw: Some(60 * W),
            pl2_uw: Some(60 * W),
            pl4_uw: Some(168 * W),
        }
    );

    let crossed = Limits { pl1_uw: Some(90 * W), pl2_uw: Some(77 * W), pl4_uw: None };
    assert_eq!(
        sane_stock(Some(crossed), Limits::default()).pl1_uw,
        Some(77 * W),
        "PL1 above PL2 is lowered to it"
    );
}

#[test]
fn booting_on_battery_does_not_restore_a_mains_only_mode() {
    let config = PowerConfig::default();
    let battery = config.auto.preferred(true);
    assert_eq!(boot_mode(PowerMode::Unlimited, &config, Some(true)), battery);
    assert_eq!(boot_mode(PowerMode::Performance, &config, Some(true)), battery);
    assert_eq!(boot_mode(PowerMode::Performance, &config, Some(false)), PowerMode::Performance);
    assert_eq!(boot_mode(PowerMode::Eco, &config, Some(true)), PowerMode::Eco);
    assert_eq!(
        boot_mode(PowerMode::Unlimited, &config, None),
        PowerMode::Unlimited,
        "a desktop has no battery to protect"
    );
}

#[test]
fn the_os_profile_is_left_to_its_manager_unless_asked() {
    assert!(!PowerConfig::default().apply_to_os_profile);
    let stored = PowerConfig { apply_to_os_profile: true, ..PowerConfig::default() };
    let module = PowerModule::with_store(stored, stock(), None, None, 0);
    assert!(module.config.apply_to_os_profile, "a stored choice is kept");
    assert!(module.on_exit());
}

#[test]
fn watts_become_a_percentage_of_this_machines_own_limit() {
    assert_eq!(percent_of(watts(38.5), Some(77 * W)).unwrap(), 50);
    assert_eq!(percent_of(watts(77.0), Some(77 * W)).unwrap(), 100);
    assert_eq!(percent_of(watts(0.1), Some(77 * W)).unwrap(), 1);
}

#[test]
fn a_request_above_stock_is_capped_rather_than_refused() {
    assert_eq!(percent_of(watts(200.0), Some(77 * W)).unwrap(), 100);
}

#[test]
fn tuning_a_machine_with_no_power_limit_is_an_error_not_a_no_op() {
    assert!(percent_of(watts(30.0), None).is_err());
    assert!(percent_of(watts(-5.0), Some(77 * W)).is_err());
    assert!(percent_of(watts(f64::NAN), Some(77 * W)).is_err());
    assert_eq!(percent_of(watts(30.0), None).unwrap_err().kind(), ErrorKind::NotCapable);
    assert_eq!(
        percent_of(watts(-5.0), Some(77 * W)).unwrap_err().kind(),
        ErrorKind::InvalidParams
    );
}

// --- the envelope --------------------------------------------------------

/// A machine with no powercap still gets the half of the profile it does have.
#[test]
fn a_profile_on_a_machine_without_powercap_still_applies_the_os_half() {
    let mut module = PowerModule::new(Limits::default(), None, None, 0);
    assert_eq!(module.envelope_for(PowerMode::Eco), None, "nobody tuned it");
    let envelope = module.apply_envelope(PowerMode::Eco, done(Limits::default()));
    let report = apply_profile(report(true), envelope);

    assert!(!report.applied.iter().any(|a| a.starts_with("PL")));
    assert!(!report.applied.iter().any(|a| a.starts_with("turbo")));
    assert_eq!(report.applied, ["platform_profile=low-power"]);
}

#[test]
fn a_rolled_back_profile_does_not_get_the_envelope() {
    let back = ApplyReport { rolled_back: true, ..report(false) };
    let envelope = ApplyReport { applied: vec!["PL1=30W".to_string()], ..report(true) };
    let whole = apply_profile(back, envelope);
    assert!(whole.applied.is_empty() && whole.rolled_back);
}

fn tuning(mode: PowerMode, pl1: Watts, pl2: Watts, turbo: TurboField) -> TuningRequest {
    TuningRequest { mode: ModeField::Given(mode), pl1, pl2, turbo }
}

#[test]
fn a_tuned_mode_writes_its_envelope_and_the_next_one_puts_stock_back() {
    let mut module = module();
    let request =
        tuning(PowerMode::Eco, Watts::Given(watts(38.5)), Watts::Absent, TurboField::Given(false));
    let stored = module.set_tuning(&request, None).unwrap();
    assert_eq!(stored, Tuned::Stored { applies_now: false });
    assert_eq!(module.set_tuning(&request, None).unwrap(), Tuned::Unchanged);

    let half = Limits { pl1_uw: Some(38_500_000), ..stock() };
    assert_eq!(module.envelope_for(PowerMode::Eco), Some((half, false)));
    let written = EnvelopeDone {
        applied: vec!["PL1=38W".to_string()],
        turbo: Some(Ok("turbo=off".to_string())),
        turbo_now: Some(false),
        ..done(half)
    };
    let report = module.apply_envelope(PowerMode::Eco, written);
    assert_eq!(report.applied, ["PL1=38W", "turbo=off"]);
    assert_eq!(report.expected.limits, half);
    assert_eq!(report.expected.turbo, Some(false));
    assert!(module.config.envelope_owned);

    // Nobody tuned Balanced, but the machine still has Eco's envelope.
    assert_eq!(module.envelope_for(PowerMode::Balanced), Some((stock(), true)));
    let failed = EnvelopeDone { failed: vec!["PL1: denied".to_string()], ..done(half) };
    let report = module.apply_envelope(PowerMode::Balanced, failed);
    assert_eq!(report.expected.limits.pl1_uw, None, "what failed is not watched");
    assert_eq!(report.expected.limits.pl4_uw, Some(168 * W));

    let locked = EnvelopeDone { failed: vec!["PL: locked".to_string()], ..done(half) };
    let report = module.apply_envelope(PowerMode::Eco, locked);
    assert_eq!(report.expected.limits, Limits::default(), "none of them could be written");
    assert!(module.config.envelope_owned, "kept until stock is really back");
    module.apply_envelope(PowerMode::Balanced, done(stock()));
    assert!(!module.config.envelope_owned);
    assert_eq!(module.envelope_for(PowerMode::Balanced), None);
}

#[test]
fn every_refused_tuning_says_why_and_changes_nothing() {
    let given = |w: f64| Watts::Given(watts(w));
    let eco = |pl1, pl2, turbo| tuning(PowerMode::Eco, pl1, pl2, turbo);
    let cases = [
        (
            TuningRequest { mode: ModeField::Wrong, ..eco(given(30.0), Watts::Absent, TurboField::Absent) },
            None,
            "power.err.badMode",
        ),
        (eco(Watts::Wrong, Watts::Absent, TurboField::Absent), None, "power.err.wattsNumber"),
        (eco(Watts::Absent, Watts::Wrong, TurboField::Absent), None, "power.err.wattsNumber"),
        (
            eco(given(30.0), Watts::Absent, TurboField::Absent),
            Some(LockSource::Msr),
            "power.err.limitsLocked",
        ),
        (eco(given(30.0), Watts::Absent, TurboField::Wrong), None, "power.err.turboBool"),
        (eco(given(-1.0), Watts::Absent, TurboField::Absent), None, "power.err.wattsPositive"),
        (eco(given(f64::NAN), Watts::Absent, TurboField::Absent), None, "power.err.wattsPositive"),
        (eco(given(60.0), given(30.0), TurboField::Absent), None, "power.err.limitsCrossed"),
    ];
    for (request, locked, key) in cases {
        let mut module = module();
        match module.set_tuning(&request, locked) {
            Err(ModuleError::Localised { msg, .. }) => assert_eq!(msg.key, key),
            other => panic!("{key}: {other:?}"),
        }
        assert_eq!(module.config.tuning.get(PowerMode::Eco), Tuning::default_for(PowerMode::Eco));
    }
    // A lock says nothing about turbo alone, and the mode in force is meant
    // where none is named.
    let mut module = module();
    let request = TuningRequest {
        mode: ModeField::Absent,
        pl1: Watts::Absent,
        pl2: Watts::Absent,
        turbo: TurboField::Given(false),
    };
    let stored = module.set_tuning(&request, Some(LockSource::Sysfs)).unwrap();
    assert_eq!(stored, Tuned::Stored { applies_now: true });
    assert!(!module.config.tuning.get(PowerMode::Balanced).turbo);
}

// --- the announcements ---------------------------------------------------

#[test]
fn a_mode_change_is_announced_with_who_asked_for_it() {
    let mut announce = Announcer { listening: true, queue: Vec::new() };
    announce.publish(PowerMode::Performance, "hotkey");

    assert_eq!(announce.queue.len(), 1);
    assert_eq!(announce.queue[0].topic(), "power.mode");
    match &announce.queue[0] {
        Announcement::Mode { mode, source } => {
            assert_eq!(mode.as_str(), "performance");
            assert_eq!(source, "hotkey");
        }
        Announcement::Overridden(_) => panic!("a mode was published"),
    }
    let finding = Override {
        knob: "turbo".to_string(),
        expected: "off".to_string(),
        found: "on".to_string(),
        reverted: true,
    };
    announce.overridden(&finding);
    assert_eq!(announce.queue[1].topic(), "power.overridden");
}

#[test]
fn announcing_with_nobody_listening_does_nothing_at_all() {
    let mut announce = Announcer::default();
    announce.publish(PowerMode::Eco, "request");
    assert!(announce.queue.is_empty());
}

// --- the settings --------------------------------------------------------

#[test]
fn auto_config_survives_a_daemon_restart() {
    let mut first = module();
    let wanted = AutoConfig {
        enabled: true,
        load_high: Threshold::Millionths(millionths(0.42)),
        ..AutoConfig::default()
    };
    first.set_auto_config(wanted).expect("setAutoConfig should succeed");

    // A second module over the same settings stands in for a restart.
    let restarted = PowerModule::with_store(first.config, stock(), None, None, 0);
    assert!(restarted.config.auto.enabled);
    assert_eq!(restarted.config.auto.load_high, Threshold::Millionths(millionths(0.42)));
}

/// Turning the supervisor back on must not act on anything that happened while
/// it was off.
#[test]
fn switching_auto_back_on_starts_the_supervisor_from_scratch() {
    let mut module = module();
    let off = AutoConfig { enabled: false, ..AutoConfig::default() };
    module.set_auto_config(off).unwrap();
    module.pick(PowerMode::Unlimited, &report(true), 0);
    assert_eq!(module.manual_baseline(Some(false)), Some(PowerMode::Unlimited));

    let on = AutoConfig { enabled: true, ..off };
    module.set_auto_config(on).unwrap();

    assert_eq!(module.switcher.manual_baseline(&module.config.auto, false), None);
    assert_eq!(module.switcher.manual_baseline(&module.config.auto, true), None);
}

/// A config the supervisor cannot run on is refused, and the stored one is left
/// as it was.
#[test]
fn an_auto_config_with_crossed_thresholds_is_refused() {
    let mut module = module();
    let crossed = AutoConfig {
        load_low: Threshold::Millionths(millionths(0.9)),
        load_high: Threshold::Millionths(millionths(0.5)),
        ..AutoConfig::default()
    };
    assert!(module.set_auto_config(crossed).is_err());
    assert_eq!(module.config.auto.load_low, AutoConfig::default().load_low);

    let stored = PowerConfig {
        auto: AutoConfig { enabled: true, ..crossed },
        ..PowerConfig::default()
    };
    let restarted = PowerModule::with_store(stored, stock(), None, None, 0);
    assert!(!restarted.config.auto.enabled, "one on file is switched off");
    assert_eq!(
        invalid_auto_config("oops").to_text(&words()),
        "bad request: invalid auto config: oops"
    );
}

#[test]
fn restore_on_start_records_the_current_mode() {
    let mut module = module();
    module.set_restore_on_start(true);

    assert!(module.config.restore_mode_on_start);
    assert_eq!(module.config.mode, Some(PowerMode::Balanced));
    assert_eq!(module.restore_target(Some(true)), Some(PowerMode::Balanced));
    let response = module.saved_response();
    assert!(response.saved && response.restore_mode_on_start);

    module.saved(Err("disk full".to_string()));
    assert_eq!(module.saved_response().save_error.as_deref(), Some("disk full"));
    module.set_restore_on_start(false);
    assert_eq!(module.restore_target(Some(true)), None);
}

#[test]
fn a_bad_enabled_parameter_is_rejected() {
    let yes = object(vec![("enabled", Value::from("yes"))]);
    assert!(route("setRestoreOnStart", &yes).is_err());
    assert!(route("setApplyToOsProfile", &yes).is_err());
    let on = object(vec![("enabled", Value::from(true))]);
    assert_eq!(route("setRestoreOnStart", &on).unwrap(), Call::SetRestoreOnStart(true));
    assert_eq!(route("setApplyToOsProfile", &on).unwrap(), Call::SetApplyToOsProfile(true));
}

#[test]
fn every_power_method_is_known_by_name() {
    let eco = object(vec![("mode", Value::from("Eco"))]);
    assert_eq!(route("setMode", &eco).unwrap(), Call::SetMode(PowerMode::Eco));
    assert_eq!(route("getState", &Value::Null).unwrap(), Call::GetState);
    assert_eq!(route("setAutoConfig", &Value::Null).unwrap(), Call::SetAutoConfig);
    assert_eq!(route("setTuning", &Value::Null).unwrap(), Call::SetTuning);
    let bad = object(vec![("mode", Value::from("turbo"))]);
    assert_eq!(route("setMode", &bad).unwrap_err().kind(), ErrorKind::InvalidParams);
    assert_eq!(call_named("setMode", None, None).unwrap_err().kind(), ErrorKind::InvalidParams);
    assert_eq!(route("fly", &Value::Null).unwrap_err().kind(), ErrorKind::UnknownMethod);
}

#[test]
fn the_fields_of_a_tuning_are_told_apart() {
    let with = |name: &str, value: Value| object(vec![(name, value)]);
    assert_eq!(read_mode_field(&with("mode", Value::from("eco"))), ModeField::Given(PowerMode::Eco));
    assert_eq!(read_mode_field(&with("mode", Value::Null)), ModeField::Absent);
    assert_eq!(read_mode_field(&Value::Null), ModeField::Absent);
    assert_eq!(read_mode_field(&with("mode", Value::from("turbo"))), ModeField::Wrong);
    assert_eq!(read_mode_field(&with("mode", Value::from(3))), ModeField::Wrong);
    assert_eq!(read_turbo_field(&with("turbo", Value::from(true))), TurboField::Given(true));
    assert_eq!(read_turbo_field(&with("turbo", Value::Null)), TurboField::Absent);
    assert_eq!(read_turbo_field(&with("turbo", Value::from(1))), TurboField::Wrong);
}

#[test]
fn the_surface_shows_what_the_machine_offers() {
    assert!(!power_mode_available(&bare_machine()));
    let state = BackendState {
        platform_profile: Some("balanced".to_string()),
        available: vec!["platform_profile".to_string()],
        ..bare_machine()
    };
    assert!(power_mode_available(&state));
    let paths = LimitPaths {
        zone: Some("/sys/zone".to_string()),
        turbo: Some(TurboKnob::Boost("/sys/boost".to_string())),
        msr_root: None,
    };
    let zone = ZoneReading {
        names: vec![],
        limits: vec![Some("45000000\n".to_string())],
        present: vec![true],
        enabled: None,
        locked: None,
        msr: None,
    };
    let shown = surface(&state, &paths, &zone);
    assert_eq!(shown.mechanisms, ["platform_profile"]);
    assert_eq!(shown.limits.pl1_uw, Some(45 * W));
    assert!(shown.has_turbo);
}

// --- the supervisor ------------------------------------------------------

fn on_mains(load: f64) -> AutoInputs {
    AutoInputs::sample(Some(false), None, millionths(load), Some(millionths(60.0)))
}

#[test]
fn a_manual_choice_holds_the_supervisor_off_until_it_runs_out() {
    let mut module = module();
    let auto = AutoConfig {
        enabled: true,
        samples_to_switch: 1,
        manual_override_secs: 60,
        preferred_on_mains: PowerMode::Balanced,
        ..AutoConfig::default()
    };
    module.set_auto_config(auto).unwrap();
    module.pick(PowerMode::Performance, &report(true), 0);
    assert!(module.manual_override_active(59_999));
    assert_eq!(module.override_remaining(1_500), Some(58));
    assert!(module.supervise(on_mains(0.1), 10_000).is_none());
    assert!(!module.manual_override_active(60_000));
    assert_eq!(module.override_remaining(60_000), None);

    let decision = module.supervise(on_mains(0.1), 60_000).expect("idle, and nothing holds it");
    assert_eq!(decision.mode, PowerMode::Balanced);
    let (moved, persist) = module.supervise_done(decision, &report(true), 61_000);
    assert!(moved && !persist);
    assert_eq!(module.mode(), PowerMode::Balanced);
    assert_eq!(module.interval_secs(), 10);
}

#[test]
fn unplugging_is_answered_whatever_was_picked() {
    let mut module = module();
    module.set_auto_config(AutoConfig { enabled: true, ..AutoConfig::default() }).unwrap();
    module.supervise(on_mains(0.5), 0);
    module.pick(PowerMode::Unlimited, &report(true), 0);
    let unplugged =
        AutoInputs::sample(Some(true), Some(millionths(80.0)), millionths(0.9), None);
    let decision = module.supervise(unplugged, 1_000).expect("at once");
    assert!(decision.from_transition);
    assert_eq!(decision.mode, PowerMode::Eco);

    module.set_restore_on_start(true);
    let (moved, persist) = module.supervise_done(decision.clone(), &report(false), 1_500);
    assert!(!moved && !persist);
    assert_eq!(module.mode(), PowerMode::Unlimited, "nothing was applied");
    assert_eq!(
        module.last_auto_switch.as_ref().unwrap().text,
        "Eco failed: platform_profile: denied"
    );
    let (moved, persist) = module.supervise_done(decision, &report(true), 2_000);
    assert!(moved && persist);
    assert_eq!(module.config.mode, Some(PowerMode::Eco));
}

#[test]
fn a_mode_that_took_nothing_is_refused_in_the_mechanisms_words() {
    let err = set_mode_reply(&report(false)).unwrap_err();
    assert_eq!(err.kind(), ErrorKind::PermissionDenied);
    assert_eq!(
        err.to_text(&words()),
        "no power mechanism could be applied: platform_profile: denied"
    );
    assert!(set_mode_reply(&report(true)).is_ok());

    let mut module = module();
    assert!(!module.pick(PowerMode::Eco, &report(false), 5));
    assert_eq!(module.mode(), PowerMode::Balanced);
    assert_eq!(module.config.mode, None);
    assert!(module.reapply(false, &report(true), 6));
    assert_eq!(module.mode(), PowerMode::Balanced);
}

#[test]
fn a_restored_mode_is_taken_only_where_it_applied() {
    let mut module = module();
    module.restored(PowerMode::Eco, &report(false), 7);
    assert_eq!(module.mode(), PowerMode::Balanced);
    module.restored(PowerMode::Eco, &report(true), 7);
    assert_eq!(module.mode(), PowerMode::Eco);
    assert_eq!(module.expected.platform_profile.as_deref(), Some("low-power"));
}
