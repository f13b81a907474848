use std::collections::BTreeMap;

use pyren::power::limits::{
    locked, read, read_turbo, turbo_outcome, turbo_write, LimitPaths, LimitRun, Limits, LockSource,
    ModeTuning, Tuning, TurboKnob, Written, ZoneEntry, ZoneReading, FLOOR_UW, MAX_SANE_UW,
};
use pyren::power::mode::PowerMode;

const W: u64 = 1_000_000;

fn stock() -> Limits {
    Limits {
        pl1_uw: Some(77 * W),
        pl2_uw: Some(77 * W),
        pl4_uw: Some(168 * W),
    }
}

/// No mode ships an opinion about watts. Whose watts would they be?
#[test]
fn every_mode_starts_at_the_machines_own_envelope() {
    for mode in [
        PowerMode::Eco,
        PowerMode::Balanced,
        PowerMode::Performance,
        PowerMode::Unlimited,
    ] {
        assert_eq!(Tuning::default_for(mode).target(stock()), stock());
    }
}

/// Untouched to the last microwatt, however odd the firmware's number.
#[test]
fn an_odd_envelope_is_left_as_it_is() {
    let odd = Limits { pl1_uw: Some(77_000_050), pl2_uw: Some(99), pl4_uw: Some(u64::MAX) };
    for mode in PowerMode::all() {
        assert_eq!(Tuning::default_for(mode).target(odd), odd);
    }
}

#[test]
fn a_tuning_someone_set_is_a_fraction_of_that_envelope() {
    let measured = Tuning {
        pl1_percent: 45,
        pl2_percent: 55,
        turbo: false,
    };
    let target = measured.target(stock());

    assert_eq!(target.pl1_uw, Some(34 * W + 650_000));
    assert_eq!(target.pl4_uw, stock().pl4_uw, "PL4 stays at stock");
}

/// The whole point of the ceiling: raising a limit past what the
/// firmware shipped is overclocking, and is not something a mode does.
#[test]
fn nothing_may_ask_for_more_than_stock() {
    let greedy = Limits {
        pl1_uw: Some(200 * W),
        pl2_uw: Some(200 * W),
        pl4_uw: Some(500 * W),
    };
    assert_eq!(greedy.clamp_to_stock(stock()), stock());
}

#[test]
fn a_percentage_that_works_out_to_nothing_is_floored() {
    let tiny = Tuning {
        pl1_percent: 1,
        pl2_percent: 1,
        turbo: false,
    };
    let clamped = tiny.target(stock()).clamp_to_stock(stock());
    assert_eq!(clamped.pl1_uw, Some(FLOOR_UW));
}

/// A machine whose stock was never captured must not be written to at
/// all - there is nothing to be sure we are staying under.
#[test]
fn without_a_recorded_stock_value_nothing_is_commanded() {
    let target = Limits {
        pl1_uw: Some(30 * W),
        ..Default::default()
    };
    assert!(target.clamp_to_stock(Limits::default()).is_empty());
}

/// Turbo is a behaviour choice, not a measurement, so it is not one
/// this daemon makes for anyone either.
#[test]
fn no_mode_gives_up_turbo_unless_someone_says_so() {
    for mode in [
        PowerMode::Eco,
        PowerMode::Balanced,
        PowerMode::Performance,
        PowerMode::Unlimited,
    ] {
        assert!(Tuning::default_for(mode).turbo);
    }
}

#[test]
fn tuning_round_trips_through_the_mode_table() {
    let mut table = ModeTuning::default();
    let custom = Tuning {
        pl1_percent: 60,
        pl2_percent: 70,
        turbo: false,
    };
    table.set(PowerMode::Balanced, custom);

    assert_eq!(table.get(PowerMode::Balanced), custom);
    assert_eq!(
        table.get(PowerMode::Eco),
        Tuning::default_for(PowerMode::Eco)
    );
}

/// A package zone: its files by name.
struct Zone {
    files: BTreeMap<String, String>,
    msr: Option<u64>,
}

impl Zone {
    fn with(files: &[(&str, String)]) -> Zone {
        Zone {
            files: files.iter().map(|(name, held)| (name.to_string(), held.clone())).collect(),
            msr: None,
        }
    }

    fn reading(&self) -> ZoneReading {
        let file = |name: String| self.files.get(&name).cloned();
        ZoneReading {
            names: (0..8).map(|i| file(format!("constraint_{i}_name"))).collect(),
            limits: (0..8).map(|i| file(format!("constraint_{i}_power_limit_uw"))).collect(),
            present: (0..8)
                .map(|i| self.files.contains_key(&format!("constraint_{i}_power_limit_uw")))
                .collect(),
            enabled: file("enabled".to_string()),
            locked: file("locked".to_string()),
            msr: self.msr.map(u64::to_le_bytes),
        }
    }

    /// Writes a set of limits the way the firmware takes them, each through
    /// `keep`.
    fn apply_keeping(
        &mut self,
        paths: &LimitPaths,
        target: Limits,
        keep: impl Fn(u64) -> Written,
    ) -> (Vec<String>, Vec<String>) {
        let mut run = LimitRun::begin(paths, &self.reading(), target);
        while let Some(write) = run.next(&self.reading()) {
            let outcome = keep(write.value);
            if let Written::ReadBack(Some(now)) = outcome {
                self.files.insert(
                    format!("constraint_{}_power_limit_uw", write.constraint),
                    now.to_string(),
                );
            }
            run.record(write, outcome);
        }
        (run.applied, run.failed)
    }

    fn apply(&mut self, paths: &LimitPaths, target: Limits) -> (Vec<String>, Vec<String>) {
        self.apply_keeping(paths, target, |value| Written::ReadBack(Some(value)))
    }
}

fn zone_paths() -> LimitPaths {
    LimitPaths { zone: Some("/sys/zone".to_string()), turbo: None, msr_root: None }
}

/// Writing a limit the machine already holds is a no-op that, on an
/// unprivileged daemon, would be reported as a permission failure.
#[test]
fn a_limit_that_is_already_set_is_not_written_again() {
    let mut zone = Zone::with(&[("constraint_0_power_limit_uw", (45 * W).to_string())]);
    let paths = zone_paths();

    let (applied, failed) =
        zone.apply(&paths, Limits { pl1_uw: Some(45 * W), ..Default::default() });
    assert!(applied.is_empty() && failed.is_empty(), "nothing to do");

    let (applied, _) = zone.apply(&paths, Limits { pl1_uw: Some(30 * W), ..Default::default() });
    assert_eq!(applied, vec!["PL1=30W".to_string()]);
}

/// Constraints are found by name, so a zone that lists them in another
/// order gets each limit in its own slot - and one that has no peak
/// power constraint gets no PL4 written anywhere.
#[test]
fn limits_are_written_to_the_constraint_that_carries_their_name() {
    let mut zone = Zone::with(&[
        ("constraint_0_name", "short_term".to_string()),
        ("constraint_0_power_limit_uw", (90 * W).to_string()),
        ("constraint_1_name", "long_term".to_string()),
        ("constraint_1_power_limit_uw", (60 * W).to_string()),
    ]);
    let paths = zone_paths();

    assert_eq!(
        read(&paths, &zone.reading()),
        Limits { pl1_uw: Some(60 * W), pl2_uw: Some(90 * W), pl4_uw: None }
    );

    let (applied, failed) = zone.apply(
        &paths,
        Limits { pl1_uw: Some(40 * W), pl2_uw: Some(90 * W), pl4_uw: Some(150 * W) },
    );
    assert!(failed.is_empty(), "{failed:?}");
    assert_eq!(applied, vec!["PL1=40W".to_string()]);
    assert_eq!(zone.files["constraint_1_power_limit_uw"], (40 * W).to_string());
    assert!(!zone.files.contains_key("constraint_2_power_limit_uw"));
}

/// Firmware that set the MSR lock bit: the kernel would take the write
/// and change nothing, so nothing is written and the reason is said.
#[test]
fn a_locked_package_limit_is_reported_and_not_written() {
    let mut zone = Zone::with(&[("constraint_0_power_limit_uw", (45 * W).to_string())]);
    zone.msr = Some((1 << 63) | 0x00dd_8268);
    let paths = LimitPaths { msr_root: Some("/dev/cpu".to_string()), ..zone_paths() };

    assert_eq!(locked(&paths, &zone.reading()), Some(LockSource::Msr));
    let ask = Limits { pl1_uw: Some(30 * W), ..Default::default() };
    let (applied, failed) = zone.apply(&paths, ask);
    assert!(applied.is_empty());
    assert_eq!(failed.len(), 1);
    assert!(failed[0].contains("locked"), "{failed:?}");
    assert_eq!(zone.files["constraint_0_power_limit_uw"], (45 * W).to_string());

    // Already where it was asked to be: locked, but nothing to report.
    let (_, failed) = zone.apply(&paths, Limits { pl1_uw: Some(45 * W), ..Default::default() });
    assert!(failed.is_empty());

    // The lock bit clear is not a lock.
    zone.msr = Some(0x00dd_8268);
    assert_eq!(locked(&paths, &zone.reading()), None);
    // And a kernel attribute, where there is one, answers first.
    zone.files.insert("locked".to_string(), "1".to_string());
    assert_eq!(locked(&paths, &zone.reading()), Some(LockSource::Sysfs));
}

#[test]
fn a_missing_msr_device_is_not_a_lock() {
    let zone = Zone::with(&[]);
    let paths = LimitPaths { msr_root: Some("/dev/no-msr".to_string()), ..zone_paths() };
    assert_eq!(locked(&paths, &zone.reading()), None);
}

#[test]
fn a_disabled_zone_is_reported_rather_than_written() {
    let mut zone = Zone::with(&[
        ("enabled", "0".to_string()),
        ("constraint_0_power_limit_uw", (45 * W).to_string()),
    ]);

    let (applied, failed) =
        zone.apply(&zone_paths(), Limits { pl1_uw: Some(30 * W), ..Default::default() });
    assert!(applied.is_empty());
    assert_eq!(failed.len(), 1);
    assert_eq!(zone.files["constraint_0_power_limit_uw"], (45 * W).to_string());
}

#[test]
fn crossed_limits_are_lowered_into_order() {
    let crossed = Limits {
        pl1_uw: Some(90 * W),
        pl2_uw: Some(200 * W),
        pl4_uw: Some(150 * W),
    };
    assert_eq!(
        crossed.ordered(),
        Limits {
            pl1_uw: Some(90 * W),
            pl2_uw: Some(150 * W),
            pl4_uw: Some(150 * W),
        }
    );
    let sustained_above_boost = Limits {
        pl1_uw: Some(80 * W),
        pl2_uw: Some(60 * W),
        pl4_uw: None,
    };
    assert_eq!(sustained_above_boost.ordered().pl1_uw, Some(60 * W));
}

#[test]
fn an_absurd_limit_is_not_a_limit() {
    let absurd = Limits {
        pl1_uw: Some(9_000 * W),
        pl2_uw: Some(0),
        pl4_uw: Some(168 * W),
    };
    assert_eq!(
        absurd.without_absurd(),
        Limits {
            pl1_uw: None,
            pl2_uw: None,
            pl4_uw: Some(168 * W),
        }
    );
}

#[test]
fn only_the_shipped_tuning_counts_as_default() {
    assert!(Tuning::default_for(PowerMode::Eco).is_default());
    assert!(!Tuning {
        turbo: false,
        ..Tuning::default_for(PowerMode::Eco)
    }
    .is_default());
}

#[test]
fn a_machine_with_no_powercap_reads_nothing_and_writes_nothing() {
    let paths = LimitPaths::default();
    let mut zone = Zone::with(&[]);
    assert!(read(&paths, &zone.reading()).is_empty());
    assert_eq!(zone.apply(&paths, stock()), (Vec::new(), Vec::new()));
    assert!(turbo_write(&paths, None, true).is_none());
    assert_eq!(read_turbo(&paths, Some("1")), None);
    assert!(!paths.has_limits() && !paths.has_turbo());
}

#[test]
fn a_limit_the_firmware_changed_is_reported_as_it_reads() {
    let fresh = || Zone::with(&[("constraint_0_power_limit_uw", (45 * W).to_string())]);
    let ask = Limits { pl1_uw: Some(30 * W), ..Default::default() };
    let paths = zone_paths();

    let near = fresh().apply_keeping(&paths, ask, |v| Written::ReadBack(Some(v + W)));
    assert_eq!(near, (vec!["PL1=31W".to_string()], vec![]));
    let far = fresh().apply_keeping(&paths, ask, |_| Written::ReadBack(Some(45 * W)));
    assert_eq!(far.1, ["PL1: asked for 30W, the firmware kept 45W"]);
    let gone = fresh().apply_keeping(&paths, ask, |_| Written::ReadBack(None));
    assert_eq!(gone.1, ["PL1: unreadable after writing it"]);
    let no = fresh().apply_keeping(&paths, ask, |_| Written::Refused("denied".to_string()));
    assert_eq!(no.1, ["PL1: denied"]);
}

#[test]
fn the_package_zone_is_found_among_its_mirrors() {
    let entry = |name: &str, label: &str| ZoneEntry {
        path: format!("/sys/class/powercap/{name}"),
        name: name.to_string(),
        label: Some(label.to_string()),
    };
    let entries = vec![
        entry("intel-rapl-mmio:0", "package-0\n"),
        entry("intel-rapl:1", "package-1\n"),
        entry("intel-rapl:0:0", "core\n"),
        entry("intel-rapl:0", "package-0\n"),
    ];
    let found = LimitPaths::discover(
        &entries,
        Some("/sys/no_turbo".to_string()),
        Some("/sys/boost".to_string()),
        "/dev/cpu".to_string(),
    );
    assert_eq!(found.zone.as_deref(), Some("/sys/class/powercap/intel-rapl:0"));
    assert_eq!(found.turbo, Some(TurboKnob::NoTurbo("/sys/no_turbo".to_string())));
    let amd = LimitPaths::discover(&vec![], None, Some("/b".to_string()), "/dev/cpu".to_string());
    assert_eq!(amd.zone, None);
    assert_eq!(amd.turbo, Some(TurboKnob::Boost("/b".to_string())));
}

#[test]
fn the_two_turbo_knobs_have_opposite_polarity() {
    let no_turbo = LimitPaths {
        turbo: Some(TurboKnob::NoTurbo("/sys/no_turbo".to_string())),
        ..LimitPaths::default()
    };
    let boost = LimitPaths {
        turbo: Some(TurboKnob::Boost("/sys/boost".to_string())),
        ..LimitPaths::default()
    };
    assert_eq!(read_turbo(&no_turbo, Some("0\n")), Some(true));
    assert_eq!(read_turbo(&boost, Some("0\n")), Some(false));
    assert_eq!(turbo_write(&no_turbo, Some(true), false), Some("1"));
    assert_eq!(turbo_write(&boost, Some(true), false), Some("0"));
    assert_eq!(turbo_write(&boost, Some(true), true), None);
    assert_eq!(turbo_outcome(true, Ok(()), Some(true)), Ok("turbo=on".to_string()));
    assert_eq!(
        turbo_outcome(true, Ok(()), Some(false)),
        Err("turbo: asked for on, the CPU kept it off".to_string())
    );
    assert_eq!(
        turbo_outcome(false, Err("denied".to_string()), None),
        Err("turbo: denied".to_string())
    );
}

#[test]
fn a_limit_past_the_believable_is_dropped_at_the_edge() {
    let edge = Limits { pl1_uw: Some(MAX_SANE_UW), ..Default::default() };
    assert_eq!(edge.without_absurd(), edge);
    let past = Limits { pl1_uw: Some(MAX_SANE_UW + 1), ..Default::default() };
    assert!(past.without_absurd().is_empty());
}
