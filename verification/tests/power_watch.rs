use pyren::power::limits::Limits;
use pyren::power::mode::PowerMode;
use pyren::power::watch::{examine, Examined, Knobs, Override, FIGHT_WINDOW_MS};

const W: u64 = 1_000_000;
const LONG_AGO: u64 = 600_000;
const JUST_NOW: u64 = 2_000;

fn nothing_found() -> Examined {
    Examined { adopt: None, same_mode_profile: None, overrides: Vec::new() }
}

fn eco() -> Knobs {
    Knobs {
        platform_profile: Some("low-power".into()),
        energy_preference: Some("power".into()),
        turbo: Some(false),
        limits: Limits { pl1_uw: Some(40 * W), pl2_uw: Some(50 * W), pl4_uw: None },
    }
}

#[test]
fn a_machine_left_alone_has_nothing_to_report() {
    assert_eq!(examine(PowerMode::Eco, &eco(), &eco(), LONG_AGO), nothing_found());
}

/// Fn+P, the desktop's menu, TLP on a charger event: the machine is in
/// another mode now, and the daemon follows rather than calling it an
/// override - it happened long after the daemon's own write.
#[test]
fn a_firmware_profile_of_another_mode_is_followed() {
    let now = Knobs { platform_profile: Some("performance".into()), ..eco() };
    let found = examine(PowerMode::Eco, &eco(), &now, LONG_AGO);
    assert_eq!(found.adopt, Some((PowerMode::Performance, "performance".into())));
    assert!(found.overrides.is_empty(), "{:?}", found.overrides);
}

/// The same change seconds after the daemon's write is followed too -
/// it is where the machine is - but reported as a revert.
#[test]
fn a_firmware_profile_undone_straight_away_is_followed_and_reported() {
    let now = Knobs { platform_profile: Some("balanced".into()), ..eco() };
    let found = examine(PowerMode::Eco, &eco(), &now, JUST_NOW);
    assert_eq!(found.adopt, Some((PowerMode::Balanced, "balanced".into())));
    assert_eq!(found.overrides.len(), 1);
    assert!(found.overrides[0].reverted);
    assert_eq!(found.overrides[0].knob, "platform_profile");
}

#[test]
fn another_name_for_the_same_mode_is_not_a_change_of_mode() {
    let now = Knobs { platform_profile: Some("quiet".into()), ..eco() };
    let found = examine(PowerMode::Eco, &eco(), &now, JUST_NOW);
    assert_eq!(found.adopt, None);
    assert_eq!(found.same_mode_profile.as_deref(), Some("quiet"));
    assert!(found.overrides.is_empty());
}

#[test]
fn performance_while_in_unlimited_is_not_a_change_of_mode() {
    let expected = Knobs { platform_profile: Some("balanced-performance".into()), ..Knobs::default() };
    let now = Knobs { platform_profile: Some("performance".into()), ..Knobs::default() };
    let found = examine(PowerMode::Unlimited, &expected, &now, LONG_AGO);
    assert_eq!(found.adopt, None);
}

#[test]
fn a_firmware_profile_no_mode_maps_onto_is_reported_not_followed() {
    let now = Knobs { platform_profile: Some("custom".into()), ..eco() };
    let found = examine(PowerMode::Eco, &eco(), &now, LONG_AGO);
    assert_eq!(found.adopt, None);
    assert_eq!(found.overrides[0].found, "custom");
    assert!(!found.overrides[0].reverted);
}

/// The hint, turbo and the limits are reported and never followed:
/// they do not say which mode the machine is in.
#[test]
fn every_other_knob_changed_is_reported() {
    let now = Knobs {
        platform_profile: Some("low-power".into()),
        energy_preference: Some("balance_power".into()),
        turbo: Some(true),
        limits: Limits { pl1_uw: Some(40 * W), pl2_uw: Some(64_500_000), pl4_uw: Some(9 * W) },
    };
    let found = examine(PowerMode::Eco, &eco(), &now, JUST_NOW);
    assert_eq!(found.adopt, None);
    let knobs: Vec<_> = found.overrides.iter().map(|o| (o.knob.as_str(), o.found.as_str())).collect();
    assert_eq!(
        knobs,
        vec![("energy_performance_preference", "balance_power"), ("turbo", "on"), ("PL2", "64.5 W")],
        "PL4 was never the daemon's to watch"
    );
    assert!(found.overrides.iter().all(|o| o.reverted));
}

/// What the daemon never set is never watched - on a machine where TLP
/// owns the hint, TLP changing it is nobody's business here.
#[test]
fn knobs_the_daemon_did_not_set_are_not_watched() {
    let expected = Knobs { platform_profile: Some("balanced".into()), ..Knobs::default() };
    let now = Knobs {
        platform_profile: Some("balanced".into()),
        energy_preference: Some("power".into()),
        turbo: Some(false),
        limits: Limits { pl1_uw: Some(W), pl2_uw: Some(W), pl4_uw: Some(W) },
    };
    assert_eq!(examine(PowerMode::Balanced, &expected, &now, JUST_NOW), nothing_found());
}

#[test]
fn a_change_counts_as_undone_only_inside_the_window() {
    let now = Knobs { turbo: Some(true), ..eco() };
    for (since, reverted) in [(0, true), (FIGHT_WINDOW_MS, false), (FIGHT_WINDOW_MS - 1, true)] {
        let found = examine(PowerMode::Eco, &eco(), &now, since);
        assert_eq!(found.overrides.len(), 1);
        assert_eq!(found.overrides[0].reverted, reverted, "after {since} ms");
    }
}

/// Following a profile leaves nothing to follow the next time.
#[test]
fn a_followed_profile_is_not_followed_twice() {
    let now = Knobs { platform_profile: Some("performance".into()), ..eco() };
    let found = examine(PowerMode::Eco, &eco(), &now, LONG_AGO);
    let (mode, profile) = found.adopt.unwrap();
    let expected = Knobs { platform_profile: Some(profile), ..eco() };
    assert_eq!(examine(mode, &expected, &now, LONG_AGO), nothing_found());
}

#[test]
fn overrides_are_compared_by_everything_they_say() {
    let one = Override {
        knob: "turbo".into(),
        expected: "off".into(),
        found: "on".into(),
        reverted: false,
    };
    assert!(one.same_as(&one.copy()));
    assert!(!one.same_as(&Override { reverted: true, ..one.copy() }));
    assert!(!one.same_as(&Override { found: "off".into(), ..one.copy() }));
    assert_eq!(eco().copy().platform_profile.as_deref(), Some("low-power"));
}

/// A limit that falls between two decimals is shown as the double nearest to it
/// is written.
#[test]
fn watts_are_shown_with_one_decimal() {
    let said = |uw: u64| {
        let left = |uw: u64| {
            let limits = Limits { pl1_uw: Some(uw), ..Limits::default() };
            Knobs { limits, ..eco() }
        };
        let found = examine(PowerMode::Eco, &left(400 * W), &left(uw), LONG_AGO);
        assert_eq!(found.overrides.len(), 1);
        found.overrides[0].found.clone()
    };
    assert_eq!(said(45_150_000), format!("{:.1} W", 45.15));
    assert_eq!(said(45_150_000), "45.1 W");
    assert_eq!(said(45_250_000), "45.2 W");
    assert_eq!(said(45 * W), "45 W");
    for tenth in 0..2000u64 {
        let uw = 20 * W + tenth * 50_000 + 25_000;
        assert_eq!(said(uw), format!("{:.1} W", uw as f64 / 1_000_000.0));
        let uw = 20 * W + tenth * 100_000 + 50_000;
        assert_eq!(said(uw), format!("{:.1} W", uw as f64 / 1_000_000.0));
    }
    for uw in [1, 49_999, 50_000, 50_001, 9_007_199_254_740_993, u64::MAX] {
        assert_eq!(said(uw), format!("{:.1} W", uw as f64 / 1_000_000.0));
    }
}
