use pyren::power::auto::{
    load_ratio, refine, AutoConfig, AutoDecision, AutoInputs, AutoSwitcher, Baseline, HeatLatch,
    Sensors, Threshold, Why,
};
use pyren::power::mode::{mode_for_profile, PowerMode};
use pyren::power::supply::{PowerSupplyState, SupplyEntry};

/// A decimal in whole millionths.
fn millionths(value: f64) -> i64 {
    (value * 1e6).round() as i64
}

fn config() -> AutoConfig {
    AutoConfig {
        enabled: true,
        samples_to_switch: 3,
        ..AutoConfig::default()
    }
}

/// A comfortable machine: 60 C is well below `temp_low_c`, so the
/// thermal rule is inert in every test that does not opt into it.
fn inputs(on_battery: Option<bool>, load_ratio: f64) -> AutoInputs {
    AutoInputs {
        on_battery,
        load_ratio: millionths(load_ratio),
        battery_percent: Some(millionths(80.0)),
        temp_c: Some(millionths(60.0)),
    }
}

fn at(temp_c: f64, on_battery: bool, load_ratio: f64) -> AutoInputs {
    AutoInputs {
        temp_c: Some(millionths(temp_c)),
        ..inputs(Some(on_battery), load_ratio)
    }
}

/// What `refine` points at with the configured preference as the
/// baseline, without the reason.
fn target(
    inputs: AutoInputs,
    config: &AutoConfig,
    on_battery: bool,
    hot: bool,
    current: PowerMode,
) -> Option<PowerMode> {
    let baseline = Baseline {
        mode: config.preferred(on_battery),
        manual: false,
    };
    refine(inputs, config, on_battery, hot, baseline, current).map(|(mode, _)| mode)
}

/// Feeds the same sample until the switcher acts, and returns what it
/// did - or `None` if `ticks` samples were not enough.
fn run(
    switcher: &mut AutoSwitcher,
    sample: AutoInputs,
    config: &AutoConfig,
    current: PowerMode,
    ticks: usize,
) -> Option<AutoDecision> {
    (0..ticks).find_map(|_| switcher.observe(sample, config, current))
}

/// Settles the switcher's idea of the power source without producing a
/// transition, the way the first tick after startup does.
fn settled(on_battery: bool) -> AutoSwitcher {
    let mut switcher = AutoSwitcher::default();
    switcher.observe(
        inputs(Some(on_battery), 0.5),
        &config(),
        PowerMode::Balanced,
    );
    // Only the power source is being settled, not a half-counted
    // refinement that sample may have started.
    switcher.reset();
    switcher
}

#[test]
fn unplugging_drops_to_the_preferred_battery_mode_immediately() {
    let mut switcher = settled(false);
    let decision = switcher
        .observe(inputs(Some(true), 0.5), &config(), PowerMode::Performance)
        .expect("a source change is answered at once");

    assert_eq!(
        decision.mode,
        PowerMode::Eco,
        "Eco is the default home on battery"
    );
    assert!(decision.from_transition);

    let balanced = AutoConfig {
        preferred_on_battery: PowerMode::Balanced,
        ..config()
    };
    let mut switcher = settled(false);
    let decision = switcher
        .observe(inputs(Some(true), 0.5), &balanced, PowerMode::Performance)
        .unwrap();
    assert_eq!(decision.mode, PowerMode::Balanced);
}

#[test]
fn plugging_in_steps_up_to_performance_immediately() {
    let mut switcher = settled(true);
    let decision = switcher
        .observe(inputs(Some(false), 0.1), &config(), PowerMode::Eco)
        .expect("a source change is answered at once");

    assert_eq!(decision.mode, PowerMode::Performance);
    assert!(decision.from_transition);
}

/// The first sample must not look like the user just plugged in.
#[test]
fn the_first_sample_after_startup_is_not_a_transition() {
    let mut switcher = AutoSwitcher::default();
    let decision = switcher.observe(inputs(Some(false), 0.5), &config(), PowerMode::Balanced);
    assert_eq!(decision, None);
}

#[test]
fn an_idle_machine_on_battery_refines_from_balanced_down_to_eco() {
    let mut switcher = settled(true);
    let idle = inputs(Some(true), 0.05);

    assert_eq!(switcher.observe(idle, &config(), PowerMode::Balanced), None);
    assert_eq!(switcher.observe(idle, &config(), PowerMode::Balanced), None);
    let decision = switcher
        .observe(idle, &config(), PowerMode::Balanced)
        .unwrap();

    assert_eq!(decision.mode, PowerMode::Eco);
    assert!(!decision.from_transition, "a refinement, not an event");
}

#[test]
fn an_idle_machine_on_mains_comes_back_down_to_balanced() {
    let mut switcher = settled(false);
    let idle = inputs(Some(false), 0.05);
    for _ in 0..2 {
        switcher.observe(idle, &config(), PowerMode::Performance);
    }
    let decision = switcher
        .observe(idle, &config(), PowerMode::Performance)
        .unwrap();

    assert_eq!(decision.mode, PowerMode::Balanced);
}

/// The ranges do not overlap at the top on battery: no amount of load
/// justifies Performance off a battery.
#[test]
fn load_on_battery_never_reaches_performance() {
    let mut switcher = settled(true);
    let busy = inputs(Some(true), 0.99);
    for _ in 0..10 {
        if let Some(decision) = switcher.observe(busy, &config(), PowerMode::Eco) {
            assert_eq!(decision.mode, PowerMode::Balanced);
            return;
        }
    }
    panic!("a busy machine on battery should still climb to Balanced");
}

#[test]
fn a_low_battery_asks_for_eco_however_busy_the_machine_is() {
    let flat = AutoInputs {
        battery_percent: Some(millionths(12.0)),
        ..inputs(Some(true), 0.99)
    };
    assert_eq!(
        target(flat, &config(), true, false, PowerMode::Balanced),
        Some(PowerMode::Eco)
    );
}

/// The rule this exists for: a machine that is busy *and* hot gets the
/// quiet end, not the fast one. Heat and load always arrive together -
/// the machine is hot because it is working - so if load won here the
/// thermal rule would never fire at all.
#[test]
fn heat_outranks_load() {
    let busy_and_hot = at(90.0, false, 0.99);
    let current = PowerMode::Performance;
    assert_eq!(
        target(busy_and_hot, &config(), false, true, current),
        Some(PowerMode::Balanced)
    );
    assert_eq!(
        target(busy_and_hot, &config(), false, false, PowerMode::Balanced),
        Some(PowerMode::Performance),
        "the same sample with the latch cool is an ordinary busy machine"
    );
}

/// Two thresholds, not one. A single 85 C line would step down, watch
/// the fans win back one degree, step up into the same wall, and do it
/// again for as long as the load lasted.
#[test]
fn the_heat_latch_holds_until_the_machine_has_actually_cooled() {
    let mut latch = HeatLatch::default();
    assert!(!latch.observe(Some(millionths(84.0)), &config()));
    assert!(
        latch.observe(Some(millionths(85.0)), &config()),
        "at the threshold, not past it"
    );
    assert!(
        latch.observe(Some(millionths(80.0)), &config()),
        "still hot inside the dead band"
    );
    assert!(
        latch.observe(Some(millionths(76.0)), &config()),
        "and at the bottom of it"
    );
    assert!(
        !latch.observe(Some(millionths(75.0)), &config()),
        "cool again only below temp_low_c"
    );
}

/// A machine with no sensor is not a cold machine - but it is not a hot
/// one either, and the rule simply never fires there.
#[test]
fn a_machine_with_no_sensor_never_becomes_hot() {
    let mut latch = HeatLatch::default();
    for _ in 0..5 {
        assert!(!latch.observe(None, &config()));
    }
}

/// ...and losing the sensor mid-run is not evidence of cooling. The
/// last thing this machine said was 90 C; a driver unloading does not
/// change that.
#[test]
fn losing_the_sensor_does_not_cool_a_hot_machine() {
    let mut latch = HeatLatch::default();
    assert!(latch.observe(Some(millionths(90.0)), &config()));
    assert!(latch.observe(None, &config()), "no reading is no news");
}

/// The whole rule is switchable, and off it changes nothing at all.
#[test]
fn a_user_who_turned_the_thermal_rule_off_keeps_their_performance_mode() {
    let cool_headed = AutoConfig {
        back_off_when_hot: false,
        ..config()
    };
    assert_eq!(
        target(
            at(95.0, false, 0.99),
            &cool_headed,
            false,
            true,
            PowerMode::Balanced
        ),
        Some(PowerMode::Performance)
    );
}

/// End to end through the switcher, which is where the latch actually
/// lives: three agreeing samples and the reason names the temperature.
#[test]
fn a_hot_machine_steps_down_and_says_why() {
    let mut switcher = settled(false);
    let hot = at(92.0, false, 0.99);

    assert_eq!(
        switcher.observe(hot, &config(), PowerMode::Performance),
        None
    );
    assert_eq!(
        switcher.observe(hot, &config(), PowerMode::Performance),
        None
    );
    let decision = switcher
        .observe(hot, &config(), PowerMode::Performance)
        .unwrap();

    assert_eq!(decision.mode, PowerMode::Balanced);
    assert!(!decision.from_transition);
    assert_eq!(decision.reason.key, "power.autoReason.hot");
    assert!(
        decision.reason.text.contains("92"),
        "{}",
        decision.reason.text
    );
}

/// The latch is updated on every tick, including the ones that return
/// early. A machine that got hot while unplugged must not come back
/// from the transition believing it is cool.
#[test]
fn the_latch_is_updated_even_on_a_tick_that_answers_a_transition() {
    let mut switcher = settled(false);
    let decision = switcher.observe(at(92.0, true, 0.99), &config(), PowerMode::Performance);
    assert!(decision.is_some_and(|d| d.from_transition));
    assert!(
        switcher.is_hot(),
        "the transition tick still read the sensor"
    );
}

/// Taking over by hand is an opinion about the mode, not about the
/// temperature.
#[test]
fn a_manual_override_does_not_clear_the_heat_latch() {
    let mut switcher = settled(false);
    switcher.observe(at(92.0, false, 0.99), &config(), PowerMode::Performance);
    switcher.reset();
    assert!(switcher.is_hot());
}

/// Nothing the supervisor does may arrive at Unlimited.
#[test]
fn refinement_never_selects_unlimited() {
    for on_battery in [true, false] {
        for load in [0.0, 0.5, 1.0, 4.0] {
            for hot in [false, true] {
                for current in [PowerMode::Eco, PowerMode::Balanced, PowerMode::Performance] {
                    for manual in [false, true] {
                        let baseline = Baseline {
                            mode: current,
                            manual,
                        };
                        let decided = refine(
                            inputs(Some(on_battery), load),
                            &config(),
                            on_battery,
                            hot,
                            baseline,
                            current,
                        );
                        assert_ne!(decided.map(|(m, _)| m), Some(PowerMode::Unlimited));
                    }
                }
            }
        }
    }
}

/// Not even where the user picked Unlimited and the machine left it since.
#[test]
fn a_hand_picked_unlimited_is_not_arrived_at_again() {
    for load in [0.0, 0.4, 0.5, 0.6, 0.99] {
        for current in [PowerMode::Eco, PowerMode::Balanced, PowerMode::Performance] {
            let mut switcher = settled(false);
            switcher.adopt(PowerMode::Unlimited);
            for _ in 0..5 {
                let decided = switcher.observe(inputs(Some(false), load), &config(), current);
                assert_ne!(decided.map(|d| d.mode), Some(PowerMode::Unlimited));
            }
        }
    }
    let mut switcher = settled(false);
    switcher.adopt(PowerMode::Unlimited);
    let busy = inputs(Some(false), 0.99);
    switcher.observe(busy, &config(), PowerMode::Balanced);
    switcher.observe(busy, &config(), PowerMode::Balanced);
    let decided = switcher.observe(busy, &config(), PowerMode::Balanced);
    assert_eq!(decided.unwrap().mode, PowerMode::Performance, "as far as load takes it");
}

/// ...and a user who chose Unlimited keeps it while nothing physical
/// changes.
#[test]
fn a_machine_left_in_unlimited_is_not_refined_out_of_it() {
    let mut switcher = settled(false);
    let idle = inputs(Some(false), 0.0);
    for _ in 0..10 {
        assert_eq!(
            switcher.observe(idle, &config(), PowerMode::Unlimited),
            None
        );
    }
}

/// ...but unplugging still moves it, because that is a deliberate act
/// and a laptop running unlimited off a battery is not what was meant.
#[test]
fn unplugging_does_move_a_machine_out_of_unlimited() {
    let mut switcher = settled(false);
    let decision = switcher
        .observe(inputs(Some(true), 0.5), &config(), PowerMode::Unlimited)
        .unwrap();

    assert_eq!(decision.mode, PowerMode::Eco);
}

#[test]
fn the_dead_band_between_the_thresholds_produces_no_opinion() {
    let middling = inputs(Some(false), 0.5);
    assert_eq!(
        target(middling, &config(), false, false, PowerMode::Performance),
        None
    );
}

#[test]
fn a_disabled_system_does_nothing_for_its_own_power_source() {
    let off = AutoConfig {
        eco_on_battery: false,
        ..config()
    };
    let mut switcher = settled(false);

    // Unplugging with the Eco system off is not answered...
    assert_eq!(
        switcher.observe(inputs(Some(true), 0.5), &off, PowerMode::Performance),
        None
    );
    // ...and neither is idling on battery.
    let idle = inputs(Some(true), 0.0);
    for _ in 0..5 {
        assert_eq!(switcher.observe(idle, &off, PowerMode::Balanced), None);
    }
}

#[test]
fn a_desktop_with_no_battery_is_treated_as_being_on_mains() {
    let mut switcher = AutoSwitcher::default();
    let busy = AutoInputs {
        on_battery: None,
        load_ratio: millionths(0.9),
        battery_percent: None,
        temp_c: Some(millionths(60.0)),
    };
    for _ in 0..2 {
        switcher.observe(busy, &config(), PowerMode::Balanced);
    }
    let decision = switcher
        .observe(busy, &config(), PowerMode::Balanced)
        .unwrap();

    assert_eq!(decision.mode, PowerMode::Performance);
}

#[test]
fn a_refinement_that_is_already_in_force_is_not_re_applied() {
    let mut switcher = settled(true);
    let idle = inputs(Some(true), 0.0);
    for _ in 0..5 {
        assert_eq!(switcher.observe(idle, &config(), PowerMode::Eco), None);
    }
}

// --- Preferred modes -------------------------------------------------

fn preferring(battery: PowerMode, mains: PowerMode) -> AutoConfig {
    AutoConfig {
        preferred_on_battery: battery,
        preferred_on_mains: mains,
        ..config()
    }
}

/// Preferring Eco on battery: a busy machine earns Balanced, and gives
/// it back once the load has eased past the middle of the band - not
/// only once it is idle.
#[test]
fn preferring_eco_on_battery_climbs_under_load_and_comes_back_when_it_eases() {
    let config = preferring(PowerMode::Eco, PowerMode::Performance);
    let mut switcher = settled(true);

    let up = run(
        &mut switcher,
        inputs(Some(true), 0.9),
        &config,
        PowerMode::Eco,
        5,
    )
    .unwrap();
    assert_eq!(up.mode, PowerMode::Balanced);
    assert_eq!(up.reason.key, "power.autoReason.sustainedLoad");

    // 0.55 is above the middle (0.50): still working, so it holds.
    assert_eq!(
        run(
            &mut switcher,
            inputs(Some(true), 0.55),
            &config,
            PowerMode::Balanced,
            10
        ),
        None
    );

    let back = run(
        &mut switcher,
        inputs(Some(true), 0.45),
        &config,
        PowerMode::Balanced,
        5,
    )
    .unwrap();
    assert_eq!(back.mode, PowerMode::Eco);
    assert_eq!(back.reason.key, "power.autoReason.backToPreferred");
}

/// Preferring Balanced on battery: the mirror image. Idle earns Eco,
/// and it is given back as soon as the machine is doing something -
/// not only once it is flat out.
#[test]
fn preferring_balanced_on_battery_drops_when_idle_and_returns_when_work_resumes() {
    let config = preferring(PowerMode::Balanced, PowerMode::Performance);
    let mut switcher = settled(true);

    let down = run(
        &mut switcher,
        inputs(Some(true), 0.1),
        &config,
        PowerMode::Balanced,
        5,
    )
    .unwrap();
    assert_eq!(down.mode, PowerMode::Eco);
    assert_eq!(down.reason.key, "power.autoReason.idle");

    // 0.45 is below the middle: not enough to call it work.
    assert_eq!(
        run(
            &mut switcher,
            inputs(Some(true), 0.45),
            &config,
            PowerMode::Eco,
            10
        ),
        None
    );

    let back = run(
        &mut switcher,
        inputs(Some(true), 0.55),
        &config,
        PowerMode::Eco,
        5,
    )
    .unwrap();
    assert_eq!(back.mode, PowerMode::Balanced);
}

/// The two preferences differ exactly in the dead band: the same
/// moderate load leaves each of them where the user asked.
#[test]
fn moderate_load_keeps_whichever_mode_is_preferred() {
    for preferred in [PowerMode::Eco, PowerMode::Balanced] {
        let config = preferring(preferred, PowerMode::Performance);
        for load in [0.35, 0.5, 0.65] {
            assert_eq!(
                target(inputs(Some(true), load), &config, true, false, preferred),
                None
            );
        }
    }
    for preferred in [PowerMode::Balanced, PowerMode::Performance] {
        let config = preferring(PowerMode::Eco, preferred);
        for load in [0.35, 0.5, 0.65] {
            assert_eq!(
                target(inputs(Some(false), load), &config, false, false, preferred),
                None
            );
        }
    }
}

/// Preferring Balanced on mains: plugging in lands there, sustained
/// load earns Performance, and it never goes down to Eco.
#[test]
fn preferring_balanced_on_mains_earns_performance_and_never_reaches_eco() {
    let config = preferring(PowerMode::Eco, PowerMode::Balanced);
    let mut switcher = settled(true);

    let plugged = switcher
        .observe(inputs(Some(false), 0.9), &config, PowerMode::Eco)
        .unwrap();
    assert_eq!(plugged.mode, PowerMode::Balanced);
    assert!(plugged.from_transition);

    let up = run(
        &mut switcher,
        inputs(Some(false), 0.9),
        &config,
        PowerMode::Balanced,
        5,
    )
    .unwrap();
    assert_eq!(up.mode, PowerMode::Performance);

    let back = run(
        &mut switcher,
        inputs(Some(false), 0.0),
        &config,
        PowerMode::Performance,
        5,
    )
    .unwrap();
    assert_eq!(back.mode, PowerMode::Balanced);
    assert_eq!(
        run(
            &mut switcher,
            inputs(Some(false), 0.0),
            &config,
            PowerMode::Balanced,
            10
        ),
        None
    );
}

/// A hand-edited config cannot make the supervisor pick Performance on
/// battery, Eco on mains, or Unlimited anywhere.
#[test]
fn a_preference_outside_the_range_is_clamped_into_it() {
    let config = preferring(PowerMode::Unlimited, PowerMode::Eco);
    assert_eq!(config.preferred(true), PowerMode::Balanced);
    assert_eq!(config.preferred(false), PowerMode::Balanced);
}

#[test]
fn crossed_or_impossible_thresholds_are_reported() {
    assert_eq!(AutoConfig::default().problem(), None);
    let crossed_load = AutoConfig {
        load_low: Threshold::Millionths(millionths(0.8)),
        load_high: Threshold::Millionths(millionths(0.7)),
        ..config()
    };
    assert_eq!(crossed_load.problem().unwrap().key, "power.err.loadBand");
    let crossed_temp = AutoConfig {
        temp_low_c: Threshold::Millionths(millionths(90.0)),
        temp_high_c: Threshold::Millionths(millionths(85.0)),
        ..config()
    };
    assert_eq!(crossed_temp.problem().unwrap().key, "power.err.tempBand");
    let battery = AutoConfig {
        battery_low_percent: Threshold::Millionths(millionths(150.0)),
        ..config()
    };
    assert_eq!(battery.problem().unwrap().key, "power.err.batteryPercent");
    let nan = AutoConfig {
        load_high: Threshold::NotANumber,
        ..config()
    };
    assert!(nan.problem().is_some());
    let said = |load_high: Threshold| AutoConfig { load_high, ..config() }.problem().unwrap().text;
    assert!(said(Threshold::NotANumber).contains("(NaN)"));
    assert!(said(Threshold::Infinite).contains("(inf)"));
    assert!(said(Threshold::MinusInfinite).contains("(-inf)"));
}

/// A machine found in Performance on battery that nobody chose - after
/// a restart, say - is brought back into the battery range.
#[test]
fn performance_on_battery_that_nobody_chose_is_brought_down() {
    let mut switcher = settled(true);
    let decision = run(
        &mut switcher,
        inputs(Some(true), 0.5),
        &config(),
        PowerMode::Performance,
        5,
    )
    .unwrap();
    assert_eq!(decision.mode, PowerMode::Balanced);
    assert_eq!(decision.reason.key, "power.autoReason.outOfRange");
}

// --- A mode picked by hand --------------------------------------------

/// The case this exists for: Performance picked by hand on battery.
/// Once the override has run out, a busy machine keeps it - the old
/// supervisor stepped it down to Balanced exactly when it was needed.
#[test]
fn performance_picked_by_hand_on_battery_survives_the_override_under_load() {
    let mut switcher = settled(true);
    switcher.adopt(PowerMode::Performance);

    for load in [0.99, 0.6, 0.4] {
        assert_eq!(
            run(
                &mut switcher,
                inputs(Some(true), load),
                &config(),
                PowerMode::Performance,
                10
            ),
            None,
            "load {load} is no reason to take away what the user asked for"
        );
    }
}

/// ...but it is stepped down when it has stopped making sense, and
/// given back when the reason has passed.
#[test]
fn performance_picked_by_hand_steps_down_for_idle_heat_and_a_low_battery() {
    let mut switcher = settled(true);
    switcher.adopt(PowerMode::Performance);

    let idle = run(
        &mut switcher,
        inputs(Some(true), 0.05),
        &config(),
        PowerMode::Performance,
        5,
    )
    .unwrap();
    assert_eq!(
        idle.mode,
        PowerMode::Balanced,
        "one step, not all the way to Eco"
    );

    let back = run(
        &mut switcher,
        inputs(Some(true), 0.6),
        &config(),
        PowerMode::Balanced,
        5,
    )
    .unwrap();
    assert_eq!(back.mode, PowerMode::Performance);
    assert_eq!(back.reason.key, "power.autoReason.backToPreferred");

    let hot = run(
        &mut switcher,
        at(90.0, true, 0.99),
        &config(),
        PowerMode::Performance,
        5,
    )
    .unwrap();
    assert_eq!(hot.mode, PowerMode::Balanced);
    assert_eq!(hot.reason.key, "power.autoReason.hot");
    // Still latched at 80 C: no climbing back into the same wall.
    assert_eq!(
        run(
            &mut switcher,
            at(80.0, true, 0.99),
            &config(),
            PowerMode::Balanced,
            10
        ),
        None
    );

    let flat = AutoInputs {
        battery_percent: Some(millionths(15.0)),
        ..inputs(Some(true), 0.99)
    };
    let low = run(&mut switcher, flat, &config(), PowerMode::Balanced, 5).unwrap();
    assert_eq!(low.mode, PowerMode::Eco);
    assert_eq!(
        run(&mut switcher, flat, &config(), PowerMode::Eco, 10),
        None
    );
}

/// A hand-picked mode is only ever stepped down from: Eco chosen for a
/// quiet room stays Eco under a compile.
#[test]
fn a_hand_picked_mode_is_never_stepped_up_from() {
    let mut switcher = settled(false);
    switcher.adopt(PowerMode::Eco);
    assert_eq!(
        run(
            &mut switcher,
            inputs(Some(false), 0.99),
            &config(),
            PowerMode::Eco,
            10
        ),
        None
    );
    assert_eq!(
        switcher.manual_baseline(&config(), false),
        Some(PowerMode::Eco)
    );
}

/// Picking the mode the supervisor would have chosen anyway is agreeing
/// with it, and must not switch off the step up the preference allows.
#[test]
fn picking_the_preferred_mode_by_hand_changes_nothing() {
    let config = preferring(PowerMode::Eco, PowerMode::Performance);
    let mut switcher = settled(true);
    switcher.adopt(PowerMode::Eco);
    assert_eq!(switcher.manual_baseline(&config, true), None);

    let up = run(
        &mut switcher,
        inputs(Some(true), 0.9),
        &config,
        PowerMode::Eco,
        5,
    )
    .unwrap();
    assert_eq!(up.mode, PowerMode::Balanced);
}

/// A choice is about the power source it was made on. Moving the cable
/// forgets it - even when the new source's system is switched off, or
/// it would come back into force the next time the cable moved again.
#[test]
fn changing_the_power_source_forgets_the_hand_picked_mode() {
    let mut switcher = settled(true);
    switcher.adopt(PowerMode::Performance);

    let plugged = switcher.observe(inputs(Some(false), 0.5), &config(), PowerMode::Performance);
    assert_eq!(
        plugged, None,
        "already in Performance, the mains preference"
    );
    assert_eq!(switcher.manual_baseline(&config(), false), None);

    switcher.adopt(PowerMode::Performance);
    let no_eco_system = AutoConfig {
        eco_on_battery: false,
        ..config()
    };
    assert_eq!(
        switcher.observe(
            inputs(Some(true), 0.5),
            &no_eco_system,
            PowerMode::Performance
        ),
        None
    );
    assert_eq!(switcher.manual_baseline(&config(), true), None);
}

// --- the parts -----------------------------------------------------------

#[test]
fn the_defaults_prefer_eco_on_battery_and_performance_on_mains() {
    let config = AutoConfig::default();
    assert!(!config.enabled);
    assert_eq!(config.preferred_on_battery, PowerMode::Eco);
    assert_eq!(config.preferred_on_mains, PowerMode::Performance);
    assert_eq!(config.preferred(true), PowerMode::Eco);
    assert_eq!(config.preferred(false), PowerMode::Performance);
}

#[test]
fn each_reason_to_refine_is_told_apart() {
    let baseline = Baseline { mode: PowerMode::Eco, manual: false };
    let busy = inputs(Some(true), 0.9);
    let why = refine(busy, &config(), true, false, baseline, PowerMode::Eco);
    assert_eq!(why, Some((PowerMode::Balanced, Why::SustainedLoad)));
    let flat = AutoInputs { battery_percent: Some(millionths(12.0)), ..busy };
    let why = refine(flat, &config(), true, false, baseline, PowerMode::Balanced);
    assert_eq!(why, Some((PowerMode::Eco, Why::BatteryLow)));
}

#[test]
fn the_load_is_per_core() {
    let cpuinfo = "processor\t: 0\nmodel name\t: x\nprocessor\t: 1\n";
    assert_eq!(load_ratio(Some(millionths(1.5)), Some(cpuinfo)), millionths(0.75));
    assert_eq!(load_ratio(Some(millionths(1.5)), None), millionths(1.5));
    assert_eq!(load_ratio(Some(millionths(1.5)), Some("")), millionths(1.5));
    assert_eq!(load_ratio(None, Some(cpuinfo)), 0);
    assert_eq!(load_ratio(Some(-3), Some(cpuinfo)), -2, "rounded down");
    assert_eq!(load_ratio(Some(millionths(-1.5)), Some(cpuinfo)), millionths(-0.75));
}

#[test]
fn either_sensor_is_a_sensor() {
    assert!(!Sensors::default().any());
    assert!(Sensors { cpu: Some("/sys/a".to_string()), gpu: None }.any());
    assert!(Sensors { cpu: None, gpu: Some("/sys/b".to_string()) }.any());
}

#[test]
fn a_sample_holds_what_was_found() {
    let sample = AutoInputs::sample(Some(true), Some(1), 2, Some(3));
    assert_eq!(sample.on_battery, Some(true));
    assert_eq!((sample.battery_percent, sample.load_ratio, sample.temp_c), (Some(1), 2, Some(3)));
}

#[test]
fn profiles_name_their_modes() {
    assert_eq!(mode_for_profile("low-power"), Some(PowerMode::Eco));
    assert_eq!(mode_for_profile("power-saver"), Some(PowerMode::Eco));
    assert_eq!(mode_for_profile("balanced"), Some(PowerMode::Balanced));
    assert_eq!(mode_for_profile("balanced-performance"), Some(PowerMode::Performance));
    assert_eq!(mode_for_profile("custom"), None);
}

#[test]
fn every_mode_reads_back_by_its_name_and_its_label() {
    for mode in PowerMode::all() {
        assert_eq!(PowerMode::parse(mode.as_str()), Some(mode));
        assert_eq!(PowerMode::parse(mode.as_label()), Some(mode));
        assert_eq!(mode.next().next().next().next(), mode);
        assert_eq!(PowerMode::all()[mode.position()], mode);
    }
}

fn supply(kind: &str) -> SupplyEntry {
    SupplyEntry {
        kind: Some(kind.to_string()),
        scope: None,
        online: None,
        capacity: None,
        status: None,
    }
}

#[test]
fn the_power_source_is_read_from_the_machines_own_supplies() {
    let mains = SupplyEntry { online: Some("0".to_string()), ..supply("Mains") };
    let battery = SupplyEntry {
        capacity: Some(millionths(55.0)),
        status: Some("Discharging".to_string()),
        ..supply("Battery")
    };
    let mouse = SupplyEntry {
        scope: Some("Device".to_string()),
        capacity: Some(millionths(3.0)),
        ..supply("Battery")
    };
    let state = PowerSupplyState::read(&vec![mouse.clone(), mains.clone(), battery.clone()]);
    assert_eq!(state.on_battery, Some(true));
    assert_eq!(state.battery_percent, Some(millionths(55.0)));
    assert_eq!(state.battery_status.as_deref(), Some("Discharging"));
    assert!(state.has_battery);

    let plugged = SupplyEntry { online: Some("1".to_string()), ..mains };
    let state = PowerSupplyState::read(&vec![plugged, battery]);
    assert_eq!(state.on_battery, Some(false));

    let desktop = PowerSupplyState::read(&vec![mouse]);
    assert_eq!(desktop.on_battery, None);
    assert!(!desktop.has_battery);
}

/// Loads and thresholds read as the doubles they are sent as.
#[test]
fn decimals_are_rounded_as_doubles_are() {
    let quick = AutoConfig { samples_to_switch: 1, ..config() };
    for thousandths in 700..1300 {
        let load = thousandths as f64 / 1000.0;
        let decided = settled(false).observe(inputs(Some(false), load), &quick, PowerMode::Balanced);
        assert_eq!(
            decided.unwrap().reason.text,
            format!("sustained load ({:.0}% per core)", load * 100.0)
        );
        let crossed = AutoConfig {
            load_low: Threshold::Millionths(millionths(load)),
            load_high: Threshold::Millionths(millionths(-load)),
            ..config()
        };
        assert_eq!(
            crossed.problem().unwrap().text,
            format!("loadLow ({load:.2}) has to be at least 0 and below loadHigh ({:.2})", -load)
        );
    }
}
