//! The supervisor that picks a mode on its own.
//!
//! Loads, percentages and temperatures are whole numbers of millionths.
use vstd::prelude::*;
use vstd::string::*;

use crate::msg;
use crate::msg::Msg;
use crate::msg::MsgView;
use crate::number;
use crate::power::mode;
use crate::power::mode::PowerMode;
use crate::text;

verus! {

/// A number that the user sets, in millionths, or what is none.
#[derive(Debug, Clone, Copy, PartialEq, Eq, Structural)]
pub enum Threshold {
    Millionths(i64),
    Infinite,
    MinusInfinite,
    NotANumber,
}

/// What the supervisor goes by.
#[derive(Debug, Clone, Copy, PartialEq, Eq, Structural)]
pub struct AutoConfig {
    pub enabled: bool,
    pub eco_on_battery: bool,
    pub performance_on_load: bool,
    pub preferred_on_battery: PowerMode,
    pub preferred_on_mains: PowerMode,
    /// Load per core at or above which load counts as high...
    pub load_high: Threshold,
    /// ...and at or below which it counts as low.
    pub load_low: Threshold,
    pub battery_low_percent: Threshold,
    pub back_off_when_hot: bool,
    /// Temperature at or above which the machine counts as hot...
    pub temp_high_c: Threshold,
    /// ...and the one it has to come down to before it stops counting.
    pub temp_low_c: Threshold,
    /// Agreeing samples in a row before a refinement happens.
    pub samples_to_switch: u32,
    pub interval_secs: u64,
    /// How long a manual choice suspends refinement.
    pub manual_override_secs: u64,
}

pub open spec fn default_config() -> AutoConfig {
    AutoConfig {
        enabled: false,
        eco_on_battery: true,
        performance_on_load: true,
        preferred_on_battery: PowerMode::Eco,
        preferred_on_mains: PowerMode::Performance,
        load_high: Threshold::Millionths(700_000),
        load_low: Threshold::Millionths(300_000),
        battery_low_percent: Threshold::Millionths(25_000_000),
        back_off_when_hot: true,
        temp_high_c: Threshold::Millionths(85_000_000),
        temp_low_c: Threshold::Millionths(75_000_000),
        samples_to_switch: 3,
        interval_secs: 10,
        manual_override_secs: 600,
    }
}

impl Default for AutoConfig {
    fn default() -> (r: AutoConfig)
        ensures
            r == default_config(),
    {
        AutoConfig {
            enabled: false,
            eco_on_battery: true,
            performance_on_load: true,
            preferred_on_battery: PowerMode::Eco,
            preferred_on_mains: PowerMode::Performance,
            load_high: Threshold::Millionths(700_000),
            load_low: Threshold::Millionths(300_000),
            battery_low_percent: Threshold::Millionths(25_000_000),
            back_off_when_hot: true,
            temp_high_c: Threshold::Millionths(85_000_000),
            temp_low_c: Threshold::Millionths(75_000_000),
            samples_to_switch: 3,
            interval_secs: 10,
            manual_override_secs: 600,
        }
    }
}

/// What the supervisor looks at on each tick.
#[derive(Debug, Clone, Copy, PartialEq, Eq, Structural)]
pub struct AutoInputs {
    /// Nothing on a machine without a battery, which is not the same as mains.
    pub on_battery: Option<bool>,
    /// The load average over the number of cores.
    pub load_ratio: i64,
    pub battery_percent: Option<i64>,
    /// The hottest of what the machine publishes, if it publishes anything.
    pub temp_c: Option<i64>,
}

impl AutoInputs {
    /// What one look at the machine found.
    pub fn sample(
        on_battery: Option<bool>,
        battery_percent: Option<i64>,
        load_ratio: i64,
        temp_c: Option<i64>,
    ) -> (r: AutoInputs)
        ensures
            r == (AutoInputs { on_battery, load_ratio, battery_percent, temp_c }),
    {
        AutoInputs { on_battery, load_ratio, battery_percent, temp_c }
    }
}

/// How many of the lines open a processor's entry.
pub open spec fn processor_lines(lines: Seq<Seq<char>>) -> nat
    decreases lines.len(),
{
    if lines.len() == 0 {
        0
    } else if text::starts_with(lines.last(), "processor"@) {
        processor_lines(lines.drop_last()) + 1
    } else {
        processor_lines(lines.drop_last())
    }
}

/// How many cores the machine says it has; at least one.
pub open spec fn cores(info: Option<Seq<char>>) -> nat {
    match info {
        None => 1,
        Some(s) => if processor_lines(text::lines(s)) < 1 {
            1
        } else {
            processor_lines(text::lines(s))
        },
    }
}

fn count_processors(info: &str) -> (r: usize)
    ensures
        r == processor_lines(text::lines(info@)),
{
    let rows = text::lines_of(&text::chars_of(info));
    let wanted = text::chars_of("processor");
    let n: usize = rows.len();
    let ghost all = text::rows(rows@);
    let mut count: usize = 0;
    let mut i: usize = 0;
    proof {
        assert(all.take(0) =~= seq![]);
    }
    while i < n
        invariant
            n == rows@.len(),
            i <= n,
            count <= i,
            wanted@ == "processor"@,
            all == text::rows(rows@),
            count == processor_lines(all.take(i as int)),
        decreases n - i,
    {
        proof {
            assert(all.take(i + 1).drop_last() =~= all.take(i as int));
            assert(all.take(i + 1).last() == rows@[i as int]@);
        }
        if text::is_at(&rows[i], &wanted, 0) {
            count = count + 1;
        }
        i = i + 1;
    }
    proof {
        assert(all.take(n as int) =~= all);
    }
    count
}

/// The load average per core, from the average of one minute and the
/// processors' description, in whole millionths. Nothing is read as no load.
pub open spec fn per_core(one_minute: Option<i64>, info: Option<Seq<char>>) -> int {
    match one_minute {
        None => 0,
        Some(load) => load as int / cores(info) as int,
    }
}

pub fn load_ratio(one_minute: Option<i64>, cpuinfo: Option<&str>) -> (r: i64)
    ensures
        r == per_core(
            one_minute,
            match cpuinfo {
                Some(s) => Some(s@),
                None => None,
            },
        ),
{
    let load: i64 = match one_minute {
        Some(load) => load,
        None => {
            return 0;
        },
    };
    let found: usize = match cpuinfo {
        Some(info) => count_processors(info),
        None => 1,
    };
    let cores: i128 = if found < 1 {
        1
    } else {
        found as i128
    };
    let whole: i128 = load as i128;
    // Rounded down, also below zero.
    let share: i128 = if whole >= 0 {
        whole / cores
    } else {
        -((cores - 1 - whole) / cores)
    };
    proof {
        let c = cores as int;
        let w = load as int;
        if w < 0 {
            let q = (c - 1 - w) / c;
            vstd::arithmetic::div_mod::lemma_fundamental_div_mod(c - 1 - w, c);
            vstd::arithmetic::mul::lemma_mul_is_commutative(c, q);
            vstd::arithmetic::mul::lemma_mul_unary_negation(q, c);
            vstd::arithmetic::div_mod::lemma_fundamental_div_mod_converse(w, c, -q, w + q * c);
        }
        assert(i64::MIN <= w / c <= i64::MAX) by (nonlinear_arith)
            requires
                c >= 1,
                i64::MIN <= w <= i64::MAX,
        ;
    }
    share as i64
}

/// The temperature sensors that were found.
#[derive(Debug, Clone)]
pub struct Sensors {
    pub cpu: Option<String>,
    pub gpu: Option<String>,
}

impl Default for Sensors {
    fn default() -> (r: Sensors)
        ensures
            r.cpu is None,
            r.gpu is None,
    {
        Sensors { cpu: None, gpu: None }
    }
}

impl Sensors {
    /// Whether the machine can say how hot it is.
    pub fn any(&self) -> (r: bool)
        ensures
            r == (self.cpu is Some || self.gpu is Some),
    {
        self.cpu.is_some() || self.gpu.is_some()
    }
}

// --- modes in a range ----------------------------------------------------

/// The two modes a power source may move between.
pub open spec fn range_of(on_battery: bool) -> (PowerMode, PowerMode) {
    if on_battery {
        (PowerMode::Eco, PowerMode::Balanced)
    } else {
        (PowerMode::Balanced, PowerMode::Performance)
    }
}

fn range(on_battery: bool) -> (r: (PowerMode, PowerMode))
    ensures
        r == range_of(on_battery),
{
    if on_battery {
        (PowerMode::Eco, PowerMode::Balanced)
    } else {
        (PowerMode::Balanced, PowerMode::Performance)
    }
}

/// Whether the supervisor would ever pick the mode for this source.
pub open spec fn in_range(m: PowerMode, on_battery: bool) -> bool {
    range_of(on_battery).0.rank() <= m.rank() <= range_of(on_battery).1.rank()
}

/// One step down, but not past the floor.
pub open spec fn down(m: PowerMode, floor: PowerMode) -> PowerMode {
    if m.rank() <= floor.rank() {
        m
    } else {
        mode::every_mode()[m.rank() - 1]
    }
}

/// One step up, but not past the ceiling.
pub open spec fn up(m: PowerMode, ceiling: PowerMode) -> PowerMode {
    if m.rank() >= ceiling.rank() {
        m
    } else {
        mode::every_mode()[m.rank() + 1]
    }
}

pub open spec fn lower(a: PowerMode, b: PowerMode) -> PowerMode {
    if a.rank() <= b.rank() {
        a
    } else {
        b
    }
}

fn step_down(m: PowerMode, floor: PowerMode) -> (r: PowerMode)
    ensures
        r == down(m, floor),
{
    if m.position() <= floor.position() {
        return m;
    }
    match m {
        PowerMode::Unlimited => PowerMode::Performance,
        PowerMode::Performance => PowerMode::Balanced,
        _ => PowerMode::Eco,
    }
}

fn step_up(m: PowerMode, ceiling: PowerMode) -> (r: PowerMode)
    ensures
        r == up(m, ceiling),
{
    if m.position() >= ceiling.position() {
        return m;
    }
    match m {
        PowerMode::Eco => PowerMode::Balanced,
        PowerMode::Balanced => PowerMode::Performance,
        _ => PowerMode::Unlimited,
    }
}

fn lower_of(a: PowerMode, b: PowerMode) -> (r: PowerMode)
    ensures
        r == lower(a, b),
{
    if a.position() <= b.position() {
        a
    } else {
        b
    }
}

// --- the configuration ---------------------------------------------------

/// A threshold as a message shows it.
pub open spec fn shown(v: Threshold, scale: nat) -> Seq<char> {
    match v {
        Threshold::Millionths(n) => number::fixed(n as int, scale),
        Threshold::Infinite => "inf"@,
        Threshold::MinusInfinite => "-inf"@,
        Threshold::NotANumber => "NaN"@,
    }
}

fn show(v: Threshold, scale: u64) -> (r: String)
    requires
        scale == 1 || scale == 10 || scale == 100,
    ensures
        r@ == shown(v, scale as nat),
{
    match v {
        Threshold::Millionths(n) => number::show_fixed(n, scale),
        Threshold::Infinite => String::from_str("inf"),
        Threshold::MinusInfinite => String::from_str("-inf"),
        Threshold::NotANumber => String::from_str("NaN"),
    }
}

/// Whether a value reaches a threshold.
pub open spec fn reaches(v: int, threshold: Threshold) -> bool {
    match threshold {
        Threshold::Millionths(t) => v >= t,
        Threshold::MinusInfinite => true,
        _ => false,
    }
}

/// Whether a value is no higher than a threshold.
pub open spec fn within(v: int, threshold: Threshold) -> bool {
    match threshold {
        Threshold::Millionths(t) => v <= t,
        Threshold::Infinite => true,
        _ => false,
    }
}

fn at_least(v: i64, threshold: Threshold) -> (r: bool)
    ensures
        r == reaches(v as int, threshold),
{
    match threshold {
        Threshold::Millionths(t) => v >= t,
        Threshold::MinusInfinite => true,
        _ => false,
    }
}

fn at_most(v: i64, threshold: Threshold) -> (r: bool)
    ensures
        r == within(v as int, threshold),
{
    match threshold {
        Threshold::Millionths(t) => v <= t,
        Threshold::Infinite => true,
        _ => false,
    }
}

/// Whether a value is at or under the middle of two thresholds, and whether it
/// is at or over it. Two infinities of opposite sign have no middle.
pub open spec fn middle(v: int, high: Threshold, low: Threshold) -> (bool, bool) {
    match (high, low) {
        (Threshold::Millionths(h), Threshold::Millionths(l)) => (
            2 * v <= h + l,
            2 * v >= h + l,
        ),
        (Threshold::Infinite, Threshold::Infinite) => (true, false),
        (Threshold::Infinite, Threshold::Millionths(_)) => (true, false),
        (Threshold::Millionths(_), Threshold::Infinite) => (true, false),
        (Threshold::MinusInfinite, Threshold::MinusInfinite) => (false, true),
        (Threshold::MinusInfinite, Threshold::Millionths(_)) => (false, true),
        (Threshold::Millionths(_), Threshold::MinusInfinite) => (false, true),
        _ => (false, false),
    }
}

fn about_middle(v: i64, high: Threshold, low: Threshold) -> (r: (bool, bool))
    ensures
        r == middle(v as int, high, low),
{
    match (high, low) {
        (Threshold::Millionths(h), Threshold::Millionths(l)) => {
            let twice: i128 = 2 * (v as i128);
            let ends: i128 = h as i128 + l as i128;
            (twice <= ends, twice >= ends)
        },
        (Threshold::Infinite, Threshold::Infinite) => (true, false),
        (Threshold::Infinite, Threshold::Millionths(_)) => (true, false),
        (Threshold::Millionths(_), Threshold::Infinite) => (true, false),
        (Threshold::MinusInfinite, Threshold::MinusInfinite) => (false, true),
        (Threshold::MinusInfinite, Threshold::Millionths(_)) => (false, true),
        (Threshold::Millionths(_), Threshold::MinusInfinite) => (false, true),
        _ => (false, false),
    }
}

impl AutoConfig {
    /// Every threshold is a number.
    pub open spec fn finite(self) -> bool {
        &&& self.load_low is Millionths
        &&& self.load_high is Millionths
        &&& self.battery_low_percent is Millionths
        &&& self.temp_low_c is Millionths
        &&& self.temp_high_c is Millionths
    }

    /// The thresholds leave the supervisor room to settle.
    pub open spec fn usable(self) -> bool {
        &&& self.finite()
        &&& 0 <= self.load_low->0 < self.load_high->0
        &&& self.temp_low_c->0 < self.temp_high_c->0
        &&& 0 <= self.battery_low_percent->0 <= 100_000_000
    }

    /// Why the configuration cannot be used.
    pub open spec fn wrong(self) -> Option<MsgView> {
        if !self.finite() || self.load_low->0 < 0 || self.load_low->0 >= self.load_high->0 {
            Some(
                msg::message(
                    "power.err.loadBand"@,
                    seq![("low"@, shown(self.load_low, 100)), ("high"@, shown(self.load_high, 100))],
                    "loadLow ({low}) has to be at least 0 and below loadHigh ({high})"@,
                ),
            )
        } else if self.temp_low_c->0 >= self.temp_high_c->0 {
            Some(
                msg::message(
                    "power.err.tempBand"@,
                    seq![("low"@, shown(self.temp_low_c, 1)), ("high"@, shown(self.temp_high_c, 1))],
                    "tempLowC ({low}) has to be below tempHighC ({high})"@,
                ),
            )
        } else if !(0 <= self.battery_low_percent->0 <= 100_000_000) {
            Some(
                msg::message(
                    "power.err.batteryPercent"@,
                    seq![("percent"@, shown(self.battery_low_percent, 1))],
                    "batteryLowPercent has to be between 0 and 100, not {percent}"@,
                ),
            )
        } else {
            None
        }
    }

    /// Why the configuration cannot be used, or nothing where it can.
    pub fn problem(&self) -> (r: Option<Msg>)
        ensures
            msg::opt_says(r) == self.wrong(),
            r is None <==> self.usable(),
    {
        let load_ok = match (
            self.load_low,
            self.load_high,
            self.battery_low_percent,
            self.temp_low_c,
            self.temp_high_c,
        ) {
            (
                Threshold::Millionths(low),
                Threshold::Millionths(high),
                Threshold::Millionths(_),
                Threshold::Millionths(_),
                Threshold::Millionths(_),
            ) => 0 <= low && low < high,
            _ => false,
        };
        if !load_ok {
            return Some(
                Msg::new(
                    "power.err.loadBand",
                    msg::two(
                        msg::param("low", show(self.load_low, 100)),
                        msg::param("high", show(self.load_high, 100)),
                    ),
                    "loadLow ({low}) has to be at least 0 and below loadHigh ({high})",
                ),
            );
        }
        let temp_ok = match (self.temp_low_c, self.temp_high_c) {
            (Threshold::Millionths(low), Threshold::Millionths(high)) => low < high,
            _ => false,
        };
        if !temp_ok {
            return Some(
                Msg::new(
                    "power.err.tempBand",
                    msg::two(
                        msg::param("low", show(self.temp_low_c, 1)),
                        msg::param("high", show(self.temp_high_c, 1)),
                    ),
                    "tempLowC ({low}) has to be below tempHighC ({high})",
                ),
            );
        }
        let battery_ok = match self.battery_low_percent {
            Threshold::Millionths(percent) => 0 <= percent && percent <= 100_000_000,
            _ => false,
        };
        if !battery_ok {
            return Some(
                Msg::new(
                    "power.err.batteryPercent",
                    msg::one(msg::param("percent", show(self.battery_low_percent, 1))),
                    "batteryLowPercent has to be between 0 and 100, not {percent}",
                ),
            );
        }
        None
    }

    /// Home on a power source: the mode asked for, brought into its range.
    pub open spec fn home(self, on_battery: bool) -> PowerMode {
        let wanted = if on_battery {
            self.preferred_on_battery
        } else {
            self.preferred_on_mains
        };
        if wanted.rank() < range_of(on_battery).0.rank() {
            range_of(on_battery).0
        } else if wanted.rank() > range_of(on_battery).1.rank() {
            range_of(on_battery).1
        } else {
            wanted
        }
    }

    pub fn preferred(&self, on_battery: bool) -> (r: PowerMode)
        ensures
            r == self.home(on_battery),
    {
        let (floor, ceiling) = range(on_battery);
        let wanted = if on_battery {
            self.preferred_on_battery
        } else {
            self.preferred_on_mains
        };
        if wanted.position() < floor.position() {
            floor
        } else if wanted.position() > ceiling.position() {
            ceiling
        } else {
            wanted
        }
    }

    /// Whether the system responsible for a power source is on.
    pub open spec fn acts_on(self, on_battery: bool) -> bool {
        if on_battery {
            self.eco_on_battery
        } else {
            self.performance_on_load
        }
    }
}

fn system_enabled(on_battery: bool, config: &AutoConfig) -> (r: bool)
    ensures
        r == config.acts_on(on_battery),
{
    if on_battery {
        config.eco_on_battery
    } else {
        config.performance_on_load
    }
}

// --- the heat latch ------------------------------------------------------

/// Whether the machine counts as hot, with the dead band latched.
#[derive(Debug, Clone, Copy, PartialEq, Eq, Structural)]
pub struct HeatLatch {
    pub hot: bool,
}

impl Default for HeatLatch {
    fn default() -> (r: HeatLatch)
        ensures
            !r.hot,
    {
        HeatLatch { hot: false }
    }
}

/// What a reading makes of the latch.
pub open spec fn latched(hot: bool, temp: Option<i64>, config: AutoConfig) -> bool {
    match temp {
        None => hot,
        Some(t) => if reaches(t as int, config.temp_high_c) {
            true
        } else if within(t as int, config.temp_low_c) {
            false
        } else {
            hot
        },
    }
}

impl HeatLatch {
    /// Feeds one reading in and says what it now means.
    pub fn observe(&mut self, temp_c: Option<i64>, config: &AutoConfig) -> (r: bool)
        ensures
            r == latched(old(self).hot, temp_c, *config),
            final(self).hot == r,
    {
        match temp_c {
            Some(t) => {
                if at_least(t, config.temp_high_c) {
                    self.hot = true;
                } else if at_most(t, config.temp_low_c) {
                    self.hot = false;
                }
            },
            None => {},
        }
        self.hot
    }

    pub fn is_hot(self) -> (r: bool)
        ensures
            r == self.hot,
    {
        self.hot
    }
}

// --- refinement ----------------------------------------------------------

/// The mode that refinement works around.
#[derive(Debug, Clone, Copy, PartialEq, Eq, Structural)]
pub struct Baseline {
    pub mode: PowerMode,
    /// Picked by hand: only ever stepped down from.
    pub manual: bool,
}

/// Why refinement wants to move.
#[derive(Debug, Clone, Copy, PartialEq, Eq, Structural)]
pub enum Why {
    Hot,
    BatteryLow,
    SustainedLoad,
    Idle,
    /// Whatever moved the machine off its preferred mode has passed.
    BackToPreferred,
    /// A mode that is never picked for this power source.
    OutOfRange,
}

pub open spec fn or_zero(v: Option<i64>) -> int {
    match v {
        Some(n) => n as int,
        None => 0,
    }
}

impl Why {
    pub open spec fn said(self, inputs: AutoInputs) -> MsgView {
        match self {
            Why::Hot => msg::message(
                "power.autoReason.hot"@,
                seq![("temp"@, number::fixed(or_zero(inputs.temp_c), 1))],
                "running hot ({temp} C)"@,
            ),
            Why::BatteryLow => msg::message(
                "power.autoReason.batteryLow"@,
                seq![("percent"@, number::fixed(or_zero(inputs.battery_percent), 1))],
                "battery at {percent}%"@,
            ),
            Why::SustainedLoad => msg::message(
                "power.autoReason.sustainedLoad"@,
                seq![("percent"@, number::percent(inputs.load_ratio as int))],
                "sustained load ({percent}% per core)"@,
            ),
            Why::Idle => msg::message("power.autoReason.idle"@, seq![], "idle"@),
            Why::BackToPreferred => msg::message(
                "power.autoReason.backToPreferred"@,
                seq![],
                "back to the preferred mode"@,
            ),
            Why::OutOfRange => msg::message(
                "power.autoReason.outOfRange"@,
                seq![],
                "not a mode chosen automatically on this power source"@,
            ),
        }
    }

    fn to_msg(self, inputs: AutoInputs) -> (r: Msg)
        ensures
            r@ == self.said(inputs),
    {
        match self {
            Why::Hot => Msg::new(
                "power.autoReason.hot",
                msg::one(msg::param("temp", number::show_fixed(zero_or(inputs.temp_c), 1))),
                "running hot ({temp} C)",
            ),
            Why::BatteryLow => Msg::new(
                "power.autoReason.batteryLow",
                msg::one(
                    msg::param("percent", number::show_fixed(zero_or(inputs.battery_percent), 1)),
                ),
                "battery at {percent}%",
            ),
            Why::SustainedLoad => Msg::new(
                "power.autoReason.sustainedLoad",
                msg::one(
                    msg::param("percent", number::show_percent(inputs.load_ratio)),
                ),
                "sustained load ({percent}% per core)",
            ),
            Why::Idle => Msg::plain("power.autoReason.idle", "idle"),
            Why::BackToPreferred => Msg::plain(
                "power.autoReason.backToPreferred",
                "back to the preferred mode",
            ),
            Why::OutOfRange => Msg::plain(
                "power.autoReason.outOfRange",
                "not a mode chosen automatically on this power source",
            ),
        }
    }
}

fn zero_or(v: Option<i64>) -> (r: i64)
    ensures
        r == or_zero(v),
{
    match v {
        Some(n) => n,
        None => 0,
    }
}

/// The mode, or Performance in place of Unlimited: where refinement may go.
pub open spec fn short_of_unlimited(m: PowerMode) -> PowerMode {
    lower(m, PowerMode::Performance)
}

/// Where the current conditions point, and why. Never at Unlimited, also where
/// that is what the user picked by hand.
pub open spec fn refined(
    inputs: AutoInputs,
    config: AutoConfig,
    on_battery: bool,
    hot: bool,
    baseline: Baseline,
    current: PowerMode,
) -> Option<(PowerMode, Why)> {
    let (floor, ceiling) = range_of(on_battery);
    let below = down(baseline.mode, floor);
    let above = short_of_unlimited(
        if baseline.manual {
            baseline.mode
        } else {
            up(baseline.mode, ceiling)
        },
    );
    let battery_low = on_battery && match inputs.battery_percent {
        Some(percent) => within(percent as int, config.battery_low_percent),
        None => false,
    };
    let load = inputs.load_ratio as int;
    if hot && config.back_off_when_hot {
        Some((lower(below, current), Why::Hot))
    } else if battery_low {
        Some((lower(floor, current), Why::BatteryLow))
    } else if !baseline.manual && !in_range(current, on_battery) {
        Some(
            (
                if current.rank() < floor.rank() {
                    floor
                } else {
                    ceiling
                },
                Why::OutOfRange,
            ),
        )
    } else if reaches(load, config.load_high) {
        Some((above, Why::SustainedLoad))
    } else if within(load, config.load_low) {
        Some((below, Why::Idle))
    } else if (current.rank() > baseline.mode.rank() && middle(
        load,
        config.load_high,
        config.load_low,
    ).0) || (current.rank() < baseline.mode.rank() && middle(
        load,
        config.load_high,
        config.load_low,
    ).1) {
        Some((short_of_unlimited(baseline.mode), Why::BackToPreferred))
    } else {
        None
    }
}

/// Where the current conditions point, and why, or nothing while nothing
/// should move. In order, the first that applies: heat, a low battery, a mode
/// out of range, sustained load, idling, and the way home once the load has
/// crossed the middle of the band.
pub fn refine(
    inputs: AutoInputs,
    config: &AutoConfig,
    on_battery: bool,
    hot: bool,
    baseline: Baseline,
    current: PowerMode,
) -> (r: Option<(PowerMode, Why)>)
    ensures
        r == refined(inputs, *config, on_battery, hot, baseline, current),
{
    let (floor, ceiling) = range(on_battery);
    let below = step_down(baseline.mode, floor);
    // The user has to ask for Unlimited, every time.
    let above = lower_of(
        if baseline.manual {
            baseline.mode
        } else {
            step_up(baseline.mode, ceiling)
        },
        PowerMode::Performance,
    );
    if hot && config.back_off_when_hot {
        return Some((lower_of(below, current), Why::Hot));
    }
    let battery_low = on_battery && match inputs.battery_percent {
        Some(percent) => at_most(percent, config.battery_low_percent),
        None => false,
    };
    if battery_low {
        return Some((lower_of(floor, current), Why::BatteryLow));
    }
    let here: usize = current.position();
    if !baseline.manual && (here < floor.position() || here > ceiling.position()) {
        let nearest = if here < floor.position() {
            floor
        } else {
            ceiling
        };
        return Some((nearest, Why::OutOfRange));
    }
    let load: i64 = inputs.load_ratio;
    if at_least(load, config.load_high) {
        return Some((above, Why::SustainedLoad));
    }
    if at_most(load, config.load_low) {
        return Some((below, Why::Idle));
    }
    let home: usize = baseline.mode.position();
    let (under, over) = about_middle(load, config.load_high, config.load_low);
    if (here > home && under) || (here < home && over) {
        return Some((lower_of(baseline.mode, PowerMode::Performance), Why::BackToPreferred));
    }
    None
}

// --- the switcher --------------------------------------------------------

/// One thing the supervisor decided to do, and why.
#[derive(Debug, Clone, PartialEq, Eq)]
pub struct AutoDecision {
    pub mode: PowerMode,
    pub reason: Msg,
    /// An answer to the power source changing: immediate, and not suppressed
    /// by a manual choice.
    pub from_transition: bool,
}

#[verifier::ext_equal]
pub struct DecisionView {
    pub mode: PowerMode,
    pub reason: MsgView,
    pub from_transition: bool,
}

impl View for AutoDecision {
    type V = DecisionView;

    open spec fn view(&self) -> DecisionView {
        DecisionView {
            mode: self.mode,
            reason: self.reason@,
            from_transition: self.from_transition,
        }
    }
}

pub open spec fn opt_decision(d: Option<AutoDecision>) -> Option<DecisionView> {
    match d {
        Some(d) => Some(d@),
        None => None,
    }
}

/// Tracks the power source, and how long a refinement has been the answer.
#[derive(Debug, Clone, Copy, PartialEq, Eq)]
pub struct AutoSwitcher {
    /// Nothing until the first sample.
    pub last_on_battery: Option<bool>,
    pub pending: Option<(PowerMode, u32)>,
    pub heat: HeatLatch,
    /// The mode the user last picked by hand on this power source.
    pub manual: Option<PowerMode>,
}

/// The switcher at startup.
pub open spec fn fresh() -> AutoSwitcher {
    AutoSwitcher {
        last_on_battery: None,
        pending: None,
        heat: HeatLatch { hot: false },
        manual: None,
    }
}

impl Default for AutoSwitcher {
    fn default() -> (r: AutoSwitcher)
        ensures
            r == fresh(),
    {
        AutoSwitcher {
            last_on_battery: None,
            pending: None,
            heat: HeatLatch { hot: false },
            manual: None,
        }
    }
}

/// How many samples in a row a refinement takes.
pub open spec fn needed(config: AutoConfig) -> int {
    if config.samples_to_switch < 1 {
        1
    } else {
        config.samples_to_switch as int
    }
}

impl AutoSwitcher {
    /// What refinement works around: the mode picked by hand, unless it is the
    /// preference itself.
    pub open spec fn works_around(self, config: AutoConfig, on_battery: bool) -> Baseline {
        match self.manual {
            Some(m) if m != config.home(on_battery) => Baseline { mode: m, manual: true },
            _ => Baseline { mode: config.home(on_battery), manual: false },
        }
    }

    /// How many samples in a row have pointed at the target, this one counted.
    pub open spec fn run_of(self, target: PowerMode) -> int {
        match self.pending {
            Some((mode, count)) if mode == target => count + 1,
            _ => 1,
        }
    }

    /// What a sample that is no change of source does.
    pub open spec fn refines(
        self,
        inputs: AutoInputs,
        config: AutoConfig,
        on_battery: bool,
        current: PowerMode,
    ) -> (AutoSwitcher, Option<DecisionView>) {
        let idle = AutoSwitcher { pending: None, ..self };
        if current == PowerMode::Unlimited || !config.acts_on(on_battery) {
            (idle, None)
        } else {
            match refined(
                inputs,
                config,
                on_battery,
                self.heat.hot,
                self.works_around(config, on_battery),
                current,
            ) {
                None => (idle, None),
                Some((target, why)) => if target == current {
                    (idle, None)
                } else if self.run_of(target) >= needed(config) {
                    (
                        idle,
                        Some(
                            DecisionView {
                                mode: target,
                                reason: why.said(inputs),
                                from_transition: false,
                            },
                        ),
                    )
                } else {
                    (
                        AutoSwitcher {
                            pending: Some((target, self.run_of(target) as u32)),
                            ..self
                        },
                        None,
                    )
                },
            }
        }
    }

    /// Whether the sample is the first one on another power source.
    pub open spec fn source_changed(self, inputs: AutoInputs) -> bool {
        self.last_on_battery is Some && inputs.on_battery is Some && self.last_on_battery
            != inputs.on_battery
    }

    /// What one sample does.
    pub open spec fn observes(
        self,
        inputs: AutoInputs,
        config: AutoConfig,
        current: PowerMode,
    ) -> (AutoSwitcher, Option<DecisionView>) {
        let felt = AutoSwitcher {
            heat: HeatLatch { hot: latched(self.heat.hot, inputs.temp_c, config) },
            ..self
        };
        match inputs.on_battery {
            None => felt.refines(inputs, config, false, current),
            Some(on_battery) => {
                let seen = AutoSwitcher { last_on_battery: Some(on_battery), ..felt };
                if self.source_changed(inputs) {
                    let forgot = AutoSwitcher { manual: None, pending: None, ..seen };
                    if !config.acts_on(on_battery) {
                        forgot.refines(inputs, config, on_battery, current)
                    } else if config.home(on_battery) != current {
                        (
                            forgot,
                            Some(
                                DecisionView {
                                    mode: config.home(on_battery),
                                    reason: if on_battery {
                                        msg::message(
                                            "power.autoReason.toBattery"@,
                                            seq![],
                                            "switched to battery"@,
                                        )
                                    } else {
                                        msg::message(
                                            "power.autoReason.pluggedIn"@,
                                            seq![],
                                            "plugged in"@,
                                        )
                                    },
                                    from_transition: true,
                                },
                            ),
                        )
                    } else {
                        (forgot, None)
                    }
                } else {
                    seen.refines(inputs, config, on_battery, current)
                }
            },
        }
    }

    /// Feeds one sample in. Says what to switch to, if anything; that is never
    /// Unlimited, and never the mode the machine is in.
    pub fn observe(
        &mut self,
        inputs: AutoInputs,
        config: &AutoConfig,
        current: PowerMode,
    ) -> (r: Option<AutoDecision>)
        ensures
            (*final(self), opt_decision(r)) == old(self).observes(inputs, *config, current),
            r matches Some(d) ==> d@.mode != PowerMode::Unlimited && d@.mode != current,
    {
        proof {
            law_the_supervisor_never_picks_unlimited(*self, inputs, *config, current);
        }
        // The latch is about the machine, so it is fed on every tick, those
        // that return early too.
        let mut heat = self.heat;
        heat.observe(inputs.temp_c, config);
        self.heat = heat;
        let on_battery = match inputs.on_battery {
            Some(b) => b,
            None => {
                return self.refinement(inputs, config, false, current);
            },
        };
        let source_changed = match self.last_on_battery {
            Some(was) => was != on_battery,
            None => false,
        };
        self.last_on_battery = Some(on_battery);
        if source_changed {
            // A choice made for the old source is none for the new one, also
            // where the new source's system is off.
            self.manual = None;
            self.pending = None;
            if system_enabled(on_battery, config) {
                let home = config.preferred(on_battery);
                if home != current {
                    let reason = if on_battery {
                        Msg::plain("power.autoReason.toBattery", "switched to battery")
                    } else {
                        Msg::plain("power.autoReason.pluggedIn", "plugged in")
                    };
                    return Some(AutoDecision { mode: home, reason, from_transition: true });
                }
                return None;
            }
        }
        self.refinement(inputs, config, on_battery, current)
    }

    fn refinement(
        &mut self,
        inputs: AutoInputs,
        config: &AutoConfig,
        on_battery: bool,
        current: PowerMode,
    ) -> (r: Option<AutoDecision>)
        ensures
            (*final(self), opt_decision(r)) == old(self).refines(
                inputs,
                *config,
                on_battery,
                current,
            ),
    {
        if current == PowerMode::Unlimited || !system_enabled(on_battery, config) {
            self.pending = None;
            return None;
        }
        let baseline = self.baseline(config, on_battery);
        let (target, why) = match refine(
            inputs,
            config,
            on_battery,
            self.heat.is_hot(),
            baseline,
            current,
        ) {
            Some(found) => found,
            None => {
                self.pending = None;
                return None;
            },
        };
        if target == current {
            self.pending = None;
            return None;
        }
        let count: u64 = match self.pending {
            Some((mode, count)) => if mode == target {
                count as u64 + 1
            } else {
                1
            },
            None => 1,
        };
        let wanted: u64 = if config.samples_to_switch < 1 {
            1
        } else {
            config.samples_to_switch as u64
        };
        if count >= wanted {
            self.pending = None;
            return Some(
                AutoDecision { mode: target, reason: why.to_msg(inputs), from_transition: false },
            );
        }
        self.pending = Some((target, count as u32));
        None
    }

    /// What refinement works around for a power source.
    pub fn baseline(&self, config: &AutoConfig, on_battery: bool) -> (r: Baseline)
        ensures
            r == self.works_around(*config, on_battery),
    {
        let preferred = config.preferred(on_battery);
        match self.manual {
            Some(m) => if m != preferred {
                Baseline { mode: m, manual: true }
            } else {
                Baseline { mode: preferred, manual: false }
            },
            None => Baseline { mode: preferred, manual: false },
        }
    }

    /// Takes a mode the user picked by hand as what refinement works around,
    /// for as long as the machine stays on this power source.
    pub fn adopt(&mut self, mode: PowerMode)
        ensures
            *final(self) == (AutoSwitcher { manual: Some(mode), pending: None, ..*old(self) }),
    {
        self.manual = Some(mode);
        self.pending = None;
    }

    /// The mode picked by hand that refinement works around, if it differs
    /// from the preference.
    pub fn manual_baseline(&self, config: &AutoConfig, on_battery: bool) -> (r: Option<PowerMode>)
        ensures
            r == (if self.works_around(*config, on_battery).manual {
                Some(self.works_around(*config, on_battery).mode)
            } else {
                None::<PowerMode>
            }),
    {
        let baseline = self.baseline(config, on_battery);
        if baseline.manual {
            Some(baseline.mode)
        } else {
            None
        }
    }

    /// The power source as of the last sample.
    pub fn on_battery(&self) -> (r: Option<bool>)
        ensures
            r == self.last_on_battery,
    {
        self.last_on_battery
    }

    /// Forgets a refinement in progress; neither the heat nor the mode picked
    /// by hand.
    pub fn reset(&mut self)
        ensures
            *final(self) == (AutoSwitcher { pending: None, ..*old(self) }),
    {
        self.pending = None;
    }

    pub fn is_hot(&self) -> (r: bool)
        ensures
            r == self.heat.hot,
    {
        self.heat.is_hot()
    }
}

// --- laws ----------------------------------------------------------------

/// The preferred mode of a source is always one the supervisor may pick there,
/// whatever the configuration asks for.
pub proof fn law_preferences_stay_in_range(config: AutoConfig, on_battery: bool)
    ensures
        in_range(config.home(on_battery), on_battery),
        config.home(on_battery) != PowerMode::Unlimited,
{
}

/// A configuration without a problem has a dead band for the load and one for
/// the heat, and a battery threshold that some charge is above or at.
pub proof fn law_an_accepted_configuration_has_dead_bands(config: AutoConfig)
    ensures
        config.wrong() is None <==> config.usable(),
{
}

/// The configuration that the supervisor starts with has no problem.
pub proof fn law_the_default_configuration_is_usable()
    ensures
        default_config().usable(),
{
}

/// Refinement never arrives at Unlimited, whatever it works around.
pub proof fn law_refinement_never_selects_unlimited(
    inputs: AutoInputs,
    config: AutoConfig,
    on_battery: bool,
    hot: bool,
    baseline: Baseline,
    current: PowerMode,
)
    ensures
        match refined(inputs, config, on_battery, hot, baseline, current) {
            Some((target, _)) => target != PowerMode::Unlimited,
            None => true,
        },
{
}

/// Whatever one sample decides, in whatever state, it is not Unlimited and not
/// the mode the machine is in.
pub proof fn law_the_supervisor_never_picks_unlimited(
    switcher: AutoSwitcher,
    inputs: AutoInputs,
    config: AutoConfig,
    current: PowerMode,
)
    ensures
        match switcher.observes(inputs, config, current).1 {
            Some(decision) => decision.mode != PowerMode::Unlimited && decision.mode != current,
            None => true,
        },
{
}

/// Where nobody picked a mode by hand, what the supervisor switches to is a
/// mode of the range of the power source.
pub proof fn law_decisions_stay_in_the_range_of_the_source(
    switcher: AutoSwitcher,
    inputs: AutoInputs,
    config: AutoConfig,
    current: PowerMode,
)
    requires
        switcher.manual is None,
    ensures
        match switcher.observes(inputs, config, current).1 {
            Some(decision) => in_range(decision.mode, inputs.on_battery == Some(true)),
            None => true,
        },
{
}

/// A mode picked by hand is only ever stepped down from.
pub proof fn law_a_hand_picked_mode_is_never_stepped_up_from(
    inputs: AutoInputs,
    config: AutoConfig,
    on_battery: bool,
    hot: bool,
    picked: PowerMode,
    current: PowerMode,
)
    requires
        current.rank() <= picked.rank(),
    ensures
        match refined(
            inputs,
            config,
            on_battery,
            hot,
            Baseline { mode: picked, manual: true },
            current,
        ) {
            Some((target, _)) => target.rank() <= picked.rank(),
            None => true,
        },
{
}

/// Unlimited is left alone for as long as the power source stays.
pub proof fn law_unlimited_is_not_refined_out_of(
    switcher: AutoSwitcher,
    inputs: AutoInputs,
    config: AutoConfig,
)
    requires
        !switcher.source_changed(inputs),
    ensures
        switcher.observes(inputs, config, PowerMode::Unlimited).1 is None,
{
}

/// A change of the power source is answered at once with the preferred mode of
/// the new one, where its system is on and the machine is not there already.
pub proof fn law_a_change_of_source_is_answered_at_once(
    switcher: AutoSwitcher,
    inputs: AutoInputs,
    config: AutoConfig,
    current: PowerMode,
)
    requires
        switcher.source_changed(inputs),
        config.acts_on(inputs.on_battery->0),
    ensures
        match switcher.observes(inputs, config, current).1 {
            Some(decision) => decision.from_transition && decision.mode == config.home(
                inputs.on_battery->0,
            ),
            None => current == config.home(inputs.on_battery->0),
        },
{
}

/// A change of the power source forgets the mode picked by hand, also where
/// the new source's system is off.
pub proof fn law_a_change_of_source_forgets_the_hand_picked_mode(
    switcher: AutoSwitcher,
    inputs: AutoInputs,
    config: AutoConfig,
    current: PowerMode,
)
    requires
        switcher.source_changed(inputs),
    ensures
        switcher.observes(inputs, config, current).0.manual is None,
{
}

/// The first sample is not taken for a change of the power source.
pub proof fn law_the_first_sample_is_no_transition(
    inputs: AutoInputs,
    config: AutoConfig,
    current: PowerMode,
)
    ensures
        match fresh().observes(inputs, config, current).1 {
            Some(decision) => !decision.from_transition,
            None => true,
        },
{
}

/// A refinement has to be the answer for as many samples in a row as the
/// configuration asks for.
pub proof fn law_a_refinement_has_to_hold(
    switcher: AutoSwitcher,
    inputs: AutoInputs,
    config: AutoConfig,
    current: PowerMode,
)
    ensures
        match switcher.observes(inputs, config, current).1 {
            Some(decision) => decision.from_transition || needed(config) == 1 || (
            switcher.pending is Some && (switcher.pending->0).0 == decision.mode && (
            switcher.pending->0).1 + 1 >= needed(config)),
            None => true,
        },
        match switcher.observes(inputs, config, current).0.pending {
            Some((_, count)) => count < needed(config),
            None => true,
        },
{
}

/// A machine in the mode that refinement works around stays there for as long
/// as it is cool, its battery is charged, and the load is between the
/// thresholds.
pub proof fn law_the_dead_band_holds_the_preferred_mode(
    inputs: AutoInputs,
    config: AutoConfig,
    on_battery: bool,
    baseline: Baseline,
)
    requires
        baseline.manual || in_range(baseline.mode, on_battery),
        !reaches(inputs.load_ratio as int, config.load_high),
        !within(inputs.load_ratio as int, config.load_low),
        inputs.battery_percent is Some ==> !within(
            inputs.battery_percent->0 as int,
            config.battery_low_percent,
        ),
    ensures
        refined(inputs, config, on_battery, false, baseline, baseline.mode) is None,
{
}

/// Heat outranks everything: a machine that counts as hot is never asked to
/// step up.
pub proof fn law_heat_never_steps_up(
    inputs: AutoInputs,
    config: AutoConfig,
    on_battery: bool,
    baseline: Baseline,
    current: PowerMode,
)
    requires
        config.back_off_when_hot,
    ensures
        match refined(inputs, config, on_battery, true, baseline, current) {
            Some((target, why)) => why == Why::Hot && target.rank() <= current.rank(),
            None => false,
        },
{
}

/// Between the two temperatures, and without a reading, the latch stays as it
/// is.
pub proof fn law_the_heat_latch_holds(hot: bool, temp: Option<i64>, config: AutoConfig)
    requires
        temp is Some ==> !reaches(temp->0 as int, config.temp_high_c) && !within(
            temp->0 as int,
            config.temp_low_c,
        ),
    ensures
        latched(hot, temp, config) == hot,
{
}

/// Every sample feeds the heat latch, one that answers a change of the power
/// source too.
pub proof fn law_every_sample_feeds_the_latch(
    switcher: AutoSwitcher,
    inputs: AutoInputs,
    config: AutoConfig,
    current: PowerMode,
)
    ensures
        switcher.observes(inputs, config, current).0.heat.hot == latched(
            switcher.heat.hot,
            inputs.temp_c,
            config,
        ),
{
}

/// The load per core is the load average shared out over the processors,
/// rounded down; with no average there is no load.
pub proof fn law_the_load_is_shared_out(load: i64, info: Option<Seq<char>>)
    ensures
        per_core(None, info) == 0,
        per_core(Some(load), info) * cores(info) <= load < (per_core(Some(load), info) + 1)
            * cores(info),
        cores(info) >= 1,
{
    let c = cores(info) as int;
    let q = load as int / c;
    assert(q * c <= load < (q + 1) * c) by (nonlinear_arith)
        requires
            c >= 1,
            q == load as int / c,
    ;
}

/// Every line that opens a processor's entry counts as one, and no other line
/// counts.
pub proof fn law_processors_are_counted(lines: Seq<Seq<char>>, line: Seq<char>)
    ensures
        processor_lines(lines.push(line)) == processor_lines(lines) + (if text::starts_with(
            line,
            "processor"@,
        ) {
            1int
        } else {
            0
        }),
        processor_lines(Seq::<Seq<char>>::empty()) == 0,
{
    assert(lines.push(line).drop_last() =~= lines);
}

/// A configuration has a problem exactly where a threshold is no number, a load
/// threshold is below nought, a band is empty or upside down, or the battery's
/// threshold is no percentage.
pub proof fn law_a_problem_is_found_exactly_where_there_is_one(
    config: AutoConfig,
    load_low: i64,
    load_high: i64,
    battery: i64,
    temp_low: i64,
    temp_high: i64,
)
    ensures
        config.wrong() is None ==> config.load_low is Millionths && config.load_high is Millionths
            && config.battery_low_percent is Millionths && config.temp_low_c is Millionths
            && config.temp_high_c is Millionths,
        config.load_low == Threshold::Millionths(load_low) && config.load_high
            == Threshold::Millionths(load_high) && config.battery_low_percent
            == Threshold::Millionths(battery) && config.temp_low_c == Threshold::Millionths(
            temp_low,
        ) && config.temp_high_c == Threshold::Millionths(temp_high) ==> {
            &&& config.wrong() is None <==> 0 <= load_low < load_high && temp_low < temp_high && 0
                <= battery <= 100_000_000
            &&& !(0 <= load_low < load_high) <==> (config.wrong() matches Some(m) && m.key
                == "power.err.loadBand"@)
        },
{
    reveal_strlit("power.err.loadBand");
    reveal_strlit("power.err.tempBand");
    reveal_strlit("power.err.batteryPercent");
    assert("power.err.loadBand"@.len() == 18);
    assert("power.err.tempBand"@.len() == 18);
    assert("power.err.batteryPercent"@.len() == 24);
    assert("power.err.loadBand"@[10] == 'l' && "power.err.tempBand"@[10] == 't');
}

/// Home on battery is Eco or Balanced and home on mains Balanced or
/// Performance: what the user prefers, or the nearest to it.
pub proof fn law_home_is_the_nearest_to_the_preference(config: AutoConfig)
    ensures
        config.home(true) == (match config.preferred_on_battery {
            PowerMode::Eco => PowerMode::Eco,
            _ => PowerMode::Balanced,
        }),
        config.home(false) == (match config.preferred_on_mains {
            PowerMode::Eco | PowerMode::Balanced => PowerMode::Balanced,
            _ => PowerMode::Performance,
        }),
{
}

/// The heat latch closes at the higher temperature and opens at the lower one.
pub proof fn law_the_heat_latch_closes_and_opens(
    hot: bool,
    temp: i64,
    low: i64,
    high: i64,
    config: AutoConfig,
)
    requires
        config.temp_high_c == Threshold::Millionths(high),
        config.temp_low_c == Threshold::Millionths(low),
        low < high,
    ensures
        temp >= high ==> latched(hot, Some(temp), config),
        temp <= low ==> !latched(hot, Some(temp), config),
        low < temp < high ==> latched(hot, Some(temp), config) == hot,
        latched(hot, None, config) == hot,
{
}

/// A hot machine goes one step below the mode it works around, not past the
/// lower end of what its power source allows, and never up from where it is.
pub proof fn law_a_hot_machine_steps_down(
    inputs: AutoInputs,
    config: AutoConfig,
    on_battery: bool,
    baseline: Baseline,
    current: PowerMode,
)
    requires
        config.back_off_when_hot,
    ensures
        ({
            let below = (match (baseline.mode, on_battery) {
                (PowerMode::Unlimited, _) => PowerMode::Performance,
                (PowerMode::Performance, _) => PowerMode::Balanced,
                (PowerMode::Balanced, true) => PowerMode::Eco,
                (PowerMode::Balanced, false) => PowerMode::Balanced,
                (PowerMode::Eco, _) => PowerMode::Eco,
            });
            refined(inputs, config, on_battery, true, baseline, current) == Some(
                (
                    if below.rank() <= current.rank() {
                        below
                    } else {
                        current
                    },
                    Why::Hot,
                ),
            )
        }),
{
}

/// Heat is no reason where the user turned that off: the machine is refined as
/// a cool one.
pub proof fn law_heat_can_be_disregarded(
    inputs: AutoInputs,
    config: AutoConfig,
    on_battery: bool,
    baseline: Baseline,
    current: PowerMode,
)
    requires
        !config.back_off_when_hot,
    ensures
        refined(inputs, config, on_battery, true, baseline, current) == refined(
            inputs,
            config,
            on_battery,
            false,
            baseline,
            current,
        ),
{
}

/// A battery at or below its threshold means Eco, whatever the load; on mains
/// its charge does not matter.
pub proof fn law_a_low_battery_means_eco(
    inputs: AutoInputs,
    config: AutoConfig,
    baseline: Baseline,
    current: PowerMode,
    percent: i64,
    threshold: i64,
)
    requires
        inputs.battery_percent == Some(percent),
        config.battery_low_percent == Threshold::Millionths(threshold),
    ensures
        percent <= threshold ==> refined(inputs, config, true, false, baseline, current) == Some(
            (PowerMode::Eco, Why::BatteryLow),
        ),
        refined(inputs, config, false, false, baseline, current) == refined(
            AutoInputs { battery_percent: None, ..inputs },
            config,
            false,
            false,
            baseline,
            current,
        ),
        percent > threshold ==> refined(inputs, config, true, false, baseline, current) == refined(
            AutoInputs { battery_percent: None, ..inputs },
            config,
            true,
            false,
            baseline,
            current,
        ),
{
}

/// A cool machine with nothing to say of its battery, around a mode of its
/// configuration: a mode that is never picked for its power source is left for
/// the nearest that is; a high load takes it to the upper end and idling to the
/// lower one; in between it goes home once the load has crossed the middle of
/// the band towards it, and otherwise stays.
pub proof fn law_the_load_decides(
    inputs: AutoInputs,
    config: AutoConfig,
    on_battery: bool,
    current: PowerMode,
    low: i64,
    high: i64,
)
    requires
        config.load_low == Threshold::Millionths(low),
        config.load_high == Threshold::Millionths(high),
        low < high,
        inputs.battery_percent is None,
    ensures
        ({
            let home = config.home(on_battery);
            let (floor, ceiling) = if on_battery {
                (PowerMode::Eco, PowerMode::Balanced)
            } else {
                (PowerMode::Balanced, PowerMode::Performance)
            };
            let load = inputs.load_ratio;
            refined(
                inputs,
                config,
                on_battery,
                false,
                Baseline { mode: home, manual: false },
                current,
            ) == (if current != floor && current != ceiling {
                Some(
                    (
                        if !on_battery && current == PowerMode::Eco {
                            PowerMode::Balanced
                        } else {
                            ceiling
                        },
                        Why::OutOfRange,
                    ),
                )
            } else if load >= high {
                Some((ceiling, Why::SustainedLoad))
            } else if load <= low {
                Some((floor, Why::Idle))
            } else if current == home {
                None
            } else if home == floor && 2 * load <= low + high {
                Some((home, Why::BackToPreferred))
            } else if home == ceiling && 2 * load >= low + high {
                Some((home, Why::BackToPreferred))
            } else {
                None
            })
        }),
{
}

/// Around a mode that was picked by hand: a high load takes the machine back to
/// it and never above it, idling one step below it, and in between it goes back
/// once the load has crossed the middle towards it. Unlimited counts as
/// Performance there.
pub proof fn law_a_hand_picked_mode_is_worked_around(
    inputs: AutoInputs,
    config: AutoConfig,
    on_battery: bool,
    picked: PowerMode,
    current: PowerMode,
    low: i64,
    high: i64,
)
    requires
        config.load_low == Threshold::Millionths(low),
        config.load_high == Threshold::Millionths(high),
        low < high,
        inputs.battery_percent is None,
    ensures
        ({
            let baseline = Baseline { mode: picked, manual: true };
            let back = if picked == PowerMode::Unlimited {
                PowerMode::Performance
            } else {
                picked
            };
            let below = (match (baseline.mode, on_battery) {
                (PowerMode::Unlimited, _) => PowerMode::Performance,
                (PowerMode::Performance, _) => PowerMode::Balanced,
                (PowerMode::Balanced, true) => PowerMode::Eco,
                (PowerMode::Balanced, false) => PowerMode::Balanced,
                (PowerMode::Eco, _) => PowerMode::Eco,
            });
            let load = inputs.load_ratio;
            refined(inputs, config, on_battery, false, baseline, current) == (if load >= high {
                Some((back, Why::SustainedLoad))
            } else if load <= low {
                Some((below, Why::Idle))
            } else if current.rank() > picked.rank() && 2 * load <= low + high {
                Some((back, Why::BackToPreferred))
            } else if current.rank() < picked.rank() && 2 * load >= low + high {
                Some((back, Why::BackToPreferred))
            } else {
                None
            })
        }),
{
}

/// What refinement works around is the mode picked by hand, where it is not the
/// preference itself, and otherwise the preference.
pub proof fn law_what_is_worked_around(
    switcher: AutoSwitcher,
    config: AutoConfig,
    on_battery: bool,
    m: PowerMode,
)
    ensures
        switcher.manual is None ==> switcher.works_around(config, on_battery) == (Baseline {
            mode: config.home(on_battery),
            manual: false,
        }),
        switcher.manual == Some(m) ==> switcher.works_around(config, on_battery) == (Baseline {
            mode: m,
            manual: m != config.home(on_battery),
        }),
{
}

/// Each reason is told by its own name, with the figure it rests on.
pub proof fn law_each_reason_is_told(inputs: AutoInputs, temp: i64, percent: i64)
    ensures
        Why::Hot.said(inputs).key == "power.autoReason.hot"@,
        inputs.temp_c == Some(temp) ==> Why::Hot.said(inputs).params == seq![
            ("temp"@, number::fixed(temp as int, 1)),
        ],
        Why::BatteryLow.said(inputs).key == "power.autoReason.batteryLow"@,
        inputs.battery_percent == Some(percent) ==> Why::BatteryLow.said(inputs).params == seq![
            ("percent"@, number::fixed(percent as int, 1)),
        ],
        Why::SustainedLoad.said(inputs).key == "power.autoReason.sustainedLoad"@,
        Why::SustainedLoad.said(inputs).params == seq![
            ("percent"@, number::percent(inputs.load_ratio as int)),
        ],
        Why::Idle.said(inputs).key == "power.autoReason.idle"@,
        Why::BackToPreferred.said(inputs).key == "power.autoReason.backToPreferred"@,
        Why::OutOfRange.said(inputs).key == "power.autoReason.outOfRange"@,
{
}

/// Plugging the machine in, or out, is answered at once where the system of the
/// new source is on: with its home, for that reason, and with everything that
/// was under way forgotten. The very same sample on the same source is no such
/// answer.
pub proof fn law_the_cable_is_answered(
    switcher: AutoSwitcher,
    inputs: AutoInputs,
    config: AutoConfig,
    current: PowerMode,
    on_battery: bool,
)
    requires
        inputs.on_battery == Some(on_battery),
        switcher.last_on_battery == Some(!on_battery),
    ensures
        ({
            let (after, decision) = switcher.observes(inputs, config, current);
            let on = if on_battery {
                config.eco_on_battery
            } else {
                config.performance_on_load
            };
            &&& after.last_on_battery == Some(on_battery)
            &&& after.manual is None
            &&& on && current != config.home(on_battery) ==> (decision matches Some(d)
                && d.from_transition && d.mode == config.home(on_battery) && d.reason.key == (
            if on_battery {
                "power.autoReason.toBattery"@
            } else {
                "power.autoReason.pluggedIn"@
            })) && after.pending is None
            &&& on && current == config.home(on_battery) ==> decision is None && after.pending is
                None
            &&& !on ==> decision is None
        }),
        (AutoSwitcher { last_on_battery: Some(on_battery), ..switcher }).observes(
            inputs,
            config,
            current,
        ).1 matches Some(d) ==> !d.from_transition,
{
}

/// A machine without a battery is refined as one on mains, and its power source
/// is never taken to change.
pub proof fn law_no_battery_is_treated_as_mains(
    switcher: AutoSwitcher,
    inputs: AutoInputs,
    config: AutoConfig,
    current: PowerMode,
)
    requires
        inputs.on_battery is None,
    ensures
        switcher.observes(inputs, config, current).1 == (AutoSwitcher {
            last_on_battery: Some(false),
            ..switcher
        }).observes((AutoInputs { on_battery: Some(false), ..inputs }), config, current).1,
        switcher.observes(inputs, config, current).0.last_on_battery == switcher.last_on_battery,
        switcher.observes(inputs, config, current).0.manual == switcher.manual,
{
    let felt = AutoSwitcher {
        heat: HeatLatch { hot: latched(switcher.heat.hot, inputs.temp_c, config) },
        ..switcher
    };
    let plugged = AutoSwitcher { last_on_battery: Some(false), ..switcher };
    let seen = AutoSwitcher { last_on_battery: Some(false), ..felt };
    let told = AutoInputs { on_battery: Some(false), ..inputs };
    assert(!plugged.source_changed(told));
    assert(plugged.observes(told, config, current) == seen.refines(told, config, false, current));
    assert(felt.works_around(config, false) == seen.works_around(config, false));
    let baseline = felt.works_around(config, false);
    assert(refined(inputs, config, false, felt.heat.hot, baseline, current) == refined(
        told,
        config,
        false,
        felt.heat.hot,
        baseline,
        current,
    ));
    assert(forall|why: Why| #[trigger] why.said(inputs) == why.said(told));
}

/// A supervisor whose system for the power source is off, or that finds the
/// machine in Unlimited, does nothing, and forgets what it was about.
pub proof fn law_a_system_that_is_off_stays_out(
    switcher: AutoSwitcher,
    inputs: AutoInputs,
    config: AutoConfig,
    current: PowerMode,
    on_battery: bool,
)
    requires
        inputs.on_battery == Some(on_battery),
        switcher.last_on_battery is None || switcher.last_on_battery == Some(on_battery),
        current == PowerMode::Unlimited || (on_battery && !config.eco_on_battery) || (!on_battery
            && !config.performance_on_load),
    ensures
        switcher.observes(inputs, config, current).1 is None,
        switcher.observes(inputs, config, current).0.pending is None,
{
    assert(!switcher.source_changed(inputs));
}

/// The switcher after the same sample so many times over, none of which was
/// acted on.
pub open spec fn after_samples(
    switcher: AutoSwitcher,
    inputs: AutoInputs,
    config: AutoConfig,
    current: PowerMode,
    n: nat,
) -> AutoSwitcher
    decreases n,
{
    if n == 0 {
        switcher
    } else {
        after_samples(switcher, inputs, config, current, (n - 1) as nat).observes(
            inputs,
            config,
            current,
        ).0
    }
}

/// Conditions that last are acted on, and not before they have lasted: where the
/// same sample keeps pointing at another mode, the switch comes with the sample
/// that makes up the number asked for, to that mode and for that reason.
pub proof fn law_lasting_conditions_are_acted_on(
    switcher: AutoSwitcher,
    inputs: AutoInputs,
    config: AutoConfig,
    current: PowerMode,
    on_battery: bool,
    target: PowerMode,
    why: Why,
    n: nat,
)
    requires
        inputs.on_battery == Some(on_battery),
        switcher.last_on_battery == Some(on_battery),
        switcher.pending is None,
        current != PowerMode::Unlimited,
        config.acts_on(on_battery),
        refined(
            inputs,
            config,
            on_battery,
            latched(switcher.heat.hot, inputs.temp_c, config),
            switcher.works_around(config, on_battery),
            current,
        ) == Some((target, why)),
        target != current,
        n < config.samples_to_switch || n == 0,
    ensures
        ({
            let before = after_samples(switcher, inputs, config, current, n);
            let decision = before.observes(inputs, config, current).1;
            if n + 1 < config.samples_to_switch {
                decision is None
            } else {
                decision == Some(
                    DecisionView {
                        mode: target,
                        reason: why.said(inputs),
                        from_transition: false,
                    },
                )
            }
        }),
    decreases n,
{
    lemma_samples_add_up(switcher, inputs, config, current, on_battery, target, why, n);
}

proof fn lemma_samples_add_up(
    switcher: AutoSwitcher,
    inputs: AutoInputs,
    config: AutoConfig,
    current: PowerMode,
    on_battery: bool,
    target: PowerMode,
    why: Why,
    n: nat,
)
    requires
        inputs.on_battery == Some(on_battery),
        switcher.last_on_battery == Some(on_battery),
        switcher.pending is None,
        current != PowerMode::Unlimited,
        config.acts_on(on_battery),
        refined(
            inputs,
            config,
            on_battery,
            latched(switcher.heat.hot, inputs.temp_c, config),
            switcher.works_around(config, on_battery),
            current,
        ) == Some((target, why)),
        target != current,
        n < config.samples_to_switch || n == 0,
    ensures
        ({
            let before = after_samples(switcher, inputs, config, current, n);
            &&& before.last_on_battery == Some(on_battery)
            &&& before.manual == switcher.manual
            &&& before.heat.hot == (if n == 0 {
                switcher.heat.hot
            } else {
                latched(switcher.heat.hot, inputs.temp_c, config)
            })
            &&& n == 0 ==> before.pending is None
            &&& n > 0 ==> before.pending == Some((target, n as u32))
        }),
    decreases n,
{
    if n > 0 {
        lemma_samples_add_up(
            switcher,
            inputs,
            config,
            current,
            on_battery,
            target,
            why,
            (n - 1) as nat,
        );
        let before = after_samples(switcher, inputs, config, current, (n - 1) as nat);
        assert(latched(before.heat.hot, inputs.temp_c, config) == latched(
            switcher.heat.hot,
            inputs.temp_c,
            config,
        ));
        assert(before.works_around(config, on_battery) == switcher.works_around(
            config,
            on_battery,
        ));
    }
}

/// A value reaches a threshold or is within it by its size; every value reaches
/// minus infinity and is within infinity, and none is on either side of what is
/// no number.
pub proof fn law_thresholds_divide_the_values(v: int, t: i64)
    ensures
        reaches(v, Threshold::Millionths(t)) <==> v >= t,
        within(v, Threshold::Millionths(t)) <==> v <= t,
        reaches(v, Threshold::MinusInfinite) && !within(v, Threshold::MinusInfinite),
        !reaches(v, Threshold::Infinite) && within(v, Threshold::Infinite),
        !reaches(v, Threshold::NotANumber) && !within(v, Threshold::NotANumber),
{
}

/// The middle of two thresholds has every value on a side of it, or on both where
/// it is the middle; the middle with one infinity is that infinity, whichever of
/// the two it is, and opposite infinities or no number have none.
pub proof fn law_the_middle_divides_the_values(v: int, h: i64, l: i64, t: Threshold)
    ensures
        middle(v, Threshold::Millionths(h), Threshold::Millionths(l)) == (
            v - l <= h - v,
            v - l >= h - v,
        ),
        t is Millionths || t is Infinite ==> middle(v, Threshold::Infinite, t) == (true, false)
            && middle(v, t, Threshold::Infinite) == (true, false),
        t is Millionths || t is MinusInfinite ==> middle(v, Threshold::MinusInfinite, t) == (
            false,
            true,
        ) && middle(v, t, Threshold::MinusInfinite) == (false, true),
        middle(v, Threshold::Infinite, Threshold::MinusInfinite) == (false, false),
        middle(v, Threshold::MinusInfinite, Threshold::Infinite) == (false, false),
        middle(v, Threshold::NotANumber, t) == (false, false),
        middle(v, t, Threshold::NotANumber) == (false, false),
{
}

} // verus!
