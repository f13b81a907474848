//! The power module: the settings, the mode the machine is in, and what each
//! request, each tick of the supervisor and each look at the machine does.
//!
//! Times are in milliseconds of a clock that does not go back.
use vstd::prelude::*;
use vstd::string::*;

use crate::error::ErrorKind;
use crate::error::ErrorView;
use crate::error::ModuleError;
use crate::json;
use crate::json::Json;
use crate::msg;
use crate::msg::Msg;
use crate::msg::MsgView;
use crate::number;
use crate::power::auto::AutoConfig;
use crate::power::auto::AutoDecision;
use crate::power::auto::AutoInputs;
use crate::power::auto::AutoSwitcher;
use crate::power::auto::DecisionView;
use crate::power::backend::ApplyReport;
use crate::power::backend::BackendState;
use crate::power::backend::ReportView;
use crate::power::limits;
use crate::power::limits::LimitPaths;
use crate::power::limits::Limits;
use crate::power::limits::LockSource;
use crate::power::limits::ModeTuning;
use crate::power::limits::Tuning;
use crate::power::limits::ZoneReading;
use crate::power::mode;
use crate::power::mode::PowerMode;
use crate::power::watch;
use crate::power::watch::Knobs;
use crate::power::watch::KnobsView;
use crate::power::watch::Override;
use crate::power::watch::OverrideView;
use crate::text;

verus! {

// --- the settings --------------------------------------------------------

/// What is saved. Every default is "leave the machine alone".
#[derive(Debug, Clone, Copy, PartialEq, Eq, Structural)]
pub struct PowerConfig {
    pub auto: AutoConfig,
    /// The last mode that took effect.
    pub mode: Option<PowerMode>,
    /// Whether that mode is applied again at the next start.
    pub restore_mode_on_start: bool,
    /// Whether a mode also changes the operating system's power profile.
    pub apply_to_os_profile: bool,
    /// The machine's own power limits: the ceiling for everything else.
    pub stock_limits: Option<Limits>,
    pub tuning: ModeTuning,
    /// The envelope on the machine was written for a tuned mode.
    pub envelope_owned: bool,
}

pub open spec fn default_config() -> PowerConfig {
    PowerConfig {
        auto: crate::power::auto::default_config(),
        mode: None,
        restore_mode_on_start: false,
        apply_to_os_profile: false,
        stock_limits: None,
        tuning: limits::untuned(),
        envelope_owned: false,
    }
}

impl Default for PowerConfig {
    fn default() -> (r: PowerConfig)
        ensures
            r == default_config(),
    {
        PowerConfig {
            auto: AutoConfig::default(),
            mode: None,
            restore_mode_on_start: false,
            apply_to_os_profile: false,
            stock_limits: None,
            tuning: ModeTuning::default(),
            envelope_owned: false,
        }
    }
}

pub open spec fn or_none(l: Option<Limits>) -> Limits {
    match l {
        Some(l) => l,
        None => limits::no_limits(),
    }
}

fn known_limits(l: Option<Limits>) -> (r: Limits)
    ensures
        r == or_none(l),
{
    match l {
        Some(l) => l,
        None => Limits::default(),
    }
}

/// A ceiling that a laptop could have.
pub open spec fn is_believable(l: Limits) -> bool {
    &&& l.pl1_uw is Some ==> l.pl1_uw->0 <= limits::MAX_SANE_UW
    &&& l.pl2_uw is Some ==> l.pl2_uw->0 <= limits::MAX_SANE_UW
}

impl PowerConfig {
    pub open spec fn stock(self) -> Limits {
        or_none(self.stock_limits)
    }

    pub open spec fn wf(self) -> bool {
        is_believable(self.stock())
    }
}

pub open spec fn larger(a: Option<u64>, b: Option<u64>) -> Option<u64> {
    match (a, b) {
        (Some(x), Some(y)) => Some(
            if x >= y {
                x
            } else {
                y
            },
        ),
        (Some(_), None) => a,
        (None, _) => b,
    }
}

fn pick_larger(a: Option<u64>, b: Option<u64>) -> (r: Option<u64>)
    ensures
        r == larger(a, b),
{
    match (a, b) {
        (Some(x), Some(y)) => Some(
            if x >= y {
                x
            } else {
                y
            },
        ),
        (Some(_), None) => a,
        (None, _) => b,
    }
}

pub open spec fn highest_of(stored: Limits, observed: Limits) -> Limits {
    Limits {
        pl1_uw: larger(stored.pl1_uw, observed.pl1_uw),
        pl2_uw: larger(stored.pl2_uw, observed.pl2_uw),
        pl4_uw: larger(stored.pl4_uw, observed.pl4_uw),
    }
}

/// The larger of each limit: a higher reading than the one on file can only
/// have come from the firmware, and a lower one is a cap still in force.
pub fn highest(stored: Option<Limits>, observed: Limits) -> (r: Limits)
    ensures
        r == highest_of(or_none(stored), observed),
{
    let stored = known_limits(stored);
    Limits {
        pl1_uw: pick_larger(stored.pl1_uw, observed.pl1_uw),
        pl2_uw: pick_larger(stored.pl2_uw, observed.pl2_uw),
        pl4_uw: pick_larger(stored.pl4_uw, observed.pl4_uw),
    }
}

/// The stock envelope to trust, of the one on file and what the machine reads.
pub open spec fn trusted_stock(stored: Option<Limits>, observed: Limits) -> Limits {
    let seen = observed.believable();
    let on_file = or_none(stored).believable();
    let kept = Limits { pl4_uw: limits::held_under(on_file.pl4_uw, seen.pl4_uw), ..on_file };
    highest_of(kept, seen).in_order()
}

/// The stock envelope to trust: without values no laptop has, with the peak
/// limit never above the machine's own word, and in order.
pub fn sane_stock(stored: Option<Limits>, observed: Limits) -> (r: Limits)
    ensures
        r == trusted_stock(stored, observed),
        is_believable(r),
{
    let observed = observed.without_absurd();
    let on_file = known_limits(stored).without_absurd();
    let pl4_uw = match (on_file.pl4_uw, observed.pl4_uw) {
        (Some(a), Some(b)) => Some(
            if a <= b {
                a
            } else {
                b
            },
        ),
        _ => on_file.pl4_uw,
    };
    let kept = Limits { pl1_uw: on_file.pl1_uw, pl2_uw: on_file.pl2_uw, pl4_uw };
    highest(Some(kept), observed).ordered()
}

/// The mode that a restore at startup applies: a machine that starts on battery
/// does not get a mode back that is for mains.
pub open spec fn mode_at_boot(
    saved: PowerMode,
    config: PowerConfig,
    on_battery: Option<bool>,
) -> PowerMode {
    if (saved == PowerMode::Performance || saved == PowerMode::Unlimited) && on_battery == Some(
        true,
    ) {
        config.auto.home(true)
    } else {
        saved
    }
}

pub fn boot_mode(saved: PowerMode, config: &PowerConfig, on_battery: Option<bool>) -> (r: PowerMode)
    ensures
        r == mode_at_boot(saved, *config, on_battery),
{
    let unplugged = match on_battery {
        Some(b) => b,
        None => false,
    };
    if (saved == PowerMode::Performance || saved == PowerMode::Unlimited) && unplugged {
        config.auto.preferred(true)
    } else {
        saved
    }
}

// --- watts and percentages -----------------------------------------------

pub open spec fn err_no_package_limit() -> ErrorView {
    ErrorView::Localised(
        ErrorKind::NotCapable,
        msg::message(
            "power.err.noPackageLimit"@,
            seq![],
            "this machine exposes no package power limit, so there is nothing to tune"@,
        ),
    )
}

pub open spec fn err_watts_positive() -> ErrorView {
    ErrorView::Localised(
        ErrorKind::InvalidParams,
        msg::message(
            "power.err.wattsPositive"@,
            seq![],
            "power limits must be a positive number of watts"@,
        ),
    )
}

/// A share of a stock limit in whole percent, halves rounded up, and from one
/// to a hundred.
pub open spec fn percentage(uw: int, stock_uw: int) -> int {
    if stock_uw == 0 {
        100
    } else {
        let percent = (200 * uw + stock_uw) / (2 * stock_uw);
        if percent < 1 {
            1
        } else if percent > 100 {
            100
        } else {
            percent
        }
    }
}

/// Microwatts as a percentage of a stock limit; `None` for watts that are no
/// number.
pub open spec fn share_of(uw: Option<i64>, stock_uw: Option<u64>) -> Result<int, ErrorView> {
    match stock_uw {
        None => Err(err_no_package_limit()),
        Some(stock) => match uw {
            None => Err(err_watts_positive()),
            Some(n) => if n <= 0 {
                Err(err_watts_positive())
            } else {
                Ok(percentage(n as int, stock as int))
            },
        },
    }
}

pub open spec fn byte_result(r: Result<u8, ModuleError>) -> Result<int, ErrorView> {
    match r {
        Ok(n) => Ok(n as int),
        Err(e) => Err(e@),
    }
}

/// Microwatts as a percentage of a stock limit. Without a stock limit there is
/// nothing to take a percentage of.
pub fn percent_of(uw: Option<i64>, stock_uw: Option<u64>) -> (r: Result<u8, ModuleError>)
    ensures
        byte_result(r) == share_of(uw, stock_uw),
        r is Ok ==> 1 <= r->Ok_0 <= 100,
{
    let stock: u64 = match stock_uw {
        Some(stock) => stock,
        None => {
            return Err(
                ModuleError::localised(
                    ErrorKind::NotCapable,
                    Msg::plain(
                        "power.err.noPackageLimit",
                        "this machine exposes no package power limit, so there is nothing to tune",
                    ),
                ),
            );
        },
    };
    let n: i64 = match uw {
        Some(n) => n,
        None => 0,
    };
    if n <= 0 {
        return Err(
            ModuleError::localised(
                ErrorKind::InvalidParams,
                Msg::plain(
                    "power.err.wattsPositive",
                    "power limits must be a positive number of watts",
                ),
            ),
        );
    }
    if stock == 0 {
        return Ok(100);
    }
    let percent: u128 = (200 * (n as u128) + stock as u128) / (2 * (stock as u128));
    if percent < 1 {
        Ok(1)
    } else if percent > 100 {
        Ok(100)
    } else {
        Ok(percent as u8)
    }
}

// --- the module ----------------------------------------------------------

pub struct PowerModule {
    pub mode: PowerMode,
    pub config: PowerConfig,
    pub switcher: AutoSwitcher,
    /// When the user last set a mode by hand.
    pub manual_override_at: Option<u64>,
    pub last_auto_switch: Option<Msg>,
    /// The last write to disk failed.
    pub last_save_error: Option<String>,
    /// What the knobs were left at, and when.
    pub expected: Knobs,
    pub expected_at: u64,
    /// Knobs that another program changed since a mode was last applied.
    pub overrides: Vec<Override>,
    /// The last mode that another program put the machine in.
    pub last_external: Option<Msg>,
}

#[verifier::ext_equal]
pub struct ModuleView {
    pub mode: PowerMode,
    pub config: PowerConfig,
    pub switcher: AutoSwitcher,
    pub manual_override_at: Option<u64>,
    pub last_auto_switch: Option<MsgView>,
    pub last_save_error: Option<Seq<char>>,
    pub expected: KnobsView,
    pub expected_at: u64,
    pub overrides: Seq<OverrideView>,
    pub last_external: Option<MsgView>,
}

impl View for PowerModule {
    type V = ModuleView;

    open spec fn view(&self) -> ModuleView {
        ModuleView {
            mode: self.mode,
            config: self.config,
            switcher: self.switcher,
            manual_override_at: self.manual_override_at,
            last_auto_switch: msg::opt_says(self.last_auto_switch),
            last_save_error: text::opt_view(self.last_save_error),
            expected: self.expected@,
            expected_at: self.expected_at,
            overrides: watch::findings(self.overrides@),
            last_external: msg::opt_says(self.last_external),
        }
    }
}

impl ModuleView {
    /// The ceiling is believable.
    pub open spec fn wf(self) -> bool {
        self.config.wf()
    }
}

/// How long ago something was.
pub open spec fn elapsed(now: u64, at: u64) -> int {
    if now >= at {
        now - at
    } else {
        0
    }
}

fn since(now: u64, at: u64) -> (r: u64)
    ensures
        r == elapsed(now, at),
{
    if now >= at {
        now - at
    } else {
        0
    }
}

// --- starting ------------------------------------------------------------

/// The module as it starts, before a mode is restored.
pub open spec fn started(
    config: PowerConfig,
    observed: Limits,
    found: Option<PowerMode>,
    profile: Option<Seq<char>>,
    now: u64,
) -> ModuleView {
    ModuleView {
        mode: match found {
            Some(m) => m,
            None => PowerMode::Balanced,
        },
        config: PowerConfig {
            auto: AutoConfig { enabled: config.auto.enabled && config.auto.usable(), ..config.auto },
            stock_limits: Some(trusted_stock(config.stock_limits, observed)),
            ..config
        },
        switcher: crate::power::auto::fresh(),
        manual_override_at: None,
        last_auto_switch: None,
        last_save_error: None,
        expected: KnobsView { platform_profile: profile, ..watch::no_knobs() },
        expected_at: now,
        overrides: seq![],
        last_external: None,
    }
}

impl PowerModule {
    /// The module where nothing was ever saved.
    pub fn new(
        observed: Limits,
        found: Option<PowerMode>,
        profile: Option<String>,
        now: u64,
    ) -> (r: PowerModule)
        ensures
            r@ == started(default_config(), observed, found, text::opt_view(profile), now),
            r@.wf(),
    {
        PowerModule::with_store(PowerConfig::default(), observed, found, profile, now)
    }

    /// The module with the settings that were saved, on a machine with these
    /// limits, in this mode and with this firmware profile. A supervisor that
    /// could not settle is switched off.
    pub fn with_store(
        config: PowerConfig,
        observed: Limits,
        found: Option<PowerMode>,
        profile: Option<String>,
        now: u64,
    ) -> (r: PowerModule)
        ensures
            r@ == started(config, observed, found, text::opt_view(profile), now),
            r@.wf(),
    {
        let mut config = config;
        if config.auto.enabled && config.auto.problem().is_some() {
            config.auto.enabled = false;
        }
        config.stock_limits = Some(sane_stock(config.stock_limits, observed));
        let mode = match found {
            Some(m) => m,
            None => PowerMode::Balanced,
        };
        let mut expected = Knobs::default();
        expected.platform_profile = profile;
        let overrides: Vec<Override> = Vec::new();
        proof {
            assert(watch::findings(overrides@) =~= seq![]);
        }
        PowerModule {
            mode,
            config,
            switcher: AutoSwitcher::default(),
            manual_override_at: None,
            last_auto_switch: None,
            last_save_error: None,
            expected,
            expected_at: now,
            overrides,
            last_external: None,
        }
    }

    /// The mode to apply at startup, where that is wanted.
    pub fn restore_target(&self, on_battery: Option<bool>) -> (r: Option<PowerMode>)
        ensures
            r == (if self.config.restore_mode_on_start && self.config.mode is Some {
                Some(mode_at_boot(self.config.mode->0, self.config, on_battery))
            } else {
                None::<PowerMode>
            }),
    {
        if !self.config.restore_mode_on_start {
            return None;
        }
        match self.config.mode {
            Some(saved) => Some(boot_mode(saved, &self.config, on_battery)),
            None => None,
        }
    }

    /// Takes what restoring a mode came to.
    pub fn restored(&mut self, mode: PowerMode, report: &ApplyReport, now: u64)
        ensures
            final(self)@ == (ModuleView {
                mode: if report@.empty() {
                    old(self)@.mode
                } else {
                    mode
                },
                expected: report@.expected,
                expected_at: now,
                ..old(self)@
            }),
            old(self)@.wf() ==> final(self)@.wf(),
    {
        self.expected = report.expected.copy();
        self.expected_at = now;
        if !report.is_empty() {
            self.mode = mode;
        }
    }

    /// Records whether the settings could be saved.
    pub fn saved(&mut self, result: Result<(), String>)
        ensures
            final(self)@ == (ModuleView {
                last_save_error: match result {
                    Ok(()) => None,
                    Err(e) => Some(e@),
                },
                ..old(self)@
            }),
            old(self)@.wf() ==> final(self)@.wf(),
    {
        match result {
            Ok(()) => {
                self.last_save_error = None;
            },
            Err(e) => {
                self.last_save_error = Some(e);
            },
        }
    }
}

// --- the envelope --------------------------------------------------------

/// Whether a mode writes the envelope: where somebody tuned it, or where the
/// one on the machine is still a tuned mode's.
pub open spec fn writes_envelope(config: PowerConfig, m: PowerMode) -> bool {
    config.tuning.of(m) != limits::untouched() || config.envelope_owned
}

/// The limits that a mode asks for, under stock.
pub open spec fn envelope_target(config: PowerConfig, m: PowerMode) -> Limits {
    config.tuning.of(m).asks(config.stock()).under_stock(config.stock())
}

/// What the two parts of the envelope came to.
pub struct EnvelopeDone {
    /// The lines of the limits that took, and of those that failed.
    pub applied: Vec<String>,
    pub failed: Vec<String>,
    /// The limits as they read afterwards.
    pub limits: Limits,
    /// What writing turbo came to; nothing where it was as asked.
    pub turbo: Option<Result<String, String>>,
    /// Turbo as it reads afterwards.
    pub turbo_now: Option<bool>,
}

#[verifier::ext_equal]
pub struct DoneView {
    pub applied: Seq<Seq<char>>,
    pub failed: Seq<Seq<char>>,
    pub limits: Limits,
    pub turbo: Option<Result<Seq<char>, Seq<char>>>,
    pub turbo_now: Option<bool>,
}

impl View for EnvelopeDone {
    type V = DoneView;

    open spec fn view(&self) -> DoneView {
        DoneView {
            applied: text::views(self.applied@),
            failed: text::views(self.failed@),
            limits: self.limits,
            turbo: match self.turbo {
                Some(r) => Some(limits::lines_view(r)),
                None => None,
            },
            turbo_now: self.turbo_now,
        }
    }
}

/// A failure names the limit.
pub open spec fn refused(failed: Seq<Seq<char>>, label: Seq<char>) -> bool {
    exists|i: int| 0 <= i < failed.len() && text::starts_with(#[trigger] failed[i], label)
}

/// How a failure of all the limits begins.
pub const ALL_LIMITS: &'static str = "PL:";

/// The limit to watch: as it reads now, where it was asked for and did not
/// fail, by itself or with all the others.
pub open spec fn to_watch(
    wanted: Option<u64>,
    now: Option<u64>,
    failed: Seq<Seq<char>>,
    label: Seq<char>,
) -> Option<u64> {
    if wanted is Some && !refused(failed, label) && !refused(failed, ALL_LIMITS@) {
        now
    } else {
        None
    }
}

pub open spec fn empty_report() -> ReportView {
    ReportView {
        applied: seq![],
        failed: seq![],
        expected: watch::no_knobs(),
        rolled_back: false,
    }
}

pub open spec fn envelope_report(config: PowerConfig, m: PowerMode, done: DoneView) -> ReportView {
    let target = envelope_target(config, m);
    if !writes_envelope(config, m) {
        empty_report()
    } else {
        ReportView {
            applied: done.applied + (match done.turbo {
                Some(Ok(line)) => seq![line],
                _ => seq![],
            }),
            failed: done.failed + (match done.turbo {
                Some(Err(line)) => seq![line],
                _ => seq![],
            }),
            expected: KnobsView {
                turbo: match done.turbo {
                    Some(Err(_)) => None,
                    _ => done.turbo_now,
                },
                limits: Limits {
                    pl1_uw: to_watch(target.pl1_uw, done.limits.pl1_uw, done.failed, "PL1"@),
                    pl2_uw: to_watch(target.pl2_uw, done.limits.pl2_uw, done.failed, "PL2"@),
                    pl4_uw: to_watch(target.pl4_uw, done.limits.pl4_uw, done.failed, "PL4"@),
                },
                ..watch::no_knobs()
            },
            rolled_back: false,
        }
    }
}

/// Whether the envelope is a tuned mode's afterwards: until the stock one is
/// really back.
pub open spec fn owns_envelope(config: PowerConfig, m: PowerMode, done: DoneView) -> bool {
    if !writes_envelope(config, m) {
        config.envelope_owned
    } else {
        config.tuning.of(m) != limits::untouched() || envelope_report(
            config,
            m,
            done,
        ).failed.len() > 0
    }
}

fn any_starts(list: &Vec<String>, label: &str) -> (r: bool)
    ensures
        r == refused(text::views(list@), label@),
{
    let n: usize = list.len();
    let mut i: usize = 0;
    while i < n
        invariant
            n == list@.len(),
            i <= n,
            forall|k: int| 0 <= k < i ==> !text::starts_with(#[trigger] list@[k]@, label@),
        decreases n - i,
    {
        if text::str_starts(list[i].as_str(), label) {
            proof {
                assert(text::views(list@)[i as int] == list@[i as int]@);
            }
            return true;
        }
        i = i + 1;
    }
    proof {
        assert forall|k: int| 0 <= k < list@.len() implies !text::starts_with(
            #[trigger] text::views(list@)[k],
            label@,
        ) by {
            assert(!text::starts_with(list@[k]@, label@));
        }
    }
    false
}

fn watch_limit(
    wanted: Option<u64>,
    now: Option<u64>,
    failed: &Vec<String>,
    label: &str,
) -> (r: Option<u64>)
    ensures
        r == to_watch(wanted, now, text::views(failed@), label@),
{
    if wanted.is_some() && !any_starts(failed, label) && !any_starts(failed, ALL_LIMITS) {
        now
    } else {
        None
    }
}

impl PowerModule {
    /// The limits and the turbo setting that a mode writes; nothing for a mode
    /// that leaves the envelope alone.
    pub fn envelope_for(&self, m: PowerMode) -> (r: Option<(Limits, bool)>)
        requires
            self@.wf(),
        ensures
            r == (if writes_envelope(self.config, m) {
                Some((envelope_target(self.config, m), self.config.tuning.of(m).turbo))
            } else {
                None
            }),
    {
        let tuning = self.config.tuning.get(m);
        if tuning.is_default() && !self.config.envelope_owned {
            return None;
        }
        let stock = known_limits(self.config.stock_limits);
        proof {
            limits::law_a_believable_envelope_can_be_tuned(tuning, stock);
        }
        Some((tuning.target(stock).clamp_to_stock(stock), tuning.turbo))
    }

    /// Takes what writing a mode's envelope came to.
    pub fn apply_envelope(&mut self, m: PowerMode, done: EnvelopeDone) -> (r: ApplyReport)
        requires
            old(self)@.wf(),
        ensures
            r@ == envelope_report(old(self).config, m, done@),
            final(self)@ == (ModuleView {
                config: PowerConfig {
                    envelope_owned: owns_envelope(old(self).config, m, done@),
                    ..old(self).config
                },
                ..old(self)@
            }),
            final(self)@.wf(),
    {
        let target = match self.envelope_for(m) {
            Some((target, _)) => target,
            None => {
                let report = ApplyReport {
                    applied: Vec::new(),
                    failed: Vec::new(),
                    expected: Knobs::default(),
                    rolled_back: false,
                };
                proof {
                    assert(report@ =~= empty_report());
                }
                return report;
            },
        };
        let ghost seen = done@;
        let mut expected = Knobs::default();
        expected.limits = Limits {
            pl1_uw: watch_limit(target.pl1_uw, done.limits.pl1_uw, &done.failed, "PL1"),
            pl2_uw: watch_limit(target.pl2_uw, done.limits.pl2_uw, &done.failed, "PL2"),
            pl4_uw: watch_limit(target.pl4_uw, done.limits.pl4_uw, &done.failed, "PL4"),
        };
        let mut applied = done.applied;
        let mut failed = done.failed;
        match done.turbo {
            Some(Ok(line)) => {
                expected.turbo = done.turbo_now;
                text::push_string(&mut applied, line);
            },
            Some(Err(line)) => {
                text::push_string(&mut failed, line);
            },
            None => {
                expected.turbo = done.turbo_now;
            },
        }
        let tuning = self.config.tuning.get(m);
        let report = ApplyReport { applied, failed, expected, rolled_back: false };
        proof {
            assert(report@ =~= envelope_report(old(self).config, m, seen));
        }
        self.config.envelope_owned = !tuning.is_default() || report.failed.len() > 0;
        report
    }
}

/// A whole profile's report: the mechanisms', and the envelope's where it was
/// written at all.
pub open spec fn profile_report(backend: ReportView, envelope: ReportView) -> ReportView {
    if backend.rolled_back {
        backend
    } else {
        ReportView {
            applied: backend.applied + envelope.applied,
            failed: backend.failed + envelope.failed,
            expected: KnobsView {
                turbo: envelope.expected.turbo,
                limits: envelope.expected.limits,
                ..backend.expected
            },
            rolled_back: false,
        }
    }
}

fn append_all(list: &mut Vec<String>, more: Vec<String>)
    ensures
        text::views(final(list)@) == text::views(old(list)@) + text::views(more@),
{
    let n: usize = more.len();
    let ghost start = text::views(list@);
    let mut i: usize = 0;
    proof {
        assert(start + text::views(more@).take(0) =~= start);
    }
    while i < n
        invariant
            n == more@.len(),
            i <= n,
            text::views(list@) == start + text::views(more@).take(i as int),
        decreases n - i,
    {
        text::push_string(list, more[i].clone());
        i = i + 1;
        proof {
            assert(text::views(list@) =~= start + text::views(more@).take(i as int));
        }
    }
    proof {
        assert(text::views(more@).take(n as int) =~= text::views(more@));
    }
}

/// Puts the two halves of a profile together.
pub fn apply_profile(backend: ApplyReport, envelope: ApplyReport) -> (r: ApplyReport)
    ensures
        r@ == profile_report(backend@, envelope@),
{
    if backend.rolled_back {
        return backend;
    }
    let mut report = backend;
    append_all(&mut report.applied, envelope.applied);
    append_all(&mut report.failed, envelope.failed);
    report.expected.turbo = envelope.expected.turbo;
    report.expected.limits = envelope.expected.limits;
    report
}

// --- setting a mode ------------------------------------------------------

/// A finished apply is the new reference; what was found overridden before was
/// so relative to the previous mode.
pub open spec fn applied_to(state: ModuleView, report: ReportView, now: u64) -> ModuleView {
    ModuleView {
        expected: report.expected,
        expected_at: now,
        overrides: seq![],
        last_external: None,
        ..state
    }
}

/// A mode was set: recorded only where something took effect, and where it was
/// by hand the supervisor stands back.
pub open spec fn mode_set(
    state: ModuleView,
    m: PowerMode,
    manual: bool,
    report: ReportView,
    now: u64,
) -> ModuleView {
    let done = applied_to(state, report, now);
    let moved = if report.empty() {
        done
    } else {
        ModuleView { mode: m, config: PowerConfig { mode: Some(m), ..done.config }, ..done }
    };
    if manual {
        ModuleView {
            manual_override_at: Some(now),
            switcher: AutoSwitcher { pending: None, ..moved.switcher },
            ..moved
        }
    } else {
        moved
    }
}

/// The user picked a mode: beyond that, it is what the supervisor works around.
pub open spec fn mode_chosen(
    state: ModuleView,
    m: PowerMode,
    report: ReportView,
    now: u64,
) -> ModuleView {
    let done = mode_set(state, m, true, report, now);
    if report.empty() {
        done
    } else {
        ModuleView {
            switcher: AutoSwitcher { manual: Some(m), pending: None, ..done.switcher },
            ..done
        }
    }
}

/// What one press of the performance key did.
pub struct Cycled {
    pub from: PowerMode,
    /// The mode the machine ended up in.
    pub to: PowerMode,
    pub asked_for: PowerMode,
    pub report: ApplyReport,
}

impl Cycled {
    pub fn changed(&self) -> (r: bool)
        ensures
            r == !self.report@.empty(),
    {
        !self.report.is_empty()
    }
}

impl PowerModule {
    fn record_apply(&mut self, report: &ApplyReport, now: u64)
        ensures
            final(self)@ == applied_to(old(self)@, report@, now),
    {
        self.expected = report.expected.copy();
        self.expected_at = now;
        self.overrides = Vec::new();
        self.last_external = None;
        proof {
            assert(watch::findings(self.overrides@) =~= seq![]);
        }
    }

    fn set_mode(&mut self, m: PowerMode, manual: bool, report: &ApplyReport, now: u64) -> (r: bool)
        ensures
            final(self)@ == mode_set(old(self)@, m, manual, report@, now),
            r == !report@.empty(),
    {
        self.record_apply(report, now);
        let took_effect = !report.is_empty();
        if took_effect {
            self.mode = m;
            self.config.mode = Some(m);
        }
        if manual {
            self.manual_override_at = Some(now);
            self.switcher.reset();
        }
        took_effect
    }

    /// The user picked a mode and this is what applying it came to. Says
    /// whether the machine moved, which is what is announced.
    pub fn pick(&mut self, m: PowerMode, report: &ApplyReport, now: u64) -> (r: bool)
        requires
            old(self)@.wf(),
        ensures
            final(self)@ == mode_chosen(old(self)@, m, report@, now),
            r == !report@.empty(),
            final(self)@.wf(),
    {
        let took_effect = self.set_mode(m, true, report, now);
        if took_effect {
            self.switcher.adopt(m);
        }
        took_effect
    }

    /// The mode in force was applied once more and this is what it came to.
    pub fn reapply(&mut self, manual: bool, report: &ApplyReport, now: u64) -> (r: bool)
        requires
            old(self)@.wf(),
        ensures
            final(self)@ == mode_set(old(self)@, old(self)@.mode, manual, report@, now),
            r == !report@.empty(),
            final(self)@.wf(),
    {
        let m = self.mode;
        self.set_mode(m, manual, report, now)
    }

    /// The mode the machine is in.
    pub fn mode(&self) -> (r: PowerMode)
        ensures
            r == self@.mode,
    {
        self.mode
    }

    /// The mode that the next press of the performance key asks for.
    pub fn next_mode(&self) -> (r: PowerMode)
        ensures
            r == mode::following(self.mode),
    {
        self.mode.next()
    }

    /// The performance key was pressed, and this is what applying the next mode
    /// came to.
    pub fn cycle(&mut self, report: ApplyReport, now: u64) -> (r: Cycled)
        requires
            old(self)@.wf(),
        ensures
            final(self)@ == mode_chosen(
                old(self)@,
                mode::following(old(self)@.mode),
                report@,
                now,
            ),
            r.from == old(self)@.mode,
            r.asked_for == mode::following(old(self)@.mode),
            r.to == (if report@.empty() {
                r.from
            } else {
                r.asked_for
            }),
            r.report == report,
            final(self)@.wf(),
    {
        let from = self.mode;
        let asked_for = self.next_mode();
        self.pick(asked_for, &report, now);
        Cycled { from, to: self.mode, asked_for, report }
    }
}

// --- the requests --------------------------------------------------------

#[derive(Debug, Clone, Copy, PartialEq, Eq, Structural)]
pub enum Call {
    GetState,
    SetMode(PowerMode),
    SetAutoConfig,
    SetTuning,
    SetApplyToOsProfile(bool),
    SetRestoreOnStart(bool),
}

pub open spec fn err_bad_mode() -> ErrorView {
    ErrorView::Localised(
        ErrorKind::InvalidParams,
        msg::message(
            "power.err.badMode"@,
            seq![],
            "params.mode must be one of eco, balanced, performance, unlimited"@,
        ),
    )
}

pub open spec fn err_enabled_bool() -> ErrorView {
    ErrorView::Localised(
        ErrorKind::InvalidParams,
        msg::message("power.err.enabledBool"@, seq![], "params.enabled must be a boolean"@),
    )
}

/// Which call a method is, by the two parameters that decide it.
pub open spec fn call_of(
    method: Seq<char>,
    named: Option<Seq<char>>,
    enabled: Option<bool>,
) -> Result<Call, ErrorView> {
    if method == "getState"@ {
        Ok(Call::GetState)
    } else if method == "setMode"@ {
        match named {
            Some(name) => match mode::mode_named(name) {
                Some(m) => Ok(Call::SetMode(m)),
                None => Err(err_bad_mode()),
            },
            None => Err(err_bad_mode()),
        }
    } else if method == "setAutoConfig"@ {
        Ok(Call::SetAutoConfig)
    } else if method == "setTuning"@ {
        Ok(Call::SetTuning)
    } else if method == "setApplyToOsProfile"@ {
        match enabled {
            Some(b) => Ok(Call::SetApplyToOsProfile(b)),
            None => Err(err_enabled_bool()),
        }
    } else if method == "setRestoreOnStart"@ {
        match enabled {
            Some(b) => Ok(Call::SetRestoreOnStart(b)),
            None => Err(err_enabled_bool()),
        }
    } else {
        Err(ErrorView::UnknownMethod(method))
    }
}

pub open spec fn call_result(r: Result<Call, ModuleError>) -> Result<Call, ErrorView> {
    match r {
        Ok(c) => Ok(c),
        Err(e) => Err(e@),
    }
}

fn bad_mode() -> (r: ModuleError)
    ensures
        r@ == err_bad_mode(),
{
    ModuleError::localised(
        ErrorKind::InvalidParams,
        Msg::plain(
            "power.err.badMode",
            "params.mode must be one of eco, balanced, performance, unlimited",
        ),
    )
}

fn enabled_bool() -> (r: ModuleError)
    ensures
        r@ == err_enabled_bool(),
{
    ModuleError::localised(
        ErrorKind::InvalidParams,
        Msg::plain("power.err.enabledBool", "params.enabled must be a boolean"),
    )
}

/// Which call a method is, given the parameters that decide it.
pub fn call_named(method: &str, named: Option<String>, enabled: Option<bool>) -> (r: Result<
    Call,
    ModuleError,
>)
    ensures
        call_result(r) == call_of(method@, text::opt_view(named), enabled),
{
    if text::same(method, "getState") {
        Ok(Call::GetState)
    } else if text::same(method, "setMode") {
        match named {
            Some(name) => match PowerMode::parse(name.as_str()) {
                Some(m) => Ok(Call::SetMode(m)),
                None => Err(bad_mode()),
            },
            None => Err(bad_mode()),
        }
    } else if text::same(method, "setAutoConfig") {
        Ok(Call::SetAutoConfig)
    } else if text::same(method, "setTuning") {
        Ok(Call::SetTuning)
    } else if text::same(method, "setApplyToOsProfile") {
        match enabled {
            Some(b) => Ok(Call::SetApplyToOsProfile(b)),
            None => Err(enabled_bool()),
        }
    } else if text::same(method, "setRestoreOnStart") {
        match enabled {
            Some(b) => Ok(Call::SetRestoreOnStart(b)),
            None => Err(enabled_bool()),
        }
    } else {
        Err(ModuleError::UnknownMethod(String::from_str(method)))
    }
}

/// Reads a call.
pub fn route(method: &str, params: &serde_json::Value) -> (r: Result<Call, ModuleError>)
    ensures
        call_result(r) == call_of(
            method@,
            json::contents(*params).text_member("mode"@),
            json::contents(*params).bool_member("enabled"@),
        ),
{
    call_named(method, json::text_of(params, "mode"), json::bool_of(params, "enabled"))
}

pub open spec fn unit_result(r: Result<(), ModuleError>) -> Result<(), ErrorView> {
    match r {
        Ok(()) => Ok(()),
        Err(e) => Err(e@),
    }
}

/// The answer to a mode that was asked for: an error where nothing could be
/// applied.
pub fn set_mode_reply(report: &ApplyReport) -> (r: Result<(), ModuleError>)
    ensures
        unit_result(r) == (if report@.empty() {
            Err(
                ErrorView::Localised(
                    ErrorKind::PermissionDenied,
                    msg::message(
                        "power.err.applyFailed"@,
                        seq![("detail"@, text::join(report@.failed, "; "@))],
                        "no power mechanism could be applied: {detail}"@,
                    ),
                ),
            )
        } else {
            Ok(())
        }),
{
    if !report.is_empty() {
        return Ok(());
    }
    Err(
        ModuleError::localised(
            ErrorKind::PermissionDenied,
            Msg::new(
                "power.err.applyFailed",
                msg::one(msg::param("detail", text::joined(&report.failed, "; "))),
                "no power mechanism could be applied: {detail}",
            ),
        ),
    )
}

/// The refusal of a supervisor configuration that could not be read.
pub fn invalid_auto_config(detail: &str) -> (r: ModuleError)
    ensures
        r@ == ErrorView::InvalidParams("invalid auto config: "@ + detail@),
{
    ModuleError::InvalidParams(String::from_str("invalid auto config: ").concat(detail))
}

// --- tuning a mode -------------------------------------------------------

/// A number of watts in a request, in microwatts.
#[derive(Debug, Clone, Copy, PartialEq, Eq, Structural)]
pub enum Watts {
    Absent,
    /// It is not a number.
    Wrong,
    /// `None` where it is not finite.
    Given(Option<i64>),
}

/// The mode in a request to tune one.
#[derive(Debug, Clone, Copy, PartialEq, Eq, Structural)]
pub enum ModeField {
    Absent,
    Wrong,
    Given(PowerMode),
}

/// Whether turbo is allowed, in a request.
#[derive(Debug, Clone, Copy, PartialEq, Eq, Structural)]
pub enum TurboField {
    Absent,
    Wrong,
    Given(bool),
}

pub open spec fn mode_field(params: Json) -> ModeField {
    match params.member("mode"@) {
        None => ModeField::Absent,
        Some(Json::Null) => ModeField::Absent,
        Some(v) => match v.as_text() {
            None => ModeField::Wrong,
            Some(name) => match mode::mode_named(name) {
                Some(m) => ModeField::Given(m),
                None => ModeField::Wrong,
            },
        },
    }
}

pub open spec fn turbo_field(params: Json) -> TurboField {
    match params.member("turbo"@) {
        None => TurboField::Absent,
        Some(Json::Null) => TurboField::Absent,
        Some(v) => match v.as_bool() {
            Some(b) => TurboField::Given(b),
            None => TurboField::Wrong,
        },
    }
}

pub fn read_mode_field(params: &serde_json::Value) -> (r: ModeField)
    ensures
        r == mode_field(json::contents(*params)),
{
    match json::get(params, "mode") {
        None => ModeField::Absent,
        Some(v) => {
            if json::is_null(v) {
                return ModeField::Absent;
            }
            match json::as_text(v) {
                None => ModeField::Wrong,
                Some(name) => match PowerMode::parse(name.as_str()) {
                    Some(m) => ModeField::Given(m),
                    None => ModeField::Wrong,
                },
            }
        },
    }
}

pub fn read_turbo_field(params: &serde_json::Value) -> (r: TurboField)
    ensures
        r == turbo_field(json::contents(*params)),
{
    match json::get(params, "turbo") {
        None => TurboField::Absent,
        Some(v) => {
            if json::is_null(v) {
                return TurboField::Absent;
            }
            match json::as_bool(v) {
                Some(b) => TurboField::Given(b),
                None => TurboField::Wrong,
            }
        },
    }
}

pub open spec fn err_watts_number(key: Seq<char>) -> ErrorView {
    ErrorView::Localised(
        ErrorKind::InvalidParams,
        msg::message(
            "power.err.wattsNumber"@,
            seq![("key"@, key)],
            "params.{key} must be a number of watts"@,
        ),
    )
}

pub open spec fn err_limits_locked(source: LockSource) -> ErrorView {
    ErrorView::Localised(
        ErrorKind::NotCapable,
        msg::message(
            "power.err.limitsLocked"@,
            seq![
                (
                    "source"@,
                    match source {
                        LockSource::Msr => "msr"@,
                        LockSource::Sysfs => "sysfs"@,
                    },
                ),
            ],
            "the firmware has locked this machine's power limits ({source}); they cannot be changed until it reboots"@,
        ),
    )
}

pub open spec fn err_turbo_bool() -> ErrorView {
    ErrorView::Localised(
        ErrorKind::InvalidParams,
        msg::message("power.err.turboBool"@, seq![], "params.turbo must be a boolean"@),
    )
}

pub open spec fn err_limits_crossed(pl1: u64, pl2: u64) -> ErrorView {
    ErrorView::Localised(
        ErrorKind::InvalidParams,
        msg::message(
            "power.err.limitsCrossed"@,
            seq![
                ("pl1"@, number::decimal((pl1 / 1_000_000) as nat)),
                ("pl2"@, number::decimal((pl2 / 1_000_000) as nat)),
            ],
            "the sustained limit ({pl1} W) cannot be above the boost limit ({pl2} W)"@,
        ),
    )
}

/// A request to tune a mode, in all that its parameters say.
#[derive(Debug, Clone, Copy, PartialEq, Eq, Structural)]
pub struct TuningRequest {
    pub mode: ModeField,
    pub pl1: Watts,
    pub pl2: Watts,
    pub turbo: TurboField,
}

/// Which mode is tuned, and why the request is refused before the machine's
/// limits are looked at.
pub open spec fn tuned_mode(
    request: TuningRequest,
    current: PowerMode,
    locked: Option<LockSource>,
) -> Result<PowerMode, ErrorView> {
    if request.mode == ModeField::Wrong {
        Err(err_bad_mode())
    } else if request.pl1 == Watts::Wrong {
        Err(err_watts_number("pl1W"@))
    } else if request.pl2 == Watts::Wrong {
        Err(err_watts_number("pl2W"@))
    } else if (request.pl1 is Given || request.pl2 is Given) && locked is Some {
        Err(err_limits_locked(locked->0))
    } else if request.turbo == TurboField::Wrong {
        Err(err_turbo_bool())
    } else {
        match request.mode {
            ModeField::Given(m) => Ok(m),
            _ => Ok(current),
        }
    }
}

/// The tuning that a request asks for, on top of the one there is.
pub open spec fn tuning_asked(
    request: TuningRequest,
    previous: Tuning,
    stock: Limits,
) -> Result<Tuning, ErrorView> {
    let pl1 = match request.pl1 {
        Watts::Given(uw) => share_of(uw, stock.pl1_uw),
        _ => Ok(previous.pl1_percent as int),
    };
    let pl2 = match request.pl2 {
        Watts::Given(uw) => share_of(uw, stock.pl2_uw),
        _ => Ok(previous.pl2_percent as int),
    };
    match pl1 {
        Err(e) => Err(e),
        Ok(p1) => match pl2 {
            Err(e) => Err(e),
            Ok(p2) => {
                let tuning = Tuning {
                    pl1_percent: p1 as u8,
                    pl2_percent: p2 as u8,
                    turbo: match request.turbo {
                        TurboField::Given(b) => b,
                        _ => previous.turbo,
                    },
                };
                let asked = tuning.asks(stock);
                if asked.pl1_uw is Some && asked.pl2_uw is Some && asked.pl1_uw->0
                    > asked.pl2_uw->0 {
                    Err(err_limits_crossed(asked.pl1_uw->0, asked.pl2_uw->0))
                } else {
                    Ok(tuning)
                }
            },
        },
    }
}

/// What tuning a mode did.
#[derive(Debug, Clone, Copy, PartialEq, Eq, Structural)]
pub enum Tuned {
    /// It was tuned so already.
    Unchanged,
    /// Stored; and where the machine is in that mode, to be applied now.
    Stored { applies_now: bool },
}

/// What a request to tune a mode comes to.
pub open spec fn tuning_result(
    state: ModuleView,
    request: TuningRequest,
    locked: Option<LockSource>,
) -> Result<(PowerMode, Tuning, Tuned), ErrorView> {
    match tuned_mode(request, state.mode, locked) {
        Err(e) => Err(e),
        Ok(m) => match tuning_asked(request, state.config.tuning.of(m), state.config.stock()) {
            Err(e) => Err(e),
            Ok(tuning) => Ok(
                (
                    m,
                    tuning,
                    if tuning == state.config.tuning.of(m) {
                        Tuned::Unchanged
                    } else {
                        Tuned::Stored { applies_now: state.mode == m }
                    },
                ),
            ),
        },
    }
}

fn read_watts(key: &str, watts: Watts) -> (r: Result<(), ModuleError>)
    ensures
        unit_result(r) == (if watts == Watts::Wrong {
            Err(err_watts_number(key@))
        } else {
            Ok(())
        }),
{
    match watts {
        Watts::Wrong => Err(
            ModuleError::localised(
                ErrorKind::InvalidParams,
                Msg::new(
                    "power.err.wattsNumber",
                    msg::one(msg::param("key", String::from_str(key))),
                    "params.{key} must be a number of watts",
                ),
            ),
        ),
        _ => Ok(()),
    }
}

pub open spec fn mode_result(r: Result<PowerMode, ModuleError>) -> Result<PowerMode, ErrorView> {
    match r {
        Ok(m) => Ok(m),
        Err(e) => Err(e@),
    }
}

fn mode_to_tune(
    request: &TuningRequest,
    current: PowerMode,
    locked: Option<LockSource>,
) -> (r: Result<PowerMode, ModuleError>)
    ensures
        mode_result(r) == tuned_mode(*request, current, locked),
{
    let m = match request.mode {
        ModeField::Absent => current,
        ModeField::Given(m) => m,
        ModeField::Wrong => {
            return Err(bad_mode());
        },
    };
    match read_watts("pl1W", request.pl1) {
        Err(e) => {
            return Err(e);
        },
        Ok(()) => {},
    }
    match read_watts("pl2W", request.pl2) {
        Err(e) => {
            return Err(e);
        },
        Ok(()) => {},
    }
    let any = match (request.pl1, request.pl2) {
        (Watts::Given(_), _) => true,
        (_, Watts::Given(_)) => true,
        _ => false,
    };
    if any {
        match locked {
            Some(source) => {
                let how = match source {
                    LockSource::Msr => "msr",
                    LockSource::Sysfs => "sysfs",
                };
                return Err(
                    ModuleError::localised(
                        ErrorKind::NotCapable,
                        Msg::new(
                            "power.err.limitsLocked",
                            msg::one(msg::param("source", String::from_str(how))),
                            "the firmware has locked this machine's power limits ({source}); they cannot be changed until it reboots",
                        ),
                    ),
                );
            },
            None => {},
        }
    }
    match request.turbo {
        TurboField::Wrong => Err(
            ModuleError::localised(
                ErrorKind::InvalidParams,
                Msg::plain("power.err.turboBool", "params.turbo must be a boolean"),
            ),
        ),
        _ => Ok(m),
    }
}

pub open spec fn tuning_view(r: Result<Tuning, ModuleError>) -> Result<Tuning, ErrorView> {
    match r {
        Ok(t) => Ok(t),
        Err(e) => Err(e@),
    }
}

fn tuning_for(request: &TuningRequest, previous: Tuning, stock: Limits) -> (r: Result<
    Tuning,
    ModuleError,
>)
    requires
        is_believable(stock),
    ensures
        tuning_view(r) == tuning_asked(*request, previous, stock),
{
    let mut tuning = previous;
    match request.pl1 {
        Watts::Given(uw) => {
            match percent_of(uw, stock.pl1_uw) {
                Ok(p) => {
                    tuning.pl1_percent = p;
                },
                Err(e) => {
                    return Err(e);
                },
            }
        },
        _ => {},
    }
    match request.pl2 {
        Watts::Given(uw) => {
            match percent_of(uw, stock.pl2_uw) {
                Ok(p) => {
                    tuning.pl2_percent = p;
                },
                Err(e) => {
                    return Err(e);
                },
            }
        },
        _ => {},
    }
    match request.turbo {
        TurboField::Given(b) => {
            tuning.turbo = b;
        },
        _ => {},
    }
    proof {
        limits::law_a_believable_envelope_can_be_tuned(tuning, stock);
    }
    let asked = tuning.target(stock);
    match (asked.pl1_uw, asked.pl2_uw) {
        (Some(pl1), Some(pl2)) => {
            if pl1 > pl2 {
                return Err(
                    ModuleError::localised(
                        ErrorKind::InvalidParams,
                        Msg::new(
                            "power.err.limitsCrossed",
                            msg::two(
                                msg::param("pl1", number::show(pl1 / 1_000_000)),
                                msg::param("pl2", number::show(pl2 / 1_000_000)),
                            ),
                            "the sustained limit ({pl1} W) cannot be above the boost limit ({pl2} W)",
                        ),
                    ),
                );
            }
        },
        _ => {},
    }
    Ok(tuning)
}

impl PowerModule {
    /// Tunes a mode. A refused request changes nothing.
    pub fn set_tuning(&mut self, request: &TuningRequest, locked: Option<LockSource>) -> (r: Result<
        Tuned,
        ModuleError,
    >)
        requires
            old(self)@.wf(),
        ensures
            match tuning_result(old(self)@, *request, locked) {
                Err(e) => r is Err && (r->Err_0)@ == e && final(self)@ == old(self)@,
                Ok((m, tuning, did)) => r == Ok::<Tuned, ModuleError>(did) && final(self)@ == (
                ModuleView {
                    config: PowerConfig {
                        tuning: final(self)@.config.tuning,
                        ..old(self)@.config
                    },
                    ..old(self)@
                }) && final(self)@.config.tuning.of(m) == tuning && forall|other: PowerMode|
                    other != m ==> #[trigger] final(self)@.config.tuning.of(other) == old(self)@.config.tuning.of(other),
            },
            final(self)@.wf(),
    {
        let m = match mode_to_tune(request, self.mode, locked) {
            Ok(m) => m,
            Err(e) => {
                return Err(e);
            },
        };
        let previous = self.config.tuning.get(m);
        let stock = known_limits(self.config.stock_limits);
        let tuning = match tuning_for(request, previous, stock) {
            Ok(t) => t,
            Err(e) => {
                return Err(e);
            },
        };
        if tuning == previous {
            return Ok(Tuned::Unchanged);
        }
        let mut table = self.config.tuning;
        table.set(m, tuning);
        self.config.tuning = table;
        Ok(Tuned::Stored { applies_now: self.mode == m })
    }

    /// Takes a configuration of the supervisor; one that it could not settle
    /// under is refused and changes nothing. Switched back on, it starts from
    /// nothing.
    pub fn set_auto_config(&mut self, config: AutoConfig) -> (r: Result<(), ModuleError>)
        requires
            old(self)@.wf(),
        ensures
            match config.wrong() {
                Some(problem) => unit_result(r) == Err::<(), ErrorView>(
                    ErrorView::Localised(ErrorKind::InvalidParams, problem),
                ) && final(self)@ == old(self)@,
                None => r == Ok::<(), ModuleError>(()) && final(self)@ == (ModuleView {
                    switcher: if config.enabled && !old(self)@.config.auto.enabled {
                        crate::power::auto::fresh()
                    } else {
                        AutoSwitcher { pending: None, ..old(self)@.switcher }
                    },
                    config: PowerConfig { auto: config, ..old(self)@.config },
                    ..old(self)@
                }),
            },
            final(self)@.wf(),
    {
        match config.problem() {
            Some(problem) => {
                return Err(ModuleError::localised(ErrorKind::InvalidParams, problem));
            },
            None => {},
        }
        if config.enabled && !self.config.auto.enabled {
            self.switcher = AutoSwitcher::default();
        } else {
            self.switcher.reset();
        }
        self.config.auto = config;
        Ok(())
    }

    /// Says whether a mode also moves the operating system's profile. The
    /// result says whether a power manager's override has to be given back.
    pub fn set_apply_to_os_profile(&mut self, enabled: bool) -> (release: bool)
        requires
            old(self)@.wf(),
        ensures
            final(self)@ == (ModuleView {
                config: PowerConfig { apply_to_os_profile: enabled, ..old(self)@.config },
                ..old(self)@
            }),
            release == (old(self)@.config.apply_to_os_profile && !enabled),
            final(self)@.wf(),
    {
        let was = self.config.apply_to_os_profile;
        self.config.apply_to_os_profile = enabled;
        was && !enabled
    }

    /// Says whether the mode is applied again at the next start; turning that
    /// on remembers the mode the machine is in.
    pub fn set_restore_on_start(&mut self, enabled: bool)
        requires
            old(self)@.wf(),
        ensures
            final(self)@ == (ModuleView {
                config: PowerConfig {
                    restore_mode_on_start: enabled,
                    mode: if enabled {
                        Some(old(self)@.mode)
                    } else {
                        old(self)@.config.mode
                    },
                    ..old(self)@.config
                },
                ..old(self)@
            }),
            final(self)@.wf(),
    {
        self.config.restore_mode_on_start = enabled;
        if enabled {
            self.config.mode = Some(self.mode);
        }
    }

    /// Whether a power manager's override is given back when the daemon stops.
    pub fn on_exit(&self) -> (release: bool)
        ensures
            release == self.config.apply_to_os_profile,
    {
        self.config.apply_to_os_profile
    }
}

// --- the supervisor ------------------------------------------------------

/// A mode set by hand still keeps refinement away.
pub open spec fn overridden(state: ModuleView, now: u64) -> bool {
    match state.manual_override_at {
        Some(at) => elapsed(now, at) < 1000 * state.config.auto.manual_override_secs,
        None => false,
    }
}

/// What one tick of the supervisor decides. A manual choice suspends
/// refinement, but not the answer to a change of the power source.
pub open spec fn supervised(
    state: ModuleView,
    inputs: AutoInputs,
    now: u64,
) -> (ModuleView, Option<DecisionView>) {
    if !state.config.auto.enabled {
        (state, None)
    } else {
        let (switcher, decision) = state.switcher.observes(inputs, state.config.auto, state.mode);
        if (decision is None || !(decision->0).from_transition) && overridden(state, now) {
            (ModuleView { switcher: AutoSwitcher { pending: None, ..switcher }, ..state }, None)
        } else {
            (ModuleView { switcher, ..state }, decision)
        }
    }
}

/// What the supervisor's switch came to.
pub open spec fn switched(
    state: ModuleView,
    decision: DecisionView,
    report: ReportView,
    now: u64,
) -> ModuleView {
    let done = applied_to(state, report, now);
    if report.empty() {
        ModuleView {
            last_auto_switch: Some(
                msg::message(
                    "power.autoSwitch.failed"@,
                    seq![
                        ("mode"@, decision.mode.label()),
                        ("failed"@, text::join(report.failed, "; "@)),
                    ],
                    "{mode} failed: {failed}"@,
                ),
            ),
            ..done
        }
    } else {
        ModuleView {
            mode: decision.mode,
            last_auto_switch: Some(decision.reason),
            config: if done.config.restore_mode_on_start {
                PowerConfig { mode: Some(decision.mode), ..done.config }
            } else {
                done.config
            },
            ..done
        }
    }
}

impl PowerModule {
    pub fn manual_override_active(&self, now: u64) -> (r: bool)
        ensures
            r == overridden(self@, now),
    {
        match self.manual_override_at {
            Some(at) => (since(now, at) as u128) < 1000 * (
            self.config.auto.manual_override_secs as u128),
            None => false,
        }
    }

    /// How many whole seconds a manual choice still holds.
    pub fn override_remaining(&self, now: u64) -> (r: Option<u64>)
        ensures
            r == (match self.manual_override_at {
                None => None,
                Some(at) => {
                    let left = (1000 * self.config.auto.manual_override_secs - elapsed(now, at))
                        / 1000;
                    if left > 0 {
                        Some(left as u64)
                    } else {
                        None
                    }
                },
            }),
    {
        match self.manual_override_at {
            None => None,
            Some(at) => {
                let whole: u128 = 1000 * (self.config.auto.manual_override_secs as u128);
                let gone: u128 = since(now, at) as u128;
                if gone >= whole {
                    return None;
                }
                let left: u128 = (whole - gone) / 1000;
                if left > 0 {
                    Some(left as u64)
                } else {
                    None
                }
            },
        }
    }

    /// How long to wait between two ticks, in seconds.
    pub fn interval_secs(&self) -> (r: u64)
        ensures
            r == (if self.config.auto.interval_secs < 1 {
                1
            } else {
                self.config.auto.interval_secs
            }),
    {
        if self.config.auto.interval_secs < 1 {
            1
        } else {
            self.config.auto.interval_secs
        }
    }

    /// One tick of the supervisor. Says what to switch to, if anything; that is
    /// never Unlimited.
    pub fn supervise(&mut self, inputs: AutoInputs, now: u64) -> (r: Option<AutoDecision>)
        requires
            old(self)@.wf(),
        ensures
            (final(self)@, crate::power::auto::opt_decision(r)) == supervised(old(self)@, inputs, now),
            r matches Some(d) ==> d@.mode != PowerMode::Unlimited && d@.mode != old(self)@.mode,
            final(self)@.wf(),
    {
        if !self.config.auto.enabled {
            return None;
        }
        let current = self.mode;
        let config = self.config.auto;
        let decision = self.switcher.observe(inputs, &config, current);
        let transition = match &decision {
            Some(d) => d.from_transition,
            None => false,
        };
        if !transition && self.manual_override_active(now) {
            self.switcher.reset();
            return None;
        }
        decision
    }

    /// Takes what the supervisor's switch came to. Says whether the machine
    /// moved, and whether the mode is to be saved.
    pub fn supervise_done(&mut self, decision: AutoDecision, report: &ApplyReport, now: u64) -> (r: (
        bool,
        bool,
    ))
        ensures
            final(self)@ == switched(old(self)@, decision@, report@, now),
            r.0 == !report@.empty(),
            r.1 == (!report@.empty() && old(self)@.config.restore_mode_on_start),
            old(self)@.wf() ==> final(self)@.wf(),
    {
        self.record_apply(report, now);
        if report.is_empty() {
            self.last_auto_switch = Some(
                Msg::new(
                    "power.autoSwitch.failed",
                    msg::two(
                        msg::param("mode", String::from_str(decision.mode.as_label())),
                        msg::param("failed", text::joined(&report.failed, "; ")),
                    ),
                    "{mode} failed: {failed}",
                ),
            );
            return (false, false);
        }
        self.mode = decision.mode;
        self.last_auto_switch = Some(decision.reason);
        if self.config.restore_mode_on_start {
            self.config.mode = Some(self.mode);
        }
        (true, self.config.restore_mode_on_start)
    }

    /// The mode picked by hand that the supervisor works around, if it is not
    /// following the preference.
    pub fn manual_baseline(&self, supply_on_battery: Option<bool>) -> (r: Option<PowerMode>)
        ensures
            r == ({
                let on_battery = match self.switcher.last_on_battery {
                    Some(b) => b,
                    None => match supply_on_battery {
                        Some(b) => b,
                        None => false,
                    },
                };
                let baseline = self.switcher.works_around(self.config.auto, on_battery);
                if baseline.manual {
                    Some(baseline.mode)
                } else {
                    None
                }
            }),
    {
        let on_battery = match self.switcher.on_battery() {
            Some(b) => b,
            None => match supply_on_battery {
                Some(b) => b,
                None => false,
            },
        };
        self.switcher.manual_baseline(&self.config.auto, on_battery)
    }
}

// --- looking at the machine ----------------------------------------------

/// The first finding about a knob, from `from` on.
pub open spec fn knob_at(list: Seq<OverrideView>, knob: Seq<char>, from: int) -> Option<int>
    decreases list.len() - from,
{
    if from >= list.len() {
        None
    } else if list[from].knob == knob {
        Some(from)
    } else {
        knob_at(list, knob, from + 1)
    }
}

/// The list already says exactly this of the knob.
pub open spec fn carries(list: Seq<OverrideView>, f: OverrideView) -> bool {
    match knob_at(list, f.knob, 0) {
        Some(i) => list[i] == f,
        None => false,
    }
}

/// One more finding: the latest about a knob takes the place of the one before.
pub open spec fn note(list: Seq<OverrideView>, f: OverrideView) -> Seq<OverrideView> {
    match knob_at(list, f.knob, 0) {
        Some(i) => list.update(i, f),
        None => list.push(f),
    }
}

/// The findings so far with the new ones, and which of the new ones are news.
pub open spec fn noted(list: Seq<OverrideView>, found: Seq<OverrideView>) -> (
    Seq<OverrideView>,
    Seq<OverrideView>,
)
    decreases found.len(),
{
    if found.len() == 0 {
        (list, seq![])
    } else {
        let (known, news) = noted(list, found.drop_last());
        let f = found.last();
        if carries(known, f) {
            (known, news)
        } else {
            (note(known, f), news.push(f))
        }
    }
}

/// What one look at the machine does, before a mode is followed.
pub open spec fn looked(state: ModuleView, found: watch::ExaminedView) -> ModuleView {
    ModuleView {
        expected: if found.same_mode_profile is Some {
            KnobsView { platform_profile: found.same_mode_profile, ..state.expected }
        } else {
            state.expected
        },
        overrides: noted(state.overrides, found.overrides).0,
        ..state
    }
}

/// The mode that another program put the machine in is followed.
pub open spec fn followed(
    state: ModuleView,
    m: PowerMode,
    profile: Seq<char>,
    envelope: ReportView,
    now: u64,
) -> ModuleView {
    ModuleView {
        mode: m,
        config: PowerConfig { mode: Some(m), ..state.config },
        expected: KnobsView { platform_profile: Some(profile), ..envelope.expected },
        expected_at: now,
        manual_override_at: Some(now),
        switcher: AutoSwitcher { manual: Some(m), pending: None, ..state.switcher },
        last_external: Some(
            msg::message(
                "power.external.followed"@,
                seq![("profile"@, profile), ("mode"@, m.name())],
                "another program set the firmware profile to {profile}; pyren followed it into {mode}"@,
            ),
        ),
        ..state
    }
}

/// What one look at the machine found: what is announced, and the mode and the
/// firmware profile to follow.
pub struct Looked {
    pub news: Vec<Override>,
    pub adopt: Option<(PowerMode, String)>,
}

fn find_knob(list: &Vec<Override>, knob: &str) -> (r: Option<usize>)
    ensures
        match r {
            Some(i) => i < list@.len() && knob_at(watch::findings(list@), knob@, 0) == Some(
                i as int,
            ),
            None => knob_at(watch::findings(list@), knob@, 0) is None,
        },
{
    let n: usize = list.len();
    let ghost all = watch::findings(list@);
    let mut i: usize = 0;
    while i < n
        invariant
            n == list@.len(),
            i <= n,
            all == watch::findings(list@),
            knob_at(all, knob@, 0) == knob_at(all, knob@, i as int),
        decreases n - i,
    {
        proof {
            assert(all[i as int] == list@[i as int]@);
        }
        if text::same(list[i].knob.as_str(), knob) {
            return Some(i);
        }
        i = i + 1;
    }
    None
}

fn note_all(list: &mut Vec<Override>, found: &Vec<Override>) -> (news: Vec<Override>)
    ensures
        (watch::findings(final(list)@), watch::findings(news@)) == noted(
            watch::findings(old(list)@),
            watch::findings(found@),
        ),
{
    let n: usize = found.len();
    let ghost start = watch::findings(list@);
    let ghost all = watch::findings(found@);
    let mut news: Vec<Override> = Vec::new();
    let mut i: usize = 0;
    proof {
        assert(all.take(0) =~= seq![]);
        assert(watch::findings(news@) =~= seq![]);
    }
    while i < n
        invariant
            n == found@.len(),
            i <= n,
            all == watch::findings(found@),
            (watch::findings(list@), watch::findings(news@)) == noted(start, all.take(i as int)),
        decreases n - i,
    {
        let ghost before = list@;
        let ghost told = news@;
        proof {
            assert(all.take(i + 1).drop_last() =~= all.take(i as int));
            assert(all.take(i + 1).last() == found@[i as int]@);
        }
        let known = find_knob(list, found[i].knob.as_str());
        match known {
            Some(at) => {
                if !list[at].same_as(&found[i]) {
                    news.push(found[i].copy());
                    list.set(at, found[i].copy());
                    proof {
                        assert(watch::findings(list@) =~= watch::findings(before).update(
                            at as int,
                            found@[i as int]@,
                        ));
                        assert(watch::findings(news@) =~= watch::findings(told).push(
                            found@[i as int]@,
                        ));
                    }
                }
            },
            None => {
                news.push(found[i].copy());
                list.push(found[i].copy());
                proof {
                    assert(watch::findings(list@) =~= watch::findings(before).push(
                        found@[i as int]@,
                    ));
                    assert(watch::findings(news@) =~= watch::findings(told).push(
                        found@[i as int]@,
                    ));
                }
            },
        }
        i = i + 1;
    }
    proof {
        assert(all.take(n as int) =~= all);
    }
    news
}

impl PowerModule {
    /// One look at the machine. Where the result names a mode, that mode's
    /// envelope is to be written and the mode followed.
    pub fn check_external(&mut self, knobs: &Knobs, now: u64) -> (r: Looked)
        requires
            old(self)@.wf(),
        ensures
            ({
                let found = watch::examined(
                    old(self)@.mode,
                    old(self)@.expected,
                    knobs@,
                    elapsed(now, old(self)@.expected_at),
                );
                &&& final(self)@ == looked(old(self)@, found)
                &&& watch::findings(r.news@) == noted(old(self)@.overrides, found.overrides).1
                &&& (match r.adopt {
                    Some((m, profile)) => Some((m, profile@)),
                    None => None,
                }) == found.adopt
            }),
            final(self)@.wf(),
    {
        let found = watch::examine(
            self.mode,
            &self.expected,
            knobs,
            since(now, self.expected_at),
        );
        match &found.same_mode_profile {
            Some(profile) => {
                self.expected.platform_profile = Some(profile.clone());
            },
            None => {},
        }
        let news = note_all(&mut self.overrides, &found.overrides);
        Looked { news, adopt: found.adopt }
    }

    /// Follows the machine into the mode that another program put it in.
    pub fn follow(&mut self, m: PowerMode, profile: String, envelope: ApplyReport, now: u64)
        requires
            old(self)@.wf(),
        ensures
            final(self)@ == followed(old(self)@, m, profile@, envelope@, now),
            final(self)@.wf(),
    {
        self.mode = m;
        self.config.mode = Some(m);
        self.last_external = Some(
            Msg::new(
                "power.external.followed",
                msg::two(
                    msg::param("profile", profile.clone()),
                    msg::param("mode", String::from_str(m.as_str())),
                ),
                "another program set the firmware profile to {profile}; pyren followed it into {mode}",
            ),
        );
        self.expected = envelope.expected;
        self.expected.platform_profile = Some(profile);
        self.expected_at = now;
        self.manual_override_at = Some(now);
        self.switcher.reset();
        self.switcher.adopt(m);
    }
}

// --- what is announced ---------------------------------------------------

/// Something that whoever watches the daemon is told.
pub enum Announcement {
    /// The mode moved, and who asked for it.
    Mode { mode: PowerMode, source: String },
    /// Another program changed a knob.
    Overridden(Override),
}

#[verifier::ext_equal]
pub enum AnnouncementView {
    Mode { mode: PowerMode, source: Seq<char> },
    Overridden(OverrideView),
}

impl View for Announcement {
    type V = AnnouncementView;

    open spec fn view(&self) -> AnnouncementView {
        match self {
            Announcement::Mode { mode, source } => AnnouncementView::Mode {
                mode: *mode,
                source: source@,
            },
            Announcement::Overridden(finding) => AnnouncementView::Overridden(finding@),
        }
    }
}

impl AnnouncementView {
    pub open spec fn topic_name(self) -> Seq<char> {
        match self {
            AnnouncementView::Mode { .. } => "power.mode"@,
            AnnouncementView::Overridden(_) => "power.overridden"@,
        }
    }
}

impl Announcement {
    /// What it goes out under.
    pub fn topic(&self) -> (r: &'static str)
        ensures
            r@ == self@.topic_name(),
    {
        match self {
            Announcement::Mode { .. } => "power.mode",
            Announcement::Overridden(_) => "power.overridden",
        }
    }
}

pub open spec fn announced(v: Seq<Announcement>) -> Seq<AnnouncementView> {
    Seq::new(v.len(), |i: int| v[i]@)
}

/// What is still to be told, kept only where somebody listens.
pub struct Announcer {
    pub listening: bool,
    pub queue: Vec<Announcement>,
}

impl Default for Announcer {
    fn default() -> (r: Announcer)
        ensures
            !r.listening,
            r.queue@.len() == 0,
    {
        Announcer { listening: false, queue: Vec::new() }
    }
}

impl Announcer {
    fn tell(&mut self, said: Announcement)
        ensures
            final(self).listening == old(self).listening,
            announced(final(self).queue@) == (if old(self).listening {
                announced(old(self).queue@).push(said@)
            } else {
                announced(old(self).queue@)
            }),
    {
        if self.listening {
            let ghost before = self.queue@;
            let ghost seen = said@;
            self.queue.push(said);
            proof {
                assert(announced(self.queue@) =~= announced(before).push(seen));
            }
        }
    }

    /// The machine is in another mode.
    pub fn publish(&mut self, mode: PowerMode, source: &str)
        ensures
            final(self).listening == old(self).listening,
            announced(final(self).queue@) == (if old(self).listening {
                announced(old(self).queue@).push(
                    AnnouncementView::Mode { mode, source: source@ },
                )
            } else {
                announced(old(self).queue@)
            }),
    {
        self.tell(Announcement::Mode { mode, source: String::from_str(source) });
    }

    /// Another program changed something that does not move the mode.
    pub fn overridden(&mut self, finding: &Override)
        ensures
            final(self).listening == old(self).listening,
            announced(final(self).queue@) == (if old(self).listening {
                announced(old(self).queue@).push(AnnouncementView::Overridden(finding@))
            } else {
                announced(old(self).queue@)
            }),
    {
        self.tell(Announcement::Overridden(finding.copy()));
    }
}

// --- what is told of the machine -----------------------------------------

/// Whether the machine offers any way at all to change its power behaviour.
pub fn power_mode_available(state: &BackendState) -> (r: bool)
    ensures
        r == (state@.available.len() > 0),
{
    state.available.len() > 0
}

/// What the machine offers, for a report on it.
pub struct PowerSurface {
    pub mechanisms: Vec<String>,
    pub platform_profile: Option<String>,
    pub platform_profile_choices: Vec<String>,
    pub limits: Limits,
    pub has_turbo: bool,
}

pub fn surface(state: &BackendState, paths: &LimitPaths, zone: &ZoneReading) -> (r: PowerSurface)
    ensures
        text::views(r.mechanisms@) == state@.available,
        text::opt_view(r.platform_profile) == state@.platform_profile,
        text::views(r.platform_profile_choices@) == state@.platform_profile_choices,
        r.limits == limits::limits_read(*paths, zone@),
        r.has_turbo == (paths.turbo is Some),
{
    PowerSurface {
        mechanisms: text::copy_list(&state.available),
        platform_profile: watch::copy_text(&state.platform_profile),
        platform_profile_choices: text::copy_list(&state.platform_profile_choices),
        limits: limits::read(paths, zone),
        has_turbo: paths.has_turbo(),
    }
}

/// The answer to a setting that was stored.
pub struct SavedResponse {
    pub auto: AutoConfig,
    pub restore_mode_on_start: bool,
    pub saved: bool,
    pub save_error: Option<String>,
}

impl PowerModule {
    pub fn saved_response(&self) -> (r: SavedResponse)
        ensures
            r.auto == self.config.auto,
            r.restore_mode_on_start == self.config.restore_mode_on_start,
            r.saved == (self.last_save_error is None),
            text::opt_view(r.save_error) == text::opt_view(self.last_save_error),
    {
        SavedResponse {
            auto: self.config.auto,
            restore_mode_on_start: self.config.restore_mode_on_start,
            saved: self.last_save_error.is_none(),
            save_error: watch::copy_text(&self.last_save_error),
        }
    }
}

// --- laws ----------------------------------------------------------------

/// The ceiling that is trusted could be a laptop's, is in order, and has the
/// machine's own peak limit where the machine tells it.
pub proof fn law_the_trusted_ceiling_is_sane(stored: Option<Limits>, observed: Limits)
    ensures
        ({
            let stock = trusted_stock(stored, observed);
            &&& stock.believable() == stock
            &&& stock.in_order() == stock
            &&& limits::sane(observed.pl4_uw) is Some ==> stock.pl4_uw == observed.pl4_uw
        }),
{
}

/// Reading a capped machine does not lower the ceiling: limits at or under the
/// recorded ones leave the record as it is.
pub proof fn law_a_capped_machine_is_not_its_own_new_ceiling(stored: Limits, observed: Limits)
    requires
        stored.believable() == stored,
        stored.in_order() == stored,
        limits::no_more_than(observed.pl1_uw, stored.pl1_uw) && (observed.pl1_uw is Some
            ==> stored.pl1_uw is Some),
        limits::no_more_than(observed.pl2_uw, stored.pl2_uw) && (observed.pl2_uw is Some
            ==> stored.pl2_uw is Some),
        observed.pl4_uw is None || observed.pl4_uw == stored.pl4_uw,
    ensures
        trusted_stock(Some(stored), observed) == stored,
{
}

/// A machine that tells sane limits in order has a ceiling no lower than them,
/// whatever is on file.
pub proof fn law_the_firmwares_word_is_final_upwards(stored: Option<Limits>, observed: Limits)
    requires
        observed.believable() == observed,
        observed.in_order() == observed,
        observed.pl1_uw is Some,
        observed.pl2_uw is Some,
        observed.pl4_uw is Some,
    ensures
        trusted_stock(stored, observed).pl1_uw is Some,
        trusted_stock(stored, observed).pl1_uw->0 >= observed.pl1_uw->0,
        trusted_stock(stored, observed).pl2_uw is Some,
        trusted_stock(stored, observed).pl2_uw->0 >= observed.pl2_uw->0,
{
}

/// A machine that starts on battery is not put in a mode that is for mains.
pub proof fn law_booting_on_battery_stays_in_the_battery_range(
    saved: PowerMode,
    config: PowerConfig,
)
    ensures
        crate::power::auto::in_range(mode_at_boot(saved, config, Some(true)), true),
        mode_at_boot(saved, config, Some(false)) == saved,
        mode_at_boot(saved, config, None) == saved,
{
}

/// The percentage of a limit is the nearest whole one; at stock and above it is
/// a hundred.
pub proof fn law_the_percentage_is_the_nearest(uw: int, stock_uw: int)
    requires
        uw > 0,
        stock_uw > 0,
    ensures
        1 <= percentage(uw, stock_uw) <= 100,
        uw >= stock_uw ==> percentage(uw, stock_uw) == 100,
        1 < percentage(uw, stock_uw) < 100 ==> (2 * percentage(uw, stock_uw) - 1) * stock_uw <= 200
            * uw < (2 * percentage(uw, stock_uw) + 1) * stock_uw,
{
    let a = 200 * uw + stock_uw;
    let b = 2 * stock_uw;
    let q = a / b;
    assert(b * q <= a < b * q + b) by (nonlinear_arith)
        requires
            b > 0,
            q == a / b,
    ;
    assert((2 * q - 1) * stock_uw <= 200 * uw < (2 * q + 1) * stock_uw) by (nonlinear_arith)
        requires
            b * q <= a < b * q + b,
            a == 200 * uw + stock_uw,
            b == 2 * stock_uw,
    ;
    if uw >= stock_uw {
        assert(q >= 100) by (nonlinear_arith)
            requires
                a < b * q + b,
                a == 200 * uw + stock_uw,
                b == 2 * stock_uw,
                uw >= stock_uw,
                stock_uw > 0,
        ;
    }
}

/// A mode is only recorded where something was applied.
pub proof fn law_a_mode_that_was_not_applied_is_not_recorded(
    state: ModuleView,
    m: PowerMode,
    report: ReportView,
    now: u64,
)
    requires
        report.empty(),
    ensures
        mode_chosen(state, m, report, now).mode == state.mode,
        mode_chosen(state, m, report, now).config == state.config,
        mode_chosen(state, m, report, now).switcher.manual == state.switcher.manual,
{
}

/// A mode that was applied is the mode, is remembered, and is what the
/// supervisor works around.
pub proof fn law_a_mode_that_was_applied_is_the_mode(
    state: ModuleView,
    m: PowerMode,
    report: ReportView,
    now: u64,
)
    requires
        !report.empty(),
    ensures
        mode_chosen(state, m, report, now).mode == m,
        mode_chosen(state, m, report, now).config.mode == Some(m),
        mode_chosen(state, m, report, now).switcher.manual == Some(m),
        mode_chosen(state, m, report, now).overrides == Seq::<OverrideView>::empty(),
{
}

/// What was just applied is never taken for someone else's doing: a machine
/// that reads as it was left has nothing to follow, and nothing is noted.
pub proof fn law_own_writes_are_never_taken_for_anothers(
    state: ModuleView,
    m: PowerMode,
    report: ReportView,
    now: u64,
    knobs: KnobsView,
    later: int,
)
    requires
        watch::as_left(report.expected, knobs),
    ensures
        ({
            let after = mode_chosen(state, m, report, now);
            let found = watch::examined(after.mode, after.expected, knobs, later);
            &&& found.adopt is None
            &&& looked(after, found) == after
        }),
{
    let after = mode_chosen(state, m, report, now);
    watch::law_a_machine_left_alone_has_nothing_to_report(
        after.mode,
        after.expected,
        knobs,
        later,
    );
}

/// A profile is followed once: with the machine as it was found, the next look
/// follows nothing.
pub proof fn law_a_moved_profile_is_followed_once(
    state: ModuleView,
    profile: Seq<char>,
    envelope: ReportView,
    now: u64,
    knobs: KnobsView,
    later: int,
)
    requires
        knobs.platform_profile == Some(profile),
        mode::profile_mode(profile) is Some,
    ensures
        ({
            let m = mode::profile_mode(profile)->0;
            let after = followed(state, m, profile, envelope, now);
            watch::examined(after.mode, after.expected, knobs, later).adopt is None
        }),
{
}

/// A change of the power source is answered whatever the user set by hand.
pub proof fn law_a_manual_choice_does_not_suppress_a_change_of_source(
    state: ModuleView,
    inputs: AutoInputs,
    now: u64,
)
    requires
        state.config.auto.enabled,
        state.switcher.source_changed(inputs),
        state.config.auto.acts_on(inputs.on_battery->0),
        state.config.auto.home(inputs.on_battery->0) != state.mode,
    ensures
        match supervised(state, inputs, now).1 {
            Some(decision) => decision.from_transition && decision.mode == state.config.auto.home(
                inputs.on_battery->0,
            ),
            None => false,
        },
{
}

/// A manual choice keeps every refinement away for as long as it holds.
pub proof fn law_a_manual_choice_suspends_refinement(
    state: ModuleView,
    inputs: AutoInputs,
    now: u64,
)
    requires
        overridden(state, now),
    ensures
        match supervised(state, inputs, now).1 {
            Some(decision) => decision.from_transition,
            None => true,
        },
{
}

/// A supervisor that is off does nothing.
pub proof fn law_a_supervisor_that_is_off_does_nothing(
    state: ModuleView,
    inputs: AutoInputs,
    now: u64,
)
    requires
        !state.config.auto.enabled,
    ensures
        supervised(state, inputs, now) == (state, None::<DecisionView>),
{
}

/// Leaving a tuned mode puts the stock envelope back: the mode nobody tuned
/// still writes, and asks for the machine's own; once that is done without a
/// failure, no such mode writes again.
pub proof fn law_leaving_a_tuned_mode_puts_the_envelope_back(
    config: PowerConfig,
    m: PowerMode,
    done: DoneView,
    other: PowerMode,
)
    requires
        config.envelope_owned,
        config.tuning.of(m) == limits::untouched(),
        config.tuning.of(other) == limits::untouched(),
    ensures
        writes_envelope(config, m),
        envelope_target(config, m) == config.stock().in_order(),
        envelope_report(config, m, done).failed.len() == 0 ==> !writes_envelope(
            PowerConfig { envelope_owned: owns_envelope(config, m, done), ..config },
            other,
        ),
        envelope_report(config, m, done).failed.len() > 0 ==> writes_envelope(
            PowerConfig { envelope_owned: owns_envelope(config, m, done), ..config },
            other,
        ),
{
}

/// A machine whose modes nobody tuned is never written an envelope.
pub proof fn law_an_untuned_machine_is_never_written_an_envelope(m: PowerMode, done: DoneView)
    ensures
        !writes_envelope(default_config(), m),
        envelope_report(default_config(), m, done) == empty_report(),
        !owns_envelope(default_config(), m, done),
{
}

/// The findings are about different knobs.
pub open spec fn one_per_knob(list: Seq<OverrideView>) -> bool {
    forall|i: int, j: int|
        0 <= i < j < list.len() ==> (#[trigger] list[i]).knob != (#[trigger] list[j]).knob
}

proof fn lemma_knob_at(list: Seq<OverrideView>, knob: Seq<char>, from: int)
    requires
        0 <= from,
    ensures
        match knob_at(list, knob, from) {
            Some(i) => from <= i < list.len() && list[i].knob == knob && forall|k: int|
                from <= k < i ==> (#[trigger] list[k]).knob != knob,
            None => forall|k: int| from <= k < list.len() ==> (#[trigger] list[k]).knob != knob,
        },
    decreases list.len() - from,
{
    if from < list.len() && list[from].knob != knob {
        lemma_knob_at(list, knob, from + 1);
    }
}

proof fn lemma_knob_found(list: Seq<OverrideView>, knob: Seq<char>, i: int)
    requires
        one_per_knob(list),
        0 <= i < list.len(),
        list[i].knob == knob,
    ensures
        knob_at(list, knob, 0) == Some(i),
{
    lemma_knob_at(list, knob, 0);
    let j = knob_at(list, knob, 0)->0;
    if j < i {
        assert(list[j].knob != list[i].knob);
    }
}

proof fn lemma_note(list: Seq<OverrideView>, f: OverrideView)
    requires
        one_per_knob(list),
    ensures
        one_per_knob(note(list, f)),
        carries(note(list, f), f),
        forall|g: OverrideView| g.knob != f.knob && #[trigger] carries(list, g) ==> carries(
            note(list, f),
            g,
        ),
{
    lemma_knob_at(list, f.knob, 0);
    let after = note(list, f);
    match knob_at(list, f.knob, 0) {
        Some(i) => {
            assert(after =~= list.update(i, f));
            assert forall|a: int, b: int| 0 <= a < b < after.len() implies (
            #[trigger] after[a]).knob != (#[trigger] after[b]).knob by {
                assert(list[a].knob != list[b].knob);
            }
            lemma_knob_found(after, f.knob, i);
        },
        None => {
            assert(after =~= list.push(f));
            assert forall|a: int, b: int| 0 <= a < b < after.len() implies (
            #[trigger] after[a]).knob != (#[trigger] after[b]).knob by {
                if b < list.len() {
                    assert(list[a].knob != list[b].knob);
                } else {
                    assert(list[a].knob != f.knob);
                }
            }
            lemma_knob_found(after, f.knob, list.len() as int);
        },
    }
    assert forall|g: OverrideView| g.knob != f.knob && #[trigger] carries(list, g) implies carries(
        after,
        g,
    ) by {
        lemma_knob_at(list, g.knob, 0);
        let i = knob_at(list, g.knob, 0)->0;
        assert(after[i] == list[i]);
        lemma_knob_found(after, g.knob, i);
    }
}

proof fn lemma_noted(list: Seq<OverrideView>, found: Seq<OverrideView>)
    requires
        one_per_knob(list),
        one_per_knob(found),
    ensures
        one_per_knob(noted(list, found).0),
        forall|i: int|
            0 <= i < found.len() ==> carries(noted(list, found).0, #[trigger] found[i]),
    decreases found.len(),
{
    if found.len() > 0 {
        let rest = found.drop_last();
        assert forall|i: int, j: int| 0 <= i < j < rest.len() implies (#[trigger] rest[i]).knob != (
        #[trigger] rest[j]).knob by {
            assert(found[i].knob != found[j].knob);
        }
        lemma_noted(list, rest);
        let known = noted(list, rest).0;
        let f = found.last();
        lemma_note(known, f);
        assert forall|i: int| 0 <= i < found.len() implies carries(
            noted(list, found).0,
            #[trigger] found[i],
        ) by {
            if i < rest.len() {
                assert(rest[i] == found[i]);
                assert(carries(known, found[i]));
                assert(found[i].knob != f.knob);
            }
        }
    }
}

proof fn lemma_nothing_new(list: Seq<OverrideView>, found: Seq<OverrideView>)
    requires
        forall|i: int| 0 <= i < found.len() ==> carries(list, #[trigger] found[i]),
    ensures
        noted(list, found) == (list, Seq::<OverrideView>::empty()),
    decreases found.len(),
{
    if found.len() > 0 {
        let rest = found.drop_last();
        assert forall|i: int| 0 <= i < rest.len() implies carries(list, #[trigger] rest[i]) by {
            assert(rest[i] == found[i]);
        }
        lemma_nothing_new(list, rest);
        assert(carries(list, found[found.len() - 1]));
    }
}

/// One entry per knob, the latest finding, however many looks.
pub proof fn law_one_entry_per_knob(list: Seq<OverrideView>, found: Seq<OverrideView>)
    requires
        one_per_knob(list),
        one_per_knob(found),
    ensures
        one_per_knob(noted(list, found).0),
        forall|i: int|
            0 <= i < found.len() ==> carries(noted(list, found).0, #[trigger] found[i]),
{
    lemma_noted(list, found);
}

/// Finding the same again is no news and changes nothing.
pub proof fn law_the_same_finding_is_news_once(list: Seq<OverrideView>, found: Seq<OverrideView>)
    requires
        one_per_knob(list),
        one_per_knob(found),
    ensures
        noted(noted(list, found).0, found) == (noted(list, found).0, Seq::<OverrideView>::empty()),
{
    lemma_noted(list, found);
    lemma_nothing_new(noted(list, found).0, found);
}

/// One look at the machine never reports the same knob twice.
pub proof fn law_a_look_reports_each_knob_once(
    m: PowerMode,
    expected: KnobsView,
    now: KnobsView,
    since_ms: int,
)
    ensures
        one_per_knob(watch::examined(m, expected, now, since_ms).overrides),
{
    reveal_strlit("platform_profile");
    reveal_strlit("energy_performance_preference");
    reveal_strlit("turbo");
    reveal_strlit("PL1");
    reveal_strlit("PL2");
    reveal_strlit("PL4");
    assert("platform_profile"@.len() == 16);
    assert("energy_performance_preference"@.len() == 29);
    assert("turbo"@.len() == 5);
    assert("PL1"@.len() == 3 && "PL1"@[2] == '1');
    assert("PL2"@.len() == 3 && "PL2"@[2] == '2');
    assert("PL4"@.len() == 3 && "PL4"@[2] == '4');
    let reverted = since_ms < watch::FIGHT_WINDOW_MS;
    let a = watch::profile_finding(m, expected, now, reverted);
    let b = watch::changed(
        "energy_performance_preference"@,
        expected.energy_preference,
        now.energy_preference,
        reverted,
    );
    let c = watch::turbo_changed(expected.turbo, now.turbo, reverted);
    let d = watch::limit_changed("PL1"@, expected.limits.pl1_uw, now.limits.pl1_uw, reverted);
    let e = watch::limit_changed("PL2"@, expected.limits.pl2_uw, now.limits.pl2_uw, reverted);
    let f = watch::limit_changed("PL4"@, expected.limits.pl4_uw, now.limits.pl4_uw, reverted);
    lemma_one_more(a, b);
    lemma_one_more(a + b, c);
    lemma_one_more(a + b + c, d);
    lemma_one_more(a + b + c + d, e);
    lemma_one_more(a + b + c + d + e, f);
}

proof fn lemma_one_more(list: Seq<OverrideView>, more: Seq<OverrideView>)
    requires
        one_per_knob(list),
        more.len() <= 1,
        more.len() == 1 ==> forall|i: int|
            0 <= i < list.len() ==> (#[trigger] list[i]).knob != more[0].knob,
    ensures
        one_per_knob(list + more),
{
    let all = list + more;
    assert forall|i: int, j: int| 0 <= i < j < all.len() implies (#[trigger] all[i]).knob != (
    #[trigger] all[j]).knob by {
        assert(all[i] == list[i]);
        if j < list.len() {
            assert(list[i].knob != list[j].knob);
        } else {
            assert(all[j] == more[0]);
        }
    }
}

/// A machine that was never configured is left alone: no mode is restored, the
/// system's own profile is not written, and no limit is owned.
pub proof fn law_an_unconfigured_machine_is_left_alone(m: PowerMode)
    ensures
        default_config().mode is None,
        !default_config().restore_mode_on_start,
        !default_config().apply_to_os_profile,
        !default_config().envelope_owned,
        default_config().stock_limits is None,
        default_config().tuning.of(m) == (Tuning { pl1_percent: 100, pl2_percent: 100, turbo: true }),
{
}

/// The module starts in the mode that the machine is in, or in balanced, with
/// nothing chosen by hand, and watches the firmware profile alone. Automatic
/// switching starts only where it is on and its settings can be used.
pub proof fn law_the_module_starts_as_the_machine_is(
    config: PowerConfig,
    observed: Limits,
    m: PowerMode,
    profile: Option<Seq<char>>,
    now: u64,
)
    ensures
        started(config, observed, Some(m), profile, now).mode == m,
        started(config, observed, None, profile, now).mode == PowerMode::Balanced,
        started(config, observed, Some(m), profile, now).config.auto.enabled <==> (
        config.auto.enabled && config.auto.usable()),
        started(config, observed, Some(m), profile, now).config.mode == config.mode,
        started(config, observed, Some(m), profile, now).config.tuning == config.tuning,
        started(config, observed, Some(m), profile, now).config.envelope_owned
            == config.envelope_owned,
        started(config, observed, Some(m), profile, now).config.restore_mode_on_start
            == config.restore_mode_on_start,
        started(config, observed, Some(m), profile, now).config.apply_to_os_profile
            == config.apply_to_os_profile,
        started(config, observed, Some(m), profile, now).manual_override_at is None,
        started(config, observed, Some(m), profile, now).switcher.manual is None,
        started(config, observed, Some(m), profile, now).expected.platform_profile == profile,
        started(config, observed, Some(m), profile, now).expected.turbo is None,
        started(config, observed, Some(m), profile, now).expected.energy_preference is None,
        started(config, observed, Some(m), profile, now).expected_at == now,
        started(config, observed, Some(m), profile, now).overrides.len() == 0,
{
}

/// Of two sets of limits the higher value is kept for each, and a value where
/// only one set has it.
pub proof fn law_the_higher_limit_is_kept(stored: Limits, observed: Limits, which: int)
    requires
        0 <= which < 3,
    ensures
        ({
            let a = stored.nth(which);
            let b = observed.nth(which);
            let r = highest_of(stored, observed).nth(which);
            &&& a is None ==> r == b
            &&& b is None ==> r == a
            &&& a is Some && b is Some ==> r is Some && r->0 >= a->0 && r->0 >= b->0 && (r == a
                || r == b)
        }),
{
}

/// What is believed of two sane readings is the higher of them, for the sustained
/// and the boost limit; the peak is what the machine says.
pub proof fn law_the_ceiling_is_the_highest_seen(stored: Limits, observed: Limits)
    requires
        stored.believable() == stored,
        observed.believable() == observed,
        stored.pl1_uw is Some && stored.pl2_uw is Some,
        observed.pl1_uw is Some && observed.pl2_uw is Some && observed.pl4_uw is Some,
        stored.pl1_uw->0 <= stored.pl2_uw->0 <= observed.pl4_uw->0,
        observed.pl1_uw->0 <= observed.pl2_uw->0 <= observed.pl4_uw->0,
    ensures
        trusted_stock(Some(stored), observed).pl1_uw == Some(
            if stored.pl1_uw->0 >= observed.pl1_uw->0 {
                stored.pl1_uw->0
            } else {
                observed.pl1_uw->0
            },
        ),
        trusted_stock(Some(stored), observed).pl2_uw == Some(
            if stored.pl2_uw->0 >= observed.pl2_uw->0 {
                stored.pl2_uw->0
            } else {
                observed.pl2_uw->0
            },
        ),
        trusted_stock(Some(stored), observed).pl4_uw == observed.pl4_uw,
        trusted_stock(None, observed) == observed,
{
}

/// At boot the saved mode is restored, but a fast one not on battery: there the
/// mode that suits the battery takes its place.
pub proof fn law_a_fast_mode_is_not_restored_on_battery(saved: PowerMode, config: PowerConfig)
    ensures
        saved == PowerMode::Eco || saved == PowerMode::Balanced ==> mode_at_boot(
            saved,
            config,
            Some(true),
        ) == saved,
        saved == PowerMode::Performance || saved == PowerMode::Unlimited ==> mode_at_boot(
            saved,
            config,
            Some(true),
        ) == config.auto.home(true),
{
}

/// Watts are refused where the machine has no such limit or they are not
/// positive, and otherwise taken.
pub proof fn law_only_positive_watts_are_taken(uw: Option<i64>, stock: u64)
    ensures
        share_of(uw, None) == Err::<int, ErrorView>(err_no_package_limit()),
        share_of(uw, Some(stock)) is Ok <==> uw is Some && uw->0 > 0,
        share_of(uw, Some(stock)) is Err ==> share_of(uw, Some(stock)) == Err::<int, ErrorView>(
            err_watts_positive(),
        ),
        uw == Some(stock as i64) && 0 < stock <= 500_000_000 ==> share_of(uw, Some(stock)) == Ok::<
            int,
            ErrorView,
        >(100),
{
    if uw == Some(stock as i64) && 0 < stock <= 500_000_000 {
        law_the_percentage_is_the_nearest(stock as int, stock as int);
    }
}

/// A choice by hand holds the automatic switching back from now on and ends what
/// it was about to do; any other change of mode leaves both alone. Either way what
/// was written is what is watched, and earlier findings are closed.
pub proof fn law_a_choice_by_hand_is_stamped(
    state: ModuleView,
    m: PowerMode,
    manual: bool,
    report: ReportView,
    now: u64,
)
    ensures
        mode_set(state, m, true, report, now).manual_override_at == Some(now),
        mode_set(state, m, true, report, now).switcher.pending is None,
        mode_set(state, m, false, report, now).manual_override_at == state.manual_override_at,
        mode_set(state, m, false, report, now).switcher == state.switcher,
        mode_set(state, m, true, report, now).switcher.manual == state.switcher.manual,
        mode_set(state, m, true, report, now).switcher.last_on_battery
            == state.switcher.last_on_battery,
        mode_set(state, m, manual, report, now).expected == report.expected,
        mode_set(state, m, manual, report, now).expected_at == now,
        mode_set(state, m, manual, report, now).overrides.len() == 0,
        mode_set(state, m, manual, report, now).last_external is None,
        mode_set(state, m, manual, report, now).last_auto_switch == state.last_auto_switch,
        mode_set(state, m, manual, report, now).last_save_error == state.last_save_error,
        mode_set(state, m, manual, report, now).mode == (if report.applied.len() == 0 {
            state.mode
        } else {
            m
        }),
        mode_set(state, m, manual, report, now).config.mode == (if report.applied.len() == 0 {
            state.config.mode
        } else {
            Some(m)
        }),
        mode_set(state, m, manual, report, now).config.tuning == state.config.tuning,
        mode_set(state, m, manual, report, now).config.auto == state.config.auto,
        mode_set(state, m, manual, report, now).config.stock_limits == state.config.stock_limits,
        mode_set(state, m, manual, report, now).config.envelope_owned
            == state.config.envelope_owned,
        mode_chosen(state, m, report, now).manual_override_at == Some(now),
        mode_chosen(state, m, report, now).switcher.pending is None,
{
}

/// Limits are written for a mode exactly where it was tuned or the machine still
/// has limits of ours.
pub proof fn law_only_tuned_modes_touch_the_limits(config: PowerConfig, m: PowerMode)
    ensures
        writes_envelope(config, m) <==> config.envelope_owned || config.tuning.of(m).pl1_percent
            != 100 || config.tuning.of(m).pl2_percent != 100 || !config.tuning.of(m).turbo,
{
}

/// What the limits came to is told line by line, the turbo's line last.
pub proof fn law_what_became_of_the_limits_is_told(
    config: PowerConfig,
    m: PowerMode,
    done: DoneView,
    line: Seq<char>,
)
    requires
        writes_envelope(config, m),
    ensures
        done.applied.contains(line) ==> envelope_report(config, m, done).applied.contains(line),
        done.failed.contains(line) ==> envelope_report(config, m, done).failed.contains(line),
        done.turbo == Some(Ok::<Seq<char>, Seq<char>>(line)) ==> envelope_report(
            config,
            m,
            done,
        ).applied == done.applied.push(line) && envelope_report(config, m, done).failed
            == done.failed,
        done.turbo == Some(Err::<Seq<char>, Seq<char>>(line)) ==> envelope_report(
            config,
            m,
            done,
        ).failed == done.failed.push(line) && envelope_report(config, m, done).applied
            == done.applied,
        done.turbo is None ==> envelope_report(config, m, done).applied == done.applied
            && envelope_report(config, m, done).failed == done.failed,
        !envelope_report(config, m, done).rolled_back,
{
    let r = envelope_report(config, m, done);
    if done.applied.contains(line) {
        let k = choose|k: int| 0 <= k < done.applied.len() && done.applied[k] == line;
        assert(r.applied[k] == line);
    }
    if done.failed.contains(line) {
        let k = choose|k: int| 0 <= k < done.failed.len() && done.failed[k] == line;
        assert(r.failed[k] == line);
    }
}

/// A knob is watched from then on where it was asked for and taken: as it reads,
/// and not at all where it was refused, by itself or with the others.
pub proof fn law_only_what_was_taken_is_watched(
    config: PowerConfig,
    m: PowerMode,
    done: DoneView,
    i: int,
)
    requires
        writes_envelope(config, m),
    ensures
        done.failed.len() == 0 ==> {
            let limits = envelope_report(config, m, done).expected.limits;
            &&& envelope_target(config, m).pl1_uw is Some ==> limits.pl1_uw == done.limits.pl1_uw
            &&& envelope_target(config, m).pl2_uw is Some ==> limits.pl2_uw == done.limits.pl2_uw
            &&& envelope_target(config, m).pl4_uw is Some ==> limits.pl4_uw == done.limits.pl4_uw
            &&& envelope_target(config, m).pl1_uw is None ==> limits.pl1_uw is None
        },
        0 <= i < done.failed.len() && text::starts_with(done.failed[i], "PL1"@) ==> envelope_report(
            config,
            m,
            done,
        ).expected.limits.pl1_uw is None,
        0 <= i < done.failed.len() && text::starts_with(done.failed[i], "PL2"@) ==> envelope_report(
            config,
            m,
            done,
        ).expected.limits.pl2_uw is None,
        0 <= i < done.failed.len() && text::starts_with(done.failed[i], "PL4"@) ==> envelope_report(
            config,
            m,
            done,
        ).expected.limits.pl4_uw is None,
        0 <= i < done.failed.len() && text::starts_with(done.failed[i], "PL:"@) ==> envelope_report(
            config,
            m,
            done,
        ).expected.limits == (Limits { pl1_uw: None, pl2_uw: None, pl4_uw: None }),
        (done.turbo matches Some(Err(_))) ==> envelope_report(config, m, done).expected.turbo
            is None,
        done.turbo is None || (done.turbo matches Some(Ok(_))) ==> envelope_report(
            config,
            m,
            done,
        ).expected.turbo == done.turbo_now,
        envelope_report(config, m, done).expected.platform_profile is None,
        envelope_report(config, m, done).expected.energy_preference is None,
{
}

/// The machine keeps limits of ours while the mode is tuned, and while putting
/// them back has not succeeded.
pub proof fn law_when_the_limits_are_still_ours(config: PowerConfig, m: PowerMode, done: DoneView)
    requires
        writes_envelope(config, m),
    ensures
        owns_envelope(config, m, done) <==> config.tuning.of(m).pl1_percent != 100
            || config.tuning.of(m).pl2_percent != 100 || !config.tuning.of(m).turbo
            || envelope_report(config, m, done).failed.len() > 0,
{
}

/// The report of a mode has the lines of both halves, those of the profile
/// first. The profile and the hint are watched as the one half left them, turbo
/// and limits as the other did. A profile that was rolled back is all there is.
pub proof fn law_both_halves_are_reported(backend: ReportView, envelope: ReportView)
    ensures
        backend.rolled_back ==> profile_report(backend, envelope) == backend,
        !backend.rolled_back ==> {
            let r = profile_report(backend, envelope);
            &&& r.applied == backend.applied + envelope.applied
            &&& r.failed == backend.failed + envelope.failed
            &&& r.expected.platform_profile == backend.expected.platform_profile
            &&& r.expected.energy_preference == backend.expected.energy_preference
            &&& r.expected.turbo == envelope.expected.turbo
            &&& r.expected.limits == envelope.expected.limits
            &&& !r.rolled_back
        },
{
}

/// Each method is known by its name, and takes the parameter it is about. Any
/// other name is refused by that name.
pub proof fn law_calls_are_known_by_name(
    method: Seq<char>,
    named: Option<Seq<char>>,
    enabled: Option<bool>,
    m: PowerMode,
    on: bool,
)
    ensures
        call_of("getState"@, named, enabled) == Ok::<Call, ErrorView>(Call::GetState),
        named is Some && mode::mode_named(named->0) == Some(m) ==> call_of(
            "setMode"@,
            named,
            enabled,
        ) == Ok::<Call, ErrorView>(Call::SetMode(m)),
        named is None || mode::mode_named(named->0) is None ==> call_of(
            "setMode"@,
            named,
            enabled,
        ) == Err::<Call, ErrorView>(err_bad_mode()),
        call_of("setAutoConfig"@, named, enabled) == Ok::<Call, ErrorView>(Call::SetAutoConfig),
        call_of("setTuning"@, named, enabled) == Ok::<Call, ErrorView>(Call::SetTuning),
        call_of("setApplyToOsProfile"@, named, Some(on)) == Ok::<Call, ErrorView>(
            Call::SetApplyToOsProfile(on),
        ),
        call_of("setRestoreOnStart"@, named, Some(on)) == Ok::<Call, ErrorView>(
            Call::SetRestoreOnStart(on),
        ),
        call_of("setApplyToOsProfile"@, named, None) == Err::<Call, ErrorView>(err_enabled_bool()),
        call_of("setRestoreOnStart"@, named, None) == Err::<Call, ErrorView>(err_enabled_bool()),
        method != "getState"@ && method != "setMode"@ && method != "setAutoConfig"@ && method
            != "setTuning"@ && method != "setApplyToOsProfile"@ && method != "setRestoreOnStart"@
            ==> call_of(method, named, enabled) == Err::<Call, ErrorView>(
            ErrorView::UnknownMethod(method),
        ),
{
    reveal_strlit("getState");
    reveal_strlit("setMode");
    reveal_strlit("setAutoConfig");
    reveal_strlit("setTuning");
    reveal_strlit("setApplyToOsProfile");
    reveal_strlit("setRestoreOnStart");
    assert("getState"@.len() == 8);
    assert("setMode"@.len() == 7);
    assert("setAutoConfig"@.len() == 13);
    assert("setTuning"@.len() == 9);
    assert("setApplyToOsProfile"@.len() == 19);
    assert("setRestoreOnStart"@.len() == 17);
}

/// The mode and the turbo of a tuning are read under their names: left out or
/// null they are absent, and of another type they are wrong.
pub proof fn law_tuning_fields_are_read_by_name(params: Json, name: Seq<char>, on: bool)
    ensures
        params.member("mode"@) is None || params.member("mode"@) == Some(Json::Null) ==> mode_field(
            params,
        ) == ModeField::Absent,
        params.member("mode"@) == Some(Json::Text(name)) ==> mode_field(params) == (
        match mode::mode_named(name) {
            Some(m) => ModeField::Given(m),
            None => ModeField::Wrong,
        }),
        params.member("mode"@) == Some(Json::Bool(on)) ==> mode_field(params) == ModeField::Wrong,
        params.member("turbo"@) is None || params.member("turbo"@) == Some(Json::Null)
            ==> turbo_field(params) == TurboField::Absent,
        params.member("turbo"@) == Some(Json::Bool(on)) ==> turbo_field(params)
            == TurboField::Given(on),
        params.member("turbo"@) == Some(Json::Text(name)) ==> turbo_field(params)
            == TurboField::Wrong,
{
}

/// A tuning is for the mode it names, or for the one that is on. A field of the
/// wrong type refuses it, and so does a lock where a limit is asked for.
pub proof fn law_the_mode_to_tune(
    request: TuningRequest,
    current: PowerMode,
    locked: Option<LockSource>,
    m: PowerMode,
)
    ensures
        tuned_mode(request, current, locked) is Ok <==> request.mode != ModeField::Wrong
            && request.pl1 != Watts::Wrong && request.pl2 != Watts::Wrong && request.turbo
            != TurboField::Wrong && (locked is None || (request.pl1 == Watts::Absent
            && request.pl2 == Watts::Absent)),
        tuned_mode(request, current, locked) is Ok && request.mode == ModeField::Given(m)
            ==> tuned_mode(request, current, locked) == Ok::<PowerMode, ErrorView>(m),
        tuned_mode(request, current, locked) is Ok && request.mode == ModeField::Absent
            ==> tuned_mode(request, current, locked) == Ok::<PowerMode, ErrorView>(current),
        request.mode == ModeField::Wrong ==> tuned_mode(request, current, locked) == Err::<
            PowerMode,
            ErrorView,
        >(err_bad_mode()),
        request.mode != ModeField::Wrong && request.pl1 == Watts::Wrong ==> tuned_mode(
            request,
            current,
            locked,
        ) == Err::<PowerMode, ErrorView>(err_watts_number("pl1W"@)),
        request.mode != ModeField::Wrong && request.pl1 != Watts::Wrong && request.pl2
            == Watts::Wrong ==> tuned_mode(request, current, locked) == Err::<
            PowerMode,
            ErrorView,
        >(err_watts_number("pl2W"@)),
        request.mode != ModeField::Wrong && request.pl1 is Given && request.pl2 is Absent && locked
            is Some ==> tuned_mode(request, current, locked) == Err::<PowerMode, ErrorView>(
            err_limits_locked(locked->0),
        ),
{
}

/// What a tuning does not name keeps its value, and what it names is taken. It
/// is refused where the watts are, and where it would let the sustained limit
/// cross the boost limit.
pub proof fn law_a_tuning_changes_what_it_names(
    request: TuningRequest,
    previous: Tuning,
    stock: Limits,
    n: i64,
    s: u64,
    t: Tuning,
    on: bool,
)
    requires
        tuning_asked(request, previous, stock) == Ok::<Tuning, ErrorView>(t),
    ensures
        request.pl1 == Watts::Absent ==> t.pl1_percent == previous.pl1_percent,
        request.pl2 == Watts::Absent ==> t.pl2_percent == previous.pl2_percent,
        request.turbo == TurboField::Absent ==> t.turbo == previous.turbo,
        request.turbo == TurboField::Given(on) ==> t.turbo == on,
        request.pl1 == Watts::Given(Some(n)) && stock.pl1_uw == Some(s) ==> t.pl1_percent
            == percentage(n as int, s as int),
        request.pl2 == Watts::Given(Some(n)) && stock.pl2_uw == Some(s) ==> t.pl2_percent
            == percentage(n as int, s as int),
        t.asks(stock).pl1_uw is Some && t.asks(stock).pl2_uw is Some ==> t.asks(stock).pl1_uw->0
            <= t.asks(stock).pl2_uw->0,
{
    if request.pl1 is Given {
        lemma_percentage_is_a_byte(request.pl1->Given_0, stock.pl1_uw);
    }
    if request.pl2 is Given {
        lemma_percentage_is_a_byte(request.pl2->Given_0, stock.pl2_uw);
    }
}

proof fn lemma_percentage_is_a_byte(uw: Option<i64>, stock_uw: Option<u64>)
    ensures
        share_of(uw, stock_uw) matches Ok(p) ==> 1 <= p <= 100,
{
}

/// A tuning is refused only for its watts or for limits that would cross.
pub proof fn law_a_sound_tuning_is_taken(request: TuningRequest, previous: Tuning, stock: Limits)
    requires
        request.pl1 == Watts::Absent,
        request.pl2 == Watts::Absent,
        previous.asks(stock).pl1_uw is None || previous.asks(stock).pl2_uw is None
            || previous.asks(stock).pl1_uw->0 <= previous.asks(stock).pl2_uw->0,
    ensures
        tuning_asked(request, previous, stock) is Ok,
{
}

/// A tuning that changes nothing is reported as such; one that does is applied at
/// once exactly where its mode is on.
pub proof fn law_a_tuning_of_the_mode_that_is_on_applies_now(
    state: ModuleView,
    request: TuningRequest,
    locked: Option<LockSource>,
    m: PowerMode,
    tuning: Tuning,
    did: Tuned,
)
    requires
        tuning_result(state, request, locked) == Ok::<(PowerMode, Tuning, Tuned), ErrorView>(
            (m, tuning, did),
        ),
    ensures
        did is Unchanged <==> tuning == state.config.tuning.of(m),
        did matches Tuned::Stored { applies_now } ==> (applies_now <==> m == state.mode),
        tuned_mode(request, state.mode, locked) == Ok::<PowerMode, ErrorView>(m),
        tuning_asked(request, state.config.tuning.of(m), state.config.stock()) == Ok::<
            Tuning,
            ErrorView,
        >(tuning),
{
}

/// A choice by hand holds for as many seconds as were set, and no longer.
pub proof fn law_a_choice_by_hand_wears_off(state: ModuleView, now: u64, at: u64)
    ensures
        state.manual_override_at is None ==> !overridden(state, now),
        state.manual_override_at == Some(at) && now >= at ==> (overridden(state, now) <==> now < at
            + 1000 * state.config.auto.manual_override_secs),
{
}

/// While a choice by hand holds, nothing that is about to happen is kept; after
/// it, what the switcher decides is decided.
pub proof fn law_what_the_switcher_decides_is_decided(
    state: ModuleView,
    inputs: AutoInputs,
    now: u64,
)
    requires
        state.config.auto.enabled,
    ensures
        !overridden(state, now) ==> supervised(state, inputs, now).1 == state.switcher.observes(
            inputs,
            state.config.auto,
            state.mode,
        ).1 && supervised(state, inputs, now).0.switcher == state.switcher.observes(
            inputs,
            state.config.auto,
            state.mode,
        ).0,
        overridden(state, now) && supervised(state, inputs, now).1 is None ==> supervised(
            state,
            inputs,
            now,
        ).0.switcher.pending is None,
        supervised(state, inputs, now).0.mode == state.mode,
        supervised(state, inputs, now).0.config == state.config,
        supervised(state, inputs, now).0.manual_override_at == state.manual_override_at,
        supervised(state, inputs, now).0.expected == state.expected,
{
}

/// A switch that took is the mode from then on, with its reason, and is saved
/// where the mode is to be restored; one that did not is told with what failed,
/// and the mode stays.
pub proof fn law_a_switch_is_recorded(
    state: ModuleView,
    decision: DecisionView,
    report: ReportView,
    now: u64,
)
    ensures
        report.applied.len() > 0 ==> {
            let after = switched(state, decision, report, now);
            &&& after.mode == decision.mode
            &&& after.last_auto_switch == Some(decision.reason)
            &&& after.config.mode == (if state.config.restore_mode_on_start {
                Some(decision.mode)
            } else {
                state.config.mode
            })
        },
        report.applied.len() == 0 ==> {
            let after = switched(state, decision, report, now);
            &&& after.mode == state.mode
            &&& after.config == state.config
            &&& after.last_auto_switch matches Some(said) && said.key == "power.autoSwitch.failed"@
                && said.params == seq![
                ("mode"@, decision.mode.label()),
                ("failed"@, text::join(report.failed, "; "@)),
            ]
        },
        switched(state, decision, report, now).expected == report.expected,
        switched(state, decision, report, now).expected_at == now,
        switched(state, decision, report, now).overrides.len() == 0,
        switched(state, decision, report, now).manual_override_at == state.manual_override_at,
        switched(state, decision, report, now).switcher == state.switcher,
{
}

/// A look changes the profile that is watched only where it was moved within the
/// mode, and nothing but that and the findings.
pub proof fn law_a_look_keeps_the_rest(state: ModuleView, found: watch::ExaminedView)
    ensures
        looked(state, found).mode == state.mode,
        looked(state, found).config == state.config,
        looked(state, found).switcher == state.switcher,
        looked(state, found).expected_at == state.expected_at,
        looked(state, found).manual_override_at == state.manual_override_at,
        looked(state, found).last_external == state.last_external,
        found.same_mode_profile is None ==> looked(state, found).expected == state.expected,
        found.same_mode_profile is Some ==> looked(state, found).expected.platform_profile
            == found.same_mode_profile,
        looked(state, found).expected.turbo == state.expected.turbo,
        looked(state, found).expected.limits == state.expected.limits,
        looked(state, found).expected.energy_preference == state.expected.energy_preference,
{
}

/// Following another program's profile makes its mode the mode, as if it had been
/// chosen by hand, and says so; what is watched is that profile and what the
/// limits came to.
pub proof fn law_following_is_like_choosing(
    state: ModuleView,
    m: PowerMode,
    profile: Seq<char>,
    envelope: ReportView,
    now: u64,
)
    ensures
        ({
            let after = followed(state, m, profile, envelope, now);
            &&& after.mode == m
            &&& after.config.mode == Some(m)
            &&& after.config.auto == state.config.auto
            &&& after.config.tuning == state.config.tuning
            &&& after.manual_override_at == Some(now)
            &&& after.switcher.manual == Some(m)
            &&& after.switcher.pending is None
            &&& after.switcher.last_on_battery == state.switcher.last_on_battery
            &&& after.expected.platform_profile == Some(profile)
            &&& after.expected.limits == envelope.expected.limits
            &&& after.expected.turbo == envelope.expected.turbo
            &&& after.expected_at == now
            &&& after.overrides == state.overrides
            &&& after.last_external matches Some(said) && said.key == "power.external.followed"@
                && said.params == seq![("profile"@, profile), ("mode"@, m.name())]
        }),
{
}

/// Taking note of a finding leaves the other knobs' entries as they are, and
/// every finding that was not there before is news.
pub proof fn law_a_finding_replaces_its_own_entry(list: Seq<OverrideView>, f: OverrideView, i: int)
    requires
        one_per_knob(list),
        0 <= i < list.len(),
    ensures
        list[i].knob != f.knob ==> note(list, f)[i] == list[i],
        list[i].knob == f.knob ==> note(list, f) == list.update(i, f),
        note(list, f).contains(f),
        noted(list, seq![f]).1 == (if list.contains(f) {
            seq![]
        } else {
            seq![f]
        }),
{
    lemma_knob_at(list, f.knob, 0);
    let k = knob_at(list, f.knob, 0);
    match k {
        Some(k) => {
            assert(note(list, f)[k] == f);
        },
        None => {
            assert(note(list, f)[list.len() as int] == f);
        },
    }
    assert(seq![f].drop_last() =~= seq![]);
    assert(noted(list, seq![f].drop_last()) == (list, Seq::<OverrideView>::empty()));
    assert(seq![f].last() == f);
    assert(Seq::<OverrideView>::empty().push(f) =~= seq![f]);
    if list.contains(f) {
        let j = choose|j: int| 0 <= j < list.len() && list[j] == f;
        assert(k is Some);
        if k->0 < j {
            assert(list[k->0].knob != list[j].knob);
        }
        if j < k->0 {
            assert(list[j].knob != list[k->0].knob);
        }
        assert(carries(list, f));
    } else if carries(list, f) {
        assert(list[k->0] == f);
    }
}

/// What is announced is named by its topic.
pub proof fn law_topics_are_named(m: PowerMode, source: Seq<char>, finding: OverrideView)
    ensures
        (AnnouncementView::Mode { mode: m, source }).topic_name() == "power.mode"@,
        AnnouncementView::Overridden(finding).topic_name() == "power.overridden"@,
{
}

/// A mode is restored exactly where that is on and one was saved; a slow one as it
/// was saved.
pub proof fn law_a_saved_mode_is_restored(
    module: &PowerModule,
    on_battery: Option<bool>,
    r: Option<PowerMode>,
)
    requires
        call_ensures(PowerModule::restore_target, (module, on_battery), r),
    ensures
        r is Some <==> module.config.restore_mode_on_start && module.config.mode is Some,
        r is Some && (module.config.mode == Some(PowerMode::Eco) || module.config.mode == Some(
            PowerMode::Balanced,
        ) || on_battery != Some(true)) ==> r == module.config.mode,
        r is Some && on_battery == Some(true) && (module.config.mode == Some(PowerMode::Performance)
            || module.config.mode == Some(PowerMode::Unlimited)) ==> r == Some(
            module.config.auto.home(true),
        ),
{
}

/// A restored mode is the mode where anything of it took, and what was written is
/// watched; the settings stay.
pub proof fn law_a_restored_mode_is_recorded(
    module: &mut PowerModule,
    m: PowerMode,
    report: &ApplyReport,
    now: u64,
)
    requires
        call_ensures(PowerModule::restored, (module, m, report, now), ()),
    ensures
        report@.applied.len() > 0 ==> final(module)@.mode == m,
        report@.applied.len() == 0 ==> final(module)@.mode == old(module)@.mode,
        final(module)@.expected == report@.expected,
        final(module)@.expected_at == now,
        final(module)@.config == old(module)@.config,
        final(module)@.manual_override_at == old(module)@.manual_override_at,
{
}

/// A failed save is told until one succeeds, and changes nothing else.
pub proof fn law_a_failed_save_is_told(module: &mut PowerModule, result: Result<(), String>)
    requires
        call_ensures(PowerModule::saved, (module, result), ()),
    ensures
        result is Ok ==> final(module)@.last_save_error is None,
        result matches Err(e) ==> final(module)@.last_save_error == Some(e@),
        final(module)@.mode == old(module)@.mode,
        final(module)@.config == old(module)@.config,
{
}

/// The limits for a mode are what its tuning asks for, never above the machine's
/// own, with its turbo, and there are none where the mode does not touch them.
pub proof fn law_the_limits_for_a_mode(
    module: &PowerModule,
    m: PowerMode,
    r: Option<(Limits, bool)>,
)
    requires
        call_ensures(PowerModule::envelope_for, (module, m), r),
    ensures
        r is None <==> !module.config.envelope_owned && module.config.tuning.of(m).pl1_percent == 100
            && module.config.tuning.of(m).pl2_percent == 100 && module.config.tuning.of(m).turbo,
        r matches Some((limits, turbo)) ==> turbo == module.config.tuning.of(m).turbo && limits
            == module.config.tuning.of(m).asks(module.config.stock()).under_stock(
            module.config.stock(),
        ),
{
}

/// The key steps to the next mode up, from the last to the first, and the answer
/// says where it came from, what it asked for and where it is.
pub proof fn law_the_key_moves_on(
    module: &mut PowerModule,
    report: ApplyReport,
    now: u64,
    r: Cycled,
)
    requires
        call_ensures(PowerModule::cycle, (module, report, now), r),
    ensures
        r.from == old(module)@.mode,
        r.from == PowerMode::Eco ==> r.asked_for == PowerMode::Balanced,
        r.from == PowerMode::Balanced ==> r.asked_for == PowerMode::Performance,
        r.from == PowerMode::Performance ==> r.asked_for == PowerMode::Unlimited,
        r.from == PowerMode::Unlimited ==> r.asked_for == PowerMode::Eco,
        report@.applied.len() > 0 ==> r.to == r.asked_for && final(module)@.mode == r.to,
        report@.applied.len() == 0 ==> r.to == r.from && final(module)@.mode == r.from,
        r.report == report,
        final(module)@.manual_override_at == Some(now),
{
    mode::law_the_key_steps_from_least_to_most();
}

/// Choosing a mode answers whether anything of it took, and a failure tells all
/// that failed.
pub proof fn law_a_choice_is_answered(
    module: &mut PowerModule,
    m: PowerMode,
    report: &ApplyReport,
    now: u64,
    r: bool,
    reply: Result<(), ModuleError>,
)
    ensures
        call_ensures(PowerModule::pick, (module, m, report, now), r) ==> (r <==> report@.applied.len()
            > 0),
        call_ensures(PowerModule::reapply, (module, true, report, now), r) ==> (r
            <==> report@.applied.len() > 0) && final(module)@.mode == old(module)@.mode,
        call_ensures(set_mode_reply, (report,), reply) ==> (reply is Ok <==> report@.applied.len()
            > 0) && (reply matches Err(e) ==> (e@ matches ErrorView::Localised(kind, said) && kind
            == ErrorKind::PermissionDenied && said.key == "power.err.applyFailed"@ && said.params
            == seq![("detail"@, text::join(report@.failed, "; "@))])),
{
}

/// Settings that are wrong are refused and change nothing; others are taken, end
/// what was about to happen, and start afresh where switching goes on.
pub proof fn law_settings_are_taken_or_refused(
    module: &mut PowerModule,
    config: AutoConfig,
    r: Result<(), ModuleError>,
)
    requires
        call_ensures(PowerModule::set_auto_config, (module, config), r),
    ensures
        r is Err <==> config.wrong() is Some,
        r is Err ==> final(module)@ == old(module)@,
        r is Ok ==> final(module)@.config.auto == config && final(module)@.switcher.pending is None
            && final(module)@.mode == old(module)@.mode && final(module)@.config.tuning == old(module)@.config.tuning && final(module)@.config.mode == old(module)@.config.mode,
        r is Ok && config.enabled && !old(module)@.config.auto.enabled ==> final(module)@.switcher.manual is None,
        r is Ok && !(config.enabled && !old(module)@.config.auto.enabled) ==> final(module)@.switcher.manual == old(module)@.switcher.manual,
{
}

/// The system's own profile is written from then on or no more, and let go of
/// exactly where it was and is no more.
pub proof fn law_the_systems_profile_is_let_go(module: &mut PowerModule, on: bool, release: bool)
    requires
        call_ensures(PowerModule::set_apply_to_os_profile, (module, on), release),
    ensures
        final(module)@.config.apply_to_os_profile == on,
        release <==> old(module)@.config.apply_to_os_profile && !on,
        final(module)@.mode == old(module)@.mode,
        final(module)@.config.restore_mode_on_start == old(module)@.config.restore_mode_on_start,
        final(module)@.config.mode == old(module)@.config.mode,
{
}

/// Restoring is on from then on or no more; where it goes on, the mode that is on
/// is the one to restore.
pub proof fn law_the_mode_that_is_on_is_the_one_to_restore(module: &mut PowerModule, on: bool)
    requires
        call_ensures(PowerModule::set_restore_on_start, (module, on), ()),
    ensures
        final(module)@.config.restore_mode_on_start == on,
        on ==> final(module)@.config.mode == Some(old(module)@.mode),
        !on ==> final(module)@.config.mode == old(module)@.config.mode,
        final(module)@.mode == old(module)@.mode,
        final(module)@.config.apply_to_os_profile == old(module)@.config.apply_to_os_profile,
{
}

/// The time that a choice by hand still holds is told in whole seconds, and not at
/// all once it does not.
pub proof fn law_the_time_left_is_told(module: &PowerModule, now: u64, r: Option<u64>, at: u64)
    requires
        call_ensures(PowerModule::override_remaining, (module, now), r),
    ensures
        module.manual_override_at is None ==> r is None,
        r is Some ==> overridden(module@, now),
        module.manual_override_at == Some(at) && now >= at ==> {
            let left = at + 1000 * module.config.auto.manual_override_secs - now;
            &&& r is Some <==> left >= 1000
            &&& r matches Some(secs) ==> 1000 * secs <= left < 1000 * secs + 1000
        },
{
}

/// The machine is looked at at least once a second's length apart.
pub proof fn law_the_interval_is_a_second_or_more(module: &PowerModule, r: u64)
    requires
        call_ensures(PowerModule::interval_secs, (module,), r),
    ensures
        r >= 1,
        module.config.auto.interval_secs >= 1 ==> r == module.config.auto.interval_secs,
{
}

/// A switch that took says so, and asks for a save exactly where the mode is to be
/// restored.
pub proof fn law_a_switch_is_saved_where_it_is_to_be_restored(
    module: &mut PowerModule,
    decision: AutoDecision,
    report: &ApplyReport,
    now: u64,
    r: (bool, bool),
)
    requires
        call_ensures(PowerModule::supervise_done, (module, decision, report, now), r),
    ensures
        r.0 <==> report@.applied.len() > 0,
        r.1 <==> report@.applied.len() > 0 && old(module)@.config.restore_mode_on_start,
        r.0 ==> final(module)@.mode == decision.mode,
        !r.0 ==> final(module)@.mode == old(module)@.mode,
{
}

/// The mode chosen by hand is shown where it is what is worked around, with the
/// power source last seen, or else the one that is there, or mains.
pub proof fn law_the_choice_by_hand_is_shown(
    module: &PowerModule,
    supply: Option<bool>,
    r: Option<PowerMode>,
    b: bool,
)
    requires
        call_ensures(PowerModule::manual_baseline, (module, supply), r),
    ensures
        ({
            let source = if module.switcher.last_on_battery is Some {
                module.switcher.last_on_battery
            } else {
                supply
            };
            &&& source == Some(b) ==> (r is Some <==> module.switcher.works_around(
                module.config.auto,
                b,
            ).manual)
            &&& source == Some(b) && r is Some ==> r == Some(
                module.switcher.works_around(module.config.auto, b).mode,
            )
            &&& source is None ==> (r is Some <==> module.switcher.works_around(
                module.config.auto,
                false,
            ).manual)
        }),
{
}

/// A mode and a finding are announced to those who listen, after what was announced
/// before, and to nobody else.
pub proof fn law_only_listeners_are_told(
    announcer: &mut Announcer,
    mode: PowerMode,
    source: &str,
    finding: &Override,
)
    ensures
        call_ensures(Announcer::publish, (announcer, mode, source), ()) ==> final(announcer).listening == old(announcer).listening && (old(announcer).listening ==> announced(
            final(announcer).queue@,
        ) == announced(old(announcer).queue@).push(
            AnnouncementView::Mode { mode, source: source@ },
        )) && (!old(announcer).listening ==> announced(final(announcer).queue@) == announced(
            old(announcer).queue@,
        )),
        call_ensures(Announcer::overridden, (announcer, finding), ()) ==> final(announcer).listening == old(announcer).listening && (old(announcer).listening ==> announced(
            final(announcer).queue@,
        ) == announced(old(announcer).queue@).push(AnnouncementView::Overridden(finding@))) && (
        !old(announcer).listening ==> announced(final(announcer).queue@) == announced(
            old(announcer).queue@,
        )),
{
}

/// A machine can change its mode where it has any mechanism, and shows what it
/// has: mechanisms, profile, choices, limits and whether there is a turbo knob.
pub proof fn law_the_machine_shows_what_it_has(
    state: &BackendState,
    paths: &LimitPaths,
    zone: &ZoneReading,
    r: PowerSurface,
    can: bool,
)
    requires
        call_ensures(surface, (state, paths, zone), r),
        call_ensures(power_mode_available, (state,), can),
    ensures
        can <==> state.available@.len() > 0,
        text::views(r.mechanisms@) == text::views(state.available@),
        text::opt_view(r.platform_profile) == text::opt_view(state.platform_profile),
        text::views(r.platform_profile_choices@) == text::views(state.platform_profile_choices@),
        r.has_turbo <==> paths.turbo is Some,
{
}

/// The answer to a saved setting has the settings and says whether they were
/// saved.
pub proof fn law_a_save_is_answered(module: &PowerModule, r: SavedResponse)
    requires
        call_ensures(PowerModule::saved_response, (module,), r),
    ensures
        r.auto == module.config.auto,
        r.restore_mode_on_start == module.config.restore_mode_on_start,
        r.saved <==> module.last_save_error is None,
        text::opt_view(r.save_error) == text::opt_view(module.last_save_error),
{
}

/// A tuning is stored for its mode alone, and one that is refused changes nothing.
pub proof fn law_a_tuning_is_stored_for_its_mode(
    module: &mut PowerModule,
    request: &TuningRequest,
    locked: Option<LockSource>,
    r: Result<Tuned, ModuleError>,
    m: PowerMode,
    other: PowerMode,
)
    requires
        call_ensures(PowerModule::set_tuning, (module, request, locked), r),
        tuned_mode(*request, old(module)@.mode, locked) == Ok::<PowerMode, ErrorView>(m),
        other != m,
    ensures
        r is Err ==> final(module)@ == old(module)@,
        final(module)@.config.tuning.of(other) == old(module)@.config.tuning.of(other),
        final(module)@.mode == old(module)@.mode,
        final(module)@.config.stock_limits == old(module)@.config.stock_limits,
        r is Ok <==> tuning_asked(
            *request,
            old(module)@.config.tuning.of(m),
            old(module)@.config.stock(),
        ) is Ok,
        r is Ok ==> tuning_asked(
            *request,
            old(module)@.config.tuning.of(m),
            old(module)@.config.stock(),
        ) == Ok::<Tuning, ErrorView>(final(module)@.config.tuning.of(m)),
{
}

/// Each message has a key of its own, names what it is about, and says so in these
/// words.
pub proof fn law_messages_have_keys_and_words(
    key: Seq<char>,
    source: LockSource,
    pl1: u64,
    pl2: u64,
)
    ensures
        err_no_package_limit() matches ErrorView::Localised(kind, m)
            && kind == ErrorKind::NotCapable
            && m.key == "power.err.noPackageLimit"@
            && m.params.len() == 0
            && m.text == msg::fill("this machine exposes no package power limit, so there is nothing to tune"@, m.params),
        err_watts_positive() matches ErrorView::Localised(kind, m)
            && kind == ErrorKind::InvalidParams
            && m.key == "power.err.wattsPositive"@
            && m.params.len() == 0
            && m.text == msg::fill("power limits must be a positive number of watts"@, m.params),
        err_bad_mode() matches ErrorView::Localised(kind, m)
            && kind == ErrorKind::InvalidParams
            && m.key == "power.err.badMode"@
            && m.params.len() == 0
            && m.text == msg::fill("params.mode must be one of eco, balanced, performance, unlimited"@, m.params),
        err_enabled_bool() matches ErrorView::Localised(kind, m)
            && kind == ErrorKind::InvalidParams
            && m.key == "power.err.enabledBool"@
            && m.params.len() == 0
            && m.text == msg::fill("params.enabled must be a boolean"@, m.params),
        err_watts_number(key) matches ErrorView::Localised(kind, m)
            && kind == ErrorKind::InvalidParams
            && m.key == "power.err.wattsNumber"@
            && m.params.len() == 1
            && m.params[0].0 == "key"@
            && m.text == msg::fill("params.{key} must be a number of watts"@, m.params),
        err_limits_locked(source) matches ErrorView::Localised(kind, m)
            && kind == ErrorKind::NotCapable
            && m.key == "power.err.limitsLocked"@
            && m.params.len() == 1
            && m.params[0].0 == "source"@
            && m.text == msg::fill("the firmware has locked this machine's power limits ({source}); they cannot be changed until it reboots"@, m.params),
        err_turbo_bool() matches ErrorView::Localised(kind, m)
            && kind == ErrorKind::InvalidParams
            && m.key == "power.err.turboBool"@
            && m.params.len() == 0
            && m.text == msg::fill("params.turbo must be a boolean"@, m.params),
        err_limits_crossed(pl1, pl2) matches ErrorView::Localised(kind, m)
            && kind == ErrorKind::InvalidParams
            && m.key == "power.err.limitsCrossed"@
            && m.params.len() == 2
            && m.params[0].0 == "pl1"@
            && m.params[1].0 == "pl2"@
            && m.text == msg::fill("the sustained limit ({pl1} W) cannot be above the boost limit ({pl2} W)"@, m.params),
{
}

/// Limits that would cross are told in whole watts, each under its name, and a lock
/// with where it was found.
pub proof fn law_crossed_limits_are_told_in_watts(pl1: nat, pl2: nat)
    requires
        pl1 <= 1_000_000,
        pl2 <= 1_000_000,
    ensures
        err_limits_crossed((pl1 * 1_000_000) as u64, (pl2 * 1_000_000) as u64)
            matches ErrorView::Localised(_, m) && m.params == seq![
            ("pl1"@, number::decimal(pl1)),
            ("pl2"@, number::decimal(pl2)),
        ],
        err_limits_locked(LockSource::Msr) matches ErrorView::Localised(_, m) && m.params == seq![
            ("source"@, "msr"@),
        ],
        err_limits_locked(LockSource::Sysfs) matches ErrorView::Localised(_, m) && m.params == seq![
            ("source"@, "sysfs"@),
        ],
{
}

} // verus!
