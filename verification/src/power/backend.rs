//! Applying a mode to the machine: which mechanisms it has, what each is told,
//! and what is reported of it.
//!
//! The firmware's own profile is always applied; the operating system's only
//! where the user wants it, and then by asking whichever power manager runs.
use vstd::prelude::*;
use vstd::string::*;

use crate::number;
use crate::power::limits;
use crate::power::mode;
use crate::power::mode::PowerMode;
use crate::power::watch;
use crate::power::watch::Knobs;
use crate::power::watch::KnobsView;
use crate::text;
use crate::text::Class;

verus! {

// --- what the machine offers ---------------------------------------------

/// An attribute's text without the whitespace around it; nothing where that
/// leaves nothing.
pub open spec fn attribute(raw: Option<Seq<char>>) -> Option<Seq<char>> {
    match raw {
        Some(s) => if text::trim(s).len() == 0 {
            None
        } else {
            Some(text::trim(s))
        },
        None => None,
    }
}

fn not_empty(s: String) -> (r: Option<String>)
    ensures
        text::opt_view(r) == (if s@.len() == 0 {
            None
        } else {
            Some(s@)
        }),
{
    if s.as_str().unicode_len() == 0 {
        None
    } else {
        Some(s)
    }
}

pub fn read_trimmed(raw: &Option<String>) -> (r: Option<String>)
    ensures
        text::opt_view(r) == attribute(text::opt_view(*raw)),
{
    match raw {
        Some(s) => not_empty(text::trimmed_str(s.as_str())),
        None => None,
    }
}

/// What was read of the machine: the text of each attribute, and what each
/// power manager answered. Nothing where it did not.
pub struct Readings {
    pub platform_profile: Option<String>,
    pub platform_profile_choices: Option<String>,
    /// The active profile of whatever serves the power-profiles API.
    pub power_profiles: Option<String>,
    /// What `tlp-stat -m` printed.
    pub tlp: Option<String>,
    pub auto_cpufreq: bool,
    pub energy_preference: Option<String>,
    pub governor: Option<String>,
}

/// What the machine offers and what it is set to.
#[derive(Debug, Clone)]
pub struct BackendState {
    pub platform_profile: Option<String>,
    pub platform_profile_choices: Vec<String>,
    pub power_profiles_daemon: Option<String>,
    pub tlp: Option<String>,
    pub auto_cpufreq: bool,
    pub energy_preference: Option<String>,
    pub governor: Option<String>,
    /// The mechanisms that could be used, best first.
    pub available: Vec<String>,
}

#[verifier::ext_equal]
pub struct BackendView {
    pub platform_profile: Option<Seq<char>>,
    pub platform_profile_choices: Seq<Seq<char>>,
    pub power_profiles_daemon: Option<Seq<char>>,
    pub tlp: Option<Seq<char>>,
    pub auto_cpufreq: bool,
    pub energy_preference: Option<Seq<char>>,
    pub governor: Option<Seq<char>>,
    pub available: Seq<Seq<char>>,
}

impl View for BackendState {
    type V = BackendView;

    open spec fn view(&self) -> BackendView {
        BackendView {
            platform_profile: text::opt_view(self.platform_profile),
            platform_profile_choices: text::views(self.platform_profile_choices@),
            power_profiles_daemon: text::opt_view(self.power_profiles_daemon),
            tlp: text::opt_view(self.tlp),
            auto_cpufreq: self.auto_cpufreq,
            energy_preference: text::opt_view(self.energy_preference),
            governor: text::opt_view(self.governor),
            available: text::views(self.available@),
        }
    }
}

/// A mechanism's name where the machine has it.
pub open spec fn listed(name: Seq<char>, there: bool) -> Seq<Seq<char>> {
    if there {
        seq![name]
    } else {
        seq![]
    }
}

pub open spec fn state_of(found: Readings) -> BackendView {
    let platform_profile = attribute(text::opt_view(found.platform_profile));
    let ppd = text::opt_view(found.power_profiles);
    let tlp = if ppd is Some || found.tlp is None {
        None
    } else {
        tlp_profile((found.tlp->0)@)
    };
    let energy_preference = attribute(text::opt_view(found.energy_preference));
    BackendView {
        platform_profile,
        platform_profile_choices: match attribute(text::opt_view(found.platform_profile_choices)) {
            Some(s) => text::words(s),
            None => seq![],
        },
        power_profiles_daemon: ppd,
        tlp,
        auto_cpufreq: found.auto_cpufreq,
        energy_preference,
        governor: attribute(text::opt_view(found.governor)),
        available: listed("platform_profile"@, platform_profile is Some) + listed(
            "power-profiles-daemon"@,
            ppd is Some,
        ) + listed("tlp"@, tlp is Some) + listed("auto-cpufreq"@, found.auto_cpufreq) + listed(
            "energy_performance_preference"@,
            energy_preference is Some,
        ),
    }
}

fn list(out: &mut Vec<String>, name: &str, there: bool)
    ensures
        text::views(final(out)@) == text::views(old(out)@) + listed(name@, there),
{
    proof {
        assert(text::views(out@) + Seq::<Seq<char>>::empty() =~= text::views(out@));
    }
    if there {
        let ghost before = text::views(out@);
        text::push_string(out, String::from_str(name));
        proof {
            assert(text::views(out@) =~= before + seq![name@]);
        }
    }
}

fn word_list(s: &str) -> (r: Vec<String>)
    ensures
        text::views(r@) == text::words(s@),
{
    let words = text::words_of(&text::chars_of(s));
    let n: usize = words.len();
    let mut out: Vec<String> = Vec::new();
    let mut i: usize = 0;
    while i < n
        invariant
            n == words@.len(),
            i <= n,
            text::views(out@) == text::rows(words@).take(i as int),
        decreases n - i,
    {
        text::push_string(&mut out, text::string_of(&words[i]));
        i = i + 1;
        proof {
            assert(text::views(out@) =~= text::rows(words@).take(i as int));
        }
    }
    proof {
        assert(text::rows(words@).take(n as int) =~= text::rows(words@));
    }
    out
}

/// What the machine offers, by what was read of it. A power manager behind the
/// power-profiles API is not asked a second time.
pub fn read_state(found: Readings) -> (r: BackendState)
    ensures
        r@ == state_of(found),
{
    let platform_profile = read_trimmed(&found.platform_profile);
    let platform_profile_choices = match read_trimmed(&found.platform_profile_choices) {
        Some(s) => word_list(s.as_str()),
        None => Vec::new(),
    };
    proof {
        assert(found.platform_profile_choices is None ==> text::views(platform_profile_choices@)
            =~= seq![]);
        assert(text::views(platform_profile_choices@) =~= (match attribute(
            text::opt_view(found.platform_profile_choices),
        ) {
            Some(s) => text::words(s),
            None => seq![],
        }));
    }
    let tlp = if found.power_profiles.is_some() {
        None
    } else {
        match &found.tlp {
            Some(out) => parse_tlp_mode(out.as_str()),
            None => None,
        }
    };
    let energy_preference = read_trimmed(&found.energy_preference);
    let mut available: Vec<String> = Vec::new();
    proof {
        assert(text::views(available@) =~= seq![]);
    }
    list(&mut available, "platform_profile", platform_profile.is_some());
    list(&mut available, "power-profiles-daemon", found.power_profiles.is_some());
    list(&mut available, "tlp", tlp.is_some());
    list(&mut available, "auto-cpufreq", found.auto_cpufreq);
    list(&mut available, "energy_performance_preference", energy_preference.is_some());
    proof {
        assert(text::views(available@) =~= state_of(found).available);
    }
    BackendState {
        platform_profile,
        platform_profile_choices,
        power_profiles_daemon: found.power_profiles,
        tlp,
        auto_cpufreq: found.auto_cpufreq,
        energy_preference,
        governor: read_trimmed(&found.governor),
        available,
    }
}

/// The mode the machine is in, from whichever mechanism tells.
pub open spec fn mode_found(state: BackendView) -> Option<PowerMode> {
    match state.platform_profile {
        Some(name) => mode::profile_mode(name),
        None => match state.power_profiles_daemon {
            Some(name) => mode::profile_mode(name),
            None => match state.tlp {
                Some(name) => mode::profile_mode(name),
                None => None,
            },
        },
    }
}

pub fn current_mode(state: &BackendState) -> (r: Option<PowerMode>)
    ensures
        r == mode_found(state@),
{
    match &state.platform_profile {
        Some(name) => {
            return mode::mode_for_profile(name.as_str());
        },
        None => {},
    }
    match &state.power_profiles_daemon {
        Some(name) => {
            return mode::mode_for_profile(name.as_str());
        },
        None => {},
    }
    match &state.tlp {
        Some(name) => mode::mode_for_profile(name.as_str()),
        None => None,
    }
}

// --- what each mechanism is told -----------------------------------------

/// The firmware profiles that serve a mode, best first.
pub open spec fn profile_names(m: PowerMode) -> Seq<Seq<char>> {
    match m {
        PowerMode::Eco => seq!["low-power"@, "quiet"@, "cool"@, "balanced"@],
        PowerMode::Balanced => seq!["balanced"@, "balanced-performance"@, "quiet"@],
        PowerMode::Performance => seq!["balanced-performance"@, "performance"@, "balanced"@],
        PowerMode::Unlimited => seq!["performance"@, "balanced-performance"@],
    }
}

/// The first of the names that is offered.
pub open spec fn first_offered(names: Seq<Seq<char>>, choices: Seq<Seq<char>>) -> Option<Seq<char>>
    decreases names.len(),
{
    if names.len() == 0 {
        None
    } else if choices.contains(names[0]) {
        Some(names[0])
    } else {
        first_offered(names.skip(1), choices)
    }
}

fn preferred_names(m: PowerMode) -> (r: Vec<String>)
    ensures
        text::views(r@) == profile_names(m),
{
    match m {
        PowerMode::Eco => text::list_four(
            String::from_str("low-power"),
            String::from_str("quiet"),
            String::from_str("cool"),
            String::from_str("balanced"),
        ),
        PowerMode::Balanced => text::list_three(
            String::from_str("balanced"),
            String::from_str("balanced-performance"),
            String::from_str("quiet"),
        ),
        PowerMode::Performance => text::list_three(
            String::from_str("balanced-performance"),
            String::from_str("performance"),
            String::from_str("balanced"),
        ),
        PowerMode::Unlimited => text::list_two(
            String::from_str("performance"),
            String::from_str("balanced-performance"),
        ),
    }
}

/// The firmware profile of a mode, among those the firmware offers.
pub fn pick_platform_profile(m: PowerMode, choices: &Vec<String>) -> (r: Option<String>)
    ensures
        text::opt_view(r) == first_offered(profile_names(m), text::views(choices@)),
{
    let names = preferred_names(m);
    let n: usize = names.len();
    let ghost all = text::views(names@);
    let mut i: usize = 0;
    proof {
        assert(all.skip(0) =~= all);
    }
    while i < n
        invariant
            n == names@.len(),
            i <= n,
            all == text::views(names@),
            all == profile_names(m),
            first_offered(all, text::views(choices@)) == first_offered(
                all.skip(i as int),
                text::views(choices@),
            ),
        decreases n - i,
    {
        proof {
            assert(all.skip(i as int)[0] == names@[i as int]@);
            assert(all.skip(i as int).skip(1) =~= all.skip(i + 1));
        }
        if text::list_has(choices, names[i].as_str()) {
            return Some(names[i].clone());
        }
        i = i + 1;
    }
    None
}

pub open spec fn manager_profile(m: PowerMode) -> Seq<char> {
    match m {
        PowerMode::Eco => "power-saver"@,
        PowerMode::Balanced => "balanced"@,
        PowerMode::Performance => "performance"@,
        PowerMode::Unlimited => "performance"@,
    }
}

fn power_profiles_daemon_name(m: PowerMode) -> (r: &'static str)
    ensures
        r@ == manager_profile(m),
{
    match m {
        PowerMode::Eco => "power-saver",
        PowerMode::Balanced => "balanced",
        PowerMode::Performance => "performance",
        PowerMode::Unlimited => "performance",
    }
}

pub open spec fn hint_of(m: PowerMode) -> Seq<char> {
    match m {
        PowerMode::Eco => "power"@,
        PowerMode::Balanced => "balance_performance"@,
        PowerMode::Performance => "performance"@,
        PowerMode::Unlimited => "performance"@,
    }
}

fn energy_preference_name(m: PowerMode) -> (r: &'static str)
    ensures
        r@ == hint_of(m),
{
    match m {
        PowerMode::Eco => "power",
        PowerMode::Balanced => "balance_performance",
        PowerMode::Performance => "performance",
        PowerMode::Unlimited => "performance",
    }
}

/// Balanced hands the choice back to auto-cpufreq's own judgement.
pub open spec fn forced(m: PowerMode) -> Seq<char> {
    match m {
        PowerMode::Eco => "powersave"@,
        PowerMode::Balanced => "reset"@,
        PowerMode::Performance => "performance"@,
        PowerMode::Unlimited => "performance"@,
    }
}

fn auto_cpufreq_name(m: PowerMode) -> (r: &'static str)
    ensures
        r@ == forced(m),
{
    match m {
        PowerMode::Eco => "powersave",
        PowerMode::Balanced => "reset",
        PowerMode::Performance => "performance",
        PowerMode::Unlimited => "performance",
    }
}

/// One mechanism, and what a mode says to it.
#[derive(Debug, Clone, PartialEq, Eq)]
pub enum Step {
    /// The laptop's own profile.
    PlatformProfile(String),
    /// Whatever serves the power-profiles API.
    PowerProfilesDaemon(&'static str),
    Tlp(&'static str),
    AutoCpufreq(&'static str),
    /// The CPU's hint, only where no power manager runs.
    EnergyPreference(&'static str),
}

#[verifier::ext_equal]
pub enum StepView {
    PlatformProfile(Seq<char>),
    PowerProfilesDaemon(Seq<char>),
    Tlp(Seq<char>),
    AutoCpufreq(Seq<char>),
    EnergyPreference(Seq<char>),
}

impl View for Step {
    type V = StepView;

    open spec fn view(&self) -> StepView {
        match self {
            Step::PlatformProfile(s) => StepView::PlatformProfile(s@),
            Step::PowerProfilesDaemon(s) => StepView::PowerProfilesDaemon(s@),
            Step::Tlp(s) => StepView::Tlp(s@),
            Step::AutoCpufreq(s) => StepView::AutoCpufreq(s@),
            Step::EnergyPreference(s) => StepView::EnergyPreference(s@),
        }
    }
}

pub open spec fn step_views(v: Seq<Step>) -> Seq<StepView> {
    Seq::new(v.len(), |i: int| v[i]@)
}

/// What the power managers are told.
pub open spec fn manager_steps(state: BackendView, m: PowerMode) -> Seq<StepView> {
    (if state.power_profiles_daemon is Some {
        seq![StepView::PowerProfilesDaemon(manager_profile(m))]
    } else if state.tlp is Some {
        seq![StepView::Tlp(manager_profile(m))]
    } else {
        seq![]
    }) + (if state.auto_cpufreq {
        seq![StepView::AutoCpufreq(forced(m))]
    } else {
        seq![]
    })
}

/// The operating system's half: the power managers, or the CPU's hint where
/// there is none.
pub open spec fn os_steps(state: BackendView, m: PowerMode) -> Seq<StepView> {
    if manager_steps(state, m).len() == 0 && state.energy_preference is Some {
        seq![StepView::EnergyPreference(hint_of(m))]
    } else {
        manager_steps(state, m)
    }
}

/// The firmware's half.
pub open spec fn firmware_steps(state: BackendView, m: PowerMode) -> Seq<StepView> {
    match first_offered(profile_names(m), state.platform_profile_choices) {
        Some(name) => seq![StepView::PlatformProfile(name)],
        None => seq![],
    }
}

/// What applying a mode does. The firmware's half comes last: a power manager
/// may write the firmware profile too, and this write is to be the final one.
pub open spec fn planned(state: BackendView, m: PowerMode, os_profile: bool) -> Seq<StepView> {
    (if os_profile {
        os_steps(state, m)
    } else {
        seq![]
    }) + firmware_steps(state, m)
}

pub open spec fn unplanned(state: BackendView, m: PowerMode) -> Seq<Seq<char>> {
    if state.platform_profile_choices.len() > 0 && first_offered(
        profile_names(m),
        state.platform_profile_choices,
    ) is None {
        seq!["platform_profile: no choice matches this mode"@]
    } else {
        seq![]
    }
}

fn add_step(steps: &mut Vec<Step>, step: Step)
    ensures
        step_views(final(steps)@) == step_views(old(steps)@).push(step@),
{
    let ghost before = steps@;
    let ghost seen = step@;
    steps.push(step);
    proof {
        assert(step_views(steps@) =~= step_views(before).push(seen));
    }
}

proof fn lemma_nothing_offered(names: Seq<Seq<char>>, choices: Seq<Seq<char>>)
    requires
        choices.len() == 0,
    ensures
        first_offered(names, choices) is None,
    decreases names.len(),
{
    if names.len() > 0 {
        lemma_nothing_offered(names.skip(1), choices);
    }
}

/// What applying a mode to this machine would do, and what it cannot do.
pub fn plan(state: &BackendState, m: PowerMode, os_profile: bool) -> (r: (Vec<Step>, Vec<String>))
    ensures
        step_views(r.0@) == planned(state@, m, os_profile),
        text::views(r.1@) == unplanned(state@, m),
{
    let mut steps: Vec<Step> = Vec::new();
    let mut problems: Vec<String> = Vec::new();
    proof {
        assert(step_views(steps@) =~= seq![]);
        assert(text::views(problems@) =~= seq![]);
    }
    if os_profile {
        if state.power_profiles_daemon.is_some() {
            add_step(&mut steps, Step::PowerProfilesDaemon(power_profiles_daemon_name(m)));
        } else if state.tlp.is_some() {
            add_step(&mut steps, Step::Tlp(power_profiles_daemon_name(m)));
        }
        if state.auto_cpufreq {
            add_step(&mut steps, Step::AutoCpufreq(auto_cpufreq_name(m)));
        }
        proof {
            assert(step_views(steps@) =~= manager_steps(state@, m));
        }
        if steps.len() == 0 && state.energy_preference.is_some() {
            add_step(&mut steps, Step::EnergyPreference(energy_preference_name(m)));
        }
        proof {
            assert(step_views(steps@) =~= os_steps(state@, m));
        }
    }
    let ghost before = step_views(steps@);
    if state.platform_profile_choices.len() > 0 {
        match pick_platform_profile(m, &state.platform_profile_choices) {
            Some(profile) => {
                add_step(&mut steps, Step::PlatformProfile(profile));
            },
            None => {
                text::push_string(
                    &mut problems,
                    String::from_str("platform_profile: no choice matches this mode"),
                );
            },
        }
    } else {
        proof {
            lemma_nothing_offered(profile_names(m), state@.platform_profile_choices);
        }
    }
    proof {
        assert(step_views(steps@) =~= before + firmware_steps(state@, m));
        assert(step_views(steps@) =~= planned(state@, m, os_profile));
        assert(text::views(problems@) =~= unplanned(state@, m));
    }
    (steps, problems)
}

pub open spec fn released(state: BackendView) -> Option<StepView> {
    if state.auto_cpufreq {
        Some(StepView::AutoCpufreq("reset"@))
    } else {
        None
    }
}

/// What gives auto-cpufreq its own judgement back, where it runs.
pub fn release_auto_cpufreq(state: &BackendState) -> (r: Option<Step>)
    ensures
        (match r {
            Some(step) => Some(step@),
            None => None,
        }) == released(state@),
{
    if state.auto_cpufreq {
        Some(Step::AutoCpufreq("reset"))
    } else {
        None
    }
}

// --- what is reported ----------------------------------------------------

/// What applying a mode changed.
pub struct ApplyReport {
    pub applied: Vec<String>,
    pub failed: Vec<String>,
    /// What the knobs read right afterwards, for those that are watched.
    pub expected: Knobs,
    /// The firmware refused the mode and the rest was put back.
    pub rolled_back: bool,
}

#[verifier::ext_equal]
pub struct ReportView {
    pub applied: Seq<Seq<char>>,
    pub failed: Seq<Seq<char>>,
    pub expected: KnobsView,
    pub rolled_back: bool,
}

impl View for ApplyReport {
    type V = ReportView;

    open spec fn view(&self) -> ReportView {
        ReportView {
            applied: text::views(self.applied@),
            failed: text::views(self.failed@),
            expected: self.expected@,
            rolled_back: self.rolled_back,
        }
    }
}

impl ReportView {
    /// Nothing at all was changed.
    pub open spec fn empty(self) -> bool {
        self.applied.len() == 0
    }
}

impl ApplyReport {
    pub fn is_empty(&self) -> (r: bool)
        ensures
            r == self@.empty(),
    {
        self.applied.len() == 0
    }
}

/// What telling a mechanism came to: how many CPUs took it, where it is told to
/// each, or why it failed; and the CPU's hint as it reads afterwards.
pub struct StepOutcome {
    pub result: Result<usize, String>,
    pub hint: Option<String>,
}

#[verifier::ext_equal]
pub struct OutcomeView {
    pub result: Result<usize, Seq<char>>,
    pub hint: Option<Seq<char>>,
}

impl View for StepOutcome {
    type V = OutcomeView;

    open spec fn view(&self) -> OutcomeView {
        OutcomeView {
            result: match self.result {
                Ok(count) => Ok(count),
                Err(e) => Err(e@),
            },
            hint: text::opt_view(self.hint),
        }
    }
}

pub open spec fn outcome_views(v: Seq<StepOutcome>) -> Seq<OutcomeView> {
    Seq::new(v.len(), |i: int| v[i]@)
}

pub open spec fn mechanism(step: StepView) -> Seq<char> {
    match step {
        StepView::PlatformProfile(_) => "platform_profile"@,
        StepView::PowerProfilesDaemon(_) => "power-profiles-daemon"@,
        StepView::Tlp(_) => "tlp"@,
        StepView::AutoCpufreq(_) => "auto-cpufreq"@,
        StepView::EnergyPreference(_) => "energy_performance_preference"@,
    }
}

pub open spec fn told(step: StepView) -> Seq<char> {
    match step {
        StepView::PlatformProfile(s) => s,
        StepView::PowerProfilesDaemon(s) => s,
        StepView::Tlp(s) => s,
        StepView::AutoCpufreq(s) => s,
        StepView::EnergyPreference(s) => s,
    }
}

/// What is reported of a step.
pub open spec fn step_said(step: StepView, result: Result<usize, Seq<char>>) -> Result<
    Seq<char>,
    Seq<char>,
> {
    match result {
        Err(e) => Err(mechanism(step) + ": "@ + e),
        Ok(count) => Ok(
            if step is EnergyPreference {
                mechanism(step) + "="@ + told(step) + " ("@ + number::decimal(count as nat)
                    + " cpus)"@
            } else {
                mechanism(step) + "="@ + told(step)
            },
        ),
    }
}

/// The report of steps that were told one after the other.
pub open spec fn reported(
    steps: Seq<StepView>,
    problems: Seq<Seq<char>>,
    outcomes: Seq<OutcomeView>,
) -> ReportView
    decreases steps.len(),
{
    if steps.len() == 0 {
        ReportView {
            applied: seq![],
            failed: problems,
            expected: watch::no_knobs(),
            rolled_back: false,
        }
    } else {
        let before = reported(steps.drop_last(), problems, outcomes.drop_last());
        let outcome = outcomes.last();
        match step_said(steps.last(), outcome.result) {
            Ok(line) => ReportView {
                applied: before.applied.push(line),
                expected: if steps.last() is EnergyPreference {
                    KnobsView { energy_preference: outcome.hint, ..before.expected }
                } else {
                    before.expected
                },
                ..before
            },
            Err(line) => ReportView { failed: before.failed.push(line), ..before },
        }
    }
}

fn describe(step: &Step, result: &Result<usize, String>) -> (r: Result<String, String>)
    ensures
        limits::lines_view(r) == step_said(
            step@,
            match *result {
                Ok(count) => Ok(count),
                Err(e) => Err(e@),
            },
        ),
{
    let (name, value) = match step {
        Step::PlatformProfile(s) => (String::from_str("platform_profile"), s.clone()),
        Step::PowerProfilesDaemon(s) => (
            String::from_str("power-profiles-daemon"),
            String::from_str(s),
        ),
        Step::Tlp(s) => (String::from_str("tlp"), String::from_str(s)),
        Step::AutoCpufreq(s) => (String::from_str("auto-cpufreq"), String::from_str(s)),
        Step::EnergyPreference(s) => (
            String::from_str("energy_performance_preference"),
            String::from_str(s),
        ),
    };
    match result {
        Err(e) => Err(name.concat(": ").concat(e.as_str())),
        Ok(count) => {
            let line = name.concat("=").concat(value.as_str());
            match step {
                Step::EnergyPreference(_) => {
                    let cpus = number::show(*count as u64);
                    Ok(line.concat(" (").concat(cpus.as_str()).concat(" cpus)"))
                },
                _ => Ok(line),
            }
        },
    }
}

pub open spec fn report_of(
    steps: Seq<StepView>,
    problems: Seq<Seq<char>>,
    outcomes: Seq<OutcomeView>,
    profile_after: Option<Seq<char>>,
) -> ReportView {
    ReportView {
        expected: KnobsView {
            platform_profile: profile_after,
            ..reported(steps, problems, outcomes).expected
        },
        ..reported(steps, problems, outcomes)
    }
}

/// The report of a mode that was applied: what each step came to, and the
/// firmware profile as it reads afterwards, whoever wrote it.
pub fn apply(
    steps: &Vec<Step>,
    problems: Vec<String>,
    outcomes: &Vec<StepOutcome>,
    profile_after: Option<String>,
) -> (r: ApplyReport)
    requires
        outcomes@.len() == steps@.len(),
    ensures
        r@ == report_of(
            step_views(steps@),
            text::views(problems@),
            outcome_views(outcomes@),
            text::opt_view(profile_after),
        ),
{
    let n: usize = steps.len();
    let ghost all = step_views(steps@);
    let ghost seen = outcome_views(outcomes@);
    let ghost given = text::views(problems@);
    let mut applied: Vec<String> = Vec::new();
    let mut failed = problems;
    let mut expected = Knobs::default();
    let mut i: usize = 0;
    proof {
        assert(all.take(0) =~= seq![]);
        assert(text::views(applied@) =~= seq![]);
    }
    while i < n
        invariant
            n == steps@.len(),
            n == outcomes@.len(),
            i <= n,
            all == step_views(steps@),
            seen == outcome_views(outcomes@),
            text::views(applied@) == reported(
                all.take(i as int),
                given,
                seen.take(i as int),
            ).applied,
            text::views(failed@) == reported(all.take(i as int), given, seen.take(i as int)).failed,
            expected@ == reported(all.take(i as int), given, seen.take(i as int)).expected,
            !reported(all.take(i as int), given, seen.take(i as int)).rolled_back,
        decreases n - i,
    {
        proof {
            assert(all.take(i + 1).drop_last() =~= all.take(i as int));
            assert(all.take(i + 1).last() == steps@[i as int]@);
            assert(seen.take(i + 1).drop_last() =~= seen.take(i as int));
            assert(seen.take(i + 1).last() == outcomes@[i as int]@);
        }
        match describe(&steps[i], &outcomes[i].result) {
            Ok(line) => {
                match &steps[i] {
                    Step::EnergyPreference(_) => {
                        expected.energy_preference = watch::copy_text(&outcomes[i].hint);
                    },
                    _ => {},
                }
                text::push_string(&mut applied, line);
            },
            Err(line) => {
                text::push_string(&mut failed, line);
            },
        }
        i = i + 1;
    }
    proof {
        assert(all.take(n as int) =~= all);
        assert(seen.take(n as int) =~= seen);
    }
    expected.platform_profile = profile_after;
    ApplyReport { applied, failed, expected, rolled_back: false }
}

// --- asking a power manager ----------------------------------------------

pub const PROPERTIES: &'static str = "org.freedesktop.DBus.Properties";

/// The two names the power-profiles API answers to, newest first.
pub open spec fn api_name(api: int) -> Seq<char> {
    if api == 0 {
        "org.freedesktop.UPower.PowerProfiles"@
    } else {
        "net.hadess.PowerProfiles"@
    }
}

pub open spec fn api_path(api: int) -> Seq<char> {
    if api == 0 {
        "/org/freedesktop/UPower/PowerProfiles"@
    } else {
        "/net/hadess/PowerProfiles"@
    }
}

fn api_name_of(api: usize) -> (r: String)
    ensures
        r@ == api_name(api as int),
{
    if api == 0 {
        String::from_str("org.freedesktop.UPower.PowerProfiles")
    } else {
        String::from_str("net.hadess.PowerProfiles")
    }
}

fn api_path_of(api: usize) -> (r: String)
    ensures
        r@ == api_path(api as int),
{
    if api == 0 {
        String::from_str("/org/freedesktop/UPower/PowerProfiles")
    } else {
        String::from_str("/net/hadess/PowerProfiles")
    }
}

/// A call on the system bus, which must never start the one it asks.
pub open spec fn bus_call(api: int, method: Seq<char>, signature: Seq<char>) -> Seq<Seq<char>> {
    seq![
        "--system"@,
        "--auto-start=no"@,
        "call"@,
        api_name(api),
        api_path(api),
        PROPERTIES@,
        method,
        signature,
        api_name(api),
        "ActiveProfile"@,
    ]
}

fn bus_args(api: usize, method: &str, signature: &str) -> (r: Vec<String>)
    ensures
        text::views(r@) == bus_call(api as int, method@, signature@),
{
    let mut args = text::list_six(
        String::from_str("--system"),
        String::from_str("--auto-start=no"),
        String::from_str("call"),
        api_name_of(api),
        api_path_of(api),
        String::from_str(PROPERTIES),
    );
    text::push_string(&mut args, String::from_str(method));
    text::push_string(&mut args, String::from_str(signature));
    text::push_string(&mut args, api_name_of(api));
    text::push_string(&mut args, String::from_str("ActiveProfile"));
    proof {
        assert(text::views(args@) =~= bus_call(api as int, method@, signature@));
    }
    args
}

pub open spec fn get_call(api: int) -> Seq<Seq<char>> {
    bus_call(api, "Get"@, "ss"@)
}

pub open spec fn set_call(api: int, profile: Seq<char>) -> Seq<Seq<char>> {
    bus_call(api, "Set"@, "ssv"@) + seq!["s"@, profile]
}

/// What `busctl` is given to read the active profile.
pub fn get_profile_args(api: usize) -> (r: Vec<String>)
    ensures
        text::views(r@) == get_call(api as int),
{
    bus_args(api, "Get", "ss")
}

/// What `busctl` is given to ask for a profile.
pub fn set_profile_args(api: usize, profile: &str) -> (r: Vec<String>)
    ensures
        text::views(r@) == set_call(api as int, profile@),
{
    let mut args = bus_args(api, "Set", "ssv");
    let ghost before = text::views(args@);
    text::push_string(&mut args, String::from_str("s"));
    text::push_string(&mut args, String::from_str(profile));
    proof {
        assert(text::views(args@) =~= before + seq!["s"@, profile@]);
    }
    args
}

/// The string of `v s "balanced"`, the bus tool's way of showing one.
pub open spec fn variant_string(output: Seq<char>) -> Option<Seq<char>> {
    let line = text::trim(output);
    if !text::starts_with(line, "v s "@) {
        None
    } else {
        let value = text::trim_class(text::trim(line.skip(4)), Class::Is('"'));
        if value.len() == 0 {
            None
        } else {
            Some(value)
        }
    }
}

pub fn parse_variant_string(output: &str) -> (r: Option<String>)
    ensures
        text::opt_view(r) == variant_string(output@),
{
    let line = text::trimmed(&text::chars_of(output));
    let prefix = text::chars_of("v s ");
    if !text::is_at(&line, &prefix, 0) {
        return None;
    }
    proof {
        reveal_strlit("v s ");
        assert("v s "@.len() == 4);
    }
    let n: usize = line.len();
    let rest = text::slice(&line, 4, n);
    proof {
        assert(line@.subrange(4, n as int) =~= line@.skip(4));
    }
    let value = text::trimmed_class(&text::trimmed(&rest), Class::Is('"'));
    if value.len() == 0 {
        None
    } else {
        Some(text::string_of(&value))
    }
}

/// What a bus call came to.
pub enum BusReply {
    /// There is no bus tool.
    NotInstalled,
    /// It could not be run.
    Broken,
    /// Nobody owns the name, or the call failed.
    Refused,
    Said(String),
}

/// How the power-profiles API is reached.
#[derive(Debug, Clone, PartialEq, Eq)]
pub enum Search {
    /// Ask at this name.
    Ask(usize),
    /// Through its own tool, and only where there is no bus tool.
    Cli,
    Absent,
    /// At this name, with this profile active.
    Found(usize, String),
}

#[verifier::ext_equal]
pub enum SearchView {
    Ask(int),
    Cli,
    Absent,
    Found(int, Seq<char>),
}

impl View for Search {
    type V = SearchView;

    open spec fn view(&self) -> SearchView {
        match self {
            Search::Ask(api) => SearchView::Ask(*api as int),
            Search::Cli => SearchView::Cli,
            Search::Absent => SearchView::Absent,
            Search::Found(api, profile) => SearchView::Found(*api as int, profile@),
        }
    }
}

/// Where the search stands after the replies of the names asked so far.
pub open spec fn searched(replies: Seq<BusReply>, from: int) -> SearchView
    decreases 2 - from,
{
    if from >= 2 {
        SearchView::Absent
    } else if from >= replies.len() {
        SearchView::Ask(from)
    } else {
        match replies[from] {
            BusReply::NotInstalled => SearchView::Cli,
            BusReply::Broken => SearchView::Absent,
            BusReply::Refused => searched(replies, from + 1),
            BusReply::Said(out) => match variant_string(out@) {
                Some(profile) => SearchView::Found(from, profile),
                None => searched(replies, from + 1),
            },
        }
    }
}

/// Finds whatever serves the power-profiles API, without starting it.
pub fn find_power_profiles(replies: &Vec<BusReply>) -> (r: Search)
    ensures
        r@ == searched(replies@, 0),
{
    let n: usize = replies.len();
    let mut i: usize = 0;
    while i < 2
        invariant
            n == replies@.len(),
            i <= 2,
            searched(replies@, 0) == searched(replies@, i as int),
        decreases 2 - i,
    {
        if i >= n {
            return Search::Ask(i);
        }
        match &replies[i] {
            BusReply::NotInstalled => {
                return Search::Cli;
            },
            BusReply::Broken => {
                return Search::Absent;
            },
            BusReply::Refused => {},
            BusReply::Said(out) => {
                match parse_variant_string(out.as_str()) {
                    Some(profile) => {
                        return Search::Found(i, profile);
                    },
                    None => {},
                }
            },
        }
        i = i + 1;
    }
    Search::Absent
}

pub open spec fn output_of(success: bool, stdout: Seq<char>) -> Option<Seq<char>> {
    if success {
        attribute(Some(stdout))
    } else {
        None
    }
}

/// What a tool printed, where it succeeded and printed anything.
pub fn printed(success: bool, stdout: String) -> (r: Option<String>)
    ensures
        text::opt_view(r) == output_of(success, stdout@),
{
    if success {
        read_trimmed(&Some(stdout))
    } else {
        None
    }
}

/// The profile of `balanced/BAT (manual)`: only the three that can be asked
/// for.
pub open spec fn tlp_profile(output: Seq<char>) -> Option<Seq<char>> {
    let words = text::words(output);
    if words.len() == 0 {
        None
    } else {
        let profile = text::split(words[0], Class::Is('/'))[0];
        if profile == "performance"@ || profile == "balanced"@ || profile == "power-saver"@ {
            Some(profile)
        } else {
            None
        }
    }
}

pub fn parse_tlp_mode(output: &str) -> (r: Option<String>)
    ensures
        text::opt_view(r) == tlp_profile(output@),
{
    let words = text::words_of(&text::chars_of(output));
    proof {
        assert(text::rows(words@).len() == words@.len());
    }
    if words.len() == 0 {
        return None;
    }
    proof {
        assert(text::rows(words@)[0] == words@[0]@);
    }
    let parts = text::split_at(&words[0], Class::Is('/'));
    proof {
        assert(text::rows(parts@)[0] == parts@[0]@);
    }
    let profile = text::string_of(&parts[0]);
    if text::same(profile.as_str(), "performance") || text::same(profile.as_str(), "balanced")
        || text::same(profile.as_str(), "power-saver") {
        Some(profile)
    } else {
        None
    }
}

pub open spec fn governor_after(force: Seq<char>) -> Seq<char> {
    if force == "reset"@ {
        "default"@
    } else {
        force
    }
}

/// What auto-cpufreq reports once it was told so.
pub fn forced_state(force: &str) -> (r: String)
    ensures
        r@ == governor_after(force@),
{
    if text::same(force, "reset") {
        String::from_str("default")
    } else {
        String::from_str(force)
    }
}

pub fn force_arg(force: &str) -> (r: String)
    ensures
        r@ == "--force="@ + force@,
{
    String::from_str("--force=").concat(force)
}

/// A command's failure in its own words.
pub open spec fn failure(stderr: Seq<char>, stdout: Seq<char>, status: Seq<char>) -> Seq<char> {
    match attribute(Some(stderr)) {
        Some(s) => s,
        None => match attribute(Some(stdout)) {
            Some(s) => s,
            None => "exited with "@ + status,
        },
    }
}

pub open spec fn outcome_of(
    success: bool,
    stderr: Seq<char>,
    stdout: Seq<char>,
    status: Seq<char>,
) -> Result<(), Seq<char>> {
    if success {
        Ok(())
    } else {
        Err(failure(stderr, stdout, status))
    }
}

pub fn succeeded(success: bool, stderr: String, stdout: String, status: &str) -> (r: Result<
    (),
    String,
>)
    ensures
        limits::done_view(r) == outcome_of(success, stderr@, stdout@, status@),
{
    if success {
        return Ok(());
    }
    match read_trimmed(&Some(stderr)) {
        Some(s) => {
            return Err(s);
        },
        None => {},
    }
    match read_trimmed(&Some(stdout)) {
        Some(s) => Err(s),
        None => Err(String::from_str("exited with ").concat(status)),
    }
}

/// How often a power manager is asked to land on a profile.
pub const OS_PROFILE_ATTEMPTS: usize = 2;

/// How long it is given before it is asked again, in milliseconds.
pub const OS_PROFILE_PAUSE_MS: u64 = 200;

/// One attempt: what asking came to, and what was seen afterwards.
pub struct Try {
    pub request: Result<(), String>,
    pub seen: Option<String>,
}

/// Whether a power manager is to be asked (again), or what it came to.
pub enum Confirmation {
    Ask,
    Settled(Result<(), String>),
}

#[verifier::ext_equal]
pub enum ConfirmationView {
    Ask,
    Settled(Result<(), Seq<char>>),
}

impl View for Confirmation {
    type V = ConfirmationView;

    open spec fn view(&self) -> ConfirmationView {
        match self {
            Confirmation::Ask => ConfirmationView::Ask,
            Confirmation::Settled(r) => ConfirmationView::Settled(limits::done_view(*r)),
        }
    }
}

pub open spec fn gave_up(who: Seq<char>, wanted: Seq<char>, seen: Option<Seq<char>>) -> Seq<char> {
    match seen {
        Some(s) => "asked for "@ + wanted + ", "@ + who + " settled on "@ + s + " (tried "@
            + number::decimal(2) + " times)"@,
        None => "asked for "@ + wanted + ", "@ + who + " did not answer afterwards (tried "@
            + number::decimal(2) + " times)"@,
    }
}

/// Where the attempts have led, from the one numbered `from`.
pub open spec fn confirmed(
    who: Seq<char>,
    wanted: Seq<char>,
    tries: Seq<Try>,
    from: int,
) -> ConfirmationView
    decreases 2 - from,
{
    if from >= 2 {
        ConfirmationView::Settled(Err(gave_up(who, wanted, text::opt_view(tries[1].seen))))
    } else if from >= tries.len() {
        ConfirmationView::Ask
    } else {
        match tries[from].request {
            Err(e) => ConfirmationView::Settled(Err(e@)),
            Ok(()) => if text::opt_view(tries[from].seen) == Some(wanted) {
                ConfirmationView::Settled(Ok(()))
            } else {
                confirmed(who, wanted, tries, from + 1)
            },
        }
    }
}

/// Asks a power manager for a profile, going by what it is seen to have landed
/// on, and asking once more before giving up.
pub fn set_and_confirm(who: &str, wanted: &str, tries: &Vec<Try>) -> (r: Confirmation)
    ensures
        r@ == confirmed(who@, wanted@, tries@, 0),
{
    let n: usize = tries.len();
    let mut i: usize = 0;
    while i < 2
        invariant
            n == tries@.len(),
            i <= 2,
            i <= n,
            confirmed(who@, wanted@, tries@, 0) == confirmed(who@, wanted@, tries@, i as int),
        decreases 2 - i,
    {
        if i >= n {
            return Confirmation::Ask;
        }
        match &tries[i].request {
            Err(e) => {
                return Confirmation::Settled(Err(e.clone()));
            },
            Ok(()) => {},
        }
        let there = match &tries[i].seen {
            Some(s) => text::same(s.as_str(), wanted),
            None => false,
        };
        if there {
            return Confirmation::Settled(Ok(()));
        }
        i = i + 1;
    }
    let asked = String::from_str("asked for ").concat(wanted).concat(", ").concat(who);
    let times = number::show(OS_PROFILE_ATTEMPTS as u64);
    let said = match &tries[1].seen {
        Some(s) => asked.concat(" settled on ").concat(s.as_str()).concat(" (tried "),
        None => asked.concat(" did not answer afterwards (tried "),
    };
    Confirmation::Settled(Err(said.concat(times.as_str()).concat(" times)")))
}

/// The power-profiles service went away between two looks.
pub fn service_gone() -> (r: String)
    ensures
        r@ == "the power-profiles service is no longer running"@,
{
    String::from_str("the power-profiles service is no longer running")
}

// --- the CPUs ------------------------------------------------------------

/// A CPU's own directory: `cpu` and a number.
pub open spec fn cpu_named(name: Seq<char>) -> bool {
    text::starts_with(name, "cpu"@) && forall|i: int|
        3 <= i < name.len() ==> text::is_digit(#[trigger] name[i])
}

pub fn is_cpu_name(name: &str) -> (r: bool)
    ensures
        r == cpu_named(name@),
{
    let chars = text::chars_of(name);
    if !text::is_at(&chars, &text::chars_of("cpu"), 0) {
        return false;
    }
    let n: usize = chars.len();
    let mut i: usize = 3;
    while i < n
        invariant
            n == chars@.len(),
            chars@ == name@,
            3 <= i,
            forall|k: int| 3 <= k < i && k < n ==> text::is_digit(#[trigger] chars@[k]),
        decreases n - i,
    {
        if !text::digit(chars[i]) {
            return false;
        }
        i = i + 1;
    }
    true
}

/// How many of the writes were taken.
pub open spec fn taken(writes: Seq<Result<(), String>>) -> nat
    decreases writes.len(),
{
    if writes.len() == 0 {
        0
    } else {
        taken(writes.drop_last()) + (if writes.last() is Ok {
            1nat
        } else {
            0nat
        })
    }
}

/// The last of the failures.
pub open spec fn last_error(writes: Seq<Result<(), String>>) -> Option<Seq<char>>
    decreases writes.len(),
{
    if writes.len() == 0 {
        None
    } else {
        match writes.last() {
            Ok(()) => last_error(writes.drop_last()),
            Err(e) => Some(e@),
        }
    }
}

pub open spec fn all_cpus_said(writes: Seq<Result<(), String>>) -> Result<nat, Seq<char>> {
    if taken(writes) > 0 {
        Ok(taken(writes))
    } else {
        Err(
            match last_error(writes) {
                Some(e) => e,
                None => "no cpu exposes this attribute"@,
            },
        )
    }
}

/// What writing an attribute of every CPU that has it came to. Only a failure
/// everywhere is one.
pub fn write_all_cpus(writes: &Vec<Result<(), String>>) -> (r: Result<usize, String>)
    ensures
        (match r {
            Ok(count) => Ok(count as nat),
            Err(e) => Err(e@),
        }) == all_cpus_said(writes@),
{
    let n: usize = writes.len();
    let mut count: usize = 0;
    let mut last: Option<String> = None;
    let mut i: usize = 0;
    proof {
        assert(writes@.take(0) =~= seq![]);
    }
    while i < n
        invariant
            n == writes@.len(),
            i <= n,
            count <= i,
            count == taken(writes@.take(i as int)),
            text::opt_view(last) == last_error(writes@.take(i as int)),
        decreases n - i,
    {
        proof {
            assert(writes@.take(i + 1).drop_last() =~= writes@.take(i as int));
            assert(writes@.take(i + 1).last() == writes@[i as int]);
        }
        match &writes[i] {
            Ok(()) => {
                count = count + 1;
            },
            Err(e) => {
                last = Some(e.clone());
            },
        }
        i = i + 1;
    }
    proof {
        assert(writes@.take(n as int) =~= writes@);
    }
    if count > 0 {
        return Ok(count);
    }
    match last {
        Some(e) => Err(e),
        None => Err(String::from_str("no cpu exposes this attribute")),
    }
}

/// The CPUs could not even be listed.
pub fn cpus_unreadable(root: &str) -> (r: String)
    ensures
        r@ == root@ + " is unreadable"@,
{
    String::from_str(root).concat(" is unreadable")
}

// --- laws ----------------------------------------------------------------

/// The firmware's own profile is the last thing that is written, so that it is
/// the one that stays.
pub proof fn law_the_firmware_profile_is_written_last(
    state: BackendView,
    m: PowerMode,
    os_profile: bool,
    i: int,
)
    requires
        0 <= i < planned(state, m, os_profile).len(),
        planned(state, m, os_profile)[i] is PlatformProfile,
    ensures
        i == planned(state, m, os_profile).len() - 1,
{
}

/// Declining the operating system's half leaves the firmware's half as it is,
/// and nothing else.
pub proof fn law_the_two_halves_are_independent(state: BackendView, m: PowerMode)
    ensures
        planned(state, m, false) == firmware_steps(state, m),
        planned(state, m, true) == os_steps(state, m) + planned(state, m, false),
{
    assert(planned(state, m, false) =~= firmware_steps(state, m));
}

/// The CPU's hint is only written where no power manager runs that would undo
/// it.
pub proof fn law_the_hint_is_a_fallback(state: BackendView, m: PowerMode, i: int)
    requires
        0 <= i < os_steps(state, m).len(),
        os_steps(state, m)[i] is EnergyPreference,
    ensures
        state.power_profiles_daemon is None,
        state.tlp is None,
        !state.auto_cpufreq,
        os_steps(state, m).len() == 1,
{
}

/// Two power managers that are one and the same are not both asked.
pub proof fn law_the_profiles_api_wins_over_tlp(state: BackendView, m: PowerMode, i: int)
    requires
        state.power_profiles_daemon is Some,
        0 <= i < os_steps(state, m).len(),
    ensures
        !(os_steps(state, m)[i] is Tlp),
{
}

/// The firmware profile that a mode picks is one the firmware offers and one
/// that serves the mode; where none is picked, none of those is offered.
pub proof fn law_only_offered_profiles_are_picked(m: PowerMode, choices: Seq<Seq<char>>)
    ensures
        match first_offered(profile_names(m), choices) {
            Some(name) => choices.contains(name) && profile_names(m).contains(name),
            None => forall|i: int|
                0 <= i < profile_names(m).len() ==> !choices.contains(
                    #[trigger] profile_names(m)[i],
                ),
        },
{
    lemma_first_offered(profile_names(m), choices);
}

proof fn lemma_first_offered(names: Seq<Seq<char>>, choices: Seq<Seq<char>>)
    ensures
        match first_offered(names, choices) {
            Some(name) => choices.contains(name) && names.contains(name),
            None => forall|i: int| 0 <= i < names.len() ==> !choices.contains(#[trigger] names[i]),
        },
    decreases names.len(),
{
    if names.len() > 0 {
        if choices.contains(names[0]) {
            assert(names.contains(names[0]));
        } else {
            let rest = names.skip(1);
            lemma_first_offered(rest, choices);
            match first_offered(rest, choices) {
                Some(name) => {
                    let i = choose|i: int| 0 <= i < rest.len() && rest[i] == name;
                    assert(names[i + 1] == name);
                },
                None => {
                    assert forall|i: int| 0 <= i < names.len() implies !choices.contains(
                        #[trigger] names[i],
                    ) by {
                        if i > 0 {
                            assert(rest[i - 1] == names[i]);
                        }
                    }
                },
            }
        }
    }
}

/// No call on the bus starts the one it asks.
pub proof fn law_no_bus_call_starts_a_power_manager(
    api: int,
    method: Seq<char>,
    signature: Seq<char>,
)
    ensures
        bus_call(api, method, signature)[1] == "--auto-start=no"@,
{
}

/// A power manager is asked at most twice.
pub proof fn law_a_manager_is_asked_at_most_twice(
    who: Seq<char>,
    wanted: Seq<char>,
    tries: Seq<Try>,
)
    requires
        tries.len() >= 2,
    ensures
        confirmed(who, wanted, tries, 0) is Settled,
{
    reveal_with_fuel(confirmed, 3);
}

/// Success is only reported of a profile that was seen.
pub proof fn law_only_a_profile_that_was_seen_is_a_success(
    who: Seq<char>,
    wanted: Seq<char>,
    tries: Seq<Try>,
)
    requires
        confirmed(who, wanted, tries, 0) == ConfirmationView::Settled(Ok(())),
    ensures
        exists|i: int|
            0 <= i < tries.len() && text::opt_view((#[trigger] tries[i]).seen) == Some(wanted),
{
    reveal_with_fuel(confirmed, 3);
    if tries.len() > 0 && text::opt_view(tries[0].seen) != Some(wanted) {
        assert(text::opt_view(tries[1].seen) == Some(wanted));
    }
}

/// Each reading arrives where it belongs, without the blanks around it, and a
/// mechanism is listed exactly where the machine has it. TLP is only heard where
/// no power-profiles service answers.
#[verifier::spinoff_prover]
#[verifier::rlimit(60)]
pub proof fn law_readings_arrive_where_they_belong(found: Readings)
    ensures
        state_of(found).platform_profile == attribute(text::opt_view(found.platform_profile)),
        state_of(found).power_profiles_daemon == text::opt_view(found.power_profiles),
        state_of(found).energy_preference == attribute(text::opt_view(found.energy_preference)),
        state_of(found).governor == attribute(text::opt_view(found.governor)),
        state_of(found).auto_cpufreq == found.auto_cpufreq,
        found.power_profiles is Some ==> state_of(found).tlp is None,
        found.power_profiles is None ==> (found.tlp matches Some(s) ==> state_of(found).tlp
            == tlp_profile(s@)),
        found.tlp is None ==> state_of(found).tlp is None,
        state_of(found).available.contains("platform_profile"@) <==> state_of(
            found,
        ).platform_profile is Some,
        state_of(found).available.contains("power-profiles-daemon"@) <==> found.power_profiles
            is Some,
        state_of(found).available.contains("tlp"@) <==> state_of(found).tlp is Some,
        state_of(found).available.contains("auto-cpufreq"@) <==> found.auto_cpufreq,
        state_of(found).available.contains("energy_performance_preference"@) <==> state_of(
            found,
        ).energy_preference is Some,
        state_of(found).available.len() <= 5,
{
    reveal_strlit("platform_profile");
    reveal_strlit("power-profiles-daemon");
    reveal_strlit("tlp");
    reveal_strlit("auto-cpufreq");
    reveal_strlit("energy_performance_preference");
    assert("platform_profile"@.len() == 16);
    assert("power-profiles-daemon"@.len() == 21);
    assert("tlp"@.len() == 3);
    assert("auto-cpufreq"@.len() == 12);
    assert("energy_performance_preference"@.len() == 29);
    let state = state_of(found);
    let a = listed("platform_profile"@, state.platform_profile is Some);
    let b = listed("power-profiles-daemon"@, found.power_profiles is Some);
    let c = listed("tlp"@, state.tlp is Some);
    let d = listed("auto-cpufreq"@, found.auto_cpufreq);
    let e = listed("energy_performance_preference"@, state.energy_preference is Some);
    let all = state.available;
    assert(all == a + b + c + d + e);
    if a.len() > 0 {
        assert(all[0] == a[0]);
    }
    if b.len() > 0 {
        assert(all[a.len() as int] == b[0]);
    }
    if c.len() > 0 {
        assert(all[(a.len() + b.len()) as int] == c[0]);
    }
    if d.len() > 0 {
        assert(all[(a.len() + b.len() + c.len()) as int] == d[0]);
    }
    if e.len() > 0 {
        assert(all[(a.len() + b.len() + c.len() + d.len()) as int] == e[0]);
    }
}

/// An attribute is what was read without the blanks around it, and nothing where
/// nothing else was read.
pub proof fn law_an_attribute_is_read_without_its_blanks(s: Seq<char>, name: Seq<char>)
    requires
        name.len() > 0,
        !text::is_space(name[0]),
        !text::is_space(name.last()),
    ensures
        attribute(Some(name)) == Some(name),
        attribute(Some(name.push('\n'))) == Some(name),
        attribute(None) is None,
        attribute(Some(s)) is None <==> (forall|i: int|
            0 <= i < s.len() ==> text::is_space(#[trigger] s[i])),
        attribute(Some(s)) matches Some(t) ==> t.len() > 0 && !text::is_space(t[0])
            && !text::is_space(t.last()) && text::contains(s, t),
{
    let line = name.push('\n');
    assert(line.drop_last() =~= name);
    assert(line[0] == name[0]);
    assert(text::trim(line) == text::trim_end(line, Class::Space));
    assert(text::trim(line) == name);
    let (i, j) = text::law_trimming_strips_both_ends(s, Class::Space);
    if i < j {
        assert(text::occurs_at(s, text::trim(s), i));
        assert(!text::is_space(s[i]));
        assert(text::trim(s)[0] == s[i]);
        assert(text::trim(s).last() == s[j - 1]);
    }
}

/// The firmware's word on the mode is taken first, then the power-profiles
/// service's, then TLP's; a word that names no mode is not passed over.
pub proof fn law_the_first_that_speaks_names_the_mode(state: BackendView, name: Seq<char>)
    ensures
        state.platform_profile == Some(name) ==> mode_found(state) == mode::profile_mode(name),
        state.platform_profile is None && state.power_profiles_daemon == Some(name)
            ==> mode_found(state) == mode::profile_mode(name),
        state.platform_profile is None && state.power_profiles_daemon is None && state.tlp == Some(
            name,
        ) ==> mode_found(state) == mode::profile_mode(name),
        state.platform_profile is None && state.power_profiles_daemon is None && state.tlp is None
            ==> mode_found(state) is None,
{
}

/// A firmware that offers every profile is told the one that fits the mode best;
/// otherwise the next best that it offers.
#[verifier::spinoff_prover]
#[verifier::rlimit(60)]
pub proof fn law_the_best_profile_on_offer_is_picked(choices: Seq<Seq<char>>)
    ensures
        first_offered(profile_names(PowerMode::Eco), choices) == (if choices.contains(
            "low-power"@,
        ) {
            Some("low-power"@)
        } else if choices.contains("quiet"@) {
            Some("quiet"@)
        } else if choices.contains("cool"@) {
            Some("cool"@)
        } else if choices.contains("balanced"@) {
            Some("balanced"@)
        } else {
            None
        }),
        first_offered(profile_names(PowerMode::Balanced), choices) == (if choices.contains(
            "balanced"@,
        ) {
            Some("balanced"@)
        } else if choices.contains("balanced-performance"@) {
            Some("balanced-performance"@)
        } else if choices.contains("quiet"@) {
            Some("quiet"@)
        } else {
            None
        }),
        first_offered(profile_names(PowerMode::Performance), choices) == (if choices.contains(
            "balanced-performance"@,
        ) {
            Some("balanced-performance"@)
        } else if choices.contains("performance"@) {
            Some("performance"@)
        } else if choices.contains("balanced"@) {
            Some("balanced"@)
        } else {
            None
        }),
        first_offered(profile_names(PowerMode::Unlimited), choices) == (if choices.contains(
            "performance"@,
        ) {
            Some("performance"@)
        } else if choices.contains("balanced-performance"@) {
            Some("balanced-performance"@)
        } else {
            None
        }),
{
    reveal_with_fuel(first_offered, 5);
    let e = profile_names(PowerMode::Eco);
    assert(e.skip(1)[0] == "quiet"@);
    assert(e.skip(1).skip(1)[0] == "cool"@);
    assert(e.skip(1).skip(1).skip(1)[0] == "balanced"@);
    let b = profile_names(PowerMode::Balanced);
    assert(b.skip(1)[0] == "balanced-performance"@);
    assert(b.skip(1).skip(1)[0] == "quiet"@);
    let p = profile_names(PowerMode::Performance);
    assert(p.skip(1)[0] == "performance"@);
    assert(p.skip(1).skip(1)[0] == "balanced"@);
    let u = profile_names(PowerMode::Unlimited);
    assert(u.skip(1)[0] == "balanced-performance"@);
}

/// A power manager is told a profile that stands for the mode it is told for:
/// read back, it names that mode, performance and unlimited being one to it.
pub proof fn law_a_manager_is_told_the_mode(m: PowerMode)
    ensures
        mode::profile_mode(manager_profile(m)) == Some(
            if m == PowerMode::Unlimited {
                PowerMode::Performance
            } else {
                m
            },
        ),
        tlp_profile(manager_profile(m)) == Some(manager_profile(m)),
{
    reveal_strlit("low-power");
    reveal_strlit("quiet");
    reveal_strlit("cool");
    reveal_strlit("power-saver");
    reveal_strlit("balanced");
    reveal_strlit("balanced-performance");
    reveal_strlit("performance");
    assert("low-power"@.len() == 9);
    assert("quiet"@.len() == 5);
    assert("cool"@.len() == 4);
    assert("power-saver"@.len() == 11 && "power-saver"@[1] == 'o');
    assert("balanced"@.len() == 8);
    assert("balanced-performance"@.len() == 20);
    assert("performance"@.len() == 11 && "performance"@[1] == 'e');
    let s = manager_profile(m);
    assert forall|i: int| 0 <= i < s.len() implies !Class::Space.holds(#[trigger] s[i])
        && !Class::Is('/').holds(s[i]) by {
    }
    text::law_words_stand_between_separators(seq![], ' ', seq![], s, Class::Space);
    text::lemma_position(s, Class::Is('/'), 0);
    assert(text::words(s) == seq![s]);
    assert(text::split(s, Class::Is('/')) == seq![s]);
}

/// Of what TLP prints, the first word up to a slash is its profile.
#[verifier::spinoff_prover]
#[verifier::rlimit(60)]
pub proof fn law_tlp_is_understood(s: Seq<char>, rest: Seq<char>)
    requires
        s == "performance"@ || s == "balanced"@ || s == "power-saver"@,
    ensures
        tlp_profile(s + "/"@ + rest) == Some(s),
        tlp_profile(s + " "@ + rest) == Some(s),
        tlp_profile(seq![]) is None,
{
    reveal_strlit("/");
    reveal_strlit(" ");
    reveal_strlit("power-saver");
    reveal_strlit("balanced");
    reveal_strlit("performance");
    assert("/"@ =~= seq!['/']);
    assert(" "@ =~= seq![' ']);
    assert("power-saver"@.len() == 11);
    assert("balanced"@.len() == 8);
    assert("performance"@.len() == 11);
    let sp = Class::Space;
    let sl = Class::Is('/');
    assert forall|i: int| 0 <= i < s.len() implies !sp.holds(#[trigger] s[i]) && !sl.holds(
        s[i],
    ) by {
    }
    text::lemma_position(s, sl, 0);
    assert(text::split(s, sl) == seq![s]);
    text::law_words_stand_between_separators(s, ' ', rest, s, sp);
    assert((seq![s] + text::words(rest))[0] == s);
    let whole = s + seq!['/'] + rest;
    text::lemma_position(whole, sp, 0);
    assert(whole[0] == s[0]);
    match text::position(whole, sp, 0) {
        Some(i) => {
            if i < s.len() {
                assert(whole[i] == s[i]);
            }
            let word = whole.take(i);
            let after = whole.skip(i + 1);
            assert(word + seq![whole[i]] + after =~= whole);
            assert forall|j: int| 0 <= j < word.len() implies !sp.holds(#[trigger] word[j]) by {
                assert(word[j] == whole[j]);
            }
            text::law_words_stand_between_separators(word, whole[i], after, word, sp);
            assert(text::words(whole)[0] == word);
            assert(i != s.len());
            assert(word =~= s + seq!['/'] + word.skip(s.len() as int + 1));
            text::lemma_split_around(s, '/', word.skip(s.len() as int + 1), sl);
            assert(text::split(word, sl)[0] == s);
        },
        None => {
            text::law_words_stand_between_separators(seq![], ' ', seq![], whole, sp);
            text::lemma_split_around(s, '/', rest, sl);
            assert(text::split(whole, sl)[0] == s);
        },
    }
    text::law_words_stand_between_separators(seq![], ' ', seq![], seq![], sp);
}

/// With the system's half, whichever manager is there is told the mode, and
/// auto-cpufreq is as well; where there is neither, every processor's hint is
/// set. The firmware is told whatever of the mode it offers.
#[verifier::spinoff_prover]
#[verifier::rlimit(60)]
pub proof fn law_everything_there_is_told(state: BackendView, m: PowerMode)
    ensures
        state.power_profiles_daemon is Some ==> planned(state, m, true).contains(
            StepView::PowerProfilesDaemon(
                if m == PowerMode::Eco {
                    "power-saver"@
                } else if m == PowerMode::Balanced {
                    "balanced"@
                } else {
                    "performance"@
                },
            ),
        ),
        state.power_profiles_daemon is None && state.tlp is Some ==> planned(
            state,
            m,
            true,
        ).contains(
            StepView::Tlp(
                if m == PowerMode::Eco {
                    "power-saver"@
                } else if m == PowerMode::Balanced {
                    "balanced"@
                } else {
                    "performance"@
                },
            ),
        ),
        state.auto_cpufreq ==> planned(state, m, true).contains(
            StepView::AutoCpufreq(
                if m == PowerMode::Eco {
                    "powersave"@
                } else if m == PowerMode::Balanced {
                    "reset"@
                } else {
                    "performance"@
                },
            ),
        ),
        state.power_profiles_daemon is None && state.tlp is None && !state.auto_cpufreq
            && state.energy_preference is Some ==> planned(state, m, true).contains(
            StepView::EnergyPreference(
                if m == PowerMode::Eco {
                    "power"@
                } else if m == PowerMode::Balanced {
                    "balance_performance"@
                } else {
                    "performance"@
                },
            ),
        ),
        forall|os_profile: bool, name: Seq<char>|
            first_offered(profile_names(m), state.platform_profile_choices) == Some(name)
                ==> #[trigger] planned(state, m, os_profile).contains(
                StepView::PlatformProfile(name),
            ),
        unplanned(state, m).len() > 0 <==> state.platform_profile_choices.len() > 0
            && first_offered(profile_names(m), state.platform_profile_choices) is None,
{
    let all = planned(state, m, true);
    let os = os_steps(state, m);
    assert(all == os + firmware_steps(state, m));
    assert forall|i: int| 0 <= i < os.len() implies all[i] == #[trigger] os[i] by {
    }
    if state.power_profiles_daemon is Some || state.tlp is Some {
        assert(os[0] == all[0]);
    }
    if state.auto_cpufreq {
        assert(os.last() == all[os.len() - 1]);
    }
    if os.len() > 0 {
        assert(os[0] == all[0]);
    }
    assert forall|os_profile: bool, name: Seq<char>|
        first_offered(profile_names(m), state.platform_profile_choices) == Some(
            name,
        ) implies #[trigger] planned(state, m, os_profile).contains(
        StepView::PlatformProfile(name),
    ) by {
        let steps = planned(state, m, os_profile);
        assert(steps[steps.len() - 1] == StepView::PlatformProfile(name));
    }
}

/// Without the system's half only the firmware is told.
pub proof fn law_the_systems_half_can_be_left_out(state: BackendView, m: PowerMode, i: int)
    requires
        0 <= i < planned(state, m, false).len(),
    ensures
        planned(state, m, false)[i] is PlatformProfile,
        planned(state, m, false).len() == 1,
{
}

/// Letting go of auto-cpufreq tells it what the balanced mode would, and it then
/// reports that it decides by itself.
pub proof fn law_auto_cpufreq_is_let_go(state: BackendView, other: Seq<char>)
    ensures
        released(state) is Some <==> state.auto_cpufreq,
        released(state) matches Some(step) ==> step == StepView::AutoCpufreq(
            forced(PowerMode::Balanced),
        ) && governor_after(forced(PowerMode::Balanced)) == "default"@,
        other != "reset"@ ==> governor_after(other) == other,
{
}

/// Every step of a plan is reported once, by what came of it: what went through
/// as applied, with what it was told, and what did not as failed, with the
/// reason. Problems found in planning are failures too.
#[verifier::spinoff_prover]
#[verifier::rlimit(60)]
pub proof fn law_every_step_is_reported(
    steps: Seq<StepView>,
    problems: Seq<Seq<char>>,
    outcomes: Seq<OutcomeView>,
    after: Option<Seq<char>>,
    i: int,
)
    requires
        outcomes.len() == steps.len(),
        0 <= i < steps.len(),
    ensures
        report_of(steps, problems, outcomes, after).applied.len() + report_of(
            steps,
            problems,
            outcomes,
            after,
        ).failed.len() == steps.len() + problems.len(),
        outcomes[i].result matches Ok(count) ==> report_of(
            steps,
            problems,
            outcomes,
            after,
        ).applied.contains(
            match steps[i] {
                StepView::PlatformProfile(s) => "platform_profile"@ + "="@ + s,
                StepView::PowerProfilesDaemon(s) => "power-profiles-daemon"@ + "="@ + s,
                StepView::Tlp(s) => "tlp"@ + "="@ + s,
                StepView::AutoCpufreq(s) => "auto-cpufreq"@ + "="@ + s,
                StepView::EnergyPreference(s) => "energy_performance_preference"@ + "="@ + s + " ("@
                    + number::decimal(count as nat) + " cpus)"@,
            },
        ),
        outcomes[i].result matches Err(e) ==> report_of(
            steps,
            problems,
            outcomes,
            after,
        ).failed.contains(
            (match steps[i] {
                StepView::PlatformProfile(_) => "platform_profile"@,
                StepView::PowerProfilesDaemon(_) => "power-profiles-daemon"@,
                StepView::Tlp(_) => "tlp"@,
                StepView::AutoCpufreq(_) => "auto-cpufreq"@,
                StepView::EnergyPreference(_) => "energy_performance_preference"@,
            }) + ": "@ + e,
        ),
        !report_of(steps, problems, outcomes, after).rolled_back,
        report_of(steps, problems, outcomes, after).expected.platform_profile == after,
        report_of(steps, problems, outcomes, after).expected.turbo is None,
        report_of(steps, problems, outcomes, after).expected.limits == limits::no_limits(),
        outcomes.last().result is Ok && steps.last() is EnergyPreference ==> report_of(
            steps,
            problems,
            outcomes,
            after,
        ).expected.energy_preference == outcomes.last().hint,
        forall|j: int|
            0 <= j < problems.len() ==> #[trigger] problems[j] == report_of(
                steps,
                problems,
                outcomes,
                after,
            ).failed[j],
    decreases steps.len(),
{
    lemma_reported_sizes(steps, problems, outcomes);
    let before = reported(steps.drop_last(), problems, outcomes.drop_last());
    let all = reported(steps, problems, outcomes);
    lemma_reported_sizes(steps.drop_last(), problems, outcomes.drop_last());
    if i < steps.len() - 1 {
        law_every_step_is_reported(
            steps.drop_last(),
            problems,
            outcomes.drop_last(),
            after,
            i,
        );
        assert(steps.drop_last()[i] == steps[i]);
        assert(outcomes.drop_last()[i] == outcomes[i]);
        assert forall|x: Seq<char>| before.applied.contains(x) implies all.applied.contains(
            x,
        ) by {
            let k = choose|k: int| 0 <= k < before.applied.len() && before.applied[k] == x;
            assert(all.applied[k] == x);
        }
        assert forall|x: Seq<char>| before.failed.contains(x) implies all.failed.contains(x) by {
            let k = choose|k: int| 0 <= k < before.failed.len() && before.failed[k] == x;
            assert(all.failed[k] == x);
        }
    } else {
        match step_said(steps.last(), outcomes.last().result) {
            Ok(line) => {
                assert(all.applied[before.applied.len() as int] == line);
            },
            Err(line) => {
                assert(all.failed[before.failed.len() as int] == line);
            },
        }
    }
}

proof fn lemma_reported_sizes(
    steps: Seq<StepView>,
    problems: Seq<Seq<char>>,
    outcomes: Seq<OutcomeView>,
)
    requires
        outcomes.len() == steps.len(),
    ensures
        reported(steps, problems, outcomes).applied.len() + reported(
            steps,
            problems,
            outcomes,
        ).failed.len() == steps.len() + problems.len(),
        reported(steps, problems, outcomes).failed.len() >= problems.len(),
        forall|j: int|
            0 <= j < problems.len() ==> #[trigger] problems[j] == reported(
                steps,
                problems,
                outcomes,
            ).failed[j],
        !reported(steps, problems, outcomes).rolled_back,
        reported(steps, problems, outcomes).expected.turbo is None,
        reported(steps, problems, outcomes).expected.limits == limits::no_limits(),
    decreases steps.len(),
{
    if steps.len() > 0 {
        lemma_reported_sizes(steps.drop_last(), problems, outcomes.drop_last());
    }
}

/// The two bus calls speak to the same object under the same name, of the same
/// property, and the setting one ends with the profile that is asked for.
pub proof fn law_the_bus_is_asked_for_the_active_profile(api: int, profile: Seq<char>)
    ensures
        get_call(api).len() == 10,
        set_call(api, profile).len() == 12,
        set_call(api, profile)[10] == "s"@,
        set_call(api, profile)[11] == profile,
        get_call(api)[6] == "Get"@ && get_call(api)[7] == "ss"@,
        set_call(api, profile)[6] == "Set"@ && set_call(api, profile)[7] == "ssv"@,
        forall|i: int|
            0 <= i < 10 && i != 6 && i != 7 ==> #[trigger] get_call(api)[i] == set_call(
                api,
                profile,
            )[i],
        get_call(api)[0] == "--system"@ && get_call(api)[2] == "call"@,
        get_call(api)[5] == "org.freedesktop.DBus.Properties"@,
        get_call(api)[9] == "ActiveProfile"@,
        get_call(0)[3] == "org.freedesktop.UPower.PowerProfiles"@ && get_call(0)[4]
            == "/org/freedesktop/UPower/PowerProfiles"@,
        get_call(1)[3] == "net.hadess.PowerProfiles"@ && get_call(1)[4]
            == "/net/hadess/PowerProfiles"@,
        get_call(api)[8] == get_call(api)[3],
{
}

/// The profile that `busctl` prints is read without its quotes.
#[verifier::spinoff_prover]
#[verifier::rlimit(60)]
pub proof fn law_a_printed_profile_is_read(profile: Seq<char>)
    requires
        profile.len() > 0,
        !text::is_space(profile[0]) && profile[0] != '"',
        !text::is_space(profile.last()) && profile.last() != '"',
    ensures
        variant_string("v s \""@ + profile + "\"\n"@) == Some(profile),
{
    reveal_strlit("v s \"");
    reveal_strlit("\"\n");
    reveal_strlit("v s ");
    assert("v s \""@ =~= seq!['v', ' ', 's', ' ', '"']);
    assert("\"\n"@ =~= seq!['"', '\n']);
    assert("v s "@ =~= seq!['v', ' ', 's', ' ']);
    let out = "v s \""@ + profile + "\"\n"@;
    let line = out.drop_last();
    assert(out.last() == '\n');
    assert(line.last() == '"');
    assert(out[0] == 'v');
    assert(text::trim_end(out, Class::Space) == line) by {
        assert(text::trim_end(line, Class::Space) == line);
    }
    assert(text::trim(out) == line);
    assert(line.subrange(0, 4) =~= "v s "@);
    let quoted = line.skip(4);
    assert(quoted =~= seq!['"'] + profile + seq!['"']);
    assert(quoted[0] == '"' && quoted.last() == '"');
    text::law_nothing_is_trimmed_from_the_middle(quoted, Class::Space);
    let q = Class::Is('"');
    let open = quoted.skip(1);
    assert(open =~= profile + seq!['"']);
    assert(open[0] == profile[0]);
    assert(text::trim_start(open, q) == open);
    assert(open.drop_last() =~= profile);
    assert(text::trim_end(profile, q) == profile);
    assert(text::trim_end(open, q) == profile);
    assert(text::trim_class(quoted, q) == profile);
}

/// The services are asked in their order until one answers with a profile.
/// Without the tool the command line is used instead, and a tool that fails to
/// run ends the search.
pub proof fn law_the_services_are_asked_in_turn(replies: Seq<BusReply>, profile: Seq<char>)
    ensures
        replies.len() == 0 ==> searched(replies, 0) == SearchView::Ask(0),
        replies.len() == 1 && replies[0] is Refused ==> searched(replies, 0) == SearchView::Ask(1),
        replies.len() == 2 && replies[0] is Refused && replies[1] is Refused ==> searched(
            replies,
            0,
        ) == SearchView::Absent,
        replies.len() > 0 && replies[0] is NotInstalled ==> searched(replies, 0)
            == SearchView::Cli,
        replies.len() > 0 && replies[0] is Broken ==> searched(replies, 0) == SearchView::Absent,
        replies.len() > 0 && (replies[0] matches BusReply::Said(out) && variant_string(out@)
            == Some(profile)) ==> searched(replies, 0) == SearchView::Found(0, profile),
        replies.len() > 1 && replies[0] is Refused && (replies[1] matches BusReply::Said(out)
            && variant_string(out@) == Some(profile)) ==> searched(replies, 0)
            == SearchView::Found(1, profile),
        replies.len() == 1 && (replies[0] matches BusReply::Said(out) && variant_string(out@)
            is None) ==> searched(replies, 0) == SearchView::Ask(1),
{
    reveal_with_fuel(searched, 3);
}

/// What a failed tool said is told, its errors before its output, and how it
/// ended where it said nothing.
pub proof fn law_a_failure_is_told_in_the_tools_words(
    stderr: Seq<char>,
    stdout: Seq<char>,
    status: Seq<char>,
)
    ensures
        outcome_of(true, stderr, stdout, status) is Ok,
        text::trim(stderr).len() > 0 ==> outcome_of(false, stderr, stdout, status) == Err::<
            (),
            Seq<char>,
        >(text::trim(stderr)),
        text::trim(stderr).len() == 0 && text::trim(stdout).len() > 0 ==> outcome_of(
            false,
            stderr,
            stdout,
            status,
        ) == Err::<(), Seq<char>>(text::trim(stdout)),
        text::trim(stderr).len() == 0 && text::trim(stdout).len() == 0 ==> outcome_of(
            false,
            stderr,
            stdout,
            status,
        ) == Err::<(), Seq<char>>("exited with "@ + status),
        output_of(false, stdout) is None,
        text::trim(stdout).len() > 0 ==> output_of(true, stdout) == Some(text::trim(stdout)),
        text::trim(stdout).len() == 0 ==> output_of(true, stdout) is None,
{
}

/// A request is settled by the first try that was seen to take or was refused,
/// and given up after the second; until then it is made again.
pub proof fn law_a_request_is_made_again_until_it_is_seen(
    who: Seq<char>,
    wanted: Seq<char>,
    tries: Seq<Try>,
    s: Seq<char>,
)
    ensures
        tries.len() == 0 ==> confirmed(who, wanted, tries, 0) == ConfirmationView::Ask,
        tries.len() > 0 && tries[0].request is Ok && text::opt_view(tries[0].seen) == Some(wanted)
            ==> confirmed(who, wanted, tries, 0) == ConfirmationView::Settled(Ok(())),
        tries.len() > 0 ==> (tries[0].request matches Err(e) ==> confirmed(who, wanted, tries, 0)
            == ConfirmationView::Settled(Err(e@))),
        tries.len() == 1 && tries[0].request is Ok && text::opt_view(tries[0].seen) != Some(wanted)
            ==> confirmed(who, wanted, tries, 0) == ConfirmationView::Ask,
        tries.len() == 2 && tries[0].request is Ok && text::opt_view(tries[0].seen) != Some(wanted)
            && tries[1].request is Ok && text::opt_view(tries[1].seen) == Some(wanted)
            ==> confirmed(who, wanted, tries, 0) == ConfirmationView::Settled(Ok(())),
        tries.len() == 2 && tries[0].request is Ok && text::opt_view(tries[0].seen) != Some(wanted)
            && tries[1].request is Ok && text::opt_view(tries[1].seen) == Some(s) && s != wanted
            ==> confirmed(who, wanted, tries, 0) == ConfirmationView::Settled(
            Err(
                "asked for "@ + wanted + ", "@ + who + " settled on "@ + s + " (tried "@
                    + number::decimal(2) + " times)"@,
            ),
        ),
{
    reveal_with_fuel(confirmed, 3);
}

/// A processor's directory is `cpu` and its number.
pub proof fn law_processors_are_known_by_name(n: nat, name: Seq<char>, i: int)
    ensures
        cpu_named("cpu"@ + number::decimal(n)),
        3 <= i < name.len() && !('0' <= name[i] <= '9') ==> !cpu_named(name),
        !text::starts_with(name, "cpu"@) ==> !cpu_named(name),
{
    reveal_strlit("cpu");
    assert("cpu"@.len() == 3);
    number::lemma_decimal_digits(n);
    let s = "cpu"@ + number::decimal(n);
    assert(s.subrange(0, 3) =~= "cpu"@);
    assert forall|i: int| 3 <= i < s.len() implies text::is_digit(#[trigger] s[i]) by {
        assert(s[i] == number::decimal(n)[i - 3]);
    }
}

/// Setting an attribute on every processor succeeds exactly where one took it,
/// and says how many did; otherwise the last refusal is told.
pub proof fn law_processors_that_took_it_are_counted(
    writes: Seq<Result<(), String>>,
    more: Seq<Result<(), String>>,
)
    ensures
        taken(writes + more) == taken(writes) + taken(more),
        writes.len() == 1 && writes[0] is Ok ==> all_cpus_said(writes) == Ok::<nat, Seq<char>>(1),
        all_cpus_said(writes) is Ok <==> (exists|i: int|
            0 <= i < writes.len() && #[trigger] writes[i] is Ok),
        writes.len() > 0 && all_cpus_said(writes) is Err ==> (writes.last() matches Err(e)
            && all_cpus_said(writes) == Err::<nat, Seq<char>>(e@)),
        writes.len() == 0 ==> all_cpus_said(writes) == Err::<nat, Seq<char>>(
            "no cpu exposes this attribute"@,
        ),
    decreases writes.len() + more.len(),
{
    if more.len() > 0 {
        assert((writes + more).drop_last() =~= writes + more.drop_last());
        law_processors_that_took_it_are_counted(writes, more.drop_last());
    } else {
        assert(writes + more =~= writes);
    }
    lemma_taken(writes);
    if writes.len() == 1 {
        assert(writes.drop_last() =~= seq![]);
        assert(taken(Seq::empty()) == 0);
    }
    if writes.len() > 0 && all_cpus_said(writes) is Err {
        assert(!(writes[writes.len() - 1] is Ok));
    }
}

proof fn lemma_taken(writes: Seq<Result<(), String>>)
    ensures
        taken(writes) > 0 <==> (exists|i: int| 0 <= i < writes.len() && #[trigger] writes[i] is Ok),
    decreases writes.len(),
{
    if writes.len() > 0 {
        let rest = writes.drop_last();
        lemma_taken(rest);
        if taken(rest) > 0 {
            let i = choose|i: int| 0 <= i < rest.len() && #[trigger] rest[i] is Ok;
            assert(writes[i] is Ok);
        }
        if writes.last() is Ok {
            assert(writes[writes.len() - 1] is Ok);
        } else if exists|i: int| 0 <= i < writes.len() && #[trigger] writes[i] is Ok {
            let i = choose|i: int| 0 <= i < writes.len() && #[trigger] writes[i] is Ok;
            assert(rest[i] is Ok);
        }
    }
}

} // verus!
