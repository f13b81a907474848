//! The four performance profiles, end to end, against a machine that is
//! entirely made up: a firmware profile, stand-in power managers that keep a
//! diary, four CPUs with a hint, a package zone and a turbo knob.
use pyren::error::ModuleError;
use pyren::power::auto::{AutoConfig, AutoInputs, AutoSwitcher};
use pyren::power::backend::{
    apply, find_power_profiles, force_arg, forced_state, get_profile_args, parse_tlp_mode, plan,
    read_state, release_auto_cpufreq, service_gone, set_and_confirm, set_profile_args, succeeded,
    write_all_cpus, ApplyReport, BackendState, BusReply, Confirmation, Readings, Search, Step,
    StepOutcome, Try,
};
use pyren::power::limits::{
    read, read_turbo, turbo_outcome, turbo_write, LimitPaths, LimitRun, Limits, TurboKnob, Written,
    ZoneReading,
};
use pyren::power::mode::PowerMode;
use pyren::power::module::{
    apply_profile, route, set_mode_reply, Call, Cycled, EnvelopeDone, ModeField, PowerConfig,
    PowerModule, TuningRequest, Tuned, TurboField, Watts,
};
use pyren::power::watch::Knobs;
use serde_json::Value;

const W: u64 = 1_000_000;

/// The laptop's envelope, and the numbers every assertion here is measured
/// against.
const STOCK_PL1: u64 = 77 * W;
const STOCK_PL2: u64 = 77 * W;
const STOCK_PL4: u64 = 168 * W;

fn millionths(value: f64) -> i64 {
    (value * 1e6).round() as i64
}

/// How the power-profiles service answers a request.
#[derive(Clone)]
enum Service {
    /// Nobody owns the name.
    Silent,
    Works,
    /// It also writes the firmware profile, to this.
    Racing(&'static str),
    /// It misses its first request ever.
    Flaky,
    /// It lands on this whatever it is asked for.
    Wrong(&'static str),
}

struct Machine {
    profile: Option<String>,
    choices: Option<String>,
    hints: Vec<String>,
    no_turbo: String,
    limits: Limits,
    /// Whether there is a bus tool, and whether there is the service's own.
    has_busctl: bool,
    has_cli: bool,
    service: Service,
    os_profile: String,
    os_requests: Vec<String>,
    bus_calls: Vec<Vec<String>>,
    cli_calls: usize,
    tlp_stat: Option<String>,
    tlp_requests: Vec<String>,
    auto_cpufreq_runs: bool,
    forced: Option<String>,
    force_requests: Vec<String>,
    disk: Option<PowerConfig>,
    disk_full: bool,
    now: u64,
}

fn stock() -> Limits {
    Limits { pl1_uw: Some(STOCK_PL1), pl2_uw: Some(STOCK_PL2), pl4_uw: Some(STOCK_PL4) }
}

impl Machine {
    /// The full machine: every mechanism present, at stock, in Balanced.
    fn new() -> Machine {
        Machine {
            profile: Some("balanced".to_string()),
            choices: Some("low-power balanced performance".to_string()),
            hints: vec!["balance_performance".to_string(); 4],
            no_turbo: "0".to_string(),
            limits: stock(),
            has_busctl: true,
            has_cli: false,
            service: Service::Works,
            os_profile: "balanced".to_string(),
            os_requests: Vec::new(),
            bus_calls: Vec::new(),
            cli_calls: 0,
            tlp_stat: None,
            tlp_requests: Vec::new(),
            auto_cpufreq_runs: false,
            forced: None,
            force_requests: Vec::new(),
            disk: None,
            disk_full: false,
            now: 0,
        }
    }

    /// TLP with nothing serving the profiles API.
    fn with_tlp(profile: &str) -> Machine {
        Machine {
            has_busctl: false,
            tlp_stat: Some(format!("{profile}/BAT (manual)\n")),
            ..Machine::new()
        }
    }

    fn paths(&self) -> LimitPaths {
        LimitPaths {
            zone: Some("/powercap/intel-rapl:0".to_string()),
            turbo: Some(TurboKnob::NoTurbo("/cpu/intel_pstate/no_turbo".to_string())),
            msr_root: None,
        }
    }

    fn zone(&self) -> ZoneReading {
        let shown = |limit: Option<u64>| limit.map(|uw| format!("{uw}\n"));
        let all = [self.limits.pl1_uw, self.limits.pl2_uw, self.limits.pl4_uw];
        ZoneReading {
            names: vec![None, None, None],
            limits: all.iter().map(|l| shown(*l)).collect(),
            present: all.iter().map(|l| l.is_some()).collect(),
            enabled: None,
            locked: None,
            msr: None,
        }
    }

    fn read_turbo(&self) -> Option<bool> {
        read_turbo(&self.paths(), Some(&self.no_turbo))
    }

    fn busctl(&mut self, args: Vec<String>) -> BusReply {
        if !self.has_busctl {
            return BusReply::NotInstalled;
        }
        let asks = args.iter().any(|a| a == "Get");
        let wanted = args[args.len() - 1].clone();
        self.bus_calls.push(args);
        if matches!(self.service, Service::Silent) {
            return BusReply::Refused;
        }
        if !asks {
            self.os_set(&wanted);
        }
        BusReply::Said(format!("v s \"{}\"\n", self.os_profile))
    }

    /// The service takes a request.
    fn os_set(&mut self, wanted: &str) {
        self.os_requests.push(wanted.to_string());
        self.os_profile = match &self.service {
            Service::Silent => self.os_profile.clone(),
            Service::Works => wanted.to_string(),
            Service::Racing(firmware) => {
                self.profile = Some(firmware.to_string());
                wanted.to_string()
            }
            Service::Flaky if self.os_requests.len() == 1 => "nobody-asked-for-this".to_string(),
            Service::Flaky => wanted.to_string(),
            Service::Wrong(other) => other.to_string(),
        };
    }

    /// Where the profiles API is, and what it says.
    fn search(&mut self) -> Search {
        let mut replies = Vec::new();
        loop {
            match find_power_profiles(&replies) {
                Search::Ask(api) => {
                    let reply = self.busctl(get_profile_args(api));
                    replies.push(reply);
                }
                found => return found,
            }
        }
    }

    fn power_profiles(&mut self) -> Option<String> {
        match self.search() {
            Search::Found(_, profile) => Some(profile),
            Search::Cli if self.has_cli => {
                self.cli_calls += 1;
                Some(self.os_profile.clone())
            }
            _ => None,
        }
    }

    fn backend(&mut self) -> BackendState {
        read_state(Readings {
            platform_profile: self.profile.clone().map(|p| p + "\n"),
            platform_profile_choices: self.choices.clone(),
            power_profiles: self.power_profiles(),
            tlp: self.tlp_stat.clone(),
            auto_cpufreq: self.auto_cpufreq_runs,
            energy_preference: Some(self.hints[0].clone()),
            governor: Some("powersave".to_string()),
        })
    }

    /// Asks a power manager, and once more where it did not land.
    fn confirm(
        &mut self,
        who: &str,
        wanted: &str,
        mut request: impl FnMut(&mut Machine) -> Result<(), String>,
        mut seen: impl FnMut(&mut Machine) -> Option<String>,
    ) -> Result<usize, String> {
        let mut tries = Vec::new();
        loop {
            match set_and_confirm(who, wanted, &tries) {
                Confirmation::Settled(result) => return result.map(|()| 0),
                Confirmation::Ask => {
                    let request = request(self);
                    let seen = seen(self);
                    tries.push(Try { request, seen });
                }
            }
        }
    }

    fn carry_out(&mut self, step: &Step) -> Result<usize, String> {
        match step {
            Step::PlatformProfile(name) => {
                self.profile = Some(name.clone());
                Ok(0)
            }
            Step::PowerProfilesDaemon(wanted) => {
                let wanted = *wanted;
                self.confirm(
                    "power-profiles-daemon",
                    wanted,
                    |m| match m.search() {
                        Search::Found(api, _) => {
                            m.busctl(set_profile_args(api, wanted));
                            Ok(())
                        }
                        Search::Cli => {
                            m.os_set(wanted);
                            Ok(())
                        }
                        _ => Err(service_gone()),
                    },
                    |m| m.power_profiles(),
                )
            }
            Step::Tlp(wanted) => {
                let wanted = *wanted;
                self.confirm(
                    "TLP",
                    wanted,
                    |m| {
                        m.tlp_requests.push(wanted.to_string());
                        m.tlp_stat = Some(format!("{wanted}/BAT (manual)\n"));
                        succeeded(true, String::new(), String::new(), "exit status: 0")
                    },
                    |m| parse_tlp_mode(m.tlp_stat.as_deref().unwrap_or("")),
                )
            }
            Step::AutoCpufreq(force) => self.force(force),
            Step::EnergyPreference(hint) => {
                let writes: Vec<Result<(), String>> = self
                    .hints
                    .iter_mut()
                    .map(|held| {
                        *held = hint.to_string();
                        Ok(())
                    })
                    .collect();
                write_all_cpus(&writes)
            }
        }
    }

    fn force(&mut self, force: &str) -> Result<usize, String> {
        let arg = force_arg(force);
        self.confirm(
            "auto-cpufreq",
            &forced_state(force),
            |m| {
                let asked = arg.strip_prefix("--force=").unwrap().to_string();
                m.force_requests.push(asked.clone());
                m.forced = if asked == "reset" { None } else { Some(asked) };
                Ok(())
            },
            |m| Some(m.forced.clone().unwrap_or_else(|| "default".to_string())),
        )
    }

    fn knobs(&self) -> Knobs {
        Knobs {
            platform_profile: self.profile.clone(),
            energy_preference: Some(self.hints[0].clone()),
            turbo: self.read_turbo(),
            limits: read(&self.paths(), &self.zone()),
        }
    }

    fn hardware_profile(&self) -> String {
        self.profile.clone().expect("the machine has a platform profile")
    }

    fn saved_config(&self) -> PowerConfig {
        self.disk.unwrap_or(wants_os_profile())
    }

    /// Starts the daemon: a module over this machine's own settings.
    fn boot(&mut self) -> Daemon {
        let found = pyren::power::backend::current_mode(&self.backend());
        let observed = read(&self.paths(), &self.zone());
        let module = PowerModule::with_store(
            self.saved_config(),
            observed,
            found,
            self.profile.clone(),
            self.now,
        );
        let mut daemon = Daemon { module };
        if let Some(mode) = daemon.module.restore_target(None) {
            let report = daemon.apply(self, mode);
            daemon.module.restored(mode, &report, self.now);
        }
        daemon
    }
}

/// The settings of a machine whose user lets the modes move the OS profile.
fn wants_os_profile() -> PowerConfig {
    PowerConfig { apply_to_os_profile: true, ..PowerConfig::default() }
}

struct Daemon {
    module: PowerModule,
}

impl Daemon {
    fn mode(&self) -> PowerMode {
        self.module.mode()
    }

    fn persist(&mut self, machine: &mut Machine) {
        if machine.disk_full {
            self.module.saved(Err("read-only file system".to_string()));
        } else {
            machine.disk = Some(self.module.config);
            self.module.saved(Ok(()));
        }
    }

    /// Applies a whole profile.
    fn apply(&mut self, machine: &mut Machine, mode: PowerMode) -> ApplyReport {
        let before = machine.backend();
        let (steps, problems) = plan(&before, mode, self.module.config.apply_to_os_profile);
        let mut outcomes = Vec::new();
        for step in &steps {
            let result = machine.carry_out(step);
            outcomes.push(StepOutcome { result, hint: Some(machine.hints[0].clone()) });
        }
        let backend = apply(&steps, problems, &outcomes, machine.profile.clone());
        let envelope = self.apply_envelope(machine, mode);
        apply_profile(backend, envelope)
    }

    fn apply_envelope(&mut self, machine: &mut Machine, mode: PowerMode) -> ApplyReport {
        let mut done = EnvelopeDone {
            applied: Vec::new(),
            failed: Vec::new(),
            limits: machine.limits,
            turbo: None,
            turbo_now: machine.read_turbo(),
        };
        if let Some((target, turbo)) = self.module.envelope_for(mode) {
            let paths = machine.paths();
            let mut run = LimitRun::begin(&paths, &machine.zone(), target);
            while let Some(write) = run.next(&machine.zone()) {
                let limit = match write.which {
                    0 => &mut machine.limits.pl1_uw,
                    1 => &mut machine.limits.pl2_uw,
                    _ => &mut machine.limits.pl4_uw,
                };
                *limit = Some(write.value);
                run.record(write, Written::ReadBack(Some(write.value)));
            }
            done.applied = run.applied;
            done.failed = run.failed;
            done.limits = read(&paths, &machine.zone());
            if let Some(value) = turbo_write(&paths, machine.read_turbo(), turbo) {
                machine.no_turbo = value.to_string();
                done.turbo = Some(turbo_outcome(turbo, Ok(()), machine.read_turbo()));
            }
            done.turbo_now = machine.read_turbo();
        }
        self.module.apply_envelope(mode, done)
    }

    /// Sets a mode the way the app's button does.
    fn try_set(&mut self, machine: &mut Machine, mode: PowerMode) -> Result<ApplyReport, ModuleError> {
        let mut params = serde_json::Map::new();
        params.insert("mode".to_string(), Value::from(mode.as_str()));
        let asked = match route("setMode", &Value::Object(params))? {
            Call::SetMode(mode) => mode,
            other => panic!("{other:?}"),
        };
        let report = self.apply(machine, asked);
        self.module.pick(asked, &report, machine.now);
        self.persist(machine);
        set_mode_reply(&report)?;
        Ok(report)
    }

    fn cycle(&mut self, machine: &mut Machine) -> Cycled {
        let next = self.module.next_mode();
        let report = self.apply(machine, next);
        let cycled = self.module.cycle(report, machine.now);
        self.persist(machine);
        cycled
    }

    fn set_apply_to_os_profile(&mut self, machine: &mut Machine, enabled: bool) {
        let release = self.module.set_apply_to_os_profile(enabled);
        self.persist(machine);
        if release {
            if let Some(step) = release_auto_cpufreq(&machine.backend()) {
                machine.carry_out(&step).unwrap();
            }
        }
        let mode = self.mode();
        let report = self.apply(machine, mode);
        self.module.reapply(true, &report, machine.now);
        self.persist(machine);
    }

    fn tune(&mut self, machine: &mut Machine, mode: PowerMode, pl1: Option<f64>, pl2: Option<f64>, turbo: Option<bool>) {
        let watts = |w: Option<f64>| match w {
            Some(w) => Watts::Given(Some(millionths(w))),
            None => Watts::Absent,
        };
        let request = TuningRequest {
            mode: ModeField::Given(mode),
            pl1: watts(pl1),
            pl2: watts(pl2),
            turbo: turbo.map_or(TurboField::Absent, TurboField::Given),
        };
        let tuned = self.module.set_tuning(&request, None).expect("the tuning is in order");
        self.persist(machine);
        if tuned == (Tuned::Stored { applies_now: true }) {
            let report = self.apply(machine, mode);
            self.module.reapply(false, &report, machine.now);
            self.persist(machine);
        }
    }

    fn restore_on_start(&mut self, machine: &mut Machine) {
        self.module.set_restore_on_start(true);
        self.persist(machine);
    }

    /// One look at the machine.
    fn check_external(&mut self, machine: &mut Machine) -> Option<PowerMode> {
        let looked = self.module.check_external(&machine.knobs(), machine.now);
        let (mode, profile) = looked.adopt?;
        let envelope = self.apply_envelope(machine, mode);
        self.module.follow(mode, profile, envelope, machine.now);
        self.persist(machine);
        Some(mode)
    }
}

fn set(daemon: &mut Daemon, machine: &mut Machine, mode: PowerMode) -> ApplyReport {
    daemon
        .try_set(machine, mode)
        .unwrap_or_else(|e| panic!("setMode {mode:?} should have been applied: {e:?}"))
}

/// What the machine's two profiles should read for each mode, on a laptop
/// offering `low-power balanced performance`.
fn expected(mode: PowerMode) -> (&'static str, &'static str) {
    match mode {
        PowerMode::Eco => ("low-power", "power-saver"),
        PowerMode::Balanced => ("balanced", "balanced"),
        PowerMode::Performance => ("performance", "performance"),
        PowerMode::Unlimited => ("performance", "performance"),
    }
}

// --- switching between the four ------------------------------------------

/// Picking a mode moves the laptop's own profile and the OS's.
#[test]
fn every_mode_moves_both_the_hardware_profile_and_the_os_profile() {
    let mut machine = Machine::new();
    let mut daemon = machine.boot();

    for mode in PowerMode::all() {
        let report = set(&mut daemon, &mut machine, mode);
        let (hardware, os) = expected(mode);

        assert_eq!(machine.hardware_profile(), hardware, "{mode:?}: the laptop's own profile");
        assert_eq!(machine.os_profile, os, "{mode:?}: the OS profile");
        assert_eq!(daemon.mode(), mode, "{mode:?}: the daemon agrees with the machine");
        assert!(report.applied.contains(&format!("platform_profile={hardware}")));
        assert!(report.applied.contains(&format!("power-profiles-daemon={os}")));
        assert!(report.failed.is_empty(), "{mode:?} should have nothing to complain about");
    }
}

#[test]
fn unlimited_differs_from_performance_only_in_the_envelope() {
    let mut machine = Machine::new();
    let mut daemon = machine.boot();

    daemon.tune(&mut machine, PowerMode::Performance, Some(55.0), Some(65.0), None);

    set(&mut daemon, &mut machine, PowerMode::Performance);
    // 71 % of 77 W, not 55 W exactly: the envelope is stored as a whole
    // percentage, and one percent of this machine is 0.77 W.
    assert_eq!(machine.limits.pl1_uw, Some(54_670_000), "capped near where it was told");
    assert!(
        (machine.limits.pl1_uw.unwrap() as i64 - 55 * W as i64).abs() <= STOCK_PL1 as i64 / 100,
        "and never further out than the one percent that quantisation costs"
    );

    set(&mut daemon, &mut machine, PowerMode::Unlimited);
    assert_eq!(machine.hardware_profile(), "performance", "the firmware sees no difference");
    assert_eq!(machine.os_profile, "performance", "nor does the desktop");
    assert_eq!(machine.limits.pl1_uw, Some(STOCK_PL1), "Unlimited is the whole envelope back");
}

#[test]
fn cycling_the_four_modes_for_twenty_rounds_lands_in_the_same_place_every_time() {
    let mut machine = Machine::new();
    let mut daemon = machine.boot();

    let mut visited = Vec::new();
    for round in 0..20 {
        for mode in PowerMode::all() {
            set(&mut daemon, &mut machine, mode);
            let (hardware, os) = expected(mode);
            assert_eq!(machine.hardware_profile(), hardware, "round {round}, {mode:?}");
            assert_eq!(machine.os_profile, os, "round {round}, {mode:?}");
            assert_eq!(machine.limits, stock(), "round {round}, {mode:?}: envelope untouched");
            visited.push(mode);
        }
    }

    assert_eq!(visited.len(), 80);
    assert_eq!(daemon.mode(), PowerMode::Unlimited, "it ends where the last round left it");
    assert_eq!(machine.saved_config().stock_limits, Some(stock()));
}

#[test]
fn four_presses_of_the_performance_key_return_to_the_starting_mode() {
    let mut machine = Machine::new();
    let mut daemon = machine.boot();
    set(&mut daemon, &mut machine, PowerMode::Eco);

    let mut seen = Vec::new();
    for _ in 0..4 {
        let cycled = daemon.cycle(&mut machine);
        assert!(cycled.changed(), "a press that applies nothing is a lie the widget would tell");
        assert_eq!(cycled.to, cycled.asked_for, "the machine went where the key asked");
        assert_eq!(machine.hardware_profile(), expected(cycled.to).0);
        seen.push(cycled.to);
    }

    assert_eq!(
        seen,
        vec![PowerMode::Balanced, PowerMode::Performance, PowerMode::Unlimited, PowerMode::Eco]
    );
    assert_eq!(machine.os_profile, "power-saver", "back to Eco, and the OS knows");
}

#[test]
fn declining_the_os_profile_still_moves_the_laptops_own() {
    let mut machine = Machine::new();
    let mut daemon = machine.boot();
    set(&mut daemon, &mut machine, PowerMode::Balanced);

    daemon.set_apply_to_os_profile(&mut machine, false);
    let before = machine.os_requests.len();

    for mode in PowerMode::all() {
        set(&mut daemon, &mut machine, mode);
        assert_eq!(machine.hardware_profile(), expected(mode).0, "{mode:?}: firmware still moves");
    }

    assert_eq!(
        machine.os_requests.len(),
        before,
        "not one OS profile was asked for while the switch was off"
    );
    assert_eq!(machine.os_profile, "balanced", "the desktop was left where it was");

    // ...and turning it back on catches the OS up at once.
    daemon.set_apply_to_os_profile(&mut machine, true);
    assert_eq!(machine.os_profile, "performance", "Unlimited's OS profile, applied on the spot");
}

#[test]
fn a_mode_that_could_not_be_applied_anywhere_is_an_error_not_a_silent_no_op() {
    let mut machine = Machine { profile: None, choices: None, ..Machine::new() };
    let mut daemon = machine.boot();
    set(&mut daemon, &mut machine, PowerMode::Eco);
    assert_eq!(machine.os_profile, "power-saver", "the OS half is the whole answer here");

    daemon.set_apply_to_os_profile(&mut machine, false);
    let before = daemon.mode();

    let refused = daemon.try_set(&mut machine, PowerMode::Performance);
    assert!(refused.is_err(), "nothing to apply must not report success");
    assert_eq!(daemon.mode(), before, "and the mode must not move on a machine that did not");
}

// --- closing the app, and restarting the daemon --------------------------

/// The app is a client: its going away is invisible to the machine.
#[test]
fn closing_the_app_leaves_the_machine_in_the_mode_it_was_put_in() {
    let mut machine = Machine::new();
    let mut daemon = machine.boot();
    {
        let app = &mut daemon;
        set(app, &mut machine, PowerMode::Eco);
        assert_eq!(machine.hardware_profile(), "low-power");
    }

    assert_eq!(machine.hardware_profile(), "low-power", "the firmware profile is still Eco's");
    assert_eq!(machine.os_profile, "power-saver", "and so is the OS's");
    assert_eq!(daemon.mode(), PowerMode::Eco, "the daemon did not notice and had no reason to");
    assert_eq!(machine.backend().platform_profile.as_deref(), Some("low-power"));
}

#[test]
fn the_supervisor_keeps_working_after_the_app_is_gone() {
    let mut machine = Machine::new();
    let mut daemon = machine.boot();
    set(&mut daemon, &mut machine, PowerMode::Balanced);

    let switches = run_minutes(&mut daemon, &mut machine, 15, &busy_on_mains());

    assert!(!switches.is_empty(), "a machine under sustained load should have been stepped up");
    assert_eq!(daemon.mode(), PowerMode::Performance);
    assert_eq!(machine.hardware_profile(), "performance", "with nobody watching, on its own");
}

#[test]
fn a_daemon_restart_leaves_the_machine_alone_unless_asked_to_restore() {
    let mut machine = Machine::new();
    let mut first = machine.boot();
    set(&mut first, &mut machine, PowerMode::Eco);

    // Something moved it while the daemon was not running.
    machine.profile = Some("performance".to_string());
    machine.os_profile = "performance".to_string();

    let restarted = machine.boot();

    assert_eq!(machine.hardware_profile(), "performance", "the daemon did not overrule the machine");
    assert_eq!(
        restarted.mode(),
        PowerMode::Performance,
        "and it reports what it found, not what it remembered"
    );
    assert_eq!(machine.saved_config().mode, Some(PowerMode::Eco), "the memory is still there");
}

#[test]
fn restore_on_start_puts_the_whole_profile_back() {
    let mut machine = Machine::new();
    let mut first = machine.boot();

    first.tune(&mut machine, PowerMode::Eco, Some(34.0), None, Some(false));
    first.restore_on_start(&mut machine);
    set(&mut first, &mut machine, PowerMode::Eco);

    let capped = machine.limits.pl1_uw.expect("Eco capped the package");
    assert!(capped < STOCK_PL1, "Eco's envelope is smaller than the machine's");
    assert_eq!(machine.no_turbo, "1", "and it turned turbo off");

    // The machine comes up in whatever the firmware defaults to.
    machine.profile = Some("balanced".to_string());
    machine.os_profile = "balanced".to_string();
    machine.limits = stock();
    machine.no_turbo = "0".to_string();

    let restarted = machine.boot();

    assert_eq!(restarted.mode(), PowerMode::Eco);
    assert_eq!(machine.hardware_profile(), "low-power", "the laptop's own profile is back");
    assert_eq!(machine.os_profile, "power-saver", "the OS profile is back");
    assert_eq!(machine.limits.pl1_uw, Some(capped), "and so is the envelope, to the watt");
    assert_eq!(machine.no_turbo, "1", "turbo included");
}

/// The ratchet, end to end and across five restarts.
#[test]
fn restarting_while_capped_never_lowers_the_machines_recorded_ceiling() {
    let mut machine = Machine::new();
    let mut first = machine.boot();
    first.tune(&mut machine, PowerMode::Eco, Some(30.0), Some(30.0), None);
    first.restore_on_start(&mut machine);
    set(&mut first, &mut machine, PowerMode::Eco);

    let capped = machine.limits;
    assert!(capped.pl1_uw.unwrap() < STOCK_PL1);

    for boot in 0..5 {
        let daemon = machine.boot();
        assert_eq!(
            machine.saved_config().stock_limits,
            Some(stock()),
            "boot {boot}: the ceiling is still the firmware's"
        );
        assert_eq!(daemon.mode(), PowerMode::Eco, "boot {boot}");
        assert_eq!(machine.limits, capped, "boot {boot}: and Eco still means the same watts");
    }

    // Coming back out of Eco returns the whole envelope, five boots later.
    let mut daemon = machine.boot();
    set(&mut daemon, &mut machine, PowerMode::Unlimited);
    assert_eq!(machine.limits, stock(), "nothing was lost along the way");
}

#[test]
fn a_firmware_that_raises_its_limits_raises_the_recorded_ceiling() {
    let mut machine = Machine::new();
    let mut first = machine.boot();
    assert_eq!(first.module.config.stock_limits, Some(stock()));
    set(&mut first, &mut machine, PowerMode::Balanced);
    assert_eq!(machine.saved_config().stock_limits, Some(stock()));

    machine.limits =
        Limits { pl1_uw: Some(90 * W), pl2_uw: Some(90 * W), pl4_uw: Some(200 * W) };
    let mut second = machine.boot();
    set(&mut second, &mut machine, PowerMode::Balanced);

    let recorded = machine.saved_config().stock_limits.expect("a ceiling");
    assert_eq!(recorded.pl1_uw, Some(90 * W), "the firmware's word is final upwards");
    // A PL4 on file that is below the machine's own gives way to it.
    assert_eq!(recorded.pl4_uw, Some(200 * W));
}

/// The ceiling is worked out at startup, and only written when something else
/// causes a save.
#[test]
fn the_recorded_ceiling_only_reaches_disk_once_something_is_saved() {
    let mut machine = Machine::new();

    let quiet = machine.boot();
    assert_eq!(quiet.module.config.stock_limits, Some(stock()));
    assert_eq!(machine.saved_config().stock_limits, None, "nothing asked, nothing written");

    let mut asked = machine.boot();
    set(&mut asked, &mut machine, PowerMode::Balanced);
    assert_eq!(machine.saved_config().stock_limits, Some(stock()), "one mode change commits it");
}

/// A daemon that cannot write its config has still changed the machine.
#[test]
fn a_mode_that_could_not_be_saved_is_still_applied_and_says_so() {
    let mut machine = Machine::new();
    let mut daemon = machine.boot();
    set(&mut daemon, &mut machine, PowerMode::Balanced);

    machine.disk_full = true;
    set(&mut daemon, &mut machine, PowerMode::Eco);
    assert_eq!(machine.hardware_profile(), "low-power", "the machine changed anyway");
    assert!(
        daemon.module.last_save_error.is_some(),
        "and the daemon admits the setting will not survive a restart"
    );
}

// --- how it evolves over minutes -----------------------------------------

/// Ten-second ticks, as the default interval is.
const TICKS_PER_MINUTE: u64 = 6;

fn supervising() -> AutoConfig {
    AutoConfig { enabled: true, ..AutoConfig::default() }
}

/// Conditions at a given minute.
type Conditions = dyn Fn(f64) -> AutoInputs;

fn conditions(on_battery: Option<bool>, load: f64, battery: Option<f64>, temp: f64) -> AutoInputs {
    AutoInputs {
        on_battery,
        load_ratio: millionths(load),
        battery_percent: battery.map(millionths),
        temp_c: Some(millionths(temp)),
    }
}

fn busy_on_mains() -> Box<Conditions> {
    Box::new(|_minute| conditions(Some(false), 0.95, None, 62.0))
}

/// Runs `minutes` of supervision and returns every switch it made, with the
/// minute it happened at.
fn run_minutes(
    daemon: &mut Daemon,
    machine: &mut Machine,
    minutes: u64,
    weather: &Conditions,
) -> Vec<(f64, PowerMode)> {
    run_minutes_with(&supervising(), daemon, machine, minutes, weather)
}

fn run_minutes_with(
    config: &AutoConfig,
    daemon: &mut Daemon,
    machine: &mut Machine,
    minutes: u64,
    weather: &Conditions,
) -> Vec<(f64, PowerMode)> {
    let mut switcher = AutoSwitcher::default();
    let mut switches = Vec::new();

    for tick in 0..minutes * TICKS_PER_MINUTE {
        let minute = tick as f64 / TICKS_PER_MINUTE as f64;
        let decision = switcher.observe(weather(minute), config, daemon.mode());

        if let Some(decision) = decision {
            let mode = decision.mode;
            set(daemon, machine, mode);
            switches.push((minute, mode));
        }

        let mode = daemon.mode();
        assert_eq!(
            machine.hardware_profile(),
            expected(mode).0,
            "minute {minute}: the machine is not in the mode the daemon thinks it is"
        );
    }

    switches
}

#[test]
fn half_an_hour_under_sustained_load_produces_exactly_one_switch() {
    let mut machine = Machine::new();
    let mut daemon = machine.boot();
    set(&mut daemon, &mut machine, PowerMode::Balanced);

    let switches = run_minutes(&mut daemon, &mut machine, 30, &busy_on_mains());

    assert_eq!(switches.len(), 1, "it settled and stayed settled, made {switches:?}");
    assert_eq!(switches[0].1, PowerMode::Performance);
    assert!(
        switches[0].0 <= 1.0,
        "and it did not take a minute to notice: switched at minute {}",
        switches[0].0
    );
    assert_eq!(machine.os_profile, "performance");
}

#[test]
fn twenty_minutes_of_borderline_load_never_moves_the_machine() {
    let mut machine = Machine::new();
    let mut daemon = machine.boot();
    set(&mut daemon, &mut machine, PowerMode::Balanced);
    let prefers_balanced =
        AutoConfig { preferred_on_mains: PowerMode::Balanced, ..supervising() };

    let switches =
        run_minutes_with(&prefers_balanced, &mut daemon, &mut machine, 20, &borderline());

    assert!(switches.is_empty(), "the dead band exists for exactly this, made {switches:?}");
    assert_eq!(machine.hardware_profile(), "balanced");
    assert_eq!(machine.os_requests.last().map(String::as_str), Some("balanced"));
}

/// Straddling the middle of the dead band (0.50) once a minute.
fn borderline() -> Box<Conditions> {
    Box::new(|minute| {
        conditions(Some(false), if (minute as u64) % 2 == 0 { 0.45 } else { 0.55 }, None, 60.0)
    })
}

#[test]
fn borderline_load_off_the_preferred_mode_goes_home_once_and_stays() {
    let mut machine = Machine::new();
    let mut daemon = machine.boot();
    set(&mut daemon, &mut machine, PowerMode::Balanced);

    let switches = run_minutes(&mut daemon, &mut machine, 20, &borderline());

    assert_eq!(
        switches.iter().map(|(_, mode)| *mode).collect::<Vec<_>>(),
        vec![PowerMode::Performance],
        "one move to the mains preference and no flapping after it: {switches:?}"
    );
}

/// An afternoon: idle on mains, then a long build, then the chassis heats up,
/// then somebody unplugs it and the battery runs down.
#[test]
fn forty_minutes_of_a_realistic_afternoon_ends_in_eco_without_thrashing() {
    let mut machine = Machine::new();
    let mut daemon = machine.boot();
    set(&mut daemon, &mut machine, PowerMode::Balanced);

    let afternoon: Box<Conditions> = Box::new(|minute| match minute as u64 {
        // Idle, plugged in.
        0..=4 => conditions(Some(false), 0.10, None, 45.0),
        // A build starts.
        5..=14 => conditions(Some(false), 0.95, None, 68.0),
        // ...and the chassis catches up with it. Past temp_high_c (85).
        15..=24 => conditions(Some(false), 0.95, None, 89.0),
        // Unplugged, still warm - the latch does not clear until 75.
        25..=29 => conditions(Some(true), 0.90, Some(80.0), 82.0),
        // Cooled off, and the battery is going.
        _ => conditions(Some(true), 0.40, Some(18.0), 60.0),
    });

    let switches = run_minutes(&mut daemon, &mut machine, 40, &afternoon);
    let modes: Vec<PowerMode> = switches.iter().map(|(_, mode)| *mode).collect();

    assert_eq!(daemon.mode(), PowerMode::Eco, "a warm laptop on a low battery ends in Eco");
    assert_eq!(machine.hardware_profile(), "low-power");
    assert_eq!(machine.os_profile, "power-saver");

    assert!(
        modes.contains(&PowerMode::Performance),
        "the build should have been given the machine: {switches:?}"
    );
    assert!(
        switches.len() <= 4,
        "forty minutes and four distinct events should not need more than four switches: {switches:?}"
    );
    assert!(!modes.contains(&PowerMode::Unlimited), "Unlimited is the user's own choice");
}

#[test]
fn unplugging_mid_run_is_answered_immediately_and_the_machine_follows() {
    let mut machine = Machine::new();
    let mut daemon = machine.boot();
    set(&mut daemon, &mut machine, PowerMode::Performance);

    let unplug_at_five: Box<Conditions> =
        Box::new(|minute| conditions(Some(minute >= 5.0), 0.95, Some(90.0), 60.0));

    let switches = run_minutes(&mut daemon, &mut machine, 10, &unplug_at_five);

    let unplug = switches
        .iter()
        .find(|(_, mode)| *mode == PowerMode::Eco)
        .expect("unplugging a machine in Performance should drop it to the battery preference");
    assert!(
        (unplug.0 - 5.0).abs() < 0.2,
        "within a tick of the cable coming out, not three samples later: minute {}",
        unplug.0
    );
    // Still busy, so it earns Balanced back - but on battery load can
    // never reach Performance again.
    assert_eq!(daemon.mode(), PowerMode::Balanced, "the battery range tops out at Balanced");
    assert_eq!(machine.hardware_profile(), "balanced");
    assert!(!switches.iter().any(|(minute, mode)| *minute > 5.0 && *mode == PowerMode::Performance));
}

#[test]
fn a_mode_picked_by_hand_is_reported_as_the_supervisors_baseline() {
    let mut machine = Machine::new();
    let mut daemon = machine.boot();

    set(&mut daemon, &mut machine, PowerMode::Balanced);
    assert_eq!(daemon.module.manual_baseline(None), Some(PowerMode::Balanced));

    // Balanced -> Performance -> Unlimited, one key press at a time.
    daemon.cycle(&mut machine);
    let pressed = daemon.cycle(&mut machine);
    assert_eq!(pressed.to, PowerMode::Unlimited);
    assert_eq!(
        daemon.module.manual_baseline(None),
        Some(PowerMode::Unlimited),
        "a key press is the user choosing"
    );
}

// --- the firmware's names ------------------------------------------------

#[test]
fn a_firmware_that_spells_eco_cool_gets_the_same_four_modes() {
    let mut machine = Machine {
        choices: Some("cool balanced performance".to_string()),
        profile: Some("cool".to_string()),
        ..Machine::new()
    };
    let mut daemon = machine.boot();

    let on_this_firmware = |mode: PowerMode| match mode {
        PowerMode::Eco => "cool",
        PowerMode::Balanced => "balanced",
        PowerMode::Performance | PowerMode::Unlimited => "performance",
    };

    for mode in PowerMode::all() {
        set(&mut daemon, &mut machine, mode);
        assert_eq!(machine.hardware_profile(), on_this_firmware(mode), "{mode:?}");
        assert_eq!(machine.os_profile, expected(mode).1, "{mode:?}: the OS half is unaffected");
    }

    set(&mut daemon, &mut machine, PowerMode::Performance);
    let performance = machine.hardware_profile();
    set(&mut daemon, &mut machine, PowerMode::Unlimited);
    assert_eq!(machine.hardware_profile(), performance);
}

#[test]
fn a_firmware_with_unknown_names_is_reported_not_ignored() {
    let mut machine = Machine {
        choices: Some("custom vendor-tuned".to_string()),
        profile: Some("custom".to_string()),
        ..Machine::new()
    };
    let mut daemon = machine.boot();

    let report = set(&mut daemon, &mut machine, PowerMode::Eco);

    assert_eq!(machine.hardware_profile(), "custom", "nothing was written blindly");
    assert_eq!(machine.os_profile, "power-saver", "the OS half still happened");
    assert!(
        report.failed.iter().any(|f| f.contains("platform_profile")),
        "the firmware half should say it had no name to use, said {:?}",
        report.failed
    );
}

// --- a service that races ------------------------------------------------

#[test]
fn pyrens_own_firmware_write_wins_even_when_ppd_writes_it_too() {
    let mut machine = Machine { service: Service::Racing("balanced"), ..Machine::new() };
    let mut daemon = machine.boot();

    for mode in PowerMode::all() {
        set(&mut daemon, &mut machine, mode);
        let (hardware, os) = expected(mode);
        assert_eq!(
            machine.hardware_profile(),
            hardware,
            "{mode:?}: pyren's own choice must survive ppd's side effect"
        );
        assert_eq!(machine.os_profile, os, "{mode:?}: the OS profile is still what was asked");
    }
}

#[test]
fn a_ppd_that_misses_once_is_retried_and_the_call_still_succeeds() {
    let mut machine = Machine { service: Service::Flaky, ..Machine::new() };
    let mut daemon = machine.boot();

    let report = set(&mut daemon, &mut machine, PowerMode::Eco);

    assert_eq!(machine.os_profile, "power-saver", "the retry got there in the end");
    assert!(
        report.applied.iter().any(|a| a == "power-profiles-daemon=power-saver"),
        "a recovered attempt is a success, not a footnote in failed: {:?}",
        report.applied
    );
    assert!(report.failed.is_empty(), "the caller never sees the first miss");
    assert_eq!(
        machine.os_requests.len(),
        2,
        "one miss and one retry, not a loop and not a single silent attempt"
    );
}

#[test]
fn a_permanently_wrong_ppd_is_given_up_on_and_reported_failed() {
    let mut machine = Machine { service: Service::Wrong("balanced"), ..Machine::new() };
    let mut daemon = machine.boot();

    let report = set(&mut daemon, &mut machine, PowerMode::Eco);

    assert_eq!(machine.hardware_profile(), "low-power", "the firmware half still works");
    assert!(
        report.failed.iter().any(|f| f.contains("power-saver") && f.contains("balanced")),
        "should say what was asked for and what it got instead, said {:?}",
        report.failed
    );
    assert!(
        !report.applied.iter().any(|a| a.starts_with("power-profiles-daemon")),
        "never claimed as applied: {:?}",
        report.applied
    );
    assert_eq!(machine.os_requests.len(), 2, "exactly two tries, not an unbounded retry loop");
}

// --- whichever power manager the OS runs ---------------------------------

#[test]
fn asking_about_the_os_profile_never_starts_a_power_manager() {
    let mut machine = Machine { service: Service::Silent, has_cli: true, ..Machine::new() };
    let mut daemon = machine.boot();

    machine.backend();
    let report = set(&mut daemon, &mut machine, PowerMode::Eco);

    assert_eq!(machine.cli_calls, 0, "powerprofilesctl would have started the service");
    assert!(!machine.bus_calls.is_empty(), "the bus was asked");
    assert!(
        machine.bus_calls.iter().all(|call| call.iter().any(|a| a == "--auto-start=no")),
        "every bus call must refuse to auto-start its destination: {:?}",
        machine.bus_calls
    );
    // With no manager at all, the hint is the OS half again.
    assert!(
        report.applied.iter().any(|a| a.starts_with("energy_performance_preference=power")),
        "{:?}",
        report.applied
    );
}

#[test]
fn without_busctl_the_profiles_api_is_reached_through_powerprofilesctl() {
    let mut machine = Machine { has_busctl: false, has_cli: true, ..Machine::new() };
    let mut daemon = machine.boot();

    for mode in PowerMode::all() {
        set(&mut daemon, &mut machine, mode);
        assert_eq!(machine.os_profile, expected(mode).1, "{mode:?}");
    }
}

#[test]
fn on_a_tlp_machine_every_mode_is_a_tlp_profile() {
    let mut machine = Machine::with_tlp("balanced");
    let mut daemon = machine.boot();

    let state = machine.backend();
    assert_eq!(state.tlp.as_deref(), Some("balanced"));
    assert!(state.available.contains(&"tlp".to_string()));

    for mode in PowerMode::all() {
        let report = set(&mut daemon, &mut machine, mode);
        let (hardware, os) = expected(mode);
        assert_eq!(machine.backend().tlp.as_deref(), Some(os), "{mode:?}: TLP's profile");
        assert_eq!(machine.hardware_profile(), hardware, "{mode:?}: the laptop's own");
        assert!(report.applied.contains(&format!("tlp={os}")), "{mode:?}: {:?}", report.applied);
        assert!(report.failed.is_empty(), "{mode:?}");
    }
    assert_eq!(machine.hints[0], "balance_performance", "the hint is TLP's to set");
}

#[test]
fn a_tlp_without_profiles_is_not_mistaken_for_one() {
    let mut machine =
        Machine { tlp_stat: Some("AC\n".to_string()), ..Machine::with_tlp("balanced") };
    let mut daemon = machine.boot();

    let report = set(&mut daemon, &mut machine, PowerMode::Eco);
    assert!(machine.tlp_requests.is_empty(), "an old TLP is never sent a profile");
    assert!(report.applied.iter().any(|a| a.starts_with("energy_performance_preference")));
}

#[test]
fn a_running_auto_cpufreq_is_forced_and_reset_with_the_modes() {
    let mut machine = Machine { auto_cpufreq_runs: true, ..Machine::with_tlp("balanced") };
    let mut daemon = machine.boot();
    assert!(machine.backend().auto_cpufreq);

    for (mode, force, state) in [
        (PowerMode::Eco, "powersave", "powersave"),
        (PowerMode::Balanced, "reset", "default"),
        (PowerMode::Performance, "performance", "performance"),
        (PowerMode::Unlimited, "performance", "performance"),
    ] {
        let report = set(&mut daemon, &mut machine, mode);
        let applied = &report.applied;
        assert!(applied.contains(&format!("auto-cpufreq={force}")), "{mode:?}: {applied:?}");
        assert!(applied.contains(&format!("tlp={}", expected(mode).1)), "{mode:?}: {applied:?}");
        assert_eq!(machine.forced.clone().unwrap_or_else(|| "default".into()), state, "{mode:?}");
    }
    assert_eq!(machine.hints[0], "balance_performance", "never written underneath auto-cpufreq");

    // Handing the OS profile back hands auto-cpufreq its own judgement back.
    daemon.set_apply_to_os_profile(&mut machine, false);
    assert_eq!(machine.forced, None);
}

#[test]
fn an_auto_cpufreq_that_is_not_running_is_left_alone() {
    let mut machine = Machine::new();
    let mut daemon = machine.boot();

    set(&mut daemon, &mut machine, PowerMode::Eco);
    assert!(machine.force_requests.is_empty());
    assert_eq!(machine.os_profile, "power-saver", "the profiles service is still asked");
}

// --- something else moves what the daemon set ----------------------------

#[test]
fn a_firmware_profile_moved_from_outside_is_followed() {
    let mut machine = Machine::new();
    let mut daemon = machine.boot();
    daemon.tune(&mut machine, PowerMode::Performance, Some(55.0), None, None);
    set(&mut daemon, &mut machine, PowerMode::Eco);
    let requests = machine.os_requests.len();

    machine.now += 2_000;
    machine.profile = Some("performance".to_string());
    assert_eq!(daemon.check_external(&mut machine), Some(PowerMode::Performance));

    assert_eq!(daemon.mode(), PowerMode::Performance);
    assert_eq!(machine.limits.pl1_uw, Some(54_670_000), "Performance's envelope came with it");
    assert_eq!(machine.hardware_profile(), "performance", "the outside choice is left standing");
    assert_eq!(machine.os_requests.len(), requests, "the OS profile is not pushed back");

    let external = daemon.module.last_external.as_ref().expect("the change is told");
    assert!(external.text.contains("performance"));
    // Seconds after the daemon's own write, so it also reads as a revert.
    assert_eq!(daemon.module.overrides[0].knob, "platform_profile");
    assert!(daemon.module.overrides[0].reverted);

    assert_eq!(daemon.check_external(&mut machine), None, "followed once, not on every look");
    assert_eq!(machine.saved_config().mode, Some(PowerMode::Performance), "and remembered");

    // The daemon's own next choice starts from a clean slate.
    set(&mut daemon, &mut machine, PowerMode::Balanced);
    assert!(daemon.module.overrides.is_empty());
    assert!(daemon.module.last_external.is_none());
}

#[test]
fn the_daemons_own_writes_are_never_taken_for_someone_elses() {
    let mut machine = Machine { service: Service::Racing("balanced"), ..Machine::new() };
    let mut daemon = machine.boot();

    for _ in 0..20 {
        for mode in PowerMode::all() {
            set(&mut daemon, &mut machine, mode);
            machine.now += 1_000;
            assert_eq!(daemon.check_external(&mut machine), None, "{mode:?}");
        }
    }
    assert!(daemon.module.overrides.is_empty());
}

#[test]
fn a_hint_changed_by_an_unknown_program_is_reported_and_not_rewritten() {
    let mut machine = Machine { has_busctl: false, ..Machine::new() };
    let mut daemon = machine.boot();
    set(&mut daemon, &mut machine, PowerMode::Eco);
    assert_eq!(machine.hints[0], "power");

    machine.hints[0] = "balance_performance".to_string();
    assert_eq!(
        daemon.check_external(&mut machine),
        None,
        "the hint says nothing about the mode"
    );
    daemon.check_external(&mut machine);

    assert_eq!(daemon.mode(), PowerMode::Eco);
    assert_eq!(machine.hints[0], "balance_performance", "not fought over");
    assert_eq!(daemon.module.overrides.len(), 1, "one entry however many looks");
    let finding = &daemon.module.overrides[0];
    assert_eq!(finding.knob, "energy_performance_preference");
    assert_eq!(finding.expected, "power");
    assert_eq!(finding.found, "balance_performance");
    assert!(finding.reverted);
}

#[test]
fn the_watcher_follows_the_machine_with_nobody_asking() {
    let mut machine = Machine::new();
    let mut daemon = machine.boot();
    set(&mut daemon, &mut machine, PowerMode::Eco);

    machine.profile = Some("balanced".to_string());
    machine.now += 1_000;
    daemon.check_external(&mut machine);
    assert_eq!(daemon.mode(), PowerMode::Balanced, "followed at the next look");
}
