//! What the module remembers, and how every request changes it.
use vstd::prelude::*;
use vstd::string::*;

use crate::error::ErrorKind;
use crate::error::ErrorView;
use crate::error::ModuleError;
use crate::error::Wording;
use crate::error::WordingView;
use crate::msg;
use crate::msg::Msg;
use crate::msg::MsgView;
use crate::overclock::hardware;
use crate::overclock::plan;
use crate::overclock::plan::Clamped;
use crate::overclock::plan::Target;
use crate::overclock::probe;
use crate::overclock::probe::GpuProbe;
use crate::overclock::probe::GpuView;
use crate::overclock::probe::Probe;
use crate::overclock::request;
use crate::overclock::request::ApplyRequest;
use crate::overclock::request::ApplyView;
use crate::overclock::request::Field;
use crate::overclock::request::HoldField;
use crate::overclock::request::LockField;
use crate::overclock::targets::Entry;
use crate::overclock::targets::TargetMap;
use crate::text;

verus! {

/// Shown before anything can be applied, and served with the state so that the
/// warning a user agreed to is this one.
pub const CONSENT: &'static str = "Overclocking runs this GPU outside the settings it was shipped with. An offset that survives a benchmark can still hang the machine in a game, and when it does there is no error message: the screen stops, and anything unsaved is gone. Nothing here is covered by the manufacturer's warranty. Every change is reverted automatically unless you confirm it, and none is restored after a reboot unless you ask for that separately.";

/// A stored acceptance of other words than [`CONSENT`] does not count.
pub const CONSENT_VERSION: u32 = 1;

/// How long an applied offset waits to be confirmed before it is undone.
pub const DEFAULT_HOLD_SECS: u64 = 20;

pub const MIN_HOLD_SECS: u64 = 5;

pub const MAX_HOLD_SECS: u64 = 300;

#[derive(Debug, Clone, Copy, PartialEq, Eq, Structural)]
pub struct Consent {
    /// Seconds since the epoch.
    pub accepted_at: u64,
    pub version: u32,
}

impl Consent {
    pub fn current(&self) -> (r: bool)
        ensures
            r == (self.version == CONSENT_VERSION),
    {
        self.version == CONSENT_VERSION
    }
}

pub open spec fn consented(consent: Option<Consent>) -> bool {
    consent matches Some(c) && c.version == CONSENT_VERSION
}

fn is_consented(consent: Option<Consent>) -> (r: bool)
    ensures
        r == consented(consent),
{
    match consent {
        Some(c) => c.current(),
        None => false,
    }
}

/// What is kept across restarts.
#[derive(Debug, Clone)]
pub struct OverclockConfig {
    pub consent: Option<Consent>,
    /// Per card, the last target a human confirmed.
    pub targets: TargetMap,
    pub restore_on_start: bool,
    /// Set while an apply is waiting to be confirmed, cleared when it is.
    pub armed_gpu: Option<String>,
    pub hold_secs: Option<u64>,
}

#[verifier::ext_equal]
pub struct ConfigView {
    pub consent: Option<Consent>,
    pub targets: Map<Seq<char>, Target>,
    pub restore_on_start: bool,
    pub armed_gpu: Option<Seq<char>>,
    pub hold_secs: Option<u64>,
}

impl View for OverclockConfig {
    type V = ConfigView;

    open spec fn view(&self) -> ConfigView {
        ConfigView {
            consent: self.consent,
            targets: self.targets@,
            restore_on_start: self.restore_on_start,
            armed_gpu: text::opt_view(self.armed_gpu),
            hold_secs: self.hold_secs,
        }
    }
}

/// Stock, and no consent.
pub open spec fn default_config() -> ConfigView {
    ConfigView {
        consent: None,
        targets: Map::empty(),
        restore_on_start: false,
        armed_gpu: None,
        hold_secs: None,
    }
}

impl Default for OverclockConfig {
    fn default() -> (r: OverclockConfig)
        ensures
            r.targets.wf(),
            r@ == default_config(),
    {
        OverclockConfig {
            consent: None,
            targets: TargetMap::new(),
            restore_on_start: false,
            armed_gpu: None,
            hold_secs: None,
        }
    }
}

/// An applied change that has not been confirmed yet, and what it goes back to
/// when the clock runs out. Times are milliseconds of one steady clock.
#[derive(Debug, Clone)]
pub struct Pending {
    pub gpu: String,
    pub revert_to: Target,
    pub deadline: u64,
}

#[verifier::ext_equal]
pub struct PendingView {
    pub gpu: Seq<char>,
    pub revert_to: Target,
    pub deadline: int,
}

impl View for Pending {
    type V = PendingView;

    open spec fn view(&self) -> PendingView {
        PendingView {
            gpu: self.gpu@,
            revert_to: self.revert_to,
            deadline: self.deadline as int,
        }
    }
}

impl Pending {
    pub fn copy(&self) -> (r: Pending)
        ensures
            r@ == self@,
    {
        Pending { gpu: self.gpu.clone(), revert_to: self.revert_to, deadline: self.deadline }
    }
}

pub open spec fn opt_pending(p: Option<Pending>) -> Option<PendingView> {
    match p {
        Some(p) => Some(p@),
        None => None,
    }
}

/// What the module believes, between two requests.
pub struct OverclockModule {
    pub config: OverclockConfig,
    /// What was last written to each card. A card nobody asked to touch is
    /// absent, not zero.
    pub applied: TargetMap,
    pub pending: Option<Pending>,
    /// The index of the card whose fault signal is listened to: only while
    /// something is pending.
    pub fault_watch: Option<u32>,
    /// The configuration was still armed when the daemon started.
    pub unconfirmed_at_start: bool,
    /// What went wrong last, and what is worth saying; shown one behind the
    /// other.
    pub last_error: Vec<Msg>,
    pub last_note: Vec<Msg>,
    pub last_save_error: Option<String>,
}

#[verifier::ext_equal]
pub struct StateView {
    pub config: ConfigView,
    pub applied: Map<Seq<char>, Target>,
    pub pending: Option<PendingView>,
    pub fault_watch: Option<nat>,
    pub unconfirmed_at_start: bool,
    pub last_error: Seq<MsgView>,
    pub last_note: Seq<MsgView>,
    pub last_save_error: Option<Seq<char>>,
}

impl View for OverclockModule {
    type V = StateView;

    open spec fn view(&self) -> StateView {
        StateView {
            config: self.config@,
            applied: self.applied@,
            pending: opt_pending(self.pending),
            fault_watch: hardware::opt_nat(self.fault_watch),
            unconfirmed_at_start: self.unconfirmed_at_start,
            last_error: msg::says(self.last_error@),
            last_note: msg::says(self.last_note@),
            last_save_error: text::opt_view(self.last_save_error),
        }
    }
}

// --- the messages --------------------------------------------------------

pub open spec fn note_unconfirmed_at_start() -> MsgView {
    msg::message(
        "overclock.note.unconfirmedAtStart"@,
        seq![],
        "the last overclock was never confirmed, so this boot starts at stock and nothing was restored"@,
    )
}

pub open spec fn note_kept(gpu: Seq<char>) -> MsgView {
    msg::message("overclock.note.kept"@, seq![("gpu"@, gpu)], "kept the change to {gpu}"@)
}

pub open spec fn note_back_to_stock() -> MsgView {
    msg::message(
        "overclock.note.backToStock"@,
        seq![],
        "back to the clocks the firmware shipped"@,
    )
}

pub open spec fn note_nothing_to_undo() -> MsgView {
    msg::message(
        "overclock.note.nothingToUndo"@,
        seq![],
        "nothing to undo: this daemon has not moved these clocks"@,
    )
}

pub open spec fn err_not_consented() -> ErrorView {
    ErrorView::Localised(
        ErrorKind::InvalidParams,
        msg::message(
            "overclock.err.notConsented"@,
            seq![],
            "overclocking has not been consented to on this machine; call overclock.setConsent with the text from overclock.getState first"@,
        ),
    )
}

pub open spec fn err_pending(gpu: Seq<char>) -> ErrorView {
    ErrorView::Localised(
        ErrorKind::Busy,
        msg::message(
            "overclock.err.pending"@,
            seq![("gpu"@, gpu)],
            "the last change to {gpu} is still waiting to be confirmed or undone"@,
        ),
    )
}

pub open spec fn err_nothing_pending() -> ErrorView {
    ErrorView::Localised(
        ErrorKind::InvalidParams,
        msg::message(
            "overclock.err.nothingPending"@,
            seq![],
            "there is nothing waiting to be confirmed"@,
        ),
    )
}

pub open spec fn err_no_gpu(id: Seq<char>) -> ErrorView {
    ErrorView::InvalidParams("no GPU with id '"@ + id + "'"@)
}

pub open spec fn err_nothing_to_tune(detail: Seq<char>) -> ErrorView {
    ErrorView::Localised(
        ErrorKind::NotCapable,
        msg::message(
            "overclock.err.nothingToTune"@,
            seq![("detail"@, detail)],
            "nothing here can be tuned: {detail}"@,
        ),
    )
}

pub open spec fn err_gpu_gone(gpu: Seq<char>) -> ErrorView {
    ErrorView::Localised(
        ErrorKind::Failed,
        msg::message("overclock.err.gpuGone"@, seq![("gpu"@, gpu)], "{gpu} is gone"@),
    )
}

pub open spec fn err_could_not_undo(error: Seq<char>) -> MsgView {
    msg::message(
        "overclock.err.couldNotUndo"@,
        seq![("error"@, error)],
        "could not undo the overclock: {error}"@,
    )
}

pub open spec fn err_per_gpu(id: Seq<char>, error: Seq<char>) -> MsgView {
    msg::message(
        "overclock.err.perGpu"@,
        seq![("id"@, id), ("error"@, error)],
        "{id}: {error}"@,
    )
}

fn no_gpu(id: &str) -> (r: ModuleError)
    ensures
        r@ == err_no_gpu(id@),
{
    ModuleError::InvalidParams(String::from_str("no GPU with id '").concat(id).concat("'"))
}

fn nothing_pending() -> (r: ModuleError)
    ensures
        r@ == err_nothing_pending(),
{
    ModuleError::localised(
        ErrorKind::InvalidParams,
        Msg::plain("overclock.err.nothingPending", "there is nothing waiting to be confirmed"),
    )
}

/// The refusal of a revert on a card that is no longer there.
pub fn gpu_gone(gpu: &str) -> (r: ModuleError)
    ensures
        r@ == err_gpu_gone(gpu@),
{
    ModuleError::localised(
        ErrorKind::Failed,
        Msg::new(
            "overclock.err.gpuGone",
            msg::one(msg::param("gpu", String::from_str(gpu))),
            "{gpu} is gone",
        ),
    )
}

/// Why a pending change is being undone; it decides the note that is shown.
#[derive(Debug, Clone, Copy, PartialEq, Eq, Structural)]
pub enum RevertReason {
    /// The confirm window ran out.
    NotConfirmed,
    /// The user pressed "undo".
    Undone,
    /// The driver said the card faulted while the change was still waiting.
    FaultReported,
}

impl RevertReason {
    pub open spec fn said(self, gpu: Seq<char>) -> MsgView {
        match self {
            RevertReason::NotConfirmed => msg::message(
                "overclock.note.revertedUnconfirmed"@,
                seq![("gpu"@, gpu)],
                "the change to {gpu} was not confirmed, so it was undone"@,
            ),
            RevertReason::Undone => msg::message(
                "overclock.note.revertedUndone"@,
                seq![("gpu"@, gpu)],
                "the change to {gpu} was undone"@,
            ),
            RevertReason::FaultReported => msg::message(
                "overclock.note.revertedFault"@,
                seq![("gpu"@, gpu)],
                "the change to {gpu} was reverted: the driver reported a fault"@,
            ),
        }
    }

    pub fn note(self, gpu: &str) -> (r: Msg)
        ensures
            r@ == self.said(gpu@),
    {
        let params = msg::one(msg::param("gpu", String::from_str(gpu)));
        match self {
            RevertReason::NotConfirmed => Msg::new(
                "overclock.note.revertedUnconfirmed",
                params,
                "the change to {gpu} was not confirmed, so it was undone",
            ),
            RevertReason::Undone => Msg::new(
                "overclock.note.revertedUndone",
                params,
                "the change to {gpu} was undone",
            ),
            RevertReason::FaultReported => Msg::new(
                "overclock.note.revertedFault",
                params,
                "the change to {gpu} was reverted: the driver reported a fault",
            ),
        }
    }
}

/// What the watchdog does this tick. The deadline comes first: "you never
/// confirmed this" is the older, surer fact.
pub open spec fn tick(pending: Option<PendingView>, fault: bool, now: int) -> Option<RevertReason> {
    match pending {
        None => None,
        Some(p) => if now >= p.deadline {
            Some(RevertReason::NotConfirmed)
        } else if fault {
            Some(RevertReason::FaultReported)
        } else {
            None
        },
    }
}

pub fn watchdog_tick(pending: Option<&Pending>, fault: bool, now: u64) -> (r: Option<RevertReason>)
    ensures
        r == tick(
            match pending {
                Some(p) => Some(p@),
                None => None,
            },
            fault,
            now as int,
        ),
{
    match pending {
        None => None,
        Some(p) => if now >= p.deadline {
            Some(RevertReason::NotConfirmed)
        } else if fault {
            Some(RevertReason::FaultReported)
        } else {
            None
        },
    }
}

/// A hold that a person can react within.
pub open spec fn hold_within(secs: int) -> int {
    if secs < MIN_HOLD_SECS {
        MIN_HOLD_SECS as int
    } else if secs > MAX_HOLD_SECS {
        MAX_HOLD_SECS as int
    } else {
        secs
    }
}

fn clamp_hold(secs: u64) -> (r: u64)
    ensures
        r == hold_within(secs as int),
{
    if secs < MIN_HOLD_SECS {
        MIN_HOLD_SECS
    } else if secs > MAX_HOLD_SECS {
        MAX_HOLD_SECS
    } else {
        secs
    }
}

pub open spec fn configured_hold(config: ConfigView) -> int {
    hold_within(
        match config.hold_secs {
            Some(s) => s as int,
            None => DEFAULT_HOLD_SECS as int,
        },
    )
}

pub fn hold_secs(config: &OverclockConfig) -> (r: u64)
    ensures
        r == configured_hold(config@),
{
    match config.hold_secs {
        Some(s) => clamp_hold(s),
        None => clamp_hold(DEFAULT_HOLD_SECS),
    }
}

pub open spec fn requested_hold(config: ConfigView, hold: HoldField) -> Result<int, ErrorView> {
    match hold {
        HoldField::Absent => Ok(configured_hold(config)),
        HoldField::Invalid => Err(
            ErrorView::InvalidParams("holdSecs must be a whole number of seconds"@),
        ),
        HoldField::Value(secs) => Ok(hold_within(secs as int)),
    }
}

pub fn hold_from(config: &OverclockConfig, hold: HoldField) -> (r: Result<u64, ModuleError>)
    ensures
        (match r {
            Ok(secs) => Ok(secs as int),
            Err(e) => Err(e@),
        }) == requested_hold(config@, hold),
{
    match hold {
        HoldField::Absent => Ok(hold_secs(config)),
        HoldField::Invalid => Err(
            ModuleError::InvalidParams(
                String::from_str("holdSecs must be a whole number of seconds"),
            ),
        ),
        HoldField::Value(secs) => Ok(clamp_hold(secs)),
    }
}

/// The card a request names, or the default one.
pub open spec fn gpu_requested(gpus: Seq<GpuProbe>, detail: Seq<char>, id: Option<Seq<char>>) -> Result<
    GpuProbe,
    ErrorView,
> {
    match id {
        Some(id) => match probe::first_of_id(gpus, id) {
            Some(g) => Ok(g),
            None => Err(err_no_gpu(id)),
        },
        None => match probe::first_drivable(gpus) {
            Some(g) => Ok(g),
            None => Err(err_nothing_to_tune(detail)),
        },
    }
}

pub fn requested_gpu<'a>(probe: &'a Probe, id: &Option<String>) -> (r: Result<
    &'a GpuProbe,
    ModuleError,
>)
    ensures
        (match r {
            Ok(g) => Ok(*g),
            Err(e) => Err(e@),
        }) == gpu_requested(probe.gpus@, probe.detail@, text::opt_view(*id)),
{
    match id {
        Some(id) => match probe.gpu(id.as_str()) {
            Some(g) => Ok(g),
            None => Err(no_gpu(id.as_str())),
        },
        None => match probe.default_gpu() {
            Some(g) => Ok(g),
            None => Err(
                ModuleError::localised(
                    ErrorKind::NotCapable,
                    Msg::new(
                        "overclock.err.nothingToTune",
                        msg::one(msg::param("detail", probe.detail.clone())),
                        "nothing here can be tuned: {detail}",
                    ),
                ),
            ),
        },
    }
}

/// An apply that may go ahead.
pub struct Prepared {
    pub hold: u64,
    /// What is on the card now.
    pub from: Target,
    pub clamped: Clamped,
}

impl Prepared {
    /// Whether there is anything to do: asking for exactly what is already on
    /// the card is not a change.
    pub fn moves(&self) -> (r: bool)
        ensures
            r == (self.clamped.target != self.from),
    {
        self.clamped.target != self.from
    }
}

#[verifier::ext_equal]
pub struct PreparedView {
    pub gpu: GpuProbe,
    pub hold: int,
    pub from: Target,
    pub target: Target,
    pub notes: Seq<MsgView>,
}

/// A request that nothing speaks against, before it is cut down to what the
/// card takes.
#[verifier::ext_equal]
pub struct AdmittedView {
    pub gpu: GpuProbe,
    pub hold: int,
    pub from: Target,
    pub asked: Target,
}

pub open spec fn target_or_stock(m: Map<Seq<char>, Target>, gpu: Seq<char>) -> Target {
    if m.dom().contains(gpu) {
        m[gpu]
    } else {
        plan::stock()
    }
}

impl StateView {
    /// What a human agreed to keep on a card.
    pub open spec fn confirmed(self, gpu: Seq<char>) -> Target {
        target_or_stock(self.config.targets, gpu)
    }

    /// What is on a card now, falling back to what was confirmed for it, and
    /// to stock.
    pub open spec fn current(self, gpu: Seq<char>) -> Target {
        if self.applied.dom().contains(gpu) {
            self.applied[gpu]
        } else {
            self.confirmed(gpu)
        }
    }

    /// Whether every card that was written is at what was confirmed for it,
    /// but for the one that waits, which goes back to what was.
    pub open spec fn in_step(self) -> bool {
        &&& forall|gpu: Seq<char>| #[trigger]
            self.applied.dom().contains(gpu) && !(self.pending matches Some(p) && p.gpu == gpu)
                ==> self.applied[gpu] == self.confirmed(gpu)
        &&& self.pending matches Some(p) ==> p.revert_to == self.confirmed(p.gpu)
    }

    /// Whether an apply may go ahead: the first refusal that holds, or what is
    /// asked of which card. No range of any card is looked at.
    pub open spec fn admitted(
        self,
        gpus: Seq<GpuProbe>,
        detail: Seq<char>,
        request: ApplyView,
    ) -> Result<AdmittedView, ErrorView> {
        match gpu_requested(gpus, detail, request.gpu) {
            Err(e) => Err(e),
            Ok(gpu) => match requested_hold(self.config, request.hold) {
                Err(e) => Err(e),
                Ok(hold) => if !consented(self.config.consent) {
                    Err(err_not_consented())
                } else if self.pending is Some {
                    Err(err_pending(self.pending->0.gpu))
                } else if !gpu@.drivable() {
                    Err(
                        ErrorView::Localised(ErrorKind::NotCapable, msg::literal(gpu.detail@)),
                    )
                } else {
                    let from = self.current(gpu.id@);
                    match request::merged(from, request) {
                        Err(e) => Err(e),
                        Ok(asked) => Ok(AdmittedView { gpu, hold, from, asked }),
                    }
                },
            },
        }
    }

    /// What an apply would do: the first refusal that holds, or the target
    /// that would be written.
    pub open spec fn prepared(
        self,
        gpus: Seq<GpuProbe>,
        detail: Seq<char>,
        request: ApplyView,
    ) -> Result<PreparedView, ErrorView> {
        match self.admitted(gpus, detail, request) {
            Err(e) => Err(e),
            Ok(a) => Ok(
                PreparedView {
                    gpu: a.gpu,
                    hold: a.hold,
                    from: a.from,
                    target: plan::within(a.asked, a.gpu@.ceiling()),
                    notes: plan::clamp_notes(a.asked, a.gpu@.ceiling()),
                },
            ),
        }
    }

    /// The state after the warning was answered.
    pub open spec fn after_consent(self, accepted: bool, now_secs: u64) -> StateView {
        StateView {
            config: ConfigView {
                consent: if accepted {
                    Some(Consent { accepted_at: now_secs, version: CONSENT_VERSION })
                } else {
                    None
                },
                ..self.config
            },
            ..self
        }
    }

    /// Whether saved targets may be written when the daemon starts.
    pub open spec fn may_restore(self) -> bool {
        self.config.restore_on_start && !self.unconfirmed_at_start && consented(
            self.config.consent,
        )
    }

    /// What a reset does for a card: one that is not there is refused.
    pub open spec fn reset_step(self, gpus: Seq<GpuProbe>, id: Seq<char>) -> Result<
        ResetStep,
        ErrorView,
    > {
        if probe::first_of_id(gpus, id) is None {
            Err(err_no_gpu(id))
        } else if self.needs_undoing(id) {
            Ok(ResetStep::Write)
        } else {
            Ok(ResetStep::Clear)
        }
    }

    /// How long the change that waits may still be confirmed, in milliseconds.
    pub open spec fn left(self, now: int) -> Option<int> {
        match self.pending {
            Some(p) => Some(
                if p.deadline > now {
                    p.deadline - now
                } else {
                    0
                },
            ),
            None => None,
        }
    }

    /// The state after a climb to the target succeeded.
    pub open spec fn after_climb(
        self,
        gpu: GpuView,
        target: Target,
        notes: Seq<MsgView>,
        hold: int,
        now: int,
    ) -> StateView {
        let applied = self.applied.insert(gpu.id, target);
        let base = StateView {
            applied,
            last_error: seq![],
            last_note: notes,
            ..self
        };
        if target == plan::stock() {
            StateView {
                config: ConfigView {
                    targets: self.config.targets.insert(gpu.id, target),
                    armed_gpu: None,
                    ..self.config
                },
                ..base
            }
        } else {
            StateView {
                pending: Some(
                    PendingView {
                        gpu: gpu.id,
                        revert_to: self.confirmed(gpu.id),
                        deadline: now + hold * 1000,
                    },
                ),
                fault_watch: hardware::watched_index(gpu.vendor, gpu.id),
                config: ConfigView {
                    armed_gpu: Some(gpu.id),
                    hold_secs: Some(hold as u64),
                    ..self.config
                },
                ..base
            }
        }
    }

    /// The state after the pending change was kept.
    pub open spec fn after_confirm(self) -> StateView {
        let gpu = self.pending->0.gpu;
        StateView {
            pending: None,
            fault_watch: None,
            config: ConfigView {
                targets: self.config.targets.insert(gpu, target_or_stock(self.applied, gpu)),
                armed_gpu: None,
                ..self.config
            },
            last_note: seq![note_kept(gpu)],
            ..self
        }
    }

    /// The state after a pending change was undone, or could not be.
    pub open spec fn after_revert(
        self,
        pending: PendingView,
        reason: RevertReason,
        result: Result<(), ErrorView>,
        words: WordingView,
    ) -> StateView {
        let disarmed = StateView {
            pending: None,
            fault_watch: None,
            config: ConfigView { armed_gpu: None, ..self.config },
            ..self
        };
        match result {
            Ok(()) => StateView {
                applied: self.applied.insert(pending.gpu, pending.revert_to),
                last_note: seq![reason.said(pending.gpu)],
                ..disarmed
            },
            Err(e) => StateView {
                last_error: seq![err_could_not_undo(e.text(words))],
                ..disarmed
            },
        }
    }

    /// The state after one card went back to stock.
    pub open spec fn after_reset(self, gpu: Seq<char>) -> StateView {
        let cleared = StateView {
            applied: self.applied.insert(gpu, plan::stock()),
            config: ConfigView {
                targets: self.config.targets.insert(gpu, plan::stock()),
                ..self.config
            },
            ..self
        };
        if self.pending matches Some(p) && p.gpu == gpu {
            StateView {
                pending: None,
                fault_watch: None,
                config: ConfigView { armed_gpu: None, ..cleared.config },
                ..cleared
            }
        } else {
            cleared
        }
    }

    /// Whether going back to stock means writing anything to the card.
    pub open spec fn needs_undoing(self, gpu: Seq<char>) -> bool {
        self.applied.dom().contains(gpu) && self.applied[gpu] != plan::stock()
    }
}

/// Whether going back to stock means writing anything. `None` is a card that
/// was never written.
pub fn needs_undoing(applied: Option<Target>) -> (r: bool)
    ensures
        r == (applied matches Some(t) && t != plan::stock()),
{
    match applied {
        Some(t) => !t.is_stock(),
        None => false,
    }
}

/// What a daemon starts from, given the configuration that was stored. An
/// apply that was never confirmed means the machine stopped answering while
/// it was overclocked.
pub open spec fn started(config: ConfigView) -> StateView {
    StateView {
        config: ConfigView { armed_gpu: None, ..config },
        applied: Map::empty(),
        pending: None,
        fault_watch: None,
        unconfirmed_at_start: config.armed_gpu is Some,
        last_error: seq![],
        last_note: if config.armed_gpu is Some {
            seq![note_unconfirmed_at_start()]
        } else {
            seq![]
        },
        last_save_error: None,
    }
}

/// What to do about the saved targets when the daemon starts.
#[derive(Debug, Clone)]
pub enum Restore {
    /// Nobody asked for it, or there is nothing to restore.
    Nothing,
    /// The last change was never confirmed.
    Unconfirmed,
    /// The warning was never accepted.
    NotConsented,
    /// Climb to each of these, in this order.
    Targets(Vec<Entry>),
}

/// The entries that are not at stock, in their order.
pub open spec fn moved(entries: Seq<Entry>) -> Seq<Entry>
    decreases entries.len(),
{
    if entries.len() == 0 {
        seq![]
    } else if entries.last().target == plan::stock() {
        moved(entries.drop_last())
    } else {
        moved(entries.drop_last()).push(entries.last())
    }
}

pub open spec fn same_entries(a: Seq<Entry>, b: Seq<Entry>) -> bool {
    &&& a.len() == b.len()
    &&& forall|i: int|
        0 <= i < a.len() ==> (#[trigger] a[i]).gpu@ == b[i].gpu@ && a[i].target == b[i].target
}

impl OverclockModule {
    pub open spec fn wf(&self) -> bool {
        &&& self.config.targets.wf()
        &&& self.applied.wf()
    }

    /// The module where nothing was ever saved.
    pub fn new() -> (r: OverclockModule)
        ensures
            r.wf(),
            r@ == started(default_config()),
    {
        OverclockModule::with_store(OverclockConfig::default())
    }

    /// The module with the settings that were saved. A change that was never
    /// confirmed is said so, and forgotten.
    pub fn with_store(config: OverclockConfig) -> (r: OverclockModule)
        requires
            config.targets.wf(),
        ensures
            r.wf(),
            r@ == started(config@),
    {
        let unconfirmed_at_start = config.armed_gpu.is_some();
        let last_note = if unconfirmed_at_start {
            msg::just(
                Msg::plain(
                    "overclock.note.unconfirmedAtStart",
                    "the last overclock was never confirmed, so this boot starts at stock and nothing was restored",
                ),
            )
        } else {
            msg::none()
        };
        OverclockModule {
            config: OverclockConfig {
                consent: config.consent,
                targets: config.targets,
                restore_on_start: config.restore_on_start,
                armed_gpu: None,
                hold_secs: config.hold_secs,
            },
            applied: TargetMap::new(),
            pending: None,
            fault_watch: None,
            unconfirmed_at_start,
            last_error: msg::none(),
            last_note,
            last_save_error: None,
        }
    }

    /// What is to be restored when the daemon starts: only where it was asked
    /// for, the last change was confirmed and the warning accepted.
    pub fn restore(&self) -> (r: Restore)
        requires
            self.wf(),
        ensures
            ({
                let to_do = moved(self.config.targets.listed());
                match r {
                    Restore::Nothing => !self.config.restore_on_start || to_do.len() == 0,
                    Restore::Unconfirmed => self.config.restore_on_start && to_do.len() > 0
                        && self.unconfirmed_at_start,
                    Restore::NotConsented => self.config.restore_on_start && to_do.len() > 0
                        && !self.unconfirmed_at_start && !consented(self.config.consent),
                    Restore::Targets(list) => self.config.restore_on_start && to_do.len() > 0
                        && !self.unconfirmed_at_start && consented(self.config.consent)
                        && same_entries(list@, to_do),
                }
            }),
            r is Targets <==> self@.may_restore() && moved(self.config.targets.listed()).len() > 0,
    {
        let n: usize = self.config.targets.len();
        let ghost all = self.config.targets.listed();
        let mut list: Vec<Entry> = Vec::new();
        let mut i: usize = 0;
        proof {
            assert(all.take(0) =~= seq![]);
        }
        while i < n
            invariant
                all == self.config.targets.listed(),
                n == all.len(),
                i <= n,
                same_entries(list@, moved(all.take(i as int))),
            decreases n - i,
        {
            let ghost before = list@;
            proof {
                assert(all.take(i + 1).drop_last() =~= all.take(i as int));
                assert(all.take(i + 1).last() == all[i as int]);
            }
            let entry = self.config.targets.at(i);
            if !entry.target.is_stock() {
                list.push(Entry { gpu: entry.gpu.clone(), target: entry.target });
            }
            i = i + 1;
        }
        proof {
            assert(all.take(n as int) =~= all);
        }
        if !self.config.restore_on_start || list.len() == 0 {
            return Restore::Nothing;
        }
        if self.unconfirmed_at_start {
            return Restore::Unconfirmed;
        }
        if !is_consented(self.config.consent) {
            return Restore::NotConsented;
        }
        Restore::Targets(list)
    }

    /// Takes how restoring one card went.
    pub fn restored(
        &mut self,
        gpu: &str,
        target: Target,
        result: Result<(), ModuleError>,
        words: &Wording,
    )
        requires
            old(self).wf(),
        ensures
            final(self).wf(),
            final(self)@ == (match result {
                Ok(()) => StateView {
                    applied: old(self)@.applied.insert(gpu@, target),
                    ..old(self)@
                },
                Err(e) => StateView { last_error: seq![e@.as_msg(words@)], ..old(self)@ },
            }),
    {
        match result {
            Ok(()) => {
                self.applied.insert(gpu, target);
            },
            Err(e) => {
                self.last_error = msg::just(e.as_msg(words));
            },
        }
    }

    /// Records whether the configuration could be saved.
    pub fn saved(&mut self, result: Result<(), String>)
        requires
            old(self).wf(),
        ensures
            final(self).wf(),
            final(self)@ == (StateView {
                last_save_error: match result {
                    Ok(()) => None,
                    Err(e) => Some(e@),
                },
                ..old(self)@
            }),
    {
        match result {
            Ok(()) => {
                self.last_save_error = None;
            },
            Err(e) => {
                self.last_save_error = Some(e);
            },
        }
    }

    /// Records the answer to the warning. Withdrawing it is a request to stop:
    /// the result says that every card is to be reset.
    pub fn set_consent(&mut self, accepted: bool, now_secs: u64) -> (reset: bool)
        requires
            old(self).wf(),
        ensures
            final(self).wf(),
            reset == !accepted,
            final(self)@ == old(self)@.after_consent(accepted, now_secs),
    {
        self.config.consent = if accepted {
            Some(Consent { accepted_at: now_secs, version: CONSENT_VERSION })
        } else {
            None
        };
        !accepted
    }

    pub fn set_restore_on_start(&mut self, enabled: bool)
        requires
            old(self).wf(),
        ensures
            final(self).wf(),
            final(self)@ == (StateView {
                config: ConfigView { restore_on_start: enabled, ..old(self)@.config },
                ..old(self)@
            }),
    {
        self.config.restore_on_start = enabled;
    }

    pub fn confirmed(&self, gpu: &str) -> (r: Target)
        requires
            self.wf(),
        ensures
            r == self@.confirmed(gpu@),
    {
        match self.config.targets.get(gpu) {
            Some(t) => t,
            None => Target::default(),
        }
    }

    pub fn current(&self, gpu: &str) -> (r: Target)
        requires
            self.wf(),
        ensures
            r == self@.current(gpu@),
    {
        match self.applied.get(gpu) {
            Some(t) => t,
            None => self.confirmed(gpu),
        }
    }

    fn let_through<'a>(&self, probe: &'a Probe, request: &ApplyRequest) -> (r: Result<
        (&'a GpuProbe, u64, Target, Target),
        ModuleError,
    >)
        requires
            self.wf(),
        ensures
            (match r {
                Ok((gpu, hold, from, asked)) => Ok(
                    AdmittedView { gpu: *gpu, hold: hold as int, from, asked },
                ),
                Err(e) => Err(e@),
            }) == self@.admitted(probe.gpus@, probe.detail@, request@),
            r matches Ok((_, hold, _, _)) ==> hold <= MAX_HOLD_SECS,
    {
        let gpu = match requested_gpu(probe, &request.gpu) {
            Ok(g) => g,
            Err(e) => {
                return Err(e);
            },
        };
        let hold: u64 = match hold_from(&self.config, request.hold) {
            Ok(h) => h,
            Err(e) => {
                return Err(e);
            },
        };
        if !is_consented(self.config.consent) {
            return Err(
                ModuleError::localised(
                    ErrorKind::InvalidParams,
                    Msg::plain(
                        "overclock.err.notConsented",
                        "overclocking has not been consented to on this machine; call overclock.setConsent with the text from overclock.getState first",
                    ),
                ),
            );
        }
        match &self.pending {
            Some(pending) => {
                return Err(
                    ModuleError::localised(
                        ErrorKind::Busy,
                        Msg::new(
                            "overclock.err.pending",
                            msg::one(msg::param("gpu", pending.gpu.clone())),
                            "the last change to {gpu} is still waiting to be confirmed or undone",
                        ),
                    ),
                );
            },
            None => {},
        }
        if !gpu.drivable() {
            return Err(
                ModuleError::localised(ErrorKind::NotCapable, Msg::literal(gpu.detail.clone())),
            );
        }
        let from = self.current(gpu.id.as_str());
        let asked = match request::merge(request, from) {
            Ok(t) => t,
            Err(e) => {
                return Err(e);
            },
        };
        Ok((gpu, hold, from, asked))
    }

    /// Whether the request can be cut down to what its card takes: true where it
    /// is refused, and where the card's ranges are the right way round.
    pub fn can_prepare(&self, probe: &Probe, request: &ApplyRequest) -> (r: bool)
        requires
            self.wf(),
        ensures
            r == (self@.prepared(probe.gpus@, probe.detail@, request@) matches Ok(p)
                ==> p.gpu@.ceiling().ordered()),
    {
        match self.let_through(probe, request) {
            Ok((gpu, _, _, _)) => gpu.ceiling().is_ordered(),
            Err(_) => true,
        }
    }

    /// Decides whether a request may go ahead, and to what. The ranges of the
    /// card that is asked for have to be the right way round, where the request
    /// gets as far as them.
    pub fn prepare<'a>(&self, probe: &'a Probe, request: &ApplyRequest) -> (r: Result<
        (&'a GpuProbe, Prepared),
        ModuleError,
    >)
        requires
            self.wf(),
            self@.prepared(probe.gpus@, probe.detail@, request@) matches Ok(p)
                ==> p.gpu@.ceiling().ordered(),
        ensures
            match r {
                Ok((gpu, p)) => self@.prepared(probe.gpus@, probe.detail@, request@) == Ok::<
                    PreparedView,
                    ErrorView,
                >(
                    PreparedView {
                        gpu: *gpu,
                        hold: p.hold as int,
                        from: p.from,
                        target: p.clamped.target,
                        notes: msg::says(p.clamped.notes@),
                    },
                ) && p.hold <= MAX_HOLD_SECS,
                Err(e) => self@.prepared(probe.gpus@, probe.detail@, request@) == Err::<
                    PreparedView,
                    ErrorView,
                >(e@),
            },
    {
        match self.let_through(probe, request) {
            Err(e) => Err(e),
            Ok((gpu, hold, from, asked)) => {
                let clamped = plan::clamp(asked, &gpu.ceiling());
                Ok((gpu, Prepared { hold, from, clamped }))
            },
        }
    }

    /// Takes an apply that asked for what is already on the card: not a
    /// change, so there is nothing to confirm.
    pub fn already_there(&mut self, prepared: &Prepared)
        requires
            old(self).wf(),
            prepared.clamped.target == prepared.from,
        ensures
            final(self).wf(),
            final(self)@ == (StateView {
                last_note: msg::says(prepared.clamped.notes@),
                ..old(self)@
            }),
    {
        self.last_note = msg::copy_all(&prepared.clamped.notes);
    }

    /// Takes how the climb went. A target that is not stock is armed: it waits
    /// to be confirmed until the hold runs out.
    pub fn finish_apply(
        &mut self,
        gpu: &GpuProbe,
        prepared: &Prepared,
        result: Result<(), ModuleError>,
        words: &Wording,
        now: u64,
    ) -> (r: Result<(), ModuleError>)
        requires
            old(self).wf(),
            now + prepared.hold * 1000 <= u64::MAX,
        ensures
            final(self).wf(),
            hardware::outcome(r) == hardware::outcome(result),
            final(self)@ == (match result {
                Ok(()) => old(self)@.after_climb(
                    gpu@,
                    prepared.clamped.target,
                    msg::says(prepared.clamped.notes@),
                    prepared.hold as int,
                    now as int,
                ),
                Err(e) => StateView { last_error: seq![e@.as_msg(words@)], ..old(self)@ },
            }),
    {
        match result {
            Ok(()) => {
                let target = prepared.clamped.target;
                let revert_to = self.confirmed(gpu.id.as_str());
                self.applied.insert(gpu.id.as_str(), target);
                self.last_error = msg::none();
                self.last_note = msg::copy_all(&prepared.clamped.notes);
                if target.is_stock() {
                    self.config.targets.insert(gpu.id.as_str(), target);
                    self.config.armed_gpu = None;
                } else {
                    self.pending = Some(
                        Pending {
                            gpu: gpu.id.clone(),
                            revert_to,
                            deadline: now + prepared.hold * 1000,
                        },
                    );
                    self.fault_watch = hardware::fault_watch(gpu);
                    self.config.armed_gpu = Some(gpu.id.clone());
                    self.config.hold_secs = Some(prepared.hold);
                }
                Ok(())
            },
            Err(e) => {
                self.last_error = msg::just(e.as_msg(words));
                Err(e)
            },
        }
    }

    /// Keeps the pending change.
    pub fn confirm(&mut self) -> (r: Result<(), ModuleError>)
        requires
            old(self).wf(),
        ensures
            final(self).wf(),
            match r {
                Ok(()) => old(self)@.pending is Some && final(self)@ == old(self)@.after_confirm(),
                Err(e) => old(self)@.pending is None && e@ == err_nothing_pending() && final(self)@
                    == old(self)@,
            },
    {
        match self.pending.take() {
            None => Err(nothing_pending()),
            Some(pending) => {
                self.fault_watch = None;
                let applied = match self.applied.get(pending.gpu.as_str()) {
                    Some(t) => t,
                    None => Target::default(),
                };
                self.config.targets.insert(pending.gpu.as_str(), applied);
                self.config.armed_gpu = None;
                self.last_note = msg::just(
                    Msg::new(
                        "overclock.note.kept",
                        msg::one(msg::param("gpu", pending.gpu)),
                        "kept the change to {gpu}",
                    ),
                );
                Ok(())
            },
        }
    }

    /// The change that an undo would undo.
    pub fn cancel(&self) -> (r: Result<Pending, ModuleError>)
        ensures
            match r {
                Ok(p) => self@.pending == Some(p@),
                Err(e) => self@.pending is None && e@ == err_nothing_pending(),
            },
    {
        match &self.pending {
            Some(p) => Ok(p.copy()),
            None => Err(nothing_pending()),
        }
    }

    /// Takes how undoing the pending change went. Either way nothing stays
    /// armed.
    pub fn revert(
        &mut self,
        pending: &Pending,
        reason: RevertReason,
        result: Result<(), ModuleError>,
        words: &Wording,
    ) -> (r: Result<(), ModuleError>)
        requires
            old(self).wf(),
        ensures
            final(self).wf(),
            hardware::outcome(r) == hardware::outcome(result),
            final(self)@ == old(self)@.after_revert(
                pending@,
                reason,
                hardware::outcome(result),
                words@,
            ),
    {
        self.pending = None;
        self.fault_watch = None;
        self.config.armed_gpu = None;
        match result {
            Ok(()) => {
                self.applied.insert(pending.gpu.as_str(), pending.revert_to);
                self.last_note = msg::just(reason.note(pending.gpu.as_str()));
                Ok(())
            },
            Err(e) => {
                self.last_error = msg::just(
                    Msg::new(
                        "overclock.err.couldNotUndo",
                        msg::one(msg::param("error", e.to_text(words))),
                        "could not undo the overclock: {error}",
                    ),
                );
                Err(e)
            },
        }
    }
}

// --- back to stock -------------------------------------------------------

/// A reset under way: the cards it is for, which one is next, and how it has
/// gone so far.
pub struct ResetRun {
    pub ids: Vec<String>,
    pub at: usize,
    pub failures: Vec<(String, ModuleError)>,
    pub written: u64,
}

/// What is to be done for the next card of a reset.
#[derive(Debug, Clone, PartialEq, Eq)]
pub enum ResetStep {
    /// Write stock to the card.
    Write,
    /// Nothing of ours is on it: only forget what was kept for it.
    Clear,
    /// Every card has been seen to.
    Finished,
}

/// The ids of the cards that can be driven.
pub open spec fn drivable_ids(gpus: Seq<GpuView>) -> Seq<Seq<char>>
    decreases gpus.len(),
{
    if gpus.len() == 0 {
        seq![]
    } else if gpus.last().drivable() {
        drivable_ids(gpus.drop_last()).push(gpus.last().id)
    } else {
        drivable_ids(gpus.drop_last())
    }
}

pub open spec fn failure_notes(
    failures: Seq<(String, ModuleError)>,
    words: WordingView,
) -> Seq<MsgView> {
    Seq::new(failures.len(), |i: int| err_per_gpu(failures[i].0@, failures[i].1@.text(words)))
}

impl ResetRun {
    pub open spec fn wf(&self) -> bool {
        &&& self.at <= self.ids@.len()
        &&& self.written <= self.at
    }

    /// Starts a reset of one card, or of every card that can be driven.
    pub fn begin(probe: &Probe, gpu: Option<String>) -> (r: ResetRun)
        ensures
            r.wf(),
            r.at == 0,
            r.failures@.len() == 0,
            r.written == 0,
            text::views(r.ids@) == (match gpu {
                Some(id) => seq![id@],
                None => drivable_ids(probe::gpu_views(probe.gpus@)),
            }),
    {
        let ids = match gpu {
            Some(id) => text::list_one(id),
            None => {
                let n: usize = probe.gpus.len();
                let ghost seen = probe::gpu_views(probe.gpus@);
                let mut out: Vec<String> = Vec::new();
                let mut i: usize = 0;
                proof {
                    assert(seen.take(0) =~= seq![]);
                    assert(text::views(out@) =~= seq![]);
                }
                while i < n
                    invariant
                        n == probe.gpus@.len(),
                        i <= n,
                        seen == probe::gpu_views(probe.gpus@),
                        text::views(out@) == drivable_ids(seen.take(i as int)),
                    decreases n - i,
                {
                    proof {
                        assert(seen.take(i + 1).drop_last() =~= seen.take(i as int));
                        assert(seen.take(i + 1).last() == probe.gpus@[i as int]@);
                    }
                    if probe.gpus[i].drivable() {
                        text::push_string(&mut out, probe.gpus[i].id.clone());
                    }
                    i = i + 1;
                }
                proof {
                    assert(seen.take(n as int) =~= seen);
                }
                out
            },
        };
        ResetRun { ids, at: 0, failures: Vec::new(), written: 0 }
    }
}

impl OverclockModule {
    /// What to do for the next card. A card that is not on the machine ends
    /// the reset; neither the consent nor a pending change is asked about.
    pub fn reset_next(&self, probe: &Probe, run: &ResetRun) -> (r: Result<ResetStep, ModuleError>)
        requires
            self.wf(),
            run.wf(),
        ensures
            run.at < run.ids@.len() ==> (match r {
                Ok(step) => Ok(step),
                Err(e) => Err(e@),
            }) == self@.reset_step(probe.gpus@, run.ids@[run.at as int]@),
            match r {
                Ok(ResetStep::Finished) => run.at == run.ids@.len(),
                Ok(ResetStep::Write) => run.at < run.ids@.len() && probe::first_of_id(
                    probe.gpus@,
                    run.ids@[run.at as int]@,
                ) is Some && self@.needs_undoing(run.ids@[run.at as int]@),
                Ok(ResetStep::Clear) => run.at < run.ids@.len() && probe::first_of_id(
                    probe.gpus@,
                    run.ids@[run.at as int]@,
                ) is Some && !self@.needs_undoing(run.ids@[run.at as int]@),
                Err(e) => run.at < run.ids@.len() && probe::first_of_id(
                    probe.gpus@,
                    run.ids@[run.at as int]@,
                ) is None && e@ == err_no_gpu(run.ids@[run.at as int]@),
            },
    {
        if run.at == run.ids.len() {
            return Ok(ResetStep::Finished);
        }
        let id = run.ids[run.at].as_str();
        match probe.gpu(id) {
            None => Err(no_gpu(id)),
            Some(_) => if needs_undoing(self.applied.get(id)) {
                Ok(ResetStep::Write)
            } else {
                Ok(ResetStep::Clear)
            },
        }
    }

    /// Takes how it went for the next card: what writing stock came to, or
    /// nothing where it was only cleared. A card that could not be written
    /// keeps what is remembered of it.
    pub fn reset_done(&mut self, run: &mut ResetRun, written: Option<Result<(), ModuleError>>)
        requires
            old(self).wf(),
            old(run).wf(),
            old(run).at < old(run).ids@.len(),
        ensures
            final(self).wf(),
            final(run).wf(),
            final(run).ids@ == old(run).ids@,
            final(run).at == old(run).at + 1,
            match written {
                Some(Err(e)) => final(self)@ == old(self)@ && final(run).written == old(run).written && final(run).failures@.len() == old(run).failures@.len() + 1 && final(run).failures@.drop_last() == old(run).failures@ && final(run).failures@.last().0@
                    == old(run).ids@[old(run).at as int]@ && final(run).failures@.last().1@ == e@,
                Some(Ok(())) => final(self)@ == old(self)@.after_reset(
                    old(run).ids@[old(run).at as int]@,
                ) && final(run).written == old(run).written + 1 && final(run).failures@ == old(run).failures@,
                None => final(self)@ == old(self)@.after_reset(
                    old(run).ids@[old(run).at as int]@,
                ) && final(run).written == old(run).written && final(run).failures@ == old(run).failures@,
            },
    {
        let count: usize = run.ids.len();
        let id = run.ids[run.at].clone();
        run.at = run.at + 1;
        match written {
            Some(result) => match result {
                Ok(()) => {
                    run.written = run.written + 1;
                },
                Err(e) => {
                    let ghost before = run.failures@;
                    run.failures.push((id, e));
                    proof {
                        assert(run.failures@.drop_last() =~= before);
                    }
                    return;
                },
            },
            None => {},
        }
        self.applied.insert(id.as_str(), Target::default());
        self.config.targets.insert(id.as_str(), Target::default());
        let same = match &self.pending {
            Some(p) => text::same(p.gpu.as_str(), id.as_str()),
            None => false,
        };
        if same {
            self.pending = None;
            self.fault_watch = None;
            self.config.armed_gpu = None;
        }
    }

    /// Ends a reset: the first failure is the answer, and all of them are
    /// remembered.
    pub fn reset_finish(&mut self, run: ResetRun, words: &Wording) -> (r: Result<(), ModuleError>)
        requires
            old(self).wf(),
        ensures
            final(self).wf(),
            if run.failures@.len() > 0 {
                &&& r is Err
                &&& r->Err_0@ == hardware::in_context(
                    run.failures@[0].1@,
                    "could not go back to stock"@,
                )
                &&& final(self)@ == (StateView {
                    last_error: failure_notes(run.failures@, words@),
                    ..old(self)@
                })
            } else {
                &&& r is Ok
                &&& final(self)@ == (StateView {
                    last_error: seq![],
                    last_note: seq![
                        if run.written > 0 {
                            note_back_to_stock()
                        } else {
                            note_nothing_to_undo()
                        },
                    ],
                    ..old(self)@
                })
            },
    {
        let n: usize = run.failures.len();
        if n > 0 {
            let mut notes: Vec<Msg> = Vec::new();
            let mut i: usize = 0;
            while i < n
                invariant
                    n == run.failures@.len(),
                    i <= n,
                    msg::says(notes@) == failure_notes(run.failures@, words@).take(i as int),
                decreases n - i,
            {
                let ghost before = notes@;
                notes.push(
                    Msg::new(
                        "overclock.err.perGpu",
                        msg::two(
                            msg::param("id", run.failures[i].0.clone()),
                            msg::param("error", run.failures[i].1.to_text(words)),
                        ),
                        "{id}: {error}",
                    ),
                );
                i = i + 1;
                proof {
                    assert(msg::says(notes@) =~= msg::says(before).push(
                        failure_notes(run.failures@, words@)[i - 1],
                    ));
                    assert(msg::says(notes@) =~= failure_notes(run.failures@, words@).take(i as int));
                }
            }
            proof {
                assert(failure_notes(run.failures@, words@).take(n as int) =~= failure_notes(
                    run.failures@,
                    words@,
                ));
            }
            self.last_error = notes;
            return Err(
                hardware::keep_kind(run.failures[0].1.copy(), "could not go back to stock"),
            );
        }
        self.last_error = msg::none();
        self.last_note = msg::just(
            if run.written > 0 {
                Msg::plain(
                    "overclock.note.backToStock",
                    "back to the clocks the firmware shipped",
                )
            } else {
                Msg::plain(
                    "overclock.note.nothingToUndo",
                    "nothing to undo: this daemon has not moved these clocks",
                )
            },
        );
        Ok(())
    }
}

// --- the state as it is shown --------------------------------------------

/// One card as the state shows it, beside what the probe says of it.
#[derive(Debug, Clone, Copy, PartialEq, Eq, Structural)]
pub struct GpuStatus {
    pub drivable: bool,
    /// What a human agreed to keep.
    pub confirmed: Target,
    /// What is on the card, where this daemon wrote it.
    pub applied: Option<Target>,
}

#[derive(Debug, Clone)]
pub struct Status {
    /// One per card of the probe, in its order.
    pub gpus: Vec<GpuStatus>,
    pub default_gpu: Option<String>,
    /// The warning, in the words that are to be agreed to.
    pub consent_text: &'static str,
    pub consent_version: u32,
    pub consent_accepted: bool,
    pub consent_accepted_at: Option<u64>,
    /// How long the pending change may still be confirmed.
    pub millis_left: Option<u64>,
    pub hold_secs: u64,
    pub restored_on_start: bool,
}

pub open spec fn gpu_status(state: StateView, gpu: GpuView) -> GpuStatus {
    GpuStatus {
        drivable: gpu.drivable(),
        confirmed: state.confirmed(gpu.id),
        applied: if state.applied.dom().contains(gpu.id) {
            Some(state.applied[gpu.id])
        } else {
            None
        },
    }
}

impl OverclockModule {
    pub fn status(&self, probe: &Probe, now: u64) -> (r: Status)
        requires
            self.wf(),
        ensures
            r.gpus@ == Seq::new(
                probe.gpus@.len(),
                |i: int| gpu_status(self@, probe.gpus@[i]@),
            ),
            text::opt_view(r.default_gpu) == (match probe::first_drivable(probe.gpus@) {
                Some(g) => Some(g.id@),
                None => None,
            }),
            r.consent_text@ == CONSENT@,
            r.consent_version == CONSENT_VERSION,
            r.consent_accepted == consented(self.config.consent),
            r.consent_accepted_at == (match self.config.consent {
                Some(c) => Some(c.accepted_at),
                None => None,
            }),
            (match r.millis_left {
                Some(left) => Some(left as int),
                None => None,
            }) == self@.left(now as int),
            r.hold_secs == configured_hold(self@.config),
            r.restored_on_start == (!self.unconfirmed_at_start && self.config.restore_on_start
                && self@.applied != Map::<Seq<char>, Target>::empty()),
    {
        let n: usize = probe.gpus.len();
        let mut gpus: Vec<GpuStatus> = Vec::new();
        let mut i: usize = 0;
        while i < n
            invariant
                self.wf(),
                n == probe.gpus@.len(),
                i <= n,
                gpus@.len() == i,
                forall|k: int|
                    0 <= k < i ==> #[trigger] gpus@[k] == gpu_status(self@, probe.gpus@[k]@),
            decreases n - i,
        {
            let gpu = &probe.gpus[i];
            let status = GpuStatus {
                drivable: gpu.drivable(),
                confirmed: self.confirmed(gpu.id.as_str()),
                applied: self.applied.get(gpu.id.as_str()),
            };
            gpus.push(status);
            i = i + 1;
        }
        let default_gpu = match probe.default_gpu() {
            Some(g) => Some(g.id.clone()),
            None => None,
        };
        let consent_accepted_at = match self.config.consent {
            Some(c) => Some(c.accepted_at),
            None => None,
        };
        let millis_left = match &self.pending {
            Some(p) => Some(
                if p.deadline > now {
                    p.deadline - now
                } else {
                    0
                },
            ),
            None => None,
        };
        Status {
            gpus,
            default_gpu,
            consent_text: CONSENT,
            consent_version: CONSENT_VERSION,
            consent_accepted: is_consented(self.config.consent),
            consent_accepted_at,
            millis_left,
            hold_secs: hold_secs(&self.config),
            restored_on_start: !self.unconfirmed_at_start && self.config.restore_on_start
                && !self.applied.is_empty(),
        }
    }
}

// --- laws ----------------------------------------------------------------

/// No offset is written before the warning is accepted: without a current
/// consent every apply is refused, and one that names a card and a hold that
/// are in order is refused for want of it, whatever the card's ranges.
pub proof fn law_no_apply_without_consent(
    state: StateView,
    gpus: Seq<GpuProbe>,
    detail: Seq<char>,
    request: ApplyView,
)
    requires
        !consented(state.config.consent),
    ensures
        state.prepared(gpus, detail, request) is Err,
        gpu_requested(gpus, detail, request.gpu) is Ok && requested_hold(
            state.config,
            request.hold,
        ) is Ok ==> state.prepared(gpus, detail, request)->Err_0.kind()
            == ErrorKind::InvalidParams,
{
}

/// Nothing is applied while a change is still waiting to be confirmed: with the
/// warning accepted, the module is busy with the card that waits.
pub proof fn law_one_pending_at_a_time(
    state: StateView,
    gpus: Seq<GpuProbe>,
    detail: Seq<char>,
    request: ApplyView,
)
    requires
        state.pending is Some,
    ensures
        state.prepared(gpus, detail, request) is Err,
        gpu_requested(gpus, detail, request.gpu) is Ok && requested_hold(
            state.config,
            request.hold,
        ) is Ok && consented(state.config.consent) ==> state.prepared(
            gpus,
            detail,
            request,
        )->Err_0.kind() == ErrorKind::Busy,
{
}

/// What is written is always within what the card advertised.
pub proof fn law_prepared_is_admitted(
    state: StateView,
    gpus: Seq<GpuProbe>,
    detail: Seq<char>,
    request: ApplyView,
)
    requires
        state.prepared(gpus, detail, request) matches Ok(p) && p.gpu@.ceiling().ordered(),
    ensures
        ({
            let p = state.prepared(gpus, detail, request)->Ok_0;
            p.gpu@.ceiling().admits(p.target)
        }),
{
    let a = state.admitted(gpus, detail, request)->Ok_0;
    plan::law_clamped_is_admitted(a.asked, a.gpu@.ceiling());
}

/// A change that is not stock is armed: it is pending, the configuration says
/// so, and what it goes back to is what was confirmed, not what was applied.
pub proof fn law_apply_arms(
    state: StateView,
    gpu: GpuView,
    target: Target,
    notes: Seq<MsgView>,
    hold: int,
    now: int,
)
    requires
        target != plan::stock(),
    ensures
        ({
            let after = state.after_climb(gpu, target, notes, hold, now);
            &&& after.pending == Some(
                PendingView {
                    gpu: gpu.id,
                    revert_to: state.confirmed(gpu.id),
                    deadline: now + hold * 1000,
                },
            )
            &&& after.config.armed_gpu == Some(gpu.id)
            &&& after.config.targets == state.config.targets
        }),
{
}

/// A daemon that finds its configuration armed starts at stock: it says so,
/// has written nothing, and is no longer armed.
pub proof fn law_armed_start_restores_nothing(config: ConfigView)
    requires
        config.armed_gpu is Some,
    ensures
        started(config).unconfirmed_at_start,
        started(config).applied == Map::<Seq<char>, Target>::empty(),
        started(config).config.armed_gpu is None,
        started(config).last_note == seq![note_unconfirmed_at_start()],
{
}

/// A revert takes the pending change with it, whether it succeeded or not, so
/// the next tick finds nothing to undo.
pub proof fn law_revert_disarms(
    state: StateView,
    pending: PendingView,
    reason: RevertReason,
    result: Result<(), ErrorView>,
    words: WordingView,
)
    ensures
        state.after_revert(pending, reason, result, words).pending is None,
        state.after_revert(pending, reason, result, words).fault_watch is None,
        state.after_revert(pending, reason, result, words).config.armed_gpu is None,
        state.after_revert(pending, reason, result, words).config.targets == state.config.targets,
{
}

/// Running out of time and pressing "undo" leave the card in the same place:
/// only the note differs.
pub proof fn law_undo_is_the_timers_revert(
    state: StateView,
    pending: PendingView,
    result: Result<(), ErrorView>,
    words: WordingView,
)
    ensures
        ({
            let a = state.after_revert(pending, RevertReason::Undone, result, words);
            let b = state.after_revert(pending, RevertReason::NotConfirmed, result, words);
            &&& a.applied == b.applied
            &&& a.config == b.config
            &&& a.pending == b.pending
            &&& a.last_error == b.last_error
        }),
{
}

/// What is confirmed is exactly what was applied: after an apply and a
/// confirmation the target is what will be restored.
pub proof fn law_confirm_keeps_what_was_applied(
    state: StateView,
    gpu: GpuView,
    target: Target,
    notes: Seq<MsgView>,
    hold: int,
    now: int,
)
    requires
        target != plan::stock(),
    ensures
        ({
            let kept = state.after_climb(gpu, target, notes, hold, now).after_confirm();
            &&& kept.confirmed(gpu.id) == target
            &&& kept.current(gpu.id) == target
            &&& kept.pending is None
            &&& kept.config.armed_gpu is None
        }),
{
}

/// A module starts in step, and restoring what was confirmed, an apply while
/// nothing waits, a confirmation, a revert that went well and a reset leave it
/// so.
pub proof fn law_every_change_keeps_step(
    state: StateView,
    config: ConfigView,
    gpu: GpuView,
    target: Target,
    notes: Seq<MsgView>,
    hold: int,
    now: int,
    reason: RevertReason,
    words: WordingView,
)
    requires
        state.in_step(),
    ensures
        started(config).in_step(),
        (StateView {
            applied: state.applied.insert(gpu.id, state.confirmed(gpu.id)),
            ..state
        }).in_step(),
        state.pending is None ==> state.after_climb(gpu, target, notes, hold, now).in_step(),
        state.pending is Some ==> state.after_confirm().in_step(),
        state.pending matches Some(p) ==> state.after_revert(p, reason, Ok(()), words).in_step(),
        state.after_reset(gpu.id).in_step(),
{
}

/// An apply that is reverted leaves every card at what was confirmed before,
/// and where every card was in step, at what it had before.
pub proof fn law_revert_undoes_apply(
    state: StateView,
    gpu: GpuView,
    target: Target,
    notes: Seq<MsgView>,
    hold: int,
    now: int,
    reason: RevertReason,
    words: WordingView,
    other: Seq<char>,
)
    requires
        target != plan::stock(),
    ensures
        ({
            let armed = state.after_climb(gpu, target, notes, hold, now);
            let back = armed.after_revert(armed.pending->0, reason, Ok(()), words);
            &&& back.current(gpu.id) == state.confirmed(gpu.id)
            &&& back.config.targets == state.config.targets
            &&& other != gpu.id ==> back.current(other) == state.current(other)
            &&& state.in_step() && state.pending is None ==> back.current(gpu.id) == state.current(
                gpu.id,
            )
        }),
{
}

/// After a reset the card is at stock, nothing is kept for it, and nothing
/// waits to be confirmed on it; the other cards are as they were.
pub proof fn law_reset_clears(state: StateView, gpu: Seq<char>, other: Seq<char>)
    requires
        other != gpu,
    ensures
        state.after_reset(gpu).current(gpu) == plan::stock(),
        state.after_reset(gpu).confirmed(gpu) == plan::stock(),
        !state.after_reset(gpu).needs_undoing(gpu),
        !(state.after_reset(gpu).pending matches Some(p) && p.gpu == gpu),
        state.after_reset(gpu).current(other) == state.current(other),
        state.after_reset(gpu).confirmed(other) == state.confirmed(other),
{
}

/// The reasons for a revert read differently.
pub proof fn law_fault_note_differs_from_timeout(gpu: Seq<char>)
    ensures
        RevertReason::FaultReported.said(gpu).key != RevertReason::NotConfirmed.said(gpu).key,
{
    reveal_strlit("overclock.note.revertedFault");
    reveal_strlit("overclock.note.revertedUnconfirmed");
    assert("overclock.note.revertedFault"@.len() != "overclock.note.revertedUnconfirmed"@.len());
}

/// A hold is never shorter than 5 seconds nor longer than 300, and as near as
/// that allows to the one that was asked for. Without a word on it, it is the
/// one that was used last, or 20 seconds.
pub proof fn law_the_hold_is_near_and_bearable(config: ConfigView, hold: HoldField, v: int)
    requires
        5 <= v <= 300,
    ensures
        requested_hold(config, hold) is Err <==> hold is Invalid,
        requested_hold(config, hold) matches Ok(secs) ==> 5 <= secs <= 300,
        hold matches HoldField::Value(asked) ==> plan::distance(
            asked as int,
            requested_hold(config, hold)->Ok_0,
        ) <= plan::distance(asked as int, v),
        hold is Absent ==> (config.hold_secs matches Some(last) ==> requested_hold(config, hold)
            == requested_hold(config, HoldField::Value(last))),
        hold is Absent && config.hold_secs is None ==> requested_hold(config, hold) == Ok::<
            int,
            ErrorView,
        >(20),
{
}

/// A request that names a card gets the first card of that name, and one that
/// names none gets the first card with anything to change. Where there is no
/// such card it is refused.
pub proof fn law_the_right_card_is_taken(gpus: Seq<GpuProbe>, detail: Seq<char>, id: Seq<char>)
    ensures
        match gpu_requested(gpus, detail, Some(id)) {
            Ok(g) => g.id@ == id && exists|i: int|
                0 <= i < gpus.len() && #[trigger] gpus[i] == g && forall|j: int|
                    0 <= j < i ==> (#[trigger] gpus[j]).id@ != id,
            Err(e) => e.kind() == ErrorKind::InvalidParams && forall|j: int|
                0 <= j < gpus.len() ==> (#[trigger] gpus[j]).id@ != id,
        },
        match gpu_requested(gpus, detail, None) {
            Ok(g) => (g.core_offset is Some || g.mem_offset is Some || g.clock_lock is Some)
                && exists|i: int|
                0 <= i < gpus.len() && #[trigger] gpus[i] == g && forall|j: int|
                    0 <= j < i ==> (#[trigger] gpus[j]).core_offset is None && gpus[j].mem_offset is
                        None && gpus[j].clock_lock is None,
            Err(e) => e.kind() == ErrorKind::NotCapable && forall|j: int|
                0 <= j < gpus.len() ==> (#[trigger] gpus[j]).core_offset is None
                    && gpus[j].mem_offset is None && gpus[j].clock_lock is None,
        },
    decreases gpus.len(),
{
    if gpus.len() > 0 {
        let rest = gpus.skip(1);
        law_the_right_card_is_taken(rest, detail, id);
        assert forall|j: int| 1 <= j < gpus.len() implies #[trigger] gpus[j] == rest[j - 1] by {}
        match gpu_requested(gpus, detail, Some(id)) {
            Ok(g) => {
                if gpus[0].id@ == id {
                    assert(gpus[0] == g);
                } else {
                    let i = choose|i: int|
                        0 <= i < rest.len() && #[trigger] rest[i] == g && forall|j: int|
                            0 <= j < i ==> (#[trigger] rest[j]).id@ != id;
                    assert(gpus[i + 1] == g);
                    assert forall|j: int| 0 <= j < i + 1 implies (#[trigger] gpus[j]).id@ != id by {
                        if j > 0 {
                            assert(rest[j - 1].id@ != id);
                        }
                    }
                }
            },
            Err(_) => {
                assert forall|j: int| 0 <= j < gpus.len() implies (#[trigger] gpus[j]).id@
                    != id by {
                    if j > 0 {
                        assert(rest[j - 1].id@ != id);
                    }
                }
            },
        }
        match gpu_requested(gpus, detail, None) {
            Ok(g) => {
                if gpus[0]@.drivable() {
                    assert(gpus[0] == g);
                } else {
                    let i = choose|i: int|
                        0 <= i < rest.len() && #[trigger] rest[i] == g && forall|j: int|
                            0 <= j < i ==> (#[trigger] rest[j]).core_offset is None
                                && rest[j].mem_offset is None && rest[j].clock_lock is None;
                    assert(gpus[i + 1] == g);
                    assert forall|j: int| 0 <= j < i + 1 implies (#[trigger] gpus[j]).core_offset is
                        None && gpus[j].mem_offset is None && gpus[j].clock_lock is None by {
                        if j > 0 {
                            assert(rest[j - 1].core_offset is None);
                        }
                    }
                }
            },
            Err(_) => {
                assert forall|j: int| 0 <= j < gpus.len() implies (#[trigger] gpus[j]).core_offset is
                    None && gpus[j].mem_offset is None && gpus[j].clock_lock is None by {
                    if j > 0 {
                        assert(rest[j - 1].core_offset is None);
                    }
                }
            },
        }
    }
}

/// An apply that may go ahead starts from what is on the card: what was last
/// written to it, or else what was confirmed for it, or else stock.
pub proof fn law_an_apply_starts_from_what_is_there(
    state: StateView,
    gpus: Seq<GpuProbe>,
    detail: Seq<char>,
    request: ApplyView,
)
    requires
        state.prepared(gpus, detail, request) is Ok,
    ensures
        ({
            let p = state.prepared(gpus, detail, request)->Ok_0;
            let id = p.gpu.id@;
            &&& state.applied.dom().contains(id) ==> p.from == state.applied[id]
            &&& !state.applied.dom().contains(id) && state.config.targets.dom().contains(id)
                ==> p.from == state.config.targets[id]
            &&& !state.applied.dom().contains(id) && !state.config.targets.dom().contains(id)
                ==> p.from == (Target {
                core_offset_mhz: 0,
                mem_offset_mhz: 0,
                core_clock: None,
            })
        }),
{
}

/// What an apply leads to, of the knobs the card has: a value that was named
/// and that the card takes is the one, a value that was not named stays, and
/// nothing is said of either.
pub proof fn law_an_apply_does_what_was_asked(
    state: StateView,
    gpus: Seq<GpuProbe>,
    detail: Seq<char>,
    request: ApplyView,
)
    requires
        state.prepared(gpus, detail, request) is Ok,
    ensures
        ({
            let p = state.prepared(gpus, detail, request)->Ok_0;
            &&& p.gpu.core_offset matches Some(range) ==> {
                let asked = if request.core is Value {
                    request.core->Value_0
                } else {
                    p.from.core_offset_mhz
                };
                range.min <= asked <= range.max ==> p.target.core_offset_mhz == asked
            }
            &&& p.gpu.mem_offset matches Some(range) ==> {
                let asked = if request.mem is Value {
                    request.mem->Value_0
                } else {
                    p.from.mem_offset_mhz
                };
                range.min <= asked <= range.max ==> p.target.mem_offset_mhz == asked
            }
            &&& p.gpu.clock_lock matches Some(range) ==> {
                &&& request.lock is Null ==> p.target.core_clock is None
                &&& request.lock matches LockField::Value(lock) ==> (range.min <= lock.min_mhz
                    <= lock.max_mhz <= range.max ==> p.target.core_clock == Some(lock))
                &&& request.lock is Absent && p.from.core_clock is None ==> p.target.core_clock is
                    None
            }
            &&& p.notes.len() == 0 ==> {
                &&& request.core matches Field::Value(n) ==> p.target.core_offset_mhz == n
                &&& request.mem matches Field::Value(n) ==> p.target.mem_offset_mhz == n
            }
            &&& request.hold matches HoldField::Value(secs) ==> (5 <= secs <= 300 ==> p.hold
                == secs)
        }),
{
}

/// An apply is refused for the card, for the hold, for want of consent, while
/// a change waits, where the card has nothing to change, or for what was asked;
/// and for nothing else.
pub proof fn law_a_sound_apply_goes_ahead(
    state: StateView,
    gpus: Seq<GpuProbe>,
    detail: Seq<char>,
    request: ApplyView,
    i: int,
)
    requires
        0 <= i < gpus.len(),
        gpu_requested(gpus, detail, request.gpu) == Ok::<GpuProbe, ErrorView>(gpus[i]),
        gpus[i].core_offset is Some || gpus[i].mem_offset is Some || gpus[i].clock_lock is Some,
        request.hold !is Invalid,
        state.config.consent matches Some(c) && c.version == 1,
        state.pending is None,
        request.core !is Invalid,
        request.mem !is Invalid,
        request.lock is Absent || request.lock is Null || request.lock is Value,
    ensures
        state.prepared(gpus, detail, request) matches Ok(p) && p.gpu == gpus[i],
{
}

/// A change that waits is undone once its time is up, and not before, unless
/// the driver reports a fault; nothing is undone where nothing waits.
pub proof fn law_an_unconfirmed_change_is_undone(
    state: StateView,
    gpu: GpuView,
    target: Target,
    notes: Seq<MsgView>,
    hold: int,
    now: int,
    fault: bool,
    later: int,
)
    requires
        target != plan::stock(),
    ensures
        ({
            let armed = state.after_climb(gpu, target, notes, hold, now);
            &&& later - now >= hold * 1000 ==> tick(armed.pending, fault, later) == Some(
                RevertReason::NotConfirmed,
            )
            &&& later - now < hold * 1000 && fault ==> tick(armed.pending, fault, later) == Some(
                RevertReason::FaultReported,
            )
            &&& later - now < hold * 1000 && !fault ==> tick(armed.pending, fault, later) is None
            &&& tick(None, fault, later) is None
            &&& armed.left(later) matches Some(left) && (left == 0 <==> later - now >= hold * 1000)
                && (left > 0 ==> later + left == now + hold * 1000)
        }),
{
}

/// What an apply that went well leaves behind: the card's target is remembered
/// as written, the other cards and the warning's answer are as they were, the
/// earlier error is gone and the notes are the new ones. Stock is kept at once;
/// anything else waits.
pub proof fn law_an_apply_is_remembered(
    state: StateView,
    gpu: GpuView,
    target: Target,
    notes: Seq<MsgView>,
    hold: int,
    now: int,
    other: Seq<char>,
)
    requires
        other != gpu.id,
        0 <= hold <= 300,
    ensures
        ({
            let after = state.after_climb(gpu, target, notes, hold, now);
            &&& after.applied.dom().contains(gpu.id) && after.applied[gpu.id] == target
            &&& after.applied.dom().contains(other) == state.applied.dom().contains(other)
            &&& after.current(other) == state.current(other)
            &&& after.confirmed(other) == state.confirmed(other)
            &&& after.config.consent == state.config.consent
            &&& after.config.restore_on_start == state.config.restore_on_start
            &&& after.last_error.len() == 0
            &&& after.last_note == notes
            &&& target == plan::stock() ==> after.confirmed(gpu.id) == target && after.pending
                == state.pending && after.config.armed_gpu is None
            &&& target != plan::stock() ==> (after.config.hold_secs matches Some(secs)
                && secs == hold)
        }),
{
}

/// A confirmation keeps what is on the card that waits, and touches nothing
/// else.
pub proof fn law_a_confirmation_keeps_the_card_as_it_is(state: StateView, other: Seq<char>)
    requires
        state.pending matches Some(p) && p.gpu != other && state.applied.dom().contains(p.gpu),
    ensures
        ({
            let kept = state.after_confirm();
            let gpu = state.pending->0.gpu;
            &&& kept.confirmed(gpu) == state.applied[gpu]
            &&& kept.confirmed(other) == state.confirmed(other)
            &&& kept.applied == state.applied
            &&& kept.pending is None
            &&& kept.config.armed_gpu is None
            &&& kept.config.consent == state.config.consent
            &&& kept.config.hold_secs == state.config.hold_secs
            &&& kept.last_error == state.last_error
        }),
{
}

/// A revert that went well leaves the card at what it was to go back to and
/// says why; one that did not leaves everything that is remembered of the cards
/// as it was, and says so as an error.
pub proof fn law_a_revert_is_remembered(
    state: StateView,
    pending: PendingView,
    reason: RevertReason,
    result: Result<(), ErrorView>,
    words: WordingView,
    other: Seq<char>,
)
    requires
        other != pending.gpu,
    ensures
        ({
            let after = state.after_revert(pending, reason, result, words);
            &&& result is Ok ==> after.current(pending.gpu) == pending.revert_to
                && after.last_note.len() == 1 && after.last_note[0].params == seq![
                ("gpu"@, pending.gpu),
            ] && after.last_error == state.last_error
            &&& result is Err ==> after.applied == state.applied && after.last_error.len() == 1
                && after.last_note == state.last_note
            &&& after.current(other) == state.current(other)
            &&& after.confirmed(pending.gpu) == state.confirmed(pending.gpu)
            &&& after.config.consent == state.config.consent
        }),
{
}

/// The warning has to be accepted in its present words, and an acceptance can
/// be taken back: after it no apply goes ahead.
pub proof fn law_consent_is_given_and_withdrawn(
    state: StateView,
    now_secs: u64,
    gpus: Seq<GpuProbe>,
    detail: Seq<char>,
    request: ApplyView,
)
    ensures
        state.after_consent(true, now_secs).config.consent == Some(
            Consent { accepted_at: now_secs, version: 1 },
        ),
        consented(state.after_consent(true, now_secs).config.consent),
        state.after_consent(false, now_secs).prepared(gpus, detail, request) is Err,
        forall|accepted: bool| #[trigger]
            state.after_consent(accepted, now_secs).config.targets == state.config.targets
                && state.after_consent(accepted, now_secs).applied == state.applied
                && state.after_consent(accepted, now_secs).pending == state.pending,
{
}

/// Saved targets are written at the start only where that was asked for, the
/// last change was confirmed and the warning accepted; and then they are.
pub proof fn law_nothing_is_restored_unasked(config: ConfigView)
    ensures
        started(config).may_restore() <==> config.restore_on_start && config.armed_gpu is None && (
        config.consent matches Some(c) && c.version == 1),
        started(config).config.targets == config.targets,
        started(config).config.consent == config.consent,
        started(config).config.hold_secs == config.hold_secs,
        started(config).pending is None,
{
}

/// Of the saved targets, those that are not stock are restored, each as it was
/// saved and in their order, and no others.
pub proof fn law_every_moved_card_is_restored(entries: Seq<Entry>, e: Entry)
    ensures
        moved(entries).contains(e) <==> entries.contains(e) && (e.target.core_offset_mhz != 0
            || e.target.mem_offset_mhz != 0 || e.target.core_clock is Some),
        moved(entries).len() <= entries.len(),
    decreases entries.len(),
{
    if entries.len() > 0 {
        let rest = entries.drop_last();
        law_every_moved_card_is_restored(rest, e);
        assert(entries == rest.push(entries.last()));
        assert(entries.contains(e) <==> rest.contains(e) || entries.last() == e) by {
            if entries.contains(e) {
                let i = choose|i: int| 0 <= i < entries.len() && entries[i] == e;
                if i < rest.len() {
                    assert(rest[i] == e);
                }
            }
            if rest.contains(e) {
                let i = choose|i: int| 0 <= i < rest.len() && rest[i] == e;
                assert(entries[i] == e);
            }
            assert(entries[entries.len() - 1] == entries.last());
        }
        let before = moved(rest);
        let after = moved(entries);
        if after.len() > before.len() {
            assert(after == before.push(entries.last()));
            assert(after.contains(e) <==> before.contains(e) || entries.last() == e) by {
                if after.contains(e) {
                    let i = choose|i: int| 0 <= i < after.len() && after[i] == e;
                    if i < before.len() {
                        assert(before[i] == e);
                    }
                }
                if before.contains(e) {
                    let i = choose|i: int| 0 <= i < before.len() && before[i] == e;
                    assert(after[i] == e);
                }
                assert(after[before.len() as int] == entries.last());
            }
        }
    }
}

/// A reset writes to a card exactly where this daemon left something other than
/// stock on it, and refuses only a card that is not there.
pub proof fn law_a_reset_writes_what_was_moved(
    state: StateView,
    gpus: Seq<GpuProbe>,
    id: Seq<char>,
    i: int,
)
    requires
        0 <= i < gpus.len(),
        gpus[i].id@ == id,
    ensures
        state.reset_step(gpus, id) == Ok::<ResetStep, ErrorView>(
            if state.applied.dom().contains(id) && (state.applied[id].core_offset_mhz != 0
                || state.applied[id].mem_offset_mhz != 0 || state.applied[id].core_clock is Some) {
                ResetStep::Write
            } else {
                ResetStep::Clear
            },
        ),
    decreases gpus.len(),
{
    if gpus[0].id@ != id {
        assert(gpus.skip(1)[i - 1] == gpus[i]);
        law_a_reset_writes_what_was_moved(state, gpus.skip(1), id, i - 1);
    }
}

/// A reset of every card is one of each card that has anything to change, and
/// of no other.
pub proof fn law_a_reset_of_all_names_every_card(gpus: Seq<GpuView>, id: Seq<char>)
    ensures
        drivable_ids(gpus).contains(id) <==> exists|i: int|
            0 <= i < gpus.len() && (#[trigger] gpus[i]).id == id && (gpus[i].core_offset is Some
                || gpus[i].mem_offset is Some || gpus[i].clock_lock is Some),
    decreases gpus.len(),
{
    if gpus.len() > 0 {
        let rest = gpus.drop_last();
        law_a_reset_of_all_names_every_card(rest, id);
        let before = drivable_ids(rest);
        let after = drivable_ids(gpus);
        assert(forall|k: int| 0 <= k < rest.len() ==> gpus[k] == #[trigger] rest[k]);
        if gpus.last().drivable() {
            assert(after[before.len() as int] == gpus.last().id);
            assert(after.contains(id) <==> before.contains(id) || gpus.last().id == id) by {
                if after.contains(id) {
                    let k = choose|k: int| 0 <= k < after.len() && after[k] == id;
                    if k < before.len() {
                        assert(before[k] == id);
                    }
                }
                if before.contains(id) {
                    let k = choose|k: int| 0 <= k < before.len() && before[k] == id;
                    assert(after[k] == id);
                }
            }
        }
        if after.contains(id) {
            if before.contains(id) {
                let i = choose|i: int|
                    0 <= i < rest.len() && (#[trigger] rest[i]).id == id && (rest[i].core_offset is
                        Some || rest[i].mem_offset is Some || rest[i].clock_lock is Some);
                assert(gpus[i].id == id);
            } else {
                assert(gpus[gpus.len() - 1].id == id);
            }
        }
        if exists|i: int|
            0 <= i < gpus.len() && (#[trigger] gpus[i]).id == id && (gpus[i].core_offset is Some
                || gpus[i].mem_offset is Some || gpus[i].clock_lock is Some) {
            let i = choose|i: int|
                0 <= i < gpus.len() && (#[trigger] gpus[i]).id == id && (gpus[i].core_offset is Some
                    || gpus[i].mem_offset is Some || gpus[i].clock_lock is Some);
            if i < rest.len() {
                assert(rest[i].id == id);
            }
        }
    }
}

/// The state shows of each card what was confirmed and what was written.
pub proof fn law_the_state_shows_each_card(state: StateView, gpu: GpuView)
    ensures
        gpu_status(state, gpu).confirmed == state.confirmed(gpu.id),
        gpu_status(state, gpu).applied matches Some(t) ==> state.current(gpu.id) == t,
        gpu_status(state, gpu).applied is Some <==> state.applied.dom().contains(gpu.id),
        gpu_status(state, gpu).drivable <==> (gpu.core_offset is Some || gpu.mem_offset is Some
            || gpu.clock_lock is Some),
{
}

/// An apply that went through is remembered for its card with the time it holds;
/// one that did not is told and changes nothing else. Either way the caller is
/// answered as the climb was.
pub proof fn law_an_apply_is_answered_as_the_climb_was(
    state: &mut OverclockModule,
    gpu: &GpuProbe,
    prepared: &Prepared,
    result: Result<(), ModuleError>,
    words: &Wording,
    now: u64,
    r: Result<(), ModuleError>,
)
    requires
        call_ensures(
            OverclockModule::finish_apply,
            (state, gpu, prepared, result, words, now),
            r,
        ),
    ensures
        hardware::outcome(r) == hardware::outcome(result),
        result matches Err(e) ==> final(state)@.applied == old(state)@.applied && final(state)@.pending == old(state)@.pending && final(state)@.config == old(state)@.config && final(state)@.last_error == seq![e@.as_msg(words@)],
        result is Ok ==> final(state)@ == old(state)@.after_climb(
            gpu@,
            prepared.clamped.target,
            msg::says(prepared.clamped.notes@),
            prepared.hold as int,
            now as int,
        ),
{
}

/// Confirming and cancelling need a change that waits; without one both are
/// refused and nothing changes.
pub proof fn law_only_a_waiting_change_is_settled(
    state: &mut OverclockModule,
    r: Result<(), ModuleError>,
)
    requires
        call_ensures(OverclockModule::confirm, (state,), r),
    ensures
        r is Ok <==> old(state)@.pending is Some,
        r matches Err(e) ==> e@ == err_nothing_pending() && final(state)@ == old(state)@,
        r is Ok ==> final(state)@.pending is None && final(state)@.applied == old(state)@.applied,
{
}

/// What is cancelled is the change that waits.
pub proof fn law_the_waiting_change_is_cancelled(
    state: &OverclockModule,
    r: Result<Pending, ModuleError>,
)
    requires
        call_ensures(OverclockModule::cancel, (state,), r),
    ensures
        r is Ok <==> state@.pending is Some,
        r matches Ok(p) ==> state@.pending == Some(p@),
        r matches Err(e) ==> e@ == err_nothing_pending(),
{
}

/// A target that was restored is what the card runs with; one that was not is told.
pub proof fn law_a_restored_target_is_remembered(
    state: &mut OverclockModule,
    gpu: &str,
    target: Target,
    result: Result<(), ModuleError>,
    words: &Wording,
)
    requires
        call_ensures(OverclockModule::restored, (state, gpu, target, result, words), ()),
    ensures
        result is Ok ==> final(state)@.applied == old(state)@.applied.insert(gpu@, target) && final(state)@.last_error == old(state)@.last_error,
        result matches Err(e) ==> final(state)@.applied == old(state)@.applied && final(state)@.last_error == seq![e@.as_msg(words@)],
        final(state)@.config == old(state)@.config,
        final(state)@.pending == old(state)@.pending,
{
}

/// Restoring on start and a failed save change nothing but themselves; an apply of
/// what is there already only leaves its notes.
pub proof fn law_small_changes_keep_the_rest(
    state: &mut OverclockModule,
    on: bool,
    saved: Result<(), String>,
    prepared: &Prepared,
)
    ensures
        call_ensures(OverclockModule::set_restore_on_start, (state, on), ()) ==> final(state)@.config.restore_on_start == on && final(state)@.applied == old(state)@.applied && final(state)@.config.consent == old(state)@.config.consent && final(state)@.pending == old(state)@.pending,
        call_ensures(OverclockModule::saved, (state, saved), ()) ==> (final(state)@.last_save_error is None <==> saved is Ok) && final(state)@.config == old(state)@.config
            && final(state)@.applied == old(state)@.applied,
        call_ensures(OverclockModule::already_there, (state, prepared), ()) ==> final(state)@.last_note == msg::says(prepared.clamped.notes@) && final(state)@.applied == old(state)@.applied && final(state)@.pending == old(state)@.pending && final(state)@.config == old(state)@.config,
{
}

/// A reset is of the card that was named, or of every card that can be driven.
pub proof fn law_a_reset_is_of_the_cards_named(
    probe: &Probe,
    gpu: Option<String>,
    r: ResetRun,
)
    requires
        call_ensures(ResetRun::begin, (probe, gpu), r),
    ensures
        gpu matches Some(id) ==> text::views(r.ids@) == seq![id@],
        gpu is None ==> text::views(r.ids@) == drivable_ids(probe::gpu_views(probe.gpus@)),
        r.at == 0 && r.written == 0 && r.failures@.len() == 0,
{
}

/// Each card of a reset is counted where it was written, and its failure kept where
/// it was not; a card that failed is left as it is remembered.
pub proof fn law_each_card_of_a_reset_is_accounted_for(
    state: &mut OverclockModule,
    run: &mut ResetRun,
    written: Option<Result<(), ModuleError>>,
)
    requires
        old(run).at < old(run).ids@.len(),
        call_ensures(OverclockModule::reset_done, (state, run, written), ()),
    ensures
        final(run).at == old(run).at + 1,
        written matches Some(Ok(())) ==> final(run).written == old(run).written + 1 && final(run).failures@ == old(run).failures@ && final(state)@ == old(state)@.after_reset(
            old(run).ids@[old(run).at as int]@,
        ),
        written matches Some(Err(e)) ==> final(run).written == old(run).written && final(run).failures@.len() == old(run).failures@.len() + 1 && final(run).failures@.last().1@ == e@
            && final(state)@ == old(state)@,
        written is None ==> final(run).written == old(run).written && final(run).failures@ == old(run).failures@ && final(state)@ == old(state)@.after_reset(old(run).ids@[old(run).at as int]@),
{
}

/// A reset fails where a card did, telling the first failure, and otherwise says
/// whether there was anything to undo.
pub proof fn law_a_reset_is_summed_up(
    state: &mut OverclockModule,
    run: ResetRun,
    words: &Wording,
    r: Result<(), ModuleError>,
)
    requires
        call_ensures(OverclockModule::reset_finish, (state, run, words), r),
    ensures
        r is Ok <==> run.failures@.len() == 0,
        r matches Err(e) ==> e@.kind() == run.failures@[0].1@.kind(),
        r is Ok && run.written > 0 ==> final(state)@.last_note == seq![note_back_to_stock()],
        r is Ok && run.written == 0 ==> final(state)@.last_note == seq![note_nothing_to_undo()],
        r is Ok ==> final(state)@.last_error.len() == 0,
        final(state)@.applied == old(state)@.applied,
        final(state)@.config == old(state)@.config,
{
    if run.failures@.len() > 0 {
        hardware::law_context_keeps_kind(run.failures@[0].1@, "could not go back to stock"@);
    }
}

/// The status tells the consent as it is, the card that is used where none is
/// named, and whether anything was restored at the start.
pub proof fn law_the_status_tells_consent_and_card(
    state: &OverclockModule,
    probe: &Probe,
    now: u64,
    r: Status,
)
    requires
        call_ensures(OverclockModule::status, (state, probe, now), r),
    ensures
        r.gpus@.len() == probe.gpus@.len(),
        r.default_gpu is Some <==> probe::first_drivable(probe.gpus@) is Some,
        probe::first_drivable(probe.gpus@) matches Some(g) ==> text::opt_view(r.default_gpu) == Some(
            g.id@,
        ),
        r.consent_accepted <==> consented(state.config.consent),
        state.config.consent matches Some(c) ==> r.consent_accepted_at == Some(c.accepted_at),
        state.config.consent is None ==> r.consent_accepted_at is None && !r.consent_accepted,
        r.restored_on_start ==> state.config.restore_on_start && !state.unconfirmed_at_start,
{
}

/// Every card that a reset failed on is told with its own failure.
pub proof fn law_every_failure_of_a_reset_is_told(
    failures: Seq<(String, ModuleError)>,
    words: WordingView,
    i: int,
)
    requires
        0 <= i < failures.len(),
    ensures
        failure_notes(failures, words).len() == failures.len(),
        failure_notes(failures, words)[i].key == "overclock.err.perGpu"@,
        failure_notes(failures, words)[i].params == seq![
            ("id"@, failures[i].0@),
            ("error"@, failures[i].1@.text(words)),
        ],
{
}

/// What is refused is refused for a reason of its own.
pub proof fn law_each_refusal_has_its_own_reason(gpu: Seq<char>, error: Seq<char>)
    ensures
        err_gpu_gone(gpu) matches ErrorView::Localised(kind, said) && kind == ErrorKind::Failed
            && said.key == "overclock.err.gpuGone"@ && said.params == seq![("gpu"@, gpu)],
        err_could_not_undo(error).key == "overclock.err.couldNotUndo"@,
        err_could_not_undo(error).params == seq![("error"@, error)],
        err_no_gpu(gpu) == ErrorView::InvalidParams("no GPU with id '"@ + gpu + "'"@),
{
}

/// What is restored at the start is what was saved and differs from stock, card by
/// card.
pub proof fn law_what_is_restored_is_what_was_saved(
    state: &OverclockModule,
    r: Restore,
    i: int,
)
    requires
        call_ensures(OverclockModule::restore, (state,), r),
    ensures
        r matches Restore::Targets(list) ==> (0 <= i < list@.len() ==> list@[i].gpu@ == moved(
            state.config.targets.listed(),
        )[i].gpu@ && list@[i].target == moved(state.config.targets.listed())[i].target),
        r is Targets ==> consented(state.config.consent) && state.config.restore_on_start
            && !state.unconfirmed_at_start,
        r is Unconfirmed ==> state.unconfirmed_at_start,
        r is NotConsented ==> !consented(state.config.consent),
{
}

/// Each message has a key of its own, names what it is about, and says so in these
/// words.
pub proof fn law_messages_have_keys_and_words(
    gpu: Seq<char>,
    detail: Seq<char>,
    error: Seq<char>,
    id: Seq<char>,
)
    ensures
        ({
            let m = note_unconfirmed_at_start();
            &&& m.key == "overclock.note.unconfirmedAtStart"@
            &&& m.params.len() == 0
            &&& m.text == msg::fill("the last overclock was never confirmed, so this boot starts at stock and nothing was restored"@, m.params)
        }),
        ({
            let m = note_kept(gpu);
            &&& m.key == "overclock.note.kept"@
            &&& m.params.len() == 1
            &&& m.params[0].0 == "gpu"@
            &&& m.text == msg::fill("kept the change to {gpu}"@, m.params)
        }),
        ({
            let m = note_back_to_stock();
            &&& m.key == "overclock.note.backToStock"@
            &&& m.params.len() == 0
            &&& m.text == msg::fill("back to the clocks the firmware shipped"@, m.params)
        }),
        ({
            let m = note_nothing_to_undo();
            &&& m.key == "overclock.note.nothingToUndo"@
            &&& m.params.len() == 0
            &&& m.text == msg::fill("nothing to undo: this daemon has not moved these clocks"@, m.params)
        }),
        err_not_consented() matches ErrorView::Localised(kind, m)
            && kind == ErrorKind::InvalidParams
            && m.key == "overclock.err.notConsented"@
            && m.params.len() == 0
            && m.text == msg::fill("overclocking has not been consented to on this machine; call overclock.setConsent with the text from overclock.getState first"@, m.params),
        err_pending(gpu) matches ErrorView::Localised(kind, m)
            && kind == ErrorKind::Busy
            && m.key == "overclock.err.pending"@
            && m.params.len() == 1
            && m.params[0].0 == "gpu"@
            && m.text == msg::fill("the last change to {gpu} is still waiting to be confirmed or undone"@, m.params),
        err_nothing_pending() matches ErrorView::Localised(kind, m)
            && kind == ErrorKind::InvalidParams
            && m.key == "overclock.err.nothingPending"@
            && m.params.len() == 0
            && m.text == msg::fill("there is nothing waiting to be confirmed"@, m.params),
        err_nothing_to_tune(detail) matches ErrorView::Localised(kind, m)
            && kind == ErrorKind::NotCapable
            && m.key == "overclock.err.nothingToTune"@
            && m.params.len() == 1
            && m.params[0].0 == "detail"@
            && m.text == msg::fill("nothing here can be tuned: {detail}"@, m.params),
        err_gpu_gone(gpu) matches ErrorView::Localised(kind, m)
            && kind == ErrorKind::Failed
            && m.key == "overclock.err.gpuGone"@
            && m.params.len() == 1
            && m.params[0].0 == "gpu"@
            && m.text == msg::fill("{gpu} is gone"@, m.params),
        ({
            let m = err_could_not_undo(error);
            &&& m.key == "overclock.err.couldNotUndo"@
            &&& m.params.len() == 1
            &&& m.params[0].0 == "error"@
            &&& m.text == msg::fill("could not undo the overclock: {error}"@, m.params)
        }),
        ({
            let m = err_per_gpu(id, error);
            &&& m.key == "overclock.err.perGpu"@
            &&& m.params.len() == 2
            &&& m.params[0].0 == "id"@
            &&& m.params[1].0 == "error"@
            &&& m.text == msg::fill("{id}: {error}"@, m.params)
        }),
{
}

} // verus!
