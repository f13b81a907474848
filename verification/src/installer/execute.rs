//! Carrying out a plan, step by step.
//!
//! What a step does to the machine is done elsewhere; this module decides
//! which steps are run, takes what came of them, and says which files the
//! steps read, write and remove.
use vstd::prelude::*;
use vstd::string::*;

use crate::installer::patch::BoardTable;
use crate::installer::patch::MaxRpm;
use crate::installer::plan;
use crate::installer::plan::Plan;
use crate::installer::plan::Step;
use crate::installer::plan::StepView;
use crate::msg;
use crate::msg::Msg;
use crate::msg::MsgView;
use crate::number;
use crate::text;

verus! {

pub const SERVICE_PATH: &'static str = "/etc/systemd/system/pyren-daemon.service";

pub const MODPROBE_CONF_PATH: &'static str = "/etc/modprobe.d/pyren-hp-wmi.conf";

/// The driver's parameters for measured ceilings, in hundreds of rpm.
pub const CPU_RPM_PARAM: &'static str = "cpu_max_rpm_measured";

pub const GPU_RPM_PARAM: &'static str = "gpu_max_rpm_measured";

/// Extra inputs an install needs beyond the plan itself.
#[derive(Debug, Clone)]
pub struct ExecuteContext {
    pub max_rpm: MaxRpm,
    pub experimental_board: Option<(BoardTable, String)>,
    /// Path of the daemon binary, for the service unit.
    pub daemon_binary: Option<String>,
    /// Ids of steps the caller asked not to run. Only optional ones count.
    pub skip_steps: Vec<String>,
}

impl Default for ExecuteContext {
    fn default() -> (r: ExecuteContext)
        ensures
            r.max_rpm == (MaxRpm { cpu: None, gpu: None }),
            r.experimental_board is None,
            r.daemon_binary is None,
            r.skip_steps@.len() == 0,
    {
        ExecuteContext {
            max_rpm: MaxRpm { cpu: None, gpu: None },
            experimental_board: None,
            daemon_binary: None,
            skip_steps: Vec::new(),
        }
    }
}

#[derive(Debug, Clone, Copy, PartialEq, Eq, Structural)]
pub enum StepStatus {
    Done,
    /// Failed, but the step was optional so the run continued.
    Warned,
    Failed,
    /// Not attempted because an earlier required step failed.
    Skipped,
    /// Optional, and the caller asked for it not to be run.
    Declined,
    /// Dry run: this is what would have happened.
    Planned,
}

#[derive(Debug, Clone)]
pub struct StepResult {
    pub id: String,
    /// Copied from the plan step.
    pub description: String,
    pub status: StepStatus,
    /// The step's own words for one that was not run, or the output of a real
    /// run as it is.
    pub detail: Msg,
}

#[verifier::ext_equal]
pub struct ResultView {
    pub id: Seq<char>,
    pub description: Seq<char>,
    pub status: StepStatus,
    pub detail: MsgView,
}

impl View for StepResult {
    type V = ResultView;

    open spec fn view(&self) -> ResultView {
        ResultView {
            id: self.id@,
            description: self.description@,
            status: self.status,
            detail: self.detail@,
        }
    }
}

pub open spec fn result_views(results: Seq<StepResult>) -> Seq<ResultView> {
    Seq::new(results.len(), |i: int| results[i]@)
}

#[derive(Debug, Clone)]
pub struct ExecutionReport {
    pub dry_run: bool,
    pub succeeded: bool,
    pub results: Vec<StepResult>,
}

// --- one step ------------------------------------------------------------

/// Whether a step has to be run: not after a failure, not where the caller
/// declined an optional one, and not in a dry run.
pub open spec fn runs(step: StepView, failed: bool, skip: Seq<Seq<char>>, dry_run: bool) -> bool {
    !failed && !(step.optional && skip.contains(step.id)) && !dry_run
}

pub open spec fn of_step(step: StepView, status: StepStatus, detail: MsgView) -> ResultView {
    ResultView { id: step.id, description: step.description, status, detail }
}

/// What becomes of a step. `ran` is what running it came to, where it was run.
pub open spec fn result_of(
    step: StepView,
    failed: bool,
    skip: Seq<Seq<char>>,
    dry_run: bool,
    ran: Result<Seq<char>, Seq<char>>,
) -> ResultView {
    if failed {
        of_step(
            step,
            StepStatus::Skipped,
            msg::message(
                "installer.exec.skipped"@,
                seq![],
                "skipped after an earlier failure"@,
            ),
        )
    } else if step.optional && skip.contains(step.id) {
        of_step(
            step,
            StepStatus::Declined,
            msg::message("installer.exec.declined"@, seq![], "not run, at your request"@),
        )
    } else if dry_run {
        of_step(
            step,
            StepStatus::Planned,
            if step.command.len() == 0 {
                msg::message(
                    "installer.exec.internalAction"@,
                    seq![],
                    "carried out by the daemon itself"@,
                )
            } else {
                msg::literal(text::join(step.command, " "@))
            },
        )
    } else {
        match ran {
            Ok(detail) => of_step(step, StepStatus::Done, msg::literal(detail)),
            Err(e) => of_step(
                step,
                if step.optional {
                    StepStatus::Warned
                } else {
                    StepStatus::Failed
                },
                msg::literal(e),
            ),
        }
    }
}

/// The results of a whole run, given what running each step would come to.
pub open spec fn results_of(
    steps: Seq<StepView>,
    skip: Seq<Seq<char>>,
    dry_run: bool,
    ran: Seq<Result<Seq<char>, Seq<char>>>,
) -> Seq<ResultView>
    decreases steps.len(),
{
    if steps.len() == 0 {
        seq![]
    } else {
        let before = results_of(steps.drop_last(), skip, dry_run, ran);
        before.push(
            result_of(
                steps.last(),
                any_failed(before),
                skip,
                dry_run,
                ran[steps.len() - 1],
            ),
        )
    }
}

pub open spec fn any_failed(results: Seq<ResultView>) -> bool {
    exists|i: int| 0 <= i < results.len() && (#[trigger] results[i]).status == StepStatus::Failed
}

fn result(step: &Step, status: StepStatus, detail: Msg) -> (r: StepResult)
    ensures
        r@ == of_step(step@, status, detail@),
{
    StepResult {
        id: step.id.clone(),
        description: step.description.clone(),
        status,
        detail,
    }
}

pub open spec fn ran_view(ran: Option<Result<String, String>>) -> Result<Seq<char>, Seq<char>> {
    match ran {
        Some(Ok(s)) => Ok(s@),
        Some(Err(e)) => Err(e@),
        None => Ok(seq![]),
    }
}

// --- telling how far a run is --------------------------------------------

/// What a watcher is told: once as a step starts, and once with what it did.
#[derive(Debug, Clone)]
pub struct Progress {
    /// Counted from nought.
    pub index: usize,
    pub total: usize,
    pub id: String,
    /// Copied from the plan step.
    pub description: String,
    /// Nothing while the step is running; the outcome once it is over.
    pub status: Option<StepStatus>,
    pub detail: Option<Msg>,
}

#[verifier::ext_equal]
pub struct ProgressView {
    pub index: int,
    pub total: int,
    pub id: Seq<char>,
    pub description: Seq<char>,
    pub status: Option<StepStatus>,
    pub detail: Option<MsgView>,
}

impl View for Progress {
    type V = ProgressView;

    open spec fn view(&self) -> ProgressView {
        ProgressView {
            index: self.index as int,
            total: self.total as int,
            id: self.id@,
            description: self.description@,
            status: self.status,
            detail: msg::opt_says(self.detail),
        }
    }
}

/// What is told as a step starts.
pub open spec fn start_of(steps: Seq<StepView>, index: int) -> ProgressView {
    ProgressView {
        index,
        total: steps.len() as int,
        id: steps[index].id,
        description: steps[index].description,
        status: None,
        detail: None,
    }
}

/// What is told once a step is over.
pub open spec fn end_of(steps: Seq<StepView>, index: int, result: ResultView) -> ProgressView {
    ProgressView {
        status: Some(result.status),
        detail: Some(result.detail),
        ..start_of(steps, index)
    }
}

/// Tells that a step starts.
pub fn step_started(plan: &Plan, index: usize) -> (r: Progress)
    requires
        index < plan.steps@.len(),
    ensures
        r@ == start_of(plan::step_views(plan.steps@), index as int),
{
    let step = &plan.steps[index];
    proof {
        assert(plan::step_views(plan.steps@)[index as int] == step@);
    }
    Progress {
        index,
        total: plan.steps.len(),
        id: step.id.clone(),
        description: step.description.clone(),
        status: None,
        detail: None,
    }
}

/// Tells what a step did.
pub fn step_finished(plan: &Plan, index: usize, result: &StepResult) -> (r: Progress)
    requires
        index < plan.steps@.len(),
    ensures
        r@ == end_of(plan::step_views(plan.steps@), index as int, result@),
{
    let started = step_started(plan, index);
    Progress { status: Some(result.status), detail: Some(result.detail.copy()), ..started }
}

/// A run under way.
pub struct Execution {
    dry_run: bool,
    failed: bool,
    results: Vec<StepResult>,
}

impl Execution {
    pub closed spec fn dry(&self) -> bool {
        self.dry_run
    }

    pub closed spec fn done(&self) -> Seq<ResultView> {
        result_views(self.results@)
    }

    pub closed spec fn wf(&self) -> bool {
        self.failed == any_failed(result_views(self.results@))
    }

    /// The first steps have been recorded, as many as `ran` says what running
    /// them came to, and what is recorded of them is what becomes of them.
    pub open spec fn came_to(
        &self,
        steps: Seq<StepView>,
        skip: Seq<Seq<char>>,
        ran: Seq<Result<Seq<char>, Seq<char>>>,
    ) -> bool {
        &&& ran.len() <= steps.len()
        &&& self.done() == results_of(steps.take(ran.len() as int), skip, self.dry(), ran)
    }

    pub fn begin(dry_run: bool) -> (r: Execution)
        ensures
            r.wf(),
            r.dry() == dry_run,
            r.done() == Seq::<ResultView>::empty(),
            forall|steps: Seq<StepView>, skip: Seq<Seq<char>>| #[trigger]
                r.came_to(steps, skip, seq![]),
    {
        let r = Execution { dry_run, failed: false, results: Vec::new() };
        proof {
            assert(r.done() =~= Seq::<ResultView>::empty());
        }
        r
    }

    /// The place of the next step in the plan; nothing when all are done.
    pub fn next(&self, plan: &Plan) -> (r: Option<usize>)
        ensures
            match r {
                Some(i) => i == self.done().len() && i < plan.steps@.len(),
                None => self.done().len() >= plan.steps@.len(),
            },
    {
        if self.results.len() < plan.steps.len() {
            Some(self.results.len())
        } else {
            None
        }
    }

    /// Whether the next step has to be run.
    pub fn must_run(&self, plan: &Plan, context: &ExecuteContext) -> (r: bool)
        requires
            self.wf(),
            self.done().len() < plan.steps@.len(),
        ensures
            r == runs(
                plan.steps@[self.done().len() as int]@,
                any_failed(self.done()),
                text::views(context.skip_steps@),
                self.dry(),
            ),
    {
        let step = &plan.steps[self.results.len()];
        !self.failed && !(step.optional && text::list_has(&context.skip_steps, step.id.as_str()))
            && !self.dry_run
    }

    /// Records the next step. `ran` is what running it came to, where it was
    /// run.
    pub fn record(
        &mut self,
        plan: &Plan,
        context: &ExecuteContext,
        ran: Option<Result<String, String>>,
    )
        requires
            old(self).wf(),
            old(self).done().len() < plan.steps@.len(),
            runs(
                plan.steps@[old(self).done().len() as int]@,
                any_failed(old(self).done()),
                text::views(context.skip_steps@),
                old(self).dry(),
            ) ==> ran is Some,
        ensures
            final(self).wf(),
            final(self).dry() == old(self).dry(),
            final(self).done() == old(self).done().push(
                result_of(
                    plan.steps@[old(self).done().len() as int]@,
                    any_failed(old(self).done()),
                    text::views(context.skip_steps@),
                    old(self).dry(),
                    ran_view(ran),
                ),
            ),
            forall|earlier: Seq<Result<Seq<char>, Seq<char>>>| #[trigger]
                old(self).came_to(
                    plan::step_views(plan.steps@),
                    text::views(context.skip_steps@),
                    earlier,
                ) ==> final(self).came_to(
                    plan::step_views(plan.steps@),
                    text::views(context.skip_steps@),
                    earlier.push(ran_view(ran)),
                ),
    {
        let ghost before = self.results@;
        let ghost was_failed = self.failed;
        let step = &plan.steps[self.results.len()];
        let done = if self.failed {
            result(
                step,
                StepStatus::Skipped,
                Msg::plain("installer.exec.skipped", "skipped after an earlier failure"),
            )
        } else if step.optional && text::list_has(&context.skip_steps, step.id.as_str()) {
            result(
                step,
                StepStatus::Declined,
                Msg::plain("installer.exec.declined", "not run, at your request"),
            )
        } else if self.dry_run {
            let detail = if step.command.len() == 0 {
                Msg::plain("installer.exec.internalAction", "carried out by the daemon itself")
            } else {
                Msg::literal(text::joined(&step.command, " "))
            };
            result(step, StepStatus::Planned, detail)
        } else {
            match ran {
                Some(Ok(detail)) => result(step, StepStatus::Done, Msg::literal(detail)),
                Some(Err(e)) => {
                    if step.optional {
                        result(step, StepStatus::Warned, Msg::literal(e))
                    } else {
                        self.failed = true;
                        result(step, StepStatus::Failed, Msg::literal(e))
                    }
                },
                None => result(step, StepStatus::Done, Msg::literal(String::new())),
            }
        };
        let ghost view = done@;
        self.results.push(done);
        proof {
            assert(result_views(self.results@) =~= result_views(before).push(view));
            lemma_failed_after(result_views(before), view);
            let steps = plan::step_views(plan.steps@);
            let skip = text::views(context.skip_steps@);
            assert forall|earlier: Seq<Result<Seq<char>, Seq<char>>>| #[trigger]
                old(self).came_to(steps, skip, earlier) implies self.came_to(
                steps,
                skip,
                earlier.push(ran_view(ran)),
            ) by {
                lemma_one_result_per_step(
                    steps.take(earlier.len() as int),
                    skip,
                    self.dry(),
                    earlier,
                );
                law_a_run_takes_its_steps_in_turn(
                    steps,
                    skip,
                    self.dry(),
                    earlier,
                    ran_view(ran),
                );
            }
        }
    }

    /// What the last recorded step did.
    pub fn last(&self) -> (r: Option<&StepResult>)
        ensures
            match r {
                Some(result) => self.done().len() > 0 && result@ == self.done().last(),
                None => self.done().len() == 0,
            },
    {
        let n: usize = self.results.len();
        if n == 0 {
            None
        } else {
            Some(&self.results[n - 1])
        }
    }

    pub fn report(self) -> (r: ExecutionReport)
        requires
            self.wf(),
        ensures
            r.dry_run == self.dry(),
            r.succeeded == !any_failed(self.done()),
            result_views(r.results@) == self.done(),
    {
        ExecutionReport { dry_run: self.dry_run, succeeded: !self.failed, results: self.results }
    }
}

proof fn lemma_failed_after(results: Seq<ResultView>, last: ResultView)
    ensures
        any_failed(results.push(last)) == (any_failed(results) || last.status
            == StepStatus::Failed),
{
    let after = results.push(last);
    if any_failed(results) {
        let i = choose|i: int|
            0 <= i < results.len() && (#[trigger] results[i]).status == StepStatus::Failed;
        assert(after[i].status == StepStatus::Failed);
    }
    if last.status == StepStatus::Failed {
        assert(after[results.len() as int].status == StepStatus::Failed);
    }
    if any_failed(after) {
        let i = choose|i: int|
            0 <= i < after.len() && (#[trigger] after[i]).status == StepStatus::Failed;
        if i < results.len() {
            assert(results[i].status == StepStatus::Failed);
        }
    }
}

/// Nothing is run in a rehearsal, so nothing comes of it.
pub open spec fn rehearsed(steps: Seq<StepView>, skip: Seq<Seq<char>>) -> Seq<ResultView> {
    results_of(
        steps,
        skip,
        true,
        Seq::new(steps.len(), |i: int| Ok::<Seq<char>, Seq<char>>(seq![])),
    )
}

/// What running later steps would come to does not matter.
proof fn lemma_results_agree(
    steps: Seq<StepView>,
    skip: Seq<Seq<char>>,
    dry_run: bool,
    a: Seq<Result<Seq<char>, Seq<char>>>,
    b: Seq<Result<Seq<char>, Seq<char>>>,
)
    requires
        a.len() >= steps.len(),
        b.len() >= steps.len(),
        forall|i: int| 0 <= i < steps.len() ==> a[i] == b[i],
    ensures
        results_of(steps, skip, dry_run, a) == results_of(steps, skip, dry_run, b),
    decreases steps.len(),
{
    if steps.len() > 0 {
        lemma_results_agree(steps.drop_last(), skip, dry_run, a, b);
    }
}

/// A dry run of the whole plan: what would be done, without doing any of it.
pub fn execute(plan: &Plan, context: &ExecuteContext) -> (r: ExecutionReport)
    ensures
        r.dry_run,
        r.succeeded,
        result_views(r.results@) == rehearsed(
            plan::step_views(plan.steps@),
            text::views(context.skip_steps@),
        ),
{
    let mut run = Execution::begin(true);
    let n: usize = plan.steps.len();
    let ghost steps = plan::step_views(plan.steps@);
    let ghost skip = text::views(context.skip_steps@);
    let mut i: usize = 0;
    proof {
        assert(steps.take(0) =~= seq![]);
    }
    while i < n
        invariant
            n == plan.steps@.len(),
            i <= n,
            steps == plan::step_views(plan.steps@),
            skip == text::views(context.skip_steps@),
            run.wf(),
            run.dry(),
            run.done().len() == i,
            !any_failed(run.done()),
            run.done() == rehearsed(steps.take(i as int), skip),
        decreases n - i,
    {
        let ghost before = run.done();
        run.record(plan, context, None);
        proof {
            let now = steps.take(i + 1);
            let quiet = |k: int| Ok::<Seq<char>, Seq<char>>(seq![]);
            assert(now.drop_last() =~= steps.take(i as int));
            assert(now.last() == plan.steps@[i as int]@);
            lemma_results_agree(
                steps.take(i as int),
                skip,
                true,
                Seq::new(steps.take(i as int).len(), quiet),
                Seq::new(now.len(), quiet),
            );
            assert(run.done() =~= rehearsed(now, skip));
            lemma_failed_after(before, run.done().last());
        }
        i = i + 1;
    }
    proof {
        assert(steps.take(n as int) =~= steps);
    }
    run.report()
}

// --- what a step is ------------------------------------------------------

/// What running a step means.
#[derive(Debug, Clone, Copy, PartialEq, Eq, Structural)]
pub enum StepAction {
    /// Run the step's command.
    RunCommand,
    PatchSource,
    StageSource,
    BackupDriver,
    InstallModule,
    InstallHook,
    WriteModprobeConf,
    RemoveModprobeConf,
    RemoveSources,
    RemoveHooks,
    RestoreBackups,
    WriteUnit,
    RemoveUnit,
}

pub open spec fn action_of(step: StepView) -> Result<StepAction, Seq<char>> {
    if step.command.len() > 0 {
        Ok(StepAction::RunCommand)
    } else if step.id == "patch-source"@ {
        Ok(StepAction::PatchSource)
    } else if step.id == "stage-source"@ {
        Ok(StepAction::StageSource)
    } else if step.id == "backup-driver"@ {
        Ok(StepAction::BackupDriver)
    } else if step.id == "install-module"@ {
        Ok(StepAction::InstallModule)
    } else if text::starts_with(step.id, "install-hook"@) {
        Ok(StepAction::InstallHook)
    } else if step.id == "write-modprobe-conf"@ {
        Ok(StepAction::WriteModprobeConf)
    } else if step.id == "remove-modprobe-conf"@ {
        Ok(StepAction::RemoveModprobeConf)
    } else if step.id == "remove-sources"@ {
        Ok(StepAction::RemoveSources)
    } else if step.id == "remove-hooks"@ {
        Ok(StepAction::RemoveHooks)
    } else if step.id == "restore-backups"@ {
        Ok(StepAction::RestoreBackups)
    } else if step.id == "write-unit"@ {
        Ok(StepAction::WriteUnit)
    } else if step.id == "remove-unit"@ {
        Ok(StepAction::RemoveUnit)
    } else {
        Err("no implementation for internal step '"@ + step.id + "'"@)
    }
}

pub fn run_step(step: &Step) -> (r: Result<StepAction, String>)
    ensures
        (match r {
            Ok(a) => Ok(a),
            Err(e) => Err(e@),
        }) == action_of(step@),
{
    if step.command.len() > 0 {
        return Ok(StepAction::RunCommand);
    }
    let id = step.id.as_str();
    if text::same(id, "patch-source") {
        Ok(StepAction::PatchSource)
    } else if text::same(id, "stage-source") {
        Ok(StepAction::StageSource)
    } else if text::same(id, "backup-driver") {
        Ok(StepAction::BackupDriver)
    } else if text::same(id, "install-module") {
        Ok(StepAction::InstallModule)
    } else if text::str_starts(id, "install-hook") {
        Ok(StepAction::InstallHook)
    } else if text::same(id, "write-modprobe-conf") {
        Ok(StepAction::WriteModprobeConf)
    } else if text::same(id, "remove-modprobe-conf") {
        Ok(StepAction::RemoveModprobeConf)
    } else if text::same(id, "remove-sources") {
        Ok(StepAction::RemoveSources)
    } else if text::same(id, "remove-hooks") {
        Ok(StepAction::RemoveHooks)
    } else if text::same(id, "restore-backups") {
        Ok(StepAction::RestoreBackups)
    } else if text::same(id, "write-unit") {
        Ok(StepAction::WriteUnit)
    } else if text::same(id, "remove-unit") {
        Ok(StepAction::RemoveUnit)
    } else {
        Err(String::from_str("no implementation for internal step '").concat(id).concat("'"))
    }
}

/// The last line of what a command printed.
pub open spec fn last_line(stdout: Seq<char>) -> Seq<char> {
    let all = text::lines(stdout);
    if all.len() == 0 {
        seq![]
    } else {
        all.last()
    }
}

/// What a command that ran came to: its last line, or its complaint. `code` is
/// the exit code, where there was one.
pub fn run_command(
    program: &str,
    success: bool,
    code: Option<i32>,
    stdout: &str,
    stderr: &str,
) -> (r: Result<String, String>)
    ensures
        (match r {
            Ok(s) => Ok(s@),
            Err(e) => Err(e@),
        }) == (if success {
            Ok(last_line(stdout@))
        } else {
            Err(
                program@ + " exited with "@ + number::decimal_int(
                    match code {
                        Some(c) => c as int,
                        None => -1,
                    },
                ) + ": "@ + text::trim(stderr@),
            )
        }),
{
    if success {
        let rows = text::lines_of(&text::chars_of(stdout));
        let n: usize = rows.len();
        if n == 0 {
            let empty = String::new();
            proof {
                assert(empty@ =~= seq![]);
            }
            return Ok(empty);
        }
        proof {
            assert(text::rows(rows@).last() == rows@[n - 1]@);
        }
        return Ok(text::string_of(&rows[n - 1]));
    }
    let shown: i32 = match code {
        Some(c) => c,
        None => -1,
    };
    Err(
        String::from_str(program).concat(" exited with ").concat(
            number::show_int(shown as i64).as_str(),
        ).concat(": ").concat(text::trimmed_str(stderr).as_str()),
    )
}

// --- the sources ---------------------------------------------------------

/// What patching reports.
pub fn patch_source(applied: &Vec<String>) -> (r: String)
    ensures
        r@ == (if applied@.len() == 0 {
            "no source changes requested"@
        } else {
            text::join(text::views(applied@), "; "@)
        }),
{
    if applied.len() == 0 {
        String::from_str("no source changes requested")
    } else {
        text::joined(applied, "; ")
    }
}

/// The `dkms.conf` that is staged: the template with the package's identity.
pub fn stage_source(template: &str) -> (r: String)
    ensures
        r@ == text::replace_all(
            text::replace_all(template@, "@PKGNAME@"@, plan::DKMS_NAME@),
            "@PKGVER@"@,
            plan::DKMS_VERSION@,
        ),
{
    proof {
        reveal_strlit("@PKGNAME@");
        reveal_strlit("@PKGVER@");
    }
    let named = text::replaced_all(template, "@PKGNAME@", plan::DKMS_NAME);
    text::replaced_all(named.as_str(), "@PKGVER@", plan::DKMS_VERSION)
}

// --- the modules ---------------------------------------------------------

/// The one directory a distribution ships its own module in.
pub open spec fn stock_dir(release: Seq<char>) -> Seq<char> {
    "/lib/modules/"@ + release + "/kernel/drivers/platform/x86/hp"@
}

pub fn stock_module_dir(kernel_release: &str) -> (r: String)
    ensures
        r@ == stock_dir(kernel_release@),
{
    String::from_str("/lib/modules/").concat(kernel_release).concat(
        "/kernel/drivers/platform/x86/hp",
    )
}

/// The directories a module is looked for in.
pub fn module_dirs(kernel_release: &str) -> (r: Vec<String>)
    ensures
        text::views(r@) == seq![
            stock_dir(kernel_release@),
            "/lib/modules/"@ + kernel_release@ + "/updates"@,
        ],
{
    text::list_two(
        stock_module_dir(kernel_release),
        String::from_str("/lib/modules/").concat(kernel_release).concat("/updates"),
    )
}

/// A file found in a module directory.
#[derive(Debug, Clone)]
pub struct ModuleFile {
    pub path: String,
    pub name: String,
}

pub open spec fn is_backup(path: Seq<char>) -> bool {
    text::ends_with(path, ".bak"@)
}

fn backup_path(path: &str) -> (r: bool)
    ensures
        r == is_backup(path@),
{
    let chars = text::chars_of(path);
    let mark = text::chars_of(".bak");
    let n: usize = chars.len();
    let m: usize = mark.len();
    if n < m {
        return false;
    }
    text::is_at(&chars, &mark, n - m)
}

pub open spec fn some_backup(paths: Seq<Seq<char>>) -> bool {
    exists|i: int| 0 <= i < paths.len() && is_backup(#[trigger] paths[i])
}

/// What is done to a module that is in the way: where it is copied to, if
/// anywhere, before it is removed.
#[derive(Debug, Clone)]
pub struct Removal {
    pub path: String,
    pub backup: Option<String>,
}

pub open spec fn removal_views(v: Seq<Removal>) -> Seq<(Seq<char>, Option<Seq<char>>)> {
    Seq::new(v.len(), |i: int| (v[i].path@, text::opt_view(v[i].backup)))
}

/// The modules that go, each with the backup that is made of it first.
pub open spec fn removals(paths: Seq<Seq<char>>, holds_stock: bool) -> Seq<
    (Seq<char>, Option<Seq<char>>),
>
    decreases paths.len(),
{
    if paths.len() == 0 {
        seq![]
    } else if is_backup(paths.last()) {
        removals(paths.drop_last(), holds_stock)
    } else {
        removals(paths.drop_last(), holds_stock).push(
            (
                paths.last(),
                if holds_stock {
                    Some(paths.last() + ".bak"@)
                } else {
                    None
                },
            ),
        )
    }
}

/// Decides what is done to the modules found in one directory. A backup that
/// is there already means the stock module is safe, so what is there now is
/// ours; and only the distribution's own directory holds a stock module.
pub fn backup_in(modules: &Vec<String>, may_hold_stock: bool) -> (r: Vec<Removal>)
    ensures
        removal_views(r@) == removals(
            text::views(modules@),
            may_hold_stock && !some_backup(text::views(modules@)),
        ),
{
    let n: usize = modules.len();
    let ghost paths = text::views(modules@);
    let mut already: bool = false;
    let mut k: usize = 0;
    while k < n
        invariant
            n == modules@.len(),
            k <= n,
            paths == text::views(modules@),
            already == exists|i: int| 0 <= i < k && is_backup(#[trigger] paths[i]),
        decreases n - k,
    {
        proof {
            assert(paths[k as int] == modules@[k as int]@);
        }
        if backup_path(modules[k].as_str()) {
            already = true;
        }
        k = k + 1;
    }
    let holds_stock = may_hold_stock && !already;
    let mut out: Vec<Removal> = Vec::new();
    let mut i: usize = 0;
    proof {
        assert(paths.take(0) =~= seq![]);
        assert(removal_views(out@) =~= seq![]);
    }
    while i < n
        invariant
            n == modules@.len(),
            i <= n,
            paths == text::views(modules@),
            removal_views(out@) == removals(paths.take(i as int), holds_stock),
        decreases n - i,
    {
        let ghost before = out@;
        proof {
            assert(paths.take(i + 1).drop_last() =~= paths.take(i as int));
            assert(paths.take(i + 1).last() == modules@[i as int]@);
        }
        if !backup_path(modules[i].as_str()) {
            let backup = if holds_stock {
                Some(modules[i].clone().concat(".bak"))
            } else {
                None
            };
            let removal = Removal { path: modules[i].clone(), backup };
            let ghost pushed = (removal.path@, text::opt_view(removal.backup));
            out.push(removal);
            proof {
                assert(removal_views(out@) =~= removal_views(before).push(pushed));
            }
        }
        i = i + 1;
    }
    proof {
        assert(paths.take(n as int) =~= paths);
    }
    out
}

/// What the backup step reports.
pub fn backup_report(backed_up: &Vec<String>) -> (r: String)
    ensures
        r@ == (if backed_up@.len() == 0 {
            "no stock driver found to back up"@
        } else {
            "backed up "@ + text::join(text::views(backed_up@), ", "@)
        }),
{
    if backed_up.len() == 0 {
        String::from_str("no stock driver found to back up")
    } else {
        String::from_str("backed up ").concat(text::joined(backed_up, ", ").as_str())
    }
}

/// The name a backup goes back to; nothing for what is no backup.
pub open spec fn original_of(path: Seq<char>) -> Option<Seq<char>> {
    if is_backup(path) {
        Some(path.take(path.len() - ".bak"@.len()))
    } else {
        None
    }
}

pub fn restore_name(path: &str) -> (r: Option<String>)
    ensures
        text::opt_view(r) == original_of(path@),
{
    if !backup_path(path) {
        return None;
    }
    let chars = text::chars_of(path);
    let mark = text::chars_of(".bak");
    let n: usize = chars.len();
    let m: usize = mark.len();
    let stem = text::slice(&chars, 0, n - m);
    proof {
        assert(stem@ =~= path@.take(n - m));
    }
    Some(text::string_of(&stem))
}

pub open spec fn file_views(v: Seq<ModuleFile>) -> Seq<(Seq<char>, Seq<char>)> {
    Seq::new(v.len(), |i: int| (v[i].path@, v[i].name@))
}

/// The files that are modules, not backups of one.
pub open spec fn modules_only(files: Seq<(Seq<char>, Seq<char>)>) -> Seq<(Seq<char>, Seq<char>)>
    decreases files.len(),
{
    if files.len() == 0 {
        seq![]
    } else if is_backup(files.last().0) {
        modules_only(files.drop_last())
    } else {
        modules_only(files.drop_last()).push(files.last())
    }
}

/// The paths of the files that were not just restored.
pub open spec fn not_restored(
    files: Seq<(Seq<char>, Seq<char>)>,
    restored: Seq<Seq<char>>,
) -> Seq<Seq<char>>
    decreases files.len(),
{
    if files.len() == 0 {
        seq![]
    } else if restored.contains(files.last().0) {
        not_restored(files.drop_last(), restored)
    } else {
        not_restored(files.drop_last(), restored).push(files.last().0)
    }
}

/// The paths of the uncompressed modules, which are the ones we install.
pub open spec fn uncompressed(files: Seq<(Seq<char>, Seq<char>)>) -> Seq<Seq<char>>
    decreases files.len(),
{
    if files.len() == 0 {
        seq![]
    } else if files.last().1 == "hp-wmi.ko"@ {
        uncompressed(files.drop_last()).push(files.last().0)
    } else {
        uncompressed(files.drop_last())
    }
}

pub open spec fn some_compressed(files: Seq<(Seq<char>, Seq<char>)>) -> bool {
    exists|i: int| 0 <= i < files.len() && (#[trigger] files[i]).1 != "hp-wmi.ko"@
}

/// The modules that this installer put into a directory and that must go, now
/// that the stock one is back. Fewer than two modules are left alone.
pub open spec fn leftover_paths(
    found: Seq<(Seq<char>, Seq<char>)>,
    restored: Seq<Seq<char>>,
) -> Seq<Seq<char>> {
    let here = modules_only(found);
    if here.len() < 2 {
        seq![]
    } else if restored.len() > 0 {
        not_restored(here, restored)
    } else if some_compressed(here) {
        uncompressed(here)
    } else {
        seq![]
    }
}

fn keep_modules(found: &Vec<ModuleFile>) -> (r: Vec<ModuleFile>)
    ensures
        file_views(r@) == modules_only(file_views(found@)),
{
    let n: usize = found.len();
    let ghost all = file_views(found@);
    let mut out: Vec<ModuleFile> = Vec::new();
    let mut i: usize = 0;
    proof {
        assert(all.take(0) =~= seq![]);
        assert(file_views(out@) =~= seq![]);
    }
    while i < n
        invariant
            n == found@.len(),
            i <= n,
            all == file_views(found@),
            file_views(out@) == modules_only(all.take(i as int)),
        decreases n - i,
    {
        let ghost before = out@;
        proof {
            assert(all.take(i + 1).drop_last() =~= all.take(i as int));
            assert(all.take(i + 1).last() == all[i as int]);
        }
        if !backup_path(found[i].path.as_str()) {
            out.push(
                ModuleFile { path: found[i].path.clone(), name: found[i].name.clone() },
            );
            proof {
                assert(file_views(out@) =~= file_views(before).push(all[i as int]));
            }
        }
        i = i + 1;
    }
    proof {
        assert(all.take(n as int) =~= all);
    }
    out
}

pub fn leftovers(found: &Vec<ModuleFile>, restored: &Vec<String>) -> (r: Vec<String>)
    ensures
        text::views(r@) == leftover_paths(file_views(found@), text::views(restored@)),
{
    let present = keep_modules(found);
    let n: usize = present.len();
    let mut out: Vec<String> = Vec::new();
    let ghost here = file_views(present@);
    proof {
        assert(text::views(out@) =~= seq![]);
        assert(here.take(0) =~= seq![]);
    }
    if n < 2 {
        return out;
    }
    if restored.len() > 0 {
        let mut i: usize = 0;
        while i < n
            invariant
                n == present@.len(),
                i <= n,
                here == file_views(present@),
                text::views(out@) == not_restored(here.take(i as int), text::views(restored@)),
            decreases n - i,
        {
            proof {
                assert(here.take(i + 1).drop_last() =~= here.take(i as int));
                assert(here.take(i + 1).last() == here[i as int]);
            }
            if !text::list_has(restored, present[i].path.as_str()) {
                text::push_string(&mut out, present[i].path.clone());
            }
            i = i + 1;
        }
        proof {
            assert(here.take(n as int) =~= here);
        }
        return out;
    }
    let mut compressed: bool = false;
    let mut k: usize = 0;
    while k < n
        invariant
            n == present@.len(),
            k <= n,
            here == file_views(present@),
            compressed == exists|i: int| 0 <= i < k && (#[trigger] here[i]).1 != "hp-wmi.ko"@,
        decreases n - k,
    {
        proof {
            assert(here[k as int].1 == present@[k as int].name@);
        }
        if !text::same(present[k].name.as_str(), "hp-wmi.ko") {
            compressed = true;
        }
        k = k + 1;
    }
    if !compressed {
        return out;
    }
    let mut i: usize = 0;
    while i < n
        invariant
            n == present@.len(),
            i <= n,
            here == file_views(present@),
            text::views(out@) == uncompressed(here.take(i as int)),
        decreases n - i,
    {
        proof {
            assert(here.take(i + 1).drop_last() =~= here.take(i as int));
            assert(here.take(i + 1).last() == here[i as int]);
        }
        if text::same(present[i].name.as_str(), "hp-wmi.ko") {
            text::push_string(&mut out, present[i].path.clone());
        }
        i = i + 1;
    }
    proof {
        assert(here.take(n as int) =~= here);
    }
    out
}

/// What the restore step reports.
pub fn restore_backups(restored: &Vec<String>, removed: &Vec<String>) -> (r: String)
    ensures
        r@ == (if restored@.len() == 0 {
            "no backups found; the distribution's own module will be used"@
        } else if removed@.len() == 0 {
            "restored "@ + text::join(text::views(restored@), ", "@)
        } else {
            "restored "@ + text::join(text::views(restored@), ", "@) + ", removed the patched "@
                + text::join(text::views(removed@), ", "@)
        }),
{
    if restored.len() == 0 {
        return String::from_str("no backups found; the distribution's own module will be used");
    }
    let back = String::from_str("restored ").concat(text::joined(restored, ", ").as_str());
    if removed.len() == 0 {
        back
    } else {
        back.concat(", removed the patched ").concat(text::joined(removed, ", ").as_str())
    }
}

/// What a step that removes things reports.
pub fn removed_report(removed: &Vec<String>, nothing: &str) -> (r: String)
    ensures
        r@ == (if removed@.len() == 0 {
            nothing@
        } else {
            "removed "@ + text::join(text::views(removed@), ", "@)
        }),
{
    if removed.len() == 0 {
        String::from_str(nothing)
    } else {
        String::from_str("removed ").concat(text::joined(removed, ", ").as_str())
    }
}

// --- the measured ceilings -----------------------------------------------

/// One option of the driver, in hundreds of rpm. The parameter is one byte, so
/// a ceiling it cannot hold is an error rather than another ceiling.
pub open spec fn ceiling_option(name: Seq<char>, rpm: Option<u32>) -> Result<
    Seq<Seq<char>>,
    Seq<char>,
> {
    match rpm {
        None => Ok(seq![]),
        Some(rpm) => {
            let hundreds = (rpm / 100) as nat;
            if hundreds == 0 || hundreds > 255 {
                Err(
                    number::decimal(rpm as nat) + " rpm is outside what "@ + name
                        + " can hold (100-25500 rpm)"@,
                )
            } else {
                Ok(seq![name + "="@ + number::decimal(hundreds)])
            }
        },
    }
}

/// The options of both fans; a fan without a measurement is left out.
pub open spec fn ceiling_options(max_rpm: MaxRpm) -> Result<Seq<Seq<char>>, Seq<char>> {
    match ceiling_option(CPU_RPM_PARAM@, max_rpm.cpu) {
        Err(e) => Err(e),
        Ok(cpu) => match ceiling_option(GPU_RPM_PARAM@, max_rpm.gpu) {
            Err(e) => Err(e),
            Ok(gpu) => if cpu.len() == 0 && gpu.len() == 0 {
                Err("no measured fan ceiling to write; run the fan calibration first"@)
            } else {
                Ok(cpu + gpu)
            },
        },
    }
}

fn push_option(options: &mut Vec<String>, name: &'static str, rpm: Option<u32>) -> (r: Result<
    (),
    String,
>)
    ensures
        match r {
            Ok(()) => ceiling_option(name@, rpm) is Ok && text::views(final(options)@)
                == text::views(old(options)@) + ceiling_option(name@, rpm)->Ok_0,
            Err(e) => ceiling_option(name@, rpm) == Err::<Seq<Seq<char>>, Seq<char>>(e@),
        },
{
    let ghost before = text::views(options@);
    match rpm {
        None => {},
        Some(rpm) => {
            let hundreds: u32 = rpm / 100;
            if hundreds == 0 || hundreds > 255 {
                return Err(
                    number::show(rpm as u64).concat(" rpm is outside what ").concat(name).concat(
                        " can hold (100-25500 rpm)",
                    ),
                );
            }
            text::push_string(
                options,
                String::from_str(name).concat("=").concat(number::show(hundreds as u64).as_str()),
            );
        },
    }
    proof {
        assert(text::views(options@) =~= before + ceiling_option(name@, rpm)->Ok_0);
    }
    Ok(())
}

/// The options that pin the measured ceilings.
pub fn measured_options(max_rpm: MaxRpm) -> (r: Result<Vec<String>, String>)
    ensures
        (match r {
            Ok(options) => Ok(text::views(options@)),
            Err(e) => Err(e@),
        }) == ceiling_options(max_rpm),
{
    let mut options: Vec<String> = Vec::new();
    proof {
        assert(text::views(options@) =~= seq![]);
    }
    match push_option(&mut options, CPU_RPM_PARAM, max_rpm.cpu) {
        Ok(()) => {},
        Err(e) => {
            return Err(e);
        },
    }
    match push_option(&mut options, GPU_RPM_PARAM, max_rpm.gpu) {
        Ok(()) => {},
        Err(e) => {
            return Err(e);
        },
    }
    proof {
        assert(text::views(options@) =~= ceiling_option(CPU_RPM_PARAM@, max_rpm.cpu)->Ok_0
            + ceiling_option(GPU_RPM_PARAM@, max_rpm.gpu)->Ok_0);
    }
    if options.len() == 0 {
        return Err(
            String::from_str("no measured fan ceiling to write; run the fan calibration first"),
        );
    }
    Ok(options)
}

pub open spec fn conf_body(options: Seq<Seq<char>>) -> Seq<char> {
    "# Written by Pyren from a fan calibration run on this machine.\n# These outrank the ceiling the firmware reports; delete this file\n# to go back to whatever the driver works out for itself.\noptions hp-wmi "@
        + text::join(options, " "@) + "\n"@
}

/// The file that makes `modprobe` pin the measured ceilings, and what writing
/// it reports.
pub fn pin_measured_ceiling(max_rpm: MaxRpm) -> (r: Result<(String, String), String>)
    ensures
        match r {
            Ok((body, report)) => ceiling_options(max_rpm) is Ok && body@ == conf_body(
                ceiling_options(max_rpm)->Ok_0,
            ) && report@ == "wrote "@ + text::join(ceiling_options(max_rpm)->Ok_0, " "@) + " to "@
                + MODPROBE_CONF_PATH@,
            Err(e) => ceiling_options(max_rpm) == Err::<Seq<Seq<char>>, Seq<char>>(e@),
        },
{
    match measured_options(max_rpm) {
        Err(e) => Err(e),
        Ok(options) => {
            let line = text::joined(&options, " ");
            let body = String::from_str(
                "# Written by Pyren from a fan calibration run on this machine.\n# These outrank the ceiling the firmware reports; delete this file\n# to go back to whatever the driver works out for itself.\noptions hp-wmi ",
            ).concat(line.as_str()).concat("\n");
            let report = String::from_str("wrote ").concat(line.as_str()).concat(" to ").concat(
                MODPROBE_CONF_PATH,
            );
            Ok((body, report))
        },
    }
}

// --- the service ---------------------------------------------------------

pub open spec fn unit_text(binary: Seq<char>) -> Seq<char> {
    "[Unit]\nDescription=Pyren hardware daemon\nDocumentation=https://github.com/mglourido/PYREN\nAfter=multi-user.target\n\n[Service]\nType=simple\nExecStart="@
        + binary
        + "\nEnvironment=PYREN_SOCKET=/run/pyren/daemon.sock\nRuntimeDirectory=pyren\nRuntimeDirectoryMode=0755\nAmbientCapabilities=CAP_PERFMON\nRestart=on-failure\nRestartSec=5\n\n[Install]\nWantedBy=multi-user.target\n"@
}

/// The service unit. The daemon's path is the one the context names, or the
/// running program's own.
pub fn write_service_unit(context: &ExecuteContext, own_path: Option<String>) -> (r: Result<
    String,
    String,
>)
    ensures
        (match r {
            Ok(unit) => Ok(unit@),
            Err(e) => Err(e@),
        }) == (match context.daemon_binary {
            Some(binary) => Ok(unit_text(binary@)),
            None => match own_path {
                Some(binary) => Ok(unit_text(binary@)),
                None => Err("could not determine the daemon's own path"@),
            },
        }),
{
    let binary = match &context.daemon_binary {
        Some(b) => b.clone(),
        None => match own_path {
            Some(b) => b,
            None => {
                return Err(String::from_str("could not determine the daemon's own path"));
            },
        },
    };
    Ok(
        String::from_str(
            "[Unit]\nDescription=Pyren hardware daemon\nDocumentation=https://github.com/mglourido/PYREN\nAfter=multi-user.target\n\n[Service]\nType=simple\nExecStart=",
        ).concat(binary.as_str()).concat(
            "\nEnvironment=PYREN_SOCKET=/run/pyren/daemon.sock\nRuntimeDirectory=pyren\nRuntimeDirectoryMode=0755\nAmbientCapabilities=CAP_PERFMON\nRestart=on-failure\nRestartSec=5\n\n[Install]\nWantedBy=multi-user.target\n",
        ),
    )
}

// --- laws ----------------------------------------------------------------

/// A run takes its steps in turn: what is recorded of the next step, behind the
/// results so far, gives the results of one step more. A run starts with none,
/// and one that has taken every step has the results of them all.
pub proof fn law_a_run_takes_its_steps_in_turn(
    steps: Seq<StepView>,
    skip: Seq<Seq<char>>,
    dry_run: bool,
    ran: Seq<Result<Seq<char>, Seq<char>>>,
    next: Result<Seq<char>, Seq<char>>,
)
    ensures
        results_of(steps.take(0), skip, dry_run, ran) == Seq::<ResultView>::empty(),
        results_of(steps.take(steps.len() as int), skip, dry_run, ran) == results_of(
            steps,
            skip,
            dry_run,
            ran,
        ),
        ran.len() < steps.len() ==> ({
            let k = ran.len() as int;
            let done = results_of(steps.take(k), skip, dry_run, ran);
            results_of(steps.take(k + 1), skip, dry_run, ran.push(next)) == done.push(
                result_of(steps[k], any_failed(done), skip, dry_run, next),
            )
        }),
{
    assert(steps.take(steps.len() as int) =~= steps);
    if ran.len() < steps.len() {
        let k = ran.len() as int;
        assert(steps.take(k + 1).drop_last() =~= steps.take(k));
        lemma_results_agree(steps.take(k), skip, dry_run, ran, ran.push(next));
    }
}

/// What becomes of a step in a run follows from the steps before it and from
/// what running it came to.
proof fn lemma_result_in_run(
    steps: Seq<StepView>,
    skip: Seq<Seq<char>>,
    dry_run: bool,
    ran: Seq<Result<Seq<char>, Seq<char>>>,
    i: int,
)
    requires
        0 <= i < steps.len(),
    ensures
        results_of(steps, skip, dry_run, ran).len() == steps.len(),
        results_of(steps, skip, dry_run, ran)[i] == result_of(
            steps[i],
            any_failed(results_of(steps.take(i), skip, dry_run, ran)),
            skip,
            dry_run,
            ran[i],
        ),
    decreases steps.len(),
{
    lemma_one_result_per_step(steps, skip, dry_run, ran);
    lemma_one_result_per_step(steps.drop_last(), skip, dry_run, ran);
    if i < steps.len() - 1 {
        lemma_result_in_run(steps.drop_last(), skip, dry_run, ran, i);
        assert(steps.drop_last().take(i) =~= steps.take(i));
    } else {
        assert(steps.take(i) =~= steps.drop_last());
    }
}

/// In a run, a required step is never declined, whatever the caller names, and
/// its failure is never a mere warning.
pub proof fn law_required_steps_are_never_declined(
    steps: Seq<StepView>,
    skip: Seq<Seq<char>>,
    dry_run: bool,
    ran: Seq<Result<Seq<char>, Seq<char>>>,
    i: int,
)
    requires
        0 <= i < steps.len(),
        !steps[i].optional,
    ensures
        results_of(steps, skip, dry_run, ran)[i].status != StepStatus::Declined,
        results_of(steps, skip, dry_run, ran)[i].status != StepStatus::Warned,
{
    lemma_result_in_run(steps, skip, dry_run, ran, i);
}

/// An optional step never fails a run.
pub proof fn law_optional_steps_never_fail(
    steps: Seq<StepView>,
    skip: Seq<Seq<char>>,
    dry_run: bool,
    ran: Seq<Result<Seq<char>, Seq<char>>>,
    i: int,
)
    requires
        0 <= i < steps.len(),
        steps[i].optional,
    ensures
        results_of(steps, skip, dry_run, ran)[i].status != StepStatus::Failed,
{
    lemma_result_in_run(steps, skip, dry_run, ran, i);
}

/// After a required step failed, every later step is skipped and none is run.
pub proof fn law_nothing_runs_after_a_failure(
    steps: Seq<StepView>,
    skip: Seq<Seq<char>>,
    dry_run: bool,
    ran: Seq<Result<Seq<char>, Seq<char>>>,
    i: int,
    j: int,
)
    requires
        0 <= i < j < steps.len(),
        results_of(steps, skip, dry_run, ran)[i].status == StepStatus::Failed,
    ensures
        results_of(steps, skip, dry_run, ran)[j].status == StepStatus::Skipped,
        !runs(
            steps[j],
            any_failed(results_of(steps.take(j), skip, dry_run, ran)),
            skip,
            dry_run,
        ),
{
    lemma_result_in_run(steps, skip, dry_run, ran, i);
    lemma_result_in_run(steps, skip, dry_run, ran, j);
    lemma_result_in_run(steps.take(j), skip, dry_run, ran, i);
    assert(steps.take(j).take(i) =~= steps.take(i));
    assert(results_of(steps.take(j), skip, dry_run, ran)[i].status == StepStatus::Failed);
}

/// The same of a run that was carried out: once a step was recorded as failed,
/// the next one is not to be run, and is recorded as skipped.
pub proof fn law_a_failed_run_runs_nothing_more(
    run: Execution,
    steps: Seq<StepView>,
    skip: Seq<Seq<char>>,
    ran: Seq<Result<Seq<char>, Seq<char>>>,
    next: Result<Seq<char>, Seq<char>>,
    i: int,
)
    requires
        run.came_to(steps, skip, ran),
        ran.len() < steps.len(),
        0 <= i < ran.len(),
        run.done()[i].status == StepStatus::Failed,
    ensures
        !runs(steps[ran.len() as int], any_failed(run.done()), skip, run.dry()),
        results_of(
            steps.take(ran.len() as int + 1),
            skip,
            run.dry(),
            ran.push(next),
        ).last().status == StepStatus::Skipped,
{
    lemma_one_result_per_step(steps.take(ran.len() as int), skip, run.dry(), ran);
    law_a_run_takes_its_steps_in_turn(steps, skip, run.dry(), ran, next);
    assert(any_failed(run.done()));
}

proof fn lemma_one_result_per_step(
    steps: Seq<StepView>,
    skip: Seq<Seq<char>>,
    dry_run: bool,
    ran: Seq<Result<Seq<char>, Seq<char>>>,
)
    ensures
        results_of(steps, skip, dry_run, ran).len() == steps.len(),
    decreases steps.len(),
{
    if steps.len() > 0 {
        lemma_one_result_per_step(steps.drop_last(), skip, dry_run, ran);
    }
}

/// A dry run reports every step, as planned or declined, and never fails.
pub proof fn law_dry_run_only_plans(steps: Seq<StepView>, skip: Seq<Seq<char>>, ran: Seq<
    Result<Seq<char>, Seq<char>>,
>)
    ensures
        results_of(steps, skip, true, ran).len() == steps.len(),
        forall|i: int|
            0 <= i < steps.len() ==> (#[trigger] results_of(steps, skip, true, ran)[i]).status
                == (if steps[i].optional && skip.contains(steps[i].id) {
                StepStatus::Declined
            } else {
                StepStatus::Planned
            }),
        !any_failed(results_of(steps, skip, true, ran)),
    decreases steps.len(),
{
    if steps.len() > 0 {
        law_dry_run_only_plans(steps.drop_last(), skip, ran);
        let before = results_of(steps.drop_last(), skip, true, ran);
        let all = results_of(steps, skip, true, ran);
        lemma_failed_after(before, all.last());
        assert forall|i: int| 0 <= i < steps.len() implies (#[trigger] all[i]).status == (
        if steps[i].optional && skip.contains(steps[i].id) {
            StepStatus::Declined
        } else {
            StepStatus::Planned
        }) by {
            if i < steps.len() - 1 {
                assert(all[i] == before[i]);
                assert(steps.drop_last()[i] == steps[i]);
            }
        }
    }
}

/// A module is never removed from the stock directory without a backup of the
/// stock module: either one is there already, or one is made of each module
/// that goes.
pub proof fn law_stock_module_is_backed_up(paths: Seq<Seq<char>>, i: int)
    requires
        !some_backup(paths),
        0 <= i < removals(paths, true).len(),
    ensures
        removals(paths, true)[i].1 == Some(removals(paths, true)[i].0 + ".bak"@),
    decreases paths.len(),
{
    if paths.len() > 0 {
        assert(!some_backup(paths.drop_last())) by {
            if some_backup(paths.drop_last()) {
                let k = choose|k: int|
                    0 <= k < paths.drop_last().len() && is_backup(#[trigger] paths.drop_last()[k]);
                assert(is_backup(paths[k]));
            }
        }
        if i < removals(paths.drop_last(), true).len() {
            law_stock_module_is_backed_up(paths.drop_last(), i);
        }
    }
}

/// No second backup is made where one is there: what is there now is ours.
pub proof fn law_no_second_backup(paths: Seq<Seq<char>>, i: int)
    requires
        0 <= i < removals(paths, false).len(),
    ensures
        removals(paths, false)[i].1 is None,
    decreases paths.len(),
{
    if paths.len() > 0 {
        if i < removals(paths.drop_last(), false).len() {
            law_no_second_backup(paths.drop_last(), i);
        }
    }
}

proof fn lemma_uncompressed_count(files: Seq<(Seq<char>, Seq<char>)>)
    ensures
        uncompressed(files).len() <= files.len(),
        some_compressed(files) ==> uncompressed(files).len() < files.len(),
    decreases files.len(),
{
    if files.len() > 0 {
        lemma_uncompressed_count(files.drop_last());
        if some_compressed(files) && files.last().1 == "hp-wmi.ko"@ {
            let i = choose|i: int|
                0 <= i < files.len() && (#[trigger] files[i]).1 != "hp-wmi.ko"@;
            assert(files.drop_last()[i].1 != "hp-wmi.ko"@);
        }
    }
}

proof fn lemma_not_restored_count(files: Seq<(Seq<char>, Seq<char>)>, restored: Seq<Seq<char>>)
    ensures
        not_restored(files, restored).len() <= files.len(),
        (exists|i: int| 0 <= i < files.len() && restored.contains((#[trigger] files[i]).0))
            ==> not_restored(files, restored).len() < files.len(),
    decreases files.len(),
{
    if files.len() > 0 {
        lemma_not_restored_count(files.drop_last(), restored);
        if !restored.contains(files.last().0) {
            if exists|i: int| 0 <= i < files.len() && restored.contains((#[trigger] files[i]).0) {
                let i = choose|i: int|
                    0 <= i < files.len() && restored.contains((#[trigger] files[i]).0);
                assert(restored.contains(files.drop_last()[i].0));
            }
        }
    }
}

/// Restoring never takes the last module away: of the modules that are there
/// at least one stays. Where modules were restored, one of them is there.
pub proof fn law_last_module_stays(found: Seq<(Seq<char>, Seq<char>)>, restored: Seq<Seq<char>>)
    requires
        modules_only(found).len() > 0,
        restored.len() > 0 ==> exists|i: int|
            0 <= i < modules_only(found).len() && restored.contains(
                (#[trigger] modules_only(found)[i]).0,
            ),
    ensures
        leftover_paths(found, restored).len() < modules_only(found).len(),
{
    lemma_uncompressed_count(modules_only(found));
    lemma_not_restored_count(modules_only(found), restored);
}

/// A ceiling in a file is one that the parameter can hold.
pub proof fn law_written_ceilings_fit(max_rpm: MaxRpm)
    requires
        ceiling_options(max_rpm) is Ok,
    ensures
        max_rpm.cpu matches Some(rpm) ==> 100 <= rpm < 25600,
        max_rpm.gpu matches Some(rpm) ==> 100 <= rpm < 25600,
        max_rpm.cpu is Some || max_rpm.gpu is Some,
{
}

/// A step runs exactly where nothing failed before it, it was not left out and
/// this is no rehearsal.
pub proof fn law_when_a_step_runs(step: StepView, failed: bool, skip: Seq<Seq<char>>, dry: bool)
    ensures
        runs(step, failed, skip, dry) <==> !failed && !dry && (!step.optional || !skip.contains(
            step.id,
        )),
{
}

/// What came of a step that ran is recorded in its own words: done where it
/// worked, and otherwise failed, or for an optional one warned of. Whatever
/// became of it, it is recorded under its own name.
pub proof fn law_what_came_of_a_step_is_recorded(
    step: StepView,
    failed: bool,
    skip: Seq<Seq<char>>,
    dry: bool,
    said: Seq<char>,
    ran: Result<Seq<char>, Seq<char>>,
)
    ensures
        runs(step, failed, skip, dry) ==> {
            &&& result_of(step, failed, skip, dry, Ok(said)).status == StepStatus::Done
            &&& result_of(step, failed, skip, dry, Ok(said)).detail.text == said
            &&& result_of(step, failed, skip, dry, Err(said)).detail.text == said
            &&& result_of(step, failed, skip, dry, Err(said)).status == (if step.optional {
                StepStatus::Warned
            } else {
                StepStatus::Failed
            })
        },
        failed ==> result_of(step, failed, skip, dry, ran).status == StepStatus::Skipped,
        !failed && step.optional && skip.contains(step.id) ==> result_of(
            step,
            failed,
            skip,
            dry,
            ran,
        ).status == StepStatus::Declined,
        !failed && !(step.optional && skip.contains(step.id)) && dry ==> result_of(
            step,
            failed,
            skip,
            dry,
            ran,
        ).status == StepStatus::Planned,
        !failed && !(step.optional && skip.contains(step.id)) && dry && step.command.len() > 0
            ==> result_of(step, failed, skip, dry, ran).detail.text == text::join(
            step.command,
            " "@,
        ),
        result_of(step, failed, skip, dry, ran).id == step.id,
        result_of(step, failed, skip, dry, ran).description == step.description,
{
}

/// Progress says which step of how many it is about, and at its end what became
/// of it.
pub proof fn law_progress_names_its_step(steps: Seq<StepView>, index: int, result: ResultView)
    requires
        0 <= index < steps.len(),
    ensures
        start_of(steps, index).index == index,
        start_of(steps, index).total == steps.len(),
        start_of(steps, index).id == steps[index].id,
        start_of(steps, index).description == steps[index].description,
        start_of(steps, index).status is None,
        end_of(steps, index, result).index == index,
        end_of(steps, index, result).total == steps.len(),
        end_of(steps, index, result).id == steps[index].id,
        end_of(steps, index, result).status == Some(result.status),
        end_of(steps, index, result).detail == Some(result.detail),
{
}

/// A step with a command runs it; one without is known by its name, and a name
/// that nothing is behind is an error that says so.
#[verifier::spinoff_prover]
#[verifier::rlimit(60)]
pub proof fn law_steps_do_what_they_are_called(step: StepView, rest: Seq<char>)
    ensures
        step.command.len() > 0 ==> action_of(step) == Ok::<StepAction, Seq<char>>(
            StepAction::RunCommand,
        ),
        step.command.len() == 0 && step.id == "patch-source"@ ==> action_of(step) == Ok::<
            StepAction,
            Seq<char>,
        >(StepAction::PatchSource),
        step.command.len() == 0 && step.id == "stage-source"@ ==> action_of(step) == Ok::<
            StepAction,
            Seq<char>,
        >(StepAction::StageSource),
        step.command.len() == 0 && step.id == "backup-driver"@ ==> action_of(step) == Ok::<
            StepAction,
            Seq<char>,
        >(StepAction::BackupDriver),
        step.command.len() == 0 && step.id == "install-module"@ ==> action_of(step) == Ok::<
            StepAction,
            Seq<char>,
        >(StepAction::InstallModule),
        step.command.len() == 0 && step.id == "install-hook"@ + rest ==> action_of(step) == Ok::<
            StepAction,
            Seq<char>,
        >(StepAction::InstallHook),
        step.command.len() == 0 && step.id == "write-modprobe-conf"@ ==> action_of(step) == Ok::<
            StepAction,
            Seq<char>,
        >(StepAction::WriteModprobeConf),
        step.command.len() == 0 && step.id == "remove-modprobe-conf"@ ==> action_of(step) == Ok::<
            StepAction,
            Seq<char>,
        >(StepAction::RemoveModprobeConf),
        step.command.len() == 0 && step.id == "remove-sources"@ ==> action_of(step) == Ok::<
            StepAction,
            Seq<char>,
        >(StepAction::RemoveSources),
        step.command.len() == 0 && step.id == "remove-hooks"@ ==> action_of(step) == Ok::<
            StepAction,
            Seq<char>,
        >(StepAction::RemoveHooks),
        step.command.len() == 0 && step.id == "restore-backups"@ ==> action_of(step) == Ok::<
            StepAction,
            Seq<char>,
        >(StepAction::RestoreBackups),
        step.command.len() == 0 && step.id == "write-unit"@ ==> action_of(step) == Ok::<
            StepAction,
            Seq<char>,
        >(StepAction::WriteUnit),
        step.command.len() == 0 && step.id == "remove-unit"@ ==> action_of(step) == Ok::<
            StepAction,
            Seq<char>,
        >(StepAction::RemoveUnit),
        step.command.len() == 0 && step.id == rest && rest.len() < 10 ==> action_of(step) == Err::<
            StepAction,
            Seq<char>,
        >("no implementation for internal step '"@ + rest + "'"@),
{
    reveal_strlit("patch-source");
    reveal_strlit("stage-source");
    reveal_strlit("backup-driver");
    reveal_strlit("install-module");
    reveal_strlit("install-hook");
    reveal_strlit("write-modprobe-conf");
    reveal_strlit("remove-modprobe-conf");
    reveal_strlit("remove-sources");
    reveal_strlit("remove-hooks");
    reveal_strlit("restore-backups");
    reveal_strlit("write-unit");
    reveal_strlit("remove-unit");
    assert("patch-source"@.len() == 12 && "patch-source"@[0] == 'p');
    assert("stage-source"@.len() == 12 && "stage-source"@[0] == 's');
    assert("backup-driver"@.len() == 13 && "backup-driver"@[0] == 'b');
    assert("install-module"@.len() == 14 && "install-module"@[0] == 'i');
    assert("install-hook"@.len() == 12 && "install-hook"@[0] == 'i');
    assert("write-modprobe-conf"@.len() == 19 && "write-modprobe-conf"@[0] == 'w');
    assert("remove-modprobe-conf"@.len() == 20 && "remove-modprobe-conf"@[0] == 'r');
    assert("remove-sources"@.len() == 14 && "remove-sources"@[0] == 'r');
    assert("remove-hooks"@.len() == 12 && "remove-hooks"@[0] == 'r');
    assert("restore-backups"@.len() == 15 && "restore-backups"@[0] == 'r');
    assert("write-unit"@.len() == 10 && "write-unit"@[0] == 'w');
    assert("remove-unit"@.len() == 11 && "remove-unit"@[0] == 'r');
    assert("install-module"@[8] == 'm' && "install-hook"@[8] == 'h');
    assert("remove-modprobe-conf"@[7] == 'm');
    assert("remove-sources"@[7] == 's');
    assert("remove-hooks"@[7] == 'h');
    assert("remove-unit"@[7] == 'u');
    let hook = "install-hook"@ + rest;
    assert(hook.subrange(0, 12) =~= "install-hook"@);
    assert(hook[0] == 'i');
    assert(hook[8] == 'h');
    if text::starts_with(step.id, "install-hook"@) {
        assert(step.id.subrange(0, 12)[0] == step.id[0]);
        assert(step.id[0] == 'i');
        assert(step.id.len() >= 12);
    }
}

/// A command's answer is the last line it printed.
pub proof fn law_the_last_line_is_the_answer(line: Seq<char>, rest: Seq<char>)
    requires
        !line.contains('\n'),
    ensures
        last_line(seq![]) == Seq::<char>::empty(),
        line.len() > 0 ==> last_line(line) == line,
        line.len() > 0 && line.last() != '\r' ==> last_line(line + seq!['\n']) == line,
        rest.len() > 0 ==> last_line(line + seq!['\n'] + rest) == last_line(rest),
{
    text::law_lines_end_at_newlines(line, rest);
    text::law_lines_end_at_newlines(line, seq![]);
    assert(line + seq!['\n'] + Seq::<char>::empty() =~= line + seq!['\n']);
    if rest.len() > 0 {
        text::lemma_position(rest, text::Class::Is('\n'), 0);
        assert(text::lines(rest).len() > 0);
    }
}

/// A backup stands beside its module under the module's name and `.bak`, is known
/// by that, and is put back under the name it came from.
pub proof fn law_a_backup_is_put_back_where_it_was(path: Seq<char>, other: Seq<char>)
    ensures
        is_backup(path + ".bak"@),
        original_of(path + ".bak"@) == Some(path),
        original_of(other) matches Some(p) ==> p + ".bak"@ == other,
        !is_backup(other) ==> original_of(other) is None,
{
    reveal_strlit(".bak");
    assert(".bak"@.len() == 4);
    text::law_a_part_is_contained(path, ".bak"@, seq![]);
    let whole = path + ".bak"@;
    assert(whole.take(whole.len() - 4) =~= path);
    if is_backup(other) {
        assert(other.take(other.len() - 4) + other.subrange(other.len() - 4, other.len() as int)
            =~= other);
    }
}

/// Every module that is not a backup is taken away, in its order, and no backup
/// is; where stock modules may be there each gets its backup.
pub proof fn law_every_module_is_taken_away(paths: Seq<Seq<char>>, holds_stock: bool, path: Seq<char>)
    ensures
        paths.contains(path) && !is_backup(path) <==> removals(paths, holds_stock).contains(
            (
                path,
                if holds_stock {
                    Some(path + ".bak"@)
                } else {
                    None
                },
            ),
        ),
        forall|i: int|
            0 <= i < removals(paths, holds_stock).len() ==> !is_backup(
                (#[trigger] removals(paths, holds_stock)[i]).0,
            ),
    decreases paths.len(),
{
    let wanted = (
        path,
        if holds_stock {
            Some(path + ".bak"@)
        } else {
            None
        },
    );
    let all = removals(paths, holds_stock);
    if paths.len() > 0 {
        let before = paths.drop_last();
        let rest = removals(before, holds_stock);
        law_every_module_is_taken_away(before, holds_stock, path);
        lemma_contains_last(paths, path);
        if !is_backup(paths.last()) {
            lemma_contains_last(all, wanted);
            assert(all.drop_last() =~= rest);
            assert forall|i: int| 0 <= i < all.len() implies !is_backup((#[trigger] all[i]).0) by {
                if i < rest.len() {
                    assert(all[i] == rest[i]);
                }
            }
        }
    }
}

proof fn lemma_contains_last<A>(list: Seq<A>, a: A)
    requires
        list.len() > 0,
    ensures
        list.contains(a) <==> list.drop_last().contains(a) || list.last() == a,
{
    if list.contains(a) {
        let i = choose|i: int| 0 <= i < list.len() && list[i] == a;
        if i < list.len() - 1 {
            assert(list.drop_last()[i] == a);
        }
    }
    if list.drop_last().contains(a) {
        let i = choose|i: int| 0 <= i < list.drop_last().len() && list.drop_last()[i] == a;
        assert(list[i] == a);
    }
    if list.last() == a {
        assert(list[list.len() - 1] == a);
    }
}

/// Backups are no modules, and everything else that was found is one.
pub proof fn law_backups_are_no_modules(
    files: Seq<(Seq<char>, Seq<char>)>,
    file: (Seq<char>, Seq<char>),
)
    ensures
        modules_only(files).contains(file) <==> files.contains(file) && !is_backup(file.0),
    decreases files.len(),
{
    if files.len() > 0 {
        let before = files.drop_last();
        law_backups_are_no_modules(before, file);
        lemma_contains_last(files, file);
        if !is_backup(files.last().0) {
            let all = modules_only(files);
            lemma_contains_last(all, file);
            assert(all.drop_last() =~= modules_only(before));
        }
    }
}

/// Beside a module that was put back every other module is left over; where none
/// was put back, the ones that are not compressed are, if one that is stands
/// beside them. A single module is never left over.
pub proof fn law_which_modules_are_left_over(
    found: Seq<(Seq<char>, Seq<char>)>,
    restored: Seq<Seq<char>>,
    file: (Seq<char>, Seq<char>),
)
    requires
        modules_only(found).contains(file),
        modules_only(found).len() >= 2,
    ensures
        restored.len() > 0 && !restored.contains(file.0) ==> leftover_paths(
            found,
            restored,
        ).contains(file.0),
        restored.len() > 0 && restored.contains(file.0) ==> !leftover_paths(
            found,
            restored,
        ).contains(file.0),
        restored.len() == 0 && file.1 == "hp-wmi.ko"@ && some_compressed(modules_only(found))
            ==> leftover_paths(found, restored).contains(file.0),
        restored.len() == 0 && !some_compressed(modules_only(found)) ==> leftover_paths(
            found,
            restored,
        ).len() == 0,
{
    let here = modules_only(found);
    lemma_not_restored(here, restored, file);
    lemma_uncompressed(here, file);
}

proof fn lemma_not_restored(
    files: Seq<(Seq<char>, Seq<char>)>,
    restored: Seq<Seq<char>>,
    file: (Seq<char>, Seq<char>),
)
    ensures
        files.contains(file) && !restored.contains(file.0) ==> not_restored(
            files,
            restored,
        ).contains(file.0),
        restored.contains(file.0) ==> !not_restored(files, restored).contains(file.0),
    decreases files.len(),
{
    if files.len() > 0 {
        lemma_not_restored(files.drop_last(), restored, file);
        lemma_contains_last(files, file);
        if !restored.contains(files.last().0) {
            let all = not_restored(files, restored);
            lemma_contains_last(all, file.0);
            assert(all.drop_last() =~= not_restored(files.drop_last(), restored));
        }
    }
}

proof fn lemma_uncompressed(files: Seq<(Seq<char>, Seq<char>)>, file: (Seq<char>, Seq<char>))
    ensures
        files.contains(file) && file.1 == "hp-wmi.ko"@ ==> uncompressed(files).contains(file.0),
    decreases files.len(),
{
    if files.len() > 0 {
        lemma_uncompressed(files.drop_last(), file);
        lemma_contains_last(files, file);
        if files.last().1 == "hp-wmi.ko"@ {
            let all = uncompressed(files);
            lemma_contains_last(all, file.0);
            assert(all.drop_last() =~= uncompressed(files.drop_last()));
        }
    }
}

/// Each measured ceiling is written for its own fan, in hundreds of turns; one
/// that does not fit a byte is refused, and so is a file without any.
pub proof fn law_each_ceiling_is_written_for_its_fan(cpu: u32, gpu: u32)
    requires
        100 <= cpu < 25_600,
        100 <= gpu < 25_600,
    ensures
        ceiling_options(MaxRpm { cpu: Some(cpu), gpu: Some(gpu) }) == Ok::<
            Seq<Seq<char>>,
            Seq<char>,
        >(
            seq![
                "cpu_max_rpm_measured"@ + "="@ + number::decimal((cpu / 100) as nat),
                "gpu_max_rpm_measured"@ + "="@ + number::decimal((gpu / 100) as nat),
            ],
        ),
        ceiling_options(MaxRpm { cpu: Some(cpu), gpu: None }) == Ok::<Seq<Seq<char>>, Seq<char>>(
            seq!["cpu_max_rpm_measured"@ + "="@ + number::decimal((cpu / 100) as nat)],
        ),
        ceiling_options(MaxRpm { cpu: None, gpu: Some(gpu) }) == Ok::<Seq<Seq<char>>, Seq<char>>(
            seq!["gpu_max_rpm_measured"@ + "="@ + number::decimal((gpu / 100) as nat)],
        ),
        ceiling_options(MaxRpm { cpu: None, gpu: None }) is Err,
{
    let c = "cpu_max_rpm_measured"@ + "="@ + number::decimal((cpu / 100) as nat);
    let g = "gpu_max_rpm_measured"@ + "="@ + number::decimal((gpu / 100) as nat);
    assert(seq![c] + seq![g] =~= seq![c, g]);
    assert(seq![c] + Seq::<Seq<char>>::empty() =~= seq![c]);
    assert(Seq::<Seq<char>>::empty() + seq![g] =~= seq![g]);
}

/// A ceiling that a byte cannot hold in hundreds is refused for either fan.
pub proof fn law_a_ceiling_that_does_not_fit_is_refused(rpm: u32, other: Option<u32>)
    requires
        rpm < 100 || rpm >= 25_600,
    ensures
        ceiling_options(MaxRpm { cpu: Some(rpm), gpu: other }) is Err,
        ceiling_options(MaxRpm { cpu: other, gpu: Some(rpm) }) is Err,
{
}

/// The file for the module has its options on one line, after comments.
pub proof fn law_the_options_are_on_a_line_of_their_own(options: Seq<Seq<char>>)
    ensures
        text::contains(conf_body(options), text::join(options, " "@)),
        text::ends_with(conf_body(options), text::join(options, " "@) + "\n"@),
{
    lemma_part_and_end(
        "# Written by Pyren from a fan calibration run on this machine.\n# These outrank the ceiling the firmware reports; delete this file\n# to go back to whatever the driver works out for itself.\noptions hp-wmi "@,
        text::join(options, " "@),
        "\n"@,
    );
}

#[verifier::spinoff_prover]
#[verifier::rlimit(60)]
proof fn lemma_part_and_end(head: Seq<char>, part: Seq<char>, tail: Seq<char>)
    ensures
        text::contains(head + part + tail, part),
        text::ends_with(head + part + tail, part + tail),
{
    let whole = head + part + tail;
    let i = head.len() as int;
    assert(whole.subrange(i, i + part.len()) =~= part);
    assert(text::occurs_at(whole, part, i));
    assert(whole.subrange(i, whole.len() as int) =~= part + tail);
}

/// The unit starts the program it is for.
#[verifier::spinoff_prover]
#[verifier::rlimit(60)]
pub proof fn law_the_unit_starts_the_daemon(binary: Seq<char>)
    ensures
        text::contains(unit_text(binary), "ExecStart="@ + binary + "\n"@),
{
    reveal_strlit(
        "[Unit]\nDescription=Pyren hardware daemon\nDocumentation=https://github.com/mglourido/PYREN\nAfter=multi-user.target\n\n[Service]\nType=simple\nExecStart=",
    );
    reveal_strlit(
        "\nEnvironment=PYREN_SOCKET=/run/pyren/daemon.sock\nRuntimeDirectory=pyren\nRuntimeDirectoryMode=0755\nAmbientCapabilities=CAP_PERFMON\nRestart=on-failure\nRestartSec=5\n\n[Install]\nWantedBy=multi-user.target\n",
    );
    reveal_strlit("ExecStart=");
    reveal_strlit("\n");
    let head =
        "[Unit]\nDescription=Pyren hardware daemon\nDocumentation=https://github.com/mglourido/PYREN\nAfter=multi-user.target\n\n[Service]\nType=simple\nExecStart="@;
    let tail =
        "\nEnvironment=PYREN_SOCKET=/run/pyren/daemon.sock\nRuntimeDirectory=pyren\nRuntimeDirectoryMode=0755\nAmbientCapabilities=CAP_PERFMON\nRestart=on-failure\nRestartSec=5\n\n[Install]\nWantedBy=multi-user.target\n"@;
    let at = head.len() - 10;
    assert(head.skip(at) =~= "ExecStart="@);
    assert(tail.take(1) =~= "\n"@);
    let line = "ExecStart="@ + binary + "\n"@;
    let whole = unit_text(binary);
    assert(whole =~= head.take(at) + line + tail.skip(1));
    text::law_a_part_is_contained(head.take(at), line, tail.skip(1));
}

/// A command that worked answers with its last line, and one that did not with how
/// it ended and what it complained of.
pub proof fn law_a_command_answers(
    program: &str,
    success: bool,
    code: Option<i32>,
    stdout: &str,
    stderr: &str,
    r: Result<String, String>,
    n: i32,
)
    requires
        call_ensures(run_command, (program, success, code, stdout, stderr), r),
    ensures
        success <==> r is Ok,
        r matches Ok(s) ==> s@ == last_line(stdout@),
        !success && code == Some(n) ==> r->Err_0@ == program@ + " exited with "@
            + number::decimal_int(n as int) + ": "@ + text::trim(stderr@),
        !success && code is None ==> r->Err_0@ == program@ + " exited with "@
            + number::decimal_int(-1) + ": "@ + text::trim(stderr@),
{
}

/// Where modules are looked for: beside the stock driver, and among the updates.
pub proof fn law_where_modules_are_looked_for(release: &str, r: Vec<String>)
    requires
        call_ensures(module_dirs, (release,), r),
    ensures
        text::views(r@) == seq![
            "/lib/modules/"@ + release@ + "/kernel/drivers/platform/x86/hp"@,
            "/lib/modules/"@ + release@ + "/updates"@,
        ],
{
}

/// The template is made out for this package and version.
pub proof fn law_the_template_is_made_out(template: &str, r: String)
    requires
        call_ensures(stage_source, (template,), r),
    ensures
        r@ == text::replace_all(
            text::replace_all(template@, "@PKGNAME@"@, "hp-wmi-omen"@),
            "@PKGVER@"@,
            plan::DKMS_VERSION@,
        ),
{
}

/// Modules are backed up where stock ones may be there and none was before; every
/// module is taken away.
pub proof fn law_stock_modules_are_backed_up_once(
    modules: &Vec<String>,
    stock: bool,
    r: Vec<Removal>,
    i: int,
)
    requires
        call_ensures(backup_in, (modules, stock), r),
        0 <= i < modules@.len(),
        !is_backup(modules@[i]@),
    ensures
        stock && !some_backup(text::views(modules@)) ==> removal_views(r@).contains(
            (modules@[i]@, Some(modules@[i]@ + ".bak"@)),
        ),
        !stock || some_backup(text::views(modules@)) ==> removal_views(r@).contains(
            (modules@[i]@, None::<Seq<char>>),
        ),
{
    let paths = text::views(modules@);
    assert(paths[i] == modules@[i]@);
    law_every_module_is_taken_away(paths, stock && !some_backup(paths), paths[i]);
}

/// What was backed up, put back, taken away and written is told by name.
pub proof fn law_what_was_done_is_told(
    list: &Vec<String>,
    other: &Vec<String>,
    nothing: &str,
    r: String,
)
    ensures
        call_ensures(backup_report, (list,), r) && list@.len() > 0 ==> r@ == "backed up "@
            + text::join(text::views(list@), ", "@),
        call_ensures(removed_report, (list, nothing), r) && list@.len() > 0 ==> r@ == "removed "@
            + text::join(text::views(list@), ", "@),
        call_ensures(removed_report, (list, nothing), r) && list@.len() == 0 ==> r@ == nothing@,
        call_ensures(restore_backups, (list, other), r) && list@.len() > 0 && other@.len() == 0
            ==> r@ == "restored "@ + text::join(text::views(list@), ", "@),
        call_ensures(restore_backups, (list, other), r) && list@.len() > 0 && other@.len() > 0
            ==> r@ == "restored "@ + text::join(text::views(list@), ", "@)
            + ", removed the patched "@ + text::join(text::views(other@), ", "@),
        call_ensures(patch_source, (list,), r) && list@.len() > 0 ==> r@ == text::join(
            text::views(list@),
            "; "@,
        ),
{
}

/// Measured ceilings are written to the module's file, and the report names them
/// and the file.
pub proof fn law_measured_ceilings_are_pinned(
    max_rpm: MaxRpm,
    r: Result<(String, String), String>,
)
    requires
        call_ensures(pin_measured_ceiling, (max_rpm,), r),
    ensures
        r is Ok <==> ceiling_options(max_rpm) is Ok,
        r matches Ok((body, report)) ==> text::contains(
            body@,
            text::join(ceiling_options(max_rpm)->Ok_0, " "@),
        ) && report@ == "wrote "@ + text::join(ceiling_options(max_rpm)->Ok_0, " "@) + " to "@
            + "/etc/modprobe.d/pyren-hp-wmi.conf"@,
        max_rpm.cpu is None && max_rpm.gpu is None ==> r is Err,
{
    if ceiling_options(max_rpm) is Ok {
        law_the_options_are_on_a_line_of_their_own(ceiling_options(max_rpm)->Ok_0);
    }
}

/// The unit is for the program that was named, or else for this one; without
/// either there is none.
pub proof fn law_the_unit_is_for_the_daemon(
    context: &ExecuteContext,
    own: Option<String>,
    r: Result<String, String>,
)
    requires
        call_ensures(write_service_unit, (context, own), r),
    ensures
        r is Err <==> context.daemon_binary is None && own is None,
        context.daemon_binary matches Some(b) ==> text::contains(
            r->Ok_0@,
            "ExecStart="@ + b@ + "\n"@,
        ),
        context.daemon_binary is None && own is Some ==> text::contains(
            r->Ok_0@,
            "ExecStart="@ + (own->0)@ + "\n"@,
        ),
{
    if context.daemon_binary is Some {
        law_the_unit_starts_the_daemon((context.daemon_binary->0)@);
    }
    if own is Some {
        law_the_unit_starts_the_daemon((own->0)@);
    }
}

/// A rehearsal tells of every step in turn what it would be, and runs none.
pub proof fn law_a_rehearsal_tells_every_step(
    plan: &Plan,
    context: &ExecuteContext,
    r: ExecutionReport,
    i: int,
)
    requires
        call_ensures(execute, (plan, context), r),
        0 <= i < plan.steps@.len(),
    ensures
        r.dry_run && r.succeeded,
        r.results@.len() == plan.steps@.len(),
        r.results@[i].status == StepStatus::Planned || r.results@[i].status
            == StepStatus::Declined,
        r.results@[i].status == StepStatus::Declined <==> plan.steps@[i]@.optional && text::views(
            context.skip_steps@,
        ).contains(plan.steps@[i]@.id),
{
    let steps = plan::step_views(plan.steps@);
    let skip = text::views(context.skip_steps@);
    let ran = Seq::new(steps.len(), |k: int| Ok::<Seq<char>, Seq<char>>(seq![]));
    law_dry_run_only_plans(steps, skip, ran);
    assert(result_views(r.results@).len() == r.results@.len());
    assert(result_views(r.results@)[i] == r.results@[i]@);
    assert(results_of(steps, skip, true, ran)[i] == r.results@[i]@);
    assert(steps[i] == plan.steps@[i]@);
}

} // verus!
