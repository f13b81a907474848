//! The requests to the installer: which there are, and what an apply has to
//! meet before anything is done.
use vstd::prelude::*;
use vstd::string::*;

use crate::error::ErrorKind;
use crate::error::ErrorView;
use crate::error::ModuleError;
use crate::installer::autodetect::Autodetected;
use crate::installer::execute;
use crate::installer::execute::ExecuteContext;
use crate::installer::execute::Execution;
use crate::installer::execute::ResultView;
use crate::installer::patch::BoardTable;
use crate::installer::patch::MaxRpm;
use crate::installer::plan::Action;
use crate::installer::plan::BlockerView;
use crate::installer::plan::Plan;
use crate::installer::plan::PlanOptions;
use crate::installer::plan::PlanView;
use crate::installer::plan::StepView;
use crate::msg;
use crate::msg::Msg;
use crate::text;

verus! {

pub struct InstallerModule;

/// The methods of the installer.
#[derive(Debug, Clone, Copy, PartialEq, Eq, Structural)]
pub enum Method {
    Inspect,
    Autodetect,
    Plan,
    Apply,
}

pub open spec fn method_of(name: Seq<char>) -> Result<Method, ErrorView> {
    if name == "inspect"@ {
        Ok(Method::Inspect)
    } else if name == "autodetect"@ {
        Ok(Method::Autodetect)
    } else if name == "plan"@ {
        Ok(Method::Plan)
    } else if name == "apply"@ {
        Ok(Method::Apply)
    } else {
        Err(ErrorView::UnknownMethod(name))
    }
}

impl InstallerModule {
    pub fn new() -> (r: InstallerModule)
        ensures
            r == InstallerModule,
    {
        InstallerModule
    }

    /// Which method a call names.
    pub fn route(&self, method: &str) -> (r: Result<Method, ModuleError>)
        ensures
            (match r {
                Ok(m) => Ok(m),
                Err(e) => Err(e@),
            }) == method_of(method@),
    {
        if text::same(method, "inspect") {
            Ok(Method::Inspect)
        } else if text::same(method, "autodetect") {
            Ok(Method::Autodetect)
        } else if text::same(method, "plan") {
            Ok(Method::Plan)
        } else if text::same(method, "apply") {
            Ok(Method::Apply)
        } else {
            Err(ModuleError::UnknownMethod(String::from_str(method)))
        }
    }
}

/// A request for a plan.
#[derive(Debug, Clone, Copy)]
pub struct PlanRequest {
    pub action: Action,
    pub prefer_hooks: bool,
    pub force: bool,
}

impl PlanRequest {
    pub fn options(&self) -> (r: PlanOptions)
        ensures
            r == (PlanOptions { prefer_hooks: self.prefer_hooks, force: self.force }),
    {
        PlanOptions { prefer_hooks: self.prefer_hooks, force: self.force }
    }
}

/// A request to carry a plan out.
#[derive(Debug, Clone)]
pub struct ApplyRequest {
    pub action: Action,
    pub prefer_hooks: bool,
    pub force: bool,
    /// Must be explicitly true to touch the system; otherwise a dry run.
    pub confirm: bool,
    /// Fill in whatever is left unset below from what the machine says.
    pub auto: bool,
    pub cpu_max_rpm: Option<u32>,
    pub gpu_max_rpm: Option<u32>,
    /// Board id to add to one of the driver's tables.
    pub experimental_board: Option<String>,
    pub board_table: Option<BoardTable>,
    /// Ids of steps not to run; only optional ones may be named.
    pub skip_steps: Vec<String>,
}

pub open spec fn blocker_messages(blockers: Seq<BlockerView>) -> Seq<Seq<char>> {
    Seq::new(blockers.len(), |i: int| blockers[i].message)
}

pub open spec fn err_not_runnable(blockers: Seq<BlockerView>) -> ErrorView {
    ErrorView::Localised(
        ErrorKind::NotCapable,
        msg::message(
            "installer.err.planNotRunnable"@,
            seq![("reasons"@, text::join(blocker_messages(blockers), "; "@))],
            "this plan cannot run: {reasons}"@,
        ),
    )
}

pub open spec fn err_not_optional(id: Seq<char>) -> ErrorView {
    ErrorView::InvalidParams(
        "step '"@ + id
            + "' is not optional, so it cannot be skipped: the plan tolerates a failure only in the steps it marks optional"@,
    )
}

pub open spec fn err_no_step(id: Seq<char>) -> ErrorView {
    ErrorView::InvalidParams("no step '"@ + id + "' in this plan"@)
}

pub open spec fn err_no_table() -> ErrorView {
    ErrorView::InvalidParams(
        "experimentalBoard also needs boardTable, since the table decides which thermal-profile code path the board uses"@,
    )
}

/// The first step of that id.
pub open spec fn first_step(plan: PlanView, id: Seq<char>, from: int) -> Option<int>
    decreases plan.steps.len() - from,
{
    if from < 0 || from >= plan.steps.len() {
        None
    } else if plan.steps[from].id == id {
        Some(from)
    } else {
        first_step(plan, id, from + 1)
    }
}

/// Whether a step may be left out.
pub open spec fn may_skip(plan: PlanView, id: Seq<char>) -> Result<(), ErrorView> {
    match first_step(plan, id, 0) {
        Some(i) => if plan.steps[i].optional {
            Ok(())
        } else {
            Err(err_not_optional(id))
        },
        None => Err(err_no_step(id)),
    }
}

/// Whether every named step may be left out; the first that may not is the
/// answer.
pub open spec fn may_skip_all(plan: PlanView, ids: Seq<Seq<char>>) -> Result<(), ErrorView>
    decreases ids.len(),
{
    if ids.len() == 0 {
        Ok(())
    } else {
        match may_skip(plan, ids[0]) {
            Err(e) => Err(e),
            Ok(()) => may_skip_all(plan, ids.skip(1)),
        }
    }
}

/// Whether an apply may go ahead.
pub open spec fn admitted(
    plan: PlanView,
    skip: Seq<Seq<char>>,
    has_board: bool,
    has_table: bool,
) -> Result<(), ErrorView> {
    if !plan.runnable() {
        Err(err_not_runnable(plan.blockers))
    } else {
        match may_skip_all(plan, skip) {
            Err(e) => Err(e),
            Ok(()) => if has_board && !has_table {
                Err(err_no_table())
            } else {
                Ok(())
            },
        }
    }
}

fn check_skip(plan: &Plan, id: &String) -> (r: Result<(), ModuleError>)
    ensures
        (match r {
            Ok(()) => Ok(()),
            Err(e) => Err(e@),
        }) == may_skip(plan@, id@),
{
    let n: usize = plan.steps.len();
    let mut i: usize = 0;
    while i < n
        invariant
            n == plan.steps@.len(),
            i <= n,
            first_step(plan@, id@, 0) == first_step(plan@, id@, i as int),
        decreases n - i,
    {
        proof {
            assert(plan@.steps[i as int] == plan.steps@[i as int]@);
        }
        if text::same(plan.steps[i].id.as_str(), id.as_str()) {
            if plan.steps[i].optional {
                return Ok(());
            }
            return Err(
                ModuleError::InvalidParams(
                    String::from_str("step '").concat(id.as_str()).concat(
                        "' is not optional, so it cannot be skipped: the plan tolerates a failure only in the steps it marks optional",
                    ),
                ),
            );
        }
        i = i + 1;
    }
    Err(
        ModuleError::InvalidParams(
            String::from_str("no step '").concat(id.as_str()).concat("' in this plan"),
        ),
    )
}

/// Checks that an apply may go ahead with this plan.
pub fn check_apply(plan: &Plan, request: &ApplyRequest) -> (r: Result<(), ModuleError>)
    ensures
        (match r {
            Ok(()) => Ok(()),
            Err(e) => Err(e@),
        }) == admitted(
            plan@,
            text::views(request.skip_steps@),
            request.experimental_board is Some,
            request.board_table is Some,
        ),
{
    if !plan.is_runnable() {
        let n: usize = plan.blockers.len();
        let mut reasons: Vec<String> = Vec::new();
        let mut i: usize = 0;
        while i < n
            invariant
                n == plan.blockers@.len(),
                i <= n,
                text::views(reasons@) == blocker_messages(plan@.blockers).take(i as int),
            decreases n - i,
        {
            text::push_string(&mut reasons, plan.blockers[i].message.clone());
            i = i + 1;
            proof {
                assert(text::views(reasons@) =~= blocker_messages(plan@.blockers).take(i as int));
            }
        }
        proof {
            assert(blocker_messages(plan@.blockers).take(n as int) =~= blocker_messages(
                plan@.blockers,
            ));
        }
        return Err(
            ModuleError::localised(
                ErrorKind::NotCapable,
                Msg::new(
                    "installer.err.planNotRunnable",
                    msg::one(msg::param("reasons", text::joined(&reasons, "; "))),
                    "this plan cannot run: {reasons}",
                ),
            ),
        );
    }
    let n: usize = request.skip_steps.len();
    let ghost ids = text::views(request.skip_steps@);
    let mut i: usize = 0;
    proof {
        assert(ids.skip(0) =~= ids);
    }
    while i < n
        invariant
            n == request.skip_steps@.len(),
            i <= n,
            ids == text::views(request.skip_steps@),
            plan@.runnable(),
            may_skip_all(plan@, ids) == may_skip_all(plan@, ids.skip(i as int)),
        decreases n - i,
    {
        proof {
            assert(ids.skip(i as int)[0] == request.skip_steps@[i as int]@);
            assert(ids.skip(i as int).skip(1) =~= ids.skip(i + 1));
        }
        match check_skip(plan, &request.skip_steps[i]) {
            Ok(()) => {},
            Err(e) => {
                return Err(e);
            },
        }
        i = i + 1;
    }
    if request.experimental_board.is_some() && request.board_table.is_none() {
        return Err(
            ModuleError::InvalidParams(
                String::from_str(
                    "experimentalBoard also needs boardTable, since the table decides which thermal-profile code path the board uses",
                ),
            ),
        );
    }
    Ok(())
}

/// The run that a request asks for: a rehearsal, unless it is confirmed.
pub fn begin_apply(request: &ApplyRequest) -> (r: Execution)
    ensures
        r.wf(),
        r.dry() == !request.confirm,
        r.done() == Seq::<ResultView>::empty(),
        forall|steps: Seq<StepView>, skip: Seq<Seq<char>>| #[trigger]
            r.came_to(steps, skip, seq![]),
{
    Execution::begin(!request.confirm)
}

/// A value that was sent, or else the one that was detected.
pub open spec fn sent_or<A>(sent: Option<A>, detected: Option<A>) -> Option<A> {
    match sent {
        Some(a) => Some(a),
        None => detected,
    }
}

pub open spec fn board_view(board: Option<(BoardTable, String)>) -> Option<
    (BoardTable, Seq<char>),
> {
    match board {
        Some((table, name)) => Some((table, name@)),
        None => None,
    }
}

/// A board and its table, where both are there.
pub open spec fn board_of(table: Option<BoardTable>, name: Option<String>) -> Option<
    (BoardTable, Seq<char>),
> {
    match (table, name) {
        (Some(table), Some(name)) => Some((table, name@)),
        _ => None,
    }
}

/// The inputs of the run: what was sent, and what was detected in the place of
/// what was not, where the request asks for that.
pub fn execute_context(
    request: &ApplyRequest,
    detected: Option<&Autodetected>,
    own_path: Option<String>,
) -> (r: ExecuteContext)
    ensures
        r.max_rpm.cpu == sent_or(
            request.cpu_max_rpm,
            match detected {
                Some(d) => d.cpu_max_rpm,
                None => None,
            },
        ),
        r.max_rpm.gpu == sent_or(
            request.gpu_max_rpm,
            match detected {
                Some(d) => d.gpu_max_rpm,
                None => None,
            },
        ),
        board_view(r.experimental_board) == sent_or(
            board_of(request.board_table, request.experimental_board),
            match detected {
                Some(d) => board_of(d.board_table, d.experimental_board),
                None => None,
            },
        ),
        r.daemon_binary == own_path,
        text::views(r.skip_steps@) == text::views(request.skip_steps@),
{
    let mut board = match (&request.board_table, &request.experimental_board) {
        (Some(table), Some(name)) => Some((*table, name.clone())),
        _ => None,
    };
    let mut max_rpm = MaxRpm { cpu: request.cpu_max_rpm, gpu: request.gpu_max_rpm };
    match detected {
        None => {},
        Some(d) => {
            if board.is_none() {
                board = d.board();
            }
            if max_rpm.cpu.is_none() {
                max_rpm.cpu = d.cpu_max_rpm;
            }
            if max_rpm.gpu.is_none() {
                max_rpm.gpu = d.gpu_max_rpm;
            }
        },
    }
    ExecuteContext {
        max_rpm,
        experimental_board: board,
        daemon_binary: own_path,
        skip_steps: text::copy_list(&request.skip_steps),
    }
}

// --- laws ----------------------------------------------------------------

proof fn lemma_first_step(plan: PlanView, id: Seq<char>, from: int)
    requires
        0 <= from,
    ensures
        match first_step(plan, id, from) {
            Some(i) => from <= i < plan.steps.len() && plan.steps[i].id == id,
            None => forall|j: int|
                from <= j < plan.steps.len() ==> (#[trigger] plan.steps[j]).id != id,
        },
    decreases plan.steps.len() - from,
{
    if from < plan.steps.len() && plan.steps[from].id != id {
        lemma_first_step(plan, id, from + 1);
    }
}

/// An apply that goes ahead only leaves out steps that the plan has and marks
/// optional.
pub proof fn law_admitted_skips_are_optional(
    plan: PlanView,
    skip: Seq<Seq<char>>,
    has_board: bool,
    has_table: bool,
    k: int,
)
    requires
        admitted(plan, skip, has_board, has_table) is Ok,
        0 <= k < skip.len(),
    ensures
        exists|i: int|
            0 <= i < plan.steps.len() && (#[trigger] plan.steps[i]).id == skip[k]
                && plan.steps[i].optional,
    decreases skip.len(),
{
    lemma_first_step(plan, skip[0], 0);
    if k > 0 {
        assert(skip.skip(1)[k - 1] == skip[k]);
        law_admitted_skips_are_optional(plan, skip.skip(1), has_board, has_table, k - 1);
    } else {
        let i = first_step(plan, skip[0], 0)->0;
        assert(plan.steps[i].id == skip[0]);
    }
}

/// Without a confirmation no step is run, whatever came before it and whatever
/// is left out.
pub proof fn law_nothing_is_carried_out_unconfirmed(
    request: ApplyRequest,
    run: Execution,
    step: StepView,
    skip: Seq<Seq<char>>,
)
    requires
        run.dry() == !request.confirm,
        !request.confirm,
    ensures
        !execute::runs(step, execute::any_failed(run.done()), skip, run.dry()),
{
}

/// A plan that cannot run is never carried out.
pub proof fn law_blocked_plans_are_refused(
    plan: PlanView,
    skip: Seq<Seq<char>>,
    has_board: bool,
    has_table: bool,
)
    requires
        plan.blockers.len() > 0,
    ensures
        admitted(plan, skip, has_board, has_table) is Err,
{
}

/// The methods are known by their names, and any other is refused by its own.
pub proof fn law_methods_are_known_by_name(name: Seq<char>)
    ensures
        method_of("inspect"@) == Ok::<Method, ErrorView>(Method::Inspect),
        method_of("autodetect"@) == Ok::<Method, ErrorView>(Method::Autodetect),
        method_of("plan"@) == Ok::<Method, ErrorView>(Method::Plan),
        method_of("apply"@) == Ok::<Method, ErrorView>(Method::Apply),
        name != "inspect"@ && name != "autodetect"@ && name != "plan"@ && name != "apply"@
            ==> method_of(name) == Err::<Method, ErrorView>(ErrorView::UnknownMethod(name)),
{
    reveal_strlit("inspect");
    reveal_strlit("autodetect");
    reveal_strlit("plan");
    reveal_strlit("apply");
    assert("inspect"@.len() == 7);
    assert("autodetect"@.len() == 10);
    assert("plan"@.len() == 4);
    assert("apply"@.len() == 5);
}

/// A step can be left out exactly where the plan has it and marks it optional.
pub proof fn law_only_optional_steps_can_be_left_out(plan: PlanView, id: Seq<char>, i: int)
    ensures
        0 <= i < plan.steps.len() && plan.steps[i].id == id && (forall|j: int|
            0 <= j < i ==> (#[trigger] plan.steps[j]).id != id) ==> may_skip(plan, id) == (
        if plan.steps[i].optional {
            Ok(())
        } else {
            Err(err_not_optional(id))
        }),
        (forall|j: int| 0 <= j < plan.steps.len() ==> (#[trigger] plan.steps[j]).id != id)
            ==> may_skip(plan, id) == Err::<(), ErrorView>(err_no_step(id)),
{
    lemma_first_step(plan, id, 0);
    if 0 <= i < plan.steps.len() && plan.steps[i].id == id {
        lemma_found_is_first(plan, id, 0, i);
    }
}

proof fn lemma_found_is_first(plan: PlanView, id: Seq<char>, from: int, i: int)
    requires
        0 <= from <= i < plan.steps.len(),
        plan.steps[i].id == id,
    ensures
        first_step(plan, id, from) matches Some(k) && from <= k <= i && plan.steps[k].id == id,
    decreases i - from,
{
    if plan.steps[from].id != id {
        lemma_found_is_first(plan, id, from + 1, i);
    }
}

/// A plan is carried out exactly where it has steps and nothing blocks it, each step to be left
/// out may be, and a board comes with its table; what is refused is told by the
/// first of these that is amiss.
pub proof fn law_a_sound_request_is_admitted(
    plan: PlanView,
    skip: Seq<Seq<char>>,
    has_board: bool,
    has_table: bool,
    k: int,
)
    ensures
        admitted(plan, skip, has_board, has_table) is Ok <==> plan.blockers.len() == 0
            && plan.steps.len() > 0 && may_skip_all(plan, skip) is Ok && (has_board ==> has_table),
        plan.blockers.len() > 0 || plan.steps.len() == 0 ==> admitted(
            plan,
            skip,
            has_board,
            has_table,
        ) == Err::<
            (),
            ErrorView,
        >(err_not_runnable(plan.blockers)),
        plan.blockers.len() == 0 && plan.steps.len() > 0 && skip.len() == 0 && has_board
            && !has_table ==> admitted(
            plan,
            skip,
            has_board,
            has_table,
        ) == Err::<(), ErrorView>(err_no_table()),
        may_skip_all(plan, skip) is Ok <==> (forall|j: int|
            0 <= j < skip.len() ==> may_skip(plan, #[trigger] skip[j]) is Ok),
        plan.blockers.len() == 0 && plan.steps.len() > 0 && 0 <= k < skip.len() && may_skip(plan, skip[k]) is Err && (
        forall|j: int| 0 <= j < k ==> may_skip(plan, #[trigger] skip[j]) is Ok) ==> admitted(
            plan,
            skip,
            has_board,
            has_table,
        ) == may_skip(plan, skip[k]),
{
    lemma_skips(plan, skip, k);
}

proof fn lemma_skips(plan: PlanView, skip: Seq<Seq<char>>, k: int)
    ensures
        may_skip_all(plan, skip) is Ok <==> (forall|j: int|
            0 <= j < skip.len() ==> may_skip(plan, #[trigger] skip[j]) is Ok),
        0 <= k < skip.len() && may_skip(plan, skip[k]) is Err && (forall|j: int|
            0 <= j < k ==> may_skip(plan, #[trigger] skip[j]) is Ok) ==> may_skip_all(plan, skip)
            == may_skip(plan, skip[k]),
    decreases skip.len(),
{
    if skip.len() > 0 {
        let rest = skip.skip(1);
        lemma_skips(plan, rest, k - 1);
        assert forall|j: int| 0 <= j < rest.len() implies #[trigger] rest[j] == skip[j + 1] by {
        }
        if may_skip_all(plan, skip) is Ok {
            assert forall|j: int| 0 <= j < skip.len() implies may_skip(
                plan,
                #[trigger] skip[j],
            ) is Ok by {
                if j > 0 {
                    assert(rest[j - 1] == skip[j]);
                }
            }
        }
        if forall|j: int| 0 <= j < skip.len() ==> may_skip(plan, #[trigger] skip[j]) is Ok {
            assert(may_skip(plan, skip[0]) is Ok);
            assert forall|j: int| 0 <= j < rest.len() implies may_skip(
                plan,
                #[trigger] rest[j],
            ) is Ok by {
                assert(rest[j] == skip[j + 1]);
            }
        }
        if 0 < k < skip.len() && (forall|j: int|
            0 <= j < k ==> may_skip(plan, #[trigger] skip[j]) is Ok) {
            assert(may_skip(plan, skip[0]) is Ok);
            assert(rest[k - 1] == skip[k]);
            assert forall|j: int| 0 <= j < k - 1 implies may_skip(plan, #[trigger] rest[j]) is Ok by {
                assert(rest[j] == skip[j + 1]);
            }
        }
    }
}

/// What a request sends counts before what was found, and what was found counts
/// where nothing was sent. A board counts only together with its table.
pub proof fn law_what_is_sent_counts_first(
    sent: Option<u32>,
    found: Option<u32>,
    table: Option<BoardTable>,
    name: Option<String>,
)
    ensures
        sent is Some ==> sent_or(sent, found) == sent,
        sent is None ==> sent_or(sent, found) == found,
        board_of(table, name) is Some <==> table is Some && name is Some,
        board_of(table, name) matches Some((t, n)) ==> table == Some(t) && text::opt_view(name)
            == Some(n),
{
}

/// Every blocker is told, in the plan's order.
pub proof fn law_every_blocker_is_told(blockers: Seq<BlockerView>, i: int)
    requires
        0 <= i < blockers.len(),
    ensures
        blocker_messages(blockers).len() == blockers.len(),
        blocker_messages(blockers)[i] == blockers[i].message,
        err_not_runnable(blockers) matches ErrorView::Localised(kind, said) && kind
            == ErrorKind::NotCapable && said.params == seq![
            ("reasons"@, text::join(blocker_messages(blockers), "; "@)),
        ],
{
}

/// Each message has a key of its own, names what it is about, and says so in these
/// words.
pub proof fn law_messages_have_keys_and_words(blockers: Seq<BlockerView>)
    ensures
        err_not_runnable(blockers) matches ErrorView::Localised(kind, m)
            && kind == ErrorKind::NotCapable
            && m.key == "installer.err.planNotRunnable"@
            && m.params.len() == 1
            && m.params[0].0 == "reasons"@
            && m.text == msg::fill("this plan cannot run: {reasons}"@, m.params),
{
}

} // verus!
