//! What a client asked for, read from the parameters of the call.
use vstd::prelude::*;
use vstd::string::*;

use crate::error::ErrorView;
use crate::error::ModuleError;
use crate::json;
use crate::json::Json;
use crate::overclock::plan::ClockLock;
use crate::overclock::plan::Target;
use crate::text;

verus! {

/// An offset in the parameters.
#[derive(Debug, Clone, Copy, PartialEq, Eq, Structural)]
pub enum Field {
    Absent,
    /// Present, and not a whole number of MHz.
    Invalid,
    Value(i32),
}

/// The clock lock in the parameters.
#[derive(Debug, Clone, Copy, PartialEq, Eq, Structural)]
pub enum LockField {
    /// Not mentioned: keep the lock there is.
    Absent,
    /// An explicit null: take the lock off.
    Null,
    /// Present without both of its ends.
    Incomplete,
    MinInvalid,
    MaxInvalid,
    Value(ClockLock),
}

/// The hold in the parameters.
#[derive(Debug, Clone, Copy, PartialEq, Eq, Structural)]
pub enum HoldField {
    Absent,
    /// Present, and not a whole number of seconds.
    Invalid,
    Value(u64),
}

/// The parameters of an apply.
#[derive(Debug, Clone)]
pub struct ApplyRequest {
    pub gpu: Option<String>,
    pub core: Field,
    pub mem: Field,
    pub lock: LockField,
    pub hold: HoldField,
}

#[verifier::ext_equal]
pub struct ApplyView {
    pub gpu: Option<Seq<char>>,
    pub core: Field,
    pub mem: Field,
    pub lock: LockField,
    pub hold: HoldField,
}

impl View for ApplyRequest {
    type V = ApplyView;

    open spec fn view(&self) -> ApplyView {
        ApplyView {
            gpu: text::opt_view(self.gpu),
            core: self.core,
            mem: self.mem,
            lock: self.lock,
            hold: self.hold,
        }
    }
}

/// The whole number of MHz a value is, where it is within `i32`.
pub open spec fn mhz_of(v: Json) -> Option<i32> {
    match v.as_i64() {
        Some(n) => if i32::MIN <= n <= i32::MAX {
            Some(n as i32)
        } else {
            None
        },
        None => None,
    }
}

pub open spec fn field_of(v: Option<Json>) -> Field {
    match v {
        None => Field::Absent,
        Some(v) => match mhz_of(v) {
            Some(n) => Field::Value(n),
            None => Field::Invalid,
        },
    }
}

pub open spec fn lock_field_of(v: Option<Json>) -> LockField {
    match v {
        None => LockField::Absent,
        Some(v) => if v is Null {
            LockField::Null
        } else {
            match (v.member("minMhz"@), v.member("maxMhz"@)) {
                (Some(min), Some(max)) => match (mhz_of(min), mhz_of(max)) {
                    (Some(min_mhz), Some(max_mhz)) => LockField::Value(
                        ClockLock { min_mhz, max_mhz },
                    ),
                    (None, _) => LockField::MinInvalid,
                    (Some(_), None) => LockField::MaxInvalid,
                },
                _ => LockField::Incomplete,
            }
        },
    }
}

pub open spec fn hold_field_of(v: Option<Json>) -> HoldField {
    match v {
        None => HoldField::Absent,
        Some(v) => match v.as_u64() {
            Some(n) => HoldField::Value(n as u64),
            None => HoldField::Invalid,
        },
    }
}

/// The parameters of an apply in a JSON value.
pub open spec fn apply_view(params: Json) -> ApplyView {
    ApplyView {
        gpu: params.text_member("gpu"@),
        core: field_of(params.member("coreOffsetMhz"@)),
        mem: field_of(params.member("memOffsetMhz"@)),
        lock: lock_field_of(params.member("clockLock"@)),
        hold: hold_field_of(params.member("holdSecs"@)),
    }
}

fn as_mhz(v: &serde_json::Value) -> (r: Option<i32>)
    ensures
        r == mhz_of(json::contents(*v)),
{
    match json::as_i64(v) {
        Some(n) => {
            if (i32::MIN as i64) <= n && n <= (i32::MAX as i64) {
                Some(n as i32)
            } else {
                None
            }
        },
        None => None,
    }
}

fn read_field(params: &serde_json::Value, name: &str) -> (r: Field)
    ensures
        r == field_of(json::contents(*params).member(name@)),
{
    match json::get(params, name) {
        None => Field::Absent,
        Some(v) => match as_mhz(v) {
            Some(n) => Field::Value(n),
            None => Field::Invalid,
        },
    }
}

fn read_lock(params: &serde_json::Value) -> (r: LockField)
    ensures
        r == lock_field_of(json::contents(*params).member("clockLock"@)),
{
    match json::get(params, "clockLock") {
        None => LockField::Absent,
        Some(v) => {
            if json::is_null(v) {
                return LockField::Null;
            }
            match (json::get(v, "minMhz"), json::get(v, "maxMhz")) {
                (Some(min), Some(max)) => match (as_mhz(min), as_mhz(max)) {
                    (Some(min_mhz), Some(max_mhz)) => LockField::Value(
                        ClockLock { min_mhz, max_mhz },
                    ),
                    (None, _) => LockField::MinInvalid,
                    (Some(_), None) => LockField::MaxInvalid,
                },
                _ => LockField::Incomplete,
            }
        },
    }
}

impl ApplyRequest {
    /// Reads the parameters of an apply.
    pub fn read(params: &serde_json::Value) -> (r: ApplyRequest)
        ensures
            r@ == apply_view(json::contents(*params)),
    {
        let hold = match json::get(params, "holdSecs") {
            None => HoldField::Absent,
            Some(v) => match json::as_u64(v) {
                Some(n) => HoldField::Value(n),
                None => HoldField::Invalid,
            },
        };
        ApplyRequest {
            gpu: json::text_of(params, "gpu"),
            core: read_field(params, "coreOffsetMhz"),
            mem: read_field(params, "memOffsetMhz"),
            lock: read_lock(params),
            hold,
        }
    }
}

// --- merging -------------------------------------------------------------

pub open spec fn not_mhz(field: Seq<char>) -> ErrorView {
    ErrorView::InvalidParams("params."@ + field + " must be a whole number of MHz"@)
}

fn mhz_error(field: &str) -> (r: ModuleError)
    ensures
        r@ == not_mhz(field@),
{
    ModuleError::InvalidParams(
        String::from_str("params.").concat(field).concat(" must be a whole number of MHz"),
    )
}

/// The offset a field asks for.
pub open spec fn offset_or(current: i32, field: Field) -> i32 {
    match field {
        Field::Value(n) => n,
        _ => current,
    }
}

/// A request over what is there: what it does not mention stays.
pub open spec fn merged(current: Target, request: ApplyView) -> Result<Target, ErrorView> {
    if request.core is Invalid {
        Err(not_mhz("coreOffsetMhz"@))
    } else if request.mem is Invalid {
        Err(not_mhz("memOffsetMhz"@))
    } else {
        let lock = match request.lock {
            LockField::Absent => Ok(current.core_clock),
            LockField::Null => Ok(None),
            LockField::Incomplete => Err(
                ErrorView::InvalidParams("clockLock needs minMhz and maxMhz"@),
            ),
            LockField::MinInvalid => Err(not_mhz("clockLock.minMhz"@)),
            LockField::MaxInvalid => Err(not_mhz("clockLock.maxMhz"@)),
            LockField::Value(lock) => Ok(Some(lock)),
        };
        match lock {
            Err(e) => Err(e),
            Ok(core_clock) => Ok(
                Target {
                    core_offset_mhz: offset_or(current.core_offset_mhz, request.core),
                    mem_offset_mhz: offset_or(current.mem_offset_mhz, request.mem),
                    core_clock,
                },
            ),
        }
    }
}

pub open spec fn target_outcome(r: Result<Target, ModuleError>) -> Result<Target, ErrorView> {
    match r {
        Ok(t) => Ok(t),
        Err(e) => Err(e@),
    }
}

/// A request is a change to what is already there, not a whole new state.
pub fn merge(request: &ApplyRequest, current: Target) -> (r: Result<Target, ModuleError>)
    ensures
        target_outcome(r) == merged(current, request@),
{
    let mut target = current;
    match request.core {
        Field::Absent => {},
        Field::Invalid => {
            return Err(mhz_error("coreOffsetMhz"));
        },
        Field::Value(n) => {
            target.core_offset_mhz = n;
        },
    }
    match request.mem {
        Field::Absent => {},
        Field::Invalid => {
            return Err(mhz_error("memOffsetMhz"));
        },
        Field::Value(n) => {
            target.mem_offset_mhz = n;
        },
    }
    match request.lock {
        LockField::Absent => {},
        LockField::Null => {
            target.core_clock = None;
        },
        LockField::Incomplete => {
            return Err(
                ModuleError::InvalidParams(String::from_str("clockLock needs minMhz and maxMhz")),
            );
        },
        LockField::MinInvalid => {
            return Err(mhz_error("clockLock.minMhz"));
        },
        LockField::MaxInvalid => {
            return Err(mhz_error("clockLock.maxMhz"));
        },
        LockField::Value(lock) => {
            target.core_clock = Some(lock);
        },
    }
    Ok(target)
}

// --- the methods ---------------------------------------------------------

/// A call of the module.
#[derive(Debug, Clone)]
pub enum Call {
    GetState,
    Probe { allow_writes: bool },
    SetConsent { accepted: bool },
    Apply(ApplyRequest),
    Confirm,
    Cancel,
    Reset { gpu: Option<String> },
    SetRestoreOnStart { enabled: bool },
}

#[verifier::ext_equal]
pub enum CallView {
    GetState,
    Probe(bool),
    SetConsent(bool),
    Apply(ApplyView),
    Confirm,
    Cancel,
    Reset(Option<Seq<char>>),
    SetRestoreOnStart(bool),
}

impl View for Call {
    type V = CallView;

    open spec fn view(&self) -> CallView {
        match self {
            Call::GetState => CallView::GetState,
            Call::Probe { allow_writes } => CallView::Probe(*allow_writes),
            Call::SetConsent { accepted } => CallView::SetConsent(*accepted),
            Call::Apply(request) => CallView::Apply(request@),
            Call::Confirm => CallView::Confirm,
            Call::Cancel => CallView::Cancel,
            Call::Reset { gpu } => CallView::Reset(text::opt_view(*gpu)),
            Call::SetRestoreOnStart { enabled } => CallView::SetRestoreOnStart(*enabled),
        }
    }
}

/// Which call a method and its parameters are.
pub open spec fn call_of(method: Seq<char>, params: Json) -> Result<CallView, ErrorView> {
    if method == "getState"@ {
        Ok(CallView::GetState)
    } else if method == "probe"@ {
        Ok(
            CallView::Probe(
                match params.bool_member("allowWrites"@) {
                    Some(b) => b,
                    None => false,
                },
            ),
        )
    } else if method == "setConsent"@ {
        match params.bool_member("accepted"@) {
            Some(b) => Ok(CallView::SetConsent(b)),
            None => Err(ErrorView::InvalidParams("params.accepted must be a boolean"@)),
        }
    } else if method == "apply"@ {
        Ok(CallView::Apply(apply_view(params)))
    } else if method == "confirm"@ {
        Ok(CallView::Confirm)
    } else if method == "cancel"@ {
        Ok(CallView::Cancel)
    } else if method == "reset"@ {
        Ok(CallView::Reset(params.text_member("gpu"@)))
    } else if method == "setRestoreOnStart"@ {
        match params.bool_member("enabled"@) {
            Some(b) => Ok(CallView::SetRestoreOnStart(b)),
            None => Err(ErrorView::InvalidParams("params.enabled must be a boolean"@)),
        }
    } else {
        Err(ErrorView::UnknownMethod(method))
    }
}

/// Reads a call.
pub fn route(method: &str, params: &serde_json::Value) -> (r: Result<Call, ModuleError>)
    ensures
        (match r {
            Ok(c) => Ok(c@),
            Err(e) => Err(e@),
        }) == call_of(method@, json::contents(*params)),
{
    if text::same(method, "getState") {
        Ok(Call::GetState)
    } else if text::same(method, "probe") {
        let allow_writes = match json::bool_of(params, "allowWrites") {
            Some(b) => b,
            None => false,
        };
        Ok(Call::Probe { allow_writes })
    } else if text::same(method, "setConsent") {
        match json::bool_of(params, "accepted") {
            Some(accepted) => Ok(Call::SetConsent { accepted }),
            None => Err(
                ModuleError::InvalidParams(String::from_str("params.accepted must be a boolean")),
            ),
        }
    } else if text::same(method, "apply") {
        Ok(Call::Apply(ApplyRequest::read(params)))
    } else if text::same(method, "confirm") {
        Ok(Call::Confirm)
    } else if text::same(method, "cancel") {
        Ok(Call::Cancel)
    } else if text::same(method, "reset") {
        Ok(Call::Reset { gpu: json::text_of(params, "gpu") })
    } else if text::same(method, "setRestoreOnStart") {
        match json::bool_of(params, "enabled") {
            Some(enabled) => Ok(Call::SetRestoreOnStart { enabled }),
            None => Err(
                ModuleError::InvalidParams(String::from_str("params.enabled must be a boolean")),
            ),
        }
    } else {
        Err(ModuleError::UnknownMethod(String::from_str(method)))
    }
}

// --- laws ----------------------------------------------------------------

/// A request that mentions nothing changes nothing.
pub proof fn law_empty_request_keeps(current: Target, request: ApplyView)
    requires
        request.core is Absent,
        request.mem is Absent,
        request.lock is Absent,
    ensures
        merged(current, request) == Ok::<Target, ErrorView>(current),
{
}

/// Mentioning one knob leaves the others alone.
pub proof fn law_unmentioned_is_kept(current: Target, request: ApplyView)
    requires
        merged(current, request) is Ok,
    ensures
        request.core is Absent ==> merged(current, request)->Ok_0.core_offset_mhz
            == current.core_offset_mhz,
        request.mem is Absent ==> merged(current, request)->Ok_0.mem_offset_mhz
            == current.mem_offset_mhz,
        request.lock is Absent ==> merged(current, request)->Ok_0.core_clock == current.core_clock,
{
}

/// Every knob that a request names is taken as it was named, whatever else the
/// request names: an offset becomes the offset, a lock the lock, and a null
/// takes the lock off.
pub proof fn law_named_fields_are_taken(current: Target, request: ApplyView)
    requires
        merged(current, request) is Ok,
    ensures
        forall|n: i32|
            request.core == Field::Value(n) ==> merged(current, request)->Ok_0.core_offset_mhz
                == n,
        forall|n: i32|
            request.mem == Field::Value(n) ==> merged(current, request)->Ok_0.mem_offset_mhz == n,
        forall|lock: ClockLock|
            request.lock == LockField::Value(lock) ==> merged(current, request)->Ok_0.core_clock
                == Some(lock),
        request.lock is Null ==> merged(current, request)->Ok_0.core_clock is None,
{
}

/// A request is refused exactly where it names something that is no clock, and
/// then as a bad parameter.
pub proof fn law_only_bad_fields_are_refused(current: Target, request: ApplyView)
    ensures
        merged(current, request) is Err <==> (request.core is Invalid || request.mem is Invalid
            || request.lock is Incomplete || request.lock is MinInvalid || request.lock is
            MaxInvalid),
        merged(current, request) is Err ==> merged(current, request)->Err_0 is InvalidParams,
{
}

/// Two requests one behind the other are one request that names what either
/// names, the later one where both do.
pub proof fn law_requests_add_up(current: Target, first: ApplyView, second: ApplyView)
    requires
        merged(current, first) is Ok,
        merged(merged(current, first)->Ok_0, second) is Ok,
    ensures
        merged(merged(current, first)->Ok_0, second) == merged(
            current,
            ApplyView {
                core: if second.core is Absent {
                    first.core
                } else {
                    second.core
                },
                mem: if second.mem is Absent {
                    first.mem
                } else {
                    second.mem
                },
                lock: if second.lock is Absent {
                    first.lock
                } else {
                    second.lock
                },
                ..second
            },
        ),
{
}

/// An offset in the parameters is what the member of its name holds: the whole
/// number where there is one that fits, nothing where there is no such member,
/// and a mistake where there is anything else.
pub proof fn law_offsets_are_read_by_name(params: Json)
    ensures
        params.member("coreOffsetMhz"@) is None <==> apply_view(params).core is Absent,
        params.member("memOffsetMhz"@) is None <==> apply_view(params).mem is Absent,
        forall|n: i32|
            params.member("coreOffsetMhz"@) == Some(Json::Int(n as int)) <==> apply_view(
                params,
            ).core == Field::Value(n),
        forall|n: i32|
            params.member("memOffsetMhz"@) == Some(Json::Int(n as int)) <==> apply_view(params).mem
                == Field::Value(n),
{
}

/// The lock in the parameters is what the member of its name holds: a null is
/// a null, and a lock needs both of its ends.
pub proof fn law_lock_is_read_by_name(params: Json, lock: ClockLock)
    ensures
        params.member("clockLock"@) is None <==> apply_view(params).lock is Absent,
        params.member("clockLock"@) == Some(Json::Null) <==> apply_view(params).lock is Null,
        apply_view(params).lock == LockField::Value(lock) <==> (params.member(
            "clockLock"@,
        ) matches Some(v) && v.member("minMhz"@) == Some(Json::Int(lock.min_mhz as int))
            && v.member("maxMhz"@) == Some(Json::Int(lock.max_mhz as int))),
        apply_view(params).lock is Incomplete <==> (params.member("clockLock"@) matches Some(v)
            && v !is Null && (v.member("minMhz"@) is None || v.member("maxMhz"@) is None)),
{
}

/// The card and the hold in the parameters are what the members of their names
/// hold.
pub proof fn law_card_and_hold_are_read_by_name(params: Json)
    ensures
        forall|id: Seq<char>|
            params.member("gpu"@) == Some(Json::Text(id)) <==> #[trigger] apply_view(params).gpu
                == Some(id),
        params.member("holdSecs"@) is None <==> apply_view(params).hold is Absent,
        forall|secs: u64|
            params.member("holdSecs"@) == Some(Json::Int(secs as int)) <==> apply_view(params).hold
                == HoldField::Value(secs),
{
}

/// Each method is the call of its name, and only an answer to a question may
/// be missing from its parameters.
pub proof fn law_methods_are_known_by_name(params: Json)
    ensures
        call_of("getState"@, params) == Ok::<CallView, ErrorView>(CallView::GetState),
        call_of("apply"@, params) == Ok::<CallView, ErrorView>(
            CallView::Apply(apply_view(params)),
        ),
        call_of("confirm"@, params) == Ok::<CallView, ErrorView>(CallView::Confirm),
        call_of("cancel"@, params) == Ok::<CallView, ErrorView>(CallView::Cancel),
        call_of("reset"@, params) == Ok::<CallView, ErrorView>(
            CallView::Reset(params.text_member("gpu"@)),
        ),
        forall|b: bool|
            params.member("accepted"@) == Some(Json::Bool(b)) <==> #[trigger] call_of(
                "setConsent"@,
                params,
            ) == Ok::<CallView, ErrorView>(CallView::SetConsent(b)),
        forall|b: bool|
            params.member("enabled"@) == Some(Json::Bool(b)) <==> #[trigger] call_of(
                "setRestoreOnStart"@,
                params,
            ) == Ok::<CallView, ErrorView>(CallView::SetRestoreOnStart(b)),
        call_of("probe"@, params) == Ok::<CallView, ErrorView>(
            CallView::Probe(params.member("allowWrites"@) == Some(Json::Bool(true))),
        ),
{
    reveal_strlit("getState");
    reveal_strlit("probe");
    reveal_strlit("setConsent");
    reveal_strlit("apply");
    reveal_strlit("confirm");
    reveal_strlit("cancel");
    reveal_strlit("reset");
    reveal_strlit("setRestoreOnStart");
    assert("getState"@.len() == 8);
    assert("probe"@.len() == 5);
    assert("setConsent"@.len() == 10);
    assert("apply"@.len() == 5);
    assert("confirm"@.len() == 7);
    assert("cancel"@.len() == 6);
    assert("reset"@.len() == 5);
    assert("setRestoreOnStart"@.len() == 17);
    assert("probe"@[0] == 'p' && "apply"@[0] == 'a' && "reset"@[0] == 'r');
}

} // verus!
