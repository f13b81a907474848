//! Smart queuing on the link that the default route goes out of.
use vstd::prelude::*;
use vstd::string::*;

use crate::error::ErrorKind;
use crate::error::ErrorView;
use crate::error::ModuleError;
use crate::json;
use crate::json::Json;
use crate::msg;
use crate::msg::Msg;
use crate::number;
use crate::text;

verus! {

#[derive(Debug, Clone, Copy, PartialEq, Eq, Structural)]
pub enum NetworkMode {
    Off,
    Auto,
}

pub open spec fn mode_named(value: Seq<char>) -> Option<NetworkMode> {
    let name = text::ascii_lower(value);
    if name == "off"@ {
        Some(NetworkMode::Off)
    } else if name == "auto"@ {
        Some(NetworkMode::Auto)
    } else {
        None
    }
}

impl NetworkMode {
    pub open spec fn name(self) -> Seq<char> {
        match self {
            NetworkMode::Off => "off"@,
            NetworkMode::Auto => "auto"@,
        }
    }

    pub fn parse(value: &str) -> (r: Option<NetworkMode>)
        ensures
            r == mode_named(value@),
    {
        let name = text::ascii_lowered(value);
        if text::same(name.as_str(), "off") {
            Some(NetworkMode::Off)
        } else if text::same(name.as_str(), "auto") {
            Some(NetworkMode::Auto)
        } else {
            None
        }
    }

    pub fn as_str(self) -> (r: &'static str)
        ensures
            r@ == self.name(),
    {
        match self {
            NetworkMode::Off => "off",
            NetworkMode::Auto => "auto",
        }
    }
}

// --- the default route ---------------------------------------------------

/// A route is up and goes through a gateway.
pub open spec fn up_through_gateway(flags: nat) -> bool {
    flags % 2 == 1 && (flags / 2) % 2 == 1
}

/// The metric and the interface of a line of the route table that is a default
/// route; nothing for every other line.
pub open spec fn default_route(line: Seq<char>) -> Option<(nat, Seq<char>)> {
    let fields = text::words(line);
    if fields.len() < 7 || fields[1] != "00000000"@ {
        None
    } else {
        let flags = match number::parse_unsigned(fields[3], 16, 0xffff_ffff) {
            Some(f) => f,
            None => 0,
        };
        if up_through_gateway(flags) {
            let metric = match number::parse_unsigned(fields[6], 10, 0xffff_ffff) {
                Some(m) => m,
                None => 0xffff_ffff,
            };
            Some((metric, fields[0]))
        } else {
            None
        }
    }
}

/// The default route with the lowest metric, and the first of them where
/// several have it.
pub open spec fn best_route(lines: Seq<Seq<char>>) -> Option<(nat, Seq<char>)>
    decreases lines.len(),
{
    if lines.len() == 0 {
        None
    } else {
        let best = best_route(lines.drop_last());
        match default_route(lines.last()) {
            None => best,
            Some(route) => match best {
                None => Some(route),
                Some(b) => if route.0 < b.0 {
                    Some(route)
                } else {
                    Some(b)
                },
            },
        }
    }
}

/// The lines behind the header.
pub open spec fn routes(table: Seq<char>) -> Seq<Seq<char>> {
    let all = text::lines(table);
    if all.len() == 0 {
        all
    } else {
        all.skip(1)
    }
}

fn read_route(line: &Vec<char>) -> (r: Option<(u32, Vec<char>)>)
    ensures
        match r {
            Some((metric, iface)) => default_route(line@) == Some((metric as nat, iface@)),
            None => default_route(line@) is None,
        },
{
    let fields = text::words_of(line);
    let n: usize = fields.len();
    if n < 7 {
        return None;
    }
    proof {
        assert(text::rows(fields@)[0] == fields@[0]@);
        assert(text::rows(fields@)[1] == fields@[1]@);
        assert(text::rows(fields@)[3] == fields@[3]@);
        assert(text::rows(fields@)[6] == fields@[6]@);
    }
    if !text::same_chars(&fields[1], &text::chars_of("00000000")) {
        return None;
    }
    let flags: u32 = match number::read_unsigned(&fields[3], 16, 0xffff_ffff) {
        Some(f) => f as u32,
        None => 0,
    };
    proof {
        assert((flags & 1 == 0) == (flags % 2 == 0)) by (bit_vector);
        assert((flags & 2 == 0) == ((flags / 2) % 2 == 0)) by (bit_vector);
    }
    if flags & 1 == 0 || flags & 2 == 0 {
        return None;
    }
    let metric: u32 = match number::read_u32(&fields[6]) {
        Some(m) => m,
        None => 0xffff_ffff,
    };
    let size: usize = fields[0].len();
    let iface = text::slice(&fields[0], 0, size);
    proof {
        assert(iface@ =~= fields@[0]@);
    }
    Some((metric, iface))
}

/// The interface the default route goes out of.
pub fn default_route_interface(route_table: &str) -> (r: Option<String>)
    ensures
        text::opt_view(r) == (match best_route(routes(route_table@)) {
            Some((_, iface)) => Some(iface),
            None => None,
        }),
{
    let rows = text::lines_of(&text::chars_of(route_table));
    let n: usize = rows.len();
    let ghost all = routes(route_table@);
    if n == 0 {
        return None;
    }
    let mut best: Option<(u32, Vec<char>)> = None;
    let mut i: usize = 1;
    proof {
        assert(all.take(0) =~= seq![]);
    }
    while i < n
        invariant
            n == rows@.len(),
            1 <= i <= n,
            all == text::rows(rows@).skip(1),
            match best {
                Some((metric, iface)) => best_route(all.take(i - 1)) == Some(
                    (metric as nat, iface@),
                ),
                None => best_route(all.take(i - 1)) is None,
            },
        decreases n - i,
    {
        proof {
            assert(all.take(i as int).drop_last() =~= all.take(i - 1));
            assert(all.take(i as int).last() == rows@[i as int]@);
        }
        match read_route(&rows[i]) {
            None => {},
            Some((metric, iface)) => {
                let better = match &best {
                    None => true,
                    Some((best_metric, _)) => metric < *best_metric,
                };
                if better {
                    best = Some((metric, iface));
                }
            },
        }
        i = i + 1;
    }
    proof {
        assert(all.take(n - 1) =~= all);
    }
    match best {
        Some((_, iface)) => Some(text::string_of(&iface)),
        None => None,
    }
}

// --- the queueing discipline ---------------------------------------------

/// The kind on the first line of `tc qdisc show`: `qdisc cake 8003: ...`.
pub open spec fn kind_shown(output: Seq<char>) -> Option<Seq<char>> {
    let all = text::lines(output);
    if all.len() == 0 {
        None
    } else {
        let parts = text::words(all[0]);
        if parts.len() >= 2 && parts[0] == "qdisc"@ {
            Some(parts[1])
        } else {
            None
        }
    }
}

pub fn qdisc_kind(show_output: &str) -> (r: Option<String>)
    ensures
        text::opt_view(r) == kind_shown(show_output@),
{
    let rows = text::lines_of(&text::chars_of(show_output));
    if rows.len() == 0 {
        return None;
    }
    proof {
        assert(text::rows(rows@)[0] == rows@[0]@);
    }
    let parts = text::words_of(&rows[0]);
    if parts.len() < 2 {
        return None;
    }
    proof {
        assert(text::rows(parts@)[0] == parts@[0]@);
        assert(text::rows(parts@)[1] == parts@[1]@);
    }
    if text::same_chars(&parts[0], &text::chars_of("qdisc")) {
        Some(text::string_of(&parts[1]))
    } else {
        None
    }
}

/// What one attempt to set a discipline came to.
#[derive(Debug, Clone)]
pub enum Attempt {
    Took,
    /// The tool said no, with what it printed.
    Refused(String),
    /// The tool could not be run.
    NotRun(String),
}

/// Why no discipline could be set.
#[derive(Debug, Clone, PartialEq, Eq)]
pub enum QdiscFailure {
    PermissionDenied,
    NotCapable(String),
}

#[verifier::ext_equal]
pub enum QdiscFailureView {
    PermissionDenied,
    NotCapable(Seq<char>),
}

impl View for QdiscFailure {
    type V = QdiscFailureView;

    open spec fn view(&self) -> QdiscFailureView {
        match self {
            QdiscFailure::PermissionDenied => QdiscFailureView::PermissionDenied,
            QdiscFailure::NotCapable(detail) => QdiscFailureView::NotCapable(detail@),
        }
    }
}

/// The two disciplines, in the order they are tried: the more capable first.
pub open spec fn qdisc_to_try(i: int) -> Seq<char> {
    if i == 0 {
        "cake"@
    } else {
        "fq_codel"@
    }
}

fn qdisc_name(i: usize) -> (r: &'static str)
    ensures
        r@ == qdisc_to_try(i as int),
{
    if i == 0 {
        "cake"
    } else {
        "fq_codel"
    }
}

pub open spec fn some_took(attempts: Seq<Attempt>) -> bool {
    exists|i: int| 0 <= i < attempts.len() && (#[trigger] attempts[i]) is Took
}

/// The discipline to try next: none once one took or both were tried.
pub fn next_qdisc(attempts: &Vec<Attempt>) -> (r: Option<&'static str>)
    ensures
        match r {
            Some(q) => !some_took(attempts@) && attempts@.len() < 2 && q@ == qdisc_to_try(
                attempts@.len() as int,
            ),
            None => some_took(attempts@) || attempts@.len() >= 2,
        },
{
    let n: usize = attempts.len();
    let mut i: usize = 0;
    while i < n
        invariant
            n == attempts@.len(),
            i <= n,
            forall|k: int| 0 <= k < i ==> !((#[trigger] attempts@[k]) is Took),
        decreases n - i,
    {
        match attempts[i] {
            Attempt::Took => {
                proof {
                    assert(attempts@[i as int] is Took);
                }
                return None;
            },
            _ => {},
        }
        i = i + 1;
    }
    if n < 2 {
        Some(qdisc_name(n))
    } else {
        None
    }
}

/// What is said of a failed attempt.
pub open spec fn failure_said(attempts: Seq<Attempt>, i: int) -> Seq<char> {
    qdisc_to_try(i) + ": "@ + (match attempts[i] {
        Attempt::Refused(said) => text::trim(said@),
        Attempt::NotRun(why) => why@,
        Attempt::Took => seq![],
    })
}

pub open spec fn failures(attempts: Seq<Attempt>) -> Seq<Seq<char>> {
    Seq::new(attempts.len(), |i: int| failure_said(attempts, i))
}

/// The first attempt that took, counted from `from`.
pub open spec fn first_taken(attempts: Seq<Attempt>, from: int) -> Option<int>
    decreases attempts.len() - from,
{
    if from < 0 || from >= attempts.len() {
        None
    } else if attempts[from] is Took {
        Some(from)
    } else {
        first_taken(attempts, from + 1)
    }
}

pub open spec fn all_eperm(said: Seq<Seq<char>>) -> bool {
    forall|i: int|
        0 <= i < said.len() ==> text::contains(#[trigger] said[i], "Operation not permitted"@)
}

/// What the attempts come to: the discipline that took, or why none did. Every
/// attempt refused with the same missing permission is a matter of root; other
/// refusals are the kernel's.
pub open spec fn queuing(attempts: Seq<Attempt>) -> Result<Seq<char>, QdiscFailureView> {
    match first_taken(attempts, 0) {
        Some(i) => Ok(qdisc_to_try(i)),
        None => if attempts.len() > 0 && all_eperm(failures(attempts)) {
            Err(QdiscFailureView::PermissionDenied)
        } else {
            Err(QdiscFailureView::NotCapable(text::join(failures(attempts), "; "@)))
        },
    }
}

pub fn enable_smart_queuing(attempts: &Vec<Attempt>) -> (r: Result<&'static str, QdiscFailure>)
    ensures
        (match r {
            Ok(q) => Ok(q@),
            Err(e) => Err(e@),
        }) == queuing(attempts@),
{
    let n: usize = attempts.len();
    let mut said: Vec<String> = Vec::new();
    let mut only_eperm: bool = true;
    let mut i: usize = 0;
    while i < n
        invariant
            n == attempts@.len(),
            i <= n,
            first_taken(attempts@, 0) == first_taken(attempts@, i as int),
            text::views(said@) == failures(attempts@).take(i as int),
            only_eperm == all_eperm(failures(attempts@).take(i as int)),
        decreases n - i,
    {
        let words = match &attempts[i] {
            Attempt::Took => {
                return Ok(qdisc_name(i));
            },
            Attempt::Refused(s) => text::trimmed_str(s.as_str()),
            Attempt::NotRun(why) => why.clone(),
        };
        let full = String::from_str(qdisc_name(i)).concat(": ").concat(words.as_str());
        let here = text::str_has(full.as_str(), "Operation not permitted");
        proof {
            let before = failures(attempts@).take(i as int);
            let after = failures(attempts@).take(i + 1);
            assert(after =~= before.push(full@));
            assert(all_eperm(after) == (all_eperm(before) && here)) by {
                if all_eperm(after) {
                    assert(after[i as int] == full@);
                    assert forall|k: int| 0 <= k < before.len() implies text::contains(
                        #[trigger] before[k],
                        "Operation not permitted"@,
                    ) by {
                        assert(after[k] == before[k]);
                    }
                }
            }
        }
        only_eperm = only_eperm && here;
        text::push_string(&mut said, full);
        i = i + 1;
    }
    proof {
        assert(failures(attempts@).take(n as int) =~= failures(attempts@));
    }
    if n > 0 && only_eperm {
        return Err(QdiscFailure::PermissionDenied);
    }
    Err(QdiscFailure::NotCapable(text::joined(&said, "; ")))
}

// --- the requests --------------------------------------------------------

pub open spec fn err_mode_required() -> ErrorView {
    ErrorView::Localised(
        ErrorKind::InvalidParams,
        msg::message(
            "network.err.modeRequired"@,
            seq![],
            "params.mode is required: 'off' or 'auto'"@,
        ),
    )
}

pub open spec fn err_mode_unknown(raw: Seq<char>) -> ErrorView {
    ErrorView::Localised(
        ErrorKind::InvalidParams,
        msg::message(
            "network.err.modeUnknown"@,
            seq![("mode"@, raw)],
            "'{mode}' is not a network mode"@,
        ),
    )
}

pub open spec fn err_no_interface() -> ErrorView {
    ErrorView::Localised(
        ErrorKind::NotCapable,
        msg::message(
            "network.err.noInterface"@,
            seq![],
            "no default-route network interface found"@,
        ),
    )
}

pub open spec fn err_queuing(failure: QdiscFailureView, interface: Seq<char>) -> ErrorView {
    match failure {
        QdiscFailureView::PermissionDenied => ErrorView::Localised(
            ErrorKind::PermissionDenied,
            msg::message(
                "network.err.needsRoot"@,
                seq![("interface"@, interface)],
                "changing the qdisc on {interface} needs root"@,
            ),
        ),
        QdiscFailureView::NotCapable(detail) => ErrorView::Localised(
            ErrorKind::NotCapable,
            msg::message(
                "network.err.qdiscRefused"@,
                seq![("detail"@, detail)],
                "this kernel refused smart queuing: {detail}"@,
            ),
        ),
    }
}

/// The mode that a request names.
pub open spec fn mode_requested(raw: Option<Seq<char>>) -> Result<NetworkMode, ErrorView> {
    match raw {
        None => Err(err_mode_required()),
        Some(raw) => match mode_named(raw) {
            Some(mode) => Ok(mode),
            None => Err(err_mode_unknown(raw)),
        },
    }
}

pub fn requested_mode(raw: Option<String>) -> (r: Result<NetworkMode, ModuleError>)
    ensures
        (match r {
            Ok(m) => Ok(m),
            Err(e) => Err(e@),
        }) == mode_requested(text::opt_view(raw)),
{
    match raw {
        None => Err(
            ModuleError::localised(
                ErrorKind::InvalidParams,
                Msg::plain(
                    "network.err.modeRequired",
                    "params.mode is required: 'off' or 'auto'",
                ),
            ),
        ),
        Some(raw) => match NetworkMode::parse(raw.as_str()) {
            Some(mode) => Ok(mode),
            None => Err(
                ModuleError::localised(
                    ErrorKind::InvalidParams,
                    Msg::new(
                        "network.err.modeUnknown",
                        msg::one(msg::param("mode", raw)),
                        "'{mode}' is not a network mode",
                    ),
                ),
            ),
        },
    }
}

#[derive(Debug, Clone, Copy, PartialEq, Eq, Structural)]
pub enum Call {
    GetStatus,
    SetMode(NetworkMode),
}

pub open spec fn call_of(method: Seq<char>, params: Json) -> Result<Call, ErrorView> {
    if method == "getStatus"@ {
        Ok(Call::GetStatus)
    } else if method == "setMode"@ {
        match mode_requested(params.text_member("mode"@)) {
            Ok(mode) => Ok(Call::SetMode(mode)),
            Err(e) => Err(e),
        }
    } else {
        Err(ErrorView::UnknownMethod(method))
    }
}

/// The interface whose queueing is changed.
pub fn target_interface(route_table: &str) -> (r: Result<String, ModuleError>)
    ensures
        match r {
            Ok(iface) => best_route(routes(route_table@)) matches Some((_, found)) && found
                == iface@,
            Err(e) => best_route(routes(route_table@)) is None && e@ == err_no_interface(),
        },
{
    match default_route_interface(route_table) {
        Some(iface) => Ok(iface),
        None => Err(
            ModuleError::localised(
                ErrorKind::NotCapable,
                Msg::plain(
                    "network.err.noInterface",
                    "no default-route network interface found",
                ),
            ),
        ),
    }
}

/// A failure to set a discipline, for the client.
pub fn queuing_error(failure: &QdiscFailure, interface: &str) -> (r: ModuleError)
    ensures
        r@ == err_queuing(failure@, interface@),
{
    match failure {
        QdiscFailure::PermissionDenied => ModuleError::localised(
            ErrorKind::PermissionDenied,
            Msg::new(
                "network.err.needsRoot",
                msg::one(msg::param("interface", String::from_str(interface))),
                "changing the qdisc on {interface} needs root",
            ),
        ),
        QdiscFailure::NotCapable(detail) => ModuleError::localised(
            ErrorKind::NotCapable,
            Msg::new(
                "network.err.qdiscRefused",
                msg::one(msg::param("detail", detail.clone())),
                "this kernel refused smart queuing: {detail}",
            ),
        ),
    }
}

/// What the module remembers: the last mode that was set.
pub struct NetworkModule {
    pub mode: NetworkMode,
}

impl Default for NetworkModule {
    fn default() -> (r: NetworkModule)
        ensures
            r.mode == NetworkMode::Off,
    {
        NetworkModule::new()
    }
}

/// What is shown of the link.
#[derive(Debug, Clone)]
pub struct Status {
    pub supported: bool,
    pub interface: Option<String>,
    pub mode: &'static str,
    pub active_qdisc: Option<String>,
}

impl NetworkModule {
    pub fn new() -> (r: NetworkModule)
        ensures
            r.mode == NetworkMode::Off,
    {
        NetworkModule { mode: NetworkMode::Off }
    }

    /// Reads a call.
    pub fn route(&self, method: &str, params: &serde_json::Value) -> (r: Result<
        Call,
        ModuleError,
    >)
        ensures
            (match r {
                Ok(c) => Ok(c),
                Err(e) => Err(e@),
            }) == call_of(method@, json::contents(*params)),
    {
        if text::same(method, "getStatus") {
            Ok(Call::GetStatus)
        } else if text::same(method, "setMode") {
            match requested_mode(json::text_of(params, "mode")) {
                Ok(mode) => Ok(Call::SetMode(mode)),
                Err(e) => Err(e),
            }
        } else {
            Err(ModuleError::UnknownMethod(String::from_str(method)))
        }
    }

    /// Takes how changing the link's queueing went. The mode moves only where
    /// the link did; handing the link back to the kernel cannot fail.
    pub fn set_mode(&mut self, mode: NetworkMode, interface: &str, attempts: &Vec<Attempt>) -> (r:
        Result<(), ModuleError>)
        ensures
            match r {
                Ok(()) => final(self).mode == mode && (mode == NetworkMode::Off || queuing(
                    attempts@,
                ) is Ok),
                Err(e) => final(self).mode == old(self).mode && mode == NetworkMode::Auto
                    && queuing(attempts@) is Err && e@ == err_queuing(
                    queuing(attempts@)->Err_0,
                    interface@,
                ),
            },
    {
        match mode {
            NetworkMode::Off => {},
            NetworkMode::Auto => match enable_smart_queuing(attempts) {
                Ok(_) => {},
                Err(failure) => {
                    return Err(queuing_error(&failure, interface));
                },
            },
        }
        self.mode = mode;
        Ok(())
    }

    /// What is shown: `shown` is what `tc qdisc show` printed for the
    /// interface, where it succeeded.
    pub fn status(&self, tc_present: bool, route_table: &str, shown: Option<String>) -> (r: Status)
        ensures
            text::opt_view(r.interface) == (match best_route(routes(route_table@)) {
                Some((_, iface)) => Some(iface),
                None => None,
            }),
            r.supported == (tc_present && r.interface is Some),
            r.mode@ == self.mode.name(),
            text::opt_view(r.active_qdisc) == (match (r.interface, shown) {
                (Some(_), Some(s)) => kind_shown(s@),
                _ => None,
            }),
    {
        let interface = default_route_interface(route_table);
        let active_qdisc = match (&interface, &shown) {
            (Some(_), Some(s)) => qdisc_kind(s.as_str()),
            _ => None,
        };
        let supported = tc_present && interface.is_some();
        Status { supported, interface, mode: self.mode.as_str(), active_qdisc }
    }
}

// --- laws ----------------------------------------------------------------

/// Reading back the name of a mode gives the mode.
pub proof fn law_mode_names_read_back(mode: NetworkMode)
    ensures
        mode_named(mode.name()) == Some(mode),
{
    reveal_strlit("off");
    reveal_strlit("auto");
    assert(text::ascii_lower("off"@) =~= "off"@);
    assert(text::ascii_lower("auto"@) =~= "auto"@);
    assert("off"@.len() != "auto"@.len());
}

/// The route that is chosen is a default route of the table, and no default
/// route of the table has a lower metric.
#[verifier::spinoff_prover]
#[verifier::rlimit(60)]
pub proof fn law_best_route_is_lowest(lines: Seq<Seq<char>>)
    ensures
        match best_route(lines) {
            Some(best) => (exists|i: int|
                0 <= i < lines.len() && #[trigger] default_route(lines[i]) == Some(best)) && (
            forall|i: int|
                0 <= i < lines.len() ==> match #[trigger] default_route(lines[i]) {
                    Some(route) => best.0 <= route.0,
                    None => true,
                }),
            None => forall|i: int|
                0 <= i < lines.len() ==> (#[trigger] default_route(lines[i])) is None,
        },
    decreases lines.len(),
{
    if lines.len() > 0 {
        let rest = lines.drop_last();
        let last = lines.len() - 1;
        law_best_route_is_lowest(rest);
        assert forall|i: int| 0 <= i < rest.len() implies rest[i] == lines[i] by {}
        assert(lines[last] == lines.last());
        match best_route(rest) {
            Some(b) => {
                let k = choose|k: int|
                    0 <= k < rest.len() && #[trigger] default_route(rest[k]) == Some(b);
                assert(default_route(lines[k]) == Some(b));
                assert forall|i: int| 0 <= i < lines.len() implies match #[trigger] default_route(
                    lines[i],
                ) {
                    Some(route) => (best_route(lines)->0).0 <= route.0,
                    None => true,
                } by {
                    if i < last {
                        assert(default_route(rest[i]) == default_route(lines[i]));
                    }
                }
                if best_route(lines) != Some(b) {
                    assert(default_route(lines[last]) == best_route(lines));
                }
            },
            None => {
                assert forall|i: int| 0 <= i < last implies (#[trigger] default_route(
                    lines[i],
                )) is None by {
                    assert(default_route(rest[i]) is None);
                }
                if default_route(lines[last]) is Some {
                    assert(default_route(lines[last]) == best_route(lines));
                }
            },
        }
    }
}

/// A mode is known by its name in any case of letters.
pub proof fn law_mode_names_in_any_case(value: Seq<char>)
    ensures
        mode_named(value) == Some(NetworkMode::Off) <==> text::ascii_lower(value) == "off"@,
        mode_named(value) == Some(NetworkMode::Auto) <==> text::ascii_lower(value) == "auto"@,
{
    reveal_strlit("off");
    reveal_strlit("auto");
    assert("off"@.len() == 3);
    assert("auto"@.len() == 4);
}

/// A default route is one to everywhere that is up and goes through a gateway,
/// the two lowest of its flags. Its metric is the seventh field, the highest
/// there is where that is no number, and its interface the first.
pub proof fn law_a_default_route_is_up_and_has_a_gateway(
    line: Seq<char>,
    flags: nat,
    metric: nat,
)
    requires
        text::words(line).len() >= 7,
        number::parse_unsigned(text::words(line)[3], 16, 0xffff_ffff) == Some(flags),
    ensures
        default_route(line) is Some <==> text::words(line)[1] == "00000000"@ && flags % 4 == 3,
        default_route(line) matches Some(route) ==> route.1 == text::words(line)[0],
        default_route(line) is Some && number::parse_unsigned(
            text::words(line)[6],
            10,
            0xffff_ffff,
        ) == Some(metric) ==> (default_route(line)->0).0 == metric,
        default_route(line) is Some && number::parse_unsigned(
            text::words(line)[6],
            10,
            0xffff_ffff,
        ) is None ==> (default_route(line)->0).0 == 0xffff_ffff,
{
    assert(flags % 4 == 3 <==> (flags % 2 == 1 && (flags / 2) % 2 == 1));
}

/// Of two routes that are as good the one listed first is used, and the heading
/// of the table is no route.
pub proof fn law_the_first_of_equal_routes_is_used(
    lines: Seq<Seq<char>>,
    line: Seq<char>,
    heading: Seq<char>,
    rest: Seq<char>,
)
    requires
        !heading.contains('\n'),
    ensures
        best_route(lines) is Some && default_route(line) is Some ==> (best_route(lines.push(line))
            == if (default_route(line)->0).0 < (best_route(lines)->0).0 {
            default_route(line)
        } else {
            best_route(lines)
        }),
        best_route(lines) is None ==> best_route(lines.push(line)) == default_route(line),
        default_route(line) is None ==> best_route(lines.push(line)) == best_route(lines),
        routes(heading + seq!['\n'] + rest) == text::lines(rest),
        routes(seq![]) == Seq::<Seq<char>>::empty(),
{
    assert(lines.push(line).drop_last() =~= lines);
    text::law_lines_end_at_newlines(heading, rest);
    let table = heading + seq!['\n'] + rest;
    assert(text::lines(table).skip(1) =~= text::lines(rest));
}

/// The queue in use is the word after `qdisc` on the first line.
#[verifier::spinoff_prover]
#[verifier::rlimit(60)]
pub proof fn law_the_queue_in_use_is_read(kind: Seq<char>, rest: Seq<char>)
    requires
        kind.len() > 0,
        forall|i: int| 0 <= i < kind.len() ==> !text::is_space(#[trigger] kind[i]),
        !rest.contains('\n'),
    ensures
        kind_shown("qdisc "@ + kind + " "@ + rest) == Some(kind),
        kind_shown(seq![]) is None,
{
    reveal_strlit("qdisc ");
    reveal_strlit("qdisc");
    reveal_strlit(" ");
    assert("qdisc "@ =~= "qdisc"@ + seq![' ']);
    assert(" "@ =~= seq![' ']);
    assert("qdisc"@.len() == 5);
    let sp = text::Class::Space;
    let line = "qdisc "@ + kind + " "@ + rest;
    let after = kind + seq![' '] + rest;
    assert(line =~= "qdisc"@ + seq![' '] + after);
    assert(!line.contains('\n')) by {
        if line.contains('\n') {
            let i = choose|i: int| 0 <= i < line.len() && line[i] == '\n';
            if i < 6 {
                assert(line[i] == "qdisc "@[i]);
            } else if i < 6 + kind.len() {
                assert(line[i] == kind[i - 6]);
            } else if i > 6 + kind.len() {
                assert(rest[i - 7 - kind.len()] == '\n');
            }
        }
    }
    text::law_lines_end_at_newlines(line, seq![]);
    assert(text::lines(line) == seq![line]);
    text::law_words_stand_between_separators("qdisc"@, ' ', after, "qdisc"@, sp);
    text::law_words_stand_between_separators(kind, ' ', rest, kind, sp);
    assert(text::words(line) == seq!["qdisc"@] + (seq![kind] + text::words(rest)));
    assert(text::words(line)[0] == "qdisc"@);
    assert(text::words(line)[1] == kind);
    text::law_lines_end_at_newlines(seq![], seq![]);
}

/// The better queue is tried first, and the first that took is the one in use.
/// Where none did it is a matter of rights exactly where each said so, and
/// otherwise what each said is told.
#[verifier::spinoff_prover]
#[verifier::rlimit(60)]
pub proof fn law_the_first_queue_that_took_is_used(attempts: Seq<Attempt>, a: Seq<char>, b: Seq<char>)
    ensures
        attempts.len() > 0 && attempts[0] is Took ==> queuing(attempts) == Ok::<
            Seq<char>,
            QdiscFailureView,
        >("cake"@),
        attempts.len() == 2 && !(attempts[0] is Took) && attempts[1] is Took ==> queuing(attempts)
            == Ok::<Seq<char>, QdiscFailureView>("fq_codel"@),
        attempts.len() == 2 && (attempts[0] matches Attempt::Refused(s) && text::trim(s@) == a) && (
        attempts[1] matches Attempt::Refused(s) && text::trim(s@) == b) ==> {
            let first = "cake"@ + ": "@ + a;
            let second = "fq_codel"@ + ": "@ + b;
            let denied = text::contains(first, "Operation not permitted"@) && text::contains(
                second,
                "Operation not permitted"@,
            );
            &&& denied ==> queuing(attempts) == Err::<Seq<char>, QdiscFailureView>(
                QdiscFailureView::PermissionDenied,
            )
            &&& !denied ==> queuing(attempts) == Err::<Seq<char>, QdiscFailureView>(
                QdiscFailureView::NotCapable(first + "; "@ + second),
            )
        },
        attempts.len() == 2 && (attempts[0] matches Attempt::NotRun(s) && s@ == a) && (attempts[1]
            matches Attempt::NotRun(s) && s@ == b) && !text::contains(
            "cake"@ + ": "@ + a,
            "Operation not permitted"@,
        ) ==> queuing(attempts) == Err::<Seq<char>, QdiscFailureView>(
            QdiscFailureView::NotCapable("cake"@ + ": "@ + a + "; "@ + ("fq_codel"@ + ": "@ + b)),
        ),
{
    reveal_with_fuel(first_taken, 4);
    let said = failures(attempts);
    if attempts.len() == 2 {
        assert(said =~= seq![failure_said(attempts, 0), failure_said(attempts, 1)]);
        text::law_joining_puts_the_separator_between(seq![said[0]], seq![said[1]], "; "@);
        text::law_joining_puts_the_separator_between(seq![said[1]], seq![said[1]], "; "@);
        assert(said =~= seq![said[0]] + seq![said[1]]);
        assert(all_eperm(said) <==> (text::contains(said[0], "Operation not permitted"@)
            && text::contains(said[1], "Operation not permitted"@))) by {
            if text::contains(said[0], "Operation not permitted"@) && text::contains(
                said[1],
                "Operation not permitted"@,
            ) {
                assert forall|i: int| 0 <= i < said.len() implies text::contains(
                    #[trigger] said[i],
                    "Operation not permitted"@,
                ) by {
                    assert(i == 0 || i == 1);
                }
            }
        }
    }
}

/// A mode must be named, by a name there is; the calls are known by theirs.
pub proof fn law_a_known_mode_must_be_named(
    raw: Seq<char>,
    params: Json,
    method: Seq<char>,
    m: NetworkMode,
)
    ensures
        mode_requested(None) == Err::<NetworkMode, ErrorView>(err_mode_required()),
        mode_named(raw) == Some(m) ==> mode_requested(Some(raw)) == Ok::<NetworkMode, ErrorView>(m),
        mode_named(raw) is None ==> mode_requested(Some(raw)) == Err::<NetworkMode, ErrorView>(
            err_mode_unknown(raw),
        ),
        call_of("getStatus"@, params) == Ok::<Call, ErrorView>(Call::GetStatus),
        params.member("mode"@) == Some(Json::Text(m.name())) ==> call_of("setMode"@, params)
            == Ok::<Call, ErrorView>(Call::SetMode(m)),
        params.member("mode"@) is None ==> call_of("setMode"@, params) == Err::<Call, ErrorView>(
            err_mode_required(),
        ),
        method != "getStatus"@ && method != "setMode"@ ==> call_of(method, params) == Err::<
            Call,
            ErrorView,
        >(ErrorView::UnknownMethod(method)),
{
    law_mode_names_read_back(m);
    reveal_strlit("getStatus");
    reveal_strlit("setMode");
    assert("getStatus"@.len() == 9);
    assert("setMode"@.len() == 7);
}

/// A queue that needs rights is answered as a refusal, one that the kernel does
/// not have as a lack of capability, with what was said.
pub proof fn law_a_queue_that_fails_is_explained(detail: Seq<char>, interface: Seq<char>)
    ensures
        err_queuing(QdiscFailureView::PermissionDenied, interface).kind()
            == ErrorKind::PermissionDenied,
        err_queuing(QdiscFailureView::NotCapable(detail), interface).kind()
            == ErrorKind::NotCapable,
        err_queuing(QdiscFailureView::PermissionDenied, interface) matches ErrorView::Localised(
            _,
            said,
        ) && said.key == "network.err.needsRoot"@ && said.params == seq![
            ("interface"@, interface),
        ],
        err_queuing(QdiscFailureView::NotCapable(detail), interface) matches ErrorView::Localised(
            _,
            said,
        ) && said.key == "network.err.qdiscRefused"@ && said.params == seq![("detail"@, detail)],
{
}

/// The better queue is tried first and the other after it, and none once one took
/// or both were tried.
pub proof fn law_queues_are_tried_in_order(attempts: &Vec<Attempt>, r: Option<&'static str>)
    requires
        call_ensures(next_qdisc, (attempts,), r),
    ensures
        attempts@.len() == 0 ==> (r matches Some(q) && q@ == "cake"@),
        attempts@.len() == 1 && !(attempts@[0] is Took) ==> (r matches Some(q) && q@ == "fq_codel"@),
        attempts@.len() == 1 && attempts@[0] is Took ==> r is None,
        attempts@.len() >= 2 ==> r is None,
{
}

/// Switching queuing off always works; switching it on does exactly where a queue
/// took, and otherwise the mode stays what it was.
pub proof fn law_the_mode_follows_the_queue(
    module: &mut NetworkModule,
    mode: NetworkMode,
    interface: &str,
    attempts: &Vec<Attempt>,
    r: Result<(), ModuleError>,
)
    requires
        call_ensures(NetworkModule::set_mode, (module, mode, interface, attempts), r),
    ensures
        mode == NetworkMode::Off ==> r is Ok,
        attempts@.len() > 0 && attempts@[0] is Took ==> r is Ok,
        attempts@.len() == 0 && mode == NetworkMode::Auto ==> r is Err,
        r is Ok ==> final(module).mode == mode,
        r is Err ==> final(module).mode == old(module).mode,
        r matches Err(e) ==> e@.kind() == ErrorKind::PermissionDenied || e@.kind()
            == ErrorKind::NotCapable,
{
    reveal_with_fuel(first_taken, 2);
}

/// Queuing can be had where the tool is there and a default route is; the queue in
/// use is shown of that route's interface alone.
pub proof fn law_the_status_is_of_the_default_route(
    module: &NetworkModule,
    tool: bool,
    table: &str,
    shown: Option<String>,
    r: Status,
)
    requires
        call_ensures(NetworkModule::status, (module, tool, table, shown), r),
    ensures
        r.supported <==> tool && best_route(routes(table@)) is Some,
        r.interface is Some <==> best_route(routes(table@)) is Some,
        best_route(routes(table@)) matches Some((_, name)) ==> text::opt_view(r.interface) == Some(
            name,
        ),
        r.interface is None || shown is None ==> r.active_qdisc is None,
        module.mode == NetworkMode::Off ==> r.mode@ == "off"@,
        module.mode == NetworkMode::Auto ==> r.mode@ == "auto"@,
{
}

/// Each message has a key of its own, names what it is about, and says so in these
/// words.
pub proof fn law_messages_have_keys_and_words(raw: Seq<char>)
    ensures
        err_mode_required() matches ErrorView::Localised(kind, m)
            && kind == ErrorKind::InvalidParams
            && m.key == "network.err.modeRequired"@
            && m.params.len() == 0
            && m.text == msg::fill("params.mode is required: 'off' or 'auto'"@, m.params),
        err_mode_unknown(raw) matches ErrorView::Localised(kind, m)
            && kind == ErrorKind::InvalidParams
            && m.key == "network.err.modeUnknown"@
            && m.params.len() == 1
            && m.params[0].0 == "mode"@
            && m.text == msg::fill("'{mode}' is not a network mode"@, m.params),
        err_no_interface() matches ErrorView::Localised(kind, m)
            && kind == ErrorKind::NotCapable
            && m.key == "network.err.noInterface"@
            && m.params.len() == 0
            && m.text == msg::fill("no default-route network interface found"@, m.params),
{
}

} // verus!
