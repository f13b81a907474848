//! Which keys are remapped, and what the settings page is told.
use std::collections::HashMap;

use vstd::prelude::*;
use vstd::string::*;

use crate::error::ErrorKind;
use crate::error::ErrorView;
use crate::error::ModuleError;
use crate::json;
use crate::keymap::raw;
use crate::keymap::raw::InputEvent;
use crate::msg;
use crate::msg::Msg;
use crate::msg::MsgView;
use crate::number;
use crate::text;

verus! {

/// One physical key, optionally scoped to a named device.
#[derive(Debug, Clone, PartialEq, Eq)]
pub struct KeySpec {
    pub device: Option<String>,
    pub keycode: u16,
}

#[verifier::ext_equal]
pub struct KeySpecView {
    pub device: Option<Seq<char>>,
    pub keycode: u16,
}

impl View for KeySpec {
    type V = KeySpecView;

    open spec fn view(&self) -> KeySpecView {
        KeySpecView { device: text::opt_view(self.device), keycode: self.keycode }
    }
}

impl Default for KeySpec {
    fn default() -> (r: KeySpec)
        ensures
            r@ == (KeySpecView { device: None, keycode: 0 }),
    {
        KeySpec { device: None, keycode: 0 }
    }
}

impl KeySpec {
    /// Whether two keys are the same in every respect.
    pub fn same_as(&self, other: &KeySpec) -> (r: bool)
        ensures
            r == (self@ == other@),
    {
        if self.keycode != other.keycode {
            return false;
        }
        match (&self.device, &other.device) {
            (None, None) => true,
            (Some(a), Some(b)) => text::same(a.as_str(), b.as_str()),
            _ => false,
        }
    }
}

#[derive(Debug, Clone)]
pub struct KeyMapping {
    pub from: KeySpec,
    pub to: u16,
}

#[verifier::ext_equal]
pub struct MappingView {
    pub from: KeySpecView,
    pub to: u16,
}

impl View for KeyMapping {
    type V = MappingView;

    open spec fn view(&self) -> MappingView {
        MappingView { from: self.from@, to: self.to }
    }
}

impl KeyMapping {
    pub fn copy(&self) -> (r: KeyMapping)
        ensures
            r@ == self@,
    {
        let device = match &self.from.device {
            Some(d) => Some(d.clone()),
            None => None,
        };
        KeyMapping { from: KeySpec { device, keycode: self.from.keycode }, to: self.to }
    }
}

pub open spec fn mapping_views(v: Seq<KeyMapping>) -> Seq<MappingView> {
    Seq::new(v.len(), |i: int| v[i]@)
}

#[derive(Debug, Clone)]
pub struct KeymapConfig {
    pub enabled: bool,
    pub mappings: Vec<KeyMapping>,
}

impl Default for KeymapConfig {
    fn default() -> (r: KeymapConfig)
        ensures
            !r.enabled,
            r.mappings@.len() == 0,
    {
        KeymapConfig { enabled: false, mappings: Vec::new() }
    }
}

/// Why the remapper is not running.
#[derive(Debug, Clone, PartialEq, Eq)]
pub enum Unavailable {
    NoDevices,
    NeedsRoot,
    NoUinput,
    Io(String),
}

#[verifier::ext_equal]
pub enum UnavailableView {
    NoDevices,
    NeedsRoot,
    NoUinput,
    Io(Seq<char>),
}

impl View for Unavailable {
    type V = UnavailableView;

    open spec fn view(&self) -> UnavailableView {
        match self {
            Unavailable::NoDevices => UnavailableView::NoDevices,
            Unavailable::NeedsRoot => UnavailableView::NeedsRoot,
            Unavailable::NoUinput => UnavailableView::NoUinput,
            Unavailable::Io(detail) => UnavailableView::Io(detail@),
        }
    }
}

impl UnavailableView {
    pub open spec fn said(self) -> MsgView {
        match self {
            UnavailableView::NoDevices => msg::message(
                "keymap.unavailable.noDevices"@,
                seq![],
                "no keyboard devices in /dev/input, so there is nothing to remap"@,
            ),
            UnavailableView::NeedsRoot => msg::message(
                "keymap.unavailable.needsRoot"@,
                seq![],
                "grabbing /dev/input needs root; the systemd unit runs the daemon as root"@,
            ),
            UnavailableView::NoUinput => msg::message(
                "keymap.unavailable.noUinput"@,
                seq![],
                "/dev/uinput is missing; load the 'uinput' kernel module"@,
            ),
            UnavailableView::Io(detail) => msg::literal(detail),
        }
    }
}

impl Unavailable {
    pub fn to_msg(&self) -> (r: Msg)
        ensures
            r@ == self@.said(),
    {
        match self {
            Unavailable::NoDevices => Msg::plain(
                "keymap.unavailable.noDevices",
                "no keyboard devices in /dev/input, so there is nothing to remap",
            ),
            Unavailable::NeedsRoot => Msg::plain(
                "keymap.unavailable.needsRoot",
                "grabbing /dev/input needs root; the systemd unit runs the daemon as root",
            ),
            Unavailable::NoUinput => Msg::plain(
                "keymap.unavailable.noUinput",
                "/dev/uinput is missing; load the 'uinput' kernel module",
            ),
            Unavailable::Io(detail) => Msg::literal(detail.clone()),
        }
    }
}

/// How an attempt to open or set up a device failed.
#[derive(Debug, Clone, Copy, PartialEq, Eq, Structural)]
pub enum Refusal {
    PermissionDenied,
    NotFound,
    Other,
}

/// What trying one input device came to.
#[derive(Debug, Clone, PartialEq, Eq)]
pub enum Attempt {
    /// It was opened and grabbed; this is its name.
    Grabbed(String),
    /// It was opened, and is not one that can be grabbed.
    GrabRefused,
    OpenRefused(Refusal),
}

/// The names of the devices that were grabbed, in the order they were tried.
pub open spec fn grabbed_names(attempts: Seq<Attempt>) -> Seq<Seq<char>>
    decreases attempts.len(),
{
    if attempts.len() == 0 {
        seq![]
    } else {
        match attempts.last() {
            Attempt::Grabbed(name) => grabbed_names(attempts.drop_last()).push(name@),
            _ => grabbed_names(attempts.drop_last()),
        }
    }
}

pub open spec fn was_denied(attempt: Attempt) -> bool {
    attempt == Attempt::OpenRefused(Refusal::PermissionDenied)
}

/// What trying every device came to: the names of those grabbed. Where there is
/// none, why; a device that may not be opened weighs more than one that is not
/// there.
pub fn grab_outcome(attempts: &Vec<Attempt>) -> (r: Result<Vec<String>, Unavailable>)
    ensures
        match r {
            Ok(names) => names@.len() > 0 && text::views(names@) == grabbed_names(attempts@),
            Err(u) => grabbed_names(attempts@).len() == 0 && u@ == (if exists|i: int|
                0 <= i < attempts@.len() && was_denied(#[trigger] attempts@[i]) {
                UnavailableView::NeedsRoot
            } else {
                UnavailableView::NoDevices
            }),
        },
{
    let mut names: Vec<String> = Vec::new();
    let mut saw_permission_denied = false;
    let mut i: usize = 0;
    proof {
        assert(text::views(names@) =~= grabbed_names(attempts@.take(0)));
    }
    while i < attempts.len()
        invariant
            i <= attempts@.len(),
            text::views(names@) == grabbed_names(attempts@.take(i as int)),
            saw_permission_denied == exists|j: int|
                0 <= j < i && was_denied(#[trigger] attempts@[j]),
        decreases attempts@.len() - i,
    {
        proof {
            assert(attempts@.take(i + 1).drop_last() =~= attempts@.take(i as int));
            assert(attempts@.take(i + 1).last() == attempts@[i as int]);
        }
        match &attempts[i] {
            Attempt::Grabbed(name) => {
                text::push_string(&mut names, name.clone());
            },
            Attempt::GrabRefused => {},
            Attempt::OpenRefused(refusal) => {
                if *refusal == Refusal::PermissionDenied {
                    saw_permission_denied = true;
                    assert(was_denied(attempts@[i as int]));
                }
            },
        }
        i = i + 1;
    }
    proof {
        assert(attempts@.take(i as int) =~= attempts@);
        assert(text::views(names@).len() == names@.len());
    }
    if names.len() > 0 {
        Ok(names)
    } else if saw_permission_denied {
        Err(Unavailable::NeedsRoot)
    } else {
        Err(Unavailable::NoDevices)
    }
}

/// Why the virtual keyboard could not be made.
pub fn uinput_failure(refusal: Refusal, detail: String) -> (r: Unavailable)
    ensures
        r@ == (match refusal {
            Refusal::NotFound => UnavailableView::NoUinput,
            Refusal::PermissionDenied => UnavailableView::NeedsRoot,
            Refusal::Other => UnavailableView::Io(detail@),
        }),
{
    match refusal {
        Refusal::NotFound => Unavailable::NoUinput,
        Refusal::PermissionDenied => Unavailable::NeedsRoot,
        Refusal::Other => Unavailable::Io(detail),
    }
}

// --- the table -----------------------------------------------------------

/// What each keycode is substituted by: the latest mapping of a key wins, and
/// the device it is scoped to is not asked about.
pub open spec fn substitutions(mappings: Seq<MappingView>) -> Map<u16, u16>
    decreases mappings.len(),
{
    if mappings.len() == 0 {
        Map::empty()
    } else {
        substitutions(mappings.drop_last()).insert(
            mappings.last().from.keycode,
            mappings.last().to,
        )
    }
}

pub fn table(mappings: &Vec<KeyMapping>) -> (r: HashMap<u16, u16>)
    ensures
        r@ == substitutions(mapping_views(mappings@)),
{
    broadcast use vstd::std_specs::hash::group_hash_axioms;

    let mut out: HashMap<u16, u16> = HashMap::new();
    let n: usize = mappings.len();
    let ghost all = mapping_views(mappings@);
    let mut i: usize = 0;
    proof {
        assert(all.take(0) =~= seq![]);
        assert(out@ =~= Map::<u16, u16>::empty());
    }
    while i < n
        invariant
            n == mappings@.len(),
            i <= n,
            all == mapping_views(mappings@),
            out@ == substitutions(all.take(i as int)),
        decreases n - i,
    {
        proof {
            assert(all.take(i + 1).drop_last() =~= all.take(i as int));
            assert(all.take(i + 1).last() == mappings@[i as int]@);
        }
        out.insert(mappings[i].from.keycode, mappings[i].to);
        i = i + 1;
    }
    proof {
        assert(all.take(n as int) =~= all);
    }
    out
}

/// The event that is forwarded: only the code of a key that is mapped changes.
pub open spec fn forwarded(e: InputEvent, table: Map<u16, u16>) -> InputEvent {
    if e.kind == raw::EV_KEY && table.dom().contains(e.code) {
        InputEvent { code: table[e.code], ..e }
    } else {
        e
    }
}

pub fn substitute(event: InputEvent, table: &HashMap<u16, u16>) -> (r: InputEvent)
    ensures
        r == forwarded(event, table@),
{
    broadcast use vstd::std_specs::hash::group_hash_axioms;

    if event.kind == raw::EV_KEY {
        match table.get(&event.code) {
            Some(to) => {
                return InputEvent {
                    seconds: event.seconds,
                    micros: event.micros,
                    kind: event.kind,
                    code: *to,
                    value: event.value,
                };
            },
            None => {},
        }
    }
    event
}

/// The events in a buffer as they are forwarded, in order.
pub open spec fn all_forwarded(s: Seq<u8>, table: Map<u16, u16>) -> Seq<InputEvent> {
    raw::events_in(s).map_values(|e: InputEvent| forwarded(e, table))
}

/// What is sent on for the bytes that one read gave.
pub fn forward(buffer: &Vec<u8>, table: &HashMap<u16, u16>) -> (r: Vec<InputEvent>)
    ensures
        r@ == all_forwarded(buffer@, table@),
{
    let events = raw::read_events(buffer);
    let n: usize = events.len();
    let mut out: Vec<InputEvent> = Vec::new();
    let mut i: usize = 0;
    while i < n
        invariant
            n == events@.len(),
            i <= n,
            events@ == raw::events_in(buffer@),
            out@.len() == i,
            forall|k: int| 0 <= k < i ==> #[trigger] out@[k] == forwarded(events@[k], table@),
        decreases n - i,
    {
        out.push(substitute(events[i], table));
        i = i + 1;
    }
    proof {
        assert(out@ =~= all_forwarded(buffer@, table@));
    }
    out
}

// --- the module ----------------------------------------------------------

/// What the module knows: its settings, and how the remapper fares.
pub struct KeymapModule {
    pub config: KeymapConfig,
    pub running: bool,
    pub unavailable: Option<Unavailable>,
    pub devices: Vec<String>,
    pub last_save_error: Option<String>,
}

/// The mappings whose key is another one.
pub open spec fn without_key(mappings: Seq<MappingView>, key: KeySpecView) -> Seq<MappingView>
    decreases mappings.len(),
{
    if mappings.len() == 0 {
        seq![]
    } else if mappings.last().from == key {
        without_key(mappings.drop_last(), key)
    } else {
        without_key(mappings.drop_last(), key).push(mappings.last())
    }
}

/// What the settings page says: why nothing runs, or what does.
pub open spec fn detail_of(
    unavailable: Option<UnavailableView>,
    enabled: bool,
    mappings: nat,
) -> MsgView {
    match unavailable {
        Some(reason) => reason.said(),
        None => if !enabled {
            msg::message(
                "keymap.detail.disabled"@,
                seq![],
                "no key is being remapped; turn this on once a mapping is set"@,
            )
        } else if mappings == 0 {
            msg::message(
                "keymap.detail.noMappings"@,
                seq![],
                "enabled, with nothing mapped yet"@,
            )
        } else {
            msg::message(
                "keymap.detail.running"@,
                seq![("count"@, number::decimal(mappings))],
                "remapping {count} keys"@,
            )
        },
    }
}

pub open spec fn opt_unavailable(u: Option<Unavailable>) -> Option<UnavailableView> {
    match u {
        Some(u) => Some(u@),
        None => None,
    }
}

/// The mappings that are kept when one key's is taken out.
fn keep_others(mappings: &Vec<KeyMapping>, key: &KeySpec) -> (r: Vec<KeyMapping>)
    ensures
        mapping_views(r@) == without_key(mapping_views(mappings@), key@),
{
    let n: usize = mappings.len();
    let ghost all = mapping_views(mappings@);
    let mut out: Vec<KeyMapping> = Vec::new();
    let mut i: usize = 0;
    proof {
        assert(all.take(0) =~= seq![]);
        assert(mapping_views(out@) =~= seq![]);
    }
    while i < n
        invariant
            n == mappings@.len(),
            i <= n,
            all == mapping_views(mappings@),
            mapping_views(out@) == without_key(all.take(i as int), key@),
        decreases n - i,
    {
        let ghost before = out@;
        proof {
            assert(all.take(i + 1).drop_last() =~= all.take(i as int));
            assert(all.take(i + 1).last() == mappings@[i as int]@);
        }
        if !mappings[i].from.same_as(key) {
            out.push(mappings[i].copy());
            proof {
                assert(mapping_views(out@) =~= mapping_views(before).push(mappings@[i as int]@));
            }
        }
        i = i + 1;
    }
    proof {
        assert(all.take(n as int) =~= all);
    }
    out
}

impl Default for KeymapModule {
    fn default() -> (r: KeymapModule)
        ensures
            !r.config.enabled,
            r.config.mappings@.len() == 0,
            !r.running,
            r.unavailable is None,
            r.devices@.len() == 0,
            r.last_save_error is None,
    {
        KeymapModule::new()
    }
}

impl KeymapModule {
    /// The module where nothing was ever saved: disabled, and empty.
    pub fn new() -> (r: KeymapModule)
        ensures
            !r.config.enabled,
            r.config.mappings@.len() == 0,
            !r.running,
            r.unavailable is None,
            r.devices@.len() == 0,
            r.last_save_error is None,
    {
        KeymapModule::with_store(KeymapConfig::default())
    }

    /// The module with the configuration that was saved.
    pub fn with_store(config: KeymapConfig) -> (r: KeymapModule)
        ensures
            r.config == config,
            !r.running,
            r.unavailable is None,
            r.devices@.len() == 0,
            r.last_save_error is None,
    {
        KeymapModule {
            config,
            running: false,
            unavailable: None,
            devices: Vec::new(),
            last_save_error: None,
        }
    }

    pub fn detail(&self) -> (r: Msg)
        ensures
            r@ == detail_of(
                opt_unavailable(self.unavailable),
                self.config.enabled,
                self.config.mappings@.len(),
            ),
    {
        match &self.unavailable {
            Some(reason) => {
                return reason.to_msg();
            },
            None => {},
        }
        if !self.config.enabled {
            return Msg::plain(
                "keymap.detail.disabled",
                "no key is being remapped; turn this on once a mapping is set",
            );
        }
        let count: usize = self.config.mappings.len();
        if count == 0 {
            return Msg::plain("keymap.detail.noMappings", "enabled, with nothing mapped yet");
        }
        Msg::new(
            "keymap.detail.running",
            msg::one(msg::param("count", number::show(count as u64))),
            "remapping {count} keys",
        )
    }

    /// Maps a key, in the place of whatever it was mapped to.
    pub fn set_mapping(&mut self, mapping: KeyMapping)
        ensures
            mapping_views(final(self).config.mappings@) == without_key(
                mapping_views(old(self).config.mappings@),
                mapping.from@,
            ).push(mapping@),
            final(self).config.enabled == old(self).config.enabled,
            final(self).running == old(self).running,
            final(self).unavailable == old(self).unavailable,
            final(self).devices == old(self).devices,
            final(self).last_save_error == old(self).last_save_error,
    {
        let mut kept = keep_others(&self.config.mappings, &mapping.from);
        let ghost before = kept@;
        let ghost pushed = mapping@;
        kept.push(mapping);
        proof {
            assert(mapping_views(kept@) =~= mapping_views(before).push(pushed));
        }
        self.config.mappings = kept;
    }

    /// Takes a key's mapping away.
    pub fn remove_mapping(&mut self, key: &KeySpec)
        ensures
            mapping_views(final(self).config.mappings@) == without_key(
                mapping_views(old(self).config.mappings@),
                key@,
            ),
            final(self).config.enabled == old(self).config.enabled,
            final(self).running == old(self).running,
            final(self).unavailable == old(self).unavailable,
            final(self).devices == old(self).devices,
            final(self).last_save_error == old(self).last_save_error,
    {
        let kept = keep_others(&self.config.mappings, key);
        self.config.mappings = kept;
    }

    /// Whether a remapper has to be started for the configuration to hold.
    pub fn must_start(&self) -> (r: bool)
        ensures
            r == (self.config.enabled && !self.running),
    {
        self.config.enabled && !self.running
    }

    /// Turns the remapper on or off. The result says whether a remapper has to
    /// be started: only where it is turned on and none runs.
    pub fn set_enabled(&mut self, enabled: bool) -> (start: bool)
        ensures
            final(self).config.enabled == enabled,
            final(self).config.mappings == old(self).config.mappings,
            start == (enabled && !old(self).running),
            final(self).running == old(self).running,
            final(self).unavailable == old(self).unavailable,
            final(self).devices == old(self).devices,
            final(self).last_save_error == old(self).last_save_error,
    {
        self.config.enabled = enabled;
        self.must_start()
    }

    /// Records whether the configuration could be saved.
    pub fn saved(&mut self, result: Result<(), String>)
        ensures
            text::opt_view(final(self).last_save_error) == (match result {
                Ok(()) => None,
                Err(e) => Some(e@),
            }),
            final(self).config == old(self).config,
            final(self).running == old(self).running,
            final(self).unavailable == old(self).unavailable,
            final(self).devices == old(self).devices,
    {
        match result {
            Ok(()) => {
                self.last_save_error = None;
            },
            Err(e) => {
                self.last_save_error = Some(e);
            },
        }
    }

    /// The remapper could not start.
    pub fn could_not_start(&mut self, reason: Unavailable)
        ensures
            final(self).unavailable == Some(reason),
            final(self).config == old(self).config,
            final(self).running == old(self).running,
            final(self).devices == old(self).devices,
            final(self).last_save_error == old(self).last_save_error,
    {
        self.unavailable = Some(reason);
    }

    /// The remapper runs, on these devices.
    pub fn started(&mut self, devices: Vec<String>)
        ensures
            final(self).running,
            final(self).unavailable is None,
            final(self).devices == devices,
            final(self).config == old(self).config,
            final(self).last_save_error == old(self).last_save_error,
    {
        self.running = true;
        self.unavailable = None;
        self.devices = devices;
    }

    /// The remapper has stopped and let go of every device.
    pub fn stopped(&mut self)
        ensures
            !final(self).running,
            final(self).devices@.len() == 0,
            final(self).config == old(self).config,
            final(self).unavailable == old(self).unavailable,
            final(self).last_save_error == old(self).last_save_error,
    {
        self.running = false;
        self.devices = Vec::new();
    }
}

// --- the requests --------------------------------------------------------

#[derive(Debug, Clone, Copy, PartialEq, Eq, Structural)]
pub enum Call {
    GetStatus,
    SetMapping,
    RemoveMapping,
    SetEnabled(bool),
}

pub open spec fn err_enabled_required() -> ErrorView {
    ErrorView::Localised(
        ErrorKind::InvalidParams,
        msg::message(
            "keymap.err.enabledRequired"@,
            seq![],
            "params.enabled is required: true or false"@,
        ),
    )
}

/// Which call a method is; `enabled` is the parameter of that name.
pub open spec fn call_of(method: Seq<char>, enabled: Option<bool>) -> Result<Call, ErrorView> {
    if method == "getStatus"@ {
        Ok(Call::GetStatus)
    } else if method == "setMapping"@ {
        Ok(Call::SetMapping)
    } else if method == "removeMapping"@ {
        Ok(Call::RemoveMapping)
    } else if method == "setEnabled"@ {
        match enabled {
            Some(b) => Ok(Call::SetEnabled(b)),
            None => Err(err_enabled_required()),
        }
    } else {
        Err(ErrorView::UnknownMethod(method))
    }
}

/// Which call a method is, given the parameter that says whether to enable.
pub fn call_named(method: &str, enabled: Option<bool>) -> (r: Result<Call, ModuleError>)
    ensures
        (match r {
            Ok(c) => Ok(c),
            Err(e) => Err(e@),
        }) == call_of(method@, enabled),
{
    if text::same(method, "getStatus") {
        Ok(Call::GetStatus)
    } else if text::same(method, "setMapping") {
        Ok(Call::SetMapping)
    } else if text::same(method, "removeMapping") {
        Ok(Call::RemoveMapping)
    } else if text::same(method, "setEnabled") {
        match enabled {
            Some(b) => Ok(Call::SetEnabled(b)),
            None => Err(
                ModuleError::localised(
                    ErrorKind::InvalidParams,
                    Msg::plain(
                        "keymap.err.enabledRequired",
                        "params.enabled is required: true or false",
                    ),
                ),
            ),
        }
    } else {
        Err(ModuleError::UnknownMethod(String::from_str(method)))
    }
}

/// Reads a call.
pub fn route(method: &str, params: &serde_json::Value) -> (r: Result<Call, ModuleError>)
    ensures
        (match r {
            Ok(c) => Ok(c),
            Err(e) => Err(e@),
        }) == call_of(method@, json::contents(*params).bool_member("enabled"@)),
{
    call_named(method, json::bool_of(params, "enabled"))
}

/// The refusal of a mapping that could not be read.
pub fn invalid_mapping(detail: String) -> (r: ModuleError)
    ensures
        r@ == ErrorView::Localised(
            ErrorKind::InvalidParams,
            msg::message(
                "keymap.err.invalidMapping"@,
                seq![("detail"@, detail@)],
                "invalid mapping: {detail}"@,
            ),
        ),
{
    ModuleError::localised(
        ErrorKind::InvalidParams,
        Msg::new(
            "keymap.err.invalidMapping",
            msg::one(msg::param("detail", detail)),
            "invalid mapping: {detail}",
        ),
    )
}

/// The refusal of a key that could not be read.
pub fn invalid_spec(detail: String) -> (r: ModuleError)
    ensures
        r@ == ErrorView::Localised(
            ErrorKind::InvalidParams,
            msg::message(
                "keymap.err.invalidSpec"@,
                seq![("detail"@, detail@)],
                "invalid key: {detail}"@,
            ),
        ),
{
    ModuleError::localised(
        ErrorKind::InvalidParams,
        Msg::new(
            "keymap.err.invalidSpec",
            msg::one(msg::param("detail", detail)),
            "invalid key: {detail}",
        ),
    )
}

// --- laws ----------------------------------------------------------------

proof fn lemma_without_key(mappings: Seq<MappingView>, key: KeySpecView)
    ensures
        forall|i: int|
            0 <= i < without_key(mappings, key).len() ==> (#[trigger] without_key(
                mappings,
                key,
            )[i]).from != key && mappings.contains(without_key(mappings, key)[i]),
        forall|m: MappingView| #[trigger]
            mappings.contains(m) && m.from != key ==> without_key(mappings, key).contains(m),
    decreases mappings.len(),
{
    if mappings.len() > 0 {
        let rest = mappings.drop_last();
        lemma_without_key(rest, key);
        let kept = without_key(mappings, key);
        let before = without_key(rest, key);
        assert forall|i: int| 0 <= i < kept.len() implies (#[trigger] kept[i]).from != key
            && mappings.contains(kept[i]) by {
            if i < before.len() {
                assert(kept[i] == before[i]);
                assert(rest.contains(before[i]));
                let j = choose|j: int| 0 <= j < rest.len() && rest[j] == before[i];
                assert(mappings[j] == kept[i]);
            } else {
                assert(mappings[mappings.len() - 1] == kept[i]);
            }
        }
        assert forall|m: MappingView| #[trigger]
            mappings.contains(m) && m.from != key implies kept.contains(m) by {
            let j = choose|j: int| 0 <= j < mappings.len() && mappings[j] == m;
            if j < rest.len() {
                assert(rest[j] == m);
                assert(rest.contains(m));
                let k = choose|k: int| 0 <= k < before.len() && before[k] == m;
                assert(kept[k] == m);
            } else {
                assert(kept[before.len() as int] == m);
            }
        }
    }
}

/// Removing a key leaves no mapping of it and every mapping of another key.
pub proof fn law_removal_drops_only_that_key(mappings: Seq<MappingView>, key: KeySpecView)
    ensures
        forall|m: MappingView| #[trigger]
            without_key(mappings, key).contains(m) <==> (mappings.contains(m) && m.from != key),
{
    lemma_without_key(mappings, key);
    assert forall|m: MappingView| #[trigger]
        without_key(mappings, key).contains(m) implies mappings.contains(m) && m.from != key by {
        let kept = without_key(mappings, key);
        let i = choose|i: int| 0 <= i < kept.len() && kept[i] == m;
        assert(kept[i].from != key);
    }
}

/// After a mapping is set it is the only one of its key, and every other key's
/// stays; and its keycode is substituted by what it maps to.
pub proof fn law_mapping_replaces(mappings: Seq<MappingView>, m: MappingView)
    ensures
        ({
            let after = without_key(mappings, m.from).push(m);
            &&& forall|o: MappingView| #[trigger]
                after.contains(o) <==> (o == m || (mappings.contains(o) && o.from != m.from))
            &&& substitutions(after).dom().contains(m.from.keycode)
            &&& substitutions(after)[m.from.keycode] == m.to
        }),
{
    law_removal_drops_only_that_key(mappings, m.from);
    let kept = without_key(mappings, m.from);
    let after = kept.push(m);
    assert(after.drop_last() =~= kept);
    assert forall|o: MappingView| #[trigger] after.contains(o) <==> (o == m || (mappings.contains(
        o,
    ) && o.from != m.from)) by {
        if after.contains(o) {
            let i = choose|i: int| 0 <= i < after.len() && after[i] == o;
            if i < kept.len() {
                assert(kept[i] == o);
                assert(kept.contains(o));
            }
        }
        if o == m {
            assert(after[kept.len() as int] == o);
        }
        if kept.contains(o) {
            let i = choose|i: int| 0 <= i < kept.len() && kept[i] == o;
            assert(after[i] == o);
        }
        if mappings.contains(o) && o.from != m.from {
            assert(kept.contains(o));
        }
    }
}

/// An event that is no key press, and a key that nothing maps, are forwarded
/// as they are.
pub proof fn law_unmapped_events_pass(e: InputEvent, table: Map<u16, u16>)
    requires
        e.kind != raw::EV_KEY || !table.dom().contains(e.code),
    ensures
        forwarded(e, table) == e,
{
}

/// Every event of a key that is mapped comes out as the key it is mapped to,
/// whether it is pressed, held or let go, and is otherwise the same event.
pub proof fn law_mapped_keys_are_substituted(e: InputEvent, table: Map<u16, u16>)
    requires
        e.kind == 1,
        table.dom().contains(e.code),
    ensures
        forwarded(e, table).code == table[e.code],
        forwarded(e, table).value == e.value,
        forwarded(e, table).kind == e.kind,
        forwarded(e, table).seconds == e.seconds,
        forwarded(e, table).micros == e.micros,
{
}

/// What comes out of a key does not depend on whether it goes down, is held or
/// comes up: a key that is pressed as another is let go as that other.
pub proof fn law_a_key_comes_up_as_it_went_down(
    press: InputEvent,
    release: InputEvent,
    table: Map<u16, u16>,
)
    requires
        press.kind == release.kind,
        press.code == release.code,
    ensures
        forwarded(press, table).code == forwarded(release, table).code,
        forwarded(press, table).kind == forwarded(release, table).kind,
{
}

/// Each event that was read is sent on, in its order, and nothing else is.
pub proof fn law_every_event_is_sent_on(bytes: Seq<u8>, table: Map<u16, u16>, i: int)
    requires
        0 <= i < raw::events_in(bytes).len(),
    ensures
        all_forwarded(bytes, table).len() == raw::events_in(bytes).len(),
        all_forwarded(bytes, table)[i] == forwarded(raw::events_in(bytes)[i], table),
{
}

/// A keycode is substituted exactly where some mapping is of it, and then by
/// what the last such mapping maps to, whichever device it names.
pub proof fn law_the_last_mapping_of_a_key_counts(mappings: Seq<MappingView>, i: int)
    requires
        0 <= i < mappings.len(),
        forall|j: int|
            i < j < mappings.len() ==> (#[trigger] mappings[j]).from.keycode
                != mappings[i].from.keycode,
    ensures
        substitutions(mappings).dom().contains(mappings[i].from.keycode),
        substitutions(mappings)[mappings[i].from.keycode] == mappings[i].to,
    decreases mappings.len(),
{
    let rest = mappings.drop_last();
    if i < mappings.len() - 1 {
        assert(forall|k: int| 0 <= k < rest.len() ==> rest[k] == #[trigger] mappings[k]);
        assert(mappings[mappings.len() - 1].from.keycode != mappings[i].from.keycode);
        law_the_last_mapping_of_a_key_counts(rest, i);
    }
}

/// A keycode that no mapping is of is not substituted.
pub proof fn law_unmapped_keys_are_left_alone(mappings: Seq<MappingView>, code: u16)
    requires
        forall|j: int|
            0 <= j < mappings.len() ==> (#[trigger] mappings[j]).from.keycode != code,
    ensures
        !substitutions(mappings).dom().contains(code),
    decreases mappings.len(),
{
    if mappings.len() > 0 {
        let rest = mappings.drop_last();
        assert(forall|k: int| 0 <= k < rest.len() ==> rest[k] == #[trigger] mappings[k]);
        assert(mappings[mappings.len() - 1].from.keycode != code);
        law_unmapped_keys_are_left_alone(rest, code);
    }
}

/// The devices that are named as grabbed are those that were, in the order they
/// were tried.
pub proof fn law_grabbed_devices_are_named(attempts: Seq<Attempt>, last: Attempt)
    ensures
        last matches Attempt::Grabbed(name) ==> grabbed_names(attempts.push(last))
            == grabbed_names(attempts).push(name@),
        last !is Grabbed ==> grabbed_names(attempts.push(last)) == grabbed_names(attempts),
        grabbed_names(attempts).len() == 0 ==> forall|i: int|
            0 <= i < attempts.len() ==> (#[trigger] attempts[i]) !is Grabbed,
    decreases attempts.len(),
{
    assert(attempts.push(last).drop_last() =~= attempts);
    if attempts.len() > 0 && grabbed_names(attempts).len() == 0 {
        let rest = attempts.drop_last();
        law_grabbed_devices_are_named(rest, attempts.last());
        assert forall|i: int| 0 <= i < attempts.len() implies (#[trigger] attempts[i]) !is
            Grabbed by {
            if i < rest.len() {
                assert(rest[i] == attempts[i]);
            }
        }
    }
}

/// What the settings page says: a reason for not running before anything else,
/// then that it is off, then that nothing is mapped, and then how many keys are.
pub proof fn law_the_page_gives_the_first_reason(
    unavailable: Option<UnavailableView>,
    enabled: bool,
    mappings: nat,
)
    ensures
        unavailable matches Some(u) ==> detail_of(unavailable, enabled, mappings) == u.said(),
        unavailable is None && !enabled ==> detail_of(unavailable, enabled, mappings).key
            == "keymap.detail.disabled"@,
        unavailable is None && enabled && mappings == 0 ==> detail_of(
            unavailable,
            enabled,
            mappings,
        ).key == "keymap.detail.noMappings"@,
        unavailable is None && enabled && mappings > 0 ==> detail_of(
            unavailable,
            enabled,
            mappings,
        ).key == "keymap.detail.running"@ && detail_of(unavailable, enabled, mappings).params
            == seq![("count"@, number::decimal(mappings))],
{
}

/// The calls are known by their names, and any other is refused by its own.
pub proof fn law_calls_are_known_by_name(method: Seq<char>, enabled: Option<bool>, on: bool)
    ensures
        call_of("getStatus"@, enabled) == Ok::<Call, ErrorView>(Call::GetStatus),
        call_of("setMapping"@, enabled) == Ok::<Call, ErrorView>(Call::SetMapping),
        call_of("removeMapping"@, enabled) == Ok::<Call, ErrorView>(Call::RemoveMapping),
        call_of("setEnabled"@, Some(on)) == Ok::<Call, ErrorView>(Call::SetEnabled(on)),
        call_of("setEnabled"@, None) == Err::<Call, ErrorView>(err_enabled_required()),
        method != "getStatus"@ && method != "setMapping"@ && method != "removeMapping"@ && method
            != "setEnabled"@ ==> call_of(method, enabled) == Err::<Call, ErrorView>(
            ErrorView::UnknownMethod(method),
        ),
{
    reveal_strlit("getStatus");
    reveal_strlit("setMapping");
    reveal_strlit("removeMapping");
    reveal_strlit("setEnabled");
    assert("getStatus"@.len() == 9 && "getStatus"@[0] == 'g');
    assert("setMapping"@.len() == 10 && "setMapping"@[0] == 's');
    assert("removeMapping"@.len() == 13 && "removeMapping"@[0] == 'r');
    assert("setEnabled"@.len() == 10 && "setEnabled"@[0] == 's');
    assert("setMapping"@[3] == 'M' && "setEnabled"@[3] == 'E');
}

/// Nothing was grabbed for want of rights exactly where a device was there and
/// could not be opened for want of them; otherwise there was no device.
pub proof fn law_why_nothing_was_grabbed(
    attempts: &Vec<Attempt>,
    r: Result<Vec<String>, Unavailable>,
    i: int,
)
    requires
        call_ensures(grab_outcome, (attempts,), r),
        forall|j: int| 0 <= j < attempts@.len() ==> !(#[trigger] attempts@[j] is Grabbed),
        0 <= i < attempts@.len(),
    ensures
        r is Err,
        attempts@[i] == Attempt::OpenRefused(Refusal::PermissionDenied) ==> r->Err_0
            is NeedsRoot,
{
    lemma_none_grabbed(attempts@);
    assert(was_denied(attempts@[i]) <==> attempts@[i] == Attempt::OpenRefused(
        Refusal::PermissionDenied,
    ));
}

proof fn lemma_none_grabbed(attempts: Seq<Attempt>)
    requires
        forall|j: int| 0 <= j < attempts.len() ==> !(#[trigger] attempts[j] is Grabbed),
    ensures
        grabbed_names(attempts).len() == 0,
    decreases attempts.len(),
{
    if attempts.len() > 0 {
        assert(!(attempts[attempts.len() - 1] is Grabbed));
        assert forall|j: int| 0 <= j < attempts.drop_last().len() implies !(
        #[trigger] attempts.drop_last()[j] is Grabbed) by {
            assert(attempts.drop_last()[j] == attempts[j]);
        }
        lemma_none_grabbed(attempts.drop_last());
    }
}

/// Remapping starts where it is to be on and is not running.
pub proof fn law_remapping_starts_once(module: &KeymapModule, r: bool)
    requires
        call_ensures(KeymapModule::must_start, (module,), r),
    ensures
        module.running ==> !r,
        !module.config.enabled ==> !r,
        module.config.enabled && !module.running ==> r,
{
}

/// Switching remapping on or off keeps the mappings, and says to start it exactly
/// where it goes on and is not running.
pub proof fn law_switching_keeps_the_mappings(module: &mut KeymapModule, on: bool, start: bool)
    requires
        call_ensures(KeymapModule::set_enabled, (module, on), start),
    ensures
        start <==> on && !old(module).running,
        final(module).config.enabled == on,
        final(module).config.mappings == old(module).config.mappings,
        final(module).running == old(module).running,
{
}

/// A start that worked is running with the devices it has, and one that did not
/// keeps its reason; once stopped there are no devices.
pub proof fn law_starting_and_stopping(
    module: &mut KeymapModule,
    devices: Vec<String>,
    reason: Unavailable,
)
    ensures
        call_ensures(KeymapModule::started, (module, devices), ()) ==> final(module).running
            && final(module).unavailable is None && final(module).devices == devices && final(module).config == old(module).config,
        call_ensures(KeymapModule::could_not_start, (module, reason), ()) ==> final(module).unavailable == Some(reason) && final(module).running == old(module).running && final(module).config == old(module).config,
        call_ensures(KeymapModule::stopped, (module,), ()) ==> !final(module).running && final(module).devices@.len() == 0 && final(module).config == old(module).config,
{
}

/// A virtual keyboard that cannot be made is explained: it is not there, it takes
/// more rights, or what was said is told.
pub proof fn law_why_there_is_no_virtual_keyboard(refusal: Refusal, detail: String, r: Unavailable)
    requires
        call_ensures(uinput_failure, (refusal, detail), r),
    ensures
        refusal == Refusal::NotFound <==> r is NoUinput,
        refusal == Refusal::PermissionDenied <==> r is NeedsRoot,
        refusal == Refusal::Other ==> (r matches Unavailable::Io(said) && said@ == detail@),
{
}

/// A failed save is told until one succeeds, and changes nothing else.
pub proof fn law_a_failed_save_is_told(module: &mut KeymapModule, result: Result<(), String>)
    requires
        call_ensures(KeymapModule::saved, (module, result), ()),
    ensures
        result is Ok ==> final(module).last_save_error is None,
        result matches Err(e) ==> text::opt_view(final(module).last_save_error) == Some(e@),
        final(module).config == old(module).config,
        final(module).running == old(module).running,
{
}

/// Each reason that remapping is not there is said under its own key.
pub proof fn law_each_reason_has_its_own_message(detail: Seq<char>)
    ensures
        UnavailableView::NoDevices.said().key == "keymap.unavailable.noDevices"@,
        UnavailableView::NeedsRoot.said().key == "keymap.unavailable.needsRoot"@,
        UnavailableView::NoUinput.said().key == "keymap.unavailable.noUinput"@,
        UnavailableView::Io(detail).said().text == detail,
{
}

/// Each message has a key of its own, names what it is about, and says so in these
/// words.
pub proof fn law_messages_have_keys_and_words()
    ensures
        err_enabled_required() matches ErrorView::Localised(kind, m)
            && kind == ErrorKind::InvalidParams
            && m.key == "keymap.err.enabledRequired"@
            && m.params.len() == 0
            && m.text == msg::fill("params.enabled is required: true or false"@, m.params),
{
}

} // verus!
