//! The power envelope: how much the CPU package may draw, and whether it may
//! turbo. Limits are in microwatts.
//!
//! The kernel shows the package as a zone of numbered constraints, each with a
//! name: `long_term` is the sustained limit (PL1), `short_term` the boost limit
//! (PL2) and `peak_power` the instantaneous one (PL4).
use vstd::prelude::*;
use vstd::string::*;

use crate::keymap::raw;
use crate::number;
use crate::power::mode::PowerMode;
use crate::text;

verus! {

/// No cap is lower than this, whatever a percentage works out to.
pub const FLOOR_UW: u64 = 5_000_000;

/// No laptop package limit is anywhere near this.
pub const MAX_SANE_UW: u64 = 500_000_000;

/// How far a limit read back may be from the one written and still count as
/// taken: the hardware stores limits in coarse units.
pub const READ_BACK_TOLERANCE_UW: u64 = 1_000_000;

// --- limits --------------------------------------------------------------

/// Package power limits; nothing for a constraint the machine does not have.
#[derive(Debug, Clone, Copy, PartialEq, Eq, Structural)]
pub struct Limits {
    pub pl1_uw: Option<u64>,
    pub pl2_uw: Option<u64>,
    pub pl4_uw: Option<u64>,
}

pub open spec fn no_limits() -> Limits {
    Limits { pl1_uw: None, pl2_uw: None, pl4_uw: None }
}

impl Default for Limits {
    fn default() -> (r: Limits)
        ensures
            r == no_limits(),
    {
        Limits { pl1_uw: None, pl2_uw: None, pl4_uw: None }
    }
}

pub open spec fn least(a: u64, b: u64) -> u64 {
    if a <= b {
        a
    } else {
        b
    }
}

/// A limit held between the floor and the stock value; nothing where the stock
/// value is not known.
pub open spec fn clamped(value: Option<u64>, stock: Option<u64>) -> Option<u64> {
    match (value, stock) {
        (Some(v), Some(s)) => Some(
            if v < least(FLOOR_UW, s) {
                least(FLOOR_UW, s)
            } else {
                least(v, s)
            },
        ),
        _ => None,
    }
}

/// A limit no higher than another, where that one is known.
pub open spec fn held_under(value: Option<u64>, ceiling: Option<u64>) -> Option<u64> {
    match (value, ceiling) {
        (Some(v), Some(c)) => Some(least(v, c)),
        _ => value,
    }
}

pub open spec fn first_known(a: Option<u64>, b: Option<u64>) -> Option<u64> {
    match a {
        Some(_) => a,
        None => b,
    }
}

/// A limit that a laptop could really have: from one watt to the sane maximum.
pub open spec fn sane(value: Option<u64>) -> Option<u64> {
    match value {
        Some(v) => if 1_000_000 <= v <= MAX_SANE_UW {
            value
        } else {
            None
        },
        None => None,
    }
}

fn min_of(a: u64, b: u64) -> (r: u64)
    ensures
        r == least(a, b),
{
    if a <= b {
        a
    } else {
        b
    }
}

fn clamp(value: Option<u64>, stock: Option<u64>) -> (r: Option<u64>)
    ensures
        r == clamped(value, stock),
{
    match (value, stock) {
        (Some(v), Some(s)) => {
            let floor: u64 = min_of(FLOOR_UW, s);
            Some(
                if v < floor {
                    floor
                } else {
                    min_of(v, s)
                },
            )
        },
        _ => None,
    }
}

fn hold_under(value: Option<u64>, ceiling: Option<u64>) -> (r: Option<u64>)
    ensures
        r == held_under(value, ceiling),
{
    match (value, ceiling) {
        (Some(v), Some(c)) => Some(min_of(v, c)),
        _ => value,
    }
}

pub fn either(a: Option<u64>, b: Option<u64>) -> (r: Option<u64>)
    ensures
        r == first_known(a, b),
{
    match a {
        Some(_) => a,
        None => b,
    }
}

fn keep_sane(value: Option<u64>) -> (r: Option<u64>)
    ensures
        r == sane(value),
{
    match value {
        Some(v) => if 1_000_000 <= v && v <= MAX_SANE_UW {
            value
        } else {
            None
        },
        None => None,
    }
}

impl Limits {
    pub open spec fn empty(self) -> bool {
        self.pl1_uw is None && self.pl2_uw is None && self.pl4_uw is None
    }

    /// The higher tier lowered where two cross.
    pub open spec fn in_order(self) -> Limits {
        let pl2 = held_under(self.pl2_uw, self.pl4_uw);
        Limits {
            pl1_uw: held_under(self.pl1_uw, first_known(pl2, self.pl4_uw)),
            pl2_uw: pl2,
            pl4_uw: self.pl4_uw,
        }
    }

    pub open spec fn under_stock(self, stock: Limits) -> Limits {
        (Limits {
            pl1_uw: clamped(self.pl1_uw, stock.pl1_uw),
            pl2_uw: clamped(self.pl2_uw, stock.pl2_uw),
            pl4_uw: clamped(self.pl4_uw, stock.pl4_uw),
        }).in_order()
    }

    pub open spec fn believable(self) -> Limits {
        Limits {
            pl1_uw: sane(self.pl1_uw),
            pl2_uw: sane(self.pl2_uw),
            pl4_uw: sane(self.pl4_uw),
        }
    }

    pub fn is_empty(&self) -> (r: bool)
        ensures
            r == self.empty(),
    {
        self.pl1_uw.is_none() && self.pl2_uw.is_none() && self.pl4_uw.is_none()
    }

    /// Caps every limit at the machine's stock value and floors it at
    /// something survivable. Without a stock value nothing is commanded.
    pub fn clamp_to_stock(self, stock: Limits) -> (r: Limits)
        ensures
            r == self.under_stock(stock),
    {
        let held = Limits {
            pl1_uw: clamp(self.pl1_uw, stock.pl1_uw),
            pl2_uw: clamp(self.pl2_uw, stock.pl2_uw),
            pl4_uw: clamp(self.pl4_uw, stock.pl4_uw),
        };
        held.ordered()
    }

    /// PL1 <= PL2 <= PL4, lowering the higher tier where they cross.
    pub fn ordered(self) -> (r: Limits)
        ensures
            r == self.in_order(),
    {
        let pl2 = hold_under(self.pl2_uw, self.pl4_uw);
        Limits {
            pl1_uw: hold_under(self.pl1_uw, either(pl2, self.pl4_uw)),
            pl2_uw: pl2,
            pl4_uw: self.pl4_uw,
        }
    }

    /// Without the values no machine could really have.
    pub fn without_absurd(self) -> (r: Limits)
        ensures
            r == self.believable(),
    {
        Limits {
            pl1_uw: keep_sane(self.pl1_uw),
            pl2_uw: keep_sane(self.pl2_uw),
            pl4_uw: keep_sane(self.pl4_uw),
        }
    }
}

// --- tuning --------------------------------------------------------------

/// A mode's share of the machine's stock envelope, and whether the CPU may
/// boost.
#[derive(Debug, Clone, Copy, PartialEq, Eq, Structural)]
pub struct Tuning {
    pub pl1_percent: u8,
    pub pl2_percent: u8,
    pub turbo: bool,
}

/// The machine's own envelope.
pub open spec fn untouched() -> Tuning {
    Tuning { pl1_percent: 100, pl2_percent: 100, turbo: true }
}

/// So many hundredths of a limit; all of it, to the last microwatt, where that
/// is what is asked for.
pub open spec fn share(stock: Option<u64>, percent: u8) -> Option<u64> {
    match stock {
        Some(s) => if percent == 100 {
            Some(s)
        } else {
            Some(((s / 100) * percent) as u64)
        },
        None => None,
    }
}

/// A share of a limit that a number can hold.
pub open spec fn share_fits(stock: Option<u64>, percent: u8) -> bool {
    match stock {
        Some(s) => percent == 100 || (s / 100) * percent <= u64::MAX,
        None => true,
    }
}

fn scale(stock: Option<u64>, percent: u8) -> (r: Option<u64>)
    requires
        share_fits(stock, percent),
    ensures
        r == share(stock, percent),
{
    match stock {
        Some(s) => if percent == 100 {
            Some(s)
        } else {
            Some(s / 100 * (percent as u64))
        },
        None => None,
    }
}

impl Tuning {
    /// What is asked of the envelope can be told in numbers.
    pub open spec fn fits(self, stock: Limits) -> bool {
        share_fits(stock.pl1_uw, self.pl1_percent) && share_fits(stock.pl2_uw, self.pl2_percent)
    }

    pub open spec fn asks(self, stock: Limits) -> Limits {
        Limits {
            pl1_uw: share(stock.pl1_uw, self.pl1_percent),
            pl2_uw: share(stock.pl2_uw, self.pl2_percent),
            pl4_uw: stock.pl4_uw,
        }
    }

    /// Every mode starts at the machine's own envelope, untouched.
    pub fn default_for(_mode: PowerMode) -> (r: Tuning)
        ensures
            r == untouched(),
    {
        Tuning { pl1_percent: 100, pl2_percent: 100, turbo: true }
    }

    /// Whether this is still the envelope that nobody touched.
    pub fn is_default(&self) -> (r: bool)
        ensures
            r == (*self == untouched()),
    {
        *self == Tuning::default_for(PowerMode::Balanced)
    }

    /// The limits this tuning asks for. PL4 stays at stock.
    pub fn target(&self, stock: Limits) -> (r: Limits)
        requires
            self.fits(stock),
        ensures
            r == self.asks(stock),
    {
        Limits {
            pl1_uw: scale(stock.pl1_uw, self.pl1_percent),
            pl2_uw: scale(stock.pl2_uw, self.pl2_percent),
            pl4_uw: stock.pl4_uw,
        }
    }
}

/// Every mode's tuning.
#[derive(Debug, Clone, Copy, PartialEq, Eq, Structural)]
pub struct ModeTuning {
    pub eco: Tuning,
    pub balanced: Tuning,
    pub performance: Tuning,
    pub unlimited: Tuning,
}

pub open spec fn untuned() -> ModeTuning {
    ModeTuning {
        eco: untouched(),
        balanced: untouched(),
        performance: untouched(),
        unlimited: untouched(),
    }
}

impl Default for ModeTuning {
    fn default() -> (r: ModeTuning)
        ensures
            r == untuned(),
    {
        ModeTuning {
            eco: Tuning::default_for(PowerMode::Eco),
            balanced: Tuning::default_for(PowerMode::Balanced),
            performance: Tuning::default_for(PowerMode::Performance),
            unlimited: Tuning::default_for(PowerMode::Unlimited),
        }
    }
}

impl ModeTuning {
    pub open spec fn of(self, mode: PowerMode) -> Tuning {
        match mode {
            PowerMode::Eco => self.eco,
            PowerMode::Balanced => self.balanced,
            PowerMode::Performance => self.performance,
            PowerMode::Unlimited => self.unlimited,
        }
    }

    pub fn get(&self, mode: PowerMode) -> (r: Tuning)
        ensures
            r == self.of(mode),
    {
        match mode {
            PowerMode::Eco => self.eco,
            PowerMode::Balanced => self.balanced,
            PowerMode::Performance => self.performance,
            PowerMode::Unlimited => self.unlimited,
        }
    }

    pub fn set(&mut self, mode: PowerMode, tuning: Tuning)
        ensures
            final(self).of(mode) == tuning,
            forall|other: PowerMode| other != mode ==> #[trigger] final(self).of(other) == old(self).of(other),
    {
        match mode {
            PowerMode::Eco => {
                self.eco = tuning;
            },
            PowerMode::Balanced => {
                self.balanced = tuning;
            },
            PowerMode::Performance => {
                self.performance = tuning;
            },
            PowerMode::Unlimited => {
                self.unlimited = tuning;
            },
        }
    }
}

// --- where the knobs are -------------------------------------------------

/// The knob for turbo, whose polarity depends on which one there is.
#[derive(Debug, Clone, PartialEq, Eq)]
pub enum TurboKnob {
    /// Here 1 means off.
    NoTurbo(String),
    /// Here 1 means on.
    Boost(String),
}

/// Where this machine's knobs are.
#[derive(Debug, Clone)]
pub struct LimitPaths {
    /// The directory of the package zone.
    pub zone: Option<String>,
    pub turbo: Option<TurboKnob>,
    /// Where the package register can be read; nothing for "do not look".
    pub msr_root: Option<String>,
}

impl Default for LimitPaths {
    fn default() -> (r: LimitPaths)
        ensures
            r.zone is None,
            r.turbo is None,
            r.msr_root is None,
    {
        LimitPaths { zone: None, turbo: None, msr_root: None }
    }
}

/// A directory of the powercap tree.
#[derive(Debug, Clone)]
pub struct ZoneEntry {
    pub path: String,
    /// Its file name.
    pub name: String,
    /// What its `name` attribute holds, where it can be read.
    pub label: Option<String>,
}

/// The package zone: not its sub-zones, nor the mirror of the same hardware.
pub open spec fn is_package(e: ZoneEntry) -> bool {
    &&& text::starts_with(e.name@, "intel-rapl:"@)
    &&& !text::contains(e.name@, "mmio"@)
    &&& e.label is Some
    &&& text::starts_with(text::trim(e.label->0@), "package-"@)
}

/// The first package zone by name.
pub open spec fn first_package(entries: Seq<ZoneEntry>) -> Option<ZoneEntry>
    decreases entries.len(),
{
    if entries.len() == 0 {
        None
    } else {
        let before = first_package(entries.drop_last());
        let e = entries.last();
        if is_package(e) && (before is None || text::precedes(e.name@, (before->0).name@)) {
            Some(e)
        } else {
            before
        }
    }
}

fn looks_like_package(e: &ZoneEntry) -> (r: bool)
    ensures
        r == is_package(*e),
{
    if !text::str_starts(e.name.as_str(), "intel-rapl:") {
        return false;
    }
    if text::str_has(e.name.as_str(), "mmio") {
        return false;
    }
    match &e.label {
        Some(label) => text::str_starts(text::trimmed_str(label.as_str()).as_str(), "package-"),
        None => false,
    }
}

fn find_package_zone(entries: &Vec<ZoneEntry>) -> (r: Option<String>)
    ensures
        text::opt_view(r) == (match first_package(entries@) {
            Some(e) => Some(e.path@),
            None => None,
        }),
{
    let n: usize = entries.len();
    let mut best: Option<usize> = None;
    let mut i: usize = 0;
    proof {
        assert(entries@.take(0) =~= seq![]);
    }
    while i < n
        invariant
            n == entries@.len(),
            i <= n,
            match best {
                Some(b) => b < i && first_package(entries@.take(i as int)) == Some(
                    entries@[b as int],
                ),
                None => first_package(entries@.take(i as int)) is None,
            },
        decreases n - i,
    {
        proof {
            assert(entries@.take(i + 1).drop_last() =~= entries@.take(i as int));
            assert(entries@.take(i + 1).last() == entries@[i as int]);
        }
        if looks_like_package(&entries[i]) {
            let earlier = match best {
                Some(b) => text::comes_before(
                    &text::chars_of(entries[i].name.as_str()),
                    &text::chars_of(entries[b].name.as_str()),
                ),
                None => true,
            };
            if earlier {
                best = Some(i);
            }
        }
        i = i + 1;
    }
    proof {
        assert(entries@.take(n as int) =~= entries@);
    }
    match best {
        Some(b) => Some(entries[b].path.clone()),
        None => None,
    }
}

pub open spec fn knob_path(knob: Option<TurboKnob>) -> Option<(bool, Seq<char>)> {
    match knob {
        Some(TurboKnob::NoTurbo(path)) => Some((false, path@)),
        Some(TurboKnob::Boost(path)) => Some((true, path@)),
        None => None,
    }
}

/// The turbo knob of a machine: whether 1 means on, and where it is. The knob
/// that turns turbo off is taken where there are both.
pub open spec fn knob_found(no_turbo: Option<Seq<char>>, boost: Option<Seq<char>>) -> Option<
    (bool, Seq<char>),
> {
    match no_turbo {
        Some(path) => Some((false, path)),
        None => match boost {
            Some(path) => Some((true, path)),
            None => None,
        },
    }
}

impl LimitPaths {
    /// The knobs of a machine: the directories of its powercap tree, and each
    /// of the two turbo knobs where it exists.
    pub fn discover(
        entries: &Vec<ZoneEntry>,
        no_turbo: Option<String>,
        boost: Option<String>,
        msr_root: String,
    ) -> (r: LimitPaths)
        ensures
            text::opt_view(r.zone) == (match first_package(entries@) {
                Some(e) => Some(e.path@),
                None => None,
            }),
            knob_path(r.turbo) == knob_found(text::opt_view(no_turbo), text::opt_view(boost)),
            r.msr_root == Some(msr_root),
    {
        let turbo = match no_turbo {
            Some(path) => Some(TurboKnob::NoTurbo(path)),
            None => match boost {
                Some(path) => Some(TurboKnob::Boost(path)),
                None => None,
            },
        };
        LimitPaths { zone: find_package_zone(entries), turbo, msr_root: Some(msr_root) }
    }

    pub fn has_limits(&self) -> (r: bool)
        ensures
            r == (self.zone is Some),
    {
        self.zone.is_some()
    }

    pub fn has_turbo(&self) -> (r: bool)
        ensures
            r == (self.turbo is Some),
    {
        self.turbo.is_some()
    }
}

// --- what the zone says --------------------------------------------------

/// How the firmware's lock on the limits was found.
#[derive(Debug, Clone, Copy, PartialEq, Eq, Structural)]
pub enum LockSource {
    /// The highest bit of the package's power-limit register.
    Msr,
    /// A `locked` attribute of the zone.
    Sysfs,
}

/// One look at the package zone: each attribute's text where it can be read.
pub struct ZoneReading {
    /// The names of the constraints, by their number.
    pub names: Vec<Option<String>>,
    /// The limits of the constraints, by their number.
    pub limits: Vec<Option<String>>,
    /// Which of the limits have a file at all.
    pub present: Vec<bool>,
    pub enabled: Option<String>,
    pub locked: Option<String>,
    /// The package's power-limit register, lowest byte first.
    pub msr: Option<[u8; 8]>,
}

#[verifier::ext_equal]
pub struct ZoneView {
    pub names: Seq<Option<Seq<char>>>,
    pub limits: Seq<Option<Seq<char>>>,
    pub present: Seq<bool>,
    pub enabled: Option<Seq<char>>,
    pub locked: Option<Seq<char>>,
    pub msr: Option<Seq<u8>>,
}

pub open spec fn opt_texts(v: Seq<Option<String>>) -> Seq<Option<Seq<char>>> {
    Seq::new(v.len(), |i: int| text::opt_view(v[i]))
}

impl View for ZoneReading {
    type V = ZoneView;

    open spec fn view(&self) -> ZoneView {
        ZoneView {
            names: opt_texts(self.names@),
            limits: opt_texts(self.limits@),
            present: self.present@,
            enabled: text::opt_view(self.enabled),
            locked: text::opt_view(self.locked),
            msr: match self.msr {
                Some(bytes) => Some(bytes@),
                None => None,
            },
        }
    }
}

pub open spec fn text_at(list: Seq<Option<Seq<char>>>, i: int) -> Option<Seq<char>> {
    if 0 <= i < list.len() {
        list[i]
    } else {
        None
    }
}

impl ZoneView {
    /// The lowest-numbered constraint, from `from` on, that carries the name.
    pub open spec fn named(self, name: Seq<char>, from: int) -> Option<int>
        decreases 8 - from,
    {
        if from >= 8 {
            None
        } else if text_at(self.names, from) is Some && text::trim(text_at(self.names, from)->0)
            == name {
            Some(from)
        } else {
            self.named(name, from + 1)
        }
    }

    pub open spec fn names_any(self) -> bool {
        exists|i: int| 0 <= i < 8 && #[trigger] text_at(self.names, i) is Some
    }

    /// Where a constraint is: found by its name, and at its usual place only
    /// in a zone that names none of its constraints.
    pub open spec fn index_of(self, name: Seq<char>, usual: int) -> Option<int> {
        match self.named(name, 0) {
            Some(i) => Some(i),
            None => if self.names_any() {
                None
            } else {
                Some(usual)
            },
        }
    }

    pub open spec fn limit_at(self, i: int) -> Option<u64> {
        match text_at(self.limits, i) {
            Some(s) => match number::parse_unsigned(text::trim(s), 10, u64::MAX as nat) {
                Some(n) => Some(n as u64),
                None => None,
            },
            None => None,
        }
    }

    pub open spec fn limit_named(self, name: Seq<char>, usual: int) -> Option<u64> {
        match self.index_of(name, usual) {
            Some(i) => self.limit_at(i),
            None => None,
        }
    }

    pub open spec fn limits_now(self) -> Limits {
        Limits {
            pl1_uw: self.limit_named("long_term"@, 0),
            pl2_uw: self.limit_named("short_term"@, 1),
            pl4_uw: self.limit_named("peak_power"@, 2),
        }
    }

    /// A zone enforces its limits unless it says otherwise.
    pub open spec fn enforces(self) -> bool {
        match self.enabled {
            Some(s) => text::trim(s) != "0"@,
            None => true,
        }
    }

    pub open spec fn lock(self, look: bool) -> Option<LockSource> {
        match self.locked {
            Some(s) => if text::trim(s) == "1"@ {
                Some(LockSource::Sysfs)
            } else {
                None
            },
            None => match self.msr {
                Some(bytes) => if look && raw::le_value(bytes) >= 0x8000_0000_0000_0000 {
                    Some(LockSource::Msr)
                } else {
                    None
                },
                None => None,
            },
        }
    }
}

proof fn lemma_highest_bit(bytes: Seq<u8>)
    requires
        bytes.len() == 8,
    ensures
        raw::le_value(bytes) >= 0x8000_0000_0000_0000 <==> bytes[7] >= 128,
{
    reveal_with_fuel(raw::le_value, 9);
    let a = bytes.skip(1);
    let b = a.skip(1);
    let c = b.skip(1);
    let d = c.skip(1);
    let e = d.skip(1);
    let f = e.skip(1);
    let g = f.skip(1);
    let h = g.skip(1);
    assert(h.len() == 0);
    assert(g[0] == bytes[7]);
    assert(raw::le_value(g) == g[0]);
    assert(raw::le_value(f) == f[0] + 256 * raw::le_value(g));
    assert(raw::le_value(e) == e[0] + 256 * raw::le_value(f));
    assert(raw::le_value(d) == d[0] + 256 * raw::le_value(e));
    assert(raw::le_value(c) == c[0] + 256 * raw::le_value(d));
    assert(raw::le_value(b) == b[0] + 256 * raw::le_value(c));
    assert(raw::le_value(a) == a[0] + 256 * raw::le_value(b));
    assert(raw::le_value(bytes) == bytes[0] + 256 * raw::le_value(a));
}

/// Whether the firmware has locked the limits, and how that was found; nothing
/// where they are not locked or nothing could say. The zone's own word counts
/// before the register's.
pub fn locked(paths: &LimitPaths, zone: &ZoneReading) -> (r: Option<LockSource>)
    ensures
        r == (if paths.zone is Some {
            zone@.lock(paths.msr_root is Some)
        } else {
            None
        }),
{
    if paths.zone.is_none() {
        return None;
    }
    match &zone.locked {
        Some(s) => {
            return if text::same(text::trimmed_str(s.as_str()).as_str(), "1") {
                Some(LockSource::Sysfs)
            } else {
                None
            };
        },
        None => {},
    }
    if paths.msr_root.is_none() {
        return None;
    }
    match &zone.msr {
        Some(bytes) => {
            proof {
                lemma_highest_bit(bytes@);
            }
            if bytes[7] >= 128 {
                Some(LockSource::Msr)
            } else {
                None
            }
        },
        None => None,
    }
}

/// Where the constraint of that name is in the zone.
fn constraint_index(zone: &ZoneReading, name: &str, usual: usize) -> (r: Option<usize>)
    requires
        usual < 8,
    ensures
        match r {
            Some(i) => i < 8 && zone@.index_of(name@, usual as int) == Some(i as int),
            None => zone@.index_of(name@, usual as int) is None,
        },
{
    let n: usize = zone.names.len();
    let mut any_named = false;
    let mut i: usize = 0;
    while i < 8
        invariant
            n == zone.names@.len(),
            i <= 8,
            zone@.named(name@, 0) == zone@.named(name@, i as int),
            any_named == exists|k: int| 0 <= k < i && #[trigger] text_at(zone@.names, k) is Some,
        decreases 8 - i,
    {
        if i < n {
            match &zone.names[i] {
                Some(found) => {
                    proof {
                        assert(text_at(zone@.names, i as int) == Some(found@));
                    }
                    if text::same(text::trimmed_str(found.as_str()).as_str(), name) {
                        return Some(i);
                    }
                    any_named = true;
                },
                None => {
                    proof {
                        assert(text_at(zone@.names, i as int) is None);
                    }
                },
            }
        } else {
            proof {
                assert(text_at(zone@.names, i as int) is None);
            }
        }
        i = i + 1;
    }
    if any_named {
        None
    } else {
        Some(usual)
    }
}

/// The limit of one constraint, by its number.
pub fn read_uw(zone: &ZoneReading, constraint: usize) -> (r: Option<u64>)
    ensures
        r == zone@.limit_at(constraint as int),
{
    if constraint >= zone.limits.len() {
        return None;
    }
    match &zone.limits[constraint] {
        Some(s) => number::read_unsigned(
            &text::trimmed(&text::chars_of(s.as_str())),
            10,
            u64::MAX,
        ),
        None => None,
    }
}

fn zone_enabled(zone: &ZoneReading) -> (r: bool)
    ensures
        r == zone@.enforces(),
{
    match &zone.enabled {
        Some(s) => !text::same(text::trimmed_str(s.as_str()).as_str(), "0"),
        None => true,
    }
}

fn read_named(zone: &ZoneReading, name: &str, usual: usize) -> (r: Option<u64>)
    requires
        usual < 8,
    ensures
        r == zone@.limit_named(name@, usual as int),
{
    match constraint_index(zone, name, usual) {
        Some(i) => read_uw(zone, i),
        None => None,
    }
}

pub open spec fn limits_read(paths: LimitPaths, zone: ZoneView) -> Limits {
    if paths.zone is Some {
        zone.limits_now()
    } else {
        no_limits()
    }
}

/// The limits the machine has now.
pub fn read(paths: &LimitPaths, zone: &ZoneReading) -> (r: Limits)
    ensures
        r == limits_read(*paths, zone@),
{
    if paths.zone.is_none() {
        return Limits::default();
    }
    Limits {
        pl1_uw: read_named(zone, "long_term", 0),
        pl2_uw: read_named(zone, "short_term", 1),
        pl4_uw: read_named(zone, "peak_power", 2),
    }
}

// --- turbo ---------------------------------------------------------------

/// Whether turbo is allowed, from what the knob's file holds.
pub open spec fn turbo_now(knob: Option<TurboKnob>, file: Option<Seq<char>>) -> Option<bool> {
    match (knob, file) {
        (Some(TurboKnob::NoTurbo(_)), Some(s)) => Some(text::trim(s) == "0"@),
        (Some(TurboKnob::Boost(_)), Some(s)) => Some(text::trim(s) == "1"@),
        _ => None,
    }
}

pub fn read_turbo(paths: &LimitPaths, file: Option<&str>) -> (r: Option<bool>)
    ensures
        r == turbo_now(
            paths.turbo,
            match file {
                Some(s) => Some(s@),
                None => None,
            },
        ),
{
    match (&paths.turbo, file) {
        (Some(TurboKnob::NoTurbo(_)), Some(s)) => Some(
            text::same(text::trimmed_str(s).as_str(), "0"),
        ),
        (Some(TurboKnob::Boost(_)), Some(s)) => Some(
            text::same(text::trimmed_str(s).as_str(), "1"),
        ),
        _ => None,
    }
}

/// What to write to the turbo knob: nothing without a knob, and nothing where
/// turbo already is as asked.
pub open spec fn turbo_to_write(
    knob: Option<TurboKnob>,
    now: Option<bool>,
    enabled: bool,
) -> Option<Seq<char>> {
    match knob {
        None => None,
        Some(knob) => if now == Some(enabled) {
            None
        } else {
            Some(
                if (knob is Boost) == enabled {
                    "1"@
                } else {
                    "0"@
                },
            )
        },
    }
}

pub fn turbo_write(paths: &LimitPaths, now: Option<bool>, enabled: bool) -> (r: Option<
    &'static str,
>)
    ensures
        (match r {
            Some(s) => Some(s@),
            None => None,
        }) == turbo_to_write(paths.turbo, now, enabled),
{
    let boost = match &paths.turbo {
        None => {
            return None;
        },
        Some(TurboKnob::NoTurbo(_)) => false,
        Some(TurboKnob::Boost(_)) => true,
    };
    match now {
        Some(b) => {
            if b == enabled {
                return None;
            }
        },
        None => {},
    }
    if boost == enabled {
        Some("1")
    } else {
        Some("0")
    }
}

pub open spec fn on_off(enabled: bool) -> Seq<char> {
    if enabled {
        "on"@
    } else {
        "off"@
    }
}

pub fn say_on_off(enabled: bool) -> (r: String)
    ensures
        r@ == on_off(enabled),
{
    if enabled {
        String::from_str("on")
    } else {
        String::from_str("off")
    }
}

/// What writing the turbo knob came to, by what it reads afterwards.
pub open spec fn turbo_said(
    enabled: bool,
    written: Result<(), Seq<char>>,
    now: Option<bool>,
) -> Result<Seq<char>, Seq<char>> {
    match written {
        Err(e) => Err("turbo: "@ + e),
        Ok(()) => if now == Some(enabled) {
            Ok("turbo="@ + on_off(enabled))
        } else {
            Err(
                "turbo: asked for "@ + on_off(enabled) + ", the CPU kept it "@ + on_off(!enabled),
            )
        },
    }
}

pub open spec fn lines_view(r: Result<String, String>) -> Result<Seq<char>, Seq<char>> {
    match r {
        Ok(s) => Ok(s@),
        Err(s) => Err(s@),
    }
}

pub open spec fn done_view(r: Result<(), String>) -> Result<(), Seq<char>> {
    match r {
        Ok(()) => Ok(()),
        Err(s) => Err(s@),
    }
}

pub fn turbo_outcome(enabled: bool, written: Result<(), String>, now: Option<bool>) -> (r: Result<
    String,
    String,
>)
    ensures
        lines_view(r) == turbo_said(enabled, done_view(written), now),
{
    match written {
        Err(e) => Err(String::from_str("turbo: ").concat(e.as_str())),
        Ok(()) => {
            let took = match now {
                Some(b) => b == enabled,
                None => false,
            };
            if took {
                Ok(String::from_str("turbo=").concat(say_on_off(enabled).as_str()))
            } else {
                let asked = String::from_str("turbo: asked for ").concat(
                    say_on_off(enabled).as_str(),
                );
                Err(asked.concat(", the CPU kept it ").concat(say_on_off(!enabled).as_str()))
            }
        },
    }
}

// --- writing the limits --------------------------------------------------

/// One limit to write.
#[derive(Debug, Clone, Copy, PartialEq, Eq, Structural)]
pub struct LimitWrite {
    /// Which of the three: 0 for PL1, 1 for PL2, 2 for PL4.
    pub which: usize,
    pub constraint: usize,
    pub value: u64,
}

/// What writing a limit came to: the failure, or what it reads afterwards.
pub enum Written {
    Refused(String),
    ReadBack(Option<u64>),
}

pub enum WrittenView {
    Refused(Seq<char>),
    ReadBack(Option<u64>),
}

impl View for Written {
    type V = WrittenView;

    open spec fn view(&self) -> WrittenView {
        match self {
            Written::Refused(e) => WrittenView::Refused(e@),
            Written::ReadBack(got) => WrittenView::ReadBack(*got),
        }
    }
}

pub open spec fn limit_label(which: int) -> Seq<char> {
    if which == 0 {
        "PL1"@
    } else if which == 1 {
        "PL2"@
    } else {
        "PL4"@
    }
}

pub open spec fn kernel_name(which: int) -> Seq<char> {
    if which == 0 {
        "long_term"@
    } else if which == 1 {
        "short_term"@
    } else {
        "peak_power"@
    }
}

fn label_of(which: usize) -> (r: &'static str)
    ensures
        r@ == limit_label(which as int),
{
    if which == 0 {
        "PL1"
    } else if which == 1 {
        "PL2"
    } else {
        "PL4"
    }
}

fn kernel_name_of(which: usize) -> (r: &'static str)
    ensures
        r@ == kernel_name(which as int),
{
    if which == 0 {
        "long_term"
    } else if which == 1 {
        "short_term"
    } else {
        "peak_power"
    }
}

impl Limits {
    pub open spec fn nth(self, which: int) -> Option<u64> {
        if which == 0 {
            self.pl1_uw
        } else if which == 1 {
            self.pl2_uw
        } else {
            self.pl4_uw
        }
    }

    fn get(&self, which: usize) -> (r: Option<u64>)
        ensures
            r == self.nth(which as int),
    {
        if which == 0 {
            self.pl1_uw
        } else if which == 1 {
            self.pl2_uw
        } else {
            self.pl4_uw
        }
    }
}

/// The write that one of the three limits needs: none where nothing is asked,
/// the zone has no such constraint, or it holds the value already.
pub open spec fn write_needed(zone: ZoneView, target: Limits, which: int) -> Option<LimitWrite> {
    match target.nth(which) {
        None => None,
        Some(value) => match zone.index_of(kernel_name(which), which) {
            None => None,
            Some(i) => if !(0 <= i < zone.present.len() && zone.present[i]) || zone.limit_at(i)
                == Some(value) {
                None
            } else {
                Some(LimitWrite { which: which as usize, constraint: i as usize, value })
            },
        },
    }
}

/// The first write that is needed from `from` on.
pub open spec fn next_needed(zone: ZoneView, target: Limits, from: int) -> Option<LimitWrite>
    decreases 3 - from,
{
    if from >= 3 {
        None
    } else if write_needed(zone, target, from) is Some {
        write_needed(zone, target, from)
    } else {
        next_needed(zone, target, from + 1)
    }
}

pub open spec fn watts_of(uw: u64) -> Seq<char> {
    number::decimal((uw / 1_000_000) as nat)
}

pub open spec fn apart(a: u64, b: u64) -> int {
    if a >= b {
        a - b
    } else {
        b - a
    }
}

/// What is reported of a write: done, or failed.
pub open spec fn limit_said(write: LimitWrite, outcome: WrittenView) -> Result<
    Seq<char>,
    Seq<char>,
> {
    let label = limit_label(write.which as int);
    match outcome {
        WrittenView::Refused(e) => Err(label + ": "@ + e),
        WrittenView::ReadBack(None) => Err(label + ": unreadable after writing it"@),
        WrittenView::ReadBack(Some(got)) => if apart(got, write.value) <= READ_BACK_TOLERANCE_UW {
            Ok(label + "="@ + watts_of(got) + "W"@)
        } else {
            Err(
                label + ": asked for "@ + watts_of(write.value) + "W, the firmware kept "@
                    + watts_of(got) + "W"@,
            )
        },
    }
}

/// The target with each limit it does not set taken from the machine.
pub open spec fn completed(target: Limits, now: Limits) -> Limits {
    Limits {
        pl1_uw: first_known(target.pl1_uw, now.pl1_uw),
        pl2_uw: first_known(target.pl2_uw, now.pl2_uw),
        pl4_uw: first_known(target.pl4_uw, now.pl4_uw),
    }
}

fn target_with_current(target: Limits, now: Limits) -> (r: Limits)
    ensures
        r == completed(target, now),
{
    Limits {
        pl1_uw: either(target.pl1_uw, now.pl1_uw),
        pl2_uw: either(target.pl2_uw, now.pl2_uw),
        pl4_uw: either(target.pl4_uw, now.pl4_uw),
    }
}

pub open spec fn locked_said(source: LockSource) -> Seq<char> {
    "PL: locked by the firmware ("@ + (match source {
        LockSource::Msr => "MSR_PKG_POWER_LIMIT lock bit"@,
        LockSource::Sysfs => "the RAPL zone reports locked"@,
    }) + "), so the limits cannot change until reboot"@
}

/// Why no limit is written at all: what is reported then, if anything.
pub open spec fn held_back(paths: LimitPaths, zone: ZoneView, target: Limits) -> Option<
    Seq<Seq<char>>,
> {
    if paths.zone is None || target.empty() {
        Some(seq![])
    } else if !zone.enforces() {
        Some(seq!["PL: the RAPL package zone is disabled, so no limit would be enforced"@])
    } else {
        match zone.lock(paths.msr_root is Some) {
            Some(source) => if zone.limits_now() != completed(target, zone.limits_now()) {
                Some(seq![locked_said(source)])
            } else {
                Some(seq![])
            },
            None => None,
        }
    }
}

/// The writing of a set of limits, one after the other.
pub struct LimitRun {
    pub target: Limits,
    /// Which limit is next.
    pub at: usize,
    pub applied: Vec<String>,
    pub failed: Vec<String>,
}

impl LimitRun {
    /// Starts writing limits, which the caller has already held under stock.
    pub fn begin(paths: &LimitPaths, zone: &ZoneReading, target: Limits) -> (r: LimitRun)
        ensures
            r.target == target,
            r.applied@.len() == 0,
            match held_back(*paths, zone@, target) {
                Some(said) => r.at == 3 && text::views(r.failed@) == said,
                None => r.at == 0 && r.failed@.len() == 0,
            },
    {
        let applied: Vec<String> = Vec::new();
        let mut failed: Vec<String> = Vec::new();
        proof {
            assert(text::views(failed@) =~= seq![]);
        }
        if paths.zone.is_none() || target.is_empty() {
            return LimitRun { target, at: 3, applied, failed };
        }
        if !zone_enabled(zone) {
            text::push_string(
                &mut failed,
                String::from_str(
                    "PL: the RAPL package zone is disabled, so no limit would be enforced",
                ),
            );
            proof {
                assert(text::views(failed@) =~= seq![
                    "PL: the RAPL package zone is disabled, so no limit would be enforced"@,
                ]);
            }
            return LimitRun { target, at: 3, applied, failed };
        }
        match locked(paths, zone) {
            Some(source) => {
                let now = read(paths, zone);
                if now != target_with_current(target, now) {
                    let how = match source {
                        LockSource::Msr => "MSR_PKG_POWER_LIMIT lock bit",
                        LockSource::Sysfs => "the RAPL zone reports locked",
                    };
                    let said = String::from_str("PL: locked by the firmware (").concat(how).concat(
                        "), so the limits cannot change until reboot",
                    );
                    text::push_string(&mut failed, said);
                    proof {
                        assert(text::views(failed@) =~= seq![locked_said(source)]);
                    }
                }
                LimitRun { target, at: 3, applied, failed }
            },
            None => LimitRun { target, at: 0, applied, failed },
        }
    }

    /// The next limit to write, by what the zone says now.
    pub fn next(&mut self, zone: &ZoneReading) -> (r: Option<LimitWrite>)
        ensures
            r == next_needed(zone@, old(self).target, old(self).at as int),
            final(self).at == (match r {
                Some(w) => w.which as int,
                None => if old(self).at < 3 {
                    3
                } else {
                    old(self).at as int
                },
            }),
            r is Some ==> (r->0).which < 3 && (r->0).constraint < 8,
            final(self).target == old(self).target,
            final(self).applied == old(self).applied,
            final(self).failed == old(self).failed,
    {
        while self.at < 3
            invariant
                self.at <= 3 || self.at == old(self).at,
                next_needed(zone@, self.target, self.at as int) == next_needed(
                    zone@,
                    old(self).target,
                    old(self).at as int,
                ),
                old(self).at < 3 || self.at == old(self).at,
                self.target == old(self).target,
                self.applied == old(self).applied,
                self.failed == old(self).failed,
            decreases 3 - self.at,
        {
            let which: usize = self.at;
            match self.target.get(which) {
                Some(value) => {
                    match constraint_index(zone, kernel_name_of(which), which) {
                        Some(i) => {
                            let there = i < zone.present.len() && zone.present[i];
                            let held = match read_uw(zone, i) {
                                Some(now) => now == value,
                                None => false,
                            };
                            if there && !held {
                                return Some(LimitWrite { which, constraint: i, value });
                            }
                        },
                        None => {},
                    }
                },
                None => {},
            }
            self.at = which + 1;
        }
        None
    }

    /// Takes what a write came to.
    pub fn record(&mut self, write: LimitWrite, outcome: Written)
        requires
            write.which < 3,
        ensures
            final(self).target == old(self).target,
            final(self).at == write.which + 1,
            match limit_said(write, outcome@) {
                Ok(line) => text::views(final(self).applied@) == text::views(
                    old(self).applied@,
                ).push(line) && final(self).failed == old(self).failed,
                Err(line) => text::views(final(self).failed@) == text::views(
                    old(self).failed@,
                ).push(line) && final(self).applied == old(self).applied,
            },
    {
        self.at = write.which + 1;
        let label = String::from_str(label_of(write.which));
        match outcome {
            Written::Refused(e) => {
                let line = label.concat(": ").concat(e.as_str());
                text::push_string(&mut self.failed, line);
            },
            Written::ReadBack(None) => {
                let line = label.concat(": unreadable after writing it");
                text::push_string(&mut self.failed, line);
            },
            Written::ReadBack(Some(got)) => {
                let off: u64 = if got >= write.value {
                    got - write.value
                } else {
                    write.value - got
                };
                if off <= READ_BACK_TOLERANCE_UW {
                    let watts = number::show(got / 1_000_000);
                    let line = label.concat("=").concat(watts.as_str()).concat("W");
                    text::push_string(&mut self.applied, line);
                } else {
                    let asked = number::show(write.value / 1_000_000);
                    let kept = number::show(got / 1_000_000);
                    let line = label.concat(": asked for ").concat(asked.as_str()).concat(
                        "W, the firmware kept ",
                    ).concat(kept.as_str()).concat("W");
                    text::push_string(&mut self.failed, line);
                }
            },
        }
    }
}

// --- laws ----------------------------------------------------------------

/// Whatever the tuning, it can be asked of an envelope that a laptop could
/// have.
pub proof fn law_a_believable_envelope_can_be_tuned(tuning: Tuning, stock: Limits)
    requires
        stock.pl1_uw is Some ==> stock.pl1_uw->0 <= MAX_SANE_UW,
        stock.pl2_uw is Some ==> stock.pl2_uw->0 <= MAX_SANE_UW,
    ensures
        tuning.fits(stock),
{
    if stock.pl1_uw is Some {
        let s = stock.pl1_uw->0;
        let p = tuning.pl1_percent;
        assert((s / 100) * p <= 5_000_000 * 255) by (nonlinear_arith)
            requires
                s <= 500_000_000,
                p <= 255,
        ;
    }
    if stock.pl2_uw is Some {
        let s = stock.pl2_uw->0;
        let p = tuning.pl2_percent;
        assert((s / 100) * p <= 5_000_000 * 255) by (nonlinear_arith)
            requires
                s <= 500_000_000,
                p <= 255,
        ;
    }
}

pub open spec fn no_more_than(a: Option<u64>, b: Option<u64>) -> bool {
    match (a, b) {
        (Some(x), Some(y)) => x <= y,
        _ => true,
    }
}

/// Nothing ever asks for more than stock: each limit that is commanded has a
/// stock value and is no higher.
pub proof fn law_nothing_asks_for_more_than_stock(asked: Limits, stock: Limits, which: int)
    requires
        0 <= which < 3,
    ensures
        match asked.under_stock(stock).nth(which) {
            Some(v) => stock.nth(which) is Some && v <= stock.nth(which)->0,
            None => true,
        },
{
}

/// So nothing that is written for a mode is above what the firmware shipped.
pub proof fn law_no_write_is_above_stock(
    zone: ZoneView,
    asked: Limits,
    stock: Limits,
    from: int,
)
    requires
        0 <= from,
    ensures
        match next_needed(zone, asked.under_stock(stock), from) {
            Some(w) => w.which < 3 && stock.nth(w.which as int) is Some && w.value <= stock.nth(
                w.which as int,
            )->0,
            None => true,
        },
    decreases 3 - from,
{
    if from < 3 {
        law_nothing_asks_for_more_than_stock(asked, stock, from);
        law_no_write_is_above_stock(zone, asked, stock, from + 1);
    }
}

/// Where the stock limits are in order and survivable, no cap is lower than the
/// floor.
pub proof fn law_no_cap_is_below_the_floor(asked: Limits, stock: Limits, which: int)
    requires
        0 <= which < 3,
        forall|k: int| 0 <= k < 3 && #[trigger] stock.nth(k) is Some ==> stock.nth(k)->0
            >= FLOOR_UW,
    ensures
        match asked.under_stock(stock).nth(which) {
            Some(v) => v >= FLOOR_UW,
            None => true,
        },
{
    assert(stock.nth(0) == stock.pl1_uw);
    assert(stock.nth(1) == stock.pl2_uw);
    assert(stock.nth(2) == stock.pl4_uw);
}

/// Without a recorded stock value nothing is commanded.
pub proof fn law_without_stock_nothing_is_commanded(asked: Limits)
    ensures
        asked.under_stock(no_limits()).empty(),
{
}

/// Ordering leaves the sustained limit under the boost limit and that under
/// the peak, raises nothing, and does nothing more when it is done again.
pub proof fn law_limits_are_lowered_into_order(limits: Limits)
    ensures
        no_more_than(limits.in_order().pl1_uw, limits.in_order().pl2_uw),
        no_more_than(limits.in_order().pl2_uw, limits.in_order().pl4_uw),
        no_more_than(limits.in_order().pl1_uw, limits.in_order().pl4_uw),
        no_more_than(limits.in_order().pl1_uw, limits.pl1_uw),
        no_more_than(limits.in_order().pl2_uw, limits.pl2_uw),
        limits.in_order().in_order() == limits.in_order(),
{
}

/// A mode that nobody tuned asks for the machine's own envelope, untouched.
pub proof fn law_an_untuned_mode_asks_for_the_machines_own_envelope(stock: Limits)
    ensures
        untouched().fits(stock),
        untouched().asks(stock) == stock,
{
}

/// A tuning is a share of the envelope, so it never asks for more than it.
pub proof fn law_a_tuning_asks_for_no_more_than_the_envelope(
    tuning: Tuning,
    stock: Limits,
    which: int,
)
    requires
        tuning.pl1_percent <= 100,
        tuning.pl2_percent <= 100,
        0 <= which < 3,
    ensures
        no_more_than(tuning.asks(stock).nth(which), stock.nth(which)),
{
    if stock.pl1_uw is Some {
        let s = stock.pl1_uw->0;
        let p = tuning.pl1_percent;
        assert((s / 100) * p <= s) by (nonlinear_arith)
            requires
                p <= 100,
        ;
    }
    if stock.pl2_uw is Some {
        let s = stock.pl2_uw->0;
        let p = tuning.pl2_percent;
        assert((s / 100) * p <= s) by (nonlinear_arith)
            requires
                p <= 100,
        ;
    }
}

/// A zone that names its constraints, but not this one, has no such limit.
pub proof fn law_a_named_zone_is_taken_at_its_word(zone: ZoneView, name: Seq<char>, usual: int)
    requires
        zone.names_any(),
        forall|i: int|
            0 <= i < 8 && #[trigger] text_at(zone.names, i) is Some ==> text::trim(
                text_at(zone.names, i)->0,
            ) != name,
    ensures
        zone.index_of(name, usual) is None,
{
    lemma_unnamed(zone, name, 0);
}

proof fn lemma_unnamed(zone: ZoneView, name: Seq<char>, from: int)
    requires
        0 <= from,
        forall|i: int|
            0 <= i < 8 && #[trigger] text_at(zone.names, i) is Some ==> text::trim(
                text_at(zone.names, i)->0,
            ) != name,
    ensures
        zone.named(name, from) is None,
    decreases 8 - from,
{
    if from < 8 {
        lemma_unnamed(zone, name, from + 1);
    }
}

/// Putting limits in order lowers each to the lowest of those above it, and no
/// further; none is lost and the peak stays.
pub proof fn law_ordering_lowers_no_further_than_it_must(
    limits: Limits,
    pl1: u64,
    pl2: u64,
    pl4: u64,
)
    ensures
        limits.in_order().pl4_uw == limits.pl4_uw,
        limits.in_order().pl1_uw is Some <==> limits.pl1_uw is Some,
        limits.in_order().pl2_uw is Some <==> limits.pl2_uw is Some,
        limits == (Limits { pl1_uw: Some(pl1), pl2_uw: Some(pl2), pl4_uw: Some(pl4) }) ==> {
            &&& limits.in_order().pl2_uw == Some(
                if pl2 <= pl4 {
                    pl2
                } else {
                    pl4
                },
            )
            &&& limits.in_order().pl1_uw == Some(
                if pl1 <= pl2 && pl1 <= pl4 {
                    pl1
                } else if pl2 <= pl4 {
                    pl2
                } else {
                    pl4
                },
            )
        },
        limits.pl1_uw == Some(pl1) && limits.pl2_uw is None && limits.pl4_uw == Some(pl4)
            ==> limits.in_order().pl1_uw == Some(
            if pl1 <= pl4 {
                pl1
            } else {
                pl4
            },
        ),
        limits.pl2_uw is None && limits.pl4_uw is None ==> limits.in_order() == limits,
{
}

/// Limits between 5 watts and stock that are in order are commanded as they were
/// asked for. What is above stock is brought down to it, and what is below 5
/// watts up to that, or to stock where stock is less.
pub proof fn law_sound_limits_are_commanded_as_asked(asked: Limits, stock: Limits, which: int)
    requires
        0 <= which < 3,
        asked.pl1_uw is Some && asked.pl2_uw is Some && asked.pl4_uw is Some,
        stock.pl1_uw is Some && stock.pl2_uw is Some && stock.pl4_uw is Some,
        stock.pl1_uw->0 <= stock.pl2_uw->0 <= stock.pl4_uw->0,
        asked.pl1_uw->0 <= asked.pl2_uw->0 <= asked.pl4_uw->0,
    ensures
        ({
            let a = asked.nth(which)->0;
            let s = stock.nth(which)->0;
            asked.under_stock(stock).nth(which) == Some(
                if a > s {
                    s
                } else if a >= 5_000_000 {
                    a
                } else if s < 5_000_000 {
                    s
                } else {
                    5_000_000
                },
            )
        }),
{
}

/// A value below one watt or above 500 is not believed, and every other is.
pub proof fn law_absurd_limits_are_dropped(limits: Limits, which: int)
    requires
        0 <= which < 3,
    ensures
        limits.believable().nth(which) == (match limits.nth(which) {
            Some(v) => if 1_000_000 <= v <= 500_000_000 {
                Some(v)
            } else {
                None
            },
            None => None,
        }),
{
}

/// A tuning asks for its own share of each limit: the sustained percentage of
/// the sustained limit, the boost percentage of the boost limit, to within a
/// hundredth of the percentage, and for the peak as it is.
pub proof fn law_a_tuning_is_a_share_of_each_limit(tuning: Tuning, stock: Limits, s1: u64, s2: u64)
    requires
        stock.pl1_uw == Some(s1),
        stock.pl2_uw == Some(s2),
        tuning.fits(stock),
    ensures
        tuning.asks(stock).pl4_uw == stock.pl4_uw,
        tuning.asks(stock).pl1_uw matches Some(v) && s1 * tuning.pl1_percent - 100
            * tuning.pl1_percent <= 100 * v <= s1 * tuning.pl1_percent,
        tuning.asks(stock).pl2_uw matches Some(v) && s2 * tuning.pl2_percent - 100
            * tuning.pl2_percent <= 100 * v <= s2 * tuning.pl2_percent,
        tuning.pl1_percent == 100 ==> tuning.asks(stock).pl1_uw == Some(s1),
        tuning.pl2_percent == 100 ==> tuning.asks(stock).pl2_uw == Some(s2),
        stock.pl1_uw is None ==> tuning.asks(stock).pl1_uw is None,
{
    lemma_share_of(s1 as int, tuning.pl1_percent as int);
    lemma_share_of(s2 as int, tuning.pl2_percent as int);
}

proof fn lemma_share_of(s: int, p: int)
    requires
        0 <= s,
        0 <= p,
    ensures
        s * p - 100 * p <= 100 * ((s / 100) * p) <= s * p,
{
    let q = s / 100;
    assert(s * p - 100 * p <= 100 * (q * p) <= s * p) by (nonlinear_arith)
        requires
            0 <= p,
            100 * q <= s < 100 * q + 100,
    ;
}

/// What is written to the turbo knob reads back as what was asked for, whichever
/// of the two knobs it is. Nothing is written where turbo is as asked or there
/// is no knob, and something is in every other case.
pub proof fn law_the_turbo_knob_reads_back(
    knob: Option<TurboKnob>,
    now: Option<bool>,
    enabled: bool,
)
    ensures
        turbo_to_write(knob, now, enabled) is Some <==> knob is Some && now != Some(enabled),
        turbo_to_write(knob, now, enabled) matches Some(s) ==> turbo_now(knob, Some(s)) == Some(
            enabled,
        ),
        knob matches Some(TurboKnob::Boost(_)) ==> turbo_now(knob, Some("1"@)) == Some(true),
        knob matches Some(TurboKnob::NoTurbo(_)) ==> turbo_now(knob, Some("0"@)) == Some(true),
        turbo_now(knob, None) is None,
{
    reveal_strlit("0");
    reveal_strlit("1");
    assert("0"@ =~= seq!['0']);
    assert("1"@ =~= seq!['1']);
    assert("0"@.last() == '0' && "1"@.last() == '1');
    assert(text::trim("0"@) == "0"@);
    assert(text::trim("1"@) == "1"@);
    assert("0"@[0] != "1"@[0]);
}

/// A turbo setting counts as taken exactly where the write went through and the
/// knob then reads as asked.
pub proof fn law_turbo_is_believed_when_it_reads_back(
    enabled: bool,
    written: Result<(), Seq<char>>,
    now: Option<bool>,
)
    ensures
        turbo_said(enabled, written, now) is Ok <==> written is Ok && now == Some(enabled),
        turbo_said(true, Ok(()), Some(true)) == Ok::<Seq<char>, Seq<char>>("turbo="@ + "on"@),
        turbo_said(false, Ok(()), Some(false)) == Ok::<Seq<char>, Seq<char>>("turbo="@ + "off"@),
{
}

/// The limits a zone shows: what is named `long_term` is the sustained one,
/// `short_term` the boost one and `peak_power` the peak, wherever they are.
pub proof fn law_limits_are_known_by_their_names(zone: ZoneView, i: int)
    requires
        0 <= i < 8,
        text_at(zone.names, i) is Some,
        forall|j: int|
            0 <= j < i ==> (text_at(zone.names, j) is Some ==> text::trim(
                (#[trigger] text_at(zone.names, j))->0,
            ) != text::trim(text_at(zone.names, i)->0)),
    ensures
        text::trim(text_at(zone.names, i)->0) == "long_term"@ ==> zone.limits_now().pl1_uw
            == zone.limit_at(i),
        text::trim(text_at(zone.names, i)->0) == "short_term"@ ==> zone.limits_now().pl2_uw
            == zone.limit_at(i),
        text::trim(text_at(zone.names, i)->0) == "peak_power"@ ==> zone.limits_now().pl4_uw
            == zone.limit_at(i),
{
    lemma_found_by_name(zone, i, 0);
}

proof fn lemma_found_by_name(zone: ZoneView, i: int, from: int)
    requires
        0 <= from <= i < 8,
        text_at(zone.names, i) is Some,
        forall|j: int|
            0 <= j < i ==> (text_at(zone.names, j) is Some ==> text::trim(
                (#[trigger] text_at(zone.names, j))->0,
            ) != text::trim(text_at(zone.names, i)->0)),
    ensures
        zone.named(text::trim(text_at(zone.names, i)->0), from) == Some(i),
    decreases i - from,
{
    if from < i {
        assert(text_at(zone.names, from) is Some ==> text::trim(text_at(zone.names, from)->0)
            != text::trim(text_at(zone.names, i)->0));
        lemma_found_by_name(zone, i, from + 1);
    }
}

/// A zone that names none of its constraints has them in their usual places.
pub proof fn law_an_unnamed_zone_has_the_usual_order(zone: ZoneView)
    requires
        forall|i: int| 0 <= i < 8 ==> #[trigger] text_at(zone.names, i) is None,
    ensures
        zone.limits_now().pl1_uw == zone.limit_at(0),
        zone.limits_now().pl2_uw == zone.limit_at(1),
        zone.limits_now().pl4_uw == zone.limit_at(2),
{
    lemma_unnamed(zone, "long_term"@, 0);
    lemma_unnamed(zone, "short_term"@, 0);
    lemma_unnamed(zone, "peak_power"@, 0);
}

/// Each limit is written where its own constraint is, with the value asked for
/// it: exactly where one is asked for, the constraint has a file, and that does
/// not hold the value already.
pub proof fn law_each_limit_goes_to_its_constraint(zone: ZoneView, target: Limits)
    ensures
        forall|which: int| #![trigger write_needed(zone, target, which)]
            0 <= which < 3 ==> {
                let wanted = if which == 0 {
                    target.pl1_uw
                } else if which == 1 {
                    target.pl2_uw
                } else {
                    target.pl4_uw
                };
                let at = zone.index_of(
                    if which == 0 {
                        "long_term"@
                    } else if which == 1 {
                        "short_term"@
                    } else {
                        "peak_power"@
                    },
                    which,
                );
                match write_needed(zone, target, which) {
                    Some(w) => wanted == Some(w.value) && at == Some(w.constraint as int)
                        && w.which == which && zone.limit_at(w.constraint as int) != Some(w.value)
                        && zone.present[w.constraint as int],
                    None => wanted is None || at is None || !(0 <= at->0 < zone.present.len()
                        && zone.present[at->0]) || zone.limit_at(at->0) == wanted,
                }
            },
{
    assert forall|name: Seq<char>, usual: int| 0 <= usual < 3 implies (#[trigger] zone.index_of(
        name,
        usual,
    ) matches Some(i) ==> 0 <= i < 8) by {
        lemma_named_in_range(zone, name, 0);
    }
}

proof fn lemma_named_in_range(zone: ZoneView, name: Seq<char>, from: int)
    requires
        0 <= from,
    ensures
        zone.named(name, from) matches Some(i) ==> 0 <= i < 8,
    decreases 8 - from,
{
    if from < 8 {
        lemma_named_in_range(zone, name, from + 1);
    }
}

/// No limit that needs writing is passed over: the next write is the first one
/// needed, in the order of sustained, boost and peak.
pub proof fn law_no_needed_write_is_passed_over(zone: ZoneView, target: Limits, from: int, k: int)
    requires
        0 <= from <= k < 3,
    ensures
        write_needed(zone, target, k) is Some ==> (next_needed(zone, target, from) matches Some(w)
            && w.which <= k),
        next_needed(zone, target, from) matches Some(w) ==> from <= w.which < 3 && write_needed(
            zone,
            target,
            w.which as int,
        ) == Some(w),
    decreases 3 - from,
{
    if from < k {
        law_no_needed_write_is_passed_over(zone, target, from + 1, k);
    } else if from < 2 && write_needed(zone, target, from) is None {
        law_no_needed_write_is_passed_over(zone, target, from + 1, 2);
    }
}

/// A limit counts as taken exactly where it reads back within a watt of what was
/// written; what is reported is what it reads.
pub proof fn law_a_limit_is_believed_when_it_reads_back(write: LimitWrite, got: u64, e: Seq<char>)
    ensures
        limit_said(write, WrittenView::ReadBack(Some(got))) is Ok <==> (got <= write.value
            + 1_000_000 && write.value <= got + 1_000_000),
        limit_said(write, WrittenView::ReadBack(Some(got))) matches Ok(said) ==> said == (
        if write.which == 0 {
            "PL1"@
        } else if write.which == 1 {
            "PL2"@
        } else {
            "PL4"@
        }) + "="@ + number::decimal((got / 1_000_000) as nat) + "W"@,
        limit_said(write, WrittenView::ReadBack(None)) is Err,
        limit_said(write, WrittenView::Refused(e)) is Err,
{
}

/// Limits are written exactly where there is a zone and something to write, the
/// zone is not switched off and the firmware has not locked it. A zone that is
/// off is reported, and a lock only where it is in the way.
pub proof fn law_when_limits_are_not_written(paths: LimitPaths, zone: ZoneView, target: Limits)
    ensures
        held_back(paths, zone, target) is None <==> paths.zone is Some && (target.pl1_uw is Some
            || target.pl2_uw is Some || target.pl4_uw is Some) && (zone.enabled matches Some(s)
            ==> text::trim(s) != "0"@) && zone.lock(paths.msr_root is Some) is None,
        paths.zone is Some && target.pl1_uw is Some && (zone.enabled matches Some(s) && text::trim(
            s,
        ) == "0"@) ==> held_back(paths, zone, target)->0.len() == 1,
        held_back(paths, zone, target) matches Some(said) ==> said.len() <= 1,
        paths.zone is Some && (zone.enabled is None) && zone.lock(paths.msr_root is Some) is Some
            && target.pl1_uw is Some && target.pl1_uw != zone.limits_now().pl1_uw ==> held_back(
            paths,
            zone,
            target,
        )->0.len() == 1,
{
}

/// The zone's own word on the lock counts before the register's, and the
/// register is only looked at where that was allowed.
pub proof fn law_the_zones_word_on_the_lock_counts_first(zone: ZoneView, look: bool, s: Seq<char>)
    ensures
        zone.locked == Some(s) ==> zone.lock(look) == (if text::trim(s) == "1"@ {
            Some(LockSource::Sysfs)
        } else {
            None
        }),
        zone.locked is None && !look ==> zone.lock(look) is None,
        zone.locked is None && look ==> (zone.msr matches Some(bytes) ==> (bytes.len() == 8 ==> (
        zone.lock(look) == Some(LockSource::Msr) <==> bytes[7] >= 128))),
        zone.locked is None && zone.msr is None ==> zone.lock(look) is None,
{
    if zone.msr is Some && zone.msr->0.len() == 8 {
        lemma_highest_bit(zone.msr->0);
    }
}

/// The zone that is used is a package's, not a mirror of one nor a part of one,
/// and no package's zone comes before it by name; there is none only where no
/// package has a zone.
pub proof fn law_the_first_package_is_used(entries: Seq<ZoneEntry>, i: int)
    requires
        0 <= i < entries.len(),
        text::starts_with(entries[i].name@, "intel-rapl:"@),
        !text::contains(entries[i].name@, "mmio"@),
        entries[i].label is Some,
        text::starts_with(text::trim((entries[i].label->0)@), "package-"@),
    ensures
        first_package(entries) matches Some(e) && !text::precedes(entries[i].name@, e.name@)
            && text::starts_with(e.name@, "intel-rapl:"@) && !text::contains(e.name@, "mmio"@)
            && e.label is Some && text::starts_with(text::trim((e.label->0)@), "package-"@)
            && entries.contains(e),
    decreases entries.len(),
{
    let rest = entries.drop_last();
    let last = entries.last();
    lemma_package_is_one_of(rest);
    lemma_package_is_one_of(entries);
    if i < rest.len() {
        law_the_first_package_is_used(rest, i);
        let before = first_package(rest)->0;
        if is_package(last) && text::precedes(last.name@, before.name@) {
            if text::precedes(entries[i].name@, last.name@) {
                text::lemma_precedes_transitive(entries[i].name@, last.name@, before.name@);
            }
        }
    } else {
        text::lemma_not_before_itself(last.name@);
    }
}

proof fn lemma_package_is_one_of(entries: Seq<ZoneEntry>)
    ensures
        first_package(entries) matches Some(e) ==> is_package(e) && entries.contains(e),
    decreases entries.len(),
{
    if entries.len() > 0 {
        let rest = entries.drop_last();
        lemma_package_is_one_of(rest);
        assert(entries[entries.len() - 1] == entries.last());
        if first_package(rest) is Some {
            let e = first_package(rest)->0;
            let k = choose|k: int| 0 <= k < rest.len() && rest[k] == e;
            assert(entries[k] == e);
        }
    }
}

/// The knob that turns turbo off is used where it is there, and otherwise the
/// one that turns it on.
pub proof fn law_the_knob_that_is_there_is_used(no_turbo: Option<Seq<char>>, boost: Option<
    Seq<char>,
>, path: Seq<char>)
    ensures
        no_turbo == Some(path) ==> knob_found(no_turbo, boost) == Some((false, path)),
        no_turbo is None && boost == Some(path) ==> knob_found(no_turbo, boost) == Some(
            (true, path),
        ),
        no_turbo is None && boost is None ==> knob_found(no_turbo, boost) is None,
{
}

/// The zone of the first package is used, with the knob that is there; a machine
/// without a package has no zone.
pub proof fn law_the_machine_is_known_by_its_files(
    entries: &Vec<ZoneEntry>,
    no_turbo: Option<String>,
    boost: Option<String>,
    msr: String,
    r: LimitPaths,
)
    requires
        call_ensures(LimitPaths::discover, (entries, no_turbo, boost, msr), r),
    ensures
        r.zone is Some <==> first_package(entries@) is Some,
        first_package(entries@) matches Some(e) ==> text::opt_view(r.zone) == Some(e.path@),
        r.msr_root == Some(msr),
        no_turbo is Some ==> (r.turbo matches Some(TurboKnob::NoTurbo(_))),
        no_turbo is None && boost is Some ==> (r.turbo matches Some(TurboKnob::Boost(_))),
        no_turbo is None && boost is None ==> r.turbo is None,
{
}

/// A machine without a zone is not locked.
pub proof fn law_a_lock_is_of_the_zone(
    paths: &LimitPaths,
    zone: &ZoneReading,
    r: Option<LockSource>,
)
    requires
        call_ensures(locked, (paths, zone), r),
    ensures
        paths.zone is None ==> r is None,
        paths.zone is Some ==> r == zone@.lock(paths.msr_root is Some),
{
}

/// A run of writes goes through the limits in their order, records each by what
/// came of it, and is over after the third.
pub proof fn law_a_run_goes_through_the_limits(
    run: &mut LimitRun,
    zone: &ZoneReading,
    next: Option<LimitWrite>,
)
    requires
        call_ensures(LimitRun::next, (run, zone), next),
        old(run).at <= 3,
    ensures
        next matches Some(w) ==> old(run).at <= w.which < 3 && final(run).at == w.which,
        next is None ==> final(run).at == 3,
        final(run).target == old(run).target,
        final(run).applied == old(run).applied && final(run).failed == old(run).failed,
{
    law_no_needed_write_is_passed_over(
        zone@,
        old(run).target,
        if old(run).at < 3 {
            old(run).at as int
        } else {
            2
        },
        2,
    );
}

/// Each write of a run is recorded by what came of it, once, and the run moves on.
pub proof fn law_each_write_is_recorded(run: &mut LimitRun, write: LimitWrite, outcome: Written)
    requires
        write.which < 3,
        call_ensures(LimitRun::record, (run, write, outcome), ()),
    ensures
        final(run).at == write.which + 1,
        final(run).target == old(run).target,
        final(run).applied@.len() + final(run).failed@.len() == old(run).applied@.len() + old(run).failed@.len() + 1,
        limit_said(write, outcome@) is Ok <==> final(run).applied@.len() == old(run).applied@.len()
            + 1,
{
    assert(text::views(final(run).applied@).len() == final(run).applied@.len());
    assert(text::views(final(run).failed@).len() == final(run).failed@.len());
    assert(text::views(old(run).applied@).len() == old(run).applied@.len());
    assert(text::views(old(run).failed@).len() == old(run).failed@.len());
}

/// A machine without a zone has no limits to read, and one with a zone has the
/// zone's.
pub proof fn law_limits_are_read_from_the_zone(paths: LimitPaths, zone: ZoneView)
    ensures
        paths.zone is None ==> limits_read(paths, zone) == (Limits {
            pl1_uw: None,
            pl2_uw: None,
            pl4_uw: None,
        }),
        paths.zone is Some ==> limits_read(paths, zone) == zone.limits_now(),
{
}

} // verus!
