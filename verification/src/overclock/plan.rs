//! What is asked for, what the machine will take, and how to get there.
//!
//! Nothing is asked for that the driver has not advertised; the climb is made
//! in steps; going back is one move.
use vstd::prelude::*;

use crate::msg;
use crate::msg::Msg;
use crate::msg::MsgView;
use crate::number;

verus! {

/// How much the core offset may move in one step of the climb.
pub const CORE_STEP_MHZ: i32 = 15;

/// The same for memory, which moves in bigger numbers.
pub const MEM_STEP_MHZ: i32 = 50;

/// An inclusive range the driver itself advertised.
#[derive(Debug, Clone, Copy, PartialEq, Eq, Structural)]
pub struct Range {
    pub min: i32,
    pub max: i32,
}

impl Range {
    /// The ends are the right way round.
    pub open spec fn ordered(self) -> bool {
        self.min <= self.max
    }

    pub open spec fn holds(self, value: int) -> bool {
        self.min <= value <= self.max
    }

    /// The value of the range that is nearest to the given one.
    pub open spec fn nearest(self, value: int) -> int {
        if value < self.min {
            self.min as int
        } else if value > self.max {
            self.max as int
        } else {
            value
        }
    }

    pub fn new(min: i32, max: i32) -> (r: Range)
        ensures
            r == (Range { min, max }),
    {
        Range { min, max }
    }

    pub fn clamp(&self, value: i32) -> (r: i32)
        requires
            self.ordered(),
        ensures
            r == self.nearest(value as int),
            self.holds(r as int),
    {
        if value < self.min {
            self.min
        } else if value > self.max {
            self.max
        } else {
            value
        }
    }

    pub fn contains(&self, value: i32) -> (r: bool)
        ensures
            r == self.holds(value as int),
    {
        value >= self.min && value <= self.max
    }
}

/// Clocks pinned to a range inside the stock one.
#[derive(Debug, Clone, Copy, PartialEq, Eq, Structural)]
pub struct ClockLock {
    pub min_mhz: i32,
    pub max_mhz: i32,
}

/// What the user asked this GPU to run at. Every field's zero value is stock.
#[derive(Debug, Clone, Copy, PartialEq, Eq, Structural)]
pub struct Target {
    pub core_offset_mhz: i32,
    pub mem_offset_mhz: i32,
    /// `None` means the driver picks the clock.
    pub core_clock: Option<ClockLock>,
}

/// The card as the firmware left it.
pub open spec fn stock() -> Target {
    Target { core_offset_mhz: 0, mem_offset_mhz: 0, core_clock: None }
}

impl Default for Target {
    fn default() -> (r: Target)
        ensures
            r == stock(),
    {
        Target { core_offset_mhz: 0, mem_offset_mhz: 0, core_clock: None }
    }
}

impl Target {
    /// Whether this is the card as the firmware left it: the one state that
    /// needs no consent, no confirmation and no watchdog.
    pub fn is_stock(&self) -> (r: bool)
        ensures
            r == (*self == stock()),
    {
        self.core_offset_mhz == 0 && self.mem_offset_mhz == 0 && self.core_clock.is_none()
    }
}

/// What a card advertised it will accept. A `None` is a knob the card does not
/// have, not a knob with a range of zero.
#[derive(Debug, Clone, Copy, PartialEq, Eq, Structural)]
pub struct Ceiling {
    pub core_offset: Option<Range>,
    pub mem_offset: Option<Range>,
    /// The frequencies the card lists as supported, ends inclusive.
    pub clock: Option<Range>,
}

impl Default for Ceiling {
    fn default() -> (r: Ceiling)
        ensures
            r == (Ceiling { core_offset: None, mem_offset: None, clock: None }),
    {
        Ceiling { core_offset: None, mem_offset: None, clock: None }
    }
}

pub open spec fn range_ordered(r: Option<Range>) -> bool {
    match r {
        Some(r) => r.ordered(),
        None => true,
    }
}

impl Ceiling {
    /// Every range the card has is the right way round.
    pub open spec fn ordered(self) -> bool {
        &&& range_ordered(self.core_offset)
        &&& range_ordered(self.mem_offset)
        &&& range_ordered(self.clock)
    }

    /// Whether every range the card has is the right way round.
    pub fn is_ordered(&self) -> (r: bool)
        ensures
            r == self.ordered(),
    {
        fn_range_ordered(&self.core_offset) && fn_range_ordered(&self.mem_offset)
            && fn_range_ordered(&self.clock)
    }

    /// A target asks for nothing the card does not have and for nothing
    /// outside what it advertises.
    pub open spec fn admits(self, target: Target) -> bool {
        &&& match self.core_offset {
            Some(r) => r.holds(target.core_offset_mhz as int),
            None => target.core_offset_mhz == 0,
        }
        &&& match self.mem_offset {
            Some(r) => r.holds(target.mem_offset_mhz as int),
            None => target.mem_offset_mhz == 0,
        }
        &&& match (target.core_clock, self.clock) {
            (Some(lock), Some(r)) => r.holds(lock.min_mhz as int) && r.holds(lock.max_mhz as int)
                && lock.min_mhz <= lock.max_mhz,
            (Some(_), None) => false,
            (None, _) => true,
        }
    }
}

fn fn_range_ordered(r: &Option<Range>) -> (b: bool)
    ensures
        b == range_ordered(*r),
{
    match r {
        Some(r) => r.min <= r.max,
        None => true,
    }
}

/// A request, made safe: what will actually be written, and every way in
/// which that differs from what was asked for.
#[derive(Debug, Clone)]
pub struct Clamped {
    pub target: Target,
    /// One line per difference; empty when the request survived untouched.
    pub notes: Vec<Msg>,
}

// --- the notes -----------------------------------------------------------

pub open spec fn mhz(n: int) -> Seq<char> {
    number::decimal_int(n)
}

pub open spec fn range_params(requested: int, range: Range, used: int) -> Seq<
    (Seq<char>, Seq<char>),
> {
    seq![
        ("requested"@, mhz(requested)),
        ("min"@, mhz(range.min as int)),
        ("max"@, mhz(range.max as int)),
        ("used"@, mhz(used)),
    ]
}

pub open spec fn core_out_of_range(requested: int, range: Range, used: int) -> MsgView {
    msg::message(
        "overclock.clamp.coreOutOfRange"@,
        range_params(requested, range, used),
        "core offset {requested} MHz is outside what the driver advertises ({min} to {max} MHz); using {used} MHz"@,
    )
}

pub open spec fn mem_out_of_range(requested: int, range: Range, used: int) -> MsgView {
    msg::message(
        "overclock.clamp.memOutOfRange"@,
        range_params(requested, range, used),
        "memory offset {requested} MHz is outside what the driver advertises ({min} to {max} MHz); using {used} MHz"@,
    )
}

pub open spec fn no_core_offset() -> MsgView {
    msg::message(
        "overclock.clamp.noCoreOffset"@,
        seq![],
        "this GPU exposes no core-clock offset, so that part was ignored"@,
    )
}

pub open spec fn no_mem_offset() -> MsgView {
    msg::message(
        "overclock.clamp.noMemOffset"@,
        seq![],
        "this GPU exposes no memory offset, so that part was ignored"@,
    )
}

pub open spec fn no_clock_lock() -> MsgView {
    msg::message(
        "overclock.clamp.noClockLock"@,
        seq![],
        "this GPU cannot have its clocks pinned, so that part was ignored"@,
    )
}

pub open spec fn lock_out_of_range(lock: ClockLock, range: Range, used: ClockLock) -> MsgView {
    msg::message(
        "overclock.clamp.lockOutOfRange"@,
        seq![
            ("reqMin"@, mhz(lock.min_mhz as int)),
            ("reqMax"@, mhz(lock.max_mhz as int)),
            ("min"@, mhz(range.min as int)),
            ("max"@, mhz(range.max as int)),
            ("usedMin"@, mhz(used.min_mhz as int)),
            ("usedMax"@, mhz(used.max_mhz as int)),
        ],
        "clock lock {reqMin}-{reqMax} MHz is outside what this GPU supports ({min} to {max} MHz); using {usedMin}-{usedMax} MHz"@,
    )
}

// --- clamping ------------------------------------------------------------

/// An offset, cut down to what the driver takes.
pub open spec fn offset_within(requested: i32, range: Option<Range>) -> int {
    match range {
        Some(r) => r.nearest(requested as int),
        None => 0,
    }
}

/// A lock the right way up: a pair that is upside down is swapped.
pub open spec fn upright(lock: ClockLock) -> ClockLock {
    if lock.max_mhz < lock.min_mhz {
        ClockLock { min_mhz: lock.max_mhz, max_mhz: lock.min_mhz }
    } else {
        lock
    }
}

/// A lock the right way up, cut down to the clocks the card lists.
pub open spec fn lock_within(lock: ClockLock, range: Range) -> ClockLock {
    ClockLock {
        min_mhz: range.nearest(upright(lock).min_mhz as int) as i32,
        max_mhz: range.nearest(upright(lock).max_mhz as int) as i32,
    }
}

/// The part of a request that the card takes.
pub open spec fn within(request: Target, ceiling: Ceiling) -> Target {
    Target {
        core_offset_mhz: offset_within(request.core_offset_mhz, ceiling.core_offset) as i32,
        mem_offset_mhz: offset_within(request.mem_offset_mhz, ceiling.mem_offset) as i32,
        core_clock: match (request.core_clock, ceiling.clock) {
            (Some(lock), Some(range)) => Some(lock_within(lock, range)),
            _ => None,
        },
    }
}

/// What is said of the core offset.
pub open spec fn core_notes(request: Target, ceiling: Ceiling) -> Seq<MsgView> {
    let asked = request.core_offset_mhz as int;
    match ceiling.core_offset {
        Some(range) => if range.nearest(asked) != asked {
            seq![core_out_of_range(asked, range, range.nearest(asked))]
        } else {
            seq![]
        },
        None => if asked != 0 {
            seq![no_core_offset()]
        } else {
            seq![]
        },
    }
}

/// What is said of the memory offset.
pub open spec fn mem_notes(request: Target, ceiling: Ceiling) -> Seq<MsgView> {
    let asked = request.mem_offset_mhz as int;
    match ceiling.mem_offset {
        Some(range) => if range.nearest(asked) != asked {
            seq![mem_out_of_range(asked, range, range.nearest(asked))]
        } else {
            seq![]
        },
        None => if asked != 0 {
            seq![no_mem_offset()]
        } else {
            seq![]
        },
    }
}

/// What is said of the clock lock. Having been swapped is not remarked upon.
pub open spec fn lock_notes(request: Target, ceiling: Ceiling) -> Seq<MsgView> {
    match (request.core_clock, ceiling.clock) {
        (Some(lock), Some(range)) => if lock_within(lock, range) != upright(lock) {
            seq![lock_out_of_range(lock, range, lock_within(lock, range))]
        } else {
            seq![]
        },
        (Some(_), None) => seq![no_clock_lock()],
        (None, _) => seq![],
    }
}

/// Everything that is said about the difference between a request and what
/// the card takes of it.
pub open spec fn clamp_notes(request: Target, ceiling: Ceiling) -> Seq<MsgView> {
    core_notes(request, ceiling) + mem_notes(request, ceiling) + lock_notes(request, ceiling)
}

fn mhz_param(name: &str, n: i32) -> (r: msg::Param)
    ensures
        r.name@ == name@,
        r.value@ == mhz(n as int),
{
    msg::param(name, number::show_int(n as i64))
}

/// Cuts a request down to what the driver said it would take.
///
/// A knob the card does not have is dropped rather than refused.
pub fn clamp(request: Target, ceiling: &Ceiling) -> (r: Clamped)
    requires
        ceiling.ordered(),
    ensures
        r.target == within(request, *ceiling),
        msg::says(r.notes@) == clamp_notes(request, *ceiling),
{
    let mut notes: Vec<Msg> = Vec::new();
    let mut target = Target::default();

    match ceiling.core_offset {
        Some(range) => {
            target.core_offset_mhz = range.clamp(request.core_offset_mhz);
            if target.core_offset_mhz != request.core_offset_mhz {
                notes.push(
                    Msg::new(
                        "overclock.clamp.coreOutOfRange",
                        msg::four(
                            mhz_param("requested", request.core_offset_mhz),
                            mhz_param("min", range.min),
                            mhz_param("max", range.max),
                            mhz_param("used", target.core_offset_mhz),
                        ),
                        "core offset {requested} MHz is outside what the driver advertises ({min} to {max} MHz); using {used} MHz",
                    ),
                );
            }
        },
        None => {
            if request.core_offset_mhz != 0 {
                notes.push(
                    Msg::plain(
                        "overclock.clamp.noCoreOffset",
                        "this GPU exposes no core-clock offset, so that part was ignored",
                    ),
                );
            }
        },
    }
    proof {
        assert(msg::says(notes@) =~= core_notes(request, *ceiling));
    }
    let ghost after_core = notes@;

    match ceiling.mem_offset {
        Some(range) => {
            target.mem_offset_mhz = range.clamp(request.mem_offset_mhz);
            if target.mem_offset_mhz != request.mem_offset_mhz {
                notes.push(
                    Msg::new(
                        "overclock.clamp.memOutOfRange",
                        msg::four(
                            mhz_param("requested", request.mem_offset_mhz),
                            mhz_param("min", range.min),
                            mhz_param("max", range.max),
                            mhz_param("used", target.mem_offset_mhz),
                        ),
                        "memory offset {requested} MHz is outside what the driver advertises ({min} to {max} MHz); using {used} MHz",
                    ),
                );
            }
        },
        None => {
            if request.mem_offset_mhz != 0 {
                notes.push(
                    Msg::plain(
                        "overclock.clamp.noMemOffset",
                        "this GPU exposes no memory offset, so that part was ignored",
                    ),
                );
            }
        },
    }
    proof {
        assert(msg::says(notes@) =~= msg::says(after_core) + mem_notes(request, *ceiling));
    }
    let ghost after_mem = notes@;

    match (request.core_clock, ceiling.clock) {
        (Some(lock), Some(range)) => {
            // An upside-down pair is a slider that was dragged past its
            // partner: swapped rather than refused.
            let asked = if lock.max_mhz < lock.min_mhz {
                ClockLock { min_mhz: lock.max_mhz, max_mhz: lock.min_mhz }
            } else {
                lock
            };
            let min: i32 = range.clamp(asked.min_mhz);
            let max: i32 = range.clamp(asked.max_mhz);
            let clamped = ClockLock { min_mhz: min, max_mhz: max };
            if clamped.min_mhz != asked.min_mhz || clamped.max_mhz != asked.max_mhz {
                notes.push(
                    Msg::new(
                        "overclock.clamp.lockOutOfRange",
                        msg::six(
                            mhz_param("reqMin", lock.min_mhz),
                            mhz_param("reqMax", lock.max_mhz),
                            mhz_param("min", range.min),
                            mhz_param("max", range.max),
                            mhz_param("usedMin", min),
                            mhz_param("usedMax", max),
                        ),
                        "clock lock {reqMin}-{reqMax} MHz is outside what this GPU supports ({min} to {max} MHz); using {usedMin}-{usedMax} MHz",
                    ),
                );
            }
            target.core_clock = Some(clamped);
        },
        (Some(_), None) => {
            notes.push(
                Msg::plain(
                    "overclock.clamp.noClockLock",
                    "this GPU cannot have its clocks pinned, so that part was ignored",
                ),
            );
        },
        (None, _) => {},
    }
    proof {
        assert(msg::says(notes@) =~= msg::says(after_mem) + lock_notes(request, *ceiling));
    }
    Clamped { target, notes }
}

// --- the climb -----------------------------------------------------------

pub open spec fn distance(a: int, b: int) -> int {
    if a <= b {
        b - a
    } else {
        a - b
    }
}

/// The place reached from `from` by moving `d` towards `to` without passing it.
pub open spec fn towards(from: int, to: int, d: int) -> int {
    if distance(from, to) <= d {
        to
    } else if from < to {
        from + d
    } else {
        from - d
    }
}

/// How many moves of at most `step` a distance takes.
pub open spec fn moves(d: int, step: int) -> int {
    (d + step - 1) / step
}

/// How many steps the climb has: the longer of the two walks, and never none.
pub open spec fn climb_len(from: Target, to: Target) -> int {
    let core = moves(
        distance(from.core_offset_mhz as int, to.core_offset_mhz as int),
        CORE_STEP_MHZ as int,
    );
    let mem = moves(
        distance(from.mem_offset_mhz as int, to.mem_offset_mhz as int),
        MEM_STEP_MHZ as int,
    );
    if core <= 0 && mem <= 0 {
        1
    } else if core >= mem {
        core
    } else {
        mem
    }
}

/// Step `k` of the climb, counted from zero: both offsets walk at their own
/// pace, and the clock lock arrives with the last step.
pub open spec fn climb_step(from: Target, to: Target, k: int) -> Target {
    Target {
        core_offset_mhz: towards(
            from.core_offset_mhz as int,
            to.core_offset_mhz as int,
            (k + 1) * CORE_STEP_MHZ,
        ) as i32,
        mem_offset_mhz: towards(
            from.mem_offset_mhz as int,
            to.mem_offset_mhz as int,
            (k + 1) * MEM_STEP_MHZ,
        ) as i32,
        core_clock: if k == climb_len(from, to) - 1 {
            to.core_clock
        } else {
            from.core_clock
        },
    }
}

/// The whole climb, `to` included and `from` not.
pub open spec fn climb(from: Target, to: Target) -> Seq<Target> {
    Seq::new(climb_len(from, to) as nat, |k: int| climb_step(from, to, k))
}

/// One step of at most `step` towards `to`, in whichever direction that is.
fn step_towards(from: i32, to: i32, step: i32) -> (r: i32)
    requires
        0 < step,
    ensures
        r == towards(from as int, to as int, step as int),
{
    let distance: i64 = to as i64 - from as i64;
    if -(step as i64) <= distance && distance <= step as i64 {
        to
    } else if distance > 0 {
        from + step
    } else {
        from - step
    }
}

/// The intermediate targets between where the card is and where it is being
/// asked to go, `to` included and `from` not.
pub fn ramp(from: Target, to: Target) -> (r: Vec<Target>)
    ensures
        r@ == climb(from, to),
{
    let mut steps: Vec<Target> = Vec::new();
    let mut current = Target {
        core_offset_mhz: from.core_offset_mhz,
        mem_offset_mhz: from.mem_offset_mhz,
        core_clock: from.core_clock,
    };
    let ghost n = climb_len(from, to);
    while current.core_offset_mhz != to.core_offset_mhz || current.mem_offset_mhz
        != to.mem_offset_mhz
        invariant
            n == climb_len(from, to),
            steps@.len() <= n,
            current.core_clock == from.core_clock,
            current.core_offset_mhz == towards(
                from.core_offset_mhz as int,
                to.core_offset_mhz as int,
                steps@.len() * CORE_STEP_MHZ,
            ),
            current.mem_offset_mhz == towards(
                from.mem_offset_mhz as int,
                to.mem_offset_mhz as int,
                steps@.len() * MEM_STEP_MHZ,
            ),
            forall|k: int|
                0 <= k < steps@.len() ==> (#[trigger] steps@[k]).core_clock == from.core_clock
                    && steps@[k].core_offset_mhz == climb_step(from, to, k).core_offset_mhz
                    && steps@[k].mem_offset_mhz == climb_step(from, to, k).mem_offset_mhz,
            steps@.len() == 0 || steps@.len() < n || (current.core_offset_mhz
                == to.core_offset_mhz && current.mem_offset_mhz == to.mem_offset_mhz),
        decreases n - steps@.len(),
    {
        current.core_offset_mhz = step_towards(
            current.core_offset_mhz,
            to.core_offset_mhz,
            CORE_STEP_MHZ,
        );
        current.mem_offset_mhz = step_towards(
            current.mem_offset_mhz,
            to.mem_offset_mhz,
            MEM_STEP_MHZ,
        );
        steps.push(current);
    }
    let m: usize = steps.len();
    if m > 0 {
        let mut last = steps[m - 1];
        last.core_clock = to.core_clock;
        steps.set(m - 1, last);
    } else {
        steps.push(to);
    }
    proof {
        assert(steps@.len() == n);
        assert forall|k: int| 0 <= k < n implies steps@[k] == climb_step(from, to, k) by {}
        assert(steps@ =~= climb(from, to));
    }
    steps
}

// --- laws ----------------------------------------------------------------

/// Whatever is asked for, what will be written is within what the card
/// advertised.
pub proof fn law_clamped_is_admitted(request: Target, ceiling: Ceiling)
    requires
        ceiling.ordered(),
    ensures
        ceiling.admits(within(request, ceiling)),
{
}

/// A request inside what the card advertises is left alone and not remarked
/// upon.
pub proof fn law_admitted_is_untouched(request: Target, ceiling: Ceiling)
    requires
        ceiling.admits(request),
    ensures
        within(request, ceiling) == request,
        clamp_notes(request, ceiling) == Seq::<MsgView>::empty(),
{
    assert(clamp_notes(request, ceiling) =~= Seq::<MsgView>::empty());
}

/// Every difference between the request and what will be written is said, and
/// nothing is said where there is none. A lock that was asked for upside down
/// counts as the same lock the right way up.
pub proof fn law_notes_iff_changed(request: Target, ceiling: Ceiling)
    requires
        ceiling.ordered(),
    ensures
        clamp_notes(request, ceiling).len() == 0 <==> within(request, ceiling) == (Target {
            core_clock: match request.core_clock {
                Some(lock) => Some(upright(lock)),
                None => None,
            },
            ..request
        }),
{
}

/// Swapping the ends of a lock changes nothing of what will be written.
pub proof fn law_upside_down_locks_are_swapped(request: Target, lock: ClockLock, ceiling: Ceiling)
    requires
        request.core_clock == Some(lock),
    ensures
        within(request, ceiling) == within(
            Target {
                core_clock: Some(ClockLock { min_mhz: lock.max_mhz, max_mhz: lock.min_mhz }),
                ..request
            },
            ceiling,
        ),
{
}

/// The climb ends at the target.
pub proof fn law_climb_ends_at_target(from: Target, to: Target)
    ensures
        climb(from, to).len() >= 1,
        climb(from, to).last() == to,
{
    let n = climb_len(from, to);
    assert(climb(from, to).last() == climb_step(from, to, n - 1));
}

/// No step of the climb moves an offset by more than its step size, and the
/// climb never passes the target.
pub proof fn law_climb_steps_are_small(from: Target, to: Target, k: int)
    requires
        0 <= k < climb(from, to).len(),
    ensures
        ({
            let before = if k == 0 {
                from
            } else {
                climb(from, to)[k - 1]
            };
            let after = climb(from, to)[k];
            &&& distance(before.core_offset_mhz as int, after.core_offset_mhz as int)
                <= CORE_STEP_MHZ
            &&& distance(before.mem_offset_mhz as int, after.mem_offset_mhz as int) <= MEM_STEP_MHZ
            &&& distance(after.core_offset_mhz as int, to.core_offset_mhz as int) <= distance(
                before.core_offset_mhz as int,
                to.core_offset_mhz as int,
            )
            &&& distance(after.mem_offset_mhz as int, to.mem_offset_mhz as int) <= distance(
                before.mem_offset_mhz as int,
                to.mem_offset_mhz as int,
            )
        }),
{
}

/// The clock lock is not touched before the last step.
pub proof fn law_lock_arrives_last(from: Target, to: Target, k: int)
    requires
        0 <= k < climb(from, to).len() - 1,
    ensures
        climb(from, to)[k].core_clock == from.core_clock,
{
}

/// What will be written is the nearest to the request that the card takes: no
/// value the card advertises is closer to what was asked for. A knob the card
/// does not have stays at stock.
pub proof fn law_clamped_is_nearest(request: Target, ceiling: Ceiling, v: int)
    ensures
        ceiling.core_offset matches Some(r) ==> (r.min <= v <= r.max ==> distance(
            request.core_offset_mhz as int,
            within(request, ceiling).core_offset_mhz as int,
        ) <= distance(request.core_offset_mhz as int, v)),
        ceiling.mem_offset matches Some(r) ==> (r.min <= v <= r.max ==> distance(
            request.mem_offset_mhz as int,
            within(request, ceiling).mem_offset_mhz as int,
        ) <= distance(request.mem_offset_mhz as int, v)),
        ceiling.core_offset is None ==> within(request, ceiling).core_offset_mhz == 0,
        ceiling.mem_offset is None ==> within(request, ceiling).mem_offset_mhz == 0,
{
}

/// A lock survives exactly where one was asked for and the card's clocks can be
/// pinned. Its lower end is the nearest to the lower one asked for, and its
/// upper end to the upper one.
pub proof fn law_clamped_lock_is_nearest(
    request: Target,
    ceiling: Ceiling,
    low: i32,
    high: i32,
    v: int,
)
    requires
        low <= high,
    ensures
        within(request, ceiling).core_clock is Some <==> (request.core_clock is Some
            && ceiling.clock is Some),
        (request.core_clock == Some(ClockLock { min_mhz: low, max_mhz: high })
            || request.core_clock == Some(ClockLock { min_mhz: high, max_mhz: low })) ==> (
        ceiling.clock matches Some(r) ==> (r.min <= v <= r.max ==> {
            let used = within(request, ceiling).core_clock->0;
            &&& distance(low as int, used.min_mhz as int) <= distance(low as int, v)
            &&& distance(high as int, used.max_mhz as int) <= distance(high as int, v)
        })),
{
}

/// What is said of an offset that was cut down: the value asked for, both ends
/// of the range and the value that is used. The core is spoken of before the
/// memory.
pub proof fn law_notes_tell_what_is_used(request: Target, ceiling: Ceiling)
    requires
        ceiling.ordered(),
    ensures
        ceiling.core_offset matches Some(r) ==> (!(r.min <= request.core_offset_mhz <= r.max) ==> {
            let note = clamp_notes(request, ceiling).first();
            &&& clamp_notes(request, ceiling).len() > 0
            &&& note.key == "overclock.clamp.coreOutOfRange"@
            &&& note.params == seq![
                ("requested"@, number::decimal_int(request.core_offset_mhz as int)),
                ("min"@, number::decimal_int(r.min as int)),
                ("max"@, number::decimal_int(r.max as int)),
                (
                    "used"@,
                    number::decimal_int(within(request, ceiling).core_offset_mhz as int),
                ),
            ]
        }),
        ceiling.mem_offset matches Some(r) ==> (!(r.min <= request.mem_offset_mhz <= r.max)
            && within(request, ceiling).core_offset_mhz == request.core_offset_mhz ==> {
            let note = clamp_notes(request, ceiling).first();
            &&& clamp_notes(request, ceiling).len() > 0
            &&& note.key == "overclock.clamp.memOutOfRange"@
            &&& note.params == seq![
                ("requested"@, number::decimal_int(request.mem_offset_mhz as int)),
                ("min"@, number::decimal_int(r.min as int)),
                ("max"@, number::decimal_int(r.max as int)),
                ("used"@, number::decimal_int(within(request, ceiling).mem_offset_mhz as int)),
            ]
        }),
{
}

/// One thing is said for each knob that is not written as it was asked for. A
/// lock that only had its ends swapped is written as it was asked for.
pub proof fn law_one_note_for_each_difference(request: Target, ceiling: Ceiling)
    requires
        ceiling.ordered(),
    ensures
        ({
            let used = within(request, ceiling);
            let core: int = if used.core_offset_mhz != request.core_offset_mhz {
                1
            } else {
                0
            };
            let mem: int = if used.mem_offset_mhz != request.mem_offset_mhz {
                1
            } else {
                0
            };
            let lock: int = match (request.core_clock, used.core_clock) {
                (Some(asked), Some(lock)) => if lock == asked || lock == (ClockLock {
                    min_mhz: asked.max_mhz,
                    max_mhz: asked.min_mhz,
                }) {
                    0
                } else {
                    1
                },
                (Some(_), None) => 1,
                (None, _) => 0,
            };
            clamp_notes(request, ceiling).len() == core + mem + lock
        }),
{
}

/// Each step goes as far as it may: the core offset by 15 MHz and the memory
/// offset by 50, or all the way where less is left. The climb is over as soon
/// as both are there.
pub proof fn law_climb_loses_no_time(from: Target, to: Target, k: int)
    requires
        0 <= k < climb(from, to).len(),
    ensures
        ({
            let before = if k == 0 {
                from
            } else {
                climb(from, to)[k - 1]
            };
            let after = climb(from, to)[k];
            let core = distance(before.core_offset_mhz as int, to.core_offset_mhz as int);
            let mem = distance(before.mem_offset_mhz as int, to.mem_offset_mhz as int);
            &&& distance(after.core_offset_mhz as int, to.core_offset_mhz as int) == (if core
                <= 15 {
                0
            } else {
                core - 15
            })
            &&& distance(after.mem_offset_mhz as int, to.mem_offset_mhz as int) == (if mem <= 50 {
                0
            } else {
                mem - 50
            })
            &&& k < climb(from, to).len() - 1 ==> after.core_offset_mhz != to.core_offset_mhz
                || after.mem_offset_mhz != to.mem_offset_mhz
        }),
{
}

/// Each message has a key of its own, names what it is about, and says so in these
/// words.
pub proof fn law_messages_have_keys_and_words(
    requested: int,
    range: Range,
    used: int,
    lock: ClockLock,
    used_clocklock: ClockLock,
)
    ensures
        ({
            let m = core_out_of_range(requested, range, used);
            &&& m.key == "overclock.clamp.coreOutOfRange"@
            &&& m.text == msg::fill("core offset {requested} MHz is outside what the driver advertises ({min} to {max} MHz); using {used} MHz"@, m.params)
        }),
        ({
            let m = mem_out_of_range(requested, range, used);
            &&& m.key == "overclock.clamp.memOutOfRange"@
            &&& m.text == msg::fill("memory offset {requested} MHz is outside what the driver advertises ({min} to {max} MHz); using {used} MHz"@, m.params)
        }),
        ({
            let m = no_core_offset();
            &&& m.key == "overclock.clamp.noCoreOffset"@
            &&& m.params.len() == 0
            &&& m.text == msg::fill("this GPU exposes no core-clock offset, so that part was ignored"@, m.params)
        }),
        ({
            let m = no_mem_offset();
            &&& m.key == "overclock.clamp.noMemOffset"@
            &&& m.params.len() == 0
            &&& m.text == msg::fill("this GPU exposes no memory offset, so that part was ignored"@, m.params)
        }),
        ({
            let m = no_clock_lock();
            &&& m.key == "overclock.clamp.noClockLock"@
            &&& m.params.len() == 0
            &&& m.text == msg::fill("this GPU cannot have its clocks pinned, so that part was ignored"@, m.params)
        }),
        ({
            let m = lock_out_of_range(lock, range, used_clocklock);
            &&& m.key == "overclock.clamp.lockOutOfRange"@
            &&& m.params.len() == 6
            &&& m.params[0].0 == "reqMin"@
            &&& m.params[1].0 == "reqMax"@
            &&& m.params[2].0 == "min"@
            &&& m.params[3].0 == "max"@
            &&& m.params[4].0 == "usedMin"@
            &&& m.params[5].0 == "usedMax"@
            &&& m.text == msg::fill("clock lock {reqMin}-{reqMax} MHz is outside what this GPU supports ({min} to {max} MHz); using {usedMin}-{usedMax} MHz"@, m.params)
        }),
{
}

} // verus!
