//! The kernel's input interface: the numbers of its requests and the bytes of
//! its structures, as a little-endian machine with a 64-bit clock lays them
//! out.
use vstd::prelude::*;
use vstd::string::*;

use crate::text;

verus! {

pub const EV_SYN: u16 = 0x00;

pub const EV_KEY: u16 = 0x01;

pub const KEY_MAX: u16 = 0x2ff;

/// Size of an event: two 8-byte halves of the time, then type, code and value.
pub const EVENT_SIZE: usize = 24;

pub const IOC_NONE: u32 = 0;

pub const IOC_WRITE: u32 = 1;

/// Makes one reader the only one the kernel delivers a device's events to.
pub const EVIOCGRAB: u32 = 0x40044590;

pub const UI_SET_EVBIT: u32 = 0x40045564;

pub const UI_SET_KEYBIT: u32 = 0x40045565;

pub const UI_DEV_CREATE: u32 = 0x5501;

pub const UI_DEV_DESTROY: u32 = 0x5502;

pub const UI_DEV_SETUP: u32 = 0x405c5503;

pub const UINPUT_MAX_NAME_SIZE: usize = 80;

/// The number of a request: direction, size of the argument, family, number.
pub open spec fn request_number(dir: u32, kind: u8, nr: u8, size: u16) -> u32 {
    (dir << 30) | ((size as u32) << 16) | ((kind as u32) << 8) | (nr as u32)
}

pub fn ioc(dir: u32, kind: u8, nr: u8, size: u16) -> (r: u32)
    requires
        dir < 4,
    ensures
        r == request_number(dir, kind, nr, size),
{
    (dir << 30) | ((size as u32) << 16) | ((kind as u32) << 8) | (nr as u32)
}

/// Every request has the number that the formula gives it.
pub proof fn law_request_numbers()
    ensures
        EVIOCGRAB == request_number(IOC_WRITE, 0x45, 0x90, 4),
        UI_SET_EVBIT == request_number(IOC_WRITE, 0x55, 100, 4),
        UI_SET_KEYBIT == request_number(IOC_WRITE, 0x55, 101, 4),
        UI_DEV_CREATE == request_number(IOC_NONE, 0x55, 1, 0),
        UI_DEV_DESTROY == request_number(IOC_NONE, 0x55, 2, 0),
        UI_DEV_SETUP == request_number(IOC_WRITE, 0x55, 3, 92),
{
    assert((1u32 << 30) | ((4u16 as u32) << 16) | ((0x45u8 as u32) << 8) | (0x90u8 as u32)
        == 0x40044590u32) by (bit_vector);
    assert((1u32 << 30) | ((4u16 as u32) << 16) | ((0x55u8 as u32) << 8) | (100u8 as u32)
        == 0x40045564u32) by (bit_vector);
    assert((1u32 << 30) | ((4u16 as u32) << 16) | ((0x55u8 as u32) << 8) | (101u8 as u32)
        == 0x40045565u32) by (bit_vector);
    assert((0u32 << 30) | ((0u16 as u32) << 16) | ((0x55u8 as u32) << 8) | (1u8 as u32)
        == 0x5501u32) by (bit_vector);
    assert((0u32 << 30) | ((0u16 as u32) << 16) | ((0x55u8 as u32) << 8) | (2u8 as u32)
        == 0x5502u32) by (bit_vector);
    assert((1u32 << 30) | ((92u16 as u32) << 16) | ((0x55u8 as u32) << 8) | (3u8 as u32)
        == 0x405c5503u32) by (bit_vector);
}

// --- little-endian numbers -----------------------------------------------

/// The number that bytes spell, lowest first.
pub open spec fn le_value(s: Seq<u8>) -> nat
    decreases s.len(),
{
    if s.len() == 0 {
        0
    } else {
        s[0] as nat + 256 * le_value(s.skip(1))
    }
}

/// A number in `k` bytes, lowest first.
pub open spec fn le_bytes(n: nat, k: nat) -> Seq<u8>
    decreases k,
{
    if k == 0 {
        seq![]
    } else {
        seq![(n % 256) as u8] + le_bytes(n / 256, (k - 1) as nat)
    }
}

pub open spec fn le_bound(k: nat) -> nat
    decreases k,
{
    if k == 0 {
        1
    } else {
        256 * le_bound((k - 1) as nat)
    }
}

/// The two's-complement reading of an unsigned number.
pub open spec fn signed(n: nat, bound: nat) -> int {
    if 2 * n >= bound {
        n - bound
    } else {
        n as int
    }
}

pub open spec fn unsigned(n: int, bound: nat) -> nat {
    if n < 0 {
        (n + bound) as nat
    } else {
        n as nat
    }
}

proof fn lemma_le_round_trip(n: nat, k: nat)
    requires
        n < le_bound(k),
    ensures
        le_bytes(n, k).len() == k,
        le_value(le_bytes(n, k)) == n,
    decreases k,
{
    if k > 0 {
        let rest = le_bytes(n / 256, (k - 1) as nat);
        lemma_le_round_trip(n / 256, (k - 1) as nat);
        assert(le_bytes(n, k).skip(1) =~= rest);
        assert(le_bytes(n, k)[0] == (n % 256) as u8);
    }
}

proof fn lemma_le_value_bound(s: Seq<u8>)
    ensures
        le_value(s) < le_bound(s.len()),
    decreases s.len(),
{
    if s.len() > 0 {
        lemma_le_value_bound(s.skip(1));
    }
}

proof fn lemma_bounds()
    ensures
        le_bound(2) == 0x1_0000,
        le_bound(4) == 0x1_0000_0000,
        le_bound(8) == 0x1_0000_0000_0000_0000,
{
    reveal_with_fuel(le_bound, 9);
}

fn read_le(s: &Vec<u8>, from: usize, size: usize) -> (r: u64)
    requires
        size <= 8,
        from + size <= s@.len(),
    ensures
        r == le_value(s@.subrange(from as int, from + size)),
    decreases size,
{
    if size == 0 {
        return 0;
    }
    let len: usize = s.len();
    proof {
        assert(from < len);
    }
    let high: u64 = read_le(s, from + 1, size - 1);
    proof {
        let part = s@.subrange(from as int, from + size);
        assert(part.skip(1) =~= s@.subrange(from + 1, from + size));
        lemma_le_value_bound(s@.subrange(from + 1, from + size));
        lemma_bound_grows((size - 1) as nat);
    }
    s[from] as u64 + 256 * high
}

proof fn lemma_bound_grows(k: nat)
    requires
        k <= 7,
    ensures
        le_bound(k) <= 0x100_0000_0000_0000,
{
    reveal_with_fuel(le_bound, 8);
}

fn push_le(out: &mut Vec<u8>, n: u64, size: usize)
    requires
        size <= 8,
    ensures
        final(out)@ == old(out)@ + le_bytes(n as nat, size as nat),
{
    let ghost start = out@;
    let mut rest: u64 = n;
    let mut i: usize = 0;
    proof {
        assert(start + le_bytes(n as nat, size as nat) =~= out@ + le_bytes(
            rest as nat,
            size as nat,
        ));
    }
    while i < size
        invariant
            i <= size,
            out@ + le_bytes(rest as nat, (size - i) as nat) == start + le_bytes(
                n as nat,
                size as nat,
            ),
        decreases size - i,
    {
        let ghost before = out@;
        out.push((rest % 256) as u8);
        proof {
            assert(out@ + le_bytes((rest / 256) as nat, (size - i - 1) as nat) =~= before
                + le_bytes(rest as nat, (size - i) as nat));
        }
        rest = rest / 256;
        i = i + 1;
    }
    proof {
        assert(out@ + le_bytes(rest as nat, 0) =~= out@);
    }
}

fn to_signed64(n: u64) -> (r: i64)
    ensures
        r == signed(n as nat, 0x1_0000_0000_0000_0000),
{
    if n >= 0x8000_0000_0000_0000 {
        let back: u64 = 0xffff_ffff_ffff_ffff - n;
        -(back as i64) - 1
    } else {
        n as i64
    }
}

fn to_unsigned64(n: i64) -> (r: u64)
    ensures
        r == unsigned(n as int, 0x1_0000_0000_0000_0000),
{
    if n < 0 {
        let back: i64 = -(n + 1);
        0xffff_ffff_ffff_ffff - (back as u64)
    } else {
        n as u64
    }
}

// --- events --------------------------------------------------------------

/// One input event.
#[derive(Debug, Clone, Copy, PartialEq, Eq, Structural)]
pub struct InputEvent {
    pub seconds: i64,
    pub micros: i64,
    pub kind: u16,
    pub code: u16,
    pub value: i32,
}

/// The bytes of an event.
pub open spec fn event_bytes(e: InputEvent) -> Seq<u8> {
    le_bytes(unsigned(e.seconds as int, 0x1_0000_0000_0000_0000), 8) + le_bytes(
        unsigned(e.micros as int, 0x1_0000_0000_0000_0000),
        8,
    ) + le_bytes(e.kind as nat, 2) + le_bytes(e.code as nat, 2) + le_bytes(
        unsigned(e.value as int, 0x1_0000_0000),
        4,
    )
}

/// The event that 24 bytes are.
pub open spec fn event_at(s: Seq<u8>, i: int) -> InputEvent {
    InputEvent {
        seconds: signed(le_value(s.subrange(i, i + 8)), 0x1_0000_0000_0000_0000) as i64,
        micros: signed(le_value(s.subrange(i + 8, i + 16)), 0x1_0000_0000_0000_0000) as i64,
        kind: le_value(s.subrange(i + 16, i + 18)) as u16,
        code: le_value(s.subrange(i + 18, i + 20)) as u16,
        value: signed(le_value(s.subrange(i + 20, i + 24)), 0x1_0000_0000) as i32,
    }
}

/// The whole events in a buffer. What is left of a trailing partial event
/// arrives complete with the next read.
pub open spec fn events_in(s: Seq<u8>) -> Seq<InputEvent> {
    Seq::new((s.len() / 24) as nat, |k: int| event_at(s, 24 * k))
}

pub fn read_events(buffer: &Vec<u8>) -> (r: Vec<InputEvent>)
    ensures
        r@ == events_in(buffer@),
{
    let n: usize = buffer.len();
    let count: usize = n / 24;
    let mut out: Vec<InputEvent> = Vec::new();
    let mut k: usize = 0;
    while k < count
        invariant
            n == buffer@.len(),
            count == n / 24,
            k <= count,
            out@.len() == k,
            forall|j: int| 0 <= j < k ==> #[trigger] out@[j] == event_at(buffer@, 24 * j),
        decreases count - k,
    {
        let at: usize = 24 * k;
        proof {
            lemma_bounds();
            lemma_le_value_bound(buffer@.subrange(at + 16, at + 18));
            lemma_le_value_bound(buffer@.subrange(at + 18, at + 20));
            lemma_le_value_bound(buffer@.subrange(at + 20, at + 24));
        }
        let seconds: i64 = to_signed64(read_le(buffer, at, 8));
        let micros: i64 = to_signed64(read_le(buffer, at + 8, 8));
        let kind: u64 = read_le(buffer, at + 16, 2);
        let code: u64 = read_le(buffer, at + 18, 2);
        let raw: u64 = read_le(buffer, at + 20, 4);
        let value: i64 = if raw >= 0x8000_0000 {
            raw as i64 - 0x1_0000_0000
        } else {
            raw as i64
        };
        out.push(
            InputEvent {
                seconds,
                micros,
                kind: kind as u16,
                code: code as u16,
                value: value as i32,
            },
        );
        k = k + 1;
    }
    proof {
        assert(out@ =~= events_in(buffer@));
    }
    out
}

/// The bytes that make the kernel deliver an event.
pub fn write_event(event: InputEvent) -> (r: Vec<u8>)
    ensures
        r@ == event_bytes(event),
        r@.len() == 24,
{
    let mut out: Vec<u8> = Vec::new();
    push_le(&mut out, to_unsigned64(event.seconds), 8);
    push_le(&mut out, to_unsigned64(event.micros), 8);
    push_le(&mut out, event.kind as u64, 2);
    push_le(&mut out, event.code as u64, 2);
    let value: u64 = if event.value < 0 {
        (event.value as i64 + 0x1_0000_0000) as u64
    } else {
        event.value as u64
    };
    push_le(&mut out, value, 4);
    proof {
        lemma_event_lengths(event);
        assert(out@ =~= event_bytes(event));
    }
    out
}

proof fn lemma_event_lengths(e: InputEvent)
    ensures
        event_bytes(e).len() == 24,
{
    lemma_bounds();
    lemma_le_round_trip(unsigned(e.seconds as int, 0x1_0000_0000_0000_0000), 8);
    lemma_le_round_trip(unsigned(e.micros as int, 0x1_0000_0000_0000_0000), 8);
    lemma_le_round_trip(e.kind as nat, 2);
    lemma_le_round_trip(e.code as nat, 2);
    lemma_le_round_trip(unsigned(e.value as int, 0x1_0000_0000), 4);
}

/// What is written as an event reads back as that event.
pub proof fn law_events_read_back(e: InputEvent)
    ensures
        events_in(event_bytes(e)) == seq![e],
{
    let s = event_bytes(e);
    lemma_event_lengths(e);
    lemma_bounds();
    let a = unsigned(e.seconds as int, 0x1_0000_0000_0000_0000);
    let b = unsigned(e.micros as int, 0x1_0000_0000_0000_0000);
    let v = unsigned(e.value as int, 0x1_0000_0000);
    lemma_le_round_trip(a, 8);
    lemma_le_round_trip(b, 8);
    lemma_le_round_trip(e.kind as nat, 2);
    lemma_le_round_trip(e.code as nat, 2);
    lemma_le_round_trip(v, 4);
    assert(s.subrange(0, 8) =~= le_bytes(a, 8));
    assert(s.subrange(8, 16) =~= le_bytes(b, 8));
    assert(s.subrange(16, 18) =~= le_bytes(e.kind as nat, 2));
    assert(s.subrange(18, 20) =~= le_bytes(e.code as nat, 2));
    assert(s.subrange(20, 24) =~= le_bytes(v, 4));
    assert(event_at(s, 0) == e);
    assert(events_in(s) =~= seq![e]);
}

// --- the virtual keyboard ------------------------------------------------

#[derive(Debug, Clone, Copy, PartialEq, Eq, Structural)]
pub struct InputId {
    pub bustype: u16,
    pub vendor: u16,
    pub product: u16,
    pub version: u16,
}

impl Default for InputId {
    fn default() -> (r: InputId)
        ensures
            r == (InputId { bustype: 0, vendor: 0, product: 0, version: 0 }),
    {
        InputId { bustype: 0, vendor: 0, product: 0, version: 0 }
    }
}

/// What the kernel is told about the virtual keyboard.
pub struct UinputSetup {
    pub id: InputId,
    pub name: [u8; 80],
    pub ff_effects_max: u32,
}

/// The name in its field: cut so that a zero byte always ends it.
pub open spec fn name_field(name: Seq<u8>) -> Seq<u8> {
    Seq::new(
        80,
        |i: int|
            if i < name.len() && i < 79 {
                name[i]
            } else {
                0
            },
    )
}

/// The virtual keyboard of that name.
pub fn uinput_setup(name: &str) -> (r: UinputSetup)
    ensures
        r.id == (InputId { bustype: 0x03, vendor: 0x1209, product: 0x0001, version: 1 }),
        r.name@ == name_field(name.spec_bytes()),
        r.ff_effects_max == 0,
{
    let bytes = name.as_bytes();
    let size: usize = bytes.len();
    let len: usize = if size < 79 {
        size
    } else {
        79
    };
    let mut field: [u8; 80] = [0u8; 80];
    let mut i: usize = 0;
    while i < len
        invariant
            len <= 79,
            size == bytes@.len(),
            len <= size,
            len == 79 || len == size,
            i <= len,
            field@.len() == 80,
            forall|k: int| 0 <= k < 80 ==> field@[k] == (if k < i {
                bytes@[k]
            } else {
                0
            }),
        decreases len - i,
    {
        field[i] = bytes[i];
        i = i + 1;
    }
    proof {
        assert(field@ =~= name_field(bytes@));
    }
    UinputSetup {
        id: InputId { bustype: 0x03, vendor: 0x1209, product: 0x0001, version: 1 },
        name: field,
        ff_effects_max: 0,
    }
}

impl UinputSetup {
    /// The bytes the kernel reads: id, name and effects, 92 in all.
    pub open spec fn as_bytes(&self) -> Seq<u8> {
        le_bytes(self.id.bustype as nat, 2) + le_bytes(self.id.vendor as nat, 2) + le_bytes(
            self.id.product as nat,
            2,
        ) + le_bytes(self.id.version as nat, 2) + self.name@ + le_bytes(
            self.ff_effects_max as nat,
            4,
        )
    }

    pub fn to_bytes(&self) -> (r: Vec<u8>)
        ensures
            r@ == self.as_bytes(),
            r@.len() == 92,
    {
        let mut out: Vec<u8> = Vec::new();
        push_le(&mut out, self.id.bustype as u64, 2);
        push_le(&mut out, self.id.vendor as u64, 2);
        push_le(&mut out, self.id.product as u64, 2);
        push_le(&mut out, self.id.version as u64, 2);
        let ghost head = out@;
        let mut i: usize = 0;
        while i < 80
            invariant
                i <= 80,
                self.name@.len() == 80,
                out@ == head + self.name@.take(i as int),
            decreases 80 - i,
        {
            out.push(self.name[i]);
            i = i + 1;
            proof {
                assert(self.name@.take(i as int) =~= self.name@.take(i - 1).push(
                    self.name@[i - 1],
                ));
                assert(out@ =~= head + self.name@.take(i as int));
            }
        }
        push_le(&mut out, self.ff_effects_max as u64, 4);
        proof {
            assert(self.name@.take(80) =~= self.name@);
            lemma_bounds();
            lemma_le_round_trip(self.id.bustype as nat, 2);
            lemma_le_round_trip(self.id.vendor as nat, 2);
            lemma_le_round_trip(self.id.product as nat, 2);
            lemma_le_round_trip(self.id.version as nat, 2);
            lemma_le_round_trip(self.ff_effects_max as nat, 4);
            assert(out@ =~= self.as_bytes());
        }
        out
    }
}

/// Whether a file of the input directory is a device that sends events.
pub fn is_event_name(name: &str) -> (r: bool)
    ensures
        r == text::starts_with(name@, "event"@),
{
    text::str_starts(name, "event")
}

/// A device's name as the kernel publishes it.
pub fn device_name(raw: &str) -> (r: String)
    ensures
        r@ == text::trim(raw@),
{
    text::trimmed_str(raw)
}

/// A request number is made of its four parts, each in its own place.
pub proof fn law_request_numbers_have_their_parts_in_place(dir: u32, kind: u8, nr: u8, size: u16)
    requires
        dir < 4,
        size < 0x4000,
    ensures
        request_number(dir, kind, nr, size) == dir * 0x4000_0000 + size * 0x1_0000 + kind * 0x100
            + nr,
{
    let s = size as u32;
    let k = kind as u32;
    let n = nr as u32;
    assert((dir << 30) | (s << 16) | (k << 8) | n == dir * 0x4000_0000 + s * 0x1_0000 + k * 0x100
        + n) by (bit_vector)
        requires
            dir < 4,
            s < 0x4000,
            k < 0x100,
            n < 0x100,
    ;
}

/// Numbers are written with their lowest byte first.
pub proof fn law_the_lowest_byte_comes_first(a: u8, b: u8, n: nat)
    requires
        n < 0x1_0000,
    ensures
        le_value(seq![a, b]) == a + 256 * b,
        le_bytes(n, 2) == seq![(n % 256) as u8, (n / 256) as u8],
{
    assert(seq![a, b].skip(1) =~= seq![b]);
    assert(seq![b].skip(1) =~= seq![]);
    assert(le_value(Seq::empty()) == 0);
    assert(le_value(seq![b]) == b);
    assert(le_bytes((n / 256) / 256, 0) =~= seq![]);
    assert(le_bytes(n / 256, 1) =~= seq![(n / 256) as u8]) by {
        assert((n / 256) % 256 == n / 256);
    }
    assert(le_bytes(n, 2) =~= seq![(n % 256) as u8] + le_bytes(n / 256, 1));
}

/// Each part of an event stands at its own place among its bytes.
pub proof fn law_an_events_parts_are_in_place(s: Seq<u8>, k: int)
    requires
        0 <= k,
        24 * k + 24 <= s.len(),
    ensures
        events_in(s)[k].kind == s[24 * k + 16] + 256 * s[24 * k + 17],
        events_in(s)[k].code == s[24 * k + 18] + 256 * s[24 * k + 19],
        s[24 * k + 22] == 0 && s[24 * k + 23] == 0 ==> events_in(s)[k].value == s[24 * k + 20] + 256
            * s[24 * k + 21],
        events_in(s).len() == s.len() / 24,
{
    let i = 24 * k;
    assert(s.subrange(i + 16, i + 18) =~= seq![s[i + 16], s[i + 17]]);
    assert(s.subrange(i + 18, i + 20) =~= seq![s[i + 18], s[i + 19]]);
    law_the_lowest_byte_comes_first(s[i + 16], s[i + 17], 0);
    law_the_lowest_byte_comes_first(s[i + 18], s[i + 19], 0);
    let v = s.subrange(i + 20, i + 24);
    let high = seq![s[i + 22], s[i + 23]];
    assert(v.skip(1).skip(1) =~= high);
    assert(v.skip(1)[0] == s[i + 21]);
    law_the_lowest_byte_comes_first(s[i + 22], s[i + 23], 0);
    assert(le_value(v.skip(1)) == s[i + 21] + 256 * le_value(high));
    assert(le_value(v) == s[i + 20] + 256 * le_value(v.skip(1)));
}

/// Events that were read together are those of each part, in order; what is left
/// of one that was cut off is dropped.
pub proof fn law_events_are_read_one_after_another(a: Seq<u8>, b: Seq<u8>, n: nat)
    requires
        a.len() == 24 * n,
    ensures
        events_in(a + b) == events_in(a) + events_in(b),
        b.len() < 24 ==> events_in(b).len() == 0,
{
    let s = a + b;
    assert(events_in(s).len() == n + events_in(b).len());
    assert forall|k: int| 0 <= k < events_in(s).len() implies #[trigger] events_in(s)[k] == (
    events_in(a) + events_in(b))[k] by {
        let i = 24 * k;
        if k < n {
            assert(s.subrange(i, i + 24) =~= a.subrange(i, i + 24));
            lemma_same_event(s, i, a, i);
        } else {
            assert(s.subrange(i, i + 24) =~= b.subrange(i - a.len(), i - a.len() + 24));
            lemma_same_event(s, i, b, i - a.len());
        }
    }
    assert(events_in(s) =~= events_in(a) + events_in(b));
}

proof fn lemma_same_event(s: Seq<u8>, i: int, t: Seq<u8>, j: int)
    requires
        0 <= i && i + 24 <= s.len(),
        0 <= j && j + 24 <= t.len(),
        s.subrange(i, i + 24) == t.subrange(j, j + 24),
    ensures
        event_at(s, i) == event_at(t, j),
{
    lemma_same_part(s, i, t, j, 0, 8);
    lemma_same_part(s, i, t, j, 8, 16);
    lemma_same_part(s, i, t, j, 16, 18);
    lemma_same_part(s, i, t, j, 18, 20);
    lemma_same_part(s, i, t, j, 20, 24);
}

proof fn lemma_same_part(s: Seq<u8>, i: int, t: Seq<u8>, j: int, from: int, to: int)
    requires
        0 <= i && i + 24 <= s.len(),
        0 <= j && j + 24 <= t.len(),
        0 <= from <= to <= 24,
        s.subrange(i, i + 24) == t.subrange(j, j + 24),
    ensures
        s.subrange(i + from, i + to) == t.subrange(j + from, j + to),
{
    assert(s.subrange(i + from, i + to) =~= s.subrange(i, i + 24).subrange(from, to));
    assert(t.subrange(j + from, j + to) =~= t.subrange(j, j + 24).subrange(from, to));
}

/// A device's name fills its field from the start, is cut so that a zero remains,
/// and is followed by zeros.
pub proof fn law_a_name_is_ended_by_a_zero(name: Seq<u8>, i: int)
    requires
        0 <= i < 80,
    ensures
        name_field(name).len() == 80,
        name_field(name)[79] == 0,
        i < name.len() && i < 79 ==> name_field(name)[i] == name[i],
        i >= name.len() ==> name_field(name)[i] == 0,
{
}

/// A device is described by its four numbers, its name and the number of its
/// effects, in this order.
pub proof fn law_a_device_is_described_in_order(setup: UinputSetup, i: int)
    requires
        0 <= i < 80,
    ensures
        setup.as_bytes().len() == 92,
        setup.as_bytes()[8 + i] == setup.name@[i],
        setup.as_bytes()[0] + 256 * setup.as_bytes()[1] == setup.id.bustype,
        setup.as_bytes()[2] + 256 * setup.as_bytes()[3] == setup.id.vendor,
        setup.as_bytes()[4] + 256 * setup.as_bytes()[5] == setup.id.product,
        setup.as_bytes()[6] + 256 * setup.as_bytes()[7] == setup.id.version,
{
    law_the_lowest_byte_comes_first(0, 0, setup.id.bustype as nat);
    law_the_lowest_byte_comes_first(0, 0, setup.id.vendor as nat);
    law_the_lowest_byte_comes_first(0, 0, setup.id.product as nat);
    law_the_lowest_byte_comes_first(0, 0, setup.id.version as nat);
    lemma_le_length(setup.ff_effects_max as nat, 4);
}

proof fn lemma_le_length(n: nat, k: nat)
    ensures
        le_bytes(n, k).len() == k,
    decreases k,
{
    if k > 0 {
        lemma_le_length(n / 256, (k - 1) as nat);
    }
}

} // verus!
