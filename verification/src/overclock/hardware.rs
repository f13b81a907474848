//! What is written to a card and what reading it back has to show.
use vstd::prelude::*;
use vstd::string::*;

use crate::error::ErrorKind;
use crate::error::ErrorView;
use crate::error::ModuleError;
use crate::msg;
use crate::msg::Msg;
use crate::msg::MsgView;
use crate::number;
use crate::overclock::nvidia::NvidiaError;
use crate::overclock::nvidia::NvidiaErrorView;
use crate::overclock::plan::ClockLock;
use crate::overclock::plan::Range;
use crate::overclock::plan::Target;
use crate::overclock::probe::GpuProbe;
use crate::overclock::probe::Vendor;
use crate::text;

verus! {

/// What an operation gave, with the error taken by what it says.
pub open spec fn outcome(r: Result<(), ModuleError>) -> Result<(), ErrorView> {
    match r {
        Ok(()) => Ok(()),
        Err(e) => Err(e@),
    }
}

/// The `nvidia-smi` index in a card's id.
pub open spec fn index_in(id: Seq<char>) -> Option<nat> {
    if text::starts_with(id, "nvidia:"@) {
        number::parse_unsigned(id.skip("nvidia:"@.len() as int), 10, 0xffff_ffff)
    } else {
        None
    }
}

pub fn index_of(id: &str) -> (r: Option<u32>)
    ensures
        match r {
            Some(n) => index_in(id@) == Some(n as nat),
            None => index_in(id@) is None,
        },
{
    let chars = text::chars_of(id);
    let prefix = text::chars_of("nvidia:");
    let n: usize = chars.len();
    if !text::is_at(&chars, &prefix, 0) {
        return None;
    }
    let tail = text::slice(&chars, prefix.len(), n);
    proof {
        assert(tail@ =~= id@.skip(prefix@.len() as int));
    }
    number::read_u32(&tail)
}

/// The index by which the driver's tools know the card.
pub fn nvidia_index(gpu: &GpuProbe) -> (r: Result<u32, ModuleError>)
    ensures
        match r {
            Ok(n) => index_in(gpu.id@) == Some(n as nat),
            Err(e) => index_in(gpu.id@) is None && e@ == ErrorView::Internal(
                "'"@ + gpu.id@ + "' is not an nvidia-smi index"@,
            ),
        },
{
    match index_of(gpu.id.as_str()) {
        Some(n) => Ok(n),
        None => Err(
            ModuleError::Internal(
                String::from_str("'").concat(gpu.id.as_str()).concat(
                    "' is not an nvidia-smi index",
                ),
            ),
        ),
    }
}

/// Which card to register with for the driver's fault signal: only an NVIDIA
/// card whose id is an index reports it.
pub open spec fn watched_index(vendor: Vendor, id: Seq<char>) -> Option<nat> {
    if vendor == Vendor::Nvidia {
        index_in(id)
    } else {
        None
    }
}

pub open spec fn opt_nat(n: Option<u32>) -> Option<nat> {
    match n {
        Some(n) => Some(n as nat),
        None => None,
    }
}

pub fn fault_watch(gpu: &GpuProbe) -> (r: Option<u32>)
    ensures
        opt_nat(r) == watched_index(gpu.vendor, gpu.id@),
{
    if gpu.vendor != Vendor::Nvidia {
        return None;
    }
    index_of(gpu.id.as_str())
}

// --- writing -------------------------------------------------------------

/// Whether a card is one this module writes to; the refusal is the card's own
/// explanation.
pub fn write_target(gpu: &GpuProbe) -> (r: Result<u32, ModuleError>)
    ensures
        match r {
            Ok(n) => gpu.vendor == Vendor::Nvidia && index_in(gpu.id@) == Some(n as nat),
            Err(e) => if gpu.vendor == Vendor::Nvidia {
                index_in(gpu.id@) is None && e@ == ErrorView::Internal(
                    "'"@ + gpu.id@ + "' is not an nvidia-smi index"@,
                )
            } else {
                e@ == ErrorView::Localised(ErrorKind::NotCapable, msg::literal(gpu.detail@))
            },
        },
{
    if gpu.vendor != Vendor::Nvidia {
        return Err(
            ModuleError::localised(ErrorKind::NotCapable, Msg::literal(gpu.detail.clone())),
        );
    }
    nvidia_index(gpu)
}

/// Whether a knob has to be written at all. A value that could not be read
/// counts as different.
pub fn differs(current: &Result<(i32, Option<Range>), NvidiaError>, wanted: i32) -> (r: bool)
    ensures
        r == (match current {
            Ok((value, _)) => *value != wanted,
            Err(_) => true,
        }),
{
    match current {
        Ok((value, _)) => *value != wanted,
        Err(_) => true,
    }
}

/// The core offset to write, where the card has the knob and it is changing.
pub fn core_write(
    gpu: &GpuProbe,
    target: Target,
    current: &Result<(i32, Option<Range>), NvidiaError>,
) -> (r: Option<i32>)
    ensures
        r == (if gpu.core_offset is Some && !(current matches Ok((value, _)) && value
            == target.core_offset_mhz) {
            Some(target.core_offset_mhz)
        } else {
            None
        }),
{
    if gpu.core_offset.is_some() && differs(current, target.core_offset_mhz) {
        Some(target.core_offset_mhz)
    } else {
        None
    }
}

/// The memory offset to write, where the card has the knob and it is changing.
pub fn mem_write(
    gpu: &GpuProbe,
    target: Target,
    current: &Result<(i32, Option<Range>), NvidiaError>,
) -> (r: Option<i32>)
    ensures
        r == (if gpu.mem_offset is Some && !(current matches Ok((value, _)) && value
            == target.mem_offset_mhz) {
            Some(target.mem_offset_mhz)
        } else {
            None
        }),
{
    if gpu.mem_offset.is_some() && differs(current, target.mem_offset_mhz) {
        Some(target.mem_offset_mhz)
    } else {
        None
    }
}

#[derive(Debug, Clone, Copy, PartialEq, Eq, Structural)]
pub enum ClockWrite {
    /// The card has no clocks to pin.
    Nothing,
    Lock(ClockLock),
    Reset,
}

/// What is done to the clock lock, last of the three.
pub fn clock_write(gpu: &GpuProbe, target: Target) -> (r: ClockWrite)
    ensures
        r == (if gpu.clock_lock is None {
            ClockWrite::Nothing
        } else {
            match target.core_clock {
                Some(lock) => ClockWrite::Lock(lock),
                None => ClockWrite::Reset,
            }
        }),
{
    if gpu.clock_lock.is_none() {
        return ClockWrite::Nothing;
    }
    match target.core_clock {
        Some(lock) => ClockWrite::Lock(lock),
        None => ClockWrite::Reset,
    }
}

// --- reading back --------------------------------------------------------

pub open spec fn mismatch_params(got: int, asked: int) -> Seq<(Seq<char>, Seq<char>)> {
    seq![("got"@, number::decimal_int(got)), ("asked"@, number::decimal_int(asked))]
}

pub open spec fn core_mismatch(got: int, asked: int) -> ErrorView {
    ErrorView::Localised(
        ErrorKind::Failed,
        msg::message(
            "overclock.err.verifyCore"@,
            mismatch_params(got, asked),
            "the driver reports a core offset of {got} MHz after being asked for {asked} MHz"@,
        ),
    )
}

pub open spec fn mem_mismatch(got: int, asked: int) -> ErrorView {
    ErrorView::Localised(
        ErrorKind::Failed,
        msg::message(
            "overclock.err.verifyMem"@,
            mismatch_params(got, asked),
            "the driver reports a memory offset of {got} MHz after being asked for {asked} MHz"@,
        ),
    )
}

/// Checks what reading the core offset back gave. A card without the knob is
/// not asked.
pub fn verify_core(
    gpu: &GpuProbe,
    expected: Target,
    read: Result<(i32, Option<Range>), NvidiaError>,
) -> (r: Result<(), ModuleError>)
    ensures
        outcome(r) == (if gpu.vendor != Vendor::Nvidia || gpu.core_offset is None {
            Ok::<(), ErrorView>(())
        } else {
            match read {
                Err(e) => Err(socket_error(e@)),
                Ok((value, _)) => if value == expected.core_offset_mhz {
                    Ok(())
                } else {
                    Err(core_mismatch(value as int, expected.core_offset_mhz as int))
                },
            }
        }),
{
    if gpu.vendor != Vendor::Nvidia || gpu.core_offset.is_none() {
        return Ok(());
    }
    match read {
        Err(e) => Err(nvidia_error(&e)),
        Ok((value, _)) => {
            if value == expected.core_offset_mhz {
                return Ok(());
            }
            Err(
                ModuleError::localised(
                    ErrorKind::Failed,
                    Msg::new(
                        "overclock.err.verifyCore",
                        msg::two(
                            msg::param("got", number::show_int(value as i64)),
                            msg::param("asked", number::show_int(expected.core_offset_mhz as i64)),
                        ),
                        "the driver reports a core offset of {got} MHz after being asked for {asked} MHz",
                    ),
                ),
            )
        },
    }
}

/// Checks what reading the memory offset back gave.
pub fn verify_mem(
    gpu: &GpuProbe,
    expected: Target,
    read: Result<(i32, Option<Range>), NvidiaError>,
) -> (r: Result<(), ModuleError>)
    ensures
        outcome(r) == (if gpu.vendor != Vendor::Nvidia || gpu.mem_offset is None {
            Ok::<(), ErrorView>(())
        } else {
            match read {
                Err(e) => Err(socket_error(e@)),
                Ok((value, _)) => if value == expected.mem_offset_mhz {
                    Ok(())
                } else {
                    Err(mem_mismatch(value as int, expected.mem_offset_mhz as int))
                },
            }
        }),
{
    if gpu.vendor != Vendor::Nvidia || gpu.mem_offset.is_none() {
        return Ok(());
    }
    match read {
        Err(e) => Err(nvidia_error(&e)),
        Ok((value, _)) => {
            if value == expected.mem_offset_mhz {
                return Ok(());
            }
            Err(
                ModuleError::localised(
                    ErrorKind::Failed,
                    Msg::new(
                        "overclock.err.verifyMem",
                        msg::two(
                            msg::param("got", number::show_int(value as i64)),
                            msg::param("asked", number::show_int(expected.mem_offset_mhz as i64)),
                        ),
                        "the driver reports a memory offset of {got} MHz after being asked for {asked} MHz",
                    ),
                ),
            )
        },
    }
}

// --- errors --------------------------------------------------------------

/// The kind of a hardware failure: what this machine will never do, against
/// what it is not set up to do.
pub open spec fn error_kind(e: NvidiaErrorView) -> ErrorKind {
    match e {
        NvidiaErrorView::NotInstalled(_) => ErrorKind::NotCapable,
        NvidiaErrorView::NoDisplay(_) => ErrorKind::Failed,
        NvidiaErrorView::Refused(_) => ErrorKind::Failed,
        NvidiaErrorView::NeedsRoot(_) => ErrorKind::PermissionDenied,
        NvidiaErrorView::Unreadable(_, _) => ErrorKind::Io,
    }
}

pub open spec fn socket_error(e: NvidiaErrorView) -> ErrorView {
    ErrorView::Localised(error_kind(e), msg::literal(e.text()))
}

/// A hardware failure, for the client.
pub fn nvidia_error(e: &NvidiaError) -> (r: ModuleError)
    ensures
        r@ == socket_error(e@),
{
    let kind = match e {
        NvidiaError::NotInstalled(_) => ErrorKind::NotCapable,
        NvidiaError::NoDisplay(_) => ErrorKind::Failed,
        NvidiaError::Refused(_) => ErrorKind::Failed,
        NvidiaError::NeedsRoot(_) => ErrorKind::PermissionDenied,
        NvidiaError::Unreadable { what: _, detail: _ } => ErrorKind::Io,
    };
    ModuleError::localised(kind, Msg::literal(e.to_text()))
}

pub open spec fn behind(context: Seq<char>, m: Seq<char>) -> Seq<char> {
    context + ": "@ + m
}

pub open spec fn context_msg(context: Seq<char>, detail: Seq<char>) -> MsgView {
    msg::message(
        "overclock.err.context"@,
        seq![("context"@, context), ("detail"@, detail)],
        "{context}: {detail}"@,
    )
}

/// An error with something said in front of it, in the kind it arrived as. A
/// module that is not supported has nothing to say.
pub open spec fn in_context(e: ErrorView, context: Seq<char>) -> ErrorView {
    match e {
        ErrorView::UnknownMethod(m) => ErrorView::UnknownMethod(behind(context, m)),
        ErrorView::InvalidParams(m) => ErrorView::InvalidParams(behind(context, m)),
        ErrorView::Failed(m) => ErrorView::Failed(behind(context, m)),
        ErrorView::Internal(m) => ErrorView::Internal(behind(context, m)),
        ErrorView::PermissionDenied(m) => ErrorView::PermissionDenied(behind(context, m)),
        ErrorView::NotCapable(m) => ErrorView::NotCapable(behind(context, m)),
        ErrorView::Io(m) => ErrorView::Io(behind(context, m)),
        ErrorView::Busy(m) => ErrorView::Busy(behind(context, m)),
        ErrorView::Unsupported => ErrorView::Unsupported,
        ErrorView::Localised(kind, m) => ErrorView::Localised(kind, context_msg(context, m.text)),
    }
}

fn put_behind(context: &str, m: &str) -> (r: String)
    ensures
        r@ == behind(context@, m@),
{
    String::from_str(context).concat(": ").concat(m)
}

/// Says something in front of an error, in the kind it arrived as.
pub fn keep_kind(e: ModuleError, context: &str) -> (r: ModuleError)
    ensures
        r@ == in_context(e@, context@),
{
    match e {
        ModuleError::UnknownMethod(m) => ModuleError::UnknownMethod(
            put_behind(context, m.as_str()),
        ),
        ModuleError::InvalidParams(m) => ModuleError::InvalidParams(
            put_behind(context, m.as_str()),
        ),
        ModuleError::Failed(m) => ModuleError::Failed(put_behind(context, m.as_str())),
        ModuleError::Internal(m) => ModuleError::Internal(put_behind(context, m.as_str())),
        ModuleError::PermissionDenied(m) => ModuleError::PermissionDenied(
            put_behind(context, m.as_str()),
        ),
        ModuleError::NotCapable(m) => ModuleError::NotCapable(put_behind(context, m.as_str())),
        ModuleError::Io(m) => ModuleError::Io(put_behind(context, m.as_str())),
        ModuleError::Busy(m) => ModuleError::Busy(put_behind(context, m.as_str())),
        ModuleError::Unsupported => ModuleError::Unsupported,
        ModuleError::Localised { kind, msg: m } => ModuleError::localised(
            kind,
            Msg::new(
                "overclock.err.context",
                msg::two(
                    msg::param("context", String::from_str(context)),
                    msg::param("detail", m.text),
                ),
                "{context}: {detail}",
            ),
        ),
    }
}

/// The step that failed, in words.
pub open spec fn step_context(step: Target, from: Target) -> Seq<char> {
    "stopped at core "@ + number::decimal_signed(step.core_offset_mhz as int) + " MHz / memory "@
        + number::decimal_signed(step.mem_offset_mhz as int) + " MHz and went back to core "@
        + number::decimal_signed(from.core_offset_mhz as int) + " / memory "@
        + number::decimal_signed(from.mem_offset_mhz as int)
}

/// Names the step that failed.
pub fn step_error(step: Target, from: Target, e: ModuleError) -> (r: ModuleError)
    ensures
        r@ == in_context(e@, step_context(step, from)),
{
    let context = String::from_str("stopped at core ").concat(
        number::show_signed(step.core_offset_mhz as i64).as_str(),
    ).concat(" MHz / memory ").concat(
        number::show_signed(step.mem_offset_mhz as i64).as_str(),
    ).concat(" MHz and went back to core ").concat(
        number::show_signed(from.core_offset_mhz as i64).as_str(),
    ).concat(" / memory ").concat(number::show_signed(from.mem_offset_mhz as i64).as_str());
    keep_kind(e, context.as_str())
}

// --- laws ----------------------------------------------------------------

/// Saying something in front of an error leaves its kind as it was.
pub proof fn law_context_keeps_kind(e: ErrorView, context: Seq<char>)
    ensures
        in_context(e, context).kind() == e.kind(),
{
}

/// A card's index is read from its name, and only from one of this vendor's.
pub proof fn law_a_card_is_addressed_by_its_index(n: nat, id: Seq<char>, vendor: Vendor)
    ensures
        index_in("nvidia:"@ + number::decimal(n)) == (if n <= 0xffff_ffff {
            Some(n)
        } else {
            None
        }),
        !text::starts_with(id, "nvidia:"@) ==> index_in(id) is None,
        vendor == Vendor::Nvidia ==> watched_index(vendor, id) == index_in(id),
        vendor != Vendor::Nvidia ==> watched_index(vendor, id) is None,
{
    reveal_strlit("nvidia:");
    assert("nvidia:"@.len() == 7);
    let s = "nvidia:"@ + number::decimal(n);
    assert(s.subrange(0, 7) =~= "nvidia:"@);
    assert(s.skip(7) =~= number::decimal(n));
    number::law_numbers_read_back(n, 0xffff_ffff);
}

/// An offset that reads back otherwise is told with what was read and what was
/// asked for, each by its own name.
pub proof fn law_a_mismatch_is_told_both_ways(got: int, asked: int)
    ensures
        core_mismatch(got, asked) matches ErrorView::Localised(kind, said) && kind
            == ErrorKind::Failed && said.key == "overclock.err.verifyCore"@ && said.params == seq![
            ("got"@, number::decimal_int(got)),
            ("asked"@, number::decimal_int(asked)),
        ],
        mem_mismatch(got, asked) matches ErrorView::Localised(kind, said) && kind
            == ErrorKind::Failed && said.key == "overclock.err.verifyMem"@ && said.params == seq![
            ("got"@, number::decimal_int(got)),
            ("asked"@, number::decimal_int(asked)),
        ],
{
}

/// What went wrong with the driver's tools is answered in kind, in their words.
pub proof fn law_driver_errors_are_answered_in_kind(m: Seq<char>, what: Seq<char>)
    ensures
        socket_error(NvidiaErrorView::NotInstalled(m)).kind() == ErrorKind::NotCapable,
        socket_error(NvidiaErrorView::NoDisplay(m)).kind() == ErrorKind::Failed,
        socket_error(NvidiaErrorView::Refused(m)).kind() == ErrorKind::Failed,
        socket_error(NvidiaErrorView::NeedsRoot(m)).kind() == ErrorKind::PermissionDenied,
        socket_error(NvidiaErrorView::Unreadable(what, m)).kind() == ErrorKind::Io,
        socket_error(NvidiaErrorView::Refused(m)) matches ErrorView::Localised(_, said)
            && said.text == m,
        socket_error(NvidiaErrorView::NeedsRoot(m)) matches ErrorView::Localised(_, said)
            && said.text == m,
{
}

/// Context is put before what was said, whatever kind of error it is.
pub proof fn law_context_is_put_before_what_was_said(
    m: Seq<char>,
    context: Seq<char>,
    kind: ErrorKind,
    said: MsgView,
)
    ensures
        in_context(ErrorView::Failed(m), context) == ErrorView::Failed(context + ": "@ + m),
        in_context(ErrorView::UnknownMethod(m), context) == ErrorView::UnknownMethod(
            context + ": "@ + m,
        ),
        in_context(ErrorView::InvalidParams(m), context) == ErrorView::InvalidParams(
            context + ": "@ + m,
        ),
        in_context(ErrorView::Internal(m), context) == ErrorView::Internal(context + ": "@ + m),
        in_context(ErrorView::PermissionDenied(m), context) == ErrorView::PermissionDenied(
            context + ": "@ + m,
        ),
        in_context(ErrorView::NotCapable(m), context) == ErrorView::NotCapable(context + ": "@ + m),
        in_context(ErrorView::Io(m), context) == ErrorView::Io(context + ": "@ + m),
        in_context(ErrorView::Busy(m), context) == ErrorView::Busy(context + ": "@ + m),
        in_context(ErrorView::Localised(kind, said), context) matches ErrorView::Localised(k, r)
            && k == kind && r.params == seq![("context"@, context), ("detail"@, said.text)],
{
}

/// A step that failed is told with where it stopped and where it went back to.
#[verifier::spinoff_prover]
#[verifier::rlimit(60)]
pub proof fn law_a_failed_step_is_told_with_both_ends(step: Target, from: Target)
    ensures
        text::starts_with(
            step_context(step, from),
            "stopped at core "@ + number::decimal_signed(step.core_offset_mhz as int),
        ),
        text::ends_with(
            step_context(step, from),
            number::decimal_signed(from.mem_offset_mhz as int),
        ),
        text::contains(
            step_context(step, from),
            " MHz / memory "@ + number::decimal_signed(step.mem_offset_mhz as int),
        ),
        text::contains(
            step_context(step, from),
            " MHz and went back to core "@ + number::decimal_signed(from.core_offset_mhz as int),
        ),
{
    let a = "stopped at core "@ + number::decimal_signed(step.core_offset_mhz as int);
    let b = " MHz / memory "@ + number::decimal_signed(step.mem_offset_mhz as int);
    let c = " MHz and went back to core "@ + number::decimal_signed(from.core_offset_mhz as int);
    let e = number::decimal_signed(from.mem_offset_mhz as int);
    let whole = step_context(step, from);
    let d = " / memory "@;
    assert(whole =~= a + (b + (c + (d + e))));
    text::law_a_part_is_contained(seq![], a, b + (c + (d + e)));
    assert(whole =~= a + b + (c + (d + e)));
    text::law_a_part_is_contained(a, b, c + (d + e));
    assert(whole =~= (a + b) + c + (d + e));
    text::law_a_part_is_contained(a + b, c, d + e);
    assert(whole =~= (a + b + c + d) + e);
    text::law_a_part_is_contained(a + b + c + d, e, seq![]);
}

/// Each offset is written as it was asked for, exactly where the card takes it and
/// does not read so already; the clocks are pinned or let go where the card can.
pub proof fn law_what_is_written_to_a_card(
    gpu: &GpuProbe,
    target: Target,
    current: &Result<(i32, Option<Range>), NvidiaError>,
    core: Option<i32>,
    mem: Option<i32>,
    clocks: ClockWrite,
    lock: ClockLock,
)
    requires
        call_ensures(core_write, (gpu, target, current), core),
        call_ensures(mem_write, (gpu, target, current), mem),
        call_ensures(clock_write, (gpu, target), clocks),
    ensures
        core matches Some(v) ==> v == target.core_offset_mhz,
        core is None <==> gpu.core_offset is None || (current matches Ok((v, _)) && v
            == target.core_offset_mhz),
        mem matches Some(v) ==> v == target.mem_offset_mhz,
        mem is None <==> gpu.mem_offset is None || (current matches Ok((v, _)) && v
            == target.mem_offset_mhz),
        gpu.clock_lock is None ==> clocks is Nothing,
        gpu.clock_lock is Some && target.core_clock == Some(lock) ==> clocks == ClockWrite::Lock(
            lock,
        ),
        gpu.clock_lock is Some && target.core_clock is None ==> clocks is Reset,
{
}

/// A write is believed where it reads back as it was asked for, on a card that can
/// be read; another value is told, and so is a read that fails.
pub proof fn law_a_write_is_believed_when_it_reads_back(
    gpu: &GpuProbe,
    expected: Target,
    read: Result<(i32, Option<Range>), NvidiaError>,
    core: Result<(), ModuleError>,
    mem: Result<(), ModuleError>,
)
    requires
        call_ensures(verify_core, (gpu, expected, read), core),
        call_ensures(verify_mem, (gpu, expected, read), mem),
        gpu.vendor == Vendor::Nvidia,
        gpu.core_offset is Some,
        gpu.mem_offset is Some,
    ensures
        core is Ok <==> (read matches Ok((v, _)) && v == expected.core_offset_mhz),
        mem is Ok <==> (read matches Ok((v, _)) && v == expected.mem_offset_mhz),
        read matches Ok((v, _)) ==> (v != expected.core_offset_mhz ==> (core->Err_0)@
            == core_mismatch(v as int, expected.core_offset_mhz as int)),
        read matches Ok((v, _)) ==> (v != expected.mem_offset_mhz ==> (mem->Err_0)@ == mem_mismatch(
            v as int,
            expected.mem_offset_mhz as int,
        )),
{
}

/// A card is written to by its index, and only one of this vendor's; every other
/// says why it cannot be.
pub proof fn law_only_cards_with_an_index_are_written_to(
    gpu: &GpuProbe,
    r: Result<u32, ModuleError>,
    n: u32,
)
    requires
        call_ensures(write_target, (gpu,), r),
    ensures
        gpu.vendor == Vendor::Nvidia && gpu.id@ == "nvidia:"@ + number::decimal(n as nat) ==> r
            == Ok::<u32, ModuleError>(n),
        gpu.vendor != Vendor::Nvidia ==> (r matches Err(e) && e@.kind() == ErrorKind::NotCapable
            && (e@ matches ErrorView::Localised(_, said) && said.text == gpu.detail@)),
{
    law_a_card_is_addressed_by_its_index(n as nat, gpu.id@, gpu.vendor);
}

/// Each message has a key of its own, names what it is about, and says so in these
/// words.
pub proof fn law_messages_have_keys_and_words(
    got: int,
    asked: int,
    context: Seq<char>,
    detail: Seq<char>,
)
    ensures
        core_mismatch(got, asked) matches ErrorView::Localised(kind, m)
            && kind == ErrorKind::Failed
            && m.key == "overclock.err.verifyCore"@
            && m.text == msg::fill("the driver reports a core offset of {got} MHz after being asked for {asked} MHz"@, m.params),
        mem_mismatch(got, asked) matches ErrorView::Localised(kind, m)
            && kind == ErrorKind::Failed
            && m.key == "overclock.err.verifyMem"@
            && m.text == msg::fill("the driver reports a memory offset of {got} MHz after being asked for {asked} MHz"@, m.params),
        ({
            let m = context_msg(context, detail);
            &&& m.key == "overclock.err.context"@
            &&& m.params.len() == 2
            &&& m.params[0].0 == "context"@
            &&& m.params[1].0 == "detail"@
            &&& m.text == msg::fill("{context}: {detail}"@, m.params)
        }),
{
}

} // verus!
