//! The offsets through the driver's own library, which needs no X, no session
//! and no `Coolbits` - only root.
//!
//! The library is opened at run time and its symbols are resolved one by one;
//! this module decides what follows from which symbols there are and from what
//! the calls returned.
use vstd::prelude::*;

use crate::overclock::plan::Range;

verus! {

/// The return codes whose meaning differs to a caller.
pub const NVML_SUCCESS: i32 = 0;

pub const NVML_NOT_SUPPORTED: i32 = 3;

pub const NVML_NO_PERMISSION: i32 = 4;

/// What went wrong, in the terms the caller has to distinguish.
#[derive(Debug, Clone, PartialEq, Eq)]
pub enum NvmlError {
    /// No library, or a driver without these symbols.
    Unavailable,
    /// The card or driver does not offer this knob.
    NotSupported,
    /// The call is right and the caller is not root.
    NeedsRoot,
    /// Anything else the driver reported, with its own words.
    Failed(String),
}

/// What a failure says.
#[verifier::ext_equal]
pub enum NvmlErrorView {
    Unavailable,
    NotSupported,
    NeedsRoot,
    Failed(Seq<char>),
}

impl View for NvmlError {
    type V = NvmlErrorView;

    open spec fn view(&self) -> NvmlErrorView {
        match self {
            NvmlError::Unavailable => NvmlErrorView::Unavailable,
            NvmlError::NotSupported => NvmlErrorView::NotSupported,
            NvmlError::NeedsRoot => NvmlErrorView::NeedsRoot,
            NvmlError::Failed(m) => NvmlErrorView::Failed(m@),
        }
    }
}

/// Which of the optional symbols the library has. An older driver has fewer.
#[derive(Debug, Clone, Copy)]
pub struct Symbols {
    pub get_core: bool,
    pub set_core: bool,
    pub get_mem: bool,
    pub set_mem: bool,
    pub core_range: bool,
    pub mem_range: bool,
}

/// What the calls of a reading returned, in the order they are made: the
/// handle, the value, the range. What follows a failure was not called and
/// means nothing. `words` is the driver's text for the code that failed.
#[derive(Debug, Clone)]
pub struct Reading {
    pub device_rc: i32,
    pub get_rc: i32,
    pub value: i32,
    pub range_rc: i32,
    pub min: i32,
    pub max: i32,
    pub words: String,
}

/// What the calls of a writing returned: the handle, then the value.
#[derive(Debug, Clone)]
pub struct Writing {
    pub device_rc: i32,
    pub set_rc: i32,
    pub words: String,
}

pub open spec fn meaning(rc: i32, words: Seq<char>) -> NvmlErrorView {
    if rc == NVML_NOT_SUPPORTED {
        NvmlErrorView::NotSupported
    } else if rc == NVML_NO_PERMISSION {
        NvmlErrorView::NeedsRoot
    } else {
        NvmlErrorView::Failed(words)
    }
}

pub fn translate(rc: i32, words: &String) -> (r: NvmlError)
    ensures
        r@ == meaning(rc, words@),
{
    if rc == NVML_NOT_SUPPORTED {
        NvmlError::NotSupported
    } else if rc == NVML_NO_PERMISSION {
        NvmlError::NeedsRoot
    } else {
        NvmlError::Failed(words.clone())
    }
}

/// Whether an offset can be moved at all: read and written, core or memory. A
/// driver with the getters and not the setters would report a current offset
/// it could never change.
pub fn available(symbols: Option<Symbols>) -> (r: bool)
    ensures
        r == (symbols matches Some(s) && (s.get_core && s.set_core || s.get_mem && s.set_mem)),
{
    match symbols {
        Some(s) => s.get_core && s.set_core || s.get_mem && s.set_mem,
        None => false,
    }
}

/// A reading, given whether the getter and the range query are there.
pub open spec fn read_view(get: bool, range: bool, reading: Reading) -> Result<
    (i32, Option<Range>),
    NvmlErrorView,
> {
    if !get {
        Err(NvmlErrorView::Unavailable)
    } else if reading.device_rc != NVML_SUCCESS {
        Err(meaning(reading.device_rc, reading.words@))
    } else if reading.get_rc != NVML_SUCCESS {
        Err(meaning(reading.get_rc, reading.words@))
    } else {
        Ok(
            (
                reading.value,
                if range && reading.range_rc == NVML_SUCCESS {
                    Some(Range { min: reading.min, max: reading.max })
                } else {
                    None
                },
            ),
        )
    }
}

pub open spec fn write_view(set: bool, writing: Writing) -> Result<(), NvmlErrorView> {
    if !set {
        Err(NvmlErrorView::Unavailable)
    } else if writing.device_rc != NVML_SUCCESS {
        Err(meaning(writing.device_rc, writing.words@))
    } else if writing.set_rc != NVML_SUCCESS {
        Err(meaning(writing.set_rc, writing.words@))
    } else {
        Ok(())
    }
}

pub open spec fn outcome<T>(r: Result<T, NvmlError>) -> Result<T, NvmlErrorView> {
    match r {
        Ok(t) => Ok(t),
        Err(e) => Err(e@),
    }
}

fn read(get: bool, range: bool, reading: &Reading) -> (r: Result<(i32, Option<Range>), NvmlError>)
    ensures
        outcome(r) == read_view(get, range, *reading),
{
    if !get {
        return Err(NvmlError::Unavailable);
    }
    if reading.device_rc != NVML_SUCCESS {
        return Err(translate(reading.device_rc, &reading.words));
    }
    if reading.get_rc != NVML_SUCCESS {
        return Err(translate(reading.get_rc, &reading.words));
    }
    // The range is a bonus: a driver that will not state one can still move
    // the offset.
    let stated = if range && reading.range_rc == NVML_SUCCESS {
        Some(Range::new(reading.min, reading.max))
    } else {
        None
    };
    Ok((reading.value, stated))
}

fn write(set: bool, writing: &Writing) -> (r: Result<(), NvmlError>)
    ensures
        outcome(r) == write_view(set, *writing),
{
    if !set {
        return Err(NvmlError::Unavailable);
    }
    if writing.device_rc != NVML_SUCCESS {
        return Err(translate(writing.device_rc, &writing.words));
    }
    if writing.set_rc == NVML_SUCCESS {
        return Ok(());
    }
    Err(translate(writing.set_rc, &writing.words))
}

/// The core offset, and the range the driver says it will accept.
pub fn core_offset(symbols: Option<Symbols>, reading: &Reading) -> (r: Result<
    (i32, Option<Range>),
    NvmlError,
>)
    ensures
        outcome(r) == (match symbols {
            Some(s) => read_view(s.get_core, s.core_range, *reading),
            None => Err(NvmlErrorView::Unavailable),
        }),
{
    match symbols {
        Some(s) => read(s.get_core, s.core_range, reading),
        None => Err(NvmlError::Unavailable),
    }
}

/// The memory offset, and the range the driver says it will accept.
pub fn mem_offset(symbols: Option<Symbols>, reading: &Reading) -> (r: Result<
    (i32, Option<Range>),
    NvmlError,
>)
    ensures
        outcome(r) == (match symbols {
            Some(s) => read_view(s.get_mem, s.mem_range, *reading),
            None => Err(NvmlErrorView::Unavailable),
        }),
{
    match symbols {
        Some(s) => read(s.get_mem, s.mem_range, reading),
        None => Err(NvmlError::Unavailable),
    }
}

pub fn set_core_offset(symbols: Option<Symbols>, writing: &Writing) -> (r: Result<(), NvmlError>)
    ensures
        outcome(r) == (match symbols {
            Some(s) => write_view(s.set_core, *writing),
            None => Err(NvmlErrorView::Unavailable),
        }),
{
    match symbols {
        Some(s) => write(s.set_core, writing),
        None => Err(NvmlError::Unavailable),
    }
}

pub fn set_mem_offset(symbols: Option<Symbols>, writing: &Writing) -> (r: Result<(), NvmlError>)
    ensures
        outcome(r) == (match symbols {
            Some(s) => write_view(s.set_mem, *writing),
            None => Err(NvmlErrorView::Unavailable),
        }),
{
    match symbols {
        Some(s) => write(s.set_mem, writing),
        None => Err(NvmlError::Unavailable),
    }
}

/// The library's answer 3 means that the card cannot, 4 that it takes more
/// rights, and any other failure is told in the library's own words.
pub proof fn law_answers_mean_what_they_mean(rc: i32, words: Seq<char>)
    ensures
        meaning(3, words) == NvmlErrorView::NotSupported,
        meaning(4, words) == NvmlErrorView::NeedsRoot,
        rc != 3 && rc != 4 ==> meaning(rc, words) == NvmlErrorView::Failed(words),
{
}

/// An offset is read exactly where the library can, the card was found and the
/// read went through, as it was read; the range comes with it where that could be
/// read too.
pub proof fn law_an_offset_is_read_as_it_is(get: bool, range: bool, reading: Reading)
    ensures
        read_view(get, range, reading) is Ok <==> get && reading.device_rc == 0 && reading.get_rc
            == 0,
        read_view(get, range, reading) matches Ok((value, found)) ==> value == reading.value && (
        found is Some <==> range && reading.range_rc == 0) && (found matches Some(r) ==> r.min
            == reading.min && r.max == reading.max),
        !get ==> read_view(get, range, reading) == Err::<(i32, Option<Range>), NvmlErrorView>(
            NvmlErrorView::Unavailable,
        ),
        get && reading.device_rc == 4 ==> read_view(get, range, reading) == Err::<
            (i32, Option<Range>),
            NvmlErrorView,
        >(NvmlErrorView::NeedsRoot),
        get && reading.device_rc == 0 && reading.get_rc == 3 ==> read_view(get, range, reading)
            == Err::<(i32, Option<Range>), NvmlErrorView>(NvmlErrorView::NotSupported),
{
}

/// An offset is written exactly where the library can, the card was found and the
/// write went through.
pub proof fn law_an_offset_is_written_or_refused(set: bool, writing: Writing)
    ensures
        write_view(set, writing) is Ok <==> set && writing.device_rc == 0 && writing.set_rc == 0,
        !set ==> write_view(set, writing) == Err::<(), NvmlErrorView>(NvmlErrorView::Unavailable),
        set && writing.device_rc == 0 && writing.set_rc == 4 ==> write_view(set, writing) == Err::<
            (),
            NvmlErrorView,
        >(NvmlErrorView::NeedsRoot),
        set && writing.device_rc == 3 ==> write_view(set, writing) == Err::<(), NvmlErrorView>(
            NvmlErrorView::NotSupported,
        ),
{
}

/// Each offset is read and written through its own functions, and without the
/// library neither is.
pub proof fn law_each_offset_has_its_own_functions(
    s: Symbols,
    reading: &Reading,
    writing: &Writing,
    core: Result<(i32, Option<Range>), NvmlError>,
    mem: Result<(i32, Option<Range>), NvmlError>,
    set_core: Result<(), NvmlError>,
    set_mem: Result<(), NvmlError>,
    can: bool,
)
    requires
        call_ensures(core_offset, (Some(s), reading), core),
        call_ensures(mem_offset, (Some(s), reading), mem),
        call_ensures(set_core_offset, (Some(s), writing), set_core),
        call_ensures(set_mem_offset, (Some(s), writing), set_mem),
        call_ensures(available, (Some(s),), can),
    ensures
        core is Ok <==> s.get_core && reading.device_rc == 0 && reading.get_rc == 0,
        mem is Ok <==> s.get_mem && reading.device_rc == 0 && reading.get_rc == 0,
        core matches Ok((v, range)) ==> v == reading.value && (range is Some <==> s.core_range
            && reading.range_rc == 0),
        mem matches Ok((v, range)) ==> v == reading.value && (range is Some <==> s.mem_range
            && reading.range_rc == 0),
        set_core is Ok <==> s.set_core && writing.device_rc == 0 && writing.set_rc == 0,
        set_mem is Ok <==> s.set_mem && writing.device_rc == 0 && writing.set_rc == 0,
        can <==> (s.get_core && s.set_core) || (s.get_mem && s.set_mem),
{
}

} // verus!
