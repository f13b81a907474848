//! What this machine will let anyone change about its GPUs, and - when the
//! answer is nothing - which of the reasons applies.
use vstd::prelude::*;
use vstd::string::*;

use crate::number;
use crate::overclock::nvidia::NvGpu;
use crate::overclock::nvidia::NvidiaError;
use crate::overclock::plan::Ceiling;
use crate::overclock::plan::Range;
use crate::text;

verus! {

#[derive(Debug, Clone, Copy, PartialEq, Eq, Structural)]
pub enum Vendor {
    Nvidia,
    Amd,
    Intel,
    Unknown,
}

/// One GPU, and what of it can be moved. A knob that is `None` is absent.
#[derive(Debug, Clone)]
pub struct GpuProbe {
    /// How every call names a card: `nvidia:0` for an `nvidia-smi` index,
    /// `drm:card1` for a card of the kernel's graphics class.
    pub id: String,
    pub name: String,
    pub vendor: Vendor,
    pub driver: String,
    pub core_offset: Option<Range>,
    pub mem_offset: Option<Range>,
    /// The frequencies this card lists as supported.
    pub clock_lock: Option<Range>,
    /// Whether the offsets can be written; `None` where nobody asked.
    pub offsets_writable: Option<bool>,
    /// Everything a person needs to know about this line, in a sentence.
    pub detail: String,
}

/// What a probed card is.
#[verifier::ext_equal]
pub struct GpuView {
    pub id: Seq<char>,
    pub name: Seq<char>,
    pub vendor: Vendor,
    pub driver: Seq<char>,
    pub core_offset: Option<Range>,
    pub mem_offset: Option<Range>,
    pub clock_lock: Option<Range>,
    pub offsets_writable: Option<bool>,
    pub detail: Seq<char>,
}

impl View for GpuProbe {
    type V = GpuView;

    open spec fn view(&self) -> GpuView {
        GpuView {
            id: self.id@,
            name: self.name@,
            vendor: self.vendor,
            driver: self.driver@,
            core_offset: self.core_offset,
            mem_offset: self.mem_offset,
            clock_lock: self.clock_lock,
            offsets_writable: self.offsets_writable,
            detail: self.detail@,
        }
    }
}

impl GpuView {
    pub open spec fn ceiling(self) -> Ceiling {
        Ceiling {
            core_offset: self.core_offset,
            mem_offset: self.mem_offset,
            clock: self.clock_lock,
        }
    }

    pub open spec fn drivable(self) -> bool {
        self.core_offset is Some || self.mem_offset is Some || self.clock_lock is Some
    }
}

impl GpuProbe {
    /// The knobs, without the prose.
    pub fn ceiling(&self) -> (r: Ceiling)
        ensures
            r == self@.ceiling(),
    {
        Ceiling {
            core_offset: self.core_offset,
            mem_offset: self.mem_offset,
            clock: self.clock_lock,
        }
    }

    /// Whether anything on this card can be driven at all.
    pub fn drivable(&self) -> (r: bool)
        ensures
            r == self@.drivable(),
    {
        self.core_offset.is_some() || self.mem_offset.is_some() || self.clock_lock.is_some()
    }
}

#[derive(Debug, Clone)]
pub struct Probe {
    pub gpus: Vec<GpuProbe>,
    /// Whether any card has any knob.
    pub supported: bool,
    pub detail: String,
}

pub open spec fn gpu_views(gpus: Seq<GpuProbe>) -> Seq<GpuView> {
    Seq::new(gpus.len(), |i: int| gpus[i]@)
}

/// The first card of that id.
pub open spec fn first_of_id(gpus: Seq<GpuProbe>, id: Seq<char>) -> Option<GpuProbe>
    decreases gpus.len(),
{
    if gpus.len() == 0 {
        None
    } else if gpus[0].id@ == id {
        Some(gpus[0])
    } else {
        first_of_id(gpus.skip(1), id)
    }
}

/// The first card that can be driven.
pub open spec fn first_drivable(gpus: Seq<GpuProbe>) -> Option<GpuProbe>
    decreases gpus.len(),
{
    if gpus.len() == 0 {
        None
    } else if gpus[0]@.drivable() {
        Some(gpus[0])
    } else {
        first_drivable(gpus.skip(1))
    }
}

pub open spec fn some_drivable(gpus: Seq<GpuView>) -> bool {
    exists|i: int| 0 <= i < gpus.len() && (#[trigger] gpus[i]).drivable()
}

/// The names of the cards that can be driven.
pub open spec fn drivable_names(gpus: Seq<GpuView>) -> Seq<Seq<char>>
    decreases gpus.len(),
{
    if gpus.len() == 0 {
        seq![]
    } else if gpus.last().drivable() {
        drivable_names(gpus.drop_last()).push(gpus.last().name)
    } else {
        drivable_names(gpus.drop_last())
    }
}

/// What is said about a machine with these cards.
pub open spec fn machine_detail(gpus: Seq<GpuView>) -> Seq<char> {
    if gpus.len() == 0 {
        "no GPU was found to ask about"@
    } else if some_drivable(gpus) {
        "tunable: "@ + text::join(drivable_names(gpus), ", "@)
    } else {
        "a GPU was found, and nothing about it can be changed on this machine"@
    }
}

impl Probe {
    pub fn gpu(&self, id: &str) -> (r: Option<&GpuProbe>)
        ensures
            match r {
                Some(g) => first_of_id(self.gpus@, id@) == Some(*g) && g.id@ == id@,
                None => first_of_id(self.gpus@, id@) is None,
            },
    {
        let n: usize = self.gpus.len();
        let mut i: usize = 0;
        proof {
            assert(self.gpus@.skip(0) =~= self.gpus@);
        }
        while i < n
            invariant
                n == self.gpus@.len(),
                i <= n,
                first_of_id(self.gpus@, id@) == first_of_id(self.gpus@.skip(i as int), id@),
            decreases n - i,
        {
            proof {
                assert(self.gpus@.skip(i as int)[0] == self.gpus@[i as int]);
                assert(self.gpus@.skip(i as int).skip(1) =~= self.gpus@.skip(i + 1));
            }
            if text::same(self.gpus[i].id.as_str(), id) {
                return Some(&self.gpus[i]);
            }
            i = i + 1;
        }
        None
    }

    /// The card a client should open on: the first one that can be driven.
    pub fn default_gpu(&self) -> (r: Option<&GpuProbe>)
        ensures
            match r {
                Some(g) => first_drivable(self.gpus@) == Some(*g) && g@.drivable(),
                None => first_drivable(self.gpus@) is None,
            },
    {
        let n: usize = self.gpus.len();
        let mut i: usize = 0;
        proof {
            assert(self.gpus@.skip(0) =~= self.gpus@);
        }
        while i < n
            invariant
                n == self.gpus@.len(),
                i <= n,
                first_drivable(self.gpus@) == first_drivable(self.gpus@.skip(i as int)),
            decreases n - i,
        {
            proof {
                assert(self.gpus@.skip(i as int)[0] == self.gpus@[i as int]);
                assert(self.gpus@.skip(i as int).skip(1) =~= self.gpus@.skip(i + 1));
            }
            if self.gpus[i].drivable() {
                return Some(&self.gpus[i]);
            }
            i = i + 1;
        }
        None
    }
}

/// Puts together what was found: the cards `nvidia-smi` lists, then those of
/// the kernel's graphics class.
pub fn probe(nvidia: Vec<GpuProbe>, drm: Vec<GpuProbe>) -> (r: Probe)
    ensures
        r.gpus@ == nvidia@ + drm@,
        r.supported == some_drivable(gpu_views(r.gpus@)),
        r.detail@ == machine_detail(gpu_views(r.gpus@)),
{
    let mut gpus = nvidia;
    let mut drm = drm;
    let ghost all = nvidia@ + drm@;
    gpus.append(&mut drm);
    proof {
        assert(gpus@ =~= all);
    }
    let n: usize = gpus.len();
    let mut names: Vec<String> = Vec::new();
    let mut supported: bool = false;
    let mut i: usize = 0;
    let ghost seen = gpu_views(all);
    proof {
        assert(seen.take(0) =~= seq![]);
        assert(text::views(names@) =~= seq![]);
    }
    while i < n
        invariant
            gpus@ == all,
            n == all.len(),
            i <= n,
            seen == gpu_views(all),
            text::views(names@) == drivable_names(seen.take(i as int)),
            supported == some_drivable(seen.take(i as int)),
        decreases n - i,
    {
        proof {
            assert(seen.take(i + 1).drop_last() =~= seen.take(i as int));
            assert(seen.take(i + 1).last() == all[i as int]@);
        }
        let here = gpus[i].drivable();
        if here {
            text::push_string(&mut names, gpus[i].name.clone());
        }
        proof {
            let now = seen.take(i + 1);
            if here {
                assert(now[i as int].drivable());
            }
            if supported {
                let j = choose|j: int|
                    0 <= j < seen.take(i as int).len() && (#[trigger] seen.take(
                        i as int,
                    )[j]).drivable();
                assert(now[j].drivable());
            }
            if some_drivable(now) {
                let j = choose|j: int| 0 <= j < now.len() && (#[trigger] now[j]).drivable();
                if j < i {
                    assert(seen.take(i as int)[j].drivable());
                }
            }
        }
        supported = supported || here;
        i = i + 1;
    }
    proof {
        assert(seen.take(n as int) =~= seen);
    }
    let detail = if n == 0 {
        String::from_str("no GPU was found to ask about")
    } else if supported {
        String::from_str("tunable: ").concat(text::joined(&names, ", ").as_str())
    } else {
        String::from_str("a GPU was found, and nothing about it can be changed on this machine")
    };
    Probe { gpus, supported, detail }
}

// --- NVIDIA --------------------------------------------------------------

/// The offsets that reading the two attributes shows, and what is said of
/// them. A core offset that cannot be read is the reason given first.
pub open spec fn offsets_read(
    core: Result<(i32, Option<Range>), NvidiaError>,
    mem: Result<(i32, Option<Range>), NvidiaError>,
) -> (Option<Range>, Option<Range>, Seq<char>) {
    match core {
        Err(e) => (None, None, "no clock offsets: "@ + e@.text()),
        Ok((_, core_range)) => match mem {
            Err(e) => (None, None, "no clock offsets: "@ + e@.text()),
            Ok((_, mem_range)) => (core_range, mem_range, "clock offsets are readable"@),
        },
    }
}

/// Whether to put the question that costs a write: only where the caller
/// allows it and there is an offset at all.
pub fn ask_writable(allow_writes: bool, core_offset: Option<Range>) -> (r: bool)
    ensures
        r == (allow_writes && core_offset is Some),
{
    allow_writes && core_offset.is_some()
}

pub fn read_offsets(
    core: &Result<(i32, Option<Range>), NvidiaError>,
    mem: &Result<(i32, Option<Range>), NvidiaError>,
) -> (r: (Option<Range>, Option<Range>, String))
    ensures
        (r.0, r.1, r.2@) == offsets_read(*core, *mem),
{
    match core {
        Err(e) => (
            None,
            None,
            String::from_str("no clock offsets: ").concat(e.to_text().as_str()),
        ),
        Ok((_, core_range)) => match mem {
            Err(e) => (
                None,
                None,
                String::from_str("no clock offsets: ").concat(e.to_text().as_str()),
            ),
            Ok((_, mem_range)) => (
                *core_range,
                *mem_range,
                String::from_str("clock offsets are readable"),
            ),
        },
    }
}

/// What is said of the offsets once it is known, or not, whether they can be
/// set.
pub open spec fn offsets_said(offset_detail: Seq<char>, writable: Option<bool>) -> Seq<char> {
    match writable {
        Some(true) => "clock offsets can be set"@,
        Some(false) =>
            "clock offsets are readable but not settable; the X screen needs Coolbits before the driver will take one"@,
        None => offset_detail,
    }
}

pub open spec fn nvidia_detail(
    offset_detail: Seq<char>,
    writable: Option<bool>,
    clock_lock: Option<Range>,
    max_core_mhz: Option<i32>,
) -> Seq<char> {
    let offsets = offsets_said(offset_detail, writable);
    match clock_lock {
        Some(range) => offsets + ". Clocks can be pinned between "@ + number::decimal_int(
            range.min as int,
        ) + " and "@ + number::decimal_int(range.max as int)
            + " MHz, which needs root and stays inside what the card already supports"@,
        None => match max_core_mhz {
            Some(mhz) => offsets + ". The card reports a maximum of "@ + number::decimal_int(
                mhz as int,
            )
                + " MHz and will not enumerate the clocks it supports, so pinning them is not offered"@,
            None => offsets + ". This card's clocks cannot be pinned"@,
        },
    }
}

pub fn describe_nvidia(
    offset_detail: &str,
    writable: Option<bool>,
    clock_lock: Option<Range>,
    max_core_mhz: Option<i32>,
) -> (r: String)
    ensures
        r@ == nvidia_detail(offset_detail@, writable, clock_lock, max_core_mhz),
{
    let offsets = match writable {
        Some(can) => if can {
            String::from_str("clock offsets can be set")
        } else {
            String::from_str(
                "clock offsets are readable but not settable; the X screen needs Coolbits before the driver will take one",
            )
        },
        None => String::from_str(offset_detail),
    };
    match clock_lock {
        Some(range) => offsets.concat(". Clocks can be pinned between ").concat(
            number::show_int(range.min as i64).as_str(),
        ).concat(" and ").concat(number::show_int(range.max as i64).as_str()).concat(
            " MHz, which needs root and stays inside what the card already supports",
        ),
        None => match max_core_mhz {
            Some(mhz) => offsets.concat(". The card reports a maximum of ").concat(
                number::show_int(mhz as i64).as_str(),
            ).concat(
                " MHz and will not enumerate the clocks it supports, so pinning them is not offered",
            ),
            None => offsets.concat(". This card's clocks cannot be pinned"),
        },
    }
}

/// A range, unless the offsets are known to be unwritable: a slider that
/// always fails is worse than no slider.
pub open spec fn offered(range: Option<Range>, writable: Option<bool>) -> Option<Range> {
    if writable == Some(false) {
        None
    } else {
        range
    }
}

/// One card that `nvidia-smi` lists, as the probe reports it.
pub open spec fn nvidia_view(
    gpu: NvGpu,
    clock_lock: Option<Range>,
    core: Result<(i32, Option<Range>), NvidiaError>,
    mem: Result<(i32, Option<Range>), NvidiaError>,
    writable: Option<bool>,
) -> GpuView {
    let (core_offset, mem_offset, offset_detail) = offsets_read(core, mem);
    GpuView {
        id: "nvidia:"@ + number::decimal(gpu.index as nat),
        name: gpu.name@,
        vendor: Vendor::Nvidia,
        driver: "nvidia"@,
        core_offset: offered(core_offset, writable),
        mem_offset: offered(mem_offset, writable),
        clock_lock,
        offsets_writable: writable,
        detail: nvidia_detail(offset_detail, writable, clock_lock, gpu.max_core_mhz),
    }
}

/// Reports one NVIDIA card from what was asked of it. `writable` is what the
/// question that costs a write answered, where it was put and answered.
pub fn nvidia_card(
    gpu: NvGpu,
    clock_lock: Option<Range>,
    core: &Result<(i32, Option<Range>), NvidiaError>,
    mem: &Result<(i32, Option<Range>), NvidiaError>,
    writable: Option<bool>,
) -> (r: GpuProbe)
    ensures
        r@ == nvidia_view(gpu, clock_lock, *core, *mem, writable),
{
    let (core_offset, mem_offset, offset_detail) = read_offsets(core, mem);
    let detail = describe_nvidia(offset_detail.as_str(), writable, clock_lock, gpu.max_core_mhz);
    let known_unwritable = match writable {
        Some(can) => !can,
        None => false,
    };
    GpuProbe {
        id: String::from_str("nvidia:").concat(number::show(gpu.index as u64).as_str()),
        name: gpu.name,
        vendor: Vendor::Nvidia,
        driver: String::from_str("nvidia"),
        core_offset: if known_unwritable {
            None
        } else {
            core_offset
        },
        mem_offset: if known_unwritable {
            None
        } else {
            mem_offset
        },
        clock_lock,
        offsets_writable: writable,
        detail,
    }
}

// --- the kernel's graphics class -----------------------------------------

/// Whole cards (`card0`), not their connectors (`card0-DP-1`).
pub fn is_card_name(name: &str) -> (r: bool)
    ensures
        r == (text::starts_with(name@, "card"@) && !text::contains(name@, "-"@)),
{
    text::str_starts(name, "card") && !text::str_has(name, "-")
}

/// The rest of a line that starts with the prefix.
pub open spec fn after_prefix(line: Seq<char>, prefix: Seq<char>) -> Option<Seq<char>> {
    if text::starts_with(line, prefix) {
        Some(line.skip(prefix.len() as int))
    } else {
        None
    }
}

/// The driver that a card's `uevent` names.
pub open spec fn uevent_driver(uevent: Seq<char>) -> Seq<char> {
    match text::first_some(
        text::lines(uevent),
        |l: Seq<char>| after_prefix(l, "DRIVER="@),
    ) {
        Some(d) => d,
        None => "unknown"@,
    }
}

pub fn driver_of(uevent: &str) -> (r: String)
    ensures
        r@ == uevent_driver(uevent@),
{
    let rows = text::lines_of(&text::chars_of(uevent));
    let mark = text::chars_of("DRIVER=");
    let ghost all = text::lines(uevent@);
    let ghost f = |l: Seq<char>| after_prefix(l, "DRIVER="@);
    let n: usize = rows.len();
    let mut i: usize = 0;
    proof {
        text::lemma_first_some_next(all, f, 0);
    }
    while i < n
        invariant
            n == rows@.len(),
            i <= n,
            mark@ == "DRIVER="@,
            all == text::lines(uevent@),
            all == text::rows(rows@),
            f == (|l: Seq<char>| after_prefix(l, "DRIVER="@)),
            text::first_some(all, f) == text::first_some(all.skip(i as int), f),
        decreases n - i,
    {
        proof {
            text::lemma_first_some_next(all, f, i as int);
            assert(all[i as int] == rows@[i as int]@);
        }
        if text::is_at(&rows[i], &mark, 0) {
            let end: usize = rows[i].len();
            let rest = text::slice(&rows[i], mark.len(), end);
            proof {
                assert(rest@ =~= rows@[i as int]@.skip(mark@.len() as int));
            }
            return text::string_of(&rest);
        }
        i = i + 1;
    }
    proof {
        text::lemma_first_some_next(all, f, n as int);
    }
    String::from_str("unknown")
}

/// A card with no knob that can be driven.
pub open spec fn undriven(
    id: Seq<char>,
    name: Seq<char>,
    vendor: Vendor,
    driver: Seq<char>,
    detail: Seq<char>,
) -> GpuView {
    GpuView {
        id,
        name,
        vendor,
        driver,
        core_offset: None,
        mem_offset: None,
        clock_lock: None,
        offsets_writable: None,
        detail,
    }
}

fn without_knobs(
    id: String,
    name: String,
    vendor: Vendor,
    driver: String,
    detail: String,
) -> (r: GpuProbe)
    ensures
        r@ == undriven(id@, name@, vendor, driver@, detail@),
{
    GpuProbe {
        id,
        name,
        vendor,
        driver,
        core_offset: None,
        mem_offset: None,
        clock_lock: None,
        offsets_writable: None,
        detail,
    }
}

pub open spec fn amd_view(id: Seq<char>, driver: Seq<char>, overdrive: Option<Seq<char>>) -> GpuView {
    undriven(
        id,
        "AMD graphics"@,
        Vendor::Amd,
        driver,
        match overdrive {
            Some(contents) => if text::contains(contents, "OD_SCLK"@) {
                "AMD Overdrive is enabled on this card and pyren does not drive it yet: it has never been tested on AMD hardware, and an untested write here is not the kind that fails with an error message"@
            } else {
                "this card exposes pp_od_clk_voltage without an OD_SCLK table, so Overdrive is off (amdgpu.ppfeaturemask enables it)"@
            },
            None =>
                "no pp_od_clk_voltage on this card, so the kernel is offering no Overdrive interface at all"@,
        },
    )
}

/// AMD Overdrive: detected, deliberately not driven. `overdrive` is the
/// contents of `pp_od_clk_voltage`, where the card has it.
pub fn amd(id: String, driver: &str, overdrive: Option<String>) -> (r: GpuProbe)
    ensures
        r@ == amd_view(id@, driver@, text::opt_view(overdrive)),
{
    let detail = match overdrive {
        Some(contents) => if text::str_has(contents.as_str(), "OD_SCLK") {
            String::from_str(
                "AMD Overdrive is enabled on this card and pyren does not drive it yet: it has never been tested on AMD hardware, and an untested write here is not the kind that fails with an error message",
            )
        } else {
            String::from_str(
                "this card exposes pp_od_clk_voltage without an OD_SCLK table, so Overdrive is off (amdgpu.ppfeaturemask enables it)",
            )
        },
        None => String::from_str(
            "no pp_od_clk_voltage on this card, so the kernel is offering no Overdrive interface at all",
        ),
    };
    without_knobs(
        id,
        String::from_str("AMD graphics"),
        Vendor::Amd,
        String::from_str(driver),
        detail,
    )
}

pub open spec fn intel_view(id: Seq<char>, driver: Seq<char>, rp0: Option<Seq<char>>) -> GpuView {
    let mhz = match rp0 {
        Some(s) => number::parse_i32(text::trim(s)),
        None => None,
    };
    undriven(
        id,
        "Intel graphics"@,
        Vendor::Intel,
        driver,
        match mhz {
            Some(m) => "Intel graphics expose a frequency ceiling ("@ + number::decimal_int(m)
                + " MHz here), not an offset: it cannot be raised above what the chip already runs at, so there is nothing on this card to overclock"@,
            None =>
                "Intel graphics expose a frequency ceiling, not an offset, and this kernel publishes no maximum for it"@,
        },
    )
}

/// Intel graphics have a frequency ceiling, not an offset. `rp0` is the text
/// of the first file that publishes the chip's own maximum.
pub fn intel(id: String, driver: &str, rp0: Option<String>) -> (r: GpuProbe)
    ensures
        r@ == intel_view(id@, driver@, text::opt_view(rp0)),
{
    let mhz = match rp0 {
        Some(s) => number::read_i32(&text::trimmed(&text::chars_of(s.as_str()))),
        None => None,
    };
    let detail = match mhz {
        Some(m) => String::from_str("Intel graphics expose a frequency ceiling (").concat(
            number::show_int(m as i64).as_str(),
        ).concat(
            " MHz here), not an offset: it cannot be raised above what the chip already runs at, so there is nothing on this card to overclock",
        ),
        None => String::from_str(
            "Intel graphics expose a frequency ceiling, not an offset, and this kernel publishes no maximum for it",
        ),
    };
    without_knobs(
        id,
        String::from_str("Intel graphics"),
        Vendor::Intel,
        String::from_str(driver),
        detail,
    )
}

/// A card of the graphics class as the probe reports it; nothing for a card
/// that `nvidia-smi` answers for.
pub open spec fn drm_view(
    card: Seq<char>,
    uevent: Seq<char>,
    overdrive: Option<Seq<char>>,
    rp0: Option<Seq<char>>,
) -> Option<GpuView> {
    let driver = uevent_driver(uevent);
    let id = "drm:"@ + card;
    if driver == "nvidia"@ {
        None
    } else if driver == "amdgpu"@ {
        Some(amd_view(id, driver, overdrive))
    } else if driver == "i915"@ || driver == "xe"@ {
        Some(intel_view(id, driver, rp0))
    } else {
        Some(
            undriven(
                id,
                driver + " graphics"@,
                Vendor::Unknown,
                driver,
                "no tuning interface is known for the "@ + driver + " driver"@,
            ),
        )
    }
}

pub fn drm_card(
    card: &str,
    uevent: &str,
    overdrive: Option<String>,
    rp0: Option<String>,
) -> (r: Option<GpuProbe>)
    ensures
        match r {
            Some(g) => drm_view(card@, uevent@, text::opt_view(overdrive), text::opt_view(rp0))
                == Some(g@),
            None => drm_view(
                card@,
                uevent@,
                text::opt_view(overdrive),
                text::opt_view(rp0),
            ) is None,
        },
{
    let driver = driver_of(uevent);
    if text::same(driver.as_str(), "nvidia") {
        return None;
    }
    let id = String::from_str("drm:").concat(card);
    if text::same(driver.as_str(), "amdgpu") {
        Some(amd(id, driver.as_str(), overdrive))
    } else if text::same(driver.as_str(), "i915") || text::same(driver.as_str(), "xe") {
        Some(intel(id, driver.as_str(), rp0))
    } else {
        let name = driver.clone().concat(" graphics");
        let detail = String::from_str("no tuning interface is known for the ").concat(
            driver.as_str(),
        ).concat(" driver");
        Some(without_knobs(id, name, Vendor::Unknown, driver, detail))
    }
}

// --- laws ----------------------------------------------------------------

/// A machine is supported exactly where some card has a knob, and then there
/// is a card to open on.
pub proof fn law_supported_has_default(gpus: Seq<GpuProbe>)
    ensures
        some_drivable(gpu_views(gpus)) <==> first_drivable(gpus) is Some,
    decreases gpus.len(),
{
    if gpus.len() > 0 {
        law_supported_has_default(gpus.skip(1));
        let v = gpu_views(gpus);
        let w = gpu_views(gpus.skip(1));
        if gpus[0]@.drivable() {
            assert(v[0].drivable());
        } else {
            if some_drivable(v) {
                let i = choose|i: int| 0 <= i < v.len() && (#[trigger] v[i]).drivable();
                assert(w[i - 1].drivable());
            }
            if some_drivable(w) {
                let i = choose|i: int| 0 <= i < w.len() && (#[trigger] w[i]).drivable();
                assert(v[i + 1].drivable());
            }
        }
    }
}

/// Offsets that are known not to be settable are never offered.
pub proof fn law_unwritable_is_not_offered(
    gpu: NvGpu,
    clock_lock: Option<Range>,
    core: Result<(i32, Option<Range>), NvidiaError>,
    mem: Result<(i32, Option<Range>), NvidiaError>,
)
    ensures
        nvidia_view(gpu, clock_lock, core, mem, Some(false)).core_offset is None,
        nvidia_view(gpu, clock_lock, core, mem, Some(false)).mem_offset is None,
{
}

/// A card can be driven exactly where it has a knob, and its ceiling is what its
/// knobs allow.
pub proof fn law_a_card_with_a_knob_can_be_driven(gpu: GpuView)
    ensures
        gpu.drivable() <==> !(gpu.core_offset is None && gpu.mem_offset is None && gpu.clock_lock
            is None),
        gpu.ceiling().core_offset == gpu.core_offset,
        gpu.ceiling().mem_offset == gpu.mem_offset,
        gpu.ceiling().clock == gpu.clock_lock,
{
}

/// The card asked for is the first of that name, and the card used where none is
/// asked for is the first that can be driven.
pub proof fn law_the_first_card_is_taken(gpus: Seq<GpuProbe>, i: int, id: Seq<char>)
    requires
        0 <= i < gpus.len(),
    ensures
        gpus[i].id@ == id && (forall|j: int| 0 <= j < i ==> (#[trigger] gpus[j]).id@ != id)
            ==> first_of_id(gpus, id) == Some(gpus[i]),
        gpus[i]@.drivable() && (forall|j: int|
            0 <= j < i ==> !(#[trigger] gpus[j])@.drivable()) ==> first_drivable(gpus) == Some(
            gpus[i],
        ),
        first_of_id(gpus, id) is None ==> gpus[i].id@ != id,
    decreases gpus.len(),
{
    let rest = gpus.skip(1);
    if i > 0 {
        law_the_first_card_is_taken(rest, i - 1, id);
        assert(rest[i - 1] == gpus[i]);
        if forall|j: int| 0 <= j < i ==> (#[trigger] gpus[j]).id@ != id {
            assert(gpus[0].id@ != id);
            assert forall|j: int| 0 <= j < i - 1 implies (#[trigger] rest[j]).id@ != id by {
                assert(rest[j] == gpus[j + 1]);
            }
        }
        if forall|j: int| 0 <= j < i ==> !(#[trigger] gpus[j])@.drivable() {
            assert(!gpus[0]@.drivable());
            assert forall|j: int| 0 <= j < i - 1 implies !(#[trigger] rest[j])@.drivable() by {
                assert(rest[j] == gpus[j + 1]);
            }
        }
    }
}

/// The cards that can be driven are named, in their order, and no others.
pub proof fn law_cards_that_can_be_driven_are_named(gpus: Seq<GpuView>, gpu: GpuView)
    ensures
        gpu.drivable() ==> drivable_names(gpus.push(gpu)) == drivable_names(gpus).push(gpu.name)
            && machine_detail(gpus.push(gpu)) == "tunable: "@ + text::join(
            drivable_names(gpus).push(gpu.name),
            ", "@,
        ),
        !gpu.drivable() ==> drivable_names(gpus.push(gpu)) == drivable_names(gpus),
        gpus.len() == 0 ==> machine_detail(gpus) == "no GPU was found to ask about"@
            && drivable_names(gpus).len() == 0,
        gpus.len() > 0 && (forall|i: int| 0 <= i < gpus.len() ==> !(#[trigger] gpus[i]).drivable())
            ==> machine_detail(gpus)
            == "a GPU was found, and nothing about it can be changed on this machine"@,
{
    assert(gpus.push(gpu).drop_last() =~= gpus);
    if gpu.drivable() {
        assert(gpus.push(gpu)[gpus.len() as int].drivable());
    }
}

/// Offsets are offered only where both could be read, each with its own range,
/// and where they can be set or that was not tried.
pub proof fn law_offsets_are_offered_as_read(
    gpu: NvGpu,
    lock: Option<Range>,
    core: Result<(i32, Option<Range>), NvidiaError>,
    mem: Result<(i32, Option<Range>), NvidiaError>,
    writable: Option<bool>,
    c: Option<Range>,
    m: Option<Range>,
)
    ensures
        (core matches Ok((_, r)) && r == c) && (mem matches Ok((_, r)) && r == m) && writable
            != Some(false) ==> {
            let view = nvidia_view(gpu, lock, core, mem, writable);
            view.core_offset == c && view.mem_offset == m
        },
        core is Err || mem is Err ==> {
            let view = nvidia_view(gpu, lock, core, mem, writable);
            view.core_offset is None && view.mem_offset is None
        },
        ({
            let view = nvidia_view(gpu, lock, core, mem, writable);
            &&& view.name == gpu.name@
            &&& view.vendor == Vendor::Nvidia
            &&& view.driver == "nvidia"@
            &&& view.clock_lock == lock
            &&& view.offsets_writable == writable
            &&& view.id == "nvidia:"@ + number::decimal(gpu.index as nat)
        }),
        core matches Err(e) ==> offsets_read(core, mem).2 == "no clock offsets: "@ + e@.text(),
        core is Ok ==> (mem matches Err(e) ==> offsets_read(core, mem).2 == "no clock offsets: "@
            + e@.text()),
{
}

/// A card says of its offsets whether they can be set, and of its clocks between
/// which two they can be pinned.
#[verifier::spinoff_prover]
#[verifier::rlimit(60)]
pub proof fn law_a_card_says_what_can_be_done(
    detail: Seq<char>,
    writable: Option<bool>,
    range: Range,
    mhz: i32,
)
    ensures
        offsets_said(detail, Some(true)) == "clock offsets can be set"@,
        offsets_said(detail, None) == detail,
        offsets_said(detail, Some(false))
            == "clock offsets are readable but not settable; the X screen needs Coolbits before the driver will take one"@,
        text::contains(
            nvidia_detail(detail, writable, Some(range), Some(mhz)),
            ". Clocks can be pinned between "@ + number::decimal_int(range.min as int) + " and "@
                + number::decimal_int(range.max as int),
        ),
        text::contains(
            nvidia_detail(detail, writable, None, Some(mhz)),
            ". The card reports a maximum of "@ + number::decimal_int(mhz as int),
        ),
        text::ends_with(
            nvidia_detail(detail, writable, None, None),
            ". This card's clocks cannot be pinned"@,
        ),
{
    let offsets = offsets_said(detail, writable);
    let pinned = ". Clocks can be pinned between "@ + number::decimal_int(range.min as int)
        + " and "@ + number::decimal_int(range.max as int);
    let tail = " MHz, which needs root and stays inside what the card already supports"@;
    text::law_a_part_is_contained(offsets, pinned, tail);
    assert(nvidia_detail(detail, writable, Some(range), Some(mhz)) =~= offsets + pinned + tail);
    let top = ". The card reports a maximum of "@ + number::decimal_int(mhz as int);
    let rest =
        " MHz and will not enumerate the clocks it supports, so pinning them is not offered"@;
    text::law_a_part_is_contained(offsets, top, rest);
    assert(nvidia_detail(detail, writable, None, Some(mhz)) =~= offsets + top + rest);
    text::law_a_part_is_contained(offsets, ". This card's clocks cannot be pinned"@, seq![]);
}

/// The driver of a card is what follows `DRIVER=` on the first line that has it.
#[verifier::spinoff_prover]
#[verifier::rlimit(60)]
pub proof fn law_a_cards_driver_is_named(driver: Seq<char>, other: Seq<char>, rest: Seq<char>)
    requires
        !driver.contains('\n') && !other.contains('\n'),
        driver.len() > 0 && driver.last() != '\r',
        other.len() > 0 && other[0] != 'D',
    ensures
        uevent_driver("DRIVER="@ + driver + seq!['\n'] + rest) == driver,
        uevent_driver("DRIVER="@ + driver) == driver,
        uevent_driver(other + seq!['\n'] + rest) == uevent_driver(rest),
        uevent_driver(seq![]) == "unknown"@,
{
    reveal_strlit("DRIVER=");
    let p = "DRIVER="@;
    assert(p.len() == 7 && p[0] == 'D');
    let f = |l: Seq<char>| after_prefix(l, p);
    let line = p + driver;
    assert(line.subrange(0, 7) =~= p);
    assert(line.skip(7) =~= driver);
    assert(line.last() == driver.last());
    assert(!line.contains('\n')) by {
        if line.contains('\n') {
            let i = choose|i: int| 0 <= i < line.len() && line[i] == '\n';
            if i >= 7 {
                assert(driver[i - 7] == '\n');
            }
        }
    }
    text::law_lines_end_at_newlines(line, rest);
    assert(f(line) == Some(driver));
    assert(text::lines(line + seq!['\n'] + rest)[0] == line);
    assert(text::lines(line)[0] == line);
    text::law_lines_end_at_newlines(other, rest);
    let all = text::lines(other + seq!['\n'] + rest);
    let first = all[0];
    assert(first.len() > 0 ==> first[0] == other[0]);
    if text::starts_with(first, p) {
        assert(first.subrange(0, 7)[0] == 'D');
    }
    assert(f(first) is None);
    assert(all.skip(1) =~= text::lines(rest));
    text::lemma_first_some_next(all, f, 0);
}

/// Each driver's card is of its vendor, and none of them can be driven; a card of
/// the driver that is asked in its own way is not listed twice.
pub proof fn law_cards_are_known_by_their_driver(
    card: Seq<char>,
    uevent: Seq<char>,
    overdrive: Option<Seq<char>>,
    rp0: Option<Seq<char>>,
)
    ensures
        uevent_driver(uevent) == "nvidia"@ <==> drm_view(card, uevent, overdrive, rp0) is None,
        uevent_driver(uevent) == "amdgpu"@ ==> (drm_view(card, uevent, overdrive, rp0) matches Some(
            g,
        ) && g.vendor == Vendor::Amd && g.name == "AMD graphics"@),
        uevent_driver(uevent) == "i915"@ || uevent_driver(uevent) == "xe"@ ==> (drm_view(
            card,
            uevent,
            overdrive,
            rp0,
        ) matches Some(g) && g.vendor == Vendor::Intel && g.name == "Intel graphics"@),
        drm_view(card, uevent, overdrive, rp0) matches Some(g) ==> !g.drivable() && g.id == "drm:"@
            + card && g.driver == uevent_driver(uevent),
        uevent_driver(uevent) != "nvidia"@ && uevent_driver(uevent) != "amdgpu"@ && uevent_driver(
            uevent,
        ) != "i915"@ && uevent_driver(uevent) != "xe"@ ==> (drm_view(
            card,
            uevent,
            overdrive,
            rp0,
        ) matches Some(g) && g.vendor == Vendor::Unknown && g.name == uevent_driver(uevent)
            + " graphics"@),
{
    reveal_strlit("nvidia");
    reveal_strlit("amdgpu");
    reveal_strlit("i915");
    reveal_strlit("xe");
    assert("nvidia"@.len() == 6 && "nvidia"@[0] == 'n');
    assert("amdgpu"@.len() == 6 && "amdgpu"@[0] == 'a');
    assert("i915"@.len() == 4 && "i915"@[0] == 'i');
    assert("xe"@.len() == 2 && "xe"@[0] == 'x');
}

/// An Intel card's ceiling is told where it is published, and an AMD card says
/// whether Overdrive is there and on.
#[verifier::spinoff_prover]
#[verifier::rlimit(60)]
pub proof fn law_undriven_cards_say_why(
    id: Seq<char>,
    driver: Seq<char>,
    mhz: nat,
    table: Seq<char>,
)
    requires
        mhz <= 0x7fff_ffff,
    ensures
        text::contains(
            intel_view(id, driver, Some(number::decimal(mhz))).detail,
            number::decimal(mhz) + " MHz here"@,
        ),
        intel_view(id, driver, None).detail
            == "Intel graphics expose a frequency ceiling, not an offset, and this kernel publishes no maximum for it"@,
        text::contains(table, "OD_SCLK"@) ==> amd_view(id, driver, Some(table)).detail
            == "AMD Overdrive is enabled on this card and pyren does not drive it yet: it has never been tested on AMD hardware, and an untested write here is not the kind that fails with an error message"@,
        !text::contains(table, "OD_SCLK"@) ==> amd_view(id, driver, Some(table)).detail
            == "this card exposes pp_od_clk_voltage without an OD_SCLK table, so Overdrive is off (amdgpu.ppfeaturemask enables it)"@,
        amd_view(id, driver, None).detail
            == "no pp_od_clk_voltage on this card, so the kernel is offering no Overdrive interface at all"@,
{
    let s = number::decimal(mhz);
    number::lemma_decimal_digits(mhz);
    number::law_signed_numbers_read_back(mhz as int);
    text::lemma_leading_blank(s);
    let head = "Intel graphics expose a frequency ceiling ("@;
    let rest =
        " MHz here), not an offset: it cannot be raised above what the chip already runs at, so there is nothing on this card to overclock"@;
    reveal_strlit(
        " MHz here), not an offset: it cannot be raised above what the chip already runs at, so there is nothing on this card to overclock",
    );
    reveal_strlit(" MHz here");
    assert(" MHz here"@.len() == 9);
    assert(rest.take(9) =~= " MHz here"@);
    let told = s + " MHz here"@;
    text::law_a_part_is_contained(head, told, rest.skip(9));
    assert(head + told + rest.skip(9) =~= head + s + rest);
}

/// The machine's cards are those of the one kind and then those of the other, and
/// it is supported where one of them can be driven.
pub proof fn law_every_card_is_listed(
    nvidia: Vec<GpuProbe>,
    drm: Vec<GpuProbe>,
    r: Probe,
    i: int,
)
    requires
        call_ensures(probe, (nvidia, drm), r),
    ensures
        r.gpus@.len() == nvidia@.len() + drm@.len(),
        0 <= i < nvidia@.len() ==> r.gpus@[i] == nvidia@[i],
        0 <= i < drm@.len() ==> r.gpus@[nvidia@.len() + i] == drm@[i],
        0 <= i < r.gpus@.len() && r.gpus@[i]@.drivable() ==> r.supported,
        !r.supported && 0 <= i < r.gpus@.len() ==> !r.gpus@[i]@.drivable(),
{
    if 0 <= i < r.gpus@.len() {
        assert(gpu_views(r.gpus@)[i] == r.gpus@[i]@);
    }
}

/// Whether offsets can be set is tried only where that is allowed and there is one;
/// a card is a card by its name, and a connector of one is not.
pub proof fn law_when_writing_is_tried(
    allowed: bool,
    core: Option<Range>,
    r: bool,
    name: &str,
    card: bool,
)
    requires
        call_ensures(ask_writable, (allowed, core), r),
        call_ensures(is_card_name, (name,), card),
    ensures
        r <==> allowed && core is Some,
        card <==> text::starts_with(name@, "card"@) && !text::contains(name@, "-"@),
{
}

} // verus!
