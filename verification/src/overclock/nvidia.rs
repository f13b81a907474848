//! The two NVIDIA mechanisms: clock offsets through `nvidia-settings`, which
//! needs an X display, and clock locks through `nvidia-smi`, which needs root.
//!
//! What is run is a [`Command`], and what it printed is an [`Output`]; this
//! module builds the one and reads the other.
use vstd::prelude::*;
use vstd::string::*;

use crate::number;
use crate::overclock::plan::ClockLock;
use crate::overclock::plan::Range;
use crate::text;
use crate::text::Class;

verus! {

/// `nvidia-settings` attribute for the core-clock offset, applied to every
/// performance level at once.
pub const CORE_ATTRIBUTE: &'static str = "GPUGraphicsClockOffsetAllPerformanceLevels";

/// The memory equivalent: a transfer-rate offset.
pub const MEM_ATTRIBUTE: &'static str = "GPUMemoryTransferRateOffsetAllPerformanceLevels";

pub const X11_SOCKETS: &'static str = "/tmp/.X11-unix";

#[derive(Debug, Clone)]
pub enum NvidiaError {
    NotInstalled(&'static str),
    /// `nvidia-settings` speaks to an X server, and a daemon started by the
    /// system is not in anybody's session.
    NoDisplay(String),
    /// The tool ran and the driver said no. The message is the driver's.
    Refused(String),
    NeedsRoot(String),
    Unreadable { what: &'static str, detail: String },
}

/// What a failure says.
#[verifier::ext_equal]
pub enum NvidiaErrorView {
    NotInstalled(Seq<char>),
    NoDisplay(Seq<char>),
    Refused(Seq<char>),
    NeedsRoot(Seq<char>),
    Unreadable(Seq<char>, Seq<char>),
}

impl View for NvidiaError {
    type V = NvidiaErrorView;

    open spec fn view(&self) -> NvidiaErrorView {
        match self {
            NvidiaError::NotInstalled(tool) => NvidiaErrorView::NotInstalled(tool@),
            NvidiaError::NoDisplay(m) => NvidiaErrorView::NoDisplay(m@),
            NvidiaError::Refused(m) => NvidiaErrorView::Refused(m@),
            NvidiaError::NeedsRoot(m) => NvidiaErrorView::NeedsRoot(m@),
            NvidiaError::Unreadable { what, detail } => NvidiaErrorView::Unreadable(what@, detail@),
        }
    }
}

impl NvidiaErrorView {
    pub open spec fn text(self) -> Seq<char> {
        match self {
            NvidiaErrorView::NotInstalled(tool) => tool + " is not installed"@,
            NvidiaErrorView::NoDisplay(m) =>
                "no X display could be found for nvidia-settings ("@ + m + ")"@,
            NvidiaErrorView::Refused(m) => m,
            NvidiaErrorView::NeedsRoot(m) => m,
            NvidiaErrorView::Unreadable(what, detail) => "could not read "@ + what + ": "@ + detail,
        }
    }
}

impl NvidiaError {
    pub fn to_text(&self) -> (r: String)
        ensures
            r@ == self@.text(),
    {
        match self {
            NvidiaError::NotInstalled(tool) => String::from_str(tool).concat(" is not installed"),
            NvidiaError::NoDisplay(m) => String::from_str(
                "no X display could be found for nvidia-settings (",
            ).concat(m.as_str()).concat(")"),
            NvidiaError::Refused(m) => m.clone(),
            NvidiaError::NeedsRoot(m) => m.clone(),
            NvidiaError::Unreadable { what, detail } => String::from_str("could not read ").concat(
                what,
            ).concat(": ").concat(detail.as_str()),
        }
    }
}

/// What an operation gave, with the error taken by what it says.
pub open spec fn outcome<T>(r: Result<T, NvidiaError>) -> Result<T, NvidiaErrorView> {
    match r {
        Ok(t) => Ok(t),
        Err(e) => Err(e@),
    }
}

/// One card as `nvidia-smi` lists it.
#[derive(Debug, Clone)]
pub struct NvGpu {
    pub index: u32,
    pub name: String,
    /// The highest graphics clock the card lists.
    pub max_core_mhz: Option<i32>,
}

#[verifier::ext_equal]
pub struct NvGpuView {
    pub index: int,
    pub name: Seq<char>,
    pub max_core_mhz: Option<int>,
}

impl View for NvGpu {
    type V = NvGpuView;

    open spec fn view(&self) -> NvGpuView {
        NvGpuView {
            index: self.index as int,
            name: self.name@,
            max_core_mhz: match self.max_core_mhz {
                Some(m) => Some(m as int),
                None => None,
            },
        }
    }
}

pub open spec fn cards(list: Seq<NvGpu>) -> Seq<NvGpuView> {
    Seq::new(list.len(), |i: int| list[i]@)
}

/// Where an X display was found, and what to authenticate to it with.
#[derive(Debug, Clone)]
pub struct XDisplay {
    pub name: String,
    pub xauthority: Option<String>,
    /// Who owns the socket.
    pub owner_uid: u32,
}

/// A program to run.
#[derive(Debug, Clone)]
pub struct Command {
    pub program: String,
    pub args: Vec<String>,
    /// The value of `DISPLAY`, where it has to be set, and of `XAUTHORITY`,
    /// which is taken away where there is none.
    pub display: Option<(String, Option<String>)>,
}

#[verifier::ext_equal]
pub struct CommandView {
    pub program: Seq<char>,
    pub args: Seq<Seq<char>>,
    pub display: Option<(Seq<char>, Option<Seq<char>>)>,
}

impl View for Command {
    type V = CommandView;

    open spec fn view(&self) -> CommandView {
        CommandView {
            program: self.program@,
            args: text::views(self.args@),
            display: match self.display {
                Some((name, auth)) => Some((name@, text::opt_view(auth))),
                None => None,
            },
        }
    }
}

/// A command, or why it cannot be run.
pub open spec fn runs(r: Result<Command, NvidiaError>) -> Result<CommandView, NvidiaErrorView> {
    match r {
        Ok(c) => Ok(c@),
        Err(e) => Err(e@),
    }
}

/// What a program that ran left behind.
#[derive(Debug, Clone)]
pub struct Output {
    pub success: bool,
    pub stdout: String,
    pub stderr: String,
}

pub struct Nvidia {
    pub smi: bool,
    pub settings: bool,
    pub display: Option<XDisplay>,
}

// --- the commands --------------------------------------------------------

pub open spec fn smi_command(args: Seq<Seq<char>>) -> CommandView {
    CommandView { program: "nvidia-smi"@, args, display: None }
}

pub open spec fn smi_write_command(index: u32, argument: Seq<char>) -> CommandView {
    smi_command(seq!["-i"@, number::decimal(index as nat), argument])
}

pub open spec fn lock_argument(lock: ClockLock) -> Seq<char> {
    "--lock-gpu-clocks="@ + number::decimal_int(lock.min_mhz as int) + ","@ + number::decimal_int(
        lock.max_mhz as int,
    )
}

/// `[gpu:0]/Attribute`.
pub open spec fn attribute_path(index: u32, attribute: Seq<char>) -> Seq<char> {
    "[gpu:"@ + number::decimal(index as nat) + "]/"@ + attribute
}

pub open spec fn assignment(index: u32, attribute: Seq<char>, value: int) -> Seq<char> {
    attribute_path(index, attribute) + "="@ + number::decimal_int(value)
}

impl Nvidia {
    /// The way to reach `nvidia-settings` on this machine, or why there is
    /// none: the tool is missing, or there is no display for it.
    pub open spec fn settings_with(self, args: Seq<Seq<char>>) -> Result<
        CommandView,
        NvidiaErrorView,
    > {
        if !self.settings {
            Err(NvidiaErrorView::NotInstalled("nvidia-settings"@))
        } else {
            match self.display {
                None => Err(NvidiaErrorView::NoDisplay("no socket in "@ + X11_SOCKETS@)),
                Some(d) => Ok(
                    CommandView {
                        program: "nvidia-settings"@,
                        args,
                        display: Some((d.name@, text::opt_view(d.xauthority))),
                    },
                ),
            }
        }
    }

    pub open spec fn smi_with(self, index: u32, argument: Seq<char>) -> Result<
        CommandView,
        NvidiaErrorView,
    > {
        if self.smi {
            Ok(smi_write_command(index, argument))
        } else {
            Err(NvidiaErrorView::NotInstalled("nvidia-smi"@))
        }
    }

    /// The tools that are installed, and the display that was found.
    pub fn detect(smi: bool, settings: bool, display: Option<XDisplay>) -> (r: Nvidia)
        ensures
            r == (Nvidia { smi, settings, display }),
    {
        Nvidia { smi, settings, display }
    }

    /// The question which cards there are; none where the tool is missing.
    pub fn gpus(&self) -> (r: Option<Command>)
        ensures
            match r {
                Some(c) => self.smi && c@ == smi_command(
                    seq![
                        "--query-gpu=index,name,clocks.max.gr"@,
                        "--format=csv,noheader,nounits"@,
                    ],
                ),
                None => !self.smi,
            },
    {
        if !self.smi {
            return None;
        }
        Some(
            Command {
                program: String::from_str("nvidia-smi"),
                args: text::list_two(
                    String::from_str("--query-gpu=index,name,clocks.max.gr"),
                    String::from_str("--format=csv,noheader,nounits"),
                ),
                display: None,
            },
        )
    }

    /// The question which clocks a card lists as supported.
    pub fn supported_clocks(&self, index: u32) -> (r: Command)
        ensures
            r@ == smi_command(
                seq![
                    "-i"@,
                    number::decimal(index as nat),
                    "--query-supported-clocks=gr"@,
                    "--format=csv,noheader,nounits"@,
                ],
            ),
    {
        Command {
            program: String::from_str("nvidia-smi"),
            args: text::list_four(
                String::from_str("-i"),
                number::show(index as u64),
                String::from_str("--query-supported-clocks=gr"),
                String::from_str("--format=csv,noheader,nounits"),
            ),
            display: None,
        }
    }

    pub fn lock_clocks(&self, index: u32, lock: ClockLock) -> (r: Result<Command, NvidiaError>)
        ensures
            runs(r) == self.smi_with(index, lock_argument(lock)),
    {
        let argument = String::from_str("--lock-gpu-clocks=").concat(
            number::show_int(lock.min_mhz as i64).as_str(),
        ).concat(",").concat(number::show_int(lock.max_mhz as i64).as_str());
        self.smi_write(index, argument)
    }

    pub fn reset_clocks(&self, index: u32) -> (r: Result<Command, NvidiaError>)
        ensures
            runs(r) == self.smi_with(index, "--reset-gpu-clocks"@),
    {
        self.smi_write(index, String::from_str("--reset-gpu-clocks"))
    }

    fn smi_write(&self, index: u32, argument: String) -> (r: Result<Command, NvidiaError>)
        ensures
            runs(r) == self.smi_with(index, argument@),
    {
        if !self.smi {
            return Err(NvidiaError::NotInstalled("nvidia-smi"));
        }
        Ok(
            Command {
                program: String::from_str("nvidia-smi"),
                args: text::list_three(
                    String::from_str("-i"),
                    number::show(index as u64),
                    argument,
                ),
                display: None,
            },
        )
    }

    /// The question what the core offset is now.
    pub fn core_offset(&self, index: u32) -> (r: Result<Command, NvidiaError>)
        ensures
            runs(r) == self.settings_with(seq!["-q"@, attribute_path(index, CORE_ATTRIBUTE@)]),
    {
        self.read_attribute(index, CORE_ATTRIBUTE)
    }

    /// The question what the memory offset is now.
    pub fn mem_offset(&self, index: u32) -> (r: Result<Command, NvidiaError>)
        ensures
            runs(r) == self.settings_with(seq!["-q"@, attribute_path(index, MEM_ATTRIBUTE@)]),
    {
        self.read_attribute(index, MEM_ATTRIBUTE)
    }

    pub fn set_core_offset(&self, index: u32, mhz: i32) -> (r: Result<Command, NvidiaError>)
        ensures
            runs(r) == self.settings_with(
                seq!["-a"@, assignment(index, CORE_ATTRIBUTE@, mhz as int)],
            ),
    {
        self.write_attribute(index, CORE_ATTRIBUTE, mhz)
    }

    pub fn set_mem_offset(&self, index: u32, mhz: i32) -> (r: Result<Command, NvidiaError>)
        ensures
            runs(r) == self.settings_with(
                seq!["-a"@, assignment(index, MEM_ATTRIBUTE@, mhz as int)],
            ),
    {
        self.write_attribute(index, MEM_ATTRIBUTE, mhz)
    }

    /// How to find out whether the offsets can be set: by setting the core
    /// offset to the value it already has. `current` is what reading it gave.
    pub fn probe_writable(
        &self,
        index: u32,
        current: Result<(i32, Option<Range>), NvidiaError>,
    ) -> (r: Result<Command, NvidiaError>)
        ensures
            runs(r) == (match current {
                Ok((value, _)) => self.settings_with(
                    seq!["-a"@, assignment(index, CORE_ATTRIBUTE@, value as int)],
                ),
                Err(e) => Err(e@),
            }),
    {
        match current {
            Ok((value, _)) => self.set_core_offset(index, value),
            Err(e) => Err(e),
        }
    }

    fn settings_command(&self, args: Vec<String>) -> (r: Result<Command, NvidiaError>)
        ensures
            runs(r) == self.settings_with(text::views(args@)),
    {
        if !self.settings {
            return Err(NvidiaError::NotInstalled("nvidia-settings"));
        }
        match &self.display {
            None => Err(
                NvidiaError::NoDisplay(String::from_str("no socket in ").concat(X11_SOCKETS)),
            ),
            Some(display) => {
                let auth = match &display.xauthority {
                    Some(path) => Some(path.clone()),
                    None => None,
                };
                Ok(
                    Command {
                        program: String::from_str("nvidia-settings"),
                        args,
                        display: Some((display.name.clone(), auth)),
                    },
                )
            },
        }
    }

    fn read_attribute(&self, index: u32, attribute: &str) -> (r: Result<Command, NvidiaError>)
        ensures
            runs(r) == self.settings_with(seq!["-q"@, attribute_path(index, attribute@)]),
    {
        self.settings_command(text::list_two(String::from_str("-q"), path_of(index, attribute)))
    }

    fn write_attribute(&self, index: u32, attribute: &str, value: i32) -> (r: Result<
        Command,
        NvidiaError,
    >)
        ensures
            runs(r) == self.settings_with(
                seq!["-a"@, assignment(index, attribute@, value as int)],
            ),
    {
        let assign = path_of(index, attribute).concat("=").concat(
            number::show_int(value as i64).as_str(),
        );
        self.settings_command(text::list_two(String::from_str("-a"), assign))
    }
}

fn path_of(index: u32, attribute: &str) -> (r: String)
    ensures
        r@ == attribute_path(index, attribute@),
{
    String::from_str("[gpu:").concat(number::show(index as u64).as_str()).concat("]/").concat(
        attribute,
    )
}

// --- the answers ---------------------------------------------------------

/// Everything a tool said, for a message about its failure.
pub open spec fn said(stdout: Seq<char>, stderr: Seq<char>) -> Seq<char> {
    let both = text::trim(text::trim(stdout) + " "@ + text::trim(stderr));
    if both.len() == 0 {
        "no output"@
    } else {
        both
    }
}

pub fn message_of(stdout: &str, stderr: &str) -> (r: String)
    ensures
        r@ == said(stdout@, stderr@),
{
    let both = text::trimmed_str(stdout).concat(" ").concat(text::trimmed_str(stderr).as_str());
    let trimmed = text::trimmed_str(both.as_str());
    if trimmed.as_str().unicode_len() == 0 {
        String::from_str("no output")
    } else {
        trimmed
    }
}

/// What a refusal of `nvidia-smi` is: one that speaks of a permission is the
/// one failure that root would fix. `lowered` is the message in lower case.
pub open spec fn smi_refusal(message: Seq<char>, lowered: Seq<char>) -> NvidiaErrorView {
    if text::contains(lowered, "permission"@) {
        NvidiaErrorView::NeedsRoot("nvidia-smi refused: "@ + message)
    } else {
        NvidiaErrorView::Refused("nvidia-smi refused: "@ + message)
    }
}

pub fn refused_by_smi(message: &str, lowered: &str) -> (r: NvidiaError)
    ensures
        r@ == smi_refusal(message@, lowered@),
{
    let full = String::from_str("nvidia-smi refused: ").concat(message);
    if text::str_has(lowered, "permission") {
        NvidiaError::NeedsRoot(full)
    } else {
        NvidiaError::Refused(full)
    }
}

/// Whether `nvidia-smi` did what it was told. `answer` is what it left behind,
/// or why it could not be started.
pub fn smi_written(answer: &Result<Output, String>) -> (r: Result<(), NvidiaError>)
    ensures
        outcome(r) == (match answer {
            Err(detail) => Err(NvidiaErrorView::Unreadable("nvidia-smi"@, detail@)),
            Ok(out) => if out.success {
                Ok(())
            } else {
                let message = said(out.stdout@, out.stderr@);
                Err(smi_refusal(message, text::lowercase(message)))
            },
        }),
{
    match answer {
        Err(detail) => Err(
            NvidiaError::Unreadable { what: "nvidia-smi", detail: detail.clone() },
        ),
        Ok(out) => {
            if out.success {
                return Ok(());
            }
            let message = message_of(out.stdout.as_str(), out.stderr.as_str());
            let lowered = text::to_lowercase(message.as_str());
            Err(refused_by_smi(message.as_str(), lowered.as_str()))
        },
    }
}

/// What a program printed, where it succeeded.
pub fn run_ok(answer: Option<Output>) -> (r: Option<String>)
    ensures
        text::opt_view(r) == (match answer {
            Some(out) => if out.success {
                Some(out.stdout@)
            } else {
                None
            },
            None => None,
        }),
{
    match answer {
        Some(out) => if out.success {
            Some(out.stdout)
        } else {
            None
        },
        None => None,
    }
}

/// The value and the advertised range of an attribute, or the driver's own
/// words where it printed no value. `nvidia-settings` succeeds even when it
/// prints only an error, so the text is what has to be read.
pub open spec fn attribute_read(stdout: Seq<char>, stderr: Seq<char>, attribute: Seq<char>) -> Result<
    (int, Option<Range>),
    NvidiaErrorView,
> {
    match attribute_value(stdout, attribute) {
        Some(found) => Ok(found),
        None => Err(
            NvidiaErrorView::Refused(
                match first_error_line(stdout) {
                    Some(e) => e,
                    None => match first_error_line(stderr) {
                        Some(e) => e,
                        None => "nvidia-settings printed no value for "@ + attribute,
                    },
                },
            ),
        ),
    }
}

pub open spec fn offset_view(r: Result<(i32, Option<Range>), NvidiaError>) -> Result<
    (int, Option<Range>),
    NvidiaErrorView,
> {
    match r {
        Ok((v, range)) => Ok((v as int, range)),
        Err(e) => Err(e@),
    }
}

pub fn attribute_outcome(answer: &Result<Output, String>, attribute: &str) -> (r: Result<
    (i32, Option<Range>),
    NvidiaError,
>)
    ensures
        offset_view(r) == (match answer {
            Err(detail) => Err(NvidiaErrorView::Unreadable("nvidia-settings"@, detail@)),
            Ok(out) => attribute_read(out.stdout@, out.stderr@, attribute@),
        }),
{
    match answer {
        Err(detail) => Err(
            NvidiaError::Unreadable { what: "nvidia-settings", detail: detail.clone() },
        ),
        Ok(out) => match parse_attribute(out.stdout.as_str(), attribute) {
            Some(found) => Ok(found),
            None => {
                let detail = match first_error(out.stdout.as_str()) {
                    Some(e) => e,
                    None => match first_error(out.stderr.as_str()) {
                        Some(e) => e,
                        None => String::from_str("nvidia-settings printed no value for ").concat(
                            attribute,
                        ),
                    },
                };
                Err(NvidiaError::Refused(detail))
            },
        },
    }
}

/// The first thing the tool complained about, on either stream.
pub open spec fn complaint(stdout: Seq<char>, stderr: Seq<char>) -> Option<Seq<char>> {
    match first_error_line(stdout) {
        Some(e) => Some(e),
        None => first_error_line(stderr),
    }
}

pub fn assignment_outcome(answer: &Result<Output, String>) -> (r: Result<(), NvidiaError>)
    ensures
        outcome(r) == (match answer {
            Err(detail) => Err(NvidiaErrorView::Unreadable("nvidia-settings"@, detail@)),
            Ok(out) => match complaint(out.stdout@, out.stderr@) {
                None => Ok(()),
                Some(e) => Err(NvidiaErrorView::Refused(explanation(e, text::lowercase(e)))),
            },
        }),
{
    match answer {
        Err(detail) => Err(
            NvidiaError::Unreadable { what: "nvidia-settings", detail: detail.clone() },
        ),
        Ok(out) => {
            let error = match first_error(out.stdout.as_str()) {
                Some(e) => Some(e),
                None => first_error(out.stderr.as_str()),
            };
            match error {
                None => Ok(()),
                Some(e) => Err(NvidiaError::Refused(explain(e))),
            }
        },
    }
}

/// What the no-op assignment says about setting: a refusal means it cannot be
/// done, anything else that failed is not an answer.
pub fn writable(written: Result<(), NvidiaError>) -> (r: Result<bool, NvidiaError>)
    ensures
        outcome(r) == (match written {
            Ok(()) => Ok::<bool, NvidiaErrorView>(true),
            Err(e) => match e {
                NvidiaError::Refused(_) => Ok(false),
                _ => Err(e@),
            },
        }),
{
    match written {
        Ok(()) => Ok(true),
        Err(e) => match e {
            NvidiaError::Refused(_) => Ok(false),
            _ => Err(e),
        },
    }
}

// --- parsing -------------------------------------------------------------

/// `0, NVIDIA GeForce RTX 5060 Laptop GPU, 3090`.
pub open spec fn gpu_line(line: Seq<char>) -> Option<NvGpuView> {
    let parts = text::split(line, Class::Is(','));
    match number::parse_unsigned(text::trim(parts[0]), 10, 0xffff_ffff) {
        None => None,
        Some(index) => if parts.len() < 2 {
            None
        } else {
            Some(
                NvGpuView {
                    index: index as int,
                    name: text::trim(parts[1]),
                    max_core_mhz: if parts.len() < 3 {
                        None
                    } else {
                        number::parse_i32(text::trim(parts[2]))
                    },
                },
            )
        },
    }
}

fn parse_gpu_line(line: &Vec<char>) -> (r: Option<NvGpu>)
    ensures
        match r {
            Some(g) => gpu_line(line@) == Some(g@),
            None => gpu_line(line@) is None,
        },
{
    let parts = text::split_at(line, Class::Is(','));
    proof {
        assert(text::rows(parts@)[0] == parts@[0]@);
    }
    match number::read_u32(&text::trimmed(&parts[0])) {
        None => None,
        Some(index) => {
            if parts.len() < 2 {
                return None;
            }
            proof {
                assert(text::rows(parts@)[1] == parts@[1]@);
            }
            let name = text::string_of(&text::trimmed(&parts[1]));
            let max_core_mhz = if parts.len() < 3 {
                None
            } else {
                proof {
                    assert(text::rows(parts@)[2] == parts@[2]@);
                }
                number::read_i32(&text::trimmed(&parts[2]))
            };
            Some(NvGpu { index, name, max_core_mhz })
        },
    }
}

/// The cards of a listing: one line per card, and a line that does not name
/// one is passed over.
pub fn parse_gpu_list(said: &str) -> (r: Vec<NvGpu>)
    ensures
        cards(r@) == text::collect(text::lines(said@), |l: Seq<char>| gpu_line(l)),
{
    let rows = text::lines_of(&text::chars_of(said));
    let ghost all = text::lines(said@);
    let ghost f = |l: Seq<char>| gpu_line(l);
    let n: usize = rows.len();
    let mut out: Vec<NvGpu> = Vec::new();
    let mut i: usize = 0;
    proof {
        assert(all.take(0) =~= seq![]);
        assert(cards(out@) =~= text::collect(all.take(0), f));
    }
    while i < n
        invariant
            n == rows@.len(),
            i <= n,
            all == text::rows(rows@),
            f == (|l: Seq<char>| gpu_line(l)),
            cards(out@) == text::collect(all.take(i as int), f),
        decreases n - i,
    {
        let ghost before = out@;
        proof {
            text::lemma_collect_next(all, f, i as int);
            assert(all[i as int] == rows@[i as int]@);
        }
        match parse_gpu_line(&rows[i]) {
            Some(g) => {
                out.push(g);
                proof {
                    assert(cards(out@) =~= cards(before).push(g@));
                }
            },
            None => {},
        }
        i = i + 1;
    }
    proof {
        assert(all.take(n as int) =~= all);
    }
    out
}

pub open spec fn least(s: Seq<int>) -> int
    decreases s.len(),
{
    if s.len() <= 1 {
        s[0]
    } else if s.last() < least(s.drop_last()) {
        s.last()
    } else {
        least(s.drop_last())
    }
}

pub open spec fn greatest(s: Seq<int>) -> int
    decreases s.len(),
{
    if s.len() <= 1 {
        s[0]
    } else if s.last() > greatest(s.drop_last()) {
        s.last()
    } else {
        greatest(s.drop_last())
    }
}

pub open spec fn ints(v: Seq<i32>) -> Seq<int> {
    Seq::new(v.len(), |i: int| v[i] as int)
}

/// The numbers among the pieces.
pub open spec fn numbers(parts: Seq<Seq<char>>) -> Seq<int> {
    text::collect(parts, |p: Seq<char>| number::parse_i32(p))
}

fn read_numbers(parts: &Vec<Vec<char>>) -> (r: Vec<i32>)
    ensures
        ints(r@) == numbers(text::rows(parts@)),
{
    let ghost all = text::rows(parts@);
    let ghost f = |p: Seq<char>| number::parse_i32(p);
    let n: usize = parts.len();
    let mut out: Vec<i32> = Vec::new();
    let mut i: usize = 0;
    proof {
        assert(all.take(0) =~= seq![]);
        assert(ints(out@) =~= text::collect(all.take(0), f));
    }
    while i < n
        invariant
            n == parts@.len(),
            i <= n,
            all == text::rows(parts@),
            f == (|p: Seq<char>| number::parse_i32(p)),
            ints(out@) == text::collect(all.take(i as int), f),
        decreases n - i,
    {
        let ghost before = out@;
        proof {
            text::lemma_collect_next(all, f, i as int);
            assert(all[i as int] == parts@[i as int]@);
        }
        match number::read_i32(&parts[i]) {
            Some(v) => {
                out.push(v);
                proof {
                    assert(ints(out@) =~= ints(before).push(v as int));
                }
            },
            None => {},
        }
        i = i + 1;
    }
    proof {
        assert(all.take(n as int) =~= all);
    }
    out
}

/// Each piece without the whitespace round it.
pub open spec fn trim_each(parts: Seq<Seq<char>>) -> Seq<Seq<char>> {
    Seq::new(parts.len(), |i: int| text::trim(parts[i]))
}

fn trimmed_each(parts: &Vec<Vec<char>>) -> (r: Vec<Vec<char>>)
    ensures
        text::rows(r@) == trim_each(text::rows(parts@)),
{
    let n: usize = parts.len();
    let mut out: Vec<Vec<char>> = Vec::new();
    let mut i: usize = 0;
    while i < n
        invariant
            n == parts@.len(),
            i <= n,
            out@.len() == i,
            forall|k: int| 0 <= k < i ==> (#[trigger] out@[k])@ == text::trim(parts@[k]@),
        decreases n - i,
    {
        out.push(text::trimmed(&parts[i]));
        i = i + 1;
    }
    proof {
        assert(text::rows(out@) =~= trim_each(text::rows(parts@)));
    }
    out
}

/// The ends of a supported-clock list, one frequency per line.
pub open spec fn clock_ends(said: Seq<char>) -> Option<Range> {
    let clocks = numbers(trim_each(text::lines(said)));
    if clocks.len() == 0 {
        None
    } else {
        Some(Range { min: least(clocks) as i32, max: greatest(clocks) as i32 })
    }
}

pub fn parse_clock_list(said: &str) -> (r: Option<Range>)
    ensures
        r == clock_ends(said@),
{
    let clocks = read_numbers(&trimmed_each(&text::lines_of(&text::chars_of(said))));
    let n: usize = clocks.len();
    if n == 0 {
        return None;
    }
    let mut min: i32 = clocks[0];
    let mut max: i32 = clocks[0];
    let mut i: usize = 1;
    proof {
        assert(ints(clocks@).take(1) =~= seq![clocks@[0] as int]);
    }
    while i < n
        invariant
            n == clocks@.len(),
            1 <= i <= n,
            min == least(ints(clocks@).take(i as int)),
            max == greatest(ints(clocks@).take(i as int)),
        decreases n - i,
    {
        proof {
            assert(ints(clocks@).take(i + 1).drop_last() =~= ints(clocks@).take(i as int));
            assert(ints(clocks@).take(i + 1).last() == clocks@[i as int]);
        }
        if clocks[i] < min {
            min = clocks[i];
        }
        if clocks[i] > max {
            max = clocks[i];
        }
        i = i + 1;
    }
    proof {
        assert(ints(clocks@).take(n as int) =~= ints(clocks@));
    }
    Some(Range::new(min, max))
}

/// The text after the last `p`.
pub open spec fn after_last(s: Seq<char>, p: Seq<char>) -> Option<Seq<char>> {
    match text::last_before(s, p, s.len() as int) {
        Some(i) => Some(s.subrange(i + p.len(), s.len() as int)),
        None => None,
    }
}

/// The number at the end of `Attribute '...' ([gpu:0]): 0.`
pub open spec fn value_at_end(line: Seq<char>) -> Option<int> {
    match after_last(line, "): "@) {
        Some(tail) => number::parse_i32(text::trim(text::trim_end(tail, Class::Is('.')))),
        None => None,
    }
}

/// The signed numbers of `... are in the range -1000 - 1000 (inclusive).`
pub open spec fn range_numbers(line: Seq<char>) -> Seq<int> {
    let marker = "are in the range"@;
    match text::first_at(line, marker, 0) {
        None => seq![],
        Some(i) => {
            let from = i + marker.len();
            let to = match text::first_at(line, marker, from) {
                Some(j) => j,
                None => line.len() as int,
            };
            numbers(text::words_by(line.subrange(from, to), Class::NotNumeric))
        },
    }
}

/// The range of such a line: its last two numbers, either of which may be
/// negative. A lone dash is no number.
pub open spec fn range_of(line: Seq<char>) -> Option<Range> {
    let found = range_numbers(line);
    if found.len() >= 2 {
        Some(
            Range {
                min: found[found.len() - 2] as i32,
                max: found[found.len() - 1] as i32,
            },
        )
    } else {
        None
    }
}

/// The value of an attribute in what `nvidia-settings -q` prints, and the
/// advertised range where there is one.
pub open spec fn attribute_value(said: Seq<char>, attribute: Seq<char>) -> Option<
    (int, Option<Range>),
> {
    let all = text::lines(said);
    match text::first_with(all, "Attribute '"@ + attribute + "'"@) {
        None => None,
        Some(line) => match value_at_end(line) {
            None => None,
            Some(value) => Some(
                (
                    value,
                    match text::first_with(all, "are in the range"@) {
                        Some(line) => range_of(line),
                        None => None,
                    },
                ),
            ),
        },
    }
}

fn read_value_at_end(line: &Vec<char>) -> (r: Option<i32>)
    ensures
        match r {
            Some(v) => value_at_end(line@) == Some(v as int),
            None => value_at_end(line@) is None,
        },
{
    let mark = text::chars_of("): ");
    match text::find_last_before(line, &mark, line.len()) {
        None => None,
        Some(i) => {
            let tail = text::slice(line, i + mark.len(), line.len());
            number::read_i32(&text::trimmed(&text::trimmed_end(&tail, Class::Is('.'))))
        },
    }
}

fn parse_range(line: &Vec<char>) -> (r: Option<Range>)
    ensures
        r == range_of(line@),
{
    let marker = text::chars_of("are in the range");
    let n: usize = line.len();
    match text::find_from(line, &marker, 0) {
        None => None,
        Some(i) => {
            let from: usize = i + marker.len();
            let to: usize = match text::find_from(line, &marker, from) {
                Some(j) => j,
                None => n,
            };
            proof {
                text::lemma_first_at(line@, marker@, from as int);
            }
            let tail = text::slice(line, from, to);
            let found = read_numbers(&text::words_of_class(&tail, Class::NotNumeric));
            let count: usize = found.len();
            if count >= 2 {
                proof {
                    assert(ints(found@)[count - 2] == found@[count - 2]);
                    assert(ints(found@)[count - 1] == found@[count - 1]);
                }
                Some(Range::new(found[count - 2], found[count - 1]))
            } else {
                None
            }
        },
    }
}

pub fn parse_attribute(said: &str, attribute: &str) -> (r: Option<(i32, Option<Range>)>)
    ensures
        match r {
            Some((v, range)) => attribute_value(said@, attribute@) == Some((v as int, range)),
            None => attribute_value(said@, attribute@) is None,
        },
{
    let all = text::lines_of(&text::chars_of(said));
    let needle = String::from_str("Attribute '").concat(attribute).concat("'");
    match text::find_with(&all, &text::chars_of(needle.as_str())) {
        None => None,
        Some(i) => match read_value_at_end(&all[i]) {
            None => None,
            Some(value) => {
                let range = match text::find_with(&all, &text::chars_of("are in the range")) {
                    Some(j) => parse_range(&all[j]),
                    None => None,
                };
                Some((value, range))
            },
        },
    }
}

/// What stands on a line `ERROR: ...`.
pub open spec fn error_line(line: Seq<char>) -> Option<Seq<char>> {
    if text::starts_with(text::trim(line), "ERROR:"@) {
        Some(text::trim(without_prefixes(text::trim(line), "ERROR:"@)))
    } else {
        None
    }
}

/// Without the prefix, however often it stands at the start.
pub open spec fn without_prefixes(s: Seq<char>, p: Seq<char>) -> Seq<char>
    decreases s.len(),
{
    if p.len() > 0 && text::starts_with(s, p) {
        without_prefixes(s.skip(p.len() as int), p)
    } else {
        s
    }
}

/// The first complaint of `nvidia-settings`, which is how it reports a refusal
/// that it still succeeds for.
pub open spec fn first_error_line(said: Seq<char>) -> Option<Seq<char>> {
    text::first_some(text::lines(said), |l: Seq<char>| error_line(l))
}

fn strip_prefixes(s: &Vec<char>, p: &Vec<char>) -> (r: Vec<char>)
    requires
        p@.len() > 0,
    ensures
        r@ == without_prefixes(s@, p@),
{
    let mut i: usize = 0;
    let n: usize = s.len();
    proof {
        assert(s@.skip(0) =~= s@);
    }
    while text::is_at(s, p, i)
        invariant
            n == s@.len(),
            p@.len() > 0,
            i <= n,
            without_prefixes(s@, p@) == without_prefixes(s@.skip(i as int), p@),
        decreases n - i,
    {
        proof {
            let rest = s@.skip(i as int);
            assert(rest.subrange(0, p@.len() as int) =~= s@.subrange(i as int, i + p@.len()));
            assert(rest.skip(p@.len() as int) =~= s@.skip(i + p@.len()));
        }
        i = i + p.len();
    }
    proof {
        let rest = s@.skip(i as int);
        if text::starts_with(rest, p@) {
            assert(s@.subrange(i as int, i + p@.len()) =~= rest.subrange(0, p@.len() as int));
        }
        assert(rest =~= s@.subrange(i as int, n as int));
    }
    text::slice(s, i, n)
}

pub fn first_error(said: &str) -> (r: Option<String>)
    ensures
        text::opt_view(r) == first_error_line(said@),
{
    let rows = text::lines_of(&text::chars_of(said));
    let mark = text::chars_of("ERROR:");
    let ghost all = text::lines(said@);
    let ghost f = |l: Seq<char>| error_line(l);
    let n: usize = rows.len();
    let mut i: usize = 0;
    proof {
        reveal_strlit("ERROR:");
        text::lemma_first_some_next(all, f, 0);
    }
    while i < n
        invariant
            n == rows@.len(),
            i <= n,
            mark@ == "ERROR:"@,
            mark@.len() > 0,
            all == text::lines(said@),
            all == text::rows(rows@),
            f == (|l: Seq<char>| error_line(l)),
            text::first_some(all, f) == text::first_some(all.skip(i as int), f),
        decreases n - i,
    {
        proof {
            text::lemma_first_some_next(all, f, i as int);
            assert(all[i as int] == rows@[i as int]@);
        }
        let line = text::trimmed(&rows[i]);
        if text::is_at(&line, &mark, 0) {
            let tail = strip_prefixes(&line, &mark);
            return Some(text::string_of(&text::trimmed(&tail)));
        }
        i = i + 1;
    }
    proof {
        text::lemma_first_some_next(all, f, n as int);
    }
    None
}

/// A refusal, with what it means where that is something other than what it
/// says: a missing permission is what an X screen with no `Coolbits` says,
/// and root does not change it.
pub open spec fn explanation(message: Seq<char>, lowered: Seq<char>) -> Seq<char> {
    if text::contains(lowered, "permission"@) {
        message
            + " - this is what an X screen with no Coolbits says, and root does not change it: the screen needs Option \"Coolbits\" \"28\" in its X configuration, and a session with no X screen of its own has none to configure"@
    } else {
        message
    }
}

pub fn explained(message: String, lowered: &str) -> (r: String)
    ensures
        r@ == explanation(message@, lowered@),
{
    if text::str_has(lowered, "permission") {
        message.concat(
            " - this is what an X screen with no Coolbits says, and root does not change it: the screen needs Option \"Coolbits\" \"28\" in its X configuration, and a session with no X screen of its own has none to configure",
        )
    } else {
        message
    }
}

pub fn explain(message: String) -> (r: String)
    ensures
        r@ == explanation(message@, text::lowercase(message@)),
{
    let lowered = text::to_lowercase(message.as_str());
    explained(message, lowered.as_str())
}

// --- finding somebody's X session ----------------------------------------

/// Every character is a decimal digit.
pub open spec fn all_digits(s: Seq<char>) -> bool {
    forall|i: int| 0 <= i < s.len() ==> text::is_digit(s[i])
}

/// The display behind a socket: `X1` is display `:1`; `X1_` is no display.
pub open spec fn display_of_socket(name: Seq<char>) -> Option<Seq<char>> {
    if name.len() > 1 && name[0] == 'X' && all_digits(name.skip(1)) {
        Some(":"@ + name.skip(1))
    } else {
        None
    }
}

pub fn socket_display(name: &str) -> (r: Option<String>)
    ensures
        text::opt_view(r) == display_of_socket(name@),
{
    let chars = text::chars_of(name);
    let n: usize = chars.len();
    if n < 2 || chars[0] != 'X' {
        return None;
    }
    let number = text::slice(&chars, 1, n);
    proof {
        assert(number@ =~= name@.skip(1));
        text::lemma_position(number@, Class::NotDigit, 0);
    }
    match text::position_of(&number, Class::NotDigit, 0) {
        Some(_) => None,
        None => Some(String::from_str(":").concat(text::string_of(&number).as_str())),
    }
}

/// A display and the owner of its socket.
pub open spec fn socket_precedes(a: (String, u32), b: (String, u32)) -> bool {
    text::precedes(a.0@, b.0@) || (a.0@ == b.0@ && a.1 < b.1)
}

/// Whether `i` may be chosen when only sockets of others count.
pub open spec fn eligible(sockets: Seq<(String, u32)>, i: int) -> bool {
    &&& 0 <= i < sockets.len()
    &&& sockets[i].1 != 0 || forall|j: int|
        0 <= j < sockets.len() ==> (#[trigger] sockets[j]).1 == 0
}

/// The session to try among the sockets: the first in order of name that does
/// not belong to root, and the first of all where every one does.
pub fn choose_socket(sockets: &Vec<(String, u32)>) -> (r: Option<usize>)
    ensures
        match r {
            None => sockets@.len() == 0,
            Some(i) => eligible(sockets@, i as int) && forall|j: int|
                eligible(sockets@, j) ==> !socket_precedes(sockets@[j], sockets@[i as int]),
        },
{
    let n: usize = sockets.len();
    if n == 0 {
        return None;
    }
    let mut others: bool = false;
    let mut k: usize = 0;
    while k < n
        invariant
            n == sockets@.len(),
            k <= n,
            others == exists|j: int| 0 <= j < k && (#[trigger] sockets@[j]).1 != 0,
        decreases n - k,
    {
        if sockets[k].1 != 0 {
            others = true;
        }
        k = k + 1;
    }
    let mut best: Option<usize> = None;
    let mut i: usize = 0;
    while i < n
        invariant
            n == sockets@.len(),
            i <= n,
            others == exists|j: int| 0 <= j < n && (#[trigger] sockets@[j]).1 != 0,
            match best {
                None => forall|j: int| 0 <= j < i ==> !eligible(sockets@, j),
                Some(b) => b < i && eligible(sockets@, b as int) && forall|j: int|
                    0 <= j < i && eligible(sockets@, j) ==> !socket_precedes(
                        sockets@[j],
                        sockets@[b as int],
                    ),
            },
        decreases n - i,
    {
        if sockets[i].1 != 0 || !others {
            match best {
                None => {
                    proof {
                        text::lemma_not_before_itself(sockets@[i as int].0@);
                    }
                    best = Some(i);
                },
                Some(b) => {
                    let here = text::chars_of(sockets[i].0.as_str());
                    let there = text::chars_of(sockets[b].0.as_str());
                    let earlier = text::comes_before(&here, &there) || (text::same_chars(
                        &here,
                        &there,
                    ) && sockets[i].1 < sockets[b].1);
                    if earlier {
                        proof {
                            text::lemma_not_before_itself(sockets@[i as int].0@);
                            assert forall|j: int|
                                0 <= j < i && eligible(sockets@, j) implies !socket_precedes(
                                sockets@[j],
                                sockets@[i as int],
                            ) by {
                                if text::precedes(sockets@[j].0@, sockets@[i as int].0@)
                                    && text::precedes(
                                    sockets@[i as int].0@,
                                    sockets@[b as int].0@,
                                ) {
                                    text::lemma_precedes_transitive(
                                        sockets@[j].0@,
                                        sockets@[i as int].0@,
                                        sockets@[b as int].0@,
                                    );
                                }
                            }
                        }
                        best = Some(i);
                    }
                },
            }
        }
        i = i + 1;
    }
    proof {
        if best is None {
            if others {
                let j = choose|j: int| 0 <= j < n && (#[trigger] sockets@[j]).1 != 0;
                assert(eligible(sockets@, j));
            } else {
                assert(eligible(sockets@, 0));
            }
        }
    }
    best
}

/// Whether a file in a user's runtime directory is likely an X cookie.
pub fn is_cookie_name(name: &str) -> (r: bool)
    ensures
        r == (text::starts_with(name@, "xauth"@) || text::contains(name@, "Xwaylandauth"@)),
{
    text::str_starts(name, "xauth") || text::str_has(name, "Xwaylandauth")
}

/// The home directory on one line of the user table.
pub open spec fn home_on_line(line: Seq<char>, uid: u32) -> Option<Seq<char>> {
    let parts = text::split(line, Class::Is(':'));
    if parts.len() >= 6 && number::parse_unsigned(parts[2], 10, 0xffff_ffff) == Some(uid as nat) {
        Some(parts[5])
    } else {
        None
    }
}

/// A user's home directory, from the text of the user table.
pub fn home_of(passwd: &str, uid: u32) -> (r: Option<String>)
    ensures
        text::opt_view(r) == text::first_some(
            text::lines(passwd@),
            |l: Seq<char>| home_on_line(l, uid),
        ),
{
    let rows = text::lines_of(&text::chars_of(passwd));
    let ghost all = text::lines(passwd@);
    let ghost f = |l: Seq<char>| home_on_line(l, uid);
    let n: usize = rows.len();
    let mut i: usize = 0;
    proof {
        text::lemma_first_some_next(all, f, 0);
    }
    while i < n
        invariant
            n == rows@.len(),
            i <= n,
            all == text::lines(passwd@),
            all == text::rows(rows@),
            f == (|l: Seq<char>| home_on_line(l, uid)),
            text::first_some(all, f) == text::first_some(all.skip(i as int), f),
        decreases n - i,
    {
        proof {
            text::lemma_first_some_next(all, f, i as int);
            assert(all[i as int] == rows@[i as int]@);
        }
        let parts = text::split_at(&rows[i], Class::Is(':'));
        if parts.len() >= 6 {
            proof {
                assert(text::rows(parts@)[2] == parts@[2]@);
                assert(text::rows(parts@)[5] == parts@[5]@);
            }
            match number::read_u32(&parts[2]) {
                Some(found) => {
                    if found == uid {
                        return Some(text::string_of(&parts[5]));
                    }
                },
                None => {},
            }
        }
        i = i + 1;
    }
    proof {
        text::lemma_first_some_next(all, f, n as int);
    }
    None
}

/// A card's clocks are pinned between the two that were asked for, on the card
/// that was asked for, and let go on it; without the tool that is said.
pub proof fn law_clocks_are_pinned_as_asked(tools: Nvidia, index: u32, lock: ClockLock)
    ensures
        tools.smi ==> (tools.smi_with(index, lock_argument(lock)) matches Ok(c) && c.program
            == "nvidia-smi"@ && c.args == seq![
            "-i"@,
            number::decimal(index as nat),
            "--lock-gpu-clocks="@ + number::decimal_int(lock.min_mhz as int) + ","@
                + number::decimal_int(lock.max_mhz as int),
        ] && c.display is None),
        !tools.smi ==> tools.smi_with(index, lock_argument(lock)) == Err::<
            CommandView,
            NvidiaErrorView,
        >(NvidiaErrorView::NotInstalled("nvidia-smi"@)),
{
}

/// An attribute is asked for and assigned on the card it is about, on the display
/// that was found; without the tool or a display that is said.
pub proof fn law_attributes_are_named_with_their_card(
    tools: Nvidia,
    index: u32,
    attribute: Seq<char>,
    value: int,
    args: Seq<Seq<char>>,
)
    ensures
        attribute_path(index, attribute) == "[gpu:"@ + number::decimal(index as nat) + "]/"@
            + attribute,
        assignment(index, attribute, value) == "[gpu:"@ + number::decimal(index as nat) + "]/"@
            + attribute + "="@ + number::decimal_int(value),
        CORE_ATTRIBUTE@ == "GPUGraphicsClockOffsetAllPerformanceLevels"@,
        MEM_ATTRIBUTE@ == "GPUMemoryTransferRateOffsetAllPerformanceLevels"@,
        tools.settings && tools.display is Some ==> (tools.settings_with(args) matches Ok(c)
            && c.program == "nvidia-settings"@ && c.args == args && (c.display matches Some((n, a))
            && n == (tools.display->0).name@ && a == text::opt_view(
            (tools.display->0).xauthority,
        ))),
        !tools.settings ==> tools.settings_with(args) == Err::<CommandView, NvidiaErrorView>(
            NvidiaErrorView::NotInstalled("nvidia-settings"@),
        ),
        tools.settings && tools.display is None ==> (tools.settings_with(args) matches Err(e)
            && e is NoDisplay),
{
}

/// A refusal is about rights exactly where it speaks of permission, and is told
/// in the tool's words.
pub proof fn law_a_refusal_is_told(message: Seq<char>, lowered: Seq<char>)
    ensures
        smi_refusal(message, lowered) is NeedsRoot <==> text::contains(lowered, "permission"@),
        smi_refusal(message, lowered).text() == "nvidia-smi refused: "@ + message,
        text::starts_with(explanation(message, lowered), message),
        !text::contains(lowered, "permission"@) ==> explanation(message, lowered) == message,
        text::contains(lowered, "permission"@) ==> explanation(message, lowered).len()
            > message.len(),
{
    reveal_strlit(
        " - this is what an X screen with no Coolbits says, and root does not change it: the screen needs Option \"Coolbits\" \"28\" in its X configuration, and a session with no X screen of its own has none to configure",
    );
    let more =
        " - this is what an X screen with no Coolbits says, and root does not change it: the screen needs Option \"Coolbits\" \"28\" in its X configuration, and a session with no X screen of its own has none to configure"@;
    text::law_a_part_is_contained(seq![], message, more);
    assert(message.subrange(0, message.len() as int) =~= message);
    assert(more.len() > 0);
}

/// What a tool said is both its output and its errors, in this order.
#[verifier::spinoff_prover]
#[verifier::rlimit(60)]
pub proof fn law_output_and_errors_are_both_heard(a: Seq<char>, b: Seq<char>)
    requires
        a.len() > 0 && !text::is_space(a[0]) && !text::is_space(a.last()),
        b.len() > 0 && !text::is_space(b[0]) && !text::is_space(b.last()),
    ensures
        said(a, b) == a + " "@ + b,
        said(a, seq![]) == a,
        said(seq![], b) == b,
        said(seq![], seq![]) == "no output"@,
{
    reveal_strlit(" ");
    assert(" "@ =~= seq![' ']);
    let none: Seq<char> = seq![];
    let sp = Class::Space;
    text::law_nothing_is_trimmed_from_the_middle(a, sp);
    text::law_nothing_is_trimmed_from_the_middle(b, sp);
    text::law_nothing_is_trimmed_from_the_middle(none, sp);
    let both = a + " "@ + b;
    assert(both[0] == a[0] && both.last() == b.last());
    text::law_nothing_is_trimmed_from_the_middle(both, sp);
    assert(none + " "@ + b =~= seq![' '] + b);
    text::lemma_leading_blank(b);
    let after = a + " "@ + none;
    assert(after.drop_last() =~= a);
    assert(after[0] == a[0]);
    assert(text::trim_start(after, sp) == after);
    assert(text::trim_end(a, sp) == a);
    assert(text::trim_end(after, sp) == a);
    let blank = none + " "@ + none;
    assert(blank =~= seq![' ']);
    assert(blank.skip(1) =~= none);
    assert(text::trim_start(none, sp) == none);
    assert(text::trim_start(blank, sp) == none);
    assert(text::trim(blank) == none);
}

/// A line of the list of cards gives the index, the name and the highest clock.
#[verifier::spinoff_prover]
#[verifier::rlimit(60)]
pub proof fn law_a_listed_card_is_read(index: nat, name: Seq<char>, mhz: nat)
    requires
        index <= 0xffff_ffff,
        mhz <= 0x7fff_ffff,
        name.len() > 0 && !text::is_space(name[0]) && !text::is_space(name.last()),
        !name.contains(','),
    ensures
        gpu_line(number::decimal(index) + ", "@ + name + ", "@ + number::decimal(mhz)) == Some(
            NvGpuView { index: index as int, name, max_core_mhz: Some(mhz as int) },
        ),
        gpu_line(number::decimal(index) + ", "@ + name) == Some(
            NvGpuView { index: index as int, name, max_core_mhz: None },
        ),
        gpu_line(number::decimal(index)) is None,
{
    reveal_strlit(", ");
    assert(", "@ =~= seq![',', ' ']);
    let k = Class::Is(',');
    let a = number::decimal(index);
    let c = number::decimal(mhz);
    let b1 = seq![' '] + name;
    let c1 = seq![' '] + c;
    number::lemma_decimal_digits(index);
    number::lemma_decimal_digits(mhz);
    number::law_numbers_read_back(index, 0xffff_ffff);
    number::law_signed_numbers_read_back(mhz as int);
    text::lemma_leading_blank(name);
    text::lemma_leading_blank(c);
    text::lemma_leading_blank(a);
    text::lemma_one_part(a, k);
    assert forall|i: int| 0 <= i < b1.len() implies !k.holds(#[trigger] b1[i]) by {
        if i > 0 {
            assert(b1[i] == name[i - 1]);
            assert(name.contains(name[i - 1]));
        }
    }
    text::lemma_one_part(b1, k);
    assert forall|i: int| 0 <= i < c1.len() implies !k.holds(#[trigger] c1[i]) by {
        if i > 0 {
            assert(c1[i] == c[i - 1]);
        }
    }
    text::lemma_one_part(c1, k);
    let line = a + ", "@ + name + ", "@ + c;
    let tail = b1 + seq![','] + c1;
    assert(line =~= a + seq![','] + tail);
    text::lemma_split_around(b1, ',', c1, k);
    text::lemma_split_around(a, ',', tail, k);
    let parts = text::split(line, k);
    assert(parts == seq![a] + (seq![b1] + seq![c1]));
    assert(parts[0] == a && parts[1] == b1 && parts[2] == c1);
    let short = a + ", "@ + name;
    assert(short =~= a + seq![','] + b1);
    text::lemma_split_around(a, ',', b1, k);
    assert(text::split(short, k) == seq![a] + seq![b1]);
    assert(text::split(short, k)[0] == a && text::split(short, k)[1] == b1);
}

/// The ends of a list of clocks are among them, and none is beyond either.
pub proof fn law_the_ends_are_the_least_and_the_greatest(s: Seq<int>, i: int)
    requires
        0 <= i < s.len(),
    ensures
        least(s) <= s[i] <= greatest(s),
        s.contains(least(s)),
        s.contains(greatest(s)),
    decreases s.len(),
{
    if s.len() > 1 {
        let rest = s.drop_last();
        law_the_ends_are_the_least_and_the_greatest(
            rest,
            if i < rest.len() {
                i
            } else {
                0
            },
        );
        if i < rest.len() {
            assert(s[i] == rest[i]);
        }
        let a = choose|a: int| 0 <= a < rest.len() && rest[a] == least(rest);
        let b = choose|b: int| 0 <= b < rest.len() && rest[b] == greatest(rest);
        assert(s[a] == least(rest));
        assert(s[b] == greatest(rest));
        assert(s[s.len() - 1] == s.last());
    } else {
        assert(s[0] == least(s));
    }
}

/// The value of an attribute is the number at the end of its line, up to the stop.
#[verifier::spinoff_prover]
#[verifier::rlimit(60)]
pub proof fn law_an_attributes_value_is_read(head: Seq<char>, n: int)
    requires
        -0x8000_0000 <= n <= 0x7fff_ffff,
    ensures
        value_at_end(head + "): "@ + number::decimal_int(n) + "."@) == Some(n),
        value_at_end(head + "): "@ + number::decimal_int(n)) == Some(n),
{
    reveal_strlit(".");
    assert("."@ =~= seq!['.']);
    let v = number::decimal_int(n);
    let dot = Class::Is('.');
    lemma_number_text(n);
    number::law_signed_numbers_read_back(n);
    text::lemma_leading_blank(v);
    let stopped = v + seq!['.'];
    assert forall|i: int| 0 <= i < stopped.len() implies #[trigger] stopped[i] != ')' by {
        if i < v.len() {
            assert(stopped[i] == v[i]);
        }
    }
    lemma_after_last(head, stopped);
    lemma_after_last(head, v);
    assert(head + "): "@ + v + "."@ =~= head + "): "@ + stopped);
    assert(stopped.drop_last() =~= v);
    assert(stopped.last() == '.');
    assert(text::trim_end(v, dot) == v);
    assert(text::trim_end(stopped, dot) == v);
}

#[verifier::spinoff_prover]
#[verifier::rlimit(60)]
proof fn lemma_after_last(head: Seq<char>, tail: Seq<char>)
    requires
        forall|i: int| 0 <= i < tail.len() ==> #[trigger] tail[i] != ')',
    ensures
        after_last(head + "): "@ + tail, "): "@) == Some(tail),
{
    reveal_strlit("): ");
    let p = "): "@;
    assert(p.len() == 3 && p[0] == ')' && p[1] == ':' && p[2] == ' ');
    let line = head + p + tail;
    let at = head.len() as int;
    assert(text::occurs_at(line, p, at)) by {
        assert(line.subrange(at, at + 3) =~= p);
    }
    assert forall|k: int| at < k < line.len() implies !text::occurs_at(line, p, k) by {
        if text::occurs_at(line, p, k) {
            assert(line.subrange(k, k + 3)[0] == p[0]);
            assert(line[k] == ')');
            assert(k < at + 3 ==> line[k] == p[k - at]);
            assert(k >= at + 3 ==> line[k] == tail[k - at - 3]);
        }
    }
    text::lemma_last_place(line, p, line.len() as int, at);
    assert(line.subrange(at + 3, line.len() as int) =~= tail);
}

/// A written number has a digit or its sign first and a digit last, and nothing
/// else in between.
proof fn lemma_number_text(n: int)
    ensures
        number::decimal_int(n).len() > 0,
        '0' <= number::decimal_int(n).last() <= '9',
        forall|i: int|
            0 <= i < number::decimal_int(n).len() ==> ('0' <= #[trigger] number::decimal_int(n)[i]
                <= '9' || number::decimal_int(n)[i] == '-'),
{
    if n < 0 {
        let d = number::decimal((-n) as nat);
        number::lemma_decimal_digits((-n) as nat);
        let s = number::decimal_int(n);
        assert(s == seq!['-'] + d);
        assert forall|i: int| 0 <= i < s.len() implies ('0' <= #[trigger] s[i] <= '9' || s[i]
            == '-') by {
            if i > 0 {
                assert(s[i] == d[i - 1]);
            }
        }
        assert(s.last() == d.last());
        assert(d.last() == d[d.len() - 1]);
    } else {
        let d = number::decimal(n as nat);
        number::lemma_decimal_digits(n as nat);
        assert(d.last() == d[d.len() - 1]);
    }
}

/// The range of an attribute is the two numbers behind the words that announce it.
#[verifier::spinoff_prover]
#[verifier::rlimit(60)]
pub proof fn law_an_attributes_range_is_read(
    head: Seq<char>,
    min: int,
    max: int,
    rest: Seq<char>,
)
    requires
        -0x8000_0000 <= min <= 0x7fff_ffff,
        -0x8000_0000 <= max <= 0x7fff_ffff,
        rest.len() > 0,
        forall|i: int|
            0 <= i < rest.len() ==> !('0' <= #[trigger] rest[i] <= '9') && rest[i] != '-',
    ensures
        ({
            let line = head + "are in the range"@ + (seq![' '] + (number::decimal_int(min)
                + seq![' '] + (seq!['-'] + seq![' '] + (number::decimal_int(max) + rest))));
            text::first_at(line, "are in the range"@, 0) == Some(head.len() as int)
                && text::first_at(
                line,
                "are in the range"@,
                head.len() as int + "are in the range"@.len(),
            ) is None ==> range_of(line) == Some(Range { min: min as i32, max: max as i32 })
        }),
{
    let marker = "are in the range"@;
    let a = number::decimal_int(min);
    let b = number::decimal_int(max);
    let minus = seq!['-'];
    let k = Class::NotNumeric;
    let none: Seq<char> = seq![];
    let body = seq![' '] + (a + seq![' '] + (minus + seq![' '] + (b + rest)));
    let line = head + marker + body;
    let from = head.len() as int + marker.len();
    assert(line.subrange(from, line.len() as int) =~= body);
    lemma_number_text(min);
    lemma_number_text(max);
    number::law_signed_numbers_read_back(min);
    number::law_signed_numbers_read_back(max);
    let c = rest[0];
    let after = rest.skip(1);
    assert(rest =~= seq![c] + after);
    assert forall|i: int| 0 <= i < after.len() implies k.holds(#[trigger] after[i]) by {
        assert(after[i] == rest[i + 1]);
    }
    text::lemma_no_words(after, k);
    assert(b + rest =~= b + seq![c] + after);
    text::law_words_stand_between_separators(b, c, after, b, k);
    text::law_words_stand_between_separators(minus, ' ', b + rest, minus, k);
    text::law_words_stand_between_separators(a, ' ', minus + seq![' '] + (b + rest), a, k);
    let tail = a + seq![' '] + (minus + seq![' '] + (b + rest));
    text::law_words_stand_between_separators(none, ' ', tail, none, k);
    assert(none + seq![' '] + tail =~= body);
    let words = text::words_by(body, k);
    assert(words =~= seq![a, minus, b]);
    let f = |p: Seq<char>| number::parse_i32(p);
    assert(minus.skip(1) =~= none);
    assert(f(minus) is None);
    assert(f(a) == Some(min) && f(b) == Some(max));
    assert(words.drop_last() =~= seq![a, minus]);
    assert(seq![a, minus].drop_last() =~= seq![a]);
    assert(seq![a].drop_last() =~= seq![]);
    assert(text::collect(Seq::<Seq<char>>::empty(), f) == Seq::<int>::empty());
    assert(text::collect(seq![a], f) =~= seq![min]);
    assert(text::collect(seq![a, minus], f) =~= seq![min]);
    assert(text::collect(words, f) =~= seq![min, max]);
}

/// An attribute is read from the line that names it, with the range where one is
/// told; without a value the tool's own complaint is the answer.
pub proof fn law_an_attribute_is_read_or_refused(
    stdout: Seq<char>,
    stderr: Seq<char>,
    attribute: Seq<char>,
    line: Seq<char>,
    n: int,
    e: Seq<char>,
)
    ensures
        text::first_with(text::lines(stdout), "Attribute '"@ + attribute + "'"@) == Some(line)
            && value_at_end(line) == Some(n) ==> (attribute_read(stdout, stderr, attribute)
            matches Ok((value, range)) && value == n && range == (match text::first_with(
            text::lines(stdout),
            "are in the range"@,
        ) {
            Some(l) => range_of(l),
            None => None,
        })),
        text::first_with(text::lines(stdout), "Attribute '"@ + attribute + "'"@) is None
            && first_error_line(stdout) == Some(e) ==> attribute_read(stdout, stderr, attribute)
            == Err::<(int, Option<Range>), NvidiaErrorView>(NvidiaErrorView::Refused(e)),
        text::first_with(text::lines(stdout), "Attribute '"@ + attribute + "'"@) is None
            && first_error_line(stdout) is None && first_error_line(stderr) == Some(e)
            ==> attribute_read(stdout, stderr, attribute) == Err::<
            (int, Option<Range>),
            NvidiaErrorView,
        >(NvidiaErrorView::Refused(e)),
        first_error_line(stdout) == Some(e) ==> complaint(stdout, stderr) == Some(e),
        first_error_line(stdout) is None ==> complaint(stdout, stderr) == first_error_line(stderr),
{
}

/// A complaint is a line that says so, without the word and the blanks around.
#[verifier::spinoff_prover]
#[verifier::rlimit(60)]
pub proof fn law_a_complaint_is_found(m: Seq<char>, other: Seq<char>, rest: Seq<char>)
    requires
        m.len() > 0 && !text::is_space(m[0]) && !text::is_space(m.last()) && m[0] != 'E',
        !m.contains('\n') && !other.contains('\n'),
        other.len() > 0 && !text::is_space(other[0]) && !text::is_space(other.last()) && other[0]
            != 'E',
    ensures
        error_line("ERROR: "@ + m) == Some(m),
        error_line(other) is None,
        first_error_line("ERROR: "@ + m) == Some(m),
        first_error_line(other + seq!['\n'] + rest) == first_error_line(rest),
{
    reveal_strlit("ERROR: ");
    reveal_strlit("ERROR:");
    let p = "ERROR:"@;
    assert(p.len() == 6 && p[0] == 'E');
    assert("ERROR: "@ =~= p + seq![' ']);
    let line = "ERROR: "@ + m;
    let sp = Class::Space;
    assert(line[0] == 'E' && line.last() == m.last());
    text::law_nothing_is_trimmed_from_the_middle(line, sp);
    text::law_nothing_is_trimmed_from_the_middle(other, sp);
    assert(line.subrange(0, 6) =~= p);
    let after = line.skip(6);
    assert(after =~= seq![' '] + m);
    if text::starts_with(after, p) {
        assert(after.subrange(0, 6)[0] == after[0]);
    }
    assert(without_prefixes(after, p) == after);
    assert(without_prefixes(line, p) == after);
    text::lemma_leading_blank(m);
    if text::starts_with(other, p) {
        assert(other.subrange(0, 6)[0] == other[0]);
    }
    let f = |l: Seq<char>| error_line(l);
    assert(!line.contains('\n')) by {
        if line.contains('\n') {
            let i = choose|i: int| 0 <= i < line.len() && line[i] == '\n';
            if i >= 7 {
                assert(m[i - 7] == '\n');
            } else {
                assert("ERROR: "@[i] == '\n');
            }
        }
    }
    text::law_lines_end_at_newlines(line, seq![]);
    assert(text::lines(line)[0] == line);
    text::law_lines_end_at_newlines(other, rest);
    let all = text::lines(other + seq!['\n'] + rest);
    assert(other.last() != '\r');
    assert(all[0] == other);
    assert(f(all[0]) is None);
    assert(all.skip(1) =~= text::lines(rest));
    text::lemma_first_some_next(all, f, 0);
}

/// A display is known by its socket: `X` and a number, and no other name.
pub proof fn law_a_display_is_known_by_its_socket(n: nat, name: Seq<char>, i: int)
    ensures
        display_of_socket(seq!['X'] + number::decimal(n)) == Some(":"@ + number::decimal(n)),
        name.len() <= 1 || name[0] != 'X' ==> display_of_socket(name) is None,
        1 <= i < name.len() && !('0' <= name[i] <= '9') ==> display_of_socket(name) is None,
{
    number::lemma_decimal_digits(n);
    let s = seq!['X'] + number::decimal(n);
    assert(s.skip(1) =~= number::decimal(n));
    if 1 <= i < name.len() {
        assert(name.skip(1)[i - 1] == name[i]);
    }
}

/// A user's home is the sixth field of the line with the user's number.
#[verifier::spinoff_prover]
#[verifier::rlimit(60)]
pub proof fn law_a_users_home_is_read(
    login: Seq<char>,
    x: Seq<char>,
    uid: u32,
    gid: Seq<char>,
    words: Seq<char>,
    home: Seq<char>,
    shell: Seq<char>,
    other: u32,
)
    requires
        !login.contains(':') && !x.contains(':') && !gid.contains(':') && !words.contains(':')
            && !home.contains(':'),
        other != uid,
    ensures
        ({
            let c = seq![':'];
            let line = login + c + (x + c + (number::decimal(uid as nat) + c + (gid + c + (words + c
                + (home + c + shell)))));
            home_on_line(line, uid) == Some(home) && home_on_line(line, other) is None
        }),
{
    let c = seq![':'];
    let k = Class::Is(':');
    let n = number::decimal(uid as nat);
    number::lemma_decimal_digits(uid as nat);
    number::law_numbers_read_back(uid as nat, 0xffff_ffff);
    lemma_field(login);
    lemma_field(x);
    lemma_field(gid);
    lemma_field(words);
    lemma_field(home);
    text::lemma_one_part(n, k);
    let e = home + c + shell;
    let d = words + c + e;
    let g = gid + c + d;
    let u = n + c + g;
    let v = x + c + u;
    let line = login + c + v;
    text::lemma_split_around(home, ':', shell, k);
    text::lemma_split_around(words, ':', e, k);
    text::lemma_split_around(gid, ':', d, k);
    text::lemma_split_around(n, ':', g, k);
    text::lemma_split_around(x, ':', u, k);
    text::lemma_split_around(login, ':', v, k);
    let parts = text::split(line, k);
    assert(parts == seq![login] + (seq![x] + (seq![n] + (seq![gid] + (seq![words] + (seq![home]
        + text::split(shell, k)))))));
    assert(parts[2] == n);
    assert(parts[5] == home);
}

proof fn lemma_field(s: Seq<char>)
    requires
        !s.contains(':'),
    ensures
        text::split(s, Class::Is(':')) == seq![s],
{
    assert forall|i: int| 0 <= i < s.len() implies !Class::Is(':').holds(#[trigger] s[i]) by {
        assert(s.contains(s[i]));
    }
    text::lemma_one_part(s, Class::Is(':'));
}

/// The cards and their clocks are asked for by index, name and highest clock, and
/// by the clocks that are supported.
pub proof fn law_what_the_tool_is_asked(
    tools: &Nvidia,
    index: u32,
    all: Option<Command>,
    clocks: Command,
)
    requires
        call_ensures(Nvidia::gpus, (tools,), all),
        call_ensures(Nvidia::supported_clocks, (tools, index), clocks),
    ensures
        all is Some <==> tools.smi,
        all matches Some(c) ==> c@.program == "nvidia-smi"@ && c@.args == seq![
            "--query-gpu=index,name,clocks.max.gr"@,
            "--format=csv,noheader,nounits"@,
        ],
        clocks@.program == "nvidia-smi"@,
        clocks@.args == seq![
            "-i"@,
            number::decimal(index as nat),
            "--query-supported-clocks=gr"@,
            "--format=csv,noheader,nounits"@,
        ],
{
}

/// Each offset is read and set under its own attribute, on its own card, and the
/// clocks are let go of on theirs.
pub proof fn law_each_offset_has_its_own_attribute(
    tools: &Nvidia,
    index: u32,
    mhz: i32,
    read_core: Result<Command, NvidiaError>,
    read_mem: Result<Command, NvidiaError>,
    set_core: Result<Command, NvidiaError>,
    set_mem: Result<Command, NvidiaError>,
    reset: Result<Command, NvidiaError>,
)
    requires
        tools.settings && tools.smi && tools.display is Some,
        call_ensures(Nvidia::core_offset, (tools, index), read_core),
        call_ensures(Nvidia::mem_offset, (tools, index), read_mem),
        call_ensures(Nvidia::set_core_offset, (tools, index, mhz), set_core),
        call_ensures(Nvidia::set_mem_offset, (tools, index, mhz), set_mem),
        call_ensures(Nvidia::reset_clocks, (tools, index), reset),
    ensures
        read_core is Ok && (read_core->Ok_0)@.args == seq![
            "-q"@,
            "[gpu:"@ + number::decimal(index as nat) + "]/"@
                + "GPUGraphicsClockOffsetAllPerformanceLevels"@,
        ],
        read_mem is Ok && (read_mem->Ok_0)@.args == seq![
            "-q"@,
            "[gpu:"@ + number::decimal(index as nat) + "]/"@
                + "GPUMemoryTransferRateOffsetAllPerformanceLevels"@,
        ],
        set_core is Ok && (set_core->Ok_0)@.args == seq![
            "-a"@,
            "[gpu:"@ + number::decimal(index as nat) + "]/"@
                + "GPUGraphicsClockOffsetAllPerformanceLevels"@ + "="@ + number::decimal_int(
                mhz as int,
            ),
        ],
        set_mem is Ok && (set_mem->Ok_0)@.args == seq![
            "-a"@,
            "[gpu:"@ + number::decimal(index as nat) + "]/"@
                + "GPUMemoryTransferRateOffsetAllPerformanceLevels"@ + "="@ + number::decimal_int(
                mhz as int,
            ),
        ],
        reset is Ok && (reset->Ok_0)@.args == seq![
            "-i"@,
            number::decimal(index as nat),
            "--reset-gpu-clocks"@,
        ],
{
}

/// Trying whether offsets can be set assigns the core offset that is there.
pub proof fn law_trying_changes_nothing(
    tools: &Nvidia,
    index: u32,
    value: i32,
    range: Option<Range>,
    tried: Result<Command, NvidiaError>,
    set: Result<Command, NvidiaError>,
)
    requires
        call_ensures(
            Nvidia::probe_writable,
            (tools, index, Ok::<(i32, Option<Range>), NvidiaError>((value, range))),
            tried,
        ),
        call_ensures(Nvidia::set_core_offset, (tools, index, value), set),
    ensures
        runs(tried) == runs(set),
{
}

/// An assignment took exactly where the tool ran and complained of nothing, and a
/// refusal is the only failure that means it cannot be set.
pub proof fn law_an_assignment_took_or_not(
    answer: &Result<Output, String>,
    r: Result<(), NvidiaError>,
    can: Result<bool, NvidiaError>,
)
    requires
        call_ensures(assignment_outcome, (answer,), r),
        call_ensures(writable, (r,), can),
    ensures
        r is Ok <==> (answer matches Ok(out) && first_error_line(out.stdout@) is None
            && first_error_line(out.stderr@) is None),
        answer is Err ==> can is Err,
        r is Ok ==> can == Ok::<bool, NvidiaError>(true),
        answer is Ok && r is Err ==> can == Ok::<bool, NvidiaError>(false),
{
}

/// A write by the other tool took exactly where it ran and succeeded.
pub proof fn law_a_write_took_or_not(
    answer: &Result<Output, String>,
    r: Result<(), NvidiaError>,
)
    requires
        call_ensures(smi_written, (answer,), r),
    ensures
        r is Ok <==> (answer matches Ok(out) && out.success),
        answer is Err ==> (r matches Err(e) && e@ is Unreadable),
{
}

/// A user's socket is preferred to the superuser's, and of several the first by
/// name.
pub proof fn law_a_users_display_is_preferred(
    sockets: &Vec<(String, u32)>,
    r: Option<usize>,
    i: int,
)
    requires
        call_ensures(choose_socket, (sockets,), r),
        0 <= i < sockets@.len(),
    ensures
        r is Some,
        sockets@[i].1 != 0 ==> sockets@[r->0 as int].1 != 0,
        sockets@[i].1 != 0 ==> !text::precedes(sockets@[i].0@, sockets@[r->0 as int].0@),
        sockets@[r->0 as int].1 == 0 ==> !text::precedes(
            sockets@[i].0@,
            sockets@[r->0 as int].0@,
        ),
{
    assert(sockets@[i].1 != 0 ==> eligible(sockets@, i));
    if sockets@[r->0 as int].1 == 0 {
        assert(eligible(sockets@, r->0 as int));
        assert(sockets@[i].1 == 0);
        assert(eligible(sockets@, i));
    }
}

/// A cookie is known by its name.
pub proof fn law_cookies_are_known_by_name(name: &str, r: bool)
    requires
        call_ensures(is_cookie_name, (name,), r),
    ensures
        text::starts_with(name@, "xauth"@) ==> r,
        text::contains(name@, "Xwaylandauth"@) ==> r,
        r ==> text::starts_with(name@, "xauth"@) || text::contains(name@, "Xwaylandauth"@),
{
}

/// The clocks that a card supports lie between the two ends that are offered, and
/// there is nothing to offer where none is listed.
pub proof fn law_listed_clocks_lie_between_the_ends(list: Seq<char>, i: int, n: int)
    requires
        0 <= i < text::lines(list).len(),
        number::parse_i32(text::trim(text::lines(list)[i])) == Some(n),
    ensures
        clock_ends(list) matches Some(r) && r.min <= n <= r.max,
        clock_ends(seq![]) is None,
{
    let parts = trim_each(text::lines(list));
    let f = |p: Seq<char>| number::parse_i32(p);
    let clocks = numbers(parts);
    assert(parts[i] == text::trim(text::lines(list)[i]));
    lemma_collected(parts, f, i, n);
    lemma_numbers_fit(parts);
    let k = choose|k: int| 0 <= k < clocks.len() && clocks[k] == n;
    law_the_ends_are_the_least_and_the_greatest(clocks, k);
    let a = choose|a: int| 0 <= a < clocks.len() && clocks[a] == least(clocks);
    let b = choose|b: int| 0 <= b < clocks.len() && clocks[b] == greatest(clocks);
    assert(-0x8000_0000 <= clocks[a] <= 0x7fff_ffff);
    assert(-0x8000_0000 <= clocks[b] <= 0x7fff_ffff);
    text::law_lines_end_at_newlines(seq![], seq![]);
    assert(trim_each(text::lines(seq![])) =~= seq![]);
    assert(text::collect(Seq::<Seq<char>>::empty(), f) =~= seq![]);
}

proof fn lemma_collected(
    parts: Seq<Seq<char>>,
    f: spec_fn(Seq<char>) -> Option<int>,
    i: int,
    n: int,
)
    requires
        0 <= i < parts.len(),
        f(parts[i]) == Some(n),
    ensures
        text::collect(parts, f).contains(n),
    decreases parts.len(),
{
    let before = parts.drop_last();
    let rest = text::collect(before, f);
    let all = text::collect(parts, f);
    if i == parts.len() - 1 {
        assert(all[rest.len() as int] == n);
    } else {
        lemma_collected(before, f, i, n);
        let k = choose|k: int| 0 <= k < rest.len() && rest[k] == n;
        assert(all[k] == n);
    }
}

proof fn lemma_numbers_fit(parts: Seq<Seq<char>>)
    ensures
        forall|k: int|
            0 <= k < numbers(parts).len() ==> -0x8000_0000 <= #[trigger] numbers(parts)[k]
                <= 0x7fff_ffff,
    decreases parts.len(),
{
    if parts.len() > 0 {
        let before = parts.drop_last();
        lemma_numbers_fit(before);
        let rest = numbers(before);
        let all = numbers(parts);
        assert forall|k: int| 0 <= k < all.len() implies -0x8000_0000 <= #[trigger] all[k]
            <= 0x7fff_ffff by {
            if k < rest.len() {
                assert(all[k] == rest[k]);
            }
        }
    }
}

} // verus!
