//! Edits to the driver's C source: the fan ceilings, and boards that its
//! tables do not list yet.
//!
//! Every edit is anchored on a name in the source, and a name that is not
//! there is an error: an unpatched driver must not be shipped as a patched
//! one.
use vstd::prelude::*;
use vstd::string::*;

use crate::number;
use crate::text;
use crate::text::Class;

verus! {

pub const CPU_MAX_RPM_DEFINE: &'static str = "#define OMEN_CPU_MAX_RPM";

pub const GPU_MAX_RPM_DEFINE: &'static str = "#define OMEN_GPU_MAX_RPM";

pub const LEGACY_MAX_RPM_DEFINE: &'static str = "#define OMEN_MAX_RPM";

#[derive(Debug, Clone)]
pub enum PatchError {
    Io { path: String, detail: String },
    AnchorMissing(String),
}

#[verifier::ext_equal]
pub enum PatchErrorView {
    Io(Seq<char>, Seq<char>),
    AnchorMissing(Seq<char>),
}

impl View for PatchError {
    type V = PatchErrorView;

    open spec fn view(&self) -> PatchErrorView {
        match self {
            PatchError::Io { path, detail } => PatchErrorView::Io(path@, detail@),
            PatchError::AnchorMissing(what) => PatchErrorView::AnchorMissing(what@),
        }
    }
}

impl PatchErrorView {
    pub open spec fn text(self) -> Seq<char> {
        match self {
            PatchErrorView::Io(path, detail) => "io error on "@ + path + ": "@ + detail,
            PatchErrorView::AnchorMissing(what) => "could not find `"@ + what
                + "` in the driver source; it may have changed shape upstream"@,
        }
    }
}

impl PatchError {
    pub fn to_text(&self) -> (r: String)
        ensures
            r@ == self@.text(),
    {
        match self {
            PatchError::Io { path, detail } => String::from_str("io error on ").concat(
                path.as_str(),
            ).concat(": ").concat(detail.as_str()),
            PatchError::AnchorMissing(what) => String::from_str("could not find `").concat(
                what.as_str(),
            ).concat("` in the driver source; it may have changed shape upstream"),
        }
    }
}

/// Which parameters of the driver a board is given.
#[derive(Debug, Clone, Copy, PartialEq, Eq, Structural)]
pub enum BoardParams {
    VictusS,
    OmenV1,
    OmenV1Legacy,
    OmenV1NoEc,
}

impl BoardParams {
    pub open spec fn name(self) -> Seq<char> {
        match self {
            BoardParams::VictusS => "victus_s_board_params"@,
            BoardParams::OmenV1 => "omen_v1_board_params"@,
            BoardParams::OmenV1Legacy => "omen_v1_legacy_board_params"@,
            BoardParams::OmenV1NoEc => "omen_v1_no_ec_board_params"@,
        }
    }

    /// The symbol of the parameters in the driver source.
    pub fn symbol(self) -> (r: &'static str)
        ensures
            r@ == self.name(),
    {
        match self {
            BoardParams::VictusS => "victus_s_board_params",
            BoardParams::OmenV1 => "omen_v1_board_params",
            BoardParams::OmenV1Legacy => "omen_v1_legacy_board_params",
            BoardParams::OmenV1NoEc => "omen_v1_no_ec_board_params",
        }
    }
}

/// A table of the driver that lists boards.
#[derive(Debug, Clone, Copy, PartialEq, Eq, Structural)]
pub enum BoardTable {
    OmenThermalProfile,
    OmenForceV0,
    OmenTimed,
    VictusThermalProfile,
    Features(BoardParams),
}

pub open spec fn quoted(name: Seq<char>) -> Seq<char> {
    "\""@ + name + "\""@
}

impl BoardTable {
    pub open spec fn array(self) -> Seq<char> {
        match self {
            BoardTable::OmenThermalProfile => "omen_thermal_profile_boards"@,
            BoardTable::OmenForceV0 => "omen_thermal_profile_force_v0_boards"@,
            BoardTable::OmenTimed => "omen_timed_thermal_profile_boards"@,
            BoardTable::VictusThermalProfile => "victus_thermal_profile_boards"@,
            BoardTable::Features(_) => "hp_wmi_feature_boards"@,
        }
    }

    /// The entry that lists a board in the table.
    pub open spec fn entry(self, board: Seq<char>) -> Seq<char> {
        match self {
            BoardTable::Features(params) => "\t{\n\t\t.matches = {DMI_MATCH(DMI_BOARD_NAME, "@
                + quoted(board) + ")},\n\t\t.driver_data = (void *)&"@ + params.name()
                + ",\n\t},\n"@,
            _ => "\t"@ + quoted(board) + ",\n"@,
        }
    }

    /// Whether the table ends with an empty entry that has to stay last.
    pub open spec fn sentinel(self) -> bool {
        self is Features
    }

    pub fn array_name(self) -> (r: &'static str)
        ensures
            r@ == self.array(),
    {
        match self {
            BoardTable::OmenThermalProfile => "omen_thermal_profile_boards",
            BoardTable::OmenForceV0 => "omen_thermal_profile_force_v0_boards",
            BoardTable::OmenTimed => "omen_timed_thermal_profile_boards",
            BoardTable::VictusThermalProfile => "victus_thermal_profile_boards",
            BoardTable::Features(_) => "hp_wmi_feature_boards",
        }
    }

    pub fn entry_for(self, board_name: &str) -> (r: String)
        ensures
            r@ == self.entry(board_name@),
    {
        let name = String::from_str("\"").concat(board_name).concat("\"");
        match self {
            BoardTable::Features(params) => String::from_str(
                "\t{\n\t\t.matches = {DMI_MATCH(DMI_BOARD_NAME, ",
            ).concat(name.as_str()).concat(")},\n\t\t.driver_data = (void *)&").concat(
                params.symbol(),
            ).concat(",\n\t},\n"),
            _ => String::from_str("\t").concat(name.as_str()).concat(",\n"),
        }
    }

    pub fn has_sentinel(self) -> (r: bool)
        ensures
            r == self.sentinel(),
    {
        match self {
            BoardTable::Features(_) => true,
            _ => false,
        }
    }
}

/// Measured fan ceilings; a fan that was not measured keeps the driver's own.
#[derive(Debug, Clone, Copy, PartialEq, Eq, Structural)]
pub struct MaxRpm {
    pub cpu: Option<u32>,
    pub gpu: Option<u32>,
}

impl Default for MaxRpm {
    fn default() -> (r: MaxRpm)
        ensures
            r == (MaxRpm { cpu: None, gpu: None }),
    {
        MaxRpm { cpu: None, gpu: None }
    }
}

impl MaxRpm {
    pub fn is_empty(&self) -> (r: bool)
        ensures
            r == (self.cpu is None && self.gpu is None),
    {
        self.cpu.is_none() && self.gpu.is_none()
    }
}

// --- the fan ceilings ----------------------------------------------------

/// A character that continues a C identifier.
pub open spec fn is_word(c: char) -> bool {
    '0' <= c <= '9' || 'a' <= c <= 'z' || 'A' <= c <= 'Z' || c == '_'
}

/// The define stands at `i` as a whole: no longer name starts there.
pub open spec fn whole_at(s: Seq<char>, define: Seq<char>, i: int) -> bool {
    &&& text::occurs_at(s, define, i)
    &&& i + define.len() < s.len() ==> !is_word(s[i + define.len()])
}

/// The first place at or after `from` where the define stands as a whole.
pub open spec fn first_whole(s: Seq<char>, define: Seq<char>, from: int) -> Option<int>
    decreases s.len() + 1 - from,
{
    if from < 0 || from > s.len() {
        None
    } else if whole_at(s, define, from) {
        Some(from)
    } else {
        first_whole(s, define, from + 1)
    }
}

/// A blank within a line.
pub open spec fn is_blank(c: char) -> bool {
    c == ' ' || c == '\t'
}

/// The end of a comment that is open at `i`, where it closes on its line.
pub open spec fn comment_end(t: Seq<char>, i: int) -> Option<int>
    decreases t.len() - i,
{
    if i < 0 || i + 1 >= t.len() || t[i] == '\n' {
        None
    } else if t[i] == '*' && t[i + 1] == '/' {
        Some(i + 2)
    } else {
        comment_end(t, i + 1)
    }
}

/// The end of a literal that is open at `i`, where it closes on its line.
pub open spec fn literal_end(t: Seq<char>, quote: char, i: int) -> Option<int>
    decreases t.len() - i,
{
    if i < 0 || i >= t.len() || t[i] == '\n' {
        None
    } else if t[i] == quote {
        Some(i + 1)
    } else if t[i] == '\\' && i + 1 < t.len() && t[i + 1] != '\n' {
        literal_end(t, quote, i + 2)
    } else {
        literal_end(t, quote, i + 1)
    }
}

/// The length of the comment that a text begins with, where it closes on its
/// line.
pub open spec fn comment_len(t: Seq<char>) -> Option<int> {
    if t.len() >= 2 && t[0] == '/' && t[1] == '*' {
        comment_end(t, 2)
    } else {
        None
    }
}

/// No code of this line follows: the line ends, or a comment begins that goes
/// on to its end.
pub open spec fn ends_code(t: Seq<char>) -> bool {
    ||| t.len() == 0
    ||| t[0] == '\n'
    ||| t.len() >= 2 && t[0] == '/' && t[1] == '/'
    ||| t.len() >= 2 && t[0] == '/' && t[1] == '*' && comment_len(t) is None
}

/// A text that goes on begins with code, not with a blank or a comment.
pub open spec fn begins_code(t: Seq<char>) -> bool {
    !is_blank(t[0]) && t[0] != '\r' && comment_len(t) is None
}

/// The length of the piece that a text that goes on begins with: a comment, a
/// literal, or one character.
pub open spec fn piece_len(t: Seq<char>) -> int {
    match comment_len(t) {
        Some(n) => n,
        None => if t[0] == '"' || t[0] == '\'' {
            match literal_end(t, t[0], 1) {
                Some(n) => n,
                None => 1,
            }
        } else {
            1
        },
    }
}

/// The length of the blanks and comments that a text begins with.
pub open spec fn lead_len(t: Seq<char>) -> int
    decreases t.len(),
{
    if t.len() > 0 && is_blank(t[0]) {
        1 + lead_len(t.skip(1))
    } else {
        match comment_len(t) {
            Some(n) => {
                proof {
                    lemma_comment_len(t);
                }
                n + lead_len(t.skip(n))
            },
            None => 0,
        }
    }
}

/// The length of a text up to the end of the last code on its line; nought
/// where the line holds no more code.
pub open spec fn code_len(t: Seq<char>) -> int
    decreases t.len(),
{
    if ends_code(t) {
        0
    } else {
        proof {
            lemma_piece_len(t);
        }
        let n = piece_len(t);
        let more = code_len(t.skip(n));
        if more > 0 || begins_code(t) {
            n + more
        } else {
            0
        }
    }
}

/// Where the value of a define begins and ends in what follows its name: the
/// code on the rest of the line, without the blanks and comments around it.
/// Nothing where the line holds no code.
pub open spec fn value_span(t: Seq<char>) -> Option<(int, int)> {
    let start = lead_len(t);
    let len = code_len(t.skip(start));
    if len > 0 {
        Some((start, start + len))
    } else {
        None
    }
}

/// The value of a define.
pub open spec fn value_of(s: Seq<char>, define: Seq<char>) -> Option<Seq<char>> {
    match first_whole(s, define, 0) {
        None => None,
        Some(i) => {
            let t = s.skip(i + define.len());
            match value_span(t) {
                None => None,
                Some((start, end)) => Some(t.subrange(start, end)),
            }
        },
    }
}

/// What stands before and behind the value of a define, in what follows its
/// name. A define without a value gets it directly behind its name; a name that
/// nothing stands apart from gets a blank behind it.
pub open spec fn around_value(t: Seq<char>) -> (Seq<char>, Seq<char>) {
    match value_span(t) {
        Some((start, end)) => (
            if start == 0 {
                " "@
            } else {
                t.take(start)
            },
            t.skip(end),
        ),
        None => (" "@, t),
    }
}

/// The source with the define's value replaced, and everything else as it is.
pub open spec fn replaced(s: Seq<char>, define: Seq<char>, value: nat) -> Option<Seq<char>> {
    match first_whole(s, define, 0) {
        None => None,
        Some(i) => {
            let name_end = i + define.len();
            let (before, behind) = around_value(s.skip(name_end));
            Some(s.take(name_end) + before + number::decimal(value) + behind)
        },
    }
}

/// What is reported of a define that was replaced. The source counts in
/// hundreds of rpm.
pub open spec fn ceiling_report(define: Seq<char>, rpm: nat) -> Seq<char> {
    define + " = "@ + number::decimal(rpm / 100) + " ("@ + number::decimal(rpm) + " rpm)"@
}

/// A source under way, and what has been done to it.
pub open spec fn with_ceiling(
    state: (Seq<char>, Seq<Seq<char>>),
    define: Seq<char>,
    rpm: Option<u32>,
) -> (Seq<char>, Seq<Seq<char>>) {
    match rpm {
        None => state,
        Some(rpm) => match replaced(state.0, define, (rpm / 100) as nat) {
            None => state,
            Some(s) => (s, state.1.push(ceiling_report(define, rpm as nat))),
        },
    }
}

/// The source with the measured ceilings, and what was done. Where neither
/// per-fan constant took a value, the older single constant takes one; where
/// that is missing too, the anchors are.
pub open spec fn with_ceilings(source: Seq<char>, max_rpm: MaxRpm) -> Result<
    (Seq<char>, Seq<Seq<char>>),
    PatchErrorView,
> {
    let cpu = with_ceiling((source, seq![]), CPU_MAX_RPM_DEFINE@, max_rpm.cpu);
    let both = with_ceiling(cpu, GPU_MAX_RPM_DEFINE@, max_rpm.gpu);
    let all = if both.1.len() == 0 {
        with_ceiling(
            both,
            LEGACY_MAX_RPM_DEFINE@,
            match max_rpm.cpu {
                Some(rpm) => Some(rpm),
                None => max_rpm.gpu,
            },
        )
    } else {
        both
    };
    if all.1.len() == 0 && !(max_rpm.cpu is None && max_rpm.gpu is None) {
        Err(
            PatchErrorView::AnchorMissing(
                CPU_MAX_RPM_DEFINE@ + " / "@ + GPU_MAX_RPM_DEFINE@ + " / "@ + LEGACY_MAX_RPM_DEFINE@,
            ),
        )
    } else {
        Ok(all)
    }
}

/// A define that cannot overlap itself: its first character occurs once.
pub open spec fn starts_once(define: Seq<char>) -> bool {
    &&& define.len() > 0
    &&& forall|k: int| 1 <= k < define.len() ==> #[trigger] define[k] != define[0]
}

proof fn lemma_defines_start_once()
    ensures
        starts_once(CPU_MAX_RPM_DEFINE@),
        starts_once(GPU_MAX_RPM_DEFINE@),
        starts_once(LEGACY_MAX_RPM_DEFINE@),
{
    reveal_strlit("#define OMEN_CPU_MAX_RPM");
    reveal_strlit("#define OMEN_GPU_MAX_RPM");
    reveal_strlit("#define OMEN_MAX_RPM");
}

fn word(c: char) -> (r: bool)
    ensures
        r == is_word(c),
{
    ('0' <= c && c <= '9') || ('a' <= c && c <= 'z') || ('A' <= c && c <= 'Z') || c == '_'
}

/// Nothing from `from` up to `to` is a whole occurrence.
proof fn lemma_skip_whole(s: Seq<char>, define: Seq<char>, from: int, to: int)
    requires
        0 <= from <= to,
        to <= s.len() + 1,
        forall|k: int| from <= k < to ==> !whole_at(s, define, k),
    ensures
        first_whole(s, define, from) == first_whole(s, define, to),
    decreases to - from,
{
    if from < to {
        assert(!whole_at(s, define, from));
        lemma_skip_whole(s, define, from + 1, to);
    }
}

fn find_define(s: &Vec<char>, define: &Vec<char>) -> (r: Option<usize>)
    requires
        starts_once(define@),
    ensures
        match r {
            Some(i) => first_whole(s@, define@, 0) == Some(i as int) && i + define@.len()
                <= s@.len(),
            None => first_whole(s@, define@, 0) is None,
        },
{
    let n: usize = s.len();
    let m: usize = define.len();
    let mut from: usize = 0;
    while from <= n
        invariant
            n == s@.len(),
            m == define@.len(),
            starts_once(define@),
            from <= n,
            first_whole(s@, define@, 0) == first_whole(s@, define@, from as int),
        decreases n + 1 - from,
    {
        proof {
            text::lemma_first_at(s@, define@, from as int);
        }
        match text::find_from(s, define, from) {
            None => {
                proof {
                    lemma_skip_whole(s@, define@, from as int, n + 1);
                }
                return None;
            },
            Some(start) => {
                proof {
                    lemma_skip_whole(s@, define@, from as int, start as int);
                }
                let after: usize = start + m;
                if after < n && word(s[after]) {
                    proof {
                        assert forall|k: int| start <= k < after implies !whole_at(
                            s@,
                            define@,
                            k,
                        ) by {
                            if k > start && text::occurs_at(s@, define@, k) {
                                assert(s@.subrange(k, k + m)[0] == s@[k]);
                                assert(s@.subrange(start as int, start + m)[k - start] == s@[k]);
                            }
                        }
                        lemma_skip_whole(s@, define@, start as int, after as int);
                    }
                    from = after;
                } else {
                    return Some(start);
                }
            },
        }
    }
    None
}

proof fn lemma_comment_end(t: Seq<char>, i: int)
    requires
        0 <= i,
    ensures
        comment_end(t, i) matches Some(n) ==> i + 2 <= n <= t.len(),
    decreases t.len() - i,
{
    if i + 1 < t.len() && t[i] != '\n' && !(t[i] == '*' && t[i + 1] == '/') {
        lemma_comment_end(t, i + 1);
    }
}

/// A comment holds at least its own marks.
pub proof fn lemma_comment_len(t: Seq<char>)
    ensures
        comment_len(t) matches Some(n) ==> 4 <= n <= t.len(),
{
    lemma_comment_end(t, 2);
}

proof fn lemma_literal_end(t: Seq<char>, quote: char, i: int)
    requires
        0 <= i,
    ensures
        literal_end(t, quote, i) matches Some(n) ==> i + 1 <= n <= t.len(),
    decreases t.len() - i,
{
    if i < t.len() && t[i] != '\n' && t[i] != quote {
        if t[i] == '\\' && i + 1 < t.len() && t[i + 1] != '\n' {
            lemma_literal_end(t, quote, i + 2);
        } else {
            lemma_literal_end(t, quote, i + 1);
        }
    }
}

/// A text that goes on begins with a piece of it.
pub proof fn lemma_piece_len(t: Seq<char>)
    requires
        t.len() > 0,
    ensures
        1 <= piece_len(t) <= t.len(),
{
    lemma_comment_len(t);
    lemma_literal_end(t, t[0], 1);
}

proof fn lemma_lead_len(t: Seq<char>)
    ensures
        0 <= lead_len(t) <= t.len(),
    decreases t.len(),
{
    lemma_comment_len(t);
    if t.len() > 0 && is_blank(t[0]) {
        lemma_lead_len(t.skip(1));
    } else if comment_len(t) is Some {
        lemma_lead_len(t.skip(comment_len(t)->0));
    }
}

proof fn lemma_code_len(t: Seq<char>)
    ensures
        0 <= code_len(t) <= t.len(),
    decreases t.len(),
{
    if !ends_code(t) {
        lemma_piece_len(t);
        lemma_code_len(t.skip(piece_len(t)));
    }
}

fn blank(c: char) -> (r: bool)
    ensures
        r == is_blank(c),
{
    c == ' ' || c == '\t'
}

/// The length of the comment that begins at `at`.
fn comment_at(t: &Vec<char>, at: usize) -> (r: Option<usize>)
    requires
        at <= t@.len(),
    ensures
        match r {
            Some(n) => comment_len(t@.skip(at as int)) == Some(n as int) && n <= t@.len() - at,
            None => comment_len(t@.skip(at as int)) is None,
        },
{
    let n: usize = t.len();
    let ghost rest = t@.skip(at as int);
    if n - at < 2 || t[at] != '/' || t[at + 1] != '*' {
        return None;
    }
    let mut i: usize = at + 2;
    while i < n && n - i >= 2 && t[i] != '\n'
        invariant
            n == t@.len(),
            at + 2 <= i <= n,
            rest == t@.skip(at as int),
            rest[0] == '/' && rest[1] == '*',
            comment_end(rest, 2) == comment_end(rest, i - at),
        decreases n - i,
    {
        if t[i] == '*' && t[i + 1] == '/' {
            return Some(i + 2 - at);
        }
        i = i + 1;
    }
    None
}

/// The length of the piece that begins at `at`, which is no comment.
fn piece_at(t: &Vec<char>, at: usize) -> (r: usize)
    requires
        at < t@.len(),
        comment_len(t@.skip(at as int)) is None,
    ensures
        r == piece_len(t@.skip(at as int)),
        1 <= r <= t@.len() - at,
{
    let n: usize = t.len();
    let ghost rest = t@.skip(at as int);
    let quote = t[at];
    if quote != '"' && quote != '\'' {
        return 1;
    }
    let mut i: usize = at + 1;
    while i < n && t[i] != '\n'
        invariant
            n == t@.len(),
            at + 1 <= i <= n,
            rest == t@.skip(at as int),
            rest[0] == quote,
            quote == '"' || quote == '\'',
            comment_len(rest) is None,
            literal_end(rest, quote, 1) == literal_end(rest, quote, i - at),
        decreases n - i,
    {
        if t[i] == quote {
            return i + 1 - at;
        }
        if t[i] == '\\' && n - i >= 2 && t[i + 1] != '\n' {
            i = i + 2;
        } else {
            i = i + 1;
        }
    }
    1
}

fn find_value(t: &Vec<char>) -> (r: Option<(usize, usize)>)
    ensures
        match r {
            Some((start, end)) => value_span(t@) == Some((start as int, end as int)) && start <= end
                <= t@.len(),
            None => value_span(t@) is None,
        },
{
    let n: usize = t.len();
    let mut start: usize = 0;
    proof {
        assert(t@.skip(0) =~= t@);
    }
    loop
        invariant_except_break
            n == t@.len(),
            start <= n,
            lead_len(t@) == start + lead_len(t@.skip(start as int)),
        ensures
            n == t@.len(),
            start <= n,
            lead_len(t@) == start,
        decreases n - start,
    {
        let ghost rest = t@.skip(start as int);
        let step: usize = if start < n && blank(t[start]) {
            1
        } else {
            match comment_at(t, start) {
                Some(len) => len,
                None => 0,
            }
        };
        proof {
            lemma_comment_len(rest);
            assert(rest.skip(step as int) =~= t@.skip(start + step));
        }
        if step == 0 {
            break;
        }
        start = start + step;
    }
    let mut i: usize = start;
    let mut end: usize = start;
    proof {
        lemma_code_len(t@.skip(start as int));
    }
    loop
        invariant_except_break
            n == t@.len(),
            start <= end <= i <= n,
            code_len(t@.skip(start as int)) == (if code_len(t@.skip(i as int)) > 0 {
                i - start + code_len(t@.skip(i as int))
            } else {
                end - start
            }),
        ensures
            start <= end <= n,
            code_len(t@.skip(start as int)) == end - start,
        decreases n - i,
    {
        let ghost rest = t@.skip(i as int);
        if i >= n || t[i] == '\n' {
            break;
        }
        let comment = comment_at(t, i);
        if t[i] == '/' && n - i >= 2 && (t[i + 1] == '/' || (t[i + 1] == '*' && comment.is_none())) {
            break;
        }
        let step: usize = match comment {
            Some(len) => len,
            None => piece_at(t, i),
        };
        proof {
            lemma_piece_len(rest);
            lemma_code_len(rest.skip(step as int));
            assert(rest.skip(step as int) =~= t@.skip(i + step));
        }
        if comment.is_none() && !blank(t[i]) && t[i] != '\r' {
            end = i + step;
        }
        i = i + step;
    }
    if start < end {
        Some((start, end))
    } else {
        None
    }
}

fn replace_define_value(s: &Vec<char>, define: &Vec<char>, value: u32) -> (r: Option<Vec<char>>)
    requires
        starts_once(define@),
    ensures
        match r {
            Some(p) => replaced(s@, define@, value as nat) == Some(p@),
            None => replaced(s@, define@, value as nat) is None,
        },
{
    let n: usize = s.len();
    match find_define(s, define) {
        None => None,
        Some(at) => {
            let name_end: usize = at + define.len();
            let rest = text::slice(s, name_end, n);
            let (start, end) = match find_value(&rest) {
                Some(span) => span,
                None => (0, 0),
            };
            let mut out = text::slice(s, 0, name_end);
            if start == 0 {
                text::push_all(&mut out, &text::chars_of(" "));
            } else {
                text::push_all(&mut out, &text::slice(&rest, 0, start));
            }
            text::push_all(&mut out, &text::chars_of(number::show(value as u64).as_str()));
            text::push_all(&mut out, &text::slice(&rest, end, rest.len()));
            proof {
                assert(s@.subrange(0, name_end as int) =~= s@.take(name_end as int));
                assert(rest@ =~= s@.skip(name_end as int));
                assert(rest@.subrange(0, start as int) =~= rest@.take(start as int));
                assert(rest@.subrange(end as int, rest@.len() as int) =~= rest@.skip(end as int));
            }
            Some(out)
        },
    }
}

/// Writes one ceiling, where it was measured and the define is there.
fn apply_ceiling(
    source: Vec<char>,
    applied: &mut Vec<String>,
    define: &'static str,
    rpm: Option<u32>,
) -> (r: Vec<char>)
    requires
        starts_once(define@),
    ensures
        (r@, text::views(final(applied)@)) == with_ceiling(
            (source@, text::views(old(applied)@)),
            define@,
            rpm,
        ),
{
    match rpm {
        None => source,
        Some(rpm) => match replace_define_value(&source, &text::chars_of(define), rpm / 100) {
            None => source,
            Some(updated) => {
                let report = String::from_str(define).concat(" = ").concat(
                    number::show((rpm / 100) as u64).as_str(),
                ).concat(" (").concat(number::show(rpm as u64).as_str()).concat(" rpm)");
                text::push_string(applied, report);
                updated
            },
        },
    }
}

/// Writes the measured fan ceilings into the source, and reports each line it
/// changed.
pub fn patch_max_rpm(source: &str, max_rpm: MaxRpm) -> (r: Result<
    (String, Vec<String>),
    PatchError,
>)
    ensures
        (match r {
            Ok((s, applied)) => Ok((s@, text::views(applied@))),
            Err(e) => Err(e@),
        }) == with_ceilings(source@, max_rpm),
{
    proof {
        lemma_defines_start_once();
    }
    let mut applied: Vec<String> = Vec::new();
    proof {
        assert(text::views(applied@) =~= seq![]);
    }
    let patched = text::chars_of(source);
    let patched = apply_ceiling(patched, &mut applied, CPU_MAX_RPM_DEFINE, max_rpm.cpu);
    let patched = apply_ceiling(patched, &mut applied, GPU_MAX_RPM_DEFINE, max_rpm.gpu);
    let patched = if applied.len() == 0 {
        let rpm = match max_rpm.cpu {
            Some(rpm) => Some(rpm),
            None => max_rpm.gpu,
        };
        apply_ceiling(patched, &mut applied, LEGACY_MAX_RPM_DEFINE, rpm)
    } else {
        patched
    };
    if applied.len() == 0 && !max_rpm.is_empty() {
        let anchors = String::from_str(CPU_MAX_RPM_DEFINE).concat(" / ").concat(
            GPU_MAX_RPM_DEFINE,
        ).concat(" / ").concat(LEGACY_MAX_RPM_DEFINE);
        return Err(PatchError::AnchorMissing(anchors));
    }
    Ok((text::string_of(&patched), applied))
}

// --- the board tables ----------------------------------------------------

/// Where the brace that closes the current depth is, reading on from `i`.
pub open spec fn closing(s: Seq<char>, i: int, depth: int) -> Option<int>
    decreases s.len() - i,
{
    if i < 0 || i >= s.len() {
        None
    } else if s[i] == '{' {
        closing(s, i + 1, depth + 1)
    } else if s[i] == '}' {
        if depth == 1 {
            Some(i)
        } else {
            closing(s, i + 1, depth - 1)
        }
    } else {
        closing(s, i + 1, depth)
    }
}

/// The braces of a table: its name, the first brace behind the name, and the
/// brace that closes it.
pub open spec fn body_of(s: Seq<char>, table: BoardTable) -> Result<(int, int), PatchErrorView> {
    match text::first_at(s, table.array(), 0) {
        None => Err(PatchErrorView::AnchorMissing(table.array())),
        Some(start) => match text::position(s, Class::Is('{'), start) {
            None => Err(PatchErrorView::AnchorMissing("opening brace of "@ + table.array())),
            Some(open) => match closing(s, open, 0) {
                None => Err(PatchErrorView::AnchorMissing("closing brace of "@ + table.array())),
                Some(close) => Ok((open, close)),
            },
        },
    }
}

/// Whether the table lists the board.
pub open spec fn lists(s: Seq<char>, table: BoardTable, board: Seq<char>) -> Result<
    bool,
    PatchErrorView,
> {
    match body_of(s, table) {
        Err(e) => Err(e),
        Ok((open, close)) => Ok(text::contains(s.subrange(open + 1, close), quoted(board))),
    }
}

/// The start of the line that `i` is on, or `i` itself on the first line.
pub open spec fn line_start(s: Seq<char>, i: int) -> int {
    match text::last_before(s, seq!['\n'], i) {
        Some(j) => j + 1,
        None => i,
    }
}

/// Where a new entry goes: in a table that ends with an empty entry, before
/// the line of the last one, or behind the opening brace where that is on the
/// same line; otherwise just before the closing brace.
pub open spec fn insertion(s: Seq<char>, table: BoardTable, open: int, close: int) -> int {
    if table.sentinel() {
        match text::last_before(s.subrange(open + 1, close), "{}"@, close - open - 1) {
            Some(k) => if line_start(s, open + 1 + k) <= open {
                open + 1
            } else {
                line_start(s, open + 1 + k)
            },
            None => close,
        }
    } else {
        close
    }
}

/// The source with the board listed in the table. A board that is listed
/// already is left alone.
pub open spec fn injected(s: Seq<char>, table: BoardTable, board: Seq<char>) -> Result<
    Seq<char>,
    PatchErrorView,
> {
    match body_of(s, table) {
        Err(e) => Err(e),
        Ok((open, close)) => if text::contains(s.subrange(open + 1, close), quoted(board)) {
            Ok(s)
        } else {
            let at = insertion(s, table, open, close);
            Ok(s.take(at) + table.entry(board) + s.skip(at))
        },
    }
}

proof fn lemma_closing_bounds(s: Seq<char>, i: int, depth: int)
    requires
        0 <= i,
        depth >= 0,
        depth == 0 ==> i < s.len() && s[i] == '{',
    ensures
        closing(s, i, depth) matches Some(j) ==> i <= j < s.len() && s[j] == '}' && (depth == 0
            ==> i < j),
    decreases s.len() - i,
{
    if i < s.len() {
        if s[i] == '{' {
            lemma_closing_bounds(s, i + 1, depth + 1);
        } else if s[i] == '}' {
            if depth > 1 {
                lemma_closing_bounds(s, i + 1, depth - 1);
            }
        } else {
            lemma_closing_bounds(s, i + 1, depth);
        }
    }
}

fn find_matching_brace(s: &Vec<char>, open: usize) -> (r: Option<usize>)
    requires
        open < s@.len(),
        s@[open as int] == '{',
    ensures
        match r {
            Some(j) => closing(s@, open as int, 0) == Some(j as int) && open < j < s@.len(),
            None => closing(s@, open as int, 0) is None,
        },
{
    let n: usize = s.len();
    let mut depth: usize = 1;
    let mut i: usize = open + 1;
    while i < n
        invariant
            n == s@.len(),
            open < i <= n,
            1 <= depth <= i - open,
            closing(s@, open as int, 0) == closing(s@, i as int, depth as int),
        decreases n - i,
    {
        if s[i] == '{' {
            depth = depth + 1;
        } else if s[i] == '}' {
            if depth == 1 {
                return Some(i);
            }
            depth = depth - 1;
        }
        i = i + 1;
    }
    None
}

fn table_body(s: &Vec<char>, table: BoardTable) -> (r: Result<(usize, usize), PatchError>)
    ensures
        (match r {
            Ok((open, close)) => Ok((open as int, close as int)),
            Err(e) => Err(e@),
        }) == body_of(s@, table),
        r matches Ok((open, close)) ==> open < close < s@.len(),
{
    let array = table.array_name();
    match text::find_from(s, &text::chars_of(array), 0) {
        None => Err(PatchError::AnchorMissing(String::from_str(array))),
        Some(start) => match text::position_of(s, Class::Is('{'), start) {
            None => Err(
                PatchError::AnchorMissing(String::from_str("opening brace of ").concat(array)),
            ),
            Some(open) => {
                proof {
                    text::lemma_position(s@, Class::Is('{'), start as int);
                }
                match find_matching_brace(s, open) {
                    None => Err(
                        PatchError::AnchorMissing(
                            String::from_str("closing brace of ").concat(array),
                        ),
                    ),
                    Some(close) => Ok((open, close)),
                }
            },
        },
    }
}

fn body_lists(s: &Vec<char>, open: usize, close: usize, board_name: &str) -> (r: bool)
    requires
        open < close < s@.len(),
    ensures
        r == text::contains(s@.subrange(open + 1, close as int), quoted(board_name@)),
{
    let name = String::from_str("\"").concat(board_name).concat("\"");
    text::has(&text::slice(s, open + 1, close), &text::chars_of(name.as_str()))
}

/// Whether a table lists a board.
pub fn board_in_table(source: &str, table: BoardTable, board_name: &str) -> (r: Result<
    bool,
    PatchError,
>)
    ensures
        (match r {
            Ok(b) => Ok(b),
            Err(e) => Err(e@),
        }) == lists(source@, table, board_name@),
{
    let s = text::chars_of(source);
    match table_body(&s, table) {
        Err(e) => Err(e),
        Ok((open, close)) => Ok(body_lists(&s, open, close, board_name)),
    }
}

fn find_sentinel(s: &Vec<char>, from: usize, to: usize) -> (r: Option<usize>)
    requires
        from <= to <= s@.len(),
    ensures
        match r {
            Some(p) => text::last_before(
                s@.subrange(from as int, to as int),
                "{}"@,
                to - from,
            ) matches Some(k) && p == (if line_start(s@, from + k) < from {
                from as int
            } else {
                line_start(s@, from + k)
            }) && p <= from + k && from + k < to,
            None => text::last_before(
                s@.subrange(from as int, to as int),
                "{}"@,
                to - from,
            ) is None,
        },
{
    let body = text::slice(s, from, to);
    let mark = text::chars_of("{}");
    let size: usize = body.len();
    proof {
        text::lemma_last_before(body@, mark@, size as int);
    }
    match text::find_last_before(&body, &mark, size) {
        None => None,
        Some(k) => {
            let sentinel: usize = from + k;
            let mut newline: Vec<char> = Vec::new();
            newline.push('\n');
            proof {
                assert(newline@ =~= seq!['\n']);
                text::lemma_last_before(s@, newline@, sentinel as int);
            }
            match text::find_last_before(s, &newline, sentinel) {
                Some(j) => if j + 1 < from {
                    Some(from)
                } else {
                    Some(j + 1)
                },
                None => Some(sentinel),
            }
        },
    }
}

/// Lists a board in a table.
pub fn inject_board(source: &str, table: BoardTable, board_name: &str) -> (r: Result<
    String,
    PatchError,
>)
    ensures
        (match r {
            Ok(s) => Ok(s@),
            Err(e) => Err(e@),
        }) == injected(source@, table, board_name@),
{
    let s = text::chars_of(source);
    let n: usize = s.len();
    match table_body(&s, table) {
        Err(e) => Err(e),
        Ok((open, close)) => {
            if body_lists(&s, open, close, board_name) {
                return Ok(String::from_str(source));
            }
            let at: usize = if table.has_sentinel() {
                match find_sentinel(&s, open + 1, close) {
                    Some(p) => p,
                    None => close,
                }
            } else {
                close
            };
            let entry = table.entry_for(board_name);
            let mut out = text::slice(&s, 0, at);
            text::push_all(&mut out, &text::chars_of(entry.as_str()));
            text::push_all(&mut out, &text::slice(&s, at, n));
            proof {
                assert(s@.subrange(0, at as int) =~= s@.take(at as int));
                assert(s@.subrange(at as int, n as int) =~= s@.skip(at as int));
            }
            Ok(text::string_of(&out))
        },
    }
}

// --- the whole source ----------------------------------------------------

pub open spec fn board_report(board: Seq<char>, table: BoardTable, unchanged: bool) -> Seq<char> {
    if unchanged {
        "board "@ + board + " was already listed in "@ + table.array()
    } else {
        "board "@ + board + " added to "@ + table.array()
    }
}

/// Everything that is done to the pristine source: the measured ceilings, then
/// the experimental board.
pub open spec fn patched_source(
    pristine: Seq<char>,
    max_rpm: MaxRpm,
    board: Option<(BoardTable, Seq<char>)>,
) -> Result<(Seq<char>, Seq<Seq<char>>), PatchErrorView> {
    let ceilings = if max_rpm.cpu is None && max_rpm.gpu is None {
        Ok((pristine, Seq::<Seq<char>>::empty()))
    } else {
        with_ceilings(pristine, max_rpm)
    };
    match ceilings {
        Err(e) => Err(e),
        Ok((source, applied)) => match board {
            None => Ok((source, applied)),
            Some((table, name)) => match injected(source, table, name) {
                Err(e) => Err(e),
                Ok(after) => Ok(
                    (after, applied.push(board_report(name, table, after.len() == source.len()))),
                ),
            },
        },
    }
}

/// Patches the pristine driver source. What is written over the source in the
/// tree always starts from the pristine one, so patching again does not pile
/// up.
pub fn patch_driver_tree(
    pristine: &str,
    max_rpm: MaxRpm,
    experimental_board: Option<(BoardTable, &str)>,
) -> (r: Result<(String, Vec<String>), PatchError>)
    ensures
        (match r {
            Ok((s, applied)) => Ok((s@, text::views(applied@))),
            Err(e) => Err(e@),
        }) == patched_source(
            pristine@,
            max_rpm,
            match experimental_board {
                Some((table, name)) => Some((table, name@)),
                None => None,
            },
        ),
{
    let mut applied: Vec<String> = Vec::new();
    let mut source = String::from_str(pristine);
    proof {
        assert(text::views(applied@) =~= seq![]);
    }
    if !max_rpm.is_empty() {
        match patch_max_rpm(pristine, max_rpm) {
            Err(e) => {
                return Err(e);
            },
            Ok((patched, changes)) => {
                source = patched;
                applied = changes;
            },
        }
    }
    match experimental_board {
        None => {},
        Some((table, name)) => {
            let after = match inject_board(source.as_str(), table, name) {
                Err(e) => {
                    return Err(e);
                },
                Ok(s) => s,
            };
            let report = if after.as_str().unicode_len() == source.as_str().unicode_len() {
                String::from_str("board ").concat(name).concat(" was already listed in ").concat(
                    table.array_name(),
                )
            } else {
                String::from_str("board ").concat(name).concat(" added to ").concat(
                    table.array_name(),
                )
            };
            text::push_string(&mut applied, report);
            source = after;
        },
    }
    Ok((source, applied))
}

// --- laws ----------------------------------------------------------------

/// The depth of braces after a text that starts at the given depth; nothing
/// where the text closes the outermost brace.
pub open spec fn level(e: Seq<char>, depth: int) -> Option<int>
    decreases e.len(),
{
    if e.len() == 0 {
        Some(depth)
    } else {
        match level(e.drop_last(), depth) {
            None => None,
            Some(d) => if e.last() == '{' {
                Some(d + 1)
            } else if e.last() == '}' {
                if d == 1 {
                    None
                } else {
                    Some(d - 1)
                }
            } else {
                Some(d)
            },
        }
    }
}

/// No brace stands in the text.
pub open spec fn no_braces(e: Seq<char>) -> bool {
    forall|k: int| 0 <= k < e.len() ==> #[trigger] e[k] != '{' && e[k] != '}'
}

proof fn lemma_level_plain(e: Seq<char>, depth: int)
    requires
        no_braces(e),
    ensures
        level(e, depth) == Some(depth),
    decreases e.len(),
{
    if e.len() > 0 {
        assert forall|k: int| 0 <= k < e.drop_last().len() implies #[trigger] e.drop_last()[k]
            != '{' && e.drop_last()[k] != '}' by {
            assert(e.drop_last()[k] == e[k]);
        }
        lemma_level_plain(e.drop_last(), depth);
        assert(e[e.len() - 1] == e.last());
    }
}

proof fn lemma_level_concat(a: Seq<char>, b: Seq<char>, depth: int)
    ensures
        level(a + b, depth) == (match level(a, depth) {
            None => None,
            Some(d) => level(b, d),
        }),
    decreases b.len(),
{
    if b.len() == 0 {
        assert(a + b =~= a);
    } else {
        lemma_level_concat(a, b.drop_last(), depth);
        assert((a + b).drop_last() =~= a + b.drop_last());
        assert((a + b).last() == b.last());
    }
}

/// A text that is balanced at one depth is balanced at every greater one.
proof fn lemma_level_deeper(e: Seq<char>, depth: int, more: int)
    requires
        depth >= 1,
        more >= 0,
        level(e, depth) is Some,
    ensures
        level(e, depth + more) == Some(level(e, depth)->0 + more),
        level(e, depth)->0 >= 1,
    decreases e.len(),
{
    if e.len() > 0 {
        lemma_level_deeper(e.drop_last(), depth, more);
    }
}

/// Reading on over a stretch that stays open.
proof fn lemma_closing_through(s: Seq<char>, i: int, j: int, depth: int)
    requires
        0 <= i <= j <= s.len(),
        depth >= 1,
        level(s.subrange(i, j), depth) is Some,
    ensures
        closing(s, i, depth) == closing(s, j, level(s.subrange(i, j), depth)->0),
    decreases j - i,
{
    if i < j {
        assert(s.subrange(i, j).drop_last() =~= s.subrange(i, j - 1));
        assert(s.subrange(i, j).last() == s[j - 1]);
        lemma_closing_through(s, i, j - 1, depth);
    }
}

/// Up to the closing brace, everything stays open.
proof fn lemma_open_until_closing(s: Seq<char>, i: int, p: int, depth: int)
    requires
        0 <= i <= p,
        depth >= 1,
        closing(s, i, depth) is Some,
        p <= closing(s, i, depth)->0,
        p <= s.len(),
    ensures
        level(s.subrange(i, p), depth) is Some,
        level(s.subrange(i, p), depth)->0 >= 1,
        closing(s, p, level(s.subrange(i, p), depth)->0) == closing(s, i, depth),
    decreases p - i,
{
    if i == p {
        assert(s.subrange(i, p) =~= seq![]);
    } else {
        lemma_open_until_closing(s, i, p - 1, depth);
        assert(s.subrange(i, p).drop_last() =~= s.subrange(i, p - 1));
        assert(s.subrange(i, p).last() == s[p - 1]);
        let d = level(s.subrange(i, p - 1), depth)->0;
        if s[p - 1] == '}' && d == 1 {
            assert(closing(s, p - 1, d) == Some(p - 1));
        }
    }
}

/// Where two texts end alike, the closing brace is in the same place of the
/// common end.
proof fn lemma_closing_shift(s: Seq<char>, t: Seq<char>, i: int, m: int, depth: int)
    requires
        0 <= i <= s.len(),
        m >= 0,
        t.len() == s.len() + m,
        forall|k: int| i <= k < s.len() ==> #[trigger] s[k] == t[k + m],
    ensures
        closing(t, i + m, depth) == (match closing(s, i, depth) {
            Some(j) => Some(j + m),
            None => None,
        }),
    decreases s.len() - i,
{
    if i < s.len() {
        assert(s[i] == t[i + m]);
        lemma_closing_shift(s, t, i + 1, m, depth + 1);
        lemma_closing_shift(s, t, i + 1, m, depth - 1);
        lemma_closing_shift(s, t, i + 1, m, depth);
    }
}

proof fn lemma_array_has_no_brace(table: BoardTable)
    ensures
        no_braces(table.array()),
{
    reveal_strlit("omen_thermal_profile_boards");
    reveal_strlit("omen_thermal_profile_force_v0_boards");
    reveal_strlit("omen_timed_thermal_profile_boards");
    reveal_strlit("victus_thermal_profile_boards");
    reveal_strlit("hp_wmi_feature_boards");
}

proof fn lemma_params_have_no_brace(params: BoardParams)
    ensures
        no_braces(params.name()),
{
    reveal_strlit("victus_s_board_params");
    reveal_strlit("omen_v1_board_params");
    reveal_strlit("omen_v1_legacy_board_params");
    reveal_strlit("omen_v1_no_ec_board_params");
}

proof fn lemma_position_agrees(s: Seq<char>, t: Seq<char>, k: Class, from: int, upto: int)
    requires
        0 <= from,
        upto <= s.len(),
        upto <= t.len(),
        forall|i: int| 0 <= i < upto ==> #[trigger] s[i] == t[i],
        position_before(s, k, from, upto),
    ensures
        text::position(t, k, from) == text::position(s, k, from),
    decreases upto - from,
{
    text::lemma_position(s, k, from);
    let o = text::position(s, k, from)->0;
    assert(s[from] == t[from]);
    if from < o {
        assert(position_before(s, k, from + 1, upto));
        lemma_position_agrees(s, t, k, from + 1, upto);
    }
}

spec fn position_before(s: Seq<char>, k: Class, from: int, upto: int) -> bool {
    text::position(s, k, from) matches Some(o) && o < upto
}

/// A name that stands before `upto` is found in the same place of a text that
/// agrees up to there.
proof fn lemma_first_agrees(s: Seq<char>, t: Seq<char>, p: Seq<char>, upto: int)
    requires
        upto <= s.len(),
        upto <= t.len(),
        forall|i: int| 0 <= i < upto ==> #[trigger] s[i] == t[i],
        text::first_at(s, p, 0) is Some,
        text::first_at(s, p, 0)->0 + p.len() <= upto,
    ensures
        text::first_at(t, p, 0) == text::first_at(s, p, 0),
{
    text::lemma_first_at(s, p, 0);
    let i = text::first_at(s, p, 0)->0;
    assert(t.subrange(i, i + p.len()) =~= s.subrange(i, i + p.len()));
    assert forall|j: int| 0 <= j < i implies !text::occurs_at(t, p, j) by {
        if text::occurs_at(t, p, j) {
            assert(t.subrange(j, j + p.len()) =~= s.subrange(j, j + p.len()));
            assert(text::occurs_at(s, p, j));
        }
    }
    text::lemma_first_at_unique(t, p, 0, i);
}

/// What a balanced insertion inside a table's braces does to the table: it
/// starts where it did and ends that much later.
proof fn lemma_body_after_insertion(
    s: Seq<char>,
    table: BoardTable,
    at: int,
    e: Seq<char>,
    open: int,
    close: int,
)
    requires
        body_of(s, table) == Ok::<(int, int), PatchErrorView>((open, close)),
        open < at <= close,
        level(e, 1) == Some(1int),
    ensures
        0 <= open < close < s.len(),
        body_of(s.take(at) + e + s.skip(at), table) == Ok::<(int, int), PatchErrorView>(
            (open, close + e.len()),
        ),
{
    let t = s.take(at) + e + s.skip(at);
    let array = table.array();
    let start = text::first_at(s, array, 0)->0;
    text::lemma_first_at(s, array, 0);
    text::lemma_position(s, Class::Is('{'), start);
    lemma_closing_bounds(s, open, 0);
    lemma_array_has_no_brace(table);
    assert(start + array.len() <= open) by {
        if open < start + array.len() {
            assert(s.subrange(start, start + array.len())[open - start] == s[open]);
            assert(array[open - start] == '{');
        }
    }
    assert(forall|i: int| 0 <= i < at ==> #[trigger] s[i] == t[i]);
    lemma_first_agrees(s, t, array, at);
    lemma_position_agrees(s, t, Class::Is('{'), start, at);
    assert(t[open] == '{');
    assert(closing(s, open, 0) == closing(s, open + 1, 1));
    assert(closing(t, open, 0) == closing(t, open + 1, 1));
    lemma_open_until_closing(s, open + 1, at, 1);
    let d = level(s.subrange(open + 1, at), 1)->0;
    assert(t.subrange(open + 1, at) =~= s.subrange(open + 1, at));
    lemma_closing_through(t, open + 1, at, 1);
    lemma_level_deeper(e, 1, d - 1);
    assert(t.subrange(at, at + e.len()) =~= e);
    lemma_closing_through(t, at, (at + e.len()) as int, d);
    assert forall|k: int| at <= k < s.len() implies #[trigger] s[k] == t[k + e.len()] by {}
    lemma_closing_shift(s, t, at, e.len() as int, d);
}

/// A new entry goes between the braces.
proof fn lemma_insertion_in_range(s: Seq<char>, table: BoardTable, open: int, close: int)
    requires
        0 <= open < close < s.len(),
    ensures
        open < insertion(s, table, open, close) <= close,
{
    if table.sentinel() {
        let body = s.subrange(open + 1, close);
        text::lemma_last_before(body, "{}"@, close - open - 1);
        match text::last_before(body, "{}"@, close - open - 1) {
            Some(k) => {
                text::lemma_last_before(s, seq!['\n'], open + 1 + k);
            },
            None => {},
        }
    }
}

/// The name stands in its entry, in quotes.
proof fn lemma_entry_names_board(table: BoardTable, board: Seq<char>)
    ensures
        text::contains(table.entry(board), quoted(board)),
{
    let e = table.entry(board);
    let q = quoted(board);
    let at = match table {
        BoardTable::Features(_) =>
            "\t{\n\t\t.matches = {DMI_MATCH(DMI_BOARD_NAME, "@.len() as int,
        _ => "\t"@.len() as int,
    };
    assert(e.subrange(at, at + q.len()) =~= q);
    assert(text::occurs_at(e, q, at));
}

/// A board that was put into a table is listed in it, and putting it in again
/// changes nothing. The entry has to be balanced in its braces.
#[verifier::spinoff_prover]
#[verifier::rlimit(60)]
pub proof fn law_injected_board_is_listed(s: Seq<char>, table: BoardTable, board: Seq<char>)
    requires
        body_of(s, table) is Ok,
        level(table.entry(board), 1) == Some(1int),
    ensures
        injected(s, table, board) is Ok,
        lists(injected(s, table, board)->Ok_0, table, board) == Ok::<bool, PatchErrorView>(true),
        injected(injected(s, table, board)->Ok_0, table, board) == injected(s, table, board),
{
    let (open, close) = body_of(s, table)->Ok_0;
    if !text::contains(s.subrange(open + 1, close), quoted(board)) {
        let at = insertion(s, table, open, close);
        let e = table.entry(board);
        let start = text::first_at(s, table.array(), 0)->0;
        text::lemma_first_at(s, table.array(), 0);
        text::lemma_position(s, Class::Is('{'), start);
        lemma_closing_bounds(s, open, 0);
        lemma_insertion_in_range(s, table, open, close);
        lemma_body_after_insertion(s, table, at, e, open, close);
        let t = s.take(at) + e + s.skip(at);
        let q = quoted(board);
        lemma_entry_names_board(table, board);
        let k = choose|k: int| text::occurs_at(e, q, k);
        let body = t.subrange(open + 1, close + e.len());
        let there = at - (open + 1) + k;
        assert(body.subrange(there, there + q.len()) =~= e.subrange(k, k + q.len()));
        assert(text::occurs_at(body, q, there));
    }
}

/// A name without braces makes a balanced entry, in every table.
pub proof fn law_plain_names_are_balanced(table: BoardTable, board: Seq<char>)
    requires
        no_braces(board),
    ensures
        level(table.entry(board), 1) == Some(1int),
{
    let q = quoted(board);
    reveal_strlit("\"");
    assert(no_braces(q));
    lemma_level_plain(q, 1);
    lemma_level_plain(q, 3);
    match table {
        BoardTable::Features(params) => {
            let a = "\t{\n\t\t.matches = {DMI_MATCH(DMI_BOARD_NAME, "@;
            let b = ")},\n\t\t.driver_data = (void *)&"@;
            let c = params.name();
            let d = ",\n\t},\n"@;
            reveal_strlit("\t{\n\t\t.matches = {DMI_MATCH(DMI_BOARD_NAME, ");
            reveal_strlit(")},\n\t\t.driver_data = (void *)&");
            reveal_strlit(",\n\t},\n");
            lemma_params_have_no_brace(params);
            // Two braces open before the name...
            let a0 = a.subrange(0, 2);
            let a1 = a.subrange(2, 16);
            let a2 = a.subrange(17, a.len() as int);
            assert(a =~= a0 + a1 + seq!['{'] + a2);
            assert(no_braces(a.subrange(0, 1)));
            lemma_level_plain(a.subrange(0, 1), 1);
            assert(level(a0, 1) == Some(2int)) by {
                assert(a0.drop_last() =~= a.subrange(0, 1));
            }
            assert(no_braces(a1));
            assert(no_braces(a2));
            lemma_level_concat(a0, a1, 1);
            lemma_level_plain(a1, 2);
            lemma_level_concat(a0 + a1, seq!['{'], 1);
            lemma_level_plain(Seq::<char>::empty(), 2);
            assert(seq!['{'].drop_last() =~= Seq::<char>::empty());
            assert(level(seq!['{'], 2) == Some(3int));
            lemma_level_concat(a0 + a1 + seq!['{'], a2, 1);
            lemma_level_plain(a2, 3);
            assert(level(a, 1) == Some(3int));
            // ...and both are closed behind it.
            let b0 = b.subrange(0, 2);
            let b1 = b.subrange(2, b.len() as int);
            assert(b =~= b0 + b1);
            assert(no_braces(b.subrange(0, 1)));
            lemma_level_plain(b.subrange(0, 1), 3);
            assert(level(b0, 3) == Some(2int)) by {
                assert(b0.drop_last() =~= b.subrange(0, 1));
            }
            assert(no_braces(b1));
            lemma_level_concat(b0, b1, 3);
            lemma_level_plain(b1, 2);
            lemma_level_plain(c, 2);
            let d0 = d.subrange(0, 4);
            let d1 = d.subrange(4, d.len() as int);
            assert(d =~= d0 + d1);
            assert(no_braces(d.subrange(0, 3)));
            lemma_level_plain(d.subrange(0, 3), 2);
            assert(level(d0, 2) == Some(1int)) by {
                assert(d0.drop_last() =~= d.subrange(0, 3));
            }
            assert(no_braces(d1));
            lemma_level_concat(d0, d1, 2);
            lemma_level_plain(d1, 1);
            lemma_level_concat(a, q, 1);
            lemma_level_concat(a + q, b, 1);
            lemma_level_concat(a + q + b, c, 1);
            lemma_level_concat(a + q + b + c, d, 1);
        },
        _ => {
            reveal_strlit("\t");
            reveal_strlit(",\n");
            assert(no_braces("\t"@));
            assert(no_braces(",\n"@));
            lemma_level_plain("\t"@, 1);
            lemma_level_plain(",\n"@, 1);
            lemma_level_concat("\t"@, q, 1);
            lemma_level_concat("\t"@ + q, ",\n"@, 1);
        },
    }
}

/// In a table that ends with an empty entry, a new entry never goes behind it.
pub proof fn law_sentinel_stays_last(s: Seq<char>, table: BoardTable)
    requires
        table.sentinel(),
        body_of(s, table) is Ok,
        text::last_before(
            s.subrange(body_of(s, table)->Ok_0.0 + 1, body_of(s, table)->Ok_0.1),
            "{}"@,
            body_of(s, table)->Ok_0.1 - body_of(s, table)->Ok_0.0 - 1,
        ) is Some,
    ensures
        ({
            let (open, close) = body_of(s, table)->Ok_0;
            let k = text::last_before(s.subrange(open + 1, close), "{}"@, close - open - 1)->0;
            insertion(s, table, open, close) <= open + 1 + k
        }),
{
    let (open, close) = body_of(s, table)->Ok_0;
    let start = text::first_at(s, table.array(), 0)->0;
    text::lemma_first_at(s, table.array(), 0);
    text::lemma_position(s, Class::Is('{'), start);
    lemma_closing_bounds(s, open, 0);
    let k = text::last_before(s.subrange(open + 1, close), "{}"@, close - open - 1)->0;
    text::lemma_last_before(s.subrange(open + 1, close), "{}"@, close - open - 1);
    text::lemma_last_before(s, seq!['\n'], open + 1 + k);
}

proof fn lemma_decimal_is_digits(n: nat)
    ensures
        number::decimal(n).len() > 0,
        forall|k: int|
            0 <= k < number::decimal(n).len() ==> '0' <= #[trigger] number::decimal(n)[k] <= '9',
    decreases n,
{
    if n >= 10 {
        lemma_decimal_is_digits(n / 10);
        let high = number::decimal(n / 10);
        assert forall|k: int| 0 <= k < number::decimal(n).len() implies '0'
            <= #[trigger] number::decimal(n)[k] <= '9' by {
            if k < high.len() {
                assert(number::decimal(n)[k] == high[k]);
            }
        }
    }
}

/// A comment that closes in the common beginning of two texts closes in the
/// same place of both.
proof fn lemma_comment_agrees(t: Seq<char>, u: Seq<char>, i: int)
    requires
        0 <= i,
        comment_end(t, i) matches Some(n) && n <= u.len() && forall|k: int|
            0 <= k < n ==> #[trigger] t[k] == u[k],
    ensures
        comment_end(u, i) == comment_end(t, i),
    decreases t.len() - i,
{
    lemma_comment_end(t, i);
    if !(t[i] == '*' && t[i + 1] == '/') {
        lemma_comment_agrees(t, u, i + 1);
    }
}

/// What blanks and comments a text begins with, they lead another text too.
proof fn lemma_lead_then(t: Seq<char>, x: Seq<char>)
    ensures
        lead_len(t.take(lead_len(t)) + x) == lead_len(t) + lead_len(x),
    decreases t.len(),
{
    lemma_lead_len(t);
    let m = lead_len(t);
    let u = t.take(m) + x;
    if m == 0 {
        assert(u =~= x);
    }
    if t.len() > 0 && is_blank(t[0]) {
        lemma_lead_len(t.skip(1));
        lemma_lead_then(t.skip(1), x);
        assert(u[0] == t[0]);
        assert(u.skip(1) =~= t.skip(1).take(m - 1) + x);
    } else if comment_len(t) is Some {
        let n = comment_len(t)->0;
        lemma_comment_len(t);
        lemma_lead_len(t.skip(n));
        lemma_lead_then(t.skip(n), x);
        assert(forall|k: int| 0 <= k < n ==> #[trigger] t[k] == u[k]);
        lemma_comment_agrees(t, u, 2);
        assert(u[0] == t[0] && u[1] == t[1]);
        assert(comment_len(u) == Some(n));
        assert(u.skip(n) =~= t.skip(n).take(m - n) + x);
    }
}

/// Behind the last code there is none.
proof fn lemma_no_code_behind(t: Seq<char>)
    ensures
        code_len(t.skip(code_len(t))) == 0,
    decreases t.len(),
{
    lemma_code_len(t);
    if code_len(t) == 0 {
        assert(t.skip(0) =~= t);
    } else {
        let n = piece_len(t);
        lemma_piece_len(t);
        let more = code_len(t.skip(n));
        lemma_code_len(t.skip(n));
        lemma_no_code_behind(t.skip(n));
        assert(t.skip(n).skip(more) =~= t.skip(n + more));
    }
}

/// Where nothing but blanks and comments stands before no code, there is none
/// at all.
proof fn lemma_no_code_before(t: Seq<char>)
    requires
        code_len(t.skip(lead_len(t))) == 0,
    ensures
        code_len(t) == 0,
    decreases t.len(),
{
    lemma_lead_len(t);
    lemma_comment_len(t);
    if t.len() > 0 && is_blank(t[0]) {
        lemma_lead_len(t.skip(1));
        assert(t.skip(1).skip(lead_len(t) - 1) =~= t.skip(lead_len(t)));
        lemma_no_code_before(t.skip(1));
    } else if comment_len(t) is Some {
        let n = comment_len(t)->0;
        lemma_lead_len(t.skip(n));
        assert(t.skip(n).skip(lead_len(t) - n) =~= t.skip(lead_len(t)));
        lemma_no_code_before(t.skip(n));
    } else {
        assert(t.skip(0) =~= t);
    }
}

/// Digits before no code are all the code there is.
proof fn lemma_digits_are_code(v: Seq<char>, x: Seq<char>)
    requires
        forall|k: int| 0 <= k < v.len() ==> '0' <= #[trigger] v[k] <= '9',
        code_len(x) == 0,
    ensures
        code_len(v + x) == v.len(),
        v.len() > 0 ==> lead_len(v + x) == 0,
    decreases v.len(),
{
    if v.len() == 0 {
        assert(v + x =~= x);
    } else {
        let t = v + x;
        assert(t[0] == v[0]);
        assert(t.skip(1) =~= v.skip(1) + x);
        assert forall|k: int| 0 <= k < v.skip(1).len() implies '0' <= #[trigger] v.skip(1)[k]
            <= '9' by {
            assert(v.skip(1)[k] == v[k + 1]);
        }
        lemma_digits_are_code(v.skip(1), x);
    }
}

/// Digits that are put in the place of a value are the value.
proof fn lemma_value_is_found(rest: Seq<char>, v: Seq<char>)
    requires
        v.len() > 0,
        forall|k: int| 0 <= k < v.len() ==> '0' <= #[trigger] v[k] <= '9',
    ensures
        ({
            let (gap, x) = around_value(rest);
            &&& gap.len() > 0
            &&& !is_word(gap[0])
            &&& value_span(gap + (v + x)) == Some(
                (gap.len() as int, (gap.len() + v.len()) as int),
            )
        }),
{
    reveal_strlit(" ");
    let (gap, x) = around_value(rest);
    let start = lead_len(rest);
    let tail = rest.skip(start);
    lemma_lead_len(rest);
    lemma_code_len(tail);
    assert(code_len(x) == 0) by {
        if value_span(rest) is Some {
            lemma_no_code_behind(tail);
            assert(tail.skip(code_len(tail)) =~= x);
        } else {
            lemma_no_code_before(rest);
        }
    }
    let now = gap + (v + x);
    lemma_digits_are_code(v, x);
    assert(lead_len(now) == gap.len()) by {
        if value_span(rest) is Some && start > 0 {
            lemma_lead_then(rest, v + x);
        } else {
            assert(now.skip(1) =~= v + x);
        }
    }
    assert(now.skip(gap.len() as int) =~= v + x);
}

/// A define is found in the same place of a text that agrees up to the end of
/// its name, where no longer name follows.
proof fn lemma_define_is_found(s: Seq<char>, t: Seq<char>, define: Seq<char>, i: int)
    requires
        starts_once(define),
        first_whole(s, define, 0) == Some(i),
        i + define.len() <= t.len(),
        forall|k: int| 0 <= k < i + define.len() ==> #[trigger] t[k] == s[k],
        i + define.len() < t.len() ==> !is_word(t[i + define.len()]),
    ensures
        first_whole(t, define, 0) == Some(i),
{
    lemma_first_whole(s, define, 0);
    let j = i + define.len();
    assert(t.subrange(i, j) =~= s.subrange(i, j));
    assert forall|k: int| 0 <= k < i implies !whole_at(t, define, k) by {
        if whole_at(t, define, k) {
            assert(s.subrange(k, k + define.len()) =~= t.subrange(k, k + define.len()));
            assert(t[k + define.len()] == s[k + define.len()]);
            assert(whole_at(s, define, k));
        }
    }
    lemma_skip_whole(t, define, 0, i);
}

/// A define that was given a ceiling holds it and nothing else, and giving it
/// the same ceiling again changes nothing.
pub proof fn law_same_ceiling_changes_nothing(s: Seq<char>, define: Seq<char>, value: nat)
    requires
        starts_once(define),
        replaced(s, define, value) is Some,
    ensures
        value_of(replaced(s, define, value)->0, define) == Some(number::decimal(value)),
        replaced(replaced(s, define, value)->0, define, value) == replaced(s, define, value),
{
    lemma_first_whole(s, define, 0);
    let i = first_whole(s, define, 0)->0;
    let j = i + define.len();
    let v = number::decimal(value);
    let rest = s.skip(j);
    let (gap, x) = around_value(rest);
    let t = s.take(j) + gap + v + x;
    let now = gap + (v + x);
    lemma_decimal_is_digits(value);
    lemma_value_is_found(rest, v);
    assert(t[j] == gap[0]);
    lemma_define_is_found(s, t, define, i);
    assert(t.skip(j) =~= now);
    assert(t.take(j) =~= s.take(j));
    assert(now.subrange(gap.len() as int, (gap.len() + v.len()) as int) =~= v);
    assert(now.take(gap.len() as int) =~= gap);
    assert(now.skip((gap.len() + v.len()) as int) =~= x);
}

/// What `first_whole` finds stands there as a whole, and nothing before it
/// does.
proof fn lemma_first_whole(s: Seq<char>, define: Seq<char>, from: int)
    requires
        0 <= from,
    ensures
        match first_whole(s, define, from) {
            Some(i) => from <= i && whole_at(s, define, i) && forall|j: int|
                from <= j < i ==> !whole_at(s, define, j),
            None => forall|j: int| from <= j ==> !whole_at(s, define, j),
        },
    decreases s.len() + 1 - from,
{
    if from <= s.len() && !whole_at(s, define, from) {
        lemma_first_whole(s, define, from + 1);
    }
}

/// Asking for no calibration leaves the source as it is.
pub proof fn law_no_ceilings_no_change(source: Seq<char>)
    ensures
        with_ceilings(source, MaxRpm { cpu: None, gpu: None }) == Ok::<
            (Seq<char>, Seq<Seq<char>>),
            PatchErrorView,
        >((source, seq![])),
{
}

// --- two defines in one source -------------------------------------------

/// A comment, a literal and a piece of code that begin on a line end on it.
proof fn lemma_ends_on_line(t: Seq<char>, i: int, quote: char, n: int)
    requires
        0 <= i <= n < t.len(),
        t[n] == '\n',
    ensures
        comment_end(t, i) matches Some(e) ==> e <= n,
        literal_end(t, quote, i) matches Some(e) ==> e <= n || quote == '\n',
    decreases n - i,
{
    if i < n {
        lemma_ends_on_line(t, i + 1, quote, n);
        if i + 2 <= n {
            lemma_ends_on_line(t, i + 2, quote, n);
        }
    }
}

/// The value of a define ends on its line.
proof fn lemma_value_on_line(t: Seq<char>, n: int)
    requires
        0 <= n < t.len(),
        t[n] == '\n',
    ensures
        lead_len(t) <= n,
        code_len(t) <= n,
        t[0] != '\n' ==> piece_len(t) <= n,
        comment_len(t) matches Some(e) ==> e <= n,
    decreases n,
{
    lemma_comment_len(t);
    if t[0] != '\n' {
        if t[0] == '/' && t[1] == '*' {
            lemma_ends_on_line(t, 2, t[0], n);
        }
        lemma_ends_on_line(t, 1, t[0], n);
        lemma_piece_len(t);
        let p = piece_len(t);
        assert(t.skip(p)[n - p] == '\n');
        lemma_value_on_line(t.skip(p), n - p);
        assert(t.skip(1)[n - 1] == '\n');
        lemma_value_on_line(t.skip(1), n - 1);
        if comment_len(t) is Some {
            let c = comment_len(t)->0;
            assert(t.skip(c)[n - c] == '\n');
            lemma_value_on_line(t.skip(c), n - c);
        }
    }
}

/// What begins on a line is the same in another text that has the same line.
#[verifier::spinoff_prover]
#[verifier::rlimit(60)]
proof fn lemma_ends_alike(t: Seq<char>, u: Seq<char>, i: int, quote: char, n: int)
    requires
        0 <= i <= n < t.len(),
        n < u.len(),
        t[n] == '\n',
        forall|k: int| 0 <= k <= n ==> #[trigger] t[k] == u[k],
        quote != '\n',
    ensures
        comment_end(t, i) == comment_end(u, i),
        literal_end(t, quote, i) == literal_end(u, quote, i),
    decreases n - i,
{
    assert(t[i] == u[i]);
    assert(u[n] == t[n]);
    if i < n {
        assert(t[i + 1] == u[i + 1]);
        lemma_ends_alike(t, u, i + 1, quote, n);
        if i + 2 <= n {
            lemma_ends_alike(t, u, i + 2, quote, n);
        }
    }
}

/// The value of a define is told by its line alone.
#[verifier::spinoff_prover]
#[verifier::rlimit(60)]
proof fn lemma_same_line_same_value(t: Seq<char>, u: Seq<char>, n: int)
    requires
        0 <= n < t.len(),
        n < u.len(),
        t[n] == '\n',
        forall|k: int| 0 <= k <= n ==> #[trigger] t[k] == u[k],
    ensures
        lead_len(t) == lead_len(u),
        code_len(t) == code_len(u),
        comment_len(t) == comment_len(u),
    decreases n,
{
    assert(u[n] == t[n]);
    assert(t[0] == u[0]);
    lemma_value_on_line(t, n);
    lemma_value_on_line(u, n);
    if n > 0 {
        assert(t[1] == u[1]);
    }
    if t[0] != '\n' {
        if t[0] == '/' && t[1] == '*' {
            lemma_ends_alike(t, u, 2, t[0], n);
        }
        lemma_ends_alike(t, u, 1, t[0], n);
        assert(comment_len(t) == comment_len(u));
        assert(piece_len(t) == piece_len(u));
        lemma_piece_len(t);
        let p = piece_len(t);
        assert(t.skip(p)[n - p] == '\n');
        assert(forall|k: int|
            0 <= k <= n - p ==> #[trigger] t.skip(p)[k] == t[k + p] && u.skip(p)[k] == u[k + p]);
        lemma_same_line_same_value(t.skip(p), u.skip(p), n - p);
        assert(t.skip(1)[n - 1] == '\n');
        assert(forall|k: int|
            0 <= k <= n - 1 ==> #[trigger] t.skip(1)[k] == t[k + 1] && u.skip(1)[k] == u[k + 1]);
        lemma_same_line_same_value(t.skip(1), u.skip(1), n - 1);
        if comment_len(t) is Some {
            let c = comment_len(t)->0;
            lemma_comment_len(t);
            assert(t.skip(c)[n - c] == '\n');
            assert(forall|k: int|
                0 <= k <= n - c ==> #[trigger] t.skip(c)[k] == t[k + c] && u.skip(c)[k] == u[k
                    + c]);
            lemma_same_line_same_value(t.skip(c), u.skip(c), n - c);
        }
    }
}

/// Two defines that are both there stand on lines of their own.
pub open spec fn apart(s: Seq<char>, a: Seq<char>, b: Seq<char>) -> bool {
    first_whole(s, a, 0) is Some && first_whole(s, b, 0) is Some ==> exists|n: int|
        0 <= n < s.len() && #[trigger] s[n] == '\n' && (first_whole(s, a, 0)->0 < n
            < first_whole(s, b, 0)->0 || first_whole(s, b, 0)->0 < n < first_whole(s, a, 0)->0)
}

/// A name of a define: it starts with a hash, holds no digit, no blank before
/// its second character and no line end, and starts once.
spec fn is_define(d: Seq<char>) -> bool {
    &&& starts_once(d)
    &&& d[0] == '#'
    &&& forall|k: int|
        0 <= k < d.len() ==> !('0' <= #[trigger] d[k] <= '9') && d[k] != '\n'
}

/// Neither name begins with the other.
spec fn distinct(a: Seq<char>, b: Seq<char>) -> bool {
    exists|k: int| 0 <= k < a.len() && k < b.len() && #[trigger] a[k] != b[k]
}

proof fn lemma_defines_are_distinct()
    ensures
        is_define(CPU_MAX_RPM_DEFINE@),
        is_define(GPU_MAX_RPM_DEFINE@),
        is_define(LEGACY_MAX_RPM_DEFINE@),
        distinct(CPU_MAX_RPM_DEFINE@, GPU_MAX_RPM_DEFINE@),
        distinct(CPU_MAX_RPM_DEFINE@, LEGACY_MAX_RPM_DEFINE@),
        distinct(GPU_MAX_RPM_DEFINE@, CPU_MAX_RPM_DEFINE@),
        distinct(GPU_MAX_RPM_DEFINE@, LEGACY_MAX_RPM_DEFINE@),
        distinct(LEGACY_MAX_RPM_DEFINE@, CPU_MAX_RPM_DEFINE@),
        distinct(LEGACY_MAX_RPM_DEFINE@, GPU_MAX_RPM_DEFINE@),
{
    reveal_strlit("#define OMEN_CPU_MAX_RPM");
    reveal_strlit("#define OMEN_GPU_MAX_RPM");
    reveal_strlit("#define OMEN_MAX_RPM");
    assert(CPU_MAX_RPM_DEFINE@[13] == 'C');
    assert(GPU_MAX_RPM_DEFINE@[13] == 'G');
    assert(LEGACY_MAX_RPM_DEFINE@[13] == 'M');
}

/// Where a define stands whole after another was given a value, it stood whole
/// before, in the place that became this one.
#[verifier::spinoff_prover]
#[verifier::rlimit(60)]
proof fn lemma_other_was_there(
    s: Seq<char>,
    d: Seq<char>,
    value: nat,
    other: Seq<char>,
    k: int,
)
    requires
        is_define(d),
        is_define(other),
        distinct(d, other),
        replaced(s, d, value) is Some,
        whole_at(replaced(s, d, value)->0, other, k),
    ensures
        ({
            let i = first_whole(s, d, 0)->0;
            let j = i + d.len();
            let (gap, x) = around_value(s.skip(j));
            let b = j + gap.len() + number::decimal(value).len();
            let e = s.len() - x.len();
            &&& j <= e <= s.len()
            &&& k < b ==> k < e && whole_at(s, other, k)
            &&& k >= b ==> whole_at(s, other, k - b + e)
        }),
{
    lemma_first_whole(s, d, 0);
    let i = first_whole(s, d, 0)->0;
    let j = i + d.len();
    let rest = s.skip(j);
    let v = number::decimal(value);
    let (gap, x) = around_value(rest);
    lemma_decimal_is_digits(value);
    lemma_value_is_found(rest, v);
    reveal_strlit(" ");
    lemma_lead_len(rest);
    lemma_code_len(rest.skip(lead_len(rest)));
    let t = replaced(s, d, value)->0;
    let m = other.len() as int;
    let a = j + gap.len();
    let b = a + v.len();
    let e = s.len() - x.len();
    assert(t == s.take(j) + gap + v + x);
    assert(t.subrange(k, k + m) == other);
    assert(forall|q: int| k <= q < k + m ==> #[trigger] t[q] == other[q - k]) by {
        assert forall|q: int| k <= q < k + m implies #[trigger] t[q] == other[q - k] by {
            assert(t.subrange(k, k + m)[q - k] == t[q]);
        }
    }
    assert forall|q: int| a <= q < b implies '0' <= #[trigger] t[q] <= '9' by {
        assert(t[q] == v[q - a]);
    }
    assert(forall|q: int| 0 <= q < j ==> #[trigger] t[q] == s[q]);
    assert(forall|q: int| i <= q < j ==> #[trigger] s[q] == d[q - i]) by {
        assert forall|q: int| i <= q < j implies #[trigger] s[q] == d[q - i] by {
            assert(s.subrange(i, j)[q - i] == s[q]);
        }
    }
    // No digit stands in the name, so it lies before the value or behind it.
    assert(k + m <= a || k >= b) by {
        if k < b && k + m > a {
            let q = if k >= a {
                k
            } else {
                a
            };
            assert('0' <= t[q] <= '9');
            assert(t[q] == other[q - k]);
        }
    }
    if k >= b {
        assert(forall|q: int| b <= q < t.len() ==> #[trigger] t[q] == s[q - b + e]);
        assert(s.subrange(k - b + e, k - b + e + m) =~= other);
    } else {
        // It does not begin in the one define and end behind it.
        assert(k + m <= j || k >= j) by {
            if k < j && k + m > j {
                if k > i {
                    assert(t[k] == d[k - i]);
                    assert(t[k] == other[0]);
                } else if k < i {
                    assert(t[i] == other[i - k]);
                    assert(t[i] == d[0]);
                } else {
                    let q = choose|q: int|
                        0 <= q < d.len() && q < other.len() && #[trigger] d[q] != other[q];
                    assert(t[i + q] == d[q]);
                    assert(t[k + q] == other[q]);
                }
            }
        }
        if k >= j {
            // It lies in the gap, which was there before.
            assert(t[k] == '#');
            assert(t[k] == gap[k - j]);
            assert(gap == rest.take(gap.len() as int));
            assert(forall|q: int| j <= q < a ==> #[trigger] t[q] == s[q]) by {
                assert forall|q: int| j <= q < a implies #[trigger] t[q] == s[q] by {
                    assert(t[q] == gap[q - j]);
                    assert(rest[q - j] == s[q]);
                }
            }
            assert(s.subrange(k, k + m) =~= other);
            if k + m < a {
                assert(t[k + m] == s[k + m]);
            } else {
                assert(is_word(t[a]));
            }
        } else {
            assert(s.subrange(k, k + m) =~= other);
            if k + m < j {
                assert(t[k + m] == s[k + m]);
            } else {
                // Both would end in the same place.
                if k > i {
                    assert(t[k] == d[k - i]);
                } else if k < i {
                    assert(t[i] == other[i - k]);
                    assert(t[i] == d[0]);
                } else {
                    let q = choose|q: int|
                        0 <= q < d.len() && q < other.len() && #[trigger] d[q] != other[q];
                    assert(t[i + q] == d[q]);
                    assert(t[k + q] == other[q]);
                }
            }
        }
    }
}

/// What giving a define a value makes of the source: it is the same up to the
/// end of the name, and behind the value, where everything moves by the same
/// amount. The result is where the rest begins, before and after.
#[verifier::spinoff_prover]
#[verifier::rlimit(60)]
proof fn lemma_replaced_parts(s: Seq<char>, d: Seq<char>, value: nat) -> (at: (int, int))
    requires
        is_define(d),
        replaced(s, d, value) is Some,
    ensures
        ({
            let i = first_whole(s, d, 0)->0;
            let j = i + d.len();
            let t = replaced(s, d, value)->0;
            let (gap, x) = around_value(s.skip(j));
            let (e, b) = at;
            &&& 0 <= i
            &&& j <= e <= s.len()
            &&& j < b <= t.len()
            &&& e == s.len() - x.len()
            &&& b == j + gap.len() + number::decimal(value).len()
            &&& t.len() - b == s.len() - e
            &&& t.skip(b) == s.skip(e)
            &&& forall|q: int| 0 <= q < j ==> #[trigger] t[q] == s[q]
            &&& first_whole(t, d, 0) == Some(i)
            &&& forall|n: int| j <= n < s.len() && #[trigger] s[n] == '\n' ==> e <= n
            &&& forall|q: int| i <= q < j ==> #[trigger] s[q] == d[q - i]
        }),
{
    lemma_first_whole(s, d, 0);
    let i = first_whole(s, d, 0)->0;
    let j = i + d.len();
    let rest = s.skip(j);
    let v = number::decimal(value);
    let (gap, x) = around_value(rest);
    lemma_decimal_is_digits(value);
    lemma_value_is_found(rest, v);
    lemma_lead_len(rest);
    let l = lead_len(rest);
    lemma_code_len(rest.skip(l));
    let t = replaced(s, d, value)->0;
    let b = j + gap.len() + v.len();
    let e = s.len() - x.len();
    assert(t == s.take(j) + gap + v + x);
    assert(t[j] == gap[0]);
    lemma_define_is_found(s, t, d, i);
    assert(t.skip(b) =~= x);
    assert(s.skip(e) =~= x);
    assert forall|n: int| j <= n < s.len() && #[trigger] s[n] == '\n' implies e <= n by {
        assert(rest[n - j] == '\n');
        lemma_value_on_line(rest, n - j);
        assert(rest.skip(l)[n - j - l] == '\n');
        lemma_value_on_line(rest.skip(l), n - j - l);
    }
    assert forall|q: int| i <= q < j implies #[trigger] s[q] == d[q - i] by {
        assert(s.subrange(i, j)[q - i] == s[q]);
    }
    (e, b)
}

/// A define on an earlier line stays where it is and keeps its value.
#[verifier::spinoff_prover]
#[verifier::rlimit(60)]
proof fn lemma_earlier_define(s: Seq<char>, d: Seq<char>, value: nat, other: Seq<char>, n: int)
    requires
        is_define(d),
        is_define(other),
        distinct(d, other),
        replaced(s, d, value) is Some,
        first_whole(s, other, 0) matches Some(p) && p < n < first_whole(s, d, 0)->0,
        0 <= n < s.len(),
        s[n] == '\n',
    ensures
        first_whole(replaced(s, d, value)->0, other, 0) == first_whole(s, other, 0),
        value_of(replaced(s, d, value)->0, other) == value_of(s, other),
{
    let (e, b) = lemma_replaced_parts(s, d, value);
    let t = replaced(s, d, value)->0;
    lemma_first_whole(s, other, 0);
    lemma_first_whole(t, other, 0);
    let i = first_whole(s, d, 0)->0;
    let p = first_whole(s, other, 0)->0;
    let m = other.len() as int;
    assert(n >= p + m) by {
        if n < p + m {
            assert(s.subrange(p, p + m)[n - p] == s[n]);
            assert(other[n - p] == '\n');
        }
    }
    assert(t.subrange(p, p + m) =~= s.subrange(p, p + m));
    assert(t[p + m] == s[p + m]);
    assert(whole_at(t, other, p));
    let f = first_whole(t, other, 0)->0;
    lemma_other_was_there(s, d, value, other, f);
    assert(f == p);
    let tt = t.skip(p + m);
    let ss = s.skip(p + m);
    let h = n - p - m;
    assert(ss[h] == '\n');
    assert forall|q: int| 0 <= q <= h implies #[trigger] ss[q] == tt[q] by {
        assert(ss[q] == s[q + p + m]);
        assert(tt[q] == t[q + p + m]);
    }
    lemma_line_tells_value(ss, tt, h);
}

/// Two texts with the same first line give the same value.
proof fn lemma_line_tells_value(ss: Seq<char>, tt: Seq<char>, h: int)
    requires
        0 <= h < ss.len(),
        h < tt.len(),
        ss[h] == '\n',
        forall|q: int| 0 <= q <= h ==> #[trigger] ss[q] == tt[q],
    ensures
        value_span(ss) == value_span(tt),
        value_span(ss) matches Some((from, to)) ==> ss.subrange(from, to) == tt.subrange(from, to),
{
    lemma_same_line_same_value(ss, tt, h);
    lemma_lead_len(ss);
    let l = lead_len(ss);
    lemma_value_on_line(ss, h);
    assert(ss.skip(l)[h - l] == '\n');
    assert(forall|q: int|
        0 <= q <= h - l ==> #[trigger] ss.skip(l)[q] == ss[q + l] && tt.skip(l)[q] == tt[q + l]);
    lemma_same_line_same_value(ss.skip(l), tt.skip(l), h - l);
    lemma_value_on_line(ss.skip(l), h - l);
    lemma_code_len(ss.skip(l));
    if value_span(ss) is Some {
        let (from, to) = value_span(ss)->0;
        assert(ss.subrange(from, to) =~= tt.subrange(from, to));
    }
}

/// A define on a later line moves with the rest and keeps its value.
#[verifier::spinoff_prover]
#[verifier::rlimit(60)]
proof fn lemma_later_define(s: Seq<char>, d: Seq<char>, value: nat, other: Seq<char>, n: int)
    requires
        is_define(d),
        is_define(other),
        distinct(d, other),
        replaced(s, d, value) is Some,
        first_whole(s, other, 0) matches Some(p) && first_whole(s, d, 0)->0 < n < p,
        0 <= n < s.len(),
        s[n] == '\n',
    ensures
        first_whole(replaced(s, d, value)->0, other, 0) == Some(
            first_whole(s, other, 0)->0 + replaced(s, d, value)->0.len() - s.len(),
        ),
        value_of(replaced(s, d, value)->0, other) == value_of(s, other),
{
    let (e, b) = lemma_replaced_parts(s, d, value);
    let t = replaced(s, d, value)->0;
    lemma_first_whole(s, other, 0);
    lemma_first_whole(t, other, 0);
    let i = first_whole(s, d, 0)->0;
    let p = first_whole(s, other, 0)->0;
    let m = other.len() as int;
    let j = i + d.len();
    assert(n >= j) by {
        if n < j {
            assert(s[n] == d[n - i]);
        }
    }
    assert(e <= n);
    let p2 = p - e + b;
    assert forall|q: int| e <= q < s.len() implies #[trigger] s[q] == t[q - e + b] by {
        assert(t.skip(b)[q - e] == s.skip(e)[q - e]);
    }
    assert(t.subrange(p2, p2 + m) =~= s.subrange(p, p + m));
    assert(whole_at(t, other, p2));
    let f = first_whole(t, other, 0)->0;
    lemma_other_was_there(s, d, value, other, f);
    assert(f == p2) by {
        if f < b {
            assert(whole_at(s, other, f));
        } else {
            assert(whole_at(s, other, f - b + e));
        }
    }
    assert(t.skip(p2 + m) =~= s.skip(p + m));
}

/// Where a define is after another, at `i`, was given a value.
spec fn moved_to(s: Seq<char>, t: Seq<char>, i: int, p: int) -> int {
    if p < i {
        p
    } else {
        p + t.len() - s.len()
    }
}

/// Every other define moves with what is around it and keeps its value.
#[verifier::spinoff_prover]
#[verifier::rlimit(60)]
proof fn lemma_other_define(s: Seq<char>, d: Seq<char>, value: nat, other: Seq<char>)
    requires
        is_define(d),
        is_define(other),
        distinct(d, other),
        replaced(s, d, value) is Some,
        apart(s, d, other),
    ensures
        ({
            let t = replaced(s, d, value)->0;
            let i = first_whole(s, d, 0)->0;
            &&& first_whole(t, other, 0) == (match first_whole(s, other, 0) {
                Some(p) => Some(moved_to(s, t, i, p)),
                None => None,
            })
            &&& value_of(t, other) == value_of(s, other)
        }),
{
    let t = replaced(s, d, value)->0;
    let i = first_whole(s, d, 0)->0;
    match first_whole(s, other, 0) {
        Some(p) => {
            let n = choose|n: int|
                0 <= n < s.len() && #[trigger] s[n] == '\n' && (i < n < p || p < n < i);
            if p < i {
                lemma_earlier_define(s, d, value, other, n);
            } else {
                lemma_later_define(s, d, value, other, n);
            }
        },
        None => {
            lemma_first_whole(s, other, 0);
            lemma_first_whole(t, other, 0);
            if first_whole(t, other, 0) is Some {
                lemma_other_was_there(s, d, value, other, first_whole(t, other, 0)->0);
            }
        },
    }
}

/// Defines on lines of their own stay on lines of their own.
#[verifier::spinoff_prover]
#[verifier::rlimit(60)]
proof fn lemma_stay_apart(
    s: Seq<char>,
    d: Seq<char>,
    value: nat,
    a: Seq<char>,
    c: Seq<char>,
)
    requires
        is_define(d),
        is_define(a),
        is_define(c),
        distinct(d, a),
        c == d || distinct(d, c),
        replaced(s, d, value) is Some,
        apart(s, d, a),
        c != d ==> apart(s, d, c),
        apart(s, a, c),
    ensures
        apart(replaced(s, d, value)->0, a, c),
{
    let t = replaced(s, d, value)->0;
    let (e, b) = lemma_replaced_parts(s, d, value);
    let i = first_whole(s, d, 0)->0;
    let j = i + d.len();
    lemma_other_define(s, d, value, a);
    if c != d {
        lemma_other_define(s, d, value, c);
    }
    if first_whole(s, a, 0) is Some && first_whole(s, c, 0) is Some {
        let p = first_whole(s, a, 0)->0;
        let q = first_whole(s, c, 0)->0;
        assert forall|n: int| i < n < s.len() && #[trigger] s[n] == '\n' implies e <= n
            && t[n - e + b] == '\n' by {
            if n < j {
                assert(s[n] == d[n - i]);
            }
            assert(t.skip(b)[n - e] == s.skip(e)[n - e]);
        }
        let n = choose|n: int|
            0 <= n < s.len() && #[trigger] s[n] == '\n' && (p < n < q || q < n < p);
        if n < i {
            assert(t[n] == '\n');
            if p >= i && q >= i {
                assert(false);
            }
        } else {
            assert(n != i) by {
                assert(s[i] == d[0]);
            }
            assert(t[n - e + b] == '\n');
        }
    }
}

/// Giving one define a value leaves every other one that stands on another line
/// as it was; and where there was none, there is none.
#[verifier::spinoff_prover]
#[verifier::rlimit(60)]
pub proof fn law_other_defines_are_left_alone(
    s: Seq<char>,
    d: Seq<char>,
    value: nat,
    other: Seq<char>,
)
    requires
        d == CPU_MAX_RPM_DEFINE@ || d == GPU_MAX_RPM_DEFINE@ || d == LEGACY_MAX_RPM_DEFINE@,
        other == CPU_MAX_RPM_DEFINE@ || other == GPU_MAX_RPM_DEFINE@ || other
            == LEGACY_MAX_RPM_DEFINE@,
        d != other,
        replaced(s, d, value) is Some,
        apart(s, d, other),
    ensures
        value_of(replaced(s, d, value)->0, other) == value_of(s, other),
        first_whole(replaced(s, d, value)->0, other, 0) is Some <==> first_whole(s, other, 0) is
            Some,
{
    lemma_defines_are_distinct();
    lemma_other_define(s, d, value, other);
}

/// Giving a define a value touches nothing before the end of its name and
/// nothing from the end of its line on.
#[verifier::spinoff_prover]
#[verifier::rlimit(60)]
pub proof fn law_only_one_line_changes(s: Seq<char>, d: Seq<char>, value: nat, n: int)
    requires
        d == CPU_MAX_RPM_DEFINE@ || d == GPU_MAX_RPM_DEFINE@ || d == LEGACY_MAX_RPM_DEFINE@,
        replaced(s, d, value) is Some,
        first_whole(s, d, 0)->0 < n < s.len(),
        s[n] == '\n',
    ensures
        ({
            let t = replaced(s, d, value)->0;
            let j = first_whole(s, d, 0)->0 + d.len();
            &&& t.take(j) == s.take(j)
            &&& t.len() - s.len() + n >= j
            &&& t.skip(t.len() - s.len() + n) == s.skip(n)
        }),
{
    lemma_defines_are_distinct();
    let (e, b) = lemma_replaced_parts(s, d, value);
    let t = replaced(s, d, value)->0;
    let i = first_whole(s, d, 0)->0;
    let j = i + d.len();
    assert(n >= j) by {
        if n < j {
            assert(s[n] == d[n - i]);
        }
    }
    assert(t.take(j) =~= s.take(j));
    assert(t.skip(b).skip(n - e) =~= t.skip(n - e + b));
    assert(s.skip(e).skip(n - e) =~= s.skip(n));
}

/// What the whole patch leaves in a source whose defines stand on lines of
/// their own: each fan's define holds the ceiling that was measured for it, in
/// hundreds, where there is one; the older single define holds one where no
/// per-fan define could take any; and every other define holds what it held.
#[verifier::spinoff_prover]
#[verifier::rlimit(60)]
pub proof fn law_every_ceiling_is_written(source: Seq<char>, max_rpm: MaxRpm)
    requires
        with_ceilings(source, max_rpm) is Ok,
        apart(source, CPU_MAX_RPM_DEFINE@, GPU_MAX_RPM_DEFINE@),
        apart(source, CPU_MAX_RPM_DEFINE@, LEGACY_MAX_RPM_DEFINE@),
        apart(source, GPU_MAX_RPM_DEFINE@, LEGACY_MAX_RPM_DEFINE@),
    ensures
        ({
            let out = with_ceilings(source, max_rpm)->Ok_0.0;
            let cpu = "#define OMEN_CPU_MAX_RPM"@;
            let gpu = "#define OMEN_GPU_MAX_RPM"@;
            let legacy = "#define OMEN_MAX_RPM"@;
            let wrote_cpu = max_rpm.cpu is Some && first_whole(source, cpu, 0) is Some;
            let wrote_gpu = max_rpm.gpu is Some && first_whole(source, gpu, 0) is Some;
            let any = if max_rpm.cpu is Some {
                max_rpm.cpu
            } else {
                max_rpm.gpu
            };
            &&& value_of(out, cpu) == (if wrote_cpu {
                Some(number::decimal((max_rpm.cpu->0 / 100) as nat))
            } else {
                value_of(source, cpu)
            })
            &&& value_of(out, gpu) == (if wrote_gpu {
                Some(number::decimal((max_rpm.gpu->0 / 100) as nat))
            } else {
                value_of(source, gpu)
            })
            &&& value_of(out, legacy) == (if !wrote_cpu && !wrote_gpu && any is Some
                && first_whole(source, legacy, 0) is Some {
                Some(number::decimal((any->0 / 100) as nat))
            } else {
                value_of(source, legacy)
            })
        }),
{
    lemma_defines_are_distinct();
    let c = CPU_MAX_RPM_DEFINE@;
    let g = GPU_MAX_RPM_DEFINE@;
    let l = LEGACY_MAX_RPM_DEFINE@;
    let first = with_ceiling((source, seq![]), c, max_rpm.cpu);
    let both = with_ceiling(first, g, max_rpm.gpu);
    let any = if max_rpm.cpu is Some {
        max_rpm.cpu
    } else {
        max_rpm.gpu
    };
    if max_rpm.cpu is Some && first_whole(source, c, 0) is Some {
        let v = (max_rpm.cpu->0 / 100) as nat;
        law_same_ceiling_changes_nothing(source, c, v);
        lemma_other_define(source, c, v, g);
        lemma_other_define(source, c, v, l);
        lemma_stay_apart(source, c, v, g, c);
        lemma_stay_apart(source, c, v, g, l);
        lemma_stay_apart(source, c, v, l, c);
        let (e, b) = lemma_replaced_parts(source, c, v);
    }
    if max_rpm.gpu is Some && first_whole(first.0, g, 0) is Some {
        let v = (max_rpm.gpu->0 / 100) as nat;
        law_same_ceiling_changes_nothing(first.0, g, v);
        lemma_other_define(first.0, g, v, c);
        lemma_other_define(first.0, g, v, l);
    }
    if both.1.len() == 0 && any is Some && first_whole(both.0, l, 0) is Some {
        let v = (any->0 / 100) as nat;
        law_same_ceiling_changes_nothing(both.0, l, v);
        lemma_other_define(both.0, l, v, c);
        lemma_other_define(both.0, l, v, g);
    }
}

/// Each ceiling that was written is reported by its define, in hundreds and in
/// rpm, and nothing else is; a ceiling that finds no define at all is an error.
#[verifier::spinoff_prover]
#[verifier::rlimit(60)]
pub proof fn law_every_ceiling_is_reported(source: Seq<char>, max_rpm: MaxRpm)
    requires
        apart(source, CPU_MAX_RPM_DEFINE@, GPU_MAX_RPM_DEFINE@),
    ensures
        ({
            let cpu = "#define OMEN_CPU_MAX_RPM"@;
            let gpu = "#define OMEN_GPU_MAX_RPM"@;
            let legacy = "#define OMEN_MAX_RPM"@;
            let wrote_cpu = max_rpm.cpu is Some && first_whole(source, cpu, 0) is Some;
            let wrote_gpu = max_rpm.gpu is Some && first_whole(source, gpu, 0) is Some;
            let any = if max_rpm.cpu is Some {
                max_rpm.cpu
            } else {
                max_rpm.gpu
            };
            let said = |define: Seq<char>, rpm: u32|
                define + " = "@ + number::decimal((rpm / 100) as nat) + " ("@ + number::decimal(
                    rpm as nat,
                ) + " rpm)"@;
            match with_ceilings(source, max_rpm) {
                Ok((_, applied)) => if wrote_cpu && wrote_gpu {
                    applied == seq![said(cpu, max_rpm.cpu->0), said(gpu, max_rpm.gpu->0)]
                } else if wrote_cpu {
                    applied == seq![said(cpu, max_rpm.cpu->0)]
                } else if wrote_gpu {
                    applied == seq![said(gpu, max_rpm.gpu->0)]
                } else if any is Some {
                    first_whole(source, legacy, 0) is Some && applied == seq![
                        said(legacy, any->0),
                    ]
                } else {
                    applied.len() == 0
                },
                Err(e) => !wrote_cpu && !wrote_gpu && any is Some && first_whole(
                    source,
                    legacy,
                    0,
                ) is None,
            }
        }),
{
    lemma_defines_are_distinct();
    let c = CPU_MAX_RPM_DEFINE@;
    let g = GPU_MAX_RPM_DEFINE@;
    let first = with_ceiling((source, seq![]), c, max_rpm.cpu);
    if max_rpm.cpu is Some && first_whole(source, c, 0) is Some {
        lemma_other_define(source, c, (max_rpm.cpu->0 / 100) as nat, g);
    }
}

/// The number behind a define is its value, and another number takes its place
/// and nothing else's: the blanks before it stay, and so does what follows, be
/// it the end of the line or a comment, of either kind.
#[verifier::spinoff_prover]
#[verifier::rlimit(60)]
pub proof fn law_a_number_is_replaced_in_its_place(
    pre: Seq<char>,
    d: Seq<char>,
    gap: Seq<char>,
    number: Seq<char>,
    note: Seq<char>,
    rest: Seq<char>,
    value: nat,
)
    requires
        d.len() > 0,
        gap.len() > 0,
        forall|k: int| 0 <= k < gap.len() ==> (#[trigger] gap[k] == ' ' || gap[k] == '\t'),
        number.len() > 0,
        forall|k: int| 0 <= k < number.len() ==> '0' <= #[trigger] number[k] <= '9',
        !note.contains('*') && !note.contains('\n'),
    ensures
        ({
            let s = pre + d + (gap + (number + (seq!['\n'] + rest)));
            first_whole(s, d, 0) == Some(pre.len() as int) ==> value_of(s, d) == Some(number)
                && replaced(s, d, value) == Some(
                pre + d + gap + number::decimal(value) + (seq!['\n'] + rest),
            )
        }),
        ({
            let tail = seq![' ', '/', '/'] + rest;
            let s = pre + d + (gap + (number + tail));
            first_whole(s, d, 0) == Some(pre.len() as int) ==> value_of(s, d) == Some(number)
                && replaced(s, d, value) == Some(pre + d + gap + number::decimal(value) + tail)
        }),
        ({
            let tail = seq![' ', '/', '*'] + note + seq!['*', '/', '\n'] + rest;
            let s = pre + d + (gap + (number + tail));
            first_whole(s, d, 0) == Some(pre.len() as int) ==> value_of(s, d) == Some(number)
                && replaced(s, d, value) == Some(pre + d + gap + number::decimal(value) + tail)
        }),
{
    let newline = seq!['\n'] + rest;
    assert(code_len(newline) == 0);
    lemma_number_in_place(pre, d, gap, number, newline, value);
    let slashes = seq![' ', '/', '/'] + rest;
    assert(slashes.skip(1)[0] == '/' && slashes.skip(1)[1] == '/');
    assert(code_len(slashes.skip(1)) == 0);
    assert(code_len(slashes) == 0);
    lemma_number_in_place(pre, d, gap, number, slashes, value);
    let comment = seq![' ', '/', '*'] + note + seq!['*', '/', '\n'] + rest;
    let t = comment.skip(1);
    let n = 4 + note.len() as int;
    assert(t[0] == '/' && t[1] == '*');
    assert(comment_len(t) == Some(n)) by {
        assert forall|k: int| 2 <= k < 2 + note.len() implies #[trigger] t[k] != '*' && t[k] != '\n' by {
            assert(t[k] == note[k - 2]);
            assert(note.contains(note[k - 2]));
        }
        assert(t[2 + note.len() as int] == '*' && t[3 + note.len() as int] == '/');
        lemma_comment_closes(t, 2, 2 + note.len() as int);
    }
    assert(t.skip(n)[0] == '\n');
    assert(code_len(t.skip(n)) == 0);
    assert(piece_len(t) == n);
    assert(!ends_code(t));
    assert(code_len(t) == 0);
    assert(comment[0] == ' ');
    assert(comment_len(comment) is None);
    assert(piece_len(comment) == 1);
    assert(code_len(comment) == 0);
    lemma_number_in_place(pre, d, gap, number, comment, value);
}

proof fn lemma_comment_closes(t: Seq<char>, i: int, end: int)
    requires
        0 <= i <= end,
        end + 1 < t.len(),
        t[end] == '*' && t[end + 1] == '/',
        forall|k: int| i <= k < end ==> #[trigger] t[k] != '*' && t[k] != '\n',
    ensures
        comment_end(t, i) == Some(end + 2),
    decreases end - i,
{
    if i < end {
        assert(t[i] != '*' && t[i] != '\n');
        lemma_comment_closes(t, i + 1, end);
    }
}

proof fn lemma_blanks_lead(gap: Seq<char>, x: Seq<char>)
    requires
        forall|k: int| 0 <= k < gap.len() ==> (#[trigger] gap[k] == ' ' || gap[k] == '\t'),
        lead_len(x) == 0,
    ensures
        lead_len(gap + x) == gap.len(),
    decreases gap.len(),
{
    if gap.len() == 0 {
        assert(gap + x =~= x);
    } else {
        let t = gap + x;
        assert(t[0] == gap[0]);
        assert(t.skip(1) =~= gap.skip(1) + x);
        assert forall|k: int| 0 <= k < gap.skip(1).len() implies (#[trigger] gap.skip(1)[k] == ' '
            || gap.skip(1)[k] == '\t') by {
            assert(gap.skip(1)[k] == gap[k + 1]);
        }
        lemma_blanks_lead(gap.skip(1), x);
    }
}

proof fn lemma_number_in_place(
    pre: Seq<char>,
    d: Seq<char>,
    gap: Seq<char>,
    number: Seq<char>,
    tail: Seq<char>,
    value: nat,
)
    requires
        gap.len() > 0,
        forall|k: int| 0 <= k < gap.len() ==> (#[trigger] gap[k] == ' ' || gap[k] == '\t'),
        number.len() > 0,
        forall|k: int| 0 <= k < number.len() ==> '0' <= #[trigger] number[k] <= '9',
        code_len(tail) == 0,
    ensures
        ({
            let s = pre + d + (gap + (number + tail));
            first_whole(s, d, 0) == Some(pre.len() as int) ==> value_of(s, d) == Some(number)
                && replaced(s, d, value) == Some(pre + d + gap + number::decimal(value) + tail)
        }),
{
    let s = pre + d + (gap + (number + tail));
    let t = gap + (number + tail);
    let name_end = pre.len() as int + d.len();
    assert(s.skip(name_end) =~= t);
    assert(s.take(name_end) =~= pre + d);
    lemma_digits_are_code(number, tail);
    lemma_blanks_lead(gap, number + tail);
    assert(t.skip(gap.len() as int) =~= number + tail);
    let end = (gap.len() + number.len()) as int;
    assert(value_span(t) == Some((gap.len() as int, end)));
    assert(t.subrange(gap.len() as int, end) =~= number);
    assert(t.take(gap.len() as int) =~= gap);
    assert(t.skip(end) =~= tail);
}

/// A longer name is not the define, nor is one that is not there.
pub proof fn law_only_the_whole_name_is_the_define(s: Seq<char>, d: Seq<char>, i: int)
    ensures
        value_of(s, d) is Some ==> text::contains(s, d),
        replaced(s, d, 0) is Some <==> (exists|j: int| whole_at(s, d, j)),
        text::occurs_at(s, d, i) && i + d.len() < s.len() && ('a' <= s[i + d.len()] <= 'z' || 'A'
            <= s[i + d.len()] <= 'Z' || '0' <= s[i + d.len()] <= '9' || s[i + d.len()] == '_')
            ==> first_whole(s, d, 0) != Some(i),
{
    lemma_first_whole(s, d, 0);
    if first_whole(s, d, 0) is Some {
        assert(whole_at(s, d, first_whole(s, d, 0)->0));
        assert(text::occurs_at(s, d, first_whole(s, d, 0)->0));
    } else if exists|j: int| whole_at(s, d, j) {
        let j = choose|j: int| whole_at(s, d, j);
        assert(0 <= j);
    }
}

/// Patching without ceilings and without a board leaves the source as it is.
/// Without a board the ceilings are all that is done, and the board comes after
/// them: what is reported is what the ceilings came to and then the board.
pub proof fn law_ceilings_come_first_then_the_board(
    pristine: Seq<char>,
    max_rpm: MaxRpm,
    table: BoardTable,
    name: Seq<char>,
)
    ensures
        patched_source(pristine, MaxRpm { cpu: None, gpu: None }, None) == Ok::<
            (Seq<char>, Seq<Seq<char>>),
            PatchErrorView,
        >((pristine, seq![])),
        max_rpm.cpu is Some || max_rpm.gpu is Some ==> patched_source(pristine, max_rpm, None)
            == with_ceilings(pristine, max_rpm),
        patched_source(pristine, max_rpm, None) matches Ok((source, applied)) ==> {
            &&& injected(source, table, name) is Err ==> patched_source(
                pristine,
                max_rpm,
                Some((table, name)),
            ) is Err
            &&& injected(source, table, name) matches Ok(after) ==> patched_source(
                pristine,
                max_rpm,
                Some((table, name)),
            ) matches Ok((all, said)) && all == after && said.len() == applied.len() + 1
                && said.drop_last() == applied
        },
        patched_source(pristine, max_rpm, None) is Err ==> patched_source(
            pristine,
            max_rpm,
            Some((table, name)),
        ) == patched_source(pristine, max_rpm, None),
{
    if patched_source(pristine, max_rpm, None) is Ok {
        let (source, applied) = patched_source(pristine, max_rpm, None)->Ok_0;
        if injected(source, table, name) is Ok {
            let after = injected(source, table, name)->Ok_0;
            let line = board_report(name, table, after.len() == source.len());
            assert(applied.push(line).drop_last() =~= applied);
        }
    }
}

/// The board that was asked for is listed in the patched source, in the table
/// that was asked for, and the report says whether it was there before.
#[verifier::spinoff_prover]
#[verifier::rlimit(60)]
pub proof fn law_the_board_asked_for_is_listed(
    pristine: Seq<char>,
    table: BoardTable,
    name: Seq<char>,
)
    requires
        no_braces(name),
        body_of(pristine, table) is Ok,
    ensures
        ({
            let done = patched_source(
                pristine,
                MaxRpm { cpu: None, gpu: None },
                Some((table, name)),
            );
            &&& done is Ok
            &&& lists(done->Ok_0.0, table, name) == Ok::<bool, PatchErrorView>(true)
            &&& lists(pristine, table, name) == Ok::<bool, PatchErrorView>(true) ==> done->Ok_0.0
                == pristine && done->Ok_0.1 == seq![
                "board "@ + name + " was already listed in "@ + table.array(),
            ]
            &&& lists(pristine, table, name) == Ok::<bool, PatchErrorView>(false) ==> done->Ok_0.1
                == seq!["board "@ + name + " added to "@ + table.array()]
                && done->Ok_0.0.len() == pristine.len() + table.entry(name).len()
        }),
{
    law_plain_names_are_balanced(table, name);
    law_injected_board_is_listed(pristine, table, name);
    let (open, close) = body_of(pristine, table)->Ok_0;
    let start = text::first_at(pristine, table.array(), 0)->0;
    text::lemma_first_at(pristine, table.array(), 0);
    text::lemma_position(pristine, Class::Is('{'), start);
    lemma_closing_bounds(pristine, open, 0);
    lemma_insertion_in_range(pristine, table, open, close);
    reveal_strlit("\t{\n\t\t.matches = {DMI_MATCH(DMI_BOARD_NAME, ");
    reveal_strlit("\t");
    reveal_strlit("\"");
    assert("\""@.len() == 1);
    assert(table.entry(name).len() > 0) by {
        assert(quoted(name).len() > 0);
    }
    assert(Seq::<Seq<char>>::empty().push(
        "board "@ + name + " was already listed in "@ + table.array(),
    ) =~= seq!["board "@ + name + " was already listed in "@ + table.array()]);
    assert(Seq::<Seq<char>>::empty().push("board "@ + name + " added to "@ + table.array())
        =~= seq!["board "@ + name + " added to "@ + table.array()]);
}

/// Each table and each set of parameters is known in the source by its own name.
pub proof fn law_tables_are_named(params: BoardParams, board: Seq<char>)
    ensures
        BoardTable::OmenThermalProfile.array() == "omen_thermal_profile_boards"@,
        BoardTable::OmenForceV0.array() == "omen_thermal_profile_force_v0_boards"@,
        BoardTable::OmenTimed.array() == "omen_timed_thermal_profile_boards"@,
        BoardTable::VictusThermalProfile.array() == "victus_thermal_profile_boards"@,
        BoardTable::Features(params).array() == "hp_wmi_feature_boards"@,
        BoardParams::VictusS.name() == "victus_s_board_params"@,
        BoardParams::OmenV1.name() == "omen_v1_board_params"@,
        BoardParams::OmenV1Legacy.name() == "omen_v1_legacy_board_params"@,
        BoardParams::OmenV1NoEc.name() == "omen_v1_no_ec_board_params"@,
        text::contains(BoardTable::Features(params).entry(board), params.name()),
        BoardTable::OmenTimed.entry(board) == "\t"@ + ("\""@ + board + "\""@) + ",\n"@,
{
    let head = "\t{\n\t\t.matches = {DMI_MATCH(DMI_BOARD_NAME, "@ + quoted(board)
        + ")},\n\t\t.driver_data = (void *)&"@;
    text::law_a_part_is_contained(head, params.name(), ",\n\t},\n"@);
}

/// A comment that goes on to the next line is no part of the value before it.
pub proof fn law_an_open_comment_is_no_value(
    pre: Seq<char>,
    d: Seq<char>,
    gap: Seq<char>,
    number: Seq<char>,
    note: Seq<char>,
    rest: Seq<char>,
    value: nat,
)
    requires
        d.len() > 0,
        gap.len() > 0,
        forall|k: int| 0 <= k < gap.len() ==> (#[trigger] gap[k] == ' ' || gap[k] == '\t'),
        number.len() > 0,
        forall|k: int| 0 <= k < number.len() ==> '0' <= #[trigger] number[k] <= '9',
        !note.contains('*') && !note.contains('\n'),
    ensures
        ({
            let tail = seq![' ', '/', '*'] + note + seq!['\n'] + rest;
            let s = pre + d + (gap + (number + tail));
            first_whole(s, d, 0) == Some(pre.len() as int) ==> value_of(s, d) == Some(number)
                && replaced(s, d, value) == Some(pre + d + gap + number::decimal(value) + tail)
        }),
{
    let tail = seq![' ', '/', '*'] + note + seq!['\n'] + rest;
    let t = tail.skip(1);
    assert(t[0] == '/' && t[1] == '*');
    assert forall|k: int| 2 <= k < 2 + note.len() implies #[trigger] t[k] != '*' && t[k] != '\n' by {
        assert(t[k] == note[k - 2]);
        assert(note.contains(note[k - 2]));
    }
    assert(t[2 + note.len() as int] == '\n');
    lemma_comment_stays_open(t, 2, 2 + note.len() as int);
    assert(ends_code(t));
    assert(code_len(t) == 0);
    assert(tail[0] == ' ');
    assert(comment_len(tail) is None);
    assert(piece_len(tail) == 1);
    assert(code_len(tail) == 0);
    lemma_number_in_place(pre, d, gap, number, tail, value);
}

proof fn lemma_comment_stays_open(t: Seq<char>, i: int, end: int)
    requires
        0 <= i <= end < t.len(),
        t[end] == '\n',
        forall|k: int| i <= k < end ==> #[trigger] t[k] != '*' && t[k] != '\n',
    ensures
        comment_end(t, i) is None,
    decreases end - i,
{
    if i < end {
        assert(t[i] != '*' && t[i] != '\n');
        lemma_comment_stays_open(t, i + 1, end);
    }
}

} // verus!
