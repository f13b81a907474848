//! The install's inputs, worked out from what the machine says about itself.
use vstd::prelude::*;
use vstd::string::*;

use crate::installer::ec;
use crate::installer::ec::EcProbe;
use crate::installer::ec::EcView;
use crate::installer::patch;
use crate::installer::patch::BoardParams;
use crate::installer::patch::BoardTable;
use crate::installer::patch::MaxRpm;
use crate::msg;
use crate::msg::Msg;
use crate::msg::MsgView;
use crate::number;
use crate::text;

verus! {

/// Which of HP's two gaming families this machine is, as far as it says.
#[derive(Debug, Clone, Copy, PartialEq, Eq, Structural)]
pub enum Family {
    Omen,
    Victus,
    Unknown,
}

/// Whether the board-params variant changes anything on this board.
#[derive(Debug, Clone, Copy, PartialEq, Eq, Structural)]
pub enum ParamsEffect {
    /// The driver takes the OMEN profile path for this board regardless.
    InertOmenPath,
    /// The same, by the Victus path.
    InertVictusPath,
    /// The variant decides where the thermal profile is read back from.
    DecidesReadback,
}

/// Where a suggested fan ceiling came from.
#[derive(Debug, Clone, Copy, PartialEq, Eq, Structural)]
pub enum RpmSource {
    /// Measured on this machine.
    Calibrated,
    /// Nothing measured; the driver's own fallback is left in place.
    DriverFallback,
}

/// What the firmware calls the machine.
#[derive(Debug, Clone)]
pub struct Dmi {
    pub board_name: Option<String>,
    pub product_name: Option<String>,
    pub product_family: Option<String>,
    pub sys_vendor: Option<String>,
}

impl Default for Dmi {
    fn default() -> (r: Dmi)
        ensures
            r.board_name is None,
            r.product_name is None,
            r.product_family is None,
            r.sys_vendor is None,
    {
        Dmi { board_name: None, product_name: None, product_family: None, sys_vendor: None }
    }
}

/// A string that retail boards ship in place of a name.
pub open spec fn is_placeholder(lowered: Seq<char>) -> bool {
    lowered == ""@ || lowered == "default string"@ || lowered == "to be filled by o.e.m."@
        || lowered == "system product name"@ || lowered == "unknown"@
}

/// What a firmware string names, if anything.
pub open spec fn named(raw: Option<Seq<char>>) -> Option<Seq<char>> {
    match raw {
        Some(s) => if is_placeholder(text::ascii_lower(text::trim(s))) {
            None
        } else {
            Some(text::trim(s))
        },
        None => None,
    }
}

fn dmi(raw: &Option<String>) -> (r: Option<String>)
    ensures
        text::opt_view(r) == named(text::opt_view(*raw)),
{
    match raw {
        None => None,
        Some(s) => {
            let value = text::trimmed_str(s.as_str());
            let lowered = text::ascii_lowered(value.as_str());
            let l = lowered.as_str();
            if text::same(l, "") || text::same(l, "default string") || text::same(
                l,
                "to be filled by o.e.m.",
            ) || text::same(l, "system product name") || text::same(l, "unknown") {
                None
            } else {
                Some(value)
            }
        },
    }
}

/// The strings that are there.
pub open spec fn present(s: Option<String>) -> Seq<Seq<char>> {
    match s {
        Some(s) => seq![text::ascii_upper(s@)],
        None => seq![],
    }
}

/// Everything the firmware says about the model, in capitals.
pub open spec fn model_text(dmi: Dmi) -> Seq<char> {
    text::join(
        present(dmi.product_name) + present(dmi.product_family) + present(dmi.sys_vendor),
        " "@,
    )
}

pub open spec fn family_in(model: Seq<char>) -> Family {
    if text::contains(model, "VICTUS"@) {
        Family::Victus
    } else if text::contains(model, "OMEN"@) {
        Family::Omen
    } else {
        Family::Unknown
    }
}

fn push_present(parts: &mut Vec<String>, s: &Option<String>)
    ensures
        text::views(final(parts)@) == text::views(old(parts)@) + present(*s),
{
    let ghost before = text::views(parts@);
    match s {
        Some(s) => {
            text::push_string(parts, text::ascii_uppered(s.as_str()));
        },
        None => {},
    }
    proof {
        assert(text::views(parts@) =~= before + present(*s));
    }
}

impl Dmi {
    /// Takes the firmware's strings, without those that name nothing.
    pub fn read(
        board_name: &Option<String>,
        product_name: &Option<String>,
        product_family: &Option<String>,
        sys_vendor: &Option<String>,
    ) -> (r: Dmi)
        ensures
            text::opt_view(r.board_name) == named(text::opt_view(*board_name)),
            text::opt_view(r.product_name) == named(text::opt_view(*product_name)),
            text::opt_view(r.product_family) == named(text::opt_view(*product_family)),
            text::opt_view(r.sys_vendor) == named(text::opt_view(*sys_vendor)),
    {
        Dmi {
            board_name: dmi(board_name),
            product_name: dmi(product_name),
            product_family: dmi(product_family),
            sys_vendor: dmi(sys_vendor),
        }
    }

    /// OMEN or Victus, from whichever string names the model. The board name
    /// is not asked: it is a code that says nothing about the family.
    pub fn family(&self) -> (r: Family)
        ensures
            r == family_in(model_text(*self)),
    {
        let mut parts: Vec<String> = Vec::new();
        proof {
            assert(text::views(parts@) =~= seq![]);
        }
        push_present(&mut parts, &self.product_name);
        push_present(&mut parts, &self.product_family);
        push_present(&mut parts, &self.sys_vendor);
        proof {
            assert(text::views(parts@) =~= present(self.product_name) + present(
                self.product_family,
            ) + present(self.sys_vendor));
        }
        let model = text::joined(&parts, " ");
        if text::str_has(model.as_str(), "VICTUS") {
            Family::Victus
        } else if text::str_has(model.as_str(), "OMEN") {
            Family::Omen
        } else {
            Family::Unknown
        }
    }
}

/// Everything the installer would otherwise have asked for, and the reasoning.
#[derive(Debug, Clone)]
pub struct Autodetected {
    pub dmi: Dmi,
    pub family: Family,
    /// True when the driver already lists this board.
    pub board_known: bool,
    /// The board id to add, where there is one to add.
    pub experimental_board: Option<String>,
    pub board_table: Option<BoardTable>,
    /// Whether the params variant above changes anything here.
    pub params_effect: ParamsEffect,
    /// What the embedded controller said, when it was asked.
    pub ec: EcProbe,
    pub cpu_max_rpm: Option<u32>,
    pub gpu_max_rpm: Option<u32>,
    pub rpm_source: RpmSource,
    pub notes: Vec<Msg>,
}

impl Autodetected {
    /// The board to inject, where there is one.
    pub fn board(&self) -> (r: Option<(BoardTable, String)>)
        ensures
            match r {
                Some((table, name)) => self.board_table == Some(table) && text::opt_view(
                    self.experimental_board,
                ) == Some(name@),
                None => self.board_table is None || self.experimental_board is None,
            },
    {
        match (&self.board_table, &self.experimental_board) {
            (Some(table), Some(name)) => Some((*table, name.clone())),
            _ => None,
        }
    }

    pub fn max_rpm(&self) -> (r: MaxRpm)
        ensures
            r == (MaxRpm { cpu: self.cpu_max_rpm, gpu: self.gpu_max_rpm }),
    {
        MaxRpm { cpu: self.cpu_max_rpm, gpu: self.gpu_max_rpm }
    }
}

// --- the parameters ------------------------------------------------------

/// Whether the table lists the board, as far as the source says.
pub open spec fn listed(source: Seq<char>, table: BoardTable, board: Seq<char>) -> bool {
    match patch::lists(source, table, board) {
        Ok(b) => b,
        Err(_) => false,
    }
}

fn is_listed(source: &str, table: BoardTable, board: &str) -> (r: bool)
    ensures
        r == listed(source@, table, board@),
{
    match patch::board_in_table(source, table, board) {
        Ok(b) => b,
        Err(_) => false,
    }
}

/// Whether the params variant will change anything on this board: one that is
/// listed for a profile path takes that path.
pub open spec fn effect_on(source: Seq<char>, board: Seq<char>) -> ParamsEffect {
    if listed(source, BoardTable::OmenThermalProfile, board) {
        ParamsEffect::InertOmenPath
    } else if listed(source, BoardTable::VictusThermalProfile, board) {
        ParamsEffect::InertVictusPath
    } else {
        ParamsEffect::DecidesReadback
    }
}

fn effect_for(source: &str, board: &str) -> (r: ParamsEffect)
    ensures
        r == effect_on(source@, board@),
{
    if is_listed(source, BoardTable::OmenThermalProfile, board) {
        ParamsEffect::InertOmenPath
    } else if is_listed(source, BoardTable::VictusThermalProfile, board) {
        ParamsEffect::InertVictusPath
    } else {
        ParamsEffect::DecidesReadback
    }
}

/// The conservative variant for a family. A machine of neither is a question,
/// not a default.
pub open spec fn default_params(family: Family) -> Option<BoardParams> {
    match family {
        Family::Omen => Some(BoardParams::OmenV1NoEc),
        Family::Victus => Some(BoardParams::VictusS),
        Family::Unknown => None,
    }
}

fn params_for(family: Family) -> (r: Option<BoardParams>)
    ensures
        r == default_params(family),
{
    match family {
        Family::Omen => Some(BoardParams::OmenV1NoEc),
        Family::Victus => Some(BoardParams::VictusS),
        Family::Unknown => None,
    }
}

pub open spec fn short_name(params: BoardParams) -> Seq<char> {
    match params {
        BoardParams::VictusS => "victus_s"@,
        BoardParams::OmenV1 => "omen_v1"@,
        BoardParams::OmenV1Legacy => "omen_v1_legacy"@,
        BoardParams::OmenV1NoEc => "omen_v1_no_ec"@,
    }
}

fn params_name(params: BoardParams) -> (r: &'static str)
    ensures
        r@ == short_name(params),
{
    match params {
        BoardParams::VictusS => "victus_s",
        BoardParams::OmenV1 => "omen_v1",
        BoardParams::OmenV1Legacy => "omen_v1_legacy",
        BoardParams::OmenV1NoEc => "omen_v1_no_ec",
    }
}

pub open spec fn why_inert(effect: ParamsEffect) -> MsgView {
    msg::message(
        "installer.auto.paramsInert"@,
        seq![
            (
                "table"@,
                if effect == ParamsEffect::InertVictusPath {
                    "victus_thermal_profile_boards"@
                } else {
                    "omen_thermal_profile_boards"@
                },
            ),
        ],
        "This choice does not affect this board. It is already in the driver's {table}, so the driver takes that thermal-profile path and never reads the variant's own EC offset - and all four variants share one fan profile, so none of them changes fan control either."@,
    )
}

pub open spec fn why_victus() -> MsgView {
    msg::message(
        "installer.auto.paramsVictus"@,
        seq![],
        "Victus boards have one parameter set in this driver, and upstream marks its EC offset unknown - so the thermal profile is remembered rather than read back. Nothing to measure."@,
    )
}

pub open spec fn why_measured_omen() -> MsgView {
    msg::message(
        "installer.auto.paramsMeasuredOmen"@,
        seq![],
        "Measured, not guessed: EC offset 0x95 is holding a value the OMEN thermal profile uses, so that is where this board keeps it. omen_v1_legacy is the variant that reads there."@,
    )
}

pub open spec fn why_measured_victus_s() -> MsgView {
    msg::message(
        "installer.auto.paramsMeasuredVictusS"@,
        seq![],
        "Measured, not guessed: EC offset 0x59 is holding a value the OMEN thermal profile uses, so that is where this board keeps it. omen_v1 is the variant that reads there."@,
    )
}

pub open spec fn why_no_offset() -> MsgView {
    msg::message(
        "installer.auto.paramsNoOffset"@,
        seq![],
        "The embedded controller was read and holds a thermal profile at neither offset the driver knows, so this board keeps it somewhere else. omen_v1_no_ec is the variant that reads none - which is the right answer here, not a fallback: the driver remembers the profile it set instead."@,
    )
}

pub open spec fn why_unmeasured() -> MsgView {
    msg::message(
        "installer.auto.paramsUnmeasured"@,
        seq![],
        "The embedded controller could not be read, so which EC offset holds the thermal profile is unknown. omen_v1_no_ec reads none of them, which is the safe half of that choice - the driver remembers the profile it set. Only the readback is affected; setting a profile goes over WMI either way."@,
    )
}

/// The variant to use, and how it was arrived at: it does not matter, it was
/// measured, or it could not be.
pub open spec fn chosen_params(
    family: Family,
    default_params: BoardParams,
    effect: ParamsEffect,
    probed: EcView,
) -> (BoardParams, MsgView) {
    if effect != ParamsEffect::DecidesReadback {
        (default_params, why_inert(effect))
    } else if family != Family::Omen {
        (default_params, why_victus())
    } else {
        match probed.offset_in_use() {
            Some(offset) => if offset == ec::OMEN_THERMAL_OFFSET {
                (BoardParams::OmenV1Legacy, why_measured_omen())
            } else {
                (BoardParams::OmenV1, why_measured_victus_s())
            },
            None => (
                BoardParams::OmenV1NoEc,
                if probed is Read {
                    why_no_offset()
                } else {
                    why_unmeasured()
                },
            ),
        }
    }
}

fn choose_params(
    family: Family,
    default_params: BoardParams,
    effect: ParamsEffect,
    probed: &EcProbe,
) -> (r: (BoardParams, Msg))
    ensures
        (r.0, r.1@) == chosen_params(family, default_params, effect, probed@),
{
    if effect != ParamsEffect::DecidesReadback {
        let table = if effect == ParamsEffect::InertVictusPath {
            String::from_str("victus_thermal_profile_boards")
        } else {
            String::from_str("omen_thermal_profile_boards")
        };
        return (
            default_params,
            Msg::new(
                "installer.auto.paramsInert",
                msg::one(msg::param("table", table)),
                "This choice does not affect this board. It is already in the driver's {table}, so the driver takes that thermal-profile path and never reads the variant's own EC offset - and all four variants share one fan profile, so none of them changes fan control either.",
            ),
        );
    }
    if family != Family::Omen {
        return (
            default_params,
            Msg::plain(
                "installer.auto.paramsVictus",
                "Victus boards have one parameter set in this driver, and upstream marks its EC offset unknown - so the thermal profile is remembered rather than read back. Nothing to measure.",
            ),
        );
    }
    match probed.omen_offset_in_use() {
        Some(offset) => {
            if offset == ec::OMEN_THERMAL_OFFSET {
                (
                    BoardParams::OmenV1Legacy,
                    Msg::plain(
                        "installer.auto.paramsMeasuredOmen",
                        "Measured, not guessed: EC offset 0x95 is holding a value the OMEN thermal profile uses, so that is where this board keeps it. omen_v1_legacy is the variant that reads there.",
                    ),
                )
            } else {
                (
                    BoardParams::OmenV1,
                    Msg::plain(
                        "installer.auto.paramsMeasuredVictusS",
                        "Measured, not guessed: EC offset 0x59 is holding a value the OMEN thermal profile uses, so that is where this board keeps it. omen_v1 is the variant that reads there.",
                    ),
                )
            }
        },
        None => {
            let why = match probed {
                EcProbe::Read { victus_s: _, omen: _ } => Msg::plain(
                    "installer.auto.paramsNoOffset",
                    "The embedded controller was read and holds a thermal profile at neither offset the driver knows, so this board keeps it somewhere else. omen_v1_no_ec is the variant that reads none - which is the right answer here, not a fallback: the driver remembers the profile it set instead.",
                ),
                _ => Msg::plain(
                    "installer.auto.paramsUnmeasured",
                    "The embedded controller could not be read, so which EC offset holds the thermal profile is unknown. omen_v1_no_ec reads none of them, which is the safe half of that choice - the driver remembers the profile it set. Only the readback is affected; setting a profile goes over WMI either way.",
                ),
            };
            (BoardParams::OmenV1NoEc, why)
        },
    }
}

// --- the decision --------------------------------------------------------

/// What is decided about the board.
#[verifier::ext_equal]
pub struct BoardDecision {
    pub known: bool,
    pub board: Option<Seq<char>>,
    pub table: Option<BoardTable>,
    pub effect: ParamsEffect,
    pub notes: Seq<MsgView>,
}

pub open spec fn undecided(note: MsgView) -> BoardDecision {
    BoardDecision {
        known: false,
        board: None,
        table: None,
        effect: ParamsEffect::DecidesReadback,
        notes: seq![note],
    }
}

pub open spec fn note_no_board_id() -> MsgView {
    msg::message(
        "installer.auto.noBoardId"@,
        seq![],
        "This machine's firmware does not publish a DMI board name, so no board can be added to the driver's tables."@,
    )
}

pub open spec fn note_no_driver_source(board: Seq<char>) -> MsgView {
    msg::message(
        "installer.auto.noDriverSource"@,
        seq![("board"@, board)],
        "Board {board} was found, but without the driver sources there is no way to tell whether the driver already lists it."@,
    )
}

pub open spec fn note_board_known(board: Seq<char>) -> MsgView {
    msg::message(
        "installer.auto.boardKnown"@,
        seq![("board"@, board)],
        "Board {board} is already in the driver's feature table, so no board patch is needed."@,
    )
}

pub open spec fn note_board_new(board: Seq<char>, params: BoardParams) -> MsgView {
    msg::message(
        "installer.auto.boardNew"@,
        seq![("board"@, board), ("params"@, short_name(params))],
        "Board {board} is not in the driver's feature table; it will be added with the {params} parameters."@,
    )
}

pub open spec fn note_unknown_family(board: Seq<char>) -> MsgView {
    msg::message(
        "installer.auto.unknownFamily"@,
        seq![("board"@, board)],
        "Board {board} is not in the driver's tables, and this machine does not identify itself as an OMEN or a Victus, so which parameters it wants cannot be guessed. Choose them by hand below."@,
    )
}

/// Membership of the feature table is what gives the driver a fan profile at
/// all, so that is the table the question is asked of, and the one an unlisted
/// board is added to.
pub open spec fn decided(
    board: Option<Seq<char>>,
    family: Family,
    source: Option<Seq<char>>,
    probed: EcView,
) -> BoardDecision {
    match board {
        None => undecided(note_no_board_id()),
        Some(board) => match source {
            None => undecided(note_no_driver_source(board)),
            Some(source) => if listed(
                source,
                BoardTable::Features(BoardParams::VictusS),
                board,
            ) {
                BoardDecision { known: true, ..undecided(note_board_known(board)) }
            } else {
                match default_params(family) {
                    None => undecided(note_unknown_family(board)),
                    Some(default) => {
                        let effect = effect_on(source, board);
                        let (params, why) = chosen_params(family, default, effect, probed);
                        BoardDecision {
                            known: false,
                            board: Some(board),
                            table: Some(BoardTable::Features(params)),
                            effect,
                            notes: seq![note_board_new(board, params), why],
                        }
                    },
                }
            },
        },
    }
}

pub open spec fn rpm_said(rpm: Option<u32>) -> Seq<char> {
    match rpm {
        Some(rpm) => number::decimal(rpm as nat) + " rpm"@,
        None => "not measured"@,
    }
}

fn rpm_text(rpm: Option<u32>) -> (r: String)
    ensures
        r@ == rpm_said(rpm),
{
    match rpm {
        Some(rpm) => number::show(rpm as u64).concat(" rpm"),
        None => String::from_str("not measured"),
    }
}

pub open spec fn note_rpm(max_rpm: MaxRpm, source: RpmSource) -> MsgView {
    match source {
        RpmSource::Calibrated => msg::message(
            "installer.auto.rpmCalibrated"@,
            seq![("cpu"@, rpm_said(max_rpm.cpu)), ("gpu"@, rpm_said(max_rpm.gpu))],
            "Fan ceilings taken from the last calibration run: {cpu} (CPU), {gpu} (GPU)."@,
        ),
        RpmSource::DriverFallback => msg::message(
            "installer.auto.rpmNotCalibrated"@,
            seq![],
            "No fan calibration has been run here, so the driver keeps its own ceiling - it asks the firmware for one first, and only falls back to a compiled-in number if that fails. Run the fan calibration and install again to pin down measured values."@,
        ),
    }
}

fn push_note(notes: &mut Vec<Msg>, note: Msg)
    ensures
        msg::says(final(notes)@) == msg::says(old(notes)@).push(note@),
{
    let ghost before = notes@;
    notes.push(note);
    proof {
        assert(msg::says(notes@) =~= msg::says(before).push(note@));
    }
}

fn board_param(board: &String) -> (r: Vec<msg::Param>)
    ensures
        msg::pairs(r@) == seq![("board"@, board@)],
{
    msg::one(msg::param("board", board.clone()))
}

/// The whole decision, over what was found.
pub fn decide(
    dmi: Dmi,
    driver_source: Option<&str>,
    max_rpm: MaxRpm,
    rpm_source: RpmSource,
    ec: EcProbe,
) -> (r: Autodetected)
    ensures
        r.dmi == dmi,
        r.family == family_in(model_text(dmi)),
        r.ec == ec,
        r.cpu_max_rpm == max_rpm.cpu,
        r.gpu_max_rpm == max_rpm.gpu,
        r.rpm_source == rpm_source,
        ({
            let d = decided(
                text::opt_view(dmi.board_name),
                r.family,
                match driver_source {
                    Some(s) => Some(s@),
                    None => None,
                },
                ec@,
            );
            &&& r.board_known == d.known
            &&& text::opt_view(r.experimental_board) == d.board
            &&& r.board_table == d.table
            &&& r.params_effect == d.effect
            &&& msg::says(r.notes@) == d.notes.push(note_rpm(max_rpm, rpm_source))
        }),
{
    let family = dmi.family();
    let mut notes: Vec<Msg> = Vec::new();
    let mut board_known: bool = false;
    let mut experimental_board: Option<String> = None;
    let mut board_table: Option<BoardTable> = None;
    let mut params_effect = ParamsEffect::DecidesReadback;
    let ghost d = decided(
        text::opt_view(dmi.board_name),
        family,
        match driver_source {
            Some(s) => Some(s@),
            None => None,
        },
        ec@,
    );

    match (&dmi.board_name, driver_source) {
        (None, _) => {
            push_note(
                &mut notes,
                Msg::plain(
                    "installer.auto.noBoardId",
                    "This machine's firmware does not publish a DMI board name, so no board can be added to the driver's tables.",
                ),
            );
        },
        (Some(board), None) => {
            push_note(
                &mut notes,
                Msg::new(
                    "installer.auto.noDriverSource",
                    board_param(board),
                    "Board {board} was found, but without the driver sources there is no way to tell whether the driver already lists it.",
                ),
            );
        },
        (Some(board), Some(source)) => {
            board_known = is_listed(
                source,
                BoardTable::Features(BoardParams::VictusS),
                board.as_str(),
            );
            if board_known {
                push_note(
                    &mut notes,
                    Msg::new(
                        "installer.auto.boardKnown",
                        board_param(board),
                        "Board {board} is already in the driver's feature table, so no board patch is needed.",
                    ),
                );
            } else {
                match params_for(family) {
                    Some(default) => {
                        params_effect = effect_for(source, board.as_str());
                        let (params, why) = choose_params(family, default, params_effect, &ec);
                        experimental_board = Some(board.clone());
                        board_table = Some(BoardTable::Features(params));
                        push_note(
                            &mut notes,
                            Msg::new(
                                "installer.auto.boardNew",
                                msg::two(
                                    msg::param("board", board.clone()),
                                    msg::param("params", String::from_str(params_name(params))),
                                ),
                                "Board {board} is not in the driver's feature table; it will be added with the {params} parameters.",
                            ),
                        );
                        push_note(&mut notes, why);
                    },
                    None => {
                        push_note(
                            &mut notes,
                            Msg::new(
                                "installer.auto.unknownFamily",
                                board_param(board),
                                "Board {board} is not in the driver's tables, and this machine does not identify itself as an OMEN or a Victus, so which parameters it wants cannot be guessed. Choose them by hand below.",
                            ),
                        );
                    },
                }
            }
        },
    }
    proof {
        assert(msg::says(notes@) =~= d.notes);
    }

    match rpm_source {
        RpmSource::Calibrated => {
            push_note(
                &mut notes,
                Msg::new(
                    "installer.auto.rpmCalibrated",
                    msg::two(
                        msg::param("cpu", rpm_text(max_rpm.cpu)),
                        msg::param("gpu", rpm_text(max_rpm.gpu)),
                    ),
                    "Fan ceilings taken from the last calibration run: {cpu} (CPU), {gpu} (GPU).",
                ),
            );
        },
        RpmSource::DriverFallback => {
            push_note(
                &mut notes,
                Msg::plain(
                    "installer.auto.rpmNotCalibrated",
                    "No fan calibration has been run here, so the driver keeps its own ceiling - it asks the firmware for one first, and only falls back to a compiled-in number if that fails. Run the fan calibration and install again to pin down measured values.",
                ),
            );
        },
    }

    Autodetected {
        dmi,
        family,
        board_known,
        experimental_board,
        board_table,
        params_effect,
        ec,
        cpu_max_rpm: max_rpm.cpu,
        gpu_max_rpm: max_rpm.gpu,
        rpm_source,
        notes,
    }
}

/// A measured ceiling, where it is one.
pub fn positive_rpm(rpm: i64) -> (r: Option<u32>)
    ensures
        r == (if rpm > 0 {
            Some(rpm as u32)
        } else {
            None
        }),
{
    if rpm > 0 {
        Some(#[verifier::truncate] (rpm as u32))
    } else {
        None
    }
}

/// The measured ceilings: the first fan is the CPU's, the second the GPU's.
pub fn calibrated_max_rpm(fan1: Option<i64>, fan2: Option<i64>) -> (r: (MaxRpm, RpmSource))
    ensures
        r.0.cpu == (match fan1 {
            Some(rpm) => if rpm > 0 {
                Some(rpm as u32)
            } else {
                None
            },
            None => None,
        }),
        r.0.gpu == (match fan2 {
            Some(rpm) => if rpm > 0 {
                Some(rpm as u32)
            } else {
                None
            },
            None => None,
        }),
        r.1 == (if r.0.cpu is None && r.0.gpu is None {
            RpmSource::DriverFallback
        } else {
            RpmSource::Calibrated
        }),
{
    let cpu = match fan1 {
        Some(rpm) => positive_rpm(rpm),
        None => None,
    };
    let gpu = match fan2 {
        Some(rpm) => positive_rpm(rpm),
        None => None,
    };
    let max_rpm = MaxRpm { cpu, gpu };
    let source = if max_rpm.is_empty() {
        RpmSource::DriverFallback
    } else {
        RpmSource::Calibrated
    };
    (max_rpm, source)
}

// --- laws ----------------------------------------------------------------

/// A board is only ever added to the feature table, only where the table does
/// not list it, and only where the machine names its family.
pub proof fn law_only_unlisted_boards_are_added(
    board: Option<Seq<char>>,
    family: Family,
    source: Option<Seq<char>>,
    probed: EcView,
)
    requires
        decided(board, family, source, probed).board is Some,
    ensures
        board == decided(board, family, source, probed).board,
        family != Family::Unknown,
        source is Some,
        !listed(source->0, BoardTable::Features(BoardParams::VictusS), board->0),
        decided(board, family, source, probed).table matches Some(BoardTable::Features(_)),
{
}

/// Where the variant decides nothing, what the embedded controller holds is
/// not asked: the choice is the same whatever it says.
pub proof fn law_inert_choice_ignores_the_controller(
    family: Family,
    default_params: BoardParams,
    effect: ParamsEffect,
    a: EcView,
    b: EcView,
)
    requires
        effect != ParamsEffect::DecidesReadback || family != Family::Omen,
    ensures
        chosen_params(family, default_params, effect, a) == chosen_params(
            family,
            default_params,
            effect,
            b,
        ),
{
}

/// What the firmware publishes is taken without the blanks around it, unless it
/// is one of the vendors' placeholders, in any case of letters.
pub proof fn law_placeholders_are_no_names(s: Seq<char>)
    ensures
        named(None) is None,
        named(Some(s)) is None <==> ({
            let lowered = text::ascii_lower(text::trim(s));
            lowered.len() == 0 || lowered == "default string"@ || lowered
                == "to be filled by o.e.m."@ || lowered == "system product name"@ || lowered
                == "unknown"@
        }),
        named(Some(s)) is Some ==> named(Some(s)) == Some(text::trim(s)),
{
    reveal_strlit("");
    let lowered = text::ascii_lower(text::trim(s));
    if lowered.len() == 0 {
        assert(lowered =~= ""@);
    }
}

/// A machine that calls itself a Victus anywhere is one, whatever else it calls
/// itself; one that calls itself an OMEN and not a Victus is an OMEN.
#[verifier::spinoff_prover]
#[verifier::rlimit(60)]
pub proof fn law_a_machine_is_what_it_calls_itself(dmi: Dmi, name: Seq<char>)
    ensures
        (dmi.product_name matches Some(s) && text::contains(text::ascii_upper(s@), "VICTUS"@)) || (
        dmi.product_family matches Some(s) && text::contains(text::ascii_upper(s@), "VICTUS"@)) || (
        dmi.sys_vendor matches Some(s) && text::contains(text::ascii_upper(s@), "VICTUS"@))
            ==> family_in(model_text(dmi)) == Family::Victus,
        ((dmi.product_name matches Some(s) && text::contains(text::ascii_upper(s@), "OMEN"@)) || (
        dmi.product_family matches Some(s) && text::contains(text::ascii_upper(s@), "OMEN"@)) || (
        dmi.sys_vendor matches Some(s) && text::contains(text::ascii_upper(s@), "OMEN"@)))
            ==> family_in(model_text(dmi)) != Family::Unknown,
        text::contains(name, "OMEN"@) && !text::contains(name, "VICTUS"@) ==> family_in(name)
            == Family::Omen,
        !text::contains(name, "OMEN"@) && !text::contains(name, "VICTUS"@) ==> family_in(name)
            == Family::Unknown,
{
    let a = present(dmi.product_name);
    let b = present(dmi.product_family);
    let c = present(dmi.sys_vendor);
    let all = a + b + c;
    if dmi.product_name is Some {
        assert(all[0] == a[0]);
        lemma_name_is_heard(all, 0);
    }
    if dmi.product_family is Some {
        assert(all[a.len() as int] == b[0]);
        lemma_name_is_heard(all, a.len() as int);
    }
    if dmi.sys_vendor is Some {
        assert(all[(a.len() + b.len()) as int] == c[0]);
        lemma_name_is_heard(all, (a.len() + b.len()) as int);
    }
}

proof fn lemma_name_is_heard(all: Seq<Seq<char>>, i: int)
    requires
        0 <= i < all.len(),
    ensures
        text::contains(all[i], "VICTUS"@) ==> text::contains(text::join(all, " "@), "VICTUS"@),
        text::contains(all[i], "OMEN"@) ==> text::contains(text::join(all, " "@), "OMEN"@),
{
    if text::contains(all[i], "VICTUS"@) {
        lemma_contained_in_join(all, i, "VICTUS"@, " "@);
    }
    if text::contains(all[i], "OMEN"@) {
        lemma_contained_in_join(all, i, "OMEN"@, " "@);
    }
}

proof fn lemma_contained_in_join(parts: Seq<Seq<char>>, i: int, p: Seq<char>, sep: Seq<char>)
    requires
        0 <= i < parts.len(),
        text::contains(parts[i], p),
    ensures
        text::contains(text::join(parts, sep), p),
    decreases parts.len(),
{
    if parts.len() > 1 {
        let whole = text::join(parts, sep);
        let before = text::join(parts.drop_last(), sep);
        if i == parts.len() - 1 {
            let k = choose|k: int| text::occurs_at(parts[i], p, k);
            let at = before.len() + sep.len() + k;
            assert(whole.subrange(at, at + p.len()) =~= parts[i].subrange(k, k + p.len()));
            assert(text::occurs_at(whole, p, at));
        } else {
            lemma_contained_in_join(parts.drop_last(), i, p, sep);
            let k = choose|k: int| text::occurs_at(before, p, k);
            assert(whole.subrange(k, k + p.len()) =~= before.subrange(k, k + p.len()));
            assert(text::occurs_at(whole, p, k));
        }
    }
}

/// The choice of parameters is without effect on a board that the driver lists
/// for a thermal path of its own, the OMEN one before the Victus one.
pub proof fn law_a_listed_thermal_path_makes_the_choice_inert(source: Seq<char>, board: Seq<char>)
    ensures
        effect_on(source, board) == ParamsEffect::InertOmenPath <==> patch::lists(
            source,
            BoardTable::OmenThermalProfile,
            board,
        ) == Ok::<bool, patch::PatchErrorView>(true),
        effect_on(source, board) == ParamsEffect::DecidesReadback <==> patch::lists(
            source,
            BoardTable::OmenThermalProfile,
            board,
        ) != Ok::<bool, patch::PatchErrorView>(true) && patch::lists(
            source,
            BoardTable::VictusThermalProfile,
            board,
        ) != Ok::<bool, patch::PatchErrorView>(true),
{
}

/// An OMEN whose choice counts is given the parameters that read where its
/// controller holds the profile, 0x95 or 0x59, and those that read nowhere where
/// it holds none or was not read. Every other board keeps its family's.
pub proof fn law_parameters_fit_what_was_measured(
    default_params: BoardParams,
    effect: ParamsEffect,
    probed: EcView,
    family: Family,
)
    ensures
        probed.offset_in_use() == Some(0x95u64) ==> chosen_params(
            Family::Omen,
            default_params,
            ParamsEffect::DecidesReadback,
            probed,
        ).0 == BoardParams::OmenV1Legacy,
        probed.offset_in_use() == Some(0x59u64) ==> chosen_params(
            Family::Omen,
            default_params,
            ParamsEffect::DecidesReadback,
            probed,
        ).0 == BoardParams::OmenV1,
        probed.offset_in_use() is None ==> chosen_params(
            Family::Omen,
            default_params,
            ParamsEffect::DecidesReadback,
            probed,
        ).0 == BoardParams::OmenV1NoEc,
        effect != ParamsEffect::DecidesReadback || family != Family::Omen ==> chosen_params(
            family,
            default_params,
            effect,
            probed,
        ).0 == default_params,
{
}

/// What is added to the driver: a board with a name, of a known family, that the
/// driver's sources are there for and do not list. It gets its family's
/// parameters or the measured ones, and both are told.
pub proof fn law_an_unlisted_board_is_added(
    board: Seq<char>,
    family: Family,
    source: Seq<char>,
    probed: EcView,
)
    requires
        !listed(source, BoardTable::Features(BoardParams::VictusS), board),
        family == Family::Omen || family == Family::Victus,
    ensures
        ({
            let d = decided(Some(board), family, Some(source), probed);
            &&& !d.known
            &&& d.board == Some(board)
            &&& d.effect == effect_on(source, board)
            &&& d.notes.len() == 2
            &&& d.notes[0].key == "installer.auto.boardNew"@
            &&& d.notes[0].params[0] == ("board"@, board)
            &&& family == Family::Victus ==> d.table == Some(
                BoardTable::Features(BoardParams::VictusS),
            )
            &&& family == Family::Omen && d.effect != ParamsEffect::DecidesReadback ==> d.table
                == Some(BoardTable::Features(BoardParams::OmenV1NoEc))
            &&& family == Family::Omen && d.effect == ParamsEffect::DecidesReadback
                && probed.offset_in_use() == Some(0x95u64) ==> d.table == Some(
                BoardTable::Features(BoardParams::OmenV1Legacy),
            )
            &&& family == Family::Omen && d.effect == ParamsEffect::DecidesReadback
                && probed.offset_in_use() == Some(0x59u64) ==> d.table == Some(
                BoardTable::Features(BoardParams::OmenV1),
            )
        }),
{
}

/// Nothing is added where the board is nameless, the sources are missing, the
/// board is listed or its family is not known, and each is told.
pub proof fn law_why_no_board_is_added(
    board: Seq<char>,
    family: Family,
    source: Seq<char>,
    probed: EcView,
)
    ensures
        decided(None, family, Some(source), probed).board is None && decided(
            None,
            family,
            Some(source),
            probed,
        ).notes[0].key == "installer.auto.noBoardId"@,
        decided(Some(board), family, None, probed).board is None && decided(
            Some(board),
            family,
            None,
            probed,
        ).notes[0].key == "installer.auto.noDriverSource"@,
        listed(source, BoardTable::Features(BoardParams::VictusS), board) ==> {
            let d = decided(Some(board), family, Some(source), probed);
            d.known && d.board is None && d.table is None && d.notes[0].key
                == "installer.auto.boardKnown"@
        },
        !listed(source, BoardTable::Features(BoardParams::VictusS), board) ==> {
            let d = decided(Some(board), Family::Unknown, Some(source), probed);
            !d.known && d.board is None && d.table is None && d.notes[0].key
                == "installer.auto.unknownFamily"@
        },
{
}

/// The ceilings that were measured are told, each for its own fan.
pub proof fn law_measured_ceilings_are_told(cpu: u32, gpu: u32)
    ensures
        note_rpm(MaxRpm { cpu: Some(cpu), gpu: Some(gpu) }, RpmSource::Calibrated).params == seq![
            ("cpu"@, number::decimal(cpu as nat) + " rpm"@),
            ("gpu"@, number::decimal(gpu as nat) + " rpm"@),
        ],
        note_rpm(MaxRpm { cpu: None, gpu: Some(gpu) }, RpmSource::Calibrated).params == seq![
            ("cpu"@, "not measured"@),
            ("gpu"@, number::decimal(gpu as nat) + " rpm"@),
        ],
        note_rpm(MaxRpm { cpu: None, gpu: None }, RpmSource::DriverFallback).key
            == "installer.auto.rpmNotCalibrated"@,
{
}

/// A measured ceiling counts where it is positive, for its own fan; there is a
/// calibration where one of the two counts.
pub proof fn law_positive_ceilings_count(
    fan1: Option<i64>,
    fan2: Option<i64>,
    r: (MaxRpm, RpmSource),
    n: i64,
)
    requires
        call_ensures(calibrated_max_rpm, (fan1, fan2), r),
    ensures
        fan1 == Some(n) && 0 < n <= 0xffff_ffff ==> r.0.cpu == Some(n as u32) && r.1
            == RpmSource::Calibrated,
        fan2 == Some(n) && 0 < n <= 0xffff_ffff ==> r.0.gpu == Some(n as u32) && r.1
            == RpmSource::Calibrated,
        fan1 is None || fan1->0 <= 0 ==> r.0.cpu is None,
        fan2 is None || fan2->0 <= 0 ==> r.0.gpu is None,
        (fan1 is None || fan1->0 <= 0) && (fan2 is None || fan2->0 <= 0) ==> r.1
            == RpmSource::DriverFallback,
{
}

/// What was found is told: the machine, its family, the controller and the
/// ceilings as they are, the ceilings' note last.
pub proof fn law_what_was_found_is_told(
    dmi: Dmi,
    source: Option<&str>,
    max_rpm: MaxRpm,
    rpm_source: RpmSource,
    ec: EcProbe,
    r: Autodetected,
)
    requires
        call_ensures(decide, (dmi, source, max_rpm, rpm_source, ec), r),
    ensures
        r.dmi == dmi,
        r.ec == ec,
        r.cpu_max_rpm == max_rpm.cpu,
        r.gpu_max_rpm == max_rpm.gpu,
        r.rpm_source == rpm_source,
        dmi.board_name is None || source is None ==> r.experimental_board is None && r.board_table
            is None && !r.board_known,
        r.notes@.len() >= 2,
        r.notes@.last()@ == note_rpm(max_rpm, rpm_source),
        r.experimental_board is Some ==> text::opt_view(r.experimental_board) == text::opt_view(
            dmi.board_name,
        ),
{
    let said = msg::says(r.notes@);
    assert(said.last() == note_rpm(max_rpm, rpm_source));
}

/// Each message has a key of its own, names what it is about, and says so in these
/// words.
pub proof fn law_messages_have_keys_and_words(
    effect: ParamsEffect,
    board: Seq<char>,
    params: BoardParams,
)
    ensures
        ({
            let m = why_inert(effect);
            &&& m.key == "installer.auto.paramsInert"@
            &&& m.params.len() == 1
            &&& m.params[0].0 == "table"@
            &&& m.text == msg::fill("This choice does not affect this board. It is already in the driver's {table}, so the driver takes that thermal-profile path and never reads the variant's own EC offset - and all four variants share one fan profile, so none of them changes fan control either."@, m.params)
        }),
        ({
            let m = why_victus();
            &&& m.key == "installer.auto.paramsVictus"@
            &&& m.params.len() == 0
            &&& m.text == msg::fill("Victus boards have one parameter set in this driver, and upstream marks its EC offset unknown - so the thermal profile is remembered rather than read back. Nothing to measure."@, m.params)
        }),
        ({
            let m = why_measured_omen();
            &&& m.key == "installer.auto.paramsMeasuredOmen"@
            &&& m.params.len() == 0
            &&& m.text == msg::fill("Measured, not guessed: EC offset 0x95 is holding a value the OMEN thermal profile uses, so that is where this board keeps it. omen_v1_legacy is the variant that reads there."@, m.params)
        }),
        ({
            let m = why_measured_victus_s();
            &&& m.key == "installer.auto.paramsMeasuredVictusS"@
            &&& m.params.len() == 0
            &&& m.text == msg::fill("Measured, not guessed: EC offset 0x59 is holding a value the OMEN thermal profile uses, so that is where this board keeps it. omen_v1 is the variant that reads there."@, m.params)
        }),
        ({
            let m = why_no_offset();
            &&& m.key == "installer.auto.paramsNoOffset"@
            &&& m.params.len() == 0
            &&& m.text == msg::fill("The embedded controller was read and holds a thermal profile at neither offset the driver knows, so this board keeps it somewhere else. omen_v1_no_ec is the variant that reads none - which is the right answer here, not a fallback: the driver remembers the profile it set instead."@, m.params)
        }),
        ({
            let m = why_unmeasured();
            &&& m.key == "installer.auto.paramsUnmeasured"@
            &&& m.params.len() == 0
            &&& m.text == msg::fill("The embedded controller could not be read, so which EC offset holds the thermal profile is unknown. omen_v1_no_ec reads none of them, which is the safe half of that choice - the driver remembers the profile it set. Only the readback is affected; setting a profile goes over WMI either way."@, m.params)
        }),
        ({
            let m = note_no_board_id();
            &&& m.key == "installer.auto.noBoardId"@
            &&& m.params.len() == 0
            &&& m.text == msg::fill("This machine's firmware does not publish a DMI board name, so no board can be added to the driver's tables."@, m.params)
        }),
        ({
            let m = note_no_driver_source(board);
            &&& m.key == "installer.auto.noDriverSource"@
            &&& m.params.len() == 1
            &&& m.params[0].0 == "board"@
            &&& m.text == msg::fill("Board {board} was found, but without the driver sources there is no way to tell whether the driver already lists it."@, m.params)
        }),
        ({
            let m = note_board_known(board);
            &&& m.key == "installer.auto.boardKnown"@
            &&& m.params.len() == 1
            &&& m.params[0].0 == "board"@
            &&& m.text == msg::fill("Board {board} is already in the driver's feature table, so no board patch is needed."@, m.params)
        }),
        ({
            let m = note_board_new(board, params);
            &&& m.key == "installer.auto.boardNew"@
            &&& m.params.len() == 2
            &&& m.params[0].0 == "board"@
            &&& m.params[1].0 == "params"@
            &&& m.text == msg::fill("Board {board} is not in the driver's feature table; it will be added with the {params} parameters."@, m.params)
        }),
        ({
            let m = note_unknown_family(board);
            &&& m.key == "installer.auto.unknownFamily"@
            &&& m.params.len() == 1
            &&& m.params[0].0 == "board"@
            &&& m.text == msg::fill("Board {board} is not in the driver's tables, and this machine does not identify itself as an OMEN or a Victus, so which parameters it wants cannot be guessed. Choose them by hand below."@, m.params)
        }),
{
}

/// A board that is added is told with the parameters it gets, by their short name.
pub proof fn law_added_parameters_are_named(board: Seq<char>)
    ensures
        note_board_new(board, BoardParams::VictusS).params == seq![
            ("board"@, board),
            ("params"@, "victus_s"@),
        ],
        note_board_new(board, BoardParams::OmenV1).params == seq![
            ("board"@, board),
            ("params"@, "omen_v1"@),
        ],
        note_board_new(board, BoardParams::OmenV1Legacy).params == seq![
            ("board"@, board),
            ("params"@, "omen_v1_legacy"@),
        ],
        note_board_new(board, BoardParams::OmenV1NoEc).params == seq![
            ("board"@, board),
            ("params"@, "omen_v1_no_ec"@),
        ],
        why_inert(ParamsEffect::InertOmenPath).params == seq![
            ("table"@, "omen_thermal_profile_boards"@),
        ],
        why_inert(ParamsEffect::InertVictusPath).params == seq![
            ("table"@, "victus_thermal_profile_boards"@),
        ],
{
}

} // verus!
