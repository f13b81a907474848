//! What the embedded controller says about where this board keeps its thermal
//! profile.
use vstd::prelude::*;
use vstd::string::*;

use crate::text;

verus! {

/// The register window of the embedded controller, one byte per address.
pub const EC_IO: &'static str = "/sys/kernel/debug/ec/ec0/io";

/// The offsets the driver's two code paths read a thermal profile from.
pub const VICTUS_S_THERMAL_OFFSET: u64 = 0x59;

pub const OMEN_THERMAL_OFFSET: u64 = 0x95;

/// Why the embedded controller could not be read, or what it said.
#[derive(Debug, Clone, PartialEq, Eq)]
pub enum EcProbe {
    /// Both candidate offsets, as the controller currently holds them.
    Read { victus_s: u8, omen: u8 },
    /// `ec_sys` is not loaded and loading it was not asked for.
    ModuleNotLoaded,
    /// Loading `ec_sys` was tried and failed.
    Unavailable { reason: String },
    /// The node exists but could not be read.
    NotPermitted,
    /// Not asked for.
    NotProbed,
}

#[verifier::ext_equal]
pub enum EcView {
    Read(u8, u8),
    ModuleNotLoaded,
    Unavailable(Seq<char>),
    NotPermitted,
    NotProbed,
}

impl View for EcProbe {
    type V = EcView;

    open spec fn view(&self) -> EcView {
        match self {
            EcProbe::Read { victus_s, omen } => EcView::Read(*victus_s, *omen),
            EcProbe::ModuleNotLoaded => EcView::ModuleNotLoaded,
            EcProbe::Unavailable { reason } => EcView::Unavailable(reason@),
            EcProbe::NotPermitted => EcView::NotPermitted,
            EcProbe::NotProbed => EcView::NotProbed,
        }
    }
}

/// How loading `ec_sys` went.
#[derive(Debug, Clone)]
pub enum Loading {
    Loaded,
    /// It ran and failed, with what it printed.
    Refused(String),
    /// It could not be run.
    NotRun(String),
}

/// A byte the OMEN profile can be: default, performance or cool. Any other
/// byte is not a thermal profile.
pub open spec fn is_omen_profile(byte: u8) -> bool {
    byte == 0x30 || byte == 0x31 || byte == 0x50
}

fn omen_profile(byte: u8) -> (r: bool)
    ensures
        r == is_omen_profile(byte),
{
    byte == 0x30 || byte == 0x31 || byte == 0x50
}

impl EcView {
    /// The offset that holds something the OMEN path would recognise. The
    /// classic OMEN offset comes first where both do.
    pub open spec fn offset_in_use(self) -> Option<u64> {
        match self {
            EcView::Read(victus_s, omen) => if is_omen_profile(omen) {
                Some(OMEN_THERMAL_OFFSET)
            } else if is_omen_profile(victus_s) {
                Some(VICTUS_S_THERMAL_OFFSET)
            } else {
                None
            },
            _ => None,
        }
    }
}

/// Whether `ec_sys` has to be loaded before the controller can be asked.
pub fn must_load(node_present: bool, load_module: bool) -> (r: bool)
    ensures
        r == (!node_present && load_module),
{
    !node_present && load_module
}

impl EcProbe {
    /// What the probe found. `loading` and `present_after` say how loading
    /// `ec_sys` went and whether the node is there then, where it was loaded;
    /// the bytes are what the two offsets read as.
    pub fn detect(
        node_present: bool,
        load_module: bool,
        loading: &Loading,
        present_after: bool,
        victus_s: Option<u8>,
        omen: Option<u8>,
    ) -> (r: EcProbe)
        ensures
            r@ == (if !node_present && !load_module {
                EcView::ModuleNotLoaded
            } else if !node_present && loading is Refused {
                EcView::Unavailable(text::trim(loading->Refused_0@))
            } else if !node_present && loading is NotRun {
                EcView::Unavailable(loading->NotRun_0@)
            } else if !node_present && !present_after {
                EcView::Unavailable(EC_IO@ + " still absent after loading ec_sys"@)
            } else {
                match (victus_s, omen) {
                    (Some(v), Some(o)) => EcView::Read(v, o),
                    _ => EcView::NotPermitted,
                }
            }),
    {
        if !node_present {
            if !load_module {
                return EcProbe::ModuleNotLoaded;
            }
            match loading {
                Loading::Loaded => {},
                Loading::Refused(said) => {
                    return EcProbe::Unavailable { reason: text::trimmed_str(said.as_str()) };
                },
                Loading::NotRun(why) => {
                    return EcProbe::Unavailable { reason: why.clone() };
                },
            }
            if !present_after {
                return EcProbe::Unavailable {
                    reason: String::from_str(EC_IO).concat(" still absent after loading ec_sys"),
                };
            }
        }
        match (victus_s, omen) {
            (Some(victus_s), Some(omen)) => EcProbe::Read { victus_s, omen },
            _ => EcProbe::NotPermitted,
        }
    }

    pub fn omen_offset_in_use(&self) -> (r: Option<u64>)
        ensures
            r == self@.offset_in_use(),
    {
        match self {
            EcProbe::Read { victus_s, omen } => {
                if omen_profile(*omen) {
                    Some(OMEN_THERMAL_OFFSET)
                } else if omen_profile(*victus_s) {
                    Some(VICTUS_S_THERMAL_OFFSET)
                } else {
                    None
                }
            },
            _ => None,
        }
    }
}

/// A thermal profile in use is one of three values; the register of the OMEN
/// boards, 0x95, is believed before that of the Victus ones, 0x59. Without a
/// reading there is none.
pub proof fn law_the_profile_is_found_where_it_is_held(v: u8, o: u8)
    ensures
        o == 0x30 || o == 0x31 || o == 0x50 ==> EcView::Read(v, o).offset_in_use() == Some(0x95u64),
        o != 0x30 && o != 0x31 && o != 0x50 && (v == 0x30 || v == 0x31 || v == 0x50)
            ==> EcView::Read(v, o).offset_in_use() == Some(0x59u64),
        o != 0x30 && o != 0x31 && o != 0x50 && v != 0x30 && v != 0x31 && v != 0x50 ==> EcView::Read(
            v,
            o,
        ).offset_in_use() is None,
        EcView::NotPermitted.offset_in_use() is None,
        EcView::NotProbed.offset_in_use() is None,
        EcView::ModuleNotLoaded.offset_in_use() is None,
{
}

/// The controller is read where its file is there, or there after loading the
/// module that was allowed; both registers must be readable.
pub proof fn law_how_the_controller_is_read(
    present: bool,
    load: bool,
    loading: &Loading,
    after: bool,
    v: Option<u8>,
    o: Option<u8>,
    r: EcProbe,
)
    requires
        call_ensures(EcProbe::detect, (present, load, loading, after, v, o), r),
    ensures
        r@ is Read <==> v is Some && o is Some && (present || (load && loading is Loaded && after)),
        r@ matches EcView::Read(a, b) ==> v == Some(a) && o == Some(b),
        r@ is ModuleNotLoaded <==> !present && !load,
        !present && load && loading is Refused ==> (r@ matches EcView::Unavailable(why) && why
            == text::trim(loading->Refused_0@)),
        !present && load && loading is NotRun ==> (r@ matches EcView::Unavailable(why) && why
            == loading->NotRun_0@),
        present && (v is None || o is None) ==> r@ is NotPermitted,
{
}

} // verus!
