//! The four power modes.
use vstd::prelude::*;
use vstd::string::*;

use crate::text;

verus! {

#[derive(Debug, Clone, Copy, PartialEq, Eq, Structural)]
pub enum PowerMode {
    Eco,
    Balanced,
    Performance,
    Unlimited,
}

/// The modes from least to most, the order the performance key steps through.
pub open spec fn every_mode() -> Seq<PowerMode> {
    seq![PowerMode::Eco, PowerMode::Balanced, PowerMode::Performance, PowerMode::Unlimited]
}

/// The mode that follows in the loop.
pub open spec fn following(mode: PowerMode) -> PowerMode {
    every_mode()[(mode.rank() + 1) % 4]
}

pub open spec fn mode_named(value: Seq<char>) -> Option<PowerMode> {
    let name = text::ascii_lower(value);
    if name == "eco"@ {
        Some(PowerMode::Eco)
    } else if name == "balanced"@ {
        Some(PowerMode::Balanced)
    } else if name == "performance"@ {
        Some(PowerMode::Performance)
    } else if name == "unlimited"@ {
        Some(PowerMode::Unlimited)
    } else {
        None
    }
}

/// The mode a firmware profile or a power manager's profile belongs to.
pub open spec fn profile_mode(name: Seq<char>) -> Option<PowerMode> {
    if name == "low-power"@ || name == "quiet"@ || name == "cool"@ || name == "power-saver"@ {
        Some(PowerMode::Eco)
    } else if name == "balanced"@ {
        Some(PowerMode::Balanced)
    } else if name == "balanced-performance"@ || name == "performance"@ {
        Some(PowerMode::Performance)
    } else {
        None
    }
}

impl PowerMode {
    /// Position in the order, least to most.
    pub open spec fn rank(self) -> int {
        match self {
            PowerMode::Eco => 0,
            PowerMode::Balanced => 1,
            PowerMode::Performance => 2,
            PowerMode::Unlimited => 3,
        }
    }

    /// The name it goes out under.
    pub open spec fn name(self) -> Seq<char> {
        match self {
            PowerMode::Eco => "eco"@,
            PowerMode::Balanced => "balanced"@,
            PowerMode::Performance => "performance"@,
            PowerMode::Unlimited => "unlimited"@,
        }
    }

    /// The name it has in a report.
    pub open spec fn label(self) -> Seq<char> {
        match self {
            PowerMode::Eco => "Eco"@,
            PowerMode::Balanced => "Balanced"@,
            PowerMode::Performance => "Performance"@,
            PowerMode::Unlimited => "Unlimited"@,
        }
    }

    pub fn all() -> (r: Vec<PowerMode>)
        ensures
            r@ == every_mode(),
    {
        let mut r: Vec<PowerMode> = Vec::new();
        r.push(PowerMode::Eco);
        r.push(PowerMode::Balanced);
        r.push(PowerMode::Performance);
        r.push(PowerMode::Unlimited);
        proof {
            assert(r@ =~= every_mode());
        }
        r
    }

    /// The next mode round the loop, wrapping back to Eco.
    pub fn next(self) -> (r: PowerMode)
        ensures
            r == following(self),
    {
        match self {
            PowerMode::Eco => PowerMode::Balanced,
            PowerMode::Balanced => PowerMode::Performance,
            PowerMode::Performance => PowerMode::Unlimited,
            PowerMode::Unlimited => PowerMode::Eco,
        }
    }

    pub fn parse(value: &str) -> (r: Option<PowerMode>)
        ensures
            r == mode_named(value@),
    {
        let name = text::ascii_lowered(value);
        if text::same(name.as_str(), "eco") {
            Some(PowerMode::Eco)
        } else if text::same(name.as_str(), "balanced") {
            Some(PowerMode::Balanced)
        } else if text::same(name.as_str(), "performance") {
            Some(PowerMode::Performance)
        } else if text::same(name.as_str(), "unlimited") {
            Some(PowerMode::Unlimited)
        } else {
            None
        }
    }

    pub fn as_str(self) -> (r: &'static str)
        ensures
            r@ == self.name(),
    {
        match self {
            PowerMode::Eco => "eco",
            PowerMode::Balanced => "balanced",
            PowerMode::Performance => "performance",
            PowerMode::Unlimited => "unlimited",
        }
    }

    pub fn as_label(self) -> (r: &'static str)
        ensures
            r@ == self.label(),
    {
        match self {
            PowerMode::Eco => "Eco",
            PowerMode::Balanced => "Balanced",
            PowerMode::Performance => "Performance",
            PowerMode::Unlimited => "Unlimited",
        }
    }

    /// How high in the order the mode stands.
    pub fn position(self) -> (r: usize)
        ensures
            r == self.rank(),
    {
        match self {
            PowerMode::Eco => 0,
            PowerMode::Balanced => 1,
            PowerMode::Performance => 2,
            PowerMode::Unlimited => 3,
        }
    }
}

pub fn mode_for_profile(name: &str) -> (r: Option<PowerMode>)
    ensures
        r == profile_mode(name@),
{
    if text::same(name, "low-power") || text::same(name, "quiet") || text::same(name, "cool")
        || text::same(name, "power-saver") {
        Some(PowerMode::Eco)
    } else if text::same(name, "balanced") {
        Some(PowerMode::Balanced)
    } else if text::same(name, "balanced-performance") || text::same(name, "performance") {
        Some(PowerMode::Performance)
    } else {
        None
    }
}

// --- laws ----------------------------------------------------------------

/// Four presses of the performance key come back to where they started, and no
/// fewer do: every mode is reached on the way.
pub proof fn law_four_presses_come_round(mode: PowerMode)
    ensures
        following(mode) != mode,
        following(following(mode)) != mode,
        following(following(following(mode))) != mode,
        following(following(following(following(mode)))) == mode,
{
}

/// A mode's name reads back as that mode, in any letter case.
pub proof fn law_mode_names_read_back(mode: PowerMode, value: Seq<char>)
    requires
        text::ascii_lower(value) == mode.name(),
    ensures
        mode_named(value) == Some(mode),
{
    reveal_strlit("eco");
    reveal_strlit("balanced");
    reveal_strlit("performance");
    reveal_strlit("unlimited");
    assert("eco"@.len() == 3);
    assert("balanced"@.len() == 8);
    assert("performance"@.len() == 11);
    assert("unlimited"@.len() == 9);
}

/// Every mode's own name is in lower case, so it reads back as it goes out.
pub proof fn law_the_wire_name_reads_back(mode: PowerMode)
    ensures
        mode_named(mode.name()) == Some(mode),
{
    reveal_strlit("eco");
    reveal_strlit("balanced");
    reveal_strlit("performance");
    reveal_strlit("unlimited");
    assert(text::ascii_lower(mode.name()) =~= mode.name());
}

/// The performance key goes from Eco over Balanced and Performance to Unlimited,
/// and from there back to Eco; the order of the modes is the same.
pub proof fn law_the_key_steps_from_least_to_most()
    ensures
        following(PowerMode::Eco) == PowerMode::Balanced,
        following(PowerMode::Balanced) == PowerMode::Performance,
        following(PowerMode::Performance) == PowerMode::Unlimited,
        following(PowerMode::Unlimited) == PowerMode::Eco,
        forall|m: PowerMode|
            m != PowerMode::Unlimited ==> (#[trigger] following(m)).rank() == m.rank() + 1,
        every_mode().len() == 4,
        forall|m: PowerMode| every_mode()[#[trigger] m.rank()] == m,
{
}

/// Each mode goes by one name and no other mode by the same, and a name that is
/// none of the four is no mode.
pub proof fn law_modes_have_names_of_their_own(a: PowerMode, value: Seq<char>)
    ensures
        PowerMode::Eco.name() == "eco"@,
        PowerMode::Balanced.name() == "balanced"@,
        PowerMode::Performance.name() == "performance"@,
        PowerMode::Unlimited.name() == "unlimited"@,
        mode_named(value) == Some(a) ==> text::ascii_lower(value) == a.name(),
        mode_named(value) is None ==> text::ascii_lower(value) != a.name(),
{
    reveal_strlit("eco");
    reveal_strlit("balanced");
    reveal_strlit("performance");
    reveal_strlit("unlimited");
    assert("eco"@.len() == 3);
    assert("balanced"@.len() == 8);
    assert("performance"@.len() == 11);
    assert("unlimited"@.len() == 9);
}

/// What each profile name stands for, and that no other name stands for a mode.
pub proof fn law_profiles_belong_to_modes(name: Seq<char>)
    ensures
        profile_mode(name) == Some(PowerMode::Eco) <==> (name == "low-power"@ || name == "quiet"@
            || name == "cool"@ || name == "power-saver"@),
        profile_mode(name) == Some(PowerMode::Balanced) <==> name == "balanced"@,
        profile_mode(name) == Some(PowerMode::Performance) <==> (name == "balanced-performance"@
            || name == "performance"@),
        profile_mode(name) != Some(PowerMode::Unlimited),
{
    reveal_strlit("low-power");
    reveal_strlit("quiet");
    reveal_strlit("cool");
    reveal_strlit("power-saver");
    reveal_strlit("balanced");
    reveal_strlit("balanced-performance");
    reveal_strlit("performance");
    assert("low-power"@.len() == 9);
    assert("quiet"@.len() == 5);
    assert("cool"@.len() == 4);
    assert("power-saver"@.len() == 11);
    assert("balanced"@.len() == 8);
    assert("balanced-performance"@.len() == 20);
    assert("performance"@.len() == 11);
    assert("power-saver"@[2] == 'w' && "performance"@[2] == 'r');
}

} // verus!
