//! Mains and battery.
use vstd::prelude::*;
use vstd::string::*;

use crate::text;

verus! {

/// One power supply as the kernel shows it: each attribute's text, trimmed, and
/// nothing where it cannot be read or is empty. The capacity is in millionths
/// of a percent.
#[derive(Debug, Clone)]
pub struct SupplyEntry {
    pub kind: Option<String>,
    pub scope: Option<String>,
    pub online: Option<String>,
    pub capacity: Option<i64>,
    pub status: Option<String>,
}

/// What the machine runs on.
#[derive(Debug, Clone)]
pub struct PowerSupplyState {
    /// Nothing on a machine with no battery at all, which is not the same as
    /// running on one.
    pub on_battery: Option<bool>,
    pub battery_percent: Option<i64>,
    pub battery_status: Option<String>,
    pub has_battery: bool,
}

#[verifier::ext_equal]
pub struct SupplyView {
    pub on_battery: Option<bool>,
    pub battery_percent: Option<i64>,
    pub battery_status: Option<Seq<char>>,
    pub has_battery: bool,
}

impl View for PowerSupplyState {
    type V = SupplyView;

    open spec fn view(&self) -> SupplyView {
        SupplyView {
            on_battery: self.on_battery,
            battery_percent: self.battery_percent,
            battery_status: text::opt_view(self.battery_status),
            has_battery: self.has_battery,
        }
    }
}

/// A mouse, a keyboard or a headset: not the machine's own.
pub open spec fn is_peripheral(e: SupplyEntry) -> bool {
    text::opt_view(e.scope) == Some("Device"@)
}

pub open spec fn is_mains(e: SupplyEntry) -> bool {
    !is_peripheral(e) && e.kind is Some && ((e.kind->0)@ == "Mains"@ || (e.kind->0)@ == "USB"@ || (
    e.kind->0)@ == "USB_PD_DRP"@)
}

pub open spec fn is_battery(e: SupplyEntry) -> bool {
    !is_peripheral(e) && e.kind is Some && (e.kind->0)@ == "Battery"@
}

pub open spec fn is_online(e: SupplyEntry) -> bool {
    text::opt_view(e.online) == Some("1"@)
}

/// The capacity of the first battery that tells one.
pub open spec fn first_capacity(entries: Seq<SupplyEntry>) -> Option<i64>
    decreases entries.len(),
{
    if entries.len() == 0 {
        None
    } else {
        let before = first_capacity(entries.drop_last());
        if before is None && is_battery(entries.last()) {
            entries.last().capacity
        } else {
            before
        }
    }
}

pub open spec fn first_status(entries: Seq<SupplyEntry>) -> Option<Seq<char>>
    decreases entries.len(),
{
    if entries.len() == 0 {
        None
    } else {
        let before = first_status(entries.drop_last());
        if before is None && is_battery(entries.last()) {
            text::opt_view(entries.last().status)
        } else {
            before
        }
    }
}

pub open spec fn any_battery(entries: Seq<SupplyEntry>) -> bool {
    exists|i: int| 0 <= i < entries.len() && #[trigger] is_battery(entries[i])
}

pub open spec fn any_mains(entries: Seq<SupplyEntry>) -> bool {
    exists|i: int| 0 <= i < entries.len() && #[trigger] is_mains(entries[i])
}

pub open spec fn any_online(entries: Seq<SupplyEntry>) -> bool {
    exists|i: int|
        0 <= i < entries.len() && #[trigger] is_mains(entries[i]) && is_online(entries[i])
}

/// What the machine runs on: mains where any adapter is online, and with no
/// adapter to ask, by the battery's own word.
pub open spec fn supply(entries: Seq<SupplyEntry>) -> SupplyView {
    SupplyView {
        on_battery: if !any_battery(entries) {
            None
        } else if any_mains(entries) {
            Some(!any_online(entries))
        } else {
            match first_status(entries) {
                Some(s) => Some(s == "Discharging"@),
                None => None,
            }
        },
        battery_percent: first_capacity(entries),
        battery_status: first_status(entries),
        has_battery: any_battery(entries),
    }
}

fn is_text(s: &Option<String>, wanted: &str) -> (r: bool)
    ensures
        r == (text::opt_view(*s) == Some(wanted@)),
{
    match s {
        Some(s) => text::same(s.as_str(), wanted),
        None => false,
    }
}

impl PowerSupplyState {
    /// What the machine runs on, by the power supplies it lists.
    pub fn read(entries: &Vec<SupplyEntry>) -> (r: PowerSupplyState)
        ensures
            r@ == supply(entries@),
    {
        let n: usize = entries.len();
        let mut mains_online: Option<bool> = None;
        let mut battery_percent: Option<i64> = None;
        let mut battery_status: Option<String> = None;
        let mut has_battery = false;
        let mut i: usize = 0;
        proof {
            assert(entries@.take(0) =~= seq![]);
        }
        while i < n
            invariant
                n == entries@.len(),
                i <= n,
                battery_percent == first_capacity(entries@.take(i as int)),
                text::opt_view(battery_status) == first_status(entries@.take(i as int)),
                has_battery == exists|k: int| 0 <= k < i && #[trigger] is_battery(entries@[k]),
                mains_online is Some == exists|k: int|
                    0 <= k < i && #[trigger] is_mains(entries@[k]),
                mains_online is Some ==> (mains_online->0 == exists|k: int|
                    0 <= k < i && #[trigger] is_mains(entries@[k]) && is_online(entries@[k])),
            decreases n - i,
        {
            proof {
                assert(entries@.take(i + 1).drop_last() =~= entries@.take(i as int));
                assert(entries@.take(i + 1).last() == entries@[i as int]);
            }
            let e = &entries[i];
            if !is_text(&e.scope, "Device") {
                if is_text(&e.kind, "Battery") {
                    proof {
                        reveal_strlit("Battery");
                        reveal_strlit("Mains");
                        reveal_strlit("USB");
                        reveal_strlit("USB_PD_DRP");
                        assert("Battery"@.len() == 7);
                        assert("Mains"@.len() == 5);
                        assert("USB"@.len() == 3);
                        assert("USB_PD_DRP"@.len() == 10);
                        assert(is_battery(entries@[i as int]));
                        assert(!is_mains(entries@[i as int]));
                    }
                    has_battery = true;
                    if battery_percent.is_none() {
                        battery_percent = e.capacity;
                    }
                    if battery_status.is_none() {
                        battery_status = match &e.status {
                            Some(s) => Some(s.clone()),
                            None => None,
                        };
                    }
                } else if is_text(&e.kind, "Mains") || is_text(&e.kind, "USB") || is_text(
                    &e.kind,
                    "USB_PD_DRP",
                ) {
                    let online = is_text(&e.online, "1");
                    proof {
                        assert(is_mains(entries@[i as int]));
                        assert(online == is_online(entries@[i as int]));
                    }
                    let before = match mains_online {
                        Some(b) => b,
                        None => false,
                    };
                    mains_online = Some(before || online);
                }
            }
            i = i + 1;
        }
        proof {
            assert(entries@.take(n as int) =~= entries@);
        }
        let on_battery = if !has_battery {
            None
        } else {
            match mains_online {
                Some(online) => Some(!online),
                None => match &battery_status {
                    Some(s) => Some(text::same(s.as_str(), "Discharging")),
                    None => None,
                },
            }
        };
        PowerSupplyState { on_battery, battery_percent, battery_status, has_battery }
    }
}

// --- laws ----------------------------------------------------------------

/// A peripheral's battery says nothing about the machine: a list with one more
/// of them reads the same.
pub proof fn law_peripherals_do_not_count(entries: Seq<SupplyEntry>, peripheral: SupplyEntry)
    requires
        is_peripheral(peripheral),
    ensures
        supply(entries.push(peripheral)) == supply(entries),
{
    let more = entries.push(peripheral);
    assert(more.drop_last() =~= entries);
    assert(any_battery(more) == any_battery(entries)) by {
        if any_battery(entries) {
            let i = choose|i: int| 0 <= i < entries.len() && #[trigger] is_battery(entries[i]);
            assert(is_battery(more[i]));
        }
        if any_battery(more) {
            let i = choose|i: int| 0 <= i < more.len() && #[trigger] is_battery(more[i]);
            assert(is_battery(entries[i]));
        }
    }
    assert(any_mains(more) == any_mains(entries)) by {
        if any_mains(entries) {
            let i = choose|i: int| 0 <= i < entries.len() && #[trigger] is_mains(entries[i]);
            assert(is_mains(more[i]));
        }
        if any_mains(more) {
            let i = choose|i: int| 0 <= i < more.len() && #[trigger] is_mains(more[i]);
            assert(is_mains(entries[i]));
        }
    }
    assert(any_online(more) == any_online(entries)) by {
        if any_online(entries) {
            let i = choose|i: int|
                0 <= i < entries.len() && #[trigger] is_mains(entries[i]) && is_online(entries[i]);
            assert(is_mains(more[i]) && is_online(more[i]));
        }
        if any_online(more) {
            let i = choose|i: int|
                0 <= i < more.len() && #[trigger] is_mains(more[i]) && is_online(more[i]);
            assert(is_mains(entries[i]) && is_online(entries[i]));
        }
    }
}

/// A machine with no battery of its own is never on battery.
pub proof fn law_no_battery_is_not_on_battery(entries: Seq<SupplyEntry>)
    requires
        !any_battery(entries),
    ensures
        supply(entries).on_battery is None,
{
}

/// On a machine with a battery of its own, one adapter that is online means
/// mains, whatever the others say: a barrel plug, a USB charger or a USB-C port
/// that can go both ways.
pub proof fn law_one_online_adapter_is_mains(entries: Seq<SupplyEntry>, battery: int, i: int)
    requires
        0 <= battery < entries.len(),
        text::opt_view(entries[battery].kind) == Some("Battery"@),
        text::opt_view(entries[battery].scope) != Some("Device"@),
        0 <= i < entries.len(),
        text::opt_view(entries[i].kind) == Some("Mains"@) || text::opt_view(entries[i].kind)
            == Some("USB"@) || text::opt_view(entries[i].kind) == Some("USB_PD_DRP"@),
        text::opt_view(entries[i].scope) != Some("Device"@),
    ensures
        text::opt_view(entries[i].online) == Some("1"@) ==> supply(entries).on_battery == Some(
            false,
        ),
        (forall|j: int|
            0 <= j < entries.len() ==> text::opt_view((#[trigger] entries[j]).online) != Some(
                "1"@,
            )) ==> supply(entries).on_battery == Some(true),
        supply(entries).on_battery is Some,
{
    assert(is_battery(entries[battery]));
    assert(is_mains(entries[i]));
    if text::opt_view(entries[i].online) == Some("1"@) {
        assert(is_mains(entries[i]) && is_online(entries[i]));
    }
}

/// What is online and no adapter does not count as one, nor does a peripheral's
/// charger.
pub proof fn law_only_adapters_can_be_mains(entries: Seq<SupplyEntry>, battery: int, i: int)
    requires
        0 <= battery < entries.len(),
        text::opt_view(entries[battery].kind) == Some("Battery"@),
        text::opt_view(entries[battery].scope) != Some("Device"@),
        0 <= i < entries.len(),
        text::opt_view(entries[i].kind) == Some("Mains"@) || text::opt_view(entries[i].kind)
            == Some("USB"@) || text::opt_view(entries[i].kind) == Some("USB_PD_DRP"@),
        text::opt_view(entries[i].scope) != Some("Device"@),
        forall|j: int|
            0 <= j < entries.len() && text::opt_view((#[trigger] entries[j]).online) == Some("1"@)
                ==> text::opt_view(entries[j].scope) == Some("Device"@) || (text::opt_view(
                entries[j].kind,
            ) != Some("Mains"@) && text::opt_view(entries[j].kind) != Some("USB"@)
                && text::opt_view(entries[j].kind) != Some("USB_PD_DRP"@)),
    ensures
        supply(entries).on_battery == Some(true),
{
    assert(is_battery(entries[battery]));
    assert(is_mains(entries[i]));
    if any_online(entries) {
        let j = choose|j: int|
            0 <= j < entries.len() && #[trigger] is_mains(entries[j]) && is_online(entries[j]);
        assert(text::opt_view(entries[j].online) == Some("1"@));
    }
}

/// With no adapter to ask, it is the battery's own word that counts: the
/// machine is on battery exactly where that is discharging, and nothing is known
/// where no battery says anything.
pub proof fn law_without_an_adapter_the_battery_is_asked(entries: Seq<SupplyEntry>, battery: int)
    requires
        0 <= battery < entries.len(),
        text::opt_view(entries[battery].kind) == Some("Battery"@),
        text::opt_view(entries[battery].scope) != Some("Device"@),
        forall|j: int|
            0 <= j < entries.len() ==> text::opt_view((#[trigger] entries[j]).scope) == Some(
                "Device"@,
            ) || (text::opt_view(entries[j].kind) != Some("Mains"@) && text::opt_view(
                entries[j].kind,
            ) != Some("USB"@) && text::opt_view(entries[j].kind) != Some("USB_PD_DRP"@)),
    ensures
        supply(entries).on_battery == (match supply(entries).battery_status {
            Some(status) => Some(status == "Discharging"@),
            None => None,
        }),
{
    assert(is_battery(entries[battery]));
    if any_mains(entries) {
        let j = choose|j: int| 0 <= j < entries.len() && #[trigger] is_mains(entries[j]);
        assert(text::opt_view(entries[j].scope) != Some("Device"@));
    }
}

/// The charge and the status are those of the first of the machine's own
/// batteries that tells them, and nothing where none does.
pub proof fn law_the_first_battery_that_tells_is_heard(entries: Seq<SupplyEntry>, i: int)
    requires
        0 <= i < entries.len(),
        text::opt_view(entries[i].kind) == Some("Battery"@),
        text::opt_view(entries[i].scope) != Some("Device"@),
    ensures
        supply(entries).has_battery,
        entries[i].capacity is Some && (forall|j: int|
            0 <= j < i && text::opt_view((#[trigger] entries[j]).kind) == Some("Battery"@)
                && text::opt_view(entries[j].scope) != Some("Device"@) ==> entries[j].capacity is
                None) ==> supply(entries).battery_percent == entries[i].capacity,
        entries[i].status is Some && (forall|j: int|
            0 <= j < i && text::opt_view((#[trigger] entries[j]).kind) == Some("Battery"@)
                && text::opt_view(entries[j].scope) != Some("Device"@) ==> entries[j].status is
                None) ==> supply(entries).battery_status == text::opt_view(entries[i].status),
    decreases entries.len(),
{
    assert(is_battery(entries[i]));
    let rest = entries.drop_last();
    if i < entries.len() - 1 {
        assert(forall|k: int| 0 <= k < rest.len() ==> rest[k] == #[trigger] entries[k]);
        law_the_first_battery_that_tells_is_heard(rest, i);
    } else {
        if forall|j: int|
            0 <= j < i && text::opt_view((#[trigger] entries[j]).kind) == Some("Battery"@)
                && text::opt_view(entries[j].scope) != Some("Device"@) ==> entries[j].capacity is
                None {
            lemma_no_battery_tells_its_charge(rest);
        }
        if forall|j: int|
            0 <= j < i && text::opt_view((#[trigger] entries[j]).kind) == Some("Battery"@)
                && text::opt_view(entries[j].scope) != Some("Device"@) ==> entries[j].status is
                None {
            lemma_no_battery_tells_its_status(rest);
        }
    }
}

proof fn lemma_no_battery_tells_its_charge(entries: Seq<SupplyEntry>)
    requires
        forall|j: int|
            0 <= j < entries.len() && is_battery(#[trigger] entries[j]) ==> entries[j].capacity is
                None,
    ensures
        first_capacity(entries) is None,
    decreases entries.len(),
{
    if entries.len() > 0 {
        let rest = entries.drop_last();
        assert(forall|k: int| 0 <= k < rest.len() ==> rest[k] == #[trigger] entries[k]);
        assert forall|j: int| 0 <= j < rest.len() && is_battery(#[trigger] rest[j]) implies rest[j].capacity is
            None by {
            assert(is_battery(entries[j]));
        }
        lemma_no_battery_tells_its_charge(rest);
        assert(entries.last() == entries[entries.len() - 1]);
    }
}

proof fn lemma_no_battery_tells_its_status(entries: Seq<SupplyEntry>)
    requires
        forall|j: int|
            0 <= j < entries.len() && is_battery(#[trigger] entries[j]) ==> entries[j].status is
                None,
    ensures
        first_status(entries) is None,
    decreases entries.len(),
{
    if entries.len() > 0 {
        let rest = entries.drop_last();
        assert(forall|k: int| 0 <= k < rest.len() ==> rest[k] == #[trigger] entries[k]);
        assert forall|j: int| 0 <= j < rest.len() && is_battery(#[trigger] rest[j]) implies rest[j].status is
            None by {
            assert(is_battery(entries[j]));
        }
        lemma_no_battery_tells_its_status(rest);
        assert(entries.last() == entries[entries.len() - 1]);
    }
}

/// A machine whose list holds no battery of its own has none, is never on
/// battery, and nothing is said of a charge or a status.
pub proof fn law_no_battery_nothing_to_say(entries: Seq<SupplyEntry>)
    requires
        forall|j: int|
            0 <= j < entries.len() ==> text::opt_view((#[trigger] entries[j]).kind) != Some(
                "Battery"@,
            ) || text::opt_view(entries[j].scope) == Some("Device"@),
    ensures
        !supply(entries).has_battery,
        supply(entries).on_battery is None,
        supply(entries).battery_percent is None,
        supply(entries).battery_status is None,
{
    if any_battery(entries) {
        let j = choose|j: int| 0 <= j < entries.len() && #[trigger] is_battery(entries[j]);
        assert(text::opt_view(entries[j].kind) == Some("Battery"@));
    }
    lemma_no_battery_tells_its_charge(entries);
    lemma_no_battery_tells_its_status(entries);
}

} // verus!
