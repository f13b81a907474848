//! Noticing when something else moves what was set.
//!
//! The firmware profile moving to another mode is followed, whoever moved it.
//! Anything else that was changed afterwards is reported and not written again.
use vstd::prelude::*;
use vstd::string::*;

use crate::number;
use crate::power::limits;
use crate::power::limits::Limits;
use crate::power::mode;
use crate::power::mode::PowerMode;
use crate::text;

verus! {

/// How often the machine is looked at, in milliseconds.
pub const INTERVAL_MS: u64 = 1_000;

/// A change this soon after the last write is another program undoing it.
pub const FIGHT_WINDOW_MS: u64 = 15_000;

/// The knobs that were written, as last read. Nothing means "not to be
/// watched": never written, refused, or not there.
#[derive(Debug, Clone)]
pub struct Knobs {
    pub platform_profile: Option<String>,
    pub energy_preference: Option<String>,
    pub turbo: Option<bool>,
    pub limits: Limits,
}

#[verifier::ext_equal]
pub struct KnobsView {
    pub platform_profile: Option<Seq<char>>,
    pub energy_preference: Option<Seq<char>>,
    pub turbo: Option<bool>,
    pub limits: Limits,
}

impl View for Knobs {
    type V = KnobsView;

    open spec fn view(&self) -> KnobsView {
        KnobsView {
            platform_profile: text::opt_view(self.platform_profile),
            energy_preference: text::opt_view(self.energy_preference),
            turbo: self.turbo,
            limits: self.limits,
        }
    }
}

pub open spec fn no_knobs() -> KnobsView {
    KnobsView {
        platform_profile: None,
        energy_preference: None,
        turbo: None,
        limits: limits::no_limits(),
    }
}

impl Default for Knobs {
    fn default() -> (r: Knobs)
        ensures
            r@ == no_knobs(),
    {
        Knobs {
            platform_profile: None,
            energy_preference: None,
            turbo: None,
            limits: Limits::default(),
        }
    }
}

pub fn copy_text(s: &Option<String>) -> (r: Option<String>)
    ensures
        text::opt_view(r) == text::opt_view(*s),
{
    match s {
        Some(s) => Some(s.clone()),
        None => None,
    }
}

impl Knobs {
    pub fn copy(&self) -> (r: Knobs)
        ensures
            r@ == self@,
    {
        Knobs {
            platform_profile: copy_text(&self.platform_profile),
            energy_preference: copy_text(&self.energy_preference),
            turbo: self.turbo,
            limits: self.limits,
        }
    }
}

/// Something that was set and has since been changed by another program.
#[derive(Debug, Clone, PartialEq, Eq)]
pub struct Override {
    pub knob: String,
    pub expected: String,
    pub found: String,
    /// Changed straight after it was set.
    pub reverted: bool,
}

#[verifier::ext_equal]
pub struct OverrideView {
    pub knob: Seq<char>,
    pub expected: Seq<char>,
    pub found: Seq<char>,
    pub reverted: bool,
}

impl View for Override {
    type V = OverrideView;

    open spec fn view(&self) -> OverrideView {
        OverrideView {
            knob: self.knob@,
            expected: self.expected@,
            found: self.found@,
            reverted: self.reverted,
        }
    }
}

pub open spec fn findings(v: Seq<Override>) -> Seq<OverrideView> {
    Seq::new(v.len(), |i: int| v[i]@)
}

impl Override {
    pub fn copy(&self) -> (r: Override)
        ensures
            r@ == self@,
    {
        Override {
            knob: self.knob.clone(),
            expected: self.expected.clone(),
            found: self.found.clone(),
            reverted: self.reverted,
        }
    }

    /// Whether two findings are the same in every respect.
    pub fn same_as(&self, other: &Override) -> (r: bool)
        ensures
            r == (self@ == other@),
    {
        text::same(self.knob.as_str(), other.knob.as_str()) && text::same(
            self.expected.as_str(),
            other.expected.as_str(),
        ) && text::same(self.found.as_str(), other.found.as_str()) && self.reverted
            == other.reverted
    }
}

/// What one look at the machine found.
#[derive(Debug, Clone, PartialEq, Eq)]
pub struct Examined {
    /// The firmware profile belongs to another mode now.
    pub adopt: Option<(PowerMode, String)>,
    /// The firmware profile has another name for the same mode.
    pub same_mode_profile: Option<String>,
    pub overrides: Vec<Override>,
}

#[verifier::ext_equal]
pub struct ExaminedView {
    pub adopt: Option<(PowerMode, Seq<char>)>,
    pub same_mode_profile: Option<Seq<char>>,
    pub overrides: Seq<OverrideView>,
}

impl View for Examined {
    type V = ExaminedView;

    open spec fn view(&self) -> ExaminedView {
        ExaminedView {
            adopt: match self.adopt {
                Some((mode, profile)) => Some((mode, profile@)),
                None => None,
            },
            same_mode_profile: text::opt_view(self.same_mode_profile),
            overrides: findings(self.overrides@),
        }
    }
}

/// Nothing to follow and nothing to report.
pub open spec fn nothing_found() -> ExaminedView {
    ExaminedView { adopt: None, same_mode_profile: None, overrides: seq![] }
}

/// Performance and Unlimited share every firmware profile.
pub open spec fn family(m: PowerMode) -> PowerMode {
    if m == PowerMode::Unlimited {
        PowerMode::Performance
    } else {
        m
    }
}

fn same_family(seen: PowerMode, m: PowerMode) -> (r: bool)
    ensures
        r == (family(seen) == family(m)),
{
    let a = if seen == PowerMode::Unlimited {
        PowerMode::Performance
    } else {
        seen
    };
    let b = if m == PowerMode::Unlimited {
        PowerMode::Performance
    } else {
        m
    };
    a == b
}

/// A limit as it is shown: whole watts, or with one decimal.
pub open spec fn watts_shown(uw: u64) -> Seq<char> {
    if uw % 1_000_000 == 0 {
        number::decimal((uw / 1_000_000) as nat) + " W"@
    } else {
        number::fixed_size(number::whole_double(uw as nat, 1), 10) + " W"@
    }
}

fn watts(uw: u64) -> (r: String)
    ensures
        r@ == watts_shown(uw),
{
    if uw % 1_000_000 == 0 {
        number::show(uw / 1_000_000).concat(" W")
    } else {
        number::show_fixed_size(number::to_double(uw as u128), 10).concat(" W")
    }
}

pub open spec fn or_unreadable(found: Option<Seq<char>>) -> Seq<char> {
    match found {
        Some(s) => s,
        None => "unreadable"@,
    }
}

/// The finding that a watched knob no longer reads what it did.
pub open spec fn changed(
    knob: Seq<char>,
    want: Option<Seq<char>>,
    now: Option<Seq<char>>,
    reverted: bool,
) -> Seq<OverrideView> {
    if want is None || now == want {
        seq![]
    } else {
        seq![OverrideView { knob, expected: want->0, found: or_unreadable(now), reverted }]
    }
}

/// The finding that a watched limit no longer reads what it did.
pub open spec fn limit_changed(
    knob: Seq<char>,
    want: Option<u64>,
    now: Option<u64>,
    reverted: bool,
) -> Seq<OverrideView> {
    if want is None || now == want {
        seq![]
    } else {
        seq![
            OverrideView {
                knob,
                expected: watts_shown(want->0),
                found: match now {
                    Some(uw) => watts_shown(uw),
                    None => "unreadable"@,
                },
                reverted,
            },
        ]
    }
}

pub open spec fn turbo_changed(
    want: Option<bool>,
    now: Option<bool>,
    reverted: bool,
) -> Seq<OverrideView> {
    if want is None || now == want {
        seq![]
    } else {
        seq![
            OverrideView {
                knob: "turbo"@,
                expected: limits::on_off(want->0),
                found: match now {
                    Some(on) => limits::on_off(on),
                    None => "unreadable"@,
                },
                reverted,
            },
        ]
    }
}

/// The firmware profile was known, can be read, and is another one now.
pub open spec fn profile_moved(expected: KnobsView, now: KnobsView) -> bool {
    expected.platform_profile is Some && now.platform_profile is Some && expected.platform_profile
        != now.platform_profile
}

/// What is reported of the firmware profile: a name that no mode has, and a
/// mode of its own only where it was moved straight after it was set.
pub open spec fn profile_finding(
    m: PowerMode,
    expected: KnobsView,
    now: KnobsView,
    reverted: bool,
) -> Seq<OverrideView> {
    if !profile_moved(expected, now) {
        seq![]
    } else {
        let finding = seq![
            OverrideView {
                knob: "platform_profile"@,
                expected: expected.platform_profile->0,
                found: now.platform_profile->0,
                reverted,
            },
        ];
        match mode::profile_mode(now.platform_profile->0) {
            None => finding,
            Some(other) => if family(other) != family(m) && reverted {
                finding
            } else {
                seq![]
            },
        }
    }
}

pub open spec fn examined(
    m: PowerMode,
    expected: KnobsView,
    now: KnobsView,
    since_ms: int,
) -> ExaminedView {
    let reverted = since_ms < FIGHT_WINDOW_MS;
    let other = if profile_moved(expected, now) {
        mode::profile_mode(now.platform_profile->0)
    } else {
        None
    };
    ExaminedView {
        adopt: if other is Some && family(other->0) != family(m) {
            Some((other->0, now.platform_profile->0))
        } else {
            None
        },
        same_mode_profile: if other is Some && family(other->0) == family(m) {
            now.platform_profile
        } else {
            None
        },
        overrides: profile_finding(m, expected, now, reverted) + changed(
            "energy_performance_preference"@,
            expected.energy_preference,
            now.energy_preference,
            reverted,
        ) + turbo_changed(expected.turbo, now.turbo, reverted) + limit_changed(
            "PL1"@,
            expected.limits.pl1_uw,
            now.limits.pl1_uw,
            reverted,
        ) + limit_changed("PL2"@, expected.limits.pl2_uw, now.limits.pl2_uw, reverted)
            + limit_changed("PL4"@, expected.limits.pl4_uw, now.limits.pl4_uw, reverted),
    }
}

fn report(list: &mut Vec<Override>, knob: &str, expected: String, found: String, reverted: bool)
    ensures
        findings(final(list)@) == findings(old(list)@) + seq![
            OverrideView { knob: knob@, expected: expected@, found: found@, reverted },
        ],
{
    let ghost before = list@;
    let finding = Override { knob: String::from_str(knob), expected, found, reverted };
    let ghost seen = finding@;
    list.push(finding);
    proof {
        assert(findings(list@) =~= findings(before) + seq![seen]);
    }
}

fn check_limit(
    list: &mut Vec<Override>,
    knob: &str,
    want: Option<u64>,
    now: Option<u64>,
    reverted: bool,
)
    ensures
        findings(final(list)@) == findings(old(list)@) + limit_changed(knob@, want, now, reverted),
{
    proof {
        assert(findings(list@) + Seq::<OverrideView>::empty() =~= findings(list@));
    }
    match want {
        None => {},
        Some(w) => {
            let same = match now {
                Some(n) => n == w,
                None => false,
            };
            if !same {
                let found = match now {
                    Some(n) => watts(n),
                    None => String::from_str("unreadable"),
                };
                report(list, knob, watts(w), found, reverted);
            }
        },
    }
}

fn same_text(a: &Option<String>, b: &Option<String>) -> (r: bool)
    ensures
        r == (text::opt_view(*a) == text::opt_view(*b)),
{
    match (a, b) {
        (None, None) => true,
        (Some(x), Some(y)) => text::same(x.as_str(), y.as_str()),
        _ => false,
    }
}

/// Compares the machine with what it was last left at. `m` is the mode it is
/// taken to be in, and `since_ms` how long ago it was left so.
pub fn examine(m: PowerMode, expected: &Knobs, now: &Knobs, since_ms: u64) -> (r: Examined)
    ensures
        r@ == examined(m, expected@, now@, since_ms as int),
{
    let reverted = since_ms < FIGHT_WINDOW_MS;
    let mut overrides: Vec<Override> = Vec::new();
    let mut adopt: Option<(PowerMode, String)> = None;
    let mut same_mode_profile: Option<String> = None;
    proof {
        assert(findings(overrides@) =~= seq![]);
    }
    match (&expected.platform_profile, &now.platform_profile) {
        (Some(want), Some(seen)) => {
            if !text::same(want.as_str(), seen.as_str()) {
                match mode::mode_for_profile(seen.as_str()) {
                    Some(other) => {
                        if same_family(other, m) {
                            same_mode_profile = Some(seen.clone());
                        } else {
                            adopt = Some((other, seen.clone()));
                            if reverted {
                                report(
                                    &mut overrides,
                                    "platform_profile",
                                    want.clone(),
                                    seen.clone(),
                                    reverted,
                                );
                            }
                        }
                    },
                    None => {
                        report(
                            &mut overrides,
                            "platform_profile",
                            want.clone(),
                            seen.clone(),
                            reverted,
                        );
                    },
                }
            }
        },
        _ => {},
    }
    proof {
        assert(findings(overrides@) =~= profile_finding(m, expected@, now@, reverted));
    }
    let ghost so_far = findings(overrides@);
    match &expected.energy_preference {
        Some(want) => {
            if !same_text(&expected.energy_preference, &now.energy_preference) {
                let found = match &now.energy_preference {
                    Some(s) => s.clone(),
                    None => String::from_str("unreadable"),
                };
                report(
                    &mut overrides,
                    "energy_performance_preference",
                    want.clone(),
                    found,
                    reverted,
                );
            }
        },
        None => {},
    }
    proof {
        assert(findings(overrides@) =~= so_far + changed(
            "energy_performance_preference"@,
            expected@.energy_preference,
            now@.energy_preference,
            reverted,
        ));
    }
    let ghost so_far = findings(overrides@);
    match expected.turbo {
        Some(want) => {
            let same = match now.turbo {
                Some(on) => on == want,
                None => false,
            };
            if !same {
                let found = match now.turbo {
                    Some(on) => limits::say_on_off(on),
                    None => String::from_str("unreadable"),
                };
                report(&mut overrides, "turbo", limits::say_on_off(want), found, reverted);
            }
        },
        None => {},
    }
    proof {
        assert(findings(overrides@) =~= so_far + turbo_changed(expected.turbo, now.turbo, reverted));
    }
    check_limit(&mut overrides, "PL1", expected.limits.pl1_uw, now.limits.pl1_uw, reverted);
    check_limit(&mut overrides, "PL2", expected.limits.pl2_uw, now.limits.pl2_uw, reverted);
    check_limit(&mut overrides, "PL4", expected.limits.pl4_uw, now.limits.pl4_uw, reverted);
    Examined { adopt, same_mode_profile, overrides }
}

// --- laws ----------------------------------------------------------------

/// The machine reads what it was left at, in everything that is watched.
pub open spec fn as_left(expected: KnobsView, now: KnobsView) -> bool {
    &&& expected.platform_profile is Some ==> now.platform_profile == expected.platform_profile
    &&& expected.energy_preference is Some ==> now.energy_preference == expected.energy_preference
    &&& expected.turbo is Some ==> now.turbo == expected.turbo
    &&& expected.limits.pl1_uw is Some ==> now.limits.pl1_uw == expected.limits.pl1_uw
    &&& expected.limits.pl2_uw is Some ==> now.limits.pl2_uw == expected.limits.pl2_uw
    &&& expected.limits.pl4_uw is Some ==> now.limits.pl4_uw == expected.limits.pl4_uw
}

/// A machine left alone has nothing to report, and what was never set is never
/// watched.
pub proof fn law_a_machine_left_alone_has_nothing_to_report(
    m: PowerMode,
    expected: KnobsView,
    now: KnobsView,
    since_ms: int,
)
    requires
        as_left(expected, now),
    ensures
        examined(m, expected, now, since_ms) == nothing_found(),
{
    assert(examined(m, expected, now, since_ms).overrides =~= seq![]);
}

/// Only the firmware profile moves the mode: whatever else was changed, the
/// mode that is followed is the firmware profile's.
pub proof fn law_only_the_firmware_profile_is_followed(
    m: PowerMode,
    expected: KnobsView,
    now: KnobsView,
    since_ms: int,
)
    ensures
        match examined(m, expected, now, since_ms).adopt {
            Some((other, profile)) => profile_moved(expected, now) && now.platform_profile == Some(
                profile,
            ) && mode::profile_mode(profile) == Some(other) && family(other) != family(m),
            None => profile_moved(expected, now) && mode::profile_mode(now.platform_profile->0)
                is Some ==> family(mode::profile_mode(now.platform_profile->0)->0) == family(m),
        },
{
}

/// Once the profile that was found is the reference, the next look at the same
/// machine follows nothing.
pub proof fn law_a_profile_is_followed_once(
    m: PowerMode,
    expected: KnobsView,
    now: KnobsView,
    since_ms: int,
    later_ms: int,
    after: KnobsView,
)
    requires
        match examined(m, expected, now, since_ms).adopt {
            Some((_, profile)) => after.platform_profile == Some(profile),
            None => false,
        },
    ensures
        examined(
            (examined(m, expected, now, since_ms).adopt->0).0,
            after,
            now,
            later_ms,
        ).adopt is None,
{
}

/// Every knob that was written and now reads otherwise is reported, with what it
/// was set to and what it reads; within fifteen seconds of the write that is
/// called a reversal.
pub proof fn law_every_moved_knob_is_reported(
    m: PowerMode,
    expected: KnobsView,
    now: KnobsView,
    since_ms: int,
    want: Seq<char>,
    on: bool,
)
    ensures
        expected.energy_preference == Some(want) && now.energy_preference != Some(want)
            ==> examined(m, expected, now, since_ms).overrides.contains(
            OverrideView {
                knob: "energy_performance_preference"@,
                expected: want,
                found: match now.energy_preference {
                    Some(s) => s,
                    None => "unreadable"@,
                },
                reverted: since_ms < 15_000,
            },
        ),
        expected.turbo == Some(on) && now.turbo != Some(on) ==> examined(
            m,
            expected,
            now,
            since_ms,
        ).overrides.contains(
            OverrideView {
                knob: "turbo"@,
                expected: if on {
                    "on"@
                } else {
                    "off"@
                },
                found: match now.turbo {
                    Some(true) => "on"@,
                    Some(false) => "off"@,
                    None => "unreadable"@,
                },
                reverted: since_ms < 15_000,
            },
        ),
{
    let hint = changed(
        "energy_performance_preference"@,
        expected.energy_preference,
        now.energy_preference,
        since_ms < 15_000,
    );
    let turbo = turbo_changed(expected.turbo, now.turbo, since_ms < 15_000);
    let (p, h, t, l) = lemma_where_findings_stand(m, expected, now, since_ms);
    let all = examined(m, expected, now, since_ms).overrides;
    if hint.len() > 0 {
        assert(all[p] == hint[0]);
    }
    if turbo.len() > 0 {
        assert(all[p + h] == turbo[0]);
    }
}

/// Every limit that was written and now reads otherwise is reported under its
/// own name, in watts.
pub proof fn law_every_moved_limit_is_reported(
    m: PowerMode,
    expected: KnobsView,
    now: KnobsView,
    since_ms: int,
    want: nat,
    got: nat,
)
    requires
        want != got,
        want <= 1_000_000,
        got <= 1_000_000,
    ensures
        expected.limits.pl1_uw == Some((want * 1_000_000) as u64) && now.limits.pl1_uw == Some(
            (got * 1_000_000) as u64,
        ) ==> examined(m, expected, now, since_ms).overrides.contains(
            OverrideView {
                knob: "PL1"@,
                expected: number::decimal(want) + " W"@,
                found: number::decimal(got) + " W"@,
                reverted: since_ms < 15_000,
            },
        ),
        expected.limits.pl2_uw == Some((want * 1_000_000) as u64) && now.limits.pl2_uw is None
            ==> examined(m, expected, now, since_ms).overrides.contains(
            OverrideView {
                knob: "PL2"@,
                expected: number::decimal(want) + " W"@,
                found: "unreadable"@,
                reverted: since_ms < 15_000,
            },
        ),
        expected.limits.pl4_uw == Some((want * 1_000_000) as u64) && now.limits.pl4_uw == Some(
            (got * 1_000_000) as u64,
        ) ==> examined(m, expected, now, since_ms).overrides.contains(
            OverrideView {
                knob: "PL4"@,
                expected: number::decimal(want) + " W"@,
                found: number::decimal(got) + " W"@,
                reverted: since_ms < 15_000,
            },
        ),
{
    let reverted = since_ms < 15_000;
    let (p, h, t, l) = lemma_where_findings_stand(m, expected, now, since_ms);
    let all = examined(m, expected, now, since_ms).overrides;
    let pl1 = limit_changed("PL1"@, expected.limits.pl1_uw, now.limits.pl1_uw, reverted);
    let pl2 = limit_changed("PL2"@, expected.limits.pl2_uw, now.limits.pl2_uw, reverted);
    let pl4 = limit_changed("PL4"@, expected.limits.pl4_uw, now.limits.pl4_uw, reverted);
    if pl1.len() > 0 {
        assert(all[p + h + t] == pl1[0]);
    }
    if pl2.len() > 0 {
        assert(all[p + h + t + l] == pl2[0]);
    }
    if pl4.len() > 0 {
        assert(all[p + h + t + l + pl2.len()] == pl4[0]);
    }
}

proof fn lemma_where_findings_stand(
    m: PowerMode,
    expected: KnobsView,
    now: KnobsView,
    since_ms: int,
) -> (sizes: (int, int, int, int))
    ensures
        sizes.0 == profile_finding(m, expected, now, since_ms < 15_000).len(),
        sizes.1 == changed(
            "energy_performance_preference"@,
            expected.energy_preference,
            now.energy_preference,
            since_ms < 15_000,
        ).len(),
        sizes.2 == turbo_changed(expected.turbo, now.turbo, since_ms < 15_000).len(),
        sizes.3 == limit_changed(
            "PL1"@,
            expected.limits.pl1_uw,
            now.limits.pl1_uw,
            since_ms < 15_000,
        ).len(),
        examined(m, expected, now, since_ms).overrides.len() == sizes.0 + sizes.1 + sizes.2
            + sizes.3 + limit_changed(
            "PL2"@,
            expected.limits.pl2_uw,
            now.limits.pl2_uw,
            since_ms < 15_000,
        ).len() + limit_changed(
            "PL4"@,
            expected.limits.pl4_uw,
            now.limits.pl4_uw,
            since_ms < 15_000,
        ).len(),
{
    let reverted = since_ms < 15_000;
    (
        profile_finding(m, expected, now, reverted).len() as int,
        changed(
            "energy_performance_preference"@,
            expected.energy_preference,
            now.energy_preference,
            reverted,
        ).len() as int,
        turbo_changed(expected.turbo, now.turbo, reverted).len() as int,
        limit_changed("PL1"@, expected.limits.pl1_uw, now.limits.pl1_uw, reverted).len() as int,
    )
}

/// One finding for each knob that moved, and none besides: a profile that is
/// followed late is no finding, nor is another name for the mode that is on.
pub proof fn law_one_finding_for_each_moved_knob(
    m: PowerMode,
    expected: KnobsView,
    now: KnobsView,
    since_ms: int,
)
    requires
        expected.platform_profile is None || now.platform_profile is None
            || now.platform_profile == expected.platform_profile,
    ensures
        examined(m, expected, now, since_ms).overrides.len() == (if expected.energy_preference
            is Some && now.energy_preference != expected.energy_preference {
            1int
        } else {
            0
        }) + (if expected.turbo is Some && now.turbo != expected.turbo {
            1int
        } else {
            0
        }) + (if expected.limits.pl1_uw is Some && now.limits.pl1_uw != expected.limits.pl1_uw {
            1int
        } else {
            0
        }) + (if expected.limits.pl2_uw is Some && now.limits.pl2_uw != expected.limits.pl2_uw {
            1int
        } else {
            0
        }) + (if expected.limits.pl4_uw is Some && now.limits.pl4_uw != expected.limits.pl4_uw {
            1int
        } else {
            0
        }),
        examined(m, expected, now, since_ms).adopt is None,
        examined(m, expected, now, since_ms).same_mode_profile is None,
{
}

/// A firmware profile that was moved to another mode is followed; one that names
/// the mode that is on, performance and unlimited being one to the firmware, is
/// taken note of; one that names no mode is reported. A move that undoes a write
/// within fifteen seconds is reported too.
pub proof fn law_a_moved_profile_is_followed_or_reported(
    m: PowerMode,
    expected: KnobsView,
    now: KnobsView,
    since_ms: int,
    was: Seq<char>,
    seen: Seq<char>,
)
    requires
        expected.platform_profile == Some(was),
        now.platform_profile == Some(seen),
        was != seen,
    ensures
        mode::profile_mode(seen) is None ==> {
            &&& examined(m, expected, now, since_ms).adopt is None
            &&& examined(m, expected, now, since_ms).same_mode_profile is None
            &&& examined(m, expected, now, since_ms).overrides.len() > 0
            &&& examined(m, expected, now, since_ms).overrides[0] == (OverrideView {
                knob: "platform_profile"@,
                expected: was,
                found: seen,
                reverted: since_ms < 15_000,
            })
        },
        mode::profile_mode(seen) matches Some(other) ==> {
            let same = other == m || (m == PowerMode::Unlimited && other == PowerMode::Performance)
                || (m == PowerMode::Performance && other == PowerMode::Unlimited);
            &&& same ==> examined(m, expected, now, since_ms).adopt is None && examined(
                m,
                expected,
                now,
                since_ms,
            ).same_mode_profile == Some(seen)
            &&& !same ==> examined(m, expected, now, since_ms).adopt == Some((other, seen))
                && examined(m, expected, now, since_ms).same_mode_profile is None
            &&& !same && since_ms < 15_000 ==> examined(m, expected, now, since_ms).overrides.len()
                > 0 && examined(m, expected, now, since_ms).overrides[0] == (OverrideView {
                knob: "platform_profile"@,
                expected: was,
                found: seen,
                reverted: true,
            })
        },
{
    lemma_where_findings_stand(m, expected, now, since_ms);
    let all = examined(m, expected, now, since_ms).overrides;
    let first = profile_finding(m, expected, now, since_ms < 15_000);
    if first.len() > 0 {
        assert(all[0] == first[0]);
    }
}

} // verus!
