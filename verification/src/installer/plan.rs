//! What an install would do, as data: the ordered steps, what is in the way,
//! and what is worth saying first.
use vstd::prelude::*;
use vstd::string::*;

use crate::installer::detect;
use crate::installer::detect::Environment;
use crate::installer::detect::HookFlavour;
use crate::number;
use crate::text;

verus! {

/// DKMS package identity.
pub const DKMS_NAME: &'static str = "hp-wmi-omen";

pub const DKMS_VERSION: &'static str = "1.0";

#[derive(Debug, Clone, Copy, PartialEq, Eq, Structural)]
pub enum Action {
    InstallDriver,
    RestoreDriver,
    InstallService,
    RemoveService,
}

/// How a permanent install keeps the module across kernel upgrades.
#[derive(Debug, Clone, Copy, PartialEq, Eq, Structural)]
pub enum Strategy {
    /// DKMS rebuilds the module itself on every kernel upgrade.
    Dkms,
    /// Build once now, plus a distro kernel hook to rebuild later.
    Hooks,
}

/// One unit of work. `command` is what would actually run; an internal step
/// carries an empty command and is performed by the daemon itself.
#[derive(Debug, Clone)]
pub struct Step {
    pub id: String,
    pub description: String,
    pub command: Vec<String>,
    /// Failure is tolerated and reported, rather than aborting the run.
    pub optional: bool,
}

#[verifier::ext_equal]
pub struct StepView {
    pub id: Seq<char>,
    pub description: Seq<char>,
    pub command: Seq<Seq<char>>,
    pub optional: bool,
}

impl View for Step {
    type V = StepView;

    open spec fn view(&self) -> StepView {
        StepView {
            id: self.id@,
            description: self.description@,
            command: text::views(self.command@),
            optional: self.optional,
        }
    }
}

pub open spec fn step_views(steps: Seq<Step>) -> Seq<StepView> {
    Seq::new(steps.len(), |i: int| steps[i]@)
}

/// A step that runs a command.
pub open spec fn runs(id: Seq<char>, description: Seq<char>, command: Seq<Seq<char>>) -> StepView {
    StepView { id, description, command, optional: false }
}

/// A step that the daemon performs itself.
pub open spec fn performs(id: Seq<char>, description: Seq<char>) -> StepView {
    StepView { id, description, command: seq![], optional: false }
}

/// The same step, whose failure is tolerated.
pub open spec fn tolerated(step: StepView) -> StepView {
    StepView { optional: true, ..step }
}

impl Step {
    fn command(id: &str, description: &str, command: Vec<String>) -> (r: Step)
        ensures
            r@ == runs(id@, description@, text::views(command@)),
    {
        Step {
            id: String::from_str(id),
            description: String::from_str(description),
            command,
            optional: false,
        }
    }

    fn internal(id: &str, description: &str) -> (r: Step)
        ensures
            r@ == performs(id@, description@),
    {
        let command: Vec<String> = Vec::new();
        proof {
            assert(text::views(command@) =~= seq![]);
        }
        Step {
            id: String::from_str(id),
            description: String::from_str(description),
            command,
            optional: false,
        }
    }

    fn optional(self) -> (r: Step)
        ensures
            r@ == tolerated(self@),
    {
        Step {
            id: self.id,
            description: self.description,
            command: self.command,
            optional: true,
        }
    }
}

/// Something that must be fixed before the plan can run at all.
#[derive(Debug, Clone)]
pub struct Blocker {
    pub id: String,
    pub message: String,
    /// A command the user can run to resolve it, where one exists.
    pub fix: Option<String>,
}

#[verifier::ext_equal]
pub struct BlockerView {
    pub id: Seq<char>,
    pub message: Seq<char>,
    pub fix: Option<Seq<char>>,
}

impl View for Blocker {
    type V = BlockerView;

    open spec fn view(&self) -> BlockerView {
        BlockerView { id: self.id@, message: self.message@, fix: text::opt_view(self.fix) }
    }
}

pub open spec fn blocker_views(blockers: Seq<Blocker>) -> Seq<BlockerView> {
    Seq::new(blockers.len(), |i: int| blockers[i]@)
}

#[derive(Debug, Clone)]
pub struct Plan {
    pub action: Action,
    pub strategy: Option<Strategy>,
    pub steps: Vec<Step>,
    pub blockers: Vec<Blocker>,
    pub warnings: Vec<String>,
    /// True when the daemon must be running as root to carry this out.
    pub needs_root: bool,
}

#[verifier::ext_equal]
pub struct PlanView {
    pub action: Action,
    pub strategy: Option<Strategy>,
    pub steps: Seq<StepView>,
    pub blockers: Seq<BlockerView>,
    pub warnings: Seq<Seq<char>>,
    pub needs_root: bool,
}

impl View for Plan {
    type V = PlanView;

    open spec fn view(&self) -> PlanView {
        PlanView {
            action: self.action,
            strategy: self.strategy,
            steps: step_views(self.steps@),
            blockers: blocker_views(self.blockers@),
            warnings: text::views(self.warnings@),
            needs_root: self.needs_root,
        }
    }
}

impl PlanView {
    pub open spec fn runnable(self) -> bool {
        self.blockers.len() == 0 && self.steps.len() > 0
    }
}

impl Plan {
    pub fn is_runnable(&self) -> (r: bool)
        ensures
            r == self@.runnable(),
    {
        self.blockers.len() == 0 && self.steps.len() > 0
    }
}

/// Options a caller can use to override the defaults.
#[derive(Debug, Clone, Copy, PartialEq, Eq, Structural)]
pub struct PlanOptions {
    /// Force the hook strategy even when DKMS is available.
    pub prefer_hooks: bool,
    /// Proceed where the driver appears unnecessary.
    pub force: bool,
}

impl Default for PlanOptions {
    fn default() -> (r: PlanOptions)
        ensures
            r == (PlanOptions { prefer_hooks: false, force: false }),
    {
        PlanOptions { prefer_hooks: false, force: false }
    }
}

// --- installing the driver -----------------------------------------------

/// Where the driver sources are staged.
pub open spec fn source_dir() -> Seq<char> {
    "/usr/src/"@ + DKMS_NAME@ + "-"@ + DKMS_VERSION@
}

pub fn dkms_src_dir() -> (r: String)
    ensures
        r@ == source_dir(),
{
    String::from_str("/usr/src/").concat(DKMS_NAME).concat("-").concat(DKMS_VERSION)
}

pub open spec fn build_dir() -> Seq<char> {
    source_dir() + "/src/hp-wmi-omen"@
}

/// `name/version`, as DKMS wants it.
pub open spec fn dkms_module() -> Seq<char> {
    DKMS_NAME@ + "/"@ + DKMS_VERSION@
}

pub open spec fn upstream_warning(release: Seq<char>) -> Seq<char> {
    "Kernel "@ + release + " already ships manual fan control upstream (since "@
        + number::decimal(detect::UPSTREAM_FAN_CONTROL_KERNEL.0 as nat) + "."@ + number::decimal(
        detect::UPSTREAM_FAN_CONTROL_KERNEL.1 as nat,
    )
        + "), so the patch is probably unnecessary. It is only worth installing if your board is missing from the stock driver's tables."@
}

pub open spec fn strategy_for(env: Environment, options: PlanOptions) -> Strategy {
    if options.prefer_hooks || !env.has_dkms {
        Strategy::Hooks
    } else {
        Strategy::Dkms
    }
}

/// What is worth saying before an install.
pub open spec fn install_warnings(env: Environment, options: PlanOptions) -> Seq<Seq<char>> {
    let first = if env.fan_control_available {
        seq![
            "Fan control already works on this machine (pwm1 is present), so the patched driver would add nothing."@,
        ]
    } else if env.kernel.has_upstream_fan_control {
        seq![upstream_warning(env.kernel.release@)]
    } else {
        seq![]
    };
    if env.driver_source is Some && strategy_for(env, options) == Strategy::Hooks
        && env.hook_flavour == HookFlavour::NoHook {
        first.push(
            "This distribution has no recognised kernel-hook mechanism, so the module will be built for the running kernel only and will need reinstalling after a kernel upgrade."@,
        )
    } else {
        first
    }
}

pub open spec fn already_working() -> BlockerView {
    BlockerView {
        id: "already-working"@,
        message: "Fan control is already available; nothing to install."@,
        fix: None,
    }
}

pub open spec fn no_driver_source() -> BlockerView {
    BlockerView {
        id: "no-driver-source"@,
        message:
            "The patched hp-wmi sources were not found. They are not bundled with omen-hub; point OMEN_HUB_DRIVER_DIR at a checkout of omen-fan-control's data/driver directory, or install them to /usr/share/omen-hub/driver."@,
        fix: None,
    }
}

pub open spec fn unusable_headers(fix: Option<Seq<char>>) -> BlockerView {
    BlockerView {
        id: "kernel-headers"@,
        message:
            "Kernel headers for the running kernel are missing or incomplete, so the module cannot be compiled."@,
        fix,
    }
}

pub open spec fn no_build_tools() -> BlockerView {
    BlockerView {
        id: "build-tools"@,
        message: "A C compiler and make are required to build the module."@,
        fix: Some("install your distribution's base development tools"@),
    }
}

pub open spec fn when<A>(holds: bool, item: A) -> Seq<A> {
    if holds {
        seq![item]
    } else {
        seq![]
    }
}

/// What is in the way of an install. Without the sources nothing further is
/// asked.
pub open spec fn install_blockers(env: Environment, options: PlanOptions) -> Seq<BlockerView> {
    let first = when(env.fan_control_available && !options.force, already_working());
    if env.driver_source is None {
        first.push(no_driver_source())
    } else {
        first + when(
            !env.headers.usable,
            unusable_headers(text::opt_view(env.headers.fix_hint)),
        ) + when(!env.has_make || !env.has_compiler, no_build_tools())
    }
}

/// Patching and staging the sources, and putting the stock driver in safety.
pub open spec fn preparation() -> Seq<StepView> {
    seq![
        performs(
            "patch-source"@,
            "Patch the driver source (fan ceilings, and any experimental board id)"@,
        ),
        performs(
            "stage-source"@,
            "Copy the driver sources and dkms.conf to "@ + source_dir(),
        ),
        performs(
            "backup-driver"@,
            "Back up the stock hp-wmi.ko next to itself as .bak, then remove it so depmod picks the new one unambiguously"@,
        ),
    ]
}

pub open spec fn dkms_build(env: Environment) -> Seq<StepView> {
    when(
        env.dkms_installed,
        tolerated(
            runs(
                "dkms-remove-old"@,
                "Remove the previously registered DKMS module"@,
                seq!["dkms"@, "remove"@, dkms_module(), "--all"@],
            ),
        ),
    ) + seq![
        runs(
            "dkms-add"@,
            "Register the module with DKMS"@,
            seq!["dkms"@, "add"@, "-m"@, DKMS_NAME@, "-v"@, DKMS_VERSION@],
        ),
        runs(
            "dkms-build"@,
            "Build the module"@,
            seq!["dkms"@, "build"@, "-m"@, DKMS_NAME@, "-v"@, DKMS_VERSION@],
        ),
        runs(
            "dkms-install"@,
            "Install the built module"@,
            seq!["dkms"@, "install"@, "-m"@, DKMS_NAME@, "-v"@, DKMS_VERSION@],
        ),
    ]
}

/// The step that installs the distribution's kernel-upgrade hook.
pub open spec fn hook_for(flavour: HookFlavour) -> Seq<StepView> {
    match flavour {
        HookFlavour::Pacman => seq![
            performs(
                "install-hook-pacman"@,
                "Install the pacman hook that rebuilds the module on kernel upgrades"@,
            ),
        ],
        HookFlavour::KernelPostinst => seq![
            performs(
                "install-hook-postinst"@,
                "Install the /etc/kernel/postinst.d hook that rebuilds on kernel upgrades"@,
            ),
        ],
        HookFlavour::KernelInstall => seq![
            performs(
                "install-hook-kernel-install"@,
                "Install the /etc/kernel/install.d hook that rebuilds on kernel upgrades"@,
            ),
        ],
        HookFlavour::NoHook => seq![],
    }
}

pub open spec fn hooks_build(env: Environment) -> Seq<StepView> {
    seq![
        runs(
            "make"@,
            "Build the module for the running kernel"@,
            seq!["make"@, "-C"@, build_dir()],
        ),
        performs(
            "install-module"@,
            "Install hp-wmi.ko into /lib/modules/<kernel>/kernel/drivers/platform/x86/hp"@,
        ),
    ] + hook_for(env.hook_flavour) + seq![
        tolerated(
            runs(
                "make-clean"@,
                "Clean the build tree"@,
                seq!["make"@, "-C"@, build_dir(), "clean"@],
            ),
        ),
    ]
}

/// Making the kernel take the other module.
pub open spec fn reload(unload: Seq<char>, load: Seq<char>) -> Seq<StepView> {
    seq![
        runs("depmod"@, "Rebuild module dependencies"@, seq!["depmod"@, "-a"@]),
        tolerated(
            runs("modprobe-remove"@, unload, seq!["modprobe"@, "-r"@, "hp-wmi"@]),
        ),
        runs("modprobe"@, load, seq!["modprobe"@, "hp-wmi"@]),
    ]
}

/// Regenerating the initramfs, where a tool for it is known.
pub open spec fn initramfs_for(tool: Option<Seq<char>>) -> Seq<StepView> {
    let command = match tool {
        Some(t) => if t == "update-initramfs"@ {
            seq!["update-initramfs"@, "-u"@]
        } else if t == "mkinitcpio"@ {
            seq!["mkinitcpio"@, "-P"@]
        } else if t == "dracut"@ {
            seq!["dracut"@, "--force"@]
        } else {
            seq![]
        },
        None => seq![],
    };
    when(
        command.len() > 0,
        tolerated(runs("initramfs"@, "Regenerate the initramfs"@, command)),
    )
}

pub open spec fn install_steps(env: Environment, options: PlanOptions) -> Seq<StepView> {
    if env.driver_source is None {
        seq![]
    } else {
        preparation() + (if strategy_for(env, options) == Strategy::Dkms {
            dkms_build(env)
        } else {
            hooks_build(env)
        }) + reload("Unload the current hp-wmi"@, "Load the patched hp-wmi"@) + initramfs_for(
            text::opt_view(env.initramfs_tool),
        )
    }
}

pub open spec fn install_plan(env: Environment, options: PlanOptions) -> PlanView {
    PlanView {
        action: Action::InstallDriver,
        strategy: if env.driver_source is None {
            None
        } else {
            Some(strategy_for(env, options))
        },
        steps: install_steps(env, options),
        blockers: install_blockers(env, options),
        warnings: install_warnings(env, options),
        needs_root: true,
    }
}

// --- the other plans -----------------------------------------------------

pub open spec fn restore_steps(env: Environment) -> Seq<StepView> {
    when(
        env.dkms_installed,
        tolerated(
            runs(
                "dkms-remove"@,
                "Deregister the DKMS module"@,
                seq!["dkms"@, "remove"@, dkms_module(), "--all"@],
            ),
        ),
    ) + seq![
        performs("remove-sources"@, "Delete "@ + source_dir()),
        performs("remove-hooks"@, "Delete any installed kernel-upgrade hook"@),
        performs(
            "restore-backups"@,
            "Rename every hp-wmi.ko.bak back to hp-wmi.ko, restoring the stock driver"@,
        ),
    ] + reload("Unload hp-wmi"@, "Load the stock hp-wmi"@) + initramfs_for(
        text::opt_view(env.initramfs_tool),
    )
}

pub open spec fn restore_plan(env: Environment) -> PlanView {
    PlanView {
        action: Action::RestoreDriver,
        strategy: None,
        steps: restore_steps(env),
        blockers: seq![],
        warnings: seq![],
        needs_root: true,
    }
}

pub open spec fn service_plan(env: Environment) -> PlanView {
    PlanView {
        action: Action::InstallService,
        strategy: None,
        steps: seq![
            performs("write-unit"@, "Write /etc/systemd/system/omen-hub-daemon.service"@),
            runs(
                "daemon-reload"@,
                "Reload systemd units"@,
                seq!["systemctl"@, "daemon-reload"@],
            ),
            runs(
                "enable"@,
                "Enable and start the daemon at boot"@,
                seq!["systemctl"@, "enable"@, "--now"@, "omen-hub-daemon.service"@],
            ),
        ],
        blockers: seq![],
        warnings: when(
            env.service_installed,
            "The service unit is already installed; it will be replaced."@,
        ),
        needs_root: true,
    }
}

pub open spec fn removal_plan() -> PlanView {
    PlanView {
        action: Action::RemoveService,
        strategy: None,
        steps: seq![
            tolerated(
                runs(
                    "disable"@,
                    "Stop the daemon and remove it from boot"@,
                    seq!["systemctl"@, "disable"@, "--now"@, "omen-hub-daemon.service"@],
                ),
            ),
            performs("remove-unit"@, "Delete the systemd unit file"@),
            runs(
                "daemon-reload"@,
                "Reload systemd units"@,
                seq!["systemctl"@, "daemon-reload"@],
            ),
        ],
        blockers: seq![],
        warnings: seq![],
        needs_root: true,
    }
}

/// The plan for an action on this machine.
pub open spec fn planned(env: Environment, action: Action, options: PlanOptions) -> PlanView {
    match action {
        Action::InstallDriver => install_plan(env, options),
        Action::RestoreDriver => restore_plan(env),
        Action::InstallService => service_plan(env),
        Action::RemoveService => removal_plan(),
    }
}

pub fn plan(env: &Environment, action: Action, options: PlanOptions) -> (r: Plan)
    ensures
        r@ == planned(*env, action, options),
{
    match action {
        Action::InstallDriver => plan_install_driver(env, options),
        Action::RestoreDriver => plan_restore_driver(env),
        Action::InstallService => plan_install_service(env),
        Action::RemoveService => plan_remove_service(),
    }
}

fn push_step(steps: &mut Vec<Step>, step: Step)
    ensures
        step_views(final(steps)@) == step_views(old(steps)@).push(step@),
{
    let ghost before = steps@;
    steps.push(step);
    proof {
        assert(step_views(steps@) =~= step_views(before).push(step@));
    }
}

fn push_blocker(blockers: &mut Vec<Blocker>, id: &str, message: &str, fix: Option<String>)
    ensures
        blocker_views(final(blockers)@) == blocker_views(old(blockers)@).push(
            BlockerView { id: id@, message: message@, fix: text::opt_view(fix) },
        ),
{
    let ghost before = blockers@;
    let blocker = Blocker {
        id: String::from_str(id),
        message: String::from_str(message),
        fix,
    };
    let ghost pushed = blocker@;
    blockers.push(blocker);
    proof {
        assert(blocker_views(blockers@) =~= blocker_views(before).push(pushed));
    }
}

fn dkms_command(verb: &str) -> (r: Vec<String>)
    ensures
        text::views(r@) == seq!["dkms"@, verb@, "-m"@, DKMS_NAME@, "-v"@, DKMS_VERSION@],
{
    text::list_six(
        String::from_str("dkms"),
        String::from_str(verb),
        String::from_str("-m"),
        String::from_str(DKMS_NAME),
        String::from_str("-v"),
        String::from_str(DKMS_VERSION),
    )
}

fn dkms_remove() -> (r: Vec<String>)
    ensures
        text::views(r@) == seq!["dkms"@, "remove"@, dkms_module(), "--all"@],
{
    text::list_four(
        String::from_str("dkms"),
        String::from_str("remove"),
        String::from_str(DKMS_NAME).concat("/").concat(DKMS_VERSION),
        String::from_str("--all"),
    )
}

fn collect_warnings(env: &Environment, options: PlanOptions) -> (r: Vec<String>)
    ensures
        text::views(r@) == install_warnings(*env, options),
{
    let mut warnings: Vec<String> = Vec::new();
    proof {
        assert(text::views(warnings@) =~= seq![]);
    }
    if env.fan_control_available {
        text::push_string(
            &mut warnings,
            String::from_str(
                "Fan control already works on this machine (pwm1 is present), so the patched driver would add nothing.",
            ),
        );
        proof {
            assert(text::views(warnings@) =~= seq![
                "Fan control already works on this machine (pwm1 is present), so the patched driver would add nothing."@,
            ]);
        }
    } else if env.kernel.has_upstream_fan_control {
        let warning = String::from_str("Kernel ").concat(env.kernel.release.as_str()).concat(
            " already ships manual fan control upstream (since ",
        ).concat(
            number::show(detect::UPSTREAM_FAN_CONTROL_KERNEL.0 as u64).as_str(),
        ).concat(".").concat(
            number::show(detect::UPSTREAM_FAN_CONTROL_KERNEL.1 as u64).as_str(),
        ).concat(
            "), so the patch is probably unnecessary. It is only worth installing if your board is missing from the stock driver's tables.",
        );
        text::push_string(&mut warnings, warning);
        proof {
            assert(text::views(warnings@) =~= seq![upstream_warning(env.kernel.release@)]);
        }
    }
    if env.driver_source.is_some() && (options.prefer_hooks || !env.has_dkms) && env.hook_flavour
        == HookFlavour::NoHook {
        text::push_string(
            &mut warnings,
            String::from_str(
                "This distribution has no recognised kernel-hook mechanism, so the module will be built for the running kernel only and will need reinstalling after a kernel upgrade.",
            ),
        );
    }
    warnings
}

fn collect_blockers(env: &Environment, options: PlanOptions) -> (r: Vec<Blocker>)
    ensures
        blocker_views(r@) == install_blockers(*env, options),
{
    let mut blockers: Vec<Blocker> = Vec::new();
    proof {
        assert(blocker_views(blockers@) =~= seq![]);
    }
    if env.fan_control_available && !options.force {
        push_blocker(
            &mut blockers,
            "already-working",
            "Fan control is already available; nothing to install.",
            None,
        );
    }
    let ghost first = when(env.fan_control_available && !options.force, already_working());
    proof {
        assert(blocker_views(blockers@) =~= first);
    }
    if env.driver_source.is_none() {
        push_blocker(
            &mut blockers,
            "no-driver-source",
            "The patched hp-wmi sources were not found. They are not bundled with omen-hub; point OMEN_HUB_DRIVER_DIR at a checkout of omen-fan-control's data/driver directory, or install them to /usr/share/omen-hub/driver.",
            None,
        );
        return blockers;
    }
    if !env.headers.usable {
        let fix = match &env.headers.fix_hint {
            Some(hint) => Some(hint.clone()),
            None => None,
        };
        push_blocker(
            &mut blockers,
            "kernel-headers",
            "Kernel headers for the running kernel are missing or incomplete, so the module cannot be compiled.",
            fix,
        );
    }
    if !env.has_make || !env.has_compiler {
        push_blocker(
            &mut blockers,
            "build-tools",
            "A C compiler and make are required to build the module.",
            Some(String::from_str("install your distribution's base development tools")),
        );
    }
    proof {
        assert(blocker_views(blockers@) =~= first + when(
            !env.headers.usable,
            unusable_headers(text::opt_view(env.headers.fix_hint)),
        ) + when(!env.has_make || !env.has_compiler, no_build_tools()));
    }
    blockers
}

fn push_dkms_build(steps: &mut Vec<Step>, env: &Environment)
    ensures
        step_views(final(steps)@) == step_views(old(steps)@) + dkms_build(*env),
{
    let ghost before = step_views(steps@);
    if env.dkms_installed {
        push_step(
            steps,
            Step::command(
                "dkms-remove-old",
                "Remove the previously registered DKMS module",
                dkms_remove(),
            ).optional(),
        );
    }
    push_step(
        steps,
        Step::command("dkms-add", "Register the module with DKMS", dkms_command("add")),
    );
    push_step(steps, Step::command("dkms-build", "Build the module", dkms_command("build")));
    push_step(
        steps,
        Step::command("dkms-install", "Install the built module", dkms_command("install")),
    );
    proof {
        assert(step_views(steps@) =~= before + dkms_build(*env));
    }
}

fn push_hooks_build(steps: &mut Vec<Step>, env: &Environment)
    ensures
        step_views(final(steps)@) == step_views(old(steps)@) + hooks_build(*env),
{
    let ghost before = step_views(steps@);
    let built_in = dkms_src_dir().concat("/src/hp-wmi-omen");
    push_step(
        steps,
        Step::command(
            "make",
            "Build the module for the running kernel",
            text::list_three(String::from_str("make"), String::from_str("-C"), built_in.clone()),
        ),
    );
    push_step(
        steps,
        Step::internal(
            "install-module",
            "Install hp-wmi.ko into /lib/modules/<kernel>/kernel/drivers/platform/x86/hp",
        ),
    );
    match hook_step(env.hook_flavour) {
        Some(hook) => {
            push_step(steps, hook);
        },
        None => {},
    }
    push_step(
        steps,
        Step::command(
            "make-clean",
            "Clean the build tree",
            text::list_four(
                String::from_str("make"),
                String::from_str("-C"),
                built_in,
                String::from_str("clean"),
            ),
        ).optional(),
    );
    proof {
        assert(step_views(steps@) =~= before + hooks_build(*env));
    }
}

fn hook_step(flavour: HookFlavour) -> (r: Option<Step>)
    ensures
        match r {
            Some(s) => hook_for(flavour) == seq![s@],
            None => hook_for(flavour).len() == 0,
        },
{
    match flavour {
        HookFlavour::Pacman => Some(
            Step::internal(
                "install-hook-pacman",
                "Install the pacman hook that rebuilds the module on kernel upgrades",
            ),
        ),
        HookFlavour::KernelPostinst => Some(
            Step::internal(
                "install-hook-postinst",
                "Install the /etc/kernel/postinst.d hook that rebuilds on kernel upgrades",
            ),
        ),
        HookFlavour::KernelInstall => Some(
            Step::internal(
                "install-hook-kernel-install",
                "Install the /etc/kernel/install.d hook that rebuilds on kernel upgrades",
            ),
        ),
        HookFlavour::NoHook => None,
    }
}

fn push_reload(steps: &mut Vec<Step>, unload: &str, load: &str)
    ensures
        step_views(final(steps)@) == step_views(old(steps)@) + reload(unload@, load@),
{
    let ghost before = step_views(steps@);
    push_step(
        steps,
        Step::command(
            "depmod",
            "Rebuild module dependencies",
            text::list_two(String::from_str("depmod"), String::from_str("-a")),
        ),
    );
    push_step(
        steps,
        Step::command(
            "modprobe-remove",
            unload,
            text::list_three(
                String::from_str("modprobe"),
                String::from_str("-r"),
                String::from_str("hp-wmi"),
            ),
        ).optional(),
    );
    push_step(
        steps,
        Step::command(
            "modprobe",
            load,
            text::list_two(String::from_str("modprobe"), String::from_str("hp-wmi")),
        ),
    );
    proof {
        assert(step_views(steps@) =~= before + reload(unload@, load@));
    }
}

fn initramfs_step(tool: &Option<String>) -> (r: Option<Step>)
    ensures
        match r {
            Some(s) => initramfs_for(text::opt_view(*tool)) == seq![s@],
            None => initramfs_for(text::opt_view(*tool)).len() == 0,
        },
{
    let command = match tool {
        None => {
            return None;
        },
        Some(t) => {
            if text::same(t.as_str(), "update-initramfs") {
                text::list_two(String::from_str("update-initramfs"), String::from_str("-u"))
            } else if text::same(t.as_str(), "mkinitcpio") {
                text::list_two(String::from_str("mkinitcpio"), String::from_str("-P"))
            } else if text::same(t.as_str(), "dracut") {
                text::list_two(String::from_str("dracut"), String::from_str("--force"))
            } else {
                return None;
            }
        },
    };
    Some(Step::command("initramfs", "Regenerate the initramfs", command).optional())
}

fn push_initramfs(steps: &mut Vec<Step>, env: &Environment)
    ensures
        step_views(final(steps)@) == step_views(old(steps)@) + initramfs_for(
            text::opt_view(env.initramfs_tool),
        ),
{
    let ghost before = step_views(steps@);
    match initramfs_step(&env.initramfs_tool) {
        Some(step) => {
            push_step(steps, step);
        },
        None => {},
    }
    proof {
        assert(step_views(steps@) =~= before + initramfs_for(text::opt_view(env.initramfs_tool)));
    }
}

fn plan_install_driver(env: &Environment, options: PlanOptions) -> (r: Plan)
    ensures
        r@ == install_plan(*env, options),
{
    let warnings = collect_warnings(env, options);
    let blockers = collect_blockers(env, options);
    let mut steps: Vec<Step> = Vec::new();
    proof {
        assert(step_views(steps@) =~= seq![]);
    }
    if env.driver_source.is_none() {
        return Plan {
            action: Action::InstallDriver,
            strategy: None,
            steps,
            blockers,
            warnings,
            needs_root: true,
        };
    }
    let strategy = if options.prefer_hooks || !env.has_dkms {
        Strategy::Hooks
    } else {
        Strategy::Dkms
    };
    push_step(
        &mut steps,
        Step::internal(
            "patch-source",
            "Patch the driver source (fan ceilings, and any experimental board id)",
        ),
    );
    let staged = String::from_str("Copy the driver sources and dkms.conf to ").concat(
        dkms_src_dir().as_str(),
    );
    push_step(&mut steps, Step::internal("stage-source", staged.as_str()));
    push_step(
        &mut steps,
        Step::internal(
            "backup-driver",
            "Back up the stock hp-wmi.ko next to itself as .bak, then remove it so depmod picks the new one unambiguously",
        ),
    );
    proof {
        assert(step_views(steps@) =~= preparation());
    }
    match strategy {
        Strategy::Dkms => {
            push_dkms_build(&mut steps, env);
        },
        Strategy::Hooks => {
            push_hooks_build(&mut steps, env);
        },
    }
    push_reload(&mut steps, "Unload the current hp-wmi", "Load the patched hp-wmi");
    push_initramfs(&mut steps, env);
    Plan {
        action: Action::InstallDriver,
        strategy: Some(strategy),
        steps,
        blockers,
        warnings,
        needs_root: true,
    }
}

fn plan_restore_driver(env: &Environment) -> (r: Plan)
    ensures
        r@ == restore_plan(*env),
{
    let mut steps: Vec<Step> = Vec::new();
    if env.dkms_installed {
        push_step(
            &mut steps,
            Step::command("dkms-remove", "Deregister the DKMS module", dkms_remove()).optional(),
        );
    }
    let removal = String::from_str("Delete ").concat(dkms_src_dir().as_str());
    push_step(&mut steps, Step::internal("remove-sources", removal.as_str()));
    push_step(
        &mut steps,
        Step::internal("remove-hooks", "Delete any installed kernel-upgrade hook"),
    );
    push_step(
        &mut steps,
        Step::internal(
            "restore-backups",
            "Rename every hp-wmi.ko.bak back to hp-wmi.ko, restoring the stock driver",
        ),
    );
    let ghost so_far = step_views(steps@);
    push_reload(&mut steps, "Unload hp-wmi", "Load the stock hp-wmi");
    push_initramfs(&mut steps, env);
    let blockers: Vec<Blocker> = Vec::new();
    let warnings: Vec<String> = Vec::new();
    proof {
        assert(so_far =~= when(
            env.dkms_installed,
            tolerated(
                runs(
                    "dkms-remove"@,
                    "Deregister the DKMS module"@,
                    seq!["dkms"@, "remove"@, dkms_module(), "--all"@],
                ),
            ),
        ) + seq![
            performs("remove-sources"@, "Delete "@ + source_dir()),
            performs("remove-hooks"@, "Delete any installed kernel-upgrade hook"@),
            performs(
                "restore-backups"@,
                "Rename every hp-wmi.ko.bak back to hp-wmi.ko, restoring the stock driver"@,
            ),
        ]);
        assert(blocker_views(blockers@) =~= seq![]);
        assert(text::views(warnings@) =~= seq![]);
    }
    Plan {
        action: Action::RestoreDriver,
        strategy: None,
        steps,
        blockers,
        warnings,
        needs_root: true,
    }
}

fn plan_install_service(env: &Environment) -> (r: Plan)
    ensures
        r@ == service_plan(*env),
{
    let mut warnings: Vec<String> = Vec::new();
    if env.service_installed {
        text::push_string(
            &mut warnings,
            String::from_str("The service unit is already installed; it will be replaced."),
        );
    }
    let mut steps: Vec<Step> = Vec::new();
    push_step(
        &mut steps,
        Step::internal("write-unit", "Write /etc/systemd/system/omen-hub-daemon.service"),
    );
    push_step(
        &mut steps,
        Step::command(
            "daemon-reload",
            "Reload systemd units",
            text::list_two(String::from_str("systemctl"), String::from_str("daemon-reload")),
        ),
    );
    push_step(
        &mut steps,
        Step::command(
            "enable",
            "Enable and start the daemon at boot",
            text::list_four(
                String::from_str("systemctl"),
                String::from_str("enable"),
                String::from_str("--now"),
                String::from_str("omen-hub-daemon.service"),
            ),
        ),
    );
    let blockers: Vec<Blocker> = Vec::new();
    let plan = Plan {
        action: Action::InstallService,
        strategy: None,
        steps,
        blockers,
        warnings,
        needs_root: true,
    };
    proof {
        assert(plan@.steps =~= service_plan(*env).steps);
        assert(plan@.blockers =~= seq![]);
        assert(plan@.warnings =~= service_plan(*env).warnings);
    }
    plan
}

fn plan_remove_service() -> (r: Plan)
    ensures
        r@ == removal_plan(),
{
    let mut steps: Vec<Step> = Vec::new();
    push_step(
        &mut steps,
        Step::command(
            "disable",
            "Stop the daemon and remove it from boot",
            text::list_four(
                String::from_str("systemctl"),
                String::from_str("disable"),
                String::from_str("--now"),
                String::from_str("omen-hub-daemon.service"),
            ),
        ).optional(),
    );
    push_step(&mut steps, Step::internal("remove-unit", "Delete the systemd unit file"));
    push_step(
        &mut steps,
        Step::command(
            "daemon-reload",
            "Reload systemd units",
            text::list_two(String::from_str("systemctl"), String::from_str("daemon-reload")),
        ),
    );
    let blockers: Vec<Blocker> = Vec::new();
    let warnings: Vec<String> = Vec::new();
    let plan = Plan {
        action: Action::RemoveService,
        strategy: None,
        steps,
        blockers,
        warnings,
        needs_root: true,
    };
    proof {
        assert(plan@.steps =~= removal_plan().steps);
        assert(plan@.blockers =~= seq![]);
        assert(plan@.warnings =~= seq![]);
    }
    plan
}

// --- laws ----------------------------------------------------------------

/// Every plan declares that it needs root.
pub proof fn law_every_plan_needs_root(env: Environment, action: Action, options: PlanOptions)
    ensures
        planned(env, action, options).needs_root,
{
}

/// Only an install can be blocked.
pub proof fn law_only_installs_are_blocked(env: Environment, action: Action, options: PlanOptions)
    ensures
        planned(env, action, options).runnable() || action == Action::InstallDriver,
{
}

/// An install can run exactly where the sources, the headers and the build
/// tools are there and it is wanted.
pub proof fn law_install_runs_iff_ready(env: Environment, options: PlanOptions)
    ensures
        planned(env, Action::InstallDriver, options).runnable() <==> (env.driver_source is Some
            && env.headers.usable && env.has_make && env.has_compiler && (
        !env.fan_control_available || options.force)),
{
}

/// The stock driver is put in safety before anything is built or installed:
/// the backup is the third step of every install, and everything that builds,
/// installs or loads a module comes later.
pub proof fn law_backup_comes_first(env: Environment, options: PlanOptions, i: int)
    requires
        env.driver_source is Some,
        0 <= i < install_steps(env, options).len(),
        install_steps(env, options)[i].command.len() > 0 || install_steps(env, options)[i].id
            == "install-module"@,
    ensures
        install_steps(env, options)[2].id == "backup-driver"@,
        i > 2,
{
    let steps = install_steps(env, options);
    assert(steps[0] == preparation()[0]);
    assert(steps[1] == preparation()[1]);
    assert(steps[2] == preparation()[2]);
    reveal_strlit("patch-source");
    reveal_strlit("stage-source");
    reveal_strlit("backup-driver");
    reveal_strlit("install-module");
    assert("install-module"@.len() == 14);
}

/// Where our module is registered already, it is taken out before the new one
/// is registered.
pub proof fn law_old_registration_goes_first(env: Environment)
    requires
        env.dkms_installed,
    ensures
        dkms_build(env)[0].id == "dkms-remove-old"@,
        dkms_build(env)[0].optional,
        dkms_build(env)[1].id == "dkms-add"@,
{
}

/// Regenerating the initramfs is the last step of an install and of a restore,
/// and its failure is tolerated; without a tool there is no such step.
pub proof fn law_initramfs_is_last_and_optional(env: Environment, options: PlanOptions)
    requires
        env.driver_source is Some,
        initramfs_for(text::opt_view(env.initramfs_tool)).len() > 0,
    ensures
        install_steps(env, options).last().id == "initramfs"@,
        install_steps(env, options).last().optional,
        restore_steps(env).last().id == "initramfs"@,
        restore_steps(env).last().optional,
{
}

/// An install with the sources at hand and every restore end by making the
/// kernel take the other module: its dependencies are rebuilt, the loaded module
/// is taken out where it can be, and the new one is loaded, after which it
/// stays. Whatever puts a module in its place comes before all of that. The
/// result is where the three steps are.
pub proof fn law_the_other_module_is_loaded_and_stays(
    env: Environment,
    action: Action,
    options: PlanOptions,
) -> (at: (int, int, int))
    requires
        action == Action::RestoreDriver || (action == Action::InstallDriver && env.driver_source is
            Some),
    ensures
        ({
            let steps = planned(env, action, options).steps;
            let (depmod, unload, load) = at;
            &&& 0 <= depmod < unload < load < steps.len()
            &&& steps[depmod].id == "depmod"@
            &&& steps[depmod].command == seq!["depmod"@, "-a"@]
            &&& steps[unload].command == seq!["modprobe"@, "-r"@, "hp-wmi"@]
            &&& steps[load].command == seq!["modprobe"@, "hp-wmi"@]
            &&& !steps[depmod].optional && steps[unload].optional && !steps[load].optional
            &&& forall|m: int|
                load < m < steps.len() ==> (#[trigger] steps[m]).command != seq![
                    "modprobe"@,
                    "-r"@,
                    "hp-wmi"@,
                ]
            &&& forall|m: int|
                0 <= m < steps.len() && ((#[trigger] steps[m]).id == "install-module"@
                    || steps[m].id == "dkms-install"@ || steps[m].id == "restore-backups"@)
                    ==> m < depmod
        }),
{
    let steps = planned(env, action, options).steps;
    let before = if action == Action::InstallDriver {
        preparation() + (if strategy_for(env, options) == Strategy::Dkms {
            dkms_build(env)
        } else {
            hooks_build(env)
        })
    } else {
        restoration(env)
    };
    let (unload, load) = if action == Action::InstallDriver {
        ("Unload the current hp-wmi"@, "Load the patched hp-wmi"@)
    } else {
        ("Unload hp-wmi"@, "Load the stock hp-wmi"@)
    };
    let last = initramfs_for(text::opt_view(env.initramfs_tool));
    let rest = reload(unload, load);
    assert(steps =~= before + rest + last);
    let i = before.len() as int;
    assert(steps[i] == rest[0]);
    assert(steps[i + 1] == rest[1]);
    assert(steps[i + 2] == rest[2]);
    reveal_strlit("install-module");
    reveal_strlit("dkms-install");
    reveal_strlit("restore-backups");
    reveal_strlit("depmod");
    reveal_strlit("modprobe-remove");
    reveal_strlit("modprobe");
    reveal_strlit("initramfs");
    assert("install-module"@.len() == 14);
    assert("dkms-install"@.len() == 12);
    assert("restore-backups"@.len() == 15);
    assert("depmod"@.len() == 6);
    assert("modprobe-remove"@.len() == 15);
    assert("modprobe"@.len() == 8);
    assert("initramfs"@.len() == 9);
    assert("modprobe-remove"@[0] == 'm' && "restore-backups"@[0] == 'r');
    assert forall|m: int| i + 2 < m < steps.len() implies (#[trigger] steps[m]).command != seq![
        "modprobe"@,
        "-r"@,
        "hp-wmi"@,
    ] && steps[m].id == "initramfs"@ by {
        assert(steps[m] == last[m - i - 3]);
        assert(last[0].command.len() == 2);
    }
    assert forall|m: int| 0 <= m < steps.len() && ((#[trigger] steps[m]).id == "install-module"@
        || steps[m].id == "dkms-install"@ || steps[m].id == "restore-backups"@) implies m < i by {
        if m >= i && m <= i + 2 {
            assert(steps[m] == rest[m - i]);
        }
    }
    (i, i + 1, i + 2)
}

/// What a restore does before the module is reloaded.
spec fn restoration(env: Environment) -> Seq<StepView> {
    when(
        env.dkms_installed,
        tolerated(
            runs(
                "dkms-remove"@,
                "Deregister the DKMS module"@,
                seq!["dkms"@, "remove"@, dkms_module(), "--all"@],
            ),
        ),
    ) + seq![
        performs("remove-sources"@, "Delete "@ + source_dir()),
        performs("remove-hooks"@, "Delete any installed kernel-upgrade hook"@),
        performs(
            "restore-backups"@,
            "Rename every hp-wmi.ko.bak back to hp-wmi.ko, restoring the stock driver"@,
        ),
    ]
}

/// DKMS is used where it is there and nobody asked for hooks.
pub proof fn law_dkms_is_used_where_it_can_be(env: Environment, options: PlanOptions)
    ensures
        planned(env, Action::InstallDriver, options).strategy == (if env.driver_source is None {
            None
        } else if env.has_dkms && !options.prefer_hooks {
            Some(Strategy::Dkms)
        } else {
            Some(Strategy::Hooks)
        }),
        planned(env, Action::RestoreDriver, options).strategy is None,
{
}

/// The module is built from the sources after they were patched and staged, and
/// the stock one is put in safety before: through DKMS it is registered, built
/// and installed, in this order, after an older registration was taken out.
pub proof fn law_dkms_registers_builds_and_installs(env: Environment, options: PlanOptions)
    requires
        env.driver_source is Some,
        env.has_dkms,
        !options.prefer_hooks,
    ensures
        ({
            let steps = planned(env, Action::InstallDriver, options).steps;
            let n: int = if env.dkms_installed {
                4
            } else {
                3
            };
            &&& steps.len() >= n + 3
            &&& steps[0].id == "patch-source"@
            &&& steps[1].id == "stage-source"@
            &&& steps[2].id == "backup-driver"@
            &&& env.dkms_installed ==> steps[3].command == seq![
                "dkms"@,
                "remove"@,
                "hp-wmi-omen"@ + "/"@ + "1.0"@,
                "--all"@,
            ] && steps[3].optional
            &&& steps[n].command == seq!["dkms"@, "add"@, "-m"@, "hp-wmi-omen"@, "-v"@, "1.0"@]
            &&& steps[n + 1].command == seq![
                "dkms"@,
                "build"@,
                "-m"@,
                "hp-wmi-omen"@,
                "-v"@,
                "1.0"@,
            ]
            &&& steps[n + 2].command == seq![
                "dkms"@,
                "install"@,
                "-m"@,
                "hp-wmi-omen"@,
                "-v"@,
                "1.0"@,
            ]
            &&& forall|k: int|
                0 <= k < n + 3 ==> (#[trigger] steps[k]).optional == (env.dkms_installed && k == 3)
            &&& steps[n + 3].id == "depmod"@
        }),
{
    let steps = planned(env, Action::InstallDriver, options).steps;
    let build = dkms_build(env);
    let rest = reload("Unload the current hp-wmi"@, "Load the patched hp-wmi"@);
    let last = initramfs_for(text::opt_view(env.initramfs_tool));
    assert(steps =~= preparation() + build + rest + last);
    assert(steps[0] == preparation()[0]);
    assert(steps[1] == preparation()[1]);
    assert(steps[2] == preparation()[2]);
    assert(forall|k: int| 0 <= k < build.len() ==> steps[k + 3] == #[trigger] build[k]);
    let n: int = if env.dkms_installed {
        4
    } else {
        3
    };
    assert(build.len() == n);
    assert(steps[3] == build[0] && steps[4] == build[1] && steps[5] == build[2]);
    assert(steps[n + 2] == build[n - 1]);
    assert(steps[n + 3] == rest[0]);
}

/// Without DKMS the module is made and installed for the running kernel, the
/// distribution's hook is installed where there is one, and the build tree is
/// cleaned.
pub proof fn law_hooks_make_and_install(env: Environment, options: PlanOptions)
    requires
        env.driver_source is Some,
        !env.has_dkms || options.prefer_hooks,
    ensures
        ({
            let steps = planned(env, Action::InstallDriver, options).steps;
            let n: int = if env.hook_flavour == HookFlavour::NoHook {
                5
            } else {
                6
            };
            let tree = "/usr/src/"@ + "hp-wmi-omen"@ + "-"@ + "1.0"@ + "/src/hp-wmi-omen"@;
            &&& steps.len() > n + 1
            &&& steps[0].id == "patch-source"@
            &&& steps[1].id == "stage-source"@
            &&& steps[2].id == "backup-driver"@
            &&& steps[3].command == seq!["make"@, "-C"@, tree]
            &&& steps[4].id == "install-module"@
            &&& env.hook_flavour == HookFlavour::Pacman ==> steps[5].id == "install-hook-pacman"@
            &&& env.hook_flavour == HookFlavour::KernelPostinst ==> steps[5].id
                == "install-hook-postinst"@
            &&& env.hook_flavour == HookFlavour::KernelInstall ==> steps[5].id
                == "install-hook-kernel-install"@
            &&& steps[n].command == seq!["make"@, "-C"@, tree, "clean"@]
            &&& forall|k: int| 0 <= k <= n ==> (#[trigger] steps[k]).optional == (k == n)
            &&& steps[n + 1].id == "depmod"@
        }),
{
    let steps = planned(env, Action::InstallDriver, options).steps;
    let build = hooks_build(env);
    let rest = reload("Unload the current hp-wmi"@, "Load the patched hp-wmi"@);
    let last = initramfs_for(text::opt_view(env.initramfs_tool));
    assert(steps =~= preparation() + build + rest + last);
    assert(steps[0] == preparation()[0]);
    assert(steps[1] == preparation()[1]);
    assert(steps[2] == preparation()[2]);
    assert(forall|k: int| 0 <= k < build.len() ==> steps[k + 3] == #[trigger] build[k]);
    assert(steps[3] == build[0] && steps[4] == build[1] && steps[5] == build[2]);
    let n: int = if env.hook_flavour == HookFlavour::NoHook {
        5
    } else {
        6
    };
    assert(build.len() == n - 2);
    assert(steps[n] == build[n - 3]);
    assert(steps[n + 1] == rest[0]);
}

/// A restore takes our registration, our sources and our hooks away and brings
/// the backups back, in this order, before the stock module is loaded.
pub proof fn law_a_restore_undoes_an_install(env: Environment, options: PlanOptions)
    ensures
        ({
            let steps = planned(env, Action::RestoreDriver, options).steps;
            let n: int = if env.dkms_installed {
                1
            } else {
                0
            };
            &&& steps.len() >= n + 6
            &&& env.dkms_installed ==> steps[0].command == seq![
                "dkms"@,
                "remove"@,
                "hp-wmi-omen"@ + "/"@ + "1.0"@,
                "--all"@,
            ] && steps[0].optional
            &&& steps[n].id == "remove-sources"@ && !steps[n].optional
            &&& steps[n + 1].id == "remove-hooks"@ && !steps[n + 1].optional
            &&& steps[n + 2].id == "restore-backups"@ && !steps[n + 2].optional
            &&& steps[n + 3].id == "depmod"@
            &&& planned(env, Action::RestoreDriver, options).runnable()
        }),
{
    let steps = planned(env, Action::RestoreDriver, options).steps;
    let before = restoration(env);
    let rest = reload("Unload hp-wmi"@, "Load the stock hp-wmi"@);
    let last = initramfs_for(text::opt_view(env.initramfs_tool));
    assert(steps =~= before + rest + last);
    let n: int = if env.dkms_installed {
        1
    } else {
        0
    };
    assert(before.len() == n + 3);
    assert(forall|k: int| 0 <= k < before.len() ==> steps[k] == #[trigger] before[k]);
    assert(steps[n] == before[n] && steps[n + 1] == before[n + 1] && steps[n + 2] == before[n
        + 2]);
    assert(steps[n + 3] == rest[0]);
}

/// The initramfs is regenerated by the tool the machine has, behind everything
/// else; with no tool that is known, it is left alone.
pub proof fn law_the_initramfs_is_made_by_the_tool_that_is_there(
    env: Environment,
    action: Action,
    options: PlanOptions,
)
    requires
        action == Action::RestoreDriver || (action == Action::InstallDriver && env.driver_source is
            Some),
    ensures
        ({
            let step = planned(env, action, options).steps.last();
            let tool = text::opt_view(env.initramfs_tool);
            &&& tool == Some("update-initramfs"@) ==> step.command == seq![
                "update-initramfs"@,
                "-u"@,
            ]
            &&& tool == Some("mkinitcpio"@) ==> step.command == seq!["mkinitcpio"@, "-P"@]
            &&& tool == Some("dracut"@) ==> step.command == seq!["dracut"@, "--force"@]
            &&& tool is None ==> step.command == seq!["modprobe"@, "hp-wmi"@]
        }),
{
    let steps = planned(env, action, options).steps;
    reveal_strlit("update-initramfs");
    reveal_strlit("mkinitcpio");
    reveal_strlit("dracut");
    assert("update-initramfs"@.len() == 16);
    assert("mkinitcpio"@.len() == 10);
    assert("dracut"@.len() == 6);
    let last = initramfs_for(text::opt_view(env.initramfs_tool));
    if last.len() == 0 {
        let (unload, load) = if action == Action::InstallDriver {
            ("Unload the current hp-wmi"@, "Load the patched hp-wmi"@)
        } else {
            ("Unload hp-wmi"@, "Load the stock hp-wmi"@)
        };
        assert(steps.last() == reload(unload, load)[2]);
    } else {
        assert(steps.last() == last[0]);
    }
}

/// The service is written, made known and started, in this order; taking it
/// away stops it first, deletes it and makes that known.
pub proof fn law_the_service_is_started_and_stopped(env: Environment, options: PlanOptions)
    ensures
        ({
            let install = planned(env, Action::InstallService, options).steps;
            let remove = planned(env, Action::RemoveService, options).steps;
            &&& install.len() == 3
            &&& install[0].id == "write-unit"@
            &&& install[1].command == seq!["systemctl"@, "daemon-reload"@]
            &&& install[2].command == seq![
                "systemctl"@,
                "enable"@,
                "--now"@,
                "omen-hub-daemon.service"@,
            ]
            &&& !install[0].optional && !install[1].optional && !install[2].optional
            &&& remove.len() == 3
            &&& remove[0].command == seq![
                "systemctl"@,
                "disable"@,
                "--now"@,
                "omen-hub-daemon.service"@,
            ]
            &&& remove[1].id == "remove-unit"@
            &&& remove[2].command == seq!["systemctl"@, "daemon-reload"@]
            &&& remove[0].optional && !remove[1].optional && !remove[2].optional
        }),
{
}

/// What stands in the way of an install is named, each by its own name: that
/// fan control is there already, that the sources are missing, the headers or
/// the build tools. Where the sources are missing nothing further is asked, and
/// the headers' blocker says how to mend it where that is known.
pub proof fn law_each_blocker_is_named(env: Environment, options: PlanOptions)
    ensures
        ({
            let blockers = planned(env, Action::InstallDriver, options).blockers;
            let named = |id: Seq<char>|
                exists|i: int| 0 <= i < blockers.len() && (#[trigger] blockers[i]).id == id;
            &&& named("already-working"@) <==> env.fan_control_available && !options.force
            &&& named("no-driver-source"@) <==> env.driver_source is None
            &&& named("kernel-headers"@) <==> env.driver_source is Some && !env.headers.usable
            &&& named("build-tools"@) <==> env.driver_source is Some && (!env.has_make
                || !env.has_compiler)
            &&& forall|i: int|
                0 <= i < blockers.len() && (#[trigger] blockers[i]).id == "kernel-headers"@
                    ==> blockers[i].fix == text::opt_view(env.headers.fix_hint)
        }),
{
    reveal_strlit("already-working");
    reveal_strlit("no-driver-source");
    reveal_strlit("kernel-headers");
    reveal_strlit("build-tools");
    assert("already-working"@.len() == 15);
    assert("no-driver-source"@.len() == 16);
    assert("kernel-headers"@.len() == 14);
    assert("build-tools"@.len() == 11);
    let blockers = planned(env, Action::InstallDriver, options).blockers;
    let first = when(env.fan_control_available && !options.force, already_working());
    if env.driver_source is None {
        assert(blockers == first.push(no_driver_source()));
        assert(blockers[first.len() as int] == no_driver_source());
        if first.len() > 0 {
            assert(blockers[0] == already_working());
        }
    } else {
        let second = when(
            !env.headers.usable,
            unusable_headers(text::opt_view(env.headers.fix_hint)),
        );
        let third = when(!env.has_make || !env.has_compiler, no_build_tools());
        assert(blockers == first + second + third);
        if first.len() > 0 {
            assert(blockers[0] == already_working());
        }
        if second.len() > 0 {
            assert(blockers[first.len() as int] == second[0]);
        }
        if third.len() > 0 {
            assert(blockers[(first.len() + second.len()) as int] == third[0]);
        }
    }
}

/// An install warns where fan control is there already or the kernel brings it,
/// and where no hook will rebuild the module; otherwise there is nothing to say.
pub proof fn law_an_install_warns_where_it_should(env: Environment, options: PlanOptions)
    ensures
        planned(env, Action::InstallDriver, options).warnings.len() == (
        if env.fan_control_available || env.kernel.has_upstream_fan_control {
            1int
        } else {
            0
        }) + (if env.driver_source is Some && (options.prefer_hooks || !env.has_dkms)
            && env.hook_flavour == HookFlavour::NoHook {
            1int
        } else {
            0
        }),
        planned(env, Action::InstallService, options).warnings.len() == (
        if env.service_installed {
            1int
        } else {
            0
        }),
        planned(env, Action::RestoreDriver, options).warnings.len() == 0,
{
}

} // verus!
