use pyren::installer::detect::{Environment, HeadersInfo, HookFlavour, KernelInfo};
use pyren::installer::plan::{dkms_src_dir, plan, Action, Plan, PlanOptions, Strategy};

/// A machine where everything the installer needs is present, and fan
/// control is *not* yet working - i.e. the case installing makes sense.
fn ready_env() -> Environment {
    Environment {
        kernel: KernelInfo {
            release: "6.12.4-arch1-1".into(),
            major: 6,
            minor: 12,
            has_upstream_fan_control: false,
        },
        distro_id: "arch".into(),
        hook_flavour: HookFlavour::Pacman,
        headers: HeadersInfo {
            build_dir: Some(String::from("/lib/modules/6.12.4-arch1-1/build")),
            has_autoconf: true,
            has_kbuild_scripts: true,
            usable: true,
            fix_hint: None,
        },
        has_dkms: true,
        dkms_installed: false,
        dkms_status: None,
        has_make: true,
        has_compiler: true,
        initramfs_tool: Some("mkinitcpio".into()),
        fan_control_available: false,
        hp_wmi_loaded: true,
        acpi_call_available: false,
        driver_source: Some(String::from("/usr/share/omen-hub/driver")),
        service_installed: false,
    }
}

fn ids(plan: &Plan) -> Vec<&str> {
    plan.steps.iter().map(|s| s.id.as_str()).collect()
}

#[test]
fn a_ready_machine_gets_a_dkms_plan() {
    let plan = plan(&ready_env(), Action::InstallDriver, PlanOptions::default());
    assert!(plan.is_runnable());
    assert_eq!(plan.strategy, Some(Strategy::Dkms));
    assert!(ids(&plan).contains(&"dkms-build"));
    assert!(!ids(&plan).contains(&"make"));
}

#[test]
fn without_dkms_the_plan_builds_and_installs_a_hook() {
    let env = Environment { has_dkms: false, ..ready_env() };
    let plan = plan(&env, Action::InstallDriver, PlanOptions::default());
    assert_eq!(plan.strategy, Some(Strategy::Hooks));
    assert!(ids(&plan).contains(&"make"));
    assert!(ids(&plan).contains(&"install-hook-pacman"));
}

#[test]
fn hooks_can_be_forced_even_when_dkms_exists() {
    let options = PlanOptions { prefer_hooks: true, ..PlanOptions::default() };
    let plan = plan(&ready_env(), Action::InstallDriver, options);
    assert_eq!(plan.strategy, Some(Strategy::Hooks));
}

#[test]
fn an_unknown_distro_warns_that_the_module_will_not_survive_upgrades() {
    let env = Environment {
        has_dkms: false,
        hook_flavour: HookFlavour::NoHook,
        ..ready_env()
    };
    let plan = plan(&env, Action::InstallDriver, PlanOptions::default());
    assert!(plan.is_runnable());
    assert!(!ids(&plan).iter().any(|id| id.starts_with("install-hook")));
    assert!(plan.warnings.iter().any(|w| w.contains("kernel upgrade")));
}

#[test]
fn a_machine_where_fan_control_already_works_is_refused() {
    let env = Environment { fan_control_available: true, ..ready_env() };
    let plan = plan(&env, Action::InstallDriver, PlanOptions::default());
    assert!(!plan.is_runnable());
    assert!(plan.blockers.iter().any(|b| b.id == "already-working"));
}

#[test]
fn that_refusal_can_be_overridden_deliberately() {
    let env = Environment { fan_control_available: true, ..ready_env() };
    let options = PlanOptions { force: true, ..PlanOptions::default() };
    let plan = plan(&env, Action::InstallDriver, options);
    assert!(plan.is_runnable());
    // ...but the reason it was questionable is still stated.
    assert!(plan.warnings.iter().any(|w| w.contains("already works")));
}

#[test]
fn a_modern_kernel_warns_without_blocking() {
    // Upstream has fan control, but this board isn't in its tables, so
    // the patch is still a legitimate thing to want.
    let env = Environment {
        kernel: KernelInfo {
            release: "7.2.2-1-cachyos".into(),
            major: 7,
            minor: 2,
            has_upstream_fan_control: true,
        },
        ..ready_env()
    };
    let plan = plan(&env, Action::InstallDriver, PlanOptions::default());
    assert!(plan.is_runnable());
    assert!(plan.warnings.iter().any(|w| w.contains("upstream")));
}

#[test]
fn missing_driver_sources_block_with_no_steps_at_all() {
    let env = Environment { driver_source: None, ..ready_env() };
    let plan = plan(&env, Action::InstallDriver, PlanOptions::default());
    assert!(!plan.is_runnable());
    assert!(plan.steps.is_empty());
    assert!(plan.blockers.iter().any(|b| b.id == "no-driver-source"));
}

#[test]
fn incomplete_headers_block_and_carry_the_fix_command() {
    let env = Environment {
        headers: HeadersInfo {
            usable: false,
            fix_hint: Some("sudo apt install linux-kbuild-6.12".into()),
            ..ready_env().headers
        },
        ..ready_env()
    };
    let plan = plan(&env, Action::InstallDriver, PlanOptions::default());
    assert!(!plan.is_runnable());
    let blocker = plan.blockers.iter().find(|b| b.id == "kernel-headers").unwrap();
    assert!(blocker.fix.as_deref().unwrap().contains("linux-kbuild"));
}

#[test]
fn the_stock_driver_is_backed_up_before_anything_replaces_it() {
    let plan = plan(&ready_env(), Action::InstallDriver, PlanOptions::default());
    let steps = ids(&plan);
    let backup = steps.iter().position(|id| *id == "backup-driver").unwrap();
    let install = steps.iter().position(|id| *id == "dkms-install").unwrap();
    assert!(backup < install, "the backup must happen before the install");
}

#[test]
fn an_existing_dkms_registration_is_removed_first() {
    let env = Environment { dkms_installed: true, ..ready_env() };
    let plan = plan(&env, Action::InstallDriver, PlanOptions::default());
    let steps = ids(&plan);
    assert!(steps.contains(&"dkms-remove-old"));
    assert!(
        steps.iter().position(|id| *id == "dkms-remove-old")
            < steps.iter().position(|id| *id == "dkms-add")
    );
}

#[test]
fn steps_that_are_known_to_fail_harmlessly_are_optional() {
    let plan = plan(&ready_env(), Action::InstallDriver, PlanOptions::default());
    let optional = |id: &str| plan.steps.iter().find(|s| s.id == id).unwrap().optional;
    // Regenerating the initramfs is known to fail on odd EFI layouts,
    // and unloading a driver that isn't loaded is not a problem.
    assert!(optional("initramfs"));
    assert!(optional("modprobe-remove"));
    assert!(!optional("modprobe"));
}

#[test]
fn restoring_puts_the_backed_up_driver_back() {
    let plan = plan(&ready_env(), Action::RestoreDriver, PlanOptions::default());
    assert!(plan.is_runnable());
    assert!(ids(&plan).contains(&"restore-backups"));
    assert!(ids(&plan).contains(&"remove-hooks"));
}

#[test]
fn every_plan_declares_that_it_needs_root() {
    for action in [
        Action::InstallDriver,
        Action::RestoreDriver,
        Action::InstallService,
        Action::RemoveService,
    ] {
        assert!(plan(&ready_env(), action, PlanOptions::default()).needs_root);
    }
}

#[test]
fn a_machine_with_no_initramfs_tool_simply_skips_that_step() {
    let env = Environment { initramfs_tool: None, ..ready_env() };
    let plan = plan(&env, Action::InstallDriver, PlanOptions::default());
    assert!(!ids(&plan).contains(&"initramfs"));
}

#[test]
fn the_initramfs_comes_last() {
    for prefer_hooks in [false, true] {
        let options = PlanOptions { prefer_hooks, force: false };
        let plan = plan(&ready_env(), Action::InstallDriver, options);
        let last = plan.steps.last().unwrap();
        assert_eq!(last.id, "initramfs");
        assert!(last.optional);
    }
}

#[test]
fn the_other_actions_are_never_blocked() {
    let env = Environment {
        driver_source: None,
        has_make: false,
        has_compiler: false,
        fan_control_available: true,
        ..ready_env()
    };
    for action in [Action::RestoreDriver, Action::InstallService, Action::RemoveService] {
        let plan = plan(&env, action, PlanOptions::default());
        assert!(plan.is_runnable());
        assert!(!plan.steps.is_empty());
    }
}

#[test]
fn a_missing_tool_blocks_the_build() {
    for (has_make, has_compiler) in [(false, true), (true, false), (false, false)] {
        let env = Environment { has_make, has_compiler, ..ready_env() };
        let plan = plan(&env, Action::InstallDriver, PlanOptions::default());
        assert!(!plan.is_runnable());
        assert_eq!(plan.blockers.len(), 1);
        assert_eq!(plan.blockers[0].id, "build-tools");
    }
}

#[test]
fn the_sources_are_staged_where_dkms_looks() {
    assert_eq!(dkms_src_dir(), "/usr/src/hp-wmi-omen-1.0");
}
