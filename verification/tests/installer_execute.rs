use std::collections::BTreeMap;

use pyren::error::{ErrorKind, ModuleError};
use pyren::installer::autodetect::{decide, Dmi, RpmSource};
use pyren::installer::detect::{Environment, HeadersInfo, HookFlavour, KernelInfo};
use pyren::installer::ec::EcProbe;
use pyren::installer::execute::{
    backup_in, backup_report, execute, leftovers, measured_options, module_dirs, patch_source,
    pin_measured_ceiling, removed_report, restore_backups, restore_name, run_command, run_step,
    stage_source, step_finished, step_started, stock_module_dir, write_service_unit,
    ExecuteContext, Execution, ExecutionReport, ModuleFile, StepAction, StepStatus, MODPROBE_CONF_PATH,
};
use pyren::installer::module::{
    begin_apply, check_apply, execute_context, ApplyRequest, InstallerModule, Method, PlanRequest,
};
use pyren::installer::patch::{BoardParams, BoardTable, MaxRpm};
use pyren::installer::plan::{plan, Action, Plan, PlanOptions, Step};

/// A machine where an install would go ahead, so the plan under test
/// has both required and optional steps in it.
fn ready_env() -> Environment {
    Environment {
        kernel: KernelInfo {
            release: "6.12.4-arch1-1".into(),
            major: 6,
            minor: 12,
            has_upstream_fan_control: false,
        },
        distro_id: "arch".into(),
        hook_flavour: HookFlavour::Pacman,
        headers: HeadersInfo {
            build_dir: Some(String::from("/lib/modules/6.12.4-arch1-1/build")),
            has_autoconf: true,
            has_kbuild_scripts: true,
            usable: true,
            fix_hint: None,
        },
        has_dkms: true,
        dkms_installed: false,
        dkms_status: None,
        has_make: true,
        has_compiler: true,
        initramfs_tool: Some("mkinitcpio".into()),
        fan_control_available: false,
        hp_wmi_loaded: true,
        acpi_call_available: false,
        driver_source: Some(String::from("/usr/share/pyren/driver")),
        service_installed: false,
    }
}

/// A module directory: what each file in it holds.
fn directory(files: &[(&str, &str)]) -> BTreeMap<String, String> {
    files.iter().map(|(path, held)| (path.to_string(), held.to_string())).collect()
}

/// Puts the backups of a directory back and removes what is left over.
fn restore_in(dir: &mut BTreeMap<String, String>) -> (Vec<String>, Vec<String>) {
    let mut restored = Vec::new();
    let found: Vec<String> = dir.keys().cloned().collect();
    for path in found {
        if let Some(original) = restore_name(&path) {
            let held = dir.remove(&path).unwrap();
            dir.insert(original.clone(), held);
            restored.push(original);
        }
    }
    let present: Vec<ModuleFile> = dir
        .keys()
        .map(|path| ModuleFile {
            path: path.clone(),
            name: path.rsplit('/').next().unwrap().to_string(),
        })
        .collect();
    let removed = leftovers(&present, &restored);
    for path in &removed {
        dir.remove(path);
    }
    (restored, removed)
}

/// Backs a directory's modules up and takes them out of the way.
fn back_up(dir: &mut BTreeMap<String, String>, may_hold_stock: bool) -> Vec<String> {
    let found: Vec<String> = dir.keys().cloned().collect();
    let mut backed_up = Vec::new();
    for removal in backup_in(&found, may_hold_stock) {
        let held = dir.remove(&removal.path).unwrap();
        if let Some(backup) = removal.backup {
            dir.insert(backup.clone(), held);
            backed_up.push(backup);
        }
    }
    backed_up
}

/// A compressed stock module put back from its backup, and the uncompressed
/// patched one still sitting next to it: `depmod` picks the uncompressed one.
#[test]
fn restoring_takes_the_patched_module_away_as_well() {
    let mut dir = directory(&[("hp-wmi.ko", "patched"), ("hp-wmi.ko.zst.bak", "stock")]);

    let (restored, removed) = restore_in(&mut dir);

    assert!(dir.contains_key("hp-wmi.ko.zst"), "the stock module comes back");
    assert!(!dir.contains_key("hp-wmi.ko"), "the patched one must not be left behind");
    assert!(!dir.contains_key("hp-wmi.ko.zst.bak"), "the backup is consumed");
    assert_eq!(restored.len(), 1);
    assert_eq!(removed.len(), 1);
}

#[test]
fn a_second_backup_is_never_taken_of_our_own_module() {
    let mut dir = directory(&[("hp-wmi.ko.zst.bak", "stock"), ("hp-wmi.ko", "patched")]);

    let backed_up = back_up(&mut dir, true);

    assert!(backed_up.is_empty(), "the stock module is already safe");
    assert!(!dir.contains_key("hp-wmi.ko.bak"), "and must not be shadowed by a patched one");
    assert!(!dir.contains_key("hp-wmi.ko"), "ours still goes, to leave depmod one answer");
    assert_eq!(dir["hp-wmi.ko.zst.bak"], "stock");
}

/// The first install on a fresh machine, which is the one run that has a stock
/// module to preserve.
#[test]
fn the_first_install_backs_the_stock_module_up() {
    let mut dir = directory(&[("hp-wmi.ko.zst", "stock")]);

    let backed_up = back_up(&mut dir, true);

    assert_eq!(backed_up.len(), 1);
    assert_eq!(dir["hp-wmi.ko.zst.bak"], "stock");
    assert!(!dir.contains_key("hp-wmi.ko.zst"));
}

/// A module found under `updates/` is a previous install of the patched driver.
#[test]
fn nothing_under_updates_is_mistaken_for_the_stock_module() {
    let mut dir = directory(&[("dkms/hp-wmi.ko.zst", "ours, from last time")]);

    let backed_up = back_up(&mut dir, false);

    assert!(backed_up.is_empty());
    assert!(!dir.contains_key("dkms/hp-wmi.ko.zst.bak"));
    assert!(!dir.contains_key("dkms/hp-wmi.ko.zst"), "it is still cleared out of the way");
}

#[test]
fn with_no_backup_nothing_is_removed() {
    let mut dir = directory(&[("hp-wmi.ko", "whatever is here")]);

    let (restored, removed) = restore_in(&mut dir);

    assert!(restored.is_empty());
    assert!(removed.is_empty());
    assert!(dir.contains_key("hp-wmi.ko"), "the only module stays");
}

#[test]
fn a_backup_of_the_same_name_simply_replaces_ours() {
    let mut dir = directory(&[("hp-wmi.ko", "patched"), ("hp-wmi.ko.bak", "stock")]);

    let (restored, removed) = restore_in(&mut dir);

    assert_eq!(dir["hp-wmi.ko"], "stock");
    assert_eq!(restored.len(), 1);
    assert!(removed.is_empty(), "nothing is left over to remove");
}

#[test]
fn a_leftover_patched_module_is_cleaned_up_even_with_no_backup() {
    let mut dir = directory(&[("hp-wmi.ko", "patched"), ("hp-wmi.ko.zst", "stock")]);

    let (restored, removed) = restore_in(&mut dir);

    assert!(restored.is_empty(), "there was no backup to restore");
    assert_eq!(removed.len(), 1, "but the leftover is ours and must go");
    assert!(!dir.contains_key("hp-wmi.ko"));
    assert!(dir.contains_key("hp-wmi.ko.zst"), "the stock module stays");
}

#[test]
fn a_lone_module_is_never_removed() {
    for name in ["hp-wmi.ko", "hp-wmi.ko.zst"] {
        let mut dir = directory(&[(name, "stock")]);

        let (restored, removed) = restore_in(&mut dir);

        assert!(restored.is_empty() && removed.is_empty());
        assert!(dir.contains_key(name), "{name} must survive");
    }
}

fn status_of(report: &ExecutionReport, id: &str) -> StepStatus {
    report.results.iter().find(|r| r.id == id).expect(id).status
}

/// The point of the checkbox: regenerating the initramfs is known to
/// fail on odd EFI layouts, and someone who knows their own boot setup
/// should be able to tell the installer to leave it alone.
#[test]
fn an_optional_step_the_caller_declined_is_not_run() {
    let env = ready_env();
    let plan = plan(&env, Action::InstallDriver, PlanOptions::default());
    let context = ExecuteContext {
        skip_steps: vec!["initramfs".to_string()],
        ..ExecuteContext::default()
    };

    let report = execute(&plan, &context);
    assert_eq!(status_of(&report, "initramfs"), StepStatus::Declined);
    // ...and nothing else changes: the rest of a dry run is still planned.
    assert_eq!(status_of(&report, "depmod"), StepStatus::Planned);
    assert!(report.succeeded, "declining a step is not a failure");
}

/// `Declined` and `Skipped` must stay distinct - one is a decision, the
/// other is the wreckage of an earlier failure, and a reader of the
/// report needs to know which happened.
#[test]
fn declining_is_reported_as_its_own_outcome() {
    let env = ready_env();
    let plan = plan(&env, Action::InstallDriver, PlanOptions::default());
    let context = ExecuteContext {
        skip_steps: vec!["modprobe-remove".to_string()],
        ..ExecuteContext::default()
    };

    let report = execute(&plan, &context);
    let result = report.results.iter().find(|r| r.id == "modprobe-remove").unwrap();
    assert_eq!(result.status, StepStatus::Declined);
    assert_eq!(result.detail.key, "installer.exec.declined");
    assert!(!report.results.iter().any(|r| r.status == StepStatus::Skipped));
}

/// Belt and braces behind `apply`'s own validation: even handed a
/// required step, `execute` runs it. Skipping `depmod` would leave a
/// module installed that nothing can find, and report success.
#[test]
fn a_required_step_is_run_even_if_it_was_named() {
    let env = ready_env();
    let plan = plan(&env, Action::InstallDriver, PlanOptions::default());
    let context = ExecuteContext {
        skip_steps: vec!["depmod".to_string()],
        ..ExecuteContext::default()
    };

    let report = execute(&plan, &context);
    assert_eq!(status_of(&report, "depmod"), StepStatus::Planned);
}

fn install_plan() -> Plan {
    plan(&ready_env(), Action::InstallDriver, PlanOptions::default())
}

/// Carries a plan out with what each step comes to.
fn carry_out(
    plan: &Plan,
    context: &ExecuteContext,
    outcome: impl Fn(&str) -> Result<String, String>,
) -> (ExecutionReport, Vec<String>) {
    let mut run = Execution::begin(false);
    let mut ran = Vec::new();
    while let Some(i) = run.next(plan) {
        if run.must_run(plan, context) {
            let id = plan.steps[i].id.clone();
            let came = outcome(&id);
            ran.push(id);
            run.record(plan, context, Some(came));
        } else {
            run.record(plan, context, None);
        }
    }
    (run.report(), ran)
}

#[test]
fn a_real_run_records_every_step_in_order() {
    let plan = install_plan();
    let (report, ran) = carry_out(&plan, &ExecuteContext::default(), |id| Ok(format!("did {id}")));
    assert!(!report.dry_run);
    assert!(report.succeeded);
    assert_eq!(ran.len(), plan.steps.len());
    for (result, step) in report.results.iter().zip(&plan.steps) {
        assert_eq!(result.id, step.id);
        assert_eq!(result.status, StepStatus::Done);
        assert_eq!(result.detail.text, format!("did {}", step.id));
    }
}

#[test]
fn nothing_runs_after_a_required_step_fails() {
    let plan = install_plan();
    let (report, ran) = carry_out(&plan, &ExecuteContext::default(), |id| {
        if id == "dkms-build" { Err("no compiler".to_string()) } else { Ok(String::new()) }
    });
    assert!(!report.succeeded);
    assert_eq!(ran.last().map(String::as_str), Some("dkms-build"));
    assert_eq!(status_of(&report, "dkms-build"), StepStatus::Failed);
    assert_eq!(status_of(&report, "modprobe"), StepStatus::Skipped);
    assert_eq!(report.results.len(), plan.steps.len());
}

#[test]
fn an_optional_step_that_fails_only_warns() {
    let plan = install_plan();
    let (report, _) = carry_out(&plan, &ExecuteContext::default(), |id| {
        if id == "initramfs" { Err("odd EFI layout".to_string()) } else { Ok(String::new()) }
    });
    assert!(report.succeeded);
    assert_eq!(status_of(&report, "initramfs"), StepStatus::Warned);
}

#[test]
fn a_dry_run_runs_nothing() {
    let report = execute(&install_plan(), &ExecuteContext::default());
    assert!(report.dry_run && report.succeeded);
    assert!(report.results.iter().all(|r| r.status == StepStatus::Planned));
}

fn bare_step(id: &str, command: Vec<String>) -> Step {
    Step { id: id.to_string(), description: String::new(), command, optional: false }
}

#[test]
fn a_step_with_a_command_runs_it_and_others_are_known_by_their_id() {
    let with = bare_step("patch-source", vec!["true".to_string()]);
    assert_eq!(run_step(&with), Ok(StepAction::RunCommand));
    for (id, action) in [
        ("patch-source", StepAction::PatchSource),
        ("stage-source", StepAction::StageSource),
        ("backup-driver", StepAction::BackupDriver),
        ("install-module", StepAction::InstallModule),
        ("install-hook-pacman", StepAction::InstallHook),
        ("write-modprobe-conf", StepAction::WriteModprobeConf),
        ("remove-modprobe-conf", StepAction::RemoveModprobeConf),
        ("remove-sources", StepAction::RemoveSources),
        ("remove-hooks", StepAction::RemoveHooks),
        ("restore-backups", StepAction::RestoreBackups),
        ("write-unit", StepAction::WriteUnit),
        ("remove-unit", StepAction::RemoveUnit),
    ] {
        assert_eq!(run_step(&bare_step(id, Vec::new())), Ok(action));
    }
    assert_eq!(
        run_step(&bare_step("dance", Vec::new())),
        Err("no implementation for internal step 'dance'".to_string())
    );
}

#[test]
fn every_step_of_every_plan_has_an_implementation() {
    for action in
        [Action::InstallDriver, Action::RestoreDriver, Action::InstallService, Action::RemoveService]
    {
        for has_dkms in [true, false] {
            let env = Environment { has_dkms, ..ready_env() };
            for step in &plan(&env, action, PlanOptions::default()).steps {
                assert!(run_step(step).is_ok(), "{}", step.id);
            }
        }
    }
}

#[test]
fn a_command_is_reported_by_its_last_line_or_its_complaint() {
    assert_eq!(run_command("dkms", true, Some(0), "a\nb\n", "noise"), Ok("b".to_string()));
    assert_eq!(run_command("dkms", true, Some(0), "", ""), Ok(String::new()));
    assert_eq!(
        run_command("dkms", false, Some(3), "a", " bad \n"),
        Err("dkms exited with 3: bad".to_string())
    );
    assert_eq!(run_command("dkms", false, None, "", ""), Err("dkms exited with -1: ".to_string()));
}

#[test]
fn staging_fills_in_the_package() {
    assert_eq!(
        stage_source("PACKAGE_NAME=@PKGNAME@\nPACKAGE_VERSION=@PKGVER@ # @PKGNAME@\n"),
        "PACKAGE_NAME=hp-wmi-omen\nPACKAGE_VERSION=1.0 # hp-wmi-omen\n"
    );
}

#[test]
fn the_reports_of_the_internal_steps() {
    let none: Vec<String> = Vec::new();
    let two = vec!["a".to_string(), "b".to_string()];
    assert_eq!(patch_source(&none), "no source changes requested");
    assert_eq!(patch_source(&two), "a; b");
    assert_eq!(backup_report(&none), "no stock driver found to back up");
    assert_eq!(backup_report(&two), "backed up a, b");
    assert_eq!(
        restore_backups(&none, &two),
        "no backups found; the distribution's own module will be used"
    );
    assert_eq!(restore_backups(&two, &none), "restored a, b");
    assert_eq!(restore_backups(&none.clone(), &none), restore_backups(&none, &two));
    assert_eq!(
        restore_backups(&vec!["x".to_string()], &two),
        "restored x, removed the patched a, b"
    );
    assert_eq!(removed_report(&none, "nothing there"), "nothing there");
    assert_eq!(removed_report(&two, "nothing there"), "removed a, b");
}

#[test]
fn modules_are_looked_for_where_the_kernel_keeps_them() {
    assert_eq!(stock_module_dir("6.12"), "/lib/modules/6.12/kernel/drivers/platform/x86/hp");
    assert_eq!(
        module_dirs("6.12"),
        vec![stock_module_dir("6.12"), "/lib/modules/6.12/updates".to_string()]
    );
    assert_eq!(restore_name("hp-wmi.ko.zst.bak").as_deref(), Some("hp-wmi.ko.zst"));
    assert_eq!(restore_name("hp-wmi.ko.zst"), None);
}

#[test]
fn measured_ceilings_are_written_in_hundreds_and_bounded() {
    let both = MaxRpm { cpu: Some(6400), gpu: Some(5899) };
    assert_eq!(
        measured_options(both).unwrap(),
        vec!["cpu_max_rpm_measured=64".to_string(), "gpu_max_rpm_measured=58".to_string()]
    );
    let (body, report) = pin_measured_ceiling(both).unwrap();
    assert!(body.ends_with("options hp-wmi cpu_max_rpm_measured=64 gpu_max_rpm_measured=58\n"));
    assert!(report.ends_with(MODPROBE_CONF_PATH));

    assert_eq!(
        measured_options(MaxRpm { cpu: Some(99), gpu: None }).unwrap_err(),
        "99 rpm is outside what cpu_max_rpm_measured can hold (100-25500 rpm)"
    );
    assert_eq!(
        measured_options(MaxRpm { cpu: None, gpu: Some(25600) }).unwrap_err(),
        "25600 rpm is outside what gpu_max_rpm_measured can hold (100-25500 rpm)"
    );
    assert!(measured_options(MaxRpm { cpu: Some(25599), gpu: None }).is_ok());
    assert_eq!(
        measured_options(MaxRpm::default()).unwrap_err(),
        "no measured fan ceiling to write; run the fan calibration first"
    );
}

#[test]
fn the_unit_starts_the_daemon_that_was_named() {
    let named = ExecuteContext {
        daemon_binary: Some("/usr/bin/pyren-daemon".to_string()),
        ..ExecuteContext::default()
    };
    let unit = write_service_unit(&named, Some("/proc/self".to_string())).unwrap();
    assert!(unit.contains("\nExecStart=/usr/bin/pyren-daemon\n"));
    let own = write_service_unit(&ExecuteContext::default(), Some("/opt/p".to_string())).unwrap();
    assert!(own.contains("\nExecStart=/opt/p\n"));
    assert_eq!(
        write_service_unit(&ExecuteContext::default(), None).unwrap_err(),
        "could not determine the daemon's own path"
    );
}

#[test]
fn the_installer_knows_its_methods() {
    let module = InstallerModule::new();
    assert_eq!(module.route("inspect").unwrap(), Method::Inspect);
    assert_eq!(module.route("autodetect").unwrap(), Method::Autodetect);
    assert_eq!(module.route("plan").unwrap(), Method::Plan);
    assert_eq!(module.route("apply").unwrap(), Method::Apply);
    match module.route("fly") {
        Err(ModuleError::UnknownMethod(name)) => assert_eq!(name, "fly"),
        other => panic!("{other:?}"),
    }
    let request = PlanRequest { action: Action::InstallDriver, prefer_hooks: true, force: false };
    assert_eq!(request.options(), PlanOptions { prefer_hooks: true, force: false });
}

fn request() -> ApplyRequest {
    ApplyRequest {
        action: Action::InstallDriver,
        prefer_hooks: false,
        force: false,
        confirm: false,
        auto: false,
        cpu_max_rpm: None,
        gpu_max_rpm: None,
        experimental_board: None,
        board_table: None,
        skip_steps: Vec::new(),
    }
}

#[test]
fn an_apply_is_checked_before_anything_is_done() {
    let plan = install_plan();
    assert!(check_apply(&plan, &request()).is_ok());

    let blocked = pyren::installer::plan::plan(
        &Environment { fan_control_available: true, ..ready_env() },
        Action::InstallDriver,
        PlanOptions::default(),
    );
    match check_apply(&blocked, &request()) {
        Err(ModuleError::Localised { kind, msg }) => {
            assert_eq!(kind, ErrorKind::NotCapable);
            assert_eq!(msg.key, "installer.err.planNotRunnable");
            assert!(msg.text.starts_with("this plan cannot run: "));
        }
        other => panic!("{other:?}"),
    }

    let skipping = |id: &str| ApplyRequest { skip_steps: vec![id.to_string()], ..request() };
    assert!(check_apply(&plan, &skipping("initramfs")).is_ok());
    match check_apply(&plan, &skipping("depmod")) {
        Err(ModuleError::InvalidParams(m)) => {
            assert!(m.starts_with("step 'depmod' is not optional"))
        }
        other => panic!("{other:?}"),
    }
    match check_apply(&plan, &skipping("dance")) {
        Err(ModuleError::InvalidParams(m)) => assert_eq!(m, "no step 'dance' in this plan"),
        other => panic!("{other:?}"),
    }

    let boarded = ApplyRequest { experimental_board: Some("8D2F".to_string()), ..request() };
    match check_apply(&plan, &boarded) {
        Err(ModuleError::InvalidParams(m)) => assert!(m.contains("boardTable")),
        other => panic!("{other:?}"),
    }
    let tabled = ApplyRequest { board_table: Some(BoardTable::OmenTimed), ..boarded };
    assert!(check_apply(&plan, &tabled).is_ok());
}

#[test]
fn what_was_sent_outranks_what_was_detected() {
    let source = "static const struct dmi_system_id hp_wmi_feature_boards[] = {\n\t{},\n};\n";
    let detected = decide(
        Dmi {
            board_name: Some("8D2F".to_string()),
            product_name: Some("OMEN 16".to_string()),
            ..Dmi::default()
        },
        Some(source),
        MaxRpm { cpu: Some(6400), gpu: Some(5800) },
        RpmSource::Calibrated,
        EcProbe::NotProbed,
    );
    let sent = ApplyRequest { cpu_max_rpm: Some(7000), ..request() };
    let context = execute_context(&sent, Some(&detected), Some("/opt/p".to_string()));
    assert_eq!(context.max_rpm, MaxRpm { cpu: Some(7000), gpu: Some(5800) });
    assert_eq!(
        context.experimental_board,
        Some((BoardTable::Features(BoardParams::OmenV1NoEc), "8D2F".to_string()))
    );
    assert_eq!(context.daemon_binary.as_deref(), Some("/opt/p"));

    let alone = execute_context(&sent, None, None);
    assert_eq!(alone.max_rpm, MaxRpm { cpu: Some(7000), gpu: None });
    assert_eq!(alone.experimental_board, None);
}

/// Nothing is carried out unless the request is confirmed.
#[test]
fn an_unconfirmed_apply_is_a_rehearsal() {
    let plan = install_plan();
    let context = ExecuteContext::default();
    let mut run = begin_apply(&ApplyRequest { confirm: false, ..request() });
    while run.next(&plan).is_some() {
        assert!(!run.must_run(&plan, &context));
        run.record(&plan, &context, None);
    }
    let report = run.report();
    assert!(report.dry_run && report.succeeded);
    let confirmed = begin_apply(&ApplyRequest { confirm: true, ..request() });
    assert!(confirmed.must_run(&plan, &context));
}

/// A watcher hears of a step as it starts, and again with what it did.
#[test]
fn each_step_is_announced_twice() {
    let plan = install_plan();
    let context = ExecuteContext::default();
    let mut run = begin_apply(&ApplyRequest { confirm: true, ..request() });
    assert!(run.last().is_none());
    let started = step_started(&plan, 0);
    assert_eq!((started.index, started.total), (0, plan.steps.len()));
    assert_eq!(started.id, plan.steps[0].id);
    assert_eq!(started.description, plan.steps[0].description);
    assert!(started.status.is_none() && started.detail.is_none());
    run.record(&plan, &context, Some(Ok("did it".to_string())));
    let finished = step_finished(&plan, 0, run.last().unwrap());
    assert_eq!((finished.index, finished.total, finished.id), (0, plan.steps.len(), started.id));
    assert_eq!(finished.status, Some(StepStatus::Done));
    assert_eq!(finished.detail.unwrap().text, "did it");
}
