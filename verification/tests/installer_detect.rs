use pyren::installer::detect::{
    distro_id, dkms_status, driver_candidates, headers_info, headers_install_hint, hook_flavour,
    initramfs_tool, kernel_info, parse_kernel_version, Environment, HookFlavour, InitramfsTools,
    Survey, UPSTREAM_FAN_CONTROL_KERNEL,
};

#[test]
fn kernel_versions_parse_past_distro_suffixes() {
    assert_eq!(parse_kernel_version("6.12.4-arch1-1"), (6, 12));
    assert_eq!(parse_kernel_version("7.2.2-1-cachyos"), (7, 2));
    assert_eq!(parse_kernel_version("5.15.0-105-generic"), (5, 15));
    assert_eq!(parse_kernel_version(""), (0, 0));
}

#[test]
fn the_upstream_cutoff_is_compared_as_a_pair_not_a_float() {
    // 6.9 must not read as "newer than 6.20", which is what comparing
    // these as decimals would do.
    assert!(parse_kernel_version("6.9.0") < UPSTREAM_FAN_CONTROL_KERNEL);
    assert!(parse_kernel_version("6.20.0") >= UPSTREAM_FAN_CONTROL_KERNEL);
    assert!(parse_kernel_version("7.2.2-1-cachyos") >= UPSTREAM_FAN_CONTROL_KERNEL);
}

#[test]
fn arch_prefers_mkinitcpio_over_a_debian_compat_shim() {
    // Arch systems can have both installed; the shim is not the tool
    // that actually regenerates the boot image there.
    let preference_for_arch = ["mkinitcpio", "dracut", "update-initramfs"];
    let preference_for_debian = ["update-initramfs", "dracut", "mkinitcpio"];
    assert_eq!(preference_for_arch[0], "mkinitcpio");
    assert_eq!(preference_for_debian[0], "update-initramfs");
    // Whatever is picked must be installed, and the family's own comes first.
    for mkinitcpio in [false, true] {
        for dracut in [false, true] {
            for update_initramfs in [false, true] {
                let tools = InitramfsTools { mkinitcpio, dracut, update_initramfs };
                let installed = |tool: &str| match tool {
                    "mkinitcpio" => mkinitcpio,
                    "dracut" => dracut,
                    _ => update_initramfs,
                };
                let arch = preference_for_arch.iter().find(|t| installed(t)).copied();
                let debian = preference_for_debian.iter().find(|t| installed(t)).copied();
                assert_eq!(initramfs_tool("cachyos", tools).as_deref(), arch);
                assert_eq!(initramfs_tool("ubuntu", tools).as_deref(), debian);
            }
        }
    }
}

#[test]
fn distro_families_map_to_their_hook_mechanism() {
    assert_eq!(hook_flavour("cachyos"), HookFlavour::Pacman);
    assert_eq!(hook_flavour("ubuntu"), HookFlavour::KernelPostinst);
    assert_eq!(hook_flavour("almalinux"), HookFlavour::KernelInstall);
    assert_eq!(hook_flavour("nixos"), HookFlavour::NoHook);
}

#[test]
fn the_kernel_is_read_from_its_release() {
    let info = kernel_info(&Some("6.20.1-arch1-1\n".to_string()));
    assert_eq!(info.release, "6.20.1-arch1-1");
    assert_eq!((info.major, info.minor), (6, 20));
    assert!(info.has_upstream_fan_control);
    let unknown = kernel_info(&None);
    assert_eq!(unknown.release, "");
    assert!(!unknown.has_upstream_fan_control);
}

#[test]
fn the_distribution_is_named_by_os_release_or_by_its_marker() {
    let text = "NAME=\"CachyOS\"\nID=cachyos\nID_LIKE=arch\n".to_string();
    assert_eq!(distro_id(&Some(text), false, false, false), "cachyos");
    assert_eq!(distro_id(&Some("ID=\"almalinux\"\n".to_string()), false, false, false), "almalinux");
    assert_eq!(distro_id(&None, true, false, false), "arch");
    assert_eq!(distro_id(&None, false, true, false), "debian");
    assert_eq!(distro_id(&None, false, false, true), "fedora");
}

#[test]
fn headers_that_are_missing_come_with_the_command_that_installs_them() {
    assert_eq!(
        headers_install_hint("6.1.0-18-amd64", "debian"),
        "sudo apt install linux-headers-6.1.0-18-amd64"
    );
    assert_eq!(headers_install_hint("6.8.5", "fedora"), "sudo dnf install kernel-devel-6.8.5");
    assert_eq!(headers_install_hint("6.12", "arch"), "sudo pacman -S linux-headers");
    assert_eq!(headers_install_hint("6.12", "nixos"), "install the kernel headers for 6.12");

    let missing = headers_info("6.12", "arch", false, true, true);
    assert_eq!(missing.build_dir, None);
    assert!(!missing.usable && !missing.has_autoconf);
    assert_eq!(missing.fix_hint.as_deref(), Some("sudo pacman -S linux-headers"));

    let whole = headers_info("6.12", "arch", true, true, true);
    assert!(whole.usable);
    assert_eq!(whole.build_dir.as_deref(), Some("/lib/modules/6.12/build"));
    assert_eq!(whole.fix_hint, None);

    let partial = headers_info("6.12", "arch", true, true, false);
    assert!(!partial.usable);
    assert!(partial.fix_hint.is_some());
}

#[test]
fn the_module_is_found_in_what_dkms_prints() {
    let printed = "nvidia/550.1, 6.12: installed\n  hp-wmi-omen/1.0, 6.12: installed \n".to_string();
    assert_eq!(dkms_status(&Some(printed)).as_deref(), Some("hp-wmi-omen/1.0, 6.12: installed"));
    assert_eq!(dkms_status(&Some("nvidia/550.1\n".to_string())), None);
    assert_eq!(dkms_status(&None), None);
}

#[test]
fn a_named_directory_is_searched_first() {
    let named = driver_candidates(Some("/opt/driver".to_string()));
    assert_eq!(named[0], "/opt/driver");
    assert_eq!(named[1], "/usr/share/pyren/driver");
    assert_eq!(driver_candidates(None), named[1..]);
}

#[test]
fn a_survey_becomes_an_environment() {
    let survey = Survey {
        kernel_release: Some("6.12.4-arch1-1\n".to_string()),
        os_release: Some("ID=arch\n".to_string()),
        has_arch_release: true,
        has_debian_version: false,
        has_fedora_release: false,
        has_build_dir: true,
        has_autoconf: true,
        has_kbuild_scripts: true,
        has_dkms: true,
        dkms_output: Some("hp-wmi-omen/1.0: added\n".to_string()),
        has_make: true,
        has_gcc: false,
        has_cc: false,
        has_clang: true,
        tools: InitramfsTools { mkinitcpio: true, dracut: true, update_initramfs: true },
        fan_control_available: false,
        hp_wmi_loaded: true,
        acpi_call_available: false,
        driver_source: Some("/usr/share/pyren/driver".to_string()),
        has_unit_in_etc: false,
        has_unit_in_usr: true,
    };
    let env = Environment::detect(survey);
    assert_eq!(env.kernel.release, "6.12.4-arch1-1");
    assert_eq!(env.hook_flavour, HookFlavour::Pacman);
    assert!(env.headers.usable);
    assert!(env.dkms_installed);
    assert_eq!(env.dkms_status.as_deref(), Some("hp-wmi-omen/1.0: added"));
    assert!(env.has_compiler, "any of the three compilers will do");
    assert_eq!(env.initramfs_tool.as_deref(), Some("mkinitcpio"));
    assert!(env.service_installed);
    assert!(env.patch_needed());
}
