//! What this machine already has, so the installer can decide what (if
//! anything) needs doing.
use vstd::prelude::*;
use vstd::string::*;

use crate::number;
use crate::text;
use crate::text::Class;

verus! {

/// The kernel release that first carried manual fan control for these laptops.
/// On anything newer the patched driver is pointless.
pub const UPSTREAM_FAN_CONTROL_KERNEL: (u32, u32) = (6, 20);

/// Which kernel-upgrade hook mechanism this distribution uses.
#[derive(Debug, Clone, Copy, PartialEq, Eq, Structural)]
pub enum HookFlavour {
    /// Arch and derivatives: a pacman hook.
    Pacman,
    /// Debian and derivatives: `/etc/kernel/postinst.d/`.
    KernelPostinst,
    /// Fedora and derivatives: `/etc/kernel/install.d/`.
    KernelInstall,
    /// Unrecognised: the module can be built for the running kernel only.
    NoHook,
}

#[derive(Debug, Clone)]
pub struct KernelInfo {
    pub release: String,
    pub major: u32,
    pub minor: u32,
    /// True when the running kernel already ships manual fan control.
    pub has_upstream_fan_control: bool,
}

#[derive(Debug, Clone)]
pub struct HeadersInfo {
    pub build_dir: Option<String>,
    pub has_autoconf: bool,
    pub has_kbuild_scripts: bool,
    pub usable: bool,
    /// Distro-specific command that would fix an incomplete setup.
    pub fix_hint: Option<String>,
}

#[derive(Debug, Clone)]
pub struct Environment {
    pub kernel: KernelInfo,
    pub distro_id: String,
    pub hook_flavour: HookFlavour,
    pub headers: HeadersInfo,
    pub has_dkms: bool,
    /// True when our DKMS module is registered, whatever its state.
    pub dkms_installed: bool,
    pub dkms_status: Option<String>,
    pub has_make: bool,
    pub has_compiler: bool,
    pub initramfs_tool: Option<String>,
    /// Whether fan control works right now, whatever driver provides it.
    pub fan_control_available: bool,
    pub hp_wmi_loaded: bool,
    pub acpi_call_available: bool,
    /// Where the driver sources were found, if at all.
    pub driver_source: Option<String>,
    /// Whether the daemon's own service unit is installed.
    pub service_installed: bool,
}

/// What was found on the machine, before anything is made of it.
#[derive(Debug, Clone)]
pub struct Survey {
    /// The text of `/proc/sys/kernel/osrelease`.
    pub kernel_release: Option<String>,
    /// The text of `/etc/os-release`.
    pub os_release: Option<String>,
    pub has_arch_release: bool,
    pub has_debian_version: bool,
    pub has_fedora_release: bool,
    /// Whether the kernel's build directory is there, and what is in it.
    pub has_build_dir: bool,
    pub has_autoconf: bool,
    pub has_kbuild_scripts: bool,
    pub has_dkms: bool,
    /// What `dkms status` printed, where it succeeded.
    pub dkms_output: Option<String>,
    pub has_make: bool,
    pub has_gcc: bool,
    pub has_cc: bool,
    pub has_clang: bool,
    pub tools: InitramfsTools,
    pub fan_control_available: bool,
    pub hp_wmi_loaded: bool,
    pub acpi_call_available: bool,
    pub driver_source: Option<String>,
    pub has_unit_in_etc: bool,
    pub has_unit_in_usr: bool,
}

/// Which initramfs generators are installed.
#[derive(Debug, Clone, Copy, PartialEq, Eq, Structural)]
pub struct InitramfsTools {
    pub mkinitcpio: bool,
    pub dracut: bool,
    pub update_initramfs: bool,
}

// --- the kernel ----------------------------------------------------------

/// The number a run of digits is, and zero where it does not fit.
pub open spec fn version_part(parts: Seq<Seq<char>>, i: int) -> int {
    if i < parts.len() {
        match number::parse_unsigned(parts[i], 10, 0xffff_ffff) {
            Some(n) => n as int,
            None => 0,
        }
    } else {
        0
    }
}

/// The leading `major.minor` of a kernel release, whatever stands behind it.
pub open spec fn kernel_version(release: Seq<char>) -> (int, int) {
    let parts = text::words_by(release, Class::NotDigit);
    (version_part(parts, 0), version_part(parts, 1))
}

/// Whether a version is at least another: first by the major number, then by
/// the minor one.
pub open spec fn at_least(version: (int, int), other: (int, int)) -> bool {
    version.0 > other.0 || (version.0 == other.0 && version.1 >= other.1)
}

pub open spec fn has_upstream(version: (int, int)) -> bool {
    at_least(version, (6, 20))
}

fn read_part(parts: &Vec<Vec<char>>, i: usize) -> (r: u32)
    ensures
        r == version_part(text::rows(parts@), i as int),
{
    if i < parts.len() {
        match number::read_u32(&parts[i]) {
            Some(n) => n,
            None => 0,
        }
    } else {
        0
    }
}

pub fn parse_kernel_version(release: &str) -> (r: (u32, u32))
    ensures
        (r.0 as int, r.1 as int) == kernel_version(release@),
{
    let parts = text::words_of_class(&text::chars_of(release), Class::NotDigit);
    (read_part(&parts, 0), read_part(&parts, 1))
}

/// The release of the running kernel; nothing where it could not be read.
pub open spec fn release_of(raw: Option<Seq<char>>) -> Seq<char> {
    match raw {
        Some(s) => text::trim(s),
        None => seq![],
    }
}

pub fn kernel_info(raw: &Option<String>) -> (r: KernelInfo)
    ensures
        r.release@ == release_of(text::opt_view(*raw)),
        (r.major as int, r.minor as int) == kernel_version(r.release@),
        r.has_upstream_fan_control == has_upstream(kernel_version(r.release@)),
{
    let release = match raw {
        Some(s) => text::trimmed_str(s.as_str()),
        None => {
            let empty = String::new();
            proof {
                assert(empty@ =~= seq![]);
            }
            empty
        },
    };
    let (major, minor) = parse_kernel_version(release.as_str());
    let has_upstream_fan_control = major > UPSTREAM_FAN_CONTROL_KERNEL.0 || (major
        == UPSTREAM_FAN_CONTROL_KERNEL.0 && minor >= UPSTREAM_FAN_CONTROL_KERNEL.1);
    KernelInfo { release, major, minor, has_upstream_fan_control }
}

// --- the distribution ----------------------------------------------------

/// The value of an `ID=` line.
pub open spec fn id_on_line(line: Seq<char>) -> Option<Seq<char>> {
    if text::starts_with(line, "ID="@) {
        Some(
            text::ascii_lower(
                text::trim_class(text::trim(line.skip("ID="@.len() as int)), Class::Is('"')),
            ),
        )
    } else {
        None
    }
}

/// The distribution: what its release file calls it, and otherwise the family
/// whose marker file is there.
pub open spec fn distro(
    os_release: Option<Seq<char>>,
    arch: bool,
    debian: bool,
    fedora: bool,
) -> Seq<char> {
    let named = match os_release {
        Some(s) => text::first_some(text::lines(s), |l: Seq<char>| id_on_line(l)),
        None => None,
    };
    match named {
        Some(id) => id,
        None => if arch {
            "arch"@
        } else if debian {
            "debian"@
        } else if fedora {
            "fedora"@
        } else {
            "unknown"@
        },
    }
}

fn find_id(os_release: &str) -> (r: Option<String>)
    ensures
        text::opt_view(r) == text::first_some(
            text::lines(os_release@),
            |l: Seq<char>| id_on_line(l),
        ),
{
    let rows = text::lines_of(&text::chars_of(os_release));
    let mark = text::chars_of("ID=");
    let ghost all = text::lines(os_release@);
    let ghost f = |l: Seq<char>| id_on_line(l);
    let n: usize = rows.len();
    let mut i: usize = 0;
    proof {
        text::lemma_first_some_next(all, f, 0);
    }
    while i < n
        invariant
            n == rows@.len(),
            i <= n,
            mark@ == "ID="@,
            all == text::lines(os_release@),
            all == text::rows(rows@),
            f == (|l: Seq<char>| id_on_line(l)),
            text::first_some(all, f) == text::first_some(all.skip(i as int), f),
        decreases n - i,
    {
        proof {
            text::lemma_first_some_next(all, f, i as int);
            assert(all[i as int] == rows@[i as int]@);
        }
        if text::is_at(&rows[i], &mark, 0) {
            let end: usize = rows[i].len();
            let value = text::slice(&rows[i], mark.len(), end);
            proof {
                assert(value@ =~= rows@[i as int]@.skip(mark@.len() as int));
            }
            let bare = text::trimmed_class(&text::trimmed(&value), Class::Is('"'));
            return Some(text::ascii_lowered(text::string_of(&bare).as_str()));
        }
        i = i + 1;
    }
    proof {
        text::lemma_first_some_next(all, f, n as int);
    }
    None
}

pub fn distro_id(os_release: &Option<String>, arch: bool, debian: bool, fedora: bool) -> (r: String)
    ensures
        r@ == distro(text::opt_view(*os_release), arch, debian, fedora),
{
    let named = match os_release {
        Some(s) => find_id(s.as_str()),
        None => None,
    };
    match named {
        Some(id) => id,
        None => if arch {
            String::from_str("arch")
        } else if debian {
            String::from_str("debian")
        } else if fedora {
            String::from_str("fedora")
        } else {
            String::from_str("unknown")
        },
    }
}

pub open spec fn is_arch_family(id: Seq<char>) -> bool {
    id == "arch"@ || id == "manjaro"@ || id == "endeavouros"@ || id == "garuda"@ || id
        == "cachyos"@
}

pub open spec fn is_debian_family(id: Seq<char>) -> bool {
    id == "debian"@ || id == "ubuntu"@ || id == "linuxmint"@ || id == "pop"@
}

pub open spec fn is_fedora_family(id: Seq<char>) -> bool {
    id == "fedora"@ || id == "rhel"@ || id == "centos"@ || id == "rocky"@ || id == "almalinux"@
}

fn arch_family(id: &str) -> (r: bool)
    ensures
        r == is_arch_family(id@),
{
    text::same(id, "arch") || text::same(id, "manjaro") || text::same(id, "endeavouros")
        || text::same(id, "garuda") || text::same(id, "cachyos")
}

fn debian_family(id: &str) -> (r: bool)
    ensures
        r == is_debian_family(id@),
{
    text::same(id, "debian") || text::same(id, "ubuntu") || text::same(id, "linuxmint")
        || text::same(id, "pop")
}

fn fedora_family(id: &str) -> (r: bool)
    ensures
        r == is_fedora_family(id@),
{
    text::same(id, "fedora") || text::same(id, "rhel") || text::same(id, "centos") || text::same(
        id,
        "rocky",
    ) || text::same(id, "almalinux")
}

pub open spec fn flavour_of(id: Seq<char>) -> HookFlavour {
    if is_arch_family(id) {
        HookFlavour::Pacman
    } else if is_debian_family(id) {
        HookFlavour::KernelPostinst
    } else if is_fedora_family(id) {
        HookFlavour::KernelInstall
    } else {
        HookFlavour::NoHook
    }
}

pub fn hook_flavour(distro_id: &str) -> (r: HookFlavour)
    ensures
        r == flavour_of(distro_id@),
{
    if arch_family(distro_id) {
        HookFlavour::Pacman
    } else if debian_family(distro_id) {
        HookFlavour::KernelPostinst
    } else if fedora_family(distro_id) {
        HookFlavour::KernelInstall
    } else {
        HookFlavour::NoHook
    }
}

// --- the headers ---------------------------------------------------------

/// How to install the kernel's headers.
pub open spec fn install_hint(release: Seq<char>, id: Seq<char>) -> Seq<char> {
    if is_debian_family(id) {
        "sudo apt install linux-headers-"@ + release
    } else if is_fedora_family(id) {
        "sudo dnf install kernel-devel-"@ + release
    } else if is_arch_family(id) {
        "sudo pacman -S linux-headers"@
    } else {
        "install the kernel headers for "@ + release
    }
}

pub fn headers_install_hint(kernel_release: &str, distro_id: &str) -> (r: String)
    ensures
        r@ == install_hint(kernel_release@, distro_id@),
{
    if debian_family(distro_id) {
        String::from_str("sudo apt install linux-headers-").concat(kernel_release)
    } else if fedora_family(distro_id) {
        String::from_str("sudo dnf install kernel-devel-").concat(kernel_release)
    } else if arch_family(distro_id) {
        String::from_str("sudo pacman -S linux-headers")
    } else {
        String::from_str("install the kernel headers for ").concat(kernel_release)
    }
}

/// How to mend headers that are there and incomplete.
pub open spec fn repair_hint(
    release: Seq<char>,
    id: Seq<char>,
    autoconf: bool,
    kbuild: bool,
) -> Option<Seq<char>> {
    if autoconf && kbuild {
        None
    } else if is_debian_family(id) {
        if !autoconf {
            Some("sudo apt reinstall linux-headers-"@ + release)
        } else {
            // Debian's kbuild package is versioned without the local suffix.
            Some(
                "sudo apt install 'linux-kbuild-"@ + text::split(release, Class::Is('-'))[0]
                    + "*'"@,
            )
        }
    } else {
        Some("reinstall your kernel headers package"@)
    }
}

/// What is known about the headers. Without a build directory nothing in it
/// counts.
pub fn headers_info(
    kernel_release: &str,
    distro_id: &str,
    has_build_dir: bool,
    has_autoconf: bool,
    has_kbuild_scripts: bool,
) -> (r: HeadersInfo)
    ensures
        text::opt_view(r.build_dir) == (if has_build_dir {
            Some("/lib/modules/"@ + kernel_release@ + "/build"@)
        } else {
            None
        }),
        r.has_autoconf == (has_build_dir && has_autoconf),
        r.has_kbuild_scripts == (has_build_dir && has_kbuild_scripts),
        r.usable == (has_build_dir && has_autoconf && has_kbuild_scripts),
        text::opt_view(r.fix_hint) == (if has_build_dir {
            repair_hint(kernel_release@, distro_id@, has_autoconf, has_kbuild_scripts)
        } else {
            Some(install_hint(kernel_release@, distro_id@))
        }),
{
    if !has_build_dir {
        return HeadersInfo {
            build_dir: None,
            has_autoconf: false,
            has_kbuild_scripts: false,
            usable: false,
            fix_hint: Some(headers_install_hint(kernel_release, distro_id)),
        };
    }
    let fix_hint = if has_autoconf && has_kbuild_scripts {
        None
    } else if debian_family(distro_id) {
        if !has_autoconf {
            Some(String::from_str("sudo apt reinstall linux-headers-").concat(kernel_release))
        } else {
            let parts = text::split_at(&text::chars_of(kernel_release), Class::Is('-'));
            proof {
                assert(text::rows(parts@)[0] == parts@[0]@);
            }
            let base = text::string_of(&parts[0]);
            Some(
                String::from_str("sudo apt install 'linux-kbuild-").concat(base.as_str()).concat(
                    "*'",
                ),
            )
        }
    } else {
        Some(String::from_str("reinstall your kernel headers package"))
    };
    HeadersInfo {
        build_dir: Some(
            String::from_str("/lib/modules/").concat(kernel_release).concat("/build"),
        ),
        has_autoconf,
        has_kbuild_scripts,
        usable: has_autoconf && has_kbuild_scripts,
        fix_hint,
    }
}

// --- the rest ------------------------------------------------------------

/// The initramfs generator this distribution actually uses: by its family
/// first, and only then whatever exists.
pub open spec fn generator(id: Seq<char>, tools: InitramfsTools) -> Option<Seq<char>> {
    let mkinitcpio = if tools.mkinitcpio {
        Some("mkinitcpio"@)
    } else {
        None
    };
    let dracut = if tools.dracut {
        Some("dracut"@)
    } else {
        None
    };
    let update = if tools.update_initramfs {
        Some("update-initramfs"@)
    } else {
        None
    };
    match flavour_of(id) {
        HookFlavour::Pacman => first_of(mkinitcpio, dracut, update),
        HookFlavour::KernelPostinst => first_of(update, dracut, mkinitcpio),
        HookFlavour::KernelInstall => first_of(dracut, update, mkinitcpio),
        HookFlavour::NoHook => first_of(update, mkinitcpio, dracut),
    }
}

pub open spec fn first_of(
    a: Option<Seq<char>>,
    b: Option<Seq<char>>,
    c: Option<Seq<char>>,
) -> Option<Seq<char>> {
    match a {
        Some(x) => Some(x),
        None => match b {
            Some(x) => Some(x),
            None => c,
        },
    }
}

fn pick(a: Option<&'static str>, b: Option<&'static str>, c: Option<&'static str>) -> (r: Option<
    String,
>)
    ensures
        text::opt_view(r) == first_of(str_view(a), str_view(b), str_view(c)),
{
    match a {
        Some(x) => Some(String::from_str(x)),
        None => match b {
            Some(x) => Some(String::from_str(x)),
            None => match c {
                Some(x) => Some(String::from_str(x)),
                None => None,
            },
        },
    }
}

spec fn str_view(s: Option<&'static str>) -> Option<Seq<char>> {
    match s {
        Some(s) => Some(s@),
        None => None,
    }
}

pub fn initramfs_tool(distro_id: &str, tools: InitramfsTools) -> (r: Option<String>)
    ensures
        text::opt_view(r) == generator(distro_id@, tools),
{
    let mkinitcpio: Option<&'static str> = if tools.mkinitcpio {
        Some("mkinitcpio")
    } else {
        None
    };
    let dracut: Option<&'static str> = if tools.dracut {
        Some("dracut")
    } else {
        None
    };
    let update: Option<&'static str> = if tools.update_initramfs {
        Some("update-initramfs")
    } else {
        None
    };
    match hook_flavour(distro_id) {
        HookFlavour::Pacman => pick(mkinitcpio, dracut, update),
        HookFlavour::KernelPostinst => pick(update, dracut, mkinitcpio),
        HookFlavour::KernelInstall => pick(dracut, update, mkinitcpio),
        HookFlavour::NoHook => pick(update, mkinitcpio, dracut),
    }
}

/// The line of `dkms status` about our module.
pub open spec fn status_line(output: Option<Seq<char>>) -> Option<Seq<char>> {
    match output {
        Some(s) => match text::first_with(text::lines(s), "hp-wmi-omen"@) {
            Some(line) => Some(text::trim(line)),
            None => None,
        },
        None => None,
    }
}

pub fn dkms_status(output: &Option<String>) -> (r: Option<String>)
    ensures
        text::opt_view(r) == status_line(text::opt_view(*output)),
{
    match output {
        Some(s) => {
            let rows = text::lines_of(&text::chars_of(s.as_str()));
            match text::find_with(&rows, &text::chars_of("hp-wmi-omen")) {
                Some(i) => Some(text::string_of(&text::trimmed(&rows[i]))),
                None => None,
            }
        },
        None => None,
    }
}

/// Where the driver sources are looked for, in this order: the directory the
/// caller names, the installed copy, a checkout beside this one.
pub fn driver_candidates(named: Option<String>) -> (r: Vec<String>)
    ensures
        text::views(r@) == (match named {
            Some(dir) => seq![
                dir@,
                "/usr/share/pyren/driver"@,
                "../omen-fan-control-main/src/omen_fan_control/data/driver"@,
            ],
            None => seq![
                "/usr/share/pyren/driver"@,
                "../omen-fan-control-main/src/omen_fan_control/data/driver"@,
            ],
        }),
{
    let installed = String::from_str("/usr/share/pyren/driver");
    let beside = String::from_str("../omen-fan-control-main/src/omen_fan_control/data/driver");
    match named {
        Some(dir) => text::list_three(dir, installed, beside),
        None => text::list_two(installed, beside),
    }
}

impl Environment {
    /// What the survey says about the machine.
    pub fn detect(survey: Survey) -> (r: Environment)
        ensures
            r.kernel.release@ == release_of(text::opt_view(survey.kernel_release)),
            (r.kernel.major as int, r.kernel.minor as int) == kernel_version(r.kernel.release@),
            r.kernel.has_upstream_fan_control == has_upstream(kernel_version(r.kernel.release@)),
            r.distro_id@ == distro(
                text::opt_view(survey.os_release),
                survey.has_arch_release,
                survey.has_debian_version,
                survey.has_fedora_release,
            ),
            r.hook_flavour == flavour_of(r.distro_id@),
            r.headers.usable == (survey.has_build_dir && survey.has_autoconf
                && survey.has_kbuild_scripts),
            r.headers.has_autoconf == (survey.has_build_dir && survey.has_autoconf),
            r.headers.has_kbuild_scripts == (survey.has_build_dir && survey.has_kbuild_scripts),
            text::opt_view(r.headers.build_dir) == (if survey.has_build_dir {
                Some("/lib/modules/"@ + r.kernel.release@ + "/build"@)
            } else {
                None
            }),
            text::opt_view(r.headers.fix_hint) == (if survey.has_build_dir {
                repair_hint(
                    r.kernel.release@,
                    r.distro_id@,
                    survey.has_autoconf,
                    survey.has_kbuild_scripts,
                )
            } else {
                Some(install_hint(r.kernel.release@, r.distro_id@))
            }),
            r.has_dkms == survey.has_dkms,
            text::opt_view(r.dkms_status) == status_line(text::opt_view(survey.dkms_output)),
            r.dkms_installed == (r.dkms_status is Some),
            r.has_make == survey.has_make,
            r.has_compiler == (survey.has_gcc || survey.has_cc || survey.has_clang),
            text::opt_view(r.initramfs_tool) == generator(r.distro_id@, survey.tools),
            r.fan_control_available == survey.fan_control_available,
            r.hp_wmi_loaded == survey.hp_wmi_loaded,
            r.acpi_call_available == survey.acpi_call_available,
            r.driver_source == survey.driver_source,
            r.service_installed == (survey.has_unit_in_etc || survey.has_unit_in_usr),
    {
        let kernel = kernel_info(&survey.kernel_release);
        let id = distro_id(
            &survey.os_release,
            survey.has_arch_release,
            survey.has_debian_version,
            survey.has_fedora_release,
        );
        let status = dkms_status(&survey.dkms_output);
        let headers = headers_info(
            kernel.release.as_str(),
            id.as_str(),
            survey.has_build_dir,
            survey.has_autoconf,
            survey.has_kbuild_scripts,
        );
        let flavour = hook_flavour(id.as_str());
        let tool = initramfs_tool(id.as_str(), survey.tools);
        let dkms_installed = status.is_some();
        Environment {
            kernel,
            distro_id: id,
            hook_flavour: flavour,
            headers,
            has_dkms: survey.has_dkms,
            dkms_installed,
            dkms_status: status,
            has_make: survey.has_make,
            has_compiler: survey.has_gcc || survey.has_cc || survey.has_clang,
            initramfs_tool: tool,
            fan_control_available: survey.fan_control_available,
            hp_wmi_loaded: survey.hp_wmi_loaded,
            acpi_call_available: survey.acpi_call_available,
            driver_source: survey.driver_source,
            service_installed: survey.has_unit_in_etc || survey.has_unit_in_usr,
        }
    }

    /// Whether the patched driver would add anything on this machine.
    pub fn patch_needed(&self) -> (r: bool)
        ensures
            r == (!self.fan_control_available && !self.kernel.has_upstream_fan_control),
    {
        !self.fan_control_available && !self.kernel.has_upstream_fan_control
    }
}

// --- laws ----------------------------------------------------------------

/// Whatever generator is chosen is one that is installed, and one is chosen
/// wherever any is.
pub proof fn law_generator_is_installed(id: Seq<char>, tools: InitramfsTools)
    ensures
        match generator(id, tools) {
            Some(tool) => (tool == "mkinitcpio"@ && tools.mkinitcpio) || (tool == "dracut"@
                && tools.dracut) || (tool == "update-initramfs"@ && tools.update_initramfs),
            None => !tools.mkinitcpio && !tools.dracut && !tools.update_initramfs,
        },
{
}

/// On an Arch system a `update-initramfs` that is only a shim is never chosen
/// over the real tool.
pub proof fn law_arch_prefers_mkinitcpio(id: Seq<char>, tools: InitramfsTools)
    requires
        is_arch_family(id),
        tools.mkinitcpio,
    ensures
        generator(id, tools) == Some("mkinitcpio"@),
{
}

/// The version of a kernel is the first two numbers of its release.
#[verifier::spinoff_prover]
#[verifier::rlimit(60)]
pub proof fn law_the_kernels_version_is_read(
    major: nat,
    minor: nat,
    next: char,
    rest: Seq<char>,
)
    requires
        major <= 0xffff_ffff,
        minor <= 0xffff_ffff,
        !text::is_digit(next),
    ensures
        kernel_version(
            number::decimal(major) + seq!['.'] + (number::decimal(minor) + seq![next] + rest),
        ) == (major as int, minor as int),
        kernel_version(number::decimal(major) + seq!['.'] + number::decimal(minor)) == (
            major as int,
            minor as int,
        ),
{
    let k = Class::NotDigit;
    let a = number::decimal(major);
    let b = number::decimal(minor);
    number::lemma_decimal_digits(major);
    number::lemma_decimal_digits(minor);
    number::law_numbers_read_back(major, 0xffff_ffff);
    number::law_numbers_read_back(minor, 0xffff_ffff);
    text::law_words_stand_between_separators(a, '.', b + seq![next] + rest, a, k);
    text::law_words_stand_between_separators(a, '.', b, b, k);
    text::law_words_stand_between_separators(b, next, rest, b, k);
    let words = text::words_by(a + seq!['.'] + (b + seq![next] + rest), k);
    assert(words == seq![a] + (seq![b] + text::words_by(rest, k)));
    assert(words[0] == a && words[1] == b);
}

/// A kernel brings fan control itself from 6.20 on.
pub proof fn law_newer_kernels_bring_fan_control(major: int, minor: int)
    ensures
        has_upstream((major, minor)) <==> major > 6 || (major == 6 && minor >= 20),
        has_upstream((major, minor)) ==> has_upstream((major, minor + 1)) && has_upstream(
            (major + 1, 0),
        ),
{
}

/// A system is what its release file calls it, in small letters and without
/// quotes; a system without such a line is known by its own marker file.
#[verifier::spinoff_prover]
#[verifier::rlimit(60)]
pub proof fn law_a_system_is_known_by_its_id(
    id: Seq<char>,
    rest: Seq<char>,
    arch: bool,
    debian: bool,
    fedora: bool,
)
    requires
        id.len() > 0,
        !id.contains('\n'),
        !text::is_space(id[0]) && id[0] != '"',
        !text::is_space(id.last()) && id.last() != '"',
    ensures
        distro(Some("ID="@ + id + seq!['\n'] + rest), arch, debian, fedora) == text::ascii_lower(id),
        distro(None, true, debian, fedora) == "arch"@,
        distro(None, false, true, fedora) == "debian"@,
        distro(None, false, false, true) == "fedora"@,
        distro(None, false, false, false) == "unknown"@,
{
    reveal_strlit("ID=");
    assert("ID="@ =~= seq!['I', 'D', '=']);
    let line = "ID="@ + id;
    assert(!line.contains('\n')) by {
        if line.contains('\n') {
            let i = choose|i: int| 0 <= i < line.len() && line[i] == '\n';
            if i >= 3 {
                assert(id[i - 3] == '\n');
            }
        }
    }
    text::law_lines_end_at_newlines(line, rest);
    assert(line.last() == id.last());
    let all = text::lines(line + seq!['\n'] + rest);
    assert(all[0] == line);
    assert(line.subrange(0, 3) =~= "ID="@);
    assert(line.skip(3) =~= id);
    text::law_nothing_is_trimmed_from_the_middle(id, Class::Space);
    text::law_nothing_is_trimmed_from_the_middle(id, Class::Is('"'));
    assert(id_on_line(line) == Some(text::ascii_lower(id)));
}

/// Only a line that starts with the key is heard, and the first such line.
pub proof fn law_other_lines_do_not_name_the_system(line: Seq<char>, rest: Seq<char>)
    requires
        !line.contains('\n'),
        line.len() == 0 || line[0] != 'I',
    ensures
        distro(Some(line + seq!['\n'] + rest), false, false, false) == distro(
            Some(rest),
            false,
            false,
            false,
        ),
{
    reveal_strlit("ID=");
    assert("ID="@ =~= seq!['I', 'D', '=']);
    text::law_lines_end_at_newlines(line, rest);
    let all = text::lines(line + seq!['\n'] + rest);
    let f = |l: Seq<char>| id_on_line(l);
    text::lemma_first_some_next(all, f, 0);
    assert(all.skip(1) =~= text::lines(rest));
    let first = all[0];
    if text::starts_with(first, "ID="@) {
        assert(first.subrange(0, 3)[0] == 'I');
    }
    assert(f(first) is None);
}

/// Each family of systems has its own way of running a hook.
#[verifier::spinoff_prover]
#[verifier::rlimit(60)]
pub proof fn law_families_have_their_own_hooks()
    ensures
        flavour_of("arch"@) == HookFlavour::Pacman,
        flavour_of("manjaro"@) == HookFlavour::Pacman,
        flavour_of("endeavouros"@) == HookFlavour::Pacman,
        flavour_of("garuda"@) == HookFlavour::Pacman,
        flavour_of("cachyos"@) == HookFlavour::Pacman,
        flavour_of("debian"@) == HookFlavour::KernelPostinst,
        flavour_of("ubuntu"@) == HookFlavour::KernelPostinst,
        flavour_of("linuxmint"@) == HookFlavour::KernelPostinst,
        flavour_of("pop"@) == HookFlavour::KernelPostinst,
        flavour_of("fedora"@) == HookFlavour::KernelInstall,
        flavour_of("rhel"@) == HookFlavour::KernelInstall,
        flavour_of("centos"@) == HookFlavour::KernelInstall,
        flavour_of("rocky"@) == HookFlavour::KernelInstall,
        flavour_of("almalinux"@) == HookFlavour::KernelInstall,
        flavour_of("unknown"@) == HookFlavour::NoHook,
{
    reveal_strlit("arch");
    reveal_strlit("manjaro");
    reveal_strlit("endeavouros");
    reveal_strlit("garuda");
    reveal_strlit("cachyos");
    reveal_strlit("debian");
    reveal_strlit("ubuntu");
    reveal_strlit("linuxmint");
    reveal_strlit("pop");
    reveal_strlit("fedora");
    reveal_strlit("rhel");
    reveal_strlit("centos");
    reveal_strlit("rocky");
    reveal_strlit("almalinux");
    reveal_strlit("unknown");
    assert("arch"@.len() == 4 && "arch"@[0] == 'a');
    assert("manjaro"@.len() == 7 && "manjaro"@[0] == 'm');
    assert("endeavouros"@.len() == 11 && "endeavouros"@[0] == 'e');
    assert("garuda"@.len() == 6 && "garuda"@[0] == 'g');
    assert("cachyos"@.len() == 7 && "cachyos"@[0] == 'c');
    assert("debian"@.len() == 6 && "debian"@[0] == 'd');
    assert("ubuntu"@.len() == 6 && "ubuntu"@[0] == 'u');
    assert("linuxmint"@.len() == 9 && "linuxmint"@[0] == 'l');
    assert("pop"@.len() == 3 && "pop"@[0] == 'p');
    assert("fedora"@.len() == 6 && "fedora"@[0] == 'f');
    assert("rhel"@.len() == 4 && "rhel"@[0] == 'r');
    assert("centos"@.len() == 6 && "centos"@[0] == 'c');
    assert("rocky"@.len() == 5 && "rocky"@[0] == 'r');
    assert("almalinux"@.len() == 9 && "almalinux"@[0] == 'a');
    assert("unknown"@.len() == 7 && "unknown"@[0] == 'u');
    assert("unknown"@[1] == 'n');
    assert("ubuntu"@[1] == 'b');
}

/// Advice names the package manager of the system's family and the kernel that
/// runs, and there is some exactly where something is missing.
pub proof fn law_advice_fits_the_system(release: Seq<char>, id: Seq<char>, a: bool, k: bool)
    ensures
        repair_hint(release, id, a, k) is None <==> a && k,
        flavour_of(id) == HookFlavour::KernelPostinst ==> install_hint(release, id)
            == "sudo apt install linux-headers-"@ + release && repair_hint(release, id, false, k)
            == Some("sudo apt reinstall linux-headers-"@ + release),
        flavour_of(id) == HookFlavour::KernelPostinst ==> repair_hint(release, id, true, false)
            == Some(
            "sudo apt install 'linux-kbuild-"@ + text::split(release, Class::Is('-'))[0] + "*'"@,
        ),
        flavour_of(id) == HookFlavour::KernelInstall ==> install_hint(release, id)
            == "sudo dnf install kernel-devel-"@ + release,
        flavour_of(id) == HookFlavour::Pacman ==> install_hint(release, id)
            == "sudo pacman -S linux-headers"@,
        flavour_of(id) == HookFlavour::NoHook ==> install_hint(release, id)
            == "install the kernel headers for "@ + release,
{
    law_families_are_apart(id);
}

/// No system belongs to two families.
#[verifier::spinoff_prover]
#[verifier::rlimit(60)]
pub proof fn law_families_are_apart(id: Seq<char>)
    ensures
        !(is_arch_family(id) && is_debian_family(id)),
        !(is_arch_family(id) && is_fedora_family(id)),
        !(is_debian_family(id) && is_fedora_family(id)),
{
    reveal_strlit("arch");
    reveal_strlit("manjaro");
    reveal_strlit("endeavouros");
    reveal_strlit("garuda");
    reveal_strlit("cachyos");
    reveal_strlit("debian");
    reveal_strlit("ubuntu");
    reveal_strlit("linuxmint");
    reveal_strlit("pop");
    reveal_strlit("fedora");
    reveal_strlit("rhel");
    reveal_strlit("centos");
    reveal_strlit("rocky");
    reveal_strlit("almalinux");
    assert("arch"@.len() == 4 && "arch"@[0] == 'a');
    assert("manjaro"@.len() == 7 && "manjaro"@[0] == 'm');
    assert("endeavouros"@.len() == 11 && "endeavouros"@[0] == 'e');
    assert("garuda"@.len() == 6 && "garuda"@[0] == 'g');
    assert("cachyos"@.len() == 7 && "cachyos"@[0] == 'c');
    assert("debian"@.len() == 6 && "debian"@[0] == 'd');
    assert("ubuntu"@.len() == 6 && "ubuntu"@[0] == 'u');
    assert("linuxmint"@.len() == 9 && "linuxmint"@[0] == 'l');
    assert("pop"@.len() == 3 && "pop"@[0] == 'p');
    assert("fedora"@.len() == 6 && "fedora"@[0] == 'f');
    assert("rhel"@.len() == 4 && "rhel"@[0] == 'r');
    assert("centos"@.len() == 6 && "centos"@[0] == 'c');
    assert("rocky"@.len() == 5 && "rocky"@[0] == 'r');
    assert("almalinux"@.len() == 9 && "almalinux"@[0] == 'a');
}

/// A system's own generator is preferred where it is installed.
pub proof fn law_a_familys_own_generator_is_preferred(id: Seq<char>, tools: InitramfsTools)
    ensures
        flavour_of(id) == HookFlavour::Pacman && tools.mkinitcpio ==> generator(id, tools) == Some(
            "mkinitcpio"@,
        ),
        flavour_of(id) == HookFlavour::Pacman && !tools.mkinitcpio && tools.dracut ==> generator(
            id,
            tools,
        ) == Some("dracut"@),
        flavour_of(id) == HookFlavour::KernelPostinst && tools.update_initramfs ==> generator(
            id,
            tools,
        ) == Some("update-initramfs"@),
        flavour_of(id) == HookFlavour::KernelPostinst && !tools.update_initramfs && tools.dracut
            ==> generator(id, tools) == Some("dracut"@),
        flavour_of(id) == HookFlavour::KernelInstall && tools.dracut ==> generator(id, tools)
            == Some("dracut"@),
        flavour_of(id) == HookFlavour::KernelInstall && !tools.dracut && tools.update_initramfs
            ==> generator(id, tools) == Some("update-initramfs"@),
        flavour_of(id) == HookFlavour::NoHook && tools.update_initramfs ==> generator(id, tools)
            == Some("update-initramfs"@),
        flavour_of(id) == HookFlavour::NoHook && !tools.update_initramfs && tools.mkinitcpio
            ==> generator(id, tools) == Some("mkinitcpio"@),
{
}

/// The state of the module is the first line that names it.
pub proof fn law_the_modules_own_line_is_its_state(
    line: Seq<char>,
    other: Seq<char>,
    rest: Seq<char>,
)
    requires
        !line.contains('\n') && !other.contains('\n'),
        line.len() > 0 && line.last() != '\r',
        other.len() == 0 || other.last() != '\r',
    ensures
        text::contains(line, "hp-wmi-omen"@) ==> status_line(Some(line + seq!['\n'] + rest)) == Some(
            text::trim(line),
        ),
        !text::contains(other, "hp-wmi-omen"@) ==> status_line(Some(other + seq!['\n'] + rest))
            == status_line(Some(rest)),
        status_line(None) is None,
{
    let p = "hp-wmi-omen"@;
    let f = |l: Seq<char>|
        if text::contains(l, p) {
            Some(l)
        } else {
            None
        };
    text::law_lines_end_at_newlines(line, rest);
    text::law_lines_end_at_newlines(other, rest);
    let a = text::lines(line + seq!['\n'] + rest);
    assert(a[0] == line);
    let b = text::lines(other + seq!['\n'] + rest);
    assert(b[0] == other);
    assert(b.skip(1) =~= text::lines(rest));
    text::lemma_first_some_next(b, f, 0);
}

/// Headers can be used where they are whole, and there is advice exactly where they
/// are not.
pub proof fn law_headers_are_whole_or_advised_on(
    release: &str,
    id: &str,
    dir: bool,
    autoconf: bool,
    scripts: bool,
    r: HeadersInfo,
)
    requires
        call_ensures(headers_info, (release, id, dir, autoconf, scripts), r),
    ensures
        r.usable <==> dir && autoconf && scripts,
        r.fix_hint is None <==> r.usable,
        r.build_dir is Some <==> dir,
        dir ==> text::opt_view(r.build_dir) == Some("/lib/modules/"@ + release@ + "/build"@),
        r.has_autoconf <==> dir && autoconf,
        r.has_kbuild_scripts <==> dir && scripts,
        !dir ==> text::opt_view(r.fix_hint) == Some(install_hint(release@, id@)),
{
}

/// What the survey found arrives where it belongs; any of the compilers will do,
/// and a unit in either place is one.
pub proof fn law_the_survey_arrives_where_it_belongs(survey: Survey, r: Environment)
    requires
        call_ensures(Environment::detect, (survey,), r),
    ensures
        r.has_dkms == survey.has_dkms,
        r.has_make == survey.has_make,
        survey.has_gcc || survey.has_cc || survey.has_clang <==> r.has_compiler,
        r.fan_control_available == survey.fan_control_available,
        r.hp_wmi_loaded == survey.hp_wmi_loaded,
        r.acpi_call_available == survey.acpi_call_available,
        r.driver_source == survey.driver_source,
        survey.has_unit_in_etc || survey.has_unit_in_usr <==> r.service_installed,
        r.dkms_installed <==> r.dkms_status is Some,
        survey.dkms_output is None ==> !r.dkms_installed,
        r.headers.usable <==> survey.has_build_dir && survey.has_autoconf
            && survey.has_kbuild_scripts,
        survey.kernel_release matches Some(s) ==> r.kernel.release@ == text::trim(s@),
        r.kernel.has_upstream_fan_control <==> r.kernel.major > 6 || (r.kernel.major == 6
            && r.kernel.minor >= 20),
        !survey.tools.mkinitcpio && !survey.tools.dracut && !survey.tools.update_initramfs
            <==> r.initramfs_tool is None,
{
    law_generator_is_installed(r.distro_id@, survey.tools);
}

/// The driver is patched where neither it nor the kernel brings fan control.
pub proof fn law_when_the_driver_is_patched(env: &Environment, r: bool)
    requires
        call_ensures(Environment::patch_needed, (env,), r),
    ensures
        env.fan_control_available ==> !r,
        env.kernel.has_upstream_fan_control ==> !r,
        !env.fan_control_available && !env.kernel.has_upstream_fan_control ==> r,
{
}

/// A directory that was named for the driver is looked in first.
pub proof fn law_the_named_directory_comes_first(named: Option<String>, r: Vec<String>)
    requires
        call_ensures(driver_candidates, (named,), r),
    ensures
        named matches Some(dir) ==> text::views(r@).len() == 3 && text::views(r@)[0] == dir@
            && text::views(r@)[1] == "/usr/share/pyren/driver"@,
        named is None ==> text::views(r@).len() == 2 && text::views(r@)[0]
            == "/usr/share/pyren/driver"@,
{
}

} // verus!
