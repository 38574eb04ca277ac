use bootiful_plymouth_discovery::detector::bootloader::{
    self as boot, cmdline_parameters, dedup_first, find_kernel_versions, grub_setting, non_comment_lines,
    splash_entries, BootProbe,
};
use bootiful_plymouth_discovery::detector::environment::{self as env, python_version_of, EnvironmentProbe};
use bootiful_plymouth_discovery::detector::graphics::{
    self as gfx, drm_device, drm_driver_link, drm_enabled_path, fb_sys_path, loaded_graphics_modules, BgrtProbe,
    DrmProbe, FbProbe,
};
use bootiful_plymouth_discovery::detector::logo::{self, LogoProbe};
use bootiful_plymouth_discovery::detector::logs::{self, collect_log_file, LogRead};
use bootiful_plymouth_discovery::detector::packages::{
    self, add_listed_packages, key_packages, package_entry, parse_apt_cache_show, PackageQuery,
};
use bootiful_plymouth_discovery::detector::plugins::{
    collect_plugins, collect_renderers, get_plugin_descriptions, get_renderer_descriptions, plugin_dir_pattern,
    renderer_dir_pattern, so_pattern, PluginFile, RendererFile,
};
use bootiful_plymouth_discovery::detector::system::{self, parse_lsb_release, parse_os_release};
use bootiful_plymouth_discovery::detector::utils::{hex_string, resolve_path, sha256_full, sha256_short};
use bootiful_plymouth_discovery::model::PackageEntry;
use bootiful_plymouth_discovery::strmap::StrMap;
use bootiful_plymouth_discovery::text::to_chars;
use regex::Regex;

fn s(v: &[char]) -> String {
    v.iter().collect()
}

fn get<'a, V>(m: &'a StrMap<V>, k: &str) -> &'a V {
    m.get(k).expect("key present")
}

// ---------------------------------------------------------------- system

#[test]
fn os_release_values_lose_their_quotes() {
    let text = "# comment\nNAME=\"Linux Mint\"\nVERSION_ID='22'\n ID = linuxmint \nbroken line\nPRETTY=\"a=b\"\nNAME=Override";
    let m = parse_os_release(text);
    assert_eq!(get(&m, "NAME"), "Override");
    assert_eq!(get(&m, "VERSION_ID"), "22");
    assert_eq!(get(&m, "ID"), "linuxmint");
    assert_eq!(get(&m, "PRETTY"), "a=b");
    assert_eq!(m.len(), 4);
}

#[test]
fn lsb_release_pairs() {
    let out = "No LSB modules are available.\nDistributor ID:\tUbuntu\nDescription:\tUbuntu 24.04 LTS\nRelease:\t24.04\nCodename:\tnoble";
    let m = parse_lsb_release(out);
    assert_eq!(get(&m, "Distributor ID"), "Ubuntu");
    assert_eq!(get(&m, "Description"), "Ubuntu 24.04 LTS");
    assert_eq!(get(&m, "Codename"), "noble");
    assert_eq!(m.len(), 4);
}

#[test]
fn system_section() {
    let c = system::collect(
        "Linux host 6.8.0".to_string(),
        "x86_64".to_string(),
        "amd64".to_string(),
        "host".to_string(),
        "ID=ubuntu",
        "Release:\t24.04",
    );
    assert_eq!(c.uname_machine, "x86_64");
    assert_eq!(get(&c.os_release, "ID"), "ubuntu");
    assert_eq!(get(&c.lsb_release, "Release"), "24.04");
    assert_eq!(c.hostname, "host");
}

// ---------------------------------------------------------------- packages

fn query(rc: i32, version: &str, status: &str) -> PackageQuery {
    PackageQuery { version_rc: rc, version: version.to_string(), status: status.to_string() }
}

#[test]
fn queried_package_entries() {
    let e = package_entry(&query(0, "24.004.60-1ubuntu7", "install ok installed"));
    assert_eq!(e.version.as_deref(), Some("24.004.60-1ubuntu7"));
    assert_eq!(e.status, "install ok installed");
    assert_eq!(e.description, None);
    let e = package_entry(&query(1, "", ""));
    assert_eq!(e.version, None);
    assert_eq!(e.status, "not-installed");
    let e = package_entry(&query(0, "", "deinstall ok config-files"));
    assert_eq!(e.version, None);
    assert_eq!(e.status, "deinstall ok config-files");
    let names: Vec<String> = key_packages();
    assert_eq!(names, vec!["plymouth", "plymouth-themes", "plymouth-label", "python3-plymouth"]);
}

const DPKG_L: &str = "Desired=Unknown/Install/Remove/Purge/Hold
| Status=Not/Inst/Conf-files/Unpacked/halF-conf/Half-inst/trig-aWait/Trig-pend
||/ Name                          Version            Architecture Description
+++-=============================-==================-============-=================================
ii  plymouth                      24.004.60-1ubuntu7 amd64        boot animation, logger and I/O multiplexer
ii  plymouth-theme-spinner:amd64  24.004.60-1ubuntu7 amd64        boot animation, logger and I/O multiplexer - spinner theme
iF  plymouth-label                24.004.60-1ubuntu7 amd64
un  plymouth-x11                  <none>             <none>       (no description available)
ii  short";

#[test]
fn listed_packages_are_added_without_replacing_known_ones() {
    let mut m: StrMap<PackageEntry> = StrMap::new();
    m.insert(
        "plymouth".to_string(),
        PackageEntry { version: None, status: "not-installed".to_string(), description: None },
    );
    add_listed_packages(&mut m, DPKG_L);
    assert_eq!(m.len(), 3);
    let p = get(&m, "plymouth");
    assert_eq!(p.status, "not-installed");
    assert_eq!(p.version, None);
    let t = get(&m, "plymouth-theme-spinner");
    assert_eq!(t.version.as_deref(), Some("24.004.60-1ubuntu7"));
    assert_eq!(t.status, "install ok installed");
    assert_eq!(
        t.description.as_deref(),
        Some("boot animation, logger and I/O multiplexer - spinner theme")
    );
    let l = get(&m, "plymouth-label");
    assert_eq!(l.description, None);
    assert!(m.get("plymouth-x11").is_none());
}

#[test]
fn apt_cache_show_fields() {
    let out = "Package: plymouth\nVersion: 24.004.60-1ubuntu7\nPriority: optional\nSection: admin\nOrigin: Ubuntu\nMaintainer: Ubuntu Developers <x@y>\nOriginal-Maintainer: Debian <d@e>\nInstalled-Size: 400\nVersion:   2.0  \nDescription: x";
    let m = parse_apt_cache_show(out);
    assert_eq!(get(&m, "Package"), "plymouth");
    assert_eq!(get(&m, "Version"), "2.0");
    assert_eq!(get(&m, "Section"), "admin");
    assert_eq!(get(&m, "Maintainer"), "Ubuntu Developers <x@y>");
    assert!(m.get("Original-Maintainer").is_none());
    assert_eq!(get(&m, "Installed-Size"), "400");
    assert!(m.get("Priority").is_none());
    assert_eq!(m.len(), 6);
}

#[test]
fn packages_section() {
    let p = packages::collect(
        query(0, "24.004.60", "install ok installed"),
        query(1, "", ""),
        query(0, "24.004.60", "install ok installed"),
        query(1, "", ""),
        DPKG_L,
        "/.\n/usr\n/usr/bin/plymouth",
        "plymouth:\n  Installed: 24.004.60".to_string(),
        "Package: plymouth",
    );
    assert_eq!(get(&p.packages, "plymouth").version.as_deref(), Some("24.004.60"));
    assert_eq!(get(&p.packages, "plymouth-themes").status, "not-installed");
    assert_eq!(get(&p.packages, "python3-plymouth").version, None);
    assert_eq!(get(&p.packages, "plymouth-label").status, "install ok installed");
    assert!(p.packages.get("plymouth-theme-spinner").is_some());
    assert_eq!(p.packages.len(), 5);
    assert_eq!(p._plymouth_file_list, vec!["/.", "/usr", "/usr/bin/plymouth"]);
    assert_eq!(get(&p._apt_cache_show, "Package"), "plymouth");
}

// ---------------------------------------------------------------- logs

#[test]
fn log_files_keep_the_last_plymouth_lines() {
    let content = "a Plymouth b\nnothing\nPLYMOUTH two\nplymouth three\nother";
    let r = collect_log_file("/var/log/syslog", "plymouth_lines_last_20", 2, true, content);
    assert_eq!(r.path, "/var/log/syslog");
    assert!(r.exists);
    assert_eq!(get(&r.lines, "plymouth_lines_last_20"), &vec!["PLYMOUTH two", "plymouth three"]);
    let r = collect_log_file("/var/log/boot.log", "plymouth_lines", 0, true, content);
    assert_eq!(get(&r.lines, "plymouth_lines").len(), 3);
    let r = collect_log_file("/var/log/kern.log", "k", 10, false, content);
    assert!(!r.exists);
    assert!(get(&r.lines, "k").is_empty());
}

#[test]
fn logs_section() {
    let journal: String = (0..50).map(|i| format!("plymouth line {}\n", i)).collect();
    let read = |e: bool, c: &str| LogRead { exists: e, content: c.to_string() };
    let l = logs::collect(true, read(true, "plymouth ok"), read(false, ""), read(true, "none"), &journal);
    assert!(l.run_plymouth.exists);
    assert_eq!(l.run_plymouth.note, "See runtime_state.run_plymouth_files for details");
    assert_eq!(get(&l.boot_log.lines, "plymouth_lines"), &vec!["plymouth ok"]);
    assert!(get(&l.kern_log.lines, "plymouth_lines_last_10").is_empty());
    let j = &l.journalctl_current_boot.plymouth_lines_last_40;
    assert_eq!(j.len(), 40);
    assert_eq!(j[0], "plymouth line 10");
    assert_eq!(j[39], "plymouth line 49");
}

// ---------------------------------------------------------------- logo

#[test]
fn resolved_paths() {
    assert_eq!(resolve_path("/etc/alternatives/distributor-logo", &None), "/etc/alternatives/distributor-logo");
    assert_eq!(
        resolve_path("/etc/alternatives/distributor-logo", &Some("/usr/share/a.png".to_string())),
        "/usr/share/a.png"
    );
    assert_eq!(
        resolve_path("/etc/alternatives/distributor-logo", &Some("../x.png".to_string())),
        "/etc/alternatives/../x.png"
    );
}

#[test]
fn logo_section() {
    let none = || LogoProbe { exists: false, is_symlink: false, link_target: None, size_bytes: Some(9) };
    let file = LogoProbe { exists: true, is_symlink: false, link_target: None, size_bytes: Some(1234) };
    let dangling = LogoProbe {
        exists: false,
        is_symlink: true,
        link_target: Some("/missing.png".to_string()),
        size_bytes: None,
    };
    let d = logo::collect(file, none(), none(), dangling);
    assert_eq!(d.note, "In themes, 'special://logo' resolves to the distribution OEM logo at runtime.");
    assert_eq!(d.logos.len(), 4);
    let u = get(&d.logos, "ubuntu_logo_png");
    assert_eq!(u.path, "/usr/share/plymouth/ubuntu-logo.png");
    assert_eq!(u.is_symlink, Some(false));
    assert_eq!(u.resolved.as_deref(), Some("/usr/share/plymouth/ubuntu-logo.png"));
    assert_eq!(u.size_bytes, Some(1234));
    let m = get(&d.logos, "mint_logo_png");
    assert_eq!(m.is_symlink, None);
    assert_eq!(m.resolved, None);
    assert_eq!(m.size_bytes, None);
    assert_eq!(m.description, "Linux Mint logo");
    let a = get(&d.logos, "distributor_logo");
    assert_eq!(a.is_symlink, Some(true));
    assert_eq!(a.resolved.as_deref(), Some("/missing.png"));
    assert_eq!(a.size_bytes, None);
}

// ---------------------------------------------------------------- plugins

#[test]
fn module_descriptions_and_patterns() {
    let p = get_plugin_descriptions();
    assert_eq!(p.len(), 8);
    assert_eq!(get(&p, "two-step"), "Two-phase: static logo then animated throbber");
    assert_eq!(get(&p, "details"), "Diagnostic – displays raw boot messages");
    let r = get_renderer_descriptions();
    assert_eq!(r.len(), 3);
    assert_eq!(get(&r, "drm"), "Preferred – DRM/KMS (/dev/dri/card0)");
    assert_eq!(plugin_dir_pattern(), "/usr/lib/*/plymouth/");
    assert_eq!(renderer_dir_pattern(), "/usr/lib/*/plymouth/renderers/");
    assert_eq!(so_pattern("/usr/lib/x86_64-linux-gnu/plymouth/"), "/usr/lib/x86_64-linux-gnu/plymouth/*.so");
    assert_eq!(so_pattern("/usr/lib/plymouth"), "/usr/lib/plymouth/*.so");
}

#[test]
fn the_first_plugin_of_a_name_wins() {
    let f = |p: &str, n: u64, ldd: &str| PluginFile { path: p.to_string(), size_bytes: Some(n), ldd_output: ldd.to_string() };
    let files = vec![
        f("/usr/lib/x86_64-linux-gnu/plymouth/script.so", 10, "libc.so.6 => /lib/libc.so.6\nlibm.so.6"),
        f("/usr/lib/x86_64-linux-gnu/plymouth/fancy.so", 20, ""),
        f("/usr/lib/i386-linux-gnu/plymouth/script.so", 30, "x"),
    ];
    let m = collect_plugins(&files);
    assert_eq!(m.len(), 2);
    let s1 = get(&m, "script");
    assert_eq!(s1.so_path, "/usr/lib/x86_64-linux-gnu/plymouth/script.so");
    assert_eq!(s1.size_bytes, Some(10));
    assert_eq!(s1.description, "Scriptable – drives .script/.lua animations (most flexible)");
    assert_eq!(s1.ldd, Some(vec!["libc.so.6 => /lib/libc.so.6".to_string(), "libm.so.6".to_string()]));
    assert_eq!(get(&m, "fancy").description, "fancy plugin");
    assert_eq!(get(&m, "fancy").ldd, Some(vec![]));
    let r = collect_renderers(&vec![
        RendererFile { path: "/usr/lib/x/plymouth/renderers/drm.so".to_string(), size_bytes: None },
        RendererFile { path: "/usr/lib/x/plymouth/renderers/vnc.so".to_string(), size_bytes: Some(1) },
    ]);
    assert_eq!(get(&r, "drm").description, "Preferred – DRM/KMS (/dev/dri/card0)");
    assert_eq!(get(&r, "vnc").description, "vnc renderer");
}

// ---------------------------------------------------------------- bootloader

fn regex_setting(txt: &str, key: &str) -> String {
    let re = Regex::new(&format!("(?m)^{}=\"([^\"]*)\"", key)).unwrap();
    match re.captures(txt) {
        Some(c) => c[1].to_string(),
        None => String::new(),
    }
}

#[test]
fn grub_settings_come_from_the_first_line_that_sets_them_and_may_span_lines() {
    let texts = [
        "GRUB_CMDLINE_LINUX_DEFAULT=\"quiet splash\"\nGRUB_CMDLINE_LINUX=\"\"",
        "GRUB_DEFAULT=0\nGRUB_CMDLINE_LINUX_DEFAULT=\"quiet splash\"",
        "GRUB_CMDLINE_LINUX=\"a\nb\" rest\nGRUB_CMDLINE_LINUX=\"second\"",
        "GRUB_CMDLINE_LINUX_DEFAULT=\"unterminated",
        "#GRUB_CMDLINE_LINUX=\"commented\"\n GRUB_CMDLINE_LINUX=\"indented\"",
        "GRUB_CMDLINE_LINUX_DEFAULT=\"quiet\nsplash\"\nGRUB_CMDLINE_LINUX=\"ro\r\n\"",
        "x\r\nGRUB_CMDLINE_LINUX=\"after crlf\"",
        "",
    ];
    for t in texts {
        for key in ["GRUB_CMDLINE_LINUX_DEFAULT", "GRUB_CMDLINE_LINUX"] {
            let prefix = format!("{}=\"", key);
            assert_eq!(grub_setting(t, &prefix), regex_setting(t, key), "{:?} {}", t, key);
        }
    }
    let commented = "# GRUB\nGRUB_DEFAULT=0\nGRUB_CMDLINE_LINUX_DEFAULT=\"quiet splash\"\nGRUB_CMDLINE_LINUX=\"ro\"";
    assert_eq!(grub_setting(commented, "GRUB_CMDLINE_LINUX_DEFAULT=\""), "quiet splash");
    assert_eq!(grub_setting(commented, "GRUB_CMDLINE_LINUX=\""), "ro");
    assert_eq!(grub_setting("GRUB_CMDLINE_LINUX=\"a\nb\"", "GRUB_CMDLINE_LINUX=\""), "a\nb");
}

#[test]
fn kernel_versions_agree_with_the_pattern() {
    let cfg = "linux /boot/vmlinuz-6.8.0-31-generic root=UUID=x ro quiet splash\n\
               linux /boot/vmlinuz-6.8.0-31-generic root=UUID=x ro recovery\n\
               linux /vmlinuz- x vmlinuz-vmlinuz-5.15\tvmlinuz-\u{2003}y vmlinuz-6.1";
    let re = Regex::new(r"vmlinuz-(\S+)").unwrap();
    let expected: Vec<String> = re.captures_iter(cfg).map(|c| c[1].to_string()).collect();
    let found: Vec<String> = find_kernel_versions(&to_chars(cfg)).iter().map(|v| s(v)).collect();
    assert_eq!(found, expected);
    let distinct: Vec<String> = dedup_first(&find_kernel_versions(&to_chars(cfg))).iter().map(|v| s(v)).collect();
    assert_eq!(distinct, vec!["6.8.0-31-generic", "vmlinuz-5.15", "6.1"]);
}

#[test]
fn splash_lines_of_the_menu() {
    let mut cfg = String::from("  set gfxpayload=keep  \n\tlinux /vmlinuz quiet splash \nnothing\n# PLYMOUTH note\n");
    for i in 0..40 {
        cfg.push_str(&format!("splash {}\n", i));
    }
    let e = splash_entries(&cfg);
    assert_eq!(e.len(), 30);
    assert_eq!(e[0], "linux /vmlinuz quiet splash");
    assert_eq!(e[1], "# PLYMOUTH note");
    assert_eq!(e[29], "splash 27");
}

#[test]
fn settings_lines_of_the_default_file() {
    let txt = "# comment\n\nGRUB_DEFAULT=0\n   # indented comment\n  GRUB_TIMEOUT=5\n";
    assert_eq!(non_comment_lines(txt), vec!["GRUB_DEFAULT=0", "  GRUB_TIMEOUT=5"]);
}

#[test]
fn cmdline_parameters_are_text_searches() {
    let m = cmdline_parameters("BOOT_IMAGE=/vmlinuz ro quiet splash vt.handoff=7");
    assert_eq!(m.len(), 5);
    assert_eq!(get(&m, "quiet"), &true);
    assert_eq!(get(&m, "splash"), &true);
    assert_eq!(get(&m, "nomodeset"), &false);
    assert_eq!(get(&m, "vt.handoff"), &true);
    assert_eq!(get(&m, "plymouth.ignore-serial-consoles"), &false);
}

fn boot_probe(cfg_exists: bool, bootctl: bool) -> BootProbe {
    BootProbe {
        grub_default_exists: true,
        grub_default: "# If you change this file, run update-grub\nGRUB_CMDLINE_LINUX_DEFAULT=\"quiet splash\"\nGRUB_CMDLINE_LINUX=\"\"".to_string(),
        proc_cmdline: "ro quiet splash".to_string(),
        grub_cfg_exists: cfg_exists,
        grub_cfg: "linux /boot/vmlinuz-6.8.0 ro quiet splash".to_string(),
        bootctl_exists: bootctl,
        bootctl_status: "System:\n  Firmware: UEFI".to_string(),
    }
}

#[test]
fn bootloader_section() {
    let b = boot::collect(boot_probe(true, false));
    assert_eq!(b.bootloader_type, "grub");
    assert!(b.grub.present);
    assert_eq!(b.grub.cfg_path.as_deref(), Some("/boot/grub/grub.cfg"));
    assert_eq!(b.grub.default_config_path.as_deref(), Some("/etc/default/grub"));
    assert_eq!(b.grub.cmdline_linux_default, "quiet splash");
    assert_eq!(b.grub.cmdline_linux, "");
    assert_eq!(b.kernel_entries, vec!["6.8.0"]);
    assert_eq!(b.grub.splash_plymouth_entries_in_cfg, vec!["linux /boot/vmlinuz-6.8.0 ro quiet splash"]);
    assert!(!b.systemd_boot.present);
    assert_eq!(b.systemd_boot.status, None);
    assert_eq!(b.active_cmdline.raw, "ro quiet splash");
    let b = boot::collect(boot_probe(false, true));
    assert_eq!(b.bootloader_type, "systemd-boot");
    assert!(b.kernel_entries.is_empty());
    assert!(b.grub.splash_plymouth_entries_in_cfg.is_empty());
    assert_eq!(b.grub.cfg_path, None);
    assert_eq!(b.systemd_boot.status.as_deref(), Some("System:\n  Firmware: UEFI"));
    let b = boot::collect(boot_probe(true, true));
    assert_eq!(b.bootloader_type, "grub");
}

// ---------------------------------------------------------------- graphics

#[test]
fn graphics_paths_and_devices() {
    assert_eq!(fb_sys_path("/dev/fb0"), "/sys/class/graphics/fb0");
    assert_eq!(drm_enabled_path("/sys/class/drm/card0"), "/sys/class/drm/card0/enabled");
    assert_eq!(drm_driver_link("/sys/class/drm/card0"), "/sys/class/drm/card0/device/driver");
    let d = drm_device(DrmProbe {
        card: "/sys/class/drm/card1".to_string(),
        enabled_exists: true,
        enabled: "enabled".to_string(),
        driver_target: Some("../../../bus/pci/drivers/i915".to_string()),
    });
    assert_eq!(d.name, "card1");
    assert_eq!(d.enabled.as_deref(), Some("enabled"));
    assert_eq!(d.driver.as_deref(), Some("i915"));
    let lsmod = "Module                  Size  Used by\ni915  4000000  3\nsnd 1 2\nsimpledrm 20480 0\nefifb_helper 1 0";
    assert_eq!(loaded_graphics_modules(lsmod), vec!["i915", "simpledrm"]);
}

#[test]
fn graphics_section() {
    let fb = |d: &str, e: bool| FbProbe {
        device: d.to_string(),
        sys_exists: e,
        virtual_size: "1920,1080".to_string(),
        bits_per_pixel: "32".to_string(),
        stride: "7680".to_string(),
    };
    let g = gfx::collect(
        vec![fb("/dev/fb0", true), fb("/dev/fb1", false)],
        vec!["/sys/class/graphics/fb0".to_string()],
        vec![DrmProbe { card: "/sys/class/drm/card0".to_string(), enabled_exists: false, enabled: String::new(), driver_target: None }],
        "Module Size Used\nsimpledrm 1 0\nefifb 1 0",
        true,
        BgrtProbe { present: false, xoffset: None, yoffset: None, status: None, bgrt_type: None },
    );
    assert_eq!(g.framebuffer_devices.len(), 2);
    assert_eq!(g.framebuffer_devices[0].stride.as_deref(), Some("7680"));
    assert_eq!(g.framebuffer_devices[1].virtual_size, None);
    assert_eq!(g.drm_devices[0].name, "card0");
    assert_eq!(g.drm_devices[0].driver, None);
    assert!(g.simpledrm_loaded && g.efifb_loaded && g.uefi);
    assert_eq!(g.loaded_graphics_modules, vec!["simpledrm", "efifb"]);
}

// ---------------------------------------------------------------- environment and digests

#[test]
fn environment_section() {
    assert_eq!(python_version_of("Python 3.12.3"), "3.12.3");
    assert_eq!(python_version_of(""), "");
    let e = env::collect(EnvironmentProbe {
        python_version_output: "Python 3.12.3".to_string(),
        python_executable: "/usr/bin/python3".to_string(),
        uid: 1000,
        euid: 0,
        pid: 42,
        path: Some("/usr/bin".to_string()),
        display: None,
        xdg_session_type: Some("wayland".to_string()),
        xdg_current_desktop: None,
    });
    assert_eq!(e.python_version, "3.12.3");
    assert!(e.running_as_root);
    assert_eq!(e.uid, 1000);
    assert_eq!(e.pid, 42);
}

#[test]
fn digests_in_hexadecimal() {
    assert_eq!(hex_string(&[0x0a, 0x14, 0x1e, 0xff]), "0a141eff");
    assert_eq!(sha256_full(b""), "e3b0c44298fc1c149afbf4c8996fb92427ae41e4649b934ca495991b7852b855");
    assert_eq!(sha256_full(b"abc"), "ba7816bf8f01cfea414140de5dae2223b00361a396177a9cb410ff61f20015ad");
    assert_eq!(sha256_short(b"abc"), "ba7816bf8f01cfea");
}
