use bootiful_plymouth_discovery::detector::config::{
    self as config, collect_config_file, detect_active_theme, effective_config, LinkChain,
};
use bootiful_plymouth_discovery::detector::utils::{chain_start, chain_step, chain_steps, LinkProbe};
use bootiful_plymouth_discovery::detector::consistency::check;
use bootiful_plymouth_discovery::detector::initramfs::{
    self as initramfs, analyze_initrd, classify_listing, current_initrd_path, initrd_images, tool_info, ImageFile,
    InitrdProbe, ThemeDirProbe, ToolProbe,
};
use bootiful_plymouth_discovery::detector::runtime::{
    self as runtime, daemon_mode, display_manager_of, parse_show_properties, run_plymouth_files, trimmed_lines,
    DmProbe, RunFileProbe, RuntimeProbe,
};
use bootiful_plymouth_discovery::detector::themes::{
    active_theme_candidates, active_theme_section, available_theme, collect_active_detail, finish_active_theme,
    is_image_asset, missing_files, parse_ini, plugin_so_candidates, scan_all, theme_plymouth_file,
    ActiveThemeProbe, EntryProbe, FileProbe, InstalledThemeProbe, SoProbe, WalkEntry,
};
use bootiful_plymouth_discovery::model::{
    ActiveCmdline, Bootloader, ConfigFile, ConfigValue, DisplayManagerInfo, DistributionLogo,
    GlobalConfig, Graphics, BgrtInfo, GrubConfig, InitrdAnalysis, Initramfs, JournalctlInfo, LogFileInfo, Logs,
    Packages, RunPlymouthLogInfo, RuntimeEnvironment, RuntimeState, SystemContext, SystemdBootConfig, UnitState,
    DirectoryInfo,
};
use bootiful_plymouth_discovery::strmap::StrMap;
use bootiful_plymouth_discovery::timestamp::{format_timestamp, LocalTime};
use chrono::{NaiveDate, NaiveDateTime, NaiveTime};
use bootiful_plymouth_discovery::{collect_all, sections, Sections};

fn get<'a, V>(m: &'a StrMap<V>, k: &str) -> &'a V {
    m.get(k).expect("key present")
}

const SPINNER: &str = "[Plymouth Theme]
Name=Spinner
Description=A theme that features a simple spinner
ModuleName=two-step

; comment
[two-step]
ImageDir = /usr/share/plymouth/themes/spinner
WatermarkVerticalAlignment=.96
broken line
[empty]
";

// ---------------------------------------------------------------- themes

#[test]
fn ini_sections_and_values() {
    let m = parse_ini(SPINNER);
    assert_eq!(m.len(), 3);
    let t = get(&m, "Plymouth Theme");
    assert_eq!(get(t, "ModuleName"), "two-step");
    assert_eq!(get(get(&m, "two-step"), "ImageDir"), "/usr/share/plymouth/themes/spinner");
    assert_eq!(get(&m, "empty").len(), 0);
    let before_any = parse_ini("Key=Value\n[S]\nA=1\n[S]\nB=2");
    assert_eq!(before_any.len(), 1);
    assert!(get(&before_any, "S").get("A").is_none());
    assert_eq!(get(get(&before_any, "S"), "B"), "2");
}

#[test]
fn active_theme_from_its_description() {
    let c = active_theme_candidates("spinner");
    assert_eq!(c[0].0, "/usr/share/plymouth/themes/spinner");
    assert_eq!(c[0].1, "/usr/share/plymouth/themes/spinner/spinner.plymouth");
    assert_eq!(c[1].1, "/usr/local/share/plymouth/themes/spinner/spinner.plymouth");
    let a = collect_active_detail("spinner", Some(SPINNER.trim().to_string()), Some("[Plymouth Theme]\nModuleName=other".to_string()));
    assert!(a.found);
    assert_eq!(a.theme_dir.as_deref(), Some("/usr/share/plymouth/themes/spinner"));
    assert_eq!(a.plymouth_file.as_deref(), Some("/usr/share/plymouth/themes/spinner/spinner.plymouth"));
    assert_eq!(a.plugin.as_deref(), Some("two-step"));
    assert_eq!(a.script_file, None);
    assert_eq!(a.image_dir, None);
    assert_eq!(a.extra_sections.len(), 2);
    assert!(a.extra_sections.get("Plymouth Theme").is_none());
    let local = collect_active_detail("spinner", None, Some("[Plymouth Theme]\nModuleName=other".to_string()));
    assert_eq!(local.theme_dir.as_deref(), Some("/usr/local/share/plymouth/themes/spinner"));
    assert_eq!(local.plugin.as_deref(), Some("other"));
    let none = collect_active_detail("", Some(SPINNER.to_string()), None);
    assert!(!none.found);
    let missing = collect_active_detail("gone", None, None);
    assert!(!missing.found);
    assert_eq!(missing.name, "gone");
}

fn walked(path: &str, is_file: bool, size: Option<u64>, content: Option<&[u8]>) -> WalkEntry {
    WalkEntry {
        path: path.to_string(),
        file_name: path.rsplit('/').next().unwrap().to_string(),
        is_file,
        size_bytes: size,
        content: content.map(|c| c.to_vec()),
    }
}

const SCRIPTED: &str = "[Plymouth Theme]\nModuleName=script\nScriptFile=x.script";

#[test]
fn finishing_the_active_theme() {
    let base = collect_active_detail("x", Some(SCRIPTED.to_string()), None);
    let entries = vec![
        walked("/usr/share/plymouth/themes/x", false, None, None),
        walked("/usr/share/plymouth/themes/x/throbber-02.png", true, Some(2), Some(b"abc")),
        walked("/usr/share/plymouth/themes/x/x.script", true, Some(3), Some(b"abc")),
        walked("/usr/share/plymouth/themes/x/sub/bg.PNG", true, Some(1), None),
        walked("/usr/share/plymouth/themes/x/link.png", false, Some(7), Some(b"")),
        walked("/usr/share/plymouth/themes/x/throbber-01.png", true, None, Some(b"")),
    ];
    let second = SoProbe { size_bytes: Some(5), ldd_output: "libply.so.5\nlibc.so.6".to_string() };
    let script = FileProbe { exists: true, size_bytes: Some(3), content: Some(b"abc".to_vec()) };
    let a = finish_active_theme(base, None, Some(second), entries, script);
    let names: Vec<&str> = a.assets.iter().map(|x| x.file.as_str()).collect();
    assert_eq!(names, vec!["bg.PNG", "throbber-01.png", "throbber-02.png"]);
    assert_eq!(a.assets[2].sha256_prefix.as_deref(), Some("ba7816bf8f01cfea"));
    assert_eq!(a.assets[1].sha256_prefix.as_deref(), Some("e3b0c44298fc1c14"));
    assert_eq!(a.assets[0].sha256_prefix, None);
    assert_eq!(a.plugin_so.path.as_deref(), Some("/usr/lib/plymouth/script.so"));
    assert_eq!(a.plugin_so.ldd, Some(vec!["libply.so.5".to_string(), "libc.so.6".to_string()]));
    let d = a.script_file_detail.unwrap();
    assert!(d.exists);
    assert_eq!(d.path, "/usr/share/plymouth/themes/x/x.script");
    assert_eq!(d.sha256.as_deref(), Some("ba7816bf8f01cfea414140de5dae2223b00361a396177a9cb410ff61f20015ad"));

    let base = collect_active_detail("x", Some(SCRIPTED.to_string()), None);
    let first = SoProbe { size_bytes: Some(9), ldd_output: String::new() };
    let second = SoProbe { size_bytes: Some(5), ldd_output: String::new() };
    let no_script = FileProbe { exists: false, size_bytes: None, content: None };
    let a = finish_active_theme(base, Some(first), Some(second), vec![], no_script);
    assert_eq!(a.plugin_so.path.as_deref(), Some("/usr/lib/x86_64-linux-gnu/plymouth/script.so"));
    assert_eq!(a.plugin_so.size_bytes, Some(9));
    assert!(a.script_file_detail.is_none());

    let unfound = finish_active_theme(
        collect_active_detail("", None, None),
        Some(SoProbe { size_bytes: None, ldd_output: String::new() }),
        None,
        vec![walked("/a.png", true, None, None)],
        FileProbe { exists: true, size_bytes: None, content: None },
    );
    assert!(unfound.assets.is_empty());
    assert_eq!(unfound.plugin_so.path, None);
    assert!(unfound.script_file_detail.is_none());
}

#[test]
fn the_active_theme_section() {
    let probe = ActiveThemeProbe {
        share: None,
        local: Some(SCRIPTED.to_string()),
        so_first: None,
        so_second: None,
        entries: vec![walked("/usr/local/share/plymouth/themes/x/a.svg", true, Some(4), Some(b"abc"))],
        script: FileProbe { exists: false, size_bytes: None, content: None },
    };
    let a = active_theme_section("x", probe);
    assert!(a.found);
    assert_eq!(a.theme_dir.as_deref(), Some("/usr/local/share/plymouth/themes/x"));
    assert_eq!(a.assets.len(), 1);
    assert_eq!(a.plugin_so.path, None);
}

#[test]
fn theme_file_names() {
    assert_eq!(
        plugin_so_candidates("script"),
        vec!["/usr/lib/x86_64-linux-gnu/plymouth/script.so", "/usr/lib/plymouth/script.so"]
    );
    assert!(is_image_asset("/t/x/Logo.PNG"));
    assert!(is_image_asset("a.svg"));
    assert!(!is_image_asset("a.script"));
    assert!(!is_image_asset("png"));
    assert_eq!(theme_plymouth_file("/usr/share/plymouth/themes/bgrt", "bgrt"), "/usr/share/plymouth/themes/bgrt/bgrt.plymouth");
}

fn installed(root: &str, name: &str, primary: Option<&str>, entries: Vec<EntryProbe>, script: bool, image: bool) -> InstalledThemeProbe {
    InstalledThemeProbe {
        root: root.to_string(),
        name: name.to_string(),
        is_dir: true,
        primary: primary.map(|p| p.to_string()),
        entries,
        script_exists: script,
        image_exists: image,
    }
}

const SCRIPT_THEME: &str = "[Plymouth Theme]\nName=Script\nModuleName=script\nScriptFile=script.script\nImageDir=/abs/images\n[script]\nX=1";

#[test]
fn installed_themes() {
    let t = available_theme(
        "script",
        "/usr/share/plymouth/themes/script".to_string(),
        Some(("/usr/share/plymouth/themes/script/script.plymouth".to_string(), SCRIPT_THEME.to_string())),
        "script",
        "usr/share/plymouth/themes/script/script.script",
    );
    assert!(t.is_active);
    assert_eq!(t.in_initramfs, Some(true));
    assert_eq!(t.name.as_deref(), Some("Script"));
    let notes = missing_files(&t, false, false).unwrap();
    assert_eq!(notes, vec!["ScriptFile: /usr/share/plymouth/themes/script/script.script", "ImageDir: /abs/images"]);
    assert_eq!(missing_files(&t, true, true), None);

    let other = EntryProbe { path: "/opt/plymouth/themes/odd/readme".to_string(), exists: true, content: String::new() };
    let alt = EntryProbe { path: "/opt/plymouth/themes/odd/alt.plymouth".to_string(), exists: true, content: "[Plymouth Theme]\nName=Odd".to_string() };
    let all = scan_all(
        vec![
            installed("/usr/share/plymouth/themes", "script", Some(SCRIPT_THEME), vec![], false, true),
            installed("/opt/plymouth/themes", "odd", None, vec![other, alt], true, true),
            installed("/opt/plymouth/themes", "bare", None, vec![], true, true),
            InstalledThemeProbe { is_dir: false, ..installed("/opt/plymouth/themes", "file", None, vec![], true, true) },
        ],
        "script",
        "usr/share/plymouth/themes/script/script.script",
    );
    assert_eq!(all.len(), 3);
    let s = get(&all, "script");
    assert!(s.is_active);
    assert_eq!(s.dir, "/usr/share/plymouth/themes/script");
    assert_eq!(s.plymouth_file.as_deref(), Some("/usr/share/plymouth/themes/script/script.plymouth"));
    assert_eq!(s.missing_files, Some(vec!["ScriptFile: /usr/share/plymouth/themes/script/script.script".to_string()]));
    let o = get(&all, "odd");
    assert!(!o.is_active);
    assert_eq!(o.in_initramfs, Some(false));
    assert_eq!(o.plymouth_file.as_deref(), Some("/opt/plymouth/themes/odd/alt.plymouth"));
    assert_eq!(o.name.as_deref(), Some("Odd"));
    assert_eq!(o.missing_files, None);
    let b = get(&all, "bare");
    assert_eq!(b.error.as_deref(), Some("no .plymouth file found"));
    assert!(all.get("file").is_none());
}

#[test]
fn a_later_theme_of_the_same_name_replaces_the_earlier() {
    let all = scan_all(
        vec![
            installed("/usr/share/plymouth/themes", "x", None, vec![], true, true),
            installed("/opt/plymouth/themes", "x", None, vec![], true, true),
        ],
        "",
        "",
    );
    assert_eq!(all.len(), 1);
    assert_eq!(get(&all, "x").dir, "/opt/plymouth/themes/x");
    assert_eq!(get(&all, "x").in_initramfs, None);
}

// ---------------------------------------------------------------- configuration

fn conf(path: &str, text: Option<&str>) -> ConfigFile {
    collect_config_file(path, text.map(|t| t.to_string()))
}

#[test]
fn configuration_files_and_their_resolution() {
    let d = conf("/usr/share/plymouth/plymouthd.defaults", Some("[Daemon]\nTheme=spinner\nShowDelay=0\nDeviceTimeout=8"));
    let c = conf("/etc/plymouth/plymouthd.conf", Some("[Daemon]\nTheme=bgrt\nShowDelay=5\nTheme=ignored"));
    assert!(c.present);
    assert_eq!(get(&c.values, "Theme").as_deref(), Some("bgrt"));
    assert_eq!(get(&c.values, "ShowDelay").as_deref(), Some("5"));
    assert_eq!(get(&c.values, "DeviceTimeout"), &None);
    let absent = conf("/etc/plymouth/plymouthd.conf", None);
    assert!(!absent.present);
    assert_eq!(absent.values.len(), 4);
    let e = effective_config(&c, &d, "bgrt");
    assert_eq!(e.len(), 5);
    assert!(matches!(get(&e, "Theme"), ConfigValue::Text(t) if t == "bgrt"));
    assert!(matches!(get(&e, "ShowDelay"), ConfigValue::Text(t) if t == "5"));
    // A key that the conf file leaves without a value is taken from the defaults file.
    assert!(matches!(get(&e, "DeviceTimeout"), ConfigValue::Text(t) if t == "8"));
    let e = effective_config(&absent, &d, "other");
    assert!(matches!(get(&e, "Theme"), ConfigValue::Text(t) if t == "spinner"));
    assert!(matches!(get(&e, "ShowDelay"), ConfigValue::Text(t) if t == "0"));
    assert!(matches!(get(&e, "CharacterEncoding"), ConfigValue::Null));
    let e = effective_config(&absent, &conf("/x", None), "fallback");
    assert!(matches!(get(&e, "Theme"), ConfigValue::Text(t) if t == "fallback"));
    assert!(matches!(get(&e, "ShowDelay"), ConfigValue::Number(0)));
    assert!(matches!(get(&e, "DeviceTimeout"), ConfigValue::Number(8)));
    assert!(matches!(get(&e, "note"), ConfigValue::Text(t) if t == "Resolved: conf overrides defaults; theme via update-alternatives when no conf"));
}

fn follow(start: &str, probes: Vec<LinkProbe>) -> Vec<bootiful_plymouth_discovery::model::SymlinkStep> {
    let mut st = chain_start(start.to_string());
    for p in probes {
        if st.finished {
            break;
        }
        st = chain_step(st, p);
    }
    chain_steps(st)
}

fn link(target: &str) -> LinkProbe {
    LinkProbe { is_symlink: true, exists: true, target: Some(target.to_string()) }
}

#[test]
fn symlink_chains_stop_at_a_repeated_target() {
    let steps = follow("/a", vec![link("b"), link("/c"), link("/b"), link("/c"), link("/x")]);
    let paths: Vec<&str> = steps.iter().map(|s| s.path.as_str()).collect();
    assert_eq!(paths, vec!["/a", "/b", "/c"]);
    assert_eq!(steps[2].target.as_deref(), Some("/b"));
    let steps = follow("/etc/alternatives/default.plymouth", vec![
        link("/usr/share/plymouth/themes/bgrt/bgrt.plymouth"),
        LinkProbe { is_symlink: false, exists: true, target: None },
    ]);
    assert_eq!(steps.len(), 2);
    assert_eq!(steps[1].path, "/usr/share/plymouth/themes/bgrt/bgrt.plymouth");
    assert_eq!(steps[1].target, None);
}

#[test]
fn the_active_theme_fallback_chain() {
    let none = conf("/etc/plymouth/plymouthd.conf", None);
    let defaults = conf("/usr/share/plymouth/plymouthd.defaults", Some("[Daemon]\nTheme=spinner"));
    let query = "Name: default.plymouth\nLink: /usr/share/plymouth/themes/default.plymouth\nValue: /usr/share/plymouth/themes/bgrt/bgrt.plymouth";
    assert_eq!(detect_active_theme(query, &vec![], &none, &defaults), "bgrt");
    let chain = follow("/etc/alternatives/default.plymouth", vec![
        link("/usr/share/plymouth/themes/mint-logo/mint-logo.plymouth"),
        LinkProbe { is_symlink: false, exists: true, target: None },
    ]);
    assert_eq!(detect_active_theme("Value: /nowhere", &vec![chain], &none, &defaults), "mint-logo");
    let c = conf("/etc/plymouth/plymouthd.conf", Some("[Daemon]\nTheme=tribar"));
    assert_eq!(detect_active_theme("", &vec![], &c, &defaults), "tribar");
    assert_eq!(detect_active_theme("", &vec![], &none, &defaults), "spinner");
    assert_eq!(detect_active_theme("", &vec![], &none, &none), "");
    let dangling = follow("/etc/alternatives/default.plymouth", vec![
        link("/usr/share/plymouth/themes/gone/gone.plymouth"),
        LinkProbe { is_symlink: false, exists: false, target: None },
    ]);
    assert_eq!(detect_active_theme("", &vec![dangling], &c, &defaults), "gone");
}

#[test]
fn missing_default_links_do_not_select_a_theme() {
    let absent = |l: &str| LinkChain {
        link: l.to_string(),
        present: false,
        steps: follow(l, vec![LinkProbe { is_symlink: false, exists: false, target: None }]),
    };
    let g = config::collect(
        false,
        vec![],
        conf("/usr/share/plymouth/plymouthd.defaults", Some("[Daemon]\nTheme=bgrt")),
        conf("/etc/plymouth/plymouthd.conf", Some("[Daemon]\nTheme=spinner")),
        String::new(),
        String::new(),
        vec![absent("/etc/alternatives/default.plymouth"), absent("/usr/share/plymouth/themes/default.plymouth")],
    );
    assert_eq!(g.active_theme, "spinner");
    assert_eq!(g.symlink_chains.len(), 0);
}

#[test]
fn global_configuration_section() {
    let chain = follow("/etc/alternatives/default.plymouth", vec![link("/usr/share/plymouth/themes/bgrt/bgrt.plymouth"), LinkProbe { is_symlink: false, exists: true, target: None }]);
    let g = config::collect(
        true,
        vec![
            bootiful_plymouth_discovery::model::FileInfo { path: "/etc/plymouth/z".to_string(), size_bytes: None, modified: None },
            bootiful_plymouth_discovery::model::FileInfo { path: "/etc/plymouth/a".to_string(), size_bytes: Some(1), modified: None },
        ],
        conf("/usr/share/plymouth/plymouthd.defaults", Some("[Daemon]\nTheme=spinner")),
        conf("/etc/plymouth/plymouthd.conf", None),
        "display".to_string(),
        "".to_string(),
        vec![
            LinkChain { link: "/etc/alternatives/default.plymouth".to_string(), present: true, steps: chain },
            LinkChain { link: "/usr/share/plymouth/themes/default.plymouth".to_string(), present: false, steps: vec![] },
        ],
    );
    assert_eq!(g.active_theme, "bgrt");
    assert_eq!(g.etc_plymouth_directory.files[0].path, "/etc/plymouth/a");
    assert_eq!(g.symlink_chains.len(), 1);
    assert_eq!(get(&g.symlink_chains, "/etc/alternatives/default.plymouth").len(), 2);
    assert!(matches!(get(&g.effective_daemon_config, "Theme"), ConfigValue::Text(t) if t == "spinner"));
}

// ---------------------------------------------------------------- initramfs

#[test]
fn initramfs_images_and_tools() {
    let t = tool_info(ToolProbe { path: "".to_string(), version: "x".to_string() });
    assert_eq!((t.path, t.version), (None, None));
    let t = tool_info(ToolProbe { path: "/usr/sbin/update-initramfs".to_string(), version: "update-initramfs 0.142".to_string() });
    assert_eq!(t.version.as_deref(), Some("update-initramfs 0.142"));
    let img = |p: &str| ImageFile { path: p.to_string(), size_bytes: None, modified: None };
    let images = initrd_images(
        vec![img("/boot/initrd.img-6.8.0-31-generic"), img("/boot/initrd.img-6.5.0-1-generic"), img("/boot/initrd.img-6.8.0-31-generic.old")],
        "6.8.0-31-generic",
    );
    let paths: Vec<&str> = images.iter().map(|i| i.path.as_str()).collect();
    assert_eq!(paths, vec!["/boot/initrd.img-6.5.0-1-generic", "/boot/initrd.img-6.8.0-31-generic", "/boot/initrd.img-6.8.0-31-generic.old"]);
    assert_eq!(images.iter().map(|i| i.is_current).collect::<Vec<_>>(), vec![false, true, true]);
    assert_eq!(current_initrd_path("6.8.0"), "/boot/initrd.img-6.8.0");
}

const LISTING: &str = "usr/share/plymouth/themes/bgrt/bgrt.plymouth
usr/lib/x86_64-linux-gnu/plymouth/two-step.so
usr/lib/modules/6.8.0/kernel/drivers/gpu/drm/i915/i915.ko
usr/lib/modules/6.8.0/kernel/drivers/acpi/BGRT.ko
etc/Plymouth/notes";

#[test]
fn classifying_the_image_listing() {
    let c = classify_listing(LISTING, "bgrt");
    assert_eq!(c.plymouth.len(), 3);
    assert_eq!(c.theme, vec!["usr/share/plymouth/themes/bgrt/bgrt.plymouth"]);
    assert_eq!(c.drm, vec!["usr/lib/modules/6.8.0/kernel/drivers/gpu/drm/i915/i915.ko"]);
    assert_eq!(c.bgrt, vec!["usr/share/plymouth/themes/bgrt/bgrt.plymouth", "usr/lib/modules/6.8.0/kernel/drivers/acpi/BGRT.ko"]);
    let no_theme = classify_listing(LISTING, "");
    assert!(no_theme.theme.is_empty());
}

fn probe(exists: bool, mtime: i128) -> InitrdProbe {
    InitrdProbe { exists, size_bytes: Some(10), modified: Some("2024-05-01T10:00:00".to_string()), mtime: Some(mtime) }
}

#[test]
fn analysing_the_current_image() {
    let dir = ThemeDirProbe { exists: true, modified: Some("2024-06-01T10:00:00".to_string()), mtime: Some(200) };
    let a = analyze_initrd("/boot/initrd.img-6.8.0".to_string(), probe(true, 100), dir, LISTING, "bgrt");
    assert_eq!(a.theme_newer_than_initrd, Some(true));
    assert_eq!(a.active_theme_modified.as_deref(), Some("2024-06-01T10:00:00"));
    assert!(a.active_theme_in_initramfs);
    assert_eq!(a.error, None);
    let dir = ThemeDirProbe { exists: true, modified: None, mtime: None };
    let a = analyze_initrd("/boot/initrd.img-6.8.0".to_string(), probe(true, 100), dir, "", "bgrt");
    assert_eq!(a.theme_newer_than_initrd, None);
    assert_eq!(a.error.as_deref(), Some("lsinitramfs failed or returned no output"));
    assert!(!a.active_theme_in_initramfs);
    let dir = ThemeDirProbe { exists: true, modified: Some("x".to_string()), mtime: Some(5) };
    let a = analyze_initrd("/boot/initrd.img-6.8.0".to_string(), probe(false, 100), dir, LISTING, "bgrt");
    assert_eq!(a.active_theme_modified, None);
    assert_eq!(a.error, None);
    assert!(a.plymouth_files.is_empty());
}

// ---------------------------------------------------------------- runtime

#[test]
fn runtime_pieces() {
    assert_eq!(daemon_mode(false, "boot".to_string()), "unknown");
    assert_eq!(daemon_mode(true, "boot".to_string()), "boot");
    assert_eq!(trimmed_lines("  a.service loaded \nb  "), vec!["a.service loaded", "b"]);
    let p = parse_show_properties("WantedBy=\nBefore=a b\nAfter=x=y\nnoise");
    assert_eq!(p.len(), 3);
    assert_eq!(get(&p, "After"), "x=y");
    assert_eq!(get(&p, "WantedBy"), "");
    let dm = |s: &str, a: &str, after: &str| DmProbe { service: s.to_string(), is_active: a.to_string(), after: after.to_string() };
    let d = display_manager_of(vec![dm("gdm.service", "inactive", ""), dm("lightdm.service", "active", "After=Plymouth-quit-wait.service"), dm("sddm.service", "active", "")]);
    assert_eq!(d.service.as_deref(), Some("lightdm.service"));
    assert!(d.active && d.depends_on_plymouth_quit_wait);
    let d = display_manager_of(vec![dm("gdm.service", "activating", "")]);
    assert_eq!(d.service, None);
    assert!(!d.active);
    let files = run_plymouth_files(vec![
        RunFileProbe { path: "/run/plymouth/pid".to_string(), size_bytes: Some(4), is_file: true, content: "812".to_string() },
        RunFileProbe { path: "/run/plymouth/boot-duration".to_string(), size_bytes: Some(8), is_file: true, content: "7.1".to_string() },
        RunFileProbe { path: "/run/plymouth/dir".to_string(), size_bytes: None, is_file: false, content: String::new() },
    ]);
    let paths: Vec<&str> = files.iter().map(|f| f.path.as_str()).collect();
    assert_eq!(paths, vec!["/run/plymouth/boot-duration", "/run/plymouth/dir", "/run/plymouth/pid"]);
    assert_eq!(files[1].content, None);
    assert_eq!(files[2].content.as_deref(), Some("812"));
}

fn unit(active: &str, enabled: &str) -> UnitState {
    UnitState { active: active.to_string(), enabled: enabled.to_string() }
}

fn runtime_probe(ping_rc: i32) -> RuntimeProbe {
    RuntimeProbe {
        version: "".to_string(),
        ping_rc,
        mode: "boot".to_string(),
        units: "plymouth-start.service loaded active exited".to_string(),
        unit_states: (0..7).map(|i| if i == 0 { unit("inactive", "static") } else { unit("inactive", "enabled") }).collect(),
        quit_wait_show: "After=x".to_string(),
        start_unit_cat: "[Unit]".to_string(),
        display_managers: vec![DmProbe { service: "gdm.service".to_string(), is_active: "active".to_string(), after: "plymouth-quit-wait.service".to_string() }],
        run_files: vec![],
    }
}

#[test]
fn runtime_section() {
    let r = runtime::collect(runtime_probe(1));
    assert_eq!(r.version, None);
    assert!(!r.daemon_running);
    assert_eq!(r.daemon_mode, "unknown");
    assert_eq!(r.valid_modes.len(), 7);
    assert_eq!(get(&r.mode_control_commands, "system_upgrade"), "plymouth change-mode --system-upgrade");
    assert_eq!(r.unit_states.len(), 7);
    assert_eq!(get(&r.unit_states, "plymouth-start.service").enabled, "static");
    assert_eq!(get(&r.unit_states, "plymouth-reboot.service").enabled, "enabled");
    assert_eq!(r.plymouth_start_unit_file.as_deref(), Some("[Unit]"));
    assert_eq!(r.display_manager.service.as_deref(), Some("gdm.service"));
}

// ---------------------------------------------------------------- the whole snapshot

fn no_theme_probe() -> ActiveThemeProbe {
    ActiveThemeProbe {
        share: None,
        local: None,
        so_first: None,
        so_second: None,
        entries: vec![],
        script: FileProbe { exists: false, size_bytes: None, content: None },
    }
}

fn theme_dirs() -> Vec<InstalledThemeProbe> {
    vec![installed("/usr/share/plymouth/themes", "bgrt", None, vec![], true, true)]
}

fn at_ten() -> LocalTime {
    LocalTime { year: 2024, month: 6, day: 1, hour: 10, minute: 0, second: 0 }
}

fn empty_config_file(path: &str) -> ConfigFile {
    conf(path, None)
}

fn snapshot_sections(theme_in_initramfs: bool, splash: bool) -> Sections {
    let mut parameters: StrMap<bool> = StrMap::new();
    parameters.insert("splash".to_string(), splash);
    let mut unit_states: StrMap<UnitState> = StrMap::new();
    unit_states.insert("plymouth-start.service".to_string(), unit("inactive", "static"));
    let empty_log = |p: &str| LogFileInfo { path: p.to_string(), exists: false, lines: StrMap::new() };
    Sections {
        runtime_environment: RuntimeEnvironment {
            python_version: "3.12.3".to_string(),
            python_executable: String::new(),
            uid: 1000,
            running_as_root: false,
            pid: 1,
            path: None,
            display: None,
            xdg_session_type: None,
            xdg_current_desktop: None,
        },
        system_context: SystemContext {
            uname_full: String::new(),
            uname_machine: String::new(),
            dpkg_architecture: String::new(),
            os_release: StrMap::new(),
            lsb_release: StrMap::new(),
            hostname: String::new(),
        },
        packages: Packages { packages: StrMap::new(), _plymouth_file_list: vec![], _apt_cache_policy: String::new(), _apt_cache_show: StrMap::new() },
        global_config: GlobalConfig {
            etc_plymouth_directory: DirectoryInfo { exists: true, files: vec![] },
            daemon_defaults_file: empty_config_file("/usr/share/plymouth/plymouthd.defaults"),
            daemon_conf_file: empty_config_file("/etc/plymouth/plymouthd.conf"),
            effective_daemon_config: StrMap::new(),
            active_theme: "bgrt".to_string(),
            update_alternatives_display: String::new(),
            update_alternatives_query: String::new(),
            symlink_chains: StrMap::new(),
        },
        available_plugins: StrMap::new(),
        available_renderers: StrMap::new(),
        distribution_logo: DistributionLogo { note: String::new(), logos: StrMap::new() },
        initramfs: Initramfs {
            tools: StrMap::new(),
            current_kernel: "6.8.0".to_string(),
            images: vec![],
            current_initrd_analysis: InitrdAnalysis {
                path: "/boot/initrd.img-6.8.0".to_string(),
                exists: true,
                size_bytes: None,
                modified: None,
                active_theme_modified: None,
                theme_newer_than_initrd: None,
                plymouth_files: vec![],
                drm_kms_files: vec!["i915.ko".to_string()],
                bgrt_files: vec![],
                active_theme_files: vec![],
                active_theme_in_initramfs: theme_in_initramfs,
                error: None,
            },
        },
        bootloader: Bootloader {
            bootloader_type: "grub".to_string(),
            grub: GrubConfig {
                present: true,
                default_config_path: None,
                cfg_path: None,
                cmdline_linux_default: String::new(),
                cmdline_linux: String::new(),
                non_comment_lines: vec![],
                splash_plymouth_entries_in_cfg: vec![],
            },
            systemd_boot: SystemdBootConfig { present: false, status: None },
            active_cmdline: ActiveCmdline { raw: String::new(), parameters },
            kernel_entries: vec![],
        },
        runtime_state: RuntimeState {
            version: None,
            daemon_running: false,
            daemon_mode: "unknown".to_string(),
            valid_modes: vec![],
            mode_control_commands: StrMap::new(),
            units_list: vec![],
            unit_states,
            plymouth_quit_wait_properties: StrMap::new(),
            plymouth_start_unit_file: None,
            display_manager: DisplayManagerInfo { service: None, active: false, depends_on_plymouth_quit_wait: false, after_property: None },
            run_plymouth_files: vec![],
        },
        graphics: Graphics {
            framebuffer_devices: vec![],
            graphics_sys_entries: vec![],
            drm_devices: vec![],
            loaded_graphics_modules: vec![],
            simpledrm_loaded: false,
            efifb_loaded: false,
            uefi: false,
            bgrt: BgrtInfo { present: false, xoffset: None, yoffset: None, status: None, bgrt_type: None },
        },
        logs: Logs {
            run_plymouth: RunPlymouthLogInfo { path: "/run/plymouth".to_string(), exists: false, note: String::new() },
            boot_log: empty_log("/var/log/boot.log"),
            syslog: empty_log("/var/log/syslog"),
            kern_log: empty_log("/var/log/kern.log"),
            journalctl_current_boot: JournalctlInfo { plymouth_lines_last_40: vec![] },
        },
    }
}

#[test]
fn a_healthy_snapshot_passes_every_check() {
    let c = collect_all(snapshot_sections(true, true), no_theme_probe(), theme_dirs(), "", at_ten(), 0, "24.004.60");
    assert_eq!(c._meta.generator, "bootiful-plymouth-discovery");
    assert_eq!(c._meta.generated_at, "2024-06-01T10:00:00");
    assert_eq!(c._meta.python_version, "3.12.3");
    assert_eq!(c._meta.uid, 1000);
    assert_eq!(c._meta.sections, sections());
    assert_eq!(c._meta.sections.len(), 15);
    assert_eq!(c._meta.sections[14], "consistency_check");
    assert_eq!(c.active_theme.name, "bgrt");
    assert!(!c.active_theme.found);
    assert!(get(&c.available_themes, "bgrt").is_active);
    assert!(c.consistency_check.all_ok);
    assert_eq!(
        c.consistency_check.passed,
        vec![
            "Package 'plymouth' installed (ver 24.004.60)",
            "plymouth-start.service: static",
            "Active theme 'bgrt' exists on disk",
            "Kernel parameter 'splash' present in active cmdline",
            "Active theme 'bgrt' present in initramfs",
            "DRM/KMS modules present in initramfs",
        ]
    );
}

#[test]
fn every_failed_check_is_reported_once() {
    let mut s = snapshot_sections(false, false);
    s.runtime_state.display_manager = DisplayManagerInfo {
        service: Some("gdm.service".to_string()),
        active: true,
        depends_on_plymouth_quit_wait: false,
        after_property: Some("After=".to_string()),
    };
    let c = collect_all(s, no_theme_probe(), theme_dirs(), "", at_ten(), 1, "");
    assert!(!c.consistency_check.all_ok);
    assert_eq!(c.consistency_check.passed.len() + c.consistency_check.issues.len(), 7);
    assert_eq!(
        c.consistency_check.issues,
        vec![
            "Package 'plymouth' is NOT installed",
            "Kernel parameter 'splash' missing from active cmdline",
            "Active theme 'bgrt' NOT in initramfs – run: update-initramfs -u",
            "gdm.service does NOT depend on plymouth-quit-wait",
        ]
    );
    let again = check(&c, 1, "");
    assert_eq!(again.issues, c.consistency_check.issues);
}

#[test]
fn timestamps_are_written_as_chrono_writes_them() {
    let t = |year: i32, month: u32, day: u32, hour: u32, minute: u32, second: u32| {
        format_timestamp(&LocalTime { year, month, day, hour, minute, second })
    };
    assert_eq!(t(2024, 6, 1, 9, 5, 7), "2024-06-01T09:05:07");
    assert_eq!(t(987, 12, 31, 23, 59, 60), "0987-12-31T23:59:60");
    assert_eq!(t(-1, 1, 1, 0, 0, 0), "-0001-01-01T00:00:00");
    assert_eq!(t(12345, 1, 1, 0, 0, 0), "+12345-01-01T00:00:00");
    for (y, mo, d) in [(2024, 6, 1), (5, 2, 3), (-44, 3, 15), (10000, 1, 1), (-12345, 7, 9)] {
        let dt = NaiveDateTime::new(NaiveDate::from_ymd_opt(y, mo, d).unwrap(), NaiveTime::from_hms_opt(13, 4, 9).unwrap());
        assert_eq!(t(y, mo, d, 13, 4, 9), dt.format("%Y-%m-%dT%H:%M:%S").to_string());
    }
}
