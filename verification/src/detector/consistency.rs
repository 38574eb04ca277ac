//! The health checks run over a finished snapshot.
use vstd::prelude::*;
use crate::model::{ConsistencyCheck, PlymouthConfig};
use crate::text::{concat3, eq_str, string_of, strs, to_chars};

verus! {

/// A message kept when `ok` matches `want`.
pub open spec fn keep(ok: bool, want: bool, m: Seq<char>) -> Seq<Seq<char>> {
    if ok == want {
        seq![m]
    } else {
        seq![]
    }
}

/// Check 1: the `plymouth` package is installed when `dpkg-query` succeeds and prints a
/// version.
pub open spec fn package_ok(rc: i32, version: Seq<char>) -> bool {
    rc == 0 && version.len() > 0
}

pub open spec fn package_msg(rc: i32, version: Seq<char>) -> Seq<char> {
    if package_ok(rc, version) {
        "Package 'plymouth' installed (ver "@ + version + ")"@
    } else {
        "Package 'plymouth' is NOT installed"@
    }
}

/// Check 2: the state in which `plymouth-start.service` is enabled (`unknown` when the
/// unit was not looked at).
pub open spec fn start_state(c: PlymouthConfig) -> Seq<char> {
    match c.runtime_state.unit_states.spec_get("plymouth-start.service"@) {
        Some(u) => u.enabled@,
        None => "unknown"@,
    }
}

pub open spec fn start_ok(c: PlymouthConfig) -> bool {
    start_state(c) == "enabled"@ || start_state(c) == "static"@
}

pub open spec fn start_msg(c: PlymouthConfig) -> Seq<char> {
    if start_ok(c) {
        "plymouth-start.service: "@ + start_state(c)
    } else {
        "plymouth-start.service not enabled (state: "@ + start_state(c) + ")"@
    }
}

/// Check 3: the active theme is named and installed.
pub open spec fn theme_ok(c: PlymouthConfig) -> bool {
    c.global_config.active_theme@.len() > 0 && c.available_themes.has(c.global_config.active_theme@)
}

pub open spec fn theme_msg(c: PlymouthConfig) -> Seq<char> {
    let a = c.global_config.active_theme@;
    if theme_ok(c) {
        "Active theme '"@ + a + "' exists on disk"@
    } else {
        "Active theme '"@ + a + "' NOT found in theme directories"@
    }
}

/// Check 4: the running kernel was given `splash`.
pub open spec fn splash_ok(c: PlymouthConfig) -> bool {
    c.bootloader.active_cmdline.parameters.spec_get("splash"@) == Some(true)
}

pub open spec fn splash_msg(c: PlymouthConfig) -> Seq<char> {
    if splash_ok(c) {
        "Kernel parameter 'splash' present in active cmdline"@
    } else {
        "Kernel parameter 'splash' missing from active cmdline"@
    }
}

/// Check 5: the active theme is in the initramfs.
pub open spec fn initramfs_ok(c: PlymouthConfig) -> bool {
    c.initramfs.current_initrd_analysis.active_theme_in_initramfs
}

pub open spec fn initramfs_msg(c: PlymouthConfig) -> Seq<char> {
    let a = c.global_config.active_theme@;
    if initramfs_ok(c) {
        "Active theme '"@ + a + "' present in initramfs"@
    } else {
        "Active theme '"@ + a + "' NOT in initramfs – run: update-initramfs -u"@
    }
}

/// Check 6: the initramfs holds DRM/KMS modules.
pub open spec fn drm_ok(c: PlymouthConfig) -> bool {
    c.initramfs.current_initrd_analysis.drm_kms_files@.len() > 0
}

pub open spec fn drm_msg(c: PlymouthConfig) -> Seq<char> {
    if drm_ok(c) {
        "DRM/KMS modules present in initramfs"@
    } else {
        "DRM/KMS modules missing from initramfs"@
    }
}

/// Check 7, which only speaks of an active display manager whose service is known.
pub open spec fn dm_checked(c: PlymouthConfig) -> bool {
    c.runtime_state.display_manager.active && c.runtime_state.display_manager.service is Some
}

pub open spec fn dm_ok(c: PlymouthConfig) -> bool {
    c.runtime_state.display_manager.depends_on_plymouth_quit_wait
}

pub open spec fn dm_msg(c: PlymouthConfig) -> Seq<char> {
    let svc = c.runtime_state.display_manager.service->0@;
    if dm_ok(c) {
        svc + " properly depends on plymouth-quit-wait.service"@
    } else {
        svc + " does NOT depend on plymouth-quit-wait"@
    }
}

/// The messages of the checks that gave `want` (true: passed, false: issues), in the
/// order of the checks.
pub open spec fn check_messages(c: PlymouthConfig, rc: i32, version: Seq<char>, want: bool) -> Seq<
    Seq<char>,
> {
    keep(package_ok(rc, version), want, package_msg(rc, version)) + keep(
        start_ok(c),
        want,
        start_msg(c),
    ) + keep(theme_ok(c), want, theme_msg(c)) + keep(splash_ok(c), want, splash_msg(c)) + keep(
        initramfs_ok(c),
        want,
        initramfs_msg(c),
    ) + keep(drm_ok(c), want, drm_msg(c)) + (if dm_checked(c) {
        keep(dm_ok(c), want, dm_msg(c))
    } else {
        seq![]
    })
}

/// Adds `m` to `passed` or to `issues`.
fn record(ok: bool, m: String, passed: &mut Vec<String>, issues: &mut Vec<String>)
    ensures
        strs(final(passed)@) == strs(old(passed)@) + keep(ok, true, m@),
        strs(final(issues)@) == strs(old(issues)@) + keep(ok, false, m@),
{
    let ghost p0 = strs(passed@);
    let ghost i0 = strs(issues@);
    if ok {
        passed.push(m);
    } else {
        issues.push(m);
    }
    assert(strs(passed@) =~= p0 + keep(ok, true, m@));
    assert(strs(issues@) =~= i0 + keep(ok, false, m@));
}

/// The seven health checks over a snapshot, given what `dpkg-query` answered for the
/// `plymouth` package's version (exit code and output). Each check's message goes to
/// `passed` or to `issues`; all is well when there is no issue.
pub fn check(config: &PlymouthConfig, package_rc: i32, package_version: &str) -> (r: ConsistencyCheck)
    ensures
        strs(r.passed@) == check_messages(*config, package_rc, package_version@, true),
        strs(r.issues@) == check_messages(*config, package_rc, package_version@, false),
        r.all_ok == (r.issues@.len() == 0),
{
    let mut passed: Vec<String> = Vec::new();
    let mut issues: Vec<String> = Vec::new();
    // 1. Package installed.
    let ver = to_chars(package_version);
    let ok1 = package_rc == 0 && ver.len() > 0;
    let m1 = if ok1 {
        concat3("Package 'plymouth' installed (ver ", ver.as_slice(), ")")
    } else {
        string_of("Package 'plymouth' is NOT installed")
    };
    proof {
        reveal_strlit("");
        assert(""@ =~= Seq::<char>::empty());
    }
    record(ok1, m1, &mut passed, &mut issues);
    // 2. plymouth-start.service enabled.
    let state = match config.runtime_state.unit_states.get("plymouth-start.service") {
        Some(u) => to_chars(u.enabled.as_str()),
        None => to_chars("unknown"),
    };
    let ok2 = eq_str(state.as_slice(), "enabled") || eq_str(state.as_slice(), "static");
    let m2 = if ok2 {
        concat3("plymouth-start.service: ", state.as_slice(), "")
    } else {
        concat3("plymouth-start.service not enabled (state: ", state.as_slice(), ")")
    };
    proof {
        assert(("plymouth-start.service: "@ + state@ + ""@) =~= "plymouth-start.service: "@ + state@);
    }
    record(ok2, m2, &mut passed, &mut issues);
    // 3. Active theme on disk.
    let active = to_chars(config.global_config.active_theme.as_str());
    let ok3 = active.len() > 0 && config.available_themes.contains_key(
        config.global_config.active_theme.as_str(),
    );
    let m3 = if ok3 {
        concat3("Active theme '", active.as_slice(), "' exists on disk")
    } else {
        concat3("Active theme '", active.as_slice(), "' NOT found in theme directories")
    };
    record(ok3, m3, &mut passed, &mut issues);
    // 4. splash on the kernel command line.
    let ok4 = match config.bootloader.active_cmdline.parameters.get("splash") {
        Some(b) => *b,
        None => false,
    };
    let m4 = if ok4 {
        string_of("Kernel parameter 'splash' present in active cmdline")
    } else {
        string_of("Kernel parameter 'splash' missing from active cmdline")
    };
    record(ok4, m4, &mut passed, &mut issues);
    // 5. Active theme in the initramfs.
    let analysis = &config.initramfs.current_initrd_analysis;
    let ok5 = analysis.active_theme_in_initramfs;
    let m5 = if ok5 {
        concat3("Active theme '", active.as_slice(), "' present in initramfs")
    } else {
        concat3("Active theme '", active.as_slice(), "' NOT in initramfs – run: update-initramfs -u")
    };
    record(ok5, m5, &mut passed, &mut issues);
    // 6. DRM/KMS modules in the initramfs.
    let ok6 = analysis.drm_kms_files.len() > 0;
    let m6 = if ok6 {
        string_of("DRM/KMS modules present in initramfs")
    } else {
        string_of("DRM/KMS modules missing from initramfs")
    };
    record(ok6, m6, &mut passed, &mut issues);
    // 7. Display manager waits for plymouth.
    let dm = &config.runtime_state.display_manager;
    let ghost before_p = strs(passed@);
    let ghost before_i = strs(issues@);
    if dm.active {
        match &dm.service {
            Some(svc) => {
                let sc = to_chars(svc.as_str());
                let ok7 = dm.depends_on_plymouth_quit_wait;
                let m7 = if ok7 {
                    concat3("", sc.as_slice(), " properly depends on plymouth-quit-wait.service")
                } else {
                    concat3("", sc.as_slice(), " does NOT depend on plymouth-quit-wait")
                };
                record(ok7, m7, &mut passed, &mut issues);
            },
            None => {},
        }
    }
    proof {
        if !dm_checked(*config) {
            assert(strs(passed@) =~= before_p + Seq::<Seq<char>>::empty());
            assert(strs(issues@) =~= before_i + Seq::<Seq<char>>::empty());
        }
        assert(strs(passed@) =~= check_messages(*config, package_rc, package_version@, true));
        assert(strs(issues@) =~= check_messages(*config, package_rc, package_version@, false));
    }
    let all_ok = issues.len() == 0;
    ConsistencyCheck { all_ok, passed, issues }
}

/// Every check but the last gives exactly one message, to `passed` or to `issues`; the
/// last gives one when a display manager is active and its service is known.
pub proof fn lemma_every_check_reports(c: PlymouthConfig, rc: i32, version: Seq<char>)
    ensures
        check_messages(c, rc, version, true).len() + check_messages(c, rc, version, false).len()
            == 6 + (if dm_checked(c) {
            1int
        } else {
            0int
        }),
{
}

/// When a display manager is active and its service known, its message ends the list of
/// passed checks when it waits for plymouth-quit-wait, and the list of issues otherwise.
pub proof fn lemma_display_manager_reported(c: PlymouthConfig, rc: i32, version: Seq<char>)
    ensures
        dm_checked(c) && dm_ok(c) ==> check_messages(c, rc, version, true).last() == dm_msg(c),
        dm_checked(c) && !dm_ok(c) ==> check_messages(c, rc, version, false).last() == dm_msg(c),
{
}

/// The active-theme check passes only for a theme that is installed: when the configured
/// theme is named but `available_themes` has no entry for it, the issues say that it was not
/// found (so not all is well); when it has one, the passed checks say that it exists.
pub proof fn lemma_missing_active_theme_is_an_issue(c: PlymouthConfig, rc: i32, version: Seq<char>)
    ensures
        c.global_config.active_theme@.len() > 0 && !c.available_themes.has(
            c.global_config.active_theme@,
        ) ==> {
            &&& check_messages(c, rc, version, false).contains(
                "Active theme '"@ + c.global_config.active_theme@
                    + "' NOT found in theme directories"@,
            )
            &&& check_messages(c, rc, version, false).len() > 0
        },
        c.global_config.active_theme@.len() > 0 && c.available_themes.has(
            c.global_config.active_theme@,
        ) ==> check_messages(c, rc, version, true).contains(
            "Active theme '"@ + c.global_config.active_theme@ + "' exists on disk"@,
        ),
{
    let a = c.global_config.active_theme@;
    if a.len() > 0 {
        let want = c.available_themes.has(a);
        let pre = keep(package_ok(rc, version), want, package_msg(rc, version)) + keep(
            start_ok(c),
            want,
            start_msg(c),
        );
        let msgs = check_messages(c, rc, version, want);
        assert(msgs[pre.len() as int] == theme_msg(c));
        assert(msgs.contains(theme_msg(c)));
    }
}

} // verus!
