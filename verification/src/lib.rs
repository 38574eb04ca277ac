//! A snapshot of how Plymouth, the boot splash, is set up on a Debian-like system:
//! packages, configuration, themes, plugins, initramfs, boot loader, runtime state,
//! graphics and logs, with a consistency check over the whole.
//!
//! Each section is computed by a verified function from what was read of the system;
//! the reading itself is done by the caller.
pub mod text;
pub mod strmap;
pub mod path;
pub mod model;
pub mod detector;
pub mod order;
pub mod timestamp;

use vstd::prelude::*;
use crate::detector::consistency::{check, check_messages};
use crate::model::{
    Bootloader, ConsistencyCheck, DistributionLogo, GlobalConfig, Graphics,
    Initramfs, Logs, Meta, Packages, PlymouthConfig, Plugin, Renderer, RuntimeEnvironment, RuntimeState,
    SystemContext,
};
use crate::detector::themes::{
    active_theme_of, active_theme_section, installed_entry, last_dir_named, scan_all, ActiveThemeProbe,
    InstalledThemeProbe,
};
use crate::strmap::StrMap;
use crate::text::{string_of, strs};
use crate::timestamp::{format_timestamp, timestamp_text, LocalTime};

verus! {

/// The sections of a snapshot, in order.
pub open spec fn section_names() -> Seq<Seq<char>> {
    seq![
        "runtime_environment"@,
        "system_context"@,
        "packages"@,
        "global_config"@,
        "active_theme"@,
        "available_themes"@,
        "available_plugins"@,
        "available_renderers"@,
        "distribution_logo"@,
        "initramfs"@,
        "bootloader"@,
        "runtime_state"@,
        "graphics"@,
        "logs"@,
        "consistency_check"@,
    ]
}

/// The sections of a snapshot, in order.
pub fn sections() -> (r: Vec<String>)
    ensures
        strs(r@) == section_names(),
{
    let mut r: Vec<String> = Vec::new();
    r.push(string_of("runtime_environment"));
    r.push(string_of("system_context"));
    r.push(string_of("packages"));
    r.push(string_of("global_config"));
    r.push(string_of("active_theme"));
    r.push(string_of("available_themes"));
    r.push(string_of("available_plugins"));
    r.push(string_of("available_renderers"));
    r.push(string_of("distribution_logo"));
    r.push(string_of("initramfs"));
    r.push(string_of("bootloader"));
    r.push(string_of("runtime_state"));
    r.push(string_of("graphics"));
    r.push(string_of("logs"));
    r.push(string_of("consistency_check"));
    assert(strs(r@) =~= section_names());
    r
}

/// The sections of a snapshot that do not depend on the active theme, each computed by
/// its detector.
pub struct Sections {
    pub runtime_environment: RuntimeEnvironment,
    pub system_context: SystemContext,
    pub packages: Packages,
    pub global_config: GlobalConfig,
    pub available_plugins: StrMap<Plugin>,
    pub available_renderers: StrMap<Renderer>,
    pub distribution_logo: DistributionLogo,
    pub initramfs: Initramfs,
    pub bootloader: Bootloader,
    pub runtime_state: RuntimeState,
    pub graphics: Graphics,
    pub logs: Logs,
}

/// The whole snapshot, taken at the local time `now`: the sections as given; the
/// active-theme section and the installed themes, computed for the active theme of the
/// global configuration from what was found for them (with `theme_listing`, the output
/// of `lsinitramfs` on the running kernel's image, or empty); the metadata; and the
/// consistency check over the whole, for which `dpkg-query` answered `package_rc` and
/// `package_version` on the `plymouth` package.
pub fn collect_all(
    s: Sections,
    active_theme: ActiveThemeProbe,
    installed_themes: Vec<InstalledThemeProbe>,
    theme_listing: &str,
    now: LocalTime,
    package_rc: i32,
    package_version: &str,
) -> (r: PlymouthConfig)
    ensures
        r._meta.generated_at@ == timestamp_text(now),
        r._meta.generator@ == "bootiful-plymouth-discovery"@,
        r._meta.python_version@ == s.runtime_environment.python_version@,
        r._meta.uid == s.runtime_environment.uid,
        strs(r._meta.sections@) == section_names(),
        r.runtime_environment == s.runtime_environment,
        r.system_context == s.system_context,
        r.packages == s.packages,
        r.global_config == s.global_config,
        active_theme_of(r.active_theme, r.global_config.active_theme@, active_theme),
        forall|k: Seq<char>|
            #![trigger r.available_themes.spec_get(k)]
            match r.available_themes.spec_get(k) {
                None => last_dir_named(installed_themes@, k) is None,
                Some(t) => last_dir_named(installed_themes@, k) matches Some(p) && installed_entry(
                    t,
                    p,
                    r.global_config.active_theme@,
                    theme_listing@,
                ),
            },
        r.available_plugins == s.available_plugins,
        r.available_renderers == s.available_renderers,
        r.distribution_logo == s.distribution_logo,
        r.initramfs == s.initramfs,
        r.bootloader == s.bootloader,
        r.runtime_state == s.runtime_state,
        r.graphics == s.graphics,
        r.logs == s.logs,
        strs(r.consistency_check.passed@) == check_messages(r, package_rc, package_version@, true),
        strs(r.consistency_check.issues@) == check_messages(r, package_rc, package_version@, false),
        r.consistency_check.all_ok == (r.consistency_check.issues@.len() == 0),
{
    let theme = active_theme_section(s.global_config.active_theme.as_str(), active_theme);
    let themes = scan_all(installed_themes, s.global_config.active_theme.as_str(), theme_listing);
    let meta = Meta {
        generated_at: format_timestamp(&now),
        generator: string_of("bootiful-plymouth-discovery"),
        python_version: string_of(s.runtime_environment.python_version.as_str()),
        uid: s.runtime_environment.uid,
        sections: sections(),
    };
    let mut config = PlymouthConfig {
        _meta: meta,
        runtime_environment: s.runtime_environment,
        system_context: s.system_context,
        packages: s.packages,
        global_config: s.global_config,
        active_theme: theme,
        available_themes: themes,
        available_plugins: s.available_plugins,
        available_renderers: s.available_renderers,
        distribution_logo: s.distribution_logo,
        initramfs: s.initramfs,
        bootloader: s.bootloader,
        runtime_state: s.runtime_state,
        graphics: s.graphics,
        logs: s.logs,
        consistency_check: ConsistencyCheck { all_ok: false, passed: Vec::new(), issues: Vec::new() },
    };
    let cc = check(&config, package_rc, package_version);
    config.consistency_check = cc;
    config
}

} // verus!
