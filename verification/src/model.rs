//! The snapshot of the Plymouth configuration of a system, section by section.
use vstd::prelude::*;
use crate::strmap::StrMap;
use crate::text::{opt_str, strs};

verus! {

/// The whole snapshot.
pub struct PlymouthConfig {
    pub _meta: Meta,
    pub runtime_environment: RuntimeEnvironment,
    pub system_context: SystemContext,
    pub packages: Packages,
    pub global_config: GlobalConfig,
    pub active_theme: ActiveTheme,
    pub available_themes: StrMap<AvailableTheme>,
    pub available_plugins: StrMap<Plugin>,
    pub available_renderers: StrMap<Renderer>,
    pub distribution_logo: DistributionLogo,
    pub initramfs: Initramfs,
    pub bootloader: Bootloader,
    pub runtime_state: RuntimeState,
    pub graphics: Graphics,
    pub logs: Logs,
    pub consistency_check: ConsistencyCheck,
}

pub struct Meta {
    pub generated_at: String,
    pub generator: String,
    pub python_version: String,
    pub uid: u32,
    pub sections: Vec<String>,
}

pub struct RuntimeEnvironment {
    pub python_version: String,
    pub python_executable: String,
    pub uid: u32,
    pub running_as_root: bool,
    pub pid: u32,
    pub path: Option<String>,
    pub display: Option<String>,
    pub xdg_session_type: Option<String>,
    pub xdg_current_desktop: Option<String>,
}

pub struct SystemContext {
    pub uname_full: String,
    pub uname_machine: String,
    pub dpkg_architecture: String,
    pub os_release: StrMap<String>,
    pub lsb_release: StrMap<String>,
    pub hostname: String,
}

pub struct Packages {
    pub packages: StrMap<PackageEntry>,
    pub _plymouth_file_list: Vec<String>,
    pub _apt_cache_policy: String,
    pub _apt_cache_show: StrMap<String>,
}

pub struct PackageEntry {
    pub version: Option<String>,
    pub status: String,
    pub description: Option<String>,
}

/// The meaning of a [`PackageEntry`]: its texts as character sequences.
pub struct PackageEntryView {
    pub version: Option<Seq<char>>,
    pub status: Seq<char>,
    pub description: Option<Seq<char>>,
}

impl View for PackageEntry {
    type V = PackageEntryView;

    open spec fn view(&self) -> PackageEntryView {
        PackageEntryView {
            version: opt_str(self.version),
            status: self.status@,
            description: opt_str(self.description),
        }
    }
}

/// A value of the resolved daemon configuration: a text, a number, or nothing.
pub enum ConfigValue {
    Text(String),
    Number(u64),
    Null,
}

/// The meaning of a [`ConfigValue`].
pub enum ConfigValueView {
    Text(Seq<char>),
    Number(u64),
    Null,
}

impl View for ConfigValue {
    type V = ConfigValueView;

    open spec fn view(&self) -> ConfigValueView {
        match self {
            ConfigValue::Text(s) => ConfigValueView::Text(s@),
            ConfigValue::Number(n) => ConfigValueView::Number(*n),
            ConfigValue::Null => ConfigValueView::Null,
        }
    }
}

pub struct GlobalConfig {
    pub etc_plymouth_directory: DirectoryInfo,
    pub daemon_defaults_file: ConfigFile,
    pub daemon_conf_file: ConfigFile,
    pub effective_daemon_config: StrMap<ConfigValue>,
    pub active_theme: String,
    pub update_alternatives_display: String,
    pub update_alternatives_query: String,
    pub symlink_chains: StrMap<Vec<SymlinkStep>>,
}

pub struct DirectoryInfo {
    pub exists: bool,
    pub files: Vec<FileInfo>,
}

pub struct FileInfo {
    pub path: String,
    pub size_bytes: Option<u64>,
    pub modified: Option<String>,
}

pub struct ConfigFile {
    pub path: String,
    pub present: bool,
    pub content: Option<String>,
    pub values: StrMap<Option<String>>,
}

pub struct SymlinkStep {
    pub path: String,
    pub is_symlink: bool,
    pub exists: bool,
    pub target: Option<String>,
}

pub struct ActiveTheme {
    pub name: String,
    pub found: bool,
    pub theme_dir: Option<String>,
    pub plymouth_file: Option<String>,
    pub plymouth_file_content: Option<String>,
    pub plugin: Option<String>,
    pub script_file: Option<String>,
    pub image_dir: Option<String>,
    pub extra_sections: StrMap<StrMap<String>>,
    pub plugin_so: PluginSo,
    pub assets: Vec<AssetInfo>,
    pub script_file_detail: Option<ScriptFileDetail>,
}

pub struct PluginSo {
    pub path: Option<String>,
    pub size_bytes: Option<u64>,
    pub ldd: Option<Vec<String>>,
}

pub struct AssetInfo {
    pub file: String,
    pub size_bytes: Option<u64>,
    pub sha256_prefix: Option<String>,
}

pub struct ScriptFileDetail {
    pub path: String,
    pub exists: bool,
    pub size_bytes: Option<u64>,
    pub sha256: Option<String>,
}

pub struct AvailableTheme {
    pub dir: String,
    pub plymouth_file: Option<String>,
    pub is_active: bool,
    pub in_initramfs: Option<bool>,
    pub name: Option<String>,
    pub description: Option<String>,
    pub plugin: Option<String>,
    pub script_file: Option<String>,
    pub image_dir: Option<String>,
    pub extra_sections: StrMap<StrMap<String>>,
    pub missing_files: Option<Vec<String>>,
    pub error: Option<String>,
}

pub struct Plugin {
    pub so_path: String,
    pub size_bytes: Option<u64>,
    pub description: String,
    pub ldd: Option<Vec<String>>,
}

pub struct Renderer {
    pub so_path: String,
    pub size_bytes: Option<u64>,
    pub description: String,
}

/// The meaning of a [`Plugin`].
pub struct PluginView {
    pub so_path: Seq<char>,
    pub size_bytes: Option<u64>,
    pub description: Seq<char>,
    pub ldd: Option<Seq<Seq<char>>>,
}

impl View for Plugin {
    type V = PluginView;

    open spec fn view(&self) -> PluginView {
        PluginView {
            so_path: self.so_path@,
            size_bytes: self.size_bytes,
            description: self.description@,
            ldd: match self.ldd {
                Some(v) => Some(strs(v@)),
                None => None,
            },
        }
    }
}

/// The meaning of a [`Renderer`].
pub struct RendererView {
    pub so_path: Seq<char>,
    pub size_bytes: Option<u64>,
    pub description: Seq<char>,
}

impl View for Renderer {
    type V = RendererView;

    open spec fn view(&self) -> RendererView {
        RendererView {
            so_path: self.so_path@,
            size_bytes: self.size_bytes,
            description: self.description@,
        }
    }
}

pub struct DistributionLogo {
    pub note: String,
    pub logos: StrMap<LogoInfo>,
}

pub struct LogoInfo {
    pub path: String,
    pub exists: bool,
    pub is_symlink: Option<bool>,
    pub resolved: Option<String>,
    pub description: String,
    pub size_bytes: Option<u64>,
}

/// The meaning of a [`LogoInfo`].
pub struct LogoInfoView {
    pub path: Seq<char>,
    pub exists: bool,
    pub is_symlink: Option<bool>,
    pub resolved: Option<Seq<char>>,
    pub description: Seq<char>,
    pub size_bytes: Option<u64>,
}

impl View for LogoInfo {
    type V = LogoInfoView;

    open spec fn view(&self) -> LogoInfoView {
        LogoInfoView {
            path: self.path@,
            exists: self.exists,
            is_symlink: self.is_symlink,
            resolved: opt_str(self.resolved),
            description: self.description@,
            size_bytes: self.size_bytes,
        }
    }
}

pub struct Initramfs {
    pub tools: StrMap<ToolInfo>,
    pub current_kernel: String,
    pub images: Vec<InitrdImage>,
    pub current_initrd_analysis: InitrdAnalysis,
}

pub struct ToolInfo {
    pub path: Option<String>,
    pub version: Option<String>,
}

/// The meaning of a [`ToolInfo`].
pub struct ToolInfoView {
    pub path: Option<Seq<char>>,
    pub version: Option<Seq<char>>,
}

impl View for ToolInfo {
    type V = ToolInfoView;

    open spec fn view(&self) -> ToolInfoView {
        ToolInfoView { path: opt_str(self.path), version: opt_str(self.version) }
    }
}

pub struct InitrdImage {
    pub path: String,
    pub size_bytes: Option<u64>,
    pub modified: Option<String>,
    pub is_current: bool,
}

pub struct InitrdAnalysis {
    pub path: String,
    pub exists: bool,
    pub size_bytes: Option<u64>,
    pub modified: Option<String>,
    pub active_theme_modified: Option<String>,
    pub theme_newer_than_initrd: Option<bool>,
    pub plymouth_files: Vec<String>,
    pub drm_kms_files: Vec<String>,
    pub bgrt_files: Vec<String>,
    pub active_theme_files: Vec<String>,
    pub active_theme_in_initramfs: bool,
    pub error: Option<String>,
}

pub struct Bootloader {
    pub bootloader_type: String,
    pub grub: GrubConfig,
    pub systemd_boot: SystemdBootConfig,
    pub active_cmdline: ActiveCmdline,
    pub kernel_entries: Vec<String>,
}

pub struct GrubConfig {
    pub present: bool,
    pub default_config_path: Option<String>,
    pub cfg_path: Option<String>,
    pub cmdline_linux_default: String,
    pub cmdline_linux: String,
    pub non_comment_lines: Vec<String>,
    pub splash_plymouth_entries_in_cfg: Vec<String>,
}

pub struct SystemdBootConfig {
    pub present: bool,
    pub status: Option<String>,
}

pub struct ActiveCmdline {
    pub raw: String,
    pub parameters: StrMap<bool>,
}

pub struct RuntimeState {
    pub version: Option<String>,
    pub daemon_running: bool,
    pub daemon_mode: String,
    pub valid_modes: Vec<String>,
    pub mode_control_commands: StrMap<String>,
    pub units_list: Vec<String>,
    pub unit_states: StrMap<UnitState>,
    pub plymouth_quit_wait_properties: StrMap<String>,
    pub plymouth_start_unit_file: Option<String>,
    pub display_manager: DisplayManagerInfo,
    pub run_plymouth_files: Vec<RunPlymouthFile>,
}

pub struct UnitState {
    pub active: String,
    pub enabled: String,
}

/// The meaning of a [`UnitState`].
pub struct UnitStateView {
    pub active: Seq<char>,
    pub enabled: Seq<char>,
}

impl View for UnitState {
    type V = UnitStateView;

    open spec fn view(&self) -> UnitStateView {
        UnitStateView { active: self.active@, enabled: self.enabled@ }
    }
}

pub struct DisplayManagerInfo {
    pub service: Option<String>,
    pub active: bool,
    pub depends_on_plymouth_quit_wait: bool,
    pub after_property: Option<String>,
}

pub struct RunPlymouthFile {
    pub path: String,
    pub size_bytes: Option<u64>,
    pub content: Option<String>,
}

pub struct Graphics {
    pub framebuffer_devices: Vec<FramebufferDevice>,
    pub graphics_sys_entries: Vec<String>,
    pub drm_devices: Vec<DrmDevice>,
    pub loaded_graphics_modules: Vec<String>,
    pub simpledrm_loaded: bool,
    pub efifb_loaded: bool,
    pub uefi: bool,
    pub bgrt: BgrtInfo,
}

pub struct FramebufferDevice {
    pub device: String,
    pub virtual_size: Option<String>,
    pub bits_per_pixel: Option<String>,
    pub stride: Option<String>,
}

pub struct DrmDevice {
    pub name: String,
    pub enabled: Option<String>,
    pub driver: Option<String>,
}

/// The firmware boot graphics record; `bgrt_type` holds the record's `type` file.
pub struct BgrtInfo {
    pub present: bool,
    pub xoffset: Option<String>,
    pub yoffset: Option<String>,
    pub status: Option<String>,
    pub bgrt_type: Option<String>,
}

pub struct Logs {
    pub run_plymouth: RunPlymouthLogInfo,
    pub boot_log: LogFileInfo,
    pub syslog: LogFileInfo,
    pub kern_log: LogFileInfo,
    pub journalctl_current_boot: JournalctlInfo,
}

pub struct RunPlymouthLogInfo {
    pub path: String,
    pub exists: bool,
    pub note: String,
}

pub struct LogFileInfo {
    pub path: String,
    pub exists: bool,
    pub lines: StrMap<Vec<String>>,
}

pub struct JournalctlInfo {
    pub plymouth_lines_last_40: Vec<String>,
}

pub struct ConsistencyCheck {
    pub all_ok: bool,
    pub passed: Vec<String>,
    pub issues: Vec<String>,
}

} // verus!
