pub mod system;
pub mod themes;
pub mod config;
pub mod consistency;
pub mod logs;
pub mod packages;
pub mod logo;
pub mod plugins;
pub mod bootloader;
pub mod graphics;
pub mod initramfs;
pub mod runtime;
pub mod environment;
pub mod utils;
