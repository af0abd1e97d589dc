//! Cross-target build, bundle and run planning: toolchain shims, native-library
//! overlays, platforms, devices and the commands that reach them.

pub mod android;
pub mod bundle;
pub mod command;
pub mod errors;
pub mod overlay;
pub mod platform;
pub mod ssh;
pub mod text;
pub mod toolchain;
