//! Boot-time support for a small operating system: a hierarchical bitmap of
//! free physical pages that survives the handoff from the boot loader to the
//! kernel, the boot configuration file parsers, and descriptions of the
//! AArch64 system registers the loader reports on.

pub mod bits;
pub mod geometry;
pub mod text;
pub mod page_bitmap;
pub mod ini_file;
pub mod corg_ini;
pub mod aarch64_regs;
pub mod boot_config;
pub mod pl011;
pub mod page_walk;
pub mod uefi_guids;
pub mod kernel_image;
pub mod semihosting;
