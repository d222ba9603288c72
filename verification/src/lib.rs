//! Discovery and mode control for the discrete GPUs of a multi-GPU Linux
//! host.
//!
//! The host is in one of three modes: `Integrated`, with the discrete GPUs
//! detached and powered down; `Hybrid`, with them powered and attached; and
//! `VFIO`, with them left to the host's passthrough drivers.
//!
//! The library holds the rules and touches no file. What the kernel's file
//! tree says is handed to it as a [`sysfs::Snapshot`], and what is to be
//! written comes back as [`sysfs::FileWrite`]s for the caller to carry out.
//!
//! - [`text`]: the text handling that the attribute files call for.
//! - [`sysfs`]: snapshots, writes, and the paths of the kernel's files.
//! - [`iommu`]: the PCI devices, enumerated through the IOMMU groups.
//! - [`gpu`]: the display devices among them, and the writes that detach a
//!   device from its driver or attach it again.
//! - [`daemon`]: the mode, and the transitions between modes.

pub mod daemon;
pub mod gpu;
pub mod iommu;
pub mod sysfs;
pub mod text;
