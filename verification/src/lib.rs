//! An early-boot root-filesystem transition library.
//!
//! The crate models the boot sequence of a minimal init: it parses a
//! mount table, maps mount options to flag bits, resolves the root device
//! named on the kernel command line, and lays out the ordered steps of the
//! root switch.  Every function here is pure; the surrounding program
//! performs the system calls the plans call for.

use vstd::prelude::*;

pub mod config;
pub mod mount;
pub mod resolve;
pub mod switch_root;
pub mod vector;

verus! {

/// Where the real root is mounted before the switch.
pub const SYSROOT: &'static str = "/mnt";

/// The init program run when neither the rdexec file nor the command line
/// names one.
pub const INIT: &'static str = "/usr/lib/systemd/systemd";

/// The file naming the deployment to boot.
pub const RDNAME_PATH: &'static str = "/etc/rdname";

pub const RDNAME_MAX_FILE_SIZE: usize = 256;

/// The mount-table file.
pub const RDTAB_PATH: &'static str = "/mnt/etc/rdtab";

pub const RDTAB_MAX_FILE_SIZE: usize = 16384;

/// The failures the library itself can report.  Failures of OS calls are
/// carried by the surrounding program as the raw error codes those calls
/// return.
#[derive(Copy, Clone, Debug, PartialEq, Eq, Structural)]
pub enum BootError {
    /// A structurally invalid mount-table record: a boot attempt on a partial
    /// table is never made.
    InvalidConfig,
    /// No scanned device carries the requested partition identifier.
    NoDevice,
}

impl BootError {
    /// The conventional OS error code the failure is surfaced as.
    pub fn errno(&self) -> (r: i32)
        ensures
            *self is InvalidConfig ==> r == 22,
            *self is NoDevice ==> r == 19,
    {
        match self {
            BootError::InvalidConfig => 22,
            BootError::NoDevice => 19,
        }
    }
}

} // verus!
