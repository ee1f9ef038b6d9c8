//! Plain record describing the host system.
//!
//! The probing itself (OS name, architecture, family) happens outside the
//! library; this module only holds the value those probes produce.

use vstd::prelude::*;

verus! {

/// System information structure.
#[derive(Debug, Clone, PartialEq)]
pub struct SystemInfo {
    pub platform: String,
    pub arch: String,
    pub family: String,
}

} // verus!
