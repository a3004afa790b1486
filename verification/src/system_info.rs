//! The system a game runs on, as the launch rules see it.
use vstd::prelude::*;

verus! {

/// Operating systems.
#[derive(Debug, Clone, Copy, PartialEq, Eq, Structural)]
pub enum Os {
    Windows,
    Linux,
    MacOS,
    Android,
    Other,
}

/// Processor architectures.
#[derive(Debug, Clone, Copy, PartialEq, Eq, Structural)]
pub enum ArchEnum {
    X86,
    X86_64,
    Arm,
    Aarch64,
    Other,
}

/// The system a game runs on.
#[derive(Debug, Clone, Copy)]
pub struct SystemInfo {
    pub os: Os,
    pub system_arch: ArchEnum,
    pub is_arm: bool,
}

} // verus!
