//! Core control-table and scheduling layer of a small 64-bit kernel.
//!
//! The crate covers the hardware-facing descriptor tables (the segment
//! descriptor table and the interrupt descriptor table, with their exact
//! bit-level encodings) and the cooperative task executor that runs on top
//! of them.  The privileged instructions that install the tables on a real
//! processor live outside this library; everything that computes an encoding
//! or makes a scheduling decision is here, with a verified contract.

use vstd::prelude::*;

pub mod bits;
pub mod gdt;
pub mod idt;
pub mod task;
pub mod executor;
pub mod initrd;

verus! {

/// Exit codes reported to the emulator when a test kernel finishes.
#[derive(Clone, Copy, Debug, PartialEq, Eq, Structural)]
pub enum QemuExitCode {
    Success,
    Failed,
}

impl QemuExitCode {
    /// The value written to the emulator's exit port for this outcome.
    pub fn code(&self) -> (r: u32)
        ensures
            self is Success ==> r == 0x10,
            self is Failed ==> r == 0x11,
    {
        match self {
            QemuExitCode::Success => 0x10,
            QemuExitCode::Failed => 0x11,
        }
    }
}

} // verus!
