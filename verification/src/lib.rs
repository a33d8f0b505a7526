//! Suspend-to-storage for a single-vCPU KVM guest: the register and memory
//! state of a suspended VM, its flat on-disk encoding, and the decisions that
//! drive booting, flushing, restoring and resuming it.

pub mod regs;
pub mod vmm;
pub mod state;
pub mod storage;
pub mod restore;
pub mod run;
