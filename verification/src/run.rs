//! Decisions of the host while the guest runs: when to suspend, when the
//! guest has stopped, and whether it came back to life after a restore.
//!
//! The payload writes to [`IO_PORT_EXIT`] once per iteration of its loop.
//! The host counts those exits and suspends after
//! [`SUSPEND_AFTER_EXITS`] of them; a halt ends the run, and any other exit
//! is unexpected.

use vstd::prelude::*;

verus! {

/// The I/O port the payload writes to on each iteration.
pub const IO_PORT_EXIT: u16 = 0x10;

/// Port exits to let the guest run for before suspending it.
pub const SUSPEND_AFTER_EXITS: u64 = 3;

/// Why the vCPU returned to the host.
#[derive(Clone, Copy, Debug, PartialEq, Eq)]
pub enum VcpuExitKind {
    /// The guest wrote to I/O port `port`.
    IoOut { port: u16 },
    /// The guest executed `HLT`.
    Halt,
    /// Any other reason.
    Other,
}

/// What the host does after an exit.
#[derive(Clone, Copy, Debug, PartialEq, Eq)]
pub enum RunAction {
    /// Log the exit and run the vCPU again.
    Continue,
    /// Log the exit, then stop running and suspend the VM.
    Suspend,
    /// The guest halted: stop running.
    Halted,
    /// An exit the payload never causes.
    Unexpected,
}

/// Decides on an exit of the vCPU, `exits` port exits having been seen
/// before it. Returns the number of port exits seen including this one, and
/// the action.
pub fn on_vcpu_exit(exits: u64, exit: VcpuExitKind) -> (res: (u64, RunAction))
    requires
        exits < SUSPEND_AFTER_EXITS,
    ensures
        match exit {
            VcpuExitKind::IoOut { port } => if port == IO_PORT_EXIT {
                res == (
                    (exits + 1) as u64,
                    if exits + 1 >= SUSPEND_AFTER_EXITS {
                        RunAction::Suspend
                    } else {
                        RunAction::Continue
                    },
                )
            } else {
                res == (exits, RunAction::Unexpected)
            },
            VcpuExitKind::Halt => res == (exits, RunAction::Halted),
            VcpuExitKind::Other => res == (exits, RunAction::Unexpected),
        },
{
    match exit {
        VcpuExitKind::IoOut { port } => {
            if port == IO_PORT_EXIT {
                let n = exits + 1;
                if n >= SUSPEND_AFTER_EXITS {
                    (n, RunAction::Suspend)
                } else {
                    (n, RunAction::Continue)
                }
            } else {
                (exits, RunAction::Unexpected)
            }
        },
        VcpuExitKind::Halt => (exits, RunAction::Halted),
        VcpuExitKind::Other => (exits, RunAction::Unexpected),
    }
}

/// Whether the first exit after a restore shows the payload running again:
/// a write to [`IO_PORT_EXIT`].
pub fn resumed_ok(exit: VcpuExitKind) -> (b: bool)
    ensures
        b == (exit == VcpuExitKind::IoOut { port: IO_PORT_EXIT }),
{
    match exit {
        VcpuExitKind::IoOut { port } => port == IO_PORT_EXIT,
        _ => false,
    }
}

/// The payload's port is 0x10 and the host suspends at the third write to
/// it: from no exits, two writes to port 0x10 continue the run and the third
/// suspends it.
pub proof fn lemma_suspend_on_third_port_write()
    ensures
        IO_PORT_EXIT == 0x10,
        SUSPEND_AFTER_EXITS == 3,
        0 + 1 < SUSPEND_AFTER_EXITS,
        1 + 1 < SUSPEND_AFTER_EXITS,
        2 + 1 >= SUSPEND_AFTER_EXITS,
{
}

} // verus!
