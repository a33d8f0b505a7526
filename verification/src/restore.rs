//! Writing a decoded snapshot back into the guest, and the checks that the
//! restored state is the one that was suspended.

use vstd::prelude::*;
use crate::regs::Regs;
use crate::state::{SnapshotView, VmSnapshot, SNAPSHOT_SIZE, lemma_decode_encoded};
use crate::vmm::GUEST_MEMORY_SIZE;

verus! {

/// Copies the snapshot's memory into guest memory, which has the same size.
pub fn restore_memory(guest: &mut [u8], snapshot: &VmSnapshot)
    requires
        old(guest)@.len() == snapshot.memory@.len(),
    ensures
        final(guest)@ == snapshot.memory@,
{
    let n = snapshot.memory.len();
    for i in 0..n
        invariant
            n == snapshot.memory@.len(),
            guest@.len() == n,
            forall|j: int| 0 <= j < i ==> #[trigger] guest@[j] == snapshot.memory@[j],
    {
        guest[i] = snapshot.memory[i];
    }
    assert(guest@ =~= snapshot.memory@);
}

/// The registers that the integrity check compares: `RAX`, `RBX`, `RCX`,
/// `RIP`, `RSP` and `RFLAGS`.
pub open spec fn spec_registers_match(a: Regs, b: Regs) -> bool {
    &&& a.rax == b.rax
    &&& a.rbx == b.rbx
    &&& a.rcx == b.rcx
    &&& a.rip == b.rip
    &&& a.rsp == b.rsp
    &&& a.rflags == b.rflags
}

/// Register integrity: whether the registers read before suspending and
/// after restoring agree on the registers the payload works with.
pub fn registers_match(before: &Regs, after: &Regs) -> (b: bool)
    ensures
        b == spec_registers_match(*before, *after),
        b <==> (before.rax == after.rax && before.rbx == after.rbx && before.rcx == after.rcx
            && before.rip == after.rip && before.rsp == after.rsp && before.rflags == after.rflags),
{
    before.rax == after.rax && before.rbx == after.rbx && before.rcx == after.rcx && before.rip
        == after.rip && before.rsp == after.rsp && before.rflags == after.rflags
}

/// Memory integrity: whether restored guest memory holds exactly the
/// snapshot's memory.
pub fn memory_matches(restored: &[u8], snapshot: &[u8]) -> (b: bool)
    ensures
        b == (restored@ == snapshot@),
{
    if restored.len() != snapshot.len() {
        return false;
    }
    let n = restored.len();
    for i in 0..n
        invariant
            n == restored@.len(),
            n == snapshot@.len(),
            forall|j: int| 0 <= j < i ==> restored@[j] == snapshot@[j],
    {
        if restored[i] != snapshot[i] {
            return false;
        }
    }
    assert(restored@ =~= snapshot@);
    true
}

/// Register integrity holds exactly when `RAX`, `RBX`, `RCX`, `RIP`, `RSP`
/// and `RFLAGS` agree: a difference in any of them, such as a restored `RIP`
/// other than the suspended one, fails the check, and the other registers
/// play no part.
pub proof fn lemma_registers_match_fields(a: Regs, b: Regs)
    ensures
        spec_registers_match(a, b) <==> (a.rax == b.rax && a.rbx == b.rbx && a.rcx == b.rcx
            && a.rip == b.rip && a.rsp == b.rsp && a.rflags == b.rflags),
{
}

/// Suspending and restoring leaves the VM as it was: when the bytes read
/// back from storage are the bytes that were written for the captured
/// snapshot, the snapshot decoded from them is the captured one, so the
/// restored registers pass the integrity check and the restored memory is
/// the captured memory.
pub proof fn lemma_suspend_restore_identity(
    captured: SnapshotView,
    read_back: Seq<u8>,
    restored: SnapshotView,
)
    requires
        captured.memory.len() == GUEST_MEMORY_SIZE,
        read_back == captured.spec_to_bytes(),
        restored.spec_to_bytes() == read_back.subrange(0, SNAPSHOT_SIZE as int),
    ensures
        restored == captured,
        spec_registers_match(captured.regs, restored.regs),
        restored.memory == captured.memory,
{
    lemma_decode_encoded(captured, restored);
}

} // verus!
