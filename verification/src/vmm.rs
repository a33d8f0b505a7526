//! Layout of the guest and the state the vCPU boots in.
//!
//! The guest owns [`GUEST_MEMORY_SIZE`] bytes of physical memory, registered
//! with KVM as slot 0 at guest-physical address 0. The payload is loaded at
//! [`GUEST_PAYLOAD_OFFSET`] and the vCPU starts there in real mode
//! (`CS:IP = 0x0000:0x1000`).

use vstd::prelude::*;
use crate::regs::{Regs, SRegs, Segment};

verus! {

/// Bytes of guest physical memory (64 KiB).
pub const GUEST_MEMORY_SIZE: usize = 0x10000;

/// Guest-physical address at which the payload is loaded and execution starts.
pub const GUEST_PAYLOAD_OFFSET: usize = 0x1000;

/// The largest payload that fits between [`GUEST_PAYLOAD_OFFSET`] and the end
/// of guest memory.
pub const MAX_PAYLOAD_SIZE: usize = 0xf000;

/// `RFLAGS` at boot: only the reserved bit 1, which must always be set.
pub const BOOT_RFLAGS: u64 = 0x2;

/// The memory region handed to KVM (`struct kvm_userspace_memory_region`).
#[derive(Clone, Copy, Debug, PartialEq, Eq)]
pub struct MemoryRegion {
    pub slot: u32,
    pub flags: u32,
    pub guest_phys_addr: u64,
    pub memory_size: u64,
    pub userspace_addr: u64,
}

/// The single memory region of the guest: slot 0, guest-physical address 0,
/// [`GUEST_MEMORY_SIZE`] bytes, backed by host memory at `userspace_addr`,
/// no flags.
pub fn guest_memory_region(userspace_addr: u64) -> (r: MemoryRegion)
    ensures
        r == (MemoryRegion {
            slot: 0,
            flags: 0,
            guest_phys_addr: 0,
            memory_size: GUEST_MEMORY_SIZE as u64,
            userspace_addr,
        }),
{
    MemoryRegion {
        slot: 0,
        flags: 0,
        guest_phys_addr: 0,
        memory_size: GUEST_MEMORY_SIZE as u64,
        userspace_addr,
    }
}

/// Whether a payload of `len` bytes fits into guest memory at
/// [`GUEST_PAYLOAD_OFFSET`].
pub fn payload_fits(len: usize) -> (b: bool)
    ensures
        b == (len <= GUEST_MEMORY_SIZE - GUEST_PAYLOAD_OFFSET),
{
    len <= MAX_PAYLOAD_SIZE
}

/// `after` is `before` with `payload` written at [`GUEST_PAYLOAD_OFFSET`].
pub open spec fn spec_payload_loaded(before: Seq<u8>, payload: Seq<u8>, after: Seq<u8>) -> bool {
    &&& after.len() == before.len()
    &&& after.subrange(GUEST_PAYLOAD_OFFSET as int, GUEST_PAYLOAD_OFFSET + payload.len()) == payload
    &&& forall|i: int|
        0 <= i < before.len() && !(GUEST_PAYLOAD_OFFSET <= i < GUEST_PAYLOAD_OFFSET + payload.len())
            ==> #[trigger] after[i] == before[i]
}

/// Copies `payload` into `guest` at [`GUEST_PAYLOAD_OFFSET`]; every other
/// byte of `guest` keeps its value.
pub fn load_payload(guest: &mut [u8], payload: &[u8])
    requires
        old(guest)@.len() == GUEST_MEMORY_SIZE,
        payload@.len() <= GUEST_MEMORY_SIZE - GUEST_PAYLOAD_OFFSET,
    ensures
        spec_payload_loaded(old(guest)@, payload@, final(guest)@),
{
    let n = payload.len();
    let ghost before = guest@;
    for i in 0..n
        invariant
            n == payload@.len(),
            n <= GUEST_MEMORY_SIZE - GUEST_PAYLOAD_OFFSET,
            guest@.len() == GUEST_MEMORY_SIZE,
            before.len() == GUEST_MEMORY_SIZE,
            forall|j: int|
                0 <= j < GUEST_MEMORY_SIZE && !(GUEST_PAYLOAD_OFFSET <= j < GUEST_PAYLOAD_OFFSET
                    + i) ==> #[trigger] guest@[j] == before[j],
            forall|j: int| 0 <= j < i ==> #[trigger] guest@[GUEST_PAYLOAD_OFFSET + j] == payload@[j],
    {
        guest[GUEST_PAYLOAD_OFFSET + i] = payload[i];
    }
    assert forall|k: int| 0 <= k < n implies guest@.subrange(
        GUEST_PAYLOAD_OFFSET as int,
        GUEST_PAYLOAD_OFFSET + n,
    )[k] == payload@[k] by {
        assert(guest@[GUEST_PAYLOAD_OFFSET + k] == payload@[k]);
    }
    assert(guest@.subrange(GUEST_PAYLOAD_OFFSET as int, GUEST_PAYLOAD_OFFSET + n) =~= payload@);
}

/// The special registers the vCPU boots with, given those it was created
/// with: the code segment's base and selector cleared (`CS = 0x0000`), all
/// else kept.
pub open spec fn spec_boot_sregs(created: SRegs) -> SRegs {
    SRegs { cs: Segment { base: 0, selector: 0, ..created.cs }, ..created }
}

/// The general-purpose registers the vCPU boots with, given those it was
/// created with: `RIP` at the payload, `RFLAGS` = [`BOOT_RFLAGS`], all else
/// kept.
pub open spec fn spec_boot_regs(created: Regs) -> Regs {
    Regs { rip: GUEST_PAYLOAD_OFFSET as u64, rflags: BOOT_RFLAGS, ..created }
}

/// Computes the special registers the vCPU boots with.
pub fn boot_sregs(created: SRegs) -> (s: SRegs)
    ensures
        s == spec_boot_sregs(created),
{
    let mut s = created;
    s.cs.base = 0;
    s.cs.selector = 0;
    s
}

/// Computes the general-purpose registers the vCPU boots with.
pub fn boot_regs(created: Regs) -> (r: Regs)
    ensures
        r == spec_boot_regs(created),
{
    let mut r = created;
    r.rip = GUEST_PAYLOAD_OFFSET as u64;
    r.rflags = BOOT_RFLAGS;
    r
}

/// The vCPU boots into the payload: whatever registers it was created with,
/// in its boot state the address it fetches from first, `CS.base + RIP`, is
/// [`GUEST_PAYLOAD_OFFSET`], where guest memory holds the loaded payload.
pub proof fn lemma_boot_enters_payload(
    created_regs: Regs,
    created_sregs: SRegs,
    before: Seq<u8>,
    payload: Seq<u8>,
    after: Seq<u8>,
)
    requires
        before.len() == GUEST_MEMORY_SIZE,
        payload.len() <= GUEST_MEMORY_SIZE - GUEST_PAYLOAD_OFFSET,
        spec_payload_loaded(before, payload, after),
    ensures
        ({
            let entry = spec_boot_sregs(created_sregs).cs.base + spec_boot_regs(created_regs).rip;
            &&& entry == GUEST_PAYLOAD_OFFSET
            &&& after.subrange(entry, entry + payload.len()) == payload
        }),
{
}

/// The guest has 64 KiB of memory, the payload starts at 0x1000 and may
/// fill the rest, and the vCPU boots with only the reserved flag set.
pub proof fn lemma_guest_layout()
    ensures
        GUEST_MEMORY_SIZE == 0x10000,
        GUEST_PAYLOAD_OFFSET == 0x1000,
        MAX_PAYLOAD_SIZE == GUEST_MEMORY_SIZE - GUEST_PAYLOAD_OFFSET,
        BOOT_RFLAGS == 0x2,
{
}

/// Booting changes nothing but the code segment's base and selector: the
/// boot special registers have `CS.base == 0` and `CS.selector == 0`, every
/// other field of `CS` (its limit, type, size and flags, so the payload
/// still runs as 16-bit code) as created, and every other register as
/// created.
pub proof fn lemma_boot_sregs_fields(created: SRegs)
    ensures
        spec_boot_sregs(created).cs.base == 0,
        spec_boot_sregs(created).cs.selector == 0,
        spec_boot_sregs(created).cs.limit == created.cs.limit,
        spec_boot_sregs(created).cs.type_ == created.cs.type_,
        spec_boot_sregs(created).cs.present == created.cs.present,
        spec_boot_sregs(created).cs.dpl == created.cs.dpl,
        spec_boot_sregs(created).cs.db == created.cs.db,
        spec_boot_sregs(created).cs.s == created.cs.s,
        spec_boot_sregs(created).cs.l == created.cs.l,
        spec_boot_sregs(created).cs.g == created.cs.g,
        spec_boot_sregs(created).cs.avl == created.cs.avl,
        spec_boot_sregs(created).cs.unusable == created.cs.unusable,
        spec_boot_sregs(created).cs.padding == created.cs.padding,
        spec_boot_sregs(created).ds == created.ds,
        spec_boot_sregs(created).es == created.es,
        spec_boot_sregs(created).fs == created.fs,
        spec_boot_sregs(created).gs == created.gs,
        spec_boot_sregs(created).ss == created.ss,
        spec_boot_sregs(created).tr == created.tr,
        spec_boot_sregs(created).ldt == created.ldt,
        spec_boot_sregs(created).gdt == created.gdt,
        spec_boot_sregs(created).idt == created.idt,
        spec_boot_sregs(created).cr0 == created.cr0,
        spec_boot_sregs(created).cr2 == created.cr2,
        spec_boot_sregs(created).cr3 == created.cr3,
        spec_boot_sregs(created).cr4 == created.cr4,
        spec_boot_sregs(created).cr8 == created.cr8,
        spec_boot_sregs(created).efer == created.efer,
        spec_boot_sregs(created).apic_base == created.apic_base,
        spec_boot_sregs(created).interrupt_bitmap == created.interrupt_bitmap,
{
}

/// Booting changes nothing but `RIP` and `RFLAGS`: the boot registers have
/// `RIP == 0x1000` and `RFLAGS == 0x2`, and every other general-purpose
/// register as created.
pub proof fn lemma_boot_regs_fields(created: Regs)
    ensures
        spec_boot_regs(created).rip == 0x1000,
        spec_boot_regs(created).rflags == 0x2,
        spec_boot_regs(created).rax == created.rax,
        spec_boot_regs(created).rbx == created.rbx,
        spec_boot_regs(created).rcx == created.rcx,
        spec_boot_regs(created).rdx == created.rdx,
        spec_boot_regs(created).rsi == created.rsi,
        spec_boot_regs(created).rdi == created.rdi,
        spec_boot_regs(created).rsp == created.rsp,
        spec_boot_regs(created).rbp == created.rbp,
        spec_boot_regs(created).r8 == created.r8,
        spec_boot_regs(created).r9 == created.r9,
        spec_boot_regs(created).r10 == created.r10,
        spec_boot_regs(created).r11 == created.r11,
        spec_boot_regs(created).r12 == created.r12,
        spec_boot_regs(created).r13 == created.r13,
        spec_boot_regs(created).r14 == created.r14,
        spec_boot_regs(created).r15 == created.r15,
{
}

} // verus!
