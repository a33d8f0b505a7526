//! The snapshot of a suspended VM and its flat byte encoding
//! `[ regs | sregs | guest memory ]`.

use vstd::prelude::*;
use vstd::slice::{slice_subrange, slice_to_vec};
use crate::regs::{Regs, SRegs, Segment, REGS_SIZE, SREGS_SIZE};
use crate::vmm::GUEST_MEMORY_SIZE;

verus! {

/// Bytes before the guest memory in an encoded snapshot.
pub const SNAPSHOT_HEADER_SIZE: usize = REGS_SIZE + SREGS_SIZE;

/// Bytes of an encoded snapshot of a guest with [`GUEST_MEMORY_SIZE`] bytes of
/// memory.
pub const SNAPSHOT_SIZE: usize = SNAPSHOT_HEADER_SIZE + GUEST_MEMORY_SIZE;

/// The value of a snapshot: registers and the contents of guest memory.
#[verifier::ext_equal]
pub struct SnapshotView {
    pub regs: Regs,
    pub sregs: SRegs,
    pub memory: Seq<u8>,
}

impl SnapshotView {
    /// The encoding: the general-purpose registers, the special registers,
    /// then guest memory byte for byte.
    pub open spec fn spec_to_bytes(self) -> Seq<u8> {
        self.regs.spec_to_bytes() + self.sregs.spec_to_bytes() + self.memory
    }
}

/// Complete snapshot of a suspended VM: CPU registers and guest RAM.
pub struct VmSnapshot {
    pub regs: Regs,
    pub sregs: SRegs,
    pub memory: Vec<u8>,
}

impl View for VmSnapshot {
    type V = SnapshotView;

    open spec fn view(&self) -> SnapshotView {
        SnapshotView { regs: self.regs, sregs: self.sregs, memory: self.memory@ }
    }
}

impl VmSnapshot {
    /// Captures the state of the VM from the registers read from its vCPU
    /// and its guest memory.
    pub fn capture(regs: Regs, sregs: SRegs, memory: &[u8]) -> (s: VmSnapshot)
        ensures
            s@ == (SnapshotView { regs, sregs, memory: memory@ }),
    {
        VmSnapshot { regs, sregs, memory: slice_to_vec(memory) }
    }

    /// Serializes the snapshot into a flat byte buffer:
    /// `[ regs | sregs | guest memory ]`.
    pub fn to_bytes(&self) -> (out: Vec<u8>)
        ensures
            out@ == self@.spec_to_bytes(),
            out@.len() == SNAPSHOT_HEADER_SIZE + self.memory@.len(),
    {
        proof {
            lemma_snapshot_bytes_len(self@);
        }
        let mut buf: Vec<u8> = Vec::with_capacity(self.memory.len().saturating_add(SNAPSHOT_HEADER_SIZE));
        self.regs.write_to(&mut buf);
        self.sregs.write_to(&mut buf);
        let ghost header = buf@;
        let n = self.memory.len();
        for i in 0..n
            invariant
                n == self.memory@.len(),
                buf@ == header + self.memory@.take(i as int),
        {
            buf.push(self.memory[i]);
            assert(buf@ =~= header + self.memory@.take(i + 1));
        }
        assert(self.memory@.take(n as int) =~= self.memory@);
        buf
    }

    /// Deserializes a snapshot from a flat byte buffer holding at least
    /// [`SNAPSHOT_SIZE`] bytes; bytes past that are ignored.
    pub fn from_bytes(data: &[u8]) -> (s: VmSnapshot)
        requires
            data@.len() >= SNAPSHOT_SIZE,
        ensures
            s.regs.spec_to_bytes() == data@.subrange(0, REGS_SIZE as int),
            s.sregs.spec_to_bytes() == data@.subrange(REGS_SIZE as int, SNAPSHOT_HEADER_SIZE as int),
            s.memory@ == data@.subrange(SNAPSHOT_HEADER_SIZE as int, SNAPSHOT_SIZE as int),
            s@.spec_to_bytes() == data@.subrange(0, SNAPSHOT_SIZE as int),
    {
        let regs = Regs::read_from(data, 0);
        let sregs = SRegs::read_from(data, REGS_SIZE);
        let memory = slice_to_vec(slice_subrange(data, SNAPSHOT_HEADER_SIZE, SNAPSHOT_SIZE));
        let s = VmSnapshot { regs, sregs, memory };
        assert(s@.spec_to_bytes() =~= data@.subrange(0, SNAPSHOT_SIZE as int));
        s
    }
}

/// The encoding is a function of the snapshot's value alone: snapshots with
/// equal registers (padding fields included) and equal memory encode to the
/// same bytes.
pub proof fn lemma_encoding_determined_by_value(a: SnapshotView, b: SnapshotView)
    requires
        a.regs == b.regs,
        a.sregs == b.sregs,
        a.memory == b.memory,
    ensures
        a.spec_to_bytes() == b.spec_to_bytes(),
{
}

/// An encoded snapshot has [`SNAPSHOT_HEADER_SIZE`] bytes of registers
/// followed by the memory; a snapshot of the whole guest has
/// [`SNAPSHOT_SIZE`] bytes.
pub proof fn lemma_snapshot_bytes_len(s: SnapshotView)
    ensures
        s.spec_to_bytes().len() == SNAPSHOT_HEADER_SIZE + s.memory.len(),
        s.memory.len() == GUEST_MEMORY_SIZE ==> s.spec_to_bytes().len() == SNAPSHOT_SIZE,
{
    Regs::lemma_bytes(s.regs, s.regs);
    SRegs::lemma_bytes(s.sregs, s.sregs);
}

/// Where each part lies in an encoded snapshot, the flat image
/// `[ kvm_regs | kvm_sregs | guest memory ]`: the general-purpose registers
/// in bytes 0..144 (`RIP` at 128..136), the special registers in 144..456
/// (segment `k` of `cs`, `ds`, `es`, `fs`, `gs`, `ss`, `tr`, `ldt` at
/// 144 + 24k, its `present` byte at 144 + 24k + 15 and its `s` byte at
/// 144 + 24k + 18), and guest memory from byte 456 on.
pub proof fn lemma_snapshot_layout(s: SnapshotView)
    ensures
        s.spec_to_bytes().subrange(0, 144) == s.regs.spec_to_bytes(),
        s.spec_to_bytes().subrange(128, 136) == vstd::bytes::spec_u64_to_le_bytes(s.regs.rip),
        s.spec_to_bytes().subrange(144, 456) == s.sregs.spec_to_bytes(),
        s.spec_to_bytes().subrange(456, s.spec_to_bytes().len() as int) == s.memory,
        s.spec_to_bytes()[144int + 15] == s.sregs.cs.present,
        s.spec_to_bytes()[144int + 18] == s.sregs.cs.s,
        s.spec_to_bytes()[144int + 6 * 24 + 15] == s.sregs.tr.present,
        s.spec_to_bytes()[144int + 6 * 24 + 18] == s.sregs.tr.s,
{
    Regs::lemma_layout(s.regs);
    SRegs::lemma_layout(s.sregs);
    Segment::lemma_layout(s.sregs.cs);
    Segment::lemma_layout(s.sregs.tr);
    let x = s.spec_to_bytes();
    assert(x.subrange(0, 144) =~= s.regs.spec_to_bytes());
    assert(x.subrange(128, 136) =~= s.regs.spec_to_bytes().subrange(128, 136));
    assert(x.subrange(144, 456) =~= s.sregs.spec_to_bytes());
    assert(x.subrange(456, x.len() as int) =~= s.memory);
    assert(x[144int + 15] == s.sregs.spec_to_bytes().subrange(0, 24)[15]);
    assert(x[144int + 18] == s.sregs.spec_to_bytes().subrange(0, 24)[18]);
    assert(x[144int + 6 * 24 + 15] == s.sregs.spec_to_bytes().subrange(144, 168)[15]);
    assert(x[144int + 6 * 24 + 18] == s.sregs.spec_to_bytes().subrange(144, 168)[18]);
}

/// Reading back what was written gives what was written: a snapshot of the
/// whole guest is determined by the first [`SNAPSHOT_SIZE`] bytes of its
/// encoding, so the snapshot that `from_bytes` decodes from the output of
/// `to_bytes` is the one that was encoded.
pub proof fn lemma_decode_encoded(written: SnapshotView, read: SnapshotView)
    requires
        written.memory.len() == GUEST_MEMORY_SIZE,
        read.spec_to_bytes() == written.spec_to_bytes().subrange(0, SNAPSHOT_SIZE as int),
    ensures
        read == written,
{
    lemma_snapshot_bytes_len(written);
    lemma_snapshot_bytes_len(read);
    Regs::lemma_bytes(written.regs, read.regs);
    Regs::lemma_bytes(read.regs, read.regs);
    SRegs::lemma_bytes(written.sregs, read.sregs);
    SRegs::lemma_bytes(read.sregs, read.sregs);
    let x = written.spec_to_bytes();
    let y = read.spec_to_bytes();
    assert(x.subrange(0, SNAPSHOT_SIZE as int) =~= x);
    assert(x.subrange(0, REGS_SIZE as int) =~= written.regs.spec_to_bytes());
    assert(y.subrange(0, REGS_SIZE as int) =~= read.regs.spec_to_bytes());
    assert(x.subrange(REGS_SIZE as int, SNAPSHOT_HEADER_SIZE as int)
        =~= written.sregs.spec_to_bytes());
    assert(y.subrange(REGS_SIZE as int, SNAPSHOT_HEADER_SIZE as int) =~= read.sregs.spec_to_bytes());
    assert(x.subrange(SNAPSHOT_HEADER_SIZE as int, SNAPSHOT_SIZE as int) =~= written.memory);
    assert(y.subrange(SNAPSHOT_HEADER_SIZE as int, SNAPSHOT_SIZE as int) =~= read.memory);
    assert(read =~= written);
}

/// Encoding what was decoded gives back the decoded bytes: for any buffer of
/// at least [`SNAPSHOT_SIZE`] bytes, a snapshot decoded from it encodes to the
/// buffer's first [`SNAPSHOT_SIZE`] bytes, and holds the whole guest memory.
pub proof fn lemma_encode_decoded(data: Seq<u8>, read: SnapshotView)
    requires
        data.len() >= SNAPSHOT_SIZE,
        read.spec_to_bytes() == data.subrange(0, SNAPSHOT_SIZE as int),
    ensures
        read.spec_to_bytes().len() == SNAPSHOT_SIZE,
        read.memory.len() == GUEST_MEMORY_SIZE,
        read.spec_to_bytes() + data.subrange(SNAPSHOT_SIZE as int, data.len() as int) == data,
{
    lemma_snapshot_bytes_len(read);
    assert(read.spec_to_bytes() + data.subrange(SNAPSHOT_SIZE as int, data.len() as int) =~= data);
}

} // verus!
