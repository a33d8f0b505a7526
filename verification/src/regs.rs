//! Register files of an x86-64 vCPU, held as plain values, and their
//! little-endian byte encoding. The field order and widths follow the kernel's
//! `struct kvm_regs` / `struct kvm_sregs`, so the encoding of a value is the
//! byte image that the kernel structure has on a little-endian host.

use vstd::prelude::*;
use vstd::bytes::*;
use vstd::slice::slice_subrange;
use vstd::array::axiom_array_ext_equal;

verus! {

broadcast use axiom_array_ext_equal;

/// A slice holds at most `usize::MAX` elements.
proof fn lemma_slice_len_fits(data: &[u8])
    ensures
        data@.len() <= usize::MAX,
{
    assert(data.len() == data@.len());
}

/// Appends the little-endian encoding of `x` to `buf`.
fn push_u64(buf: &mut Vec<u8>, x: u64)
    ensures
        final(buf)@ == old(buf)@ + spec_u64_to_le_bytes(x),
{
    let mut b = u64_to_le_bytes(x);
    buf.append(&mut b);
}

/// Decodes the little-endian `u64` stored at `data[pos..pos + 8]`.
fn read_u64(data: &[u8], pos: usize) -> (x: u64)
    requires
        pos + 8 <= data@.len(),
    ensures
        spec_u64_to_le_bytes(x) == data@.subrange(pos as int, pos + 8),
{
    proof {
        lemma_auto_spec_u64_to_from_le_bytes();
    }
    proof {
        lemma_slice_len_fits(data);
    }
    u64_from_le_bytes(slice_subrange(data, pos, pos + 8))
}

/// Decodes the little-endian `u16` stored at `data[pos..pos + 2]`.
fn read_u16(data: &[u8], pos: usize) -> (x: u16)
    requires
        pos + 2 <= data@.len(),
    ensures
        spec_u16_to_le_bytes(x) == data@.subrange(pos as int, pos + 2),
{
    proof {
        lemma_auto_spec_u16_to_from_le_bytes();
    }
    proof {
        lemma_slice_len_fits(data);
    }
    u16_from_le_bytes(slice_subrange(data, pos, pos + 2))
}

/// Equal encodings of `u64`s are encodings of equal values.
proof fn lemma_u64_bytes_injective(x: u64, y: u64)
    requires
        spec_u64_to_le_bytes(x) == spec_u64_to_le_bytes(y),
    ensures
        x == y,
{
    lemma_auto_spec_u64_to_from_le_bytes();
}

/// Equal encodings of `u32`s are encodings of equal values.
proof fn lemma_u32_bytes_injective(x: u32, y: u32)
    requires
        spec_u32_to_le_bytes(x) == spec_u32_to_le_bytes(y),
    ensures
        x == y,
{
    lemma_auto_spec_u32_to_from_le_bytes();
    assert(spec_u32_to_le_bytes(x).len() == 4);
    assert(spec_u32_from_le_bytes(spec_u32_to_le_bytes(x)) == x);
    assert(spec_u32_to_le_bytes(y).len() == 4);
    assert(spec_u32_from_le_bytes(spec_u32_to_le_bytes(y)) == y);
}

/// Equal encodings of `u16`s are encodings of equal values.
proof fn lemma_u16_bytes_injective(x: u16, y: u16)
    requires
        spec_u16_to_le_bytes(x) == spec_u16_to_le_bytes(y),
    ensures
        x == y,
{
    lemma_auto_spec_u16_to_from_le_bytes();
    assert(spec_u16_to_le_bytes(x).len() == 2);
    assert(spec_u16_from_le_bytes(spec_u16_to_le_bytes(x)) == x);
    assert(spec_u16_to_le_bytes(y).len() == 2);
    assert(spec_u16_from_le_bytes(spec_u16_to_le_bytes(y)) == y);
}

/// The encoded lengths of the fixed-width integers.
proof fn lemma_int_bytes_len()
    ensures
        forall|x: u64| #[trigger] spec_u64_to_le_bytes(x).len() == 8,
        forall|x: u32| #[trigger] spec_u32_to_le_bytes(x).len() == 4,
        forall|x: u16| #[trigger] spec_u16_to_le_bytes(x).len() == 2,
{
    lemma_auto_spec_u64_to_from_le_bytes();
    lemma_auto_spec_u32_to_from_le_bytes();
    lemma_auto_spec_u16_to_from_le_bytes();
}

/// Bytes in the encoding of a [`Segment`].
pub const SEGMENT_SIZE: usize = 24;

/// A segment register (`struct kvm_segment`).
#[derive(Clone, Copy, Debug, PartialEq, Eq)]
pub struct Segment {
    pub base: u64,
    pub limit: u32,
    pub selector: u16,
    pub type_: u8,
    pub present: u8,
    pub dpl: u8,
    pub db: u8,
    pub s: u8,
    pub l: u8,
    pub g: u8,
    pub avl: u8,
    pub unusable: u8,
    pub padding: u8,
}

impl Segment {
    /// The encoding: `base`, `limit`, `selector` little-endian, then the ten
    /// one-byte fields in declaration order.
    pub open spec fn spec_to_bytes(self) -> Seq<u8> {
        spec_u64_to_le_bytes(self.base) + spec_u32_to_le_bytes(self.limit) + spec_u16_to_le_bytes(
            self.selector,
        ) + seq![
            self.type_,
            self.present,
            self.dpl,
            self.db,
            self.s,
            self.l,
            self.g,
            self.avl,
            self.unusable,
            self.padding,
        ]
    }

    /// Appends the encoding of `self` to `buf`.
    pub fn write_to(&self, buf: &mut Vec<u8>)
        ensures
            final(buf)@ == old(buf)@ + self.spec_to_bytes(),
    {
        let ghost start = buf@;
        push_u64(buf, self.base);
        let mut b = u32_to_le_bytes(self.limit);
        buf.append(&mut b);
        let mut b = u16_to_le_bytes(self.selector);
        buf.append(&mut b);
        buf.push(self.type_);
        buf.push(self.present);
        buf.push(self.dpl);
        buf.push(self.db);
        buf.push(self.s);
        buf.push(self.l);
        buf.push(self.g);
        buf.push(self.avl);
        buf.push(self.unusable);
        buf.push(self.padding);
        assert(buf@ =~= start + self.spec_to_bytes());
    }

    /// Decodes the segment whose encoding starts at `data[pos]`.
    pub fn read_from(data: &[u8], pos: usize) -> (seg: Segment)
        requires
            pos + SEGMENT_SIZE <= data@.len(),
        ensures
            seg.spec_to_bytes() == data@.subrange(pos as int, pos + SEGMENT_SIZE),
    {
        proof {
            lemma_int_bytes_len();
            lemma_auto_spec_u32_to_from_le_bytes();
        }
        proof {
        lemma_slice_len_fits(data);
    }
        let base = read_u64(data, pos);
        let limit = u32_from_le_bytes(slice_subrange(data, pos + 8, pos + 12));
        let selector = read_u16(data, pos + 12);
        let seg = Segment {
            base,
            limit,
            selector,
            type_: data[pos + 14],
            present: data[pos + 15],
            dpl: data[pos + 16],
            db: data[pos + 17],
            s: data[pos + 18],
            l: data[pos + 19],
            g: data[pos + 20],
            avl: data[pos + 21],
            unusable: data[pos + 22],
            padding: data[pos + 23],
        };
        assert(spec_u32_to_le_bytes(limit) == data@.subrange(pos + 8, pos + 12));
        assert(seg.spec_to_bytes() =~= data@.subrange(pos as int, pos + SEGMENT_SIZE));
        seg
    }
}

impl Segment {
    /// The encoding of a segment has [`SEGMENT_SIZE`] bytes, and distinct
    /// segments have distinct encodings.
    pub proof fn lemma_bytes(a: Segment, b: Segment)
        ensures
            a.spec_to_bytes().len() == SEGMENT_SIZE,
            a.spec_to_bytes() == b.spec_to_bytes() ==> a == b,
    {
        lemma_int_bytes_len();
        let x = a.spec_to_bytes();
        let y = b.spec_to_bytes();
        if x == y {
            assert(x.subrange(0, 8) =~= spec_u64_to_le_bytes(a.base));
            assert(y.subrange(0, 8) =~= spec_u64_to_le_bytes(b.base));
            lemma_u64_bytes_injective(a.base, b.base);
            assert(x.subrange(8, 12) =~= spec_u32_to_le_bytes(a.limit));
            assert(y.subrange(8, 12) =~= spec_u32_to_le_bytes(b.limit));
            lemma_u32_bytes_injective(a.limit, b.limit);
            assert(x.subrange(12, 14) =~= spec_u16_to_le_bytes(a.selector));
            assert(y.subrange(12, 14) =~= spec_u16_to_le_bytes(b.selector));
            lemma_u16_bytes_injective(a.selector, b.selector);
            assert(x[14] == a.type_ && y[14] == b.type_);
            assert(x[15] == a.present && y[15] == b.present);
            assert(x[16] == a.dpl && y[16] == b.dpl);
            assert(x[17] == a.db && y[17] == b.db);
            assert(x[18] == a.s && y[18] == b.s);
            assert(x[19] == a.l && y[19] == b.l);
            assert(x[20] == a.g && y[20] == b.g);
            assert(x[21] == a.avl && y[21] == b.avl);
            assert(x[22] == a.unusable && y[22] == b.unusable);
            assert(x[23] == a.padding && y[23] == b.padding);
        }
    }
}

/// Bytes in the encoding of a [`DescriptorTable`].
pub const DTABLE_SIZE: usize = 16;

/// A descriptor-table register (`struct kvm_dtable`).
#[derive(Clone, Copy, Debug, PartialEq, Eq)]
pub struct DescriptorTable {
    pub base: u64,
    pub limit: u16,
    pub padding: [u16; 3],
}

impl DescriptorTable {
    /// The encoding: `base`, `limit` and the three padding words, little-endian.
    pub open spec fn spec_to_bytes(self) -> Seq<u8> {
        spec_u64_to_le_bytes(self.base) + spec_u16_to_le_bytes(self.limit) + spec_u16_to_le_bytes(
            self.padding[0],
        ) + spec_u16_to_le_bytes(self.padding[1]) + spec_u16_to_le_bytes(self.padding[2])
    }

    /// Appends the encoding of `self` to `buf`.
    pub fn write_to(&self, buf: &mut Vec<u8>)
        ensures
            final(buf)@ == old(buf)@ + self.spec_to_bytes(),
    {
        let ghost start = buf@;
        push_u64(buf, self.base);
        let mut b = u16_to_le_bytes(self.limit);
        buf.append(&mut b);
        let mut b = u16_to_le_bytes(self.padding[0]);
        buf.append(&mut b);
        let mut b = u16_to_le_bytes(self.padding[1]);
        buf.append(&mut b);
        let mut b = u16_to_le_bytes(self.padding[2]);
        buf.append(&mut b);
        assert(buf@ =~= start + self.spec_to_bytes());
    }

    /// Decodes the descriptor table whose encoding starts at `data[pos]`.
    pub fn read_from(data: &[u8], pos: usize) -> (t: DescriptorTable)
        requires
            pos + DTABLE_SIZE <= data@.len(),
        ensures
            t.spec_to_bytes() == data@.subrange(pos as int, pos + DTABLE_SIZE),
    {
        proof {
        lemma_slice_len_fits(data);
    }
        let base = read_u64(data, pos);
        let limit = read_u16(data, pos + 8);
        let p0 = read_u16(data, pos + 10);
        let p1 = read_u16(data, pos + 12);
        let p2 = read_u16(data, pos + 14);
        let t = DescriptorTable { base, limit, padding: [p0, p1, p2] };
        assert(t.padding[0] == p0 && t.padding[1] == p1 && t.padding[2] == p2);
        assert(t.spec_to_bytes() =~= data@.subrange(pos as int, pos + DTABLE_SIZE));
        t
    }

    /// The encoding of a descriptor table has [`DTABLE_SIZE`] bytes, and
    /// distinct tables have distinct encodings.
    pub proof fn lemma_bytes(a: DescriptorTable, b: DescriptorTable)
        ensures
            a.spec_to_bytes().len() == DTABLE_SIZE,
            a.spec_to_bytes() == b.spec_to_bytes() ==> a == b,
    {
        lemma_int_bytes_len();
        let x = a.spec_to_bytes();
        let y = b.spec_to_bytes();
        if x == y {
            assert(x.subrange(0, 8) =~= spec_u64_to_le_bytes(a.base));
            assert(y.subrange(0, 8) =~= spec_u64_to_le_bytes(b.base));
            lemma_u64_bytes_injective(a.base, b.base);
            assert(x.subrange(8, 10) =~= spec_u16_to_le_bytes(a.limit));
            assert(y.subrange(8, 10) =~= spec_u16_to_le_bytes(b.limit));
            lemma_u16_bytes_injective(a.limit, b.limit);
            assert(x.subrange(10, 12) =~= spec_u16_to_le_bytes(a.padding[0]));
            assert(y.subrange(10, 12) =~= spec_u16_to_le_bytes(b.padding[0]));
            lemma_u16_bytes_injective(a.padding[0], b.padding[0]);
            assert(x.subrange(12, 14) =~= spec_u16_to_le_bytes(a.padding[1]));
            assert(y.subrange(12, 14) =~= spec_u16_to_le_bytes(b.padding[1]));
            lemma_u16_bytes_injective(a.padding[1], b.padding[1]);
            assert(x.subrange(14, 16) =~= spec_u16_to_le_bytes(a.padding[2]));
            assert(y.subrange(14, 16) =~= spec_u16_to_le_bytes(b.padding[2]));
            lemma_u16_bytes_injective(a.padding[2], b.padding[2]);
            assert(a.padding =~= b.padding);
        }
    }
}

/// The concatenated little-endian encodings of a sequence of `u64`s.
pub open spec fn spec_u64s_to_le_bytes(xs: Seq<u64>) -> Seq<u8>
    decreases xs.len(),
{
    if xs.len() == 0 {
        Seq::empty()
    } else {
        spec_u64s_to_le_bytes(xs.drop_last()) + spec_u64_to_le_bytes(xs.last())
    }
}

/// The encoding of `n` words has `8 * n` bytes, word `i` occupying bytes
/// `8 * i .. 8 * i + 8`, and equally long word sequences with equal
/// encodings are equal.
pub proof fn lemma_u64s_bytes(xs: Seq<u64>, ys: Seq<u64>)
    ensures
        spec_u64s_to_le_bytes(xs).len() == 8 * xs.len(),
        forall|i: int|
            0 <= i < xs.len() ==> #[trigger] spec_u64s_to_le_bytes(xs).subrange(8 * i, 8 * i + 8)
                == spec_u64_to_le_bytes(xs[i]),
        xs.len() == ys.len() && spec_u64s_to_le_bytes(xs) == spec_u64s_to_le_bytes(ys) ==> xs
            == ys,
    decreases xs.len(),
{
    lemma_int_bytes_len();
    if xs.len() > 0 {
        let p = xs.drop_last();
        lemma_u64s_bytes(p, ys.drop_last());
        let e = spec_u64s_to_le_bytes(xs);
        let pe = spec_u64s_to_le_bytes(p);
        assert forall|i: int| 0 <= i < xs.len() implies #[trigger] spec_u64s_to_le_bytes(
            xs,
        ).subrange(8 * i, 8 * i + 8) == spec_u64_to_le_bytes(xs[i]) by {
            if i < xs.len() - 1 {
                assert(pe.subrange(8 * i, 8 * i + 8) == spec_u64_to_le_bytes(p[i]));
                assert(e.subrange(8 * i, 8 * i + 8) =~= pe.subrange(8 * i, 8 * i + 8));
            } else {
                assert(e.subrange(8 * i, 8 * i + 8) =~= spec_u64_to_le_bytes(xs.last()));
            }
        }
        if xs.len() == ys.len() && spec_u64s_to_le_bytes(xs) == spec_u64s_to_le_bytes(ys) {
            let q = ys.drop_last();
            lemma_u64s_bytes(q, q);
            let qe = spec_u64s_to_le_bytes(q);
            let n: int = 8 * (p.len() as int);
            assert(pe =~= e.subrange(0, n));
            assert(qe =~= e.subrange(0, n));
            assert(spec_u64_to_le_bytes(xs.last()) =~= e.subrange(n, n + 8));
            assert(spec_u64_to_le_bytes(ys.last()) =~= e.subrange(n, n + 8));
            lemma_u64_bytes_injective(xs.last(), ys.last());
            assert(xs =~= p.push(xs.last()));
            assert(ys =~= q.push(ys.last()));
        }
    }
}

/// Appends the encodings of the words `xs` to `buf`.
fn push_u64s(buf: &mut Vec<u8>, xs: &[u64])
    ensures
        final(buf)@ == old(buf)@ + spec_u64s_to_le_bytes(xs@),
{
    let ghost start = buf@;
    let n = xs.len();
    for i in 0..n
        invariant
            n == xs@.len(),
            buf@ == start + spec_u64s_to_le_bytes(xs@.take(i as int)),
    {
        push_u64(buf, xs[i]);
        assert(xs@.take(i + 1).drop_last() =~= xs@.take(i as int));
        assert(buf@ =~= start + spec_u64s_to_le_bytes(xs@.take(i + 1)));
    }
    assert(xs@.take(n as int) =~= xs@);
}

/// Decodes the `n` words stored from `data[pos]` on.
fn read_u64s(data: &[u8], pos: usize, n: usize) -> (xs: Vec<u64>)
    requires
        pos + 8 * n <= data@.len(),
    ensures
        xs@.len() == n,
        spec_u64s_to_le_bytes(xs@) == data@.subrange(pos as int, pos + 8 * n),
{
    let len = data.len();
    let mut xs: Vec<u64> = Vec::new();
    for i in 0..n
        invariant
            len == data@.len(),
            pos + 8 * n <= data@.len(),
            xs@.len() == i,
            spec_u64s_to_le_bytes(xs@) == data@.subrange(pos as int, pos + 8 * i),
    {
        let x = read_u64(data, pos + 8 * i);
        let ghost before = xs@;
        xs.push(x);
        assert(xs@.drop_last() =~= before);
        assert(data@.subrange(pos as int, pos + 8 * (i + 1)) =~= data@.subrange(
            pos as int,
            pos + 8 * i,
        ) + data@.subrange(pos + 8 * i, pos + 8 * i + 8));
    }
    xs
}

/// Bytes in the encoding of [`Regs`].
pub const REGS_SIZE: usize = 144;

/// The general-purpose registers (`struct kvm_regs`).
#[derive(Clone, Copy, Debug, PartialEq, Eq)]
pub struct Regs {
    pub rax: u64,
    pub rbx: u64,
    pub rcx: u64,
    pub rdx: u64,
    pub rsi: u64,
    pub rdi: u64,
    pub rsp: u64,
    pub rbp: u64,
    pub r8: u64,
    pub r9: u64,
    pub r10: u64,
    pub r11: u64,
    pub r12: u64,
    pub r13: u64,
    pub r14: u64,
    pub r15: u64,
    pub rip: u64,
    pub rflags: u64,
}

impl Regs {
    /// The registers in declaration order.
    pub open spec fn spec_words(self) -> Seq<u64> {
        seq![
            self.rax,
            self.rbx,
            self.rcx,
            self.rdx,
            self.rsi,
            self.rdi,
            self.rsp,
            self.rbp,
            self.r8,
            self.r9,
            self.r10,
            self.r11,
            self.r12,
            self.r13,
            self.r14,
            self.r15,
            self.rip,
            self.rflags,
        ]
    }

    /// The encoding: every register little-endian, in declaration order.
    pub open spec fn spec_to_bytes(self) -> Seq<u8> {
        spec_u64s_to_le_bytes(self.spec_words())
    }

    /// Appends the encoding of `self` to `buf`.
    pub fn write_to(&self, buf: &mut Vec<u8>)
        ensures
            final(buf)@ == old(buf)@ + self.spec_to_bytes(),
    {
        let words: [u64; 18] = [
            self.rax,
            self.rbx,
            self.rcx,
            self.rdx,
            self.rsi,
            self.rdi,
            self.rsp,
            self.rbp,
            self.r8,
            self.r9,
            self.r10,
            self.r11,
            self.r12,
            self.r13,
            self.r14,
            self.r15,
            self.rip,
            self.rflags,
        ];
        assert(words@ =~= self.spec_words());
        push_u64s(buf, &words);
    }

    /// Decodes the registers whose encoding starts at `data[pos]`.
    pub fn read_from(data: &[u8], pos: usize) -> (r: Regs)
        requires
            pos + REGS_SIZE <= data@.len(),
        ensures
            r.spec_to_bytes() == data@.subrange(pos as int, pos + REGS_SIZE),
    {
        let w = read_u64s(data, pos, 18);
        let r = Regs {
            rax: w[0],
            rbx: w[1],
            rcx: w[2],
            rdx: w[3],
            rsi: w[4],
            rdi: w[5],
            rsp: w[6],
            rbp: w[7],
            r8: w[8],
            r9: w[9],
            r10: w[10],
            r11: w[11],
            r12: w[12],
            r13: w[13],
            r14: w[14],
            r15: w[15],
            rip: w[16],
            rflags: w[17],
        };
        assert(r.spec_words() =~= w@);
        r
    }

    /// The encoding of the registers has [`REGS_SIZE`] bytes, and distinct
    /// register files have distinct encodings.
    pub proof fn lemma_bytes(a: Regs, b: Regs)
        ensures
            a.spec_to_bytes().len() == REGS_SIZE,
            a.spec_to_bytes() == b.spec_to_bytes() ==> a == b,
    {
        lemma_u64s_bytes(a.spec_words(), b.spec_words());
        if a.spec_to_bytes() == b.spec_to_bytes() {
            let (x, y) = (a.spec_words(), b.spec_words());
            assert(x[0] == y[0] && x[1] == y[1] && x[2] == y[2] && x[3] == y[3]);
            assert(x[4] == y[4] && x[5] == y[5] && x[6] == y[6] && x[7] == y[7]);
            assert(x[8] == y[8] && x[9] == y[9] && x[10] == y[10] && x[11] == y[11]);
            assert(x[12] == y[12] && x[13] == y[13] && x[14] == y[14] && x[15] == y[15]);
            assert(x[16] == y[16] && x[17] == y[17]);
        }
    }
}

/// Bytes in the encoding of [`SRegs`].
pub const SREGS_SIZE: usize = 312;

/// The special registers (`struct kvm_sregs`): segments, descriptor tables,
/// control registers, EFER, the APIC base and the pending-interrupt bitmap.
#[derive(Clone, Copy, Debug, PartialEq, Eq)]
pub struct SRegs {
    pub cs: Segment,
    pub ds: Segment,
    pub es: Segment,
    pub fs: Segment,
    pub gs: Segment,
    pub ss: Segment,
    pub tr: Segment,
    pub ldt: Segment,
    pub gdt: DescriptorTable,
    pub idt: DescriptorTable,
    pub cr0: u64,
    pub cr2: u64,
    pub cr3: u64,
    pub cr4: u64,
    pub cr8: u64,
    pub efer: u64,
    pub apic_base: u64,
    pub interrupt_bitmap: [u64; 4],
}

impl SRegs {
    /// The 64-bit words that follow the descriptor tables, in declaration order.
    pub open spec fn spec_words(self) -> Seq<u64> {
        seq![
            self.cr0,
            self.cr2,
            self.cr3,
            self.cr4,
            self.cr8,
            self.efer,
            self.apic_base,
            self.interrupt_bitmap[0],
            self.interrupt_bitmap[1],
            self.interrupt_bitmap[2],
            self.interrupt_bitmap[3],
        ]
    }

    /// The encoding: the eight segments, the two descriptor tables, then the
    /// words of [`Self::spec_words`] little-endian.
    pub open spec fn spec_to_bytes(self) -> Seq<u8> {
        self.cs.spec_to_bytes() + self.ds.spec_to_bytes() + self.es.spec_to_bytes()
            + self.fs.spec_to_bytes() + self.gs.spec_to_bytes() + self.ss.spec_to_bytes()
            + self.tr.spec_to_bytes() + self.ldt.spec_to_bytes() + self.gdt.spec_to_bytes()
            + self.idt.spec_to_bytes() + spec_u64s_to_le_bytes(self.spec_words())
    }

    /// Appends the encoding of `self` to `buf`.
    pub fn write_to(&self, buf: &mut Vec<u8>)
        ensures
            final(buf)@ == old(buf)@ + self.spec_to_bytes(),
    {
        let ghost start = buf@;
        self.cs.write_to(buf);
        self.ds.write_to(buf);
        self.es.write_to(buf);
        self.fs.write_to(buf);
        self.gs.write_to(buf);
        self.ss.write_to(buf);
        self.tr.write_to(buf);
        self.ldt.write_to(buf);
        self.gdt.write_to(buf);
        self.idt.write_to(buf);
        let words: [u64; 11] = [
            self.cr0,
            self.cr2,
            self.cr3,
            self.cr4,
            self.cr8,
            self.efer,
            self.apic_base,
            self.interrupt_bitmap[0],
            self.interrupt_bitmap[1],
            self.interrupt_bitmap[2],
            self.interrupt_bitmap[3],
        ];
        assert(words@ =~= self.spec_words());
        push_u64s(buf, &words);
        assert(buf@ =~= start + self.spec_to_bytes());
    }

    /// Decodes the special registers whose encoding starts at `data[pos]`.
    pub fn read_from(data: &[u8], pos: usize) -> (r: SRegs)
        requires
            pos + SREGS_SIZE <= data@.len(),
        ensures
            r.spec_to_bytes() == data@.subrange(pos as int, pos + SREGS_SIZE),
    {
        proof {
        lemma_slice_len_fits(data);
    }
        let cs = Segment::read_from(data, pos);
        let ds = Segment::read_from(data, pos + 24);
        let es = Segment::read_from(data, pos + 48);
        let fs = Segment::read_from(data, pos + 72);
        let gs = Segment::read_from(data, pos + 96);
        let ss = Segment::read_from(data, pos + 120);
        let tr = Segment::read_from(data, pos + 144);
        let ldt = Segment::read_from(data, pos + 168);
        let gdt = DescriptorTable::read_from(data, pos + 192);
        let idt = DescriptorTable::read_from(data, pos + 208);
        let w = read_u64s(data, pos + 224, 11);
        let r = SRegs {
            cs,
            ds,
            es,
            fs,
            gs,
            ss,
            tr,
            ldt,
            gdt,
            idt,
            cr0: w[0],
            cr2: w[1],
            cr3: w[2],
            cr4: w[3],
            cr8: w[4],
            efer: w[5],
            apic_base: w[6],
            interrupt_bitmap: [w[7], w[8], w[9], w[10]],
        };
        assert(r.spec_words() =~= w@);
        proof {
            lemma_u64s_bytes(w@, w@);
        }
        assert(r.spec_to_bytes() =~= data@.subrange(pos as int, pos + SREGS_SIZE));
        r
    }

    /// The encoding of the special registers has [`SREGS_SIZE`] bytes, and
    /// distinct values have distinct encodings.
    pub proof fn lemma_bytes(a: SRegs, b: SRegs)
        ensures
            a.spec_to_bytes().len() == SREGS_SIZE,
            a.spec_to_bytes() == b.spec_to_bytes() ==> a == b,
    {
        Segment::lemma_bytes(a.cs, b.cs);
        Segment::lemma_bytes(a.ds, b.ds);
        Segment::lemma_bytes(a.es, b.es);
        Segment::lemma_bytes(a.fs, b.fs);
        Segment::lemma_bytes(a.gs, b.gs);
        Segment::lemma_bytes(a.ss, b.ss);
        Segment::lemma_bytes(a.tr, b.tr);
        Segment::lemma_bytes(a.ldt, b.ldt);
        Segment::lemma_bytes(b.cs, b.cs);
        Segment::lemma_bytes(b.ds, b.ds);
        Segment::lemma_bytes(b.es, b.es);
        Segment::lemma_bytes(b.fs, b.fs);
        Segment::lemma_bytes(b.gs, b.gs);
        Segment::lemma_bytes(b.ss, b.ss);
        Segment::lemma_bytes(b.tr, b.tr);
        Segment::lemma_bytes(b.ldt, b.ldt);
        DescriptorTable::lemma_bytes(a.gdt, b.gdt);
        DescriptorTable::lemma_bytes(a.idt, b.idt);
        DescriptorTable::lemma_bytes(b.gdt, b.gdt);
        DescriptorTable::lemma_bytes(b.idt, b.idt);
        lemma_u64s_bytes(a.spec_words(), b.spec_words());
        lemma_u64s_bytes(b.spec_words(), b.spec_words());
        if a.spec_to_bytes() == b.spec_to_bytes() {
            let a1 = a.cs.spec_to_bytes();
            let a2 = a1 + a.ds.spec_to_bytes();
            let a3 = a2 + a.es.spec_to_bytes();
            let a4 = a3 + a.fs.spec_to_bytes();
            let a5 = a4 + a.gs.spec_to_bytes();
            let a6 = a5 + a.ss.spec_to_bytes();
            let a7 = a6 + a.tr.spec_to_bytes();
            let a8 = a7 + a.ldt.spec_to_bytes();
            let a9 = a8 + a.gdt.spec_to_bytes();
            let a10 = a9 + a.idt.spec_to_bytes();
            let b1 = b.cs.spec_to_bytes();
            let b2 = b1 + b.ds.spec_to_bytes();
            let b3 = b2 + b.es.spec_to_bytes();
            let b4 = b3 + b.fs.spec_to_bytes();
            let b5 = b4 + b.gs.spec_to_bytes();
            let b6 = b5 + b.ss.spec_to_bytes();
            let b7 = b6 + b.tr.spec_to_bytes();
            let b8 = b7 + b.ldt.spec_to_bytes();
            let b9 = b8 + b.gdt.spec_to_bytes();
            let b10 = b9 + b.idt.spec_to_bytes();
            lemma_concat_injective(
                a10,
                spec_u64s_to_le_bytes(a.spec_words()),
                b10,
                spec_u64s_to_le_bytes(b.spec_words()),
            );
            lemma_concat_injective(a9, a.idt.spec_to_bytes(), b9, b.idt.spec_to_bytes());
            lemma_concat_injective(a8, a.gdt.spec_to_bytes(), b8, b.gdt.spec_to_bytes());
            lemma_concat_injective(a7, a.ldt.spec_to_bytes(), b7, b.ldt.spec_to_bytes());
            lemma_concat_injective(a6, a.tr.spec_to_bytes(), b6, b.tr.spec_to_bytes());
            lemma_concat_injective(a5, a.ss.spec_to_bytes(), b5, b.ss.spec_to_bytes());
            lemma_concat_injective(a4, a.gs.spec_to_bytes(), b4, b.gs.spec_to_bytes());
            lemma_concat_injective(a3, a.fs.spec_to_bytes(), b3, b.fs.spec_to_bytes());
            lemma_concat_injective(a2, a.es.spec_to_bytes(), b2, b.es.spec_to_bytes());
            lemma_concat_injective(a1, a.ds.spec_to_bytes(), b1, b.ds.spec_to_bytes());
            let (p, q) = (a.spec_words(), b.spec_words());
            assert(p[0] == q[0] && p[1] == q[1] && p[2] == q[2] && p[3] == q[3]);
            assert(p[4] == q[4] && p[5] == q[5] && p[6] == q[6]);
            assert(p[7] == q[7] && p[8] == q[8] && p[9] == q[9] && p[10] == q[10]);
            assert(a.interrupt_bitmap =~= b.interrupt_bitmap);
        }
    }
}

/// Two concatenations with equally long first parts are equal only when
/// their parts are.
proof fn lemma_concat_injective(x1: Seq<u8>, y1: Seq<u8>, x2: Seq<u8>, y2: Seq<u8>)
    requires
        x1.len() == x2.len(),
        x1 + y1 == x2 + y2,
    ensures
        x1 == x2,
        y1 == y2,
{
    assert(x1 =~= (x1 + y1).subrange(0, x1.len() as int));
    assert(x2 =~= (x2 + y2).subrange(0, x1.len() as int));
    assert(y1 =~= (x1 + y1).subrange(x1.len() as int, (x1 + y1).len() as int));
    assert(y2 =~= (x2 + y2).subrange(x1.len() as int, (x1 + y1).len() as int));
}

impl Segment {
    /// Where each field of a segment lies in its encoding, which is the byte
    /// image of `struct kvm_segment`: `base` in bytes 0..8, `limit` in 8..12,
    /// `selector` in 12..14, all little-endian, then one byte each for
    /// `type_` (14), `present` (15), `dpl` (16), `db` (17), `s` (18), `l`
    /// (19), `g` (20), `avl` (21), `unusable` (22) and `padding` (23).
    pub proof fn lemma_layout(g: Segment)
        ensures
            g.spec_to_bytes().len() == 24,
            g.spec_to_bytes().subrange(0, 8) == spec_u64_to_le_bytes(g.base),
            g.spec_to_bytes().subrange(8, 12) == spec_u32_to_le_bytes(g.limit),
            g.spec_to_bytes().subrange(12, 14) == spec_u16_to_le_bytes(g.selector),
            g.spec_to_bytes()[14] == g.type_,
            g.spec_to_bytes()[15] == g.present,
            g.spec_to_bytes()[16] == g.dpl,
            g.spec_to_bytes()[17] == g.db,
            g.spec_to_bytes()[18] == g.s,
            g.spec_to_bytes()[19] == g.l,
            g.spec_to_bytes()[20] == g.g,
            g.spec_to_bytes()[21] == g.avl,
            g.spec_to_bytes()[22] == g.unusable,
            g.spec_to_bytes()[23] == g.padding,
    {
        lemma_int_bytes_len();
        let x = g.spec_to_bytes();
        assert(x.subrange(0, 8) =~= spec_u64_to_le_bytes(g.base));
        assert(x.subrange(8, 12) =~= spec_u32_to_le_bytes(g.limit));
        assert(x.subrange(12, 14) =~= spec_u16_to_le_bytes(g.selector));
    }
}

impl DescriptorTable {
    /// Where each field of a descriptor table lies in its encoding, which is
    /// the byte image of `struct kvm_dtable`: `base` in bytes 0..8, `limit`
    /// in 8..10, the padding words in 10..12, 12..14 and 14..16, all
    /// little-endian.
    pub proof fn lemma_layout(t: DescriptorTable)
        ensures
            t.spec_to_bytes().len() == 16,
            t.spec_to_bytes().subrange(0, 8) == spec_u64_to_le_bytes(t.base),
            t.spec_to_bytes().subrange(8, 10) == spec_u16_to_le_bytes(t.limit),
            t.spec_to_bytes().subrange(10, 12) == spec_u16_to_le_bytes(t.padding[0]),
            t.spec_to_bytes().subrange(12, 14) == spec_u16_to_le_bytes(t.padding[1]),
            t.spec_to_bytes().subrange(14, 16) == spec_u16_to_le_bytes(t.padding[2]),
    {
        lemma_int_bytes_len();
        let x = t.spec_to_bytes();
        assert(x.subrange(0, 8) =~= spec_u64_to_le_bytes(t.base));
        assert(x.subrange(8, 10) =~= spec_u16_to_le_bytes(t.limit));
        assert(x.subrange(10, 12) =~= spec_u16_to_le_bytes(t.padding[0]));
        assert(x.subrange(12, 14) =~= spec_u16_to_le_bytes(t.padding[1]));
        assert(x.subrange(14, 16) =~= spec_u16_to_le_bytes(t.padding[2]));
    }
}

impl Regs {
    /// Where each register lies in the encoding, which is the byte image of
    /// `struct kvm_regs`: eight little-endian bytes each, in the order `rax`,
    /// `rbx`, `rcx`, `rdx`, `rsi`, `rdi`, `rsp`, `rbp`, `r8` ..= `r15`,
    /// `rip`, `rflags`.
    pub proof fn lemma_layout(r: Regs)
        ensures
            r.spec_to_bytes().len() == 144,
            r.spec_to_bytes().subrange(0, 8) == spec_u64_to_le_bytes(r.rax),
            r.spec_to_bytes().subrange(8, 16) == spec_u64_to_le_bytes(r.rbx),
            r.spec_to_bytes().subrange(16, 24) == spec_u64_to_le_bytes(r.rcx),
            r.spec_to_bytes().subrange(24, 32) == spec_u64_to_le_bytes(r.rdx),
            r.spec_to_bytes().subrange(32, 40) == spec_u64_to_le_bytes(r.rsi),
            r.spec_to_bytes().subrange(40, 48) == spec_u64_to_le_bytes(r.rdi),
            r.spec_to_bytes().subrange(48, 56) == spec_u64_to_le_bytes(r.rsp),
            r.spec_to_bytes().subrange(56, 64) == spec_u64_to_le_bytes(r.rbp),
            r.spec_to_bytes().subrange(64, 72) == spec_u64_to_le_bytes(r.r8),
            r.spec_to_bytes().subrange(72, 80) == spec_u64_to_le_bytes(r.r9),
            r.spec_to_bytes().subrange(80, 88) == spec_u64_to_le_bytes(r.r10),
            r.spec_to_bytes().subrange(88, 96) == spec_u64_to_le_bytes(r.r11),
            r.spec_to_bytes().subrange(96, 104) == spec_u64_to_le_bytes(r.r12),
            r.spec_to_bytes().subrange(104, 112) == spec_u64_to_le_bytes(r.r13),
            r.spec_to_bytes().subrange(112, 120) == spec_u64_to_le_bytes(r.r14),
            r.spec_to_bytes().subrange(120, 128) == spec_u64_to_le_bytes(r.r15),
            r.spec_to_bytes().subrange(128, 136) == spec_u64_to_le_bytes(r.rip),
            r.spec_to_bytes().subrange(136, 144) == spec_u64_to_le_bytes(r.rflags),
    {
        let w = r.spec_words();
        lemma_u64s_bytes(w, w);
        assert(spec_u64s_to_le_bytes(w).subrange(8int * 0, 8int * 0 + 8) == spec_u64_to_le_bytes(w[0]));
        assert(spec_u64s_to_le_bytes(w).subrange(8int * 1, 8int * 1 + 8) == spec_u64_to_le_bytes(w[1]));
        assert(spec_u64s_to_le_bytes(w).subrange(8int * 2, 8int * 2 + 8) == spec_u64_to_le_bytes(w[2]));
        assert(spec_u64s_to_le_bytes(w).subrange(8int * 3, 8int * 3 + 8) == spec_u64_to_le_bytes(w[3]));
        assert(spec_u64s_to_le_bytes(w).subrange(8int * 4, 8int * 4 + 8) == spec_u64_to_le_bytes(w[4]));
        assert(spec_u64s_to_le_bytes(w).subrange(8int * 5, 8int * 5 + 8) == spec_u64_to_le_bytes(w[5]));
        assert(spec_u64s_to_le_bytes(w).subrange(8int * 6, 8int * 6 + 8) == spec_u64_to_le_bytes(w[6]));
        assert(spec_u64s_to_le_bytes(w).subrange(8int * 7, 8int * 7 + 8) == spec_u64_to_le_bytes(w[7]));
        assert(spec_u64s_to_le_bytes(w).subrange(8int * 8, 8int * 8 + 8) == spec_u64_to_le_bytes(w[8]));
        assert(spec_u64s_to_le_bytes(w).subrange(8int * 9, 8int * 9 + 8) == spec_u64_to_le_bytes(w[9]));
        assert(spec_u64s_to_le_bytes(w).subrange(8int * 10, 8int * 10 + 8) == spec_u64_to_le_bytes(w[10]));
        assert(spec_u64s_to_le_bytes(w).subrange(8int * 11, 8int * 11 + 8) == spec_u64_to_le_bytes(w[11]));
        assert(spec_u64s_to_le_bytes(w).subrange(8int * 12, 8int * 12 + 8) == spec_u64_to_le_bytes(w[12]));
        assert(spec_u64s_to_le_bytes(w).subrange(8int * 13, 8int * 13 + 8) == spec_u64_to_le_bytes(w[13]));
        assert(spec_u64s_to_le_bytes(w).subrange(8int * 14, 8int * 14 + 8) == spec_u64_to_le_bytes(w[14]));
        assert(spec_u64s_to_le_bytes(w).subrange(8int * 15, 8int * 15 + 8) == spec_u64_to_le_bytes(w[15]));
        assert(spec_u64s_to_le_bytes(w).subrange(8int * 16, 8int * 16 + 8) == spec_u64_to_le_bytes(w[16]));
        assert(spec_u64s_to_le_bytes(w).subrange(8int * 17, 8int * 17 + 8) == spec_u64_to_le_bytes(w[17]));
    }
}

impl SRegs {
    /// Where each part lies in the encoding of the special registers, which
    /// is the byte image of `struct kvm_sregs`: the segments `cs`, `ds`,
    /// `es`, `fs`, `gs`, `ss`, `tr`, `ldt` in consecutive 24-byte slots from
    /// byte 0, `gdt` in 192..208, `idt` in 208..224, then eight little-endian
    /// bytes each for `cr0`, `cr2`, `cr3`, `cr4`, `cr8`, `efer`, `apic_base`
    /// and the four words of `interrupt_bitmap`.
    pub proof fn lemma_layout(s: SRegs)
        ensures
            s.spec_to_bytes().len() == 312,
            s.spec_to_bytes().subrange(0, 24) == s.cs.spec_to_bytes(),
            s.spec_to_bytes().subrange(24, 48) == s.ds.spec_to_bytes(),
            s.spec_to_bytes().subrange(48, 72) == s.es.spec_to_bytes(),
            s.spec_to_bytes().subrange(72, 96) == s.fs.spec_to_bytes(),
            s.spec_to_bytes().subrange(96, 120) == s.gs.spec_to_bytes(),
            s.spec_to_bytes().subrange(120, 144) == s.ss.spec_to_bytes(),
            s.spec_to_bytes().subrange(144, 168) == s.tr.spec_to_bytes(),
            s.spec_to_bytes().subrange(168, 192) == s.ldt.spec_to_bytes(),
            s.spec_to_bytes().subrange(192, 208) == s.gdt.spec_to_bytes(),
            s.spec_to_bytes().subrange(208, 224) == s.idt.spec_to_bytes(),
            s.spec_to_bytes().subrange(224, 232) == spec_u64_to_le_bytes(s.cr0),
            s.spec_to_bytes().subrange(232, 240) == spec_u64_to_le_bytes(s.cr2),
            s.spec_to_bytes().subrange(240, 248) == spec_u64_to_le_bytes(s.cr3),
            s.spec_to_bytes().subrange(248, 256) == spec_u64_to_le_bytes(s.cr4),
            s.spec_to_bytes().subrange(256, 264) == spec_u64_to_le_bytes(s.cr8),
            s.spec_to_bytes().subrange(264, 272) == spec_u64_to_le_bytes(s.efer),
            s.spec_to_bytes().subrange(272, 280) == spec_u64_to_le_bytes(s.apic_base),
            s.spec_to_bytes().subrange(280, 288) == spec_u64_to_le_bytes(s.interrupt_bitmap[0]),
            s.spec_to_bytes().subrange(288, 296) == spec_u64_to_le_bytes(s.interrupt_bitmap[1]),
            s.spec_to_bytes().subrange(296, 304) == spec_u64_to_le_bytes(s.interrupt_bitmap[2]),
            s.spec_to_bytes().subrange(304, 312) == spec_u64_to_le_bytes(s.interrupt_bitmap[3]),
    {
        SRegs::lemma_bytes(s, s);
        Segment::lemma_bytes(s.cs, s.cs);
        Segment::lemma_bytes(s.ds, s.ds);
        Segment::lemma_bytes(s.es, s.es);
        Segment::lemma_bytes(s.fs, s.fs);
        Segment::lemma_bytes(s.gs, s.gs);
        Segment::lemma_bytes(s.ss, s.ss);
        Segment::lemma_bytes(s.tr, s.tr);
        Segment::lemma_bytes(s.ldt, s.ldt);
        DescriptorTable::lemma_bytes(s.gdt, s.gdt);
        DescriptorTable::lemma_bytes(s.idt, s.idt);
        let w = s.spec_words();
        lemma_u64s_bytes(w, w);
        let x = s.spec_to_bytes();
        let head = x.subrange(0, 224);
        let tail = spec_u64s_to_le_bytes(w);
        assert(x.subrange(224, 312) =~= tail);
        assert(x.subrange(0, 24) =~= s.cs.spec_to_bytes());
        assert(x.subrange(24, 48) =~= s.ds.spec_to_bytes());
        assert(x.subrange(48, 72) =~= s.es.spec_to_bytes());
        assert(x.subrange(72, 96) =~= s.fs.spec_to_bytes());
        assert(x.subrange(96, 120) =~= s.gs.spec_to_bytes());
        assert(x.subrange(120, 144) =~= s.ss.spec_to_bytes());
        assert(x.subrange(144, 168) =~= s.tr.spec_to_bytes());
        assert(x.subrange(168, 192) =~= s.ldt.spec_to_bytes());
        assert(x.subrange(192, 208) =~= s.gdt.spec_to_bytes());
        assert(x.subrange(208, 224) =~= s.idt.spec_to_bytes());
        assert(tail.subrange(8int * 0, 8int * 0 + 8) == spec_u64_to_le_bytes(w[0]));
        assert(tail.subrange(8int * 1, 8int * 1 + 8) == spec_u64_to_le_bytes(w[1]));
        assert(tail.subrange(8int * 2, 8int * 2 + 8) == spec_u64_to_le_bytes(w[2]));
        assert(tail.subrange(8int * 3, 8int * 3 + 8) == spec_u64_to_le_bytes(w[3]));
        assert(tail.subrange(8int * 4, 8int * 4 + 8) == spec_u64_to_le_bytes(w[4]));
        assert(tail.subrange(8int * 5, 8int * 5 + 8) == spec_u64_to_le_bytes(w[5]));
        assert(tail.subrange(8int * 6, 8int * 6 + 8) == spec_u64_to_le_bytes(w[6]));
        assert(tail.subrange(8int * 7, 8int * 7 + 8) == spec_u64_to_le_bytes(w[7]));
        assert(tail.subrange(8int * 8, 8int * 8 + 8) == spec_u64_to_le_bytes(w[8]));
        assert(tail.subrange(8int * 9, 8int * 9 + 8) == spec_u64_to_le_bytes(w[9]));
        assert(tail.subrange(8int * 10, 8int * 10 + 8) == spec_u64_to_le_bytes(w[10]));
        assert(x.subrange(224 + 8int * 0, 224 + 8int * 0 + 8) =~= tail.subrange(8int * 0, 8int * 0 + 8));
        assert(x.subrange(224 + 8int * 1, 224 + 8int * 1 + 8) =~= tail.subrange(8int * 1, 8int * 1 + 8));
        assert(x.subrange(224 + 8int * 2, 224 + 8int * 2 + 8) =~= tail.subrange(8int * 2, 8int * 2 + 8));
        assert(x.subrange(224 + 8int * 3, 224 + 8int * 3 + 8) =~= tail.subrange(8int * 3, 8int * 3 + 8));
        assert(x.subrange(224 + 8int * 4, 224 + 8int * 4 + 8) =~= tail.subrange(8int * 4, 8int * 4 + 8));
        assert(x.subrange(224 + 8int * 5, 224 + 8int * 5 + 8) =~= tail.subrange(8int * 5, 8int * 5 + 8));
        assert(x.subrange(224 + 8int * 6, 224 + 8int * 6 + 8) =~= tail.subrange(8int * 6, 8int * 6 + 8));
        assert(x.subrange(224 + 8int * 7, 224 + 8int * 7 + 8) =~= tail.subrange(8int * 7, 8int * 7 + 8));
        assert(x.subrange(224 + 8int * 8, 224 + 8int * 8 + 8) =~= tail.subrange(8int * 8, 8int * 8 + 8));
        assert(x.subrange(224 + 8int * 9, 224 + 8int * 9 + 8) =~= tail.subrange(8int * 9, 8int * 9 + 8));
        assert(x.subrange(224 + 8int * 10, 224 + 8int * 10 + 8) =~= tail.subrange(8int * 10, 8int * 10 + 8));
    }
}

} // verus!

