use suspend_storage::regs::{
    DescriptorTable, Regs, SRegs, Segment, DTABLE_SIZE, REGS_SIZE, SEGMENT_SIZE, SREGS_SIZE,
};

fn sample_regs() -> Regs {
    Regs {
        rax: 0x1234,
        rbx: 0x5678,
        rcx: 0x68AC,
        rdx: 0x0102_0304_0506_0708,
        rsi: 5,
        rdi: 6,
        rsp: 0x7000,
        rbp: 8,
        r8: 9,
        r9: 10,
        r10: 11,
        r11: 12,
        r12: 13,
        r13: 14,
        r14: 15,
        r15: u64::MAX,
        rip: 0x1009,
        rflags: 0x2,
    }
}

fn sample_segment(k: u8) -> Segment {
    Segment {
        base: 0x1122_3344_5566_7700 + k as u64,
        limit: 0xffff,
        selector: 0x0100 + k as u16,
        type_: 3,
        present: 1,
        dpl: 0,
        db: 0,
        s: 1,
        l: 0,
        g: 0,
        avl: 0,
        unusable: 0,
        padding: k,
    }
}

fn sample_sregs() -> SRegs {
    SRegs {
        cs: sample_segment(1),
        ds: sample_segment(2),
        es: sample_segment(3),
        fs: sample_segment(4),
        gs: sample_segment(5),
        ss: sample_segment(6),
        tr: sample_segment(7),
        ldt: sample_segment(8),
        gdt: DescriptorTable { base: 0xaaaa, limit: 0x27, padding: [1, 2, 3] },
        idt: DescriptorTable { base: 0xbbbb, limit: 0x3ff, padding: [4, 5, 6] },
        cr0: 0x6000_0010,
        cr2: 0x22,
        cr3: 0x33,
        cr4: 0x44,
        cr8: 0x88,
        efer: 0x500,
        apic_base: 0xfee0_0900,
        interrupt_bitmap: [0x10, 0x20, 0x30, 0x8000_0000_0000_0001],
    }
}

#[test]
fn regs_encode_each_register_little_endian_in_order() {
    let r = sample_regs();
    let mut buf = Vec::new();
    r.write_to(&mut buf);
    assert_eq!(buf.len(), REGS_SIZE);
    assert_eq!(&buf[0..8], &0x1234u64.to_le_bytes());
    assert_eq!(&buf[24..32], &[8, 7, 6, 5, 4, 3, 2, 1]);
    assert_eq!(&buf[120..128], &[0xff; 8]);
    assert_eq!(&buf[128..136], &0x1009u64.to_le_bytes());
    assert_eq!(&buf[136..144], &[2, 0, 0, 0, 0, 0, 0, 0]);
}

#[test]
fn regs_decode_what_was_encoded() {
    let r = sample_regs();
    let mut buf = vec![0xee, 0xee];
    r.write_to(&mut buf);
    assert_eq!(Regs::read_from(&buf, 2), r);
}

#[test]
fn segment_encoding_layout() {
    let s = sample_segment(9);
    let mut buf = Vec::new();
    s.write_to(&mut buf);
    assert_eq!(buf.len(), SEGMENT_SIZE);
    assert_eq!(&buf[0..8], &(0x1122_3344_5566_7709u64).to_le_bytes());
    assert_eq!(&buf[8..12], &[0xff, 0xff, 0, 0]);
    assert_eq!(&buf[12..14], &[0x09, 0x01]);
    assert_eq!(&buf[14..24], &[3, 1, 0, 0, 1, 0, 0, 0, 0, 9]);
    assert_eq!(Segment::read_from(&buf, 0), s);
}

#[test]
fn descriptor_table_encoding_layout() {
    let t = DescriptorTable { base: 0x0102, limit: 0x0304, padding: [0x0506, 0x0708, 0x090a] };
    let mut buf = Vec::new();
    t.write_to(&mut buf);
    assert_eq!(buf.len(), DTABLE_SIZE);
    assert_eq!(buf, vec![2, 1, 0, 0, 0, 0, 0, 0, 4, 3, 6, 5, 8, 7, 0x0a, 9]);
    assert_eq!(DescriptorTable::read_from(&buf, 0), t);
}

#[test]
fn sregs_encoding_layout() {
    let s = sample_sregs();
    let mut buf = Vec::new();
    s.write_to(&mut buf);
    assert_eq!(buf.len(), SREGS_SIZE);
    // cs first, ldt eighth
    assert_eq!(&buf[12..14], &[0x01, 0x01]);
    assert_eq!(&buf[168 + 12..168 + 14], &[0x08, 0x01]);
    // gdt and idt follow the segments
    assert_eq!(&buf[192..200], &0xaaaau64.to_le_bytes());
    assert_eq!(&buf[208..216], &0xbbbbu64.to_le_bytes());
    // control registers, EFER, APIC base, then the interrupt bitmap
    assert_eq!(&buf[224..232], &0x6000_0010u64.to_le_bytes());
    assert_eq!(&buf[264..272], &0x500u64.to_le_bytes());
    assert_eq!(&buf[272..280], &0xfee0_0900u64.to_le_bytes());
    assert_eq!(&buf[304..312], &0x8000_0000_0000_0001u64.to_le_bytes());
    assert_eq!(SRegs::read_from(&buf, 0), s);
}

#[test]
fn sizes_match_the_kernel_structures() {
    assert_eq!(std::mem::size_of::<kvm_bindings::kvm_regs>(), REGS_SIZE);
    assert_eq!(std::mem::size_of::<kvm_bindings::kvm_sregs>(), SREGS_SIZE);
    assert_eq!(std::mem::size_of::<kvm_bindings::kvm_segment>(), SEGMENT_SIZE);
    assert_eq!(std::mem::size_of::<kvm_bindings::kvm_dtable>(), DTABLE_SIZE);
}
