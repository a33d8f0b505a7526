use kvm_bindings::{kvm_dtable, kvm_regs, kvm_segment, kvm_sregs};
use suspend_storage::regs::{DescriptorTable, Regs, SRegs, Segment};
use zerocopy::IntoBytes;

fn kvm_segment_value(k: u8) -> kvm_segment {
    kvm_segment {
        base: 0x0102_0304_0506_0700 + k as u64,
        limit: 0x8000_ffff,
        selector: 0x1200 + k as u16,
        type_: 0xb,
        present: 1,
        dpl: 3,
        db: 1,
        s: 1,
        l: 0,
        g: 1,
        avl: 0,
        unusable: 0,
        padding: k,
    }
}

fn segment_value(k: u8) -> Segment {
    let s = kvm_segment_value(k);
    Segment {
        base: s.base,
        limit: s.limit,
        selector: s.selector,
        type_: s.type_,
        present: s.present,
        dpl: s.dpl,
        db: s.db,
        s: s.s,
        l: s.l,
        g: s.g,
        avl: s.avl,
        unusable: s.unusable,
        padding: s.padding,
    }
}

#[test]
fn regs_encoding_is_the_kernel_byte_image() {
    let k = kvm_regs {
        rax: 0x1234,
        rbx: 0x5678,
        rcx: 0x68ac,
        rdx: 0xdead_beef,
        rsi: 1,
        rdi: 2,
        rsp: 0x7ff0,
        rbp: 3,
        r8: 4,
        r9: 5,
        r10: 6,
        r11: 7,
        r12: 8,
        r13: 9,
        r14: 10,
        r15: 0xffff_0000_ffff_0000,
        rip: 0x1009,
        rflags: 0x202,
    };
    let r = Regs {
        rax: k.rax,
        rbx: k.rbx,
        rcx: k.rcx,
        rdx: k.rdx,
        rsi: k.rsi,
        rdi: k.rdi,
        rsp: k.rsp,
        rbp: k.rbp,
        r8: k.r8,
        r9: k.r9,
        r10: k.r10,
        r11: k.r11,
        r12: k.r12,
        r13: k.r13,
        r14: k.r14,
        r15: k.r15,
        rip: k.rip,
        rflags: k.rflags,
    };
    let mut buf = Vec::new();
    r.write_to(&mut buf);
    assert_eq!(buf.as_slice(), k.as_bytes());
}

#[test]
fn sregs_encoding_is_the_kernel_byte_image() {
    let k = kvm_sregs {
        cs: kvm_segment_value(1),
        ds: kvm_segment_value(2),
        es: kvm_segment_value(3),
        fs: kvm_segment_value(4),
        gs: kvm_segment_value(5),
        ss: kvm_segment_value(6),
        tr: kvm_segment_value(7),
        ldt: kvm_segment_value(8),
        gdt: kvm_dtable { base: 0x1000, limit: 0x27, padding: [7, 8, 9] },
        idt: kvm_dtable { base: 0x2000, limit: 0x3ff, padding: [10, 11, 12] },
        cr0: 0x8000_0011,
        cr2: 0x22,
        cr3: 0x3000,
        cr4: 0x20,
        cr8: 0x8,
        efer: 0xd01,
        apic_base: 0xfee0_0900,
        interrupt_bitmap: [1, 2, 3, 0x8000_0000_0000_0000],
    };
    let s = SRegs {
        cs: segment_value(1),
        ds: segment_value(2),
        es: segment_value(3),
        fs: segment_value(4),
        gs: segment_value(5),
        ss: segment_value(6),
        tr: segment_value(7),
        ldt: segment_value(8),
        gdt: DescriptorTable { base: 0x1000, limit: 0x27, padding: [7, 8, 9] },
        idt: DescriptorTable { base: 0x2000, limit: 0x3ff, padding: [10, 11, 12] },
        cr0: k.cr0,
        cr2: k.cr2,
        cr3: k.cr3,
        cr4: k.cr4,
        cr8: k.cr8,
        efer: k.efer,
        apic_base: k.apic_base,
        interrupt_bitmap: k.interrupt_bitmap,
    };
    let mut buf = Vec::new();
    s.write_to(&mut buf);
    assert_eq!(buf.as_slice(), k.as_bytes());
    assert_eq!(SRegs::read_from(k.as_bytes(), 0), s);
}
