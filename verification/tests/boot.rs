use suspend_storage::regs::{DescriptorTable, Regs, SRegs, Segment};
use suspend_storage::vmm::{
    boot_regs, boot_sregs, guest_memory_region, load_payload, payload_fits, MemoryRegion,
    BOOT_RFLAGS, GUEST_MEMORY_SIZE, GUEST_PAYLOAD_OFFSET, MAX_PAYLOAD_SIZE,
};

#[test]
fn guest_layout_constants() {
    assert_eq!(GUEST_MEMORY_SIZE, 65_536);
    assert_eq!(GUEST_PAYLOAD_OFFSET, 0x1000);
    assert_eq!(MAX_PAYLOAD_SIZE, GUEST_MEMORY_SIZE - GUEST_PAYLOAD_OFFSET);
}

#[test]
fn region_is_slot_zero_at_address_zero() {
    let r = guest_memory_region(0x7f00_dead_0000);
    assert_eq!(
        r,
        MemoryRegion {
            slot: 0,
            flags: 0,
            guest_phys_addr: 0,
            memory_size: 0x10000,
            userspace_addr: 0x7f00_dead_0000,
        }
    );
}

#[test]
fn payload_fits_up_to_end_of_memory() {
    assert!(payload_fits(0));
    assert!(payload_fits(14));
    assert!(payload_fits(0xf000));
    assert!(!payload_fits(0xf001));
    assert!(!payload_fits(usize::MAX));
}

#[test]
fn load_payload_places_bytes_at_offset() {
    let mut guest = vec![0xccu8; GUEST_MEMORY_SIZE];
    let payload = [0xb8, 0x34, 0x12, 0xbb, 0x78, 0x56, 0x89, 0xc1, 0x01, 0xd9, 0xe6, 0x10, 0xeb, 0xf2];
    load_payload(&mut guest, &payload);
    assert_eq!(&guest[0x1000..0x1000 + payload.len()], &payload);
    assert!(guest[..0x1000].iter().all(|&b| b == 0xcc));
    assert!(guest[0x1000 + payload.len()..].iter().all(|&b| b == 0xcc));
}

#[test]
fn load_payload_of_maximal_size_reaches_end() {
    let mut guest = vec![0u8; GUEST_MEMORY_SIZE];
    let payload = vec![0x90u8; MAX_PAYLOAD_SIZE];
    load_payload(&mut guest, &payload);
    assert!(guest[..0x1000].iter().all(|&b| b == 0));
    assert!(guest[0x1000..].iter().all(|&b| b == 0x90));
}

fn created_segment() -> Segment {
    Segment {
        base: 0xffff_0000,
        limit: 0xffff,
        selector: 0xf000,
        type_: 0xb,
        present: 1,
        dpl: 0,
        db: 0,
        s: 1,
        l: 0,
        g: 0,
        avl: 0,
        unusable: 0,
        padding: 0,
    }
}

#[test]
fn boot_sregs_clear_code_segment_only() {
    let created = SRegs {
        cs: created_segment(),
        ds: created_segment(),
        es: created_segment(),
        fs: created_segment(),
        gs: created_segment(),
        ss: created_segment(),
        tr: created_segment(),
        ldt: created_segment(),
        gdt: DescriptorTable { base: 0, limit: 0xffff, padding: [0; 3] },
        idt: DescriptorTable { base: 0, limit: 0xffff, padding: [0; 3] },
        cr0: 0x6000_0010,
        cr2: 0,
        cr3: 0,
        cr4: 0,
        cr8: 0,
        efer: 0,
        apic_base: 0xfee0_0900,
        interrupt_bitmap: [0; 4],
    };
    let s = boot_sregs(created);
    assert_eq!(s.cs.base, 0);
    assert_eq!(s.cs.selector, 0);
    assert_eq!(s.cs.limit, 0xffff);
    assert_eq!(s.cs.type_, 0xb);
    assert_eq!(s.ds, created.ds);
    assert_eq!(s.cr0, created.cr0);
}

#[test]
fn boot_regs_start_at_payload_with_reserved_flag() {
    let created = Regs {
        rax: 0,
        rbx: 0,
        rcx: 0,
        rdx: 0x600,
        rsi: 0,
        rdi: 0,
        rsp: 0,
        rbp: 0,
        r8: 0,
        r9: 0,
        r10: 0,
        r11: 0,
        r12: 0,
        r13: 0,
        r14: 0,
        r15: 0,
        rip: 0xfff0,
        rflags: 0x202,
    };
    let r = boot_regs(created);
    assert_eq!(r.rip, 0x1000);
    assert_eq!(r.rflags, BOOT_RFLAGS);
    assert_eq!(r.rflags, 0x2);
    assert_eq!(r.rdx, 0x600);
}

#[test]
fn boot_state_fetches_first_payload_byte() {
    let mut guest = vec![0u8; GUEST_MEMORY_SIZE];
    let payload = [0xb8, 0x34, 0x12, 0xe6, 0x10];
    load_payload(&mut guest, &payload);
    let sregs = boot_sregs(SRegs {
        cs: created_segment(),
        ds: created_segment(),
        es: created_segment(),
        fs: created_segment(),
        gs: created_segment(),
        ss: created_segment(),
        tr: created_segment(),
        ldt: created_segment(),
        gdt: DescriptorTable { base: 0, limit: 0xffff, padding: [0; 3] },
        idt: DescriptorTable { base: 0, limit: 0xffff, padding: [0; 3] },
        cr0: 0,
        cr2: 0,
        cr3: 0,
        cr4: 0,
        cr8: 0,
        efer: 0,
        apic_base: 0,
        interrupt_bitmap: [0; 4],
    });
    let regs = boot_regs(Regs {
        rax: 0,
        rbx: 0,
        rcx: 0,
        rdx: 0,
        rsi: 0,
        rdi: 0,
        rsp: 0,
        rbp: 0,
        r8: 0,
        r9: 0,
        r10: 0,
        r11: 0,
        r12: 0,
        r13: 0,
        r14: 0,
        r15: 0,
        rip: 0xfff0,
        rflags: 0x2,
    });
    let entry = (sregs.cs.base + regs.rip) as usize;
    assert_eq!(entry, 0x1000);
    assert_eq!(&guest[entry..entry + payload.len()], &payload);
}
