use vm_memory::{Bytes, GuestAddress, GuestMemory, GuestMemoryMmap};
use whp_vmm::boot::{setup_gdt_idt, setup_page_tables};
use whp_vmm::eventfd::EventFd;
use whp_vmm::gdt::{gdt_entry, whp_segment_from_gdt, SegmentRegister};
use whp_vmm::guest_mem::has_nonempty_regions;
use whp_vmm::os::OsError;
use whp_vmm::registers::{
    RegisterCall, RegisterName, RegisterValue, RegisterWrite, TableRegister,
};
use whp_vmm::vstate::{Error, GpaRange, Vcpu, VcpuConfig, Vm, VmProgress, VmSetup};

fn memory(ranges: &[(u64, usize)]) -> GuestMemoryMmap<()> {
    let ranges: Vec<(GuestAddress, usize)> =
        ranges.iter().map(|r| (GuestAddress(r.0), r.1)).collect();
    GuestMemoryMmap::from_ranges(&ranges).unwrap()
}

fn word(mem: &GuestMemoryMmap<()>, addr: u64) -> u64 {
    mem.read_obj::<u64>(GuestAddress(addr)).unwrap()
}

fn vcpu(id: u8) -> Vcpu<&'static str> {
    let evt = EventFd::new(0, Ok(0x77)).unwrap();
    Vcpu::new_x86_64(id, 0x1234, "pio", evt, Ok(())).unwrap()
}

fn config() -> VcpuConfig<u8> {
    VcpuConfig { vcpu_count: 1, ht_enabled: false, cpu_template: None }
}

fn vm(handle: isize) -> Vm {
    let setup = VmSetup::SetupPartition { partition: handle };
    match setup.advance(Ok(0)) {
        Ok(VmProgress::Ready(vm)) => vm,
        _ => panic!("not ready"),
    }
}

fn reg64(name: RegisterName, value: u64) -> RegisterWrite {
    RegisterWrite { name, value: RegisterValue::Reg64(value) }
}

#[test]
fn gdt_entry_values() {
    assert_eq!(gdt_entry(0, 0, 0), 0);
    assert_eq!(gdt_entry(0xa09b, 0, 0xfffff), 0x00af_9b00_0000_ffff);
    assert_eq!(gdt_entry(0xc093, 0, 0xfffff), 0x00cf_9300_0000_ffff);
    assert_eq!(gdt_entry(0x808b, 0, 0xfffff), 0x008f_8b00_0000_ffff);
    assert_eq!(gdt_entry(0xffff, 0xffff_ffff, 0xffff_ffff), u64::MAX);
    assert_eq!(gdt_entry(0, 0x1234_5678, 0), 0x1200_0034_5678_0000);
    // Bits 8 to 11 of the flags and the high bits of the limit have no place in a descriptor.
    assert_eq!(gdt_entry(0x0f00, 0, 0xfff0_0000), 0);
}

#[test]
fn segment_from_descriptor() {
    assert_eq!(
        whp_segment_from_gdt(0x00af_9b00_0000_ffff, 1),
        SegmentRegister { base: 0, limit: 0xfffff, selector: 8, attributes: 0xa9b }
    );
    assert_eq!(
        whp_segment_from_gdt(0x1200_0034_5678_0000, 255),
        SegmentRegister { base: 0x1234_5678, limit: 0, selector: 2040, attributes: 0 }
    );
    assert_eq!(
        whp_segment_from_gdt(u64::MAX, 0),
        SegmentRegister { base: 0xffff_ffff, limit: 0xfffff, selector: 0, attributes: 0xfff }
    );
}

#[test]
fn segment_attribute_bits() {
    // type, S, DPL, P, AVL, L, D/B and G, one after the other
    for (descriptor_bit, attribute_bit) in
        [(40, 0), (43, 3), (44, 4), (45, 5), (46, 6), (47, 7), (52, 8), (53, 9), (54, 10), (55, 11)]
    {
        let segment = whp_segment_from_gdt(1u64 << descriptor_bit, 0);
        assert_eq!(segment.attributes, 1u16 << attribute_bit);
        assert_eq!((segment.base, segment.limit), (0, 0));
    }
}

#[test]
fn segment_gives_back_what_the_descriptor_was_made_of() {
    let segment = whp_segment_from_gdt(gdt_entry(0xd0fa, 0xdead_beef, 0xabcd_ef01), 3);
    assert_eq!(
        segment,
        SegmentRegister {
            base: 0xdead_beef,
            limit: 0xd_ef01,
            selector: 24,
            attributes: 0xdfa,
        }
    );
}

#[test]
fn page_tables_in_memory() {
    let mut mem = memory(&[(0, 0x10_0000)]);
    assert!(setup_page_tables(&mut mem).is_ok());
    assert_eq!(word(&mem, 0x9000), 0xa003);
    assert_eq!(word(&mem, 0xa000), 0xb003);
    for i in 0..512u64 {
        assert_eq!(word(&mem, 0xb000 + i * 8), i * 0x20_0000 + 0x83);
    }
    // Nothing around the tables has changed.
    assert_eq!(word(&mem, 0x8ff8), 0);
    assert_eq!(word(&mem, 0x9008), 0);
    assert_eq!(word(&mem, 0xa008), 0);
    assert_eq!(word(&mem, 0xc000), 0);
}

#[test]
fn page_tables_write_bytes_in_little_endian_order() {
    let mut mem = memory(&[(0, 0x10_0000)]);
    setup_page_tables(&mut mem).unwrap();
    let mut bytes = [0u8; 8];
    mem.read_slice(&mut bytes, GuestAddress(0x9000)).unwrap();
    assert_eq!(bytes, [0x03, 0xa0, 0, 0, 0, 0, 0, 0]);
}

fn walk(mem: &GuestMemoryMmap<()>, cr3: u64, va: u64) -> Option<u64> {
    let frame = |entry: u64| entry & 0x000f_ffff_ffff_f000;
    let top = word(mem, frame(cr3) + (va >> 39 & 511) * 8);
    if top & 1 == 0 {
        return None;
    }
    let upper = word(mem, frame(top) + (va >> 30 & 511) * 8);
    if upper & 1 == 0 {
        return None;
    }
    let dir = word(mem, frame(upper) + (va >> 21 & 511) * 8);
    if dir & 0x81 != 0x81 {
        return None;
    }
    Some((dir & 0x000f_ffff_ffe0_0000) + (va & 0x1f_ffff))
}

#[test]
fn first_gigabyte_is_mapped_to_itself() {
    let mut mem = memory(&[(0, 0x10_0000)]);
    setup_page_tables(&mut mem).unwrap();
    setup_gdt_idt(&mut mem).unwrap();
    for va in [0, 1, 0x1f_ffff, 0x20_0000, 0x1234_5678, 0x3fff_ffff] {
        assert_eq!(walk(&mem, 0x9000, va), Some(va));
    }
    assert_eq!(walk(&mem, 0x9000, 0x4000_0000), None);
    assert_eq!(walk(&mem, 0x9000, 0x80_0000_0000), None);
}

#[test]
fn page_tables_stop_at_the_first_hole() {
    // The directory starts in memory but runs out of it after two and a half entries.
    let mut mem = memory(&[(0x9000, 0x2014)]);
    assert!(matches!(
        setup_page_tables(&mut mem),
        Err(Error::WhpError(OsError { code: 0 }))
    ));
    assert_eq!(word(&mem, 0x9000), 0xa003);
    assert_eq!(word(&mem, 0xb000), 0x83);
    assert_eq!(word(&mem, 0xb008), 0x20_0083);
    let mut half = [0u8; 4];
    mem.read_slice(&mut half, GuestAddress(0xb010)).unwrap();
    assert_eq!(half, [0x83, 0, 0x40, 0]);
}

#[test]
fn page_tables_cross_adjoining_regions() {
    let mut mem = memory(&[(0x9000, 0x2004), (0xb004, 0xffc)]);
    assert!(setup_page_tables(&mut mem).is_ok());
    assert_eq!(word(&mem, 0xb000), 0x83);
    assert_eq!(word(&mem, 0xb000 + 511 * 8), 0x3fe0_0083);
}

#[test]
fn page_tables_need_memory() {
    let mut mem = memory(&[(0x1_0000, 0x1000)]);
    assert!(matches!(setup_page_tables(&mut mem), Err(Error::WhpError(OsError { code: 0 }))));
    assert!(matches!(setup_gdt_idt(&mut mem), Err(Error::WhpError(OsError { code: 0 }))));
}

#[test]
fn gdt_and_idt_in_memory() {
    let mut mem = memory(&[(0, 0x1000)]);
    mem.write_obj(0xffff_ffff_ffff_ffffu64, GuestAddress(0x520)).unwrap();
    mem.write_obj(0x5555u64, GuestAddress(0x528)).unwrap();
    assert!(setup_gdt_idt(&mut mem).is_ok());
    assert_eq!(word(&mem, 0x500), 0);
    assert_eq!(word(&mem, 0x508), 0x00af_9b00_0000_ffff);
    assert_eq!(word(&mem, 0x510), 0x00cf_9300_0000_ffff);
    assert_eq!(word(&mem, 0x518), 0x008f_8b00_0000_ffff);
    assert_eq!(word(&mem, 0x520), 0);
    assert_eq!(word(&mem, 0x528), 0x5555);
}

#[test]
fn sregs_values() {
    let segment = |name, selector, attributes| RegisterWrite {
        name,
        value: RegisterValue::Segment(SegmentRegister {
            base: 0,
            limit: 0xfffff,
            selector,
            attributes,
        }),
    };
    let table = |name, limit, base| RegisterWrite {
        name,
        value: RegisterValue::Table(TableRegister { limit, base }),
    };
    assert_eq!(
        vcpu(0).setup_sregs().writes,
        vec![
            segment(RegisterName::Cs, 0x8, 0xa9b),
            segment(RegisterName::Ds, 0x10, 0xc93),
            segment(RegisterName::Es, 0x10, 0xc93),
            segment(RegisterName::Fs, 0x10, 0xc93),
            segment(RegisterName::Gs, 0x10, 0xc93),
            segment(RegisterName::Ss, 0x10, 0xc93),
            segment(RegisterName::Tr, 0x18, 0x88b),
            table(RegisterName::Gdtr, 31, 0x500),
            table(RegisterName::Idtr, 7, 0x520),
            reg64(RegisterName::Cr0, 0x8000_0001),
            reg64(RegisterName::Cr3, 0x9000),
            reg64(RegisterName::Cr4, 0x20),
            reg64(RegisterName::Efer, 0x500),
        ]
    );
}

#[test]
fn segments_match_the_gdt_in_memory() {
    let mut mem = memory(&[(0, 0x1000)]);
    setup_gdt_idt(&mut mem).unwrap();
    for write in vcpu(0).setup_sregs().writes {
        if let RegisterValue::Segment(segment) = write.value {
            let entry = word(&mem, 0x500 + segment.selector as u64);
            assert_eq!(whp_segment_from_gdt(entry, (segment.selector / 8) as u8), segment);
        }
    }
}

#[test]
fn regs_values() {
    assert_eq!(
        vcpu(0).setup_regs(0xffff_ffff_8100_0000).writes,
        vec![
            reg64(RegisterName::Rip, 0xffff_ffff_8100_0000),
            reg64(RegisterName::Rsp, 0x8ff0),
            reg64(RegisterName::Rbp, 0x8ff0),
            reg64(RegisterName::Rsi, 0x7000),
            reg64(RegisterName::Rflags, 2),
        ]
    );
}

#[test]
fn fpu_values() {
    assert_eq!(
        vcpu(0).setup_fpu().writes,
        vec![
            RegisterWrite {
                name: RegisterName::FpControlStatus,
                value: RegisterValue::FpControl(0x37f),
            },
            RegisterWrite {
                name: RegisterName::XmmControlStatus,
                value: RegisterValue::XmmStatusControl(0x1f80),
            },
        ]
    );
}

#[test]
fn msrs_values() {
    assert_eq!(
        vcpu(0).setup_msrs().writes,
        vec![
            reg64(RegisterName::Tsc, 0),
            reg64(RegisterName::SysenterCs, 0),
            reg64(RegisterName::SysenterEsp, 0),
            reg64(RegisterName::SysenterEip, 0),
            reg64(RegisterName::Star, 0),
            reg64(RegisterName::Lstar, 0),
            reg64(RegisterName::Cstar, 0),
            reg64(RegisterName::Sfmask, 0),
            reg64(RegisterName::KernelGsBase, 0),
            reg64(RegisterName::MsrMtrrDefType, 0x806),
        ]
    );
}

#[test]
fn first_processor_writes_the_tables() {
    let mut mem = memory(&[(0, 0x10_0000)]);
    let vcpu = vcpu(0);
    let batches = vcpu.configure_x86_64(&mut mem, 0x100_0000, &config()).unwrap();
    assert_eq!(
        batches,
        vec![
            vcpu.setup_sregs(),
            vcpu.setup_regs(0x100_0000),
            vcpu.setup_fpu(),
            vcpu.setup_msrs(),
        ]
    );
    assert_eq!(word(&mem, 0x9000), 0xa003);
    assert_eq!(word(&mem, 0x508), 0x00af_9b00_0000_ffff);
}

#[test]
fn registers_are_set_on_the_processor_itself() {
    let mut mem = memory(&[(0, 0x10_0000)]);
    let batches = vcpu(9).configure_x86_64(&mut mem, 0, &config()).unwrap();
    assert_eq!(batches.len(), 4);
    for call in batches {
        assert_eq!((call.partition, call.vp_index), (0x1234, 9));
    }
    let writes = vec![reg64(RegisterName::Cr3, 1), reg64(RegisterName::Rsp, 2)];
    assert_eq!(
        vcpu(255).register_call(writes.clone()),
        RegisterCall { partition: 0x1234, vp_index: 255, writes }
    );
}

#[test]
fn other_processors_leave_memory_alone() {
    let mut mem = memory(&[(0, 0x10_0000)]);
    let batches = vcpu(1).configure_x86_64(&mut mem, 0x200_0000, &config()).unwrap();
    assert_eq!(batches[1], vcpu(1).setup_regs(0x200_0000));
    assert_eq!(word(&mem, 0x9000), 0);
    assert_eq!(word(&mem, 0x508), 0);
    // They do not even need it.
    let mut small = memory(&[(0x1_0000, 0x1000)]);
    assert!(vcpu(1).configure_x86_64(&mut small, 0, &config()).is_ok());
    assert!(matches!(
        vcpu(0).configure_x86_64(&mut small, 0, &config()),
        Err(Error::WhpError(OsError { code: 0 }))
    ));
}

#[test]
fn page_tables_are_written_before_the_gdt() {
    // Room for the page tables only.
    let mut mem = memory(&[(0x9000, 0x3000)]);
    assert!(vcpu(0).configure_x86_64(&mut mem, 0, &config()).is_err());
    assert_eq!(word(&mem, 0xb000 + 511 * 8), 0x3fe0_0083);
    // Room for the GDT only: it is never reached.
    let mut mem = memory(&[(0, 0x1000)]);
    assert!(vcpu(0).configure_x86_64(&mut mem, 0, &config()).is_err());
    assert_eq!(word(&mem, 0x508), 0);
}

#[test]
fn registers_set_outcome() {
    assert!(matches!(Vcpu::<u8>::registers_set(2, Ok(())), Ok(3)));
    assert!(matches!(
        Vcpu::<u8>::registers_set(2, Err(OsError { code: -5 })),
        Err(Error::REGSConfiguration(OsError { code: -5 }))
    ));
}

#[test]
fn configuration_ends_at_the_first_failure() {
    let mut mem = memory(&[(0, 0x10_0000)]);
    let batches = vcpu(1).configure_x86_64(&mut mem, 0, &config()).unwrap();
    let outcomes = [Ok(()), Ok(()), Err(OsError { code: 4 }), Err(OsError { code: 5 })];
    let mut tried = 0;
    let mut set = 0;
    let mut result = Ok(());
    while set < batches.len() {
        tried += 1;
        match Vcpu::<u8>::registers_set(set, outcomes[set]) {
            Ok(now) => set = now,
            Err(e) => {
                result = Err(e);
                break;
            }
        }
    }
    assert_eq!((tried, set), (3, 2));
    assert!(matches!(result, Err(Error::REGSConfiguration(OsError { code: 4 }))));
}

#[test]
fn regions_are_mapped_in_order() {
    let mem = memory(&[(0, 0x4000), (0x10_0000, 0x2000), (0x1_0000_0000, 0x1000)]);
    assert!(has_nonempty_regions(&mem));
    let ranges = vm(42).memory_init(&mem);
    let plain: Vec<(isize, u64, u64, i32)> =
        ranges.iter().map(|r| (r.partition, r.guest_addr, r.size, r.flags)).collect();
    assert_eq!(
        plain,
        vec![(42, 0, 0x4000, 7), (42, 0x10_0000, 0x2000, 7), (42, 0x1_0000_0000, 0x1000, 7)]
    );
    for range in ranges {
        let host = mem.get_host_address(GuestAddress(range.guest_addr)).unwrap();
        assert_eq!(range.host_addr, host as usize);
    }
}

#[test]
fn range_of_a_mapping() {
    let range = vm(3).gpa_range(0x7000_0000, 0x1000, 0x2000);
    assert_eq!(
        range,
        GpaRange {
            partition: 3,
            host_addr: 0x7000_0000,
            guest_addr: 0x1000,
            size: 0x2000,
            flags: 7,
        }
    );
}

#[test]
fn no_memory_has_no_ranges() {
    let mem = GuestMemoryMmap::<()>::new();
    assert!(has_nonempty_regions(&mem));
    assert!(vm(1).memory_init(&mem).is_empty());
}

#[test]
fn range_mapped_outcome() {
    assert!(matches!(Vm::range_mapped(0, Ok(())), Ok(1)));
    assert!(matches!(
        Vm::range_mapped(7, Err(OsError { code: 9 })),
        Err(Error::SetUserMemoryRegion(OsError { code: 9 }))
    ));
}

#[test]
fn mapping_ends_at_the_first_failure() {
    let mem = memory(&[(0, 0x4000), (0x10_0000, 0x2000), (0x1_0000_0000, 0x1000)]);
    let ranges = vm(42).memory_init(&mem);
    let outcomes = [Ok(()), Err(OsError { code: 4 }), Ok(())];
    let mut tried = Vec::new();
    let mut mapped = 0;
    let mut result = Ok(());
    while mapped < ranges.len() {
        tried.push(ranges[mapped].guest_addr);
        match Vm::range_mapped(mapped, outcomes[mapped]) {
            Ok(now) => mapped = now,
            Err(e) => {
                result = Err(e);
                break;
            }
        }
    }
    assert_eq!(tried, vec![0, 0x10_0000]);
    assert_eq!(mapped, 1);
    assert!(matches!(result, Err(Error::SetUserMemoryRegion(OsError { code: 4 }))));
}

#[test]
fn vm_setup_takes_three_calls() {
    let first = Vm::new(true);
    assert_eq!(first, VmSetup::CreatePartition);
    let second = match first.advance(Ok(99)) {
        Ok(VmProgress::Call(call)) => call,
        _ => panic!("no second call"),
    };
    assert_eq!(second, VmSetup::SetProcessorCount { partition: 99, count: 1 });
    let third = match second.advance(Ok(0)) {
        Ok(VmProgress::Call(call)) => call,
        _ => panic!("no third call"),
    };
    assert_eq!(third, VmSetup::SetupPartition { partition: 99 });
    match third.advance(Ok(0)) {
        Ok(VmProgress::Ready(vm)) => assert_eq!(vm.partition_handle(), 99),
        _ => panic!("not ready"),
    }
}

#[test]
fn vm_setup_ends_at_a_failure() {
    for call in [
        VmSetup::CreatePartition,
        VmSetup::SetProcessorCount { partition: 1, count: 1 },
        VmSetup::SetupPartition { partition: 1 },
    ] {
        assert!(matches!(
            call.advance(Err(OsError { code: 3 })),
            Err(Error::VmSetup(OsError { code: 3 }))
        ));
    }
}
