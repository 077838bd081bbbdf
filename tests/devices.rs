use kernel_sched::gdt::{GdtEntry, SystemSegmentDescriptor, TaskStateSegment};
use kernel_sched::keyboard::{KeyCode, KeyboardState};
use kernel_sched::memory::{align_up, PhysFrame};
use kernel_sched::pci::{
    bar_register, enumerate_bus, get_bar, get_class_code, get_command_register, get_device_id,
    get_programming_interface, get_revision_id, get_status_register, get_subclass_code,
    get_vendor_id, is_device_present, is_multi_function_device, make_config_address, PciDevice,
};
use kernel_sched::syscall::{dispatch_syscall, SyscallError, SyscallNumber};
use kernel_sched::vfs::OpenFlags;

#[test]
fn gdt_entry_encodes_base_limit_and_flags() {
    let e = GdtEntry::new(0, 0xFFFFF, 0x9A, 0xA0);
    assert_eq!(e.limit_low, 0xFFFF);
    assert_eq!(e.base_low, 0);
    assert_eq!(e.base_middle, 0);
    assert_eq!(e.base_high, 0);
    assert_eq!(e.access, 0x9A);
    assert_eq!(e.granularity, 0xAF);
    let e = GdtEntry::new(0x12345678, 0x000AB, 0x92, 0xCF);
    assert_eq!(e.base_low, 0x5678);
    assert_eq!(e.base_middle, 0x34);
    assert_eq!(e.base_high, 0x12);
    assert_eq!(e.limit_low, 0x00AB);
    assert_eq!(e.granularity, 0xC0);
    let n = GdtEntry::null();
    assert_eq!(n, GdtEntry::new(0, 0, 0, 0));
}

#[test]
fn tss_descriptor_splits_base() {
    let d = SystemSegmentDescriptor::new_tss(0x1122_3344_5566_7788, 0x67);
    assert_eq!(d.limit_low, 0x67);
    assert_eq!(d.base_low, 0x7788);
    assert_eq!(d.base_middle, 0x66);
    assert_eq!(d.base_high, 0x55);
    assert_eq!(d.base_upper, 0x1122_3344);
    assert_eq!(d.access, 0x89);
    assert_eq!(d.granularity, 0);
    assert_eq!(d.reserved, 0);
    assert_eq!(SystemSegmentDescriptor::null().access, 0);
}

#[test]
fn task_state_segment_starts_empty() {
    let t = TaskStateSegment::new();
    assert_eq!(t.rsp0, 0);
    assert_eq!(t.ist1, 0);
    assert_eq!(t.iomap_base, 104);
}

#[test]
fn pci_config_address_layout() {
    assert_eq!(make_config_address(1, 2, 3, 0x10), 0x8102_3010);
    assert_eq!(make_config_address(0, 0, 0, 0), 0x8000_0000);
    assert_eq!(make_config_address(0xFF, 0xFF, 0xFF, 0xFFFF_FFFF), 0xFF1F_7FFF);
    let d = PciDevice { bus: 1, slot: 2, func: 3 };
    assert_eq!(d.register_address(0x0C), 0x8102_300C);
}

#[test]
fn pci_fields_from_registers() {
    assert_eq!(get_vendor_id(Some(0x1234_8086)), Some(0x1234));
    assert_eq!(get_device_id(Some(0x1234_8086)), Some(0x8086));
    assert_eq!(get_vendor_id(None), None);
    assert_eq!(get_class_code(Some(0x0203_0405)), Some(0x03));
    assert_eq!(get_subclass_code(Some(0x0203_0405)), Some(0x04));
    assert_eq!(get_programming_interface(Some(0x0203_0405)), Some(0x03));
    assert_eq!(get_revision_id(Some(0x0203_0405)), Some(0x02));
    assert_eq!(get_command_register(Some(0xABCD_0007)), Some(0x0007));
    assert_eq!(get_status_register(Some(0xABCD_0007)), Some(0xABCD));
    assert_eq!(get_bar(Some(0xFEBF_000C)), Some(0xFEBF_0000));
    assert_eq!(get_bar(None), None);
    assert_eq!(bar_register(0), Some(0x10));
    assert_eq!(bar_register(5), Some(0x24));
    assert_eq!(bar_register(6), None);
}

#[test]
fn pci_presence_and_multi_function() {
    assert!(is_device_present(Some(0x1234_8086)));
    assert!(!is_device_present(Some(0xFFFF)));
    assert!(!is_device_present(Some(0)));
    assert!(!is_device_present(None));
    assert!(is_multi_function_device(Some(0x0080_0000 | 0x80)));
    assert!(!is_multi_function_device(Some(0x7F)));
    assert!(!is_multi_function_device(None));
}

#[test]
fn pci_enumerate_bus_follows_multi_function_chains() {
    let mut ids = vec![0u32; 256];
    let mut headers = vec![0u32; 256];
    ids[0] = 0x1111_8086;
    ids[1] = 0x2222_8086;
    ids[3 * 8] = 0x3333_8086;
    headers[3 * 8] = 0x80;
    ids[3 * 8 + 1] = 0x4444_8086;
    headers[3 * 8 + 1] = 0x80;
    ids[3 * 8 + 3] = 0x5555_8086;
    ids[31 * 8] = 0x6666_8086;
    let found = enumerate_bus(7, &ids, &headers);
    assert_eq!(
        found,
        vec![
            PciDevice { bus: 7, slot: 0, func: 0 },
            PciDevice { bus: 7, slot: 3, func: 0 },
            PciDevice { bus: 7, slot: 3, func: 1 },
            PciDevice { bus: 7, slot: 31, func: 0 },
        ]
    );
    assert!(enumerate_bus(0, &vec![0u32; 256], &vec![0u32; 256]).is_empty());
}

#[test]
fn keyboard_modifiers() {
    let mut k = KeyboardState::new();
    assert!(!k.shift_pressed() && !k.uppercase() && !k.ctrl_pressed() && !k.alt_pressed());
    k.update_modifiers(KeyCode::LeftShift, false);
    assert!(k.shift_pressed());
    assert!(k.uppercase());
    k.update_modifiers(KeyCode::CapsLock, false);
    assert!(!k.uppercase());
    k.update_modifiers(KeyCode::CapsLock, true);
    assert!(!k.uppercase());
    k.update_modifiers(KeyCode::LeftShift, true);
    assert!(k.uppercase());
    k.update_modifiers(KeyCode::RightShift, false);
    assert!(k.shift_pressed());
    k.update_modifiers(KeyCode::LeftCtrl, false);
    k.update_modifiers(KeyCode::LeftAlt, false);
    assert!(k.ctrl_pressed() && k.alt_pressed());
    k.update_modifiers(KeyCode::Char(b'a'), false);
    assert!(k.ctrl_pressed());
}

#[test]
fn syscall_numbers() {
    assert_eq!(SyscallNumber::from_u64(0), Some(SyscallNumber::Write));
    assert_eq!(SyscallNumber::from_u64(3), Some(SyscallNumber::GetPid));
    assert_eq!(SyscallNumber::from_u64(5), Some(SyscallNumber::Exec));
    assert_eq!(SyscallNumber::from_u64(6), None);
}

#[test]
fn syscall_dispatch_results() {
    assert_eq!(dispatch_syscall(0, 1, 0x1000, 5, 0, 0, 0), Ok(5));
    assert_eq!(dispatch_syscall(0, 2, 0x1000, 5, 0, 0, 0), Ok(5));
    assert_eq!(dispatch_syscall(0, 1, 0, 5, 0, 0, 0), Ok(0));
    assert_eq!(dispatch_syscall(0, 1, 0x1000, 0, 0, 0, 0), Ok(0));
    assert_eq!(
        dispatch_syscall(0, 0, 0x1000, 5, 0, 0, 0),
        Err(SyscallError::InvalidFileDescriptor)
    );
    assert_eq!(dispatch_syscall(1, 0, 0, 0, 0, 0, 0), Err(SyscallError::NotImplemented));
    assert_eq!(dispatch_syscall(2, 7, 0, 0, 0, 0, 0), Ok(0));
    assert_eq!(dispatch_syscall(3, 0, 0, 0, 0, 0, 0), Ok(1));
    assert_eq!(dispatch_syscall(4, 0, 0, 0, 0, 0, 0), Err(SyscallError::NotImplemented));
    assert_eq!(dispatch_syscall(5, 0, 0, 0, 0, 0, 0), Err(SyscallError::NotImplemented));
    assert_eq!(dispatch_syscall(99, 0, 0, 0, 0, 0, 0), Err(SyscallError::InvalidSyscall));
}

#[test]
fn open_flags() {
    let r = OpenFlags::read_only();
    assert!(r.read && !r.write && !r.append && !r.create && !r.truncate);
    let w = OpenFlags::write_only();
    assert!(!w.read && w.write);
    let rw = OpenFlags::read_write();
    assert!(rw.read && rw.write && !rw.append);
}

#[test]
fn physical_frames() {
    let f = PhysFrame::containing_address(0x5123);
    assert_eq!(f, PhysFrame(5));
    assert_eq!(f.start_address(), 0x5000);
    assert_eq!(PhysFrame::containing_address(0xFFF), PhysFrame(0));
}

#[test]
fn align_up_rounds_to_power_of_two() {
    assert_eq!(align_up(0x1001, 0x1000), 0x2000);
    assert_eq!(align_up(0x2000, 0x1000), 0x2000);
    assert_eq!(align_up(0, 8), 0);
    assert_eq!(align_up(13, 8), 16);
    assert_eq!(align_up(13, 1), 13);
}
