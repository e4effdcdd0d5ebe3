use rust_kernel::apic::{
    has_local_apic, local_apic_id, send_EOI, set_task_priority, setup_PIT_interrupt,
    setup_interrupt_redirection, setup_keyboard_interrupt, ticks_elapsed, RegisterWrite,
};
use rust_kernel::console::console_bytes;
use rust_kernel::keyboard::{keycode_to_char, parse_scancode, pop_input, scancode_to_char, KeyCode, ScanCode};
use rust_kernel::loader::{load_init_elf, plan_load, segment_pages, LoadError, ProgramSegment};
use rust_kernel::pic::{eoi_ports, mask_location, with_mask_bit};
use rust_kernel::pit::{hz_to_pit_value, reload_bytes, SleepError, SleepTimer};
use rust_kernel::rsdt::{ACPISTDHeader, RSDP_t, MADT, RSDT};
use rust_kernel::ustar::{
    find_header, is_valid_header, parse_file, parse_header, parse_name, parse_octal_size, FileType, Header,
    UstarDriver,
};
use rust_kernel::vfs::{headers_to_fs, Error, Inode, PathBuf};

fn tar_header(name: &str, size_field: &[u8], type_byte: u8) -> Vec<u8> {
    let mut b = vec![0u8; 512];
    b[..name.len()].copy_from_slice(name.as_bytes());
    b[124..124 + size_field.len()].copy_from_slice(size_field);
    b[156] = type_byte;
    b[257..262].copy_from_slice(b"ustar");
    b
}

fn archive() -> Vec<u8> {
    let mut data = tar_header("bin/", b"00000000000\0", b'5');
    data.extend(tar_header("bin/init.elf", b"00000000012\0", b'0'));
    let mut contents = vec![0u8; 512];
    contents[..10].copy_from_slice(b"0123456789");
    data.extend(contents);
    data.extend(tar_header("notes", b"00000001001\0", 0));
    data.extend(vec![7u8; 1024]);
    data.extend(vec![0u8; 1024]);
    data
}

#[test]
fn octal_size_field() {
    assert_eq!(parse_octal_size(b"00000000012\0"), 10);
    assert_eq!(parse_octal_size(b"777\0xxxxxxxx"), 511);
    assert_eq!(parse_octal_size(b"000000001000"), 512);
    assert_eq!(parse_octal_size(b"\0\0\0\0\0\0\0\0\0\0\0\0"), 0);
}

#[test]
fn name_field() {
    let mut b = vec![0u8; 100];
    b[..8].copy_from_slice(b"init.elf");
    assert_eq!(parse_name(&b), "init.elf");
    let full = vec![b'a'; 120];
    assert_eq!(parse_name(&full).len(), 100);
}

#[test]
fn magic_check() {
    assert!(is_valid_header(b"ustar"));
    assert!(!is_valid_header(b"ustaR"));
}

#[test]
fn header_block() {
    let data = archive();
    let h = parse_header(&data, 512).unwrap();
    assert_eq!(h.name, "bin/init.elf");
    assert_eq!(h.size, 10);
    assert_eq!(h.file_type, FileType::RegularFile);
    assert_eq!(h.start_addr, 1024);
    assert!(h.is_readable());
    let d = parse_header(&data, 0).unwrap();
    assert_eq!(d.file_type, FileType::Folder);
    assert!(!d.is_readable());
    assert!(parse_header(&data, 100).is_none());
    assert!(parse_header(&data, data.len() - 100).is_none());
    assert!(parse_header(&data, data.len() - 261).is_none());
}

#[test]
fn short_fields_ending_in_nul() {
    assert_eq!(parse_octal_size(b"17\0"), 15);
    assert_eq!(parse_octal_size(b"\0"), 0);
    assert_eq!(parse_name(b"init\0"), "init");
    assert_eq!(parse_name(b"\0"), "");
}

#[test]
fn header_block_cut_after_magic() {
    let data = tar_header("init.elf", b"00000000012\0", b'0');
    let cut = &data[..262];
    let h = parse_header(cut, 0).unwrap();
    assert_eq!(h.name, "init.elf");
    assert_eq!(h.size, 10);
    assert_eq!(h.start_addr, 512);
    assert!(parse_header(&data[..261], 0).is_none());
    let headers = parse_file(cut);
    assert_eq!(headers.len(), 1);
}

#[test]
fn header_with_bad_size_field_is_rejected() {
    let data = tar_header("x", b"12 \0", b'0');
    assert!(parse_header(&data, 0).is_none());
}

#[test]
fn whole_archive() {
    let data = archive();
    let headers = parse_file(&data);
    assert_eq!(headers.len(), 3);
    assert_eq!(headers[0].name, "bin/");
    assert_eq!(headers[1].name, "bin/init.elf");
    assert_eq!(headers[2].name, "notes");
    assert_eq!(headers[2].size, 513);
    assert_eq!(headers[2].start_addr, 2048);
    assert_eq!(headers[2].file_type, FileType::RegularFile);
    assert!(parse_file(&[]).is_empty());
}

#[test]
fn driver_headers() {
    let data = archive();
    let mut driver = UstarDriver::new(data.clone());
    let mut headers = parse_file(&data);
    driver.insert_header(3, headers.remove(1));
    assert_eq!(driver.get_header(3).unwrap().size, 10);
    assert_eq!(driver.get_header(4).err(), Some(Error::NotFound));
}

#[test]
fn paths() {
    let mut p = PathBuf::parse("bin/tools/init.elf");
    assert!(!p.is_empty());
    assert!(!p.is_basename());
    assert_eq!(p.split_first_component(), Some("bin".to_string()));
    assert_eq!(p.split_first_component(), Some("tools".to_string()));
    assert!(p.is_basename());
    assert_eq!(p.split_first_component(), Some("init.elf".to_string()));
    assert!(p.is_empty());
    assert_eq!(p.split_first_component(), None);
    assert!(PathBuf::parse("").is_empty());
    let mut q = PathBuf::parse("a//b/");
    assert_eq!(q.split_first_component(), Some("a".to_string()));
    assert_eq!(q.split_first_component(), Some("/b".to_string()));
    assert!(q.is_empty());
}

#[test]
fn scancodes() {
    assert_eq!(parse_scancode(0x10), ScanCode::Pressed(KeyCode::A));
    assert_eq!(parse_scancode(0x90), ScanCode::Released(KeyCode::A));
    assert_eq!(parse_scancode(0x31), ScanCode::Pressed(KeyCode::N));
    assert_eq!(parse_scancode(0x05), ScanCode::Pressed(KeyCode::Unknown(0x05)));
    assert_eq!(parse_scancode(0xFF), ScanCode::Released(KeyCode::Unknown(0x7F)));
    assert_eq!(keycode_to_char(KeyCode::Z), 'z');
    assert_eq!(keycode_to_char(KeyCode::Unknown(3)), '?');
    assert_eq!(scancode_to_char(parse_scancode(0x11)), Some('z'));
    assert_eq!(scancode_to_char(parse_scancode(0x91)), None);
}

#[test]
fn input_buffer_fifo() {
    let mut b = rust_kernel::keyboard::init();
    assert_eq!(pop_input(&mut b), None);
    rust_kernel::keyboard::push_input(&mut b, 5);
    rust_kernel::keyboard::push_input(&mut b, 6);
    assert_eq!(pop_input(&mut b), Some(5));
    assert_eq!(pop_input(&mut b), Some(6));
    assert_eq!(pop_input(&mut b), None);
}

fn header_bytes(sig: &[u8; 4], length: u32) -> Vec<u8> {
    let mut b = vec![0u8; 36];
    b[..4].copy_from_slice(sig);
    b[4..8].copy_from_slice(&length.to_le_bytes());
    b[8] = 1;
    b[10..16].copy_from_slice(b"OEMID ");
    b
}

fn madt_bytes() -> Vec<u8> {
    let length: u32 = 44 + 12 + 10 + 10;
    let mut t = header_bytes(b"APIC", length);
    t.extend([0u8; 8]);
    // I/O APIC: id 0, address 0xFEC00000, GSI base 0
    t.extend([1u8, 12, 0, 0, 0x00, 0x00, 0xC0, 0xFE, 0, 0, 0, 0]);
    // override: bus 0, irq 0 -> GSI 2, flags 0
    t.extend([2u8, 10, 0, 0, 2, 0, 0, 0, 0, 0]);
    // override: bus 0, irq 9 -> GSI 9, flags 0x000D
    t.extend([2u8, 10, 0, 9, 9, 0, 0, 0, 0x0D, 0]);
    t
}

#[test]
fn acpi_header_fields() {
    let h = ACPISTDHeader::from_bytes(&header_bytes(b"APIC", 0x76)).unwrap();
    assert_eq!(h.get_signature(), *b"APIC");
    assert_eq!(h.get_signature_as_str(), "APIC");
    assert!(h.is_table(b"APIC"));
    assert!(!h.is_table(b"FACP"));
    assert!(!h.is_table(b"API"));
    assert_eq!(h.length, 0x76);
    assert_eq!(h.revision, 1);
    assert!(ACPISTDHeader::from_bytes(&[0u8; 35]).is_none());
}

#[test]
fn rsdp_and_rsdt() {
    let mut b = vec![0u8; 20];
    b[..8].copy_from_slice(b"RSD PTR ");
    b[16..20].copy_from_slice(&0x7FE1_234u32.to_le_bytes());
    let p = RSDP_t::from_bytes(&b).unwrap();
    assert_eq!(p.get_rsdt_addr(), Some(0x7FE1_234));
    b[15] = 2;
    assert_eq!(RSDP_t::from_bytes(&b).unwrap().get_rsdt_addr(), None);
    assert!(RSDP_t::from_bytes(&b[..19]).is_none());

    let rh = ACPISTDHeader::from_bytes(&header_bytes(b"RSDT", 36 + 8)).unwrap();
    assert_eq!(RSDT::count_entries(&rh), Some(2));
    let facp = ACPISTDHeader::from_bytes(&header_bytes(b"FACP", 36)).unwrap();
    let apic = ACPISTDHeader::from_bytes(&header_bytes(b"APIC", 76)).unwrap();
    let rsdt = RSDT { header: rh, base_addr: 0x1000, entry_count: 2, entries: vec![(0x2000, facp), (0x3000, apic)] };
    assert_eq!(rsdt.len(), 2);
    let mut entry_bytes = Vec::new();
    entry_bytes.extend(0x2000u32.to_le_bytes());
    entry_bytes.extend(0x3000u32.to_le_bytes());
    assert_eq!(rsdt.get_entries_addr(&entry_bytes), vec![0x2000, 0x3000]);
    assert_eq!(rsdt.find_entry(b"APIC").map(|e| e.0), Some(0x3000));
    assert!(rsdt.find_entry(b"HPET").is_none());
    let short = ACPISTDHeader::from_bytes(&header_bytes(b"RSDT", 20)).unwrap();
    assert_eq!(RSDT::count_entries(&short), None);
}

#[test]
fn madt_entries() {
    let t = madt_bytes();
    let h = ACPISTDHeader::from_bytes(&t).unwrap();
    let madt = MADT::from_ptr_and_header(0x3000, h, t);
    assert_eq!(madt.get_entries_offset_with_type(1), vec![44]);
    assert_eq!(madt.get_entries_offset_with_type(2), vec![56, 66]);
    assert_eq!(madt.get_ioapic_addr(), Some(0xFEC0_0000));
    let ovs = madt.get_interrupt_overrides();
    assert_eq!(ovs.len(), 2);
    assert_eq!((ovs[1].irq, ovs[1].GSI, ovs[1].flags), (9, 9, 0x0D));
    assert_eq!(madt.find_override(0), Some(2));
    assert_eq!(madt.find_override(1), None);
    assert_eq!(madt.read_byte(44, 1), 12);
    assert_eq!(madt.read_u16(66, 8), 0x0D);
    assert_eq!(madt.read_u32(44, 4), 0xFEC0_0000);
}

#[test]
fn madt_walk_stops_on_zero_length_record() {
    let mut t = header_bytes(b"APIC", 60);
    t.extend([0u8; 8]);
    t.extend([2u8, 0, 0, 0, 0, 0, 0, 0, 0, 0, 0, 0, 0, 0, 0, 0]);
    let h = ACPISTDHeader::from_bytes(&t).unwrap();
    let madt = MADT::from_ptr_and_header(0, h, t);
    assert!(madt.get_entries_offset_with_type(2).is_empty());
    assert_eq!(madt.get_ioapic_addr(), None);
}

#[test]
fn apic_register_values() {
    assert!(has_local_apic(1 << 9));
    assert!(!has_local_apic(!(1 << 9)));
    assert_eq!(local_apic_id(0x0312_3456), 3);
    assert_eq!(send_EOI(), RegisterWrite { reg: 0xB0, value: 0 });
    assert_eq!(set_task_priority(0, 0x25), RegisterWrite { reg: 0x80, value: 0x05 });
    assert_eq!(set_task_priority(0x1F, 0x03), RegisterWrite { reg: 0x80, value: 0xF3 });
    let (lo, hi) = setup_interrupt_redirection(2, 0x31, 0, true, false, true, true, 5);
    assert_eq!(lo, RegisterWrite { reg: 0x14, value: 0x18831 });
    assert_eq!(hi, RegisterWrite { reg: 0x15, value: 0x0500_0000 });
    assert_eq!(ticks_elapsed(0xFFFF_0000), 0xFFFF);
}

#[test]
fn isa_interrupt_routing() {
    let t = madt_bytes();
    let h = ACPISTDHeader::from_bytes(&t).unwrap();
    let madt = MADT::from_ptr_and_header(0x3000, h, t);
    let (lo, hi) = setup_PIT_interrupt(&madt).unwrap();
    assert_eq!(lo, RegisterWrite { reg: 0x14, value: 0x30 });
    assert_eq!(hi, RegisterWrite { reg: 0x15, value: 0 });
    let (lo, _) = setup_keyboard_interrupt(&madt).unwrap();
    assert_eq!(lo, RegisterWrite { reg: 0x12, value: 0x31 });
}

#[test]
fn pit_values() {
    assert_eq!(hz_to_pit_value(1000), 1193);
    assert_eq!(hz_to_pit_value(18), 751);
    assert_eq!(reload_bytes(0x1234), (0x30, 0x34, 0x12));
}

#[test]
fn sleep_timer() {
    let mut t = SleepTimer::new();
    assert_eq!(t.prepare_sleep(3), Ok(()));
    t.update_sleep();
    assert_eq!(t.sleep_count, 3);
    t.begin_sleep();
    assert_eq!(t.prepare_sleep(5), Err(SleepError::AlreadySleeping));
    t.update_sleep();
    t.update_sleep();
    assert!(!t.is_done());
    t.update_sleep();
    assert!(t.is_done());
    t.update_sleep();
    assert_eq!(t.sleep_count, 0);
    t.end_sleep();
    assert_eq!(t.prepare_sleep(5), Ok(()));
}

#[test]
fn console_keeps_ascii_only() {
    assert_eq!(console_bytes("h\u{e9}llo\n"), b"hllo\n".to_vec());
    assert!(console_bytes("").is_empty());
}

#[test]
fn pic_helpers() {
    assert_eq!(mask_location(3), (0x21, 3));
    assert_eq!(mask_location(10), (0xA1, 2));
    assert_eq!(with_mask_bit(0, 3, true), 8);
    assert_eq!(with_mask_bit(0xFF, 0, false), 0xFE);
    assert_eq!(eoi_ports(0x28), (Some(0xA0), 0x20));
    assert_eq!(eoi_ports(0x21), (None, 0x20));
}

#[test]
fn load_layout() {
    let segs = vec![
        ProgramSegment { p_type: 1, p_offset: 0, p_vaddr: 0x400000, p_filesz: 0x100, p_memsz: 0x1800 },
        ProgramSegment { p_type: 4, p_offset: 0, p_vaddr: 0x900000, p_filesz: 0, p_memsz: 0x10 },
        ProgramSegment { p_type: 1, p_offset: 0x1000, p_vaddr: 0x401100, p_filesz: 0x10, p_memsz: 0x10 },
    ];
    let plan = plan_load(0x401000, &segs).unwrap();
    assert_eq!(plan.entry, 0x401000);
    assert_eq!(plan.segments.len(), 2);
    assert_eq!(plan.stack_start, 0x402000);
    assert_eq!(plan.stack_pointer, 0x403FF0);
    assert_eq!(plan.heap_start, 0x405000);
    assert_eq!(plan.heap_len, 65536);
    assert_eq!(segment_pages(4097), 2);
    assert_eq!(segment_pages(4096), 1);
    assert_eq!(segment_pages(0), 0);
    let far = vec![ProgramSegment { p_type: 1, p_offset: 0, p_vaddr: u64::MAX - 4095, p_filesz: 0, p_memsz: 10 }];
    assert_eq!(plan_load(0, &far).err(), Some(LoadError::AddressOverflow));
}

#[test]
fn load_rejects_non_elf() {
    assert_eq!(load_init_elf(b"not an elf image").err(), Some(LoadError::Malformed));
}

#[test]
fn load_reads_minimal_elf() {
    // 64-bit little-endian executable with one PT_LOAD program header
    let mut e = vec![0u8; 64 + 56];
    e[..4].copy_from_slice(b"\x7fELF");
    e[4] = 2;
    e[5] = 1;
    e[6] = 1;
    e[16..18].copy_from_slice(&2u16.to_le_bytes());
    e[18..20].copy_from_slice(&0x3Eu16.to_le_bytes());
    e[20..24].copy_from_slice(&1u32.to_le_bytes());
    e[24..32].copy_from_slice(&0x401000u64.to_le_bytes());
    e[32..40].copy_from_slice(&64u64.to_le_bytes());
    e[52..54].copy_from_slice(&64u16.to_le_bytes());
    e[54..56].copy_from_slice(&56u16.to_le_bytes());
    e[56..58].copy_from_slice(&1u16.to_le_bytes());
    e[58..60].copy_from_slice(&64u16.to_le_bytes());
    let ph = 64;
    e[ph..ph + 4].copy_from_slice(&1u32.to_le_bytes());
    e[ph + 16..ph + 24].copy_from_slice(&0x400000u64.to_le_bytes());
    e[ph + 32..ph + 40].copy_from_slice(&0x78u64.to_le_bytes());
    e[ph + 40..ph + 48].copy_from_slice(&0x2000u64.to_le_bytes());
    let plan = load_init_elf(&e).unwrap();
    assert_eq!(plan.entry, 0x401000);
    assert_eq!(plan.segments.len(), 1);
    assert_eq!(plan.segments[0].p_memsz, 0x2000);
    assert_eq!(plan.stack_start, 0x402000);
}

#[test]
fn driver_reads_file_contents() {
    let data = archive();
    let mut driver = UstarDriver::new(data.clone());
    for (i, h) in parse_file(&data).into_iter().enumerate() {
        driver.insert_header(i, h);
    }
    assert_eq!(driver.get_size(1), Ok(10));
    assert_eq!(driver.get_size(9), Err(Error::NotFound));
    assert_eq!(driver.read(1, 0, 100), Ok(b"0123456789".to_vec()));
    assert_eq!(driver.read(1, 4, 3), Ok(b"456".to_vec()));
    assert_eq!(driver.read(1, 20, 3), Ok(Vec::new()));
    assert_eq!(driver.read(1, 8, usize::MAX), Ok(b"89".to_vec()));
    assert_eq!(driver.read(0, 0, 1), Err(Error::NotAReadableFile));
    assert_eq!(driver.read(7, 0, 1), Err(Error::NotFound));
}

#[test]
fn driver_refuses_contents_past_archive_end() {
    let data = tar_header("big", b"00000002000\0", b'0');
    let mut driver = UstarDriver::new(data.clone());
    driver.insert_header(0, parse_header(&data, 0).unwrap());
    assert_eq!(driver.read(0, 0, 4), Err(Error::NotAReadableFile));
}

#[test]
fn header_lookup_by_name() {
    let headers = parse_file(&archive());
    assert_eq!(find_header(&headers, "notes"), Some(2));
    assert_eq!(find_header(&headers, "missing"), None);
}

#[test]
fn file_tree_from_archive() {
    let data = archive();
    let fs = headers_to_fs(parse_file(&data), data).unwrap();
    assert_eq!(fs.get_id(), 0);
    let mount = fs.get_mountpoint().unwrap();
    let init = fs.find(PathBuf::parse("bin/init.elf")).unwrap();
    assert_eq!(init.get_size(mount), Ok(10));
    assert_eq!(fs.read(mount, init, 0, 4), Ok(b"0123".to_vec()));
    let notes = fs.find(PathBuf::parse("notes")).unwrap();
    assert_eq!(notes.get_size(mount), Ok(513));
    assert!(fs.find(PathBuf::parse("nope")).is_err());
    assert!(matches!(fs.find(PathBuf::parse("notes/x")), Err(Error::NotAFolder)));
    assert!(matches!(fs.search_in_folder("bin"), Ok(_)));
    assert!(matches!(init.get_mountpoint(), Err(Error::NotAMountpoint)));
}

#[test]
fn file_tree_errors() {
    let mut dup = tar_header("a", b"00000000000\0", b'0');
    dup.extend(tar_header("a", b"00000000000\0", b'0'));
    dup.extend(vec![0u8; 1024]);
    assert!(matches!(headers_to_fs(parse_file(&dup), dup.clone()), Err(Error::FileAlreadyExist)));
    let mut orphan = tar_header("dir/a", b"00000000000\0", b'0');
    orphan.extend(vec![0u8; 1024]);
    assert!(matches!(headers_to_fs(parse_file(&orphan), orphan.clone()), Err(Error::NotFound)));
    let empty: Vec<Header> = Vec::new();
    assert!(headers_to_fs(empty, Vec::new()).is_ok());
}

#[test]
fn folder_insertion() {
    let mut root = Inode::new_folder(0);
    assert_eq!(root.add_to_folder(Inode::new_file(1), "a".to_string()), Ok(()));
    assert_eq!(root.add_to_folder(Inode::new_file(2), "a".to_string()), Err(Error::FileAlreadyExist));
    let mut file = Inode::new_file(3);
    assert_eq!(file.add_to_folder(Inode::new_file(4), "b".to_string()), Err(Error::NotAFolder));
    assert_eq!(root.add_to_folder(Inode::new_folder(5), "d".to_string()), Ok(()));
    let path = vec!["d".to_string()];
    assert_eq!(root.add_at_path(&path, 0, Inode::new_file(6), "x".to_string()), Ok(()));
    assert_eq!(root.find(PathBuf::parse("d/x")).map(|n| n.get_id()), Ok(6));
    assert_eq!(root.find(PathBuf::parse("a")).map(|n| n.get_id()), Ok(1));
}

#[test]
fn mutable_lookups() {
    let data = archive();
    let mut fs = headers_to_fs(parse_file(&data), data).unwrap();
    assert!(fs.get_mountpoint_mut().is_ok());
    let bin = fs.search_in_folder_mut("bin").unwrap();
    assert_eq!(bin.add_to_folder(Inode::new_file(9), "extra".to_string()), Ok(()));
    assert_eq!(fs.find(PathBuf::from("bin/extra")).map(|n| n.get_id()), Ok(9));
    assert!(matches!(fs.search_in_folder_mut("missing"), Err(Error::NotFound)));
    let mut file = Inode::new_file(1);
    assert!(matches!(file.search_in_folder_mut("x"), Err(Error::NotAFolder)));
    assert!(matches!(file.get_mountpoint_mut(), Err(Error::NotAMountpoint)));
    assert!(matches!(fs.search_in_mountpoint("bin"), Err(Error::NotAMountpoint)));
}

#[test]
fn file_tree_numbers_entries_and_skips_other_kinds() {
    let mut data = tar_header("bin/", b"00000000000\0", b'5');
    data.extend(tar_header("link", b"00000000000\0", b'2'));
    data.extend(tar_header("bin/sh", b"00000000000\0", b'0'));
    data.extend(vec![0u8; 1024]);
    let fs = headers_to_fs(parse_file(&data), data).unwrap();
    let mount = fs.get_mountpoint().unwrap();
    assert_eq!(fs.find(PathBuf::from("bin")).map(|n| n.get_id()), Ok(1));
    assert_eq!(fs.find(PathBuf::from("bin/sh")).map(|n| n.get_id()), Ok(2));
    assert!(matches!(fs.find(PathBuf::from("link")), Err(Error::NotFound)));
    assert_eq!(mount.driver.get_header(0).unwrap().name, "");
    assert_eq!(mount.driver.get_header(2).unwrap().name, "bin/sh");
    assert_eq!(mount.driver.get_header(3).err(), Some(Error::NotFound));
}
