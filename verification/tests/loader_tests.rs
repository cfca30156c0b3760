use riscv_emu::bus::Bus;
use riscv_emu::loader::{
    load_elf, load_image, load_raw, ElfImage, ElfSymbol, LoadError, RawLoadError, Segment, RAM_BASE, RAM_SIZE,
};

fn put16(v: &mut Vec<u8>, x: u16) {
    v.extend_from_slice(&x.to_le_bytes());
}
fn put32(v: &mut Vec<u8>, x: u32) {
    v.extend_from_slice(&x.to_le_bytes());
}
fn put64(v: &mut Vec<u8>, x: u64) {
    v.extend_from_slice(&x.to_le_bytes());
}

/// An ELF64 RISC-V file with one PT_LOAD header and `payload` right after the headers.
fn elf64(e_type: u16, entry: u64, paddr: u64, payload: &[u8], filesz: u64) -> Vec<u8> {
    let mut v = vec![0x7f, b'E', b'L', b'F', 2, 1, 1, 0, 0, 0, 0, 0, 0, 0, 0, 0];
    put16(&mut v, e_type);
    put16(&mut v, 0xF3);
    put32(&mut v, 1);
    put64(&mut v, entry);
    put64(&mut v, 64);
    put64(&mut v, 0);
    put32(&mut v, 0);
    put16(&mut v, 64);
    put16(&mut v, 56);
    put16(&mut v, 1);
    put16(&mut v, 64);
    put16(&mut v, 0);
    put16(&mut v, 0);
    assert_eq!(v.len(), 64);
    put32(&mut v, 1);
    put32(&mut v, 5);
    put64(&mut v, 120);
    put64(&mut v, paddr);
    put64(&mut v, paddr);
    put64(&mut v, filesz);
    put64(&mut v, filesz);
    put64(&mut v, 4);
    assert_eq!(v.len(), 120);
    v.extend_from_slice(payload);
    v
}

#[test]
fn ram_size_constant_is_256_mib() {
    assert_eq!(RAM_SIZE, 256 * 1024 * 1024);
}

#[test]
fn load_elf_copies_segment_and_entry() {
    let file = elf64(2, 0x8000_0010, 0x8000_0100, &[0x13, 0x00, 0x00, 0x00, 0xAA], 5);
    let mut l = load_elf(&file).unwrap();
    assert_eq!(l.entry, 0x8000_0010);
    assert_eq!(l.tohost_addr, None);
    assert_eq!(l.bus.load(0x8000_0100, 4).unwrap(), 0x13);
    assert_eq!(l.bus.load(0x8000_0104, 1).unwrap(), 0xAA);
    assert_eq!(l.bus.load(0x8000_0105, 1).unwrap(), 0);
}

#[test]
fn load_elf_relocates_pie() {
    let file = elf64(3, 0x40, 0x200, &[1, 2, 3, 4], 4);
    let mut l = load_elf(&file).unwrap();
    assert_eq!(l.entry, 0x8000_0040);
    assert_eq!(l.bus.load(0x8000_0200, 4).unwrap(), 0x0403_0201);
}

#[test]
fn load_elf_rejects_garbage() {
    assert!(matches!(load_elf(&[1, 2, 3, 4]), Err(LoadError::Parse)));
}

#[test]
fn load_elf_rejects_segment_below_ram() {
    let file = elf64(2, 0, 0x1000, &[1, 2, 3, 4], 4);
    assert!(matches!(load_elf(&file), Err(LoadError::BelowRam { addr: 0x1000 })));
}

#[test]
fn load_elf_rejects_segment_past_file_end() {
    let file = elf64(2, 0, 0x8000_0000, &[1, 2, 3, 4], 400);
    assert!(matches!(load_elf(&file), Err(LoadError::OutOfFile)));
}

#[test]
fn load_elf_rejects_segment_past_ram_end() {
    let file = elf64(2, 0, 0x8FFF_FFFE, &[1, 2, 3, 4], 4);
    assert!(matches!(load_elf(&file), Err(LoadError::ExceedsRam { addr: 0x8FFF_FFFE })));
}

fn image(is_64: bool, e_type: u16, segments: Vec<Segment>, symbols: Vec<ElfSymbol>) -> ElfImage {
    ElfImage { is_64, e_type, entry: 0x100, segments, symbols }
}

#[test]
fn load_image_rejects_elf32() {
    let img = image(false, 2, vec![], vec![]);
    assert!(matches!(load_image(&img, &[]), Err(LoadError::NotElf64)));
}

#[test]
fn load_image_finds_first_tohost() {
    let syms = vec![
        ElfSymbol { name: Some(b"main".to_vec()), value: 1 },
        ElfSymbol { name: None, value: 2 },
        ElfSymbol { name: Some(b"tohost".to_vec()), value: 0x8000_1000 },
        ElfSymbol { name: Some(b"tohost".to_vec()), value: 0x8000_2000 },
    ];
    let img = image(true, 2, vec![], syms);
    let l = load_image(&img, &[]).unwrap();
    assert_eq!(l.tohost_addr, Some(0x8000_1000));
    assert_eq!(l.entry, 0x100);
}

#[test]
fn load_image_skips_non_load_segments() {
    let segs = vec![
        Segment { p_type: 2, p_offset: 0, p_filesz: 4, p_paddr: 0 },
        Segment { p_type: 1, p_offset: 1, p_filesz: 2, p_paddr: RAM_BASE + 8 },
    ];
    let img = image(true, 2, segs, vec![]);
    let mut l = load_image(&img, &[9, 8, 7, 6]).unwrap();
    assert_eq!(l.bus.load(RAM_BASE + 8, 2).unwrap(), 0x0708);
}

#[test]
fn load_image_first_error_wins() {
    let segs = vec![
        Segment { p_type: 1, p_offset: 0, p_filesz: 1, p_paddr: 0x10 },
        Segment { p_type: 1, p_offset: 100, p_filesz: 1, p_paddr: RAM_BASE },
    ];
    let img = image(true, 2, segs, vec![]);
    assert!(matches!(load_image(&img, &[0]), Err(LoadError::BelowRam { addr: 0x10 })));
}

#[test]
fn load_raw_places_the_image() {
    let mut bus = Bus::new(64, RAM_BASE);
    assert_eq!(load_raw(&mut bus, &[1, 2, 3], RAM_BASE + 4).unwrap(), 3);
    assert_eq!(bus.load(RAM_BASE + 4, 4).unwrap(), 0x0003_0201);
}

#[test]
fn load_raw_refuses_an_image_past_ram() {
    let mut bus = Bus::new(64, RAM_BASE);
    let e = load_raw(&mut bus, &[0u8; 8], RAM_BASE + 60).unwrap_err();
    assert_eq!(e, RawLoadError::TooLarge { addr: RAM_BASE + 60, len: 8 });
    assert_eq!(bus.load(RAM_BASE + 56, 8).unwrap(), 0);
    assert!(load_raw(&mut bus, &[0u8; 4], RAM_BASE + 60).is_ok());
}
