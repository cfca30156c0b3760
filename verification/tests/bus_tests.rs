use riscv_emu::bus::Bus;

fn bus() -> Bus {
    Bus::new(64, 0x8000_0000)
}

#[test]
fn load_store_u8() {
    let mut b = bus();
    b.store(0x8000_0000, 1, 0xAB).unwrap();
    assert_eq!(b.load(0x8000_0000, 1).unwrap(), 0xAB);
}

#[test]
fn load_store_u16_le() {
    let mut b = bus();
    b.store(0x8000_0000, 2, 0x1234).unwrap();
    assert_eq!(b.load(0x8000_0000, 1).unwrap(), 0x34);
    assert_eq!(b.load(0x8000_0001, 1).unwrap(), 0x12);
}

#[test]
fn load_store_u64() {
    let mut b = bus();
    b.store(0x8000_0000, 8, 0xDEADBEEF_CAFEBABE).unwrap();
    assert_eq!(b.load(0x8000_0000, 8).unwrap(), 0xDEADBEEF_CAFEBABE);
}

#[test]
fn out_of_bounds_returns_err() {
    let mut b = bus();
    assert!(b.load(0x0000_0000, 4).is_err());
    assert!(b.load(0x8000_0040, 4).is_err());
}

#[test]
fn store_truncates_to_width() {
    let mut b = bus();
    b.store(0x8000_0008, 4, 0x1122_3344_5566_7788).unwrap();
    assert_eq!(b.load(0x8000_0008, 8).unwrap(), 0x5566_7788);
}

#[test]
fn access_straddling_end_is_refused() {
    let mut b = bus();
    let e = b.store(0x8000_003C, 8, 1).unwrap_err();
    assert_eq!(e.addr, 0x8000_003C);
    assert_eq!(e.width, 8);
    assert!(b.load(0x8000_0038, 8).is_ok());
}

#[test]
fn write_leaves_other_bytes_alone() {
    let mut b = bus();
    b.store(0x8000_0010, 8, u64::MAX).unwrap();
    b.store(0x8000_0012, 2, 0).unwrap();
    assert_eq!(b.load(0x8000_0010, 8).unwrap(), 0xFFFF_FFFF_0000_FFFF);
}

#[test]
fn copy_in_places_bytes() {
    let mut b = bus();
    b.copy_in(4, &[1, 2, 3, 4, 5], 1, 3);
    assert_eq!(b.load(0x8000_0004, 4).unwrap(), 0x0004_0302);
}

#[test]
fn clint_mtime_readable_through_bus() {
    let mut b = bus();
    b.clint.mtime = 12345;
    assert_eq!(b.load(0x0200_BFF8, 8).unwrap(), 12345);
    b.store(0x0200_4000, 8, 99).unwrap();
    assert_eq!(b.clint.mtimecmp, 99);
}

#[test]
fn uart_lsr_returns_0x60() {
    let mut b = bus();
    assert_eq!(b.load(0x1000_0005, 1).unwrap(), 0x60);
}

#[test]
fn plic_claim_reads_zero_after_reset() {
    let mut b = bus();
    assert_eq!(b.load(0x0C20_1004, 4).unwrap(), 0);
}

#[test]
fn uart_output_is_queued_for_the_host() {
    let mut b = bus();
    b.store(0x1000_0000, 1, b'h' as u64).unwrap();
    b.store(0x1000_0000, 1, b'i' as u64).unwrap();
    assert_eq!(b.tx_out, b"hi".to_vec());
}

#[test]
fn virtio_queue_notify_is_remembered() {
    let mut b = bus();
    assert!(!b.virtio_notify);
    b.store(0x1000_1050, 4, 0).unwrap();
    assert!(b.virtio_notify);
}

#[test]
fn virtio_magic_readable_through_bus() {
    let mut b = bus();
    assert_eq!(b.load(0x1000_1000, 4).unwrap(), 0x7472_6976);
}

#[test]
fn gap_between_devices_faults() {
    let mut b = bus();
    assert!(b.load(0x1000_0100, 4).is_err());
    assert!(b.store(0x1000_0100, 4, 1).is_err());
}

#[test]
fn device_and_ram_stores_stay_apart() {
    let mut b = bus();
    b.store(0x8000_0000, 8, 0x1122_3344_5566_7788).unwrap();
    b.store(0x0200_4000, 8, 7).unwrap();
    b.store(0x1000_0000, 1, b'x' as u64).unwrap();
    assert_eq!(b.load(0x8000_0000, 8).unwrap(), 0x1122_3344_5566_7788);
    b.store(0x8000_0008, 8, 5).unwrap();
    assert_eq!(b.clint.mtimecmp, 7);
    assert_eq!(b.tx_out, vec![b'x']);
}

#[test]
fn clint_mtime_readable() {
    let mut b = bus();
    assert_eq!(b.load(0x0200_BFF8, 8).unwrap(), 0);
}

#[test]
fn plic_reads_zero() {
    let mut b = bus();
    assert_eq!(b.load(0x0C00_0000, 4).unwrap(), 0);
}
