use riscv_emu::virtio_blk::{
    r16, r32, r64, request_status, w16, w32, w8, DiskPlan, QueueStep, VirtioBlk, S_IOERR, S_OK,
};

const BASE: u64 = 0x8000_0000;

#[test]
fn ram_helpers_are_little_endian() {
    let mut ram = vec![0u8; 32];
    w32(&mut ram, BASE, BASE + 4, 0x1122_3344);
    assert_eq!(&ram[4..8], &[0x44, 0x33, 0x22, 0x11]);
    w16(&mut ram, BASE, BASE + 8, 0xBEEF);
    w8(&mut ram, BASE, BASE + 10, 0x7F);
    assert_eq!(r16(&ram, BASE, BASE + 8), 0xBEEF);
    assert_eq!(r32(&ram, BASE, BASE + 4), 0x1122_3344);
    assert_eq!(r64(&ram, BASE, BASE + 4), 0x007F_BEEF_1122_3344);
}

#[test]
fn identification_registers() {
    let d = VirtioBlk::new(Some(1024 * 512 + 100));
    assert_eq!(d.load(0x000, 4), 0x7472_6976);
    assert_eq!(d.load(0x004, 4), 2);
    assert_eq!(d.load(0x008, 4), 2);
    assert_eq!(d.load(0x00C, 4), 0x554D_4551);
    assert_eq!(d.load(0x034, 4), 256);
    assert_eq!(d.load(0x100, 4), 1024);
    assert_eq!(d.load(0x104, 4), 0);
    assert_eq!(d.load(0x0FC, 4), 0);
}

#[test]
fn feature_words_follow_the_selector() {
    let mut d = VirtioBlk::new(None);
    assert_eq!(d.load(0x010, 4), 0);
    d.store(0x014, 4, 1);
    assert_eq!(d.load(0x010, 4), 1);
    d.store(0x014, 4, 7);
    assert_eq!(d.load(0x010, 4), 1);
    d.store(0x024, 4, 1);
    d.store(0x020, 4, 0xAA);
    assert_eq!(d.driver_features, [0, 0xAA]);
    d.store(0x024, 4, 5);
    d.store(0x020, 4, 0xBB);
    assert_eq!(d.driver_features, [0, 0xAA]);
}

#[test]
fn queue_num_is_capped_and_notify_is_reported() {
    let mut d = VirtioBlk::new(None);
    d.store(0x038, 4, 1000);
    assert_eq!(d.load(0x038, 4), 256);
    d.store(0x038, 4, 16);
    assert_eq!(d.load(0x038, 4), 16);
    assert!(d.store(0x050, 4, 0));
    assert!(!d.store(0x044, 4, 1));
    assert_eq!(d.load(0x044, 4), 1);
}

#[test]
fn queue_addresses_are_assembled_from_halves() {
    let mut d = VirtioBlk::new(None);
    d.store(0x080, 4, 0x8000_1000);
    d.store(0x084, 4, 0x1);
    d.store(0x090, 4, 0x8000_2000);
    d.store(0x0a0, 4, 0x8000_3000);
    assert_eq!(d.desc_addr, 0x1_8000_1000);
    assert_eq!(d.avail_addr, 0x8000_2000);
    assert_eq!(d.used_addr, 0x8000_3000);
}

#[test]
fn status_zero_resets_the_queue() {
    let mut d = VirtioBlk::new(None);
    d.store(0x044, 4, 1);
    d.store(0x080, 4, 0x8000_1000);
    d.irq_status = 1;
    d.store(0x070, 4, 0xF);
    assert_eq!(d.load(0x070, 4), 0xF);
    assert_eq!(d.desc_addr, 0x8000_1000);
    d.store(0x070, 4, 0);
    assert_eq!(d.queue_ready, 0);
    assert_eq!(d.desc_addr, 0);
    assert_eq!(d.irq_status, 0);
}

#[test]
fn interrupt_ack_clears_bits() {
    let mut d = VirtioBlk::new(None);
    d.irq_status = 3;
    d.store(0x064, 4, 1);
    assert_eq!(d.load(0x060, 4), 2);
}

/// RAM with a descriptor table at +0x000, driver ring at +0x100, device ring at
/// +0x200, a request header at +0x300, a data buffer at +0x400, status at +0x600.
fn setup(req_type: u32, data_flags: u16) -> (VirtioBlk, Vec<u8>) {
    let mut ram = vec![0u8; 0x800];
    let mut d = VirtioBlk::new(Some(512 * 8));
    d.store(0x080, 4, BASE);
    d.store(0x090, 4, BASE + 0x100);
    d.store(0x0a0, 4, BASE + 0x200);
    d.store(0x044, 4, 1);
    // descriptor 0: header
    w32(&mut ram, BASE, BASE, (BASE + 0x300) as u32);
    w32(&mut ram, BASE, BASE + 4, 0);
    w32(&mut ram, BASE, BASE + 8, 16);
    w16(&mut ram, BASE, BASE + 12, 1);
    w16(&mut ram, BASE, BASE + 14, 1);
    // descriptor 1: data
    w32(&mut ram, BASE, BASE + 16, (BASE + 0x400) as u32);
    w32(&mut ram, BASE, BASE + 24, 512);
    w16(&mut ram, BASE, BASE + 28, 1 | data_flags);
    w16(&mut ram, BASE, BASE + 30, 2);
    // descriptor 2: status
    w32(&mut ram, BASE, BASE + 32, (BASE + 0x600) as u32);
    w32(&mut ram, BASE, BASE + 40, 1);
    w16(&mut ram, BASE, BASE + 44, 2);
    // header: type, sector 3
    w32(&mut ram, BASE, BASE + 0x300, req_type);
    w32(&mut ram, BASE, BASE + 0x308, 3);
    // driver ring: idx 1, ring[0] = head 0
    w16(&mut ram, BASE, BASE + 0x102, 1);
    w16(&mut ram, BASE, BASE + 0x104, 0);
    (d, ram)
}

#[test]
fn read_request_is_parsed_and_planned() {
    let (d, ram) = setup(0, 2);
    assert!(d.queue_usable());
    let head = d.pending_head(&ram, BASE).unwrap().unwrap();
    assert_eq!(head, 0);
    let req = d.parse_request(&ram, BASE, head).unwrap().unwrap();
    assert_eq!(req.req_type, 0);
    assert_eq!(req.sector, 3);
    assert_eq!(req.data.len(), 1);
    assert_eq!(req.status_addr, BASE + 0x600);
    match d.plan(&req, ram.len(), BASE) {
        DiskPlan::Read { byte_off, ranges, complete } => {
            assert_eq!(byte_off, 3 * 512);
            assert_eq!(ranges, vec![(0x400, 512)]);
            assert!(complete);
        },
        _ => panic!("expected a read"),
    }
}

#[test]
fn write_request_skips_device_writable_buffers() {
    let (d, ram) = setup(1, 2);
    let req = d.parse_request(&ram, BASE, 0).unwrap().unwrap();
    match d.plan(&req, ram.len(), BASE) {
        DiskPlan::Write { ranges, complete, .. } => {
            assert!(ranges.is_empty());
            assert!(complete);
        },
        _ => panic!("expected a write"),
    }
}

#[test]
fn buffer_outside_ram_makes_the_request_fail() {
    let (d, mut ram) = setup(0, 2);
    w32(&mut ram, BASE, BASE + 16, (BASE + 0x700) as u32);
    let req = d.parse_request(&ram, BASE, 0).unwrap().unwrap();
    let plan = d.plan(&req, ram.len(), BASE);
    match &plan {
        DiskPlan::Read { ranges, complete, .. } => {
            assert!(ranges.is_empty());
            assert!(!complete);
        },
        _ => panic!("expected a read"),
    }
    assert_eq!(request_status(&plan, true), S_IOERR);
}

#[test]
fn flush_and_unknown_and_diskless_requests() {
    let (d, ram) = setup(4, 0);
    let req = d.parse_request(&ram, BASE, 0).unwrap().unwrap();
    let plan = d.plan(&req, ram.len(), BASE);
    assert!(matches!(plan, DiskPlan::Flush));
    assert_eq!(request_status(&plan, false), S_OK);
    let (d, ram) = setup(9, 0);
    let req = d.parse_request(&ram, BASE, 0).unwrap().unwrap();
    assert!(matches!(d.plan(&req, ram.len(), BASE), DiskPlan::Fail));
    let (mut d, ram) = setup(0, 2);
    d.has_disk = false;
    let req = d.parse_request(&ram, BASE, 0).unwrap().unwrap();
    let plan = d.plan(&req, ram.len(), BASE);
    assert!(matches!(plan, DiskPlan::Fail));
    assert_eq!(request_status(&plan, true), S_IOERR);
}

#[test]
fn finishing_a_request_fills_the_used_ring() {
    let (mut d, mut ram) = setup(0, 2);
    d.finish_request(&mut ram, BASE, 0, Some((BASE + 0x600, S_OK))).unwrap();
    assert_eq!(ram[0x600], S_OK);
    assert_eq!(r16(&ram, BASE, BASE + 0x202), 1);
    assert_eq!(r32(&ram, BASE, BASE + 0x204), 0);
    assert_eq!(d.irq_status, 1);
    assert_eq!(d.last_avail_idx, 1);
    assert_eq!(d.pending_head(&ram, BASE).unwrap(), None);
}

#[test]
fn short_chain_is_not_a_request() {
    let (d, mut ram) = setup(0, 2);
    w16(&mut ram, BASE, BASE + 12, 0);
    assert!(d.parse_request(&ram, BASE, 0).unwrap().is_none());
}

#[test]
fn descriptor_outside_ram_is_a_fault() {
    let (mut d, ram) = setup(0, 2);
    d.store(0x080, 4, 0x1000);
    d.store(0x084, 4, 0);
    assert_eq!(d.parse_request(&ram, BASE, 0).unwrap_err().addr, 0x1000);
}

#[test]
fn queue_steps_plan_then_complete_each_request() {
    let (mut d, mut ram) = setup(0, 2);
    let step = d.next_step(&ram, BASE).unwrap();
    match &step {
        QueueStep::Io { head, req, plan } => {
            assert_eq!(*head, 0);
            assert_eq!(req.sector, 3);
            assert!(matches!(plan, DiskPlan::Read { byte_off: 1536, .. }));
        },
        _ => panic!("expected a request with disk work"),
    }
    // the disk transfer failed: the request completes with an I/O error
    d.complete_step(&mut ram, BASE, &step, false).unwrap();
    assert_eq!(ram[0x600], S_IOERR);
    assert_eq!(r16(&ram, BASE, BASE + 0x202), 1);
    assert_eq!(d.last_avail_idx, 1);
    assert!(matches!(d.next_step(&ram, BASE).unwrap(), QueueStep::Idle));
}

#[test]
fn queue_step_completes_a_short_chain_without_status() {
    let (mut d, mut ram) = setup(0, 2);
    w16(&mut ram, BASE, BASE + 12, 0);
    let step = d.next_step(&ram, BASE).unwrap();
    assert!(matches!(step, QueueStep::Skip { head: 0 }));
    d.complete_step(&mut ram, BASE, &step, true).unwrap();
    assert_eq!(ram[0x600], 0);
    assert_eq!(r32(&ram, BASE, BASE + 0x204), 0);
    assert_eq!(r16(&ram, BASE, BASE + 0x202), 1);
    assert_eq!(d.irq_status, 1);
}
