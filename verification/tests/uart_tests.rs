use riscv_emu::uart::Uart16550;

const THR: u64 = 0x1000_0000;

fn send(u: &mut Uart16550, bytes: &[u8]) -> Vec<u8> {
    let mut out = Vec::new();
    for &b in bytes {
        out.extend(u.store(THR, 1, b as u64));
    }
    out
}

fn drain(u: &mut Uart16550) -> Vec<u8> {
    let mut v = Vec::new();
    while u.load(THR + 5, 1) & 1 == 1 {
        v.push(u.load(THR, 1) as u8);
    }
    v
}

#[test]
fn plain_bytes_go_out() {
    let mut u = Uart16550::new();
    assert_eq!(send(&mut u, b"hi\n"), b"hi\n".to_vec());
}

#[test]
fn cursor_query_is_swallowed_and_answered() {
    let mut u = Uart16550::new();
    assert!(!u.stdin_ready);
    assert_eq!(send(&mut u, b"\x1b[6n"), Vec::<u8>::new());
    assert!(u.stdin_ready);
    assert_eq!(drain(&mut u), b"\x1b[1;1R".to_vec());
}

#[test]
fn partial_escape_is_released() {
    let mut u = Uart16550::new();
    assert_eq!(send(&mut u, b"\x1b[6x"), b"\x1b[6x".to_vec());
    assert_eq!(send(&mut u, b"\x1b\x1b[A"), b"\x1b\x1b[A".to_vec());
    assert!(!u.stdin_ready);
}

#[test]
fn rx_bytes_come_back_in_order() {
    let mut u = Uart16550::new();
    u.push_rx(b'a');
    u.push_rx(b'b');
    assert_eq!(u.load(THR + 5, 1), 0x61);
    assert_eq!(u.load(THR, 1), b'a' as u64);
    assert_eq!(u.load(THR, 1), b'b' as u64);
    assert_eq!(u.load(THR, 1), 0);
    assert_eq!(u.load(THR + 5, 1), 0x60);
}

#[test]
fn ier_controls_interrupts() {
    let mut u = Uart16550::new();
    assert!(!u.irq_pending());
    assert_eq!(u.load(THR + 2, 1), 0x01);
    u.store(THR + 1, 1, 0x01);
    assert_eq!(u.load(THR + 1, 1), 0x01);
    assert!(!u.irq_pending());
    u.push_rx(7);
    assert!(u.irq_pending());
    assert_eq!(u.load(THR + 2, 1), 0x04);
    u.store(THR + 1, 1, 0x02);
    assert!(u.irq_pending());
    assert_eq!(u.load(THR + 2, 1), 0x02);
    assert_eq!(u.load(THR + 6, 1), 0x30);
    assert_eq!(u.load(THR + 3, 1), 0);
}

#[test]
fn high_bytes_are_printed_as_characters() {
    let mut u = Uart16550::new();
    assert_eq!(send(&mut u, &[0xE9]), "\u{e9}".as_bytes().to_vec());
    assert_eq!(send(&mut u, &[b'a', 0x80, 0xFF]), vec![b'a', 0xC2, 0x80, 0xC3, 0xBF]);
    let mut expected = Vec::new();
    for b in 0u8..=255 {
        if b == 0x1B {
            continue;
        }
        let mut tmp = [0u8; 4];
        expected.extend_from_slice((b as char).encode_utf8(&mut tmp).as_bytes());
    }
    let all: Vec<u8> = (0u8..=255).filter(|&b| b != 0x1B).collect();
    assert_eq!(send(&mut u, &all), expected);
}
