use vstd::prelude::*;
use vstd::utf8::encode_scalar;
use std::collections::VecDeque;

verus! {

/// The terminal's reply to a cursor-position query: ESC [ 1 ; 1 R.
pub const CPR_REPLY: [u8; 6] = [0x1B, 0x5B, 0x31, 0x3B, 0x31, 0x52];

/// The UART as the specifications see it.
pub ghost struct UartState {
    pub ier: u8,
    pub rx: Seq<u8>,
    pub dsr_state: u8,
    pub stdin_ready: bool,
}

/// UART 16550: transmit, a receive FIFO, IER/IIR/LSR, and interception of the
/// ANSI cursor-position query ESC [ 6 n in the transmit stream.
pub struct Uart16550 {
    ier: u8,
    rx_buf: VecDeque<u8>,
    /// Progress through ESC [ 6 n: 0 = idle, 1 = saw ESC, 2 = saw ESC [, 3 = saw ESC [ 6.
    dsr_state: u8,
    /// Set when the first ESC [ 6 n was answered; gates injection of host input.
    pub stdin_ready: bool,
}

impl View for Uart16550 {
    type V = UartState;

    closed spec fn view(&self) -> UartState {
        UartState { ier: self.ier, rx: self.rx_buf@, dsr_state: self.dsr_state, stdin_ready: self.stdin_ready }
    }
}

/// The bytes held back while matching ESC [ 6 n in state `d`.
pub open spec fn held_prefix(d: u8) -> Seq<u8> {
    if d == 1 { seq![0x1Bu8] } else if d == 2 { seq![0x1Bu8, 0x5Bu8] } else if d == 3 { seq![0x1Bu8, 0x5Bu8, 0x36u8] } else { seq![] }
}

pub open spec fn cpr_reply() -> Seq<u8> {
    seq![0x1Bu8, 0x5Bu8, 0x31u8, 0x3Bu8, 0x31u8, 0x52u8]
}

/// Whether the receive FIFO holds data.
pub open spec fn data_ready_spec(s: UartState) -> bool {
    s.rx.len() > 0
}

/// Whether the UART raises its interrupt: THRE enabled, or RX enabled with data.
pub open spec fn irq_pending_spec(s: UartState) -> bool {
    (s.ier & 0x02) != 0 || ((s.ier & 0x01) != 0 && data_ready_spec(s))
}

/// What a load at `addr` returns, and the UART after it (a data read pops the FIFO).
pub open spec fn uart_load_spec(s: UartState, addr: u64) -> (u64, UartState) {
    let reg = addr & 0xFF;
    if reg == 0 {
        if s.rx.len() > 0 { (s.rx[0] as u64, UartState { rx: s.rx.drop_first(), ..s }) } else { (0, s) }
    } else if reg == 1 {
        (s.ier as u64, s)
    } else if reg == 2 {
        (if (s.ier & 0x01) != 0 && data_ready_spec(s) { 0x04 } else if (s.ier & 0x02) != 0 { 0x02 } else { 0x01 }, s)
    } else if reg == 5 {
        (if data_ready_spec(s) { 0x61 } else { 0x60 }, s)
    } else if reg == 6 {
        (0x30, s)
    } else {
        (0, s)
    }
}

/// What the host terminal receives for a transmitted byte: the byte printed as
/// the character U+0000 to U+00FF, in UTF-8 (two bytes from 0x80 on).
pub open spec fn host_char(b: u8) -> Seq<u8> {
    encode_scalar(b as u32)
}

/// `bytes` printed as characters, one after the other.
pub open spec fn host_text(bytes: Seq<u8>) -> Seq<u8>
    decreases bytes.len(),
{
    if bytes.len() == 0 { seq![] } else { host_char(bytes[0]) + host_text(bytes.drop_first()) }
}

/// A transmitted byte: the UART after it and the bytes that reach the host terminal.
pub open spec fn uart_tx_spec(s: UartState, byte: u8) -> (UartState, Seq<u8>) {
    if byte == 0x1B {
        (UartState { dsr_state: 1, ..s }, held_prefix(s.dsr_state))
    } else if s.dsr_state == 1 && byte == 0x5B {
        (UartState { dsr_state: 2, ..s }, seq![])
    } else if s.dsr_state == 2 && byte == 0x36 {
        (UartState { dsr_state: 3, ..s }, seq![])
    } else if s.dsr_state == 3 && byte == 0x6E {
        (UartState { rx: s.rx + cpr_reply(), stdin_ready: true, dsr_state: 0, ..s }, seq![])
    } else {
        let d = if held_prefix(s.dsr_state).len() > 0 { 0 } else { s.dsr_state };
        (UartState { dsr_state: d, ..s }, held_prefix(s.dsr_state) + host_char(byte))
    }
}

/// A store at `addr`: the UART after it and the bytes for the host terminal.
pub open spec fn uart_store_spec(s: UartState, addr: u64, val: u64) -> (UartState, Seq<u8>) {
    if addr & 0xFF != 0 {
        (if addr & 0xFF == 1 { UartState { ier: val as u8, ..s } } else { s }, seq![])
    } else {
        uart_tx_spec(s, val as u8)
    }
}

/// The UART after transmitting `bytes` in order, and everything that reached the host.
pub open spec fn tx_seq(s: UartState, bytes: Seq<u8>) -> (UartState, Seq<u8>)
    decreases bytes.len(),
{
    if bytes.len() == 0 {
        (s, seq![])
    } else {
        let (s1, out1) = uart_tx_spec(s, bytes[0]);
        let (s2, out2) = tx_seq(s1, bytes.drop_first());
        (s2, out1 + out2)
    }
}

/// ESC [ 6 n never reaches the host: from any state it only releases the bytes
/// held before it, queues ESC [ 1 ; 1 R for the guest, marks stdin ready and
/// leaves the matcher idle.
pub proof fn lemma_cursor_query_answered(s: UartState)
    ensures
        tx_seq(s, seq![0x1Bu8, 0x5Bu8, 0x36u8, 0x6Eu8]) == (
            UartState { rx: s.rx + cpr_reply(), stdin_ready: true, dsr_state: 0, ..s },
            held_prefix(s.dsr_state),
        ),
{
    let b = seq![0x1Bu8, 0x5Bu8, 0x36u8, 0x6Eu8];
    reveal_with_fuel(tx_seq, 5);
    assert(b.drop_first() =~= seq![0x5Bu8, 0x36u8, 0x6Eu8]);
    assert(b.drop_first().drop_first() =~= seq![0x36u8, 0x6Eu8]);
    assert(b.drop_first().drop_first().drop_first() =~= seq![0x6Eu8]);
    assert(b.drop_first().drop_first().drop_first().drop_first() =~= Seq::<u8>::empty());
    assert(held_prefix(s.dsr_state) + (seq![] + (seq![] + (seq![] + seq![]))) =~= held_prefix(s.dsr_state));
}

/// An ASCII byte is printed as itself.
pub proof fn lemma_host_char_ascii(b: u8)
    requires
        b < 0x80,
    ensures
        host_char(b) == seq![b],
{
    assert((b as u32 & 0x7F) as u8 == b) by (bit_vector)
        requires
            b < 0x80,
    ;
    assert(host_char(b) =~= seq![b]);
}

/// No transmitted byte is lost or reordered: what reaches the host followed by
/// what is held back is what was held before followed by the new byte as the
/// host prints it, except for the byte that completes ESC [ 6 n, which
/// swallows the whole query.
pub proof fn lemma_tx_nothing_lost(s: UartState, b: u8)
    requires
        s.dsr_state <= 3,
        !(s.dsr_state == 3 && b == 0x6E),
    ensures
        uart_tx_spec(s, b).0.dsr_state <= 3,
        uart_tx_spec(s, b).1 + held_prefix(uart_tx_spec(s, b).0.dsr_state) == held_prefix(s.dsr_state) + host_char(b),
{
    let (s2, out) = uart_tx_spec(s, b);
    if b == 0x1B {
        lemma_host_char_ascii(b);
        assert(held_prefix(s.dsr_state) + seq![0x1Bu8] =~= held_prefix(s.dsr_state) + host_char(b));
    } else if s.dsr_state == 1 && b == 0x5B {
        lemma_host_char_ascii(b);
        assert(seq![] + held_prefix(2) =~= held_prefix(1) + host_char(b));
    } else if s.dsr_state == 2 && b == 0x36 {
        lemma_host_char_ascii(b);
        assert(seq![] + held_prefix(3) =~= held_prefix(2) + host_char(b));
    } else {
        assert(out + held_prefix(s2.dsr_state) =~= held_prefix(s.dsr_state) + host_char(b));
    }
}

/// From the idle state, bytes without ESC pass straight through to the host,
/// each printed as a character.
pub proof fn lemma_plain_text_passes(s: UartState, bytes: Seq<u8>)
    requires
        s.dsr_state == 0,
        forall|i: int| 0 <= i < bytes.len() ==> bytes[i] != 0x1B,
    ensures
        tx_seq(s, bytes) == (s, host_text(bytes)),
    decreases bytes.len(),
{
    if bytes.len() > 0 {
        lemma_plain_text_passes(s, bytes.drop_first());
        assert(held_prefix(0) + host_char(bytes[0]) =~= host_char(bytes[0]));
    }
}

/// ASCII text reaches the host unchanged.
pub proof fn lemma_ascii_text_unchanged(bytes: Seq<u8>)
    requires
        forall|i: int| 0 <= i < bytes.len() ==> bytes[i] < 0x80,
    ensures
        host_text(bytes) == bytes,
    decreases bytes.len(),
{
    if bytes.len() > 0 {
        lemma_ascii_text_unchanged(bytes.drop_first());
        lemma_host_char_ascii(bytes[0]);
        assert(seq![bytes[0]] + bytes.drop_first() =~= bytes);
    }
}

/// The receive FIFO is first in, first out: after queueing `b`, a data read
/// returns the oldest queued byte.
pub proof fn lemma_rx_fifo(s: UartState, b: u8, addr: u64)
    requires
        addr & 0xFF == 0,
    ensures
        uart_load_spec(UartState { rx: s.rx.push(b), ..s }, addr).0 == (if s.rx.len() > 0 { s.rx[0] } else { b }) as u64,
        uart_load_spec(UartState { rx: s.rx.push(b), ..s }, addr).1.rx
            == (if s.rx.len() > 0 { s.rx.drop_first().push(b) } else { Seq::<u8>::empty() }),
{
    if s.rx.len() > 0 {
        assert(s.rx.push(b).drop_first() =~= s.rx.drop_first().push(b));
    } else {
        assert(s.rx.push(b).drop_first() =~= Seq::<u8>::empty());
    }
}

/// Append `byte` as the host prints it (UTF-8 of the character U+0000 to U+00FF).
fn push_host_char(out: &mut Vec<u8>, byte: u8)
    ensures
        final(out)@ == old(out)@ + host_char(byte),
{
    if byte < 0x80 {
        out.push(byte);
        assert((byte as u32 & 0x7F) as u8 == byte) by (bit_vector)
            requires
                byte < 0x80,
        ;
    } else {
        let lead: u8 = 0xC0 | (byte >> 6);
        let cont: u8 = 0x80 | (byte & 0x3F);
        out.push(lead);
        out.push(cont);
        assert(lead == 0xC0 | ((byte as u32 >> 6) & 0x1F) as u8 && cont == 0x80 | (byte as u32 & 0x3F) as u8)
            by (bit_vector)
            requires
                lead == 0xC0 | (byte >> 6),
                cont == 0x80 | (byte & 0x3F),
        ;
    }
    assert(final(out)@ =~= old(out)@ + host_char(byte));
}

impl Uart16550 {
    pub fn new() -> (u: Self)
        ensures
            u@ == (UartState { ier: 0, rx: seq![], dsr_state: 0, stdin_ready: false }),
    {
        Uart16550 { ier: 0, rx_buf: VecDeque::new(), dsr_state: 0, stdin_ready: false }
    }

    /// Queue a byte of host input for the guest.
    pub fn push_rx(&mut self, byte: u8)
        ensures
            final(self)@ == (UartState { rx: old(self)@.rx.push(byte), ..old(self)@ }),
    {
        self.rx_buf.push_back(byte);
    }

    fn data_ready(&self) -> (r: bool)
        ensures
            r == data_ready_spec(self@),
    {
        self.rx_buf.len() > 0
    }

    pub fn irq_pending(&self) -> (r: bool)
        ensures
            r == irq_pending_spec(self@),
    {
        (self.ier & 0x02) != 0 || ((self.ier & 0x01) != 0 && self.data_ready())
    }

    pub fn load(&mut self, addr: u64, _width: usize) -> (r: u64)
        ensures
            (r, final(self)@) == uart_load_spec(old(self)@, addr),
    {
        let reg: u64 = addr & 0xFF;
        if reg == 0 {
            match self.rx_buf.pop_front() {
                Some(b) => {
                    assert(old(self)@.rx.drop_first() =~= self@.rx);
                    b as u64
                },
                None => 0,
            }
        } else if reg == 1 {
            self.ier as u64
        } else if reg == 2 {
            if (self.ier & 0x01) != 0 && self.data_ready() {
                0x04  // RX data available
            } else if (self.ier & 0x02) != 0 {
                0x02  // THR empty
            } else {
                0x01  // no interrupt pending
            }
        } else if reg == 5 {
            // THR empty | TX empty, plus data ready
            if self.data_ready() { 0x61 } else { 0x60 }
        } else if reg == 6 {
            0x30
        } else {
            0
        }
    }

    /// The bytes held while matching ESC [ 6 n; resets the matcher.
    fn flush_prefix(&mut self) -> (out: Vec<u8>)
        ensures
            out@ == held_prefix(old(self)@.dsr_state),
            final(self)@ == (UartState { dsr_state: if held_prefix(old(self)@.dsr_state).len() > 0 { 0 } else { old(self)@.dsr_state }, ..old(self)@ }),
    {
        let mut out: Vec<u8> = Vec::new();
        if self.dsr_state == 1 {
            out.push(0x1B);
        } else if self.dsr_state == 2 {
            out.push(0x1B);
            out.push(0x5B);
        } else if self.dsr_state == 3 {
            out.push(0x1B);
            out.push(0x5B);
            out.push(0x36);
        } else {
            assert(out@ =~= held_prefix(self.dsr_state));
            return out;
        }
        self.dsr_state = 0;
        assert(out@ =~= held_prefix(old(self)@.dsr_state));
        out
    }

    /// Write a register. A write to THR transmits a byte; the bytes that must reach
    /// the host terminal are returned (ESC [ 6 n is swallowed and answered by
    /// queueing ESC [ 1 ; 1 R for the guest).
    pub fn store(&mut self, addr: u64, _width: usize, val: u64) -> (out: Vec<u8>)
        ensures
            (final(self)@, out@) == uart_store_spec(old(self)@, addr, val),
    {
        if addr & 0xFF != 0 {
            if addr & 0xFF == 1 {
                self.ier = val as u8;
            }
            return Vec::new();
        }
        let byte: u8 = val as u8;
        if byte == 0x1B {
            let out = self.flush_prefix();
            self.dsr_state = 1;
            out
        } else if self.dsr_state == 1 && byte == 0x5B {
            self.dsr_state = 2;
            Vec::new()
        } else if self.dsr_state == 2 && byte == 0x36 {
            self.dsr_state = 3;
            Vec::new()
        } else if self.dsr_state == 3 && byte == 0x6E {
            let mut i: usize = 0;
            while i < 6
                invariant
                    i <= 6,
                    self@ == (UartState { rx: old(self)@.rx + cpr_reply().subrange(0, i as int), ..old(self)@ }),
                decreases 6 - i,
            {
                self.rx_buf.push_back(CPR_REPLY[i]);
                i = i + 1;
                assert(self@.rx =~= old(self)@.rx + cpr_reply().subrange(0, i as int));
            }
            self.stdin_ready = true;
            self.dsr_state = 0;
            assert(cpr_reply().subrange(0, 6) =~= cpr_reply());
            Vec::new()
        } else {
            let mut out = self.flush_prefix();
            push_host_char(&mut out, byte);
            out
        }
    }
}

} // verus!
