use vstd::prelude::*;
use vstd::utf8::encode_utf8;
use crate::run::mtime_ticks;
use crate::bus::{region, CLINT_BASE, PLIC_BASE, UART_BASE};
use crate::irq::UART_IRQ;
use crate::loader::RAM_BASE;

verus! {

/// Where the initramfs is loaded.
pub const INITRD_BASE: u64 = 0x8600_0000;

#[verifier::external_type_specification]
#[verifier::external_body]
pub struct ExFdtWriter(vm_fdt::FdtWriter);

#[verifier::external_type_specification]
#[verifier::external_body]
pub struct ExFdtWriterNode(vm_fdt::FdtWriterNode);

#[verifier::external_type_specification]
#[verifier::external_body]
pub struct ExFdtError(vm_fdt::Error);

/// The device tree could not be built.
#[derive(Debug, Clone, Copy, PartialEq, Eq, Structural)]
pub struct DtbError;

/// One thing written to a device tree, as its structure block records it: a
/// node opened (by name) or closed, or a property of the open node (its name and
/// the bytes of its value).
pub ghost enum FdtOp {
    BeginNode(Seq<char>),
    EndNode,
    Prop(Seq<char>, Seq<u8>),
}

/// `v` as 4 big-endian bytes.
pub open spec fn be32(v: u32) -> Seq<u8> {
    seq![(v >> 24) as u8, (v >> 16) as u8, (v >> 8) as u8, v as u8]
}

/// `v` as 8 big-endian bytes.
pub open spec fn be64(v: u64) -> Seq<u8> {
    be32((v >> 32) as u32) + be32(v as u32)
}

/// Cells as consecutive big-endian words.
pub open spec fn cells_be(c: Seq<u32>) -> Seq<u8>
    decreases c.len(),
{
    if c.len() == 0 { seq![] } else { be32(c[0]) + cells_be(c.drop_first()) }
}

/// A string as UTF-8 followed by NUL.
pub open spec fn cstr(s: Seq<char>) -> Seq<u8> {
    encode_utf8(s).push(0u8)
}

/// A property holding a 32-bit value.
pub open spec fn prop_u32(n: Seq<char>, v: u32) -> FdtOp { FdtOp::Prop(n, be32(v)) }

/// A property holding a 64-bit value.
pub open spec fn prop_u64(n: Seq<char>, v: u64) -> FdtOp { FdtOp::Prop(n, be64(v)) }

/// A property holding a string.
pub open spec fn prop_str(n: Seq<char>, v: Seq<char>) -> FdtOp { FdtOp::Prop(n, cstr(v)) }

/// A property holding an array of cells.
pub open spec fn prop_cells(n: Seq<char>, c: Seq<u32>) -> FdtOp { FdtOp::Prop(n, cells_be(c)) }

/// A property with no value.
pub open spec fn prop_null(n: Seq<char>) -> FdtOp { FdtOp::Prop(n, seq![]) }

/// The `phandle` property with value `v`.
pub open spec fn phandle_prop(v: u32) -> FdtOp { FdtOp::Prop("phandle"@, be32(v)) }

/// The UTF-8 encoding takes at most 4 bytes a character.
pub broadcast proof fn lemma_utf8_len(s: Seq<char>)
    ensures
        #[trigger] encode_utf8(s).len() <= 4 * s.len(),
    decreases s.len(),
{
    if s.len() > 0 {
        lemma_utf8_len(s.drop_first());
    }
}

/// Cells take 4 bytes each.
pub broadcast proof fn lemma_cells_len(c: Seq<u32>)
    ensures
        #[trigger] cells_be(c).len() == 4 * c.len(),
    decreases c.len(),
{
    if c.len() > 0 {
        lemma_cells_len(c.drop_first());
    }
}

/// A character that a node name may hold (besides one '@').
pub open spec fn node_char(c: char) -> bool {
    ('a' <= c && c <= 'z') || ('A' <= c && c <= 'Z') || ('0' <= c && c <= '9')
        || c == ',' || c == '.' || c == '_' || c == '+' || c == '-'
}

/// A character that a property name may hold.
pub open spec fn prop_char(c: char) -> bool {
    node_char(c) || c == '?' || c == '#'
}

/// From position `i` on, `s` holds node-name characters and at most one '@'
/// (none when `at_seen`).
pub open spec fn node_chars_from(s: Seq<char>, i: nat, at_seen: bool) -> bool
    decreases s.len() - i,
{
    if i >= s.len() {
        true
    } else if s[i as int] == '@' {
        !at_seen && node_chars_from(s, i + 1, true)
    } else {
        node_char(s[i as int]) && node_chars_from(s, i + 1, at_seen)
    }
}

/// From position `i` on, `s` holds property-name characters.
pub open spec fn prop_chars_from(s: Seq<char>, i: nat) -> bool
    decreases s.len() - i,
{
    if i >= s.len() { true } else { prop_char(s[i as int]) && prop_chars_from(s, i + 1) }
}

/// From position `i` on, `s` holds no NUL character.
pub open spec fn no_nul_from(s: Seq<char>, i: nat) -> bool
    decreases s.len() - i,
{
    if i >= s.len() { true } else { s[i as int] != '\0' && no_nul_from(s, i + 1) }
}

/// A node name that the writer accepts: empty (the root), or a letter, then
/// node-name characters with at most one '@', at most 31 characters in all.
pub open spec fn node_name_ok(s: Seq<char>) -> bool {
    s.len() == 0 || (s.len() <= 31 && (('a' <= s[0] && s[0] <= 'z') || ('A' <= s[0] && s[0] <= 'Z'))
        && node_chars_from(s, 0, false))
}

/// A property name that the writer accepts: 1 to 31 property-name characters.
pub open spec fn prop_name_ok(s: Seq<char>) -> bool {
    1 <= s.len() <= 31 && prop_chars_from(s, 0)
}

/// Nodes opened minus nodes closed by `ops`.
pub open spec fn fdt_depth(ops: Seq<FdtOp>) -> int
    decreases ops.len(),
{
    if ops.len() == 0 {
        0
    } else {
        fdt_depth(ops.drop_last()) + match ops.last() {
            FdtOp::BeginNode(_) => 1int,
            FdtOp::EndNode => -1int,
            _ => 0int,
        }
    }
}

/// Whether the node that `ops` last opened or closed was closed: the writer
/// then refuses properties until the next node is opened.
pub open spec fn fdt_closed(ops: Seq<FdtOp>) -> bool
    decreases ops.len(),
{
    if ops.len() == 0 {
        false
    } else {
        match ops.last() {
            FdtOp::BeginNode(_) => false,
            FdtOp::EndNode => true,
            _ => fdt_closed(ops.drop_last()),
        }
    }
}

/// Whether `ops` wrote a `phandle` property with value `v`.
pub open spec fn fdt_has_phandle(ops: Seq<FdtOp>, v: u32) -> bool
    decreases ops.len(),
{
    ops.len() > 0 && (ops.last() == phandle_prop(v) || fdt_has_phandle(ops.drop_last(), v))
}

/// An upper bound on the bytes that `op` adds to the blob's structure block and
/// string table (a character of a name takes at most 4 bytes, padding at most 3).
pub open spec fn op_bytes(op: FdtOp) -> nat {
    match op {
        FdtOp::BeginNode(n) => 8 + 4 * n.len(),
        FdtOp::EndNode => 4,
        FdtOp::Prop(n, v) => 24 + 4 * n.len() + v.len(),
    }
}

/// The sum of `op_bytes` over `ops`.
pub open spec fn ops_bytes(ops: Seq<FdtOp>) -> nat
    decreases ops.len(),
{
    if ops.len() == 0 { 0 } else { ops_bytes(ops.drop_last()) + op_bytes(ops.last()) }
}

pub broadcast proof fn lemma_depth_push(ops: Seq<FdtOp>, op: FdtOp)
    ensures
        #[trigger] fdt_depth(ops.push(op)) == fdt_depth(ops) + match op {
            FdtOp::BeginNode(_) => 1int,
            FdtOp::EndNode => -1int,
            _ => 0int,
        },
{
    assert(ops.push(op).drop_last() =~= ops);
}

pub broadcast proof fn lemma_closed_push(ops: Seq<FdtOp>, op: FdtOp)
    ensures
        #[trigger] fdt_closed(ops.push(op)) == match op {
            FdtOp::BeginNode(_) => false,
            FdtOp::EndNode => true,
            _ => fdt_closed(ops),
        },
{
    assert(ops.push(op).drop_last() =~= ops);
}

pub broadcast proof fn lemma_phandle_push(ops: Seq<FdtOp>, op: FdtOp, v: u32)
    ensures
        #[trigger] fdt_has_phandle(ops.push(op), v) == (op == phandle_prop(v) || fdt_has_phandle(ops, v)),
{
    assert(ops.push(op).drop_last() =~= ops);
}

pub broadcast proof fn lemma_bytes_push(ops: Seq<FdtOp>, op: FdtOp)
    ensures
        #[trigger] ops_bytes(ops.push(op)) == ops_bytes(ops) + op_bytes(op),
{
    assert(ops.push(op).drop_last() =~= ops);
}

pub broadcast group group_fdt_push {
    lemma_depth_push,
    lemma_closed_push,
    lemma_phandle_push,
    lemma_bytes_push,
    lemma_utf8_len,
    lemma_cells_len,
}

/// What a device-tree writer holds, read off its structure block and string
/// table: the nodes opened and closed and the properties written, in order.
pub uninterp spec fn fdt_ops(w: vm_fdt::FdtWriter) -> Seq<FdtOp>;

/// Whether `w` holds exactly what `FdtWriter::new` and then, each of them
/// successful, the operations `fdt_ops(w)` give it: no memory reservations, boot
/// CPU 0, `fdt_depth` nodes open, properties refused after a close exactly when
/// `fdt_closed`, only phandles among the values of its `phandle` properties, and
/// at most 56 + `ops_bytes` bytes of structure block and string table.
pub uninterp spec fn fdt_kept(w: vm_fdt::FdtWriter) -> bool;

/// The depth of the node that a handle from `FdtWriter::begin_node` stands for.
pub uninterp spec fn fdt_node_depth(n: vm_fdt::FdtWriterNode) -> int;

/// The blob that `FdtWriter::finish` produces from a kept writer that holds `ops`.
pub uninterp spec fn fdt_blob(ops: Seq<FdtOp>) -> Seq<u8>;

/// The writer is kept and may take property `op` in its open node: a node is
/// open and was not followed by a close, and the bytes stay within u32.
pub open spec fn prop_room(w: vm_fdt::FdtWriter, op: FdtOp) -> bool {
    &&& fdt_kept(w)
    &&& fdt_depth(fdt_ops(w)) > 0
    &&& !fdt_closed(fdt_ops(w))
    &&& 56 + ops_bytes(fdt_ops(w).push(op)) <= u32::MAX
}

/// Calls `vm_fdt::FdtWriter::new`: a kept writer with nothing written yet. It
/// always succeeds (no memory reservations to check, a header of fixed size).
#[verifier::external_body]
fn fdt_new() -> (r: Result<vm_fdt::FdtWriter, vm_fdt::Error>)
    ensures
        r is Ok,
        r matches Ok(w) ==> fdt_ops(w) == Seq::<FdtOp>::empty() && fdt_kept(w),
{
    vm_fdt::FdtWriter::new()
}

/// Calls `vm_fdt::FdtWriter::begin_node`: on success the node `name` is opened and
/// the handle stands for the new depth. It succeeds on a kept writer with fewer
/// than 64 nodes open and a valid name.
#[verifier::external_body]
fn begin_node(fdt: &mut vm_fdt::FdtWriter, name: &str) -> (r: Result<vm_fdt::FdtWriterNode, vm_fdt::Error>)
    ensures
        r is Ok ==> fdt_ops(*final(fdt)) == fdt_ops(*old(fdt)).push(FdtOp::BeginNode(name@)),
        r is Ok && fdt_kept(*old(fdt)) ==> fdt_kept(*final(fdt)),
        fdt_kept(*old(fdt)) ==> (r matches Ok(n) ==> fdt_node_depth(n) == fdt_depth(fdt_ops(*old(fdt))) + 1),
        fdt_kept(*old(fdt)) && fdt_depth(fdt_ops(*old(fdt))) < 64 && node_name_ok(name@) ==> r is Ok,
{
    fdt.begin_node(name)
}

/// Calls `vm_fdt::FdtWriter::end_node`: on success the open node is closed. It
/// succeeds on a kept writer when `node` is the innermost open node.
#[verifier::external_body]
fn end_node(fdt: &mut vm_fdt::FdtWriter, node: vm_fdt::FdtWriterNode) -> (r: Result<(), vm_fdt::Error>)
    ensures
        r is Ok ==> fdt_ops(*final(fdt)) == fdt_ops(*old(fdt)).push(FdtOp::EndNode),
        r is Ok && fdt_kept(*old(fdt)) ==> fdt_kept(*final(fdt)),
        fdt_kept(*old(fdt)) && fdt_node_depth(node) == fdt_depth(fdt_ops(*old(fdt))) ==> r is Ok,
{
    fdt.end_node(node)
}

/// Calls `vm_fdt::FdtWriter::property_u32`: on success the property is written.
/// It succeeds when there is room (`prop_room`) and the name is valid.
#[verifier::external_body]
fn property_u32(fdt: &mut vm_fdt::FdtWriter, name: &str, val: u32) -> (r: Result<(), vm_fdt::Error>)
    ensures
        r is Ok ==> fdt_ops(*final(fdt)) == fdt_ops(*old(fdt)).push(prop_u32(name@, val)),
        r is Ok && fdt_kept(*old(fdt)) ==> fdt_kept(*final(fdt)),
        prop_room(*old(fdt), prop_u32(name@, val)) && prop_name_ok(name@) ==> r is Ok,
{
    fdt.property_u32(name, val)
}

/// Calls `vm_fdt::FdtWriter::property_u64`: on success the property is written.
/// It succeeds when there is room (`prop_room`) and the name is valid.
#[verifier::external_body]
fn property_u64(fdt: &mut vm_fdt::FdtWriter, name: &str, val: u64) -> (r: Result<(), vm_fdt::Error>)
    ensures
        r is Ok ==> fdt_ops(*final(fdt)) == fdt_ops(*old(fdt)).push(prop_u64(name@, val)),
        r is Ok && fdt_kept(*old(fdt)) ==> fdt_kept(*final(fdt)),
        prop_room(*old(fdt), prop_u64(name@, val)) && prop_name_ok(name@) ==> r is Ok,
{
    fdt.property_u64(name, val)
}

/// Calls `vm_fdt::FdtWriter::property_string`: on success the property is written.
/// It succeeds when there is room (`prop_room`), the name is valid and the value
/// holds no NUL.
#[verifier::external_body]
fn property_string(fdt: &mut vm_fdt::FdtWriter, name: &str, val: &str) -> (r: Result<(), vm_fdt::Error>)
    ensures
        r is Ok ==> fdt_ops(*final(fdt)) == fdt_ops(*old(fdt)).push(prop_str(name@, val@)),
        r is Ok && fdt_kept(*old(fdt)) ==> fdt_kept(*final(fdt)),
        prop_room(*old(fdt), prop_str(name@, val@)) && prop_name_ok(name@) && no_nul_from(val@, 0)
            ==> r is Ok,
{
    fdt.property_string(name, val)
}

/// Calls `vm_fdt::FdtWriter::property_array_u32`: on success the property is
/// written. It succeeds when there is room (`prop_room`) and the name is valid.
#[verifier::external_body]
fn property_array_u32(fdt: &mut vm_fdt::FdtWriter, name: &str, cells: &[u32]) -> (r: Result<(), vm_fdt::Error>)
    ensures
        r is Ok ==> fdt_ops(*final(fdt)) == fdt_ops(*old(fdt)).push(prop_cells(name@, cells@)),
        r is Ok && fdt_kept(*old(fdt)) ==> fdt_kept(*final(fdt)),
        prop_room(*old(fdt), prop_cells(name@, cells@)) && prop_name_ok(name@) ==> r is Ok,
{
    fdt.property_array_u32(name, cells)
}

/// Calls `vm_fdt::FdtWriter::property_null`: on success the empty property is
/// written. It succeeds when there is room (`prop_room`) and the name is valid.
#[verifier::external_body]
fn property_null(fdt: &mut vm_fdt::FdtWriter, name: &str) -> (r: Result<(), vm_fdt::Error>)
    ensures
        r is Ok ==> fdt_ops(*final(fdt)) == fdt_ops(*old(fdt)).push(prop_null(name@)),
        r is Ok && fdt_kept(*old(fdt)) ==> fdt_kept(*final(fdt)),
        prop_room(*old(fdt), prop_null(name@)) && prop_name_ok(name@) ==> r is Ok,
{
    fdt.property_null(name)
}

/// Calls `vm_fdt::FdtWriter::property_phandle`: on success the phandle is
/// written. It succeeds when there is room (`prop_room`) and the value was not
/// written before.
#[verifier::external_body]
fn property_phandle(fdt: &mut vm_fdt::FdtWriter, val: u32) -> (r: Result<(), vm_fdt::Error>)
    ensures
        r is Ok ==> fdt_ops(*final(fdt)) == fdt_ops(*old(fdt)).push(phandle_prop(val)),
        r is Ok && fdt_kept(*old(fdt)) ==> fdt_kept(*final(fdt)),
        prop_room(*old(fdt), phandle_prop(val)) && !fdt_has_phandle(fdt_ops(*old(fdt)), val) ==> r is Ok,
{
    fdt.property_phandle(val)
}

/// Calls `vm_fdt::FdtWriter::finish`: the blob of a kept writer is `fdt_blob` of
/// what it holds. It succeeds on a kept writer with no node open whose bytes fit
/// in u32.
#[verifier::external_body]
fn finish(fdt: vm_fdt::FdtWriter) -> (r: Result<Vec<u8>, vm_fdt::Error>)
    ensures
        r matches Ok(b) ==> fdt_kept(fdt) ==> b@ == fdt_blob(fdt_ops(fdt)),
        fdt_kept(fdt) && fdt_depth(fdt_ops(fdt)) == 0 && 60 + ops_bytes(fdt_ops(fdt)) <= u32::MAX ==> r is Ok,
{
    fdt.finish()
}

/// The root node's own properties.
pub open spec fn root_ops() -> Seq<FdtOp> {
    seq![
        FdtOp::BeginNode(""@),
        prop_u32("#address-cells"@, 2),
        prop_u32("#size-cells"@, 2),
        prop_str("compatible"@, "riscv-virtio"@),
        prop_str("model"@, "riscv-virtio,qemu"@),
    ]
}

/// The `chosen` node: console, boot arguments and, for an initramfs of
/// `initrd_size` > 0 bytes, where it lies.
pub open spec fn chosen_ops(initrd_size: u64) -> Seq<FdtOp> {
    seq![
        FdtOp::BeginNode("chosen"@),
        prop_str("stdout-path"@, "/soc/serial@10000000"@),
        prop_str("bootargs"@, "console=ttyS0 earlycon=uart8250,mmio,0x10000000 rdinit=/init"@),
    ] + (if initrd_size > 0 {
        seq![
            prop_u64("linux,initrd-start"@, INITRD_BASE),
            prop_u64("linux,initrd-end"@, (INITRD_BASE + initrd_size) as u64),
        ]
    } else {
        seq![]
    }) + seq![FdtOp::EndNode]
}

/// The `cpus` node with hart 0 and its interrupt controller (phandle 1).
pub open spec fn cpus_ops() -> Seq<FdtOp> {
    seq![
        FdtOp::BeginNode("cpus"@),
        prop_u32("#address-cells"@, 1),
        prop_u32("#size-cells"@, 0),
        prop_u32("timebase-frequency"@, 10_000_000),
        FdtOp::BeginNode("cpu@0"@),
        prop_str("device_type"@, "cpu"@),
        prop_u32("reg"@, 0),
        prop_str("status"@, "okay"@),
        prop_str("compatible"@, "riscv"@),
        prop_str("riscv,isa"@, "rv64imafdcsu"@),
        prop_str("mmu-type"@, "riscv,sv39"@),
        FdtOp::BeginNode("interrupt-controller"@),
        phandle_prop(1),
        prop_u32("#interrupt-cells"@, 1),
        prop_str("compatible"@, "riscv,cpu-intc"@),
        prop_null("interrupt-controller"@),
        FdtOp::EndNode,
        FdtOp::EndNode,
        FdtOp::EndNode,
    ]
}

/// The memory node: 256 MiB at 0x8000_0000.
pub open spec fn memory_ops() -> Seq<FdtOp> {
    seq![
        FdtOp::BeginNode("memory@80000000"@),
        prop_str("device_type"@, "memory"@),
        prop_cells("reg"@, seq![0x0000_0000u32, 0x8000_0000u32, 0x0000_0000u32, 0x1000_0000u32]),
        FdtOp::EndNode,
    ]
}

/// The CLINT node.
pub open spec fn clint_ops() -> Seq<FdtOp> {
    seq![
        FdtOp::BeginNode("clint@2000000"@),
        prop_str("compatible"@, "riscv,clint0"@),
        prop_cells("interrupts-extended"@, seq![1u32, 3u32, 1u32, 7u32]),
        prop_cells("reg"@, seq![0x0000_0000u32, 0x0200_0000u32, 0x0000_0000u32, 0x0001_0000u32]),
        FdtOp::EndNode,
    ]
}

/// The PLIC node (phandle 2).
pub open spec fn plic_ops() -> Seq<FdtOp> {
    seq![
        FdtOp::BeginNode("plic@c000000"@),
        prop_str("compatible"@, "sifive,plic-1.0.0"@),
        phandle_prop(2),
        prop_u32("#interrupt-cells"@, 1),
        prop_null("interrupt-controller"@),
        prop_cells("interrupts-extended"@, seq![1u32, 11u32, 1u32, 9u32]),
        prop_cells("reg"@, seq![0x0000_0000u32, 0x0C00_0000u32, 0x0000_0000u32, 0x0400_0000u32]),
        prop_u32("riscv,ndev"@, 31),
        FdtOp::EndNode,
    ]
}

/// The UART node.
pub open spec fn serial_ops() -> Seq<FdtOp> {
    seq![
        FdtOp::BeginNode("serial@10000000"@),
        prop_str("compatible"@, "ns16550a"@),
        prop_cells("reg"@, seq![0x0000_0000u32, 0x1000_0000u32, 0x0000_0000u32, 0x0000_0100u32]),
        prop_u32("clock-frequency"@, 3_686_400),
        prop_u32("interrupts"@, 10),
        prop_u32("interrupt-parent"@, 2),
        FdtOp::EndNode,
    ]
}

/// The `soc` bus with the CLINT, the PLIC and the UART.
pub open spec fn soc_ops() -> Seq<FdtOp> {
    seq![
        FdtOp::BeginNode("soc"@),
        prop_u32("#address-cells"@, 2),
        prop_u32("#size-cells"@, 2),
        prop_str("compatible"@, "simple-bus"@),
        prop_null("ranges"@),
    ] + clint_ops() + plic_ops() + serial_ops() + seq![FdtOp::EndNode]
}

/// Everything written to the device tree of the machine.
pub open spec fn dtb_ops(initrd_size: u64) -> Seq<FdtOp> {
    root_ops() + chosen_ops(initrd_size) + cpus_ops() + memory_ops() + soc_ops() + seq![FdtOp::EndNode]
}

/// `fdt` after a successful write of `ops`.
pub open spec fn wrote(old: vm_fdt::FdtWriter, new: vm_fdt::FdtWriter, ops: Seq<FdtOp>) -> bool {
    fdt_ops(new) == fdt_ops(old) + ops
}

/// A writer that a part of the tree can be written to: kept, fewer than 60
/// nodes open and well within the size limit.
pub open spec fn fdt_ready(w: vm_fdt::FdtWriter) -> bool {
    fdt_kept(w) && 0 <= fdt_depth(fdt_ops(w)) < 60 && ops_bytes(fdt_ops(w)) <= 0x1000_0000
}

/// A writer that a node without children can be written to: kept, fewer than
/// 63 nodes open and well within the size limit.
pub open spec fn fdt_leaf_ready(w: vm_fdt::FdtWriter) -> bool {
    fdt_kept(w) && 0 <= fdt_depth(fdt_ops(w)) < 63 && ops_bytes(fdt_ops(w)) <= 0x2000_0000
}

/// `new` is kept after a part of the tree was written to `old`: `opened` more
/// nodes are open (and properties are refused when none is), at most `bytes`
/// more bytes are used, and the phandles are those of `old` and `ph`.
pub open spec fn part_written(old: vm_fdt::FdtWriter, new: vm_fdt::FdtWriter, ph: Option<u32>, opened: int, bytes: int) -> bool {
    &&& fdt_kept(new)
    &&& fdt_depth(fdt_ops(new)) == fdt_depth(fdt_ops(old)) + opened
    &&& fdt_closed(fdt_ops(new)) == (opened == 0)
    &&& ops_bytes(fdt_ops(new)) <= ops_bytes(fdt_ops(old)) + bytes
    &&& forall|v: u32| #[trigger] fdt_has_phandle(fdt_ops(new), v) == (fdt_has_phandle(fdt_ops(old), v) || ph == Some(v))
}

/// The phandles of `a + b` are those of `a` and those of `b`.
proof fn lemma_phandle_concat(a: Seq<FdtOp>, b: Seq<FdtOp>, v: u32)
    ensures
        fdt_has_phandle(a + b, v) == (fdt_has_phandle(a, v) || fdt_has_phandle(b, v)),
    decreases b.len(),
{
    if b.len() == 0 {
        assert(a + b =~= a);
    } else {
        assert((a + b).drop_last() =~= a + b.drop_last());
        lemma_phandle_concat(a, b.drop_last(), v);
    }
}

/// `ops` holds a phandle property of value `v` exactly when one of its entries is one.
proof fn lemma_phandle_at(ops: Seq<FdtOp>, v: u32)
    ensures
        fdt_has_phandle(ops, v) <==> exists|i: int| 0 <= i < ops.len() && #[trigger] ops[i] == phandle_prop(v),
    decreases ops.len(),
{
    if ops.len() > 0 {
        let rest = ops.drop_last();
        lemma_phandle_at(rest, v);
        if fdt_has_phandle(ops, v) {
            if ops.last() == phandle_prop(v) {
                assert(ops[ops.len() - 1] == phandle_prop(v));
            } else {
                let i = choose|i: int| 0 <= i < rest.len() && #[trigger] rest[i] == phandle_prop(v);
                assert(ops[i] == rest[i]);
            }
        } else {
            assert forall|i: int| 0 <= i < ops.len() implies #[trigger] ops[i] != phandle_prop(v) by {
                if i < ops.len() - 1 {
                    assert(ops[i] == rest[i]);
                }
            }
        }
    }
}

/// Distinct values have distinct big-endian encodings.
proof fn lemma_be32_injective(a: u32, b: u32)
    requires
        be32(a) == be32(b),
    ensures
        a == b,
{
    assert(be32(a)[0] == be32(b)[0]);
    assert(be32(a)[1] == be32(b)[1]);
    assert(be32(a)[2] == be32(b)[2]);
    assert(be32(a)[3] == be32(b)[3]);
    assert(a == b) by (bit_vector)
        requires
            (a >> 24) as u8 == (b >> 24) as u8,
            (a >> 16) as u8 == (b >> 16) as u8,
            (a >> 8) as u8 == (b >> 8) as u8,
            a as u8 == b as u8,
    ;
}

/// The `cpus` node holds phandle 1 and no other.
proof fn lemma_cpus_phandles()
    ensures
        forall|v: u32| #[trigger] fdt_has_phandle(cpus_ops(), v) == (v == 1),
{
    lemma_shared_names();
    lemma_cpus_names();
    let ops = cpus_ops();
    assert forall|v: u32| #[trigger] fdt_has_phandle(ops, v) == (v == 1) by {
        lemma_phandle_at(ops, v);
        if v == 1 {
            assert(ops[12] == phandle_prop(1));
        } else {
            assert forall|i: int| 0 <= i < ops.len() implies #[trigger] ops[i] != phandle_prop(v) by {
                if i == 12 && be32(1) == be32(v) {
                    lemma_be32_injective(1, v);
                }
            }
        }
    }
}

/// The PLIC node holds phandle 2 and no other.
proof fn lemma_plic_phandles()
    ensures
        forall|v: u32| #[trigger] fdt_has_phandle(plic_ops(), v) == (v == 2),
{
    lemma_shared_names();
    lemma_soc_names();
    let ops = plic_ops();
    assert forall|v: u32| #[trigger] fdt_has_phandle(ops, v) == (v == 2) by {
        lemma_phandle_at(ops, v);
        if v == 2 {
            assert(ops[2] == phandle_prop(2));
        } else {
            assert forall|i: int| 0 <= i < ops.len() implies #[trigger] ops[i] != phandle_prop(v) by {
                if i == 2 && be32(2) == be32(v) {
                    lemma_be32_injective(2, v);
                }
            }
        }
    }
}

/// No entry of `ops` is a phandle property.
proof fn lemma_no_phandles(ops: Seq<FdtOp>, v: u32)
    requires
        forall|i: int| 0 <= i < ops.len() ==> !(#[trigger] ops[i] matches FdtOp::Prop(n, _) && n == "phandle"@),
    ensures
        !fdt_has_phandle(ops, v),
{
    lemma_phandle_at(ops, v);
}

/// The `soc` node holds phandle 2 (the PLIC's) and no other.
proof fn lemma_soc_phandles()
    ensures
        forall|v: u32| #[trigger] fdt_has_phandle(soc_ops(), v) == (v == 2),
{
    lemma_shared_names();
    lemma_soc_names();
    lemma_plic_phandles();
    let head = seq![
        FdtOp::BeginNode("soc"@),
        prop_u32("#address-cells"@, 2),
        prop_u32("#size-cells"@, 2),
        prop_str("compatible"@, "simple-bus"@),
        prop_null("ranges"@),
    ];
    let end = seq![FdtOp::EndNode];
    assert forall|v: u32| #[trigger] fdt_has_phandle(soc_ops(), v) == (v == 2) by {
        lemma_no_phandles(head, v);
        lemma_no_phandles(clint_ops(), v);
        lemma_no_phandles(serial_ops(), v);
        lemma_no_phandles(end, v);
        lemma_phandle_concat(head, clint_ops(), v);
        lemma_phandle_concat(head + clint_ops(), plic_ops(), v);
        lemma_phandle_concat(head + clint_ops() + plic_ops(), serial_ops(), v);
        lemma_phandle_concat(head + clint_ops() + plic_ops() + serial_ops(), end, v);
    }
}

/// A string value that the writer takes, of at most 64 characters.
pub open spec fn value_ok(v: Seq<char>) -> bool {
    v.len() <= 64 && no_nul_from(v, 0)
}

/// Whether `op` is one of the initramfs properties.
pub open spec fn is_initrd_prop(op: FdtOp) -> bool {
    op matches FdtOp::Prop(n, _) && (n == "linux,initrd-start"@ || n == "linux,initrd-end"@)
}

/// A name that does not start with 'l' is neither initramfs property.
proof fn lemma_not_initrd_name(n: Seq<char>)
    requires
        n.len() > 0,
        n[0] != 'l',
    ensures
        n != "linux,initrd-start"@,
        n != "linux,initrd-end"@,
{
    reveal_strlit("linux,initrd-start");
    reveal_strlit("linux,initrd-end");
    if n == "linux,initrd-start"@ {
        assert(n[0] == 'l');
    }
    if n == "linux,initrd-end"@ {
        assert(n[0] == 'l');
    }
}

/// The initramfs location is in the device tree exactly when there is an
/// initramfs: with `initrd_size` > 0 the tree holds `linux,initrd-start` =
/// INITRD_BASE and `linux,initrd-end` = INITRD_BASE + initrd_size; without one it
/// holds neither property.
pub proof fn lemma_initrd_properties(initrd_size: u64)
    requires
        INITRD_BASE + initrd_size <= u64::MAX,
    ensures
        initrd_size > 0 ==> dtb_ops(initrd_size).contains(prop_u64("linux,initrd-start"@, INITRD_BASE)),
        initrd_size > 0 ==> dtb_ops(initrd_size).contains(
            prop_u64("linux,initrd-end"@, (INITRD_BASE + initrd_size) as u64)),
        initrd_size == 0 ==> forall|i: int| 0 <= i < dtb_ops(initrd_size).len() ==> !is_initrd_prop(#[trigger] dtb_ops(initrd_size)[i]),
{
    let ops = dtb_ops(initrd_size);
    let pre = root_ops() + seq![
        FdtOp::BeginNode("chosen"@),
        prop_str("stdout-path"@, "/soc/serial@10000000"@),
        prop_str("bootargs"@, "console=ttyS0 earlycon=uart8250,mmio,0x10000000 rdinit=/init"@),
    ];
    assert(pre.len() == 8);
    if initrd_size > 0 {
        assert(ops[8] == prop_u64("linux,initrd-start"@, INITRD_BASE));
        assert(ops[9] == prop_u64("linux,initrd-end"@, (INITRD_BASE + initrd_size) as u64));
    } else {
        reveal_strlit("#address-cells");
        lemma_not_initrd_name("#address-cells"@);
        reveal_strlit("#size-cells");
        lemma_not_initrd_name("#size-cells"@);
        reveal_strlit("compatible");
        lemma_not_initrd_name("compatible"@);
        reveal_strlit("model");
        lemma_not_initrd_name("model"@);
        reveal_strlit("stdout-path");
        lemma_not_initrd_name("stdout-path"@);
        reveal_strlit("bootargs");
        lemma_not_initrd_name("bootargs"@);
        reveal_strlit("timebase-frequency");
        lemma_not_initrd_name("timebase-frequency"@);
        reveal_strlit("device_type");
        lemma_not_initrd_name("device_type"@);
        reveal_strlit("reg");
        lemma_not_initrd_name("reg"@);
        reveal_strlit("status");
        lemma_not_initrd_name("status"@);
        reveal_strlit("riscv,isa");
        lemma_not_initrd_name("riscv,isa"@);
        reveal_strlit("mmu-type");
        lemma_not_initrd_name("mmu-type"@);
        reveal_strlit("phandle");
        lemma_not_initrd_name("phandle"@);
        reveal_strlit("#interrupt-cells");
        lemma_not_initrd_name("#interrupt-cells"@);
        reveal_strlit("interrupt-controller");
        lemma_not_initrd_name("interrupt-controller"@);
        reveal_strlit("ranges");
        lemma_not_initrd_name("ranges"@);
        reveal_strlit("interrupts-extended");
        lemma_not_initrd_name("interrupts-extended"@);
        reveal_strlit("riscv,ndev");
        lemma_not_initrd_name("riscv,ndev"@);
        reveal_strlit("clock-frequency");
        lemma_not_initrd_name("clock-frequency"@);
        reveal_strlit("interrupts");
        lemma_not_initrd_name("interrupts"@);
        reveal_strlit("interrupt-parent");
        lemma_not_initrd_name("interrupt-parent"@);
        let rest = seq![FdtOp::EndNode] + cpus_ops() + memory_ops() + soc_ops() + seq![FdtOp::EndNode];
        assert(ops =~= pre + rest);
        assert forall|i: int| 0 <= i < ops.len() implies !is_initrd_prop(#[trigger] ops[i]) by {
            if i < 8 {
                assert(ops[i] == pre[i]);
            } else {
                assert(ops[i] == rest[i - 8]);
            }
        }
    }
}

/// The tree advertises the timer rate that the machine keeps: `cpus` holds a
/// `timebase-frequency` equal to the machine-timer ticks in one second of wall
/// time (see `advance_mtime`).
pub proof fn lemma_timebase_matches_mtime(initrd_size: u64)
    ensures
        mtime_ticks(1_000_000_000) <= u32::MAX,
        dtb_ops(initrd_size).contains(prop_u32("timebase-frequency"@, mtime_ticks(1_000_000_000) as u32)),
{
    let ops = dtb_ops(initrd_size);
    let pre = root_ops() + chosen_ops(initrd_size);
    let i: int = pre.len() as int + 3;
    assert(ops =~= pre + (cpus_ops() + memory_ops() + soc_ops() + seq![FdtOp::EndNode]));
    assert(ops[i] == cpus_ops()[3]);
    assert(mtime_ticks(1_000_000_000) == 10_000_000);
}

/// The tree describes the machine the bus implements: RAM starts at RAM_BASE;
/// the CLINT, PLIC and UART `reg` windows are exactly the address ranges that
/// the bus routes to each of them; the UART's interrupt is the PLIC source it
/// raises.
pub proof fn lemma_tree_matches_bus(initrd_size: u64)
    ensures
        dtb_ops(initrd_size).contains(prop_cells("reg"@, seq![0u32, RAM_BASE as u32, 0u32, 0x1000_0000u32])),
        dtb_ops(initrd_size).contains(prop_cells("reg"@, seq![0u32, CLINT_BASE as u32, 0u32, 0x1_0000u32])),
        forall|a: u64| (region(a) == 1) == (CLINT_BASE <= a < CLINT_BASE + 0x1_0000),
        dtb_ops(initrd_size).contains(prop_cells("reg"@, seq![0u32, PLIC_BASE as u32, 0u32, 0x400_0000u32])),
        forall|a: u64| (region(a) == 2) == (PLIC_BASE <= a < PLIC_BASE + 0x400_0000),
        dtb_ops(initrd_size).contains(prop_cells("reg"@, seq![0u32, UART_BASE as u32, 0u32, 0x100u32])),
        forall|a: u64| (region(a) == 3) == (UART_BASE <= a < UART_BASE + 0x100),
        dtb_ops(initrd_size).contains(prop_u32("interrupts"@, UART_IRQ)),
{
    let ops = dtb_ops(initrd_size);
    let pre = root_ops() + chosen_ops(initrd_size) + cpus_ops();
    let head = seq![
        FdtOp::BeginNode("soc"@),
        prop_u32("#address-cells"@, 2),
        prop_u32("#size-cells"@, 2),
        prop_str("compatible"@, "simple-bus"@),
        prop_null("ranges"@),
    ];
    let soc = head + clint_ops() + plic_ops() + serial_ops() + seq![FdtOp::EndNode];
    assert(soc_ops() =~= soc);
    assert(ops =~= pre + (memory_ops() + (soc + seq![FdtOp::EndNode])));
    let m: int = pre.len() as int;
    let o: int = m + 4;
    assert(ops[m + 2] == memory_ops()[2]);
    assert(ops[o + 8] == clint_ops()[3]);
    assert(ops[o + 16] == plic_ops()[6]);
    assert(ops[o + 21] == serial_ops()[2]);
    assert(ops[o + 23] == serial_ops()[4]);
}

/// The property names that several parts of the tree use are ones the writer takes.
proof fn lemma_shared_names()
    ensures
        prop_name_ok("#address-cells"@),
        "#address-cells"@ != "phandle"@,
        prop_name_ok("#size-cells"@),
        "#size-cells"@ != "phandle"@,
        prop_name_ok("compatible"@),
        "compatible"@ != "phandle"@,
        prop_name_ok("device_type"@),
        "device_type"@ != "phandle"@,
        prop_name_ok("reg"@),
        "reg"@ != "phandle"@,
        prop_name_ok("#interrupt-cells"@),
        "#interrupt-cells"@ != "phandle"@,
        prop_name_ok("interrupt-controller"@),
        "interrupt-controller"@ != "phandle"@,
        prop_name_ok("phandle"@),
{
    assert(prop_name_ok("#address-cells"@)) by { reveal_strlit("#address-cells"); reveal_with_fuel(prop_chars_from, 32); }
    assert("#address-cells"@ != "phandle"@) by { reveal_strlit("#address-cells"); reveal_strlit("phandle"); }
    assert(prop_name_ok("#size-cells"@)) by { reveal_strlit("#size-cells"); reveal_with_fuel(prop_chars_from, 32); }
    assert("#size-cells"@ != "phandle"@) by { reveal_strlit("#size-cells"); reveal_strlit("phandle"); }
    assert(prop_name_ok("compatible"@)) by { reveal_strlit("compatible"); reveal_with_fuel(prop_chars_from, 32); }
    assert("compatible"@ != "phandle"@) by { reveal_strlit("compatible"); reveal_strlit("phandle"); }
    assert(prop_name_ok("device_type"@)) by { reveal_strlit("device_type"); reveal_with_fuel(prop_chars_from, 32); }
    assert("device_type"@ != "phandle"@) by { reveal_strlit("device_type"); reveal_strlit("phandle"); }
    assert(prop_name_ok("reg"@)) by { reveal_strlit("reg"); reveal_with_fuel(prop_chars_from, 32); }
    assert("reg"@ != "phandle"@) by { reveal_strlit("reg"); reveal_strlit("phandle"); }
    assert(prop_name_ok("#interrupt-cells"@)) by { reveal_strlit("#interrupt-cells"); reveal_with_fuel(prop_chars_from, 32); }
    assert("#interrupt-cells"@ != "phandle"@) by { reveal_strlit("#interrupt-cells"); reveal_strlit("phandle"); }
    assert(prop_name_ok("interrupt-controller"@)) by { reveal_strlit("interrupt-controller"); reveal_with_fuel(prop_chars_from, 32); }
    assert("interrupt-controller"@ != "phandle"@) by { reveal_strlit("interrupt-controller"); reveal_strlit("phandle"); }
    assert(prop_name_ok("phandle"@)) by { reveal_strlit("phandle"); reveal_with_fuel(prop_chars_from, 32); }
}

/// The other names and values that write_root writes are ones the writer takes.
proof fn lemma_root_names()
    ensures
        node_name_ok(""@),
        prop_name_ok("model"@),
        "model"@ != "phandle"@,
        value_ok("riscv-virtio"@),
        value_ok("riscv-virtio,qemu"@),
{
    assert(node_name_ok(""@)) by { reveal_strlit(""); reveal_with_fuel(node_chars_from, 32); }
    assert(prop_name_ok("model"@)) by { reveal_strlit("model"); reveal_with_fuel(prop_chars_from, 32); }
    assert("model"@ != "phandle"@) by { reveal_strlit("model"); reveal_strlit("phandle"); }
    assert(value_ok("riscv-virtio"@)) by { reveal_strlit("riscv-virtio"); reveal_with_fuel(no_nul_from, 65); }
    assert(value_ok("riscv-virtio,qemu"@)) by { reveal_strlit("riscv-virtio,qemu"); reveal_with_fuel(no_nul_from, 65); }
}

/// The names and values that write_chosen writes are ones the writer takes.
proof fn lemma_chosen_names()
    ensures
        node_name_ok("chosen"@),
        prop_name_ok("stdout-path"@),
        "stdout-path"@ != "phandle"@,
        prop_name_ok("bootargs"@),
        "bootargs"@ != "phandle"@,
        prop_name_ok("linux,initrd-start"@),
        "linux,initrd-start"@ != "phandle"@,
        prop_name_ok("linux,initrd-end"@),
        "linux,initrd-end"@ != "phandle"@,
        value_ok("/soc/serial@10000000"@),
        value_ok("console=ttyS0 earlycon=uart8250,mmio,0x10000000 rdinit=/init"@),
{
    assert(node_name_ok("chosen"@)) by { reveal_strlit("chosen"); reveal_with_fuel(node_chars_from, 32); }
    assert(prop_name_ok("stdout-path"@)) by { reveal_strlit("stdout-path"); reveal_with_fuel(prop_chars_from, 32); }
    assert("stdout-path"@ != "phandle"@) by { reveal_strlit("stdout-path"); reveal_strlit("phandle"); }
    assert(prop_name_ok("bootargs"@)) by { reveal_strlit("bootargs"); reveal_with_fuel(prop_chars_from, 32); }
    assert("bootargs"@ != "phandle"@) by { reveal_strlit("bootargs"); reveal_strlit("phandle"); }
    assert(prop_name_ok("linux,initrd-start"@)) by { reveal_strlit("linux,initrd-start"); reveal_with_fuel(prop_chars_from, 32); }
    assert("linux,initrd-start"@ != "phandle"@) by { reveal_strlit("linux,initrd-start"); reveal_strlit("phandle"); }
    assert(prop_name_ok("linux,initrd-end"@)) by { reveal_strlit("linux,initrd-end"); reveal_with_fuel(prop_chars_from, 32); }
    assert("linux,initrd-end"@ != "phandle"@) by { reveal_strlit("linux,initrd-end"); reveal_strlit("phandle"); }
    assert(value_ok("/soc/serial@10000000"@)) by { reveal_strlit("/soc/serial@10000000"); reveal_with_fuel(no_nul_from, 65); }
    assert(value_ok("console=ttyS0 earlycon=uart8250,mmio,0x10000000 rdinit=/init"@)) by { reveal_strlit("console=ttyS0 earlycon=uart8250,mmio,0x10000000 rdinit=/init"); reveal_with_fuel(no_nul_from, 65); }
}

/// The other names and values that write_cpus writes are ones the writer takes.
proof fn lemma_cpus_names()
    ensures
        node_name_ok("cpus"@),
        node_name_ok("cpu@0"@),
        node_name_ok("interrupt-controller"@),
        prop_name_ok("timebase-frequency"@),
        "timebase-frequency"@ != "phandle"@,
        prop_name_ok("status"@),
        "status"@ != "phandle"@,
        prop_name_ok("riscv,isa"@),
        "riscv,isa"@ != "phandle"@,
        prop_name_ok("mmu-type"@),
        "mmu-type"@ != "phandle"@,
        value_ok("cpu"@),
        value_ok("okay"@),
        value_ok("riscv"@),
        value_ok("rv64imafdcsu"@),
        value_ok("riscv,sv39"@),
        value_ok("riscv,cpu-intc"@),
{
    assert(node_name_ok("cpus"@)) by { reveal_strlit("cpus"); reveal_with_fuel(node_chars_from, 32); }
    assert(node_name_ok("cpu@0"@)) by { reveal_strlit("cpu@0"); reveal_with_fuel(node_chars_from, 32); }
    assert(node_name_ok("interrupt-controller"@)) by { reveal_strlit("interrupt-controller"); reveal_with_fuel(node_chars_from, 32); }
    assert(prop_name_ok("timebase-frequency"@)) by { reveal_strlit("timebase-frequency"); reveal_with_fuel(prop_chars_from, 32); }
    assert("timebase-frequency"@ != "phandle"@) by { reveal_strlit("timebase-frequency"); reveal_strlit("phandle"); }
    assert(prop_name_ok("status"@)) by { reveal_strlit("status"); reveal_with_fuel(prop_chars_from, 32); }
    assert("status"@ != "phandle"@) by { reveal_strlit("status"); reveal_strlit("phandle"); }
    assert(prop_name_ok("riscv,isa"@)) by { reveal_strlit("riscv,isa"); reveal_with_fuel(prop_chars_from, 32); }
    assert("riscv,isa"@ != "phandle"@) by { reveal_strlit("riscv,isa"); reveal_strlit("phandle"); }
    assert(prop_name_ok("mmu-type"@)) by { reveal_strlit("mmu-type"); reveal_with_fuel(prop_chars_from, 32); }
    assert("mmu-type"@ != "phandle"@) by { reveal_strlit("mmu-type"); reveal_strlit("phandle"); }
    assert(value_ok("cpu"@)) by { reveal_strlit("cpu"); reveal_with_fuel(no_nul_from, 65); }
    assert(value_ok("okay"@)) by { reveal_strlit("okay"); reveal_with_fuel(no_nul_from, 65); }
    assert(value_ok("riscv"@)) by { reveal_strlit("riscv"); reveal_with_fuel(no_nul_from, 65); }
    assert(value_ok("rv64imafdcsu"@)) by { reveal_strlit("rv64imafdcsu"); reveal_with_fuel(no_nul_from, 65); }
    assert(value_ok("riscv,sv39"@)) by { reveal_strlit("riscv,sv39"); reveal_with_fuel(no_nul_from, 65); }
    assert(value_ok("riscv,cpu-intc"@)) by { reveal_strlit("riscv,cpu-intc"); reveal_with_fuel(no_nul_from, 65); }
}

/// The other names and values that write_memory writes are ones the writer takes.
proof fn lemma_memory_names()
    ensures
        node_name_ok("memory@80000000"@),
        value_ok("memory"@),
{
    assert(node_name_ok("memory@80000000"@)) by { reveal_strlit("memory@80000000"); reveal_with_fuel(node_chars_from, 32); }
    assert(value_ok("memory"@)) by { reveal_strlit("memory"); reveal_with_fuel(no_nul_from, 65); }
}

/// The other names and values that write_soc writes are ones the writer takes.
proof fn lemma_soc_names()
    ensures
        node_name_ok("soc"@),
        node_name_ok("clint@2000000"@),
        node_name_ok("plic@c000000"@),
        node_name_ok("serial@10000000"@),
        prop_name_ok("ranges"@),
        "ranges"@ != "phandle"@,
        prop_name_ok("interrupts-extended"@),
        "interrupts-extended"@ != "phandle"@,
        prop_name_ok("riscv,ndev"@),
        "riscv,ndev"@ != "phandle"@,
        prop_name_ok("clock-frequency"@),
        "clock-frequency"@ != "phandle"@,
        prop_name_ok("interrupts"@),
        "interrupts"@ != "phandle"@,
        prop_name_ok("interrupt-parent"@),
        "interrupt-parent"@ != "phandle"@,
        value_ok("simple-bus"@),
        value_ok("riscv,clint0"@),
        value_ok("sifive,plic-1.0.0"@),
        value_ok("ns16550a"@),
{
    assert(node_name_ok("soc"@)) by { reveal_strlit("soc"); reveal_with_fuel(node_chars_from, 32); }
    assert(node_name_ok("clint@2000000"@)) by { reveal_strlit("clint@2000000"); reveal_with_fuel(node_chars_from, 32); }
    assert(node_name_ok("plic@c000000"@)) by { reveal_strlit("plic@c000000"); reveal_with_fuel(node_chars_from, 32); }
    assert(node_name_ok("serial@10000000"@)) by { reveal_strlit("serial@10000000"); reveal_with_fuel(node_chars_from, 32); }
    assert(prop_name_ok("ranges"@)) by { reveal_strlit("ranges"); reveal_with_fuel(prop_chars_from, 32); }
    assert("ranges"@ != "phandle"@) by { reveal_strlit("ranges"); reveal_strlit("phandle"); }
    assert(prop_name_ok("interrupts-extended"@)) by { reveal_strlit("interrupts-extended"); reveal_with_fuel(prop_chars_from, 32); }
    assert("interrupts-extended"@ != "phandle"@) by { reveal_strlit("interrupts-extended"); reveal_strlit("phandle"); }
    assert(prop_name_ok("riscv,ndev"@)) by { reveal_strlit("riscv,ndev"); reveal_with_fuel(prop_chars_from, 32); }
    assert("riscv,ndev"@ != "phandle"@) by { reveal_strlit("riscv,ndev"); reveal_strlit("phandle"); }
    assert(prop_name_ok("clock-frequency"@)) by { reveal_strlit("clock-frequency"); reveal_with_fuel(prop_chars_from, 32); }
    assert("clock-frequency"@ != "phandle"@) by { reveal_strlit("clock-frequency"); reveal_strlit("phandle"); }
    assert(prop_name_ok("interrupts"@)) by { reveal_strlit("interrupts"); reveal_with_fuel(prop_chars_from, 32); }
    assert("interrupts"@ != "phandle"@) by { reveal_strlit("interrupts"); reveal_strlit("phandle"); }
    assert(prop_name_ok("interrupt-parent"@)) by { reveal_strlit("interrupt-parent"); reveal_with_fuel(prop_chars_from, 32); }
    assert("interrupt-parent"@ != "phandle"@) by { reveal_strlit("interrupt-parent"); reveal_strlit("phandle"); }
    assert(value_ok("simple-bus"@)) by { reveal_strlit("simple-bus"); reveal_with_fuel(no_nul_from, 65); }
    assert(value_ok("riscv,clint0"@)) by { reveal_strlit("riscv,clint0"); reveal_with_fuel(no_nul_from, 65); }
    assert(value_ok("sifive,plic-1.0.0"@)) by { reveal_strlit("sifive,plic-1.0.0"); reveal_with_fuel(no_nul_from, 65); }
    assert(value_ok("ns16550a"@)) by { reveal_strlit("ns16550a"); reveal_with_fuel(no_nul_from, 65); }
}

/// Open the root node and write its properties.
fn write_root(fdt: &mut vm_fdt::FdtWriter) -> (r: Result<vm_fdt::FdtWriterNode, vm_fdt::Error>)
    ensures
        r is Ok ==> wrote(*old(fdt), *final(fdt), root_ops()),
        fdt_ready(*old(fdt)) ==> (r matches Ok(n) && fdt_node_depth(n) == fdt_depth(fdt_ops(*old(fdt))) + 1
            && part_written(*old(fdt), *final(fdt), None, 1, 0x4000)),
{
    broadcast use group_fdt_push;
    proof {
        lemma_shared_names();
        lemma_root_names();
    }
    let root = begin_node(fdt, "")?;
    property_u32(fdt, "#address-cells", 2)?;
    property_u32(fdt, "#size-cells", 2)?;
    property_string(fdt, "compatible", "riscv-virtio")?;
    property_string(fdt, "model", "riscv-virtio,qemu")?;
    assert(fdt_ops(*fdt) =~= fdt_ops(*old(fdt)) + root_ops());
    Ok(root)
}

/// Write the `chosen` node.
fn write_chosen(fdt: &mut vm_fdt::FdtWriter, initrd_size: u64) -> (r: Result<(), vm_fdt::Error>)
    requires
        INITRD_BASE + initrd_size <= u64::MAX,
    ensures
        r is Ok ==> wrote(*old(fdt), *final(fdt), chosen_ops(initrd_size)),
        fdt_ready(*old(fdt)) ==> r is Ok && part_written(*old(fdt), *final(fdt), None, 0, 0x4000),
{
    broadcast use group_fdt_push;
    proof { lemma_chosen_names(); }
    let chosen = begin_node(fdt, "chosen")?;
    property_string(fdt, "stdout-path", "/soc/serial@10000000")?;
    property_string(fdt, "bootargs", "console=ttyS0 earlycon=uart8250,mmio,0x10000000 rdinit=/init")?;
    if initrd_size > 0 {
        property_u64(fdt, "linux,initrd-start", INITRD_BASE)?;
        property_u64(fdt, "linux,initrd-end", INITRD_BASE + initrd_size)?;
    }
    end_node(fdt, chosen)?;
    assert(fdt_ops(*fdt) =~= fdt_ops(*old(fdt)) + chosen_ops(initrd_size));
    Ok(())
}

/// Write the `cpus` node.
#[verifier::rlimit(100)]
fn write_cpus(fdt: &mut vm_fdt::FdtWriter) -> (r: Result<(), vm_fdt::Error>)
    ensures
        r is Ok ==> wrote(*old(fdt), *final(fdt), cpus_ops()),
        fdt_ready(*old(fdt)) && !fdt_has_phandle(fdt_ops(*old(fdt)), 1) ==> r is Ok
            && part_written(*old(fdt), *final(fdt), Some(1u32), 0, 0x4000),
{
    broadcast use group_fdt_push;
    proof {
        lemma_shared_names();
        lemma_cpus_names();
    }
    let cpus = begin_node(fdt, "cpus")?;
    property_u32(fdt, "#address-cells", 1)?;
    property_u32(fdt, "#size-cells", 0)?;
    property_u32(fdt, "timebase-frequency", 10_000_000)?;

    let cpu0 = begin_node(fdt, "cpu@0")?;
    property_string(fdt, "device_type", "cpu")?;
    property_u32(fdt, "reg", 0)?;
    property_string(fdt, "status", "okay")?;
    property_string(fdt, "compatible", "riscv")?;
    property_string(fdt, "riscv,isa", "rv64imafdcsu")?;
    property_string(fdt, "mmu-type", "riscv,sv39")?;

    // cpu interrupt controller (phandle 1)
    let intc = begin_node(fdt, "interrupt-controller")?;
    property_phandle(fdt, 1)?;
    property_u32(fdt, "#interrupt-cells", 1)?;
    property_string(fdt, "compatible", "riscv,cpu-intc")?;
    property_null(fdt, "interrupt-controller")?;
    end_node(fdt, intc)?;

    end_node(fdt, cpu0)?;
    end_node(fdt, cpus)?;
    assert(fdt_ops(*fdt) =~= fdt_ops(*old(fdt)) + cpus_ops());
    assert forall|v: u32| #[trigger] fdt_has_phandle(fdt_ops(*fdt), v)
        == (fdt_has_phandle(fdt_ops(*old(fdt)), v) || Some(1u32) == Some(v)) by {
        lemma_phandle_concat(fdt_ops(*old(fdt)), cpus_ops(), v);
        lemma_cpus_phandles();
    }
    Ok(())
}

/// Write the memory node: 256 MiB; address and size are two cells each.
fn write_memory(fdt: &mut vm_fdt::FdtWriter) -> (r: Result<(), vm_fdt::Error>)
    ensures
        r is Ok ==> wrote(*old(fdt), *final(fdt), memory_ops()),
        fdt_ready(*old(fdt)) ==> r is Ok && part_written(*old(fdt), *final(fdt), None, 0, 0x4000),
{
    broadcast use group_fdt_push;
    proof {
        lemma_shared_names();
        lemma_memory_names();
    }
    let memory = begin_node(fdt, "memory@80000000")?;
    property_string(fdt, "device_type", "memory")?;
    let mem_reg: [u32; 4] = [0x0000_0000, 0x8000_0000, 0x0000_0000, 0x1000_0000];
    property_array_u32(fdt, "reg", &mem_reg)?;
    end_node(fdt, memory)?;
    assert(mem_reg@ =~= seq![0x0000_0000u32, 0x8000_0000u32, 0x0000_0000u32, 0x1000_0000u32]);
    assert(fdt_ops(*fdt) =~= fdt_ops(*old(fdt)) + memory_ops());
    Ok(())
}

/// Write the CLINT node: MSIP (3) and MTIP (7) of the cpu interrupt controller.
fn write_clint(fdt: &mut vm_fdt::FdtWriter) -> (r: Result<(), vm_fdt::Error>)
    ensures
        r is Ok ==> wrote(*old(fdt), *final(fdt), clint_ops()),
        fdt_leaf_ready(*old(fdt)) ==> r is Ok && part_written(*old(fdt), *final(fdt), None, 0, 0x1000),
{
    broadcast use group_fdt_push;
    proof {
        lemma_shared_names();
        lemma_soc_names();
    }
    let clint = begin_node(fdt, "clint@2000000")?;
    property_string(fdt, "compatible", "riscv,clint0")?;
    let clint_irqs: [u32; 4] = [1, 3, 1, 7];
    property_array_u32(fdt, "interrupts-extended", &clint_irqs)?;
    let clint_reg: [u32; 4] = [0x0000_0000, 0x0200_0000, 0x0000_0000, 0x0001_0000];
    property_array_u32(fdt, "reg", &clint_reg)?;
    end_node(fdt, clint)?;
    assert(clint_irqs@ =~= seq![1u32, 3u32, 1u32, 7u32]);
    assert(clint_reg@ =~= seq![0x0000_0000u32, 0x0200_0000u32, 0x0000_0000u32, 0x0001_0000u32]);
    assert(fdt_ops(*fdt) =~= fdt_ops(*old(fdt)) + clint_ops());
    Ok(())
}

/// Write the PLIC node (phandle 2): MEIP (11) and SEIP (9).
fn write_plic(fdt: &mut vm_fdt::FdtWriter) -> (r: Result<(), vm_fdt::Error>)
    ensures
        r is Ok ==> wrote(*old(fdt), *final(fdt), plic_ops()),
        fdt_leaf_ready(*old(fdt)) && !fdt_has_phandle(fdt_ops(*old(fdt)), 2) ==> r is Ok
            && part_written(*old(fdt), *final(fdt), Some(2u32), 0, 0x1000),
{
    broadcast use group_fdt_push;
    proof {
        lemma_shared_names();
        lemma_soc_names();
    }
    let plic = begin_node(fdt, "plic@c000000")?;
    property_string(fdt, "compatible", "sifive,plic-1.0.0")?;
    property_phandle(fdt, 2)?;
    property_u32(fdt, "#interrupt-cells", 1)?;
    property_null(fdt, "interrupt-controller")?;
    let plic_irqs: [u32; 4] = [1, 11, 1, 9];
    property_array_u32(fdt, "interrupts-extended", &plic_irqs)?;
    let plic_reg: [u32; 4] = [0x0000_0000, 0x0C00_0000, 0x0000_0000, 0x0400_0000];
    property_array_u32(fdt, "reg", &plic_reg)?;
    property_u32(fdt, "riscv,ndev", 31)?;
    end_node(fdt, plic)?;
    assert(plic_irqs@ =~= seq![1u32, 11u32, 1u32, 9u32]);
    assert(plic_reg@ =~= seq![0x0000_0000u32, 0x0C00_0000u32, 0x0000_0000u32, 0x0400_0000u32]);
    assert(fdt_ops(*fdt) =~= fdt_ops(*old(fdt)) + plic_ops());
    assert forall|v: u32| #[trigger] fdt_has_phandle(fdt_ops(*fdt), v)
        == (fdt_has_phandle(fdt_ops(*old(fdt)), v) || Some(2u32) == Some(v)) by {
        lemma_phandle_concat(fdt_ops(*old(fdt)), plic_ops(), v);
        lemma_plic_phandles();
    }
    Ok(())
}

/// Write the UART node.
fn write_serial(fdt: &mut vm_fdt::FdtWriter) -> (r: Result<(), vm_fdt::Error>)
    ensures
        r is Ok ==> wrote(*old(fdt), *final(fdt), serial_ops()),
        fdt_leaf_ready(*old(fdt)) ==> r is Ok && part_written(*old(fdt), *final(fdt), None, 0, 0x1000),
{
    broadcast use group_fdt_push;
    proof {
        lemma_shared_names();
        lemma_soc_names();
    }
    let serial = begin_node(fdt, "serial@10000000")?;
    property_string(fdt, "compatible", "ns16550a")?;
    let serial_reg: [u32; 4] = [0x0000_0000, 0x1000_0000, 0x0000_0000, 0x0000_0100];
    property_array_u32(fdt, "reg", &serial_reg)?;
    property_u32(fdt, "clock-frequency", 3_686_400)?;
    property_u32(fdt, "interrupts", 10)?;
    property_u32(fdt, "interrupt-parent", 2)?;
    end_node(fdt, serial)?;
    assert(serial_reg@ =~= seq![0x0000_0000u32, 0x1000_0000u32, 0x0000_0000u32, 0x0000_0100u32]);
    assert(fdt_ops(*fdt) =~= fdt_ops(*old(fdt)) + serial_ops());
    Ok(())
}

/// Write the `soc` node with its devices.
fn write_soc(fdt: &mut vm_fdt::FdtWriter) -> (r: Result<(), vm_fdt::Error>)
    ensures
        r is Ok ==> wrote(*old(fdt), *final(fdt), soc_ops()),
        fdt_ready(*old(fdt)) && !fdt_has_phandle(fdt_ops(*old(fdt)), 2) ==> r is Ok
            && part_written(*old(fdt), *final(fdt), Some(2u32), 0, 0x4000),
{
    broadcast use group_fdt_push;
    proof {
        lemma_shared_names();
        lemma_soc_names();
    }
    let soc = begin_node(fdt, "soc")?;
    property_u32(fdt, "#address-cells", 2)?;
    property_u32(fdt, "#size-cells", 2)?;
    property_string(fdt, "compatible", "simple-bus")?;
    property_null(fdt, "ranges")?;
    write_clint(fdt)?;
    write_plic(fdt)?;
    write_serial(fdt)?;
    end_node(fdt, soc)?;
    assert(fdt_ops(*fdt) =~= fdt_ops(*old(fdt)) + soc_ops());
    assert forall|v: u32| #[trigger] fdt_has_phandle(fdt_ops(*fdt), v)
        == (fdt_has_phandle(fdt_ops(*old(fdt)), v) || Some(2u32) == Some(v)) by {
        lemma_phandle_concat(fdt_ops(*old(fdt)), soc_ops(), v);
        lemma_soc_phandles();
    }
    Ok(())
}

/// Write the whole tree and finish the blob; with every name and value one the
/// writer takes, this always succeeds.
fn write_tree(initrd_size: u64) -> (r: Result<Vec<u8>, vm_fdt::Error>)
    requires
        INITRD_BASE + initrd_size <= u64::MAX,
    ensures
        r matches Ok(b) && b@ == fdt_blob(dtb_ops(initrd_size)),
{
    broadcast use group_fdt_push;
    let mut fdt = fdt_new()?;
    let root = write_root(&mut fdt)?;
    write_chosen(&mut fdt, initrd_size)?;
    write_cpus(&mut fdt)?;
    write_memory(&mut fdt)?;
    write_soc(&mut fdt)?;
    end_node(&mut fdt, root)?;
    assert(fdt_ops(fdt) =~= dtb_ops(initrd_size));
    finish(fdt)
}

/// Build a Flattened Device Tree blob for the QEMU virt-like machine. When
/// `initrd_size > 0`, `chosen` gets `linux,initrd-start` = INITRD_BASE and
/// `linux,initrd-end` = INITRD_BASE + initrd_size.
/// It always succeeds: every name and value written is one the writer takes.
pub fn build_dtb(initrd_size: u64) -> (r: Result<Vec<u8>, DtbError>)
    requires
        INITRD_BASE + initrd_size <= u64::MAX,
    ensures
        r matches Ok(b) && b@ == fdt_blob(dtb_ops(initrd_size)),
{
    match write_tree(initrd_size) {
        Ok(bytes) => Ok(bytes),
        Err(_) => Err(DtbError),
    }
}

} // verus!
