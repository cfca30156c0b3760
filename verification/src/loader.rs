use vstd::prelude::*;
use crate::bus::Bus;

verus! {

pub const RAM_BASE: u64 = 0x8000_0000;

/// 256 MiB of RAM.
pub const RAM_SIZE: usize = 256 * 1024 * 1024;

/// Program header type of a loadable segment.
pub const PT_LOAD: u32 = 1;

/// ELF type of a position-independent executable.
pub const ET_DYN: u16 = 3;

/// The symbol whose address riscv-tests binaries report their result to.
pub const TOHOST: [u8; 6] = [0x74, 0x6F, 0x68, 0x6F, 0x73, 0x74];

pub open spec fn tohost_name() -> Seq<u8> {
    seq![0x74u8, 0x6Fu8, 0x68u8, 0x6Fu8, 0x73u8, 0x74u8]
}

#[verifier::external_type_specification]
#[verifier::external_body]
pub struct ExGoblinError(goblin::error::Error);

/// A program header of an ELF file.
#[derive(Debug, Clone, Copy, PartialEq, Eq, Structural)]
pub struct Segment {
    pub p_type: u32,
    pub p_offset: u64,
    pub p_filesz: u64,
    pub p_paddr: u64,
}

/// A symbol of an ELF file: its name (when the string table has one) and value.
pub struct ElfSymbol {
    pub name: Option<Vec<u8>>,
    pub value: u64,
}

/// What the loader reads of a parsed ELF file.
pub struct ElfImage {
    pub is_64: bool,
    pub e_type: u16,
    pub entry: u64,
    pub segments: Vec<Segment>,
    pub symbols: Vec<ElfSymbol>,
}

pub ghost struct ElfImageView {
    pub is_64: bool,
    pub e_type: u16,
    pub entry: u64,
    pub segments: Seq<Segment>,
    pub symbols: Seq<(Option<Seq<u8>>, u64)>,
}

pub open spec fn name_view(n: Option<Vec<u8>>) -> Option<Seq<u8>> {
    match n {
        Some(v) => Some(v@),
        None => None,
    }
}

impl View for ElfImage {
    type V = ElfImageView;

    open spec fn view(&self) -> ElfImageView {
        ElfImageView {
            is_64: self.is_64,
            e_type: self.e_type,
            entry: self.entry,
            segments: self.segments@,
            symbols: Seq::new(self.symbols@.len(), |i: int| (name_view(self.symbols@[i].name), self.symbols@[i].value)),
        }
    }
}

/// The ELF file that goblin parses out of `bytes`, or None when it rejects them.
pub uninterp spec fn elf_parse(bytes: Seq<u8>) -> Option<ElfImageView>;

/// Calls `goblin::elf::Elf::parse` and copies out the ELF class, type, entry point,
/// program headers and symbols (with their names looked up in the string table).
/// Trusted: the result is `elf_parse` of the bytes; what goblin accepts is not stated.
#[verifier::external_body]
fn parse_elf(bytes: &[u8]) -> (r: Result<ElfImage, goblin::error::Error>)
    ensures
        match r {
            Ok(img) => elf_parse(bytes@) == Some(img@),
            Err(_) => elf_parse(bytes@) is None,
        },
{
    let elf = goblin::elf::Elf::parse(bytes)?;
    let segments = elf.program_headers.iter().map(|ph| Segment {
        p_type: ph.p_type, p_offset: ph.p_offset, p_filesz: ph.p_filesz, p_paddr: ph.p_paddr }).collect();
    let symbols = elf.syms.iter().map(|s| ElfSymbol {
        name: elf.strtab.get_at(s.st_name).map(|n| n.as_bytes().to_vec()), value: s.st_value }).collect();
    Ok(ElfImage { is_64: elf.is_64, e_type: elf.header.e_type, entry: elf.entry, segments, symbols })
}

/// Why an ELF file could not be loaded.
#[derive(Debug, Clone, Copy, PartialEq, Eq, Structural)]
pub enum LoadError {
    /// The ELF parser rejected the file.
    Parse,
    /// The file is ELF32.
    NotElf64,
    /// A PT_LOAD segment starts below RAM.
    BelowRam { addr: u64 },
    /// A PT_LOAD segment's file range lies outside the file.
    OutOfFile,
    /// A PT_LOAD segment ends past the end of RAM.
    ExceedsRam { addr: u64 },
}

/// A loaded ELF: RAM with its segments, the entry point, and riscv-tests' `tohost`.
pub struct LoadedElf {
    pub bus: Bus,
    pub entry: u64,
    pub tohost_addr: Option<u64>,
}

/// RAM after copying one program header's segment, or why it cannot be copied.
pub open spec fn load_segment(ram: Seq<u8>, seg: Segment, bytes: Seq<u8>, load_offset: u64) -> Result<Seq<u8>, LoadError> {
    if seg.p_type != PT_LOAD {
        Ok(ram)
    } else {
        let start = seg.p_offset as int;
        let len = seg.p_filesz as int;
        let mem_addr = seg.p_paddr.wrapping_add(load_offset);
        if mem_addr < RAM_BASE {
            Err(LoadError::BelowRam { addr: mem_addr })
        } else if start + len > bytes.len() {
            Err(LoadError::OutOfFile)
        } else if (mem_addr - RAM_BASE) + len > RAM_SIZE {
            Err(LoadError::ExceedsRam { addr: mem_addr })
        } else {
            let off = mem_addr - RAM_BASE;
            Ok(ram.subrange(0, off) + bytes.subrange(start, start + len) + ram.subrange(off + len, ram.len() as int))
        }
    }
}

/// RAM after the first `k` program headers, or the first error.
pub open spec fn load_segments(ram: Seq<u8>, segs: Seq<Segment>, bytes: Seq<u8>, load_offset: u64, k: nat) -> Result<Seq<u8>, LoadError>
    decreases k,
{
    if k == 0 {
        Ok(ram)
    } else {
        match load_segments(ram, segs, bytes, load_offset, (k - 1) as nat) {
            Err(e) => Err(e),
            Ok(r) => load_segment(r, segs[k - 1], bytes, load_offset),
        }
    }
}

/// The value of the first symbol named `tohost` at or after index `i`.
pub open spec fn find_tohost(syms: Seq<(Option<Seq<u8>>, u64)>, i: int) -> Option<u64>
    decreases syms.len() - i,
{
    if i < 0 || i >= syms.len() {
        None
    } else if syms[i].0 == Some(tohost_name()) {
        Some(syms[i].1)
    } else {
        find_tohost(syms, i + 1)
    }
}

proof fn lemma_load_error_sticks(ram: Seq<u8>, segs: Seq<Segment>, bytes: Seq<u8>, lo: u64, k: nat, m: nat)
    requires
        k <= m,
        load_segments(ram, segs, bytes, lo, k) is Err,
    ensures
        load_segments(ram, segs, bytes, lo, m) == load_segments(ram, segs, bytes, lo, k),
    decreases m - k,
{
    if k < m {
        lemma_load_error_sticks(ram, segs, bytes, lo, k, (m - 1) as nat);
    }
}

fn is_tohost(name: &Option<Vec<u8>>) -> (r: bool)
    ensures
        r == (name_view(*name) == Some(tohost_name())),
{
    match name {
        None => false,
        Some(n) => {
            assert(name_view(*name) == Some(n@));
            assert(tohost_name().len() == 6);
            if n.len() != 6 {
                return false;
            }
            assert(TOHOST@ =~= tohost_name());
            let mut i: usize = 0;
            while i < 6
                invariant
                    i <= 6,
                    n@.len() == 6,
                    TOHOST@ == tohost_name(),
                    name_view(*name) == Some(n@),
                    forall|j: int| 0 <= j < i ==> n@[j] == tohost_name()[j],
                decreases 6 - i,
            {
                if n[i] != TOHOST[i] {
                    assert(n@[i as int] != tohost_name()[i as int]);
                    assert(n@ != tohost_name());
                    return false;
                }
                i = i + 1;
            }
            assert(n@ =~= tohost_name());
            true
        },
    }
}

/// Load an ELF64 binary: copy its PT_LOAD segments into a fresh 256 MiB RAM at
/// 0x8000_0000 (PIE files are relocated there), and return the entry point and
/// the address of the `tohost` symbol, if any.
pub fn load_elf(bytes: &[u8]) -> (r: Result<LoadedElf, LoadError>)
    ensures
        match elf_parse(bytes@) {
            None => r == Err::<LoadedElf, LoadError>(LoadError::Parse),
            Some(img) => loaded_as(img, bytes@, r),
        },
{
    match parse_elf(bytes) {
        Ok(elf) => load_image(&elf, bytes),
        Err(_) => Err(LoadError::Parse),
    }
}

/// Whether `r` is what loading the parsed image `img` of `bytes` gives: `NotElf64`
/// for ELF32, else the first segment's error, or RAM with the segments copied, the
/// relocated entry point and the `tohost` address.
pub open spec fn loaded_as(img: ElfImageView, bytes: Seq<u8>, r: Result<LoadedElf, LoadError>) -> bool {
    if !img.is_64 {
        r == Err::<LoadedElf, LoadError>(LoadError::NotElf64)
    } else {
        let lo: u64 = if img.e_type == ET_DYN { RAM_BASE } else { 0 };
        match load_segments(Seq::new(RAM_SIZE as nat, |i: int| 0u8), img.segments, bytes, lo, img.segments.len()) {
            Err(e) => r == Err::<LoadedElf, LoadError>(e),
            Ok(ram) => r matches Ok(l) && l.bus@ == ram && l.bus.base() == RAM_BASE
                && l.entry == img.entry.wrapping_add(lo) && l.tohost_addr == find_tohost(img.symbols, 0),
        }
    }
}

/// Load a parsed ELF image of `bytes` (see `loaded_as`).
pub fn load_image(elf: &ElfImage, bytes: &[u8]) -> (r: Result<LoadedElf, LoadError>)
    ensures
        loaded_as(elf@, bytes@, r),
{
    if !elf.is_64 {
        return Err(LoadError::NotElf64);
    }
    let ghost img = elf@;
    // PIE (ET_DYN) files are linked at zero: load them at RAM_BASE.
    let load_offset: u64 = if elf.e_type == ET_DYN { RAM_BASE } else { 0 };
    let mut bus = Bus::new(RAM_SIZE, RAM_BASE);
    let ghost ram0 = bus@;
    let nseg: usize = elf.segments.len();
    let mut k: usize = 0;
    while k < nseg
        invariant
            k <= nseg,
            nseg == img.segments.len(),
            img == elf@,
            ram0 == Seq::new(RAM_SIZE as nat, |i: int| 0u8),
            img.is_64,
            load_offset == (if img.e_type == ET_DYN { RAM_BASE } else { 0 }),
            bus.base() == RAM_BASE,
            bus@.len() == RAM_SIZE,
            load_segments(ram0, img.segments, bytes@, load_offset, k as nat) == Ok::<Seq<u8>, LoadError>(bus@),
        decreases nseg - k,
    {
        let ph = elf.segments[k];
        assert(load_segments(ram0, img.segments, bytes@, load_offset, (k + 1) as nat)
            == load_segment(bus@, ph, bytes@, load_offset));
        if ph.p_type == PT_LOAD {
            let mem_addr: u64 = ph.p_paddr.wrapping_add(load_offset);
            if mem_addr < RAM_BASE {
                proof {
                    lemma_load_error_sticks(ram0, img.segments, bytes@, load_offset, (k + 1) as nat, nseg as nat);
                }
                return Err(LoadError::BelowRam { addr: mem_addr });
            }
            let blen: usize = bytes.len();
            if ph.p_offset > blen as u64 || ph.p_filesz > blen as u64 - ph.p_offset {
                proof {
                    lemma_load_error_sticks(ram0, img.segments, bytes@, load_offset, (k + 1) as nat, nseg as nat);
                }
                return Err(LoadError::OutOfFile);
            }
            let off: u64 = mem_addr - RAM_BASE;
            if off > RAM_SIZE as u64 || ph.p_filesz > RAM_SIZE as u64 - off {
                proof {
                    lemma_load_error_sticks(ram0, img.segments, bytes@, load_offset, (k + 1) as nat, nseg as nat);
                }
                return Err(LoadError::ExceedsRam { addr: mem_addr });
            }
            bus.copy_in(off as usize, bytes, ph.p_offset as usize, ph.p_filesz as usize);
        }
        k = k + 1;
    }
    let nsym: usize = elf.symbols.len();
    let mut tohost_addr: Option<u64> = None;
    let mut i: usize = 0;
    let mut found = false;
    while i < nsym && !found
        invariant
            i <= nsym,
            nsym == img.symbols.len(),
            img == elf@,
            !found ==> tohost_addr is None && find_tohost(img.symbols, 0) == find_tohost(img.symbols, i as int),
            found ==> tohost_addr == find_tohost(img.symbols, 0),
        decreases nsym - i + (if found { 0int } else { 1int }),
    {
        let sym = &elf.symbols[i];
        if is_tohost(&sym.name) {
            tohost_addr = Some(sym.value);
            found = true;
        } else {
            i = i + 1;
        }
    }
    Ok(LoadedElf { bus, entry: elf.entry.wrapping_add(load_offset), tohost_addr })
}

/// Why a raw image could not be placed in RAM.
#[derive(Debug, Clone, Copy, PartialEq, Eq, Structural)]
pub enum RawLoadError {
    /// The image's end does not fit in the address space.
    Overflow { addr: u64, len: usize },
    /// The image runs past the end of RAM.
    TooLarge { addr: u64, len: usize },
}

/// Copy the raw image `bytes` into RAM at physical `phys_addr` (RAM starts at
/// RAM_BASE) and return its length.
pub fn load_raw(bus: &mut Bus, bytes: &[u8], phys_addr: u64) -> (r: Result<usize, RawLoadError>)
    requires
        phys_addr >= RAM_BASE,
        phys_addr - RAM_BASE <= usize::MAX,
    ensures
        ({
            let off = phys_addr - RAM_BASE;
            let len = bytes@.len();
            if off + len > usize::MAX {
                r == Err::<usize, RawLoadError>(RawLoadError::Overflow { addr: phys_addr, len: len as usize })
                    && final(bus)@ == old(bus)@
            } else if off + len > old(bus)@.len() {
                r == Err::<usize, RawLoadError>(RawLoadError::TooLarge { addr: phys_addr, len: len as usize })
                    && final(bus)@ == old(bus)@
            } else {
                r == Ok::<usize, RawLoadError>(len as usize)
                    && final(bus)@ == old(bus)@.subrange(0, off) + bytes@ + old(bus)@.subrange(off + len, old(bus)@.len() as int)
            }
        }),
        final(bus).base() == old(bus).base(),
{
    let off: usize = (phys_addr - RAM_BASE) as usize;
    let len: usize = bytes.len();
    let end: usize = match off.checked_add(len) {
        Some(e) => e,
        None => {
            return Err(RawLoadError::Overflow { addr: phys_addr, len });
        },
    };
    if end > bus.ram_mut().len() {
        return Err(RawLoadError::TooLarge { addr: phys_addr, len });
    }
    bus.copy_in(off, bytes, 0, len);
    assert(bytes@.subrange(0, len as int) =~= bytes@);
    Ok(len)
}

} // verus!
