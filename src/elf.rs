use vstd::prelude::*;
use vstd::slice::slice_subrange;

verus! {

/// Size in bytes of an ELF64 file header.
pub const HEADER_SIZE: usize = 64;

/// Size in bytes of an ELF64 program header.
pub const PROGRAM_HEADER_SIZE: u64 = 56;

/// Class byte of a 64-bit file.
pub const CLASS_64: u8 = 2;

/// Data byte of a little-endian file.
pub const DATA_LITTLE_ENDIAN: u8 = 1;

/// The only ELF version.
pub const CURRENT_VERSION: u8 = 1;

/// Type of an executable file.
pub const TYPE_EXECUTABLE: u16 = 2;

/// Machine number of x86-64.
pub const MACHINE_X86_64: u16 = 0x3E;

/// Type of a loadable segment.
pub const PT_LOAD: u32 = 1;

/// ELF class: 32- or 64-bit.
#[derive(Clone, Copy, Debug, PartialEq, Eq, Structural)]
pub enum ElfClass {
    Elf32,
    Elf64,
}

/// ELF data encoding.
#[derive(Clone, Copy, Debug, PartialEq, Eq, Structural)]
pub enum ElfData {
    LittleEndian,
    BigEndian,
}

/// ELF file type.
#[derive(Clone, Copy, Debug, PartialEq, Eq, Structural)]
pub enum ElfType {
    NoFileType,
    Relocatable,
    Executable,
    Shared,
    Core,
}

/// Program header type.
#[derive(Clone, Copy, Debug, PartialEq, Eq, Structural)]
pub enum PhType {
    Null,
    Load,
    Dynamic,
    Interp,
    Note,
}

/// Why an ELF image was refused.
#[derive(Clone, Copy, Debug, PartialEq, Eq, Structural)]
pub enum ElfError {
    /// Too short for a header, or no ELF magic number.
    InvalidMagic,
    /// Not a 64-bit little-endian version-1 x86-64 executable.
    UnsupportedArchitecture,
    /// The program header table does not fit in the image.
    BadProgramHeader,
    /// Memory for the segments could not be had.
    MemoryAllocationFailed,
    /// A segment's data does not fit in the image.
    LoadFailure,
}

/// The ELF64 file header.
#[derive(Clone, Copy, Debug)]
pub struct Elf64Header {
    pub e_ident: [u8; 16],
    pub e_type: u16,
    pub e_machine: u16,
    pub e_version: u32,
    pub e_entry: u64,
    pub e_phoff: u64,
    pub e_shoff: u64,
    pub e_flags: u32,
    pub e_ehsize: u16,
    pub e_phentsize: u16,
    pub e_phnum: u16,
    pub e_shentsize: u16,
    pub e_shnum: u16,
    pub e_shstrndx: u16,
}

/// An ELF64 program header.
#[derive(Clone, Copy, Debug, PartialEq, Eq, Structural)]
pub struct Elf64ProgramHeader {
    pub p_type: u32,
    pub p_flags: u32,
    pub p_offset: u64,
    pub p_vaddr: u64,
    pub p_paddr: u64,
    pub p_filesz: u64,
    pub p_memsz: u64,
    pub p_align: u64,
}

/// The little-endian 16-bit value at `off`.
pub open spec fn le16(d: Seq<u8>, off: int) -> int {
    d[off] + d[off + 1] * 0x100
}

/// The little-endian 32-bit value at `off`.
pub open spec fn le32(d: Seq<u8>, off: int) -> int {
    le16(d, off) + le16(d, off + 2) * 0x10000
}

/// The little-endian 64-bit value at `off`.
pub open spec fn le64(d: Seq<u8>, off: int) -> int {
    le32(d, off) + le32(d, off + 4) * 0x100000000
}

/// The file header laid out in the first 64 bytes of `d`.
pub open spec fn header_fields_match(h: Elf64Header, d: Seq<u8>) -> bool {
    &&& h.e_ident@ == d.subrange(0, 16)
    &&& h.e_type == le16(d, 16)
    &&& h.e_machine == le16(d, 18)
    &&& h.e_version == le32(d, 20)
    &&& h.e_entry == le64(d, 24)
    &&& h.e_phoff == le64(d, 32)
    &&& h.e_shoff == le64(d, 40)
    &&& h.e_flags == le32(d, 48)
    &&& h.e_ehsize == le16(d, 52)
    &&& h.e_phentsize == le16(d, 54)
    &&& h.e_phnum == le16(d, 56)
    &&& h.e_shentsize == le16(d, 58)
    &&& h.e_shnum == le16(d, 60)
    &&& h.e_shstrndx == le16(d, 62)
}

/// The program header laid out in the 56 bytes of `d` from `off`.
pub open spec fn program_header_fields_match(p: Elf64ProgramHeader, d: Seq<u8>, off: int) -> bool {
    &&& p.p_type == le32(d, off)
    &&& p.p_flags == le32(d, off + 4)
    &&& p.p_offset == le64(d, off + 8)
    &&& p.p_vaddr == le64(d, off + 16)
    &&& p.p_paddr == le64(d, off + 24)
    &&& p.p_filesz == le64(d, off + 32)
    &&& p.p_memsz == le64(d, off + 40)
    &&& p.p_align == le64(d, off + 48)
}

/// `d` is long enough for a header and starts with the ELF magic number.
pub open spec fn has_magic(d: Seq<u8>) -> bool {
    &&& d.len() >= HEADER_SIZE
    &&& d[0] == 0x7f && d[1] == 0x45 && d[2] == 0x4c && d[3] == 0x46
}

/// The header declares a 64-bit, little-endian, version-1 x86-64
/// executable.
pub open spec fn supported(d: Seq<u8>) -> bool {
    &&& d[4] == CLASS_64
    &&& d[5] == DATA_LITTLE_ENDIAN
    &&& d[6] == CURRENT_VERSION
    &&& le16(d, 16) == TYPE_EXECUTABLE
    &&& le16(d, 18) == MACHINE_X86_64
}

/// The program header table, entries at least a header long, fits in `d`.
pub open spec fn table_fits(d: Seq<u8>) -> bool {
    &&& le16(d, 54) >= PROGRAM_HEADER_SIZE
    &&& le64(d, 32) + le16(d, 54) * le16(d, 56) <= d.len()
}

proof fn lemma_le_bounds(d: Seq<u8>, off: int)
    requires
        0 <= off,
        off + 8 <= d.len(),
    ensures
        0 <= le16(d, off) < 0x10000,
        0 <= le32(d, off) < 0x100000000,
        0 <= le64(d, off) <= u64::MAX,
{
    assert(0 <= le16(d, off + 2) < 0x10000);
    assert(0 <= le16(d, off + 4) < 0x10000);
    assert(0 <= le16(d, off + 6) < 0x10000);
    assert(0 <= le32(d, off + 4) < 0x100000000) by (nonlinear_arith)
        requires
            0 <= le16(d, off + 4) < 0x10000,
            0 <= le16(d, off + 6) < 0x10000,
            le32(d, off + 4) == le16(d, off + 4) + le16(d, off + 6) * 0x10000,
    ;
    assert(0 <= le32(d, off) < 0x100000000) by (nonlinear_arith)
        requires
            0 <= le16(d, off) < 0x10000,
            0 <= le16(d, off + 2) < 0x10000,
            le32(d, off) == le16(d, off) + le16(d, off + 2) * 0x10000,
    ;
    assert(0 <= le64(d, off) <= u64::MAX) by (nonlinear_arith)
        requires
            0 <= le32(d, off) < 0x100000000,
            0 <= le32(d, off + 4) < 0x100000000,
            le64(d, off) == le32(d, off) + le32(d, off + 4) * 0x100000000,
    ;
}

fn read_u16(d: &[u8], off: usize) -> (r: u16)
    requires
        off + 2 <= d@.len() <= usize::MAX,
    ensures
        r == le16(d@, off as int),
{
    d[off] as u16 + (d[off + 1] as u16) * 0x100
}

fn read_u32(d: &[u8], off: usize) -> (r: u32)
    requires
        off + 4 <= d@.len() <= usize::MAX,
    ensures
        r == le32(d@, off as int),
{
    let lo = read_u16(d, off) as u32;
    let hi = read_u16(d, off + 2) as u32;
    lo + hi * 0x10000
}

fn read_u64(d: &[u8], off: usize) -> (r: u64)
    requires
        off + 8 <= d@.len() <= usize::MAX,
    ensures
        r == le64(d@, off as int),
{
    let lo = read_u32(d, off) as u64;
    let hi = read_u32(d, off + 4) as u64;
    assert(lo + hi * 0x100000000 <= u64::MAX) by (nonlinear_arith)
        requires
            lo < 0x100000000,
            hi < 0x100000000,
    ;
    lo + hi * 0x100000000
}

fn read_program_header(d: &[u8], off: usize) -> (r: Elf64ProgramHeader)
    requires
        off + PROGRAM_HEADER_SIZE <= d@.len() <= usize::MAX,
    ensures
        program_header_fields_match(r, d@, off as int),
{
    Elf64ProgramHeader {
        p_type: read_u32(d, off),
        p_flags: read_u32(d, off + 4),
        p_offset: read_u64(d, off + 8),
        p_vaddr: read_u64(d, off + 16),
        p_paddr: read_u64(d, off + 24),
        p_filesz: read_u64(d, off + 32),
        p_memsz: read_u64(d, off + 40),
        p_align: read_u64(d, off + 48),
    }
}

/// Offset of the `i`-th program header.
pub open spec fn program_header_offset(d: Seq<u8>, i: int) -> int {
    le64(d, 32) + i * le16(d, 54)
}

/// Every loadable segment's data lies inside `d`.
pub open spec fn segments_fit(d: Seq<u8>) -> bool {
    forall|i: int|
        0 <= i < le16(d, 56) && le32(d, #[trigger] program_header_offset(d, i)) == PT_LOAD
            ==> le64(d, program_header_offset(d, i) + 8) + le64(d, program_header_offset(d, i) + 32)
            <= d.len()
}

/// A validated ELF image and its file header.
pub struct ElfBinary<'a> {
    data: &'a [u8],
    header: Elf64Header,
}

impl<'a> ElfBinary<'a> {
    /// The image.
    pub closed spec fn bytes(&self) -> Seq<u8> {
        self.data@
    }

    /// The file header.
    pub closed spec fn file_header(&self) -> Elf64Header {
        self.header
    }

    /// The header was read from the image, which is a supported executable.
    pub open spec fn wf(&self) -> bool {
        &&& has_magic(self.bytes())
        &&& supported(self.bytes())
        &&& header_fields_match(self.file_header(), self.bytes())
    }

    /// Checks that `data` holds a 64-bit little-endian x86-64 executable and
    /// reads its file header.
    pub fn parse(data: &'a [u8]) -> (r: Result<ElfBinary<'a>, ElfError>)
        ensures
            !has_magic(data@) ==> r == Err::<ElfBinary<'a>, ElfError>(ElfError::InvalidMagic),
            has_magic(data@) && !supported(data@) ==> r == Err::<ElfBinary<'a>, ElfError>(
                ElfError::UnsupportedArchitecture,
            ),
            r matches Ok(b) ==> b.wf() && b.bytes() == data@,
            has_magic(data@) && supported(data@) ==> r.is_ok(),
    {
        if data.len() < HEADER_SIZE {
            return Err(ElfError::InvalidMagic);
        }
        if data[0] != 0x7f || data[1] != 0x45 || data[2] != 0x4c || data[3] != 0x46 {
            return Err(ElfError::InvalidMagic);
        }
        let e_ident: [u8; 16] = [
            data[0],
            data[1],
            data[2],
            data[3],
            data[4],
            data[5],
            data[6],
            data[7],
            data[8],
            data[9],
            data[10],
            data[11],
            data[12],
            data[13],
            data[14],
            data[15],
        ];
        assert(e_ident@ =~= data@.subrange(0, 16));
        let header = Elf64Header {
            e_ident,
            e_type: read_u16(data, 16),
            e_machine: read_u16(data, 18),
            e_version: read_u32(data, 20),
            e_entry: read_u64(data, 24),
            e_phoff: read_u64(data, 32),
            e_shoff: read_u64(data, 40),
            e_flags: read_u32(data, 48),
            e_ehsize: read_u16(data, 52),
            e_phentsize: read_u16(data, 54),
            e_phnum: read_u16(data, 56),
            e_shentsize: read_u16(data, 58),
            e_shnum: read_u16(data, 60),
            e_shstrndx: read_u16(data, 62),
        };
        if header.e_ident[4] != CLASS_64 {
            return Err(ElfError::UnsupportedArchitecture);
        }
        if header.e_ident[5] != DATA_LITTLE_ENDIAN {
            return Err(ElfError::UnsupportedArchitecture);
        }
        if header.e_ident[6] != CURRENT_VERSION {
            return Err(ElfError::UnsupportedArchitecture);
        }
        if header.e_type != TYPE_EXECUTABLE {
            return Err(ElfError::UnsupportedArchitecture);
        }
        if header.e_machine != MACHINE_X86_64 {
            return Err(ElfError::UnsupportedArchitecture);
        }
        Ok(ElfBinary { data, header })
    }

    /// The address execution starts at.
    pub fn entry_point(&self) -> (r: u64)
        ensures
            r == self.file_header().e_entry,
    {
        self.header.e_entry
    }

    /// Reads the program header table, whose entries must each be at least
    /// a program header long and must all lie inside the image.
    pub fn program_headers(&self) -> (r: Result<Vec<Elf64ProgramHeader>, ElfError>)
        requires
            self.wf(),
        ensures
            !table_fits(self.bytes()) ==> r == Err::<Vec<Elf64ProgramHeader>, ElfError>(
                ElfError::BadProgramHeader,
            ),
            table_fits(self.bytes()) ==> r.is_ok(),
            r matches Ok(v) ==> v@.len() == le16(self.bytes(), 56) && forall|i: int|
                0 <= i < v@.len() ==> program_header_fields_match(
                    #[trigger] v@[i],
                    self.bytes(),
                    program_header_offset(self.bytes(), i),
                ),
    {
        let ghost d = self.data@;
        let len = self.data.len();
        let phoff = self.header.e_phoff;
        let phentsize = self.header.e_phentsize as u64;
        let phnum = self.header.e_phnum as u64;
        if phentsize < PROGRAM_HEADER_SIZE {
            return Err(ElfError::BadProgramHeader);
        }
        assert(phentsize * phnum < 0x100000000) by (nonlinear_arith)
            requires
                phentsize < 0x10000,
                phnum < 0x10000,
        ;
        let table = phentsize * phnum;
        if phoff > len as u64 || table > len as u64 - phoff {
            return Err(ElfError::BadProgramHeader);
        }
        let mut headers: Vec<Elf64ProgramHeader> = Vec::new();
        let mut i: u64 = 0;
        let mut off: u64 = phoff;
        while i < phnum
            invariant
                d == self.data@,
                len == d.len(),
                self.wf(),
                phoff == le64(d, 32),
                phentsize == le16(d, 54),
                phnum == le16(d, 56),
                phentsize >= PROGRAM_HEADER_SIZE,
                phoff + phentsize * phnum <= len,
                i <= phnum,
                off == phoff + i * phentsize,
                headers@.len() == i,
                forall|k: int|
                    0 <= k < i ==> program_header_fields_match(
                        #[trigger] headers@[k],
                        d,
                        program_header_offset(d, k),
                    ),
            decreases phnum - i,
        {
            assert(i * phentsize + phentsize <= phnum * phentsize) by (nonlinear_arith)
                requires
                    i < phnum,
            ;
            assert((i + 1) * phentsize == i * phentsize + phentsize) by (nonlinear_arith);
            let ph = read_program_header(self.data, off as usize);
            headers.push(ph);
            off = off + phentsize;
            i = i + 1;
        }
        Ok(headers)
    }

    /// The bytes of a segment: `p_filesz` bytes from `p_offset`, which must
    /// lie inside the image.
    pub fn segment_data(&self, ph: &Elf64ProgramHeader) -> (r: Result<&[u8], ElfError>)
        ensures
            ph.p_offset + ph.p_filesz > self.bytes().len() ==> r == Err::<&[u8], ElfError>(
                ElfError::LoadFailure,
            ),
            ph.p_offset + ph.p_filesz <= self.bytes().len() ==> (r matches Ok(s) && s@
                == self.bytes().subrange(ph.p_offset as int, ph.p_offset + ph.p_filesz)),
    {
        let len = self.data.len() as u64;
        if ph.p_offset > len || ph.p_filesz > len - ph.p_offset {
            return Err(ElfError::LoadFailure);
        }
        let start = ph.p_offset as usize;
        let end = (ph.p_offset + ph.p_filesz) as usize;
        Ok(slice_subrange(self.data, start, end))
    }
}

/// Checks an executable image and all its loadable segments, and returns
/// its entry point.
pub fn load_elf(data: &[u8]) -> (r: Result<u64, ElfError>)
    ensures
        !has_magic(data@) ==> r == Err::<u64, ElfError>(ElfError::InvalidMagic),
        has_magic(data@) && !supported(data@) ==> r == Err::<u64, ElfError>(
            ElfError::UnsupportedArchitecture,
        ),
        has_magic(data@) && supported(data@) && !table_fits(data@) ==> r == Err::<u64, ElfError>(
            ElfError::BadProgramHeader,
        ),
        has_magic(data@) && supported(data@) && table_fits(data@) && !segments_fit(data@) ==> r
            == Err::<u64, ElfError>(ElfError::LoadFailure),
        has_magic(data@) && supported(data@) && table_fits(data@) && segments_fit(data@) ==> r
            == Ok::<u64, ElfError>(le64(data@, 24) as u64),
{
    let elf = match ElfBinary::parse(data) {
        Ok(e) => e,
        Err(e) => return Err(e),
    };
    let program_headers = match elf.program_headers() {
        Ok(v) => v,
        Err(e) => return Err(e),
    };
    let ghost d = data@;
    let mut i: usize = 0;
    while i < program_headers.len()
        invariant
            d == data@,
            elf.wf(),
            elf.bytes() == d,
            table_fits(d),
            program_headers@.len() == le16(d, 56),
            forall|k: int|
                0 <= k < program_headers@.len() ==> program_header_fields_match(
                    #[trigger] program_headers@[k],
                    d,
                    program_header_offset(d, k),
                ),
            i <= program_headers@.len(),
            forall|k: int|
                0 <= k < i && le32(d, #[trigger] program_header_offset(d, k)) == PT_LOAD ==> le64(
                    d,
                    program_header_offset(d, k) + 8,
                ) + le64(d, program_header_offset(d, k) + 32) <= d.len(),
        decreases program_headers@.len() - i,
    {
        let ph = &program_headers[i];
        assert(program_header_fields_match(program_headers@[i as int], d, program_header_offset(d, i as int)));
        if ph.p_type == PT_LOAD {
            match elf.segment_data(ph) {
                Ok(_) => {},
                Err(e) => {
                    assert(!segments_fit(d)) by {
                        assert(le32(d, program_header_offset(d, i as int)) == PT_LOAD);
                    }
                    return Err(e);
                },
            }
        }
        i = i + 1;
    }
    assert(segments_fit(d));
    Ok(elf.entry_point())
}

/// A built-in test image: none is embedded yet, so it is empty.
pub fn create_test_binary() -> (r: Vec<u8>)
    ensures
        r@.len() == 0,
{
    Vec::new()
}

} // verus!
