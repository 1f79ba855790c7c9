//! Structural parsing of ELF files: the identification and file header,
//! the program and section header tables, and the section-name string
//! table. The byte layout follows the ELF specification as shipped in the
//! system manual pages.

use vstd::prelude::*;

verus! {

#[derive(Debug, Clone, Copy, PartialEq, Eq, Structural)]
pub enum Class {
    Bit32,
    Bit64,
}

#[derive(Debug, Clone, Copy, PartialEq, Eq, Structural)]
pub enum Endianness {
    LittleEndian,
    BigEndian,
}

#[derive(Debug, Clone, Copy, PartialEq, Eq, Structural)]
pub enum OsABI {
    SystemV,
    HPUX,
    NetBSD,
    Linux,
    Solaris,
    AIX,
    IRIX,
    FreeBSD,
    OpenBSD,
    OpenVMS,
}

#[derive(Debug, Clone, Copy, PartialEq, Eq, Structural)]
pub enum ObjType {
    Relocatable,
    Executable,
    Shared,
    Core,
}

#[derive(Debug, Clone, Copy, PartialEq, Eq, Structural)]
pub enum ISA {
    NA,
    SPARC,
    X86,
    MIPS,
    PowerPC,
    ARM,
    SuperH,
    IA64,
    X86_64,
    AArch64,
}

#[derive(Debug, Clone, Copy, PartialEq, Eq, Structural)]
pub struct ELFHeader {
    pub class: Class,
    pub endianness: Endianness,
    pub abi: OsABI,
    pub obj_type: ObjType,
    pub isa: ISA,
    /// Virtual address to which the system first transfers control. Zero
    /// if the file has no associated entry point.
    pub entry_addr: u64,
    /// The program header table's file offset in bytes. Zero if the file
    /// has no program header table.
    pub phoff: u64,
    /// The section header table's file offset in bytes. Zero if the file
    /// has no section header table.
    pub shoff: u64,
    /// Processor-specific flags associated with the file.
    pub flags: u32,
    /// The ELF header's size in bytes.
    pub ehsize: u16,
    /// The size in bytes of one entry in the file's program header table.
    pub phentsize: u16,
    /// The number of entries in the program header table.
    pub phnum: u16,
    /// The size in bytes of one entry in the file's section header table.
    pub shentsize: u16,
    /// The number of entries in the section header table.
    pub shnum: u16,
    /// The section header table index of the section name string table.
    /// Zero if the file has no section name string table.
    pub shstrndx: u16,
}

#[derive(Debug, Clone, Copy, PartialEq, Eq, Structural)]
#[allow(non_camel_case_types)]
pub enum ProgramHeaderType {
    /// The entry is unused; the other members' values are undefined.
    NULL,
    /// A loadable segment.
    LOAD,
    /// Dynamic linking information.
    DYNAMIC,
    /// The location and size of the interpreter pathname.
    INTERP,
    /// The location and size of auxiliary information.
    NOTE,
    /// Reserved with unspecified semantics.
    SHLIB,
    /// The program header table itself.
    PHDR,
    /// Thread-local storage template.
    TLS,
    /// Reserved for operating-system-specific semantics.
    OS(u32),
    /// Reserved for processor-specific semantics.
    PROC(u32),
    /// GNU extension describing the exception handling frame location.
    GNU_EH_FRAME,
    /// GNU extension controlling the stack state.
    GNU_STACK,
    /// GNU extension for the region to make read-only after relocation.
    GNU_RELRO,
}

#[derive(Debug, PartialEq)]
pub struct ProgramHeader {
    /// What kind of segment this entry describes.
    pub ty: ProgramHeaderType,
    /// Offset from the beginning of the file at which the first byte of
    /// the segment resides.
    pub offset: u64,
    /// Virtual address at which the first byte of the segment resides in
    /// memory.
    pub vaddr: u64,
    /// The segment's physical address, where relevant.
    pub paddr: u64,
    /// Number of bytes in the file image of the segment; may be zero.
    pub filesz: u64,
    /// Number of bytes in the memory image of the segment; may be zero.
    pub memsz: u64,
    pub flags: u32,
    pub align: u64,
    /// Raw contents of the segment.
    pub contents: Vec<u8>,
}

#[derive(Debug, Clone, Copy, PartialEq, Eq, Structural)]
#[allow(non_camel_case_types)]
pub enum SectionHeaderType {
    /// Inactive header with no associated section.
    NULL,
    /// Information defined by the program.
    PROGBITS,
    /// A symbol table.
    SYMTAB,
    /// A string table.
    STRTAB,
    /// Relocation entries with explicit addends.
    RELA,
    /// A symbol hash table.
    HASH,
    /// Information for dynamic linking.
    DYNAMIC,
    /// A section that marks the file in some way.
    NOTE,
    /// Occupies no file space but otherwise resembles `PROGBITS`.
    NOBITS,
    /// Relocation offsets without explicit addends.
    REL,
    /// Reserved with unspecified semantics.
    SHLIB,
    /// A minimal set of dynamic linking symbols.
    DYNSYM,
    /// Number of defined types in the header files.
    NUM,
    /// Lower bound of processor-specific semantics.
    LOPROC,
    /// A value between `LOPROC` and `HIPROC`.
    PROC(u32),
    /// Upper bound of processor-specific semantics.
    HIPROC,
    /// Lower bound of the range reserved for application programs.
    LOUSER,
    /// A value between `LOUSER` and `HIUSER`.
    USER(u32),
    /// Upper bound of the range reserved for application programs.
    HIUSER,
    /// GNU extension: a better symbol hash table.
    GNU_HASH,
    /// GNU extension: symbol version table.
    VERSYM,
    /// GNU extension: required symbol versions.
    VERNEED,
    /// Array of initialization functions.
    INIT_ARRAY,
    /// Array of termination functions.
    FINI_ARRAY,
}

#[derive(Debug, PartialEq)]
pub struct SectionHeader {
    /// Name of the section, as an index into the section name string
    /// table.
    pub name: u32,
    /// The section's contents and semantics.
    pub ty: SectionHeaderType,
    pub flags: u64,
    /// Address at which the section's first byte should reside in memory,
    /// or zero.
    pub addr: u64,
    /// The byte offset from the beginning of the file to the first byte
    /// in the section.
    pub offset: u64,
    /// The section's size in bytes.
    pub size: u64,
    /// Section header table index link.
    pub link: u32,
    /// Extra information, whose interpretation depends on the section
    /// type.
    pub info: u32,
    /// Alignment constraints.
    pub addralign: u64,
    /// Entry size for sections holding a table of fixed-size entries, or
    /// zero.
    pub entsize: u64,
    /// Raw contents of the section.
    pub contents: Vec<u8>,
}

/// Relies on `std::io::Error`: only carried through as the payload of
/// `ParseResult::CantReadFile` by file-reading callers; nothing is assumed
/// about its behaviour.
#[verifier::external_type_specification]
#[verifier::external_body]
pub struct ExIoError(std::io::Error);

#[derive(Debug)]
pub enum ParseResult {
    ParseOK(ELFHeader),
    NotELF,
    CantReadFile(std::io::Error),
    CantParse,
}

pub type StringTable = Vec<u8>;

////////////////////////////////////////////////////////////////////////
// Multi-byte reads

/// The 16-bit value stored at `off`, under the given byte order.
pub open spec fn spec_read_u16(e: Endianness, b: Seq<u8>, off: int) -> u16 {
    match e {
        Endianness::LittleEndian => (b[off] + 256 * b[off + 1]) as u16,
        Endianness::BigEndian => (b[off + 1] + 256 * b[off]) as u16,
    }
}

/// The 32-bit value stored at `off`: two 16-bit halves in the byte order.
pub open spec fn spec_read_u32(e: Endianness, b: Seq<u8>, off: int) -> u32 {
    match e {
        Endianness::LittleEndian => (spec_read_u16(e, b, off) + 0x10000 * spec_read_u16(
            e,
            b,
            off + 2,
        )) as u32,
        Endianness::BigEndian => (spec_read_u16(e, b, off + 2) + 0x10000 * spec_read_u16(
            e,
            b,
            off,
        )) as u32,
    }
}

/// The 64-bit value stored at `off`: two 32-bit halves in the byte order.
pub open spec fn spec_read_u64(e: Endianness, b: Seq<u8>, off: int) -> u64 {
    match e {
        Endianness::LittleEndian => (spec_read_u32(e, b, off) + 0x1_0000_0000 * spec_read_u32(
            e,
            b,
            off + 4,
        )) as u64,
        Endianness::BigEndian => (spec_read_u32(e, b, off + 4) + 0x1_0000_0000 * spec_read_u32(
            e,
            b,
            off,
        )) as u64,
    }
}

fn read_u16(endianness: Endianness, from: &[u8]) -> (r: u16)
    requires
        from@.len() >= 2,
    ensures
        r == spec_read_u16(endianness, from@, 0),
{
    let b0 = from[0];
    let b1 = from[1];
    proof {
        assert(((b1 as u16) << 8) | (b0 as u16) == b0 + 256 * b1) by (bit_vector);
        assert(((b0 as u16) << 8) | (b1 as u16) == b1 + 256 * b0) by (bit_vector);
    }
    match endianness {
        Endianness::LittleEndian => ((b1 as u16) << 8) | (b0 as u16),
        Endianness::BigEndian => ((b0 as u16) << 8) | (b1 as u16),
    }
}

fn read_u32(endianness: Endianness, from: &[u8]) -> (r: u32)
    requires
        from@.len() >= 4,
    ensures
        r == spec_read_u32(endianness, from@, 0),
{
    let hi_slice = vstd::slice::slice_subrange(from, 2, from.len());
    let lo16 = read_u16(endianness, from);
    let hi16 = read_u16(endianness, hi_slice);
    proof {
        assert(spec_read_u16(endianness, hi_slice@, 0) == spec_read_u16(endianness, from@, 2));
    }
    match endianness {
        Endianness::LittleEndian => {
            proof {
                assert(((hi16 as u32) << 16) | (lo16 as u32) == lo16 + 0x10000 * hi16)
                    by (bit_vector);
            }
            ((hi16 as u32) << 16) | (lo16 as u32)
        },
        Endianness::BigEndian => {
            proof {
                assert(((lo16 as u32) << 16) | (hi16 as u32) == hi16 + 0x10000 * lo16)
                    by (bit_vector);
            }
            ((lo16 as u32) << 16) | (hi16 as u32)
        },
    }
}

fn read_u64(endianness: Endianness, from: &[u8]) -> (r: u64)
    requires
        from@.len() >= 8,
    ensures
        r == spec_read_u64(endianness, from@, 0),
{
    let hi_slice = vstd::slice::slice_subrange(from, 4, from.len());
    let lo32 = read_u32(endianness, from);
    let hi32 = read_u32(endianness, hi_slice);
    proof {
        assert(spec_read_u16(endianness, hi_slice@, 0) == spec_read_u16(endianness, from@, 4));
        assert(spec_read_u16(endianness, hi_slice@, 2) == spec_read_u16(endianness, from@, 6));
        assert(spec_read_u32(endianness, hi_slice@, 0) == spec_read_u32(endianness, from@, 4));
    }
    match endianness {
        Endianness::LittleEndian => {
            proof {
                assert(((hi32 as u64) << 32) | (lo32 as u64) == lo32 + 0x1_0000_0000 * hi32)
                    by (bit_vector);
            }
            ((hi32 as u64) << 32) | (lo32 as u64)
        },
        Endianness::BigEndian => {
            proof {
                assert(((lo32 as u64) << 32) | (hi32 as u64) == hi32 + 0x1_0000_0000 * lo32)
                    by (bit_vector);
            }
            ((lo32 as u64) << 32) | (hi32 as u64)
        },
    }
}

////////////////////////////////////////////////////////////////////////
// File header

pub open spec fn spec_magic_ok(b: Seq<u8>) -> bool {
    &&& b.len() >= 4
    &&& b[0] == 0x7f
    &&& b[1] == 0x45
    &&& b[2] == 0x4c
    &&& b[3] == 0x46
}

pub open spec fn spec_class_byte_ok(v: u8) -> bool {
    v == 1 || v == 2
}

pub open spec fn spec_endian_byte_ok(v: u8) -> bool {
    v == 1 || v == 2
}

pub open spec fn spec_abi_byte_ok(v: u8) -> bool {
    v == 0 || v == 1 || v == 2 || v == 3 || v == 6 || v == 7 || v == 8 || v == 9 || v == 0x0c
        || v == 0x0d
}

pub open spec fn spec_abi(v: u8) -> OsABI {
    if v == 0 {
        OsABI::SystemV
    } else if v == 1 {
        OsABI::HPUX
    } else if v == 2 {
        OsABI::NetBSD
    } else if v == 3 {
        OsABI::Linux
    } else if v == 6 {
        OsABI::Solaris
    } else if v == 7 {
        OsABI::AIX
    } else if v == 8 {
        OsABI::IRIX
    } else if v == 9 {
        OsABI::FreeBSD
    } else if v == 0x0c {
        OsABI::OpenBSD
    } else {
        OsABI::OpenVMS
    }
}

pub open spec fn spec_obj_type_ok(w: u16) -> bool {
    1 <= w <= 4
}

pub open spec fn spec_obj_type(w: u16) -> ObjType {
    if w == 1 {
        ObjType::Relocatable
    } else if w == 2 {
        ObjType::Executable
    } else if w == 3 {
        ObjType::Shared
    } else {
        ObjType::Core
    }
}

pub open spec fn spec_isa_ok(w: u16) -> bool {
    w == 0 || w == 2 || w == 3 || w == 8 || w == 0x14 || w == 0x28 || w == 0x2a || w == 0x32
        || w == 0x3e || w == 0xb7
}

pub open spec fn spec_isa(w: u16) -> ISA {
    if w == 0 {
        ISA::NA
    } else if w == 2 {
        ISA::SPARC
    } else if w == 3 {
        ISA::X86
    } else if w == 8 {
        ISA::MIPS
    } else if w == 0x14 {
        ISA::PowerPC
    } else if w == 0x28 {
        ISA::ARM
    } else if w == 0x2a {
        ISA::SuperH
    } else if w == 0x32 {
        ISA::IA64
    } else if w == 0x3e {
        ISA::X86_64
    } else {
        ISA::AArch64
    }
}

pub open spec fn spec_endianness(b: Seq<u8>) -> Endianness {
    if b[5] == 1 {
        Endianness::LittleEndian
    } else {
        Endianness::BigEndian
    }
}

pub open spec fn spec_class(b: Seq<u8>) -> Class {
    if b[4] == 1 {
        Class::Bit32
    } else {
        Class::Bit64
    }
}

/// The buffer covers every field the header parse reads before it can
/// reject the input: four magic bytes always; the identification and the
/// type and machine words once the magic matches; and the whole header,
/// whose size depends on the class, once the identification is valid.
pub open spec fn spec_elf_header_len_ok(b: Seq<u8>) -> bool {
    &&& b.len() >= 4
    &&& spec_magic_ok(b) ==> {
        &&& b.len() >= 0x14
        &&& (spec_class_byte_ok(b[4]) && spec_endian_byte_ok(b[5]) && spec_abi_byte_ok(b[7])
            && spec_obj_type_ok(spec_read_u16(spec_endianness(b), b, 0x10)) && spec_isa_ok(
            spec_read_u16(spec_endianness(b), b, 0x12),
        )) ==> if b[4] == 1 {
            b.len() >= 0x34
        } else {
            b.len() >= 0x40
        }
    }
}

/// The identification, type and machine fields all carry known values.
pub open spec fn spec_elf_header_valid(b: Seq<u8>) -> bool {
    &&& spec_magic_ok(b)
    &&& spec_class_byte_ok(b[4])
    &&& spec_endian_byte_ok(b[5])
    &&& spec_abi_byte_ok(b[7])
    &&& spec_obj_type_ok(spec_read_u16(spec_endianness(b), b, 0x10))
    &&& spec_isa_ok(spec_read_u16(spec_endianness(b), b, 0x12))
}

/// The header a valid buffer denotes, field by field from the class-
/// dependent offsets.
pub open spec fn spec_elf_header(b: Seq<u8>) -> ELFHeader {
    let e = spec_endianness(b);
    if b[4] == 1 {
        ELFHeader {
            class: Class::Bit32,
            endianness: e,
            abi: spec_abi(b[7]),
            obj_type: spec_obj_type(spec_read_u16(e, b, 0x10)),
            isa: spec_isa(spec_read_u16(e, b, 0x12)),
            entry_addr: spec_read_u32(e, b, 0x18) as u64,
            phoff: spec_read_u32(e, b, 0x1c) as u64,
            shoff: spec_read_u32(e, b, 0x20) as u64,
            flags: spec_read_u32(e, b, 0x24),
            ehsize: spec_read_u16(e, b, 0x28),
            phentsize: spec_read_u16(e, b, 0x2a),
            phnum: spec_read_u16(e, b, 0x2c),
            shentsize: spec_read_u16(e, b, 0x2e),
            shnum: spec_read_u16(e, b, 0x30),
            shstrndx: spec_read_u16(e, b, 0x32),
        }
    } else {
        ELFHeader {
            class: Class::Bit64,
            endianness: e,
            abi: spec_abi(b[7]),
            obj_type: spec_obj_type(spec_read_u16(e, b, 0x10)),
            isa: spec_isa(spec_read_u16(e, b, 0x12)),
            entry_addr: spec_read_u64(e, b, 0x18),
            phoff: spec_read_u64(e, b, 0x20),
            shoff: spec_read_u64(e, b, 0x28),
            flags: spec_read_u32(e, b, 0x30),
            ehsize: spec_read_u16(e, b, 0x34),
            phentsize: spec_read_u16(e, b, 0x36),
            phnum: spec_read_u16(e, b, 0x38),
            shentsize: spec_read_u16(e, b, 0x3a),
            shnum: spec_read_u16(e, b, 0x3c),
            shstrndx: spec_read_u16(e, b, 0x3e),
        }
    }
}

/// Parse the ELF file header from the start of the buffer: reject a
/// wrong magic as not ELF at all, reject unknown identification, type or
/// machine values, and otherwise return every header field.
pub fn parse_elf_header_(contents: &[u8]) -> (r: ParseResult)
    requires
        spec_elf_header_len_ok(contents@),
    ensures
        (r is NotELF) <==> !spec_magic_ok(contents@),
        (r is CantParse) <==> (spec_magic_ok(contents@) && !spec_elf_header_valid(contents@)),
        (r is ParseOK) <==> spec_elf_header_valid(contents@),
        r matches ParseResult::ParseOK(h) ==> h == spec_elf_header(contents@),
{
    let ghost b = contents@;
    let mag0 = contents[0];
    let mag1 = contents[1];
    let mag2 = contents[2];
    let mag3 = contents[3];

    if !(mag0 == 0x7f && mag1 == 0x45 && mag2 == 0x4c && mag3 == 0x46) {
        return ParseResult::NotELF;
    }
    let class_byte = contents[4];
    if !(class_byte == 1 || class_byte == 2) {
        return ParseResult::CantParse;
    }
    let endianness = if contents[5] == 1 {
        Endianness::LittleEndian
    } else if contents[5] == 2 {
        Endianness::BigEndian
    } else {
        return ParseResult::CantParse;
    };

    // Offset 6 (the identification version) is skipped.
    let abi_byte = contents[7];
    if !(abi_byte == 0 || abi_byte == 1 || abi_byte == 2 || abi_byte == 3 || abi_byte == 6
        || abi_byte == 7 || abi_byte == 8 || abi_byte == 9 || abi_byte == 0x0c || abi_byte
        == 0x0d) {
        return ParseResult::CantParse;
    }
    let os_abi = if abi_byte == 0 {
        OsABI::SystemV
    } else if abi_byte == 1 {
        OsABI::HPUX
    } else if abi_byte == 2 {
        OsABI::NetBSD
    } else if abi_byte == 3 {
        OsABI::Linux
    } else if abi_byte == 6 {
        OsABI::Solaris
    } else if abi_byte == 7 {
        OsABI::AIX
    } else if abi_byte == 8 {
        OsABI::IRIX
    } else if abi_byte == 9 {
        OsABI::FreeBSD
    } else if abi_byte == 0x0c {
        OsABI::OpenBSD
    } else {
        OsABI::OpenVMS
    };

    // Offsets 8 and 9 are skipped.
    let obj_word = read_u16(endianness, vstd::slice::slice_subrange(contents, 0x10, contents.len()));
    proof {
        assert(spec_read_u16(endianness, b.subrange(0x10, b.len() as int), 0) == spec_read_u16(
            endianness,
            b,
            0x10,
        ));
    }
    if !(1 <= obj_word && obj_word <= 4) {
        return ParseResult::CantParse;
    }
    let obj_type = if obj_word == 1 {
        ObjType::Relocatable
    } else if obj_word == 2 {
        ObjType::Executable
    } else if obj_word == 3 {
        ObjType::Shared
    } else {
        ObjType::Core
    };

    let isa_word = read_u16(endianness, vstd::slice::slice_subrange(contents, 0x12, contents.len()));
    proof {
        assert(spec_read_u16(endianness, b.subrange(0x12, b.len() as int), 0) == spec_read_u16(
            endianness,
            b,
            0x12,
        ));
    }
    let isa = if isa_word == 0 {
        ISA::NA
    } else if isa_word == 2 {
        ISA::SPARC
    } else if isa_word == 3 {
        ISA::X86
    } else if isa_word == 8 {
        ISA::MIPS
    } else if isa_word == 0x14 {
        ISA::PowerPC
    } else if isa_word == 0x28 {
        ISA::ARM
    } else if isa_word == 0x2a {
        ISA::SuperH
    } else if isa_word == 0x32 {
        ISA::IA64
    } else if isa_word == 0x3e {
        ISA::X86_64
    } else if isa_word == 0xb7 {
        ISA::AArch64
    } else {
        return ParseResult::CantParse;
    };

    // Offset 0x14 (the file version) is skipped.
    let header = if class_byte == 1 {
        ELFHeader {
            class: Class::Bit32,
            endianness,
            abi: os_abi,
            obj_type,
            isa,
            entry_addr: read_at_u32(endianness, contents, 0x18) as u64,
            phoff: read_at_u32(endianness, contents, 0x1c) as u64,
            shoff: read_at_u32(endianness, contents, 0x20) as u64,
            flags: read_at_u32(endianness, contents, 0x24),
            ehsize: read_at_u16(endianness, contents, 0x28),
            phentsize: read_at_u16(endianness, contents, 0x2a),
            phnum: read_at_u16(endianness, contents, 0x2c),
            shentsize: read_at_u16(endianness, contents, 0x2e),
            shnum: read_at_u16(endianness, contents, 0x30),
            shstrndx: read_at_u16(endianness, contents, 0x32),
        }
    } else {
        ELFHeader {
            class: Class::Bit64,
            endianness,
            abi: os_abi,
            obj_type,
            isa,
            entry_addr: read_at_u64(endianness, contents, 0x18),
            phoff: read_at_u64(endianness, contents, 0x20),
            shoff: read_at_u64(endianness, contents, 0x28),
            flags: read_at_u32(endianness, contents, 0x30),
            ehsize: read_at_u16(endianness, contents, 0x34),
            phentsize: read_at_u16(endianness, contents, 0x36),
            phnum: read_at_u16(endianness, contents, 0x38),
            shentsize: read_at_u16(endianness, contents, 0x3a),
            shnum: read_at_u16(endianness, contents, 0x3c),
            shstrndx: read_at_u16(endianness, contents, 0x3e),
        }
    };
    ParseResult::ParseOK(header)
}

////////////////////////////////////////////////////////////////////////
// Program headers

/// The segment type words the parser accepts.
pub open spec fn spec_ph_ty_known(w: u32) -> bool {
    w <= 7 || w == 0x6474e550 || w == 0x6474e551 || w == 0x6474e552 || (0x60000000 <= w
        <= 0x6fffffff) || (0x70000000 <= w <= 0x7fffffff)
}

pub open spec fn spec_ph_ty(w: u32) -> ProgramHeaderType {
    if w == 0 {
        ProgramHeaderType::NULL
    } else if w == 1 {
        ProgramHeaderType::LOAD
    } else if w == 2 {
        ProgramHeaderType::DYNAMIC
    } else if w == 3 {
        ProgramHeaderType::INTERP
    } else if w == 4 {
        ProgramHeaderType::NOTE
    } else if w == 5 {
        ProgramHeaderType::SHLIB
    } else if w == 6 {
        ProgramHeaderType::PHDR
    } else if w == 7 {
        ProgramHeaderType::TLS
    } else if w == 0x6474e550 {
        ProgramHeaderType::GNU_EH_FRAME
    } else if w == 0x6474e551 {
        ProgramHeaderType::GNU_STACK
    } else if w == 0x6474e552 {
        ProgramHeaderType::GNU_RELRO
    } else if 0x60000000 <= w && w <= 0x6fffffff {
        ProgramHeaderType::OS(w)
    } else {
        ProgramHeaderType::PROC(w)
    }
}

/// File position of program header table entry `i`.
pub open spec fn spec_ph_start(h: ELFHeader, i: int) -> int {
    h.phoff + i * h.phentsize
}

/// Entry `i` of the program header table lies inside the buffer, its
/// type word is known, and the segment bytes it points at exist.
pub open spec fn spec_ph_entry_ok(h: ELFHeader, b: Seq<u8>, i: int) -> bool {
    let e = h.endianness;
    let s = spec_ph_start(h, i);
    &&& 0 <= s
    &&& match h.class {
        Class::Bit32 => {
            &&& s + 34 <= b.len()
            &&& spec_ph_ty_known(spec_read_u32(e, b, s))
            &&& spec_read_u32(e, b, s + 4) + spec_read_u32(e, b, s + 16) <= b.len()
        },
        Class::Bit64 => {
            &&& s + 56 <= b.len()
            &&& spec_ph_ty_known(spec_read_u32(e, b, s))
            &&& spec_read_u64(e, b, s + 8) + spec_read_u64(e, b, s + 32) <= b.len()
        },
    }
}

/// `p` holds exactly the fields stored in entry `i` of the table, and a
/// copy of the segment bytes the entry points at.
pub open spec fn spec_ph_matches(p: ProgramHeader, h: ELFHeader, b: Seq<u8>, i: int) -> bool {
    let e = h.endianness;
    let s = spec_ph_start(h, i);
    match h.class {
        Class::Bit32 => {
            &&& p.ty == spec_ph_ty(spec_read_u32(e, b, s))
            &&& p.offset == spec_read_u32(e, b, s + 4) as u64
            &&& p.vaddr == spec_read_u32(e, b, s + 8) as u64
            &&& p.paddr == spec_read_u32(e, b, s + 12) as u64
            &&& p.filesz == spec_read_u32(e, b, s + 16) as u64
            &&& p.memsz == spec_read_u32(e, b, s + 20) as u64
            &&& p.flags == spec_read_u32(e, b, s + 24)
            &&& p.align == spec_read_u32(e, b, s + 30) as u64
            &&& p.contents@ == b.subrange(p.offset as int, p.offset + p.filesz)
        },
        Class::Bit64 => {
            &&& p.ty == spec_ph_ty(spec_read_u32(e, b, s))
            &&& p.flags == spec_read_u32(e, b, s + 4)
            &&& p.offset == spec_read_u64(e, b, s + 8)
            &&& p.vaddr == spec_read_u64(e, b, s + 16)
            &&& p.paddr == spec_read_u64(e, b, s + 24)
            &&& p.filesz == spec_read_u64(e, b, s + 32)
            &&& p.memsz == spec_read_u64(e, b, s + 40)
            &&& p.align == spec_read_u64(e, b, s + 48)
            &&& p.contents@ == b.subrange(p.offset as int, p.offset + p.filesz)
        },
    }
}

/// Parse the whole program header table named by the file header.
pub fn parse_program_headers(elf_header: &ELFHeader, contents: &[u8]) -> (r: Vec<ProgramHeader>)
    requires
        forall|i: int|
            0 <= i < elf_header.phnum ==> spec_ph_entry_ok(*elf_header, contents@, i),
    ensures
        r@.len() == elf_header.phnum,
        forall|i: int|
            0 <= i < r@.len() ==> spec_ph_matches(#[trigger] r@[i], *elf_header, contents@, i),
{
    let num_pgm_headers = elf_header.phnum as usize;
    let pgm_header_size = elf_header.phentsize as usize;
    let n = contents.len();

    let mut ret: Vec<ProgramHeader> = Vec::new();
    let mut i: usize = 0;
    while i < num_pgm_headers
        invariant
            0 <= i <= num_pgm_headers,
            num_pgm_headers == elf_header.phnum,
            pgm_header_size == elf_header.phentsize,
            n == contents@.len(),
            forall|j: int|
                0 <= j < elf_header.phnum ==> spec_ph_entry_ok(*elf_header, contents@, j),
            ret@.len() == i,
            forall|j: int|
                0 <= j < i ==> spec_ph_matches(#[trigger] ret@[j], *elf_header, contents@, j),
        decreases num_pgm_headers - i,
    {
        proof {
            assert(spec_ph_entry_ok(*elf_header, contents@, i as int));
            vstd::arithmetic::mul::lemma_mul_is_commutative(
                i as int,
                elf_header.phentsize as int,
            );
            vstd::arithmetic::mul::lemma_mul_nonnegative(
                i as int,
                elf_header.phentsize as int,
            );
        }
        let pgm_headers_start_at = elf_header.phoff as usize;
        let start_offset = pgm_headers_start_at + i * pgm_header_size;
        let header = match elf_header.class {
            Class::Bit32 => parse_program_header_32(elf_header.endianness, contents, start_offset),
            Class::Bit64 => parse_program_header_64(elf_header.endianness, contents, start_offset),
        };
        ret.push(header);
        i = i + 1;
    }
    ret
}

fn parse_program_header_32(endianness: Endianness, contents: &[u8], start_offset: usize) -> (r:
    ProgramHeader)
    requires
        start_offset + 34 <= contents@.len(),
        spec_ph_ty_known(spec_read_u32(endianness, contents@, start_offset as int)),
        spec_read_u32(endianness, contents@, start_offset + 4) + spec_read_u32(
            endianness,
            contents@,
            start_offset + 16,
        ) <= contents@.len(),
    ensures
        r.ty == spec_ph_ty(spec_read_u32(endianness, contents@, start_offset as int)),
        r.offset == spec_read_u32(endianness, contents@, start_offset + 4) as u64,
        r.vaddr == spec_read_u32(endianness, contents@, start_offset + 8) as u64,
        r.paddr == spec_read_u32(endianness, contents@, start_offset + 12) as u64,
        r.filesz == spec_read_u32(endianness, contents@, start_offset + 16) as u64,
        r.memsz == spec_read_u32(endianness, contents@, start_offset + 20) as u64,
        r.flags == spec_read_u32(endianness, contents@, start_offset + 24),
        r.align == spec_read_u32(endianness, contents@, start_offset + 30) as u64,
        r.contents@ == contents@.subrange(r.offset as int, r.offset + r.filesz),
{
    let n = contents.len();
    let ty = read_at_u32(endianness, contents, start_offset);
    let offset = read_at_u32(endianness, contents, start_offset + 4) as u64;
    let vaddr = read_at_u32(endianness, contents, start_offset + 8) as u64;
    let paddr = read_at_u32(endianness, contents, start_offset + 12) as u64;
    let filesz = read_at_u32(endianness, contents, start_offset + 16) as u64;
    let memsz = read_at_u32(endianness, contents, start_offset + 20) as u64;
    let flags = read_at_u32(endianness, contents, start_offset + 24);
    // The 32-bit table stores the alignment word at entry offset 28; this
    // parser has always taken it from offset 30, and the display treats
    // the value as opaque.
    let align = read_at_u32(endianness, contents, start_offset + 30) as u64;
    let seg_start = offset as usize;
    let seg_end = seg_start + filesz as usize;
    let bytes = vstd::slice::slice_to_vec(
        vstd::slice::slice_subrange(contents, seg_start, seg_end),
    );
    ProgramHeader {
        ty: parse_program_header_ty(ty),
        offset,
        vaddr,
        paddr,
        filesz,
        memsz,
        flags,
        align,
        contents: bytes,
    }
}

fn parse_program_header_64(endianness: Endianness, contents: &[u8], start_offset: usize) -> (r:
    ProgramHeader)
    requires
        start_offset + 56 <= contents@.len(),
        spec_ph_ty_known(spec_read_u32(endianness, contents@, start_offset as int)),
        spec_read_u64(endianness, contents@, start_offset + 8) + spec_read_u64(
            endianness,
            contents@,
            start_offset + 32,
        ) <= contents@.len(),
    ensures
        r.ty == spec_ph_ty(spec_read_u32(endianness, contents@, start_offset as int)),
        r.flags == spec_read_u32(endianness, contents@, start_offset + 4),
        r.offset == spec_read_u64(endianness, contents@, start_offset + 8),
        r.vaddr == spec_read_u64(endianness, contents@, start_offset + 16),
        r.paddr == spec_read_u64(endianness, contents@, start_offset + 24),
        r.filesz == spec_read_u64(endianness, contents@, start_offset + 32),
        r.memsz == spec_read_u64(endianness, contents@, start_offset + 40),
        r.align == spec_read_u64(endianness, contents@, start_offset + 48),
        r.contents@ == contents@.subrange(r.offset as int, r.offset + r.filesz),
{
    let n = contents.len();
    let ty = read_at_u32(endianness, contents, start_offset);
    let flags = read_at_u32(endianness, contents, start_offset + 4);
    let offset = read_at_u64(endianness, contents, start_offset + 8);
    let vaddr = read_at_u64(endianness, contents, start_offset + 16);
    let paddr = read_at_u64(endianness, contents, start_offset + 24);
    let filesz = read_at_u64(endianness, contents, start_offset + 32);
    let memsz = read_at_u64(endianness, contents, start_offset + 40);
    let align = read_at_u64(endianness, contents, start_offset + 48);
    let seg_start = offset as usize;
    let seg_end = seg_start + filesz as usize;
    let bytes = vstd::slice::slice_to_vec(
        vstd::slice::slice_subrange(contents, seg_start, seg_end),
    );
    ProgramHeader {
        ty: parse_program_header_ty(ty),
        offset,
        vaddr,
        paddr,
        filesz,
        memsz,
        flags,
        align,
        contents: bytes,
    }
}

fn parse_program_header_ty(ty: u32) -> (r: ProgramHeaderType)
    requires
        spec_ph_ty_known(ty),
    ensures
        r == spec_ph_ty(ty),
{
    if ty == 0 {
        ProgramHeaderType::NULL
    } else if ty == 1 {
        ProgramHeaderType::LOAD
    } else if ty == 2 {
        ProgramHeaderType::DYNAMIC
    } else if ty == 3 {
        ProgramHeaderType::INTERP
    } else if ty == 4 {
        ProgramHeaderType::NOTE
    } else if ty == 5 {
        ProgramHeaderType::SHLIB
    } else if ty == 6 {
        ProgramHeaderType::PHDR
    } else if ty == 7 {
        ProgramHeaderType::TLS
    } else if ty == 0x6474e550 {
        ProgramHeaderType::GNU_EH_FRAME
    } else if ty == 0x6474e551 {
        ProgramHeaderType::GNU_STACK
    } else if ty == 0x6474e552 {
        ProgramHeaderType::GNU_RELRO
    } else if 0x60000000 <= ty && ty <= 0x6fffffff {
        ProgramHeaderType::OS(ty)
    } else {
        ProgramHeaderType::PROC(ty)
    }
}

////////////////////////////////////////////////////////////////////////
// Section headers

/// The section type words the parser accepts.
pub open spec fn spec_sh_ty_known(w: u32) -> bool {
    w <= 12 || w == 0xe || w == 0xf || w == 0x6ffffff6 || w == 0x6ffffffe || w == 0x6fffffff
        || 0x70000000 <= w
}

pub open spec fn spec_sh_ty(w: u32) -> SectionHeaderType {
    if w == 0 {
        SectionHeaderType::NULL
    } else if w == 1 {
        SectionHeaderType::PROGBITS
    } else if w == 2 {
        SectionHeaderType::SYMTAB
    } else if w == 3 {
        SectionHeaderType::STRTAB
    } else if w == 4 {
        SectionHeaderType::RELA
    } else if w == 5 {
        SectionHeaderType::HASH
    } else if w == 6 {
        SectionHeaderType::DYNAMIC
    } else if w == 7 {
        SectionHeaderType::NOTE
    } else if w == 8 {
        SectionHeaderType::NOBITS
    } else if w == 9 {
        SectionHeaderType::REL
    } else if w == 10 {
        SectionHeaderType::SHLIB
    } else if w == 11 {
        SectionHeaderType::DYNSYM
    } else if w == 12 {
        SectionHeaderType::NUM
    } else if 0x70000000 <= w && w <= 0x7fffffff {
        SectionHeaderType::PROC(w)
    } else if 0x80000000 <= w {
        SectionHeaderType::USER(w)
    } else if w == 0x6ffffff6 {
        SectionHeaderType::GNU_HASH
    } else if w == 0x6fffffff {
        SectionHeaderType::VERSYM
    } else if w == 0x6ffffffe {
        SectionHeaderType::VERNEED
    } else if w == 0xe {
        SectionHeaderType::INIT_ARRAY
    } else {
        SectionHeaderType::FINI_ARRAY
    }
}

/// File position of section header table entry `i`.
pub open spec fn spec_sh_start(h: ELFHeader, i: int) -> int {
    h.shoff + i * h.shentsize
}

/// Entry `i` of the section header table lies inside the buffer, its
/// type word is known, and the section bytes it points at exist.
pub open spec fn spec_sh_entry_ok(h: ELFHeader, b: Seq<u8>, i: int) -> bool {
    let e = h.endianness;
    let s = spec_sh_start(h, i);
    &&& 0 <= s
    &&& match h.class {
        Class::Bit32 => {
            &&& s + 40 <= b.len()
            &&& spec_sh_ty_known(spec_read_u32(e, b, s + 4))
            &&& spec_read_u32(e, b, s + 16) + spec_read_u32(e, b, s + 20) <= b.len()
        },
        Class::Bit64 => {
            &&& s + 64 <= b.len()
            &&& spec_sh_ty_known(spec_read_u32(e, b, s + 4))
            &&& spec_read_u64(e, b, s + 24) + spec_read_u64(e, b, s + 32) <= b.len()
        },
    }
}

/// `p` holds exactly the fields stored in entry `i` of the table, and a
/// copy of the section bytes the entry points at.
pub open spec fn spec_sh_matches(p: SectionHeader, h: ELFHeader, b: Seq<u8>, i: int) -> bool {
    let e = h.endianness;
    let s = spec_sh_start(h, i);
    match h.class {
        Class::Bit32 => {
            &&& p.name == spec_read_u32(e, b, s)
            &&& p.ty == spec_sh_ty(spec_read_u32(e, b, s + 4))
            &&& p.flags == spec_read_u32(e, b, s + 8) as u64
            &&& p.addr == spec_read_u32(e, b, s + 12) as u64
            &&& p.offset == spec_read_u32(e, b, s + 16) as u64
            &&& p.size == spec_read_u32(e, b, s + 20) as u64
            &&& p.link == spec_read_u32(e, b, s + 24)
            &&& p.info == spec_read_u32(e, b, s + 28)
            &&& p.addralign == spec_read_u32(e, b, s + 32) as u64
            &&& p.entsize == spec_read_u32(e, b, s + 36) as u64
            &&& p.contents@ == b.subrange(p.offset as int, p.offset + p.size)
        },
        Class::Bit64 => {
            &&& p.name == spec_read_u32(e, b, s)
            &&& p.ty == spec_sh_ty(spec_read_u32(e, b, s + 4))
            &&& p.flags == spec_read_u64(e, b, s + 8)
            &&& p.addr == spec_read_u64(e, b, s + 16)
            &&& p.offset == spec_read_u64(e, b, s + 24)
            &&& p.size == spec_read_u64(e, b, s + 32)
            &&& p.link == spec_read_u32(e, b, s + 40)
            &&& p.info == spec_read_u32(e, b, s + 44)
            &&& p.addralign == spec_read_u64(e, b, s + 48)
            &&& p.entsize == spec_read_u64(e, b, s + 56)
            &&& p.contents@ == b.subrange(p.offset as int, p.offset + p.size)
        },
    }
}

/// Parse the whole section header table named by the file header.
pub fn parse_section_headers(elf_header: &ELFHeader, contents: &[u8]) -> (r: Vec<SectionHeader>)
    requires
        forall|i: int|
            0 <= i < elf_header.shnum ==> spec_sh_entry_ok(*elf_header, contents@, i),
    ensures
        r@.len() == elf_header.shnum,
        forall|i: int|
            0 <= i < r@.len() ==> spec_sh_matches(#[trigger] r@[i], *elf_header, contents@, i),
{
    let num_section_headers = elf_header.shnum as usize;
    let section_header_size = elf_header.shentsize as usize;
    let n = contents.len();

    let mut ret: Vec<SectionHeader> = Vec::new();
    let mut i: usize = 0;
    while i < num_section_headers
        invariant
            0 <= i <= num_section_headers,
            num_section_headers == elf_header.shnum,
            section_header_size == elf_header.shentsize,
            n == contents@.len(),
            forall|j: int|
                0 <= j < elf_header.shnum ==> spec_sh_entry_ok(*elf_header, contents@, j),
            ret@.len() == i,
            forall|j: int|
                0 <= j < i ==> spec_sh_matches(#[trigger] ret@[j], *elf_header, contents@, j),
        decreases num_section_headers - i,
    {
        proof {
            assert(spec_sh_entry_ok(*elf_header, contents@, i as int));
            vstd::arithmetic::mul::lemma_mul_is_commutative(
                i as int,
                elf_header.shentsize as int,
            );
            vstd::arithmetic::mul::lemma_mul_nonnegative(
                i as int,
                elf_header.shentsize as int,
            );
        }
        let headers_start_at = elf_header.shoff as usize;
        let start_offset = headers_start_at + i * section_header_size;
        let header = match elf_header.class {
            Class::Bit32 => parse_section_header_32(elf_header.endianness, contents, start_offset),
            Class::Bit64 => parse_section_header_64(elf_header.endianness, contents, start_offset),
        };
        ret.push(header);
        i = i + 1;
    }
    ret
}

fn parse_section_header_32(endianness: Endianness, contents: &[u8], start_offset: usize) -> (r:
    SectionHeader)
    requires
        start_offset + 40 <= contents@.len(),
        spec_sh_ty_known(spec_read_u32(endianness, contents@, start_offset + 4)),
        spec_read_u32(endianness, contents@, start_offset + 16) + spec_read_u32(
            endianness,
            contents@,
            start_offset + 20,
        ) <= contents@.len(),
    ensures
        r.name == spec_read_u32(endianness, contents@, start_offset as int),
        r.ty == spec_sh_ty(spec_read_u32(endianness, contents@, start_offset + 4)),
        r.flags == spec_read_u32(endianness, contents@, start_offset + 8) as u64,
        r.addr == spec_read_u32(endianness, contents@, start_offset + 12) as u64,
        r.offset == spec_read_u32(endianness, contents@, start_offset + 16) as u64,
        r.size == spec_read_u32(endianness, contents@, start_offset + 20) as u64,
        r.link == spec_read_u32(endianness, contents@, start_offset + 24),
        r.info == spec_read_u32(endianness, contents@, start_offset + 28),
        r.addralign == spec_read_u32(endianness, contents@, start_offset + 32) as u64,
        r.entsize == spec_read_u32(endianness, contents@, start_offset + 36) as u64,
        r.contents@ == contents@.subrange(r.offset as int, r.offset + r.size),
{
    let n = contents.len();
    let name = read_at_u32(endianness, contents, start_offset);
    let ty = read_at_u32(endianness, contents, start_offset + 4);
    let flags = read_at_u32(endianness, contents, start_offset + 8) as u64;
    let addr = read_at_u32(endianness, contents, start_offset + 12) as u64;
    let offset = read_at_u32(endianness, contents, start_offset + 16) as u64;
    let size = read_at_u32(endianness, contents, start_offset + 20) as u64;
    let link = read_at_u32(endianness, contents, start_offset + 24);
    let info = read_at_u32(endianness, contents, start_offset + 28);
    let addralign = read_at_u32(endianness, contents, start_offset + 32) as u64;
    let entsize = read_at_u32(endianness, contents, start_offset + 36) as u64;
    let sec_start = offset as usize;
    let sec_end = sec_start + size as usize;
    let bytes = vstd::slice::slice_to_vec(
        vstd::slice::slice_subrange(contents, sec_start, sec_end),
    );
    SectionHeader {
        name,
        ty: parse_section_header_ty(ty),
        flags,
        addr,
        offset,
        size,
        link,
        info,
        addralign,
        entsize,
        contents: bytes,
    }
}

fn parse_section_header_64(endianness: Endianness, contents: &[u8], start_offset: usize) -> (r:
    SectionHeader)
    requires
        start_offset + 64 <= contents@.len(),
        spec_sh_ty_known(spec_read_u32(endianness, contents@, start_offset + 4)),
        spec_read_u64(endianness, contents@, start_offset + 24) + spec_read_u64(
            endianness,
            contents@,
            start_offset + 32,
        ) <= contents@.len(),
    ensures
        r.name == spec_read_u32(endianness, contents@, start_offset as int),
        r.ty == spec_sh_ty(spec_read_u32(endianness, contents@, start_offset + 4)),
        r.flags == spec_read_u64(endianness, contents@, start_offset + 8),
        r.addr == spec_read_u64(endianness, contents@, start_offset + 16),
        r.offset == spec_read_u64(endianness, contents@, start_offset + 24),
        r.size == spec_read_u64(endianness, contents@, start_offset + 32),
        r.link == spec_read_u32(endianness, contents@, start_offset + 40),
        r.info == spec_read_u32(endianness, contents@, start_offset + 44),
        r.addralign == spec_read_u64(endianness, contents@, start_offset + 48),
        r.entsize == spec_read_u64(endianness, contents@, start_offset + 56),
        r.contents@ == contents@.subrange(r.offset as int, r.offset + r.size),
{
    let n = contents.len();
    let name = read_at_u32(endianness, contents, start_offset);
    let ty = read_at_u32(endianness, contents, start_offset + 4);
    let flags = read_at_u64(endianness, contents, start_offset + 8);
    let addr = read_at_u64(endianness, contents, start_offset + 16);
    let offset = read_at_u64(endianness, contents, start_offset + 24);
    let size = read_at_u64(endianness, contents, start_offset + 32);
    let link = read_at_u32(endianness, contents, start_offset + 40);
    let info = read_at_u32(endianness, contents, start_offset + 44);
    let addralign = read_at_u64(endianness, contents, start_offset + 48);
    let entsize = read_at_u64(endianness, contents, start_offset + 56);
    let sec_start = offset as usize;
    let sec_end = sec_start + size as usize;
    let bytes = vstd::slice::slice_to_vec(
        vstd::slice::slice_subrange(contents, sec_start, sec_end),
    );
    SectionHeader {
        name,
        ty: parse_section_header_ty(ty),
        flags,
        addr,
        offset,
        size,
        link,
        info,
        addralign,
        entsize,
        contents: bytes,
    }
}

fn parse_section_header_ty(ty: u32) -> (r: SectionHeaderType)
    requires
        spec_sh_ty_known(ty),
    ensures
        r == spec_sh_ty(ty),
{
    if ty == 0 {
        SectionHeaderType::NULL
    } else if ty == 1 {
        SectionHeaderType::PROGBITS
    } else if ty == 2 {
        SectionHeaderType::SYMTAB
    } else if ty == 3 {
        SectionHeaderType::STRTAB
    } else if ty == 4 {
        SectionHeaderType::RELA
    } else if ty == 5 {
        SectionHeaderType::HASH
    } else if ty == 6 {
        SectionHeaderType::DYNAMIC
    } else if ty == 7 {
        SectionHeaderType::NOTE
    } else if ty == 8 {
        SectionHeaderType::NOBITS
    } else if ty == 9 {
        SectionHeaderType::REL
    } else if ty == 10 {
        SectionHeaderType::SHLIB
    } else if ty == 11 {
        SectionHeaderType::DYNSYM
    } else if ty == 12 {
        SectionHeaderType::NUM
    } else if 0x70000000 <= ty && ty <= 0x7fffffff {
        SectionHeaderType::PROC(ty)
    } else if 0x80000000 <= ty {
        SectionHeaderType::USER(ty)
    } else if ty == 0x6ffffff6 {
        SectionHeaderType::GNU_HASH
    } else if ty == 0x6fffffff {
        SectionHeaderType::VERSYM
    } else if ty == 0x6ffffffe {
        SectionHeaderType::VERNEED
    } else if ty == 0xe {
        SectionHeaderType::INIT_ARRAY
    } else {
        SectionHeaderType::FINI_ARRAY
    }
}

////////////////////////////////////////////////////////////////////////
// String table

/// Copy out the section name string table, when the file has one. An
/// index into it can point at any byte: each name runs from its index to
/// the next zero byte.
pub fn parse_string_table(elf_header: &ELFHeader, section_headers: &Vec<SectionHeader>) -> (r:
    Option<StringTable>)
    requires
        elf_header.shstrndx != 0 ==> elf_header.shstrndx < section_headers@.len(),
    ensures
        elf_header.shstrndx == 0 <==> r is None,
        r matches Some(tbl) ==> tbl@ == section_headers@[elf_header.shstrndx as int].contents@,
{
    if elf_header.shstrndx == 0 {
        None
    } else {
        Some(
            vstd::slice::slice_to_vec(
                section_headers[elf_header.shstrndx as usize].contents.as_slice(),
            ),
        )
    }
}

/// The name at `idx`: the bytes from `idx` up to the next zero byte.
/// Index zero means no name at all, by the ELF convention.
pub fn index_string_table<'tbl>(tbl: &'tbl StringTable, idx: usize) -> (r: Option<&'tbl [u8]>)
    requires
        idx != 0 ==> idx < tbl@.len() && exists|j: int|
            idx <= j < tbl@.len() && tbl@[j] == 0,
    ensures
        idx == 0 <==> r is None,
        r matches Some(s) ==> {
            &&& idx + s@.len() < tbl@.len()
            &&& s@ == tbl@.subrange(idx as int, idx + s@.len())
            &&& tbl@[idx + s@.len()] == 0
            &&& forall|j: int| idx <= j < idx + s@.len() ==> tbl@[j] != 0
        },
{
    if idx == 0 {
        None
    } else {
        let n = tbl.len();
        let ghost witness = choose|j: int| idx <= j < tbl@.len() && tbl@[j] == 0;
        let mut end = idx;
        while tbl[end] != 0
            invariant
                idx <= end <= witness,
                witness < n == tbl@.len(),
                tbl@[witness] == 0,
                forall|j: int| idx <= j < end ==> tbl@[j] != 0,
            decreases witness - end,
        {
            end = end + 1;
        }
        Some(vstd::slice::slice_subrange(tbl.as_slice(), idx, end))
    }
}

/// The 16-bit field at byte offset `off`.
fn read_at_u16(endianness: Endianness, contents: &[u8], off: usize) -> (r: u16)
    requires
        off + 2 <= contents@.len(),
    ensures
        r == spec_read_u16(endianness, contents@, off as int),
{
    let s = vstd::slice::slice_subrange(contents, off, contents.len());
    let r = read_u16(endianness, s);
    proof {
        assert(spec_read_u16(endianness, s@, 0) == spec_read_u16(
            endianness,
            contents@,
            off as int,
        ));
    }
    r
}

/// The 32-bit field at byte offset `off`.
fn read_at_u32(endianness: Endianness, contents: &[u8], off: usize) -> (r: u32)
    requires
        off + 4 <= contents@.len(),
    ensures
        r == spec_read_u32(endianness, contents@, off as int),
{
    let s = vstd::slice::slice_subrange(contents, off, contents.len());
    let r = read_u32(endianness, s);
    proof {
        assert(spec_read_u16(endianness, s@, 0) == spec_read_u16(
            endianness,
            contents@,
            off as int,
        ));
        assert(spec_read_u16(endianness, s@, 2) == spec_read_u16(
            endianness,
            contents@,
            off + 2,
        ));
        assert(spec_read_u32(endianness, s@, 0) == spec_read_u32(
            endianness,
            contents@,
            off as int,
        ));
    }
    r
}

/// The 64-bit field at byte offset `off`.
fn read_at_u64(endianness: Endianness, contents: &[u8], off: usize) -> (r: u64)
    requires
        off + 8 <= contents@.len(),
    ensures
        r == spec_read_u64(endianness, contents@, off as int),
{
    let s = vstd::slice::slice_subrange(contents, off, contents.len());
    let r = read_u64(endianness, s);
    proof {
        assert forall|k: int| 0 <= k < 8 implies s@[k] == contents@[off + k] by {}
        assert(spec_read_u16(endianness, s@, 0) == spec_read_u16(
            endianness,
            contents@,
            off as int,
        ));
        assert(spec_read_u16(endianness, s@, 2) == spec_read_u16(
            endianness,
            contents@,
            off + 2,
        ));
        assert(spec_read_u16(endianness, s@, 4) == spec_read_u16(
            endianness,
            contents@,
            off + 4,
        ));
        assert(spec_read_u16(endianness, s@, 6) == spec_read_u16(
            endianness,
            contents@,
            off + 6,
        ));
        assert(spec_read_u32(endianness, s@, 0) == spec_read_u32(
            endianness,
            contents@,
            off as int,
        ));
        assert(spec_read_u32(endianness, s@, 4) == spec_read_u32(
            endianness,
            contents@,
            off + 4,
        ));
        assert(spec_read_u64(endianness, s@, 0) == spec_read_u64(
            endianness,
            contents@,
            off as int,
        ));
    }
    r
}

} // verus!
