use rhex::elf::{
    index_string_table, parse_elf_header_, parse_program_headers, parse_section_headers,
    parse_string_table, Class, Endianness, ObjType, OsABI, ParseResult, ProgramHeaderType,
    SectionHeaderType, ISA,
};

fn put_u16_le(b: &mut Vec<u8>, off: usize, v: u16) {
    b[off] = (v & 0xff) as u8;
    b[off + 1] = (v >> 8) as u8;
}

fn put_u32_le(b: &mut Vec<u8>, off: usize, v: u32) {
    for i in 0..4 {
        b[off + i] = ((v >> (8 * i)) & 0xff) as u8;
    }
}

fn put_u64_le(b: &mut Vec<u8>, off: usize, v: u64) {
    for i in 0..8 {
        b[off + i] = ((v >> (8 * i)) & 0xff) as u8;
    }
}

/// A minimal little-endian 64-bit ELF header.
fn minimal_elf64() -> Vec<u8> {
    let mut b = vec![0u8; 0x40];
    b[0] = 0x7f;
    b[1] = b'E';
    b[2] = b'L';
    b[3] = b'F';
    b[4] = 2; // 64-bit
    b[5] = 1; // little endian
    b[7] = 0; // System V
    put_u16_le(&mut b, 0x10, 2); // executable
    put_u16_le(&mut b, 0x12, 0x3e); // x86-64
    put_u64_le(&mut b, 0x18, 0x401000); // entry
    put_u64_le(&mut b, 0x20, 0x40); // phoff
    put_u64_le(&mut b, 0x28, 0); // shoff
    put_u32_le(&mut b, 0x30, 7); // flags
    put_u16_le(&mut b, 0x34, 64); // ehsize
    put_u16_le(&mut b, 0x36, 56); // phentsize
    put_u16_le(&mut b, 0x38, 0); // phnum
    put_u16_le(&mut b, 0x3a, 64); // shentsize
    put_u16_le(&mut b, 0x3c, 0); // shnum
    put_u16_le(&mut b, 0x3e, 0); // shstrndx
    b
}

#[test]
fn parse_header_64_le() {
    let b = minimal_elf64();
    match parse_elf_header_(&b) {
        ParseResult::ParseOK(h) => {
            assert_eq!(h.class, Class::Bit64);
            assert_eq!(h.endianness, Endianness::LittleEndian);
            assert_eq!(h.abi, OsABI::SystemV);
            assert_eq!(h.obj_type, ObjType::Executable);
            assert_eq!(h.isa, ISA::X86_64);
            assert_eq!(h.entry_addr, 0x401000);
            assert_eq!(h.phoff, 0x40);
            assert_eq!(h.shoff, 0);
            assert_eq!(h.flags, 7);
            assert_eq!(h.ehsize, 64);
            assert_eq!(h.phentsize, 56);
            assert_eq!(h.phnum, 0);
            assert_eq!(h.shentsize, 64);
            assert_eq!(h.shnum, 0);
            assert_eq!(h.shstrndx, 0);
        },
        _ => panic!("a well-formed header must parse"),
    }
}

#[test]
fn parse_header_32_be() {
    let mut b = vec![0u8; 0x40];
    b[0] = 0x7f;
    b[1] = b'E';
    b[2] = b'L';
    b[3] = b'F';
    b[4] = 1; // 32-bit
    b[5] = 2; // big endian
    b[7] = 3; // Linux
    b[0x10] = 0;
    b[0x11] = 1; // relocatable, big endian
    b[0x12] = 0;
    b[0x13] = 3; // x86
    b[0x18] = 0x00;
    b[0x19] = 0x01;
    b[0x1a] = 0x02;
    b[0x1b] = 0x03; // entry 0x10203
    match parse_elf_header_(&b) {
        ParseResult::ParseOK(h) => {
            assert_eq!(h.class, Class::Bit32);
            assert_eq!(h.endianness, Endianness::BigEndian);
            assert_eq!(h.abi, OsABI::Linux);
            assert_eq!(h.obj_type, ObjType::Relocatable);
            assert_eq!(h.isa, ISA::X86);
            assert_eq!(h.entry_addr, 0x10203);
        },
        _ => panic!("a well-formed header must parse"),
    }
}

#[test]
fn parse_header_64_be_entry() {
    let mut b = minimal_elf64();
    b[5] = 2; // big endian
    for i in 0..8 {
        b[0x18 + i] = 0;
    }
    b[0x1f] = 0x42; // low byte of a big-endian doubleword
    // The type and machine words must be stored big-endian too.
    b[0x10] = 0;
    b[0x11] = 2;
    b[0x12] = 0;
    b[0x13] = 0x3e;
    match parse_elf_header_(&b) {
        ParseResult::ParseOK(h) => {
            assert_eq!(h.endianness, Endianness::BigEndian);
            assert_eq!(h.entry_addr, 0x42);
        },
        _ => panic!("a well-formed header must parse"),
    }
}

#[test]
fn reject_bad_magic() {
    let mut b = minimal_elf64();
    b[0] = 0x7e;
    assert!(matches!(parse_elf_header_(&b), ParseResult::NotELF));
}

#[test]
fn reject_unknown_class() {
    let mut b = minimal_elf64();
    b[4] = 9;
    assert!(matches!(parse_elf_header_(&b), ParseResult::CantParse));
}

#[test]
fn reject_unknown_machine() {
    let mut b = minimal_elf64();
    b[0x12] = 0x77;
    assert!(matches!(parse_elf_header_(&b), ParseResult::CantParse));
}

#[test]
fn parse_one_program_header() {
    let mut b = minimal_elf64();
    put_u16_le(&mut b, 0x38, 1); // one program header at 0x40
    b.resize(0x40 + 56 + 4, 0);
    let base = 0x40;
    put_u32_le(&mut b, base, 1); // LOAD
    put_u32_le(&mut b, base + 4, 5); // flags
    put_u64_le(&mut b, base + 8, (base + 56) as u64); // offset
    put_u64_le(&mut b, base + 16, 0x400000); // vaddr
    put_u64_le(&mut b, base + 24, 0x400000); // paddr
    put_u64_le(&mut b, base + 32, 4); // filesz
    put_u64_le(&mut b, base + 40, 4); // memsz
    put_u64_le(&mut b, base + 48, 0x1000); // align
    b[base + 56] = 0xde;
    b[base + 57] = 0xad;
    b[base + 58] = 0xbe;
    b[base + 59] = 0xef;
    let h = match parse_elf_header_(&b) {
        ParseResult::ParseOK(h) => h,
        _ => panic!("a well-formed header must parse"),
    };
    let phs = parse_program_headers(&h, &b);
    assert_eq!(phs.len(), 1);
    assert_eq!(phs[0].ty, ProgramHeaderType::LOAD);
    assert_eq!(phs[0].flags, 5);
    assert_eq!(phs[0].offset, (base + 56) as u64);
    assert_eq!(phs[0].vaddr, 0x400000);
    assert_eq!(phs[0].filesz, 4);
    assert_eq!(phs[0].memsz, 4);
    assert_eq!(phs[0].align, 0x1000);
    assert_eq!(phs[0].contents, vec![0xde, 0xad, 0xbe, 0xef]);
}

#[test]
fn parse_section_headers_and_string_table() {
    let mut b = minimal_elf64();
    let shoff = 0x40usize;
    put_u64_le(&mut b, 0x28, shoff as u64);
    put_u16_le(&mut b, 0x3c, 2); // two section headers
    put_u16_le(&mut b, 0x3e, 1); // string table is section 1
    let strtab_off = shoff + 2 * 64;
    b.resize(strtab_off + 7, 0);
    // Section 0: the null section.
    // Section 1: STRTAB holding "\0.text\0" shortened to 7 bytes.
    let s1 = shoff + 64;
    put_u32_le(&mut b, s1, 1); // name index 1
    put_u32_le(&mut b, s1 + 4, 3); // STRTAB
    put_u64_le(&mut b, s1 + 24, strtab_off as u64); // offset
    put_u64_le(&mut b, s1 + 32, 7); // size
    let table = [0u8, b'.', b't', b'e', b'x', b't', 0u8];
    for (i, v) in table.iter().enumerate() {
        b[strtab_off + i] = *v;
    }
    let h = match parse_elf_header_(&b) {
        ParseResult::ParseOK(h) => h,
        _ => panic!("a well-formed header must parse"),
    };
    let shs = parse_section_headers(&h, &b);
    assert_eq!(shs.len(), 2);
    assert_eq!(shs[0].ty, SectionHeaderType::NULL);
    assert_eq!(shs[1].ty, SectionHeaderType::STRTAB);
    assert_eq!(shs[1].contents, table.to_vec());
    let tbl = parse_string_table(&h, &shs).expect("a named string table section");
    assert_eq!(tbl, table.to_vec());
    assert_eq!(index_string_table(&tbl, 0), None);
    assert_eq!(index_string_table(&tbl, 1), Some(&b".text"[..]));
    assert_eq!(index_string_table(&tbl, 3), Some(&b"ext"[..]));
}

#[test]
fn string_table_absent() {
    let b = minimal_elf64();
    let h = match parse_elf_header_(&b) {
        ParseResult::ParseOK(h) => h,
        _ => panic!("a well-formed header must parse"),
    };
    let shs = parse_section_headers(&h, &b);
    assert!(shs.is_empty());
    assert!(parse_string_table(&h, &shs).is_none());
}
