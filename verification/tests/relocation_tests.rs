use dryad::image::{Dyn, SharedObject, DT_RELA, DT_RELACOUNT, DT_RELAENT, DT_RELASZ};
use dryad::memory::Memory;
use dryad::rela::{
    r_info, r_sym, r_type, Elf64_Rela, R_X86_64_64, R_X86_64_GLOB_DAT, R_X86_64_NONE,
    R_X86_64_RELATIVE,
};
use dryad::relocate::{get_relocations, relocate, relocate_self};
use dryad::sym::Sym;
use dryad::LinkError;

fn sym(name_off: u32, bind: u8, typ: u8, value: u64) -> Sym {
    Sym {
        st_name: name_off,
        st_info: (bind << 4) | (typ & 0xf),
        st_other: 0,
        st_shndx: 1,
        st_value: value,
        st_size: 0,
    }
}

fn rela(offset: u64, sym_idx: u64, kind: u64, addend: i64) -> Elf64_Rela {
    Elf64_Rela { r_offset: offset, r_info: (sym_idx << 32) | kind, r_addend: addend }
}

fn image(name: &str, bias: u64, symtab: Vec<Sym>, strtab: Vec<u8>, relatab: Vec<Elf64_Rela>) -> SharedObject {
    SharedObject { name: name.to_string(), load_bias: bias, symtab, strtab, relatab }
}

#[test]
fn info_packing_round_trips() {
    let packed = r_info(5, R_X86_64_RELATIVE);
    assert_eq!(packed, (5u64 << 32) + 8);
    assert_eq!(r_sym(packed), 5);
    assert_eq!(r_type(packed), R_X86_64_RELATIVE);

    let packed = r_info(0xffff_ffff, 0xffff_ffff);
    assert_eq!(r_sym(packed), 0xffff_ffff);
    assert_eq!(r_type(packed), 0xffff_ffff);

    let packed = r_info(0, 0);
    assert_eq!(r_sym(packed), 0);
    assert_eq!(r_type(packed), 0);
}

#[test]
fn relative_entry_writes_bias_plus_addend() {
    let mut mem = Memory::new();
    let ws: Vec<SharedObject> = Vec::new();
    let table = [rela(0x18, 0, R_X86_64_RELATIVE, 0x20)];
    let r = relocate(&ws, 0x400000, &table, &[], &[], &mut mem);
    assert!(r.is_ok());
    assert_eq!(mem.read_word(0x400018), Some(0x400020));
}

#[test]
fn relative_entry_ignores_symbol_table_contents() {
    // same entry, garbage symbol table: the written word is identical
    let mut mem = Memory::new();
    let ws: Vec<SharedObject> = Vec::new();
    let table = [rela(0x18, 0, R_X86_64_RELATIVE, 0x20)];
    let junk_syms = [sym(0, 1, 2, 0xdead), sym(0, 0, 0, 0xbeef)];
    let junk_strs = b"\0junk\0".to_vec();
    let r = relocate(&ws, 0x400000, &table, &junk_syms, &junk_strs, &mut mem);
    assert!(r.is_ok());
    assert_eq!(mem.read_word(0x400018), Some(0x400020));
}

#[test]
fn relative_arithmetic_wraps_modulo_64_bits() {
    let mut mem = Memory::new();
    let ws: Vec<SharedObject> = Vec::new();
    // site: 2 + (2^64 - 1) wraps to 1; word: (2^64 - 1) + 3 wraps to 2
    let table = [rela(2, 0, R_X86_64_RELATIVE, 3)];
    let r = relocate(&ws, u64::MAX, &table, &[], &[], &mut mem);
    assert!(r.is_ok());
    assert_eq!(mem.read_word(1), Some(2));
}

#[test]
fn negative_addend_is_two_s_complement() {
    let mut mem = Memory::new();
    let ws: Vec<SharedObject> = Vec::new();
    let table = [rela(0x8, 0, R_X86_64_RELATIVE, -0x10)];
    let r = relocate(&ws, 0x1000, &table, &[], &[], &mut mem);
    assert!(r.is_ok());
    assert_eq!(mem.read_word(0x1008), Some(0x1000 - 0x10));
}

#[test]
fn unhandled_kinds_are_no_ops() {
    let mut mem = Memory::new();
    let ws: Vec<SharedObject> = Vec::new();
    let table = [rela(0x8, 0, R_X86_64_NONE, 7), rela(0x10, 0, 25, 7)];
    let r = relocate(&ws, 0x1000, &table, &[], &[], &mut mem);
    assert!(r.is_ok());
    assert_eq!(mem.read_word(0x1008), None);
    assert_eq!(mem.read_word(0x1010), None);
}

#[test]
fn glob_dat_writes_resolved_value() {
    let mut mem = Memory::new();
    let lib = image(
        "libx",
        0x7000,
        vec![sym(1, 1, 2, 0x500)],
        b"\0bar\0".to_vec(),
        Vec::new(),
    );
    let ws = vec![lib];
    // the referencing image's own tables name "bar" at symbol index 0
    let symtab = [sym(1, 1, 0, 0)];
    let strtab = b"\0bar\0".to_vec();
    let table = [rela(0x10, 0, R_X86_64_GLOB_DAT, 0)];
    let r = relocate(&ws, 0x400000, &table, &symtab, &strtab, &mut mem);
    assert!(r.is_ok());
    assert_eq!(mem.read_word(0x400010), Some(0x500));
}

#[test]
fn direct_64_adds_addend_to_resolved_value() {
    let mut mem = Memory::new();
    let lib = image(
        "libx",
        0x7000,
        vec![sym(1, 1, 2, 0x500)],
        b"\0bar\0".to_vec(),
        Vec::new(),
    );
    let ws = vec![lib];
    let symtab = [sym(1, 1, 0, 0)];
    let strtab = b"\0bar\0".to_vec();
    let table = [rela(0x10, 0, R_X86_64_64, 0x30)];
    let r = relocate(&ws, 0x400000, &table, &symtab, &strtab, &mut mem);
    assert!(r.is_ok());
    assert_eq!(mem.read_word(0x400010), Some(0x530));
}

#[test]
fn unresolved_symbol_is_a_named_error_and_keeps_prior_writes() {
    let mut mem = Memory::new();
    let ws: Vec<SharedObject> = Vec::new();
    let symtab = [sym(1, 1, 0, 0)];
    let strtab = b"\0nope\0".to_vec();
    let table = [
        rela(0x8, 0, R_X86_64_RELATIVE, 0x1),
        rela(0x10, 0, R_X86_64_GLOB_DAT, 0),
    ];
    let r = relocate(&ws, 0x1000, &table, &symtab, &strtab, &mut mem);
    match r {
        Err(LinkError::UnresolvedSymbol(name)) => assert_eq!(name, b"nope".to_vec()),
        other => panic!("expected an unresolved-symbol error, got {:?}", other.is_ok()),
    }
    // the entry before the failure stays applied
    assert_eq!(mem.read_word(0x1008), Some(0x1001));
    assert_eq!(mem.read_word(0x1010), None);
}

#[test]
fn self_relocation_applies_every_relative_entry() {
    let mut mem = Memory::new();
    let table = [
        rela(0x8, 0, R_X86_64_RELATIVE, 0x100),
        rela(0x10, 0, R_X86_64_RELATIVE, 0x200),
        rela(0x18, 0, R_X86_64_RELATIVE, 0x300),
    ];
    let r = relocate_self(0x2000, &table, &mut mem);
    assert!(r.is_ok());
    assert_eq!(mem.read_word(0x2008), Some(0x2100));
    assert_eq!(mem.read_word(0x2010), Some(0x2200));
    assert_eq!(mem.read_word(0x2018), Some(0x2300));
}

#[test]
fn self_relocation_rejects_any_non_relative_entry() {
    let mut mem = Memory::new();
    let table = [
        rela(0x8, 0, R_X86_64_RELATIVE, 0x100),
        rela(0x10, 0, R_X86_64_GLOB_DAT, 0),
    ];
    let r = relocate_self(0x2000, &table, &mut mem);
    assert!(matches!(r, Err(LinkError::NonRelativeEntry)));
    // rejected whole: nothing was written, not even the relative entry
    assert_eq!(mem.read_word(0x2008), None);
    assert_eq!(mem.read_word(0x2010), None);
}

#[test]
fn memory_write_overwrites_and_reads_back() {
    let mut mem = Memory::new();
    assert_eq!(mem.read_word(0x10), None);
    mem.write_word(0x10, 1);
    mem.write_word(0x18, 2);
    mem.write_word(0x10, 3);
    assert_eq!(mem.read_word(0x10), Some(3));
    assert_eq!(mem.read_word(0x18), Some(2));
    assert_eq!(mem.words().len(), 2);
}

#[test]
fn relocation_table_location_is_read_from_the_dynamic_section() {
    let dynamic = [
        Dyn { d_tag: DT_RELA, d_val: 0x100 },
        Dyn { d_tag: DT_RELASZ, d_val: 48 },
        Dyn { d_tag: DT_RELAENT, d_val: 24 },
        Dyn { d_tag: DT_RELACOUNT, d_val: 2 },
        Dyn { d_tag: 0, d_val: 0 },
    ];
    let loc = get_relocations(0x1000, &dynamic).unwrap();
    assert_eq!(loc.addr, 0x1100);
    assert_eq!(loc.count, 2);
    assert_eq!(loc.relative_count, 2);
}

#[test]
fn indivisible_relocation_table_size_is_malformed() {
    let dynamic = [
        Dyn { d_tag: DT_RELA, d_val: 0x100 },
        Dyn { d_tag: DT_RELASZ, d_val: 50 },
        Dyn { d_tag: DT_RELAENT, d_val: 24 },
    ];
    let r = get_relocations(0x1000, &dynamic);
    assert!(matches!(r, Err(LinkError::MalformedRelocationTable)));
}

#[test]
fn missing_entry_size_is_malformed() {
    let dynamic = [
        Dyn { d_tag: DT_RELA, d_val: 0x100 },
        Dyn { d_tag: DT_RELASZ, d_val: 48 },
    ];
    let r = get_relocations(0x1000, &dynamic);
    assert!(matches!(r, Err(LinkError::MalformedRelocationTable)));
}
