use dryad::image::{
    find_symbol_in, name_matches, read_name, Dyn, Executable, ProgramHeader, SharedObject,
    DT_RELA, DT_RELAENT, DT_RELASZ, PT_DYNAMIC, PT_LOAD, PT_NOTE,
};
use dryad::linker::{compute_load_bias, find_dynamic, Config, Linker};
use dryad::memory::Memory;
use dryad::rela::{Elf64_Rela, R_X86_64_GLOB_DAT, R_X86_64_RELATIVE};
use dryad::sym::{bind_to_str, is_import, st_bind, st_type, type_to_str, Sym};
use dryad::LinkError;

fn sym(name_off: u32, bind: u8, typ: u8, value: u64) -> Sym {
    Sym {
        st_name: name_off,
        st_info: (bind << 4) | (typ & 0xf),
        st_other: 0,
        st_shndx: 1,
        st_value: value,
        st_size: 0,
    }
}

fn rela(offset: u64, sym_idx: u64, kind: u64, addend: i64) -> Elf64_Rela {
    Elf64_Rela { r_offset: offset, r_info: (sym_idx << 32) | kind, r_addend: addend }
}

fn image(name: &str, bias: u64, symtab: Vec<Sym>, strtab: Vec<u8>, relatab: Vec<Elf64_Rela>) -> SharedObject {
    SharedObject { name: name.to_string(), load_bias: bias, symtab, strtab, relatab }
}

fn phdr(p_type: u32, p_offset: u64, p_vaddr: u64) -> ProgramHeader {
    ProgramHeader {
        p_type,
        p_flags: 0,
        p_offset,
        p_vaddr,
        p_paddr: p_vaddr,
        p_filesz: 0,
        p_memsz: 0,
        p_align: 0x1000,
    }
}

fn plain_config() -> Config {
    Config::new(None, None, false, None, None)
}

/// A linker bootstrapped from a minimal self-image with an empty relocation
/// table.
fn fresh_linker(mem: &mut Memory) -> Linker {
    let phdrs = vec![phdr(PT_LOAD, 0, 0), phdr(PT_DYNAMIC, 0x200, 0x200)];
    let dynamic = vec![
        Dyn { d_tag: DT_RELA, d_val: 0x100 },
        Dyn { d_tag: DT_RELASZ, d_val: 0 },
        Dyn { d_tag: DT_RELAENT, d_val: 24 },
    ];
    Linker::new(0x555000, 0x7fff0000, phdrs, Some(dynamic), &[], plain_config(), mem).unwrap()
}

#[test]
fn symbol_accessors_split_the_packed_byte() {
    assert_eq!(st_bind(0x12), 1);
    assert_eq!(st_type(0x12), 2);
    assert_eq!(st_bind(0xf3), 0xf);
    assert_eq!(st_type(0xf3), 3);
}

#[test]
fn import_classification_needs_global_binding_and_zero_value() {
    assert!(is_import(&sym(0, 1, 0, 0)));
    assert!(!is_import(&sym(0, 1, 0, 0x500))); // defined: non-zero value
    assert!(!is_import(&sym(0, 0, 0, 0))); // local binding
    assert!(!is_import(&sym(0, 2, 0, 0))); // weak binding
}

#[test]
fn binding_and_type_names() {
    assert_eq!(bind_to_str(0), "LOCAL");
    assert_eq!(bind_to_str(1), "GLOBAL");
    assert_eq!(bind_to_str(2), "WEAK");
    assert_eq!(bind_to_str(9), "UNKNOWN_STB");
    assert_eq!(type_to_str(2), "FUNC");
    assert_eq!(type_to_str(6), "TLS");
    assert_eq!(type_to_str(9), "UNKNOWN_STT");
}

#[test]
fn load_bias_comes_from_the_first_loadable_header() {
    let phdrs = [phdr(PT_NOTE, 0, 0), phdr(PT_LOAD, 0x1000, 0x400), phdr(PT_LOAD, 0, 0x8000)];
    assert_eq!(compute_load_bias(0x7000, &phdrs), 0x7000 + 0x1000 - 0x400);
    let none: [ProgramHeader; 1] = [phdr(PT_NOTE, 0, 0)];
    assert_eq!(compute_load_bias(0x7000, &none), 0);
}

#[test]
fn dynamic_section_is_located_via_the_program_headers() {
    let phdrs = [phdr(PT_LOAD, 0, 0), phdr(PT_DYNAMIC, 0x200, 0x300)];
    assert_eq!(find_dynamic(0x7000, &phdrs), Some(0x7300));
    let none = [phdr(PT_LOAD, 0, 0)];
    assert_eq!(find_dynamic(0x7000, &none), None);
}

#[test]
fn config_flags_mean_present_and_non_empty() {
    let c = Config::new(Some("1".to_string()), Some("".to_string()), true, None, Some("x".to_string()));
    assert!(c.bind_now);
    assert!(!c.debug); // present but empty
    assert!(c.secure);
    assert!(!c.verbose); // absent
    assert!(c.trace_loaded_objects);
    assert!(c.library_path.is_empty());
    assert!(c.preload.is_empty());
}

#[test]
fn string_table_names_are_nul_terminated() {
    let strtab = b"\0bar\0quux\0".to_vec();
    assert_eq!(read_name(&strtab, 1), Some(b"bar".to_vec()));
    assert_eq!(read_name(&strtab, 5), Some(b"quux".to_vec()));
    assert_eq!(read_name(&strtab, 0), Some(Vec::new()));
    assert_eq!(read_name(b"abc", 0), None); // no terminator
    assert!(name_matches(&strtab, 1, b"bar"));
    assert!(!name_matches(&strtab, 1, b"ba"));
    assert!(!name_matches(&strtab, 1, b"barr"));
    assert!(!name_matches(b"abc", 0, b"abc"));
}

#[test]
fn resolver_returns_the_earliest_definition() {
    let a = image("a", 0, vec![sym(1, 1, 2, 0x1000)], b"\0foo\0".to_vec(), Vec::new());
    let b = image("b", 0, vec![sym(1, 1, 2, 0x2000)], b"\0foo\0".to_vec(), Vec::new());
    let ws = vec![a, b];
    let found = find_symbol_in(&ws, b"foo").unwrap();
    assert_eq!(found.st_value, 0x1000);

    let a = image("a", 0, vec![sym(1, 1, 2, 0x1000)], b"\0foo\0".to_vec(), Vec::new());
    let b = image("b", 0, vec![sym(1, 1, 2, 0x2000)], b"\0foo\0".to_vec(), Vec::new());
    let ws_reversed = vec![b, a];
    let found = find_symbol_in(&ws_reversed, b"foo").unwrap();
    assert_eq!(found.st_value, 0x2000);
}

#[test]
fn resolver_scans_symbol_tables_in_order() {
    let a = image(
        "a",
        0,
        vec![sym(1, 1, 2, 0x10), sym(5, 1, 2, 0x20)],
        b"\0zip\0zap\0".to_vec(),
        Vec::new(),
    );
    let ws = vec![a];
    assert_eq!(find_symbol_in(&ws, b"zap").unwrap().st_value, 0x20);
    assert!(find_symbol_in(&ws, b"zop").is_none());
}

#[test]
fn bootstrap_demands_a_dynamic_section() {
    let mut mem = Memory::new();
    let phdrs = vec![phdr(PT_LOAD, 0, 0)];
    let r = Linker::new(0x555000, 0, phdrs, None, &[], plain_config(), &mut mem);
    assert!(matches!(r, Err(LinkError::NoDynamicSection)));
}

#[test]
fn bootstrap_validates_the_declared_table_shape() {
    let mut mem = Memory::new();
    let phdrs = vec![phdr(PT_LOAD, 0, 0)];
    let dynamic = vec![
        Dyn { d_tag: DT_RELA, d_val: 0x100 },
        Dyn { d_tag: DT_RELASZ, d_val: 24 },
        Dyn { d_tag: DT_RELAENT, d_val: 24 },
    ];
    // one entry declared, none handed over
    let r = Linker::new(0x555000, 0, phdrs, Some(dynamic), &[], plain_config(), &mut mem);
    assert!(matches!(r, Err(LinkError::MalformedRelocationTable)));
}

#[test]
fn bootstrap_relocates_the_loader_itself() {
    let mut mem = Memory::new();
    let phdrs = vec![phdr(PT_LOAD, 0, 0), phdr(PT_DYNAMIC, 0x200, 0x200)];
    let dynamic = vec![
        Dyn { d_tag: DT_RELA, d_val: 0x100 },
        Dyn { d_tag: DT_RELASZ, d_val: 24 },
        Dyn { d_tag: DT_RELAENT, d_val: 24 },
    ];
    let table = [rela(0x8, 0, R_X86_64_RELATIVE, 0x40)];
    let linker =
        Linker::new(0x555000, 0, phdrs, Some(dynamic), &table, plain_config(), &mut mem).unwrap();
    assert_eq!(linker.base, 0x555000);
    assert_eq!(linker.load_bias, 0x555000);
    assert_eq!(linker.loaded_count(), 0);
    assert_eq!(mem.read_word(0x555008), Some(0x555040));
}

#[test]
fn bootstrap_rejects_symbol_kinds_in_its_own_table() {
    let mut mem = Memory::new();
    let phdrs = vec![phdr(PT_LOAD, 0, 0)];
    let dynamic = vec![
        Dyn { d_tag: DT_RELA, d_val: 0x100 },
        Dyn { d_tag: DT_RELASZ, d_val: 24 },
        Dyn { d_tag: DT_RELAENT, d_val: 24 },
    ];
    let table = [rela(0x8, 0, R_X86_64_GLOB_DAT, 0)];
    let r = Linker::new(0x555000, 0, phdrs, Some(dynamic), &table, plain_config(), &mut mem);
    assert!(matches!(r, Err(LinkError::NonRelativeEntry)));
    assert_eq!(mem.read_word(0x555008), None);
}

#[test]
fn loading_twice_keeps_one_entry() {
    let mut mem = Memory::new();
    let mut linker = fresh_linker(&mut mem);
    let available = vec![image("libx", 0x7000, Vec::new(), b"\0".to_vec(), Vec::new())];
    assert!(linker.load("libx", &available).is_ok());
    assert!(linker.load("libx", &available).is_ok());
    assert_eq!(linker.loaded_count(), 1);
}

#[test]
fn loading_a_missing_dependency_names_it() {
    let mut mem = Memory::new();
    let mut linker = fresh_linker(&mut mem);
    let available: Vec<SharedObject> = Vec::new();
    match linker.load("libx", &available) {
        Err(LinkError::LoadFailure(name)) => assert_eq!(name, "libx"),
        _ => panic!("expected a load failure"),
    }
    assert_eq!(linker.loaded_count(), 0);
}

#[test]
fn find_symbol_searches_the_working_set() {
    let mut mem = Memory::new();
    let mut linker = fresh_linker(&mut mem);
    let available = vec![image(
        "libx",
        0x7000,
        vec![sym(1, 1, 2, 0x500)],
        b"\0bar\0".to_vec(),
        Vec::new(),
    )];
    linker.load("libx", &available).unwrap();
    assert_eq!(linker.find_symbol("bar").unwrap().st_value, 0x500);
    assert!(linker.find_symbol("baz").is_none());
}

fn simple_executable() -> Executable {
    // one import "bar" (symbol 0), one GOT-entry relocation for it at 0x10,
    // one base-relative relocation with addend 0x20 at 0x18
    Executable {
        name: "main".to_string(),
        load_bias: 0x400000,
        needed: vec!["libx".to_string()],
        symtab: vec![sym(1, 1, 0, 0)],
        strtab: b"\0bar\0".to_vec(),
        relatab: vec![
            rela(0x10, 0, R_X86_64_GLOB_DAT, 0),
            rela(0x18, 0, R_X86_64_RELATIVE, 0x20),
        ],
    }
}

#[test]
fn full_pipeline_relocates_the_executable() {
    let mut mem = Memory::new();
    let mut linker = fresh_linker(&mut mem);
    let available = vec![image(
        "libx",
        0x7000,
        vec![sym(1, 1, 2, 0x500)],
        b"\0bar\0".to_vec(),
        Vec::new(),
    )];
    let r = linker.link_executable(simple_executable(), &available, &mut mem);
    assert!(r.is_ok());
    assert_eq!(linker.loaded_count(), 1);
    // the GOT entry holds the defining image's stored value, used as-is
    assert_eq!(mem.read_word(0x400010), Some(0x500));
    // the base-relative site holds bias + addend
    assert_eq!(mem.read_word(0x400018), Some(0x400020));
}

#[test]
fn missing_dependency_aborts_before_any_relocation() {
    let mut mem = Memory::new();
    let mut linker = fresh_linker(&mut mem);
    let available: Vec<SharedObject> = Vec::new();
    let r = linker.link_executable(simple_executable(), &available, &mut mem);
    match r {
        Err(LinkError::LoadFailure(name)) => assert_eq!(name, "libx"),
        _ => panic!("expected a load failure"),
    }
    // the relocate stages never ran
    assert_eq!(mem.read_word(0x400010), None);
    assert_eq!(mem.read_word(0x400018), None);
}

#[test]
fn unresolved_symbol_in_the_executable_aborts_the_link() {
    let mut mem = Memory::new();
    let mut linker = fresh_linker(&mut mem);
    // libx defines nothing useful
    let available = vec![image(
        "libx",
        0x7000,
        vec![sym(1, 1, 2, 0x500)],
        b"\0other\0".to_vec(),
        Vec::new(),
    )];
    let r = linker.link_executable(simple_executable(), &available, &mut mem);
    match r {
        Err(LinkError::UnresolvedSymbol(name)) => assert_eq!(name, b"bar".to_vec()),
        _ => panic!("expected an unresolved-symbol error"),
    }
}

#[test]
fn dependencies_are_relocated_against_the_whole_working_set() {
    // liby refers to "bar", which only libx defines: cross-image resolution
    let mut mem = Memory::new();
    let mut linker = fresh_linker(&mut mem);
    let libx = image("libx", 0x7000, vec![sym(1, 1, 2, 0x500)], b"\0bar\0".to_vec(), Vec::new());
    let liby = image(
        "liby",
        0x9000,
        vec![sym(1, 1, 0, 0)],
        b"\0bar\0".to_vec(),
        vec![rela(0x30, 0, R_X86_64_GLOB_DAT, 0)],
    );
    let available = vec![libx, liby];
    let exe = Executable {
        name: "main".to_string(),
        load_bias: 0x400000,
        needed: vec!["libx".to_string(), "liby".to_string()],
        symtab: Vec::new(),
        strtab: b"\0".to_vec(),
        relatab: Vec::new(),
    };
    let r = linker.link_executable(exe, &available, &mut mem);
    assert!(r.is_ok());
    assert_eq!(linker.loaded_count(), 2);
    assert_eq!(mem.read_word(0x9030), Some(0x500));
}

#[test]
fn error_labels_name_each_kind() {
    assert_eq!(LinkError::NoDynamicSection.label(), "no dynamic section");
    assert_eq!(LinkError::MalformedRelocationTable.label(), "malformed relocation table");
    assert_eq!(LinkError::NonRelativeEntry.label(), "non-relative entry in self-relocation");
    assert_eq!(LinkError::LoadFailure("x".to_string()).label(), "load failure");
    assert_eq!(LinkError::UnresolvedSymbol(b"x".to_vec()).label(), "unresolved symbol");
}
