//! The symbol-table record: its binary layout, the accessors that split the
//! packed binding/type byte, and the classification of imported symbols.

use vstd::prelude::*;

verus! {

/// One entry of a symbol table. `st_name` is an offset into the image's
/// string table; `st_info` packs the binding (high 4 bits) with the symbol
/// type (low 4 bits).
#[derive(Clone, Copy, PartialEq, Eq, Structural, Debug)]
pub struct Sym {
    pub st_name: u32,
    pub st_info: u8,
    pub st_other: u8,
    pub st_shndx: u16,
    pub st_value: u64,
    pub st_size: u64,
}

pub const SIZEOF_SYM: usize = 4 + 1 + 1 + 2 + 8 + 8;

/// The binding half of a packed `st_info` byte.
pub open spec fn spec_st_bind(info: u8) -> u8 {
    info >> 4u8
}

/// The type half of a packed `st_info` byte.
pub open spec fn spec_st_type(info: u8) -> u8 {
    info & 0xfu8
}

/// A symbol is imported (undefined here, to be resolved against another
/// image) exactly when its binding is global and its value is zero.
pub open spec fn spec_is_import(sym: Sym) -> bool {
    spec_st_bind(sym.st_info) == STB_GLOBAL && sym.st_value == 0
}

/// The binding half of a packed `st_info` byte.
pub fn st_bind(info: u8) -> (r: u8)
    ensures
        r == spec_st_bind(info),
{
    info >> 4u8
}

/// The type half of a packed `st_info` byte.
pub fn st_type(info: u8) -> (r: u8)
    ensures
        r == spec_st_type(info),
{
    info & 0xfu8
}

/// Classifies a symbol as imported: global binding and value zero. Any
/// other binding, or any non-zero value, is satisfied locally.
pub fn is_import(sym: &Sym) -> (r: bool)
    ensures
        r == spec_is_import(*sym),
{
    let binding = st_bind(sym.st_info);
    binding == STB_GLOBAL && sym.st_value == 0
}

// symbol bindings
pub const STB_LOCAL: u8 = 0;
pub const STB_GLOBAL: u8 = 1;
pub const STB_WEAK: u8 = 2;
pub const STB_NUM: u8 = 3;
pub const STB_LOOS: u8 = 10;
pub const STB_GNU_UNIQUE: u8 = 10;
pub const STB_HIOS: u8 = 12;
pub const STB_LOPROC: u8 = 13;
pub const STB_HIPROC: u8 = 15;

// symbol types
pub const STT_NOTYPE: u8 = 0;
pub const STT_OBJECT: u8 = 1;
pub const STT_FUNC: u8 = 2;
pub const STT_SECTION: u8 = 3;
pub const STT_FILE: u8 = 4;
pub const STT_COMMON: u8 = 5;
pub const STT_TLS: u8 = 6;
pub const STT_NUM: u8 = 7;
pub const STT_LOOS: u8 = 10;
pub const STT_GNU_IFUNC: u8 = 10;
pub const STT_HIOS: u8 = 12;
pub const STT_LOPROC: u8 = 13;
pub const STT_HIPROC: u8 = 15;

/// The display name of a symbol binding.
pub open spec fn spec_bind_str(typ: u8) -> Seq<char> {
    if typ == STB_LOCAL {
        "LOCAL"@
    } else if typ == STB_GLOBAL {
        "GLOBAL"@
    } else if typ == STB_WEAK {
        "WEAK"@
    } else if typ == STB_NUM {
        "NUM"@
    } else if typ == STB_GNU_UNIQUE {
        "GNU_UNIQUE"@
    } else {
        "UNKNOWN_STB"@
    }
}

/// The display name of a symbol binding.
pub fn bind_to_str(typ: u8) -> (r: &'static str)
    ensures
        r@ == spec_bind_str(typ),
{
    match typ {
        STB_LOCAL => "LOCAL",
        STB_GLOBAL => "GLOBAL",
        STB_WEAK => "WEAK",
        STB_NUM => "NUM",
        STB_GNU_UNIQUE => "GNU_UNIQUE",
        _ => "UNKNOWN_STB",
    }
}

/// The display name of a symbol type.
pub open spec fn spec_type_str(typ: u8) -> Seq<char> {
    if typ == STT_NOTYPE {
        "NOTYPE"@
    } else if typ == STT_OBJECT {
        "OBJECT"@
    } else if typ == STT_FUNC {
        "FUNC"@
    } else if typ == STT_SECTION {
        "SECTION"@
    } else if typ == STT_FILE {
        "FILE"@
    } else if typ == STT_COMMON {
        "COMMON"@
    } else if typ == STT_TLS {
        "TLS"@
    } else if typ == STT_NUM {
        "NUM"@
    } else if typ == STT_GNU_IFUNC {
        "GNU_IFUNC"@
    } else {
        "UNKNOWN_STT"@
    }
}

/// The display name of a symbol type.
pub fn type_to_str(typ: u8) -> (r: &'static str)
    ensures
        r@ == spec_type_str(typ),
{
    match typ {
        STT_NOTYPE => "NOTYPE",
        STT_OBJECT => "OBJECT",
        STT_FUNC => "FUNC",
        STT_SECTION => "SECTION",
        STT_FILE => "FILE",
        STT_COMMON => "COMMON",
        STT_TLS => "TLS",
        STT_NUM => "NUM",
        STT_GNU_IFUNC => "GNU_IFUNC",
        _ => "UNKNOWN_STT",
    }
}

} // verus!
