//! The relocation record: its binary layout, the packed `r_info` field's
//! accessors, and the relocation-kind constants.

use vstd::prelude::*;

verus! {

/// One entry of a relocation table with explicit addends. `r_offset` is the
/// bias-relative address of the relocation site; `r_info` packs the symbol
/// index (high 32 bits) with the relocation kind (low 32 bits).
#[allow(non_camel_case_types)]
#[derive(Clone, Copy, PartialEq, Eq, Structural, Debug)]
pub struct Elf64_Rela {
    pub r_offset: u64,
    pub r_info: u64,
    pub r_addend: i64,
}

/// The symbol index packed into an `r_info` value.
pub fn r_sym(info: u64) -> (r: u64)
    ensures
        r == info >> 32u64,
{
    info >> 32u64
}

/// The relocation kind packed into an `r_info` value.
pub fn r_type(info: u64) -> (r: u64)
    ensures
        r == info & 0xffff_ffffu64,
{
    info & 0xffff_ffffu64
}

/// Packs a symbol index and a relocation kind into one `r_info` value.
/// Inverts `r_sym` and `r_type` whenever both inputs fit in 32 bits.
pub fn r_info(sym: u64, typ: u64) -> (r: u64)
    requires
        sym < 0x1_0000_0000,
        typ < 0x1_0000_0000,
    ensures
        r == (sym << 32u64) + typ,
        r >> 32u64 == sym,
        r & 0xffff_ffffu64 == typ,
{
    proof {
        lemma_info_round_trip(sym, typ);
    }
    let hi: u64 = sym << 32u64;
    hi + typ
}

/// Splitting a packed `r_info` value recovers exactly the symbol index and
/// the relocation kind that were packed, for every pair within 32-bit range.
pub proof fn lemma_info_round_trip(sym: u64, typ: u64)
    requires
        sym < 0x1_0000_0000,
        typ < 0x1_0000_0000,
    ensures
        (sym << 32u64) + typ <= u64::MAX,
        (((sym << 32u64) + typ) as u64) >> 32u64 == sym,
        (((sym << 32u64) + typ) as u64) & 0xffff_ffffu64 == typ,
{
    assert((sym << 32u64) + typ <= u64::MAX && (((sym << 32u64) + typ) as u64) >> 32u64 == sym
        && (((sym << 32u64) + typ) as u64) & 0xffff_ffffu64 == typ) by (bit_vector)
        requires
            sym < 0x1_0000_0000u64,
            typ < 0x1_0000_0000u64,
    ;
}

pub const R_X86_64_NONE: u64 = 0;
pub const R_X86_64_64: u64 = 1;
pub const R_X86_64_PC32: u64 = 2;
pub const R_X86_64_GOT32: u64 = 3;
pub const R_X86_64_PLT32: u64 = 4;
pub const R_X86_64_COPY: u64 = 5;
pub const R_X86_64_GLOB_DAT: u64 = 6;
pub const R_X86_64_JUMP_SLOT: u64 = 7;
pub const R_X86_64_RELATIVE: u64 = 8;
pub const R_X86_64_GOTPCREL: u64 = 9;
pub const R_X86_64_32: u64 = 10;
pub const R_X86_64_32S: u64 = 11;
pub const R_X86_64_16: u64 = 12;
pub const R_X86_64_PC16: u64 = 13;
pub const R_X86_64_8: u64 = 14;
pub const R_X86_64_PC8: u64 = 15;
pub const R_X86_64_DTPMOD64: u64 = 16;
pub const R_X86_64_DTPOFF64: u64 = 17;
pub const R_X86_64_TPOFF64: u64 = 18;
pub const R_X86_64_TLSGD: u64 = 19;
pub const R_X86_64_TLSLD: u64 = 20;
pub const R_X86_64_DTPOFF32: u64 = 21;
pub const R_X86_64_GOTTPOFF: u64 = 22;
pub const R_X86_64_TPOFF32: u64 = 23;
pub const R_X86_64_PC64: u64 = 24;
pub const R_X86_64_GOTOFF64: u64 = 25;
pub const R_X86_64_GOTPC32: u64 = 26;
pub const R_X86_64_GOT64: u64 = 27;
pub const R_X86_64_GOTPCREL64: u64 = 28;
pub const R_X86_64_GOTPC64: u64 = 29;
pub const R_X86_64_GOTPLT64: u64 = 30;
pub const R_X86_64_PLTOFF64: u64 = 31;
pub const R_X86_64_SIZE32: u64 = 32;
pub const R_X86_64_SIZE64: u64 = 33;
pub const R_X86_64_GOTPC32_TLSDESC: u64 = 34;
pub const R_X86_64_TLSDESC_CALL: u64 = 35;
pub const R_X86_64_TLSDESC: u64 = 36;
pub const R_X86_64_IRELATIVE: u64 = 37;
pub const R_X86_64_RELATIVE64: u64 = 38;
pub const R_X86_64_NUM: u64 = 39;

} // verus!
