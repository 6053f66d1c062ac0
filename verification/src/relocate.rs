//! The relocation engine: given a load bias, a relocation table and the
//! owning image's symbol/string tables, it rewrites the 64-bit word at each
//! relocation site. Base-relative entries need no symbol; symbol-referencing
//! entries are resolved across the working set; every other kind is left as
//! a no-op. All address arithmetic is modular in 64 bits.

use vstd::prelude::*;
use vstd::pervasive::unreached;
use vstd::slice::slice_index_get;

use crate::LinkError;
use crate::image::{
    Dyn, ImageView, SharedObject, name_at, read_name, relocs_wf, resolve_in_set, tables_wf,
    ws_view, DT_RELA, DT_RELASZ, DT_RELAENT, DT_RELACOUNT,
};
use crate::memory::Memory;
use crate::rela::{Elf64_Rela, r_sym, r_type, R_X86_64_64, R_X86_64_GLOB_DAT, R_X86_64_RELATIVE};
use crate::sym::Sym;

verus! {

/// The relocation kind packed into an entry.
pub open spec fn entry_kind(r: Elf64_Rela) -> u64 {
    r.r_info & 0xffff_ffffu64
}

/// The symbol index packed into an entry.
pub open spec fn entry_sym_index(r: Elf64_Rela) -> u64 {
    r.r_info >> 32u64
}

/// Whether the entry's kind references a symbol.
pub open spec fn entry_needs_symbol(r: Elf64_Rela) -> bool {
    entry_kind(r) == R_X86_64_GLOB_DAT || entry_kind(r) == R_X86_64_64
}

/// The address of the entry's relocation site: its offset plus the load
/// bias, modulo 2^64.
pub open spec fn reloc_site(bias: u64, r: Elf64_Rela) -> u64 {
    r.r_offset.wrapping_add(bias)
}

/// The word a base-relative entry writes: the load bias plus the addend,
/// modulo 2^64.
pub open spec fn relative_word(bias: u64, r: Elf64_Rela) -> u64 {
    bias.wrapping_add_signed(r.r_addend)
}

/// The name the entry's symbol-table record points at, if it reaches a
/// NUL-terminated name.
pub open spec fn entry_symbol_name(symtab: Seq<Sym>, strtab: Seq<u8>, r: Elf64_Rela) -> Option<
    Seq<u8>,
> {
    name_at(strtab, symtab[entry_sym_index(r) as int].st_name as int)
}

/// The definition the entry's symbol resolves to across the working set.
pub open spec fn entry_resolution(
    ws: Seq<ImageView>,
    symtab: Seq<Sym>,
    strtab: Seq<u8>,
    r: Elf64_Rela,
) -> Option<Sym> {
    match entry_symbol_name(symtab, strtab, r) {
        Some(n) => resolve_in_set(ws, n),
        None => None,
    }
}

/// Whether the entry can be applied: a symbol-referencing kind must
/// resolve; every other kind always can.
pub open spec fn entry_ok(
    ws: Seq<ImageView>,
    symtab: Seq<Sym>,
    strtab: Seq<u8>,
    r: Elf64_Rela,
) -> bool {
    entry_needs_symbol(r) ==> entry_resolution(ws, symtab, strtab, r) is Some
}

/// The (site, word) pair the entry writes, or nothing for a no-op kind or
/// an unresolvable symbol. A base-relative entry writes bias plus addend; a
/// GOT-entry kind writes the resolved definition's value as stored (the
/// loader hands values over already in their runtime form); a direct 64-bit
/// kind writes the resolved value plus the addend.
pub open spec fn entry_write(
    ws: Seq<ImageView>,
    bias: u64,
    symtab: Seq<Sym>,
    strtab: Seq<u8>,
    r: Elf64_Rela,
) -> Option<(u64, u64)> {
    let kind = entry_kind(r);
    if kind == R_X86_64_RELATIVE {
        Some((reloc_site(bias, r), relative_word(bias, r)))
    } else if kind == R_X86_64_GLOB_DAT {
        match entry_resolution(ws, symtab, strtab, r) {
            Some(s) => Some((reloc_site(bias, r), s.st_value)),
            None => None,
        }
    } else if kind == R_X86_64_64 {
        match entry_resolution(ws, symtab, strtab, r) {
            Some(s) => Some((reloc_site(bias, r), s.st_value.wrapping_add_signed(r.r_addend))),
            None => None,
        }
    } else {
        None
    }
}

/// The memory after the first `n` entries of the table have been applied,
/// in table order, to `mem0`.
pub open spec fn apply_upto(
    ws: Seq<ImageView>,
    bias: u64,
    relas: Seq<Elf64_Rela>,
    symtab: Seq<Sym>,
    strtab: Seq<u8>,
    mem0: Map<u64, u64>,
    n: int,
) -> Map<u64, u64>
    decreases n,
{
    if n <= 0 {
        mem0
    } else {
        let m = apply_upto(ws, bias, relas, symtab, strtab, mem0, n - 1);
        match entry_write(ws, bias, symtab, strtab, relas[n - 1]) {
            Some(w) => m.insert(w.0, w.1),
            None => m,
        }
    }
}

/// The index of the first entry at or after `j` that cannot be applied, or
/// the table's length if every one can.
pub open spec fn first_bad_from(
    ws: Seq<ImageView>,
    symtab: Seq<Sym>,
    strtab: Seq<u8>,
    relas: Seq<Elf64_Rela>,
    j: int,
) -> int
    decreases relas.len() - j,
{
    if j < 0 || j >= relas.len() {
        relas.len() as int
    } else if !entry_ok(ws, symtab, strtab, relas[j]) {
        j
    } else {
        first_bad_from(ws, symtab, strtab, relas, j + 1)
    }
}

proof fn lemma_first_bad_all_ok(
    ws: Seq<ImageView>,
    symtab: Seq<Sym>,
    strtab: Seq<u8>,
    relas: Seq<Elf64_Rela>,
    j: int,
)
    requires
        0 <= j <= relas.len(),
        forall|t: int| j <= t < relas.len() ==> entry_ok(ws, symtab, strtab, #[trigger] relas[t]),
    ensures
        first_bad_from(ws, symtab, strtab, relas, j) == relas.len(),
    decreases relas.len() - j,
{
    if j < relas.len() {
        lemma_first_bad_all_ok(ws, symtab, strtab, relas, j + 1);
    }
}

proof fn lemma_first_bad_at(
    ws: Seq<ImageView>,
    symtab: Seq<Sym>,
    strtab: Seq<u8>,
    relas: Seq<Elf64_Rela>,
    j: int,
    k: int,
)
    requires
        0 <= j <= k < relas.len(),
        forall|t: int| j <= t < k ==> entry_ok(ws, symtab, strtab, #[trigger] relas[t]),
        !entry_ok(ws, symtab, strtab, relas[k]),
    ensures
        first_bad_from(ws, symtab, strtab, relas, j) == k,
    decreases k - j,
{
    if j < k {
        lemma_first_bad_at(ws, symtab, strtab, relas, j + 1, k);
    }
}

/// Applies a relocation table to memory, in table order, resolving
/// symbol-referencing entries across the working set. Stops at the first
/// entry whose symbol has no definition anywhere in the working set and
/// reports that symbol's name; what was already written stays written.
pub fn relocate(
    ws: &Vec<SharedObject>,
    bias: u64,
    relatab: &[Elf64_Rela],
    symtab: &[Sym],
    strtab: &[u8],
    mem: &mut Memory,
) -> (r: Result<(), LinkError>)
    requires
        old(mem).wf(),
        tables_wf(symtab@, strtab@),
        relocs_wf(relatab@, symtab@),
    ensures
        final(mem).wf(),
        ({
            let bad = first_bad_from(ws_view(ws@), symtab@, strtab@, relatab@, 0);
            match r {
                Ok(()) => {
                    &&& bad == relatab@.len()
                    &&& final(mem)@ == apply_upto(
                        ws_view(ws@),
                        bias,
                        relatab@,
                        symtab@,
                        strtab@,
                        old(mem)@,
                        relatab@.len() as int,
                    )
                },
                Err(e) => {
                    &&& bad < relatab@.len()
                    &&& final(mem)@ == apply_upto(
                        ws_view(ws@),
                        bias,
                        relatab@,
                        symtab@,
                        strtab@,
                        old(mem)@,
                        bad,
                    )
                    &&& e matches LinkError::UnresolvedSymbol(n) && Some(n@) == entry_symbol_name(
                        symtab@,
                        strtab@,
                        relatab@[bad],
                    )
                },
            }
        }),
{
    let n = relatab.len();
    let mut i: usize = 0;
    while i < n
        invariant
            n == relatab@.len(),
            0 <= i <= n,
            mem.wf(),
            tables_wf(symtab@, strtab@),
            relocs_wf(relatab@, symtab@),
            forall|t: int|
                0 <= t < i ==> entry_ok(ws_view(ws@), symtab@, strtab@, #[trigger] relatab@[t]),
            mem@ == apply_upto(ws_view(ws@), bias, relatab@, symtab@, strtab@, old(mem)@, i as int),
        decreases n - i,
    {
        let entry = *slice_index_get(relatab, i);
        let kind = r_type(entry.r_info);
        let site = entry.r_offset.wrapping_add(bias);
        if kind == R_X86_64_RELATIVE {
            mem.write_word(site, bias.wrapping_add_signed(entry.r_addend));
            assert(mem@ == apply_upto(
                ws_view(ws@),
                bias,
                relatab@,
                symtab@,
                strtab@,
                old(mem)@,
                i + 1,
            ));
        } else if kind == R_X86_64_GLOB_DAT || kind == R_X86_64_64 {
            let sidx = r_sym(entry.r_info);
            let stlen = symtab.len();
            assert(entry_needs_symbol(relatab@[i as int]));
            assert(sidx == entry_sym_index(relatab@[i as int]));
            assert(sidx < stlen);
            let symbol = *slice_index_get(symtab, sidx as usize);
            assert(symbol == symtab@[sidx as int]);
            let name = match read_name(strtab, symbol.st_name as usize) {
                Some(v) => v,
                None => {
                    assert(name_at(strtab@, symbol.st_name as int) is Some);
                    unreached()
                },
            };
            assert(entry_symbol_name(symtab@, strtab@, entry) == Some(name@));
            match crate::image::find_symbol_in(ws, name.as_slice()) {
                Some(definition) => {
                    let word = if kind == R_X86_64_GLOB_DAT {
                        definition.st_value
                    } else {
                        definition.st_value.wrapping_add_signed(entry.r_addend)
                    };
                    mem.write_word(site, word);
                    assert(mem@ == apply_upto(
                        ws_view(ws@),
                        bias,
                        relatab@,
                        symtab@,
                        strtab@,
                        old(mem)@,
                        i + 1,
                    ));
                },
                None => {
                    proof {
                        assert(!entry_ok(ws_view(ws@), symtab@, strtab@, relatab@[i as int]));
                        lemma_first_bad_at(ws_view(ws@), symtab@, strtab@, relatab@, 0, i as int);
                    }
                    return Err(LinkError::UnresolvedSymbol(name));
                },
            }
        } else {
            assert(mem@ == apply_upto(
                ws_view(ws@),
                bias,
                relatab@,
                symtab@,
                strtab@,
                old(mem)@,
                i + 1,
            ));
        }
        i = i + 1;
    }
    proof {
        lemma_first_bad_all_ok(ws_view(ws@), symtab@, strtab@, relatab@, 0);
    }
    Ok(())
}

/// The memory after the first `n` entries of a base-relative-only table
/// have been applied to `mem0`.
pub open spec fn apply_relative_upto(
    bias: u64,
    relas: Seq<Elf64_Rela>,
    mem0: Map<u64, u64>,
    n: int,
) -> Map<u64, u64>
    decreases n,
{
    if n <= 0 {
        mem0
    } else {
        apply_relative_upto(bias, relas, mem0, n - 1).insert(
            reloc_site(bias, relas[n - 1]),
            relative_word(bias, relas[n - 1]),
        )
    }
}

/// Self-relocation: applies the loader's own relocation table, which may
/// hold only base-relative entries — symbol-referencing kinds would need
/// lookup structures that are not safe to build yet. A table with any
/// other entry is rejected whole, before anything is written.
pub fn relocate_self(bias: u64, relatab: &[Elf64_Rela], mem: &mut Memory) -> (r: Result<
    (),
    LinkError,
>)
    requires
        old(mem).wf(),
    ensures
        final(mem).wf(),
        r is Ok <==> (forall|j: int|
            0 <= j < relatab@.len() ==> entry_kind(#[trigger] relatab@[j]) == R_X86_64_RELATIVE),
        r is Ok ==> final(mem)@ == apply_relative_upto(
            bias,
            relatab@,
            old(mem)@,
            relatab@.len() as int,
        ),
        r is Err ==> final(mem)@ == old(mem)@ && r == Err::<(), LinkError>(
            LinkError::NonRelativeEntry,
        ),
{
    let n = relatab.len();
    let mut i: usize = 0;
    while i < n
        invariant
            n == relatab@.len(),
            0 <= i <= n,
            mem.wf(),
            mem@ == old(mem)@,
            forall|j: int| 0 <= j < i ==> entry_kind(#[trigger] relatab@[j]) == R_X86_64_RELATIVE,
        decreases n - i,
    {
        if r_type(slice_index_get(relatab, i).r_info) != R_X86_64_RELATIVE {
            return Err(LinkError::NonRelativeEntry);
        }
        i = i + 1;
    }
    let mut i: usize = 0;
    while i < n
        invariant
            n == relatab@.len(),
            0 <= i <= n,
            mem.wf(),
            mem@ == apply_relative_upto(bias, relatab@, old(mem)@, i as int),
        decreases n - i,
    {
        let entry = *slice_index_get(relatab, i);
        mem.write_word(entry.r_offset.wrapping_add(bias), bias.wrapping_add_signed(entry.r_addend));
        assert(mem@ == apply_relative_upto(bias, relatab@, old(mem)@, i + 1));
        i = i + 1;
    }
    Ok(())
}

/// After a base-relative-only table has been applied whole — as a
/// successful self-relocation applies it — every entry's site holds a
/// word: no entry is left unapplied.
pub proof fn lemma_relative_coverage(bias: u64, relas: Seq<Elf64_Rela>, mem0: Map<u64, u64>, n: int)
    requires
        0 <= n <= relas.len(),
    ensures
        forall|i: int|
            0 <= i < n ==> apply_relative_upto(bias, relas, mem0, n).contains_key(
                #[trigger] reloc_site(bias, relas[i]),
            ),
    decreases n,
{
    if n > 0 {
        lemma_relative_coverage(bias, relas, mem0, n - 1);
    }
}

/// Where the relocation table lies and how many entries it has, as the
/// dynamic section declares it.
#[derive(Clone, Copy, PartialEq, Eq, Structural, Debug)]
pub struct RelaLocation {
    /// Runtime address of the table: its declared address plus the bias.
    pub addr: u64,
    /// Number of entries: declared table size over declared entry size.
    pub count: u64,
    /// Declared count of leading base-relative entries.
    pub relative_count: u64,
}

/// The value of the last dynamic-section entry with the given tag, or zero
/// if the tag never occurs.
pub open spec fn last_dyn_val(dynamic: Seq<Dyn>, tag: u64) -> u64
    decreases dynamic.len(),
{
    if dynamic.len() == 0 {
        0
    } else if dynamic.last().d_tag == tag {
        dynamic.last().d_val
    } else {
        last_dyn_val(dynamic.drop_last(), tag)
    }
}

/// Reads the relocation table's place out of the dynamic section. The
/// entry count is the declared size over the declared entry size; a size
/// that the entry size does not divide — or a zero entry size — is a
/// malformed table, reported rather than truncated.
pub fn get_relocations(bias: u64, dynamic: &[Dyn]) -> (r: Result<RelaLocation, LinkError>)
    ensures
        ({
            let rela = last_dyn_val(dynamic@, DT_RELA);
            let relasz = last_dyn_val(dynamic@, DT_RELASZ);
            let relaent = last_dyn_val(dynamic@, DT_RELAENT);
            let relacount = last_dyn_val(dynamic@, DT_RELACOUNT);
            match r {
                Ok(loc) => {
                    &&& relaent != 0
                    &&& relasz % relaent == 0
                    &&& loc.addr == rela.wrapping_add(bias)
                    &&& loc.count == relasz / relaent
                    &&& loc.relative_count == relacount
                },
                Err(e) => {
                    &&& relaent == 0 || relasz % relaent != 0
                    &&& e == LinkError::MalformedRelocationTable
                },
            }
        }),
{
    let n = dynamic.len();
    let mut rela: u64 = 0;
    let mut relasz: u64 = 0;
    let mut relaent: u64 = 0;
    let mut relacount: u64 = 0;
    let mut i: usize = 0;
    while i < n
        invariant
            n == dynamic@.len(),
            0 <= i <= n,
            rela == last_dyn_val(dynamic@.subrange(0, i as int), DT_RELA),
            relasz == last_dyn_val(dynamic@.subrange(0, i as int), DT_RELASZ),
            relaent == last_dyn_val(dynamic@.subrange(0, i as int), DT_RELAENT),
            relacount == last_dyn_val(dynamic@.subrange(0, i as int), DT_RELACOUNT),
        decreases n - i,
    {
        let d = *slice_index_get(dynamic, i);
        proof {
            assert(dynamic@.subrange(0, i + 1).drop_last() =~= dynamic@.subrange(0, i as int));
            assert(dynamic@.subrange(0, i + 1).last() == dynamic@[i as int]);
        }
        if d.d_tag == DT_RELA {
            rela = d.d_val;
        } else if d.d_tag == DT_RELASZ {
            relasz = d.d_val;
        } else if d.d_tag == DT_RELAENT {
            relaent = d.d_val;
        } else if d.d_tag == DT_RELACOUNT {
            relacount = d.d_val;
        }
        i = i + 1;
    }
    proof {
        assert(dynamic@.subrange(0, n as int) =~= dynamic@);
    }
    if relaent == 0 {
        return Err(LinkError::MalformedRelocationTable);
    }
    if relasz % relaent != 0 {
        return Err(LinkError::MalformedRelocationTable);
    }
    Ok(RelaLocation { addr: rela.wrapping_add(bias), count: relasz / relaent, relative_count: relacount })
}

/// Applying a single base-relative entry sets the word at the entry's
/// offset plus the bias to exactly the addend plus the bias (modulo 2^64),
/// whatever the symbol table, string table and working set hold.
pub proof fn lemma_relative_entry_effect(
    ws: Seq<ImageView>,
    bias: u64,
    e: Elf64_Rela,
    symtab: Seq<Sym>,
    strtab: Seq<u8>,
    mem0: Map<u64, u64>,
)
    requires
        entry_kind(e) == R_X86_64_RELATIVE,
    ensures
        apply_upto(ws, bias, seq![e], symtab, strtab, mem0, 1) == mem0.insert(
            e.r_offset.wrapping_add(bias),
            bias.wrapping_add_signed(e.r_addend),
        ),
        first_bad_from(ws, symtab, strtab, seq![e], 0) == 1,
{
    let t = seq![e];
    assert(t[0] == e);
    assert(apply_upto(ws, bias, t, symtab, strtab, mem0, 0) == mem0);
    assert(entry_write(ws, bias, symtab, strtab, e) == Some(
        (reloc_site(bias, e), relative_word(bias, e)),
    ));
    assert(entry_ok(ws, symtab, strtab, e));
    assert(first_bad_from(ws, symtab, strtab, t, 1) == 1);
}

} // verus!
