//! The records a loaded image is made of — program headers, dynamic-section
//! entries, symbol/string/relocation tables — together with the spec-level
//! reading of NUL-terminated names out of a string table and symbol
//! resolution across a working set of images.

use vstd::prelude::*;
use vstd::slice::slice_index_get;

use crate::rela::Elf64_Rela;
use crate::sym::Sym;

verus! {

/// One program header, as the external parser hands it over.
#[derive(Clone, Copy, PartialEq, Eq, Structural, Debug)]
pub struct ProgramHeader {
    pub p_type: u32,
    pub p_flags: u32,
    pub p_offset: u64,
    pub p_vaddr: u64,
    pub p_paddr: u64,
    pub p_filesz: u64,
    pub p_memsz: u64,
    pub p_align: u64,
}

pub const PT_NULL: u32 = 0;
pub const PT_LOAD: u32 = 1;
pub const PT_DYNAMIC: u32 = 2;
pub const PT_INTERP: u32 = 3;
pub const PT_NOTE: u32 = 4;
pub const PT_SHLIB: u32 = 5;
pub const PT_PHDR: u32 = 6;
pub const PT_TLS: u32 = 7;

/// One entry of the dynamic section.
#[derive(Clone, Copy, PartialEq, Eq, Structural, Debug)]
pub struct Dyn {
    pub d_tag: u64,
    pub d_val: u64,
}

pub const DT_NULL: u64 = 0;
pub const DT_NEEDED: u64 = 1;
pub const DT_RELA: u64 = 7;
pub const DT_RELASZ: u64 = 8;
pub const DT_RELAENT: u64 = 9;
pub const DT_RELACOUNT: u64 = 0x6fff_fff9;

/// A dependency image after the external loader has mapped it: its tables
/// are in memory and handed over as typed slices. Read-only to the
/// relocation engine and the symbol resolver.
pub struct SharedObject {
    pub name: String,
    pub load_bias: u64,
    pub symtab: Vec<Sym>,
    pub strtab: Vec<u8>,
    pub relatab: Vec<Elf64_Rela>,
}

/// The mathematical content of a loaded image.
pub ghost struct ImageView {
    pub name: Seq<char>,
    pub load_bias: u64,
    pub symtab: Seq<Sym>,
    pub strtab: Seq<u8>,
    pub relatab: Seq<Elf64_Rela>,
}

impl View for SharedObject {
    type V = ImageView;

    open spec fn view(&self) -> ImageView {
        ImageView {
            name: self.name@,
            load_bias: self.load_bias,
            symtab: self.symtab@,
            strtab: self.strtab@,
            relatab: self.relatab@,
        }
    }
}

/// The content of a sequence of loaded images, image by image.
pub open spec fn ws_view(ws: Seq<SharedObject>) -> Seq<ImageView> {
    Seq::new(ws.len(), |i: int| ws[i]@)
}

impl Clone for SharedObject {
    /// A clone carries the same content.
    fn clone(&self) -> (r: Self)
        ensures
            r@ == self@,
    {
        SharedObject {
            name: clone_string(&self.name),
            load_bias: self.load_bias,
            symtab: copy_elems(&self.symtab),
            strtab: copy_elems(&self.strtab),
            relatab: copy_elems(&self.relatab),
        }
    }
}

/// A fresh string with the same characters.
fn clone_string(s: &String) -> (r: String)
    ensures
        r@ == s@,
{
    s.clone()
}

/// A fresh vector with the same elements.
fn copy_elems<T: Copy>(v: &Vec<T>) -> (r: Vec<T>)
    ensures
        r@ == v@,
{
    let mut r: Vec<T> = Vec::new();
    let n = v.len();
    let mut i: usize = 0;
    while i < n
        invariant
            n == v@.len(),
            0 <= i <= n,
            r@ == v@.subrange(0, i as int),
        decreases n - i,
    {
        r.push(v[i]);
        assert(r@ =~= v@.subrange(0, i + 1));
        i = i + 1;
    }
    assert(r@ =~= v@);
    r
}

/// The main executable as the external loader hands it over: like a
/// dependency image, plus its declared-dependency names in order.
pub struct Executable {
    pub name: String,
    pub load_bias: u64,
    pub needed: Vec<String>,
    pub symtab: Vec<Sym>,
    pub strtab: Vec<u8>,
    pub relatab: Vec<Elf64_Rela>,
}

impl Executable {
    /// The executable's own tables, seen as an image (its dependency names
    /// stand apart).
    pub open spec fn image_view(&self) -> ImageView {
        ImageView {
            name: self.name@,
            load_bias: self.load_bias,
            symtab: self.symtab@,
            strtab: self.strtab@,
            relatab: self.relatab@,
        }
    }

    /// The declared-dependency names, in declaration order.
    pub open spec fn needed_view(&self) -> Seq<Seq<char>> {
        Seq::new(self.needed@.len(), |i: int| self.needed@[i]@)
    }
}

/// The position of the first NUL byte at or after `off`, if any.
pub open spec fn first_nul_from(strtab: Seq<u8>, off: int) -> Option<int>
    decreases strtab.len() - off,
{
    if off < 0 || off >= strtab.len() {
        None
    } else if strtab[off] == 0 {
        Some(off)
    } else {
        first_nul_from(strtab, off + 1)
    }
}

/// The NUL-terminated name starting at offset `off` of a string table:
/// the bytes from `off` up to the first NUL, or nothing if no NUL follows.
pub open spec fn name_at(strtab: Seq<u8>, off: int) -> Option<Seq<u8>> {
    match first_nul_from(strtab, off) {
        Some(end) => Some(strtab.subrange(off, end)),
        None => None,
    }
}

/// Whether symbol `k` of image `so` carries exactly the name `name`.
pub open spec fn sym_matches(so: ImageView, k: int, name: Seq<u8>) -> bool {
    name_at(so.strtab, so.symtab[k].st_name as int) == Some(name)
}

/// The first symbol of `so` at index `k` or later whose name is `name`.
pub open spec fn find_in_image(so: ImageView, name: Seq<u8>, k: int) -> Option<Sym>
    decreases so.symtab.len() - k,
{
    if k < 0 || k >= so.symtab.len() {
        None
    } else if sym_matches(so, k, name) {
        Some(so.symtab[k])
    } else {
        find_in_image(so, name, k + 1)
    }
}

/// The definition of `name` across the working set, scanning images from
/// index `j` on, in order, and each image's symbol table in order. The
/// order is fixed, so resolution is deterministic.
pub open spec fn resolve_from(ws: Seq<ImageView>, name: Seq<u8>, j: int) -> Option<Sym>
    decreases ws.len() - j,
{
    if j < 0 || j >= ws.len() {
        None
    } else {
        match find_in_image(ws[j], name, 0) {
            Some(s) => Some(s),
            None => resolve_from(ws, name, j + 1),
        }
    }
}

/// The definition of `name` across the working set: the first match, in
/// working-set order, then symbol-table order.
pub open spec fn resolve_in_set(ws: Seq<ImageView>, name: Seq<u8>) -> Option<Sym> {
    resolve_from(ws, name, 0)
}

proof fn lemma_resolve_from_skip(ws: Seq<ImageView>, name: Seq<u8>, s: int, j: int)
    requires
        0 <= s <= j < ws.len(),
        find_in_image(ws[j], name, 0) is Some,
        forall|t: int| s <= t < j ==> find_in_image(#[trigger] ws[t], name, 0) is None,
    ensures
        resolve_from(ws, name, s) == find_in_image(ws[j], name, 0),
    decreases j - s,
{
    if s < j {
        lemma_resolve_from_skip(ws, name, s + 1, j);
    }
}

/// Resolution is a function of the working set in its fixed order, so it is
/// deterministic; in particular, when several images define the same name,
/// the earliest image's definition wins, whatever the later ones hold.
pub proof fn lemma_resolution_order(ws: Seq<ImageView>, name: Seq<u8>, j: int)
    requires
        0 <= j < ws.len(),
        find_in_image(ws[j], name, 0) is Some,
        forall|t: int| 0 <= t < j ==> find_in_image(#[trigger] ws[t], name, 0) is None,
    ensures
        resolve_in_set(ws, name) == find_in_image(ws[j], name, 0),
{
    lemma_resolve_from_skip(ws, name, 0, j);
}

/// Well-formedness of symbol and string tables, as the external loader
/// guarantees it: every symbol's name offset reaches a NUL-terminated name
/// inside the string table.
pub open spec fn tables_wf(symtab: Seq<Sym>, strtab: Seq<u8>) -> bool {
    forall|k: int|
        0 <= k < symtab.len() ==> (#[trigger] name_at(strtab, symtab[k].st_name as int)) is Some
}

/// Well-formedness of a relocation table against its symbol table: entries
/// of a symbol-referencing kind keep their symbol index inside the table.
pub open spec fn relocs_wf(relatab: Seq<Elf64_Rela>, symtab: Seq<Sym>) -> bool {
    forall|j: int|
        0 <= j < relatab.len() && crate::relocate::entry_needs_symbol(#[trigger] relatab[j])
            ==> crate::relocate::entry_sym_index(relatab[j]) < symtab.len()
}

impl ImageView {
    /// The loader's guarantee on a mapped image: symbol names resolve in
    /// the image's own string table, relocation entries point inside its
    /// symbol table.
    pub open spec fn wf(&self) -> bool {
        tables_wf(self.symtab, self.strtab) && relocs_wf(self.relatab, self.symtab)
    }
}

/// Decides whether tables are well-formed: every symbol name reaches a NUL,
/// every symbol-referencing relocation entry points inside the symbol
/// table. The trust boundary's check: a caller that got its tables from an
/// unverified reader tests them here before linking on them.
pub fn check_tables(symtab: &[Sym], strtab: &[u8], relatab: &[Elf64_Rela]) -> (r: bool)
    ensures
        r == (tables_wf(symtab@, strtab@) && relocs_wf(relatab@, symtab@)),
{
    let n = symtab.len();
    let mut k: usize = 0;
    while k < n
        invariant
            n == symtab@.len(),
            0 <= k <= n,
            forall|t: int|
                0 <= t < k ==> (#[trigger] name_at(strtab@, symtab@[t].st_name as int)) is Some,
        decreases n - k,
    {
        let off = slice_index_get(symtab, k).st_name as usize;
        match find_nul(strtab, off) {
            Some(_) => {},
            None => {
                assert(name_at(strtab@, symtab@[k as int].st_name as int) is None);
                assert(!tables_wf(symtab@, strtab@));
                return false;
            },
        }
        k = k + 1;
    }
    assert(tables_wf(symtab@, strtab@));
    let m = relatab.len();
    let mut j: usize = 0;
    while j < m
        invariant
            n == symtab@.len(),
            m == relatab@.len(),
            0 <= j <= m,
            tables_wf(symtab@, strtab@),
            forall|t: int|
                0 <= t < j && crate::relocate::entry_needs_symbol(#[trigger] relatab@[t])
                    ==> crate::relocate::entry_sym_index(relatab@[t]) < symtab@.len(),
        decreases m - j,
    {
        let e = *slice_index_get(relatab, j);
        let kind = crate::rela::r_type(e.r_info);
        if kind == crate::rela::R_X86_64_GLOB_DAT || kind == crate::rela::R_X86_64_64 {
            if crate::rela::r_sym(e.r_info) >= n as u64 {
                assert(crate::relocate::entry_needs_symbol(relatab@[j as int])
                    && crate::relocate::entry_sym_index(relatab@[j as int]) >= symtab@.len());
                assert(!relocs_wf(relatab@, symtab@));
                return false;
            }
        }
        j = j + 1;
    }
    assert(relocs_wf(relatab@, symtab@));
    true
}

/// Decides whether a mapped image is well-formed, per its content's `wf`.
pub fn check_image(so: &SharedObject) -> (r: bool)
    ensures
        r == so@.wf(),
{
    check_tables(so.symtab.as_slice(), so.strtab.as_slice(), so.relatab.as_slice())
}

/// Finds the first NUL byte at or after `off` in a string table.
pub fn find_nul(strtab: &[u8], off: usize) -> (r: Option<usize>)
    ensures
        match r {
            Some(j) => {
                &&& first_nul_from(strtab@, off as int) == Some(j as int)
                &&& off <= j < strtab@.len()
                &&& strtab@[j as int] == 0
            },
            None => first_nul_from(strtab@, off as int) is None,
        },
{
    let mut j: usize = off;
    while j < strtab.len()
        invariant
            off <= j,
            first_nul_from(strtab@, off as int) == first_nul_from(strtab@, j as int),
        decreases strtab@.len() - j,
    {
        if *slice_index_get(strtab, j) == 0 {
            return Some(j);
        }
        j = j + 1;
    }
    None
}

/// Reads the NUL-terminated name at offset `off` of a string table, or
/// nothing if no NUL byte follows `off`.
pub fn read_name(strtab: &[u8], off: usize) -> (r: Option<Vec<u8>>)
    ensures
        match r {
            Some(v) => name_at(strtab@, off as int) == Some(v@),
            None => name_at(strtab@, off as int) is None,
        },
{
    let j = match find_nul(strtab, off) {
        Some(j) => j,
        None => {
            return None;
        },
    };
    let mut v: Vec<u8> = Vec::new();
    let mut i: usize = off;
    while i < j
        invariant
            off <= i <= j < strtab@.len(),
            v@ == strtab@.subrange(off as int, i as int),
        decreases j - i,
    {
        v.push(*slice_index_get(strtab, i));
        assert(v@ =~= strtab@.subrange(off as int, i + 1));
        i = i + 1;
    }
    assert(v@ =~= strtab@.subrange(off as int, j as int));
    Some(v)
}

/// Whether the NUL-terminated name at offset `off` of a string table is
/// exactly `name`.
pub fn name_matches(strtab: &[u8], off: usize, name: &[u8]) -> (r: bool)
    ensures
        r == (name_at(strtab@, off as int) == Some(name@)),
{
    let j = match find_nul(strtab, off) {
        Some(j) => j,
        None => {
            return false;
        },
    };
    // the stored name is strtab[off..j]
    if j - off != name.len() {
        assert(name_at(strtab@, off as int) matches Some(n) && n.len() == j - off);
        return false;
    }
    let mut i: usize = 0;
    while i < name.len()
        invariant
            0 <= i <= name@.len(),
            off + name@.len() == j < strtab@.len(),
            first_nul_from(strtab@, off as int) == Some(j as int),
            forall|t: int| 0 <= t < i ==> strtab@[off + t] == name@[t],
        decreases name@.len() - i,
    {
        if *slice_index_get(strtab, off + i) != *slice_index_get(name, i) {
            assert(strtab@.subrange(off as int, j as int)[i as int] != name@[i as int]);
            return false;
        }
        i = i + 1;
    }
    assert(strtab@.subrange(off as int, j as int) =~= name@);
    true
}

/// Resolves `name` across the working set: the first matching symbol in
/// working-set order, then symbol-table order — a fixed order, so the
/// result is deterministic.
pub fn find_symbol_in(ws: &Vec<SharedObject>, name: &[u8]) -> (r: Option<Sym>)
    ensures
        r == resolve_in_set(ws_view(ws@), name@),
{
    let m = ws.len();
    let mut j: usize = 0;
    while j < m
        invariant
            m == ws@.len(),
            0 <= j <= m,
            resolve_in_set(ws_view(ws@), name@) == resolve_from(ws_view(ws@), name@, j as int),
        decreases m - j,
    {
        let so = &ws[j];
        let cnt = so.symtab.len();
        let mut k: usize = 0;
        while k < cnt
            invariant
                m == ws@.len(),
                0 <= j < m,
                cnt == so.symtab@.len(),
                0 <= k <= cnt,
                *so == ws@[j as int],
                resolve_in_set(ws_view(ws@), name@) == resolve_from(
                    ws_view(ws@),
                    name@,
                    j as int,
                ),
                find_in_image(ws_view(ws@)[j as int], name@, 0) == find_in_image(
                    ws_view(ws@)[j as int],
                    name@,
                    k as int,
                ),
            decreases cnt - k,
        {
            let sym = so.symtab[k];
            assert(ws_view(ws@)[j as int] == ws@[j as int]@);
            if name_matches(so.strtab.as_slice(), sym.st_name as usize, name) {
                assert(sym_matches(ws_view(ws@)[j as int], k as int, name@));
                assert(find_in_image(ws_view(ws@)[j as int], name@, k as int) == Some(sym));
                assert(resolve_from(ws_view(ws@), name@, j as int) == Some(sym));
                return Some(sym);
            }
            k = k + 1;
        }
        assert(find_in_image(ws_view(ws@)[j as int], name@, cnt as int) is None);
        j = j + 1;
    }
    assert(resolve_from(ws_view(ws@), name@, m as int) is None);
    None
}

} // verus!
