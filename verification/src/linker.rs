//! The linker: its configuration, the bootstrap computations over the
//! loader's own program headers, the working set of loaded dependency
//! images, and the staged link — load every declared dependency, then
//! relocate every loaded image, then relocate the executable itself. Each
//! stage is a full barrier: a failure aborts the link before the next
//! stage begins.

use vstd::prelude::*;
use vstd::slice::slice_index_get;
use vstd::string::StringSliceAdditionalSpecFns;

use crate::LinkError;
use crate::image::{
    Dyn, Executable, ImageView, ProgramHeader, SharedObject, relocs_wf, resolve_in_set, tables_wf,
    ws_view, DT_RELAENT, DT_RELASZ, PT_DYNAMIC, PT_LOAD,
};
use crate::memory::Memory;
use crate::rela::{Elf64_Rela, R_X86_64_RELATIVE};
use crate::relocate::{
    apply_relative_upto, apply_upto, entry_kind, entry_symbol_name, first_bad_from,
    get_relocations, last_dyn_val, relocate, relocate_self,
};
use crate::sym::Sym;

verus! {

/// The configuration the linker derives once from the process environment:
/// each flag is set exactly when its variable is present with a non-empty
/// value. The path lists await path-resolution logic and stay empty.
pub struct Config {
    pub bind_now: bool,
    pub debug: bool,
    pub secure: bool,
    pub verbose: bool,
    pub trace_loaded_objects: bool,
    pub library_path: Vec<String>,
    pub preload: Vec<String>,
}

/// An environment variable counts as a set flag exactly when it is present
/// and non-empty.
pub open spec fn env_flag(v: Option<String>) -> bool {
    match v {
        Some(s) => s@.len() != 0,
        None => false,
    }
}

impl Config {
    /// Derives the configuration from the raw environment values; the
    /// secure flag comes from the process snapshot, not a variable.
    pub fn new(
        bind_now: Option<String>,
        debug: Option<String>,
        secure: bool,
        verbose: Option<String>,
        trace_loaded_objects: Option<String>,
    ) -> (r: Config)
        ensures
            r.bind_now == env_flag(bind_now),
            r.debug == env_flag(debug),
            r.secure == secure,
            r.verbose == env_flag(verbose),
            r.trace_loaded_objects == env_flag(trace_loaded_objects),
            r.library_path@.len() == 0,
            r.preload@.len() == 0,
    {
        Config {
            bind_now: env_flag_set(&bind_now),
            debug: env_flag_set(&debug),
            secure,
            verbose: env_flag_set(&verbose),
            trace_loaded_objects: env_flag_set(&trace_loaded_objects),
            library_path: Vec::new(),
            preload: Vec::new(),
        }
    }
}

/// Present with a non-empty value.
fn env_flag_set(v: &Option<String>) -> (r: bool)
    ensures
        r == env_flag(*v),
{
    match v {
        Some(s) => !s.as_str().is_empty(),
        None => false,
    }
}

/// The load bias derived from the first loadable program header at or
/// after index `j`: the base plus the header's file-offset-to-address
/// difference, modulo 2^64; zero when no loadable header exists.
pub open spec fn spec_load_bias_from(base: u64, phdrs: Seq<ProgramHeader>, j: int) -> u64
    decreases phdrs.len() - j,
{
    if j < 0 || j >= phdrs.len() {
        0
    } else if phdrs[j].p_type == PT_LOAD {
        base.wrapping_add(phdrs[j].p_offset.wrapping_sub(phdrs[j].p_vaddr))
    } else {
        spec_load_bias_from(base, phdrs, j + 1)
    }
}

/// The load bias derived from the first loadable program header.
pub open spec fn spec_load_bias(base: u64, phdrs: Seq<ProgramHeader>) -> u64 {
    spec_load_bias_from(base, phdrs, 0)
}

/// Computes the load bias from the first loadable program header; zero —
/// itself an error condition for a loader — when none exists.
pub fn compute_load_bias(base: u64, phdrs: &[ProgramHeader]) -> (r: u64)
    ensures
        r == spec_load_bias(base, phdrs@),
{
    let n = phdrs.len();
    let mut i: usize = 0;
    while i < n
        invariant
            n == phdrs@.len(),
            0 <= i <= n,
            spec_load_bias(base, phdrs@) == spec_load_bias_from(base, phdrs@, i as int),
        decreases n - i,
    {
        let ph = *slice_index_get(phdrs, i);
        if ph.p_type == PT_LOAD {
            return base.wrapping_add(ph.p_offset.wrapping_sub(ph.p_vaddr));
        }
        i = i + 1;
    }
    0
}

/// The runtime address of the dynamic section named by the first dynamic
/// program header at or after index `j`, if any.
pub open spec fn spec_dynamic_addr_from(bias: u64, phdrs: Seq<ProgramHeader>, j: int) -> Option<
    u64,
>
    decreases phdrs.len() - j,
{
    if j < 0 || j >= phdrs.len() {
        None
    } else if phdrs[j].p_type == PT_DYNAMIC {
        Some(phdrs[j].p_vaddr.wrapping_add(bias))
    } else {
        spec_dynamic_addr_from(bias, phdrs, j + 1)
    }
}

/// The runtime address of the dynamic section, per the program headers.
pub open spec fn spec_dynamic_addr(bias: u64, phdrs: Seq<ProgramHeader>) -> Option<u64> {
    spec_dynamic_addr_from(bias, phdrs, 0)
}

/// Locates the dynamic section via the program headers: the first dynamic
/// header's address plus the bias, or nothing when no such header exists.
pub fn find_dynamic(load_bias: u64, phdrs: &[ProgramHeader]) -> (r: Option<u64>)
    ensures
        r == spec_dynamic_addr(load_bias, phdrs@),
{
    let n = phdrs.len();
    let mut i: usize = 0;
    while i < n
        invariant
            n == phdrs@.len(),
            0 <= i <= n,
            spec_dynamic_addr(load_bias, phdrs@) == spec_dynamic_addr_from(
                load_bias,
                phdrs@,
                i as int,
            ),
        decreases n - i,
    {
        let ph = *slice_index_get(phdrs, i);
        if ph.p_type == PT_DYNAMIC {
            return Some(ph.p_vaddr.wrapping_add(load_bias));
        }
        i = i + 1;
    }
    None
}

/// Whether some image of the working set carries this dependency name.
pub open spec fn ws_has_name(ws: Seq<ImageView>, name: Seq<char>) -> bool {
    exists|i: int| 0 <= i < ws.len() && ws[i].name == name
}

/// The index of the first image at or after `j` whose name is `name`.
pub open spec fn lookup_from(avail: Seq<ImageView>, name: Seq<char>, j: int) -> Option<int>
    decreases avail.len() - j,
{
    if j < 0 || j >= avail.len() {
        None
    } else if avail[j].name == name {
        Some(j)
    } else {
        lookup_from(avail, name, j + 1)
    }
}

/// The index of the first available image whose name is `name`.
pub open spec fn lookup_image(avail: Seq<ImageView>, name: Seq<char>) -> Option<int> {
    lookup_from(avail, name, 0)
}

/// The working set after one load of `name`: unchanged when the name is
/// already loaded (a second load of a name must not add a second entry),
/// else extended by the first available image of that name.
pub open spec fn spec_load_step(
    ws: Seq<ImageView>,
    name: Seq<char>,
    avail: Seq<ImageView>,
) -> Seq<ImageView> {
    if ws_has_name(ws, name) {
        ws
    } else {
        match lookup_image(avail, name) {
            Some(idx) => ws.push(avail[idx]),
            None => ws,
        }
    }
}

/// Whether one load of `name` succeeds: the name is already loaded, or an
/// image of that name is available.
pub open spec fn load_step_ok(ws: Seq<ImageView>, name: Seq<char>, avail: Seq<ImageView>) -> bool {
    ws_has_name(ws, name) || lookup_image(avail, name) is Some
}

/// The working set after loading the first `n` declared dependencies.
pub open spec fn ws_after_load_upto(
    ws0: Seq<ImageView>,
    needed: Seq<Seq<char>>,
    avail: Seq<ImageView>,
    n: int,
) -> Seq<ImageView>
    decreases n,
{
    if n <= 0 {
        ws0
    } else {
        spec_load_step(ws_after_load_upto(ws0, needed, avail, n - 1), needed[n - 1], avail)
    }
}

/// The index of the first declared dependency at or after `j` whose load
/// fails, or the list's length if every one succeeds.
pub open spec fn first_unloadable_from(
    ws0: Seq<ImageView>,
    needed: Seq<Seq<char>>,
    avail: Seq<ImageView>,
    j: int,
) -> int
    decreases needed.len() - j,
{
    if j < 0 || j >= needed.len() {
        needed.len() as int
    } else if !load_step_ok(ws_after_load_upto(ws0, needed, avail, j), needed[j], avail) {
        j
    } else {
        first_unloadable_from(ws0, needed, avail, j + 1)
    }
}

proof fn lemma_first_unloadable_all_ok(
    ws0: Seq<ImageView>,
    needed: Seq<Seq<char>>,
    avail: Seq<ImageView>,
    j: int,
)
    requires
        0 <= j <= needed.len(),
        forall|t: int|
            j <= t < needed.len() ==> #[trigger] load_step_ok(
                ws_after_load_upto(ws0, needed, avail, t),
                needed[t],
                avail,
            ),
    ensures
        first_unloadable_from(ws0, needed, avail, j) == needed.len(),
    decreases needed.len() - j,
{
    if j < needed.len() {
        lemma_first_unloadable_all_ok(ws0, needed, avail, j + 1);
    }
}

proof fn lemma_first_unloadable_at(
    ws0: Seq<ImageView>,
    needed: Seq<Seq<char>>,
    avail: Seq<ImageView>,
    j: int,
    k: int,
)
    requires
        0 <= j <= k < needed.len(),
        forall|t: int|
            j <= t < k ==> #[trigger] load_step_ok(
                ws_after_load_upto(ws0, needed, avail, t),
                needed[t],
                avail,
            ),
        !load_step_ok(ws_after_load_upto(ws0, needed, avail, k), needed[k], avail),
    ensures
        first_unloadable_from(ws0, needed, avail, j) == k,
    decreases k - j,
{
    if j < k {
        lemma_first_unloadable_at(ws0, needed, avail, j + 1, k);
    }
}

/// Whether every relocation entry of image `so` can be applied with the
/// working set `ws` in scope.
pub open spec fn image_ok(ws: Seq<ImageView>, so: ImageView) -> bool {
    first_bad_from(ws, so.symtab, so.strtab, so.relatab, 0) == so.relatab.len()
}

/// The memory written by one image's whole relocation table.
pub open spec fn image_apply(ws: Seq<ImageView>, so: ImageView, mem0: Map<u64, u64>) -> Map<
    u64,
    u64,
> {
    apply_upto(ws, so.load_bias, so.relatab, so.symtab, so.strtab, mem0, so.relatab.len() as int)
}

/// The memory after the first `n` images of the working set have been
/// relocated, in working-set order.
pub open spec fn mem_after_images_upto(ws: Seq<ImageView>, mem0: Map<u64, u64>, n: int) -> Map<
    u64,
    u64,
>
    decreases n,
{
    if n <= 0 {
        mem0
    } else {
        image_apply(ws, ws[n - 1], mem_after_images_upto(ws, mem0, n - 1))
    }
}

/// The index of the first image at or after `j` with an unresolvable
/// entry, or the working set's length if every image relocates.
pub open spec fn first_bad_image_from(ws: Seq<ImageView>, j: int) -> int
    decreases ws.len() - j,
{
    if j < 0 || j >= ws.len() {
        ws.len() as int
    } else if !image_ok(ws, ws[j]) {
        j
    } else {
        first_bad_image_from(ws, j + 1)
    }
}

proof fn lemma_first_bad_image_all_ok(ws: Seq<ImageView>, j: int)
    requires
        0 <= j <= ws.len(),
        forall|t: int| j <= t < ws.len() ==> image_ok(ws, #[trigger] ws[t]),
    ensures
        first_bad_image_from(ws, j) == ws.len(),
    decreases ws.len() - j,
{
    if j < ws.len() {
        lemma_first_bad_image_all_ok(ws, j + 1);
    }
}

proof fn lemma_first_bad_image_at(ws: Seq<ImageView>, j: int, k: int)
    requires
        0 <= j <= k < ws.len(),
        forall|t: int| j <= t < k ==> image_ok(ws, #[trigger] ws[t]),
        !image_ok(ws, ws[k]),
    ensures
        first_bad_image_from(ws, j) == k,
    decreases k - j,
{
    if j < k {
        lemma_first_bad_image_at(ws, j + 1, k);
    }
}

/// The staged link's full outcome: exactly when it succeeds, what the
/// working set becomes, what memory holds, and which error names which
/// failure.
pub open spec fn link_outcome(
    ws0: Seq<ImageView>,
    needed: Seq<Seq<char>>,
    avail: Seq<ImageView>,
    exe: ImageView,
    mem0: Map<u64, u64>,
    ws1: Seq<ImageView>,
    mem1: Map<u64, u64>,
    r: Result<(), LinkError>,
) -> bool {
    let badload = first_unloadable_from(ws0, needed, avail, 0);
    let wsl = ws_after_load_upto(ws0, needed, avail, needed.len() as int);
    let badimg = first_bad_image_from(wsl, 0);
    &&& (r is Ok <==> badload == needed.len() && badimg == wsl.len() && image_ok(wsl, exe))
    &&& (r is Ok ==> ws1 == wsl && mem1 == image_apply(
        wsl,
        exe,
        mem_after_images_upto(wsl, mem0, wsl.len() as int),
    ))
    &&& (badload < needed.len() ==> {
        &&& r matches Err(LinkError::LoadFailure(n)) && n@ == needed[badload]
        &&& ws1 == ws_after_load_upto(ws0, needed, avail, badload)
        &&& mem1 == mem0
    })
    &&& (badload == needed.len() && badimg < wsl.len() ==> {
        &&& ws1 == wsl
        &&& r matches Err(LinkError::UnresolvedSymbol(n)) && Some(n@) == entry_symbol_name(
            wsl[badimg].symtab,
            wsl[badimg].strtab,
            wsl[badimg].relatab[first_bad_from(
                wsl,
                wsl[badimg].symtab,
                wsl[badimg].strtab,
                wsl[badimg].relatab,
                0,
            )],
        )
    })
    &&& (badload == needed.len() && badimg == wsl.len() && !image_ok(wsl, exe) ==> {
        &&& ws1 == wsl
        &&& r matches Err(LinkError::UnresolvedSymbol(n)) && Some(n@) == entry_symbol_name(
            exe.symtab,
            exe.strtab,
            exe.relatab[first_bad_from(wsl, exe.symtab, exe.strtab, exe.relatab, 0)],
        )
    })
}

/// A well-formed working set: every image's tables are well-formed, and no
/// dependency name occurs twice.
pub open spec fn ws_wf(ws: Seq<ImageView>) -> bool {
    &&& forall|i: int| 0 <= i < ws.len() ==> (#[trigger] ws[i]).wf()
    &&& forall|p: int, q: int| 0 <= p < q < ws.len() ==> ws[p].name != ws[q].name
}

/// The dynamic linker: its own place in the address space, its own parsed
/// headers, and the working set of dependency images it has loaded. The
/// working set is owned here alone; the relocation engine and the symbol
/// resolver only ever read it.
pub struct Linker {
    pub base: u64,
    pub load_bias: u64,
    pub vdso: u64,
    pub phdrs: Vec<ProgramHeader>,
    pub dynamic: Vec<Dyn>,
    pub config: Config,
    pub working_set: Vec<SharedObject>,
}

impl Linker {
    /// The working set's content, in insertion order.
    pub open spec fn ws(&self) -> Seq<ImageView> {
        ws_view(self.working_set@)
    }

    /// The linker's invariant: a well-formed working set.
    pub open spec fn wf(&self) -> bool {
        ws_wf(self.ws())
    }

    /// Bootstraps the linker: derives its load bias from its program
    /// headers, demands a dynamic section, validates its relocation table's
    /// declared shape against the entries handed over, applies
    /// self-relocation — base-relative entries only — and only then owns a
    /// (still empty) working set. Nothing is written to memory unless the
    /// whole bootstrap goes through.
    pub fn new(
        base: u64,
        vdso: u64,
        phdrs: Vec<ProgramHeader>,
        dynamic: Option<Vec<Dyn>>,
        relatab: &[Elf64_Rela],
        config: Config,
        mem: &mut Memory,
    ) -> (r: Result<Linker, LinkError>)
        requires
            old(mem).wf(),
        ensures
            final(mem).wf(),
            ({
                let bias = spec_load_bias(base, phdrs@);
                match r {
                    Ok(l) => {
                        &&& dynamic matches Some(d) && {
                            let relasz = last_dyn_val(d@, DT_RELASZ);
                            let relaent = last_dyn_val(d@, DT_RELAENT);
                            &&& relaent != 0
                            &&& relasz % relaent == 0
                            &&& relatab@.len() == relasz / relaent
                            &&& l.dynamic@ == d@
                        }
                        &&& forall|j: int|
                            0 <= j < relatab@.len() ==> entry_kind(#[trigger] relatab@[j])
                                == R_X86_64_RELATIVE
                        &&& l.base == base
                        &&& l.load_bias == bias
                        &&& l.vdso == vdso
                        &&& l.phdrs@ == phdrs@
                        &&& l.ws() == Seq::<ImageView>::empty()
                        &&& l.wf()
                        &&& final(mem)@ == apply_relative_upto(
                            bias,
                            relatab@,
                            old(mem)@,
                            relatab@.len() as int,
                        )
                    },
                    Err(e) => {
                        &&& final(mem)@ == old(mem)@
                        &&& match dynamic {
                            None => e == LinkError::NoDynamicSection,
                            Some(d) => {
                                let relasz = last_dyn_val(d@, DT_RELASZ);
                                let relaent = last_dyn_val(d@, DT_RELAENT);
                                if relaent == 0 || relasz % relaent != 0 || relatab@.len()
                                    != relasz / relaent {
                                    e == LinkError::MalformedRelocationTable
                                } else {
                                    &&& e == LinkError::NonRelativeEntry
                                    &&& !(forall|j: int|
                                        0 <= j < relatab@.len() ==> entry_kind(
                                            #[trigger] relatab@[j],
                                        ) == R_X86_64_RELATIVE)
                                }
                            },
                        }
                    },
                }
            }),
    {
        let load_bias = compute_load_bias(base, phdrs.as_slice());
        let d = match dynamic {
            Some(d) => d,
            None => {
                return Err(LinkError::NoDynamicSection);
            },
        };
        let loc = match get_relocations(load_bias, d.as_slice()) {
            Ok(loc) => loc,
            Err(e) => {
                return Err(e);
            },
        };
        if relatab.len() as u64 != loc.count {
            return Err(LinkError::MalformedRelocationTable);
        }
        match relocate_self(load_bias, relatab, mem) {
            Ok(()) => {},
            Err(e) => {
                return Err(e);
            },
        }
        let linker = Linker {
            base,
            load_bias,
            vdso,
            phdrs,
            dynamic: d,
            config,
            working_set: Vec::new(),
        };
        proof {
            assert(linker.ws() =~= Seq::<ImageView>::empty());
        }
        Ok(linker)
    }

    /// How many dependency images the working set holds.
    pub fn loaded_count(&self) -> (r: usize)
        ensures
            r == self.ws().len(),
    {
        self.working_set.len()
    }

    /// Resolves a symbol name across the working set: the first definition
    /// in working-set order, then symbol-table order.
    pub fn find_symbol(&self, name: &str) -> (r: Option<Sym>)
        ensures
            r == resolve_in_set(self.ws(), name.spec_bytes()),
    {
        crate::image::find_symbol_in(&self.working_set, name.as_bytes())
    }

    /// Loads one dependency by name from what the external loader mapped:
    /// a name already in the working set is left alone (never inserted
    /// twice); a name with no mapped image is a load failure naming the
    /// dependency.
    pub fn load(&mut self, soname: &str, available: &Vec<SharedObject>) -> (r: Result<
        (),
        LinkError,
    >)
        requires
            old(self).wf(),
            forall|i: int|
                0 <= i < available@.len() ==> (#[trigger] available@[i]@).wf(),
        ensures
            final(self).wf(),
            final(self).base == old(self).base,
            final(self).load_bias == old(self).load_bias,
            final(self).vdso == old(self).vdso,
            final(self).phdrs@ == old(self).phdrs@,
            final(self).dynamic@ == old(self).dynamic@,
            match r {
                Ok(()) => {
                    &&& load_step_ok(old(self).ws(), soname@, ws_view(available@))
                    &&& final(self).ws() == spec_load_step(
                        old(self).ws(),
                        soname@,
                        ws_view(available@),
                    )
                },
                Err(e) => {
                    &&& !load_step_ok(old(self).ws(), soname@, ws_view(available@))
                    &&& final(self).ws() == old(self).ws()
                    &&& e matches LinkError::LoadFailure(n) && n@ == soname@
                },
            },
    {
        let key: String = soname.to_owned();
        let m = self.working_set.len();
        let mut i: usize = 0;
        while i < m
            invariant
                m == self.working_set@.len(),
                0 <= i <= m,
                key@ == soname@,
                *self == *old(self),
                old(self).wf(),
                forall|t: int| 0 <= t < i ==> ws_view(self.working_set@)[t].name != soname@,
            decreases m - i,
        {
            assert(ws_view(self.working_set@)[i as int] == self.working_set@[i as int]@);
            if self.working_set[i].name == key {
                assert(ws_has_name(self.ws(), soname@));
                return Ok(());
            }
            i = i + 1;
        }
        assert(!ws_has_name(self.ws(), soname@));
        let a = available.len();
        let mut k: usize = 0;
        while k < a
            invariant
                a == available@.len(),
                0 <= k <= a,
                key@ == soname@,
                *self == *old(self),
                old(self).wf(),
                !ws_has_name(old(self).ws(), soname@),
                forall|i2: int|
                    0 <= i2 < available@.len() ==> (#[trigger] available@[i2]@).wf(),
                lookup_image(ws_view(available@), soname@) == lookup_from(
                    ws_view(available@),
                    soname@,
                    k as int,
                ),
            decreases a - k,
        {
            assert(ws_view(available@)[k as int] == available@[k as int]@);
            if available[k].name == key {
                let ghost ws0 = self.ws();
                let img = available[k].clone();
                self.working_set.push(img);
                proof {
                    assert(lookup_image(ws_view(available@), soname@) == Some(k as int));
                    assert(self.ws() =~= ws0.push(available@[k as int]@));
                    assert forall|p: int, q: int|
                        0 <= p < q < self.ws().len() implies self.ws()[p].name
                        != self.ws()[q].name by {
                        if q < self.ws().len() - 1 {
                            assert(ws0[p].name != ws0[q].name);
                        } else {
                            assert(ws0[p].name != soname@);
                        }
                    }
                    assert(ws_wf(self.ws()));
                }
                return Ok(());
            }
            k = k + 1;
        }
        assert(lookup_image(ws_view(available@), soname@) is None);
        Err(LinkError::LoadFailure(key))
    }

    /// The staged link. Loads every declared dependency of the executable
    /// — a missing one aborts the link before anything is relocated — then
    /// relocates every image of the working set with the whole set in
    /// scope, then relocates the executable itself against the fully
    /// populated set. The first unresolvable symbol anywhere aborts the
    /// link with that symbol's name; what was already written stays
    /// written. On success every relocation of every image and of the
    /// executable has been applied, in stage order.
    pub fn link_executable(&mut self, image: Executable, available: &Vec<SharedObject>, mem:
        &mut Memory) -> (r: Result<(), LinkError>)
        requires
            old(self).wf(),
            old(mem).wf(),
            tables_wf(image.symtab@, image.strtab@),
            relocs_wf(image.relatab@, image.symtab@),
            forall|i: int|
                0 <= i < available@.len() ==> (#[trigger] available@[i]@).wf(),
        ensures
            final(self).wf(),
            final(mem).wf(),
            final(self).base == old(self).base,
            final(self).load_bias == old(self).load_bias,
            final(self).vdso == old(self).vdso,
            final(self).phdrs@ == old(self).phdrs@,
            final(self).dynamic@ == old(self).dynamic@,
            link_outcome(
                old(self).ws(),
                image.needed_view(),
                ws_view(available@),
                image.image_view(),
                old(mem)@,
                final(self).ws(),
                final(mem)@,
                r,
            ),
    {
        let ghost ws0 = old(self).ws();
        let ghost needed = image.needed_view();
        let ghost avail = ws_view(available@);

        // stage 1: load every declared dependency; a failure aborts before
        // any relocation
        let nneeded = image.needed.len();
        let mut i: usize = 0;
        while i < nneeded
            invariant
                nneeded == image.needed@.len(),
                0 <= i <= nneeded,
                ws0 == old(self).ws(),
                needed == image.needed_view(),
                avail == ws_view(available@),
                self.wf(),
                self.base == old(self).base,
                self.load_bias == old(self).load_bias,
                self.vdso == old(self).vdso,
                self.phdrs@ == old(self).phdrs@,
                self.dynamic@ == old(self).dynamic@,
                mem.wf(),
                mem@ == old(mem)@,
                *mem == *old(mem),
                forall|i2: int|
                    0 <= i2 < available@.len() ==> (#[trigger] available@[i2]@).wf(),
                self.ws() == ws_after_load_upto(ws0, needed, avail, i as int),
                forall|t: int|
                    0 <= t < i ==> #[trigger] load_step_ok(
                        ws_after_load_upto(ws0, needed, avail, t),
                        needed[t],
                        avail,
                    ),
            decreases nneeded - i,
        {
            assert(image.needed@[i as int]@ == needed[i as int]);
            match self.load(image.needed[i].as_str(), available) {
                Ok(()) => {
                    assert(self.ws() == ws_after_load_upto(ws0, needed, avail, i + 1));
                },
                Err(e) => {
                    proof {
                        assert(!load_step_ok(
                            ws_after_load_upto(ws0, needed, avail, i as int),
                            needed[i as int],
                            avail,
                        ));
                        lemma_first_unloadable_at(ws0, needed, avail, 0, i as int);
                    }
                    return Err(e);
                },
            }
            i = i + 1;
        }
        proof {
            lemma_first_unloadable_all_ok(ws0, needed, avail, 0);
        }
        let ghost wsl = ws_after_load_upto(ws0, needed, avail, needed.len() as int);
        assert(self.ws() == wsl);

        // stage 2: relocate every image of the working set, with the whole
        // set in scope for symbol resolution
        let wcount = self.working_set.len();
        let mut k: usize = 0;
        while k < wcount
            invariant
                wcount == self.working_set@.len(),
                0 <= k <= wcount,
                self.wf(),
                self.ws() == wsl,
                ws0 == old(self).ws(),
                needed == image.needed_view(),
                avail == ws_view(available@),
                wsl == ws_after_load_upto(ws0, needed, avail, needed.len() as int),
                first_unloadable_from(ws0, needed, avail, 0) == needed.len(),
                self.base == old(self).base,
                self.load_bias == old(self).load_bias,
                self.vdso == old(self).vdso,
                self.phdrs@ == old(self).phdrs@,
                self.dynamic@ == old(self).dynamic@,
                mem.wf(),
                mem@ == mem_after_images_upto(wsl, old(mem)@, k as int),
                forall|t: int| 0 <= t < k ==> image_ok(wsl, #[trigger] wsl[t]),
            decreases wcount - k,
        {
            assert(wsl[k as int] == self.working_set@[k as int]@);
            assert(wsl[k as int].wf());
            let result = relocate(
                &self.working_set,
                self.working_set[k].load_bias,
                self.working_set[k].relatab.as_slice(),
                self.working_set[k].symtab.as_slice(),
                self.working_set[k].strtab.as_slice(),
                mem,
            );
            match result {
                Ok(()) => {
                    assert(ws_view(self.working_set@) == wsl);
                    assert(mem@ == mem_after_images_upto(wsl, old(mem)@, k + 1));
                },
                Err(e) => {
                    proof {
                        assert(!image_ok(wsl, wsl[k as int]));
                        lemma_first_bad_image_at(wsl, 0, k as int);
                    }
                    return Err(e);
                },
            }
            k = k + 1;
        }
        proof {
            lemma_first_bad_image_all_ok(wsl, 0);
        }

        // stage 3: relocate the executable against the now-fully-populated
        // working set; control transfer is the caller's step
        let result = relocate(
            &self.working_set,
            image.load_bias,
            image.relatab.as_slice(),
            image.symtab.as_slice(),
            image.strtab.as_slice(),
            mem,
        );
        match result {
            Ok(()) => {
                assert(ws_view(self.working_set@) == wsl);
                Ok(())
            },
            Err(e) => Err(e),
        }
    }
}

} // verus!
