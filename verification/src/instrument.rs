//! The module rewriter: injects the coverage globals, the host imports,
//! the edge-recording helper and the coverage-export entry point, and
//! instruments every basic block of every local function.
//!
//! Each step has a specification-level counterpart over the ghost module
//! image, and each executable step is proved to compute exactly it, so
//! instrumenting under a static seed is a function of the module and the
//! seed alone.

use vstd::prelude::*;
use vstd::string::StringExecFns;
use crate::rng::{EdgeStream, edge_constant, os_random_seed};
use crate::util::str_eq;
use crate::wasm::{
    Export, ExportV, FuncType, FuncV, Global, GlobalInit, ImportV, Import, Instr, InstrV,
    LocalFunc, ModuleV, TypeV, ValType, WasmModule, module_wf,
};
use crate::AFL_COVERAGE_MAP_SIZE;

verus! {

/// Errors a fuzzing campaign treats as fatal, and the locally recovered
/// mutation skip.
#[derive(Clone, Copy, Debug, PartialEq, Eq, Structural)]
pub enum FuzzError {
    /// The module bytes did not parse.
    InvalidModule,
    /// The configured history size is not 1, 2, 4 or 8.
    InvalidHistory,
    /// The rewritten module did not pass the validator.
    ValidationFailed,
    /// A canister image path or environment variable did not resolve.
    MissingWasm,
    /// The simulator could not be brought up.
    SimulatorSetupFailed,
    /// The coverage read-back failed; the iteration counts as no coverage.
    CoverageReadFailed,
}

/// The seed policy for the rewriter's per-edge constants.
#[derive(Clone, Copy, Debug, PartialEq, Eq, Structural)]
pub enum Seed {
    /// Seed from operating-system entropy.
    Random,
    /// Seed from the given value, reproducibly.
    Static(u32),
}

/// Arguments of the instrumentation pass.
pub struct InstrumentationArgs {
    /// The raw module to instrument.
    pub wasm_bytes: Vec<u8>,
    /// How many previous locations the edge key folds in: 1, 2, 4 or 8.
    pub history_size: usize,
    /// The seed policy for the per-edge constants.
    pub seed: Seed,
}

/// The accepted history sizes.
pub open spec fn valid_history(h: nat) -> bool {
    h == 1 || h == 2 || h == 4 || h == 8
}

/// A previous-location slot: a mutable global initialised to `i32.const 0`.
pub open spec fn prev_loc_global() -> Global {
    Global { mutable: true, init: GlobalInit::I32(0) }
}

/// The buffer-base global: immutable, initialised to `i32.const 0`.
pub open spec fn mem_ptr_global() -> Global {
    Global { mutable: false, init: GlobalInit::I32(0) }
}

/// What `inject_globals` appends: `h` previous-location slots, then the
/// buffer base.
pub open spec fn injected_globals(h: nat) -> Seq<Global> {
    Seq::new(h, |i: int| prev_loc_global()) + seq![mem_ptr_global()]
}

/// Appends the coverage globals: `history_size` mutable `i32` globals
/// initialised to zero for the previous locations, then one immutable
/// `i32` zero global reserved as the coverage buffer's base address.
/// Returns the new globals' indices: the previous-location slots in
/// order, then the base.
pub fn inject_globals(m: &mut WasmModule, history_size: usize) -> (r: (Vec<u32>, u32))
    requires
        old(m)@.globals.len() + history_size + 1 <= u32::MAX,
    ensures
        final(m)@.globals =~= old(m)@.globals + injected_globals(history_size as nat),
        final(m)@.types == old(m)@.types,
        final(m)@.imports == old(m)@.imports,
        final(m)@.funcs == old(m)@.funcs,
        final(m)@.exports == old(m)@.exports,
        r.0@.len() == history_size,
        forall|i: int| 0 <= i < history_size ==> r.0@[i] == old(m)@.globals.len() + i,
        r.1 == old(m)@.globals.len() + history_size,
{
    let base = m.globals.len();
    let mut prev_ids: Vec<u32> = Vec::new();
    let mut i: usize = 0;
    while i < history_size
        invariant
            i <= history_size,
            base + history_size + 1 <= u32::MAX,
            m@.globals =~= old(m)@.globals + Seq::new(i as nat, |j: int| prev_loc_global()),
            m@.types == old(m)@.types,
            m@.imports == old(m)@.imports,
            m@.funcs == old(m)@.funcs,
            m@.exports == old(m)@.exports,
            base == old(m)@.globals.len(),
            prev_ids@.len() == i,
            forall|j: int| 0 <= j < i ==> prev_ids@[j] == base + j,
        decreases history_size - i,
    {
        m.globals.push(Global { mutable: true, init: GlobalInit::I32(0) });
        prev_ids.push((base + i) as u32);
        i = i + 1;
    }
    m.globals.push(Global { mutable: false, init: GlobalInit::I32(0) });
    proof {
        assert(m@.globals =~= old(m)@.globals + injected_globals(history_size as nat));
    }
    (prev_ids, (base + history_size) as u32)
}

/// Does the type at hand have exactly these parameters and results?
pub open spec fn type_matches(t: TypeV, params: Seq<ValType>, results: Seq<ValType>) -> bool {
    t.params == params && t.results == results
}

/// The first index at or after `i` whose type matches, if any.
pub open spec fn find_type_from(
    types: Seq<TypeV>,
    params: Seq<ValType>,
    results: Seq<ValType>,
    i: int,
) -> Option<int>
    decreases types.len() - i,
{
    if i < 0 || i >= types.len() {
        Option::None
    } else if type_matches(types[i], params, results) {
        Option::Some(i)
    } else {
        find_type_from(types, params, results, i + 1)
    }
}

/// The type table after asking for a function type, and the type's
/// index: an existing equal type is reused, otherwise the type is
/// appended.
pub open spec fn add_type_spec(
    types: Seq<TypeV>,
    params: Seq<ValType>,
    results: Seq<ValType>,
) -> (Seq<TypeV>, int) {
    match find_type_from(types, params, results, 0) {
        Option::Some(i) => (types, i),
        Option::None => (
            types + seq![TypeV { params, results }],
            types.len() as int,
        ),
    }
}

/// Element-wise equality of value-type vectors.
fn valtypes_eq(a: &Vec<ValType>, b: &Vec<ValType>) -> (r: bool)
    ensures
        r == (a@ == b@),
{
    if a.len() != b.len() {
        return false;
    }
    let mut i: usize = 0;
    while i < a.len()
        invariant
            a@.len() == b@.len(),
            i <= a@.len(),
            forall|t: int| 0 <= t < i ==> a@[t] == #[trigger] b@[t],
        decreases a@.len() - i,
    {
        if a[i] != b[i] {
            return false;
        }
        i = i + 1;
    }
    proof {
        assert(a@ =~= b@);
    }
    true
}

/// A copy of a value-type vector.
fn valtypes_copy(a: &Vec<ValType>) -> (r: Vec<ValType>)
    ensures
        r@ == a@,
{
    let mut out: Vec<ValType> = Vec::new();
    let mut i: usize = 0;
    while i < a.len()
        invariant
            i <= a@.len(),
            out@ =~= a@.subrange(0, i as int),
        decreases a@.len() - i,
    {
        out.push(a[i]);
        i = i + 1;
    }
    proof {
        assert(out@ =~= a@);
    }
    out
}

impl WasmModule {
    /// Returns the index of a function type with these parameters and
    /// results, appending it to the type table if no equal type exists.
    pub fn add_func_type(&mut self, params: Vec<ValType>, results: Vec<ValType>) -> (r: u32)
        requires
            old(self)@.types.len() + 1 <= u32::MAX,
        ensures
            final(self)@.types == add_type_spec(old(self)@.types, params@, results@).0,
            r as int == add_type_spec(old(self)@.types, params@, results@).1,
            r < final(self)@.types.len(),
            final(self)@.imports == old(self)@.imports,
            final(self)@.funcs == old(self)@.funcs,
            final(self)@.globals == old(self)@.globals,
            final(self)@.exports == old(self)@.exports,
            type_matches(final(self)@.types[r as int], params@, results@),
            old(self)@.types.len() <= final(self)@.types.len(),
            forall|j: int|
                0 <= j < old(self)@.types.len() ==> final(self)@.types[j] == old(self)@.types[j],
    {
        let ghost types0 = self@.types;
        let n = self.types.len();
        let mut i: usize = 0;
        while i < n
            invariant
                n == self.types@.len(),
                n == types0.len(),
                n + 1 <= u32::MAX,
                self@.types =~= types0,
                i <= n,
                find_type_from(types0, params@, results@, 0) == find_type_from(
                    types0,
                    params@,
                    results@,
                    i as int,
                ),
            decreases n - i,
        {
            if valtypes_eq(&self.types[i].params, &params) && valtypes_eq(
                &self.types[i].results,
                &results,
            ) {
                proof {
                    assert(type_matches(types0[i as int], params@, results@));
                    assert(find_type_from(types0, params@, results@, i as int)
                        == Option::Some(i as int));
                    assert(self@.types == types0);
                }
                return i as u32;
            }
            i = i + 1;
        }
        self.types.push(FuncType { params, results });
        proof {
            assert(self@.types =~= types0 + seq![
                TypeV { params: params@, results: results@ },
            ]);
        }
        n as u32
    }
}

/// Is this the import of `name` from `module`?
pub open spec fn import_matches(imp: ImportV, module: Seq<char>, name: Seq<char>) -> bool {
    imp.module == module && imp.name == name
}

/// The first index at or after `i` of an import of `name` from `module`.
pub open spec fn find_import_from(
    imports: Seq<ImportV>,
    module: Seq<char>,
    name: Seq<char>,
    i: int,
) -> Option<int>
    decreases imports.len() - i,
{
    if i < 0 || i >= imports.len() {
        Option::None
    } else if import_matches(imports[i], module, name) {
        Option::Some(i)
    } else {
        find_import_from(imports, module, name, i + 1)
    }
}

/// A call target after one function import was appended: targets at or
/// past the old import count move up by one, so they keep naming the
/// same local function.
pub open spec fn bump_instr(x: InstrV, threshold: int) -> InstrV {
    match x {
        InstrV::Call(f) => if f >= threshold {
            InstrV::Call((f + 1) as u32)
        } else {
            x
        },
        _ => x,
    }
}

/// A body with every call target renumbered past the new import.
pub open spec fn bump_body(b: Seq<InstrV>, threshold: int) -> Seq<InstrV> {
    b.map_values(|x: InstrV| bump_instr(x, threshold))
}

/// A local function with its call targets renumbered.
pub open spec fn bump_func(f: FuncV, threshold: int) -> FuncV {
    FuncV { type_idx: f.type_idx, locals: f.locals, body: bump_body(f.body, threshold) }
}

/// An export with its function index renumbered past the new import.
pub open spec fn bump_export(e: ExportV, threshold: int) -> ExportV {
    ExportV {
        name: e.name,
        index: if e.index >= threshold {
            (e.index + 1) as u32
        } else {
            e.index
        },
    }
}

/// The module after appending a function import: the import's type is
/// reused or appended, the import goes to the end of the import list,
/// and every call target and export index that named a local function
/// moves up by one. The second component is the new import's function
/// index.
pub open spec fn append_import_spec(
    m: ModuleV,
    module: Seq<char>,
    name: Seq<char>,
    params: Seq<ValType>,
    results: Seq<ValType>,
) -> (ModuleV, int) {
    let threshold = m.imports.len() as int;
    (
        ModuleV {
            types: add_type_spec(m.types, params, results).0,
            imports: m.imports + seq![
                ImportV {
                    module,
                    name,
                    type_idx: add_type_spec(m.types, params, results).1 as u32,
                },
            ],
            funcs: m.funcs.map_values(|f: FuncV| bump_func(f, threshold)),
            globals: m.globals,
            exports: m.exports.map_values(|e: ExportV| bump_export(e, threshold)),
        },
        threshold,
    )
}

/// The module after making sure `module`.`name` is imported, and the
/// import's function index: an existing import of that name is found,
/// or a new one is appended.
pub open spec fn ensure_import_spec(
    m: ModuleV,
    module: Seq<char>,
    name: Seq<char>,
    params: Seq<ValType>,
    results: Seq<ValType>,
) -> (ModuleV, int) {
    match find_import_from(m.imports, module, name, 0) {
        Option::Some(i) => (m, i),
        Option::None => append_import_spec(m, module, name, params, results),
    }
}

/// Every call target in the body is below `k`.
pub open spec fn body_calls_below(b: Seq<InstrV>, k: int) -> bool {
    forall|j: int| 0 <= j < b.len() ==> crate::wasm::instr_funcs_ok(#[trigger] b[j], k)
}

/// Copies the functions with every call target at or past `threshold`
/// moved up by one.
fn bump_calls(funcs: &Vec<LocalFunc>, threshold: u32, Ghost(k): Ghost<int>) -> (r: Vec<LocalFunc>)
    requires
        k + 1 <= u32::MAX,
        forall|i: int|
            0 <= i < funcs@.len() ==> body_calls_below((#[trigger] funcs@[i])@.body, k),
    ensures
        r@.len() == funcs@.len(),
        forall|i: int|
            0 <= i < funcs@.len() ==> (#[trigger] r@[i])@ == bump_func(
                funcs@[i]@,
                threshold as int,
            ),
{
    let mut out: Vec<LocalFunc> = Vec::new();
    let mut i: usize = 0;
    while i < funcs.len()
        invariant
            i <= funcs@.len(),
            k + 1 <= u32::MAX,
            forall|t: int|
                0 <= t < funcs@.len() ==> body_calls_below((#[trigger] funcs@[t])@.body, k),
            out@.len() == i,
            forall|t: int|
                0 <= t < i ==> (#[trigger] out@[t])@ == bump_func(funcs@[t]@, threshold as int),
        decreases funcs@.len() - i,
    {
        let f = &funcs[i];
        let mut body: Vec<Instr> = Vec::new();
        let mut j: usize = 0;
        while j < f.body.len()
            invariant
                j <= f.body@.len(),
                k + 1 <= u32::MAX,
                body_calls_below(f@.body, k),
                body@.len() == j,
                forall|p: int|
                    0 <= p < j ==> (#[trigger] body@[p])@ == bump_instr(
                        f@.body[p],
                        threshold as int,
                    ),
            decreases f.body@.len() - j,
        {
            proof {
                assert(f@.body[j as int] == f.body@[j as int]@);
                assert(crate::wasm::instr_funcs_ok(f@.body[j as int], k));
            }
            match &f.body[j] {
                Instr::Call(t) => {
                    proof {
                        assert(f@.body[j as int] == InstrV::Call(*t));
                        assert(*t < k);
                    }
                    if *t >= threshold {
                        body.push(Instr::Call(*t + 1));
                    } else {
                        body.push(Instr::Call(*t));
                    }
                },
                other => {
                    body.push(other.clone());
                },
            }
            j = j + 1;
        }
        proof {
            assert(body@.map_values(|x: Instr| x@) =~= bump_body(f@.body, threshold as int));
        }
        let locals2 = valtypes_copy(&f.locals);
        out.push(LocalFunc { type_idx: f.type_idx, locals: locals2, body });
        proof {
            assert((out@[i as int])@ =~= bump_func(funcs@[i as int]@, threshold as int));
        }
        i = i + 1;
    }
    out
}

/// Copies the exports with every function index at or past `threshold`
/// moved up by one.
fn bump_export_indices(exports: &Vec<Export>, threshold: u32, Ghost(k): Ghost<int>) -> (r: Vec<
    Export,
>)
    requires
        k + 1 <= u32::MAX,
        forall|i: int| 0 <= i < exports@.len() ==> (#[trigger] exports@[i])@.index <= k,
    ensures
        r@.len() == exports@.len(),
        forall|i: int|
            0 <= i < exports@.len() ==> (#[trigger] r@[i])@ == bump_export(
                exports@[i]@,
                threshold as int,
            ),
{
    let mut out: Vec<Export> = Vec::new();
    let mut i: usize = 0;
    while i < exports.len()
        invariant
            i <= exports@.len(),
            k + 1 <= u32::MAX,
            forall|t: int| 0 <= t < exports@.len() ==> (#[trigger] exports@[t])@.index <= k,
            out@.len() == i,
            forall|t: int|
                0 <= t < i ==> (#[trigger] out@[t])@ == bump_export(
                    exports@[t]@,
                    threshold as int,
                ),
        decreases exports@.len() - i,
    {
        let e = &exports[i];
        proof {
            assert(exports@[i as int]@.index <= k);
        }
        let new_index = if e.index >= threshold {
            e.index + 1
        } else {
            e.index
        };
        out.push(Export { name: e.name.clone(), index: new_index });
        proof {
            assert((out@[i as int])@ =~= bump_export(exports@[i as int]@, threshold as int));
        }
        i = i + 1;
    }
    out
}

impl WasmModule {
    /// The first import of `name` from `module`, by import index.
    fn find_func_import(&self, module: &str, name: &str) -> (r: Option<usize>)
        ensures
            match r {
                Option::Some(i) => find_import_from(self@.imports, module@, name@, 0)
                    == Option::Some(i as int),
                Option::None => find_import_from(self@.imports, module@, name@, 0)
                    is None,
            },
    {
        let mut i: usize = 0;
        while i < self.imports.len()
            invariant
                i <= self.imports@.len(),
                find_import_from(self@.imports, module@, name@, 0) == find_import_from(
                    self@.imports,
                    module@,
                    name@,
                    i as int,
                ),
            decreases self.imports@.len() - i,
        {
            if str_eq(self.imports[i].module.as_str(), module) && str_eq(
                self.imports[i].name.as_str(),
                name,
            ) {
                proof {
                    assert(import_matches(self@.imports[i as int], module@, name@));
                }
                return Option::Some(i);
            }
            i = i + 1;
        }
        Option::None
    }

    /// Makes sure `module`.`name` is imported with the given type and
    /// returns its function index. A missing import is appended, its
    /// type reused or added, and every call target and export index that
    /// named a local function is renumbered past it.
    pub fn ensure_func_import(
        &mut self,
        module: &str,
        name: &str,
        params: Vec<ValType>,
        results: Vec<ValType>,
    ) -> (r: u32)
        requires
            module_wf(old(self)@),
            old(self)@.types.len() + 1 <= u32::MAX,
            old(self)@.func_count() + 1 <= u32::MAX,
        ensures
            final(self)@ == ensure_import_spec(old(self)@, module@, name@, params@, results@).0,
            r as int == ensure_import_spec(old(self)@, module@, name@, params@, results@).1,
    {
        let ghost m0 = self@;
        match self.find_func_import(module, name) {
            Option::Some(i) => {
                proof {
                    lemma_find_import_in_range(m0.imports, module@, name@, 0);
                }
                i as u32
            },
            Option::None => {
                let ti = self.add_func_type(params, results);
                let threshold = self.imports.len() as u32;
                proof {
                    assert forall|i: int| 0 <= i < self.funcs@.len() implies body_calls_below(
                        (#[trigger] self.funcs@[i])@.body,
                        m0.func_count(),
                    ) by {
                        assert(m0.funcs[i] == (self.funcs@[i])@);
                        assert(crate::wasm::func_body_ok(m0, m0.funcs[i]));
                    }
                    assert forall|i: int|
                        0 <= i < self.exports@.len() implies (
                        #[trigger] self.exports@[i])@.index <= m0.func_count() by {
                        assert(m0.exports[i] == (self.exports@[i])@);
                        assert(m0.exports[i].index < m0.func_count());
                    }
                }
                let new_funcs = bump_calls(&self.funcs, threshold, Ghost(m0.func_count()));
                self.funcs = new_funcs;
                let new_exports = bump_export_indices(
                    &self.exports,
                    threshold,
                    Ghost(m0.func_count()),
                );
                self.exports = new_exports;
                self.imports.push(
                    Import { module: module.to_owned(), name: name.to_owned(), type_idx: ti },
                );
                proof {
                    let sp = append_import_spec(m0, module@, name@, params@, results@);
                    assert(self@.imports =~= sp.0.imports);
                    assert forall|i: int| 0 <= i < self@.funcs.len() implies self@.funcs[i]
                        == sp.0.funcs[i] by {
                        assert(self@.funcs[i] == (self.funcs@[i])@);
                        assert(sp.0.funcs[i] == bump_func(m0.funcs[i], threshold as int));
                    }
                    assert(self@.funcs =~= sp.0.funcs);
                    assert forall|i: int| 0 <= i < self@.exports.len() implies self@.exports[i]
                        == sp.0.exports[i] by {
                        assert(self@.exports[i] == (self.exports@[i])@);
                        assert(sp.0.exports[i] == bump_export(m0.exports[i], threshold as int));
                    }
                    assert(self@.exports =~= sp.0.exports);
                    assert(self@ =~= sp.0);
                }
                threshold
            },
        }
    }
}

/// A found import index is inside the import list.
proof fn lemma_find_import_in_range(
    imports: Seq<ImportV>,
    module: Seq<char>,
    name: Seq<char>,
    i: int,
)
    ensures
        match find_import_from(imports, module, name, i) {
            Option::Some(j) => i <= j < imports.len() && import_matches(imports[j], module, name),
            Option::None => true,
        },
    decreases imports.len() - i,
{
    if 0 <= i < imports.len() && !import_matches(imports[i], module, name) {
        lemma_find_import_in_range(imports, module, name, i + 1);
    }
}

/// The module after appending a local function with the given type,
/// locals and body; the type is reused or added. The second component is
/// the new function's index: past every import and every earlier local
/// function.
pub open spec fn add_local_func_spec(
    m: ModuleV,
    params: Seq<ValType>,
    results: Seq<ValType>,
    locals: Seq<ValType>,
    body: Seq<InstrV>,
) -> (ModuleV, int) {
    (
        ModuleV {
            types: add_type_spec(m.types, params, results).0,
            imports: m.imports,
            funcs: m.funcs + seq![
                FuncV {
                    type_idx: add_type_spec(m.types, params, results).1 as u32,
                    locals,
                    body,
                },
            ],
            globals: m.globals,
            exports: m.exports,
        },
        m.func_count(),
    )
}

impl WasmModule {
    /// Appends a local function with the given type, locals and body and
    /// returns its function index.
    pub fn add_local_func(
        &mut self,
        params: Vec<ValType>,
        results: Vec<ValType>,
        locals: Vec<ValType>,
        body: Vec<Instr>,
    ) -> (r: u32)
        requires
            old(self)@.types.len() + 1 <= u32::MAX,
            old(self)@.func_count() + 1 <= u32::MAX,
        ensures
            final(self)@ == add_local_func_spec(
                old(self)@,
                params@,
                results@,
                locals@,
                body@.map_values(|x: Instr| x@),
            ).0,
            r as int == add_local_func_spec(
                old(self)@,
                params@,
                results@,
                locals@,
                body@.map_values(|x: Instr| x@),
            ).1,
    {
        let ghost m0 = self@;
        let ti = self.add_func_type(params, results);
        let idx = (self.imports.len() + self.funcs.len()) as u32;
        self.funcs.push(LocalFunc { type_idx: ti, locals, body });
        proof {
            let sp = add_local_func_spec(
                m0,
                params@,
                results@,
                locals@,
                body@.map_values(|x: Instr| x@),
            );
            assert(self@.funcs =~= sp.0.funcs);
            assert(self@ =~= sp.0);
        }
        idx
    }

    /// Appends a function export under the given name.
    pub fn add_export(&mut self, name: String, index: u32)
        ensures
            final(self)@.exports =~= old(self)@.exports + seq![
                ExportV { name: name@, index },
            ],
            final(self)@.types == old(self)@.types,
            final(self)@.imports == old(self)@.imports,
            final(self)@.funcs == old(self)@.funcs,
            final(self)@.globals == old(self)@.globals,
    {
        self.exports.push(Export { name, index });
        proof {
            assert(self@.exports =~= old(self)@.exports + seq![
                ExportV { name: name@, index },
            ]);
        }
    }
}

/// The xor chain of the edge-key computation: for each previous-location
/// slot in order, read it and fold it into the key.
pub open spec fn xor_chain(prev: Seq<u32>) -> Seq<InstrV>
    decreases prev.len(),
{
    if prev.len() == 0 {
        Seq::empty()
    } else {
        xor_chain(prev.drop_last()) + seq![
            InstrV::GlobalGet(prev.last()),
            InstrV::I32Xor,
        ]
    }
}

/// The history shift of the edge-key computation, from slot `i` down to
/// slot 1: each slot takes the previous slot's value shifted right once.
pub open spec fn shift_chain_from(prev: Seq<u32>, i: int) -> Seq<InstrV>
    decreases i,
{
    if i < 1 {
        Seq::empty()
    } else {
        seq![
            InstrV::GlobalGet(prev[i - 1]),
            InstrV::I32Const(1),
            InstrV::I32ShrU,
            InstrV::GlobalSet(prev[i]),
        ] + shift_chain_from(prev, i - 1)
    }
}

/// The body of the edge-recording helper: fold the current location and
/// every previous location into a key, bump the byte at that key, shift
/// the history, and record the current location.
pub open spec fn helper_body(prev: Seq<u32>, mem_ptr: u32) -> Seq<InstrV> {
    seq![InstrV::LocalGet(0)] + xor_chain(prev) + seq![
        InstrV::GlobalGet(mem_ptr),
        InstrV::I32Add,
        InstrV::LocalTee(1),
        InstrV::LocalGet(1),
        InstrV::I32Load8U,
        InstrV::I32Const(1),
        InstrV::I32Add,
        InstrV::I32Store8,
    ] + shift_chain_from(prev, prev.len() - 1) + seq![
        InstrV::LocalGet(0),
        InstrV::I32Const(1),
        InstrV::I32ShrU,
        InstrV::GlobalSet(prev[0]),
        InstrV::End,
    ]
}

/// Builds the helper body for the given previous-location slots and
/// buffer base.
fn build_helper_body(prev_ids: &Vec<u32>, mem_ptr: u32) -> (r: Vec<Instr>)
    requires
        prev_ids@.len() >= 1,
    ensures
        r@.map_values(|x: Instr| x@) =~= helper_body(prev_ids@, mem_ptr),
{
    let h = prev_ids.len();
    let mut out: Vec<Instr> = Vec::new();
    out.push(Instr::LocalGet(0));
    let mut i: usize = 0;
    while i < h
        invariant
            i <= h,
            h == prev_ids@.len(),
            out@.map_values(|x: Instr| x@) =~= seq![InstrV::LocalGet(0u32)] + xor_chain(
                prev_ids@.subrange(0, i as int),
            ),
        decreases h - i,
    {
        let ghost pre = out@.map_values(|x: Instr| x@);
        out.push(Instr::GlobalGet(prev_ids[i]));
        out.push(Instr::I32Xor);
        proof {
            let sub1 = prev_ids@.subrange(0, i + 1);
            assert(sub1.drop_last() =~= prev_ids@.subrange(0, i as int));
            assert(sub1.drop_last() == prev_ids@.subrange(0, i as int));
            assert(sub1.last() == prev_ids@[i as int]);
            assert(xor_chain(sub1) == xor_chain(prev_ids@.subrange(0, i as int)) + seq![
                InstrV::GlobalGet(prev_ids@[i as int]),
                InstrV::I32Xor,
            ]);
            assert(out@.map_values(|x: Instr| x@) =~= pre + seq![
                InstrV::GlobalGet(prev_ids@[i as int]),
                InstrV::I32Xor,
            ]);
            assert(out@.map_values(|x: Instr| x@) =~= seq![InstrV::LocalGet(0u32)] + xor_chain(
                sub1,
            ));
        }
        i = i + 1;
    }
    proof {
        assert(prev_ids@.subrange(0, h as int) =~= prev_ids@);
        assert(prev_ids@.subrange(0, h as int) == prev_ids@);
    }
    out.push(Instr::GlobalGet(mem_ptr));
    out.push(Instr::I32Add);
    out.push(Instr::LocalTee(1));
    out.push(Instr::LocalGet(1));
    out.push(Instr::I32Load8U);
    out.push(Instr::I32Const(1));
    out.push(Instr::I32Add);
    out.push(Instr::I32Store8);
    let ghost mid = seq![InstrV::LocalGet(0u32)] + xor_chain(prev_ids@) + seq![
        InstrV::GlobalGet(mem_ptr),
        InstrV::I32Add,
        InstrV::LocalTee(1u32),
        InstrV::LocalGet(1u32),
        InstrV::I32Load8U,
        InstrV::I32Const(1i32),
        InstrV::I32Add,
        InstrV::I32Store8,
    ];
    proof {
        assert(out@.map_values(|x: Instr| x@) =~= mid);
    }
    let mut k: usize = h - 1;
    while k >= 1
        invariant
            k <= h - 1,
            h == prev_ids@.len(),
            h >= 1,
            mid + shift_chain_from(prev_ids@, h - 1) =~= out@.map_values(|x: Instr| x@)
                + shift_chain_from(prev_ids@, k as int),
        decreases k,
    {
        let ghost pre = out@.map_values(|x: Instr| x@);
        out.push(Instr::GlobalGet(prev_ids[k - 1]));
        out.push(Instr::I32Const(1));
        out.push(Instr::I32ShrU);
        out.push(Instr::GlobalSet(prev_ids[k]));
        proof {
            assert(shift_chain_from(prev_ids@, k as int) == seq![
                InstrV::GlobalGet(prev_ids@[k - 1]),
                InstrV::I32Const(1i32),
                InstrV::I32ShrU,
                InstrV::GlobalSet(prev_ids@[k as int]),
            ] + shift_chain_from(prev_ids@, k - 1));
            assert(out@.map_values(|x: Instr| x@) =~= pre + seq![
                InstrV::GlobalGet(prev_ids@[k - 1]),
                InstrV::I32Const(1i32),
                InstrV::I32ShrU,
                InstrV::GlobalSet(prev_ids@[k as int]),
            ]);
            assert(mid + shift_chain_from(prev_ids@, h - 1) =~= out@.map_values(|x: Instr| x@)
                + shift_chain_from(prev_ids@, k - 1));
        }
        k = k - 1;
    }
    proof {
        assert(out@.map_values(|x: Instr| x@) =~= mid + shift_chain_from(prev_ids@, h - 1));
    }
    out.push(Instr::LocalGet(0));
    out.push(Instr::I32Const(1));
    out.push(Instr::I32ShrU);
    out.push(Instr::GlobalSet(prev_ids[0]));
    out.push(Instr::End);
    proof {
        assert(out@.map_values(|x: Instr| x@) =~= helper_body(prev_ids@, mem_ptr));
    }
    out
}

/// The length of the shift chain from slot `i`: four instructions per
/// slot.
proof fn lemma_shift_chain_len(prev: Seq<u32>, i: int)
    ensures
        i >= 0 ==> shift_chain_from(prev, i).len() == 4 * i,
        i < 1 ==> shift_chain_from(prev, i).len() == 0,
    decreases i,
{
    if i >= 1 {
        lemma_shift_chain_len(prev, i - 1);
    }
}

/// The body of the coverage-export entry point: stream the whole map to
/// the caller, reply, and zero the map.
pub open spec fn coverage_body(mem_ptr: u32, map_len: i32, data_append: u32, reply: u32) -> Seq<
    InstrV,
> {
    seq![
        InstrV::GlobalGet(mem_ptr),
        InstrV::I32Const(map_len),
        InstrV::Call(data_append),
        InstrV::Call(reply),
        InstrV::GlobalGet(mem_ptr),
        InstrV::I32Const(0),
        InstrV::I32Const(map_len),
        InstrV::MemoryFill,
        InstrV::End,
    ]
}

/// Builds the coverage-export body.
fn build_coverage_body(mem_ptr: u32, map_len: i32, data_append: u32, reply: u32) -> (r: Vec<
    Instr,
>)
    ensures
        r@.map_values(|x: Instr| x@) =~= coverage_body(mem_ptr, map_len, data_append, reply),
{
    let mut out: Vec<Instr> = Vec::new();
    out.push(Instr::GlobalGet(mem_ptr));
    out.push(Instr::I32Const(map_len));
    out.push(Instr::Call(data_append));
    out.push(Instr::Call(reply));
    out.push(Instr::GlobalGet(mem_ptr));
    out.push(Instr::I32Const(0));
    out.push(Instr::I32Const(map_len));
    out.push(Instr::MemoryFill);
    out.push(Instr::End);
    proof {
        assert(out@.map_values(|x: Instr| x@) =~= coverage_body(
            mem_ptr,
            map_len,
            data_append,
            reply,
        ));
    }
    out
}

/// The module after making sure both host imports are present, and their
/// function indices: `ic0.msg_reply_data_append: (i32, i32) -> ()` first,
/// then `ic0.msg_reply: () -> ()`.
pub open spec fn ensure_ic0_imports_spec(m: ModuleV) -> (ModuleV, int, int) {
    let da = ensure_import_spec(
        m,
        crate::API_VERSION_IC0@,
        "msg_reply_data_append"@,
        seq![ValType::I32, ValType::I32],
        Seq::empty(),
    );
    let rp = ensure_import_spec(
        da.0,
        crate::API_VERSION_IC0@,
        "msg_reply"@,
        Seq::empty(),
        Seq::empty(),
    );
    (rp.0, da.1, rp.1)
}

/// `ensure_import_spec` keeps the module well formed, touches no global
/// and no function body beyond call renumbering, and returns an index
/// inside the new function index space.
pub proof fn lemma_ensure_import_wf(
    m: ModuleV,
    module: Seq<char>,
    name: Seq<char>,
    params: Seq<ValType>,
    results: Seq<ValType>,
)
    requires
        module_wf(m),
        m.types.len() + 1 <= u32::MAX,
        m.func_count() + 1 <= u32::MAX,
    ensures
        module_wf(ensure_import_spec(m, module, name, params, results).0),
        0 <= ensure_import_spec(m, module, name, params, results).1 < ensure_import_spec(
            m,
            module,
            name,
            params,
            results,
        ).0.imports.len(),
        ensure_import_spec(m, module, name, params, results).0.funcs.len() == m.funcs.len(),
        ensure_import_spec(m, module, name, params, results).0.imports.len() <= m.imports.len()
            + 1,
        ensure_import_spec(m, module, name, params, results).0.types.len() <= m.types.len() + 1,
        ensure_import_spec(m, module, name, params, results).0.globals == m.globals,
{
    let r = ensure_import_spec(m, module, name, params, results);
    lemma_find_import_in_range(m.imports, module, name, 0);
    match find_import_from(m.imports, module, name, 0) {
        Option::Some(i) => {},
        Option::None => {
            let mv = r.0;
            let t = m.imports.len() as int;
            lemma_find_type_in_range(m.types, params, results, 0);
            assert(mv.imports.len() == m.imports.len() + 1);
            assert(mv.funcs.len() == m.funcs.len());
            assert(mv.func_count() == m.func_count() + 1);
            assert forall|i: int| 0 <= i < mv.imports.len() implies (
            #[trigger] mv.imports[i]).type_idx < mv.types.len() by {
                if i < m.imports.len() {
                    assert(mv.imports[i] == m.imports[i]);
                    assert(m.imports[i].type_idx < m.types.len());
                    assert(m.types.len() <= mv.types.len());
                }
            }
            assert forall|i: int| 0 <= i < mv.funcs.len() implies (
            #[trigger] mv.funcs[i]).type_idx < mv.types.len() by {
                assert(mv.funcs[i] == bump_func(m.funcs[i], t));
                assert(m.funcs[i].type_idx < m.types.len());
            }
            assert forall|i: int| 0 <= i < mv.funcs.len() implies crate::wasm::func_body_ok(
                mv,
                #[trigger] mv.funcs[i],
            ) by {
                let f0 = m.funcs[i];
                let f1 = mv.funcs[i];
                assert(f1 == bump_func(f0, t));
                assert(crate::wasm::func_body_ok(m, f0));
                assert(crate::wasm::func_local_count(mv, f1) == crate::wasm::func_local_count(
                    m,
                    f0,
                ));
                assert forall|j: int| 0 <= j < f1.body.len() implies {
                    &&& crate::wasm::instr_funcs_ok(#[trigger] f1.body[j], mv.func_count())
                    &&& crate::wasm::instr_globals_ok(f1.body[j], mv.globals.len() as int)
                    &&& crate::wasm::instr_locals_ok(
                        f1.body[j],
                        crate::wasm::func_local_count(mv, f1),
                    )
                } by {
                    assert(f1.body[j] == bump_instr(f0.body[j], t));
                    assert(crate::wasm::instr_funcs_ok(f0.body[j], m.func_count()));
                    assert(crate::wasm::instr_globals_ok(f0.body[j], m.globals.len() as int));
                    assert(crate::wasm::instr_locals_ok(
                        f0.body[j],
                        crate::wasm::func_local_count(m, f0),
                    ));
                }
            }
            assert forall|i: int| 0 <= i < mv.exports.len() implies (
            #[trigger] mv.exports[i]).index < mv.func_count() by {
                assert(mv.exports[i] == bump_export(m.exports[i], t));
                assert(m.exports[i].index < m.func_count());
            }
        },
    }
}

/// A found type index is inside the type table.
proof fn lemma_find_type_in_range(
    types: Seq<TypeV>,
    params: Seq<ValType>,
    results: Seq<ValType>,
    i: int,
)
    ensures
        match find_type_from(types, params, results, i) {
            Option::Some(j) => i <= j < types.len() && type_matches(types[j], params, results),
            Option::None => true,
        },
    decreases types.len() - i,
{
    if 0 <= i < types.len() && !type_matches(types[i], params, results) {
        lemma_find_type_in_range(types, params, results, i + 1);
    }
}

/// Makes sure the two host imports the coverage-export entry needs are
/// present and returns their function indices:
/// `ic0.msg_reply_data_append` and `ic0.msg_reply`.
pub fn ensure_ic0_imports(m: &mut WasmModule) -> (r: (u32, u32))
    requires
        module_wf(old(m)@),
        old(m)@.types.len() + 2 <= u32::MAX,
        old(m)@.func_count() + 2 <= u32::MAX,
    ensures
        final(m)@ == ensure_ic0_imports_spec(old(m)@).0,
        r.0 as int == ensure_ic0_imports_spec(old(m)@).1,
        r.1 as int == ensure_ic0_imports_spec(old(m)@).2,
        module_wf(final(m)@),
        final(m)@.funcs.len() == old(m)@.funcs.len(),
        final(m)@.types.len() <= old(m)@.types.len() + 2,
        final(m)@.imports.len() <= old(m)@.imports.len() + 2,
        final(m)@.globals == old(m)@.globals,
{
    let ghost m0 = m@;
    proof {
        lemma_ensure_import_wf(
            m0,
            crate::API_VERSION_IC0@,
            "msg_reply_data_append"@,
            seq![ValType::I32, ValType::I32],
            Seq::empty(),
        );
    }
    let mut params_da: Vec<ValType> = Vec::new();
    params_da.push(ValType::I32);
    params_da.push(ValType::I32);
    let results_da: Vec<ValType> = Vec::new();
    proof {
        assert(params_da@ =~= seq![ValType::I32, ValType::I32]);
        assert(results_da@ =~= Seq::<ValType>::empty());
    }
    let da = m.ensure_func_import(
        crate::API_VERSION_IC0,
        "msg_reply_data_append",
        params_da,
        results_da,
    );
    let ghost m1 = m@;
    proof {
        lemma_ensure_import_wf(
            m1,
            crate::API_VERSION_IC0@,
            "msg_reply"@,
            Seq::empty(),
            Seq::empty(),
        );
    }
    let params_rp: Vec<ValType> = Vec::new();
    let results_rp: Vec<ValType> = Vec::new();
    proof {
        assert(params_rp@ =~= Seq::<ValType>::empty());
        assert(results_rp@ =~= Seq::<ValType>::empty());
    }
    let rp = m.ensure_func_import(crate::API_VERSION_IC0, "msg_reply", params_rp, results_rp);
    (da, rp)
}

/// Is this the opening of a control structure? The edge record goes
/// right after it, inside the new scope.
pub open spec fn is_cf_open(x: InstrV) -> bool {
    x is Block || x is Loop || x is If || x is Else
}

/// Is this a branch or return? The edge record goes right before it.
pub open spec fn is_branch(x: InstrV) -> bool {
    x is Br || x is BrIf || x is BrTable || x is Return
}

/// Does this instruction get an edge record of its own?
pub open spec fn is_site(x: InstrV) -> bool {
    is_cf_open(x) || is_branch(x)
}

/// How many instrumentation sites a body holds.
pub open spec fn site_count(b: Seq<InstrV>) -> nat
    decreases b.len(),
{
    if b.len() == 0 {
        0
    } else {
        site_count(b.drop_last()) + if is_site(b.last()) {
            1nat
        } else {
            0nat
        }
    }
}

/// How many edge constants instrumenting a body consumes: one for the
/// function entry and one per site.
pub open spec fn consts_needed(b: Seq<InstrV>) -> nat {
    1 + site_count(b)
}

/// The instrumentation around one instruction, with the edge constant at
/// stream position `pos`: a control opening is followed by its record, a
/// branch is preceded by its record, anything else is copied through.
pub open spec fn instr_step(x: InstrV, seed: u64, bound: i32, pos: int, helper: u32) -> Seq<
    InstrV,
> {
    if is_cf_open(x) {
        seq![x, InstrV::I32Const(edge_constant(seed, bound, pos as nat)), InstrV::Call(helper)]
    } else if is_branch(x) {
        seq![InstrV::I32Const(edge_constant(seed, bound, pos as nat)), InstrV::Call(helper), x]
    } else {
        seq![x]
    }
}

/// A body's instructions with every site instrumented, the sites
/// consuming stream positions `off`, `off + 1`, ... in order.
pub open spec fn instrument_instrs(
    b: Seq<InstrV>,
    seed: u64,
    bound: i32,
    off: int,
    helper: u32,
) -> Seq<InstrV>
    decreases b.len(),
{
    if b.len() == 0 {
        Seq::empty()
    } else {
        instrument_instrs(b.drop_last(), seed, bound, off, helper) + instr_step(
            b.last(),
            seed,
            bound,
            off + site_count(b.drop_last()),
            helper,
        )
    }
}

/// A whole instrumented body: the function-entry record, then the
/// instrumented instructions.
pub open spec fn instrumented_body(
    b: Seq<InstrV>,
    seed: u64,
    bound: i32,
    off: int,
    helper: u32,
) -> Seq<InstrV> {
    seq![
        InstrV::I32Const(edge_constant(seed, bound, off as nat)),
        InstrV::Call(helper),
    ] + instrument_instrs(b, seed, bound, off + 1, helper)
}

/// Site counts grow along prefixes.
proof fn lemma_site_count_prefix(b: Seq<InstrV>, i: int)
    requires
        0 <= i <= b.len(),
    ensures
        site_count(b.subrange(0, i)) <= site_count(b),
    decreases b.len() - i,
{
    if i < b.len() {
        assert(b.subrange(0, i + 1).drop_last() =~= b.subrange(0, i));
        assert(b.subrange(0, i + 1).drop_last() == b.subrange(0, i));
        lemma_site_count_prefix(b, i + 1);
    } else {
        assert(b.subrange(0, i) =~= b);
        assert(b.subrange(0, i) == b);
    }
}

/// Instruments one body, drawing its edge constants from the stream in
/// order: one draw for the entry record, one per site.
fn instrument_one_body(body: &Vec<Instr>, stream: &mut EdgeStream, helper: u32) -> (r: Vec<Instr>)
    requires
        1 <= old(stream).bound(),
        old(stream).drawn() + consts_needed(body@.map_values(|x: Instr| x@)) <= u64::MAX,
    ensures
        final(stream).seed() == old(stream).seed(),
        final(stream).bound() == old(stream).bound(),
        final(stream).drawn() == old(stream).drawn() + consts_needed(
            body@.map_values(|x: Instr| x@),
        ),
        forall|k: int|
            old(stream).drawn() <= k < final(stream).drawn() ==> 0 <= #[trigger] edge_constant(
                old(stream).seed(),
                old(stream).bound(),
                k as nat,
            ) < old(stream).bound(),
        r@.map_values(|x: Instr| x@) =~= instrumented_body(
            body@.map_values(|x: Instr| x@),
            old(stream).seed(),
            old(stream).bound(),
            old(stream).drawn() as int,
            helper,
        ),
{
    let ghost bv = body@.map_values(|x: Instr| x@);
    let ghost off = old(stream).drawn() as int;
    let mut out: Vec<Instr> = Vec::new();
    let c0 = stream.next_value();
    out.push(Instr::I32Const(c0));
    out.push(Instr::Call(helper));
    let mut j: usize = 0;
    while j < body.len()
        invariant
            j <= body@.len(),
            bv == body@.map_values(|x: Instr| x@),
            bv.len() == body@.len(),
            1 <= stream.bound(),
            stream.seed() == old(stream).seed(),
            stream.bound() == old(stream).bound(),
            off == old(stream).drawn(),
            off + consts_needed(bv) <= u64::MAX,
            stream.drawn() == off + 1 + site_count(bv.subrange(0, j as int)),
            forall|k: int|
                off <= k < stream.drawn() ==> 0 <= #[trigger] edge_constant(
                    old(stream).seed(),
                    old(stream).bound(),
                    k as nat,
                ) < old(stream).bound(),
            out@.map_values(|x: Instr| x@) =~= seq![
                InstrV::I32Const(edge_constant(stream.seed(), stream.bound(), off as nat)),
                InstrV::Call(helper),
            ] + instrument_instrs(bv.subrange(0, j as int), stream.seed(), stream.bound(), off + 1, helper),
        decreases body@.len() - j,
    {
        proof {
            assert(bv[j as int] == body@[j as int]@);
            lemma_site_count_prefix(bv, j + 1);
            assert(bv.subrange(0, j + 1).drop_last() =~= bv.subrange(0, j as int));
            assert(bv.subrange(0, j + 1).drop_last() == bv.subrange(0, j as int));
            assert(bv.subrange(0, j + 1).last() == bv[j as int]);
        }
        let ghost pre = out@.map_values(|x: Instr| x@);
        let ghost pos = off + 1 + site_count(bv.subrange(0, j as int));
        let x = &body[j];
        let site = match x {
            Instr::Block(_) => true,
            Instr::Loop(_) => true,
            Instr::If(_) => true,
            Instr::Else => true,
            Instr::Br(_) => true,
            Instr::BrIf(_) => true,
            Instr::BrTable(_, _) => true,
            Instr::Return => true,
            _ => false,
        };
        proof {
            assert(site == is_site(bv[j as int]));
        }
        if site {
            let open_cf = match x {
                Instr::Block(_) => true,
                Instr::Loop(_) => true,
                Instr::If(_) => true,
                Instr::Else => true,
                _ => false,
            };
            proof {
                assert(open_cf == is_cf_open(bv[j as int]));
            }
            if open_cf {
                out.push(x.clone());
                let c = stream.next_value();
                out.push(Instr::I32Const(c));
                out.push(Instr::Call(helper));
            } else {
                let c = stream.next_value();
                out.push(Instr::I32Const(c));
                out.push(Instr::Call(helper));
                out.push(x.clone());
            }
        } else {
            out.push(x.clone());
        }
        proof {
            assert(out@.map_values(|q: Instr| q@) =~= pre + instr_step(
                bv[j as int],
                stream.seed(),
                stream.bound(),
                pos,
                helper,
            ));
            assert(instrument_instrs(
                bv.subrange(0, j + 1),
                stream.seed(),
                stream.bound(),
                off + 1,
                helper,
            ) == instrument_instrs(
                bv.subrange(0, j as int),
                stream.seed(),
                stream.bound(),
                off + 1,
                helper,
            ) + instr_step(bv[j as int], stream.seed(), stream.bound(), pos, helper));
            assert(out@.map_values(|q: Instr| q@) =~= seq![
                InstrV::I32Const(edge_constant(stream.seed(), stream.bound(), off as nat)),
                InstrV::Call(helper),
            ] + instrument_instrs(
                bv.subrange(0, j + 1),
                stream.seed(),
                stream.bound(),
                off + 1,
                helper,
            ));
        }
        j = j + 1;
    }
    proof {
        assert(bv.subrange(0, bv.len() as int) =~= bv);
        assert(bv.subrange(0, bv.len() as int) == bv);
    }
    out
}

/// A copy of an instruction sequence, view for view.
fn copy_body(body: &Vec<Instr>) -> (r: Vec<Instr>)
    ensures
        r@.map_values(|x: Instr| x@) =~= body@.map_values(|x: Instr| x@),
{
    let mut out: Vec<Instr> = Vec::new();
    let mut i: usize = 0;
    while i < body.len()
        invariant
            i <= body@.len(),
            out@.len() == i,
            forall|t: int| 0 <= t < i ==> (#[trigger] out@[t])@ == body@[t]@,
        decreases body@.len() - i,
    {
        out.push(body[i].clone());
        i = i + 1;
    }
    out
}

/// Creates and appends the edge-recording helper and returns its
/// function index. The helper takes the current location, folds it with
/// the previous locations into a key, bumps the counter byte at that
/// key, and shifts the history.
pub fn afl_instrumentation_slice(
    m: &mut WasmModule,
    afl_prev_loc_indices: &Vec<u32>,
    afl_mem_ptr_idx: u32,
) -> (r: u32)
    requires
        old(m)@.types.len() + 1 <= u32::MAX,
        old(m)@.func_count() + 1 <= u32::MAX,
        afl_prev_loc_indices@.len() >= 1,
    ensures
        final(m)@ == helper_spec(old(m)@, afl_prev_loc_indices@, afl_mem_ptr_idx).0,
        r as int == helper_spec(old(m)@, afl_prev_loc_indices@, afl_mem_ptr_idx).1,
{
    let body = build_helper_body(afl_prev_loc_indices, afl_mem_ptr_idx);
    let mut params: Vec<ValType> = Vec::new();
    params.push(ValType::I32);
    let results: Vec<ValType> = Vec::new();
    let mut locals: Vec<ValType> = Vec::new();
    locals.push(ValType::I32);
    proof {
        assert(params@ =~= seq![ValType::I32]);
        assert(results@ =~= Seq::<ValType>::empty());
        assert(locals@ =~= seq![ValType::I32]);
        assert(body@.map_values(|x: Instr| x@) == helper_body(
            afl_prev_loc_indices@,
            afl_mem_ptr_idx,
        ));
    }
    m.add_local_func(params, results, locals, body)
}

/// The module after appending the edge-recording helper, and the
/// helper's function index.
pub open spec fn helper_spec(m: ModuleV, prev: Seq<u32>, mem_ptr: u32) -> (ModuleV, int) {
    add_local_func_spec(
        m,
        seq![ValType::I32],
        Seq::empty(),
        seq![ValType::I32],
        helper_body(prev, mem_ptr),
    )
}

/// How many edge constants instrumenting these functions consumes.
pub open spec fn total_consts(funcs: Seq<FuncV>) -> nat
    decreases funcs.len(),
{
    if funcs.len() == 0 {
        0
    } else {
        total_consts(funcs.drop_last()) + consts_needed(funcs.last().body)
    }
}

/// Totals grow along prefixes.
proof fn lemma_total_consts_prefix(funcs: Seq<FuncV>, i: int)
    requires
        0 <= i <= funcs.len(),
    ensures
        total_consts(funcs.subrange(0, i)) <= total_consts(funcs),
    decreases funcs.len() - i,
{
    if i < funcs.len() {
        assert(funcs.subrange(0, i + 1).drop_last() =~= funcs.subrange(0, i));
        assert(funcs.subrange(0, i + 1).drop_last() == funcs.subrange(0, i));
        lemma_total_consts_prefix(funcs, i + 1);
    } else {
        assert(funcs.subrange(0, i) =~= funcs);
        assert(funcs.subrange(0, i) == funcs);
    }
}

/// These functions instrumented in order, their edge constants taken
/// from consecutive stream positions starting at zero.
pub open spec fn instrument_funcs(funcs: Seq<FuncV>, seed: u64, bound: i32, helper: u32) -> Seq<
    FuncV,
>
    decreases funcs.len(),
{
    if funcs.len() == 0 {
        Seq::empty()
    } else {
        instrument_funcs(funcs.drop_last(), seed, bound, helper) + seq![
            FuncV {
                type_idx: funcs.last().type_idx,
                locals: funcs.last().locals,
                body: instrumented_body(
                    funcs.last().body,
                    seed,
                    bound,
                    total_consts(funcs.drop_last()) as int,
                    helper,
                ),
            },
        ]
    }
}

/// The module after branch instrumentation under seed value `seed`: the
/// helper is appended, and every other local function's body becomes its
/// instrumented form.
pub open spec fn instrument_branches_spec(
    m: ModuleV,
    prev: Seq<u32>,
    mem_ptr: u32,
    seed: u32,
) -> ModuleV {
    let a = helper_spec(m, prev, mem_ptr);
    let bound = (AFL_COVERAGE_MAP_SIZE * prev.len()) as i32;
    ModuleV {
        types: a.0.types,
        imports: a.0.imports,
        funcs: instrument_funcs(m.funcs, seed as u64, bound, a.1 as u32) + seq![
            a.0.funcs.last(),
        ],
        globals: a.0.globals,
        exports: a.0.exports,
    }
}

/// Instruments every local function for coverage: appends the
/// edge-recording helper, then gives every other function an entry
/// record and a record at every control opening and every branch, the
/// edge constants drawn from a stream seeded by the given policy.
pub fn instrument_branches(
    m: &mut WasmModule,
    afl_prev_loc_indices: &Vec<u32>,
    afl_mem_ptr_idx: u32,
    seed: Seed,
)
    requires
        old(m)@.types.len() + 1 <= u32::MAX,
        old(m)@.func_count() + 1 <= u32::MAX,
        1 <= afl_prev_loc_indices@.len() <= 8,
        total_consts(old(m)@.funcs) <= u64::MAX,
    ensures
        match seed {
            Seed::Static(s) => final(m)@ == instrument_branches_spec(
                old(m)@,
                afl_prev_loc_indices@,
                afl_mem_ptr_idx,
                s,
            ) && (forall|k: int|
                0 <= k < total_consts(old(m)@.funcs) ==> 0 <= #[trigger] edge_constant(
                    s as u64,
                    (AFL_COVERAGE_MAP_SIZE * afl_prev_loc_indices@.len()) as i32,
                    k as nat,
                ) < (AFL_COVERAGE_MAP_SIZE * afl_prev_loc_indices@.len()) as i32),
            Seed::Random => exists|s: u32|
                final(m)@ == instrument_branches_spec(
                    old(m)@,
                    afl_prev_loc_indices@,
                    afl_mem_ptr_idx,
                    s,
                ) && (forall|k: int|
                    0 <= k < total_consts(old(m)@.funcs) ==> 0 <= #[trigger] edge_constant(
                        s as u64,
                        (AFL_COVERAGE_MAP_SIZE * afl_prev_loc_indices@.len()) as i32,
                        k as nat,
                    ) < (AFL_COVERAGE_MAP_SIZE * afl_prev_loc_indices@.len()) as i32),
        },
{
    let ghost m0 = m@;
    let helper_idx = afl_instrumentation_slice(m, afl_prev_loc_indices, afl_mem_ptr_idx);
    let seed_value: u32 = match seed {
        Seed::Random => os_random_seed(),
        Seed::Static(s) => s,
    };
    let bound: i32 = AFL_COVERAGE_MAP_SIZE * (afl_prev_loc_indices.len() as i32);
    let mut stream = EdgeStream::new(seed_value as u64, bound);
    let n = m.funcs.len();
    let ghost fv0 = m0.funcs;
    proof {
        assert(m@.funcs =~= fv0 + seq![helper_spec(m0, afl_prev_loc_indices@, afl_mem_ptr_idx).0.funcs.last()]);
        assert(m@.funcs.len() == fv0.len() + 1);
        assert(fv0.subrange(0, 0) =~= Seq::<FuncV>::empty());
        lemma_instrument_funcs_len(fv0, seed_value as u64, bound, helper_idx);
    }
    let mut new_funcs: Vec<LocalFunc> = Vec::new();
    let mut i: usize = 0;
    while i < n - 1
        invariant
            n == m.funcs@.len(),
            n >= 1,
            i <= n - 1,
            m@.funcs.len() == n,
            fv0.len() == n - 1,
            forall|t: int| 0 <= t < n - 1 ==> (#[trigger] m@.funcs[t]) == fv0[t],
            1 <= stream.bound(),
            stream.seed() == seed_value as u64,
            stream.bound() == bound,
            stream.drawn() == total_consts(fv0.subrange(0, i as int)),
            total_consts(fv0) <= u64::MAX,
            forall|k: int|
                0 <= k < stream.drawn() ==> 0 <= #[trigger] edge_constant(
                    seed_value as u64,
                    bound,
                    k as nat,
                ) < bound,
            new_funcs@.len() == i,
            forall|t: int|
                0 <= t < i ==> (#[trigger] new_funcs@[t])@ == instrument_funcs(
                    fv0,
                    seed_value as u64,
                    bound,
                    helper_idx,
                )[t],
            instrument_funcs(fv0, seed_value as u64, bound, helper_idx).len() == fv0.len(),
        decreases n - 1 - i,
    {
        proof {
            assert(m@.funcs[i as int] == fv0[i as int]);
            assert(m@.funcs[i as int] == (m.funcs@[i as int])@);
            lemma_total_consts_prefix(fv0, i + 1);
            assert(fv0.subrange(0, i + 1).drop_last() =~= fv0.subrange(0, i as int));
            assert(fv0.subrange(0, i + 1).drop_last() == fv0.subrange(0, i as int));
            assert(fv0.subrange(0, i + 1).last() == fv0[i as int]);
        }
        let f = &m.funcs[i];
        let body2 = instrument_one_body(&f.body, &mut stream, helper_idx);
        let locals2 = valtypes_copy(&f.locals);
        new_funcs.push(LocalFunc { type_idx: f.type_idx, locals: locals2, body: body2 });
        proof {
            lemma_instrument_funcs_index(fv0, seed_value as u64, bound, helper_idx, i as int);
            assert((new_funcs@[i as int])@ =~= instrument_funcs(
                fv0,
                seed_value as u64,
                bound,
                helper_idx,
            )[i as int]);
        }
        i = i + 1;
    }
    let helper_copy = {
        let hf = &m.funcs[n - 1];
        let body_copy = copy_body(&hf.body);
        let locals_copy = valtypes_copy(&hf.locals);
        LocalFunc { type_idx: hf.type_idx, locals: locals_copy, body: body_copy }
    };
    new_funcs.push(helper_copy);
    let ghost target = instrument_branches_spec(m0, afl_prev_loc_indices@, afl_mem_ptr_idx, seed_value);
    proof {
        assert((new_funcs@[n - 1])@ =~= m@.funcs[n - 1]);
    }
    m.funcs = new_funcs;
    proof {
        assert(fv0.subrange(0, fv0.len() as int) =~= fv0);
        assert(fv0.subrange(0, fv0.len() as int) == fv0);
        assert(bound == (AFL_COVERAGE_MAP_SIZE * afl_prev_loc_indices@.len()) as i32);
        assert forall|t: int| 0 <= t < n implies #[trigger] target.funcs[t] == m@.funcs[t] by {
            assert(m@.funcs[t] == (m.funcs@[t])@);
        }
        assert(m@.funcs =~= target.funcs);
        assert(m@ =~= target);
    }
}

/// One entry of the instrumented function list: the function at `i`
/// with its instrumented body, its constants starting after those of the
/// earlier functions.
proof fn lemma_instrument_funcs_index(funcs: Seq<FuncV>, seed: u64, bound: i32, helper: u32, i: int)
    requires
        0 <= i < funcs.len(),
    ensures
        instrument_funcs(funcs, seed, bound, helper).len() == funcs.len(),
        instrument_funcs(funcs, seed, bound, helper)[i] == (FuncV {
            type_idx: funcs[i].type_idx,
            locals: funcs[i].locals,
            body: instrumented_body(
                funcs[i].body,
                seed,
                bound,
                total_consts(funcs.subrange(0, i)) as int,
                helper,
            ),
        }),
    decreases funcs.len(),
{
    lemma_instrument_funcs_len(funcs, seed, bound, helper);
    if i == funcs.len() - 1 {
        assert(funcs.subrange(0, i) =~= funcs.drop_last());
        assert(funcs.subrange(0, i) == funcs.drop_last());
    } else {
        lemma_instrument_funcs_index(funcs.drop_last(), seed, bound, helper, i);
        assert(funcs.drop_last()[i] == funcs[i]);
        assert(funcs.drop_last().subrange(0, i) =~= funcs.subrange(0, i));
        assert(funcs.drop_last().subrange(0, i) == funcs.subrange(0, i));
        lemma_instrument_funcs_len(funcs.drop_last(), seed, bound, helper);
    }
}

/// Instrumentation keeps the number of functions.
proof fn lemma_instrument_funcs_len(funcs: Seq<FuncV>, seed: u64, bound: i32, helper: u32)
    ensures
        instrument_funcs(funcs, seed, bound, helper).len() == funcs.len(),
    decreases funcs.len(),
{
    if funcs.len() > 0 {
        lemma_instrument_funcs_len(funcs.drop_last(), seed, bound, helper);
    }
}

/// The platform-visible name of the coverage-export entry point.
pub open spec fn coverage_export_name_spec() -> Seq<char> {
    "canister_update "@ + crate::COVERAGE_FN_EXPORT_NAME@
}

/// The module after injecting the coverage-export entry point: both host
/// imports ensured, a function appended that streams the map and zeroes
/// it, and that function exported under the platform-visible name.
pub open spec fn inject_coverage_export_spec(m: ModuleV, h: nat, mem_ptr: u32) -> ModuleV {
    let e = ensure_ic0_imports_spec(m);
    let a = add_local_func_spec(
        e.0,
        Seq::empty(),
        Seq::empty(),
        Seq::empty(),
        coverage_body(mem_ptr, (AFL_COVERAGE_MAP_SIZE * h) as i32, e.1 as u32, e.2 as u32),
    );
    ModuleV {
        types: a.0.types,
        imports: a.0.imports,
        funcs: a.0.funcs,
        globals: a.0.globals,
        exports: a.0.exports + seq![
            ExportV { name: coverage_export_name_spec(), index: a.1 as u32 },
        ],
    }
}

/// Renumbering call targets does not change which instructions are
/// sites, so it keeps every count.
proof fn lemma_bump_keeps_sites(b: Seq<InstrV>, t: int)
    ensures
        site_count(bump_body(b, t)) == site_count(b),
        bump_body(b, t).len() == b.len(),
    decreases b.len(),
{
    if b.len() > 0 {
        lemma_bump_keeps_sites(b.drop_last(), t);
        assert(bump_body(b, t).drop_last() =~= bump_body(b.drop_last(), t));
        assert(bump_body(b, t).drop_last() == bump_body(b.drop_last(), t));
        assert(bump_body(b, t).last() == bump_instr(b.last(), t));
        assert(is_site(bump_instr(b.last(), t)) == is_site(b.last()));
    }
}

/// Renumbering call targets keeps the total constant count.
proof fn lemma_bump_keeps_total(funcs: Seq<FuncV>, t: int)
    ensures
        total_consts(funcs.map_values(|f: FuncV| bump_func(f, t))) == total_consts(funcs),
    decreases funcs.len(),
{
    let mapped = funcs.map_values(|f: FuncV| bump_func(f, t));
    if funcs.len() > 0 {
        lemma_bump_keeps_total(funcs.drop_last(), t);
        assert(mapped.drop_last() =~= funcs.drop_last().map_values(|f: FuncV| bump_func(f, t)));
        assert(mapped.drop_last() == funcs.drop_last().map_values(|f: FuncV| bump_func(f, t)));
        assert(mapped.last() == bump_func(funcs.last(), t));
        lemma_bump_keeps_sites(funcs.last().body, t);
    } else {
        assert(mapped =~= Seq::<FuncV>::empty());
    }
}

/// Making sure an import is present keeps the total constant count.
proof fn lemma_ensure_import_keeps_total(
    m: ModuleV,
    module: Seq<char>,
    name: Seq<char>,
    params: Seq<ValType>,
    results: Seq<ValType>,
)
    ensures
        total_consts(ensure_import_spec(m, module, name, params, results).0.funcs)
            == total_consts(m.funcs),
{
    match find_import_from(m.imports, module, name, 0) {
        Option::Some(i) => {},
        Option::None => {
            lemma_bump_keeps_total(m.funcs, m.imports.len() as int);
        },
    }
}

/// Appending a function adds its own constant count to the total.
proof fn lemma_total_consts_push(funcs: Seq<FuncV>, f: FuncV)
    ensures
        total_consts(funcs + seq![f]) == total_consts(funcs) + consts_needed(f.body),
{
    assert((funcs + seq![f]).drop_last() =~= funcs);
    assert((funcs + seq![f]).drop_last() == funcs);
    assert((funcs + seq![f]).last() == f);
}

/// Injects the coverage-export entry point: ensures the two host
/// imports, appends a function that streams `AFL_COVERAGE_MAP_SIZE *
/// history_size` bytes from the buffer base, replies, and zeroes the
/// buffer, and exports it under the platform-visible name.
pub fn inject_afl_coverage_export(m: &mut WasmModule, history_size: usize, afl_mem_ptr_idx: u32)
    requires
        module_wf(old(m)@),
        valid_history(history_size as nat),
        old(m)@.types.len() + 3 <= u32::MAX,
        old(m)@.func_count() + 3 <= u32::MAX,
    ensures
        final(m)@ == inject_coverage_export_spec(
            old(m)@,
            history_size as nat,
            afl_mem_ptr_idx,
        ),
        final(m)@.types.len() <= old(m)@.types.len() + 3,
        final(m)@.func_count() <= old(m)@.func_count() + 3,
        final(m)@.funcs.len() == old(m)@.funcs.len() + 1,
        final(m)@.globals == old(m)@.globals,
        total_consts(final(m)@.funcs) == total_consts(old(m)@.funcs) + 1,
{
    let ghost m0 = m@;
    let r = ensure_ic0_imports(m);
    let da = r.0;
    let rp = r.1;
    proof {
        lemma_ensure_import_keeps_total(
            m0,
            crate::API_VERSION_IC0@,
            "msg_reply_data_append"@,
            seq![ValType::I32, ValType::I32],
            Seq::empty(),
        );
        lemma_ensure_import_keeps_total(
            ensure_import_spec(
                m0,
                crate::API_VERSION_IC0@,
                "msg_reply_data_append"@,
                seq![ValType::I32, ValType::I32],
                Seq::empty(),
            ).0,
            crate::API_VERSION_IC0@,
            "msg_reply"@,
            Seq::empty(),
            Seq::empty(),
        );
    }
    let map_len: i32 = AFL_COVERAGE_MAP_SIZE * (history_size as i32);
    let body = build_coverage_body(afl_mem_ptr_idx, map_len, da, rp);
    let ghost m1 = m@;
    let empty_params: Vec<ValType> = Vec::new();
    let empty_results: Vec<ValType> = Vec::new();
    let empty_locals: Vec<ValType> = Vec::new();
    proof {
        assert(empty_params@ =~= Seq::<ValType>::empty());
        let e = ensure_ic0_imports_spec(m0);
        assert(da as int == e.1 && rp as int == e.2);
        assert(da == e.1 as u32 && rp == e.2 as u32);
        assert(body@.map_values(|x: Instr| x@) == coverage_body(
            afl_mem_ptr_idx,
            (AFL_COVERAGE_MAP_SIZE * (history_size as nat)) as i32,
            e.1 as u32,
            e.2 as u32,
        ));
    }
    let cov_idx = m.add_local_func(empty_params, empty_results, empty_locals, body);
    proof {
        lemma_total_consts_push(
            m1.funcs,
            m@.funcs.last(),
        );
        assert(m@.funcs =~= m1.funcs + seq![m@.funcs.last()]);
        assert(site_count(m@.funcs.last().body) == 0) by {
            reveal_with_fuel(site_count, 11);
        }
    }
    let mut export_name = "canister_update ".to_owned();
    export_name.append(crate::COVERAGE_FN_EXPORT_NAME);
    proof {
        assert(export_name@ == coverage_export_name_spec());
    }
    m.add_export(export_name, cov_idx);
    proof {
        let sp = inject_coverage_export_spec(m0, history_size as nat, afl_mem_ptr_idx);
        assert(m@.exports =~= sp.exports);
        assert(m@ =~= sp);
    }
}

/// The whole rewrite under seed value `seed`: globals injected, the
/// coverage-export entry added, every function instrumented.
pub open spec fn instrument_module_spec(m: ModuleV, h: nat, seed: u32) -> ModuleV {
    let g = ModuleV {
        types: m.types,
        imports: m.imports,
        funcs: m.funcs,
        globals: m.globals + injected_globals(h),
        exports: m.exports,
    };
    let prev = Seq::new(h, |i: int| (m.globals.len() + i) as u32);
    let mem_ptr = (m.globals.len() + h) as u32;
    let c = inject_coverage_export_spec(g, h, mem_ptr);
    instrument_branches_spec(c, prev, mem_ptr, seed)
}

/// The rewrite: injects the coverage globals, the coverage-export entry
/// point and the edge-recording helper, and instruments every function.
/// Returns `Err(FuzzError::InvalidHistory)`, leaving the module
/// untouched, exactly when the history size is not 1, 2, 4 or 8; under
/// `Seed::Static` the result is a function of the module, the history
/// size and the seed alone.
pub fn instrument_for_afl(m: &mut WasmModule, history_size: usize, seed: Seed) -> (r: Result<
    (),
    FuzzError,
>)
    requires
        module_wf(old(m)@),
        old(m)@.types.len() + 4 <= u32::MAX,
        old(m)@.func_count() + 4 <= u32::MAX,
        old(m)@.globals.len() + 9 <= u32::MAX,
        total_consts(old(m)@.funcs) + 1 <= u64::MAX,
    ensures
        r is Ok <==> valid_history(history_size as nat),
        !valid_history(history_size as nat) ==> r == Result::<(), FuzzError>::Err(
            FuzzError::InvalidHistory,
        ) && final(m)@ == old(m)@,
        valid_history(history_size as nat) ==> match seed {
            Seed::Static(s) => final(m)@ == instrument_module_spec(
                old(m)@,
                history_size as nat,
                s,
            ) && (forall|k: int|
                0 <= k < total_consts(old(m)@.funcs) + 1 ==> 0 <= #[trigger] edge_constant(
                    s as u64,
                    (AFL_COVERAGE_MAP_SIZE * history_size) as i32,
                    k as nat,
                ) < (AFL_COVERAGE_MAP_SIZE * history_size) as i32),
            Seed::Random => exists|s: u32|
                final(m)@ == instrument_module_spec(old(m)@, history_size as nat, s) && (forall|
                    k: int,
                |
                    0 <= k < total_consts(old(m)@.funcs) + 1 ==> 0 <= #[trigger] edge_constant(
                        s as u64,
                        (AFL_COVERAGE_MAP_SIZE * history_size) as i32,
                        k as nat,
                    ) < (AFL_COVERAGE_MAP_SIZE * history_size) as i32),
        },
{
    if !(history_size == 1 || history_size == 2 || history_size == 4 || history_size == 8) {
        return Result::Err(FuzzError::InvalidHistory);
    }
    let ghost m0 = m@;
    let ids = inject_globals(m, history_size);
    let prev_ids = ids.0;
    let mem_ptr = ids.1;
    let ghost g = ModuleV {
        types: m0.types,
        imports: m0.imports,
        funcs: m0.funcs,
        globals: m0.globals + injected_globals(history_size as nat),
        exports: m0.exports,
    };
    proof {
        assert(m@ =~= g);
        assert(module_wf(m@)) by {
            assert forall|i: int| 0 <= i < g.funcs.len() implies crate::wasm::func_body_ok(
                g,
                #[trigger] g.funcs[i],
            ) by {
                assert(crate::wasm::func_body_ok(m0, m0.funcs[i]));
                assert(g.funcs[i] == m0.funcs[i]);
                assert(crate::wasm::func_local_count(g, g.funcs[i])
                    == crate::wasm::func_local_count(m0, m0.funcs[i]));
                assert forall|j: int| 0 <= j < g.funcs[i].body.len() implies {
                    &&& crate::wasm::instr_funcs_ok(#[trigger] g.funcs[i].body[j], g.func_count())
                    &&& crate::wasm::instr_globals_ok(g.funcs[i].body[j], g.globals.len() as int)
                    &&& crate::wasm::instr_locals_ok(
                        g.funcs[i].body[j],
                        crate::wasm::func_local_count(g, g.funcs[i]),
                    )
                } by {
                    assert(crate::wasm::instr_funcs_ok(m0.funcs[i].body[j], m0.func_count()));
                    assert(crate::wasm::instr_globals_ok(
                        m0.funcs[i].body[j],
                        m0.globals.len() as int,
                    ));
                    assert(crate::wasm::instr_locals_ok(
                        m0.funcs[i].body[j],
                        crate::wasm::func_local_count(m0, m0.funcs[i]),
                    ));
                }
            }
        }
    }
    inject_afl_coverage_export(m, history_size, mem_ptr);
    proof {
        let c = inject_coverage_export_spec(g, history_size as nat, mem_ptr);
        assert(m@ == c);
        assert(total_consts(m@.funcs) <= u64::MAX);
    }
    let ghost c = m@;
    instrument_branches(m, &prev_ids, mem_ptr, seed);
    proof {
        let h = history_size as nat;
        let prev = Seq::new(h, |i: int| (m0.globals.len() + i) as u32);
        assert forall|i: int| 0 <= i < h implies prev_ids@[i] == prev[i] by {
            assert(prev_ids@[i] == m0.globals.len() + i);
        }
        assert(prev_ids@ =~= prev);
        assert(prev_ids@ == prev);
        assert(mem_ptr == (m0.globals.len() + h) as u32);
        match seed {
            Seed::Static(s) => {
                assert(m@ == instrument_branches_spec(c, prev_ids@, mem_ptr, s));
                assert(m@ == instrument_module_spec(m0, h, s));
                assert(total_consts(c.funcs) == total_consts(m0.funcs) + 1);
            },
            Seed::Random => {
                let s = choose|s: u32|
                    m@ == instrument_branches_spec(c, prev_ids@, mem_ptr, s) && (forall|k: int|
                        0 <= k < total_consts(c.funcs) ==> 0 <= #[trigger] edge_constant(
                            s as u64,
                            (AFL_COVERAGE_MAP_SIZE * prev_ids@.len()) as i32,
                            k as nat,
                        ) < (AFL_COVERAGE_MAP_SIZE * prev_ids@.len()) as i32);
                assert(m@ == instrument_branches_spec(c, prev_ids@, mem_ptr, s));
                assert(m@ == instrument_module_spec(m0, h, s));
                assert(total_consts(c.funcs) == total_consts(m0.funcs) + 1);
            },
        }
    }
    Result::Ok(())
}

/// Globals are exact: the rewritten module's globals are the input's
/// followed by `history` mutable `i32` zero-initialised slots and one
/// final immutable `i32` zero-initialised slot, whatever the seed.
pub proof fn lemma_globals_exact(m: ModuleV, h: nat, s: u32)
    ensures
        instrument_module_spec(m, h, s).globals == m.globals + injected_globals(h),
        instrument_module_spec(m, h, s).globals.len() == m.globals.len() + h + 1,
        forall|i: int|
            0 <= i < h ==> #[trigger] instrument_module_spec(m, h, s).globals[m.globals.len()
                + i] == prev_loc_global(),
        instrument_module_spec(m, h, s).globals[m.globals.len() + h as int] == mem_ptr_global(),
        prev_loc_global().mutable && prev_loc_global().init == GlobalInit::I32(0),
        !mem_ptr_global().mutable && mem_ptr_global().init == GlobalInit::I32(0),
{
    let out = instrument_module_spec(m, h, s);
    assert(out.globals == m.globals + injected_globals(h));
    assert forall|i: int| 0 <= i < h implies #[trigger] out.globals[m.globals.len() + i]
        == prev_loc_global() by {
        assert(injected_globals(h)[i] == prev_loc_global());
    }
    assert(injected_globals(h)[h as int] == mem_ptr_global());
    assert(out.globals[m.globals.len() + h as int] == injected_globals(h)[h as int]);
}

/// The coverage export is present: the rewritten module gains exactly
/// one export, named `canister_update __export_coverage_for_afl`, whose
/// target is a local function of type `() -> ()`.
pub proof fn lemma_export_present(m: ModuleV, h: nat, s: u32)
    requires
        module_wf(m),
        valid_history(h),
        m.types.len() + 4 <= u32::MAX,
        m.func_count() + 4 <= u32::MAX,
        m.globals.len() + 9 <= u32::MAX,
    ensures
        ({
            let out = instrument_module_spec(m, h, s);
            let e = out.exports.last();
            &&& out.exports.len() == m.exports.len() + 1
            &&& e.name == coverage_export_name_spec()
            &&& out.imports.len() <= e.index < out.func_count()
            &&& out.funcs[e.index - out.imports.len()].type_idx < out.types.len()
            &&& out.types[out.funcs[e.index - out.imports.len()].type_idx as int].params.len()
                == 0
            &&& out.types[out.funcs[e.index - out.imports.len()].type_idx as int].results.len()
                == 0
        }),
{
    let out = instrument_module_spec(m, h, s);
    let g = ModuleV {
        types: m.types,
        imports: m.imports,
        funcs: m.funcs,
        globals: m.globals + injected_globals(h),
        exports: m.exports,
    };
    let mem_ptr = (m.globals.len() + h) as u32;
    let e = ensure_ic0_imports_spec(g);
    assert(module_wf(g)) by {
        lemma_globals_grow_wf(m, g);
    }
    lemma_ensure_import_wf(
        g,
        crate::API_VERSION_IC0@,
        "msg_reply_data_append"@,
        seq![ValType::I32, ValType::I32],
        Seq::empty(),
    );
    lemma_ensure_import_wf(
        ensure_import_spec(
            g,
            crate::API_VERSION_IC0@,
            "msg_reply_data_append"@,
            seq![ValType::I32, ValType::I32],
            Seq::empty(),
        ).0,
        crate::API_VERSION_IC0@,
        "msg_reply"@,
        Seq::empty(),
        Seq::empty(),
    );
    let c = inject_coverage_export_spec(g, h, mem_ptr);
    let a = add_local_func_spec(
        e.0,
        Seq::empty(),
        Seq::empty(),
        Seq::empty(),
        coverage_body(mem_ptr, (AFL_COVERAGE_MAP_SIZE * h) as i32, e.1 as u32, e.2 as u32),
    );
    lemma_find_type_in_range(e.0.types, Seq::empty(), Seq::empty(), 0);
    let cov_pos = e.0.funcs.len() as int;
    assert(a.0.funcs[cov_pos].type_idx < a.0.types.len());
    assert(type_matches(
        a.0.types[a.0.funcs[cov_pos].type_idx as int],
        Seq::empty(),
        Seq::empty(),
    ));
    let hs = helper_spec(c, Seq::new(h, |i: int| (m.globals.len() + i) as u32), mem_ptr);
    assert(out.exports == c.exports);
    assert(c.exports.last().index == a.1 as u32);
    assert(a.1 == e.0.func_count());
    lemma_find_type_in_range(c.types, seq![ValType::I32], Seq::empty(), 0);
    assert(hs.0.types[a.0.funcs[cov_pos].type_idx as int]
        == a.0.types[a.0.funcs[cov_pos].type_idx as int]);
    lemma_instrument_funcs_index(
        c.funcs,
        s as u64,
        (AFL_COVERAGE_MAP_SIZE * h) as i32,
        hs.1 as u32,
        cov_pos,
    );
    assert(out.funcs[cov_pos].type_idx == c.funcs[cov_pos].type_idx);
    assert(out.imports.len() == e.0.imports.len());
}

/// Appending globals keeps a module well formed.
proof fn lemma_globals_grow_wf(m: ModuleV, g: ModuleV)
    requires
        module_wf(m),
        g.types == m.types,
        g.imports == m.imports,
        g.funcs == m.funcs,
        g.exports == m.exports,
        g.globals.len() >= m.globals.len(),
        g.globals.len() <= u32::MAX,
    ensures
        module_wf(g),
{
    assert forall|i: int| 0 <= i < g.funcs.len() implies crate::wasm::func_body_ok(
        g,
        #[trigger] g.funcs[i],
    ) by {
        assert(crate::wasm::func_body_ok(m, m.funcs[i]));
        assert(crate::wasm::func_local_count(g, g.funcs[i]) == crate::wasm::func_local_count(
            m,
            m.funcs[i],
        ));
        assert forall|j: int| 0 <= j < g.funcs[i].body.len() implies {
            &&& crate::wasm::instr_funcs_ok(#[trigger] g.funcs[i].body[j], g.func_count())
            &&& crate::wasm::instr_globals_ok(g.funcs[i].body[j], g.globals.len() as int)
            &&& crate::wasm::instr_locals_ok(
                g.funcs[i].body[j],
                crate::wasm::func_local_count(g, g.funcs[i]),
            )
        } by {
            assert(crate::wasm::instr_funcs_ok(m.funcs[i].body[j], m.func_count()));
            assert(crate::wasm::instr_globals_ok(m.funcs[i].body[j], m.globals.len() as int));
            assert(crate::wasm::instr_locals_ok(
                m.funcs[i].body[j],
                crate::wasm::func_local_count(m, m.funcs[i]),
            ));
        }
    }
}

/// Shorthand: every instruction of the body is in range for the given
/// function count, global count and local count.
pub open spec fn body_ok_for(b: Seq<InstrV>, fc: int, gc: int, lc: int) -> bool {
    forall|j: int|
        0 <= j < b.len() ==> {
            &&& crate::wasm::instr_funcs_ok(#[trigger] b[j], fc)
            &&& crate::wasm::instr_globals_ok(b[j], gc)
            &&& crate::wasm::instr_locals_ok(b[j], lc)
        }
}

/// The xor chain only reads the given globals.
proof fn lemma_xor_chain_ok(prev: Seq<u32>, fc: int, gc: int, lc: int)
    requires
        forall|i: int| 0 <= i < prev.len() ==> prev[i] < gc,
    ensures
        body_ok_for(xor_chain(prev), fc, gc, lc),
        xor_chain(prev).len() == 2 * prev.len(),
    decreases prev.len(),
{
    if prev.len() > 0 {
        lemma_xor_chain_ok(prev.drop_last(), fc, gc, lc);
        assert forall|j: int| 0 <= j < xor_chain(prev).len() implies {
            &&& crate::wasm::instr_funcs_ok(#[trigger] xor_chain(prev)[j], fc)
            &&& crate::wasm::instr_globals_ok(xor_chain(prev)[j], gc)
            &&& crate::wasm::instr_locals_ok(xor_chain(prev)[j], lc)
        } by {
            if j < xor_chain(prev.drop_last()).len() {
                assert(xor_chain(prev)[j] == xor_chain(prev.drop_last())[j]);
            }
        }
    }
}

/// The shift chain only touches the given globals.
proof fn lemma_shift_chain_ok(prev: Seq<u32>, i: int, fc: int, gc: int, lc: int)
    requires
        i < prev.len(),
        forall|t: int| 0 <= t < prev.len() ==> prev[t] < gc,
    ensures
        body_ok_for(shift_chain_from(prev, i), fc, gc, lc),
    decreases i,
{
    if i >= 1 {
        lemma_shift_chain_ok(prev, i - 1, fc, gc, lc);
        let head = seq![
            InstrV::GlobalGet(prev[i - 1]),
            InstrV::I32Const(1),
            InstrV::I32ShrU,
            InstrV::GlobalSet(prev[i]),
        ];
        assert forall|j: int| 0 <= j < shift_chain_from(prev, i).len() implies {
            &&& crate::wasm::instr_funcs_ok(#[trigger] shift_chain_from(prev, i)[j], fc)
            &&& crate::wasm::instr_globals_ok(shift_chain_from(prev, i)[j], gc)
            &&& crate::wasm::instr_locals_ok(shift_chain_from(prev, i)[j], lc)
        } by {
            if j >= 4 {
                assert(shift_chain_from(prev, i)[j] == shift_chain_from(prev, i - 1)[j - 4]);
            }
        }
    }
}

/// The helper body stays inside its two locals and the given globals.
proof fn lemma_helper_body_ok(prev: Seq<u32>, mem_ptr: u32, fc: int, gc: int)
    requires
        prev.len() >= 1,
        forall|t: int| 0 <= t < prev.len() ==> prev[t] < gc,
        mem_ptr < gc,
    ensures
        body_ok_for(helper_body(prev, mem_ptr), fc, gc, 2),
{
    lemma_xor_chain_ok(prev, fc, gc, 2);
    lemma_shift_chain_ok(prev, prev.len() - 1, fc, gc, 2);
    let b = helper_body(prev, mem_ptr);
    let p1 = seq![InstrV::LocalGet(0u32)];
    let p2 = xor_chain(prev);
    let p3 = seq![
        InstrV::GlobalGet(mem_ptr),
        InstrV::I32Add,
        InstrV::LocalTee(1u32),
        InstrV::LocalGet(1u32),
        InstrV::I32Load8U,
        InstrV::I32Const(1i32),
        InstrV::I32Add,
        InstrV::I32Store8,
    ];
    let p4 = shift_chain_from(prev, prev.len() - 1);
    let p5 = seq![
        InstrV::LocalGet(0u32),
        InstrV::I32Const(1i32),
        InstrV::I32ShrU,
        InstrV::GlobalSet(prev[0]),
        InstrV::End,
    ];
    assert forall|j: int| 0 <= j < b.len() implies {
        &&& crate::wasm::instr_funcs_ok(#[trigger] b[j], fc)
        &&& crate::wasm::instr_globals_ok(b[j], gc)
        &&& crate::wasm::instr_locals_ok(b[j], 2)
    } by {
        let n1 = p1.len() as int;
        let n2 = n1 + p2.len();
        let n3 = n2 + p3.len();
        let n4 = n3 + p4.len();
        if j < n1 {
            assert(b[j] == p1[j]);
        } else if j < n2 {
            assert(b[j] == p2[j - n1]);
        } else if j < n3 {
            assert(b[j] == p3[j - n2]);
        } else if j < n4 {
            assert(b[j] == p4[j - n3]);
        } else {
            assert(b[j] == p5[j - n4]);
        }
    }
}

/// Appending a local function whose body is in range for the extended
/// module keeps the module well formed.
pub proof fn lemma_add_local_func_wf(
    m: ModuleV,
    params: Seq<ValType>,
    results: Seq<ValType>,
    locals: Seq<ValType>,
    body: Seq<InstrV>,
)
    requires
        module_wf(m),
        m.types.len() + 1 <= u32::MAX,
        m.func_count() + 1 <= u32::MAX,
        body_ok_for(body, m.func_count() + 1, m.globals.len() as int, params.len() + locals.len() as int),
    ensures
        module_wf(add_local_func_spec(m, params, results, locals, body).0),
        add_local_func_spec(m, params, results, locals, body).0.func_count() == m.func_count()
            + 1,
        add_local_func_spec(m, params, results, locals, body).0.types.len() <= m.types.len() + 1,
{
    let mv = add_local_func_spec(m, params, results, locals, body).0;
    lemma_find_type_in_range(m.types, params, results, 0);
    let new_f = mv.funcs.last();
    assert(type_matches(mv.types[new_f.type_idx as int], params, results));
    assert(crate::wasm::func_local_count(mv, new_f) == params.len() + locals.len() as int);
    assert forall|i: int| 0 <= i < mv.funcs.len() implies crate::wasm::func_body_ok(
        mv,
        #[trigger] mv.funcs[i],
    ) by {
        if i < m.funcs.len() {
            assert(mv.funcs[i] == m.funcs[i]);
            assert(crate::wasm::func_body_ok(m, m.funcs[i]));
            assert(crate::wasm::func_local_count(mv, mv.funcs[i])
                == crate::wasm::func_local_count(m, m.funcs[i]));
            assert forall|j: int| 0 <= j < mv.funcs[i].body.len() implies {
                &&& crate::wasm::instr_funcs_ok(#[trigger] mv.funcs[i].body[j], mv.func_count())
                &&& crate::wasm::instr_globals_ok(mv.funcs[i].body[j], mv.globals.len() as int)
                &&& crate::wasm::instr_locals_ok(
                    mv.funcs[i].body[j],
                    crate::wasm::func_local_count(mv, mv.funcs[i]),
                )
            } by {
                assert(crate::wasm::instr_funcs_ok(m.funcs[i].body[j], m.func_count()));
                assert(crate::wasm::instr_globals_ok(m.funcs[i].body[j], m.globals.len() as int));
                assert(crate::wasm::instr_locals_ok(
                    m.funcs[i].body[j],
                    crate::wasm::func_local_count(m, m.funcs[i]),
                ));
            }
        } else {
            assert(mv.funcs[i] == new_f);
        }
    }
    assert forall|i: int| 0 <= i < mv.imports.len() implies (
    #[trigger] mv.imports[i]).type_idx < mv.types.len() by {
        assert(m.imports[i].type_idx < m.types.len());
    }
    assert forall|i: int| 0 <= i < mv.funcs.len() implies (
    #[trigger] mv.funcs[i]).type_idx < mv.types.len() by {
        if i < m.funcs.len() {
            assert(m.funcs[i].type_idx < m.types.len());
        }
    }
}

/// Instrumented instructions stay in range: the copied instructions
/// were, and the injected records only push a constant and call the
/// helper.
proof fn lemma_instrument_instrs_ok(
    b: Seq<InstrV>,
    seed: u64,
    bound: i32,
    off: int,
    helper: u32,
    fc: int,
    gc: int,
    lc: int,
)
    requires
        body_ok_for(b, fc, gc, lc),
        helper < fc,
    ensures
        body_ok_for(instrument_instrs(b, seed, bound, off, helper), fc, gc, lc),
    decreases b.len(),
{
    if b.len() > 0 {
        assert(body_ok_for(b.drop_last(), fc, gc, lc)) by {
            assert forall|j: int| 0 <= j < b.drop_last().len() implies {
                &&& crate::wasm::instr_funcs_ok(#[trigger] b.drop_last()[j], fc)
                &&& crate::wasm::instr_globals_ok(b.drop_last()[j], gc)
                &&& crate::wasm::instr_locals_ok(b.drop_last()[j], lc)
            } by {
                assert(b.drop_last()[j] == b[j]);
            }
        }
        lemma_instrument_instrs_ok(b.drop_last(), seed, bound, off, helper, fc, gc, lc);
        let pre = instrument_instrs(b.drop_last(), seed, bound, off, helper);
        let step = instr_step(b.last(), seed, bound, off + site_count(b.drop_last()), helper);
        assert(crate::wasm::instr_funcs_ok(b.last(), fc));
        assert(crate::wasm::instr_globals_ok(b.last(), gc));
        assert(crate::wasm::instr_locals_ok(b.last(), lc));
        assert forall|j: int| 0 <= j < instrument_instrs(b, seed, bound, off, helper).len()
            implies {
            &&& crate::wasm::instr_funcs_ok(
                #[trigger] instrument_instrs(b, seed, bound, off, helper)[j],
                fc,
            )
            &&& crate::wasm::instr_globals_ok(instrument_instrs(b, seed, bound, off, helper)[j], gc)
            &&& crate::wasm::instr_locals_ok(instrument_instrs(b, seed, bound, off, helper)[j], lc)
        } by {
            if j < pre.len() {
                assert(instrument_instrs(b, seed, bound, off, helper)[j] == pre[j]);
            } else {
                assert(instrument_instrs(b, seed, bound, off, helper)[j] == step[j - pre.len()]);
            }
        }
    }
}

/// A whole instrumented body stays in range.
proof fn lemma_instrumented_body_ok(
    b: Seq<InstrV>,
    seed: u64,
    bound: i32,
    off: int,
    helper: u32,
    fc: int,
    gc: int,
    lc: int,
)
    requires
        body_ok_for(b, fc, gc, lc),
        helper < fc,
    ensures
        body_ok_for(instrumented_body(b, seed, bound, off, helper), fc, gc, lc),
{
    lemma_instrument_instrs_ok(b, seed, bound, off + 1, helper, fc, gc, lc);
    let pre = seq![
        InstrV::I32Const(edge_constant(seed, bound, off as nat)),
        InstrV::Call(helper),
    ];
    let rest = instrument_instrs(b, seed, bound, off + 1, helper);
    let w = instrumented_body(b, seed, bound, off, helper);
    assert forall|j: int| 0 <= j < w.len() implies {
        &&& crate::wasm::instr_funcs_ok(#[trigger] w[j], fc)
        &&& crate::wasm::instr_globals_ok(w[j], gc)
        &&& crate::wasm::instr_locals_ok(w[j], lc)
    } by {
        if j < 2 {
            assert(w[j] == pre[j]);
        } else {
            assert(w[j] == rest[j - 2]);
        }
    }
}

/// Rewrite validates, on the model: instrumenting a well-formed module
/// under any accepted history size and any seed value yields a
/// well-formed module — every call target, global reference, local
/// reference and export target of the output is in range.
pub proof fn lemma_rewrite_validates(m: ModuleV, h: nat, s: u32)
    requires
        module_wf(m),
        valid_history(h),
        m.types.len() + 4 <= u32::MAX,
        m.func_count() + 4 <= u32::MAX,
        m.globals.len() + 9 <= u32::MAX,
    ensures
        module_wf(instrument_module_spec(m, h, s)),
{
    let g = ModuleV {
        types: m.types,
        imports: m.imports,
        funcs: m.funcs,
        globals: m.globals + injected_globals(h),
        exports: m.exports,
    };
    let prev = Seq::new(h, |i: int| (m.globals.len() + i) as u32);
    let mem_ptr = (m.globals.len() + h) as u32;
    lemma_globals_grow_wf(m, g);
    let e1 = ensure_import_spec(
        g,
        crate::API_VERSION_IC0@,
        "msg_reply_data_append"@,
        seq![ValType::I32, ValType::I32],
        Seq::empty(),
    );
    lemma_ensure_import_wf(
        g,
        crate::API_VERSION_IC0@,
        "msg_reply_data_append"@,
        seq![ValType::I32, ValType::I32],
        Seq::empty(),
    );
    let e = ensure_ic0_imports_spec(g);
    lemma_ensure_import_wf(
        e1.0,
        crate::API_VERSION_IC0@,
        "msg_reply"@,
        Seq::empty(),
        Seq::empty(),
    );
    let cov_body = coverage_body(
        mem_ptr,
        (AFL_COVERAGE_MAP_SIZE * h) as i32,
        e.1 as u32,
        e.2 as u32,
    );
    assert(body_ok_for(cov_body, e.0.func_count() + 1, e.0.globals.len() as int, 0)) by {
        lemma_find_import_in_range(g.imports, crate::API_VERSION_IC0@, "msg_reply_data_append"@, 0);
        lemma_find_import_in_range(
            e1.0.imports,
            crate::API_VERSION_IC0@,
            "msg_reply"@,
            0,
        );
        assert(e.1 < e.0.imports.len());
        assert(e.2 < e.0.imports.len());
        assert(e.0.globals == g.globals);
        assert(mem_ptr < g.globals.len());
    }
    lemma_add_local_func_wf(e.0, Seq::empty(), Seq::empty(), Seq::empty(), cov_body);
    let a = add_local_func_spec(e.0, Seq::empty(), Seq::empty(), Seq::empty(), cov_body);
    let c = inject_coverage_export_spec(g, h, mem_ptr);
    assert(module_wf(c)) by {
        assert(c.types == a.0.types && c.imports == a.0.imports && c.funcs == a.0.funcs
            && c.globals == a.0.globals);
        assert forall|i: int| 0 <= i < c.exports.len() implies (
        #[trigger] c.exports[i]).index < c.func_count() by {
            if i < a.0.exports.len() {
                assert(c.exports[i] == a.0.exports[i]);
            } else {
                assert(c.exports[i].index == a.1 as u32);
            }
        }
        assert forall|i: int| 0 <= i < c.funcs.len() implies crate::wasm::func_body_ok(
            c,
            #[trigger] c.funcs[i],
        ) by {
            assert(crate::wasm::func_body_ok(a.0, a.0.funcs[i]));
            assert(crate::wasm::func_local_count(c, c.funcs[i]) == crate::wasm::func_local_count(
                a.0,
                a.0.funcs[i],
            ));
        }
    }
    let hs = helper_spec(c, prev, mem_ptr);
    assert(body_ok_for(helper_body(prev, mem_ptr), c.func_count() + 1, c.globals.len() as int, 2))
        by {
        assert forall|t: int| 0 <= t < prev.len() implies prev[t] < c.globals.len() by {
            assert(prev[t] == (m.globals.len() + t) as u32);
        }
        lemma_helper_body_ok(prev, mem_ptr, c.func_count() + 1, c.globals.len() as int);
    }
    lemma_add_local_func_wf(c, seq![ValType::I32], Seq::empty(), seq![ValType::I32], helper_body(prev, mem_ptr));
    let out = instrument_module_spec(m, h, s);
    let bound = (AFL_COVERAGE_MAP_SIZE * h) as i32;
    lemma_instrument_funcs_len(c.funcs, s as u64, bound, hs.1 as u32);
    assert(out.funcs.len() == c.funcs.len() + 1);
    assert(out.func_count() == hs.0.func_count());
    assert forall|i: int| 0 <= i < out.funcs.len() implies crate::wasm::func_body_ok(
        out,
        #[trigger] out.funcs[i],
    ) by {
        if i < c.funcs.len() {
            lemma_instrument_funcs_index(c.funcs, s as u64, bound, hs.1 as u32, i);
            assert(out.funcs[i] == instrument_funcs(c.funcs, s as u64, bound, hs.1 as u32)[i]);
            let f0 = c.funcs[i];
            let lc = crate::wasm::func_local_count(hs.0, hs.0.funcs[i]);
            assert(hs.0.funcs[i] == f0);
            assert(crate::wasm::func_body_ok(hs.0, f0));
            assert(body_ok_for(f0.body, hs.0.func_count(), hs.0.globals.len() as int, lc)) by {
                assert forall|j: int| 0 <= j < f0.body.len() implies {
                    &&& crate::wasm::instr_funcs_ok(#[trigger] f0.body[j], hs.0.func_count())
                    &&& crate::wasm::instr_globals_ok(f0.body[j], hs.0.globals.len() as int)
                    &&& crate::wasm::instr_locals_ok(f0.body[j], lc)
                } by {}
            }
            lemma_instrumented_body_ok(
                f0.body,
                s as u64,
                bound,
                total_consts(c.funcs.subrange(0, i)) as int,
                hs.1 as u32,
                hs.0.func_count(),
                hs.0.globals.len() as int,
                lc,
            );
            assert(crate::wasm::func_local_count(out, out.funcs[i]) == lc);
        } else {
            assert(out.funcs[i] == hs.0.funcs.last());
            assert(crate::wasm::func_body_ok(hs.0, hs.0.funcs.last()));
            assert(crate::wasm::func_local_count(out, out.funcs[i])
                == crate::wasm::func_local_count(hs.0, hs.0.funcs.last()));
        }
    }
    assert forall|i: int| 0 <= i < out.funcs.len() implies (
    #[trigger] out.funcs[i]).type_idx < out.types.len() by {
        if i < c.funcs.len() {
            lemma_instrument_funcs_index(c.funcs, s as u64, bound, hs.1 as u32, i);
            assert(hs.0.funcs[i].type_idx < hs.0.types.len());
        } else {
            assert(out.funcs[i] == hs.0.funcs.last());
        }
    }
    assert forall|i: int| 0 <= i < out.imports.len() implies (
    #[trigger] out.imports[i]).type_idx < out.types.len() by {
        assert(hs.0.imports[i].type_idx < hs.0.types.len());
    }
    assert forall|i: int| 0 <= i < out.exports.len() implies (
    #[trigger] out.exports[i]).index < out.func_count() by {
        assert(hs.0.exports[i].index < hs.0.func_count());
    }
}

/// Injected edge records are in range: inside the instrumented form of
/// a body, an `i32.const` either already occurred in the input body or
/// carries an edge constant in `[0, bound)`.
proof fn lemma_instrument_instrs_consts(b: Seq<InstrV>, seed: u64, bound: i32, off: int, helper: u32)
    requires
        forall|k: int|
            off <= k < off + site_count(b) ==> 0 <= #[trigger] edge_constant(
                seed,
                bound,
                k as nat,
            ) < bound,
    ensures
        forall|j: int|
            0 <= j < instrument_instrs(b, seed, bound, off, helper).len() ==> ((
            #[trigger] instrument_instrs(b, seed, bound, off, helper)[j])
                matches InstrV::I32Const(c) ==> (0 <= c < bound || exists|p: int|
                0 <= p < b.len() && #[trigger] b[p] == InstrV::I32Const(c))),
    decreases b.len(),
{
    if b.len() > 0 {
        lemma_site_count_prefix_step(b);
        assert forall|k: int|
            off <= k < off + site_count(b.drop_last()) implies 0 <= #[trigger] edge_constant(
            seed,
            bound,
            k as nat,
        ) < bound by {}
        lemma_instrument_instrs_consts(b.drop_last(), seed, bound, off, helper);
        let pre = instrument_instrs(b.drop_last(), seed, bound, off, helper);
        let pos = off + site_count(b.drop_last());
        let step = instr_step(b.last(), seed, bound, pos, helper);
        let whole = instrument_instrs(b, seed, bound, off, helper);
        assert forall|j: int| 0 <= j < whole.len() implies ((#[trigger] whole[j])
            matches InstrV::I32Const(c) ==> (0 <= c < bound || exists|p: int|
            0 <= p < b.len() && #[trigger] b[p] == InstrV::I32Const(c))) by {
            if j < pre.len() {
                assert(whole[j] == pre[j]);
                match whole[j] {
                    InstrV::I32Const(c) => {
                        if !(0 <= c < bound) {
                            let p = choose|p: int|
                                0 <= p < b.drop_last().len() && #[trigger] b.drop_last()[p]
                                    == InstrV::I32Const(c);
                            assert(b[p] == InstrV::I32Const(c));
                        }
                    },
                    _ => {},
                }
            } else {
                assert(whole[j] == step[j - pre.len()]);
                if is_site(b.last()) {
                    assert(0 <= edge_constant(seed, bound, pos as nat) < bound);
                }
                if whole[j] == b.last() {
                    assert(b[b.len() - 1] == b.last());
                }
            }
        }
    }
}

/// One step of the site count: the last instruction adds its own site.
proof fn lemma_site_count_prefix_step(b: Seq<InstrV>)
    requires
        b.len() > 0,
    ensures
        site_count(b.drop_last()) <= site_count(b),
        is_site(b.last()) ==> site_count(b) == site_count(b.drop_last()) + 1,
        !is_site(b.last()) ==> site_count(b) == site_count(b.drop_last()),
{
}

/// Every constant the rewrite injects is an edge key in range: in each
/// instrumented body of the output, an `i32.const` either already
/// occurred in that function's input body or lies inside the coverage
/// map's index range `[0, AFL_COVERAGE_MAP_SIZE * history)`.
pub proof fn lemma_injected_consts_in_range(m: ModuleV, prev: Seq<u32>, mem_ptr: u32, s: u32)
    requires
        forall|k: int|
            0 <= k < total_consts(m.funcs) ==> 0 <= #[trigger] edge_constant(
                s as u64,
                (AFL_COVERAGE_MAP_SIZE * prev.len()) as i32,
                k as nat,
            ) < (AFL_COVERAGE_MAP_SIZE * prev.len()) as i32,
    ensures
        forall|i: int, j: int|
            0 <= i < m.funcs.len() && 0 <= j < instrument_branches_spec(
                m,
                prev,
                mem_ptr,
                s,
            ).funcs[i].body.len() ==> ((#[trigger] instrument_branches_spec(
                m,
                prev,
                mem_ptr,
                s,
            ).funcs[i].body[j]) matches InstrV::I32Const(c) ==> (0 <= c < (
            AFL_COVERAGE_MAP_SIZE * prev.len()) as i32 || exists|p: int|
                0 <= p < m.funcs[i].body.len() && #[trigger] m.funcs[i].body[p]
                    == InstrV::I32Const(c))),
{
    let bound = (AFL_COVERAGE_MAP_SIZE * prev.len()) as i32;
    let hs = helper_spec(m, prev, mem_ptr);
    let helper = hs.1 as u32;
    let out = instrument_branches_spec(m, prev, mem_ptr, s);
    lemma_instrument_funcs_len(m.funcs, s as u64, bound, helper);
    assert forall|i: int, j: int|
        0 <= i < m.funcs.len() && 0 <= j < out.funcs[i].body.len() implies ((
    #[trigger] out.funcs[i].body[j]) matches InstrV::I32Const(c) ==> (0 <= c < bound || exists|
        p: int,
    |
        0 <= p < m.funcs[i].body.len() && #[trigger] m.funcs[i].body[p] == InstrV::I32Const(
            c,
        ))) by {
        lemma_instrument_funcs_index(m.funcs, s as u64, bound, helper, i);
        let b = m.funcs[i].body;
        let off = total_consts(m.funcs.subrange(0, i)) as int;
        assert(m.funcs.subrange(0, i + 1).drop_last() =~= m.funcs.subrange(0, i));
        assert(m.funcs.subrange(0, i + 1).drop_last() == m.funcs.subrange(0, i));
        assert(m.funcs.subrange(0, i + 1).last() == m.funcs[i]);
        assert(total_consts(m.funcs.subrange(0, i + 1)) == off + consts_needed(b));
        lemma_total_consts_prefix(m.funcs, i + 1);
        assert forall|k: int|
            off + 1 <= k < off + 1 + site_count(b) implies 0 <= #[trigger] edge_constant(
            s as u64,
            bound,
            k as nat,
        ) < bound by {}
        lemma_instrument_instrs_consts(b, s as u64, bound, off + 1, helper);
        let body1 = instrumented_body(b, s as u64, bound, off, helper);
        assert(out.funcs[i].body == body1);
        match out.funcs[i].body[j] {
            InstrV::I32Const(_) => {
                if j < 2 {
                    assert(body1[j] == seq![
                        InstrV::I32Const(edge_constant(s as u64, bound, off as nat)),
                        InstrV::Call(helper),
                    ][j]);
                    assert(0 <= edge_constant(s as u64, bound, off as nat) < bound);
                } else {
                    assert(body1[j] == instrument_instrs(b, s as u64, bound, off + 1, helper)[j
                        - 2]);
                }
            },
            _ => {},
        }
    }
}

/// Counts the instrumentation sites of one body.
fn count_sites(body: &Vec<Instr>) -> (r: usize)
    ensures
        r == site_count(body@.map_values(|x: Instr| x@)),
{
    let ghost bv = body@.map_values(|x: Instr| x@);
    let mut count: usize = 0;
    let mut j: usize = 0;
    proof {
        assert(bv.subrange(0, 0) =~= Seq::<InstrV>::empty());
    }
    while j < body.len()
        invariant
            j <= body@.len(),
            bv == body@.map_values(|x: Instr| x@),
            bv.len() == body@.len(),
            count <= j,
            count == site_count(bv.subrange(0, j as int)),
        decreases body@.len() - j,
    {
        proof {
            assert(bv[j as int] == body@[j as int]@);
            assert(bv.subrange(0, j + 1).drop_last() =~= bv.subrange(0, j as int));
            assert(bv.subrange(0, j + 1).drop_last() == bv.subrange(0, j as int));
            assert(bv.subrange(0, j + 1).last() == bv[j as int]);
        }
        let site = match &body[j] {
            Instr::Block(_) => true,
            Instr::Loop(_) => true,
            Instr::If(_) => true,
            Instr::Else => true,
            Instr::Br(_) => true,
            Instr::BrIf(_) => true,
            Instr::BrTable(_, _) => true,
            Instr::Return => true,
            _ => false,
        };
        proof {
            assert(site == is_site(bv[j as int]));
        }
        if site {
            count = count + 1;
        }
        j = j + 1;
    }
    proof {
        assert(bv.subrange(0, bv.len() as int) =~= bv);
        assert(bv.subrange(0, bv.len() as int) == bv);
    }
    count
}

/// Sums the constants the rewrite would draw, refusing totals past the
/// stream's budget.
fn total_consts_checked(funcs: &Vec<LocalFunc>) -> (r: Option<u64>)
    ensures
        ({
            let fv = funcs@.map_values(|f: LocalFunc| f@);
            &&& (r matches Option::Some(t) ==> t as nat == total_consts(fv) && t <= u64::MAX
                - 1)
            &&& (r is None ==> total_consts(fv) + 1 > u64::MAX)
        }),
{
    let ghost fv = funcs@.map_values(|f: LocalFunc| f@);
    let mut acc: u64 = 0;
    let mut i: usize = 0;
    proof {
        assert(fv.subrange(0, 0) =~= Seq::<FuncV>::empty());
    }
    while i < funcs.len()
        invariant
            i <= funcs@.len(),
            fv == funcs@.map_values(|f: LocalFunc| f@),
            fv.len() == funcs@.len(),
            acc <= u64::MAX - 1,
            acc as nat == total_consts(fv.subrange(0, i as int)),
        decreases funcs@.len() - i,
    {
        proof {
            assert(fv[i as int] == funcs@[i as int]@);
            assert(fv.subrange(0, i + 1).drop_last() =~= fv.subrange(0, i as int));
            assert(fv.subrange(0, i + 1).drop_last() == fv.subrange(0, i as int));
            assert(fv.subrange(0, i + 1).last() == fv[i as int]);
        }
        let sites = count_sites(&funcs[i].body);
        if (acc as u128) + 1 + (sites as u128) > (u64::MAX - 1) as u128 {
            proof {
                lemma_total_consts_prefix_le(fv, i + 1);
            }
            return Option::None;
        }
        acc = acc + 1 + (sites as u64);
        i = i + 1;
    }
    proof {
        assert(fv.subrange(0, fv.len() as int) =~= fv);
        assert(fv.subrange(0, fv.len() as int) == fv);
    }
    Option::Some(acc)
}

/// A prefix's total is at most the whole total.
proof fn lemma_total_consts_prefix_le(funcs: Seq<FuncV>, i: int)
    requires
        0 <= i <= funcs.len(),
    ensures
        total_consts(funcs.subrange(0, i)) <= total_consts(funcs),
{
    lemma_total_consts_prefix(funcs, i);
}

impl WasmModule {
    /// Checks every precondition of the rewrite at once: structural
    /// well-formedness, index-space headroom for the items the rewrite
    /// adds, and a draw count inside the stream's budget. An edge that
    /// feeds a freshly parsed module to the rewriter holds it to this
    /// first.
    pub fn check_rewriter_ready(&self) -> (r: bool)
        ensures
            r == (module_wf(self@) && self@.types.len() + 4 <= u32::MAX && self@.func_count() + 4
                <= u32::MAX && self@.globals.len() + 9 <= u32::MAX && total_consts(self@.funcs)
                + 1 <= u64::MAX),
    {
        if !self.check_wf() {
            return false;
        }
        if self.types.len() > (u32::MAX - 4) as usize {
            return false;
        }
        if self.funcs.len() > (u32::MAX - 4) as usize {
            return false;
        }
        if self.imports.len() > (u32::MAX - 4) as usize - self.funcs.len() {
            return false;
        }
        if self.globals.len() > (u32::MAX - 9) as usize {
            return false;
        }
        match total_consts_checked(&self.funcs) {
            Option::Some(_) => true,
            Option::None => false,
        }
    }
}

} // verus!
