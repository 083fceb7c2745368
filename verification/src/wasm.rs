//! A structural model of the parts of a WebAssembly module that the
//! rewriter reads and changes: the function-type table, the imported
//! functions, the local functions with their bodies, the globals and the
//! exports.
//!
//! The model follows the binary format's index discipline: the function
//! index space lists the imported functions first, in import order, then
//! the local functions in code order. Instructions that the rewriter does
//! not inspect are carried through as opaque tokens, assigned by whatever
//! converts a concrete module into this model.

use vstd::prelude::*;

verus! {

/// A WebAssembly value type.
#[derive(Clone, Copy, Debug, PartialEq, Eq, Structural)]
pub enum ValType {
    I32,
    I64,
    F32,
    F64,
    V128,
    FuncRef,
    ExternRef,
}

/// The type annotation of a `block`, `loop` or `if`.
#[derive(Clone, Copy, Debug, PartialEq, Eq, Structural)]
pub enum BlockKind {
    /// No parameters, no results.
    Empty,
    /// No parameters, one result.
    Value(ValType),
    /// A function type, by index into the type table.
    Func(u32),
}

/// The instructions the rewriter distinguishes. Anything else is an
/// `Other` token, opaque to the rewriter and copied through unchanged.
#[derive(Debug, PartialEq, Eq)]
pub enum Instr {
    Block(BlockKind),
    Loop(BlockKind),
    If(BlockKind),
    Else,
    End,
    Br(u32),
    BrIf(u32),
    BrTable(Vec<u32>, u32),
    Return,
    Call(u32),
    I32Const(i32),
    Nop,
    LocalGet(u32),
    LocalTee(u32),
    GlobalGet(u32),
    GlobalSet(u32),
    I32Xor,
    I32Add,
    I32ShrU,
    I32Load8U,
    I32Store8,
    MemoryFill,
    Other(u64),
}

/// The ghost image of an [`Instr`].
#[verifier::ext_equal]
pub ghost enum InstrV {
    Block(BlockKind),
    Loop(BlockKind),
    If(BlockKind),
    Else,
    End,
    Br(u32),
    BrIf(u32),
    BrTable(Seq<u32>, u32),
    Return,
    Call(u32),
    I32Const(i32),
    Nop,
    LocalGet(u32),
    LocalTee(u32),
    GlobalGet(u32),
    GlobalSet(u32),
    I32Xor,
    I32Add,
    I32ShrU,
    I32Load8U,
    I32Store8,
    MemoryFill,
    Other(u64),
}

impl View for Instr {
    type V = InstrV;

    open spec fn view(&self) -> InstrV {
        match *self {
            Instr::Block(k) => InstrV::Block(k),
            Instr::Loop(k) => InstrV::Loop(k),
            Instr::If(k) => InstrV::If(k),
            Instr::Else => InstrV::Else,
            Instr::End => InstrV::End,
            Instr::Br(d) => InstrV::Br(d),
            Instr::BrIf(d) => InstrV::BrIf(d),
            Instr::BrTable(ref t, d) => InstrV::BrTable(t@, d),
            Instr::Return => InstrV::Return,
            Instr::Call(f) => InstrV::Call(f),
            Instr::I32Const(c) => InstrV::I32Const(c),
            Instr::Nop => InstrV::Nop,
            Instr::LocalGet(l) => InstrV::LocalGet(l),
            Instr::LocalTee(l) => InstrV::LocalTee(l),
            Instr::GlobalGet(g) => InstrV::GlobalGet(g),
            Instr::GlobalSet(g) => InstrV::GlobalSet(g),
            Instr::I32Xor => InstrV::I32Xor,
            Instr::I32Add => InstrV::I32Add,
            Instr::I32ShrU => InstrV::I32ShrU,
            Instr::I32Load8U => InstrV::I32Load8U,
            Instr::I32Store8 => InstrV::I32Store8,
            Instr::MemoryFill => InstrV::MemoryFill,
            Instr::Other(t) => InstrV::Other(t),
        }
    }
}

impl Clone for Instr {
    /// A clone carries the same instruction: the views agree.
    fn clone(&self) -> (r: Self)
        ensures
            r@ == self@,
    {
        match self {
            Instr::Block(k) => Instr::Block(*k),
            Instr::Loop(k) => Instr::Loop(*k),
            Instr::If(k) => Instr::If(*k),
            Instr::Else => Instr::Else,
            Instr::End => Instr::End,
            Instr::Br(d) => Instr::Br(*d),
            Instr::BrIf(d) => Instr::BrIf(*d),
            Instr::BrTable(t, d) => {
                let mut targets: Vec<u32> = Vec::new();
                let mut i: usize = 0;
                while i < t.len()
                    invariant
                        i <= t@.len(),
                        targets@ =~= t@.subrange(0, i as int),
                    decreases t@.len() - i,
                {
                    targets.push(t[i]);
                    i = i + 1;
                }
                proof {
                    assert(targets@ =~= t@);
                }
                Instr::BrTable(targets, *d)
            },
            Instr::Return => Instr::Return,
            Instr::Call(f) => Instr::Call(*f),
            Instr::I32Const(c) => Instr::I32Const(*c),
            Instr::Nop => Instr::Nop,
            Instr::LocalGet(l) => Instr::LocalGet(*l),
            Instr::LocalTee(l) => Instr::LocalTee(*l),
            Instr::GlobalGet(g) => Instr::GlobalGet(*g),
            Instr::GlobalSet(g) => Instr::GlobalSet(*g),
            Instr::I32Xor => Instr::I32Xor,
            Instr::I32Add => Instr::I32Add,
            Instr::I32ShrU => Instr::I32ShrU,
            Instr::I32Load8U => Instr::I32Load8U,
            Instr::I32Store8 => Instr::I32Store8,
            Instr::MemoryFill => Instr::MemoryFill,
            Instr::Other(t) => Instr::Other(*t),
        }
    }
}

/// A function type: parameter and result value types.
#[derive(Clone, Debug, PartialEq, Eq)]
pub struct FuncType {
    pub params: Vec<ValType>,
    pub results: Vec<ValType>,
}

/// The ghost image of a [`FuncType`].
#[verifier::ext_equal]
pub ghost struct TypeV {
    pub params: Seq<ValType>,
    pub results: Seq<ValType>,
}

impl View for FuncType {
    type V = TypeV;

    open spec fn view(&self) -> TypeV {
        TypeV { params: self.params@, results: self.results@ }
    }
}

/// An imported function: the import's module and field names, and its
/// type, by index into the type table.
#[derive(Debug, PartialEq, Eq)]
pub struct Import {
    pub module: String,
    pub name: String,
    pub type_idx: u32,
}

/// The ghost image of an [`Import`].
#[verifier::ext_equal]
pub ghost struct ImportV {
    pub module: Seq<char>,
    pub name: Seq<char>,
    pub type_idx: u32,
}

impl View for Import {
    type V = ImportV;

    open spec fn view(&self) -> ImportV {
        ImportV { module: self.module@, name: self.name@, type_idx: self.type_idx }
    }
}

/// How a global's initializer reads. The rewriter only ever writes
/// `i32.const` initializers; anything else is an opaque token.
#[derive(Clone, Copy, Debug, PartialEq, Eq, Structural)]
pub enum GlobalInit {
    I32(i32),
    Other(u64),
}

/// A global: its mutability and its initializer.
#[derive(Clone, Copy, Debug, PartialEq, Eq, Structural)]
pub struct Global {
    pub mutable: bool,
    pub init: GlobalInit,
}

/// A local function: its type, its extra locals (beyond the parameters)
/// and its instruction sequence, which includes the closing `end`.
#[derive(Debug, PartialEq, Eq)]
pub struct LocalFunc {
    pub type_idx: u32,
    pub locals: Vec<ValType>,
    pub body: Vec<Instr>,
}

/// The ghost image of a [`LocalFunc`].
#[verifier::ext_equal]
pub ghost struct FuncV {
    pub type_idx: u32,
    pub locals: Seq<ValType>,
    pub body: Seq<InstrV>,
}

impl View for LocalFunc {
    type V = FuncV;

    open spec fn view(&self) -> FuncV {
        FuncV {
            type_idx: self.type_idx,
            locals: self.locals@,
            body: self.body@.map_values(|i: Instr| i@),
        }
    }
}

/// A function export: its visible name and the exported function index.
#[derive(Debug, PartialEq, Eq)]
pub struct Export {
    pub name: String,
    pub index: u32,
}

/// The ghost image of an [`Export`].
#[verifier::ext_equal]
pub ghost struct ExportV {
    pub name: Seq<char>,
    pub index: u32,
}

impl View for Export {
    type V = ExportV;

    open spec fn view(&self) -> ExportV {
        ExportV { name: self.name@, index: self.index }
    }
}

/// The rewriter's view of a module.
#[derive(Debug, PartialEq, Eq)]
pub struct WasmModule {
    pub types: Vec<FuncType>,
    pub imports: Vec<Import>,
    pub funcs: Vec<LocalFunc>,
    pub globals: Vec<Global>,
    pub exports: Vec<Export>,
}

/// The ghost image of a [`WasmModule`].
#[verifier::ext_equal]
pub ghost struct ModuleV {
    pub types: Seq<TypeV>,
    pub imports: Seq<ImportV>,
    pub funcs: Seq<FuncV>,
    pub globals: Seq<Global>,
    pub exports: Seq<ExportV>,
}

impl View for WasmModule {
    type V = ModuleV;

    open spec fn view(&self) -> ModuleV {
        ModuleV {
            types: self.types@.map_values(|t: FuncType| t@),
            imports: self.imports@.map_values(|i: Import| i@),
            funcs: self.funcs@.map_values(|f: LocalFunc| f@),
            globals: self.globals@,
            exports: self.exports@.map_values(|e: Export| e@),
        }
    }
}

impl ModuleV {
    /// The size of the function index space: imported functions first,
    /// then local functions.
    pub open spec fn func_count(self) -> int {
        self.imports.len() + self.funcs.len() as int
    }
}

/// Does this instruction reference a function index, and is that
/// reference in range?
pub open spec fn instr_funcs_ok(i: InstrV, func_count: int) -> bool {
    match i {
        InstrV::Call(f) => f < func_count,
        _ => true,
    }
}

/// Does this instruction keep its global references in range?
pub open spec fn instr_globals_ok(i: InstrV, global_count: int) -> bool {
    match i {
        InstrV::GlobalGet(g) => g < global_count,
        InstrV::GlobalSet(g) => g < global_count,
        _ => true,
    }
}

/// Does this instruction keep its local references below `local_count`
/// (parameters plus declared locals)?
pub open spec fn instr_locals_ok(i: InstrV, local_count: int) -> bool {
    match i {
        InstrV::LocalGet(l) => l < local_count,
        InstrV::LocalTee(l) => l < local_count,
        _ => true,
    }
}

/// The number of locals addressable inside a function: its parameters
/// followed by its declared locals.
pub open spec fn func_local_count(m: ModuleV, f: FuncV) -> int {
    if f.type_idx < m.types.len() {
        m.types[f.type_idx as int].params.len() + f.locals.len() as int
    } else {
        f.locals.len() as int
    }
}

/// Every reference a function body makes is in range.
pub open spec fn func_body_ok(m: ModuleV, f: FuncV) -> bool {
    forall|j: int|
        0 <= j < f.body.len() ==> {
            &&& instr_funcs_ok(#[trigger] f.body[j], m.func_count())
            &&& instr_globals_ok(f.body[j], m.globals.len() as int)
            &&& instr_locals_ok(f.body[j], func_local_count(m, f))
        }
}

/// Structural well-formedness of a module: every type reference, function
/// reference, global reference, local reference and export target is in
/// range, and the index spaces still fit the binary format's `u32`
/// indices with room for the rewriter's additions.
pub open spec fn module_wf(m: ModuleV) -> bool {
    &&& m.types.len() <= u32::MAX
    &&& m.imports.len() + m.funcs.len() <= u32::MAX
    &&& m.globals.len() <= u32::MAX
    &&& forall|i: int| 0 <= i < m.imports.len() ==> (#[trigger] m.imports[i]).type_idx < m.types.len()
    &&& forall|i: int| 0 <= i < m.funcs.len() ==> (#[trigger] m.funcs[i]).type_idx < m.types.len()
    &&& forall|i: int| 0 <= i < m.funcs.len() ==> func_body_ok(m, #[trigger] m.funcs[i])
    &&& forall|i: int| 0 <= i < m.exports.len() ==> (#[trigger] m.exports[i]).index < m.func_count()
}


/// Checks one instruction's references against the given bounds.
fn check_instr(i: &Instr, func_count: u64, global_count: u64, local_count: u128) -> (r: bool)
    ensures
        r == (instr_funcs_ok(i@, func_count as int) && instr_globals_ok(i@, global_count as int)
            && instr_locals_ok(i@, local_count as int)),
{
    match i {
        Instr::Call(f) => (*f as u64) < func_count,
        Instr::GlobalGet(g) => (*g as u64) < global_count,
        Instr::GlobalSet(g) => (*g as u64) < global_count,
        Instr::LocalGet(l) => (*l as u128) < local_count,
        Instr::LocalTee(l) => (*l as u128) < local_count,
        _ => true,
    }
}

impl WasmModule {
    /// Checks the structural well-formedness the rewriter requires:
    /// every type reference, call target, global reference, local
    /// reference and export target in range, and the index spaces small
    /// enough for the binary format.
    pub fn check_wf(&self) -> (r: bool)
        ensures
            r == module_wf(self@),
    {
        if self.types.len() > u32::MAX as usize {
            return false;
        }
        if self.funcs.len() > u32::MAX as usize {
            return false;
        }
        if self.imports.len() > u32::MAX as usize - self.funcs.len() {
            return false;
        }
        if self.globals.len() > u32::MAX as usize {
            return false;
        }
        let func_count = (self.imports.len() as u64) + (self.funcs.len() as u64);
        let global_count = self.globals.len() as u64;
        let type_count = self.types.len();

        let mut i: usize = 0;
        while i < self.imports.len()
            invariant
                i <= self.imports@.len(),
                type_count == self.types@.len(),
                forall|t: int|
                    0 <= t < i ==> (#[trigger] self@.imports[t]).type_idx < self@.types.len(),
            decreases self.imports@.len() - i,
        {
            if self.imports[i].type_idx as usize >= type_count {
                proof {
                    assert(self@.imports[i as int].type_idx >= self@.types.len());
                }
                return false;
            }
            i = i + 1;
        }

        let mut j: usize = 0;
        while j < self.funcs.len()
            invariant
                j <= self.funcs@.len(),
                type_count == self.types@.len(),
                global_count == self.globals@.len(),
                func_count == self@.func_count(),
                forall|t: int|
                    0 <= t < j ==> (#[trigger] self@.funcs[t]).type_idx < self@.types.len(),
                forall|t: int|
                    0 <= t < j ==> func_body_ok(self@, #[trigger] self@.funcs[t]),
            decreases self.funcs@.len() - j,
        {
            let f = &self.funcs[j];
            if f.type_idx as usize >= type_count {
                proof {
                    assert(self@.funcs[j as int].type_idx >= self@.types.len());
                }
                return false;
            }
            let params = self.types[f.type_idx as usize].params.len();
            let local_count = (params as u128) + (f.locals.len() as u128);
            proof {
                assert(self@.funcs[j as int] == (self.funcs@[j as int])@);
                assert(func_local_count(self@, self@.funcs[j as int]) == local_count);
            }
            let mut k: usize = 0;
            while k < f.body.len()
                invariant
                    k <= f.body@.len(),
                    func_count == self@.func_count(),
                    global_count == self.globals@.len(),
                    f@ == self@.funcs[j as int],
                    j < self@.funcs.len(),
                    func_local_count(self@, self@.funcs[j as int]) == local_count,
                    forall|t: int|
                        0 <= t < k ==> {
                            &&& instr_funcs_ok(#[trigger] f@.body[t], func_count as int)
                            &&& instr_globals_ok(f@.body[t], global_count as int)
                            &&& instr_locals_ok(f@.body[t], local_count as int)
                        },
                decreases f.body@.len() - k,
            {
                proof {
                    assert(f@.body[k as int] == f.body@[k as int]@);
                }
                if !check_instr(&f.body[k], func_count, global_count, local_count) {
                    proof {
                        assert(!(instr_funcs_ok(self@.funcs[j as int].body[k as int],
                            self@.func_count()) && instr_globals_ok(
                            self@.funcs[j as int].body[k as int],
                            self@.globals.len() as int,
                        ) && instr_locals_ok(
                            self@.funcs[j as int].body[k as int],
                            func_local_count(self@, self@.funcs[j as int]),
                        )));
                        assert(!func_body_ok(self@, self@.funcs[j as int]));
                    }
                    return false;
                }
                k = k + 1;
            }
            proof {
                assert(func_body_ok(self@, self@.funcs[j as int]));
            }
            j = j + 1;
        }

        let mut e: usize = 0;
        while e < self.exports.len()
            invariant
                e <= self.exports@.len(),
                func_count == self@.func_count(),
                forall|t: int|
                    0 <= t < e ==> (#[trigger] self@.exports[t]).index < self@.func_count(),
            decreases self.exports@.len() - e,
        {
            if self.exports[e].index as u64 >= func_count {
                proof {
                    assert(self@.exports[e as int].index >= self@.func_count());
                }
                return false;
            }
            e = e + 1;
        }
        true
    }
}

} // verus!
