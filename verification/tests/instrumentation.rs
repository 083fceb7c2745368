//! The rewriter, step by step: global injection, host-import handling,
//! the helper and the coverage export, and branch instrumentation under
//! a static seed.

use canfuzz::instrument::{
    afl_instrumentation_slice, ensure_ic0_imports, inject_afl_coverage_export, inject_globals,
    instrument_branches, Seed,
};
use canfuzz::wasm::{
    BlockKind, Export, FuncType, Global, GlobalInit, Import, Instr, LocalFunc, WasmModule,
};

fn empty_module() -> WasmModule {
    WasmModule {
        types: Vec::new(),
        imports: Vec::new(),
        funcs: Vec::new(),
        globals: Vec::new(),
        exports: Vec::new(),
    }
}

fn zero_global() -> Global {
    Global { mutable: true, init: GlobalInit::I32(0) }
}

fn func_type(params: Vec<canfuzz::wasm::ValType>, results: Vec<canfuzz::wasm::ValType>) -> FuncType {
    FuncType { params, results }
}

fn i32ty() -> canfuzz::wasm::ValType {
    canfuzz::wasm::ValType::I32
}

#[test]
fn inject_globals_empty_module() {
    let history_range: [usize; 4] = [1, 2, 4, 8];
    for history_size in history_range {
        let mut module = empty_module();
        let (afl_prev_loc_indices, afl_mem_ptr_idx) = inject_globals(&mut module, history_size);

        assert_eq!(afl_prev_loc_indices.len(), history_size);
        (0..history_size).for_each(|index| {
            assert_eq!(afl_prev_loc_indices[index], index as u32);
        });
        assert_eq!(afl_mem_ptr_idx, history_size as u32);
    }
}

#[test]
fn inject_globals_two_globals() {
    let offset: u32 = 2;

    let history_range: [usize; 4] = [1, 2, 4, 8];
    for history_size in history_range {
        let mut module = empty_module();
        module.globals.push(zero_global());
        module.globals.push(zero_global());
        let (afl_prev_loc_indices, afl_mem_ptr_idx) = inject_globals(&mut module, history_size);

        assert_eq!(afl_prev_loc_indices.len(), history_size);
        (0..history_size).for_each(|index| {
            assert_eq!(afl_prev_loc_indices[index], index as u32 + offset);
        });
        assert_eq!(afl_mem_ptr_idx, history_size as u32 + offset);
    }
}

#[test]
fn inject_globals_check_global_values() {
    let validate_global = |global: &Global, mutable: bool| {
        assert_eq!(global.mutable, mutable);
        assert_eq!(global.init, GlobalInit::I32(0));
    };

    let history_range: [usize; 4] = [1, 2, 4, 8];
    for history_size in history_range {
        let mut module = empty_module();
        module.globals.push(zero_global());
        module.globals.push(zero_global());
        let (afl_prev_loc_indices, afl_mem_ptr_idx) = inject_globals(&mut module, history_size);

        for g in afl_prev_loc_indices.iter() {
            validate_global(&module.globals[*g as usize], true);
        }
        validate_global(&module.globals[afl_mem_ptr_idx as usize], false);
    }
}

#[test]
fn inject_ic0_imports_empty_module() {
    let mut module = empty_module();
    let (data_append_idx, reply_idx) = ensure_ic0_imports(&mut module);

    assert_eq!(data_append_idx, 0);
    assert_eq!(reply_idx, 1);
}

#[test]
fn inject_ic0_imports_one_import() {
    let mut module = empty_module();
    module.types.push(func_type(vec![i32ty()], Vec::new()));
    module.imports.push(Import {
        module: "ic0".to_string(),
        name: "dummy".to_string(),
        type_idx: 0,
    });

    let (data_append_idx, reply_idx) = ensure_ic0_imports(&mut module);

    assert_eq!(data_append_idx, 1);
    assert_eq!(reply_idx, 2);
}

#[test]
fn inject_ic0_imports_data_append_exists() {
    let mut module = empty_module();
    module.types.push(func_type(vec![i32ty(), i32ty()], Vec::new()));
    module.imports.push(Import {
        module: "ic0".to_string(),
        name: "msg_reply_data_append".to_string(),
        type_idx: 0,
    });

    let (data_append_idx, reply_idx) = ensure_ic0_imports(&mut module);

    assert_eq!(data_append_idx, 0);
    assert_eq!(reply_idx, 1);
}

#[test]
fn inject_ic0_imports_reply_exists() {
    let mut module = empty_module();
    module.types.push(func_type(Vec::new(), Vec::new()));
    module.imports.push(Import {
        module: "ic0".to_string(),
        name: "msg_reply".to_string(),
        type_idx: 0,
    });

    let (data_append_idx, reply_idx) = ensure_ic0_imports(&mut module);

    assert_eq!(data_append_idx, 1);
    assert_eq!(reply_idx, 0);
}

#[test]
fn inject_ic0_imports_both_exists() {
    let mut module = empty_module();
    module.types.push(func_type(vec![i32ty(), i32ty()], Vec::new()));
    module.types.push(func_type(Vec::new(), Vec::new()));
    module.imports.push(Import {
        module: "ic0".to_string(),
        name: "msg_reply_data_append".to_string(),
        type_idx: 0,
    });
    module.imports.push(Import {
        module: "ic0".to_string(),
        name: "msg_reply".to_string(),
        type_idx: 1,
    });

    let (data_append_idx, reply_idx) = ensure_ic0_imports(&mut module);

    assert_eq!(data_append_idx, 0);
    assert_eq!(reply_idx, 1);
}

#[test]
fn inject_instrumentation_function_empty_module() {
    let history_size = 2;
    let mut module = empty_module();
    let (afl_prev_loc_indices, afl_mem_ptr_idx) = inject_globals(&mut module, history_size);
    let instrumentation_function =
        afl_instrumentation_slice(&mut module, &afl_prev_loc_indices, afl_mem_ptr_idx);
    assert_eq!(instrumentation_function, 0);

    assert_eq!(module.types, vec![func_type(vec![i32ty()], Vec::new())]);
    assert_eq!(module.funcs.len(), 1);
    let helper = &module.funcs[0];
    assert_eq!(helper.type_idx, 0);
    assert_eq!(helper.locals, vec![i32ty()]);
    assert_eq!(
        helper.body,
        vec![
            Instr::LocalGet(0),
            Instr::GlobalGet(0),
            Instr::I32Xor,
            Instr::GlobalGet(1),
            Instr::I32Xor,
            Instr::GlobalGet(2),
            Instr::I32Add,
            Instr::LocalTee(1),
            Instr::LocalGet(1),
            Instr::I32Load8U,
            Instr::I32Const(1),
            Instr::I32Add,
            Instr::I32Store8,
            Instr::GlobalGet(0),
            Instr::I32Const(1),
            Instr::I32ShrU,
            Instr::GlobalSet(1),
            Instr::LocalGet(0),
            Instr::I32Const(1),
            Instr::I32ShrU,
            Instr::GlobalSet(0),
            Instr::End,
        ]
    );
}

#[test]
fn inject_afl_coverage_export_empty_module() {
    let history_size = 2;
    let mut module = empty_module();
    let (_, afl_mem_ptr_idx) = inject_globals(&mut module, history_size);
    inject_afl_coverage_export(&mut module, history_size, afl_mem_ptr_idx);

    assert_eq!(
        module.imports,
        vec![
            Import {
                module: "ic0".to_string(),
                name: "msg_reply_data_append".to_string(),
                type_idx: 0,
            },
            Import { module: "ic0".to_string(), name: "msg_reply".to_string(), type_idx: 1 },
        ]
    );
    assert_eq!(module.types[0], func_type(vec![i32ty(), i32ty()], Vec::new()));
    assert_eq!(module.types[1], func_type(Vec::new(), Vec::new()));
    assert_eq!(module.funcs.len(), 1);
    assert_eq!(
        module.funcs[0].body,
        vec![
            Instr::GlobalGet(2),
            Instr::I32Const(131072),
            Instr::Call(0),
            Instr::Call(1),
            Instr::GlobalGet(2),
            Instr::I32Const(0),
            Instr::I32Const(131072),
            Instr::MemoryFill,
            Instr::End,
        ]
    );
    assert_eq!(
        module.exports,
        vec![
            Export {
                name: "canister_update __export_coverage_for_afl".to_string(),
                index: 2,
            },
        ]
    );
}

fn one_func_module(body: Vec<Instr>) -> WasmModule {
    let mut module = empty_module();
    module.types.push(func_type(Vec::new(), Vec::new()));
    module.funcs.push(LocalFunc { type_idx: 0, locals: Vec::new(), body });
    module
}

fn instrument_branches_helper(body: Vec<Instr>, expected: Vec<Instr>) {
    let history_size = 2;
    let mut module = one_func_module(body);
    let (afl_prev_loc_indices, afl_mem_ptr_idx) = inject_globals(&mut module, history_size);
    instrument_branches(
        &mut module,
        &afl_prev_loc_indices,
        afl_mem_ptr_idx,
        Seed::Static(42),
    );

    assert_eq!(module.funcs[0].body, expected);
}

#[test]
fn inject_branch_instrumentation_one_func() {
    instrument_branches_helper(
        vec![Instr::End],
        vec![Instr::I32Const(17486), Instr::Call(1), Instr::End],
    );
}

#[test]
fn inject_branch_instrumentation_one_func_one_block() {
    instrument_branches_helper(
        vec![Instr::Block(BlockKind::Empty), Instr::Nop, Instr::End, Instr::End],
        vec![
            Instr::I32Const(17486),
            Instr::Call(1),
            Instr::Block(BlockKind::Empty),
            Instr::I32Const(69016),
            Instr::Call(1),
            Instr::Nop,
            Instr::End,
            Instr::End,
        ],
    );
}

#[test]
fn inject_branch_instrumentation_one_func_one_loop() {
    instrument_branches_helper(
        vec![Instr::Loop(BlockKind::Empty), Instr::Nop, Instr::End, Instr::End],
        vec![
            Instr::I32Const(17486),
            Instr::Call(1),
            Instr::Loop(BlockKind::Empty),
            Instr::I32Const(69016),
            Instr::Call(1),
            Instr::Nop,
            Instr::End,
            Instr::End,
        ],
    );
}

#[test]
fn inject_branch_instrumentation_one_func_one_if() {
    instrument_branches_helper(
        vec![
            Instr::I32Const(0),
            Instr::If(BlockKind::Empty),
            Instr::Nop,
            Instr::End,
            Instr::End,
        ],
        vec![
            Instr::I32Const(17486),
            Instr::Call(1),
            Instr::I32Const(0),
            Instr::If(BlockKind::Empty),
            Instr::I32Const(69016),
            Instr::Call(1),
            Instr::Nop,
            Instr::End,
            Instr::End,
        ],
    );
}

#[test]
fn inject_branch_instrumentation_one_func_one_if_else() {
    instrument_branches_helper(
        vec![
            Instr::I32Const(0),
            Instr::If(BlockKind::Empty),
            Instr::Nop,
            Instr::Else,
            Instr::Nop,
            Instr::End,
            Instr::End,
        ],
        vec![
            Instr::I32Const(17486),
            Instr::Call(1),
            Instr::I32Const(0),
            Instr::If(BlockKind::Empty),
            Instr::I32Const(69016),
            Instr::Call(1),
            Instr::Nop,
            Instr::Else,
            Instr::I32Const(32602),
            Instr::Call(1),
            Instr::Nop,
            Instr::End,
            Instr::End,
        ],
    );
}

#[test]
fn inject_branch_instrumentation_one_func_one_br() {
    instrument_branches_helper(
        vec![Instr::Block(BlockKind::Empty), Instr::Br(0), Instr::End, Instr::End],
        vec![
            Instr::I32Const(17486),
            Instr::Call(1),
            Instr::Block(BlockKind::Empty),
            Instr::I32Const(69016),
            Instr::Call(1),
            Instr::I32Const(32602),
            Instr::Call(1),
            Instr::Br(0),
            Instr::End,
            Instr::End,
        ],
    );
}

#[test]
fn inject_branch_instrumentation_one_func_one_brif() {
    instrument_branches_helper(
        vec![
            Instr::Block(BlockKind::Empty),
            Instr::I32Const(0),
            Instr::BrIf(0),
            Instr::End,
            Instr::End,
        ],
        vec![
            Instr::I32Const(17486),
            Instr::Call(1),
            Instr::Block(BlockKind::Empty),
            Instr::I32Const(69016),
            Instr::Call(1),
            Instr::I32Const(0),
            Instr::I32Const(32602),
            Instr::Call(1),
            Instr::BrIf(0),
            Instr::End,
            Instr::End,
        ],
    );
}

#[test]
fn inject_branch_instrumentation_one_func_one_return() {
    instrument_branches_helper(
        vec![Instr::Return, Instr::End],
        vec![
            Instr::I32Const(17486),
            Instr::Call(1),
            Instr::I32Const(69016),
            Instr::Call(1),
            Instr::Return,
            Instr::End,
        ],
    );
}

#[test]
fn inject_branch_instrumentation_one_func_one_brtable() {
    instrument_branches_helper(
        vec![
            Instr::Block(BlockKind::Empty),
            Instr::I32Const(0),
            Instr::BrTable(vec![0], 0),
            Instr::End,
            Instr::End,
        ],
        vec![
            Instr::I32Const(17486),
            Instr::Call(1),
            Instr::Block(BlockKind::Empty),
            Instr::I32Const(69016),
            Instr::Call(1),
            Instr::I32Const(0),
            Instr::I32Const(32602),
            Instr::Call(1),
            Instr::BrTable(vec![0], 0),
            Instr::End,
            Instr::End,
        ],
    );
}
