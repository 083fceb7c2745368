//! The campaign pieces end to end: the whole rewrite on small modules,
//! the coverage buffer, the dispositions, the registry, the feedback
//! state and the mutator's tuple-level behaviour.

use canfuzz::coverage::CoverageMap;
use canfuzz::feedback::{DecodeMap, OomLogic};
use canfuzz::fuzzer::{CanisterInfo, CanisterType, FuzzerState, WasmPath};
use canfuzz::harness::{iteration_actions, SimAction};
use canfuzz::idl::{ArgValue, SchemaType};
use canfuzz::instrument::{instrument_for_afl, FuzzError, Seed};
use canfuzz::mutator::{CandidParserMutator, MethodSignature, MutationAction, MutationResult};
use canfuzz::util::{
    bytes_contain, bytes_to_u64, parse_canister_result_for_trap, ExitKind, RejectCode,
    RejectResponse,
};
use canfuzz::wasm::{Global, GlobalInit, WasmModule};
use rand::SeedableRng;

fn empty_module() -> WasmModule {
    WasmModule {
        types: Vec::new(),
        imports: Vec::new(),
        funcs: Vec::new(),
        globals: Vec::new(),
        exports: Vec::new(),
    }
}

#[test]
fn instrument_empty_module_history_two() {
    let mut module = empty_module();
    let r = instrument_for_afl(&mut module, 2, Seed::Static(42));
    assert!(r.is_ok());

    // exactly two mutable previous-location slots, then the buffer base
    assert_eq!(module.globals.len(), 3);
    assert_eq!(module.globals[0], Global { mutable: true, init: GlobalInit::I32(0) });
    assert_eq!(module.globals[1], Global { mutable: true, init: GlobalInit::I32(0) });
    assert_eq!(module.globals[2], Global { mutable: false, init: GlobalInit::I32(0) });

    // no functions other than the two injected ones
    assert_eq!(module.funcs.len(), 2);
    assert_eq!(module.imports.len(), 2);

    // the export names the coverage entry point with a () -> () type
    assert_eq!(module.exports.len(), 1);
    assert_eq!(module.exports[0].name, "canister_update __export_coverage_for_afl");
    let cov_index = module.exports[0].index as usize;
    assert!(cov_index >= module.imports.len());
    let cov = &module.funcs[cov_index - module.imports.len()];
    let cov_ty = &module.types[cov.type_idx as usize];
    assert!(cov_ty.params.is_empty());
    assert!(cov_ty.results.is_empty());
}

#[test]
fn instrument_is_deterministic_under_static_seed() {
    let make = || {
        let mut module = empty_module();
        module.types.push(canfuzz::wasm::FuncType { params: Vec::new(), results: Vec::new() });
        module.funcs.push(canfuzz::wasm::LocalFunc {
            type_idx: 0,
            locals: Vec::new(),
            body: vec![
                canfuzz::wasm::Instr::Block(canfuzz::wasm::BlockKind::Empty),
                canfuzz::wasm::Instr::Nop,
                canfuzz::wasm::Instr::End,
                canfuzz::wasm::Instr::End,
            ],
        });
        module
    };
    let mut first = make();
    let mut second = make();
    assert!(instrument_for_afl(&mut first, 4, Seed::Static(7)).is_ok());
    assert!(instrument_for_afl(&mut second, 4, Seed::Static(7)).is_ok());
    assert_eq!(first, second);
}

#[test]
fn instrument_rejects_bad_history() {
    let mut module = empty_module();
    let before = empty_module();
    let r = instrument_for_afl(&mut module, 3, Seed::Static(1));
    assert_eq!(r, Err(FuzzError::InvalidHistory));
    assert_eq!(module, before);
}

#[test]
fn wf_check_catches_dangling_references() {
    let mut module = empty_module();
    assert!(module.check_wf());
    module.types.push(canfuzz::wasm::FuncType { params: Vec::new(), results: Vec::new() });
    module.funcs.push(canfuzz::wasm::LocalFunc {
        type_idx: 0,
        locals: Vec::new(),
        body: vec![canfuzz::wasm::Instr::Call(7), canfuzz::wasm::Instr::End],
    });
    assert!(!module.check_wf(), "a call past the function index space");
    module.funcs[0].body[0] = canfuzz::wasm::Instr::Call(0);
    assert!(module.check_wf());
}

#[test]
fn coverage_map_length_and_edges() {
    let mut map = CoverageMap::new(2);
    assert_eq!(map.edge_count(), 0);

    // a reply of the wrong length is refused and changes nothing
    let short = vec![1u8; 3];
    assert!(!map.absorb(&short));
    assert_eq!(map.edge_count(), 0);

    // one non-zero byte at position k across two inputs
    let k = 12345usize;
    let mut reply = vec![0u8; 65536 * 2];
    reply[k] = 7;
    assert!(map.absorb(&reply));
    assert_eq!(map.edge_count(), 1);
    assert!(map.absorb(&reply));
    assert_eq!(map.edge_count(), 1);

    map.clear();
    assert_eq!(map.edge_count(), 0);
}

#[test]
fn disposition_mapping_is_exhaustive() {
    let ok: Result<Vec<u8>, RejectResponse> = Ok(vec![1, 2, 3]);
    assert_eq!(parse_canister_result_for_trap(&ok), ExitKind::Normal);

    let cases = [
        (RejectCode::CanisterTrapped, ExitKind::Crash),
        (RejectCode::CanisterCalledTrap, ExitKind::Crash),
        (RejectCode::CanisterMemoryAccessLimitExceeded, ExitKind::Oom),
        (RejectCode::InsufficientMemoryAllocation, ExitKind::Oom),
        (RejectCode::CanisterOutOfMemory, ExitKind::Oom),
        (RejectCode::CanisterWasmMemoryLimitExceeded, ExitKind::Oom),
        (RejectCode::CanisterInstructionLimitExceeded, ExitKind::Timeout),
        (RejectCode::Other, ExitKind::Normal),
    ];
    for (code, expected) in cases {
        let r: Result<Vec<u8>, RejectResponse> = Err(RejectResponse { error_code: code });
        assert_eq!(parse_canister_result_for_trap(&r), expected);
    }
}

#[test]
fn bytes_to_u64_reads_little_endian() {
    assert_eq!(bytes_to_u64(&[]), 0);
    assert_eq!(bytes_to_u64(&[0x11, 0x22]), 0x2211);
    assert_eq!(
        bytes_to_u64(&[1, 0, 0, 0, 0, 0, 0, 0, 0xFF]),
        1,
        "only the first eight bytes count"
    );
    assert_eq!(bytes_to_u64(&[0, 0, 0, 0, 0, 0, 0, 0x80]), 0x8000000000000000);
}

#[test]
fn reject_message_trap_marker() {
    assert!(bytes_contain(b"IC0503: Canister trapped explicitly", b"Canister trapped"));
    assert!(!bytes_contain(b"all fine here", b"Canister trapped"));
    assert!(bytes_contain(b"abc", b""));
}

#[test]
fn build_dir_layout() {
    assert_eq!(
        canfuzz::canister_build::get_build_dir("target/canister_build"),
        "target/canister_build/wasm32-unknown-unknown/release"
    );
    assert_eq!(
        canfuzz::canister_build::instrumented_image_file("decode_candid"),
        "decode_candid_instrumented.wasm"
    );
}

#[test]
fn registry_lookups() {
    let canisters = vec![
        CanisterInfo {
            id: None,
            name: "target".to_string(),
            wasm_path: WasmPath::EnvVar("TARGET_WASM_PATH".to_string()),
            ty: CanisterType::Coverage,
        },
        CanisterInfo {
            id: None,
            name: "ledger".to_string(),
            wasm_path: WasmPath::Path("ledger.wasm".to_string()),
            ty: CanisterType::Support,
        },
    ];
    let mut state = FuzzerState::new("demo_fuzzer", canisters);
    assert_eq!(state.name(), "demo_fuzzer");
    assert_eq!(state.canister_count(), 2);
    assert_eq!(
        state.get_canister_names(),
        vec!["target".to_string(), "ledger".to_string()]
    );
    assert_eq!(state.get_canister_id_by_name("target"), None);

    state.set_canister_id(0, vec![0, 0, 0, 0, 1, 1, 1]);
    assert_eq!(state.get_canister_id_by_name("target"), Some(vec![0, 0, 0, 0, 1, 1, 1]));
    assert_eq!(state.get_coverage_canister_id(), Some(vec![0, 0, 0, 0, 1, 1, 1]));
    assert_eq!(
        state.get_canister_wasm_path_by_name("ledger"),
        Some(WasmPath::Path("ledger.wasm".to_string()))
    );
    assert_eq!(state.get_canister_wasm_path_by_name("unknown"), None);
}

#[test]
fn decode_map_tracks_improvements() {
    let mut map = DecodeMap::new();
    map.observe(10);
    assert!(map.is_interesting());
    assert_eq!(map.previous_ratio, 10);
    map.observe(5);
    assert!(!map.is_interesting());
    assert_eq!(map.previous_ratio, 10);
    map.observe(11);
    assert!(map.is_interesting());
    assert_eq!(map.previous_ratio, 11);
}

#[test]
fn oom_logic_matches_only_oom() {
    assert!(OomLogic::check_exit_kind(&ExitKind::Oom));
    assert!(!OomLogic::check_exit_kind(&ExitKind::Normal));
    assert!(!OomLogic::check_exit_kind(&ExitKind::Crash));
    assert!(!OomLogic::check_exit_kind(&ExitKind::Timeout));
}

#[test]
fn iteration_runs_setup_execute_readback() {
    let actions = iteration_actions(vec![9, 9, 9]);
    assert_eq!(actions.len(), 3);
    assert_eq!(actions[0], SimAction::RestoreBaseline);
    assert_eq!(actions[1], SimAction::Invoke(vec![9, 9, 9]));
    assert_eq!(actions[2], SimAction::ReadCoverage);
}

fn nat8_signature() -> MethodSignature {
    MethodSignature {
        env: Vec::new(),
        arg_types: vec![SchemaType::Nat8],
        method_name: "fuzz_me".to_string(),
    }
}

#[test]
fn mutator_disabled_never_mutates_in_place() {
    let mutator = CandidParserMutator::new(None);
    let mut rng = rand::rngs::StdRng::seed_from_u64(1);
    for _ in 0..100 {
        let action = mutator.choose_action(&mut rng);
        assert_ne!(action, MutationAction::MutateExisting);
    }
}

#[test]
fn mutator_enabled_never_skips() {
    let mutator = CandidParserMutator::new(Some(nat8_signature()));
    let mut rng = rand::rngs::StdRng::seed_from_u64(2);
    for _ in 0..100 {
        let action = mutator.choose_action(&mut rng);
        assert_ne!(action, MutationAction::Skip);
    }
}

#[test]
fn mutator_discards_ill_formed_signatures() {
    // two record fields with the same wire id
    let clash = SchemaType::Record(vec![
        canfuzz::idl::FieldType {
            label: canfuzz::idl::FieldLabel::Id(7),
            ty: SchemaType::Bool,
        },
        canfuzz::idl::FieldType {
            label: canfuzz::idl::FieldLabel::Id(7),
            ty: SchemaType::Nat8,
        },
    ]);
    let sig = MethodSignature {
        env: Vec::new(),
        arg_types: vec![clash],
        method_name: "fuzz_me".to_string(),
    };
    let mutator = CandidParserMutator::new(Some(sig));
    let mut rng = rand::rngs::StdRng::seed_from_u64(4);
    for _ in 0..100 {
        assert_ne!(mutator.choose_action(&mut rng), MutationAction::MutateExisting);
    }
}

#[test]
fn generate_args_empty_signature_succeeds() {
    let sig = MethodSignature {
        env: Vec::new(),
        arg_types: Vec::new(),
        method_name: "fuzz_me".to_string(),
    };
    let mutator = CandidParserMutator::new(Some(sig));
    let mut rng = rand::rngs::StdRng::seed_from_u64(6);
    let args = mutator.generate_args(&mut rng).expect("an empty tuple always generates");
    assert!(args.is_empty());
}

#[test]
fn rewriter_precondition_checker_accepts_small_modules() {
    let module = empty_module();
    assert!(module.check_rewriter_ready());
}

#[test]
fn mutate_args_keeps_the_schema() {
    let mutator = CandidParserMutator::new(Some(nat8_signature()));
    let mut rng = rand::rngs::StdRng::seed_from_u64(7355608);
    let mut args = vec![ArgValue::Nat8(10)];
    let r = mutator.mutate_args(&mut args, &mut rng);
    assert_eq!(r, MutationResult::Mutated);
    assert_eq!(args.len(), 1);
    assert!(matches!(args[0], ArgValue::Nat8(_)));
    assert_eq!(args, vec![ArgValue::Nat8(238)]);
}

#[test]
fn mutate_args_skips_wrong_arity_untouched() {
    let mutator = CandidParserMutator::new(Some(nat8_signature()));
    let mut rng = rand::rngs::StdRng::seed_from_u64(3);
    let mut args = vec![ArgValue::Nat8(1), ArgValue::Nat8(2)];
    let r = mutator.mutate_args(&mut args, &mut rng);
    assert_eq!(r, MutationResult::Skipped);
    assert_eq!(args, vec![ArgValue::Nat8(1), ArgValue::Nat8(2)]);
}

#[test]
fn generate_args_fits_the_signature() {
    let sig = MethodSignature {
        env: Vec::new(),
        arg_types: vec![SchemaType::Bool, SchemaType::Nat8, SchemaType::Text],
        method_name: "fuzz_me".to_string(),
    };
    let mutator = CandidParserMutator::new(Some(sig));
    let mut rng = rand::rngs::StdRng::seed_from_u64(5);
    let args = mutator.generate_args(&mut rng).expect("generation succeeds");
    assert_eq!(args.len(), 3);
    assert!(matches!(args[0], ArgValue::Bool(_)));
    assert!(matches!(args[1], ArgValue::Nat8(_)));
    assert!(matches!(args[2], ArgValue::Text(_)));
}
