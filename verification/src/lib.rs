//! Coverage-guided fuzzing support for sandboxed WebAssembly canisters.
//!
//! The crate centres on three subsystems: a rewriter that instruments a
//! module with AFL-style edge tracking ([`instrument`]), a schema-aware
//! mutator for the platform's typed argument encoding ([`mutator`]), and the
//! bookkeeping that a fuzzing campaign needs around them: the canister
//! registry ([`fuzzer`]), the coverage buffer ([`coverage`]), exit
//! dispositions ([`util`]) and the per-iteration harness contract
//! ([`harness`]).

use vstd::prelude::*;

pub mod bignum;
pub mod canister_build;
pub mod coverage;
pub mod feedback;
pub mod fuzzer;
pub mod harness;
pub mod idl;
pub mod instrument;
pub mod mutator;
pub mod rng;
pub mod util;
pub mod wasm;

verus! {

/// Size of one history slot of the coverage map, in bytes. The full map
/// holds `AFL_COVERAGE_MAP_SIZE * history_size` saturating hit counters.
pub const AFL_COVERAGE_MAP_SIZE: i32 = 65536;

/// Module name under which the host system interface is imported.
pub const API_VERSION_IC0: &'static str = "ic0";

/// Name under which the injected coverage-export entry point is exported
/// (prefixed with the platform's `canister_update ` method-kind marker).
pub const COVERAGE_FN_EXPORT_NAME: &'static str = "__export_coverage_for_afl";

} // verus!
