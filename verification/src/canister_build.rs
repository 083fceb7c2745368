//! What the canister build step decides: which canisters to build, and
//! where the built images land. Running the build tool and exporting
//! environment variables happens outside the library.

use vstd::prelude::*;
use vstd::string::StringExecFns;

verus! {

/// One canister to build: its package name and the environment variable
/// that will carry the built image's path.
#[derive(Debug)]
pub struct CanisterBuildOpts {
    pub name: String,
    pub env_var: String,
}

/// The directory the built images land in, under the given target
/// directory.
pub open spec fn build_dir_of(target_dir: Seq<char>) -> Seq<char> {
    target_dir + "/wasm32-unknown-unknown/release"@
}

/// Appends the release-build subdirectory to the target directory.
pub fn get_build_dir(target_dir: &str) -> (r: String)
    ensures
        r@ == build_dir_of(target_dir@),
{
    let mut out = target_dir.to_owned();
    out.append("/wasm32-unknown-unknown/release");
    out
}

/// The filename of a canister's instrumented image.
pub open spec fn instrumented_image_name(name: Seq<char>) -> Seq<char> {
    name + "_instrumented.wasm"@
}

/// Appends the instrumented-image suffix to a canister name.
pub fn instrumented_image_file(name: &str) -> (r: String)
    ensures
        r@ == instrumented_image_name(name@),
{
    let mut out = name.to_owned();
    out.append("_instrumented.wasm");
    out
}

} // verus!
