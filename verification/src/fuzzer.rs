//! The canister registry of a fuzzing campaign: the ordered canister
//! entries, with the rule that exactly one entry is the coverage
//! canister. The simulator itself lives outside the library; entries
//! carry the assigned canister identity as its raw principal bytes.

use vstd::prelude::*;
use crate::util::str_eq;

verus! {

/// A canister's role in the campaign.
#[derive(PartialEq, Eq, PartialOrd, Ord, Debug, Clone, Copy, Structural)]
pub enum CanisterType {
    /// The canister instrumented for coverage; exactly one per campaign.
    Coverage,
    /// A supporting canister, installed but not tracked for coverage.
    Support,
}

/// Where a canister's module image comes from.
#[derive(PartialEq, Eq, PartialOrd, Ord, Debug)]
pub enum WasmPath {
    /// The path is the value of this environment variable.
    EnvVar(String),
    /// A literal filesystem path.
    Path(String),
}

impl Clone for WasmPath {
    /// A clone is equal to the original.
    fn clone(&self) -> (r: Self)
        ensures
            r == *self,
    {
        match self {
            WasmPath::EnvVar(s) => WasmPath::EnvVar(s.clone()),
            WasmPath::Path(s) => WasmPath::Path(s.clone()),
        }
    }
}

/// One canister of the campaign.
#[derive(Debug)]
pub struct CanisterInfo {
    /// The assigned identity's raw principal bytes; set once, at install
    /// time.
    pub id: Option<Vec<u8>>,
    /// The unique friendly name the harness uses.
    pub name: String,
    /// Where the module image comes from.
    pub wasm_path: WasmPath,
    /// The canister's role.
    pub ty: CanisterType,
}

/// How many entries are coverage canisters.
pub open spec fn coverage_count(s: Seq<CanisterInfo>) -> nat
    decreases s.len(),
{
    if s.len() == 0 {
        0
    } else {
        coverage_count(s.drop_last()) + if s.last().ty == CanisterType::Coverage {
            1nat
        } else {
            0nat
        }
    }
}

/// The campaign's registry: its name and its canisters, with exactly
/// one coverage canister.
pub struct FuzzerState {
    name: String,
    canisters: Vec<CanisterInfo>,
}

impl FuzzerState {
    /// The campaign's name.
    pub closed spec fn spec_name(self) -> Seq<char> {
        self.name@
    }

    /// The registered canisters, in registration order.
    pub closed spec fn spec_canisters(self) -> Seq<CanisterInfo> {
        self.canisters@
    }

    /// The registry's invariant: exactly one coverage canister.
    pub open spec fn wf(self) -> bool {
        coverage_count(self.spec_canisters()) == 1
    }

    /// Builds the registry. The one-coverage-canister rule is enforced
    /// here: callers hand in exactly one entry with the coverage role.
    pub fn new(name: &str, canisters: Vec<CanisterInfo>) -> (r: FuzzerState)
        requires
            coverage_count(canisters@) == 1,
        ensures
            r.wf(),
            r.spec_name() == name@,
            r.spec_canisters() == canisters@,
    {
        FuzzerState { name: name.to_owned(), canisters }
    }

    /// The campaign's name.
    pub fn name(&self) -> (r: &str)
        ensures
            r@ == self.spec_name(),
    {
        self.name.as_str()
    }

    /// How many canisters are registered.
    pub fn canister_count(&self) -> (r: usize)
        ensures
            r == self.spec_canisters().len(),
    {
        self.canisters.len()
    }

    /// The identity of the first (and only) coverage canister: nothing
    /// when no coverage canister is registered or its identity is not
    /// yet assigned.
    pub fn get_coverage_canister_id(&self) -> (r: Option<Vec<u8>>)
        ensures
            match r {
                Option::Some(id) => exists|i: int|
                    0 <= i < self.spec_canisters().len() && {
                        let c = #[trigger] self.spec_canisters()[i];
                        c.ty == CanisterType::Coverage && (c.id matches Option::Some(v)
                            && v@ == id@)
                    },
                Option::None => (exists|i: int|
                    0 <= i < self.spec_canisters().len() && {
                        let c = #[trigger] self.spec_canisters()[i];
                        c.ty == CanisterType::Coverage && c.id is None
                    }) || (forall|i: int|
                    0 <= i < self.spec_canisters().len() ==> (
                    #[trigger] self.spec_canisters()[i]).ty != CanisterType::Coverage),
            },
    {
        let n = self.canisters.len();
        let mut i: usize = 0;
        while i < n
            invariant
                i <= n,
                n == self.canisters@.len(),
                forall|t: int|
                    0 <= t < i ==> (#[trigger] self.spec_canisters()[t]).ty
                        != CanisterType::Coverage,
            decreases n - i,
        {
            let c = &self.canisters[i];
            if c.ty == CanisterType::Coverage {
                match &c.id {
                    Option::Some(id) => {
                        let out = copy_bytes(id);
                        proof {
                            assert(self.spec_canisters()[i as int].ty == CanisterType::Coverage);
                        }
                        return Option::Some(out);
                    },
                    Option::None => {
                        return Option::None;
                    },
                }
            }
            i = i + 1;
        }
        Option::None
    }

    /// The identity of the first canister with this friendly name:
    /// nothing when no canister carries the name or the first carrier's
    /// identity is not yet assigned.
    pub fn get_canister_id_by_name(&self, name: &str) -> (r: Option<Vec<u8>>)
        ensures
            match r {
                Option::Some(id) => exists|i: int|
                    0 <= i < self.spec_canisters().len() && {
                        let c = #[trigger] self.spec_canisters()[i];
                        c.name@ == name@ && (c.id matches Option::Some(v) && v@ == id@)
                    },
                Option::None => (exists|i: int|
                    0 <= i < self.spec_canisters().len() && {
                        let c = #[trigger] self.spec_canisters()[i];
                        c.name@ == name@ && c.id is None
                    }) || (forall|i: int|
                    0 <= i < self.spec_canisters().len() ==> (
                    #[trigger] self.spec_canisters()[i]).name@ != name@),
            },
    {
        let n = self.canisters.len();
        let mut i: usize = 0;
        while i < n
            invariant
                i <= n,
                n == self.canisters@.len(),
                forall|t: int|
                    0 <= t < i ==> (#[trigger] self.spec_canisters()[t]).name@ != name@,
            decreases n - i,
        {
            let c = &self.canisters[i];
            if str_eq(c.name.as_str(), name) {
                match &c.id {
                    Option::Some(id) => {
                        let out = copy_bytes(id);
                        proof {
                            assert(self.spec_canisters()[i as int].name@ == name@);
                        }
                        return Option::Some(out);
                    },
                    Option::None => {
                        return Option::None;
                    },
                }
            }
            i = i + 1;
        }
        Option::None
    }

    /// The image source of the first canister with this friendly name.
    pub fn get_canister_wasm_path_by_name(&self, name: &str) -> (r: Option<WasmPath>)
        ensures
            match r {
                Option::Some(p) => exists|i: int|
                    0 <= i < self.spec_canisters().len() && {
                        let c = #[trigger] self.spec_canisters()[i];
                        c.name@ == name@ && c.wasm_path == p
                    },
                Option::None => forall|i: int|
                    0 <= i < self.spec_canisters().len() ==> (
                    #[trigger] self.spec_canisters()[i]).name@ != name@,
            },
    {
        let n = self.canisters.len();
        let mut i: usize = 0;
        while i < n
            invariant
                i <= n,
                n == self.canisters@.len(),
                forall|t: int|
                    0 <= t < i ==> (#[trigger] self.spec_canisters()[t]).name@ != name@,
            decreases n - i,
        {
            let c = &self.canisters[i];
            if str_eq(c.name.as_str(), name) {
                return Option::Some(c.wasm_path.clone());
            }
            i = i + 1;
        }
        Option::None
    }

    /// All friendly names, in registration order.
    pub fn get_canister_names(&self) -> (r: Vec<String>)
        ensures
            r@.len() == self.spec_canisters().len(),
            forall|i: int|
                0 <= i < r@.len() ==> (#[trigger] r@[i])@ == self.spec_canisters()[i].name@,
    {
        let n = self.canisters.len();
        let mut out: Vec<String> = Vec::new();
        let mut i: usize = 0;
        while i < n
            invariant
                i <= n,
                n == self.canisters@.len(),
                out@.len() == i,
                forall|t: int|
                    0 <= t < i ==> (#[trigger] out@[t])@ == self.spec_canisters()[t].name@,
            decreases n - i,
        {
            out.push(self.canisters[i].name.clone());
            i = i + 1;
        }
        out
    }

    /// Records the identity assigned to the canister at `index`; the
    /// setup phase calls this once per canister after installing it.
    pub fn set_canister_id(&mut self, index: usize, id: Vec<u8>)
        requires
            index < old(self).spec_canisters().len(),
        ensures
            final(self).spec_name() == old(self).spec_name(),
            final(self).spec_canisters().len() == old(self).spec_canisters().len(),
            final(self).spec_canisters()[index as int].id == Option::Some(id),
            final(self).spec_canisters()[index as int].name == old(
                self,
            ).spec_canisters()[index as int].name,
            final(self).spec_canisters()[index as int].ty == old(
                self,
            ).spec_canisters()[index as int].ty,
            forall|i: int|
                0 <= i < old(self).spec_canisters().len() && i != index
                    ==> final(self).spec_canisters()[i] == old(self).spec_canisters()[i],
            old(self).wf() ==> final(self).wf(),
    {
        let c = &self.canisters[index];
        let name2 = c.name.clone();
        let path2 = c.wasm_path.clone();
        let ty2 = c.ty;
        let replacement = CanisterInfo { id: Option::Some(id), name: name2, wasm_path: path2, ty: ty2 };
        self.canisters.set(index, replacement);
        proof {
            if old(self).wf() {
                lemma_coverage_count_same(old(self).spec_canisters(), self.spec_canisters());
            }
        }
    }

    /// A borrow of the canister at `index`.
    pub fn get_canister_info(&self, index: usize) -> (r: &CanisterInfo)
        requires
            index < self.spec_canisters().len(),
        ensures
            *r == self.spec_canisters()[index as int],
    {
        &self.canisters[index]
    }
}

/// Two registries whose entries agree on their roles count the same
/// number of coverage canisters.
proof fn lemma_coverage_count_same(a: Seq<CanisterInfo>, b: Seq<CanisterInfo>)
    requires
        a.len() == b.len(),
        forall|i: int| 0 <= i < a.len() ==> (#[trigger] a[i]).ty == b[i].ty,
    ensures
        coverage_count(a) == coverage_count(b),
    decreases a.len(),
{
    if a.len() > 0 {
        assert forall|i: int| 0 <= i < a.drop_last().len() implies (
        #[trigger] a.drop_last()[i]).ty == b.drop_last()[i].ty by {
            assert(a.drop_last()[i] == a[i]);
            assert(b.drop_last()[i] == b[i]);
        }
        lemma_coverage_count_same(a.drop_last(), b.drop_last());
        assert(a[a.len() - 1].ty == b[a.len() - 1].ty);
    }
}

/// A copy of a byte vector.
fn copy_bytes(a: &Vec<u8>) -> (r: Vec<u8>)
    ensures
        r@ == a@,
{
    let mut out: Vec<u8> = Vec::new();
    let mut i: usize = 0;
    while i < a.len()
        invariant
            i <= a@.len(),
            out@ =~= a@.subrange(0, i as int),
        decreases a@.len() - i,
    {
        out.push(a[i]);
        i = i + 1;
    }
    proof {
        assert(out@ =~= a@);
    }
    out
}

} // verus!
