//! The per-iteration harness contract: what the fuzz loop asks of the
//! simulator for each input, and in what order. The simulator work
//! itself happens outside the library; the library fixes the plan and
//! proves what the plan guarantees about the state each input sees.

use vstd::prelude::*;

verus! {

/// One simulator action of an iteration.
#[derive(Debug, PartialEq, Eq)]
pub enum SimAction {
    /// Restore the baseline snapshot taken after installation.
    RestoreBaseline,
    /// Submit these bytes to the coverage canister's fuzz entry point.
    Invoke(Vec<u8>),
    /// Call the coverage-export entry point and absorb the reply.
    ReadCoverage,
}

/// The ghost image of a [`SimAction`].
pub ghost enum SimActionV {
    RestoreBaseline,
    Invoke(Seq<u8>),
    ReadCoverage,
}

impl View for SimAction {
    type V = SimActionV;

    open spec fn view(&self) -> SimActionV {
        match *self {
            SimAction::RestoreBaseline => SimActionV::RestoreBaseline,
            SimAction::Invoke(ref b) => SimActionV::Invoke(b@),
            SimAction::ReadCoverage => SimActionV::ReadCoverage,
        }
    }
}

/// The plan of one iteration: restore the baseline, execute the input,
/// read the coverage back.
pub open spec fn iteration_plan(input: Seq<u8>) -> Seq<SimActionV> {
    seq![SimActionV::RestoreBaseline, SimActionV::Invoke(input), SimActionV::ReadCoverage]
}

/// Lays out one iteration for the given input, in the order the loop
/// must perform it: setup, execute, coverage read-back.
pub fn iteration_actions(input: Vec<u8>) -> (r: Vec<SimAction>)
    ensures
        r@.map_values(|a: SimAction| a@) =~= iteration_plan(input@),
{
    let mut out: Vec<SimAction> = Vec::new();
    out.push(SimAction::RestoreBaseline);
    out.push(SimAction::Invoke(input));
    out.push(SimAction::ReadCoverage);
    proof {
        assert(out@.map_values(|a: SimAction| a@) =~= iteration_plan(out@[1]@->Invoke_0));
    }
    out
}

/// The simulator state after running a sequence of actions: restoring
/// sets it to the baseline; invoking and reading transform it by
/// whatever the simulator does, modelled by the two arbitrary
/// transition functions.
pub open spec fn state_after<S>(
    actions: Seq<SimActionV>,
    st: S,
    baseline: S,
    invoke_effect: spec_fn(S, Seq<u8>) -> S,
    read_effect: spec_fn(S) -> S,
) -> S
    decreases actions.len(),
{
    if actions.len() == 0 {
        st
    } else {
        let next = match actions[0] {
            SimActionV::RestoreBaseline => baseline,
            SimActionV::Invoke(input) => invoke_effect(st, input),
            SimActionV::ReadCoverage => read_effect(st),
        };
        state_after(actions.drop_first(), next, baseline, invoke_effect, read_effect)
    }
}

/// Snapshot restoration: whatever two consecutive iterations do to the
/// simulator — for any inputs, any starting state, and any behaviour of
/// the invoke and read-back steps — the state each iteration's `Invoke`
/// sees is exactly the baseline snapshot.
pub proof fn lemma_snapshot_restoration<S>(
    first_input: Seq<u8>,
    second_input: Seq<u8>,
    st0: S,
    baseline: S,
    invoke_effect: spec_fn(S, Seq<u8>) -> S,
    read_effect: spec_fn(S) -> S,
)
    ensures
        ({
            let after_first = state_after(
                iteration_plan(first_input),
                st0,
                baseline,
                invoke_effect,
                read_effect,
            );
            &&& state_after(
                iteration_plan(first_input).take(1),
                st0,
                baseline,
                invoke_effect,
                read_effect,
            ) == baseline
            &&& state_after(
                iteration_plan(second_input).take(1),
                after_first,
                baseline,
                invoke_effect,
                read_effect,
            ) == baseline
        }),
{
    let p1 = iteration_plan(first_input).take(1);
    let p2 = iteration_plan(second_input).take(1);
    assert(p1.len() == 1 && p1[0] == SimActionV::RestoreBaseline);
    assert(p1.drop_first() =~= Seq::<SimActionV>::empty());
    assert(p1.drop_first() == Seq::<SimActionV>::empty());
    assert(p2.len() == 1 && p2[0] == SimActionV::RestoreBaseline);
    assert(p2.drop_first() =~= Seq::<SimActionV>::empty());
    assert(p2.drop_first() == Seq::<SimActionV>::empty());
    assert(state_after(
        Seq::<SimActionV>::empty(),
        baseline,
        baseline,
        invoke_effect,
        read_effect,
    ) == baseline);
}

} // verus!
