//! Fixed-timestep draining of wall-clock time into bounded simulation steps.
use vstd::prelude::*;

verus! {

/// The longest single simulation step, in microseconds (one thirtieth of a second).
pub const TIMESTEP: u64 = 33_333;

/// Time left over below this many microseconds is dropped rather than simulated.
pub const EPSILON: u64 = 10;

/// The simulation steps that `elapsed` microseconds of wall-clock time are split
/// into: steps of `TIMESTEP` while more than that is left, then the remainder,
/// until no more than `EPSILON` is left.
pub open spec fn substeps(elapsed: nat) -> Seq<nat>
    decreases elapsed,
{
    if elapsed > EPSILON {
        let dt = if elapsed < TIMESTEP { elapsed } else { TIMESTEP as nat };
        seq![dt] + substeps((elapsed - dt) as nat)
    } else {
        Seq::empty()
    }
}

/// The sum of a sequence of durations.
pub open spec fn total(s: Seq<nat>) -> nat
    decreases s.len(),
{
    if s.len() == 0 {
        0
    } else {
        s[0] + total(s.drop_first())
    }
}

/// Draining one wall-clock interval of `elapsed` microseconds takes at most
/// ceil(elapsed / TIMESTEP) steps, each of them positive and at most `TIMESTEP`
/// long, and together they cover `elapsed` up to less than `EPSILON`.
pub proof fn lemma_substeps(elapsed: nat)
    ensures
        substeps(elapsed).len() <= (elapsed + TIMESTEP - 1) / (TIMESTEP as int),
        forall|i: int| 0 <= i < substeps(elapsed).len() ==> 0 < #[trigger] substeps(elapsed)[i] <= TIMESTEP,
        total(substeps(elapsed)) <= elapsed,
        elapsed <= total(substeps(elapsed)) + EPSILON,
    decreases elapsed,
{
    if elapsed > EPSILON {
        let dt = if elapsed < TIMESTEP { elapsed } else { TIMESTEP as nat };
        let rest = (elapsed - dt) as nat;
        lemma_substeps(rest);
        let s = substeps(elapsed);
        assert(s == seq![dt] + substeps(rest));
        assert(s.drop_first() =~= substeps(rest));
        assert forall|i: int| 0 <= i < s.len() implies 0 < #[trigger] s[i] <= TIMESTEP by {
            if i > 0 {
                assert(s[i] == substeps(rest)[i - 1]);
            }
        }
        if elapsed < TIMESTEP {
            assert(substeps(rest) == Seq::<nat>::empty());
        }
    }
}

/// The steps of `substeps(elapsed)`, as machine integers.
pub fn timestep_plan(elapsed: u64) -> (r: Vec<u64>)
    ensures
        r@.map_values(|d: u64| d as nat) == substeps(elapsed as nat),
{
    let mut r: Vec<u64> = Vec::new();
    let mut left = elapsed;
    while left > EPSILON
        invariant
            r@.map_values(|d: u64| d as nat) + substeps(left as nat) == substeps(elapsed as nat),
        decreases left,
    {
        let dt = if left < TIMESTEP { left } else { TIMESTEP };
        let ghost before = r@.map_values(|d: u64| d as nat);
        r.push(dt);
        left = left - dt;
        proof {
            assert(r@.map_values(|d: u64| d as nat) =~= before.push(dt as nat));
            assert(before + substeps((left + dt) as nat) == before + (seq![dt as nat] + substeps(left as nat)));
            assert(before.push(dt as nat) + substeps(left as nat) =~= before + (seq![dt as nat] + substeps(left as nat)));
        }
    }
    proof {
        assert(substeps(left as nat) == Seq::<nat>::empty());
        assert(r@.map_values(|d: u64| d as nat) + Seq::<nat>::empty() =~= r@.map_values(|d: u64| d as nat));
    }
    r
}

} // verus!
