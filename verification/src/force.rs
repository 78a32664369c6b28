use crate::error::SolverError;
use crate::particle::{cleared, grouped_by_type, same_identity, State};
use crate::potential::{Potential, PotentialView, PotentialsDatabase};
use vstd::prelude::*;

verus! {

/// The interaction of two particle types during one force evaluation: the
/// types, smaller id first, and the parameters of their Lennard-Jones
/// potential.
#[derive(Clone, Copy, Debug, PartialEq)]
pub struct Interaction<S> {
    pub first: u16,
    pub second: u16,
    pub sigma: S,
    pub eps: S,
    pub r_cut: S,
    pub u_cut: S,
}

impl<S> Interaction<S> {
    /// The potential that the interaction goes by.
    pub open spec fn potential(self) -> PotentialView<S> {
        PotentialView::LennardJones {
            sigma: self.sigma,
            eps: self.eps,
            r_cut: self.r_cut,
            u_cut: self.u_cut,
        }
    }
}

/// Whether the pair of particle `i` of type `first` and particle `j` of type
/// `second` is taken up in a force evaluation, as seen from the interaction
/// of `first` and `second`: between two types every pair is; within one type
/// a pair is taken up once, with the particle that stands first as `i`.
pub open spec fn takes_up(first: u16, second: u16, i: int, j: int) -> bool {
    first < second || (first == second && i < j)
}

impl<S: Copy> Interaction<S> {
    /// The first partner of particle `i` of the first type among the `count`
    /// particles of the second type: its partners are that one and all that
    /// follow, and there is none if the answer is `count`.
    pub fn first_partner(&self, i: usize, count: usize) -> (j: usize)
        ensures
            j <= count,
            forall|k: int|
                0 <= k < count ==> (takes_up(self.first, self.second, i as int, k) <==> j <= k),
    {
        if self.first < self.second {
            0
        } else if self.first == self.second && i < count {
            i + 1
        } else {
            count
        }
    }
}

/// Of two different particles, each given by its type and its place, exactly
/// one ordering is taken up by the interaction of their two types: every
/// pair of particles is met once in a force evaluation, and no particle meets
/// itself.
pub proof fn lemma_every_pair_once(t1: u16, i: int, t2: u16, j: int)
    ensures
        (t1, i) != (t2, j) ==> (t1 <= t2 && takes_up(t1, t2, i, j)) != (t2 <= t1 && takes_up(
            t2,
            t1,
            j,
            i,
        )),
        !takes_up(t1, t1, i, i),
{
}

/// Whether every two of the first `count` types interact through a
/// potential that can be evaluated.
pub open spec fn all_implemented<S>(db: &PotentialsDatabase<S>, count: int) -> bool {
    forall|t1: int, t2: int|
        0 <= t1 <= t2 < count ==> #[trigger] db.potential_of(t1 as u16, t2 as u16)
            is LennardJones
}

/// Whether `plan` names the pair of types `(t1, t2)`.
pub open spec fn names<S>(plan: Seq<Interaction<S>>, t1: int, t2: int) -> bool {
    exists|i: int| 0 <= i < plan.len() && (#[trigger] plan[i]).first == t1 && plan[i].second == t2
}

/// Whether `plan` names every pair of the first `count` types once, smaller
/// id first, in the order of the first type and then of the second, each
/// with the potential that `db` has for it.
pub open spec fn is_plan<S>(
    plan: Seq<Interaction<S>>,
    db: &PotentialsDatabase<S>,
    count: int,
) -> bool {
    &&& forall|i: int|
        0 <= i < plan.len() ==> {
            &&& (#[trigger] plan[i]).first <= plan[i].second < count
            &&& plan[i].potential() == db.potential_of(plan[i].first, plan[i].second)
        }
    &&& forall|i: int, j: int|
        0 <= i < j < plan.len() ==> (#[trigger] plan[i]).first < (#[trigger] plan[j]).first || (
        plan[i].first == plan[j].first && plan[i].second < plan[j].second)
    &&& forall|t1: int, t2: int| 0 <= t1 <= t2 < count ==> #[trigger] names(plan, t1, t2)
}

/// The interactions between the first `count` types, or the finding that
/// two of them have a potential that cannot be evaluated.
pub fn force_plan<S: Copy>(potentials_database: &PotentialsDatabase<S>, count: usize) -> (r: Result<
    Vec<Interaction<S>>,
    SolverError,
>)
    requires
        count <= 0x1_0000,
    ensures
        r is Ok <==> all_implemented(potentials_database, count as int),
        r is Err ==> r->Err_0 == SolverError::PotentialNotImplemented,
        r is Ok ==> is_plan(r->Ok_0@, potentials_database, count as int),
{
    let mut plan: Vec<Interaction<S>> = Vec::new();
    let mut t1: usize = 0;
    while t1 < count
        invariant
            t1 <= count <= 0x1_0000,
            forall|i: int|
                0 <= i < plan.len() ==> {
                    &&& (#[trigger] plan[i]).first <= plan[i].second < count
                    &&& plan[i].first < t1
                    &&& plan[i].potential() == potentials_database.potential_of(
                        plan[i].first,
                        plan[i].second,
                    )
                },
            forall|i: int, j: int|
                0 <= i < j < plan.len() ==> (#[trigger] plan[i]).first < (#[trigger] plan[j]).first
                    || (plan[i].first == plan[j].first && plan[i].second < plan[j].second),
            forall|a: int, b: int| 0 <= a < t1 && a <= b < count ==> #[trigger] names(plan@, a, b),
        decreases count - t1,
    {
        let mut t2: usize = t1;
        while t2 < count
            invariant
                t1 < count <= 0x1_0000,
                t1 <= t2 <= count,
                forall|i: int|
                    0 <= i < plan.len() ==> {
                        &&& (#[trigger] plan[i]).first <= plan[i].second < count
                        &&& (plan[i].first < t1 || (plan[i].first == t1 && plan[i].second < t2))
                        &&& plan[i].potential() == potentials_database.potential_of(
                            plan[i].first,
                            plan[i].second,
                        )
                    },
                forall|i: int, j: int|
                    0 <= i < j < plan.len() ==> (#[trigger] plan[i]).first < (
                    #[trigger] plan[j]).first || (plan[i].first == plan[j].first
                        && plan[i].second < plan[j].second),
                forall|a: int, b: int|
                    a <= b < count && (0 <= a < t1 || (a == t1 && b < t2)) ==> #[trigger] names(
                        plan@,
                        a,
                        b,
                    ),
            decreases count - t2,
        {
            let first = t1 as u16;
            let second = t2 as u16;
            match potentials_database.get_potential(first, second) {
                Potential::LennardJones { sigma, eps, r_cut, u_cut } => {
                    let ghost before = plan@;
                    plan.push(
                        Interaction {
                            first,
                            second,
                            sigma: *sigma,
                            eps: *eps,
                            r_cut: *r_cut,
                            u_cut: *u_cut,
                        },
                    );
                    proof {
                        assert forall|a: int, b: int|
                            a <= b < count && (0 <= a < t1 || (a == t1 && b < t2
                                + 1)) implies #[trigger] names(plan@, a, b) by {
                            if a == t1 && b == t2 {
                                assert(plan[plan.len() - 1].first == a);
                            } else {
                                assert(names(before, a, b));
                                let i = choose|i: int|
                                    0 <= i < before.len() && (#[trigger] before[i]).first == a
                                        && before[i].second == b;
                                assert(plan[i] == before[i]);
                            }
                        }
                    }
                },
                Potential::Custom { .. } => {
                    return Err(SolverError::PotentialNotImplemented);
                },
            }
            t2 += 1;
        }
        t1 += 1;
    }
    proof {
        assert forall|a: int, b: int| 0 <= a <= b < count implies #[trigger]
            potentials_database.potential_of(a as u16, b as u16) is LennardJones by {
            assert(names(plan@, a, b));
            let i = choose|i: int|
                0 <= i < plan.len() && (#[trigger] plan[i]).first == a && plan[i].second == b;
        }
    }
    Ok(plan)
}

/// Opens a force evaluation. It names the interactions between the types of
/// the state, and sets force, potential and virial of every particle to
/// `zero`, so that the contributions of the pairs can be added up. Where a
/// pair of types has a potential that cannot be evaluated, it fails and
/// leaves the state as it was.
pub fn begin_force_update<S: Copy>(
    potentials_database: &PotentialsDatabase<S>,
    state: &mut State<S>,
    zero: S,
) -> (r: Result<Vec<Interaction<S>>, SolverError>)
    ensures
        r is Ok <==> all_implemented(potentials_database, old(state)@.len() as int),
        r is Err ==> r->Err_0 == SolverError::PotentialNotImplemented && final(state)@ == old(state)@,
        r is Ok ==> is_plan(r->Ok_0@, potentials_database, old(state)@.len() as int),
        r is Ok ==> final(state)@.len() == old(state)@.len(),
        r is Ok ==> forall|t: int|
            0 <= t < old(state)@.len() ==> (#[trigger] final(state)@[t]).len() == old(state)@[t].len(),
        r is Ok ==> forall|t: int, k: int|
            0 <= t < old(state)@.len() && 0 <= k < old(state)@[t].len() ==> (
            #[trigger] final(state)@[t][k]) == cleared(old(state)@[t][k], zero),
        final(state).boundary() == old(state).boundary(),
        same_identity(old(state)@, final(state)@),
        grouped_by_type(final(state)@),
{
    let count = state.type_count();
    match force_plan(potentials_database, count) {
        Ok(plan) => {
            state.reset_accumulators(zero);
            Ok(plan)
        },
        Err(e) => {
            proof {
                use_type_invariant(&*state);
            }
            Err(e)
        },
    }
}

} // verus!
