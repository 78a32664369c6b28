use crate::particle::{agrees_with, grouped_by_type, groups_view, Particle, State};
use crate::particles_database::{ParticleDatabase, ParticleEntry};
use crate::vector::Vector3;
use vstd::prelude::*;

verus! {

/// What is kept of a particle when a state is stored: its type, where it is
/// and how it moves.
#[derive(Clone, Copy, Debug, PartialEq)]
pub struct ParticleToSave<S> {
    pub id: u16,
    pub position_x: S,
    pub position_y: S,
    pub position_z: S,
    pub velocity_x: S,
    pub velocity_y: S,
    pub velocity_z: S,
}

/// What is kept of a state when it is stored: its particles in one list, and
/// its box.
#[derive(Debug)]
pub struct StateToSave<S> {
    pub particles: Vec<ParticleToSave<S>>,
    pub boundary_box: Vector3<S>,
}

/// The stored form of `particle`.
pub open spec fn saved<S>(particle: Particle<S>) -> ParticleToSave<S> {
    ParticleToSave {
        id: particle.id,
        position_x: particle.position.x,
        position_y: particle.position.y,
        position_z: particle.position.z,
        velocity_x: particle.velocity.x,
        velocity_y: particle.velocity.y,
        velocity_z: particle.velocity.z,
    }
}

/// The particle that `row` stands for: mass and radius come from the
/// registry entry of its type, and force, potential and virial are `zero`.
pub open spec fn restored<S>(row: ParticleToSave<S>, entry: ParticleEntry<S>, zero: S) -> Particle<
    S,
> {
    Particle {
        position: Vector3 { x: row.position_x, y: row.position_y, z: row.position_z },
        velocity: Vector3 { x: row.velocity_x, y: row.velocity_y, z: row.velocity_z },
        force: Vector3 { x: zero, y: zero, z: zero },
        potential: zero,
        temp: zero,
        mass: entry.mass,
        radius: entry.radius,
        id: row.id,
    }
}

/// The stored forms of all particles of a population: type after type, and
/// within a type in the order of the particles.
pub open spec fn rows_of<S>(groups: Seq<Seq<Particle<S>>>) -> Seq<ParticleToSave<S>>
    decreases groups.len(),
{
    if groups.len() == 0 {
        Seq::empty()
    } else {
        rows_of(groups.drop_last()) + groups.last().map_values(|p: Particle<S>| saved(p))
    }
}

/// The test that a row is of type `t`.
pub open spec fn of_type<S>(t: int) -> spec_fn(ParticleToSave<S>) -> bool {
    |row: ParticleToSave<S>| row.id == t
}

/// The map that rebuilds a particle of type `t` from its row.
pub open spec fn restoring<S>(
    registry: Map<u16, ParticleEntry<S>>,
    t: int,
    zero: S,
) -> spec_fn(ParticleToSave<S>) -> Particle<S> {
    |row: ParticleToSave<S>| restored(row, registry[t as u16], zero)
}

/// The rows of type `t`, in the order in which they stand in `rows`.
pub open spec fn rows_of_type<S>(rows: Seq<ParticleToSave<S>>, t: int) -> Seq<ParticleToSave<S>> {
    rows.filter(of_type(t))
}

/// Number of types of the state that `rows` stand for: one more than the
/// largest id among them, and one where there are no rows.
pub open spec fn type_count<S>(rows: Seq<ParticleToSave<S>>) -> int
    decreases rows.len(),
{
    if rows.len() == 0 {
        1
    } else if rows.last().id + 1 > type_count(rows.drop_last()) {
        rows.last().id + 1
    } else {
        type_count(rows.drop_last())
    }
}

/// Whether `registry` knows the type of every row.
pub open spec fn rows_registered<S>(
    rows: Seq<ParticleToSave<S>>,
    registry: Map<u16, ParticleEntry<S>>,
) -> bool {
    forall|i: int| 0 <= i < rows.len() ==> registry.contains_key((#[trigger] rows[i]).id)
}

/// The population that `rows` stand for: under each type the particles of
/// that type, in the order of their rows.
pub open spec fn groups_of<S>(
    rows: Seq<ParticleToSave<S>>,
    registry: Map<u16, ParticleEntry<S>>,
    zero: S,
) -> Seq<Seq<Particle<S>>> {
    Seq::new(
        type_count(rows) as nat,
        |t: int| rows_of_type(rows, t).map_values(restoring(registry, t, zero)),
    )
}

/// Whether the rows stand type after type, smaller ids first.
pub open spec fn sorted_by_type<S>(rows: Seq<ParticleToSave<S>>) -> bool {
    forall|i: int, j: int| 0 <= i <= j < rows.len() ==> rows[i].id <= rows[j].id
}

/// The test that a row is of a type below `t`.
spec fn below_type<S>(t: int) -> spec_fn(ParticleToSave<S>) -> bool {
    |row: ParticleToSave<S>| row.id < t
}

/// A filter that no element passes leaves nothing.
proof fn lemma_filter_none<A>(s: Seq<A>, pred: spec_fn(A) -> bool)
    requires
        forall|i: int| 0 <= i < s.len() ==> !pred(#[trigger] s[i]),
    ensures
        s.filter(pred) == Seq::<A>::empty(),
    decreases s.len(),
{
    reveal(Seq::filter);
    if s.len() > 0 {
        lemma_filter_none(s.drop_last(), pred);
    }
}

/// A filter that every element passes leaves everything.
proof fn lemma_filter_all<A>(s: Seq<A>, pred: spec_fn(A) -> bool)
    requires
        forall|i: int| 0 <= i < s.len() ==> pred(#[trigger] s[i]),
    ensures
        s.filter(pred) == s,
    decreases s.len(),
{
    reveal(Seq::filter);
    if s.len() > 0 {
        lemma_filter_all(s.drop_last(), pred);
    }
}

/// Every row has a type below the number of types.
proof fn lemma_type_count_bounds<S>(rows: Seq<ParticleToSave<S>>)
    ensures
        type_count(rows) >= 1,
        forall|i: int| 0 <= i < rows.len() ==> (#[trigger] rows[i]).id < type_count(rows),
    decreases rows.len(),
{
    if rows.len() > 0 {
        lemma_type_count_bounds(rows.drop_last());
        assert forall|i: int| 0 <= i < rows.len() implies (#[trigger] rows[i]).id < type_count(
            rows,
        ) by {
            if i < rows.len() - 1 {
                assert(rows.drop_last()[i] == rows[i]);
            }
        }
    }
}

/// In rows that stand type after type, the rows of the types below `t`
/// followed by the rows of type `t` are the rows of the types up to `t`.
proof fn lemma_next_type<S>(rows: Seq<ParticleToSave<S>>, t: int)
    requires
        sorted_by_type(rows),
    ensures
        rows.filter(below_type(t)) + rows.filter(of_type(t)) == rows.filter(below_type(t + 1)),
    decreases rows.len(),
{
    reveal(Seq::filter);
    if rows.len() > 0 {
        let init = rows.drop_last();
        let last = rows.last();
        lemma_next_type(init, t);
        if last.id < t {
            lemma_filter_none(init, of_type(t));
        }
    }
}

/// The stored form of the first `m` types of the population that `rows`
/// stand for holds the rows of the types below `m`.
proof fn lemma_rows_of_prefix<S>(
    rows: Seq<ParticleToSave<S>>,
    registry: Map<u16, ParticleEntry<S>>,
    zero: S,
    m: int,
)
    requires
        sorted_by_type(rows),
        0 <= m <= type_count(rows),
    ensures
        rows_of(groups_of(rows, registry, zero).take(m)) == rows.filter(below_type(m)),
    decreases m,
{
    let groups = groups_of(rows, registry, zero);
    if m == 0 {
        lemma_filter_none(rows, below_type(0));
    } else {
        lemma_rows_of_prefix(rows, registry, zero, m - 1);
        assert(groups.take(m).drop_last() =~= groups.take(m - 1));
        lemma_next_type(rows, m - 1);
    }
}

/// Storing the state that stored rows stand for gives the same rows again,
/// provided that the rows stand type after type, as the rows of every stored
/// state do.
pub proof fn lemma_snapshot_round_trip<S>(
    rows: Seq<ParticleToSave<S>>,
    registry: Map<u16, ParticleEntry<S>>,
    zero: S,
)
    requires
        sorted_by_type(rows),
    ensures
        rows_of(groups_of(rows, registry, zero)) == rows,
{
    let groups = groups_of(rows, registry, zero);
    lemma_type_count_bounds(rows);
    lemma_rows_of_prefix(rows, registry, zero, type_count(rows));
    assert(groups.take(type_count(rows)) =~= groups);
    lemma_filter_all(rows, below_type(type_count(rows)));
}

/// The rows of a stored state stand type after type.
pub proof fn lemma_rows_sorted<S>(groups: Seq<Seq<Particle<S>>>)
    requires
        grouped_by_type(groups),
    ensures
        sorted_by_type(rows_of(groups)),
        forall|i: int| 0 <= i < rows_of(groups).len() ==> (#[trigger] rows_of(groups)[i]).id
            < groups.len(),
    decreases groups.len(),
{
    if groups.len() > 0 {
        let init = groups.drop_last();
        lemma_rows_sorted(init);
    }
}

impl<S: Copy> ParticleToSave<S> {
    /// The stored form of `particle`.
    pub fn from(particle: &Particle<S>) -> (row: Self)
        ensures
            row == saved(*particle),
    {
        ParticleToSave {
            id: particle.id,
            position_x: particle.position.x,
            position_y: particle.position.y,
            position_z: particle.position.z,
            velocity_x: particle.velocity.x,
            velocity_y: particle.velocity.y,
            velocity_z: particle.velocity.z,
        }
    }

    /// The particle that the row stands for, if its type is registered.
    pub fn into(&self, db: &ParticleDatabase<S>, zero: S) -> (r: Option<Particle<S>>)
        ensures
            r == (if db@.contains_key(self.id) {
                Some(restored(*self, db@[self.id], zero))
            } else {
                None
            }),
    {
        Particle::new(
            db,
            self.id,
            Vector3::new(self.position_x, self.position_y, self.position_z),
            Vector3::new(self.velocity_x, self.velocity_y, self.velocity_z),
            zero,
        )
    }
}

impl<S: Copy> StateToSave<S> {
    /// The stored form of `state`.
    pub fn from(state: &State<S>) -> (data: Self)
        ensures
            data.particles@ == rows_of(state@),
            data.boundary_box == state.boundary(),
    {
        let groups = state.particles();
        let mut particles: Vec<ParticleToSave<S>> = Vec::new();
        let mut t: usize = 0;
        while t < groups.len()
            invariant
                t <= groups.len(),
                groups_view(*groups) == state@,
                particles@ == rows_of(state@.take(t as int)),
            decreases groups.len() - t,
        {
            let group = &groups[t];
            let ghost done = particles@;
            let mut k: usize = 0;
            while k < group.len()
                invariant
                    k <= group.len(),
                    particles@ == done + group@.take(k as int).map_values(
                        |p: Particle<S>| saved(p),
                    ),
                decreases group.len() - k,
            {
                particles.push(ParticleToSave::from(&group[k]));
                k += 1;
            }
            proof {
                assert(state@.take(t + 1).drop_last() =~= state@.take(t as int));
            }
            t += 1;
        }
        assert(state@.take(t as int) =~= state@);
        StateToSave { particles, boundary_box: state.boundary_box() }
    }

    /// The state that the stored form stands for, if the type of every one
    /// of its particles is registered. It has a type for every id up to the
    /// largest one that occurs.
    pub fn into(&self, db: &ParticleDatabase<S>, zero: S) -> (r: Option<State<S>>)
        ensures
            r is Some <==> rows_registered(self.particles@, db@),
            r is Some ==> {
                let state = r->0;
                &&& state@ == groups_of(self.particles@, db@, zero)
                &&& state.boundary() == self.boundary_box
                &&& agrees_with(state@, db@)
                &&& grouped_by_type(state@)
            },
    {
        let rows = &self.particles;
        let mut count: usize = 1;
        let mut i: usize = 0;
        while i < rows.len()
            invariant
                i <= rows.len(),
                rows@ == self.particles@,
                count == type_count(rows@.take(i as int)),
                1 <= count <= 0x1_0000,
                forall|j: int| 0 <= j < i ==> db@.contains_key((#[trigger] rows[j]).id),
                forall|j: int| 0 <= j < i ==> (#[trigger] rows[j]).id < count,
            decreases rows.len() - i,
        {
            if !db.contains(rows[i].id) {
                return None;
            }
            assert(rows@.take(i + 1).drop_last() =~= rows@.take(i as int));
            if rows[i].id as usize + 1 > count {
                count = rows[i].id as usize + 1;
            }
            i += 1;
        }
        assert(rows@.take(i as int) =~= rows@);
        let mut particles: Vec<Vec<Particle<S>>> = Vec::new();
        let mut t: usize = 0;
        while t < count
            invariant
                t <= count,
                particles.len() == t,
                forall|u: int| 0 <= u < t ==> (#[trigger] particles[u]).len() == 0,
            decreases count - t,
        {
            particles.push(Vec::new());
            t += 1;
        }
        let mut i: usize = 0;
        while i < rows.len()
            invariant
                i <= rows.len(),
                particles.len() == count,
                count == type_count(rows@),
                rows_registered(rows@, db@),
                forall|j: int| 0 <= j < rows.len() ==> (#[trigger] rows[j]).id < count,
                forall|u: int|
                    0 <= u < count ==> (#[trigger] particles[u])@ == rows_of_type(
                        rows@.take(i as int),
                        u,
                    ).map_values(restoring(db@, u, zero)),
            decreases rows.len() - i,
        {
            let row = rows[i];
            let particle = match ParticleToSave::into(&row, db, zero) {
                Some(p) => p,
                None => {
                    return None;
                },
            };
            particles[row.id as usize].push(particle);
            proof {
                let head = rows@.take(i as int);
                assert(rows@.take(i + 1) =~= head.push(row));
                assert forall|u: int| 0 <= u < count implies (#[trigger] particles[u])@
                    == rows_of_type(rows@.take(i + 1), u).map_values(restoring(db@, u, zero)) by {
                    head.lemma_filter_push(row, of_type(u));
                }
            }
            i += 1;
        }
        proof {
            let view = groups_view(particles);
            assert forall|u: int, k: int| 0 <= u < view.len() && 0 <= k < view[u].len() implies {
                &&& (#[trigger] view[u][k]).id == u
                &&& view[u][k].mass == db@[u as u16].mass
                &&& view[u][k].radius == db@[u as u16].radius
                &&& db@.contains_key(u as u16)
            } by {
                let group = rows@.filter(of_type(u));
                rows@.lemma_filter_pred(of_type(u), k);
                rows@.lemma_filter_contains_rev(of_type(u), group[k]);
                let j = choose|j: int| 0 <= j < rows.len() && rows[j] == group[k];
            }
        }
        Some(State::from_groups(particles, self.boundary_box))
    }
}

} // verus!
