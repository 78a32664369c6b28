use crate::particles_database::{ParticleDatabase, ParticleEntry};
use crate::vector::Vector3;
use vstd::prelude::*;

verus! {

/// One point particle.
#[derive(Clone, Copy, Debug, PartialEq)]
pub struct Particle<S> {
    /// Position inside the periodic box.
    pub position: Vector3<S>,
    /// Velocity.
    pub velocity: Vector3<S>,
    /// Sum of the forces that act on the particle.
    pub force: Vector3<S>,
    /// Pair potential energy summed over the partners of the particle.
    pub potential: S,
    /// Virial accumulator: sum of force times displacement over the partners.
    pub temp: S,
    /// Mass, as the registry gave it when the particle was made.
    pub mass: S,
    /// Radius, as the registry gave it when the particle was made.
    pub radius: S,
    /// Type id.
    pub id: u16,
}

impl<S: Copy> Particle<S> {
    /// A particle of type `particle_id` at `position` with `velocity`, with
    /// mass and radius of that type and with force, potential and virial all
    /// set to `zero`. There is none for a type that `db` does not know.
    pub fn new(
        db: &ParticleDatabase<S>,
        particle_id: u16,
        position: Vector3<S>,
        velocity: Vector3<S>,
        zero: S,
    ) -> (r: Option<Self>)
        ensures
            r == (if db@.contains_key(particle_id) {
                Some(
                    Particle {
                        position,
                        velocity,
                        force: Vector3 { x: zero, y: zero, z: zero },
                        potential: zero,
                        temp: zero,
                        mass: db@[particle_id].mass,
                        radius: db@[particle_id].radius,
                        id: particle_id,
                    },
                )
            } else {
                None
            }),
    {
        let mass = match db.get_particle_mass(particle_id) {
            Some(m) => m,
            None => { return None; },
        };
        let radius = match db.get_particle_radius(particle_id) {
            Some(r) => r,
            None => { return None; },
        };
        Some(
            Particle {
                position,
                velocity,
                force: Vector3::splat(zero),
                potential: zero,
                temp: zero,
                mass,
                radius,
                id: particle_id,
            },
        )
    }
}

/// Whether a population is laid out as the engine needs it: there are at
/// most 65536 types, every particle stored under type `t` has id `t`, and the
/// particles of one type all have the same mass and the same radius.
pub open spec fn grouped_by_type<S>(particles: Seq<Seq<Particle<S>>>) -> bool {
    &&& particles.len() <= 0x1_0000
    &&& forall|t: int, k: int|
        0 <= t < particles.len() && 0 <= k < particles[t].len() ==> {
            &&& (#[trigger] particles[t][k]).id == t
            &&& particles[t][k].mass == particles[t][0].mass
            &&& particles[t][k].radius == particles[t][0].radius
        }
}

/// Whether every particle of a population has the mass and the radius that
/// `registry` holds for its id.
pub open spec fn agrees_with<S>(
    particles: Seq<Seq<Particle<S>>>,
    registry: Map<u16, ParticleEntry<S>>,
) -> bool {
    forall|t: int, k: int|
        0 <= t < particles.len() && 0 <= k < particles[t].len() ==> {
            &&& registry.contains_key((#[trigger] particles[t][k]).id)
            &&& particles[t][k].mass == registry[particles[t][k].id].mass
            &&& particles[t][k].radius == registry[particles[t][k].id].radius
        }
}

/// Whether two populations have the same shape and, place by place, particles
/// of the same id, mass and radius.
pub open spec fn same_identity<S>(a: Seq<Seq<Particle<S>>>, b: Seq<Seq<Particle<S>>>) -> bool {
    &&& a.len() == b.len()
    &&& forall|t: int| 0 <= t < a.len() ==> (#[trigger] a[t]).len() == b[t].len()
    &&& forall|t: int, k: int|
        0 <= t < a.len() && 0 <= k < a[t].len() ==> {
            &&& (#[trigger] a[t][k]).id == b[t][k].id
            &&& a[t][k].mass == b[t][k].mass
            &&& a[t][k].radius == b[t][k].radius
        }
}

/// A population that keeps the identity of its particles keeps its layout
/// and its agreement with any registry.
pub proof fn lemma_identity_carries<S>(
    a: Seq<Seq<Particle<S>>>,
    b: Seq<Seq<Particle<S>>>,
    registry: Map<u16, ParticleEntry<S>>,
)
    requires
        same_identity(a, b),
    ensures
        grouped_by_type(a) ==> grouped_by_type(b),
        agrees_with(a, registry) ==> agrees_with(b, registry),
{
    if grouped_by_type(a) {
        assert forall|t: int, k: int| 0 <= t < b.len() && 0 <= k < b[t].len() implies {
            &&& (#[trigger] b[t][k]).id == t
            &&& b[t][k].mass == b[t][0].mass
            &&& b[t][k].radius == b[t][0].radius
        } by {
            assert(a[t][k].id == t);
        }
    }
    if agrees_with(a, registry) {
        assert forall|t: int, k: int| 0 <= t < b.len() && 0 <= k < b[t].len() implies {
            &&& registry.contains_key((#[trigger] b[t][k]).id)
            &&& b[t][k].mass == registry[b[t][k].id].mass
            &&& b[t][k].radius == registry[b[t][k].id].radius
        } by {
            assert(registry.contains_key(a[t][k].id));
        }
    }
}

/// `p` with force, potential and virial all set to `zero`.
pub open spec fn cleared<S>(p: Particle<S>, zero: S) -> Particle<S> {
    Particle { force: Vector3 { x: zero, y: zero, z: zero }, potential: zero, temp: zero, ..p }
}

/// Number of particles in the first `types` types of a population.
pub open spec fn count_up_to<S>(particles: Seq<Seq<Particle<S>>>, types: int) -> int
    decreases types,
{
    if types <= 0 {
        0
    } else {
        count_up_to(particles, types - 1) + particles[types - 1].len()
    }
}

/// The velocities of the particles of the types `types`, type after type in
/// the order in which the types are named.
pub open spec fn velocities_of<S>(particles: Seq<Seq<Particle<S>>>, types: Seq<u16>) -> Seq<
    Vector3<S>,
>
    decreases types.len(),
{
    if types.len() == 0 {
        Seq::empty()
    } else {
        velocities_of(particles, types.drop_last()) + particles[types.last() as int].map_values(
            |p: Particle<S>| p.velocity,
        )
    }
}

/// The population as a sequence of sequences.
pub open spec fn groups_view<S>(particles: Vec<Vec<Particle<S>>>) -> Seq<Seq<Particle<S>>> {
    Seq::new(particles.len() as nat, |t: int| particles[t]@)
}

/// The particle population, grouped by type, in its periodic box.
///
/// A state can only be made and changed through the functions of this crate,
/// so `grouped_by_type` holds of every state there is.
#[derive(Debug)]
pub struct State<S> {
    particles: Vec<Vec<Particle<S>>>,
    boundary_box: Vector3<S>,
}

impl<S> View for State<S> {
    type V = Seq<Seq<Particle<S>>>;

    closed spec fn view(&self) -> Seq<Seq<Particle<S>>> {
        groups_view(self.particles)
    }
}

impl<S> State<S> {
    /// What holds of every state: it is laid out by type.
    #[verifier::type_invariant]
    pub open spec fn well_formed(self) -> bool {
        grouped_by_type(self@)
    }

    /// Side lengths of the periodic box.
    pub closed spec fn boundary(&self) -> Vector3<S> {
        self.boundary_box
    }
}

/// Replaces particle `k` of type `t` by `particle`.
fn put<S: Copy>(particles: &mut Vec<Vec<Particle<S>>>, t: usize, k: usize, particle: Particle<S>)
    requires
        t < old(particles).len(),
        k < old(particles)[t as int].len(),
    ensures
        groups_view(*final(particles)) == groups_view(*old(particles)).update(
            t as int,
            groups_view(*old(particles))[t as int].update(k as int, particle),
        ),
        final(particles).len() == old(particles).len(),
        forall|i: int|
            0 <= i < old(particles).len() ==> (#[trigger] final(particles)[i]).len() == old(particles)[i].len(),
{
    particles[t][k] = particle;
}

impl<S: Copy> Clone for State<S> {
    fn clone(&self) -> (copy: Self)
        ensures
            copy@ == self@,
            copy.boundary() == self.boundary(),
    {
        self.duplicate()
    }
}

impl<S: Copy> State<S> {
    /// The state that holds `particles` in the box `boundary_box`.
    pub(crate) fn from_groups(particles: Vec<Vec<Particle<S>>>, boundary_box: Vector3<S>) -> (state:
        Self)
        requires
            grouped_by_type(groups_view(particles)),
        ensures
            state@ == groups_view(particles),
            state.boundary() == boundary_box,
    {
        State { particles, boundary_box }
    }

    /// A second state with the same particles in the same box.
    pub fn duplicate(&self) -> (copy: Self)
        ensures
            copy@ == self@,
            copy.boundary() == self.boundary(),
    {
        proof {
            use_type_invariant(self);
        }
        let mut particles: Vec<Vec<Particle<S>>> = Vec::new();
        let mut t: usize = 0;
        while t < self.particles.len()
            invariant
                t <= self.particles.len(),
                particles.len() == t,
                groups_view(particles) == self@.take(t as int),
            decreases self.particles.len() - t,
        {
            let group = &self.particles[t];
            let mut copy: Vec<Particle<S>> = Vec::new();
            let mut k: usize = 0;
            while k < group.len()
                invariant
                    k <= group.len(),
                    copy@ == group@.take(k as int),
                decreases group.len() - k,
            {
                copy.push(group[k]);
                assert(copy@ =~= group@.take(k + 1));
                k += 1;
            }
            assert(copy@ =~= group@);
            let ghost before = particles;
            particles.push(copy);
            assert forall|i: int| 0 <= i <= t implies #[trigger] groups_view(particles)[i]
                == self@[i] by {
                assert(groups_view(particles)[i] == particles[i]@);
                assert(self@[i] == self.particles[i]@);
                if i < t {
                    assert(particles[i] == before[i]);
                    assert(groups_view(before)[i] == before[i]@);
                    assert(groups_view(before)[i] == self@.take(t as int)[i]);
                } else {
                    assert(particles[i]@ == group@);
                }
            }
            assert(groups_view(particles) =~= self@.take(t + 1));
            t += 1;
        }
        assert(groups_view(particles) =~= self@);
        State { particles, boundary_box: self.boundary_box }
    }

    /// Number of particle types.
    pub fn type_count(&self) -> (n: usize)
        ensures
            n == self@.len(),
            n <= 0x1_0000,
    {
        proof {
            use_type_invariant(self);
        }
        self.particles.len()
    }

    /// Number of particles of type `t`.
    pub fn count(&self, t: usize) -> (n: usize)
        requires
            t < self@.len(),
        ensures
            n == self@[t as int].len(),
    {
        self.particles[t].len()
    }

    /// The whole population, for reading.
    pub fn particles(&self) -> (groups: &Vec<Vec<Particle<S>>>)
        ensures
            groups_view(*groups) == self@,
            grouped_by_type(self@),
    {
        proof {
            use_type_invariant(self);
        }
        &self.particles
    }

    /// Particle `k` of type `t`.
    pub fn particle(&self, t: usize, k: usize) -> (p: Particle<S>)
        requires
            t < self@.len(),
            k < self@[t as int].len(),
        ensures
            p == self@[t as int][k as int],
            p.id == t,
    {
        proof {
            use_type_invariant(self);
        }
        self.particles[t][k]
    }

    /// Mass of the particles of type `t`, which they all share, if there are
    /// any.
    pub fn mass(&self, t: usize) -> (m: Option<S>)
        requires
            t < self@.len(),
        ensures
            m is Some <==> self@[t as int].len() > 0,
            m is Some ==> forall|k: int|
                0 <= k < self@[t as int].len() ==> (#[trigger] self@[t as int][k]).mass == m->0,
    {
        proof {
            use_type_invariant(self);
        }
        if self.particles[t].len() > 0 {
            Some(self.particles[t][0].mass)
        } else {
            None
        }
    }

    /// Number of particles of all types together, or the largest number
    /// that can be counted if there are more.
    pub fn particle_count(&self) -> (n: usize)
        ensures
            n == (if count_up_to(self@, self@.len() as int) <= usize::MAX {
                count_up_to(self@, self@.len() as int)
            } else {
                usize::MAX as int
            }),
    {
        let mut n: usize = 0;
        let mut t: usize = 0;
        while t < self.particles.len()
            invariant
                t <= self.particles.len(),
                n == (if count_up_to(self@, t as int) <= usize::MAX {
                    count_up_to(self@, t as int)
                } else {
                    usize::MAX as int
                }),
                count_up_to(self@, t as int) >= 0,
            decreases self.particles.len() - t,
        {
            n = n.saturating_add(self.particles[t].len());
            t += 1;
        }
        n
    }

    /// The velocities of the particles of the types `types`, type after type
    /// in the order in which the types are named. There are none where one
    /// of the types is not a type of the state.
    pub fn velocities(&self, types: &[u16]) -> (r: Option<Vec<Vector3<S>>>)
        ensures
            r is Some <==> forall|i: int| 0 <= i < types.len() ==> (#[trigger] types[i]) < self@.len(),
            r is Some ==> r->0@ == velocities_of(self@, types@),
    {
        let mut found: Vec<Vector3<S>> = Vec::new();
        let mut i: usize = 0;
        while i < types.len()
            invariant
                i <= types.len(),
                forall|j: int| 0 <= j < i ==> (#[trigger] types[j]) < self@.len(),
                found@ == velocities_of(self@, types@.take(i as int)),
            decreases types.len() - i,
        {
            let t = types[i] as usize;
            if t >= self.particles.len() {
                return None;
            }
            let group = &self.particles[t];
            let ghost done = found@;
            let mut k: usize = 0;
            while k < group.len()
                invariant
                    k <= group.len(),
                    found@ == done + group@.take(k as int).map_values(|p: Particle<S>| p.velocity),
                decreases group.len() - k,
            {
                found.push(group[k].velocity);
                k += 1;
            }
            proof {
                assert(types@.take(i + 1).drop_last() =~= types@.take(i as int));
            }
            i += 1;
        }
        assert(types@.take(i as int) =~= types@);
        Some(found)
    }

    /// Side lengths of the periodic box.
    pub fn boundary_box(&self) -> (b: Vector3<S>)
        ensures
            b == self.boundary(),
    {
        self.boundary_box
    }

    /// Gives the periodic box the side lengths `boundary_box`.
    pub fn set_boundary_box(&mut self, boundary_box: Vector3<S>)
        ensures
            final(self)@ == old(self)@,
            final(self).boundary() == boundary_box,
    {
        proof {
            use_type_invariant(&*self);
        }
        self.boundary_box = boundary_box;
    }

    /// Replaces particle `k` of type `t` by `particle`, which has the id, the
    /// mass and the radius of the particle that it replaces.
    fn replace(&mut self, t: usize, k: usize, particle: Particle<S>)
        requires
            t < old(self)@.len(),
            k < old(self)@[t as int].len(),
            particle.id == old(self)@[t as int][k as int].id,
            particle.mass == old(self)@[t as int][k as int].mass,
            particle.radius == old(self)@[t as int][k as int].radius,
        ensures
            final(self)@ == old(self)@.update(
                t as int,
                old(self)@[t as int].update(k as int, particle),
            ),
            final(self).boundary() == old(self).boundary(),
            same_identity(old(self)@, final(self)@),
            grouped_by_type(final(self)@),
    {
        proof {
            use_type_invariant(&*self);
        }
        let mut particles: Vec<Vec<Particle<S>>> = Vec::new();
        std::mem::swap(&mut self.particles, &mut particles);
        put(&mut particles, t, k, particle);
        proof {
            lemma_identity_carries(old(self)@, groups_view(particles), Map::empty());
        }
        self.particles = particles;
    }

    /// Moves particle `k` of type `t` to `position`.
    pub fn set_position(&mut self, t: usize, k: usize, position: Vector3<S>)
        requires
            t < old(self)@.len(),
            k < old(self)@[t as int].len(),
        ensures
            final(self)@ == old(self)@.update(
                t as int,
                old(self)@[t as int].update(
                    k as int,
                    (Particle { position, ..old(self)@[t as int][k as int] }),
                ),
            ),
            final(self).boundary() == old(self).boundary(),
            same_identity(old(self)@, final(self)@),
            grouped_by_type(final(self)@),
    {
        let mut p = self.particles[t][k];
        p.position = position;
        self.replace(t, k, p);
    }

    /// Gives particle `k` of type `t` the velocity `velocity`.
    pub fn set_velocity(&mut self, t: usize, k: usize, velocity: Vector3<S>)
        requires
            t < old(self)@.len(),
            k < old(self)@[t as int].len(),
        ensures
            final(self)@ == old(self)@.update(
                t as int,
                old(self)@[t as int].update(
                    k as int,
                    (Particle { velocity, ..old(self)@[t as int][k as int] }),
                ),
            ),
            final(self).boundary() == old(self).boundary(),
            same_identity(old(self)@, final(self)@),
            grouped_by_type(final(self)@),
    {
        let mut p = self.particles[t][k];
        p.velocity = velocity;
        self.replace(t, k, p);
    }

    /// Records on particle `k` of type `t` the outcome of a force
    /// evaluation: the force on it, its potential and its virial.
    pub fn set_accumulators(
        &mut self,
        t: usize,
        k: usize,
        force: Vector3<S>,
        potential: S,
        temp: S,
    )
        requires
            t < old(self)@.len(),
            k < old(self)@[t as int].len(),
        ensures
            final(self)@ == old(self)@.update(
                t as int,
                old(self)@[t as int].update(
                    k as int,
                    (Particle { force, potential, temp, ..old(self)@[t as int][k as int] }),
                ),
            ),
            final(self).boundary() == old(self).boundary(),
            same_identity(old(self)@, final(self)@),
            grouped_by_type(final(self)@),
    {
        let mut p = self.particles[t][k];
        p.force = force;
        p.potential = potential;
        p.temp = temp;
        self.replace(t, k, p);
    }

    /// Sets force, potential and virial of every particle to `zero`: the
    /// first step of a force evaluation.
    pub fn reset_accumulators(&mut self, zero: S)
        ensures
            final(self)@.len() == old(self)@.len(),
            forall|t: int|
                0 <= t < old(self)@.len() ==> (#[trigger] final(self)@[t]).len() == old(self)@[t].len(),
            forall|t: int, k: int|
                0 <= t < old(self)@.len() && 0 <= k < old(self)@[t].len() ==> (
                #[trigger] final(self)@[t][k]) == cleared(old(self)@[t][k], zero),
            final(self).boundary() == old(self).boundary(),
            same_identity(old(self)@, final(self)@),
            grouped_by_type(final(self)@),
    {
        proof {
            use_type_invariant(&*self);
        }
        let mut particles: Vec<Vec<Particle<S>>> = Vec::new();
        std::mem::swap(&mut self.particles, &mut particles);
        let ghost before = groups_view(particles);
        let mut t: usize = 0;
        while t < particles.len()
            invariant
                t <= particles.len(),
                groups_view(particles).len() == before.len(),
                forall|i: int|
                    0 <= i < before.len() ==> (#[trigger] groups_view(particles)[i]).len()
                        == before[i].len(),
                forall|i: int, k: int|
                    0 <= i < t && 0 <= k < before[i].len() ==> (#[trigger] groups_view(
                        particles,
                    )[i][k]) == cleared(before[i][k], zero),
                forall|i: int|
                    t <= i < before.len() ==> (#[trigger] groups_view(particles)[i]) == before[i],
            decreases particles.len() - t,
        {
            let mut k: usize = 0;
            while k < particles[t].len()
                invariant
                    t < particles.len(),
                    k <= particles[t as int].len(),
                    groups_view(particles).len() == before.len(),
                    forall|i: int|
                        0 <= i < before.len() ==> (#[trigger] groups_view(particles)[i]).len()
                            == before[i].len(),
                    forall|i: int, j: int|
                        0 <= i < t && 0 <= j < before[i].len() ==> (#[trigger] groups_view(
                            particles,
                        )[i][j]) == cleared(before[i][j], zero),
                    forall|j: int|
                        0 <= j < k ==> (#[trigger] groups_view(particles)[t as int][j]) == cleared(
                            before[t as int][j],
                            zero,
                        ),
                    forall|j: int|
                        k <= j < before[t as int].len() ==> (#[trigger] groups_view(
                            particles,
                        )[t as int][j]) == before[t as int][j],
                    forall|i: int|
                        t < i < before.len() ==> (#[trigger] groups_view(particles)[i])
                            == before[i],
                decreases particles[t as int].len() - k,
            {
                let mut p = particles[t][k];
                p.force = Vector3::splat(zero);
                p.potential = zero;
                p.temp = zero;
                put(&mut particles, t, k, p);
                k += 1;
            }
            t += 1;
        }
        proof {
            lemma_identity_carries(before, groups_view(particles), Map::empty());
        }
        self.particles = particles;
    }
}

} // verus!
