use crate::particle::{agrees_with, grouped_by_type, groups_view, same_identity, Particle, State};
use crate::particles_database::{ParticleDatabase, ParticleEntry};
use crate::vector::Vector3;
use vstd::arithmetic::div_mod::lemma_fundamental_div_mod_converse;
use vstd::prelude::*;

verus! {

/// Why an initial state could not be set up.
#[derive(Clone, Copy, Debug, PartialEq, Eq)]
pub enum InitError {
    /// A particle type is not in the registry.
    ParticleIdDidNotFound,
    /// The lattice has more sites than there are particles to put on them.
    TooBig,
    /// The lattice does not fit inside the periodic box.
    OutOfBoundary,
}

/// Whether `registry` knows each of the type ids `0 .. count`.
pub open spec fn all_registered<S>(registry: Map<u16, ParticleEntry<S>>, count: int) -> bool {
    &&& count <= 0x1_0000
    &&& forall|t: int| 0 <= t < count ==> registry.contains_key(#[trigger] (t as u16))
}

/// The particle of type `id` that rests at the origin: position, velocity,
/// force, potential and virial are all `zero`.
pub open spec fn resting<S>(entry: ParticleEntry<S>, id: u16, zero: S) -> Particle<S> {
    Particle {
        position: Vector3 { x: zero, y: zero, z: zero },
        velocity: Vector3 { x: zero, y: zero, z: zero },
        force: Vector3 { x: zero, y: zero, z: zero },
        potential: zero,
        temp: zero,
        mass: entry.mass,
        radius: entry.radius,
        id,
    }
}

/// A state with `number_particles[t]` resting particles of each type `t`, in
/// the box `boundary`. It fails when one of the types is not registered.
pub fn initialize_particles<S: Copy>(
    db: &ParticleDatabase<S>,
    number_particles: &[usize],
    boundary: &Vector3<S>,
    zero: S,
) -> (r: Result<State<S>, InitError>)
    ensures
        r is Ok <==> all_registered(db@, number_particles@.len() as int),
        r is Err ==> r->Err_0 == InitError::ParticleIdDidNotFound,
        r is Ok ==> {
            let state = r->Ok_0;
            &&& state.boundary() == *boundary
            &&& state@.len() == number_particles@.len()
            &&& forall|t: int|
                0 <= t < state@.len() ==> (#[trigger] state@[t]).len() == number_particles@[t]
            &&& forall|t: int, k: int|
                0 <= t < state@.len() && 0 <= k < state@[t].len() ==> (#[trigger] state@[t][k])
                    == resting(db@[t as u16], t as u16, zero)
            &&& agrees_with(state@, db@)
            &&& grouped_by_type(state@)
        },
{
    let mut particles: Vec<Vec<Particle<S>>> = Vec::new();
    let mut i: usize = 0;
    while i < number_particles.len()
        invariant
            i <= number_particles@.len(),
            i <= 0x1_0000,
            particles.len() == i,
            forall|t: int| 0 <= t < i ==> db@.contains_key(#[trigger] (t as u16)),
            forall|t: int| 0 <= t < i ==> (#[trigger] particles[t]).len() == number_particles@[t],
            forall|t: int, k: int|
                0 <= t < i && 0 <= k < particles[t].len() ==> (#[trigger] particles[t][k])
                    == resting(db@[t as u16], t as u16, zero),
        decreases number_particles.len() - i,
    {
        if i > 0xffff {
            return Err(InitError::ParticleIdDidNotFound);
        }
        let particle_type_id = i as u16;
        let particle = match Particle::new(
            db,
            particle_type_id,
            Vector3::splat(zero),
            Vector3::splat(zero),
            zero,
        ) {
            Some(p) => p,
            None => {
                assert(!db@.contains_key(i as int as u16));
                return Err(InitError::ParticleIdDidNotFound);
            },
        };
        let mut particle_type: Vec<Particle<S>> = Vec::new();
        let mut n: usize = 0;
        while n < number_particles[i]
            invariant
                i < number_particles@.len(),
                n <= number_particles@[i as int],
                particle_type.len() == n,
                forall|k: int| 0 <= k < n ==> particle_type[k] == particle,
            decreases number_particles[i as int] - n,
        {
            particle_type.push(particle);
            n += 1;
        }
        particles.push(particle_type);
        i += 1;
    }
    proof {
        let view = groups_view(particles);
        assert forall|t: int, k: int| 0 <= t < view.len() && 0 <= k < view[t].len() implies {
            &&& (#[trigger] view[t][k]).id == t
            &&& view[t][k].mass == view[t][0].mass
            &&& view[t][k].radius == view[t][0].radius
        } by {
            assert(particles[t][k] == resting(db@[t as u16], t as u16, zero));
            assert(particles[t][0] == resting(db@[t as u16], t as u16, zero));
        }
        assert forall|t: int, k: int| 0 <= t < view.len() && 0 <= k < view[t].len() implies {
            &&& db@.contains_key((#[trigger] view[t][k]).id)
            &&& view[t][k].mass == db@[view[t][k].id].mass
            &&& view[t][k].radius == db@[view[t][k].id].radius
        } by {
            assert(particles[t][k] == resting(db@[t as u16], t as u16, zero));
            assert(db@.contains_key(t as u16));
        }
    }
    Ok(State::from_groups(particles, *boundary))
}

/// Shape of the unit cell of a lattice.
#[derive(Clone, Copy, Debug, PartialEq, Eq)]
pub enum UnitCell {
    /// Simple cubic: one site at the corner of each cell.
    U,
    /// Face-centred cubic: the corner of each cell and the centres of the
    /// three faces that meet there.
    FCC,
}

/// Where the lattice planes of one cell cut an axis: at the near corner of
/// the cell and halfway through it.
#[derive(Clone, Copy, Debug, PartialEq)]
pub struct CellCoordinate<S> {
    pub corner: S,
    pub centre: S,
}

impl UnitCell {
    /// Number of lattice sites in one cell.
    pub open spec fn sites_per_cell(self) -> int {
        match self {
            UnitCell::U => 1,
            UnitCell::FCC => 4,
        }
    }

    /// Number of sites of a lattice of `nx` by `ny` by `nz` cells.
    pub open spec fn sites(self, nx: int, ny: int, nz: int) -> int {
        nx * ny * nz * self.sites_per_cell()
    }

    /// Place in the population of site `b` of the cell `(x, y, z)` in a
    /// lattice that is `ny` cells deep and `nz` cells high: cells are numbered
    /// with `z` running fastest, and the sites of a cell follow each other.
    pub open spec fn index(self, ny: int, nz: int, x: int, y: int, z: int, b: int) -> int {
        (x * ny * nz + y * nz + z) * self.sites_per_cell() + b
    }

    /// Position of site `b` of the cell `(x, y, z)`.
    pub open spec fn position<S>(
        self,
        xs: Seq<CellCoordinate<S>>,
        ys: Seq<CellCoordinate<S>>,
        zs: Seq<CellCoordinate<S>>,
        x: int,
        y: int,
        z: int,
        b: int,
    ) -> Vector3<S> {
        if b == 1 {
            Vector3 { x: xs[x].corner, y: ys[y].centre, z: zs[z].centre }
        } else if b == 2 {
            Vector3 { x: xs[x].centre, y: ys[y].corner, z: zs[z].centre }
        } else if b == 3 {
            Vector3 { x: xs[x].centre, y: ys[y].centre, z: zs[z].corner }
        } else {
            Vector3 { x: xs[x].corner, y: ys[y].corner, z: zs[z].corner }
        }
    }

    /// Position of the site at place `i` of the population, by the cell and
    /// the site that `i` stands for.
    pub open spec fn position_at<S>(
        self,
        xs: Seq<CellCoordinate<S>>,
        ys: Seq<CellCoordinate<S>>,
        zs: Seq<CellCoordinate<S>>,
        i: int,
    ) -> Vector3<S> {
        let cell = i / self.sites_per_cell();
        let plane = (ys.len() * zs.len()) as int;
        self.position(
            xs,
            ys,
            zs,
            cell / plane,
            (cell % plane) / (zs.len() as int),
            (cell % plane) % (zs.len() as int),
            i % self.sites_per_cell(),
        )
    }

    /// The place that `index` gives a site lies inside the lattice, and from
    /// it the cell and the site are found again.
    pub proof fn lemma_index(self, nx: int, ny: int, nz: int, x: int, y: int, z: int, b: int)
        requires
            0 <= x < nx,
            0 <= y < ny,
            0 <= z < nz,
            0 <= b < self.sites_per_cell(),
        ensures
            0 <= self.index(ny, nz, x, y, z, b) < self.sites(nx, ny, nz),
            (self.index(ny, nz, x, y, z, b) / self.sites_per_cell()) / (ny * nz) == x,
            ((self.index(ny, nz, x, y, z, b) / self.sites_per_cell()) % (ny * nz)) / nz == y,
            ((self.index(ny, nz, x, y, z, b) / self.sites_per_cell()) % (ny * nz)) % nz == z,
            self.index(ny, nz, x, y, z, b) % self.sites_per_cell() == b,
    {
        let per = self.sites_per_cell();
        let plane = ny * nz;
        let rest = y * nz + z;
        let cell = x * ny * nz + y * nz + z;
        assert(0 <= rest < plane) by (nonlinear_arith)
            requires
                rest == y * nz + z,
                plane == ny * nz,
                0 <= y < ny,
                0 <= z < nz,
        ;
        assert(cell == x * plane + rest) by (nonlinear_arith)
            requires
                cell == x * ny * nz + y * nz + z,
                plane == ny * nz,
                rest == y * nz + z,
        ;
        assert(0 <= cell < nx * ny * nz) by (nonlinear_arith)
            requires
                cell == x * plane + rest,
                plane == ny * nz,
                0 <= rest < plane,
                0 <= x < nx,
        ;
        lemma_fundamental_div_mod_converse(self.index(ny, nz, x, y, z, b), per, cell, b);
        lemma_fundamental_div_mod_converse(cell, plane, x, rest);
        lemma_fundamental_div_mod_converse(rest, nz, y, z);
        assert(0 <= cell * per + b < nx * ny * nz * per) by (nonlinear_arith)
            requires
                0 <= cell < nx * ny * nz,
                0 <= b < per,
        ;
    }
}

/// Number of sites of a lattice of `nx` by `ny` by `nz` cells, where that
/// number is small enough to be counted.
pub(crate) fn count_sites(cell: UnitCell, nx: usize, ny: usize, nz: usize) -> (count: Option<usize>)
    ensures
        count == (if cell.sites(nx as int, ny as int, nz as int) <= usize::MAX {
            Some(cell.sites(nx as int, ny as int, nz as int) as usize)
        } else {
            None
        }),
{
    let per: usize = match cell {
        UnitCell::U => 1,
        UnitCell::FCC => 4,
    };
    if nx == 0 || ny == 0 || nz == 0 {
        assert(nx * ny * nz * per == 0) by (nonlinear_arith)
            requires
                nx == 0 || ny == 0 || nz == 0,
        ;
        return Some(0);
    }
    let ghost product = nx * ny * nz * per;
    let xy = match nx.checked_mul(ny) {
        Some(v) => v,
        None => {
            assert(product > usize::MAX) by (nonlinear_arith)
                requires
                    product == nx * ny * nz * per,
                    nx * ny > usize::MAX,
                    nz >= 1,
                    per >= 1,
            ;
            return None;
        },
    };
    let xyz = match xy.checked_mul(nz) {
        Some(v) => v,
        None => {
            assert(product > usize::MAX) by (nonlinear_arith)
                requires
                    product == nx * ny * nz * per,
                    nx * ny * nz > usize::MAX,
                    per >= 1,
            ;
            return None;
        },
    };
    xyz.checked_mul(per)
}

/// Number of particles of type `id` in a population.
pub open spec fn population<S>(particles: Seq<Seq<Particle<S>>>, id: int) -> int {
    if 0 <= id < particles.len() {
        particles[id].len() as int
    } else {
        0
    }
}

/// Whether `after` is `before` with the first particles of type `id` moved
/// onto the sites of the lattice, one particle per site in the order of the
/// sites, and with nothing else changed.
pub open spec fn on_lattice<S>(
    cell: UnitCell,
    before: Seq<Seq<Particle<S>>>,
    after: Seq<Seq<Particle<S>>>,
    id: int,
    xs: Seq<CellCoordinate<S>>,
    ys: Seq<CellCoordinate<S>>,
    zs: Seq<CellCoordinate<S>>,
) -> bool {
    let count = cell.sites(xs.len() as int, ys.len() as int, zs.len() as int);
    &&& after.len() == before.len()
    &&& forall|t: int| 0 <= t < before.len() ==> (#[trigger] after[t]).len() == before[t].len()
    &&& forall|t: int, i: int|
        0 <= t < before.len() && 0 <= i < before[t].len() ==> (#[trigger] after[t][i]) == (if t
            == id && i < count {
            Particle { position: cell.position_at(xs, ys, zs, i), ..before[t][i] }
        } else {
            before[t][i]
        })
}

impl UnitCell {
    /// Moves the first particles of type `particle_id` onto the sites of the
    /// lattice whose cells are cut out by the planes `xs`, `ys` and `zs`. It
    /// fails, and changes nothing, when there are fewer particles of that type
    /// than sites.
    pub fn initialize_particles_position<S: Copy>(
        self,
        state: &mut State<S>,
        particle_id: u16,
        xs: &Vec<CellCoordinate<S>>,
        ys: &Vec<CellCoordinate<S>>,
        zs: &Vec<CellCoordinate<S>>,
    ) -> (r: Result<(), InitError>)
        ensures
            final(state).boundary() == old(state).boundary(),
            same_identity(old(state)@, final(state)@),
            grouped_by_type(final(state)@),
            r is Err <==> self.sites(xs.len() as int, ys.len() as int, zs.len() as int)
                > population(old(state)@, particle_id as int),
            r is Err ==> r->Err_0 == InitError::TooBig && final(state)@ == old(state)@,
            r is Ok ==> on_lattice(self, old(state)@, final(state)@, particle_id as int, xs@, ys@, zs@),
            r is Ok ==> forall|x: int, y: int, z: int, b: int|
                0 <= x < xs.len() && 0 <= y < ys.len() && 0 <= z < zs.len() && 0 <= b
                    < self.sites_per_cell() ==> final(state)@[particle_id as int][#[trigger] self.index(
                    ys.len() as int,
                    zs.len() as int,
                    x,
                    y,
                    z,
                    b,
                )].position == self.position(xs@, ys@, zs@, x, y, z, b),
    {
        let t = particle_id as usize;
        let nx = xs.len();
        let ny = ys.len();
        let nz = zs.len();
        let ghost before = state@;
        let groups = state.particles();
        let available = if t < groups.len() {
            assert(groups[t as int]@ == groups_view(*groups)[t as int]);
            groups[t].len()
        } else {
            0
        };
        let count = match count_sites(self, nx, ny, nz) {
            Some(n) => n,
            None => { return Err(InitError::TooBig); },
        };
        if count > available {
            return Err(InitError::TooBig);
        }
        if count == 0 {
            assert forall|x: int, y: int, z: int, b: int|
                0 <= x < xs.len() && 0 <= y < ys.len() && 0 <= z < zs.len() && 0 <= b
                    < self.sites_per_cell() implies state@[particle_id as int][#[trigger] self.index(
                ys.len() as int,
                zs.len() as int,
                x,
                y,
                z,
                b,
            )].position == self.position(xs@, ys@, zs@, x, y, z, b) by {
                self.lemma_index(nx as int, ny as int, nz as int, x, y, z, b);
            }
            return Ok(());
        }
        let ghost per = self.sites_per_cell();
        let ghost mut cell: int = 0;
        let mut next: usize = 0;
        let mut x: usize = 0;
        assert(0 == 0 * ny * nz) by (nonlinear_arith);
        assert(0 == 0 * per) by (nonlinear_arith);
        while x < nx
            invariant
                0 <= x <= nx,
                nx == xs.len(),
                ny == ys.len(),
                nz == zs.len(),
                per == self.sites_per_cell(),
                t == particle_id,
                t < before.len(),
                count == self.sites(nx as int, ny as int, nz as int),
                count <= before[t as int].len(),
                cell == x * ny * nz,
                next == cell * per,
                state.boundary() == old(state).boundary(),
                state@.len() == before.len(),
                forall|u: int| 0 <= u < before.len() ==> (#[trigger] state@[u]).len() == before[u].len(),
                forall|u: int, i: int|
                    0 <= u < before.len() && 0 <= i < before[u].len() ==> (#[trigger] state@[u][i])
                        == (if u == t && i < next {
                        Particle { position: self.position_at(xs@, ys@, zs@, i), ..before[u][i] }
                    } else {
                        before[u][i]
                    }),
            decreases nx - x,
        {
            let mut y: usize = 0;
            assert(x * ny * nz == x * ny * nz + 0 * nz) by (nonlinear_arith);
            while y < ny
                invariant
                    0 <= x < nx,
                    0 <= y <= ny,
                    nx == xs.len(),
                    ny == ys.len(),
                    nz == zs.len(),
                    per == self.sites_per_cell(),
                    t == particle_id,
                    t < before.len(),
                    count == self.sites(nx as int, ny as int, nz as int),
                    count <= before[t as int].len(),
                    cell == x * ny * nz + y * nz,
                    next == cell * per,
                    state.boundary() == old(state).boundary(),
                    state@.len() == before.len(),
                    forall|u: int|
                        0 <= u < before.len() ==> (#[trigger] state@[u]).len() == before[u].len(),
                    forall|u: int, i: int|
                        0 <= u < before.len() && 0 <= i < before[u].len() ==> (
                        #[trigger] state@[u][i]) == (if u == t && i < next {
                            Particle {
                                position: self.position_at(xs@, ys@, zs@, i),
                                ..before[u][i]
                            }
                        } else {
                            before[u][i]
                        }),
                decreases ny - y,
            {
                let mut z: usize = 0;
                while z < nz
                    invariant
                        0 <= x < nx,
                        0 <= y < ny,
                        0 <= z <= nz,
                        nx == xs.len(),
                        ny == ys.len(),
                        nz == zs.len(),
                        per == self.sites_per_cell(),
                        t == particle_id,
                        t < before.len(),
                        count == self.sites(nx as int, ny as int, nz as int),
                        count <= before[t as int].len(),
                        cell == x * ny * nz + y * nz + z,
                        next == cell * per,
                        state.boundary() == old(state).boundary(),
                        state@.len() == before.len(),
                        forall|u: int|
                            0 <= u < before.len() ==> (#[trigger] state@[u]).len()
                                == before[u].len(),
                        forall|u: int, i: int|
                            0 <= u < before.len() && 0 <= i < before[u].len() ==> (
                            #[trigger] state@[u][i]) == (if u == t && i < next {
                                Particle {
                                    position: self.position_at(xs@, ys@, zs@, i),
                                    ..before[u][i]
                                }
                            } else {
                                before[u][i]
                            }),
                    decreases nz - z,
                {
                    let px = xs[x];
                    let py = ys[y];
                    let pz = zs[z];
                    proof {
                        let (gx, gy, gz) = (x as int, y as int, z as int);
                        let (lx, ly, lz) = (nx as int, ny as int, nz as int);
                        self.lemma_index(lx, ly, lz, gx, gy, gz, 0);
                        assert(self.index(ly, lz, gx, gy, gz, 0) == next);
                        assert(self.position_at(xs@, ys@, zs@, next as int) == self.position(
                            xs@,
                            ys@,
                            zs@,
                            gx,
                            gy,
                            gz,
                            0,
                        ));
                        if per == 4 {
                            self.lemma_index(lx, ly, lz, gx, gy, gz, 1);
                            self.lemma_index(lx, ly, lz, gx, gy, gz, 2);
                            self.lemma_index(lx, ly, lz, gx, gy, gz, 3);
                            assert(self.index(ly, lz, gx, gy, gz, 1) == next + 1);
                            assert(self.index(ly, lz, gx, gy, gz, 2) == next + 2);
                            assert(self.index(ly, lz, gx, gy, gz, 3) == next + 3);
                            assert(self.position_at(xs@, ys@, zs@, next + 1) == self.position(
                                xs@,
                                ys@,
                                zs@,
                                gx,
                                gy,
                                gz,
                                1,
                            ));
                            assert(self.position_at(xs@, ys@, zs@, next + 2) == self.position(
                                xs@,
                                ys@,
                                zs@,
                                gx,
                                gy,
                                gz,
                                2,
                            ));
                            assert(self.position_at(xs@, ys@, zs@, next + 3) == self.position(
                                xs@,
                                ys@,
                                zs@,
                                gx,
                                gy,
                                gz,
                                3,
                            ));
                            assert(next + 3 < count);
                        } else {
                            assert(next < count);
                        }
                        assert((cell + 1) * per == cell * per + per) by (nonlinear_arith);
                    }
                    match self {
                        UnitCell::U => {
                            state.set_position(t, next, Vector3::new(px.corner, py.corner, pz.corner));
                            next += 1;
                        },
                        UnitCell::FCC => {
                            state.set_position(t, next, Vector3::new(px.corner, py.corner, pz.corner));
                            state.set_position(
                                t,
                                next + 1,
                                Vector3::new(px.corner, py.centre, pz.centre),
                            );
                            state.set_position(
                                t,
                                next + 2,
                                Vector3::new(px.centre, py.corner, pz.centre),
                            );
                            state.set_position(
                                t,
                                next + 3,
                                Vector3::new(px.centre, py.centre, pz.corner),
                            );
                            next += 4;
                        },
                    }
                    proof {
                        cell = cell + 1;
                    }
                    z += 1;
                }
                assert(x * ny * nz + y * nz + nz == x * ny * nz + (y + 1) * nz) by (nonlinear_arith);
                y += 1;
            }
            assert(x * ny * nz + ny * nz == (x + 1) * ny * nz) by (nonlinear_arith);
            x += 1;
        }
        proof {
            assert(next == count) by (nonlinear_arith)
                requires
                    cell == nx * ny * nz,
                    next == cell * per,
                    count == nx * ny * nz * per,
            ;
            assert(same_identity(before, state@));
            assert forall|x: int, y: int, z: int, b: int|
                0 <= x < xs.len() && 0 <= y < ys.len() && 0 <= z < zs.len() && 0 <= b
                    < self.sites_per_cell() implies state@[particle_id as int][#[trigger] self.index(
                ys.len() as int,
                zs.len() as int,
                x,
                y,
                z,
                b,
            )].position == self.position(xs@, ys@, zs@, x, y, z, b) by {
                self.lemma_index(nx as int, ny as int, nz as int, x, y, z, b);
            }
        }
        Ok(())
    }
}

/// Outcome of placing a lattice: the type must be registered, the lattice
/// must fit into the box, and there must be a particle for every site; the
/// first of these that fails decides the error.
pub open spec fn placement_outcome<S>(
    registry: Map<u16, ParticleEntry<S>>,
    particles: Seq<Seq<Particle<S>>>,
    cell: UnitCell,
    particle_id: u16,
    grid: (int, int, int),
    fits_box: bool,
) -> Result<(), InitError> {
    if !registry.contains_key(particle_id) {
        Err(InitError::ParticleIdDidNotFound)
    } else if !fits_box {
        Err(InitError::OutOfBoundary)
    } else if cell.sites(grid.0, grid.1, grid.2) > population(particles, particle_id as int) {
        Err(InitError::TooBig)
    } else {
        Ok(())
    }
}

/// Puts the first particles of type `particle_id` on a lattice of cells of
/// shape `unit_cell_type`. The lattice has one cell for every combination of
/// an entry of `xs`, of `ys` and of `zs`, which say where the planes of the
/// cell lie on each axis. `fits_box` is the caller's finding on whether the
/// lattice lies inside the box of the state. On an error nothing changes.
pub fn initialize_particles_position<S: Copy>(
    unit_cell_type: UnitCell,
    state: &mut State<S>,
    db: &ParticleDatabase<S>,
    particle_id: u16,
    xs: &Vec<CellCoordinate<S>>,
    ys: &Vec<CellCoordinate<S>>,
    zs: &Vec<CellCoordinate<S>>,
    fits_box: bool,
) -> (r: Result<(), InitError>)
    ensures
        r == placement_outcome(
            db@,
            old(state)@,
            unit_cell_type,
            particle_id,
            (xs.len() as int, ys.len() as int, zs.len() as int),
            fits_box,
        ),
        final(state).boundary() == old(state).boundary(),
        same_identity(old(state)@, final(state)@),
        grouped_by_type(final(state)@),
        r is Err ==> final(state)@ == old(state)@,
        r is Ok ==> on_lattice(
            unit_cell_type,
            old(state)@,
            final(state)@,
            particle_id as int,
            xs@,
            ys@,
            zs@,
        ),
        r is Ok ==> forall|x: int, y: int, z: int, b: int|
            0 <= x < xs.len() && 0 <= y < ys.len() && 0 <= z < zs.len() && 0 <= b
                < unit_cell_type.sites_per_cell() ==> final(state)@[particle_id as int][#[trigger] unit_cell_type.index(
                ys.len() as int,
                zs.len() as int,
                x,
                y,
                z,
                b,
            )].position == unit_cell_type.position(xs@, ys@, zs@, x, y, z, b),
{
    proof {
        use_type_invariant(&*state);
    }
    if !db.contains(particle_id) {
        return Err(InitError::ParticleIdDidNotFound);
    }
    if !fits_box {
        return Err(InitError::OutOfBoundary);
    }
    match unit_cell_type.initialize_particles_position(state, particle_id, xs, ys, zs) {
        Ok(()) => Ok(()),
        Err(e) => Err(e),
    }
}

/// Whether `after` is `before` with the velocities of the particles of type
/// `id` set in pairs: with `half` pairs, particle `k` of the first `half` has
/// the first velocity of pair `k`, and particle `k + half` has the second.
/// Nothing else is changed; with an odd number of particles the last one
/// keeps its velocity.
pub open spec fn paired<S>(
    before: Seq<Seq<Particle<S>>>,
    after: Seq<Seq<Particle<S>>>,
    id: int,
    pairs: Seq<(Vector3<S>, Vector3<S>)>,
) -> bool {
    let half = pairs.len() as int;
    &&& after.len() == before.len()
    &&& forall|t: int| 0 <= t < before.len() ==> (#[trigger] after[t]).len() == before[t].len()
    &&& forall|t: int, k: int|
        0 <= t < before.len() && 0 <= k < before[t].len() ==> (#[trigger] after[t][k]) == (if t
            == id && k < half {
            Particle { velocity: pairs[k].0, ..before[t][k] }
        } else if t == id && k < 2 * half {
            Particle { velocity: pairs[k - half].1, ..before[t][k] }
        } else {
            before[t][k]
        })
}

/// Gives the particles of type `particle_id` velocities in pairs, so that a
/// caller who draws a velocity and hands it over together with its opposite
/// leaves the type without net velocity. It takes one pair for every two
/// particles of the type; given another number of pairs it does nothing and
/// says so.
pub fn initialize_velocities_maxwell_boltzmann<S: Copy>(
    state: &mut State<S>,
    particle_id: u16,
    pairs: &Vec<(Vector3<S>, Vector3<S>)>,
) -> (done: bool)
    ensures
        done == (pairs.len() == population(old(state)@, particle_id as int) / 2),
        !done ==> final(state)@ == old(state)@,
        done ==> paired(old(state)@, final(state)@, particle_id as int, pairs@),
        final(state).boundary() == old(state).boundary(),
        same_identity(old(state)@, final(state)@),
        grouped_by_type(final(state)@),
{
    let t = particle_id as usize;
    let ghost before = state@;
    let groups = state.particles();
    let count = if t < groups.len() {
        assert(groups[t as int]@ == groups_view(*groups)[t as int]);
        groups[t].len()
    } else {
        0
    };
    assert(same_identity(before, before));
    let half = count / 2;
    if pairs.len() != half {
        return false;
    }
    let mut k: usize = 0;
    while k < half
        invariant
            k <= half,
            half == pairs.len(),
            half == count / 2,
            t == particle_id,
            half > 0 ==> t < before.len() && count == before[t as int].len(),
            state.boundary() == old(state).boundary(),
            state@.len() == before.len(),
            forall|u: int| 0 <= u < before.len() ==> (#[trigger] state@[u]).len() == before[u].len(),
            forall|u: int, i: int|
                0 <= u < before.len() && 0 <= i < before[u].len() ==> (#[trigger] state@[u][i])
                    == (if u == t && i < k {
                    Particle { velocity: pairs[i].0, ..before[u][i] }
                } else if u == t && half <= i < half + k {
                    Particle { velocity: pairs[i - half].1, ..before[u][i] }
                } else {
                    before[u][i]
                }),
        decreases half - k,
    {
        let pair = pairs[k];
        state.set_velocity(t, k, pair.0);
        state.set_velocity(t, k + half, pair.1);
        k += 1;
    }
    assert(same_identity(before, state@));
    true
}

} // verus!
