use std::collections::HashMap;
use vstd::prelude::*;

verus! {

broadcast use vstd::std_specs::hash::group_hash_axioms;

/// What the registry knows about one particle type.
#[derive(Debug)]
pub struct ParticleData<S> {
    /// Display name of the type.
    pub name: String,
    /// Mass of one particle of the type.
    pub mass: S,
    /// Radius of one particle of the type.
    pub radius: S,
}

/// Mathematical value of a [`ParticleData`]: the name as a sequence of
/// characters, mass and radius as they are.
pub ghost struct ParticleEntry<S> {
    pub name: Seq<char>,
    pub mass: S,
    pub radius: S,
}

impl<S> View for ParticleData<S> {
    type V = ParticleEntry<S>;

    open spec fn view(&self) -> ParticleEntry<S> {
        ParticleEntry { name: self.name@, mass: self.mass, radius: self.radius }
    }
}

/// One line of the registry in tabular form: a type id with its data.
#[derive(Debug, PartialEq)]
pub struct ParticleRecord<S> {
    pub id: u16,
    pub name: String,
    pub mass: S,
    pub radius: S,
}

impl<S> ParticleRecord<S> {
    /// The registry entry that this record describes.
    pub open spec fn entry(&self) -> ParticleEntry<S> {
        ParticleEntry { name: self.name@, mass: self.mass, radius: self.radius }
    }
}

/// Ways in which storing or reading back a table can fail.
#[derive(Clone, Copy, Debug, PartialEq, Eq)]
pub enum SaveLoadError {
    CantOpen,
    CantCreate,
    CantWrite,
    CantRead,
}

/// Registry of particle types, keyed by type id.
#[derive(Debug)]
pub struct ParticleDatabase<S> {
    particles: HashMap<u16, ParticleData<S>>,
}

impl<S> View for ParticleDatabase<S> {
    type V = Map<u16, ParticleEntry<S>>;

    closed spec fn view(&self) -> Map<u16, ParticleEntry<S>> {
        self.particles@.map_values(|d: ParticleData<S>| d@)
    }
}

impl<S: Copy> ParticleDatabase<S> {
    /// An empty registry.
    pub fn new() -> (db: Self)
        ensures
            db@ == Map::<u16, ParticleEntry<S>>::empty(),
    {
        let db = ParticleDatabase { particles: HashMap::new() };
        db
    }

    /// Registers type `id`, replacing whatever was registered under it.
    pub fn add(&mut self, id: u16, name: &str, mass: S, radius: S)
        ensures
            final(self)@ == old(self)@.insert(id, (ParticleEntry { name: name@, mass, radius })),
    {
        let data = ParticleData { name: name.to_owned(), mass, radius };
        self.particles.insert(id, data);
    }

    /// Whether type `id` is registered.
    pub fn contains(&self, id: u16) -> (r: bool)
        ensures
            r == self@.contains_key(id),
    {
        self.particles.contains_key(&id)
    }

    /// Mass of type `id`, if it is registered.
    pub fn get_particle_mass(&self, id: u16) -> (r: Option<S>)
        ensures
            r == (if self@.contains_key(id) { Some(self@[id].mass) } else { None }),
    {
        match self.particles.get(&id) {
            Some(data) => Some(data.mass),
            None => None,
        }
    }

    /// Radius of type `id`, if it is registered.
    pub fn get_particle_radius(&self, id: u16) -> (r: Option<S>)
        ensures
            r == (if self@.contains_key(id) { Some(self@[id].radius) } else { None }),
    {
        match self.particles.get(&id) {
            Some(data) => Some(data.radius),
            None => None,
        }
    }

    /// Name of type `id`, if it is registered.
    pub fn get_particle_name(&self, id: u16) -> (r: Option<String>)
        ensures
            self@.contains_key(id) <==> r is Some,
            r is Some ==> r->0@ == self@[id].name,
    {
        match self.particles.get(&id) {
            Some(data) => Some(data.name.clone()),
            None => None,
        }
    }

    /// Registers every row of `rows` whose id is not registered yet. An id
    /// that is already known keeps its data, and of several rows with one id
    /// the first counts.
    pub fn load_particles_data(&mut self, rows: &Vec<ParticleRecord<S>>)
        ensures
            forall|k: u16|
                final(self)@.contains_key(k) <==> old(self)@.contains_key(k) || exists|i: int|
                    0 <= i < rows.len() && (#[trigger] rows[i]).id == k,
            forall|k: u16| old(self)@.contains_key(k) ==> final(self)@[k] == old(self)@[k],
            forall|i: int|
                0 <= i < rows.len() && !old(self)@.contains_key((#[trigger] rows[i]).id) && (forall|
                    j: int,
                | 0 <= j < i ==> (#[trigger] rows[j]).id != rows[i].id) ==> final(self)@[rows[i].id]
                    == rows[i].entry(),
    {
        let mut n: usize = 0;
        while n < rows.len()
            invariant
                n <= rows.len(),
                forall|k: u16|
                    self@.contains_key(k) <==> old(self)@.contains_key(k) || exists|i: int|
                        0 <= i < n && (#[trigger] rows[i]).id == k,
                forall|k: u16| old(self)@.contains_key(k) ==> self@[k] == old(self)@[k],
                forall|i: int|
                    0 <= i < n && !old(self)@.contains_key((#[trigger] rows[i]).id) && (forall|
                        j: int,
                    | 0 <= j < i ==> (#[trigger] rows[j]).id != rows[i].id) ==> self@[rows[i].id]
                        == rows[i].entry(),
            decreases rows.len() - n,
        {
            let row = &rows[n];
            let ghost before = self@;
            if !self.particles.contains_key(&row.id) {
                let data = ParticleData { name: row.name.clone(), mass: row.mass, radius: row.radius };
                self.particles.insert(row.id, data);
            }
            proof {
                assert forall|k: u16|
                    self@.contains_key(k) <==> old(self)@.contains_key(k) || exists|i: int|
                        0 <= i < n + 1 && (#[trigger] rows[i]).id == k by {
                    if self@.contains_key(k) && !old(self)@.contains_key(k) {
                        if before.contains_key(k) {
                            let i = choose|i: int| 0 <= i < n && (#[trigger] rows[i]).id == k;
                        }
                    }
                    if exists|i: int| 0 <= i < n + 1 && (#[trigger] rows[i]).id == k {
                        let i = choose|i: int| 0 <= i < n + 1 && (#[trigger] rows[i]).id == k;
                    }
                }
            }
            n += 1;
        }
    }

    /// Registers every type of `other`, replacing the data of ids that are
    /// registered already.
    pub fn load(&mut self, other: &ParticleDatabase<S>)
        ensures
            final(self)@ == old(self)@.union_prefer_right(other@),
    {
        let mut n: u32 = 0;
        while n <= 0xffff
            invariant
                n <= 0x1_0000,
                self@ =~= old(self)@.union_prefer_right(
                    other@.restrict(Set::new(|k: u16| k < n)),
                ),
            decreases 0x1_0000 - n,
        {
            let id = n as u16;
            let ghost before = self@;
            match other.particles.get(&id) {
                Some(data) => {
                    let copy = ParticleData {
                        name: data.name.clone(),
                        mass: data.mass,
                        radius: data.radius,
                    };
                    self.particles.insert(id, copy);
                    assert(self@ =~= before.insert(id, other@[id]));
                },
                None => {
                },
            }
            n += 1;
        }
    }

    /// The registry as a table, one row per registered type, by ascending id.
    pub fn get_data(&self) -> (rows: Vec<ParticleRecord<S>>)
        ensures
            forall|i: int|
                0 <= i < rows.len() ==> self@.contains_key((#[trigger] rows[i]).id) && rows[i].entry()
                    == self@[rows[i].id],
            forall|i: int, j: int| 0 <= i < j < rows.len() ==> rows[i].id < rows[j].id,
            forall|k: u16|
                self@.contains_key(k) ==> exists|i: int|
                    0 <= i < rows.len() && (#[trigger] rows[i]).id == k,
    {
        let mut rows: Vec<ParticleRecord<S>> = Vec::new();
        let mut n: u32 = 0;
        while n <= 0xffff
            invariant
                n <= 0x1_0000,
                forall|i: int|
                    0 <= i < rows.len() ==> self@.contains_key((#[trigger] rows[i]).id)
                        && rows[i].entry() == self@[rows[i].id] && rows[i].id < n,
                forall|i: int, j: int| 0 <= i < j < rows.len() ==> rows[i].id < rows[j].id,
                forall|k: u16|
                    k < n && self@.contains_key(k) ==> exists|i: int|
                        0 <= i < rows.len() && (#[trigger] rows[i]).id == k,
            decreases 0x1_0000 - n,
        {
            let id = n as u16;
            match self.particles.get(&id) {
                Some(data) => {
                    let ghost before = rows@;
                    rows.push(
                        ParticleRecord {
                            id,
                            name: data.name.clone(),
                            mass: data.mass,
                            radius: data.radius,
                        },
                    );
                    proof {
                        assert forall|k: u16| k <= id && self@.contains_key(k) implies exists|i: int|
                            0 <= i < rows.len() && (#[trigger] rows[i]).id == k by {
                            if k < id {
                                let i = choose|i: int|
                                    0 <= i < before.len() && (#[trigger] before[i]).id == k;
                                assert(rows[i].id == k);
                            } else {
                                assert(rows[rows.len() - 1].id == k);
                            }
                        }
                    }
                },
                None => {},
            }
            n += 1;
        }
        rows
    }

    /// Forgets every registered type.
    pub fn clear_particles(&mut self)
        ensures
            final(self)@ == Map::<u16, ParticleEntry<S>>::empty(),
    {
        self.particles.clear();
    }
}

} // verus!
