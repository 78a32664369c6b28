use crate::error::SolverError;
use crate::key::{format_key, key_text, lemma_key_round_trip, parse_key, parse_key_text};
use crate::particles_database::SaveLoadError;
use std::collections::HashMap;
use vstd::prelude::*;
use vstd::std_specs::iter::IteratorSpec;

verus! {

broadcast use vstd::std_specs::hash::group_hash_axioms;

/// Description of a pair potential.
#[derive(Debug, PartialEq)]
pub enum Potential<S> {
    /// Lennard-Jones potential of length `sigma` and depth `eps`, cut off at
    /// the distance `r_cut` and shifted by `u_cut`, its unshifted value there.
    LennardJones { sigma: S, eps: S, r_cut: S, u_cut: S },
    /// A potential known by name only; it cannot be evaluated.
    Custom { name: String, custom_data: Vec<S> },
}

/// Mathematical value of a [`Potential`].
pub ghost enum PotentialView<S> {
    LennardJones { sigma: S, eps: S, r_cut: S, u_cut: S },
    Custom { name: Seq<char>, custom_data: Seq<S> },
}

impl<S> View for Potential<S> {
    type V = PotentialView<S>;

    open spec fn view(&self) -> PotentialView<S> {
        match self {
            Potential::LennardJones { sigma, eps, r_cut, u_cut } => PotentialView::LennardJones {
                sigma: *sigma,
                eps: *eps,
                r_cut: *r_cut,
                u_cut: *u_cut,
            },
            Potential::Custom { name, custom_data } => PotentialView::Custom {
                name: name@,
                custom_data: custom_data@,
            },
        }
    }
}

impl<S: Copy> Potential<S> {
    /// The Lennard-Jones potential with the given parameters.
    pub fn new_lennard_jones(sigma: S, eps: S, r_cut: S, u_cut: S) -> (p: Self)
        ensures
            p@ == (PotentialView::LennardJones { sigma, eps, r_cut, u_cut }),
    {
        Potential::LennardJones { sigma, eps, r_cut, u_cut }
    }

    /// Distance beyond which the potential vanishes. A custom potential has
    /// none.
    pub fn get_radius_cut(&self) -> (r: Result<S, SolverError>)
        ensures
            r == (match self@ {
                PotentialView::LennardJones { r_cut, .. } => Ok(r_cut),
                PotentialView::Custom { .. } => Err(SolverError::PotentialNotImplemented),
            }),
    {
        match self {
            Potential::LennardJones { r_cut, .. } => Ok(*r_cut),
            Potential::Custom { .. } => Err(SolverError::PotentialNotImplemented),
        }
    }

    /// A second descriptor of the same potential.
    pub fn duplicate(&self) -> (p: Self)
        ensures
            p@ == self@,
    {
        match self {
            Potential::LennardJones { sigma, eps, r_cut, u_cut } => Potential::LennardJones {
                sigma: *sigma,
                eps: *eps,
                r_cut: *r_cut,
                u_cut: *u_cut,
            },
            Potential::Custom { name, custom_data } => {
                let mut data: Vec<S> = Vec::new();
                let mut i: usize = 0;
                while i < custom_data.len()
                    invariant
                        i <= custom_data.len(),
                        data@ == custom_data@.take(i as int),
                    decreases custom_data.len() - i,
                {
                    data.push(custom_data[i]);
                    i += 1;
                }
                assert(data@ =~= custom_data@);
                Potential::Custom { name: name.clone(), custom_data: data }
            },
        }
    }
}

/// The unordered pair of type ids `{id0, id1}`, smaller id first.
pub open spec fn canonical(id0: u16, id1: u16) -> (u16, u16) {
    if id0 > id1 {
        (id1, id0)
    } else {
        (id0, id1)
    }
}

/// The number under which the registry files a pair of type ids.
spec fn pack(pair: (u16, u16)) -> u32 {
    (pair.0 as u32 * 0x1_0000 + pair.1 as u32) as u32
}

/// One line of the registry of potentials in tabular form: the text of the
/// key of a pair of types, and the potential of the pair.
#[derive(Debug, PartialEq)]
pub struct PotentialRecord<S> {
    pub key: String,
    pub potential: Potential<S>,
}

impl<S> View for PotentialRecord<S> {
    type V = (Seq<char>, PotentialView<S>);

    open spec fn view(&self) -> (Seq<char>, PotentialView<S>) {
        (self.key@, self.potential@)
    }
}

/// The views of a table of records.
pub open spec fn records_view<S>(rows: Seq<PotentialRecord<S>>) -> Seq<
    (Seq<char>, PotentialView<S>),
> {
    rows.map_values(|row: PotentialRecord<S>| row@)
}

/// The pair of types that a row is about.
pub open spec fn pair_of<S>(row: (Seq<char>, PotentialView<S>)) -> (u16, u16) {
    let pair = parse_key_text(row.0)->0;
    canonical(pair.0, pair.1)
}

/// Whether the key of every row is the text of a key.
pub open spec fn keys_readable<S>(rows: Seq<(Seq<char>, PotentialView<S>)>) -> bool {
    forall|i: int| 0 <= i < rows.len() ==> parse_key_text((#[trigger] rows[i]).0) is Some
}

/// The registry `m` after the rows were set in it one after the other, so
/// that of two rows about one pair the later one counts.
pub open spec fn loaded<S>(
    m: Map<(u16, u16), PotentialView<S>>,
    rows: Seq<(Seq<char>, PotentialView<S>)>,
) -> Map<(u16, u16), PotentialView<S>>
    decreases rows.len(),
{
    if rows.len() == 0 {
        m
    } else {
        loaded(m, rows.drop_last()).insert(pair_of(rows.last()), rows.last().1)
    }
}

/// Whether `rows` list the registry `m`: one row for every pair of `m`, with
/// the text of the key of the pair and the potential of the pair.
pub open spec fn lists<S>(
    rows: Seq<(Seq<char>, PotentialView<S>)>,
    m: Map<(u16, u16), PotentialView<S>>,
) -> bool {
    &&& keys_readable(rows)
    &&& forall|i: int|
        0 <= i < rows.len() ==> {
            &&& m.contains_key(pair_of(#[trigger] rows[i]))
            &&& rows[i].0 == key_text(pair_of(rows[i]).0, pair_of(rows[i]).1)
            &&& rows[i].1 == m[pair_of(rows[i])]
        }
    &&& forall|i: int, j: int|
        0 <= i < j < rows.len() ==> pair_of(#[trigger] rows[i]) != pair_of(#[trigger] rows[j])
    &&& forall|pair: (u16, u16)|
        m.contains_key(pair) ==> exists|i: int|
            0 <= i < rows.len() && pair_of(#[trigger] rows[i]) == pair
}

/// Reading a listing of a registry into an empty registry gives the
/// registry back.
pub proof fn lemma_registry_round_trip<S>(
    rows: Seq<(Seq<char>, PotentialView<S>)>,
    m: Map<(u16, u16), PotentialView<S>>,
)
    requires
        lists(rows, m),
    ensures
        loaded(Map::empty(), rows) == m,
{
    lemma_loaded_prefix(rows, m, rows.len() as int);
    assert(rows.take(rows.len() as int) =~= rows);
}

/// What reading the first `k` rows of a listing into an empty registry
/// gives: the pairs of those rows, each with its potential.
proof fn lemma_loaded_prefix<S>(
    rows: Seq<(Seq<char>, PotentialView<S>)>,
    m: Map<(u16, u16), PotentialView<S>>,
    k: int,
)
    requires
        lists(rows, m),
        0 <= k <= rows.len(),
    ensures
        forall|pair: (u16, u16)|
            loaded(Map::empty(), rows.take(k)).contains_key(pair) <==> exists|i: int|
                0 <= i < k && pair_of(#[trigger] rows[i]) == pair,
        forall|pair: (u16, u16)| #[trigger]
            loaded(Map::empty(), rows.take(k)).contains_key(pair) ==> loaded(
                Map::empty(),
                rows.take(k),
            )[pair] == m[pair],
    decreases k,
{
    let empty = Map::<(u16, u16), PotentialView<S>>::empty();
    if k > 0 {
        lemma_loaded_prefix(rows, m, k - 1);
        assert(rows.take(k).drop_last() =~= rows.take(k - 1));
        let before = loaded(empty, rows.take(k - 1));
        assert(loaded(empty, rows.take(k)) == before.insert(pair_of(rows[k - 1]), rows[k - 1].1));
    }
}

/// Registry of pair potentials by unordered pair of type ids, with a
/// potential for the pairs that have none of their own.
#[derive(Debug)]
pub struct PotentialsDatabase<S> {
    potentials: HashMap<u32, Potential<S>>,
    default_potential: Potential<S>,
}

impl<S> View for PotentialsDatabase<S> {
    type V = Map<(u16, u16), PotentialView<S>>;

    /// The potentials that were set, by ordered pair `(smaller, larger)`.
    closed spec fn view(&self) -> Map<(u16, u16), PotentialView<S>> {
        Map::new(
            |pair: (u16, u16)| pair.0 <= pair.1 && self.potentials@.contains_key(pack(pair)),
            |pair: (u16, u16)| self.potentials@[pack(pair)]@,
        )
    }
}

impl<S> PotentialsDatabase<S> {
    /// The potential of the pairs for which none was set.
    pub closed spec fn default_potential(&self) -> PotentialView<S> {
        self.default_potential@
    }

    /// The potential through which types `id0` and `id1` interact.
    pub open spec fn potential_of(&self, id0: u16, id1: u16) -> PotentialView<S> {
        if self@.contains_key(canonical(id0, id1)) {
            self@[canonical(id0, id1)]
        } else {
            self.default_potential()
        }
    }
}

/// The potential of a pair of types does not depend on the order in which
/// the two types are named.
pub proof fn lemma_potential_symmetric<S>(db: &PotentialsDatabase<S>, id0: u16, id1: u16)
    ensures
        db.potential_of(id0, id1) == db.potential_of(id1, id0),
{
}

fn pack_pair(lo: u16, hi: u16) -> (key: u32)
    ensures
        key == pack((lo, hi)),
{
    lo as u32 * 0x1_0000 + hi as u32
}

impl<S: Copy> PotentialsDatabase<S> {
    /// A registry in which every pair interacts through `default_potential`.
    pub fn new(default_potential: Potential<S>) -> (db: Self)
        ensures
            db@ == Map::<(u16, u16), PotentialView<S>>::empty(),
            db.default_potential() == default_potential@,
    {
        let db = PotentialsDatabase { potentials: HashMap::new(), default_potential };
        db
    }

    /// Lets types `id0` and `id1` interact through `potential`, in either
    /// order of the two.
    pub fn set_potential(&mut self, id0: u16, id1: u16, potential: Potential<S>)
        ensures
            final(self)@ == old(self)@.insert(canonical(id0, id1), potential@),
            final(self).default_potential() == old(self).default_potential(),
    {
        let (lo, hi) = if id0 > id1 {
            (id1, id0)
        } else {
            (id0, id1)
        };
        let key = pack_pair(lo, hi);
        let ghost value = potential@;
        self.potentials.insert(key, potential);
        assert(self@ =~= old(self)@.insert((lo, hi), value));
    }

    /// The potential through which types `id0` and `id1` interact: the one
    /// set for the pair, or else the default.
    pub fn get_potential(&self, id0: u16, id1: u16) -> (potential: &Potential<S>)
        ensures
            potential@ == self.potential_of(id0, id1),
    {
        let (lo, hi) = if id0 > id1 {
            (id1, id0)
        } else {
            (id0, id1)
        };
        let key = pack_pair(lo, hi);
        match self.potentials.get(&key) {
            Some(potential) => potential,
            None => &self.default_potential,
        }
    }

    /// The pairs for which a potential was set, each once, smaller id first.
    pub fn pairs(&self) -> (pairs: Vec<(u16, u16)>)
        ensures
            pairs@.no_duplicates(),
            pairs@.to_set() == self@.dom(),
            forall|i: int| 0 <= i < pairs.len() ==> (#[trigger] pairs[i]).0 <= pairs[i].1,
    {
        let mut pairs: Vec<(u16, u16)> = Vec::new();
        for key in it: self.potentials.keys()
            invariant
                it.seq().unref().to_set() == self.potentials@.dom(),
                it.seq().unref().no_duplicates(),
                pairs@.no_duplicates(),
                forall|i: int|
                    0 <= i < pairs.len() ==> (#[trigger] pairs[i]).0 <= pairs[i].1 && exists|j: int|
                        0 <= j < it.index() && #[trigger] it.seq().unref()[j] == pack(pairs[i]),
                forall|j: int|
                    0 <= j < it.index() && (#[trigger] it.seq().unref()[j]) / 0x1_0000
                        <= it.seq().unref()[j] % 0x1_0000 ==> exists|i: int|
                        0 <= i < pairs.len() && pack(#[trigger] pairs[i]) == it.seq().unref()[j],
                it.index() == it.seq().len() ==> pairs@.to_set() =~= self@.dom(),
        {
            let lo = (*key / 0x1_0000) as u16;
            let hi = (*key % 0x1_0000) as u16;
            if lo <= hi {
                let ghost before = pairs@;
                pairs.push((lo, hi));
                proof {
                    assert forall|j: int|
                        0 <= j < it.index() + 1 && (#[trigger] it.seq().unref()[j]) / 0x1_0000
                            <= it.seq().unref()[j] % 0x1_0000 implies exists|i: int|
                        0 <= i < pairs.len() && pack(#[trigger] pairs[i]) == it.seq().unref()[j] by {
                        if j < it.index() {
                            let i = choose|i: int|
                                0 <= i < before.len() && pack(#[trigger] before[i])
                                    == it.seq().unref()[j];
                            assert(pack(pairs[i]) == it.seq().unref()[j]);
                        } else {
                            assert(pack(pairs[pairs.len() - 1]) == it.seq().unref()[j]);
                        }
                    }
                }
            }
        }
        pairs
    }

    /// The registry as a table: one record for every pair for which a
    /// potential was set, in no particular order.
    pub fn save_potentials(&self) -> (rows: Vec<PotentialRecord<S>>)
        ensures
            lists(records_view(rows@), self@),
    {
        let pairs = self.pairs();
        let mut rows: Vec<PotentialRecord<S>> = Vec::new();
        let mut i: usize = 0;
        while i < pairs.len()
            invariant
                i <= pairs.len(),
                rows.len() == i,
                pairs@.no_duplicates(),
                pairs@.to_set() == self@.dom(),
                forall|j: int| 0 <= j < pairs.len() ==> (#[trigger] pairs[j]).0 <= pairs[j].1,
                forall|j: int|
                    0 <= j < i ==> {
                        &&& (#[trigger] rows[j]).key@ == key_text(pairs[j].0, pairs[j].1)
                        &&& rows[j].potential@ == self@[pairs[j]]
                    },
            decreases pairs.len() - i,
        {
            let (lo, hi) = pairs[i];
            let potential = self.get_potential(lo, hi).duplicate();
            rows.push(PotentialRecord { key: format_key(lo, hi), potential });
            i += 1;
        }
        proof {
            let view = records_view(rows@);
            assert forall|j: int| 0 <= j < view.len() implies parse_key_text(
                (#[trigger] view[j]).0,
            ) == Some(pairs[j]) && pair_of(view[j]) == pairs[j] && view[j].1 == self@[pairs[j]] by {
                lemma_key_round_trip(pairs[j].0, pairs[j].1);
            }
            assert forall|pair: (u16, u16)| self@.contains_key(pair) implies exists|j: int|
                0 <= j < view.len() && pair_of(#[trigger] view[j]) == pair by {
                let j = choose|j: int| 0 <= j < pairs.len() && pairs[j] == pair;
                assert(pair_of(view[j]) == pair);
            }
        }
        rows
    }

    /// Sets the potential of every row of `rows` for the pair that the key
    /// of the row names, row after row. Where a key is not the text of a key,
    /// nothing is set at all.
    pub fn load_potentials(&mut self, rows: &Vec<PotentialRecord<S>>) -> (r: Result<
        (),
        SaveLoadError,
    >)
        ensures
            r is Ok <==> keys_readable(records_view(rows@)),
            r is Err ==> r->Err_0 == SaveLoadError::CantRead && final(self)@ == old(self)@,
            r is Ok ==> final(self)@ == loaded(old(self)@, records_view(rows@)),
            final(self).default_potential() == old(self).default_potential(),
    {
        let ghost view = records_view(rows@);
        let mut pairs: Vec<(u16, u16)> = Vec::new();
        let mut i: usize = 0;
        while i < rows.len()
            invariant
                i <= rows.len(),
                pairs.len() == i,
                view == records_view(rows@),
                forall|j: int|
                    0 <= j < i ==> parse_key_text((#[trigger] view[j]).0) == Some(pairs[j]),
            decreases rows.len() - i,
        {
            assert(view[i as int] == rows[i as int]@);
            match parse_key(rows[i].key.as_str()) {
                Some(pair) => {
                    pairs.push(pair);
                },
                None => {
                    return Err(SaveLoadError::CantRead);
                },
            }
            i += 1;
        }
        let mut i: usize = 0;
        while i < rows.len()
            invariant
                i <= rows.len(),
                pairs.len() == rows.len(),
                view == records_view(rows@),
                forall|j: int|
                    0 <= j < rows.len() ==> parse_key_text((#[trigger] view[j]).0) == Some(
                        pairs[j],
                    ),
                self@ == loaded(old(self)@, view.take(i as int)),
                self.default_potential() == old(self).default_potential(),
            decreases rows.len() - i,
        {
            let (id0, id1) = pairs[i];
            self.set_potential(id0, id1, rows[i].potential.duplicate());
            proof {
                assert(view.take(i + 1).drop_last() =~= view.take(i as int));
            }
            i += 1;
        }
        assert(view.take(i as int) =~= view);
        Ok(())
    }
}

} // verus!
