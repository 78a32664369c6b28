use itertools::Itertools;
use std::collections::HashMap;
use vstd::prelude::*;
use vstd::std_specs::iter::IteratorSpec;

verus! {

broadcast use vstd::std_specs::hash::group_hash_axioms;

/// One macroscopic observable of a frame. An energy comes with its share per
/// particle.
#[derive(Clone, Copy, Debug, PartialEq)]
pub enum MacroParameterType<S> {
    KineticEnergy(S, S),
    PotentialEnergy(S, S),
    ThermalEnergy(S, S),
    Temperature(S),
    Pressure(S),
}

/// The macroscopic observables of one frame.
#[derive(Clone, Copy, Debug, PartialEq)]
pub struct MacroParameters<S> {
    pub iteration: usize,
    pub kinetic_energy: S,
    pub potential_energy: S,
    pub thermal_energy: S,
    pub unit_kinetic_energy: S,
    pub unit_potential_energy: S,
    pub unit_thermal_energy: S,
    pub temperature: S,
    pub pressure: S,
    pub custom: S,
}

/// The observables of frame `frame` before any of them is known: all `zero`.
pub open spec fn blank<S>(frame: usize, zero: S) -> MacroParameters<S> {
    MacroParameters {
        iteration: frame,
        kinetic_energy: zero,
        potential_energy: zero,
        thermal_energy: zero,
        unit_kinetic_energy: zero,
        unit_potential_energy: zero,
        unit_thermal_energy: zero,
        temperature: zero,
        pressure: zero,
        custom: zero,
    }
}

/// `row` with the observable `parameter` written into it.
pub open spec fn with_parameter<S>(
    row: MacroParameters<S>,
    parameter: MacroParameterType<S>,
) -> MacroParameters<S> {
    match parameter {
        MacroParameterType::KineticEnergy(total, unit) => MacroParameters {
            kinetic_energy: total,
            unit_kinetic_energy: unit,
            ..row
        },
        MacroParameterType::PotentialEnergy(total, unit) => MacroParameters {
            potential_energy: total,
            unit_potential_energy: unit,
            ..row
        },
        MacroParameterType::ThermalEnergy(total, unit) => MacroParameters {
            thermal_energy: total,
            unit_thermal_energy: unit,
            ..row
        },
        MacroParameterType::Temperature(value) => MacroParameters { temperature: value, ..row },
        MacroParameterType::Pressure(value) => MacroParameters { pressure: value, ..row },
    }
}

/// `row` with the observables `parameters` written into it one after the
/// other, so that of two values of one observable the later one counts.
pub open spec fn with_parameters<S>(
    row: MacroParameters<S>,
    parameters: Seq<MacroParameterType<S>>,
) -> MacroParameters<S>
    decreases parameters.len(),
{
    if parameters.len() == 0 {
        row
    } else {
        with_parameter(with_parameters(row, parameters.drop_last()), parameters.last())
    }
}

/// The macroscopic observables of a run of frames.
#[derive(Debug)]
pub struct DataFileMacro<S> {
    /// The observables by frame number.
    pub macro_parameters: HashMap<usize, MacroParameters<S>>,
    /// Number of the first frame of the run.
    pub start_frame: usize,
    /// Number of frames recorded since the run was started.
    pub frame_count: usize,
}

impl<S> View for DataFileMacro<S> {
    type V = Map<usize, MacroParameters<S>>;

    open spec fn view(&self) -> Map<usize, MacroParameters<S>> {
        self.macro_parameters@
    }
}

/// Brings `rows` into the order of their frame numbers by itertools'
/// `sorted_by_key`, which collects what it is given, sorts it by the standard
/// library's stable `sort_by_key` and hands it out again: the same rows come
/// back, with frame numbers that never decrease.
#[verifier::external_body]
fn sorted_by_frame<S>(rows: Vec<(usize, MacroParameters<S>)>) -> (sorted: Vec<
    (usize, MacroParameters<S>),
>)
    ensures
        sorted@.to_multiset() == rows@.to_multiset(),
        forall|i: int, j: int| 0 <= i <= j < sorted.len() ==> sorted[i].0 <= sorted[j].0,
{
    rows.into_iter().sorted_by_key(|row| row.0).collect()
}

impl<S: Copy> DataFileMacro<S> {
    /// A run without frames that starts at frame 0.
    pub fn new() -> (data: Self)
        ensures
            data@ == Map::<usize, MacroParameters<S>>::empty(),
            data.start_frame == 0,
            data.frame_count == 0,
    {
        DataFileMacro { macro_parameters: HashMap::new(), start_frame: 0, frame_count: 0 }
    }

    /// The observables of frame `frame`, if there are any.
    pub fn get(&self, frame: usize) -> (row: Option<MacroParameters<S>>)
        ensures
            row == (if self@.contains_key(frame) {
                Some(self@[frame])
            } else {
                None
            }),
    {
        match self.macro_parameters.get(&frame) {
            Some(row) => Some(*row),
            None => None,
        }
    }

    /// Writes the observables `parameters` into frame `frame`, which starts
    /// out with every observable `zero` if it is new, and counts one frame
    /// more.
    pub fn add_macro_params(
        &mut self,
        frame: usize,
        parameters: &[MacroParameterType<S>],
        zero: S,
    )
        requires
            old(self).frame_count < usize::MAX,
        ensures
            final(self)@ == old(self)@.insert(
                frame,
                with_parameters(
                    (if old(self)@.contains_key(frame) {
                        old(self)@[frame]
                    } else {
                        blank(frame, zero)
                    }),
                    parameters@,
                ),
            ),
            final(self).start_frame == old(self).start_frame,
            final(self).frame_count == old(self).frame_count + 1,
    {
        let mut row = match self.macro_parameters.get(&frame) {
            Some(row) => *row,
            None => MacroParameters {
                iteration: frame,
                kinetic_energy: zero,
                potential_energy: zero,
                thermal_energy: zero,
                unit_kinetic_energy: zero,
                unit_potential_energy: zero,
                unit_thermal_energy: zero,
                temperature: zero,
                pressure: zero,
                custom: zero,
            },
        };
        let ghost base = row;
        let mut i: usize = 0;
        while i < parameters.len()
            invariant
                i <= parameters.len(),
                row == with_parameters(base, parameters@.take(i as int)),
            decreases parameters.len() - i,
        {
            assert(parameters@.take(i + 1).drop_last() =~= parameters@.take(i as int));
            match parameters[i] {
                MacroParameterType::KineticEnergy(total, unit) => {
                    row.kinetic_energy = total;
                    row.unit_kinetic_energy = unit;
                },
                MacroParameterType::PotentialEnergy(total, unit) => {
                    row.potential_energy = total;
                    row.unit_potential_energy = unit;
                },
                MacroParameterType::ThermalEnergy(total, unit) => {
                    row.thermal_energy = total;
                    row.unit_thermal_energy = unit;
                },
                MacroParameterType::Temperature(value) => {
                    row.temperature = value;
                },
                MacroParameterType::Pressure(value) => {
                    row.pressure = value;
                },
            }
            i += 1;
        }
        assert(parameters@.take(i as int) =~= parameters@);
        self.macro_parameters.insert(frame, row);
        self.frame_count += 1;
    }

    /// Forgets the frames recorded so far and lets the run go on after them.
    pub fn reset_old(&mut self)
        requires
            old(self).start_frame + old(self).frame_count <= usize::MAX,
        ensures
            final(self)@ == Map::<usize, MacroParameters<S>>::empty(),
            final(self).start_frame == old(self).start_frame + old(self).frame_count,
            final(self).frame_count == 0,
    {
        self.macro_parameters.clear();
        self.start_frame += self.frame_count;
        self.frame_count = 0;
    }

    /// The frames with their numbers, in no particular order.
    fn frames(&self) -> (rows: Vec<(usize, MacroParameters<S>)>)
        ensures
            rows@.no_duplicates(),
            forall|i: int|
                0 <= i < rows.len() ==> self@.contains_key((#[trigger] rows[i]).0) && self@[rows[i].0]
                    == rows[i].1,
            forall|frame: usize|
                self@.contains_key(frame) ==> rows@.contains((frame, #[trigger] self@[frame])),
    {
        let mut rows: Vec<(usize, MacroParameters<S>)> = Vec::new();
        for frame in it: self.macro_parameters.keys()
            invariant
                it.seq().unref().to_set() == self@.dom(),
                it.seq().unref().no_duplicates(),
                rows.len() == it.index(),
                forall|i: int|
                    0 <= i < rows.len() ==> (#[trigger] rows[i]).0 == it.seq().unref()[i]
                        && self@.contains_key(rows[i].0) && self@[rows[i].0] == rows[i].1,
                it.index() == it.seq().len() ==> forall|frame: usize|
                    self@.contains_key(frame) ==> rows@.contains((frame, #[trigger] self@[frame])),
        {
            match self.macro_parameters.get(frame) {
                Some(row) => {
                    rows.push((*frame, *row));
                },
                None => {
                },
            }
            assert(it.index() + 1 == it.seq().len() ==> forall|frame: usize|
                self@.contains_key(frame) ==> rows@.contains((frame, #[trigger] self@[frame]))) by {
                if it.index() + 1 == it.seq().len() {
                    assert forall|frame: usize| self@.contains_key(frame) implies rows@.contains(
                        (frame, #[trigger] self@[frame]),
                    ) by {
                        let j = choose|j: int|
                            0 <= j < it.seq().unref().len() && it.seq().unref()[j] == frame;
                        assert(rows[j] == (frame, self@[frame]));
                    }
                }
            }
        }
        rows
    }

    /// The frames with their numbers, by ascending frame number: the form in
    /// which a run is written out.
    pub fn sorted_frames(&self) -> (rows: Vec<(usize, MacroParameters<S>)>)
        ensures
            forall|i: int, j: int| 0 <= i < j < rows.len() ==> rows[i].0 < rows[j].0,
            forall|i: int|
                0 <= i < rows.len() ==> self@.contains_key((#[trigger] rows[i]).0) && self@[rows[i].0]
                    == rows[i].1,
            forall|frame: usize|
                self@.contains_key(frame) ==> rows@.contains((frame, #[trigger] self@[frame])),
    {
        let unsorted = self.frames();
        let ghost before = unsorted@;
        let rows = sorted_by_frame(unsorted);
        proof {
            before.lemma_multiset_has_no_duplicates();
            rows@.lemma_multiset_has_no_duplicates_conv();
            assert forall|i: int| 0 <= i < rows.len() implies self@.contains_key(
                (#[trigger] rows[i]).0,
            ) && self@[rows[i].0] == rows[i].1 by {
                vstd::seq_lib::to_multiset_contains(rows@, rows[i]);
                vstd::seq_lib::to_multiset_contains(before, rows[i]);
                let j = choose|j: int| 0 <= j < before.len() && before[j] == rows[i];
            }
            assert forall|frame: usize| self@.contains_key(frame) implies rows@.contains(
                (frame, #[trigger] self@[frame]),
            ) by {
                vstd::seq_lib::to_multiset_contains(rows@, (frame, self@[frame]));
                vstd::seq_lib::to_multiset_contains(before, (frame, self@[frame]));
            }
        }
        rows
    }

    /// Takes over every frame of `another`, in place of the frame of the same
    /// number where there is one.
    pub fn append_data(&mut self, another: &DataFileMacro<S>)
        ensures
            final(self)@ == old(self)@.union_prefer_right(another@),
            final(self).start_frame == old(self).start_frame,
            final(self).frame_count == old(self).frame_count,
    {
        let rows = another.frames();
        let mut i: usize = 0;
        while i < rows.len()
            invariant
                i <= rows.len(),
                self.start_frame == old(self).start_frame,
                self.frame_count == old(self).frame_count,
                forall|j: int|
                    0 <= j < rows.len() ==> another@.contains_key((#[trigger] rows[j]).0)
                        && another@[rows[j].0] == rows[j].1,
                forall|frame: usize|
                    self@.contains_key(frame) <==> old(self)@.contains_key(frame) || exists|j: int|
                        0 <= j < i && (#[trigger] rows[j]).0 == frame,
                forall|frame: usize|
                    self@.contains_key(frame) ==> self@[frame] == (if exists|j: int|
                        0 <= j < i && (#[trigger] rows[j]).0 == frame {
                        another@[frame]
                    } else {
                        old(self)@[frame]
                    }),
            decreases rows.len() - i,
        {
            let (frame, row) = rows[i];
            let ghost before = self@;
            self.macro_parameters.insert(frame, row);
            assert(self@ == before.insert(frame, row));
            i += 1;
        }
        proof {
            assert forall|f: usize| another@.contains_key(f) implies exists|j: int|
                0 <= j < rows.len() && (#[trigger] rows[j]).0 == f by {
                let j = choose|j: int| 0 <= j < rows.len() && rows[j] == (f, another@[f]);
            }
        }
    }

    /// The run that `rows` record, each row under its own frame number, and
    /// of two rows with one number the later one. The run starts at the
    /// smallest frame number and counts the frames from there to the largest.
    /// Without rows there is no run.
    pub fn from_rows(rows: &Vec<MacroParameters<S>>) -> (r: Option<Self>)
        ensures
            r is Some <==> rows.len() > 0,
            r is Some ==> {
                let data = r->0;
                &&& forall|frame: usize|
                    data@.contains_key(frame) <==> exists|i: int|
                        0 <= i < rows.len() && (#[trigger] rows[i]).iteration == frame
                &&& forall|i: int|
                    0 <= i < rows.len() && (forall|j: int|
                        i < j < rows.len() ==> (#[trigger] rows[j]).iteration != rows[i].iteration)
                        ==> data@[(#[trigger] rows[i]).iteration] == rows[i]
                &&& forall|i: int|
                    0 <= i < rows.len() ==> data.start_frame <= (#[trigger] rows[i]).iteration
                        <= data.start_frame + data.frame_count
                &&& exists|i: int|
                    0 <= i < rows.len() && (#[trigger] rows[i]).iteration == data.start_frame
                &&& exists|i: int|
                    0 <= i < rows.len() && (#[trigger] rows[i]).iteration == data.start_frame
                        + data.frame_count
            },
    {
        if rows.len() == 0 {
            return None;
        }
        let mut macro_parameters: HashMap<usize, MacroParameters<S>> = HashMap::new();
        let mut min_iter: usize = rows[0].iteration;
        let mut max_iter: usize = rows[0].iteration;
        let mut n: usize = 0;
        while n < rows.len()
            invariant
                n <= rows.len(),
                rows.len() > 0,
                min_iter <= max_iter,
                forall|frame: usize|
                    macro_parameters@.contains_key(frame) <==> exists|i: int|
                        0 <= i < n && (#[trigger] rows[i]).iteration == frame,
                forall|i: int|
                    0 <= i < n && (forall|j: int|
                        i < j < n ==> (#[trigger] rows[j]).iteration != rows[i].iteration)
                        ==> macro_parameters@[(#[trigger] rows[i]).iteration] == rows[i],
                forall|i: int| 0 <= i < n ==> min_iter <= (#[trigger] rows[i]).iteration <= max_iter,
                exists|i: int| 0 <= i < rows.len() && (#[trigger] rows[i]).iteration == min_iter,
                exists|i: int| 0 <= i < rows.len() && (#[trigger] rows[i]).iteration == max_iter,
            decreases rows.len() - n,
        {
            let row = rows[n];
            if row.iteration > max_iter {
                max_iter = row.iteration;
            }
            if row.iteration < min_iter {
                min_iter = row.iteration;
            }
            macro_parameters.insert(row.iteration, row);
            n += 1;
        }
        Some(
            DataFileMacro {
                macro_parameters,
                start_frame: min_iter,
                frame_count: max_iter - min_iter,
            },
        )
    }
}

} // verus!
