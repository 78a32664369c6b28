use vstd::prelude::*;

verus! {

/// A triple of scalars: a position, a velocity, a force or the side lengths
/// of the periodic box.
#[derive(Clone, Copy, Debug, PartialEq)]
pub struct Vector3<S> {
    pub x: S,
    pub y: S,
    pub z: S,
}

impl<S: Copy> Vector3<S> {
    /// The vector with the given components.
    pub fn new(x: S, y: S, z: S) -> (v: Self)
        ensures
            v == (Vector3 { x, y, z }),
    {
        Vector3 { x, y, z }
    }

    /// The vector whose three components all equal `value`.
    pub fn splat(value: S) -> (v: Self)
        ensures
            v == (Vector3 { x: value, y: value, z: value }),
    {
        Vector3 { x: value, y: value, z: value }
    }
}

} // verus!
