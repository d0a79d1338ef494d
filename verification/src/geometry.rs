//! The closed set of primitive forms a scene object can take.
//!
//! A scene object couples one of these forms with a transform and a material,
//! both real-valued and owned by the surrounding application. The form alone
//! decides which local-space hit test and normal apply, and whether the
//! object has any geometry at all.

use vstd::prelude::*;

verus! {

/// The primitive shapes a scene object can name. `Unassigned` is a sentinel
/// for an object that has not been given a shape: it is never hit and has no
/// normal.
#[derive(Copy, Clone, Debug, PartialEq, Eq, Structural)]
pub enum Form {
    Plane,
    Sphere,
    Unassigned,
}

impl Form {
    /// Whether an object of this form can ever be hit by a ray or asked for
    /// a surface normal.
    pub fn has_surface(self) -> (r: bool)
        ensures
            r == (self != Form::Unassigned),
    {
        match self {
            Form::Plane => true,
            Form::Sphere => true,
            Form::Unassigned => false,
        }
    }
}

/// The plane `y = 0` in its own local space.
pub struct Plane {}

impl Plane {
    pub fn new() -> Plane {
        Plane {}
    }
}

/// The unit sphere about the origin in its own local space.
pub struct Sphere {}

impl Sphere {
    pub fn new() -> Sphere {
        Sphere {}
    }
}

} // verus!
