//! A single simulated body and its construction.

use crate::fixed::LIMIT;
use crate::vec3::{in_range_s, v3_zero, vscale_s, vsub_s, Vec3};
use vstd::prelude::*;

verus! {

/// Rejection of an invalid body at creation time.
#[derive(Clone, Copy, PartialEq, Eq, Structural, Debug)]
pub enum SimError {
    /// The supplied mass was zero or negative.
    NonPositiveMass,
    /// The supplied radius was zero or negative.
    NonPositiveRadius,
}

/// One body of the simulation.
///
/// Velocity is not stored: the pair of `position` and `previous_position`
/// encodes it implicitly for the two-position integration scheme.
/// `acceleration` is transient scratch state, zeroed at the start of every
/// tick, filled by the force passes and consumed by the integrator.
#[derive(Clone, Copy)]
pub struct Body {
    /// Strictly positive mass; immutable after creation.
    pub mass: i128,
    /// Strictly positive radius; immutable after creation. Doubles as the
    /// softening term of the pairwise repulsion.
    pub radius: i128,
    /// Current location.
    pub position: Vec3,
    /// The location one fixed tick earlier.
    pub previous_position: Vec3,
    /// Per-tick force accumulator.
    pub acceleration: Vec3,
    /// An anchor never moves, whatever forces act on it.
    pub is_anchor: bool,
}

/// Well-formedness of a body: positive bounded mass and radius, every vector
/// within the representable range, and an anchor at rest.
pub open spec fn body_wf(b: Body) -> bool {
    &&& 0 < b.mass <= LIMIT
    &&& 0 < b.radius <= LIMIT
    &&& in_range_s(b.position@)
    &&& in_range_s(b.previous_position@)
    &&& in_range_s(b.acceleration@)
    &&& (b.is_anchor ==> b.previous_position == b.position)
}

impl Body {
    /// Builds a body from its initial attributes, rejecting a non-positive
    /// mass or radius. The previous position is set one tick behind the
    /// current one according to the estimated initial velocity; an anchor
    /// starts at rest whatever velocity was supplied.
    pub fn new(
        mass: i128,
        radius: i128,
        position: Vec3,
        velocity: Vec3,
        is_anchor: bool,
        dt: i128,
    ) -> (r: Result<Body, SimError>)
        requires
            mass <= LIMIT,
            radius <= LIMIT,
            in_range_s(position@),
            in_range_s(velocity@),
            0 < dt <= LIMIT,
        ensures
            mass <= 0 ==> r == Result::<Body, SimError>::Err(SimError::NonPositiveMass),
            mass > 0 && radius <= 0 ==> r == Result::<Body, SimError>::Err(
                SimError::NonPositiveRadius,
            ),
            mass > 0 && radius > 0 ==> (r matches Ok(b) && {
                &&& b.mass == mass
                &&& b.radius == radius
                &&& b.position == position
                &&& b.previous_position@ == (if is_anchor {
                    position@
                } else {
                    vsub_s(position@, vscale_s(velocity@, dt as int))
                })
                &&& b.acceleration@ == v3_zero()
                &&& b.is_anchor == is_anchor
                &&& body_wf(b)
            }),
    {
        if mass <= 0 {
            return Err(SimError::NonPositiveMass);
        }
        if radius <= 0 {
            return Err(SimError::NonPositiveRadius);
        }
        let previous_position = if is_anchor {
            position
        } else {
            crate::vec3::vsub(position, crate::vec3::vscale(velocity, dt))
        };
        let b = Body {
            mass,
            radius,
            position,
            previous_position,
            acceleration: Vec3::zero(),
            is_anchor,
        };
        proof {
            assert(b.acceleration@ == v3_zero());
        }
        Ok(b)
    }
}

} // verus!
