//! The slab test: where a ray enters and leaves an axis-aligned box.
//!
//! For each axis the host divides the distance from the ray's origin to the
//! two planes that bound the box by the ray's direction along that axis.
//! The six quotients are a `Crossing`. The ray is inside the box between
//! the latest entry and the earliest exit over the three axes; it hits the
//! box if that interval is not empty and does not lie behind the origin.
//!
//! A direction component of zero makes the quotients infinite, or NaN when
//! the origin lies on the plane. Nothing here tests for that: an infinite
//! quotient orders like any other number, a NaN is passed over by `min` and
//! `max`, and a crossing made of NaNs alone fails every comparison.

use vstd::prelude::*;
use crate::scalar::Scalar;

verus! {

/// The bits of 5.0, the distance within which a block can be picked.
pub const PICK_RANGE_BITS: u32 = 0x40A0_0000;

/// The bits of 1.0, the edge of the cube that stands for a block in the hit
/// test. Blocks are tested as unit cubes at whatever size they are drawn.
pub const HIT_BOX_EDGE_BITS: u32 = 0x3F80_0000;

/// The distance within which a block can be picked: 5.0.
pub open spec fn spec_pick_range() -> Scalar {
    Scalar { bits: PICK_RANGE_BITS }
}

#[verifier::when_used_as_spec(spec_pick_range)]
pub fn pick_range() -> (s: Scalar)
    ensures
        s == spec_pick_range(),
{
    Scalar { bits: PICK_RANGE_BITS }
}

/// The edge of the cube tested around a block's position: 1.0.
pub fn hit_box_edge() -> (s: Scalar)
    ensures
        s.bits == HIT_BOX_EDGE_BITS,
{
    Scalar { bits: HIT_BOX_EDGE_BITS }
}

/// The ray parameters at which the ray meets the two planes that bound a
/// box along one axis, in the order of the planes, not of the parameters.
#[derive(Clone, Copy, Debug)]
pub struct AxisSpan {
    /// At the plane through the box's lower corner.
    pub at_min: Scalar,
    /// At the plane through the box's upper corner.
    pub at_max: Scalar,
}

impl AxisSpan {
    /// Where the ray enters the slab between the two planes.
    pub open spec fn spec_near(self) -> Scalar {
        self.at_min.spec_min(self.at_max)
    }

    /// Where the ray leaves the slab between the two planes.
    pub open spec fn spec_far(self) -> Scalar {
        self.at_min.spec_max(self.at_max)
    }

    /// The same span with the planes in the other order, as a ray of the
    /// opposite direction along this axis would give it.
    pub open spec fn swapped(self) -> AxisSpan {
        AxisSpan { at_min: self.at_max, at_max: self.at_min }
    }

    #[verifier::when_used_as_spec(spec_near)]
    pub fn near(self) -> (t: Scalar)
        ensures
            t == self.spec_near(),
    {
        self.at_min.min(self.at_max)
    }

    #[verifier::when_used_as_spec(spec_far)]
    pub fn far(self) -> (t: Scalar)
        ensures
            t == self.spec_far(),
    {
        self.at_min.max(self.at_max)
    }
}

/// The six ray parameters of one ray against one box.
#[derive(Clone, Copy, Debug)]
pub struct Crossing {
    pub x: AxisSpan,
    pub y: AxisSpan,
    pub z: AxisSpan,
}

impl Crossing {
    /// Where the ray enters the box: the latest entry into a slab.
    pub open spec fn spec_entry(self) -> Scalar {
        self.x.spec_near().spec_max(self.y.spec_near()).spec_max(self.z.spec_near())
    }

    /// Where the ray leaves the box: the earliest exit from a slab.
    pub open spec fn spec_exit(self) -> Scalar {
        self.x.spec_far().spec_min(self.y.spec_far()).spec_min(self.z.spec_far())
    }

    /// The ray meets the box at or ahead of its origin.
    pub open spec fn spec_is_hit(self) -> bool {
        self.spec_entry().spec_le(self.spec_exit()) && self.spec_exit().spec_ge(Scalar::spec_zero())
    }

    /// The box is entered ahead of the origin and within the pick range.
    pub open spec fn spec_in_reach(self) -> bool {
        self.spec_entry().spec_gt(Scalar::spec_zero()) && self.spec_entry().spec_lt(
            spec_pick_range(),
        )
    }

    /// The box can be picked: it is hit, and within reach.
    pub open spec fn spec_selectable(self) -> bool {
        self.spec_is_hit() && self.spec_in_reach()
    }

    /// Every one of the six parameters is a NaN.
    pub open spec fn all_nan(self) -> bool {
        &&& self.x.at_min.spec_is_nan()
        &&& self.x.at_max.spec_is_nan()
        &&& self.y.at_min.spec_is_nan()
        &&& self.y.at_max.spec_is_nan()
        &&& self.z.at_min.spec_is_nan()
        &&& self.z.at_max.spec_is_nan()
    }

    #[verifier::when_used_as_spec(spec_entry)]
    pub fn entry(self) -> (t: Scalar)
        ensures
            t == self.spec_entry(),
    {
        self.x.near().max(self.y.near()).max(self.z.near())
    }

    #[verifier::when_used_as_spec(spec_exit)]
    pub fn exit(self) -> (t: Scalar)
        ensures
            t == self.spec_exit(),
    {
        self.x.far().min(self.y.far()).min(self.z.far())
    }

    #[verifier::when_used_as_spec(spec_is_hit)]
    pub fn is_hit(self) -> (r: bool)
        ensures
            r == self.spec_is_hit(),
    {
        let exit = self.exit();
        self.entry().le(exit) && exit.ge(Scalar::zero())
    }

    #[verifier::when_used_as_spec(spec_in_reach)]
    pub fn in_reach(self) -> (r: bool)
        ensures
            r == self.spec_in_reach(),
    {
        let entry = self.entry();
        entry.gt(Scalar::zero()) && entry.lt(pick_range())
    }

    #[verifier::when_used_as_spec(spec_selectable)]
    pub fn selectable(self) -> (r: bool)
        ensures
            r == self.spec_selectable(),
    {
        self.is_hit() && self.in_reach()
    }

    /// The entry and the exit are NaNs together, and only when all six
    /// parameters are: `min` and `max` pass over a NaN wherever the other
    /// side is a number.
    pub proof fn lemma_nan_only_from_all_nan(self)
        ensures
            self.spec_entry().spec_is_nan() <==> self.all_nan(),
            self.spec_exit().spec_is_nan() <==> self.all_nan(),
    {
    }

    /// A box that lies wholly behind the ray's origin, its exit being
    /// negative, cannot be picked, whatever its entry is.
    pub proof fn lemma_behind_is_never_selectable(self)
        requires
            self.spec_exit().spec_lt(Scalar::spec_zero()),
        ensures
            !self.spec_is_hit(),
            !self.spec_selectable(),
    {
    }

    /// A crossing can be picked exactly when it survives the two rejections
    /// of the usual slab loop, `exit < 0` and `entry > exit`, and its entry
    /// is within reach. The rejections let a NaN pass where the hit test
    /// does not, but such a crossing has a NaN entry and is out of reach.
    pub proof fn lemma_selectable_by_rejection(self)
        ensures
            self.spec_selectable() <==> {
                &&& !self.spec_exit().spec_lt(Scalar::spec_zero())
                &&& !self.spec_entry().spec_gt(self.spec_exit())
                &&& self.spec_in_reach()
            },
    {
        self.lemma_nan_only_from_all_nan();
    }

    /// Turning the ray round along any axis swaps that axis's two
    /// parameters and changes neither the entry nor the exit.
    pub proof fn lemma_plane_order_is_immaterial(self, flip_x: bool, flip_y: bool, flip_z: bool)
        ensures
            ({
                let other = Crossing {
                    x: if flip_x { self.x.swapped() } else { self.x },
                    y: if flip_y { self.y.swapped() } else { self.y },
                    z: if flip_z { self.z.swapped() } else { self.z },
                };
                &&& other.spec_entry().same_value(self.spec_entry())
                &&& other.spec_exit().same_value(self.spec_exit())
                &&& other.spec_is_hit() == self.spec_is_hit()
                &&& other.spec_selectable() == self.spec_selectable()
            }),
    {
    }
}

} // verus!
