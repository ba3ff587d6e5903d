//! The regions that a node is offered, and the constraints under which a
//! frame that was made for one region may serve in another.

use crate::geom::{Length, Size, Spec};
use vstd::prelude::*;

verus! {

/// One slot that content can be laid out into.
#[derive(Clone, Copy, Debug, PartialEq, Eq, Hash, Structural)]
pub struct Region {
    /// The room that is left in the slot.
    pub current: Size,
    /// The full extent of the slot, before anything was put into it.
    pub base: Size,
    /// The axes along which a frame is to take up all the room that is left.
    pub expand: Spec<bool>,
}

impl Region {
    pub fn new(current: Size, base: Size, expand: Spec<bool>) -> (r: Region)
        ensures
            r == (Region { current, base, expand }),
    {
        Region { current, base, expand }
    }
}

/// The regions offered to a node, in order. There is always a first one.
#[derive(Clone, Debug, PartialEq, Eq, Hash)]
pub struct Regions {
    pub first: Region,
    pub rest: Vec<Region>,
}

impl Regions {
    /// A single region and nothing behind it.
    pub fn one(current: Size, base: Size, expand: Spec<bool>) -> (r: Regions)
        ensures
            r.first == (Region { current, base, expand }),
            r.rest@ == Seq::<Region>::empty(),
    {
        Regions { first: Region { current, base, expand }, rest: Vec::new() }
    }

    /// The region `first` and the regions of `rest` behind it.
    pub fn new(first: Region, rest: Vec<Region>) -> (r: Regions)
        ensures
            r.first == first,
            r.rest == rest,
    {
        Regions { first, rest }
    }
}

/// What a frame took from the region that it was made for. A length that is
/// recorded was read from the region; on an axis without one the frame does
/// not depend on that length.
#[derive(Clone, Copy, Debug, PartialEq, Eq, Hash)]
pub struct Constraints {
    /// The expansion that the region asked for.
    pub expand: Spec<bool>,
    /// The full extent of the region, where the frame depends on it.
    pub base: Spec<Option<Length>>,
    /// The room left in the region, where the frame depends on it.
    pub exact: Spec<Option<Length>>,
}

/// Whether a recorded length, if there is one, is the length `actual`.
pub open spec fn agrees(recorded: Option<Length>, actual: Length) -> bool {
    match recorded {
        Some(length) => length == actual,
        None => true,
    }
}

fn check_one(recorded: Option<Length>, actual: Length) -> (r: bool)
    ensures
        r == agrees(recorded, actual),
{
    match recorded {
        Some(length) => length.units == actual.units,
        None => true,
    }
}

impl Constraints {
    /// Constraints that record the expansion and no length.
    pub open spec fn free(expand: Spec<bool>) -> Constraints {
        Constraints {
            expand,
            base: Spec { x: None, y: None },
            exact: Spec { x: None, y: None },
        }
    }

    /// Whether a frame with these constraints may serve in `region`: the
    /// region asks for the same expansion, and every length that is recorded
    /// is unchanged.
    pub open spec fn admits(self, region: Region) -> bool {
        &&& self.expand == region.expand
        &&& agrees(self.base.x, region.base.x)
        &&& agrees(self.base.y, region.base.y)
        &&& agrees(self.exact.x, region.current.x)
        &&& agrees(self.exact.y, region.current.y)
    }

    pub fn new(expand: Spec<bool>) -> (r: Constraints)
        ensures
            r == Self::free(expand),
    {
        Constraints {
            expand,
            base: Spec { x: None, y: None },
            exact: Spec { x: None, y: None },
        }
    }

    /// Whether a frame with these constraints may be used again for the
    /// first of `regions`.
    pub fn check(&self, regions: &Regions) -> (r: bool)
        ensures
            r == self.admits(regions.first),
    {
        self.expand.same(regions.first.expand) && check_one(self.base.x, regions.first.base.x)
            && check_one(self.base.y, regions.first.base.y) && check_one(
            self.exact.x,
            regions.first.current.x,
        ) && check_one(self.exact.y, regions.first.current.y)
    }
}

/// Something together with the constraints under which it may be reused.
#[derive(Clone, Debug, PartialEq, Eq, Hash)]
pub struct Constrained<T> {
    pub item: T,
    pub cts: Constraints,
}

impl<T: View> View for Constrained<T> {
    type V = Constrained<T::V>;

    open spec fn view(&self) -> Constrained<T::V> {
        Constrained { item: self.item@, cts: self.cts }
    }
}

} // verus!
