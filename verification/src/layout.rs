//! What every kind of node can do, and what may be done with the result.

use crate::frame::{Frame, FrameView};
use crate::node::{lemma_reuse_is_sound, AlignNode, MoveNode, PackedNode};
use crate::placed::PlacedNode;
use crate::regions::{Constrained, Region, Regions};
use std::rc::Rc;
use vstd::prelude::*;

verus! {

/// A node that can be laid out.
///
/// The node is offered regions and gives back a frame for the first of
/// them, with the constraints under which the frame may serve again. What
/// it gives back depends on the node and on that region, and on nothing
/// else.
pub trait Layout {
    /// The frame that the node makes for `region`, and its constraints.
    spec fn arranged(&self, region: Region) -> Constrained<FrameView>;

    /// The constraints keep their word: in a region that they admit, the
    /// node makes the same frame with the same constraints.
    proof fn reuse_is_sound(&self, made_for: Region, other: Region)
        requires
            self.arranged(made_for).cts.admits(other),
        ensures
            self.arranged(other) == self.arranged(made_for),
    ;

    /// Lays the node out in the first of `regions`.
    fn layout(&self, regions: &Regions) -> (frames: Vec<Constrained<Rc<Frame>>>)
        ensures
            frames@.len() == 1,
            frames@[0]@ == self.arranged(regions.first),
    ;
}

impl Layout for PackedNode {
    open spec fn arranged(&self, region: Region) -> Constrained<FrameView> {
        self.laid_out(region)
    }

    proof fn reuse_is_sound(&self, made_for: Region, other: Region) {
        lemma_reuse_is_sound(*self, made_for, other);
    }

    fn layout(&self, regions: &Regions) -> (frames: Vec<Constrained<Rc<Frame>>>) {
        PackedNode::layout(self, regions)
    }
}

impl Layout for MoveNode {
    open spec fn arranged(&self, region: Region) -> Constrained<FrameView> {
        self.laid_out(region)
    }

    proof fn reuse_is_sound(&self, made_for: Region, other: Region) {
        lemma_reuse_is_sound(self.child, made_for, other);
    }

    fn layout(&self, regions: &Regions) -> (frames: Vec<Constrained<Rc<Frame>>>) {
        MoveNode::layout(self, regions)
    }
}

impl Layout for AlignNode {
    open spec fn arranged(&self, region: Region) -> Constrained<FrameView> {
        self.laid_out(region)
    }

    proof fn reuse_is_sound(&self, made_for: Region, other: Region) {
        lemma_reuse_is_sound(PackedNode::Align(Box::new(*self)), made_for, other);
    }

    fn layout(&self, regions: &Regions) -> (frames: Vec<Constrained<Rc<Frame>>>) {
        AlignNode::layout(self, regions)
    }
}

impl Layout for PlacedNode {
    open spec fn arranged(&self, region: Region) -> Constrained<FrameView> {
        self.laid_out(region)
    }

    proof fn reuse_is_sound(&self, made_for: Region, other: Region) {
        lemma_reuse_is_sound(PackedNode::Placed(Box::new(*self)), made_for, other);
    }

    fn layout(&self, regions: &Regions) -> (frames: Vec<Constrained<Rc<Frame>>>) {
        PlacedNode::layout(self, regions)
    }
}

/// Gives the layout of `node` in the first of `regions`, with as little
/// work as the constraints allow: a layout that the node made before is
/// handed back as it is where its constraints admit the region, and the
/// node is laid out anew where they do not. Either way the result is what
/// laying out anew gives.
pub fn reuse_or_layout<N: Layout>(
    node: &N,
    made_before: Vec<Constrained<Rc<Frame>>>,
    regions: &Regions,
) -> (frames: Vec<Constrained<Rc<Frame>>>)
    requires
        made_before@.len() == 1,
        exists|made_for: Region| made_before@[0]@ == #[trigger] node.arranged(made_for),
    ensures
        frames@.len() == 1,
        frames@[0]@ == node.arranged(regions.first),
        made_before@[0].cts.admits(regions.first) ==> frames == made_before,
{
    if made_before[0].cts.check(regions) {
        proof {
            let made_for = choose|made_for: Region|
                made_before@[0]@ == #[trigger] node.arranged(made_for);
            node.reuse_is_sound(made_for, regions.first);
        }
        made_before
    } else {
        node.layout(regions)
    }
}

} // verus!
