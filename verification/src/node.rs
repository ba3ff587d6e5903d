//! The kinds of node that can be laid out, and how each lays itself out.

use crate::frame::{into_unique, share, Frame, FrameView};
use crate::geom::{Align, Point, Size, Spec};
use crate::placed::{lemma_placed_reuse_is_sound, PlacedNode};
use crate::regions::{Constrained, Constraints, Region, Regions};
use std::rc::Rc;
use vstd::prelude::*;

verus! {

/// A node of any kind, ready for layout.
#[derive(Debug, PartialEq, Eq, Hash)]
pub enum PackedNode {
    /// Blank room of a fixed size.
    Space(Size),
    /// Content that was laid out beforehand.
    Fixed(Rc<Frame>),
    /// A child whose content is moved without a change to its layout.
    Move(Box<MoveNode>),
    /// A child with an alignment on one or both axes.
    Align(Box<AlignNode>),
    /// A child placed at an absolute position.
    Placed(Box<PlacedNode>),
}

/// A node that moves its child by an offset.
#[derive(Debug, PartialEq, Eq, Hash)]
pub struct MoveNode {
    pub offset: Point,
    pub child: PackedNode,
}

/// A node that aligns its child in the room that it is offered.
#[derive(Debug, PartialEq, Eq, Hash)]
pub struct AlignNode {
    /// The alignment on each axis, where one is set.
    pub aligns: Spec<Option<Align>>,
    pub child: PackedNode,
}

/// The only frame of a layout that holds exactly one.
pub(crate) fn take_single(frames: Vec<Constrained<Rc<Frame>>>) -> (r: Constrained<Rc<Frame>>)
    requires
        frames@.len() == 1,
    ensures
        r == frames@[0],
{
    let mut frames = frames;
    let last = frames.pop();
    last.unwrap()
}

/// A layout that holds one frame and its constraints.
pub(crate) fn single(frame: Frame, cts: Constraints) -> (r: Vec<Constrained<Rc<Frame>>>)
    ensures
        r@.len() == 1,
        r@[0]@ == (Constrained { item: frame@, cts }),
{
    let mut frames: Vec<Constrained<Rc<Frame>>> = Vec::new();
    frames.push(Constrained { item: Rc::new(frame), cts });
    frames
}

impl MoveNode {
    /// The child's frame with every entry moved by `offset`, under the
    /// child's constraints.
    pub open spec fn arrangement(child: Constrained<FrameView>, offset: Point) -> Constrained<
        FrameView,
    > {
        Constrained { item: child.item.translated(offset), cts: child.cts }
    }

    /// The frame that the node makes for `region`, and its constraints.
    pub open spec fn laid_out(self, region: Region) -> Constrained<FrameView> {
        Self::arrangement(self.child.laid_out(region), self.offset)
    }

    /// Lays the child out in the first of `regions` and moves what it made.
    pub fn layout(&self, regions: &Regions) -> (frames: Vec<Constrained<Rc<Frame>>>)
        ensures
            frames@.len() == 1,
            frames@[0]@ == self.laid_out(regions.first),
        decreases self,
    {
        let child = take_single(self.child.layout(regions));
        let mut frame = into_unique(child.item);
        frame.translate(self.offset);
        single(frame, child.cts)
    }
}

impl AlignNode {
    /// The region that the child is laid out in: the one offered, but
    /// without expansion along an axis that has an alignment.
    pub open spec fn pod(region: Region, aligns: Spec<Option<Align>>) -> Region {
        Region {
            current: region.current,
            base: region.base,
            expand: region.expand.both(aligns.unset()),
        }
    }

    /// The child's frame aligned in `region`. Along an axis that expands the
    /// frame takes all the room that is left; along the other it keeps its
    /// size. The constraints record what the child recorded, and the room
    /// left along each axis that expands.
    pub open spec fn arrangement(
        child: Constrained<FrameView>,
        region: Region,
        aligns: Spec<Option<Align>>,
    ) -> Constrained<FrameView> {
        let target = region.expand.chosen(region.current, child.item.size);
        Constrained {
            item: child.item.resized(target, aligns.or_default(Align::top_left())),
            cts: Constraints {
                expand: region.expand,
                base: region.base.filtered(child.cts.base.set()),
                exact: region.current.filtered(region.expand.either(child.cts.exact.set())),
            },
        }
    }

    /// The frame that the node makes for `region`, and its constraints.
    pub open spec fn laid_out(self, region: Region) -> Constrained<FrameView> {
        Self::arrangement(
            self.child.laid_out(Self::pod(region, self.aligns)),
            region,
            self.aligns,
        )
    }

    /// Lays the child out in the first of `regions` and aligns what it made
    /// in the room that is left there.
    pub fn layout(&self, regions: &Regions) -> (frames: Vec<Constrained<Rc<Frame>>>)
        ensures
            frames@.len() == 1,
            frames@[0]@ == self.laid_out(regions.first),
        decreases self,
    {
        let region = regions.first;
        let pod = Regions::one(
            region.current,
            region.base,
            region.expand.and(self.aligns.map_is_none()),
        );
        let child = take_single(self.child.layout(&pod));
        let mut frame = into_unique(child.item);
        let target = region.expand.select(region.current, frame.size);
        frame.resize(target, self.aligns.unwrap_or(Align::left_top()));
        let cts = Constraints {
            expand: region.expand,
            base: region.base.filter(child.cts.base.map_is_some()),
            exact: region.current.filter(region.expand.or(child.cts.exact.map_is_some())),
        };
        single(frame, cts)
    }
}

impl PackedNode {
    /// The node below a move, and the node itself where it is no move.
    pub open spec fn unmoved(self) -> PackedNode {
        match self {
            PackedNode::Move(node) => node.child,
            _ => self,
        }
    }

    /// The frame that the node makes for `region`, and its constraints.
    pub open spec fn laid_out(self, region: Region) -> Constrained<FrameView>
        decreases self,
    {
        match self {
            PackedNode::Space(size) => Constrained {
                item: FrameView::empty(size),
                cts: Constraints::free(region.expand),
            },
            PackedNode::Fixed(frame) => Constrained {
                item: frame@,
                cts: Constraints::free(region.expand),
            },
            PackedNode::Move(node) => MoveNode::arrangement(
                node.child.laid_out(region),
                node.offset,
            ),
            PackedNode::Align(node) => AlignNode::arrangement(
                node.child.laid_out(AlignNode::pod(region, node.aligns)),
                region,
                node.aligns,
            ),
            PackedNode::Placed(node) => PlacedNode::arrangement(
                node.child.laid_out(PlacedNode::pod(region, node.is_out_of_flow())),
                region,
                node.is_out_of_flow(),
            ),
        }
    }

    /// Lays the node out in the first of `regions`.
    pub fn layout(&self, regions: &Regions) -> (frames: Vec<Constrained<Rc<Frame>>>)
        ensures
            frames@.len() == 1,
            frames@[0]@ == self.laid_out(regions.first),
        decreases self,
    {
        match self {
            PackedNode::Space(size) => single(
                Frame::new(*size),
                Constraints::new(regions.first.expand),
            ),
            PackedNode::Fixed(frame) => {
                let mut frames: Vec<Constrained<Rc<Frame>>> = Vec::new();
                frames.push(
                    Constrained { item: share(frame), cts: Constraints::new(regions.first.expand) },
                );
                frames
            },
            PackedNode::Move(node) => node.layout(regions),
            PackedNode::Align(node) => node.layout(regions),
            PackedNode::Placed(node) => node.layout(regions),
        }
    }

    /// The node below a move, and the node itself where it is no move.
    pub fn without_move(&self) -> (r: &PackedNode)
        ensures
            *r == self.unmoved(),
    {
        match self {
            PackedNode::Move(node) => &node.child,
            _ => self,
        }
    }

    /// The alignment node that this node is, if it is one.
    pub fn as_align(&self) -> (r: Option<&AlignNode>)
        ensures
            match self {
                PackedNode::Align(node) => r == Some(&**node),
                _ => r is None,
            },
    {
        match self {
            PackedNode::Align(node) => Some(&**node),
            _ => None,
        }
    }

    /// The node wrapped in a move by `offset`.
    pub fn moved(self, offset: Point) -> (r: PackedNode)
        ensures
            r == PackedNode::Move(Box::new(MoveNode { offset, child: self })),
    {
        PackedNode::Move(Box::new(MoveNode { offset, child: self }))
    }

    /// The node wrapped in an alignment.
    pub fn aligned(self, aligns: Spec<Option<Align>>) -> (r: PackedNode)
        ensures
            r == PackedNode::Align(Box::new(AlignNode { aligns, child: self })),
    {
        PackedNode::Align(Box::new(AlignNode { aligns, child: self }))
    }
}

/// The constraints of a frame record the expansion of the region that the
/// frame was made for.
pub proof fn lemma_expansion_is_recorded(node: PackedNode, region: Region)
    ensures
        node.laid_out(region).cts.expand == region.expand,
    decreases node,
{
    match node {
        PackedNode::Move(inner) => {
            lemma_expansion_is_recorded(inner.child, region);
        },
        _ => {},
    }
}

/// A frame may serve in the region that it was made for.
pub proof fn lemma_own_region_is_admitted(node: PackedNode, region: Region)
    ensures
        node.laid_out(region).cts.admits(region),
    decreases node,
{
    match node {
        PackedNode::Move(inner) => {
            lemma_own_region_is_admitted(inner.child, region);
        },
        _ => {},
    }
}

/// Reuse is sound for every kind of node: in a region that the constraints
/// of a frame admit, the node makes the same frame with the same constraints
/// as in the region that the frame was made for.
pub proof fn lemma_reuse_is_sound(node: PackedNode, made_for: Region, other: Region)
    requires
        node.laid_out(made_for).cts.admits(other),
    ensures
        node.laid_out(other) == node.laid_out(made_for),
    decreases node,
{
    match node {
        PackedNode::Space(_) => {},
        PackedNode::Fixed(_) => {},
        PackedNode::Move(inner) => {
            lemma_reuse_is_sound(inner.child, made_for, other);
        },
        PackedNode::Align(inner) => {
            let pod = AlignNode::pod(made_for, inner.aligns);
            let other_pod = AlignNode::pod(other, inner.aligns);
            lemma_expansion_is_recorded(inner.child, pod);
            lemma_own_region_is_admitted(inner.child, pod);
            assert(inner.child.laid_out(pod).cts.admits(other_pod));
            lemma_reuse_is_sound(inner.child, pod, other_pod);
        },
        PackedNode::Placed(inner) => {
            lemma_placed_reuse_is_sound(*inner, made_for, other);
        },
    }
}

impl PackedNode {
    /// Whether every size that the node holds is without a negative
    /// component.
    pub open spec fn well_sized(self) -> bool
        decreases self,
    {
        match self {
            PackedNode::Space(size) => size.non_negative(),
            PackedNode::Fixed(frame) => frame@.size.non_negative(),
            PackedNode::Move(node) => node.child.well_sized(),
            PackedNode::Align(node) => node.child.well_sized(),
            PackedNode::Placed(node) => node.child.well_sized(),
        }
    }
}

/// Layout keeps sizes in order: a node that holds no size with a negative
/// component makes a frame without one in a region that has room left.
pub proof fn lemma_frames_are_well_sized(node: PackedNode, region: Region)
    requires
        node.well_sized(),
        region.current.non_negative(),
    ensures
        node.laid_out(region).item.size.non_negative(),
    decreases node,
{
    match node {
        PackedNode::Space(_) => {},
        PackedNode::Fixed(_) => {},
        PackedNode::Move(inner) => {
            lemma_frames_are_well_sized(inner.child, region);
        },
        PackedNode::Align(inner) => {
            lemma_frames_are_well_sized(inner.child, AlignNode::pod(region, inner.aligns));
        },
        PackedNode::Placed(_) => {},
    }
}

} // verus!
