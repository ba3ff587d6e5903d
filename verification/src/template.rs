//! Templates: content that has been described and is turned into nodes
//! once the style that it appears in is known.

use crate::frame::{share, Frame};
use crate::geom::{Align, Length, Point, Size, Spec};
use crate::node::{AlignNode, MoveNode, PackedNode};
use crate::placed::PlacedNode;
use std::rc::Rc;
use vstd::prelude::*;

verus! {

/// What the surroundings of a template decide.
#[derive(Clone, Copy, Debug, PartialEq, Eq, Hash, Structural)]
pub struct Style {
    /// The size of the text: one em.
    pub em: Length,
}

/// Content that waits for its style.
#[derive(Debug, PartialEq, Eq, Hash)]
pub enum Template {
    /// Nothing.
    Empty,
    /// A blank square, one em wide and one em high.
    Quad,
    /// Content that was laid out beforehand and looks the same in any style.
    Fixed(Rc<Frame>),
    /// Content placed at an absolute position.
    Placed(Box<PlacedTemplate>),
}

/// What a placement was asked for with, kept until the style is known.
#[derive(Debug, PartialEq, Eq, Hash)]
pub struct PlacedTemplate {
    /// The alignment on each axis, where one was given.
    pub aligns: Spec<Option<Align>>,
    /// How far to the right the body is moved.
    pub dx: Length,
    /// How far down the body is moved.
    pub dy: Length,
    /// What is placed.
    pub body: Template,
}

impl PlacedTemplate {
    /// The placed node around a body that has its style: the body inside a
    /// move by `(dx, dy)`, and the move inside the alignment.
    pub open spec fn around(self, body: PackedNode) -> PlacedNode {
        PlacedNode {
            child: PackedNode::Align(
                Box::new(
                    AlignNode {
                        aligns: self.aligns,
                        child: PackedNode::Move(
                            Box::new(
                                MoveNode { offset: Point { x: self.dx, y: self.dy }, child: body },
                            ),
                        ),
                    },
                ),
            ),
        }
    }

    /// The placed node that the template stands for in `style`.
    pub open spec fn instantiated(self, style: Style) -> PlacedNode {
        self.around(self.body.packed(style))
    }

    /// Makes the placed node for `style`.
    pub fn instantiate(&self, style: &Style) -> (r: PlacedNode)
        ensures
            r == self.instantiated(*style),
        decreases self,
    {
        PlacedNode {
            child: self.body.pack(style).moved(Point::new(self.dx, self.dy)).aligned(self.aligns),
        }
    }
}

impl Template {
    /// The node that the template stands for in `style`.
    pub open spec fn packed(self, style: Style) -> PackedNode
        decreases self,
    {
        match self {
            Template::Empty => PackedNode::Space(
                Size { x: Length { units: 0 }, y: Length { units: 0 } },
            ),
            Template::Quad => PackedNode::Space(Size { x: style.em, y: style.em }),
            Template::Fixed(frame) => PackedNode::Fixed(frame),
            Template::Placed(placed) => PackedNode::Placed(
                Box::new(placed.around(placed.body.packed(style))),
            ),
        }
    }

    /// Makes the node for `style`.
    pub fn pack(&self, style: &Style) -> (r: PackedNode)
        ensures
            r == self.packed(*style),
        decreases self,
    {
        match self {
            Template::Empty => PackedNode::Space(Size::zero()),
            Template::Quad => PackedNode::Space(Size::new(style.em, style.em)),
            Template::Fixed(frame) => PackedNode::Fixed(share(frame)),
            Template::Placed(placed) => PackedNode::Placed(Box::new(placed.instantiate(style))),
        }
    }
}

/// A placement is out of flow exactly where it was given an alignment on the
/// vertical axis, whatever its body, its offsets and the style.
pub proof fn lemma_out_of_flow_iff_vertical(template: PlacedTemplate, style: Style)
    ensures
        template.instantiated(style).is_out_of_flow() <==> template.aligns.y is Some,
{
}

} // verus!
