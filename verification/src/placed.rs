//! Absolute placement: content that is laid out against the full extent of
//! a region and takes no room, or only the room that expansion asks for, in
//! the flow around it.

use crate::args::{
    bound_length, expected_body, first, found_aligns, has_misnamed, holds_alignment,
    is_positional, last_length, lemma_bound_length_outcome, lemma_filter_of_kept,
    lemma_filter_of_rest, lemma_first_exists, lemma_first_heads_filter,
    lemma_last_length_of_named, length_mismatch, misnamed, named, not_named, Arg, ArgError, Args,
    Param, Value,
};
use crate::frame::{into_unique, lemma_resize_top_left_keeps_entries, Frame, FrameView};
use crate::geom::{Align, Length, Point, Size, Spec};
use crate::node::{take_single, PackedNode};
use crate::regions::{Constrained, Constraints, Region, Regions};
use crate::template::{PlacedTemplate, Template};
use std::rc::Rc;
use vstd::prelude::*;

verus! {

/// The alignment of a placement that is given none: at the left, and on the
/// vertical axis unset.
pub open spec fn default_aligns() -> Spec<Option<Align>> {
    Spec { x: Some(Align::Left), y: None }
}

/// The length that was given, and none where none was.
pub open spec fn or_zero(length: Option<Length>) -> Length {
    match length {
        Some(length) => length,
        None => Length { units: 0 },
    }
}

/// What a placement makes of its arguments, and what it leaves of them. It
/// takes, in this order: the first alignment without a name, the lengths
/// under the names `dx` and `dy`, and then the first argument without a
/// name that is left, as the body. The first of these that fails ends it,
/// and what was taken until then stays taken.
pub open spec fn placing(items: Seq<Arg>) -> (Result<Value, ArgError>, Seq<Arg>) {
    let (aligns, after_aligns) = found_aligns(items);
    let (dx, after_dx) = bound_length(after_aligns, Param::Dx);
    let (dy, after_dy) = bound_length(after_dx, Param::Dy);
    let (body, after_body) = expected_body(after_dy);
    match (dx, dy, body) {
        (Err(error), _, _) => (Err(error), after_dx),
        (Ok(_), Err(error), _) => (Err(error), after_dy),
        (Ok(_), Ok(_), Err(error)) => (Err(error), after_body),
        (Ok(dx), Ok(dy), Ok(body)) => (Ok(placement_of(aligns, dx, dy, body)), after_body),
    }
}

/// The template of a placement with the alignment and the offsets that were
/// given, and with the defaults for those that were not.
pub open spec fn placement_of(
    aligns: Option<Spec<Option<Align>>>,
    dx: Option<Length>,
    dy: Option<Length>,
    body: Template,
) -> Value {
    Value::Template(
        Template::Placed(
            Box::new(
                PlacedTemplate {
                    aligns: match aligns {
                        Some(aligns) => aligns,
                        None => default_aligns(),
                    },
                    dx: or_zero(dx),
                    dy: or_zero(dy),
                    body,
                },
            ),
        ),
    )
}

/// What a placement makes of its arguments, said of the arguments as they
/// are given.
///
/// An argument under the name `dx` that holds no length fails the placement
/// with the error for the first such argument, whatever else is given.
/// Without one, an argument under the name `dy` that holds no length fails
/// it in the same way. Without either, the first argument without a name
/// that is left when the alignment has been taken is the body: with none
/// left, or with one that is no template, the placement fails with an error
/// that names the body, and else it succeeds, with the alignment that was
/// found and with the lengths that the last arguments under the names `dx`
/// and `dy` hold.
pub proof fn lemma_place_outcome(items: Seq<Arg>)
    ensures
        placing(items).0 == (if has_misnamed(items, Param::Dx) {
            Err::<Value, ArgError>(length_mismatch(items, Param::Dx))
        } else if has_misnamed(items, Param::Dy) {
            Err(length_mismatch(items, Param::Dy))
        } else {
            match expected_body(found_aligns(items).1).0 {
                Ok(body) => Ok(
                    placement_of(
                        found_aligns(items).0,
                        last_length(items, Param::Dx.label()),
                        last_length(items, Param::Dy.label()),
                        body,
                    ),
                ),
                Err(error) => Err(error),
            }
        }),
{
    let dx = Param::Dx.label();
    let dy = Param::Dy.label();
    assert(dx != dy) by {
        reveal_strlit("dx");
        reveal_strlit("dy");
        assert(dx[1] == 'x');
        assert(dy[1] == 'y');
    }
    let (aligns, after_aligns) = found_aligns(items);

    // Taking the alignment out touches no argument that has a name.
    lemma_first_heads_filter(items, holds_alignment());
    match first(items, holds_alignment()) {
        Some(k) => {
            lemma_filter_of_rest(items, k, misnamed(dx));
            lemma_filter_of_rest(items, k, misnamed(dy));
            lemma_filter_of_rest(items, k, named(dx));
            lemma_filter_of_rest(items, k, named(dy));
        },
        None => {},
    }
    lemma_misnamed_is_in_filter(items, Param::Dx);
    lemma_misnamed_is_in_filter(after_aligns, Param::Dx);
    lemma_misnamed_is_in_filter(items, Param::Dy);
    lemma_misnamed_is_in_filter(after_aligns, Param::Dy);
    lemma_last_length_of_named(items, dx);
    lemma_last_length_of_named(items, dy);

    lemma_bound_length_outcome(after_aligns, Param::Dx);
    if !has_misnamed(items, Param::Dx) {
        // Taking the arguments under `dx` out touches none under `dy` and
        // none without a name.
        let after_dx = after_aligns.filter(not_named(dx));
        lemma_filter_of_kept(after_aligns, not_named(dx), misnamed(dy));
        lemma_filter_of_kept(after_aligns, not_named(dx), named(dy));
        lemma_filter_of_kept(after_aligns, not_named(dx), is_positional());
        lemma_misnamed_is_in_filter(after_dx, Param::Dy);
        lemma_bound_length_outcome(after_dx, Param::Dy);
        if !has_misnamed(items, Param::Dy) {
            // And taking those under `dy` out touches none without a name.
            let after_dy = after_dx.filter(not_named(dy));
            lemma_filter_of_kept(after_dx, not_named(dy), is_positional());
            lemma_first_heads_filter(after_aligns, is_positional());
            lemma_first_heads_filter(after_dy, is_positional());
        }
    }
}

/// Some argument goes by the name of `param` and holds no length exactly
/// where the arguments of which that is true are not none.
proof fn lemma_misnamed_is_in_filter(items: Seq<Arg>, param: Param)
    ensures
        has_misnamed(items, param) <==> items.filter(misnamed(param.label())).len() > 0,
{
    let pred = misnamed(param.label());
    lemma_first_heads_filter(items, pred);
    if has_misnamed(items, param) {
        let i = choose|i: int| 0 <= i < items.len() && misnamed(param.label())(#[trigger] items[i]);
        lemma_first_exists(items, pred, i);
    }
}

/// `place`: Place content at an absolute position.
///
/// Takes from `args` an alignment, the offsets `dx` and `dy` and the body,
/// and gives the template of the placement. The arguments that it has no
/// use for stay in `args`.
pub fn place(args: &mut Args) -> (r: Result<Value, ArgError>)
    ensures
        (r, final(args)@) == placing(old(args)@),
{
    let aligns = match args.find_aligns() {
        Some(aligns) => aligns,
        None => Spec::new(Some(Align::Left), None),
    };
    let dx = match args.named_length(Param::Dx) {
        Ok(Some(length)) => length,
        Ok(None) => Length::zero(),
        Err(error) => {
            return Err(error);
        },
    };
    let dy = match args.named_length(Param::Dy) {
        Ok(Some(length)) => length,
        Ok(None) => Length::zero(),
        Err(error) => {
            return Err(error);
        },
    };
    let body = match args.expect_body() {
        Ok(body) => body,
        Err(error) => {
            return Err(error);
        },
    };
    Ok(Value::Template(Template::Placed(Box::new(PlacedTemplate { aligns, dx, dy, body }))))
}

/// A node that places its child absolutely.
#[derive(Debug, PartialEq, Eq, Hash)]
pub struct PlacedNode {
    /// The node to be placed.
    pub child: PackedNode,
}

impl PlacedNode {
    /// Whether the child is anchored to the origin of the region and not to
    /// the place that the flow has reached: it is, where the child, seen
    /// through a move around it, is an alignment that is set on the vertical
    /// axis.
    pub open spec fn is_out_of_flow(self) -> bool {
        match self.child.unmoved() {
            PackedNode::Align(node) => node.aligns.y is Some,
            _ => false,
        }
    }

    /// The region that the child is laid out in: the full extent of the
    /// region offered, whatever has been used of it. A child out of flow
    /// expands along both axes; another expands as the region asks.
    pub open spec fn pod(region: Region, out_of_flow: bool) -> Region {
        Region {
            current: region.base,
            base: region.base,
            expand: if out_of_flow {
                Spec { x: true, y: true }
            } else {
                region.expand
            },
        }
    }

    /// The size that the placed frame reports: the room left along an axis
    /// that expands, and nothing along the other.
    pub open spec fn target(region: Region) -> Size {
        region.expand.chosen(
            region.current,
            Size { x: Length { units: 0 }, y: Length { units: 0 } },
        )
    }

    /// By how much content out of flow is moved: from the frame of the full
    /// region into the frame of the room that is left.
    pub open spec fn flow_offset(region: Region) -> Point {
        region.current.difference(region.base).as_point()
    }

    /// The frame of the placed node, given the frame that the child made in
    /// the pod.
    pub open spec fn placement(child: FrameView, region: Region, out_of_flow: bool) -> FrameView {
        let sized = child.resized(Self::target(region), Align::top_left());
        if out_of_flow {
            sized.translated(Self::flow_offset(region))
        } else {
            sized
        }
    }

    /// What the placed frame took from the region: always its full extent,
    /// and the room left along each axis that expands, or along both where
    /// the content is out of flow.
    pub open spec fn dependence(region: Region, out_of_flow: bool) -> Constraints {
        Constraints {
            expand: region.expand,
            base: region.base.known(),
            exact: region.current.filtered(
                region.expand.either(Spec { x: out_of_flow, y: out_of_flow }),
            ),
        }
    }

    /// The placed frame and its constraints, given what the child made in
    /// the pod. The child's own constraints play no part.
    pub open spec fn arrangement(
        child: Constrained<FrameView>,
        region: Region,
        out_of_flow: bool,
    ) -> Constrained<FrameView> {
        Constrained {
            item: Self::placement(child.item, region, out_of_flow),
            cts: Self::dependence(region, out_of_flow),
        }
    }

    /// The frame that the node makes for `region`, and its constraints.
    pub open spec fn laid_out(self, region: Region) -> Constrained<FrameView> {
        Self::arrangement(
            self.child.laid_out(Self::pod(region, self.is_out_of_flow())),
            region,
            self.is_out_of_flow(),
        )
    }

    /// Whether this node wants to be placed relative to the origin of its
    /// parent's base, and not relative to the place that the parent's flow
    /// has reached.
    pub fn out_of_flow(&self) -> (r: bool)
        ensures
            r == self.is_out_of_flow(),
    {
        match self.child.without_move().as_align() {
            Some(node) => node.aligns.y.is_some(),
            None => false,
        }
    }

    /// The single region that the child is laid out in.
    pub fn pod_for(region: &Region, out_of_flow: bool) -> (r: Regions)
        ensures
            r.first == Self::pod(*region, out_of_flow),
            r.rest@.len() == 0,
    {
        let expand = if out_of_flow {
            Spec::splat(true)
        } else {
            region.expand
        };
        Regions::one(region.base, region.base, expand)
    }

    /// Turns what the child made in the pod into the placed frame: sets its
    /// size, moves it into the flow's frame where it is out of flow, and
    /// records what was read from the region.
    pub fn arrange(child: Constrained<Rc<Frame>>, region: &Region, out_of_flow: bool) -> (r:
        Constrained<Rc<Frame>>)
        ensures
            r@ == Self::arrangement(child@, *region, out_of_flow),
    {
        let mut frame = into_unique(child.item);

        // Without expansion the frame takes no room in the parent.
        let target = region.expand.select(region.current, Size::zero());
        frame.resize(target, Align::left_top());

        // The parent will put the frame where its flow has got to. Moving
        // the content back by that much leaves it relative to the base.
        if out_of_flow {
            let offset = region.current.minus(region.base).to_point();
            frame.translate(offset);
        }
        let cts = Constraints {
            expand: region.expand,
            base: region.base.map_some(),
            exact: region.current.filter(region.expand.or(Spec::splat(out_of_flow))),
        };
        Constrained { item: Rc::new(frame), cts }
    }

    /// Lays the child out against the full extent of the first region and
    /// places the result. The regions behind the first are not looked at,
    /// and one frame comes back.
    pub fn layout(&self, regions: &Regions) -> (frames: Vec<Constrained<Rc<Frame>>>)
        ensures
            frames@.len() == 1,
            frames@[0]@ == self.laid_out(regions.first),
            frames@[0].item@.size == Self::target(regions.first),
            !regions.first.expand.x && !regions.first.expand.y ==> frames@[0].item@.size == (Size {
                x: Length { units: 0 },
                y: Length { units: 0 },
            }),
            frames@[0].cts.expand == regions.first.expand,
            frames@[0].cts.base == (Spec {
                x: Some(regions.first.base.x),
                y: Some(regions.first.base.y),
            }),
            frames@[0].cts.exact.x == (if regions.first.expand.x || self.is_out_of_flow() {
                Some(regions.first.current.x)
            } else {
                None
            }),
            frames@[0].cts.exact.y == (if regions.first.expand.y || self.is_out_of_flow() {
                Some(regions.first.current.y)
            } else {
                None
            }),
        decreases self,
    {
        let out_of_flow = self.out_of_flow();
        let pod = Self::pod_for(&regions.first, out_of_flow);
        let child = take_single(self.child.layout(&pod));
        let placed = Self::arrange(child, &regions.first, out_of_flow);
        let mut frames: Vec<Constrained<Rc<Frame>>> = Vec::new();
        frames.push(placed);
        frames
    }
}

/// A placed node that is not out of flow, in a region that expands along
/// neither axis, takes no room.
pub proof fn lemma_zero_footprint(node: PlacedNode, region: Region)
    requires
        !region.expand.x,
        !region.expand.y,
        !node.is_out_of_flow(),
    ensures
        node.laid_out(region).item.size == (Size { x: Length { units: 0 }, y: Length { units: 0 } }),
{
}

/// Along each axis the placed frame is as long as the room that is left
/// where the region expands, and has no length where it does not, whatever
/// the child made and whether or not it is out of flow.
pub proof fn lemma_size_is_target(node: PlacedNode, region: Region)
    ensures
        node.laid_out(region).item.size.x == (if region.expand.x {
            region.current.x
        } else {
            Length { units: 0 }
        }),
        node.laid_out(region).item.size.y == (if region.expand.y {
            region.current.y
        } else {
            Length { units: 0 }
        }),
{
}

/// The constraints of a placed frame record the full extent of the region
/// along both axes, whatever the expansion and whether or not the node is
/// out of flow.
pub proof fn lemma_base_is_recorded(node: PlacedNode, region: Region)
    ensures
        node.laid_out(region).cts.base.x == Some(region.base.x),
        node.laid_out(region).cts.base.y == Some(region.base.y),
        node.laid_out(region).cts.expand == region.expand,
{
}

/// The constraints of a placed frame record the room that is left along an
/// axis if and only if the region expands along that axis or the node is out
/// of flow; what they record is then that room.
pub proof fn lemma_exact_is_recorded(node: PlacedNode, region: Region)
    ensures
        node.laid_out(region).cts.exact.x is Some <==> region.expand.x || node.is_out_of_flow(),
        node.laid_out(region).cts.exact.y is Some <==> region.expand.y || node.is_out_of_flow(),
        node.laid_out(region).cts.exact.x is Some ==> node.laid_out(region).cts.exact.x == Some(
            region.current.x,
        ),
        node.laid_out(region).cts.exact.y is Some ==> node.laid_out(region).cts.exact.y == Some(
            region.current.y,
        ),
{
}

/// Where the room left and the full extent of a region are sizes without a
/// negative component, the offset between them is their difference exactly:
/// nothing saturates.
pub proof fn lemma_flow_offset_is_exact(region: Region)
    requires
        region.current.non_negative(),
        region.base.non_negative(),
    ensures
        PlacedNode::flow_offset(region).x.units == region.current.x.units - region.base.x.units,
        PlacedNode::flow_offset(region).y.units == region.current.y.units - region.base.y.units,
{
}

/// The entries of a placed frame are the entries that the child made in the
/// pod, in the same order. Out of flow each is moved by the offset from the
/// full extent of the region to the room that is left; in flow none is moved.
pub proof fn lemma_entries_follow_child(node: PlacedNode, region: Region, i: int)
    requires
        0 <= i < node.child.laid_out(
            PlacedNode::pod(region, node.is_out_of_flow()),
        ).item.elements.len(),
    ensures
        node.laid_out(region).item.elements.len() == node.child.laid_out(
            PlacedNode::pod(region, node.is_out_of_flow()),
        ).item.elements.len(),
        node.laid_out(region).item.elements[i].1 == node.child.laid_out(
            PlacedNode::pod(region, node.is_out_of_flow()),
        ).item.elements[i].1,
        node.laid_out(region).item.elements[i].0 == (if node.is_out_of_flow() {
            node.child.laid_out(PlacedNode::pod(region, true)).item.elements[i].0.shifted(
                PlacedNode::flow_offset(region),
            )
        } else {
            node.child.laid_out(PlacedNode::pod(region, false)).item.elements[i].0
        }),
{
    let child = node.child.laid_out(PlacedNode::pod(region, node.is_out_of_flow())).item;
    lemma_resize_top_left_keeps_entries(child, PlacedNode::target(region));
}

/// Content out of flow is anchored to the base: when the parent puts the
/// placed frame where its flow has got to, that is at the offset from the
/// room left to the full extent, every entry comes to lie where the child
/// put it in the pod, however much of the region is used. This holds of an
/// entry whose position stays inside the range of lengths on the way.
pub proof fn lemma_out_of_flow_is_anchored_to_base(node: PlacedNode, region: Region, i: int)
    requires
        node.is_out_of_flow(),
        region.current.non_negative(),
        region.base.non_negative(),
        0 <= i < node.child.laid_out(PlacedNode::pod(region, true)).item.elements.len(),
        ({
            let in_pod = node.child.laid_out(PlacedNode::pod(region, true)).item.elements[i].0;
            &&& i64::MIN <= in_pod.x.units + region.current.x.units - region.base.x.units
                <= i64::MAX
            &&& i64::MIN <= in_pod.y.units + region.current.y.units - region.base.y.units
                <= i64::MAX
        }),
    ensures
        node.laid_out(region).item.elements[i].0.shifted(
            region.base.difference(region.current).as_point(),
        ) == node.child.laid_out(PlacedNode::pod(region, true)).item.elements[i].0,
{
    lemma_entries_follow_child(node, region, i);
}

/// A placed frame may be used again wherever its constraints allow it: in a
/// region that they admit the node makes the same frame with the same
/// constraints.
pub proof fn lemma_placed_reuse_is_sound(node: PlacedNode, made_for: Region, other: Region)
    requires
        node.laid_out(made_for).cts.admits(other),
    ensures
        node.laid_out(other) == node.laid_out(made_for),
{
    let out_of_flow = node.is_out_of_flow();
    assert(PlacedNode::pod(other, out_of_flow) == PlacedNode::pod(made_for, out_of_flow));
    assert(PlacedNode::target(other) == PlacedNode::target(made_for));
    if out_of_flow {
        assert(other.current == made_for.current);
    }
}

} // verus!
