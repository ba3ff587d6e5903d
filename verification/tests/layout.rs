use placement::frame::{Element, Frame};
use placement::geom::{Align, Length, Point, Size, Spec};
use placement::node::{AlignNode, MoveNode, PackedNode};
use placement::placed::PlacedNode;
use placement::regions::{Constraints, Region, Regions};
use std::rc::Rc;

fn len(units: i64) -> Length {
    Length::new(units)
}

fn size(x: i64, y: i64) -> Size {
    Size::new(len(x), len(y))
}

fn point(x: i64, y: i64) -> Point {
    Point::new(len(x), len(y))
}

fn some(x: i64, y: i64) -> Spec<Option<Length>> {
    Spec::new(Some(len(x)), Some(len(y)))
}

fn marks() -> Rc<Frame> {
    let mut frame = Frame::new(size(10, 20));
    frame.push(point(1, 2), Element::Mark(1));
    frame.push(point(3, 4), Element::Mark(2));
    Rc::new(frame)
}

fn moved(child: PackedNode, x: i64, y: i64) -> PackedNode {
    PackedNode::Move(Box::new(MoveNode { offset: point(x, y), child }))
}

fn aligned(child: PackedNode, x: Option<Align>, y: Option<Align>) -> PackedNode {
    PackedNode::Align(Box::new(AlignNode { aligns: Spec::new(x, y), child }))
}

fn in_flow() -> PlacedNode {
    PlacedNode {
        child: aligned(moved(PackedNode::Fixed(marks()), 5, 10), Some(Align::Left), None),
    }
}

fn out_of_flow() -> PlacedNode {
    PlacedNode {
        child: aligned(moved(PackedNode::Fixed(marks()), 5, 10), None, Some(Align::Bottom)),
    }
}

#[test]
fn blank_room_has_its_size_whatever_the_region() {
    let node = PackedNode::Space(size(12, 12));
    let frames = node.layout(&Regions::one(size(1, 1), size(2, 2), Spec::new(true, false)));
    assert_eq!(frames.len(), 1);
    assert_eq!(*frames[0].item, Frame::new(size(12, 12)));
    assert_eq!(frames[0].cts, Constraints::new(Spec::new(true, false)));
}

#[test]
fn fixed_content_is_shared_and_not_copied() {
    let frame = marks();
    let node = PackedNode::Fixed(Rc::clone(&frame));
    let frames = node.layout(&Regions::one(size(1, 1), size(2, 2), Spec::new(false, false)));
    assert_eq!(frames.len(), 1);
    assert!(Rc::ptr_eq(&frames[0].item, &frame));
    assert_eq!(Rc::strong_count(&frame), 3);
    assert_eq!(frames[0].cts, Constraints::new(Spec::new(false, false)));
}

#[test]
fn a_move_shifts_the_content_and_leaves_the_source_alone() {
    let frame = marks();
    let node = moved(PackedNode::Fixed(Rc::clone(&frame)), 5, 10);
    let frames = node.layout(&Regions::one(size(1, 1), size(2, 2), Spec::new(false, false)));
    assert_eq!(frames.len(), 1);
    assert_eq!(frames[0].item.size, size(10, 20));
    assert_eq!(
        frames[0].item.elements,
        vec![(point(6, 12), Element::Mark(1)), (point(8, 14), Element::Mark(2))]
    );
    assert_eq!(frames[0].cts, Constraints::new(Spec::new(false, false)));
    assert_eq!(*frame, *marks());
    assert_eq!(node.without_move(), &PackedNode::Fixed(Rc::clone(&frame)));
}

#[test]
fn an_alignment_fills_the_axes_that_expand() {
    let node = aligned(PackedNode::Fixed(marks()), Some(Align::Center), Some(Align::Bottom));
    let frames = node.layout(&Regions::one(size(100, 50), size(100, 200), Spec::new(true, false)));
    assert_eq!(frames.len(), 1);
    assert_eq!(frames[0].item.size, size(100, 20));
    assert_eq!(
        frames[0].item.elements,
        vec![(point(46, 2), Element::Mark(1)), (point(48, 4), Element::Mark(2))]
    );
    assert_eq!(frames[0].cts.expand, Spec::new(true, false));
    assert_eq!(frames[0].cts.base, Spec::new(None, None));
    assert_eq!(frames[0].cts.exact, Spec::new(Some(len(100)), None));
}

#[test]
fn an_alignment_stops_expansion_of_its_child_on_its_axes() {
    // The inner alignment sees no expansion along y, so it keeps the height
    // of 20, and the outer one puts that at the bottom of 200.
    let inner = aligned(PackedNode::Fixed(marks()), None, None);
    let node = aligned(inner, None, Some(Align::Bottom));
    let frames = node.layout(&Regions::one(size(100, 200), size(100, 200), Spec::new(true, true)));
    assert_eq!(frames[0].item.size, size(100, 200));
    assert_eq!(
        frames[0].item.elements,
        vec![(point(1, 182), Element::Mark(1)), (point(3, 184), Element::Mark(2))]
    );
    assert_eq!(frames[0].cts.exact, some(100, 200));
    assert_eq!(node.as_align().map(|node| node.aligns), Some(Spec::new(None, Some(Align::Bottom))));
    assert!(PackedNode::Space(size(1, 1)).as_align().is_none());
}

#[test]
fn builders_wrap_the_node() {
    let node = PackedNode::Space(size(1, 1)).moved(point(5, 10));
    assert_eq!(node, moved(PackedNode::Space(size(1, 1)), 5, 10));
    let node = node.aligned(Spec::new(Some(Align::Left), None));
    assert_eq!(
        node,
        aligned(moved(PackedNode::Space(size(1, 1)), 5, 10), Some(Align::Left), None)
    );
}

#[test]
fn out_of_flow_needs_a_vertical_alignment() {
    assert!(!in_flow().out_of_flow());
    assert!(out_of_flow().out_of_flow());
    let both = PlacedNode {
        child: aligned(PackedNode::Space(size(1, 1)), Some(Align::Right), Some(Align::Top)),
    };
    assert!(both.out_of_flow());
    let unset = PlacedNode { child: aligned(PackedNode::Space(size(1, 1)), None, None) };
    assert!(!unset.out_of_flow());
    let bare = PlacedNode { child: PackedNode::Space(size(1, 1)) };
    assert!(!bare.out_of_flow());
    let nested = PlacedNode { child: PackedNode::Placed(Box::new(out_of_flow())) };
    assert!(!nested.out_of_flow());
}

#[test]
fn out_of_flow_is_seen_through_one_move() {
    let alignment = aligned(PackedNode::Space(size(1, 1)), None, Some(Align::Bottom));
    let once = PlacedNode { child: moved(alignment, 5, 10) };
    assert!(once.out_of_flow());

    let alignment = aligned(PackedNode::Space(size(1, 1)), None, Some(Align::Bottom));
    let twice = PlacedNode { child: moved(moved(alignment, 5, 10), 1, 1) };
    assert!(!twice.out_of_flow());

    let horizontal = aligned(PackedNode::Space(size(1, 1)), Some(Align::Right), None);
    assert!(!PlacedNode { child: moved(horizontal, 5, 10) }.out_of_flow());
}

#[test]
fn the_pod_is_the_base_of_the_region() {
    let region = Region::new(size(60, 80), size(100, 200), Spec::new(true, false));
    let pod = PlacedNode::pod_for(&region, false);
    assert_eq!(pod.first, Region::new(size(100, 200), size(100, 200), Spec::new(true, false)));
    assert!(pod.rest.is_empty());
    let pod = PlacedNode::pod_for(&region, true);
    assert_eq!(pod.first, Region::new(size(100, 200), size(100, 200), Spec::new(true, true)));
    assert!(pod.rest.is_empty());
}

#[test]
fn one_frame_comes_back_whatever_is_offered() {
    let first = Region::new(size(60, 80), size(100, 200), Spec::new(true, false));
    let other = Region::new(size(7, 7), size(9, 9), Spec::new(false, true));
    let alone = in_flow().layout(&Regions::new(first, vec![]));
    let followed = in_flow().layout(&Regions::new(first, vec![other, other, first]));
    assert_eq!(alone.len(), 1);
    assert_eq!(followed.len(), 1);
    assert_eq!(alone, followed);

    let alone = out_of_flow().layout(&Regions::new(first, vec![]));
    let followed = out_of_flow().layout(&Regions::new(first, vec![other]));
    assert_eq!(alone.len(), 1);
    assert_eq!(alone, followed);
}

#[test]
fn the_same_input_gives_the_same_layout() {
    let regions = Regions::one(size(60, 80), size(100, 200), Spec::new(true, false));
    let node = out_of_flow();
    let once = node.layout(&regions);
    let again = node.layout(&regions);
    assert_eq!(once, again);
    assert_eq!(out_of_flow().layout(&regions), once);
}

#[test]
fn without_expansion_and_in_flow_the_frame_takes_no_room() {
    let frames = in_flow().layout(&Regions::one(size(60, 80), size(100, 200), Spec::new(false, false)));
    assert_eq!(frames[0].item.size, size(0, 0));
    // The content stays where the child put it: moved by (5, 10).
    assert_eq!(
        frames[0].item.elements,
        vec![(point(6, 12), Element::Mark(1)), (point(8, 14), Element::Mark(2))]
    );
    assert_eq!(frames[0].cts.expand, Spec::new(false, false));
    assert_eq!(frames[0].cts.base, some(100, 200));
    assert_eq!(frames[0].cts.exact, Spec::new(None, None));
}

#[test]
fn the_frame_is_as_long_as_the_room_left_where_the_region_expands() {
    let frames = in_flow().layout(&Regions::one(size(60, 80), size(100, 200), Spec::new(true, false)));
    assert_eq!(frames[0].item.size, size(60, 0));
    assert_eq!(frames[0].cts.base, some(100, 200));
    assert_eq!(frames[0].cts.exact, Spec::new(Some(len(60)), None));

    let frames = in_flow().layout(&Regions::one(size(60, 80), size(100, 200), Spec::new(false, true)));
    assert_eq!(frames[0].item.size, size(0, 80));
    assert_eq!(frames[0].cts.exact, Spec::new(None, Some(len(80))));

    let frames = in_flow().layout(&Regions::one(size(60, 80), size(100, 200), Spec::new(true, true)));
    assert_eq!(frames[0].item.size, size(60, 80));
    assert_eq!(frames[0].cts.exact, some(60, 80));
}

#[test]
fn out_of_flow_records_the_room_left_on_both_axes() {
    let frames =
        out_of_flow().layout(&Regions::one(size(60, 80), size(100, 200), Spec::new(true, false)));
    assert_eq!(frames[0].item.size, size(60, 0));
    assert_eq!(frames[0].cts.expand, Spec::new(true, false));
    assert_eq!(frames[0].cts.base, some(100, 200));
    assert_eq!(frames[0].cts.exact, some(60, 80));
    // In the pod the content sits at the bottom of 200 and is moved by
    // (5, 10); then it moves by (60 - 100, 80 - 200) = (-40, -120).
    assert_eq!(
        frames[0].item.elements,
        vec![(point(-34, 72), Element::Mark(1)), (point(-32, 74), Element::Mark(2))]
    );
}

#[test]
fn a_base_without_extent_gives_a_frame_without_extent() {
    let regions = Regions::one(size(0, 0), size(0, 0), Spec::new(true, true));
    let frames = out_of_flow().layout(&regions);
    assert_eq!(frames.len(), 1);
    assert_eq!(frames[0].item.size, size(0, 0));
    assert_eq!(frames[0].cts.base, some(0, 0));
    assert_eq!(frames[0].cts.exact, some(0, 0));
    // The child is 20 high in a pod of height 0: its bottom is the pod's.
    assert_eq!(
        frames[0].item.elements,
        vec![(point(6, -8), Element::Mark(1)), (point(8, -6), Element::Mark(2))]
    );

    let frames = in_flow().layout(&Regions::one(size(0, 0), size(0, 0), Spec::new(false, false)));
    assert_eq!(frames[0].item.size, size(0, 0));
}

#[test]
fn room_left_beyond_the_base_moves_content_forward() {
    let regions = Regions::one(size(150, 250), size(100, 200), Spec::new(false, false));
    let frames = out_of_flow().layout(&regions);
    assert_eq!(
        frames[0].item.elements,
        vec![(point(56, 242), Element::Mark(1)), (point(58, 244), Element::Mark(2))]
    );
}

#[test]
fn a_placed_frame_serves_where_its_constraints_admit() {
    let node = in_flow();
    let made_for = Regions::one(size(60, 80), size(100, 200), Spec::new(true, false));
    let frames = node.layout(&made_for);

    let same_width = Regions::one(size(60, 5), size(100, 200), Spec::new(true, false));
    assert!(frames[0].cts.check(&same_width));
    assert_eq!(node.layout(&same_width), frames);

    let narrower = Regions::one(size(59, 80), size(100, 200), Spec::new(true, false));
    assert!(!frames[0].cts.check(&narrower));
    assert!(node.layout(&narrower) != frames);

    let other_base = Regions::one(size(60, 80), size(100, 201), Spec::new(true, false));
    assert!(!frames[0].cts.check(&other_base));

    let node = out_of_flow();
    let frames = node.layout(&made_for);
    assert!(!frames[0].cts.check(&same_width));
    assert!(node.layout(&same_width) != frames);
    assert!(frames[0].cts.check(&made_for));
}

#[test]
fn the_child_frame_is_not_changed_by_placing_it() {
    let frame = marks();
    let node = PlacedNode {
        child: aligned(PackedNode::Fixed(Rc::clone(&frame)), None, Some(Align::Bottom)),
    };
    let frames = node.layout(&Regions::one(size(60, 80), size(100, 200), Spec::new(false, false)));
    assert_eq!(frames[0].item.elements[0].0, point(-39, 62));
    assert_eq!(*frame, *marks());
}

#[test]
fn arrange_places_what_the_child_made() {
    let child = placement::regions::Constrained {
        item: marks(),
        cts: Constraints::new(Spec::new(true, true)),
    };
    let region = Region::new(size(60, 80), size(100, 100), Spec::new(false, true));
    let placed = PlacedNode::arrange(child, &region, true);
    assert_eq!(placed.item.size, size(0, 80));
    assert_eq!(
        placed.item.elements,
        vec![(point(-39, -18), Element::Mark(1)), (point(-37, -16), Element::Mark(2))]
    );
    assert_eq!(placed.cts.expand, Spec::new(false, true));
    assert_eq!(placed.cts.base, some(100, 100));
    assert_eq!(placed.cts.exact, some(60, 80));

    let child = placement::regions::Constrained {
        item: marks(),
        cts: Constraints::new(Spec::new(true, true)),
    };
    let placed = PlacedNode::arrange(child, &region, false);
    assert_eq!(placed.item.size, size(0, 80));
    assert_eq!(placed.item.elements, marks().elements);
    assert_eq!(placed.cts.exact, Spec::new(None, Some(len(80))));
}

#[test]
fn a_placement_inside_a_placement_is_laid_out_in_its_pod() {
    let inner = PackedNode::Placed(Box::new(out_of_flow()));
    let outer = PlacedNode { child: inner };
    let frames = outer.layout(&Regions::one(size(60, 80), size(100, 200), Spec::new(false, false)));
    // The inner placement sees the pod (100, 200) as both its base and
    // the room that is left, so it moves nothing.
    assert_eq!(frames[0].item.size, size(0, 0));
    assert_eq!(
        frames[0].item.elements,
        vec![(point(6, 192), Element::Mark(1)), (point(8, 194), Element::Mark(2))]
    );
    assert_eq!(frames[0].cts.exact, Spec::new(None, None));
}
