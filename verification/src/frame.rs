//! Frames: the positioned content that layout produces.

use crate::geom::{Align, Point, Size, Spec};
use std::rc::Rc;
use vstd::prelude::*;

verus! {

/// What a frame holds at one position.
#[derive(Debug, PartialEq, Eq, Hash)]
pub enum Element {
    /// Content that a renderer draws, known here by its number.
    Mark(u64),
    /// A whole frame, positioned as one piece.
    Group(Rc<Frame>),
}

/// A finished layout: a size and the entries placed in it, in drawing order.
/// Positions are relative to the top left corner of the frame.
#[derive(Debug, PartialEq, Eq, Hash)]
pub struct Frame {
    pub size: Size,
    pub elements: Vec<(Point, Element)>,
}

/// A frame as a value: its size and its entries in order.
pub struct FrameView {
    pub size: Size,
    pub elements: Seq<(Point, Element)>,
}

impl View for Frame {
    type V = FrameView;

    open spec fn view(&self) -> FrameView {
        FrameView { size: self.size, elements: self.elements@ }
    }
}

impl FrameView {
    /// A frame of the given size without entries.
    pub open spec fn empty(size: Size) -> FrameView {
        FrameView { size, elements: Seq::empty() }
    }

    /// The frame with every entry moved by `offset`. The size stays.
    pub open spec fn translated(self, offset: Point) -> FrameView {
        FrameView {
            size: self.size,
            elements: Seq::new(
                self.elements.len(),
                |i: int| (self.elements[i].0.shifted(offset), self.elements[i].1),
            ),
        }
    }

    /// How far the entries move when the frame takes the size `new` and the
    /// room gained or lost is handed out by `aligns`.
    pub open spec fn anchor_shift(self, new: Size, aligns: Spec<Align>) -> Point {
        Point {
            x: aligns.x.resolved(new.x.difference(self.size.x)),
            y: aligns.y.resolved(new.y.difference(self.size.y)),
        }
    }

    /// The frame with the size `new`, its entries moved as `aligns` asks.
    pub open spec fn resized(self, new: Size, aligns: Spec<Align>) -> FrameView {
        FrameView {
            size: new,
            elements: self.translated(self.anchor_shift(new, aligns)).elements,
        }
    }
}

/// Moving by nothing changes nothing.
pub proof fn lemma_translate_by_zero(frame: FrameView, offset: Point)
    requires
        offset.x.units == 0,
        offset.y.units == 0,
    ensures
        frame.translated(offset) == frame,
{
    assert forall|i: int| 0 <= i < frame.elements.len() implies frame.translated(
        offset,
    ).elements[i] == frame.elements[i] by {
        let p = frame.elements[i].0;
        assert(p.shifted(offset) == p);
    }
    assert(frame.translated(offset).elements =~= frame.elements);
}

/// Resizing a frame to the size that it has changes nothing, whatever the
/// alignment.
pub proof fn lemma_resize_to_same_size(frame: FrameView, aligns: Spec<Align>)
    ensures
        frame.resized(frame.size, aligns) == frame,
{
    lemma_translate_by_zero(frame, frame.anchor_shift(frame.size, aligns));
}

/// Resizing with the top left corner as anchor sets the size and moves no
/// entry.
pub proof fn lemma_resize_top_left_keeps_entries(frame: FrameView, new: Size)
    ensures
        frame.resized(new, Align::top_left()).size == new,
        frame.resized(new, Align::top_left()).elements == frame.elements,
{
    lemma_translate_by_zero(frame, frame.anchor_shift(new, Align::top_left()));
}

/// Another handle to the same frame, through `Rc::clone`: the new handle
/// points to the allocation of the old one, so both show the same frame.
#[verifier::external_body]
pub(crate) fn share(frame: &Rc<Frame>) -> (r: Rc<Frame>)
    ensures
        r == *frame,
{
    Rc::clone(frame)
}

impl Clone for Element {
    fn clone(&self) -> (r: Element)
        ensures
            r == *self,
    {
        match self {
            Element::Mark(number) => Element::Mark(*number),
            Element::Group(frame) => Element::Group(share(frame)),
        }
    }
}

impl Clone for Frame {
    /// A frame of its own with the same size and entries. Groups among the
    /// entries stay shared.
    fn clone(&self) -> (r: Frame)
        ensures
            r@ == self@,
    {
        let mut elements: Vec<(Point, Element)> = Vec::new();
        let mut i: usize = 0;
        while i < self.elements.len()
            invariant
                i <= self.elements.len(),
                elements@ == self.elements@.subrange(0, i as int),
            decreases self.elements.len() - i,
        {
            let position = self.elements[i].0;
            let element = self.elements[i].1.clone();
            elements.push((position, element));
            i = i + 1;
        }
        assert(elements@ == self.elements@);
        Frame { size: self.size, elements }
    }
}

impl Frame {
    pub fn new(size: Size) -> (r: Frame)
        ensures
            r@ == FrameView::empty(size),
    {
        Frame { size, elements: Vec::new() }
    }

    /// Adds an entry behind the ones that are there.
    pub fn push(&mut self, position: Point, element: Element)
        ensures
            final(self)@.size == old(self)@.size,
            final(self)@.elements == old(self)@.elements.push((position, element)),
    {
        self.elements.push((position, element));
    }

    /// Moves every entry by `offset`.
    pub fn translate(&mut self, offset: Point)
        ensures
            final(self)@ == old(self)@.translated(offset),
    {
        if offset.is_zero() {
            proof {
                lemma_translate_by_zero(self@, offset);
            }
            return ;
        }
        let ghost before = self@;
        let mut i: usize = 0;
        while i < self.elements.len()
            invariant
                i <= self.elements.len(),
                self.size == before.size,
                self.elements.len() == before.elements.len(),
                forall|j: int|
                    0 <= j < i ==> self.elements[j] == before.translated(offset).elements[j],
                forall|j: int| i <= j < self.elements.len() ==> self.elements[j] == before.elements[j],
            decreases self.elements.len() - i,
        {
            let moved = self.elements[i].0.plus(offset);
            let entry = &mut self.elements[i];
            entry.0 = moved;
            i = i + 1;
        }
        assert(self@.elements =~= before.translated(offset).elements);
    }

    /// Gives the frame the size `new`. The entries move by the share of the
    /// change in size that `aligns` hands to the space before them.
    pub fn resize(&mut self, new: Size, aligns: Spec<Align>)
        ensures
            final(self)@ == old(self)@.resized(new, aligns),
    {
        if self.size.x.units == new.x.units && self.size.y.units == new.y.units {
            proof {
                lemma_resize_to_same_size(self@, aligns);
            }
            return ;
        }
        let offset = Point::new(
            aligns.x.resolve(new.x.minus(self.size.x)),
            aligns.y.resolve(new.y.minus(self.size.y)),
        );
        self.size = new;
        self.translate(offset);
    }
}

/// The frame behind a handle, ready to be changed: taken out of the handle
/// where no one else holds it, and copied where someone does, so that no
/// other holder sees the change.
pub fn into_unique(frame: Rc<Frame>) -> (r: Frame)
    ensures
        r@ == frame@,
{
    match Rc::try_unwrap(frame) {
        Ok(owned) => owned,
        Err(shared) => (*shared).clone(),
    }
}

} // verus!
