//! Lengths, points, sizes and per-axis pairs.

use vstd::prelude::*;

verus! {

/// A signed length in whole units.
///
/// Sums and differences saturate at the ends of the representable range, the
/// way an unbounded length stays unbounded.
#[derive(Clone, Copy, Debug, PartialEq, Eq, Hash, Structural)]
pub struct Length {
    pub units: i64,
}

impl Length {
    /// The nearest representable number of units.
    pub open spec fn clamp(v: int) -> int {
        if v < i64::MIN {
            i64::MIN as int
        } else if v > i64::MAX {
            i64::MAX as int
        } else {
            v
        }
    }

    /// The length of exactly `v` units, where `v` is representable, and the
    /// nearest end of the range otherwise.
    pub open spec fn of(v: int) -> Length {
        Length { units: Self::clamp(v) as i64 }
    }

    /// The two lengths together, as far as the range allows.
    pub open spec fn sum(self, other: Length) -> Length {
        Self::of(self.units + other.units)
    }

    /// The length less `other`, as far as the range allows.
    pub open spec fn difference(self, other: Length) -> Length {
        Self::of(self.units - other.units)
    }

    /// Half of the length, rounded towards zero.
    pub open spec fn halved(self) -> Length {
        if self.units >= 0 {
            Self::of(self.units / 2)
        } else {
            Self::of(-((-self.units) / 2))
        }
    }

    /// The length of `units` units.
    pub fn new(units: i64) -> (r: Length)
        ensures
            r.units == units,
    {
        Length { units }
    }

    /// No length.
    pub fn zero() -> (r: Length)
        ensures
            r.units == 0,
    {
        Length { units: 0 }
    }

    pub fn is_zero(self) -> (r: bool)
        ensures
            r == (self.units == 0),
    {
        self.units == 0
    }

    /// Adds `other`. A sum beyond the range is the end of the range.
    pub fn plus(self, other: Length) -> (r: Length)
        ensures
            r == self.sum(other),
    {
        match self.units.checked_add(other.units) {
            Some(units) => Length { units },
            None => if other.units > 0 {
                Length { units: i64::MAX }
            } else {
                Length { units: i64::MIN }
            },
        }
    }

    /// Takes `other` away. A difference beyond the range is the end of the
    /// range.
    pub fn minus(self, other: Length) -> (r: Length)
        ensures
            r == self.difference(other),
    {
        match self.units.checked_sub(other.units) {
            Some(units) => Length { units },
            None => if other.units < 0 {
                Length { units: i64::MAX }
            } else {
                Length { units: i64::MIN }
            },
        }
    }

    /// Half of the length, rounded towards zero.
    pub fn half(self) -> (r: Length)
        ensures
            r == self.halved(),
    {
        if self.units >= 0 {
            Length { units: self.units / 2 }
        } else if self.units == i64::MIN {
            Length { units: i64::MIN / 2 }
        } else {
            let positive: i64 = -self.units;
            Length { units: -(positive / 2) }
        }
    }
}

/// A position relative to the origin of a frame.
#[derive(Clone, Copy, Debug, PartialEq, Eq, Hash, Structural)]
pub struct Point {
    pub x: Length,
    pub y: Length,
}

impl Point {
    /// The point moved by `offset`.
    pub open spec fn shifted(self, offset: Point) -> Point {
        Point { x: self.x.sum(offset.x), y: self.y.sum(offset.y) }
    }

    pub fn new(x: Length, y: Length) -> (r: Point)
        ensures
            r == (Point { x, y }),
    {
        Point { x, y }
    }

    /// The origin.
    pub fn zero() -> (r: Point)
        ensures
            r.x.units == 0,
            r.y.units == 0,
    {
        Point { x: Length::zero(), y: Length::zero() }
    }

    pub fn is_zero(self) -> (r: bool)
        ensures
            r == (self.x.units == 0 && self.y.units == 0),
    {
        self.x.is_zero() && self.y.is_zero()
    }

    /// The point moved by `offset`.
    pub fn plus(self, offset: Point) -> (r: Point)
        ensures
            r == self.shifted(offset),
    {
        Point { x: self.x.plus(offset.x), y: self.y.plus(offset.y) }
    }
}

/// An extent along both axes. A size that describes a region or a frame has
/// no negative component.
#[derive(Clone, Copy, Debug, PartialEq, Eq, Hash, Structural)]
pub struct Size {
    pub x: Length,
    pub y: Length,
}

impl Size {
    /// Whether no component is negative.
    pub open spec fn non_negative(self) -> bool {
        self.x.units >= 0 && self.y.units >= 0
    }

    /// The size less `other`, along each axis.
    pub open spec fn difference(self, other: Size) -> Size {
        Size { x: self.x.difference(other.x), y: self.y.difference(other.y) }
    }

    /// The size read as the position of its far corner.
    pub open spec fn as_point(self) -> Point {
        Point { x: self.x, y: self.y }
    }

    /// Both components, each known.
    pub open spec fn known(self) -> Spec<Option<Length>> {
        Spec { x: Some(self.x), y: Some(self.y) }
    }

    /// The components on the axes that `mask` selects.
    pub open spec fn filtered(self, mask: Spec<bool>) -> Spec<Option<Length>> {
        Spec {
            x: if mask.x {
                Some(self.x)
            } else {
                None
            },
            y: if mask.y {
                Some(self.y)
            } else {
                None
            },
        }
    }

    pub fn new(x: Length, y: Length) -> (r: Size)
        ensures
            r == (Size { x, y }),
    {
        Size { x, y }
    }

    /// No extent along either axis.
    pub fn zero() -> (r: Size)
        ensures
            r.x.units == 0,
            r.y.units == 0,
    {
        Size { x: Length::zero(), y: Length::zero() }
    }

    pub fn is_zero(self) -> (r: bool)
        ensures
            r == (self.x.units == 0 && self.y.units == 0),
    {
        self.x.is_zero() && self.y.is_zero()
    }

    /// Takes `other` away along each axis.
    pub fn minus(self, other: Size) -> (r: Size)
        ensures
            r == self.difference(other),
    {
        Size { x: self.x.minus(other.x), y: self.y.minus(other.y) }
    }

    /// The size read as the position of its far corner.
    pub fn to_point(self) -> (r: Point)
        ensures
            r == self.as_point(),
    {
        Point { x: self.x, y: self.y }
    }

    /// Both components, each known.
    pub fn map_some(self) -> (r: Spec<Option<Length>>)
        ensures
            r == self.known(),
    {
        Spec { x: Some(self.x), y: Some(self.y) }
    }

    /// The components on the axes that `mask` selects.
    pub fn filter(self, mask: Spec<bool>) -> (r: Spec<Option<Length>>)
        ensures
            r == self.filtered(mask),
    {
        Spec {
            x: if mask.x {
                Some(self.x)
            } else {
                None
            },
            y: if mask.y {
                Some(self.y)
            } else {
                None
            },
        }
    }
}

/// A pair of values, one for each axis.
#[derive(Clone, Copy, Debug, PartialEq, Eq, Hash, Structural)]
pub struct Spec<T> {
    pub x: T,
    pub y: T,
}

impl<T> Spec<T> {
    pub fn new(x: T, y: T) -> (r: Spec<T>)
        ensures
            r == (Spec { x, y }),
    {
        Spec { x, y }
    }
}

impl Spec<bool> {
    /// On each axis `yes` where the flag is set and `no` where it is not.
    pub open spec fn chosen(self, yes: Size, no: Size) -> Size {
        Size {
            x: if self.x {
                yes.x
            } else {
                no.x
            },
            y: if self.y {
                yes.y
            } else {
                no.y
            },
        }
    }

    /// The axes on which one of the two flags is set.
    pub open spec fn either(self, other: Spec<bool>) -> Spec<bool> {
        Spec { x: self.x || other.x, y: self.y || other.y }
    }

    /// The axes on which both flags are set.
    pub open spec fn both(self, other: Spec<bool>) -> Spec<bool> {
        Spec { x: self.x && other.x, y: self.y && other.y }
    }

    /// The same flag on both axes.
    pub fn splat(value: bool) -> (r: Spec<bool>)
        ensures
            r == (Spec { x: value, y: value }),
    {
        Spec { x: value, y: value }
    }

    /// On each axis `yes` where the flag is set and `no` where it is not.
    pub fn select(self, yes: Size, no: Size) -> (r: Size)
        ensures
            r == self.chosen(yes, no),
    {
        Size {
            x: if self.x {
                yes.x
            } else {
                no.x
            },
            y: if self.y {
                yes.y
            } else {
                no.y
            },
        }
    }

    /// The axes on which one of the two flags is set.
    pub fn or(self, other: Spec<bool>) -> (r: Spec<bool>)
        ensures
            r == self.either(other),
    {
        Spec { x: self.x || other.x, y: self.y || other.y }
    }

    /// The axes on which both flags are set.
    pub fn and(self, other: Spec<bool>) -> (r: Spec<bool>)
        ensures
            r == self.both(other),
    {
        Spec { x: self.x && other.x, y: self.y && other.y }
    }

    /// Whether the flags are the same on both axes.
    pub fn same(self, other: Spec<bool>) -> (r: bool)
        ensures
            r == (self == other),
    {
        self.x == other.x && self.y == other.y
    }
}

/// Where content sits inside the room that it is given along one axis.
#[derive(Clone, Copy, Debug, PartialEq, Eq, Hash, Structural)]
pub enum Align {
    Left,
    Center,
    Right,
    Top,
    Horizon,
    Bottom,
}

impl Align {
    /// How far content moves from the start of the axis when it has `range`
    /// of room to spare.
    pub open spec fn resolved(self, range: Length) -> Length {
        match self {
            Align::Left | Align::Top => Length { units: 0 },
            Align::Center | Align::Horizon => range.halved(),
            Align::Right | Align::Bottom => range,
        }
    }

    /// Whether the alignment belongs to the vertical axis.
    pub open spec fn vertical(self) -> bool {
        self is Top || self is Horizon || self is Bottom
    }

    /// The alignment on the axis that it belongs to, and none on the other.
    pub open spec fn on_its_axis(self) -> Spec<Option<Align>> {
        if self.vertical() {
            Spec { x: None, y: Some(self) }
        } else {
            Spec { x: Some(self), y: None }
        }
    }

    /// The corner at which both axes start.
    pub open spec fn top_left() -> Spec<Align> {
        Spec { x: Align::Left, y: Align::Top }
    }

    /// How far content moves from the start of the axis when it has `range`
    /// of room to spare.
    pub fn resolve(self, range: Length) -> (r: Length)
        ensures
            r == self.resolved(range),
    {
        match self {
            Align::Left | Align::Top => Length::zero(),
            Align::Center | Align::Horizon => range.half(),
            Align::Right | Align::Bottom => range,
        }
    }

    /// Whether the alignment belongs to the vertical axis.
    pub fn is_vertical(self) -> (r: bool)
        ensures
            r == self.vertical(),
    {
        match self {
            Align::Top | Align::Horizon | Align::Bottom => true,
            _ => false,
        }
    }

    /// The alignment on the axis that it belongs to, and none on the other.
    pub fn along_its_axis(self) -> (r: Spec<Option<Align>>)
        ensures
            r == self.on_its_axis(),
    {
        if self.is_vertical() {
            Spec { x: None, y: Some(self) }
        } else {
            Spec { x: Some(self), y: None }
        }
    }

    /// The corner at which both axes start.
    pub fn left_top() -> (r: Spec<Align>)
        ensures
            r == Self::top_left(),
    {
        Spec { x: Align::Left, y: Align::Top }
    }
}

impl Spec<Option<Align>> {
    /// The axes on which no alignment is set.
    pub open spec fn unset(self) -> Spec<bool> {
        Spec { x: self.x is None, y: self.y is None }
    }

    /// The alignments that are set, and `default` on the other axes.
    pub open spec fn or_default(self, default: Spec<Align>) -> Spec<Align> {
        Spec {
            x: match self.x {
                Some(align) => align,
                None => default.x,
            },
            y: match self.y {
                Some(align) => align,
                None => default.y,
            },
        }
    }

    /// The axes on which no alignment is set.
    pub fn map_is_none(self) -> (r: Spec<bool>)
        ensures
            r == self.unset(),
    {
        Spec { x: self.x.is_none(), y: self.y.is_none() }
    }

    /// The alignments that are set, and `default` on the other axes.
    pub fn unwrap_or(self, default: Spec<Align>) -> (r: Spec<Align>)
        ensures
            r == self.or_default(default),
    {
        Spec {
            x: match self.x {
                Some(align) => align,
                None => default.x,
            },
            y: match self.y {
                Some(align) => align,
                None => default.y,
            },
        }
    }
}

impl Spec<Option<Length>> {
    /// The axes on which a length is recorded.
    pub open spec fn set(self) -> Spec<bool> {
        Spec { x: self.x is Some, y: self.y is Some }
    }

    /// The axes on which a length is recorded.
    pub fn map_is_some(self) -> (r: Spec<bool>)
        ensures
            r == self.set(),
    {
        Spec { x: self.x.is_some(), y: self.y.is_some() }
    }
}

} // verus!
