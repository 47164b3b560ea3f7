//! Rectangles on the pixel grid of a surface, and the scissor that a context
//! asks for, resolved against the surface's viewport.

use vstd::prelude::*;

verus! {

/// An axis-aligned rectangle given by its four edges, in surface pixels.
/// The origin is the bottom-left corner of the surface, `y` grows upwards.
///
/// A rectangle is inverted when `right < left` or `top < bottom`.
#[derive(Clone, Copy, Debug, PartialEq, Eq, Hash, Structural)]
pub struct Rect {
    pub left: i32,
    pub bottom: i32,
    pub right: i32,
    pub top: i32,
}

/// The size of a surface in physical pixels.
#[derive(Clone, Copy, Debug, PartialEq, Eq, Hash, Structural)]
pub struct Viewport {
    pub width: u32,
    pub height: u32,
}

/// A clip rectangle in physical pixels, as handed to the GPU.
#[derive(Clone, Copy, Debug, PartialEq, Eq, Hash, Structural)]
pub struct Scissor {
    pub left: u32,
    pub bottom: u32,
    pub width: u32,
    pub height: u32,
}

/// The clip region that a context asks for.
#[derive(Clone, Copy, Debug, PartialEq, Eq, Hash, Structural)]
pub enum ScissorMode {
    /// The whole viewport.
    Full,
    /// The part of the viewport inside the rectangle.
    Rect(Rect),
    /// Nothing is visible.
    NoOverlap,
}

pub open spec fn spec_min(a: int, b: int) -> int {
    if a <= b { a } else { b }
}

pub open spec fn spec_max(a: int, b: int) -> int {
    if a >= b { a } else { b }
}

/// The two ends of an interval, lower end first.
pub open spec fn ordered(start: int, end: int) -> (int, int) {
    if start > end { (end, start) } else { (start, end) }
}

/// The interval shared by two intervals, each first put lower end first;
/// `None` where they are apart. Intervals that only touch share a point.
pub open spec fn interval_overlap(a: (int, int), b: (int, int)) -> Option<(int, int)> {
    let a = ordered(a.0, a.1);
    let b = ordered(b.0, b.1);
    let start = spec_max(a.0, b.0);
    let end = spec_min(a.1, b.1);
    if end - start >= 0 { Some((start, end)) } else { None }
}

impl Rect {
    pub open spec fn is_inverted(self) -> bool {
        self.right < self.left || self.top < self.bottom
    }

    /// The rectangle shared by `self` and `other`: the overlap of their
    /// horizontal extents and of their vertical extents, where both exist.
    pub open spec fn overlap_spec(self, other: Rect) -> Option<Rect> {
        let x = interval_overlap((self.left as int, self.right as int), (other.left as int, other.right as int));
        let y = interval_overlap((self.bottom as int, self.top as int), (other.bottom as int, other.top as int));
        match (x, y) {
            (Some(x), Some(y)) => Some(
                Rect { left: x.0 as i32, bottom: y.0 as i32, right: x.1 as i32, top: y.1 as i32 },
            ),
            _ => None,
        }
    }
}

/// `nannou_core::geom::Rect::overlap`, on rectangles with 64-bit edges so
/// that no difference of two edges overflows. The contract restates the
/// method: each axis is put lower end first, the larger start and the smaller
/// end are taken, and the result is `None` where an end lies below its start.
#[verifier::external_body]
fn rect_overlap(a: Rect, b: Rect) -> (r: Option<Rect>)
    ensures
        r == a.overlap_spec(b),
{
    let a = nannou_core::geom::Rect {
        x: nannou_core::geom::Range::new(a.left as i64, a.right as i64),
        y: nannou_core::geom::Range::new(a.bottom as i64, a.top as i64),
    };
    let b = nannou_core::geom::Rect {
        x: nannou_core::geom::Range::new(b.left as i64, b.right as i64),
        y: nannou_core::geom::Range::new(b.bottom as i64, b.top as i64),
    };
    match a.overlap(b) {
        Some(o) => Some(Rect { left: o.x.start as i32, bottom: o.y.start as i32, right: o.x.end as i32, top: o.y.end as i32 }),
        None => None,
    }
}

impl Scissor {
    /// The scissor through which nothing is visible.
    pub open spec fn empty_spec() -> Scissor {
        Scissor { left: 0, bottom: 0, width: 0, height: 0 }
    }

    /// No pixel lies inside a scissor of zero width or zero height.
    pub open spec fn is_empty(self) -> bool {
        self.width == 0 || self.height == 0
    }

    pub fn empty() -> (s: Scissor)
        ensures
            s == Scissor::empty_spec(),
    {
        Scissor { left: 0, bottom: 0, width: 0, height: 0 }
    }
}

impl Viewport {
    /// The largest edge that a `Rect` can have and that lies in the viewport.
    pub open spec fn edge_spec(extent: u32) -> int {
        spec_min(extent as int, i32::MAX as int)
    }

    fn edge(extent: u32) -> (e: i32)
        ensures
            e == Viewport::edge_spec(extent),
    {
        if extent > 0x7fff_ffff { 0x7fff_ffff } else { extent as i32 }
    }
}

impl ScissorMode {
    /// The pixels that stay visible under this mode in the viewport `vp`.
    ///
    /// `Full` is the viewport. `NoOverlap` is empty. A rectangle is cut to the
    /// viewport; an inverted rectangle, and one that lies outside the
    /// viewport, leave the empty scissor.
    pub open spec fn resolve_spec(self, vp: Viewport) -> Scissor {
        match self {
            ScissorMode::Full => Scissor { left: 0, bottom: 0, width: vp.width, height: vp.height },
            ScissorMode::NoOverlap => Scissor::empty_spec(),
            ScissorMode::Rect(r) => {
                let left = spec_max(r.left as int, 0);
                let bottom = spec_max(r.bottom as int, 0);
                let right = spec_min(r.right as int, vp.width as int);
                let top = spec_min(r.top as int, vp.height as int);
                if r.is_inverted() || right < left || top < bottom {
                    Scissor::empty_spec()
                } else {
                    Scissor {
                        left: left as u32,
                        bottom: bottom as u32,
                        width: (right - left) as u32,
                        height: (top - bottom) as u32,
                    }
                }
            },
        }
    }

    pub fn resolve(&self, vp: Viewport) -> (s: Scissor)
        ensures
            s == self.resolve_spec(vp),
    {
        match self {
            ScissorMode::Full => Scissor { left: 0, bottom: 0, width: vp.width, height: vp.height },
            ScissorMode::NoOverlap => Scissor::empty(),
            ScissorMode::Rect(r) => {
                if r.right < r.left || r.top < r.bottom {
                    return Scissor::empty();
                }
                let full = Rect { left: 0, bottom: 0, right: Viewport::edge(vp.width), top: Viewport::edge(vp.height) };
                match rect_overlap(full, *r) {
                    None => Scissor::empty(),
                    Some(o) => Scissor {
                        left: o.left as u32,
                        bottom: o.bottom as u32,
                        width: (o.right - o.left) as u32,
                        height: (o.top - o.bottom) as u32,
                    },
                }
            },
        }
    }
}

/// A rectangle that lies wholly outside the viewport, and an inverted one,
/// resolve to a scissor of no area.
pub proof fn lemma_outside_scissor_is_empty(r: Rect, vp: Viewport)
    requires
        r.is_inverted() || r.right < 0 || r.top < 0 || r.left > vp.width || r.bottom > vp.height,
    ensures
        ScissorMode::Rect(r).resolve_spec(vp) == Scissor::empty_spec(),
        ScissorMode::Rect(r).resolve_spec(vp).is_empty(),
        ScissorMode::NoOverlap.resolve_spec(vp).is_empty(),
{
}

/// A rectangle that shares no pixel with the viewport leaves no pixel
/// visible.
pub proof fn lemma_scissor_without_overlap_is_empty(r: Rect, vp: Viewport)
    requires
        r.right <= 0 || r.top <= 0 || r.left >= vp.width || r.bottom >= vp.height,
    ensures
        ScissorMode::Rect(r).resolve_spec(vp).is_empty(),
{
}

/// A resolved scissor never reaches beyond the viewport.
pub proof fn lemma_scissor_within_viewport(mode: ScissorMode, vp: Viewport)
    ensures
        mode.resolve_spec(vp).left + mode.resolve_spec(vp).width <= vp.width,
        mode.resolve_spec(vp).bottom + mode.resolve_spec(vp).height <= vp.height,
{
}

} // verus!
