use vstd::prelude::*;

verus! {

/// A straight (not premultiplied) RGBA color, eight bits per channel.
#[derive(Clone, Copy, Debug, PartialEq, Eq)]
pub struct Rgba {
    pub red: u8,
    pub green: u8,
    pub blue: u8,
    pub alpha: u8,
}

/// How a fill or a stroke is painted.
#[derive(Clone, Copy, Debug, PartialEq, Eq)]
pub enum Paint {
    /// A flat color.
    Color { red: u8, green: u8, blue: u8 },
    /// A gradient or a pattern, which this library does not resolve.
    Server,
}

#[derive(Clone, Copy, Debug, PartialEq, Eq)]
pub enum LineCap {
    Butt,
    Square,
    Round,
}

#[derive(Clone, Copy, Debug, PartialEq, Eq)]
pub enum LineJoin {
    Miter,
    Bevel,
    Round,
}

/// The fill of a path: its paint and its opacity as an 8-bit alpha.
#[derive(Clone, Copy, Debug, PartialEq)]
pub struct Fill {
    pub paint: Paint,
    pub alpha: u8,
}

/// The stroke of a path: its paint, its opacity as an 8-bit alpha, and its
/// geometry.
#[derive(Clone, Copy, Debug, PartialEq)]
pub struct Stroke<W> {
    pub paint: Paint,
    pub alpha: u8,
    pub width: W,
    pub linecap: LineCap,
    pub linejoin: LineJoin,
}

/// The parameters with which a stroke is tessellated.
#[derive(Clone, Copy, Debug, PartialEq)]
pub struct StrokeStyle<W> {
    pub line_width: W,
    pub tolerance: W,
    pub line_cap: LineCap,
    pub line_join: LineJoin,
}

/// The color that stands for a paint this library does not resolve: opaque
/// white.
pub open spec fn placeholder() -> Rgba {
    Rgba { red: 255, green: 255, blue: 255, alpha: 255 }
}

pub open spec fn paint_color(paint: Paint, alpha: u8) -> Rgba {
    match paint {
        Paint::Color { red, green, blue } => Rgba { red, green, blue, alpha },
        Paint::Server => placeholder(),
    }
}

pub open spec fn stroke_style<W>(s: Stroke<W>, tolerance: W) -> StrokeStyle<W> {
    StrokeStyle { line_width: s.width, tolerance, line_cap: s.linecap, line_join: s.linejoin }
}

pub fn placeholder_color() -> (r: Rgba)
    ensures
        r == placeholder(),
{
    Rgba { red: 255, green: 255, blue: 255, alpha: 255 }
}

impl Paint {
    /// The paint's color, fully opaque.
    pub fn to_rgba(&self) -> (r: Rgba)
        ensures
            r == paint_color(*self, 255),
    {
        self.to_rgba_with_alpha(255)
    }

    /// The paint's color with the given alpha.
    pub fn to_rgba_with_alpha(&self, alpha: u8) -> (r: Rgba)
        ensures
            r == paint_color(*self, alpha),
    {
        match *self {
            Paint::Color { red, green, blue } => Rgba { red, green, blue, alpha },
            Paint::Server => placeholder_color(),
        }
    }
}

/// The color and the tessellation parameters of a stroke.
pub fn convert_stroke<W: Copy>(s: &Stroke<W>, tolerance: W) -> (r: (Rgba, StrokeStyle<W>))
    ensures
        r.0 == paint_color(s.paint, s.alpha),
        r.1 == stroke_style(*s, tolerance),
{
    let color = s.paint.to_rgba_with_alpha(s.alpha);
    let line_cap = match s.linecap {
        LineCap::Butt => LineCap::Butt,
        LineCap::Square => LineCap::Square,
        LineCap::Round => LineCap::Round,
    };
    let line_join = match s.linejoin {
        LineJoin::Miter => LineJoin::Miter,
        LineJoin::Bevel => LineJoin::Bevel,
        LineJoin::Round => LineJoin::Round,
    };
    (color, StrokeStyle { line_width: s.width, tolerance, line_cap, line_join })
}

} // verus!
