//! The layout aspect of a widget: position, size, and the widths of border,
//! margin and padding.
//!
//! The aspect is generic over its scalar `S`, the unit in which lengths are
//! measured; it stores and returns values and never does arithmetic on them.
use vstd::prelude::*;
use vstd::string::StringExecFns;

verus! {

/// A point, or a size, in two dimensions.
pub struct Point2D<S> {
    pub x: S,
    pub y: S,
}

/// A width and a height.
pub type Size2D<S> = Point2D<S>;

/// Holds the layout aspect of a widget.
pub struct LayoutData<S> {
    pub pos: Point2D<S>,
    pub size: Size2D<S>,
    pub border: S,
    pub margin: S,
    pub padding: S,
}

/// Operations of a widget that has a place and a size on screen.
///
/// Each setter changes its own field only, and each getter returns what the
/// last setter of that field stored.
pub trait HasLayout<S: Copy> {
    spec fn layout_view(&self) -> LayoutData<S>;

    fn position(&self) -> (r: &Point2D<S>)
        ensures
            *r == self.layout_view().pos,
    ;

    fn set_position(&mut self, p: Point2D<S>)
        ensures
            final(self).layout_view() == (LayoutData { pos: p, ..old(self).layout_view() }),
    ;

    fn size(&self) -> (r: &Size2D<S>)
        ensures
            *r == self.layout_view().size,
    ;

    fn set_size(&mut self, sz: Size2D<S>)
        ensures
            final(self).layout_view() == (LayoutData { size: sz, ..old(self).layout_view() }),
    ;

    fn border(&self) -> (r: S)
        ensures
            r == self.layout_view().border,
    ;

    fn set_border(&mut self, width: S)
        ensures
            final(self).layout_view() == (LayoutData { border: width, ..old(self).layout_view() }),
    ;

    fn margin(&self) -> (r: S)
        ensures
            r == self.layout_view().margin,
    ;

    fn set_margin(&mut self, width: S)
        ensures
            final(self).layout_view() == (LayoutData { margin: width, ..old(self).layout_view() }),
    ;

    fn padding(&self) -> (r: S)
        ensures
            r == self.layout_view().padding,
    ;

    fn set_padding(&mut self, width: S)
        ensures
            final(self).layout_view() == (LayoutData { padding: width, ..old(self).layout_view() }),
    ;
}

impl<S: Copy> LayoutData<S> {
    /// A layout at the origin with every length equal to `zero`.
    pub fn new(zero: S) -> (r: LayoutData<S>)
        ensures
            r == (LayoutData {
                pos: Point2D { x: zero, y: zero },
                size: Point2D { x: zero, y: zero },
                border: zero,
                margin: zero,
                padding: zero,
            }),
    {
        LayoutData {
            pos: Point2D { x: zero, y: zero },
            size: Point2D { x: zero, y: zero },
            border: zero,
            margin: zero,
            padding: zero,
        }
    }
}

impl<S: Copy> HasLayout<S> for LayoutData<S> {
    open spec fn layout_view(&self) -> LayoutData<S> {
        *self
    }

    fn position(&self) -> (r: &Point2D<S>) {
        &self.pos
    }

    fn set_position(&mut self, p: Point2D<S>) {
        self.pos = p;
    }

    fn size(&self) -> (r: &Size2D<S>) {
        &self.size
    }

    fn set_size(&mut self, sz: Size2D<S>) {
        self.size = sz;
    }

    fn border(&self) -> (r: S) {
        self.border
    }

    fn set_border(&mut self, width: S) {
        self.border = width;
    }

    fn margin(&self) -> (r: S) {
        self.margin
    }

    fn set_margin(&mut self, width: S) {
        self.margin = width;
    }

    fn padding(&self) -> (r: S) {
        self.padding
    }

    fn set_padding(&mut self, width: S) {
        self.padding = width;
    }
}

/// A pair written as `<x>x<y>`.
pub open spec fn pair_text(p: Point2D<String>) -> Seq<char> {
    p.x@ + "x"@ + p.y@
}

/// The first line of the diagram: margin and padding on both sides of the size.
pub open spec fn size_line(l: LayoutData<String>) -> Seq<char> {
    l.margin@ + " | "@ + l.padding@ + " [    "@ + pair_text(l.size) + "    ] "@ + l.padding@
        + " | "@ + l.margin@ + "\n"@
}

/// The second line of the diagram: the border on both sides of the position.
pub open spec fn position_line(l: LayoutData<String>) -> Seq<char> {
    "  "@ + l.border@ + " [   @"@ + pair_text(l.pos) + "    ] "@ + l.border@ + "  \n"@
}

fn push_pair(out: &mut String, p: &Point2D<String>)
    ensures
        final(out)@ == old(out)@ + pair_text(*p),
{
    out.append(p.x.as_str());
    out.append("x");
    out.append(p.y.as_str());
}

/// The two-line diagram of a layout whose lengths have each been written out
/// as text: margin, padding and size on the first line, border and position
/// on the second, each line ending in a newline.
pub fn debug_text(l: &LayoutData<String>) -> (r: String)
    ensures
        r@ == size_line(*l) + position_line(*l),
{
    let mut out = String::from_str(l.margin.as_str());
    out.append(" | ");
    out.append(l.padding.as_str());
    out.append(" [    ");
    push_pair(&mut out, &l.size);
    out.append("    ] ");
    out.append(l.padding.as_str());
    out.append(" | ");
    out.append(l.margin.as_str());
    out.append("\n");
    out.append("  ");
    out.append(l.border.as_str());
    out.append(" [   @");
    push_pair(&mut out, &l.pos);
    out.append("    ] ");
    out.append(l.border.as_str());
    out.append("  \n");
    out
}

} // verus!
