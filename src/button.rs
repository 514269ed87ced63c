//! A push button, composed of a tree aspect, a text aspect and a layout
//! aspect. Every operation of an aspect is forwarded to the part that holds
//! it, and leaves the other parts as they were.
use vstd::prelude::*;
use vstd::string::StringExecFns;
use crate::control::{Control, ControlData, ControlView};
use crate::layout::{HasLayout, LayoutData, Point2D, Size2D};
use crate::text::{HasText, TextData};

verus! {

/// Something that can be drawn; here, drawn as one line of text.
pub trait Renderable {
    /// The line that draws the widget, without a line break.
    spec fn rendering(&self) -> Seq<char>;

    fn render(&self) -> (r: String)
        ensures
            r@ == self.rendering(),
    ;
}

/// A widget with a place in a tree, a text, and a way to be drawn.
pub trait Button: Control + HasText + Renderable {}

/// The line that draws a button with text `t`: `I'm a button and I say: "<t>"`.
pub open spec fn button_line(t: Seq<char>) -> Seq<char> {
    "I'm a button and I say: \""@ + t + "\""@
}

/// What a button holds, aspect by aspect.
pub ghost struct ButtonView<S> {
    pub control: ControlView,
    pub text: Seq<char>,
    pub layout: LayoutData<S>,
}

/// A button with lengths measured in `S`.
pub struct FtkButton<S> {
    pub ctrl: ControlData,
    pub text: TextData,
    pub layout: LayoutData<S>,
}

impl<S> View for FtkButton<S> {
    type V = ButtonView<S>;

    open spec fn view(&self) -> ButtonView<S> {
        ButtonView { control: self.ctrl@, text: self.text@, layout: self.layout }
    }
}

impl<S: Copy> FtkButton<S> {
    /// A button outside any tree, with empty text, at the origin, with every
    /// length equal to `zero`.
    pub fn new(zero: S) -> (r: FtkButton<S>)
        ensures
            r@ == (ButtonView {
                control: ControlView { id: None, parent: None, children: Seq::empty() },
                text: Seq::<char>::empty(),
                layout: LayoutData {
                    pos: Point2D { x: zero, y: zero },
                    size: Point2D { x: zero, y: zero },
                    border: zero,
                    margin: zero,
                    padding: zero,
                },
            }),
    {
        FtkButton { ctrl: ControlData::new(), text: TextData::new(), layout: LayoutData::new(zero) }
    }
}

impl<S> Control for FtkButton<S> {
    open spec fn control_view(&self) -> ControlView {
        self.ctrl@
    }

    fn id(&self) -> (r: &Option<String>) {
        self.ctrl.id()
    }

    fn set_id(&mut self, id: Option<String>)
        ensures
            final(self)@ == (ButtonView { control: final(self).ctrl@, ..old(self)@ }),
    {
        self.ctrl.set_id(id);
    }

    fn parent(&self) -> (r: &Option<usize>) {
        self.ctrl.parent()
    }

    fn set_parent(&mut self, parent: Option<usize>)
        ensures
            final(self)@ == (ButtonView { control: final(self).ctrl@, ..old(self)@ }),
    {
        self.ctrl.set_parent(parent);
    }

    fn children(&self) -> (r: &Vec<usize>) {
        self.ctrl.children()
    }

    fn children_mut(&mut self) -> (r: &mut Vec<usize>)
        ensures
            final(self)@ == (ButtonView { control: final(self).ctrl@, ..old(self)@ }),
    {
        self.ctrl.children_mut()
    }
}

impl<S> HasText for FtkButton<S> {
    open spec fn text_view(&self) -> Seq<char> {
        self.text@
    }

    fn text(&self) -> (r: &str) {
        self.text.text()
    }

    fn set_text(&mut self, text: String)
        ensures
            final(self)@ == (ButtonView { text: text@, ..old(self)@ }),
    {
        self.text.set_text(text);
    }
}

impl<S: Copy> HasLayout<S> for FtkButton<S> {
    open spec fn layout_view(&self) -> LayoutData<S> {
        self.layout
    }

    fn position(&self) -> (r: &Point2D<S>) {
        self.layout.position()
    }

    fn set_position(&mut self, p: Point2D<S>)
        ensures
            final(self)@ == (ButtonView { layout: final(self).layout, ..old(self)@ }),
    {
        self.layout.set_position(p);
    }

    fn size(&self) -> (r: &Size2D<S>) {
        self.layout.size()
    }

    fn set_size(&mut self, sz: Size2D<S>)
        ensures
            final(self)@ == (ButtonView { layout: final(self).layout, ..old(self)@ }),
    {
        self.layout.set_size(sz);
    }

    fn border(&self) -> (r: S) {
        self.layout.border()
    }

    fn set_border(&mut self, width: S)
        ensures
            final(self)@ == (ButtonView { layout: final(self).layout, ..old(self)@ }),
    {
        self.layout.set_border(width);
    }

    fn margin(&self) -> (r: S) {
        self.layout.margin()
    }

    fn set_margin(&mut self, width: S)
        ensures
            final(self)@ == (ButtonView { layout: final(self).layout, ..old(self)@ }),
    {
        self.layout.set_margin(width);
    }

    fn padding(&self) -> (r: S) {
        self.layout.padding()
    }

    fn set_padding(&mut self, width: S)
        ensures
            final(self)@ == (ButtonView { layout: final(self).layout, ..old(self)@ }),
    {
        self.layout.set_padding(width);
    }
}

impl<S> Renderable for FtkButton<S> {
    open spec fn rendering(&self) -> Seq<char> {
        button_line(self.text@)
    }

    fn render(&self) -> (r: String) {
        let mut out = String::from_str("I'm a button and I say: \"");
        out.append(self.text());
        out.append("\"");
        out
    }
}

impl<S> Button for FtkButton<S> {}

} // verus!
