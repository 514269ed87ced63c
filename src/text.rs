//! The text aspect of a widget: one string, empty at first.
use vstd::prelude::*;
use vstd::string::StringExecFns;

verus! {

/// Operations of a widget that shows a piece of text.
pub trait HasText {
    /// The text that the widget currently holds.
    spec fn text_view(&self) -> Seq<char>;

    fn text(&self) -> (r: &str)
        ensures
            r@ == self.text_view(),
    ;

    fn set_text(&mut self, text: String)
        ensures
            final(self).text_view() == text@,
    ;
}

/// Holds the text of a widget.
pub struct TextData {
    pub text: String,
}

impl View for TextData {
    type V = Seq<char>;

    open spec fn view(&self) -> Seq<char> {
        self.text@
    }
}

impl TextData {
    /// A text aspect that holds the empty string.
    pub fn new() -> (r: TextData)
        ensures
            r@ == Seq::<char>::empty(),
    {
        proof {
            reveal_strlit("");
        }
        TextData { text: String::from_str("") }
    }

    pub fn text(&self) -> (r: &str)
        ensures
            r@ == self@,
    {
        self.text.as_str()
    }

    pub fn set_text(&mut self, text: String)
        ensures
            final(self)@ == text@,
    {
        self.text = text;
    }
}

impl HasText for TextData {
    open spec fn text_view(&self) -> Seq<char> {
        self@
    }

    fn text(&self) -> (r: &str) {
        TextData::text(self)
    }

    fn set_text(&mut self, text: String) {
        TextData::set_text(self, text)
    }
}

} // verus!
