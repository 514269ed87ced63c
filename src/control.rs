//! The tree aspect of a widget: an optional identifier, an optional link to
//! the parent, and the ordered list of children.
//!
//! Widgets live in a container (see `tree`) and refer to one another by
//! handle, the position of the widget in that container. A handle held as a
//! parent is a plain lookup key: it keeps nothing alive.
use vstd::prelude::*;

verus! {

/// What a widget's tree aspect holds, as mathematical values.
pub ghost struct ControlView {
    pub id: Option<Seq<char>>,
    pub parent: Option<usize>,
    pub children: Seq<usize>,
}

/// The identifier as a sequence of characters.
pub open spec fn id_view(id: Option<String>) -> Option<Seq<char>> {
    match id {
        Some(s) => Some(s@),
        None => None,
    }
}

/// Operations of a widget that takes part in a tree of widgets.
///
/// Each setter changes its own field only. `set_parent` in particular does not
/// add the widget to the new parent's children: a link that both sides agree
/// on is made by `ControlTree::attach`, which holds the one mutable view of
/// both widgets that such a change needs.
pub trait Control {
    spec fn control_view(&self) -> ControlView;

    fn id(&self) -> (r: &Option<String>)
        ensures
            id_view(*r) == self.control_view().id,
    ;

    fn set_id(&mut self, id: Option<String>)
        ensures
            final(self).control_view() == (ControlView { id: id_view(id), ..old(self).control_view() }),
    ;

    fn parent(&self) -> (r: &Option<usize>)
        ensures
            *r == self.control_view().parent,
    ;

    fn set_parent(&mut self, parent: Option<usize>)
        ensures
            final(self).control_view() == (ControlView { parent, ..old(self).control_view() }),
    ;

    fn children(&self) -> (r: &Vec<usize>)
        ensures
            r@ == self.control_view().children,
    ;

    fn children_mut(&mut self) -> (r: &mut Vec<usize>)
        ensures
            r@ == old(self).control_view().children,
            final(self).control_view() == (ControlView { children: final(r)@, ..old(self).control_view() }),
    ;
}

/// Holds the tree aspect of a widget.
pub struct ControlData {
    pub id_: Option<String>,
    pub parent_: Option<usize>,
    pub children_: Vec<usize>,
}

impl View for ControlData {
    type V = ControlView;

    open spec fn view(&self) -> ControlView {
        ControlView { id: id_view(self.id_), parent: self.parent_, children: self.children_@ }
    }
}

impl ControlData {
    /// A widget with no identifier, no parent and no children.
    pub fn new() -> (r: ControlData)
        ensures
            r@ == (ControlView { id: None, parent: None, children: Seq::empty() }),
    {
        ControlData { id_: None, parent_: None, children_: Vec::new() }
    }
}

impl Control for ControlData {
    open spec fn control_view(&self) -> ControlView {
        self@
    }

    fn id(&self) -> (r: &Option<String>) {
        &self.id_
    }

    fn set_id(&mut self, id: Option<String>) {
        self.id_ = id;
    }

    fn parent(&self) -> (r: &Option<usize>) {
        &self.parent_
    }

    fn set_parent(&mut self, parent: Option<usize>) {
        self.parent_ = parent;
    }

    fn children(&self) -> (r: &Vec<usize>) {
        &self.children_
    }

    fn children_mut(&mut self) -> (r: &mut Vec<usize>) {
        &mut self.children_
    }
}

} // verus!
