use ftk::button::{FtkButton, Renderable};
use ftk::control::{Control, ControlData};
use ftk::layout::{debug_text, HasLayout, LayoutData, Point2D};
use ftk::text::{HasText, TextData};
use ftk::tree::{AttachError, ControlTree};

fn demo_button() -> FtkButton<f64> {
    let mut b = FtkButton::new(0.0);
    b.set_text("Click me!".to_string());
    b.set_position(Point2D { x: 30.0, y: 30.0 });
    b.set_size(Point2D { x: 100.0, y: 50.0 });
    b.set_padding(8.0);
    b.set_border(1.0);
    b
}

fn written(l: &LayoutData<f64>) -> LayoutData<String> {
    LayoutData {
        pos: Point2D { x: format!("{}", l.pos.x), y: format!("{}", l.pos.y) },
        size: Point2D { x: format!("{}", l.size.x), y: format!("{}", l.size.y) },
        border: format!("{}", l.border),
        margin: format!("{}", l.margin),
        padding: format!("{}", l.padding),
    }
}

#[test]
fn text_data_starts_empty() {
    let t = TextData::new();
    assert_eq!(t.text(), "");
}

#[test]
fn text_data_set_then_read() {
    let mut t = TextData::new();
    t.set_text("hello".to_string());
    assert_eq!(t.text(), "hello");
    t.set_text("".to_string());
    assert_eq!(t.text(), "");
}

#[test]
fn button_text_round_trip() {
    let mut b = FtkButton::new(0.0);
    b.set_text("Click me!".to_string());
    assert_eq!(HasText::text(&b), "Click me!");
    b.set_text("Again".to_string());
    assert_eq!(HasText::text(&b), "Again");
}

#[test]
fn control_data_starts_detached() {
    let c = ControlData::new();
    assert!(c.id().is_none());
    assert!(c.parent().is_none());
    assert!(c.children().is_empty());
}

#[test]
fn control_setters_change_one_field() {
    let mut c = ControlData::new();
    c.set_id(Some("ok".to_string()));
    assert_eq!(c.id().as_deref(), Some("ok"));
    c.set_parent(Some(3));
    assert_eq!(*c.parent(), Some(3));
    c.children_mut().push(5);
    c.children_mut().push(7);
    assert_eq!(c.children(), &vec![5, 7]);
    assert_eq!(c.id().as_deref(), Some("ok"));
    assert_eq!(*c.parent(), Some(3));
    c.set_id(None);
    assert!(c.id().is_none());
}

#[test]
fn layout_starts_at_zero() {
    let l = LayoutData::new(0.0);
    assert_eq!(l.position().x, 0.0);
    assert_eq!(l.position().y, 0.0);
    assert_eq!(l.size().x, 0.0);
    assert_eq!(l.size().y, 0.0);
    assert_eq!(l.border(), 0.0);
    assert_eq!(l.margin(), 0.0);
    assert_eq!(l.padding(), 0.0);
}

#[test]
fn layout_reads_back_last_values() {
    let mut l = LayoutData::new(0.0);
    l.set_position(Point2D { x: 1.5, y: 2.5 });
    l.set_size(Point2D { x: 10.0, y: 20.0 });
    l.set_border(1.0);
    l.set_margin(2.0);
    l.set_padding(3.0);
    l.set_margin(4.0);
    assert_eq!(l.position().x, 1.5);
    assert_eq!(l.position().y, 2.5);
    assert_eq!(l.size().x, 10.0);
    assert_eq!(l.size().y, 20.0);
    assert_eq!(l.border(), 1.0);
    assert_eq!(l.margin(), 4.0);
    assert_eq!(l.padding(), 3.0);
}

#[test]
fn button_layout_reads_back_and_keeps_text() {
    let b = demo_button();
    assert_eq!(b.position().x, 30.0);
    assert_eq!(b.position().y, 30.0);
    assert_eq!(b.size().x, 100.0);
    assert_eq!(b.size().y, 50.0);
    assert_eq!(b.padding(), 8.0);
    assert_eq!(b.border(), 1.0);
    assert_eq!(b.margin(), 0.0);
    assert_eq!(HasText::text(&b), "Click me!");
}

#[test]
fn layout_diagram_of_demo_button() {
    let b = demo_button();
    assert_eq!(
        debug_text(&written(&b.layout)),
        "0 | 8 [    100x50    ] 8 | 0\n  1 [   @30x30    ] 1  \n"
    );
}

#[test]
fn layout_diagram_of_fresh_layout() {
    let l = LayoutData::new(0.0);
    assert_eq!(
        debug_text(&written(&l)),
        "0 | 0 [    0x0    ] 0 | 0\n  0 [   @0x0    ] 0  \n"
    );
}

#[test]
fn render_click_me() {
    let b = demo_button();
    assert_eq!(b.render(), "I'm a button and I say: \"Click me!\"");
}

#[test]
fn render_empty_text() {
    let b: FtkButton<f64> = FtkButton::new(0.0);
    assert_eq!(b.render(), "I'm a button and I say: \"\"");
}

#[test]
fn tree_add_gives_handles_in_order() {
    let mut t = ControlTree::new();
    assert_eq!(t.len(), 0);
    assert_eq!(t.add(FtkButton::new(0.0)).ok(), Some(0));
    assert_eq!(t.add(demo_button()).ok(), Some(1));
    assert_eq!(t.len(), 2);
    assert_eq!(HasText::text(t.get(1)), "Click me!");
}

#[test]
fn tree_add_refuses_linked_widget() {
    let mut t = ControlTree::new();
    let mut b = FtkButton::new(0.0);
    b.set_parent(Some(0));
    let back = t.add(b);
    assert!(back.is_err());
    assert_eq!(t.len(), 0);
    let mut c = FtkButton::new(0.0);
    c.children_mut().push(0);
    assert!(t.add(c).is_err());
}

#[test]
fn tree_attach_links_both_sides() {
    let mut t = ControlTree::new();
    let p = t.add(FtkButton::new(0.0)).ok().unwrap();
    let c = t.add(FtkButton::new(0.0)).ok().unwrap();
    let d = t.add(FtkButton::new(0.0)).ok().unwrap();
    assert_eq!(t.attach(c, p), Ok(()));
    assert_eq!(t.attach(d, p), Ok(()));
    assert_eq!(*t.get(c).parent(), Some(p));
    assert_eq!(*t.get(d).parent(), Some(p));
    assert_eq!(t.get(p).children(), &vec![c, d]);
    assert!(t.get(p).parent().is_none());
}

#[test]
fn tree_attach_errors() {
    let mut t = ControlTree::new();
    let a = t.add(FtkButton::new(0.0)).ok().unwrap();
    let b = t.add(FtkButton::new(0.0)).ok().unwrap();
    let c = t.add(FtkButton::new(0.0)).ok().unwrap();
    assert_eq!(t.attach(a, 9), Err(AttachError::NoSuchWidget));
    assert_eq!(t.attach(9, a), Err(AttachError::NoSuchWidget));
    assert_eq!(t.attach(a, a), Err(AttachError::SameWidget));
    assert_eq!(t.attach(b, a), Ok(()));
    assert_eq!(t.attach(b, c), Err(AttachError::HasParent));
    assert_eq!(*t.get(b).parent(), Some(a));
    assert!(t.get(c).children().is_empty());
    assert_eq!(t.attach(c, b), Ok(()));
    assert_eq!(t.attach(a, c), Err(AttachError::Cycle));
    assert_eq!(t.attach(a, b), Err(AttachError::Cycle));
    assert!(t.get(a).parent().is_none());
}
