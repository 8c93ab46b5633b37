use defrag_simulator_rs::widgets::{Area, Button, ButtonState, Win98WindowWidget};

#[test]
fn area_inner_shrinks_and_saturates() {
    let a = Area::new(10, 20, 100, 50);
    let b = a.inner(4);
    assert_eq!(b.x, 14);
    assert_eq!(b.y, 24);
    assert_eq!(b.width, 92);
    assert_eq!(b.height, 42);
    let c = a.inner(30);
    assert_eq!(c.width, 40);
    assert_eq!(c.height, 0);
}

#[test]
fn area_contains_boundaries() {
    let a = Area::new(10, 20, 5, 5);
    assert!(a.contains(10, 20));
    assert!(a.contains(14, 24));
    assert!(!a.contains(15, 20));
    assert!(!a.contains(10, 25));
    assert!(!a.contains(9, 20));
}

#[test]
fn button_construction() {
    let b = Button::new(1, 2, 30, 10, "OK");
    assert_eq!(b.area, Area::new(1, 2, 30, 10));
    assert_eq!(b.text, "OK");
    assert_eq!(b.state, ButtonState::Normal);
    assert!(!b.is_default);
    let d = b.with_default();
    assert!(d.is_default);
    assert_eq!(d.text, "OK");
}

#[test]
fn window_widget_areas() {
    let w = Win98WindowWidget::new(100, 50, 400, 300, "Defragmenting Drive C");
    assert_eq!(w.title, "Defragmenting Drive C");
    assert!(w.active && w.has_minimize && w.has_maximize && w.has_close);
    let tb = w.title_bar_area();
    assert_eq!(tb, Area::new(103, 53, 394, 18));
    let ca = w.client_area();
    assert_eq!(ca, Area::new(104, 75, 392, 271));
}
