use skryn::gui::properties::{
    Align, Button, ButtonState, IdGenerator, Modifiers, Overflow, Properties, Property,
    PropertyKind, Rgba, Unit,
};

fn bits(x: f32) -> u32 {
    x.to_bits()
}

#[test]
fn new_properties_are_empty() {
    let p = Properties::new();
    assert!(p.get(&Property::Size(0)).is_none());
    assert!(p.get_kind(PropertyKind::Enabled).is_none());
}

#[test]
fn default_sets_the_default_style() {
    let mut p = Properties::new();
    p.default();
    assert_eq!(p.get_size(), 12);
    assert_eq!(p.get_family(), "Arial");
    assert!(matches!(p.get_left(), Unit::Stretch(l) if l == bits(0.0)));
    assert!(matches!(p.get_width(), Unit::Stretch(w) if w == bits(1.0)));
    assert!(matches!(p.get_height(), Unit::Stretch(h) if h == bits(1.0)));
    assert!(matches!(p.get_top(), Unit::Stretch(t) if t == bits(0.0)));
    let c = p.get_color();
    assert_eq!((c.r, c.g, c.b, c.a), (bits(0.2), bits(0.2), bits(0.2), bits(1.0)));
    let bg = p.get_bg_color();
    assert_eq!((bg.r, bg.g, bg.b, bg.a), (bits(1.0), bits(1.0), bits(1.0), bits(1.0)));
    let fbg = p.get_focus_bg_color();
    assert_eq!(fbg.r, bits(0.9));
    let dbg = p.get_disabled_bg_color();
    assert_eq!(dbg.g, bits(0.8));
    assert_eq!(p.get_overflow_x(), Overflow::Hidden);
    assert_eq!(p.get_overflow_y(), Overflow::Hidden);
    assert!(p.get_enabled());
    assert!(p.get_kind(PropertyKind::HoverColor).is_none());
    assert!(p.get_kind(PropertyKind::TextAlign).is_none());
}

#[test]
fn set_replaces_the_property_of_the_same_kind() {
    let mut p = Properties::new();
    p.default();
    p.set(Property::Size(20)).set(Property::Size(30));
    assert_eq!(p.get_size(), 30);
    p.set(Property::Family(String::from("Mono")));
    assert_eq!(p.get_family(), "Mono");
    assert_eq!(p.get_size(), 30);
    p.set(Property::TextAlign(Align::Middle));
    assert_eq!(p.get_text_align(), Align::Middle);
}

#[test]
fn get_finds_by_kind() {
    let mut p = Properties::new();
    p.set(Property::Height(Unit::Pixel(bits(25.0))));
    match p.get(&Property::Height(Unit::Natural)) {
        Some(Property::Height(Unit::Pixel(h))) => assert_eq!(*h, bits(25.0)),
        _ => panic!("height not found"),
    }
    assert!(p.get(&Property::Width(Unit::Natural)).is_none());
}

#[test]
fn properties_and_units_compare_by_kind() {
    assert!(Property::Size(1) == Property::Size(2));
    assert!(Property::Size(1) != Property::Enabled(true));
    assert!(Unit::Pixel(bits(1.0)) == Unit::Pixel(bits(2.0)));
    assert!(Unit::Pixel(bits(1.0)) != Unit::Stretch(bits(1.0)));
}

#[test]
fn duplicate_copies_every_property() {
    let mut p = Properties::new();
    p.default();
    p.set(Property::HoverBgColor(Rgba::new(1, 2, 3, 4)));
    let q = p.duplicate();
    assert_eq!(q.get_family(), "Arial");
    let h = q.get_hover_bg_color();
    assert_eq!((h.r, h.g, h.b, h.a), (1, 2, 3, 4));
}

#[test]
fn id_generator_counts_up_and_restarts() {
    let mut g = IdGenerator::new(5);
    assert_eq!(g.get(), 6);
    assert_eq!(g.get(), 7);
    g.zero();
    assert_eq!(g.get(), 1);
    assert_eq!(g.get(), 2);
}

#[test]
fn input_descriptions_compare() {
    let m = Modifiers { shift: true, ctrl: false, alt: false, logo: false };
    assert_eq!(m, Modifiers { shift: true, ctrl: false, alt: false, logo: false });
    assert_ne!(ButtonState::Pressed, ButtonState::Released);
    assert_ne!(Button::Left, Button::Right);
}
