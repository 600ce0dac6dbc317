use skryn::elements::button::Button;
use skryn::elements::container::{counts, fallback, route, stops_after, Forward, Slot};
use skryn::elements::textbox::{TextBox, BACKSPACE, COPY, DELETE, PASTE};
use skryn::elements::{CanDisable, ElementEvent, Image, ImagePath, ItemTag, PrimitiveEvent, Reaction};
use skryn::gui::properties::{self, IdGenerator, Modifiers, Position, Property, PropertyKind, Unit};

fn mods() -> Modifiers {
    Modifiers { shift: false, ctrl: false, alt: false, logo: false }
}

fn origin() -> Position {
    Position { x: 0, y: 0 }
}

fn click(state: properties::ButtonState) -> PrimitiveEvent {
    PrimitiveEvent::Button(origin(), properties::Button::Left, state, mods())
}

fn focused(text: &str) -> TextBox {
    let mut t = TextBox::new(text.to_string());
    let r = ev(&mut t, &[], PrimitiveEvent::SetFocus(true), None);
    assert_eq!(r, Reaction::RunHandler(ElementEvent::FocusChange));
    t
}

fn ev(t: &mut TextBox, ext_ids: &[ItemTag], e: PrimitiveEvent, hit: Option<(usize, bool)>) -> Reaction {
    let (r, copied) = t.on_primitive_event(ext_ids, e, hit, "");
    assert!(copied.is_none());
    r
}

fn type_char(t: &mut TextBox, c: char) -> Reaction {
    assert!(t.can_type(c, ""));
    ev(t, &[], PrimitiveEvent::Char(c), None)
}

#[test]
fn textbox_new_and_values() {
    let mut t = TextBox::new("hello".to_string());
    assert_eq!(t.get_value(), "hello");
    assert!(t.get_editable());
    assert!(t.get_enabled());
    assert_eq!(t.get_placeholder(), "");
    assert!(matches!(t.properties().get_height(), Unit::Natural));
    assert_eq!(t.properties().get_size(), 12);
    t.set_value("سِتار".to_string());
    assert_eq!(t.get_value(), "سِتار");
    t.append_value("-Guitar");
    assert_eq!(t.get_value(), "سِتار-Guitar");
    t.set_placeholder("<enter name here>".to_string());
    assert_eq!(t.get_placeholder(), "<enter name here>");
    assert_eq!(t.get_cursor_index(), (0, false));
}

#[test]
fn textbox_read_only_loses_focus_and_ignores_typing() {
    let mut t = focused("ab");
    t.set_editable(false);
    assert!(!t.get_editable());
    assert!(!t.shows_cursor());
    assert_eq!(type_char(&mut t, 'x'), Reaction::Handled(false));
    assert_eq!(t.get_value(), "ab");
}

#[test]
fn textbox_without_click_does_not_insert() {
    let mut t = focused("ab");
    assert_eq!(type_char(&mut t, 'x'), Reaction::Handled(true));
    assert_eq!(t.get_value(), "ab");
    // delete with the cursor at the start removes the first character
    assert_eq!(type_char(&mut t, DELETE), Reaction::Handled(true));
    assert_eq!(t.get_value(), "b");
    // backspace at the start removes nothing
    type_char(&mut t, BACKSPACE);
    assert_eq!(t.get_value(), "b");
}

#[test]
fn textbox_click_places_cursor_and_typing_inserts() {
    let mut t = focused("ac");
    t.take_id(&mut IdGenerator::new(6));
    assert_eq!(t.get_ext_id(), 7);
    let tags: Vec<ItemTag> = vec![(7, 0)];
    let r = ev(&mut t, &tags, click(properties::ButtonState::Pressed), Some((0, true)));
    assert_eq!(r, Reaction::Handled(false));
    let r = ev(&mut t, &tags, click(properties::ButtonState::Released), Some((0, true)));
    assert_eq!(r, Reaction::RunHandler(ElementEvent::Clicked));
    assert_eq!(t.get_cursor_index(), (0, true));
    type_char(&mut t, 'b');
    assert_eq!(t.get_value(), "abc");
    type_char(&mut t, '\r');
    assert_eq!(t.get_value(), "ab\nc");
    type_char(&mut t, PASTE);
    assert_eq!(t.get_value(), "ab\nc");
    assert_eq!(t.cursor(), (2, true));
    type_char(&mut t, BACKSPACE);
    assert_eq!(t.get_value(), "abc");
    type_char(&mut t, BACKSPACE);
    assert_eq!(t.get_value(), "ac");
    type_char(&mut t, DELETE);
    assert_eq!(t.get_value(), "a");
}

#[test]
fn textbox_paste_inserts_at_the_cursor_and_copy_hands_out_the_text() {
    let mut t = focused("ad");
    let tags: Vec<ItemTag> = vec![(0, 0)];
    ev(&mut t, &tags, click(properties::ButtonState::Released), Some((0, true)));
    assert!(t.can_type(PASTE, "bc"));
    let (r, copied) = t.on_primitive_event(&[], PrimitiveEvent::Char(PASTE), None, "bc");
    assert_eq!(r, Reaction::Handled(true));
    assert!(copied.is_none());
    assert_eq!(t.get_value(), "abcd");
    assert_eq!(t.cursor(), (2, true));
    type_char(&mut t, 'x');
    assert_eq!(t.get_value(), "abcxd");
    let (r, copied) = t.on_primitive_event(&[], PrimitiveEvent::Char(COPY), None, "");
    assert_eq!(r, Reaction::Handled(true));
    assert_eq!(copied, Some("abcxd".to_string()));
    assert_eq!(t.get_value(), "abcxd");
    // a box that takes no input neither pastes nor copies
    t.set_editable(false);
    let (r, copied) = t.on_primitive_event(&[], PrimitiveEvent::Char(COPY), None, "");
    assert_eq!(r, Reaction::Handled(false));
    assert!(copied.is_none());
    let (_, _) = t.on_primitive_event(&[], PrimitiveEvent::Char(PASTE), None, "zz");
    assert_eq!(t.get_value(), "abcxd");
}

#[test]
fn textbox_paste_before_any_click_goes_to_the_start() {
    let mut t = focused("yz");
    let (_, _) = t.on_primitive_event(&[], PrimitiveEvent::Char(PASTE), None, "wx");
    assert_eq!(t.get_value(), "wxyz");
    assert_eq!(t.cursor(), (2, false));
}

#[test]
fn textbox_typing_past_the_end_is_refused() {
    let mut t = focused("abc");
    let tags: Vec<ItemTag> = vec![(0, 0)];
    ev(&mut t, &tags, click(properties::ButtonState::Released), Some((2, true)));
    t.set_value(String::from("a"));
    assert!(!t.can_type(BACKSPACE, ""));
    assert!(!t.can_type('x', ""));
    assert!(t.can_type(DELETE, ""));
    // a click that finds no character of the text leaves the cursor
    ev(&mut t, &tags, click(properties::ButtonState::Released), Some((5, false)));
    assert_eq!(t.get_cursor_index(), (2, true));
    ev(&mut t, &tags, click(properties::ButtonState::Released), Some((0, false)));
    assert_eq!(t.get_cursor_index(), (0, false));
    assert_eq!(t.cursor(), (0, false));
}

#[test]
fn textbox_hover_focus_and_colours() {
    let mut t = TextBox::new(String::new());
    t.set_placeholder("name".to_string());
    assert_eq!(t.colors(), (PropertyKind::DisabledColor, PropertyKind::BgColor));
    assert_eq!(t.shown_value(), "name".chars().collect::<Vec<char>>());
    ev(&mut t, &[], PrimitiveEvent::HoverBegin(vec![(0, 0)]), None);
    assert_eq!(t.colors(), (PropertyKind::HoverColor, PropertyKind::HoverBgColor));
    ev(&mut t, &[], PrimitiveEvent::HoverEnd(vec![(0, 0)]), None);
    assert_eq!(t.colors(), (PropertyKind::DisabledColor, PropertyKind::BgColor));
    ev(&mut t, &[], PrimitiveEvent::SetFocus(true), None);
    assert_eq!(t.colors(), (PropertyKind::FocusColor, PropertyKind::FocusBgColor));
    assert_eq!(
        ev(&mut t, &[], PrimitiveEvent::SetFocus(true), None),
        Reaction::Handled(false)
    );
    t.set_enabled(false);
    assert_eq!(t.colors(), (PropertyKind::DisabledColor, PropertyKind::DisabledBgColor));
    assert_eq!(
        ev(&mut t, &[], PrimitiveEvent::SetFocus(false), None),
        Reaction::Handled(false)
    );
}

#[test]
fn textbox_password_shows_bullets() {
    let mut t = TextBox::new("pw".to_string());
    t.set_is_password(true);
    assert_eq!(t.shown_value(), vec!['\u{25cf}', '\u{25cf}']);
    t.set_singleline(true);
    t.set(Property::Size(20));
    assert_eq!(t.get_properties().get_size(), 20);
}

#[test]
fn button_click_needs_its_own_tag_alone() {
    let mut b = Button::new("Press".to_string());
    assert_eq!(b.get_value(), "Press");
    b.take_id(&mut IdGenerator::new(2));
    assert_eq!(b.get_ext_id(), 3);
    let own: Vec<ItemTag> = vec![(3, 0)];
    let nested: Vec<ItemTag> = vec![(3, 0), (4, 0)];
    assert_eq!(
        b.on_primitive_event(&own, click(properties::ButtonState::Released)),
        Reaction::RunHandler(ElementEvent::Clicked)
    );
    assert_eq!(
        b.on_primitive_event(&own, click(properties::ButtonState::Pressed)),
        Reaction::Handled(false)
    );
    assert_eq!(
        b.on_primitive_event(&nested, click(properties::ButtonState::Released)),
        Reaction::Handled(false)
    );
    b.set_enabled(false);
    assert!(!b.get_enabled());
    assert_eq!(
        b.on_primitive_event(&own, click(properties::ButtonState::Released)),
        Reaction::Handled(false)
    );
}

#[test]
fn button_style_hover_and_lines() {
    let mut b = Button::new("one\ntwo\n".to_string());
    assert_eq!(b.line_count(), 2);
    b.set_value("a\n\nb".to_string());
    assert_eq!(b.line_count(), 3);
    b.set_value(String::new());
    assert_eq!(b.line_count(), 0);
    let p = b.properties();
    let bg = p.get_bg_color();
    assert_eq!((bg.r, bg.g, bg.b), (0.8f32.to_bits(), 0.9f32.to_bits(), 0.9f32.to_bits()));
    assert_eq!(p.get_hover_bg_color().r, 0.6f32.to_bits());
    assert_eq!(b.colors(), (PropertyKind::Color, PropertyKind::BgColor));
    b.on_primitive_event(&[], PrimitiveEvent::HoverBegin(vec![(0, 1)]));
    assert_eq!(b.colors(), (PropertyKind::HoverColor, PropertyKind::HoverBgColor));
    b.on_primitive_event(&[], PrimitiveEvent::HoverEnd(vec![(9, 1)]));
    assert_eq!(b.colors(), (PropertyKind::HoverColor, PropertyKind::HoverBgColor));
    b.on_primitive_event(&[], PrimitiveEvent::HoverEnd(vec![(0, 1)]));
    assert_eq!(b.colors(), (PropertyKind::Color, PropertyKind::BgColor));
    b.set(Property::Size(30));
    assert_eq!(b.get_properties().get_size(), 30);
}

#[test]
fn container_routes_focus_to_the_tagged_child() {
    let tags: Vec<ItemTag> = vec![(1, 0), (2, 0)];
    let e = PrimitiveEvent::SetFocus(true);
    assert_eq!(route(&e, &tags, 1, 2, false), Forward::Focus);
    assert_eq!(route(&e, &tags, 1, 3, false), Forward::Blur);
    assert_eq!(route(&e, &tags, 5, 2, false), Forward::Blur);
    assert!(!counts(&e, Forward::Focus));
}

#[test]
fn container_routes_other_events() {
    let inner: Vec<ItemTag> = vec![(1, 0), (2, 0)];
    let own: Vec<ItemTag> = vec![(1, 0)];
    let c = PrimitiveEvent::Char('a');
    assert_eq!(route(&c, &[], 1, 2, true), Forward::Event);
    assert!(stops_after(&c, true));
    assert!(!stops_after(&c, false));
    let b = PrimitiveEvent::Button(origin(), properties::Button::Left, properties::ButtonState::Released, mods());
    assert_eq!(route(&b, &inner, 1, 2, false), Forward::EventInner);
    assert_eq!(route(&b, &own, 1, 2, false), Forward::Event);
    assert_eq!(route(&b, &[], 1, 2, false), Forward::Skip);
    assert_eq!(route(&b, &inner, 1, 2, true), Forward::Skip);
    assert!(counts(&b, Forward::EventInner));
    assert!(!stops_after(&b, true));
    assert_eq!(fallback(&b, false), Reaction::RunHandler(ElementEvent::Clicked));
    assert_eq!(fallback(&b, true), Reaction::Handled(true));
    assert_eq!(fallback(&c, false), Reaction::Handled(false));
}

#[test]
fn slot_swaps_its_child() {
    let mut s: Slot<u32> = Slot::new();
    assert_eq!(s.get(), None);
    assert_eq!(s.append(1), None);
    assert_eq!(s.append(2), Some(1));
    assert_eq!(s.get(), Some(&2));
    if let Some(c) = s.get_mut() {
        *c = 5;
    }
    assert_eq!(s.get(), Some(&5));
}

#[test]
fn images_come_from_local_files_that_were_read() {
    let local = ImagePath::Local(String::from("a.png"));
    assert_eq!(local.local_file(), Some(&String::from("a.png")));
    let url = ImagePath::URL(String::from("http://x/a.png"));
    assert_eq!(url.local_file(), None);
    let img = Image::from_read(local.clone(), Some(vec![1, 2, 3])).unwrap();
    assert_eq!(img.get_path(), &local);
    assert_eq!(img.get_bytes(), &vec![1, 2, 3]);
    assert!(Image::from_read(local, None).is_none());
    assert!(Image::from_read(url, Some(vec![1])).is_none());
}
