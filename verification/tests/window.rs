use skryn::elements::{ItemTag, PrimitiveEvent};
use skryn::gui::properties::{self, LogicalSize, Modifiers, Position};
use skryn::gui::window::{
    action_for, frame_millis, sleep_millis, HoverTags, PointerState, WindowAction, WindowInput,
};

fn mods() -> Modifiers {
    Modifiers { shift: false, ctrl: false, alt: false, logo: false }
}

#[test]
fn hover_tags_report_entered_and_left() {
    let mut h = HoverTags::new();
    // hits come innermost first
    let (new, old) = h.get_tags(&vec![(2, 0), (1, 0)]);
    assert_eq!(new, vec![(1, 0), (2, 0)]);
    assert!(old.is_empty());
    assert_eq!(h.tags(), vec![(1, 0), (2, 0)]);
    let (new, old) = h.get_tags(&vec![(3, 0), (1, 0)]);
    assert_eq!(new, vec![(3, 0)]);
    assert_eq!(old, vec![(2, 0)]);
    let (new, old) = h.get_tags(&vec![(3, 0), (1, 0)]);
    assert!(new.is_empty() && old.is_empty());
    h.clear();
    assert!(h.tags().is_empty());
    let (new, old) = h.get_tags(&vec![]);
    assert!(new.is_empty() && old.is_empty());
}

fn run(s: &mut PointerState, input: WindowInput, over: bool) -> Vec<PrimitiveEvent> {
    let mut events = Vec::new();
    s.take_input(input, over, &mut events);
    events
}

#[test]
fn pointer_moves_count_only_inside_the_window() {
    let mut s = PointerState::new(1.0f64.to_bits());
    let p = Position { x: 10.0f32.to_bits(), y: 20.0f32.to_bits() };
    assert!(run(&mut s, WindowInput::CursorMoved(p), false).is_empty());
    assert!(run(&mut s, WindowInput::CursorEntered, false).is_empty());
    assert!(s.cursor_in_window);
    let e = run(&mut s, WindowInput::CursorMoved(p), false);
    assert!(matches!(e.as_slice(), [PrimitiveEvent::CursorMoved(q)] if q.x == p.x && q.y == p.y));
    assert!(run(&mut s, WindowInput::CursorLeft, false).is_empty());
    assert!(!s.cursor_in_window);
    assert_eq!(f32::from_bits(s.cursor_position.x), -1.0);
    assert_eq!(f32::from_bits(s.cursor_position.y), -1.0);
}

#[test]
fn left_release_over_items_takes_focus_first() {
    let mut s = PointerState::new(0);
    let input = WindowInput::MouseInput(properties::ButtonState::Released, properties::Button::Left, mods());
    let e = run(&mut s, input, true);
    assert_eq!(e.len(), 2);
    assert!(matches!(e[0], PrimitiveEvent::SetFocus(true)));
    assert!(matches!(e[1], PrimitiveEvent::Button(_, properties::Button::Left, properties::ButtonState::Released, _)));
    let e = run(&mut s, input, false);
    assert_eq!(e.len(), 1);
    let press = WindowInput::MouseInput(properties::ButtonState::Pressed, properties::Button::Left, mods());
    assert_eq!(run(&mut s, press, true).len(), 1);
}

#[test]
fn escape_takes_focus_other_characters_are_typed() {
    let mut s = PointerState::new(0);
    let e = run(&mut s, WindowInput::ReceivedCharacter('\u{1b}'), false);
    assert!(matches!(e.as_slice(), [PrimitiveEvent::SetFocus(false)]));
    let e = run(&mut s, WindowInput::ReceivedCharacter('q'), false);
    assert!(matches!(e.as_slice(), [PrimitiveEvent::Char('q')]));
}

#[test]
fn other_inputs() {
    let mut s = PointerState::new(0);
    assert!(matches!(run(&mut s, WindowInput::CloseRequested, false).as_slice(), [PrimitiveEvent::Exit]));
    let e = run(&mut s, WindowInput::HiDpiFactorChanged(2.0f64.to_bits()), false);
    assert!(matches!(e.as_slice(), [PrimitiveEvent::DPI(d)] if *d == 2.0f64.to_bits()));
    assert_eq!(s.dpi, 2.0f64.to_bits());
    let size = LogicalSize { width: 300.0f64.to_bits(), height: 200.0f64.to_bits() };
    assert!(matches!(run(&mut s, WindowInput::Resized(size), false).as_slice(), [PrimitiveEvent::Resized(_)]));
    let key = WindowInput::KeyboardInput(30, properties::ButtonState::Pressed, Some(4), mods());
    assert!(matches!(run(&mut s, key, false).as_slice(), [PrimitiveEvent::KeyInput(Some(4), 30, _, _)]));
    assert!(run(&mut s, WindowInput::MouseWheel, false).is_empty());
    assert!(run(&mut s, WindowInput::Awakened, false).is_empty());
    assert!(run(&mut s, WindowInput::Other, false).is_empty());
}

#[test]
fn window_actions() {
    assert!(matches!(action_for(&PrimitiveEvent::CursorLeft), WindowAction::ClearTags));
    assert!(matches!(action_for(&PrimitiveEvent::SetFocus(false)), WindowAction::ToRoot(false)));
    assert!(matches!(action_for(&PrimitiveEvent::SetFocus(true)), WindowAction::ToRoot(true)));
    assert!(matches!(action_for(&PrimitiveEvent::Char('a')), WindowAction::ToRoot(true)));
    assert!(matches!(action_for(&PrimitiveEvent::Exit), WindowAction::Ignore));
    let tags: Vec<ItemTag> = vec![(1, 1)];
    assert!(matches!(action_for(&PrimitiveEvent::HoverBegin(tags)), WindowAction::Ignore));
    let size = LogicalSize { width: 1, height: 2 };
    assert!(matches!(action_for(&PrimitiveEvent::Resized(size)), WindowAction::Resize(s) if s.width == 1 && s.height == 2));
}

#[test]
fn frame_timing() {
    assert_eq!(frame_millis(60), 16);
    assert_eq!(frame_millis(1), 1000);
    assert_eq!(sleep_millis(16, 5), 11);
    assert_eq!(sleep_millis(16, 16), 0);
    assert_eq!(sleep_millis(16, 40), 0);
}
