//! The bookkeeping of a window's event loop: which items the pointer is over,
//! how windowing-system input becomes primitive events, where each event goes,
//! and how long the loop sleeps between frames.
use vstd::prelude::*;

use crate::elements::element::{ItemTag, PrimitiveEvent};
use crate::gui::properties::{self, LogicalSize, Modifiers, Position};

verus! {

/// The bit pattern of `-1.0` as an `f32`: the pointer position once the pointer
/// left the window.
pub const F32_MINUS_ONE: u32 = 0xbf80_0000;

/// Whether a tag is not in `other`.
pub open spec fn absent_from(other: Seq<ItemTag>) -> spec_fn(ItemTag) -> bool {
    |t: ItemTag| !other.contains(t)
}

/// The tags of `s` that are not in `other`, in order.
pub open spec fn tags_not_in(s: Seq<ItemTag>, other: Seq<ItemTag>) -> Seq<ItemTag> {
    s.filter(absent_from(other))
}

/// The tags reported as newly under the pointer and those reported as left never
/// share a tag.
pub proof fn law_entered_and_left_are_disjoint(current: Seq<ItemTag>, previous: Seq<ItemTag>, t: ItemTag)
    ensures
        !(tags_not_in(current, previous).contains(t) && tags_not_in(previous, current).contains(t)),
{
    if tags_not_in(current, previous).contains(t) && tags_not_in(previous, current).contains(t) {
        current.lemma_filter_contains_rev(absent_from(previous), t);
        let j = choose|j: int| 0 <= j < tags_not_in(previous, current).len() && tags_not_in(previous, current)[j] == t;
        previous.lemma_filter_pred(absent_from(current), j);
    }
}

/// When the pointer stays over the same items, nothing is reported as entered or
/// left.
pub proof fn law_same_hits_report_nothing(tags: Seq<ItemTag>)
    ensures
        tags_not_in(tags, tags) == Seq::<ItemTag>::empty(),
{
    let f = tags_not_in(tags, tags);
    if f.len() > 0 {
        tags.lemma_filter_pred(absent_from(tags), 0);
        assert(f.contains(f[0]));
        tags.lemma_filter_contains_rev(absent_from(tags), f[0]);
    }
    assert(f =~= Seq::<ItemTag>::empty());
}

/// The tags under the pointer at the last frame.
pub struct HoverTags {
    tags: Vec<ItemTag>,
}

/// Whether `t` is in `v`.
fn holds(v: &Vec<ItemTag>, t: ItemTag) -> (r: bool)
    ensures
        r == v@.contains(t),
{
    let n = v.len();
    let mut i: usize = 0;
    while i < n
        invariant
            n == v@.len(),
            i <= n,
            forall|j: int| 0 <= j < i ==> v@[j] != t,
        decreases n - i,
    {
        if v[i].0 == t.0 && v[i].1 == t.1 {
            assert(v@[i as int] == t);
            return true;
        }
        i += 1;
    }
    false
}

/// The tags of `s` that are not in `other`, in order.
fn keep_missing(s: &Vec<ItemTag>, other: &Vec<ItemTag>) -> (r: Vec<ItemTag>)
    ensures
        r@ == tags_not_in(s@, other@),
{
    let n = s.len();
    let mut r: Vec<ItemTag> = Vec::new();
    let mut i: usize = 0;
    while i < n
        invariant
            n == s@.len(),
            i <= n,
            r@ == tags_not_in(s@.take(i as int), other@),
        decreases n - i,
    {
        let t = s[i];
        proof {
            reveal_with_fuel(Seq::filter, 1);
            assert(s@.take(i + 1).drop_last() =~= s@.take(i as int));
        }
        if !holds(other, t) {
            r.push(t);
        }
        i += 1;
    }
    assert(s@.take(n as int) =~= s@);
    r
}

impl HoverTags {
    pub closed spec fn view(&self) -> Seq<ItemTag> {
        self.tags@
    }

    pub fn new() -> (h: HoverTags)
        ensures
            h@ == Seq::<ItemTag>::empty(),
    {
        HoverTags { tags: Vec::new() }
    }

    /// Forgets the tags (the pointer left the window).
    pub fn clear(&mut self)
        ensures
            final(self)@ == Seq::<ItemTag>::empty(),
    {
        self.tags.clear();
    }

    /// A copy of the tags.
    pub fn tags(&self) -> (t: Vec<ItemTag>)
        ensures
            t@ == self@,
    {
        let n = self.tags.len();
        let mut t: Vec<ItemTag> = Vec::new();
        let mut i: usize = 0;
        while i < n
            invariant
                n == self.tags@.len(),
                i <= n,
                t@ == self.tags@.take(i as int),
            decreases n - i,
        {
            t.push(self.tags[i]);
            assert(self.tags@.take(i + 1) =~= self.tags@.take(i as int).push(self.tags@[i as int]));
            i += 1;
        }
        assert(self.tags@.take(n as int) =~= self.tags@);
        t
    }

    /// Takes the items a hit test found under the pointer, innermost first, and
    /// keeps them outermost first; returns the tags the pointer has newly come
    /// over and those it has left, each in order.
    pub fn get_tags(&mut self, hits: &Vec<ItemTag>) -> (r: (Vec<ItemTag>, Vec<ItemTag>))
        ensures
            final(self)@ == hits@.reverse(),
            r.0@ == tags_not_in(hits@.reverse(), old(self)@),
            r.1@ == tags_not_in(old(self)@, hits@.reverse()),
    {
        let mut tags: Vec<ItemTag> = Vec::new();
        let mut ind = hits.len();
        while ind > 0
            invariant
                ind <= hits@.len(),
                tags@ == hits@.reverse().take(hits@.len() - ind),
            decreases ind,
        {
            ind -= 1;
            tags.push(hits[ind]);
            assert(hits@.reverse().take(hits@.len() - ind) =~= hits@.reverse().take(
                hits@.len() - ind - 1,
            ).push(hits@[ind as int]));
        }
        assert(hits@.reverse().take(hits@.len() as int) =~= hits@.reverse());
        let new_tags = keep_missing(&tags, &self.tags);
        let old_tags = keep_missing(&self.tags, &tags);
        self.tags = tags;
        (new_tags, old_tags)
    }
}

/// Windowing-system input, as far as the event loop reads it.
#[derive(Clone, Copy, Debug)]
pub enum WindowInput {
    /// The loop was woken up.
    Awakened,
    CloseRequested,
    CursorEntered,
    /// The pointer moved to this position (as `f32` bit patterns).
    CursorMoved(Position),
    CursorLeft,
    Resized(LogicalSize),
    /// The dots-per-inch factor changed to this value (an `f64` bit pattern).
    HiDpiFactorChanged(u64),
    MouseInput(properties::ButtonState, properties::Button, Modifiers),
    /// The wheel turned; the window scrolls at the pointer.
    MouseWheel,
    /// The scan code, the key's state, its virtual key code (by number) if any,
    /// and the modifiers.
    KeyboardInput(u32, properties::ButtonState, Option<u32>, Modifiers),
    ReceivedCharacter(char),
    Other,
}

/// The escape character: typed, it takes the focus away.
pub const ESCAPE: char = '\u{1b}';

/// What the event loop knows of the pointer and the screen.
#[derive(Clone, Copy, Debug)]
pub struct PointerState {
    pub cursor_in_window: bool,
    pub cursor_position: Position,
    /// The dots-per-inch factor (an `f64` bit pattern).
    pub dpi: u64,
}

/// The pointer state after `input`, and the primitive events it gives, when
/// `over_items` says whether the pointer is over any item.
pub open spec fn take_input_spec(s: PointerState, input: WindowInput, over_items: bool) -> (PointerState, Seq<PrimitiveEvent>) {
    match input {
        WindowInput::CloseRequested => (s, seq![PrimitiveEvent::Exit]),
        WindowInput::CursorEntered => (PointerState { cursor_in_window: true, ..s }, seq![]),
        WindowInput::CursorMoved(p) => {
            if s.cursor_in_window {
                (PointerState { cursor_position: p, ..s }, seq![PrimitiveEvent::CursorMoved(p)])
            } else {
                (s, seq![])
            }
        },
        WindowInput::CursorLeft => (
            PointerState {
                cursor_in_window: false,
                cursor_position: Position { x: F32_MINUS_ONE, y: F32_MINUS_ONE },
                ..s
            },
            seq![],
        ),
        WindowInput::Resized(size) => (s, seq![PrimitiveEvent::Resized(size)]),
        WindowInput::HiDpiFactorChanged(f) => (PointerState { dpi: f, ..s }, seq![PrimitiveEvent::DPI(f)]),
        WindowInput::MouseInput(state, button, mods) => {
            let click = PrimitiveEvent::Button(s.cursor_position, button, state, mods);
            if over_items && button == properties::Button::Left && state == properties::ButtonState::Released {
                (s, seq![PrimitiveEvent::SetFocus(true), click])
            } else {
                (s, seq![click])
            }
        },
        WindowInput::KeyboardInput(scancode, state, key, mods) => (
            s,
            seq![PrimitiveEvent::KeyInput(key, scancode, state, mods)],
        ),
        WindowInput::ReceivedCharacter(c) => {
            if c == ESCAPE {
                (s, seq![PrimitiveEvent::SetFocus(false)])
            } else {
                (s, seq![PrimitiveEvent::Char(c)])
            }
        },
        _ => (s, seq![]),
    }
}

/// A left-button release over an item first gives the focus to what is under
/// the pointer, then reports the release; every other button input reports
/// only itself, at the pointer's position.
pub proof fn law_release_over_items_focuses_first(
    s: PointerState,
    state: properties::ButtonState,
    button: properties::Button,
    mods: Modifiers,
    over_items: bool,
)
    ensures
        take_input_spec(s, WindowInput::MouseInput(state, button, mods), over_items) == (
            s,
            if over_items && button == properties::Button::Left && state == properties::ButtonState::Released {
                seq![PrimitiveEvent::SetFocus(true), PrimitiveEvent::Button(s.cursor_position, button, state, mods)]
            } else {
                seq![PrimitiveEvent::Button(s.cursor_position, button, state, mods)]
            },
        ),
{
}

/// Pointer moves are reported, and remembered, only while the pointer is in the
/// window.
pub proof fn law_moves_count_inside_the_window(s: PointerState, p: Position, over_items: bool)
    ensures
        take_input_spec(s, WindowInput::CursorMoved(p), over_items) == (if s.cursor_in_window {
            (PointerState { cursor_position: p, ..s }, seq![PrimitiveEvent::CursorMoved(p)])
        } else {
            (s, seq![])
        }),
{
}

/// Escape takes the focus away; every other typed character is typed.
pub proof fn law_escape_takes_the_focus(s: PointerState, c: char, over_items: bool)
    ensures
        take_input_spec(s, WindowInput::ReceivedCharacter(c), over_items).1 == (if c == ESCAPE {
            seq![PrimitiveEvent::SetFocus(false)]
        } else {
            seq![PrimitiveEvent::Char(c)]
        }),
{
}

impl PointerState {
    /// The state of a new window: pointer outside, at the origin.
    pub fn new(dpi: u64) -> (s: PointerState)
        ensures
            s == (PointerState { cursor_in_window: false, cursor_position: Position { x: 0, y: 0 }, dpi }),
    {
        PointerState { cursor_in_window: false, cursor_position: Position { x: 0, y: 0 }, dpi }
    }

    /// Takes one windowing-system input; appends the primitive events it gives to
    /// `events`.
    pub fn take_input(&mut self, input: WindowInput, over_items: bool, events: &mut Vec<PrimitiveEvent>)
        ensures
            (*final(self), final(events)@) == ({
                let (s, e) = take_input_spec(*old(self), input, over_items);
                (s, old(events)@ + e)
            }),
    {
        let ghost start = old(events)@;
        match input {
            WindowInput::CloseRequested => {
                events.push(PrimitiveEvent::Exit);
            },
            WindowInput::CursorEntered => {
                self.cursor_in_window = true;
            },
            WindowInput::CursorMoved(p) => {
                if self.cursor_in_window {
                    self.cursor_position = p;
                    events.push(PrimitiveEvent::CursorMoved(p));
                }
            },
            WindowInput::CursorLeft => {
                self.cursor_in_window = false;
                self.cursor_position = Position { x: F32_MINUS_ONE, y: F32_MINUS_ONE };
            },
            WindowInput::Resized(size) => {
                events.push(PrimitiveEvent::Resized(size));
            },
            WindowInput::HiDpiFactorChanged(f) => {
                self.dpi = f;
                events.push(PrimitiveEvent::DPI(f));
            },
            WindowInput::MouseInput(state, button, mods) => {
                if over_items && button == properties::Button::Left && state
                    == properties::ButtonState::Released {
                    events.push(PrimitiveEvent::SetFocus(true));
                }
                events.push(PrimitiveEvent::Button(self.cursor_position, button, state, mods));
            },
            WindowInput::KeyboardInput(scancode, state, key, mods) => {
                events.push(PrimitiveEvent::KeyInput(key, scancode, state, mods));
            },
            WindowInput::ReceivedCharacter(c) => {
                if c == ESCAPE {
                    events.push(PrimitiveEvent::SetFocus(false));
                } else {
                    events.push(PrimitiveEvent::Char(c));
                }
            },
            _ => {},
        }
        assert(final(events)@ =~= start + take_input_spec(*old(self), input, over_items).1);
    }
}

/// What the window does with a primitive event.
#[derive(Clone, Copy, Debug)]
pub enum WindowAction {
    /// Forget the tags under the pointer.
    ClearTags,
    /// Take this size.
    Resize(LogicalSize),
    /// Hand the event to the root element, with the tags under the pointer
    /// (`true`) or with none.
    ToRoot(bool),
    Ignore,
}

pub open spec fn window_action(e: PrimitiveEvent) -> WindowAction {
    match e {
        PrimitiveEvent::CursorLeft => WindowAction::ClearTags,
        PrimitiveEvent::Resized(size) => WindowAction::Resize(size),
        PrimitiveEvent::SetFocus(b) => WindowAction::ToRoot(b),
        PrimitiveEvent::Button(..) => WindowAction::ToRoot(true),
        PrimitiveEvent::Char(_) => WindowAction::ToRoot(true),
        PrimitiveEvent::CursorMoved(_) => WindowAction::ToRoot(true),
        PrimitiveEvent::KeyInput(..) => WindowAction::ToRoot(true),
        _ => WindowAction::Ignore,
    }
}

/// Each input that carries data hands it on unchanged, in exactly one event,
/// and leaves the pointer state but for what the input is about: a resize gives
/// the size it came with, a change of resolution the new factor (which the state
/// keeps), a key its scan code, state, key code and modifiers; closing gives an
/// exit; entering and leaving give no event.
pub proof fn law_inputs_pass_their_data(
    s: PointerState,
    size: LogicalSize,
    f: u64,
    scancode: u32,
    state: properties::ButtonState,
    key: Option<u32>,
    mods: Modifiers,
    over_items: bool,
)
    ensures
        take_input_spec(s, WindowInput::Resized(size), over_items) == (s, seq![PrimitiveEvent::Resized(size)]),
        take_input_spec(s, WindowInput::HiDpiFactorChanged(f), over_items) == (
            PointerState { dpi: f, ..s },
            seq![PrimitiveEvent::DPI(f)],
        ),
        take_input_spec(s, WindowInput::KeyboardInput(scancode, state, key, mods), over_items) == (
            s,
            seq![PrimitiveEvent::KeyInput(key, scancode, state, mods)],
        ),
        take_input_spec(s, WindowInput::CloseRequested, over_items) == (s, seq![PrimitiveEvent::Exit]),
        take_input_spec(s, WindowInput::CursorEntered, over_items) == (
            PointerState { cursor_in_window: true, ..s },
            Seq::<PrimitiveEvent>::empty(),
        ),
        take_input_spec(s, WindowInput::CursorLeft, over_items).0.cursor_in_window == false,
        take_input_spec(s, WindowInput::CursorLeft, over_items).0.dpi == s.dpi,
        take_input_spec(s, WindowInput::CursorLeft, over_items).1 == Seq::<PrimitiveEvent>::empty(),
        take_input_spec(s, WindowInput::Awakened, over_items) == (s, Seq::<PrimitiveEvent>::empty()),
        take_input_spec(s, WindowInput::MouseWheel, over_items) == (s, Seq::<PrimitiveEvent>::empty()),
        window_action(PrimitiveEvent::Resized(size)) == WindowAction::Resize(size),
        window_action(PrimitiveEvent::CursorLeft) == WindowAction::ClearTags,
{
}

/// A focus loss reaches the root element with no tags; clicks, typing, pointer
/// moves and keys reach it with the tags under the pointer.
pub proof fn law_input_reaches_the_root(e: PrimitiveEvent)
    ensures
        e == PrimitiveEvent::SetFocus(false) ==> window_action(e) == WindowAction::ToRoot(false),
        (e is Button || e is Char || e is CursorMoved || e is KeyInput) ==> window_action(e) == WindowAction::ToRoot(true),
{
}

/// What the window does with `e`: a focus loss reaches the root with no tags,
/// the other input events with the tags under the pointer.
pub fn action_for(e: &PrimitiveEvent) -> (a: WindowAction)
    ensures
        a == window_action(*e),
{
    match e {
        PrimitiveEvent::CursorLeft => WindowAction::ClearTags,
        PrimitiveEvent::Resized(size) => WindowAction::Resize(*size),
        PrimitiveEvent::SetFocus(b) => WindowAction::ToRoot(*b),
        PrimitiveEvent::Button(..) => WindowAction::ToRoot(true),
        PrimitiveEvent::Char(_) => WindowAction::ToRoot(true),
        PrimitiveEvent::CursorMoved(_) => WindowAction::ToRoot(true),
        PrimitiveEvent::KeyInput(..) => WindowAction::ToRoot(true),
        _ => WindowAction::Ignore,
    }
}

/// The length of a frame in milliseconds at `fps` frames per second.
pub fn frame_millis(fps: u64) -> (ms: u64)
    requires
        fps > 0,
    ensures
        ms == 1000int / (fps as int),
{
    1000 / fps
}

/// How long the loop sleeps after a frame of length `frame` whose work took
/// `elapsed` milliseconds: the rest of the frame, or nothing when the work took
/// the whole frame.
pub fn sleep_millis(frame: u64, elapsed: u64) -> (ms: u64)
    ensures
        ms == (if elapsed > frame {
            0
        } else {
            frame - elapsed
        }),
{
    let mut t = elapsed;
    if t > frame {
        t = frame;
    }
    frame - t
}

} // verus!
