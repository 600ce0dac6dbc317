//! The events that elements receive and what they answer.
use vstd::prelude::*;

use crate::gui::properties;

verus! {

/// The tag the renderer attaches to a hit-testable item: the element's id and a
/// sub-item number.
pub type ItemTag = (u64, u16);

/// An input event as the window hands it to its elements.
#[derive(Clone, Debug)]
pub enum PrimitiveEvent {
    Exit,
    CursorEntered,
    CursorLeft,
    CursorMoved(properties::Position),
    Button(properties::Position, properties::Button, properties::ButtonState, properties::Modifiers),
    Char(char),
    /// The virtual key code (by number) if the key has one, the scan code, the
    /// key's state and the modifiers.
    KeyInput(Option<u32>, u32, properties::ButtonState, properties::Modifiers),
    SetFocus(bool),
    Resized(properties::LogicalSize),
    /// The new dots-per-inch factor, as the bit pattern of an `f64`.
    DPI(u64),
    HoverBegin(Vec<ItemTag>),
    HoverEnd(Vec<ItemTag>),
}

/// The events an element runs user handlers for.
#[derive(Clone, Copy, Debug, PartialEq, Eq, Structural, Hash)]
pub enum ElementEvent {
    Clicked,
    FocusChange,
    HoverBegin,
    HoverEnd,
}

/// What an element answers to a primitive event: whether it handled it, or that
/// the handler registered for an element event must run, whose result then says
/// whether the event was handled.
#[derive(Clone, Copy, Debug, PartialEq, Eq, Structural)]
pub enum Reaction {
    Handled(bool),
    RunHandler(ElementEvent),
}

/// Elements that can be switched off.
pub trait CanDisable {
    fn set_enabled(&mut self, value: bool);
    fn get_enabled(&self) -> bool;
}

/// Whether one of `tags` belongs to the element with id `id`.
pub open spec fn tags_name(tags: Seq<ItemTag>, id: u64) -> bool {
    exists|i: int| 0 <= i < tags.len() && tags[i].0 == id
}

/// Whether one of `tags` belongs to the element with id `id`.
pub fn tags_contain(tags: &Vec<ItemTag>, id: u64) -> (r: bool)
    ensures
        r == tags_name(tags@, id),
{
    let n = tags.len();
    let mut i: usize = 0;
    while i < n
        invariant
            n == tags@.len(),
            i <= n,
            forall|j: int| 0 <= j < i ==> tags@[j].0 != id,
        decreases n - i,
    {
        if tags[i].0 == id {
            return true;
        }
        i += 1;
    }
    false
}

} // verus!
