//! How a box that holds other elements (a vertical box or a scroll box) passes a
//! primitive event on to its children.
//!
//! The box visits its children in order. For each it asks `route` what to hand
//! the child; after a child took the event, `stops_after` says whether the
//! remaining children are skipped; when all are visited, `fallback` says what
//! the box itself answers.
use vstd::prelude::*;

use crate::elements::element::{ElementEvent, ItemTag, PrimitiveEvent, Reaction};

verus! {

/// What a box hands one of its children.
#[derive(Clone, Copy, Debug, PartialEq, Eq, Structural)]
pub enum Forward {
    /// Nothing.
    Skip,
    /// The event, with no tags.
    Event,
    /// The event, with the tags from the second on (the first is the box's).
    EventInner,
    /// `SetFocus(true)`, with the tags from the second on.
    Focus,
    /// `SetFocus(false)`, with no tags.
    Blur,
}

/// What a box with id `own_id` hands its child with id `child_id`, for the event
/// `e` and the tags `ext_ids` under the pointer, when the children visited before
/// have `handled` the event (or not).
///
/// A focus change goes to every child: the focus to the child whose tag follows
/// the box's own, the blur to all others. Other events go, until a child handles
/// them, with the tags that follow the box's own, or with none when only the
/// box's own tag is there; typed characters go to every child with no tags.
pub open spec fn route_spec(
    e: PrimitiveEvent,
    ext_ids: Seq<ItemTag>,
    own_id: u64,
    child_id: u64,
    handled: bool,
) -> Forward {
    match e {
        PrimitiveEvent::SetFocus(_) => {
            if ext_ids.len() > 1 && ext_ids[0].0 == own_id && ext_ids[1].0 == child_id {
                Forward::Focus
            } else {
                Forward::Blur
            }
        },
        PrimitiveEvent::Char(_) => Forward::Event,
        _ => {
            if handled || ext_ids.len() == 0 {
                Forward::Skip
            } else if ext_ids.len() == 1 {
                Forward::Event
            } else {
                Forward::EventInner
            }
        },
    }
}

/// What to hand the child; see `route_spec`.
pub fn route(e: &PrimitiveEvent, ext_ids: &[ItemTag], own_id: u64, child_id: u64, handled: bool) -> (f: Forward)
    ensures
        f == route_spec(*e, ext_ids@, own_id, child_id, handled),
{
    match e {
        PrimitiveEvent::SetFocus(_) => {
            if ext_ids.len() > 1 && ext_ids[0].0 == own_id && ext_ids[1].0 == child_id {
                Forward::Focus
            } else {
                Forward::Blur
            }
        },
        PrimitiveEvent::Char(_) => Forward::Event,
        _ => {
            if handled || ext_ids.len() == 0 {
                Forward::Skip
            } else if ext_ids.len() == 1 {
                Forward::Event
            } else {
                Forward::EventInner
            }
        },
    }
}

/// A focus change gives the focus to at most one child: the one whose tag
/// follows the box's own.
pub proof fn law_focus_reaches_one_child(
    e: PrimitiveEvent,
    ext_ids: Seq<ItemTag>,
    own_id: u64,
    first: u64,
    second: u64,
    h1: bool,
    h2: bool,
)
    requires
        route_spec(e, ext_ids, own_id, first, h1) == Forward::Focus,
        route_spec(e, ext_ids, own_id, second, h2) == Forward::Focus,
    ensures
        first == second,
        e is SetFocus,
{
}

/// Typed characters reach every child, with no tags; once a child handled
/// another event (not a focus change), the children after it get nothing.
pub proof fn law_handled_events_skip_later_children(
    e: PrimitiveEvent,
    ext_ids: Seq<ItemTag>,
    own_id: u64,
    child_id: u64,
    handled: bool,
)
    ensures
        e is Char ==> route_spec(e, ext_ids, own_id, child_id, handled) == Forward::Event,
        !(e is Char) && !(e is SetFocus) && handled ==> route_spec(e, ext_ids, own_id, child_id, handled)
            == Forward::Skip,
{
}

/// Whether a child's answer to the forwarded event counts as the box's
/// `handled`: it does for every event but a focus change.
pub open spec fn counts_spec(e: PrimitiveEvent, f: Forward) -> bool {
    !(e is SetFocus) && f != Forward::Skip
}

pub fn counts(e: &PrimitiveEvent, f: Forward) -> (r: bool)
    ensures
        r == counts_spec(*e, f),
{
    !matches!(e, PrimitiveEvent::SetFocus(_)) && f != Forward::Skip
}

/// Whether, in a vertical box, the children after one that handled a typed
/// character are skipped: they are.
pub open spec fn stops_after_spec(e: PrimitiveEvent, handled: bool) -> bool {
    e is Char && handled
}

pub fn stops_after(e: &PrimitiveEvent, handled: bool) -> (r: bool)
    ensures
        r == stops_after_spec(*e, handled),
{
    matches!(e, PrimitiveEvent::Char(_)) && handled
}

/// What the box answers after its children: a button event no child handled
/// clicks the box itself.
pub open spec fn fallback_spec(e: PrimitiveEvent, handled: bool) -> Reaction {
    if !handled && e is Button {
        Reaction::RunHandler(ElementEvent::Clicked)
    } else {
        Reaction::Handled(handled)
    }
}

pub fn fallback(e: &PrimitiveEvent, handled: bool) -> (r: Reaction)
    ensures
        r == fallback_spec(*e, handled),
{
    if !handled && matches!(e, PrimitiveEvent::Button(..)) {
        Reaction::RunHandler(ElementEvent::Clicked)
    } else {
        Reaction::Handled(handled)
    }
}

/// A scroll box's child slot: it holds at most one child.
pub struct Slot<C> {
    child: Option<C>,
}

impl<C> Slot<C> {
    pub closed spec fn view(&self) -> Option<C> {
        self.child
    }

    pub fn new() -> (s: Slot<C>)
        ensures
            s@ is None,
    {
        Slot { child: None }
    }

    /// Puts `e` in the slot; gives back what was there.
    pub fn append(&mut self, e: C) -> (previous: Option<C>)
        ensures
            final(self)@ == Some(e),
            previous == old(self)@,
    {
        let mut ret = Some(e);
        std::mem::swap(&mut self.child, &mut ret);
        ret
    }

    pub fn get(&self) -> (c: Option<&C>)
        ensures
            c == match self@ {
                Some(x) => Some(&x),
                None => None::<&C>,
            },
    {
        self.child.as_ref()
    }

    pub fn get_mut(&mut self) -> (c: Option<&mut C>)
        ensures
            match old(self)@ {
                Some(x) => c matches Some(r) && *r == x && final(self)@ == Some(*final(r)),
                None => c is None && final(self)@ is None,
            },
    {
        self.child.as_mut()
    }
}

} // verus!
