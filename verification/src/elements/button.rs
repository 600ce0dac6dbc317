//! The push button: a label that runs its click handler when released under the
//! pointer.
use vstd::prelude::*;

use crate::elements::element::{
    tags_contain, tags_name, CanDisable, ElementEvent, ItemTag, PrimitiveEvent, Reaction,
};
use crate::gui::properties::{
    self, default_properties, is_family, IdGenerator, Properties, Property, PropertyKind, Rgba,
    F32_ONE, F32_POINT_EIGHT, F32_POINT_NINE, F32_POINT_TWO,
};
use crate::text::chars_of;

verus! {

/// Bit patterns of `0.6` and `0.7` as `f32`.
pub const F32_POINT_SIX: u32 = 0x3f19_999a;
pub const F32_POINT_SEVEN: u32 = 0x3f33_3333;

/// The abstract state of a button.
pub ghost struct ButtonModel {
    pub ext_id: u64,
    pub value: Seq<char>,
    pub props: Map<PropertyKind, Property>,
    pub drawn: u8,
    pub hovering: bool,
    pub enabled: bool,
}

/// A button's state: its label, style and whether the pointer is over it.
pub struct Button {
    ext_id: u64,
    value: String,
    props: Properties,
    drawn: u8,
    hovering: bool,
    enabled: bool,
}

/// The style a new button gets, but for the font family: the default style with
/// a light cyan background, dark grey text and a darker cyan background under
/// the pointer.
pub open spec fn button_properties() -> Map<PropertyKind, Property> {
    default_properties()
        .insert(PropertyKind::BgColor, Property::BgColor(Rgba { r: F32_POINT_EIGHT, g: F32_POINT_NINE, b: F32_POINT_NINE, a: F32_ONE }))
        .insert(PropertyKind::Color, Property::Color(Rgba { r: F32_POINT_TWO, g: F32_POINT_TWO, b: F32_POINT_TWO, a: F32_ONE }))
        .insert(PropertyKind::HoverBgColor, Property::HoverBgColor(Rgba { r: F32_POINT_SIX, g: F32_POINT_SEVEN, b: F32_POINT_SEVEN, a: F32_ONE }))
}

/// The button after the primitive event `e` with the tags `ext_ids` under the
/// pointer, with its answer: a release of the left button on the button alone
/// (and nothing inside it) clicks an enabled button.
pub open spec fn button_react(m: ButtonModel, ext_ids: Seq<ItemTag>, e: PrimitiveEvent) -> (ButtonModel, Reaction) {
    match e {
        PrimitiveEvent::Button(_p, b, s, _mods) => {
            let clicked = ext_ids.len() == 1 && ext_ids[0].0 == m.ext_id && b == properties::Button::Left
                && s == properties::ButtonState::Released && m.enabled;
            (
                ButtonModel { drawn: 0, ..m },
                if clicked {
                    Reaction::RunHandler(ElementEvent::Clicked)
                } else {
                    Reaction::Handled(false)
                },
            )
        },
        PrimitiveEvent::HoverBegin(tags) => {
            if tags_name(tags@, m.ext_id) {
                (ButtonModel { hovering: true, ..m }, Reaction::Handled(false))
            } else {
                (m, Reaction::Handled(false))
            }
        },
        PrimitiveEvent::HoverEnd(tags) => {
            if tags_name(tags@, m.ext_id) {
                (ButtonModel { hovering: false, ..m }, Reaction::Handled(false))
            } else {
                (m, Reaction::Handled(false))
            }
        },
        _ => (m, Reaction::Handled(false)),
    }
}

/// The number of line feeds in `s`.
pub open spec fn line_feeds(s: Seq<char>) -> nat
    decreases s.len(),
{
    if s.len() == 0 {
        0
    } else {
        line_feeds(s.drop_last()) + if s.last() == '\n' {
            1nat
        } else {
            0nat
        }
    }
}

/// The number of lines of `s` as `str::lines` counts them: one per line feed,
/// plus one for a last line that does not end in a line feed.
pub open spec fn line_count(s: Seq<char>) -> nat {
    line_feeds(s) + if s.len() > 0 && s.last() != '\n' {
        1nat
    } else {
        0nat
    }
}

/// The number of lines of `s`.
pub fn count_lines(s: &Vec<char>) -> (n: usize)
    ensures
        n == line_count(s@),
{
    let len = s.len();
    let mut n: usize = 0;
    let mut i: usize = 0;
    while i < len
        invariant
            len == s@.len(),
            i <= len,
            n == line_feeds(s@.take(i as int)),
            n <= i,
            i > 0 && s@[i - 1] != '\n' ==> n < i,
        decreases len - i,
    {
        assert(s@.take(i + 1).drop_last() =~= s@.take(i as int));
        if s[i] == '\n' {
            n += 1;
        }
        i += 1;
    }
    assert(s@.take(len as int) =~= s@);
    if len > 0 && s[len - 1] != '\n' {
        n += 1;
    }
    n
}

/// A disabled button never runs its click handler.
pub proof fn law_disabled_never_clicks(m: ButtonModel, ext_ids: Seq<ItemTag>, e: PrimitiveEvent)
    requires
        !m.enabled,
    ensures
        button_react(m, ext_ids, e).1 != Reaction::RunHandler(ElementEvent::Clicked),
{
}

/// A button runs its click handler exactly for a release of the left button
/// over the button alone (no element inside it), while it is enabled.
pub proof fn law_click_needs_its_own_tag_alone(m: ButtonModel, ext_ids: Seq<ItemTag>, e: PrimitiveEvent)
    ensures
        (button_react(m, ext_ids, e).1 == Reaction::RunHandler(ElementEvent::Clicked)) <==> (
        m.enabled && ext_ids.len() == 1 && ext_ids[0].0 == m.ext_id && (e matches PrimitiveEvent::Button(
            _p,
            b,
            s,
            _mods,
        ) && b == properties::Button::Left && s == properties::ButtonState::Released)),
{
}

impl Button {
    pub closed spec fn view(&self) -> ButtonModel {
        ButtonModel {
            ext_id: self.ext_id,
            value: self.value@,
            props: self.props.view(),
            drawn: self.drawn,
            hovering: self.hovering,
            enabled: self.enabled,
        }
    }

    /// An enabled button labelled `s`.
    pub fn new(s: String) -> (b: Button)
        ensures
            b@.value == s@,
            b@.props == button_properties().insert(
                PropertyKind::Family,
                b@.props[PropertyKind::Family],
            ),
            is_family(b@.props[PropertyKind::Family], "Arial"@),
            b@.ext_id == 0,
            b@.drawn == 0,
            !b@.hovering,
            b@.enabled,
    {
        let mut props = Properties::new();
        props.default();
        props.set(Property::BgColor(Rgba::new(F32_POINT_EIGHT, F32_POINT_NINE, F32_POINT_NINE, F32_ONE)))
            .set(Property::Color(Rgba::new(F32_POINT_TWO, F32_POINT_TWO, F32_POINT_TWO, F32_ONE)))
            .set(Property::HoverBgColor(Rgba::new(F32_POINT_SIX, F32_POINT_SEVEN, F32_POINT_SEVEN, F32_ONE)));
        let b = Button { ext_id: 0, value: s, props, drawn: 0, hovering: false, enabled: true };
        assert(b@.props =~= button_properties().insert(
            PropertyKind::Family,
            b@.props[PropertyKind::Family],
        ));
        b
    }

    /// Replaces the label.
    pub fn set_value(&mut self, s: String)
        ensures
            final(self)@ == (ButtonModel { value: s@, drawn: 0, ..old(self)@ }),
    {
        self.value = s;
        self.drawn = 0;
    }

    pub fn get_value(&self) -> (s: String)
        ensures
            s@ == self@.value,
    {
        self.value.clone()
    }

    pub fn get_ext_id(&self) -> (id: u64)
        ensures
            id == self@.ext_id,
    {
        self.ext_id
    }

    /// Takes the button's id for this frame from `gen`.
    pub fn take_id(&mut self, gen: &mut IdGenerator) -> (id: u64)
        requires
            old(gen)@ < u64::MAX,
        ensures
            id == old(gen)@ + 1,
            final(gen)@ == id,
            final(self)@ == (ButtonModel { ext_id: id, ..old(self)@ }),
    {
        let id = gen.get();
        self.ext_id = id;
        id
    }

    /// Sets one style property.
    pub fn set(&mut self, prop: Property)
        ensures
            final(self)@ == (ButtonModel {
                props: old(self)@.props.insert(properties::kind(prop), prop),
                ..old(self)@
            }),
    {
        self.props.set(prop);
    }

    /// A copy of the style properties.
    pub fn get_properties(&self) -> (p: Properties)
        ensures
            p.view() == self@.props,
    {
        self.props.duplicate()
    }

    /// The style properties.
    pub fn properties(&self) -> (p: &Properties)
        ensures
            p.view() == self@.props,
    {
        &self.props
    }

    /// The number of lines of the label.
    pub fn line_count(&self) -> (n: usize)
        ensures
            n == line_count(self@.value),
    {
        let chars = chars_of(self.value.as_str());
        count_lines(&chars)
    }

    /// The kinds of the text and background colours to draw with: the hover
    /// colours while an enabled button is under the pointer.
    pub fn colors(&self) -> (r: (PropertyKind, PropertyKind))
        ensures
            r == (if self@.hovering && self@.enabled {
                (PropertyKind::HoverColor, PropertyKind::HoverBgColor)
            } else {
                (PropertyKind::Color, PropertyKind::BgColor)
            }),
    {
        if self.hovering && self.enabled {
            (PropertyKind::HoverColor, PropertyKind::HoverBgColor)
        } else {
            (PropertyKind::Color, PropertyKind::BgColor)
        }
    }

    /// Takes a primitive event; `ext_ids` are the tags under the pointer, from
    /// the outermost element in.
    pub fn on_primitive_event(&mut self, ext_ids: &[ItemTag], e: PrimitiveEvent) -> (r: Reaction)
        ensures
            (final(self)@, r) == button_react(old(self)@, ext_ids@, e),
    {
        match e {
            PrimitiveEvent::Button(_p, b, s, _m) => {
                self.drawn = 0;
                if ext_ids.len() == 1 && ext_ids[0].0 == self.ext_id {
                    if b == properties::Button::Left && s == properties::ButtonState::Released
                        && self.enabled {
                        return Reaction::RunHandler(ElementEvent::Clicked);
                    }
                }
                Reaction::Handled(false)
            },
            PrimitiveEvent::HoverBegin(tags) => {
                if tags_contain(&tags, self.ext_id) {
                    self.hovering = true;
                }
                Reaction::Handled(false)
            },
            PrimitiveEvent::HoverEnd(tags) => {
                if tags_contain(&tags, self.ext_id) {
                    self.hovering = false;
                }
                Reaction::Handled(false)
            },
            _ => Reaction::Handled(false),
        }
    }
}

impl CanDisable for Button {
    fn set_enabled(&mut self, value: bool)
        ensures
            final(self)@ == (ButtonModel { enabled: value, ..old(self)@ }),
    {
        self.enabled = value;
    }

    fn get_enabled(&self) -> (r: bool)
        ensures
            r == self@.enabled,
    {
        self.enabled
    }
}

} // verus!
