//! Style properties of elements, input descriptions and the id generator.
//!
//! Values that the renderer treats as `f32` (lengths, colour channels, positions)
//! are stored here as their IEEE-754 bit patterns (`f32::to_bits`): this module
//! only stores, compares by kind and hands them back, it never computes with them.
use vstd::prelude::*;

verus! {

/// What an element does with content that does not fit.
#[derive(Clone, Copy, Debug, PartialEq, Eq, Structural)]
pub enum Overflow {
    Hidden,
    Wrap,
    Scroll,
}

/// Horizontal alignment of text inside its box.
#[derive(Clone, Copy, Debug, PartialEq, Eq, Structural)]
pub enum Align {
    Left,
    Right,
    Middle,
}

/// A length. `Pixel` and `Stretch` carry the bit pattern of an `f32`.
///
/// Two units are equal when they are of the same kind, whatever they carry.
#[derive(Clone, Copy, Debug)]
pub enum Unit {
    Natural,
    Extent,
    Pixel(u32),
    Stretch(u32),
}

pub open spec fn unit_kind(u: Unit) -> nat {
    match u {
        Unit::Natural => 0,
        Unit::Extent => 1,
        Unit::Pixel(_) => 2,
        Unit::Stretch(_) => 3,
    }
}

impl Unit {
    pub fn kind_index(&self) -> (k: u8)
        ensures
            k == unit_kind(*self),
    {
        match self {
            Unit::Natural => 0,
            Unit::Extent => 1,
            Unit::Pixel(_) => 2,
            Unit::Stretch(_) => 3,
        }
    }
}

impl PartialEq for Unit {
    fn eq(&self, other: &Unit) -> (r: bool) {
        self.kind_index() == other.kind_index()
    }
}

impl Eq for Unit {
}

impl vstd::std_specs::cmp::PartialEqSpecImpl for Unit {
    open spec fn obeys_eq_spec() -> bool {
        true
    }

    open spec fn eq_spec(&self, other: &Unit) -> bool {
        unit_kind(*self) == unit_kind(*other)
    }
}

/// A colour; each channel is the bit pattern of an `f32` in `0.0..=1.0`.
#[derive(Clone, Copy, Debug)]
pub struct Rgba {
    pub r: u32,
    pub g: u32,
    pub b: u32,
    pub a: u32,
}

impl Rgba {
    pub fn new(r: u32, g: u32, b: u32, a: u32) -> (c: Rgba)
        ensures
            c == (Rgba { r, g, b, a }),
    {
        Rgba { r, g, b, a }
    }
}

/// One style property of an element.
///
/// Two properties are equal when they are of the same kind, whatever they carry:
/// a set of properties holds at most one property of each kind.
#[derive(Clone, Debug)]
pub enum Property {
    /// Font size in pixels.
    Size(i32),
    Family(String),
    Left(Unit),
    Width(Unit),
    Right(Unit),
    Top(Unit),
    Height(Unit),
    Bottom(Unit),
    Color(Rgba),
    BgColor(Rgba),
    FocusColor(Rgba),
    FocusBgColor(Rgba),
    DisabledColor(Rgba),
    DisabledBgColor(Rgba),
    OverflowX(Overflow),
    OverflowY(Overflow),
    Enabled(bool),
    HoverColor(Rgba),
    HoverBgColor(Rgba),
    TextAlign(Align),
}

/// The kind of a property: which variant it is.
#[derive(Clone, Copy, Debug, PartialEq, Eq, Structural)]
pub enum PropertyKind {
    Size,
    Family,
    Left,
    Width,
    Right,
    Top,
    Height,
    Bottom,
    Color,
    BgColor,
    FocusColor,
    FocusBgColor,
    DisabledColor,
    DisabledBgColor,
    OverflowX,
    OverflowY,
    Enabled,
    HoverColor,
    HoverBgColor,
    TextAlign,
}

pub open spec fn kind(p: Property) -> PropertyKind {
    match p {
        Property::Size(_) => PropertyKind::Size,
        Property::Family(_) => PropertyKind::Family,
        Property::Left(_) => PropertyKind::Left,
        Property::Width(_) => PropertyKind::Width,
        Property::Right(_) => PropertyKind::Right,
        Property::Top(_) => PropertyKind::Top,
        Property::Height(_) => PropertyKind::Height,
        Property::Bottom(_) => PropertyKind::Bottom,
        Property::Color(_) => PropertyKind::Color,
        Property::BgColor(_) => PropertyKind::BgColor,
        Property::FocusColor(_) => PropertyKind::FocusColor,
        Property::FocusBgColor(_) => PropertyKind::FocusBgColor,
        Property::DisabledColor(_) => PropertyKind::DisabledColor,
        Property::DisabledBgColor(_) => PropertyKind::DisabledBgColor,
        Property::OverflowX(_) => PropertyKind::OverflowX,
        Property::OverflowY(_) => PropertyKind::OverflowY,
        Property::Enabled(_) => PropertyKind::Enabled,
        Property::HoverColor(_) => PropertyKind::HoverColor,
        Property::HoverBgColor(_) => PropertyKind::HoverBgColor,
        Property::TextAlign(_) => PropertyKind::TextAlign,
    }
}

/// Position of the slot that holds properties of kind `k`.
pub open spec fn slot_of(k: PropertyKind) -> nat {
    match k {
        PropertyKind::Size => 0,
        PropertyKind::Family => 1,
        PropertyKind::Left => 2,
        PropertyKind::Width => 3,
        PropertyKind::Right => 4,
        PropertyKind::Top => 5,
        PropertyKind::Height => 6,
        PropertyKind::Bottom => 7,
        PropertyKind::Color => 8,
        PropertyKind::BgColor => 9,
        PropertyKind::FocusColor => 10,
        PropertyKind::FocusBgColor => 11,
        PropertyKind::DisabledColor => 12,
        PropertyKind::DisabledBgColor => 13,
        PropertyKind::OverflowX => 14,
        PropertyKind::OverflowY => 15,
        PropertyKind::Enabled => 16,
        PropertyKind::HoverColor => 17,
        PropertyKind::HoverBgColor => 18,
        PropertyKind::TextAlign => 19,
    }
}

/// Number of property kinds.
pub const KIND_COUNT: usize = 20;

impl PropertyKind {
    pub fn slot(&self) -> (i: usize)
        ensures
            i == slot_of(*self),
            i < KIND_COUNT,
    {
        match self {
            PropertyKind::Size => 0,
            PropertyKind::Family => 1,
            PropertyKind::Left => 2,
            PropertyKind::Width => 3,
            PropertyKind::Right => 4,
            PropertyKind::Top => 5,
            PropertyKind::Height => 6,
            PropertyKind::Bottom => 7,
            PropertyKind::Color => 8,
            PropertyKind::BgColor => 9,
            PropertyKind::FocusColor => 10,
            PropertyKind::FocusBgColor => 11,
            PropertyKind::DisabledColor => 12,
            PropertyKind::DisabledBgColor => 13,
            PropertyKind::OverflowX => 14,
            PropertyKind::OverflowY => 15,
            PropertyKind::Enabled => 16,
            PropertyKind::HoverColor => 17,
            PropertyKind::HoverBgColor => 18,
            PropertyKind::TextAlign => 19,
        }
    }
}

impl Property {
    pub fn kind(&self) -> (k: PropertyKind)
        ensures
            k == kind(*self),
    {
        match self {
            Property::Size(_) => PropertyKind::Size,
            Property::Family(_) => PropertyKind::Family,
            Property::Left(_) => PropertyKind::Left,
            Property::Width(_) => PropertyKind::Width,
            Property::Right(_) => PropertyKind::Right,
            Property::Top(_) => PropertyKind::Top,
            Property::Height(_) => PropertyKind::Height,
            Property::Bottom(_) => PropertyKind::Bottom,
            Property::Color(_) => PropertyKind::Color,
            Property::BgColor(_) => PropertyKind::BgColor,
            Property::FocusColor(_) => PropertyKind::FocusColor,
            Property::FocusBgColor(_) => PropertyKind::FocusBgColor,
            Property::DisabledColor(_) => PropertyKind::DisabledColor,
            Property::DisabledBgColor(_) => PropertyKind::DisabledBgColor,
            Property::OverflowX(_) => PropertyKind::OverflowX,
            Property::OverflowY(_) => PropertyKind::OverflowY,
            Property::Enabled(_) => PropertyKind::Enabled,
            Property::HoverColor(_) => PropertyKind::HoverColor,
            Property::HoverBgColor(_) => PropertyKind::HoverBgColor,
            Property::TextAlign(_) => PropertyKind::TextAlign,
        }
    }
}

impl Property {
    /// An equal copy of this property.
    pub fn duplicate(&self) -> (r: Property)
        ensures
            r == *self,
    {
        match self {
            Property::Family(f) => Property::Family(f.clone()),
            Property::Size(x) => Property::Size(*x),
            Property::Left(x) => Property::Left(*x),
            Property::Width(x) => Property::Width(*x),
            Property::Right(x) => Property::Right(*x),
            Property::Top(x) => Property::Top(*x),
            Property::Height(x) => Property::Height(*x),
            Property::Bottom(x) => Property::Bottom(*x),
            Property::Color(x) => Property::Color(*x),
            Property::BgColor(x) => Property::BgColor(*x),
            Property::FocusColor(x) => Property::FocusColor(*x),
            Property::FocusBgColor(x) => Property::FocusBgColor(*x),
            Property::DisabledColor(x) => Property::DisabledColor(*x),
            Property::DisabledBgColor(x) => Property::DisabledBgColor(*x),
            Property::OverflowX(x) => Property::OverflowX(*x),
            Property::OverflowY(x) => Property::OverflowY(*x),
            Property::Enabled(x) => Property::Enabled(*x),
            Property::HoverColor(x) => Property::HoverColor(*x),
            Property::HoverBgColor(x) => Property::HoverBgColor(*x),
            Property::TextAlign(x) => Property::TextAlign(*x),
        }
    }
}

impl PartialEq for Property {
    fn eq(&self, other: &Property) -> (r: bool) {
        self.kind() == other.kind()
    }
}

impl Eq for Property {
}

impl vstd::std_specs::cmp::PartialEqSpecImpl for Property {
    open spec fn obeys_eq_spec() -> bool {
        true
    }

    open spec fn eq_spec(&self, other: &Property) -> bool {
        kind(*self) == kind(*other)
    }
}


/// Bit patterns of the `f32` values that the default style uses.
pub const F32_ZERO: u32 = 0x0000_0000;
pub const F32_POINT_TWO: u32 = 0x3e4c_cccd;
pub const F32_POINT_EIGHT: u32 = 0x3f4c_cccd;
pub const F32_POINT_NINE: u32 = 0x3f66_6666;
pub const F32_ONE: u32 = 0x3f80_0000;

/// The properties that `Properties::default` sets, by kind, but for the font
/// family, which it sets to "Arial".
pub open spec fn default_properties() -> Map<PropertyKind, Property> {
    Map::<PropertyKind, Property>::empty()
        .insert(PropertyKind::Size, Property::Size(12))
        .insert(PropertyKind::Left, Property::Left(Unit::Stretch(F32_ZERO)))
        .insert(PropertyKind::Width, Property::Width(Unit::Stretch(F32_ONE)))
        .insert(PropertyKind::Right, Property::Right(Unit::Stretch(F32_ZERO)))
        .insert(PropertyKind::Top, Property::Top(Unit::Stretch(F32_ZERO)))
        .insert(PropertyKind::Height, Property::Height(Unit::Stretch(F32_ONE)))
        .insert(PropertyKind::Bottom, Property::Bottom(Unit::Stretch(F32_ZERO)))
        .insert(PropertyKind::Color, Property::Color(Rgba { r: F32_POINT_TWO, g: F32_POINT_TWO, b: F32_POINT_TWO, a: F32_ONE }))
        .insert(PropertyKind::BgColor, Property::BgColor(Rgba { r: F32_ONE, g: F32_ONE, b: F32_ONE, a: F32_ONE }))
        .insert(PropertyKind::FocusColor, Property::FocusColor(Rgba { r: F32_ZERO, g: F32_ZERO, b: F32_ZERO, a: F32_ONE }))
        .insert(PropertyKind::FocusBgColor, Property::FocusBgColor(Rgba { r: F32_POINT_NINE, g: F32_POINT_NINE, b: F32_POINT_NINE, a: F32_ONE }))
        .insert(PropertyKind::DisabledColor, Property::DisabledColor(Rgba { r: F32_POINT_TWO, g: F32_POINT_TWO, b: F32_POINT_TWO, a: F32_ONE }))
        .insert(PropertyKind::DisabledBgColor, Property::DisabledBgColor(Rgba { r: F32_POINT_EIGHT, g: F32_POINT_EIGHT, b: F32_POINT_EIGHT, a: F32_ONE }))
        .insert(PropertyKind::OverflowX, Property::OverflowX(Overflow::Hidden))
        .insert(PropertyKind::OverflowY, Property::OverflowY(Overflow::Hidden))
        .insert(PropertyKind::Enabled, Property::Enabled(true))
}

/// Whether `p` is a font family property naming `name`.
pub open spec fn is_family(p: Property, name: Seq<char>) -> bool {
    p matches Property::Family(s) && s@ == name
}

/// A set of style properties holding at most one property of each kind.
///
/// Property `p` is kept in slot `slot_of(kind(p))`.
#[derive(Clone, Debug)]
pub struct Properties {
    slots: Vec<Option<Property>>,
}

impl Properties {
    /// The properties held, by kind.
    pub closed spec fn view(&self) -> Map<PropertyKind, Property> {
        Map::new(
            |k: PropertyKind|
                slot_of(k) < self.slots@.len() && self.slots@[slot_of(k) as int] is Some
                    && kind(self.slots@[slot_of(k) as int]->0) == k,
            |k: PropertyKind| self.slots@[slot_of(k) as int]->0,
        )
    }

    /// An empty set of properties.
    pub fn new() -> (r: Properties)
        ensures
            r.view() == Map::<PropertyKind, Property>::empty(),
    {
        let mut slots: Vec<Option<Property>> = Vec::new();
        let mut i: usize = 0;
        while i < KIND_COUNT
            invariant
                slots@.len() == i,
                forall|j: int| 0 <= j < i ==> slots@[j] is None,
            decreases KIND_COUNT - i,
        {
            slots.push(None);
            i += 1;
        }
        let r = Properties { slots };
        assert(r.view() =~= Map::<PropertyKind, Property>::empty());
        r
    }

    /// An equal copy of this set.
    pub fn duplicate(&self) -> (r: Properties)
        ensures
            r.view() == self.view(),
    {
        let mut slots: Vec<Option<Property>> = Vec::new();
        let n = self.slots.len();
        let mut i: usize = 0;
        while i < n
            invariant
                n == self.slots@.len(),
                i <= n,
                slots@ == self.slots@.take(i as int),
            decreases n - i,
        {
            let copy = match &self.slots[i] {
                Some(p) => Some(p.duplicate()),
                None => None,
            };
            slots.push(copy);
            assert(self.slots@.take(i as int).push(self.slots@[i as int]) =~= self.slots@.take(i + 1));
            i += 1;
        }
        assert(self.slots@.take(n as int) =~= self.slots@);
        let r = Properties { slots };
        assert(r.view() =~= self.view());
        r
    }

    /// Sets the default style: every kind but the hover colours and the text
    /// alignment gets the value of `default_properties`.
    pub fn default(&mut self) -> (r: &mut Properties)
        ensures
            r.view() == old(self).view().union_prefer_right(default_properties()).insert(
                PropertyKind::Family,
                r.view()[PropertyKind::Family],
            ),
            is_family(r.view()[PropertyKind::Family], "Arial"@),
            *final(self) == *final(r),
    {
        let ghost start = self.view();
        self.set(Property::Size(12))
            .set(Property::Family("Arial".to_owned()))
            .set(Property::Left(Unit::Stretch(F32_ZERO)))
            .set(Property::Width(Unit::Stretch(F32_ONE)))
            .set(Property::Right(Unit::Stretch(F32_ZERO)))
            .set(Property::Top(Unit::Stretch(F32_ZERO)))
            .set(Property::Height(Unit::Stretch(F32_ONE)))
            .set(Property::Bottom(Unit::Stretch(F32_ZERO)))
            .set(Property::Color(Rgba::new(F32_POINT_TWO, F32_POINT_TWO, F32_POINT_TWO, F32_ONE)))
            .set(Property::BgColor(Rgba::new(F32_ONE, F32_ONE, F32_ONE, F32_ONE)))
            .set(Property::FocusColor(Rgba::new(F32_ZERO, F32_ZERO, F32_ZERO, F32_ONE)))
            .set(Property::FocusBgColor(Rgba::new(F32_POINT_NINE, F32_POINT_NINE, F32_POINT_NINE, F32_ONE)))
            .set(Property::DisabledColor(Rgba::new(F32_POINT_TWO, F32_POINT_TWO, F32_POINT_TWO, F32_ONE)))
            .set(Property::DisabledBgColor(Rgba::new(F32_POINT_EIGHT, F32_POINT_EIGHT, F32_POINT_EIGHT, F32_ONE)))
            .set(Property::OverflowX(Overflow::Hidden))
            .set(Property::OverflowY(Overflow::Hidden));
        let r = self.set(Property::Enabled(true));
        assert(r.view() =~= start.union_prefer_right(default_properties()).insert(
            PropertyKind::Family,
            r.view()[PropertyKind::Family],
        ));
        r
    }

    /// Puts `property` in the set, in place of the property of the same kind.
    pub fn set(&mut self, property: Property) -> (r: &mut Properties)
        ensures
            r.view() == old(self).view().insert(kind(property), property),
            *final(self) == *final(r),
    {
        let k = property.kind().slot();
        while self.slots.len() <= k
            invariant
                self.view() == old(self).view(),
            decreases k + 1 - self.slots.len(),
        {
            self.slots.push(None);
            assert(self.view() =~= old(self).view());
        }
        self.slots.set(k, Some(property));
        assert(self.view() =~= old(self).view().insert(kind(property), property));
        self
    }

    /// The property of the same kind as `property`, if the set holds one.
    pub fn get(&self, property: &Property) -> (r: Option<&Property>)
        ensures
            r == (if self.view().contains_key(kind(*property)) {
                Some(&self.view()[kind(*property)])
            } else {
                None
            }),
    {
        self.get_kind(property.kind())
    }

    /// The size in pixels; the set must hold a property of that kind.
    pub fn get_size(&self) -> (r: i32)
        requires
            self.view().contains_key(PropertyKind::Size),
        ensures
            self.view()[PropertyKind::Size] == Property::Size(r),
    {
        match self.get_kind(PropertyKind::Size) {
            Some(Property::Size(x)) => *x,
            _ => 0,
        }
    }

    /// The left margin; the set must hold a property of that kind.
    pub fn get_left(&self) -> (r: Unit)
        requires
            self.view().contains_key(PropertyKind::Left),
        ensures
            self.view()[PropertyKind::Left] == Property::Left(r),
    {
        match self.get_kind(PropertyKind::Left) {
            Some(Property::Left(x)) => *x,
            _ => Unit::Natural,
        }
    }

    /// The width; the set must hold a property of that kind.
    pub fn get_width(&self) -> (r: Unit)
        requires
            self.view().contains_key(PropertyKind::Width),
        ensures
            self.view()[PropertyKind::Width] == Property::Width(r),
    {
        match self.get_kind(PropertyKind::Width) {
            Some(Property::Width(x)) => *x,
            _ => Unit::Natural,
        }
    }

    /// The right margin; the set must hold a property of that kind.
    pub fn get_right(&self) -> (r: Unit)
        requires
            self.view().contains_key(PropertyKind::Right),
        ensures
            self.view()[PropertyKind::Right] == Property::Right(r),
    {
        match self.get_kind(PropertyKind::Right) {
            Some(Property::Right(x)) => *x,
            _ => Unit::Natural,
        }
    }

    /// The top margin; the set must hold a property of that kind.
    pub fn get_top(&self) -> (r: Unit)
        requires
            self.view().contains_key(PropertyKind::Top),
        ensures
            self.view()[PropertyKind::Top] == Property::Top(r),
    {
        match self.get_kind(PropertyKind::Top) {
            Some(Property::Top(x)) => *x,
            _ => Unit::Natural,
        }
    }

    /// The height; the set must hold a property of that kind.
    pub fn get_height(&self) -> (r: Unit)
        requires
            self.view().contains_key(PropertyKind::Height),
        ensures
            self.view()[PropertyKind::Height] == Property::Height(r),
    {
        match self.get_kind(PropertyKind::Height) {
            Some(Property::Height(x)) => *x,
            _ => Unit::Natural,
        }
    }

    /// The bottom margin; the set must hold a property of that kind.
    pub fn get_bottom(&self) -> (r: Unit)
        requires
            self.view().contains_key(PropertyKind::Bottom),
        ensures
            self.view()[PropertyKind::Bottom] == Property::Bottom(r),
    {
        match self.get_kind(PropertyKind::Bottom) {
            Some(Property::Bottom(x)) => *x,
            _ => Unit::Natural,
        }
    }

    /// The text colour; the set must hold a property of that kind.
    pub fn get_color(&self) -> (r: Rgba)
        requires
            self.view().contains_key(PropertyKind::Color),
        ensures
            self.view()[PropertyKind::Color] == Property::Color(r),
    {
        match self.get_kind(PropertyKind::Color) {
            Some(Property::Color(x)) => *x,
            _ => Rgba::new(0, 0, 0, 0),
        }
    }

    /// The background colour; the set must hold a property of that kind.
    pub fn get_bg_color(&self) -> (r: Rgba)
        requires
            self.view().contains_key(PropertyKind::BgColor),
        ensures
            self.view()[PropertyKind::BgColor] == Property::BgColor(r),
    {
        match self.get_kind(PropertyKind::BgColor) {
            Some(Property::BgColor(x)) => *x,
            _ => Rgba::new(0, 0, 0, 0),
        }
    }

    /// The text colour when focused; the set must hold a property of that kind.
    pub fn get_focus_color(&self) -> (r: Rgba)
        requires
            self.view().contains_key(PropertyKind::FocusColor),
        ensures
            self.view()[PropertyKind::FocusColor] == Property::FocusColor(r),
    {
        match self.get_kind(PropertyKind::FocusColor) {
            Some(Property::FocusColor(x)) => *x,
            _ => Rgba::new(0, 0, 0, 0),
        }
    }

    /// The background colour when focused; the set must hold a property of that kind.
    pub fn get_focus_bg_color(&self) -> (r: Rgba)
        requires
            self.view().contains_key(PropertyKind::FocusBgColor),
        ensures
            self.view()[PropertyKind::FocusBgColor] == Property::FocusBgColor(r),
    {
        match self.get_kind(PropertyKind::FocusBgColor) {
            Some(Property::FocusBgColor(x)) => *x,
            _ => Rgba::new(0, 0, 0, 0),
        }
    }

    /// The text colour when disabled; the set must hold a property of that kind.
    pub fn get_disabled_color(&self) -> (r: Rgba)
        requires
            self.view().contains_key(PropertyKind::DisabledColor),
        ensures
            self.view()[PropertyKind::DisabledColor] == Property::DisabledColor(r),
    {
        match self.get_kind(PropertyKind::DisabledColor) {
            Some(Property::DisabledColor(x)) => *x,
            _ => Rgba::new(0, 0, 0, 0),
        }
    }

    /// The background colour when disabled; the set must hold a property of that kind.
    pub fn get_disabled_bg_color(&self) -> (r: Rgba)
        requires
            self.view().contains_key(PropertyKind::DisabledBgColor),
        ensures
            self.view()[PropertyKind::DisabledBgColor] == Property::DisabledBgColor(r),
    {
        match self.get_kind(PropertyKind::DisabledBgColor) {
            Some(Property::DisabledBgColor(x)) => *x,
            _ => Rgba::new(0, 0, 0, 0),
        }
    }

    /// The text colour under the pointer; the set must hold a property of that kind.
    pub fn get_hover_color(&self) -> (r: Rgba)
        requires
            self.view().contains_key(PropertyKind::HoverColor),
        ensures
            self.view()[PropertyKind::HoverColor] == Property::HoverColor(r),
    {
        match self.get_kind(PropertyKind::HoverColor) {
            Some(Property::HoverColor(x)) => *x,
            _ => Rgba::new(0, 0, 0, 0),
        }
    }

    /// The background colour under the pointer; the set must hold a property of that kind.
    pub fn get_hover_bg_color(&self) -> (r: Rgba)
        requires
            self.view().contains_key(PropertyKind::HoverBgColor),
        ensures
            self.view()[PropertyKind::HoverBgColor] == Property::HoverBgColor(r),
    {
        match self.get_kind(PropertyKind::HoverBgColor) {
            Some(Property::HoverBgColor(x)) => *x,
            _ => Rgba::new(0, 0, 0, 0),
        }
    }

    /// The horizontal overflow; the set must hold a property of that kind.
    pub fn get_overflow_x(&self) -> (r: Overflow)
        requires
            self.view().contains_key(PropertyKind::OverflowX),
        ensures
            self.view()[PropertyKind::OverflowX] == Property::OverflowX(r),
    {
        match self.get_kind(PropertyKind::OverflowX) {
            Some(Property::OverflowX(x)) => *x,
            _ => Overflow::Hidden,
        }
    }

    /// The vertical overflow; the set must hold a property of that kind.
    pub fn get_overflow_y(&self) -> (r: Overflow)
        requires
            self.view().contains_key(PropertyKind::OverflowY),
        ensures
            self.view()[PropertyKind::OverflowY] == Property::OverflowY(r),
    {
        match self.get_kind(PropertyKind::OverflowY) {
            Some(Property::OverflowY(x)) => *x,
            _ => Overflow::Hidden,
        }
    }

    /// The enabled flag; the set must hold a property of that kind.
    pub fn get_enabled(&self) -> (r: bool)
        requires
            self.view().contains_key(PropertyKind::Enabled),
        ensures
            self.view()[PropertyKind::Enabled] == Property::Enabled(r),
    {
        match self.get_kind(PropertyKind::Enabled) {
            Some(Property::Enabled(x)) => *x,
            _ => false,
        }
    }

    /// The text alignment; the set must hold a property of that kind.
    pub fn get_text_align(&self) -> (r: Align)
        requires
            self.view().contains_key(PropertyKind::TextAlign),
        ensures
            self.view()[PropertyKind::TextAlign] == Property::TextAlign(r),
    {
        match self.get_kind(PropertyKind::TextAlign) {
            Some(Property::TextAlign(x)) => *x,
            _ => Align::Left,
        }
    }

    /// The font family; the set must hold a property of that kind.
    pub fn get_family(&self) -> (r: String)
        requires
            self.view().contains_key(PropertyKind::Family),
        ensures
            self.view()[PropertyKind::Family] == Property::Family(r),
    {
        match self.get_kind(PropertyKind::Family) {
            Some(Property::Family(x)) => x.clone(),
            _ => String::new(),
        }
    }

    /// The property of kind `k`, if the set holds one.
    pub fn get_kind(&self, k: PropertyKind) -> (r: Option<&Property>)
        ensures
            r == (if self.view().contains_key(k) {
                Some(&self.view()[k])
            } else {
                None
            }),
    {
        let i = k.slot();
        if i < self.slots.len() {
            match &self.slots[i] {
                Some(p) => {
                    if p.kind() == k {
                        Some(p)
                    } else {
                        None
                    }
                },
                None => None,
            }
        } else {
            None
        }
    }
}


/// Reading a kind after setting a property of that kind gives that property.
pub proof fn law_get_after_set(m: Map<PropertyKind, Property>, p: Property)
    ensures
        m.insert(kind(p), p).contains_key(kind(p)),
        m.insert(kind(p), p)[kind(p)] == p,
{
}

/// Of two properties of the same kind set one after the other, the later one
/// stays: the set never holds two properties of one kind.
pub proof fn law_set_same_kind_replaces(m: Map<PropertyKind, Property>, p: Property, q: Property)
    requires
        kind(p) == kind(q),
    ensures
        m.insert(kind(p), p).insert(kind(q), q) == m.insert(kind(q), q),
{
    assert(m.insert(kind(p), p).insert(kind(q), q) =~= m.insert(kind(q), q));
}

/// Setting a property leaves the properties of the other kinds as they were.
pub proof fn law_set_keeps_other_kinds(m: Map<PropertyKind, Property>, p: Property, k: PropertyKind)
    requires
        k != kind(p),
    ensures
        m.insert(kind(p), p).contains_key(k) == m.contains_key(k),
        m.contains_key(k) ==> m.insert(kind(p), p)[k] == m[k],
{
}

/// After `Properties::default` every kind is present but the hover colours and
/// the text alignment, so the getters of all other kinds can be called.
pub proof fn law_default_is_complete(before: Map<PropertyKind, Property>, family: Property, k: PropertyKind)
    requires
        k != PropertyKind::HoverColor,
        k != PropertyKind::HoverBgColor,
        k != PropertyKind::TextAlign,
    ensures
        before.union_prefer_right(default_properties()).insert(PropertyKind::Family, family).contains_key(k),
{
}

/// A point in layout space; each coordinate is the bit pattern of an `f32`.
#[derive(Clone, Copy, Debug)]
pub struct Position {
    pub x: u32,
    pub y: u32,
}

/// A window size in logical pixels; each field is the bit pattern of an `f64`.
#[derive(Clone, Copy, Debug)]
pub struct LogicalSize {
    pub width: u64,
    pub height: u64,
}

/// Modifier keys held during an input event.
#[derive(Clone, Copy, Debug, PartialEq, Eq, Structural)]
pub struct Modifiers {
    pub shift: bool,
    pub ctrl: bool,
    pub alt: bool,
    pub logo: bool,
}

#[derive(Clone, Copy, Debug, PartialEq, Eq, Structural)]
pub enum ButtonState {
    Pressed,
    Released,
}

/// A mouse button.
#[derive(Clone, Copy, Debug, PartialEq, Eq, Structural)]
pub enum Button {
    Left,
    Middle,
    Right,
    Other,
}

/// Hands out ids to the elements of a window, one per element and frame. A
/// window has one generator, lent to each element in turn; it cannot be cloned,
/// so no two generators hand out the same ids.
#[derive(Debug)]
pub struct IdGenerator {
    next_id: u64,
}

impl IdGenerator {
    /// The last id handed out (or the start value).
    pub closed spec fn view(&self) -> u64 {
        self.next_id
    }

    pub fn new(start: u64) -> (g: IdGenerator)
        ensures
            g@ == start,
    {
        IdGenerator { next_id: start }
    }

    /// The last id handed out (or the start value).
    pub fn last(&self) -> (id: u64)
        ensures
            id == self@,
    {
        self.next_id
    }

    /// The next id: one more than the last one.
    pub fn get(&mut self) -> (id: u64)
        requires
            old(self)@ < u64::MAX,
        ensures
            id == old(self)@ + 1,
            final(self)@ == id,
    {
        self.next_id = self.next_id + 1;
        self.next_id
    }

    /// Starts again: the next id handed out is 1.
    pub fn zero(&mut self)
        ensures
            final(self)@ == 0,
    {
        self.next_id = 0;
    }
}

} // verus!
