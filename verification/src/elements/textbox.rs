//! The text box: an editable (or read-only) piece of text with a cursor.
//!
//! Where the cursor stands in the text is found by the text layout from the
//! position of a click; the layout hands that result, the index of the character
//! under the pointer and whether the pointer was past its middle, to
//! `on_primitive_event`. The clipboard is the caller's: it hands in the text to
//! paste and takes the text to copy.
use vstd::prelude::*;

use crate::elements::element::{
    tags_contain, tags_name, CanDisable, ElementEvent, ItemTag, PrimitiveEvent, Reaction,
};
use crate::gui::properties::{
    self, default_properties, is_family, IdGenerator, Properties, Property, PropertyKind, Unit,
};
use crate::text::{chars_of, string_of};

verus! {

/// The backspace character.
pub const BACKSPACE: char = '\u{8}';

/// The delete character.
pub const DELETE: char = '\u{7f}';

/// Control-C (copy); typed, it hands out the text and changes nothing.
pub const COPY: char = '\u{3}';

/// Control-V (paste); typed, it inserts the clipboard's text at the cursor.
pub const PASTE: char = '\u{16}';

/// The character shown in place of each character of a password.
pub const BULLET: char = '\u{25cf}';

/// The abstract state of a text box.
pub ghost struct TextBoxModel {
    pub ext_id: u64,
    pub value: Seq<char>,
    pub placeholder: Seq<char>,
    pub props: Map<PropertyKind, Property>,
    pub focus: bool,
    pub drawn: u8,
    pub editable: bool,
    pub enabled: bool,
    pub singleline: bool,
    /// Where the last click put the cursor: the index of the character there
    /// and whether the click was past that character's middle.
    pub cursor: Option<(usize, bool)>,
    pub cursor_index: usize,
    pub cursor_after: bool,
    pub hovering: bool,
    pub is_password: bool,
    pub selecting: bool,
}

/// A text box's state: its text, placeholder, style and cursor.
pub struct TextBox {
    ext_id: u64,
    value: Vec<char>,
    placeholder: Vec<char>,
    props: Properties,
    focus: bool,
    drawn: u8,
    editable: bool,
    enabled: bool,
    singleline: bool,
    cursor: Option<(usize, bool)>,
    cursor_index: usize,
    cursor_after: bool,
    hovering: bool,
    is_password: bool,
    selecting: bool,
}

/// Whether typed characters reach the text.
pub open spec fn accepts_input(m: TextBoxModel) -> bool {
    m.focus && m.enabled && m.editable
}

/// `c` with a carriage return read as a line feed.
pub open spec fn typed(c: char) -> char {
    if c == '\r' {
        '\n'
    } else {
        c
    }
}

/// Whether `c` inserts itself (it is no editing key).
pub open spec fn is_printing(c: char) -> bool {
    c != BACKSPACE && c != DELETE && c != COPY && c != PASTE
}

/// The position in the text that the cursor stands at: before the character
/// `cursor_index`, or after it.
pub open spec fn caret(m: TextBoxModel) -> int {
    if m.cursor_after {
        m.cursor_index + 1
    } else {
        m.cursor_index as int
    }
}

/// Whether typing `c` (with `paste` on the clipboard) stays within the text:
/// the editing step never removes or inserts past its end. (Elsewhere the step
/// would panic.)
pub open spec fn edit_in_range(m: TextBoxModel, c: char, paste: Seq<char>) -> bool {
    let len = m.value.len();
    let i = m.cursor_index as int;
    accepts_input(m) ==> {
        &&& c == BACKSPACE && len > 0 && m.cursor_after ==> i < len
        &&& c == BACKSPACE && len > 0 && !m.cursor_after && i > 0 ==> i <= len
        &&& is_printing(c) && m.cursor is Some ==> caret(m) <= len
        &&& c == PASTE ==> caret(m) <= len && len + paste.len() <= usize::MAX
    }
}

/// The text box after `c` was typed.
///
/// Backspace removes the character at the cursor when the cursor is after it,
/// else the one before the cursor; delete removes the character after the
/// cursor when the cursor is after its character, else the one at the cursor;
/// copy changes nothing; paste inserts `paste` at the cursor and puts the cursor
/// after it; any other character is inserted at the cursor if a click has placed
/// it.
pub open spec fn edit(m: TextBoxModel, c: char, paste: Seq<char>) -> TextBoxModel {
    let len = m.value.len();
    let i = m.cursor_index as int;
    if !accepts_input(m) {
        m
    } else if c == BACKSPACE {
        if len > 0 && m.cursor_after {
            if i == 0 {
                TextBoxModel { value: m.value.remove(i), cursor_after: false, ..m }
            } else {
                TextBoxModel { value: m.value.remove(i), cursor_index: (i - 1) as usize, ..m }
            }
        } else if len > 0 && i > 0 {
            TextBoxModel { value: m.value.remove(i - 1), cursor_index: (i - 1) as usize, ..m }
        } else {
            m
        }
    } else if c == DELETE {
        if len > i + 1 && m.cursor_after {
            TextBoxModel { value: m.value.remove(i + 1), ..m }
        } else if len > i && !m.cursor_after {
            let rest = m.value.remove(i);
            if i > 0 && i == rest.len() {
                TextBoxModel {
                    value: rest,
                    cursor_index: (i - 1) as usize,
                    cursor_after: true,
                    ..m
                }
            } else {
                TextBoxModel { value: rest, ..m }
            }
        } else {
            m
        }
    } else if c == PASTE {
        let at = caret(m);
        TextBoxModel {
            value: m.value.subrange(0, at) + paste + m.value.subrange(at, len as int),
            cursor_index: (i + paste.len()) as usize,
            ..m
        }
    } else if c == COPY || m.cursor is None {
        m
    } else {
        let at = if m.cursor_after {
            i + 1
        } else {
            i
        };
        let value = m.value.insert(at, typed(c));
        if value.len() == 1 {
            TextBoxModel { value, cursor_index: 0, cursor_after: true, ..m }
        } else {
            TextBoxModel { value, cursor_index: (i + 1) as usize, ..m }
        }
    }
}

/// The text box after a click or drag found the character `hit` under the
/// pointer: the cursor goes to that character. Nothing changes where no
/// character of the text was found.
pub open spec fn place_cursor(m: TextBoxModel, hit: Option<(usize, bool)>) -> TextBoxModel {
    match hit {
        Some(h) => if h.0 < m.value.len() {
            TextBoxModel { cursor: Some(h), cursor_index: h.0, cursor_after: h.1, ..m }
        } else {
            m
        },
        None => m,
    }
}

/// Whether the first tag of `ext_ids` is the text box's own.
pub open spec fn aimed_at(m: TextBoxModel, ext_ids: Seq<ItemTag>) -> bool {
    ext_ids.len() > 0 && ext_ids[0].0 == m.ext_id
}

/// The text box after the primitive event `e`, the tags under the pointer
/// `ext_ids`, the character `hit` found under the pointer and the clipboard's
/// text `paste`, with its answer.
pub open spec fn react(
    m: TextBoxModel,
    ext_ids: Seq<ItemTag>,
    e: PrimitiveEvent,
    hit: Option<(usize, bool)>,
    paste: Seq<char>,
) -> (TextBoxModel, Reaction) {
    match e {
        PrimitiveEvent::Char(c) => (edit(m, c, paste), Reaction::Handled(accepts_input(m))),
        PrimitiveEvent::SetFocus(f) => {
            if m.enabled && m.focus != f {
                (TextBoxModel { focus: f, ..m }, Reaction::RunHandler(ElementEvent::FocusChange))
            } else {
                (m, Reaction::Handled(false))
            }
        },
        PrimitiveEvent::Button(_p, b, s, _mods) => {
            if aimed_at(m, ext_ids) && b == properties::Button::Left {
                if s == properties::ButtonState::Pressed {
                    (place_cursor(TextBoxModel { selecting: true, ..m }, hit), Reaction::Handled(false))
                } else {
                    (
                        place_cursor(TextBoxModel { selecting: false, ..m }, hit),
                        Reaction::RunHandler(ElementEvent::Clicked),
                    )
                }
            } else {
                (m, Reaction::Handled(false))
            }
        },
        PrimitiveEvent::CursorMoved(_p) => {
            if m.selecting && aimed_at(m, ext_ids) {
                (place_cursor(m, hit), Reaction::Handled(false))
            } else {
                (m, Reaction::Handled(false))
            }
        },
        PrimitiveEvent::HoverBegin(tags) => {
            if tags_name(tags@, m.ext_id) {
                (TextBoxModel { hovering: true, ..m }, Reaction::Handled(false))
            } else {
                (m, Reaction::Handled(false))
            }
        },
        PrimitiveEvent::HoverEnd(tags) => {
            if tags_name(tags@, m.ext_id) {
                (TextBoxModel { hovering: false, ..m }, Reaction::Handled(false))
            } else {
                (m, Reaction::Handled(false))
            }
        },
        _ => (m, Reaction::Handled(false)),
    }
}

/// The text a primitive event hands to the clipboard: the whole text, for a
/// copy typed into a text box that takes input.
pub open spec fn copy_of(m: TextBoxModel, e: PrimitiveEvent) -> Option<Seq<char>> {
    match e {
        PrimitiveEvent::Char(c) => if c == COPY && accepts_input(m) {
            Some(m.value)
        } else {
            None
        },
        _ => None,
    }
}

/// Whether the event can be taken without an editing step going past the end of
/// the text.
pub open spec fn event_in_range(m: TextBoxModel, e: PrimitiveEvent, paste: Seq<char>) -> bool {
    match e {
        PrimitiveEvent::Char(c) => edit_in_range(m, c, paste),
        _ => true,
    }
}

/// The kinds of the text and background colours the text box is drawn with.
pub open spec fn color_kinds(m: TextBoxModel) -> (PropertyKind, PropertyKind) {
    let (fg, bg) = if !m.enabled {
        (PropertyKind::DisabledColor, PropertyKind::DisabledBgColor)
    } else if m.focus && m.editable {
        (PropertyKind::FocusColor, PropertyKind::FocusBgColor)
    } else if m.hovering {
        (PropertyKind::HoverColor, PropertyKind::HoverBgColor)
    } else {
        (PropertyKind::Color, PropertyKind::BgColor)
    };
    if m.value.len() == 0 && m.placeholder.len() > 0 && !m.focus && !m.hovering {
        (PropertyKind::DisabledColor, bg)
    } else {
        (fg, bg)
    }
}

/// The text that is drawn: the value (as bullets for a password), or the
/// placeholder when the value is empty.
pub open spec fn shown_text(m: TextBoxModel) -> Seq<char> {
    if m.value.len() == 0 {
        m.placeholder
    } else if m.is_password {
        Seq::new(m.value.len(), |i: int| BULLET)
    } else {
        m.value
    }
}

/// The cursor stands within the text: at most at its end, and before its end
/// when it is after a character.
pub open spec fn cursor_in_text(m: TextBoxModel) -> bool {
    &&& m.cursor_index <= m.value.len()
    &&& m.cursor_after ==> m.cursor_index < m.value.len()
}

/// How a text box is coloured: a disabled one with the disabled colours; an
/// enabled, editable, focused one with the focus colours, whether or not the
/// pointer is over it; otherwise one under the pointer with the hover colours,
/// and the others with the plain colours, but for an empty text box that shows
/// its placeholder, whose text is drawn in the disabled colour.
pub proof fn law_colours_by_state(m: TextBoxModel)
    ensures
        !m.enabled ==> color_kinds(m) == (PropertyKind::DisabledColor, PropertyKind::DisabledBgColor),
        m.enabled && m.editable && m.focus ==> color_kinds(m) == (PropertyKind::FocusColor, PropertyKind::FocusBgColor),
        m.enabled && !(m.editable && m.focus) && m.hovering ==> color_kinds(m) == (
            PropertyKind::HoverColor,
            PropertyKind::HoverBgColor,
        ),
        m.enabled && !(m.editable && m.focus) && !m.hovering ==> color_kinds(m).1 == PropertyKind::BgColor,
        m.enabled && !(m.editable && m.focus) && !m.hovering && !(m.value.len() == 0 && m.placeholder.len() > 0 && !m.focus)
            ==> color_kinds(m).0 == PropertyKind::Color,
        m.enabled && !m.focus && !m.hovering && m.value.len() == 0 && m.placeholder.len() > 0 ==> color_kinds(m).0
            == PropertyKind::DisabledColor,
{
}

/// A text box that does not take input (unfocused, disabled or read-only)
/// ignores typed characters.
pub proof fn law_inactive_ignores_typing(m: TextBoxModel, c: char, paste: Seq<char>)
    requires
        !accepts_input(m),
    ensures
        edit(m, c, paste) == m,
        copy_of(m, PrimitiveEvent::Char(c)) is None,
{
}

/// Copy, typed into a text box that takes input, hands out the whole text and
/// changes nothing.
pub proof fn law_copy_hands_out_the_text(m: TextBoxModel, paste: Seq<char>)
    requires
        accepts_input(m),
    ensures
        edit(m, COPY, paste) == m,
        copy_of(m, PrimitiveEvent::Char(COPY)) == Some(m.value),
{
}

/// Paste inserts the clipboard's text at the cursor and puts the cursor after
/// it.
pub proof fn law_paste_inserts_at_the_cursor(m: TextBoxModel, paste: Seq<char>)
    requires
        accepts_input(m),
        edit_in_range(m, PASTE, paste),
    ensures
        edit(m, PASTE, paste).value == m.value.subrange(0, caret(m)) + paste + m.value.subrange(
            caret(m),
            m.value.len() as int,
        ),
        caret(edit(m, PASTE, paste)) == caret(m) + paste.len(),
{
}

/// A typed character, once a click has placed the cursor, is inserted at the
/// cursor (a carriage return as a line feed), and the cursor moves past it.
pub proof fn law_typing_inserts_at_the_cursor(m: TextBoxModel, c: char, paste: Seq<char>)
    requires
        m.value.len() < usize::MAX,
        accepts_input(m),
        m.cursor is Some,
        is_printing(c),
        edit_in_range(m, c, paste),
    ensures
        edit(m, c, paste).value == m.value.insert(caret(m), typed(c)),
        caret(edit(m, c, paste)) == caret(m) + 1,
{
}

/// Backspace removes the character before the cursor, if there is one, and the
/// cursor moves back over it.
pub proof fn law_backspace_removes_before_the_cursor(m: TextBoxModel, paste: Seq<char>)
    requires
        accepts_input(m),
        cursor_in_text(m),
        caret(m) > 0,
    ensures
        edit(m, BACKSPACE, paste).value == m.value.remove(caret(m) - 1),
        caret(edit(m, BACKSPACE, paste)) == caret(m) - 1,
{
}

/// Typing keeps the cursor within the text, so that typing can go on.
pub proof fn law_typing_keeps_cursor_in_text(m: TextBoxModel, c: char, paste: Seq<char>)
    requires
        cursor_in_text(m),
        m.value.len() + paste.len() <= usize::MAX,
    ensures
        edit_in_range(m, c, paste),
        cursor_in_text(edit(m, c, paste)),
{
}

/// Every event keeps the cursor within the text: the cursor never stands past
/// its end, whatever the event and whatever was found under the pointer.
pub proof fn law_events_keep_cursor_in_text(
    m: TextBoxModel,
    ext_ids: Seq<ItemTag>,
    e: PrimitiveEvent,
    hit: Option<(usize, bool)>,
    paste: Seq<char>,
)
    requires
        cursor_in_text(m),
        m.value.len() + paste.len() <= usize::MAX,
    ensures
        event_in_range(m, e, paste),
        cursor_in_text(react(m, ext_ids, e, hit, paste).0),
{
    match e {
        PrimitiveEvent::Char(c) => law_typing_keeps_cursor_in_text(m, c, paste),
        _ => {},
    }
}

/// Typing a character other than paste changes the length of the text by at
/// most one.
pub proof fn law_typing_changes_length_by_one(m: TextBoxModel, c: char, paste: Seq<char>)
    requires
        c != PASTE,
        edit_in_range(m, c, paste),
    ensures
        edit(m, c, paste).value.len() <= m.value.len() + 1,
        edit(m, c, paste).value.len() + 1 >= m.value.len(),
{
}

/// Backspace takes back a character just typed: the text and the cursor are as
/// before.
pub proof fn law_backspace_undoes_typing(m: TextBoxModel, c: char, paste: Seq<char>)
    requires
        accepts_input(m),
        m.cursor is Some,
        is_printing(c),
        edit_in_range(m, c, paste),
        m.value.len() < usize::MAX,
    ensures
        edit(edit(m, c, paste), BACKSPACE, paste) == m,
{
    let t = edit(m, c, paste);
    let i = m.cursor_index as int;
    if m.cursor_after {
        assert(t.value.remove(i + 1) =~= m.value);
        assert(t.cursor_index == i + 1);
    } else {
        assert(t.value.remove(i) =~= m.value);
        if m.value.len() == 0 {
            assert(t.value.len() == 1);
        } else {
            assert(t.cursor_index == i + 1);
        }
    }
}

/// A focus change reaches a text box that is enabled: it takes the focus (or
/// loses it) and runs its focus handler if the focus changed; a disabled one
/// keeps its focus.
pub proof fn law_focus_follows_set_focus(m: TextBoxModel, ext_ids: Seq<ItemTag>, f: bool, hit: Option<(usize, bool)>, paste: Seq<char>)
    ensures
        react(m, ext_ids, PrimitiveEvent::SetFocus(f), hit, paste).0.focus == (if m.enabled {
            f
        } else {
            m.focus
        }),
        react(m, ext_ids, PrimitiveEvent::SetFocus(f), hit, paste).1 == (if m.enabled && m.focus != f {
            Reaction::RunHandler(ElementEvent::FocusChange)
        } else {
            Reaction::Handled(false)
        }),
{
}

/// A left click aimed at the text box puts the cursor at the character of the
/// text found under the pointer; releasing the button clicks the text box.
pub proof fn law_click_places_the_cursor(
    m: TextBoxModel,
    ext_ids: Seq<ItemTag>,
    p: properties::Position,
    s: properties::ButtonState,
    mods: properties::Modifiers,
    h: (usize, bool),
    paste: Seq<char>,
)
    requires
        aimed_at(m, ext_ids),
        h.0 < m.value.len(),
    ensures
        ({
            let (n, r) = react(m, ext_ids, PrimitiveEvent::Button(p, properties::Button::Left, s, mods), Some(h), paste);
            &&& n.cursor == Some(h)
            &&& n.cursor_index == h.0
            &&& n.cursor_after == h.1
            &&& n.value == m.value
            &&& n.selecting == (s == properties::ButtonState::Pressed)
            &&& r == (if s == properties::ButtonState::Pressed {
                Reaction::Handled(false)
            } else {
                Reaction::RunHandler(ElementEvent::Clicked)
            })
        }),
{
}

/// `v` with `p` inserted at `at`.
fn spliced(v: &Vec<char>, at: usize, p: &Vec<char>) -> (r: Vec<char>)
    requires
        at <= v@.len(),
        v@.len() + p@.len() <= usize::MAX,
    ensures
        r@ == v@.subrange(0, at as int) + p@ + v@.subrange(at as int, v@.len() as int),
{
    let mut r: Vec<char> = Vec::new();
    let mut j: usize = 0;
    while j < at
        invariant
            at <= v@.len(),
            j <= at,
            r@ == v@.subrange(0, j as int),
        decreases at - j,
    {
        r.push(v[j]);
        assert(r@ =~= v@.subrange(0, j + 1));
        j += 1;
    }
    let mut j: usize = 0;
    while j < p.len()
        invariant
            at <= v@.len(),
            j <= p@.len(),
            r@ == v@.subrange(0, at as int) + p@.take(j as int),
        decreases p@.len() - j,
    {
        r.push(p[j]);
        assert(r@ =~= v@.subrange(0, at as int) + p@.take(j + 1));
        j += 1;
    }
    assert(p@.take(p@.len() as int) =~= p@);
    let mut j: usize = at;
    while j < v.len()
        invariant
            at <= j <= v@.len(),
            r@ == v@.subrange(0, at as int) + p@ + v@.subrange(at as int, j as int),
        decreases v@.len() - j,
    {
        r.push(v[j]);
        assert(r@ =~= v@.subrange(0, at as int) + p@ + v@.subrange(at as int, j + 1));
        j += 1;
    }
    r
}

impl TextBox {
    pub closed spec fn view(&self) -> TextBoxModel {
        TextBoxModel {
            ext_id: self.ext_id,
            value: self.value@,
            placeholder: self.placeholder@,
            props: self.props.view(),
            focus: self.focus,
            drawn: self.drawn,
            editable: self.editable,
            enabled: self.enabled,
            singleline: self.singleline,
            cursor: self.cursor,
            cursor_index: self.cursor_index,
            cursor_after: self.cursor_after,
            hovering: self.hovering,
            is_password: self.is_password,
            selecting: self.selecting,
        }
    }

    /// A text box showing `s`: editable, enabled, unfocused, with the default
    /// style but a natural height.
    pub fn new(s: String) -> (t: TextBox)
        ensures
            t@.value == s@,
            t@.placeholder == Seq::<char>::empty(),
            t@.props == default_properties().insert(
                PropertyKind::Height,
                Property::Height(Unit::Natural),
            ).insert(PropertyKind::Family, t@.props[PropertyKind::Family]),
            is_family(t@.props[PropertyKind::Family], "Arial"@),
            t@.ext_id == 0,
            !t@.focus,
            t@.drawn == 0,
            t@.editable,
            t@.enabled,
            !t@.singleline,
            t@.cursor is None,
            t@.cursor_index == 0,
            !t@.cursor_after,
            !t@.hovering,
            !t@.is_password,
            !t@.selecting,
    {
        let mut props = Properties::new();
        props.default();
        props.set(Property::Height(Unit::Natural));
        let t = TextBox {
            ext_id: 0,
            value: chars_of(s.as_str()),
            placeholder: Vec::new(),
            props,
            focus: false,
            drawn: 0,
            editable: true,
            enabled: true,
            singleline: false,
            cursor: None,
            cursor_index: 0,
            cursor_after: false,
            hovering: false,
            is_password: false,
            selecting: false,
        };
        assert(t@.props =~= default_properties().insert(
            PropertyKind::Height,
            Property::Height(Unit::Natural),
        ).insert(PropertyKind::Family, t@.props[PropertyKind::Family]));
        t
    }

    /// Replaces the text.
    pub fn set_value(&mut self, s: String)
        ensures
            final(self)@ == (TextBoxModel { value: s@, drawn: 0, ..old(self)@ }),
    {
        self.value = chars_of(s.as_str());
        self.drawn = 0;
    }

    /// Appends `s` to the text.
    pub fn append_value(&mut self, s: &str)
        ensures
            final(self)@ == (TextBoxModel { value: old(self)@.value + s@, drawn: 0, ..old(self)@ }),
    {
        let mut tail = chars_of(s);
        self.value.append(&mut tail);
        self.drawn = 0;
    }

    /// The text.
    pub fn get_value(&self) -> (s: String)
        ensures
            s@ == self@.value,
    {
        string_of(&self.value)
    }

    /// Makes the text editable or read-only; a read-only text box loses the
    /// focus.
    pub fn set_editable(&mut self, editable: bool)
        ensures
            final(self)@ == (TextBoxModel {
                editable,
                drawn: 0,
                focus: old(self)@.focus && editable,
                ..old(self)@
            }),
    {
        self.editable = editable;
        self.drawn = 0;
        if !editable {
            self.focus = false;
        }
    }

    pub fn get_editable(&self) -> (r: bool)
        ensures
            r == self@.editable,
    {
        self.editable
    }

    /// Shows the text as bullets (or not).
    pub fn set_is_password(&mut self, val: bool)
        ensures
            final(self)@ == (TextBoxModel { is_password: val, ..old(self)@ }),
    {
        self.is_password = val;
    }

    pub fn set_singleline(&mut self, singleline: bool)
        ensures
            final(self)@ == (TextBoxModel { singleline, ..old(self)@ }),
    {
        self.singleline = singleline;
    }

    /// Where the last click put the cursor: the index of the character there and
    /// whether the click was past its middle; `(0, false)` before any click.
    pub fn get_cursor_index(&self) -> (r: (usize, bool))
        ensures
            r == (match self@.cursor {
                Some(c) => c,
                None => (0usize, false),
            }),
    {
        match self.cursor {
            None => (0, false),
            Some(c) => c,
        }
    }

    /// Where the cursor stands now: its index and whether it is after that
    /// character.
    pub fn cursor(&self) -> (r: (usize, bool))
        ensures
            r == (self@.cursor_index, self@.cursor_after),
    {
        (self.cursor_index, self.cursor_after)
    }

    pub fn set_placeholder(&mut self, p: String)
        ensures
            final(self)@ == (TextBoxModel { placeholder: p@, ..old(self)@ }),
    {
        self.placeholder = chars_of(p.as_str());
    }

    pub fn get_placeholder(&self) -> (s: String)
        ensures
            s@ == self@.placeholder,
    {
        string_of(&self.placeholder)
    }

    pub fn get_ext_id(&self) -> (id: u64)
        ensures
            id == self@.ext_id,
    {
        self.ext_id
    }

    /// Takes the text box's id for this frame from `gen`.
    pub fn take_id(&mut self, gen: &mut IdGenerator) -> (id: u64)
        requires
            old(gen)@ < u64::MAX,
        ensures
            id == old(gen)@ + 1,
            final(gen)@ == id,
            final(self)@ == (TextBoxModel { ext_id: id, ..old(self)@ }),
    {
        let id = gen.get();
        self.ext_id = id;
        id
    }

    /// Sets one style property.
    pub fn set(&mut self, prop: Property)
        ensures
            final(self)@ == (TextBoxModel {
                props: old(self)@.props.insert(properties::kind(prop), prop),
                ..old(self)@
            }),
    {
        self.props.set(prop);
    }

    /// A copy of the style properties.
    pub fn get_properties(&self) -> (p: Properties)
        ensures
            p.view() == self@.props,
    {
        self.props.duplicate()
    }

    /// The style properties.
    pub fn properties(&self) -> (p: &Properties)
        ensures
            p.view() == self@.props,
    {
        &self.props
    }

    /// The text that is drawn.
    pub fn shown_value(&self) -> (v: Vec<char>)
        ensures
            v@ == shown_text(self@),
    {
        if self.value.len() == 0 {
            return self.placeholder.clone();
        }
        if !self.is_password {
            return self.value.clone();
        }
        let n = self.value.len();
        let mut v: Vec<char> = Vec::new();
        let mut i: usize = 0;
        while i < n
            invariant
                n == self.value@.len(),
                i <= n,
                v@ == Seq::new(i as nat, |j: int| BULLET),
            decreases n - i,
        {
            v.push(BULLET);
            i += 1;
            assert(v@ =~= Seq::new(i as nat, |j: int| BULLET));
        }
        v
    }

    /// The kinds of the text and background colours to draw with.
    pub fn colors(&self) -> (r: (PropertyKind, PropertyKind))
        ensures
            r == color_kinds(self@),
    {
        let (mut fg, mut bg) = (PropertyKind::Color, PropertyKind::BgColor);
        if self.hovering {
            fg = PropertyKind::HoverColor;
            bg = PropertyKind::HoverBgColor;
        }
        if self.focus && self.editable {
            fg = PropertyKind::FocusColor;
            bg = PropertyKind::FocusBgColor;
        }
        if !self.enabled {
            fg = PropertyKind::DisabledColor;
            bg = PropertyKind::DisabledBgColor;
        }
        if self.value.len() == 0 && self.placeholder.len() != 0 && !self.focus && !self.hovering {
            fg = PropertyKind::DisabledColor;
        }
        (fg, bg)
    }

    /// Whether the cursor is drawn: the text box has the focus and takes input.
    pub fn shows_cursor(&self) -> (r: bool)
        ensures
            r == accepts_input(self@),
    {
        self.focus && self.enabled && self.editable
    }

    /// Whether typing `c`, with `paste` on the clipboard, stays within the text.
    pub fn can_type(&self, c: char, paste: &str) -> (r: bool)
        ensures
            r == edit_in_range(self@, c, paste@),
    {
        let len = self.value.len();
        let i = self.cursor_index;
        if !(self.focus && self.enabled && self.editable) {
            return true;
        }
        if c == BACKSPACE && len > 0 && self.cursor_after && i >= len {
            return false;
        }
        if c == BACKSPACE && len > 0 && !self.cursor_after && i > 0 && i > len {
            return false;
        }
        let caret_fits = if self.cursor_after {
            i < len
        } else {
            i <= len
        };
        if c != BACKSPACE && c != DELETE && c != COPY && c != PASTE && self.cursor.is_some() {
            return caret_fits;
        }
        if c == PASTE {
            let k = chars_of(paste).len();
            return caret_fits && k <= usize::MAX - len;
        }
        true
    }

    /// Inserts `paste` at the cursor and puts the cursor after it.
    fn paste_text(&mut self, paste: &str)
        requires
            accepts_input(old(self)@),
            caret(old(self)@) <= old(self)@.value.len(),
            old(self)@.value.len() + paste@.len() <= usize::MAX,
        ensures
            final(self)@ == edit(old(self)@, PASTE, paste@),
    {
        let pc = chars_of(paste);
        let at: usize = if self.cursor_after {
            self.cursor_index + 1
        } else {
            self.cursor_index
        };
        let value = spliced(&self.value, at, &pc);
        self.value = value;
        self.cursor_index = self.cursor_index + pc.len();
    }

    fn set_cursor(&mut self, hit: Option<(usize, bool)>)
        ensures
            final(self)@ == place_cursor(old(self)@, hit),
    {
        if let Some(h) = hit {
            if h.0 >= self.value.len() {
                return;
            }
            self.cursor = Some(h);
            let at = self.get_cursor_index();
            self.cursor_index = at.0;
            self.cursor_after = at.1;
        }
    }

    fn type_char(&mut self, c: char, paste: &str)
        requires
            edit_in_range(old(self)@, c, paste@),
        ensures
            final(self)@ == edit(old(self)@, c, paste@),
    {
        if !(self.focus && self.enabled && self.editable) {
            return;
        }
        if c == BACKSPACE {
            let len = self.value.len();
            if len > 0 && self.cursor_after {
                self.value.remove(self.cursor_index);
                if self.cursor_index == 0 {
                    self.cursor_after = false;
                } else {
                    self.cursor_index -= 1;
                }
            } else if len > 0 && !self.cursor_after {
                if self.cursor_index > 0 {
                    self.value.remove(self.cursor_index - 1);
                    self.cursor_index -= 1;
                }
            }
        } else if c == DELETE {
            let len = self.value.len();
            if len > self.cursor_index && len - self.cursor_index > 1 && self.cursor_after {
                self.value.remove(self.cursor_index + 1);
            } else if len > self.cursor_index && !self.cursor_after {
                self.value.remove(self.cursor_index);
                let len = self.value.len();
                if self.cursor_index > 0 && self.cursor_index == len && len > 0 {
                    self.cursor_index -= 1;
                    self.cursor_after = true;
                }
            }
        } else if c == COPY {
        } else if c == PASTE {
            self.paste_text(paste);
        } else {
            let ch = if c == '\r' {
                '\n'
            } else {
                c
            };
            if self.cursor.is_some() {
                let len = self.value.len();
                if self.cursor_after {
                    self.value.insert(self.cursor_index + 1, ch);
                } else {
                    self.value.insert(self.cursor_index, ch);
                }
                if self.value.len() == 1 {
                    self.cursor_index = 0;
                    self.cursor_after = true;
                } else {
                    self.cursor_index += 1;
                }
                assert(len + 1 == self.value@.len());
            }
        }
    }

    /// Takes a primitive event. `ext_ids` are the tags under the pointer, from
    /// the outermost element in; `hit` is the character the text layout found
    /// under the event's position, if any; `paste` is the clipboard's text, which
    /// a typed paste inserts. Besides the answer it gives the text that a typed
    /// copy puts on the clipboard.
    pub fn on_primitive_event(
        &mut self,
        ext_ids: &[ItemTag],
        e: PrimitiveEvent,
        hit: Option<(usize, bool)>,
        paste: &str,
    ) -> (r: (Reaction, Option<String>))
        requires
            event_in_range(old(self)@, e, paste@),
        ensures
            (final(self)@, r.0) == react(old(self)@, ext_ids@, e, hit, paste@),
            match r.1 {
                Some(t) => copy_of(old(self)@, e) == Some(t@),
                None => copy_of(old(self)@, e) is None,
            },
    {
        let aimed = ext_ids.len() > 0 && ext_ids[0].0 == self.ext_id;
        let reaction = match e {
            PrimitiveEvent::Char(c) => {
                let handled = self.focus && self.enabled && self.editable;
                if c == COPY && handled {
                    let copied = string_of(&self.value);
                    return (Reaction::Handled(true), Some(copied));
                }
                self.type_char(c, paste);
                Reaction::Handled(handled)
            },
            PrimitiveEvent::SetFocus(f) => {
                if self.enabled && self.focus != f {
                    self.focus = f;
                    Reaction::RunHandler(ElementEvent::FocusChange)
                } else {
                    Reaction::Handled(false)
                }
            },
            PrimitiveEvent::Button(_p, b, s, _m) => {
                if aimed && b == properties::Button::Left {
                    if s == properties::ButtonState::Pressed {
                        self.selecting = true;
                        self.set_cursor(hit);
                        Reaction::Handled(false)
                    } else {
                        self.selecting = false;
                        self.set_cursor(hit);
                        Reaction::RunHandler(ElementEvent::Clicked)
                    }
                } else {
                    Reaction::Handled(false)
                }
            },
            PrimitiveEvent::CursorMoved(_p) => {
                if self.selecting && aimed {
                    self.set_cursor(hit);
                }
                Reaction::Handled(false)
            },
            PrimitiveEvent::HoverBegin(tags) => {
                if tags_contain(&tags, self.ext_id) {
                    self.hovering = true;
                }
                Reaction::Handled(false)
            },
            PrimitiveEvent::HoverEnd(tags) => {
                if tags_contain(&tags, self.ext_id) {
                    self.hovering = false;
                }
                Reaction::Handled(false)
            },
            _ => Reaction::Handled(false),
        };
        (reaction, None)
    }
}

impl CanDisable for TextBox {
    fn set_enabled(&mut self, value: bool)
        ensures
            final(self)@ == (TextBoxModel { enabled: value, ..old(self)@ }),
    {
        self.enabled = value;
    }

    fn get_enabled(&self) -> (r: bool)
        ensures
            r == self@.enabled,
    {
        self.enabled
    }
}

} // verus!
