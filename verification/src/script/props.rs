//! Object, card and stack properties as scripts read and write them (`the textSize of
//! field "x"`, `set the name of this card to ...`): which property a name selects and
//! what it reads or changes. Property names ignore ASCII case. Geometry properties
//! (`loc`, `rect`, `width`, ...) are recognised here and computed by the runtime, which
//! owns the arithmetic on coordinates; numbers are `f32` bit patterns.

use vstd::prelude::*;

use crate::model::{label_of, Button, Card, Field, LayoutGroup, Stack};
use crate::script::interp::{card_layout_set, set_card_layout, text_style_get};
use crate::text::{ascii_lower, owned, str_eq, to_lower};

verus! {

/// A value a script assigns to a property, in the forms properties take it: its text,
/// its truth, and its number when it has one (as an `f32` bit pattern).
pub struct PropInput {
    pub text: String,
    pub flag: bool,
    pub number: Option<u32>,
}

/// How a `set` went.
#[derive(Debug, Clone, Copy, PartialEq, Eq, Structural)]
pub enum Applied {
    /// The property was set.
    Done,
    /// A geometry property: the runtime computes the new rectangle.
    Geometry,
}

/// What reading a property gives.
pub enum PropRead {
    Text(String),
    Flag(bool),
    /// A number held as an `f32` bit pattern.
    Real(u32),
    /// A whole number (an id, a card number, a count).
    Whole(u64),
    /// A geometry property: the runtime computes it from the rectangle.
    Geometry,
    /// An unknown property reads as empty.
    Empty,
}

/// The names of the geometry properties.
pub open spec fn is_geometry_name(p: Seq<char>) -> bool {
    p == "loc"@ || p == "location"@ || p == "rect"@ || p == "rectangle"@ || p == "width"@ || p
        == "height"@ || p == "top"@ || p == "left"@ || p == "bottom"@ || p == "right"@
}

/// Whether the (lower-case) property name `p` is a geometry property.
pub fn is_geometry_prop(p: &str) -> (r: bool)
    ensures
        r == is_geometry_name(p@),
{
    str_eq(p, "loc") || str_eq(p, "location") || str_eq(p, "rect") || str_eq(p, "rectangle")
        || str_eq(p, "width") || str_eq(p, "height") || str_eq(p, "top") || str_eq(p, "left")
        || str_eq(p, "bottom") || str_eq(p, "right")
}

/// `"... property '<p>'"` for an unknown property of `what`.
pub open spec fn unknown_message(what: Seq<char>, p: Seq<char>) -> Seq<char> {
    "unknown "@ + what + " property '"@ + p + "'"@
}

fn unknown(what: &str, p: &str) -> (m: String)
    ensures
        m@ == unknown_message(what@, p@),
{
    let mut m = owned("unknown ");
    m.append(what);
    m.append(" property '");
    m.append(p);
    m.append("'");
    m
}

/// `n` when there is a number, `old` otherwise.
pub open spec fn num_or(n: Option<u32>, old: u32) -> u32 {
    match n {
        Some(x) => x,
        None => old,
    }
}

// ---- fields ----

/// The field properties a script can set (other than geometry).
pub open spec fn field_settable(p: Seq<char>) -> bool {
    p == "text"@ || p == "value"@ || p == "contents"@ || p == "name"@ || p == "visible"@ || p
        == "locked"@ || p == "textfont"@ || p == "textsize"@ || p == "textstyle"@ || p == "textalign"@
        || p == "weight"@ || p == "textrole"@ || p == "contentdescription"@ || p == "liveregion"@
}

/// The field `f` after `set <p> to v`; numeric properties change only when `v` is a
/// number.
pub open spec fn field_set(f: Field, p: Seq<char>, v: PropInput) -> Field {
    if p == "text"@ || p == "value"@ || p == "contents"@ {
        Field { text: v.text, ..f }
    } else if p == "name"@ {
        Field { name: v.text, ..f }
    } else if p == "visible"@ {
        Field { visible: v.flag, ..f }
    } else if p == "locked"@ {
        Field { locked: v.flag, ..f }
    } else if p == "textfont"@ {
        Field { text_font: v.text, ..f }
    } else if p == "textsize"@ {
        Field { text_size: num_or(v.number, f.text_size), ..f }
    } else if p == "textstyle"@ {
        Field { text_style: v.text, ..f }
    } else if p == "textalign"@ {
        Field { text_align: v.text, ..f }
    } else if p == "weight"@ {
        Field { weight: num_or(v.number, f.weight), ..f }
    } else if p == "textrole"@ {
        Field { text_role: v.text, ..f }
    } else if p == "contentdescription"@ {
        Field { content_description: v.text, ..f }
    } else if p == "liveregion"@ {
        Field { live_region: v.text, ..f }
    } else {
        f
    }
}

/// `set the <name> of <field> to v`: sets a known property; a geometry property is left
/// to the runtime; anything else is an error naming the property (lower-cased).
pub fn set_field_prop(f: &mut Field, name: &str, v: &PropInput) -> (r: Result<Applied, String>)
    ensures
        ({
            let p = ascii_lower(name@);
            if field_settable(p) {
                r == Ok::<Applied, String>(Applied::Done) && *final(f) == field_set(*old(f), p, *v)
            } else if is_geometry_name(p) {
                r == Ok::<Applied, String>(Applied::Geometry) && *final(f) == *old(f)
            } else {
                r matches Err(m) && m@ == unknown_message("field"@, p) && *final(f) == *old(f)
            }
        }),
{
    let p = to_lower(name);
    let p = p.as_str();
    if str_eq(p, "text") || str_eq(p, "value") || str_eq(p, "contents") {
        f.text = v.text.clone();
    } else if str_eq(p, "name") {
        f.name = v.text.clone();
    } else if str_eq(p, "visible") {
        f.visible = v.flag;
    } else if str_eq(p, "locked") {
        f.locked = v.flag;
    } else if str_eq(p, "textfont") {
        f.text_font = v.text.clone();
    } else if str_eq(p, "textsize") {
        if let Some(n) = v.number {
            f.text_size = n;
        }
    } else if str_eq(p, "textstyle") {
        f.text_style = v.text.clone();
    } else if str_eq(p, "textalign") {
        f.text_align = v.text.clone();
    } else if str_eq(p, "weight") {
        if let Some(n) = v.number {
            f.weight = n;
        }
    } else if str_eq(p, "textrole") {
        f.text_role = v.text.clone();
    } else if str_eq(p, "contentdescription") {
        f.content_description = v.text.clone();
    } else if str_eq(p, "liveregion") {
        f.live_region = v.text.clone();
    } else if is_geometry_prop(p) {
        return Ok(Applied::Geometry);
    } else {
        return Err(unknown("field", p));
    }
    Ok(Applied::Done)
}

/// What `the <p> of <field>` reads.
pub open spec fn field_read(f: Field, p: Seq<char>) -> PropRead {
    if p == "text"@ || p == "value"@ || p == "contents"@ {
        PropRead::Text(f.text)
    } else if p == "name"@ || p == "short name"@ || p == "long name"@ {
        PropRead::Text(f.name)
    } else if p == "visible"@ {
        PropRead::Flag(f.visible)
    } else if p == "locked"@ {
        PropRead::Flag(f.locked)
    } else if p == "id"@ {
        PropRead::Whole(f.id as u64)
    } else if p == "textfont"@ {
        PropRead::Text(f.text_font)
    } else if p == "textsize"@ {
        PropRead::Real(f.text_size)
    } else if p == "textalign"@ {
        PropRead::Text(f.text_align)
    } else if p == "weight"@ {
        PropRead::Real(f.weight)
    } else if p == "textrole"@ {
        PropRead::Text(f.text_role)
    } else if p == "contentdescription"@ {
        PropRead::Text(f.content_description)
    } else if p == "liveregion"@ {
        PropRead::Text(f.live_region)
    } else if is_geometry_name(p) {
        PropRead::Geometry
    } else {
        PropRead::Empty
    }
}

/// `the <name> of <field>` (see `field_read`); the text style reads `plain` when empty.
pub fn field_prop(f: &Field, name: &str) -> (r: PropRead)
    ensures
        ({
            let p = ascii_lower(name@);
            if p == "textstyle"@ {
                r matches PropRead::Text(s) && s@ == (if f.text_style@.len() == 0 { "plain"@ } else { f.text_style@ })
            } else {
                r == field_read(*f, p)
            }
        }),
{
    let p = to_lower(name);
    let p = p.as_str();
    if str_eq(p, "textstyle") {
        return PropRead::Text(text_style_get(f.text_style.as_str()));
    }
    if str_eq(p, "text") || str_eq(p, "value") || str_eq(p, "contents") {
        PropRead::Text(f.text.clone())
    } else if str_eq(p, "name") || str_eq(p, "short name") || str_eq(p, "long name") {
        PropRead::Text(f.name.clone())
    } else if str_eq(p, "visible") {
        PropRead::Flag(f.visible)
    } else if str_eq(p, "locked") {
        PropRead::Flag(f.locked)
    } else if str_eq(p, "id") {
        PropRead::Whole(f.id as u64)
    } else if str_eq(p, "textfont") {
        PropRead::Text(f.text_font.clone())
    } else if str_eq(p, "textsize") {
        PropRead::Real(f.text_size)
    } else if str_eq(p, "textalign") {
        PropRead::Text(f.text_align.clone())
    } else if str_eq(p, "weight") {
        PropRead::Real(f.weight)
    } else if str_eq(p, "textrole") {
        PropRead::Text(f.text_role.clone())
    } else if str_eq(p, "contentdescription") {
        PropRead::Text(f.content_description.clone())
    } else if str_eq(p, "liveregion") {
        PropRead::Text(f.live_region.clone())
    } else if is_geometry_prop(p) {
        PropRead::Geometry
    } else {
        PropRead::Empty
    }
}

// ---- buttons ----

/// The button properties a script can set (other than geometry).
pub open spec fn button_settable(p: Seq<char>) -> bool {
    p == "title"@ || p == "text"@ || p == "label"@ || p == "name"@ || p == "checked"@ || p == "value"@
        || p == "control"@ || p == "source"@ || p == "contentdescription"@ || p == "role"@ || p
        == "visible"@ || p == "textfont"@ || p == "textsize"@ || p == "textstyle"@ || p == "textalign"@
        || p == "weight"@
}

/// The button `b` after `set <p> to v`; setting `checked` makes it a switch; numeric
/// properties change only when `v` is a number.
pub open spec fn button_set(b: Button, p: Seq<char>, v: PropInput) -> Button {
    if p == "title"@ || p == "text"@ || p == "label"@ {
        Button { title: v.text, ..b }
    } else if p == "name"@ {
        Button { name: v.text, ..b }
    } else if p == "checked"@ {
        Button { checked: Some(v.flag), ..b }
    } else if p == "value"@ {
        match v.number {
            Some(n) => Button { value: Some(n), ..b },
            None => b,
        }
    } else if p == "control"@ {
        Button { control: v.text, ..b }
    } else if p == "source"@ {
        Button { source: v.text, ..b }
    } else if p == "contentdescription"@ {
        Button { content_description: v.text, ..b }
    } else if p == "role"@ {
        Button { role: v.text, ..b }
    } else if p == "visible"@ {
        Button { visible: v.flag, ..b }
    } else if p == "textfont"@ {
        Button { text_font: v.text, ..b }
    } else if p == "textsize"@ {
        Button { text_size: num_or(v.number, b.text_size), ..b }
    } else if p == "textstyle"@ {
        Button { text_style: v.text, ..b }
    } else if p == "textalign"@ {
        Button { text_align: v.text, ..b }
    } else if p == "weight"@ {
        Button { weight: num_or(v.number, b.weight), ..b }
    } else {
        b
    }
}

/// `set the <name> of <button> to v` (see `set_field_prop`).
pub fn set_button_prop(b: &mut Button, name: &str, v: &PropInput) -> (r: Result<Applied, String>)
    ensures
        ({
            let p = ascii_lower(name@);
            if button_settable(p) {
                r == Ok::<Applied, String>(Applied::Done) && *final(b) == button_set(*old(b), p, *v)
            } else if is_geometry_name(p) {
                r == Ok::<Applied, String>(Applied::Geometry) && *final(b) == *old(b)
            } else {
                r matches Err(m) && m@ == unknown_message("button"@, p) && *final(b) == *old(b)
            }
        }),
{
    let p = to_lower(name);
    let p = p.as_str();
    if str_eq(p, "title") || str_eq(p, "text") || str_eq(p, "label") {
        b.title = v.text.clone();
    } else if str_eq(p, "name") {
        b.name = v.text.clone();
    } else if str_eq(p, "checked") {
        b.checked = Some(v.flag);
    } else if str_eq(p, "value") {
        if let Some(n) = v.number {
            b.value = Some(n);
        }
    } else if str_eq(p, "control") {
        b.control = v.text.clone();
    } else if str_eq(p, "source") {
        b.source = v.text.clone();
    } else if str_eq(p, "contentdescription") {
        b.content_description = v.text.clone();
    } else if str_eq(p, "role") {
        b.role = v.text.clone();
    } else if str_eq(p, "visible") {
        b.visible = v.flag;
    } else if str_eq(p, "textfont") {
        b.text_font = v.text.clone();
    } else if str_eq(p, "textsize") {
        if let Some(n) = v.number {
            b.text_size = n;
        }
    } else if str_eq(p, "textstyle") {
        b.text_style = v.text.clone();
    } else if str_eq(p, "textalign") {
        b.text_align = v.text.clone();
    } else if str_eq(p, "weight") {
        if let Some(n) = v.number {
            b.weight = n;
        }
    } else if is_geometry_prop(p) {
        return Ok(Applied::Geometry);
    } else {
        return Err(unknown("button", p));
    }
    Ok(Applied::Done)
}

/// What `the <p> of <button>` reads: the title reads the label (the name when the title is
/// empty); `checked` reads false and `value` reads 0 when unset.
pub open spec fn button_read(b: Button, p: Seq<char>) -> PropRead {
    if p == "name"@ || p == "short name"@ || p == "long name"@ {
        PropRead::Text(b.name)
    } else if p == "title"@ || p == "text"@ || p == "label"@ {
        PropRead::Text(if b.title@.len() == 0 { b.name } else { b.title })
    } else if p == "checked"@ {
        PropRead::Flag(b.checked == Some(true))
    } else if p == "value"@ {
        PropRead::Real(num_or(b.value, 0))
    } else if p == "control"@ {
        PropRead::Text(b.control)
    } else if p == "source"@ {
        PropRead::Text(b.source)
    } else if p == "contentdescription"@ {
        PropRead::Text(b.content_description)
    } else if p == "role"@ {
        PropRead::Text(b.role)
    } else if p == "visible"@ {
        PropRead::Flag(b.visible)
    } else if p == "id"@ {
        PropRead::Whole(b.id as u64)
    } else if p == "textfont"@ {
        PropRead::Text(b.text_font)
    } else if p == "textsize"@ {
        PropRead::Real(b.text_size)
    } else if p == "textalign"@ {
        PropRead::Text(b.text_align)
    } else if p == "weight"@ {
        PropRead::Real(b.weight)
    } else if is_geometry_name(p) {
        PropRead::Geometry
    } else {
        PropRead::Empty
    }
}

/// `the <name> of <button>` (see `button_read`); the text style reads `plain` when empty.
pub fn button_prop(b: &Button, name: &str) -> (r: PropRead)
    ensures
        ({
            let p = ascii_lower(name@);
            if p == "textstyle"@ {
                r matches PropRead::Text(s) && s@ == (if b.text_style@.len() == 0 { "plain"@ } else { b.text_style@ })
            } else {
                r == button_read(*b, p)
            }
        }),
{
    let p = to_lower(name);
    let p = p.as_str();
    if str_eq(p, "textstyle") {
        return PropRead::Text(text_style_get(b.text_style.as_str()));
    }
    if str_eq(p, "name") || str_eq(p, "short name") || str_eq(p, "long name") {
        PropRead::Text(b.name.clone())
    } else if str_eq(p, "title") || str_eq(p, "text") || str_eq(p, "label") {
        PropRead::Text(b.label().clone())
    } else if str_eq(p, "checked") {
        PropRead::Flag(
            match b.checked {
                Some(c) => c,
                None => false,
            },
        )
    } else if str_eq(p, "value") {
        PropRead::Real(
            match b.value {
                Some(n) => n,
                None => 0,
            },
        )
    } else if str_eq(p, "control") {
        PropRead::Text(b.control.clone())
    } else if str_eq(p, "source") {
        PropRead::Text(b.source.clone())
    } else if str_eq(p, "contentdescription") {
        PropRead::Text(b.content_description.clone())
    } else if str_eq(p, "role") {
        PropRead::Text(b.role.clone())
    } else if str_eq(p, "visible") {
        PropRead::Flag(b.visible)
    } else if str_eq(p, "id") {
        PropRead::Whole(b.id as u64)
    } else if str_eq(p, "textfont") {
        PropRead::Text(b.text_font.clone())
    } else if str_eq(p, "textsize") {
        PropRead::Real(b.text_size)
    } else if str_eq(p, "textalign") {
        PropRead::Text(b.text_align.clone())
    } else if str_eq(p, "weight") {
        PropRead::Real(b.weight)
    } else if is_geometry_prop(p) {
        PropRead::Geometry
    } else {
        PropRead::Empty
    }
}

// ---- cards and the stack ----

/// What `the <p> of this card` reads for card `ci` (its `layout` is read separately).
pub open spec fn card_read(s: Stack, ci: int, p: Seq<char>) -> PropRead {
    let c = s.cards@[ci];
    if p == "name"@ || p == "short name"@ || p == "long name"@ {
        PropRead::Text(c.name)
    } else if p == "number"@ {
        PropRead::Whole((ci + 1) as u64)
    } else if p == "padding"@ {
        PropRead::Real(
            match c.layout {
                Some(l) => l.padding,
                None => 0,
            },
        )
    } else if p == "safetop"@ {
        PropRead::Real(s.safe_insets.top)
    } else if p == "saferight"@ {
        PropRead::Real(s.safe_insets.right)
    } else if p == "safebottom"@ {
        PropRead::Real(s.safe_insets.bottom)
    } else if p == "safeleft"@ {
        PropRead::Real(s.safe_insets.left)
    } else {
        PropRead::Empty
    }
}

/// `the <name> of this card` (card `ci`, see `card_read`); `the layout` reads the layout
/// overlay's arrangement, empty without one.
pub fn card_prop(stack: &Stack, ci: usize, name: &str) -> (r: PropRead)
    requires
        ci < stack.cards@.len(),
    ensures
        ({
            let p = ascii_lower(name@);
            if p == "layout"@ {
                r matches PropRead::Text(t) && t@ == match stack.cards@[ci as int].layout {
                    Some(l) => l.mode@,
                    None => Seq::empty(),
                }
            } else {
                r == card_read(*stack, ci as int, p)
            }
        }),
        ascii_lower(name@) == "number"@ ==> r == PropRead::Whole((ci + 1) as u64),
{
    proof {
        reveal_strlit("number");
        reveal_strlit("layout");
        assert("number"@ != "layout"@) by {
            assert("number"@[0] != "layout"@[0]);
        }
        lemma_card_number_is_position(*stack, ci as int);
    }
    let p = to_lower(name);
    let p = p.as_str();
    let c = &stack.cards[ci];
    if str_eq(p, "layout") {
        return PropRead::Text(
            match &c.layout {
                Some(l) => l.mode.clone(),
                None => String::new(),
            },
        );
    }
    if str_eq(p, "name") || str_eq(p, "short name") || str_eq(p, "long name") {
        PropRead::Text(c.name.clone())
    } else if str_eq(p, "number") {
        let n = stack.cards.len();
        assert(ci < n);
        PropRead::Whole((ci + 1) as u64)
    } else if str_eq(p, "padding") {
        PropRead::Real(
            match &c.layout {
                Some(l) => l.padding,
                None => 0,
            },
        )
    } else if str_eq(p, "safetop") {
        PropRead::Real(stack.safe_insets.top)
    } else if str_eq(p, "saferight") {
        PropRead::Real(stack.safe_insets.right)
    } else if str_eq(p, "safebottom") {
        PropRead::Real(stack.safe_insets.bottom)
    } else if str_eq(p, "safeleft") {
        PropRead::Real(stack.safe_insets.left)
    } else {
        PropRead::Empty
    }
}

/// What `the <p> of this stack` reads.
pub open spec fn stack_read(s: Stack, p: Seq<char>) -> PropRead {
    if p == "name"@ || p == "short name"@ || p == "long name"@ {
        PropRead::Text(s.name)
    } else if p == "number"@ {
        PropRead::Whole(s.cards@.len() as u64)
    } else if p == "theme"@ {
        PropRead::Text(s.theme)
    } else if p == "accentcolor"@ {
        PropRead::Text(s.accent_color)
    } else if p == "safetop"@ {
        PropRead::Real(s.safe_insets.top)
    } else if p == "saferight"@ {
        PropRead::Real(s.safe_insets.right)
    } else if p == "safebottom"@ {
        PropRead::Real(s.safe_insets.bottom)
    } else if p == "safeleft"@ {
        PropRead::Real(s.safe_insets.left)
    } else {
        PropRead::Empty
    }
}

/// `the <name> of this stack` (see `stack_read`).
pub fn stack_prop(stack: &Stack, name: &str) -> (r: PropRead)
    ensures
        r == stack_read(*stack, ascii_lower(name@)),
{
    let p = to_lower(name);
    let p = p.as_str();
    if str_eq(p, "name") || str_eq(p, "short name") || str_eq(p, "long name") {
        PropRead::Text(stack.name.clone())
    } else if str_eq(p, "number") {
        PropRead::Whole(stack.cards.len() as u64)
    } else if str_eq(p, "theme") {
        PropRead::Text(stack.theme.clone())
    } else if str_eq(p, "accentcolor") {
        PropRead::Text(stack.accent_color.clone())
    } else if str_eq(p, "safetop") {
        PropRead::Real(stack.safe_insets.top)
    } else if str_eq(p, "saferight") {
        PropRead::Real(stack.safe_insets.right)
    } else if str_eq(p, "safebottom") {
        PropRead::Real(stack.safe_insets.bottom)
    } else if str_eq(p, "safeleft") {
        PropRead::Real(stack.safe_insets.left)
    } else {
        PropRead::Empty
    }
}

/// `t` is `s` with card `ci` replaced by `c`; nothing else changes.
pub open spec fn card_replaced(s: Stack, t: Stack, ci: int, c: Card) -> bool {
    &&& t.cards@ == s.cards@.update(ci, c)
    &&& t == Stack { cards: t.cards, ..s }
}

/// `set the <name> of this card to v` for card `ci`: the name; the layout (one group of
/// the lower-cased arrangement over all objects, see `card_layout_set`); or the padding,
/// laying the card out as a column first when it has no layout (0 when `v` is not a
/// number). Anything else is an error naming the property.
pub fn set_card_prop(stack: &mut Stack, ci: usize, name: &str, v: &PropInput) -> (r: Result<(), String>)
    requires
        ci < old(stack).cards@.len(),
    ensures
        ({
            let p = ascii_lower(name@);
            let s = *old(stack);
            let c = final(stack).cards@[ci as int];
            if p == "name"@ {
                r is Ok && card_replaced(s, *final(stack), ci as int, (Card { name: v.text, ..s.cards@[ci as int] }))
            } else if p == "layout"@ {
                &&& r is Ok
                &&& card_replaced(s, *final(stack), ci as int, c)
                &&& c == (Card { layout: c.layout, ..s.cards@[ci as int] })
                &&& c.layout matches Some(l) && card_layout_set(s, ci as int, ascii_lower(v.text@), l)
            } else if p == "padding"@ {
                &&& r is Ok
                &&& card_replaced(s, *final(stack), ci as int, c)
                &&& c == (Card { layout: c.layout, ..s.cards@[ci as int] })
                &&& c.layout matches Some(l) && l.padding == num_or(v.number, 0) && match s.cards@[ci as int].layout {
                    Some(o) => l == (LayoutGroup { padding: l.padding, ..o }),
                    None => card_layout_set(s, ci as int, "column"@, (LayoutGroup { padding: 0, ..l })),
                }
            } else {
                r matches Err(m) && m@ == unknown_message("card"@, p) && *final(stack) == s
            }
        }),
{
    let p = to_lower(name);
    let p = p.as_str();
    if str_eq(p, "name") {
        stack.cards[ci].name = v.text.clone();
        Ok(())
    } else if str_eq(p, "layout") {
        let mode = to_lower(v.text.as_str());
        set_card_layout(stack, ci, mode.as_str());
        Ok(())
    } else if str_eq(p, "padding") {
        let x: u32 = match v.number {
            Some(n) => n,
            None => 0,
        };
        let ghost s0 = *stack;
        if stack.cards[ci].layout.is_none() {
            set_card_layout(stack, ci, "column");
        } else {
            assert(s0.cards@.update(ci as int, s0.cards@[ci as int]) =~= s0.cards@);
        }
        let card = &mut stack.cards[ci];
        if let Some(l) = &mut card.layout {
            l.padding = x;
        }
        assert(stack.cards@ =~= s0.cards@.update(ci as int, stack.cards@[ci as int]));
        Ok(())
    } else {
        Err(unknown("card", p))
    }
}

/// `set the <name> of this stack to v`: its name, theme or accent color; anything else is
/// an error naming the property.
pub fn set_stack_prop(stack: &mut Stack, name: &str, v: &PropInput) -> (r: Result<(), String>)
    ensures
        ({
            let p = ascii_lower(name@);
            let s = *old(stack);
            if p == "name"@ {
                r is Ok && *final(stack) == (Stack { name: v.text, ..s })
            } else if p == "theme"@ {
                r is Ok && *final(stack) == (Stack { theme: v.text, ..s })
            } else if p == "accentcolor"@ {
                r is Ok && *final(stack) == (Stack { accent_color: v.text, ..s })
            } else {
                r matches Err(m) && m@ == unknown_message("stack"@, p) && *final(stack) == s
            }
        }),
{
    let p = to_lower(name);
    let p = p.as_str();
    if str_eq(p, "name") {
        stack.name = v.text.clone();
        Ok(())
    } else if str_eq(p, "theme") {
        stack.theme = v.text.clone();
        Ok(())
    } else if str_eq(p, "accentcolor") {
        stack.accent_color = v.text.clone();
        Ok(())
    } else {
        Err(unknown("stack", p))
    }
}

/// What `the number of <kind>` counts on card `ci`: cards and backgrounds of the stack,
/// buttons and fields of the card; 0 for anything else.
pub open spec fn count_of(s: Stack, ci: int, kind: Seq<char>) -> nat {
    let k = ascii_lower(kind);
    if k == "cards"@ || k == "card"@ {
        s.cards@.len()
    } else if k == "buttons"@ || k == "button"@ {
        s.cards@[ci].buttons@.len()
    } else if k == "fields"@ || k == "field"@ {
        s.cards@[ci].fields@.len()
    } else if k == "backgrounds"@ || k == "background"@ {
        s.backgrounds@.len()
    } else {
        0
    }
}

/// `the number of <kind>` on card `ci` (see `count_of`).
pub fn number_of(stack: &Stack, ci: usize, kind: &str) -> (r: usize)
    requires
        ci < stack.cards@.len(),
    ensures
        r == count_of(*stack, ci as int, kind@),
{
    let k = to_lower(kind);
    let k = k.as_str();
    if str_eq(k, "cards") || str_eq(k, "card") {
        stack.cards.len()
    } else if str_eq(k, "buttons") || str_eq(k, "button") {
        stack.cards[ci].buttons.len()
    } else if str_eq(k, "fields") || str_eq(k, "field") {
        stack.cards[ci].fields.len()
    } else if str_eq(k, "backgrounds") || str_eq(k, "background") {
        stack.backgrounds.len()
    } else {
        0
    }
}

proof fn lemma_field_names_distinct()
    ensures
        "text"@ != "value"@, "text"@ != "contents"@, "text"@ != "name"@, "value"@ != "contents"@,
        "value"@ != "name"@, "contents"@ != "name"@, "name"@ != "short name"@, "name"@ != "long name"@,
        "visible"@ != "text"@, "visible"@ != "value"@, "visible"@ != "contents"@, "visible"@ != "name"@,
        "locked"@ != "text"@, "locked"@ != "value"@, "locked"@ != "contents"@, "locked"@ != "name"@,
        "locked"@ != "visible"@, "locked"@ != "short name"@, "locked"@ != "long name"@,
        "visible"@ != "short name"@, "visible"@ != "long name"@,
        "text"@ != "short name"@, "text"@ != "long name"@, "value"@ != "short name"@,
        "value"@ != "long name"@, "contents"@ != "short name"@, "contents"@ != "long name"@,
{
    reveal_strlit("text");
    reveal_strlit("value");
    reveal_strlit("contents");
    reveal_strlit("name");
    reveal_strlit("short name");
    reveal_strlit("long name");
    reveal_strlit("visible");
    reveal_strlit("locked");
    assert("text"@.len() == 4);
    assert("name"@.len() == 4);
    assert("value"@.len() == 5);
    assert("locked"@.len() == 6);
    assert("visible"@.len() == 7);
    assert("contents"@.len() == 8);
    assert("long name"@.len() == 9);
    assert("short name"@.len() == 10);
    assert("text"@[0] != "name"@[0]);
}

/// Reading a field's property right after a script set it gives what was set: the text
/// (under any of its names), the name, the visibility and the lock.
pub proof fn lemma_field_set_then_read(f: Field, v: PropInput)
    ensures
        field_read(field_set(f, "text"@, v), "text"@) == PropRead::Text(v.text),
        field_read(field_set(f, "value"@, v), "contents"@) == PropRead::Text(v.text),
        field_read(field_set(f, "name"@, v), "name"@) == PropRead::Text(v.text),
        field_read(field_set(f, "visible"@, v), "visible"@) == PropRead::Flag(v.flag),
        field_read(field_set(f, "locked"@, v), "locked"@) == PropRead::Flag(v.flag),
{
    lemma_field_names_distinct();
}

proof fn lemma_style_names_distinct()
    ensures
        "textfont"@ != "text"@,
        "textfont"@ != "value"@,
        "textfont"@ != "contents"@,
        "textfont"@ != "name"@,
        "textfont"@ != "short name"@,
        "textfont"@ != "long name"@,
        "textfont"@ != "visible"@,
        "textfont"@ != "locked"@,
        "textfont"@ != "id"@,
        "textfont"@ != "title"@,
        "textfont"@ != "label"@,
        "textfont"@ != "checked"@,
        "textfont"@ != "control"@,
        "textfont"@ != "source"@,
        "textfont"@ != "contentdescription"@,
        "textfont"@ != "role"@,
        "textsize"@ != "text"@,
        "textsize"@ != "value"@,
        "textsize"@ != "contents"@,
        "textsize"@ != "name"@,
        "textsize"@ != "short name"@,
        "textsize"@ != "long name"@,
        "textsize"@ != "visible"@,
        "textsize"@ != "locked"@,
        "textsize"@ != "id"@,
        "textsize"@ != "title"@,
        "textsize"@ != "label"@,
        "textsize"@ != "checked"@,
        "textsize"@ != "control"@,
        "textsize"@ != "source"@,
        "textsize"@ != "contentdescription"@,
        "textsize"@ != "role"@,
        "textsize"@ != "textfont"@,
        "textstyle"@ != "text"@,
        "textstyle"@ != "value"@,
        "textstyle"@ != "contents"@,
        "textstyle"@ != "name"@,
        "textstyle"@ != "short name"@,
        "textstyle"@ != "long name"@,
        "textstyle"@ != "visible"@,
        "textstyle"@ != "locked"@,
        "textstyle"@ != "id"@,
        "textstyle"@ != "title"@,
        "textstyle"@ != "label"@,
        "textstyle"@ != "checked"@,
        "textstyle"@ != "control"@,
        "textstyle"@ != "source"@,
        "textstyle"@ != "contentdescription"@,
        "textstyle"@ != "role"@,
        "textstyle"@ != "textfont"@,
        "textstyle"@ != "textsize"@,
        "textalign"@ != "text"@,
        "textalign"@ != "value"@,
        "textalign"@ != "contents"@,
        "textalign"@ != "name"@,
        "textalign"@ != "short name"@,
        "textalign"@ != "long name"@,
        "textalign"@ != "visible"@,
        "textalign"@ != "locked"@,
        "textalign"@ != "id"@,
        "textalign"@ != "title"@,
        "textalign"@ != "label"@,
        "textalign"@ != "checked"@,
        "textalign"@ != "control"@,
        "textalign"@ != "source"@,
        "textalign"@ != "contentdescription"@,
        "textalign"@ != "role"@,
        "textalign"@ != "textfont"@,
        "textalign"@ != "textsize"@,
        "textalign"@ != "textstyle"@,
{
    reveal_strlit("checked");
    reveal_strlit("contentdescription");
    reveal_strlit("contents");
    reveal_strlit("control");
    reveal_strlit("id");
    reveal_strlit("label");
    reveal_strlit("locked");
    reveal_strlit("long name");
    reveal_strlit("name");
    reveal_strlit("role");
    reveal_strlit("short name");
    reveal_strlit("source");
    reveal_strlit("text");
    reveal_strlit("textalign");
    reveal_strlit("textfont");
    reveal_strlit("textsize");
    reveal_strlit("textstyle");
    reveal_strlit("title");
    reveal_strlit("value");
    reveal_strlit("visible");
    assert("checked"@.len() == 7);
    assert("contentdescription"@.len() == 18);
    assert("contents"@.len() == 8);
    assert("control"@.len() == 7);
    assert("id"@.len() == 2);
    assert("label"@.len() == 5);
    assert("locked"@.len() == 6);
    assert("long name"@.len() == 9);
    assert("name"@.len() == 4);
    assert("role"@.len() == 4);
    assert("short name"@.len() == 10);
    assert("source"@.len() == 6);
    assert("text"@.len() == 4);
    assert("textalign"@.len() == 9);
    assert("textfont"@.len() == 8);
    assert("textsize"@.len() == 8);
    assert("textstyle"@.len() == 9);
    assert("title"@.len() == 5);
    assert("value"@.len() == 5);
    assert("visible"@.len() == 7);
    assert("textfont"@[0] != "contents"@[0]);
    assert("textsize"@[0] != "contents"@[0]);
    assert("textsize"@[4] != "textfont"@[4]);
    assert("textstyle"@[0] != "long name"@[0]);
    assert("textalign"@[0] != "long name"@[0]);
    assert("textalign"@[4] != "textstyle"@[4]);
}

/// The text styling set by a script reads back as set: the font and alignment as given,
/// the size when given as a number, and the style is stored as given (read as `plain`
/// when empty, see `field_prop`), on fields and buttons alike.
pub proof fn lemma_text_style_set_then_read(f: Field, b: Button, v: PropInput)
    ensures
        field_read(field_set(f, "textfont"@, v), "textfont"@) == PropRead::Text(v.text),
        field_read(field_set(f, "textalign"@, v), "textalign"@) == PropRead::Text(v.text),
        field_set(f, "textstyle"@, v).text_style == v.text,
        v.number matches Some(n) ==> field_read(field_set(f, "textsize"@, v), "textsize"@) == PropRead::Real(n),
        button_read(button_set(b, "textfont"@, v), "textfont"@) == PropRead::Text(v.text),
        button_read(button_set(b, "textalign"@, v), "textalign"@) == PropRead::Text(v.text),
        button_set(b, "textstyle"@, v).text_style == v.text,
        v.number matches Some(n) ==> button_read(button_set(b, "textsize"@, v), "textsize"@) == PropRead::Real(n),
{
    lemma_style_names_distinct();
}

/// `the number of this card` is the card's 1-based position in the stack, whatever else
/// the stack holds: the first card is number 1, and the card after card `ci` has the
/// next number.
pub proof fn lemma_card_number_is_position(s: Stack, ci: int)
    requires
        0 <= ci < s.cards@.len(),
    ensures
        card_read(s, ci, "number"@) == PropRead::Whole((ci + 1) as u64),
        ci == 0 ==> card_read(s, ci, "number"@) == PropRead::Whole(1),
        ci + 1 < s.cards@.len() ==> (card_read(s, ci + 1, "number"@) matches PropRead::Whole(m) && card_read(
            s,
            ci,
            "number"@,
        ) matches PropRead::Whole(k) && m == k + 1),
{
    reveal_strlit("name");
    reveal_strlit("short name");
    reveal_strlit("long name");
    reveal_strlit("number");
    assert("number"@.len() == 6);
    assert("name"@.len() == 4);
    assert("short name"@.len() == 10);
    assert("long name"@.len() == 9);
    assert(s.cards.len() == s.cards@.len());
}

/// `the number of cards` (or `card`) is how many cards the stack has, `the number of
/// backgrounds` how many backgrounds, and `the number of buttons` and `of fields` how many
/// the card holds, in any case.
pub proof fn lemma_counts(s: Stack, ci: int)
    requires
        0 <= ci < s.cards@.len(),
    ensures
        count_of(s, ci, "cards"@) == s.cards@.len(),
        count_of(s, ci, "card"@) == s.cards@.len(),
        count_of(s, ci, "CARDS"@) == s.cards@.len(),
        count_of(s, ci, "buttons"@) == s.cards@[ci].buttons@.len(),
        count_of(s, ci, "button"@) == s.cards@[ci].buttons@.len(),
        count_of(s, ci, "fields"@) == s.cards@[ci].fields@.len(),
        count_of(s, ci, "field"@) == s.cards@[ci].fields@.len(),
        count_of(s, ci, "backgrounds"@) == s.backgrounds@.len(),
        count_of(s, ci, "background"@) == s.backgrounds@.len(),
{
    reveal_strlit("cards");
    reveal_strlit("card");
    reveal_strlit("CARDS");
    reveal_strlit("buttons");
    reveal_strlit("button");
    reveal_strlit("fields");
    reveal_strlit("field");
    reveal_strlit("backgrounds");
    reveal_strlit("background");
    assert(ascii_lower("cards"@) =~= "cards"@);
    assert(ascii_lower("card"@) =~= "card"@);
    assert(ascii_lower("CARDS"@) =~= "cards"@);
    assert(ascii_lower("buttons"@) =~= "buttons"@);
    assert(ascii_lower("button"@) =~= "button"@);
    assert(ascii_lower("fields"@) =~= "fields"@);
    assert(ascii_lower("field"@) =~= "field"@);
    assert(ascii_lower("backgrounds"@) =~= "backgrounds"@);
    assert(ascii_lower("background"@) =~= "background"@);
    assert("buttons"@[0] != "cards"@[0]);
    assert("button"@[0] != "fields"@[0]);
    assert("fields"@[0] != "cards"@[0]);
    assert("field"@[0] != "cards"@[0]);
    assert("background"@[0] != "cards"@[0]);
    assert("backgrounds"@[1] != "buttons"@[1]);
    assert("background"@[1] != "buttons"@[1]);
    assert("background"@[0] != "fields"@[0]);
    assert("backgrounds"@[0] != "fields"@[0]);
}

proof fn lemma_property_names_distinct()
    ensures
        "value"@ != "text"@,
        "contents"@ != "text"@,
        "contents"@ != "value"@,
        "name"@ != "text"@,
        "name"@ != "value"@,
        "name"@ != "contents"@,
        "short name"@ != "text"@,
        "short name"@ != "value"@,
        "short name"@ != "contents"@,
        "short name"@ != "name"@,
        "long name"@ != "text"@,
        "long name"@ != "value"@,
        "long name"@ != "contents"@,
        "long name"@ != "name"@,
        "long name"@ != "short name"@,
        "visible"@ != "text"@,
        "visible"@ != "value"@,
        "visible"@ != "contents"@,
        "visible"@ != "name"@,
        "visible"@ != "short name"@,
        "visible"@ != "long name"@,
        "locked"@ != "text"@,
        "locked"@ != "value"@,
        "locked"@ != "contents"@,
        "locked"@ != "name"@,
        "locked"@ != "short name"@,
        "locked"@ != "long name"@,
        "locked"@ != "visible"@,
        "id"@ != "text"@,
        "id"@ != "value"@,
        "id"@ != "contents"@,
        "id"@ != "name"@,
        "id"@ != "short name"@,
        "id"@ != "long name"@,
        "id"@ != "visible"@,
        "id"@ != "locked"@,
        "textfont"@ != "text"@,
        "textfont"@ != "value"@,
        "textfont"@ != "contents"@,
        "textfont"@ != "name"@,
        "textfont"@ != "short name"@,
        "textfont"@ != "long name"@,
        "textfont"@ != "visible"@,
        "textfont"@ != "locked"@,
        "textfont"@ != "id"@,
        "textsize"@ != "text"@,
        "textsize"@ != "value"@,
        "textsize"@ != "contents"@,
        "textsize"@ != "name"@,
        "textsize"@ != "short name"@,
        "textsize"@ != "long name"@,
        "textsize"@ != "visible"@,
        "textsize"@ != "locked"@,
        "textsize"@ != "id"@,
        "textsize"@ != "textfont"@,
        "textstyle"@ != "text"@,
        "textstyle"@ != "value"@,
        "textstyle"@ != "contents"@,
        "textstyle"@ != "name"@,
        "textstyle"@ != "short name"@,
        "textstyle"@ != "long name"@,
        "textstyle"@ != "visible"@,
        "textstyle"@ != "locked"@,
        "textstyle"@ != "id"@,
        "textstyle"@ != "textfont"@,
        "textstyle"@ != "textsize"@,
        "textalign"@ != "text"@,
        "textalign"@ != "value"@,
        "textalign"@ != "contents"@,
        "textalign"@ != "name"@,
        "textalign"@ != "short name"@,
        "textalign"@ != "long name"@,
        "textalign"@ != "visible"@,
        "textalign"@ != "locked"@,
        "textalign"@ != "id"@,
        "textalign"@ != "textfont"@,
        "textalign"@ != "textsize"@,
        "textalign"@ != "textstyle"@,
        "weight"@ != "text"@,
        "weight"@ != "value"@,
        "weight"@ != "contents"@,
        "weight"@ != "name"@,
        "weight"@ != "short name"@,
        "weight"@ != "long name"@,
        "weight"@ != "visible"@,
        "weight"@ != "locked"@,
        "weight"@ != "id"@,
        "weight"@ != "textfont"@,
        "weight"@ != "textsize"@,
        "weight"@ != "textstyle"@,
        "weight"@ != "textalign"@,
        "textrole"@ != "text"@,
        "textrole"@ != "value"@,
        "textrole"@ != "contents"@,
        "textrole"@ != "name"@,
        "textrole"@ != "short name"@,
        "textrole"@ != "long name"@,
        "textrole"@ != "visible"@,
        "textrole"@ != "locked"@,
        "textrole"@ != "id"@,
        "textrole"@ != "textfont"@,
        "textrole"@ != "textsize"@,
        "textrole"@ != "textstyle"@,
        "textrole"@ != "textalign"@,
        "textrole"@ != "weight"@,
        "contentdescription"@ != "text"@,
        "contentdescription"@ != "value"@,
        "contentdescription"@ != "contents"@,
        "contentdescription"@ != "name"@,
        "contentdescription"@ != "short name"@,
        "contentdescription"@ != "long name"@,
        "contentdescription"@ != "visible"@,
        "contentdescription"@ != "locked"@,
        "contentdescription"@ != "id"@,
        "contentdescription"@ != "textfont"@,
        "contentdescription"@ != "textsize"@,
        "contentdescription"@ != "textstyle"@,
        "contentdescription"@ != "textalign"@,
        "contentdescription"@ != "weight"@,
        "contentdescription"@ != "textrole"@,
        "liveregion"@ != "text"@,
        "liveregion"@ != "value"@,
        "liveregion"@ != "contents"@,
        "liveregion"@ != "name"@,
        "liveregion"@ != "short name"@,
        "liveregion"@ != "long name"@,
        "liveregion"@ != "visible"@,
        "liveregion"@ != "locked"@,
        "liveregion"@ != "id"@,
        "liveregion"@ != "textfont"@,
        "liveregion"@ != "textsize"@,
        "liveregion"@ != "textstyle"@,
        "liveregion"@ != "textalign"@,
        "liveregion"@ != "weight"@,
        "liveregion"@ != "textrole"@,
        "liveregion"@ != "contentdescription"@,
        "title"@ != "text"@,
        "title"@ != "value"@,
        "title"@ != "contents"@,
        "title"@ != "name"@,
        "title"@ != "short name"@,
        "title"@ != "long name"@,
        "title"@ != "visible"@,
        "title"@ != "locked"@,
        "title"@ != "id"@,
        "title"@ != "textfont"@,
        "title"@ != "textsize"@,
        "title"@ != "textstyle"@,
        "title"@ != "textalign"@,
        "title"@ != "weight"@,
        "title"@ != "textrole"@,
        "title"@ != "contentdescription"@,
        "title"@ != "liveregion"@,
        "label"@ != "text"@,
        "label"@ != "value"@,
        "label"@ != "contents"@,
        "label"@ != "name"@,
        "label"@ != "short name"@,
        "label"@ != "long name"@,
        "label"@ != "visible"@,
        "label"@ != "locked"@,
        "label"@ != "id"@,
        "label"@ != "textfont"@,
        "label"@ != "textsize"@,
        "label"@ != "textstyle"@,
        "label"@ != "textalign"@,
        "label"@ != "weight"@,
        "label"@ != "textrole"@,
        "label"@ != "contentdescription"@,
        "label"@ != "liveregion"@,
        "label"@ != "title"@,
        "checked"@ != "text"@,
        "checked"@ != "value"@,
        "checked"@ != "contents"@,
        "checked"@ != "name"@,
        "checked"@ != "short name"@,
        "checked"@ != "long name"@,
        "checked"@ != "visible"@,
        "checked"@ != "locked"@,
        "checked"@ != "id"@,
        "checked"@ != "textfont"@,
        "checked"@ != "textsize"@,
        "checked"@ != "textstyle"@,
        "checked"@ != "textalign"@,
        "checked"@ != "weight"@,
        "checked"@ != "textrole"@,
        "checked"@ != "contentdescription"@,
        "checked"@ != "liveregion"@,
        "checked"@ != "title"@,
        "checked"@ != "label"@,
        "control"@ != "text"@,
        "control"@ != "value"@,
        "control"@ != "contents"@,
        "control"@ != "name"@,
        "control"@ != "short name"@,
        "control"@ != "long name"@,
        "control"@ != "visible"@,
        "control"@ != "locked"@,
        "control"@ != "id"@,
        "control"@ != "textfont"@,
        "control"@ != "textsize"@,
        "control"@ != "textstyle"@,
        "control"@ != "textalign"@,
        "control"@ != "weight"@,
        "control"@ != "textrole"@,
        "control"@ != "contentdescription"@,
        "control"@ != "liveregion"@,
        "control"@ != "title"@,
        "control"@ != "label"@,
        "control"@ != "checked"@,
        "source"@ != "text"@,
        "source"@ != "value"@,
        "source"@ != "contents"@,
        "source"@ != "name"@,
        "source"@ != "short name"@,
        "source"@ != "long name"@,
        "source"@ != "visible"@,
        "source"@ != "locked"@,
        "source"@ != "id"@,
        "source"@ != "textfont"@,
        "source"@ != "textsize"@,
        "source"@ != "textstyle"@,
        "source"@ != "textalign"@,
        "source"@ != "weight"@,
        "source"@ != "textrole"@,
        "source"@ != "contentdescription"@,
        "source"@ != "liveregion"@,
        "source"@ != "title"@,
        "source"@ != "label"@,
        "source"@ != "checked"@,
        "source"@ != "control"@,
        "role"@ != "text"@,
        "role"@ != "value"@,
        "role"@ != "contents"@,
        "role"@ != "name"@,
        "role"@ != "short name"@,
        "role"@ != "long name"@,
        "role"@ != "visible"@,
        "role"@ != "locked"@,
        "role"@ != "id"@,
        "role"@ != "textfont"@,
        "role"@ != "textsize"@,
        "role"@ != "textstyle"@,
        "role"@ != "textalign"@,
        "role"@ != "weight"@,
        "role"@ != "textrole"@,
        "role"@ != "contentdescription"@,
        "role"@ != "liveregion"@,
        "role"@ != "title"@,
        "role"@ != "label"@,
        "role"@ != "checked"@,
        "role"@ != "control"@,
        "role"@ != "source"@,
        "number"@ != "text"@,
        "number"@ != "value"@,
        "number"@ != "contents"@,
        "number"@ != "name"@,
        "number"@ != "short name"@,
        "number"@ != "long name"@,
        "number"@ != "visible"@,
        "number"@ != "locked"@,
        "number"@ != "id"@,
        "number"@ != "textfont"@,
        "number"@ != "textsize"@,
        "number"@ != "textstyle"@,
        "number"@ != "textalign"@,
        "number"@ != "weight"@,
        "number"@ != "textrole"@,
        "number"@ != "contentdescription"@,
        "number"@ != "liveregion"@,
        "number"@ != "title"@,
        "number"@ != "label"@,
        "number"@ != "checked"@,
        "number"@ != "control"@,
        "number"@ != "source"@,
        "number"@ != "role"@,
        "padding"@ != "text"@,
        "padding"@ != "value"@,
        "padding"@ != "contents"@,
        "padding"@ != "name"@,
        "padding"@ != "short name"@,
        "padding"@ != "long name"@,
        "padding"@ != "visible"@,
        "padding"@ != "locked"@,
        "padding"@ != "id"@,
        "padding"@ != "textfont"@,
        "padding"@ != "textsize"@,
        "padding"@ != "textstyle"@,
        "padding"@ != "textalign"@,
        "padding"@ != "weight"@,
        "padding"@ != "textrole"@,
        "padding"@ != "contentdescription"@,
        "padding"@ != "liveregion"@,
        "padding"@ != "title"@,
        "padding"@ != "label"@,
        "padding"@ != "checked"@,
        "padding"@ != "control"@,
        "padding"@ != "source"@,
        "padding"@ != "role"@,
        "padding"@ != "number"@,
        "safetop"@ != "text"@,
        "safetop"@ != "value"@,
        "safetop"@ != "contents"@,
        "safetop"@ != "name"@,
        "safetop"@ != "short name"@,
        "safetop"@ != "long name"@,
        "safetop"@ != "visible"@,
        "safetop"@ != "locked"@,
        "safetop"@ != "id"@,
        "safetop"@ != "textfont"@,
        "safetop"@ != "textsize"@,
        "safetop"@ != "textstyle"@,
        "safetop"@ != "textalign"@,
        "safetop"@ != "weight"@,
        "safetop"@ != "textrole"@,
        "safetop"@ != "contentdescription"@,
        "safetop"@ != "liveregion"@,
        "safetop"@ != "title"@,
        "safetop"@ != "label"@,
        "safetop"@ != "checked"@,
        "safetop"@ != "control"@,
        "safetop"@ != "source"@,
        "safetop"@ != "role"@,
        "safetop"@ != "number"@,
        "safetop"@ != "padding"@,
        "saferight"@ != "text"@,
        "saferight"@ != "value"@,
        "saferight"@ != "contents"@,
        "saferight"@ != "name"@,
        "saferight"@ != "short name"@,
        "saferight"@ != "long name"@,
        "saferight"@ != "visible"@,
        "saferight"@ != "locked"@,
        "saferight"@ != "id"@,
        "saferight"@ != "textfont"@,
        "saferight"@ != "textsize"@,
        "saferight"@ != "textstyle"@,
        "saferight"@ != "textalign"@,
        "saferight"@ != "weight"@,
        "saferight"@ != "textrole"@,
        "saferight"@ != "contentdescription"@,
        "saferight"@ != "liveregion"@,
        "saferight"@ != "title"@,
        "saferight"@ != "label"@,
        "saferight"@ != "checked"@,
        "saferight"@ != "control"@,
        "saferight"@ != "source"@,
        "saferight"@ != "role"@,
        "saferight"@ != "number"@,
        "saferight"@ != "padding"@,
        "saferight"@ != "safetop"@,
        "safebottom"@ != "text"@,
        "safebottom"@ != "value"@,
        "safebottom"@ != "contents"@,
        "safebottom"@ != "name"@,
        "safebottom"@ != "short name"@,
        "safebottom"@ != "long name"@,
        "safebottom"@ != "visible"@,
        "safebottom"@ != "locked"@,
        "safebottom"@ != "id"@,
        "safebottom"@ != "textfont"@,
        "safebottom"@ != "textsize"@,
        "safebottom"@ != "textstyle"@,
        "safebottom"@ != "textalign"@,
        "safebottom"@ != "weight"@,
        "safebottom"@ != "textrole"@,
        "safebottom"@ != "contentdescription"@,
        "safebottom"@ != "liveregion"@,
        "safebottom"@ != "title"@,
        "safebottom"@ != "label"@,
        "safebottom"@ != "checked"@,
        "safebottom"@ != "control"@,
        "safebottom"@ != "source"@,
        "safebottom"@ != "role"@,
        "safebottom"@ != "number"@,
        "safebottom"@ != "padding"@,
        "safebottom"@ != "safetop"@,
        "safebottom"@ != "saferight"@,
        "safeleft"@ != "text"@,
        "safeleft"@ != "value"@,
        "safeleft"@ != "contents"@,
        "safeleft"@ != "name"@,
        "safeleft"@ != "short name"@,
        "safeleft"@ != "long name"@,
        "safeleft"@ != "visible"@,
        "safeleft"@ != "locked"@,
        "safeleft"@ != "id"@,
        "safeleft"@ != "textfont"@,
        "safeleft"@ != "textsize"@,
        "safeleft"@ != "textstyle"@,
        "safeleft"@ != "textalign"@,
        "safeleft"@ != "weight"@,
        "safeleft"@ != "textrole"@,
        "safeleft"@ != "contentdescription"@,
        "safeleft"@ != "liveregion"@,
        "safeleft"@ != "title"@,
        "safeleft"@ != "label"@,
        "safeleft"@ != "checked"@,
        "safeleft"@ != "control"@,
        "safeleft"@ != "source"@,
        "safeleft"@ != "role"@,
        "safeleft"@ != "number"@,
        "safeleft"@ != "padding"@,
        "safeleft"@ != "safetop"@,
        "safeleft"@ != "saferight"@,
        "safeleft"@ != "safebottom"@,
        "theme"@ != "text"@,
        "theme"@ != "value"@,
        "theme"@ != "contents"@,
        "theme"@ != "name"@,
        "theme"@ != "short name"@,
        "theme"@ != "long name"@,
        "theme"@ != "visible"@,
        "theme"@ != "locked"@,
        "theme"@ != "id"@,
        "theme"@ != "textfont"@,
        "theme"@ != "textsize"@,
        "theme"@ != "textstyle"@,
        "theme"@ != "textalign"@,
        "theme"@ != "weight"@,
        "theme"@ != "textrole"@,
        "theme"@ != "contentdescription"@,
        "theme"@ != "liveregion"@,
        "theme"@ != "title"@,
        "theme"@ != "label"@,
        "theme"@ != "checked"@,
        "theme"@ != "control"@,
        "theme"@ != "source"@,
        "theme"@ != "role"@,
        "theme"@ != "number"@,
        "theme"@ != "padding"@,
        "theme"@ != "safetop"@,
        "theme"@ != "saferight"@,
        "theme"@ != "safebottom"@,
        "theme"@ != "safeleft"@,
        "accentcolor"@ != "text"@,
        "accentcolor"@ != "value"@,
        "accentcolor"@ != "contents"@,
        "accentcolor"@ != "name"@,
        "accentcolor"@ != "short name"@,
        "accentcolor"@ != "long name"@,
        "accentcolor"@ != "visible"@,
        "accentcolor"@ != "locked"@,
        "accentcolor"@ != "id"@,
        "accentcolor"@ != "textfont"@,
        "accentcolor"@ != "textsize"@,
        "accentcolor"@ != "textstyle"@,
        "accentcolor"@ != "textalign"@,
        "accentcolor"@ != "weight"@,
        "accentcolor"@ != "textrole"@,
        "accentcolor"@ != "contentdescription"@,
        "accentcolor"@ != "liveregion"@,
        "accentcolor"@ != "title"@,
        "accentcolor"@ != "label"@,
        "accentcolor"@ != "checked"@,
        "accentcolor"@ != "control"@,
        "accentcolor"@ != "source"@,
        "accentcolor"@ != "role"@,
        "accentcolor"@ != "number"@,
        "accentcolor"@ != "padding"@,
        "accentcolor"@ != "safetop"@,
        "accentcolor"@ != "saferight"@,
        "accentcolor"@ != "safebottom"@,
        "accentcolor"@ != "safeleft"@,
        "accentcolor"@ != "theme"@,
        "loc"@ != "text"@,
        "loc"@ != "value"@,
        "loc"@ != "contents"@,
        "loc"@ != "name"@,
        "loc"@ != "short name"@,
        "loc"@ != "long name"@,
        "loc"@ != "visible"@,
        "loc"@ != "locked"@,
        "loc"@ != "id"@,
        "loc"@ != "textfont"@,
        "loc"@ != "textsize"@,
        "loc"@ != "textstyle"@,
        "loc"@ != "textalign"@,
        "loc"@ != "weight"@,
        "loc"@ != "textrole"@,
        "loc"@ != "contentdescription"@,
        "loc"@ != "liveregion"@,
        "loc"@ != "title"@,
        "loc"@ != "label"@,
        "loc"@ != "checked"@,
        "loc"@ != "control"@,
        "loc"@ != "source"@,
        "loc"@ != "role"@,
        "loc"@ != "number"@,
        "loc"@ != "padding"@,
        "loc"@ != "safetop"@,
        "loc"@ != "saferight"@,
        "loc"@ != "safebottom"@,
        "loc"@ != "safeleft"@,
        "loc"@ != "theme"@,
        "loc"@ != "accentcolor"@,
        "location"@ != "text"@,
        "location"@ != "value"@,
        "location"@ != "contents"@,
        "location"@ != "name"@,
        "location"@ != "short name"@,
        "location"@ != "long name"@,
        "location"@ != "visible"@,
        "location"@ != "locked"@,
        "location"@ != "id"@,
        "location"@ != "textfont"@,
        "location"@ != "textsize"@,
        "location"@ != "textstyle"@,
        "location"@ != "textalign"@,
        "location"@ != "weight"@,
        "location"@ != "textrole"@,
        "location"@ != "contentdescription"@,
        "location"@ != "liveregion"@,
        "location"@ != "title"@,
        "location"@ != "label"@,
        "location"@ != "checked"@,
        "location"@ != "control"@,
        "location"@ != "source"@,
        "location"@ != "role"@,
        "location"@ != "number"@,
        "location"@ != "padding"@,
        "location"@ != "safetop"@,
        "location"@ != "saferight"@,
        "location"@ != "safebottom"@,
        "location"@ != "safeleft"@,
        "location"@ != "theme"@,
        "location"@ != "accentcolor"@,
        "location"@ != "loc"@,
        "rect"@ != "text"@,
        "rect"@ != "value"@,
        "rect"@ != "contents"@,
        "rect"@ != "name"@,
        "rect"@ != "short name"@,
        "rect"@ != "long name"@,
        "rect"@ != "visible"@,
        "rect"@ != "locked"@,
        "rect"@ != "id"@,
        "rect"@ != "textfont"@,
        "rect"@ != "textsize"@,
        "rect"@ != "textstyle"@,
        "rect"@ != "textalign"@,
        "rect"@ != "weight"@,
        "rect"@ != "textrole"@,
        "rect"@ != "contentdescription"@,
        "rect"@ != "liveregion"@,
        "rect"@ != "title"@,
        "rect"@ != "label"@,
        "rect"@ != "checked"@,
        "rect"@ != "control"@,
        "rect"@ != "source"@,
        "rect"@ != "role"@,
        "rect"@ != "number"@,
        "rect"@ != "padding"@,
        "rect"@ != "safetop"@,
        "rect"@ != "saferight"@,
        "rect"@ != "safebottom"@,
        "rect"@ != "safeleft"@,
        "rect"@ != "theme"@,
        "rect"@ != "accentcolor"@,
        "rect"@ != "loc"@,
        "rect"@ != "location"@,
        "rectangle"@ != "text"@,
        "rectangle"@ != "value"@,
        "rectangle"@ != "contents"@,
        "rectangle"@ != "name"@,
        "rectangle"@ != "short name"@,
        "rectangle"@ != "long name"@,
        "rectangle"@ != "visible"@,
        "rectangle"@ != "locked"@,
        "rectangle"@ != "id"@,
        "rectangle"@ != "textfont"@,
        "rectangle"@ != "textsize"@,
        "rectangle"@ != "textstyle"@,
        "rectangle"@ != "textalign"@,
        "rectangle"@ != "weight"@,
        "rectangle"@ != "textrole"@,
        "rectangle"@ != "contentdescription"@,
        "rectangle"@ != "liveregion"@,
        "rectangle"@ != "title"@,
        "rectangle"@ != "label"@,
        "rectangle"@ != "checked"@,
        "rectangle"@ != "control"@,
        "rectangle"@ != "source"@,
        "rectangle"@ != "role"@,
        "rectangle"@ != "number"@,
        "rectangle"@ != "padding"@,
        "rectangle"@ != "safetop"@,
        "rectangle"@ != "saferight"@,
        "rectangle"@ != "safebottom"@,
        "rectangle"@ != "safeleft"@,
        "rectangle"@ != "theme"@,
        "rectangle"@ != "accentcolor"@,
        "rectangle"@ != "loc"@,
        "rectangle"@ != "location"@,
        "rectangle"@ != "rect"@,
        "width"@ != "text"@,
        "width"@ != "value"@,
        "width"@ != "contents"@,
        "width"@ != "name"@,
        "width"@ != "short name"@,
        "width"@ != "long name"@,
        "width"@ != "visible"@,
        "width"@ != "locked"@,
        "width"@ != "id"@,
        "width"@ != "textfont"@,
        "width"@ != "textsize"@,
        "width"@ != "textstyle"@,
        "width"@ != "textalign"@,
        "width"@ != "weight"@,
        "width"@ != "textrole"@,
        "width"@ != "contentdescription"@,
        "width"@ != "liveregion"@,
        "width"@ != "title"@,
        "width"@ != "label"@,
        "width"@ != "checked"@,
        "width"@ != "control"@,
        "width"@ != "source"@,
        "width"@ != "role"@,
        "width"@ != "number"@,
        "width"@ != "padding"@,
        "width"@ != "safetop"@,
        "width"@ != "saferight"@,
        "width"@ != "safebottom"@,
        "width"@ != "safeleft"@,
        "width"@ != "theme"@,
        "width"@ != "accentcolor"@,
        "width"@ != "loc"@,
        "width"@ != "location"@,
        "width"@ != "rect"@,
        "width"@ != "rectangle"@,
        "height"@ != "text"@,
        "height"@ != "value"@,
        "height"@ != "contents"@,
        "height"@ != "name"@,
        "height"@ != "short name"@,
        "height"@ != "long name"@,
        "height"@ != "visible"@,
        "height"@ != "locked"@,
        "height"@ != "id"@,
        "height"@ != "textfont"@,
        "height"@ != "textsize"@,
        "height"@ != "textstyle"@,
        "height"@ != "textalign"@,
        "height"@ != "weight"@,
        "height"@ != "textrole"@,
        "height"@ != "contentdescription"@,
        "height"@ != "liveregion"@,
        "height"@ != "title"@,
        "height"@ != "label"@,
        "height"@ != "checked"@,
        "height"@ != "control"@,
        "height"@ != "source"@,
        "height"@ != "role"@,
        "height"@ != "number"@,
        "height"@ != "padding"@,
        "height"@ != "safetop"@,
        "height"@ != "saferight"@,
        "height"@ != "safebottom"@,
        "height"@ != "safeleft"@,
        "height"@ != "theme"@,
        "height"@ != "accentcolor"@,
        "height"@ != "loc"@,
        "height"@ != "location"@,
        "height"@ != "rect"@,
        "height"@ != "rectangle"@,
        "height"@ != "width"@,
        "top"@ != "text"@,
        "top"@ != "value"@,
        "top"@ != "contents"@,
        "top"@ != "name"@,
        "top"@ != "short name"@,
        "top"@ != "long name"@,
        "top"@ != "visible"@,
        "top"@ != "locked"@,
        "top"@ != "id"@,
        "top"@ != "textfont"@,
        "top"@ != "textsize"@,
        "top"@ != "textstyle"@,
        "top"@ != "textalign"@,
        "top"@ != "weight"@,
        "top"@ != "textrole"@,
        "top"@ != "contentdescription"@,
        "top"@ != "liveregion"@,
        "top"@ != "title"@,
        "top"@ != "label"@,
        "top"@ != "checked"@,
        "top"@ != "control"@,
        "top"@ != "source"@,
        "top"@ != "role"@,
        "top"@ != "number"@,
        "top"@ != "padding"@,
        "top"@ != "safetop"@,
        "top"@ != "saferight"@,
        "top"@ != "safebottom"@,
        "top"@ != "safeleft"@,
        "top"@ != "theme"@,
        "top"@ != "accentcolor"@,
        "top"@ != "loc"@,
        "top"@ != "location"@,
        "top"@ != "rect"@,
        "top"@ != "rectangle"@,
        "top"@ != "width"@,
        "top"@ != "height"@,
        "left"@ != "text"@,
        "left"@ != "value"@,
        "left"@ != "contents"@,
        "left"@ != "name"@,
        "left"@ != "short name"@,
        "left"@ != "long name"@,
        "left"@ != "visible"@,
        "left"@ != "locked"@,
        "left"@ != "id"@,
        "left"@ != "textfont"@,
        "left"@ != "textsize"@,
        "left"@ != "textstyle"@,
        "left"@ != "textalign"@,
        "left"@ != "weight"@,
        "left"@ != "textrole"@,
        "left"@ != "contentdescription"@,
        "left"@ != "liveregion"@,
        "left"@ != "title"@,
        "left"@ != "label"@,
        "left"@ != "checked"@,
        "left"@ != "control"@,
        "left"@ != "source"@,
        "left"@ != "role"@,
        "left"@ != "number"@,
        "left"@ != "padding"@,
        "left"@ != "safetop"@,
        "left"@ != "saferight"@,
        "left"@ != "safebottom"@,
        "left"@ != "safeleft"@,
        "left"@ != "theme"@,
        "left"@ != "accentcolor"@,
        "left"@ != "loc"@,
        "left"@ != "location"@,
        "left"@ != "rect"@,
        "left"@ != "rectangle"@,
        "left"@ != "width"@,
        "left"@ != "height"@,
        "left"@ != "top"@,
        "bottom"@ != "text"@,
        "bottom"@ != "value"@,
        "bottom"@ != "contents"@,
        "bottom"@ != "name"@,
        "bottom"@ != "short name"@,
        "bottom"@ != "long name"@,
        "bottom"@ != "visible"@,
        "bottom"@ != "locked"@,
        "bottom"@ != "id"@,
        "bottom"@ != "textfont"@,
        "bottom"@ != "textsize"@,
        "bottom"@ != "textstyle"@,
        "bottom"@ != "textalign"@,
        "bottom"@ != "weight"@,
        "bottom"@ != "textrole"@,
        "bottom"@ != "contentdescription"@,
        "bottom"@ != "liveregion"@,
        "bottom"@ != "title"@,
        "bottom"@ != "label"@,
        "bottom"@ != "checked"@,
        "bottom"@ != "control"@,
        "bottom"@ != "source"@,
        "bottom"@ != "role"@,
        "bottom"@ != "number"@,
        "bottom"@ != "padding"@,
        "bottom"@ != "safetop"@,
        "bottom"@ != "saferight"@,
        "bottom"@ != "safebottom"@,
        "bottom"@ != "safeleft"@,
        "bottom"@ != "theme"@,
        "bottom"@ != "accentcolor"@,
        "bottom"@ != "loc"@,
        "bottom"@ != "location"@,
        "bottom"@ != "rect"@,
        "bottom"@ != "rectangle"@,
        "bottom"@ != "width"@,
        "bottom"@ != "height"@,
        "bottom"@ != "top"@,
        "bottom"@ != "left"@,
        "right"@ != "text"@,
        "right"@ != "value"@,
        "right"@ != "contents"@,
        "right"@ != "name"@,
        "right"@ != "short name"@,
        "right"@ != "long name"@,
        "right"@ != "visible"@,
        "right"@ != "locked"@,
        "right"@ != "id"@,
        "right"@ != "textfont"@,
        "right"@ != "textsize"@,
        "right"@ != "textstyle"@,
        "right"@ != "textalign"@,
        "right"@ != "weight"@,
        "right"@ != "textrole"@,
        "right"@ != "contentdescription"@,
        "right"@ != "liveregion"@,
        "right"@ != "title"@,
        "right"@ != "label"@,
        "right"@ != "checked"@,
        "right"@ != "control"@,
        "right"@ != "source"@,
        "right"@ != "role"@,
        "right"@ != "number"@,
        "right"@ != "padding"@,
        "right"@ != "safetop"@,
        "right"@ != "saferight"@,
        "right"@ != "safebottom"@,
        "right"@ != "safeleft"@,
        "right"@ != "theme"@,
        "right"@ != "accentcolor"@,
        "right"@ != "loc"@,
        "right"@ != "location"@,
        "right"@ != "rect"@,
        "right"@ != "rectangle"@,
        "right"@ != "width"@,
        "right"@ != "height"@,
        "right"@ != "top"@,
        "right"@ != "left"@,
        "right"@ != "bottom"@,
{
    reveal_strlit("text");
    reveal_strlit("value");
    reveal_strlit("contents");
    reveal_strlit("name");
    reveal_strlit("short name");
    reveal_strlit("long name");
    reveal_strlit("visible");
    reveal_strlit("locked");
    reveal_strlit("id");
    reveal_strlit("textfont");
    reveal_strlit("textsize");
    reveal_strlit("textstyle");
    reveal_strlit("textalign");
    reveal_strlit("weight");
    reveal_strlit("textrole");
    reveal_strlit("contentdescription");
    reveal_strlit("liveregion");
    reveal_strlit("title");
    reveal_strlit("label");
    reveal_strlit("checked");
    reveal_strlit("control");
    reveal_strlit("source");
    reveal_strlit("role");
    reveal_strlit("number");
    reveal_strlit("padding");
    reveal_strlit("safetop");
    reveal_strlit("saferight");
    reveal_strlit("safebottom");
    reveal_strlit("safeleft");
    reveal_strlit("theme");
    reveal_strlit("accentcolor");
    reveal_strlit("loc");
    reveal_strlit("location");
    reveal_strlit("rect");
    reveal_strlit("rectangle");
    reveal_strlit("width");
    reveal_strlit("height");
    reveal_strlit("top");
    reveal_strlit("left");
    reveal_strlit("bottom");
    reveal_strlit("right");
    assert("text"@.len() == 4);
    assert("value"@.len() == 5);
    assert("contents"@.len() == 8);
    assert("name"@.len() == 4);
    assert("short name"@.len() == 10);
    assert("long name"@.len() == 9);
    assert("visible"@.len() == 7);
    assert("locked"@.len() == 6);
    assert("id"@.len() == 2);
    assert("textfont"@.len() == 8);
    assert("textsize"@.len() == 8);
    assert("textstyle"@.len() == 9);
    assert("textalign"@.len() == 9);
    assert("weight"@.len() == 6);
    assert("textrole"@.len() == 8);
    assert("contentdescription"@.len() == 18);
    assert("liveregion"@.len() == 10);
    assert("title"@.len() == 5);
    assert("label"@.len() == 5);
    assert("checked"@.len() == 7);
    assert("control"@.len() == 7);
    assert("source"@.len() == 6);
    assert("role"@.len() == 4);
    assert("number"@.len() == 6);
    assert("padding"@.len() == 7);
    assert("safetop"@.len() == 7);
    assert("saferight"@.len() == 9);
    assert("safebottom"@.len() == 10);
    assert("safeleft"@.len() == 8);
    assert("theme"@.len() == 5);
    assert("accentcolor"@.len() == 11);
    assert("loc"@.len() == 3);
    assert("location"@.len() == 8);
    assert("rect"@.len() == 4);
    assert("rectangle"@.len() == 9);
    assert("width"@.len() == 5);
    assert("height"@.len() == 6);
    assert("top"@.len() == 3);
    assert("left"@.len() == 4);
    assert("bottom"@.len() == 6);
    assert("right"@.len() == 5);
    assert("name"@[0] != "text"@[0]);
    assert("textfont"@[0] != "contents"@[0]);
    assert("textsize"@[0] != "contents"@[0]);
    assert("textsize"@[4] != "textfont"@[4]);
    assert("textstyle"@[0] != "long name"@[0]);
    assert("textalign"@[0] != "long name"@[0]);
    assert("textalign"@[4] != "textstyle"@[4]);
    assert("weight"@[0] != "locked"@[0]);
    assert("textrole"@[0] != "contents"@[0]);
    assert("textrole"@[4] != "textfont"@[4]);
    assert("textrole"@[4] != "textsize"@[4]);
    assert("liveregion"@[0] != "short name"@[0]);
    assert("title"@[0] != "value"@[0]);
    assert("label"@[0] != "value"@[0]);
    assert("label"@[0] != "title"@[0]);
    assert("checked"@[0] != "visible"@[0]);
    assert("control"@[0] != "visible"@[0]);
    assert("control"@[1] != "checked"@[1]);
    assert("source"@[0] != "locked"@[0]);
    assert("source"@[0] != "weight"@[0]);
    assert("role"@[0] != "text"@[0]);
    assert("role"@[0] != "name"@[0]);
    assert("number"@[0] != "locked"@[0]);
    assert("number"@[0] != "weight"@[0]);
    assert("number"@[0] != "source"@[0]);
    assert("padding"@[0] != "visible"@[0]);
    assert("padding"@[0] != "checked"@[0]);
    assert("padding"@[0] != "control"@[0]);
    assert("safetop"@[0] != "visible"@[0]);
    assert("safetop"@[0] != "checked"@[0]);
    assert("safetop"@[0] != "control"@[0]);
    assert("safetop"@[0] != "padding"@[0]);
    assert("saferight"@[0] != "long name"@[0]);
    assert("saferight"@[0] != "textstyle"@[0]);
    assert("saferight"@[0] != "textalign"@[0]);
    assert("safebottom"@[1] != "short name"@[1]);
    assert("safebottom"@[0] != "liveregion"@[0]);
    assert("safeleft"@[0] != "contents"@[0]);
    assert("safeleft"@[0] != "textfont"@[0]);
    assert("safeleft"@[0] != "textsize"@[0]);
    assert("safeleft"@[0] != "textrole"@[0]);
    assert("theme"@[0] != "value"@[0]);
    assert("theme"@[1] != "title"@[1]);
    assert("theme"@[0] != "label"@[0]);
    assert("location"@[0] != "contents"@[0]);
    assert("location"@[0] != "textfont"@[0]);
    assert("location"@[0] != "textsize"@[0]);
    assert("location"@[0] != "textrole"@[0]);
    assert("location"@[0] != "safeleft"@[0]);
    assert("rect"@[0] != "text"@[0]);
    assert("rect"@[0] != "name"@[0]);
    assert("rect"@[1] != "role"@[1]);
    assert("rectangle"@[0] != "long name"@[0]);
    assert("rectangle"@[0] != "textstyle"@[0]);
    assert("rectangle"@[0] != "textalign"@[0]);
    assert("rectangle"@[0] != "saferight"@[0]);
    assert("width"@[0] != "value"@[0]);
    assert("width"@[0] != "title"@[0]);
    assert("width"@[0] != "label"@[0]);
    assert("width"@[0] != "theme"@[0]);
    assert("height"@[0] != "locked"@[0]);
    assert("height"@[0] != "weight"@[0]);
    assert("height"@[0] != "source"@[0]);
    assert("height"@[0] != "number"@[0]);
    assert("top"@[0] != "loc"@[0]);
    assert("left"@[0] != "text"@[0]);
    assert("left"@[0] != "name"@[0]);
    assert("left"@[0] != "role"@[0]);
    assert("left"@[0] != "rect"@[0]);
    assert("bottom"@[0] != "locked"@[0]);
    assert("bottom"@[0] != "weight"@[0]);
    assert("bottom"@[0] != "source"@[0]);
    assert("bottom"@[0] != "number"@[0]);
    assert("bottom"@[0] != "height"@[0]);
    assert("right"@[0] != "value"@[0]);
    assert("right"@[0] != "title"@[0]);
    assert("right"@[0] != "label"@[0]);
    assert("right"@[0] != "theme"@[0]);
    assert("right"@[0] != "width"@[0]);
}

/// Reading a button's property right after a script set it gives what was set: the name,
/// the title (the name when the title set is empty), the check state, the control,
/// source, description and role, the visibility, and the value and weight when given as
/// numbers; setting one of the name and the visibility leaves the other.
pub proof fn lemma_button_set_then_read(b: Button, v: PropInput)
    ensures
        button_read(button_set(b, "name"@, v), "name"@) == PropRead::Text(v.text),
        button_read(button_set(b, "title"@, v), "title"@) == PropRead::Text(
            if v.text@.len() == 0 { b.name } else { v.text },
        ),
        button_read(button_set(b, "label"@, v), "text"@) == PropRead::Text(
            if v.text@.len() == 0 { b.name } else { v.text },
        ),
        button_read(button_set(b, "checked"@, v), "checked"@) == PropRead::Flag(v.flag),
        button_read(button_set(b, "control"@, v), "control"@) == PropRead::Text(v.text),
        button_read(button_set(b, "source"@, v), "source"@) == PropRead::Text(v.text),
        button_read(button_set(b, "contentdescription"@, v), "contentdescription"@) == PropRead::Text(v.text),
        button_read(button_set(b, "role"@, v), "role"@) == PropRead::Text(v.text),
        button_read(button_set(b, "visible"@, v), "visible"@) == PropRead::Flag(v.flag),
        v.number matches Some(n) ==> button_read(button_set(b, "value"@, v), "value"@) == PropRead::Real(n),
        v.number matches Some(n) ==> button_read(button_set(b, "weight"@, v), "weight"@) == PropRead::Real(n),
        button_read(button_set(b, "visible"@, v), "name"@) == PropRead::Text(b.name),
        button_read(button_set(b, "name"@, v), "visible"@) == PropRead::Flag(b.visible),
{
    lemma_property_names_distinct();
}

/// Reading a field's text role, description, live region or weight (given as a number)
/// right after a script set it gives what was set; setting the text leaves the name and
/// setting the name leaves the text; the id reads as the field's id.
pub proof fn lemma_field_more_set_then_read(f: Field, v: PropInput)
    ensures
        field_read(field_set(f, "textrole"@, v), "textrole"@) == PropRead::Text(v.text),
        field_read(field_set(f, "contentdescription"@, v), "contentdescription"@) == PropRead::Text(v.text),
        field_read(field_set(f, "liveregion"@, v), "liveregion"@) == PropRead::Text(v.text),
        v.number matches Some(n) ==> field_read(field_set(f, "weight"@, v), "weight"@) == PropRead::Real(n),
        field_read(field_set(f, "text"@, v), "name"@) == PropRead::Text(f.name),
        field_read(field_set(f, "name"@, v), "text"@) == PropRead::Text(f.text),
        field_read(f, "id"@) == PropRead::Whole(f.id as u64),
{
    lemma_property_names_distinct();
}

/// What a card and the stack report: their names (under any of the three names), the
/// stack's number of cards, theme and accent color, the safe-area insets, and a card's
/// padding (0 without a layout overlay).
pub proof fn lemma_card_and_stack_reads(s: Stack, ci: int)
    requires
        0 <= ci < s.cards@.len(),
    ensures
        card_read(s, ci, "name"@) == PropRead::Text(s.cards@[ci].name),
        card_read(s, ci, "long name"@) == PropRead::Text(s.cards@[ci].name),
        card_read(s, ci, "padding"@) == PropRead::Real(
            match s.cards@[ci].layout {
                Some(l) => l.padding,
                None => 0,
            },
        ),
        card_read(s, ci, "safetop"@) == PropRead::Real(s.safe_insets.top),
        card_read(s, ci, "saferight"@) == PropRead::Real(s.safe_insets.right),
        card_read(s, ci, "safebottom"@) == PropRead::Real(s.safe_insets.bottom),
        card_read(s, ci, "safeleft"@) == PropRead::Real(s.safe_insets.left),
        stack_read(s, "name"@) == PropRead::Text(s.name),
        stack_read(s, "short name"@) == PropRead::Text(s.name),
        stack_read(s, "number"@) == PropRead::Whole(s.cards@.len() as u64),
        stack_read(s, "theme"@) == PropRead::Text(s.theme),
        stack_read(s, "accentcolor"@) == PropRead::Text(s.accent_color),
        stack_read(s, "safetop"@) == PropRead::Real(s.safe_insets.top),
        stack_read(s, "saferight"@) == PropRead::Real(s.safe_insets.right),
        stack_read(s, "safebottom"@) == PropRead::Real(s.safe_insets.bottom),
        stack_read(s, "safeleft"@) == PropRead::Real(s.safe_insets.left),
{
    lemma_property_names_distinct();
}

} // verus!
