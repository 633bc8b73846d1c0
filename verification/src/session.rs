//! The host-facing facade. A `Session` owns a `Stack` and the current card index, and
//! exposes what the platform host drives: render the current card, locate and edit
//! objects by id, author objects, and turn what a script run asked for into the result
//! the host acts on.
//!
//! The model of a session is its document (`doc`) and the current card (`at`); every
//! method states its effect over them.

use vstd::prelude::*;

use crate::model::{
    background_index, button_index, field_index, find_background, find_button, find_field,
    lemma_background_index, lemma_button_index, lemma_field_index, Background, Button, Card,
    Field, Rect, SafeInsets, Stack, ButtonStyle, label_of, max_object_id_of, lemma_max_object_id,
    lemma_background_index_update, lemma_button_index_update, lemma_field_index_update,
    lemma_max_button_id, lemma_max_field_id,
};
use crate::script::grammar::script_result;
use crate::script::interp::{HostCmd, Me};
use crate::script::parser;
use crate::text::{
    ascii_lower, decimal, eq_ignore_ascii_case, eq_ignore_case, owned, push_decimal, str_eq, to_lower,
};
use crate::view::{
    lemma_object_kinds_not_group, lemma_project_ids, button_ids, field_ids, free_button_nodes, free_field_nodes, group_count, max_object_id,
    max_object_id_on, nodes_v, opt_bg, project, project_children, push_free_buttons,
    push_free_fields, SpecNode, ViewNode, ViewTree,
};

verus! {

pub struct Session {
    stack: Stack,
    card_index: usize,
}

/// Where an object lives, seen from the current card: on the card itself (its index in
/// the card's buttons or fields), or on a background (the background's index in the
/// stack, then the object's index there).
#[derive(Debug, Clone, Copy, PartialEq, Eq, Structural)]
pub enum Place {
    Card(usize),
    Background(usize, usize),
}

/// The position in `s.backgrounds` of card `ci`'s background, when it names one that
/// exists (the first with that id).
pub open spec fn bg_index(s: Stack, ci: int) -> Option<int> {
    match s.cards@[ci].background_id {
        Some(id) => background_index(s.backgrounds@, id),
        None => None,
    }
}

/// Where the button `id` is, searching card `ci`'s buttons, then its background's.
pub open spec fn button_place(s: Stack, ci: int, id: u32) -> Option<Place> {
    match button_index(s.cards@[ci].buttons@, id) {
        Some(i) => Some(Place::Card(i as usize)),
        None => match bg_index(s, ci) {
            Some(g) => match button_index(s.backgrounds@[g].buttons@, id) {
                Some(i) => Some(Place::Background(g as usize, i as usize)),
                None => None,
            },
            None => None,
        },
    }
}

/// Where the field `id` is, searching card `ci`'s fields, then its background's.
pub open spec fn field_place(s: Stack, ci: int, id: u32) -> Option<Place> {
    match field_index(s.cards@[ci].fields@, id) {
        Some(i) => Some(Place::Card(i as usize)),
        None => match bg_index(s, ci) {
            Some(g) => match field_index(s.backgrounds@[g].fields@, id) {
                Some(i) => Some(Place::Background(g as usize, i as usize)),
                None => None,
            },
            None => None,
        },
    }
}

/// An object found by id: a button or a field, and where it is.
#[derive(Debug, Clone, Copy, PartialEq, Eq, Structural)]
pub enum Found {
    Button(Place),
    Field(Place),
}

/// Where the object `id` is, in the order the host's id-based calls search: the card's
/// buttons, the card's fields, the background's buttons, the background's fields.
pub open spec fn object_place(s: Stack, ci: int, id: u32) -> Option<Found> {
    match button_index(s.cards@[ci].buttons@, id) {
        Some(i) => Some(Found::Button(Place::Card(i as usize))),
        None => match field_index(s.cards@[ci].fields@, id) {
            Some(i) => Some(Found::Field(Place::Card(i as usize))),
            None => match bg_index(s, ci) {
                Some(g) => match button_index(s.backgrounds@[g].buttons@, id) {
                    Some(i) => Some(Found::Button(Place::Background(g as usize, i as usize))),
                    None => match field_index(s.backgrounds@[g].fields@, id) {
                        Some(i) => Some(Found::Field(Place::Background(g as usize, i as usize))),
                        None => None,
                    },
                },
                None => None,
            },
        },
    }
}

/// The button at `p`.
pub open spec fn button_at(s: Stack, ci: int, p: Place) -> Button {
    match p {
        Place::Card(i) => s.cards@[ci].buttons@[i as int],
        Place::Background(g, i) => s.backgrounds@[g as int].buttons@[i as int],
    }
}

/// The field at `p`.
pub open spec fn field_at(s: Stack, ci: int, p: Place) -> Field {
    match p {
        Place::Card(i) => s.cards@[ci].fields@[i as int],
        Place::Background(g, i) => s.backgrounds@[g as int].fields@[i as int],
    }
}

/// Whether `p` names a button that exists.
pub open spec fn button_place_ok(s: Stack, ci: int, p: Place) -> bool {
    match p {
        Place::Card(i) => i < s.cards@[ci].buttons@.len(),
        Place::Background(g, i) => g < s.backgrounds@.len() && i < s.backgrounds@[g as int].buttons@.len(),
    }
}

/// Whether `p` names a field that exists.
pub open spec fn field_place_ok(s: Stack, ci: int, p: Place) -> bool {
    match p {
        Place::Card(i) => i < s.cards@[ci].fields@.len(),
        Place::Background(g, i) => g < s.backgrounds@.len() && i < s.backgrounds@[g as int].fields@.len(),
    }
}

/// `t` is `s` with card `ci`'s buttons replaced by `bs`; nothing else changes.
pub open spec fn with_card_buttons(s: Stack, t: Stack, ci: int, bs: Seq<Button>) -> bool {
    let c = t.cards@[ci];
    &&& t.cards@ == s.cards@.update(ci, c)
    &&& t == Stack { cards: t.cards, ..s }
    &&& c.buttons@ == bs
    &&& c == Card { buttons: c.buttons, ..s.cards@[ci] }
}

/// `t` is `s` with card `ci`'s fields replaced by `fs`; nothing else changes.
pub open spec fn with_card_fields(s: Stack, t: Stack, ci: int, fs: Seq<Field>) -> bool {
    let c = t.cards@[ci];
    &&& t.cards@ == s.cards@.update(ci, c)
    &&& t == Stack { cards: t.cards, ..s }
    &&& c.fields@ == fs
    &&& c == Card { fields: c.fields, ..s.cards@[ci] }
}

/// `t` is `s` with background `g`'s buttons replaced by `bs`; nothing else changes.
pub open spec fn with_bg_buttons(s: Stack, t: Stack, g: int, bs: Seq<Button>) -> bool {
    let b = t.backgrounds@[g];
    &&& t.backgrounds@ == s.backgrounds@.update(g, b)
    &&& t == Stack { backgrounds: t.backgrounds, ..s }
    &&& b.buttons@ == bs
    &&& b == Background { buttons: b.buttons, ..s.backgrounds@[g] }
}

/// `t` is `s` with background `g`'s fields replaced by `fs`; nothing else changes.
pub open spec fn with_bg_fields(s: Stack, t: Stack, g: int, fs: Seq<Field>) -> bool {
    let b = t.backgrounds@[g];
    &&& t.backgrounds@ == s.backgrounds@.update(g, b)
    &&& t == Stack { backgrounds: t.backgrounds, ..s }
    &&& b.fields@ == fs
    &&& b == Background { fields: b.fields, ..s.backgrounds@[g] }
}

/// `t` is `s` with the button at `p` replaced by `b`; nothing else changes.
pub open spec fn with_button(s: Stack, t: Stack, ci: int, p: Place, b: Button) -> bool {
    match p {
        Place::Card(i) => with_card_buttons(s, t, ci, s.cards@[ci].buttons@.update(i as int, b)),
        Place::Background(g, i) => with_bg_buttons(
            s,
            t,
            g as int,
            s.backgrounds@[g as int].buttons@.update(i as int, b),
        ),
    }
}

/// `t` is `s` with the field at `p` replaced by `f`; nothing else changes.
pub open spec fn with_field(s: Stack, t: Stack, ci: int, p: Place, f: Field) -> bool {
    match p {
        Place::Card(i) => with_card_fields(s, t, ci, s.cards@[ci].fields@.update(i as int, f)),
        Place::Background(g, i) => with_bg_fields(
            s,
            t,
            g as int,
            s.backgrounds@[g as int].fields@.update(i as int, f),
        ),
    }
}

/// The script of the object a message starts at: the button or field `origin` names,
/// when it is found.
pub open spec fn origin_script(s: Stack, ci: int, origin: Option<Me>) -> Option<String> {
    match origin {
        Some(Me::Button(id)) => match button_place(s, ci, id) {
            Some(p) => Some(button_at(s, ci, p).script),
            None => None,
        },
        Some(Me::Field(id)) => match field_place(s, ci, id) {
            Some(p) => Some(field_at(s, ci, p).script),
            None => None,
        },
        _ => None,
    }
}

/// The message path of card `ci` from `origin`: the origin object (when found), the card,
/// its background (when it has one), then the stack; each with its script and its `me`.
pub open spec fn message_path(s: Stack, ci: int, origin: Option<Me>) -> Seq<(String, Me)> {
    let head = match origin_script(s, ci, origin) {
        Some(src) => seq![(src, origin->0)],
        None => Seq::empty(),
    };
    let bg = match bg_index(s, ci) {
        Some(g) => seq![(s.backgrounds@[g].script, Me::Background(s.backgrounds@[g].id))],
        None => Seq::empty(),
    };
    head + seq![(s.cards@[ci].script, Me::Card)] + bg + seq![(s.script, Me::Stack)]
}

/// `t` is `s` with card `ci`'s buttons and fields replaced by `bs` and `fs`; nothing else
/// changes.
pub open spec fn with_card_objects(s: Stack, t: Stack, ci: int, bs: Seq<Button>, fs: Seq<Field>) -> bool {
    let c = t.cards@[ci];
    &&& t.cards@ == s.cards@.update(ci, c)
    &&& t == Stack { cards: t.cards, ..s }
    &&& c.buttons@ == bs
    &&& c.fields@ == fs
    &&& c == Card { buttons: c.buttons, fields: c.fields, ..s.cards@[ci] }
}

/// `t` is `s` with background `g`'s buttons and fields replaced by `bs` and `fs`; nothing
/// else changes.
pub open spec fn with_bg_objects(s: Stack, t: Stack, g: int, bs: Seq<Button>, fs: Seq<Field>) -> bool {
    let b = t.backgrounds@[g];
    &&& t.backgrounds@ == s.backgrounds@.update(g, b)
    &&& t == Stack { backgrounds: t.backgrounds, ..s }
    &&& b.buttons@ == bs
    &&& b.fields@ == fs
    &&& b == Background { buttons: b.buttons, fields: b.fields, ..s.backgrounds@[g] }
}

/// Keeps the buttons whose id is not `id`.
pub open spec fn keeps_button(id: u32) -> spec_fn(Button) -> bool {
    |b: Button| b.id != id
}

/// Keeps the fields whose id is not `id`.
pub open spec fn keeps_field(id: u32) -> spec_fn(Field) -> bool {
    |f: Field| f.id != id
}

/// No button or field of the stack, on any card or background, has the id `id`.
pub open spec fn id_unused(s: Stack, id: u32) -> bool {
    &&& forall|c: int, j: int| 0 <= c < s.cards@.len() && 0 <= j < s.cards@[c].buttons@.len()
        ==> #[trigger] s.cards@[c].buttons@[j].id != id
    &&& forall|c: int, j: int| 0 <= c < s.cards@.len() && 0 <= j < s.cards@[c].fields@.len()
        ==> #[trigger] s.cards@[c].fields@[j].id != id
    &&& forall|g: int, j: int| 0 <= g < s.backgrounds@.len() && 0 <= j < s.backgrounds@[g].buttons@.len()
        ==> #[trigger] s.backgrounds@[g].buttons@[j].id != id
    &&& forall|g: int, j: int| 0 <= g < s.backgrounds@.len() && 0 <= j < s.backgrounds@[g].fields@.len()
        ==> #[trigger] s.backgrounds@[g].fields@[j].id != id
}

/// Left coordinate of a new object (the `f32` 20.0).
pub const NEW_OBJECT_X: u32 = 0x41a0_0000;
/// Top coordinate of a new object (the `f32` 80.0).
pub const NEW_OBJECT_Y: u32 = 0x42a0_0000;
/// Width of a new button (the `f32` 120.0).
pub const NEW_BUTTON_W: u32 = 0x42f0_0000;
/// Height of a new button (the `f32` 44.0).
pub const NEW_BUTTON_H: u32 = 0x4230_0000;
/// Width of a new field (the `f32` 200.0).
pub const NEW_FIELD_W: u32 = 0x4348_0000;
/// Height of a new field (the `f32` 36.0).
pub const NEW_FIELD_H: u32 = 0x4210_0000;
/// Text size of a new object (the `f32` 16.0).
pub const NEW_TEXT_SIZE: u32 = 0x4180_0000;

/// The button `add_object("button")` creates with id `id`: named `Button <id>`, titled
/// `Button`, rounded, at the default place and size, visible, with no script, no styling
/// and no flex weight.
pub open spec fn is_new_button(b: Button, id: u32) -> bool {
    &&& b.id == id
    &&& b.name@ == "Button "@ + decimal(id as nat)
    &&& b.rect == (Rect { x: NEW_OBJECT_X, y: NEW_OBJECT_Y, w: NEW_BUTTON_W, h: NEW_BUTTON_H })
    &&& b.title@ == "Button"@
    &&& b.style == ButtonStyle::Rounded
    &&& b.checked is None
    &&& b.control@.len() == 0
    &&& b.value is None
    &&& b.source@.len() == 0
    &&& b.visible
    &&& b.script@.len() == 0
    &&& b.text_font@.len() == 0
    &&& b.text_size == NEW_TEXT_SIZE
    &&& b.text_style@.len() == 0
    &&& b.text_align@.len() == 0
    &&& b.weight == 0
    &&& b.role@.len() == 0
    &&& b.content_description@.len() == 0
}

/// The field `add_object("field")` creates with id `id`: named `Field <id>`, empty,
/// unlocked, at the default place and size, visible, with no script and no styling.
pub open spec fn is_new_field(f: Field, id: u32) -> bool {
    &&& f.id == id
    &&& f.name@ == "Field "@ + decimal(id as nat)
    &&& f.rect == (Rect { x: NEW_OBJECT_X, y: NEW_OBJECT_Y, w: NEW_FIELD_W, h: NEW_FIELD_H })
    &&& f.text@.len() == 0
    &&& !f.locked
    &&& f.visible
    &&& f.script@.len() == 0
    &&& f.text_font@.len() == 0
    &&& f.text_size == NEW_TEXT_SIZE
    &&& f.text_style@.len() == 0
    &&& f.text_align@.len() == 0
    &&& f.weight == 0
    &&& f.text_role@.len() == 0
    &&& f.content_description@.len() == 0
    &&& f.live_region@.len() == 0
}

/// Removes from `v` every button whose id is `id`, keeping the others in order.
fn remove_buttons_with_id(v: &mut Vec<Button>, id: u32)
    ensures
        final(v)@ == old(v)@.filter(keeps_button(id)),
{
    let ghost orig = v@;
    let ghost p = keeps_button(id);
    let n = v.len();
    let mut i: usize = 0;
    let mut k: usize = 0;
    while k < n
        invariant
            n == orig.len(),
            k <= n,
            v@ == orig.take(k as int).filter(p) + orig.skip(k as int),
            i == orig.take(k as int).filter(p).len(),
            p == keeps_button(id),
        decreases n - k,
    {
        proof {
            reveal(Seq::filter);
            assert(orig.take(k + 1).drop_last() =~= orig.take(k as int));
            assert(orig.take(k + 1).last() == orig[k as int]);
            assert(v@[i as int] == orig[k as int]);
        }
        if v[i].id == id {
            v.remove(i);
            proof {
                assert(v@ =~= orig.take(k + 1).filter(p) + orig.skip(k + 1));
            }
        } else {
            proof {
                assert(orig.take(k + 1).filter(p) == orig.take(k as int).filter(p).push(orig[k as int]));
                assert(v@ =~= orig.take(k + 1).filter(p) + orig.skip(k + 1));
            }
            i += 1;
        }
        k += 1;
    }
    assert(orig.take(n as int) =~= orig);
    assert(v@ =~= orig.filter(p));
}

/// Removes from `v` every field whose id is `id`, keeping the others in order.
fn remove_fields_with_id(v: &mut Vec<Field>, id: u32)
    ensures
        final(v)@ == old(v)@.filter(keeps_field(id)),
{
    let ghost orig = v@;
    let ghost p = keeps_field(id);
    let n = v.len();
    let mut i: usize = 0;
    let mut k: usize = 0;
    while k < n
        invariant
            n == orig.len(),
            k <= n,
            v@ == orig.take(k as int).filter(p) + orig.skip(k as int),
            i == orig.take(k as int).filter(p).len(),
            p == keeps_field(id),
        decreases n - k,
    {
        proof {
            reveal(Seq::filter);
            assert(orig.take(k + 1).drop_last() =~= orig.take(k as int));
            assert(orig.take(k + 1).last() == orig[k as int]);
            assert(v@[i as int] == orig[k as int]);
        }
        if v[i].id == id {
            v.remove(i);
            proof {
                assert(v@ =~= orig.take(k + 1).filter(p) + orig.skip(k + 1));
            }
        } else {
            proof {
                assert(orig.take(k + 1).filter(p) == orig.take(k as int).filter(p).push(orig[k as int]));
                assert(v@ =~= orig.take(k + 1).filter(p) + orig.skip(k + 1));
            }
            i += 1;
        }
        k += 1;
    }
    assert(orig.take(n as int) =~= orig);
    assert(v@ =~= orig.filter(p));
}

/// Filtering by an id that no button carries keeps every button.
proof fn lemma_keeps_all_buttons(bs: Seq<Button>, id: u32)
    requires
        forall|j: int| 0 <= j < bs.len() ==> #[trigger] bs[j].id != id,
    ensures
        bs.filter(keeps_button(id)) == bs,
    decreases bs.len(),
{
    reveal(Seq::filter);
    if bs.len() > 0 {
        assert forall|j: int| 0 <= j < bs.drop_last().len() implies #[trigger] bs.drop_last()[j].id != id by {
            assert(bs.drop_last()[j] == bs[j]);
        }
        lemma_keeps_all_buttons(bs.drop_last(), id);
        assert(bs.drop_last().push(bs.last()) =~= bs);
    }
}

/// Filtering by an id that no field carries keeps every field.
proof fn lemma_keeps_all_fields(fs: Seq<Field>, id: u32)
    requires
        forall|j: int| 0 <= j < fs.len() ==> #[trigger] fs[j].id != id,
    ensures
        fs.filter(keeps_field(id)) == fs,
    decreases fs.len(),
{
    reveal(Seq::filter);
    if fs.len() > 0 {
        assert forall|j: int| 0 <= j < fs.drop_last().len() implies #[trigger] fs.drop_last()[j].id != id by {
            assert(fs.drop_last()[j] == fs[j]);
        }
        lemma_keeps_all_fields(fs.drop_last(), id);
        assert(fs.drop_last().push(fs.last()) =~= fs);
    }
}

/// Deleting the button that `add_object` has just created gives the card back as it was.
/// `t` is `s` after `add_object("button")` on card `ci` (the new button last, with the
/// unused id `id`); `u` is `t` after `delete_object(id)`, which finds it on the card.
/// Then `u` holds what `s` holds: the same cards, and card `ci` with the same buttons and
/// fields.
pub proof fn lemma_delete_undoes_add_button(s: Stack, t: Stack, u: Stack, ci: int, id: u32)
    requires
        0 <= ci < s.cards@.len(),
        id_unused(s, id),
        t.cards@[ci].buttons@.len() > 0,
        t.cards@[ci].buttons@.last().id == id,
        with_card_buttons(s, t, ci, s.cards@[ci].buttons@.push(t.cards@[ci].buttons@.last())),
        with_card_objects(
            t,
            u,
            ci,
            t.cards@[ci].buttons@.filter(keeps_button(id)),
            t.cards@[ci].fields@.filter(keeps_field(id)),
        ),
    ensures
        u.cards@[ci].buttons@ == s.cards@[ci].buttons@,
        u.cards@[ci].fields@ == s.cards@[ci].fields@,
        u.cards@[ci] == (Card { buttons: u.cards@[ci].buttons, fields: u.cards@[ci].fields, ..s.cards@[ci] }),
        u.cards@ == s.cards@.update(ci, u.cards@[ci]),
        u == (Stack { cards: u.cards, ..s }),
{
    let bs = s.cards@[ci].buttons@;
    let b = t.cards@[ci].buttons@.last();
    assert forall|j: int| 0 <= j < bs.len() implies #[trigger] bs[j].id != id by {
        assert(s.cards@[ci].buttons@[j].id != id);
    }
    lemma_keeps_all_buttons(bs, id);
    reveal(Seq::filter);
    assert(bs.push(b).drop_last() =~= bs);
    let fs = s.cards@[ci].fields@;
    assert forall|j: int| 0 <= j < fs.len() implies #[trigger] fs[j].id != id by {
        assert(s.cards@[ci].fields@[j].id != id);
    }
    lemma_keeps_all_fields(fs, id);
    assert(u.cards@ =~= s.cards@.update(ci, u.cards@[ci]));
}

/// Deleting the field that `add_object` has just created gives the card back as it was
/// (as `lemma_delete_undoes_add_button`, for `add_object("field")`).
pub proof fn lemma_delete_undoes_add_field(s: Stack, t: Stack, u: Stack, ci: int, id: u32)
    requires
        0 <= ci < s.cards@.len(),
        id_unused(s, id),
        t.cards@[ci].fields@.len() > 0,
        t.cards@[ci].fields@.last().id == id,
        with_card_fields(s, t, ci, s.cards@[ci].fields@.push(t.cards@[ci].fields@.last())),
        with_card_objects(
            t,
            u,
            ci,
            t.cards@[ci].buttons@.filter(keeps_button(id)),
            t.cards@[ci].fields@.filter(keeps_field(id)),
        ),
    ensures
        u.cards@[ci].buttons@ == s.cards@[ci].buttons@,
        u.cards@[ci].fields@ == s.cards@[ci].fields@,
        u.cards@[ci] == (Card { buttons: u.cards@[ci].buttons, fields: u.cards@[ci].fields, ..s.cards@[ci] }),
        u.cards@ == s.cards@.update(ci, u.cards@[ci]),
        u == (Stack { cards: u.cards, ..s }),
{
    let fs = s.cards@[ci].fields@;
    let f = t.cards@[ci].fields@.last();
    assert forall|j: int| 0 <= j < fs.len() implies #[trigger] fs[j].id != id by {
        assert(s.cards@[ci].fields@[j].id != id);
    }
    lemma_keeps_all_fields(fs, id);
    reveal(Seq::filter);
    assert(fs.push(f).drop_last() =~= fs);
    let bs = s.cards@[ci].buttons@;
    assert forall|j: int| 0 <= j < bs.len() implies #[trigger] bs[j].id != id by {
        assert(s.cards@[ci].buttons@[j].id != id);
    }
    lemma_keeps_all_buttons(bs, id);
    assert(u.cards@ =~= s.cards@.update(ci, u.cards@[ci]));
}

/// The name a button style is shown and stored by.
pub open spec fn style_name_of(st: ButtonStyle) -> Seq<char> {
    match st {
        ButtonStyle::Rounded => "rounded"@,
        ButtonStyle::Rectangle => "rectangle"@,
        ButtonStyle::Transparent => "transparent"@,
    }
}

/// The name of a button style: `rounded`, `rectangle` or `transparent`.
pub fn style_name(st: ButtonStyle) -> (r: String)
    ensures
        r@ == style_name_of(st),
{
    match st {
        ButtonStyle::Rounded => owned("rounded"),
        ButtonStyle::Rectangle => owned("rectangle"),
        ButtonStyle::Transparent => owned("transparent"),
    }
}

/// The style a name selects, ignoring ASCII case; anything unknown is rounded.
pub open spec fn style_of(s: Seq<char>) -> ButtonStyle {
    if ascii_lower(s) == "rectangle"@ {
        ButtonStyle::Rectangle
    } else if ascii_lower(s) == "transparent"@ {
        ButtonStyle::Transparent
    } else {
        ButtonStyle::Rounded
    }
}

/// The style named `s` (see `style_of`).
pub fn parse_style(s: &str) -> (r: ButtonStyle)
    ensures
        r == style_of(s@),
{
    let l = to_lower(s);
    if str_eq(l.as_str(), "rectangle") {
        ButtonStyle::Rectangle
    } else if str_eq(l.as_str(), "transparent") {
        ButtonStyle::Transparent
    } else {
        ButtonStyle::Rounded
    }
}

/// Reading a style's name back gives the style.
pub proof fn lemma_style_name_round_trip(st: ButtonStyle)
    ensures
        style_of(style_name_of(st)) == st,
{
    reveal_strlit("rounded");
    reveal_strlit("rectangle");
    reveal_strlit("transparent");
    assert(ascii_lower("rounded"@) =~= "rounded"@);
    assert(ascii_lower("rectangle"@) =~= "rectangle"@);
    assert(ascii_lower("transparent"@) =~= "transparent"@);
}

/// An object's editable properties for the host inspector: the union of the button and
/// field shapes (the button-only ones blank for a field and the other way round).
/// Geometry and text size are `f32` bit patterns; geometry is read-only here.
pub struct ObjectProps {
    pub id: u32,
    /// `button`, `switch` or `field`.
    pub kind: String,
    pub name: String,
    pub title: String,
    pub style: String,
    pub text: String,
    pub locked: bool,
    /// The state of a switch; false for plain buttons and fields.
    pub checked: bool,
    pub x: u32,
    pub y: u32,
    pub w: u32,
    pub h: u32,
    pub text_font: String,
    pub text_size: u32,
    pub text_style: String,
    pub text_align: String,
}

/// `p` describes the button `b`.
pub open spec fn props_of_button(p: ObjectProps, b: Button) -> bool {
    &&& p.id == b.id
    &&& p.kind@ == (if b.checked is Some { "switch"@ } else { "button"@ })
    &&& p.name@ == b.name@
    &&& p.title@ == b.title@
    &&& p.style@ == style_name_of(b.style)
    &&& p.text@.len() == 0
    &&& !p.locked
    &&& p.checked == (b.checked == Some(true))
    &&& p.x == b.rect.x && p.y == b.rect.y && p.w == b.rect.w && p.h == b.rect.h
    &&& p.text_font@ == b.text_font@
    &&& p.text_size == b.text_size
    &&& p.text_style@ == b.text_style@
    &&& p.text_align@ == b.text_align@
}

/// `p` describes the field `f`.
pub open spec fn props_of_field(p: ObjectProps, f: Field) -> bool {
    &&& p.id == f.id
    &&& p.kind@ == "field"@
    &&& p.name@ == f.name@
    &&& p.title@.len() == 0
    &&& p.style@.len() == 0
    &&& p.text@ == f.text@
    &&& p.locked == f.locked
    &&& !p.checked
    &&& p.x == f.rect.x && p.y == f.rect.y && p.w == f.rect.w && p.h == f.rect.h
    &&& p.text_font@ == f.text_font@
    &&& p.text_size == f.text_size
    &&& p.text_style@ == f.text_style@
    &&& p.text_align@ == f.text_align@
}

/// The button `b` with the inspector's edits applied: name, title, style, the state of a
/// switch (a plain button stays plain) and the text styling; not the geometry.
pub open spec fn button_with_props(b: Button, p: ObjectProps) -> Button {
    Button {
        name: p.name,
        title: p.title,
        style: style_of(p.style@),
        checked: if b.checked is Some { Some(p.checked) } else { None },
        text_font: p.text_font,
        text_size: p.text_size,
        text_style: p.text_style,
        text_align: p.text_align,
        ..b
    }
}

/// The field `f` with the inspector's edits applied: name, text, lock and the text
/// styling; not the geometry.
pub open spec fn field_with_props(f: Field, p: ObjectProps) -> Field {
    Field {
        name: p.name,
        text: p.text,
        locked: p.locked,
        text_font: p.text_font,
        text_size: p.text_size,
        text_style: p.text_style,
        text_align: p.text_align,
        ..f
    }
}

fn button_props(b: &Button) -> (r: ObjectProps)
    ensures
        props_of_button(r, *b),
{
    ObjectProps {
        id: b.id,
        kind: if b.checked.is_some() { owned("switch") } else { owned("button") },
        name: b.name.clone(),
        title: b.title.clone(),
        style: style_name(b.style),
        text: String::new(),
        locked: false,
        checked: match b.checked {
            Some(c) => c,
            None => false,
        },
        x: b.rect.x,
        y: b.rect.y,
        w: b.rect.w,
        h: b.rect.h,
        text_font: b.text_font.clone(),
        text_size: b.text_size,
        text_style: b.text_style.clone(),
        text_align: b.text_align.clone(),
    }
}

fn field_props(f: &Field) -> (r: ObjectProps)
    ensures
        props_of_field(r, *f),
{
    ObjectProps {
        id: f.id,
        kind: owned("field"),
        name: f.name.clone(),
        title: String::new(),
        style: String::new(),
        text: f.text.clone(),
        locked: f.locked,
        checked: false,
        x: f.rect.x,
        y: f.rect.y,
        w: f.rect.w,
        h: f.rect.h,
        text_font: f.text_font.clone(),
        text_size: f.text_size,
        text_style: f.text_style.clone(),
        text_align: f.text_align.clone(),
    }
}

/// A partial edit of an object's properties (the inspector's property blob): each field
/// that is present replaces the object's; geometry is not part of it. A button takes the
/// name, title, style and text styling; a field takes the name, text, lock and text
/// styling. The text size is an `f32` bit pattern.
pub struct PropsPatch {
    pub name: Option<String>,
    pub title: Option<String>,
    pub style: Option<String>,
    pub text: Option<String>,
    pub locked: Option<bool>,
    pub text_font: Option<String>,
    pub text_size: Option<u32>,
    pub text_style: Option<String>,
    pub text_align: Option<String>,
}

/// `o` when `v` is absent, else `v`'s value.
pub open spec fn or_keep<T>(v: Option<T>, o: T) -> T {
    match v {
        Some(x) => x,
        None => o,
    }
}

/// The button `b` with the patch applied.
pub open spec fn button_patched(b: Button, p: PropsPatch) -> Button {
    Button {
        name: or_keep(p.name, b.name),
        title: or_keep(p.title, b.title),
        style: match p.style {
            Some(s) => style_of(s@),
            None => b.style,
        },
        text_font: or_keep(p.text_font, b.text_font),
        text_size: or_keep(p.text_size, b.text_size),
        text_style: or_keep(p.text_style, b.text_style),
        text_align: or_keep(p.text_align, b.text_align),
        ..b
    }
}

/// The field `f` with the patch applied.
pub open spec fn field_patched(f: Field, p: PropsPatch) -> Field {
    Field {
        name: or_keep(p.name, f.name),
        text: or_keep(p.text, f.text),
        locked: or_keep(p.locked, f.locked),
        text_font: or_keep(p.text_font, f.text_font),
        text_size: or_keep(p.text_size, f.text_size),
        text_style: or_keep(p.text_style, f.text_style),
        text_align: or_keep(p.text_align, f.text_align),
        ..f
    }
}

/// A copy of an optional string.
fn copy_opt(v: &Option<String>) -> (r: Option<String>)
    ensures
        r == *v,
{
    match v {
        Some(s) => Some(s.clone()),
        None => None,
    }
}

/// One draw primitive of the current card for the canvas host: an object with its
/// card-coordinate rectangle (`f32` bit patterns) and what to draw in it.
pub struct DrawCmd {
    /// `button` or `field`.
    pub kind: String,
    pub id: u32,
    pub x: u32,
    pub y: u32,
    pub w: u32,
    pub h: u32,
    pub text: String,
    /// The button style (`rounded`, `rectangle`, `transparent`); empty for fields.
    pub style: String,
    pub visible: bool,
    pub locked: bool,
    pub text_font: String,
    pub text_size: u32,
    pub text_style: String,
    pub text_align: String,
}

/// The draw list of the current card: background objects under card objects, fields
/// under buttons within a layer.
pub struct RenderList {
    pub stack_name: String,
    pub card_name: String,
    pub card_index: usize,
    pub card_count: usize,
    /// Card size (`f32` bit patterns).
    pub width: u32,
    pub height: u32,
    pub items: Vec<DrawCmd>,
}

/// `d` draws the field `f`.
pub open spec fn field_cmd_of(d: DrawCmd, f: Field) -> bool {
    &&& d.kind@ == "field"@
    &&& d.id == f.id
    &&& d.x == f.rect.x && d.y == f.rect.y && d.w == f.rect.w && d.h == f.rect.h
    &&& d.text@ == f.text@
    &&& d.style@.len() == 0
    &&& d.visible == f.visible
    &&& d.locked == f.locked
    &&& d.text_font@ == f.text_font@
    &&& d.text_size == f.text_size
    &&& d.text_style@ == f.text_style@
    &&& d.text_align@ == f.text_align@
}

/// What a button shows on the canvas: its label, after a checked or an empty box when it
/// is a switch.
pub open spec fn button_text_of(b: Button) -> Seq<char> {
    match b.checked {
        Some(true) => "\u{2611} "@ + label_of(b),
        Some(false) => "\u{2610} "@ + label_of(b),
        None => label_of(b),
    }
}

/// `d` draws the button `b`.
pub open spec fn button_cmd_of(d: DrawCmd, b: Button) -> bool {
    &&& d.kind@ == "button"@
    &&& d.id == b.id
    &&& d.x == b.rect.x && d.y == b.rect.y && d.w == b.rect.w && d.h == b.rect.h
    &&& d.text@ == button_text_of(b)
    &&& d.style@ == style_name_of(b.style)
    &&& d.visible == b.visible
    &&& !d.locked
    &&& d.text_font@ == b.text_font@
    &&& d.text_size == b.text_size
    &&& d.text_style@ == b.text_style@
    &&& d.text_align@ == b.text_align@
}

/// `ds` draws the fields `fs`, one for one.
pub open spec fn draws_fields(ds: Seq<DrawCmd>, fs: Seq<Field>) -> bool {
    ds.len() == fs.len() && forall|k: int| 0 <= k < ds.len() ==> field_cmd_of(#[trigger] ds[k], fs[k])
}

/// `ds` draws the buttons `bs`, one for one.
pub open spec fn draws_buttons(ds: Seq<DrawCmd>, bs: Seq<Button>) -> bool {
    ds.len() == bs.len() && forall|k: int| 0 <= k < ds.len() ==> button_cmd_of(#[trigger] ds[k], bs[k])
}

/// The fields of card `ci`'s background; none when it has no background.
pub open spec fn bg_fields(s: Stack, ci: int) -> Seq<Field> {
    match bg_index(s, ci) {
        Some(g) => s.backgrounds@[g].fields@,
        None => Seq::empty(),
    }
}

/// The buttons of card `ci`'s background; none when it has no background.
pub open spec fn bg_buttons(s: Stack, ci: int) -> Seq<Button> {
    match bg_index(s, ci) {
        Some(g) => s.backgrounds@[g].buttons@,
        None => Seq::empty(),
    }
}

/// `ds` draws card `ci` bottom to top: the background's fields, its buttons, then the
/// card's fields and its buttons.
pub open spec fn draws_card(ds: Seq<DrawCmd>, s: Stack, ci: int) -> bool {
    let c = s.cards@[ci];
    let n1 = bg_fields(s, ci).len();
    let n2 = n1 + bg_buttons(s, ci).len();
    let n3 = n2 + c.fields@.len();
    let n4 = n3 + c.buttons@.len();
    &&& ds.len() == n4
    &&& draws_fields(ds.subrange(0, n1 as int), bg_fields(s, ci))
    &&& draws_buttons(ds.subrange(n1 as int, n2 as int), bg_buttons(s, ci))
    &&& draws_fields(ds.subrange(n2 as int, n3 as int), c.fields@)
    &&& draws_buttons(ds.subrange(n3 as int, n4 as int), c.buttons@)
}

fn field_cmd(f: &Field) -> (d: DrawCmd)
    ensures
        field_cmd_of(d, *f),
{
    DrawCmd {
        kind: owned("field"),
        id: f.id,
        x: f.rect.x,
        y: f.rect.y,
        w: f.rect.w,
        h: f.rect.h,
        text: f.text.clone(),
        style: String::new(),
        visible: f.visible,
        locked: f.locked,
        text_font: f.text_font.clone(),
        text_size: f.text_size,
        text_style: f.text_style.clone(),
        text_align: f.text_align.clone(),
    }
}

fn button_cmd(b: &Button) -> (d: DrawCmd)
    ensures
        button_cmd_of(d, *b),
{
    let text = match b.checked {
        Some(c) => {
            let mut t = if c { owned("\u{2611} ") } else { owned("\u{2610} ") };
            t.append(b.label().as_str());
            t
        },
        None => b.label().clone(),
    };
    DrawCmd {
        kind: owned("button"),
        id: b.id,
        x: b.rect.x,
        y: b.rect.y,
        w: b.rect.w,
        h: b.rect.h,
        text,
        style: style_name(b.style),
        visible: b.visible,
        locked: false,
        text_font: b.text_font.clone(),
        text_size: b.text_size,
        text_style: b.text_style.clone(),
        text_align: b.text_align.clone(),
    }
}

/// Appends a draw command for each field of `fs`, in order.
fn push_field_cmds(items: &mut Vec<DrawCmd>, fs: &Vec<Field>)
    ensures
        final(items)@.len() == old(items)@.len() + fs@.len(),
        final(items)@.subrange(0, old(items)@.len() as int) == old(items)@,
        draws_fields(final(items)@.subrange(old(items)@.len() as int, final(items)@.len() as int), fs@),
{
    let ghost start = items@;
    let mut k: usize = 0;
    while k < fs.len()
        invariant
            k <= fs.len(),
            items@.len() == start.len() + k,
            items@.subrange(0, start.len() as int) == start,
            forall|j: int| 0 <= j < k ==> field_cmd_of(#[trigger] items@[start.len() + j], fs@[j]),
        decreases fs.len() - k,
    {
        items.push(field_cmd(&fs[k]));
        proof {
            assert(items@.subrange(0, start.len() as int) =~= start);
        }
        k += 1;
    }
    proof {
        let d = items@.subrange(start.len() as int, items@.len() as int);
        assert forall|j: int| 0 <= j < d.len() implies field_cmd_of(#[trigger] d[j], fs@[j]) by {
            assert(d[j] == items@[start.len() + j]);
        }
    }
}

/// Appends a draw command for each button of `bs`, in order.
fn push_button_cmds(items: &mut Vec<DrawCmd>, bs: &Vec<Button>)
    ensures
        final(items)@.len() == old(items)@.len() + bs@.len(),
        final(items)@.subrange(0, old(items)@.len() as int) == old(items)@,
        draws_buttons(final(items)@.subrange(old(items)@.len() as int, final(items)@.len() as int), bs@),
{
    let ghost start = items@;
    let mut k: usize = 0;
    while k < bs.len()
        invariant
            k <= bs.len(),
            items@.len() == start.len() + k,
            items@.subrange(0, start.len() as int) == start,
            forall|j: int| 0 <= j < k ==> button_cmd_of(#[trigger] items@[start.len() + j], bs@[j]),
        decreases bs.len() - k,
    {
        items.push(button_cmd(&bs[k]));
        proof {
            assert(items@.subrange(0, start.len() as int) =~= start);
        }
        k += 1;
    }
    proof {
        let d = items@.subrange(start.len() as int, items@.len() as int);
        assert forall|j: int| 0 <= j < d.len() implies button_cmd_of(#[trigger] d[j], bs@[j]) by {
            assert(d[j] == items@[start.len() + j]);
        }
    }
}

/// What a tap lands on.
#[derive(Debug, Clone, Copy, PartialEq, Eq, Structural)]
pub enum Hit {
    Button(u32),
    /// An unlocked field: the host opens its editor.
    EditableField(u32),
    /// A locked field: it gets the tap as a message.
    LockedField(u32),
}

/// A tap on the field `id`: locked fields take it as a message, others open the editor.
pub fn field_hit(id: u32, locked: bool) -> (r: Hit)
    ensures
        r == (if locked { Hit::LockedField(id) } else { Hit::EditableField(id) }),
{
    if locked {
        Hit::LockedField(id)
    } else {
        Hit::EditableField(id)
    }
}

/// What a tap on the drawn object `d` lands on.
pub open spec fn hit_of(d: DrawCmd) -> Hit {
    if d.kind@ == "button"@ {
        Hit::Button(d.id)
    } else if d.locked {
        Hit::LockedField(d.id)
    } else {
        Hit::EditableField(d.id)
    }
}

/// The topmost (last drawn) visible item among the first `n` whose rectangle holds the
/// point.
pub open spec fn topmost(items: Seq<DrawCmd>, inside: Seq<bool>, n: int) -> Option<int>
    decreases n,
{
    if n <= 0 {
        None
    } else if items[n - 1].visible && inside[n - 1] {
        Some(n - 1)
    } else {
        topmost(items, inside, n - 1)
    }
}

/// Hit-tests a tap against a draw list: `inside[k]` tells whether the tap point lies in
/// the rectangle of `items[k]` (the host decides that on the coordinates). The topmost
/// visible item that holds the point is hit: the card's buttons over its fields, over the
/// background's buttons, over its fields, later over earlier within a layer.
pub fn topmost_hit(items: &Vec<DrawCmd>, inside: &Vec<bool>) -> (r: Option<Hit>)
    requires
        inside@.len() == items@.len(),
    ensures
        match topmost(items@, inside@, items@.len() as int) {
            Some(k) => r == Some(hit_of(items@[k])),
            None => r is None,
        },
{
    let mut k = items.len();
    while k > 0
        invariant
            k <= items@.len(),
            inside@.len() == items@.len(),
            topmost(items@, inside@, items@.len() as int) == topmost(items@, inside@, k as int),
        decreases k,
    {
        let d = &items[k - 1];
        if d.visible && inside[k - 1] {
            if str_eq(d.kind.as_str(), "button") {
                return Some(Hit::Button(d.id));
            }
            return Some(field_hit(d.id, d.locked));
        }
        k -= 1;
    }
    None
}

/// Card `ci`'s background, when it has one.
pub open spec fn bg_of(s: Stack, ci: int) -> Option<Background> {
    match bg_index(s, ci) {
        Some(g) => Some(s.backgrounds@[g]),
        None => None,
    }
}

/// The ids of card `ci`'s objects in render order: the background's fields and buttons,
/// then the card's fields and buttons.
pub open spec fn render_ids(s: Stack, ci: int) -> Seq<u32> {
    field_ids(bg_fields(s, ci)) + button_ids(bg_buttons(s, ci)) + field_ids(s.cards@[ci].fields@)
        + button_ids(s.cards@[ci].buttons@)
}

fn push_field_ids(ids: &mut Vec<u32>, fs: &Vec<Field>)
    ensures
        final(ids)@ == old(ids)@ + field_ids(fs@),
{
    let ghost start = ids@;
    let mut k: usize = 0;
    while k < fs.len()
        invariant
            k <= fs.len(),
            ids@ == start + field_ids(fs@.take(k as int)),
        decreases fs.len() - k,
    {
        ids.push(fs[k].id);
        assert(field_ids(fs@.take(k + 1)) =~= field_ids(fs@.take(k as int)).push(fs@[k as int].id));
        assert(ids@ =~= start + field_ids(fs@.take(k + 1)));
        k += 1;
    }
    assert(fs@.take(fs.len() as int) =~= fs@);
}

fn push_button_ids(ids: &mut Vec<u32>, bs: &Vec<Button>)
    ensures
        final(ids)@ == old(ids)@ + button_ids(bs@),
{
    let ghost start = ids@;
    let mut k: usize = 0;
    while k < bs.len()
        invariant
            k <= bs.len(),
            ids@ == start + button_ids(bs@.take(k as int)),
        decreases bs.len() - k,
    {
        ids.push(bs[k].id);
        assert(button_ids(bs@.take(k + 1)) =~= button_ids(bs@.take(k as int)).push(bs@[k as int].id));
        assert(ids@ =~= start + button_ids(bs@.take(k + 1)));
        k += 1;
    }
    assert(bs@.take(bs.len() as int) =~= bs@);
}

/// The ids of card `ci`'s objects in render order (see `render_ids`).
pub fn render_ids_of(stack: &Stack, ci: usize) -> (r: Vec<u32>)
    requires
        ci < stack.cards@.len(),
    ensures
        r@ == render_ids(*stack, ci as int),
{
    let mut ids: Vec<u32> = Vec::new();
    if let Some(g) = background_position(stack, ci) {
        push_field_ids(&mut ids, &stack.backgrounds[g].fields);
        push_button_ids(&mut ids, &stack.backgrounds[g].buttons);
    }
    push_field_ids(&mut ids, &stack.cards[ci].fields);
    push_button_ids(&mut ids, &stack.cards[ci].buttons);
    assert(ids@ =~= render_ids(*stack, ci as int));
    ids
}

/// Whether a view tree can be built for card `ci` without running out of ids: the group
/// ids of its layout overlay are allocated above the largest object id.
pub open spec fn tree_ids_fit(s: Stack, ci: int) -> bool {
    match s.cards@[ci].layout {
        Some(root) => max_object_id_on(s.cards@[ci], bg_of(s, ci)) + 1 + group_count(root.children@) <= u32::MAX,
        None => true,
    }
}

/// The view tree of card `ci`: its root arrangement, padding and columns, the root ids
/// and the nodes. With a layout overlay, the overlay's groups and the objects they
/// reference (with geometry when the root is `free`, ignoring case); without one, every
/// object with its geometry in render order, under a `free` root.
pub open spec fn tree_of(s: Stack, ci: int) -> (Seq<char>, u32, u32, Seq<u32>, Seq<SpecNode>) {
    let card = s.cards@[ci];
    let bg = bg_of(s, ci);
    match card.layout {
        Some(root) => {
            let geometry = eq_ignore_case(root.mode@, "free"@);
            let (ids, ns, _) = project(card, bg, root.children@, max_object_id_on(card, bg) + 1, geometry);
            (root.mode@, root.padding, root.columns, ids, ns)
        },
        None => (
            "free"@,
            0,
            0,
            render_ids(s, ci),
            free_field_nodes(bg_fields(s, ci)) + free_button_nodes(bg_buttons(s, ci)) + free_field_nodes(card.fields@)
                + free_button_nodes(card.buttons@),
        ),
    }
}

/// A host effect to perform after a dispatch; one for each request a script run makes
/// (`HostCmd`).
pub enum HostEffect {
    Answer(String),
    Message(String),
    Beep,
    /// `go to stack "Name"`: the host loads the named stack.
    GoStack(String),
    /// `show stacks`: the host opens its stack picker.
    ShowStacks,
    OpenUrl(String),
    Share(String),
    Toast(String),
    /// `get url`: the host fetches it and answers with `responseReceived`.
    GetUrl(String),
    /// `ask permission`: the host asks and answers with `permissionResult`.
    AskPermission(String),
    /// Text, action label, action message.
    Snackbar(String, String, String),
    /// Title, body, tap message.
    Notify(String, String, String),
}

/// The host effect for a runtime request: the same request, carrying the same text.
pub open spec fn effect_of(c: HostCmd) -> HostEffect {
    match c {
        HostCmd::Answer(s) => HostEffect::Answer(s),
        HostCmd::Beep => HostEffect::Beep,
        HostCmd::Message(s) => HostEffect::Message(s),
        HostCmd::GoStack(s) => HostEffect::GoStack(s),
        HostCmd::ShowStacks => HostEffect::ShowStacks,
        HostCmd::OpenUrl(s) => HostEffect::OpenUrl(s),
        HostCmd::Share(s) => HostEffect::Share(s),
        HostCmd::Toast(s) => HostEffect::Toast(s),
        HostCmd::GetUrl(s) => HostEffect::GetUrl(s),
        HostCmd::AskPermission(s) => HostEffect::AskPermission(s),
        HostCmd::Snackbar(a, b, c) => HostEffect::Snackbar(a, b, c),
        HostCmd::Notify(a, b, c) => HostEffect::Notify(a, b, c),
    }
}

/// The host effect for a runtime request (see `effect_of`).
pub fn host_effect(c: &HostCmd) -> (r: HostEffect)
    ensures
        r == effect_of(*c),
{
    match c {
        HostCmd::Answer(s) => HostEffect::Answer(s.clone()),
        HostCmd::Beep => HostEffect::Beep,
        HostCmd::Message(s) => HostEffect::Message(s.clone()),
        HostCmd::GoStack(s) => HostEffect::GoStack(s.clone()),
        HostCmd::ShowStacks => HostEffect::ShowStacks,
        HostCmd::OpenUrl(s) => HostEffect::OpenUrl(s.clone()),
        HostCmd::Share(s) => HostEffect::Share(s.clone()),
        HostCmd::Toast(s) => HostEffect::Toast(s.clone()),
        HostCmd::GetUrl(s) => HostEffect::GetUrl(s.clone()),
        HostCmd::AskPermission(s) => HostEffect::AskPermission(s.clone()),
        HostCmd::Snackbar(a, b, c) => HostEffect::Snackbar(a.clone(), b.clone(), c.clone()),
        HostCmd::Notify(a, b, c) => HostEffect::Notify(a.clone(), b.clone(), c.clone()),
    }
}

/// What a dispatch tells the host.
pub struct DispatchResult {
    pub needs_redraw: bool,
    pub card_changed: bool,
    /// The id of an editable field that was tapped: the host opens its editor.
    pub focus_field: Option<u32>,
    pub host_cmds: Vec<HostEffect>,
    pub error: Option<String>,
    /// Whether a handler ran for the message.
    pub handled: bool,
}

impl DispatchResult {
    /// Nothing happened.
    pub fn nothing() -> (r: DispatchResult)
        ensures
            !r.needs_redraw,
            !r.card_changed,
            r.focus_field is None,
            r.host_cmds@.len() == 0,
            r.error is None,
            !r.handled,
    {
        DispatchResult {
            needs_redraw: false,
            card_changed: false,
            focus_field: None,
            host_cmds: Vec::new(),
            error: None,
            handled: false,
        }
    }
}

/// How a walk along the message path ended: no script handled the message, a handler
/// ran to its end, or a script failed (to parse or to run) with this error.
pub enum PathEnd {
    NotHandled,
    Handled,
    Failed(String),
}

/// One step of the walk along the message path, given what trying the next script gave
/// (`Ok(true)`: its handler ran; `Ok(false)`: it has no handler for the message; `Err`:
/// it failed): the walk stops at the first handler that ran or failed, and goes on
/// (`None`) otherwise.
pub fn path_step(tried: Result<bool, String>) -> (r: Option<PathEnd>)
    ensures
        match tried {
            Ok(true) => r == Some(PathEnd::Handled),
            Ok(false) => r is None,
            Err(e) => r == Some(PathEnd::Failed(e)),
        },
{
    match tried {
        Ok(true) => Some(PathEnd::Handled),
        Ok(false) => None,
        Err(e) => Some(PathEnd::Failed(e)),
    }
}

/// What running a message along the message path came to: the card the run left
/// current, the requests it made of the host in order, and how the walk ended.
pub struct RunOutcome {
    pub card_index: usize,
    pub host: Vec<HostCmd>,
    pub end: PathEnd,
}

/// What a tap leads to.
#[derive(Debug, Clone, Copy, PartialEq, Eq, Structural)]
pub enum TouchPlan {
    /// Nothing: not a completed tap, or nothing under it.
    Nothing,
    /// Open the editor of this field.
    Focus(u32),
    /// Send `mouseUp` starting at this object.
    MouseUp(Me),
}

/// The plan for a tap of phase `phase` that lands on `hit`: only a completed tap
/// (`up` or `tap`) acts; a button or a locked field gets `mouseUp`, an editable field
/// opens its editor.
pub open spec fn touch_plan_of(phase: Seq<char>, hit: Option<Hit>) -> TouchPlan {
    if phase != "up"@ && phase != "tap"@ {
        TouchPlan::Nothing
    } else {
        match hit {
            None => TouchPlan::Nothing,
            Some(Hit::Button(id)) => TouchPlan::MouseUp(Me::Button(id)),
            Some(Hit::EditableField(id)) => TouchPlan::Focus(id),
            Some(Hit::LockedField(id)) => TouchPlan::MouseUp(Me::Field(id)),
        }
    }
}

/// The object a gesture starting on `hit` is sent to.
pub open spec fn gesture_origin_of(hit: Option<Hit>) -> Option<Me> {
    match hit {
        Some(Hit::Button(id)) => Some(Me::Button(id)),
        Some(Hit::EditableField(id)) => Some(Me::Field(id)),
        Some(Hit::LockedField(id)) => Some(Me::Field(id)),
        None => None,
    }
}

/// The object a gesture starting on `hit` is sent to: whatever is under it, locked or
/// not.
pub fn gesture_origin(hit: Option<Hit>) -> (r: Option<Me>)
    ensures
        r == gesture_origin_of(hit),
{
    match hit {
        Some(Hit::Button(id)) => Some(Me::Button(id)),
        Some(Hit::EditableField(id)) => Some(Me::Field(id)),
        Some(Hit::LockedField(id)) => Some(Me::Field(id)),
        None => None,
    }
}

/// The position in `stack.backgrounds` of card `ci`'s background (see `bg_index`).
pub fn background_position(stack: &Stack, ci: usize) -> (r: Option<usize>)
    requires
        ci < stack.cards@.len(),
    ensures
        match r {
            Some(g) => bg_index(*stack, ci as int) == Some(g as int) && g < stack.backgrounds@.len(),
            None => bg_index(*stack, ci as int) is None,
        },
{
    match stack.cards[ci].background_id {
        Some(id) => {
            proof { lemma_background_index(stack.backgrounds@, id); }
            find_background(&stack.backgrounds, id)
        },
        None => None,
    }
}

/// Where the button `id` is, seen from card `ci` (see `button_place`).
pub fn button_place_in(stack: &Stack, ci: usize, id: u32) -> (r: Option<Place>)
    requires
        ci < stack.cards@.len(),
    ensures
        r == button_place(*stack, ci as int, id),
        r matches Some(p) ==> button_place_ok(*stack, ci as int, p) && button_at(*stack, ci as int, p).id == id,
{
    proof { lemma_button_index(stack.cards@[ci as int].buttons@, id); }
    match find_button(&stack.cards[ci].buttons, id) {
        Some(i) => Some(Place::Card(i)),
        None => match background_position(stack, ci) {
            Some(g) => {
                proof { lemma_button_index(stack.backgrounds@[g as int].buttons@, id); }
                match find_button(&stack.backgrounds[g].buttons, id) {
                    Some(i) => Some(Place::Background(g, i)),
                    None => None,
                }
            },
            None => None,
        },
    }
}

/// Where the field `id` is, seen from card `ci` (see `field_place`).
pub fn field_place_in(stack: &Stack, ci: usize, id: u32) -> (r: Option<Place>)
    requires
        ci < stack.cards@.len(),
    ensures
        r == field_place(*stack, ci as int, id),
        r matches Some(p) ==> field_place_ok(*stack, ci as int, p) && field_at(*stack, ci as int, p).id == id,
{
    proof { lemma_field_index(stack.cards@[ci as int].fields@, id); }
    match find_field(&stack.cards[ci].fields, id) {
        Some(i) => Some(Place::Card(i)),
        None => match background_position(stack, ci) {
            Some(g) => {
                proof { lemma_field_index(stack.backgrounds@[g as int].fields@, id); }
                match find_field(&stack.backgrounds[g].fields, id) {
                    Some(i) => Some(Place::Background(g, i)),
                    None => None,
                }
            },
            None => None,
        },
    }
}

/// Replacing a button by one with the same id moves nothing: every object is found where
/// it was.
pub proof fn lemma_with_button_keeps_places(s: Stack, t: Stack, ci: int, p: Place, b: Button)
    requires
        0 <= ci < s.cards@.len(),
        button_place_ok(s, ci, p),
        with_button(s, t, ci, p, b),
        b.id == button_at(s, ci, p).id,
    ensures
        t.cards@.len() == s.cards@.len(),
        bg_index(t, ci) == bg_index(s, ci),
        button_at(t, ci, p) == b,
        forall|id: u32| #[trigger] object_place(t, ci, id) == object_place(s, ci, id),
        forall|id: u32| #[trigger] button_place(t, ci, id) == button_place(s, ci, id),
        forall|id: u32| #[trigger] field_place(t, ci, id) == field_place(s, ci, id),
{
    match p {
        Place::Card(i) => {
            assert(t.backgrounds == s.backgrounds);
            assert(t.cards@[ci].background_id == s.cards@[ci].background_id);
            assert forall|id: u32| #[trigger] button_index(t.cards@[ci].buttons@, id) == button_index(s.cards@[ci].buttons@, id) by {
                lemma_button_index_update(s.cards@[ci].buttons@, i as int, b, id);
            }
            assert forall|id: u32| #[trigger] object_place(t, ci, id) == object_place(s, ci, id) by {
                assert(button_index(t.cards@[ci].buttons@, id) == button_index(s.cards@[ci].buttons@, id));
            }
            assert forall|id: u32| #[trigger] button_place(t, ci, id) == button_place(s, ci, id) by {
                assert(button_index(t.cards@[ci].buttons@, id) == button_index(s.cards@[ci].buttons@, id));
            }
            assert forall|id: u32| #[trigger] field_place(t, ci, id) == field_place(s, ci, id) by {
                assert(button_index(t.cards@[ci].buttons@, id) == button_index(s.cards@[ci].buttons@, id));
            }
        },
        Place::Background(g, i) => {
            let nb = t.backgrounds@[g as int];
            assert forall|id: u32| #[trigger] background_index(t.backgrounds@, id) == background_index(s.backgrounds@, id) by {
                lemma_background_index_update(s.backgrounds@, g as int, nb, id);
            }
            assert forall|id: u32| #[trigger] button_index(t.backgrounds@[g as int].buttons@, id) == button_index(s.backgrounds@[g as int].buttons@, id) by {
                lemma_button_index_update(s.backgrounds@[g as int].buttons@, i as int, b, id);
            }
            assert(t.cards == s.cards);
            if let Some(bid) = s.cards@[ci].background_id {
                lemma_background_index(s.backgrounds@, bid);
            }
            assert(bg_index(t, ci) == bg_index(s, ci)) by {
                match s.cards@[ci].background_id {
                    Some(bid) => assert(background_index(t.backgrounds@, bid) == background_index(s.backgrounds@, bid)),
                    None => {},
                }
            }
            assert forall|id: u32| #[trigger] object_place(t, ci, id) == object_place(s, ci, id) by {
                assert(button_index(t.backgrounds@[g as int].buttons@, id) == button_index(s.backgrounds@[g as int].buttons@, id));
                if let Some(g0) = bg_index(s, ci) {
                    if g0 != g as int {
                        assert(t.backgrounds@[g0] == s.backgrounds@[g0]);
                    }
                }
            }
            assert forall|id: u32| #[trigger] button_place(t, ci, id) == button_place(s, ci, id) by {
                assert(button_index(t.backgrounds@[g as int].buttons@, id) == button_index(s.backgrounds@[g as int].buttons@, id));
                if let Some(g0) = bg_index(s, ci) {
                    if g0 != g as int {
                        assert(t.backgrounds@[g0] == s.backgrounds@[g0]);
                    }
                }
            }
            assert forall|id: u32| #[trigger] field_place(t, ci, id) == field_place(s, ci, id) by {
                assert(button_index(t.backgrounds@[g as int].buttons@, id) == button_index(s.backgrounds@[g as int].buttons@, id));
                if let Some(g0) = bg_index(s, ci) {
                    if g0 != g as int {
                        assert(t.backgrounds@[g0] == s.backgrounds@[g0]);
                    }
                }
            }
        },
    }
}

/// Replacing a field by one with the same id moves nothing: every object is found where
/// it was.
pub proof fn lemma_with_field_keeps_places(s: Stack, t: Stack, ci: int, p: Place, f: Field)
    requires
        0 <= ci < s.cards@.len(),
        field_place_ok(s, ci, p),
        with_field(s, t, ci, p, f),
        f.id == field_at(s, ci, p).id,
    ensures
        t.cards@.len() == s.cards@.len(),
        bg_index(t, ci) == bg_index(s, ci),
        field_at(t, ci, p) == f,
        forall|id: u32| #[trigger] object_place(t, ci, id) == object_place(s, ci, id),
        forall|id: u32| #[trigger] button_place(t, ci, id) == button_place(s, ci, id),
        forall|id: u32| #[trigger] field_place(t, ci, id) == field_place(s, ci, id),
{
    match p {
        Place::Card(i) => {
            assert(t.backgrounds == s.backgrounds);
            assert(t.cards@[ci].background_id == s.cards@[ci].background_id);
            assert forall|id: u32| #[trigger] field_index(t.cards@[ci].fields@, id) == field_index(s.cards@[ci].fields@, id) by {
                lemma_field_index_update(s.cards@[ci].fields@, i as int, f, id);
            }
            assert forall|id: u32| #[trigger] object_place(t, ci, id) == object_place(s, ci, id) by {
                assert(field_index(t.cards@[ci].fields@, id) == field_index(s.cards@[ci].fields@, id));
            }
            assert forall|id: u32| #[trigger] button_place(t, ci, id) == button_place(s, ci, id) by {
                assert(field_index(t.cards@[ci].fields@, id) == field_index(s.cards@[ci].fields@, id));
            }
            assert forall|id: u32| #[trigger] field_place(t, ci, id) == field_place(s, ci, id) by {
                assert(field_index(t.cards@[ci].fields@, id) == field_index(s.cards@[ci].fields@, id));
            }
        },
        Place::Background(g, i) => {
            let nb = t.backgrounds@[g as int];
            assert forall|id: u32| #[trigger] background_index(t.backgrounds@, id) == background_index(s.backgrounds@, id) by {
                lemma_background_index_update(s.backgrounds@, g as int, nb, id);
            }
            assert forall|id: u32| #[trigger] field_index(t.backgrounds@[g as int].fields@, id) == field_index(s.backgrounds@[g as int].fields@, id) by {
                lemma_field_index_update(s.backgrounds@[g as int].fields@, i as int, f, id);
            }
            assert(t.cards == s.cards);
            if let Some(bid) = s.cards@[ci].background_id {
                lemma_background_index(s.backgrounds@, bid);
            }
            assert(bg_index(t, ci) == bg_index(s, ci)) by {
                match s.cards@[ci].background_id {
                    Some(bid) => assert(background_index(t.backgrounds@, bid) == background_index(s.backgrounds@, bid)),
                    None => {},
                }
            }
            assert forall|id: u32| #[trigger] object_place(t, ci, id) == object_place(s, ci, id) by {
                assert(field_index(t.backgrounds@[g as int].fields@, id) == field_index(s.backgrounds@[g as int].fields@, id));
                if let Some(g0) = bg_index(s, ci) {
                    if g0 != g as int {
                        assert(t.backgrounds@[g0] == s.backgrounds@[g0]);
                    }
                }
            }
            assert forall|id: u32| #[trigger] button_place(t, ci, id) == button_place(s, ci, id) by {
                assert(field_index(t.backgrounds@[g as int].fields@, id) == field_index(s.backgrounds@[g as int].fields@, id));
                if let Some(g0) = bg_index(s, ci) {
                    if g0 != g as int {
                        assert(t.backgrounds@[g0] == s.backgrounds@[g0]);
                    }
                }
            }
            assert forall|id: u32| #[trigger] field_place(t, ci, id) == field_place(s, ci, id) by {
                assert(field_index(t.backgrounds@[g as int].fields@, id) == field_index(s.backgrounds@[g as int].fields@, id));
                if let Some(g0) = bg_index(s, ci) {
                    if g0 != g as int {
                        assert(t.backgrounds@[g0] == s.backgrounds@[g0]);
                    }
                }
            }
        },
    }
}

/// Two buttons agree on every property, strings compared by their characters.
pub open spec fn same_button(a: Button, b: Button) -> bool {
    &&& a.id == b.id
    &&& a.name@ == b.name@
    &&& a.rect == b.rect
    &&& a.title@ == b.title@
    &&& a.style == b.style
    &&& a.checked == b.checked
    &&& a.control@ == b.control@
    &&& a.value == b.value
    &&& a.source@ == b.source@
    &&& a.visible == b.visible
    &&& a.script@ == b.script@
    &&& a.text_font@ == b.text_font@
    &&& a.text_size == b.text_size
    &&& a.text_style@ == b.text_style@
    &&& a.text_align@ == b.text_align@
    &&& a.weight == b.weight
    &&& a.role@ == b.role@
    &&& a.content_description@ == b.content_description@
}

/// Two fields agree on every property, strings compared by their characters.
pub open spec fn same_field(a: Field, b: Field) -> bool {
    &&& a.id == b.id
    &&& a.name@ == b.name@
    &&& a.rect == b.rect
    &&& a.text@ == b.text@
    &&& a.locked == b.locked
    &&& a.visible == b.visible
    &&& a.script@ == b.script@
    &&& a.text_font@ == b.text_font@
    &&& a.text_size == b.text_size
    &&& a.text_style@ == b.text_style@
    &&& a.text_align@ == b.text_align@
    &&& a.weight == b.weight
    &&& a.text_role@ == b.text_role@
    &&& a.content_description@ == b.content_description@
    &&& a.live_region@ == b.live_region@
}

/// Applying the properties the inspector read from a button changes nothing:
/// `apply_object_props(object_props(id))` leaves the button as it was.
pub proof fn lemma_button_props_round_trip(b: Button, p: ObjectProps)
    requires
        props_of_button(p, b),
    ensures
        same_button(button_with_props(b, p), b),
{
    lemma_style_name_round_trip(b.style);
    match b.checked {
        Some(c) => assert(p.checked == c),
        None => {},
    }
}

/// Applying the properties the inspector read from a field changes nothing:
/// `apply_object_props(object_props(id))` leaves the field as it was.
pub proof fn lemma_field_props_round_trip(f: Field, p: ObjectProps)
    requires
        props_of_field(p, f),
    ensures
        same_field(field_with_props(f, p), f),
{
}

/// `t` is `s` after the switch `id` of card `ci` is flipped: the button `id` (card, then
/// background) gets the opposite state when it is a switch; otherwise nothing changes.
pub open spec fn toggled(s: Stack, t: Stack, ci: int, id: u32) -> bool {
    match button_place(s, ci, id) {
        Some(p) => {
            let b = button_at(s, ci, p);
            match b.checked {
                Some(c) => with_button(s, t, ci, p, (Button { checked: Some(!c), ..b })),
                None => t == s,
            }
        },
        None => t == s,
    }
}

/// The HyperTalk source of the object `id` (searched as in `object_place`).
pub open spec fn script_of_object(s: Stack, ci: int, id: u32) -> Option<Seq<char>> {
    match object_place(s, ci, id) {
        Some(Found::Button(p)) => Some(button_at(s, ci, p).script@),
        Some(Found::Field(p)) => Some(field_at(s, ci, p).script@),
        None => None,
    }
}

/// `t` is `s` after the source of the object `id` is replaced by `src`: only that
/// object's script changes; nothing changes when there is no such object.
pub open spec fn script_written(s: Stack, t: Stack, ci: int, id: u32, src: Seq<char>) -> bool {
    match object_place(s, ci, id) {
        Some(Found::Button(p)) => {
            let b = button_at(t, ci, p);
            &&& with_button(s, t, ci, p, b)
            &&& b == (Button { script: b.script, ..button_at(s, ci, p) })
            &&& b.script@ == src
        },
        Some(Found::Field(p)) => {
            let f = field_at(t, ci, p);
            &&& with_field(s, t, ci, p, f)
            &&& f == (Field { script: f.script, ..field_at(s, ci, p) })
            &&& f.script@ == src
        },
        None => t == s,
    }
}

/// What `object_place` finds exists and has the id asked for.
pub proof fn lemma_object_place(s: Stack, ci: int, id: u32)
    requires
        0 <= ci < s.cards@.len(),
    ensures
        object_place(s, ci, id) matches Some(Found::Button(p)) ==> button_place_ok(s, ci, p) && button_at(s, ci, p).id == id,
        object_place(s, ci, id) matches Some(Found::Field(p)) ==> field_place_ok(s, ci, p) && field_at(s, ci, p).id == id,
        button_place(s, ci, id) matches Some(p) ==> button_place_ok(s, ci, p) && button_at(s, ci, p).id == id,
        field_place(s, ci, id) matches Some(p) ==> field_place_ok(s, ci, p) && field_at(s, ci, p).id == id,
{
    lemma_button_index(s.cards@[ci].buttons@, id);
    lemma_field_index(s.cards@[ci].fields@, id);
    assert(s.cards@[ci].buttons.len() == s.cards@[ci].buttons@.len());
    assert(s.cards@[ci].fields.len() == s.cards@[ci].fields@.len());
    if let Some(bid) = s.cards@[ci].background_id {
        lemma_background_index(s.backgrounds@, bid);
        assert(s.backgrounds.len() == s.backgrounds@.len());
        if let Some(g) = background_index(s.backgrounds@, bid) {
            lemma_button_index(s.backgrounds@[g].buttons@, id);
            lemma_field_index(s.backgrounds@[g].fields@, id);
            assert(s.backgrounds@[g].buttons.len() == s.backgrounds@[g].buttons@.len());
            assert(s.backgrounds@[g].fields.len() == s.backgrounds@[g].fields@.len());
        }
    }
}

/// Reading an object's script back after writing it gives what was written: after
/// `set_object_script(id, src)` finds the object, `get_object_script(id)` returns `src`.
pub proof fn lemma_script_read_after_write(s: Stack, t: Stack, ci: int, id: u32, src: Seq<char>)
    requires
        0 <= ci < s.cards@.len(),
        object_place(s, ci, id) is Some,
        script_written(s, t, ci, id, src),
    ensures
        script_of_object(t, ci, id) == Some(src),
        object_place(t, ci, id) == object_place(s, ci, id),
{
    lemma_object_place(s, ci, id);
    match object_place(s, ci, id) {
        Some(Found::Button(p)) => {
            lemma_with_button_keeps_places(s, t, ci, p, button_at(t, ci, p));
        },
        Some(Found::Field(p)) => {
            lemma_with_field_keeps_places(s, t, ci, p, field_at(t, ci, p));
        },
        None => {},
    }
}

/// Two replacements at the same place amount to the second one.
pub proof fn lemma_with_button_twice(s: Stack, t: Stack, u: Stack, ci: int, p: Place, b1: Button, b2: Button)
    requires
        0 <= ci < s.cards@.len(),
        button_place_ok(s, ci, p),
        with_button(s, t, ci, p, b1),
        with_button(t, u, ci, p, b2),
    ensures
        with_button(s, u, ci, p, b2),
{
    match p {
        Place::Card(i) => {
            assert(s.cards@[ci].buttons@.update(i as int, b1).update(i as int, b2) =~= s.cards@[ci].buttons@.update(i as int, b2));
            assert(u.cards@ =~= s.cards@.update(ci, u.cards@[ci]));
        },
        Place::Background(g, i) => {
            assert(s.backgrounds@[g as int].buttons@.update(i as int, b1).update(i as int, b2) =~= s.backgrounds@[g as int].buttons@.update(i as int, b2));
            assert(u.backgrounds@ =~= s.backgrounds@.update(g as int, u.backgrounds@[g as int]));
        },
    }
}

/// Flipping a switch twice gives it back its state: after two `toggle_if_switch(id)` on a
/// switch, the button is as it was (only its card's or background's list of buttons is a
/// new value with the same contents); on anything else nothing changed at all.
pub proof fn lemma_toggle_twice(s: Stack, t: Stack, u: Stack, ci: int, id: u32)
    requires
        0 <= ci < s.cards@.len(),
        toggled(s, t, ci, id),
        toggled(t, u, ci, id),
    ensures
        match button_place(s, ci, id) {
            Some(p) => if button_at(s, ci, p).checked is Some {
                with_button(s, u, ci, p, button_at(s, ci, p)) && button_at(u, ci, p) == button_at(s, ci, p)
            } else {
                u == s
            },
            None => u == s,
        },
{
    lemma_object_place(s, ci, id);
    match button_place(s, ci, id) {
        Some(p) => {
            let b = button_at(s, ci, p);
            match b.checked {
                Some(c) => {
                    let b1 = Button { checked: Some(!c), ..b };
                    lemma_with_button_keeps_places(s, t, ci, p, b1);
                    let b2 = Button { checked: Some(!!c), ..b1 };
                    assert(b2 == b);
                    lemma_with_button_twice(s, t, u, ci, p, b1, b2);
                    lemma_with_button_keeps_places(s, u, ci, p, b2);
                },
                None => {},
            }
        },
        None => {},
    }
}

/// In a card's view tree, every group node has an id above every object id on the card
/// and its background, and every other node has the id of one of those objects: group ids
/// never collide with object ids.
pub proof fn lemma_tree_group_ids_fresh(s: Stack, ci: int)
    requires
        0 <= ci < s.cards@.len(),
        tree_ids_fit(s, ci),
    ensures
        ({
            let ns = tree_of(s, ci).4;
            let m = max_object_id_on(s.cards@[ci], bg_of(s, ci));
            forall|k: int| 0 <= k < ns.len() ==> {
                &&& (#[trigger] ns[k]).kind == "group"@ ==> ns[k].id > m
                &&& ns[k].kind != "group"@ ==> ns[k].id <= m
            }
        }),
{
    let card = s.cards@[ci];
    let bg = bg_of(s, ci);
    let m = max_object_id_on(card, bg);
    let ns = tree_of(s, ci).4;
    match card.layout {
        Some(root) => {
            let geometry = eq_ignore_case(root.mode@, "free"@);
            lemma_project_ids(card, bg, root.children@, m + 1, geometry);
        },
        None => {
            lemma_object_kinds_not_group();
            lemma_max_field_id(card.fields@);
            lemma_max_button_id(card.buttons@);
            if let Some(g) = bg {
                lemma_max_field_id(g.fields@);
                lemma_max_button_id(g.buttons@);
            }
            let a = free_field_nodes(bg_fields(s, ci));
            let b = free_button_nodes(bg_buttons(s, ci));
            let c = free_field_nodes(card.fields@);
            let d = free_button_nodes(card.buttons@);
            assert forall|k: int| 0 <= k < ns.len() implies {
                &&& (#[trigger] ns[k]).kind == "group"@ ==> ns[k].id > m
                &&& ns[k].kind != "group"@ ==> ns[k].id <= m
            } by {
                if k < a.len() {
                    assert(ns[k] == a[k]);
                } else if k < a.len() + b.len() {
                    assert(ns[k] == b[k - a.len()]);
                } else if k < a.len() + b.len() + c.len() {
                    assert(ns[k] == c[k - a.len() - b.len()]);
                } else {
                    assert(ns[k] == d[k - a.len() - b.len() - c.len()]);
                }
            }
        },
    }
}

/// A message sent from a field of the card starts at that field: the path begins with
/// the field's own script (the first field with the id), run as the field, then the card;
/// it ends with the stack.
pub proof fn lemma_path_starts_at_card_field(s: Stack, ci: int, id: u32, i: int)
    requires
        0 <= ci < s.cards@.len(),
        0 <= i < s.cards@[ci].fields@.len(),
        s.cards@[ci].fields@[i].id == id,
        forall|j: int| 0 <= j < i ==> #[trigger] s.cards@[ci].fields@[j].id != id,
    ensures
        ({
            let path = message_path(s, ci, Some(Me::Field(id)));
            &&& path[0] == (s.cards@[ci].fields@[i].script, Me::Field(id))
            &&& path[1] == (s.cards@[ci].script, Me::Card)
            &&& path.last() == (s.script, Me::Stack)
        }),
{
    lemma_field_index(s.cards@[ci].fields@, id);
    assert(field_index(s.cards@[ci].fields@, id) == Some(i));
    assert(s.cards@[ci].fields.len() == s.cards@[ci].fields@.len());
    let head = (s.cards@[ci].fields@[i].script, Me::Field(id));
    let bg: Seq<(String, Me)> = match bg_index(s, ci) {
        Some(g) => seq![(s.backgrounds@[g].script, Me::Background(s.backgrounds@[g].id))],
        None => Seq::empty(),
    };
    assert(message_path(s, ci, Some(Me::Field(id))) =~= seq![head] + seq![(s.cards@[ci].script, Me::Card)] + bg
        + seq![(s.script, Me::Stack)]);
}

/// A message sent from a button of the card starts at that button, then the card; it ends
/// with the stack.
pub proof fn lemma_path_starts_at_card_button(s: Stack, ci: int, id: u32, i: int)
    requires
        0 <= ci < s.cards@.len(),
        0 <= i < s.cards@[ci].buttons@.len(),
        s.cards@[ci].buttons@[i].id == id,
        forall|j: int| 0 <= j < i ==> #[trigger] s.cards@[ci].buttons@[j].id != id,
    ensures
        ({
            let path = message_path(s, ci, Some(Me::Button(id)));
            &&& path[0] == (s.cards@[ci].buttons@[i].script, Me::Button(id))
            &&& path[1] == (s.cards@[ci].script, Me::Card)
            &&& path.last() == (s.script, Me::Stack)
        }),
{
    lemma_button_index(s.cards@[ci].buttons@, id);
    assert(button_index(s.cards@[ci].buttons@, id) == Some(i));
    assert(s.cards@[ci].buttons.len() == s.cards@[ci].buttons@.len());
    let head = (s.cards@[ci].buttons@[i].script, Me::Button(id));
    let bg: Seq<(String, Me)> = match bg_index(s, ci) {
        Some(g) => seq![(s.backgrounds@[g].script, Me::Background(s.backgrounds@[g].id))],
        None => Seq::empty(),
    };
    assert(message_path(s, ci, Some(Me::Button(id))) =~= seq![head] + seq![(s.cards@[ci].script, Me::Card)] + bg
        + seq![(s.script, Me::Stack)]);
}

/// A message sent from a field of the card's background (no field of the card having
/// the id) starts at that field, then goes to the card, the background and the stack.
pub proof fn lemma_path_starts_at_background_field(s: Stack, ci: int, id: u32, g: int, i: int)
    requires
        0 <= ci < s.cards@.len(),
        forall|j: int| 0 <= j < s.cards@[ci].fields@.len() ==> #[trigger] s.cards@[ci].fields@[j].id != id,
        s.cards@[ci].background_id == Some(s.backgrounds@[g].id),
        0 <= g < s.backgrounds@.len(),
        forall|k: int| 0 <= k < g ==> #[trigger] s.backgrounds@[k].id != s.backgrounds@[g].id,
        0 <= i < s.backgrounds@[g].fields@.len(),
        s.backgrounds@[g].fields@[i].id == id,
        forall|j: int| 0 <= j < i ==> #[trigger] s.backgrounds@[g].fields@[j].id != id,
    ensures
        message_path(s, ci, Some(Me::Field(id))) == seq![
            (s.backgrounds@[g].fields@[i].script, Me::Field(id)),
            (s.cards@[ci].script, Me::Card),
            (s.backgrounds@[g].script, Me::Background(s.backgrounds@[g].id)),
            (s.script, Me::Stack),
        ],
{
    lemma_field_index(s.cards@[ci].fields@, id);
    lemma_background_index(s.backgrounds@, s.backgrounds@[g].id);
    lemma_field_index(s.backgrounds@[g].fields@, id);
    assert(field_index(s.cards@[ci].fields@, id) is None);
    assert(bg_index(s, ci) == Some(g));
    assert(field_index(s.backgrounds@[g].fields@, id) == Some(i));
    assert(s.backgrounds@[g].fields.len() == s.backgrounds@[g].fields@.len());
    assert(s.backgrounds.len() == s.backgrounds@.len());
    assert(message_path(s, ci, Some(Me::Field(id))) =~= seq![
        (s.backgrounds@[g].fields@[i].script, Me::Field(id)),
        (s.cards@[ci].script, Me::Card),
        (s.backgrounds@[g].script, Me::Background(s.backgrounds@[g].id)),
        (s.script, Me::Stack),
    ]);
}

/// A message sent from a button of the card's background (no button of the card having
/// the id) starts at that button, then goes to the card, the background and the stack.
pub proof fn lemma_path_starts_at_background_button(s: Stack, ci: int, id: u32, g: int, i: int)
    requires
        0 <= ci < s.cards@.len(),
        forall|j: int| 0 <= j < s.cards@[ci].buttons@.len() ==> #[trigger] s.cards@[ci].buttons@[j].id != id,
        s.cards@[ci].background_id == Some(s.backgrounds@[g].id),
        0 <= g < s.backgrounds@.len(),
        forall|k: int| 0 <= k < g ==> #[trigger] s.backgrounds@[k].id != s.backgrounds@[g].id,
        0 <= i < s.backgrounds@[g].buttons@.len(),
        s.backgrounds@[g].buttons@[i].id == id,
        forall|j: int| 0 <= j < i ==> #[trigger] s.backgrounds@[g].buttons@[j].id != id,
    ensures
        message_path(s, ci, Some(Me::Button(id))) == seq![
            (s.backgrounds@[g].buttons@[i].script, Me::Button(id)),
            (s.cards@[ci].script, Me::Card),
            (s.backgrounds@[g].script, Me::Background(s.backgrounds@[g].id)),
            (s.script, Me::Stack),
        ],
{
    lemma_button_index(s.cards@[ci].buttons@, id);
    lemma_background_index(s.backgrounds@, s.backgrounds@[g].id);
    lemma_button_index(s.backgrounds@[g].buttons@, id);
    assert(button_index(s.cards@[ci].buttons@, id) is None);
    assert(bg_index(s, ci) == Some(g));
    assert(button_index(s.backgrounds@[g].buttons@, id) == Some(i));
    assert(s.backgrounds@[g].buttons.len() == s.backgrounds@[g].buttons@.len());
    assert(s.backgrounds.len() == s.backgrounds@.len());
    assert(message_path(s, ci, Some(Me::Button(id))) =~= seq![
        (s.backgrounds@[g].buttons@[i].script, Me::Button(id)),
        (s.cards@[ci].script, Me::Card),
        (s.backgrounds@[g].script, Me::Background(s.backgrounds@[g].id)),
        (s.script, Me::Stack),
    ]);
}

/// A message with no object origin (or from a card, background or stack) starts at the
/// card, goes to the background when the card has one, and ends with the stack.
pub proof fn lemma_path_without_object_starts_at_card(s: Stack, ci: int, origin: Option<Me>)
    requires
        0 <= ci < s.cards@.len(),
        !(origin matches Some(Me::Button(_))),
        !(origin matches Some(Me::Field(_))),
    ensures
        message_path(s, ci, origin) == seq![(s.cards@[ci].script, Me::Card)] + match bg_index(s, ci) {
            Some(g) => seq![(s.backgrounds@[g].script, Me::Background(s.backgrounds@[g].id))],
            None => Seq::empty(),
        } + seq![(s.script, Me::Stack)],
{
    assert(message_path(s, ci, origin) =~= seq![(s.cards@[ci].script, Me::Card)] + match bg_index(s, ci) {
        Some(g) => seq![(s.backgrounds@[g].script, Me::Background(s.backgrounds@[g].id))],
        None => Seq::empty(),
    } + seq![(s.script, Me::Stack)]);
}

/// The runtime request a host effect stands for.
pub open spec fn cmd_of_effect(e: HostEffect) -> HostCmd {
    match e {
        HostEffect::Answer(s) => HostCmd::Answer(s),
        HostEffect::Beep => HostCmd::Beep,
        HostEffect::Message(s) => HostCmd::Message(s),
        HostEffect::GoStack(s) => HostCmd::GoStack(s),
        HostEffect::ShowStacks => HostCmd::ShowStacks,
        HostEffect::OpenUrl(s) => HostCmd::OpenUrl(s),
        HostEffect::Share(s) => HostCmd::Share(s),
        HostEffect::Toast(s) => HostCmd::Toast(s),
        HostEffect::GetUrl(s) => HostCmd::GetUrl(s),
        HostEffect::AskPermission(s) => HostCmd::AskPermission(s),
        HostEffect::Snackbar(a, b, c) => HostCmd::Snackbar(a, b, c),
        HostEffect::Notify(a, b, c) => HostCmd::Notify(a, b, c),
    }
}

/// Each runtime request reaches the host as the effect of the same kind with the same
/// texts: the request can be read back from its effect, so no two requests look alike
/// to the host.
pub proof fn lemma_effects_keep_requests(c: HostCmd, d: HostCmd)
    ensures
        cmd_of_effect(effect_of(c)) == c,
        effect_of(c) == effect_of(d) ==> c == d,
{
}

/// What a touch does: only a finished tap (`up` or `tap`) acts; on a button it sends
/// `mouseUp` to the button, on a locked field `mouseUp` to the field, on an editable field
/// it opens the field's editor; on nothing, or in any other phase, nothing happens.
pub proof fn lemma_touch_plans(phase: Seq<char>, id: u32)
    ensures
        touch_plan_of("up"@, Some(Hit::Button(id))) == TouchPlan::MouseUp(Me::Button(id)),
        touch_plan_of("tap"@, Some(Hit::Button(id))) == TouchPlan::MouseUp(Me::Button(id)),
        touch_plan_of("up"@, Some(Hit::LockedField(id))) == TouchPlan::MouseUp(Me::Field(id)),
        touch_plan_of("tap"@, Some(Hit::LockedField(id))) == TouchPlan::MouseUp(Me::Field(id)),
        touch_plan_of("up"@, Some(Hit::EditableField(id))) == TouchPlan::Focus(id),
        touch_plan_of("tap"@, Some(Hit::EditableField(id))) == TouchPlan::Focus(id),
        touch_plan_of(phase, None) == TouchPlan::Nothing,
        phase != "up"@ && phase != "tap"@ ==> forall|h: Option<Hit>| touch_plan_of(phase, h) == TouchPlan::Nothing,
        gesture_origin_of(Some(Hit::Button(id))) == Some(Me::Button(id)),
        gesture_origin_of(Some(Hit::EditableField(id))) == Some(Me::Field(id)),
        gesture_origin_of(Some(Hit::LockedField(id))) == Some(Me::Field(id)),
        gesture_origin_of(None) is None,
{
    reveal_strlit("up");
    reveal_strlit("tap");
    assert("up"@ != "tap"@) by {
        assert("up"@.len() != "tap"@.len());
    }
}

/// A tap on a button and a `mouseUp` fired at its id do the same: both start the message
/// at the button (and both flip it first when it is a switch, by `toggled`).
pub proof fn lemma_tap_and_id_dispatch_agree(s: Stack, ci: int, id: u32)
    requires
        0 <= ci < s.cards@.len(),
        object_place(s, ci, id) matches Some(Found::Button(_)),
    ensures
        touch_plan_of("up"@, Some(Hit::Button(id))) == TouchPlan::MouseUp(Me::Button(id)),
        touch_plan_of("tap"@, Some(Hit::Button(id))) == TouchPlan::MouseUp(Me::Button(id)),
        eq_ignore_case("mouseUp"@, "mouseup"@),
{
    reveal_strlit("up");
    reveal_strlit("tap");
    reveal_strlit("mouseUp");
    reveal_strlit("mouseup");
    assert(ascii_lower("mouseUp"@) =~= ascii_lower("mouseup"@));
}

/// An object with id `oid` and name `oname` answers to the key (`id`, `name`): its id is
/// `id`, or its name is `name` ignoring ASCII case.
pub open spec fn answers_key(oid: u32, oname: Seq<char>, id: Option<u32>, name: Seq<char>) -> bool {
    id == Some(oid) || eq_ignore_case(oname, name)
}

/// The position of the first button answering to the key.
pub open spec fn button_key_index(bs: Seq<Button>, id: Option<u32>, name: Seq<char>) -> Option<int>
    decreases bs.len(),
{
    if bs.len() == 0 {
        None
    } else {
        match button_key_index(bs.drop_last(), id, name) {
            Some(i) => Some(i),
            None => if answers_key(bs.last().id, bs.last().name@, id, name) {
                Some(bs.len() - 1)
            } else {
                None
            },
        }
    }
}

/// The position of the first field answering to the key.
pub open spec fn field_key_index(fs: Seq<Field>, id: Option<u32>, name: Seq<char>) -> Option<int>
    decreases fs.len(),
{
    if fs.len() == 0 {
        None
    } else {
        match field_key_index(fs.drop_last(), id, name) {
            Some(i) => Some(i),
            None => if answers_key(fs.last().id, fs.last().name@, id, name) {
                Some(fs.len() - 1)
            } else {
                None
            },
        }
    }
}

proof fn lemma_button_key_index_prefix(bs: Seq<Button>, k: int, id: Option<u32>, name: Seq<char>)
    requires
        0 < k <= bs.len(),
        button_key_index(bs.take(k - 1), id, name) is None,
        answers_key(bs[k - 1].id, bs[k - 1].name@, id, name),
    ensures
        button_key_index(bs, id, name) == Some(k - 1),
    decreases bs.len(),
{
    assert(bs.take(k).drop_last() =~= bs.take(k - 1));
    if k < bs.len() {
        assert(bs.drop_last().take(k) =~= bs.take(k));
        assert(bs.drop_last().take(k - 1) =~= bs.take(k - 1));
        lemma_button_key_index_prefix(bs.drop_last(), k, id, name);
    } else {
        assert(bs.take(k) =~= bs);
    }
}

proof fn lemma_field_key_index_prefix(fs: Seq<Field>, k: int, id: Option<u32>, name: Seq<char>)
    requires
        0 < k <= fs.len(),
        field_key_index(fs.take(k - 1), id, name) is None,
        answers_key(fs[k - 1].id, fs[k - 1].name@, id, name),
    ensures
        field_key_index(fs, id, name) == Some(k - 1),
    decreases fs.len(),
{
    assert(fs.take(k).drop_last() =~= fs.take(k - 1));
    if k < fs.len() {
        assert(fs.drop_last().take(k) =~= fs.take(k));
        assert(fs.drop_last().take(k - 1) =~= fs.take(k - 1));
        lemma_field_key_index_prefix(fs.drop_last(), k, id, name);
    } else {
        assert(fs.take(k) =~= fs);
    }
}

/// The first button of `bs` answering to the key.
fn find_button_by_key(bs: &Vec<Button>, id: Option<u32>, name: &str) -> (r: Option<usize>)
    ensures
        match r {
            Some(i) => button_key_index(bs@, id, name@) == Some(i as int) && i < bs@.len(),
            None => button_key_index(bs@, id, name@) is None,
        },
{
    let mut k: usize = 0;
    while k < bs.len()
        invariant
            k <= bs.len(),
            button_key_index(bs@.take(k as int), id, name@) is None,
        decreases bs.len() - k,
    {
        assert(bs@.take(k + 1).drop_last() =~= bs@.take(k as int));
        let b = &bs[k];
        if id == Some(b.id) || eq_ignore_ascii_case(b.name.as_str(), name) {
            proof { lemma_button_key_index_prefix(bs@, k as int + 1, id, name@); }
            return Some(k);
        }
        k += 1;
    }
    assert(bs@.take(bs.len() as int) =~= bs@);
    None
}

/// The first field of `fs` answering to the key.
fn find_field_by_key(fs: &Vec<Field>, id: Option<u32>, name: &str) -> (r: Option<usize>)
    ensures
        match r {
            Some(i) => field_key_index(fs@, id, name@) == Some(i as int) && i < fs@.len(),
            None => field_key_index(fs@, id, name@) is None,
        },
{
    let mut k: usize = 0;
    while k < fs.len()
        invariant
            k <= fs.len(),
            field_key_index(fs@.take(k as int), id, name@) is None,
        decreases fs.len() - k,
    {
        assert(fs@.take(k + 1).drop_last() =~= fs@.take(k as int));
        let f = &fs[k];
        if id == Some(f.id) || eq_ignore_ascii_case(f.name.as_str(), name) {
            proof { lemma_field_key_index_prefix(fs@, k as int + 1, id, name@); }
            return Some(k);
        }
        k += 1;
    }
    assert(fs@.take(fs.len() as int) =~= fs@);
    None
}

/// Without a layout overlay the native view tree mirrors the canvas: its root ids are the
/// ids of the draw list, in the same order, and its arrangement is `free`.
pub proof fn lemma_free_tree_mirrors_canvas(s: Stack, ci: int, items: Seq<DrawCmd>)
    requires
        0 <= ci < s.cards@.len(),
        s.cards@[ci].layout is None,
        draws_card(items, s, ci),
    ensures
        tree_of(s, ci).3 == items.map_values(|d: DrawCmd| d.id),
        tree_of(s, ci).0 == "free"@,
{
    let c = s.cards@[ci];
    let a = bg_fields(s, ci);
    let b = bg_buttons(s, ci);
    let n1 = a.len() as int;
    let n2 = n1 + b.len();
    let n3 = n2 + c.fields@.len();
    let ids = items.map_values(|d: DrawCmd| d.id);
    let want = render_ids(s, ci);
    assert forall|k: int| 0 <= k < ids.len() implies ids[k] == want[k] by {
        if k < n1 {
            assert(items.subrange(0, n1)[k] == items[k]);
            assert(field_cmd_of(items.subrange(0, n1)[k], a[k]));
        } else if k < n2 {
            assert(items.subrange(n1, n2)[k - n1] == items[k]);
            assert(button_cmd_of(items.subrange(n1, n2)[k - n1], b[k - n1]));
        } else if k < n3 {
            assert(items.subrange(n2, n3)[k - n2] == items[k]);
            assert(field_cmd_of(items.subrange(n2, n3)[k - n2], c.fields@[k - n2]));
        } else {
            assert(items.subrange(n3, items.len() as int)[k - n3] == items[k]);
            assert(button_cmd_of(items.subrange(n3, items.len() as int)[k - n3], c.buttons@[k - n3]));
        }
    }
    assert(ids =~= want);
}

/// A property edit with nothing in it changes nothing.
pub proof fn lemma_empty_patch_changes_nothing(b: Button, f: Field, p: PropsPatch)
    requires
        p.name is None,
        p.title is None,
        p.style is None,
        p.text is None,
        p.locked is None,
        p.text_font is None,
        p.text_size is None,
        p.text_style is None,
        p.text_align is None,
    ensures
        button_patched(b, p) == b,
        field_patched(f, p) == f,
{
}

impl Session {
    /// The document.
    pub closed spec fn doc(&self) -> Stack {
        self.stack
    }

    /// The index of the current card.
    pub closed spec fn at(&self) -> int {
        self.card_index as int
    }

    /// A session always shows one of its cards.
    pub open spec fn wf(&self) -> bool {
        0 <= self.at() < self.doc().cards@.len()
    }

    /// Opens `stack` on its first card; a stack without cards is refused.
    pub fn from_stack(stack: Stack) -> (r: Result<Session, String>)
        ensures
            match r {
                Ok(s) => stack.cards@.len() > 0 && s.doc() == stack && s.at() == 0 && s.wf(),
                Err(e) => stack.cards@.len() == 0 && e@ == "stack has no cards"@,
            },
    {
        if stack.cards.len() == 0 {
            return Err(owned("stack has no cards"));
        }
        Ok(Session { stack, card_index: 0 })
    }

    /// The document, read-only.
    pub fn stack(&self) -> (r: &Stack)
        ensures
            *r == self.doc(),
    {
        &self.stack
    }

    /// Gives the document back.
    pub fn into_stack(self) -> (r: Stack)
        ensures
            r == self.doc(),
    {
        self.stack
    }

    /// The document, for a script run to edit in place. The current card stays where it
    /// is; the caller keeps the card list as it was (a run does not add or remove cards).
    pub fn stack_mut(&mut self) -> (r: &mut Stack)
        ensures
            *r == old(self).doc(),
            final(self).doc() == *final(r),
            final(self).at() == old(self).at(),
    {
        &mut self.stack
    }

    pub fn card_index(&self) -> (r: usize)
        ensures
            r == self.at(),
    {
        self.card_index
    }

    pub fn card_count(&self) -> (r: usize)
        ensures
            r == self.doc().cards@.len(),
    {
        self.stack.cards.len()
    }

    /// Makes card `index` current.
    pub fn set_card_index(&mut self, index: usize)
        requires
            index < old(self).doc().cards@.len(),
        ensures
            final(self).doc() == old(self).doc(),
            final(self).at() == index,
            final(self).wf(),
    {
        self.card_index = index;
    }

    /// Moves to card `index`, clamped to the last card.
    pub fn select_card(&mut self, index: usize)
        requires
            old(self).wf(),
        ensures
            final(self).doc() == old(self).doc(),
            final(self).at() == if index < old(self).doc().cards@.len() {
                index as int
            } else {
                old(self).doc().cards@.len() - 1
            },
            final(self).wf(),
    {
        let n = self.stack.cards.len();
        self.card_index = if index < n { index } else { n - 1 };
    }

    /// Records the host's safe-area insets (each an `f32` bit pattern); session state,
    /// readable by scripts.
    pub fn set_insets(&mut self, top: u32, right: u32, bottom: u32, left: u32)
        ensures
            final(self).doc() == (Stack {
                safe_insets: (SafeInsets { top, right, bottom, left }),
                ..old(self).doc()
            }),
            final(self).at() == old(self).at(),
    {
        self.stack.safe_insets = SafeInsets { top, right, bottom, left };
    }

    /// The position of the current card's background in the stack.
    fn bg_position(&self) -> (r: Option<usize>)
        requires
            self.wf(),
        ensures
            match r {
                Some(g) => bg_index(self.doc(), self.at()) == Some(g as int) && g < self.doc().backgrounds@.len(),
                None => bg_index(self.doc(), self.at()) is None,
            },
    {
        background_position(&self.stack, self.card_index)
    }

    /// Where the button `id` is (see `button_place`).
    pub fn locate_button(&self, id: u32) -> (r: Option<Place>)
        requires
            self.wf(),
        ensures
            r == button_place(self.doc(), self.at(), id),
            r matches Some(p) ==> button_place_ok(self.doc(), self.at(), p) && button_at(
                self.doc(),
                self.at(),
                p,
            ).id == id,
    {
        button_place_in(&self.stack, self.card_index, id)
    }

    /// Where the field `id` is (see `field_place`).
    pub fn locate_field(&self, id: u32) -> (r: Option<Place>)
        requires
            self.wf(),
        ensures
            r == field_place(self.doc(), self.at(), id),
            r matches Some(p) ==> field_place_ok(self.doc(), self.at(), p) && field_at(
                self.doc(),
                self.at(),
                p,
            ).id == id,
    {
        field_place_in(&self.stack, self.card_index, id)
    }

    /// Where the object `id` is (see `object_place`).
    pub fn locate_object(&self, id: u32) -> (r: Option<Found>)
        requires
            self.wf(),
        ensures
            r == object_place(self.doc(), self.at(), id),
            r matches Some(Found::Button(p)) ==> button_place_ok(self.doc(), self.at(), p),
            r matches Some(Found::Field(p)) ==> field_place_ok(self.doc(), self.at(), p),
    {
        let ci = self.card_index;
        proof {
            lemma_button_index(self.stack.cards@[ci as int].buttons@, id);
            lemma_field_index(self.stack.cards@[ci as int].fields@, id);
        }
        if let Some(i) = find_button(&self.stack.cards[ci].buttons, id) {
            return Some(Found::Button(Place::Card(i)));
        }
        if let Some(i) = find_field(&self.stack.cards[ci].fields, id) {
            return Some(Found::Field(Place::Card(i)));
        }
        match self.bg_position() {
            Some(g) => {
                proof {
                    lemma_button_index(self.stack.backgrounds@[g as int].buttons@, id);
                    lemma_field_index(self.stack.backgrounds@[g as int].fields@, id);
                }
                if let Some(i) = find_button(&self.stack.backgrounds[g].buttons, id) {
                    return Some(Found::Button(Place::Background(g, i)));
                }
                if let Some(i) = find_field(&self.stack.backgrounds[g].fields, id) {
                    return Some(Found::Field(Place::Background(g, i)));
                }
                None
            },
            None => None,
        }
    }

    /// The button at `p`.
    pub fn button(&self, p: Place) -> (r: &Button)
        requires
            self.wf(),
            button_place_ok(self.doc(), self.at(), p),
        ensures
            *r == button_at(self.doc(), self.at(), p),
    {
        match p {
            Place::Card(i) => &self.stack.cards[self.card_index].buttons[i],
            Place::Background(g, i) => &self.stack.backgrounds[g].buttons[i],
        }
    }

    /// The field at `p`.
    pub fn field(&self, p: Place) -> (r: &Field)
        requires
            self.wf(),
            field_place_ok(self.doc(), self.at(), p),
        ensures
            *r == field_at(self.doc(), self.at(), p),
    {
        match p {
            Place::Card(i) => &self.stack.cards[self.card_index].fields[i],
            Place::Background(g, i) => &self.stack.backgrounds[g].fields[i],
        }
    }

    /// Sets a field's text by id (the host pushes back edited text), searching the card's
    /// fields, then its background's. Returns whether a field was found.
    pub fn set_field_text(&mut self, field_id: u32, text: &str) -> (r: bool)
        requires
            old(self).wf(),
        ensures
            final(self).at() == old(self).at(),
            final(self).wf(),
            match field_place(old(self).doc(), old(self).at(), field_id) {
                Some(p) => {
                    let f = field_at(final(self).doc(), old(self).at(), p);
                    &&& r
                    &&& with_field(old(self).doc(), final(self).doc(), old(self).at(), p, f)
                    &&& f == (Field { text: f.text, ..field_at(old(self).doc(), old(self).at(), p) })
                    &&& f.text@ == text@
                },
                None => !r && final(self).doc() == old(self).doc(),
            },
    {
        match self.locate_field(field_id) {
            Some(Place::Card(i)) => {
                let ci = self.card_index;
                self.stack.cards[ci].fields[i].text = owned(text);
                true
            },
            Some(Place::Background(g, i)) => {
                self.stack.backgrounds[g].fields[i].text = owned(text);
                true
            },
            None => false,
        }
    }

    /// The button at `p`, to edit in place; nothing else changes.
    fn button_mut(&mut self, p: Place) -> (r: &mut Button)
        requires
            old(self).wf(),
            button_place_ok(old(self).doc(), old(self).at(), p),
        ensures
            *r == button_at(old(self).doc(), old(self).at(), p),
            with_button(old(self).doc(), final(self).doc(), old(self).at(), p, *final(r)),
            final(self).at() == old(self).at(),
    {
        match p {
            Place::Card(i) => {
                let ci = self.card_index;
                &mut self.stack.cards[ci].buttons[i]
            },
            Place::Background(g, i) => &mut self.stack.backgrounds[g].buttons[i],
        }
    }

    /// The field at `p`, to edit in place; nothing else changes.
    fn field_mut(&mut self, p: Place) -> (r: &mut Field)
        requires
            old(self).wf(),
            field_place_ok(old(self).doc(), old(self).at(), p),
        ensures
            *r == field_at(old(self).doc(), old(self).at(), p),
            with_field(old(self).doc(), final(self).doc(), old(self).at(), p, *final(r)),
            final(self).at() == old(self).at(),
    {
        match p {
            Place::Card(i) => {
                let ci = self.card_index;
                &mut self.stack.cards[ci].fields[i]
            },
            Place::Background(g, i) => &mut self.stack.backgrounds[g].fields[i],
        }
    }

    /// An object's HyperTalk source by id, searching the card's buttons and fields, then
    /// the background's; `None` when no object has that id.
    pub fn get_object_script(&self, id: u32) -> (r: Option<String>)
        requires
            self.wf(),
        ensures
            match object_place(self.doc(), self.at(), id) {
                Some(Found::Button(p)) => r == Some(button_at(self.doc(), self.at(), p).script),
                Some(Found::Field(p)) => r == Some(field_at(self.doc(), self.at(), p).script),
                None => r is None,
            },
            (match r {
                Some(x) => Some(x@),
                None => None,
            }) == script_of_object(self.doc(), self.at(), id),
    {
        match self.locate_object(id) {
            Some(Found::Button(p)) => Some(self.button(p).script.clone()),
            Some(Found::Field(p)) => Some(self.field(p).script.clone()),
            None => None,
        }
    }

    /// Replaces an object's HyperTalk source by id (same search as `get_object_script`).
    /// Returns whether an object was updated; the source is stored as given, parsed or not.
    pub fn set_object_script(&mut self, id: u32, src: &str) -> (r: bool)
        requires
            old(self).wf(),
        ensures
            final(self).at() == old(self).at(),
            final(self).wf(),
            r == object_place(old(self).doc(), old(self).at(), id) is Some,
            script_written(old(self).doc(), final(self).doc(), old(self).at(), id, src@),
    {
        match self.locate_object(id) {
            Some(Found::Button(p)) => {
                let b = self.button_mut(p);
                b.script = owned(src);
                true
            },
            Some(Found::Field(p)) => {
                let f = self.field_mut(p);
                f.script = owned(src);
                true
            },
            None => false,
        }
    }

    /// Validates HyperTalk source without running it: the parse error, or `None` when it
    /// parses.
    pub fn check_script(src: &str) -> (r: Option<parser::ParseError>)
        ensures
            match script_result(src@) {
                Ok(_) => r is None,
                Err(e) => r matches Some(m) && m@ == e,
            },
    {
        match parser::parse_script(src) {
            Ok(_) => None,
            Err(m) => Some(m),
        }
    }

    /// Flips a switch (a button whose `checked` is set) before its `mouseUp` runs, so a
    /// switch without a script still toggles. The button is searched on the card, then on
    /// the background; anything else is left alone.
    pub fn toggle_if_switch(&mut self, id: u32)
        requires
            old(self).wf(),
        ensures
            final(self).at() == old(self).at(),
            final(self).wf(),
            toggled(old(self).doc(), final(self).doc(), old(self).at(), id),
    {
        if let Some(p) = self.locate_button(id) {
            if let Some(c) = self.button(p).checked {
                let b = self.button_mut(p);
                b.checked = Some(!c);
            }
        }
    }

    /// The `me` of the object `id` (searched as in `object_place`), or `None` when no object
    /// on the current card or its background has that id.
    pub fn me_for_id(&self, id: u32) -> (r: Option<Me>)
        requires
            self.wf(),
        ensures
            match object_place(self.doc(), self.at(), id) {
                Some(Found::Button(_)) => r == Some(Me::Button(id)),
                Some(Found::Field(_)) => r == Some(Me::Field(id)),
                None => r is None,
            },
    {
        match self.locate_object(id) {
            Some(Found::Button(_)) => Some(Me::Button(id)),
            Some(Found::Field(_)) => Some(Me::Field(id)),
            None => None,
        }
    }

    /// Moves or resizes an object by id (a drag commit), searching as `object_place` does.
    /// The host has already applied the minimum size. Returns whether an object was updated.
    pub fn set_object_rect(&mut self, id: u32, rect: Rect) -> (r: bool)
        requires
            old(self).wf(),
        ensures
            final(self).at() == old(self).at(),
            final(self).wf(),
            match object_place(old(self).doc(), old(self).at(), id) {
                Some(Found::Button(p)) => r && with_button(
                    old(self).doc(),
                    final(self).doc(),
                    old(self).at(),
                    p,
                    (Button { rect, ..button_at(old(self).doc(), old(self).at(), p) }),
                ),
                Some(Found::Field(p)) => r && with_field(
                    old(self).doc(),
                    final(self).doc(),
                    old(self).at(),
                    p,
                    (Field { rect, ..field_at(old(self).doc(), old(self).at(), p) }),
                ),
                None => !r && final(self).doc() == old(self).doc(),
            },
    {
        match self.locate_object(id) {
            Some(Found::Button(p)) => {
                let b = self.button_mut(p);
                b.rect = rect;
                true
            },
            Some(Found::Field(p)) => {
                let f = self.field_mut(p);
                f.rect = rect;
                true
            },
            None => false,
        }
    }

    /// The script of the object a message starts at (the tapped button or field, searched
    /// on the card, then on the background), cloned.
    fn origin_script(&self, origin: Option<Me>) -> (r: Option<String>)
        requires
            self.wf(),
        ensures
            r == origin_script(self.doc(), self.at(), origin),
    {
        match origin {
            Some(Me::Button(id)) => match self.locate_button(id) {
                Some(p) => Some(self.button(p).script.clone()),
                None => None,
            },
            Some(Me::Field(id)) => match self.locate_field(id) {
                Some(p) => Some(self.field(p).script.clone()),
                None => None,
            },
            _ => None,
        }
    }

    /// The message path from `origin` (or from the card when there is none): the origin
    /// object when it is found, the card, the card's background when it has one, and the
    /// stack, each with its script and its `me`. A message runs the first handler for it
    /// along this path.
    pub fn collect_path(&self, origin: Option<Me>) -> (r: Vec<(String, Me)>)
        requires
            self.wf(),
        ensures
            r@ == message_path(self.doc(), self.at(), origin),
    {
        let mut path: Vec<(String, Me)> = Vec::new();
        if let Some(src) = self.origin_script(origin) {
            if let Some(me) = origin {
                path.push((src, me));
            }
        }
        let card = &self.stack.cards[self.card_index];
        path.push((card.script.clone(), Me::Card));
        if let Some(g) = self.bg_position() {
            let bg = &self.stack.backgrounds[g];
            path.push((bg.script.clone(), Me::Background(bg.id)));
        }
        path.push((self.stack.script.clone(), Me::Stack));
        proof {
            assert(path@ =~= message_path(self.doc(), self.at(), origin));
        }
        path
    }

    /// One more than the largest id of any button or field in the stack: an id no object
    /// uses.
    fn next_object_id(&self) -> (r: u32)
        requires
            max_object_id_of(self.doc()) < u32::MAX,
        ensures
            r == max_object_id_of(self.doc()) + 1,
            id_unused(self.doc(), r),
    {
        proof { lemma_max_object_id(self.stack); }
        self.stack.max_object_id() + 1
    }

    /// Creates a `"button"` or `"field"` on the current card (never on the shared
    /// background) at the default place and returns its id: one more than the largest id in
    /// the stack. Any other kind creates nothing.
    pub fn add_object(&mut self, kind: &str) -> (r: Option<u32>)
        requires
            old(self).wf(),
            max_object_id_of(old(self).doc()) < u32::MAX,
        ensures
            final(self).at() == old(self).at(),
            final(self).wf(),
            r matches Some(id) ==> id == max_object_id_of(old(self).doc()) + 1 && id_unused(old(self).doc(), id),
            if kind@ == "button"@ {
                let bs = final(self).doc().cards@[old(self).at()].buttons@;
                &&& r is Some
                &&& bs.len() > 0
                &&& with_card_buttons(
                    old(self).doc(),
                    final(self).doc(),
                    old(self).at(),
                    old(self).doc().cards@[old(self).at()].buttons@.push(bs.last()),
                )
                &&& is_new_button(bs.last(), r->0)
            } else if kind@ == "field"@ {
                let fs = final(self).doc().cards@[old(self).at()].fields@;
                &&& r is Some
                &&& fs.len() > 0
                &&& with_card_fields(
                    old(self).doc(),
                    final(self).doc(),
                    old(self).at(),
                    old(self).doc().cards@[old(self).at()].fields@.push(fs.last()),
                )
                &&& is_new_field(fs.last(), r->0)
            } else {
                r is None && final(self).doc() == old(self).doc()
            },
    {
        let id = self.next_object_id();
        let ci = self.card_index;
        if str_eq(kind, "button") {
            let mut name = owned("Button ");
            push_decimal(&mut name, id);
            let b = Button {
                id,
                name,
                rect: Rect { x: NEW_OBJECT_X, y: NEW_OBJECT_Y, w: NEW_BUTTON_W, h: NEW_BUTTON_H },
                title: owned("Button"),
                style: ButtonStyle::Rounded,
                checked: None,
                control: String::new(),
                value: None,
                source: String::new(),
                visible: true,
                script: String::new(),
                text_font: String::new(),
                text_size: NEW_TEXT_SIZE,
                text_style: String::new(),
                text_align: String::new(),
                weight: 0,
                role: String::new(),
                content_description: String::new(),
            };
            self.stack.cards[ci].buttons.push(b);
            Some(id)
        } else if str_eq(kind, "field") {
            let mut name = owned("Field ");
            push_decimal(&mut name, id);
            let f = Field {
                id,
                name,
                rect: Rect { x: NEW_OBJECT_X, y: NEW_OBJECT_Y, w: NEW_FIELD_W, h: NEW_FIELD_H },
                text: String::new(),
                locked: false,
                visible: true,
                script: String::new(),
                text_font: String::new(),
                text_size: NEW_TEXT_SIZE,
                text_style: String::new(),
                text_align: String::new(),
                weight: 0,
                text_role: String::new(),
                content_description: String::new(),
                live_region: String::new(),
            };
            self.stack.cards[ci].fields.push(f);
            Some(id)
        } else {
            None
        }
    }

    /// Deletes the object `id`: every button and field with that id on the current card
    /// when the card holds one, otherwise every one on the card's background. Returns
    /// whether anything was removed.
    pub fn delete_object(&mut self, id: u32) -> (r: bool)
        requires
            old(self).wf(),
        ensures
            final(self).at() == old(self).at(),
            final(self).wf(),
            ({
                let s = old(self).doc();
                let c = s.cards@[old(self).at()];
                if button_index(c.buttons@, id) is Some || field_index(c.fields@, id) is Some {
                    r && with_card_objects(
                        s,
                        final(self).doc(),
                        old(self).at(),
                        c.buttons@.filter(keeps_button(id)),
                        c.fields@.filter(keeps_field(id)),
                    )
                } else {
                    match bg_index(s, old(self).at()) {
                        Some(g) => {
                            let b = s.backgrounds@[g];
                            if button_index(b.buttons@, id) is Some || field_index(b.fields@, id) is Some {
                                r && with_bg_objects(
                                    s,
                                    final(self).doc(),
                                    g,
                                    b.buttons@.filter(keeps_button(id)),
                                    b.fields@.filter(keeps_field(id)),
                                )
                            } else {
                                !r && final(self).doc() == s
                            }
                        },
                        None => !r && final(self).doc() == s,
                    }
                }
            }),
    {
        let ci = self.card_index;
        let on_card = find_button(&self.stack.cards[ci].buttons, id).is_some()
            || find_field(&self.stack.cards[ci].fields, id).is_some();
        if on_card {
            let card = &mut self.stack.cards[ci];
            remove_buttons_with_id(&mut card.buttons, id);
            remove_fields_with_id(&mut card.fields, id);
            return true;
        }
        match self.bg_position() {
            Some(g) => {
                let on_bg = find_button(&self.stack.backgrounds[g].buttons, id).is_some()
                    || find_field(&self.stack.backgrounds[g].fields, id).is_some();
                if on_bg {
                    let bg = &mut self.stack.backgrounds[g];
                    remove_buttons_with_id(&mut bg.buttons, id);
                    remove_fields_with_id(&mut bg.fields, id);
                    true
                } else {
                    false
                }
            },
            None => false,
        }
    }

    /// An object's editable properties, for the host inspector: the button `id` (card,
    /// then background), else the field `id` (card, then background).
    pub fn object_props(&self, id: u32) -> (r: Option<ObjectProps>)
        requires
            self.wf(),
        ensures
            match button_place(self.doc(), self.at(), id) {
                Some(p) => r matches Some(o) && props_of_button(o, button_at(self.doc(), self.at(), p)),
                None => match field_place(self.doc(), self.at(), id) {
                    Some(p) => r matches Some(o) && props_of_field(o, field_at(self.doc(), self.at(), p)),
                    None => r is None,
                },
            },
    {
        if let Some(p) = self.locate_button(id) {
            return Some(button_props(self.button(p)));
        }
        if let Some(p) = self.locate_field(id) {
            return Some(field_props(self.field(p)));
        }
        None
    }

    /// Applies inspector properties to the object `props.id` (searched as in
    /// `object_place`); geometry is left alone. Returns whether the object was found.
    pub fn apply_object_props(&mut self, props: &ObjectProps) -> (r: bool)
        requires
            old(self).wf(),
        ensures
            final(self).at() == old(self).at(),
            final(self).wf(),
            match object_place(old(self).doc(), old(self).at(), props.id) {
                Some(Found::Button(p)) => r && with_button(
                    old(self).doc(),
                    final(self).doc(),
                    old(self).at(),
                    p,
                    button_with_props(button_at(old(self).doc(), old(self).at(), p), *props),
                ),
                Some(Found::Field(p)) => r && with_field(
                    old(self).doc(),
                    final(self).doc(),
                    old(self).at(),
                    p,
                    field_with_props(field_at(old(self).doc(), old(self).at(), p), *props),
                ),
                None => !r && final(self).doc() == old(self).doc(),
            },
    {
        match self.locate_object(props.id) {
            Some(Found::Button(p)) => {
                let b = self.button_mut(p);
                b.name = props.name.clone();
                b.title = props.title.clone();
                b.style = parse_style(props.style.as_str());
                if b.checked.is_some() {
                    b.checked = Some(props.checked);
                }
                b.text_font = props.text_font.clone();
                b.text_size = props.text_size;
                b.text_style = props.text_style.clone();
                b.text_align = props.text_align.clone();
                true
            },
            Some(Found::Field(p)) => {
                let f = self.field_mut(p);
                f.name = props.name.clone();
                f.text = props.text.clone();
                f.locked = props.locked;
                f.text_font = props.text_font.clone();
                f.text_size = props.text_size;
                f.text_style = props.text_style.clone();
                f.text_align = props.text_align.clone();
                true
            },
            None => false,
        }
    }

    /// Applies a partial property edit to the object `id` (searched as in
    /// `object_place`). Returns whether the object was found.
    pub fn apply_props_patch(&mut self, id: u32, patch: &PropsPatch) -> (r: bool)
        requires
            old(self).wf(),
        ensures
            final(self).at() == old(self).at(),
            final(self).wf(),
            match object_place(old(self).doc(), old(self).at(), id) {
                Some(Found::Button(p)) => r && with_button(
                    old(self).doc(),
                    final(self).doc(),
                    old(self).at(),
                    p,
                    button_patched(button_at(old(self).doc(), old(self).at(), p), *patch),
                ),
                Some(Found::Field(p)) => r && with_field(
                    old(self).doc(),
                    final(self).doc(),
                    old(self).at(),
                    p,
                    field_patched(field_at(old(self).doc(), old(self).at(), p), *patch),
                ),
                None => !r && final(self).doc() == old(self).doc(),
            },
    {
        match self.locate_object(id) {
            Some(Found::Button(p)) => {
                let b = self.button_mut(p);
                if let Some(v) = copy_opt(&patch.name) {
                    b.name = v;
                }
                if let Some(v) = copy_opt(&patch.title) {
                    b.title = v;
                }
                if let Some(v) = &patch.style {
                    b.style = parse_style(v.as_str());
                }
                if let Some(v) = copy_opt(&patch.text_font) {
                    b.text_font = v;
                }
                if let Some(v) = patch.text_size {
                    b.text_size = v;
                }
                if let Some(v) = copy_opt(&patch.text_style) {
                    b.text_style = v;
                }
                if let Some(v) = copy_opt(&patch.text_align) {
                    b.text_align = v;
                }
                true
            },
            Some(Found::Field(p)) => {
                let f = self.field_mut(p);
                if let Some(v) = copy_opt(&patch.name) {
                    f.name = v;
                }
                if let Some(v) = copy_opt(&patch.text) {
                    f.text = v;
                }
                if let Some(v) = patch.locked {
                    f.locked = v;
                }
                if let Some(v) = copy_opt(&patch.text_font) {
                    f.text_font = v;
                }
                if let Some(v) = patch.text_size {
                    f.text_size = v;
                }
                if let Some(v) = copy_opt(&patch.text_style) {
                    f.text_style = v;
                }
                if let Some(v) = copy_opt(&patch.text_align) {
                    f.text_align = v;
                }
                true
            },
            None => false,
        }
    }

    /// The draw list of the current card: the background's fields and buttons, then the
    /// card's fields and buttons, each in document order.
    pub fn render_current_card(&self) -> (r: RenderList)
        requires
            self.wf(),
        ensures
            r.stack_name@ == self.doc().name@,
            r.card_name@ == self.doc().cards@[self.at()].name@,
            r.card_index == self.at(),
            r.card_count == self.doc().cards@.len(),
            r.width == self.doc().width,
            r.height == self.doc().height,
            draws_card(r.items@, self.doc(), self.at()),
    {
        let card = &self.stack.cards[self.card_index];
        let mut items: Vec<DrawCmd> = Vec::new();
        match self.bg_position() {
            Some(g) => {
                let bg = &self.stack.backgrounds[g];
                push_field_cmds(&mut items, &bg.fields);
                let ghost i1 = items@;
                push_button_cmds(&mut items, &bg.buttons);
                assert(i1.subrange(0, bg.fields@.len() as int) =~= i1);
            },
            None => {},
        }
        let ghost n2 = items@.len();
        let ghost i2 = items@;
        push_field_cmds(&mut items, &card.fields);
        let ghost i3 = items@;
        push_button_cmds(&mut items, &card.buttons);
        proof {
            let s = self.doc();
            let ci = self.at();
            let n1 = bg_fields(s, ci).len() as int;
            let n3 = n2 + card.fields@.len();
            assert(items@.subrange(0, n3 as int) == i3);
            assert(i3.subrange(0, n2 as int) == i2);
            assert forall|j: int| 0 <= j < n2 implies items@[j] == i2[j] by {
                assert(items@.subrange(0, n3 as int)[j] == i3[j]);
                assert(i3.subrange(0, n2 as int)[j] == i2[j]);
            }
            assert(items@.subrange(n2 as int, n3 as int) =~= i3.subrange(n2 as int, n3 as int));
            assert(items@.subrange(0, n1) =~= i2.subrange(0, n1));
            assert(items@.subrange(n1, n2 as int) =~= i2.subrange(n1, n2 as int));
        }
        RenderList {
            stack_name: self.stack.name.clone(),
            card_name: card.name.clone(),
            card_index: self.card_index,
            card_count: self.stack.cards.len(),
            width: self.stack.width,
            height: self.stack.height,
            items,
        }
    }

    /// The semantic view tree of the current card (see `tree_of`).
    pub fn render_view_tree(&self) -> (r: ViewTree)
        requires
            self.wf(),
            tree_ids_fit(self.doc(), self.at()),
        ensures
            r.stack_name@ == self.doc().name@,
            r.card_name@ == self.doc().cards@[self.at()].name@,
            r.card_index == self.at(),
            r.card_count == self.doc().cards@.len(),
            r.width == self.doc().width,
            r.height == self.doc().height,
            r.theme@ == self.doc().theme@,
            r.accent_color@ == self.doc().accent_color@,
            (r.layout@, r.padding, r.columns, r.root_ids@, nodes_v(r.nodes@)) == tree_of(self.doc(), self.at()),
    {
        let card = &self.stack.cards[self.card_index];
        let bg: Option<&Background> = match self.bg_position() {
            Some(g) => Some(&self.stack.backgrounds[g]),
            None => None,
        };
        let mut nodes: Vec<ViewNode> = Vec::new();
        let ghost s = self.doc();
        let ghost ci = self.at();
        assert(opt_bg(bg) == bg_of(s, ci));
        let (layout, padding, columns, root_ids) = match &card.layout {
            Some(root) => {
                let geometry = eq_ignore_ascii_case(root.mode.as_str(), "free");
                let mut next = max_object_id(card, bg) + 1;
                let ids = project_children(card, bg, &root.children, &mut next, &mut nodes, geometry);
                assert(nodes_v(nodes@) =~= tree_of(s, ci).4);
                (root.mode.clone(), root.padding, root.columns, ids)
            },
            None => {
                let mut roots: Vec<u32> = Vec::new();
                if let Some(g) = bg {
                    push_free_fields(&mut nodes, &mut roots, &g.fields);
                    push_free_buttons(&mut nodes, &mut roots, &g.buttons);
                }
                push_free_fields(&mut nodes, &mut roots, &card.fields);
                push_free_buttons(&mut nodes, &mut roots, &card.buttons);
                proof {
                    reveal_strlit("free");
                    assert(roots@ =~= tree_of(s, ci).3);
                    assert(nodes_v(nodes@) =~= tree_of(s, ci).4);
                }
                (owned("free"), 0u32, 0u32, roots)
            },
        };
        ViewTree {
            stack_name: self.stack.name.clone(),
            card_name: card.name.clone(),
            card_index: self.card_index,
            card_count: self.stack.cards.len(),
            layout,
            padding,
            columns,
            width: self.stack.width,
            height: self.stack.height,
            theme: self.stack.theme.clone(),
            accent_color: self.stack.accent_color.clone(),
            root_ids,
            nodes,
        }
    }

    /// Takes in what a message run came to: the run's card becomes current, its requests
    /// become host effects in the same order, and the result says whether the card
    /// changed, whether the host must redraw (a new card or anything to do), whether a
    /// handler ran, and the error that stopped the run; a handled message has no error.
    pub fn finish_dispatch(&mut self, run: RunOutcome) -> (r: DispatchResult)
        requires
            old(self).wf(),
            run.card_index < old(self).doc().cards@.len(),
        ensures
            final(self).doc() == old(self).doc(),
            final(self).at() == run.card_index,
            final(self).wf(),
            r.card_changed == (run.card_index != old(self).at()),
            r.host_cmds@ == run.host@.map_values(|c: HostCmd| effect_of(c)),
            r.needs_redraw == (r.card_changed || run.host@.len() > 0),
            r.focus_field is None,
            r.handled == (run.end is Handled),
            r.error == match run.end {
                PathEnd::Failed(e) => Some(e),
                _ => None::<String>,
            },
            r.handled ==> r.error is None,
    {
        let before = self.card_index;
        self.card_index = run.card_index;
        let mut cmds: Vec<HostEffect> = Vec::new();
        let mut k: usize = 0;
        while k < run.host.len()
            invariant
                k <= run.host@.len(),
                cmds@ == run.host@.take(k as int).map_values(|c: HostCmd| effect_of(c)),
            decreases run.host@.len() - k,
        {
            cmds.push(host_effect(&run.host[k]));
            assert(run.host@.take(k + 1).map_values(|c: HostCmd| effect_of(c)) =~= run.host@.take(
                k as int,
            ).map_values(|c: HostCmd| effect_of(c)).push(effect_of(run.host@[k as int])));
            k += 1;
        }
        assert(run.host@.take(run.host@.len() as int) =~= run.host@);
        let card_changed = run.card_index != before;
        let needs_redraw = card_changed || run.host.len() > 0;
        let (handled, error) = match run.end {
            PathEnd::NotHandled => (false, None),
            PathEnd::Handled => (true, None),
            PathEnd::Failed(e) => (false, Some(e)),
        };
        DispatchResult { needs_redraw, card_changed, focus_field: None, host_cmds: cmds, error, handled }
    }

    /// Decides what a tap does (see `touch_plan_of`); a switch that is tapped flips
    /// before its `mouseUp` runs.
    pub fn plan_touch(&mut self, phase: &str, hit: Option<Hit>) -> (r: TouchPlan)
        requires
            old(self).wf(),
        ensures
            r == touch_plan_of(phase@, hit),
            final(self).at() == old(self).at(),
            final(self).wf(),
            match r {
                TouchPlan::MouseUp(Me::Button(id)) => toggled(old(self).doc(), final(self).doc(), old(self).at(), id),
                _ => final(self).doc() == old(self).doc(),
            },
    {
        if !str_eq(phase, "up") && !str_eq(phase, "tap") {
            return TouchPlan::Nothing;
        }
        match hit {
            None => TouchPlan::Nothing,
            Some(Hit::Button(id)) => {
                self.toggle_if_switch(id);
                TouchPlan::MouseUp(Me::Button(id))
            },
            Some(Hit::EditableField(id)) => TouchPlan::Focus(id),
            Some(Hit::LockedField(id)) => TouchPlan::MouseUp(Me::Field(id)),
        }
    }

    /// Decides where a message fired at the object `id` starts (the view-tree analogue of
    /// a tap): `None` when no object on the card or its background has the id. A switch
    /// that gets `mouseUp` (in any case) flips first.
    pub fn plan_by_id(&mut self, id: u32, message: &str) -> (r: Option<Me>)
        requires
            old(self).wf(),
        ensures
            match object_place(old(self).doc(), old(self).at(), id) {
                Some(Found::Button(_)) => r == Some(Me::Button(id)),
                Some(Found::Field(_)) => r == Some(Me::Field(id)),
                None => r is None,
            },
            final(self).at() == old(self).at(),
            final(self).wf(),
            if r == Some(Me::Button(id)) && eq_ignore_case(message@, "mouseup"@) {
                toggled(old(self).doc(), final(self).doc(), old(self).at(), id)
            } else {
                final(self).doc() == old(self).doc()
            },
    {
        let me = self.me_for_id(id);
        if let Some(Me::Button(_)) = me {
            if eq_ignore_ascii_case(message, "mouseup") {
                self.toggle_if_switch(id);
            }
        }
        me
    }

    /// The rectangle of the current card's object that answers to a key, for tapping by
    /// name in tools: the first of its buttons with id `id` or named `name` (ignoring
    /// case), else the first such field.
    pub fn rect_by_key(&self, id: Option<u32>, name: &str) -> (r: Option<Rect>)
        requires
            self.wf(),
        ensures
            ({
                let c = self.doc().cards@[self.at()];
                match button_key_index(c.buttons@, id, name@) {
                    Some(i) => r == Some(c.buttons@[i].rect),
                    None => match field_key_index(c.fields@, id, name@) {
                        Some(i) => r == Some(c.fields@[i].rect),
                        None => r is None,
                    },
                }
            }),
    {
        let card = &self.stack.cards[self.card_index];
        if let Some(i) = find_button_by_key(&card.buttons, id, name) {
            return Some(card.buttons[i].rect);
        }
        if let Some(i) = find_field_by_key(&card.fields, id, name) {
            return Some(card.fields[i].rect);
        }
        None
    }
}

} // verus!
