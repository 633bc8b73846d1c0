//! The HyperCard-like document model: a Stack of Cards, each holding Buttons and
//! Fields, layered over shared Backgrounds.
//!
//! Geometry and other measures (coordinates, sizes, weights, padding, insets) are
//! single-precision floating-point values in the document. The library never computes
//! with them: it stores each one as its IEEE-754 bit pattern (`f32::to_bits`) in a `u32`
//! and copies it where it belongs; the host converts and does the arithmetic.

use vstd::prelude::*;

verus! {

/// A rectangle in card coordinates (logical pixels, origin top-left); each component is
/// the bit pattern of an `f32`.
#[derive(Debug, Clone, Copy, PartialEq, Eq, Structural)]
pub struct Rect {
    pub x: u32,
    pub y: u32,
    pub w: u32,
    pub h: u32,
}

#[derive(Debug, Clone, Copy, PartialEq, Eq, Structural)]
pub enum ButtonStyle {
    Rounded,
    Rectangle,
    Transparent,
}

pub struct Button {
    pub id: u32,
    pub name: String,
    pub rect: Rect,
    /// Visible label. Falls back to `name` when empty.
    pub title: String,
    pub style: ButtonStyle,
    /// Boolean state for toggle controls (`switch`/`checkbox`/`radio`). When `Some` and
    /// `control` is empty, the object is a `switch`. Toggled before `mouseUp` runs.
    pub checked: Option<bool>,
    /// Control kind: `""` (plain button, or `switch` when `checked` is set) | `checkbox` |
    /// `radio` | `slider` | `progress` | `image` | `chip` | `divider`.
    pub control: String,
    /// Numeric state (an `f32` bit pattern) for `slider`/`progress` controls; `None` otherwise.
    pub value: Option<u32>,
    /// Asset name / URL for an `image` control; `""` otherwise.
    pub source: String,
    pub visible: bool,
    /// HyperTalk source for this object's handlers.
    pub script: String,
    /// Font family name ("", "sans-serif", "serif", "monospace"); "" = host default.
    pub text_font: String,
    /// Text size (an `f32` bit pattern).
    pub text_size: u32,
    /// Comma-separated styles, any of `bold`, `italic`, `underline`; "" = plain.
    pub text_style: String,
    /// `left`, `center`, or `right`; "" = host default.
    pub text_align: String,
    /// Flex weight within a layout group (an `f32` bit pattern); 0 = no flex.
    pub weight: u32,
    /// Material button role: `""` (use `style`) | `filled` | `tonal` | `outlined` | `text` |
    /// `elevated` | `fab`.
    pub role: String,
    /// Accessibility label; `""` = derive from the visible label.
    pub content_description: String,
}

/// The label a button shows: its title, or its name when the title is empty.
pub open spec fn label_of(b: Button) -> Seq<char> {
    if b.title@.len() == 0 {
        b.name@
    } else {
        b.title@
    }
}

impl Button {
    pub fn label(&self) -> (r: &String)
        ensures
            r@ == label_of(*self),
            *r == if self.title@.len() == 0 { self.name } else { self.title },
    {
        if self.title.as_str().is_empty() {
            &self.name
        } else {
            &self.title
        }
    }
}

pub struct Field {
    pub id: u32,
    pub name: String,
    pub rect: Rect,
    pub text: String,
    /// Locked fields cannot be edited by the user (still scriptable).
    pub locked: bool,
    pub visible: bool,
    pub script: String,
    pub text_font: String,
    /// Text size (an `f32` bit pattern).
    pub text_size: u32,
    pub text_style: String,
    pub text_align: String,
    /// Flex weight within a layout group (an `f32` bit pattern).
    pub weight: u32,
    /// Type-scale token for the field's text, e.g. `headlineSmall`; `""` = host default.
    pub text_role: String,
    /// Accessibility label; `""` = derive from contents.
    pub content_description: String,
    /// Live-region politeness: `""` | `polite` | `assertive`.
    pub live_region: String,
}

pub struct Background {
    pub id: u32,
    pub name: String,
    pub fields: Vec<Field>,
    pub buttons: Vec<Button>,
    pub script: String,
}

pub struct Card {
    pub id: u32,
    pub name: String,
    /// Optional shared background layer.
    pub background_id: Option<u32>,
    pub fields: Vec<Field>,
    pub buttons: Vec<Button>,
    pub script: String,
    /// Optional layout overlay for the native render target: a tree of groups that
    /// arrange this card's objects (referenced by id).
    pub layout: Option<LayoutGroup>,
}

/// A container node in a card's layout overlay: arranges its `children` in a `row`,
/// `column`, `grid` or `free` arrangement.
pub struct LayoutGroup {
    pub mode: String,
    /// Padding (an `f32` bit pattern).
    pub padding: u32,
    /// Flex weight within the parent group (an `f32` bit pattern).
    pub weight: u32,
    /// Columns per row when `mode == "grid"`; 0 otherwise.
    pub columns: u32,
    pub children: Vec<LayoutChild>,
}

/// One child of a [`LayoutGroup`]: a nested group, or an object referenced by id.
pub enum LayoutChild {
    Group(LayoutGroup),
    Object(u32),
}

pub struct Stack {
    pub name: String,
    /// Card size (`f32` bit patterns).
    pub width: u32,
    pub height: u32,
    pub backgrounds: Vec<Background>,
    pub cards: Vec<Card>,
    pub script: String,
    /// Material theme: `""`/`light` | `dark` | `system` | `dynamic`.
    pub theme: String,
    /// Seed color (hex, e.g. `#6750A4`); `""` = default.
    pub accent_color: String,
    /// Safe-area insets the host pushes in each layout pass; session state, not document
    /// content.
    pub safe_insets: SafeInsets,
}

/// Safe-area insets in dp (`f32` bit patterns), set by the host each layout pass.
#[derive(Debug, Clone, Copy, PartialEq, Eq, Structural)]
pub struct SafeInsets {
    pub top: u32,
    pub right: u32,
    pub bottom: u32,
    pub left: u32,
}

// ---- lookup by id ----

/// The position of the first button with `id`.
pub open spec fn button_index(bs: Seq<Button>, id: u32) -> Option<int>
    decreases bs.len(),
{
    if bs.len() == 0 {
        None
    } else {
        match button_index(bs.drop_last(), id) {
            Some(i) => Some(i),
            None => if bs.last().id == id {
                Some(bs.len() - 1)
            } else {
                None
            },
        }
    }
}

/// The position of the first field with `id`.
pub open spec fn field_index(fs: Seq<Field>, id: u32) -> Option<int>
    decreases fs.len(),
{
    if fs.len() == 0 {
        None
    } else {
        match field_index(fs.drop_last(), id) {
            Some(i) => Some(i),
            None => if fs.last().id == id {
                Some(fs.len() - 1)
            } else {
                None
            },
        }
    }
}

/// The position of the first background with `id`.
pub open spec fn background_index(bs: Seq<Background>, id: u32) -> Option<int>
    decreases bs.len(),
{
    if bs.len() == 0 {
        None
    } else {
        match background_index(bs.drop_last(), id) {
            Some(i) => Some(i),
            None => if bs.last().id == id {
                Some(bs.len() - 1)
            } else {
                None
            },
        }
    }
}

/// What `button_index` means: the first position holding `id`, if any.
pub proof fn lemma_button_index(bs: Seq<Button>, id: u32)
    ensures
        button_index(bs, id) matches Some(i) ==> 0 <= i < bs.len() && bs[i].id == id && forall|j: int|
            0 <= j < i ==> #[trigger] bs[j].id != id,
        button_index(bs, id) is None ==> forall|j: int| 0 <= j < bs.len() ==> #[trigger] bs[j].id != id,
    decreases bs.len(),
{
    if bs.len() > 0 {
        let d = bs.drop_last();
        lemma_button_index(d, id);
        match button_index(d, id) {
            Some(i) => {
                assert forall|j: int| 0 <= j < i implies #[trigger] bs[j].id != id by {
                    assert(d[j] == bs[j]);
                }
                assert(d[i] == bs[i]);
            },
            None => {
                assert forall|j: int| 0 <= j < d.len() implies #[trigger] bs[j].id != id by {
                    assert(d[j] == bs[j]);
                }
                assert forall|j: int| 0 <= j < bs.len() && bs[bs.len() - 1].id != id implies #[trigger] bs[j].id != id by {
                    if j < d.len() {
                        assert(d[j] == bs[j]);
                    }
                }
            },
        }
    }
}

/// What `field_index` means: the first position holding `id`, if any.
pub proof fn lemma_field_index(fs: Seq<Field>, id: u32)
    ensures
        field_index(fs, id) matches Some(i) ==> 0 <= i < fs.len() && fs[i].id == id && forall|j: int|
            0 <= j < i ==> #[trigger] fs[j].id != id,
        field_index(fs, id) is None ==> forall|j: int| 0 <= j < fs.len() ==> #[trigger] fs[j].id != id,
    decreases fs.len(),
{
    if fs.len() > 0 {
        let d = fs.drop_last();
        lemma_field_index(d, id);
        match field_index(d, id) {
            Some(i) => {
                assert forall|j: int| 0 <= j < i implies #[trigger] fs[j].id != id by {
                    assert(d[j] == fs[j]);
                }
                assert(d[i] == fs[i]);
            },
            None => {
                assert forall|j: int| 0 <= j < d.len() implies #[trigger] fs[j].id != id by {
                    assert(d[j] == fs[j]);
                }
                assert forall|j: int| 0 <= j < fs.len() && fs[fs.len() - 1].id != id implies #[trigger] fs[j].id != id by {
                    if j < d.len() {
                        assert(d[j] == fs[j]);
                    }
                }
            },
        }
    }
}

/// What `background_index` means: the first position holding `id`, if any.
pub proof fn lemma_background_index(bs: Seq<Background>, id: u32)
    ensures
        background_index(bs, id) matches Some(i) ==> 0 <= i < bs.len() && bs[i].id == id && forall|j: int|
            0 <= j < i ==> #[trigger] bs[j].id != id,
        background_index(bs, id) is None ==> forall|j: int| 0 <= j < bs.len() ==> #[trigger] bs[j].id != id,
    decreases bs.len(),
{
    if bs.len() > 0 {
        let d = bs.drop_last();
        lemma_background_index(d, id);
        match background_index(d, id) {
            Some(i) => {
                assert forall|j: int| 0 <= j < i implies #[trigger] bs[j].id != id by {
                    assert(d[j] == bs[j]);
                }
                assert(d[i] == bs[i]);
            },
            None => {
                assert forall|j: int| 0 <= j < d.len() implies #[trigger] bs[j].id != id by {
                    assert(d[j] == bs[j]);
                }
                assert forall|j: int| 0 <= j < bs.len() && bs[bs.len() - 1].id != id implies #[trigger] bs[j].id != id by {
                    if j < d.len() {
                        assert(d[j] == bs[j]);
                    }
                }
            },
        }
    }
}

pub fn find_button(bs: &Vec<Button>, id: u32) -> (r: Option<usize>)
    ensures
        match r {
            Some(i) => button_index(bs@, id) == Some(i as int),
            None => button_index(bs@, id) is None,
        },
{
    let mut k: usize = 0;
    while k < bs.len()
        invariant
            k <= bs.len(),
            button_index(bs@.take(k as int), id) is None,
        decreases bs.len() - k,
    {
        assert(bs@.take(k + 1).drop_last() =~= bs@.take(k as int));
        if bs[k].id == id {
            proof { lemma_button_index_prefix(bs@, k as int + 1, id); }
            return Some(k);
        }
        k += 1;
    }
    assert(bs@.take(bs.len() as int) =~= bs@);
    None
}

proof fn lemma_button_index_prefix(bs: Seq<Button>, k: int, id: u32)
    requires
        0 < k <= bs.len(),
        button_index(bs.take(k - 1), id) is None,
        bs[k - 1].id == id,
    ensures
        button_index(bs, id) == Some(k - 1),
    decreases bs.len(),
{
    assert(bs.take(k).drop_last() =~= bs.take(k - 1));
    if k < bs.len() {
        assert(bs.drop_last().take(k) =~= bs.take(k));
        assert(bs.drop_last().take(k - 1) =~= bs.take(k - 1));
        lemma_button_index_prefix(bs.drop_last(), k, id);
    } else {
        assert(bs.take(k) =~= bs);
    }
}

pub fn find_field(fs: &Vec<Field>, id: u32) -> (r: Option<usize>)
    ensures
        match r {
            Some(i) => field_index(fs@, id) == Some(i as int),
            None => field_index(fs@, id) is None,
        },
{
    let mut k: usize = 0;
    while k < fs.len()
        invariant
            k <= fs.len(),
            field_index(fs@.take(k as int), id) is None,
        decreases fs.len() - k,
    {
        assert(fs@.take(k + 1).drop_last() =~= fs@.take(k as int));
        if fs[k].id == id {
            proof { lemma_field_index_prefix(fs@, k as int + 1, id); }
            return Some(k);
        }
        k += 1;
    }
    assert(fs@.take(fs.len() as int) =~= fs@);
    None
}

proof fn lemma_field_index_prefix(fs: Seq<Field>, k: int, id: u32)
    requires
        0 < k <= fs.len(),
        field_index(fs.take(k - 1), id) is None,
        fs[k - 1].id == id,
    ensures
        field_index(fs, id) == Some(k - 1),
    decreases fs.len(),
{
    assert(fs.take(k).drop_last() =~= fs.take(k - 1));
    if k < fs.len() {
        assert(fs.drop_last().take(k) =~= fs.take(k));
        assert(fs.drop_last().take(k - 1) =~= fs.take(k - 1));
        lemma_field_index_prefix(fs.drop_last(), k, id);
    } else {
        assert(fs.take(k) =~= fs);
    }
}

pub fn find_background(bs: &Vec<Background>, id: u32) -> (r: Option<usize>)
    ensures
        match r {
            Some(i) => background_index(bs@, id) == Some(i as int),
            None => background_index(bs@, id) is None,
        },
{
    let mut k: usize = 0;
    while k < bs.len()
        invariant
            k <= bs.len(),
            background_index(bs@.take(k as int), id) is None,
        decreases bs.len() - k,
    {
        assert(bs@.take(k + 1).drop_last() =~= bs@.take(k as int));
        if bs[k].id == id {
            proof { lemma_background_index_prefix(bs@, k as int + 1, id); }
            return Some(k);
        }
        k += 1;
    }
    assert(bs@.take(bs.len() as int) =~= bs@);
    None
}

proof fn lemma_background_index_prefix(bs: Seq<Background>, k: int, id: u32)
    requires
        0 < k <= bs.len(),
        background_index(bs.take(k - 1), id) is None,
        bs[k - 1].id == id,
    ensures
        background_index(bs, id) == Some(k - 1),
    decreases bs.len(),
{
    assert(bs.take(k).drop_last() =~= bs.take(k - 1));
    if k < bs.len() {
        assert(bs.drop_last().take(k) =~= bs.take(k));
        assert(bs.drop_last().take(k - 1) =~= bs.take(k - 1));
        lemma_background_index_prefix(bs.drop_last(), k, id);
    } else {
        assert(bs.take(k) =~= bs);
    }
}

impl Stack {
    /// The first background with `id`.
    pub fn background(&self, id: u32) -> (r: Option<&Background>)
        ensures
            match background_index(self.backgrounds@, id) {
                Some(i) => r == Some(&self.backgrounds@[i]),
                None => r is None,
            },
    {
        proof {
            lemma_background_index(self.backgrounds@, id);
        }
        match find_background(&self.backgrounds, id) {
            Some(i) => Some(&self.backgrounds[i]),
            None => None,
        }
    }
}

/// Replacing a button by one with the same id leaves every lookup by id as it was.
pub proof fn lemma_button_index_update(bs: Seq<Button>, i: int, b: Button, id: u32)
    requires
        0 <= i < bs.len(),
        b.id == bs[i].id,
    ensures
        button_index(bs.update(i, b), id) == button_index(bs, id),
    decreases bs.len(),
{
    if i == bs.len() - 1 {
        assert(bs.update(i, b).drop_last() =~= bs.drop_last());
    } else {
        assert(bs.update(i, b).drop_last() =~= bs.drop_last().update(i, b));
        lemma_button_index_update(bs.drop_last(), i, b, id);
    }
}

/// Replacing a field by one with the same id leaves every lookup by id as it was.
pub proof fn lemma_field_index_update(fs: Seq<Field>, i: int, f: Field, id: u32)
    requires
        0 <= i < fs.len(),
        f.id == fs[i].id,
    ensures
        field_index(fs.update(i, f), id) == field_index(fs, id),
    decreases fs.len(),
{
    if i == fs.len() - 1 {
        assert(fs.update(i, f).drop_last() =~= fs.drop_last());
    } else {
        assert(fs.update(i, f).drop_last() =~= fs.drop_last().update(i, f));
        lemma_field_index_update(fs.drop_last(), i, f, id);
    }
}

/// Replacing a background by one with the same id leaves every lookup by id as it was.
pub proof fn lemma_background_index_update(bs: Seq<Background>, i: int, b: Background, id: u32)
    requires
        0 <= i < bs.len(),
        b.id == bs[i].id,
    ensures
        background_index(bs.update(i, b), id) == background_index(bs, id),
    decreases bs.len(),
{
    if i == bs.len() - 1 {
        assert(bs.update(i, b).drop_last() =~= bs.drop_last());
    } else {
        assert(bs.update(i, b).drop_last() =~= bs.drop_last().update(i, b));
        lemma_background_index_update(bs.drop_last(), i, b, id);
    }
}

// ---- ids ----

/// The larger of two ids.
pub open spec fn max_u32(a: u32, b: u32) -> u32 {
    if a < b { b } else { a }
}

/// The largest button id in `bs`; 0 when there is none.
pub open spec fn max_button_id(bs: Seq<Button>) -> u32
    decreases bs.len(),
{
    if bs.len() == 0 { 0 } else { max_u32(max_button_id(bs.drop_last()), bs.last().id) }
}

/// The largest field id in `fs`; 0 when there is none.
pub open spec fn max_field_id(fs: Seq<Field>) -> u32
    decreases fs.len(),
{
    if fs.len() == 0 { 0 } else { max_u32(max_field_id(fs.drop_last()), fs.last().id) }
}

/// The largest object id on the cards `cs`.
pub open spec fn max_card_id(cs: Seq<Card>) -> u32
    decreases cs.len(),
{
    if cs.len() == 0 {
        0
    } else {
        max_u32(
            max_card_id(cs.drop_last()),
            max_u32(max_button_id(cs.last().buttons@), max_field_id(cs.last().fields@)),
        )
    }
}

/// The largest object id on the backgrounds `bs`.
pub open spec fn max_bg_id(bs: Seq<Background>) -> u32
    decreases bs.len(),
{
    if bs.len() == 0 {
        0
    } else {
        max_u32(
            max_bg_id(bs.drop_last()),
            max_u32(max_button_id(bs.last().buttons@), max_field_id(bs.last().fields@)),
        )
    }
}

/// The largest id of any button or field anywhere in the stack; 0 when there is none.
pub open spec fn max_object_id_of(s: Stack) -> u32 {
    max_u32(max_card_id(s.cards@), max_bg_id(s.backgrounds@))
}

/// No button in `bs` has an id above `max_button_id(bs)`.
pub proof fn lemma_max_button_id(bs: Seq<Button>)
    ensures
        forall|j: int| 0 <= j < bs.len() ==> #[trigger] bs[j].id <= max_button_id(bs),
    decreases bs.len(),
{
    if bs.len() > 0 {
        lemma_max_button_id(bs.drop_last());
        assert forall|j: int| 0 <= j < bs.len() implies #[trigger] bs[j].id <= max_button_id(bs) by {
            if j < bs.len() - 1 {
                assert(bs.drop_last()[j] == bs[j]);
            }
        }
    }
}

/// No field in `fs` has an id above `max_field_id(fs)`.
pub proof fn lemma_max_field_id(fs: Seq<Field>)
    ensures
        forall|j: int| 0 <= j < fs.len() ==> #[trigger] fs[j].id <= max_field_id(fs),
    decreases fs.len(),
{
    if fs.len() > 0 {
        lemma_max_field_id(fs.drop_last());
        assert forall|j: int| 0 <= j < fs.len() implies #[trigger] fs[j].id <= max_field_id(fs) by {
            if j < fs.len() - 1 {
                assert(fs.drop_last()[j] == fs[j]);
            }
        }
    }
}

/// Every object on the cards `cs` has an id of at most `max_card_id(cs)`.
pub proof fn lemma_max_card_id(cs: Seq<Card>)
    ensures
        forall|c: int| 0 <= c < cs.len() ==> max_button_id(#[trigger] cs[c].buttons@) <= max_card_id(cs)
            && max_field_id(cs[c].fields@) <= max_card_id(cs),
    decreases cs.len(),
{
    if cs.len() > 0 {
        lemma_max_card_id(cs.drop_last());
        assert forall|c: int| 0 <= c < cs.len() implies max_button_id(#[trigger] cs[c].buttons@)
            <= max_card_id(cs) && max_field_id(cs[c].fields@) <= max_card_id(cs) by {
            if c < cs.len() - 1 {
                assert(cs.drop_last()[c] == cs[c]);
            }
        }
    }
}

/// Every object on the backgrounds `bs` has an id of at most `max_bg_id(bs)`.
pub proof fn lemma_max_bg_id(bs: Seq<Background>)
    ensures
        forall|g: int| 0 <= g < bs.len() ==> max_button_id(#[trigger] bs[g].buttons@) <= max_bg_id(bs)
            && max_field_id(bs[g].fields@) <= max_bg_id(bs),
    decreases bs.len(),
{
    if bs.len() > 0 {
        lemma_max_bg_id(bs.drop_last());
        assert forall|g: int| 0 <= g < bs.len() implies max_button_id(#[trigger] bs[g].buttons@)
            <= max_bg_id(bs) && max_field_id(bs[g].fields@) <= max_bg_id(bs) by {
            if g < bs.len() - 1 {
                assert(bs.drop_last()[g] == bs[g]);
            }
        }
    }
}

/// Every button and field of the stack, on a card or on a background, has an id of at
/// most `max_object_id_of(s)`.
pub proof fn lemma_max_object_id(s: Stack)
    ensures
        forall|c: int, j: int| 0 <= c < s.cards@.len() && 0 <= j < s.cards@[c].buttons@.len()
            ==> #[trigger] s.cards@[c].buttons@[j].id <= max_object_id_of(s),
        forall|c: int, j: int| 0 <= c < s.cards@.len() && 0 <= j < s.cards@[c].fields@.len()
            ==> #[trigger] s.cards@[c].fields@[j].id <= max_object_id_of(s),
        forall|g: int, j: int| 0 <= g < s.backgrounds@.len() && 0 <= j < s.backgrounds@[g].buttons@.len()
            ==> #[trigger] s.backgrounds@[g].buttons@[j].id <= max_object_id_of(s),
        forall|g: int, j: int| 0 <= g < s.backgrounds@.len() && 0 <= j < s.backgrounds@[g].fields@.len()
            ==> #[trigger] s.backgrounds@[g].fields@[j].id <= max_object_id_of(s),
{
    lemma_max_card_id(s.cards@);
    lemma_max_bg_id(s.backgrounds@);
    assert forall|c: int, j: int| 0 <= c < s.cards@.len() && 0 <= j < s.cards@[c].buttons@.len()
        implies #[trigger] s.cards@[c].buttons@[j].id <= max_object_id_of(s) by {
        lemma_max_button_id(s.cards@[c].buttons@);
    }
    assert forall|c: int, j: int| 0 <= c < s.cards@.len() && 0 <= j < s.cards@[c].fields@.len()
        implies #[trigger] s.cards@[c].fields@[j].id <= max_object_id_of(s) by {
        lemma_max_field_id(s.cards@[c].fields@);
        assert(max_button_id(s.cards@[c].buttons@) <= max_card_id(s.cards@));
    }
    assert forall|g: int, j: int| 0 <= g < s.backgrounds@.len() && 0 <= j < s.backgrounds@[g].buttons@.len()
        implies #[trigger] s.backgrounds@[g].buttons@[j].id <= max_object_id_of(s) by {
        lemma_max_button_id(s.backgrounds@[g].buttons@);
    }
    assert forall|g: int, j: int| 0 <= g < s.backgrounds@.len() && 0 <= j < s.backgrounds@[g].fields@.len()
        implies #[trigger] s.backgrounds@[g].fields@[j].id <= max_object_id_of(s) by {
        lemma_max_field_id(s.backgrounds@[g].fields@);
        assert(max_button_id(s.backgrounds@[g].buttons@) <= max_bg_id(s.backgrounds@));
    }
}

/// The largest button id in `bs`.
pub fn max_id_of_buttons(bs: &Vec<Button>) -> (r: u32)
    ensures
        r == max_button_id(bs@),
{
    let mut m: u32 = 0;
    let mut k: usize = 0;
    while k < bs.len()
        invariant
            k <= bs.len(),
            m == max_button_id(bs@.take(k as int)),
        decreases bs.len() - k,
    {
        assert(bs@.take(k + 1).drop_last() =~= bs@.take(k as int));
        if m < bs[k].id {
            m = bs[k].id;
        }
        k += 1;
    }
    assert(bs@.take(bs.len() as int) =~= bs@);
    m
}

/// The largest field id in `fs`.
pub fn max_id_of_fields(fs: &Vec<Field>) -> (r: u32)
    ensures
        r == max_field_id(fs@),
{
    let mut m: u32 = 0;
    let mut k: usize = 0;
    while k < fs.len()
        invariant
            k <= fs.len(),
            m == max_field_id(fs@.take(k as int)),
        decreases fs.len() - k,
    {
        assert(fs@.take(k + 1).drop_last() =~= fs@.take(k as int));
        if m < fs[k].id {
            m = fs[k].id;
        }
        k += 1;
    }
    assert(fs@.take(fs.len() as int) =~= fs@);
    m
}

impl Stack {
    /// The largest id of any button or field in the stack; 0 when there is none.
    pub fn max_object_id(&self) -> (r: u32)
        ensures
            r == max_object_id_of(*self),
    {
        let mut mc: u32 = 0;
        let mut k: usize = 0;
        while k < self.cards.len()
            invariant
                k <= self.cards.len(),
                mc == max_card_id(self.cards@.take(k as int)),
            decreases self.cards.len() - k,
        {
            assert(self.cards@.take(k + 1).drop_last() =~= self.cards@.take(k as int));
            let b = max_id_of_buttons(&self.cards[k].buttons);
            let f = max_id_of_fields(&self.cards[k].fields);
            let here = if b < f { f } else { b };
            if mc < here {
                mc = here;
            }
            k += 1;
        }
        assert(self.cards@.take(self.cards.len() as int) =~= self.cards@);
        let mut mb: u32 = 0;
        let mut k: usize = 0;
        while k < self.backgrounds.len()
            invariant
                k <= self.backgrounds.len(),
                mb == max_bg_id(self.backgrounds@.take(k as int)),
            decreases self.backgrounds.len() - k,
        {
            assert(self.backgrounds@.take(k + 1).drop_last() =~= self.backgrounds@.take(k as int));
            let b = max_id_of_buttons(&self.backgrounds[k].buttons);
            let f = max_id_of_fields(&self.backgrounds[k].fields);
            let here = if b < f { f } else { b };
            if mb < here {
                mb = here;
            }
            k += 1;
        }
        assert(self.backgrounds@.take(self.backgrounds.len() as int) =~= self.backgrounds@);
        if mc < mb { mb } else { mc }
    }
}

// ---- document defaults ----

/// The default of a missing `visible`: shown.
pub fn default_true() -> (r: bool)
    ensures
        r,
{
    true
}

/// The default arrangement of a layout group: `"column"`.
pub fn default_mode() -> (r: String)
    ensures
        r@ == "column"@,
{
    crate::text::owned("column")
}

} // verus!
