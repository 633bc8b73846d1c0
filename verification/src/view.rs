//! The semantic view tree of a card for the native render target: what the UI is and
//! means, as a flat id-indexed list of nodes. Objects become `button`, `switch` and
//! `field` nodes with abstract properties; a card's layout overlay becomes `group`
//! nodes. Numeric properties stay `f32` bit patterns for the host to render.

use vstd::prelude::*;

use crate::model::{
    field_index, button_index, find_button, find_field, label_of, lemma_button_index, lemma_field_index,
    lemma_max_button_id, lemma_max_field_id, max_button_id, max_field_id, max_id_of_buttons,
    max_id_of_fields, max_u32, Background, Button, Card, Field, LayoutChild, LayoutGroup, Rect,
};
use crate::session::style_name_of;
use crate::text::{decimal, owned, push_decimal};

verus! {

/// A property value: text, or a number kept as its `f32` bit pattern.
pub enum PropValue {
    Text(String),
    Number(u32),
}

/// One abstract key/value property of a [`ViewNode`].
pub struct Prop {
    pub key: String,
    pub value: PropValue,
}

/// One node of a [`ViewTree`].
pub struct ViewNode {
    pub id: u32,
    /// `button`, `switch`, `field` or `group`.
    pub kind: String,
    /// Ordered abstract properties.
    pub props: Vec<Prop>,
    /// A group's laid-out children; empty for objects.
    pub child_ids: Vec<u32>,
}

/// The semantic view tree of the current card.
pub struct ViewTree {
    pub stack_name: String,
    pub card_name: String,
    pub card_index: usize,
    pub card_count: usize,
    /// The root arrangement: the layout overlay's mode, or `free` without an overlay.
    pub layout: String,
    /// Root padding (an `f32` bit pattern); 0 without an overlay.
    pub padding: u32,
    /// Columns per row of a `grid` root; 0 without an overlay.
    pub columns: u32,
    /// Card size (`f32` bit patterns).
    pub width: u32,
    pub height: u32,
    pub theme: String,
    pub accent_color: String,
    /// Top-level node ids, in render order.
    pub root_ids: Vec<u32>,
    pub nodes: Vec<ViewNode>,
}

// ---- the model of a tree ----

pub enum SpecValue {
    Text(Seq<char>),
    Number(u32),
}

pub struct SpecProp {
    pub key: Seq<char>,
    pub value: SpecValue,
}

pub struct SpecNode {
    pub id: u32,
    pub kind: Seq<char>,
    pub props: Seq<SpecProp>,
    pub child_ids: Seq<u32>,
}

pub open spec fn value_v(v: PropValue) -> SpecValue {
    match v {
        PropValue::Text(s) => SpecValue::Text(s@),
        PropValue::Number(n) => SpecValue::Number(n),
    }
}

pub open spec fn prop_v(p: Prop) -> SpecProp {
    SpecProp { key: p.key@, value: value_v(p.value) }
}

pub open spec fn props_v(ps: Seq<Prop>) -> Seq<SpecProp> {
    ps.map_values(|p: Prop| prop_v(p))
}

pub open spec fn node_v(n: ViewNode) -> SpecNode {
    SpecNode { id: n.id, kind: n.kind@, props: props_v(n.props@), child_ids: n.child_ids@ }
}

pub open spec fn nodes_v(ns: Seq<ViewNode>) -> Seq<SpecNode> {
    ns.map_values(|n: ViewNode| node_v(n))
}

/// A text property.
pub open spec fn text_prop(key: Seq<char>, value: Seq<char>) -> SpecProp {
    SpecProp { key, value: SpecValue::Text(value) }
}

/// A numeric property.
pub open spec fn num_prop(key: Seq<char>, value: u32) -> SpecProp {
    SpecProp { key, value: SpecValue::Number(value) }
}

/// `true` or `false`.
pub open spec fn bool_text(b: bool) -> Seq<char> {
    if b { "true"@ } else { "false"@ }
}

/// The node of a field: its text, lock, visibility and text styling.
pub open spec fn field_node_of(f: Field) -> SpecNode {
    SpecNode {
        id: f.id,
        kind: "field"@,
        props: seq![
            text_prop("text"@, f.text@),
            text_prop("locked"@, bool_text(f.locked)),
            text_prop("visible"@, bool_text(f.visible)),
            text_prop("font"@, f.text_font@),
            num_prop("size"@, f.text_size),
            text_prop("textStyle"@, f.text_style@),
            text_prop("align"@, f.text_align@),
            text_prop("textRole"@, f.text_role@),
        ],
        child_ids: Seq::empty(),
    }
}

/// The node of a button: a `switch` when its `checked` is set (with a `checked`
/// property), else a `button`; with its label, style, role, visibility and text styling.
pub open spec fn button_node_of(b: Button) -> SpecNode {
    let base = seq![
        text_prop("title"@, label_of(b)),
        text_prop("style"@, style_name_of(b.style)),
        text_prop("role"@, b.role@),
        text_prop("visible"@, bool_text(b.visible)),
        text_prop("font"@, b.text_font@),
        num_prop("size"@, b.text_size),
        text_prop("textStyle"@, b.text_style@),
        text_prop("align"@, b.text_align@),
    ];
    SpecNode {
        id: b.id,
        kind: if b.checked is Some { "switch"@ } else { "button"@ },
        props: match b.checked {
            Some(c) => base.push(text_prop("checked"@, bool_text(c))),
            None => base,
        },
        child_ids: Seq::empty(),
    }
}

/// The four geometry properties of a rectangle.
pub open spec fn geometry_props(r: Rect) -> Seq<SpecProp> {
    seq![num_prop("x"@, r.x), num_prop("y"@, r.y), num_prop("w"@, r.w), num_prop("h"@, r.h)]
}

/// `n` with the geometry of `r` appended.
pub open spec fn with_geometry(n: SpecNode, r: Rect) -> SpecNode {
    SpecNode { props: n.props + geometry_props(r), ..n }
}

/// The node an overlay reference to `id` stands for: the field or button with that id,
/// searched among the card's fields, the card's buttons, the background's fields and the
/// background's buttons, with its `weight` appended and, when `geometry` is set, its
/// rectangle. `None` when no object has the id.
pub open spec fn object_node_of(card: Card, bg: Option<Background>, id: u32, geometry: bool) -> Option<SpecNode> {
    let found: Option<(SpecNode, u32, Rect)> = match field_index(card.fields@, id) {
        Some(i) => Some((field_node_of(card.fields@[i]), card.fields@[i].weight, card.fields@[i].rect)),
        None => match button_index(card.buttons@, id) {
            Some(i) => Some((button_node_of(card.buttons@[i]), card.buttons@[i].weight, card.buttons@[i].rect)),
            None => match bg {
                Some(g) => match field_index(g.fields@, id) {
                    Some(i) => Some((field_node_of(g.fields@[i]), g.fields@[i].weight, g.fields@[i].rect)),
                    None => match button_index(g.buttons@, id) {
                        Some(i) => Some((button_node_of(g.buttons@[i]), g.buttons@[i].weight, g.buttons@[i].rect)),
                        None => None,
                    },
                },
                None => None,
            },
        },
    };
    match found {
        Some((n, w, r)) => {
            let n1 = SpecNode { props: n.props.push(num_prop("weight"@, w)), ..n };
            Some(if geometry { with_geometry(n1, r) } else { n1 })
        },
        None => None,
    }
}

/// The number of groups nested anywhere in `children`.
pub open spec fn group_count(children: Seq<LayoutChild>) -> nat
    decreases children,
{
    if children.len() == 0 {
        0
    } else {
        let rest = children.subrange(1, children.len() as int);
        proof {
            assert(decreases_to!(children => rest));
        }
        match children[0] {
            LayoutChild::Object(_) => group_count(rest),
            LayoutChild::Group(g) => {
                proof {
                    assert(decreases_to!(children => children[0]));
                    assert(decreases_to!(children[0] => g));
                    assert(decreases_to!(g => g.children));
                    assert(decreases_to!(g.children => g.children@));
                }
                1 + group_count(g.children@) + group_count(rest)
            },
        }
    }
}

/// The props of a group node: its arrangement, padding, weight and column count.
pub open spec fn group_props(g: LayoutGroup) -> Seq<SpecProp> {
    seq![
        text_prop("mode"@, g.mode@),
        num_prop("padding"@, g.padding),
        num_prop("weight"@, g.weight),
        text_prop("columns"@, decimal(g.columns as nat)),
    ]
}

/// What the overlay `children` project to, allocating group ids upward from `next`: the
/// child ids in order, the nodes (each group after its own descendants), and the next
/// unused group id. References to ids that no object has are skipped.
pub open spec fn project(
    card: Card,
    bg: Option<Background>,
    children: Seq<LayoutChild>,
    next: int,
    geometry: bool,
) -> (Seq<u32>, Seq<SpecNode>, int)
    decreases children,
{
    if children.len() == 0 {
        (Seq::empty(), Seq::empty(), next)
    } else {
        let rest = children.subrange(1, children.len() as int);
        proof {
            assert(decreases_to!(children => rest));
        }
        match children[0] {
            LayoutChild::Object(id) => {
                let (ids, ns, nx) = project(card, bg, rest, next, geometry);
                match object_node_of(card, bg, id, geometry) {
                    Some(n) => (seq![n.id] + ids, seq![n] + ns, nx),
                    None => (ids, ns, nx),
                }
            },
            LayoutChild::Group(g) => {
                proof {
                    assert(decreases_to!(children => children[0]));
                    assert(decreases_to!(children[0] => g));
                    assert(decreases_to!(g => g.children));
                    assert(decreases_to!(g.children => g.children@));
                }
                let (cids, cns, n1) = project(card, bg, g.children@, next + 1, geometry);
                let gnode = SpecNode {
                    id: next as u32,
                    kind: "group"@,
                    props: group_props(g),
                    child_ids: cids,
                };
                let (ids, ns, nx) = project(card, bg, rest, n1, geometry);
                (seq![next as u32] + ids, cns.push(gnode) + ns, nx)
            },
        }
    }
}

/// Projection allocates exactly one id per group.
pub proof fn lemma_project_next(card: Card, bg: Option<Background>, children: Seq<LayoutChild>, next: int, geometry: bool)
    ensures
        project(card, bg, children, next, geometry).2 == next + group_count(children),
    decreases children,
{
    if children.len() > 0 {
        let rest = children.subrange(1, children.len() as int);
        assert(decreases_to!(children => rest));
        match children[0] {
            LayoutChild::Object(_) => {
                lemma_project_next(card, bg, rest, next, geometry);
            },
            LayoutChild::Group(g) => {
                assert(decreases_to!(children => children[0]));
                assert(decreases_to!(children[0] => g));
                assert(decreases_to!(g => g.children));
                assert(decreases_to!(g.children => g.children@));
                lemma_project_next(card, bg, g.children@, next + 1, geometry);
                let n1 = project(card, bg, g.children@, next + 1, geometry).2;
                lemma_project_next(card, bg, rest, n1, geometry);
            },
        }
    }
}

/// The kind of an object node is never `group`.
pub proof fn lemma_object_kinds_not_group()
    ensures
        "field"@ != "group"@,
        "button"@ != "group"@,
        "switch"@ != "group"@,
{
    reveal_strlit("field");
    reveal_strlit("button");
    reveal_strlit("switch");
    reveal_strlit("group");
    assert("field"@[0] != "group"@[0]);
}

/// An object node stands for an object on the card or its background, so its id is at
/// most the largest object id there, and it is not a group.
proof fn lemma_object_node_id(card: Card, bg: Option<Background>, id: u32, geometry: bool)
    ensures
        object_node_of(card, bg, id, geometry) matches Some(n) ==> n.kind != "group"@ && n.id == id && id
            <= max_object_id_on(card, bg),
{
    lemma_object_kinds_not_group();
    lemma_field_index(card.fields@, id);
    lemma_button_index(card.buttons@, id);
    lemma_max_field_id(card.fields@);
    lemma_max_button_id(card.buttons@);
    if let Some(g) = bg {
        lemma_field_index(g.fields@, id);
        lemma_button_index(g.buttons@, id);
        lemma_max_field_id(g.fields@);
        lemma_max_button_id(g.buttons@);
    }
}

/// What a projection makes: groups with the ids from `next` up to (not including) the
/// next unused id, and object nodes with ids of objects on the card or its background.
pub proof fn lemma_project_ids(card: Card, bg: Option<Background>, children: Seq<LayoutChild>, next: int, geometry: bool)
    requires
        0 <= next,
        next + group_count(children) <= u32::MAX,
    ensures
        ({
            let (ids, ns, nx) = project(card, bg, children, next, geometry);
            forall|k: int| 0 <= k < ns.len() ==> {
                ||| (#[trigger] ns[k]).kind == "group"@ && next <= ns[k].id < nx
                ||| ns[k].kind != "group"@ && ns[k].id <= max_object_id_on(card, bg)
            }
        }),
    decreases children,
{
    lemma_project_next(card, bg, children, next, geometry);
    if children.len() > 0 {
        let rest = children.subrange(1, children.len() as int);
        assert(decreases_to!(children => rest));
        match children[0] {
            LayoutChild::Object(id) => {
                lemma_project_ids(card, bg, rest, next, geometry);
                lemma_object_node_id(card, bg, id, geometry);
                let (ids, ns, nx) = project(card, bg, rest, next, geometry);
                match object_node_of(card, bg, id, geometry) {
                    Some(n) => {
                        let all = seq![n] + ns;
                        assert forall|k: int| 0 <= k < all.len() implies {
                            ||| (#[trigger] all[k]).kind == "group"@ && next <= all[k].id < nx
                            ||| all[k].kind != "group"@ && all[k].id <= max_object_id_on(card, bg)
                        } by {
                            if k > 0 {
                                assert(all[k] == ns[k - 1]);
                            }
                        }
                    },
                    None => {},
                }
            },
            LayoutChild::Group(g) => {
                assert(decreases_to!(children => children[0]));
                assert(decreases_to!(children[0] => g));
                assert(decreases_to!(g => g.children));
                assert(decreases_to!(g.children => g.children@));
                lemma_project_ids(card, bg, g.children@, next + 1, geometry);
                lemma_project_next(card, bg, g.children@, next + 1, geometry);
                let (cids, cns, n1) = project(card, bg, g.children@, next + 1, geometry);
                lemma_project_ids(card, bg, rest, n1, geometry);
                lemma_project_next(card, bg, rest, n1, geometry);
                let (ids, ns, nx) = project(card, bg, rest, n1, geometry);
                let gnode = SpecNode { id: next as u32, kind: "group"@, props: group_props(g), child_ids: cids };
                let all = cns.push(gnode) + ns;
                assert forall|k: int| 0 <= k < all.len() implies {
                    ||| (#[trigger] all[k]).kind == "group"@ && next <= all[k].id < nx
                    ||| all[k].kind != "group"@ && all[k].id <= max_object_id_on(card, bg)
                } by {
                    if k < cns.len() {
                        assert(all[k] == cns[k]);
                    } else if k == cns.len() {
                        assert(all[k] == gnode);
                    } else {
                        assert(all[k] == ns[k - cns.len() - 1]);
                    }
                }
            },
        }
    }
}

/// The background a card is drawn over, as a value.
pub open spec fn opt_bg(bg: Option<&Background>) -> Option<Background> {
    match bg {
        Some(b) => Some(*b),
        None => None,
    }
}

/// The largest object id on a card and its background; 0 when there is none.
pub open spec fn max_object_id_on(card: Card, bg: Option<Background>) -> u32 {
    let c = max_u32(max_field_id(card.fields@), max_button_id(card.buttons@));
    match bg {
        Some(g) => max_u32(c, max_u32(max_field_id(g.fields@), max_button_id(g.buttons@))),
        None => c,
    }
}

/// The largest object id on `card` and its background `bg`: group ids in the layout
/// overlay are allocated above it.
pub fn max_object_id(card: &Card, bg: Option<&Background>) -> (r: u32)
    ensures
        r == max_object_id_on(*card, opt_bg(bg)),
{
    let f = max_id_of_fields(&card.fields);
    let b = max_id_of_buttons(&card.buttons);
    let c = if f < b { b } else { f };
    match bg {
        Some(g) => {
            let gf = max_id_of_fields(&g.fields);
            let gb = max_id_of_buttons(&g.buttons);
            let m = if gf < gb { gb } else { gf };
            if c < m { m } else { c }
        },
        None => c,
    }
}

/// `"true"` or `"false"`.
pub fn bool_string(b: bool) -> (r: String)
    ensures
        r@ == bool_text(b),
{
    if b { owned("true") } else { owned("false") }
}

fn text_prop_of(key: &str, value: String) -> (r: Prop)
    ensures
        prop_v(r) == text_prop(key@, value@),
{
    Prop { key: owned(key), value: PropValue::Text(value) }
}

fn num_prop_of(key: &str, value: u32) -> (r: Prop)
    ensures
        prop_v(r) == num_prop(key@, value),
{
    Prop { key: owned(key), value: PropValue::Number(value) }
}

/// The node of a field (see `field_node_of`).
pub fn field_node(f: &Field) -> (r: ViewNode)
    ensures
        node_v(r) == field_node_of(*f),
{
    let mut props: Vec<Prop> = Vec::new();
    props.push(text_prop_of("text", f.text.clone()));
    props.push(text_prop_of("locked", bool_string(f.locked)));
    props.push(text_prop_of("visible", bool_string(f.visible)));
    props.push(text_prop_of("font", f.text_font.clone()));
    props.push(num_prop_of("size", f.text_size));
    props.push(text_prop_of("textStyle", f.text_style.clone()));
    props.push(text_prop_of("align", f.text_align.clone()));
    props.push(text_prop_of("textRole", f.text_role.clone()));
    let r = ViewNode { id: f.id, kind: owned("field"), props, child_ids: Vec::new() };
    assert(props_v(r.props@) =~= field_node_of(*f).props);
    r
}

/// The node of a button (see `button_node_of`).
pub fn button_node(b: &Button) -> (r: ViewNode)
    ensures
        node_v(r) == button_node_of(*b),
{
    let mut props: Vec<Prop> = Vec::new();
    props.push(text_prop_of("title", b.label().clone()));
    props.push(text_prop_of("style", crate::session::style_name(b.style)));
    props.push(text_prop_of("role", b.role.clone()));
    props.push(text_prop_of("visible", bool_string(b.visible)));
    props.push(text_prop_of("font", b.text_font.clone()));
    props.push(num_prop_of("size", b.text_size));
    props.push(text_prop_of("textStyle", b.text_style.clone()));
    props.push(text_prop_of("align", b.text_align.clone()));
    if let Some(c) = b.checked {
        props.push(text_prop_of("checked", bool_string(c)));
    }
    let kind = if b.checked.is_some() { owned("switch") } else { owned("button") };
    let r = ViewNode { id: b.id, kind, props, child_ids: Vec::new() };
    assert(props_v(r.props@) =~= button_node_of(*b).props);
    r
}

/// Appends the geometry of `rect` to the props of `node`.
fn push_geometry(node: &mut ViewNode, rect: Rect)
    ensures
        node_v(*final(node)) == with_geometry(node_v(*old(node)), rect),
{
    let ghost before = props_v(node.props@);
    node.props.push(num_prop_of("x", rect.x));
    node.props.push(num_prop_of("y", rect.y));
    node.props.push(num_prop_of("w", rect.w));
    node.props.push(num_prop_of("h", rect.h));
    assert(props_v(node.props@) =~= before + geometry_props(rect));
}

/// For a card without a layout overlay: gives `node` its absolute geometry and adds it as
/// a root.
pub fn push_free_node(nodes: &mut Vec<ViewNode>, roots: &mut Vec<u32>, node: ViewNode, rect: Rect)
    ensures
        nodes_v(final(nodes)@) == nodes_v(old(nodes)@).push(with_geometry(node_v(node), rect)),
        final(roots)@ == old(roots)@.push(node.id),
{
    let ghost given = node_v(node);
    let mut node = node;
    push_geometry(&mut node, rect);
    roots.push(node.id);
    let ghost before = nodes@;
    let ghost added = node_v(node);
    nodes.push(node);
    assert(nodes_v(nodes@) =~= nodes_v(before).push(added));
}

/// Appends a numeric `weight` property to `node`.
fn push_weight(node: &mut ViewNode, weight: u32)
    ensures
        node_v(*final(node)) == (SpecNode {
            props: node_v(*old(node)).props.push(num_prop("weight"@, weight)),
            ..node_v(*old(node))
        }),
{
    let ghost before = props_v(node.props@);
    node.props.push(num_prop_of("weight", weight));
    assert(props_v(node.props@) =~= before.push(num_prop("weight"@, weight)));
}

/// The node an overlay reference to `id` stands for (see `object_node_of`).
pub fn object_node(card: &Card, bg: Option<&Background>, id: u32, geometry: bool) -> (r: Option<ViewNode>)
    ensures
        match object_node_of(*card, opt_bg(bg), id, geometry) {
            Some(n) => r matches Some(v) && node_v(v) == n,
            None => r is None,
        },
{
    proof {
        lemma_field_index(card.fields@, id);
        lemma_button_index(card.buttons@, id);
        if let Some(g) = bg {
            lemma_field_index(g.fields@, id);
            lemma_button_index(g.buttons@, id);
        }
    }
    let found: Option<(ViewNode, u32, Rect)> = if let Some(i) = find_field(&card.fields, id) {
        let f = &card.fields[i];
        Some((field_node(f), f.weight, f.rect))
    } else if let Some(i) = find_button(&card.buttons, id) {
        let b = &card.buttons[i];
        Some((button_node(b), b.weight, b.rect))
    } else {
        match bg {
            Some(g) => {
                if let Some(i) = find_field(&g.fields, id) {
                    let f = &g.fields[i];
                    Some((field_node(f), f.weight, f.rect))
                } else if let Some(i) = find_button(&g.buttons, id) {
                    let b = &g.buttons[i];
                    Some((button_node(b), b.weight, b.rect))
                } else {
                    None
                }
            },
            None => None,
        }
    };
    match found {
        Some((node, weight, rect)) => {
            let mut node = node;
            push_weight(&mut node, weight);
            if geometry {
                push_geometry(&mut node, rect);
            }
            Some(node)
        },
        None => None,
    }
}

/// The node of a group with the given id and child ids.
fn group_node(g: &LayoutGroup, id: u32, child_ids: Vec<u32>) -> (r: ViewNode)
    ensures
        node_v(r) == (SpecNode { id, kind: "group"@, props: group_props(*g), child_ids: child_ids@ }),
{
    let mut columns = String::new();
    push_decimal(&mut columns, g.columns);
    assert(columns@ =~= decimal(g.columns as nat));
    let mut props: Vec<Prop> = Vec::new();
    props.push(text_prop_of("mode", g.mode.clone()));
    props.push(num_prop_of("padding", g.padding));
    props.push(num_prop_of("weight", g.weight));
    props.push(text_prop_of("columns", columns));
    let r = ViewNode { id, kind: owned("group"), props, child_ids };
    assert(props_v(r.props@) =~= group_props(*g));
    r
}

/// Projects `children[k..]` (see `project`), appending the nodes to `nodes` and returning
/// the child ids; group ids are taken from `next_group_id` upward.
fn project_from(
    card: &Card,
    bg: Option<&Background>,
    children: &Vec<LayoutChild>,
    k: usize,
    next_group_id: &mut u32,
    nodes: &mut Vec<ViewNode>,
    geometry: bool,
) -> (ids: Vec<u32>)
    requires
        k <= children@.len(),
        *old(next_group_id) + group_count(children@.subrange(k as int, children@.len() as int)) <= u32::MAX,
    ensures
        ({
            let (sids, sns, snx) = project(
                *card,
                opt_bg(bg),
                children@.subrange(k as int, children@.len() as int),
                *old(next_group_id) as int,
                geometry,
            );
            &&& ids@ == sids
            &&& nodes_v(final(nodes)@) == nodes_v(old(nodes)@) + sns
            &&& *final(next_group_id) == snx
        }),
    decreases children@.subrange(k as int, children@.len() as int),
{
    let ghost sub = children@.subrange(k as int, children@.len() as int);
    if k == children.len() {
        assert(nodes_v(nodes@) =~= nodes_v(nodes@) + Seq::<SpecNode>::empty());
        return Vec::new();
    }
    let ghost rest = children@.subrange(k + 1, children@.len() as int);
    assert(sub[0] == children@[k as int]);
    assert(sub.subrange(1, sub.len() as int) =~= rest);
    assert(decreases_to!(sub => rest)) by {
        assert(decreases_to!(sub => sub.subrange(1, sub.len() as int)));
    }
    let ghost before = nodes_v(nodes@);
    match &children[k] {
        LayoutChild::Object(id) => {
            let n = object_node(card, bg, *id, geometry);
            let mut this: Option<u32> = None;
            if let Some(node) = n {
                this = Some(node.id);
                nodes.push(node);
            }
            let ghost mid = nodes_v(nodes@);
            let mut ids = project_from(card, bg, children, k + 1, next_group_id, nodes, geometry);
            if let Some(i) = this {
                ids.insert(0, i);
            }
            proof {
                let (rids, rns, rnx) = project(*card, opt_bg(bg), rest, *old(next_group_id) as int, geometry);
                match object_node_of(*card, opt_bg(bg), *id, geometry) {
                    Some(sn) => {
                        assert(mid =~= before.push(sn));
                        assert(ids@ =~= seq![sn.id] + rids);
                        assert(nodes_v(nodes@) =~= before + (seq![sn] + rns));
                    },
                    None => {
                        assert(mid =~= before);
                    },
                }
            }
            ids
        },
        LayoutChild::Group(g) => {
            let gid = *next_group_id;
            *next_group_id = gid + 1;
            proof {
                assert(g.children@.subrange(0, g.children@.len() as int) =~= g.children@);
                assert(decreases_to!(sub => sub[0]));
                assert(decreases_to!(sub[0] => *g));
                assert(decreases_to!(*g => g.children));
                assert(decreases_to!(g.children => g.children@));
                lemma_project_next(*card, opt_bg(bg), g.children@, gid + 1, geometry);
            }
            let child_ids = project_from(card, bg, &g.children, 0, next_group_id, nodes, geometry);
            let ghost after_children = nodes_v(nodes@);
            nodes.push(group_node(g, gid, child_ids));
            let ghost mid = nodes_v(nodes@);
            let mut ids = project_from(card, bg, children, k + 1, next_group_id, nodes, geometry);
            ids.insert(0, gid);
            proof {
                let (cids, cns, n1) = project(*card, opt_bg(bg), g.children@, gid + 1, geometry);
                let gnode = SpecNode { id: gid, kind: "group"@, props: group_props(*g), child_ids: cids };
                let (rids, rns, rnx) = project(*card, opt_bg(bg), rest, n1, geometry);
                assert(mid =~= after_children.push(gnode));
                assert(ids@ =~= seq![gid] + rids);
                assert(nodes_v(nodes@) =~= before + (cns.push(gnode) + rns));
            }
            ids
        },
    }
}

/// Walks a layout group's children into nodes, appending them to `nodes` and returning
/// the child ids (see `project`); nested groups take ids from `next_group_id` upward, and
/// references to missing objects are skipped.
pub fn project_children(
    card: &Card,
    bg: Option<&Background>,
    children: &Vec<LayoutChild>,
    next_group_id: &mut u32,
    nodes: &mut Vec<ViewNode>,
    geometry: bool,
) -> (ids: Vec<u32>)
    requires
        *old(next_group_id) + group_count(children@) <= u32::MAX,
    ensures
        ({
            let (sids, sns, snx) = project(*card, opt_bg(bg), children@, *old(next_group_id) as int, geometry);
            &&& ids@ == sids
            &&& nodes_v(final(nodes)@) == nodes_v(old(nodes)@) + sns
            &&& *final(next_group_id) == snx
        }),
{
    assert(children@.subrange(0, children@.len() as int) =~= children@);
    project_from(card, bg, children, 0, next_group_id, nodes, geometry)
}

/// The nodes of fields placed freely: each with its geometry.
pub open spec fn free_field_nodes(fs: Seq<Field>) -> Seq<SpecNode> {
    fs.map_values(|f: Field| with_geometry(field_node_of(f), f.rect))
}

/// The nodes of buttons placed freely: each with its geometry.
pub open spec fn free_button_nodes(bs: Seq<Button>) -> Seq<SpecNode> {
    bs.map_values(|b: Button| with_geometry(button_node_of(b), b.rect))
}

pub open spec fn field_ids(fs: Seq<Field>) -> Seq<u32> {
    fs.map_values(|f: Field| f.id)
}

pub open spec fn button_ids(bs: Seq<Button>) -> Seq<u32> {
    bs.map_values(|b: Button| b.id)
}

/// Adds the fields `fs` as free root nodes, in order.
pub fn push_free_fields(nodes: &mut Vec<ViewNode>, roots: &mut Vec<u32>, fs: &Vec<Field>)
    ensures
        nodes_v(final(nodes)@) == nodes_v(old(nodes)@) + free_field_nodes(fs@),
        final(roots)@ == old(roots)@ + field_ids(fs@),
{
    let ghost n0 = nodes_v(nodes@);
    let ghost r0 = roots@;
    let mut k: usize = 0;
    while k < fs.len()
        invariant
            k <= fs.len(),
            nodes_v(nodes@) == n0 + free_field_nodes(fs@.take(k as int)),
            roots@ == r0 + field_ids(fs@.take(k as int)),
        decreases fs.len() - k,
    {
        let f = &fs[k];
        push_free_node(nodes, roots, field_node(f), f.rect);
        proof {
            assert(free_field_nodes(fs@.take(k + 1)) =~= free_field_nodes(fs@.take(k as int)).push(
                with_geometry(field_node_of(fs@[k as int]), fs@[k as int].rect),
            ));
            assert(field_ids(fs@.take(k + 1)) =~= field_ids(fs@.take(k as int)).push(fs@[k as int].id));
            assert(nodes_v(nodes@) =~= n0 + free_field_nodes(fs@.take(k + 1)));
            assert(roots@ =~= r0 + field_ids(fs@.take(k + 1)));
        }
        k += 1;
    }
    assert(fs@.take(fs.len() as int) =~= fs@);
}

/// Adds the buttons `bs` as free root nodes, in order.
pub fn push_free_buttons(nodes: &mut Vec<ViewNode>, roots: &mut Vec<u32>, bs: &Vec<Button>)
    ensures
        nodes_v(final(nodes)@) == nodes_v(old(nodes)@) + free_button_nodes(bs@),
        final(roots)@ == old(roots)@ + button_ids(bs@),
{
    let ghost n0 = nodes_v(nodes@);
    let ghost r0 = roots@;
    let mut k: usize = 0;
    while k < bs.len()
        invariant
            k <= bs.len(),
            nodes_v(nodes@) == n0 + free_button_nodes(bs@.take(k as int)),
            roots@ == r0 + button_ids(bs@.take(k as int)),
        decreases bs.len() - k,
    {
        let b = &bs[k];
        push_free_node(nodes, roots, button_node(b), b.rect);
        proof {
            assert(free_button_nodes(bs@.take(k + 1)) =~= free_button_nodes(bs@.take(k as int)).push(
                with_geometry(button_node_of(bs@[k as int]), bs@[k as int].rect),
            ));
            assert(button_ids(bs@.take(k + 1)) =~= button_ids(bs@.take(k as int)).push(bs@[k as int].id));
            assert(nodes_v(nodes@) =~= n0 + free_button_nodes(bs@.take(k + 1)));
            assert(roots@ =~= r0 + button_ids(bs@.take(k + 1)));
        }
        k += 1;
    }
    assert(bs@.take(bs.len() as int) =~= bs@);
}

/// The first property of `ps` keyed `key` has the value `v`.
pub open spec fn has_prop(ps: Seq<SpecProp>, key: Seq<char>, v: SpecValue) -> bool {
    exists|k: int|
        0 <= k < ps.len() && #[trigger] ps[k].key == key && ps[k].value == v && forall|j: int|
            0 <= j < k ==> ps[j].key != key
}

/// The text of a truth value as the views carry it.
pub open spec fn flag_text(b: bool) -> SpecValue {
    if b {
        SpecValue::Text("true"@)
    } else {
        SpecValue::Text("false"@)
    }
}

/// What a field's node reports of the field.
pub open spec fn reports_field(ps: Seq<SpecProp>, f: Field) -> bool {
    &&& has_prop(ps, "text"@, SpecValue::Text(f.text@))
    &&& has_prop(ps, "locked"@, flag_text(f.locked))
    &&& has_prop(ps, "visible"@, flag_text(f.visible))
    &&& has_prop(ps, "font"@, SpecValue::Text(f.text_font@))
    &&& has_prop(ps, "size"@, SpecValue::Number(f.text_size))
    &&& has_prop(ps, "textStyle"@, SpecValue::Text(f.text_style@))
    &&& has_prop(ps, "align"@, SpecValue::Text(f.text_align@))
    &&& has_prop(ps, "textRole"@, SpecValue::Text(f.text_role@))
}

/// What a button's node reports of the button: the title (the name when the title is
/// empty), the style, the role, the visibility, the text styling and, for a switch, its
/// state.
pub open spec fn reports_button(ps: Seq<SpecProp>, b: Button) -> bool {
    &&& has_prop(ps, "title"@, SpecValue::Text(if b.title@.len() == 0 { b.name@ } else { b.title@ }))
    &&& has_prop(ps, "style"@, SpecValue::Text(style_name_of(b.style)))
    &&& has_prop(ps, "role"@, SpecValue::Text(b.role@))
    &&& has_prop(ps, "visible"@, flag_text(b.visible))
    &&& has_prop(ps, "font"@, SpecValue::Text(b.text_font@))
    &&& has_prop(ps, "size"@, SpecValue::Number(b.text_size))
    &&& has_prop(ps, "textStyle"@, SpecValue::Text(b.text_style@))
    &&& has_prop(ps, "align"@, SpecValue::Text(b.text_align@))
    &&& (b.checked matches Some(c) ==> has_prop(ps, "checked"@, flag_text(c)))
}

/// `ps` extended at the end still reports the same first values.
proof fn lemma_has_prop_prefix(ps: Seq<SpecProp>, more: Seq<SpecProp>, key: Seq<char>, v: SpecValue)
    requires
        has_prop(ps, key, v),
    ensures
        has_prop(ps + more, key, v),
{
    let k = choose|k: int|
        0 <= k < ps.len() && #[trigger] ps[k].key == key && ps[k].value == v && forall|j: int|
            0 <= j < k ==> ps[j].key != key;
    assert((ps + more)[k].key == key);
}

/// A field's node reports the field: its text, lock, visibility ("true" exactly when the
/// field is visible), font, size, style, alignment and text role.
pub proof fn lemma_field_node_reports_field(f: Field)
    ensures
        field_node_of(f).id == f.id,
        field_node_of(f).kind == "field"@,
        reports_field(field_node_of(f).props, f),
{
    let ps = field_node_of(f).props;
    reveal_strlit("align");
    reveal_strlit("checked");
    reveal_strlit("false");
    reveal_strlit("font");
    reveal_strlit("h");
    reveal_strlit("locked");
    reveal_strlit("role");
    reveal_strlit("size");
    reveal_strlit("style");
    reveal_strlit("text");
    reveal_strlit("textRole");
    reveal_strlit("textStyle");
    reveal_strlit("title");
    reveal_strlit("true");
    reveal_strlit("visible");
    reveal_strlit("w");
    reveal_strlit("weight");
    reveal_strlit("x");
    reveal_strlit("y");
    assert("align"@.len() == 5);
    assert("checked"@.len() == 7);
    assert("false"@.len() == 5);
    assert("font"@.len() == 4);
    assert("h"@.len() == 1);
    assert("locked"@.len() == 6);
    assert("role"@.len() == 4);
    assert("size"@.len() == 4);
    assert("style"@.len() == 5);
    assert("text"@.len() == 4);
    assert("textRole"@.len() == 8);
    assert("textStyle"@.len() == 9);
    assert("title"@.len() == 5);
    assert("true"@.len() == 4);
    assert("visible"@.len() == 7);
    assert("w"@.len() == 1);
    assert("weight"@.len() == 6);
    assert("x"@.len() == 1);
    assert("y"@.len() == 1);
    assert("align"@[0] != "style"@[0]);
    assert("align"@[0] != "title"@[0]);
    assert("checked"@[0] != "visible"@[0]);
    assert("font"@[0] != "role"@[0]);
    assert("font"@[0] != "text"@[0]);
    assert("h"@[0] != "w"@[0]);
    assert("h"@[0] != "x"@[0]);
    assert("h"@[0] != "y"@[0]);
    assert("size"@[0] != "font"@[0]);
    assert("size"@[0] != "role"@[0]);
    assert("size"@[0] != "text"@[0]);
    assert("style"@[0] != "title"@[0]);
    assert("w"@[0] != "x"@[0]);
    assert("w"@[0] != "y"@[0]);
    assert("weight"@[0] != "locked"@[0]);
    assert("y"@[0] != "x"@[0]);
    assert(ps[0].key == "text"@);
    assert(ps[1].key == "locked"@);
    assert(ps[2].key == "visible"@);
    assert(ps[3].key == "font"@);
    assert(ps[4].key == "size"@);
    assert(ps[5].key == "textStyle"@);
    assert(ps[6].key == "align"@);
    assert(ps[7].key == "textRole"@);
}

/// A button's node reports the button (see `reports_button`); a button with a `checked`
/// state is a `switch`.
pub proof fn lemma_button_node_reports_button(b: Button)
    ensures
        button_node_of(b).id == b.id,
        button_node_of(b).kind == (if b.checked is Some { "switch"@ } else { "button"@ }),
        reports_button(button_node_of(b).props, b),
{
    let ps = button_node_of(b).props;
    reveal_strlit("align");
    reveal_strlit("checked");
    reveal_strlit("false");
    reveal_strlit("font");
    reveal_strlit("h");
    reveal_strlit("locked");
    reveal_strlit("role");
    reveal_strlit("size");
    reveal_strlit("style");
    reveal_strlit("text");
    reveal_strlit("textRole");
    reveal_strlit("textStyle");
    reveal_strlit("title");
    reveal_strlit("true");
    reveal_strlit("visible");
    reveal_strlit("w");
    reveal_strlit("weight");
    reveal_strlit("x");
    reveal_strlit("y");
    assert("align"@.len() == 5);
    assert("checked"@.len() == 7);
    assert("false"@.len() == 5);
    assert("font"@.len() == 4);
    assert("h"@.len() == 1);
    assert("locked"@.len() == 6);
    assert("role"@.len() == 4);
    assert("size"@.len() == 4);
    assert("style"@.len() == 5);
    assert("text"@.len() == 4);
    assert("textRole"@.len() == 8);
    assert("textStyle"@.len() == 9);
    assert("title"@.len() == 5);
    assert("true"@.len() == 4);
    assert("visible"@.len() == 7);
    assert("w"@.len() == 1);
    assert("weight"@.len() == 6);
    assert("x"@.len() == 1);
    assert("y"@.len() == 1);
    assert("align"@[0] != "style"@[0]);
    assert("align"@[0] != "title"@[0]);
    assert("checked"@[0] != "visible"@[0]);
    assert("font"@[0] != "role"@[0]);
    assert("font"@[0] != "text"@[0]);
    assert("h"@[0] != "w"@[0]);
    assert("h"@[0] != "x"@[0]);
    assert("h"@[0] != "y"@[0]);
    assert("size"@[0] != "font"@[0]);
    assert("size"@[0] != "role"@[0]);
    assert("size"@[0] != "text"@[0]);
    assert("style"@[0] != "title"@[0]);
    assert("w"@[0] != "x"@[0]);
    assert("w"@[0] != "y"@[0]);
    assert("weight"@[0] != "locked"@[0]);
    assert("y"@[0] != "x"@[0]);
    assert(ps[0].key == "title"@);
    assert(ps[1].key == "style"@);
    assert(ps[2].key == "role"@);
    assert(ps[3].key == "visible"@);
    assert(ps[4].key == "font"@);
    assert(ps[5].key == "size"@);
    assert(ps[6].key == "textStyle"@);
    assert(ps[7].key == "align"@);
    if b.checked is Some {
        assert(ps[8].key == "checked"@);
    }
}

/// The node that stands for an object in the view tree reports that object: a field of
/// the card (searched first), else a button of the card, else a field or a button of the
/// background, whatever else (weight, geometry) the node carries after.
pub proof fn lemma_object_node_reports_object(card: Card, bg: Option<Background>, id: u32, geometry: bool)
    ensures
        ({
            let out = object_node_of(card, bg, id, geometry);
            match field_index(card.fields@, id) {
                Some(i) => out matches Some(n) && n.id == id && n.kind == "field"@ && reports_field(
                    n.props,
                    card.fields@[i],
                ),
                None => match button_index(card.buttons@, id) {
                    Some(i) => out matches Some(n) && n.id == id && reports_button(n.props, card.buttons@[i]),
                    None => match bg {
                        Some(g) => match field_index(g.fields@, id) {
                            Some(i) => out matches Some(n) && n.id == id && n.kind == "field"@ && reports_field(
                                n.props,
                                g.fields@[i],
                            ),
                            None => match button_index(g.buttons@, id) {
                                Some(i) => out matches Some(n) && n.id == id && reports_button(n.props, g.buttons@[i]),
                                None => out is None,
                            },
                        },
                        None => out is None,
                    },
                },
            }
        }),
{
    lemma_field_index(card.fields@, id);
    lemma_button_index(card.buttons@, id);
    let found: Option<(SpecNode, u32, Rect)> = match field_index(card.fields@, id) {
        Some(i) => Some((field_node_of(card.fields@[i]), card.fields@[i].weight, card.fields@[i].rect)),
        None => match button_index(card.buttons@, id) {
            Some(i) => Some((button_node_of(card.buttons@[i]), card.buttons@[i].weight, card.buttons@[i].rect)),
            None => match bg {
                Some(g) => match field_index(g.fields@, id) {
                    Some(i) => Some((field_node_of(g.fields@[i]), g.fields@[i].weight, g.fields@[i].rect)),
                    None => match button_index(g.buttons@, id) {
                        Some(i) => Some((button_node_of(g.buttons@[i]), g.buttons@[i].weight, g.buttons@[i].rect)),
                        None => None,
                    },
                },
                None => None,
            },
        },
    };
    if let Some(g) = bg {
        lemma_field_index(g.fields@, id);
        lemma_button_index(g.buttons@, id);
    }
    if let Some((n, w, r)) = found {
        let more = if geometry { seq![num_prop("weight"@, w)] + geometry_props(r) } else { seq![num_prop("weight"@, w)] };
        let out = object_node_of(card, bg, id, geometry)->Some_0;
        assert(out.props =~= n.props + more);
        match field_index(card.fields@, id) {
            Some(i) => {
                lemma_field_node_reports_field(card.fields@[i]);
                lemma_reports_field_prefix(n.props, more, card.fields@[i]);
            },
            None => match button_index(card.buttons@, id) {
                Some(i) => {
                    lemma_button_node_reports_button(card.buttons@[i]);
                    lemma_reports_button_prefix(n.props, more, card.buttons@[i]);
                },
                None => {
                    let g = bg->Some_0;
                    match field_index(g.fields@, id) {
                        Some(i) => {
                            lemma_field_node_reports_field(g.fields@[i]);
                            lemma_reports_field_prefix(n.props, more, g.fields@[i]);
                        },
                        None => {
                            let i = button_index(g.buttons@, id)->Some_0;
                            lemma_button_node_reports_button(g.buttons@[i]);
                            lemma_reports_button_prefix(n.props, more, g.buttons@[i]);
                        },
                    }
                },
            },
        }
    }
}

proof fn lemma_reports_field_prefix(ps: Seq<SpecProp>, more: Seq<SpecProp>, f: Field)
    requires
        reports_field(ps, f),
    ensures
        reports_field(ps + more, f),
{
    lemma_has_prop_prefix(ps, more, "text"@, SpecValue::Text(f.text@));
    lemma_has_prop_prefix(ps, more, "locked"@, flag_text(f.locked));
    lemma_has_prop_prefix(ps, more, "visible"@, flag_text(f.visible));
    lemma_has_prop_prefix(ps, more, "font"@, SpecValue::Text(f.text_font@));
    lemma_has_prop_prefix(ps, more, "size"@, SpecValue::Number(f.text_size));
    lemma_has_prop_prefix(ps, more, "textStyle"@, SpecValue::Text(f.text_style@));
    lemma_has_prop_prefix(ps, more, "align"@, SpecValue::Text(f.text_align@));
    lemma_has_prop_prefix(ps, more, "textRole"@, SpecValue::Text(f.text_role@));
}

proof fn lemma_reports_button_prefix(ps: Seq<SpecProp>, more: Seq<SpecProp>, b: Button)
    requires
        reports_button(ps, b),
    ensures
        reports_button(ps + more, b),
{
    lemma_has_prop_prefix(ps, more, "title"@, SpecValue::Text(if b.title@.len() == 0 { b.name@ } else { b.title@ }));
    lemma_has_prop_prefix(ps, more, "style"@, SpecValue::Text(style_name_of(b.style)));
    lemma_has_prop_prefix(ps, more, "role"@, SpecValue::Text(b.role@));
    lemma_has_prop_prefix(ps, more, "visible"@, flag_text(b.visible));
    lemma_has_prop_prefix(ps, more, "font"@, SpecValue::Text(b.text_font@));
    lemma_has_prop_prefix(ps, more, "size"@, SpecValue::Number(b.text_size));
    lemma_has_prop_prefix(ps, more, "textStyle"@, SpecValue::Text(b.text_style@));
    lemma_has_prop_prefix(ps, more, "align"@, SpecValue::Text(b.text_align@));
    if let Some(c) = b.checked {
        lemma_has_prop_prefix(ps, more, "checked"@, flag_text(c));
    }
}

} // verus!
