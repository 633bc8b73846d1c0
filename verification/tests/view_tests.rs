//! Tests of the semantic view tree.

use hypercore::model::{Button, ButtonStyle, Card, Field, LayoutChild, LayoutGroup, Rect, SafeInsets, Stack};
use hypercore::script::interp::set_card_layout;
use hypercore::session::Session;
use hypercore::view::{max_object_id, PropValue, ViewNode, ViewTree};

fn bits(v: f32) -> u32 {
    v.to_bits()
}

fn rect(x: f32, y: f32, w: f32, h: f32) -> Rect {
    Rect { x: bits(x), y: bits(y), w: bits(w), h: bits(h) }
}

fn field(id: u32, name: &str, text: &str, weight: f32) -> Field {
    Field {
        id,
        name: name.to_string(),
        rect: rect(0.0, 0.0, 10.0, 10.0),
        text: text.to_string(),
        locked: false,
        visible: true,
        script: String::new(),
        text_font: String::new(),
        text_size: bits(16.0),
        text_style: String::new(),
        text_align: String::new(),
        weight: bits(weight),
        text_role: String::new(),
        content_description: String::new(),
        live_region: String::new(),
    }
}

fn button(id: u32, name: &str, title: &str, r: Rect, weight: f32, checked: Option<bool>) -> Button {
    Button {
        id,
        name: name.to_string(),
        rect: r,
        title: title.to_string(),
        style: ButtonStyle::Rounded,
        checked,
        control: String::new(),
        value: None,
        source: String::new(),
        visible: true,
        script: String::new(),
        text_font: String::new(),
        text_size: bits(16.0),
        text_style: String::new(),
        text_align: String::new(),
        weight: bits(weight),
        role: String::new(),
        content_description: String::new(),
    }
}

fn group(mode: &str, padding: f32, columns: u32, children: Vec<LayoutChild>) -> LayoutGroup {
    LayoutGroup { mode: mode.to_string(), padding: bits(padding), weight: 0, columns, children }
}

fn one_card(fields: Vec<Field>, buttons: Vec<Button>, layout: Option<LayoutGroup>) -> Session {
    let card = Card {
        id: 1,
        name: "One".to_string(),
        background_id: None,
        fields,
        buttons,
        script: String::new(),
        layout,
    };
    let stack = Stack {
        name: "L".to_string(),
        width: bits(300.0),
        height: bits(400.0),
        backgrounds: vec![],
        cards: vec![card],
        script: String::new(),
        theme: "dark".to_string(),
        accent_color: "#6750A4".to_string(),
        safe_insets: SafeInsets { top: 0, right: 0, bottom: 0, left: 0 },
    };
    match Session::from_stack(stack) {
        Ok(s) => s,
        Err(e) => panic!("{}", e),
    }
}

fn text(n: &ViewNode, key: &str) -> String {
    match n.props.iter().find(|p| p.key == key).map(|p| &p.value) {
        Some(PropValue::Text(s)) => s.clone(),
        _ => String::new(),
    }
}

fn num(n: &ViewNode, key: &str) -> Option<f32> {
    match n.props.iter().find(|p| p.key == key).map(|p| &p.value) {
        Some(PropValue::Number(b)) => Some(f32::from_bits(*b)),
        _ => None,
    }
}

fn node(t: &ViewTree, id: u32) -> &ViewNode {
    t.nodes.iter().find(|n| n.id == id).unwrap()
}

/// A root column of [ row[field 10, button 20], field 11 ].
fn layout_session() -> Session {
    one_card(
        vec![field(10, "a", "A", 2.0), field(11, "b", "B", 0.0)],
        vec![button(20, "go", "Go", rect(0.0, 0.0, 10.0, 10.0), 1.0, None)],
        Some(group(
            "column",
            8.0,
            0,
            vec![
                LayoutChild::Group(group("row", 4.0, 0, vec![LayoutChild::Object(10), LayoutChild::Object(20)])),
                LayoutChild::Object(11),
            ],
        )),
    )
}

#[test]
fn view_tree_groups_nest() {
    let t = layout_session().render_view_tree();
    assert_eq!(t.layout, "column");
    assert_eq!(f32::from_bits(t.padding), 8.0);
    assert_eq!(t.root_ids, vec![21, 11]);
    let g = node(&t, 21);
    assert_eq!(g.kind, "group");
    assert_eq!(text(g, "mode"), "row");
    assert_eq!(num(g, "padding"), Some(4.0));
    assert_eq!(text(g, "columns"), "0");
    assert_eq!(g.child_ids, vec![10, 20]);
    let f10 = node(&t, 10);
    assert_eq!(f10.kind, "field");
    assert_eq!(num(f10, "weight"), Some(2.0));
    assert_eq!(num(node(&t, 20), "weight"), Some(1.0));
    // Each group follows its own children in the node list.
    let order: Vec<u32> = t.nodes.iter().map(|n| n.id).collect();
    assert_eq!(order, vec![10, 20, 21, 11]);
    assert_eq!(t.theme, "dark");
    assert_eq!(t.accent_color, "#6750A4");
}

#[test]
fn view_tree_skips_dangling_layout_ref() {
    let s = one_card(
        vec![field(10, "a", "", 0.0)],
        vec![],
        Some(group("row", 0.0, 0, vec![LayoutChild::Object(10), LayoutChild::Object(999)])),
    );
    let t = s.render_view_tree();
    assert_eq!(t.root_ids, vec![10]);
    assert!(t.nodes.iter().all(|n| n.id != 999));
}

#[test]
fn switch_projects_as_switch_kind() {
    let s = one_card(
        vec![],
        vec![
            button(20, "wifi", "Wi-Fi", rect(0.0, 0.0, 10.0, 10.0), 0.0, Some(false)),
            button(21, "plain", "", rect(0.0, 0.0, 10.0, 10.0), 0.0, None),
        ],
        None,
    );
    let t = s.render_view_tree();
    let sw = node(&t, 20);
    assert_eq!(sw.kind, "switch");
    assert_eq!(text(sw, "checked"), "false");
    assert_eq!(text(sw, "title"), "Wi-Fi");
    let plain = node(&t, 21);
    assert_eq!(plain.kind, "button");
    assert_eq!(text(plain, "title"), "plain");
    assert!(plain.props.iter().all(|p| p.key != "checked"));
}

#[test]
fn free_layout_emits_geometry() {
    let s = one_card(
        vec![],
        vec![button(20, "a", "A", rect(10.0, 20.0, 80.0, 40.0), 0.0, None)],
        Some(group("free", 0.0, 0, vec![LayoutChild::Object(20)])),
    );
    let t = s.render_view_tree();
    assert_eq!(t.layout, "free");
    assert_eq!(f32::from_bits(t.width), 300.0);
    assert_eq!(f32::from_bits(t.height), 400.0);
    let a = node(&t, 20);
    assert_eq!(num(a, "x"), Some(10.0));
    assert_eq!(num(a, "y"), Some(20.0));
    assert_eq!(num(a, "w"), Some(80.0));
    assert_eq!(num(a, "h"), Some(40.0));
}

#[test]
fn non_free_layout_still_omits_geometry() {
    let t = layout_session().render_view_tree();
    for n in &t.nodes {
        for p in &n.props {
            assert!(!matches!(p.key.as_str(), "x" | "y" | "w" | "h" | "rect"));
        }
    }
}

#[test]
fn grid_mode_projects_columns() {
    let s = one_card(
        vec![],
        vec![
            button(20, "a", "A", rect(0.0, 0.0, 10.0, 10.0), 0.0, None),
            button(21, "b", "B", rect(0.0, 0.0, 10.0, 10.0), 0.0, None),
        ],
        Some(group("grid", 0.0, 2, vec![LayoutChild::Object(20), LayoutChild::Object(21)])),
    );
    let t = s.render_view_tree();
    assert_eq!(t.layout, "grid");
    assert_eq!(t.columns, 2);
}

#[test]
fn no_layout_is_free_with_geometry_in_render_order() {
    let s = one_card(
        vec![field(10, "a", "A", 0.0)],
        vec![button(20, "go", "Go", rect(5.0, 6.0, 7.0, 8.0), 0.0, None)],
        None,
    );
    let t = s.render_view_tree();
    assert_eq!(t.layout, "free");
    assert_eq!(t.padding, 0);
    assert_eq!(t.columns, 0);
    assert_eq!(t.root_ids, vec![10, 20]);
    assert!(t.nodes.iter().all(|n| n.kind != "group"));
    assert_eq!(num(node(&t, 20), "x"), Some(5.0));
    assert_eq!(text(node(&t, 10), "text"), "A");
    assert_eq!(text(node(&t, 10), "locked"), "false");
    assert_eq!(num(node(&t, 10), "size"), Some(16.0));
}

#[test]
fn group_ids_start_above_the_largest_object_id() {
    let s = layout_session();
    let card = &s.stack().cards[0];
    assert_eq!(max_object_id(card, None), 20);
    let t = s.render_view_tree();
    for n in &t.nodes {
        if n.kind == "group" {
            assert!(n.id > 20);
        }
    }
}

#[test]
fn set_card_layout_via_script() {
    let mut s = one_card(
        vec![field(10, "a", "", 0.0), field(11, "b", "", 0.0)],
        vec![button(20, "go", "Go", rect(0.0, 0.0, 10.0, 10.0), 0.0, None)],
        None,
    );
    set_card_layout(s.stack_mut(), 0, "grid");
    let l = s.stack().cards[0].layout.as_ref().unwrap();
    assert_eq!(l.mode, "grid");
    assert_eq!(l.columns, 2);
    assert_eq!(l.padding, 0);
    let ids: Vec<u32> = l
        .children
        .iter()
        .map(|c| match c {
            LayoutChild::Object(id) => *id,
            LayoutChild::Group(_) => 0,
        })
        .collect();
    assert_eq!(ids, vec![10, 11, 20]);
    let t = s.render_view_tree();
    assert_eq!(t.layout, "grid");
    assert_eq!(t.root_ids, vec![10, 11, 20]);
}
