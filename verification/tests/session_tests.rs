//! Tests of the session facade over a small two-card stack built in code.

use hypercore::model::{Background, Button, ButtonStyle, Card, Field, LayoutChild, LayoutGroup, Rect, SafeInsets, Stack};
use hypercore::session::{
    field_hit, topmost_hit, DispatchResult, Hit, ObjectProps, PropsPatch, Session, TouchPlan,
};
use hypercore::script::ast::Layer;
use hypercore::script::lexer::Tok;
use hypercore::script::parser::ParseError;
use hypercore::script::interp::{locate_in_layer, Me, Pick};
use hypercore::session::{path_step, PathEnd, Place, RunOutcome};
use hypercore::view::{PropValue, ViewNode};
use hypercore::script::interp::HostCmd;

fn bits(v: f32) -> u32 {
    v.to_bits()
}

fn rect(x: f32, y: f32, w: f32, h: f32) -> Rect {
    Rect { x: bits(x), y: bits(y), w: bits(w), h: bits(h) }
}

fn field(id: u32, name: &str, r: Rect, text: &str, locked: bool) -> Field {
    Field {
        id,
        name: name.to_string(),
        rect: r,
        text: text.to_string(),
        locked,
        visible: true,
        script: String::new(),
        text_font: String::new(),
        text_size: bits(16.0),
        text_style: String::new(),
        text_align: String::new(),
        weight: 0,
        text_role: String::new(),
        content_description: String::new(),
        live_region: String::new(),
    }
}

fn button(id: u32, name: &str, r: Rect, script: &str) -> Button {
    Button {
        id,
        name: name.to_string(),
        rect: r,
        title: String::new(),
        style: ButtonStyle::Rounded,
        checked: None,
        control: String::new(),
        value: None,
        source: String::new(),
        visible: true,
        script: script.to_string(),
        text_font: String::new(),
        text_size: bits(16.0),
        text_style: String::new(),
        text_align: String::new(),
        weight: 0,
        role: String::new(),
        content_description: String::new(),
    }
}

fn card(id: u32, name: &str, background_id: Option<u32>, fields: Vec<Field>, buttons: Vec<Button>) -> Card {
    Card { id, name: name.to_string(), background_id, fields, buttons, script: String::new(), layout: None }
}

fn stack(name: &str, backgrounds: Vec<Background>, cards: Vec<Card>) -> Stack {
    Stack {
        name: name.to_string(),
        width: bits(320.0),
        height: bits(480.0),
        backgrounds,
        cards,
        script: String::new(),
        theme: String::new(),
        accent_color: String::new(),
        safe_insets: SafeInsets { top: 0, right: 0, bottom: 0, left: 0 },
    }
}

/// The two-card stack: card "First" with a locked counter field (10), an input field (11),
/// and the buttons "Inc" (20) and "Next" (21); an empty second card; one empty background.
fn sample_stack() -> Stack {
    let bg = Background { id: 1, name: "bg".to_string(), fields: vec![], buttons: vec![], script: String::new() };
    let first = card(
        1,
        "First",
        Some(1),
        vec![
            field(10, "counter", rect(10.0, 10.0, 100.0, 30.0), "0", true),
            field(11, "input", rect(10.0, 50.0, 100.0, 30.0), "", false),
        ],
        vec![
            button(20, "Inc", rect(10.0, 100.0, 80.0, 40.0), "on mouseUp\n  add 1 to field \"counter\"\nend mouseUp"),
            button(21, "Next", rect(10.0, 150.0, 80.0, 40.0), "on mouseUp\n  go next card\nend mouseUp"),
        ],
    );
    let second = card(2, "Second", Some(1), vec![], vec![]);
    stack("Test", vec![bg], vec![first, second])
}

fn sample() -> Session {
    match Session::from_stack(sample_stack()) {
        Ok(s) => s,
        Err(e) => panic!("{}", e),
    }
}

/// Which draw items of the current card hold the point (x, y): the host's part of a hit
/// test.
fn inside_at(s: &Session, x: f32, y: f32) -> (Vec<hypercore::session::DrawCmd>, Vec<bool>) {
    let items = s.render_current_card().items;
    let inside = items
        .iter()
        .map(|d| {
            let (l, t, w, h) = (f32::from_bits(d.x), f32::from_bits(d.y), f32::from_bits(d.w), f32::from_bits(d.h));
            x >= l && x <= l + w && y >= t && y <= t + h
        })
        .collect();
    (items, inside)
}

fn hit_at(s: &Session, x: f32, y: f32) -> Option<Hit> {
    let (items, inside) = inside_at(s, x, y);
    topmost_hit(&items, &inside)
}

fn object_at(s: &Session, x: f32, y: f32) -> Option<u32> {
    hit_at(s, x, y).map(|h| match h {
        Hit::Button(id) | Hit::EditableField(id) | Hit::LockedField(id) => id,
    })
}

fn text_of(s: &Session, id: u32) -> String {
    s.render_current_card().items.into_iter().find(|d| d.id == id).unwrap().text
}

#[test]
fn a_stack_without_cards_is_refused() {
    let e = Session::from_stack(stack("Empty", vec![], vec![])).err().unwrap();
    assert_eq!(e, "stack has no cards");
}

#[test]
fn render_draws_background_then_card_in_order() {
    let mut st = sample_stack();
    st.backgrounds[0].fields.push(field(30, "title", rect(0.0, 0.0, 320.0, 20.0), "Header", true));
    st.backgrounds[0].buttons.push(button(31, "Home", rect(0.0, 440.0, 60.0, 40.0), ""));
    let s = Session::from_stack(st).ok().unwrap();
    let r = s.render_current_card();
    let ids: Vec<u32> = r.items.iter().map(|d| d.id).collect();
    assert_eq!(ids, vec![30, 31, 10, 11, 20, 21]);
    assert_eq!(r.card_name, "First");
    assert_eq!(r.stack_name, "Test");
    assert_eq!(r.card_index, 0);
    assert_eq!(r.card_count, 2);
    assert_eq!(r.items[0].kind, "field");
    assert_eq!(r.items[1].kind, "button");
    assert_eq!(r.items[1].style, "rounded");
    assert_eq!(r.items[1].text, "Home");
    assert!(r.items[0].locked);
    assert_eq!(f32::from_bits(r.width), 320.0);
}

#[test]
fn switch_text_shows_its_state() {
    let mut st = sample_stack();
    st.cards[0].buttons[0].checked = Some(true);
    st.cards[0].buttons[1].checked = Some(false);
    st.cards[0].buttons[1].title = "Wi-Fi".to_string();
    let s = Session::from_stack(st).ok().unwrap();
    assert_eq!(text_of(&s, 20), "\u{2611} Inc");
    assert_eq!(text_of(&s, 21), "\u{2610} Wi-Fi");
}

#[test]
fn goto_card_clamps_and_restores_index() {
    let mut s = sample();
    s.select_card(1);
    assert_eq!(s.card_index(), 1);
    assert_eq!(s.render_current_card().card_name, "Second");
    s.select_card(999);
    assert_eq!(s.card_index(), s.card_count() - 1);
}

#[test]
fn editable_field_requests_focus() {
    let mut s = sample();
    let hit = hit_at(&s, 20.0, 60.0);
    assert_eq!(hit, Some(Hit::EditableField(11)));
    assert_eq!(s.plan_touch("up", hit), TouchPlan::Focus(11));
}

#[test]
fn touch_plans() {
    let mut s = sample();
    let on_button = hit_at(&s, 20.0, 120.0);
    assert_eq!(s.plan_touch("up", on_button), TouchPlan::MouseUp(Me::Button(20)));
    assert_eq!(s.plan_touch("tap", on_button), TouchPlan::MouseUp(Me::Button(20)));
    assert_eq!(s.plan_touch("down", on_button), TouchPlan::Nothing);
    let on_locked = hit_at(&s, 20.0, 25.0);
    assert_eq!(on_locked, Some(Hit::LockedField(10)));
    assert_eq!(s.plan_touch("up", on_locked), TouchPlan::MouseUp(Me::Field(10)));
    assert_eq!(s.plan_touch("up", None), TouchPlan::Nothing);
}

#[test]
fn host_set_field_text_persists() {
    let mut s = sample();
    assert!(s.set_field_text(11, "hello"));
    assert_eq!(text_of(&s, 11), "hello");
    assert!(!s.set_field_text(20, "not a field"));
    assert!(!s.set_field_text(999, "nothing"));
}

#[test]
fn object_at_returns_topmost_id() {
    let s = sample();
    assert_eq!(object_at(&s, 20.0, 120.0), Some(20));
    assert_eq!(object_at(&s, 20.0, 25.0), Some(10));
    assert_eq!(object_at(&s, 300.0, 300.0), None);
}

#[test]
fn hidden_objects_are_not_hit_and_later_ones_are_on_top() {
    let mut st = sample_stack();
    st.cards[0].buttons.push(button(22, "Over", rect(10.0, 100.0, 80.0, 40.0), ""));
    st.cards[0].buttons[0].visible = false;
    let s = Session::from_stack(st).ok().unwrap();
    assert_eq!(object_at(&s, 20.0, 120.0), Some(22));
    assert_eq!(field_hit(7, true), Hit::LockedField(7));
    assert_eq!(field_hit(7, false), Hit::EditableField(7));
}

#[test]
fn get_and_set_object_script() {
    let mut s = sample();
    assert!(s.get_object_script(20).unwrap().contains("add 1 to field"));
    assert!(s.get_object_script(999).is_none());
    assert!(s.set_object_script(20, "on mouseUp\n  subtract 1 from field \"counter\"\nend mouseUp"));
    assert_eq!(s.get_object_script(20).unwrap(), "on mouseUp\n  subtract 1 from field \"counter\"\nend mouseUp");
    assert!(s.set_object_script(10, "on mouseUp\n  beep\nend mouseUp"));
    assert_eq!(s.get_object_script(10).unwrap(), "on mouseUp\n  beep\nend mouseUp");
    assert!(!s.set_object_script(999, "on mouseUp\nend mouseUp"));
}

#[test]
fn check_script_flags_parse_errors() {
    assert!(Session::check_script("on mouseUp\n  beep\nend mouseUp").is_none());
    assert!(Session::check_script("on mouseUp\n  if 1 < 2\n    beep\nend mouseUp").is_some());
}

#[test]
fn unterminated_string_is_reported_by_check_script() {
    let e = Session::check_script("on mouseUp\n  put \"oops into field x\nend mouseUp");
    assert!(matches!(e, Some(ParseError::Lex(m)) if m == "unterminated string literal"));
}

#[test]
fn add_delete_object_round_trips() {
    let mut s = sample();
    let before = s.render_current_card().items.len();
    let id = s.add_object("button").unwrap();
    assert!(id > 21, "new id should exceed existing ids");
    assert_eq!(id, 22);
    assert_eq!(s.render_current_card().items.len(), before + 1);
    assert_eq!(object_at(&s, 30.0, 95.0), Some(id));
    assert!(s.delete_object(id));
    assert_eq!(s.render_current_card().items.len(), before);
    assert!(!s.delete_object(id));
    assert!(s.add_object("widget").is_none());
}

#[test]
fn new_objects_have_their_defaults() {
    let mut s = sample();
    let id = s.add_object("field").unwrap();
    let p = s.object_props(id).unwrap();
    assert_eq!(p.kind, "field");
    assert_eq!(p.name, format!("Field {}", id));
    assert_eq!(f32::from_bits(p.x), 20.0);
    assert_eq!(f32::from_bits(p.y), 80.0);
    assert_eq!(f32::from_bits(p.w), 200.0);
    assert_eq!(f32::from_bits(p.h), 36.0);
    assert_eq!(f32::from_bits(p.text_size), 16.0);
    assert!(!p.locked);
    let b = s.add_object("button").unwrap();
    assert_eq!(b, id + 1);
    let p = s.object_props(b).unwrap();
    assert_eq!(p.name, "Button 23");
    assert_eq!(p.title, "Button");
    assert_eq!(p.style, "rounded");
    assert_eq!(f32::from_bits(p.w), 120.0);
    assert_eq!(f32::from_bits(p.h), 44.0);
}

#[test]
fn delete_object_removes_from_background_when_not_on_card() {
    let mut st = sample_stack();
    st.backgrounds[0].buttons.push(button(40, "Shared", rect(0.0, 0.0, 10.0, 10.0), ""));
    let mut s = Session::from_stack(st).ok().unwrap();
    assert_eq!(s.render_current_card().items.len(), 5);
    assert!(s.delete_object(40));
    assert_eq!(s.render_current_card().items.len(), 4);
    assert!(s.stack().backgrounds[0].buttons.is_empty());
}

#[test]
fn set_object_rect_moves() {
    let mut s = sample();
    assert!(s.set_object_rect(20, rect(200.0, 300.0, 12.0, 12.0)));
    let p = s.object_props(20).unwrap();
    assert_eq!(f32::from_bits(p.x), 200.0);
    assert_eq!(f32::from_bits(p.y), 300.0);
    assert_eq!(f32::from_bits(p.w), 12.0);
    assert!(!s.set_object_rect(999, rect(0.0, 0.0, 50.0, 50.0)));
}

#[test]
fn props_patch_sets_button_and_field_props() {
    let mut s = sample();
    let patch = PropsPatch {
        name: Some("Plus".to_string()),
        title: Some("+1".to_string()),
        style: Some("Rectangle".to_string()),
        text: Some("ignored for a button".to_string()),
        locked: None,
        text_font: None,
        text_size: None,
        text_style: None,
        text_align: None,
    };
    assert!(s.apply_props_patch(20, &patch));
    let p = s.object_props(20).unwrap();
    assert_eq!(p.name, "Plus");
    assert_eq!(p.title, "+1");
    assert_eq!(p.style, "rectangle");
    let patch = PropsPatch {
        name: None,
        title: None,
        style: None,
        text: Some("hi".to_string()),
        locked: Some(true),
        text_font: None,
        text_size: Some(20.0f32.to_bits()),
        text_style: Some("underline".to_string()),
        text_align: None,
    };
    assert!(s.apply_props_patch(11, &patch));
    let p = s.object_props(11).unwrap();
    assert_eq!(p.text, "hi");
    assert!(p.locked);
    assert_eq!(p.text_style, "underline");
    assert_eq!(f32::from_bits(p.text_size), 20.0);
    let empty = PropsPatch {
        name: None,
        title: None,
        style: None,
        text: None,
        locked: None,
        text_font: None,
        text_size: None,
        text_style: None,
        text_align: None,
    };
    assert!(!s.apply_props_patch(999, &empty));
}

#[test]
fn typed_object_props_read_and_apply() {
    let mut s = sample();
    let mut p = s.object_props(20).unwrap();
    assert_eq!(p.kind, "button");
    assert_eq!(p.name, "Inc");
    p.title = "Plus".to_string();
    p.style = "rectangle".to_string();
    p.text_size = 22.0f32.to_bits();
    assert!(s.apply_object_props(&p));
    let p2 = s.object_props(20).unwrap();
    assert_eq!(p2.title, "Plus");
    assert_eq!(p2.style, "rectangle");
    assert_eq!(f32::from_bits(p2.text_size), 22.0);

    let mut f = s.object_props(11).unwrap();
    assert_eq!(f.kind, "field");
    f.locked = true;
    f.text = "hi".to_string();
    assert!(s.apply_object_props(&f));
    let f2 = s.object_props(11).unwrap();
    assert!(f2.locked);
    assert_eq!(f2.text, "hi");

    assert!(s.object_props(999).is_none());
    assert!(!s.apply_object_props(&ObjectProps { id: 999, ..p2 }));
}

#[test]
fn reading_then_applying_props_changes_nothing() {
    let mut s = sample();
    let before = s.render_current_card();
    let p = s.object_props(21).unwrap();
    assert!(s.apply_object_props(&p));
    let after = s.render_current_card();
    let b = before.items.iter().find(|d| d.id == 21).unwrap();
    let a = after.items.iter().find(|d| d.id == 21).unwrap();
    assert_eq!(a.text, b.text);
    assert_eq!(a.style, b.style);
    assert_eq!(a.text_size, b.text_size);
    assert_eq!(s.get_object_script(21).unwrap(), "on mouseUp\n  go next card\nend mouseUp");
}

#[test]
fn switch_auto_toggles_before_handler() {
    let mut st = sample_stack();
    st.cards[0].buttons[0].checked = Some(false);
    let mut s = Session::from_stack(st).ok().unwrap();
    let hit = hit_at(&s, 20.0, 120.0);
    assert_eq!(s.plan_touch("up", hit), TouchPlan::MouseUp(Me::Button(20)));
    assert!(s.object_props(20).unwrap().checked);
    assert_eq!(s.object_props(20).unwrap().kind, "switch");
    s.toggle_if_switch(20);
    assert!(!s.object_props(20).unwrap().checked);
    // A plain button does not become a switch.
    s.toggle_if_switch(21);
    assert_eq!(s.object_props(21).unwrap().kind, "button");
}

#[test]
fn dispatch_by_id_matches_touch() {
    let mut by_touch = sample();
    let mut by_id = sample();
    let hit = hit_at(&by_touch, 20.0, 120.0);
    let touch = by_touch.plan_touch("up", hit);
    let id = by_id.plan_by_id(20, "mouseUp");
    assert_eq!(touch, TouchPlan::MouseUp(id.unwrap()));
}

#[test]
fn dispatch_by_id_unknown_is_noop() {
    let mut s = sample();
    assert!(s.plan_by_id(999, "mouseUp").is_none());
    let r = DispatchResult::nothing();
    assert!(r.error.is_none());
    assert!(!r.needs_redraw);
    assert!(!r.card_changed);
    assert!(!r.handled);
    assert!(r.host_cmds.is_empty());
}

#[test]
fn message_path_runs_object_card_background_stack() {
    let mut st = sample_stack();
    st.cards[0].script = "card script".to_string();
    st.backgrounds[0].script = "bg script".to_string();
    st.script = "stack script".to_string();
    let s = Session::from_stack(st).ok().unwrap();
    let path = s.collect_path(Some(Me::Button(20)));
    let mes: Vec<Me> = path.iter().map(|(_, m)| *m).collect();
    assert_eq!(mes, vec![Me::Button(20), Me::Card, Me::Background(1), Me::Stack]);
    assert_eq!(path[1].0, "card script");
    assert_eq!(path[2].0, "bg script");
    assert_eq!(path[3].0, "stack script");
    let path = s.collect_path(None);
    assert_eq!(path.len(), 3);
    let path = s.collect_path(Some(Me::Button(999)));
    assert_eq!(path.len(), 3);
}

#[test]
fn me_for_id_prefers_card_objects() {
    let s = sample();
    assert_eq!(s.me_for_id(20), Some(Me::Button(20)));
    assert_eq!(s.me_for_id(10), Some(Me::Field(10)));
    assert_eq!(s.me_for_id(5), None);
}

#[test]
fn set_insets_are_kept() {
    let mut s = sample();
    s.set_insets(1, 2, 3, 4);
    let i = s.stack().safe_insets;
    assert_eq!((i.top, i.right, i.bottom, i.left), (1, 2, 3, 4));
}

#[test]
fn layout_overlay_children_can_reference_objects() {
    let mut st = sample_stack();
    st.cards[0].layout = Some(LayoutGroup {
        mode: "column".to_string(),
        padding: 0,
        weight: 0,
        columns: 0,
        children: vec![LayoutChild::Object(10)],
    });
    let s = Session::from_stack(st).ok().unwrap();
    assert_eq!(s.render_view_tree().root_ids, vec![10]);
}

#[test]
fn objects_are_found_by_id_or_name() {
    let s = sample();
    assert_eq!(s.rect_by_key(None, "INC"), Some(rect(10.0, 100.0, 80.0, 40.0)));
    assert_eq!(s.rect_by_key(Some(11), "11"), Some(rect(10.0, 50.0, 100.0, 30.0)));
    assert_eq!(s.rect_by_key(None, "nothing"), None);
}

#[test]
fn script_references_locate_objects_in_their_layer() {
    let st = sample_stack();
    assert!(matches!(locate_in_layer(&st, 0, true, Layer::Card, &Pick::Number(2)), Ok(Place::Card(1))));
    assert!(matches!(
        locate_in_layer(&st, 0, false, Layer::Card, &Pick::Name("NEXT".to_string())),
        Ok(Place::Card(1))
    ));
    match locate_in_layer(&st, 0, true, Layer::Card, &Pick::Number(3)) {
        Err(m) => assert_eq!(m, "object number out of range: 3"),
        Ok(_) => panic!("expected an error"),
    }
    match locate_in_layer(&st, 0, true, Layer::Card, &Pick::Name("nope".to_string())) {
        Err(m) => assert_eq!(m, "no object named \"nope\""),
        Ok(_) => panic!("expected an error"),
    }
    match locate_in_layer(&st, 1, true, Layer::Background, &Pick::Number(1)) {
        Err(m) => assert_eq!(m, "object number out of range: 1"),
        Ok(_) => panic!("expected an error"),
    }
}

fn expected_at(src: &str) -> (String, Tok) {
    match Session::check_script(src) {
        Some(ParseError::Expected(what, tok)) => (what, tok),
        other => panic!("expected an `Expected` error, got {other:?}"),
    }
}

#[test]
fn parse_errors_name_what_was_expected_and_found() {
    let (w, t) = expected_at("on mouseUp\n  if 1 < 2\n    beep\nend mouseUp");
    assert_eq!(w, "'then'");
    assert!(matches!(t, Tok::Word(x) if x == "beep"));
    let (w, t) = expected_at("on mouseUp\n  put (1\nend mouseUp");
    assert_eq!(w, "')'");
    assert!(matches!(t, Tok::Newline));
    assert!(matches!(
        Session::check_script("on mouseUp\n  put * 2\nend mouseUp"),
        Some(ParseError::Unexpected(Tok::Star))
    ));
    let (w, t) = expected_at("on \"go\"\nend go");
    assert_eq!(w, "a word");
    assert!(matches!(t, Tok::Str(x) if x == "go"));
    let (w, t) = expected_at("on mouseUp\n  set the name of 007.250 to 4\nend mouseUp");
    assert_eq!(w, "an object");
    assert!(matches!(t, Tok::Number(n) if n == "007.250"));
    let (w, t) = expected_at("mouseUp");
    assert_eq!(w, "'on'");
    assert!(matches!(t, Tok::Word(x) if x == "mouseUp"));
    let (w, t) = expected_at("on mouseUp\n  repeat with i 1 to 3\n  end repeat\nend mouseUp");
    assert_eq!(w, "'='");
    assert!(matches!(t, Tok::Number(n) if n == "1"));
    let (w, _) = expected_at("on mouseUp\n  put 1 into card 2\nend mouseUp");
    assert_eq!(w, "a statement");
}

#[test]
fn the_walk_stops_at_the_first_handler_that_ran_or_failed() {
    assert!(matches!(path_step(Ok(true)), Some(PathEnd::Handled)));
    assert!(path_step(Ok(false)).is_none());
    assert!(matches!(path_step(Err("boom".to_string())), Some(PathEnd::Failed(e)) if e == "boom"));

    let mut s = sample();
    let r = s.finish_dispatch(RunOutcome { card_index: 1, host: vec![HostCmd::Beep], end: PathEnd::Handled });
    assert!(r.handled && r.error.is_none() && r.card_changed && r.needs_redraw);
    assert_eq!(s.card_index(), 1);
    let r = s.finish_dispatch(RunOutcome { card_index: 1, host: vec![], end: PathEnd::Failed("bad".to_string()) });
    assert!(!r.handled && !r.card_changed && !r.needs_redraw);
    assert_eq!(r.error.as_deref(), Some("bad"));
    let r = s.finish_dispatch(RunOutcome { card_index: 1, host: vec![], end: PathEnd::NotHandled });
    assert!(!r.handled && r.error.is_none());
}

fn prop(n: &ViewNode, key: &str) -> String {
    match n.props.iter().find(|p| p.key == key).map(|p| &p.value) {
        Some(PropValue::Text(s)) => s.clone(),
        _ => String::new(),
    }
}

#[test]
fn view_tree_shape() {
    let s = sample();
    let t = s.render_view_tree();
    assert_eq!(t.card_count, 2);
    assert_eq!(t.card_name, "First");
    // Render order: empty background, then card fields (10, 11), then card buttons (20, 21).
    assert_eq!(t.root_ids, vec![10, 11, 20, 21]);

    let counter = t.nodes.iter().find(|n| n.id == 10).unwrap();
    assert_eq!(counter.kind, "field");
    assert_eq!(prop(counter, "text"), "0");
    assert_eq!(prop(counter, "locked"), "true");

    let inc = t.nodes.iter().find(|n| n.id == 20).unwrap();
    assert_eq!(inc.kind, "button");
    assert_eq!(prop(inc, "title"), "Inc");
    assert_eq!(prop(inc, "style"), "rounded");
}

/// With a layout overlay the view tree carries no geometry; only the `free`
/// arrangement (a card without an overlay) places objects by their rectangles.
#[test]
fn view_tree_omits_geometry() {
    let mut st = sample_stack();
    st.cards[0].layout = Some(LayoutGroup {
        mode: "column".to_string(),
        padding: 0,
        weight: 0,
        columns: 0,
        children: vec![LayoutChild::Object(10), LayoutChild::Object(11), LayoutChild::Object(20), LayoutChild::Object(21)],
    });
    let s = match Session::from_stack(st) {
        Ok(s) => s,
        Err(e) => panic!("{e}"),
    };
    let t = s.render_view_tree();
    for n in &t.nodes {
        for p in &n.props {
            assert!(!matches!(p.key.as_str(), "x" | "y" | "w" | "h" | "rect"), "view node leaked geometry prop {:?}", p.key);
        }
    }
}

/// A card without a layout overlay is laid out `free`: the objects in render order, no
/// padding and no groups.
#[test]
fn view_tree_no_layout_is_flat() {
    let s = sample();
    let t = s.render_view_tree();
    assert_eq!(t.layout, "free");
    assert_eq!(t.padding, 0);
    assert_eq!(t.root_ids, vec![10, 11, 20, 21]);
    assert!(t.nodes.iter().all(|n| n.kind != "group"));
}

#[test]
fn set_object_rect_moves_and_clamps() {
    let mut s = sample();
    // Move the "Inc" button (id 20) and shrink it below the minimum size; the host clamps
    // width and height to 12 before handing the rectangle over.
    let (w, h) = (1.0f32.max(12.0), 1.0f32.max(12.0));
    assert!(s.set_object_rect(20, rect(200.0, 300.0, w, h)));
    let p = match s.locate_button(20) {
        Some(p) => p,
        None => panic!("button 20 is gone"),
    };
    let b = s.button(p);
    assert_eq!(f32::from_bits(b.rect.x), 200.0);
    assert_eq!(f32::from_bits(b.rect.y), 300.0);
    assert!(f32::from_bits(b.rect.w) >= 12.0, "width clamped to minimum");
    assert!(!s.set_object_rect(999, rect(0.0, 0.0, 50.0, 50.0)));
}
