//! Tests of script-visible object, card and stack properties.

use hypercore::model::{Button, ButtonStyle, Card, Field, LayoutChild, Rect, SafeInsets, Stack};
use hypercore::script::props::{
    button_prop, card_prop, field_prop, is_geometry_prop, number_of, set_button_prop, set_card_prop,
    set_field_prop, set_stack_prop, stack_prop, Applied, PropInput, PropRead,
};

fn bits(v: f32) -> u32 {
    v.to_bits()
}

fn a_field() -> Field {
    Field {
        id: 11,
        name: "input".to_string(),
        rect: Rect { x: 0, y: 0, w: bits(100.0), h: bits(30.0) },
        text: "".to_string(),
        locked: false,
        visible: true,
        script: String::new(),
        text_font: String::new(),
        text_size: bits(16.0),
        text_style: String::new(),
        text_align: String::new(),
        weight: 0,
        text_role: String::new(),
        content_description: String::new(),
        live_region: String::new(),
    }
}

fn a_button() -> Button {
    Button {
        id: 20,
        name: "Inc".to_string(),
        rect: Rect { x: 0, y: 0, w: bits(80.0), h: bits(40.0) },
        title: String::new(),
        style: ButtonStyle::Rounded,
        checked: None,
        control: String::new(),
        value: None,
        source: String::new(),
        visible: true,
        script: String::new(),
        text_font: String::new(),
        text_size: bits(16.0),
        text_style: String::new(),
        text_align: String::new(),
        weight: 0,
        role: String::new(),
        content_description: String::new(),
    }
}

fn a_stack() -> Stack {
    let card = Card {
        id: 1,
        name: "First".to_string(),
        background_id: None,
        fields: vec![a_field()],
        buttons: vec![a_button()],
        script: String::new(),
        layout: None,
    };
    let second = Card {
        id: 2,
        name: "Second".to_string(),
        background_id: None,
        fields: vec![],
        buttons: vec![],
        script: String::new(),
        layout: None,
    };
    Stack {
        name: "Test".to_string(),
        width: bits(320.0),
        height: bits(480.0),
        backgrounds: vec![],
        cards: vec![card, second],
        script: String::new(),
        theme: String::new(),
        accent_color: String::new(),
        safe_insets: SafeInsets { top: bits(24.0), right: 0, bottom: bits(48.0), left: 0 },
    }
}

fn text(t: &str) -> PropInput {
    PropInput { text: t.to_string(), flag: t == "true", number: t.parse::<f32>().ok().map(f32::to_bits) }
}

fn as_text(r: PropRead) -> String {
    match r {
        PropRead::Text(s) => s,
        _ => panic!("not text"),
    }
}

fn as_real(r: PropRead) -> f32 {
    match r {
        PropRead::Real(b) => f32::from_bits(b),
        _ => panic!("not a number"),
    }
}

fn as_flag(r: PropRead) -> bool {
    match r {
        PropRead::Flag(b) => b,
        _ => panic!("not a flag"),
    }
}

#[test]
fn writes_and_reads_field_properties() {
    let mut f = a_field();
    assert_eq!(set_field_prop(&mut f, "Text", &text("hello")), Ok(Applied::Done));
    assert_eq!(as_text(field_prop(&f, "contents")), "hello");
    assert_eq!(set_field_prop(&mut f, "locked", &text("true")), Ok(Applied::Done));
    assert!(as_flag(field_prop(&f, "LOCKED")));
    assert_eq!(set_field_prop(&mut f, "textSize", &text("20")), Ok(Applied::Done));
    assert_eq!(as_real(field_prop(&f, "textsize")), 20.0);
    // A non-number leaves a numeric property alone.
    assert_eq!(set_field_prop(&mut f, "weight", &text("heavy")), Ok(Applied::Done));
    assert_eq!(as_real(field_prop(&f, "weight")), 0.0);
    assert_eq!(set_field_prop(&mut f, "weight", &text("2")), Ok(Applied::Done));
    assert_eq!(as_real(field_prop(&f, "weight")), 2.0);
    assert!(matches!(field_prop(&f, "id"), PropRead::Whole(11)));
    assert_eq!(as_text(field_prop(&f, "short name")), "input");
}

#[test]
fn text_style_properties_default_and_set_on_objects() {
    let mut f = a_field();
    assert_eq!(as_text(field_prop(&f, "textStyle")), "plain");
    assert_eq!(set_field_prop(&mut f, "textstyle", &text("bold,italic")), Ok(Applied::Done));
    assert_eq!(as_text(field_prop(&f, "textStyle")), "bold,italic");
    let b = a_button();
    assert_eq!(as_text(button_prop(&b, "textstyle")), "plain");
}

#[test]
fn geometry_properties_are_left_to_the_runtime() {
    let mut f = a_field();
    assert_eq!(set_field_prop(&mut f, "Loc", &text("10,20")), Ok(Applied::Geometry));
    assert!(matches!(field_prop(&f, "rect"), PropRead::Geometry));
    assert!(is_geometry_prop("bottom"));
    assert!(!is_geometry_prop("colour"));
}

#[test]
fn unknown_property_still_errors() {
    let mut f = a_field();
    assert_eq!(set_field_prop(&mut f, "bogus", &text("1")), Err("unknown field property 'bogus'".to_string()));
    let mut b = a_button();
    assert_eq!(set_button_prop(&mut b, "Bogus", &text("1")), Err("unknown button property 'bogus'".to_string()));
    assert!(matches!(field_prop(&f, "bogus"), PropRead::Empty));
}

#[test]
fn writes_button_properties() {
    let mut b = a_button();
    assert_eq!(as_text(button_prop(&b, "title")), "Inc");
    assert!(!as_flag(button_prop(&b, "checked")));
    assert_eq!(as_real(button_prop(&b, "value")), 0.0);
    assert_eq!(set_button_prop(&mut b, "label", &text("Plus")), Ok(Applied::Done));
    assert_eq!(as_text(button_prop(&b, "title")), "Plus");
    assert_eq!(as_text(button_prop(&b, "name")), "Inc");
    assert_eq!(set_button_prop(&mut b, "checked", &text("true")), Ok(Applied::Done));
    assert_eq!(b.checked, Some(true));
    assert_eq!(set_button_prop(&mut b, "value", &text("0.5")), Ok(Applied::Done));
    assert_eq!(as_real(button_prop(&b, "value")), 0.5);
    assert_eq!(set_button_prop(&mut b, "role", &text("filled")), Ok(Applied::Done));
    assert_eq!(as_text(button_prop(&b, "role")), "filled");
}

#[test]
fn card_and_stack_properties() {
    let mut s = a_stack();
    assert_eq!(as_text(card_prop(&s, 0, "name")), "First");
    assert!(matches!(card_prop(&s, 1, "number"), PropRead::Whole(2)));
    assert_eq!(as_real(card_prop(&s, 0, "safeTop")), 24.0);
    assert_eq!(as_text(card_prop(&s, 0, "layout")), "");
    assert_eq!(as_real(card_prop(&s, 0, "padding")), 0.0);
    assert!(matches!(stack_prop(&s, "number"), PropRead::Whole(2)));
    assert_eq!(as_real(stack_prop(&s, "safebottom")), 48.0);
    assert_eq!(set_card_prop(&mut s, 0, "name", &text("Start")), Ok(()));
    assert_eq!(as_text(card_prop(&s, 0, "name")), "Start");
    assert_eq!(set_stack_prop(&mut s, "theme", &text("dark")), Ok(()));
    assert_eq!(as_text(stack_prop(&s, "theme")), "dark");
}

#[test]
fn unknown_card_and_stack_property_errors() {
    let mut s = a_stack();
    assert_eq!(set_card_prop(&mut s, 0, "colour", &text("red")), Err("unknown card property 'colour'".to_string()));
    assert_eq!(set_stack_prop(&mut s, "Colour", &text("red")), Err("unknown stack property 'colour'".to_string()));
    assert!(matches!(card_prop(&s, 0, "colour"), PropRead::Empty));
}

#[test]
fn set_card_layout_and_padding_via_properties() {
    let mut s = a_stack();
    assert_eq!(set_card_prop(&mut s, 0, "padding", &text("8")), Ok(()));
    let l = s.cards[0].layout.as_ref().unwrap();
    assert_eq!(l.mode, "column");
    assert_eq!(f32::from_bits(l.padding), 8.0);
    assert_eq!(set_card_prop(&mut s, 0, "layout", &text("ROW")), Ok(()));
    assert_eq!(as_text(card_prop(&s, 0, "layout")), "row");
    // The new layout keeps the padding the card had.
    assert_eq!(as_real(card_prop(&s, 0, "padding")), 8.0);
    let ids: Vec<u32> = s.cards[0]
        .layout
        .as_ref()
        .unwrap()
        .children
        .iter()
        .map(|c| match c {
            LayoutChild::Object(id) => *id,
            LayoutChild::Group(_) => 0,
        })
        .collect();
    assert_eq!(ids, vec![11, 20]);
}

#[test]
fn number_of_counts() {
    let s = a_stack();
    assert_eq!(number_of(&s, 0, "Cards"), 2);
    assert_eq!(number_of(&s, 0, "buttons"), 1);
    assert_eq!(number_of(&s, 1, "field"), 0);
    assert_eq!(number_of(&s, 0, "backgrounds"), 0);
    assert_eq!(number_of(&s, 0, "widgets"), 0);
}
