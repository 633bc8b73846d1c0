//! Tests of the HyperTalk lexer, parser and the runtime's decisions.

use hypercore::script::ast::{Stmt, Script};
use hypercore::script::interp::{
    classify_send, enter_send, find_handler, go_number, go_relative, host_request, index_by_name,
    index_by_number, lookup_handler, random_pick, text_style_get, word_of, GoRelative, HostCmd, LoopBudget, Request, SendKind,
    Word, MAX_LOOP_ITERATIONS, MAX_SEND_DEPTH,
};
use hypercore::script::lexer::{is_word_part, is_word_start, lex, Tok};
use hypercore::script::parser::parse_script;

fn parse(src: &str) -> Script {
    match parse_script(src) {
        Ok(s) => s,
        Err(e) => panic!("parse error: {:?}", e),
    }
}

#[test]
fn parses_a_basic_handler() {
    let script = parse("on mouseUp\n  put 1 into field \"x\"\nend mouseUp");
    assert_eq!(script.handlers.len(), 1);
    assert_eq!(script.handlers[0].message, "mouseup");
}

#[test]
fn parses_if_and_arithmetic() {
    let src = "on mouseUp\n  if 1 < 2 then\n    add 3 to field \"x\"\n  else\n    beep\n  end if\nend mouseUp";
    let script = parse(src);
    assert_eq!(script.handlers.len(), 1);
}

#[test]
fn parses_handler_with_parameter_list() {
    let script = parse("on myMessage a, b\n  put a into field \"x\"\nend myMessage");
    assert_eq!(script.handlers[0].params, vec!["a", "b"]);
}

#[test]
fn go_stack_without_to_parses() {
    let script = parse("on mouseUp\n  go stack \"X\"\nend mouseUp");
    assert_eq!(script.handlers[0].body.len(), 1);
    assert!(matches!(script.handlers[0].body[0], Stmt::Go(_)));
}

#[test]
fn lexer_handles_comments_and_unterminated_strings() {
    let toks = lex("put 7 into field \"counter\" -- trailing comment\n  -- whole-line comment").unwrap();
    assert!(matches!(toks[0], Tok::Word(ref w) if w == "put"));
    assert!(matches!(toks[1], Tok::Number(ref n) if n == "7"));
    assert!(matches!(toks[4], Tok::Str(ref s) if s == "counter"));
    assert!(matches!(toks[5], Tok::Newline));
    assert!(matches!(toks[toks.len() - 1], Tok::Eof));
    assert!(parse_script("on mouseUp\n  put \"oops into field x\nend mouseUp").is_err());
}

#[test]
fn lexer_reports_bad_numbers_and_characters() {
    assert_eq!(lex("1.2.3").err().unwrap(), "invalid number literal: 1.2.3");
    assert_eq!(lex("put 1 ? 2").err().unwrap(), "unexpected character '?'");
    assert_eq!(lex("\"abc").err().unwrap(), "unterminated string literal");
}

#[test]
fn lexer_collapses_blank_lines() {
    let toks = lex("\n\nbeep\n\n\nbeep\n").unwrap();
    let newlines = toks.iter().filter(|t| matches!(t, Tok::Newline)).count();
    assert_eq!(newlines, 2);
    assert!(matches!(toks[0], Tok::Word(_)));
}

#[test]
fn word_characters() {
    assert!(is_word_start('a'));
    assert!(is_word_start('_'));
    assert!(!is_word_start('1'));
    assert!(is_word_part('1'));
    assert!(is_word_part('é'));
    assert!(!is_word_part('-'));
}

#[test]
fn sugar_desugars_to_sends() {
    let script = parse("on mouseUp\n  open url \"https://x\"\n  toast \"hi\"\nend mouseUp");
    match &script.handlers[0].body[0] {
        Stmt::Send(name, args) => {
            assert_eq!(name, "openurl");
            assert_eq!(args.len(), 1);
        }
        _ => panic!("expected a send"),
    }
    match &script.handlers[0].body[1] {
        Stmt::Send(name, _) => assert_eq!(name, "toast"),
        _ => panic!("expected a send"),
    }
}

#[test]
fn handlers_are_found_in_any_case() {
    let script = parse("on openCard\n  beep\nend openCard\non mouseUp\n  beep\nend mouseUp");
    assert_eq!(find_handler(&script, "MOUSEUP").unwrap().message, "mouseup");
    assert_eq!(find_handler(&script, "opencard").unwrap().message, "opencard");
    assert!(find_handler(&script, "mouseDown").is_none());
    let (_, h) = lookup_handler("on mouseUp\n  beep\nend mouseUp", "MouseUp").ok().unwrap();
    assert_eq!(h, Some(0));
    let (_, h) = lookup_handler("", "MouseUp").ok().unwrap();
    assert_eq!(h, None);
    assert!(lookup_handler("on mouseUp\n  if\nend mouseUp", "mouseUp").is_err());
}

#[test]
fn go_navigation_variants() {
    assert_eq!(go_relative(GoRelative::Next, 0, 2), 1);
    assert_eq!(go_relative(GoRelative::Next, 1, 2), 0);
    assert_eq!(go_relative(GoRelative::Prev, 0, 2), 1);
    assert_eq!(go_relative(GoRelative::Prev, 1, 3), 0);
    assert_eq!(go_relative(GoRelative::First, 2, 3), 0);
    assert_eq!(go_relative(GoRelative::Last, 0, 3), 2);
    assert_eq!(go_number(1, 2), 0);
    assert_eq!(go_number(2, 2), 1);
    assert_eq!(go_number(3, 2), 0);
    assert_eq!(go_number(0, 2), 1);
    assert_eq!(go_number(-1, 3), 1);
}

#[test]
fn go_next_then_previous_returns() {
    for n in 1..5usize {
        for c in 0..n {
            let next = go_relative(GoRelative::Next, c, n);
            assert_eq!(go_relative(GoRelative::Prev, next, n), c);
        }
    }
}

#[test]
fn field_selector_by_number_and_name() {
    assert_eq!(index_by_number(1, 2), Ok(0));
    assert_eq!(index_by_number(2, 2), Ok(1));
    assert!(index_by_number(0, 2).is_err());
    assert!(index_by_number(3, 2).is_err());
    let names = vec!["counter".to_string(), "Input".to_string()];
    assert_eq!(index_by_name(&names, "INPUT", "object"), Ok(1));
    assert_eq!(index_by_name(&names, "missing", "object"), Err("no object named \"missing\"".to_string()));
}

#[test]
fn runaway_repeat_is_bounded() {
    let mut b = LoopBudget::new();
    assert_eq!(b.left, MAX_LOOP_ITERATIONS);
    b.left = 2;
    assert!(b.tick().is_ok());
    assert!(b.tick().is_ok());
    assert!(b.tick().is_err());
    assert_eq!(b.left, 0);
}

#[test]
fn send_depth_is_bounded() {
    assert_eq!(enter_send(0), Ok(1));
    assert_eq!(enter_send(MAX_SEND_DEPTH - 1), Ok(MAX_SEND_DEPTH));
    assert!(enter_send(MAX_SEND_DEPTH).is_err());
}

#[test]
fn sends_are_classified() {
    assert_eq!(classify_send("openurl", false, false), SendKind::Host(Request::OpenUrl));
    assert_eq!(classify_send("askpermission", false, false), SendKind::Host(Request::AskPermission));
    assert_eq!(classify_send("notify", false, false), SendKind::Host(Request::Notify));
    assert_eq!(classify_send("exit", true, false), SendKind::ExitRepeat);
    assert_eq!(classify_send("exit", false, false), SendKind::ExitHandler);
    assert_eq!(classify_send("pass", false, false), SendKind::ExitHandler);
    assert_eq!(classify_send("show", false, true), SendKind::ShowStacks);
    assert_eq!(classify_send("show", false, false), SendKind::Nothing);
    assert_eq!(classify_send("greet", false, false), SendKind::Custom);
}

#[test]
fn host_requests_take_their_arguments() {
    let one = vec!["https://example.org".to_string(), "ignored".to_string()];
    assert!(matches!(host_request(Request::OpenUrl, &one), HostCmd::OpenUrl(ref u) if u == "https://example.org"));
    assert!(matches!(host_request(Request::Toast, &vec![]), HostCmd::Toast(ref t) if t.is_empty()));
    let two = vec!["Saved".to_string(), "Undo".to_string()];
    match host_request(Request::Snackbar, &two) {
        HostCmd::Snackbar(a, b, c) => {
            assert_eq!(a, "Saved");
            assert_eq!(b, "Undo");
            assert_eq!(c, "");
        }
        _ => panic!("expected a snackbar"),
    }
    match host_request(Request::Notify, &vec!["T".to_string(), "B".to_string(), "tapped".to_string()]) {
        HostCmd::Notify(a, b, c) => assert_eq!((a.as_str(), b.as_str(), c.as_str()), ("T", "B", "tapped")),
        _ => panic!("expected a notification"),
    }
}

#[test]
fn object_number_errors_name_the_number() {
    assert_eq!(index_by_number(0, 2), Err("object index out of range: 0".to_string()));
    assert_eq!(index_by_number(-3, 2), Err("object index out of range: -3".to_string()));
    assert_eq!(index_by_number(99, 2), Err("object number out of range: 99".to_string()));
}

#[test]
fn text_style_properties_default_and_set() {
    assert_eq!(text_style_get(""), "plain");
    assert_eq!(text_style_get("bold,italic"), "bold,italic");
}

#[test]
fn random_steps_the_generator_and_stays_in_range() {
    let (state, pick) = random_pick(0x2545_F491_4F6C_DD1D, 6);
    assert_eq!(state, 9181757771948286951);
    assert_eq!(pick, 4);
    let (_, one) = random_pick(state, 1);
    assert_eq!(one, 1);
    let mut s = state;
    for _ in 0..50 {
        let (next, r) = random_pick(s, 10);
        assert!((1..=10).contains(&r));
        s = next;
    }
}

#[test]
fn bare_words_name_constants_or_variables() {
    assert!(matches!(word_of("it"), Word::It));
    assert!(matches!(word_of("true"), Word::Bool(true)));
    assert!(matches!(word_of("false"), Word::Bool(false)));
    assert!(matches!(word_of("empty"), Word::Empty));
    assert!(matches!(word_of("space"), Word::Char(' ')));
    assert!(matches!(word_of("tab"), Word::Char('\t')));
    assert!(matches!(word_of("return"), Word::Char('\n')));
    assert!(matches!(word_of("cr"), Word::Char('\n')));
    assert!(matches!(word_of("quote"), Word::Char('"')));
    assert!(matches!(word_of("comma"), Word::Char(',')));
    assert!(matches!(word_of("colon"), Word::Char(':')));
    assert!(matches!(word_of("Space"), Word::Variable));
    assert!(matches!(word_of("counter"), Word::Variable));
}
