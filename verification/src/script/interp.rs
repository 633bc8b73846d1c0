//! What the HyperTalk runtime decides without evaluating numbers: which object runs a
//! script (`Me`), the effects it asks the host for (`HostCmd`), which handler answers a
//! message, how objects and cards are selected, and the bounds on loops and sends.

use vstd::prelude::*;

use crate::script::ast::{handler_v, handlers_v, Handler, Layer, Script, SpecHandler};
use crate::script::grammar::{adv_ok, at_eof, expect, handler, handlers, script_of, skip_newlines, take_word};
use crate::script::lexer::{lex_spec, SpecTok};
use crate::script::parser;
use crate::model::{
    background_index, find_background, lemma_background_index, Button, Card, Field, LayoutChild, LayoutGroup,
    Stack,
};
use crate::session::{render_ids, render_ids_of, Place};
use crate::text::{
    ascii_lower, eq_ignore_ascii_case, eq_ignore_case, owned, push_signed_decimal, signed_decimal, str_eq, to_lower,
};

verus! {

/// Side effects the core cannot perform itself; the host carries them out.
pub enum HostCmd {
    /// `answer "..."`: show a modal dialog.
    Answer(String),
    /// `beep`.
    Beep,
    /// `put "..."` with no container: message-box output.
    Message(String),
    /// `go [to] stack "Name"`: the host loads the named stack.
    GoStack(String),
    /// `show stacks`: the host opens its stack picker.
    ShowStacks,
    /// `open url "…"`: the host opens the URL.
    OpenUrl(String),
    /// `share "…"`: the host opens the system share sheet.
    Share(String),
    /// `toast "…"`: the host shows a brief toast.
    Toast(String),
    /// `get url "…"`: the host fetches the URL and delivers the body back via
    /// `on responseReceived data`.
    GetUrl(String),
    /// `ask permission "name"`: the host requests the permission and delivers the outcome
    /// via `on permissionResult name, granted`.
    AskPermission(String),
    /// `snackbar text [action label send msg]`: text, action label, action message.
    Snackbar(String, String, String),
    /// `notify title, body [send msg]`: title, body, tap message.
    Notify(String, String, String),
}

/// Identifies the object whose script is currently running (`me`).
#[derive(Debug, Clone, Copy, PartialEq, Eq, Structural)]
pub enum Me {
    Button(u32),
    Field(u32),
    Card,
    Background(u32),
    Stack,
}

/// Upper bound on total loop iterations per handler run.
pub const MAX_LOOP_ITERATIONS: u64 = 1_000_000;

/// Maximum nesting of custom `send` re-dispatch in one run.
pub const MAX_SEND_DEPTH: u32 = 64;

/// The position of the first handler for `message` (compared lower-cased, as handler
/// names are stored).
pub open spec fn handler_index(hs: Seq<SpecHandler>, message: Seq<char>) -> Option<int>
    decreases hs.len(),
{
    if hs.len() == 0 {
        None
    } else {
        match handler_index(hs.drop_last(), message) {
            Some(i) => Some(i),
            None => if hs.last().message == ascii_lower(message) {
                Some(hs.len() - 1)
            } else {
                None
            },
        }
    }
}

/// What `handler_index` means: the first handler whose name is `message` lower-cased.
pub proof fn lemma_handler_index(hs: Seq<SpecHandler>, message: Seq<char>)
    ensures
        handler_index(hs, message) matches Some(i) ==> 0 <= i < hs.len() && hs[i].message
            == ascii_lower(message) && forall|j: int| 0 <= j < i ==> #[trigger] hs[j].message
            != ascii_lower(message),
        handler_index(hs, message) is None ==> forall|j: int| 0 <= j < hs.len() ==> #[trigger] hs[j].message
            != ascii_lower(message),
    decreases hs.len(),
{
    if hs.len() > 0 {
        let d = hs.drop_last();
        let m = ascii_lower(message);
        lemma_handler_index(d, message);
        match handler_index(d, message) {
            Some(i) => {
                assert forall|j: int| 0 <= j < i implies #[trigger] hs[j].message != m by {
                    assert(d[j] == hs[j]);
                }
                assert(d[i] == hs[i]);
            },
            None => {
                assert forall|j: int| 0 <= j < d.len() implies #[trigger] hs[j].message != m by {
                    assert(d[j] == hs[j]);
                }
                assert forall|j: int| 0 <= j < hs.len() && hs[hs.len() - 1].message != m implies #[trigger] hs[j].message != m by {
                    if j < d.len() {
                        assert(d[j] == hs[j]);
                    }
                }
            },
        }
    }
}

/// The position of the first handler in `hs` for `message`, matched case-insensitively.
pub fn handler_position(hs: &Vec<Handler>, message: &str) -> (r: Option<usize>)
    ensures
        r matches Some(k) ==> k < hs.len(),
        match handler_index(handlers_v(hs@), message@) {
            Some(i) => r == Some(i as usize),
            None => r is None,
        },
{
    let target = to_lower(message);
    let ghost hv = handlers_v(hs@);
    let mut k: usize = 0;
    while k < hs.len()
        invariant
            k <= hs.len(),
            hv == handlers_v(hs@),
            hv.len() == hs.len(),
            target@ == ascii_lower(message@),
            handler_index(hv.take(k as int), message@) is None,
        decreases hs.len() - k,
    {
        assert(hv.take(k + 1).drop_last() =~= hv.take(k as int));
        if string_eq(&hs[k].message, &target) {
            proof {
                assert(hv[k as int] == handler_v(hs@[k as int]));
                lemma_handler_index_prefix(hv, k as int + 1, message@);
                lemma_handler_index(hv, message@);
            }
            return Some(k);
        }
        k += 1;
    }
    assert(hv.take(hs.len() as int) =~= hv);
    None
}

/// Looking a handler up does not depend on the case of the message: `mouseUp`,
/// `MOUSEUP` and `mouseup` find the same handler.
pub proof fn lemma_handler_lookup_ignores_case(hs: Seq<SpecHandler>, m1: Seq<char>, m2: Seq<char>)
    requires
        eq_ignore_case(m1, m2),
    ensures
        handler_index(hs, m1) == handler_index(hs, m2),
    decreases hs.len(),
{
    if hs.len() > 0 {
        lemma_handler_lookup_ignores_case(hs.drop_last(), m1, m2);
    }
}

/// Lower-casing twice is lower-casing once.
pub proof fn lemma_ascii_lower_idempotent(s: Seq<char>)
    ensures
        ascii_lower(ascii_lower(s)) == ascii_lower(s),
{
    assert(ascii_lower(ascii_lower(s)) =~= ascii_lower(s));
}

/// Every handler `handlers` parses has a lower-case name.
proof fn lemma_handlers_lowercase(t: Seq<SpecTok>, p: int)
    ensures
        handlers(t, p) matches Ok((hs, _)) ==> forall|i: int| 0 <= i < hs.len() ==> ascii_lower(
            #[trigger] hs[i].message,
        ) == hs[i].message,
    decreases t.len() - p,
{
    if !at_eof(t, p) {
        if let Ok((h, q)) = handler(t, p) {
            let r = skip_newlines(t, q);
            if adv_ok(t, p, r) {
                lemma_handlers_lowercase(t, r);
                if let Ok((hs, e)) = handlers(t, r) {
                    if let Ok((w, _)) = take_word(t, expect(t, p, "on"@)->Ok_0) {
                        lemma_ascii_lower_idempotent(w);
                    }
                    let all = seq![h] + hs;
                    assert forall|i: int| 0 <= i < all.len() implies ascii_lower(#[trigger] all[i].message)
                        == all[i].message by {
                        if i > 0 {
                            assert(all[i] == hs[i - 1]);
                        }
                    }
                }
            }
        }
    }
}

/// The handlers of a parsed script are named in lower case, so with
/// `lemma_handler_lookup_ignores_case` a message in any case finds its handler.
pub proof fn lemma_parsed_handler_names_lowercase(src: Seq<char>)
    ensures
        script_of(src) matches Some(sc) ==> forall|i: int| 0 <= i < sc.handlers.len() ==> ascii_lower(
            #[trigger] sc.handlers[i].message,
        ) == sc.handlers[i].message,
{
    if let Ok(t) = lex_spec(src) {
        lemma_handlers_lowercase(t, skip_newlines(t, 0));
    }
}

/// `go next` then `go previous` comes back to the card it started from.
pub proof fn lemma_go_next_then_prev(current: int, n: int)
    requires
        0 <= current < n,
    ensures
        ((current + 1) % n + n - 1) % n == current,
{
    vstd::arithmetic::div_mod::lemma_mod_self_0(n);
    if current + 1 < n {
        vstd::arithmetic::div_mod::lemma_small_mod((current + 1) as nat, n as nat);
        vstd::arithmetic::div_mod::lemma_small_mod(current as nat, n as nat);
        assert((current + n) % n == current % n) by {
            vstd::arithmetic::div_mod::lemma_mod_add_multiples_vanish(current, n);
        }
    } else {
        vstd::arithmetic::div_mod::lemma_small_mod((n - 1) as nat, n as nat);
    }
}

/// The first handler of `script` for `message`, matched case-insensitively.
pub fn find_handler<'a>(script: &'a Script, message: &str) -> (r: Option<&'a Handler>)
    ensures
        match handler_index(handlers_v(script.handlers@), message@) {
            Some(i) => r == Some(&script.handlers@[i]),
            None => r is None,
        },
{
    match handler_position(&script.handlers, message) {
        Some(k) => {
            proof { lemma_handler_index(handlers_v(script.handlers@), message@); }
            Some(&script.handlers[k])
        },
        None => None,
    }
}

proof fn lemma_handler_index_prefix(hs: Seq<SpecHandler>, k: int, message: Seq<char>)
    requires
        0 < k <= hs.len(),
        handler_index(hs.take(k - 1), message) is None,
        hs[k - 1].message == ascii_lower(message),
    ensures
        handler_index(hs, message) == Some(k - 1),
    decreases hs.len(),
{
    assert(hs.take(k).drop_last() =~= hs.take(k - 1));
    if k < hs.len() {
        assert(hs.drop_last().take(k) =~= hs.take(k));
        assert(hs.drop_last().take(k - 1) =~= hs.take(k - 1));
        lemma_handler_index_prefix(hs.drop_last(), k, message);
    } else {
        assert(hs.take(k) =~= hs);
    }
}

/// Equality of two strings' characters.
pub fn string_eq(a: &String, b: &String) -> (r: bool)
    ensures
        r == (a@ == b@),
{
    a.eq(b)
}

/// Finds the handler for `message` in the script source `src`: `Err` with the
/// tokenizer's or the parser's error when the source does not parse, `Ok(None)` when no
/// handler answers.
pub fn lookup_handler(src: &str, message: &str) -> (r: Result<(Script, Option<usize>), parser::ParseError>)
    ensures
        match r {
            Ok((s, h)) => crate::script::grammar::script_of(src@) == Some(crate::script::ast::script_v(s))
                && match handler_index(handlers_v(s.handlers@), message@) {
                    Some(i) => h == Some(i as usize),
                    None => h is None,
                },
            Err(m) => (crate::script::grammar::script_result(src@) matches Err(e) && e == m@),
        },
{
    let script = parser::parse_script(src)?;
    let found = handler_position(&script.handlers, message);
    Ok((script, found))
}

/// The position of the first name equal to `want` ignoring ASCII case.
pub open spec fn name_index(names: Seq<Seq<char>>, want: Seq<char>) -> Option<int>
    decreases names.len(),
{
    if names.len() == 0 {
        None
    } else {
        match name_index(names.drop_last(), want) {
            Some(i) => Some(i),
            None => if eq_ignore_case(names.last(), want) {
                Some(names.len() - 1)
            } else {
                None
            },
        }
    }
}

/// Selects an object (or a card) by name: the first whose name equals `want` ignoring
/// ASCII case, or an error naming it (`no <what> named "<want>"`).
pub fn index_by_name(names: &Vec<String>, want: &str, what: &str) -> (r: Result<usize, String>)
    ensures
        match name_index(names@.map_values(|s: String| s@), want@) {
            Some(i) => r == Ok::<usize, String>(i as usize),
            None => r matches Err(m) && m@ == "no "@ + what@ + " named \""@ + want@ + "\""@,
        },
{
    let ghost nv = names@.map_values(|s: String| s@);
    let mut k: usize = 0;
    while k < names.len()
        invariant
            k <= names.len(),
            nv == names@.map_values(|s: String| s@),
            name_index(nv.take(k as int), want@) is None,
        decreases names.len() - k,
    {
        assert(nv.take(k + 1).drop_last() =~= nv.take(k as int));
        if eq_ignore_ascii_case(names[k].as_str(), want) {
            proof {
                lemma_name_index_prefix(nv, k as int + 1, want@);
            }
            return Ok(k);
        }
        k += 1;
    }
    assert(nv.take(names.len() as int) =~= nv);
    let mut m = crate::text::owned("no ");
    m.append(what);
    m.append(" named \"");
    m.append(want);
    m.append("\"");
    Err(m)
}

proof fn lemma_name_index_prefix(names: Seq<Seq<char>>, k: int, want: Seq<char>)
    requires
        0 < k <= names.len(),
        name_index(names.take(k - 1), want) is None,
        eq_ignore_case(names[k - 1], want),
    ensures
        name_index(names, want) == Some(k - 1),
    decreases names.len(),
{
    assert(names.take(k).drop_last() =~= names.take(k - 1));
    if k < names.len() {
        assert(names.drop_last().take(k) =~= names.take(k));
        assert(names.drop_last().take(k - 1) =~= names.take(k - 1));
        lemma_name_index_prefix(names.drop_last(), k, want);
    } else {
        assert(names.take(k) =~= names);
    }
}

/// Selecting by name picks the first object whose name equals the wanted one ignoring
/// ASCII case, and fails only when no name does.
pub proof fn lemma_name_index_first_match(names: Seq<Seq<char>>, want: Seq<char>)
    ensures
        match name_index(names, want) {
            Some(i) => 0 <= i < names.len() && eq_ignore_case(names[i], want)
                && forall|j: int| 0 <= j < i ==> !eq_ignore_case(#[trigger] names[j], want),
            None => forall|j: int| 0 <= j < names.len() ==> !eq_ignore_case(#[trigger] names[j], want),
        },
    decreases names.len(),
{
    if names.len() > 0 {
        let init = names.drop_last();
        lemma_name_index_first_match(init, want);
        assert forall|j: int| 0 <= j < init.len() implies #[trigger] names[j] == init[j] by {}
    }
}

proof fn lemma_name_index(names: Seq<Seq<char>>, want: Seq<char>)
    ensures
        name_index(names, want) matches Some(i) ==> 0 <= i < names.len(),
    decreases names.len(),
{
    if names.len() > 0 {
        lemma_name_index(names.drop_last(), want);
    }
}

/// Selects an object of a layer by its 1-based number `n` (already truncated to an
/// integer): `n - 1` when `1 <= n <= count`, an error naming `n` otherwise.
pub fn index_by_number(n: i64, count: usize) -> (r: Result<usize, String>)
    ensures
        1 <= n <= count ==> r == Ok::<usize, String>((n - 1) as usize),
        n < 1 ==> (r matches Err(m) && m@ == "object index out of range: "@ + signed_decimal(n as int)),
        n >= 1 && n > count ==> (r matches Err(m) && m@ == "object number out of range: "@ + signed_decimal(
            n as int,
        )),
{
    if n < 1 {
        let mut m = owned("object index out of range: ");
        push_signed_decimal(&mut m, n);
        return Err(m);
    }
    if (n - 1) as u64 >= count as u64 {
        let mut m = owned("object number out of range: ");
        push_signed_decimal(&mut m, n);
        return Err(m);
    }
    Ok((n - 1) as usize)
}

/// Where `go` lands among `n` cards from card `current`.
pub enum GoRelative {
    Next,
    Prev,
    First,
    Last,
}

/// The card index `go next|previous|first|last` lands on: next and previous wrap around.
pub fn go_relative(dest: GoRelative, current: usize, n: usize) -> (r: usize)
    requires
        current < n,
    ensures
        r < n,
        r == match dest {
            GoRelative::Next => (current + 1) % (n as int),
            GoRelative::Prev => (current + n - 1) % (n as int),
            GoRelative::First => 0,
            GoRelative::Last => n - 1,
        },
{
    proof {
        vstd::arithmetic::div_mod::lemma_mod_self_0(n as int);
        if current + 1 < n {
            vstd::arithmetic::div_mod::lemma_small_mod((current + 1) as nat, n as nat);
        }
        if current > 0 {
            vstd::arithmetic::div_mod::lemma_small_mod((current - 1) as nat, n as nat);
            assert((current + n - 1) % (n as int) == (current - 1) % (n as int)) by {
                vstd::arithmetic::div_mod::lemma_mod_add_multiples_vanish((current - 1) as int, n as int);
            }
        } else {
            vstd::arithmetic::div_mod::lemma_small_mod((n - 1) as nat, n as nat);
        }
    }
    match dest {
        GoRelative::Next => if current + 1 == n { 0 } else { current + 1 },
        GoRelative::Prev => if current == 0 { n - 1 } else { current - 1 },
        GoRelative::First => 0,
        GoRelative::Last => n - 1,
    }
}

/// The card index `go card N` lands on: `N - 1` taken modulo the number of cards (so
/// `go card 3` of two cards lands on the first).
pub fn go_number(k: i64, n: usize) -> (r: usize)
    requires
        0 < n,
        n <= i64::MAX,
        k > i64::MIN,
    ensures
        r < n,
        r == (k - 1) % (n as int),
{
    let m = n as i64;
    match (k - 1).checked_rem_euclid(m) {
        Some(d) => d as usize,
        None => 0,
    }
}

/// `the textStyle` reads back as `"plain"` when no styles are set.
pub fn text_style_get(style: &str) -> (r: String)
    ensures
        style@.len() == 0 ==> r@ == "plain"@,
        style@.len() != 0 ==> r@ == style@,
{
    if style.is_empty() {
        crate::text::owned("plain")
    } else {
        crate::text::owned(style)
    }
}

/// The loop budget of one handler run: each iteration of any `repeat` spends one unit.
pub struct LoopBudget {
    pub left: u64,
}

impl LoopBudget {
    pub fn new() -> (b: LoopBudget)
        ensures
            b.left == MAX_LOOP_ITERATIONS,
    {
        LoopBudget { left: MAX_LOOP_ITERATIONS }
    }

    /// Spends one iteration; fails once the budget is used up.
    pub fn tick(&mut self) -> (r: Result<(), String>)
        ensures
            old(self).left == 0 ==> (r matches Err(m) && m@ == "repeat exceeded the maximum of 1000000 iterations"@)
                && final(self).left == 0,
            old(self).left > 0 ==> r is Ok && final(self).left == old(self).left - 1,
    {
        if self.left == 0 {
            return Err(crate::text::owned("repeat exceeded the maximum of 1000000 iterations"));
        }
        self.left = self.left - 1;
        Ok(())
    }
}

/// A request a bare command makes of the host.
#[derive(Debug, Clone, Copy, PartialEq, Eq, Structural)]
pub enum Request {
    OpenUrl,
    Share,
    Toast,
    GetUrl,
    AskPermission,
    Snackbar,
    Notify,
}

/// What a bare command does in the runtime.
#[derive(Debug, Clone, Copy, PartialEq, Eq, Structural)]
pub enum SendKind {
    /// A request to the host: `openurl`, `share`, `toast`, `geturl`, `askpermission`
    /// (first argument), `snackbar`, `notify` (first three arguments).
    Host(Request),
    /// `exit repeat`.
    ExitRepeat,
    /// `exit`, `return`, `pass`: leave the handler.
    ExitHandler,
    /// `show stacks`.
    ShowStacks,
    /// `show` with anything else: nothing happens.
    Nothing,
    /// Any other name: a custom message sent up the message path.
    Custom,
}

/// The kind of a bare command named `name` (lower-cased by the parser), given whether its
/// first argument is the bare word `repeat` / `stacks`.
pub open spec fn send_kind(name: Seq<char>, first_is_repeat: bool, first_is_stacks: bool) -> SendKind {
    if name == "openurl"@ {
        SendKind::Host(Request::OpenUrl)
    } else if name == "share"@ {
        SendKind::Host(Request::Share)
    } else if name == "toast"@ {
        SendKind::Host(Request::Toast)
    } else if name == "geturl"@ {
        SendKind::Host(Request::GetUrl)
    } else if name == "askpermission"@ {
        SendKind::Host(Request::AskPermission)
    } else if name == "snackbar"@ {
        SendKind::Host(Request::Snackbar)
    } else if name == "notify"@ {
        SendKind::Host(Request::Notify)
    } else if name == "exit"@ {
        if first_is_repeat { SendKind::ExitRepeat } else { SendKind::ExitHandler }
    } else if name == "return"@ || name == "pass"@ {
        SendKind::ExitHandler
    } else if name == "show"@ {
        if first_is_stacks { SendKind::ShowStacks } else { SendKind::Nothing }
    } else {
        SendKind::Custom
    }
}

/// Classifies a bare command (see `send_kind`).
pub fn classify_send(name: &str, first_is_repeat: bool, first_is_stacks: bool) -> (k: SendKind)
    ensures
        k == send_kind(name@, first_is_repeat, first_is_stacks),
{
    let n = crate::text::owned(name);
    if str_is(&n, "openurl") {
        SendKind::Host(Request::OpenUrl)
    } else if str_is(&n, "share") {
        SendKind::Host(Request::Share)
    } else if str_is(&n, "toast") {
        SendKind::Host(Request::Toast)
    } else if str_is(&n, "geturl") {
        SendKind::Host(Request::GetUrl)
    } else if str_is(&n, "askpermission") {
        SendKind::Host(Request::AskPermission)
    } else if str_is(&n, "snackbar") {
        SendKind::Host(Request::Snackbar)
    } else if str_is(&n, "notify") {
        SendKind::Host(Request::Notify)
    } else if str_is(&n, "exit") {
        if first_is_repeat { SendKind::ExitRepeat } else { SendKind::ExitHandler }
    } else if str_is(&n, "return") || str_is(&n, "pass") {
        SendKind::ExitHandler
    } else if str_is(&n, "show") {
        if first_is_stacks { SendKind::ShowStacks } else { SendKind::Nothing }
    } else {
        SendKind::Custom
    }
}

/// The `i`-th argument's text, empty when there are fewer arguments.
pub open spec fn arg_text(texts: Seq<String>, i: int) -> Seq<char> {
    if 0 <= i < texts.len() {
        texts[i]@
    } else {
        Seq::empty()
    }
}

/// `c` is the host request `req` made with the argument texts `texts`: the first for the
/// one-argument requests; the first three for `snackbar` (text, action label, action
/// message) and `notify` (title, body, tap message).
pub open spec fn request_made(req: Request, texts: Seq<String>, c: HostCmd) -> bool {
    match (req, c) {
        (Request::OpenUrl, HostCmd::OpenUrl(s)) => s@ == arg_text(texts, 0),
        (Request::Share, HostCmd::Share(s)) => s@ == arg_text(texts, 0),
        (Request::Toast, HostCmd::Toast(s)) => s@ == arg_text(texts, 0),
        (Request::GetUrl, HostCmd::GetUrl(s)) => s@ == arg_text(texts, 0),
        (Request::AskPermission, HostCmd::AskPermission(s)) => s@ == arg_text(texts, 0),
        (Request::Snackbar, HostCmd::Snackbar(a, b, d)) => a@ == arg_text(texts, 0) && b@ == arg_text(texts, 1)
            && d@ == arg_text(texts, 2),
        (Request::Notify, HostCmd::Notify(a, b, d)) => a@ == arg_text(texts, 0) && b@ == arg_text(texts, 1)
            && d@ == arg_text(texts, 2),
        _ => false,
    }
}

fn arg_or_empty(texts: &Vec<String>, i: usize) -> (r: String)
    ensures
        r@ == arg_text(texts@, i as int),
{
    if i < texts.len() {
        texts[i].clone()
    } else {
        String::new()
    }
}

/// The host request `req` made with the evaluated argument texts (see `request_made`).
pub fn host_request(req: Request, texts: &Vec<String>) -> (c: HostCmd)
    ensures
        request_made(req, texts@, c),
{
    match req {
        Request::OpenUrl => HostCmd::OpenUrl(arg_or_empty(texts, 0)),
        Request::Share => HostCmd::Share(arg_or_empty(texts, 0)),
        Request::Toast => HostCmd::Toast(arg_or_empty(texts, 0)),
        Request::GetUrl => HostCmd::GetUrl(arg_or_empty(texts, 0)),
        Request::AskPermission => HostCmd::AskPermission(arg_or_empty(texts, 0)),
        Request::Snackbar => HostCmd::Snackbar(arg_or_empty(texts, 0), arg_or_empty(texts, 1), arg_or_empty(texts, 2)),
        Request::Notify => HostCmd::Notify(arg_or_empty(texts, 0), arg_or_empty(texts, 1), arg_or_empty(texts, 2)),
    }
}

/// Whether `s` is exactly `lit`.
fn str_is(s: &String, lit: &str) -> (r: bool)
    ensures
        r == (s@ == lit@),
{
    let l = crate::text::owned(lit);
    string_eq(s, &l)
}

/// The send-depth guard: one more nested custom send is allowed while the depth is below
/// `MAX_SEND_DEPTH`.
pub fn enter_send(depth: u32) -> (r: Result<u32, String>)
    ensures
        depth < MAX_SEND_DEPTH ==> r == Ok::<u32, String>((depth + 1) as u32),
        depth >= MAX_SEND_DEPTH ==> (r matches Err(m) && m@
            == "send exceeded the maximum nesting of 64 (a handler may send itself)"@),
{
    if depth >= MAX_SEND_DEPTH {
        return Err(crate::text::owned("send exceeded the maximum nesting of 64 (a handler may send itself)"));
    }
    Ok(depth + 1)
}

/// The position of card `ci`'s background, for a script that names a background
/// object: an error when the card has no background or it is missing.
pub fn script_background(stack: &Stack, ci: usize) -> (r: Result<usize, String>)
    requires
        ci < stack.cards@.len(),
    ensures
        match stack.cards@[ci as int].background_id {
            None => r matches Err(m) && m@ == "card has no background"@,
            Some(id) => match background_index(stack.backgrounds@, id) {
                Some(g) => r matches Ok(x) && x as int == g && x < stack.backgrounds@.len(),
                None => r matches Err(m) && m@ == "background not found"@,
            },
        },
{
    match stack.cards[ci].background_id {
        None => Err(owned("card has no background")),
        Some(id) => {
            proof { lemma_background_index(stack.backgrounds@, id); }
            match find_background(&stack.backgrounds, id) {
                Some(g) => Ok(g),
                None => Err(owned("background not found")),
            }
        },
    }
}

/// The layout `set the layout of this card to <mode>` gives card `ci`: one group of
/// `mode` over all the card's objects in render order, keeping the padding the card had
/// (0 without a layout), with 2 columns for a `grid` (0 otherwise) and no weight.
pub open spec fn card_layout_set(s: Stack, ci: int, mode: Seq<char>, l: LayoutGroup) -> bool {
    &&& l.mode@ == mode
    &&& l.padding == match s.cards@[ci].layout {
        Some(o) => o.padding,
        None => 0,
    }
    &&& l.weight == 0
    &&& l.columns == if mode == "grid"@ { 2u32 } else { 0u32 }
    &&& l.children@ == render_ids(s, ci).map_values(|id: u32| LayoutChild::Object(id))
}

/// Replaces card `ci`'s layout overlay with a single group of `mode` over all its
/// objects (see `card_layout_set`).
pub fn set_card_layout(stack: &mut Stack, ci: usize, mode: &str)
    requires
        ci < old(stack).cards@.len(),
    ensures
        ({
            let c = final(stack).cards@[ci as int];
            &&& final(stack).cards@ == old(stack).cards@.update(ci as int, c)
            &&& *final(stack) == (Stack { cards: final(stack).cards, ..*old(stack) })
            &&& c == (Card { layout: c.layout, ..old(stack).cards@[ci as int] })
            &&& c.layout matches Some(l) && card_layout_set(*old(stack), ci as int, mode@, l)
        }),
{
    let ids = render_ids_of(stack, ci);
    let mut children: Vec<LayoutChild> = Vec::new();
    let mut k: usize = 0;
    while k < ids.len()
        invariant
            k <= ids@.len(),
            children@ == ids@.take(k as int).map_values(|id: u32| LayoutChild::Object(id)),
        decreases ids@.len() - k,
    {
        children.push(LayoutChild::Object(ids[k]));
        assert(ids@.take(k + 1).map_values(|id: u32| LayoutChild::Object(id)) =~= ids@.take(k as int).map_values(
            |id: u32| LayoutChild::Object(id),
        ).push(LayoutChild::Object(ids@[k as int])));
        k += 1;
    }
    assert(ids@.take(ids@.len() as int) =~= ids@);
    let padding = match &stack.cards[ci].layout {
        Some(l) => l.padding,
        None => 0,
    };
    let columns: u32 = if str_eq(mode, "grid") { 2 } else { 0 };
    stack.cards[ci].layout = Some(LayoutGroup { mode: owned(mode), padding, weight: 0, columns, children });
}

/// How a script picks an object within its layer: by its 1-based number (already made
/// a whole number by the runtime) or by its name.
pub enum Pick {
    Number(i64),
    Name(String),
}

/// The index `pick` selects among objects named `names`, or the error the runtime
/// reports (see `index_by_number`, `index_by_name`).
pub open spec fn pick_index(names: Seq<Seq<char>>, pick: Pick) -> Result<int, Seq<char>> {
    match pick {
        Pick::Number(n) => if n < 1 {
            Err("object index out of range: "@ + signed_decimal(n as int))
        } else if n > names.len() {
            Err("object number out of range: "@ + signed_decimal(n as int))
        } else {
            Ok(n - 1)
        },
        Pick::Name(w) => match name_index(names, w@) {
            Some(i) => Ok(i),
            None => Err("no object named \""@ + w@ + "\""@),
        },
    }
}

/// The names of the fields (`fields`) or buttons of a layer.
pub open spec fn layer_names(fs: Seq<Field>, bs: Seq<Button>, fields: bool) -> Seq<Seq<char>> {
    if fields {
        fs.map_values(|f: Field| f.name@)
    } else {
        bs.map_values(|b: Button| b.name@)
    }
}

/// Where a script's reference to a field (`fields`) or button of `layer` on card `ci`
/// leads: on the card, by `pick` among the card's objects; on the background, by `pick`
/// among the background's, after finding the background (an error when the card has none
/// or it is missing).
pub open spec fn located(s: Stack, ci: int, fields: bool, layer: Layer, pick: Pick) -> Result<Place, Seq<char>> {
    let c = s.cards@[ci];
    match layer {
        Layer::Card => match pick_index(layer_names(c.fields@, c.buttons@, fields), pick) {
            Ok(i) => Ok(Place::Card(i as usize)),
            Err(m) => Err(m),
        },
        Layer::Background => match c.background_id {
            None => Err("card has no background"@),
            Some(id) => match background_index(s.backgrounds@, id) {
                None => Err("background not found"@),
                Some(g) => {
                    let b = s.backgrounds@[g];
                    match pick_index(layer_names(b.fields@, b.buttons@, fields), pick) {
                        Ok(i) => Ok(Place::Background(g as usize, i as usize)),
                        Err(m) => Err(m),
                    }
                },
            },
        },
    }
}

/// The names of a layer's fields or buttons, in order.
fn names_of(fs: &Vec<Field>, bs: &Vec<Button>, fields: bool) -> (r: Vec<String>)
    ensures
        r@.map_values(|s: String| s@) == layer_names(fs@, bs@, fields),
{
    let mut names: Vec<String> = Vec::new();
    if fields {
        let mut k: usize = 0;
        while k < fs.len()
            invariant
                k <= fs.len(),
                names@.len() == k,
                forall|j: int| 0 <= j < k ==> #[trigger] names@[j]@ == fs@[j].name@,
            decreases fs.len() - k,
        {
            names.push(fs[k].name.clone());
            k += 1;
        }
        assert(names@.map_values(|s: String| s@) =~= fs@.map_values(|f: Field| f.name@));
    } else {
        let mut k: usize = 0;
        while k < bs.len()
            invariant
                k <= bs.len(),
                names@.len() == k,
                forall|j: int| 0 <= j < k ==> #[trigger] names@[j]@ == bs@[j].name@,
            decreases bs.len() - k,
        {
            names.push(bs[k].name.clone());
            k += 1;
        }
        assert(names@.map_values(|s: String| s@) =~= bs@.map_values(|b: Button| b.name@));
    }
    names
}

/// The index `pick` selects among `names` (see `pick_index`).
fn pick_in(names: &Vec<String>, pick: &Pick) -> (r: Result<usize, String>)
    ensures
        match r {
            Ok(i) => pick_index(names@.map_values(|s: String| s@), *pick) == Ok::<int, Seq<char>>(i as int)
                && i < names@.len(),
            Err(m) => pick_index(names@.map_values(|s: String| s@), *pick) == Err::<int, Seq<char>>(m@),
        },
{
    proof { lemma_name_index(names@.map_values(|s: String| s@), match pick { Pick::Name(w) => w@, _ => Seq::empty() }); }
    assert(names@.map_values(|s: String| s@).len() == names.len());
    match pick {
        Pick::Number(n) => index_by_number(*n, names.len()),
        Pick::Name(w) => {
            proof {
                reveal_strlit("no ");
                reveal_strlit("object");
                reveal_strlit(" named \"");
                reveal_strlit("no object named \"");
                assert("no "@ + "object"@ + " named \""@ =~= "no object named \""@);
            }
            index_by_name(names, w.as_str(), "object")
        },
    }
}

/// Locates a script's reference to a field (`fields`) or button of `layer` on card `ci`
/// (see `located`).
pub fn locate_in_layer(stack: &Stack, ci: usize, fields: bool, layer: Layer, pick: &Pick) -> (r: Result<Place, String>)
    requires
        ci < stack.cards@.len(),
    ensures
        match r {
            Ok(p) => located(*stack, ci as int, fields, layer, *pick) == Ok::<Place, Seq<char>>(p),
            Err(m) => located(*stack, ci as int, fields, layer, *pick) == Err::<Place, Seq<char>>(m@),
        },
{
    match layer {
        Layer::Card => {
            let c = &stack.cards[ci];
            let names = names_of(&c.fields, &c.buttons, fields);
            match pick_in(&names, pick) {
                Ok(i) => Ok(Place::Card(i)),
                Err(m) => Err(m),
            }
        },
        Layer::Background => {
            let g = script_background(stack, ci)?;
            let b = &stack.backgrounds[g];
            let names = names_of(&b.fields, &b.buttons, fields);
            match pick_in(&names, pick) {
                Ok(i) => Ok(Place::Background(g, i)),
                Err(m) => Err(m),
            }
        },
    }
}

/// One step of the generator behind `random(n)`: xorshift with shifts 13, 7 and 17.
pub open spec fn xorshift(s: u64) -> u64 {
    let a = s ^ (s << 13u64);
    let b = a ^ (a >> 7u64);
    b ^ (b << 17u64)
}

/// `random(max)`: advances the generator state and returns the new state with a number
/// between 1 and `max` taken from it.
pub fn random_pick(state: u64, max: u64) -> (r: (u64, u64))
    requires
        max >= 1,
    ensures
        r.0 == xorshift(state),
        r.1 == r.0 % max + 1,
        1 <= r.1 <= max,
{
    let mut x = state;
    x = x ^ (x << 13u64);
    x = x ^ (x >> 7u64);
    x = x ^ (x << 17u64);
    (x, x % max + 1)
}

/// What a bare word means in an expression: `it`, one of the built-in constants (a
/// truth value, `empty`, or a one-character text such as `space` or `comma`), or a
/// variable (whose value is the word itself while it is unset).
pub enum Word {
    It,
    Bool(bool),
    Empty,
    Char(char),
    Variable,
}

/// The meaning of the bare word `w` (see `Word`); the words are matched exactly.
pub open spec fn word_meaning(w: Seq<char>) -> Word {
    if w == "it"@ {
        Word::It
    } else if w == "true"@ {
        Word::Bool(true)
    } else if w == "false"@ {
        Word::Bool(false)
    } else if w == "empty"@ {
        Word::Empty
    } else if w == "space"@ {
        Word::Char(' ')
    } else if w == "tab"@ {
        Word::Char('\t')
    } else if w == "return"@ || w == "cr"@ {
        Word::Char('\n')
    } else if w == "quote"@ {
        Word::Char('"')
    } else if w == "comma"@ {
        Word::Char(',')
    } else if w == "colon"@ {
        Word::Char(':')
    } else {
        Word::Variable
    }
}

/// The meaning of the bare word `w` (see `word_meaning`).
pub fn word_of(w: &str) -> (r: Word)
    ensures
        r == word_meaning(w@),
{
    if str_eq(w, "it") {
        Word::It
    } else if str_eq(w, "true") {
        Word::Bool(true)
    } else if str_eq(w, "false") {
        Word::Bool(false)
    } else if str_eq(w, "empty") {
        Word::Empty
    } else if str_eq(w, "space") {
        Word::Char(' ')
    } else if str_eq(w, "tab") {
        Word::Char('\t')
    } else if str_eq(w, "return") || str_eq(w, "cr") {
        Word::Char('\n')
    } else if str_eq(w, "quote") {
        Word::Char('"')
    } else if str_eq(w, "comma") {
        Word::Char(',')
    } else if str_eq(w, "colon") {
        Word::Char(':')
    } else {
        Word::Variable
    }
}

/// The command word that asks the host for `r`.
pub open spec fn request_name(r: Request) -> Seq<char> {
    match r {
        Request::OpenUrl => "openurl"@,
        Request::Share => "share"@,
        Request::Toast => "toast"@,
        Request::GetUrl => "geturl"@,
        Request::AskPermission => "askpermission"@,
        Request::Snackbar => "snackbar"@,
        Request::Notify => "notify"@,
    }
}

/// The command word of a host request command, empty for the others.
pub open spec fn host_cmd_name(c: HostCmd) -> Seq<char> {
    match c {
        HostCmd::OpenUrl(_) => "openurl"@,
        HostCmd::Share(_) => "share"@,
        HostCmd::Toast(_) => "toast"@,
        HostCmd::GetUrl(_) => "geturl"@,
        HostCmd::AskPermission(_) => "askpermission"@,
        HostCmd::Snackbar(_, _, _) => "snackbar"@,
        HostCmd::Notify(_, _, _) => "notify"@,
        _ => Seq::empty(),
    }
}

/// Each host command word asks the host for the request of the same name, and the
/// command that request makes is the one of that name, carrying the first argument's
/// text: `toast "hi"` shows a toast `hi`, `share "hi"` shares `hi`, and no two words ask
/// for the same thing.
pub proof fn lemma_host_requests_by_name(r: Request, first_is_repeat: bool, first_is_stacks: bool, texts: Seq<String>, c: HostCmd)
    ensures
        send_kind(request_name(r), first_is_repeat, first_is_stacks) == SendKind::Host(r),
        forall|r2: Request| request_name(r2) == request_name(r) ==> r2 == r,
        request_made(r, texts, c) ==> host_cmd_name(c) == request_name(r),
        request_made(r, texts, c) ==> match c {
            HostCmd::OpenUrl(t) | HostCmd::Share(t) | HostCmd::Toast(t) | HostCmd::GetUrl(t)
            | HostCmd::AskPermission(t) | HostCmd::Snackbar(t, _, _) | HostCmd::Notify(t, _, _) => t@ == arg_text(texts, 0),
            _ => false,
        },
{
    reveal_strlit("openurl");
    reveal_strlit("share");
    reveal_strlit("toast");
    reveal_strlit("geturl");
    reveal_strlit("askpermission");
    reveal_strlit("snackbar");
    reveal_strlit("notify");
    reveal_strlit("exit");
    reveal_strlit("return");
    reveal_strlit("pass");
    reveal_strlit("show");
    assert("openurl"@.len() == 7);
    assert("share"@.len() == 5);
    assert("toast"@.len() == 5);
    assert("geturl"@.len() == 6);
    assert("askpermission"@.len() == 13);
    assert("snackbar"@.len() == 8);
    assert("notify"@.len() == 6);
    assert("exit"@.len() == 4);
    assert("return"@.len() == 6);
    assert("pass"@.len() == 4);
    assert("show"@.len() == 4);
    assert("toast"@[0] != "share"@[0]);
    assert("notify"@[0] != "geturl"@[0]);
    assert("return"@[0] != "geturl"@[0]);
    assert("return"@[0] != "notify"@[0]);
    assert("pass"@[0] != "exit"@[0]);
    assert("show"@[0] != "exit"@[0]);
    assert("show"@[0] != "pass"@[0]);
}

/// The control words: `exit repeat` leaves the loop; `exit`, `return` and `pass` leave
/// the handler; `show stacks` shows the stacks and `show` with anything else does
/// nothing.
pub proof fn lemma_control_words(first_is_repeat: bool, first_is_stacks: bool)
    ensures
        send_kind("exit"@, true, first_is_stacks) == SendKind::ExitRepeat,
        send_kind("exit"@, false, first_is_stacks) == SendKind::ExitHandler,
        send_kind("return"@, first_is_repeat, first_is_stacks) == SendKind::ExitHandler,
        send_kind("pass"@, first_is_repeat, first_is_stacks) == SendKind::ExitHandler,
        send_kind("show"@, first_is_repeat, true) == SendKind::ShowStacks,
        send_kind("show"@, first_is_repeat, false) == SendKind::Nothing,
{
    reveal_strlit("openurl");
    reveal_strlit("share");
    reveal_strlit("toast");
    reveal_strlit("geturl");
    reveal_strlit("askpermission");
    reveal_strlit("snackbar");
    reveal_strlit("notify");
    reveal_strlit("exit");
    reveal_strlit("return");
    reveal_strlit("pass");
    reveal_strlit("show");
    assert("openurl"@.len() == 7);
    assert("share"@.len() == 5);
    assert("toast"@.len() == 5);
    assert("geturl"@.len() == 6);
    assert("askpermission"@.len() == 13);
    assert("snackbar"@.len() == 8);
    assert("notify"@.len() == 6);
    assert("exit"@.len() == 4);
    assert("return"@.len() == 6);
    assert("pass"@.len() == 4);
    assert("show"@.len() == 4);
    assert("toast"@[0] != "share"@[0]);
    assert("notify"@[0] != "geturl"@[0]);
    assert("return"@[0] != "geturl"@[0]);
    assert("return"@[0] != "notify"@[0]);
    assert("pass"@[0] != "exit"@[0]);
    assert("show"@[0] != "exit"@[0]);
    assert("show"@[0] != "pass"@[0]);
}

} // verus!
