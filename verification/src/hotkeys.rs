//! Hotkeys: the actions, the binding strings that name them ("⌘-Shift-T",
//! "Ctrl+⌘+F"), the per-platform defaults, and the lookup table that matches
//! a key press against them. Reading and writing the user's file is the
//! caller's part.
use vstd::prelude::*;

use crate::text::{
    chars_eq, chars_of, copy_string, spec_ascii_upper, spec_is_ascii_alpha,
    spec_is_ascii_digit, string_from_chars,
};

verus! {

/// All supported hotkey actions.
#[derive(Debug, Clone, Copy, PartialEq, Eq, Hash, Structural)]
pub enum HotkeyAction {
    NewTab,
    CloseTab,
    ReopenTab,
    NextTab,
    PreviousTab,
    Tab1,
    Tab2,
    Tab3,
    Tab4,
    Tab5,
    Tab6,
    Tab7,
    Tab8,
    Tab9,
    Tab10,
    Copy,
    Paste,
    SelectAll,
    Clear,
    ZoomIn,
    ZoomOut,
    ResetZoom,
    Search,
    CtrlC,
    Home,
    End,
    DeleteLine,
    ToggleFullscreen,
    NewWindow,
    Settings,
    ScrollToTop,
    ScrollPageUp,
    ScrollUp,
    ScrollDown,
    ScrollPageDown,
    ScrollToBottom,
}

/// The physical keys that bindings can name: letters, digits, named keys,
/// and the US-layout symbol keys; every other key is `Other`.
#[derive(Debug, Clone, Copy, PartialEq, Eq, Hash, Structural)]
pub enum KeyCode {
    KeyA,
    KeyB,
    KeyC,
    KeyD,
    KeyE,
    KeyF,
    KeyG,
    KeyH,
    KeyI,
    KeyJ,
    KeyK,
    KeyL,
    KeyM,
    KeyN,
    KeyO,
    KeyP,
    KeyQ,
    KeyR,
    KeyS,
    KeyT,
    KeyU,
    KeyV,
    KeyW,
    KeyX,
    KeyY,
    KeyZ,
    Digit0,
    Digit1,
    Digit2,
    Digit3,
    Digit4,
    Digit5,
    Digit6,
    Digit7,
    Digit8,
    Digit9,
    Tab,
    Enter,
    Space,
    Backspace,
    Delete,
    Insert,
    Escape,
    ArrowUp,
    ArrowDown,
    ArrowLeft,
    ArrowRight,
    Home,
    End,
    PageUp,
    PageDown,
    F1,
    F2,
    F3,
    F4,
    F5,
    F6,
    F7,
    F8,
    F9,
    F10,
    F11,
    F12,
    Equal,
    Minus,
    Comma,
    Period,
    Slash,
    Semicolon,
    Quote,
    BracketLeft,
    BracketRight,
    Backslash,
    Backquote,
    Other,
}

// ---------------------------------------------------------------------------
// Binding strings
// ---------------------------------------------------------------------------

/// A binding string, parsed: its modifiers and the key it names.
#[derive(Debug)]
pub struct ParsedBinding {
    pub ctrl: bool,
    pub alt: bool,
    pub shift: bool,
    pub super_key: bool,
    pub key: String,
}

pub struct BindingView {
    pub ctrl: bool,
    pub alt: bool,
    pub shift: bool,
    pub super_key: bool,
    pub key: Seq<char>,
}

impl View for ParsedBinding {
    type V = BindingView;

    open spec fn view(&self) -> BindingView {
        BindingView {
            ctrl: self.ctrl,
            alt: self.alt,
            shift: self.shift,
            super_key: self.super_key,
            key: self.key@,
        }
    }
}

pub open spec fn is_separator(c: char) -> bool {
    c == '+' || c == '-'
}

pub open spec fn close_token(done: Seq<Seq<char>>, cur: Seq<char>) -> Seq<Seq<char>> {
    if cur.len() > 0 {
        done.push(cur)
    } else {
        done
    }
}

/// The tokens of `s` after `done` and the partial token `cur`.
pub open spec fn tokens_acc(done: Seq<Seq<char>>, cur: Seq<char>, s: Seq<char>) -> Seq<Seq<char>>
    decreases s.len(),
{
    if s.len() == 0 {
        close_token(done, cur)
    } else if is_separator(s[0]) {
        tokens_acc(close_token(done, cur), seq![], s.drop_first())
    } else {
        tokens_acc(done, cur.push(s[0]), s.drop_first())
    }
}

/// The non-empty parts of `s` between the separators `+` and `-`.
pub open spec fn tokens(s: Seq<char>) -> Seq<Seq<char>> {
    tokens_acc(seq![], seq![], s)
}

/// The modifier names: `Ctrl`, `Shift`, `Alt`, `⌥` and `⌘`.
pub open spec fn spec_is_modifier(t: Seq<char>) -> bool {
    t == "Ctrl"@ || t == "Shift"@ || t == "Alt"@ || t == "⌥"@ || t == "⌘"@
}

pub open spec fn empty_binding() -> BindingView {
    BindingView { ctrl: false, alt: false, shift: false, super_key: false, key: seq![] }
}

/// The effect of one token: the last token names the key unless it is a
/// modifier or the binding ends in a minus key; a modifier name sets its
/// modifier; any other token names the key.
pub open spec fn token_step(b: BindingView, part: Seq<char>, is_key: bool) -> BindingView {
    if is_key {
        BindingView { key: part, ..b }
    } else if part == "Ctrl"@ {
        BindingView { ctrl: true, ..b }
    } else if part == "Shift"@ {
        BindingView { shift: true, ..b }
    } else if part == "Alt"@ || part == "⌥"@ {
        BindingView { alt: true, ..b }
    } else if part == "⌘"@ {
        BindingView { super_key: true, ..b }
    } else {
        BindingView { key: part, ..b }
    }
}

/// The binding after the first `k` tokens.
pub open spec fn bind_prefix(toks: Seq<Seq<char>>, k: nat, key_is_minus: bool) -> BindingView
    decreases k,
{
    if k == 0 || k > toks.len() {
        empty_binding()
    } else {
        let i = (k - 1) as int;
        token_step(
            bind_prefix(toks, (k - 1) as nat, key_is_minus),
            toks[i],
            i == toks.len() - 1 && !spec_is_modifier(toks[i]) && !key_is_minus,
        )
    }
}

/// A binding that ends in `-` after only modifiers names the minus key ("⌘--").
pub open spec fn spec_key_is_minus(s: Seq<char>) -> bool {
    let toks = tokens(s);
    s.len() > 0 && s.last() == '-' && (toks.len() == 0 || spec_is_modifier(toks.last()))
}

/// The binding that a binding string names.
pub open spec fn spec_parse_key_binding(s: Seq<char>) -> BindingView {
    let toks = tokens(s);
    let kim = spec_key_is_minus(s);
    let b = bind_prefix(toks, toks.len(), kim);
    let b2 = if kim {
        BindingView { key: seq!['-'], ..b }
    } else {
        b
    };
    if b2.key.len() == 0 && toks.len() > 0 {
        BindingView { key: toks.last(), ..b2 }
    } else {
        b2
    }
}

pub open spec fn vecs_view(v: Seq<Vec<char>>) -> Seq<Seq<char>> {
    v.map_values(|x: Vec<char>| x@)
}

/// Splits `s` into its tokens.
fn split_tokens(s: &[char]) -> (r: Vec<Vec<char>>)
    ensures
        vecs_view(r@) == tokens(s@),
{
    let mut done: Vec<Vec<char>> = Vec::new();
    let mut cur: Vec<char> = Vec::new();
    let mut i: usize = 0;
    assert(s@.skip(0) =~= s@);
    assert(vecs_view(done@) =~= seq![]);
    while i < s.len()
        invariant
            i <= s@.len(),
            tokens(s@) == tokens_acc(vecs_view(done@), cur@, s@.skip(i as int)),
        decreases s.len() - i,
    {
        assert(s@.skip(i as int).drop_first() =~= s@.skip(i + 1));
        assert(s@.skip(i as int)[0] == s@[i as int]);
        let c = s[i];
        let ghost d0 = vecs_view(done@);
        let ghost c0 = cur@;
        if c == '+' || c == '-' {
            assert(tokens_acc(d0, c0, s@.skip(i as int)) == tokens_acc(
                close_token(d0, c0),
                seq![],
                s@.skip(i + 1),
            ));
            if cur.len() > 0 {
                let ghost before = vecs_view(done@);
                let mut fresh: Vec<char> = Vec::new();
                std::mem::swap(&mut fresh, &mut cur);
                done.push(fresh);
                assert(vecs_view(done@) =~= before.push(fresh@));
            }
            assert(cur@ =~= Seq::<char>::empty());
        } else {
            cur.push(c);
        }
        i += 1;
    }
    if cur.len() > 0 {
        let ghost before = vecs_view(done@);
        let ghost c = cur@;
        done.push(cur);
        assert(vecs_view(done@) =~= before.push(c));
    }
    done
}

pub fn is_modifier(t: &[char]) -> (r: bool)
    ensures
        r == spec_is_modifier(t@),
{
    let ctrl = chars_of("Ctrl");
    let shift = chars_of("Shift");
    let alt = chars_of("Alt");
    let option = chars_of("⌥");
    let command = chars_of("⌘");
    chars_eq(t, ctrl.as_slice()) || chars_eq(t, shift.as_slice()) || chars_eq(t, alt.as_slice())
        || chars_eq(t, option.as_slice()) || chars_eq(t, command.as_slice())
}

/// Parses a binding string such as "⌘-Shift-T", "Ctrl+⌘+F", "Alt-1" or
/// "F11"; `-` and `+` both separate the parts.
pub fn parse_key_binding(s: &str) -> (r: ParsedBinding)
    ensures
        r@ == spec_parse_key_binding(s@),
{
    let cs = chars_of(s);
    let toks = split_tokens(cs.as_slice());
    let n = toks.len();
    let ghost tv = vecs_view(toks@);
    let ends_minus = cs.len() > 0 && cs[cs.len() - 1] == '-';
    let key_is_minus = ends_minus && (n == 0 || is_modifier(toks[n - 1].as_slice()));
    assert(key_is_minus == spec_key_is_minus(s@));
    let ctrl_w = chars_of("Ctrl");
    let shift_w = chars_of("Shift");
    let alt_w = chars_of("Alt");
    let option_w = chars_of("⌥");
    let command_w = chars_of("⌘");
    let mut ctrl = false;
    let mut alt = false;
    let mut shift = false;
    let mut super_key = false;
    let mut key: Vec<char> = Vec::new();
    let mut i: usize = 0;
    while i < n
        invariant
            i <= n == toks@.len(),
            tv == vecs_view(toks@),
            ctrl_w@ == "Ctrl"@,
            shift_w@ == "Shift"@,
            alt_w@ == "Alt"@,
            option_w@ == "⌥"@,
            command_w@ == "⌘"@,
            (BindingView { ctrl, alt, shift, super_key, key: key@ }) == bind_prefix(
                tv,
                i as nat,
                key_is_minus,
            ),
        decreases n - i,
    {
        let part = toks[i].as_slice();
        assert(tv[i as int] == part@);
        let is_key = i == n - 1 && !is_modifier(part) && !key_is_minus;
        if is_key {
            key = crate::text::copy_range(part, 0, part.len());
        } else if chars_eq(part, ctrl_w.as_slice()) {
            ctrl = true;
        } else if chars_eq(part, shift_w.as_slice()) {
            shift = true;
        } else if chars_eq(part, alt_w.as_slice()) || chars_eq(part, option_w.as_slice()) {
            alt = true;
        } else if chars_eq(part, command_w.as_slice()) {
            super_key = true;
        } else {
            key = crate::text::copy_range(part, 0, part.len());
        }
        assert(part@.subrange(0, part@.len() as int) =~= part@);
        i += 1;
    }
    if key_is_minus {
        key = vec!['-'];
        assert(key@ =~= seq!['-']);
    }
    if key.len() == 0 && n > 0 {
        let last = toks[n - 1].as_slice();
        assert(tv.last() == last@);
        key = crate::text::copy_range(last, 0, last.len());
        assert(last@.subrange(0, last@.len() as int) =~= last@);
    }
    ParsedBinding { ctrl, alt, shift, super_key, key: string_from_chars(key.as_slice()) }
}

/// Two texts that differ only in which separator (`+` or `-`) stands at a
/// position.
pub open spec fn same_but_separators(s1: Seq<char>, s2: Seq<char>) -> bool {
    &&& s1.len() == s2.len()
    &&& forall|i: int|
        0 <= i < s1.len() ==> (is_separator(#[trigger] s1[i]) && is_separator(s2[i])) || s1[i]
            == s2[i]
}

proof fn lemma_tokens_acc_separators(
    done: Seq<Seq<char>>,
    cur: Seq<char>,
    s1: Seq<char>,
    s2: Seq<char>,
)
    requires
        same_but_separators(s1, s2),
    ensures
        tokens_acc(done, cur, s1) == tokens_acc(done, cur, s2),
    decreases s1.len(),
{
    if s1.len() > 0 {
        assert(is_separator(s1[0]) == is_separator(s2[0]));
        let d1 = s1.drop_first();
        let d2 = s2.drop_first();
        assert forall|i: int| 0 <= i < d1.len() implies (is_separator(#[trigger] d1[i])
            && is_separator(d2[i])) || d1[i] == d2[i] by {
            assert(d1[i] == s1[i + 1] && d2[i] == s2[i + 1]);
        }
        if is_separator(s1[0]) {
            lemma_tokens_acc_separators(close_token(done, cur), seq![], d1, d2);
        } else {
            lemma_tokens_acc_separators(done, cur.push(s1[0]), d1, d2);
        }
    }
}

/// `-` and `+` are interchangeable separators: "Ctrl+⌘+F" and "Ctrl-⌘-F"
/// name the same binding. Two binding strings that differ only in which
/// separator stands at each position parse alike, provided they end in the
/// same character (a final `-` names the minus key, a final `+` does not).
pub proof fn law_separators_interchangeable(s1: Seq<char>, s2: Seq<char>)
    requires
        same_but_separators(s1, s2),
        s1.len() > 0 ==> s1.last() == s2.last(),
    ensures
        spec_parse_key_binding(s1) == spec_parse_key_binding(s2),
{
    lemma_tokens_acc_separators(seq![], seq![], s1, s2);
}

// ---------------------------------------------------------------------------
// Key names
// ---------------------------------------------------------------------------

/// A name of one byte: a single ASCII character.
pub open spec fn is_single_ascii(name: Seq<char>) -> bool {
    name.len() == 1 && (name[0] as u32) < 128
}

pub open spec fn spec_letter_to_code(c: char) -> Option<KeyCode> {
    let u = spec_ascii_upper(c);
    if u == 'A' { Some(KeyCode::KeyA) }
    else if u == 'B' { Some(KeyCode::KeyB) }
    else if u == 'C' { Some(KeyCode::KeyC) }
    else if u == 'D' { Some(KeyCode::KeyD) }
    else if u == 'E' { Some(KeyCode::KeyE) }
    else if u == 'F' { Some(KeyCode::KeyF) }
    else if u == 'G' { Some(KeyCode::KeyG) }
    else if u == 'H' { Some(KeyCode::KeyH) }
    else if u == 'I' { Some(KeyCode::KeyI) }
    else if u == 'J' { Some(KeyCode::KeyJ) }
    else if u == 'K' { Some(KeyCode::KeyK) }
    else if u == 'L' { Some(KeyCode::KeyL) }
    else if u == 'M' { Some(KeyCode::KeyM) }
    else if u == 'N' { Some(KeyCode::KeyN) }
    else if u == 'O' { Some(KeyCode::KeyO) }
    else if u == 'P' { Some(KeyCode::KeyP) }
    else if u == 'Q' { Some(KeyCode::KeyQ) }
    else if u == 'R' { Some(KeyCode::KeyR) }
    else if u == 'S' { Some(KeyCode::KeyS) }
    else if u == 'T' { Some(KeyCode::KeyT) }
    else if u == 'U' { Some(KeyCode::KeyU) }
    else if u == 'V' { Some(KeyCode::KeyV) }
    else if u == 'W' { Some(KeyCode::KeyW) }
    else if u == 'X' { Some(KeyCode::KeyX) }
    else if u == 'Y' { Some(KeyCode::KeyY) }
    else if u == 'Z' { Some(KeyCode::KeyZ) }
    else { None }
}

/// The key code of a letter, either case.
pub fn letter_to_code(c: char) -> (r: Option<KeyCode>)
    ensures
        r == spec_letter_to_code(c),
{
    let u = crate::text::ascii_upper(c);
    match u {
        'A' => Some(KeyCode::KeyA),
        'B' => Some(KeyCode::KeyB),
        'C' => Some(KeyCode::KeyC),
        'D' => Some(KeyCode::KeyD),
        'E' => Some(KeyCode::KeyE),
        'F' => Some(KeyCode::KeyF),
        'G' => Some(KeyCode::KeyG),
        'H' => Some(KeyCode::KeyH),
        'I' => Some(KeyCode::KeyI),
        'J' => Some(KeyCode::KeyJ),
        'K' => Some(KeyCode::KeyK),
        'L' => Some(KeyCode::KeyL),
        'M' => Some(KeyCode::KeyM),
        'N' => Some(KeyCode::KeyN),
        'O' => Some(KeyCode::KeyO),
        'P' => Some(KeyCode::KeyP),
        'Q' => Some(KeyCode::KeyQ),
        'R' => Some(KeyCode::KeyR),
        'S' => Some(KeyCode::KeyS),
        'T' => Some(KeyCode::KeyT),
        'U' => Some(KeyCode::KeyU),
        'V' => Some(KeyCode::KeyV),
        'W' => Some(KeyCode::KeyW),
        'X' => Some(KeyCode::KeyX),
        'Y' => Some(KeyCode::KeyY),
        'Z' => Some(KeyCode::KeyZ),
        _ => None,
    }
}

pub open spec fn spec_digit_to_code(c: char) -> Option<KeyCode> {
    if c == '0' { Some(KeyCode::Digit0) }
    else if c == '1' { Some(KeyCode::Digit1) }
    else if c == '2' { Some(KeyCode::Digit2) }
    else if c == '3' { Some(KeyCode::Digit3) }
    else if c == '4' { Some(KeyCode::Digit4) }
    else if c == '5' { Some(KeyCode::Digit5) }
    else if c == '6' { Some(KeyCode::Digit6) }
    else if c == '7' { Some(KeyCode::Digit7) }
    else if c == '8' { Some(KeyCode::Digit8) }
    else if c == '9' { Some(KeyCode::Digit9) }
    else { None }
}

/// The key code of a digit on the main row.
pub fn digit_to_code(c: char) -> (r: Option<KeyCode>)
    ensures
        r == spec_digit_to_code(c),
{
    match c {
        '0' => Some(KeyCode::Digit0),
        '1' => Some(KeyCode::Digit1),
        '2' => Some(KeyCode::Digit2),
        '3' => Some(KeyCode::Digit3),
        '4' => Some(KeyCode::Digit4),
        '5' => Some(KeyCode::Digit5),
        '6' => Some(KeyCode::Digit6),
        '7' => Some(KeyCode::Digit7),
        '8' => Some(KeyCode::Digit8),
        '9' => Some(KeyCode::Digit9),
        _ => None,
    }
}

/// The unshifted US-layout symbol of a symbol key.
pub open spec fn spec_physical_code_to_base_symbol(code: KeyCode) -> Option<char> {
    match code {
        KeyCode::Equal => Some('='),
        KeyCode::Minus => Some('-'),
        KeyCode::Comma => Some(','),
        KeyCode::Period => Some('.'),
        KeyCode::Slash => Some('/'),
        KeyCode::Semicolon => Some(';'),
        KeyCode::Quote => Some('\''),
        KeyCode::BracketLeft => Some('['),
        KeyCode::BracketRight => Some(']'),
        KeyCode::Backslash => Some('\\'),
        KeyCode::Backquote => Some('`'),
        _ => None,
    }
}

pub fn physical_code_to_base_symbol(code: KeyCode) -> (r: Option<char>)
    ensures
        r == spec_physical_code_to_base_symbol(code),
{
    match code {
        KeyCode::Equal => Some('='),
        KeyCode::Minus => Some('-'),
        KeyCode::Comma => Some(','),
        KeyCode::Period => Some('.'),
        KeyCode::Slash => Some('/'),
        KeyCode::Semicolon => Some(';'),
        KeyCode::Quote => Some('\''),
        KeyCode::BracketLeft => Some('['),
        KeyCode::BracketRight => Some(']'),
        KeyCode::Backslash => Some('\\'),
        KeyCode::Backquote => Some('`'),
        _ => None,
    }
}

/// The key code of a named key.
pub open spec fn spec_named_key_to_code(n: Seq<char>) -> Option<KeyCode> {
    if n == "Tab"@ { Some(KeyCode::Tab) }
    else if n == "Enter"@ || n == "Return"@ { Some(KeyCode::Enter) }
    else if n == "Space"@ { Some(KeyCode::Space) }
    else if n == "Backspace"@ { Some(KeyCode::Backspace) }
    else if n == "Delete"@ { Some(KeyCode::Delete) }
    else if n == "Insert"@ { Some(KeyCode::Insert) }
    else if n == "Escape"@ || n == "Esc"@ { Some(KeyCode::Escape) }
    else if n == "Up"@ { Some(KeyCode::ArrowUp) }
    else if n == "Down"@ { Some(KeyCode::ArrowDown) }
    else if n == "Left"@ { Some(KeyCode::ArrowLeft) }
    else if n == "Right"@ { Some(KeyCode::ArrowRight) }
    else if n == "Home"@ { Some(KeyCode::Home) }
    else if n == "End"@ { Some(KeyCode::End) }
    else if n == "PageUp"@ { Some(KeyCode::PageUp) }
    else if n == "PageDown"@ { Some(KeyCode::PageDown) }
    else if n == "F1"@ { Some(KeyCode::F1) }
    else if n == "F2"@ { Some(KeyCode::F2) }
    else if n == "F3"@ { Some(KeyCode::F3) }
    else if n == "F4"@ { Some(KeyCode::F4) }
    else if n == "F5"@ { Some(KeyCode::F5) }
    else if n == "F6"@ { Some(KeyCode::F6) }
    else if n == "F7"@ { Some(KeyCode::F7) }
    else if n == "F8"@ { Some(KeyCode::F8) }
    else if n == "F9"@ { Some(KeyCode::F9) }
    else if n == "F10"@ { Some(KeyCode::F10) }
    else if n == "F11"@ { Some(KeyCode::F11) }
    else if n == "F12"@ { Some(KeyCode::F12) }
    else { None }
}

fn is_name(n: &[char], lit: &str) -> (r: bool)
    ensures
        r == (n@ == lit@),
{
    let l = chars_of(lit);
    chars_eq(n, l.as_slice())
}

pub fn named_key_to_code(n: &[char]) -> (r: Option<KeyCode>)
    ensures
        r == spec_named_key_to_code(n@),
{
    if is_name(n, "Tab") { Some(KeyCode::Tab) }
    else if is_name(n, "Enter") || is_name(n, "Return") { Some(KeyCode::Enter) }
    else if is_name(n, "Space") { Some(KeyCode::Space) }
    else if is_name(n, "Backspace") { Some(KeyCode::Backspace) }
    else if is_name(n, "Delete") { Some(KeyCode::Delete) }
    else if is_name(n, "Insert") { Some(KeyCode::Insert) }
    else if is_name(n, "Escape") || is_name(n, "Esc") { Some(KeyCode::Escape) }
    else if is_name(n, "Up") { Some(KeyCode::ArrowUp) }
    else if is_name(n, "Down") { Some(KeyCode::ArrowDown) }
    else if is_name(n, "Left") { Some(KeyCode::ArrowLeft) }
    else if is_name(n, "Right") { Some(KeyCode::ArrowRight) }
    else if is_name(n, "Home") { Some(KeyCode::Home) }
    else if is_name(n, "End") { Some(KeyCode::End) }
    else if is_name(n, "PageUp") { Some(KeyCode::PageUp) }
    else if is_name(n, "PageDown") { Some(KeyCode::PageDown) }
    else if is_name(n, "F1") { Some(KeyCode::F1) }
    else if is_name(n, "F2") { Some(KeyCode::F2) }
    else if is_name(n, "F3") { Some(KeyCode::F3) }
    else if is_name(n, "F4") { Some(KeyCode::F4) }
    else if is_name(n, "F5") { Some(KeyCode::F5) }
    else if is_name(n, "F6") { Some(KeyCode::F6) }
    else if is_name(n, "F7") { Some(KeyCode::F7) }
    else if is_name(n, "F8") { Some(KeyCode::F8) }
    else if is_name(n, "F9") { Some(KeyCode::F9) }
    else if is_name(n, "F10") { Some(KeyCode::F10) }
    else if is_name(n, "F11") { Some(KeyCode::F11) }
    else if is_name(n, "F12") { Some(KeyCode::F12) }
    else { None }
}

/// The character printed on a letter or digit key (the capital letter).
pub open spec fn key_cap(c: KeyCode) -> Option<char> {
    match c {
        KeyCode::KeyA => Some('A'),
        KeyCode::KeyB => Some('B'),
        KeyCode::KeyC => Some('C'),
        KeyCode::KeyD => Some('D'),
        KeyCode::KeyE => Some('E'),
        KeyCode::KeyF => Some('F'),
        KeyCode::KeyG => Some('G'),
        KeyCode::KeyH => Some('H'),
        KeyCode::KeyI => Some('I'),
        KeyCode::KeyJ => Some('J'),
        KeyCode::KeyK => Some('K'),
        KeyCode::KeyL => Some('L'),
        KeyCode::KeyM => Some('M'),
        KeyCode::KeyN => Some('N'),
        KeyCode::KeyO => Some('O'),
        KeyCode::KeyP => Some('P'),
        KeyCode::KeyQ => Some('Q'),
        KeyCode::KeyR => Some('R'),
        KeyCode::KeyS => Some('S'),
        KeyCode::KeyT => Some('T'),
        KeyCode::KeyU => Some('U'),
        KeyCode::KeyV => Some('V'),
        KeyCode::KeyW => Some('W'),
        KeyCode::KeyX => Some('X'),
        KeyCode::KeyY => Some('Y'),
        KeyCode::KeyZ => Some('Z'),
        KeyCode::Digit0 => Some('0'),
        KeyCode::Digit1 => Some('1'),
        KeyCode::Digit2 => Some('2'),
        KeyCode::Digit3 => Some('3'),
        KeyCode::Digit4 => Some('4'),
        KeyCode::Digit5 => Some('5'),
        KeyCode::Digit6 => Some('6'),
        KeyCode::Digit7 => Some('7'),
        KeyCode::Digit8 => Some('8'),
        KeyCode::Digit9 => Some('9'),
        _ => None,
    }
}

/// A letter names the key with that letter on it, whichever its case, and
/// a digit the key of that digit on the main row; no other character names
/// a letter or digit key.
pub proof fn law_letters_and_digits_name_their_keys(c: char)
    ensures
        spec_is_ascii_alpha(c) ==> spec_letter_to_code(c) is Some && key_cap(
            spec_letter_to_code(c)->0,
        ) == Some(spec_ascii_upper(c)),
        !spec_is_ascii_alpha(c) ==> spec_letter_to_code(c) is None,
        spec_is_ascii_digit(c) ==> spec_digit_to_code(c) is Some && key_cap(
            spec_digit_to_code(c)->0,
        ) == Some(c),
        !spec_is_ascii_digit(c) ==> spec_digit_to_code(c) is None,
{
}

/// The name by which a binding string writes a key that is not a letter,
/// a digit or a symbol.
pub open spec fn written_key_name(c: KeyCode) -> Option<Seq<char>> {
    match c {
        KeyCode::Tab => Some("Tab"@),
        KeyCode::Enter => Some("Enter"@),
        KeyCode::Space => Some("Space"@),
        KeyCode::Backspace => Some("Backspace"@),
        KeyCode::Delete => Some("Delete"@),
        KeyCode::Insert => Some("Insert"@),
        KeyCode::Escape => Some("Escape"@),
        KeyCode::ArrowUp => Some("Up"@),
        KeyCode::ArrowDown => Some("Down"@),
        KeyCode::ArrowLeft => Some("Left"@),
        KeyCode::ArrowRight => Some("Right"@),
        KeyCode::Home => Some("Home"@),
        KeyCode::End => Some("End"@),
        KeyCode::PageUp => Some("PageUp"@),
        KeyCode::PageDown => Some("PageDown"@),
        KeyCode::F1 => Some("F1"@),
        KeyCode::F2 => Some("F2"@),
        KeyCode::F3 => Some("F3"@),
        KeyCode::F4 => Some("F4"@),
        KeyCode::F5 => Some("F5"@),
        KeyCode::F6 => Some("F6"@),
        KeyCode::F7 => Some("F7"@),
        KeyCode::F8 => Some("F8"@),
        KeyCode::F9 => Some("F9"@),
        KeyCode::F10 => Some("F10"@),
        KeyCode::F11 => Some("F11"@),
        KeyCode::F12 => Some("F12"@),
        _ => None,
    }
}

/// A key name in a binding is read as the key it names: "Up" is the Up
/// arrow, "Down" the Down arrow, "F5" the F5 key, and so on for every named
/// key, with "Return" and "Esc" as other names of Enter and Escape. No other
/// text names a key, so different names (but those two) name different keys,
/// and a binding such as "Ctrl-Shift-Down" is matched on the Down arrow.
pub proof fn law_key_names_name_their_keys(c: KeyCode, n: Seq<char>)
    ensures
        written_key_name(c) is Some ==> spec_named_key_to_code(written_key_name(c)->0) == Some(c),
        written_key_name(c) is Some ==> spec_key_name_to_physical(written_key_name(c)->0) == Some(c),
        spec_named_key_to_code("Return"@) == Some(KeyCode::Enter),
        spec_named_key_to_code("Esc"@) == Some(KeyCode::Escape),
        spec_named_key_to_code(n) == Some(c) ==> written_key_name(c) == Some(n) || (n == "Return"@
            && c == KeyCode::Enter) || (n == "Esc"@ && c == KeyCode::Escape),
{
    reveal_strlit("Tab");
    reveal_strlit("Enter");
    reveal_strlit("Space");
    reveal_strlit("Backspace");
    reveal_strlit("Delete");
    reveal_strlit("Insert");
    reveal_strlit("Escape");
    reveal_strlit("Up");
    reveal_strlit("Down");
    reveal_strlit("Left");
    reveal_strlit("Right");
    reveal_strlit("Home");
    reveal_strlit("End");
    reveal_strlit("PageUp");
    reveal_strlit("PageDown");
    reveal_strlit("F1");
    reveal_strlit("F2");
    reveal_strlit("F3");
    reveal_strlit("F4");
    reveal_strlit("F5");
    reveal_strlit("F6");
    reveal_strlit("F7");
    reveal_strlit("F8");
    reveal_strlit("F9");
    reveal_strlit("F10");
    reveal_strlit("F11");
    reveal_strlit("F12");
    reveal_strlit("Return");
    reveal_strlit("Esc");
    assert("Tab"@.len() == 3);
    assert("Tab"@[0] == 'T');
    assert("Tab"@[1] == 'a');
    assert("Tab"@[2] == 'b');
    assert("Enter"@.len() == 5);
    assert("Enter"@[0] == 'E');
    assert("Enter"@[1] == 'n');
    assert("Enter"@[2] == 't');
    assert("Space"@.len() == 5);
    assert("Space"@[0] == 'S');
    assert("Space"@[1] == 'p');
    assert("Space"@[2] == 'a');
    assert("Backspace"@.len() == 9);
    assert("Backspace"@[0] == 'B');
    assert("Backspace"@[1] == 'a');
    assert("Backspace"@[2] == 'c');
    assert("Delete"@.len() == 6);
    assert("Delete"@[0] == 'D');
    assert("Delete"@[1] == 'e');
    assert("Delete"@[2] == 'l');
    assert("Insert"@.len() == 6);
    assert("Insert"@[0] == 'I');
    assert("Insert"@[1] == 'n');
    assert("Insert"@[2] == 's');
    assert("Escape"@.len() == 6);
    assert("Escape"@[0] == 'E');
    assert("Escape"@[1] == 's');
    assert("Escape"@[2] == 'c');
    assert("Up"@.len() == 2);
    assert("Up"@[0] == 'U');
    assert("Up"@[1] == 'p');
    assert("Down"@.len() == 4);
    assert("Down"@[0] == 'D');
    assert("Down"@[1] == 'o');
    assert("Down"@[2] == 'w');
    assert("Left"@.len() == 4);
    assert("Left"@[0] == 'L');
    assert("Left"@[1] == 'e');
    assert("Left"@[2] == 'f');
    assert("Right"@.len() == 5);
    assert("Right"@[0] == 'R');
    assert("Right"@[1] == 'i');
    assert("Right"@[2] == 'g');
    assert("Home"@.len() == 4);
    assert("Home"@[0] == 'H');
    assert("Home"@[1] == 'o');
    assert("Home"@[2] == 'm');
    assert("End"@.len() == 3);
    assert("End"@[0] == 'E');
    assert("End"@[1] == 'n');
    assert("End"@[2] == 'd');
    assert("PageUp"@.len() == 6);
    assert("PageUp"@[0] == 'P');
    assert("PageUp"@[1] == 'a');
    assert("PageUp"@[2] == 'g');
    assert("PageDown"@.len() == 8);
    assert("PageDown"@[0] == 'P');
    assert("PageDown"@[1] == 'a');
    assert("PageDown"@[2] == 'g');
    assert("F1"@.len() == 2);
    assert("F1"@[0] == 'F');
    assert("F1"@[1] == '1');
    assert("F2"@.len() == 2);
    assert("F2"@[0] == 'F');
    assert("F2"@[1] == '2');
    assert("F3"@.len() == 2);
    assert("F3"@[0] == 'F');
    assert("F3"@[1] == '3');
    assert("F4"@.len() == 2);
    assert("F4"@[0] == 'F');
    assert("F4"@[1] == '4');
    assert("F5"@.len() == 2);
    assert("F5"@[0] == 'F');
    assert("F5"@[1] == '5');
    assert("F6"@.len() == 2);
    assert("F6"@[0] == 'F');
    assert("F6"@[1] == '6');
    assert("F7"@.len() == 2);
    assert("F7"@[0] == 'F');
    assert("F7"@[1] == '7');
    assert("F8"@.len() == 2);
    assert("F8"@[0] == 'F');
    assert("F8"@[1] == '8');
    assert("F9"@.len() == 2);
    assert("F9"@[0] == 'F');
    assert("F9"@[1] == '9');
    assert("F10"@.len() == 3);
    assert("F10"@[0] == 'F');
    assert("F10"@[1] == '1');
    assert("F10"@[2] == '0');
    assert("F11"@.len() == 3);
    assert("F11"@[0] == 'F');
    assert("F11"@[1] == '1');
    assert("F11"@[2] == '1');
    assert("F12"@.len() == 3);
    assert("F12"@[0] == 'F');
    assert("F12"@[1] == '1');
    assert("F12"@[2] == '2');
    assert("Return"@.len() == 6);
    assert("Return"@[0] == 'R');
    assert("Return"@[1] == 'e');
    assert("Return"@[2] == 't');
    assert("Esc"@.len() == 3);
    assert("Esc"@[0] == 'E');
    assert("Esc"@[1] == 's');
    assert("Esc"@[2] == 'c');
}

/// Letters, digits and named keys match on the physical key. A name of one
/// byte in UTF-8 is a single character below 128.
pub open spec fn spec_key_name_to_physical(n: Seq<char>) -> Option<KeyCode> {
    if n.len() == 1 && (n[0] as u32) < 128 {
        match spec_letter_to_code(n[0]) {
            Some(c) => Some(c),
            None => spec_digit_to_code(n[0]),
        }
    } else {
        spec_named_key_to_code(n)
    }
}

/// Symbols match on the character the keyboard produces.
pub open spec fn spec_key_name_to_logical_char(n: Seq<char>) -> Option<char> {
    if is_single_ascii(n) && !spec_is_ascii_alpha(n[0]) && !spec_is_ascii_digit(n[0]) {
        Some(n[0])
    } else {
        None
    }
}

pub fn key_name_to_physical(n: &[char]) -> (r: Option<KeyCode>)
    ensures
        r == spec_key_name_to_physical(n@),
{
    if n.len() == 1 && (n[0] as u32) < 128 {
        match letter_to_code(n[0]) {
            Some(c) => Some(c),
            None => digit_to_code(n[0]),
        }
    } else {
        named_key_to_code(n)
    }
}

pub fn key_name_to_logical_char(n: &[char]) -> (r: Option<char>)
    ensures
        r == spec_key_name_to_logical_char(n@),
{
    if n.len() == 1 && (n[0] as u32) < 128 {
        let c = n[0];
        let alpha = ('a' <= c && c <= 'z') || ('A' <= c && c <= 'Z');
        let digit = '0' <= c && c <= '9';
        if alpha || digit {
            None
        } else {
            Some(c)
        }
    } else {
        None
    }
}

// ---------------------------------------------------------------------------
// Association lists
// ---------------------------------------------------------------------------

/// The map that a list of pairs describes, a later pair for a key replacing
/// an earlier one.
pub open spec fn assoc_map<K, V>(s: Seq<(K, V)>) -> Map<K, V>
    decreases s.len(),
{
    if s.len() == 0 {
        Map::empty()
    } else {
        assoc_map(s.drop_last()).insert(s.last().0, s.last().1)
    }
}

pub proof fn lemma_assoc_map_push<K, V>(s: Seq<(K, V)>, p: (K, V))
    ensures
        assoc_map(s.push(p)) == assoc_map(s).insert(p.0, p.1),
{
    assert(s.push(p).drop_last() =~= s);
}

/// Looking a key up in the map is finding its last pair in the list.
pub proof fn lemma_assoc_map_lookup<K, V>(s: Seq<(K, V)>, k: K, n: int)
    requires
        0 <= n <= s.len(),
        forall|j: int| n <= j < s.len() ==> (#[trigger] s[j]).0 != k,
    ensures
        assoc_map(s).dom().contains(k) <==> assoc_map(s.take(n)).dom().contains(k),
        assoc_map(s).dom().contains(k) ==> assoc_map(s)[k] == assoc_map(s.take(n))[k],
    decreases s.len() - n,
{
    if n < s.len() {
        lemma_assoc_map_lookup(s, k, n + 1);
        assert(s.take(n + 1).drop_last() =~= s.take(n));
        assert(s.take(n + 1).last() == s[n]);
    } else {
        assert(s.take(n) =~= s);
    }
}

// ---------------------------------------------------------------------------
// The configuration
// ---------------------------------------------------------------------------

/// The bindings of each action.
#[derive(Debug)]
pub struct HotkeyConfig {
    pub hotkeys: Vec<(HotkeyAction, Vec<String>)>,
}

pub open spec fn strings_view(v: Seq<String>) -> Seq<Seq<char>> {
    v.map_values(|x: String| x@)
}

pub open spec fn entries_view(v: Seq<(HotkeyAction, Vec<String>)>) -> Seq<(HotkeyAction, Seq<Seq<char>>)> {
    v.map_values(|p: (HotkeyAction, Vec<String>)| (p.0, strings_view(p.1@)))
}

impl HotkeyConfig {
    /// The list of (action, bindings) pairs.
    pub open spec fn entries(&self) -> Seq<(HotkeyAction, Seq<Seq<char>>)> {
        entries_view(self.hotkeys@)
    }

    /// The bindings of each action that has some.
    pub open spec fn bindings(&self) -> Map<HotkeyAction, Seq<Seq<char>>> {
        assoc_map(self.entries())
    }

    /// No action is listed twice.
    pub open spec fn wf(&self) -> bool {
        forall|i: int, j: int|
            0 <= i < self.hotkeys@.len() && 0 <= j < self.hotkeys@.len() && i != j ==> (
            #[trigger] self.hotkeys@[i]).0 != (#[trigger] self.hotkeys@[j]).0
    }

    pub fn new() -> (r: HotkeyConfig)
        ensures
            r.wf(),
            r.entries() == Seq::<(HotkeyAction, Seq<Seq<char>>)>::empty(),
    {
        let r = HotkeyConfig { hotkeys: Vec::new() };
        assert(r.entries() =~= Seq::<(HotkeyAction, Seq<Seq<char>>)>::empty());
        r
    }

    /// Gives `action` the bindings `keys`, replacing those it had.
    pub fn set_bindings(&mut self, action: HotkeyAction, keys: Vec<String>)
        requires
            old(self).wf(),
        ensures
            final(self).wf(),
            final(self).bindings() == old(self).bindings().insert(action, strings_view(keys@)),
    {
        let ghost kv = strings_view(keys@);
        let mut i: usize = 0;
        while i < self.hotkeys.len() && self.hotkeys[i].0 != action
            invariant
                i <= self.hotkeys@.len(),
                forall|j: int| 0 <= j < i ==> (#[trigger] self.hotkeys@[j]).0 != action,
            decreases self.hotkeys.len() - i,
        {
            i += 1;
        }
        let ghost before = self.entries();
        if i < self.hotkeys.len() {
            let _ = self.hotkeys.remove(i);
            self.hotkeys.insert(i, (action, keys));
            proof {
                let after = self.entries();
                assert(after =~= before.update(i as int, (action, kv)));
                assert forall|j: int| 0 <= j < before.len() && j != i implies (
                #[trigger] before[j]).0 != action by {
                    assert(before[j].0 == old(self).hotkeys@[j].0);
                    assert(old(self).hotkeys@[j].0 != old(self).hotkeys@[i as int].0);
                }
                lemma_assoc_update(before, i as int, action, kv);
            }
        } else {
            self.hotkeys.push((action, keys));
            proof {
                assert(self.entries() =~= before.push((action, kv)));
                lemma_assoc_map_push(before, (action, kv));
            }
        }
    }

    /// The user's configuration laid over this one: each action the user
    /// lists takes the user's bindings (an empty list disables it).
    pub fn merge_user(&mut self, user: HotkeyConfig)
        requires
            old(self).wf(),
        ensures
            final(self).wf(),
            final(self).bindings() == old(self).bindings().union_prefer_right(user.bindings()),
    {
        let ghost ue = user.entries();
        let ghost start = self.bindings();
        for p in it: user.hotkeys.into_iter()
            invariant
                self.wf(),
                it.seq().map_values(|p: (HotkeyAction, Vec<String>)| (p.0, strings_view(p.1@)))
                    == ue,
                self.bindings() == start.union_prefer_right(
                    assoc_map(ue.take(it.index() as int)),
                ),
        {
            let ghost k = it.index();
            proof {
                assert(ue.take(k + 1) =~= ue.take(k as int).push(ue[k as int]));
                lemma_assoc_map_push(ue.take(k as int), ue[k as int]);
                assert(ue[k as int] == (p.0, strings_view(p.1@)));
            }
            let (action, keys) = p;
            self.set_bindings(action, keys);
            assert(self.bindings() =~= start.union_prefer_right(assoc_map(ue.take(k + 1))));
        }
        assert(ue.take(ue.len() as int) =~= ue);
    }
}

/// Replacing the only pair of a key replaces its value in the map.
proof fn lemma_assoc_update<K, V>(s: Seq<(K, V)>, i: int, k: K, v: V)
    requires
        0 <= i < s.len(),
        s[i].0 == k,
        forall|j: int| 0 <= j < s.len() && j != i ==> (#[trigger] s[j]).0 != k,
    ensures
        assoc_map(s.update(i, (k, v))) == assoc_map(s).insert(k, v),
    decreases s.len(),
{
    let u = s.update(i, (k, v));
    if i == s.len() - 1 {
        assert(u.drop_last() =~= s.drop_last());
        assert(assoc_map(u) =~= assoc_map(s).insert(k, v));
    } else {
        assert(u.drop_last() =~= s.drop_last().update(i, (k, v)));
        assert forall|j: int| 0 <= j < s.drop_last().len() && j != i implies (
        #[trigger] s.drop_last()[j]).0 != k by {
            assert(s.drop_last()[j] == s[j]);
        }
        lemma_assoc_update(s.drop_last(), i, k, v);
        assert(s[s.len() - 1].0 != k);
        assert(assoc_map(u) =~= assoc_map(s).insert(k, v));
    }
}

// ---------------------------------------------------------------------------
// The lookup table
// ---------------------------------------------------------------------------

#[derive(Debug, Clone, Copy, PartialEq, Eq, Hash, Structural)]
pub struct Modifiers {
    pub ctrl: bool,
    pub alt: bool,
    pub shift: bool,
    pub super_key: bool,
}

/// A binding matched on the physical key.
#[derive(Debug, Clone, Copy, PartialEq, Eq, Hash, Structural)]
pub struct PhysicalCombo {
    pub mods: Modifiers,
    pub code: KeyCode,
}

/// A binding matched on the character the key produces.
#[derive(Debug, Clone, Copy, PartialEq, Eq, Hash, Structural)]
pub struct LogicalCombo {
    pub mods: Modifiers,
    pub ch: char,
}

/// The bindings of a configuration, ready for matching key presses.
#[derive(Debug)]
pub struct HotkeyLookup {
    /// Letters (A-Z), digits (0-9), named keys (F1-F12, arrows, etc.)
    physical: Vec<(PhysicalCombo, HotkeyAction)>,
    /// Symbols (=, -, ,, ., etc.), matched by the character
    logical: Vec<(LogicalCombo, HotkeyAction)>,
}

/// The two tables of a lookup.
pub struct LookupView {
    pub physical: Map<PhysicalCombo, HotkeyAction>,
    pub logical: Map<LogicalCombo, HotkeyAction>,
}

impl View for HotkeyLookup {
    type V = LookupView;

    closed spec fn view(&self) -> LookupView {
        LookupView { physical: assoc_map(self.physical@), logical: assoc_map(self.logical@) }
    }
}

/// The tables after binding string `key_str` was added for `action`: keys
/// with a physical code go to the physical table, symbols to the logical
/// one, anything else is dropped.
pub open spec fn add_binding(m: LookupView, action: HotkeyAction, key_str: Seq<char>) -> LookupView {
    let kb = spec_parse_key_binding(key_str);
    let mods = Modifiers { ctrl: kb.ctrl, alt: kb.alt, shift: kb.shift, super_key: kb.super_key };
    match spec_key_name_to_physical(kb.key) {
        Some(code) => LookupView {
            physical: m.physical.insert(PhysicalCombo { mods, code }, action),
            logical: m.logical,
        },
        None => match spec_key_name_to_logical_char(kb.key) {
            Some(ch) => LookupView {
                physical: m.physical,
                logical: m.logical.insert(LogicalCombo { mods, ch }, action),
            },
            None => m,
        },
    }
}

pub open spec fn add_bindings(m: LookupView, action: HotkeyAction, keys: Seq<Seq<char>>) -> LookupView
    decreases keys.len(),
{
    if keys.len() == 0 {
        m
    } else {
        add_binding(add_bindings(m, action, keys.drop_last()), action, keys.last())
    }
}

/// The tables for a list of (action, bindings) pairs, taken in order; when
/// two bindings name the same keys, the later one wins.
pub open spec fn lookup_of(entries: Seq<(HotkeyAction, Seq<Seq<char>>)>) -> LookupView
    decreases entries.len(),
{
    if entries.len() == 0 {
        LookupView { physical: Map::empty(), logical: Map::empty() }
    } else {
        add_bindings(lookup_of(entries.drop_last()), entries.last().0, entries.last().1)
    }
}

/// What a key press with these modifiers triggers: a physical match first,
/// then the produced character, then its lower case, then the unshifted
/// symbol of the key, with and without Shift.
pub open spec fn spec_match_key(
    l: LookupView,
    code: KeyCode,
    logical_char: Option<char>,
    mods: Modifiers,
) -> Option<HotkeyAction> {
    let pc = PhysicalCombo { mods, code };
    if l.physical.dom().contains(pc) {
        Some(l.physical[pc])
    } else if logical_char is Some && l.logical.dom().contains(
        LogicalCombo { mods, ch: logical_char->0 },
    ) {
        Some(l.logical[LogicalCombo { mods, ch: logical_char->0 }])
    } else if logical_char is Some && crate::text::spec_ascii_lower(logical_char->0)
        != logical_char->0 && l.logical.dom().contains(
        LogicalCombo { mods, ch: crate::text::spec_ascii_lower(logical_char->0) },
    ) {
        Some(l.logical[LogicalCombo { mods, ch: crate::text::spec_ascii_lower(logical_char->0) }])
    } else {
        match spec_physical_code_to_base_symbol(code) {
            Some(base) => if l.logical.dom().contains(LogicalCombo { mods, ch: base }) {
                Some(l.logical[LogicalCombo { mods, ch: base }])
            } else if mods.shift && l.logical.dom().contains(
                LogicalCombo { mods: Modifiers { shift: false, ..mods }, ch: base },
            ) {
                Some(l.logical[LogicalCombo { mods: Modifiers { shift: false, ..mods }, ch: base }])
            } else {
                None
            },
            None => None,
        }
    }
}

fn get_physical(t: &Vec<(PhysicalCombo, HotkeyAction)>, k: PhysicalCombo) -> (r: Option<HotkeyAction>)
    ensures
        r == (if assoc_map(t@).dom().contains(k) {
            Some(assoc_map(t@)[k])
        } else {
            None
        }),
{
    let mut n = t.len();
    while n > 0 && t[n - 1].0 != k
        invariant
            n <= t@.len(),
            forall|j: int| n <= j < t@.len() ==> (#[trigger] t@[j]).0 != k,
        decreases n,
    {
        n -= 1;
    }
    proof {
        lemma_assoc_map_lookup(t@, k, n as int);
    }
    if n == 0 {
        assert(assoc_map(t@.take(0)) =~= Map::<PhysicalCombo, HotkeyAction>::empty());
        None
    } else {
        assert(t@.take(n as int).drop_last() =~= t@.take(n - 1));
        assert(t@.take(n as int).last() == t@[n - 1]);
        Some(t[n - 1].1)
    }
}

fn get_logical(t: &Vec<(LogicalCombo, HotkeyAction)>, k: LogicalCombo) -> (r: Option<HotkeyAction>)
    ensures
        r == (if assoc_map(t@).dom().contains(k) {
            Some(assoc_map(t@)[k])
        } else {
            None
        }),
{
    let mut n = t.len();
    while n > 0 && t[n - 1].0 != k
        invariant
            n <= t@.len(),
            forall|j: int| n <= j < t@.len() ==> (#[trigger] t@[j]).0 != k,
        decreases n,
    {
        n -= 1;
    }
    proof {
        lemma_assoc_map_lookup(t@, k, n as int);
    }
    if n == 0 {
        assert(assoc_map(t@.take(0)) =~= Map::<LogicalCombo, HotkeyAction>::empty());
        None
    } else {
        assert(t@.take(n as int).drop_last() =~= t@.take(n - 1));
        assert(t@.take(n as int).last() == t@[n - 1]);
        Some(t[n - 1].1)
    }
}

impl HotkeyLookup {
    /// Matches a key press against the table. `physical_code` is the key,
    /// `logical_char` the first character it produced, if any.
    pub fn match_key(
        &self,
        physical_code: KeyCode,
        logical_char: Option<char>,
        ctrl: bool,
        alt: bool,
        shift: bool,
        super_key: bool,
    ) -> (r: Option<HotkeyAction>)
        ensures
            r == spec_match_key(
                self@,
                physical_code,
                logical_char,
                Modifiers { ctrl, alt, shift, super_key },
            ),
    {
        let mods = Modifiers { ctrl, alt, shift, super_key };
        if let Some(action) = get_physical(&self.physical, PhysicalCombo { mods, code: physical_code }) {
            return Some(action);
        }
        if let Some(ch) = logical_char {
            if let Some(action) = get_logical(&self.logical, LogicalCombo { mods, ch }) {
                return Some(action);
            }
            let lower = crate::text::ascii_lower(ch);
            if lower != ch {
                if let Some(action) = get_logical(&self.logical, LogicalCombo { mods, ch: lower }) {
                    return Some(action);
                }
            }
        }
        if let Some(base_ch) = physical_code_to_base_symbol(physical_code) {
            if let Some(action) = get_logical(&self.logical, LogicalCombo { mods, ch: base_ch }) {
                return Some(action);
            }
            if shift {
                let mods_no_shift = Modifiers { ctrl, alt, shift: false, super_key };
                if let Some(action) = get_logical(
                    &self.logical,
                    LogicalCombo { mods: mods_no_shift, ch: base_ch },
                ) {
                    return Some(action);
                }
            }
        }
        None
    }
}

impl HotkeyConfig {
    /// The lookup table of the bindings, taken in list order.
    pub fn build_lookup(&self) -> (r: HotkeyLookup)
        ensures
            r@ == lookup_of(self.entries()),
    {
        let mut physical: Vec<(PhysicalCombo, HotkeyAction)> = Vec::new();
        let mut logical: Vec<(LogicalCombo, HotkeyAction)> = Vec::new();
        let ghost es = self.entries();
        let mut i: usize = 0;
        assert(es.take(0) =~= Seq::<(HotkeyAction, Seq<Seq<char>>)>::empty());
        assert(assoc_map(physical@) =~= Map::<PhysicalCombo, HotkeyAction>::empty());
        assert(assoc_map(logical@) =~= Map::<LogicalCombo, HotkeyAction>::empty());
        while i < self.hotkeys.len()
            invariant
                i <= self.hotkeys@.len(),
                es == self.entries(),
                (LookupView { physical: assoc_map(physical@), logical: assoc_map(logical@) })
                    == lookup_of(es.take(i as int)),
            decreases self.hotkeys.len() - i,
        {
            let action = self.hotkeys[i].0;
            let keys = &self.hotkeys[i].1;
            let ghost kv = strings_view(keys@);
            assert(es[i as int] == (action, kv));
            let ghost m0 = lookup_of(es.take(i as int));
            let mut j: usize = 0;
            assert(kv.take(0) =~= Seq::<Seq<char>>::empty());
            while j < keys.len()
                invariant
                    j <= keys@.len(),
                    kv == strings_view(keys@),
                    (LookupView { physical: assoc_map(physical@), logical: assoc_map(logical@) })
                        == add_bindings(m0, action, kv.take(j as int)),
                decreases keys.len() - j,
            {
                let kb = parse_key_binding(keys[j].as_str());
                let mods = Modifiers {
                    ctrl: kb.ctrl,
                    alt: kb.alt,
                    shift: kb.shift,
                    super_key: kb.super_key,
                };
                let key = chars_of(kb.key.as_str());
                let ghost before_p = physical@;
                let ghost before_l = logical@;
                proof {
                    assert(kv.take(j + 1).drop_last() =~= kv.take(j as int));
                    assert(kv.take(j + 1).last() == keys@[j as int]@);
                }
                if let Some(code) = key_name_to_physical(key.as_slice()) {
                    physical.push((PhysicalCombo { mods, code }, action));
                    proof {
                        lemma_assoc_map_push(before_p, (PhysicalCombo { mods, code }, action));
                    }
                } else if let Some(ch) = key_name_to_logical_char(key.as_slice()) {
                    logical.push((LogicalCombo { mods, ch }, action));
                    proof {
                        lemma_assoc_map_push(before_l, (LogicalCombo { mods, ch }, action));
                    }
                }
                j += 1;
            }
            proof {
                assert(kv.take(kv.len() as int) =~= kv);
                assert(es.take(i + 1).drop_last() =~= es.take(i as int));
                assert(es.take(i + 1).last() == es[i as int]);
            }
            i += 1;
        }
        assert(es.take(es.len() as int) =~= es);
        HotkeyLookup { physical, logical }
    }
}

// ---------------------------------------------------------------------------
// Defaults
// ---------------------------------------------------------------------------

/// No binding strings.
fn keys0() -> (r: Vec<String>)
    ensures
        strings_view(r@) == Seq::<Seq<char>>::empty(),
{
    let r: Vec<String> = Vec::new();
    assert(strings_view(r@) =~= Seq::<Seq<char>>::empty());
    r
}

/// One binding string.
fn keys1(a: &str) -> (r: Vec<String>)
    ensures
        strings_view(r@) == seq![a@],
{
    let mut r: Vec<String> = Vec::new();
    r.push(copy_string(a));
    assert(strings_view(r@) =~= seq![a@]);
    r
}

/// Two binding strings.
fn keys2(a: &str, b: &str) -> (r: Vec<String>)
    ensures
        strings_view(r@) == seq![a@, b@],
{
    let mut r: Vec<String> = Vec::new();
    r.push(copy_string(a));
    r.push(copy_string(b));
    assert(strings_view(r@) =~= seq![a@, b@]);
    r
}

/// The macOS default bindings.
pub open spec fn spec_macos_defaults() -> Map<HotkeyAction, Seq<Seq<char>>> {
    map![
        HotkeyAction::NewTab => seq!["⌘-T"@],
        HotkeyAction::CloseTab => seq!["⌘-W"@],
        HotkeyAction::ReopenTab => seq!["⌘-Shift-T"@],
        HotkeyAction::NextTab => seq!["Ctrl-Tab"@],
        HotkeyAction::PreviousTab => seq!["Ctrl-Shift-Tab"@],
        HotkeyAction::Tab1 => seq!["⌘-1"@],
        HotkeyAction::Tab2 => seq!["⌘-2"@],
        HotkeyAction::Tab3 => seq!["⌘-3"@],
        HotkeyAction::Tab4 => seq!["⌘-4"@],
        HotkeyAction::Tab5 => seq!["⌘-5"@],
        HotkeyAction::Tab6 => seq!["⌘-6"@],
        HotkeyAction::Tab7 => seq!["⌘-7"@],
        HotkeyAction::Tab8 => seq!["⌘-8"@],
        HotkeyAction::Tab9 => seq!["⌘-9"@],
        HotkeyAction::Copy => seq!["⌘-C"@],
        HotkeyAction::Paste => seq!["⌘-V"@],
        HotkeyAction::SelectAll => seq!["⌘-A"@],
        HotkeyAction::Clear => seq!["⌘-K"@],
        HotkeyAction::ZoomIn => seq!["⌘-="@, "⌘-Shift-="@],
        HotkeyAction::ZoomOut => seq!["⌘--"@, "⌘-Shift--"@],
        HotkeyAction::ResetZoom => seq!["⌘-0"@],
        HotkeyAction::Search => seq!["⌘-F"@],
        HotkeyAction::CtrlC => seq!["Ctrl-C"@],
        HotkeyAction::Home => seq!["⌘-Left"@],
        HotkeyAction::End => seq!["⌘-Right"@],
        HotkeyAction::DeleteLine => seq!["⌘-Backspace"@],
        HotkeyAction::ToggleFullscreen => seq!["Ctrl+⌘+F"@, "F11"@],
        HotkeyAction::NewWindow => seq!["⌘-N"@],
        HotkeyAction::Settings => seq!["⌘-,"@],
        HotkeyAction::ScrollToTop => seq!["Shift-PageUp"@],
        HotkeyAction::ScrollPageUp => seq!["⌥-PageUp"@],
        HotkeyAction::ScrollUp => seq!["Ctrl-Shift-Up"@],
        HotkeyAction::ScrollDown => seq!["Ctrl-Shift-Down"@],
        HotkeyAction::ScrollPageDown => seq!["⌥-PageDown"@],
        HotkeyAction::ScrollToBottom => seq!["Shift-PageDown"@],
    ]
}

/// The Linux and Windows default bindings.
pub open spec fn spec_linux_defaults() -> Map<HotkeyAction, Seq<Seq<char>>> {
    map![
        HotkeyAction::NewTab => seq!["Ctrl-Shift-T"@],
        HotkeyAction::CloseTab => seq!["Ctrl-Shift-W"@],
        HotkeyAction::ReopenTab => seq!["Ctrl-Shift-Z"@],
        HotkeyAction::NextTab => seq!["Ctrl-Tab"@, "Ctrl-Shift-Right"@],
        HotkeyAction::PreviousTab => seq!["Ctrl-Shift-Tab"@, "Ctrl-Shift-Left"@],
        HotkeyAction::Tab1 => seq!["Alt-1"@],
        HotkeyAction::Tab2 => seq!["Alt-2"@],
        HotkeyAction::Tab3 => seq!["Alt-3"@],
        HotkeyAction::Tab4 => seq!["Alt-4"@],
        HotkeyAction::Tab5 => seq!["Alt-5"@],
        HotkeyAction::Tab6 => seq!["Alt-6"@],
        HotkeyAction::Tab7 => seq!["Alt-7"@],
        HotkeyAction::Tab8 => seq!["Alt-8"@],
        HotkeyAction::Tab9 => seq!["Alt-9"@],
        HotkeyAction::Tab10 => seq!["Alt-0"@],
        HotkeyAction::Copy => seq!["Ctrl-Shift-C"@],
        HotkeyAction::Paste => seq!["Ctrl-Shift-V"@, "Shift-Insert"@],
        HotkeyAction::SelectAll => seq!["Ctrl-Shift-A"@],
        HotkeyAction::Clear => seq![],
        HotkeyAction::ZoomIn => seq!["Ctrl-="@, "Ctrl-Shift-="@],
        HotkeyAction::ZoomOut => seq!["Ctrl--"@, "Ctrl-Shift--"@],
        HotkeyAction::ResetZoom => seq!["Ctrl-0"@],
        HotkeyAction::Search => seq!["Ctrl-Shift-F"@],
        HotkeyAction::CtrlC => seq!["Ctrl-C"@],
        HotkeyAction::DeleteLine => seq!["Ctrl-Shift-Backspace"@],
        HotkeyAction::ToggleFullscreen => seq!["F11"@, "Alt-Enter"@],
        HotkeyAction::NewWindow => seq!["Ctrl-Shift-N"@],
        HotkeyAction::Settings => seq!["Ctrl-,"@],
        HotkeyAction::ScrollToTop => seq!["Ctrl-PageUp"@],
        HotkeyAction::ScrollPageUp => seq!["Alt-PageUp"@],
        HotkeyAction::ScrollUp => seq!["Ctrl-Shift-Up"@],
        HotkeyAction::ScrollDown => seq!["Ctrl-Shift-Down"@],
        HotkeyAction::ScrollPageDown => seq!["Alt-PageDown"@],
        HotkeyAction::ScrollToBottom => seq!["Ctrl-PageDown"@],
    ]
}

impl HotkeyConfig {
    /// macOS defaults.
    pub fn macos_defaults() -> (r: HotkeyConfig)
        ensures
            r.wf(),
            r.bindings() == spec_macos_defaults(),
    {
        let mut c = HotkeyConfig::new();
        c.set_bindings(HotkeyAction::NewTab, keys1("⌘-T"));
        c.set_bindings(HotkeyAction::CloseTab, keys1("⌘-W"));
        c.set_bindings(HotkeyAction::ReopenTab, keys1("⌘-Shift-T"));
        c.set_bindings(HotkeyAction::NextTab, keys1("Ctrl-Tab"));
        c.set_bindings(HotkeyAction::PreviousTab, keys1("Ctrl-Shift-Tab"));
        c.set_bindings(HotkeyAction::Tab1, keys1("⌘-1"));
        c.set_bindings(HotkeyAction::Tab2, keys1("⌘-2"));
        c.set_bindings(HotkeyAction::Tab3, keys1("⌘-3"));
        c.set_bindings(HotkeyAction::Tab4, keys1("⌘-4"));
        c.set_bindings(HotkeyAction::Tab5, keys1("⌘-5"));
        c.set_bindings(HotkeyAction::Tab6, keys1("⌘-6"));
        c.set_bindings(HotkeyAction::Tab7, keys1("⌘-7"));
        c.set_bindings(HotkeyAction::Tab8, keys1("⌘-8"));
        c.set_bindings(HotkeyAction::Tab9, keys1("⌘-9"));
        c.set_bindings(HotkeyAction::Copy, keys1("⌘-C"));
        c.set_bindings(HotkeyAction::Paste, keys1("⌘-V"));
        c.set_bindings(HotkeyAction::SelectAll, keys1("⌘-A"));
        c.set_bindings(HotkeyAction::Clear, keys1("⌘-K"));
        c.set_bindings(HotkeyAction::ZoomIn, keys2("⌘-=", "⌘-Shift-="));
        c.set_bindings(HotkeyAction::ZoomOut, keys2("⌘--", "⌘-Shift--"));
        c.set_bindings(HotkeyAction::ResetZoom, keys1("⌘-0"));
        c.set_bindings(HotkeyAction::Search, keys1("⌘-F"));
        c.set_bindings(HotkeyAction::CtrlC, keys1("Ctrl-C"));
        c.set_bindings(HotkeyAction::Home, keys1("⌘-Left"));
        c.set_bindings(HotkeyAction::End, keys1("⌘-Right"));
        c.set_bindings(HotkeyAction::DeleteLine, keys1("⌘-Backspace"));
        c.set_bindings(HotkeyAction::ToggleFullscreen, keys2("Ctrl+⌘+F", "F11"));
        c.set_bindings(HotkeyAction::NewWindow, keys1("⌘-N"));
        c.set_bindings(HotkeyAction::Settings, keys1("⌘-,"));
        c.set_bindings(HotkeyAction::ScrollToTop, keys1("Shift-PageUp"));
        c.set_bindings(HotkeyAction::ScrollPageUp, keys1("⌥-PageUp"));
        c.set_bindings(HotkeyAction::ScrollUp, keys1("Ctrl-Shift-Up"));
        c.set_bindings(HotkeyAction::ScrollDown, keys1("Ctrl-Shift-Down"));
        c.set_bindings(HotkeyAction::ScrollPageDown, keys1("⌥-PageDown"));
        c.set_bindings(HotkeyAction::ScrollToBottom, keys1("Shift-PageDown"));
        assert(c.bindings() =~= spec_macos_defaults());
        c
    }

    /// Linux/Windows defaults.
    pub fn linux_defaults() -> (r: HotkeyConfig)
        ensures
            r.wf(),
            r.bindings() == spec_linux_defaults(),
    {
        let mut c = HotkeyConfig::new();
        c.set_bindings(HotkeyAction::NewTab, keys1("Ctrl-Shift-T"));
        c.set_bindings(HotkeyAction::CloseTab, keys1("Ctrl-Shift-W"));
        c.set_bindings(HotkeyAction::ReopenTab, keys1("Ctrl-Shift-Z"));
        c.set_bindings(HotkeyAction::NextTab, keys2("Ctrl-Tab", "Ctrl-Shift-Right"));
        c.set_bindings(HotkeyAction::PreviousTab, keys2("Ctrl-Shift-Tab", "Ctrl-Shift-Left"));
        c.set_bindings(HotkeyAction::Tab1, keys1("Alt-1"));
        c.set_bindings(HotkeyAction::Tab2, keys1("Alt-2"));
        c.set_bindings(HotkeyAction::Tab3, keys1("Alt-3"));
        c.set_bindings(HotkeyAction::Tab4, keys1("Alt-4"));
        c.set_bindings(HotkeyAction::Tab5, keys1("Alt-5"));
        c.set_bindings(HotkeyAction::Tab6, keys1("Alt-6"));
        c.set_bindings(HotkeyAction::Tab7, keys1("Alt-7"));
        c.set_bindings(HotkeyAction::Tab8, keys1("Alt-8"));
        c.set_bindings(HotkeyAction::Tab9, keys1("Alt-9"));
        c.set_bindings(HotkeyAction::Tab10, keys1("Alt-0"));
        c.set_bindings(HotkeyAction::Copy, keys1("Ctrl-Shift-C"));
        c.set_bindings(HotkeyAction::Paste, keys2("Ctrl-Shift-V", "Shift-Insert"));
        c.set_bindings(HotkeyAction::SelectAll, keys1("Ctrl-Shift-A"));
        c.set_bindings(HotkeyAction::Clear, keys0());
        c.set_bindings(HotkeyAction::ZoomIn, keys2("Ctrl-=", "Ctrl-Shift-="));
        c.set_bindings(HotkeyAction::ZoomOut, keys2("Ctrl--", "Ctrl-Shift--"));
        c.set_bindings(HotkeyAction::ResetZoom, keys1("Ctrl-0"));
        c.set_bindings(HotkeyAction::Search, keys1("Ctrl-Shift-F"));
        c.set_bindings(HotkeyAction::CtrlC, keys1("Ctrl-C"));
        c.set_bindings(HotkeyAction::DeleteLine, keys1("Ctrl-Shift-Backspace"));
        c.set_bindings(HotkeyAction::ToggleFullscreen, keys2("F11", "Alt-Enter"));
        c.set_bindings(HotkeyAction::NewWindow, keys1("Ctrl-Shift-N"));
        c.set_bindings(HotkeyAction::Settings, keys1("Ctrl-,"));
        c.set_bindings(HotkeyAction::ScrollToTop, keys1("Ctrl-PageUp"));
        c.set_bindings(HotkeyAction::ScrollPageUp, keys1("Alt-PageUp"));
        c.set_bindings(HotkeyAction::ScrollUp, keys1("Ctrl-Shift-Up"));
        c.set_bindings(HotkeyAction::ScrollDown, keys1("Ctrl-Shift-Down"));
        c.set_bindings(HotkeyAction::ScrollPageDown, keys1("Alt-PageDown"));
        c.set_bindings(HotkeyAction::ScrollToBottom, keys1("Ctrl-PageDown"));
        assert(c.bindings() =~= spec_linux_defaults());
        c
    }
}

// ---------------------------------------------------------------------------
// Laws
// ---------------------------------------------------------------------------

/// After `merge_user`, an action the user lists has exactly the user's
/// bindings (an empty list disables it), and any other action keeps the
/// bindings it had.
pub proof fn law_user_overrides_per_action(
    before: Map<HotkeyAction, Seq<Seq<char>>>,
    user: Map<HotkeyAction, Seq<Seq<char>>>,
    a: HotkeyAction,
)
    ensures
        user.dom().contains(a) ==> before.union_prefer_right(user)[a] == user[a],
        !user.dom().contains(a) ==> (before.union_prefer_right(user).dom().contains(a)
            <==> before.dom().contains(a)),
        !user.dom().contains(a) && before.dom().contains(a) ==> before.union_prefer_right(
            user,
        )[a] == before[a],
{
}

pub open spec fn binding_mods(b: BindingView) -> Modifiers {
    Modifiers { ctrl: b.ctrl, alt: b.alt, shift: b.shift, super_key: b.super_key }
}

/// A binding string whose key has a physical code is triggered by pressing
/// that key with exactly its modifiers, whatever character the key produces.
pub proof fn law_physical_binding_matches(
    action: HotkeyAction,
    key_str: Seq<char>,
    logical_char: Option<char>,
)
    requires
        spec_key_name_to_physical(spec_parse_key_binding(key_str).key) is Some,
    ensures
        spec_match_key(
            lookup_of(seq![(action, seq![key_str])]),
            spec_key_name_to_physical(spec_parse_key_binding(key_str).key)->0,
            logical_char,
            binding_mods(spec_parse_key_binding(key_str)),
        ) == Some(action),
{
    let e = seq![(action, seq![key_str])];
    assert(e.drop_last() =~= Seq::<(HotkeyAction, Seq<Seq<char>>)>::empty());
    assert(seq![key_str].drop_last() =~= Seq::<Seq<char>>::empty());
}

/// A binding string for a symbol is triggered by a key press that produces
/// that symbol with exactly its modifiers, on a key that has no physical
/// binding.
pub proof fn law_symbol_binding_matches(action: HotkeyAction, key_str: Seq<char>, code: KeyCode)
    requires
        spec_key_name_to_physical(spec_parse_key_binding(key_str).key) is None,
        spec_key_name_to_logical_char(spec_parse_key_binding(key_str).key) is Some,
    ensures
        spec_match_key(
            lookup_of(seq![(action, seq![key_str])]),
            code,
            Some(spec_key_name_to_logical_char(spec_parse_key_binding(key_str).key)->0),
            binding_mods(spec_parse_key_binding(key_str)),
        ) == Some(action),
{
    let e = seq![(action, seq![key_str])];
    assert(e.drop_last() =~= Seq::<(HotkeyAction, Seq<Seq<char>>)>::empty());
    assert(seq![key_str].drop_last() =~= Seq::<Seq<char>>::empty());
    let empty = LookupView { physical: Map::empty(), logical: Map::empty() };
    assert(lookup_of(e.drop_last()) == empty);
    assert(e.last() == (action, seq![key_str]));
    assert(seq![key_str].last() == key_str);
    assert(add_bindings(empty, action, seq![key_str].drop_last()) == empty);
    assert(lookup_of(e) == add_bindings(empty, action, seq![key_str]));
    assert(add_bindings(empty, action, seq![key_str]) == add_binding(empty, action, key_str));
    let kb = spec_parse_key_binding(key_str);
    let lc = LogicalCombo { mods: binding_mods(kb), ch: spec_key_name_to_logical_char(kb.key)->0 };
    assert(lookup_of(e).logical.dom().contains(lc));
    assert(lookup_of(e).physical.dom() =~= Set::empty());
}

/// Every action in the tables is one of `allowed`.
pub open spec fn values_in(m: LookupView, allowed: Set<HotkeyAction>) -> bool {
    &&& forall|c: PhysicalCombo| #[trigger] m.physical.dom().contains(c) ==> allowed.contains(m.physical[c])
    &&& forall|c: LogicalCombo| #[trigger] m.logical.dom().contains(c) ==> allowed.contains(m.logical[c])
}

/// The actions that some entry binds to at least one key string.
pub open spec fn bound_actions(e: Seq<(HotkeyAction, Seq<Seq<char>>)>) -> Set<HotkeyAction> {
    Set::new(|a: HotkeyAction| exists|i: int| 0 <= i < e.len() && e[i].0 == a && e[i].1.len() > 0)
}

proof fn lemma_add_bindings_values(
    m: LookupView,
    action: HotkeyAction,
    keys: Seq<Seq<char>>,
    allowed: Set<HotkeyAction>,
)
    requires
        values_in(m, allowed),
        keys.len() > 0 ==> allowed.contains(action),
    ensures
        values_in(add_bindings(m, action, keys), allowed),
    decreases keys.len(),
{
    if keys.len() > 0 {
        lemma_add_bindings_values(m, action, keys.drop_last(), allowed);
    }
}

proof fn lemma_lookup_values(e: Seq<(HotkeyAction, Seq<Seq<char>>)>)
    ensures
        values_in(lookup_of(e), bound_actions(e)),
    decreases e.len(),
{
    if e.len() > 0 {
        let p = e.drop_last();
        lemma_lookup_values(p);
        let l = lookup_of(p);
        assert forall|c: PhysicalCombo| #[trigger] l.physical.dom().contains(c) implies bound_actions(
            e,
        ).contains(l.physical[c]) by {
            let i = choose|i: int| 0 <= i < p.len() && p[i].0 == l.physical[c] && p[i].1.len() > 0;
            assert(e[i] == p[i]);
        }
        assert forall|c: LogicalCombo| #[trigger] l.logical.dom().contains(c) implies bound_actions(
            e,
        ).contains(l.logical[c]) by {
            let i = choose|i: int| 0 <= i < p.len() && p[i].0 == l.logical[c] && p[i].1.len() > 0;
            assert(e[i] == p[i]);
        }
        if e.last().1.len() > 0 {
            assert(e[e.len() - 1] == e.last());
        }
        lemma_add_bindings_values(l, e.last().0, e.last().1, bound_actions(e));
    }
}

proof fn lemma_assoc_unique(e: Seq<(HotkeyAction, Seq<Seq<char>>)>, i: int)
    requires
        0 <= i < e.len(),
        forall|j: int, k: int| 0 <= j < e.len() && 0 <= k < e.len() && j != k ==> e[j].0 != e[k].0,
    ensures
        assoc_map(e).dom().contains(e[i].0),
        assoc_map(e)[e[i].0] == e[i].1,
    decreases e.len(),
{
    if i < e.len() - 1 {
        let p = e.drop_last();
        assert forall|j: int, k: int| 0 <= j < p.len() && 0 <= k < p.len() && j != k implies p[j].0
            != p[k].0 by {
            assert(p[j] == e[j] && p[k] == e[k]);
        }
        assert(p[i] == e[i]);
        lemma_assoc_unique(p, i);
        assert(e.last() == e[e.len() - 1]);
    }
}

/// An empty list of bindings disables an action: when the configuration
/// binds an action to `[]`, or not at all, no key press matches it.
pub proof fn law_disabled_action_never_matches(
    cfg: HotkeyConfig,
    a: HotkeyAction,
    code: KeyCode,
    logical_char: Option<char>,
    mods: Modifiers,
)
    requires
        cfg.wf(),
        !cfg.bindings().dom().contains(a) || cfg.bindings()[a].len() == 0,
    ensures
        spec_match_key(lookup_of(cfg.entries()), code, logical_char, mods) != Some(a),
{
    let e = cfg.entries();
    lemma_lookup_values(e);
    assert forall|j: int, k: int| 0 <= j < e.len() && 0 <= k < e.len() && j != k implies e[j].0
        != e[k].0 by {
        assert(e[j].0 == cfg.hotkeys@[j].0);
        assert(e[k].0 == cfg.hotkeys@[k].0);
    }
    if spec_match_key(lookup_of(e), code, logical_char, mods) == Some(a) {
        assert(bound_actions(e).contains(a));
        let i = choose|i: int| 0 <= i < e.len() && e[i].0 == a && e[i].1.len() > 0;
        lemma_assoc_unique(e, i);
    }
}

} // verus!
