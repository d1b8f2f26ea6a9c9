//! Terminal panels: their identifiers, grid sizes, the events they raise,
//! and the bytes that a key press sends to the shell. Running the terminal
//! emulator and the PTY is the caller's part.
use vstd::prelude::*;

use crate::ssh_dialog::SshResult;
use crate::text::chars_of;
use vstd::string::StringSliceAdditionalSpecFns;

verus! {

// ---------------------------------------------------------------------------
// Identifiers and sizes
// ---------------------------------------------------------------------------

/// The identifier of a panel.
#[derive(Debug, Clone, Copy, PartialEq, Eq, Hash, Structural)]
pub struct PanelId(pub u64);

/// The source of fresh panel identifiers; the first one is 1. Identifiers
/// are unique among those one counter hands out (until it wraps), so all
/// panels of a process take theirs from one shared counter.
#[derive(Debug)]
pub struct PanelIdCounter {
    next: u64,
}

impl PanelIdCounter {
    pub fn new() -> (r: PanelIdCounter)
        ensures
            r.peek() == 1,
    {
        PanelIdCounter { next: 1 }
    }

    /// The identifier that the next call of `PanelId::next` hands out.
    pub closed spec fn peek(&self) -> u64 {
        self.next
    }
}

impl PanelId {
    /// A fresh identifier: the counter's value, which then goes up by one
    /// (wrapping at the end of `u64`, as an atomic `fetch_add` does).
    pub fn next(counter: &mut PanelIdCounter) -> (r: PanelId)
        ensures
            r == PanelId(old(counter).peek()),
            final(counter).peek() == next_peek(old(counter).peek()),
    {
        let id = counter.next;
        counter.next = if counter.next == u64::MAX {
            0
        } else {
            counter.next + 1
        };
        PanelId(id)
    }
}

/// The counter's value after one call of `PanelId::next`.
pub open spec fn next_peek(p: u64) -> u64 {
    if p == u64::MAX {
        0
    } else {
        (p + 1) as u64
    }
}

/// The identifier that the `k`-th call (counting from 0) of `PanelId::next`
/// hands out, on a counter whose value was `start`.
pub open spec fn nth_id(start: u64, k: nat) -> u64
    decreases k,
{
    if k == 0 {
        start
    } else {
        next_peek(nth_id(start, (k - 1) as nat))
    }
}

proof fn lemma_nth_id(start: u64, k: nat)
    requires
        start + k <= u64::MAX,
    ensures
        nth_id(start, k) == start + k,
    decreases k,
{
    if k > 0 {
        lemma_nth_id(start, (k - 1) as nat);
    }
}

/// One counter never hands out the same identifier twice before it wraps:
/// the `i`-th and `j`-th calls give different identifiers, later calls give
/// larger ones, and a fresh counter (which starts at 1, so its first
/// identifier is 1) never gives 0.
pub proof fn law_panel_ids_distinct(start: u64, i: nat, j: nat)
    requires
        i < j,
        start + j <= u64::MAX,
    ensures
        nth_id(start, i) != nth_id(start, j),
        nth_id(start, i) < nth_id(start, j),
        nth_id(start, 0) == start,
        start >= 1 ==> nth_id(start, i) != 0 && nth_id(start, j) != 0,
{
    lemma_nth_id(start, i);
    lemma_nth_id(start, j);
}

/// Terminal dimensions, at least two columns and two lines.
#[derive(Debug, Clone, Copy, PartialEq, Eq, Structural)]
pub struct TermSize {
    pub columns: usize,
    pub screen_lines: usize,
}

impl TermSize {
    pub fn new(columns: usize, screen_lines: usize) -> (r: Self)
        ensures
            r.columns == (if columns < 2 {
                2
            } else {
                columns
            }),
            r.screen_lines == (if screen_lines < 2 {
                2
            } else {
                screen_lines
            }),
    {
        TermSize {
            columns: if columns < 2 {
                2
            } else {
                columns
            },
            screen_lines: if screen_lines < 2 {
                2
            } else {
                screen_lines
            },
        }
    }

    pub fn total_lines(&self) -> (r: usize)
        ensures
            r == self.screen_lines,
    {
        self.screen_lines
    }

    pub fn screen_lines(&self) -> (r: usize)
        ensures
            r == self.screen_lines,
    {
        self.screen_lines
    }

    pub fn columns(&self) -> (r: usize)
        ensures
            r == self.columns,
    {
        self.columns
    }
}

/// Events sent from the terminal threads to the interface.
#[derive(Debug)]
pub enum TerminalEvent {
    Wakeup,
    Title(PanelId, String),
    Exit(PanelId),
    /// Deferred SSH dialog close, with the result (`None` when cancelled).
    SshDialogClose(Option<SshResult>),
}

/// The events of the terminal emulator that the interface takes up.
#[derive(Debug)]
pub enum EmulatorEvent {
    /// New content to draw.
    Wakeup,
    /// The shell set the window title.
    Title(String),
    /// The terminal ended.
    Exit,
    /// The shell process ended with this status.
    ChildExit(i32),
    /// The emulator answers the shell (a terminal query) with this text.
    PtyWrite(String),
    /// Any other event.
    Other,
}

/// Where an event of the emulator of panel `id` goes.
#[derive(Debug)]
pub enum EventRoute {
    /// To the window's event loop.
    ToWindow(TerminalEvent),
    /// Back to the shell, through the panel's connection (local PTY or SSH).
    ToShell(Vec<u8>),
    /// Nowhere.
    Drop,
}

/// Where an event of the emulator of panel `id` goes: new content, titles
/// and the end of the terminal go to the window, tagged with the panel;
/// answers to the shell go back to it as bytes; the rest is dropped.
pub fn route_emulator_event(id: PanelId, event: EmulatorEvent) -> (r: EventRoute)
    ensures
        match event {
            EmulatorEvent::Wakeup => r matches EventRoute::ToWindow(TerminalEvent::Wakeup),
            EmulatorEvent::Title(t) => r matches EventRoute::ToWindow(TerminalEvent::Title(p, u))
                && p == id && u@ == t@,
            EmulatorEvent::Exit => r matches EventRoute::ToWindow(TerminalEvent::Exit(p)) && p == id,
            EmulatorEvent::ChildExit(_) => r matches EventRoute::ToWindow(TerminalEvent::Exit(p))
                && p == id,
            EmulatorEvent::PtyWrite(t) => r matches EventRoute::ToShell(b) && b@
                == vstd::utf8::encode_utf8(t@),
            EmulatorEvent::Other => r is Drop,
        },
{
    match event {
        EmulatorEvent::Wakeup => EventRoute::ToWindow(TerminalEvent::Wakeup),
        EmulatorEvent::Title(t) => EventRoute::ToWindow(TerminalEvent::Title(id, t)),
        EmulatorEvent::Exit => EventRoute::ToWindow(TerminalEvent::Exit(id)),
        EmulatorEvent::ChildExit(_) => EventRoute::ToWindow(TerminalEvent::Exit(id)),
        EmulatorEvent::PtyWrite(t) => EventRoute::ToShell(bytes_of(t.as_str().as_bytes())),
        EmulatorEvent::Other => EventRoute::Drop,
    }
}

/// Whether a new viewport changes the terminal's grid, so that the
/// terminal and its connection must be resized: always for the first one.
pub fn grid_changed(current: Option<(usize, usize)>, cols: usize, rows: usize) -> (r: bool)
    ensures
        r == match current {
            Some((c, w)) => c != cols || w != rows,
            None => true,
        },
{
    match current {
        Some((c, w)) => c != cols || w != rows,
        None => true,
    }
}

// ---------------------------------------------------------------------------
// Key presses
// ---------------------------------------------------------------------------

/// The named keys that send escape sequences; other named keys are `Other`.
#[derive(Debug, Clone, Copy, PartialEq, Eq, Structural)]
pub enum NamedKey {
    Enter,
    Backspace,
    Tab,
    Escape,
    ArrowUp,
    ArrowDown,
    ArrowRight,
    ArrowLeft,
    Home,
    End,
    PageUp,
    PageDown,
    Delete,
    Insert,
    F1,
    F2,
    F3,
    F4,
    F5,
    F6,
    F7,
    F8,
    F9,
    F10,
    F11,
    F12,
    Other,
}

/// The logical key of a key press.
#[derive(Debug)]
pub enum LogicalKey {
    Named(NamedKey),
    Character(String),
    Unidentified,
}

/// A key event: whether it is a press, its logical key and the text it produces.
#[derive(Debug)]
pub struct KeyPress {
    pub pressed: bool,
    pub logical_key: LogicalKey,
    pub text: Option<String>,
}

/// The control byte that Ctrl with a character sends: letters go to
/// 0x01..0x1A, and `@`/space, `[`, `\`, `]`, `^`/`~`, `_`/`/` to 0x00 and
/// 0x1B..0x1F. The character must be the whole (one-byte) key text.
pub open spec fn spec_ctrl_byte(c: Seq<char>) -> Option<u8> {
    if c.len() == 1 && (c[0] as u32) < 128 {
        let ch = c[0];
        if 'a' <= ch && ch <= 'z' {
            Some(((ch as u32) - 97 + 1) as u8)
        } else if 'A' <= ch && ch <= 'Z' {
            Some(((ch as u32) - 65 + 1) as u8)
        } else if ch == '@' || ch == ' ' {
            Some(0x00)
        } else if ch == '[' {
            Some(0x1B)
        } else if ch == '\\' {
            Some(0x1C)
        } else if ch == ']' {
            Some(0x1D)
        } else if ch == '^' || ch == '~' {
            Some(0x1E)
        } else if ch == '_' || ch == '/' {
            Some(0x1F)
        } else {
            None
        }
    } else {
        None
    }
}

/// `ESC O` in application cursor mode, `ESC [` otherwise.
pub open spec fn cursor_prefix(app_cursor: bool) -> Seq<u8> {
    if app_cursor {
        seq![0x1B, 0x4F]
    } else {
        seq![0x1B, 0x5B]
    }
}

/// The escape sequence of a named key.
pub open spec fn spec_named_key_bytes(k: NamedKey, app_cursor: bool) -> Option<Seq<u8>> {
    match k {
        NamedKey::Enter => Some(seq![0x0D]),
        NamedKey::Backspace => Some(seq![0x7F]),
        NamedKey::Tab => Some(seq![0x09]),
        NamedKey::Escape => Some(seq![0x1B]),
        NamedKey::ArrowUp => Some(cursor_prefix(app_cursor).push(0x41)),
        NamedKey::ArrowDown => Some(cursor_prefix(app_cursor).push(0x42)),
        NamedKey::ArrowRight => Some(cursor_prefix(app_cursor).push(0x43)),
        NamedKey::ArrowLeft => Some(cursor_prefix(app_cursor).push(0x44)),
        NamedKey::Home => Some(cursor_prefix(app_cursor).push(0x48)),
        NamedKey::End => Some(cursor_prefix(app_cursor).push(0x46)),
        NamedKey::PageUp => Some(seq![0x1B, 0x5B, 0x35, 0x7E]),
        NamedKey::PageDown => Some(seq![0x1B, 0x5B, 0x36, 0x7E]),
        NamedKey::Delete => Some(seq![0x1B, 0x5B, 0x33, 0x7E]),
        NamedKey::Insert => Some(seq![0x1B, 0x5B, 0x32, 0x7E]),
        NamedKey::F1 => Some(seq![0x1B, 0x4F, 0x50]),
        NamedKey::F2 => Some(seq![0x1B, 0x4F, 0x51]),
        NamedKey::F3 => Some(seq![0x1B, 0x4F, 0x52]),
        NamedKey::F4 => Some(seq![0x1B, 0x4F, 0x53]),
        NamedKey::F5 => Some(seq![0x1B, 0x5B, 0x31, 0x35, 0x7E]),
        NamedKey::F6 => Some(seq![0x1B, 0x5B, 0x31, 0x37, 0x7E]),
        NamedKey::F7 => Some(seq![0x1B, 0x5B, 0x31, 0x38, 0x7E]),
        NamedKey::F8 => Some(seq![0x1B, 0x5B, 0x31, 0x39, 0x7E]),
        NamedKey::F9 => Some(seq![0x1B, 0x5B, 0x32, 0x30, 0x7E]),
        NamedKey::F10 => Some(seq![0x1B, 0x5B, 0x32, 0x31, 0x7E]),
        NamedKey::F11 => Some(seq![0x1B, 0x5B, 0x32, 0x33, 0x7E]),
        NamedKey::F12 => Some(seq![0x1B, 0x5B, 0x32, 0x34, 0x7E]),
        NamedKey::Other => None,
    }
}

/// The text of the key press, when it produced some.
pub open spec fn nonempty_text(e: KeyPress) -> Option<Seq<char>> {
    match e.text {
        Some(t) => if t@.len() > 0 {
            Some(t@)
        } else {
            None
        },
        None => None,
    }
}

/// What a key press sends to the shell, if anything: Ctrl with a
/// character its control byte (ESC first with Alt); Alt with text ESC and
/// the text; a named key its escape sequence; otherwise the text, as UTF-8.
pub open spec fn spec_key_to_bytes(e: KeyPress, ctrl: bool, alt: bool, app_cursor: bool) -> Option<Seq<u8>> {
    let cb = match e.logical_key {
        LogicalKey::Character(c) => spec_ctrl_byte(c@),
        _ => None,
    };
    let named = match e.logical_key {
        LogicalKey::Named(k) => spec_named_key_bytes(k, app_cursor),
        _ => None,
    };
    if !e.pressed {
        None
    } else if ctrl && cb is Some {
        Some(
            if alt {
                seq![0x1B, cb->0]
            } else {
                seq![cb->0]
            },
        )
    } else if alt && nonempty_text(e) is Some {
        Some(seq![0x1Bu8] + vstd::utf8::encode_utf8(nonempty_text(e)->0))
    } else if named is Some {
        named
    } else if nonempty_text(e) is Some {
        Some(vstd::utf8::encode_utf8(nonempty_text(e)->0))
    } else {
        None
    }
}

fn ctrl_byte(c: &str) -> (r: Option<u8>)
    ensures
        r == spec_ctrl_byte(c@),
{
    let cs = chars_of(c);
    if cs.len() == 1 && (cs[0] as u32) < 128 {
        let ch = cs[0];
        if 'a' <= ch && ch <= 'z' {
            Some(((ch as u32) - 97 + 1) as u8)
        } else if 'A' <= ch && ch <= 'Z' {
            Some(((ch as u32) - 65 + 1) as u8)
        } else if ch == '@' || ch == ' ' {
            Some(0x00)
        } else if ch == '[' {
            Some(0x1B)
        } else if ch == '\\' {
            Some(0x1C)
        } else if ch == ']' {
            Some(0x1D)
        } else if ch == '^' || ch == '~' {
            Some(0x1E)
        } else if ch == '_' || ch == '/' {
            Some(0x1F)
        } else {
            None
        }
    } else {
        None
    }
}

fn cursor_seq(app_cursor: bool, last: u8) -> (r: Vec<u8>)
    ensures
        r@ == cursor_prefix(app_cursor).push(last),
{
    let r = if app_cursor {
        vec![0x1B, 0x4F, last]
    } else {
        vec![0x1B, 0x5B, last]
    };
    assert(r@ =~= cursor_prefix(app_cursor).push(last));
    r
}

fn bytes_of(b: &[u8]) -> (r: Vec<u8>)
    ensures
        r@ == b@,
{
    let mut out: Vec<u8> = Vec::new();
    let mut i: usize = 0;
    while i < b.len()
        invariant
            i <= b@.len(),
            out@ == b@.take(i as int),
        decreases b.len() - i,
    {
        out.push(b[i]);
        assert(b@.take(i + 1) =~= b@.take(i as int).push(b@[i as int]));
        i += 1;
    }
    assert(b@.take(b@.len() as int) =~= b@);
    out
}

pub fn named_key_bytes(k: NamedKey, app_cursor: bool) -> (r: Option<Vec<u8>>)
    ensures
        match r {
            Some(v) => spec_named_key_bytes(k, app_cursor) == Some(v@),
            None => spec_named_key_bytes(k, app_cursor) is None,
        },
{
    let r: Option<Vec<u8>> = match k {
        NamedKey::Enter => Some(vec![0x0D]),
        NamedKey::Backspace => Some(vec![0x7F]),
        NamedKey::Tab => Some(vec![0x09]),
        NamedKey::Escape => Some(vec![0x1B]),
        NamedKey::ArrowUp => Some(cursor_seq(app_cursor, 0x41)),
        NamedKey::ArrowDown => Some(cursor_seq(app_cursor, 0x42)),
        NamedKey::ArrowRight => Some(cursor_seq(app_cursor, 0x43)),
        NamedKey::ArrowLeft => Some(cursor_seq(app_cursor, 0x44)),
        NamedKey::Home => Some(cursor_seq(app_cursor, 0x48)),
        NamedKey::End => Some(cursor_seq(app_cursor, 0x46)),
        NamedKey::PageUp => Some(vec![0x1B, 0x5B, 0x35, 0x7E]),
        NamedKey::PageDown => Some(vec![0x1B, 0x5B, 0x36, 0x7E]),
        NamedKey::Delete => Some(vec![0x1B, 0x5B, 0x33, 0x7E]),
        NamedKey::Insert => Some(vec![0x1B, 0x5B, 0x32, 0x7E]),
        NamedKey::F1 => Some(vec![0x1B, 0x4F, 0x50]),
        NamedKey::F2 => Some(vec![0x1B, 0x4F, 0x51]),
        NamedKey::F3 => Some(vec![0x1B, 0x4F, 0x52]),
        NamedKey::F4 => Some(vec![0x1B, 0x4F, 0x53]),
        NamedKey::F5 => Some(vec![0x1B, 0x5B, 0x31, 0x35, 0x7E]),
        NamedKey::F6 => Some(vec![0x1B, 0x5B, 0x31, 0x37, 0x7E]),
        NamedKey::F7 => Some(vec![0x1B, 0x5B, 0x31, 0x38, 0x7E]),
        NamedKey::F8 => Some(vec![0x1B, 0x5B, 0x31, 0x39, 0x7E]),
        NamedKey::F9 => Some(vec![0x1B, 0x5B, 0x32, 0x30, 0x7E]),
        NamedKey::F10 => Some(vec![0x1B, 0x5B, 0x32, 0x31, 0x7E]),
        NamedKey::F11 => Some(vec![0x1B, 0x5B, 0x32, 0x33, 0x7E]),
        NamedKey::F12 => Some(vec![0x1B, 0x5B, 0x32, 0x34, 0x7E]),
        NamedKey::Other => None,
    };
    r
}

/// The bytes that a key press sends to the shell, or `None` when it sends
/// nothing (the key was not handled).
pub fn key_to_bytes(event: &KeyPress, ctrl: bool, alt: bool, app_cursor: bool) -> (r: Option<Vec<u8>>)
    ensures
        match r {
            Some(v) => spec_key_to_bytes(*event, ctrl, alt, app_cursor) == Some(v@),
            None => spec_key_to_bytes(*event, ctrl, alt, app_cursor) is None,
        },
{
    if !event.pressed {
        return None;
    }
    if ctrl {
        let cb = match &event.logical_key {
            LogicalKey::Character(c) => ctrl_byte(c.as_str()),
            _ => None,
        };
        if let Some(b) = cb {
            let data = if alt {
                vec![0x1B, b]
            } else {
                vec![b]
            };
            proof {
                if alt {
                    assert(data@ =~= seq![0x1B, b]);
                } else {
                    assert(data@ =~= seq![b]);
                }
            }
            return Some(data);
        }
    }
    if alt {
        if let Some(t) = &event.text {
            if !t.as_str().is_empty() {
                let mut data: Vec<u8> = vec![0x1B];
                let tb = bytes_of(t.as_str().as_bytes());
                let mut i: usize = 0;
                while i < tb.len()
                    invariant
                        i <= tb@.len(),
                        data@ == seq![0x1Bu8] + tb@.take(i as int),
                    decreases tb.len() - i,
                {
                    data.push(tb[i]);
                    assert(tb@.take(i + 1) =~= tb@.take(i as int).push(tb@[i as int]));
                    assert(data@ =~= seq![0x1Bu8] + tb@.take(i + 1));
                    i += 1;
                }
                assert(tb@.take(tb@.len() as int) =~= tb@);
                return Some(data);
            }
        }
    }
    let named = match &event.logical_key {
        LogicalKey::Named(k) => named_key_bytes(*k, app_cursor),
        _ => None,
    };
    if let Some(b) = named {
        return Some(b);
    }
    if let Some(t) = &event.text {
        if !t.as_str().is_empty() {
            return Some(bytes_of(t.as_str().as_bytes()));
        }
    }
    None
}


/// The cursor keys: each arrow sends the cursor prefix (`ESC [`, or `ESC O`
/// in application cursor mode) followed by its own letter: Up `A`, Down `B`,
/// Right `C`, Left `D`; Home and End likewise send `H` and `F`. A plain press
/// of such a key (no Alt) sends exactly that.
pub proof fn law_cursor_keys_send_their_letter(app_cursor: bool, e: KeyPress, ctrl: bool)
    ensures
        ({
            let p: Seq<u8> = if app_cursor {
                seq![0x1Bu8, 0x4Fu8]
            } else {
                seq![0x1Bu8, 0x5Bu8]
            };
            &&& spec_named_key_bytes(NamedKey::ArrowUp, app_cursor) == Some(p + seq![0x41u8])
            &&& spec_named_key_bytes(NamedKey::ArrowDown, app_cursor) == Some(p + seq![0x42u8])
            &&& spec_named_key_bytes(NamedKey::ArrowRight, app_cursor) == Some(p + seq![0x43u8])
            &&& spec_named_key_bytes(NamedKey::ArrowLeft, app_cursor) == Some(p + seq![0x44u8])
            &&& spec_named_key_bytes(NamedKey::Home, app_cursor) == Some(p + seq![0x48u8])
            &&& spec_named_key_bytes(NamedKey::End, app_cursor) == Some(p + seq![0x46u8])
        }),
        e.pressed ==> match e.logical_key {
            LogicalKey::Named(k) => spec_named_key_bytes(k, app_cursor) is Some
                ==> spec_key_to_bytes(e, ctrl, false, app_cursor) == spec_named_key_bytes(
                k,
                app_cursor,
            ),
            _ => true,
        },
{
    let p: Seq<u8> = if app_cursor {
        seq![0x1Bu8, 0x4Fu8]
    } else {
        seq![0x1Bu8, 0x5Bu8]
    };
    assert(cursor_prefix(app_cursor).push(0x41) =~= p + seq![0x41u8]);
    assert(cursor_prefix(app_cursor).push(0x42) =~= p + seq![0x42u8]);
    assert(cursor_prefix(app_cursor).push(0x43) =~= p + seq![0x43u8]);
    assert(cursor_prefix(app_cursor).push(0x44) =~= p + seq![0x44u8]);
    assert(cursor_prefix(app_cursor).push(0x48) =~= p + seq![0x48u8]);
    assert(cursor_prefix(app_cursor).push(0x46) =~= p + seq![0x46u8]);
}

/// The byte sequence that tells a key apart: its last byte, with its length
/// and second byte.
spec fn key_signature(b: Seq<u8>) -> (nat, u8, u8) {
    (b.len(), if b.len() > 1 { b[1] } else { 0 }, b.last())
}

/// Different named keys send different bytes: the shell can always tell
/// which key was pressed.
pub proof fn law_named_keys_send_distinct_bytes(k1: NamedKey, k2: NamedKey, app_cursor: bool)
    requires
        k1 != k2,
        spec_named_key_bytes(k1, app_cursor) is Some,
        spec_named_key_bytes(k2, app_cursor) is Some,
    ensures
        spec_named_key_bytes(k1, app_cursor) != spec_named_key_bytes(k2, app_cursor),
{
    let b1 = spec_named_key_bytes(k1, app_cursor)->0;
    let b2 = spec_named_key_bytes(k2, app_cursor)->0;
    if b1 == b2 {
        assert(key_signature(b1) == key_signature(b2));
        assert(b1.len() >= 1);
        if b1.len() == 5 {
            assert(b1[3] == b2[3]);
        }
        if b1.len() == 4 {
            assert(b1[2] == b2[2]);
        }
        assert(false);
    }
}


/// `ESC [ n ~`: the sequence of a VT220 editing or function key numbered `n`
/// (written in ASCII digits).
pub open spec fn vt_tilde(n: Seq<u8>) -> Seq<u8> {
    seq![0x1Bu8, 0x5Bu8] + n + seq![0x7Eu8]
}

/// The other named keys send the xterm sequences: Enter a carriage return,
/// Backspace DEL, Tab a tab, Escape ESC; F1 to F4 `ESC O P` to `ESC O S`;
/// Insert, Delete, PageUp, PageDown and F5 to F12 `ESC [ n ~` with
/// n = 2, 3, 5, 6, 15, 17, 18, 19, 20, 21, 23, 24. None of them depends on
/// the application cursor mode.
pub proof fn law_named_keys_send_xterm_sequences(app_cursor: bool)
    ensures
        spec_named_key_bytes(NamedKey::Enter, app_cursor) == Some(seq![0x0Du8]),
        spec_named_key_bytes(NamedKey::Backspace, app_cursor) == Some(seq![0x7Fu8]),
        spec_named_key_bytes(NamedKey::Tab, app_cursor) == Some(seq![0x09u8]),
        spec_named_key_bytes(NamedKey::Escape, app_cursor) == Some(seq![0x1Bu8]),
        spec_named_key_bytes(NamedKey::F1, app_cursor) == Some(seq![0x1Bu8, 0x4Fu8, 0x50u8]),
        spec_named_key_bytes(NamedKey::F2, app_cursor) == Some(seq![0x1Bu8, 0x4Fu8, 0x51u8]),
        spec_named_key_bytes(NamedKey::F3, app_cursor) == Some(seq![0x1Bu8, 0x4Fu8, 0x52u8]),
        spec_named_key_bytes(NamedKey::F4, app_cursor) == Some(seq![0x1Bu8, 0x4Fu8, 0x53u8]),
        spec_named_key_bytes(NamedKey::Insert, app_cursor) == Some(vt_tilde(seq![0x32u8])),
        spec_named_key_bytes(NamedKey::Delete, app_cursor) == Some(vt_tilde(seq![0x33u8])),
        spec_named_key_bytes(NamedKey::PageUp, app_cursor) == Some(vt_tilde(seq![0x35u8])),
        spec_named_key_bytes(NamedKey::PageDown, app_cursor) == Some(vt_tilde(seq![0x36u8])),
        spec_named_key_bytes(NamedKey::F5, app_cursor) == Some(vt_tilde(seq![0x31u8, 0x35u8])),
        spec_named_key_bytes(NamedKey::F6, app_cursor) == Some(vt_tilde(seq![0x31u8, 0x37u8])),
        spec_named_key_bytes(NamedKey::F7, app_cursor) == Some(vt_tilde(seq![0x31u8, 0x38u8])),
        spec_named_key_bytes(NamedKey::F8, app_cursor) == Some(vt_tilde(seq![0x31u8, 0x39u8])),
        spec_named_key_bytes(NamedKey::F9, app_cursor) == Some(vt_tilde(seq![0x32u8, 0x30u8])),
        spec_named_key_bytes(NamedKey::F10, app_cursor) == Some(vt_tilde(seq![0x32u8, 0x31u8])),
        spec_named_key_bytes(NamedKey::F11, app_cursor) == Some(vt_tilde(seq![0x32u8, 0x33u8])),
        spec_named_key_bytes(NamedKey::F12, app_cursor) == Some(vt_tilde(seq![0x32u8, 0x34u8])),
        spec_named_key_bytes(NamedKey::Other, app_cursor) is None,
{
    assert(vt_tilde(seq![0x32u8]) =~= seq![0x1B, 0x5B, 0x32, 0x7E]);
    assert(vt_tilde(seq![0x33u8]) =~= seq![0x1B, 0x5B, 0x33, 0x7E]);
    assert(vt_tilde(seq![0x35u8]) =~= seq![0x1B, 0x5B, 0x35, 0x7E]);
    assert(vt_tilde(seq![0x36u8]) =~= seq![0x1B, 0x5B, 0x36, 0x7E]);
    assert(vt_tilde(seq![0x31u8, 0x35u8]) =~= seq![0x1B, 0x5B, 0x31, 0x35, 0x7E]);
    assert(vt_tilde(seq![0x31u8, 0x37u8]) =~= seq![0x1B, 0x5B, 0x31, 0x37, 0x7E]);
    assert(vt_tilde(seq![0x31u8, 0x38u8]) =~= seq![0x1B, 0x5B, 0x31, 0x38, 0x7E]);
    assert(vt_tilde(seq![0x31u8, 0x39u8]) =~= seq![0x1B, 0x5B, 0x31, 0x39, 0x7E]);
    assert(vt_tilde(seq![0x32u8, 0x30u8]) =~= seq![0x1B, 0x5B, 0x32, 0x30, 0x7E]);
    assert(vt_tilde(seq![0x32u8, 0x31u8]) =~= seq![0x1B, 0x5B, 0x32, 0x31, 0x7E]);
    assert(vt_tilde(seq![0x32u8, 0x33u8]) =~= seq![0x1B, 0x5B, 0x32, 0x33, 0x7E]);
    assert(vt_tilde(seq![0x32u8, 0x34u8]) =~= seq![0x1B, 0x5B, 0x32, 0x34, 0x7E]);
}

/// Ctrl with a character sends the character's code modulo 32: Ctrl+A and
/// Ctrl+a send 0x01, Ctrl+Z 0x1A, Ctrl+@ 0x00, Ctrl+[ ESC, up to Ctrl+_ 0x1F;
/// Ctrl+space, Ctrl+~ and Ctrl+/ send 0x00, 0x1E and 0x1F. Digits send
/// nothing of their own.
pub proof fn law_ctrl_sends_code_mod_32(c: char)
    ensures
        ('@' <= c && c <= '_') || ('a' <= c && c <= 'z') ==> spec_ctrl_byte(seq![c]) == Some(
            ((c as u32) % 32) as u8,
        ),
        c == ' ' ==> spec_ctrl_byte(seq![c]) == Some(0x00u8),
        c == '~' ==> spec_ctrl_byte(seq![c]) == Some(0x1Eu8),
        c == '/' ==> spec_ctrl_byte(seq![c]) == Some(0x1Fu8),
        '0' <= c && c <= '9' ==> spec_ctrl_byte(seq![c]) is None,
{
    let u = c as u32;
    if ('@' <= c && c <= '_') || ('a' <= c && c <= 'z') {
        assert(u < 128);
        if 'a' <= c && c <= 'z' {
            assert(u - 97 + 1 == u % 32);
        } else if 'A' <= c && c <= 'Z' {
            assert(u - 65 + 1 == u % 32);
        }
    }
}

/// Alt puts ESC in front of what a key sends without it: in front of the
/// control byte of Ctrl with a character, and in front of the UTF-8 text of
/// a key that types text. A released key sends nothing.
pub proof fn law_alt_prefixes_escape(e: KeyPress, ctrl: bool, app_cursor: bool)
    ensures
        !e.pressed ==> spec_key_to_bytes(e, ctrl, false, app_cursor) is None
            && spec_key_to_bytes(e, ctrl, true, app_cursor) is None,
        e.pressed && ctrl && (match e.logical_key {
            LogicalKey::Character(c) => spec_ctrl_byte(c@) is Some,
            _ => false,
        }) ==> spec_key_to_bytes(e, ctrl, false, app_cursor) is Some && spec_key_to_bytes(
            e,
            ctrl,
            true,
            app_cursor,
        ) == Some(seq![0x1Bu8] + spec_key_to_bytes(e, ctrl, false, app_cursor)->0),
        e.pressed && !ctrl && (e.logical_key is Character) && nonempty_text(e) is Some
            ==> spec_key_to_bytes(e, ctrl, false, app_cursor) == Some(
            vstd::utf8::encode_utf8(nonempty_text(e)->0),
        ) && spec_key_to_bytes(e, ctrl, true, app_cursor) == Some(
            seq![0x1Bu8] + spec_key_to_bytes(e, ctrl, false, app_cursor)->0,
        ),
{
    match e.logical_key {
        LogicalKey::Character(c) => {
            if e.pressed && ctrl && spec_ctrl_byte(c@) is Some {
                assert(seq![0x1Bu8, spec_ctrl_byte(c@)->0] =~= seq![0x1Bu8] + seq![
                    spec_ctrl_byte(c@)->0,
                ]);
            }
        },
        _ => {},
    }
}

} // verus!
