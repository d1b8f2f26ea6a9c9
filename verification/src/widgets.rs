//! The editing model of a single-line text field: its text, the cursor, the
//! selection, and the text it shows. Layout, scrolling and drawing are the
//! renderer's part.
use vstd::prelude::*;

use crate::colors::HexColor;
use crate::text::{chars_of, copy_range, is_control, spec_is_control, string_from_chars};

verus! {

/// The state of a text field.
#[derive(Debug)]
pub struct TextField {
    value: Vec<char>,
    placeholder: Vec<char>,
    /// Cursor position, in characters.
    cursor_pos: usize,
    /// When set, the other end of the selection (the cursor is one end).
    selection_anchor: Option<usize>,
    focused: bool,
    password: bool,
}

/// The plain contents of a [`TextField`].
pub struct TextFieldView {
    pub value: Seq<char>,
    pub placeholder: Seq<char>,
    pub cursor: nat,
    pub anchor: Option<nat>,
    pub focused: bool,
    pub password: bool,
}

pub open spec fn opt_nat(o: Option<usize>) -> Option<nat> {
    match o {
        Some(a) => Some(a as nat),
        None => None,
    }
}

impl View for TextField {
    type V = TextFieldView;

    closed spec fn view(&self) -> TextFieldView {
        TextFieldView {
            value: self.value@,
            placeholder: self.placeholder@,
            cursor: self.cursor_pos as nat,
            anchor: opt_nat(self.selection_anchor),
            focused: self.focused,
            password: self.password,
        }
    }
}

// ---------------------------------------------------------------------------
// Specification of the editing operations
// ---------------------------------------------------------------------------

/// Cursor and anchor lie within the text.
pub open spec fn field_wf(f: TextFieldView) -> bool {
    &&& f.cursor <= f.value.len()
    &&& match f.anchor {
        Some(a) => a <= f.value.len(),
        None => true,
    }
}

pub open spec fn min_nat(a: nat, b: nat) -> nat {
    if a <= b {
        a
    } else {
        b
    }
}

pub open spec fn max_nat(a: nat, b: nat) -> nat {
    if a <= b {
        b
    } else {
        a
    }
}

/// The ordered ends of the selection (the cursor twice when there is none).
pub open spec fn spec_selection_range(f: TextFieldView) -> (nat, nat) {
    let a = match f.anchor {
        Some(a) => a,
        None => f.cursor,
    };
    (min_nat(a, f.cursor), max_nat(a, f.cursor))
}

/// The field after its selection is deleted; the cursor goes to where the
/// selection started, and the selection is dropped.
pub open spec fn spec_delete_selection(f: TextFieldView) -> TextFieldView {
    match f.anchor {
        Some(a) => {
            let start = min_nat(a, f.cursor);
            let end = max_nat(a, f.cursor);
            if start != end {
                TextFieldView {
                    value: f.value.take(start as int) + f.value.skip(end as int),
                    cursor: start,
                    anchor: None,
                    ..f
                }
            } else {
                TextFieldView { anchor: None, ..f }
            }
        },
        None => f,
    }
}

/// The characters of `text` that a field accepts: all but control characters.
pub open spec fn insertable(text: Seq<char>) -> Seq<char> {
    text.filter(|c: char| !spec_is_control(c))
}

/// The field after typing `text`: the selection is replaced, and the
/// accepted characters go in at the cursor, which ends after them.
pub open spec fn spec_insert_text(f: TextFieldView, text: Seq<char>) -> TextFieldView {
    let g = spec_delete_selection(f);
    let ins = insertable(text);
    TextFieldView {
        value: g.value.take(g.cursor as int) + ins + g.value.skip(g.cursor as int),
        cursor: g.cursor + ins.len(),
        ..g
    }
}

/// Backspace: deletes the selection, or else the character before the cursor.
pub open spec fn spec_delete_back(f: TextFieldView) -> TextFieldView {
    if f.anchor is Some {
        spec_delete_selection(f)
    } else if f.cursor > 0 {
        TextFieldView {
            value: f.value.remove(f.cursor - 1),
            cursor: (f.cursor - 1) as nat,
            ..f
        }
    } else {
        f
    }
}

/// Delete: deletes the selection, or else the character after the cursor.
pub open spec fn spec_delete_forward(f: TextFieldView) -> TextFieldView {
    if f.anchor is Some {
        spec_delete_selection(f)
    } else if f.cursor < f.value.len() {
        TextFieldView { value: f.value.remove(f.cursor as int), ..f }
    } else {
        f
    }
}

/// With Shift, a selection starts at the cursor unless one is under way.
pub open spec fn start_selection(f: TextFieldView) -> TextFieldView {
    match f.anchor {
        Some(_) => f,
        None => TextFieldView { anchor: Some(f.cursor), ..f },
    }
}

/// A selection whose ends meet is dropped.
pub open spec fn drop_empty_selection(f: TextFieldView) -> TextFieldView {
    if f.anchor == Some(f.cursor) {
        TextFieldView { anchor: None, ..f }
    } else {
        f
    }
}

/// Left arrow: with Shift, extends the selection one character left;
/// without, collapses a selection to its start or moves one character left.
pub open spec fn spec_move_left(f: TextFieldView, shift: bool) -> TextFieldView {
    if shift {
        let g = start_selection(f);
        let h = if g.cursor > 0 {
            TextFieldView { cursor: (g.cursor - 1) as nat, ..g }
        } else {
            g
        };
        drop_empty_selection(h)
    } else if f.anchor is Some {
        TextFieldView { cursor: spec_selection_range(f).0, anchor: None, ..f }
    } else if f.cursor > 0 {
        TextFieldView { cursor: (f.cursor - 1) as nat, ..f }
    } else {
        f
    }
}

/// Right arrow: with Shift, extends the selection one character right;
/// without, collapses a selection to its end or moves one character right.
pub open spec fn spec_move_right(f: TextFieldView, shift: bool) -> TextFieldView {
    if shift {
        let g = start_selection(f);
        let h = if g.cursor < g.value.len() {
            TextFieldView { cursor: g.cursor + 1, ..g }
        } else {
            g
        };
        drop_empty_selection(h)
    } else if f.anchor is Some {
        TextFieldView { cursor: spec_selection_range(f).1, anchor: None, ..f }
    } else if f.cursor < f.value.len() {
        TextFieldView { cursor: f.cursor + 1, ..f }
    } else {
        f
    }
}

/// Home: the cursor goes to the start, selecting with Shift.
pub open spec fn spec_move_home(f: TextFieldView, shift: bool) -> TextFieldView {
    if shift {
        drop_empty_selection(TextFieldView { cursor: 0, ..start_selection(f) })
    } else {
        TextFieldView { cursor: 0, anchor: None, ..f }
    }
}

/// End: the cursor goes to the end, selecting with Shift.
pub open spec fn spec_move_end(f: TextFieldView, shift: bool) -> TextFieldView {
    if shift {
        drop_empty_selection(TextFieldView { cursor: f.value.len(), ..start_selection(f) })
    } else {
        TextFieldView { cursor: f.value.len(), anchor: None, ..f }
    }
}

/// Select all: selects the whole text, when there is any.
pub open spec fn spec_select_all(f: TextFieldView) -> TextFieldView {
    if f.value.len() > 0 {
        TextFieldView { anchor: Some(0), cursor: f.value.len(), ..f }
    } else {
        f
    }
}

/// The selected text, when the selection is not empty.
pub open spec fn spec_selected_text(f: TextFieldView) -> Option<Seq<char>> {
    match f.anchor {
        Some(a) => {
            let start = min_nat(a, f.cursor);
            let end = max_nat(a, f.cursor);
            if start == end {
                None
            } else {
                Some(f.value.subrange(start as int, end as int))
            }
        },
        None => None,
    }
}

/// What the field shows: a star per character for a password, the
/// placeholder when empty, else the text.
pub open spec fn spec_display_text(f: TextFieldView) -> Seq<char> {
    if f.password {
        Seq::new(f.value.len(), |i: int| '*')
    } else if f.value.len() == 0 {
        f.placeholder
    } else {
        f.value
    }
}

// ---------------------------------------------------------------------------
// Operations
// ---------------------------------------------------------------------------

impl TextField {
    /// An empty, unfocused field.
    pub fn new(placeholder: &str, password: bool) -> (r: TextField)
        ensures
            field_wf(r@),
            r@.value == Seq::<char>::empty(),
            r@.placeholder == placeholder@,
            r@.cursor == 0,
            r@.anchor is None,
            !r@.focused,
            r@.password == password,
    {
        TextField {
            value: Vec::new(),
            placeholder: chars_of(placeholder),
            cursor_pos: 0,
            selection_anchor: None,
            focused: false,
            password,
        }
    }

    pub fn value(&self) -> (r: String)
        ensures
            r@ == self@.value,
    {
        string_from_chars(self.value.as_slice())
    }

    /// Replaces the text; the cursor goes to its end and the selection is dropped.
    pub fn set_value(&mut self, text: &str)
        ensures
            field_wf(final(self)@),
            final(self)@ == (TextFieldView {
                value: text@,
                cursor: text@.len(),
                anchor: None,
                ..old(self)@
            }),
    {
        self.value = chars_of(text);
        self.cursor_pos = self.value.len();
        self.selection_anchor = None;
    }

    pub fn set_focused(&mut self, focused: bool)
        ensures
            final(self)@ == (TextFieldView { focused, ..old(self)@ }),
    {
        self.focused = focused;
    }

    pub fn is_focused(&self) -> (r: bool)
        ensures
            r == self@.focused,
    {
        self.focused
    }

    /// The cursor position, in characters.
    pub fn cursor_pos(&self) -> (r: usize)
        ensures
            r == self@.cursor,
    {
        self.cursor_pos
    }

    /// Puts the cursor at `pos` (clamped to the text), dropping the
    /// selection and focusing the field, as a click does.
    pub fn click_at(&mut self, pos: usize)
        requires
            field_wf(old(self)@),
        ensures
            field_wf(final(self)@),
            final(self)@ == (TextFieldView {
                cursor: min_nat(pos as nat, old(self)@.value.len()),
                anchor: None,
                focused: true,
                ..old(self)@
            }),
    {
        self.cursor_pos = if pos <= self.value.len() {
            pos
        } else {
            self.value.len()
        };
        self.selection_anchor = None;
        self.focused = true;
    }

    pub fn has_selection(&self) -> (r: bool)
        ensures
            r == self@.anchor is Some,
    {
        self.selection_anchor.is_some()
    }

    /// The ordered ends of the selection, in characters.
    pub fn selection_range(&self) -> (r: (usize, usize))
        ensures
            (r.0 as nat, r.1 as nat) == spec_selection_range(self@),
    {
        let anchor = match self.selection_anchor {
            Some(a) => a,
            None => self.cursor_pos,
        };
        let start = if anchor <= self.cursor_pos {
            anchor
        } else {
            self.cursor_pos
        };
        let end = if anchor <= self.cursor_pos {
            self.cursor_pos
        } else {
            anchor
        };
        (start, end)
    }

    /// The selected text, or `None` when nothing is selected.
    pub fn selected_text(&self) -> (r: Option<String>)
        requires
            field_wf(self@),
        ensures
            match r {
                Some(s) => spec_selected_text(self@) == Some(s@),
                None => spec_selected_text(self@) is None,
            },
    {
        match self.selection_anchor {
            Some(anchor) => {
                let (start, end) = self.selection_range();
                if start == end {
                    None
                } else {
                    let part = copy_range(self.value.as_slice(), start, end);
                    Some(string_from_chars(part.as_slice()))
                }
            },
            None => None,
        }
    }

    /// Deletes the selected text, leaving the cursor where it started.
    pub fn delete_selection_inner(&mut self)
        requires
            field_wf(old(self)@),
        ensures
            field_wf(final(self)@),
            final(self)@ == spec_delete_selection(old(self)@),
    {
        if let Some(anchor) = self.selection_anchor {
            let (start, end) = self.selection_range();
            self.selection_anchor = None;
            if start != end {
                let ghost v = self.value@;
                let mut kept = copy_range(self.value.as_slice(), 0, start);
                let tail = copy_range(self.value.as_slice(), end, self.value.len());
                let mut i: usize = 0;
                while i < tail.len()
                    invariant
                        i <= tail@.len(),
                        kept@ == v.take(start as int) + tail@.take(i as int),
                    decreases tail.len() - i,
                {
                    kept.push(tail[i]);
                    assert(tail@.take(i + 1) =~= tail@.take(i as int).push(tail@[i as int]));
                    assert(kept@ =~= v.take(start as int) + tail@.take(i + 1));
                    i += 1;
                }
                assert(tail@.take(tail@.len() as int) =~= tail@);
                assert(v.skip(end as int) =~= tail@);
                assert(v.take(start as int) =~= v.subrange(0, start as int));
                self.value = kept;
                self.cursor_pos = start;
            }
        }
    }

    /// Types `text` at the cursor, replacing the selection; control
    /// characters are left out.
    pub fn insert_text(&mut self, text: &str)
        requires
            field_wf(old(self)@),
        ensures
            field_wf(final(self)@),
            final(self)@ == spec_insert_text(old(self)@, text@),
    {
        self.delete_selection_inner();
        let ghost g = self@;
        let cs = chars_of(text);
        let mut i: usize = 0;
        while i < cs.len()
            invariant
                i <= cs@.len(),
                cs@ == text@,
                g.cursor <= g.value.len(),
                self.selection_anchor is None,
                self.focused == g.focused,
                self.password == g.password,
                self.placeholder@ == g.placeholder,
                self.value@ == g.value.take(g.cursor as int) + insertable(cs@.take(i as int))
                    + g.value.skip(g.cursor as int),
                self.cursor_pos == g.cursor + insertable(cs@.take(i as int)).len(),
                self.cursor_pos <= self.value@.len(),
            decreases cs.len() - i,
        {
            let c = cs[i];
            proof {
                assert(cs@.take(i + 1).drop_last() =~= cs@.take(i as int));
                assert(cs@.take(i + 1).last() == c);
                reveal(Seq::filter);
                if !spec_is_control(c) {
                    assert(insertable(cs@.take(i + 1)) == insertable(cs@.take(i as int)).push(c));
                } else {
                    assert(insertable(cs@.take(i + 1)) == insertable(cs@.take(i as int)));
                }
            }
            if !is_control(c) {
                let ghost before = self.value@;
                self.value.insert(self.cursor_pos, c);
                proof {
                    let f0 = insertable(cs@.take(i as int));
                    let a = g.value.take(g.cursor as int);
                    let b = g.value.skip(g.cursor as int);
                    assert(before == a + f0 + b);
                    assert(a.len() == g.cursor);
                    assert(before.take(self.cursor_pos as int) =~= a + f0);
                    assert(before.skip(self.cursor_pos as int) =~= b);
                    assert(self.value@ =~= a + f0.push(c) + b);
                }
                let l = self.value.len();
                assert(self.cursor_pos < l);
                self.cursor_pos += 1;
            }
            i += 1;
        }
        assert(cs@.take(cs@.len() as int) =~= cs@);
    }

    /// Backspace.
    pub fn delete_back(&mut self)
        requires
            field_wf(old(self)@),
        ensures
            field_wf(final(self)@),
            final(self)@ == spec_delete_back(old(self)@),
    {
        if self.has_selection() {
            self.delete_selection_inner();
            return ;
        }
        if self.cursor_pos > 0 {
            let _ = self.value.remove(self.cursor_pos - 1);
            self.cursor_pos -= 1;
        }
    }

    /// Delete.
    pub fn delete_forward(&mut self)
        requires
            field_wf(old(self)@),
        ensures
            field_wf(final(self)@),
            final(self)@ == spec_delete_forward(old(self)@),
    {
        if self.has_selection() {
            self.delete_selection_inner();
            return ;
        }
        if self.cursor_pos < self.value.len() {
            let _ = self.value.remove(self.cursor_pos);
        }
    }

    /// Left arrow, extending the selection with Shift.
    pub fn move_left(&mut self, shift: bool)
        requires
            field_wf(old(self)@),
        ensures
            field_wf(final(self)@),
            final(self)@ == spec_move_left(old(self)@, shift),
    {
        if shift {
            if self.selection_anchor.is_none() {
                self.selection_anchor = Some(self.cursor_pos);
            }
        } else if self.has_selection() {
            let (start, _) = self.selection_range();
            self.cursor_pos = start;
            self.selection_anchor = None;
            return ;
        }
        if self.cursor_pos > 0 {
            self.cursor_pos -= 1;
        }
        if shift && self.selection_anchor == Some(self.cursor_pos) {
            self.selection_anchor = None;
        }
    }

    /// Right arrow, extending the selection with Shift.
    pub fn move_right(&mut self, shift: bool)
        requires
            field_wf(old(self)@),
        ensures
            field_wf(final(self)@),
            final(self)@ == spec_move_right(old(self)@, shift),
    {
        if shift {
            if self.selection_anchor.is_none() {
                self.selection_anchor = Some(self.cursor_pos);
            }
        } else if self.has_selection() {
            let (_, end) = self.selection_range();
            self.cursor_pos = end;
            self.selection_anchor = None;
            return ;
        }
        let char_count = self.value.len();
        if self.cursor_pos < char_count {
            self.cursor_pos += 1;
        }
        if shift && self.selection_anchor == Some(self.cursor_pos) {
            self.selection_anchor = None;
        }
    }

    /// Home, selecting with Shift.
    pub fn move_home(&mut self, shift: bool)
        requires
            field_wf(old(self)@),
        ensures
            field_wf(final(self)@),
            final(self)@ == spec_move_home(old(self)@, shift),
    {
        if shift {
            if self.selection_anchor.is_none() {
                self.selection_anchor = Some(self.cursor_pos);
            }
        } else {
            self.selection_anchor = None;
        }
        self.cursor_pos = 0;
        if shift && self.selection_anchor == Some(0) {
            self.selection_anchor = None;
        }
    }

    /// End, selecting with Shift.
    pub fn move_end(&mut self, shift: bool)
        requires
            field_wf(old(self)@),
        ensures
            field_wf(final(self)@),
            final(self)@ == spec_move_end(old(self)@, shift),
    {
        if shift {
            if self.selection_anchor.is_none() {
                self.selection_anchor = Some(self.cursor_pos);
            }
        } else {
            self.selection_anchor = None;
        }
        let end = self.value.len();
        self.cursor_pos = end;
        if shift && self.selection_anchor == Some(end) {
            self.selection_anchor = None;
        }
    }

    /// Selects the whole text, when there is any.
    pub fn select_all(&mut self)
        requires
            field_wf(old(self)@),
        ensures
            field_wf(final(self)@),
            final(self)@ == spec_select_all(old(self)@),
    {
        let len = self.value.len();
        if len > 0 {
            self.selection_anchor = Some(0);
            self.cursor_pos = len;
        }
    }

    /// The text the field shows.
    pub fn display_text(&self) -> (r: String)
        ensures
            r@ == spec_display_text(self@),
    {
        if self.password {
            let mut stars: Vec<char> = Vec::new();
            let mut i: usize = 0;
            while i < self.value.len()
                invariant
                    i <= self.value@.len(),
                    stars@ == Seq::new(i as nat, |j: int| '*'),
                decreases self.value.len() - i,
            {
                stars.push('*');
                assert(stars@ =~= Seq::new((i + 1) as nat, |j: int| '*'));
                i += 1;
            }
            string_from_chars(stars.as_slice())
        } else if self.value.len() == 0 {
            string_from_chars(self.placeholder.as_slice())
        } else {
            string_from_chars(self.value.as_slice())
        }
    }

    /// Whether the field shows its placeholder.
    pub fn is_showing_placeholder(&self) -> (r: bool)
        ensures
            r == (!self@.password && self@.value.len() == 0),
    {
        !self.password && self.value.len() == 0
    }
}

// ---------------------------------------------------------------------------
// Laws
// ---------------------------------------------------------------------------

/// Typing one character and pressing Backspace gives back the text and the
/// cursor position (when nothing was selected).
pub proof fn law_insert_then_delete_back(f: TextFieldView, c: char)
    requires
        field_wf(f),
        f.anchor is None,
        !spec_is_control(c),
    ensures
        spec_delete_back(spec_insert_text(f, seq![c])) == f,
{
    reveal(Seq::filter);
    assert(seq![c].drop_last() =~= Seq::<char>::empty());
    assert(insertable(seq![c]) =~= seq![c]);
    let g = spec_insert_text(f, seq![c]);
    assert(g.value.remove(f.cursor as int) =~= f.value);
}

/// Select all, then the selection is the whole text.
pub proof fn law_select_all_selects_text(f: TextFieldView)
    requires
        field_wf(f),
        f.value.len() > 0,
    ensures
        spec_selected_text(spec_select_all(f)) == Some(f.value),
{
    assert(f.value.subrange(0, f.value.len() as int) =~= f.value);
}

/// Select all, then Backspace empties the field.
pub proof fn law_select_all_then_delete_empties(f: TextFieldView)
    requires
        field_wf(f),
    ensures
        spec_delete_back(spec_select_all(f)).value.len() == 0 || f.value.len() == 0,
        spec_delete_back(spec_select_all(f)).cursor == 0,
{
    if f.value.len() > 0 {
        assert(f.value.take(0) + f.value.skip(f.value.len() as int) =~= Seq::<char>::empty());
    }
}

/// Typing `text` with nothing selected grows the text by the accepted
/// characters and keeps what stood before and after the cursor.
pub proof fn law_insert_keeps_surroundings(f: TextFieldView, text: Seq<char>)
    requires
        field_wf(f),
        f.anchor is None,
    ensures
        spec_insert_text(f, text).value.len() == f.value.len() + insertable(text).len(),
        spec_insert_text(f, text).value.take(f.cursor as int) == f.value.take(f.cursor as int),
        spec_insert_text(f, text).value.skip((f.cursor + insertable(text).len()) as int)
            == f.value.skip(f.cursor as int),
        field_wf(spec_insert_text(f, text)),
{
    let ins = insertable(text);
    let v = spec_insert_text(f, text).value;
    assert(v.take(f.cursor as int) =~= f.value.take(f.cursor as int));
    assert(v.skip((f.cursor + ins.len()) as int) =~= f.value.skip(f.cursor as int));
}

/// The end of the selection that stays put when the cursor moves with
/// Shift: the anchor of a selection under way, else the cursor.
pub open spec fn fixed_end(f: TextFieldView) -> nat {
    match f.anchor {
        Some(a) => a,
        None => f.cursor,
    }
}

/// Home and End move the cursor to the start and the end of the text and
/// leave the text alone. Without Shift they drop any selection; with Shift
/// the selection runs from where it was fixed (the anchor, or the cursor when
/// nothing was selected) to the start or the end, so Shift+Home from the end
/// of "hello" selects "hello".
pub proof fn law_home_end_select_to_the_edge(f: TextFieldView)
    requires
        field_wf(f),
    ensures
        spec_move_home(f, false).value == f.value,
        spec_move_home(f, false).cursor == 0,
        spec_selected_text(spec_move_home(f, false)) is None,
        spec_move_home(f, true).value == f.value,
        spec_move_home(f, true).cursor == 0,
        spec_selection_range(spec_move_home(f, true)) == (0nat, fixed_end(f)),
        spec_selected_text(spec_move_home(f, true)) == if fixed_end(f) > 0 {
            Some(f.value.take(fixed_end(f) as int))
        } else {
            None::<Seq<char>>
        },
        spec_move_end(f, false).value == f.value,
        spec_move_end(f, false).cursor == f.value.len(),
        spec_selected_text(spec_move_end(f, false)) is None,
        spec_move_end(f, true).value == f.value,
        spec_move_end(f, true).cursor == f.value.len(),
        spec_selection_range(spec_move_end(f, true)) == (fixed_end(f), f.value.len()),
        spec_selected_text(spec_move_end(f, true)) == if fixed_end(f) < f.value.len() {
            Some(f.value.skip(fixed_end(f) as int))
        } else {
            None::<Seq<char>>
        },
{
    assert(f.value.subrange(0, fixed_end(f) as int) =~= f.value.take(fixed_end(f) as int));
    assert(f.value.subrange(fixed_end(f) as int, f.value.len() as int) =~= f.value.skip(
        fixed_end(f) as int,
    ));
}

/// The arrows move the cursor one character (not past either end) and leave
/// the text alone. With Shift the selection runs from where it was fixed to
/// the new cursor; without, a selection collapses to its start (Left) or its
/// end (Right) and otherwise the cursor steps.
pub proof fn law_arrows_step_one_character(f: TextFieldView)
    requires
        field_wf(f),
    ensures
        ({
            let c = f.cursor;
            let l = if c > 0 {
                (c - 1) as nat
            } else {
                c
            };
            let r = if c < f.value.len() {
                c + 1
            } else {
                c
            };
            let e = fixed_end(f);
            &&& spec_move_left(f, true).value == f.value
            &&& spec_move_left(f, true).cursor == l
            &&& spec_selection_range(spec_move_left(f, true)) == (min_nat(e, l), max_nat(e, l))
            &&& spec_move_right(f, true).value == f.value
            &&& spec_move_right(f, true).cursor == r
            &&& spec_selection_range(spec_move_right(f, true)) == (min_nat(e, r), max_nat(e, r))
            &&& spec_move_left(f, false).value == f.value
            &&& spec_selected_text(spec_move_left(f, false)) is None
            &&& spec_move_left(f, false).cursor == if f.anchor is Some {
                min_nat(e, c)
            } else {
                l
            }
            &&& spec_move_right(f, false).value == f.value
            &&& spec_selected_text(spec_move_right(f, false)) is None
            &&& spec_move_right(f, false).cursor == if f.anchor is Some {
                max_nat(e, c)
            } else {
                r
            }
        }),
{
}

/// With nothing selected, Backspace removes the character before the
/// cursor and Delete the one after it; at the start (Backspace) or the end
/// (Delete) of the text nothing changes. With a selection, both remove the
/// selected text and put the cursor where it began.
pub proof fn law_backspace_and_delete(f: TextFieldView)
    requires
        field_wf(f),
    ensures
        ({
            let c = f.cursor;
            let v = f.value;
            let (s, e) = spec_selection_range(f);
            &&& f.anchor is None && c > 0 ==> spec_delete_back(f).value == v.take(c - 1) + v.skip(
                c as int,
            ) && spec_delete_back(f).cursor == c - 1
            &&& f.anchor is None && c == 0 ==> spec_delete_back(f) == f
            &&& f.anchor is None && c < v.len() ==> spec_delete_forward(f).value == v.take(c as int)
                + v.skip(c + 1 as int) && spec_delete_forward(f).cursor == c
            &&& f.anchor is None && c == v.len() ==> spec_delete_forward(f) == f
            &&& f.anchor is Some && s < e ==> spec_delete_back(f).value == v.take(s as int) + v.skip(
                e as int,
            ) && spec_delete_back(f).cursor == s && spec_delete_back(f).anchor is None
            &&& f.anchor is Some && s < e ==> spec_delete_forward(f).value == v.take(s as int)
                + v.skip(e as int) && spec_delete_forward(f).cursor == s
                && spec_delete_forward(f).anchor is None
        }),
{
    let c = f.cursor;
    let v = f.value;
    if f.anchor is None && c > 0 {
        assert(v.remove(c - 1) =~= v.take(c - 1) + v.skip(c as int));
    }
    if f.anchor is None && c < v.len() {
        assert(v.remove(c as int) =~= v.take(c as int) + v.skip(c + 1 as int));
    }
}

/// Typing over a selection replaces it: the text before and after the
/// selection stays, the accepted characters take its place, the cursor ends
/// after them and nothing is selected.
pub proof fn law_typing_replaces_the_selection(f: TextFieldView, text: Seq<char>)
    requires
        field_wf(f),
        f.anchor is Some,
    ensures
        ({
            let (s, e) = spec_selection_range(f);
            let g = spec_insert_text(f, text);
            &&& g.value == f.value.take(s as int) + insertable(text) + f.value.skip(e as int)
            &&& g.cursor == s + insertable(text).len()
            &&& g.anchor is None
        }),
{
    let (s, e) = spec_selection_range(f);
    if s != e {
        let w = f.value.take(s as int) + f.value.skip(e as int);
        assert(w.take(s as int) =~= f.value.take(s as int));
        assert(w.skip(s as int) =~= f.value.skip(e as int));
    } else {
        assert(f.value.skip(s as int) =~= f.value.skip(e as int));
    }
}

// ---------------------------------------------------------------------------
// Buttons
// ---------------------------------------------------------------------------

/// How a button is drawn: filled, or stroked with a fill.
#[derive(Debug, Clone, Copy)]
pub enum ButtonKind {
    Filled { bg: HexColor, bg_hover: HexColor },
    Stroked { fill: HexColor, fill_hover: HexColor, stroke: HexColor },
}

} // verus!
