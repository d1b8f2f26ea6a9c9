//! Dropdown menus: their entries and actions, which entries the "+" and
//! context menus hold, and the state of an open menu (its items, the hovered
//! element). Placing and drawing the menu is the renderer's part.
use vstd::prelude::*;

use crate::hits::{first_index, first_true};
use crate::saved_sessions::{spec_key, spec_session_label, SavedSession};
use crate::text::copy_string;

verus! {

/// Icon of a terminal.
pub const ICON_TERMINAL: u16 = 1;

/// Icon of the "add" (+) button.
pub const ICON_ADD: u16 = 2;

/// Icon of a close button.
pub const ICON_CLOSE: u16 = 3;

/// Icon of a close button under the pointer.
pub const ICON_CLOSE_HOVERED: u16 = 4;

/// What choosing a menu item does.
#[derive(Debug)]
pub enum MenuAction {
    NewShell(String),
    OpenSshDialog,
    ConnectSavedSession(String),
    Copy,
    Paste,
}

/// The plain contents of a [`MenuAction`].
pub enum ActionView {
    NewShell(Seq<char>),
    OpenSshDialog,
    ConnectSavedSession(Seq<char>),
    Copy,
    Paste,
}

impl View for MenuAction {
    type V = ActionView;

    open spec fn view(&self) -> ActionView {
        match self {
            MenuAction::NewShell(p) => ActionView::NewShell(p@),
            MenuAction::OpenSshDialog => ActionView::OpenSshDialog,
            MenuAction::ConnectSavedSession(k) => ActionView::ConnectSavedSession(k@),
            MenuAction::Copy => ActionView::Copy,
            MenuAction::Paste => ActionView::Paste,
        }
    }
}

impl MenuAction {
    /// A copy of the action.
    pub fn copy(&self) -> (r: MenuAction)
        ensures
            r@ == self@,
    {
        match self {
            MenuAction::NewShell(p) => MenuAction::NewShell(copy_string(p.as_str())),
            MenuAction::OpenSshDialog => MenuAction::OpenSshDialog,
            MenuAction::ConnectSavedSession(k) => MenuAction::ConnectSavedSession(
                copy_string(k.as_str()),
            ),
            MenuAction::Copy => MenuAction::Copy,
            MenuAction::Paste => MenuAction::Paste,
        }
    }
}

/// An item of a menu.
#[derive(Debug)]
pub struct MenuItem {
    pub label: String,
    pub action: MenuAction,
    pub icon: Option<u16>,
    pub closeable: bool,
}

/// An entry of a menu: an item or a separator line.
#[derive(Debug)]
pub enum MenuEntry {
    Item(MenuItem),
    Separator,
}

/// What a point of an open menu hits.
#[derive(Debug, Clone, Copy, PartialEq, Eq, Structural)]
pub enum DropdownElement {
    /// Nothing: outside the items.
    Nothing,
    Item(usize),
    CloseButton(usize),
}

/// An item with the given label, action, icon and close button.
pub open spec fn is_item(
    e: MenuEntry,
    label: Seq<char>,
    icon: Option<u16>,
    closeable: bool,
) -> bool {
    e matches MenuEntry::Item(it) && it.label@ == label && it.icon == icon && it.closeable
        == closeable
}

/// The action opens a shell at `path`.
pub open spec fn opens_shell(a: MenuAction, path: Seq<char>) -> bool {
    a matches MenuAction::NewShell(p) && p@ == path
}

/// The action connects to the saved session with `key`.
pub open spec fn connects_session(a: MenuAction, key: Seq<char>) -> bool {
    a matches MenuAction::ConnectSavedSession(k) && k@ == key
}

/// The action of an entry (a separator has none; `Copy` stands in).
pub open spec fn entry_action(e: MenuEntry) -> MenuAction {
    match e {
        MenuEntry::Item(it) => it.action,
        MenuEntry::Separator => MenuAction::Copy,
    }
}

impl MenuEntry {
    /// A plain item.
    pub fn item(label: &str, action: MenuAction) -> (r: Self)
        ensures
            is_item(r, label@, None, false),
            entry_action(r) == action,
    {
        MenuEntry::Item(MenuItem { label: copy_string(label), action, icon: None, closeable: false })
    }

    /// An item with an icon.
    pub fn item_with_icon(label: &str, action: MenuAction, icon: u16) -> (r: Self)
        ensures
            is_item(r, label@, Some(icon), false),
            entry_action(r) == action,
    {
        MenuEntry::Item(
            MenuItem { label: copy_string(label), action, icon: Some(icon), closeable: false },
        )
    }

    /// An item with an icon and a close button.
    pub fn closeable_item_with_icon(label: &str, action: MenuAction, icon: u16) -> (r: Self)
        ensures
            is_item(r, label@, Some(icon), true),
            entry_action(r) == action,
    {
        MenuEntry::Item(
            MenuItem { label: copy_string(label), action, icon: Some(icon), closeable: true },
        )
    }
}

// ---------------------------------------------------------------------------
// The menus of the application
// ---------------------------------------------------------------------------

/// The "+" menu: one item per shell (label, path), a separator, the saved
/// sessions (closeable, most recent first as given), a separator when there
/// are any, and "New SSH Session...".
pub open spec fn new_tab_menu_ok(
    shells: Seq<(String, String)>,
    sessions: Seq<SavedSession>,
    r: Seq<MenuEntry>,
) -> bool {
    let n = shells.len();
    let m = sessions.len();
    let extra: int = if m > 0 {
        1
    } else {
        0
    };
    &&& r.len() == n + 1 + m + extra + 1
    &&& forall|i: int|
        0 <= i < n ==> is_item(#[trigger] r[i], shells[i].0@, None, false) && opens_shell(
            entry_action(r[i]),
            shells[i].1@,
        )
    &&& r[n as int] is Separator
    &&& forall|j: int|
        0 <= j < m ==> is_item(
            #[trigger] r[n + 1 + j],
            spec_session_label(sessions[j]@),
            Some(ICON_TERMINAL),
            true,
        ) && connects_session(entry_action(r[n + 1 + j]), spec_key(sessions[j]@))
    &&& m > 0 ==> r[(n + 1 + m) as int] is Separator
    &&& is_item(r[r.len() - 1], "New SSH Session..."@, Some(ICON_ADD), false)
    &&& entry_action(r[r.len() - 1]) is OpenSshDialog
}

/// The entries of the "+" menu.
pub fn new_tab_menu_entries(shells: &[(String, String)], sessions: &[SavedSession]) -> (r: Vec<
    MenuEntry,
>)
    ensures
        new_tab_menu_ok(shells@, sessions@, r@),
{
    let mut entries: Vec<MenuEntry> = Vec::new();
    let mut i: usize = 0;
    while i < shells.len()
        invariant
            i <= shells@.len(),
            entries@.len() == i,
            forall|k: int|
                0 <= k < i ==> is_item(#[trigger] entries@[k], shells@[k].0@, None, false)
                    && opens_shell(entry_action(entries@[k]), shells@[k].1@),
        decreases shells.len() - i,
    {
        let (label, path) = &shells[i];
        entries.push(MenuEntry::item(label.as_str(), MenuAction::NewShell(copy_string(path.as_str()))));
        i += 1;
    }
    entries.push(MenuEntry::Separator);
    let n = shells.len();
    let mut j: usize = 0;
    while j < sessions.len()
        invariant
            n == shells@.len(),
            j <= sessions@.len(),
            entries@.len() == n + 1 + j,
            forall|k: int|
                0 <= k < n ==> is_item(#[trigger] entries@[k], shells@[k].0@, None, false)
                    && opens_shell(entry_action(entries@[k]), shells@[k].1@),
            entries@[n as int] is Separator,
            forall|k: int|
                0 <= k < j ==> is_item(
                    #[trigger] entries@[n + 1 + k],
                    spec_session_label(sessions@[k]@),
                    Some(ICON_TERMINAL),
                    true,
                ) && connects_session(entry_action(entries@[n + 1 + k]), spec_key(sessions@[k]@)),
        decreases sessions.len() - j,
    {
        let label = sessions[j].display_label();
        let key = sessions[j].key();
        entries.push(
            MenuEntry::closeable_item_with_icon(
                label.as_str(),
                MenuAction::ConnectSavedSession(key),
                ICON_TERMINAL,
            ),
        );
        j += 1;
    }
    if sessions.len() > 0 {
        entries.push(MenuEntry::Separator);
    }
    entries.push(MenuEntry::item_with_icon("New SSH Session...", MenuAction::OpenSshDialog, ICON_ADD));
    entries
}

/// The context menu: "Copy" when text is selected, then "Paste".
pub fn context_menu_entries(has_selection: bool) -> (r: Vec<MenuEntry>)
    ensures
        r@.len() == (if has_selection {
            2int
        } else {
            1int
        }),
        has_selection ==> is_item(r@[0], "Copy"@, None, false) && entry_action(r@[0]) is Copy,
        is_item(r@[r@.len() - 1], "Paste"@, None, false),
        entry_action(r@[r@.len() - 1]) is Paste,
{
    let mut entries: Vec<MenuEntry> = Vec::new();
    if has_selection {
        entries.push(MenuEntry::item("Copy", MenuAction::Copy));
    }
    entries.push(MenuEntry::item("Paste", MenuAction::Paste));
    entries
}

// ---------------------------------------------------------------------------
// An open menu
// ---------------------------------------------------------------------------

/// The items of a list of entries, in order.
pub open spec fn items_of(entries: Seq<MenuEntry>) -> Seq<MenuItem>
    decreases entries.len(),
{
    if entries.len() == 0 {
        seq![]
    } else {
        match entries.last() {
            MenuEntry::Item(it) => items_of(entries.drop_last()).push(it),
            MenuEntry::Separator => items_of(entries.drop_last()),
        }
    }
}

/// What a point hits in a menu (see [`DropdownMenu::resolve_hit`]).
pub open spec fn spec_resolve_menu_hit(
    v: DropdownView,
    close_hits: Seq<bool>,
    item_hits: Seq<bool>,
) -> DropdownElement {
    if !v.visible {
        DropdownElement::Nothing
    } else {
        let shown = Seq::new(close_hits.len(), |i: int| close_hits[i] && v.items[i].closeable);
        match first_true(shown) {
            Some(i) => DropdownElement::CloseButton(i as usize),
            None => match first_true(item_hits) {
                Some(i) => DropdownElement::Item(i as usize),
                None => DropdownElement::Nothing,
            },
        }
    }
}

/// The state of a dropdown menu: its items, the hovered element, whether it is open.
#[derive(Debug)]
pub struct DropdownMenu {
    items: Vec<MenuItem>,
    hover: DropdownElement,
    visible: bool,
}

pub struct DropdownView {
    pub items: Seq<MenuItem>,
    pub hover: DropdownElement,
    pub visible: bool,
}

impl View for DropdownMenu {
    type V = DropdownView;

    closed spec fn view(&self) -> DropdownView {
        DropdownView { items: self.items@, hover: self.hover, visible: self.visible }
    }
}

impl DropdownMenu {
    /// A closed menu without items.
    pub fn new() -> (r: Self)
        ensures
            r@.items.len() == 0,
            r@.hover == DropdownElement::Nothing,
            !r@.visible,
    {
        DropdownMenu { items: Vec::new(), hover: DropdownElement::Nothing, visible: false }
    }

    /// Opens the menu with `entries`: their items, in order, become the
    /// menu's items, nothing is hovered.
    pub fn open_entries(&mut self, entries: Vec<MenuEntry>)
        ensures
            final(self)@ == (DropdownView {
                items: items_of(entries@),
                hover: DropdownElement::Nothing,
                visible: true,
            }),
    {
        let ghost all = entries@;
        let mut items: Vec<MenuItem> = Vec::new();
        for e in it: entries.into_iter()
            invariant
                it.seq() == all,
                items@ == items_of(all.take(it.index() as int)),
        {
            proof {
                assert(all.take(it.index() + 1).drop_last() =~= all.take(it.index() as int));
                assert(all.take(it.index() + 1).last() == e);
            }
            match e {
                MenuEntry::Item(item) => items.push(item),
                MenuEntry::Separator => {},
            }
        }
        assert(all.take(all.len() as int) =~= all);
        self.items = items;
        self.hover = DropdownElement::Nothing;
        self.visible = true;
    }

    /// Closes the menu; nothing is hovered.
    pub fn close(&mut self)
        ensures
            final(self)@ == (DropdownView {
                visible: false,
                hover: DropdownElement::Nothing,
                ..old(self)@
            }),
    {
        self.visible = false;
        self.hover = DropdownElement::Nothing;
    }

    pub fn is_open(&self) -> (r: bool)
        ensures
            r == self@.visible,
    {
        self.visible
    }

    /// Sets the hovered element; tells whether it changed.
    pub fn set_hover(&mut self, hover: DropdownElement) -> (changed: bool)
        ensures
            changed == (old(self)@.hover != hover),
            final(self)@ == (DropdownView { hover, ..old(self)@ }),
    {
        if self.hover != hover {
            self.hover = hover;
            true
        } else {
            false
        }
    }

    pub fn hover(&self) -> (r: DropdownElement)
        ensures
            r == self@.hover,
    {
        self.hover
    }

    /// The action of item `idx`.
    pub fn action_for(&self, idx: usize) -> (r: Option<&MenuAction>)
        ensures
            match r {
                Some(a) => idx < self@.items.len() && *a == self@.items[idx as int].action,
                None => idx >= self@.items.len(),
            },
    {
        if idx < self.items.len() {
            Some(&self.items[idx].action)
        } else {
            None
        }
    }

    /// Whether item `idx` has a close button.
    pub fn is_closeable(&self, idx: usize) -> (r: bool)
        ensures
            r == (idx < self@.items.len() && self@.items[idx as int].closeable),
    {
        idx < self.items.len() && self.items[idx].closeable
    }

    /// The number of items.
    pub fn item_count(&self) -> (r: usize)
        ensures
            r == self@.items.len(),
    {
        self.items.len()
    }

    /// What a point hits in the menu: nothing while it is closed; else a
    /// close button of a closeable item first, then an item. `close_hits[i]`
    /// and `item_hits[i]` tell whether the point is on the (padded) close
    /// button and on the row of item `i`; the renderer works them out.
    pub fn resolve_hit(&self, close_hits: &[bool], item_hits: &[bool]) -> (r: DropdownElement)
        requires
            close_hits@.len() <= self@.items.len(),
        ensures
            r == spec_resolve_menu_hit(self@, close_hits@, item_hits@),
    {
        if !self.visible {
            return DropdownElement::Nothing;
        }
        let mut shown: Vec<bool> = Vec::new();
        let mut i: usize = 0;
        while i < close_hits.len()
            invariant
                i <= close_hits@.len(),
                close_hits@.len() <= self@.items.len(),
                shown@ == Seq::new(i as nat, |j: int| close_hits@[j] && self@.items[j].closeable),
            decreases close_hits.len() - i,
        {
            shown.push(close_hits[i] && self.items[i].closeable);
            proof {
                assert(shown@ =~= Seq::new(
                    (i + 1) as nat,
                    |j: int| close_hits@[j] && self@.items[j].closeable,
                ));
            }
            i += 1;
        }
        match first_index(shown.as_slice()) {
            Some(i) => DropdownElement::CloseButton(i),
            None => match first_index(item_hits) {
                Some(i) => DropdownElement::Item(i),
                None => DropdownElement::Nothing,
            },
        }
    }

    /// The label of item `idx`.
    pub fn label_of(&self, idx: usize) -> (r: Option<&str>)
        ensures
            match r {
                Some(l) => idx < self@.items.len() && l@ == self@.items[idx as int].label@,
                None => idx >= self@.items.len(),
            },
    {
        if idx < self.items.len() {
            Some(self.items[idx].label.as_str())
        } else {
            None
        }
    }
}


/// What a point hits in an open menu is something it is on: the first
/// shown close button (items that can be closed) under it, else the first
/// item under it, else nothing; a closed menu is never hit.
pub proof fn law_menu_hit_is_under_the_point(
    v: DropdownView,
    close_hits: Seq<bool>,
    item_hits: Seq<bool>,
)
    requires
        close_hits.len() <= v.items.len(),
        v.items.len() <= usize::MAX,
        item_hits.len() <= usize::MAX,
    ensures
        ({
            let r = spec_resolve_menu_hit(v, close_hits, item_hits);
            let shown_hit = exists|i: int|
                0 <= i < close_hits.len() && #[trigger] close_hits[i] && v.items[i].closeable;
            &&& !v.visible ==> r == DropdownElement::Nothing
            &&& r matches DropdownElement::CloseButton(i) ==> v.visible && i < close_hits.len()
                && close_hits[i as int] && v.items[i as int].closeable && forall|j: int|
                0 <= j < i ==> !(#[trigger] close_hits[j] && v.items[j].closeable)
            &&& r matches DropdownElement::Item(i) ==> v.visible && !shown_hit && i
                < item_hits.len() && item_hits[i as int] && forall|j: int|
                0 <= j < i ==> !#[trigger] item_hits[j]
            &&& v.visible && r == DropdownElement::Nothing ==> !shown_hit && forall|j: int|
                0 <= j < item_hits.len() ==> !#[trigger] item_hits[j]
        }),
{
    let shown = Seq::new(close_hits.len(), |i: int| close_hits[i] && v.items[i].closeable);
    crate::hits::lemma_first_true(shown);
    crate::hits::lemma_first_true(item_hits);
    let shown_hit = exists|i: int|
        0 <= i < close_hits.len() && #[trigger] close_hits[i] && v.items[i].closeable;
    if shown_hit {
        let i = choose|i: int| 0 <= i < close_hits.len() && #[trigger] close_hits[i] && v.items[i].closeable;
        assert(shown[i]);
    }
    match first_true(shown) {
        Some(i) => {
            assert forall|j: int| 0 <= j < i implies !(#[trigger] close_hits[j] && v.items[j].closeable) by {
                assert(!shown[j]);
            }
        },
        None => {},
    }
}

} // verus!
