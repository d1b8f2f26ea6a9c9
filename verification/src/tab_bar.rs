//! The tab bar: the elements the pointer can be over, and which of them a
//! point hits given the geometry. Measuring titles and placing the tabs is
//! the renderer's part, which tells [`TabBar::resolve_hit`] which shapes
//! contain the point.
use vstd::prelude::*;

use crate::hits::{first_index, first_true};

verus! {

/// What a point of the tab bar hits.
#[derive(Debug, Clone, Copy, PartialEq, Eq, Structural)]
pub enum TabBarElement {
    /// Nothing: empty space.
    Nothing,
    Tab(usize),
    CloseButton(usize),
    PlusButton,
}

/// The state of the tab bar: the active tab and the element under the pointer.
#[derive(Debug)]
pub struct TabBar {
    active_tab: usize,
    hover: TabBarElement,
}

pub struct TabBarView {
    pub active: nat,
    pub hover: TabBarElement,
}

impl View for TabBar {
    type V = TabBarView;

    closed spec fn view(&self) -> TabBarView {
        TabBarView { active: self.active_tab as nat, hover: self.hover }
    }
}

/// The close button of tab `i` shows, and can be hit, on the active tab and
/// on the tab under the pointer.
pub open spec fn close_button_shown(t: TabBarView, i: int) -> bool {
    i == t.active || t.hover == TabBarElement::Tab(i as usize) || t.hover
        == TabBarElement::CloseButton(i as usize)
}

/// What a point hits: a shown close button first, then a tab, then the
/// "+" button. `close_hits[i]` and `tab_hits[i]` tell whether the point is
/// on the (padded) close button and on the body of tab `i`.
pub open spec fn spec_resolve_tab_hit(
    t: TabBarView,
    close_hits: Seq<bool>,
    tab_hits: Seq<bool>,
    plus_hit: bool,
) -> TabBarElement {
    let shown = Seq::new(close_hits.len(), |i: int| close_hits[i] && close_button_shown(t, i));
    match first_true(shown) {
        Some(i) => TabBarElement::CloseButton(i as usize),
        None => match first_true(tab_hits) {
            Some(i) => TabBarElement::Tab(i as usize),
            None => if plus_hit {
                TabBarElement::PlusButton
            } else {
                TabBarElement::Nothing
            },
        },
    }
}

impl TabBar {
    pub fn new() -> (r: TabBar)
        ensures
            r@.active == 0,
            r@.hover == TabBarElement::Nothing,
    {
        TabBar { active_tab: 0, hover: TabBarElement::Nothing }
    }

    /// Records which tab is active.
    pub fn set_active(&mut self, active: usize)
        ensures
            final(self)@ == (TabBarView { active: active as nat, ..old(self)@ }),
    {
        self.active_tab = active;
    }

    pub fn active(&self) -> (r: usize)
        ensures
            r == self@.active,
    {
        self.active_tab
    }

    pub fn hover(&self) -> (r: TabBarElement)
        ensures
            r == self@.hover,
    {
        self.hover
    }

    /// Sets the element under the pointer; tells whether it changed.
    pub fn set_hover(&mut self, hover: TabBarElement) -> (changed: bool)
        ensures
            changed == (old(self)@.hover != hover),
            final(self)@ == (TabBarView { hover, ..old(self)@ }),
    {
        if self.hover != hover {
            self.hover = hover;
            true
        } else {
            false
        }
    }

    /// What a point hits (see [`spec_resolve_tab_hit`]).
    pub fn resolve_hit(&self, close_hits: &[bool], tab_hits: &[bool], plus_hit: bool) -> (r:
        TabBarElement)
        ensures
            r == spec_resolve_tab_hit(self@, close_hits@, tab_hits@, plus_hit),
    {
        let mut shown: Vec<bool> = Vec::new();
        let mut i: usize = 0;
        while i < close_hits.len()
            invariant
                i <= close_hits@.len(),
                shown@ == Seq::new(
                    i as nat,
                    |j: int| close_hits@[j] && close_button_shown(self@, j),
                ),
            decreases close_hits.len() - i,
        {
            let on_tab = match self.hover {
                TabBarElement::Tab(k) => k == i,
                TabBarElement::CloseButton(k) => k == i,
                _ => false,
            };
            shown.push(close_hits[i] && (i == self.active_tab || on_tab));
            proof {
                assert(shown@ =~= Seq::new(
                    (i + 1) as nat,
                    |j: int| close_hits@[j] && close_button_shown(self@, j),
                ));
            }
            i += 1;
        }
        match first_index(shown.as_slice()) {
            Some(i) => TabBarElement::CloseButton(i),
            None => match first_index(tab_hits) {
                Some(i) => TabBarElement::Tab(i),
                None => if plus_hit {
                    TabBarElement::PlusButton
                } else {
                    TabBarElement::Nothing
                },
            },
        }
    }
}


/// What a point hits in the tab bar is something it is on, taken in this
/// order: a close button that shows (on the active or the hovered tab),
/// then a tab, then "+"; among tabs the first one in the bar. Nothing is hit
/// only when the point is on none of them.
pub proof fn law_tab_hit_is_under_the_point(
    t: TabBarView,
    close_hits: Seq<bool>,
    tab_hits: Seq<bool>,
    plus_hit: bool,
)
    requires
        close_hits.len() <= tab_hits.len(),
        tab_hits.len() <= usize::MAX,
    ensures
        ({
            let r = spec_resolve_tab_hit(t, close_hits, tab_hits, plus_hit);
            let shown_hit = exists|i: int|
                0 <= i < close_hits.len() && #[trigger] close_hits[i] && close_button_shown(t, i);
            &&& r matches TabBarElement::CloseButton(i) ==> i < close_hits.len() && close_hits[i as int]
                && close_button_shown(t, i as int) && forall|j: int|
                0 <= j < i ==> !(#[trigger] close_hits[j] && close_button_shown(t, j))
            &&& r matches TabBarElement::Tab(i) ==> !shown_hit && i < tab_hits.len()
                && tab_hits[i as int] && forall|j: int| 0 <= j < i ==> !#[trigger] tab_hits[j]
            &&& r == TabBarElement::PlusButton ==> !shown_hit && plus_hit && forall|j: int|
                0 <= j < tab_hits.len() ==> !#[trigger] tab_hits[j]
            &&& r == TabBarElement::Nothing ==> !shown_hit && !plus_hit && forall|j: int|
                0 <= j < tab_hits.len() ==> !#[trigger] tab_hits[j]
        }),
{
    let shown = Seq::new(close_hits.len(), |i: int| close_hits[i] && close_button_shown(t, i));
    crate::hits::lemma_first_true(shown);
    crate::hits::lemma_first_true(tab_hits);
    let shown_hit = exists|i: int|
        0 <= i < close_hits.len() && #[trigger] close_hits[i] && close_button_shown(t, i);
    if shown_hit {
        let i = choose|i: int| 0 <= i < close_hits.len() && #[trigger] close_hits[i] && close_button_shown(t, i);
        assert(shown[i]);
    }
    match first_true(shown) {
        Some(i) => {
            assert forall|j: int| 0 <= j < i implies !(#[trigger] close_hits[j] && close_button_shown(
                t,
                j,
            )) by {
                assert(!shown[j]);
            }
        },
        None => {},
    }
}

} // verus!
