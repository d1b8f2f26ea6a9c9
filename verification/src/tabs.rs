//! The open tabs of the window: which panels they show, in order, their
//! titles, and which one is active. The panels themselves (terminal,
//! shell, SSH connection) live beside this list, in the same order.
use vstd::prelude::*;

use crate::terminal_panel::PanelId;
use crate::text::copy_string;

verus! {

/// The tabs of the window.
#[derive(Debug)]
pub struct TabList {
    ids: Vec<PanelId>,
    titles: Vec<String>,
    active: usize,
}

/// What a tab list holds: the panels in tab order, their titles, and the
/// index of the active tab.
pub struct TabsView {
    pub ids: Seq<PanelId>,
    pub titles: Seq<Seq<char>>,
    pub active: nat,
}

/// As many titles as tabs, and an active index inside the list when it is
/// not empty.
pub open spec fn tabs_wf(t: TabsView) -> bool {
    &&& t.titles.len() == t.ids.len()
    &&& (t.ids.len() > 0 ==> t.active < t.ids.len())
}

/// The active index after the list changed length: the last tab when it
/// fell off the end (0 for an empty list), else unchanged.
pub open spec fn clamp_active(active: nat, len: nat) -> nat {
    if active >= len {
        if len == 0 {
            0
        } else {
            (len - 1) as nat
        }
    } else {
        active
    }
}

/// The tabs with tab `idx` taken out.
pub open spec fn spec_remove_tab(t: TabsView, idx: int) -> TabsView {
    let ids = t.ids.remove(idx);
    TabsView {
        ids,
        titles: t.titles.remove(idx),
        active: clamp_active(t.active, ids.len()),
    }
}

/// The positions of the tabs that do not show panel `id`, in order.
pub open spec fn kept_positions(ids: Seq<PanelId>, id: PanelId) -> Seq<int>
    decreases ids.len(),
{
    if ids.len() == 0 {
        seq![]
    } else if ids.last() == id {
        kept_positions(ids.drop_last(), id)
    } else {
        kept_positions(ids.drop_last(), id).push(ids.len() - 1)
    }
}

/// The tabs that do not show panel `id`, in order.
pub open spec fn spec_without_panel(t: TabsView, id: PanelId) -> TabsView {
    let keep = kept_positions(t.ids, id);
    TabsView {
        ids: keep.map_values(|i: int| t.ids[i]),
        titles: keep.map_values(|i: int| t.titles[i]),
        active: clamp_active(t.active, keep.len()),
    }
}

/// The index of the first tab that shows panel `id`, if any.
pub open spec fn first_tab_of(ids: Seq<PanelId>, id: PanelId) -> Option<int> {
    if exists|i: int| 0 <= i < ids.len() && ids[i] == id {
        let i = choose|i: int|
            0 <= i < ids.len() && ids[i] == id && forall|j: int| 0 <= j < i ==> ids[j] != id;
        Some(i)
    } else {
        None
    }
}

/// What closing a tab came to.
#[derive(Debug, Clone, Copy, PartialEq, Eq, Structural)]
pub enum CloseOutcome {
    /// There is no such tab; nothing changed.
    NoSuchTab,
    /// The tab was closed and others remain.
    Closed,
    /// The tab was the last one: the window opens a fresh tab in its place.
    ClosedLast,
}

impl View for TabList {
    type V = TabsView;

    closed spec fn view(&self) -> TabsView {
        TabsView {
            ids: self.ids@,
            titles: self.titles@.map_values(|s: String| s@),
            active: self.active as nat,
        }
    }
}

proof fn lemma_kept_positions(ids: Seq<PanelId>, id: PanelId)
    ensures
        forall|k: int|
            0 <= k < kept_positions(ids, id).len() ==> 0 <= #[trigger] kept_positions(ids, id)[k]
                < ids.len() && ids[kept_positions(ids, id)[k]] != id,
        forall|k1: int, k2: int|
            0 <= k1 < k2 < kept_positions(ids, id).len() ==> kept_positions(ids, id)[k1]
                < kept_positions(ids, id)[k2],
        forall|i: int|
            0 <= i < ids.len() && ids[i] != id ==> #[trigger] kept_positions(ids, id).contains(i),
    decreases ids.len(),
{
    if ids.len() > 0 {
        let p = ids.drop_last();
        lemma_kept_positions(p, id);
        assert forall|i: int| 0 <= i < ids.len() && ids[i] != id implies #[trigger] kept_positions(
            ids,
            id,
        ).contains(i) by {
            if i < ids.len() - 1 {
                assert(p[i] == ids[i]);
                assert(kept_positions(p, id).contains(i));
                let k = choose|k: int| 0 <= k < kept_positions(p, id).len() && kept_positions(p, id)[k] == i;
                assert(kept_positions(ids, id)[k] == i);
            } else {
                assert(kept_positions(ids, id)[kept_positions(ids, id).len() - 1] == i);
            }
        }
    }
}

impl TabList {
    /// An empty list.
    pub fn new() -> (r: TabList)
        ensures
            r@.ids.len() == 0,
            r@.titles.len() == 0,
            r@.active == 0,
    {
        TabList { ids: Vec::new(), titles: Vec::new(), active: 0 }
    }

    /// The list is well formed (see [`tabs_wf`]).
    pub open spec fn wf(&self) -> bool {
        tabs_wf(self@)
    }

    /// The number of tabs.
    pub fn len(&self) -> (r: usize)
        ensures
            r == self@.ids.len(),
    {
        self.ids.len()
    }

    /// The index of the active tab.
    pub fn active(&self) -> (r: usize)
        ensures
            r == self@.active,
    {
        self.active
    }

    /// The panel of the active tab, if there is a tab.
    pub fn active_id(&self) -> (r: Option<PanelId>)
        requires
            self.wf(),
        ensures
            match r {
                Some(id) => self@.ids.len() > 0 && id == self@.ids[self@.active as int],
                None => self@.ids.len() == 0,
            },
    {
        if self.active < self.ids.len() {
            Some(self.ids[self.active])
        } else {
            None
        }
    }

    /// The panel of tab `idx`.
    pub fn id_at(&self, idx: usize) -> (r: Option<PanelId>)
        ensures
            match r {
                Some(id) => idx < self@.ids.len() && id == self@.ids[idx as int],
                None => idx >= self@.ids.len(),
            },
    {
        if idx < self.ids.len() {
            Some(self.ids[idx])
        } else {
            None
        }
    }

    /// The title of tab `idx`.
    pub fn title_at(&self, idx: usize) -> (r: Option<&str>)
        requires
            self.wf(),
        ensures
            match r {
                Some(t) => idx < self@.ids.len() && t@ == self@.titles[idx as int],
                None => idx >= self@.ids.len(),
            },
    {
        if idx < self.titles.len() {
            Some(self.titles[idx].as_str())
        } else {
            None
        }
    }

    /// Adds a tab for panel `id` at the end and makes it the active one.
    pub fn add(&mut self, id: PanelId, title: &str)
        requires
            old(self).wf(),
        ensures
            final(self).wf(),
            final(self)@.ids == old(self)@.ids.push(id),
            final(self)@.titles == old(self)@.titles.push(title@),
            final(self)@.active == old(self)@.ids.len(),
    {
        self.ids.push(id);
        self.titles.push(copy_string(title));
        self.active = self.ids.len() - 1;
        proof {
            assert(self@.titles =~= old(self)@.titles.push(title@));
        }
    }

    /// Makes tab `idx` the active one; tells whether there is such a tab
    /// (nothing changes otherwise).
    pub fn select(&mut self, idx: usize) -> (r: bool)
        requires
            old(self).wf(),
        ensures
            final(self).wf(),
            r == (idx < old(self)@.ids.len()),
            final(self)@ == (if r {
                TabsView { active: idx as nat, ..old(self)@ }
            } else {
                old(self)@
            }),
    {
        if idx < self.ids.len() {
            self.active = idx;
            true
        } else {
            false
        }
    }

    /// Closes tab `idx`. The active index stays where it was unless it fell
    /// off the end, where it moves to the last tab.
    pub fn close(&mut self, idx: usize) -> (r: CloseOutcome)
        requires
            old(self).wf(),
        ensures
            final(self).wf(),
            idx >= old(self)@.ids.len() ==> r == CloseOutcome::NoSuchTab && final(self)@ == old(
                self,
            )@,
            idx < old(self)@.ids.len() ==> final(self)@ == spec_remove_tab(old(self)@, idx as int)
                && r == (if old(self)@.ids.len() == 1 {
                CloseOutcome::ClosedLast
            } else {
                CloseOutcome::Closed
            }),
    {
        if idx >= self.ids.len() {
            return CloseOutcome::NoSuchTab;
        }
        let ghost before = self@;
        self.ids.remove(idx);
        self.titles.remove(idx);
        if self.active >= self.ids.len() {
            self.active = if self.ids.len() == 0 {
                0
            } else {
                self.ids.len() - 1
            };
        }
        proof {
            assert(self@.titles =~= before.titles.remove(idx as int));
            assert(self@.ids =~= before.ids.remove(idx as int));
        }
        if self.ids.len() == 0 {
            CloseOutcome::ClosedLast
        } else {
            CloseOutcome::Closed
        }
    }

    /// Takes out every tab that shows panel `id` (its process ended);
    /// tells whether no tab is left.
    pub fn remove_panel(&mut self, id: PanelId) -> (empty: bool)
        requires
            old(self).wf(),
        ensures
            final(self).wf(),
            final(self)@ == spec_without_panel(old(self)@, id),
            empty == (final(self)@.ids.len() == 0),
    {
        let ghost before = self@;
        let mut ids: Vec<PanelId> = Vec::new();
        let mut titles: Vec<String> = Vec::new();
        let mut i: usize = 0;
        while i < self.ids.len()
            invariant
                self@ == before,
                self.wf(),
                i <= self@.ids.len(),
                ids@ == kept_positions(self@.ids.take(i as int), id).map_values(
                    |k: int| self@.ids[k],
                ),
                titles@.map_values(|s: String| s@) == kept_positions(
                    self@.ids.take(i as int),
                    id,
                ).map_values(|k: int| self@.titles[k]),
            decreases self.ids.len() - i,
        {
            proof {
                let t = self@.ids.take(i + 1);
                assert(t.drop_last() =~= self@.ids.take(i as int));
                assert(t.last() == self@.ids[i as int]);
                lemma_kept_positions(self@.ids.take(i as int), id);
                let kp = kept_positions(self@.ids.take(i as int), id);
                assert forall|k: int| 0 <= k < kp.len() implies #[trigger] kp[k] < i
                    && self@.ids.take(i as int)[kp[k]] == self@.ids[kp[k]] by {}
            }
            if self.ids[i] != id {
                ids.push(self.ids[i]);
                let ghost prev = titles@;
                let c = copy_string(self.titles[i].as_str());
                titles.push(c);
                proof {
                    let kp = kept_positions(self@.ids.take(i as int), id);
                    assert(c@ == self@.titles[i as int]);
                    assert(titles@.map_values(|s: String| s@) =~= prev.map_values(|s: String| s@).push(c@));
                    assert(kept_positions(self@.ids.take(i + 1), id) =~= kp.push(i as int));
                    assert(ids@ =~= kp.push(i as int).map_values(|k: int| self@.ids[k]));
                    assert(titles@.map_values(|s: String| s@) =~= kp.push(i as int).map_values(
                        |k: int| self@.titles[k],
                    ));
                }
            } else {
                proof {
                    assert(kept_positions(self@.ids.take(i + 1), id) == kept_positions(
                        self@.ids.take(i as int),
                        id,
                    ));
                }
            }
            i += 1;
        }
        proof {
            assert(self@.ids.take(i as int) =~= self@.ids);
        }
        let n = ids.len();
        self.ids = ids;
        self.titles = titles;
        if self.active >= n {
            self.active = if n == 0 {
                0
            } else {
                n - 1
            };
        }
        proof {
            let keep = kept_positions(before.ids, id);
            assert(self@.ids =~= keep.map_values(|k: int| before.ids[k]));
            assert(self@.titles =~= keep.map_values(|k: int| before.titles[k]));
        }
        n == 0
    }

    /// Sets the title of the first tab that shows panel `id`; tells
    /// whether there is one (nothing changes otherwise).
    pub fn set_title(&mut self, id: PanelId, title: &str) -> (found: bool)
        requires
            old(self).wf(),
        ensures
            final(self).wf(),
            found == first_tab_of(old(self)@.ids, id) is Some,
            match first_tab_of(old(self)@.ids, id) {
                Some(i) => final(self)@ == TabsView {
                    titles: old(self)@.titles.update(i, title@),
                    ..old(self)@
                },
                None => final(self)@ == old(self)@,
            },
    {
        let mut i: usize = 0;
        while i < self.ids.len()
            invariant
                self.wf(),
                self@ == old(self)@,
                i <= self@.ids.len(),
                forall|j: int| 0 <= j < i ==> self@.ids[j] != id,
            decreases self.ids.len() - i,
        {
            if self.ids[i] == id {
                let ghost before = self@;
                self.titles.set(i, copy_string(title));
                proof {
                    assert(exists|j: int| 0 <= j < before.ids.len() && before.ids[j] == id);
                    let c = choose|j: int|
                        0 <= j < before.ids.len() && before.ids[j] == id && forall|k: int|
                            0 <= k < j ==> before.ids[k] != id;
                    assert(c == i) by {
                        if c < i {
                        } else if c > i {
                            assert(before.ids[i as int] == id);
                        }
                    }
                    assert(self@.titles =~= before.titles.update(i as int, title@));
                }
                return true;
            }
            i += 1;
        }
        false
    }
}

/// Closing a tab keeps the others in order: every tab before it is where it
/// was, every tab after it moves up by one.
pub proof fn law_close_keeps_order(t: TabsView, idx: int)
    requires
        tabs_wf(t),
        0 <= idx < t.ids.len(),
    ensures
        tabs_wf(spec_remove_tab(t, idx)),
        spec_remove_tab(t, idx).ids.len() == t.ids.len() - 1,
        forall|j: int| 0 <= j < idx ==> #[trigger] spec_remove_tab(t, idx).ids[j] == t.ids[j],
        forall|j: int|
            idx < j < t.ids.len() ==> spec_remove_tab(t, idx).ids[j - 1] == #[trigger] t.ids[j],
{
}

/// After the panel `id` exits, no tab shows it, and every tab that showed
/// another panel is still there, in the same order.
pub proof fn law_exited_panel_leaves(t: TabsView, id: PanelId)
    requires
        tabs_wf(t),
    ensures
        tabs_wf(spec_without_panel(t, id)),
        !spec_without_panel(t, id).ids.contains(id),
        forall|i: int|
            0 <= i < t.ids.len() && t.ids[i] != id ==> #[trigger] spec_without_panel(
                t,
                id,
            ).ids.contains(t.ids[i]),
{
    lemma_kept_positions(t.ids, id);
    let keep = kept_positions(t.ids, id);
    let r = spec_without_panel(t, id);
    assert forall|i: int| 0 <= i < t.ids.len() && t.ids[i] != id implies #[trigger] r.ids.contains(
        t.ids[i],
    ) by {
        assert(keep.contains(i));
        let k = choose|k: int| 0 <= k < keep.len() && keep[k] == i;
        assert(r.ids[k] == t.ids[i]);
    }
    if r.ids.contains(id) {
        let k = choose|k: int| 0 <= k < r.ids.len() && r.ids[k] == id;
        assert(t.ids[keep[k]] != id);
    }
}

} // verus!
