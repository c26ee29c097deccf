//! Tab management for multiple directory views.
//!
//! Each tab holds a `DualPane` with its own state. Tabs can be opened,
//! closed and switched between; the manager always has an active tab.

use vstd::prelude::*;
use crate::pane::{DualPane, DualView, active_of};
use crate::path::{display_name, display_name_of};

verus! {

/// A single tab with a name and dual-pane state.
#[derive(Debug)]
pub struct Tab {
    /// Display name (the directory's name).
    pub name: String,
    /// Dual-pane state.
    pub panes: DualPane,
}

/// The mathematical content of a tab.
pub struct TabView {
    pub name: Seq<char>,
    pub panes: DualView,
}

impl View for Tab {
    type V = TabView;

    open spec fn view(&self) -> TabView {
        TabView { name: self.name@, panes: self.panes@ }
    }
}

/// A tab renamed after its active pane's directory.
pub open spec fn renamed(t: TabView) -> TabView {
    TabView { name: display_name(active_of(t.panes).path), ..t }
}

/// The views of a sequence of tabs.
pub open spec fn tab_views(tabs: Seq<Tab>) -> Seq<TabView> {
    tabs.map_values(|t: Tab| t@)
}

impl Tab {
    /// A tab for the directory `path`, holding `panes` (both opened at `path`).
    pub fn new(path: &str, panes: DualPane) -> (t: Self)
        ensures
            t@ == (TabView { name: display_name(path@), panes: panes@ }),
    {
        Tab { name: display_name_of(path), panes }
    }

    /// Update the tab name from the active pane's path.
    pub fn update_name(&mut self)
        ensures
            final(self)@ == renamed(old(self)@),
    {
        let name = display_name_of(self.panes.active().path.as_str());
        self.name = name;
    }
}

/// Tab manager: holds all open tabs and tracks the active one.
#[derive(Debug)]
pub struct TabManager {
    pub tabs: Vec<Tab>,
    pub active: usize,
}

/// The mathematical content of a tab manager.
pub struct TabsView {
    pub tabs: Seq<TabView>,
    pub active: int,
}

impl View for TabManager {
    type V = TabsView;

    open spec fn view(&self) -> TabsView {
        TabsView { tabs: tab_views(self.tabs@), active: self.active as int }
    }
}

/// The tabs after closing the active one (when there is more than one).
pub open spec fn after_close(v: TabsView) -> TabsView {
    TabsView {
        tabs: v.tabs.remove(v.active),
        active: if v.active < v.tabs.len() - 1 {
            v.active
        } else {
            v.tabs.len() - 2
        },
    }
}

/// The active index after switching to the next tab.
pub open spec fn next_index(v: TabsView) -> int {
    if v.tabs.len() > 0 {
        (v.active + 1) % v.tabs.len() as int
    } else {
        v.active
    }
}

/// The active index after switching to the previous tab.
pub open spec fn prev_index(v: TabsView) -> int {
    if v.tabs.len() == 0 {
        v.active
    } else if v.active == 0 {
        v.tabs.len() - 1
    } else {
        v.active - 1
    }
}

impl TabManager {
    /// There is at least one tab and the active index names one.
    pub open spec fn well_formed(&self) -> bool {
        self.tabs.len() > 0 && self.active < self.tabs.len()
    }

    /// A tab manager with one initial tab.
    pub fn new(initial: Tab) -> (m: Self)
        ensures
            m.tabs@ == seq![initial],
            m.active == 0,
            m.well_formed(),
    {
        let mut tabs: Vec<Tab> = Vec::new();
        tabs.push(initial);
        TabManager { tabs, active: 0 }
    }

    /// The active tab.
    pub fn active_tab(&self) -> (t: &Tab)
        requires
            self.active < self.tabs.len(),
        ensures
            *t == self.tabs@[self.active as int],
    {
        &self.tabs[self.active]
    }

    /// The active tab, for changing it.
    pub fn active_tab_mut(&mut self) -> (t: &mut Tab)
        requires
            old(self).active < old(self).tabs.len(),
        ensures
            *t == old(self).tabs@[old(self).active as int],
            final(self).active == old(self).active,
            final(self).tabs@ == old(self).tabs@.update(old(self).active as int, *final(t)),
            (*t)@ == old(self)@.tabs[old(self).active as int],
            final(self)@ == (TabsView {
                tabs: old(self)@.tabs.update(old(self).active as int, (*final(t))@),
                ..old(self)@
            }),
    {
        let i = self.active;
        let ghost before = self.tabs@;
        let t = &mut self.tabs[i];
        proof {
            assert(tab_views(before.update(i as int, *final(t))) =~= tab_views(before).update(i as int, (*final(t))@));
        }
        t
    }

    /// Open `tab` after the others and switch to it.
    pub fn open_tab(&mut self, tab: Tab)
        ensures
            final(self).tabs@ == old(self).tabs@.push(tab),
            final(self).active == old(self).tabs.len(),
            final(self)@ == (TabsView { tabs: old(self)@.tabs.push(tab@), active: old(self)@.tabs.len() as int }),
            final(self).well_formed(),
    {
        let ghost before = self.tabs@;
        self.tabs.push(tab);
        assert(tab_views(self.tabs@) =~= tab_views(before).push(tab@));
        self.active = self.tabs.len() - 1;
    }

    /// Close the active tab. Returns false (and changes nothing) if it is the
    /// last tab; otherwise the next tab (or the new last one) becomes active.
    pub fn close_tab(&mut self) -> (closed: bool)
        requires
            old(self).tabs.len() <= 1 || old(self).active < old(self).tabs.len(),
        ensures
            closed == (old(self).tabs.len() > 1),
            !closed ==> *final(self) == *old(self),
            closed ==> final(self).tabs@ == old(self).tabs@.remove(old(self).active as int),
            final(self)@ == if closed {
                after_close(old(self)@)
            } else {
                old(self)@
            },
            closed ==> final(self).active == if old(self).active < old(self).tabs.len() - 1 {
                old(self).active as int
            } else {
                old(self).tabs.len() - 2
            },
            old(self).well_formed() ==> final(self).well_formed(),
    {
        if self.tabs.len() <= 1 {
            return false;
        }
        let ghost before = self.tabs@;
        let _removed = self.tabs.remove(self.active);
        assert(tab_views(self.tabs@) =~= tab_views(before).remove(old(self).active as int));
        if self.active >= self.tabs.len() {
            self.active = self.tabs.len() - 1;
        }
        true
    }

    /// Switch to the next tab, wrapping around.
    pub fn next_tab(&mut self)
        requires
            old(self).tabs.len() == 0 || old(self).active < usize::MAX,
        ensures
            final(self).active == if old(self).tabs.len() > 0 {
                (old(self).active + 1) % (old(self).tabs.len() as int)
            } else {
                old(self).active as int
            },
            final(self).tabs == old(self).tabs,
            final(self)@ == (TabsView { active: next_index(old(self)@), ..old(self)@ }),
            old(self).well_formed() ==> final(self).well_formed(),
    {
        if self.tabs.len() > 0 {
            self.active = (self.active + 1) % self.tabs.len();
        }
    }

    /// Switch to the previous tab, wrapping around.
    pub fn prev_tab(&mut self)
        ensures
            final(self).active == if old(self).tabs.len() == 0 {
                old(self).active as int
            } else if old(self).active == 0 {
                old(self).tabs.len() - 1
            } else {
                old(self).active - 1
            },
            final(self).tabs == old(self).tabs,
            final(self)@ == (TabsView { active: prev_index(old(self)@), ..old(self)@ }),
            old(self).well_formed() ==> final(self).well_formed(),
    {
        if self.tabs.len() > 0 {
            self.active = if self.active == 0 {
                self.tabs.len() - 1
            } else {
                self.active - 1
            };
        }
    }

    /// Switch to the tab at `index` (no change when out of range).
    pub fn go_to_tab(&mut self, index: usize)
        ensures
            final(self).active == if index < old(self).tabs.len() {
                index
            } else {
                old(self).active
            },
            final(self).tabs == old(self).tabs,
            old(self).well_formed() ==> final(self).well_formed(),
    {
        if index < self.tabs.len() {
            self.active = index;
        }
    }

    /// Number of open tabs.
    pub fn count(&self) -> (n: usize)
        ensures
            n == self.tabs.len(),
    {
        self.tabs.len()
    }
}

/// A view of tabs is well formed: at least one tab, and the active index
/// names one.
pub open spec fn tabs_well_formed(v: TabsView) -> bool {
    v.tabs.len() > 0 && 0 <= v.active < v.tabs.len()
}

/// Switching to the next tab and then to the previous one comes back to
/// the tab one started on.
pub proof fn law_next_then_prev(v: TabsView)
    requires
        tabs_well_formed(v),
    ensures
        prev_index((TabsView { active: next_index(v), ..v })) == v.active,
{
    let n = v.tabs.len() as int;
    if v.active + 1 < n {
        assert((v.active + 1) % n == v.active + 1) by (nonlinear_arith)
            requires
                0 <= v.active + 1 < n,
        ;
    } else {
        assert((v.active + 1) % n == 0) by (nonlinear_arith)
            requires
                v.active + 1 == n,
                n > 0,
        ;
    }
}

/// Switching to the previous tab and then to the next one comes back to
/// the tab one started on.
pub proof fn law_prev_then_next(v: TabsView)
    requires
        tabs_well_formed(v),
    ensures
        next_index((TabsView { active: prev_index(v), ..v })) == v.active,
{
    let n = v.tabs.len() as int;
    let p = prev_index(v);
    if v.active == 0 {
        assert((p + 1) % n == 0) by (nonlinear_arith)
            requires
                p + 1 == n,
                n > 0,
        ;
    } else {
        assert((p + 1) % n == p + 1) by (nonlinear_arith)
            requires
                0 <= p + 1 < n,
        ;
    }
}

/// Switching tabs, forward or back, keeps the tabs well formed and changes
/// none of them; closing keeps at least one tab.
pub proof fn law_switching_keeps_tabs(v: TabsView)
    requires
        tabs_well_formed(v),
    ensures
        tabs_well_formed((TabsView { active: next_index(v), ..v })),
        tabs_well_formed((TabsView { active: prev_index(v), ..v })),
        v.tabs.len() > 1 ==> tabs_well_formed(after_close(v)),
        v.tabs.len() > 1 ==> after_close(v).tabs.len() == v.tabs.len() - 1,
{
    let n = v.tabs.len() as int;
    assert(0 <= (v.active + 1) % n < n) by (nonlinear_arith)
        requires
            n > 0,
    ;
}

} // verus!
