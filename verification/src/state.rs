//! The dispatcher's state: the window-to-layout association table and the
//! focus cursor, with one transition per classified event line.

use vstd::prelude::*;

use crate::events::{parse_event, parse_event_spec, Event, EventModel};
use crate::layout::{default_layout, default_layout_name, Layout};
use crate::text::str_eq;

verus! {

/// The association table: each tracked window id mapped to the layout
/// last known for it.  Keys are unique; order is irrelevant.
pub struct AssocTable {
    entries: Vec<(String, Layout)>,
}

/// The map an entry list denotes: each pair inserted in order, so a later
/// entry for the same key would win — well-formed tables have no two
/// entries with one key.
spec fn entries_map(s: Seq<(String, Layout)>) -> Map<Seq<char>, Seq<char>>
    decreases s.len(),
{
    if s.len() == 0 {
        Map::empty()
    } else {
        entries_map(s.drop_last()).insert(s.last().0@, s.last().1@)
    }
}

spec fn keys_distinct(s: Seq<(String, Layout)>) -> bool {
    forall|i: int, j: int| 0 <= i < j < s.len() ==> s[i].0@ != s[j].0@
}

proof fn lemma_entries_map_get(s: Seq<(String, Layout)>, i: int)
    requires
        keys_distinct(s),
        0 <= i < s.len(),
    ensures
        entries_map(s).contains_key(s[i].0@),
        entries_map(s)[s[i].0@] == s[i].1@,
    decreases s.len(),
{
    if i < s.len() - 1 {
        lemma_entries_map_get(s.drop_last(), i);
    }
}

proof fn lemma_entries_map_no_key(s: Seq<(String, Layout)>, k: Seq<char>)
    requires
        forall|i: int| 0 <= i < s.len() ==> s[i].0@ != k,
    ensures
        !entries_map(s).contains_key(k),
    decreases s.len(),
{
    if s.len() > 0 {
        lemma_entries_map_no_key(s.drop_last(), k);
    }
}

proof fn lemma_entries_map_push(s: Seq<(String, Layout)>, p: (String, Layout))
    ensures
        entries_map(s.push(p)) == entries_map(s).insert(p.0@, p.1@),
{
    assert(s.push(p).drop_last() =~= s);
}

proof fn lemma_entries_map_remove(s: Seq<(String, Layout)>, i: int)
    requires
        keys_distinct(s),
        0 <= i < s.len(),
    ensures
        entries_map(s.remove(i)) == entries_map(s).remove(s[i].0@),
    decreases s.len(),
{
    if i == s.len() - 1 {
        assert(s.remove(i) =~= s.drop_last());
        lemma_entries_map_no_key(s.drop_last(), s[i].0@);
        assert(entries_map(s.drop_last()) =~= entries_map(s).remove(s[i].0@));
    } else {
        assert(s.remove(i).drop_last() =~= s.drop_last().remove(i));
        lemma_entries_map_remove(s.drop_last(), i);
        assert(entries_map(s.drop_last()).remove(s[i].0@).insert(s.last().0@, s.last().1@)
            =~= entries_map(s).remove(s[i].0@));
    }
}

impl View for AssocTable {
    type V = Map<Seq<char>, Seq<char>>;

    closed spec fn view(&self) -> Map<Seq<char>, Seq<char>> {
        entries_map(self.entries@)
    }
}

impl AssocTable {
    /// No two entries share a window id.
    pub closed spec fn well_formed(&self) -> bool {
        keys_distinct(self.entries@)
    }

    /// An empty table.
    pub fn new() -> (t: AssocTable)
        ensures
            t.well_formed(),
            t@ == Map::<Seq<char>, Seq<char>>::empty(),
    {
        AssocTable { entries: Vec::new() }
    }

    fn find_index(&self, window_id: &str) -> (r: Option<usize>)
        ensures
            (match r {
                Some(i) => i < self.entries@.len() && self.entries@[i as int].0@ == window_id@,
                None => forall|j: int|
                    0 <= j < self.entries@.len() ==> self.entries@[j].0@ != window_id@,
            }),
    {
        let mut i: usize = 0;
        while i < self.entries.len()
            invariant
                i <= self.entries@.len(),
                forall|j: int| 0 <= j < i ==> self.entries@[j].0@ != window_id@,
            decreases self.entries@.len() - i,
        {
            if str_eq(self.entries[i].0.as_str(), window_id) {
                return Some(i);
            }
            i = i + 1;
        }
        None
    }

    /// The layout stored for `window_id`, if the window is tracked.
    pub fn get(&self, window_id: &str) -> (r: Option<Layout>)
        requires
            self.well_formed(),
        ensures
            (match r {
                Some(l) => self@.contains_key(window_id@) && l@ == self@[window_id@],
                None => !self@.contains_key(window_id@),
            }),
    {
        match self.find_index(window_id) {
            Some(i) => {
                proof {
                    lemma_entries_map_get(self.entries@, i as int);
                }
                Some(self.entries[i].1.clone())
            },
            None => {
                proof {
                    lemma_entries_map_no_key(self.entries@, window_id@);
                }
                None
            },
        }
    }

    /// Inserts or overwrites the association for `window_id`.
    pub fn set(&mut self, window_id: String, layout: Layout)
        requires
            old(self).well_formed(),
        ensures
            final(self).well_formed(),
            final(self)@ == old(self)@.insert(window_id@, layout@),
    {
        match self.find_index(window_id.as_str()) {
            Some(i) => {
                let ghost s0 = self.entries@;
                proof {
                    lemma_entries_map_remove(s0, i as int);
                }
                self.entries.remove(i);
                let ghost s1 = self.entries@;
                proof {
                    assert forall|a: int, b: int| 0 <= a < b < s1.len() implies s1[a].0@
                        != s1[b].0@ by {
                        assert(s1[a] == if a < i { s0[a] } else { s0[a + 1] });
                        assert(s1[b] == if b < i { s0[b] } else { s0[b + 1] });
                    }
                    lemma_entries_map_push(s1, (window_id, layout));
                    assert forall|j: int| 0 <= j < s1.len() implies s1[j].0@ != window_id@ by {
                        assert(s1[j] == if j < i { s0[j] } else { s0[j + 1] });
                    }
                    assert(entries_map(s1).insert(window_id@, layout@) =~= old(self)@.insert(
                        window_id@,
                        layout@,
                    ));
                }
                self.entries.push((window_id, layout));
            },
            None => {
                proof {
                    lemma_entries_map_push(self.entries@, (window_id, layout));
                }
                self.entries.push((window_id, layout));
            },
        }
    }

    /// Drops the association for `window_id`; a no-op when the window is
    /// not tracked.
    pub fn remove(&mut self, window_id: &str)
        requires
            old(self).well_formed(),
        ensures
            final(self).well_formed(),
            final(self)@ == old(self)@.remove(window_id@),
    {
        match self.find_index(window_id) {
            Some(i) => {
                let ghost s0 = self.entries@;
                proof {
                    lemma_entries_map_remove(s0, i as int);
                }
                self.entries.remove(i);
                proof {
                    let s1 = self.entries@;
                    assert forall|a: int, b: int| 0 <= a < b < s1.len() implies s1[a].0@
                        != s1[b].0@ by {
                        assert(s1[a] == if a < i { s0[a] } else { s0[a + 1] });
                        assert(s1[b] == if b < i { s0[b] } else { s0[b + 1] });
                    }
                }
            },
            None => {
                proof {
                    lemma_entries_map_no_key(self.entries@, window_id@);
                    assert(old(self)@.remove(window_id@) =~= old(self)@);
                }
            },
        }
    }
}

/// The mathematical form of the dispatcher's state.
#[verifier::ext_equal]
pub struct ModelState {
    pub table: Map<Seq<char>, Seq<char>>,
    pub focused: Option<Seq<char>>,
}

/// One transition of the state machine: the state after the event and the
/// layout name, if any, a switch command must be issued for.
pub open spec fn step(m: ModelState, ev: EventModel) -> (ModelState, Option<Seq<char>>) {
    match ev {
        EventModel::FocusChange(id) => {
            if m.table.contains_key(id) {
                ((ModelState { table: m.table, focused: Some(id) }), Some(m.table[id]))
            } else {
                (
                    (ModelState {
                        table: m.table.insert(id, default_layout_name()),
                        focused: Some(id),
                    }),
                    Some(default_layout_name()),
                )
            }
        },
        EventModel::LayoutChange(name) => {
            match m.focused {
                Some(w) => ((ModelState { table: m.table.insert(w, name), focused: m.focused }), None),
                None => (m, None),
            }
        },
        EventModel::WindowClose(id) => (
            (ModelState { table: m.table.remove(id), focused: m.focused }),
            None,
        ),
        EventModel::OverlayOpen => (m, Some(default_layout_name())),
        EventModel::Ignored => (m, None),
    }
}

/// The dispatcher's state: the association table and the focus cursor.
pub struct DispatcherState {
    pub windows_layouts: AssocTable,
    pub current_active_window_id: Option<String>,
}

impl View for DispatcherState {
    type V = ModelState;

    closed spec fn view(&self) -> ModelState {
        ModelState {
            table: self.windows_layouts@,
            focused: match self.current_active_window_id {
                Some(id) => Some(id@),
                None => None,
            },
        }
    }
}

impl DispatcherState {
    /// The association table is well formed.
    pub open spec fn well_formed(&self) -> bool {
        self.windows_layouts.well_formed()
    }

    /// A fresh dispatcher: nothing tracked, no window focused.
    pub fn new() -> (s: DispatcherState)
        ensures
            s.well_formed(),
            s@.table == Map::<Seq<char>, Seq<char>>::empty(),
            s@.focused is None,
    {
        DispatcherState { windows_layouts: AssocTable::new(), current_active_window_id: None }
    }

    /// Focus change: the cursor moves to `window_id`; a tracked window's
    /// stored layout is the one to switch to, an unseen window is given
    /// the default layout, stored and switched to.
    pub fn on_active_window_change(&mut self, window_id: String) -> (action: Layout)
        requires
            old(self).well_formed(),
        ensures
            final(self).well_formed(),
            final(self)@.focused == Some(window_id@),
            old(self)@.table.contains_key(window_id@) ==> final(self)@.table == old(self)@.table
                && action@ == old(self)@.table[window_id@],
            !old(self)@.table.contains_key(window_id@) ==> final(self)@.table == old(
                self,
            )@.table.insert(window_id@, default_layout_name()) && action@ == default_layout_name(),
    {
        let found = self.windows_layouts.get(window_id.as_str());
        match found {
            Some(layout) => {
                self.current_active_window_id = Some(window_id);
                layout
            },
            None => {
                let layout = default_layout();
                self.windows_layouts.set(window_id.clone(), layout.clone());
                self.current_active_window_id = Some(window_id);
                layout
            },
        }
    }

    /// Layout change: the focused window's association is overwritten (or
    /// created) with the reported name; with no focused window nothing is
    /// recorded.  No other window's association is touched.
    pub fn on_active_layout_change(&mut self, layout_name: String)
        requires
            old(self).well_formed(),
        ensures
            final(self).well_formed(),
            final(self)@.focused == old(self)@.focused,
            (match old(self)@.focused {
                Some(w) => final(self)@.table == old(self)@.table.insert(w, layout_name@),
                None => final(self)@.table == old(self)@.table,
            }),
            forall|w2: Seq<char>| #![auto]
                old(self)@.table.contains_key(w2) && old(self)@.focused != Some(w2)
                    ==> final(self)@.table.contains_key(w2) && final(self)@.table[w2] == old(
                    self,
                )@.table[w2],
    {
        let window_id = match &self.current_active_window_id {
            Some(id) => Some(id.clone()),
            None => None,
        };
        match window_id {
            Some(id) => {
                self.windows_layouts.set(id, Layout::new(layout_name));
            },
            None => {},
        }
    }

    /// Window close: the window's association, if any, is dropped; the
    /// cursor is untouched.  Closing an untracked id changes nothing.
    pub fn on_window_close(&mut self, window_id: &str)
        requires
            old(self).well_formed(),
        ensures
            final(self).well_formed(),
            final(self)@.focused == old(self)@.focused,
            final(self)@.table == old(self)@.table.remove(window_id@),
            !old(self)@.table.contains_key(window_id@) ==> final(self)@.table == old(self)@.table,
    {
        self.windows_layouts.remove(window_id);
        proof {
            if !old(self)@.table.contains_key(window_id@) {
                assert(old(self)@.table.remove(window_id@) =~= old(self)@.table);
            }
        }
    }

    /// Overlay open: switch to the default layout; neither the table nor
    /// the cursor changes.
    pub fn on_wofi_open(&self) -> (action: Layout)
        ensures
            action@ == default_layout_name(),
    {
        default_layout()
    }

    /// One transition per event line: classifies the line and applies the
    /// matching transition, returning the layout a switch command must be
    /// issued for, if any.
    pub fn dispatch(&mut self, line: &str) -> (action: Option<Layout>)
        requires
            old(self).well_formed(),
        ensures
            final(self).well_formed(),
            final(self)@ == step(old(self)@, parse_event_spec(line@)).0,
            (match action {
                Some(l) => step(old(self)@, parse_event_spec(line@)).1 == Some(l@),
                None => step(old(self)@, parse_event_spec(line@)).1 is None,
            }),
    {
        let ev = parse_event(line);
        match ev {
            Event::FocusChange { window_id } => {
                let action = self.on_active_window_change(window_id);
                proof {
                    assert(self@ =~= step(old(self)@, parse_event_spec(line@)).0);
                }
                Some(action)
            },
            Event::LayoutChange { layout_name } => {
                self.on_active_layout_change(layout_name);
                proof {
                    assert(self@ =~= step(old(self)@, parse_event_spec(line@)).0);
                }
                None
            },
            Event::WindowClose { window_id } => {
                self.on_window_close(window_id.as_str());
                proof {
                    assert(self@ =~= step(old(self)@, parse_event_spec(line@)).0);
                }
                None
            },
            Event::OverlayOpen => Some(self.on_wofi_open()),
            Event::Ignored => None,
        }
    }
}

/// Re-focusing a window whose association was set to `name` while it was
/// focused switches back to that layout, not to the default.
pub proof fn lemma_refocus_restores_layout(m: ModelState, w: Seq<char>, name: Seq<char>)
    requires
        m.focused == Some(w),
    ensures
        ({
            let m1 = step(m, EventModel::LayoutChange(name)).0;
            step(m1, EventModel::FocusChange(w)).1 == Some(name)
        }),
{
}

/// Moving focus to another window never disturbs a tracked window's
/// stored layout.
pub proof fn lemma_focus_preserves_other(m: ModelState, w: Seq<char>, w2: Seq<char>)
    requires
        w != w2,
        m.table.contains_key(w),
    ensures
        step(m, EventModel::FocusChange(w2)).0.table.contains_key(w),
        step(m, EventModel::FocusChange(w2)).0.table[w] == m.table[w],
{
}

} // verus!
