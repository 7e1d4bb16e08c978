use crate::runtime::{now_millis, random_id};
use std::collections::HashMap;
use vstd::prelude::*;

verus! {

broadcast use vstd::std_specs::hash::group_hash_axioms;

/// One open browsing context.
#[derive(Clone, Debug)]
pub struct Tab {
    pub id: u128,
    pub title: String,
    pub url: String,
    pub favicon: Option<String>,
    pub is_loading: bool,
    pub can_go_back: bool,
    pub can_go_forward: bool,
    /// Milliseconds since the Unix epoch.
    pub created_at: i64,
    /// Milliseconds since the Unix epoch.
    pub last_accessed: i64,
    pub is_pinned: bool,
    pub is_muted: bool,
}

/// What a tab holds, with its strings as character sequences.
pub struct TabView {
    pub id: u128,
    pub title: Seq<char>,
    pub url: Seq<char>,
    pub favicon: Option<Seq<char>>,
    pub is_loading: bool,
    pub can_go_back: bool,
    pub can_go_forward: bool,
    pub created_at: i64,
    pub last_accessed: i64,
    pub is_pinned: bool,
    pub is_muted: bool,
}

pub open spec fn opt_view(s: Option<String>) -> Option<Seq<char>> {
    match s {
        Some(x) => Some(x@),
        None => None,
    }
}

impl View for Tab {
    type V = TabView;

    open spec fn view(&self) -> TabView {
        TabView {
            id: self.id,
            title: self.title@,
            url: self.url@,
            favicon: opt_view(self.favicon),
            is_loading: self.is_loading,
            can_go_back: self.can_go_back,
            can_go_forward: self.can_go_forward,
            created_at: self.created_at,
            last_accessed: self.last_accessed,
            is_pinned: self.is_pinned,
            is_muted: self.is_muted,
        }
    }
}

/// `t` is a tab just created under `id`, showing `url` under `title`: no
/// favicon, every flag off, created when it was last accessed.
pub open spec fn new_tab_view(t: TabView, id: u128, url: Seq<char>, title: Seq<char>) -> bool {
    &&& t.id == id
    &&& t.url == url
    &&& t.title == title
    &&& t.favicon is None
    &&& !t.is_loading
    &&& !t.can_go_back
    &&& !t.can_go_forward
    &&& t.created_at == t.last_accessed
    &&& !t.is_pinned
    &&& !t.is_muted
}

/// The abstract state of a tab store: the visible order of ids, the lookup
/// from id to tab, and the active id.
pub struct TabState {
    pub order: Seq<u128>,
    pub tabs: Map<u128, TabView>,
    pub active: Option<u128>,
}

/// The tab that takes focus after the active tab at `index` was closed and
/// `order` is what remains: the one that slid into its slot, else the one
/// before it, else none.
pub open spec fn successor(order: Seq<u128>, index: int) -> Option<u128> {
    if index < order.len() {
        Some(order[index])
    } else if order.len() > 0 {
        Some(order[index - 1])
    } else {
        None
    }
}

impl TabState {
    pub open spec fn empty() -> TabState {
        TabState { order: Seq::empty(), tabs: Map::empty(), active: None }
    }

    /// Order and lookup hold the same ids, each once; each tab carries its
    /// own id; a tab is active exactly when the store is non-empty, and the
    /// active id resolves to a live tab.
    pub open spec fn wf(self) -> bool {
        &&& self.order.no_duplicates()
        &&& forall|id: u128| self.tabs.contains_key(id) <==> self.order.contains(id)
        &&& forall|id: u128| #[trigger] self.tabs.contains_key(id) ==> self.tabs[id].id == id
        &&& (self.active is None <==> self.order.len() == 0)
        &&& (self.active matches Some(a) ==> self.tabs.contains_key(a))
    }

    /// The store after appending `tab`; the first tab of an empty store
    /// becomes active.
    pub open spec fn created(self, tab: TabView) -> TabState {
        TabState {
            order: self.order.push(tab.id),
            tabs: self.tabs.insert(tab.id, tab),
            active: if self.active is None {
                Some(tab.id)
            } else {
                self.active
            },
        }
    }

    /// The store after closing `id`; closing an absent id changes nothing.
    pub open spec fn closed(self, id: u128) -> TabState {
        if self.order.contains(id) {
            let index = self.order.index_of(id);
            let order = self.order.remove(index);
            TabState {
                order,
                tabs: self.tabs.remove(id),
                active: if self.active == Some(id) {
                    successor(order, index)
                } else {
                    self.active
                },
            }
        } else {
            self
        }
    }

    /// The store after moving the id at `from` to position `to`; out of
    /// bounds indices change nothing.
    pub open spec fn moved(self, from: int, to: int) -> TabState {
        if 0 <= from < self.order.len() && 0 <= to < self.order.len() {
            TabState {
                order: self.order.remove(from).insert(to, self.order[from]),
                ..self
            }
        } else {
            self
        }
    }

    /// The store with the tab `id` replaced by `tab`, where it exists.
    pub open spec fn with_tab(self, id: u128, tab: TabView) -> TabState {
        if self.tabs.contains_key(id) {
            TabState { tabs: self.tabs.insert(id, tab), ..self }
        } else {
            self
        }
    }
}

/// The ordered collection of open tabs and the active-tab pointer.
#[derive(Clone, Debug)]
pub struct TabManager {
    tabs: HashMap<u128, Tab>,
    active_tab_id: Option<u128>,
    tab_order: Vec<u128>,
}

impl View for TabManager {
    type V = TabState;

    closed spec fn view(&self) -> TabState {
        TabState {
            order: self.tab_order@,
            tabs: self.tabs@.map_values(|t: Tab| t@),
            active: self.active_tab_id,
        }
    }
}

/// Appending a tab under a fresh id keeps the store well formed.
pub proof fn lemma_created_wf(s: TabState, tab: TabView)
    requires
        s.wf(),
        !s.tabs.contains_key(tab.id),
    ensures
        s.created(tab).wf(),
{
    let t = s.created(tab);
    assert forall|id: u128| t.tabs.contains_key(id) <==> t.order.contains(id) by {
        if id != tab.id {
            if s.order.contains(id) {
                let i = choose|i: int| 0 <= i < s.order.len() && s.order[i] == id;
                assert(t.order[i] == id);
            }
        } else {
            assert(t.order[s.order.len() as int] == id);
        }
    }
    assert forall|i: int, j: int|
        0 <= i < t.order.len() && 0 <= j < t.order.len() && i != j implies t.order[i]
        != t.order[j] by {
        if i < s.order.len() && j == s.order.len() {
            assert(s.order.contains(t.order[i]));
        } else if j < s.order.len() && i == s.order.len() {
            assert(s.order.contains(t.order[j]));
        }
    }
}

/// Closing a tab keeps the store well formed.
pub proof fn lemma_closed_wf(s: TabState, id: u128)
    requires
        s.wf(),
    ensures
        s.closed(id).wf(),
{
    if s.order.contains(id) {
        let i = s.order.index_of(id);
        let order = s.order.remove(i);
        let t = s.closed(id);
        assert(s.order[i] == id);
        assert forall|y: u128| order.contains(y) <==> (s.order.contains(y) && y != id) by {
            if order.contains(y) {
                let k = choose|k: int| 0 <= k < order.len() && order[k] == y;
                if k < i {
                    assert(s.order[k] == y);
                } else {
                    assert(s.order[k + 1] == y);
                }
            }
            if s.order.contains(y) && y != id {
                let k = choose|k: int| 0 <= k < s.order.len() && s.order[k] == y;
                if k < i {
                    assert(order[k] == y);
                } else {
                    assert(order[k - 1] == y);
                }
            }
        }
        assert forall|y: u128| t.tabs.contains_key(y) <==> t.order.contains(y) by {}
        assert forall|a: int, b: int|
            0 <= a < order.len() && 0 <= b < order.len() && a != b implies order[a]
            != order[b] by {
            let sa = if a < i {
                a
            } else {
                a + 1
            };
            let sb = if b < i {
                b
            } else {
                b + 1
            };
            assert(order[a] == s.order[sa]);
            assert(order[b] == s.order[sb]);
        }
        if let Some(a) = t.active {
            if s.active == Some(id) {
                if i < order.len() {
                    assert(order.contains(order[i]));
                } else {
                    assert(order.contains(order[i - 1]));
                }
            } else {
                assert(t.tabs.contains_key(a));
                assert(order.contains(a));
                assert(order.len() > 0);
            }
        }
        if t.active is None {
            if s.active != Some(id) {
                assert(s.order.contains(s.active->0));
                assert(order.contains(s.active->0));
            }
        }
    }
}

/// Where the id at `k` of `s.moved(from, to)` came from in `s`.
spec fn moved_source(from: int, to: int, k: int) -> int {
    if k == to {
        from
    } else {
        let j = if k < to {
            k
        } else {
            k - 1
        };
        if j < from {
            j
        } else {
            j + 1
        }
    }
}

/// Where the id at `i` of `s` goes in `s.moved(from, to)`.
spec fn moved_target(from: int, to: int, i: int) -> int {
    if i == from {
        to
    } else {
        let j = if i < from {
            i
        } else {
            i - 1
        };
        if j < to {
            j
        } else {
            j + 1
        }
    }
}

/// Moving a tab only permutes the order.
proof fn lemma_moved_permutes(s: Seq<u128>, from: int, to: int)
    requires
        0 <= from < s.len(),
        0 <= to < s.len(),
    ensures
        s.remove(from).insert(to, s[from]).len() == s.len(),
        forall|k: int|
            0 <= k < s.len() ==> 0 <= moved_source(from, to, k) < s.len() && #[trigger] s.remove(
                from,
            ).insert(to, s[from])[k] == s[moved_source(from, to, k)],
        forall|i: int|
            0 <= i < s.len() ==> 0 <= moved_target(from, to, i) < s.len() && moved_source(
                from,
                to,
                #[trigger] moved_target(from, to, i),
            ) == i,
{
    let rm = s.remove(from);
    rm.insert_ensures(to, s[from]);
}

/// Moving a tab keeps the store well formed, the length of the order and
/// the set of its ids.
pub proof fn lemma_moved_wf(s: TabState, from: int, to: int)
    requires
        s.wf(),
    ensures
        s.moved(from, to).wf(),
        s.moved(from, to).order.len() == s.order.len(),
        s.moved(from, to).order.to_set() == s.order.to_set(),
        s.moved(from, to).tabs == s.tabs,
        s.moved(from, to).active == s.active,
{
    if 0 <= from < s.order.len() && 0 <= to < s.order.len() {
        let o = s.moved(from, to).order;
        lemma_moved_permutes(s.order, from, to);
        assert forall|y: u128| o.contains(y) <==> s.order.contains(y) by {
            if o.contains(y) {
                let k = choose|k: int| 0 <= k < o.len() && o[k] == y;
                assert(s.order[moved_source(from, to, k)] == y);
            }
            if s.order.contains(y) {
                let i = choose|i: int| 0 <= i < s.order.len() && s.order[i] == y;
                let k = moved_target(from, to, i);
                assert(o[k] == y);
            }
        }
        assert forall|a: int, b: int|
            0 <= a < o.len() && 0 <= b < o.len() && a != b implies o[a] != o[b] by {
            assert(o[a] == s.order[moved_source(from, to, a)]);
            assert(o[b] == s.order[moved_source(from, to, b)]);
        }
        assert(o.to_set() =~= s.order.to_set());
        if let Some(a) = s.active {
            assert(s.order.contains(a));
        }
    }
}

/// Replacing a tab by one that carries the same id keeps the store well
/// formed.
pub proof fn lemma_with_tab_wf(s: TabState, id: u128, tab: TabView)
    requires
        s.wf(),
        tab.id == id,
    ensures
        s.with_tab(id, tab).wf(),
{
}

/// A finite set that holds every id below `k` has at least `k` members.
proof fn lemma_low_ids_bound(s: Set<u128>, k: u128)
    requires
        s.finite(),
        forall|j: u128| j < k ==> s.contains(j),
    ensures
        k <= s.len(),
    decreases k,
{
    if k > 0 {
        let rest = s.remove((k - 1) as u128);
        lemma_low_ids_bound(rest, (k - 1) as u128);
    }
}

/// The smallest id that `tabs` does not hold.
/// The index of `x` in `v`, if it is there.
fn position_of(v: &Vec<u128>, x: u128) -> (r: Option<usize>)
    ensures
        match r {
            Some(i) => i < v@.len() && v@[i as int] == x,
            None => !v@.contains(x),
        },
{
    let mut i: usize = 0;
    while i < v.len()
        invariant
            i <= v@.len(),
            forall|j: int| 0 <= j < i ==> v@[j] != x,
        decreases v@.len() - i,
    {
        if v[i] == x {
            return Some(i);
        }
        i = i + 1;
    }
    None
}

fn unused_id(tabs: &HashMap<u128, Tab>) -> (r: u128)
    ensures
        !tabs@.contains_key(r),
{
    let n = tabs.len();
    let mut k: u128 = 0;
    while tabs.contains_key(&k)
        invariant
            n == tabs@.len(),
            k <= n,
            forall|j: u128| j < k ==> tabs@.contains_key(j),
        decreases n - k,
    {
        proof {
            lemma_low_ids_bound(tabs@.dom(), (k + 1) as u128);
        }
        k = k + 1;
    }
    k
}

impl TabManager {
    pub open spec fn wf(&self) -> bool {
        self@.wf()
    }

    pub fn new() -> (r: TabManager)
        ensures
            r@ == TabState::empty(),
            r.wf(),
    {
        let r = TabManager { tabs: HashMap::new(), active_tab_id: None, tab_order: Vec::new() };
        assert(r@.tabs =~= Map::empty());
        assert(r@.order =~= Seq::empty());
        r
    }

    /// Appends a new tab that shows `url`, titled `title` or "New Tab", and
    /// returns its fresh id. The first tab of an empty store becomes active.
    pub fn create_tab(&mut self, url: String, title: Option<String>) -> (r: u128)
        requires
            old(self).wf(),
        ensures
            final(self).wf(),
            !old(self)@.tabs.contains_key(r),
            final(self)@ == old(self)@.created(final(self)@.tabs[r]),
            new_tab_view(
                final(self)@.tabs[r],
                r,
                url@,
                match title {
                    Some(t) => t@,
                    None => "New Tab"@,
                },
            ),
    {
        let mut tab_id = random_id();
        if self.tabs.contains_key(&tab_id) {
            // A drawn id that is already taken is replaced by a free one.
            tab_id = unused_id(&self.tabs);
        }
        let now = now_millis();
        let title = match title {
            Some(t) => t,
            None => "New Tab".to_string(),
        };
        let tab = Tab {
            id: tab_id,
            title,
            url,
            favicon: None,
            is_loading: false,
            can_go_back: false,
            can_go_forward: false,
            created_at: now,
            last_accessed: now,
            is_pinned: false,
            is_muted: false,
        };
        let ghost tv = tab@;
        let ghost pre = self@;
        self.tabs.insert(tab_id, tab);
        self.tab_order.push(tab_id);
        if self.active_tab_id.is_none() {
            self.active_tab_id = Some(tab_id);
        }
        proof {
            assert(self@.tabs =~= pre.tabs.insert(tab_id, tv));
            assert(self@ == pre.created(tv));
            lemma_created_wf(pre, tv);
        }
        tab_id
    }

    /// Closes `tab_id`; returns whether it was open. When it was active, the
    /// tab that slides into its slot becomes active, else the one before it,
    /// else none.
    pub fn close_tab(&mut self, tab_id: u128) -> (r: bool)
        requires
            old(self).wf(),
        ensures
            final(self).wf(),
            r == old(self)@.order.contains(tab_id),
            final(self)@ == old(self)@.closed(tab_id),
    {
        let ghost pre = self@;
        proof {
            lemma_closed_wf(pre, tab_id);
        }
        match position_of(&self.tab_order, tab_id) {
            None => false,
            Some(index) => {
                proof {
                    assert(pre.order.index_of(tab_id) == index);
                }
                self.tab_order.remove(index);
                self.tabs.remove(&tab_id);
                let was_active = match self.active_tab_id {
                    Some(a) => a == tab_id,
                    None => false,
                };
                if was_active {
                    let len = self.tab_order.len();
                    self.active_tab_id = if index < len {
                        Some(self.tab_order[index])
                    } else if len > 0 {
                        Some(self.tab_order[index - 1])
                    } else {
                        None
                    };
                }
                proof {
                    assert(self@.tabs =~= pre.tabs.remove(tab_id));
                    assert(self@ == pre.closed(tab_id));
                }
                true
            },
        }
    }

    /// Makes `tab_id` active and refreshes its last-accessed time; returns
    /// false, changing nothing, where there is no such tab.
    pub fn set_active_tab(&mut self, tab_id: u128) -> (r: bool)
        requires
            old(self).wf(),
        ensures
            final(self).wf(),
            r == old(self)@.tabs.contains_key(tab_id),
            r ==> final(self)@ == (TabState {
                active: Some(tab_id),
                ..old(self)@.with_tab(
                    tab_id,
                    TabView {
                        last_accessed: final(self)@.tabs[tab_id].last_accessed,
                        ..old(self)@.tabs[tab_id]
                    },
                )
            }),
            !r ==> final(self)@ == old(self)@,
    {
        let ghost pre = self@;
        match self.tabs.remove(&tab_id) {
            Some(tab) => {
                let mut tab = tab;
                tab.last_accessed = now_millis();
                let ghost tv = tab@;
                self.tabs.insert(tab_id, tab);
                self.active_tab_id = Some(tab_id);
                proof {
                    assert(self@.tabs =~= pre.tabs.insert(tab_id, tv));
                    lemma_with_tab_wf(pre, tab_id, tv);
                    assert(pre.order.contains(tab_id));
                }
                true
            },
            None => {
                proof {
                    assert(self@.tabs =~= pre.tabs);
                }
                false
            },
        }
    }

    /// Moves the tab at `from_index` to `to_index`; returns false, changing
    /// nothing, where either index is out of bounds.
    pub fn move_tab(&mut self, from_index: usize, to_index: usize) -> (r: bool)
        requires
            old(self).wf(),
        ensures
            final(self).wf(),
            r == (from_index < old(self)@.order.len() && to_index < old(self)@.order.len()),
            final(self)@ == old(self)@.moved(from_index as int, to_index as int),
    {
        let ghost pre = self@;
        proof {
            lemma_moved_wf(pre, from_index as int, to_index as int);
        }
        if from_index < self.tab_order.len() && to_index < self.tab_order.len() {
            let tab_id = self.tab_order.remove(from_index);
            self.tab_order.insert(to_index, tab_id);
            proof {
                assert(self@.order =~= pre.order.remove(from_index as int).insert(
                    to_index as int,
                    pre.order[from_index as int],
                ));
            }
            true
        } else {
            false
        }
    }

    /// Points the tab at `url` and refreshes its last-accessed time; an absent
    /// id changes nothing.
    pub fn update_tab_url(&mut self, tab_id: u128, url: String)
        requires
            old(self).wf(),
        ensures
            final(self).wf(),
            final(self)@ == old(self)@.with_tab(
                tab_id,
                TabView { url: url@, last_accessed: final(self)@.tabs[tab_id].last_accessed, ..old(self)@.tabs[tab_id] },
            ),
    {
        let ghost pre = self@;
        match self.tabs.remove(&tab_id) {
            Some(tab) => {
                let mut tab = tab;
                tab.url = url;
                tab.last_accessed = now_millis();
                let ghost tv = tab@;
                self.tabs.insert(tab_id, tab);
                proof {
                    assert(self@.tabs =~= pre.tabs.insert(tab_id, tv));
                    lemma_with_tab_wf(pre, tab_id, tv);
                }
            },
            None => {
                proof {
                    assert(self@.tabs =~= pre.tabs);
                }
            },
        }
    }

    /// Sets the tab's title; an absent id changes nothing.
    pub fn update_tab_title(&mut self, tab_id: u128, title: String)
        requires
            old(self).wf(),
        ensures
            final(self).wf(),
            final(self)@ == old(self)@.with_tab(
                tab_id,
                TabView { title: title@, ..old(self)@.tabs[tab_id] },
            ),
    {
        let ghost pre = self@;
        match self.tabs.remove(&tab_id) {
            Some(tab) => {
                let mut tab = tab;
                tab.title = title;
                let ghost tv = tab@;
                self.tabs.insert(tab_id, tab);
                proof {
                    assert(self@.tabs =~= pre.tabs.insert(tab_id, tv));
                    lemma_with_tab_wf(pre, tab_id, tv);
                }
            },
            None => {
                proof {
                    assert(self@.tabs =~= pre.tabs);
                }
            },
        }
    }

    /// Sets the tab's loading flag; an absent id changes nothing.
    pub fn set_tab_loading(&mut self, tab_id: u128, is_loading: bool)
        requires
            old(self).wf(),
        ensures
            final(self).wf(),
            final(self)@ == old(self)@.with_tab(
                tab_id,
                TabView { is_loading: is_loading, ..old(self)@.tabs[tab_id] },
            ),
    {
        let ghost pre = self@;
        match self.tabs.remove(&tab_id) {
            Some(tab) => {
                let mut tab = tab;
                tab.is_loading = is_loading;
                let ghost tv = tab@;
                self.tabs.insert(tab_id, tab);
                proof {
                    assert(self@.tabs =~= pre.tabs.insert(tab_id, tv));
                    lemma_with_tab_wf(pre, tab_id, tv);
                }
            },
            None => {
                proof {
                    assert(self@.tabs =~= pre.tabs);
                }
            },
        }
    }

    /// Sets the tab's back and forward flags; an absent id changes nothing.
    pub fn set_tab_navigation_state(&mut self, tab_id: u128, can_go_back: bool, can_go_forward: bool)
        requires
            old(self).wf(),
        ensures
            final(self).wf(),
            final(self)@ == old(self)@.with_tab(
                tab_id,
                TabView { can_go_back: can_go_back, can_go_forward: can_go_forward, ..old(self)@.tabs[tab_id] },
            ),
    {
        let ghost pre = self@;
        match self.tabs.remove(&tab_id) {
            Some(tab) => {
                let mut tab = tab;
                tab.can_go_back = can_go_back;
                tab.can_go_forward = can_go_forward;
                let ghost tv = tab@;
                self.tabs.insert(tab_id, tab);
                proof {
                    assert(self@.tabs =~= pre.tabs.insert(tab_id, tv));
                    lemma_with_tab_wf(pre, tab_id, tv);
                }
            },
            None => {
                proof {
                    assert(self@.tabs =~= pre.tabs);
                }
            },
        }
    }

    /// Pins the tab; an absent id changes nothing.
    pub fn pin_tab(&mut self, tab_id: u128)
        requires
            old(self).wf(),
        ensures
            final(self).wf(),
            final(self)@ == old(self)@.with_tab(
                tab_id,
                TabView { is_pinned: true, ..old(self)@.tabs[tab_id] },
            ),
    {
        let ghost pre = self@;
        match self.tabs.remove(&tab_id) {
            Some(tab) => {
                let mut tab = tab;
                tab.is_pinned = true;
                let ghost tv = tab@;
                self.tabs.insert(tab_id, tab);
                proof {
                    assert(self@.tabs =~= pre.tabs.insert(tab_id, tv));
                    lemma_with_tab_wf(pre, tab_id, tv);
                }
            },
            None => {
                proof {
                    assert(self@.tabs =~= pre.tabs);
                }
            },
        }
    }

    /// Unpins the tab; an absent id changes nothing.
    pub fn unpin_tab(&mut self, tab_id: u128)
        requires
            old(self).wf(),
        ensures
            final(self).wf(),
            final(self)@ == old(self)@.with_tab(
                tab_id,
                TabView { is_pinned: false, ..old(self)@.tabs[tab_id] },
            ),
    {
        let ghost pre = self@;
        match self.tabs.remove(&tab_id) {
            Some(tab) => {
                let mut tab = tab;
                tab.is_pinned = false;
                let ghost tv = tab@;
                self.tabs.insert(tab_id, tab);
                proof {
                    assert(self@.tabs =~= pre.tabs.insert(tab_id, tv));
                    lemma_with_tab_wf(pre, tab_id, tv);
                }
            },
            None => {
                proof {
                    assert(self@.tabs =~= pre.tabs);
                }
            },
        }
    }

    /// The active tab, if any.
    pub fn get_active_tab(&self) -> (r: Option<&Tab>)
        requires
            self.wf(),
        ensures
            match self@.active {
                Some(a) => r is Some && r->0@ == self@.tabs[a],
                None => r is None,
            },
    {
        match self.active_tab_id {
            Some(id) => self.tabs.get(&id),
            None => None,
        }
    }

    /// The tab with id `tab_id`, if it is open.
    pub fn get_tab(&self, tab_id: u128) -> (r: Option<&Tab>)
        ensures
            r is Some == self@.tabs.contains_key(tab_id),
            r matches Some(t) ==> t@ == self@.tabs[tab_id],
    {
        self.tabs.get(&tab_id)
    }

    /// The open tabs, in their visible order.
    pub fn get_all_tabs(&self) -> (r: Vec<&Tab>)
        requires
            self.wf(),
        ensures
            r@.len() == self@.order.len(),
            forall|i: int| 0 <= i < r@.len() ==> r@[i]@ == self@.tabs[self@.order[i]],
    {
        let mut r: Vec<&Tab> = Vec::new();
        let mut i: usize = 0;
        while i < self.tab_order.len()
            invariant
                self.wf(),
                i <= self@.order.len(),
                r@.len() == i,
                forall|j: int| 0 <= j < i ==> r@[j]@ == self@.tabs[self@.order[j]],
            decreases self@.order.len() - i,
        {
            let id = self.tab_order[i];
            proof {
                assert(self@.order.contains(id));
            }
            match self.tabs.get(&id) {
                Some(t) => r.push(t),
                None => {},
            }
            i = i + 1;
        }
        r
    }

    /// The number of open tabs.
    pub fn tab_count(&self) -> (r: usize)
        ensures
            r == self@.order.len(),
    {
        self.tab_order.len()
    }

    /// Whether any tab is open.
    pub fn has_tabs(&self) -> (r: bool)
        ensures
            r == (self@.order.len() > 0),
    {
        self.tab_order.len() > 0
    }

    /// Recently closed tabs; none are kept yet.
    pub fn get_recently_closed(&self) -> (r: Vec<Tab>)
        ensures
            r@.len() == 0,
    {
        Vec::new()
    }
}

impl Default for TabManager {
    fn default() -> (r: TabManager)
        ensures
            r@ == TabState::empty(),
            r.wf(),
    {
        TabManager::new()
    }
}

/// One operation on the tab store, as the store's own methods perform it.
pub enum TabOp {
    Create(TabView),
    Close(u128),
    Move(int, int),
}

impl TabState {
    /// The store after `op`; a create under an id already taken is refused.
    pub open spec fn apply(self, op: TabOp) -> TabState {
        match op {
            TabOp::Create(tab) => if self.tabs.contains_key(tab.id) {
                self
            } else {
                self.created(tab)
            },
            TabOp::Close(id) => self.closed(id),
            TabOp::Move(from, to) => self.moved(from, to),
        }
    }

    /// The store after `ops`, applied in turn.
    pub open spec fn run(self, ops: Seq<TabOp>) -> TabState
        decreases ops.len(),
    {
        if ops.len() == 0 {
            self
        } else {
            self.apply(ops[0]).run(ops.drop_first())
        }
    }

    /// The store after the moves `moves`, applied in turn.
    pub open spec fn moved_all(self, moves: Seq<(int, int)>) -> TabState
        decreases moves.len(),
    {
        if moves.len() == 0 {
            self
        } else {
            self.moved(moves[0].0, moves[0].1).moved_all(moves.drop_first())
        }
    }
}

/// Creating a tab in an empty store makes it the active tab.
pub proof fn lemma_first_tab_becomes_active(s: TabState, tab: TabView)
    requires
        s.wf(),
        s.order.len() == 0,
    ensures
        s.created(tab).active == Some(tab.id),
{
}

/// Closing a tab that is not active never changes the active id.
pub proof fn lemma_closing_inactive_keeps_active(s: TabState, id: u128)
    requires
        s.wf(),
        s.active != Some(id),
    ensures
        s.closed(id).active == s.active,
{
}

/// Any sequence of moves keeps the length of the order and its set of ids.
pub proof fn lemma_moves_keep_tab_set(s: TabState, moves: Seq<(int, int)>)
    requires
        s.wf(),
    ensures
        s.moved_all(moves).wf(),
        s.moved_all(moves).order.len() == s.order.len(),
        s.moved_all(moves).order.to_set() == s.order.to_set(),
    decreases moves.len(),
{
    if moves.len() > 0 {
        let next = s.moved(moves[0].0, moves[0].1);
        lemma_moved_wf(s, moves[0].0, moves[0].1);
        lemma_moves_keep_tab_set(next, moves.drop_first());
    }
}

/// Any sequence of creates, closes and moves keeps the store well formed:
/// a tab is active exactly when the store is non-empty, and the active id
/// is present in both the order and the lookup.
pub proof fn lemma_active_tab_stays_live(s: TabState, ops: Seq<TabOp>)
    requires
        s.wf(),
    ensures
        s.run(ops).wf(),
        s.run(ops).active is None <==> s.run(ops).order.len() == 0,
        s.run(ops).active matches Some(a) ==> s.run(ops).order.contains(a)
            && s.run(ops).tabs.contains_key(a),
    decreases ops.len(),
{
    if ops.len() > 0 {
        let next = s.apply(ops[0]);
        match ops[0] {
            TabOp::Create(tab) => {
                if !s.tabs.contains_key(tab.id) {
                    lemma_created_wf(s, tab);
                }
            },
            TabOp::Close(id) => lemma_closed_wf(s, id),
            TabOp::Move(from, to) => lemma_moved_wf(s, from, to),
        }
        lemma_active_tab_stays_live(next, ops.drop_first());
    }
}

/// The empty store is well formed.
pub proof fn lemma_empty_wf()
    ensures
        TabState::empty().wf(),
{
}

} // verus!
