//! Central WM state — the single source of truth of the window manager.
//!
//! Clients live in a generational arena (`slotmap`), monitors in a vector;
//! tag and focus operations follow dwm's.

use vstd::prelude::*;
use slotmap::SlotMap;
use crate::rwm_core::{Rect, TAGMASK, SCRATCHTAG, is_visible};
use crate::rwm_core::client::{Client, ClientId, client_id_eq};
use crate::rwm_core::event::EventBus;
use crate::rwm_core::layout::{Layout, BuiltinLayout};
use crate::rwm_core::monitor::{Monitor, MonitorId, differs_from, seq_without, vec_without};

verus! {

// ── Client storage (generational arena) ─────────────────────────────

/// Generational arena of clients: stable `ClientId` handles.
#[verifier::external_body]
pub struct ClientArena {
    map: SlotMap<ClientId, Client>,
}

/// The map holding no client.
pub open spec fn no_clients() -> Map<ClientId, Client> {
    Map::empty()
}

/// The clients held by the arena, by handle.
pub uninterp spec fn arena_clients(a: ClientArena) -> Map<ClientId, Client>;

impl ClientArena {
    pub open spec fn view(&self) -> Map<ClientId, Client> {
        arena_clients(*self)
    }

    /// `SlotMap::with_key`: an empty arena.
    #[verifier::external_body]
    pub fn new() -> (r: Self)
        ensures
            arena_clients(r) == no_clients(),
    {
        ClientArena { map: SlotMap::with_key() }
    }

    /// `SlotMap::len`: the number of clients held.
    #[verifier::external_body]
    pub fn len(&self) -> (r: usize)
        ensures
            r == arena_clients(*self).dom().len(),
    {
        self.map.len()
    }

    /// `SlotMap::is_empty`: whether no client is held.
    #[verifier::external_body]
    pub fn is_empty(&self) -> (r: bool)
        ensures
            r == (arena_clients(*self).dom().len() == 0),
    {
        self.map.is_empty()
    }

    /// `SlotMap::insert`: stores the client under a handle that no held
    /// client has. The map keeps a sentinel in slot 0 and panics when no
    /// slot is free and it already has `u32::MAX` slots; with fewer than
    /// `u32::MAX - 1` clients held either a slot is free or there is room
    /// for one more, so the precondition rules the panic out.
    #[verifier::external_body]
    pub fn insert(&mut self, client: Client) -> (k: ClientId)
        requires
            arena_clients(*old(self)).dom().finite(),
            arena_clients(*old(self)).dom().len() < u32::MAX - 1,
        ensures
            !arena_clients(*old(self)).dom().contains(k),
            arena_clients(*final(self)) == arena_clients(*old(self)).insert(k, client),
    {
        self.map.insert(client)
    }

    /// `SlotMap::remove`: takes the client out if the handle is held.
    #[verifier::external_body]
    pub fn remove(&mut self, k: ClientId) -> (r: Option<Client>)
        ensures
            arena_clients(*old(self)).dom().contains(k) ==> r == Some(arena_clients(*old(self))[k]) && arena_clients(*final(self)) == arena_clients(*old(self)).remove(k),
            !arena_clients(*old(self)).dom().contains(k) ==> r is None && arena_clients(*final(self)) == arena_clients(*old(self)),
    {
        self.map.remove(k)
    }

    /// `SlotMap::get`: the client under the handle, if held.
    #[verifier::external_body]
    pub fn get(&self, k: ClientId) -> (r: Option<&Client>)
        ensures
            arena_clients(*self).dom().contains(k) ==> r == Some(&arena_clients(*self)[k]),
            !arena_clients(*self).dom().contains(k) ==> r is None,
    {
        self.map.get(k)
    }

    /// `SlotMap::get_mut`: mutable access to the client under the handle;
    /// what is written through it is what the arena then holds.
    #[verifier::external_body]
    pub fn get_mut(&mut self, k: ClientId) -> (r: Option<&mut Client>)
        ensures
            match r {
                Some(c) => {
                    &&& arena_clients(*old(self)).dom().contains(k)
                    &&& *c == arena_clients(*old(self))[k]
                    &&& arena_clients(*final(self)) == arena_clients(*old(self)).insert(k, *final(c))
                },
                None => !arena_clients(*old(self)).dom().contains(k) && arena_clients(*final(self)) == arena_clients(*old(self)),
            },
    {
        self.map.get_mut(k)
    }

    /// `SlotMap::keys`, collected: every held handle once, in slot order.
    #[verifier::external_body]
    pub fn keys(&self) -> (r: Vec<ClientId>)
        ensures
            r@.no_duplicates(),
            forall|k: ClientId| r@.contains(k) <==> arena_clients(*self).dom().contains(k),
    {
        self.map.keys().collect()
    }
}

// ── The state ────────────────────────────────────────────────────────

/// The entire window manager state.
pub struct WmState {
    // ── Client storage (generational arena) ─────────────────────────
    pub clients: ClientArena,
    // ── Monitors ────────────────────────────────────────────────────
    pub monitors: Vec<Monitor>,
    /// Index of the currently active monitor.
    pub sel_mon: MonitorId,
    // ── Layouts ─────────────────────────────────────────────────────
    pub layouts: Vec<BuiltinLayout>,
    // ── Bar ─────────────────────────────────────────────────────────
    pub bar_height: u32,
    /// Status text (set by external status script via root WM_NAME).
    pub status_text: String,
    // ── Global state ────────────────────────────────────────────────
    pub running: bool,
    pub screen_w: u32,
    pub screen_h: u32,
    // ── Events ──────────────────────────────────────────────────────
    pub events: EventBus,
}

/// The monitor `n` equals `o` except for its tag state.
pub open spec fn same_but_tags(o: Monitor, n: Monitor) -> bool {
    &&& n.id == o.id && n.geom == o.geom && n.window_area == o.window_area
    &&& n.layout == o.layout && n.sel_layout == o.sel_layout && n.layout_symbol == o.layout_symbol
    &&& n.mfact_pct == o.mfact_pct && n.nmaster == o.nmaster
    &&& n.gap_inner_h == o.gap_inner_h && n.gap_inner_v == o.gap_inner_v
    &&& n.gap_outer_h == o.gap_outer_h && n.gap_outer_v == o.gap_outer_v
    &&& n.bar_win == o.bar_win && n.bar_y == o.bar_y && n.show_bar == o.show_bar && n.top_bar == o.top_bar
    &&& n.clients == o.clients && n.stack == o.stack && n.focused == o.focused
}

/// dwm's `view()`: `n` is `o` after viewing `tags`. Viewing the current tags
/// changes nothing; otherwise the other tagset slot becomes current (so the
/// previous view is kept) and is set to the masked tags unless they are empty.
pub open spec fn viewed_tags(o: Monitor, n: Monitor, tags: u32) -> bool {
    let nt = tags & TAGMASK;
    if nt == o.spec_current_tags() {
        n == o
    } else {
        &&& same_but_tags(o, n)
        &&& n.sel_tags == 1 - o.sel_tags
        &&& n.tagset@ == (if nt != 0 { o.tagset@.update(1 - o.sel_tags, nt) } else { o.tagset@ })
    }
}

/// dwm's `toggleview()`: `n` is `o` with `tag_bit` (masked) toggled in the
/// current view, unless that would leave nothing in view.
pub open spec fn toggled_view(o: Monitor, n: Monitor, tag_bit: u32) -> bool {
    let nt = o.spec_current_tags() ^ (tag_bit & TAGMASK);
    &&& same_but_tags(o, n)
    &&& n.sel_tags == o.sel_tags
    &&& n.tagset@ == (if nt != 0 { o.tagset@.update(o.sel_tags as int, nt) } else { o.tagset@ })
}

/// Whether the handle holds a client tagged with the scratch tag.
pub open spec fn is_scratch(m: Map<ClientId, Client>, cid: ClientId) -> bool {
    m.dom().contains(cid) && m[cid].tags & SCRATCHTAG != 0
}

/// Whether the client is shown by the tiling layout for view `tags`.
pub open spec fn is_tiled_visible(m: Map<ClientId, Client>, cid: ClientId, tags: u32) -> bool {
    &&& m.dom().contains(cid)
    &&& m[cid].tags & tags != 0
    &&& !m[cid].is_floating
    &&& !m[cid].is_fullscreen
}

/// The visible tiled clients among `ids`, in order, with their records.
pub open spec fn tiled_of(ids: Seq<ClientId>, m: Map<ClientId, Client>, tags: u32) -> Seq<(ClientId, Client)>
    decreases ids.len(),
{
    if ids.len() == 0 {
        Seq::empty()
    } else {
        let rest = tiled_of(ids.drop_last(), m, tags);
        if is_tiled_visible(m, ids.last(), tags) { rest.push((ids.last(), m[ids.last()])) } else { rest }
    }
}

/// How many of `ids` hold a client carrying `tag_bit`.
pub open spec fn count_on_tag(ids: Seq<ClientId>, m: Map<ClientId, Client>, tag_bit: u32) -> nat
    decreases ids.len(),
{
    if ids.len() == 0 {
        0
    } else {
        count_on_tag(ids.drop_last(), m, tag_bit) + (if m.dom().contains(ids.last()) && m[ids.last()].tags & tag_bit != 0 { 1nat } else { 0nat })
    }
}

/// The pairs with their client records read through the references.
pub open spec fn deref_pairs(s: Seq<(ClientId, &Client)>) -> Seq<(ClientId, Client)> {
    s.map_values(|p: (ClientId, &Client)| (p.0, *p.1))
}

/// Index of the monitor among the first `k` with the largest overlap with
/// `rect`; among equal overlaps the later monitor wins.
pub open spec fn best_monitor(ms: Seq<Monitor>, rect: Rect, k: int) -> int
    decreases k,
{
    if k <= 1 {
        0
    } else {
        let b = best_monitor(ms, rect, k - 1);
        if ms[k - 1].geom.spec_intersect_area(rect) >= ms[b].geom.spec_intersect_area(rect) { k - 1 } else { b }
    }
}

/// The first element of a sequence, if any.
pub open spec fn seq_first(s: Seq<ClientId>) -> Option<ClientId> {
    if s.len() == 0 { None } else { Some(s[0]) }
}

/// The clients after dwm's `tag()`: the client gets the masked tags unless
/// they are empty.
pub open spec fn tag_client_map(m: Map<ClientId, Client>, cid: ClientId, tags: u32) -> Map<ClientId, Client> {
    let nt = tags & TAGMASK;
    if m.dom().contains(cid) && nt != 0 { m.insert(cid, Client { tags: nt, ..m[cid] }) } else { m }
}

/// The clients after dwm's `toggletag()`: the masked bit is toggled on the
/// client unless that would leave it without tags.
pub open spec fn toggle_client_tag_map(m: Map<ClientId, Client>, cid: ClientId, tag_bit: u32) -> Map<ClientId, Client> {
    if m.dom().contains(cid) && m[cid].tags ^ (tag_bit & TAGMASK) != 0 {
        m.insert(cid, Client { tags: m[cid].tags ^ (tag_bit & TAGMASK), ..m[cid] })
    } else {
        m
    }
}

/// `n` is `o` after adding `client` on monitor `mon_id` under the fresh handle `cid`.
pub open spec fn client_added(o: WmState, n: WmState, client: Client, mon_id: MonitorId, cid: ClientId) -> bool {
    &&& !o.clients@.dom().contains(cid)
    &&& n.clients@ == o.clients@.insert(cid, Client { mon_id, ..client })
    &&& n.monitors@.len() == o.monitors@.len()
    &&& forall|i: int| 0 <= i < o.monitors@.len() && i != mon_id ==> #[trigger] n.monitors@[i] == o.monitors@[i]
    &&& mon_id < o.monitors@.len() ==> {
        let om = o.monitors@[mon_id as int];
        let nm = n.monitors@[mon_id as int];
        &&& nm.clients@ == om.clients@.push(cid)
        &&& nm.stack@ == seq![cid] + om.stack@
        &&& nm == Monitor { clients: nm.clients, stack: nm.stack, ..om }
    }
    &&& n.rest_unchanged(o)
}

/// `n` is `o` after removing the client `cid`: it leaves the arena and its
/// monitor's client list and focus stack; if it had the focus, the focus
/// passes to the top of the stack.
pub open spec fn client_removed(o: WmState, n: WmState, cid: ClientId) -> bool {
    &&& !o.clients@.dom().contains(cid) ==> n.clients@ == o.clients@ && n.monitors == o.monitors
    &&& o.clients@.dom().contains(cid) ==> {
        let mon_id = o.clients@[cid].mon_id;
        &&& n.clients@ == o.clients@.remove(cid)
        &&& n.monitors@.len() == o.monitors@.len()
        &&& forall|i: int| 0 <= i < o.monitors@.len() && i != mon_id ==> #[trigger] n.monitors@[i] == o.monitors@[i]
        &&& mon_id < o.monitors@.len() ==> {
            let om = o.monitors@[mon_id as int];
            let nm = n.monitors@[mon_id as int];
            &&& nm.clients@ == seq_without(om.clients@, cid)
            &&& nm.stack@ == seq_without(om.stack@, cid)
            &&& nm.focused == (if om.focused == Some(cid) { seq_first(nm.stack@) } else { om.focused })
            &&& nm == Monitor { clients: nm.clients, stack: nm.stack, focused: nm.focused, ..om }
        }
    }
    &&& n.rest_unchanged(o)
}

/// Monitor `mon_id` of `o` names only clients that the arena holds: in its
/// client list, its focus stack and its focus.
pub open spec fn lists_held(o: WmState, mon_id: int) -> bool {
    let om = o.monitors@[mon_id];
    &&& forall|k: int| 0 <= k < om.clients@.len() ==> o.clients@.dom().contains(#[trigger] om.clients@[k])
    &&& forall|k: int| 0 <= k < om.stack@.len() ==> o.clients@.dom().contains(#[trigger] om.stack@[k])
    &&& om.focused matches Some(f) ==> o.clients@.dom().contains(f)
}

/// Removing a client right after adding it undoes the addition: the arena
/// holds the clients it held before, and every monitor has its client list,
/// focus stack and focus back, provided the monitor the client was added to
/// named only held clients.
pub proof fn lemma_remove_undoes_add(o: WmState, mid: WmState, n: WmState, client: Client, mon_id: MonitorId, cid: ClientId)
    requires
        mon_id < o.monitors@.len() ==> lists_held(o, mon_id as int),
        client_added(o, mid, client, mon_id, cid),
        client_removed(mid, n, cid),
    ensures
        n.clients@ == o.clients@,
        n.monitors@.len() == o.monitors@.len(),
        forall|i: int| 0 <= i < o.monitors@.len() ==> #[trigger] monitor_same(n.monitors@[i], o.monitors@[i]),
        n.rest_unchanged(o),
{
    assert(mid.clients@.dom().contains(cid));
    assert(mid.clients@[cid].mon_id == mon_id);
    assert(n.clients@ =~= o.clients@);
    if mon_id < o.monitors@.len() {
        let om = o.monitors@[mon_id as int];
        let nm = n.monitors@[mon_id as int];
        assert(!om.clients@.contains(cid)) by {
            if om.clients@.contains(cid) {
                let k = choose|k: int| 0 <= k < om.clients@.len() && om.clients@[k] == cid;
                assert(o.clients@.dom().contains(om.clients@[k]));
            }
        }
        assert(!om.stack@.contains(cid)) by {
            if om.stack@.contains(cid) {
                let k = choose|k: int| 0 <= k < om.stack@.len() && om.stack@[k] == cid;
                assert(o.clients@.dom().contains(om.stack@[k]));
            }
        }
        lemma_without_absent(om.clients@, cid);
        lemma_without_absent(om.stack@, cid);
        om.clients@.lemma_filter_push(cid, differs_from(cid));
        lemma_without_cons(om.stack@, cid);
        assert(nm.clients@ =~= om.clients@);
        assert(nm.stack@ =~= om.stack@);
        assert(monitor_same(nm, om));
    }
}

impl WmState {
    /// Every part of the state except the monitors and the client arena is as in `o`.
    pub open spec fn rest_unchanged(self, o: WmState) -> bool {
        &&& self.sel_mon == o.sel_mon
        &&& self.layouts == o.layouts
        &&& self.bar_height == o.bar_height
        &&& self.status_text == o.status_text
        &&& self.running == o.running
        &&& self.screen_w == o.screen_w
        &&& self.screen_h == o.screen_h
        &&& self.events == o.events
    }

    pub fn new() -> (r: Self)
        ensures
            r.clients@ == Map::<ClientId, Client>::empty(),
            r.monitors@ == Seq::<Monitor>::empty(),
            r.sel_mon == 0,
            r.layouts@ == Seq::<BuiltinLayout>::empty(),
            r.bar_height == 0,
            r.status_text@ == Seq::<char>::empty(),
            r.running,
            r.screen_w == 0,
            r.screen_h == 0,
            r.events@ == Seq::<(Seq<char>, crate::rwm_core::event::HookFn)>::empty(),
    {
        Self {
            clients: ClientArena::new(),
            monitors: Vec::new(),
            sel_mon: 0,
            layouts: Vec::new(),
            bar_height: 0,
            status_text: String::new(),
            running: true,
            screen_w: 0,
            screen_h: 0,
            events: EventBus::new(),
        }
    }

    // ── Monitor helpers ─────────────────────────────────────────────

    /// Get the currently selected monitor.
    pub fn selected_monitor(&self) -> (r: &Monitor)
        requires
            self.sel_mon < self.monitors@.len(),
        ensures
            *r == self.monitors@[self.sel_mon as int],
    {
        &self.monitors[self.sel_mon]
    }

    /// Get the currently selected monitor mutably.
    pub fn selected_monitor_mut(&mut self) -> (r: &mut Monitor)
        requires
            old(self).sel_mon < old(self).monitors@.len(),
        ensures
            *r == old(self).monitors@[old(self).sel_mon as int],
            final(self).monitors@ == old(self).monitors@.update(old(self).sel_mon as int, *final(r)),
            final(self).clients == old(self).clients,
            final(self).rest_unchanged(*old(self)),
    {
        let i = self.sel_mon;
        &mut self.monitors[i]
    }

    /// Find the monitor with maximum overlap for a rectangle.
    pub fn rect_to_monitor(&self, rect: &Rect) -> (r: MonitorId)
        requires
            forall|i: int| 0 <= i < self.monitors@.len() ==> #[trigger] self.monitors@[i].geom.intersect_fits(*rect),
        ensures
            self.monitors@.len() == 0 ==> r == 0,
            self.monitors@.len() > 0 ==> r == best_monitor(self.monitors@, *rect, self.monitors@.len() as int),
    {
        let n = self.monitors.len();
        if n == 0 {
            return 0;
        }
        let mut best: usize = 0;
        let mut best_area: i64 = self.monitors[0].geom.intersect_area(rect);
        let mut i: usize = 1;
        while i < n
            invariant
                n == self.monitors@.len(),
                1 <= i <= n,
                forall|j: int| 0 <= j < self.monitors@.len() ==> #[trigger] self.monitors@[j].geom.intersect_fits(*rect),
                best == best_monitor(self.monitors@, *rect, i as int),
                best < i,
                best_area == self.monitors@[best as int].geom.spec_intersect_area(*rect),
            decreases n - i,
        {
            let a = self.monitors[i].geom.intersect_area(rect);
            if a >= best_area {
                best = i;
                best_area = a;
            }
            i += 1;
        }
        best
    }

    // ── Client helpers ──────────────────────────────────────────────

    /// Insert a new client, add to the specified monitor.
    pub fn add_client(&mut self, client: Client, mon_id: MonitorId) -> (cid: ClientId)
        requires
            old(self).clients@.dom().finite(),
            old(self).clients@.dom().len() < u32::MAX - 1,
        ensures
            client_added(*old(self), *final(self), client, mon_id, cid),
    {
        let mut client = client;
        client.mon_id = mon_id;
        let ghost stored = client;
        let cid = self.clients.insert(client);
        if mon_id < self.monitors.len() {
            let mon = &mut self.monitors[mon_id];
            mon.clients.push(cid);
            mon.stack.insert(0, cid);
            assert(mon.stack@ =~= seq![cid] + old(self).monitors@[mon_id as int].stack@);
        }
        cid
    }

    /// Insert a new client as `add_client` does when the arena has room for
    /// it; when `u32::MAX - 1` clients are already held, leave the state as
    /// it is and return `None`.
    pub fn try_add_client(&mut self, client: Client, mon_id: MonitorId) -> (r: Option<ClientId>)
        requires
            old(self).clients@.dom().finite(),
        ensures
            r is Some <==> old(self).clients@.dom().len() < u32::MAX - 1,
            match r {
                Some(cid) => client_added(*old(self), *final(self), client, mon_id, cid),
                None => *final(self) == *old(self),
            },
    {
        if self.clients.len() < (u32::MAX - 1) as usize {
            Some(self.add_client(client, mon_id))
        } else {
            None
        }
    }

    /// Remove a client from the state entirely.
    pub fn remove_client(&mut self, cid: ClientId)
        ensures
            client_removed(*old(self), *final(self), cid),
    {
        if let Some(client) = self.clients.remove(cid) {
            let mon_id = client.mon_id;
            if mon_id < self.monitors.len() {
                let mon = &mut self.monitors[mon_id];
                let new_clients = vec_without(&mon.clients, &cid);
                mon.clients = new_clients;
                let new_stack = vec_without(&mon.stack, &cid);
                mon.stack = new_stack;
                let was_focused = match mon.focused {
                    Some(f) => client_id_eq(&f, &cid),
                    None => false,
                };
                if was_focused {
                    // Focus the next in stack
                    mon.focused = if mon.stack.len() > 0 { Some(mon.stack[0]) } else { None };
                }
            }
        }
    }

    /// Get visible tiled clients on a monitor (for layout).
    pub fn visible_tiled(&self, mon_id: MonitorId) -> (r: Vec<(ClientId, &Client)>)
        requires
            mon_id < self.monitors@.len(),
            self.monitors@[mon_id as int].wf(),
        ensures
            deref_pairs(r@) == tiled_of(self.monitors@[mon_id as int].clients@, self.clients@, self.monitors@[mon_id as int].spec_current_tags()),
    {
        let mon = &self.monitors[mon_id];
        let tags = mon.current_tags();
        let mut r: Vec<(ClientId, &Client)> = Vec::new();
        let mut i: usize = 0;
        while i < mon.clients.len()
            invariant
                i <= mon.clients@.len(),
                deref_pairs(r@) == tiled_of(mon.clients@.subrange(0, i as int), self.clients@, tags),
            decreases mon.clients@.len() - i,
        {
            let cid = mon.clients[i];
            assert(mon.clients@.subrange(0, i + 1).drop_last() == mon.clients@.subrange(0, i as int));
            match self.clients.get(cid) {
                Some(c) => {
                    if is_visible(c.tags, tags) && !c.is_floating && !c.is_fullscreen {
                        let ghost before = r@;
                        r.push((cid, c));
                        assert(deref_pairs(r@) =~= deref_pairs(before).push((cid, *c)));
                    }
                },
                None => {},
            }
            i += 1;
        }
        assert(mon.clients@.subrange(0, mon.clients@.len() as int) == mon.clients@);
        r
    }

    /// Find a client by X11 window id.
    pub fn client_by_window(&self, win: u32) -> (r: Option<ClientId>)
        ensures
            r matches Some(cid) ==> self.clients@.dom().contains(cid) && self.clients@[cid].win == win,
            r is None ==> forall|cid: ClientId| self.clients@.dom().contains(cid) ==> #[trigger] self.clients@[cid].win != win,
    {
        let keys = self.clients.keys();
        let mut i: usize = 0;
        while i < keys.len()
            invariant
                i <= keys@.len(),
                forall|k: ClientId| keys@.contains(k) <==> self.clients@.dom().contains(k),
                forall|j: int| 0 <= j < i ==> #[trigger] self.clients@[keys@[j]].win != win,
            decreases keys@.len() - i,
        {
            let k = keys[i];
            assert(keys@.contains(k));
            match self.clients.get(k) {
                Some(c) => {
                    if c.win == win {
                        return Some(k);
                    }
                },
                None => {},
            }
            i += 1;
        }
        assert forall|cid: ClientId| self.clients@.dom().contains(cid) implies #[trigger] self.clients@[cid].win != win by {
            assert(keys@.contains(cid));
            let j = keys@.index_of(cid);
        }
        None
    }

    /// Count clients with a given tag bit set.
    pub fn clients_on_tag(&self, mon_id: MonitorId, tag_bit: u32) -> (r: usize)
        requires
            mon_id < self.monitors@.len(),
        ensures
            r == count_on_tag(self.monitors@[mon_id as int].clients@, self.clients@, tag_bit),
    {
        let mon = &self.monitors[mon_id];
        let mut count: usize = 0;
        let mut i: usize = 0;
        while i < mon.clients.len()
            invariant
                i <= mon.clients@.len(),
                count == count_on_tag(mon.clients@.subrange(0, i as int), self.clients@, tag_bit),
                count <= i,
            decreases mon.clients@.len() - i,
        {
            let cid = mon.clients[i];
            assert(mon.clients@.subrange(0, i + 1).drop_last() == mon.clients@.subrange(0, i as int));
            match self.clients.get(cid) {
                Some(c) => {
                    if (c.tags & tag_bit) != 0 {
                        count += 1;
                    }
                },
                None => {},
            }
            i += 1;
        }
        assert(mon.clients@.subrange(0, mon.clients@.len() as int) == mon.clients@);
        count
    }

    // ── Layout helpers ──────────────────────────────────────────────

    /// Get the current layout for a monitor.
    pub fn current_layout(&self, mon_id: MonitorId) -> (r: Option<&BuiltinLayout>)
        requires
            mon_id < self.monitors@.len(),
            self.monitors@[mon_id as int].wf(),
        ensures
            ({
                let id = self.monitors@[mon_id as int].spec_current_layout().0;
                if id < self.layouts@.len() { r == Some(&self.layouts@[id as int]) } else { r is None }
            }),
    {
        let layout_id = self.monitors[mon_id].current_layout();
        if layout_id.0 < self.layouts.len() {
            Some(&self.layouts[layout_id.0])
        } else {
            None
        }
    }

    /// Get layout symbol for a monitor.
    pub fn layout_symbol(&self, mon_id: MonitorId) -> (r: &str)
        requires
            mon_id < self.monitors@.len(),
            self.monitors@[mon_id as int].wf(),
        ensures
            ({
                let id = self.monitors@[mon_id as int].spec_current_layout().0;
                r@ == (if id < self.layouts@.len() { self.layouts@[id as int].spec_symbol() } else { "???"@ })
            }),
    {
        match self.current_layout(mon_id) {
            Some(l) => l.symbol(),
            None => "???",
        }
    }

    // ── Tag operations (as in dwm) ────────────────────────────

    /// Switch view to specific tags (dwm `view()`).
    pub fn view_tags(&mut self, mon_id: MonitorId, tags: u32)
        requires
            mon_id < old(self).monitors@.len(),
            old(self).monitors@[mon_id as int].wf(),
        ensures
            final(self).monitors@.len() == old(self).monitors@.len(),
            forall|i: int| 0 <= i < old(self).monitors@.len() && i != mon_id ==> #[trigger] final(self).monitors@[i] == old(self).monitors@[i],
            viewed_tags(old(self).monitors@[mon_id as int], final(self).monitors@[mon_id as int], tags),
            final(self).monitors@[mon_id as int].wf(),
            final(self).clients == old(self).clients,
            final(self).rest_unchanged(*old(self)),
    {
        let mon = &mut self.monitors[mon_id];
        let new_tags = tags & TAGMASK;
        if new_tags == mon.current_tags() {
            return;
        }
        // Toggle sel_tags to save previous
        let s = mon.sel_tags;
        assert(s ^ 1 == 1 - s) by (bit_vector)
            requires s < 2;
        mon.sel_tags ^= 1;
        if new_tags != 0 {
            mon.tagset[mon.sel_tags] = new_tags;
        }
        assert(mon.tagset@ =~= (if new_tags != 0 { old(self).monitors@[mon_id as int].tagset@.update(1 - s, new_tags) } else { old(self).monitors@[mon_id as int].tagset@ }));
    }

    /// Toggle a tag in the current view (dwm `toggleview()`).
    pub fn toggle_view(&mut self, mon_id: MonitorId, tag_bit: u32)
        requires
            mon_id < old(self).monitors@.len(),
            old(self).monitors@[mon_id as int].wf(),
        ensures
            final(self).monitors@.len() == old(self).monitors@.len(),
            forall|i: int| 0 <= i < old(self).monitors@.len() && i != mon_id ==> #[trigger] final(self).monitors@[i] == old(self).monitors@[i],
            toggled_view(old(self).monitors@[mon_id as int], final(self).monitors@[mon_id as int], tag_bit),
            final(self).monitors@[mon_id as int].wf(),
            final(self).clients == old(self).clients,
            final(self).rest_unchanged(*old(self)),
    {
        let mon = &mut self.monitors[mon_id];
        let new_tags = mon.current_tags() ^ (tag_bit & TAGMASK);
        if new_tags != 0 {
            mon.tagset[mon.sel_tags] = new_tags;
        }
        assert(mon.tagset@ =~= (if new_tags != 0 { old(self).monitors@[mon_id as int].tagset@.update(mon.sel_tags as int, new_tags) } else { old(self).monitors@[mon_id as int].tagset@ }));
    }

    /// Move focused client to specific tags (dwm `tag()`).
    pub fn tag_client(&mut self, cid: ClientId, tags: u32)
        ensures
            final(self).clients@ == tag_client_map(old(self).clients@, cid, tags),
            final(self).monitors == old(self).monitors,
            final(self).rest_unchanged(*old(self)),
    {
        if let Some(client) = self.clients.get_mut(cid) {
            let new_tags = tags & TAGMASK;
            if new_tags != 0 {
                client.tags = new_tags;
            }
        }
    }

    /// Toggle a tag on the focused client (dwm `toggletag()`).
    pub fn toggle_client_tag(&mut self, cid: ClientId, tag_bit: u32)
        ensures
            final(self).clients@ == toggle_client_tag_map(old(self).clients@, cid, tag_bit),
            final(self).monitors == old(self).monitors,
            final(self).rest_unchanged(*old(self)),
    {
        if let Some(client) = self.clients.get_mut(cid) {
            let new_tags = client.tags ^ (tag_bit & TAGMASK);
            if new_tags != 0 {
                client.tags = new_tags;
            }
        }
    }

    /// Scratchpad toggle (dwm scratchpad patch): when the monitor holds a
    /// scratchpad client, toggle the scratch tag in the current view and
    /// return the first such client; otherwise return `None` (the caller
    /// should spawn the scratchpad command).
    pub fn toggle_scratchpad(&mut self, mon_id: MonitorId) -> (r: Option<ClientId>)
        requires
            mon_id < old(self).monitors@.len(),
            old(self).monitors@[mon_id as int].wf(),
        ensures
            ({
                let o = old(self).monitors@[mon_id as int];
                let n = final(self).monitors@[mon_id as int];
                let m = old(self).clients@;
                match r {
                    Some(cid) => {
                        &&& exists|i: int|
                            0 <= i < o.clients@.len() && o.clients@[i] == cid && is_scratch(m, cid)
                                && forall|j: int| 0 <= j < i ==> !#[trigger] is_scratch(m, o.clients@[j])
                        &&& same_but_tags(o, n)
                        &&& n.sel_tags == o.sel_tags
                        &&& n.tagset@ == o.tagset@.update(o.sel_tags as int, o.spec_current_tags() ^ SCRATCHTAG)
                        &&& final(self).monitors@.len() == old(self).monitors@.len()
                        &&& forall|i: int| 0 <= i < old(self).monitors@.len() && i != mon_id ==> #[trigger] final(self).monitors@[i] == old(self).monitors@[i]
                    },
                    None => {
                        &&& forall|j: int| 0 <= j < o.clients@.len() ==> !#[trigger] is_scratch(m, o.clients@[j])
                        &&& final(self).monitors == old(self).monitors
                    },
                }
            }),
            final(self).monitors@[mon_id as int].wf(),
            final(self).clients == old(self).clients,
            final(self).rest_unchanged(*old(self)),
    {
        let found = first_scratch(&self.clients, &self.monitors[mon_id].clients);
        match found {
            Some(i) => {
                let cid = self.monitors[mon_id].clients[i];
                let mon = &mut self.monitors[mon_id];
                let cur = mon.tagset[mon.sel_tags];
                mon.tagset[mon.sel_tags] = cur ^ SCRATCHTAG;
                assert(mon.tagset@ =~= old(self).monitors@[mon_id as int].tagset@.update(mon.sel_tags as int, cur ^ SCRATCHTAG));
                Some(cid)
            },
            None => None,
        }
    }
}

/// Index of the first of `ids` that holds a scratchpad client.
fn first_scratch(clients: &ClientArena, ids: &Vec<ClientId>) -> (r: Option<usize>)
    ensures
        match r {
            Some(i) => {
                &&& i < ids@.len()
                &&& is_scratch(clients@, ids@[i as int])
                &&& forall|j: int| 0 <= j < i ==> !#[trigger] is_scratch(clients@, ids@[j])
            },
            None => forall|j: int| 0 <= j < ids@.len() ==> !#[trigger] is_scratch(clients@, ids@[j]),
        },
{
    let mut i: usize = 0;
    while i < ids.len()
        invariant
            i <= ids@.len(),
            forall|j: int| 0 <= j < i ==> !#[trigger] is_scratch(clients@, ids@[j]),
        decreases ids@.len() - i,
    {
        let scratch = match clients.get(ids[i]) {
            Some(c) => (c.tags & SCRATCHTAG) != 0,
            None => false,
        };
        if scratch {
            return Some(i);
        }
        i += 1;
    }
    None
}

impl Default for WmState {
    fn default() -> (r: Self)
        ensures
            r.clients@ == Map::<ClientId, Client>::empty(),
            r.monitors@ == Seq::<Monitor>::empty(),
            r.sel_mon == 0,
            r.running,
    {
        Self::new()
    }
}

// ── Laws ─────────────────────────────────────────────────────────────

/// Viewing new tags keeps the previous view in the other tagset slot (so it
/// can be restored), and a non-empty masked tag set becomes the current view.
pub proof fn lemma_view_tags_keeps_previous(o: Monitor, n: Monitor, tags: u32)
    requires
        o.wf(),
        viewed_tags(o, n, tags),
        tags & TAGMASK != o.spec_current_tags(),
    ensures
        n.wf(),
        n.tagset@[o.sel_tags as int] == o.spec_current_tags(),
        tags & TAGMASK != 0 ==> n.spec_current_tags() == tags & TAGMASK,
{
}

/// Viewing the same non-empty tags twice is the same as viewing them once.
pub proof fn lemma_view_tags_idempotent(o: Monitor, n: Monitor, p: Monitor, tags: u32)
    requires
        o.wf(),
        viewed_tags(o, n, tags),
        viewed_tags(n, p, tags),
        tags & TAGMASK != 0,
    ensures
        p == n,
{
}

/// Toggling the same tag in the view twice restores the view (when the view
/// holds some tag and the first toggle took effect).
pub proof fn lemma_toggle_view_twice(o: Monitor, n: Monitor, p: Monitor, tag_bit: u32)
    requires
        o.wf(),
        o.spec_current_tags() != 0,
        o.spec_current_tags() ^ (tag_bit & TAGMASK) != 0,
        toggled_view(o, n, tag_bit),
        toggled_view(n, p, tag_bit),
    ensures
        p.tagset@ == o.tagset@,
        p.sel_tags == o.sel_tags,
        same_but_tags(o, p),
{
    let c = o.spec_current_tags();
    let b = tag_bit & TAGMASK;
    assert((c ^ b) ^ b == c) by (bit_vector);
    assert(p.tagset@ =~= o.tagset@);
}

/// Toggling the same tag on a client twice restores its tags (when the client
/// has tags and the first toggle took effect).
pub proof fn lemma_toggle_client_tag_twice(m: Map<ClientId, Client>, cid: ClientId, tag_bit: u32)
    requires
        m.dom().contains(cid),
        m[cid].tags != 0,
        m[cid].tags ^ (tag_bit & TAGMASK) != 0,
    ensures
        toggle_client_tag_map(toggle_client_tag_map(m, cid, tag_bit), cid, tag_bit) == m,
{
    let t = m[cid].tags;
    let b = tag_bit & TAGMASK;
    assert((t ^ b) ^ b == t) by (bit_vector);
    let m1 = toggle_client_tag_map(m, cid, tag_bit);
    assert(m1[cid].tags ^ b == t);
    assert(toggle_client_tag_map(m1, cid, tag_bit) =~= m);
}

/// Tagging a client with the same tags twice is the same as doing it once.
pub proof fn lemma_tag_client_idempotent(m: Map<ClientId, Client>, cid: ClientId, tags: u32)
    ensures
        tag_client_map(tag_client_map(m, cid, tags), cid, tags) == tag_client_map(m, cid, tags),
{
    assert(tag_client_map(tag_client_map(m, cid, tags), cid, tags) =~= tag_client_map(m, cid, tags));
}

/// The monitors are equal, comparing their client lists and stacks by contents.
pub open spec fn monitor_same(a: Monitor, b: Monitor) -> bool {
    &&& a.clients@ == b.clients@
    &&& a.stack@ == b.stack@
    &&& a == Monitor { clients: a.clients, stack: a.stack, ..b }
}

/// Removing an absent element changes nothing.
proof fn lemma_without_absent(s: Seq<ClientId>, x: ClientId)
    requires
        !s.contains(x),
    ensures
        seq_without(s, x) == s,
    decreases s.len(),
{
    if s.len() > 0 {
        let t = s.drop_last();
        assert(!t.contains(x)) by {
            if t.contains(x) {
                let i = t.index_of(x);
                assert(s[i] == x);
            }
        }
        lemma_without_absent(t, x);
        assert(s == t.push(s.last()));
        t.lemma_filter_push(s.last(), crate::rwm_core::monitor::differs_from(x));
    } else {
        reveal(Seq::filter);
    }
}

/// Removing `x` from `[x] + s` gives `s` without `x`.
proof fn lemma_without_cons(s: Seq<ClientId>, x: ClientId)
    ensures
        seq_without(seq![x] + s, x) == seq_without(s, x),
{
    let p = crate::rwm_core::monitor::differs_from(x);
    assert((seq![x] + s).filter(p) =~= seq![x].filter(p) + s.filter(p)) by {
        vstd::seq_lib::lemma_seq_union_to_multiset_commutative(seq![x], s);
        Seq::filter_distributes_over_add(seq![x], s, p);
    }
    assert(seq![x].filter(p) =~= Seq::<ClientId>::empty()) by {
        Seq::<ClientId>::empty().lemma_filter_push(x, p);
        assert(seq![x] == Seq::<ClientId>::empty().push(x));
        reveal(Seq::filter);
    }
}

} // verus!
