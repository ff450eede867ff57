//! The state synchronizer: the authoritative table of heads, the mode-to-head
//! correlation index, and the handlers that fold protocol events into them.

use vstd::hash_map::HashMapWithView;
use vstd::prelude::*;
use vstd::string::*;

use wayland_client::Proxy;
use wayland_protocols_wlr::output_management::v1::client::zwlr_output_manager_v1::ZwlrOutputManagerV1;

use crate::events::{ConfigResult, HeadEvent, ModeEvent, ProtocolEvent, WlMonitorEvent};
use crate::monitor::{
    find_mode, first_mode, ModeQuery, MonitorView, WlMonitor, WlMonitorMode, WlResolution,
};

pub mod actions;

verus! {

broadcast use vstd::std_specs::hash::group_hash_axioms;

/// Relies on `Proxy::interface` of wayland-protocols-wlr's
/// `ZwlrOutputManagerV1`: the `name` of the interface it returns is the name
/// the protocol description gives the output manager, `zwlr_output_manager_v1`.
/// The registry is matched against it to find the global to bind.
#[verifier::external_body]
fn output_manager_interface() -> (r: &'static str)
    ensures
        r@ == "zwlr_output_manager_v1"@,
{
    ZwlrOutputManagerV1::interface().name
}

/// The synchronizer's state for one connection.
pub struct WlMonitorManager {
    monitors: Vec<WlMonitor>,
    mode_owner: HashMapWithView<u32, u32>,
    serial: Option<u32>,
    initialized: bool,
    manager_bound: bool,
    config_result: Option<ConfigResult>,
}

/// The mathematical content of a [`WlMonitorManager`].
pub struct ManagerView {
    /// Known heads, in announcement order.
    pub heads: Seq<MonitorView>,
    /// Mode object id to the id of the head that announced it.
    pub mode_owner: Map<u32, u32>,
    /// The serial of the latest snapshot.
    pub serial: Option<u32>,
    /// Whether the first snapshot has been emitted.
    pub initialized: bool,
    /// Whether the output manager global has been bound.
    pub manager_bound: bool,
    /// The terminal answer to the pending configuration, once it arrived.
    pub config_result: Option<ConfigResult>,
}

impl View for WlMonitorManager {
    type V = ManagerView;

    closed spec fn view(&self) -> ManagerView {
        ManagerView {
            heads: self.monitors@.map_values(|m: WlMonitor| m@),
            mode_owner: self.mode_owner@,
            serial: self.serial,
            initialized: self.initialized,
            manager_bound: self.manager_bound,
            config_result: self.config_result,
        }
    }
}

/// The first index at or after `from` of a head with this id.
pub open spec fn head_index(heads: Seq<MonitorView>, id: u32, from: int) -> Option<int>
    decreases heads.len() - from,
{
    if from < 0 || from >= heads.len() {
        None
    } else if heads[from].head_id == id {
        Some(from)
    } else {
        head_index(heads, id, from + 1)
    }
}

/// Mode `m` is advertised by a head whose id is `h`.
pub open spec fn located(heads: Seq<MonitorView>, m: u32, h: u32) -> bool {
    exists|i: int, j: int|
        0 <= i < heads.len() && 0 <= j < heads[i].modes.len() && heads[i].head_id == h
            && #[trigger] heads[i].modes[j].mode_id == m
}

/// The head with its change marker cleared.
pub open spec fn cleared(h: MonitorView) -> MonitorView {
    MonitorView { dirty: false, ..h }
}

/// `out` holds one `Changed` notification, with the marker cleared, for each
/// dirty head of `heads`, in table order.
pub open spec fn reports_changes(out: Seq<WlMonitorEvent>, heads: Seq<MonitorView>) -> bool
    decreases heads.len(),
{
    if heads.len() == 0 {
        out.len() == 0
    } else if heads.last().dirty {
        &&& out.len() > 0
        &&& out.last() matches WlMonitorEvent::Changed(m) && m@ == cleared(heads.last())
        &&& reports_changes(out.drop_last(), heads.drop_last())
    } else {
        reports_changes(out, heads.drop_last())
    }
}


/// Two head tables with the same ids, the same modes by id and owner, in the
/// same places; only other fields may differ.
pub open spec fn same_shape(a: Seq<MonitorView>, b: Seq<MonitorView>) -> bool {
    &&& a.len() == b.len()
    &&& forall|k: int|
        0 <= k < a.len() ==> {
            &&& (#[trigger] a[k]).head_id == b[k].head_id
            &&& a[k].modes.len() == b[k].modes.len()
            &&& forall|j: int|
                0 <= j < a[k].modes.len() ==> (#[trigger] a[k].modes[j]).mode_id
                    == b[k].modes[j].mode_id && a[k].modes[j].head_id == b[k].modes[j].head_id
        }
}

pub(crate) proof fn lemma_head_index_none(heads: Seq<MonitorView>, id: u32, from: int)
    requires
        0 <= from,
        head_index(heads, id, from) is None,
    ensures
        forall|k: int| from <= k < heads.len() ==> heads[k].head_id != id,
    decreases heads.len() - from,
{
    if from < heads.len() {
        lemma_head_index_none(heads, id, from + 1);
    }
}

pub(crate) proof fn lemma_same_shape_wf(v: ManagerView, w: ManagerView)
    requires
        v.wf(),
        w.mode_owner == v.mode_owner,
        same_shape(w.heads, v.heads),
    ensures
        w.wf(),
{
    assert forall|i: int, k: int| 0 <= i < k < w.heads.len() implies w.heads[i].head_id
        != w.heads[k].head_id by {
        assert(w.heads[i].head_id == v.heads[i].head_id);
        assert(w.heads[k].head_id == v.heads[k].head_id);
    }
    assert forall|i: int, j: int| 0 <= i < w.heads.len() && 0 <= j < w.heads[i].modes.len() implies {
        let md = #[trigger] w.heads[i].modes[j];
        &&& md.head_id == w.heads[i].head_id
        &&& w.mode_owner.contains_key(md.mode_id)
        &&& w.mode_owner[md.mode_id] == w.heads[i].head_id
    } by {
        assert(w.heads[i].head_id == v.heads[i].head_id);
        assert(w.heads[i].modes[j].mode_id == v.heads[i].modes[j].mode_id);
        assert(v.heads[i].modes[j].head_id == v.heads[i].head_id);
    }
    assert forall|m: u32| #[trigger] w.mode_owner.contains_key(m) implies located(
        w.heads,
        m,
        w.mode_owner[m],
    ) by {
        assert(located(v.heads, m, v.mode_owner[m]));
        let (a, b) = choose|a: int, b: int|
            0 <= a < v.heads.len() && 0 <= b < v.heads[a].modes.len() && v.heads[a].head_id
                == v.mode_owner[m] && #[trigger] v.heads[a].modes[b].mode_id == m;
        assert(w.heads[a].head_id == v.heads[a].head_id);
        assert(w.heads[a].modes[b].mode_id == v.heads[a].modes[b].mode_id);
    }
    assert forall|i: int, j: int, k: int|
        0 <= i < w.heads.len() && 0 <= j < k < w.heads[i].modes.len() implies #[trigger] w.heads[i].modes[j].mode_id
            != #[trigger] w.heads[i].modes[k].mode_id by {
        assert(w.heads[i].modes[j].mode_id == v.heads[i].modes[j].mode_id);
        assert(w.heads[i].modes[k].mode_id == v.heads[i].modes[k].mode_id);
    }
}

pub(crate) proof fn lemma_without_head_wf(v: ManagerView, i: int)
    requires
        v.wf(),
        0 <= i < v.heads.len(),
    ensures
        v.without_head(i).wf(),
        forall|k: int|
            0 <= k < v.without_head(i).heads.len() ==> v.without_head(i).heads[k].head_id
                != v.heads[i].head_id,
{
    let w = v.without_head(i);
    let h = v.heads[i].head_id;
    assert forall|k: int| 0 <= k < w.heads.len() implies w.heads[k].head_id != h by {
        let ok = if k < i { k } else { k + 1 };
        assert(w.heads[k] == v.heads[ok]);
        if ok < i {
            assert(v.heads[ok].head_id != v.heads[i].head_id);
        } else {
            assert(v.heads[i].head_id != v.heads[ok].head_id);
        }
    }
    assert forall|a: int, b: int| 0 <= a < b < w.heads.len() implies w.heads[a].head_id
        != w.heads[b].head_id by {
        let oa = if a < i { a } else { a + 1 };
        let ob = if b < i { b } else { b + 1 };
        assert(w.heads[a] == v.heads[oa]);
        assert(w.heads[b] == v.heads[ob]);
        assert(v.heads[oa].head_id != v.heads[ob].head_id);
    }
    assert forall|a: int, j: int| 0 <= a < w.heads.len() && 0 <= j < w.heads[a].modes.len() implies {
        let md = #[trigger] w.heads[a].modes[j];
        &&& md.head_id == w.heads[a].head_id
        &&& w.mode_owner.contains_key(md.mode_id)
        &&& w.mode_owner[md.mode_id] == w.heads[a].head_id
    } by {
        let oa = if a < i { a } else { a + 1 };
        assert(w.heads[a] == v.heads[oa]);
        assert(w.heads[a].head_id != h);
        let md = v.heads[oa].modes[j];
        assert(v.mode_owner.contains_key(md.mode_id));
    }
    assert forall|m: u32| #[trigger] w.mode_owner.contains_key(m) implies located(
        w.heads,
        m,
        w.mode_owner[m],
    ) by {
        assert(located(v.heads, m, v.mode_owner[m]));
        let (a, b) = choose|a: int, b: int|
            0 <= a < v.heads.len() && 0 <= b < v.heads[a].modes.len() && v.heads[a].head_id
                == v.mode_owner[m] && #[trigger] v.heads[a].modes[b].mode_id == m;
        assert(a != i);
        let na = if a < i { a } else { a - 1 };
        assert(w.heads[na] == v.heads[a]);
        assert(w.heads[na].modes[b].mode_id == m);
    }
    assert forall|a: int, j: int, k: int|
        0 <= a < w.heads.len() && 0 <= j < k < w.heads[a].modes.len() implies #[trigger] w.heads[a].modes[j].mode_id
            != #[trigger] w.heads[a].modes[k].mode_id by {
        let oa = if a < i { a } else { a + 1 };
        assert(w.heads[a] == v.heads[oa]);
        assert(v.heads[oa].modes[j].mode_id != v.heads[oa].modes[k].mode_id);
    }
}

impl ManagerView {
    /// The state invariant.
    pub open spec fn wf(self) -> bool {
        // head ids are unique
        &&& forall|i: int, k: int|
            0 <= i < k < self.heads.len() ==> #[trigger] self.heads[i].head_id
                != #[trigger] self.heads[k].head_id
        // every advertised mode belongs to its head and is correlated to it
        &&& forall|i: int, j: int|
            0 <= i < self.heads.len() && 0 <= j < self.heads[i].modes.len() ==> {
                let md = #[trigger] self.heads[i].modes[j];
                &&& md.head_id == self.heads[i].head_id
                &&& self.mode_owner.contains_key(md.mode_id)
                &&& self.mode_owner[md.mode_id] == self.heads[i].head_id
            }
        // every correlation entry names a mode that its head advertises
        &&& forall|m: u32| #[trigger]
            self.mode_owner.contains_key(m) ==> located(self.heads, m, self.mode_owner[m])
        // a head advertises each mode id once
        &&& forall|i: int, j: int, k: int|
            0 <= i < self.heads.len() && 0 <= j < k < self.heads[i].modes.len()
                ==> #[trigger] self.heads[i].modes[j].mode_id
                != #[trigger] self.heads[i].modes[k].mode_id
    }

    /// The state without the head at index `i`, its modes and every
    /// correlation entry that points to it.
    pub open spec fn without_head(self, i: int) -> ManagerView {
        let h = self.heads[i].head_id;
        ManagerView {
            heads: self.heads.remove(i),
            mode_owner: Map::new(
                |m: u32| self.mode_owner.contains_key(m) && self.mode_owner[m] != h,
                |m: u32| self.mode_owner[m],
            ),
            ..self
        }
    }

    /// After the manager announced head `id`: a stale head with that id is
    /// dropped, and a fresh record is appended.
    pub open spec fn after_head_announced(self, id: u32) -> ManagerView {
        let base = match head_index(self.heads, id, 0) {
            Some(i) => self.without_head(i),
            None => self,
        };
        ManagerView { heads: base.heads.push(MonitorView::fresh(id)), ..base }
    }

    /// After head `id` reported it is finished.
    pub open spec fn after_head_finished(self, id: u32) -> ManagerView {
        match head_index(self.heads, id, 0) {
            Some(i) => self.without_head(i),
            None => self,
        }
    }

    /// After a head event other than the finished one.
    pub open spec fn after_head_property(self, id: u32, e: HeadEvent) -> ManagerView {
        match head_index(self.heads, id, 0) {
            None => self,
            Some(i) => {
                let h = self.heads[i];
                match e {
                    HeadEvent::Mode(m) => {
                        if self.mode_owner.contains_key(m) {
                            self
                        } else {
                            ManagerView {
                                heads: self.heads.update(
                                    i,
                                    MonitorView {
                                        modes: h.modes.push(WlMonitorMode::announced(m, id)),
                                        ..h
                                    },
                                ),
                                mode_owner: self.mode_owner.insert(m, id),
                                ..self
                            }
                        }
                    },
                    _ => ManagerView {
                        heads: self.heads.update(
                            i,
                            MonitorView { dirty: h.dirty || self.initialized, ..h.with_property(e) },
                        ),
                        ..self
                    },
                }
            },
        }
    }

    /// After a property event of mode `m`; a mode that cannot be traced to its
    /// head changes nothing.
    pub open spec fn after_mode_property(self, m: u32, e: ModeEvent) -> ManagerView {
        if !self.mode_owner.contains_key(m) {
            self
        } else {
            match head_index(self.heads, self.mode_owner[m], 0) {
                None => self,
                Some(i) => {
                    let h = self.heads[i];
                    match first_mode(h.modes, ModeQuery::Id(m), 0) {
                        None => self,
                        Some(j) => ManagerView {
                            heads: self.heads.update(
                                i,
                                MonitorView {
                                    modes: h.modes.update(j, h.modes[j].with_property(e)),
                                    ..h
                                },
                            ),
                            ..self
                        },
                    }
                },
            }
        }
    }

    /// After mode `m` was retired: its record leaves its head and its
    /// correlation entry is dropped; a mode that cannot be traced changes
    /// nothing.
    pub open spec fn after_mode_finished(self, m: u32) -> ManagerView {
        if !self.mode_owner.contains_key(m) {
            self
        } else {
            match head_index(self.heads, self.mode_owner[m], 0) {
                None => self,
                Some(i) => {
                    let h = self.heads[i];
                    match first_mode(h.modes, ModeQuery::Id(m), 0) {
                        None => self,
                        Some(j) => ManagerView {
                            heads: self.heads.update(i, MonitorView { modes: h.modes.remove(j), ..h }),
                            mode_owner: self.mode_owner.remove(m),
                            ..self
                        },
                    }
                },
            }
        }
    }

    /// After the snapshot-complete marker with this serial.
    pub open spec fn after_done(self, serial: u32) -> ManagerView {
        ManagerView {
            heads: self.heads.map_values(|h: MonitorView| cleared(h)),
            serial: Some(serial),
            initialized: true,
            ..self
        }
    }

    /// The state after one protocol event.
    pub open spec fn next(self, ev: ProtocolEvent) -> ManagerView {
        match ev {
            ProtocolEvent::HeadAnnounced(id) => self.after_head_announced(id),
            ProtocolEvent::Done(serial) => self.after_done(serial),
            ProtocolEvent::Head(id, e) => match e {
                HeadEvent::Finished => self.after_head_finished(id),
                _ => self.after_head_property(id, e),
            },
            ProtocolEvent::Mode(m, e) => match e {
                ModeEvent::Finished => self.after_mode_finished(m),
                _ => self.after_mode_property(m, e),
            },
            ProtocolEvent::Configuration(r) => ManagerView { config_result: Some(r), ..self },
        }
    }

    /// The notifications that one protocol event gives.
    pub open spec fn notifies(self, ev: ProtocolEvent, out: Seq<WlMonitorEvent>) -> bool {
        match ev {
            ProtocolEvent::Done(serial) => if self.initialized {
                reports_changes(out, self.heads)
            } else {
                &&& out.len() == 1
                &&& out[0] matches WlMonitorEvent::InitialState(v)
                    && v@.map_values(|m: WlMonitor| m@) == self.after_done(serial).heads
            },
            ProtocolEvent::Head(id, HeadEvent::Finished) => match head_index(self.heads, id, 0) {
                Some(i) => if self.initialized {
                    &&& out.len() == 1
                    &&& out[0] matches WlMonitorEvent::Removed { id: rid, name } && rid == id
                        && name@ == self.heads[i].name
                } else {
                    out.len() == 0
                },
                None => out.len() == 0,
            },
            _ => out.len() == 0,
        }
    }
}

impl WlMonitorManager {
    /// The state invariant, over the view.
    pub open spec fn wf(&self) -> bool {
        self@.wf()
    }

    /// An empty state for a new connection.
    pub fn new() -> (r: WlMonitorManager)
        ensures
            r.wf(),
            r@.heads.len() == 0,
            r@.mode_owner == Map::<u32, u32>::empty(),
            r@.serial is None,
            !r@.initialized,
            !r@.manager_bound,
            r@.config_result is None,
    {
        let r = WlMonitorManager {
            monitors: Vec::new(),
            mode_owner: HashMapWithView::new(),
            serial: None,
            initialized: false,
            manager_bound: false,
            config_result: None,
        };
        assert(r@.heads =~= Seq::<MonitorView>::empty());
        r
    }

    /// Decides whether the announced global is to be bound: the output
    /// manager, and only the first time it is announced.
    pub fn on_registry_global(&mut self, interface: &str) -> (bind: bool)
        requires
            old(self).wf(),
        ensures
            final(self).wf(),
            bind == (interface@ == "zwlr_output_manager_v1"@ && !old(self)@.manager_bound),
            final(self)@ == (ManagerView {
                manager_bound: old(self)@.manager_bound || bind,
                ..old(self)@
            }),
    {
        let wanted = String::from_str(output_manager_interface());
        let given = String::from_str(interface);
        if given == wanted && !self.manager_bound {
            self.manager_bound = true;
            true
        } else {
            false
        }
    }


    /// Removes the head at index `i`, its modes and their correlation entries.
    fn remove_head(&mut self, i: usize) -> (r: WlMonitor)
        requires
            old(self).wf(),
            i < old(self)@.heads.len(),
        ensures
            final(self).wf(),
            final(self)@ == old(self)@.without_head(i as int),
            r@ == old(self)@.heads[i as int],
    {
        let ghost v = self@;
        let mon = self.monitors.remove(i);
        let ghost h = mon.head_id;
        assert(self.monitors@.map_values(|m: WlMonitor| m@) =~= v.heads.remove(i as int));
        let mut j: usize = 0;
        while j < mon.modes.len()
            invariant
                j <= mon.modes.len(),
                mon@ == v.heads[i as int],
                self.monitors@.map_values(|m: WlMonitor| m@) == v.heads.remove(i as int),
                self.serial == v.serial,
                self.initialized == v.initialized,
                self.manager_bound == v.manager_bound,
                self.config_result == v.config_result,
                forall|m: u32|
                    #[trigger] self.mode_owner@.contains_key(m) <==> (v.mode_owner.contains_key(m)
                        && !(exists|k: int| 0 <= k < j && mon.modes@[k].mode_id == m)),
                forall|m: u32|
                    #[trigger] self.mode_owner@.contains_key(m) ==> self.mode_owner@[m]
                        == v.mode_owner[m],
            decreases mon.modes.len() - j,
        {
            let mid = mon.modes[j].mode_id;
            self.mode_owner.remove(&mid);
            j = j + 1;
            assert forall|m: u32| #[trigger] self.mode_owner@.contains_key(m) <==> (
            v.mode_owner.contains_key(m) && !(exists|k: int|
                0 <= k < j && mon.modes@[k].mode_id == m)) by {
                if exists|k: int| 0 <= k < j && mon.modes@[k].mode_id == m {
                    let k = choose|k: int| 0 <= k < j && mon.modes@[k].mode_id == m;
                    if k < j - 1 {
                        assert(exists|k: int| 0 <= k < j - 1 && mon.modes@[k].mode_id == m);
                    }
                }
                if m != mid && !(exists|k: int| 0 <= k < j - 1 && mon.modes@[k].mode_id == m) {
                    assert(!(exists|k: int| 0 <= k < j && mon.modes@[k].mode_id == m));
                }
            }
        }
        proof {
            lemma_without_head_wf(v, i as int);
            let w = v.without_head(i as int);
            assert forall|m: u32| #[trigger] self.mode_owner@.contains_key(m) <==> w.mode_owner.contains_key(m) by {
                if v.mode_owner.contains_key(m) && v.mode_owner[m] == h {
                    assert(located(v.heads, m, v.mode_owner[m]));
                    let (a, b) = choose|a: int, b: int|
                        0 <= a < v.heads.len() && 0 <= b < v.heads[a].modes.len() && v.heads[a].head_id
                            == v.mode_owner[m] && #[trigger] v.heads[a].modes[b].mode_id == m;
                    if a < i {
                        assert(v.heads[a].head_id != v.heads[i as int].head_id);
                    } else if a > i {
                        assert(v.heads[i as int].head_id != v.heads[a].head_id);
                    }
                    assert(mon.modes@[b].mode_id == m);
                }
                if exists|k: int| 0 <= k < mon.modes.len() && mon.modes@[k].mode_id == m {
                    let k = choose|k: int| 0 <= k < mon.modes.len() && mon.modes@[k].mode_id == m;
                    assert(v.heads[i as int].modes[k].mode_id == m);
                }
            }
            assert(self.mode_owner@ =~= w.mode_owner);
            assert(self@ =~= w);
        }
        mon
    }

    /// The manager announced head `id`: a fresh record is appended. A stale
    /// record with the same id is dropped first.
    pub fn on_head_announced(&mut self, id: u32)
        requires
            old(self).wf(),
        ensures
            final(self).wf(),
            final(self)@ == old(self)@.after_head_announced(id),
    {
        let ghost v = self@;
        match self.find_head(id) {
            Some(i) => {
                let _ = self.remove_head(i);
            },
            None => {
                proof {
                    lemma_head_index_none(v.heads, id, 0);
                }
            },
        }
        let ghost base = self@;
        self.monitors.push(WlMonitor::new(id));
        proof {
            assert(self@.heads =~= base.heads.push(MonitorView::fresh(id)));
            assert(self@ =~= v.after_head_announced(id));
            let w = self@;
            let n = base.heads.len() as int;
            assert forall|a: int, b: int| 0 <= a < b < w.heads.len() implies w.heads[a].head_id
                != w.heads[b].head_id by {
                if b == n {
                    assert(w.heads[a] == base.heads[a]);
                } else {
                    assert(w.heads[a] == base.heads[a]);
                    assert(w.heads[b] == base.heads[b]);
                }
            }
            assert forall|a: int, j: int| 0 <= a < w.heads.len() && 0 <= j < w.heads[a].modes.len() implies {
                let md = #[trigger] w.heads[a].modes[j];
                &&& md.head_id == w.heads[a].head_id
                &&& w.mode_owner.contains_key(md.mode_id)
                &&& w.mode_owner[md.mode_id] == w.heads[a].head_id
            } by {
                assert(a < n);
                assert(w.heads[a] == base.heads[a]);
            }
            assert forall|m: u32| #[trigger] w.mode_owner.contains_key(m) implies located(
                w.heads,
                m,
                w.mode_owner[m],
            ) by {
                assert(located(base.heads, m, base.mode_owner[m]));
                let (a, b) = choose|a: int, b: int|
                    0 <= a < base.heads.len() && 0 <= b < base.heads[a].modes.len()
                        && base.heads[a].head_id == base.mode_owner[m]
                        && #[trigger] base.heads[a].modes[b].mode_id == m;
                assert(w.heads[a] == base.heads[a]);
                assert(w.heads[a].modes[b].mode_id == m);
            }
            assert forall|a: int, j: int, k: int|
                0 <= a < w.heads.len() && 0 <= j < k < w.heads[a].modes.len() implies #[trigger] w.heads[a].modes[j].mode_id
                    != #[trigger] w.heads[a].modes[k].mode_id by {
                assert(a < n);
                assert(w.heads[a] == base.heads[a]);
                assert(base.heads[a].modes[j].mode_id != base.heads[a].modes[k].mode_id);
            }
        }
    }

    /// Head `id` is gone: its record, its modes and their correlation entries
    /// are dropped. Once the first snapshot has been emitted, a removal
    /// notification carries its id and last name; before it, the consumer has
    /// never seen the head and hears nothing of it.
    pub fn on_head_finished(&mut self, id: u32) -> (out: Vec<WlMonitorEvent>)
        requires
            old(self).wf(),
        ensures
            final(self).wf(),
            final(self)@ == old(self)@.after_head_finished(id),
            old(self)@.notifies(ProtocolEvent::Head(id, HeadEvent::Finished), out@),
    {
        let mut out: Vec<WlMonitorEvent> = Vec::new();
        match self.find_head(id) {
            Some(i) => {
                let mon = self.remove_head(i);
                if self.initialized {
                    out.push(WlMonitorEvent::Removed { id: mon.head_id, name: mon.name });
                }
            },
            None => {},
        }
        out
    }

    /// A head event other than the finished one. A mode announcement adds the
    /// mode and its correlation entry; any other property updates its field,
    /// and after the first snapshot marks the head as changed. Events for an
    /// unknown head, and announcements of a mode id already known, are ignored.
    pub fn on_head_property(&mut self, id: u32, e: HeadEvent)
        requires
            old(self).wf(),
            !(e is Finished),
        ensures
            final(self).wf(),
            final(self)@ == old(self)@.after_head_property(id, e),
    {
        let ghost v = self@;
        match self.find_head(id) {
            None => {},
            Some(i) => {
                match e {
                    HeadEvent::Mode(m) => {
                        if !self.mode_owner.contains_key(&m) {
                            self.monitors[i].modes.push(
                                WlMonitorMode {
                                    mode_id: m,
                                    head_id: id,
                                    refresh_rate: 0,
                                    resolution: WlResolution { height: 0, width: 0 },
                                    preferred: false,
                                },
                            );
                            self.mode_owner.insert(m, id);
                            proof {
                                let w = self@;
                                let hv = v.heads[i as int];
                                assert(w.heads =~= v.heads.update(
                                    i as int,
                                    MonitorView {
                                        modes: hv.modes.push(WlMonitorMode::announced(m, id)),
                                        ..hv
                                    },
                                ));
                                assert(w =~= v.after_head_property(id, e));
                                assert forall|a: int, b: int| 0 <= a < b < w.heads.len() implies w.heads[a].head_id
                                    != w.heads[b].head_id by {
                                    assert(w.heads[a].head_id == v.heads[a].head_id);
                                    assert(w.heads[b].head_id == v.heads[b].head_id);
                                }
                                assert forall|a: int, j: int| 0 <= a < w.heads.len() && 0 <= j < w.heads[a].modes.len() implies {
                                    let md = #[trigger] w.heads[a].modes[j];
                                    &&& md.head_id == w.heads[a].head_id
                                    &&& w.mode_owner.contains_key(md.mode_id)
                                    &&& w.mode_owner[md.mode_id] == w.heads[a].head_id
                                } by {
                                    if a != i || j < hv.modes.len() {
                                        assert(w.heads[a].modes[j] == v.heads[a].modes[j]);
                                        assert(v.mode_owner.contains_key(v.heads[a].modes[j].mode_id));
                                    }
                                }
                                assert forall|mm: u32| #[trigger] w.mode_owner.contains_key(mm) implies located(
                                    w.heads,
                                    mm,
                                    w.mode_owner[mm],
                                ) by {
                                    if mm == m {
                                        assert(w.heads[i as int].modes[hv.modes.len() as int].mode_id == m);
                                    } else {
                                        assert(located(v.heads, mm, v.mode_owner[mm]));
                                        let (a, b) = choose|a: int, b: int|
                                            0 <= a < v.heads.len() && 0 <= b < v.heads[a].modes.len()
                                                && v.heads[a].head_id == v.mode_owner[mm]
                                                && #[trigger] v.heads[a].modes[b].mode_id == mm;
                                        assert(w.heads[a].modes[b] == v.heads[a].modes[b]);
                                    }
                                }
                                assert forall|a: int, j: int, k: int|
                                    0 <= a < w.heads.len() && 0 <= j < k < w.heads[a].modes.len() implies #[trigger] w.heads[a].modes[j].mode_id
                                        != #[trigger] w.heads[a].modes[k].mode_id by {
                                    if a != i {
                                        assert(w.heads[a] == v.heads[a]);
                                        assert(v.heads[a].modes[j].mode_id != v.heads[a].modes[k].mode_id);
                                    } else if k < hv.modes.len() {
                                        assert(w.heads[a].modes[j] == hv.modes[j]);
                                        assert(w.heads[a].modes[k] == hv.modes[k]);
                                        assert(v.heads[a].modes[j].mode_id != v.heads[a].modes[k].mode_id);
                                    } else {
                                        assert(w.heads[a].modes[j] == hv.modes[j]);
                                        assert(v.mode_owner.contains_key(v.heads[a].modes[j].mode_id));
                                    }
                                }
                            }
                        }
                    },
                    _ => {
                        self.monitors[i].apply_property(e);
                        if self.initialized {
                            self.monitors[i].dirty = true;
                        }
                        proof {
                            let hv = v.heads[i as int];
                            assert(self@.heads =~= v.heads.update(
                                i as int,
                                MonitorView { dirty: hv.dirty || v.initialized, ..hv.with_property(e) },
                            ));
                            assert(self@ =~= v.after_head_property(id, e));
                            assert(same_shape(self@.heads, v.heads));
                            lemma_same_shape_wf(v, self@);
                        }
                    },
                }
            },
        }
    }

    /// A property event of mode `m`, resolved through the correlation index
    /// to its head; when any link is missing the event is ignored.
    pub fn on_mode_property(&mut self, m: u32, e: ModeEvent)
        requires
            old(self).wf(),
            !(e is Finished),
        ensures
            final(self).wf(),
            final(self)@ == old(self)@.after_mode_property(m, e),
    {
        let ghost v = self@;
        let owner = match self.mode_owner.get(&m) {
            Some(h) => *h,
            None => {
                return;
            },
        };
        match self.find_head(owner) {
            None => {},
            Some(i) => {
                match find_mode(&self.monitors[i].modes, ModeQuery::Id(m)) {
                    None => {},
                    Some(j) => {
                        self.monitors[i].modes[j].apply_property(e);
                        proof {
                            let hv = v.heads[i as int];
                            assert(self@.heads =~= v.heads.update(
                                i as int,
                                MonitorView { modes: hv.modes.update(j as int, hv.modes[j as int].with_property(e)), ..hv },
                            ));
                            assert(self@ =~= v.after_mode_property(m, e));
                            assert(same_shape(self@.heads, v.heads));
                            lemma_same_shape_wf(v, self@);
                        }
                    },
                }
            },
        }
    }


    /// Mode `m` was retired by the server: its record and its correlation
    /// entry are dropped. A mode that cannot be traced is ignored.
    pub fn on_mode_finished(&mut self, m: u32)
        requires
            old(self).wf(),
        ensures
            final(self).wf(),
            final(self)@ == old(self)@.after_mode_finished(m),
    {
        let ghost v = self@;
        let owner = match self.mode_owner.get(&m) {
            Some(h) => *h,
            None => {
                return;
            },
        };
        match self.find_head(owner) {
            None => {},
            Some(i) => {
                match find_mode(&self.monitors[i].modes, ModeQuery::Id(m)) {
                    None => {},
                    Some(j) => {
                        let _ = self.monitors[i].modes.remove(j);
                        self.mode_owner.remove(&m);
                        proof {
                            let hv = v.heads[i as int];
                            let w = self@;
                            let ii = i as int;
                            let jj = j as int;
                            assert(w.heads =~= v.heads.update(ii, MonitorView { modes: hv.modes.remove(jj), ..hv }));
                            assert(w =~= v.after_mode_finished(m));
                            assert(hv.modes[jj].mode_id == m);
                            assert forall|a: int, b: int| 0 <= a < b < w.heads.len() implies w.heads[a].head_id
                                != w.heads[b].head_id by {
                                assert(w.heads[a].head_id == v.heads[a].head_id);
                                assert(w.heads[b].head_id == v.heads[b].head_id);
                            }
                            assert forall|a: int, b: int| 0 <= a < w.heads.len() && 0 <= b < w.heads[a].modes.len() implies {
                                let md = #[trigger] w.heads[a].modes[b];
                                &&& md.head_id == w.heads[a].head_id
                                &&& w.mode_owner.contains_key(md.mode_id)
                                &&& w.mode_owner[md.mode_id] == w.heads[a].head_id
                            } by {
                                if a != ii {
                                    assert(w.heads[a] == v.heads[a]);
                                    let md = v.heads[a].modes[b];
                                    assert(v.mode_owner[md.mode_id] == v.heads[a].head_id);
                                    if a < ii {
                                        assert(v.heads[a].head_id != v.heads[ii].head_id);
                                    } else {
                                        assert(v.heads[ii].head_id != v.heads[a].head_id);
                                    }
                                } else {
                                    let ob = if b < jj { b } else { b + 1 };
                                    assert(w.heads[a].modes[b] == hv.modes[ob]);
                                    assert(v.mode_owner.contains_key(hv.modes[ob].mode_id));
                                    if ob < jj {
                                        assert(v.heads[ii].modes[ob].mode_id != v.heads[ii].modes[jj].mode_id);
                                    } else {
                                        assert(v.heads[ii].modes[jj].mode_id != v.heads[ii].modes[ob].mode_id);
                                    }
                                }
                            }
                            assert forall|mm: u32| #[trigger] w.mode_owner.contains_key(mm) implies located(
                                w.heads,
                                mm,
                                w.mode_owner[mm],
                            ) by {
                                assert(located(v.heads, mm, v.mode_owner[mm]));
                                let (a, b) = choose|a: int, b: int|
                                    0 <= a < v.heads.len() && 0 <= b < v.heads[a].modes.len()
                                        && v.heads[a].head_id == v.mode_owner[mm]
                                        && #[trigger] v.heads[a].modes[b].mode_id == mm;
                                if a != ii {
                                    assert(w.heads[a] == v.heads[a]);
                                    assert(w.heads[a].modes[b].mode_id == mm);
                                } else {
                                    assert(b != jj);
                                    let nb = if b < jj { b } else { b - 1 };
                                    assert(w.heads[a].modes[nb] == hv.modes[b]);
                                    assert(w.heads[a].modes[nb].mode_id == mm);
                                }
                            }
                            assert forall|a: int, p: int, q: int|
                                0 <= a < w.heads.len() && 0 <= p < q < w.heads[a].modes.len() implies #[trigger] w.heads[a].modes[p].mode_id
                                    != #[trigger] w.heads[a].modes[q].mode_id by {
                                if a != ii {
                                    assert(w.heads[a] == v.heads[a]);
                                    assert(v.heads[a].modes[p].mode_id != v.heads[a].modes[q].mode_id);
                                } else {
                                    let op = if p < jj { p } else { p + 1 };
                                    let oq = if q < jj { q } else { q + 1 };
                                    assert(w.heads[a].modes[p] == hv.modes[op]);
                                    assert(w.heads[a].modes[q] == hv.modes[oq]);
                                    assert(v.heads[ii].modes[op].mode_id != v.heads[ii].modes[oq].mode_id);
                                }
                            }
                        }
                    },
                }
            },
        }
    }

    /// The snapshot-complete marker: the serial is kept for the next
    /// transaction. The first marker emits every head in one `InitialState`;
    /// later ones emit a `Changed` for each head marked since, in table order.
    /// Every marker is cleared.
    pub fn on_snapshot_complete(&mut self, serial: u32) -> (out: Vec<WlMonitorEvent>)
        requires
            old(self).wf(),
        ensures
            final(self).wf(),
            final(self)@ == old(self)@.after_done(serial),
            old(self)@.notifies(ProtocolEvent::Done(serial), out@),
    {
        let ghost v = self@;
        let first = !self.initialized;
        self.serial = Some(serial);
        self.initialized = true;
        let mut out: Vec<WlMonitorEvent> = Vec::new();
        let mut copies: Vec<WlMonitor> = Vec::new();
        let mut i: usize = 0;
        while i < self.monitors.len()
            invariant
                i <= self.monitors.len(),
                self.monitors@.len() == v.heads.len(),
                first == !v.initialized,
                self.mode_owner@ == v.mode_owner,
                self.serial == Some(serial),
                self.initialized,
                self.manager_bound == v.manager_bound,
                self.config_result == v.config_result,
                forall|k: int| 0 <= k < i ==> #[trigger] self.monitors@[k]@ == cleared(v.heads[k]),
                forall|k: int| i <= k < v.heads.len() ==> #[trigger] self.monitors@[k]@ == v.heads[k],
                first ==> copies@.len() == i && out@.len() == 0,
                first ==> forall|k: int| 0 <= k < i ==> #[trigger] copies@[k]@ == cleared(v.heads[k]),
                !first ==> reports_changes(out@, v.heads.subrange(0, i as int)),
            decreases self.monitors.len() - i,
        {
            assert(self.monitors@[i as int]@ == v.heads[i as int]);
            let was_dirty = self.monitors[i].dirty;
            self.monitors[i].dirty = false;
            if first {
                copies.push(self.monitors[i].snapshot());
            } else if was_dirty {
                let ghost before = out@;
                out.push(WlMonitorEvent::Changed(self.monitors[i].snapshot()));
                assert(out@.drop_last() =~= before);
            }
            proof {
                let sub = v.heads.subrange(0, i + 1);
                assert(sub.drop_last() =~= v.heads.subrange(0, i as int));
                assert(sub.last() == v.heads[i as int]);
            }
            i = i + 1;
        }
        proof {
            assert(self@.heads =~= v.after_done(serial).heads);
            assert(self@ =~= v.after_done(serial));
            assert(same_shape(self@.heads, v.heads));
            lemma_same_shape_wf(v, self@);
            assert(v.heads.subrange(0, v.heads.len() as int) =~= v.heads);
        }
        if first {
            assert(copies@.map_values(|m: WlMonitor| m@) =~= v.after_done(serial).heads);
            out.push(WlMonitorEvent::InitialState(copies));
        }
        out
    }

    /// The terminal answer to the pending configuration; it is kept until
    /// [`WlMonitorManager::take_config_result`] collects it.
    pub fn on_configuration_result(&mut self, r: ConfigResult)
        requires
            old(self).wf(),
        ensures
            final(self).wf(),
            final(self)@ == (ManagerView { config_result: Some(r), ..old(self)@ }),
    {
        self.config_result = Some(r);
    }

    /// Folds one protocol event into the state and returns the notifications
    /// it gives.
    pub fn handle_event(&mut self, ev: ProtocolEvent) -> (out: Vec<WlMonitorEvent>)
        requires
            old(self).wf(),
        ensures
            final(self).wf(),
            final(self)@ == old(self)@.next(ev),
            old(self)@.notifies(ev, out@),
    {
        match ev {
            ProtocolEvent::HeadAnnounced(id) => {
                self.on_head_announced(id);
                Vec::new()
            },
            ProtocolEvent::Done(serial) => self.on_snapshot_complete(serial),
            ProtocolEvent::Head(id, e) => match e {
                HeadEvent::Finished => self.on_head_finished(id),
                _ => {
                    self.on_head_property(id, e);
                    Vec::new()
                },
            },
            ProtocolEvent::Mode(m, e) => {
                match e {
                    ModeEvent::Finished => self.on_mode_finished(m),
                    _ => self.on_mode_property(m, e),
                }
                Vec::new()
            },
            ProtocolEvent::Configuration(r) => {
                self.on_configuration_result(r);
                Vec::new()
            },
        }
    }

    /// Collects the terminal answer to the pending configuration, if it has
    /// arrived.
    pub fn take_config_result(&mut self) -> (r: Option<ConfigResult>)
        requires
            old(self).wf(),
        ensures
            final(self).wf(),
            r == old(self)@.config_result,
            final(self)@ == (ManagerView { config_result: None, ..old(self)@ }),
    {
        let r = self.config_result;
        self.config_result = None;
        r
    }

    /// The known heads, in announcement order.
    pub fn monitors(&self) -> (r: &Vec<WlMonitor>)
        ensures
            r@.map_values(|m: WlMonitor| m@) == self@.heads,
    {
        &self.monitors
    }

    /// The head that announced mode `m`, from the correlation index.
    pub fn mode_owner(&self, m: u32) -> (r: Option<u32>)
        ensures
            r == (if self@.mode_owner.contains_key(m) {
                Some(self@.mode_owner[m])
            } else {
                None
            }),
    {
        match self.mode_owner.get(&m) {
            Some(h) => Some(*h),
            None => None,
        }
    }

    /// The serial of the latest snapshot.
    pub fn serial(&self) -> (r: Option<u32>)
        ensures
            r == self@.serial,
    {
        self.serial
    }

    /// Whether the first snapshot has been emitted.
    pub fn is_initialized(&self) -> (r: bool)
        ensures
            r == self@.initialized,
    {
        self.initialized
    }

    /// The index of the head with this id.
    fn find_head(&self, id: u32) -> (r: Option<usize>)
        ensures
            r matches Some(i) ==> i < self@.heads.len() && self@.heads[i as int].head_id == id
                && head_index(self@.heads, id, 0) == Some(i as int),
            r is None ==> head_index(self@.heads, id, 0) is None,
    {
        let mut i: usize = 0;
        while i < self.monitors.len()
            invariant
                i <= self.monitors.len(),
                self@.heads.len() == self.monitors@.len(),
                head_index(self@.heads, id, 0) == head_index(self@.heads, id, i as int),
            decreases self.monitors.len() - i,
        {
            assert(self@.heads[i as int] == self.monitors@[i as int]@);
            if self.monitors[i].head_id == id {
                return Some(i);
            }
            i = i + 1;
        }
        None
    }
}

} // verus!
