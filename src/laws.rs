//! Properties that relate several events or several actions, stated over the
//! same spec functions the handlers' contracts use, and proved.

use vstd::prelude::*;

use crate::events::{HeadEvent, ModeEvent, ProtocolEvent, WlMonitorEvent};
use crate::monitor::{first_mode, mode_matches, ModeQuery, MonitorView, WlMonitorMode};
use crate::state::actions::{
    action_configs, action_failure, after_action, head_named, HeadConfig, WlMonitorAction,
};
use crate::state::{
    cleared, head_index, lemma_head_index_none, lemma_same_shape_wf, lemma_without_head_wf,
    same_shape, ManagerView,
};

verus! {

/// The property an event sets, numbered; `None` for the mode announcement and
/// the finished event, which set no property.
pub open spec fn property_kind(e: HeadEvent) -> Option<nat> {
    match e {
        HeadEvent::Name(_) => Some(0),
        HeadEvent::Description(_) => Some(1),
        HeadEvent::Make(_) => Some(2),
        HeadEvent::Model(_) => Some(3),
        HeadEvent::SerialNumber(_) => Some(4),
        HeadEvent::Enabled(_) => Some(5),
        HeadEvent::CurrentMode(_) => Some(6),
        HeadEvent::Position(_, _) => Some(7),
        HeadEvent::Scale(_) => Some(8),
        HeadEvent::Transform(_) => Some(9),
        HeadEvent::Mode(_) => None,
        HeadEvent::Finished => None,
    }
}

/// The two records hold the same value for the property numbered `k`.
pub open spec fn agrees_on(a: MonitorView, b: MonitorView, k: nat) -> bool {
    if k == 0 {
        a.name == b.name
    } else if k == 1 {
        a.description == b.description
    } else if k == 2 {
        a.make == b.make
    } else if k == 3 {
        a.model == b.model
    } else if k == 4 {
        a.serial_number == b.serial_number
    } else if k == 5 {
        a.enabled == b.enabled
    } else if k == 6 {
        a.current_mode == b.current_mode
    } else if k == 7 {
        a.position == b.position
    } else if k == 8 {
        a.scale == b.scale
    } else {
        a.transform == b.transform
    }
}

proof fn lemma_with_property_fields(h: MonitorView, e: HeadEvent, k: nat)
    requires
        k < 10,
    ensures
        property_kind(e) == Some(k) ==> agrees_on(h.with_property(e), MonitorView::fresh(0).with_property(e), k),
        property_kind(e) != Some(k) ==> agrees_on(h.with_property(e), h, k),
        h.with_property(e).head_id == h.head_id,
        h.with_property(e).modes == h.modes,
        h.with_property(e).last_mode == h.last_mode,
{
}

/// The property a mode event sets, numbered; `None` for the finished event.
pub open spec fn mode_property_kind(e: ModeEvent) -> Option<nat> {
    match e {
        ModeEvent::Size(_, _) => Some(0),
        ModeEvent::Refresh(_) => Some(1),
        ModeEvent::Preferred => Some(2),
        ModeEvent::Finished => None,
    }
}

/// The two modes hold the same value for the property numbered `k`.
pub open spec fn mode_agrees_on(a: WlMonitorMode, b: WlMonitorMode, k: nat) -> bool {
    if k == 0 {
        a.resolution == b.resolution
    } else if k == 1 {
        a.refresh_rate == b.refresh_rate
    } else {
        a.preferred == b.preferred
    }
}

proof fn lemma_head_index_some(heads: Seq<MonitorView>, id: u32, from: int)
    requires
        head_index(heads, id, from) is Some,
    ensures
        ({
            let i = head_index(heads, id, from)->0;
            &&& from <= i < heads.len()
            &&& heads[i].head_id == id
        }),
    decreases heads.len() - from,
{
    if from >= 0 && from < heads.len() && heads[from].head_id != id {
        lemma_head_index_some(heads, id, from + 1);
    }
}

proof fn lemma_head_index_absent(heads: Seq<MonitorView>, id: u32, from: int)
    requires
        0 <= from,
        forall|k: int| from <= k < heads.len() ==> heads[k].head_id != id,
    ensures
        head_index(heads, id, from) is None,
    decreases heads.len() - from,
{
    if from < heads.len() {
        lemma_head_index_absent(heads, id, from + 1);
    }
}

/// Once a head is finished, no correlation entry points to it, and a later
/// property event for any mode it owned changes nothing and brings no head
/// back.
pub proof fn law_finished_head_releases_modes(v: ManagerView, id: u32, m: u32, e: ModeEvent)
    requires
        v.wf(),
        head_index(v.heads, id, 0) is Some,
        v.mode_owner.contains_key(m),
        v.mode_owner[m] == id,
    ensures
        v.after_head_finished(id).wf(),
        head_index(v.after_head_finished(id).heads, id, 0) is None,
        forall|mm: u32| #[trigger]
            v.after_head_finished(id).mode_owner.contains_key(mm)
                ==> v.after_head_finished(id).mode_owner[mm] != id,
        v.after_head_finished(id).after_mode_property(m, e) == v.after_head_finished(id),
{
    let i = head_index(v.heads, id, 0)->0;
    lemma_head_index_some(v.heads, id, 0);
    lemma_without_head_wf(v, i);
    let w = v.without_head(i);
    lemma_head_index_absent(w.heads, id, 0);
    assert(!w.mode_owner.contains_key(m));
}

/// The head as the server reports it once a configuration holding `c` for it
/// was applied.
pub open spec fn committed(h: MonitorView, c: HeadConfig) -> MonitorView {
    match c {
        HeadConfig::Enable { mode_id, position, transform, scale, .. } => MonitorView {
            enabled: true,
            current_mode: mode_id,
            position,
            transform,
            scale,
            ..h
        },
        HeadConfig::Disable { .. } => MonitorView { enabled: false, current_mode: None, ..h },
    }
}

/// Every head as reported after a successful commit of `cs`.
pub open spec fn committed_all(v: ManagerView, cs: Seq<HeadConfig>) -> ManagerView {
    ManagerView { heads: Seq::new(v.heads.len(), |k: int| committed(v.heads[k], cs[k])), ..v }
}

proof fn lemma_head_named_same_names(a: Seq<MonitorView>, b: Seq<MonitorView>, name: Seq<char>, from: int)
    requires
        a.len() == b.len(),
        forall|k: int| 0 <= k < a.len() ==> a[k].name == b[k].name,
    ensures
        head_named(a, name, from) == head_named(b, name, from),
    decreases a.len() - from,
{
    if from >= 0 && from < a.len() {
        lemma_head_named_same_names(a, b, name, from + 1);
    }
}

proof fn lemma_head_named_some(heads: Seq<MonitorView>, name: Seq<char>, from: int)
    requires
        head_named(heads, name, from) is Some,
    ensures
        from <= head_named(heads, name, from)->0 < heads.len(),
    decreases heads.len() - from,
{
    if from >= 0 && from < heads.len() && heads[from].name != name {
        lemma_head_named_some(heads, name, from + 1);
    }
}

proof fn lemma_first_mode_hit(modes: Seq<WlMonitorMode>, q: ModeQuery, from: int)
    requires
        first_mode(modes, q, from) is Some,
    ensures
        from <= first_mode(modes, q, from)->0 < modes.len(),
        mode_matches(modes[first_mode(modes, q, from)->0], q),
    decreases modes.len() - from,
{
    if from >= 0 && from < modes.len() && !mode_matches(modes[from], q) {
        lemma_first_mode_hit(modes, q, from + 1);
    }
}

/// Two toggles of one head, each applied by the server, bring it back: an
/// enabled head comes back on with the mode it had (its last mode, not the
/// preferred one), position, scale and transform; a disabled head that
/// advertises a mode ends disabled again with position, scale and transform
/// unchanged. Neither toggle fails.
pub proof fn law_toggle_twice_restores(v: ManagerView, a: WlMonitorAction)
    requires
        v.wf(),
        a matches WlMonitorAction::Toggle { name, mode, position } && mode is None && position is None
            && head_named(v.heads, name@, 0) is Some && ({
            let h = v.heads[head_named(v.heads, name@, 0)->0];
            if h.enabled {
                h.current_mode matches Some(c) && first_mode(h.modes, ModeQuery::Id(c), 0) is Some
            } else {
                h.modes.len() > 0
            }
        }),
    ensures
        ({
            let name = a->Toggle_name;
            let i = head_named(v.heads, name@, 0)->0;
            let h = v.heads[i];
            let v2 = committed_all(after_action(v, a), action_configs(v.heads, a));
            let v4 = committed_all(after_action(v2, a), action_configs(v2.heads, a));
            &&& action_failure(v.heads, a) is None
            &&& action_failure(v2.heads, a) is None
            &&& v4.heads[i].enabled == h.enabled
            &&& v4.heads[i].position == h.position
            &&& v4.heads[i].scale == h.scale
            &&& v4.heads[i].transform == h.transform
            &&& h.enabled ==> v4.heads[i].current_mode == h.current_mode
        }),
{
    let name = a->Toggle_name;
    let i = head_named(v.heads, name@, 0)->0;
    lemma_head_named_some(v.heads, name@, 0);
    let h = v.heads[i];
    let v1 = after_action(v, a);
    let first_plan = action_configs(v.heads, a);
    let v2 = committed_all(v1, first_plan);
    assert(v1.heads.len() == v.heads.len());
    lemma_head_named_same_names(v1.heads, v.heads, name@, 0);
    assert(v2.heads.len() == v1.heads.len());
    assert forall|k: int| 0 <= k < v2.heads.len() implies v2.heads[k].name == v1.heads[k].name by {}
    lemma_head_named_same_names(v2.heads, v1.heads, name@, 0);
    let v3 = after_action(v2, a);
    let second_plan = action_configs(v2.heads, a);
    let v4 = committed_all(v3, second_plan);
    assert(v3.heads.len() == v2.heads.len());
    lemma_head_named_same_names(v3.heads, v2.heads, name@, 0);
    if h.enabled {
        let c = h.current_mode->0;
        assert(v2.heads[i].last_mode == Some(c));
        assert(!v2.heads[i].enabled);
        lemma_first_mode_hit(h.modes, ModeQuery::Id(c), 0);
        assert(v2.heads[i].modes == h.modes);
        assert(v3 == v2);
        assert(v4.heads[i].current_mode == Some(c));
    } else {
        let h2 = v2.heads[i];
        let j = crate::state::actions::resolve_mode(h, None);
        assert(j is Some);
        assert(h2.enabled);
        assert(v4.heads[i].position == h.position);
    }
}

/// The state after a sequence of protocol events, in arrival order.
pub open spec fn run(v: ManagerView, evs: Seq<ProtocolEvent>) -> ManagerView
    decreases evs.len(),
{
    if evs.len() == 0 {
        v
    } else {
        run(v, evs.drop_last()).next(evs.last())
    }
}

/// A property event: one of a head or of a mode that sets a property.
pub open spec fn is_property_event(ev: ProtocolEvent) -> bool {
    match ev {
        ProtocolEvent::Head(_, e) => property_kind(e) is Some,
        ProtocolEvent::Mode(_, e) => mode_property_kind(e) is Some,
        _ => false,
    }
}

/// The last event of `evs` that sets the property numbered `k` of head `id`.
pub open spec fn last_head_event(evs: Seq<ProtocolEvent>, id: u32, k: nat) -> Option<HeadEvent>
    decreases evs.len(),
{
    if evs.len() == 0 {
        None
    } else {
        match evs.last() {
            ProtocolEvent::Head(h, e) => if h == id && property_kind(e) == Some(k) {
                Some(e)
            } else {
                last_head_event(evs.drop_last(), id, k)
            },
            _ => last_head_event(evs.drop_last(), id, k),
        }
    }
}

/// The last event of `evs` that sets the property numbered `k` of mode `m`.
pub open spec fn last_mode_event(evs: Seq<ProtocolEvent>, m: u32, k: nat) -> Option<ModeEvent>
    decreases evs.len(),
{
    if evs.len() == 0 {
        None
    } else {
        match evs.last() {
            ProtocolEvent::Mode(x, e) => if x == m && mode_property_kind(e) == Some(k) {
                Some(e)
            } else {
                last_mode_event(evs.drop_last(), m, k)
            },
            _ => last_mode_event(evs.drop_last(), m, k),
        }
    }
}

/// Head record `w` holds for property `k` what the last event of `evs` for
/// that property of head `v.head_id` set, or what `v` held.
pub open spec fn head_holds_last(w: MonitorView, v: MonitorView, evs: Seq<ProtocolEvent>, k: nat) -> bool {
    match last_head_event(evs, v.head_id, k) {
        Some(e) => agrees_on(w, v.with_property(e), k),
        None => agrees_on(w, v, k),
    }
}

/// The same for a mode record.
pub open spec fn mode_holds_last(w: WlMonitorMode, v: WlMonitorMode, evs: Seq<ProtocolEvent>, k: nat) -> bool {
    match last_mode_event(evs, v.mode_id, k) {
        Some(e) => mode_agrees_on(w, v.with_property(e), k),
        None => mode_agrees_on(w, v, k),
    }
}

proof fn lemma_first_mode_none(modes: Seq<WlMonitorMode>, q: ModeQuery, from: int)
    requires
        0 <= from,
        first_mode(modes, q, from) is None,
    ensures
        forall|j: int| from <= j < modes.len() ==> !mode_matches(modes[j], q),
    decreases modes.len() - from,
{
    if from < modes.len() {
        lemma_first_mode_none(modes, q, from + 1);
    }
}

proof fn lemma_run_properties(v: ManagerView, evs: Seq<ProtocolEvent>)
    requires
        v.wf(),
        forall|q: int| 0 <= q < evs.len() ==> is_property_event(#[trigger] evs[q]),
    ensures
        run(v, evs).wf(),
        run(v, evs).mode_owner == v.mode_owner,
        same_shape(run(v, evs).heads, v.heads),
        forall|i: int, k: nat|
            0 <= i < v.heads.len() && k < 10 ==> #[trigger] head_holds_last(
                run(v, evs).heads[i],
                v.heads[i],
                evs,
                k,
            ),
        forall|i: int, j: int, k: nat|
            0 <= i < v.heads.len() && 0 <= j < v.heads[i].modes.len() && k < 3
                ==> #[trigger] mode_holds_last(run(v, evs).heads[i].modes[j], v.heads[i].modes[j], evs, k),
    decreases evs.len(),
{
    if evs.len() == 0 {
        assert(same_shape(v.heads, v.heads));
        return;
    }
    let prev = evs.drop_last();
    assert forall|q: int| 0 <= q < prev.len() implies is_property_event(#[trigger] prev[q]) by {
        assert(prev[q] == evs[q]);
    }
    lemma_run_properties(v, prev);
    let u = run(v, prev);
    let ev = evs.last();
    assert(is_property_event(evs[evs.len() - 1]));
    let w = run(v, evs);
    assert(w == u.next(ev));
    match ev {
        ProtocolEvent::Head(id, e) => {
            assert(!(e is Finished) && !(e is Mode));
            match head_index(u.heads, id, 0) {
                Some(i0) => {
                    lemma_head_index_some(u.heads, id, 0);
                    let h = u.heads[i0];
                    assert(w.heads == u.heads.update(i0, MonitorView { dirty: h.dirty || u.initialized, ..h.with_property(e) }));
                },
                None => {
                    lemma_head_index_none(u.heads, id, 0);
                    assert(w == u);
                },
            }
            assert(same_shape(w.heads, v.heads));
            lemma_same_shape_wf(v, w);
            assert forall|i: int, k: nat| 0 <= i < v.heads.len() && k < 10 implies #[trigger] head_holds_last(
                w.heads[i],
                v.heads[i],
                evs,
                k,
            ) by {
                assert(head_holds_last(u.heads[i], v.heads[i], prev, k));
                lemma_with_property_fields(u.heads[i], e, k);
                lemma_with_property_fields(v.heads[i], e, k);
                lemma_with_property_fields(MonitorView::fresh(0), e, k);
                if id == v.heads[i].head_id {
                    assert(u.heads[i].head_id == id);
                    if head_index(u.heads, id, 0) is None {
                        lemma_head_index_none(u.heads, id, 0);
                    }
                    let i0 = head_index(u.heads, id, 0)->0;
                    lemma_head_index_some(u.heads, id, 0);
                    if i0 != i {
                        if i0 < i {
                            assert(w.heads[i0].head_id != w.heads[i].head_id);
                        } else {
                            assert(w.heads[i].head_id != w.heads[i0].head_id);
                        }
                    }
                }
            }
            assert forall|i: int, j: int, k: nat|
                0 <= i < v.heads.len() && 0 <= j < v.heads[i].modes.len() && k < 3 implies #[trigger] mode_holds_last(
                w.heads[i].modes[j],
                v.heads[i].modes[j],
                evs,
                k,
            ) by {
                assert(mode_holds_last(u.heads[i].modes[j], v.heads[i].modes[j], prev, k));
                lemma_with_property_fields(u.heads[i], e, 0);
                assert(w.heads[i].modes == u.heads[i].modes);
            }
        },
        ProtocolEvent::Mode(m, me) => {
            assert(!(me is Finished));
            let hit = u.mode_owner.contains_key(m) && head_index(u.heads, u.mode_owner[m], 0) is Some
                && first_mode(u.heads[head_index(u.heads, u.mode_owner[m], 0)->0].modes, ModeQuery::Id(m), 0) is Some;
            if hit {
                let i0 = head_index(u.heads, u.mode_owner[m], 0)->0;
                lemma_head_index_some(u.heads, u.mode_owner[m], 0);
                let j0 = first_mode(u.heads[i0].modes, ModeQuery::Id(m), 0)->0;
                lemma_first_mode_hit(u.heads[i0].modes, ModeQuery::Id(m), 0);
                let h = u.heads[i0];
                assert(w.heads == u.heads.update(i0, MonitorView { modes: h.modes.update(j0, h.modes[j0].with_property(me)), ..h }));
            } else {
                assert(w == u);
            }
            assert(same_shape(w.heads, v.heads));
            lemma_same_shape_wf(v, w);
            assert forall|i: int, k: nat| 0 <= i < v.heads.len() && k < 10 implies #[trigger] head_holds_last(
                w.heads[i],
                v.heads[i],
                evs,
                k,
            ) by {
                assert(head_holds_last(u.heads[i], v.heads[i], prev, k));
            }
            assert forall|i: int, j: int, k: nat|
                0 <= i < v.heads.len() && 0 <= j < v.heads[i].modes.len() && k < 3 implies #[trigger] mode_holds_last(
                w.heads[i].modes[j],
                v.heads[i].modes[j],
                evs,
                k,
            ) by {
                assert(mode_holds_last(u.heads[i].modes[j], v.heads[i].modes[j], prev, k));
                if u.heads[i].modes[j].mode_id == m {
                    assert(u.mode_owner.contains_key(m));
                    assert(u.mode_owner[m] == u.heads[i].head_id);
                    let hid = u.heads[i].head_id;
                    if head_index(u.heads, hid, 0) is None {
                        lemma_head_index_none(u.heads, hid, 0);
                    }
                    let i0 = head_index(u.heads, hid, 0)->0;
                    lemma_head_index_some(u.heads, hid, 0);
                    if i0 < i {
                        assert(u.heads[i0].head_id != u.heads[i].head_id);
                    } else if i0 > i {
                        assert(u.heads[i].head_id != u.heads[i0].head_id);
                    }
                    if first_mode(u.heads[i].modes, ModeQuery::Id(m), 0) is None {
                        lemma_first_mode_none(u.heads[i].modes, ModeQuery::Id(m), 0);
                    }
                    let j0 = first_mode(u.heads[i].modes, ModeQuery::Id(m), 0)->0;
                    lemma_first_mode_hit(u.heads[i].modes, ModeQuery::Id(m), 0);
                    if j0 < j {
                        assert(u.heads[i].modes[j0].mode_id != u.heads[i].modes[j].mode_id);
                    } else if j0 > j {
                        assert(u.heads[i].modes[j].mode_id != u.heads[i].modes[j0].mode_id);
                    }
                    assert(w.heads[i].modes[j] == u.heads[i].modes[j].with_property(me));
                } else {
                    assert(w.heads[i].modes[j] == u.heads[i].modes[j]);
                }
            }
        },
        _ => {},
    }
}

/// Property events may arrive in any order before the snapshot-complete
/// marker: in the snapshot emitted at the marker, each property of each head
/// and of each of its modes holds the value the last event for it set, or
/// its earlier value where no event set it; heads and modes stay the same.
pub proof fn law_snapshot_holds_last_values(v: ManagerView, evs: Seq<ProtocolEvent>, serial: u32)
    requires
        v.wf(),
        forall|q: int| 0 <= q < evs.len() ==> is_property_event(#[trigger] evs[q]),
    ensures
        ({
            let snapshot = run(v, evs).after_done(serial).heads;
            &&& same_shape(snapshot, v.heads)
            &&& forall|i: int, k: nat|
                0 <= i < v.heads.len() && k < 10 ==> #[trigger] head_holds_last(
                    snapshot[i],
                    v.heads[i],
                    evs,
                    k,
                )
            &&& forall|i: int, j: int, k: nat|
                0 <= i < v.heads.len() && 0 <= j < v.heads[i].modes.len() && k < 3
                    ==> #[trigger] mode_holds_last(snapshot[i].modes[j], v.heads[i].modes[j], evs, k)
        }),
{
    lemma_run_properties(v, evs);
    let w = run(v, evs);
    let snapshot = w.after_done(serial).heads;
    assert forall|i: int, k: nat| 0 <= i < v.heads.len() && k < 10 implies #[trigger] head_holds_last(
        snapshot[i],
        v.heads[i],
        evs,
        k,
    ) by {
        assert(head_holds_last(w.heads[i], v.heads[i], evs, k));
        assert(snapshot[i] == cleared(w.heads[i]));
    }
    assert forall|i: int, j: int, k: nat|
        0 <= i < v.heads.len() && 0 <= j < v.heads[i].modes.len() && k < 3 implies #[trigger] mode_holds_last(
        snapshot[i].modes[j],
        v.heads[i].modes[j],
        evs,
        k,
    ) by {
        assert(mode_holds_last(w.heads[i].modes[j], v.heads[i].modes[j], evs, k));
        assert(snapshot[i] == cleared(w.heads[i]));
    }
    assert(same_shape(snapshot, v.heads));
}

/// Some property event of `evs` is addressed to head `id`.
pub open spec fn touched(evs: Seq<ProtocolEvent>, id: u32) -> bool {
    exists|k: nat| k < 10 && #[trigger] last_head_event(evs, id, k) is Some
}

proof fn lemma_touched_step(evs: Seq<ProtocolEvent>, id: u32)
    requires
        evs.len() > 0,
        !(evs.last() matches ProtocolEvent::Head(h, e) && h == id && property_kind(e) is Some),
    ensures
        touched(evs, id) == touched(evs.drop_last(), id),
{
    let prev = evs.drop_last();
    assert forall|k: nat| #[trigger] last_head_event(evs, id, k) == last_head_event(prev, id, k) by {}
    if touched(evs, id) {
        let k = choose|k: nat| k < 10 && #[trigger] last_head_event(evs, id, k) is Some;
        assert(last_head_event(prev, id, k) is Some);
    }
    if touched(prev, id) {
        let k = choose|k: nat| k < 10 && #[trigger] last_head_event(prev, id, k) is Some;
        assert(last_head_event(evs, id, k) is Some);
    }
}

/// Property events keep everything but the heads, keep each head's last
/// mode, and mark a head changed exactly when one of them reached it after
/// the first snapshot.
proof fn lemma_run_rest(v: ManagerView, evs: Seq<ProtocolEvent>)
    requires
        v.wf(),
        forall|q: int| 0 <= q < evs.len() ==> is_property_event(#[trigger] evs[q]),
    ensures
        run(v, evs) == (ManagerView { heads: run(v, evs).heads, ..v }),
        run(v, evs).heads.len() == v.heads.len(),
        forall|i: int|
            0 <= i < v.heads.len() ==> (#[trigger] run(v, evs).heads[i]).last_mode
                == v.heads[i].last_mode && run(v, evs).heads[i].dirty == (v.heads[i].dirty || (
            v.initialized && touched(evs, v.heads[i].head_id))),
    decreases evs.len(),
{
    if evs.len() == 0 {
        assert forall|i: int| 0 <= i < v.heads.len() implies !touched(evs, v.heads[i].head_id) by {
            if touched(evs, v.heads[i].head_id) {
                let k = choose|k: nat| k < 10 && #[trigger] last_head_event(evs, v.heads[i].head_id, k) is Some;
            }
        }
        return;
    }
    let prev = evs.drop_last();
    assert forall|q: int| 0 <= q < prev.len() implies is_property_event(#[trigger] prev[q]) by {
        assert(prev[q] == evs[q]);
    }
    lemma_run_rest(v, prev);
    lemma_run_properties(v, prev);
    let u = run(v, prev);
    let ev = evs.last();
    assert(is_property_event(evs[evs.len() - 1]));
    let w = run(v, evs);
    assert(w == u.next(ev));
    match ev {
        ProtocolEvent::Head(id, e) => {
            assert(!(e is Finished) && !(e is Mode));
            match head_index(u.heads, id, 0) {
                Some(i0) => {
                    lemma_head_index_some(u.heads, id, 0);
                    let h = u.heads[i0];
                    assert(w.heads == u.heads.update(i0, MonitorView { dirty: h.dirty || u.initialized, ..h.with_property(e) }));
                    assert forall|i: int| 0 <= i < v.heads.len() implies (#[trigger] w.heads[i]).last_mode
                        == v.heads[i].last_mode && w.heads[i].dirty == (v.heads[i].dirty || (
                        v.initialized && touched(evs, v.heads[i].head_id))) by {
                        assert(u.heads[i].head_id == v.heads[i].head_id);
                        lemma_with_property_fields(h, e, 0);
                        if i == i0 {
                            let k = property_kind(e)->0;
                            assert(last_head_event(evs, id, k) is Some);
                        } else {
                            if i < i0 {
                                assert(u.heads[i].head_id != u.heads[i0].head_id);
                            } else {
                                assert(u.heads[i0].head_id != u.heads[i].head_id);
                            }
                            lemma_touched_step(evs, v.heads[i].head_id);
                        }
                    }
                },
                None => {
                    lemma_head_index_none(u.heads, id, 0);
                    assert(w == u);
                    assert forall|i: int| 0 <= i < v.heads.len() implies (#[trigger] w.heads[i]).last_mode
                        == v.heads[i].last_mode && w.heads[i].dirty == (v.heads[i].dirty || (
                        v.initialized && touched(evs, v.heads[i].head_id))) by {
                        assert(u.heads[i].head_id == v.heads[i].head_id);
                        lemma_touched_step(evs, v.heads[i].head_id);
                    }
                },
            }
        },
        ProtocolEvent::Mode(m, me) => {
            assert(!(me is Finished));
            let hit = u.mode_owner.contains_key(m) && head_index(u.heads, u.mode_owner[m], 0) is Some
                && first_mode(u.heads[head_index(u.heads, u.mode_owner[m], 0)->0].modes, ModeQuery::Id(m), 0) is Some;
            if hit {
                let i0 = head_index(u.heads, u.mode_owner[m], 0)->0;
                lemma_head_index_some(u.heads, u.mode_owner[m], 0);
                let j0 = first_mode(u.heads[i0].modes, ModeQuery::Id(m), 0)->0;
                lemma_first_mode_hit(u.heads[i0].modes, ModeQuery::Id(m), 0);
                let h = u.heads[i0];
                assert(w.heads == u.heads.update(i0, MonitorView { modes: h.modes.update(j0, h.modes[j0].with_property(me)), ..h }));
            } else {
                assert(w == u);
            }
            assert forall|i: int| 0 <= i < v.heads.len() implies (#[trigger] w.heads[i]).last_mode
                == v.heads[i].last_mode && w.heads[i].dirty == (v.heads[i].dirty || (
                v.initialized && touched(evs, v.heads[i].head_id))) by {
                lemma_touched_step(evs, v.heads[i].head_id);
            }
        },
        _ => {},
    }
}

/// Two deliveries of property events that agree, for every property of every
/// head and every mode, on the last event that sets it leave the same state.
/// Any reordering that keeps the order of the events of one kind on one object
/// agrees so; the snapshot-complete marker that follows then gives the same
/// state and emits the same notifications in both runs.
pub proof fn law_reordered_properties_same_state(
    v: ManagerView,
    first: Seq<ProtocolEvent>,
    second: Seq<ProtocolEvent>,
    serial: u32,
)
    requires
        v.wf(),
        forall|q: int| 0 <= q < first.len() ==> is_property_event(#[trigger] first[q]),
        forall|q: int| 0 <= q < second.len() ==> is_property_event(#[trigger] second[q]),
        forall|id: u32, k: nat| #[trigger] last_head_event(first, id, k) == last_head_event(second, id, k),
        forall|m: u32, k: nat| #[trigger] last_mode_event(first, m, k) == last_mode_event(second, m, k),
    ensures
        run(v, first) == run(v, second),
        run(v, first).next(ProtocolEvent::Done(serial)) == run(v, second).next(ProtocolEvent::Done(serial)),
        forall|out: Seq<WlMonitorEvent>|
            run(v, first).notifies(ProtocolEvent::Done(serial), out) <==> run(v, second).notifies(
                ProtocolEvent::Done(serial),
                out,
            ),
{
    lemma_run_properties(v, first);
    lemma_run_properties(v, second);
    lemma_run_rest(v, first);
    lemma_run_rest(v, second);
    let a = run(v, first);
    let b = run(v, second);
    assert forall|i: int| 0 <= i < v.heads.len() implies a.heads[i] == b.heads[i] by {
        let vi = v.heads[i];
        assert forall|k: nat| k < 10 implies agrees_on(a.heads[i], b.heads[i], k) by {
            assert(head_holds_last(a.heads[i], vi, first, k));
            assert(head_holds_last(b.heads[i], vi, second, k));
            assert(last_head_event(first, vi.head_id, k) == last_head_event(second, vi.head_id, k));
        }
        assert(agrees_on(a.heads[i], b.heads[i], 0));
        assert(agrees_on(a.heads[i], b.heads[i], 1));
        assert(agrees_on(a.heads[i], b.heads[i], 2));
        assert(agrees_on(a.heads[i], b.heads[i], 3));
        assert(agrees_on(a.heads[i], b.heads[i], 4));
        assert(agrees_on(a.heads[i], b.heads[i], 5));
        assert(agrees_on(a.heads[i], b.heads[i], 6));
        assert(agrees_on(a.heads[i], b.heads[i], 7));
        assert(agrees_on(a.heads[i], b.heads[i], 8));
        assert(agrees_on(a.heads[i], b.heads[i], 9));
        if touched(first, vi.head_id) {
            let k = choose|k: nat| k < 10 && #[trigger] last_head_event(first, vi.head_id, k) is Some;
            assert(last_head_event(second, vi.head_id, k) is Some);
        }
        if touched(second, vi.head_id) {
            let k = choose|k: nat| k < 10 && #[trigger] last_head_event(second, vi.head_id, k) is Some;
            assert(last_head_event(first, vi.head_id, k) == last_head_event(second, vi.head_id, k));
        }
        assert(a.heads[i].dirty == b.heads[i].dirty);
        assert(a.heads[i].last_mode == b.heads[i].last_mode);
        assert(a.heads[i].head_id == b.heads[i].head_id);
        assert forall|j: int| 0 <= j < a.heads[i].modes.len() implies a.heads[i].modes[j] == b.heads[i].modes[j] by {
            let vm = vi.modes[j];
            assert(a.heads[i].modes[j].mode_id == vm.mode_id);
            assert(b.heads[i].modes[j].mode_id == vm.mode_id);
            assert(mode_holds_last(a.heads[i].modes[j], vm, first, 0));
            assert(mode_holds_last(b.heads[i].modes[j], vm, second, 0));
            assert(mode_holds_last(a.heads[i].modes[j], vm, first, 1));
            assert(mode_holds_last(b.heads[i].modes[j], vm, second, 1));
            assert(mode_holds_last(a.heads[i].modes[j], vm, first, 2));
            assert(mode_holds_last(b.heads[i].modes[j], vm, second, 2));
            assert(last_mode_event(first, vm.mode_id, 0) == last_mode_event(second, vm.mode_id, 0));
            assert(last_mode_event(first, vm.mode_id, 1) == last_mode_event(second, vm.mode_id, 1));
            assert(last_mode_event(first, vm.mode_id, 2) == last_mode_event(second, vm.mode_id, 2));
        }
        assert(a.heads[i].modes =~= b.heads[i].modes);
    }
    assert(a.heads =~= b.heads);
}

} // verus!
