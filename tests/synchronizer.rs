use wl_monitor_detector::monitor::refresh_hz;
use wl_monitor_detector::{
    ConfigResult, HeadConfig, HeadEvent, ModeEvent, ProtocolEvent, WlMonitor, WlMonitorAction, WlMonitorEvent,
    WlMonitorManager, WlPosition, WlResolution, WlScale, WlTransform,
};

fn feed(mgr: &mut WlMonitorManager, ev: ProtocolEvent) -> Vec<WlMonitorEvent> {
    mgr.handle_event(ev)
}

fn head(mgr: &mut WlMonitorManager, id: u32, e: HeadEvent) {
    assert!(feed(mgr, ProtocolEvent::Head(id, e)).is_empty());
}

/// Announces a head with one mode per entry of `modes` (id, width, height,
/// millihertz, preferred), the first mode current and the head enabled.
fn announce(mgr: &mut WlMonitorManager, id: u32, name: &str, modes: &[(u32, i32, i32, i32, bool)]) {
    assert!(feed(mgr, ProtocolEvent::HeadAnnounced(id)).is_empty());
    head(mgr, id, HeadEvent::Name(name.to_string()));
    for &(mid, w, h, mhz, preferred) in modes {
        head(mgr, id, HeadEvent::Mode(mid));
        feed(mgr, ProtocolEvent::Mode(mid, ModeEvent::Size(w, h)));
        feed(mgr, ProtocolEvent::Mode(mid, ModeEvent::Refresh(mhz)));
        if preferred {
            feed(mgr, ProtocolEvent::Mode(mid, ModeEvent::Preferred));
        }
    }
    if let Some(&(mid, ..)) = modes.first() {
        head(mgr, id, HeadEvent::CurrentMode(mid));
        head(mgr, id, HeadEvent::Enabled(1));
    }
}

fn initial_state(out: Vec<WlMonitorEvent>) -> Vec<WlMonitor> {
    assert_eq!(out.len(), 1);
    match out.into_iter().next().unwrap() {
        WlMonitorEvent::InitialState(v) => v,
        other => panic!("expected the initial state, got {:?}", other),
    }
}

#[test]
fn two_heads_give_one_initial_state_with_their_resolutions() {
    let mut mgr = WlMonitorManager::new();
    announce(&mut mgr, 10, "DP-1", &[(11, 1920, 1080, 60000, true)]);
    announce(&mut mgr, 20, "HDMI-1", &[(21, 1280, 720, 60000, true)]);
    let monitors = initial_state(feed(&mut mgr, ProtocolEvent::Done(5)));
    assert_eq!(monitors.len(), 2);
    assert_eq!(monitors[0].name, "DP-1");
    assert_eq!(monitors[0].resolution(), WlResolution { width: 1920, height: 1080 });
    assert_eq!(monitors[0].refresh_rate(), 60);
    assert!(monitors[0].enabled);
    assert_eq!(monitors[0].scale.bits, 1.0f64.to_bits());
    assert_eq!(monitors[0].position, WlPosition { x: 0, y: 0 });
    assert_eq!(monitors[1].name, "HDMI-1");
    assert_eq!(monitors[1].resolution(), WlResolution { width: 1280, height: 720 });
    assert_eq!(mgr.serial(), Some(5));
    assert!(mgr.is_initialized());
    // a second marker without changes emits nothing
    assert!(feed(&mut mgr, ProtocolEvent::Done(6)).is_empty());
    assert_eq!(mgr.serial(), Some(6));
}

fn props_in_order(order: &[usize]) -> WlMonitor {
    let mut mgr = WlMonitorManager::new();
    feed(&mut mgr, ProtocolEvent::HeadAnnounced(1));
    head(&mut mgr, 1, HeadEvent::Mode(2));
    let events = |k: usize| -> Vec<ProtocolEvent> {
        match k {
            0 => vec![
                ProtocolEvent::Head(1, HeadEvent::Name("eDP-1".to_string())),
                ProtocolEvent::Head(1, HeadEvent::Description("Built-in".to_string())),
            ],
            1 => vec![
                ProtocolEvent::Head(1, HeadEvent::Position(100, 0)),
                ProtocolEvent::Head(1, HeadEvent::Position(-5, 7)),
            ],
            2 => vec![
                ProtocolEvent::Head(1, HeadEvent::Scale(WlScale { bits: 2.0f64.to_bits() })),
                ProtocolEvent::Head(1, HeadEvent::Transform(WlTransform::Rotate90)),
            ],
            3 => vec![
                ProtocolEvent::Mode(2, ModeEvent::Refresh(59940)),
                ProtocolEvent::Mode(2, ModeEvent::Size(2560, 1600)),
            ],
            _ => vec![
                ProtocolEvent::Head(1, HeadEvent::Enabled(1)),
                ProtocolEvent::Head(1, HeadEvent::CurrentMode(2)),
            ],
        }
    };
    for &k in order {
        for ev in events(k) {
            feed(&mut mgr, ev);
        }
    }
    initial_state(feed(&mut mgr, ProtocolEvent::Done(1))).into_iter().next().unwrap()
}

#[test]
fn snapshot_holds_last_values_whatever_the_order_of_kinds() {
    let a = props_in_order(&[0, 1, 2, 3, 4]);
    let b = props_in_order(&[4, 3, 2, 1, 0]);
    let c = props_in_order(&[2, 0, 4, 1, 3]);
    for m in [&a, &b, &c] {
        assert_eq!(m.name, "eDP-1");
        assert_eq!(m.description, "Built-in");
        assert_eq!(m.position, WlPosition { x: -5, y: 7 });
        assert_eq!(m.scale.bits, 2.0f64.to_bits());
        assert_eq!(m.transform, WlTransform::Rotate90);
        assert!(m.enabled);
        assert_eq!(m.current_mode, Some(2));
        assert_eq!(m.resolution(), WlResolution { width: 2560, height: 1600 });
        assert_eq!(m.refresh_rate(), 59);
    }
}

#[test]
fn properties_before_the_first_marker_are_not_emitted() {
    let mut mgr = WlMonitorManager::new();
    assert!(feed(&mut mgr, ProtocolEvent::HeadAnnounced(1)).is_empty());
    assert!(feed(&mut mgr, ProtocolEvent::Head(1, HeadEvent::Name("DP-2".to_string()))).is_empty());
    assert!(!mgr.is_initialized());
    assert!(!mgr.monitors()[0].dirty);
}

#[test]
fn finished_head_releases_its_modes() {
    let mut mgr = WlMonitorManager::new();
    announce(&mut mgr, 10, "DP-1", &[(11, 1920, 1080, 60000, true), (12, 1280, 720, 60000, false)]);
    announce(&mut mgr, 20, "HDMI-1", &[(21, 1280, 720, 60000, true)]);
    feed(&mut mgr, ProtocolEvent::Done(1));
    assert_eq!(mgr.mode_owner(11), Some(10));
    let out = feed(&mut mgr, ProtocolEvent::Head(10, HeadEvent::Finished));
    assert_eq!(out.len(), 1);
    match &out[0] {
        WlMonitorEvent::Removed { id, name } => {
            assert_eq!(*id, 10);
            assert_eq!(name, "DP-1");
        },
        other => panic!("expected a removal, got {:?}", other),
    }
    assert_eq!(mgr.mode_owner(11), None);
    assert_eq!(mgr.mode_owner(12), None);
    assert_eq!(mgr.mode_owner(21), Some(20));
    assert!(feed(&mut mgr, ProtocolEvent::Mode(11, ModeEvent::Size(640, 480))).is_empty());
    assert!(feed(&mut mgr, ProtocolEvent::Mode(12, ModeEvent::Preferred)).is_empty());
    assert_eq!(mgr.monitors().len(), 1);
    assert_eq!(mgr.monitors()[0].head_id, 20);
    assert_eq!(mgr.monitors()[0].modes[0].resolution, WlResolution { width: 1280, height: 720 });
    // a property event for the finished head does not bring it back
    assert!(feed(&mut mgr, ProtocolEvent::Head(10, HeadEvent::Name("DP-1".to_string()))).is_empty());
    assert_eq!(mgr.monitors().len(), 1);
    assert!(feed(&mut mgr, ProtocolEvent::Done(2)).is_empty());
}

#[test]
fn finished_unknown_head_emits_nothing() {
    let mut mgr = WlMonitorManager::new();
    assert!(feed(&mut mgr, ProtocolEvent::Head(3, HeadEvent::Finished)).is_empty());
}

#[test]
fn changes_after_the_first_marker_are_reported_per_head() {
    let mut mgr = WlMonitorManager::new();
    announce(&mut mgr, 10, "DP-1", &[(11, 1920, 1080, 60000, true)]);
    announce(&mut mgr, 20, "HDMI-1", &[(21, 1280, 720, 60000, true)]);
    feed(&mut mgr, ProtocolEvent::Done(1));
    head(&mut mgr, 20, HeadEvent::Position(1920, 0));
    assert!(mgr.monitors()[1].dirty);
    let out = feed(&mut mgr, ProtocolEvent::Done(2));
    assert_eq!(out.len(), 1);
    match &out[0] {
        WlMonitorEvent::Changed(m) => {
            assert_eq!(m.head_id, 20);
            assert_eq!(m.position, WlPosition { x: 1920, y: 0 });
            assert!(!m.dirty);
        },
        other => panic!("expected a change, got {:?}", other),
    }
    assert!(!mgr.monitors()[1].dirty);
    assert!(feed(&mut mgr, ProtocolEvent::Done(3)).is_empty());
}

#[test]
fn mode_events_for_unknown_modes_are_ignored() {
    let mut mgr = WlMonitorManager::new();
    announce(&mut mgr, 10, "DP-1", &[(11, 1920, 1080, 60000, true)]);
    assert!(feed(&mut mgr, ProtocolEvent::Mode(99, ModeEvent::Size(1, 1))).is_empty());
    assert_eq!(mgr.monitors()[0].modes.len(), 1);
    assert_eq!(mgr.monitors()[0].modes[0].resolution, WlResolution { width: 1920, height: 1080 });
}

#[test]
fn a_known_mode_id_announced_again_is_ignored() {
    let mut mgr = WlMonitorManager::new();
    announce(&mut mgr, 10, "DP-1", &[(11, 1920, 1080, 60000, true)]);
    announce(&mut mgr, 20, "HDMI-1", &[]);
    head(&mut mgr, 20, HeadEvent::Mode(11));
    assert_eq!(mgr.monitors()[1].modes.len(), 0);
    assert_eq!(mgr.mode_owner(11), Some(10));
}

#[test]
fn head_announced_again_starts_fresh() {
    let mut mgr = WlMonitorManager::new();
    announce(&mut mgr, 10, "DP-1", &[(11, 1920, 1080, 60000, true)]);
    feed(&mut mgr, ProtocolEvent::HeadAnnounced(10));
    assert_eq!(mgr.monitors().len(), 1);
    assert_eq!(mgr.monitors()[0].name, "");
    assert!(mgr.monitors()[0].modes.is_empty());
    assert_eq!(mgr.mode_owner(11), None);
}

#[test]
fn refresh_is_truncated_to_whole_hertz() {
    assert_eq!(refresh_hz(59940), 59);
    assert_eq!(refresh_hz(60000), 60);
    assert_eq!(refresh_hz(999), 0);
    assert_eq!(refresh_hz(-1500), -1);
    assert_eq!(refresh_hz(i32::MIN), -2147483);
}

#[test]
fn disabled_head_without_current_mode_has_no_resolution() {
    let mut mgr = WlMonitorManager::new();
    announce(&mut mgr, 10, "DP-1", &[(11, 1920, 1080, 60000, true)]);
    head(&mut mgr, 10, HeadEvent::CurrentMode(77));
    let m = &mgr.monitors()[0];
    assert_eq!(m.resolution(), WlResolution { width: 0, height: 0 });
    assert_eq!(m.refresh_rate(), 0);
}

#[test]
fn configuration_result_is_kept_until_taken() {
    let mut mgr = WlMonitorManager::new();
    assert_eq!(mgr.take_config_result(), None);
    feed(&mut mgr, ProtocolEvent::Configuration(ConfigResult::Failed));
    assert_eq!(mgr.take_config_result(), Some(ConfigResult::Failed));
    assert_eq!(mgr.take_config_result(), None);
}

#[test]
fn snapshot_copies_every_field() {
    let mut mgr = WlMonitorManager::new();
    announce(&mut mgr, 10, "DP-1", &[(11, 1920, 1080, 60000, true)]);
    head(&mut mgr, 10, HeadEvent::Make("Acme".to_string()));
    head(&mut mgr, 10, HeadEvent::Model("X1".to_string()));
    head(&mut mgr, 10, HeadEvent::SerialNumber("SN-9".to_string()));
    let m = mgr.monitors()[0].snapshot();
    assert_eq!(m.make, "Acme");
    assert_eq!(m.model, "X1");
    assert_eq!(m.serial_number, "SN-9");
    assert_eq!(m.modes, mgr.monitors()[0].modes);
}

#[test]
fn retired_mode_leaves_its_head() {
    let mut mgr = WlMonitorManager::new();
    announce(&mut mgr, 10, "DP-1", &[(11, 1920, 1080, 60000, true), (12, 1280, 720, 60000, false), (13, 800, 600, 60000, false)]);
    assert!(feed(&mut mgr, ProtocolEvent::Mode(12, ModeEvent::Finished)).is_empty());
    let ids: Vec<u32> = mgr.monitors()[0].modes.iter().map(|m| m.mode_id).collect();
    assert_eq!(ids, vec![11, 13]);
    assert_eq!(mgr.mode_owner(12), None);
    assert_eq!(mgr.mode_owner(13), Some(10));
    // later events for the retired mode change nothing
    assert!(feed(&mut mgr, ProtocolEvent::Mode(12, ModeEvent::Size(1, 1))).is_empty());
    assert_eq!(mgr.monitors()[0].modes.len(), 2);
    // an unknown mode retiring is ignored
    assert!(feed(&mut mgr, ProtocolEvent::Mode(99, ModeEvent::Finished)).is_empty());
    assert_eq!(mgr.monitors()[0].modes.len(), 2);
}

#[test]
fn end_to_end_two_heads_then_toggle() {
    let mut mgr = WlMonitorManager::new();
    assert!(mgr.on_registry_global("zwlr_output_manager_v1"));
    announce(&mut mgr, 10, "DP-1", &[(11, 1920, 1080, 60000, true)]);
    announce(&mut mgr, 20, "HDMI-1", &[(21, 1280, 720, 60000, true)]);
    let monitors = initial_state(feed(&mut mgr, ProtocolEvent::Done(7)));
    assert_eq!(monitors.len(), 2);
    assert_eq!(monitors[0].resolution(), WlResolution { width: 1920, height: 1080 });
    assert_eq!(monitors[1].resolution(), WlResolution { width: 1280, height: 720 });
    let action = WlMonitorAction::Toggle { name: "DP-1".to_string(), mode: None, position: None };
    let plan = mgr.handle_action(&action).unwrap();
    assert_eq!(plan.failure, None);
    assert_eq!(plan.heads[0], HeadConfig::Disable { head_id: 10 });
    assert_eq!(
        plan.heads[1],
        HeadConfig::Enable {
            head_id: 20,
            mode_id: Some(21),
            position: WlPosition { x: 0, y: 0 },
            transform: WlTransform::Normal,
            scale: WlScale { bits: 1.0f64.to_bits() },
        }
    );
    // the server accepts and reports the new state
    assert!(feed(&mut mgr, ProtocolEvent::Configuration(ConfigResult::Succeeded)).is_empty());
    assert_eq!(mgr.take_config_result(), Some(ConfigResult::Succeeded));
    head(&mut mgr, 10, HeadEvent::Enabled(0));
    let out = feed(&mut mgr, ProtocolEvent::Done(8));
    assert_eq!(out.len(), 1);
    match &out[0] {
        WlMonitorEvent::Changed(m) => {
            assert_eq!(m.name, "DP-1");
            assert!(!m.enabled);
        },
        other => panic!("expected a change, got {:?}", other),
    }
    assert!(mgr.monitors()[1].enabled);
}

#[test]
fn head_finished_before_the_first_snapshot_is_never_reported() {
    let mut mgr = WlMonitorManager::new();
    announce(&mut mgr, 10, "DP-1", &[(11, 1920, 1080, 60000, true)]);
    announce(&mut mgr, 20, "HDMI-1", &[(21, 1280, 720, 60000, true)]);
    assert!(feed(&mut mgr, ProtocolEvent::Head(10, HeadEvent::Finished)).is_empty());
    assert_eq!(mgr.mode_owner(11), None);
    let monitors = initial_state(feed(&mut mgr, ProtocolEvent::Done(1)));
    assert_eq!(monitors.len(), 1);
    assert_eq!(monitors[0].name, "HDMI-1");
}

fn changes_in_order(reversed: bool) -> Vec<(u32, WlPosition, WlTransform)> {
    let mut mgr = WlMonitorManager::new();
    announce(&mut mgr, 10, "DP-1", &[(11, 1920, 1080, 60000, true)]);
    announce(&mut mgr, 20, "HDMI-1", &[(21, 1280, 720, 60000, true)]);
    feed(&mut mgr, ProtocolEvent::Done(1));
    let mut events = vec![
        ProtocolEvent::Head(20, HeadEvent::Position(1920, 0)),
        ProtocolEvent::Head(10, HeadEvent::Transform(WlTransform::Rotate180)),
        ProtocolEvent::Mode(11, ModeEvent::Refresh(75000)),
    ];
    if reversed {
        events.reverse();
    }
    for ev in events {
        feed(&mut mgr, ev);
    }
    feed(&mut mgr, ProtocolEvent::Done(2))
        .into_iter()
        .map(|n| match n {
            WlMonitorEvent::Changed(m) => (m.head_id, m.position, m.transform),
            other => panic!("expected a change, got {:?}", other),
        })
        .collect()
}

#[test]
fn reordered_events_give_the_same_changes() {
    let a = changes_in_order(false);
    let b = changes_in_order(true);
    assert_eq!(a, b);
    assert_eq!(
        a,
        vec![
            (10, WlPosition { x: 0, y: 0 }, WlTransform::Rotate180),
            (20, WlPosition { x: 1920, y: 0 }, WlTransform::Normal),
        ]
    );
}
