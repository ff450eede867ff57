use wl_monitor_detector::{
    action_failed, failure_reason, preserve_head, result_event, ActionFailure, ActionKind,
    ConfigResult, HeadConfig, HeadEvent, ModeEvent, ProtocolEvent, WlMonitorAction,
    WlMonitorEvent, WlMonitorManager, WlPosition, WlScale, WlTransform,
};

fn head(mgr: &mut WlMonitorManager, id: u32, e: HeadEvent) {
    mgr.handle_event(ProtocolEvent::Head(id, e));
}

/// Announces a head with modes (id, width, height, millihertz, preferred);
/// `current` names the active mode of an enabled head.
fn announce(
    mgr: &mut WlMonitorManager,
    id: u32,
    name: &str,
    modes: &[(u32, i32, i32, i32, bool)],
    current: Option<u32>,
) {
    mgr.handle_event(ProtocolEvent::HeadAnnounced(id));
    head(mgr, id, HeadEvent::Name(name.to_string()));
    for &(mid, w, h, mhz, preferred) in modes {
        head(mgr, id, HeadEvent::Mode(mid));
        mgr.handle_event(ProtocolEvent::Mode(mid, ModeEvent::Size(w, h)));
        mgr.handle_event(ProtocolEvent::Mode(mid, ModeEvent::Refresh(mhz)));
        if preferred {
            mgr.handle_event(ProtocolEvent::Mode(mid, ModeEvent::Preferred));
        }
    }
    if let Some(mid) = current {
        head(mgr, id, HeadEvent::CurrentMode(mid));
        head(mgr, id, HeadEvent::Enabled(1));
    }
}

fn ready(mgr: &mut WlMonitorManager) {
    assert!(mgr.on_registry_global("zwlr_output_manager_v1"));
    mgr.handle_event(ProtocolEvent::Done(42));
}

fn one() -> WlScale {
    WlScale { bits: 1.0f64.to_bits() }
}

fn toggle(name: &str) -> WlMonitorAction {
    WlMonitorAction::Toggle { name: name.to_string(), mode: None, position: None }
}

fn enabled(head_id: u32, mode_id: u32, x: i32, y: i32) -> HeadConfig {
    HeadConfig::Enable {
        head_id,
        mode_id: Some(mode_id),
        position: WlPosition { x, y },
        transform: WlTransform::Normal,
        scale: one(),
    }
}

fn two_heads() -> WlMonitorManager {
    let mut mgr = WlMonitorManager::new();
    announce(&mut mgr, 10, "DP-1", &[(11, 1920, 1080, 60000, true)], Some(11));
    announce(&mut mgr, 20, "HDMI-1", &[(21, 1280, 720, 60000, true)], Some(21));
    ready(&mut mgr);
    mgr
}

#[test]
fn toggle_disables_an_enabled_head_and_preserves_the_other() {
    let mut mgr = two_heads();
    let plan = mgr.handle_action(&toggle("DP-1")).unwrap();
    assert_eq!(plan.kind, ActionKind::Toggle);
    assert_eq!(plan.serial, 42);
    assert_eq!(plan.failure, None);
    assert_eq!(plan.heads, vec![HeadConfig::Disable { head_id: 10 }, enabled(20, 21, 0, 0)]);
    assert_eq!(mgr.monitors()[0].last_mode, Some(11));
}

#[test]
fn toggle_enables_with_the_preferred_mode() {
    let mut mgr = WlMonitorManager::new();
    announce(&mut mgr, 10, "DP-1", &[(11, 1920, 1080, 60000, true), (12, 1280, 720, 60000, false)], None);
    ready(&mut mgr);
    let plan = mgr.handle_action(&toggle("DP-1")).unwrap();
    assert_eq!(plan.failure, None);
    assert_eq!(plan.heads, vec![enabled(10, 11, 0, 0)]);
}

#[test]
fn toggle_reenables_with_the_mode_used_before_disabling() {
    let mut mgr = WlMonitorManager::new();
    announce(&mut mgr, 10, "DP-1", &[(11, 1920, 1080, 60000, true), (12, 1280, 720, 60000, false)], Some(12));
    head(&mut mgr, 10, HeadEvent::Position(30, 40));
    ready(&mut mgr);
    let plan = mgr.handle_action(&toggle("DP-1")).unwrap();
    assert_eq!(plan.heads, vec![HeadConfig::Disable { head_id: 10 }]);
    // the server applies it and reports the head disabled
    head(&mut mgr, 10, HeadEvent::Enabled(0));
    mgr.handle_event(ProtocolEvent::Done(43));
    let plan = mgr.handle_action(&toggle("DP-1")).unwrap();
    assert_eq!(plan.serial, 43);
    assert_eq!(plan.failure, None);
    assert_eq!(plan.heads, vec![enabled(10, 12, 30, 40)]);
}

#[test]
fn toggle_twice_restores_the_configuration() {
    let mut mgr = two_heads();
    head(&mut mgr, 10, HeadEvent::Position(-1920, 0));
    head(&mut mgr, 10, HeadEvent::Transform(WlTransform::Flipped180));
    mgr.handle_event(ProtocolEvent::Done(50));
    let before = mgr.monitors()[0].snapshot();
    let plan = mgr.handle_action(&toggle("DP-1")).unwrap();
    assert_eq!(plan.heads[0], HeadConfig::Disable { head_id: 10 });
    head(&mut mgr, 10, HeadEvent::Enabled(0));
    mgr.handle_event(ProtocolEvent::Done(51));
    let plan = mgr.handle_action(&toggle("DP-1")).unwrap();
    assert_eq!(plan.failure, None);
    assert_eq!(
        plan.heads[0],
        HeadConfig::Enable {
            head_id: 10,
            mode_id: before.current_mode,
            position: before.position,
            transform: before.transform,
            scale: before.scale,
        }
    );
}

#[test]
fn toggle_with_explicit_mode_and_position() {
    let mut mgr = WlMonitorManager::new();
    announce(&mut mgr, 10, "DP-1", &[(11, 1920, 1080, 60000, true), (12, 1280, 720, 59940, false)], None);
    ready(&mut mgr);
    let action = WlMonitorAction::Toggle {
        name: "DP-1".to_string(),
        mode: Some((1280, 720, 59)),
        position: Some((5, 6)),
    };
    let plan = mgr.handle_action(&action).unwrap();
    assert_eq!(plan.heads, vec![enabled(10, 12, 5, 6)]);
    // an explicit mode that is not advertised falls back to the preferred one
    let action = WlMonitorAction::Toggle { name: "DP-1".to_string(), mode: Some((800, 600, 60)), position: None };
    let plan = mgr.handle_action(&action).unwrap();
    assert_eq!(plan.heads, vec![enabled(10, 11, 0, 0)]);
}

#[test]
fn toggle_falls_back_to_the_first_mode() {
    let mut mgr = WlMonitorManager::new();
    announce(&mut mgr, 10, "DP-1", &[(11, 1024, 768, 75000, false), (12, 800, 600, 60000, false)], None);
    ready(&mut mgr);
    let plan = mgr.handle_action(&toggle("DP-1")).unwrap();
    assert_eq!(plan.heads, vec![enabled(10, 11, 0, 0)]);
}

#[test]
fn toggle_of_a_head_without_modes_fails_and_preserves_all() {
    let mut mgr = WlMonitorManager::new();
    announce(&mut mgr, 10, "DP-1", &[], None);
    announce(&mut mgr, 20, "HDMI-1", &[(21, 1280, 720, 60000, true)], Some(21));
    ready(&mut mgr);
    let action = toggle("DP-1");
    let plan = mgr.handle_action(&action).unwrap();
    assert_eq!(plan.failure, Some(ActionFailure::NoModeAvailable));
    assert_eq!(plan.heads, vec![HeadConfig::Disable { head_id: 10 }, enabled(20, 21, 0, 0)]);
    match action_failed(&action, ActionFailure::NoModeAvailable) {
        WlMonitorEvent::ActionFailed { action, reason } => {
            assert_eq!(action, ActionKind::Toggle);
            assert_eq!(reason, "No valid mode available for monitor 'DP-1'");
        },
        other => panic!("expected a failure, got {:?}", other),
    }
}

#[test]
fn action_on_an_unknown_name_preserves_every_head() {
    let mut mgr = two_heads();
    let plan = mgr.handle_action(&toggle("VGA-1")).unwrap();
    assert_eq!(plan.failure, None);
    assert_eq!(plan.heads, vec![enabled(10, 11, 0, 0), enabled(20, 21, 0, 0)]);
}

#[test]
fn switch_mode_to_an_advertised_mode() {
    let mut mgr = WlMonitorManager::new();
    announce(&mut mgr, 10, "DP-1", &[(11, 1920, 1080, 60000, true), (12, 1920, 1080, 144000, false)], Some(11));
    ready(&mut mgr);
    let action = WlMonitorAction::SwitchMode { name: "DP-1".to_string(), width: 1920, height: 1080, refresh_rate: 144 };
    let plan = mgr.handle_action(&action).unwrap();
    assert_eq!(plan.kind, ActionKind::SwitchMode);
    assert_eq!(plan.failure, None);
    assert_eq!(plan.heads, vec![enabled(10, 12, 0, 0)]);
}

#[test]
fn switch_mode_to_an_absent_mode_fails_naming_it() {
    let mut mgr = two_heads();
    let action = WlMonitorAction::SwitchMode { name: "DP-1".to_string(), width: 3840, height: 2160, refresh_rate: 30 };
    let plan = mgr.handle_action(&action).unwrap();
    let failure = ActionFailure::NoMatchingMode { width: 3840, height: 2160, refresh_rate: 30 };
    assert_eq!(plan.failure, Some(failure));
    assert_eq!(plan.heads, vec![enabled(10, 11, 0, 0), enabled(20, 21, 0, 0)]);
    match action_failed(&action, failure) {
        WlMonitorEvent::ActionFailed { action, reason } => {
            assert_eq!(action, ActionKind::SwitchMode);
            assert_eq!(reason, "No matching mode 3840x2160@30Hz for monitor 'DP-1'");
        },
        other => panic!("expected a failure, got {:?}", other),
    }
}

#[test]
fn set_scale_rejects_zero_and_nan() {
    for bad in [0.0f64, f64::NAN, -1.0, f64::INFINITY, -0.0] {
        let mut mgr = two_heads();
        let action = WlMonitorAction::SetScale { name: "DP-1".to_string(), scale: WlScale { bits: bad.to_bits() } };
        let plan = mgr.handle_action(&action).unwrap();
        assert_eq!(plan.kind, ActionKind::SetScale);
        assert_eq!(plan.failure, Some(ActionFailure::InvalidScale));
        assert_eq!(plan.heads, vec![enabled(10, 11, 0, 0), enabled(20, 21, 0, 0)]);
        assert_eq!(
            failure_reason(ActionKind::SetScale, ActionFailure::InvalidScale, "DP-1"),
            "Invalid scale value: must be finite and > 0"
        );
    }
}

#[test]
fn set_scale_on_an_enabled_head() {
    let mut mgr = two_heads();
    let scale = WlScale { bits: 1.5f64.to_bits() };
    let action = WlMonitorAction::SetScale { name: "HDMI-1".to_string(), scale };
    let plan = mgr.handle_action(&action).unwrap();
    assert_eq!(plan.failure, None);
    assert_eq!(
        plan.heads,
        vec![
            enabled(10, 11, 0, 0),
            HeadConfig::Enable {
                head_id: 20,
                mode_id: Some(21),
                position: WlPosition { x: 0, y: 0 },
                transform: WlTransform::Normal,
                scale,
            },
        ]
    );
}

#[test]
fn set_scale_on_a_disabled_head_fails() {
    let mut mgr = WlMonitorManager::new();
    announce(&mut mgr, 10, "DP-1", &[(11, 1920, 1080, 60000, true)], None);
    ready(&mut mgr);
    let action = WlMonitorAction::SetScale { name: "DP-1".to_string(), scale: WlScale { bits: 2.0f64.to_bits() } };
    let plan = mgr.handle_action(&action).unwrap();
    assert_eq!(plan.failure, Some(ActionFailure::HeadDisabled));
    assert_eq!(plan.heads, vec![HeadConfig::Disable { head_id: 10 }]);
    match action_failed(&action, ActionFailure::HeadDisabled) {
        WlMonitorEvent::ActionFailed { action, reason } => {
            assert_eq!(action, ActionKind::SetScale);
            assert_eq!(reason, "Monitor 'DP-1' is disabled, cannot set scale");
        },
        other => panic!("expected a failure, got {:?}", other),
    }
}

#[test]
fn set_transform_and_position() {
    let mut mgr = two_heads();
    let plan = mgr
        .handle_action(&WlMonitorAction::SetTransform { name: "DP-1".to_string(), transform: WlTransform::Rotate270 })
        .unwrap();
    assert_eq!(plan.kind, ActionKind::SetTransform);
    assert_eq!(
        plan.heads[0],
        HeadConfig::Enable {
            head_id: 10,
            mode_id: Some(11),
            position: WlPosition { x: 0, y: 0 },
            transform: WlTransform::Rotate270,
            scale: one(),
        }
    );
    assert_eq!(plan.heads[1], enabled(20, 21, 0, 0));
    let plan = mgr
        .handle_action(&WlMonitorAction::SetPosition { name: "HDMI-1".to_string(), x: 1920, y: -10 })
        .unwrap();
    assert_eq!(plan.kind, ActionKind::SetPosition);
    assert_eq!(plan.heads, vec![enabled(10, 11, 0, 0), enabled(20, 21, 1920, -10)]);
}

#[test]
fn set_transform_and_position_on_a_disabled_head_fail() {
    let mut mgr = WlMonitorManager::new();
    announce(&mut mgr, 10, "DP-1", &[(11, 1920, 1080, 60000, true)], None);
    ready(&mut mgr);
    let a = WlMonitorAction::SetTransform { name: "DP-1".to_string(), transform: WlTransform::Flipped };
    let plan = mgr.handle_action(&a).unwrap();
    assert_eq!(plan.failure, Some(ActionFailure::HeadDisabled));
    assert_eq!(plan.heads, vec![HeadConfig::Disable { head_id: 10 }]);
    assert_eq!(
        failure_reason(ActionKind::SetTransform, ActionFailure::HeadDisabled, "DP-1"),
        "Monitor 'DP-1' is disabled, cannot set transform"
    );
    let a = WlMonitorAction::SetPosition { name: "DP-1".to_string(), x: 1, y: 2 };
    let plan = mgr.handle_action(&a).unwrap();
    assert_eq!(plan.failure, Some(ActionFailure::HeadDisabled));
    assert_eq!(
        failure_reason(ActionKind::SetPosition, ActionFailure::HeadDisabled, "DP-1"),
        "Monitor 'DP-1' is disabled, cannot set position"
    );
}

#[test]
fn actions_need_a_serial_and_a_bound_manager() {
    let mut mgr = WlMonitorManager::new();
    announce(&mut mgr, 10, "DP-1", &[(11, 1920, 1080, 60000, true)], Some(11));
    assert_eq!(mgr.handle_action(&toggle("DP-1")).unwrap_err(), ActionFailure::NoSerial);
    mgr.handle_event(ProtocolEvent::Done(1));
    assert_eq!(mgr.handle_action(&toggle("DP-1")).unwrap_err(), ActionFailure::NoManager);
    assert_eq!(mgr.monitors()[0].last_mode, None);
    match action_failed(&toggle("DP-1"), ActionFailure::NoSerial) {
        WlMonitorEvent::ActionFailed { action, reason } => {
            assert_eq!(action, ActionKind::Toggle);
            assert_eq!(reason, "no serial available");
        },
        other => panic!("expected a failure, got {:?}", other),
    }
}

#[test]
fn server_answers_give_notifications_only_on_failure() {
    assert!(result_event(ConfigResult::Succeeded).is_none());
    match result_event(ConfigResult::Failed) {
        Some(WlMonitorEvent::ActionFailed { action, reason }) => {
            assert_eq!(action, ActionKind::ConfigApply);
            assert_eq!(reason, "the server rejected the configuration");
        },
        other => panic!("expected a failure, got {:?}", other),
    }
    match result_event(ConfigResult::Cancelled) {
        Some(WlMonitorEvent::ActionFailed { action, reason }) => {
            assert_eq!(action, ActionKind::ConfigApply);
            assert_eq!(reason, "the server cancelled the configuration");
        },
        other => panic!("expected a failure, got {:?}", other),
    }
}

#[test]
fn negative_numbers_in_reasons() {
    assert_eq!(
        failure_reason(
            ActionKind::SwitchMode,
            ActionFailure::NoMatchingMode { width: -1, height: 0, refresh_rate: i32::MIN },
            "X"
        ),
        "No matching mode -1x0@-2147483648Hz for monitor 'X'"
    );
}

#[test]
fn preserve_head_reasserts_the_configuration() {
    let mut mgr = two_heads();
    head(&mut mgr, 20, HeadEvent::Enabled(0));
    assert_eq!(preserve_head(&mgr.monitors()[0]), enabled(10, 11, 0, 0));
    assert_eq!(preserve_head(&mgr.monitors()[1]), HeadConfig::Disable { head_id: 20 });
}
