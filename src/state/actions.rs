//! The configuration transaction builder: one action becomes an instruction
//! for every known head, with the reason when the action cannot be carried out.

use vstd::prelude::*;
use vstd::string::*;

use super::{ManagerView, WlMonitorManager};
use crate::events::{ConfigResult, WlMonitorEvent};
use crate::monitor::{
    find_mode, first_mode, ModeQuery, MonitorView, WlMonitor, WlPosition, WlScale, WlTransform,
};

verus! {

/// The kind of action that failed.
#[derive(Clone, Copy, Debug, PartialEq, Eq, Structural)]
pub enum ActionKind {
    Toggle,
    ConfigApply,
    SwitchMode,
    SetScale,
    SetTransform,
    SetPosition,
}

/// A reconfiguration request from the controller.
#[derive(Debug)]
pub enum WlMonitorAction {
    /// Switch a head on or off. When switching on, an explicit mode given as
    /// (width, height, refresh rate in hertz) and an explicit position are
    /// used if they apply.
    Toggle { name: String, mode: Option<(i32, i32, i32)>, position: Option<(i32, i32)> },
    SwitchMode { name: String, width: i32, height: i32, refresh_rate: i32 },
    SetScale { name: String, scale: WlScale },
    SetTransform { name: String, transform: WlTransform },
    SetPosition { name: String, x: i32, y: i32 },
}

/// The instruction for one head in a configuration transaction.
#[derive(Clone, Copy, Debug, PartialEq, Eq, Structural)]
pub enum HeadConfig {
    /// Enable the head; `mode_id` absent leaves the mode to the server.
    Enable {
        head_id: u32,
        mode_id: Option<u32>,
        position: WlPosition,
        transform: WlTransform,
        scale: WlScale,
    },
    Disable { head_id: u32 },
}

/// Why an action could not be carried out.
#[derive(Clone, Copy, Debug, PartialEq, Eq, Structural)]
pub enum ActionFailure {
    /// No snapshot serial has been received yet.
    NoSerial,
    /// The output manager global has not been bound.
    NoManager,
    /// The head to switch on advertises no mode at all.
    NoModeAvailable,
    /// The head advertises no mode with this width, height and refresh rate.
    NoMatchingMode { width: i32, height: i32, refresh_rate: i32 },
    /// The scale is not finite and greater than zero.
    InvalidScale,
    /// The head is disabled and cannot take the change.
    HeadDisabled,
    /// The server refused the configuration.
    Rejected,
    /// The server cancelled the configuration.
    Cancelled,
}

/// A configuration transaction ready to submit: the serial it was built
/// against and one instruction per known head, in table order.
#[derive(Debug)]
pub struct ConfigPlan {
    pub kind: ActionKind,
    pub serial: u32,
    pub heads: Vec<HeadConfig>,
    pub failure: Option<ActionFailure>,
}

/// Re-asserts a head's current configuration unchanged.
pub open spec fn preserve(h: MonitorView) -> HeadConfig {
    if h.enabled {
        HeadConfig::Enable {
            head_id: h.head_id,
            mode_id: h.current_mode,
            position: h.position,
            transform: h.transform,
            scale: h.scale,
        }
    } else {
        HeadConfig::Disable { head_id: h.head_id }
    }
}

/// Every head preserved.
pub open spec fn preserve_all(heads: Seq<MonitorView>) -> Seq<HeadConfig> {
    Seq::new(heads.len(), |k: int| preserve(heads[k]))
}

/// The first index at or after `from` of a head with this name.
pub open spec fn head_named(heads: Seq<MonitorView>, name: Seq<char>, from: int) -> Option<int>
    decreases heads.len() - from,
{
    if from < 0 || from >= heads.len() {
        None
    } else if heads[from].name == name {
        Some(from)
    } else {
        head_named(heads, name, from + 1)
    }
}

/// Every head preserved but the target, which gets what `target` yields.
pub open spec fn configs_for(
    heads: Seq<MonitorView>,
    name: Seq<char>,
    target: spec_fn(MonitorView) -> HeadConfig,
) -> Seq<HeadConfig> {
    match head_named(heads, name, 0) {
        Some(i) => preserve_all(heads).update(i, target(heads[i])),
        None => preserve_all(heads),
    }
}

/// The failure that the target head gives, if there is a target.
pub open spec fn failure_for(
    heads: Seq<MonitorView>,
    name: Seq<char>,
    target: spec_fn(MonitorView) -> Option<ActionFailure>,
) -> Option<ActionFailure> {
    match head_named(heads, name, 0) {
        Some(i) => target(heads[i]),
        None => None,
    }
}

/// The index of the mode a toggle switches a disabled head on with: the
/// explicit mode if advertised, else the mode last used if still advertised,
/// else the preferred mode, else the first one.
pub open spec fn resolve_mode(h: MonitorView, mode: Option<(i32, i32, i32)>) -> Option<int> {
    let explicit = match mode {
        Some((w, ht, hz)) => first_mode(h.modes, ModeQuery::Exact(w, ht, hz), 0),
        None => None,
    };
    let last = match h.last_mode {
        Some(id) => first_mode(h.modes, ModeQuery::Id(id), 0),
        None => None,
    };
    let preferred = first_mode(h.modes, ModeQuery::Preferred, 0);
    if explicit is Some {
        explicit
    } else if last is Some {
        last
    } else if preferred is Some {
        preferred
    } else if h.modes.len() > 0 {
        Some(0)
    } else {
        None
    }
}

/// The instruction a toggle gives its target head.
pub open spec fn toggle_config(
    h: MonitorView,
    mode: Option<(i32, i32, i32)>,
    position: Option<(i32, i32)>,
) -> HeadConfig {
    if h.enabled {
        HeadConfig::Disable { head_id: h.head_id }
    } else {
        match resolve_mode(h, mode) {
            Some(j) => HeadConfig::Enable {
                head_id: h.head_id,
                mode_id: Some(h.modes[j].mode_id),
                position: match position {
                    Some((x, y)) => WlPosition { x, y },
                    None => h.position,
                },
                transform: h.transform,
                scale: h.scale,
            },
            None => preserve(h),
        }
    }
}

pub open spec fn toggle_failure(h: MonitorView, mode: Option<(i32, i32, i32)>) -> Option<
    ActionFailure,
> {
    if !h.enabled && resolve_mode(h, mode) is None {
        Some(ActionFailure::NoModeAvailable)
    } else {
        None
    }
}

/// A toggle that switches its target off remembers the mode it had.
pub open spec fn after_toggle(v: ManagerView, name: Seq<char>) -> ManagerView {
    match head_named(v.heads, name, 0) {
        Some(i) => {
            let h = v.heads[i];
            if h.enabled && h.current_mode is Some {
                ManagerView {
                    heads: v.heads.update(i, MonitorView { last_mode: h.current_mode, ..h }),
                    ..v
                }
            } else {
                v
            }
        },
        None => v,
    }
}

pub open spec fn switch_config(h: MonitorView, w: i32, ht: i32, hz: i32) -> HeadConfig {
    match first_mode(h.modes, ModeQuery::Exact(w, ht, hz), 0) {
        Some(j) => HeadConfig::Enable {
            head_id: h.head_id,
            mode_id: Some(h.modes[j].mode_id),
            position: h.position,
            transform: h.transform,
            scale: h.scale,
        },
        None => preserve(h),
    }
}

pub open spec fn switch_failure(h: MonitorView, w: i32, ht: i32, hz: i32) -> Option<ActionFailure> {
    if first_mode(h.modes, ModeQuery::Exact(w, ht, hz), 0) is None {
        Some(ActionFailure::NoMatchingMode { width: w, height: ht, refresh_rate: hz })
    } else {
        None
    }
}

/// The instruction for an enabled head that keeps everything but what
/// `position`, `transform` and `scale` give.
pub open spec fn reconfigure(
    h: MonitorView,
    position: WlPosition,
    transform: WlTransform,
    scale: WlScale,
) -> HeadConfig {
    if h.enabled {
        HeadConfig::Enable {
            head_id: h.head_id,
            mode_id: h.current_mode,
            position,
            transform,
            scale,
        }
    } else {
        preserve(h)
    }
}

pub open spec fn disabled_failure(h: MonitorView) -> Option<ActionFailure> {
    if h.enabled {
        None
    } else {
        Some(ActionFailure::HeadDisabled)
    }
}

/// The decimal rendering of a natural number.
pub open spec fn digits(n: nat) -> Seq<char>
    decreases n,
{
    if n < 10 {
        seq![digit_char(n)]
    } else {
        digits(n / 10) + seq![digit_char(n % 10)]
    }
}

pub open spec fn digit_char(d: nat) -> char {
    if d == 0 {
        '0'
    } else if d == 1 {
        '1'
    } else if d == 2 {
        '2'
    } else if d == 3 {
        '3'
    } else if d == 4 {
        '4'
    } else if d == 5 {
        '5'
    } else if d == 6 {
        '6'
    } else if d == 7 {
        '7'
    } else if d == 8 {
        '8'
    } else {
        '9'
    }
}

/// The decimal rendering of an integer, with a leading minus when negative.
pub open spec fn decimal(n: int) -> Seq<char> {
    if n < 0 {
        seq!['-'] + digits((-n) as nat)
    } else {
        digits(n as nat)
    }
}

fn digit_str(d: u32) -> (r: &'static str)
    requires
        d < 10,
    ensures
        r@ == seq![digit_char(d as nat)],
{
    proof {
        reveal_strlit("0");
        reveal_strlit("1");
        reveal_strlit("2");
        reveal_strlit("3");
        reveal_strlit("4");
        reveal_strlit("5");
        reveal_strlit("6");
        reveal_strlit("7");
        reveal_strlit("8");
        reveal_strlit("9");
    }
    if d == 0 {
        "0"
    } else if d == 1 {
        "1"
    } else if d == 2 {
        "2"
    } else if d == 3 {
        "3"
    } else if d == 4 {
        "4"
    } else if d == 5 {
        "5"
    } else if d == 6 {
        "6"
    } else if d == 7 {
        "7"
    } else if d == 8 {
        "8"
    } else {
        "9"
    }
}

fn push_digits(s: &mut String, n: u32)
    ensures
        final(s)@ == old(s)@ + digits(n as nat),
    decreases n,
{
    if n >= 10 {
        push_digits(s, n / 10);
    }
    s.append(digit_str(n % 10));
    proof {
        if n >= 10 {
            assert(digits(n as nat) == digits((n / 10) as nat) + seq![digit_char((n % 10) as nat)]);
        }
    }
}

/// Appends the decimal rendering of `n`.
pub fn push_decimal(s: &mut String, n: i32)
    ensures
        final(s)@ == old(s)@ + decimal(n as int),
{
    if n < 0 {
        proof {
            reveal_strlit("-");
        }
        s.append("-");
        let m: i64 = -(n as i64);
        push_digits(s, m as u32);
        assert(final(s)@ =~= old(s)@ + decimal(n as int));
    } else {
        push_digits(s, n as u32);
    }
}

/// The word for the attribute an action changes.
pub open spec fn attribute_word(kind: ActionKind) -> Seq<char> {
    match kind {
        ActionKind::SetScale => "scale"@,
        ActionKind::SetTransform => "transform"@,
        ActionKind::SetPosition => "position"@,
        _ => "configuration"@,
    }
}

/// The human-readable reason for a failure of an action of kind `kind` on
/// the head named `name`.
pub open spec fn reason_text(kind: ActionKind, f: ActionFailure, name: Seq<char>) -> Seq<char> {
    match f {
        ActionFailure::NoSerial => "no serial available"@,
        ActionFailure::NoManager => "no output manager available"@,
        ActionFailure::NoModeAvailable => "No valid mode available for monitor '"@ + name + "'"@,
        ActionFailure::NoMatchingMode { width, height, refresh_rate } => "No matching mode "@
            + decimal(width as int) + "x"@ + decimal(height as int) + "@"@ + decimal(
            refresh_rate as int,
        ) + "Hz for monitor '"@ + name + "'"@,
        ActionFailure::InvalidScale => "Invalid scale value: must be finite and > 0"@,
        ActionFailure::HeadDisabled => "Monitor '"@ + name + "' is disabled, cannot set "@
            + attribute_word(kind),
        ActionFailure::Rejected => "the server rejected the configuration"@,
        ActionFailure::Cancelled => "the server cancelled the configuration"@,
    }
}

fn attribute_word_str(kind: ActionKind) -> (r: &'static str)
    ensures
        r@ == attribute_word(kind),
{
    match kind {
        ActionKind::SetScale => "scale",
        ActionKind::SetTransform => "transform",
        ActionKind::SetPosition => "position",
        _ => "configuration",
    }
}

/// Renders the reason for a failure as text.
pub fn failure_reason(kind: ActionKind, f: ActionFailure, name: &str) -> (r: String)
    ensures
        r@ == reason_text(kind, f, name@),
{
    match f {
        ActionFailure::NoSerial => String::from_str("no serial available"),
        ActionFailure::NoManager => String::from_str("no output manager available"),
        ActionFailure::NoModeAvailable => {
            let mut s = String::from_str("No valid mode available for monitor '");
            s.append(name);
            s.append("'");
            s
        },
        ActionFailure::NoMatchingMode { width, height, refresh_rate } => {
            let mut s = String::from_str("No matching mode ");
            push_decimal(&mut s, width);
            s.append("x");
            push_decimal(&mut s, height);
            s.append("@");
            push_decimal(&mut s, refresh_rate);
            s.append("Hz for monitor '");
            s.append(name);
            s.append("'");
            s
        },
        ActionFailure::InvalidScale => String::from_str("Invalid scale value: must be finite and > 0"),
        ActionFailure::HeadDisabled => {
            let mut s = String::from_str("Monitor '");
            s.append(name);
            s.append("' is disabled, cannot set ");
            s.append(attribute_word_str(kind));
            s
        },
        ActionFailure::Rejected => String::from_str("the server rejected the configuration"),
        ActionFailure::Cancelled => String::from_str("the server cancelled the configuration"),
    }
}

/// The instruction that re-asserts this head's configuration unchanged.
pub fn preserve_head(m: &WlMonitor) -> (r: HeadConfig)
    ensures
        r == preserve(m@),
{
    if m.enabled {
        HeadConfig::Enable {
            head_id: m.head_id,
            mode_id: m.current_mode,
            position: m.position,
            transform: m.transform,
            scale: m.scale,
        }
    } else {
        HeadConfig::Disable { head_id: m.head_id }
    }
}

fn resolve_toggle_mode(m: &WlMonitor, mode: Option<(i32, i32, i32)>) -> (r: Option<usize>)
    ensures
        match r {
            Some(j) => j < m.modes@.len() && resolve_mode(m@, mode) == Some(j as int),
            None => resolve_mode(m@, mode) is None,
        },
{
    let explicit = match mode {
        Some((w, ht, hz)) => find_mode(&m.modes, ModeQuery::Exact(w, ht, hz)),
        None => None,
    };
    if explicit.is_some() {
        return explicit;
    }
    let last = match m.last_mode {
        Some(id) => find_mode(&m.modes, ModeQuery::Id(id)),
        None => None,
    };
    if last.is_some() {
        return last;
    }
    let preferred = find_mode(&m.modes, ModeQuery::Preferred);
    if preferred.is_some() {
        return preferred;
    }
    if m.modes.len() > 0 {
        Some(0)
    } else {
        None
    }
}

/// The instruction and failure of a toggle on its target head.
fn toggle_target(m: &WlMonitor, mode: Option<(i32, i32, i32)>, position: Option<(i32, i32)>) -> (r: (
    HeadConfig,
    Option<ActionFailure>,
))
    ensures
        r.0 == toggle_config(m@, mode, position),
        r.1 == toggle_failure(m@, mode),
{
    if m.enabled {
        return (HeadConfig::Disable { head_id: m.head_id }, None);
    }
    match resolve_toggle_mode(m, mode) {
        Some(j) => {
            let pos = match position {
                Some((x, y)) => WlPosition { x, y },
                None => m.position,
            };
            (
                HeadConfig::Enable {
                    head_id: m.head_id,
                    mode_id: Some(m.modes[j].mode_id),
                    position: pos,
                    transform: m.transform,
                    scale: m.scale,
                },
                None,
            )
        },
        None => (preserve_head(m), Some(ActionFailure::NoModeAvailable)),
    }
}

/// The instruction for an enabled head with a new position, transform and
/// scale; a disabled head is preserved and the failure says so.
fn reconfigure_target(m: &WlMonitor, position: WlPosition, transform: WlTransform, scale: WlScale) -> (r: (
    HeadConfig,
    Option<ActionFailure>,
))
    ensures
        r.0 == reconfigure(m@, position, transform, scale),
        r.1 == disabled_failure(m@),
{
    if m.enabled {
        (
            HeadConfig::Enable {
                head_id: m.head_id,
                mode_id: m.current_mode,
                position,
                transform,
                scale,
            },
            None,
        )
    } else {
        (preserve_head(m), Some(ActionFailure::HeadDisabled))
    }
}

/// The kind of an action.
pub open spec fn kind_of(a: WlMonitorAction) -> ActionKind {
    match a {
        WlMonitorAction::Toggle { .. } => ActionKind::Toggle,
        WlMonitorAction::SwitchMode { .. } => ActionKind::SwitchMode,
        WlMonitorAction::SetScale { .. } => ActionKind::SetScale,
        WlMonitorAction::SetTransform { .. } => ActionKind::SetTransform,
        WlMonitorAction::SetPosition { .. } => ActionKind::SetPosition,
    }
}

/// The name of the head an action is for.
pub open spec fn target_name(a: WlMonitorAction) -> Seq<char> {
    match a {
        WlMonitorAction::Toggle { name, .. } => name@,
        WlMonitorAction::SwitchMode { name, .. } => name@,
        WlMonitorAction::SetScale { name, .. } => name@,
        WlMonitorAction::SetTransform { name, .. } => name@,
        WlMonitorAction::SetPosition { name, .. } => name@,
    }
}

/// The instructions an action gives, against the heads as they stand.
pub open spec fn action_configs(heads: Seq<MonitorView>, a: WlMonitorAction) -> Seq<HeadConfig> {
    match a {
        WlMonitorAction::Toggle { name, mode, position } => configs_for(
            heads,
            name@,
            |h: MonitorView| toggle_config(h, mode, position),
        ),
        WlMonitorAction::SwitchMode { name, width, height, refresh_rate } => configs_for(
            heads,
            name@,
            |h: MonitorView| switch_config(h, width, height, refresh_rate),
        ),
        WlMonitorAction::SetScale { name, scale } => if scale.valid() {
            configs_for(heads, name@, |h: MonitorView| reconfigure(h, h.position, h.transform, scale))
        } else {
            preserve_all(heads)
        },
        WlMonitorAction::SetTransform { name, transform } => configs_for(
            heads,
            name@,
            |h: MonitorView| reconfigure(h, h.position, transform, h.scale),
        ),
        WlMonitorAction::SetPosition { name, x, y } => configs_for(
            heads,
            name@,
            |h: MonitorView| reconfigure(h, WlPosition { x, y }, h.transform, h.scale),
        ),
    }
}

/// The failure an action meets, against the heads as they stand.
pub open spec fn action_failure(heads: Seq<MonitorView>, a: WlMonitorAction) -> Option<ActionFailure> {
    match a {
        WlMonitorAction::Toggle { name, mode, .. } => failure_for(
            heads,
            name@,
            |h: MonitorView| toggle_failure(h, mode),
        ),
        WlMonitorAction::SwitchMode { name, width, height, refresh_rate } => failure_for(
            heads,
            name@,
            |h: MonitorView| switch_failure(h, width, height, refresh_rate),
        ),
        WlMonitorAction::SetScale { name, scale } => if scale.valid() {
            failure_for(heads, name@, |h: MonitorView| disabled_failure(h))
        } else {
            Some(ActionFailure::InvalidScale)
        },
        WlMonitorAction::SetTransform { name, .. } => failure_for(
            heads,
            name@,
            |h: MonitorView| disabled_failure(h),
        ),
        WlMonitorAction::SetPosition { name, .. } => failure_for(
            heads,
            name@,
            |h: MonitorView| disabled_failure(h),
        ),
    }
}

/// The state after an action was planned.
pub open spec fn after_action(v: ManagerView, a: WlMonitorAction) -> ManagerView {
    match a {
        WlMonitorAction::Toggle { name, .. } => after_toggle(v, name@),
        _ => v,
    }
}

/// The notification for a failed action.
pub fn action_failed(action: &WlMonitorAction, f: ActionFailure) -> (r: WlMonitorEvent)
    ensures
        r matches WlMonitorEvent::ActionFailed { action: k, reason } && k == kind_of(*action)
            && reason@ == reason_text(kind_of(*action), f, target_name(*action)),
{
    let (kind, name) = match action {
        WlMonitorAction::Toggle { name, .. } => (ActionKind::Toggle, name),
        WlMonitorAction::SwitchMode { name, .. } => (ActionKind::SwitchMode, name),
        WlMonitorAction::SetScale { name, .. } => (ActionKind::SetScale, name),
        WlMonitorAction::SetTransform { name, .. } => (ActionKind::SetTransform, name),
        WlMonitorAction::SetPosition { name, .. } => (ActionKind::SetPosition, name),
    };
    WlMonitorEvent::ActionFailed { action: kind, reason: failure_reason(kind, f, name.as_str()) }
}

/// The notification for the server's answer to a submitted configuration:
/// none on success.
pub fn result_event(r: ConfigResult) -> (e: Option<WlMonitorEvent>)
    ensures
        match r {
            ConfigResult::Succeeded => e is None,
            ConfigResult::Failed => e matches Some(WlMonitorEvent::ActionFailed { action, reason })
                && action == ActionKind::ConfigApply && reason@ == reason_text(
                ActionKind::ConfigApply,
                ActionFailure::Rejected,
                Seq::empty(),
            ),
            ConfigResult::Cancelled => e matches Some(WlMonitorEvent::ActionFailed { action, reason })
                && action == ActionKind::ConfigApply && reason@ == reason_text(
                ActionKind::ConfigApply,
                ActionFailure::Cancelled,
                Seq::empty(),
            ),
        },
{
    match r {
        ConfigResult::Succeeded => None,
        ConfigResult::Failed => Some(
            WlMonitorEvent::ActionFailed {
                action: ActionKind::ConfigApply,
                reason: failure_reason(ActionKind::ConfigApply, ActionFailure::Rejected, ""),
            },
        ),
        ConfigResult::Cancelled => Some(
            WlMonitorEvent::ActionFailed {
                action: ActionKind::ConfigApply,
                reason: failure_reason(ActionKind::ConfigApply, ActionFailure::Cancelled, ""),
            },
        ),
    }
}

impl WlMonitorManager {
    /// The index of the first head with this name.
    fn find_named(&self, name: &String) -> (r: Option<usize>)
        ensures
            r matches Some(i) ==> i < self@.heads.len() && head_named(self@.heads, name@, 0) == Some(
                i as int,
            ),
            r is None ==> head_named(self@.heads, name@, 0) is None,
    {
        let mut i: usize = 0;
        while i < self.monitors.len()
            invariant
                i <= self.monitors.len(),
                self@.heads.len() == self.monitors@.len(),
                head_named(self@.heads, name@, 0) == head_named(self@.heads, name@, i as int),
            decreases self.monitors.len() - i,
        {
            assert(self@.heads[i as int] == self.monitors@[i as int]@);
            if self.monitors[i].name == *name {
                return Some(i);
            }
            i = i + 1;
        }
        None
    }

    /// Every head preserved.
    fn preserve_all_heads(&self) -> (r: Vec<HeadConfig>)
        ensures
            r@ == preserve_all(self@.heads),
    {
        let mut r: Vec<HeadConfig> = Vec::new();
        let mut k: usize = 0;
        while k < self.monitors.len()
            invariant
                k <= self.monitors.len(),
                self@.heads.len() == self.monitors@.len(),
                r@.len() == k,
                forall|q: int| 0 <= q < k ==> r@[q] == preserve(self@.heads[q]),
            decreases self.monitors.len() - k,
        {
            assert(self@.heads[k as int] == self.monitors@[k as int]@);
            r.push(preserve_head(&self.monitors[k]));
            k = k + 1;
        }
        assert(r@ =~= preserve_all(self@.heads));
        r
    }

    /// Toggle: the named head is switched off if enabled, remembering its
    /// mode, and otherwise switched on with the mode and position that
    /// [`resolve_mode`] and the explicit position give.
    pub fn configure_toggle(
        &mut self,
        name: &String,
        mode: Option<(i32, i32, i32)>,
        position: Option<(i32, i32)>,
    ) -> (r: (Vec<HeadConfig>, Option<ActionFailure>))
        requires
            old(self).wf(),
        ensures
            final(self).wf(),
            final(self)@ == after_toggle(old(self)@, name@),
            r.0@ == configs_for(old(self)@.heads, name@, |h: MonitorView| toggle_config(h, mode, position)),
            r.1 == failure_for(old(self)@.heads, name@, |h: MonitorView| toggle_failure(h, mode)),
    {
        let ghost v = self@;
        let mut configs = self.preserve_all_heads();
        match self.find_named(name) {
            None => (configs, None),
            Some(i) => {
                assert(v.heads[i as int] == self.monitors@[i as int]@);
                let (c, f) = toggle_target(&self.monitors[i], mode, position);
                configs.set(i, c);
                if self.monitors[i].enabled {
                    match self.monitors[i].current_mode {
                        Some(cm) => {
                            self.monitors[i].last_mode = Some(cm);
                            proof {
                                let h = v.heads[i as int];
                                assert(self@.heads =~= v.heads.update(
                                    i as int,
                                    MonitorView { last_mode: h.current_mode, ..h },
                                ));
                                assert(self@ =~= after_toggle(v, name@));
                                assert(super::same_shape(self@.heads, v.heads));
                                super::lemma_same_shape_wf(v, self@);
                            }
                        },
                        None => {},
                    }
                }
                (configs, f)
            },
        }
    }

    /// SwitchMode: the named head is enabled with the advertised mode that
    /// matches width, height and refresh rate exactly; without one the head
    /// is preserved and the failure names the requested mode.
    pub fn configure_switch_mode(&self, name: &String, width: i32, height: i32, refresh_rate: i32) -> (r: (
        Vec<HeadConfig>,
        Option<ActionFailure>,
    ))
        ensures
            r.0@ == configs_for(
                self@.heads,
                name@,
                |h: MonitorView| switch_config(h, width, height, refresh_rate),
            ),
            r.1 == failure_for(
                self@.heads,
                name@,
                |h: MonitorView| switch_failure(h, width, height, refresh_rate),
            ),
    {
        let mut configs = self.preserve_all_heads();
        match self.find_named(name) {
            None => (configs, None),
            Some(i) => {
                let m = &self.monitors[i];
                assert(self@.heads[i as int] == m@);
                match find_mode(&m.modes, ModeQuery::Exact(width, height, refresh_rate)) {
                    Some(j) => {
                        configs.set(
                            i,
                            HeadConfig::Enable {
                                head_id: m.head_id,
                                mode_id: Some(m.modes[j].mode_id),
                                position: m.position,
                                transform: m.transform,
                                scale: m.scale,
                            },
                        );
                        (configs, None)
                    },
                    None => {
                        configs.set(i, preserve_head(m));
                        (
                            configs,
                            Some(
                                ActionFailure::NoMatchingMode { width, height, refresh_rate },
                            ),
                        )
                    },
                }
            },
        }
    }

    /// SetScale: an invalid scale preserves every head and fails; a valid one
    /// goes to the named head if it is enabled.
    pub fn configure_set_scale(&self, name: &String, scale: WlScale) -> (r: (
        Vec<HeadConfig>,
        Option<ActionFailure>,
    ))
        ensures
            !scale.valid() ==> r.0@ == preserve_all(self@.heads) && r.1 == Some(
                ActionFailure::InvalidScale,
            ),
            scale.valid() ==> r.0@ == configs_for(
                self@.heads,
                name@,
                |h: MonitorView| reconfigure(h, h.position, h.transform, scale),
            ) && r.1 == failure_for(self@.heads, name@, |h: MonitorView| disabled_failure(h)),
    {
        let mut configs = self.preserve_all_heads();
        if !scale.is_valid() {
            return (configs, Some(ActionFailure::InvalidScale));
        }
        match self.find_named(name) {
            None => (configs, None),
            Some(i) => {
                let m = &self.monitors[i];
                assert(self@.heads[i as int] == m@);
                let (c, f) = reconfigure_target(m, m.position, m.transform, scale);
                configs.set(i, c);
                (configs, f)
            },
        }
    }

    /// SetTransform: the new transform goes to the named head if it is
    /// enabled; everything else is carried over.
    pub fn configure_set_transform(&self, name: &String, transform: WlTransform) -> (r: (
        Vec<HeadConfig>,
        Option<ActionFailure>,
    ))
        ensures
            r.0@ == configs_for(
                self@.heads,
                name@,
                |h: MonitorView| reconfigure(h, h.position, transform, h.scale),
            ),
            r.1 == failure_for(self@.heads, name@, |h: MonitorView| disabled_failure(h)),
    {
        let mut configs = self.preserve_all_heads();
        match self.find_named(name) {
            None => (configs, None),
            Some(i) => {
                let m = &self.monitors[i];
                assert(self@.heads[i as int] == m@);
                let (c, f) = reconfigure_target(m, m.position, transform, m.scale);
                configs.set(i, c);
                (configs, f)
            },
        }
    }

    /// SetPosition: the new position goes to the named head if it is
    /// enabled; everything else is carried over.
    pub fn configure_set_position(&self, name: &String, x: i32, y: i32) -> (r: (
        Vec<HeadConfig>,
        Option<ActionFailure>,
    ))
        ensures
            r.0@ == configs_for(
                self@.heads,
                name@,
                |h: MonitorView| reconfigure(h, WlPosition { x, y }, h.transform, h.scale),
            ),
            r.1 == failure_for(self@.heads, name@, |h: MonitorView| disabled_failure(h)),
    {
        let mut configs = self.preserve_all_heads();
        match self.find_named(name) {
            None => (configs, None),
            Some(i) => {
                let m = &self.monitors[i];
                assert(self@.heads[i as int] == m@);
                let (c, f) = reconfigure_target(m, WlPosition { x, y }, m.transform, m.scale);
                configs.set(i, c);
                (configs, f)
            },
        }
    }

    /// Builds the transaction for one action. Without a snapshot serial or a
    /// bound output manager nothing is built and the state is unchanged. A
    /// result left from an earlier transaction is dropped, so the next one
    /// collected answers this transaction.
    pub fn handle_action(&mut self, action: &WlMonitorAction) -> (r: Result<ConfigPlan, ActionFailure>)
        requires
            old(self).wf(),
        ensures
            final(self).wf(),
            old(self)@.serial is None ==> r == Err::<ConfigPlan, ActionFailure>(
                ActionFailure::NoSerial,
            ) && final(self)@ == old(self)@,
            old(self)@.serial is Some && !old(self)@.manager_bound ==> r == Err::<
                ConfigPlan,
                ActionFailure,
            >(ActionFailure::NoManager) && final(self)@ == old(self)@,
            old(self)@.serial is Some && old(self)@.manager_bound ==> {
                &&& r matches Ok(plan)
                &&& plan.kind == kind_of(*action)
                &&& plan.serial == old(self)@.serial->0
                &&& plan.heads@ == action_configs(old(self)@.heads, *action)
                &&& plan.failure == action_failure(old(self)@.heads, *action)
                &&& final(self)@ == (ManagerView {
                    config_result: None,
                    ..after_action(old(self)@, *action)
                })
            },
    {
        let serial = match self.serial {
            Some(s) => s,
            None => {
                return Err(ActionFailure::NoSerial);
            },
        };
        if !self.manager_bound {
            return Err(ActionFailure::NoManager);
        }
        let (kind, (heads, failure)) = match action {
            WlMonitorAction::Toggle { name, mode, position } => (
                ActionKind::Toggle,
                self.configure_toggle(name, *mode, *position),
            ),
            WlMonitorAction::SwitchMode { name, width, height, refresh_rate } => (
                ActionKind::SwitchMode,
                self.configure_switch_mode(name, *width, *height, *refresh_rate),
            ),
            WlMonitorAction::SetScale { name, scale } => (
                ActionKind::SetScale,
                self.configure_set_scale(name, *scale),
            ),
            WlMonitorAction::SetTransform { name, transform } => (
                ActionKind::SetTransform,
                self.configure_set_transform(name, *transform),
            ),
            WlMonitorAction::SetPosition { name, x, y } => (
                ActionKind::SetPosition,
                self.configure_set_position(name, *x, *y),
            ),
        };
        self.config_result = None;
        Ok(ConfigPlan { kind, serial, heads, failure })
    }
}

} // verus!
