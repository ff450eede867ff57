//! The data model: heads (monitors), the modes they advertise, and the
//! per-field values that the protocol reports for them.

use vstd::prelude::*;

use crate::events::{HeadEvent, ModeEvent};

verus! {

/// A size in pixels.
#[derive(Clone, Copy, Debug, Default, PartialEq, Eq, Structural)]
pub struct WlResolution {
    pub height: i32,
    pub width: i32,
}

/// A point in the global layout coordinate space.
#[derive(Clone, Copy, Debug, Default, PartialEq, Eq, Structural)]
pub struct WlPosition {
    pub x: i32,
    pub y: i32,
}

/// The resolution of a monitor, under the name the detector's API gives it.
pub type WlMonitorResolution = WlResolution;

/// The position of a monitor, under the name the detector's API gives it.
pub type WlMonitorPosition = WlPosition;

/// Orientation of a head, as the `wl_output.transform` enumeration defines it.
#[derive(Clone, Copy, Debug, PartialEq, Eq, Structural)]
pub enum WlTransform {
    Normal,
    Rotate90,
    Rotate180,
    Rotate270,
    Flipped,
    Flipped90,
    Flipped180,
    Flipped270,
}

/// The wire value of each transform.
pub open spec fn transform_code(t: WlTransform) -> u32 {
    match t {
        WlTransform::Normal => 0,
        WlTransform::Rotate90 => 1,
        WlTransform::Rotate180 => 2,
        WlTransform::Rotate270 => 3,
        WlTransform::Flipped => 4,
        WlTransform::Flipped90 => 5,
        WlTransform::Flipped180 => 6,
        WlTransform::Flipped270 => 7,
    }
}

impl WlTransform {
    /// Decodes a wire value; values outside the enumeration give `None`.
    pub fn from_raw(v: u32) -> (r: Option<WlTransform>)
        ensures
            r matches Some(t) ==> transform_code(t) == v,
            r is None <==> v > 7,
    {
        match v {
            0 => Some(WlTransform::Normal),
            1 => Some(WlTransform::Rotate90),
            2 => Some(WlTransform::Rotate180),
            3 => Some(WlTransform::Rotate270),
            4 => Some(WlTransform::Flipped),
            5 => Some(WlTransform::Flipped90),
            6 => Some(WlTransform::Flipped180),
            7 => Some(WlTransform::Flipped270),
            _ => None,
        }
    }

    /// The wire value of this transform.
    pub fn to_raw(&self) -> (r: u32)
        ensures
            r == transform_code(*self),
    {
        match self {
            WlTransform::Normal => 0,
            WlTransform::Rotate90 => 1,
            WlTransform::Rotate180 => 2,
            WlTransform::Rotate270 => 3,
            WlTransform::Flipped => 4,
            WlTransform::Flipped90 => 5,
            WlTransform::Flipped180 => 6,
            WlTransform::Flipped270 => 7,
        }
    }
}

/// The bit pattern of a scale of exactly one (IEEE 754 binary64).
pub const SCALE_ONE_BITS: u64 = 0x3ff0_0000_0000_0000;

/// A scale factor, held as the IEEE 754 binary64 bit pattern in which the
/// protocol layer delivers it. The library never computes with the value; it
/// only checks it and hands it on unchanged.
#[derive(Clone, Copy, Debug, PartialEq, Eq, Structural)]
pub struct WlScale {
    pub bits: u64,
}

/// The bit pattern encodes a finite number greater than zero: the sign bit is
/// clear, the exponent is not all ones (infinity, NaN), and the pattern is not
/// positive zero.
pub open spec fn scale_bits_valid(bits: u64) -> bool {
    &&& bits >> 63u64 == 0
    &&& (bits >> 52u64) & 0x7ffu64 != 0x7ffu64
    &&& bits != 0
}

impl WlScale {
    /// The default scale, one.
    pub fn one() -> (r: WlScale)
        ensures
            r.bits == SCALE_ONE_BITS,
    {
        WlScale { bits: SCALE_ONE_BITS }
    }

    pub open spec fn valid(self) -> bool {
        scale_bits_valid(self.bits)
    }

    /// Whether the scale is finite and greater than zero.
    pub fn is_valid(&self) -> (r: bool)
        ensures
            r == self.valid(),
    {
        self.bits >> 63u64 == 0 && (self.bits >> 52u64) & 0x7ffu64 != 0x7ffu64 && self.bits != 0
    }
}

/// Whole hertz from millihertz, by integer division truncating toward zero.
pub open spec fn hz_of_mhz(mhz: int) -> int {
    if mhz >= 0 {
        mhz / 1000
    } else {
        -((-mhz) / 1000)
    }
}

pub fn refresh_hz(mhz: i32) -> (r: i32)
    ensures
        r == hz_of_mhz(mhz as int),
{
    if mhz >= 0 {
        mhz / 1000
    } else {
        let m: i64 = -(mhz as i64);
        let q: i64 = m / 1000;
        -(q as i32)
    }
}

/// One (resolution, refresh rate) combination advertised by a head.
#[derive(Clone, Copy, Debug, PartialEq, Eq, Structural)]
pub struct WlMonitorMode {
    pub mode_id: u32,
    pub head_id: u32,
    pub refresh_rate: i32,
    pub resolution: WlResolution,
    pub preferred: bool,
}

impl WlMonitorMode {
    /// A mode just announced by its head: nothing is known of it yet.
    pub open spec fn announced(mode_id: u32, head_id: u32) -> WlMonitorMode {
        WlMonitorMode {
            mode_id,
            head_id,
            refresh_rate: 0,
            resolution: WlResolution { height: 0, width: 0 },
            preferred: false,
        }
    }
}

/// What a mode lookup asks for.
#[derive(Clone, Copy, Debug, PartialEq, Eq, Structural)]
pub enum ModeQuery {
    /// The mode with this object id.
    Id(u32),
    /// The mode with exactly this width, height and refresh rate in hertz.
    Exact(i32, i32, i32),
    /// A mode flagged preferred.
    Preferred,
}

pub open spec fn mode_matches(m: WlMonitorMode, q: ModeQuery) -> bool {
    match q {
        ModeQuery::Id(id) => m.mode_id == id,
        ModeQuery::Exact(w, h, hz) => m.resolution.width == w && m.resolution.height == h
            && m.refresh_rate == hz,
        ModeQuery::Preferred => m.preferred,
    }
}

/// The first index at or after `from` whose mode matches `q`.
pub open spec fn first_mode(modes: Seq<WlMonitorMode>, q: ModeQuery, from: int) -> Option<int>
    decreases modes.len() - from,
{
    if from < 0 || from >= modes.len() {
        None
    } else if mode_matches(modes[from], q) {
        Some(from)
    } else {
        first_mode(modes, q, from + 1)
    }
}

/// The index of the first mode that matches `q`, in discovery order.
pub fn find_mode(modes: &Vec<WlMonitorMode>, q: ModeQuery) -> (r: Option<usize>)
    ensures
        r matches Some(i) ==> i < modes@.len() && first_mode(modes@, q, 0) == Some(i as int)
            && mode_matches(modes@[i as int], q),
        r is None ==> first_mode(modes@, q, 0) is None,
{
    let mut i: usize = 0;
    while i < modes.len()
        invariant
            i <= modes.len(),
            first_mode(modes@, q, 0) == first_mode(modes@, q, i as int),
        decreases modes.len() - i,
    {
        let m = modes[i];
        let hit = match q {
            ModeQuery::Id(id) => m.mode_id == id,
            ModeQuery::Exact(w, h, hz) => m.resolution.width == w && m.resolution.height == h
                && m.refresh_rate == hz,
            ModeQuery::Preferred => m.preferred,
        };
        if hit {
            return Some(i);
        }
        i = i + 1;
    }
    None
}

impl WlMonitorMode {
    /// The mode after one of its property events.
    pub open spec fn with_property(self, e: ModeEvent) -> WlMonitorMode {
        match e {
            ModeEvent::Size(width, height) => WlMonitorMode {
                resolution: WlResolution { height, width },
                ..self
            },
            ModeEvent::Refresh(mhz) => WlMonitorMode { refresh_rate: hz_of_mhz(mhz as int) as i32, ..self },
            ModeEvent::Preferred => WlMonitorMode { preferred: true, ..self },
            ModeEvent::Finished => self,
        }
    }

    pub fn apply_property(&mut self, e: ModeEvent)
        ensures
            *final(self) == old(self).with_property(e),
    {
        match e {
            ModeEvent::Size(width, height) => {
                self.resolution = WlResolution { height, width };
            },
            ModeEvent::Refresh(mhz) => {
                self.refresh_rate = refresh_hz(mhz);
            },
            ModeEvent::Preferred => {
                self.preferred = true;
            },
            ModeEvent::Finished => {},
        }
    }
}

/// One head (monitor) and everything the protocol has reported of it.
#[derive(Debug)]
pub struct WlMonitor {
    pub head_id: u32,
    pub name: String,
    pub description: String,
    pub make: String,
    pub model: String,
    pub serial_number: String,
    /// Advertised modes, in discovery order.
    pub modes: Vec<WlMonitorMode>,
    /// The active mode's object id; absent while the head is disabled.
    pub current_mode: Option<u32>,
    pub enabled: bool,
    pub position: WlPosition,
    pub scale: WlScale,
    pub transform: WlTransform,
    /// The mode that was active when the head was last switched off.
    pub last_mode: Option<u32>,
    /// Set when a property changed after the first snapshot was emitted.
    pub dirty: bool,
}

/// The mathematical content of a [`WlMonitor`].
pub struct MonitorView {
    pub head_id: u32,
    pub name: Seq<char>,
    pub description: Seq<char>,
    pub make: Seq<char>,
    pub model: Seq<char>,
    pub serial_number: Seq<char>,
    pub modes: Seq<WlMonitorMode>,
    pub current_mode: Option<u32>,
    pub enabled: bool,
    pub position: WlPosition,
    pub scale: WlScale,
    pub transform: WlTransform,
    pub last_mode: Option<u32>,
    pub dirty: bool,
}

impl View for WlMonitor {
    type V = MonitorView;

    open spec fn view(&self) -> MonitorView {
        MonitorView {
            head_id: self.head_id,
            name: self.name@,
            description: self.description@,
            make: self.make@,
            model: self.model@,
            serial_number: self.serial_number@,
            modes: self.modes@,
            current_mode: self.current_mode,
            enabled: self.enabled,
            position: self.position,
            scale: self.scale,
            transform: self.transform,
            last_mode: self.last_mode,
            dirty: self.dirty,
        }
    }
}

impl MonitorView {
    /// The record of a head that has just been announced: every field at its default.
    pub open spec fn fresh(head_id: u32) -> MonitorView {
        MonitorView {
            head_id,
            name: Seq::empty(),
            description: Seq::empty(),
            make: Seq::empty(),
            model: Seq::empty(),
            serial_number: Seq::empty(),
            modes: Seq::empty(),
            current_mode: None,
            enabled: false,
            position: WlPosition { x: 0, y: 0 },
            scale: WlScale { bits: SCALE_ONE_BITS },
            transform: WlTransform::Normal,
            last_mode: None,
            dirty: false,
        }
    }

    /// The record after one of its property events; the mode announcement
    /// and the finished event are not properties and change nothing here.
    pub open spec fn with_property(self, e: HeadEvent) -> MonitorView {
        match e {
            HeadEvent::Name(s) => MonitorView { name: s@, ..self },
            HeadEvent::Description(s) => MonitorView { description: s@, ..self },
            HeadEvent::Make(s) => MonitorView { make: s@, ..self },
            HeadEvent::Model(s) => MonitorView { model: s@, ..self },
            HeadEvent::SerialNumber(s) => MonitorView { serial_number: s@, ..self },
            HeadEvent::Enabled(v) => MonitorView { enabled: v != 0, ..self },
            HeadEvent::CurrentMode(id) => MonitorView { current_mode: Some(id), ..self },
            HeadEvent::Position(x, y) => MonitorView { position: WlPosition { x, y }, ..self },
            HeadEvent::Scale(s) => MonitorView { scale: s, ..self },
            HeadEvent::Transform(t) => MonitorView { transform: t, ..self },
            HeadEvent::Mode(_) => self,
            HeadEvent::Finished => self,
        }
    }

    /// The active mode's record, if the current mode is one of the advertised ones.
    pub open spec fn active_mode(self) -> Option<WlMonitorMode> {
        match self.current_mode {
            Some(id) => match first_mode(self.modes, ModeQuery::Id(id), 0) {
                Some(j) => Some(self.modes[j]),
                None => None,
            },
            None => None,
        }
    }
}

impl WlMonitor {
    pub fn new(head_id: u32) -> (r: WlMonitor)
        ensures
            r@ == MonitorView::fresh(head_id),
    {
        let r = WlMonitor {
            head_id,
            name: String::new(),
            description: String::new(),
            make: String::new(),
            model: String::new(),
            serial_number: String::new(),
            modes: Vec::new(),
            current_mode: None,
            enabled: false,
            position: WlPosition { x: 0, y: 0 },
            scale: WlScale::one(),
            transform: WlTransform::Normal,
            last_mode: None,
            dirty: false,
        };
        assert(r@ =~= MonitorView::fresh(head_id));
        r
    }

    /// A copy that shares nothing with this record.
    pub fn snapshot(&self) -> (r: WlMonitor)
        ensures
            r@ == self@,
    {
        let mut modes: Vec<WlMonitorMode> = Vec::new();
        let mut i: usize = 0;
        while i < self.modes.len()
            invariant
                i <= self.modes.len(),
                modes@ == self.modes@.subrange(0, i as int),
            decreases self.modes.len() - i,
        {
            modes.push(self.modes[i]);
            i = i + 1;
            assert(modes@ =~= self.modes@.subrange(0, i as int));
        }
        assert(modes@ =~= self.modes@);
        WlMonitor {
            head_id: self.head_id,
            name: self.name.clone(),
            description: self.description.clone(),
            make: self.make.clone(),
            model: self.model.clone(),
            serial_number: self.serial_number.clone(),
            modes,
            current_mode: self.current_mode,
            enabled: self.enabled,
            position: self.position,
            scale: self.scale,
            transform: self.transform,
            last_mode: self.last_mode,
            dirty: self.dirty,
        }
    }

    pub fn apply_property(&mut self, e: HeadEvent)
        ensures
            final(self)@ == old(self)@.with_property(e),
    {
        match e {
            HeadEvent::Name(s) => {
                self.name = s;
            },
            HeadEvent::Description(s) => {
                self.description = s;
            },
            HeadEvent::Make(s) => {
                self.make = s;
            },
            HeadEvent::Model(s) => {
                self.model = s;
            },
            HeadEvent::SerialNumber(s) => {
                self.serial_number = s;
            },
            HeadEvent::Enabled(v) => {
                self.enabled = v != 0;
            },
            HeadEvent::CurrentMode(id) => {
                self.current_mode = Some(id);
            },
            HeadEvent::Position(x, y) => {
                self.position = WlPosition { x, y };
            },
            HeadEvent::Scale(s) => {
                self.scale = s;
            },
            HeadEvent::Transform(t) => {
                self.transform = t;
            },
            HeadEvent::Mode(_) => {},
            HeadEvent::Finished => {},
        }
    }

    /// The resolution of the active mode, or zero by zero without one.
    pub fn resolution(&self) -> (r: WlResolution)
        ensures
            r == (match self@.active_mode() {
                Some(m) => m.resolution,
                None => WlResolution { height: 0, width: 0 },
            }),
    {
        match self.current_mode {
            Some(id) => match find_mode(&self.modes, ModeQuery::Id(id)) {
                Some(j) => self.modes[j].resolution,
                None => WlResolution { height: 0, width: 0 },
            },
            None => WlResolution { height: 0, width: 0 },
        }
    }

    /// The refresh rate in hertz of the active mode, or zero without one.
    pub fn refresh_rate(&self) -> (r: i32)
        ensures
            r == (match self@.active_mode() {
                Some(m) => m.refresh_rate,
                None => 0,
            }),
    {
        match self.current_mode {
            Some(id) => match find_mode(&self.modes, ModeQuery::Id(id)) {
                Some(j) => self.modes[j].refresh_rate,
                None => 0,
            },
            None => 0,
        }
    }
}

} // verus!
