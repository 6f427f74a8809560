//! Raw reMarkable pen input. The RM1 pen is a Wacom I2C digitizer whose
//! axes are mounted rotated by 270 degrees against the portrait panel.
use vstd::prelude::*;
use crate::evdev::InputEvent;
use crate::evdev::InputAbsInfo;
use crate::geometry::clamp;
use vstd::string::*;

verus! {

/// Pressure of a sample is scaled to `0..=MAX_PRESSURE`.
pub const MAX_PRESSURE: i32 = 4095;

pub const EV_SYN: u16 = 0;
pub const EV_KEY: u16 = 1;
pub const EV_ABS: u16 = 3;
pub const SYN_REPORT: u16 = 0;
pub const ABS_X: u16 = 0;
pub const ABS_Y: u16 = 1;
pub const ABS_PRESSURE: u16 = 24;
pub const BTN_TOOL_PEN: u16 = 320;
pub const BTN_TOOL_RUBBER: u16 = 321;
pub const BTN_TOUCH: u16 = 330;

/// Largest screen coordinates of a sample (the panel is 1404 x 1872).
pub const MAX_SCREEN_X: i32 = 1403;
pub const MAX_SCREEN_Y: i32 = 1871;

/// Axis ranges used when the device does not report them.
pub const DEFAULT_X_MAX: i32 = 20967;
pub const DEFAULT_Y_MAX: i32 = 15725;
pub const DEFAULT_PRESSURE_MAX: i32 = 4095;

#[derive(Debug, Clone, Copy, PartialEq, Eq, Structural)]
pub enum Tool {
    Pen,
    Eraser,
}

/// One pen report in screen coordinates.
#[derive(Debug, Clone, Copy, PartialEq, Eq, Structural)]
pub struct PenSample {
    pub x: i32,
    pub y: i32,
    pub pressure: i32,
    pub tool: Tool,
    pub touching: bool,
    pub proximity: bool,
}

/// The tracked pen: axis ranges, the raw values seen so far, and whether
/// anything changed since the last report.
pub struct PenDevice {
    fd: i32,
    raw_x: i32,
    raw_y: i32,
    pressure: i32,
    pressure_max: i32,
    x_min: i32,
    x_max: i32,
    y_min: i32,
    y_max: i32,
    tool: Tool,
    touching: bool,
    pen_in_range: bool,
    rubber_in_range: bool,
    proximity: bool,
    dirty: bool,
}

/// The abstract state of a `PenDevice`.
pub struct PenState {
    pub fd: i32,
    pub raw_x: i32,
    pub raw_y: i32,
    pub pressure: i32,
    pub pressure_max: i32,
    pub x_min: i32,
    pub x_max: i32,
    pub y_min: i32,
    pub y_max: i32,
    pub tool: Tool,
    pub touching: bool,
    pub pen_in_range: bool,
    pub rubber_in_range: bool,
    pub proximity: bool,
    pub dirty: bool,
}

impl View for PenDevice {
    type V = PenState;

    closed spec fn view(&self) -> PenState {
        PenState {
            fd: self.fd,
            raw_x: self.raw_x,
            raw_y: self.raw_y,
            pressure: self.pressure,
            pressure_max: self.pressure_max,
            x_min: self.x_min,
            x_max: self.x_max,
            y_min: self.y_min,
            y_max: self.y_max,
            tool: self.tool,
            touching: self.touching,
            pen_in_range: self.pen_in_range,
            rubber_in_range: self.rubber_in_range,
            proximity: self.proximity,
            dirty: self.dirty,
        }
    }
}

pub open spec fn max1(v: int) -> int {
    if v < 1 { 1 } else { v }
}

pub open spec fn fits_i32(v: int) -> bool {
    i32::MIN <= v <= i32::MAX
}

impl PenState {
    /// Every pen state keeps a positive pressure range.
    pub open spec fn wf(self) -> bool {
        self.pressure_max >= 1
    }

    /// The pen is in proximity exactly when one of its tools is in range.
    pub open spec fn tools_consistent(self) -> bool {
        self.proximity == (self.pen_in_range || self.rubber_in_range)
    }

    /// Width of the raw Y range (the screen X axis), at least 1.
    pub open spec fn span_y(self) -> int {
        max1(self.y_max - self.y_min)
    }

    /// Width of the raw X range (the screen Y axis), at least 1.
    pub open spec fn span_x(self) -> int {
        max1(self.x_max - self.x_min)
    }

    /// Screen X: raw Y from its minimum, scaled onto `0..=1403`.
    pub open spec fn screen_x(self) -> int {
        clamp(self.raw_y - self.y_min, 0, self.span_y()) * 1403 / self.span_y()
    }

    /// Screen Y: raw X back from its maximum, scaled onto `0..=1871`.
    pub open spec fn screen_y(self) -> int {
        clamp(self.x_max - self.raw_x, 0, self.span_x()) * 1871 / self.span_x()
    }

    pub open spec fn scaled_pressure(self) -> int {
        clamp(self.pressure as int, 0, self.pressure_max as int) * 4095 / (self.pressure_max as int)
    }

    /// The screen position of this state holds in 32-bit arithmetic: every
    /// intermediate difference and product fits in an `i32`.
    pub open spec fn coords_defined(self) -> bool {
        &&& fits_i32(self.y_max - self.y_min)
        &&& fits_i32(self.x_max - self.x_min)
        &&& fits_i32(self.raw_y - self.y_min)
        &&& fits_i32(self.x_max - self.raw_x)
        &&& clamp(self.raw_y - self.y_min, 0, self.span_y()) * 1403 <= i32::MAX
        &&& clamp(self.x_max - self.raw_x, 0, self.span_x()) * 1871 <= i32::MAX
    }

    /// The report of this state holds in 32-bit arithmetic: its position,
    /// and the scaled pressure.
    pub open spec fn sample_defined(self) -> bool {
        &&& self.coords_defined()
        &&& clamp(self.pressure as int, 0, self.pressure_max as int) * 4095 <= i32::MAX
    }

    /// The report of this state.
    pub open spec fn sample(self) -> PenSample {
        PenSample {
            x: self.screen_x() as i32,
            y: self.screen_y() as i32,
            pressure: self.scaled_pressure() as i32,
            tool: self.tool,
            touching: self.touching,
            proximity: self.proximity,
        }
    }

    pub open spec fn with_raw_x(self, v: i32) -> PenState {
        PenState { raw_x: v, dirty: true, ..self }
    }

    pub open spec fn with_raw_y(self, v: i32) -> PenState {
        PenState { raw_y: v, dirty: true, ..self }
    }

    pub open spec fn with_pressure(self, v: i32) -> PenState {
        PenState { pressure: v, dirty: true, ..self }
    }

    pub open spec fn with_pen(self, in_range: bool) -> PenState {
        PenState {
            pen_in_range: in_range,
            tool: if in_range { Tool::Pen } else { self.tool },
            proximity: in_range || self.rubber_in_range,
            dirty: true,
            ..self
        }
    }

    pub open spec fn with_rubber(self, in_range: bool) -> PenState {
        PenState {
            rubber_in_range: in_range,
            tool: if in_range { Tool::Eraser } else { self.tool },
            proximity: self.pen_in_range || in_range,
            dirty: true,
            ..self
        }
    }

    pub open spec fn with_touch(self, touching: bool) -> PenState {
        PenState { touching, dirty: true, ..self }
    }

    pub open spec fn reported(self) -> PenState {
        PenState { dirty: false, ..self }
    }
}

pub open spec fn is_report(ev: InputEvent) -> bool {
    ev.type_ == EV_SYN && ev.code == SYN_REPORT
}

/// The effect of one input event: axis and button events update the state
/// and mark it changed; a `SYN_REPORT` after a change emits a sample;
/// anything else is ignored.
pub open spec fn step(s: PenState, ev: InputEvent) -> (PenState, Option<PenSample>) {
    if ev.type_ == EV_ABS && ev.code == ABS_X {
        (s.with_raw_x(ev.value), None)
    } else if ev.type_ == EV_ABS && ev.code == ABS_Y {
        (s.with_raw_y(ev.value), None)
    } else if ev.type_ == EV_ABS && ev.code == ABS_PRESSURE {
        (s.with_pressure(ev.value), None)
    } else if ev.type_ == EV_KEY && ev.code == BTN_TOOL_PEN {
        (s.with_pen(ev.value != 0), None)
    } else if ev.type_ == EV_KEY && ev.code == BTN_TOOL_RUBBER {
        (s.with_rubber(ev.value != 0), None)
    } else if ev.type_ == EV_KEY && ev.code == BTN_TOUCH {
        (s.with_touch(ev.value != 0), None)
    } else if is_report(ev) && s.dirty {
        (s.reported(), Some(s.sample()))
    } else {
        (s, None)
    }
}

/// One event can be handled without 32-bit overflow.
pub open spec fn step_defined(s: PenState, ev: InputEvent) -> bool {
    (is_report(ev) && s.dirty) ==> s.sample_defined()
}

pub open spec fn opt_seq(o: Option<PenSample>) -> Seq<PenSample> {
    match o {
        Some(v) => seq![v],
        None => Seq::empty(),
    }
}

/// The state after a run of events, and the samples emitted along it.
pub open spec fn run(s: PenState, evs: Seq<InputEvent>) -> (PenState, Seq<PenSample>)
    decreases evs.len(),
{
    if evs.len() == 0 {
        (s, Seq::empty())
    } else {
        let (mid, out) = run(s, evs.drop_last());
        let (end, o) = step(mid, evs.last());
        (end, out + opt_seq(o))
    }
}

/// Every event of the run can be handled without 32-bit overflow.
pub open spec fn run_defined(s: PenState, evs: Seq<InputEvent>) -> bool
    decreases evs.len(),
{
    if evs.len() == 0 {
        true
    } else {
        run_defined(s, evs.drop_last()) && step_defined(run(s, evs.drop_last()).0, evs.last())
    }
}

/// The axis reported by the device, or `0..=max` when the query failed.
pub open spec fn axis_or(a: Option<InputAbsInfo>, max: i32) -> InputAbsInfo {
    match a {
        Some(info) => info,
        None => InputAbsInfo { value: 0, minimum: 0, maximum: max, fuzz: 0, flat: 0, resolution: 0 },
    }
}

/// The state of a freshly opened pen: raw position at the axis minima, no
/// pressure, pen tool, nothing in range, nothing to report.
pub open spec fn initial_state(fd: i32, x: InputAbsInfo, y: InputAbsInfo, p: InputAbsInfo) -> PenState {
    PenState {
        fd,
        raw_x: x.minimum,
        raw_y: y.minimum,
        pressure: 0,
        pressure_max: if p.maximum < 1 { 1 } else { p.maximum },
        x_min: x.minimum,
        x_max: x.maximum,
        y_min: y.minimum,
        y_max: y.maximum,
        tool: Tool::Pen,
        touching: false,
        pen_in_range: false,
        rubber_in_range: false,
        proximity: false,
        dirty: false,
    }
}

fn axis_or_default(a: Option<InputAbsInfo>, max: i32) -> (r: InputAbsInfo)
    ensures
        r == axis_or(a, max),
{
    match a {
        Some(info) => info,
        None => InputAbsInfo { value: 0, minimum: 0, maximum: max, fuzz: 0, flat: 0, resolution: 0 },
    }
}

fn clamp_i32(v: i32, lo: i32, hi: i32) -> (r: i32)
    requires
        lo <= hi,
    ensures
        r == clamp(v as int, lo as int, hi as int),
{
    if v < lo {
        lo
    } else if v > hi {
        hi
    } else {
        v
    }
}

fn clamp_i64(v: i64, lo: i64, hi: i64) -> (r: i64)
    requires
        lo <= hi,
    ensures
        r == clamp(v as int, lo as int, hi as int),
{
    if v < lo {
        lo
    } else if v > hi {
        hi
    } else {
        v
    }
}

impl PenDevice {
    #[verifier::type_invariant]
    spec fn inv(self) -> bool {
        self.pressure_max >= 1
    }

    /// The pen on descriptor `fd`, with the X, Y and pressure axes that the
    /// device reported (`None` where the query failed: then `0..=20967`,
    /// `0..=15725` and `0..=4095`). The pressure range is at least 1.
    pub fn from_axes(fd: i32, x: Option<InputAbsInfo>, y: Option<InputAbsInfo>, p: Option<InputAbsInfo>) -> (dev: Self)
        ensures
            dev@ == initial_state(
                fd,
                axis_or(x, DEFAULT_X_MAX),
                axis_or(y, DEFAULT_Y_MAX),
                axis_or(p, DEFAULT_PRESSURE_MAX),
            ),
            dev@.wf(),
            dev@.tools_consistent(),
            !dev@.touching,
            !dev@.dirty,
            !dev@.pen_in_range,
            !dev@.rubber_in_range,
            !dev@.proximity,
            dev@.tool == Tool::Pen,
            dev@.pressure == 0,
            dev@.fd == fd,
    {
        let x = axis_or_default(x, DEFAULT_X_MAX);
        let y = axis_or_default(y, DEFAULT_Y_MAX);
        let p = axis_or_default(p, DEFAULT_PRESSURE_MAX);
        PenDevice {
            fd,
            raw_x: x.minimum,
            raw_y: y.minimum,
            pressure: 0,
            pressure_max: if p.maximum < 1 { 1 } else { p.maximum },
            x_min: x.minimum,
            x_max: x.maximum,
            y_min: y.minimum,
            y_max: y.maximum,
            tool: Tool::Pen,
            touching: false,
            pen_in_range: false,
            rubber_in_range: false,
            proximity: false,
            dirty: false,
        }
    }

    pub fn raw_fd(&self) -> (r: i32)
        ensures
            r == self@.fd,
    {
        self.fd
    }

    /// Whether the report of the current state holds in 32-bit arithmetic.
    fn sample_fits(&self) -> (r: bool)
        ensures
            r == self@.sample_defined(),
    {
        let dy: i64 = self.y_max as i64 - self.y_min as i64;
        let dx: i64 = self.x_max as i64 - self.x_min as i64;
        let ry: i64 = self.raw_y as i64 - self.y_min as i64;
        let rx: i64 = self.x_max as i64 - self.raw_x as i64;
        let lo: i64 = i32::MIN as i64;
        let hi: i64 = i32::MAX as i64;
        let rw: i64 = if dy < 1 { 1 } else { dy };
        let rh: i64 = if dx < 1 { 1 } else { dx };
        let cy: i64 = clamp_i64(ry, 0, rw);
        let cx: i64 = clamp_i64(rx, 0, rh);
        let cp: i64 = if (self.pressure as i64) < 0 {
            0
        } else if (self.pressure as i64) > self.pressure_max as i64 {
            self.pressure_max as i64
        } else {
            self.pressure as i64
        };
        if !(lo <= dy && dy <= hi && lo <= dx && dx <= hi && lo <= ry && ry <= hi && lo <= rx && rx <= hi) {
            return false;
        }
        cy <= hi / 1403 && cx <= hi / 1871 && cp <= hi / 4095
    }

    /// Screen position of the current raw position (axes rotated by 270
    /// degrees: screen X from raw Y, screen Y from raw X reversed).
    fn screen_xy(&self) -> (r: (i32, i32))
        requires
            self@.coords_defined(),
        ensures
            r.0 == self@.screen_x(),
            r.1 == self@.screen_y(),
    {
        let dy: i32 = self.y_max - self.y_min;
        let dx: i32 = self.x_max - self.x_min;
        let rw: i32 = if dy < 1 { 1 } else { dy };
        let rh: i32 = if dx < 1 { 1 } else { dx };
        let px: i32 = clamp_i32(self.raw_y - self.y_min, 0, rw);
        let py: i32 = clamp_i32(self.x_max - self.raw_x, 0, rh);
        (px * 1403 / rw, py * 1871 / rh)
    }

    /// Handles one input event.
    fn handle(&mut self, ev: &InputEvent) -> (r: Option<PenSample>)
        requires
            step_defined(old(self)@, *ev),
        ensures
            (final(self)@, r) == step(old(self)@, *ev),
    {
        proof {
            use_type_invariant(&*self);
        }
        if ev.type_ == EV_ABS && ev.code == ABS_X {
            self.raw_x = ev.value;
            self.dirty = true;
            None
        } else if ev.type_ == EV_ABS && ev.code == ABS_Y {
            self.raw_y = ev.value;
            self.dirty = true;
            None
        } else if ev.type_ == EV_ABS && ev.code == ABS_PRESSURE {
            self.pressure = ev.value;
            self.dirty = true;
            None
        } else if ev.type_ == EV_KEY && ev.code == BTN_TOOL_PEN {
            self.pen_in_range = ev.value != 0;
            if self.pen_in_range {
                self.tool = Tool::Pen;
            }
            self.proximity = self.pen_in_range || self.rubber_in_range;
            self.dirty = true;
            None
        } else if ev.type_ == EV_KEY && ev.code == BTN_TOOL_RUBBER {
            self.rubber_in_range = ev.value != 0;
            if self.rubber_in_range {
                self.tool = Tool::Eraser;
            }
            self.proximity = self.pen_in_range || self.rubber_in_range;
            self.dirty = true;
            None
        } else if ev.type_ == EV_KEY && ev.code == BTN_TOUCH {
            self.touching = ev.value != 0;
            self.dirty = true;
            None
        } else if ev.type_ == EV_SYN && ev.code == SYN_REPORT && self.dirty {
            self.dirty = false;
            let (x, y) = self.screen_xy();
            let p: i32 = clamp_i32(self.pressure, 0, self.pressure_max);
            Some(
                PenSample {
                    x,
                    y,
                    pressure: p * MAX_PRESSURE / self.pressure_max,
                    tool: self.tool,
                    touching: self.touching,
                    proximity: self.proximity,
                },
            )
        } else {
            None
        }
    }
}

/// A run that can be handled handles each of its events.
pub proof fn lemma_run_defined_at(s: PenState, evs: Seq<InputEvent>, i: int)
    requires
        run_defined(s, evs),
        0 <= i < evs.len(),
    ensures
        step_defined(run(s, evs.take(i)).0, evs[i]),
        run_defined(s, evs.take(i)),
    decreases evs.len(),
{
    if i == evs.len() - 1 {
        assert(evs.take(i) =~= evs.drop_last());
    } else {
        lemma_run_defined_at(s, evs.drop_last(), i);
        assert(evs.drop_last().take(i) =~= evs.take(i));
    }
}

impl PenDevice {
    /// A copy of the pen state (the copy shares the descriptor number).
    fn snapshot(&self) -> (r: PenDevice)
        ensures
            r@ == self@,
    {
        proof {
            use_type_invariant(self);
        }
        PenDevice {
            fd: self.fd,
            raw_x: self.raw_x,
            raw_y: self.raw_y,
            pressure: self.pressure,
            pressure_max: self.pressure_max,
            x_min: self.x_min,
            x_max: self.x_max,
            y_min: self.y_min,
            y_max: self.y_max,
            tool: self.tool,
            touching: self.touching,
            pen_in_range: self.pen_in_range,
            rubber_in_range: self.rubber_in_range,
            proximity: self.proximity,
            dirty: self.dirty,
        }
    }

    /// Whether `events` can be drained without 32-bit overflow in any of the
    /// reports they produce.
    pub fn can_drain(&self, events: &Vec<InputEvent>) -> (r: bool)
        ensures
            r == run_defined(self@, events@),
    {
        let mut st = self.snapshot();
        let ghost s0 = self@;
        let mut i: usize = 0;
        while i < events.len()
            invariant
                i <= events@.len(),
                s0 == self@,
                st@ == run(s0, events@.take(i as int)).0,
                run_defined(s0, events@.take(i as int)),
            decreases events@.len() - i,
        {
            let ev = &events[i];
            proof {
                assert(events@.take(i + 1).drop_last() =~= events@.take(i as int));
            }
            if ev.type_ == EV_SYN && ev.code == SYN_REPORT && st.dirty && !st.sample_fits() {
                proof {
                    if run_defined(s0, events@) {
                        lemma_run_defined_at(s0, events@, i as int);
                    }
                }
                return false;
            }
            st.handle(ev);
            i = i + 1;
        }
        assert(events@.take(events@.len() as int) =~= events@);
        true
    }

    /// Feeds `events` (as read from the device) through the pen state and
    /// returns the samples reported along the way, in order.
    pub fn drain(&mut self, events: &Vec<InputEvent>) -> (r: Vec<PenSample>)
        requires
            run_defined(old(self)@, events@),
        ensures
            final(self)@ == run(old(self)@, events@).0,
            r@ == run(old(self)@, events@).1,
            final(self)@.wf(),
    {
        let ghost s0 = self@;
        let mut out: Vec<PenSample> = Vec::new();
        let mut i: usize = 0;
        while i < events.len()
            invariant
                i <= events@.len(),
                run_defined(s0, events@),
                self@ == run(s0, events@.take(i as int)).0,
                out@ == run(s0, events@.take(i as int)).1,
            decreases events@.len() - i,
        {
            proof {
                lemma_run_defined_at(s0, events@, i as int);
                assert(events@.take(i + 1).drop_last() =~= events@.take(i as int));
            }
            let ev = &events[i];
            match self.handle(ev) {
                Some(sample) => out.push(sample),
                None => {},
            }
            i = i + 1;
        }
        proof {
            assert(events@.take(events@.len() as int) =~= events@);
            use_type_invariant(&*self);
        }
        out
    }
}

/// Draining events in two reads gives the same state and samples as
/// draining them in one, and can be done exactly when the single drain can.
pub proof fn lemma_run_append(s: PenState, a: Seq<InputEvent>, b: Seq<InputEvent>)
    ensures
        run(s, a + b).0 == run(run(s, a).0, b).0,
        run(s, a + b).1 == run(s, a).1 + run(run(s, a).0, b).1,
        run_defined(s, a + b) == (run_defined(s, a) && run_defined(run(s, a).0, b)),
    decreases b.len(),
{
    if b.len() == 0 {
        assert(a + b =~= a);
        assert(run(s, a).1 + Seq::<PenSample>::empty() =~= run(s, a).1);
    } else {
        lemma_run_append(s, a, b.drop_last());
        assert((a + b).drop_last() =~= a + b.drop_last());
        assert((a + b).last() == b.last());
        let mid = run(s, a).0;
        let (m2, o2) = run(mid, b.drop_last());
        let (_e, o) = step(m2, b.last());
        assert(run(s, a).1 + o2 + opt_seq(o) =~= run(s, a).1 + (o2 + opt_seq(o)));
    }
}

/// Every state reached keeps a positive pressure range.
pub proof fn lemma_run_wf(s: PenState, evs: Seq<InputEvent>)
    requires
        s.wf(),
    ensures
        run(s, evs).0.wf(),
    decreases evs.len(),
{
    if evs.len() > 0 {
        lemma_run_wf(s, evs.drop_last());
    }
}

/// A tracked pen stays in proximity exactly while one of its tools is in
/// range.
pub proof fn lemma_run_tools_consistent(s: PenState, evs: Seq<InputEvent>)
    requires
        s.tools_consistent(),
    ensures
        run(s, evs).0.tools_consistent(),
    decreases evs.len(),
{
    if evs.len() > 0 {
        lemma_run_tools_consistent(s, evs.drop_last());
    }
}

/// A report lies on the panel and its pressure within `0..=MAX_PRESSURE`.
pub proof fn lemma_sample_on_screen(s: PenState)
    requires
        s.wf(),
    ensures
        0 <= s.sample().x <= MAX_SCREEN_X,
        0 <= s.sample().y <= MAX_SCREEN_Y,
        0 <= s.sample().pressure <= MAX_PRESSURE,
{
    let cy = clamp(s.raw_y - s.y_min, 0, s.span_y());
    let rw = s.span_y();
    assert(0 <= cy * 1403 / rw <= 1403) by (nonlinear_arith)
        requires
            0 <= cy <= rw,
            rw >= 1,
    ;
    let cx = clamp(s.x_max - s.raw_x, 0, s.span_x());
    let rh = s.span_x();
    assert(0 <= cx * 1871 / rh <= 1871) by (nonlinear_arith)
        requires
            0 <= cx <= rh,
            rh >= 1,
    ;
    let cp = clamp(s.pressure as int, 0, s.pressure_max as int);
    let pm = s.pressure_max as int;
    assert(0 <= cp * 4095 / pm <= 4095) by (nonlinear_arith)
        requires
            0 <= cp <= pm,
            pm >= 1,
    ;
}

/// A sample on the panel with its pressure within `0..=MAX_PRESSURE`.
pub open spec fn on_screen(p: PenSample) -> bool {
    &&& 0 <= p.x <= MAX_SCREEN_X
    &&& 0 <= p.y <= MAX_SCREEN_Y
    &&& 0 <= p.pressure <= MAX_PRESSURE
}

/// Every sample drained from a pen lies on the panel, with its pressure
/// within `0..=MAX_PRESSURE`.
pub proof fn lemma_run_samples_on_screen(s: PenState, evs: Seq<InputEvent>)
    requires
        s.wf(),
        run_defined(s, evs),
    ensures
        forall|k: int| 0 <= k < run(s, evs).1.len() ==> on_screen(#[trigger] run(s, evs).1[k]),
    decreases evs.len(),
{
    if evs.len() > 0 {
        lemma_run_samples_on_screen(s, evs.drop_last());
        let (mid, out) = run(s, evs.drop_last());
        lemma_run_wf(s, evs.drop_last());
        let (end, o) = step(mid, evs.last());
        if is_report(evs.last()) && mid.dirty {
            lemma_sample_on_screen(mid);
        }
        let all = out + opt_seq(o);
        assert forall|k: int| 0 <= k < all.len() implies on_screen(#[trigger] all[k]) by {
            if k < out.len() {
                assert(all[k] == out[k]);
            }
        }
    }
}

/// A report empties the set of pending changes: a second `SYN_REPORT` with
/// no event in between reports nothing.
pub proof fn lemma_report_once(s: PenState, ev: InputEvent, ev2: InputEvent)
    requires
        step(s, ev).1 is Some,
        is_report(ev2),
    ensures
        !step(s, ev).0.dirty,
        step(step(s, ev).0, ev2) == (step(s, ev).0, None::<PenSample>),
{
}

/// The rotation of the axes: the raw Y minimum (or below) maps to the left
/// edge and the raw Y maximum (or above) to the right edge; the raw X
/// maximum (or above) maps to the top edge and the raw X minimum (or below)
/// to the bottom edge; pressure from none to full maps to `0..=4095`.
pub proof fn lemma_sample_edges(s: PenState)
    requires
        s.wf(),
    ensures
        s.raw_y <= s.y_min ==> s.sample().x == 0,
        s.y_max > s.y_min && s.raw_y >= s.y_max ==> s.sample().x == MAX_SCREEN_X,
        s.raw_x >= s.x_max ==> s.sample().y == 0,
        s.x_max > s.x_min && s.raw_x <= s.x_min ==> s.sample().y == MAX_SCREEN_Y,
        s.pressure <= 0 ==> s.sample().pressure == 0,
        s.pressure >= s.pressure_max ==> s.sample().pressure == MAX_PRESSURE,
{
    let rw = s.span_y();
    let rh = s.span_x();
    let pm = s.pressure_max as int;
    assert(rw * 1403 / rw == 1403) by (nonlinear_arith)
        requires
            rw >= 1,
    ;
    assert(rh * 1871 / rh == 1871) by (nonlinear_arith)
        requires
            rh >= 1,
    ;
    assert(pm * 4095 / pm == 4095) by (nonlinear_arith)
        requires
            pm >= 1,
    ;
}

/// The rotation keeps the axes apart: with the same axis ranges, screen X
/// depends only on raw Y and grows with it, and screen Y depends only on
/// raw X and shrinks as it grows.
pub proof fn lemma_screen_axes(s: PenState, t: PenState)
    requires
        s.x_min == t.x_min,
        s.x_max == t.x_max,
        s.y_min == t.y_min,
        s.y_max == t.y_max,
    ensures
        s.raw_y == t.raw_y ==> s.screen_x() == t.screen_x(),
        s.raw_x == t.raw_x ==> s.screen_y() == t.screen_y(),
        s.raw_y <= t.raw_y ==> s.screen_x() <= t.screen_x(),
        s.raw_x <= t.raw_x ==> s.screen_y() >= t.screen_y(),
{
    let rw = s.span_y();
    let a = clamp(s.raw_y - s.y_min, 0, rw);
    let b = clamp(t.raw_y - t.y_min, 0, rw);
    if s.raw_y <= t.raw_y {
        assert(a * 1403 / rw <= b * 1403 / rw) by (nonlinear_arith)
            requires
                0 <= a <= b,
                rw >= 1,
        ;
    }
    let rh = s.span_x();
    let c = clamp(s.x_max - s.raw_x, 0, rh);
    let d = clamp(t.x_max - t.raw_x, 0, rh);
    if s.raw_x <= t.raw_x {
        assert(d * 1871 / rh <= c * 1871 / rh) by (nonlinear_arith)
            requires
                0 <= d <= c,
                rh >= 1,
        ;
    }
}

/// A freshly opened pen: not touching, nothing in range, pen tool, no
/// pressure, nothing to report; its raw position sits at the axis minima and
/// its ranges are those reported (or the defaults), with a pressure range of
/// at least 1.
pub proof fn lemma_opened_pen(fd: i32, x: Option<InputAbsInfo>, y: Option<InputAbsInfo>, p: Option<InputAbsInfo>)
    ensures
        ({
            let xi = axis_or(x, DEFAULT_X_MAX);
            let yi = axis_or(y, DEFAULT_Y_MAX);
            let pi = axis_or(p, DEFAULT_PRESSURE_MAX);
            let s = initial_state(fd, xi, yi, pi);
            &&& !s.touching
            &&& !s.dirty
            &&& !s.pen_in_range
            &&& !s.rubber_in_range
            &&& !s.proximity
            &&& s.tool == Tool::Pen
            &&& s.pressure == 0
            &&& s.fd == fd
            &&& s.raw_x == xi.minimum && s.x_min == xi.minimum && s.x_max == xi.maximum
            &&& s.raw_y == yi.minimum && s.y_min == yi.minimum && s.y_max == yi.maximum
            &&& s.pressure_max == (if pi.maximum >= 1 { pi.maximum } else { 1 })
            &&& (x is None ==> xi.minimum == 0 && xi.maximum == 20967)
            &&& (y is None ==> yi.minimum == 0 && yi.maximum == 15725)
            &&& (p is None ==> pi.maximum == 4095)
            &&& (x matches Some(a) ==> xi == a)
            &&& (y matches Some(a) ==> yi == a)
            &&& (p matches Some(a) ==> pi == a)
        }),
{
}

/// A pen tool event: the pen is in range exactly when the event's value is
/// non-zero, selects the pen tool when it comes into range, and the pen is
/// in proximity while the pen or the rubber is in range. Nothing else
/// changes but the pending-change mark, and nothing is reported.
pub proof fn lemma_tool_pen_event(s: PenState, ev: InputEvent)
    requires
        ev.type_ == EV_KEY,
        ev.code == BTN_TOOL_PEN,
    ensures
        ({
            let (t, out) = step(s, ev);
            &&& out is None
            &&& t.pen_in_range == (ev.value != 0)
            &&& t.proximity == (ev.value != 0 || s.rubber_in_range)
            &&& t.tool == (if ev.value != 0 { Tool::Pen } else { s.tool })
            &&& t.dirty
            &&& t.rubber_in_range == s.rubber_in_range
            &&& t.touching == s.touching
            &&& t.raw_x == s.raw_x && t.raw_y == s.raw_y && t.pressure == s.pressure
            &&& t.x_min == s.x_min && t.x_max == s.x_max && t.y_min == s.y_min && t.y_max == s.y_max
            &&& t.pressure_max == s.pressure_max && t.fd == s.fd
        }),
{
}

/// A rubber tool event: the rubber is in range exactly when the event's
/// value is non-zero, selects the eraser when it comes into range, and the
/// pen is in proximity while the pen or the rubber is in range.
pub proof fn lemma_tool_rubber_event(s: PenState, ev: InputEvent)
    requires
        ev.type_ == EV_KEY,
        ev.code == BTN_TOOL_RUBBER,
    ensures
        ({
            let (t, out) = step(s, ev);
            &&& out is None
            &&& t.rubber_in_range == (ev.value != 0)
            &&& t.proximity == (s.pen_in_range || ev.value != 0)
            &&& t.tool == (if ev.value != 0 { Tool::Eraser } else { s.tool })
            &&& t.dirty
            &&& t.pen_in_range == s.pen_in_range
            &&& t.touching == s.touching
            &&& t.raw_x == s.raw_x && t.raw_y == s.raw_y && t.pressure == s.pressure
            &&& t.x_min == s.x_min && t.x_max == s.x_max && t.y_min == s.y_min && t.y_max == s.y_max
            &&& t.pressure_max == s.pressure_max && t.fd == s.fd
        }),
{
}

/// A touch event: the pen touches exactly when the value is non-zero,
/// whatever the tool; nothing else changes but the pending-change mark.
pub proof fn lemma_touch_event(s: PenState, ev: InputEvent)
    requires
        ev.type_ == EV_KEY,
        ev.code == BTN_TOUCH,
    ensures
        step(s, ev).1 is None,
        step(s, ev).0 == (PenState { touching: ev.value != 0, dirty: true, ..s }),
{
}

/// An axis event stores its value as the raw X, raw Y or pressure and marks
/// a pending change; nothing else changes and nothing is reported.
pub proof fn lemma_axis_event(s: PenState, ev: InputEvent)
    requires
        ev.type_ == EV_ABS,
    ensures
        ev.code == ABS_X ==> step(s, ev) == (PenState { raw_x: ev.value, dirty: true, ..s }, None::<PenSample>),
        ev.code == ABS_Y ==> step(s, ev) == (PenState { raw_y: ev.value, dirty: true, ..s }, None::<PenSample>),
        ev.code == ABS_PRESSURE ==> step(s, ev) == (PenState { pressure: ev.value, dirty: true, ..s }, None::<PenSample>),
        !(ev.code == ABS_X || ev.code == ABS_Y || ev.code == ABS_PRESSURE) ==> step(s, ev) == (s, None::<PenSample>),
{
}

/// A report after a change emits one sample that carries the state's tool,
/// touch and proximity flags as they are, whatever the tool, with the
/// position and pressure of the state; the state is then clean and
/// otherwise unchanged. A report with nothing pending emits nothing.
pub proof fn lemma_report_event(s: PenState, ev: InputEvent)
    requires
        is_report(ev),
    ensures
        s.dirty ==> step(s, ev).1 is Some,
        s.dirty ==> ({
            let p = step(s, ev).1->0;
            &&& p.touching == s.touching
            &&& p.tool == s.tool
            &&& p.proximity == s.proximity
            &&& p.x == s.screen_x() as i32
            &&& p.y == s.screen_y() as i32
            &&& p.pressure == s.scaled_pressure() as i32
        }),
        s.dirty ==> step(s, ev).0 == (PenState { dirty: false, ..s }),
        !s.dirty ==> step(s, ev) == (s, None::<PenSample>),
{
}

/// Pressure scaling: none or less gives 0, the full range or more gives
/// `MAX_PRESSURE`, and harder pressing never lowers the reported pressure.
pub proof fn lemma_pressure_scaling(s: PenState, t: PenState)
    requires
        s.wf(),
        t.pressure_max == s.pressure_max,
        s.pressure <= t.pressure,
    ensures
        s.pressure <= 0 ==> s.scaled_pressure() == 0,
        s.pressure >= s.pressure_max ==> s.scaled_pressure() == 4095,
        0 <= s.scaled_pressure() <= t.scaled_pressure() <= 4095,
{
    let pm = s.pressure_max as int;
    let a = clamp(s.pressure as int, 0, pm);
    let b = clamp(t.pressure as int, 0, pm);
    assert(0 <= a * 4095 / pm <= b * 4095 / pm <= 4095) by (nonlinear_arith)
        requires
            0 <= a <= b <= pm,
            pm >= 1,
    ;
    assert(pm * 4095 / pm == 4095) by (nonlinear_arith)
        requires
            pm >= 1,
    ;
}

/// The screen position and pressure are the clamped raw offsets scaled and
/// rounded down: with span = the raw range (at least 1) and c = the raw
/// offset clamped to `0..=span`, the value v satisfies
/// `v * span <= c * scale < (v + 1) * span`. Screen X scales the offset of
/// raw Y from its minimum by 1403, screen Y the offset of raw X back from
/// its maximum by 1871, and pressure the pressure by 4095 over its range.
pub proof fn lemma_sample_scaling(s: PenState)
    requires
        s.pressure_max >= 1,
    ensures
        ({
            let sy = if s.y_max - s.y_min < 1 { 1 } else { s.y_max - s.y_min };
            let cy = if s.raw_y - s.y_min < 0 { 0 } else if s.raw_y - s.y_min > sy { sy } else { s.raw_y - s.y_min };
            let sx = if s.x_max - s.x_min < 1 { 1 } else { s.x_max - s.x_min };
            let cx = if s.x_max - s.raw_x < 0 { 0 } else if s.x_max - s.raw_x > sx { sx } else { s.x_max - s.raw_x };
            let pm = s.pressure_max as int;
            let cp = if s.pressure < 0 { 0 } else if s.pressure > s.pressure_max { pm } else { s.pressure as int };
            &&& s.screen_x() * sy <= cy * 1403 < (s.screen_x() + 1) * sy
            &&& s.screen_y() * sx <= cx * 1871 < (s.screen_y() + 1) * sx
            &&& s.scaled_pressure() * pm <= cp * 4095 < (s.scaled_pressure() + 1) * pm
        }),
{
    let sy = s.span_y();
    let cy = clamp(s.raw_y - s.y_min, 0, sy);
    let vx = s.screen_x();
    assert(vx * sy <= cy * 1403 < (vx + 1) * sy) by (nonlinear_arith)
        requires
            vx == cy * 1403 / sy,
            sy >= 1,
            cy >= 0,
    ;
    let sx = s.span_x();
    let cx = clamp(s.x_max - s.raw_x, 0, sx);
    let vy = s.screen_y();
    assert(vy * sx <= cx * 1871 < (vy + 1) * sx) by (nonlinear_arith)
        requires
            vy == cx * 1871 / sx,
            sx >= 1,
            cx >= 0,
    ;
    let pm = s.pressure_max as int;
    let cp = clamp(s.pressure as int, 0, pm);
    let vp = s.scaled_pressure();
    assert(vp * pm <= cp * 4095 < (vp + 1) * pm) by (nonlinear_arith)
        requires
            vp == cp * 4095 / pm,
            pm >= 1,
            cp >= 0,
    ;
}

/// Draining a single event takes one step: the state it leads to, and its
/// sample if it reports one. With `lemma_run_append`, this fixes every run.
pub proof fn lemma_run_single(s: PenState, ev: InputEvent)
    ensures
        run(s, seq![ev]).0 == step(s, ev).0,
        run(s, seq![ev]).1 == (match step(s, ev).1 {
            Some(p) => seq![p],
            None => Seq::<PenSample>::empty(),
        }),
        run(s, Seq::empty()) == (s, Seq::<PenSample>::empty()),
        run_defined(s, seq![ev]) == step_defined(s, ev),
{
    assert(seq![ev].drop_last() =~= Seq::<InputEvent>::empty());
    assert(seq![ev].last() == ev);
    assert(run(s, Seq::<InputEvent>::empty()) == (s, Seq::<PenSample>::empty()));
    assert(run_defined(s, Seq::<InputEvent>::empty()));
    assert(Seq::<PenSample>::empty() + opt_seq(step(s, ev).1) =~= opt_seq(step(s, ev).1));
}

/// Positions and ranges within ±2^19 (the digitizer's are in the tens of
/// thousands) and a pressure range up to 524415 never overflow a report.
pub open spec fn small_state(s: PenState) -> bool {
    &&& -0x8_0000 <= s.x_min <= 0x8_0000
    &&& -0x8_0000 <= s.x_max <= 0x8_0000
    &&& -0x8_0000 <= s.y_min <= 0x8_0000
    &&& -0x8_0000 <= s.y_max <= 0x8_0000
    &&& -0x8_0000 <= s.raw_x <= 0x8_0000
    &&& -0x8_0000 <= s.raw_y <= 0x8_0000
    &&& 1 <= s.pressure_max <= 524415
}

/// The events that keep a pen state small: axis values within ±2^19.
pub open spec fn small_event(ev: InputEvent) -> bool {
    ev.type_ == EV_ABS && (ev.code == ABS_X || ev.code == ABS_Y) ==> -0x8_0000 <= ev.value <= 0x8_0000
}

/// A report from a small state never overflows.
pub proof fn lemma_small_state_defined(s: PenState)
    requires
        small_state(s),
    ensures
        s.sample_defined(),
{
    let sy = s.span_y();
    let cy = clamp(s.raw_y - s.y_min, 0, sy);
    assert(cy * 1403 <= i32::MAX) by (nonlinear_arith)
        requires
            0 <= cy <= 0x10_0000,
    ;
    let sx = s.span_x();
    let cx = clamp(s.x_max - s.raw_x, 0, sx);
    assert(cx * 1871 <= i32::MAX) by (nonlinear_arith)
        requires
            0 <= cx <= 0x10_0000,
    ;
    let cp = clamp(s.pressure as int, 0, s.pressure_max as int);
    assert(cp * 4095 <= i32::MAX) by (nonlinear_arith)
        requires
            0 <= cp <= 524415,
    ;
}

/// Draining can always be done from a small state when the axis values read
/// stay within ±2^19: it never overflows, whatever else the events hold.
pub proof fn lemma_small_run_defined(s: PenState, evs: Seq<InputEvent>)
    requires
        small_state(s),
        forall|k: int| 0 <= k < evs.len() ==> small_event(#[trigger] evs[k]),
    ensures
        run_defined(s, evs),
        small_state(run(s, evs).0),
    decreases evs.len(),
{
    if evs.len() > 0 {
        let init = evs.drop_last();
        assert forall|k: int| 0 <= k < init.len() implies small_event(#[trigger] init[k]) by {
            assert(init[k] == evs[k]);
        }
        lemma_small_run_defined(s, init);
        let mid = run(s, init).0;
        lemma_small_state_defined(mid);
        assert(small_event(evs[evs.len() - 1]));
    }
}

/// The events the pen handles: axis, tool, touch and report events.
pub open spec fn is_pen_event(ev: InputEvent) -> bool {
    ||| (ev.type_ == EV_ABS && (ev.code == ABS_X || ev.code == ABS_Y || ev.code == ABS_PRESSURE))
    ||| (ev.type_ == EV_KEY && (ev.code == BTN_TOOL_PEN || ev.code == BTN_TOOL_RUBBER || ev.code
        == BTN_TOUCH))
    ||| is_report(ev)
}

/// Only the handled events matter: a run gives the same state and samples,
/// and can be handled on the same inputs, as the run of its handled events
/// alone. Events of any other type or code may be inserted or removed.
pub proof fn lemma_run_ignores_other_events(s: PenState, evs: Seq<InputEvent>)
    ensures
        run(s, evs) == run(s, evs.filter(|e: InputEvent| is_pen_event(e))),
        run_defined(s, evs) == run_defined(s, evs.filter(|e: InputEvent| is_pen_event(e))),
    decreases evs.len(),
{
    let pred = |e: InputEvent| is_pen_event(e);
    reveal(Seq::filter);
    if evs.len() > 0 {
        lemma_run_ignores_other_events(s, evs.drop_last());
        let f0 = evs.drop_last().filter(pred);
        assert(evs.filter(pred) == (if pred(evs.last()) { f0.push(evs.last()) } else { f0 }));
        if pred(evs.last()) {
            assert(f0.push(evs.last()).drop_last() =~= f0);
        } else {
            let out = run(s, evs.drop_last()).1;
            assert(out + Seq::<PenSample>::empty() =~= out);
        }
    }
}

/// Two event streams with the same handled events give the same state and
/// samples.
pub proof fn lemma_same_pen_events(s: PenState, a: Seq<InputEvent>, b: Seq<InputEvent>)
    requires
        a.filter(|e: InputEvent| is_pen_event(e)) == b.filter(|e: InputEvent| is_pen_event(e)),
    ensures
        run(s, a) == run(s, b),
        run_defined(s, a) == run_defined(s, b),
{
    lemma_run_ignores_other_events(s, a);
    lemma_run_ignores_other_events(s, b);
}

/// Number of event devices searched for the pen.
pub const EVENT_DEVICE_COUNT: usize = 32;

/// `needle` occurs in `hay` as a run of consecutive characters.
pub open spec fn contains_chars(hay: Seq<char>, needle: Seq<char>) -> bool {
    exists|i: int|
        0 <= i && i + needle.len() <= hay.len() && #[trigger] hay.subrange(i, i + needle.len())
            == needle
}

/// A lowercased input device name that belongs to a pen digitizer.
pub open spec fn pen_keyword(lowered: Seq<char>) -> bool {
    ||| contains_chars(lowered, "wacom"@)
    ||| contains_chars(lowered, "digitizer"@)
    ||| contains_chars(lowered, "marker"@)
    ||| contains_chars(lowered, "pen"@)
}

/// What `str::to_lowercase` returns for the characters `s` (full Unicode
/// lowercase mapping).
pub uninterp spec fn lowercase(s: Seq<char>) -> Seq<char>;

/// `str::to_lowercase`. Claims only that the result is a function of the
/// characters of `s`, named `lowercase`.
#[verifier::external_body]
fn to_lowercase(s: &str) -> (r: String)
    ensures
        r@ == lowercase(s@),
{
    s.to_lowercase()
}

/// Whether `needle` occurs in `hay` at character position `at`.
fn matches_at(hay: &str, needle: &str, at: usize, hl: usize, nl: usize) -> (r: bool)
    requires
        hl == hay@.len(),
        nl == needle@.len(),
        at + nl <= hl,
    ensures
        r == (hay@.subrange(at as int, at + nl) == needle@),
{
    let mut j: usize = 0;
    while j < nl
        invariant
            hl == hay@.len(),
            nl == needle@.len(),
            at + nl <= hl,
            j <= nl,
            forall|t: int| 0 <= t < j ==> hay@[at + t] == needle@[t],
        decreases nl - j,
    {
        if hay.get_char(at + j) != needle.get_char(j) {
            assert(hay@.subrange(at as int, at + nl)[j as int] != needle@[j as int]);
            return false;
        }
        j = j + 1;
    }
    assert(hay@.subrange(at as int, at + nl) =~= needle@);
    true
}

/// Whether `needle` occurs in `hay`.
fn contains_str(hay: &str, needle: &str) -> (r: bool)
    ensures
        r == contains_chars(hay@, needle@),
{
    let hl: usize = hay.unicode_len();
    let nl: usize = needle.unicode_len();
    if nl > hl {
        return false;
    }
    let last: usize = hl - nl;
    let mut i: usize = 0;
    loop
        invariant
            hl == hay@.len(),
            nl == needle@.len(),
            last == hl - nl,
            i <= last,
            forall|k: int| 0 <= k < i ==> #[trigger] hay@.subrange(k, k + nl) != needle@,
        decreases last - i,
    {
        if matches_at(hay, needle, i, hl, nl) {
            return true;
        }
        if i == last {
            return false;
        }
        i = i + 1;
    }
}

/// Whether a lowercased device name names a pen digitizer: it mentions
/// "wacom", "digitizer", "marker" or "pen".
pub fn is_pen_name(lowered: &str) -> (r: bool)
    ensures
        r == pen_keyword(lowered@),
{
    contains_str(lowered, "wacom") || contains_str(lowered, "digitizer") || contains_str(
        lowered,
        "marker",
    ) || contains_str(lowered, "pen")
}

/// Any name that contains one of the words "wacom", "digitizer", "marker"
/// or "pen" anywhere names a pen.
pub proof fn lemma_pen_words(a: Seq<char>, b: Seq<char>)
    ensures
        pen_keyword(a + "wacom"@ + b),
        pen_keyword(a + "digitizer"@ + b),
        pen_keyword(a + "marker"@ + b),
        pen_keyword(a + "pen"@ + b),
{
    let words = seq!["wacom"@, "digitizer"@, "marker"@, "pen"@];
    assert forall|k: int| 0 <= k < 4 implies #[trigger] contains_chars(a + words[k] + b, words[k]) by {
        let w = words[k];
        assert((a + w + b).subrange(a.len() as int, a.len() + w.len() as int) =~= w);
    }
    assert(contains_chars(a + words[0] + b, words[0]));
    assert(contains_chars(a + words[1] + b, words[1]));
    assert(contains_chars(a + words[2] + b, words[2]));
    assert(contains_chars(a + words[3] + b, words[3]));
}

/// A name is a pen name only when one of those words occurs in it.
pub proof fn lemma_pen_words_needed(l: Seq<char>)
    requires
        pen_keyword(l),
    ensures
        exists|i: int, w: Seq<char>|
            (w == "wacom"@ || w == "digitizer"@ || w == "marker"@ || w == "pen"@) && 0 <= i && i + w.len()
                <= l.len() && #[trigger] l.subrange(i, i + w.len()) == w,
{
}

/// The device `i` is the pen: its name, lowercased, names a digitizer.
pub open spec fn is_pen_device(names: Seq<String>, i: int) -> bool {
    pen_keyword(lowercase(names[i]@))
}

/// The first of the event devices `0..32` whose name (`names[i]` for
/// `/dev/input/event{i}`) names a pen digitizer; `None` when there is none.
pub fn find_pen_device(names: &Vec<String>) -> (r: Option<usize>)
    ensures
        match r {
            Some(i) => {
                &&& i < EVENT_DEVICE_COUNT
                &&& i < names@.len()
                &&& is_pen_device(names@, i as int)
                &&& forall|j: int| 0 <= j < i ==> !is_pen_device(names@, j)
            },
            None => forall|j: int|
                0 <= j < names@.len() && j < EVENT_DEVICE_COUNT ==> !is_pen_device(names@, j),
        },
{
    let mut i: usize = 0;
    while i < EVENT_DEVICE_COUNT && i < names.len()
        invariant
            i <= EVENT_DEVICE_COUNT,
            i <= names@.len(),
            forall|j: int| 0 <= j < i ==> !is_pen_device(names@, j),
        decreases EVENT_DEVICE_COUNT - i,
    {
        let lowered = to_lowercase(names[i].as_str());
        if is_pen_name(lowered.as_str()) {
            return Some(i);
        }
        i = i + 1;
    }
    None
}

} // verus!
