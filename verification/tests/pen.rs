use riddle::evdev::{InputAbsInfo, InputEvent};
use riddle::pen::{
    find_pen_device, is_pen_name, PenDevice, PenSample, Tool, ABS_PRESSURE, ABS_X, ABS_Y, BTN_TOOL_PEN,
    BTN_TOOL_RUBBER, BTN_TOUCH, EV_ABS, EV_KEY, EV_SYN, MAX_PRESSURE, SYN_REPORT,
};

fn axis(min: i32, max: i32) -> InputAbsInfo {
    InputAbsInfo { minimum: min, maximum: max, ..Default::default() }
}

fn ev(type_: u16, code: u16, value: i32) -> InputEvent {
    InputEvent { time_sec: 0, time_usec: 0, type_, code, value }
}

fn syn() -> InputEvent {
    ev(EV_SYN, SYN_REPORT, 0)
}

fn rm1_pen() -> PenDevice {
    PenDevice::from_axes(9, Some(axis(0, 20967)), Some(axis(0, 15725)), Some(axis(0, 4095)))
}

#[test]
fn raw_fd_is_kept() {
    assert_eq!(rm1_pen().raw_fd(), 9);
}

#[test]
fn corner_maps_through_rotation() {
    let mut p = rm1_pen();
    let evs = vec![
        ev(EV_ABS, ABS_X, 0),
        ev(EV_ABS, ABS_Y, 15725),
        ev(EV_ABS, ABS_PRESSURE, 4095),
        ev(EV_KEY, BTN_TOOL_PEN, 1),
        ev(EV_KEY, BTN_TOUCH, 1),
        syn(),
    ];
    assert!(p.can_drain(&evs));
    let out = p.drain(&evs);
    assert_eq!(
        out,
        vec![PenSample { x: 1403, y: 1871, pressure: MAX_PRESSURE, tool: Tool::Pen, touching: true, proximity: true }]
    );
}

#[test]
fn opposite_corner_and_midpoint() {
    let mut p = rm1_pen();
    let out = p.drain(&vec![ev(EV_ABS, ABS_X, 20967), ev(EV_ABS, ABS_Y, 0), syn()]);
    assert_eq!((out[0].x, out[0].y, out[0].pressure), (0, 0, 0));
    let out = p.drain(&vec![ev(EV_ABS, ABS_X, 10000), ev(EV_ABS, ABS_Y, 7862), ev(EV_ABS, ABS_PRESSURE, 2000), syn()]);
    assert_eq!((out[0].x, out[0].y, out[0].pressure), (701, 978, 2000));
}

#[test]
fn out_of_range_values_are_clamped() {
    let mut p = rm1_pen();
    let out = p.drain(&vec![
        ev(EV_ABS, ABS_X, -500),
        ev(EV_ABS, ABS_Y, 99999),
        ev(EV_ABS, ABS_PRESSURE, 99999),
        syn(),
    ]);
    assert_eq!((out[0].x, out[0].y, out[0].pressure), (1403, 1871, 4095));
    let out = p.drain(&vec![ev(EV_ABS, ABS_X, 30000), ev(EV_ABS, ABS_Y, -4), ev(EV_ABS, ABS_PRESSURE, -3), syn()]);
    assert_eq!((out[0].x, out[0].y, out[0].pressure), (0, 0, 0));
}

#[test]
fn report_without_change_is_silent() {
    let mut p = rm1_pen();
    assert!(p.drain(&vec![syn()]).is_empty());
    let out = p.drain(&vec![ev(EV_ABS, ABS_X, 5), syn(), syn(), ev(EV_SYN, 1, 0)]);
    assert_eq!(out.len(), 1);
}

#[test]
fn unknown_events_are_ignored() {
    let mut p = rm1_pen();
    let out = p.drain(&vec![ev(EV_ABS, 47, 3), ev(EV_KEY, 999, 1), ev(4, 4, 4), syn()]);
    assert!(out.is_empty());
}

#[test]
fn rubber_selects_eraser_and_pen_takes_back() {
    let mut p = rm1_pen();
    let out = p.drain(&vec![ev(EV_KEY, BTN_TOOL_RUBBER, 1), syn()]);
    assert_eq!((out[0].tool, out[0].proximity), (Tool::Eraser, true));
    let out = p.drain(&vec![ev(EV_KEY, BTN_TOOL_RUBBER, 0), syn()]);
    assert_eq!((out[0].tool, out[0].proximity), (Tool::Eraser, false));
    let out = p.drain(&vec![ev(EV_KEY, BTN_TOOL_PEN, 1), syn()]);
    assert_eq!((out[0].tool, out[0].proximity), (Tool::Pen, true));
    let out = p.drain(&vec![ev(EV_KEY, BTN_TOOL_RUBBER, 1), ev(EV_KEY, BTN_TOOL_PEN, 0), syn()]);
    assert_eq!((out[0].tool, out[0].proximity), (Tool::Eraser, true));
}

#[test]
fn touch_release() {
    let mut p = rm1_pen();
    let out = p.drain(&vec![ev(EV_KEY, BTN_TOUCH, 1), syn(), ev(EV_KEY, BTN_TOUCH, 0), syn()]);
    assert_eq!(out.len(), 2);
    assert!(out[0].touching && !out[1].touching);
}

#[test]
fn defaults_when_axes_unknown() {
    let mut p = PenDevice::from_axes(1, None, None, None);
    let out = p.drain(&vec![ev(EV_ABS, ABS_X, 0), ev(EV_ABS, ABS_Y, 15725), ev(EV_ABS, ABS_PRESSURE, 4095), syn()]);
    assert_eq!((out[0].x, out[0].y, out[0].pressure), (1403, 1871, 4095));
}

#[test]
fn starts_at_axis_minima() {
    let mut p = PenDevice::from_axes(1, Some(axis(100, 1100)), Some(axis(-50, 950)), None);
    let out = p.drain(&vec![ev(EV_ABS, ABS_PRESSURE, 0), syn()]);
    assert_eq!((out[0].x, out[0].y), (0, 1871));
}

#[test]
fn zero_pressure_range_becomes_one() {
    let mut p = PenDevice::from_axes(1, None, None, Some(axis(0, 0)));
    let out = p.drain(&vec![ev(EV_ABS, ABS_PRESSURE, 5), syn()]);
    assert_eq!(out[0].pressure, 4095);
    let out = p.drain(&vec![ev(EV_ABS, ABS_PRESSURE, 0), syn()]);
    assert_eq!(out[0].pressure, 0);
}

#[test]
fn degenerate_axis_range_does_not_divide_by_zero() {
    let mut p = PenDevice::from_axes(1, Some(axis(10, 10)), Some(axis(10, 10)), None);
    let out = p.drain(&vec![ev(EV_ABS, ABS_X, 0), ev(EV_ABS, ABS_Y, 20), syn()]);
    assert_eq!((out[0].x, out[0].y), (1403, 1871));
}

#[test]
fn overflowing_report_is_refused() {
    let p = PenDevice::from_axes(1, Some(axis(0, i32::MAX)), None, None);
    let evs = vec![ev(EV_ABS, ABS_X, -1), syn()];
    assert!(!p.can_drain(&evs));
    let ok = vec![ev(EV_ABS, ABS_X, -1)];
    assert!(p.can_drain(&ok));
    let p = PenDevice::from_axes(1, None, Some(axis(0, 2_000_000)), None);
    assert!(!p.can_drain(&vec![ev(EV_ABS, ABS_Y, 2_000_000), syn()]));
    assert!(p.can_drain(&vec![ev(EV_ABS, ABS_Y, 1000), syn()]));
}

#[test]
fn draining_in_two_reads_equals_one() {
    let evs = vec![
        ev(EV_ABS, ABS_X, 300),
        ev(EV_ABS, ABS_Y, 400),
        syn(),
        ev(EV_KEY, BTN_TOUCH, 1),
        ev(EV_ABS, ABS_PRESSURE, 1000),
        syn(),
        ev(EV_ABS, ABS_Y, 12000),
        syn(),
    ];
    let mut one = rm1_pen();
    let all = one.drain(&evs);
    for cut in 0..=evs.len() {
        let mut two = rm1_pen();
        let mut out = two.drain(&evs[..cut].to_vec());
        out.extend(two.drain(&evs[cut..].to_vec()));
        assert_eq!(out, all);
    }
    assert_eq!(all.len(), 3);
}

#[test]
fn pen_names() {
    assert!(is_pen_name("wacom i2c digitizer"));
    assert!(is_pen_name("hid digitizer"));
    assert!(is_pen_name("elan marker"));
    assert!(is_pen_name("stylus pen"));
    assert!(!is_pen_name("cyttsp5_mt"));
    assert!(!is_pen_name("gpio-keys"));
    assert!(!is_pen_name(""));
    assert!(!is_pen_name("WACOM"));
}

fn names(list: &[&str]) -> Vec<String> {
    list.iter().map(|s| s.to_string()).collect()
}

#[test]
fn finds_first_pen_device() {
    assert_eq!(find_pen_device(&names(&["gpio-keys", "cyttsp5_mt", "Wacom I2C Digitizer", "pen"])), Some(2));
    assert_eq!(find_pen_device(&names(&["", "", "", "x-pen"])), Some(3));
}

#[test]
fn name_match_ignores_case() {
    assert_eq!(find_pen_device(&names(&["cyttsp5_mt", "WACOM"])), Some(1));
    assert_eq!(find_pen_device(&names(&["MARKER"])), Some(0));
}

#[test]
fn no_pen_device() {
    assert_eq!(find_pen_device(&names(&["gpio-keys", "cyttsp5_mt"])), None);
    assert_eq!(find_pen_device(&Vec::new()), None);
    let mut many = vec![String::new(); 40];
    many[35] = "wacom".to_string();
    assert_eq!(find_pen_device(&many), None);
    many[31] = "wacom".to_string();
    assert_eq!(find_pen_device(&many), Some(31));
}

#[test]
fn other_events_may_be_inserted_or_removed() {
    let plain = vec![ev(EV_ABS, ABS_X, 300), ev(EV_ABS, ABS_Y, 400), syn(), ev(EV_KEY, BTN_TOUCH, 1), syn()];
    let noisy = vec![
        ev(4, 4, 77),
        ev(EV_ABS, ABS_X, 300),
        ev(EV_ABS, 25, 9),
        ev(EV_ABS, ABS_Y, 400),
        ev(EV_SYN, 3, 0),
        syn(),
        ev(EV_KEY, BTN_TOUCH, 1),
        ev(EV_KEY, 331, 1),
        syn(),
    ];
    let mut a = rm1_pen();
    let mut b = rm1_pen();
    assert_eq!(a.drain(&plain), b.drain(&noisy));
    let tail = vec![ev(EV_ABS, ABS_PRESSURE, 100), syn()];
    assert_eq!(a.drain(&tail), b.drain(&tail));
}

#[test]
fn large_pressure_range_is_refused_only_at_report() {
    let p = PenDevice::from_axes(1, None, None, Some(axis(0, 1 << 30)));
    assert!(p.can_drain(&vec![ev(EV_ABS, ABS_PRESSURE, 1 << 30)]));
    assert!(!p.can_drain(&vec![ev(EV_ABS, ABS_PRESSURE, 1 << 30), syn()]));
    assert!(p.can_drain(&vec![ev(EV_ABS, ABS_PRESSURE, 1000), syn()]));
}
