use riddle::evdev::{eviocgabs, ior, read_step, EventLayout, InputAbsInfo, InputEvent};

fn put(buf: &mut Vec<u8>, v: u64, n: usize, little: bool) {
    let bytes = v.to_le_bytes();
    if little {
        buf.extend_from_slice(&bytes[..n]);
    } else {
        let mut b: Vec<u8> = bytes[..n].to_vec();
        b.reverse();
        buf.extend_from_slice(&b);
    }
}

fn record(buf: &mut Vec<u8>, l: usize, little: bool, sec: i64, usec: i64, ty: u16, code: u16, value: i32) {
    put(buf, sec as u64, l, little);
    put(buf, usec as u64, l, little);
    put(buf, ty as u64, 2, little);
    put(buf, code as u64, 2, little);
    put(buf, value as u32 as u64, 4, little);
}

fn ev(sec: i64, usec: i64, type_: u16, code: u16, value: i32) -> InputEvent {
    InputEvent { time_sec: sec, time_usec: usec, type_, code, value }
}

#[test]
fn ior_matches_linux_encoding() {
    assert_eq!(ior(b'E', 0x40, 24), 0x8018_4540);
    assert_eq!(ior(0, 0, 0), 0x8000_0000);
    assert_eq!(ior(0xff, 0xff, 0x3fff), 0xbfff_ffff);
}

#[test]
fn ior_oversized_sizes_are_cut() {
    assert_eq!(ior(0, 0, 0x4000), 0xc000_0000);
    assert_eq!(ior(0, 0, 0x8000), 0x8000_0000);
    assert_eq!(ior(1, 2, 0x1_0000), 0x8000_0102);
    assert_eq!(ior(1, 2, 0x1_0018), 0x8018_0102);
}

#[test]
fn eviocgabs_requests() {
    assert_eq!(eviocgabs(0), 0x8018_4540);
    assert_eq!(eviocgabs(1), 0x8018_4541);
    assert_eq!(eviocgabs(24), 0x8018_4558);
    assert_eq!(eviocgabs(0xc0), 0x8018_4500);
}

#[test]
fn abs_info_default_is_zero() {
    let d = InputAbsInfo::default();
    assert_eq!(d, InputAbsInfo { value: 0, minimum: 0, maximum: 0, fuzz: 0, flat: 0, resolution: 0 });
}

#[test]
fn record_sizes() {
    assert_eq!(EventLayout { long_bytes: 4, little_endian: true }.record_size(), 16);
    assert_eq!(EventLayout { long_bytes: 8, little_endian: true }.record_size(), 24);
}

#[test]
fn decodes_32bit_records_and_drops_partial_tail() {
    let layout = EventLayout { long_bytes: 4, little_endian: true };
    let mut buf = Vec::new();
    record(&mut buf, 4, true, 5, 6, 3, 0, 1234);
    record(&mut buf, 4, true, -1, 999_999, 0, 0, -1);
    buf.extend_from_slice(&[1, 2, 3, 4, 5]);
    let total = buf.len();
    buf.resize(64 * 16, 0);
    let chunk = read_step(&buf, total as isize, layout);
    assert_eq!(chunk.events, vec![ev(5, 6, 3, 0, 1234), ev(-1, 999_999, 0, 0, -1)]);
    assert!(!chunk.more);
}

#[test]
fn decodes_64bit_records() {
    let layout = EventLayout { long_bytes: 8, little_endian: true };
    let mut buf = Vec::new();
    record(&mut buf, 8, true, 1_700_000_000, 42, 1, 330, 1);
    record(&mut buf, 8, true, i64::MIN, -7, 3, 24, i32::MIN);
    let n = buf.len();
    let chunk = read_step(&buf, n as isize, layout);
    assert_eq!(chunk.events, vec![ev(1_700_000_000, 42, 1, 330, 1), ev(i64::MIN, -7, 3, 24, i32::MIN)]);
    assert!(chunk.more);
}

#[test]
fn decodes_big_endian_records() {
    let layout = EventLayout { long_bytes: 4, little_endian: false };
    let mut buf = Vec::new();
    record(&mut buf, 4, false, 0x0102_0304, 7, 3, 1, -2);
    let chunk = read_step(&buf, 16, layout);
    assert_eq!(chunk.events, vec![ev(0x0102_0304, 7, 3, 1, -2)]);
    assert!(chunk.more);
}

#[test]
fn empty_or_failed_read_stops() {
    let layout = EventLayout { long_bytes: 4, little_endian: true };
    let buf = vec![0u8; 64 * 16];
    let c = read_step(&buf, 0, layout);
    assert!(c.events.is_empty() && !c.more);
    let c = read_step(&buf, -1, layout);
    assert!(c.events.is_empty() && !c.more);
}

#[test]
fn full_buffer_asks_for_more() {
    let layout = EventLayout { long_bytes: 4, little_endian: true };
    let buf = vec![0u8; 64 * 16];
    let c = read_step(&buf, (64 * 16) as isize, layout);
    assert_eq!(c.events.len(), 64);
    assert!(c.more);
    let c = read_step(&buf, (63 * 16 + 15) as isize, layout);
    assert_eq!(c.events.len(), 63);
    assert!(!c.more);
}
