use riddle::geometry::{SCREEN_H, SCREEN_W};
use riddle::rm1fb::{
    MxcfbRect, MxcfbUpdateData, Rm1Framebuffer, FALLBACK_STRIDE, TEMP_DRAW, UPDATE_MODE_FULL,
    UPDATE_MODE_PARTIAL, WAVEFORM_DU, WAVEFORM_GC16, WAVEFORM_GC16_FAST,
};

fn fb() -> Rm1Framebuffer {
    Rm1Framebuffer::from_screeninfo(7, 0, 2816)
}

fn rect(d: &MxcfbUpdateData) -> (u32, u32, u32, u32) {
    let r = d.update_region;
    (r.left, r.top, r.width, r.height)
}

#[test]
fn stride_from_driver_when_wide_enough() {
    let f = Rm1Framebuffer::from_screeninfo(3, 0, 3000);
    assert_eq!(f.stride, 3000);
    assert_eq!(f.len(), 3000 * SCREEN_H);
    assert_eq!(f.fd(), 3);
}

#[test]
fn stride_falls_back_on_failed_query_or_short_line() {
    assert_eq!(Rm1Framebuffer::from_screeninfo(3, -1, 3000).stride, FALLBACK_STRIDE);
    assert_eq!(Rm1Framebuffer::from_screeninfo(3, 0, 100).stride, 2816);
    assert_eq!(Rm1Framebuffer::from_screeninfo(3, 0, 2807).stride, 2816);
    assert_eq!(Rm1Framebuffer::from_screeninfo(3, 0, 2808).stride, 2808);
    assert_eq!(Rm1Framebuffer::from_screeninfo(3, 0, 100).len(), 2816 * 1872);
}

#[test]
fn partial_update_is_widened_to_blocks() {
    let mut f = fb();
    let d = f.update(10, 10, 5, 5, false).unwrap();
    assert_eq!(rect(&d), (8, 8, 8, 8));
    assert_eq!(d.waveform_mode, WAVEFORM_GC16_FAST);
    assert_eq!(d.update_mode, UPDATE_MODE_PARTIAL);
    assert_eq!(d.update_marker, 2);
    assert_eq!(d.temp, TEMP_DRAW);
    assert_eq!(d.flags, 0);
    assert_eq!(d.dither_mode, 0);
    assert_eq!(d.quant_bit, 0);
    assert_eq!(d.alt_buffer_data.alt_update_region, MxcfbRect { top: 0, left: 0, width: 0, height: 0 });
}

#[test]
fn fast_update_uses_du() {
    let mut f = fb();
    let d = f.update(0, 0, 16, 16, true).unwrap();
    assert_eq!(d.waveform_mode, WAVEFORM_DU);
    assert_eq!(rect(&d), (0, 0, 16, 16));
}

#[test]
fn empty_or_offscreen_requests_send_nothing_and_keep_the_marker() {
    let mut f = fb();
    assert!(f.update(10, 10, 0, 5, false).is_none());
    assert!(f.update(10, 10, 5, -1, false).is_none());
    assert!(f.update(-5, 10, 3, 5, false).is_none());
    assert!(f.update(10, -20, 5, 20, false).is_none());
    assert_eq!(f.update(0, 0, 1, 1, false).unwrap().update_marker, 2);
}

#[test]
fn markers_advance_by_one_per_update() {
    let mut f = fb();
    let a = f.update(0, 0, 8, 8, false).unwrap().update_marker;
    let b = f.update_all().unwrap().update_marker;
    let c = f.full_refresh().unwrap().update_marker;
    assert_eq!((a, b, c), (2, 3, 4));
}

#[test]
fn whole_panel_refreshes() {
    let mut f = fb();
    let d = f.update_all().unwrap();
    assert_eq!(rect(&d), (0, 0, SCREEN_W as u32, SCREEN_H as u32));
    assert_eq!(d.waveform_mode, WAVEFORM_GC16_FAST);
    assert_eq!(d.update_mode, UPDATE_MODE_PARTIAL);
    let d = f.full_refresh().unwrap();
    assert_eq!(rect(&d), (0, 0, 1404, 1872));
    assert_eq!(d.waveform_mode, WAVEFORM_GC16);
    assert_eq!(d.update_mode, UPDATE_MODE_FULL);
}

#[test]
fn right_edge_is_cut_to_the_panel() {
    let mut f = fb();
    let d = f.update(1398, 1860, 100, 100, false).unwrap();
    assert_eq!(rect(&d), (1392, 1856, 12, 16));
}

#[test]
fn request_beyond_the_right_edge_refreshes_the_last_block() {
    let mut f = fb();
    let d = f.update(2000, 3000, 10, 10, false).unwrap();
    assert_eq!(rect(&d), (1400, 1864, 4, 8));
}

#[test]
fn huge_width_saturates() {
    let mut f = fb();
    let d = f.update(100, 5, i32::MAX, 3, false).unwrap();
    assert_eq!(rect(&d), (96, 0, 1308, 8));
}

#[test]
fn negative_origin_is_clipped() {
    let mut f = fb();
    let d = f.update(-30, -30, 50, 45, false).unwrap();
    assert_eq!(rect(&d), (0, 0, 24, 16));
}

#[test]
fn mapping_length_fits() {
    assert!(Rm1Framebuffer::screeninfo_fits(0, 2816));
    assert!(Rm1Framebuffer::screeninfo_fits(-1, u32::MAX));
    assert_eq!(Rm1Framebuffer::screeninfo_fits(0, u32::MAX), (u32::MAX as usize).checked_mul(1872).is_some());
}

#[test]
fn stride_getter_matches_field() {
    let f = Rm1Framebuffer::from_screeninfo(3, 0, 3000);
    assert_eq!(f.stride(), f.stride);
    assert_eq!(f.stride(), 3000);
}

#[test]
fn kth_sent_request_carries_k_plus_one() {
    let mut f = fb();
    let mut sent = Vec::new();
    for i in 0..10 {
        if let Some(d) = f.update(i * 10 - 30, 0, 20, 8, i % 2 == 0) {
            sent.push(d.update_marker);
        }
    }
    let expected: Vec<u32> = (2..(2 + sent.len() as u32)).collect();
    assert_eq!(sent, expected);
    assert_eq!(sent.len(), 8);
}
