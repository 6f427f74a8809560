//! Native reMarkable 1 framebuffer: mapping layout and the planning of
//! `MXCFB_SEND_UPDATE` refresh requests.
//!
//! The electrophoretic display controller refreshes rectangles best when they
//! sit on 8-pixel blocks, so every requested rectangle is clipped to the panel
//! and widened outwards to the block grid (but never past the panel edge).
use vstd::prelude::*;
use crate::geometry::{SCREEN_W, SCREEN_H, clamp};

verus! {

pub const UPDATE_MODE_PARTIAL: u32 = 0;
pub const UPDATE_MODE_FULL: u32 = 1;
pub const WAVEFORM_DU: u32 = 1;
pub const WAVEFORM_GC16: u32 = 2;
pub const WAVEFORM_GC16_FAST: u32 = 3;
pub const TEMP_DRAW: i32 = 0x18;

/// Bytes per line of the native RGB565 framebuffer when the driver does not
/// report one: the visible width is 1404 but a line holds 1408 pixels.
pub const FALLBACK_STRIDE: usize = 2816;

/// `struct mxcfb_rect`.
#[derive(Clone, Copy, Debug, PartialEq, Eq, Structural)]
pub struct MxcfbRect {
    pub top: u32,
    pub left: u32,
    pub width: u32,
    pub height: u32,
}

/// `struct mxcfb_alt_buffer_data`.
#[derive(Clone, Copy, Debug, PartialEq, Eq, Structural)]
pub struct MxcfbAltBufferData {
    pub phys_addr: u32,
    pub width: u32,
    pub height: u32,
    pub alt_update_region: MxcfbRect,
}

/// `struct mxcfb_update_data`, the argument of `MXCFB_SEND_UPDATE`.
#[derive(Clone, Copy, Debug, PartialEq, Eq, Structural)]
pub struct MxcfbUpdateData {
    pub update_region: MxcfbRect,
    pub waveform_mode: u32,
    pub update_mode: u32,
    pub update_marker: u32,
    pub temp: i32,
    pub flags: u32,
    pub dither_mode: i32,
    pub quant_bit: i32,
    pub alt_buffer_data: MxcfbAltBufferData,
}

/// The framebuffer device: its descriptor, the mapped length and line stride,
/// and the counter from which update markers are drawn.
pub struct Rm1Framebuffer {
    fd: i32,
    len: usize,
    pub stride: usize,
    marker: u32,
}

pub open spec fn min(a: int, b: int) -> int {
    if a <= b { a } else { b }
}

/// Largest multiple of 8 that is at most `v` (for `v >= 0`).
pub open spec fn align_down8(v: int) -> int {
    v - v % 8
}

/// Smallest multiple of 8 that is at least `v` (for `v >= 0`).
pub open spec fn align_up8(v: int) -> int {
    align_down8(v + 7)
}

/// The panel region refreshed for a request of width `w` and height `h` at
/// `(x, y)`: the request is clipped to the panel (the left/top edge to the
/// last column/row), widened out to 8-pixel blocks and cut back to the panel
/// edge. `None` when nothing is left to refresh.
pub open spec fn refresh_region(x: int, y: int, w: int, h: int) -> Option<MxcfbRect> {
    if w <= 0 || h <= 0 {
        None
    } else {
        let x0 = clamp(x, 0, SCREEN_W - 1);
        let y0 = clamp(y, 0, SCREEN_H - 1);
        let x1 = clamp(x + w, 0, SCREEN_W as int);
        let y1 = clamp(y + h, 0, SCREEN_H as int);
        if x1 <= x0 || y1 <= y0 {
            None
        } else {
            let left = align_down8(x0);
            let top = align_down8(y0);
            let right = min(align_up8(x1), SCREEN_W as int);
            let bottom = min(align_up8(y1), SCREEN_H as int);
            Some(
                MxcfbRect {
                    top: top as u32,
                    left: left as u32,
                    width: (right - left) as u32,
                    height: (bottom - top) as u32,
                },
            )
        }
    }
}

/// Waveform: GC16 for a full refresh, DU for a fast partial one, GC16_FAST
/// otherwise.
pub open spec fn waveform_for(fast: bool, full: bool) -> u32 {
    if full {
        WAVEFORM_GC16
    } else if fast {
        WAVEFORM_DU
    } else {
        WAVEFORM_GC16_FAST
    }
}

pub open spec fn update_mode_for(full: bool) -> u32 {
    if full { UPDATE_MODE_FULL } else { UPDATE_MODE_PARTIAL }
}

pub open spec fn zero_rect() -> MxcfbRect {
    MxcfbRect { top: 0, left: 0, width: 0, height: 0 }
}

/// The update request sent for `region` with the given marker.
pub open spec fn update_request(region: MxcfbRect, marker: u32, fast: bool, full: bool) -> MxcfbUpdateData {
    MxcfbUpdateData {
        update_region: region,
        waveform_mode: waveform_for(fast, full),
        update_mode: update_mode_for(full),
        update_marker: marker,
        temp: TEMP_DRAW,
        flags: 0,
        dither_mode: 0,
        quant_bit: 0,
        alt_buffer_data: MxcfbAltBufferData {
            phys_addr: 0,
            width: 0,
            height: 0,
            alt_update_region: zero_rect(),
        },
    }
}

/// The marker that follows `m` (the counter wraps around).
pub open spec fn next_marker(m: u32) -> u32 {
    ((m + 1) % 0x1_0000_0000) as u32
}

/// `after` and the answer `r` are what planning the refresh of a `w` x `h`
/// rectangle at `(x, y)` gives from `before`: the layout is kept; nothing is
/// sent and the marker is kept when no region is left, else the request for
/// the region goes out under the next marker.
pub open spec fn refresh_planned(
    before: Rm1Framebuffer,
    after: Rm1Framebuffer,
    x: int,
    y: int,
    w: int,
    h: int,
    fast: bool,
    full: bool,
    r: Option<MxcfbUpdateData>,
) -> bool {
    &&& after.spec_stride() == before.spec_stride()
    &&& after.spec_fd() == before.spec_fd()
    &&& after.spec_len() == before.spec_len()
    &&& match refresh_region(x, y, w, h) {
        None => r is None && after.spec_marker() == before.spec_marker(),
        Some(region) => {
            &&& after.spec_marker() == next_marker(before.spec_marker())
            &&& r == Some(update_request(region, after.spec_marker(), fast, full))
        },
    }
}

/// Line stride chosen at open: the driver's line length when the
/// `FBIOGET_FSCREENINFO` query succeeded and the line holds a full visible
/// row of RGB565 pixels, else the native 1408-pixel line.
pub open spec fn stride_for(ioctl_rc: i32, line_length: u32) -> int {
    if ioctl_rc == 0 && line_length >= SCREEN_W * 2 {
        line_length as int
    } else {
        FALLBACK_STRIDE as int
    }
}

fn clamp_i64(v: i64, lo: i64, hi: i64) -> (r: i64)
    requires
        lo <= hi,
    ensures
        r == clamp(v as int, lo as int, hi as int),
{
    if v < lo {
        lo
    } else if v > hi {
        hi
    } else {
        v
    }
}

proof fn lemma_align_down8_u32(v: u32)
    ensures
        v & !7u32 == align_down8(v as int),
{
    assert(v & !7u32 == v - v % 8) by (bit_vector);
}

impl Rm1Framebuffer {
    pub closed spec fn spec_fd(&self) -> i32 {
        self.fd
    }

    pub closed spec fn spec_stride(&self) -> usize {
        self.stride
    }

    pub closed spec fn spec_len(&self) -> usize {
        self.len
    }

    /// The marker of the most recent update (1 before the first).
    pub closed spec fn spec_marker(&self) -> u32 {
        self.marker
    }

    /// The framebuffer opened on `fd`, given the outcome of the
    /// `FBIOGET_FSCREENINFO` query (`ioctl_rc`, and the `line_length` it
    /// reported). The mapping spans `stride * SCREEN_H` bytes.
    pub fn from_screeninfo(fd: i32, ioctl_rc: i32, line_length: u32) -> (fb: Self)
        requires
            stride_for(ioctl_rc, line_length) * SCREEN_H <= usize::MAX,
        ensures
            fb.spec_stride() == stride_for(ioctl_rc, line_length),
            fb.spec_len() == fb.spec_stride() * SCREEN_H,
            fb.spec_fd() == fd,
            fb.spec_marker() == 1,
            ioctl_rc == 0 && line_length >= 2808 ==> fb.spec_stride() == line_length,
            !(ioctl_rc == 0 && line_length >= 2808) ==> fb.spec_stride() == 2816,
            fb.spec_len() == fb.spec_stride() * 1872,
    {
        let stride: usize = if ioctl_rc == 0 && line_length >= 2808 {
            line_length as usize
        } else {
            FALLBACK_STRIDE
        };
        let len: usize = stride * SCREEN_H;
        Rm1Framebuffer { fd, len, stride, marker: 1 }
    }

    /// Whether the mapping length for this query outcome fits in a `usize`
    /// (always on 64-bit machines).
    pub fn screeninfo_fits(ioctl_rc: i32, line_length: u32) -> (r: bool)
        ensures
            r == (stride_for(ioctl_rc, line_length) * SCREEN_H <= usize::MAX),
    {
        let stride: usize = if ioctl_rc == 0 && line_length >= 2808 {
            line_length as usize
        } else {
            FALLBACK_STRIDE
        };
        stride <= usize::MAX / SCREEN_H
    }

    /// Bytes per framebuffer line.
    pub fn stride(&self) -> (r: usize)
        ensures
            r == self.spec_stride(),
    {
        self.stride
    }

    pub fn fd(&self) -> (r: i32)
        ensures
            r == self.spec_fd(),
    {
        self.fd
    }

    /// Length in bytes of the mapping.
    pub fn len(&self) -> (r: usize)
        ensures
            r == self.spec_len(),
    {
        self.len
    }

    /// Plans the refresh of a `w` x `h` rectangle at `(x, y)`: `None` when
    /// nothing of it is left on the panel, else the `MXCFB_SEND_UPDATE`
    /// request, which takes the next marker.
    pub fn refresh(&mut self, x: i32, y: i32, w: i32, h: i32, fast: bool, full: bool) -> (r: Option<MxcfbUpdateData>)
        ensures
            refresh_planned(*old(self), *final(self), x as int, y as int, w as int, h as int, fast, full, r),
    {
        if w <= 0 || h <= 0 {
            return None;
        }
        let sw: i64 = 1404;
        let sh: i64 = 1872;
        let x0: i64 = clamp_i64(x as i64, 0, sw - 1);
        let y0: i64 = clamp_i64(y as i64, 0, sh - 1);
        let x1: i64 = clamp_i64(x as i64 + w as i64, 0, sw);
        let y1: i64 = clamp_i64(y as i64 + h as i64, 0, sh);
        if x1 <= x0 || y1 <= y0 {
            return None;
        }
        let x0: u32 = x0 as u32;
        let y0: u32 = y0 as u32;
        let x1: u32 = x1 as u32;
        let y1: u32 = y1 as u32;
        let left: u32 = x0 & !7u32;
        let top: u32 = y0 & !7u32;
        let right_up: u32 = (x1 + 7) & !7u32;
        let bottom_up: u32 = (y1 + 7) & !7u32;
        proof {
            lemma_align_down8_u32(x0);
            lemma_align_down8_u32(y0);
            lemma_align_down8_u32((x1 + 7) as u32);
            lemma_align_down8_u32((y1 + 7) as u32);
        }
        let right: u32 = if right_up < 1404 { right_up } else { 1404 };
        let bottom: u32 = if bottom_up < 1872 { bottom_up } else { 1872 };
        self.marker = self.marker.wrapping_add(1);
        let data = MxcfbUpdateData {
            update_region: MxcfbRect { top, left, width: right - left, height: bottom - top },
            waveform_mode: if full {
                WAVEFORM_GC16
            } else if fast {
                WAVEFORM_DU
            } else {
                WAVEFORM_GC16_FAST
            },
            update_mode: if full { UPDATE_MODE_FULL } else { UPDATE_MODE_PARTIAL },
            update_marker: self.marker,
            temp: TEMP_DRAW,
            flags: 0,
            dither_mode: 0,
            quant_bit: 0,
            alt_buffer_data: MxcfbAltBufferData {
                phys_addr: 0,
                width: 0,
                height: 0,
                alt_update_region: MxcfbRect { top: 0, left: 0, width: 0, height: 0 },
            },
        };
        Some(data)
    }
}


impl Rm1Framebuffer {
    /// Partial refresh of a `w` x `h` rectangle at `(x, y)`, fast (DU) or
    /// quality (GC16_FAST); `None` when nothing of it is on the panel.
    pub fn update(&mut self, x: i32, y: i32, w: i32, h: i32, fast: bool) -> (r: Option<MxcfbUpdateData>)
        ensures
            refresh_planned(*old(self), *final(self), x as int, y as int, w as int, h as int, fast, false, r),
    {
        self.refresh(x, y, w, h, fast, false)
    }

    /// Partial GC16_FAST refresh of the whole panel.
    pub fn update_all(&mut self) -> (r: Option<MxcfbUpdateData>)
        ensures
            final(self).spec_stride() == old(self).spec_stride(),
            final(self).spec_fd() == old(self).spec_fd(),
            final(self).spec_len() == old(self).spec_len(),
            final(self).spec_marker() == next_marker(old(self).spec_marker()),
            r == Some(update_request(whole_panel(), final(self).spec_marker(), false, false)),
    {
        proof {
            lemma_whole_panel_region();
        }
        self.update(0, 0, 1404, 1872, false)
    }

    /// Full GC16 refresh of the whole panel.
    pub fn full_refresh(&mut self) -> (r: Option<MxcfbUpdateData>)
        ensures
            final(self).spec_stride() == old(self).spec_stride(),
            final(self).spec_fd() == old(self).spec_fd(),
            final(self).spec_len() == old(self).spec_len(),
            final(self).spec_marker() == next_marker(old(self).spec_marker()),
            r == Some(update_request(whole_panel(), final(self).spec_marker(), false, true)),
    {
        proof {
            lemma_whole_panel_region();
        }
        self.refresh(0, 0, 1404, 1872, false, true)
    }
}

/// The line stride: the driver's line length whenever the query succeeded
/// and a line holds a visible row of RGB565 pixels (2808 bytes), else the
/// native 1408-pixel line of 2816 bytes; either way a full visible row fits.
pub proof fn lemma_stride_choice(ioctl_rc: i32, line_length: u32)
    ensures
        ioctl_rc == 0 && line_length >= 2808 ==> stride_for(ioctl_rc, line_length) == line_length,
        ioctl_rc != 0 ==> stride_for(ioctl_rc, line_length) == 2816,
        line_length < 2808 ==> stride_for(ioctl_rc, line_length) == 2816,
        stride_for(ioctl_rc, line_length) >= 2 * SCREEN_W,
{
}

/// The whole visible panel.
pub open spec fn whole_panel() -> MxcfbRect {
    MxcfbRect { top: 0, left: 0, width: SCREEN_W as u32, height: SCREEN_H as u32 }
}

/// A request for the whole panel refreshes exactly the whole panel.
pub proof fn lemma_whole_panel_region()
    ensures
        refresh_region(0, 0, SCREEN_W as int, SCREEN_H as int) == Some(whole_panel()),
{
}

/// A refresh is planned exactly when the rectangle is non-empty and reaches
/// into the panel past its left and top edges.
pub proof fn lemma_refresh_planned_iff(x: int, y: int, w: int, h: int)
    ensures
        refresh_region(x, y, w, h) is Some <==> (w > 0 && h > 0 && x + w > 0 && y + h > 0),
{
}

/// A planned region lies inside the panel, is non-empty, starts on the
/// 8-pixel block grid, ends on it or on the panel edge, and is widened by
/// less than one block on each side of the clipped request.
pub proof fn lemma_refresh_region_on_block_grid(x: int, y: int, w: int, h: int)
    requires
        refresh_region(x, y, w, h) is Some,
    ensures
        ({
            let r = refresh_region(x, y, w, h)->0;
            &&& r.left % 8 == 0
            &&& r.top % 8 == 0
            &&& r.width > 0
            &&& r.height > 0
            &&& r.left + r.width <= SCREEN_W
            &&& r.top + r.height <= SCREEN_H
            &&& ((r.left + r.width) % 8 == 0 || r.left + r.width == SCREEN_W)
            &&& ((r.top + r.height) % 8 == 0 || r.top + r.height == SCREEN_H)
            &&& clamp(x, 0, SCREEN_W - 1) - 8 < r.left
            &&& clamp(y, 0, SCREEN_H - 1) - 8 < r.top
            &&& r.left + r.width < clamp(x + w, 0, SCREEN_W as int) + 8
            &&& r.top + r.height < clamp(y + h, 0, SCREEN_H as int) + 8
        }),
{
}

/// `q` is a multiple of 8.
pub open spec fn on_block_grid(q: int) -> bool {
    q % 8 == 0
}

/// A planned region is the tightest block-aligned cover of the clipped
/// request: no multiple of 8 lies strictly between its left (top) edge and
/// the clipped left (top) edge, and none lies between the clipped right
/// (bottom) edge and its right (bottom) edge.
pub proof fn lemma_refresh_region_is_tightest(x: int, y: int, w: int, h: int)
    requires
        refresh_region(x, y, w, h) is Some,
    ensures
        ({
            let r = refresh_region(x, y, w, h)->0;
            let x0 = clamp(x, 0, SCREEN_W - 1);
            let y0 = clamp(y, 0, SCREEN_H - 1);
            let x1 = clamp(x + w, 0, SCREEN_W as int);
            let y1 = clamp(y + h, 0, SCREEN_H as int);
            &&& r.left <= x0 < x1 <= r.left + r.width
            &&& r.top <= y0 < y1 <= r.top + r.height
            &&& forall|q: int| r.left < q <= x0 ==> !#[trigger] on_block_grid(q)
            &&& forall|q: int| r.top < q <= y0 ==> !#[trigger] on_block_grid(q)
            &&& forall|q: int| x1 <= q < r.left + r.width ==> !#[trigger] on_block_grid(q)
            &&& forall|q: int| y1 <= q < r.top + r.height ==> !#[trigger] on_block_grid(q)
        }),
{
}

/// What a refresh request carries: the region and marker given, the
/// drawing temperature, no flags, dithering or alternate buffer; a full
/// refresh is a GC16 full update, a fast one a DU partial update, any other
/// a GC16_FAST partial update.
pub proof fn lemma_update_request_fields(region: MxcfbRect, marker: u32, fast: bool, full: bool)
    ensures
        ({
            let d = update_request(region, marker, fast, full);
            &&& d.update_region == region
            &&& d.update_marker == marker
            &&& d.temp == 0x18
            &&& d.flags == 0 && d.dither_mode == 0 && d.quant_bit == 0
            &&& d.alt_buffer_data == (MxcfbAltBufferData {
                phys_addr: 0,
                width: 0,
                height: 0,
                alt_update_region: MxcfbRect { top: 0, left: 0, width: 0, height: 0 },
            })
            &&& full ==> d.waveform_mode == 2 && d.update_mode == 1
            &&& !full && fast ==> d.waveform_mode == 1 && d.update_mode == 0
            &&& !full && !fast ==> d.waveform_mode == 3 && d.update_mode == 0
        }),
{
}

/// Every panel pixel of the requested rectangle lies in the planned region.
pub proof fn lemma_refresh_region_covers_request(x: int, y: int, w: int, h: int, px: int, py: int)
    requires
        x <= px < x + w,
        y <= py < y + h,
        0 <= px < SCREEN_W,
        0 <= py < SCREEN_H,
    ensures
        refresh_region(x, y, w, h) is Some,
        ({
            let r = refresh_region(x, y, w, h)->0;
            &&& r.left <= px < r.left + r.width
            &&& r.top <= py < r.top + r.height
        }),
{
}

/// Successive planned updates carry different markers.
pub proof fn lemma_next_marker_differs(m: u32)
    ensures
        next_marker(m) != m,
        next_marker(m) == m + 1 || (m == u32::MAX && next_marker(m) == 0),
{
}

/// One refresh call: rectangle `(x, y, w, h)`, fast, full.
pub type RefreshCall = (int, int, int, int, bool, bool);

/// The marker after a sequence of refresh calls from marker `m`, and the
/// requests they send, in order.
pub open spec fn refresh_sequence(m: u32, calls: Seq<RefreshCall>) -> (u32, Seq<MxcfbUpdateData>)
    decreases calls.len(),
{
    if calls.len() == 0 {
        (m, Seq::empty())
    } else {
        let (m1, sent) = refresh_sequence(m, calls.drop_last());
        let c = calls.last();
        match refresh_region(c.0, c.1, c.2, c.3) {
            None => (m1, sent),
            Some(region) => (
                next_marker(m1),
                sent.push(update_request(region, next_marker(m1), c.4, c.5)),
            ),
        }
    }
}

pub open spec fn opt_request(r: Option<MxcfbUpdateData>) -> Seq<MxcfbUpdateData> {
    match r {
        Some(d) => seq![d],
        None => Seq::empty(),
    }
}

/// Each planned refresh (through `refresh`, `update`, `update_all` or
/// `full_refresh`) extends the sequence of calls made on the framebuffer.
pub proof fn lemma_refresh_planned_extends(
    before: Rm1Framebuffer,
    after: Rm1Framebuffer,
    m: u32,
    calls: Seq<RefreshCall>,
    c: RefreshCall,
    r: Option<MxcfbUpdateData>,
)
    requires
        before.spec_marker() == refresh_sequence(m, calls).0,
        refresh_planned(before, after, c.0, c.1, c.2, c.3, c.4, c.5, r),
    ensures
        after.spec_marker() == refresh_sequence(m, calls.push(c)).0,
        refresh_sequence(m, calls.push(c)).1 == refresh_sequence(m, calls).1 + opt_request(r),
{
    let calls2 = calls.push(c);
    assert(calls2.drop_last() =~= calls);
    let sent = refresh_sequence(m, calls).1;
    assert(sent + Seq::<MxcfbUpdateData>::empty() =~= sent);
    match r {
        Some(d) => assert(sent.push(d) =~= sent + seq![d]),
        None => {},
    }
}

/// Markers count the requests sent: the `k`-th request sent from marker `m`
/// carries `m + k + 1` (wrapping), and calls that send nothing take no
/// marker. From a freshly opened framebuffer (marker 1) the first request
/// carries 2 and each next one the following number.
pub proof fn lemma_refresh_sequence_markers(m: u32, calls: Seq<RefreshCall>)
    ensures
        refresh_sequence(m, calls).0 == (m + refresh_sequence(m, calls).1.len()) % 0x1_0000_0000,
        forall|k: int|
            0 <= k < refresh_sequence(m, calls).1.len() ==> (#[trigger] refresh_sequence(m, calls).1[k]).update_marker
                == (m + k + 1) % 0x1_0000_0000,
    decreases calls.len(),
{
    if calls.len() > 0 {
        lemma_refresh_sequence_markers(m, calls.drop_last());
        let (m1, sent) = refresh_sequence(m, calls.drop_last());
        let n = sent.len();
        assert((((m + n) % 0x1_0000_0000) + 1) % 0x1_0000_0000 == (m + n + 1) % 0x1_0000_0000) by (nonlinear_arith);
    }
}

} // verus!
