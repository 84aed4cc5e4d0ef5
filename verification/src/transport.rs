//! The vendor HID wire format: fixed-size feature reports that carry bitmap
//! chunks in a column-major, byte-aligned bit packing, plus the decoding of
//! asynchronous status reports.
//!
//! The packing puts the pixel at chunk column `x`, chunk row `y` at report
//! bit index `x * stride + y`, where the stride rounds the chunk height up
//! to a byte boundary relative to the destination's absolute y position.

use crate::bitmap::BitmapView;
use crate::bitmap::Bitmap;
use vstd::prelude::*;

verus! {

/// Total size in bytes of one OLED feature report.
pub const REPORT_SIZE: usize = 1024;

/// Greatest number of columns one report can carry.
pub const REPORT_SPLIT: usize = 64;

/// Number of pixel-data bits in one report (everything after the header).
pub const REPORT_DATA_BITS: usize = 8144;

/// HID report id shared by every report sent to the OLED sub-device.
pub const REPORT_ID: u8 = 0x06;

/// Opcode of a draw report.
pub const CMD_DRAW: u8 = 0x93;

/// Opcode of a set-brightness report.
pub const CMD_BRIGHTNESS: u8 = 0x85;

/// Opcode of the report that returns the device to its native UI.
pub const CMD_RETURN_TO_UI: u8 = 0x95;

/// First byte of every recognised status report.
pub const EVENT_MARKER: u8 = 7;

/// A sub-rectangle of a bitmap, narrow enough for one feature report:
/// destination position on screen, source position in the bitmap, and size.
#[derive(Clone, Copy, PartialEq, Eq, Structural, Debug)]
pub struct ReportChunk {
    pub w: usize,
    pub h: usize,
    pub dst_x: usize,
    pub dst_y: usize,
    pub src_x: usize,
    pub src_y: usize,
}

/// Distance in report bits between two adjacent chunk columns: the chunk
/// height plus the destination's offset within its byte row, rounded up to
/// a whole number of bytes.
pub open spec fn report_stride(dst_y: int, h: int) -> int {
    (dst_y % 8 + h + 7) / 8 * 8
}

/// Whether bit `j` of byte `b` is set.
pub open spec fn byte_bit(b: u8, j: u8) -> bool {
    b & (1u8 << j) != 0
}

/// Bit `p` of the pixel-data area of a report.
pub open spec fn data_bit(r: Seq<u8>, p: int) -> bool {
    byte_bit(r[6 + p / 8], (p % 8) as u8)
}

impl ReportChunk {
    /// The chunk fits one report: every dimension fits its header byte, the
    /// column count respects the report limit, and all packed bits fit the
    /// data area.
    pub open spec fn size_wf(self) -> bool {
        &&& self.w <= REPORT_SPLIT
        &&& self.w <= 255 && self.h <= 255
        &&& self.dst_x <= 255 && self.dst_y <= 255
        &&& self.w * report_stride(self.dst_y as int, self.h as int) <= REPORT_DATA_BITS
    }

    /// The chunk additionally reads only pixels that `bm` has.
    pub open spec fn wf(self, bm: BitmapView) -> bool {
        &&& self.size_wf()
        &&& self.src_x + self.w <= bm.w
        &&& self.src_y + self.h <= bm.h
    }
}

/// The value of report bit `p` when `c` is drawn from `bm`: the pixel at
/// chunk column `p / stride`, chunk row `p % stride`, or clear where that
/// position lies outside the chunk.
pub open spec fn report_bit(bm: BitmapView, c: ReportChunk, p: int) -> bool {
    let stride = report_stride(c.dst_y as int, c.h as int);
    if stride <= 0 {
        false
    } else {
        let x = p / stride;
        let y = p % stride;
        x < c.w && y < c.h && bm.px(c.src_x + x, c.src_y + y)
    }
}

/// Whether `r` is the encoding of chunk `c` of bitmap `bm`: the six header
/// bytes followed by exactly the packed pixel bits.
pub open spec fn encodes_chunk(r: Seq<u8>, bm: BitmapView, c: ReportChunk) -> bool {
    &&& r.len() == REPORT_SIZE
    &&& r[0] == REPORT_ID
    &&& r[1] == CMD_DRAW
    &&& r[2] == c.dst_x as u8
    &&& r[3] == c.dst_y as u8
    &&& r[4] == c.w as u8
    &&& r[5] == c.h as u8
    &&& forall|p: int| 0 <= p < REPORT_DATA_BITS ==> #[trigger] data_bit(r, p) == report_bit(bm, c, p)
}

proof fn lemma_set_bit(b: u8, jj: u8, j: u8)
    by (bit_vector)
    requires
        jj < 8,
        j < 8,
    ensures
        (b | (1u8 << jj)) & (1u8 << jj) != 0,
        j != jj ==> ((b | (1u8 << jj)) & (1u8 << j)) == (b & (1u8 << j)),
{
}

proof fn lemma_zero_bit(j: u8)
    by (bit_vector)
    ensures
        0u8 & (1u8 << j) == 0,
{
}

/// Builds the feature report for one chunk.  This is the whole wire format
/// of a draw: the header names the destination rectangle, and the data area
/// holds the packed pixels, column by column.
pub fn create_report(bm: &Bitmap, c: &ReportChunk) -> (r: Vec<u8>)
    requires
        bm@.wf(),
        c.wf(bm@),
    ensures
        encodes_chunk(r@, bm@, *c),
{
    let stride: usize = (c.dst_y % 8 + c.h + 7) / 8 * 8;
    let mut report: Vec<u8> = Vec::new();
    report.push(REPORT_ID);
    report.push(CMD_DRAW);
    report.push(c.dst_x as u8);
    report.push(c.dst_y as u8);
    report.push(c.w as u8);
    report.push(c.h as u8);
    let mut k: usize = 0;
    while k < (REPORT_SIZE - 6)
        invariant
            bm@.wf(),
            c.wf(bm@),
            stride == report_stride(c.dst_y as int, c.h as int),
            k <= REPORT_SIZE - 6,
            report@.len() == 6 + k,
            report@[0] == REPORT_ID,
            report@[1] == CMD_DRAW,
            report@[2] == c.dst_x as u8,
            report@[3] == c.dst_y as u8,
            report@[4] == c.w as u8,
            report@[5] == c.h as u8,
            forall|p: int| 0 <= p < 8 * k ==> #[trigger] data_bit(report@, p) == report_bit(bm@, *c, p),
        decreases REPORT_SIZE - 6 - k,
    {
        let mut b: u8 = 0;
        let mut j: u8 = 0;
        proof {
            assert forall|j2: u8| j2 < 8 implies !byte_bit(0u8, j2) by {
                lemma_zero_bit(j2);
            }
        }
        while j < 8
            invariant
                bm@.wf(),
                c.wf(bm@),
                stride == report_stride(c.dst_y as int, c.h as int),
                k < REPORT_SIZE - 6,
                j <= 8,
                forall|j2: u8| j2 < j ==> #[trigger] byte_bit(b, j2) == report_bit(bm@, *c, 8 * k + j2),
                forall|j2: u8| j <= j2 < 8 ==> !(#[trigger] byte_bit(b, j2)),
            decreases 8 - j,
        {
            let p: usize = k * 8 + (j as usize);
            let mut on: bool = false;
            if stride > 0 {
                let cx = p / stride;
                let cy = p % stride;
                if cx < c.w && cy < c.h {
                    on = bm.get(c.src_x + cx, c.src_y + cy);
                }
            }
            if on {
                let b2 = b | (1u8 << j);
                proof {
                    assert forall|j2: u8| j2 < 8 implies
                        #[trigger] byte_bit(b2, j2) == (j2 == j || byte_bit(b, j2)) by {
                        lemma_set_bit(b, j, j2);
                    }
                }
                b = b2;
            }
            assert(byte_bit(b, j) == report_bit(bm@, *c, 8 * k + j));
            j += 1;
        }
        let ghost pre = report@;
        report.push(b);
        proof {
            assert forall|p: int| 0 <= p < 8 * (k + 1) implies
                #[trigger] data_bit(report@, p) == report_bit(bm@, *c, p) by {
                if p < 8 * k {
                    assert(0 <= p / 8 < k) by (nonlinear_arith)
                        requires
                            0 <= p < 8 * k,
                    ;
                    assert(report@[6 + p / 8] == pre[6 + p / 8]);
                    assert(data_bit(pre, p) == report_bit(bm@, *c, p));
                } else {
                    assert(p / 8 == k && p % 8 == p - 8 * k) by (nonlinear_arith)
                        requires
                            8 * k <= p < 8 * (k + 1),
                    ;
                    assert(report@[6 + k] == b);
                    let j2 = (p - 8 * k) as u8;
                    assert(byte_bit(b, j2) == report_bit(bm@, *c, 8 * k + j2));
                }
            }
        }
        k += 1;
    }
    report
}

proof fn lemma_stride_bounds(dst_y: int, h: int)
    by (nonlinear_arith)
    requires
        0 <= dst_y,
        0 <= h,
    ensures
        report_stride(dst_y, h) >= h,
        report_stride(dst_y, h) <= dst_y % 8 + h + 7,
        h > 0 ==> report_stride(dst_y, h) > 0,
{
}

proof fn lemma_column_index(stride: int, w: int, x: int, y: int)
    by (nonlinear_arith)
    requires
        0 <= y < stride,
        0 <= x < w,
    ensures
        0 <= x * stride + y < w * stride,
        (x * stride + y) / stride == x,
        (x * stride + y) % stride == y,
{
}

/// Reads back one packed pixel from a report's data area: the bit at index
/// `x * stride + y`.
pub fn report_pixel(report: &Vec<u8>, c: &ReportChunk, x: usize, y: usize) -> (r: bool)
    requires
        report@.len() == REPORT_SIZE,
        c.size_wf(),
        x < c.w,
        y < c.h,
    ensures
        r == data_bit(report@, x * report_stride(c.dst_y as int, c.h as int) + y),
{
    let stride: usize = (c.dst_y % 8 + c.h + 7) / 8 * 8;
    proof {
        lemma_stride_bounds(c.dst_y as int, c.h as int);
        lemma_column_index(stride as int, c.w as int, x as int, y as int);
        assert(x * stride + y < c.w * stride);
    }
    let ri = x * stride + y;
    let byte = report[6 + ri / 8];
    proof {
        let rii = ri as int;
        assert(0 <= rii / 8 && rii / 8 < 1018) by (nonlinear_arith)
            requires
                0 <= rii < 8144,
        ;
    }
    (byte & (1u8 << ((ri % 8) as u8))) != 0
}

/// Round trip of the bit packing: for every chunk within the report limits
/// and every in-chunk position, the encoded report's bit at `x * stride + y`
/// equals the source pixel, so decoding recovers the drawn matrix exactly.
pub proof fn lemma_report_round_trip(r: Seq<u8>, bm: BitmapView, c: ReportChunk, x: int, y: int)
    requires
        bm.wf(),
        c.wf(bm),
        encodes_chunk(r, bm, c),
        0 <= x < c.w,
        0 <= y < c.h,
    ensures
        data_bit(r, x * report_stride(c.dst_y as int, c.h as int) + y)
            == bm.px(c.src_x + x, c.src_y + y),
{
    let stride = report_stride(c.dst_y as int, c.h as int);
    lemma_stride_bounds(c.dst_y as int, c.h as int);
    lemma_column_index(stride, c.w as int, x, y);
    let p = x * stride + y;
    assert(c.w * stride <= REPORT_DATA_BITS);
    assert(data_bit(r, p) == report_bit(bm, c, p));
}

/// Destination coordinate after clipping: negative offsets clamp to the
/// near edge, offsets beyond the screen clamp to its extent.
pub open spec fn clip_dst(pos: int, screen: int) -> int {
    if pos < 0 {
        0
    } else if pos > screen {
        screen
    } else {
        pos
    }
}

/// Source offset after clipping: content left of or above the screen is
/// skipped, so drawing starts at the first visible pixel.
pub open spec fn clip_src(pos: int) -> int {
    if pos < 0 {
        -pos
    } else {
        0
    }
}

/// Extent after clipping to the screen.
pub open spec fn clip_len(len: int, pos: int, screen: int) -> int {
    let start = clip_dst(pos, screen);
    let avail = len - clip_src(pos);
    if avail >= screen - start {
        screen - start
    } else {
        avail
    }
}

/// How many reports a clipped width needs.
pub open spec fn chunk_count(w: int) -> int {
    (w + 63) / 64
}

/// Splits a bitmap placed at signed offset `(x, y)` into report-sized
/// chunks: clip to the screen, then cut the clipped rectangle into
/// left-to-right strips of at most `REPORT_SPLIT` columns.
///
/// The screen bounds in the preconditions are what the report format forces:
/// coordinates must fit one header byte, and the packed bits of a full-height
/// strip must fit the data area.  An offset that would push the source start
/// past the bitmap's own extent is not accepted.
pub fn split_for_report(bm: &Bitmap, x: isize, y: isize, screen_w: usize, screen_h: usize) -> (r:
    Vec<ReportChunk>)
    requires
        bm@.wf(),
        screen_w <= 255,
        screen_h <= 113,
        x >= -(bm@.w as int),
        y >= -(bm@.h as int),
    ensures
        r@.len() == chunk_count(clip_len(bm@.w as int, x as int, screen_w as int)),
        forall|i: int|
            0 <= i < r@.len() ==> {
                let c = #[trigger] r@[i];
                let cw = clip_len(bm@.w as int, x as int, screen_w as int);
                &&& c.h == clip_len(bm@.h as int, y as int, screen_h as int)
                &&& c.dst_y == clip_dst(y as int, screen_h as int)
                &&& c.src_y == clip_src(y as int)
                &&& c.dst_x == clip_dst(x as int, screen_w as int) + 64 * i
                &&& c.src_x == clip_src(x as int) + 64 * i
                &&& c.w == (if cw - 64 * i >= 64 {
                    64int
                } else {
                    cw - 64 * i
                })
                &&& c.wf(bm@)
                &&& c.dst_x + c.w <= screen_w
                &&& c.dst_y + c.h <= screen_h
            },
{
    let (dx0, sx0, avail_w): (usize, usize, usize) = if x < 0 {
        let nx = (-(x as i128)) as usize;
        (0, nx, bm.w - nx)
    } else {
        let xp = x as usize;
        (if xp > screen_w { screen_w } else { xp }, 0, bm.w)
    };
    let (dy0, sy0, avail_h): (usize, usize, usize) = if y < 0 {
        let ny = (-(y as i128)) as usize;
        (0, ny, bm.h - ny)
    } else {
        let yp = y as usize;
        (if yp > screen_h { screen_h } else { yp }, 0, bm.h)
    };
    let cw: usize = if avail_w >= screen_w - dx0 { screen_w - dx0 } else { avail_w };
    let ch: usize = if avail_h >= screen_h - dy0 { screen_h - dy0 } else { avail_h };
    proof {
        assert(cw == clip_len(bm@.w as int, x as int, screen_w as int));
        assert(ch == clip_len(bm@.h as int, y as int, screen_h as int));
    }
    let splits: usize = (cw + 63) / 64;
    proof {
        assert(64 * (splits as int) >= cw as int && 64 * (splits as int) < (cw as int) + 64)
            by (nonlinear_arith)
            requires
                (splits as int) == ((cw as int) + 63) / 64,
                0 <= (cw as int),
        ;
    }
    let mut r: Vec<ReportChunk> = Vec::new();
    let mut i: usize = 0;
    while i < splits
        invariant
            bm@.wf(),
            screen_w <= 255,
            screen_h <= 113,
            dx0 == clip_dst(x as int, screen_w as int),
            dy0 == clip_dst(y as int, screen_h as int),
            sx0 == clip_src(x as int),
            sy0 == clip_src(y as int),
            cw == clip_len(bm@.w as int, x as int, screen_w as int),
            ch == clip_len(bm@.h as int, y as int, screen_h as int),
            dx0 + cw <= screen_w,
            dy0 + ch <= screen_h,
            sx0 + cw <= bm@.w,
            sy0 + ch <= bm@.h,
            splits == chunk_count(cw as int),
            64 * splits >= cw,
            64 * splits < cw + 64,
            i <= splits,
            r@.len() == i,
            forall|i2: int|
                0 <= i2 < r@.len() ==> {
                    let c = #[trigger] r@[i2];
                    &&& c.h == ch
                    &&& c.dst_y == dy0
                    &&& c.src_y == sy0
                    &&& c.dst_x == dx0 + 64 * i2
                    &&& c.src_x == sx0 + 64 * i2
                    &&& c.w == (if cw as int - 64 * i2 >= 64 {
                        64int
                    } else {
                        cw as int - 64 * i2
                    })
                    &&& c.wf(bm@)
                    &&& c.dst_x + c.w <= screen_w
                    &&& c.dst_y + c.h <= screen_h
                },
        decreases splits - i,
    {
        proof {
            assert(64 * (i as int) < cw as int) by (nonlinear_arith)
                requires
                    0 <= (i as int),
                    (i as int) < (splits as int),
                    (splits as int) == ((cw as int) + 63) / 64,
            ;
        }
        let cwi: usize = if cw - i * 64 >= 64 { 64 } else { cw - i * 64 };
        let c = ReportChunk {
            w: cwi,
            h: ch,
            dst_x: dx0 + i * 64,
            dst_y: dy0,
            src_x: sx0 + i * 64,
            src_y: sy0,
        };
        proof {
            lemma_stride_bounds(c.dst_y as int, c.h as int);
            assert(c.w * report_stride(c.dst_y as int, c.h as int) <= 8144) by (nonlinear_arith)
                requires
                    0 <= c.w <= 64,
                    0 <= report_stride(c.dst_y as int, c.h as int) <= 127,
            ;
        }
        r.push(c);
        i += 1;
    }
    r
}

/// Telemetry decoded from an asynchronous status report.
#[derive(Clone, Copy, PartialEq, Eq, Structural, Debug)]
pub enum DeviceEvent {
    Volume { volume: u8 },
    Battery { headset: u8, charging: u8 },
    HeadsetConnection { connected: bool },
}

/// What a raw 64-byte status report means.  The first byte must be the
/// event marker; the second selects the kind; anything unrecognised is
/// dropped silently, since the firmware's full vocabulary is undocumented.
pub open spec fn parse_event_spec(buf: Seq<u8>) -> Option<DeviceEvent> {
    if buf[0] != EVENT_MARKER {
        None
    } else if buf[1] == 0x25 {
        Some(DeviceEvent::Volume {
            volume: if buf[2] >= 0x38 {
                0
            } else {
                (0x38 - buf[2]) as u8
            },
        })
    } else if buf[1] == 0xb5 {
        Some(DeviceEvent::HeadsetConnection { connected: buf[4] == 8 })
    } else if buf[1] == 0xb7 {
        Some(DeviceEvent::Battery { headset: buf[2], charging: buf[3] })
    } else {
        None
    }
}

/// Decodes one raw status report.
pub fn parse_event(buf: &[u8; 64]) -> (r: Option<DeviceEvent>)
    ensures
        r == parse_event_spec(buf@),
{
    if buf[0] != EVENT_MARKER {
        None
    } else if buf[1] == 0x25 {
        let volume: u8 = if buf[2] >= 0x38 { 0 } else { 0x38 - buf[2] };
        Some(DeviceEvent::Volume { volume })
    } else if buf[1] == 0xb5 {
        Some(DeviceEvent::HeadsetConnection { connected: buf[4] == 8 })
    } else if buf[1] == 0xb7 {
        Some(DeviceEvent::Battery { headset: buf[2], charging: buf[3] })
    } else {
        None
    }
}

/// The 64-byte report that sets the screen brightness.  Callers validate
/// the range first; the encoding itself is total.
pub fn brightness_report(value: u8) -> (r: Vec<u8>)
    ensures
        r@.len() == 64,
        r@[0] == REPORT_ID,
        r@[1] == CMD_BRIGHTNESS,
        r@[2] == value,
        forall|i: int| 3 <= i < 64 ==> r@[i] == 0,
{
    let mut r: Vec<u8> = Vec::new();
    r.push(REPORT_ID);
    r.push(CMD_BRIGHTNESS);
    r.push(value);
    let mut i: usize = 3;
    while i < 64
        invariant
            3 <= i <= 64,
            r@.len() == i,
            r@[0] == REPORT_ID,
            r@[1] == CMD_BRIGHTNESS,
            r@[2] == value,
            forall|k: int| 3 <= k < i ==> r@[k] == 0,
        decreases 64 - i,
    {
        r.push(0);
        i += 1;
    }
    r
}

/// The 64-byte report that tells the firmware to resume its native UI.
pub fn return_to_ui_report() -> (r: Vec<u8>)
    ensures
        r@.len() == 64,
        r@[0] == REPORT_ID,
        r@[1] == CMD_RETURN_TO_UI,
        forall|i: int| 2 <= i < 64 ==> r@[i] == 0,
{
    let mut r: Vec<u8> = Vec::new();
    r.push(REPORT_ID);
    r.push(CMD_RETURN_TO_UI);
    let mut i: usize = 2;
    while i < 64
        invariant
            2 <= i <= 64,
            r@.len() == i,
            r@[0] == REPORT_ID,
            r@[1] == CMD_RETURN_TO_UI,
            forall|k: int| 2 <= k < i ==> r@[k] == 0,
        decreases 64 - i,
    {
        r.push(0);
        i += 1;
    }
    r
}

} // verus!

