use ggoled::bitmap::Bitmap;
use ggoled::transport::DeviceEvent;
use ggoled::transport::ReportChunk;
use ggoled::transport::brightness_report;
use ggoled::transport::create_report;
use ggoled::transport::parse_event;
use ggoled::transport::report_pixel;
use ggoled::transport::return_to_ui_report;
use ggoled::transport::split_for_report;

fn pattern(w: usize, h: usize) -> Bitmap {
    let mut bm = Bitmap::new(w, h, false);
    for y in 0..h {
        for x in 0..w {
            bm.set(x, y, (x * 5 + y * 3 + x * y) % 3 == 0);
        }
    }
    bm
}

#[test]
fn report_header_bytes() {
    let bm = Bitmap::new(8, 8, true);
    let c = ReportChunk { w: 8, h: 8, dst_x: 17, dst_y: 5, src_x: 0, src_y: 0 };
    let r = create_report(&bm, &c);
    assert_eq!(r.len(), 1024);
    assert_eq!(r[0], 0x06);
    assert_eq!(r[1], 0x93);
    assert_eq!(r[2], 17);
    assert_eq!(r[3], 5);
    assert_eq!(r[4], 8);
    assert_eq!(r[5], 8);
}

#[test]
fn report_bit_packing_small_case_by_hand() {
    // 2x2 all-on chunk at dst_y = 0: stride is 8, so column 0 fills bits
    // 0 and 1 of the first data byte and column 1 bits 8 and 9.
    let bm = Bitmap::new(2, 2, true);
    let c = ReportChunk { w: 2, h: 2, dst_x: 0, dst_y: 0, src_x: 0, src_y: 0 };
    let r = create_report(&bm, &c);
    assert_eq!(r[6], 0b11);
    assert_eq!(r[7], 0b11);
    for k in 8..1024 {
        assert_eq!(r[k], 0);
    }
}

#[test]
fn report_stride_respects_destination_alignment() {
    // one on-pixel at dst_y = 3, h = 6: stride is ceil((3 + 6) / 8) * 8 =
    // 16, so column 1's bit for row 0 sits at bit index 16.
    let mut bm = Bitmap::new(2, 6, false);
    bm.set(1, 0, true);
    let c = ReportChunk { w: 2, h: 6, dst_x: 0, dst_y: 3, src_x: 0, src_y: 0 };
    let r = create_report(&bm, &c);
    assert_eq!(r[6], 0);
    assert_eq!(r[7], 0);
    assert_eq!(r[8], 0b1);
}

#[test]
fn report_round_trip_brute_force() {
    // encode then decode over every small combination of destination
    // alignment and chunk size; the stride formula must recover every
    // pixel exactly.
    for dst_y in 0..8usize {
        for dst_x in 0..8usize {
            for w in 1..6usize {
                for h in 1..10usize {
                    let bm = pattern(w, h);
                    let c = ReportChunk { w, h, dst_x, dst_y, src_x: 0, src_y: 0 };
                    let r = create_report(&bm, &c);
                    for x in 0..w {
                        for y in 0..h {
                            assert_eq!(
                                report_pixel(&r, &c, x, y),
                                bm.get(x, y),
                                "dst=({},{}) size={}x{} at ({},{})",
                                dst_x,
                                dst_y,
                                w,
                                h,
                                x,
                                y
                            );
                        }
                    }
                }
            }
        }
    }
}

#[test]
fn report_round_trip_with_source_offset() {
    let bm = pattern(10, 12);
    let c = ReportChunk { w: 4, h: 5, dst_x: 30, dst_y: 7, src_x: 3, src_y: 6 };
    let r = create_report(&bm, &c);
    for x in 0..4 {
        for y in 0..5 {
            assert_eq!(report_pixel(&r, &c, x, y), bm.get(3 + x, 6 + y));
        }
    }
}

#[test]
fn split_whole_screen_into_two_chunks() {
    let bm = Bitmap::new(128, 64, true);
    let chunks = split_for_report(&bm, 0, 0, 128, 64);
    assert_eq!(chunks.len(), 2);
    assert_eq!(chunks[0].w, 64);
    assert_eq!(chunks[0].dst_x, 0);
    assert_eq!(chunks[0].src_x, 0);
    assert_eq!(chunks[1].w, 64);
    assert_eq!(chunks[1].dst_x, 64);
    assert_eq!(chunks[1].src_x, 64);
    assert_eq!(chunks[0].h, 64);
    assert_eq!(chunks[0].dst_y, 0);
}

#[test]
fn split_clips_negative_offsets_into_source() {
    let bm = Bitmap::new(100, 40, true);
    let chunks = split_for_report(&bm, -5, -3, 128, 64);
    assert_eq!(chunks.len(), 2);
    assert_eq!(chunks[0].dst_x, 0);
    assert_eq!(chunks[0].src_x, 5);
    assert_eq!(chunks[0].w, 64);
    assert_eq!(chunks[1].dst_x, 64);
    assert_eq!(chunks[1].src_x, 69);
    assert_eq!(chunks[1].w, 31);
    assert_eq!(chunks[0].dst_y, 0);
    assert_eq!(chunks[0].src_y, 3);
    assert_eq!(chunks[0].h, 37);
}

#[test]
fn split_clips_to_screen_bounds() {
    let bm = Bitmap::new(100, 100, true);
    let chunks = split_for_report(&bm, 100, 10, 128, 64);
    assert_eq!(chunks.len(), 1);
    assert_eq!(chunks[0].dst_x, 100);
    assert_eq!(chunks[0].w, 28);
    assert_eq!(chunks[0].h, 54);
}

#[test]
fn split_off_screen_yields_no_chunks() {
    let bm = Bitmap::new(10, 10, true);
    assert_eq!(split_for_report(&bm, 128, 0, 128, 64).len(), 0);
    assert_eq!(split_for_report(&bm, 500, 0, 128, 64).len(), 0);
    assert_eq!(split_for_report(&bm, -10, 0, 128, 64).len(), 0);
}

fn raw(bytes: &[(usize, u8)]) -> [u8; 64] {
    let mut buf = [0u8; 64];
    for &(i, v) in bytes {
        buf[i] = v;
    }
    buf
}

#[test]
fn parse_event_volume() {
    let buf = raw(&[(0, 7), (1, 0x25), (2, 0x08)]);
    assert_eq!(parse_event(&buf), Some(DeviceEvent::Volume { volume: 0x30 }));
}

#[test]
fn parse_event_volume_saturates() {
    let buf = raw(&[(0, 7), (1, 0x25), (2, 0x40)]);
    assert_eq!(parse_event(&buf), Some(DeviceEvent::Volume { volume: 0 }));
}

#[test]
fn parse_event_headset_connection() {
    let on = raw(&[(0, 7), (1, 0xb5), (4, 8)]);
    assert_eq!(
        parse_event(&on),
        Some(DeviceEvent::HeadsetConnection { connected: true })
    );
    let off = raw(&[(0, 7), (1, 0xb5), (4, 2)]);
    assert_eq!(
        parse_event(&off),
        Some(DeviceEvent::HeadsetConnection { connected: false })
    );
}

#[test]
fn parse_event_battery() {
    let buf = raw(&[(0, 7), (1, 0xb7), (2, 55), (3, 1)]);
    assert_eq!(
        parse_event(&buf),
        Some(DeviceEvent::Battery { headset: 55, charging: 1 })
    );
}

#[test]
fn parse_event_drops_unknown_kinds() {
    let buf = raw(&[(0, 7), (1, 0x99), (2, 3)]);
    assert_eq!(parse_event(&buf), None);
}

#[test]
fn parse_event_requires_marker() {
    let buf = raw(&[(0, 6), (1, 0x25), (2, 1)]);
    assert_eq!(parse_event(&buf), None);
}

#[test]
fn brightness_report_bytes() {
    let r = brightness_report(7);
    assert_eq!(r.len(), 64);
    assert_eq!(r[0], 0x06);
    assert_eq!(r[1], 0x85);
    assert_eq!(r[2], 7);
    for k in 3..64 {
        assert_eq!(r[k], 0);
    }
}

#[test]
fn return_to_ui_report_bytes() {
    let r = return_to_ui_report();
    assert_eq!(r.len(), 64);
    assert_eq!(r[0], 0x06);
    assert_eq!(r[1], 0x95);
    for k in 2..64 {
        assert_eq!(r[k], 0);
    }
}

#[test]
fn split_boundary_widths() {
    let exactly_one = Bitmap::new(64, 10, true);
    let chunks = split_for_report(&exactly_one, 0, 0, 128, 64);
    assert_eq!(chunks.len(), 1);
    assert_eq!(chunks[0].w, 64);

    let just_over = Bitmap::new(65, 10, true);
    let chunks = split_for_report(&just_over, 0, 0, 128, 64);
    assert_eq!(chunks.len(), 2);
    assert_eq!(chunks[0].w, 64);
    assert_eq!(chunks[1].w, 1);
    assert_eq!(chunks[1].dst_x, 64);
}
