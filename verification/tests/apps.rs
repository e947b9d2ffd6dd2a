//! Tests for the compositor, drawing, the guest-side support library, the
//! demo selectors and network packet framing.

use wasmos::color::Color;
use wasmos::compositor::{
    blend_rect, draw_cursor, set_autoscroll, update_apps, update_pointer, App, AppDescriptor,
    SystemState, UiContext, VirtioInputEvent,
};
use wasmos::demo::{get_color, get_font, get_justif, TextJustification};
use wasmos::framebuf::{
    blend, draw_char, draw_rect, draw_str, Font, Framebuffer, FONT_CHAR_H, FONT_CHAR_W,
    FONT_NB_CHARS,
};
use wasmos::geometry::Rect;
use wasmos::guest::{tcp_connect_result, tcp_io_result, GuestError, PixelData, WasmLogger};
use wasmos::input::PointerState;
use wasmos::netpkt::{frame_packet, packet_payload, NetworkFeatureBits, MAX_PACKET_SIZE};

fn bitmap() -> Vec<u8> {
    vec![1; FONT_CHAR_W * FONT_CHAR_H * FONT_NB_CHARS]
}

fn packed(c: Color) -> u32 {
    c.r as u32 + 256 * c.g as u32 + 65536 * c.b as u32 + 16_777_216 * c.a as u32
}

#[test]
fn blend_channel_math() {
    assert_eq!(blend(0, 255, 255), 255);
    assert_eq!(blend(200, 10, 0), 200);
    assert_eq!(blend(0, 255, 128), 128);
}

#[test]
fn draw_rect_fills_inclusive_clipped() {
    let mut fb = Framebuffer::new(4, 4);
    let red = Color { r: 255, g: 0, b: 0, a: 255 };
    draw_rect(&mut fb, &Rect { x0: 1, y0: 1, w: 1, h: 1 }, &red, 255);
    let want = packed(Color { r: 255, g: 0, b: 0, a: 255 });
    // The fill includes the right and bottom edge.
    for (x, y) in [(1, 1), (2, 1), (1, 2), (2, 2)] {
        assert_eq!(fb.pixels[y * 4 + x], want, "pixel ({x},{y})");
    }
    for (x, y) in [(0, 0), (3, 1), (1, 3), (3, 3)] {
        assert_eq!(fb.pixels[y * 4 + x], 0, "pixel ({x},{y})");
    }
}

#[test]
fn draw_rect_clips_negative_corners() {
    let mut fb = Framebuffer::new(3, 3);
    let c = Color { r: 1, g: 2, b: 3, a: 255 };
    draw_rect(&mut fb, &Rect { x0: -10, y0: -10, w: 11, h: 11 }, &c, 255);
    assert_eq!(fb.pixels[0], packed(Color { r: 1, g: 2, b: 3, a: 255 }));
    assert_eq!(fb.pixels[8], 0);
}

#[test]
fn draw_char_lights_glyph_cells() {
    let mut fb = Framebuffer::new(16, 32);
    let c = Color { r: 9, g: 8, b: 7, a: 255 };
    draw_char(&mut fb, 2, 3, b'A', &c, &bitmap());
    let want = packed(Color { r: 9, g: 8, b: 7, a: 255 });
    assert_eq!(fb.pixels[3 * 16 + 2], want);
    assert_eq!(fb.pixels[0], 0);
    // Clipping at the edge leaves the framebuffer intact.
    draw_char(&mut fb, 14, 30, b'B', &c, &bitmap());
    assert_eq!(fb.pixels[31 * 16 + 15], want);
}

#[test]
fn draw_str_advances_cells() {
    let mut fb = Framebuffer::new(30, 24);
    let c = Color { r: 1, g: 1, b: 1, a: 255 };
    draw_str(&mut fb, 0, 0, &b"AB".to_vec(), &c, &bitmap());
    let want = packed(Color { r: 1, g: 1, b: 1, a: 255 });
    assert_eq!(fb.pixels[0], want);
    assert_eq!(fb.pixels[FONT_CHAR_W], want);
}

#[test]
fn cursor_and_blend_rect() {
    let mut fb = Framebuffer::new(8, 8);
    let state = SystemState {
        pointer: PointerState { x: 2, y: 2, left_clicked: false },
        time_ns: 0,
    };
    draw_cursor(&mut fb, &state);
    assert_eq!(fb.pixels[2 * 8 + 2], packed(Color { r: 255, g: 255, b: 255, a: 255 }));
    let mut fb2 = Framebuffer::new(2, 2);
    blend_rect(&mut fb2, &Rect { x0: 0, y0: 0, w: 1, h: 1 }, &Color { r: 0, g: 0, b: 255, a: 128 });
    let px = fb2.pixels[0];
    assert_eq!(px % 256, 0);
    assert_eq!((px / 65536) % 256, 128);
}

fn launcher_app() -> App {
    App {
        descriptor: AppDescriptor {
            name: b"ED".to_vec(),
            launch_rect: Rect { x0: 0, y0: 0, w: 10, h: 10 },
            init_win_rect: Rect { x0: 20, y0: 20, w: 30, h: 30 },
        },
        is_open: false,
        rect: Rect { x0: 20, y0: 20, w: 30, h: 30 },
        grab_pos: None,
    }
}

#[test]
fn click_opens_and_steps_an_app() {
    let mut fb = Framebuffer::new(64, 64);
    let mut apps = vec![launcher_app()];
    let state = SystemState {
        pointer: PointerState { x: 5, y: 5, left_clicked: true },
        time_ns: 0,
    };
    let invoke = update_apps(&mut fb, &state, &mut apps, &bitmap());
    assert!(apps[0].is_open);
    assert_eq!(invoke, vec![0]);
    // A closed app away from the pointer stays closed and is not stepped.
    let mut apps2 = vec![launcher_app()];
    let idle = SystemState {
        pointer: PointerState { x: 50, y: 50, left_clicked: true },
        time_ns: 0,
    };
    let invoke2 = update_apps(&mut fb, &idle, &mut apps2, &bitmap());
    assert!(!apps2[0].is_open);
    assert!(invoke2.is_empty());
}

#[test]
fn grab_and_drag_moves_a_window() {
    let mut fb = Framebuffer::new(128, 128);
    let mut apps = vec![launcher_app()];
    apps[0].is_open = true;
    // Click inside the decoration takes a grab.
    let press = SystemState {
        pointer: PointerState { x: 22, y: 21, left_clicked: true },
        time_ns: 0,
    };
    update_apps(&mut fb, &press, &mut apps, &bitmap());
    assert_eq!(apps[0].grab_pos, Some((2, 1)));
    // Moving while held drags the window by the grab offset.
    let drag = SystemState {
        pointer: PointerState { x: 40, y: 31, left_clicked: true },
        time_ns: 0,
    };
    update_apps(&mut fb, &drag, &mut apps, &bitmap());
    assert_eq!((apps[0].rect.x0, apps[0].rect.y0), (38, 30));
    // Releasing drops the grab.
    let release = SystemState {
        pointer: PointerState { x: 40, y: 31, left_clicked: false },
        time_ns: 0,
    };
    update_apps(&mut fb, &release, &mut apps, &bitmap());
    assert_eq!(apps[0].grab_pos, None);
}

#[test]
fn pointer_folds_device_events() {
    let st = PointerState { x: 5, y: 5, left_clicked: false };
    let events = vec![
        VirtioInputEvent { etype: 2, code: 0, value: 3 },
        VirtioInputEvent { etype: 2, code: 1, value: (-10i32) as u32 },
        VirtioInputEvent { etype: 1, code: 0, value: 1 },
    ];
    let out = update_pointer(&events, 100, 100, st);
    assert_eq!((out.x, out.y), (8, 0));
    assert!(out.left_clicked);
    let clamp = update_pointer(
        &vec![VirtioInputEvent { etype: 2, code: 0, value: 1000 }],
        100,
        100,
        out,
    );
    assert_eq!(clamp.x, 99);
}

#[test]
fn static_canvas_fills_and_blits() {
    let mut ctx = UiContext { fb: Framebuffer::new(8, 8) };
    let mut src = Framebuffer::new(4, 4);
    src.pixels[0] = 7;
    let mut offsets: (i64, i64) = (0, 0);
    let mut dragging: (bool, bool) = (false, false);
    let dst = Rect { x0: 2, y0: 2, w: 3, h: 3 };
    let fill = Color { r: 9, g: 0, b: 0, a: 255 };
    let content_id = ctx.static_canvas(&dst, &src, 42, &mut offsets, &mut dragging, fill);
    assert_eq!(content_id, (42, dst));
    // The source's first pixel lands at the viewport origin.
    assert_eq!(ctx.fb.pixels[2 * 8 + 2], 7);
    // Outside the viewport nothing is touched.
    assert_eq!(ctx.fb.pixels[0], 0);
    assert_eq!(offsets, (0, 0));
}

#[test]
fn autoscroll_pins_to_bottom() {
    let mut offsets: (i64, i64) = (7, 0);
    set_autoscroll(&Rect { x0: 0, y0: 0, w: 10, h: 20 }, 100, &mut offsets);
    assert_eq!(offsets, (7, 79));
}

#[test]
fn pixel_buffer_follows_the_window() {
    let mut pd = PixelData::new(&Rect { x0: 0, y0: 0, w: 8, h: 4 });
    assert_eq!((pd.fb.w, pd.fb.h), (8, 4));
    pd.fb.pixels[0] = 77;
    // Same size: the buffer and its contents are kept.
    assert!(!pd.get_framebuffer(&Rect { x0: 0, y0: 0, w: 8, h: 4 }));
    assert_eq!(pd.fb.pixels[0], 77);
    // A resize reallocates zeroed at the new extent.
    assert!(pd.get_framebuffer(&Rect { x0: 0, y0: 0, w: 4, h: 4 }));
    assert_eq!((pd.fb.w, pd.fb.h), (4, 4));
    assert_eq!(pd.fb.pixels[0], 0);
    pd.fb.pixels[1] = 9;
    pd.force_refresh();
    assert_eq!((pd.fb.w, pd.fb.h), (4, 4));
    assert_eq!(pd.fb.pixels[1], 0);
}

#[test]
fn guest_return_value_mapping() {
    assert_eq!(tcp_connect_result(3), Ok(3));
    assert_eq!(tcp_connect_result(-1), Err(GuestError::TcpConnectFailed));
    assert_eq!(tcp_io_result(0), Ok(0));
    assert_eq!(tcp_io_result(9), Ok(9));
    assert_eq!(tcp_io_result(-1), Err(GuestError::TcpIoFailed));
    assert!(WasmLogger.enabled());
}

#[test]
fn demo_selector_tables() {
    assert_eq!(get_justif(0), TextJustification::Left);
    assert_eq!(get_justif(1), TextJustification::Center);
    assert_eq!(get_justif(7), TextJustification::Right);
    assert_eq!(get_color(0), Color { r: 255, g: 255, b: 255, a: 255 });
    assert_eq!(get_color(1), Color { r: 0, g: 0, b: 255, a: 255 });
    assert_eq!(get_color(2), Color { r: 255, g: 0, b: 0, a: 255 });
    assert_eq!(get_font(0), Font { char_w: 6, char_h: 12 });
    assert_eq!(get_font(1), Font { char_w: 12, char_h: 24 });
}

#[test]
fn net_packet_framing() {
    let payload: Vec<u8> = vec![0xDE, 0xAD, 0xBE, 0xEF];
    let pkt = frame_packet(&payload);
    assert_eq!(pkt.data.len(), MAX_PACKET_SIZE);
    assert_eq!(&pkt.data[0..4], &payload[..]);
    assert!(pkt.data[4..].iter().all(|b| *b == 0));
    assert_eq!(pkt.hdr.flags, 0);
    assert_eq!(pkt.hdr.num_buffers, 0);
    assert_eq!(packet_payload(&pkt), pkt.data);
    assert_eq!(NetworkFeatureBits::VirtioNetFMac.bits(), 32);
}

#[test]
fn color_round_trips_through_u32() {
    let c = Color::from_u32(0x0403_0201);
    assert_eq!(c, Color { r: 1, g: 2, b: 3, a: 4 });
    assert_eq!(c.to_u32(), 0x0403_0201);
}

#[test]
fn rect_geometry() {
    let r = Rect { x0: 10, y0: 10, w: 5, h: 5 };
    assert!(r.check_in(10, 10));
    assert!(r.check_in(14, 14));
    assert!(!r.check_in(15, 10));
    assert!(!r.check_contains_point(9, 12));
    let s = Rect { x0: 0, y0: 12, w: 3, h: 30 };
    let bb = r.bounding_box(&s);
    assert_eq!(bb, Rect { x0: 0, y0: 10, w: 15, h: 32 });
}
