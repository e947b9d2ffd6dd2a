//! The compositor's launcher and window handling.
//!
//! Each tick the compositor draws the launch buttons, opens an application
//! when its button is clicked, lets the pointer drag open windows by their
//! decoration, draws the window frames, and reports which open applications
//! must be stepped. Pointer events come from the input device collaborator
//! as plain records.

use vstd::prelude::*;

use crate::arith::{clamp_i64, sat_add_i64, sat_add_u32, sat_sub_i64};
use crate::color::Color;
use crate::framebuf::{draw_rect, draw_str, Framebuffer, FONT_CHAR_H, FONT_CHAR_W, FONT_NB_CHARS};
use crate::geometry::Rect;
use crate::input::PointerState;

verus! {

/// The compositor-wide state sampled once per tick.
#[derive(Clone, Copy, PartialEq, Eq, Structural, Debug)]
pub struct SystemState {
    pub pointer: PointerState,
    pub time_ns: u64,
}

/// The fixed description of an installed application.
#[derive(Debug)]
pub struct AppDescriptor {
    /// The display name; printable ASCII.
    pub name: Vec<u8>,
    /// The launcher button rectangle.
    pub launch_rect: Rect,
    /// The window rectangle an instance opens with.
    pub init_win_rect: Rect,
}

/// One installed application and its window state.
#[derive(Debug)]
pub struct App {
    pub descriptor: AppDescriptor,
    pub is_open: bool,
    /// The current window rectangle.
    pub rect: Rect,
    /// While dragging: the pointer's offset from the window corner.
    pub grab_pos: Option<(i64, i64)>,
}

/// The decoration rectangle around a window: five pixels on each side and
/// a thirty-pixel title bar above.
pub open spec fn spec_deco_rect(r: Rect) -> Rect {
    Rect {
        x0: clamp_i64(r.x0 - 5),
        y0: clamp_i64(r.y0 - 35),
        w: crate::arith::clamp_u32_int(r.w + 10),
        h: crate::arith::clamp_u32_int(r.h + 40),
    }
}

/// Whether the pointer is over the application's launch button.
pub open spec fn spec_hover(a: App, p: PointerState) -> bool {
    a.descriptor.launch_rect.spec_contains(p.x as int, p.y as int)
}

/// The application's state after one compositor tick: a click on the
/// launch button opens it; an open window follows the pointer while
/// grabbed by its decoration, takes a new grab when the decoration is
/// clicked, and drops the grab when the button is released.
pub open spec fn spec_app_step(a: App, p: PointerState) -> App {
    let opened = a.is_open || (spec_hover(a, p) && p.left_clicked);
    if !opened {
        App { is_open: false, ..a }
    } else {
        match a.grab_pos {
            Some((dx, dy)) => {
                if p.left_clicked {
                    App {
                        is_open: true,
                        rect: Rect {
                            x0: clamp_i64(p.x - dx),
                            y0: clamp_i64(p.y - dy),
                            ..a.rect
                        },
                        ..a
                    }
                } else {
                    App { is_open: true, grab_pos: None, ..a }
                }
            },
            None => {
                if p.left_clicked && spec_deco_rect(a.rect).spec_contains(p.x as int, p.y as int) {
                    App {
                        is_open: true,
                        grab_pos: Some(
                            (clamp_i64(p.x - a.rect.x0), clamp_i64(p.y - a.rect.y0)),
                        ),
                        ..a
                    }
                } else {
                    App { is_open: true, ..a }
                }
            },
        }
    }
}

/// Advances every application by one compositor tick: draws the launcher
/// and the open windows' frames into `fb`, applies [`spec_app_step`] to
/// each application, and returns the indices of the applications that are
/// open afterwards — each of those is then stepped this tick, in order.
pub fn update_apps(fb: &mut Framebuffer, state: &SystemState, apps: &mut Vec<App>, font: &Vec<
    u8,
>) -> (invoke: Vec<usize>)
    requires
        old(fb).wf(),
        font@.len() == FONT_CHAR_W * FONT_CHAR_H * FONT_NB_CHARS,
        forall|i: int, k: int|
            0 <= i < old(apps)@.len() && 0 <= k < old(apps)@[i].descriptor.name@.len() ==> 32 <= (
            #[trigger] old(apps)@[i].descriptor.name@[k]) <= 126,
    ensures
        final(fb).wf(),
        final(fb).w == old(fb).w,
        final(fb).h == old(fb).h,
        final(apps)@.len() == old(apps)@.len(),
        forall|i: int|
            0 <= i < old(apps)@.len() ==> final(apps)@[i] == spec_app_step(
                old(apps)@[i],
                state.pointer,
            ),
        forall|k: int|
            0 <= k < invoke@.len() ==> (#[trigger] invoke@[k]) < old(apps)@.len()
                && spec_app_step(old(apps)@[invoke@[k] as int], state.pointer).is_open,
        forall|i: int|
            0 <= i < old(apps)@.len() && spec_app_step(old(apps)@[i], state.pointer).is_open
                ==> invoke@.contains(i as usize),
{
    let pointer = state.pointer;
    let mut out: Vec<App> = Vec::new();
    let mut invoke: Vec<usize> = Vec::new();
    let n = apps.len();
    let mut i: usize = 0;
    while i < n
        invariant
            fb.wf(),
            fb.w == old(fb).w,
            fb.h == old(fb).h,
            i <= n,
            pointer == state.pointer,
            n == old(apps)@.len(),
            apps@ =~= old(apps)@.subrange(i as int, n as int),
            font@.len() == FONT_CHAR_W * FONT_CHAR_H * FONT_NB_CHARS,
            forall|k: int, l: int|
                0 <= k < old(apps)@.len() && 0 <= l < old(apps)@[k].descriptor.name@.len() ==> 32
                    <= (#[trigger] old(apps)@[k].descriptor.name@[l]) <= 126,
            out@.len() == i,
            forall|k: int|
                0 <= k < i ==> out@[k] == spec_app_step(old(apps)@[k], state.pointer),
            forall|k: int|
                0 <= k < invoke@.len() ==> (#[trigger] invoke@[k]) < i && spec_app_step(
                    old(apps)@[invoke@[k] as int],
                    state.pointer,
                ).is_open,
            forall|k: int|
                0 <= k < i && spec_app_step(old(apps)@[k], state.pointer).is_open
                    ==> invoke@.contains(k as usize),
        decreases n - i,
    {
        proof {
            assert(apps@[0] == old(apps)@[i as int]);
        }
        let a = apps.remove(0);
        proof {
            assert(apps@ =~= old(apps)@.subrange(i + 1, n as int));
        }
        let rect = a.descriptor.launch_rect;
        let hover = rect.check_in(pointer.x, pointer.y);
        let color = if hover {
            Color::rgb(0x88, 0x88, 0x88)
        } else {
            Color::rgb(0x44, 0x44, 0x44)
        };
        let is_open = a.is_open || (hover && pointer.left_clicked);
        draw_rect(fb, &rect, &color, 255);
        let white = Color::white();
        draw_str(
            fb,
            sat_add_i64(rect.x0, 5),
            sat_add_i64(rect.y0, 5),
            &a.descriptor.name,
            &white,
            font,
        );
        let mut new_rect = a.rect;
        let mut new_grab = a.grab_pos;
        let ghost invoke_before = invoke@;
        if is_open {
            let deco_rect = Rect {
                x0: sat_sub_i64(a.rect.x0, 5),
                y0: sat_sub_i64(a.rect.y0, 35),
                w: sat_add_u32(a.rect.w, 10),
                h: sat_add_u32(a.rect.h, 40),
            };
            match a.grab_pos {
                Some((dx, dy)) => {
                    if pointer.left_clicked {
                        new_rect = Rect {
                            x0: sat_sub_i64(pointer.x, dx),
                            y0: sat_sub_i64(pointer.y, dy),
                            w: a.rect.w,
                            h: a.rect.h,
                        };
                    } else {
                        new_grab = None;
                    }
                },
                None => {
                    if pointer.left_clicked && deco_rect.check_in(pointer.x, pointer.y) {
                        new_grab = Some(
                            (sat_sub_i64(pointer.x, a.rect.x0), sat_sub_i64(pointer.y, a.rect.y0)),
                        );
                    }
                },
            }
            draw_rect(fb, &deco_rect, &Color::rgb(0x88, 0x88, 0x88), 128);
            draw_rect(fb, &new_rect, &Color::rgb(0x00, 0x00, 0x00), 128);
            draw_str(
                fb,
                new_rect.x0,
                sat_sub_i64(new_rect.y0, 30),
                &a.descriptor.name,
                &white,
                font,
            );
            invoke.push(i);
        }
        let updated = App { descriptor: a.descriptor, is_open, rect: new_rect, grab_pos: new_grab };
        proof {
            assert(updated == spec_app_step(old(apps)@[i as int], state.pointer));
        }
        out.push(updated);
        proof {
            assert forall|k: int|
                0 <= k < i + 1 && spec_app_step(old(apps)@[k], state.pointer).is_open
                implies invoke@.contains(k as usize) by {
                if k < i {
                    let j = choose|j: int|
                        0 <= j < invoke_before.len() && invoke_before[j] == k as usize;
                    assert(invoke@[j] == k as usize);
                } else {
                    assert(spec_app_step(old(apps)@[i as int], state.pointer).is_open == is_open);
                    assert(invoke@ == invoke_before.push(i as usize));
                    assert(invoke@[invoke@.len() - 1] == i as usize);
                }
            }
        }
        i = i + 1;
    }
    *apps = out;
    invoke
}

/// One event from the pointer device: a relative axis movement or a button
/// transition.
#[derive(Clone, Copy, PartialEq, Eq, Structural, Debug)]
pub struct VirtioInputEvent {
    pub etype: u16,
    pub code: u16,
    pub value: u32,
}

/// The pointer state after one device event: relative moves are clamped to
/// the display, a button event sets the click flag.
pub open spec fn spec_apply_pointer_event(
    st: PointerState,
    e: VirtioInputEvent,
    w: i64,
    h: i64,
) -> PointerState {
    if e.etype == 2 {
        if e.code == 0 {
            PointerState {
                x: clamp_axis(st.x + (e.value as i32), w as int),
                ..st
            }
        } else {
            PointerState {
                y: clamp_axis(st.y + (e.value as i32), h as int),
                ..st
            }
        }
    } else if e.etype == 1 {
        PointerState { left_clicked: e.value == 1, ..st }
    } else {
        st
    }
}

/// An axis value clamped to [0, limit).
pub open spec fn clamp_axis(v: int, limit: int) -> i64 {
    if v < 0 {
        0i64
    } else if v > limit - 1 {
        clamp_i64(limit - 1)
    } else {
        v as i64
    }
}

/// The pointer state after the first `n` device events.
pub open spec fn spec_pointer_after(
    events: Seq<VirtioInputEvent>,
    n: int,
    w: i64,
    h: i64,
    st: PointerState,
) -> PointerState
    decreases n,
{
    if n <= 0 {
        st
    } else {
        spec_apply_pointer_event(spec_pointer_after(events, n - 1, w, h, st), events[n - 1], w, h)
    }
}

/// Folds the tick's pointer device events into the pointer state: relative
/// moves clamped to the display extent, button transitions setting the
/// click flag.
pub fn update_pointer(
    events: &Vec<VirtioInputEvent>,
    w: i64,
    h: i64,
    status: PointerState,
) -> (r: PointerState)
    requires
        w >= 1,
        h >= 1,
    ensures
        r == spec_pointer_after(events@, events@.len() as int, w, h, status),
{
    let mut st = status;
    let n = events.len();
    let mut i: usize = 0;
    while i < n
        invariant
            i <= n,
            n == events@.len(),
            w >= 1,
            h >= 1,
            st == spec_pointer_after(events@, i as int, w, h, status),
        decreases n - i,
    {
        let e = events[i];
        if e.etype == 2 {
            let delta = #[verifier::truncate] (e.value as i32);
            if e.code == 0 {
                let moved = sat_add_i64(st.x, delta as i64);
                let clamped = if moved < 0 {
                    0
                } else if moved > w - 1 {
                    w - 1
                } else {
                    moved
                };
                proof {
                    assert(clamped == clamp_axis(st.x + (e.value as i32), w as int));
                }
                st = PointerState { x: clamped, ..st };
            } else {
                let moved = sat_add_i64(st.y, delta as i64);
                let clamped = if moved < 0 {
                    0
                } else if moved > h - 1 {
                    h - 1
                } else {
                    moved
                };
                proof {
                    assert(clamped == clamp_axis(st.y + (e.value as i32), h as int));
                }
                st = PointerState { y: clamped, ..st };
            }
        } else if e.etype == 1 {
            st = PointerState { left_clicked: e.value == 1, ..st };
        }
        i = i + 1;
    }
    st
}

/// Draws the five-by-five pointer cursor.
pub fn draw_cursor(fb: &mut Framebuffer, state: &SystemState)
    requires
        old(fb).wf(),
    ensures
        final(fb).wf(),
        final(fb).w == old(fb).w,
        final(fb).h == old(fb).h,
        final(fb).pixels@ =~= crate::framebuf::spec_fill_done(
            old(fb).pixels@,
            Rect { x0: state.pointer.x, y0: state.pointer.y, w: 5u32, h: 5u32 },
            old(fb).w as int,
            old(fb).h as int,
            Color { r: 255u8, g: 255u8, b: 255u8, a: 255u8 },
            255u8,
        ),
{
    let r = Rect { x0: state.pointer.x, y0: state.pointer.y, w: 5, h: 5 };
    let white = Color::white();
    draw_rect(fb, &r, &white, 255);
}

/// Blends a translucent rectangle over the framebuffer, taking the alpha
/// from the color itself.
pub fn blend_rect(fb: &mut Framebuffer, rect: &Rect, color: &Color)
    requires
        old(fb).wf(),
    ensures
        final(fb).wf(),
        final(fb).w == old(fb).w,
        final(fb).h == old(fb).h,
        final(fb).pixels@ =~= crate::framebuf::spec_fill_done(
            old(fb).pixels@,
            *rect,
            old(fb).w as int,
            old(fb).h as int,
            *color,
            color.a,
        ),
{
    draw_rect(fb, rect, color, color.a);
}

/// A drawing context of the UI toolkit: the framebuffer widgets render
/// into.
#[derive(Debug)]
pub struct UiContext {
    pub fb: Framebuffer,
}

impl UiContext {
    /// Draws a static canvas: fills the destination rectangle with the
    /// fill color, then copies the source framebuffer into it, shifted by
    /// the scroll offsets and clipped to both buffers. Returns the content
    /// identity of what was drawn — the source's content token with the
    /// viewport — so a cache can skip an unchanged redraw. The offsets and
    /// drag state belong to the caller and are left as they are.
    pub fn static_canvas(
        &mut self,
        dst_rect: &Rect,
        src_fb: &Framebuffer,
        src_id: u64,
        offsets: &mut (i64, i64),
        dragging: &mut (bool, bool),
        fill_color: Color,
    ) -> (content_id: (u64, Rect))
        requires
            old(self).fb.wf(),
            src_fb.wf(),
        ensures
            final(self).fb.wf(),
            final(self).fb.w == old(self).fb.w,
            final(self).fb.h == old(self).fb.h,
            *final(offsets) == *old(offsets),
            *final(dragging) == *old(dragging),
            content_id == (src_id, *dst_rect),
    {
        draw_rect(&mut self.fb, dst_rect, &fill_color, 255);
        let mut vy: u32 = 0;
        while vy < dst_rect.h
            invariant
                self.fb.wf(),
                self.fb.w == old(self).fb.w,
                self.fb.h == old(self).fb.h,
                src_fb.wf(),
            decreases dst_rect.h - vy,
        {
            let mut vx: u32 = 0;
            while vx < dst_rect.w
                invariant
                    self.fb.wf(),
                    self.fb.w == old(self).fb.w,
                    self.fb.h == old(self).fb.h,
                    src_fb.wf(),
                decreases dst_rect.w - vx,
            {
                let sx = sat_add_i64(vx as i64, offsets.0);
                let sy = sat_add_i64(vy as i64, offsets.1);
                let dx = sat_add_i64(dst_rect.x0, vx as i64);
                let dy = sat_add_i64(dst_rect.y0, vy as i64);
                if 0 <= sx && sx < src_fb.w as i64 && 0 <= sy && sy < src_fb.h as i64 && 0 <= dx
                    && dx < self.fb.w as i64 && 0 <= dy && dy < self.fb.h as i64 {
                    proof {
                        assert(sy * src_fb.w + sx < src_fb.w * src_fb.h) by (nonlinear_arith)
                            requires
                                0 <= sx < src_fb.w,
                                0 <= sy < src_fb.h,
                        ;
                        assert(sy * src_fb.w + sx >= 0) by (nonlinear_arith)
                            requires
                                0 <= sx,
                                0 <= sy,
                                src_fb.w >= 0,
                        ;
                        assert(dy * self.fb.w + dx < self.fb.w * self.fb.h) by (nonlinear_arith)
                            requires
                                0 <= dx < self.fb.w,
                                0 <= dy < self.fb.h,
                        ;
                        assert(dy * self.fb.w + dx >= 0) by (nonlinear_arith)
                            requires
                                0 <= dx,
                                0 <= dy,
                                self.fb.w >= 0,
                        ;
                        assert(src_fb.pixels@.len() == src_fb.w * src_fb.h);
                        assert(self.fb.pixels@.len() == self.fb.w * self.fb.h);
                    }
                    let splen = src_fb.pixels.len();
                    let dplen = self.fb.pixels.len();
                    proof {
                        assert(splen == src_fb.w * src_fb.h);
                        assert(dplen == self.fb.w * self.fb.h);
                        assert(sy * (src_fb.w as int) <= sy * (src_fb.w as int) + sx);
                        assert(dy * (self.fb.w as int) <= dy * (self.fb.w as int) + dx);
                    }
                    let sp = src_fb.pixels[(sy as usize) * (src_fb.w as usize) + (sx as usize)];
                    let didx = (dy as usize) * (self.fb.w as usize) + (dx as usize);
                    self.fb.pixels.set(didx, sp);
                }
                vx = vx + 1;
            }
            vy = vy + 1;
        }
        (src_id, *dst_rect)
    }
}

/// Scrolls a static canvas to its bottom: the vertical offset becomes the
/// content height minus the viewport height minus one; the horizontal
/// offset is kept.
pub fn set_autoscroll(dst_rect: &Rect, max_h: u32, offsets: &mut (i64, i64))
    requires
        max_h >= dst_rect.h + 1,
    ensures
        final(offsets).0 == old(offsets).0,
        final(offsets).1 == max_h - dst_rect.h - 1,
{
    offsets.1 = (max_h - dst_rect.h - 1) as i64;
}

} // verus!
