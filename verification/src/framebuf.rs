//! Framebuffers and compositor drawing.
//!
//! A framebuffer is a row-major grid of packed RGBA pixels. Rectangles are
//! filled with integer alpha blending (255 is opaque), text is drawn from a
//! monospace font bitmap the caller supplies, since assets live outside the
//! kernel image.

use vstd::prelude::*;

use crate::color::{spec_color_to_u32, Color};
use crate::geometry::Rect;

verus! {

/// Number of glyphs in the font bitmap: the printable ASCII range 32..=126.
pub const FONT_NB_CHARS: usize = 95;

/// Glyph height in the font bitmap.
pub const FONT_CHAR_H: usize = 24;

/// Glyph width in the font bitmap.
pub const FONT_CHAR_W: usize = 12;

/// A monospace font face: the cell extent of one glyph.
#[derive(Clone, Copy, PartialEq, Eq, Structural, Debug)]
pub struct Font {
    pub char_w: u32,
    pub char_h: u32,
}

/// A row-major RGBA framebuffer.
#[derive(Debug)]
pub struct Framebuffer {
    /// One packed RGBA value per pixel, row-major.
    pub pixels: Vec<u32>,
    pub w: u32,
    pub h: u32,
}

impl Framebuffer {
    /// Well-formed: one pixel per cell.
    pub open spec fn wf(self) -> bool {
        self.pixels@.len() == self.w * self.h
    }

    /// A black framebuffer of the given extent.
    pub fn new(w: u32, h: u32) -> (fb: Framebuffer)
        requires
            w * h <= 0x1000_0000,
        ensures
            fb.wf(),
            fb.w == w,
            fb.h == h,
            forall|i: int| 0 <= i < fb.pixels@.len() ==> fb.pixels@[i] == 0,
    {
        proof {
            assert(w * h >= 0) by (nonlinear_arith);
        }
        let n: usize = (w as usize) * (h as usize);
        proof {
            assert((w as usize) * (h as usize) == w * h) by (nonlinear_arith);
        }
        let mut pixels: Vec<u32> = Vec::new();
        let mut i: usize = 0;
        while i < n
            invariant
                i <= n,
                pixels@.len() == i,
                forall|k: int| 0 <= k < i ==> pixels@[k] == 0,
            decreases n - i,
        {
            pixels.push(0);
            i = i + 1;
        }
        Framebuffer { pixels, w, h }
    }
}

/// Integer alpha blending of one channel: 255 keeps `b`, 0 keeps `a`.
pub open spec fn spec_blend(a: u8, b: u8, alpha: u8) -> u8 {
    (((a * (255 - alpha) + b * alpha) / 255) as u8)
}

/// Blends channel `b` over channel `a` with the given alpha.
pub fn blend(a: u8, b: u8, alpha: u8) -> (r: u8)
    ensures
        r == spec_blend(a, b, alpha),
{
    proof {
        assert((a as int) * (255 - alpha) + (b as int) * alpha <= 255 * 255) by (nonlinear_arith)
            requires
                a <= 255,
                b <= 255,
                alpha <= 255,
        ;
    }
    let num: u32 = (a as u32) * (255 - alpha) as u32 + (b as u32) * (alpha as u32);
    (num / 255) as u8
}

/// The packed pixel that blending `color` at `alpha` over packed pixel `p`
/// yields, channel by channel.
pub open spec fn spec_blend_px(p: u32, color: Color, alpha: u8) -> int {
    let pr = p % 256;
    let pg = (p / 256) % 256;
    let pb = (p / 65536) % 256;
    spec_blend(pr as u8, color.r, alpha) + 256 * spec_blend(pg as u8, color.g, alpha) + 65536
        * spec_blend(pb as u8, color.b, alpha) + 16777216 * 255
}

/// Blends `color` over the packed pixel `p`; the result is opaque.
pub fn blend_px(p: u32, color: Color, alpha: u8) -> (r: u32)
    ensures
        r == spec_blend_px(p, color, alpha),
{
    let old_c = Color::from_u32(p);
    let nr = blend(old_c.r, color.r, alpha);
    let ng = blend(old_c.g, color.g, alpha);
    let nb = blend(old_c.b, color.b, alpha);
    nr as u32 + 256 * ng as u32 + 65536 * nb as u32 + 16777216 * 255
}

/// Whether cell (x, y) lies in the clipped fill region of `rect` on a
/// framebuffer of extent (w, h): the fill includes the rectangle's right
/// and bottom edge, clamped to the framebuffer.
pub open spec fn spec_in_fill(rect: Rect, w: int, h: int, x: int, y: int) -> bool {
    &&& crate::geometry::max_int(0, rect.x0 as int) <= x
    &&& x <= rect.x0 + rect.w
    &&& x < w
    &&& crate::geometry::max_int(0, rect.y0 as int) <= y
    &&& y <= rect.y0 + rect.h
    &&& y < h
}

/// Whether the row-major cell `i` lies in the clipped fill region.
pub open spec fn spec_fill_covered(rect: Rect, w: int, h: int, i: int) -> bool {
    w > 0 && spec_in_fill(rect, w, h, i % w, i / w)
}

/// The pixels after blending `color` over every cell of the fill region
/// whose row is below `y`, or on row `y` left of column `x`.
pub open spec fn spec_fill_partial(
    s: Seq<u32>,
    rect: Rect,
    w: int,
    h: int,
    color: Color,
    alpha: u8,
    x: int,
    y: int,
) -> Seq<u32> {
    Seq::new(
        s.len(),
        |i: int|
            if spec_fill_covered(rect, w, h, i) && (i / w < y || (i / w == y && i % w < x)) {
                spec_blend_px(s[i], color, alpha) as u32
            } else {
                s[i]
            },
    )
}

/// The pixels after blending `color` over the whole clipped fill region.
pub open spec fn spec_fill_done(
    s: Seq<u32>,
    rect: Rect,
    w: int,
    h: int,
    color: Color,
    alpha: u8,
) -> Seq<u32> {
    Seq::new(
        s.len(),
        |i: int|
            if spec_fill_covered(rect, w, h, i) {
                spec_blend_px(s[i], color, alpha) as u32
            } else {
                s[i]
            },
    )
}

/// Fills `rect` (clipped, edges inclusive) with `color`, blending each
/// covered pixel at `alpha`; every other pixel is untouched.
pub fn draw_rect(fb: &mut Framebuffer, rect: &Rect, color: &Color, alpha: u8)
    requires
        old(fb).wf(),
    ensures
        final(fb).wf(),
        final(fb).w == old(fb).w,
        final(fb).h == old(fb).h,
        final(fb).pixels@ =~= spec_fill_done(
            old(fb).pixels@,
            *rect,
            old(fb).w as int,
            old(fb).h as int,
            *color,
            alpha,
        ),
{
    let w = fb.w as i64;
    let h = fb.h as i64;
    let x0: i64 = if rect.x0 >= 0 {
        rect.x0
    } else {
        0
    };
    let y0: i64 = if rect.y0 >= 0 {
        rect.y0
    } else {
        0
    };
    let x1: i64 = crate::arith::sat_add_i64(rect.x0, rect.w as i64);
    let y1: i64 = crate::arith::sat_add_i64(rect.y0, rect.h as i64);
    let ghost s0 = old(fb).pixels@;
    let ghost wi = old(fb).w as int;
    let ghost hi = old(fb).h as int;
    let ghost len = old(fb).pixels@.len() as int;
    proof {
        assert(fb.pixels@ =~= spec_fill_partial(s0, *rect, wi, hi, *color, alpha, x0 as int, y0 as int)) by {
            assert forall|i: int| 0 <= i < len implies spec_fill_partial(
                s0,
                *rect,
                wi,
                hi,
                *color,
                alpha,
                x0 as int,
                y0 as int,
            )[i] == s0[i] by {
                if spec_fill_covered(*rect, wi, hi, i) {
                    assert(crate::geometry::max_int(0, rect.y0 as int) <= i / wi);
                    assert(crate::geometry::max_int(0, rect.x0 as int) <= i % wi);
                }
            }
        }
    }
    let mut y: i64 = y0;
    while y < h && y <= y1
        invariant
            fb.wf(),
            fb.w == old(fb).w,
            fb.h == old(fb).h,
            w == old(fb).w,
            h == old(fb).h,
            wi == old(fb).w,
            hi == old(fb).h,
            s0 == old(fb).pixels@,
            len == s0.len(),
            y0 <= y,
            y0 == if rect.y0 >= 0 {
                rect.y0 as int
            } else {
                0
            },
            x0 == if rect.x0 >= 0 {
                rect.x0 as int
            } else {
                0
            },
            x1 == crate::arith::clamp_i64(rect.x0 + rect.w),
            y1 == crate::arith::clamp_i64(rect.y0 + rect.h),
            fb.pixels@ == spec_fill_partial(s0, *rect, wi, hi, *color, alpha, x0 as int, y as int),
        decreases h - y,
    {
        let mut x: i64 = x0;
        while x < w && x <= x1
            invariant
                fb.wf(),
                fb.w == old(fb).w,
                fb.h == old(fb).h,
                w == old(fb).w,
                h == old(fb).h,
                wi == old(fb).w,
                hi == old(fb).h,
                s0 == old(fb).pixels@,
                len == s0.len(),
                0 <= y < h,
                y <= y1,
                x0 <= x,
                x0 == if rect.x0 >= 0 {
                    rect.x0 as int
                } else {
                    0
                },
                y0 == if rect.y0 >= 0 {
                    rect.y0 as int
                } else {
                    0
                },
                y0 <= y,
                x1 == crate::arith::clamp_i64(rect.x0 + rect.w),
                y1 == crate::arith::clamp_i64(rect.y0 + rect.h),
                fb.pixels@ == spec_fill_partial(s0, *rect, wi, hi, *color, alpha, x as int, y as int),
            decreases w - x,
        {
            proof {
                assert(y * wi + x < wi * hi) by (nonlinear_arith)
                    requires
                        0 <= x < wi,
                        0 <= y < hi,
                ;
                assert(y * wi + x >= 0) by (nonlinear_arith)
                    requires
                        0 <= x,
                        0 <= y,
                        wi >= 0,
                ;
            }
            let plen = fb.pixels.len();
            proof {
                assert(plen == wi * hi);
                assert(y * wi <= y * wi + x);
            }
            let idx: usize = (y as usize) * (fb.w as usize) + (x as usize);
            let ghost gidx = y as int * wi + x as int;
            proof {
                vstd::arithmetic::div_mod::lemma_fundamental_div_mod_converse(
                    gidx,
                    wi,
                    y as int,
                    x as int,
                );
                assert(spec_fill_partial(s0, *rect, wi, hi, *color, alpha, x as int, y as int)[gidx]
                    == s0[gidx]);
            }
            let p = fb.pixels[idx];
            let np = blend_px(p, *color, alpha);
            fb.pixels.set(idx, np);
            proof {
                let pre = spec_fill_partial(s0, *rect, wi, hi, *color, alpha, x as int, y as int);
                let post = spec_fill_partial(
                    s0,
                    *rect,
                    wi,
                    hi,
                    *color,
                    alpha,
                    x + 1,
                    y as int,
                );
                assert(spec_in_fill(*rect, wi, hi, x as int, y as int));
                assert forall|i: int| 0 <= i < len implies pre.update(gidx, np)[i] == post[i] by {
                    if i == gidx {
                        assert(post[i] == spec_blend_px(s0[i], *color, alpha) as u32);
                    } else {
                        vstd::arithmetic::div_mod::lemma_fundamental_div_mod(i, wi);
                        if spec_fill_covered(*rect, wi, hi, i) && i / wi == y && i % wi == x {
                            assert(wi * (i / wi) == (i / wi) * wi) by (nonlinear_arith);
                            assert(i == gidx);
                        }
                    }
                }
                assert(fb.pixels@ =~= post);
            }
            x = x + 1;
        }
        proof {
            let at_exit = spec_fill_partial(s0, *rect, wi, hi, *color, alpha, x as int, y as int);
            let next_row = spec_fill_partial(
                s0,
                *rect,
                wi,
                hi,
                *color,
                alpha,
                x0 as int,
                y + 1,
            );
            assert forall|i: int| 0 <= i < len implies at_exit[i] == next_row[i] by {
                if spec_fill_covered(*rect, wi, hi, i) {
                    assert(wi > 0);
                    assert(0 <= i % wi < wi);
                    if i / wi == y {
                        assert(i % wi <= rect.x0 + rect.w);
                        assert(crate::geometry::max_int(0, rect.x0 as int) <= i % wi);
                    }
                }
            }
            assert(fb.pixels@ =~= next_row);
            assert(fb.pixels@ == next_row);
        }
        y = y + 1;
    }
    proof {
        let at_end = spec_fill_partial(s0, *rect, wi, hi, *color, alpha, x0 as int, y as int);
        let done = spec_fill_done(s0, *rect, wi, hi, *color, alpha);
        assert forall|i: int| 0 <= i < len implies at_end[i] == done[i] by {
            if spec_fill_covered(*rect, wi, hi, i) {
                assert(wi > 0);
                assert(0 <= i % wi < wi);
                assert(i / wi <= rect.y0 + rect.h);
                assert(i / wi < hi);
                assert(crate::geometry::max_int(0, rect.y0 as int) <= i / wi);
            }
        }
        assert(fb.pixels@ =~= done);
    }
}

/// Whether the font bitmap lights the glyph cell (gx, gy) of character
/// `c`: glyphs are stored row-major, all characters side by side.
pub open spec fn spec_glyph_on(font: Seq<u8>, c: u8, gx: int, gy: int) -> bool {
    font[gy * (FONT_CHAR_W * FONT_NB_CHARS) + gx + (c - 32) * FONT_CHAR_W] > 0
}

/// Whether the row-major cell `i` is lit when character `c` is drawn with
/// its glyph origin at (x0, y0); cells outside the framebuffer do not
/// exist, so drawing near an edge clips.
pub open spec fn spec_char_covered(
    font: Seq<u8>,
    c: u8,
    x0: int,
    y0: int,
    w: int,
    i: int,
) -> bool {
    w > 0 && {
        let x = i % w;
        let y = i / w;
        &&& x0 <= x < x0 + FONT_CHAR_W
        &&& y0 <= y < y0 + FONT_CHAR_H
        &&& spec_glyph_on(font, c, x - x0, y - y0)
    }
}

/// The pixels after drawing glyph columns left of `gx`, and in column `gx`
/// the rows above `gy`.
pub open spec fn spec_char_partial(
    s: Seq<u32>,
    font: Seq<u8>,
    c: u8,
    x0: int,
    y0: int,
    w: int,
    color: Color,
    gx: int,
    gy: int,
) -> Seq<u32> {
    Seq::new(
        s.len(),
        |i: int|
            if spec_char_covered(font, c, x0, y0, w, i) && (i % w - x0 < gx || (i % w - x0 == gx
                && i / w - y0 < gy)) {
                spec_color_to_u32(color) as u32
            } else {
                s[i]
            },
    )
}

/// The pixels after drawing the whole glyph.
pub open spec fn spec_char_done(
    s: Seq<u32>,
    font: Seq<u8>,
    c: u8,
    x0: int,
    y0: int,
    w: int,
    color: Color,
) -> Seq<u32> {
    Seq::new(
        s.len(),
        |i: int|
            if spec_char_covered(font, c, x0, y0, w, i) {
                spec_color_to_u32(color) as u32
            } else {
                s[i]
            },
    )
}

/// Draws one printable ASCII character at (x0, y0) from the font bitmap:
/// lit glyph cells become `color` (opaque), everything else is untouched;
/// cells outside the framebuffer are clipped.
pub fn draw_char(fb: &mut Framebuffer, x0: i64, y0: i64, c: u8, color: &Color, font: &Vec<u8>)
    requires
        old(fb).wf(),
        32 <= c <= 126,
        font@.len() == FONT_CHAR_W * FONT_CHAR_H * FONT_NB_CHARS,
    ensures
        final(fb).wf(),
        final(fb).w == old(fb).w,
        final(fb).h == old(fb).h,
        final(fb).pixels@ =~= spec_char_done(
            old(fb).pixels@,
            font@,
            c,
            x0 as int,
            y0 as int,
            old(fb).w as int,
            *color,
        ),
{
    let w = fb.w as i64;
    let h = fb.h as i64;
    let ghost s0 = old(fb).pixels@;
    let ghost wi = old(fb).w as int;
    let ghost hi = old(fb).h as int;
    let ghost len = old(fb).pixels@.len() as int;
    let packed = color.to_u32();
    let c_index: usize = (c - 32) as usize;
    proof {
        assert(fb.pixels@ =~= spec_char_partial(
            s0,
            font@,
            c,
            x0 as int,
            y0 as int,
            wi,
            *color,
            0,
            0,
        ));
    }
    let mut gx: usize = 0;
    while gx < FONT_CHAR_W
        invariant
            fb.wf(),
            fb.w == old(fb).w,
            fb.h == old(fb).h,
            w == old(fb).w,
            h == old(fb).h,
            wi == old(fb).w,
            hi == old(fb).h,
            s0 == old(fb).pixels@,
            len == s0.len(),
            gx <= FONT_CHAR_W,
            c_index == c - 32,
            32 <= c <= 126,
            packed == spec_color_to_u32(*color),
            font@.len() == FONT_CHAR_W * FONT_CHAR_H * FONT_NB_CHARS,
            fb.pixels@ == spec_char_partial(
                s0,
                font@,
                c,
                x0 as int,
                y0 as int,
                wi,
                *color,
                gx as int,
                0,
            ),
        decreases FONT_CHAR_W - gx,
    {
        let mut gy: usize = 0;
        while gy < FONT_CHAR_H
            invariant
                fb.wf(),
                fb.w == old(fb).w,
                fb.h == old(fb).h,
                w == old(fb).w,
                h == old(fb).h,
                wi == old(fb).w,
                hi == old(fb).h,
                s0 == old(fb).pixels@,
                len == s0.len(),
                gx < FONT_CHAR_W,
                gy <= FONT_CHAR_H,
                c_index == c - 32,
                32 <= c <= 126,
                packed == spec_color_to_u32(*color),
                font@.len() == FONT_CHAR_W * FONT_CHAR_H * FONT_NB_CHARS,
                fb.pixels@ == spec_char_partial(
                    s0,
                    font@,
                    c,
                    x0 as int,
                    y0 as int,
                    wi,
                    *color,
                    gx as int,
                    gy as int,
                ),
            decreases FONT_CHAR_H - gy,
        {
            let ghost pre = fb.pixels@;
            let i_font: usize = gy * (FONT_CHAR_W * FONT_NB_CHARS) + gx + c_index * FONT_CHAR_W;
            proof {
                assert(i_font < font@.len()) by (nonlinear_arith)
                    requires
                        i_font == gy * (FONT_CHAR_W * FONT_NB_CHARS) + gx + c_index * FONT_CHAR_W,
                        gy < FONT_CHAR_H,
                        gx < FONT_CHAR_W,
                        c_index < FONT_NB_CHARS,
                        font@.len() == FONT_CHAR_W * FONT_CHAR_H * FONT_NB_CHARS,
                ;
            }
            let lit = font[i_font] > 0;
            let x = crate::arith::sat_add_i64(x0, gx as i64);
            let y = crate::arith::sat_add_i64(y0, gy as i64);
            if lit && x >= 0 && x < w && y >= 0 && y < h {
                proof {
                    assert(x == x0 + gx);
                    assert(y == y0 + gy);
                    assert(y * wi + x < wi * hi) by (nonlinear_arith)
                        requires
                            0 <= x < wi,
                            0 <= y < hi,
                    ;
                    assert(y * wi + x >= 0) by (nonlinear_arith)
                        requires
                            0 <= x,
                            0 <= y,
                            wi >= 0,
                    ;
                    assert(fb.pixels.len() == wi * hi);
                    assert(y * wi <= y * wi + x);
                }
                let idx: usize = (y as usize) * (fb.w as usize) + (x as usize);
                let ghost gidx = y as int * wi + x as int;
                fb.pixels.set(idx, packed);
                proof {
                    vstd::arithmetic::div_mod::lemma_fundamental_div_mod_converse(
                        gidx,
                        wi,
                        y as int,
                        x as int,
                    );
                    char_step(s0, font@, c, x0 as int, y0 as int, wi, hi, *color, gx as int,
                        gy as int, pre, fb.pixels@, Some(gidx), true);
                }
            } else {
                proof {
                    assert(!(lit && 0 <= x0 + gx < wi && 0 <= y0 + gy < hi)) by {
                        if lit && 0 <= x0 + gx < wi && 0 <= y0 + gy < hi {
                            assert(x == x0 + gx);
                            assert(y == y0 + gy);
                        }
                    }
                    char_step(s0, font@, c, x0 as int, y0 as int, wi, hi, *color, gx as int,
                        gy as int, pre, fb.pixels@, None, lit);
                }
            }
            gy = gy + 1;
        }
        proof {
            let a = spec_char_partial(
                s0,
                font@,
                c,
                x0 as int,
                y0 as int,
                wi,
                *color,
                gx as int,
                FONT_CHAR_H as int,
            );
            let b = spec_char_partial(
                s0,
                font@,
                c,
                x0 as int,
                y0 as int,
                wi,
                *color,
                gx + 1,
                0,
            );
            assert forall|i: int| 0 <= i < len implies a[i] == b[i] by {}
            assert(fb.pixels@ =~= b);
        }
        gx = gx + 1;
    }
    proof {
        let a = spec_char_partial(
            s0,
            font@,
            c,
            x0 as int,
            y0 as int,
            wi,
            *color,
            FONT_CHAR_W as int,
            0,
        );
        let b = spec_char_done(s0, font@, c, x0 as int, y0 as int, wi, *color);
        assert forall|i: int| 0 <= i < len implies a[i] == b[i] by {}
        assert(fb.pixels@ =~= b);
    }
}

/// One glyph-cell step preserves the partial-drawing invariant: either the
/// cell was written (in bounds and lit) or nothing changed (clipped or
/// unlit), and in both cases the next partial state is reached.
proof fn char_step(
    s0: Seq<u32>,
    font: Seq<u8>,
    c: u8,
    x0: int,
    y0: int,
    w: int,
    h: int,
    color: Color,
    gx: int,
    gy: int,
    pre: Seq<u32>,
    post: Seq<u32>,
    written: Option<int>,
    lit: bool,
)
    requires
        w >= 0,
        h >= 0,
        s0.len() == w * h,
        0 <= gx < FONT_CHAR_W,
        0 <= gy < FONT_CHAR_H,
        32 <= c <= 126,
        font.len() == FONT_CHAR_W * FONT_CHAR_H * FONT_NB_CHARS,
        pre == spec_char_partial(s0, font, c, x0, y0, w, color, gx, gy),
        lit == spec_glyph_on(font, c, gx, gy),
        written matches Some(gidx) ==> {
            &&& 0 <= x0 + gx < w
            &&& 0 <= y0 + gy < h
            &&& lit
            &&& gidx == (y0 + gy) * w + (x0 + gx)
            &&& gidx / w == y0 + gy
            &&& gidx % w == x0 + gx
            &&& post == pre.update(gidx, spec_color_to_u32(color) as u32)
        },
        written is None ==> post == pre && !(lit && 0 <= x0 + gx < w && 0 <= y0 + gy < h),
    ensures
        post =~= spec_char_partial(s0, font, c, x0, y0, w, color, gx, gy + 1),
{
    let next = spec_char_partial(s0, font, c, x0, y0, w, color, gx, gy + 1);
    assert forall|i: int| 0 <= i < s0.len() implies post[i] == next[i] by {
        assert(w > 0) by (nonlinear_arith)
            requires
                0 <= i < s0.len(),
                s0.len() == w * h,
                w >= 0,
                h >= 0,
        ;
        vstd::arithmetic::div_mod::lemma_fundamental_div_mod(i, w);
        vstd::arithmetic::div_mod::lemma_div_pos_is_pos(i, w);
        assert(0 <= i % w < w);
        assert(i < w * h) by (nonlinear_arith)
            requires
                0 <= i < s0.len(),
                s0.len() == w * h,
        ;
        vstd::arithmetic::div_mod::lemma_multiply_divide_lt(i, w, h);
        assert(0 <= i / w < h);
        let cx = i % w - x0;
        let cy = i / w - y0;
        let cov = spec_char_covered(font, c, x0, y0, w, i);
        let packed = spec_color_to_u32(color) as u32;
        assert(next[i] == if cov && (cx < gx || (cx == gx && cy < gy + 1)) {
            packed
        } else {
            s0[i]
        });
        assert(pre[i] == if cov && (cx < gx || (cx == gx && cy < gy)) {
            packed
        } else {
            s0[i]
        });
        if let Some(gidx) = written {
            assert(0 <= gidx < s0.len()) by (nonlinear_arith)
                requires
                    gidx == (y0 + gy) * w + (x0 + gx),
                    0 <= x0 + gx < w,
                    0 <= y0 + gy < h,
                    s0.len() == w * h,
            ;
            assert(pre.len() == s0.len());
            if i == gidx {
                assert(cx == gx && cy == gy);
                assert(spec_glyph_on(font, c, gx, gy));
                assert(cov);
                assert(post[i] == packed);
                assert(next[i] == packed);
            } else {
                assert(post[i] == pre[i]);
                if cov && cx == gx && cy == gy {
                    assert(i % w == gidx % w);
                    assert(i / w == gidx / w);
                    assert(w * (i / w) == (i / w) * w) by (nonlinear_arith);
                    assert(w * (gidx / w) == (gidx / w) * w) by (nonlinear_arith);
                    assert(i == w * (i / w) + i % w);
                    assert(gidx == (gidx / w) * w + gidx % w);
                    assert(i == gidx);
                    assert(false);
                }
                assert(next[i] == pre[i]);
            }
        } else {
            assert(post[i] == pre[i]);
            if cov && cx == gx && cy == gy {
                assert(0 <= x0 + gx < w);
                assert(0 <= y0 + gy < h);
                assert(spec_glyph_on(font, c, gx, gy));
                assert(false);
            }
            assert(next[i] == pre[i]);
        }
    }
    match written {
        Some(g) => {
            assert(0 <= g < s0.len()) by (nonlinear_arith)
                requires
                    g == (y0 + gy) * w + (x0 + gx),
                    0 <= x0 + gx < w,
                    0 <= y0 + gy < h,
                    s0.len() == w * h,
            ;
            assert(pre.len() == s0.len());
            assert(post == pre.update(g, spec_color_to_u32(color) as u32));
            assert(post.len() == pre.len());
        },
        None => {
            assert(post == pre);
            assert(pre.len() == s0.len());
        },
    }
    assert(post.len() == s0.len());
    assert(next.len() == s0.len());
    assert(post =~= next);
}

/// Draws a byte string left to right in fixed-width cells starting at
/// (x0, y0). The framebuffer keeps its extent; each character must be
/// printable ASCII.
pub fn draw_str(
    fb: &mut Framebuffer,
    x0: i64,
    y0: i64,
    s: &Vec<u8>,
    color: &Color,
    font: &Vec<u8>,
)
    requires
        old(fb).wf(),
        forall|i: int| 0 <= i < s@.len() ==> 32 <= #[trigger] s@[i] <= 126,
        font@.len() == FONT_CHAR_W * FONT_CHAR_H * FONT_NB_CHARS,
    ensures
        final(fb).wf(),
        final(fb).w == old(fb).w,
        final(fb).h == old(fb).h,
{
    let mut x = x0;
    let n = s.len();
    let mut i: usize = 0;
    while i < n
        invariant
            fb.wf(),
            fb.w == old(fb).w,
            fb.h == old(fb).h,
            i <= n,
            n == s@.len(),
            forall|k: int| 0 <= k < s@.len() ==> 32 <= #[trigger] s@[k] <= 126,
            font@.len() == FONT_CHAR_W * FONT_CHAR_H * FONT_NB_CHARS,
        decreases n - i,
    {
        draw_char(fb, x, y0, s[i], color, font);
        x = crate::arith::sat_add_i64(x, FONT_CHAR_W as i64);
        i = i + 1;
    }
}

} // verus!
