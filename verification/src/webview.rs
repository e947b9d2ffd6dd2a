//! The browser's page view.
//!
//! A webview owns the laid-out page rendered into an off-screen buffer,
//! scrolls it inside its view rectangle, highlights the link under the
//! pointer and reports a clicked link's target for redirection.

use vstd::prelude::*;
use vstd::string::StringExecFns;

use crate::arith::{sat_add_i64, sat_sub_i64};
use crate::color::Color;
use crate::compositor::blend_rect;
use crate::framebuf::{
    draw_char, draw_rect, Font, Framebuffer, FONT_CHAR_H, FONT_CHAR_W, FONT_NB_CHARS,
};
use crate::geometry::Rect;
use crate::html::{
    get_attr, parse_hexcolor, parse_html_checked, check_is_whitespace, HtmlNode, HtmlTree,
    LayoutNode, NodeData, Orientation,
};
use crate::input::{InputEvent, InputState};

verus! {

/// Pixels scrolled per wheel step.
pub const SCROLL_SPEED: u32 = 10;

/// The link currently under the pointer.
#[derive(Debug)]
pub struct LinkData {
    pub node_id: u64,
    pub rect: Rect,
    pub url: String,
    pub clicked: bool,
}

/// What the view shows: nothing yet, or a rendered page.
#[derive(Debug)]
pub enum State {
    Blank,
    Active {
        buffer: Framebuffer,
        layout: LayoutNode,
        link_data: Option<LinkData>,
        y_offset: i64,
    },
}

/// A scrollable rendered page inside a view rectangle.
#[derive(Debug)]
pub struct Webview {
    pub state: State,
    pub view_rect: Rect,
    pub next_node_id: u64,
    pub font: Font,
    pub font_bitmap: Vec<u8>,
}

impl Webview {
    /// Well-formed: the font bitmap has its fixed size and any rendered
    /// buffer is consistent.
    pub open spec fn wf(self) -> bool {
        &&& self.font_bitmap@.len() == FONT_CHAR_W * FONT_CHAR_H * FONT_NB_CHARS
        &&& self.font.char_w >= 1
        &&& self.font.char_h >= 1
        &&& self.state matches State::Active { buffer, y_offset, .. } ==> buffer.wf() && y_offset
            >= 0
    }

    /// Whether the view currently shows a page.
    pub open spec fn spec_is_active(self) -> bool {
        self.state is Active
    }

    /// A blank view over the given rectangle, rendering text with the
    /// given face and font bitmap.
    pub fn new(view_rect: &Rect, font: Font, font_bitmap: Vec<u8>) -> (r: Webview)
        requires
            font_bitmap@.len() == FONT_CHAR_W * FONT_CHAR_H * FONT_NB_CHARS,
            font.char_w >= 1,
            font.char_h >= 1,
        ensures
            r.wf(),
            !r.spec_is_active(),
            r.view_rect == *view_rect,
            r.next_node_id == 0,
    {
        Webview {
            state: State::Blank,
            view_rect: *view_rect,
            next_node_id: 0,
            font,
            font_bitmap,
        }
    }

    /// Hands out the next layout node id; never decreasing, never reused.
    fn make_node_id(&mut self) -> (id: u64)
        ensures
            id == old(self).next_node_id,
            *final(self) == (Webview { next_node_id: final(self).next_node_id, ..*old(self) }),
            final(self).next_node_id == crate::arith::clamp_u64_int(old(self).next_node_id + 1),
    {
        let id = self.next_node_id;
        self.next_node_id = crate::arith::sat_add_u64(self.next_node_id, 1);
        id
    }

    /// Lays one parsed subtree out as boxes: tables stack their rows,
    /// everything else flows horizontally; text is one unwrapped line of
    /// fixed-width cells; anchors carry their target; head elements,
    /// whitespace text and childless containers yield nothing.
    fn parse_node(&mut self, tree: &HtmlTree, html_node_id: usize, x0: i64, y0: i64) -> (r: Option<
        LayoutNode,
    >)
        requires
            old(self).wf(),
            tree.wf(),
            html_node_id < tree.nodes@.len(),
        ensures
            final(self).wf(),
            *final(self) == (Webview { next_node_id: final(self).next_node_id, ..*old(self) }),
            final(self).next_node_id >= old(self).next_node_id,
        decreases tree.nodes@.len() - html_node_id,
    {
        match &tree.nodes[html_node_id].data {
            HtmlNode::Tag { name, attrs } => {
                let head: String = "head".to_owned();
                if *name == head {
                    return None;
                }
                let bg_color = match get_attr(attrs, "bgcolor") {
                    Some(hex) => parse_hexcolor(hex.as_str()),
                    None => None,
                };
                let anchor: String = "a".to_owned();
                let url: Option<String> = if *name == anchor {
                    get_attr(attrs, "href")
                } else {
                    None
                };
                let tbody: String = "tbody".to_owned();
                let table: String = "table".to_owned();
                let orientation = if *name == tbody || *name == table {
                    Orientation::Vertical
                } else {
                    Orientation::Horizontal
                };
                let tag: String = name.clone();
                let mut children: Vec<LayoutNode> = Vec::new();
                let mut child_x0 = x0;
                let mut child_y0 = y0;
                let m = tree.nodes[html_node_id].children.len();
                let mut k: usize = 0;
                while k < m
                    invariant
                        k <= m,
                        self.wf(),
                        tree.wf(),
                        html_node_id < tree.nodes@.len(),
                        m == tree.nodes@[html_node_id as int].children@.len(),
                        *self == (Webview { next_node_id: self.next_node_id, ..*old(self) }),
                        self.next_node_id >= old(self).next_node_id,
                    decreases m - k,
                {
                    let c = tree.nodes[html_node_id].children[k];
                    proof {
                        assert(html_node_id < (
                        #[trigger] tree.nodes@[html_node_id as int].children@[k as int])
                            < tree.nodes@.len());
                    }
                    match self.parse_node(tree, c, child_x0, child_y0) {
                        Some(child_node) => {
                            match orientation {
                                Orientation::Horizontal => {
                                    child_x0 = sat_add_i64(child_x0, child_node.rect.w as i64);
                                },
                                Orientation::Vertical => {
                                    child_y0 = sat_add_i64(child_y0, child_node.rect.h as i64);
                                },
                            }
                            children.push(child_node);
                        },
                        None => {},
                    }
                    k = k + 1;
                }
                if children.len() > 0 {
                    let mut container_rect = children[0].rect;
                    let count = children.len();
                    let mut k2: usize = 1;
                    while k2 < count
                        invariant
                            1 <= k2 <= count,
                            count == children@.len(),
                        decreases count - k2,
                    {
                        container_rect = children[k2].rect.bounding_box(&container_rect);
                        k2 = k2 + 1;
                    }
                    let id = self.make_node_id();
                    Some(
                        LayoutNode {
                            id,
                            rect: container_rect,
                            data: NodeData::Container {
                                children,
                                orientation,
                                bg_color,
                                url,
                                tag,
                            },
                        },
                    )
                } else {
                    None
                }
            },
            HtmlNode::Text { text } => {
                if check_is_whitespace(text.as_str()) {
                    return None;
                }
                let dims = crate::html::measure_text(text.as_str().len(), u32::MAX, self.font);
                let id = self.make_node_id();
                Some(
                    LayoutNode {
                        id,
                        rect: Rect { x0, y0, w: dims.0, h: dims.1 },
                        data: NodeData::Text {
                            text: text.clone(),
                            color: Color::black(),
                            url: None,
                        },
                    },
                )
            },
            HtmlNode::Other => None,
        }
    }

    /// Parses a page and lays out the first child of the document root.
    fn parse_html_to_layout(&mut self, html: &str) -> (r: Option<LayoutNode>)
        requires
            old(self).wf(),
        ensures
            final(self).wf(),
            *final(self) == (Webview { next_node_id: final(self).next_node_id, ..*old(self) }),
    {
        match parse_html_checked(html) {
            Some(tree) => {
                if tree.nodes[0].children.len() == 0 {
                    return None;
                }
                let root_child = tree.nodes[0].children[0];
                proof {
                    assert(0 < (#[trigger] tree.nodes@[0].children@[0]) < tree.nodes@.len());
                }
                self.parse_node(&tree, root_child, 0, 0)
            },
            None => None,
        }
    }

    /// Takes a freshly served page, if any, and folds this tick's input
    /// into the view: scroll events move the viewport, the pointer picks
    /// the hovered link, a press marks it clicked. Returns whether the
    /// view must be redrawn. A blank view with no page to take needs no
    /// redraw.
    pub fn update(&mut self, input_state: &InputState, html_update: Option<&str>) -> (redraw:
        bool)
        requires
            old(self).wf(),
        ensures
            final(self).wf(),
            final(self).view_rect == old(self).view_rect,
            html_update is None && !old(self).spec_is_active() ==> !redraw
                && !final(self).spec_is_active(),
            html_update is None ==> (final(self).spec_is_active() <==> old(
                self,
            ).spec_is_active()),
            old(self).spec_is_active() ==> final(self).spec_is_active(),
            final(self).spec_is_active() && !old(self).spec_is_active() ==> redraw,
            redraw && html_update is None && !old(self).spec_is_active() ==> false,
    {
        let mut redraw = false;
        match html_update {
            Some(html) => {
                match self.parse_html_to_layout(html) {
                    Some(layout) => {
                        let bw: u32 = if layout.rect.w > 2048 {
                            2048
                        } else {
                            layout.rect.w
                        };
                        let bh: u32 = if layout.rect.h > 8192 {
                            8192
                        } else {
                            layout.rect.h
                        };
                        proof {
                            assert(bw * bh <= 0x1000_0000) by (nonlinear_arith)
                                requires
                                    bw <= 2048,
                                    bh <= 8192,
                            ;
                        }
                        let mut buffer = Framebuffer::new(bw, bh);
                        draw_node(&mut buffer, &layout, &self.font_bitmap);
                        self.state = State::Active {
                            buffer,
                            layout,
                            link_data: None,
                            y_offset: 0,
                        };
                        redraw = true;
                    },
                    None => {},
                }
            },
            None => {},
        }
        let ghost after_load = *self;
        proof {
            assert(after_load.wf());
            assert(after_load.spec_is_active() && !old(self).spec_is_active() ==> redraw);
        }
        let view_rect = self.view_rect;
        let pointer = input_state.pointer;
        match &mut self.state {
            State::Blank => {},
            State::Active { layout, link_data, y_offset, .. } => {
                proof {
                    assert(*y_offset >= 0);
                }
                let n = input_state.events.len();
                let mut i: usize = 0;
                while i < n
                    invariant
                        i <= n,
                        n == input_state.events@.len(),
                        *y_offset >= 0,
                        after_load.spec_is_active() && !old(self).spec_is_active() ==> redraw,
                    decreases n - i,
                {
                    match input_state.events[i] {
                        InputEvent::Scroll { delta } => {
                            let moved = sat_sub_i64(
                                *y_offset,
                                crate::arith::sat_mul_i64(delta, SCROLL_SPEED as i64),
                            );
                            *y_offset = if moved < 0 {
                                0
                            } else {
                                moved
                            };
                            redraw = true;
                        },
                        _ => {},
                    }
                    i = i + 1;
                }
                let local_x = sat_sub_i64(pointer.x, view_rect.x0);
                let local_y = sat_add_i64(sat_sub_i64(pointer.y, view_rect.y0), *y_offset);
                let new_link = get_hovered_link(local_x, local_y, layout);
                let changed = match (&new_link, &link_data) {
                    (Some(a), Some(b)) => a.node_id != b.node_id,
                    (None, None) => false,
                    _ => true,
                };
                if changed {
                    redraw = true;
                }
                *link_data = new_link;
                match link_data {
                    Some(l) => {
                        l.clicked = pointer.left_clicked;
                    },
                    None => {},
                }
            },
        }
        proof {
            assert(self.spec_is_active() == after_load.spec_is_active());
            assert(after_load.spec_is_active() && !old(self).spec_is_active() ==> redraw);
        }
        redraw
    }

    /// Blits the visible part of the rendered page into `fb` at the view
    /// rectangle, then highlights the hovered link.
    pub fn draw(&self, fb: &mut Framebuffer)
        requires
            self.wf(),
            old(fb).wf(),
        ensures
            final(fb).wf(),
            final(fb).w == old(fb).w,
            final(fb).h == old(fb).h,
    {
        match &self.state {
            State::Blank => {},
            State::Active { buffer, link_data, y_offset, .. } => {
                blit(fb, buffer, &self.view_rect, *y_offset);
                match link_data {
                    Some(l) => {
                        let r = Rect {
                            x0: sat_add_i64(l.rect.x0, self.view_rect.x0),
                            y0: sat_sub_i64(
                                sat_add_i64(l.rect.y0, self.view_rect.y0),
                                *y_offset,
                            ),
                            w: l.rect.w,
                            h: l.rect.h,
                        };
                        blend_rect(fb, &r, &Color::rgba(0, 0, 255, 128));
                    },
                    None => {},
                }
            },
        }
    }

    /// The target of the link the user clicked this tick, if any.
    pub fn check_redirect(&self) -> (r: Option<&String>)
        ensures
            r is Some <==> (self.state matches State::Active { link_data: Some(l), .. }
                && l.clicked),
            r matches Some(u) ==> (self.state matches State::Active { link_data: Some(l), .. }
                && l.clicked && u == l.url),
    {
        match &self.state {
            State::Active { link_data: Some(l), .. } => {
                if l.clicked {
                    Some(&l.url)
                } else {
                    None
                }
            },
            _ => None,
        }
    }
}

/// Copies the page buffer into the view rectangle, shifted up by the
/// scroll offset and clipped to both buffers.
fn blit(dst: &mut Framebuffer, src: &Framebuffer, view_rect: &Rect, y_offset: i64)
    requires
        old(dst).wf(),
        src.wf(),
    ensures
        final(dst).wf(),
        final(dst).w == old(dst).w,
        final(dst).h == old(dst).h,
{
    let mut vy: u32 = 0;
    while vy < view_rect.h
        invariant
            dst.wf(),
            dst.w == old(dst).w,
            dst.h == old(dst).h,
            src.wf(),
        decreases view_rect.h - vy,
    {
        let mut vx: u32 = 0;
        while vx < view_rect.w
            invariant
                dst.wf(),
                dst.w == old(dst).w,
                dst.h == old(dst).h,
                src.wf(),
            decreases view_rect.w - vx,
        {
            let sx = vx as i64;
            let sy = sat_add_i64(vy as i64, y_offset);
            let dx = sat_add_i64(view_rect.x0, vx as i64);
            let dy = sat_add_i64(view_rect.y0, vy as i64);
            if 0 <= sx && sx < src.w as i64 && 0 <= sy && sy < src.h as i64 && 0 <= dx && dx < dst.w
                as i64 && 0 <= dy && dy < dst.h as i64 {
                proof {
                    assert(sy * src.w + sx < src.w * src.h) by (nonlinear_arith)
                        requires
                            0 <= sx < src.w,
                            0 <= sy < src.h,
                    ;
                    assert(sy * src.w + sx >= 0) by (nonlinear_arith)
                        requires
                            0 <= sx,
                            0 <= sy,
                            src.w >= 0,
                    ;
                    assert(dy * dst.w + dx < dst.w * dst.h) by (nonlinear_arith)
                        requires
                            0 <= dx < dst.w,
                            0 <= dy < dst.h,
                    ;
                    assert(dy * dst.w + dx >= 0) by (nonlinear_arith)
                        requires
                            0 <= dx,
                            0 <= dy,
                            dst.w >= 0,
                    ;
                    assert(src.pixels@.len() == src.w * src.h);
                    assert(dst.pixels@.len() == dst.w * dst.h);
                }
                let splen = src.pixels.len();
                let dplen = dst.pixels.len();
                proof {
                    assert(splen == src.w * src.h);
                    assert(dplen == dst.w * dst.h);
                    assert(sy * (src.w as int) <= sy * (src.w as int) + sx);
                    assert(dy * (dst.w as int) <= dy * (dst.w as int) + dx);
                }
                let sp = src.pixels[(sy as usize) * (src.w as usize) + (sx as usize)];
                let didx = (dy as usize) * (dst.w as usize) + (dx as usize);
                dst.pixels.set(didx, sp);
            }
            vx = vx + 1;
        }
        vy = vy + 1;
    }
}

/// Renders one layout box into the page buffer: text glyph by glyph,
/// containers as an optional background fill and their children; boxes
/// past the buffer's extent are skipped.
#[verifier::loop_isolation(false)]
pub fn draw_node(fb: &mut Framebuffer, node: &LayoutNode, font_bitmap: &Vec<u8>)
    requires
        old(fb).wf(),
        font_bitmap@.len() == FONT_CHAR_W * FONT_CHAR_H * FONT_NB_CHARS,
    ensures
        final(fb).wf(),
        final(fb).w == old(fb).w,
        final(fb).h == old(fb).h,
    decreases *node,
{
    let rect = &node.rect;
    if fb.w as i64 <= rect.x0 || fb.h as i64 <= rect.y0 {
        return;
    }
    match &node.data {
        NodeData::Text { text, color, .. } => {
            draw_text_cells(fb, rect.x0, rect.y0, text.as_str(), color, font_bitmap);
        },
        NodeData::Image => {},
        NodeData::Container { children, bg_color, .. } => {
            match bg_color {
                Some(c) => {
                    draw_rect(fb, rect, c, 255);
                },
                None => {},
            }
            let n = children.len();
            let mut i: usize = 0;
            while i < n
                invariant
                    i <= n,
                    n == children@.len(),
                    fb.wf(),
                    fb.w == old(fb).w,
                    fb.h == old(fb).h,
                    font_bitmap@.len() == FONT_CHAR_W * FONT_CHAR_H * FONT_NB_CHARS,
                decreases n - i,
            {
                proof {
                    broadcast use vstd::std_specs::vec::axiom_vec_decreases_to_view;
                    assert(decreases_to!(*node => node.data));
                    assert(decreases_to!(node.data => node.data->Container_children));
                    assert(node.data->Container_children == *children);
                    assert(decreases_to!(*children => children@));
                    assert(decreases_to!(children@ => children@[i as int]));
                    assert(decreases_to!(*node => children@[i as int]));
                }
                draw_node(fb, &children[i], font_bitmap);
                i = i + 1;
            }
        },
    }
}

/// Draws a text run left to right in fixed-width cells, skipping anything
/// outside printable ASCII.
fn draw_text_cells(
    fb: &mut Framebuffer,
    x0: i64,
    y0: i64,
    text: &str,
    color: &Color,
    font_bitmap: &Vec<u8>,
)
    requires
        old(fb).wf(),
        font_bitmap@.len() == FONT_CHAR_W * FONT_CHAR_H * FONT_NB_CHARS,
    ensures
        final(fb).wf(),
        final(fb).w == old(fb).w,
        final(fb).h == old(fb).h,
{
    let bytes = text.as_bytes();
    let n = bytes.len();
    let mut x = x0;
    let mut i: usize = 0;
    while i < n
        invariant
            i <= n,
            n == bytes@.len(),
            fb.wf(),
            fb.w == old(fb).w,
            fb.h == old(fb).h,
            font_bitmap@.len() == FONT_CHAR_W * FONT_CHAR_H * FONT_NB_CHARS,
        decreases n - i,
    {
        let b = *vstd::slice::slice_index_get(bytes, i);
        if 32 <= b && b <= 126 {
            draw_char(fb, x, y0, b, color, font_bitmap);
        }
        x = sat_add_i64(x, FONT_CHAR_W as i64);
        i = i + 1;
    }
}

/// The innermost link box containing the point, searching containers top
/// down: a container with a target claims the point; one without hands it
/// to the first child that claims it.
#[verifier::loop_isolation(false)]
pub fn get_hovered_link(x: i64, y: i64, node: &LayoutNode) -> (r: Option<LinkData>)
    ensures
        r matches Some(l) ==> !l.clicked && l.rect.spec_contains(x as int, y as int),
        !node.rect.spec_contains(x as int, y as int) ==> r is None,
    decreases *node,
{
    let rect = &node.rect;
    match &node.data {
        NodeData::Text { .. } => None,
        NodeData::Image => None,
        NodeData::Container { children, url, .. } => {
            if rect.check_contains_point(x, y) {
                match url {
                    Some(u) => Some(
                        LinkData { node_id: node.id, rect: *rect, url: u.clone(), clicked: false },
                    ),
                    None => {
                        let n = children.len();
                        let mut i: usize = 0;
                        while i < n
                            invariant
                                i <= n,
                                n == children@.len(),
                            decreases n - i,
                        {
                            proof {
                                broadcast use vstd::std_specs::vec::axiom_vec_decreases_to_view;
                                assert(decreases_to!(*node => node.data));
                                assert(decreases_to!(node.data => node.data->Container_children));
                                assert(node.data->Container_children == *children);
                                assert(decreases_to!(*children => children@));
                                assert(decreases_to!(children@ => children@[i as int]));
                                assert(decreases_to!(*node => children@[i as int]));
                            }
                            match get_hovered_link(x, y, &children[i]) {
                                Some(l) => {
                                    return Some(l);
                                },
                                None => {},
                            }
                            i = i + 1;
                        }
                        None
                    },
                }
            } else {
                None
            }
        },
    }
}

/// A plain-text sketch of a layout tree, one line per box, children
/// indented under their container.
pub fn debug_layout(root_node: &LayoutNode) -> (out: String) {
    let mut out = String::new();
    repr_node(&mut out, root_node, 0);
    out
}

/// Appends one box's line and its children's lines to the sketch.
#[verifier::loop_isolation(false)]
fn repr_node(out_str: &mut String, node: &LayoutNode, depth: usize)
    decreases *node,
{
    let mut d: usize = 0;
    while d < depth
        decreases depth - d,
    {
        out_str.append(" ");
        d = d + 1;
    }
    match &node.data {
        NodeData::Text { text, .. } => {
            out_str.append(text.as_str());
            out_str.append("\n");
        },
        NodeData::Image => {
            out_str.append("IMAGE\n");
        },
        NodeData::Container { children, orientation, .. } => {
            out_str.append("CONTAINER ");
            match orientation {
                Orientation::Horizontal => out_str.append("Horizontal\n"),
                Orientation::Vertical => out_str.append("Vertical\n"),
            }
            let n = children.len();
            let mut i: usize = 0;
            while i < n
                invariant
                    i <= n,
                    n == children@.len(),
                decreases n - i,
            {
                proof {
                    broadcast use vstd::std_specs::vec::axiom_vec_decreases_to_view;
                    assert(decreases_to!(*node => node.data));
                    assert(decreases_to!(node.data => node.data->Container_children));
                    assert(node.data->Container_children == *children);
                    assert(decreases_to!(*children => children@));
                    assert(decreases_to!(children@ => children@[i as int]));
                    assert(decreases_to!(*node => children@[i as int]));
                }
                if depth < usize::MAX {
                    repr_node(out_str, &children[i], depth + 1);
                }
                i = i + 1;
            }
        },
    }
}

} // verus!
