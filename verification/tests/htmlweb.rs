//! Tests for HTML parsing, hex colors, layout and the webview, driven
//! through the public surface with the real outside parser linked.

use wasmos::color::Color;
use wasmos::framebuf::{Font, FONT_CHAR_H, FONT_CHAR_W, FONT_NB_CHARS};
use wasmos::geometry::Rect;
use wasmos::html::{
    check_is_block_element, check_is_whitespace, check_tree_wf, compute_layout, get_attr,
    make_node_id, measure_text, parse_dim, parse_hexcolor, parse_html_checked, parse_node,
    parse_u32, HtmlNode, HtmlTree, HtmlTreeNode, LayoutError, LayoutNode, NodeData, Orientation,
};
use wasmos::input::{InputEvent, InputState, PointerState};
use wasmos::webview::{draw_node, get_hovered_link, Webview};

fn test_font() -> Font {
    Font { char_w: 6, char_h: 12 }
}

fn test_bitmap() -> Vec<u8> {
    vec![1; FONT_CHAR_W * FONT_CHAR_H * FONT_NB_CHARS]
}

#[test]
fn hexcolor_decodes_pairs() {
    assert_eq!(
        parse_hexcolor("#ff0080"),
        Some(Color { r: 0xFF, g: 0x00, b: 0x80, a: 0xFF })
    );
    assert_eq!(
        parse_hexcolor("01020304"),
        Some(Color { r: 1, g: 2, b: 3, a: 4 })
    );
    assert_eq!(parse_hexcolor("#abc"), None);
    assert_eq!(parse_hexcolor("zzzzzz"), None);
    assert_eq!(parse_hexcolor(""), None);
}

#[test]
fn decimal_attribute_parsing() {
    assert_eq!(parse_u32("123"), Some(123));
    assert_eq!(parse_u32("0"), Some(0));
    assert_eq!(parse_u32("4294967295"), Some(u32::MAX));
    assert_eq!(parse_u32("4294967296"), None);
    assert_eq!(parse_u32(""), None);
    assert_eq!(parse_u32("12a"), None);
}

#[test]
fn attribute_lookup_finds_first_match() {
    let attrs = vec![
        ("width".to_string(), "64".to_string()),
        ("height".to_string(), "2".to_string()),
        ("width".to_string(), "9".to_string()),
    ];
    assert_eq!(get_attr(&attrs, "width"), Some("64".to_string()));
    assert_eq!(get_attr(&attrs, "bgcolor"), None);
    assert_eq!(parse_dim(&attrs, "width"), 64);
    assert_eq!(parse_dim(&attrs, "depth"), 0);
}

#[test]
fn whitespace_and_block_checks() {
    assert!(check_is_whitespace("  \t\n "));
    assert!(!check_is_whitespace(" x "));
    assert!(check_is_whitespace(""));
    // The full whitespace set, as the standard library draws it.
    let samples = [
        "\u{00A0}\u{2028} ",
        "\u{85}\u{1680}\u{3000}",
        "\u{2000}\u{200A}\u{202F}\u{205F}\u{2029}",
        "x\u{00A0}",
        "\u{200B}",
    ];
    for sample in samples {
        assert_eq!(
            check_is_whitespace(sample),
            sample.chars().all(char::is_whitespace),
            "sample {sample:?}"
        );
    }
    let p = HtmlNode::Tag { name: "p".to_string(), attrs: Vec::new() };
    let div = HtmlNode::Tag { name: "div".to_string(), attrs: Vec::new() };
    let text = HtmlNode::Text { text: "p".to_string() };
    assert!(check_is_block_element(&p));
    assert!(!check_is_block_element(&div));
    assert!(!check_is_block_element(&text));
}

#[test]
fn text_measurement_wraps() {
    // Five glyphs, sixteen per line: one line.
    assert_eq!(measure_text(5, 100, test_font()), (30, 12));
    // Forty glyphs, sixteen per line: three lines, full width.
    assert_eq!(measure_text(40, 100, test_font()), (96, 36));
    // Empty text still occupies one line of height.
    assert_eq!(measure_text(0, 100, test_font()), (0, 12));
}

fn tag(name: &str) -> HtmlNode {
    HtmlNode::Tag { name: name.to_string(), attrs: Vec::new() }
}

fn text(s: &str) -> HtmlNode {
    HtmlNode::Text { text: s.to_string() }
}

fn node(data: HtmlNode, children: Vec<usize>) -> HtmlTreeNode {
    HtmlTreeNode { data, children }
}

#[test]
fn tree_wf_check() {
    let ok = HtmlTree { nodes: vec![node(tag("body"), vec![1]), node(text("x"), Vec::new())] };
    assert!(check_tree_wf(&ok));
    let cyclic = HtmlTree { nodes: vec![node(tag("body"), vec![0])] };
    assert!(!check_tree_wf(&cyclic));
    let oob = HtmlTree { nodes: vec![node(tag("body"), vec![5])] };
    assert!(!check_tree_wf(&oob));
}

#[test]
fn layout_of_a_small_document() {
    // body > (p "hello", p "world") stacks the paragraphs vertically.
    let tree = HtmlTree {
        nodes: vec![
            node(tag("body"), vec![1, 3]),
            node(tag("p"), vec![2]),
            node(text("hello"), Vec::new()),
            node(tag("p"), vec![4]),
            node(text("world"), Vec::new()),
        ],
    };
    let layout = compute_layout(&tree, 800, test_font()).expect("document lays out");
    match &layout.data {
        NodeData::Container { children, orientation, tag, .. } => {
            assert_eq!(*orientation, Orientation::Vertical);
            assert_eq!(tag.as_str(), "body");
            assert_eq!(children.len(), 2);
            // Each paragraph adds a twenty-pixel top margin; the second
            // paragraph sits below the first.
            let first = &children[0];
            let second = &children[1];
            assert_eq!(first.rect.y0, 20);
            assert!(second.rect.y0 > first.rect.y0);
        },
        _ => panic!("root should be a container"),
    }
}

#[test]
fn layout_skips_head_script_and_whitespace() {
    let tree = HtmlTree {
        nodes: vec![
            node(tag("body"), vec![1, 2, 3]),
            node(tag("head"), Vec::new()),
            node(tag("script"), Vec::new()),
            node(text("   \n"), Vec::new()),
        ],
    };
    assert!(matches!(
        compute_layout(&tree, 800, test_font()),
        Err(LayoutError::NoLayout)
    ));
}

#[test]
fn layout_rejects_malformed_trees() {
    let cyclic = HtmlTree { nodes: vec![node(tag("body"), vec![0])] };
    assert!(matches!(
        compute_layout(&cyclic, 800, test_font()),
        Err(LayoutError::MalformedTree)
    ));
    let empty = HtmlTree { nodes: Vec::new() };
    assert!(matches!(
        compute_layout(&empty, 800, test_font()),
        Err(LayoutError::NoLayout)
    ));
}

#[test]
fn layout_image_takes_declared_extent() {
    let img = HtmlNode::Tag {
        name: "img".to_string(),
        attrs: vec![
            ("width".to_string(), "64".to_string()),
            ("height".to_string(), "32".to_string()),
        ],
    };
    let tree = HtmlTree {
        nodes: vec![node(tag("body"), vec![1]), node(img, Vec::new())],
    };
    let layout = compute_layout(&tree, 800, test_font()).unwrap();
    match &layout.data {
        NodeData::Container { children, .. } => {
            assert_eq!(children[0].rect.w, 64);
            assert_eq!(children[0].rect.h, 32);
            assert!(matches!(children[0].data, NodeData::Image));
        },
        _ => panic!("root should be a container"),
    }
}

#[test]
fn layout_anchor_colors_text_and_carries_target() {
    let a = HtmlNode::Tag {
        name: "a".to_string(),
        attrs: vec![("href".to_string(), "next".to_string())],
    };
    let tree = HtmlTree {
        nodes: vec![
            node(tag("body"), vec![1]),
            node(a, vec![2]),
            node(text("go"), Vec::new()),
        ],
    };
    let layout = compute_layout(&tree, 800, test_font()).unwrap();
    match &layout.data {
        NodeData::Container { children, .. } => match &children[0].data {
            NodeData::Container { url, children: inner, .. } => {
                assert_eq!(url.as_deref(), Some("next"));
                match &inner[0].data {
                    NodeData::Text { color, .. } => {
                        assert_eq!(*color, Color { r: 0, g: 0, b: 255, a: 255 });
                    },
                    _ => panic!("anchor should hold text"),
                }
            },
            _ => panic!("anchor should be a container"),
        },
        _ => panic!("root should be a container"),
    }
}

#[test]
fn node_ids_are_unique_per_pass() {
    let mut next: u64 = 0;
    let a = make_node_id(&mut next);
    let b = make_node_id(&mut next);
    assert_eq!((a, b), (0, 1));
    let tree = HtmlTree {
        nodes: vec![node(tag("body"), vec![1]), node(text("x"), Vec::new())],
    };
    let mut next2: u64 = 0;
    let out = parse_node(&mut next2, &tree, 0, 0, 0, false, 800, test_font()).unwrap();
    // Text child was numbered before its container.
    assert_eq!(out.id, 1);
    assert_eq!(next2, 2);
}

#[test]
fn outside_parser_yields_a_usable_tree() {
    // Through the real HTML parser: the parse must produce a well-formed
    // arena holding the document's elements, not the input text.
    let tree = parse_html_checked("<html><body bgcolor=\"#102030\">hi</body></html>")
        .expect("parse succeeds");
    assert!(check_tree_wf(&tree));
    let mut saw_body = false;
    let mut saw_text = false;
    for n in &tree.nodes {
        match &n.data {
            HtmlNode::Tag { name, attrs } => {
                if name.as_str() == "body" {
                    saw_body = true;
                    assert_eq!(get_attr(attrs, "bgcolor"), Some("#102030".to_string()));
                }
            },
            HtmlNode::Text { text } => {
                if text.as_str() == "hi" {
                    saw_text = true;
                }
            },
            HtmlNode::Other => {},
        }
    }
    assert!(saw_body && saw_text);
}

#[test]
fn parsed_document_lays_out() {
    // The parser's arena root is the document node; the page's boxes hang
    // off the element below it, which is where the view enters the layout.
    let tree = parse_html_checked("<html><body><p>hello</p></body></html>").unwrap();
    let html_elem = tree.nodes[0].children[0];
    let mut next: u64 = 0;
    let layout = parse_node(&mut next, &tree, html_elem, 0, 0, false, 800, test_font())
        .expect("page lays out");
    match &layout.data {
        NodeData::Container { .. } => {},
        _ => panic!("root should be a container"),
    }
}

#[test]
fn webview_blank_needs_no_redraw() {
    let mut view = Webview::new(
        &Rect { x0: 0, y0: 0, w: 64, h: 64 },
        test_font(),
        test_bitmap(),
    );
    let input = InputState {
        pointer: PointerState { x: 0, y: 0, left_clicked: false },
        events: Vec::new(),
    };
    assert!(!view.update(&input, None));
    assert!(view.check_redirect().is_none());
}

#[test]
fn webview_click_redirects() {
    let mut view = Webview::new(
        &Rect { x0: 0, y0: 0, w: 64, h: 64 },
        test_font(),
        test_bitmap(),
    );
    let idle = InputState {
        pointer: PointerState { x: 1, y: 1, left_clicked: false },
        events: Vec::new(),
    };
    let html = "<html><body><a href=\"next-page\">go</a></body></html>";
    assert!(view.update(&idle, Some(html)));
    assert!(view.check_redirect().is_none());
    let click = InputState {
        pointer: PointerState { x: 1, y: 1, left_clicked: true },
        events: Vec::new(),
    };
    view.update(&click, None);
    assert_eq!(view.check_redirect().map(|s| s.as_str()), Some("next-page"));
}

#[test]
fn webview_scroll_moves_viewport() {
    let mut view = Webview::new(
        &Rect { x0: 0, y0: 0, w: 32, h: 16 },
        test_font(),
        test_bitmap(),
    );
    let html = "<html><body>abcdefg</body></html>";
    let quiet = InputState {
        pointer: PointerState { x: -100, y: -100, left_clicked: false },
        events: Vec::new(),
    };
    assert!(view.update(&quiet, Some(html)));
    let scroll = InputState {
        pointer: PointerState { x: -100, y: -100, left_clicked: false },
        events: vec![InputEvent::Scroll { delta: -2 }],
    };
    assert!(view.update(&scroll, None));
}

#[test]
fn webview_draws_into_the_compositor() {
    let mut view = Webview::new(
        &Rect { x0: 0, y0: 0, w: 32, h: 32 },
        test_font(),
        test_bitmap(),
    );
    let quiet = InputState {
        pointer: PointerState { x: -100, y: -100, left_clicked: false },
        events: Vec::new(),
    };
    view.update(&quiet, Some("<html><body>x</body></html>"));
    let mut fb = wasmos::framebuf::Framebuffer::new(32, 32);
    view.draw(&mut fb);
    // Every glyph cell of the test bitmap is lit, so the first pixel holds
    // opaque black text.
    assert_eq!(fb.pixels[0], 255 * 16_777_216);
}

#[test]
fn hovered_link_search() {
    let link_box = LayoutNode {
        id: 1,
        rect: Rect { x0: 0, y0: 0, w: 10, h: 10 },
        data: NodeData::Container {
            children: Vec::new(),
            orientation: Orientation::Horizontal,
            bg_color: None,
            url: Some("t".to_string()),
            tag: "a".to_string(),
        },
    };
    let root = LayoutNode {
        id: 0,
        rect: Rect { x0: 0, y0: 0, w: 20, h: 20 },
        data: NodeData::Container {
            children: vec![link_box],
            orientation: Orientation::Vertical,
            bg_color: None,
            url: None,
            tag: "body".to_string(),
        },
    };
    let hit = get_hovered_link(5, 5, &root).expect("point is inside the link");
    assert_eq!(hit.node_id, 1);
    assert_eq!(hit.url.as_str(), "t");
    assert!(!hit.clicked);
    assert!(get_hovered_link(15, 15, &root).is_none());
}

#[test]
fn draw_node_fills_background() {
    let root = LayoutNode {
        id: 0,
        rect: Rect { x0: 0, y0: 0, w: 4, h: 4 },
        data: NodeData::Container {
            children: Vec::new(),
            orientation: Orientation::Vertical,
            bg_color: Some(Color { r: 10, g: 20, b: 30, a: 255 }),
            url: None,
            tag: "body".to_string(),
        },
    };
    let mut fb = wasmos::framebuf::Framebuffer::new(8, 8);
    draw_node(&mut fb, &root, &test_bitmap());
    let expected: u32 = 10 + 256 * 20 + 65536 * 30 + 16_777_216 * 255;
    assert_eq!(fb.pixels[0], expected);
}
