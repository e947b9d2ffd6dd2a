//! HTML documents and their box layout.
//!
//! The browser application parses a page with an outside HTML parser and
//! lays the element tree out into nested boxes: block elements stack
//! vertically, inline elements flow horizontally, text is wrapped to the
//! page width in fixed-width cells, anchors carry their target and a
//! `bgcolor` attribute colors a container's background. The parser is
//! trusted at its interface; everything downstream of the parsed tree is
//! checked.

use vstd::prelude::*;
use vstd::string::StringSliceAdditionalSpecFns;

use crate::arith::{sat_add_i64, sat_add_u32, sat_add_u64, sat_sub_i64};
use crate::color::Color;
use crate::framebuf::Font;
use crate::geometry::Rect;

verus! {

/// One node of a parsed HTML document.
#[derive(Debug)]
pub enum HtmlNode {
    /// An element with its tag name and attribute list.
    Tag { name: String, attrs: Vec<(String, String)> },
    /// A text node.
    Text { text: String },
    /// Anything else: document roots, doctypes, comments, processing
    /// instructions.
    Other,
}

/// One arena slot of a parsed document: the node and its children's slot
/// indices.
#[derive(Debug)]
pub struct HtmlTreeNode {
    pub data: HtmlNode,
    pub children: Vec<usize>,
}

/// A parsed HTML document: an arena of nodes, slot 0 the root, children
/// always at larger indices than their parent.
#[derive(Debug)]
pub struct HtmlTree {
    pub nodes: Vec<HtmlTreeNode>,
}

impl HtmlTree {
    /// Well-formed: every child index is larger than its parent's and in
    /// range, so the tree is acyclic and walks terminate.
    pub open spec fn wf(self) -> bool {
        forall|i: int, k: int|
            0 <= i < self.nodes@.len() && 0 <= k < self.nodes@[i].children@.len()
                ==> i < (#[trigger] self.nodes@[i].children@[k]) < self.nodes@.len()
    }
}

/// Decides [`HtmlTree::wf`].
pub fn check_tree_wf(tree: &HtmlTree) -> (r: bool)
    ensures
        r == tree.wf(),
{
    let n = tree.nodes.len();
    let mut i: usize = 0;
    while i < n
        invariant
            i <= n,
            n == tree.nodes@.len(),
            forall|a: int, k: int|
                0 <= a < i && 0 <= k < tree.nodes@[a].children@.len() ==> a < (
                #[trigger] tree.nodes@[a].children@[k]) < n,
        decreases n - i,
    {
        let m = tree.nodes[i].children.len();
        let mut k: usize = 0;
        while k < m
            invariant
                k <= m,
                i < n,
                n == tree.nodes@.len(),
                m == tree.nodes@[i as int].children@.len(),
                forall|l: int|
                    0 <= l < k ==> i < (#[trigger] tree.nodes@[i as int].children@[l]) < n,
            decreases m - k,
        {
            let c = tree.nodes[i].children[k];
            if c <= i || c >= n {
                return false;
            }
            k = k + 1;
        }
        i = i + 1;
    }
    true
}

/// Whether `b` is an ASCII hex digit.
pub open spec fn spec_is_hex_digit(b: u8) -> bool {
    (0x30 <= b <= 0x39) || (0x41 <= b <= 0x46) || (0x61 <= b <= 0x66)
}

/// The value of an ASCII hex digit.
pub open spec fn spec_hex_val(b: u8) -> int {
    if 0x30 <= b <= 0x39 {
        b - 0x30
    } else if 0x41 <= b <= 0x46 {
        b - 0x41 + 10
    } else {
        b - 0x61 + 10
    }
}

/// Whether `s` is a well-formed hex string: even length, hex digits only.
pub open spec fn spec_hex_ok(s: Seq<u8>) -> bool {
    s.len() % 2 == 0 && forall|i: int| 0 <= i < s.len() ==> spec_is_hex_digit(#[trigger] s[i])
}

/// The bytes a hex string decodes to: two digits each, high digit first.
pub open spec fn spec_hex_decode(s: Seq<u8>) -> Seq<u8> {
    Seq::new(s.len() / 2, |i: int| (16 * spec_hex_val(s[2 * i]) + spec_hex_val(s[2 * i + 1])) as u8)
}

/// Relies on `hex::decode`: succeeds exactly on even-length strings of hex
/// digits, producing one byte per digit pair, high digit first; fails with
/// its own error on an odd length or a non-digit.
#[verifier::external_body]
fn hex_decode(data: &Vec<u8>) -> (r: Result<Vec<u8>, hex::FromHexError>)
    ensures
        r is Ok <==> spec_hex_ok(data@),
        r matches Ok(b) ==> b@ == spec_hex_decode(data@),
{
    hex::decode(data)
}

#[verifier::external_type_specification]
#[verifier::external_body]
pub struct ExFromHexError(hex::FromHexError);

/// `s` with every `#` removed.
pub open spec fn spec_strip_hash(s: Seq<u8>) -> Seq<u8>
    decreases s.len(),
{
    if s.len() == 0 {
        Seq::<u8>::empty()
    } else if s[0] == 0x23 {
        spec_strip_hash(s.drop_first())
    } else {
        seq![s[0]] + spec_strip_hash(s.drop_first())
    }
}

/// Removes every `#` from `s`.
fn strip_hash(s: &Vec<u8>) -> (r: Vec<u8>)
    ensures
        r@ =~= spec_strip_hash(s@),
{
    let mut out: Vec<u8> = Vec::new();
    let n = s.len();
    let mut i: usize = 0;
    proof {
        assert(s@.skip(0) =~= s@);
    }
    while i < n
        invariant
            i <= n,
            n == s@.len(),
            spec_strip_hash(s@) =~= out@ + spec_strip_hash(s@.skip(i as int)),
        decreases n - i,
    {
        let ghost tail = s@.skip(i as int);
        proof {
            assert(tail[0] == s@[i as int]);
            assert(tail.drop_first() =~= s@.skip(i + 1));
        }
        let b = s[i];
        if b != 0x23 {
            out.push(b);
        }
        proof {
            assert(spec_strip_hash(s@) =~= out@ + spec_strip_hash(s@.skip(i + 1)));
        }
        i = i + 1;
    }
    proof {
        assert(s@.skip(n as int).len() == 0);
        assert(out@ =~= spec_strip_hash(s@));
    }
    out
}

/// The color a `bgcolor` attribute value decodes to: its hex digits, `#`
/// ignored, as r, g, b and optionally a; three pairs imply an opaque
/// color. Anything else is no color.
pub open spec fn spec_parse_hexcolor(s: Seq<u8>) -> Option<Color> {
    let stripped = spec_strip_hash(s);
    if spec_hex_ok(stripped) {
        let bytes = spec_hex_decode(stripped);
        if bytes.len() == 3 {
            Some(Color { r: bytes[0], g: bytes[1], b: bytes[2], a: 255u8 })
        } else if bytes.len() == 4 {
            Some(Color { r: bytes[0], g: bytes[1], b: bytes[2], a: bytes[3] })
        } else {
            None
        }
    } else {
        None
    }
}

/// Decodes a `bgcolor` attribute value; a value that is not three or four
/// hex pairs is ignored rather than faulting the page.
pub fn parse_hexcolor(hex_str: &str) -> (r: Option<Color>)
    ensures
        r == spec_parse_hexcolor(hex_str.spec_bytes()),
{
    let bytes_slice = hex_str.as_bytes();
    let bytes = vstd::slice::slice_to_vec(bytes_slice);
    let stripped = strip_hash(&bytes);
    match hex_decode(&stripped) {
        Ok(decoded) => {
            if decoded.len() == 3 {
                Some(Color { r: decoded[0], g: decoded[1], b: decoded[2], a: 255 })
            } else if decoded.len() == 4 {
                Some(Color { r: decoded[0], g: decoded[1], b: decoded[2], a: decoded[3] })
            } else {
                None
            }
        },
        Err(_) => None,
    }
}

/// How many bytes at the front of `s` spell one whitespace character:
/// the ASCII whitespace bytes, next line and no-break space, the ogham
/// space mark, the typographic spaces, the line and paragraph separators,
/// the narrow and medium mathematical spaces and the ideographic space.
/// Zero when the front is not whitespace.
pub open spec fn spec_ws_prefix_len(s: Seq<u8>) -> int {
    if s.len() >= 1 && (s[0] == 0x20 || (0x09 <= s[0] <= 0x0D)) {
        1
    } else if s.len() >= 2 && s[0] == 0xC2 && (s[1] == 0x85 || s[1] == 0xA0) {
        2
    } else if s.len() >= 3 && s[0] == 0xE1 && s[1] == 0x9A && s[2] == 0x80 {
        3
    } else if s.len() >= 3 && s[0] == 0xE2 && s[1] == 0x80 && ((0x80 <= s[2] <= 0x8A) || s[2]
        == 0xA8 || s[2] == 0xA9 || s[2] == 0xAF) {
        3
    } else if s.len() >= 3 && s[0] == 0xE2 && s[1] == 0x81 && s[2] == 0x9F {
        3
    } else if s.len() >= 3 && s[0] == 0xE3 && s[1] == 0x80 && s[2] == 0x80 {
        3
    } else {
        0
    }
}

/// Whether `s` spells nothing but whitespace characters.
pub open spec fn spec_all_whitespace(s: Seq<u8>) -> bool
    decreases s.len(),
{
    if s.len() == 0 {
        true
    } else {
        let k = spec_ws_prefix_len(s);
        k > 0 && spec_all_whitespace(s.skip(k))
    }
}

/// Whether the text is nothing but whitespace, so its node produces no
/// layout box.
pub fn check_is_whitespace(s: &str) -> (r: bool)
    ensures
        r == spec_all_whitespace(s.spec_bytes()),
{
    let bytes = s.as_bytes();
    let n = bytes.len();
    let mut i: usize = 0;
    proof {
        assert(s.spec_bytes().skip(0) =~= s.spec_bytes());
    }
    while i < n
        invariant
            i <= n,
            n == s.spec_bytes().len(),
            bytes@ == s.spec_bytes(),
            spec_all_whitespace(s.spec_bytes()) == spec_all_whitespace(
                s.spec_bytes().skip(i as int),
            ),
        decreases n - i,
    {
        let ghost tail = s.spec_bytes().skip(i as int);
        proof {
            assert(forall|k: int| 0 <= k < tail.len() ==> tail[k] == s.spec_bytes()[i + k]);
        }
        let b0 = *vstd::slice::slice_index_get(bytes, i);
        let step: usize;
        if b0 == 0x20 || (0x09 <= b0 && b0 <= 0x0D) {
            step = 1;
        } else if b0 == 0xC2 && n - i >= 2 {
            let b1 = *vstd::slice::slice_index_get(bytes, i + 1);
            if b1 == 0x85 || b1 == 0xA0 {
                step = 2;
            } else {
                return false;
            }
        } else if b0 == 0xE1 && n - i >= 3 {
            if *vstd::slice::slice_index_get(bytes, i + 1) == 0x9A && *vstd::slice::slice_index_get(
                bytes,
                i + 2,
            ) == 0x80 {
                step = 3;
            } else {
                return false;
            }
        } else if b0 == 0xE2 && n - i >= 3 {
            let b1 = *vstd::slice::slice_index_get(bytes, i + 1);
            let b2 = *vstd::slice::slice_index_get(bytes, i + 2);
            if b1 == 0x80 && ((0x80 <= b2 && b2 <= 0x8A) || b2 == 0xA8 || b2 == 0xA9 || b2 == 0xAF)
            {
                step = 3;
            } else if b1 == 0x81 && b2 == 0x9F {
                step = 3;
            } else {
                return false;
            }
        } else if b0 == 0xE3 && n - i >= 3 {
            if *vstd::slice::slice_index_get(bytes, i + 1) == 0x80 && *vstd::slice::slice_index_get(
                bytes,
                i + 2,
            ) == 0x80 {
                step = 3;
            } else {
                return false;
            }
        } else {
            return false;
        }
        proof {
            assert(spec_ws_prefix_len(tail) == step);
            assert(tail.skip(step as int) =~= s.spec_bytes().skip(i + step));
        }
        i = i + step;
    }
    proof {
        assert(s.spec_bytes().skip(n as int).len() == 0);
    }
    true
}

/// Whether the element starts a block of its own: only paragraphs do.
pub fn check_is_block_element(node_data: &HtmlNode) -> (r: bool)
    ensures
        r == (node_data matches HtmlNode::Tag { name, .. } && name@ == "p"@),
{
    match node_data {
        HtmlNode::Tag { name, .. } => {
            let p: String = "p".to_owned();
            *name == p
        },
        _ => false,
    }
}

/// The value of the first attribute with the given name, if any.
pub open spec fn spec_attr_get(attrs: Seq<(String, String)>, key: Seq<char>) -> Option<String>
    decreases attrs.len(),
{
    if attrs.len() == 0 {
        None
    } else if attrs[0].0@ == key {
        Some(attrs[0].1)
    } else {
        spec_attr_get(attrs.drop_first(), key)
    }
}

/// Looks an attribute up by name.
pub fn get_attr(attrs: &Vec<(String, String)>, key: &str) -> (r: Option<String>)
    ensures
        r is Some <==> spec_attr_get(attrs@, key@) is Some,
        r matches Some(v) ==> spec_attr_get(attrs@, key@) matches Some(w) && v@ == w@,
{
    let key_string: String = key.to_owned();
    let n = attrs.len();
    let mut i: usize = 0;
    proof {
        assert(attrs@.skip(0) =~= attrs@);
    }
    while i < n
        invariant
            i <= n,
            n == attrs@.len(),
            key_string@ == key@,
            spec_attr_get(attrs@, key@) == spec_attr_get(attrs@.skip(i as int), key@),
        decreases n - i,
    {
        proof {
            assert(attrs@.skip(i as int)[0] == attrs@[i as int]);
            assert(attrs@.skip(i as int).drop_first() =~= attrs@.skip(i + 1));
        }
        let pair = &attrs[i];
        if pair.0 == key_string {
            return Some(pair.1.clone());
        }
        i = i + 1;
    }
    proof {
        assert(attrs@.skip(n as int).len() == 0);
    }
    None
}

/// Flow direction of a container's children.
#[derive(Clone, Copy, PartialEq, Eq, Structural, Debug)]
pub enum Orientation {
    Horizontal,
    Vertical,
}

/// Box margins in pixels.
#[derive(Clone, Copy, PartialEq, Eq, Structural, Debug)]
pub struct Margins {
    pub left: u32,
    pub right: u32,
    pub top: u32,
    pub bottom: u32,
}

/// One box of the computed layout.
#[derive(Debug)]
pub struct LayoutNode {
    /// Unique within one layout pass; assigned in completion order.
    pub id: u64,
    pub rect: Rect,
    pub data: NodeData,
}

/// What a layout box contains.
#[derive(Debug)]
pub enum NodeData {
    /// A run of text, wrapped to the box.
    Text { text: String, color: Color, url: Option<String> },
    /// An image placeholder of the declared extent.
    Image,
    /// A container of further boxes.
    Container {
        children: Vec<LayoutNode>,
        orientation: Orientation,
        bg_color: Option<Color>,
        url: Option<String>,
        tag: String,
    },
}

/// Hands out the next node id; the counter never decreases, so ids are
/// never reused within a pass.
pub fn make_node_id(next_node_id: &mut u64) -> (id: u64)
    ensures
        id == *old(next_node_id),
        *final(next_node_id) == crate::arith::clamp_u64_int(*old(next_node_id) + 1),
        *final(next_node_id) >= *old(next_node_id),
{
    let new_id = *next_node_id;
    *next_node_id = sat_add_u64(*next_node_id, 1);
    new_id
}

/// How many glyph cells fit on one line of the given width; at least one.
pub open spec fn spec_chars_per_line(max_w: int, char_w: int) -> int {
    if max_w / char_w < 1 {
        1
    } else {
        max_w / char_w
    }
}

/// The extent of a text run of `len` glyphs wrapped to `max_w`: the width
/// of its longest line and the height of its line count, clamped to the
/// pixel range.
pub open spec fn spec_measure_text(len: int, max_w: int, font: Font) -> (u32, u32) {
    let cpl = spec_chars_per_line(max_w, font.char_w as int);
    let cols = if len < cpl {
        len
    } else {
        cpl
    };
    let lines = if len == 0 {
        1
    } else {
        (len + cpl - 1) / cpl
    };
    (
        crate::arith::clamp_u32_int(cols * font.char_w),
        crate::arith::clamp_u32_int(lines * font.char_h),
    )
}

/// Measures a text run of `len` fixed-width glyphs wrapped to `max_w`.
pub fn measure_text(len: usize, max_w: u32, font: Font) -> (dims: (u32, u32))
    requires
        font.char_w >= 1,
        font.char_h >= 1,
    ensures
        dims == spec_measure_text(len as int, max_w as int, font),
{
    let cw = font.char_w as u128;
    let ch = font.char_h as u128;
    let cpl_raw = (max_w as u128) / cw;
    let cpl: u128 = if cpl_raw < 1 {
        1
    } else {
        cpl_raw
    };
    let cols: u128 = if (len as u128) < cpl {
        len as u128
    } else {
        cpl
    };
    let lines: u128 = if len == 0 {
        1
    } else {
        ((len as u128) + cpl - 1) / cpl
    };
    proof {
        if len > 0 {
            vstd::arithmetic::div_mod::lemma_div_nonincreasing(
                (len as u128) + cpl - 1,
                cpl as int,
            );
        }
        assert(lines < 0x2_0000_0000_0000_0000_u128);
        assert(cols * cw < 0x1_0000_0000_0000_0000_0000_0000_u128) by (nonlinear_arith)
            requires
                0 <= cols < 0x1_0000_0000_0000_0000_u128,
                0 <= cw < 0x1_0000_0000_u128,
        ;
        assert(lines * ch < 0x1_0000_0000_0000_0000_0000_0000_0000_u128) by (nonlinear_arith)
            requires
                0 <= lines < 0x2_0000_0000_0000_0000_u128,
                0 <= ch < 0x1_0000_0000_u128,
        ;
    }
    let w128 = cols * cw;
    let h128 = lines * ch;
    let w: u32 = if w128 > 0xffff_ffff {
        0xffff_ffff
    } else {
        w128 as u32
    };
    let h: u32 = if h128 > 0xffff_ffff {
        0xffff_ffff
    } else {
        h128 as u32
    };
    (w, h)
}

/// The value of a decimal digit sequence, most significant first.
pub open spec fn spec_dec_val(s: Seq<u8>) -> int
    decreases s.len(),
{
    if s.len() == 0 {
        0
    } else {
        spec_dec_val(s.drop_last()) * 10 + (s.last() - 0x30)
    }
}

/// Whether every byte is an ASCII decimal digit.
pub open spec fn spec_all_digits(s: Seq<u8>) -> bool {
    forall|i: int| 0 <= i < s.len() ==> 0x30 <= #[trigger] s[i] <= 0x39
}

/// The `u32` a decimal string parses to: digits only, non-empty, in
/// range; anything else is no value.
pub open spec fn spec_parse_u32(s: Seq<u8>) -> Option<u32> {
    if s.len() > 0 && spec_all_digits(s) && spec_dec_val(s) <= u32::MAX {
        Some(spec_dec_val(s) as u32)
    } else {
        None
    }
}

/// Parses a decimal `u32`; empty strings, non-digits and overflow give
/// nothing.
pub fn parse_u32(s: &str) -> (r: Option<u32>)
    ensures
        r == spec_parse_u32(s.spec_bytes()),
{
    let bytes = s.as_bytes();
    let n = bytes.len();
    if n == 0 {
        return None;
    }
    let mut val: u64 = 0;
    let mut i: usize = 0;
    proof {
        assert(s.spec_bytes().take(0) =~= Seq::<u8>::empty());
    }
    while i < n
        invariant
            i <= n,
            n == s.spec_bytes().len(),
            bytes@ == s.spec_bytes(),
            spec_all_digits(s.spec_bytes().take(i as int)),
            val == spec_dec_val(s.spec_bytes().take(i as int)),
            val <= u32::MAX,
        decreases n - i,
    {
        let b = *vstd::slice::slice_index_get(bytes, i);
        if !(0x30 <= b && b <= 0x39) {
            proof {
                lemma_dec_not_all_digits(s.spec_bytes(), i as int);
            }
            return None;
        }
        val = val * 10 + ((b - 0x30) as u64);
        proof {
            assert(s.spec_bytes().take(i + 1).drop_last() =~= s.spec_bytes().take(i as int));
            assert(s.spec_bytes().take(i + 1).last() == s.spec_bytes()[i as int]);
        }
        if val > 0xffff_ffff {
            proof {
                lemma_dec_val_monotone(s.spec_bytes(), i + 1);
            }
            return None;
        }
        i = i + 1;
    }
    proof {
        assert(s.spec_bytes().take(n as int) =~= s.spec_bytes());
    }
    Some(val as u32)
}

/// A string with a non-digit somewhere does not parse.
proof fn lemma_dec_not_all_digits(s: Seq<u8>, i: int)
    requires
        0 <= i < s.len(),
        !(0x30 <= s[i] <= 0x39),
    ensures
        spec_parse_u32(s) is None,
{
    if s.len() > 0 && spec_all_digits(s) {
        assert(0x30 <= s[i] <= 0x39);
    }
}

/// Once a digit prefix exceeds the range, the whole string does.
proof fn lemma_dec_val_monotone(s: Seq<u8>, i: int)
    requires
        0 <= i <= s.len(),
        spec_all_digits(s.take(i)),
        spec_dec_val(s.take(i)) > u32::MAX,
    ensures
        spec_parse_u32(s) is None,
    decreases s.len() - i,
{
    if i == s.len() {
        assert(s.take(i) =~= s);
    } else {
        if 0x30 <= s[i] <= 0x39 {
            assert(s.take(i + 1).drop_last() =~= s.take(i));
            assert(s.take(i + 1).last() == s[i]);
            assert(spec_dec_val(s.take(i + 1)) == spec_dec_val(s.take(i)) * 10 + (s[i] - 0x30));
            assert(spec_dec_val(s.take(i)) * 10 >= spec_dec_val(s.take(i))) by (nonlinear_arith)
                requires
                    spec_dec_val(s.take(i)) >= 0,
            ;
            assert(spec_dec_val(s.take(i)) >= 0) by {
                lemma_dec_val_nonneg(s.take(i));
            }
            lemma_dec_val_monotone(s, i + 1);
        } else {
            lemma_dec_not_all_digits(s, i);
        }
    }
}

/// A digit value is never negative.
proof fn lemma_dec_val_nonneg(s: Seq<u8>)
    ensures
        spec_dec_val(s) >= 0 || !spec_all_digits(s),
    decreases s.len(),
{
    if s.len() > 0 {
        lemma_dec_val_nonneg(s.drop_last());
        if spec_all_digits(s) {
            assert(spec_all_digits(s.drop_last())) by {
                assert(forall|k: int|
                    0 <= k < s.drop_last().len() ==> s.drop_last()[k] == s[k]);
            }
            assert(spec_dec_val(s.drop_last()) * 10 >= 0) by (nonlinear_arith)
                requires
                    spec_dec_val(s.drop_last()) >= 0,
            ;
            assert(0x30 <= s.last() <= 0x39);
        }
    }
}

/// The declared value of a numeric attribute: its decimal value, or zero
/// when it is missing or unparsable.
pub open spec fn spec_parse_dim(attrs: Seq<(String, String)>, key: Seq<char>) -> u32 {
    match spec_attr_get(attrs, key) {
        Some(v) => match spec_parse_u32(vstd::utf8::encode_utf8(v@)) {
            Some(x) => x,
            None => 0u32,
        },
        None => 0u32,
    }
}

/// A declared image dimension: the attribute's decimal value, or zero when
/// it is missing or unparsable.
pub fn parse_dim(attrs: &Vec<(String, String)>, key: &str) -> (r: u32)
    ensures
        r == spec_parse_dim(attrs@, key@),
{
    match get_attr(attrs, key) {
        Some(v) => {
            proof {
                let w = spec_attr_get(attrs@, key@)->Some_0;
                assert(v@ == w@);
                assert(vstd::utf8::encode_utf8(v@) == vstd::utf8::encode_utf8(w@));
            }
            match parse_u32(v.as_str()) {
                Some(x) => x,
                None => 0,
            }
        },
        None => 0,
    }
}

/// The flow direction a tag lays its children out in: structural tags
/// stack vertically, everything else flows horizontally.
pub open spec fn spec_tag_orientation(name: Seq<char>) -> Orientation {
    if name == "body"@ || name == "header"@ || name == "aside"@ || name == "td"@ || name
        == "tbody"@ || name == "table"@ || name == "div"@ || name == "ul"@ {
        Orientation::Vertical
    } else {
        Orientation::Horizontal
    }
}

/// The margins a tag adds around its children: table rows five pixels
/// above and below, paragraphs and headings twenty, everything else none.
pub open spec fn spec_tag_margins(name: Seq<char>) -> Margins {
    if name == "tr"@ {
        Margins { left: 0u32, right: 0u32, top: 5u32, bottom: 5u32 }
    } else if name == "p"@ || name == "h1"@ || name == "h2"@ || name == "h3"@ {
        Margins { left: 0u32, right: 0u32, top: 20u32, bottom: 20u32 }
    } else {
        Margins { left: 0u32, right: 0u32, top: 0u32, bottom: 0u32 }
    }
}

/// The layout rule for a tag: its flow direction and margins.
fn tag_layout(name: &String) -> (r: (Orientation, Margins))
    ensures
        r.0 == spec_tag_orientation(name@),
        r.1 == spec_tag_margins(name@),
{
    let body: String = "body".to_owned();
    let header: String = "header".to_owned();
    let aside: String = "aside".to_owned();
    let td: String = "td".to_owned();
    let tbody: String = "tbody".to_owned();
    let table: String = "table".to_owned();
    let div: String = "div".to_owned();
    let ul: String = "ul".to_owned();
    let orientation = if *name == body || *name == header || *name == aside || *name == td
        || *name == tbody || *name == table || *name == div || *name == ul {
        Orientation::Vertical
    } else {
        Orientation::Horizontal
    };
    let tr: String = "tr".to_owned();
    let p: String = "p".to_owned();
    let h1: String = "h1".to_owned();
    let h2: String = "h2".to_owned();
    let h3: String = "h3".to_owned();
    let margins = if *name == tr {
        Margins { left: 0, right: 0, top: 5, bottom: 5 }
    } else if *name == p || *name == h1 || *name == h2 || *name == h3 {
        Margins { left: 0, right: 0, top: 20, bottom: 20 }
    } else {
        Margins { left: 0, right: 0, top: 0, bottom: 0 }
    };
    (orientation, margins)
}

/// The bounding box of two boxes, as [`Rect::bounding_box`] computes it
/// with the child first and the accumulator second.
pub open spec fn spec_bbox_join(child: Rect, acc: Rect) -> Rect {
    let x0 = if child.x0 <= acc.x0 {
        child.x0 as int
    } else {
        acc.x0 as int
    };
    let y0 = if child.y0 <= acc.y0 {
        child.y0 as int
    } else {
        acc.y0 as int
    };
    Rect {
        x0: x0 as i64,
        y0: y0 as i64,
        w: crate::geometry::clamp_u32(
            crate::geometry::max_int(child.spec_right(), acc.spec_right()) - x0,
        ),
        h: crate::geometry::clamp_u32(
            crate::geometry::max_int(child.spec_bottom(), acc.spec_bottom()) - y0,
        ),
    }
}

/// The bounding box of the first `n` boxes of a non-empty run, folded in
/// order.
pub open spec fn spec_bbox(children: Seq<LayoutNode>, n: int) -> Rect
    decreases n,
{
    if n <= 1 {
        children[0].rect
    } else {
        spec_bbox_join(children[n - 1].rect, spec_bbox(children, n - 1))
    }
}

/// Lays one document subtree out as a box tree.
///
/// Head and script elements, whitespace-only text and childless
/// containers produce no box. Images take their declared extent. Text is
/// wrapped to what remains of the page width and colored by whether an
/// anchor encloses it. A container's box is the bounding box of its
/// children plus the tag's margins; children advance along the container's
/// flow direction, and a paragraph inside a horizontal flow starts a new
/// line below the previous child. Node ids never decrease across a pass.
pub fn parse_node(
    next_node_id: &mut u64,
    tree: &HtmlTree,
    html_node_id: usize,
    x0: i64,
    y0: i64,
    link: bool,
    page_max_w: u32,
    font: Font,
) -> (r: Option<LayoutNode>)
    requires
        tree.wf(),
        html_node_id < tree.nodes@.len(),
        font.char_w >= 1,
        font.char_h >= 1,
    ensures
        *final(next_node_id) >= *old(next_node_id),
        tree.nodes@[html_node_id as int].data is Other ==> r is None,
        tree.nodes@[html_node_id as int].data matches HtmlNode::Text { text } ==> {
            let bytes = vstd::utf8::encode_utf8(text@);
            let dims = spec_measure_text(
                bytes.len() as int,
                spec_text_max_w(page_max_w as int, x0 as int) as int,
                font,
            );
            &&& (r is Some <==> !spec_all_whitespace(bytes))
            &&& r matches Some(node) ==> node.id == *old(next_node_id) && (bytes.len()
                <= usize::MAX ==> node.rect == (Rect { x0, y0, w: dims.0, h: dims.1 })) && (
            node.data matches NodeData::Text { text: t, color, url } && t@ == text@ && url is None
                && color == (if link {
                Color { r: 0u8, g: 0u8, b: 255u8, a: 255u8 }
            } else {
                Color { r: 0u8, g: 0u8, b: 0u8, a: 255u8 }
            }))
        },
        tree.nodes@[html_node_id as int].data matches HtmlNode::Tag { name, attrs } ==> {
            &&& name@ == "head"@ ==> r is None
            &&& name@ == "script"@ ==> r is None
            &&& name@ != "head"@ && name@ == "img"@ ==> (r matches Some(node) && node.id == *old(
                next_node_id,
            ) && node.rect == (Rect {
                x0,
                y0,
                w: spec_parse_dim(attrs@, "width"@),
                h: spec_parse_dim(attrs@, "height"@),
            }) && node.data is Image)
            &&& name@ != "head"@ && name@ != "img"@ && name@ != "script"@ ==> (r matches Some(node)
                ==> (node.data matches NodeData::Container {
                children,
                orientation,
                tag,
                bg_color,
                url,
            } && orientation == spec_tag_orientation(name@) && tag@ == name@ && bg_color == (
            match spec_attr_get(attrs@, "bgcolor"@) {
                Some(v) => spec_parse_hexcolor(vstd::utf8::encode_utf8(v@)),
                None => None,
            }) && (url matches Some(u) ==> name@ == "a"@ && (spec_attr_get(attrs@, "href"@)
                matches Some(w) && u@ == w@)) && (name@ != "a"@ ==> url is None)
                && children@.len() >= 1 && node.rect == {
                let bbox = spec_bbox(children@, children@.len() as int);
                let margins = spec_tag_margins(name@);
                Rect {
                    w: crate::arith::clamp_u32_int(bbox.w + margins.right),
                    h: crate::arith::clamp_u32_int(bbox.h + margins.bottom),
                    ..bbox
                }
            }))
        },
    decreases tree.nodes@.len() - html_node_id,
{
    match &tree.nodes[html_node_id].data {
        HtmlNode::Tag { name, attrs } => {
            let head: String = "head".to_owned();
            if *name == head {
                return None;
            }
            let img: String = "img".to_owned();
            if *name == img {
                proof {
                    broadcast use vstd::string::group_string_axioms;

                    reveal_strlit("img");
                    reveal_strlit("script");
                    assert("img"@.len() == 3);
                    assert("script"@.len() == 6);
                }
                let w = parse_dim(attrs, "width");
                let h = parse_dim(attrs, "height");
                let id = make_node_id(next_node_id);
                return Some(
                    LayoutNode { id, rect: Rect { x0, y0, w, h }, data: NodeData::Image },
                );
            }
            let bg_color = match get_attr(attrs, "bgcolor") {
                Some(hex) => parse_hexcolor(hex.as_str()),
                None => None,
            };
            let anchor: String = "a".to_owned();
            let url: Option<String> = if *name == anchor {
                get_attr(attrs, "href")
            } else {
                None
            };
            let tag: String = name.clone();
            let script: String = "script".to_owned();
            if tag == script {
                return None;
            }
            let (orientation, margin) = tag_layout(&tag);
            let x0m = sat_add_i64(x0, margin.left as i64);
            let y0m = sat_add_i64(y0, margin.top as i64);
            let mut children: Vec<LayoutNode> = Vec::new();
            let mut child_x0 = x0m;
            let mut child_y0 = y0m;
            let m = tree.nodes[html_node_id].children.len();
            let mut k: usize = 0;
            while k < m
                invariant
                    k <= m,
                    tree.wf(),
                    html_node_id < tree.nodes@.len(),
                    m == tree.nodes@[html_node_id as int].children@.len(),
                    font.char_w >= 1,
                    font.char_h >= 1,
                    *next_node_id >= *old(next_node_id),
                decreases m - k,
            {
                let c = tree.nodes[html_node_id].children[k];
                proof {
                    assert(html_node_id < (
                    #[trigger] tree.nodes@[html_node_id as int].children@[k as int]) < tree.nodes@.len());
                }
                let is_block = check_is_block_element(&tree.nodes[c].data) && orientation
                    == Orientation::Horizontal;
                if is_block && children.len() > 0 {
                    let prev_h = children[children.len() - 1].rect.h;
                    child_y0 = sat_add_i64(child_y0, prev_h as i64);
                    child_x0 = x0m;
                }
                match parse_node(
                    next_node_id,
                    tree,
                    c,
                    child_x0,
                    child_y0,
                    url.is_some(),
                    page_max_w,
                    font,
                ) {
                    Some(child_node) => {
                        match orientation {
                            Orientation::Horizontal => {
                                child_x0 = sat_add_i64(child_x0, child_node.rect.w as i64);
                            },
                            Orientation::Vertical => {
                                child_y0 = sat_add_i64(child_y0, child_node.rect.h as i64);
                            },
                        }
                        children.push(child_node);
                    },
                    None => {},
                }
                k = k + 1;
            }
            if children.len() > 0 {
                let mut container_rect = children[0].rect;
                let count = children.len();
                let mut k2: usize = 1;
                while k2 < count
                    invariant
                        1 <= k2 <= count,
                        count == children@.len(),
                        container_rect == spec_bbox(children@, k2 as int),
                    decreases count - k2,
                {
                    container_rect = children[k2].rect.bounding_box(&container_rect);
                    proof {
                        assert(container_rect == spec_bbox(children@, k2 + 1));
                    }
                    k2 = k2 + 1;
                }
                proof {
                    assert(container_rect == spec_bbox(children@, children@.len() as int));
                }
                container_rect.w = sat_add_u32(container_rect.w, margin.right);
                container_rect.h = sat_add_u32(container_rect.h, margin.bottom);
                let id = make_node_id(next_node_id);
                Some(
                    LayoutNode {
                        id,
                        rect: container_rect,
                        data: NodeData::Container { children, orientation, bg_color, url, tag },
                    },
                )
            } else {
                None
            }
        },
        HtmlNode::Text { text } => {
            if check_is_whitespace(text.as_str()) {
                return None;
            }
            let avail = sat_sub_i64(page_max_w as i64, x0);
            let text_max_w: u32 = if avail < 10 {
                10
            } else if avail > 0xffff_ffffi64 {
                0xffff_ffff
            } else {
                avail as u32
            };
            proof {
                assert(text_max_w == spec_text_max_w(page_max_w as int, x0 as int));
            }
            let text_str = text.as_str();
            let dims = measure_text(text_str.len(), text_max_w, font);
            proof {
                assert(text_str.spec_bytes() == vstd::utf8::encode_utf8(text@));
                if vstd::utf8::encode_utf8(text@).len() <= usize::MAX {
                    assert(dims == spec_measure_text(
                        vstd::utf8::encode_utf8(text@).len() as int,
                        spec_text_max_w(page_max_w as int, x0 as int) as int,
                        font,
                    ));
                }
            }
            let color = if link {
                Color::blue()
            } else {
                Color::black()
            };
            let id = make_node_id(next_node_id);
            Some(
                LayoutNode {
                    id,
                    rect: Rect { x0, y0, w: dims.0, h: dims.1 },
                    data: NodeData::Text { text: text.clone(), color, url: None },
                },
            )
        },
        HtmlNode::Other => None,
    }
}

#[verifier::external_type_specification]
#[verifier::external_body]
#[verifier::reject_recursive_types(T)]
pub struct ExEgoNodeRef<'a, T: 'a>(ego_tree::NodeRef<'a, T>);

#[verifier::external_type_specification]
#[verifier::external_body]
pub struct ExScraperNode(scraper::Node);

/// The arena the outside HTML parser yields for a document text. The
/// parse depends on the text alone, but what it produces cannot be written
/// down in a few lines, so it only gets this name.
pub uninterp spec fn parsed_html(s: Seq<char>) -> Seq<HtmlTreeNode>;

/// Relies on `scraper::Node`: a parsed node is an element with a name and
/// attributes, a text run, or one of the kinds the layout ignores. Maps
/// the variants one for one, copying the strings out.
#[verifier::external_body]
fn convert_html_value(v: &scraper::Node) -> HtmlNode {
    match v {
        scraper::Node::Element(e) => {
            let mut attrs: Vec<(String, String)> = Vec::new();
            for pair in e.attrs() {
                attrs.push((pair.0.to_owned(), pair.1.to_owned()));
            }
            HtmlNode::Tag { name: e.name().to_owned(), attrs }
        },
        scraper::Node::Text(t) => HtmlNode::Text { text: (&*t.text).to_owned() },
        _ => HtmlNode::Other,
    }
}

/// Relies on `ego_tree::NodeRef`: appends this parsed node and its whole
/// subtree to the arena, children after their parent, and returns the
/// node's own slot.
#[verifier::external_body]
fn push_html_node(
    node: ego_tree::NodeRef<'_, scraper::Node>,
    nodes: &mut Vec<HtmlTreeNode>,
) -> usize {
    let idx = nodes.len();
    nodes.push(HtmlTreeNode { data: convert_html_value(node.value()), children: Vec::new() });
    let mut kids: Vec<usize> = Vec::new();
    for child in node.children() {
        kids.push(push_html_node(child, nodes));
    }
    nodes[idx].children = kids;
    idx
}

/// Relies on `scraper::Html::parse_document`: parses the document text
/// into its node tree; the result depends on the text alone.
#[verifier::external_body]
pub fn parse_html_document(html: &str) -> (t: HtmlTree)
    ensures
        t.nodes@ == parsed_html(html@),
{
    let doc = scraper::Html::parse_document(html);
    let mut nodes: Vec<HtmlTreeNode> = Vec::new();
    push_html_node(doc.tree.root(), &mut nodes);
    HtmlTree { nodes }
}

/// Parses a document and validates the arena invariant the layout walks
/// rely on; a parse that violated it would be an adapter bug and yields
/// nothing rather than being trusted.
pub fn parse_html_checked(html: &str) -> (r: Option<HtmlTree>)
    ensures
        r matches Some(t) ==> t.wf() && t.nodes@.len() > 0 && t.nodes@ == parsed_html(html@),
{
    let t = parse_html_document(html);
    if t.nodes.len() > 0 && check_tree_wf(&t) {
        Some(t)
    } else {
        None
    }
}

/// The width a text run may occupy: what remains of the page right of
/// `x0`, never less than ten pixels.
pub open spec fn spec_text_max_w(page_max_w: int, x0: int) -> u32 {
    let avail = crate::arith::clamp_i64(page_max_w - x0);
    if avail < 10 {
        10u32
    } else if avail > u32::MAX {
        u32::MAX
    } else {
        avail as u32
    }
}

/// Why a layout pass produced nothing.
#[derive(Clone, Copy, PartialEq, Eq, Structural, Debug)]
pub enum LayoutError {
    /// The parsed tree violated the arena invariant.
    MalformedTree,
    /// The document yields no visible box at all.
    NoLayout,
}

/// Computes the box layout of a whole document: validates the arena
/// invariant, then lays the root subtree out at the origin with node ids
/// assigned from zero.
///
/// The root node decides the outcome the way [`parse_node`] lays it out: a
/// root that yields no box — a non-element root, a head or script element,
/// whitespace-only text, a container whose children all yield nothing —
/// gives [`LayoutError::NoLayout`]; a malformed arena never reaches the
/// layout.
pub fn compute_layout(tree: &HtmlTree, page_max_w: u32, font: Font) -> (r: Result<
    LayoutNode,
    LayoutError,
>)
    requires
        font.char_w >= 1,
        font.char_h >= 1,
    ensures
        r == Err::<LayoutNode, LayoutError>(LayoutError::MalformedTree) <==> !tree.wf(),
        tree.wf() && tree.nodes@.len() == 0 ==> r == Err::<LayoutNode, LayoutError>(
            LayoutError::NoLayout,
        ),
        tree.wf() && tree.nodes@.len() > 0 ==> {
            &&& tree.nodes@[0].data is Other ==> r == Err::<LayoutNode, LayoutError>(
                LayoutError::NoLayout,
            )
            &&& tree.nodes@[0].data matches HtmlNode::Tag { name, .. } ==> ((name@ == "head"@
                || name@ == "script"@) ==> r == Err::<LayoutNode, LayoutError>(
                LayoutError::NoLayout,
            ))
            &&& tree.nodes@[0].data matches HtmlNode::Text { text } ==> {
                &&& (r is Ok <==> !spec_all_whitespace(vstd::utf8::encode_utf8(text@)))
                &&& r matches Ok(node) ==> node.id == 0 && (node.data
                    matches NodeData::Text { text: t, .. } && t@ == text@)
            }
            &&& tree.nodes@[0].data matches HtmlNode::Tag { name, attrs } ==> (name@ != "head"@
                && name@ == "img"@ ==> (r matches Ok(node) && node.id == 0 && node.rect == (Rect {
                x0: 0i64,
                y0: 0i64,
                w: spec_parse_dim(attrs@, "width"@),
                h: spec_parse_dim(attrs@, "height"@),
            }) && node.data is Image))
        },
{
    if !check_tree_wf(tree) {
        return Err(LayoutError::MalformedTree);
    }
    if tree.nodes.len() == 0 {
        return Err(LayoutError::NoLayout);
    }
    let mut next_node_id: u64 = 0;
    match parse_node(&mut next_node_id, tree, 0, 0, 0, false, page_max_w, font) {
        Some(node) => Ok(node),
        None => Err(LayoutError::NoLayout),
    }
}

} // verus!
