//! Wire formats for values crossing the guest boundary.
//!
//! Typed records exchanged through the guest memory bridge use little-endian,
//! packed, platform-independent layouts: the window rectangle as signed
//! 64-bit corner and unsigned 32-bit extent, the input snapshot as a fixed
//! record with up to [`MAX_INPUT_EVENTS`] event slots, the stylesheet as four
//! RGBA colors, times as 64-bit values.

use vstd::prelude::*;

use crate::color::Color;
use crate::geometry::Rect;
use crate::input::{InputEvent, InputState, PointerState};
use crate::stylesheet::StyleSheet;

verus! {

/// Number of event slots in the input record.
pub const MAX_INPUT_EVENTS: usize = 8;

/// Byte length of an encoded rectangle.
pub const RECT_BYTES: usize = 24;

/// Byte length of an encoded input record: pointer, flag, count, slots.
pub const INPUT_STATE_BYTES: usize = 154;

/// Byte length of an encoded stylesheet.
pub const STYLESHEET_BYTES: usize = 16;

/// The little-endian bytes of an `i64`, as the bytes of its two's-complement
/// 64-bit value.
pub open spec fn spec_i64_le(x: i64) -> Seq<u8> {
    vstd::bytes::spec_u64_to_le_bytes(x as u64)
}

/// Encodes an `i64` as eight little-endian bytes.
pub fn i64_le_vec(x: i64) -> (r: Vec<u8>)
    ensures
        r@ == spec_i64_le(x),
        r@.len() == 8,
{
    proof {
        vstd::bytes::lemma_auto_spec_u64_to_from_le_bytes();
    }
    vstd::bytes::u64_to_le_bytes(x as u64)
}

/// The 24-byte encoding of a rectangle: x0, y0 as signed 64-bit, then w, h
/// as unsigned 32-bit, all little-endian.
pub open spec fn spec_encode_rect(r: Rect) -> Seq<u8> {
    spec_i64_le(r.x0) + spec_i64_le(r.y0) + vstd::bytes::spec_u32_to_le_bytes(r.w)
        + vstd::bytes::spec_u32_to_le_bytes(r.h)
}

/// Encodes a rectangle into its 24-byte record.
pub fn encode_rect(r: &Rect) -> (out: Vec<u8>)
    ensures
        out@ =~= spec_encode_rect(*r),
        out@.len() == RECT_BYTES,
{
    proof {
        vstd::bytes::lemma_auto_spec_u32_to_from_le_bytes();
    }
    let mut out = i64_le_vec(r.x0);
    let mut y = i64_le_vec(r.y0);
    let mut w = vstd::bytes::u32_to_le_bytes(r.w);
    let mut h = vstd::bytes::u32_to_le_bytes(r.h);
    out.append(&mut y);
    out.append(&mut w);
    out.append(&mut h);
    out
}

/// Decodes a 24-byte rectangle record.
pub fn decode_rect(bytes: &Vec<u8>) -> (r: Option<Rect>)
    ensures
        r is Some <==> bytes@.len() == RECT_BYTES,
        r matches Some(rect) ==> spec_encode_rect(rect) =~= bytes@,
{
    if bytes.len() != RECT_BYTES {
        return None;
    }
    proof {
        vstd::bytes::lemma_auto_spec_u64_to_from_le_bytes();
        vstd::bytes::lemma_auto_spec_u32_to_from_le_bytes();
    }
    let xu = vstd::bytes::u64_from_le_bytes(vstd::slice::slice_subrange(bytes.as_slice(), 0, 8));
    let yu = vstd::bytes::u64_from_le_bytes(vstd::slice::slice_subrange(bytes.as_slice(), 8, 16));
    let x0 = #[verifier::truncate] (xu as i64);
    let y0 = #[verifier::truncate] (yu as i64);
    proof {
        assert(((xu as i64) as u64) == xu) by (bit_vector);
        assert(((yu as i64) as u64) == yu) by (bit_vector);
    }
    let w = vstd::bytes::u32_from_le_bytes(vstd::slice::slice_subrange(bytes.as_slice(), 16, 20));
    let h = vstd::bytes::u32_from_le_bytes(vstd::slice::slice_subrange(bytes.as_slice(), 20, 24));
    let rect = Rect { x0, y0, w, h };
    proof {
        assert(spec_encode_rect(rect) =~= bytes@);
    }
    Some(rect)
}

/// The slot tag of an event: clicks are 1, scrolls 2, key presses 3; an
/// empty slot is 0.
pub open spec fn spec_event_kind(e: InputEvent) -> u8 {
    match e {
        InputEvent::Click { .. } => 1u8,
        InputEvent::Scroll { .. } => 2u8,
        InputEvent::Key { .. } => 3u8,
    }
}

/// The first payload word of an event slot.
pub open spec fn spec_event_a(e: InputEvent) -> i64 {
    match e {
        InputEvent::Click { x, .. } => x,
        InputEvent::Scroll { delta } => delta,
        InputEvent::Key { code } => code as i64,
    }
}

/// The second payload word of an event slot.
pub open spec fn spec_event_b(e: InputEvent) -> i64 {
    match e {
        InputEvent::Click { y, .. } => y,
        InputEvent::Scroll { .. } => 0i64,
        InputEvent::Key { .. } => 0i64,
    }
}

/// The 17-byte slot for event number `i`: tag byte, then two signed 64-bit
/// payload words; all-zero when no event fills the slot.
pub open spec fn spec_event_slot(events: Seq<InputEvent>, i: int) -> Seq<u8> {
    if 0 <= i < events.len() {
        seq![spec_event_kind(events[i])] + spec_i64_le(spec_event_a(events[i])) + spec_i64_le(
            spec_event_b(events[i]),
        )
    } else {
        seq![0u8] + spec_i64_le(0i64) + spec_i64_le(0i64)
    }
}

/// The concatenation of the first `n` event slots.
pub open spec fn spec_event_slots(events: Seq<InputEvent>, n: int) -> Seq<u8>
    decreases n,
{
    if n <= 0 {
        Seq::<u8>::empty()
    } else {
        spec_event_slots(events, n - 1) + spec_event_slot(events, n - 1)
    }
}

/// The 154-byte input record: pointer x and y as signed 64-bit, the button
/// flag, the event count, then eight event slots. Events beyond the eighth
/// are dropped.
pub open spec fn spec_encode_input(inp: InputState) -> Seq<u8> {
    let n = if inp.events@.len() <= MAX_INPUT_EVENTS {
        inp.events@.len() as int
    } else {
        MAX_INPUT_EVENTS as int
    };
    spec_i64_le(inp.pointer.x) + spec_i64_le(inp.pointer.y) + seq![
        if inp.pointer.left_clicked {
            1u8
        } else {
            0u8
        },
    ] + seq![n as u8] + spec_event_slots(inp.events@.take(n), MAX_INPUT_EVENTS as int)
}

/// Encodes an input snapshot into its fixed 154-byte record.
pub fn encode_input_state(inp: &InputState) -> (out: Vec<u8>)
    ensures
        out@ =~= spec_encode_input(*inp),
        out@.len() == INPUT_STATE_BYTES,
{
    let n: usize = if inp.events.len() <= MAX_INPUT_EVENTS {
        inp.events.len()
    } else {
        MAX_INPUT_EVENTS
    };
    let ghost kept = inp.events@.take(n as int);
    let mut out = i64_le_vec(inp.pointer.x);
    let mut y = i64_le_vec(inp.pointer.y);
    out.append(&mut y);
    out.push(if inp.pointer.left_clicked {
        1
    } else {
        0
    });
    out.push(n as u8);
    let ghost header = out@;
    let mut i: usize = 0;
    while i < MAX_INPUT_EVENTS
        invariant
            i <= MAX_INPUT_EVENTS,
            n <= MAX_INPUT_EVENTS,
            n <= inp.events@.len(),
            kept == inp.events@.take(n as int),
            header.len() == 18,
            out@ =~= header + spec_event_slots(kept, i as int),
        decreases MAX_INPUT_EVENTS - i,
    {
        let ghost before = out@;
        if i < n {
            let e = inp.events[i];
            proof {
                assert(kept[i as int] == inp.events@[i as int]);
            }
            out.push(event_kind(&e));
            let mut a = i64_le_vec(event_a(&e));
            let mut b = i64_le_vec(event_b(&e));
            out.append(&mut a);
            out.append(&mut b);
        } else {
            out.push(0);
            let mut a = i64_le_vec(0);
            let mut b = i64_le_vec(0);
            out.append(&mut a);
            out.append(&mut b);
        }
        proof {
            assert(out@ =~= before + spec_event_slot(kept, i as int));
            assert(out@ =~= header + spec_event_slots(kept, i + 1));
        }
        i = i + 1;
    }
    proof {
        lemma_event_slots_len(kept, MAX_INPUT_EVENTS as int);
        assert(out@ =~= spec_encode_input(*inp));
    }
    out
}

/// The concatenation of `n` slots is 17 bytes per slot.
pub proof fn lemma_event_slots_len(events: Seq<InputEvent>, n: int)
    requires
        n >= 0,
    ensures
        spec_event_slots(events, n).len() == 17 * n,
    decreases n,
{
    vstd::bytes::lemma_auto_spec_u64_to_from_le_bytes();
    if n > 0 {
        lemma_event_slots_len(events, n - 1);
    }
}

/// The slot tag of an event.
fn event_kind(e: &InputEvent) -> (k: u8)
    ensures
        k == spec_event_kind(*e),
{
    match e {
        InputEvent::Click { .. } => 1,
        InputEvent::Scroll { .. } => 2,
        InputEvent::Key { .. } => 3,
    }
}

/// The first payload word of an event slot.
fn event_a(e: &InputEvent) -> (a: i64)
    ensures
        a == spec_event_a(*e),
{
    match e {
        InputEvent::Click { x, .. } => *x,
        InputEvent::Scroll { delta } => *delta,
        InputEvent::Key { code } => *code as i64,
    }
}

/// The second payload word of an event slot.
fn event_b(e: &InputEvent) -> (b: i64)
    ensures
        b == spec_event_b(*e),
{
    match e {
        InputEvent::Click { y, .. } => *y,
        InputEvent::Scroll { .. } => 0,
        InputEvent::Key { .. } => 0,
    }
}

/// The four bytes of one color: r, g, b, a.
pub open spec fn spec_encode_color(c: Color) -> Seq<u8> {
    seq![c.r, c.g, c.b, c.a]
}

/// The 16-byte stylesheet record: background, element, frame and text
/// colors, four bytes each.
pub open spec fn spec_encode_stylesheet(s: StyleSheet) -> Seq<u8> {
    spec_encode_color(s.background) + spec_encode_color(s.element) + spec_encode_color(s.frame)
        + spec_encode_color(s.text)
}

/// Encodes the stylesheet into its 16-byte record.
pub fn encode_stylesheet(s: &StyleSheet) -> (out: Vec<u8>)
    ensures
        out@ =~= spec_encode_stylesheet(*s),
        out@.len() == STYLESHEET_BYTES,
{
    let mut out: Vec<u8> = Vec::new();
    out.push(s.background.r);
    out.push(s.background.g);
    out.push(s.background.b);
    out.push(s.background.a);
    out.push(s.element.r);
    out.push(s.element.g);
    out.push(s.element.b);
    out.push(s.element.a);
    out.push(s.frame.r);
    out.push(s.frame.g);
    out.push(s.frame.b);
    out.push(s.frame.a);
    out.push(s.text.r);
    out.push(s.text.g);
    out.push(s.text.b);
    out.push(s.text.a);
    out
}

/// Decodes a 16-byte stylesheet record.
pub fn decode_stylesheet(bytes: &Vec<u8>) -> (r: Option<StyleSheet>)
    ensures
        r is Some <==> bytes@.len() == STYLESHEET_BYTES,
        r matches Some(s) ==> spec_encode_stylesheet(s) =~= bytes@,
{
    if bytes.len() != STYLESHEET_BYTES {
        return None;
    }
    let s = StyleSheet {
        background: Color { r: bytes[0], g: bytes[1], b: bytes[2], a: bytes[3] },
        element: Color { r: bytes[4], g: bytes[5], b: bytes[6], a: bytes[7] },
        frame: Color { r: bytes[8], g: bytes[9], b: bytes[10], a: bytes[11] },
        text: Color { r: bytes[12], g: bytes[13], b: bytes[14], a: bytes[15] },
    };
    proof {
        assert(spec_encode_stylesheet(s) =~= bytes@);
    }
    Some(s)
}

/// The event a 17-byte slot decodes to: tag 1 is a click, 2 a scroll, 3 a
/// key press; the zero tag is an empty slot and anything else is
/// malformed.
pub open spec fn spec_decode_event(slot: Seq<u8>) -> Option<InputEvent> {
    let a = vstd::bytes::spec_u64_from_le_bytes(slot.subrange(1, 9)) as i64;
    let b = vstd::bytes::spec_u64_from_le_bytes(slot.subrange(9, 17)) as i64;
    if slot[0] == 1 {
        Some(InputEvent::Click { x: a, y: b })
    } else if slot[0] == 2 {
        Some(InputEvent::Scroll { delta: a })
    } else if slot[0] == 3 {
        Some(InputEvent::Key { code: a as u32 })
    } else {
        None
    }
}

/// Decodes a 154-byte input record: the pointer, then as many events as
/// the count byte says. A record with a count over the slot limit or an
/// unknown slot tag is malformed and decodes to nothing.
pub fn decode_input_state(bytes: &Vec<u8>) -> (r: Option<InputState>)
    ensures
        r matches Some(inp) ==> {
            &&& bytes@.len() == INPUT_STATE_BYTES
            &&& inp.pointer.x as u64 == vstd::bytes::spec_u64_from_le_bytes(bytes@.subrange(0, 8))
            &&& inp.pointer.y as u64 == vstd::bytes::spec_u64_from_le_bytes(bytes@.subrange(8, 16))
            &&& inp.pointer.left_clicked == (bytes@[16] != 0)
            &&& inp.events@.len() == bytes@[17]
            &&& forall|k: int|
                0 <= k < inp.events@.len() ==> Some(#[trigger] inp.events@[k])
                    == spec_decode_event(bytes@.subrange(18 + 17 * k, 18 + 17 * k + 17))
        },
        bytes@.len() != INPUT_STATE_BYTES ==> r is None,
{
    if bytes.len() != INPUT_STATE_BYTES {
        return None;
    }
    proof {
        vstd::bytes::lemma_auto_spec_u64_to_from_le_bytes();
    }
    let xu = vstd::bytes::u64_from_le_bytes(vstd::slice::slice_subrange(bytes.as_slice(), 0, 8));
    let yu = vstd::bytes::u64_from_le_bytes(vstd::slice::slice_subrange(bytes.as_slice(), 8, 16));
    let x = #[verifier::truncate] (xu as i64);
    let y = #[verifier::truncate] (yu as i64);
    proof {
        assert(((xu as i64) as u64) == xu) by (bit_vector);
        assert(((yu as i64) as u64) == yu) by (bit_vector);
    }
    let clicked = bytes[16] != 0;
    let n = bytes[17];
    if n as usize > MAX_INPUT_EVENTS {
        return None;
    }
    let mut events: Vec<InputEvent> = Vec::new();
    let mut k: usize = 0;
    while k < n as usize
        invariant
            k <= n,
            n <= MAX_INPUT_EVENTS,
            bytes@.len() == INPUT_STATE_BYTES,
            events@.len() == k,
            forall|j: int|
                0 <= j < k ==> Some(#[trigger] events@[j]) == spec_decode_event(
                    bytes@.subrange(18 + 17 * j, 18 + 17 * j + 17),
                ),
        decreases n - k,
    {
        let base = 18 + 17 * k;
        let tag = bytes[base];
        let a_u = vstd::bytes::u64_from_le_bytes(
            vstd::slice::slice_subrange(bytes.as_slice(), base + 1, base + 9),
        );
        let b_u = vstd::bytes::u64_from_le_bytes(
            vstd::slice::slice_subrange(bytes.as_slice(), base + 9, base + 17),
        );
        let a = #[verifier::truncate] (a_u as i64);
        let b = #[verifier::truncate] (b_u as i64);
        proof {
            let ghost slot = bytes@.subrange(18 + 17 * k, 18 + 17 * k + 17);
            assert(slot[0] == bytes@[18 + 17 * k]);
            assert(slot.subrange(1, 9) =~= bytes@.subrange(18 + 17 * k + 1, 18 + 17 * k + 9));
            assert(slot.subrange(9, 17) =~= bytes@.subrange(18 + 17 * k + 9, 18 + 17 * k + 17));
        }
        let event = if tag == 1 {
            InputEvent::Click { x: a, y: b }
        } else if tag == 2 {
            InputEvent::Scroll { delta: a }
        } else if tag == 3 {
            InputEvent::Key { code: #[verifier::truncate] (a as u32) }
        } else {
            return None;
        };
        proof {
            assert(((a_u as i64) as u64) == a_u) by (bit_vector);
            assert(((b_u as i64) as u64) == b_u) by (bit_vector);
            assert(Some(event) == spec_decode_event(
                bytes@.subrange(18 + 17 * k, 18 + 17 * k + 17),
            ));
        }
        events.push(event);
        k = k + 1;
    }
    Some(InputState { pointer: PointerState { x, y, left_clicked: clicked }, events })
}

/// Decoding the 24-byte record of a rectangle gives the rectangle back.
///
/// Round trip: what the kernel writes through the bridge, the guest-side
/// decoder reads back unchanged.
pub proof fn lemma_rect_round_trip(r: Rect, bytes: Seq<u8>)
    requires
        bytes == spec_encode_rect(r),
    ensures
        bytes.len() == RECT_BYTES,
        vstd::bytes::spec_u64_from_le_bytes(bytes.subrange(0, 8)) == r.x0 as u64,
        vstd::bytes::spec_u64_from_le_bytes(bytes.subrange(8, 16)) == r.y0 as u64,
        vstd::bytes::spec_u32_from_le_bytes(bytes.subrange(16, 20)) == r.w,
        vstd::bytes::spec_u32_from_le_bytes(bytes.subrange(20, 24)) == r.h,
{
    vstd::bytes::lemma_auto_spec_u64_to_from_le_bytes();
    vstd::bytes::lemma_auto_spec_u32_to_from_le_bytes();
    assert(bytes.subrange(0, 8) =~= spec_i64_le(r.x0));
    assert(bytes.subrange(8, 16) =~= spec_i64_le(r.y0));
    assert(bytes.subrange(16, 20) =~= vstd::bytes::spec_u32_to_le_bytes(r.w));
    assert(bytes.subrange(20, 24) =~= vstd::bytes::spec_u32_to_le_bytes(r.h));
}

} // verus!
