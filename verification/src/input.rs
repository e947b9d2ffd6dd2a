//! Input state delivered to guests.
//!
//! The compositor owns one global input state per tick. Before a guest is
//! stepped, the scheduler derives a window-local snapshot from it: a guest
//! that is not the foreground window keeps only the pointer position, and all
//! coordinates are translated so that (0, 0) is the window origin.

use vstd::prelude::*;

use crate::arith::{clamp_i64, sat_sub_i64};
use crate::geometry::{Point2D, Rect};

verus! {

/// One discrete input event.
#[derive(Clone, Copy, PartialEq, Eq, Structural, Debug)]
pub enum InputEvent {
    /// A pointer button press at the given coordinates.
    Click { x: i64, y: i64 },
    /// A wheel movement.
    Scroll { delta: i64 },
    /// A key press.
    Key { code: u32 },
}

/// The pointer position and button state.
#[derive(Clone, Copy, PartialEq, Eq, Structural, Debug)]
pub struct PointerState {
    pub x: i64,
    pub y: i64,
    pub left_clicked: bool,
}

/// The input snapshot for one tick: pointer state plus the events that
/// arrived since the previous tick.
#[derive(Debug)]
pub struct InputState {
    pub pointer: PointerState,
    pub events: Vec<InputEvent>,
}

impl Clone for InputState {
    /// An equal snapshot.
    fn clone(&self) -> (r: Self)
        ensures
            r.pointer == self.pointer,
            r.events@ =~= self.events@,
    {
        let mut events: Vec<InputEvent> = Vec::new();
        let n = self.events.len();
        let mut i: usize = 0;
        while i < n
            invariant
                i <= n,
                n == self.events@.len(),
                events@ =~= self.events@.subrange(0, i as int),
            decreases n - i,
        {
            events.push(self.events[i]);
            proof {
                assert(events@ =~= self.events@.subrange(0, i + 1));
            }
            i = i + 1;
        }
        proof {
            assert(events@ =~= self.events@);
        }
        InputState { pointer: self.pointer, events }
    }
}

/// `e` translated so that `origin` becomes (0, 0).
pub open spec fn spec_translate_event(e: InputEvent, origin: Point2D) -> InputEvent {
    match e {
        InputEvent::Click { x, y } => InputEvent::Click {
            x: clamp_i64(x - origin.x),
            y: clamp_i64(y - origin.y),
        },
        InputEvent::Scroll { delta } => InputEvent::Scroll { delta },
        InputEvent::Key { code } => InputEvent::Key { code },
    }
}

/// `p` translated so that `origin` becomes (0, 0).
pub open spec fn spec_translate_pointer(p: PointerState, origin: Point2D) -> PointerState {
    PointerState {
        x: clamp_i64(p.x - origin.x),
        y: clamp_i64(p.y - origin.y),
        left_clicked: p.left_clicked,
    }
}

impl InputState {
    /// A snapshot with the pointer at rest and no events.
    pub fn new() -> (r: InputState)
        ensures
            r.pointer == (PointerState { x: 0i64, y: 0i64, left_clicked: false }),
            r.events@ =~= Seq::<InputEvent>::empty(),
    {
        InputState { pointer: PointerState { x: 0, y: 0, left_clicked: false }, events: Vec::new() }
    }

    /// Drops all events, keeping the pointer state.
    pub fn clear_events(&mut self)
        ensures
            final(self).pointer == old(self).pointer,
            final(self).events@ =~= Seq::<InputEvent>::empty(),
    {
        self.events = Vec::new();
    }

    /// Translates the pointer and every event so that `origin` becomes (0, 0).
    pub fn change_origin(&mut self, origin: Point2D)
        ensures
            final(self).pointer == spec_translate_pointer(old(self).pointer, origin),
            final(self).events@.len() == old(self).events@.len(),
            forall|i: int|
                0 <= i < old(self).events@.len() ==> final(self).events@[i]
                    == spec_translate_event(old(self).events@[i], origin),
    {
        self.pointer = PointerState {
            x: sat_sub_i64(self.pointer.x, origin.x),
            y: sat_sub_i64(self.pointer.y, origin.y),
            left_clicked: self.pointer.left_clicked,
        };
        let n = self.events.len();
        let mut i: usize = 0;
        while i < n
            invariant
                i <= n,
                n == self.events@.len(),
                n == old(self).events@.len(),
                self.pointer == spec_translate_pointer(old(self).pointer, origin),
                forall|j: int|
                    0 <= j < i ==> self.events@[j]
                        == spec_translate_event(old(self).events@[j], origin),
                forall|j: int| i <= j < n ==> self.events@[j] == old(self).events@[j],
            decreases n - i,
        {
            let e = self.events[i];
            let t = match e {
                InputEvent::Click { x, y } => InputEvent::Click {
                    x: sat_sub_i64(x, origin.x),
                    y: sat_sub_i64(y, origin.y),
                },
                InputEvent::Scroll { delta } => InputEvent::Scroll { delta },
                InputEvent::Key { code } => InputEvent::Key { code },
            };
            self.events.set(i, t);
            i = i + 1;
        }
    }
}

/// The window-local snapshot handed to a guest: the pointer in window-local
/// coordinates always; events only for the foreground guest, also translated.
pub open spec fn spec_local_input(global: InputState, win: Rect, is_foreground: bool) -> (
    PointerState,
    Seq<InputEvent>,
) {
    let origin = Point2D { x: win.x0, y: win.y0 };
    (
        spec_translate_pointer(global.pointer, origin),
        if is_foreground {
            global.events@.map(|i: int, e: InputEvent| spec_translate_event(e, origin))
        } else {
            Seq::<InputEvent>::empty()
        },
    )
}

/// Builds the window-local input snapshot for one guest and one tick.
///
/// A guest that is not the foreground window receives an empty event list but
/// the current pointer position; the foreground guest receives every event.
/// All coordinates are translated to the window origin.
pub fn make_local_input(global: &InputState, win: &Rect, is_foreground: bool) -> (r: InputState)
    ensures
        r.pointer == spec_local_input(*global, *win, is_foreground).0,
        r.events@ =~= spec_local_input(*global, *win, is_foreground).1,
{
    let mut local = global.clone();
    if !is_foreground {
        local.clear_events();
    }
    local.change_origin(Point2D { x: win.x0, y: win.y0 });
    proof {
        let origin = Point2D { x: win.x0, y: win.y0 };
        if is_foreground {
            assert(local.events@ =~= global.events@.map(
                |i: int, e: InputEvent| spec_translate_event(e, origin),
            ));
        }
    }
    local
}

} // verus!
