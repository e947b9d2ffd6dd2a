//! Guest-side application support.
//!
//! Guests link a small support library: a pixel buffer whose registration
//! with the host tracks the window size, decoders for the records the host
//! writes through the memory bridge, and the mapping of ABI return values
//! to results. The raw ABI calls themselves are host imports and live in
//! the guest-side glue; everything that decides or decodes is here.

use vstd::prelude::*;

use crate::framebuf::Framebuffer;
use crate::geometry::Rect;

verus! {

/// An error a guest-side ABI wrapper reports to the application.
#[derive(Clone, Copy, PartialEq, Eq, Structural, Debug)]
pub enum GuestError {
    TcpConnectFailed,
    TcpIoFailed,
}

/// The guest's pixel buffer, kept at the window's size and re-registered
/// with the host when the window is resized.
#[derive(Debug)]
pub struct PixelData {
    /// The backing pixels; always sized to the last seen window extent.
    pub fb: Framebuffer,
}

impl PixelData {
    /// Well-formed: the backing buffer is consistent.
    pub open spec fn wf(self) -> bool {
        self.fb.wf()
    }

    /// A zeroed pixel buffer sized to the window rectangle. The caller
    /// registers the buffer with the host after allocation.
    pub fn new(win_rect: &Rect) -> (r: PixelData)
        requires
            win_rect.w * win_rect.h <= 0x1000_0000,
        ensures
            r.wf(),
            r.fb.w == win_rect.w,
            r.fb.h == win_rect.h,
            forall|i: int| 0 <= i < r.fb.pixels@.len() ==> r.fb.pixels@[i] == 0,
    {
        PixelData { fb: Framebuffer::new(win_rect.w, win_rect.h) }
    }

    /// The drawable buffer for this frame. If the window was resized since
    /// the last frame, the buffer is reallocated (zeroed) at the new size
    /// first; the caller must then re-register it with the host.
    ///
    /// Returns whether a reallocation happened, so the caller knows to
    /// re-register.
    pub fn get_framebuffer(&mut self, win_rect: &Rect) -> (resized: bool)
        requires
            old(self).wf(),
            win_rect.w * win_rect.h <= 0x1000_0000,
        ensures
            final(self).wf(),
            final(self).fb.w == win_rect.w,
            final(self).fb.h == win_rect.h,
            resized <==> !(old(self).fb.w == win_rect.w && old(self).fb.h == win_rect.h),
            !resized ==> final(self).fb == old(self).fb,
            resized ==> forall|i: int|
                0 <= i < final(self).fb.pixels@.len() ==> final(self).fb.pixels@[i] == 0,
    {
        if self.fb.w != win_rect.w || self.fb.h != win_rect.h {
            self.refresh_framebuffer(win_rect.w, win_rect.h);
            true
        } else {
            false
        }
    }

    /// Reallocates the buffer at its current size, zeroing it; the caller
    /// re-registers it with the host.
    pub fn force_refresh(&mut self)
        requires
            old(self).wf(),
            old(self).fb.w * old(self).fb.h <= 0x1000_0000,
        ensures
            final(self).wf(),
            final(self).fb.w == old(self).fb.w,
            final(self).fb.h == old(self).fb.h,
            forall|i: int|
                0 <= i < final(self).fb.pixels@.len() ==> final(self).fb.pixels@[i] == 0,
    {
        let w = self.fb.w;
        let h = self.fb.h;
        self.refresh_framebuffer(w, h);
    }

    /// Replaces the buffer with a zeroed one of the given extent.
    fn refresh_framebuffer(&mut self, new_w: u32, new_h: u32)
        requires
            new_w * new_h <= 0x1000_0000,
        ensures
            final(self).wf(),
            final(self).fb.w == new_w,
            final(self).fb.h == new_h,
            forall|i: int|
                0 <= i < final(self).fb.pixels@.len() ==> final(self).fb.pixels@[i] == 0,
    {
        self.fb = Framebuffer::new(new_w, new_h);
    }
}

/// Maps the return value of the TCP connect import: a negative value is
/// failure, anything else is the new handle id.
pub fn tcp_connect_result(retval: i32) -> (r: Result<i32, GuestError>)
    ensures
        retval < 0 ==> r == Err::<i32, GuestError>(GuestError::TcpConnectFailed),
        retval >= 0 ==> r == Ok::<i32, GuestError>(retval),
{
    if retval < 0 {
        Err(GuestError::TcpConnectFailed)
    } else {
        Ok(retval)
    }
}

/// Maps the return value of a TCP read or write import: a negative value
/// is failure, anything else is the byte count.
pub fn tcp_io_result(retval: i32) -> (r: Result<usize, GuestError>)
    ensures
        retval < 0 ==> r == Err::<usize, GuestError>(GuestError::TcpIoFailed),
        retval >= 0 ==> r == Ok::<usize, GuestError>(retval as usize),
{
    if retval < 0 {
        Err(GuestError::TcpIoFailed)
    } else {
        Ok(retval as usize)
    }
}

/// The guest-side logger: it forwards log records to the host log import.
/// The formatting and the trait glue live with the ABI imports; the logger
/// itself filters nothing.
#[derive(Clone, Copy, PartialEq, Eq, Structural, Debug)]
pub struct WasmLogger;

impl WasmLogger {
    /// Every record is enabled.
    pub fn enabled(&self) -> (r: bool)
        ensures
            r,
    {
        true
    }
}

} // verus!
