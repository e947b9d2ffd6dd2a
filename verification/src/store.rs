//! Per-guest store data and the step context.
//!
//! Each guest instance owns one [`StoreData`]: its name, its declared
//! framebuffer region, its socket registry, its console stream, its per-step
//! network byte counters and the optional [`StepContext`] slot. The context
//! slot is filled exactly while guest code is on the host call stack; ABI
//! stubs reach the kernel services of the current tick only through it.

use vstd::prelude::*;

use crate::console::Console;
use crate::fault::TrapKind;
use crate::geometry::Rect;
use crate::guestmem::{read_bytes, spec_in_bounds};
use crate::input::InputState;
use crate::sockets::SocketRegistry;
use crate::stylesheet::StyleSheet;

verus! {

/// A guest-declared framebuffer region: an offset into its linear memory
/// and the pixel extent. The region covers 4·w·h bytes of RGBA pixels.
#[derive(Clone, Copy, PartialEq, Eq, Structural, Debug)]
pub struct WasmFramebufferDef {
    pub addr: u32,
    pub w: u32,
    pub h: u32,
}

impl WasmFramebufferDef {
    /// The byte length of the region: four bytes per pixel.
    pub open spec fn spec_byte_len(self) -> int {
        4 * self.w * self.h
    }
}

/// The name a guest-recorded timing sample was filed under, looked up from
/// the most recent sample backwards.
pub open spec fn spec_timing_get(s: Seq<(Vec<u8>, u64)>, key: Seq<u8>) -> Option<u64>
    decreases s.len(),
{
    if s.len() == 0 {
        None
    } else if s.last().0@ == key {
        Some(s.last().1)
    } else {
        spec_timing_get(s.drop_last(), key)
    }
}

/// The scoped bundle of per-tick values that ABI stubs may read while guest
/// code runs: the window-local input snapshot, the window rectangle, the
/// active stylesheet, and the named fuel samples the guest records.
#[derive(Debug)]
pub struct StepContext {
    pub input_state: InputState,
    pub win_rect: Rect,
    pub stylesheet: StyleSheet,
    pub timings: Vec<(Vec<u8>, u64)>,
}

impl StepContext {
    /// Records a named fuel sample; a later sample under the same name
    /// shadows an earlier one.
    pub fn save_timing(&mut self, key: Vec<u8>, consumed: u64)
        ensures
            final(self).timings@ =~= old(self).timings@ + seq![(key, consumed)],
            spec_timing_get(final(self).timings@, key@) == Some(consumed),
            forall|other: Seq<u8>|
                other != key@ ==> spec_timing_get(final(self).timings@, other) == spec_timing_get(
                    old(self).timings@,
                    other,
                ),
            final(self).input_state == old(self).input_state,
            final(self).win_rect == old(self).win_rect,
            final(self).stylesheet == old(self).stylesheet,
    {
        self.timings.push((key, consumed));
        proof {
            assert(self.timings@.drop_last() =~= old(self).timings@);
        }
    }
}

/// The long-lived state of one guest instance.
#[derive(Debug)]
pub struct StoreData {
    /// The application name, fixed at instantiation.
    pub app_name: String,
    /// The declared framebuffer region; absent until the guest registers one.
    pub framebuffer: Option<WasmFramebufferDef>,
    /// The guest's socket registry.
    pub sockets: SocketRegistry,
    /// Filled exactly while guest code is on the host call stack.
    pub step_context: Option<StepContext>,
    /// Bytes dequeued from TCP sockets this step.
    pub net_recv: u64,
    /// Bytes enqueued to TCP sockets this step.
    pub net_sent: u64,
    /// The captured console stream.
    pub console: Console,
    /// The fuel allowance set for the current step.
    pub fuel_budget: u64,
}

impl StoreData {
    /// Well-formed: the socket registry invariant holds and the console
    /// version has headroom for further writes.
    pub open spec fn wf(self) -> bool {
        &&& self.sockets.wf()
        &&& self.console.version < u64::MAX
    }

    /// A fresh store for a newly instantiated guest: no framebuffer, an
    /// empty registry, an empty console, no step context, zero counters.
    pub fn new(app_name: &str) -> (r: StoreData)
        ensures
            r.wf(),
            r.app_name@ == app_name@,
            r.framebuffer is None,
            r.step_context is None,
            r.sockets.next_id == 0,
            r.sockets.entries@ =~= Seq::<crate::sockets::SocketEntry>::empty(),
            r.net_recv == 0,
            r.net_sent == 0,
            r.console.data@ =~= Seq::<u8>::empty(),
            r.console.version == 0,
            r.fuel_budget == 0,
    {
        StoreData {
            app_name: app_name.to_owned(),
            framebuffer: None,
            sockets: SocketRegistry::new(),
            step_context: None,
            net_recv: 0,
            net_sent: 0,
            console: Console::new(),
            fuel_budget: 0,
        }
    }

    /// Whether a step context is installed, that is, whether guest code is
    /// on the host call stack.
    pub open spec fn spec_in_step(self) -> bool {
        self.step_context is Some
    }
}

/// Whether the declared region lies inside a linear memory of `mem_len`
/// bytes at this moment.
pub open spec fn spec_fb_in_bounds(def: WasmFramebufferDef, mem_len: nat) -> bool {
    def.addr + def.spec_byte_len() <= mem_len
}

/// Resolves a declared framebuffer region against the current linear
/// memory, yielding exactly the 4·w·h bytes of the region, or `None` if the
/// region is out of bounds at this moment. The region is re-resolved on
/// every call because the memory may have grown since registration.
pub fn resolve_framebuffer(def: &WasmFramebufferDef, mem: &Vec<u8>) -> (r: Option<Vec<u8>>)
    ensures
        r is Some <==> spec_fb_in_bounds(*def, mem@.len()),
        r matches Some(b) ==> b@ =~= mem@.subrange(def.addr as int, def.addr + def.spec_byte_len()),
{
    let w128: u128 = def.w as u128;
    let h128: u128 = def.h as u128;
    proof {
        assert(4 * w128 * h128 <= 4 * 0xffff_ffffu128 * 0xffff_ffffu128) by (nonlinear_arith)
            requires
                w128 <= 0xffff_ffffu128,
                h128 <= 0xffff_ffffu128,
        ;
    }
    let total: u128 = 4u128 * w128 * h128;
    proof {
        assert(total == def.spec_byte_len()) by (nonlinear_arith)
            requires
                total == 4u128 * w128 * h128,
                w128 == def.w,
                h128 == def.h,
        ;
        assert(def.spec_byte_len() >= 0) by (nonlinear_arith);
    }
    if (def.addr as u128) + total > mem.len() as u128 {
        return None;
    }
    let len: usize = total as usize;
    match read_bytes(mem, def.addr, len) {
        Ok(b) => Some(b),
        Err(_) => {
            proof {
                assert(spec_in_bounds(mem@.len(), def.addr, len as nat));
            }
            None
        },
    }
}

/// Zero-copy framebuffer consistency: when a guest writes a pattern over
/// its whole registered region, the region resolved from the memory after
/// the write is exactly that pattern — the compositor's post-step read
/// observes what the guest wrote, nothing staler and nothing else.
pub proof fn lemma_framebuffer_consistency(
    def: WasmFramebufferDef,
    mem: Seq<u8>,
    pattern: Seq<u8>,
)
    requires
        pattern.len() == def.spec_byte_len(),
        spec_fb_in_bounds(def, mem.len()),
    ensures
        spec_fb_in_bounds(def, crate::guestmem::spec_written(mem, def.addr, pattern).len()),
        crate::guestmem::spec_written(mem, def.addr, pattern).subrange(
            def.addr as int,
            def.addr + def.spec_byte_len(),
        ) =~= pattern,
{
    crate::guestmem::lemma_written_region_reads_back(mem, def.addr, pattern);
}

} // verus!
