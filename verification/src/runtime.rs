//! Guest instances and the per-tick step driver.
//!
//! One [`WasmApp`] exists per open window. Each display tick the scheduler
//! derives a window-local input snapshot, installs a step context with a
//! fresh fuel budget, lets the engine run the guest's `step` export, clears
//! the context on every exit path, and records a stats point. Host ABI calls
//! the guest makes during the step reach the stub table through
//! [`dispatch_call`]; the engine adapter reports each call as one
//! [`GuestCall`], carrying the plain values the kernel services answered
//! with, so the whole tick is a function of those values.
//!
//! A trap cancels only the current step: the guest stays well-formed and is
//! stepped again next tick with a fresh budget.

use vstd::prelude::*;

use crate::abi::{
    run_wasi_stub, stub_args_sizes_get, stub_clock_time_get, stub_environ_get,
    stub_environ_sizes_get, stub_fd_write, stub_host_get_consumed_fuel, stub_host_get_input_state,
    stub_host_get_stylesheet, stub_host_get_time, stub_host_get_win_rect, stub_host_log,
    stub_host_qemu_dump, stub_host_save_timing, stub_host_set_framebuffer, stub_host_tcp_close,
    stub_host_tcp_connect, stub_host_tcp_may_recv, stub_host_tcp_may_send, stub_host_tcp_read,
    stub_host_tcp_write, WasiStubKind,
};
use crate::fault::{FaultKind, StubError, TrapKind};
use crate::geometry::Rect;
use crate::guestmem::write_bytes;
use crate::input::{make_local_input, spec_local_input, InputState};
use crate::stats::AppDataPoint;
use crate::store::{resolve_framebuffer, spec_fb_in_bounds, StepContext, StoreData};
use crate::stylesheet::StyleSheet;

verus! {

/// The engine that instantiates guest modules. Compilation and linking live
/// in the engine adapter; the engine value itself carries no state.
pub struct WasmEngine;

impl WasmEngine {
    pub fn new() -> (e: WasmEngine) {
        WasmEngine
    }
}

/// One ABI call the guest made during a step, together with the plain
/// values the kernel services supplied for it: the clock reading, the
/// random bytes, the TCP stack's answer. Guest-internal activity appears as
/// fuel consumption and stores to its own linear memory.
#[derive(Debug)]
pub enum GuestCall {
    ClockTimeGet { clock_id: u32, precision: u64, time_addr: u32, now_ns: u64 },
    RandomGet { buf: u32, buf_len: u32, rand: Vec<u8> },
    EnvironSizesGet { count_addr: u32, size_addr: u32 },
    EnvironGet { environ: u32, environ_buf: u32 },
    ArgsSizesGet { argc: u32, argv_buf_size: u32 },
    FdWrite { fd: u32, iovs: u32, iovs_len: u32, nwritten: u32 },
    HostLog { addr: u32, len: u32, level: i32 },
    HostGetInputState { addr: u32 },
    HostGetWinRect { addr: u32 },
    HostSetFramebuffer { addr: u32, w: u32, h: u32 },
    HostTcpConnect { ip: i32, port: i32, stack_reply: Option<u64> },
    HostTcpMaySend { id: i32, stack_reply: bool },
    HostTcpMayRecv { id: i32, stack_reply: bool },
    HostTcpWrite { addr: u32, len: u32, id: i32, stack_reply: Option<u32> },
    HostTcpRead { addr: u32, len: u32, id: i32, stack_reply: Option<Vec<u8>> },
    HostTcpClose { id: i32 },
    HostGetTime { buf: u32, now_bits: u64 },
    HostGetStylesheet { addr: u32 },
    HostGetConsumedFuel { addr: u32 },
    HostSaveTiming { key_addr: u32, key_len: u32, consumed_addr: u32 },
    HostQemuDump { addr: u32, len: u32 },
    WasiStub { stub: WasiStubKind },
    /// Guest-internal computation: consumes this much fuel.
    GuestWork { cost: u64 },
    /// A store the guest makes to its own linear memory.
    GuestWriteMem { addr: u32, bytes: Vec<u8> },
}

/// The service values carried by a call are consistent: supplied byte
/// buffers have the lengths their calls claim.
pub open spec fn call_wf(c: GuestCall) -> bool {
    match c {
        GuestCall::RandomGet { buf_len, rand, .. } => rand@.len() == buf_len,
        GuestCall::HostTcpWrite { len, stack_reply, .. } => stack_reply matches Some(n) ==> n
            <= len,
        GuestCall::HostTcpRead { len, stack_reply, .. } => stack_reply matches Some(d) ==> d@.len()
            <= len,
        _ => true,
    }
}


/// No effect: the state triple is unchanged.
pub open spec fn spec_unchanged(
    s0: StoreData,
    m0: Seq<u8>,
    f0: u64,
    s1: StoreData,
    m1: Seq<u8>,
    f1: u64,
) -> bool {
    s1 == s0 && m1 == m0 && f1 == f0
}


/// The exact effect of routing one guest call, as [`dispatch_call`]'s
/// contract states it: for each call kind, the resulting store, memory and
/// fuel gauge and the outcome, case by case, mirroring the called stub's
/// own contract. `s`/`m`/`f` are the store, the linear memory and the fuel
/// gauge before (0) and after (1) the call.
#[verifier::opaque]
pub open spec fn call_transition(
    s0: StoreData,
    m0: Seq<u8>,
    f0: u64,
    s1: StoreData,
    m1: Seq<u8>,
    f1: u64,
    call: GuestCall,
    r: Result<(), StubError>,
) -> bool {
    match call {
        GuestCall::ClockTimeGet { time_addr, now_ns, .. } => f1 == f0 && s1 == s0
            && if !s0.spec_in_step() {
            m1 == m0 && r == Err::<(), StubError>(StubError::Fault(FaultKind::NoContext))
        } else if !crate::guestmem::spec_in_bounds(m0.len(), time_addr, 8) {
            m1 == m0 && r == Err::<(), StubError>(StubError::Trap(TrapKind::OutOfBounds))
        } else {
            m1 == crate::guestmem::spec_written(
                m0,
                time_addr,
                vstd::bytes::spec_u64_to_le_bytes(now_ns),
            ) && r is Ok
        },
        GuestCall::RandomGet { buf, buf_len, rand } => f1 == f0 && s1 == s0
            && if !s0.spec_in_step() {
            m1 == m0 && r == Err::<(), StubError>(StubError::Fault(FaultKind::NoContext))
        } else if !crate::guestmem::spec_in_bounds(m0.len(), buf, buf_len as nat) {
            m1 == m0 && r == Err::<(), StubError>(StubError::Trap(TrapKind::OutOfBounds))
        } else {
            m1 == crate::guestmem::spec_written(m0, buf, rand@) && r is Ok
        },
        GuestCall::EnvironSizesGet { count_addr, size_addr } => f1 == f0 && s1 == s0
            && if !s0.spec_in_step() {
            m1 == m0 && r == Err::<(), StubError>(StubError::Fault(FaultKind::NoContext))
        } else if !crate::guestmem::spec_in_bounds(m0.len(), count_addr, 4) {
            m1 == m0 && r == Err::<(), StubError>(StubError::Trap(TrapKind::OutOfBounds))
        } else if !crate::guestmem::spec_in_bounds(m0.len(), size_addr, 4) {
            m1 == crate::guestmem::spec_written(
                m0,
                count_addr,
                vstd::bytes::spec_u32_to_le_bytes(1u32),
            ) && r == Err::<(), StubError>(StubError::Trap(TrapKind::OutOfBounds))
        } else {
            m1 == crate::guestmem::spec_written(
                crate::guestmem::spec_written(
                    m0,
                    count_addr,
                    vstd::bytes::spec_u32_to_le_bytes(1u32),
                ),
                size_addr,
                vstd::bytes::spec_u32_to_le_bytes(20u32),
            ) && r is Ok
        },
        GuestCall::EnvironGet { environ, environ_buf } => f1 == f0 && s1 == s0
            && if !s0.spec_in_step() {
            m1 == m0 && r == Err::<(), StubError>(StubError::Fault(FaultKind::NoContext))
        } else if crate::guestmem::spec_in_bounds(m0.len(), environ, 4)
            && crate::guestmem::spec_in_bounds(m0.len(), environ_buf, 20) {
            m1 == crate::guestmem::spec_written(
                crate::guestmem::spec_written(
                    m0,
                    environ,
                    vstd::bytes::spec_u32_to_le_bytes(environ_buf),
                ),
                environ_buf,
                crate::abi::spec_env_var() + seq![0u8],
            ) && r is Ok
        } else {
            m1.len() == m0.len() && r == Err::<(), StubError>(
                StubError::Trap(TrapKind::OutOfBounds),
            ) && (!crate::guestmem::spec_in_bounds(m0.len(), environ, 4) ==> m1 == m0)
        },
        GuestCall::ArgsSizesGet { argc, argv_buf_size } => f1 == f0 && s1 == s0
            && if !s0.spec_in_step() {
            m1 == m0 && r == Err::<(), StubError>(StubError::Fault(FaultKind::NoContext))
        } else if crate::guestmem::spec_in_bounds(m0.len(), argc, 4)
            && crate::guestmem::spec_in_bounds(m0.len(), argv_buf_size, 4) {
            m1 == crate::guestmem::spec_written(
                crate::guestmem::spec_written(m0, argc, vstd::bytes::spec_u32_to_le_bytes(0u32)),
                argv_buf_size,
                vstd::bytes::spec_u32_to_le_bytes(0u32),
            ) && r is Ok
        } else {
            m1.len() == m0.len() && r == Err::<(), StubError>(
                StubError::Trap(TrapKind::OutOfBounds),
            ) && (!crate::guestmem::spec_in_bounds(m0.len(), argc, 4) ==> m1 == m0)
        },
        GuestCall::FdWrite { iovs, nwritten, .. } => f1 == f0 && if !s0.spec_in_step() {
            spec_unchanged(s0, m0, f0, s1, m1, f1) && r == Err::<(), StubError>(
                StubError::Fault(FaultKind::NoContext),
            )
        } else if !crate::guestmem::spec_in_bounds(m0.len(), iovs, 8) {
            spec_unchanged(s0, m0, f0, s1, m1, f1) && r == Err::<(), StubError>(
                StubError::Trap(TrapKind::OutOfBounds),
            )
        } else {
            let iov = crate::abi::spec_iov(m0, iovs);
            if !crate::guestmem::spec_in_bounds(m0.len(), iov.0, iov.1 as nat) {
                spec_unchanged(s0, m0, f0, s1, m1, f1) && r == Err::<(), StubError>(
                    StubError::Trap(TrapKind::OutOfBounds),
                )
            } else {
                let data = m0.subrange(iov.0 as int, iov.0 + iov.1);
                if !crate::utf8::spec_valid_utf8(data) {
                    spec_unchanged(s0, m0, f0, s1, m1, f1) && r == Err::<(), StubError>(
                        StubError::Fault(FaultKind::InvalidUtf8),
                    )
                } else if !crate::guestmem::spec_in_bounds(m0.len(), nwritten, 4) {
                    spec_unchanged(s0, m0, f0, s1, m1, f1) && r == Err::<(), StubError>(
                        StubError::Trap(TrapKind::OutOfBounds),
                    )
                } else {
                    &&& r is Ok
                    &&& m1 == crate::guestmem::spec_written(
                        m0,
                        nwritten,
                        vstd::bytes::spec_u32_to_le_bytes(iov.1),
                    )
                    &&& s1 == (StoreData { console: s1.console, ..s0 })
                    &&& s1.console.data@ == s0.console.data@ + data
                    &&& s1.console.version == s0.console.version + 1
                }
            }
        },
        GuestCall::HostLog { addr, len, .. } => f1 == f0 && m1 == m0
            && if !crate::guestmem::spec_in_bounds(m0.len(), addr, len as nat) {
            s1 == s0 && r == Err::<(), StubError>(StubError::Trap(TrapKind::OutOfBounds))
        } else {
            let data = m0.subrange(addr as int, addr + len);
            if !crate::utf8::spec_valid_utf8(data) {
                s1 == s0 && r == Err::<(), StubError>(StubError::Fault(FaultKind::InvalidUtf8))
            } else if !s0.spec_in_step() {
                s1 == s0 && r == Err::<(), StubError>(StubError::Fault(FaultKind::NoContext))
            } else {
                &&& r is Ok
                &&& s1 == (StoreData { console: s1.console, ..s0 })
                &&& s1.console.data@ == s0.console.data@ + crate::utf8::spec_trim_end(data)
                    + seq![10u8]
                &&& s1.console.version == s0.console.version + 1
            }
        },
        GuestCall::HostGetInputState { addr } => f1 == f0 && s1 == s0
            && if !s0.spec_in_step() {
            m1 == m0 && r == Err::<(), StubError>(StubError::Fault(FaultKind::NoContext))
        } else {
            let record = crate::wire::spec_encode_input(s0.step_context->Some_0.input_state);
            if !crate::guestmem::spec_in_bounds(m0.len(), addr, record.len()) {
                m1 == m0 && r == Err::<(), StubError>(StubError::Trap(TrapKind::OutOfBounds))
            } else {
                m1 == crate::guestmem::spec_written(m0, addr, record) && r is Ok
            }
        },
        GuestCall::HostGetWinRect { addr } => f1 == f0 && s1 == s0 && if !s0.spec_in_step() {
            m1 == m0 && r == Err::<(), StubError>(StubError::Fault(FaultKind::NoContext))
        } else {
            let record = crate::wire::spec_encode_rect(s0.step_context->Some_0.win_rect);
            if !crate::guestmem::spec_in_bounds(m0.len(), addr, record.len()) {
                m1 == m0 && r == Err::<(), StubError>(StubError::Trap(TrapKind::OutOfBounds))
            } else {
                m1 == crate::guestmem::spec_written(m0, addr, record) && r is Ok
            }
        },
        GuestCall::HostSetFramebuffer { addr, w, h } => f1 == f0 && m1 == m0
            && if !s0.spec_in_step() {
            s1 == s0 && r == Err::<(), StubError>(StubError::Fault(FaultKind::NoContext))
        } else {
            s1 == (StoreData {
                framebuffer: Some(crate::store::WasmFramebufferDef { addr, w, h }),
                ..s0
            }) && r is Ok
        },
        GuestCall::HostTcpConnect { port, stack_reply, .. } => f1 == f0 && m1 == m0 && if !(0
            <= port <= 0xFFFF) {
            s1 == s0 && r == Err::<(), StubError>(StubError::Trap(TrapKind::InvalidArgument))
        } else if s0.sockets.next_id == i32::MAX {
            s1 == s0 && r == Err::<(), StubError>(StubError::Trap(TrapKind::InvalidArgument))
        } else if !s0.spec_in_step() {
            s1 == s0 && r == Err::<(), StubError>(StubError::Fault(FaultKind::NoContext))
        } else {
            match stack_reply {
                None => s1 == s0 && r is Ok,
                Some(h) => {
                    let id = s0.sockets.next_id;
                    &&& r is Ok
                    &&& s1 == (StoreData { sockets: s1.sockets, ..s0 })
                    &&& s1.sockets.wf()
                    &&& s1.sockets.spec_get(id) == Some(h)
                    &&& s1.sockets.next_id == id + 1
                    &&& forall|other: i32|
                        other != id ==> s1.sockets.spec_get(other) == s0.sockets.spec_get(other)
                },
            }
        },
        GuestCall::HostTcpMaySend { .. } => f1 == f0 && m1 == m0 && s1 == s0
            && if !s0.spec_in_step() {
            r == Err::<(), StubError>(StubError::Fault(FaultKind::NoContext))
        } else {
            r is Ok
        },
        GuestCall::HostTcpMayRecv { .. } => f1 == f0 && m1 == m0 && s1 == s0
            && if !s0.spec_in_step() {
            r == Err::<(), StubError>(StubError::Fault(FaultKind::NoContext))
        } else {
            r is Ok
        },
        GuestCall::HostTcpWrite { addr, len, id, stack_reply } => f1 == f0 && m1 == m0
            && if !s0.spec_in_step() {
            s1 == s0 && r == Err::<(), StubError>(StubError::Fault(FaultKind::NoContext))
        } else if !crate::guestmem::spec_in_bounds(m0.len(), addr, len as nat) {
            s1 == s0 && r == Err::<(), StubError>(StubError::Trap(TrapKind::OutOfBounds))
        } else if !s0.sockets.spec_contains(id) {
            s1 == s0 && r is Ok
        } else {
            match stack_reply {
                None => s1 == s0 && r is Ok,
                Some(n) => r is Ok && s1 == (StoreData {
                    net_sent: crate::arith::clamp_u64_int(s0.net_sent + n),
                    ..s0
                }),
            }
        },
        GuestCall::HostTcpRead { addr, id, stack_reply, .. } => f1 == f0
            && if !s0.spec_in_step() {
            s1 == s0 && m1 == m0 && r == Err::<(), StubError>(
                StubError::Fault(FaultKind::NoContext),
            )
        } else if !s0.sockets.spec_contains(id) {
            s1 == s0 && m1 == m0 && r is Ok
        } else {
            match stack_reply {
                None => s1 == s0 && m1 == m0 && r is Ok,
                Some(d) => {
                    if !crate::guestmem::spec_in_bounds(m0.len(), addr, d@.len()) {
                        s1 == s0 && m1 == m0 && r == Err::<(), StubError>(
                            StubError::Trap(TrapKind::OutOfBounds),
                        )
                    } else {
                        &&& r is Ok
                        &&& m1 == crate::guestmem::spec_written(m0, addr, d@)
                        &&& s1 == (StoreData {
                            net_recv: crate::arith::clamp_u64_int(s0.net_recv + d@.len()),
                            ..s0
                        })
                    }
                },
            }
        },
        GuestCall::HostTcpClose { id } => f1 == f0 && m1 == m0 && if !s0.spec_in_step() {
            s1 == s0 && r == Err::<(), StubError>(StubError::Fault(FaultKind::NoContext))
        } else if !s0.sockets.spec_contains(id) {
            s1 == s0 && r == Err::<(), StubError>(StubError::Trap(TrapKind::InvalidArgument))
        } else {
            &&& r is Ok
            &&& s1 == (StoreData { sockets: s1.sockets, ..s0 })
            &&& s1.sockets.wf()
            &&& s1.sockets.spec_get(id) == None::<u64>
            &&& s1.sockets.next_id == s0.sockets.next_id
            &&& forall|other: i32|
                other != id ==> s1.sockets.spec_get(other) == s0.sockets.spec_get(other)
        },
        GuestCall::HostGetTime { buf, now_bits } => f1 == f0 && s1 == s0
            && if !s0.spec_in_step() {
            m1 == m0 && r == Err::<(), StubError>(StubError::Fault(FaultKind::NoContext))
        } else if !crate::guestmem::spec_in_bounds(m0.len(), buf, 8) {
            m1 == m0 && r == Err::<(), StubError>(StubError::Trap(TrapKind::OutOfBounds))
        } else {
            m1 == crate::guestmem::spec_written(
                m0,
                buf,
                vstd::bytes::spec_u64_to_le_bytes(now_bits),
            ) && r is Ok
        },
        GuestCall::HostGetStylesheet { addr } => f1 == f0 && s1 == s0
            && if !s0.spec_in_step() {
            m1 == m0 && r == Err::<(), StubError>(StubError::Fault(FaultKind::NoContext))
        } else {
            let record = crate::wire::spec_encode_stylesheet(s0.step_context->Some_0.stylesheet);
            if !crate::guestmem::spec_in_bounds(m0.len(), addr, record.len()) {
                m1 == m0 && r == Err::<(), StubError>(StubError::Trap(TrapKind::OutOfBounds))
            } else {
                m1 == crate::guestmem::spec_written(m0, addr, record) && r is Ok
            }
        },
        GuestCall::HostGetConsumedFuel { addr } => f1 == f0 && s1 == s0
            && if !s0.spec_in_step() {
            m1 == m0 && r == Err::<(), StubError>(StubError::Fault(FaultKind::NoContext))
        } else if !crate::guestmem::spec_in_bounds(m0.len(), addr, 8) {
            m1 == m0 && r == Err::<(), StubError>(StubError::Trap(TrapKind::OutOfBounds))
        } else {
            m1 == crate::guestmem::spec_written(
                m0,
                addr,
                vstd::bytes::spec_u64_to_le_bytes((s0.fuel_budget - f0) as u64),
            ) && r is Ok
        },
        GuestCall::HostSaveTiming { key_addr, key_len, consumed_addr } => f1 == f0 && m1 == m0
            && if !crate::guestmem::spec_in_bounds(m0.len(), key_addr, key_len as nat) {
            s1 == s0 && r == Err::<(), StubError>(StubError::Trap(TrapKind::OutOfBounds))
        } else {
            let key = m0.subrange(key_addr as int, key_addr + key_len);
            if !crate::utf8::spec_valid_utf8(key) {
                s1 == s0 && r == Err::<(), StubError>(StubError::Fault(FaultKind::InvalidUtf8))
            } else if !crate::guestmem::spec_in_bounds(m0.len(), consumed_addr, 8) {
                s1 == s0 && r == Err::<(), StubError>(StubError::Trap(TrapKind::OutOfBounds))
            } else if !s0.spec_in_step() {
                s1 == s0 && r == Err::<(), StubError>(StubError::Fault(FaultKind::NoContext))
            } else {
                let consumed = vstd::bytes::spec_u64_from_le_bytes(
                    m0.subrange(consumed_addr as int, consumed_addr + 8),
                );
                let c0 = s0.step_context->Some_0;
                &&& r is Ok
                &&& s1 == (StoreData { step_context: s1.step_context, ..s0 })
                &&& s1.step_context matches Some(c1) && c1.input_state == c0.input_state
                    && c1.win_rect == c0.win_rect && c1.stylesheet == c0.stylesheet
                    && c1.timings@.len() == c0.timings@.len() + 1 && c1.timings@.drop_last()
                    == c0.timings@ && c1.timings@.last().0@ == key && c1.timings@.last().1
                    == consumed
            }
        },
        GuestCall::HostQemuDump { addr, len } => f1 == f0 && s1 == s0 && m1 == m0
            && if !s0.spec_in_step() {
            r == Err::<(), StubError>(StubError::Fault(FaultKind::NoContext))
        } else if !crate::guestmem::spec_in_bounds(m0.len(), addr, len as nat) {
            r == Err::<(), StubError>(StubError::Trap(TrapKind::OutOfBounds))
        } else {
            r is Ok
        },
        GuestCall::WasiStub { stub } => f1 == f0 && s1 == s0 && m1 == m0 && r == (
        match crate::abi::spec_wasi_stub_behavior(stub) {
            crate::abi::StubBehavior::Unimplemented => Err::<(), StubError>(
                StubError::Trap(TrapKind::Unimplemented),
            ),
            _ => Ok::<(), StubError>(()),
        }),
        GuestCall::GuestWork { cost } => s1 == s0 && m1 == m0 && if cost <= f0 {
            f1 == f0 - cost && r is Ok
        } else {
            f1 == 0 && r == Err::<(), StubError>(StubError::Trap(TrapKind::FuelExhausted))
        },
        GuestCall::GuestWriteMem { addr, bytes } => f1 == f0 && s1 == s0
            && if !crate::guestmem::spec_in_bounds(m0.len(), addr, bytes@.len()) {
            m1 == m0 && r == Err::<(), StubError>(StubError::Trap(TrapKind::OutOfBounds))
        } else {
            m1 == crate::guestmem::spec_written(m0, addr, bytes@) && r is Ok
        },
    }
}


/// The effect of running a call sequence in order: each call advances the
/// state by [`call_transition`]; the first failing call ends the run with
/// its error and the state it left, and later calls do not run. An empty
/// or fully successful run ends with `Ok`.
pub open spec fn spec_run_calls(
    s0: StoreData,
    m0: Seq<u8>,
    f0: u64,
    s1: StoreData,
    m1: Seq<u8>,
    f1: u64,
    calls: Seq<GuestCall>,
    r: Result<(), StubError>,
) -> bool
    decreases calls.len(),
{
    if calls.len() == 0 {
        s1 == s0 && m1 == m0 && f1 == f0 && r is Ok
    } else {
        exists|si: StoreData, mi: Seq<u8>, fi: u64, ri: Result<(), StubError>|
            {
                &&& #[trigger] call_transition(s0, m0, f0, si, mi, fi, calls[0], ri)
                &&& match ri {
                    Ok(_) => spec_run_calls(si, mi, fi, s1, m1, f1, calls.drop_first(), r),
                    Err(e) => s1 == si && m1 == mi && f1 == fi && r == Err::<(), StubError>(e),
                }
            }
    }
}

/// A successful run followed by one more call is the run over the extended
/// sequence, ending with that call's own outcome and state.
proof fn lemma_run_snoc(
    s0: StoreData,
    m0: Seq<u8>,
    f0: u64,
    sk: StoreData,
    mk: Seq<u8>,
    fk: u64,
    sn: StoreData,
    mn: Seq<u8>,
    fn_: u64,
    cs: Seq<GuestCall>,
    c: GuestCall,
    rc: Result<(), StubError>,
)
    requires
        spec_run_calls(s0, m0, f0, sk, mk, fk, cs, Ok::<(), StubError>(())),
        call_transition(sk, mk, fk, sn, mn, fn_, c, rc),
    ensures
        spec_run_calls(s0, m0, f0, sn, mn, fn_, cs.push(c), rc),
    decreases cs.len(),
{
    assert(cs.push(c)[0] == if cs.len() == 0 {
        c
    } else {
        cs[0]
    });
    assert(cs.push(c).drop_first() =~= if cs.len() == 0 {
        Seq::<GuestCall>::empty()
    } else {
        cs.drop_first().push(c)
    });
    if cs.len() == 0 {
        match rc {
            Ok(_) => {
                assert(spec_run_calls(sn, mn, fn_, sn, mn, fn_, cs.push(c).drop_first(), rc));
            },
            Err(e) => {},
        }
    } else {
        let (si, mi, fi, ri): (StoreData, Seq<u8>, u64, Result<(), StubError>) = choose|
            si: StoreData,
            mi: Seq<u8>,
            fi: u64,
            ri: Result<(), StubError>,
        |
            {
                &&& #[trigger] call_transition(s0, m0, f0, si, mi, fi, cs[0], ri)
                &&& match ri {
                    Ok(_) => spec_run_calls(
                        si,
                        mi,
                        fi,
                        sk,
                        mk,
                        fk,
                        cs.drop_first(),
                        Ok::<(), StubError>(()),
                    ),
                    Err(e) => sk == si && mk == mi && fk == fi && Ok::<(), StubError>(())
                        == Err::<(), StubError>(e),
                }
            };
        match ri {
            Ok(_) => {
                lemma_run_snoc(si, mi, fi, sk, mk, fk, sn, mn, fn_, cs.drop_first(), c, rc);
            },
            Err(e) => {},
        }
    }
}

/// A run that ended with an error is unchanged by whatever calls would
/// have followed: the error already stopped it.
proof fn lemma_run_err_extend(
    s0: StoreData,
    m0: Seq<u8>,
    f0: u64,
    s1: StoreData,
    m1: Seq<u8>,
    f1: u64,
    cs: Seq<GuestCall>,
    more: Seq<GuestCall>,
    r: Result<(), StubError>,
)
    requires
        spec_run_calls(s0, m0, f0, s1, m1, f1, cs, r),
        r is Err,
    ensures
        spec_run_calls(s0, m0, f0, s1, m1, f1, cs + more, r),
    decreases cs.len(),
{
    if cs.len() == 0 {
        assert(false);
    } else {
        assert((cs + more)[0] == cs[0]);
        assert((cs + more).drop_first() =~= cs.drop_first() + more);
        let (si, mi, fi, ri): (StoreData, Seq<u8>, u64, Result<(), StubError>) = choose|
            si: StoreData,
            mi: Seq<u8>,
            fi: u64,
            ri: Result<(), StubError>,
        |
            {
                &&& #[trigger] call_transition(s0, m0, f0, si, mi, fi, cs[0], ri)
                &&& match ri {
                    Ok(_) => spec_run_calls(si, mi, fi, s1, m1, f1, cs.drop_first(), r),
                    Err(e) => s1 == si && m1 == mi && f1 == fi && r == Err::<(), StubError>(e),
                }
            };
        match ri {
            Ok(_) => {
                lemma_run_err_extend(si, mi, fi, s1, m1, f1, cs.drop_first(), more, r);
            },
            Err(e) => {},
        }
    }
}

/// One guest instance: its store and the engine-side fuel gauge.
#[derive(Debug)]
pub struct WasmApp {
    /// The guest's long-lived store data.
    pub store: StoreData,
    /// Fuel left in the engine for the current step.
    pub fuel_remaining: u64,
}

impl WasmApp {
    /// Well-formed: the store invariant holds.
    pub open spec fn wf(self) -> bool {
        self.store.wf()
    }

    /// A freshly instantiated guest: empty store, no context, no fuel yet.
    pub fn new(app_name: &str) -> (r: WasmApp)
        ensures
            r.wf(),
            r.store.app_name@ == app_name@,
            r.store.framebuffer is None,
            r.store.step_context is None,
            r.store.console.version == 0,
            r.store.console.data@ =~= Seq::<u8>::empty(),
            r.store.sockets.next_id == 0,
            r.fuel_remaining == 0,
    {
        WasmApp { store: StoreData::new(app_name), fuel_remaining: 0 }
    }

    /// Opens a step: sets the fuel allowance, installs the step context and
    /// zeroes the per-step network counters.
    ///
    /// The allowance is fresh whatever the previous tick did — a trapped
    /// tick leaves no debt — which is what makes traps recoverable.
    pub fn begin_step(
        &mut self,
        input: InputState,
        win_rect: Rect,
        stylesheet: StyleSheet,
        budget: u64,
    )
        requires
            old(self).wf(),
        ensures
            final(self).wf(),
            final(self).fuel_remaining == budget,
            final(self).store == (StoreData {
                step_context: final(self).store.step_context,
                net_recv: 0u64,
                net_sent: 0u64,
                fuel_budget: budget,
                ..old(self).store
            }),
            final(self).store.step_context matches Some(ctx) && ctx.input_state == input
                && ctx.win_rect == win_rect && ctx.stylesheet == stylesheet && ctx.timings@
                =~= Seq::<(Vec<u8>, u64)>::empty(),
    {
        self.fuel_remaining = budget;
        self.store.fuel_budget = budget;
        self.store.net_recv = 0;
        self.store.net_sent = 0;
        self.store.step_context = Some(
            StepContext { input_state: input, win_rect, stylesheet, timings: Vec::new() },
        );
    }

    /// Closes a step: clears the step context on this exit path and records
    /// the stats point for the tick.
    ///
    /// The recorded fuel is exactly the budget minus what the engine
    /// reports as remaining; frametime is the clock difference; memory is
    /// the guest's current linear pages at 64 KiB each.
    pub fn end_step(&mut self, t0_ns: u64, t1_ns: u64, mem_pages: u64) -> (stats: AppDataPoint)
        requires
            old(self).wf(),
            old(self).fuel_remaining <= old(self).store.fuel_budget,
            t0_ns <= t1_ns,
            mem_pages <= 0xFFFF_FFFFu64,
        ensures
            final(self).wf(),
            final(self).store == (StoreData { step_context: None, ..old(self).store }),
            final(self).store.step_context is None,
            final(self).fuel_remaining == old(self).fuel_remaining,
            stats == (AppDataPoint {
                fuel: (old(self).store.fuel_budget - old(self).fuel_remaining) as u64,
                frametime_ns: (t1_ns - t0_ns) as u64,
                mem_used: (mem_pages * 65536) as u64,
                net_recv: old(self).store.net_recv,
                net_sent: old(self).store.net_sent,
            }),
    {
        self.store.step_context = None;
        AppDataPoint {
            fuel: self.store.fuel_budget - self.fuel_remaining,
            frametime_ns: t1_ns - t0_ns,
            mem_used: mem_pages * 65536,
            net_recv: self.store.net_recv,
            net_sent: self.store.net_sent,
        }
    }

    /// Resolves the guest's declared framebuffer region against its current
    /// linear memory: the region's bytes exactly, or `None` when no region
    /// is registered or the region is out of bounds at this moment, in
    /// which case the compositor skips the blit for this tick.
    pub fn get_framebuffer(&self, mem: &Vec<u8>) -> (r: Option<Vec<u8>>)
        ensures
            r is Some <==> (self.store.framebuffer matches Some(def) && spec_fb_in_bounds(
                def,
                mem@.len(),
            )),
            r matches Some(b) ==> {
                let def = self.store.framebuffer->Some_0;
                b@ =~= mem@.subrange(def.addr as int, def.addr + def.spec_byte_len())
            },
    {
        match &self.store.framebuffer {
            Some(def) => resolve_framebuffer(def, mem),
            None => None,
        }
    }

    /// The guest's captured console stream and its version token.
    pub fn get_console_output(&self) -> (r: &crate::console::Console)
        ensures
            r == self.store.console,
    {
        &self.store.console
    }
}

/// Copies a byte vector.
fn copy_bytes(src: &Vec<u8>) -> (r: Vec<u8>)
    ensures
        r@ =~= src@,
{
    let mut out: Vec<u8> = Vec::new();
    let n = src.len();
    let mut i: usize = 0;
    while i < n
        invariant
            i <= n,
            n == src@.len(),
            out@ =~= src@.take(i as int),
        decreases n - i,
    {
        out.push(src[i]);
        proof {
            assert(out@ =~= src@.take(i + 1));
        }
        i = i + 1;
    }
    proof {
        assert(out@ =~= src@);
    }
    out
}

/// Routes one guest ABI call to its stub, supplying the service values the
/// call carries, and meters guest-internal work against the fuel gauge.
///
/// The full per-call effect is [`call_transition`]. On top of it: the step
/// context slot is neither installed nor cleared here, so stubs run with a
/// context exactly when the step driver installed one, and with one
/// installed no call reports a missing context; the console version token
/// never decreases and grows by at most one; the socket id counter never
/// decreases and grows by at most one; the fuel gauge never grows.
pub fn dispatch_call(
    store: &mut StoreData,
    mem: &mut Vec<u8>,
    fuel_remaining: &mut u64,
    call: &GuestCall,
) -> (r: Result<(), StubError>)
    requires
        old(store).wf(),
        call_wf(*call),
        *old(fuel_remaining) <= old(store).fuel_budget,
    ensures
        final(store).sockets.wf(),
        final(store).step_context is Some <==> old(store).step_context is Some,
        old(store).spec_in_step() ==> r != Err::<(), StubError>(
            StubError::Fault(crate::fault::FaultKind::NoContext),
        ),
        old(store).console.version <= final(store).console.version <= old(store).console.version
            + 1,
        old(store).sockets.next_id <= final(store).sockets.next_id <= old(
            store,
        ).sockets.next_id + 1,
        final(store).fuel_budget == old(store).fuel_budget,
        final(store).app_name == old(store).app_name,
        *final(fuel_remaining) <= *old(fuel_remaining),
        final(mem)@.len() == old(mem)@.len(),
        call_transition(
            *old(store),
            old(mem)@,
            *old(fuel_remaining),
            *final(store),
            final(mem)@,
            *final(fuel_remaining),
            *call,
            r,
        ),
{
    let ghost s0 = *store;
    let ghost m0 = mem@;
    let ghost f0 = *fuel_remaining;
    let r: Result<(), StubError> = match call {
        GuestCall::ClockTimeGet { clock_id, precision, time_addr, now_ns } => {
            match stub_clock_time_get(store, mem, *now_ns, *clock_id, *precision, *time_addr) {
                Ok(_) => Ok(()),
                Err(e) => Err(e),
            }
        },
        GuestCall::RandomGet { buf, buf_len, rand } => {
            match crate::abi::stub_random_get(store, mem, rand, *buf, *buf_len) {
                Ok(_) => Ok(()),
                Err(e) => Err(e),
            }
        },
        GuestCall::EnvironSizesGet { count_addr, size_addr } => {
            match stub_environ_sizes_get(store, mem, *count_addr, *size_addr) {
                Ok(_) => Ok(()),
                Err(e) => Err(e),
            }
        },
        GuestCall::EnvironGet { environ, environ_buf } => {
            match stub_environ_get(store, mem, *environ, *environ_buf) {
                Ok(_) => Ok(()),
                Err(e) => Err(e),
            }
        },
        GuestCall::ArgsSizesGet { argc, argv_buf_size } => {
            match stub_args_sizes_get(store, mem, *argc, *argv_buf_size) {
                Ok(_) => Ok(()),
                Err(e) => Err(e),
            }
        },
        GuestCall::FdWrite { fd, iovs, iovs_len, nwritten } => {
            match stub_fd_write(store, mem, *fd, *iovs, *iovs_len, *nwritten) {
                Ok(_) => Ok(()),
                Err(e) => Err(e),
            }
        },
        GuestCall::HostLog { addr, len, level } => {
            match stub_host_log(store, mem, *addr, *len, *level) {
                Ok(_) => Ok(()),
                Err(e) => Err(e),
            }
        },
        GuestCall::HostGetInputState { addr } => {
            match stub_host_get_input_state(store, mem, *addr) {
                Ok(_) => Ok(()),
                Err(e) => Err(e),
            }
        },
        GuestCall::HostGetWinRect { addr } => {
            match stub_host_get_win_rect(store, mem, *addr) {
                Ok(_) => Ok(()),
                Err(e) => Err(e),
            }
        },
        GuestCall::HostSetFramebuffer { addr, w, h } => {
            match stub_host_set_framebuffer(store, *addr, *w, *h) {
                Ok(()) => Ok(()),
                Err(e) => Err(e),
            }
        },
        GuestCall::HostTcpConnect { ip, port, stack_reply } => {
            match crate::abi::stub_host_tcp_connect_request(*ip, *port) {
                Ok(_) => {
                    // Ids are never reused, so a registry whose counter is
                    // spent cannot file another socket.
                    if store.sockets.next_id == i32::MAX {
                        Err(StubError::Trap(TrapKind::InvalidArgument))
                    } else {
                        match stub_host_tcp_connect(store, *stack_reply) {
                            Ok(_) => Ok(()),
                            Err(e) => Err(e),
                        }
                    }
                },
                Err(e) => Err(e),
            }
        },
        GuestCall::HostTcpMaySend { id, stack_reply } => {
            match stub_host_tcp_may_send(store, *id, *stack_reply) {
                Ok(_) => Ok(()),
                Err(e) => Err(e),
            }
        },
        GuestCall::HostTcpMayRecv { id, stack_reply } => {
            match stub_host_tcp_may_recv(store, *id, *stack_reply) {
                Ok(_) => Ok(()),
                Err(e) => Err(e),
            }
        },
        GuestCall::HostTcpWrite { addr, len, id, stack_reply } => {
            match stub_host_tcp_write(store, mem, *addr, *len, *id, *stack_reply) {
                Ok(_) => Ok(()),
                Err(e) => Err(e),
            }
        },
        GuestCall::HostTcpRead { addr, len, id, stack_reply } => {
            let reply: Option<Vec<u8>> = match stack_reply {
                Some(d) => Some(copy_bytes(d)),
                None => None,
            };
            match stub_host_tcp_read(store, mem, *addr, *len, *id, reply) {
                Ok(_) => Ok(()),
                Err(e) => Err(e),
            }
        },
        GuestCall::HostTcpClose { id } => {
            match stub_host_tcp_close(store, *id) {
                Ok(_) => Ok(()),
                Err(e) => Err(e),
            }
        },
        GuestCall::HostGetTime { buf, now_bits } => {
            match stub_host_get_time(store, mem, *now_bits, *buf) {
                Ok(_) => Ok(()),
                Err(e) => Err(e),
            }
        },
        GuestCall::HostGetStylesheet { addr } => {
            match stub_host_get_stylesheet(store, mem, *addr) {
                Ok(_) => Ok(()),
                Err(e) => Err(e),
            }
        },
        GuestCall::HostGetConsumedFuel { addr } => {
            match stub_host_get_consumed_fuel(store, mem, *fuel_remaining, *addr) {
                Ok(_) => Ok(()),
                Err(e) => Err(e),
            }
        },
        GuestCall::HostSaveTiming { key_addr, key_len, consumed_addr } => {
            match stub_host_save_timing(store, mem, *key_addr, *key_len, *consumed_addr) {
                Ok(_) => Ok(()),
                Err(e) => Err(e),
            }
        },
        GuestCall::HostQemuDump { addr, len } => {
            match stub_host_qemu_dump(store, mem, *addr, *len) {
                Ok(_) => Ok(()),
                Err(e) => Err(e),
            }
        },
        GuestCall::WasiStub { stub } => {
            match run_wasi_stub(stub) {
                Ok(_) => Ok(()),
                Err(e) => Err(e),
            }
        },
        GuestCall::GuestWork { cost } => {
            if *cost <= *fuel_remaining {
                *fuel_remaining = *fuel_remaining - *cost;
                Ok(())
            } else {
                *fuel_remaining = 0;
                Err(StubError::Trap(TrapKind::FuelExhausted))
            }
        },
        GuestCall::GuestWriteMem { addr, bytes } => {
            match write_bytes(mem, *addr, bytes) {
                Ok(()) => Ok(()),
                Err(t) => Err(StubError::Trap(t)),
            }
        },
    };
    proof {
        assert(call_transition(s0, m0, f0, *store, mem@, *fuel_remaining, *call, r)) by {
            reveal(call_transition);
        }
    }
    r
}

impl WasmApp {
    /// One tick of this guest, per the scheduler's algorithm: derive the
    /// window-local input snapshot, open the step, run the guest's calls
    /// unless paused, close the step on every exit path and record the
    /// stats point.
    ///
    /// Unless paused, the tick is exactly the fold of the per-call effects
    /// over the supplied calls ([`spec_run_calls`]), started from the
    /// freshly opened state: full fuel gauge, zeroed network counters and
    /// a context holding the window-local input snapshot. The outcome is
    /// `Ok` when every call succeeded and the first failing call's error
    /// otherwise; the first trap ends the step. The guest stays well-formed
    /// and the next tick opens with a fresh budget. The recorded fuel
    /// equals the budget minus the fuel remaining after the step.
    pub fn step(
        &mut self,
        mem: &mut Vec<u8>,
        global_input: &InputState,
        win_rect: &Rect,
        stylesheet: StyleSheet,
        is_foreground: bool,
        is_paused: bool,
        budget: u64,
        t0_ns: u64,
        t1_ns: u64,
        mem_pages: u64,
        calls: &Vec<GuestCall>,
    ) -> (r: (AppDataPoint, Result<(), StubError>))
        requires
            old(self).wf(),
            old(self).store.console.version + calls@.len() < u64::MAX,
            old(self).store.sockets.next_id + calls@.len() <= i32::MAX,
            forall|i: int| 0 <= i < calls@.len() ==> call_wf(#[trigger] calls@[i]),
            t0_ns <= t1_ns,
            mem_pages <= 0xFFFF_FFFFu64,
        ensures
            final(self).wf(),
            final(self).store.step_context is None,
            r.0.fuel == final(self).store.fuel_budget - final(self).fuel_remaining,
            final(self).store.fuel_budget == budget,
            final(self).fuel_remaining <= budget,
            r.0.frametime_ns == t1_ns - t0_ns,
            r.0.mem_used == mem_pages * 65536,
            r.0.net_recv == final(self).store.net_recv,
            r.0.net_sent == final(self).store.net_sent,
            old(self).store.console.version <= final(self).store.console.version,
            old(self).store.sockets.next_id <= final(self).store.sockets.next_id,
            is_paused ==> r.1 is Ok && final(self).fuel_remaining == budget && r.0.fuel == 0
                && final(mem)@ =~= old(mem)@,
            is_paused ==> final(self).store == (StoreData {
                step_context: None,
                net_recv: 0u64,
                net_sent: 0u64,
                fuel_budget: budget,
                ..old(self).store
            }),
            calls@.len() == 0 ==> r.1 is Ok,
            r.1 is Err ==> !is_paused && calls@.len() > 0,
            final(mem)@.len() == old(mem)@.len(),
            !is_paused ==> exists|s_begin: StoreData, s_end: StoreData|
                {
                    &&& s_begin == (StoreData {
                        step_context: s_begin.step_context,
                        net_recv: 0u64,
                        net_sent: 0u64,
                        fuel_budget: budget,
                        ..old(self).store
                    })
                    &&& s_begin.step_context matches Some(ctx) && ctx.win_rect == *win_rect
                        && ctx.stylesheet == stylesheet && ctx.timings@ == Seq::<(
                        Vec<u8>,
                        u64,
                    )>::empty() && ctx.input_state.pointer == spec_local_input(
                        *global_input,
                        *win_rect,
                        is_foreground,
                    ).0 && ctx.input_state.events@ == spec_local_input(
                        *global_input,
                        *win_rect,
                        is_foreground,
                    ).1
                    &&& #[trigger] spec_run_calls(
                        s_begin,
                        old(mem)@,
                        budget,
                        s_end,
                        final(mem)@,
                        final(self).fuel_remaining,
                        calls@,
                        r.1,
                    )
                    &&& final(self).store == (StoreData { step_context: None, ..s_end })
                },
    {
        let local_input = make_local_input(global_input, win_rect, is_foreground);
        self.begin_step(local_input, *win_rect, stylesheet, budget);
        let ghost s_begin = self.store;
        let ghost m_begin = mem@;
        let mut outcome: Result<(), StubError> = Ok(());
        proof {
            assert(spec_run_calls(
                s_begin,
                m_begin,
                budget,
                self.store,
                mem@,
                self.fuel_remaining,
                calls@.take(0),
                Ok::<(), StubError>(()),
            ));
        }
        if !is_paused {
            let n = calls.len();
            let mut i: usize = 0;
            let mut stopped = false;
            while i < n && !stopped
                invariant
                    i <= n,
                    n == calls@.len(),
                    old(self).store.console.version + n < u64::MAX,
                    old(self).store.sockets.next_id + n <= i32::MAX,
                    self.store.wf(),
                    self.store.step_context is Some,
                    self.fuel_remaining <= self.store.fuel_budget,
                    self.store.fuel_budget == budget,
                    old(self).store.console.version <= self.store.console.version <= old(
                        self,
                    ).store.console.version + i,
                    old(self).store.sockets.next_id <= self.store.sockets.next_id <= old(
                        self,
                    ).store.sockets.next_id + i,
                    mem@.len() == old(mem)@.len(),
                    m_begin == old(mem)@,
                    forall|k: int| 0 <= k < n ==> call_wf(#[trigger] calls@[k]),
                    !stopped ==> outcome is Ok,
                    stopped ==> outcome is Err,
                    i == 0 ==> !stopped && outcome is Ok,
                    stopped ==> i > 0,
                    spec_run_calls(
                        s_begin,
                        m_begin,
                        budget,
                        self.store,
                        mem@,
                        self.fuel_remaining,
                        calls@.take(i as int),
                        outcome,
                    ),
                decreases n - i,
            {
                let ghost ps = self.store;
                let ghost pm = mem@;
                let ghost pf = self.fuel_remaining;
                proof {
                    match outcome {
                        Ok(u) => {
                            assert(u == ());
                            assert(outcome == Ok::<(), StubError>(()));
                        },
                        Err(_) => {
                            assert(false);
                        },
                    }
                }
                let res = dispatch_call(&mut self.store, mem, &mut self.fuel_remaining, &calls[i]);
                proof {
                    lemma_run_snoc(
                        s_begin,
                        m_begin,
                        budget,
                        ps,
                        pm,
                        pf,
                        self.store,
                        mem@,
                        self.fuel_remaining,
                        calls@.take(i as int),
                        calls@[i as int],
                        res,
                    );
                    assert(calls@.take(i as int).push(calls@[i as int]) =~= calls@.take(i + 1));
                    assert(calls@.take(i as int).push(calls@[i as int]) == calls@.take(i + 1));
                }
                match res {
                    Ok(u) => {
                        proof {
                            assert(u == ());
                            assert(res == Ok::<(), StubError>(()));
                            assert(res == outcome);
                        }
                    },
                    Err(e) => {
                        outcome = Err(e);
                        stopped = true;
                    },
                }
                i = i + 1;
            }
            proof {
                if stopped {
                    lemma_run_err_extend(
                        s_begin,
                        m_begin,
                        budget,
                        self.store,
                        mem@,
                        self.fuel_remaining,
                        calls@.take(i as int),
                        calls@.skip(i as int),
                        outcome,
                    );
                    assert(calls@.take(i as int) + calls@.skip(i as int) =~= calls@);
                } else {
                    assert(calls@.take(n as int) =~= calls@);
                }
                assert(spec_run_calls(
                    s_begin,
                    m_begin,
                    budget,
                    self.store,
                    mem@,
                    self.fuel_remaining,
                    calls@,
                    outcome,
                ));
            }
        }
        let ghost s_end = self.store;
        let stats = self.end_step(t0_ns, t1_ns, mem_pages);
        (stats, outcome)
    }
}

} // verus!
