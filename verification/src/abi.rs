//! The ABI stub table.
//!
//! A fixed, documented set of host functions is linked into every guest
//! module under two namespaces: a portable systems subset and the
//! host-specific `env` namespace. Each stub here is a function over the
//! guest's store, its linear memory, and the plain values the kernel
//! services of this tick supplied; the WASM engine adapter calls them when
//! guest code invokes the imported name.
//!
//! Convention: every stub whose return value carries success or failure uses
//! a non-negative value for success and -1 for failure. A fault the guest
//! caused surfaces a [`TrapKind`], which the engine adapter turns into a
//! WASM trap; host bugs surface a [`FaultKind`], on which the kernel
//! aborts.

use vstd::prelude::*;

use crate::console::Console;
use crate::fault::{FaultKind, StubError, TrapKind};
use crate::guestmem::{
    read_bytes, spec_in_bounds, spec_written, write_bytes, write_u32, write_u64,
};
use crate::store::{spec_timing_get, StoreData, WasmFramebufferDef};
use crate::utf8::{check_utf8, spec_trim_end, spec_valid_utf8, trim_end};
use crate::wire::{
    encode_input_state, encode_rect, encode_stylesheet, spec_encode_input, spec_encode_rect,
    spec_encode_stylesheet,
};

verus! {

/// Host log levels, ordered from most to least severe.
#[derive(Clone, Copy, PartialEq, Eq, Structural, Debug)]
pub enum LogLevel {
    Error,
    Warn,
    Info,
    Debug,
    Trace,
}

/// The level a guest-supplied integer selects: 1 is error, 2 warn, 3 info,
/// 4 debug, anything else trace.
pub open spec fn spec_log_level(level: i32) -> LogLevel {
    if level == 1 {
        LogLevel::Error
    } else if level == 2 {
        LogLevel::Warn
    } else if level == 3 {
        LogLevel::Info
    } else if level == 4 {
        LogLevel::Debug
    } else {
        LogLevel::Trace
    }
}

/// Appends a guest message to the console stream, newline-terminated, and
/// selects the host log level for it.
///
/// The console version token increases by exactly one.
pub fn log_message(msg: &Vec<u8>, level: i32, console: &mut Console) -> (lvl: LogLevel)
    requires
        old(console).version < u64::MAX,
    ensures
        final(console).data@ =~= old(console).data@ + msg@ + seq![10u8],
        final(console).version == old(console).version + 1,
        lvl == spec_log_level(level),
{
    let mut line: Vec<u8> = Vec::new();
    let mut i: usize = 0;
    let n = msg.len();
    while i < n
        invariant
            i <= n,
            n == msg@.len(),
            line@ =~= msg@.take(i as int),
        decreases n - i,
    {
        line.push(msg[i]);
        proof {
            assert(line@ =~= msg@.take(i + 1));
        }
        i = i + 1;
    }
    proof {
        assert(line@ =~= msg@);
    }
    line.push(10);
    console.append(&line);
    if level == 1 {
        LogLevel::Error
    } else if level == 2 {
        LogLevel::Warn
    } else if level == 3 {
        LogLevel::Info
    } else if level == 4 {
        LogLevel::Debug
    } else {
        LogLevel::Trace
    }
}

/// The WASI-shaped imports that are present only as stubs.
#[derive(Clone, Copy, PartialEq, Eq, Structural, Debug)]
pub enum WasiStubKind {
    FdFilestatSetSize,
    FdRead,
    FdReaddir,
    PathCreateDirectory,
    PathFilestatGet,
    PathLink,
    PathOpen,
    PathReadlink,
    PathRemoveDirectory,
    PathRename,
    PathUnlinkFile,
    PollOneoff,
    SchedYield,
    FdClose,
    FdFilestatGet,
    FdPrestatDirName,
    FdSync,
    PathFilestatSetTimes,
    FdFdstatSetFlags,
    MainArgcArgv,
    ArgsGet,
    ProcExit,
    FdFdstatGet,
    FdSeek,
    FdPrestatGet,
}

/// What a stubbed import does when called: trap as unimplemented, return a
/// fixed errno, or return nothing and do nothing.
#[derive(Clone, Copy, PartialEq, Eq, Structural, Debug)]
pub enum StubBehavior {
    /// Dangerous to fake: calling it traps the guest.
    Unimplemented,
    /// Benign: the call returns this errno and has no effect.
    FixedErrno(i32),
    /// Benign: the call returns nothing and has no effect.
    Ignored,
}

/// The errno a benign stub hands back: 0 for success, 8 for a bad file
/// descriptor.
pub open spec fn spec_wasi_stub_behavior(kind: WasiStubKind) -> StubBehavior {
    match kind {
        WasiStubKind::ArgsGet => StubBehavior::FixedErrno(0i32),
        WasiStubKind::ProcExit => StubBehavior::Ignored,
        WasiStubKind::FdFdstatGet => StubBehavior::FixedErrno(8i32),
        WasiStubKind::FdSeek => StubBehavior::FixedErrno(8i32),
        WasiStubKind::FdPrestatGet => StubBehavior::FixedErrno(8i32),
        _ => StubBehavior::Unimplemented,
    }
}

/// The policy for one stubbed import; see [`spec_wasi_stub_behavior`].
pub fn wasi_stub_behavior(kind: &WasiStubKind) -> (b: StubBehavior)
    ensures
        b == spec_wasi_stub_behavior(*kind),
{
    match kind {
        WasiStubKind::ArgsGet => StubBehavior::FixedErrno(0),
        WasiStubKind::ProcExit => StubBehavior::Ignored,
        WasiStubKind::FdFdstatGet => StubBehavior::FixedErrno(8),
        WasiStubKind::FdSeek => StubBehavior::FixedErrno(8),
        WasiStubKind::FdPrestatGet => StubBehavior::FixedErrno(8),
        _ => StubBehavior::Unimplemented,
    }
}

/// Runs a stubbed import: traps when the stub is unimplemented, otherwise
/// returns its fixed errno (0 standing in for the unit-returning ones).
pub fn run_wasi_stub(kind: &WasiStubKind) -> (r: Result<i32, StubError>)
    ensures
        r == match spec_wasi_stub_behavior(*kind) {
            StubBehavior::Unimplemented => Err::<i32, StubError>(
                StubError::Trap(TrapKind::Unimplemented),
            ),
            StubBehavior::FixedErrno(e) => Ok::<i32, StubError>(e),
            StubBehavior::Ignored => Ok::<i32, StubError>(0i32),
        },
{
    match wasi_stub_behavior(kind) {
        StubBehavior::Unimplemented => Err(StubError::Trap(TrapKind::Unimplemented)),
        StubBehavior::FixedErrno(e) => Ok(e),
        StubBehavior::Ignored => Ok(0),
    }
}

/// The virtual process environment: the bytes of its single entry,
/// `RUST_BACKTRACE=full`, without terminator.
pub open spec fn spec_env_var() -> Seq<u8> {
    seq![
        82u8, 85u8, 83u8, 84u8, 95u8, 66u8, 65u8, 67u8, 75u8, 84u8, 82u8, 65u8, 67u8, 69u8, 61u8,
        102u8, 117u8, 108u8, 108u8,
    ]
}

/// The bytes of the single environment entry, `RUST_BACKTRACE=full`.
pub fn env_var_bytes() -> (r: Vec<u8>)
    ensures
        r@ =~= spec_env_var(),
        r@.len() == 19,
{
    let mut v: Vec<u8> = Vec::new();
    v.push(82);
    v.push(85);
    v.push(83);
    v.push(84);
    v.push(95);
    v.push(66);
    v.push(65);
    v.push(67);
    v.push(75);
    v.push(84);
    v.push(82);
    v.push(65);
    v.push(67);
    v.push(69);
    v.push(61);
    v.push(102);
    v.push(117);
    v.push(108);
    v.push(108);
    v
}

/// `clock_time_get`: writes the current wall clock, in nanoseconds as an
/// unsigned little-endian 64-bit value, at `time_addr`, and returns 0.
///
/// `now_ns` is the clock provider's reading for this call. The clock id and
/// precision arguments are accepted and ignored. An out-of-range destination
/// traps; the store is never changed.
pub fn stub_clock_time_get(
    store: &mut StoreData,
    mem: &mut Vec<u8>,
    now_ns: u64,
    clock_id: u32,
    precision: u64,
    time_addr: u32,
) -> (r: Result<i32, StubError>)
    ensures
        *final(store) == *old(store),
        final(mem)@.len() == old(mem)@.len(),
        !old(store).spec_in_step() ==> r == Err::<i32, StubError>(
            StubError::Fault(FaultKind::NoContext),
        ) && final(mem)@ =~= old(mem)@,
        old(store).spec_in_step() && !spec_in_bounds(old(mem)@.len(), time_addr, 8) ==> r == Err::<
            i32,
            StubError,
        >(StubError::Trap(TrapKind::OutOfBounds)) && final(mem)@ =~= old(mem)@,
        old(store).spec_in_step() && spec_in_bounds(old(mem)@.len(), time_addr, 8) ==> r == Ok::<
            i32,
            StubError,
        >(0i32) && final(mem)@ =~= spec_written(
            old(mem)@,
            time_addr,
            vstd::bytes::spec_u64_to_le_bytes(now_ns),
        ),
{
    if store.step_context.is_none() {
        return Err(StubError::Fault(FaultKind::NoContext));
    }
    let _ = clock_id;
    let _ = precision;
    match write_u64(mem, time_addr, now_ns) {
        Ok(()) => Ok(0),
        Err(t) => Err(StubError::Trap(t)),
    }
}

/// `random_get`: fills `buf_len` guest bytes at `buf` with the bytes the
/// RNG provider supplied for this call, and returns 0.
///
/// Nothing is assumed about the random bytes themselves beyond their
/// length. An out-of-range destination traps; the store is never changed.
pub fn stub_random_get(
    store: &mut StoreData,
    mem: &mut Vec<u8>,
    rand: &Vec<u8>,
    buf: u32,
    buf_len: u32,
) -> (r: Result<i32, StubError>)
    requires
        rand@.len() == buf_len,
    ensures
        *final(store) == *old(store),
        final(mem)@.len() == old(mem)@.len(),
        !old(store).spec_in_step() ==> r == Err::<i32, StubError>(
            StubError::Fault(FaultKind::NoContext),
        ) && final(mem)@ =~= old(mem)@,
        old(store).spec_in_step() && !spec_in_bounds(old(mem)@.len(), buf, buf_len as nat) ==> r
            == Err::<i32, StubError>(StubError::Trap(TrapKind::OutOfBounds)) && final(mem)@ =~= old(
            mem,
        )@,
        old(store).spec_in_step() && spec_in_bounds(old(mem)@.len(), buf, buf_len as nat) ==> r
            == Ok::<i32, StubError>(0i32) && final(mem)@ =~= spec_written(old(mem)@, buf, rand@),
{
    if store.step_context.is_none() {
        return Err(StubError::Fault(FaultKind::NoContext));
    }
    match write_bytes(mem, buf, rand) {
        Ok(()) => Ok(0),
        Err(t) => Err(StubError::Trap(t)),
    }
}

/// `environ_sizes_get`: writes the entry count (1) at `environ_count` and
/// the byte size of the environment block (20, one entry plus its
/// terminator) at `environ_buf_size`, and returns 0.
///
/// Runs only under an installed step context, like every stub. Writes
/// happen in the stated order; a trap after the first write leaves it in
/// place, as the engine keeps memory effects of a trapped call.
pub fn stub_environ_sizes_get(
    store: &mut StoreData,
    mem: &mut Vec<u8>,
    environ_count: u32,
    environ_buf_size: u32,
) -> (r: Result<i32, StubError>)
    ensures
        *final(store) == *old(store),
        final(mem)@.len() == old(mem)@.len(),
        !old(store).spec_in_step() ==> r == Err::<i32, StubError>(
            StubError::Fault(FaultKind::NoContext),
        ) && final(mem)@ =~= old(mem)@,
        old(store).spec_in_step() && !spec_in_bounds(old(mem)@.len(), environ_count, 4) ==> r
            == Err::<i32, StubError>(StubError::Trap(TrapKind::OutOfBounds)) && final(mem)@
            =~= old(mem)@,
        old(store).spec_in_step() && spec_in_bounds(old(mem)@.len(), environ_count, 4)
            && !spec_in_bounds(old(mem)@.len(), environ_buf_size, 4) ==> r == Err::<
            i32,
            StubError,
        >(StubError::Trap(TrapKind::OutOfBounds)) && final(mem)@ =~= spec_written(
            old(mem)@,
            environ_count,
            vstd::bytes::spec_u32_to_le_bytes(1u32),
        ),
        old(store).spec_in_step() && spec_in_bounds(old(mem)@.len(), environ_count, 4)
            && spec_in_bounds(old(mem)@.len(), environ_buf_size, 4) ==> r == Ok::<i32, StubError>(
            0i32,
        ) && final(mem)@ =~= spec_written(
            spec_written(old(mem)@, environ_count, vstd::bytes::spec_u32_to_le_bytes(1u32)),
            environ_buf_size,
            vstd::bytes::spec_u32_to_le_bytes(20u32),
        ),
{
    if store.step_context.is_none() {
        return Err(StubError::Fault(FaultKind::NoContext));
    }
    match write_u32(mem, environ_count, 1) {
        Ok(()) => {},
        Err(t) => {
            return Err(StubError::Trap(t));
        },
    }
    match write_u32(mem, environ_buf_size, 20) {
        Ok(()) => Ok(0),
        Err(t) => Err(StubError::Trap(t)),
    }
}

/// `environ_get`: writes the one-entry pointer table at `environ` (the
/// single pointer, `environ_buf`, as little-endian 32-bit) and the entry's
/// bytes plus a NUL terminator at `environ_buf`, and returns 0.
pub fn stub_environ_get(
    store: &mut StoreData,
    mem: &mut Vec<u8>,
    environ: u32,
    environ_buf: u32,
) -> (r: Result<i32, StubError>)
    ensures
        *final(store) == *old(store),
        final(mem)@.len() == old(mem)@.len(),
        !old(store).spec_in_step() ==> r == Err::<i32, StubError>(
            StubError::Fault(FaultKind::NoContext),
        ) && final(mem)@ =~= old(mem)@,
        old(store).spec_in_step() ==> {
            &&& r is Err ==> r == Err::<i32, StubError>(StubError::Trap(TrapKind::OutOfBounds))
            &&& r is Ok <==> spec_in_bounds(old(mem)@.len(), environ, 4) && spec_in_bounds(
                old(mem)@.len(),
                environ_buf,
                20,
            )
            &&& r is Ok ==> final(mem)@ =~= spec_written(
                spec_written(old(mem)@, environ, vstd::bytes::spec_u32_to_le_bytes(environ_buf)),
                environ_buf,
                spec_env_var() + seq![0u8],
            )
            &&& !spec_in_bounds(old(mem)@.len(), environ, 4) ==> final(mem)@ =~= old(mem)@
        },
{
    if store.step_context.is_none() {
        return Err(StubError::Fault(FaultKind::NoContext));
    }
    match write_u32(mem, environ, environ_buf) {
        Ok(()) => {},
        Err(t) => {
            return Err(StubError::Trap(t));
        },
    }
    let mut entry = env_var_bytes();
    entry.push(0);
    match write_bytes(mem, environ_buf, &entry) {
        Ok(()) => Ok(0),
        Err(t) => Err(StubError::Trap(t)),
    }
}

/// `args_sizes_get`: writes a zero argument count and a zero buffer size,
/// four zero bytes each, and returns 0.
pub fn stub_args_sizes_get(
    store: &mut StoreData,
    mem: &mut Vec<u8>,
    argc: u32,
    argv_buf_size: u32,
) -> (r: Result<i32, StubError>)
    ensures
        *final(store) == *old(store),
        final(mem)@.len() == old(mem)@.len(),
        !old(store).spec_in_step() ==> r == Err::<i32, StubError>(
            StubError::Fault(FaultKind::NoContext),
        ) && final(mem)@ =~= old(mem)@,
        old(store).spec_in_step() ==> {
            &&& r is Err ==> r == Err::<i32, StubError>(StubError::Trap(TrapKind::OutOfBounds))
            &&& r is Ok <==> spec_in_bounds(old(mem)@.len(), argc, 4) && spec_in_bounds(
                old(mem)@.len(),
                argv_buf_size,
                4,
            )
            &&& r is Ok ==> final(mem)@ =~= spec_written(
                spec_written(old(mem)@, argc, vstd::bytes::spec_u32_to_le_bytes(0u32)),
                argv_buf_size,
                vstd::bytes::spec_u32_to_le_bytes(0u32),
            )
            &&& !spec_in_bounds(old(mem)@.len(), argc, 4) ==> final(mem)@ =~= old(mem)@
        },
{
    if store.step_context.is_none() {
        return Err(StubError::Fault(FaultKind::NoContext));
    }
    match write_u32(mem, argc, 0) {
        Ok(()) => {},
        Err(t) => {
            return Err(StubError::Trap(t));
        },
    }
    match write_u32(mem, argv_buf_size, 0) {
        Ok(()) => Ok(0),
        Err(t) => Err(StubError::Trap(t)),
    }
}

/// The first scatter entry at `iovs`: a guest pointer and a byte length,
/// both little-endian 32-bit.
pub open spec fn spec_iov(mem: Seq<u8>, iovs: u32) -> (u32, u32) {
    (
        vstd::bytes::spec_u32_from_le_bytes(mem.subrange(iovs as int, iovs + 4)),
        vstd::bytes::spec_u32_from_le_bytes(mem.subrange(iovs + 4, iovs + 8)),
    )
}

/// `fd_write`: appends the bytes of the first scatter entry to the guest's
/// console stream, reports the byte count at `nwritten`, and returns 0.
///
/// Only the first entry is consumed; the file descriptor and the entry
/// count are accepted and ignored, as stdout is the only stream. The bytes
/// must be UTF-8: anything else is a host-invariant fault, not a trap. The
/// console version token increases by exactly one on success. The host also
/// emits the same bytes at debug level, which is outside this function.
pub fn stub_fd_write(
    store: &mut StoreData,
    mem: &mut Vec<u8>,
    fd: u32,
    iovs: u32,
    iovs_len: u32,
    nwritten: u32,
) -> (r: Result<i32, StubError>)
    requires
        old(store).wf(),
    ensures
        final(store).console.version <= old(store).console.version + 1,
        final(store).sockets == old(store).sockets,
        final(mem)@.len() == old(mem)@.len(),
        !old(store).spec_in_step() ==> r == Err::<i32, StubError>(
            StubError::Fault(FaultKind::NoContext),
        ) && final(mem)@ =~= old(mem)@ && *final(store) == *old(store),
        old(store).spec_in_step() && !spec_in_bounds(old(mem)@.len(), iovs, 8) ==> r == Err::<
            i32,
            StubError,
        >(StubError::Trap(TrapKind::OutOfBounds)) && final(mem)@ =~= old(mem)@ && *final(store)
            == *old(store),
        old(store).spec_in_step() && spec_in_bounds(old(mem)@.len(), iovs, 8) ==> {
            let (p, l) = spec_iov(old(mem)@, iovs);
            &&& !spec_in_bounds(old(mem)@.len(), p, l as nat) ==> r == Err::<i32, StubError>(
                StubError::Trap(TrapKind::OutOfBounds),
            ) && final(mem)@ =~= old(mem)@ && *final(store) == *old(store)
            &&& spec_in_bounds(old(mem)@.len(), p, l as nat) ==> {
                let data = old(mem)@.subrange(p as int, p + l);
                &&& !spec_valid_utf8(data) ==> r == Err::<i32, StubError>(
                    StubError::Fault(FaultKind::InvalidUtf8),
                ) && final(mem)@ =~= old(mem)@ && *final(store) == *old(store)
                &&& spec_valid_utf8(data) && !spec_in_bounds(old(mem)@.len(), nwritten, 4) ==> r
                    == Err::<i32, StubError>(StubError::Trap(TrapKind::OutOfBounds)) && final(mem)@
                    =~= old(mem)@ && *final(store) == *old(store)
                &&& spec_valid_utf8(data) && spec_in_bounds(old(mem)@.len(), nwritten, 4) ==> r
                    == Ok::<i32, StubError>(0i32) && final(mem)@ =~= spec_written(
                    old(mem)@,
                    nwritten,
                    vstd::bytes::spec_u32_to_le_bytes(l),
                ) && *final(store) == (StoreData {
                    console: final(store).console,
                    ..*old(store)
                }) && final(store).console.data@ =~= old(store).console.data@ + data
                    && final(store).console.version == old(store).console.version + 1
            }
        },
{
    let _ = fd;
    let _ = iovs_len;
    if store.step_context.is_none() {
        return Err(StubError::Fault(FaultKind::NoContext));
    }
    let header = match read_bytes(mem, iovs, 8) {
        Ok(h) => h,
        Err(t) => {
            return Err(StubError::Trap(t));
        },
    };
    proof {
        vstd::bytes::lemma_auto_spec_u32_to_from_le_bytes();
        assert(header@.subrange(0, 4) =~= mem@.subrange(iovs as int, iovs + 4));
        assert(header@.subrange(4, 8) =~= mem@.subrange(iovs + 4, iovs + 8));
    }
    let buf_ptr = vstd::bytes::u32_from_le_bytes(vstd::slice::slice_subrange(
        header.as_slice(),
        0,
        4,
    ));
    let buf_len = vstd::bytes::u32_from_le_bytes(vstd::slice::slice_subrange(
        header.as_slice(),
        4,
        8,
    ));
    let data = match read_bytes(mem, buf_ptr, buf_len as usize) {
        Ok(d) => d,
        Err(t) => {
            return Err(StubError::Trap(t));
        },
    };
    if !check_utf8(&data) {
        return Err(StubError::Fault(FaultKind::InvalidUtf8));
    }
    match write_u32(mem, nwritten, buf_len) {
        Ok(()) => {},
        Err(t) => {
            return Err(StubError::Trap(t));
        },
    }
    store.console.append(&data);
    Ok(0)
}

/// `host_log`: appends the guest's UTF-8 message, trailing whitespace
/// trimmed and a newline added, to the console stream, and hands the host
/// the trimmed bytes with the level to emit them at.
///
/// Requires an installed step context; a missing context or non-UTF-8 bytes
/// are host faults. The console version token increases by exactly one on
/// success.
pub fn stub_host_log(
    store: &mut StoreData,
    mem: &mut Vec<u8>,
    addr: u32,
    len: u32,
    level: i32,
) -> (r: Result<(LogLevel, Vec<u8>), StubError>)
    requires
        old(store).wf(),
    ensures
        final(store).console.version <= old(store).console.version + 1,
        final(store).sockets == old(store).sockets,
        final(mem)@ =~= old(mem)@,
        !spec_in_bounds(old(mem)@.len(), addr, len as nat) ==> r == Err::<
            (LogLevel, Vec<u8>),
            StubError,
        >(StubError::Trap(TrapKind::OutOfBounds)) && *final(store) == *old(store),
        spec_in_bounds(old(mem)@.len(), addr, len as nat) ==> {
            let data = old(mem)@.subrange(addr as int, addr + len);
            &&& !spec_valid_utf8(data) ==> r == Err::<(LogLevel, Vec<u8>), StubError>(
                StubError::Fault(FaultKind::InvalidUtf8),
            ) && *final(store) == *old(store)
            &&& spec_valid_utf8(data) && !old(store).spec_in_step() ==> r == Err::<
                (LogLevel, Vec<u8>),
                StubError,
            >(StubError::Fault(FaultKind::NoContext)) && *final(store) == *old(store)
            &&& spec_valid_utf8(data) && old(store).spec_in_step() ==> {
                let msg = spec_trim_end(data);
                &&& r matches Ok(out) && out.0 == spec_log_level(level) && out.1@ == msg
                &&& *final(store) == (StoreData { console: final(store).console, ..*old(store) })
                &&& final(store).console.data@ =~= old(store).console.data@ + msg + seq![10u8]
                &&& final(store).console.version == old(store).console.version + 1
            }
        },
{
    let data = match read_bytes(mem, addr, len as usize) {
        Ok(d) => d,
        Err(t) => {
            return Err(StubError::Trap(t));
        },
    };
    if !check_utf8(&data) {
        return Err(StubError::Fault(FaultKind::InvalidUtf8));
    }
    if store.step_context.is_none() {
        return Err(StubError::Fault(FaultKind::NoContext));
    }
    let msg = trim_end(&data);
    let lvl = log_message(&msg, level, &mut store.console);
    Ok((lvl, msg))
}

/// `host_get_input_state`: writes the window-local input snapshot of the
/// current step context, in its fixed 154-byte record, at `addr`.
pub fn stub_host_get_input_state(store: &mut StoreData, mem: &mut Vec<u8>, addr: u32) -> (r: Result<
    i32,
    StubError,
>)
    ensures
        *final(store) == *old(store),
        final(mem)@.len() == old(mem)@.len(),
        !old(store).spec_in_step() ==> r == Err::<i32, StubError>(
            StubError::Fault(FaultKind::NoContext),
        ) && final(mem)@ =~= old(mem)@,
        old(store).spec_in_step() ==> {
            let record = spec_encode_input(old(store).step_context->Some_0.input_state);
            &&& !spec_in_bounds(old(mem)@.len(), addr, record.len()) ==> r == Err::<
                i32,
                StubError,
            >(StubError::Trap(TrapKind::OutOfBounds)) && final(mem)@ =~= old(mem)@
            &&& spec_in_bounds(old(mem)@.len(), addr, record.len()) ==> r == Ok::<i32, StubError>(
                0i32,
            ) && final(mem)@ =~= spec_written(old(mem)@, addr, record)
        },
{
    let record = match &store.step_context {
        Some(ctx) => encode_input_state(&ctx.input_state),
        None => {
            return Err(StubError::Fault(FaultKind::NoContext));
        },
    };
    match write_bytes(mem, addr, &record) {
        Ok(()) => Ok(0),
        Err(t) => Err(StubError::Trap(t)),
    }
}

/// `host_get_win_rect`: writes the window rectangle of the current step
/// context, in its 24-byte record, at `addr`.
pub fn stub_host_get_win_rect(store: &mut StoreData, mem: &mut Vec<u8>, addr: u32) -> (r: Result<
    i32,
    StubError,
>)
    ensures
        *final(store) == *old(store),
        final(mem)@.len() == old(mem)@.len(),
        !old(store).spec_in_step() ==> r == Err::<i32, StubError>(
            StubError::Fault(FaultKind::NoContext),
        ) && final(mem)@ =~= old(mem)@,
        old(store).spec_in_step() ==> {
            let record = spec_encode_rect(old(store).step_context->Some_0.win_rect);
            &&& !spec_in_bounds(old(mem)@.len(), addr, record.len()) ==> r == Err::<
                i32,
                StubError,
            >(StubError::Trap(TrapKind::OutOfBounds)) && final(mem)@ =~= old(mem)@
            &&& spec_in_bounds(old(mem)@.len(), addr, record.len()) ==> r == Ok::<i32, StubError>(
                0i32,
            ) && final(mem)@ =~= spec_written(old(mem)@, addr, record)
        },
{
    let record = match &store.step_context {
        Some(ctx) => encode_rect(&ctx.win_rect),
        None => {
            return Err(StubError::Fault(FaultKind::NoContext));
        },
    };
    match write_bytes(mem, addr, &record) {
        Ok(()) => Ok(0),
        Err(t) => Err(StubError::Trap(t)),
    }
}

/// `host_get_stylesheet`: writes the active stylesheet of the current step
/// context, in its 16-byte record, at `addr`.
pub fn stub_host_get_stylesheet(store: &mut StoreData, mem: &mut Vec<u8>, addr: u32) -> (r: Result<
    i32,
    StubError,
>)
    ensures
        *final(store) == *old(store),
        final(mem)@.len() == old(mem)@.len(),
        !old(store).spec_in_step() ==> r == Err::<i32, StubError>(
            StubError::Fault(FaultKind::NoContext),
        ) && final(mem)@ =~= old(mem)@,
        old(store).spec_in_step() ==> {
            let record = spec_encode_stylesheet(old(store).step_context->Some_0.stylesheet);
            &&& !spec_in_bounds(old(mem)@.len(), addr, record.len()) ==> r == Err::<
                i32,
                StubError,
            >(StubError::Trap(TrapKind::OutOfBounds)) && final(mem)@ =~= old(mem)@
            &&& spec_in_bounds(old(mem)@.len(), addr, record.len()) ==> r == Ok::<i32, StubError>(
                0i32,
            ) && final(mem)@ =~= spec_written(old(mem)@, addr, record)
        },
{
    let record = match &store.step_context {
        Some(ctx) => encode_stylesheet(&ctx.stylesheet),
        None => {
            return Err(StubError::Fault(FaultKind::NoContext));
        },
    };
    match write_bytes(mem, addr, &record) {
        Ok(()) => Ok(0),
        Err(t) => Err(StubError::Trap(t)),
    }
}

/// `host_get_time`: writes the wall clock of this call at `buf`, as the
/// eight bytes of a little-endian 64-bit float the clock provider encoded.
pub fn stub_host_get_time(store: &mut StoreData, mem: &mut Vec<u8>, now_bits: u64, buf: u32) -> (r:
    Result<i32, StubError>)
    ensures
        *final(store) == *old(store),
        final(mem)@.len() == old(mem)@.len(),
        !old(store).spec_in_step() ==> r == Err::<i32, StubError>(
            StubError::Fault(FaultKind::NoContext),
        ) && final(mem)@ =~= old(mem)@,
        old(store).spec_in_step() && !spec_in_bounds(old(mem)@.len(), buf, 8) ==> r == Err::<
            i32,
            StubError,
        >(StubError::Trap(TrapKind::OutOfBounds)) && final(mem)@ =~= old(mem)@,
        old(store).spec_in_step() && spec_in_bounds(old(mem)@.len(), buf, 8) ==> r == Ok::<
            i32,
            StubError,
        >(0i32) && final(mem)@ =~= spec_written(
            old(mem)@,
            buf,
            vstd::bytes::spec_u64_to_le_bytes(now_bits),
        ),
{
    if store.step_context.is_none() {
        return Err(StubError::Fault(FaultKind::NoContext));
    }
    match write_u64(mem, buf, now_bits) {
        Ok(()) => Ok(0),
        Err(t) => Err(StubError::Trap(t)),
    }
}

/// `host_set_framebuffer`: records the declared framebuffer region. The
/// region is validated against the linear memory only when it is read.
pub fn stub_host_set_framebuffer(store: &mut StoreData, addr: u32, w: u32, h: u32) -> (r: Result<
    (),
    StubError,
>)
    ensures
        !old(store).spec_in_step() ==> r == Err::<(), StubError>(
            StubError::Fault(FaultKind::NoContext),
        ) && *final(store) == *old(store),
        old(store).spec_in_step() ==> r == Ok::<(), StubError>(()) && *final(store) == (StoreData {
            framebuffer: Some(WasmFramebufferDef { addr, w, h }),
            ..*old(store)
        }),
{
    if store.step_context.is_none() {
        return Err(StubError::Fault(FaultKind::NoContext));
    }
    store.framebuffer = Some(WasmFramebufferDef { addr, w, h });
    Ok(())
}

/// `host_get_consumed_fuel`: writes the fuel consumed since step start, the
/// budget minus what the engine reports as remaining, as a little-endian
/// 64-bit value at `consumed_addr`.
pub fn stub_host_get_consumed_fuel(
    store: &mut StoreData,
    mem: &mut Vec<u8>,
    remaining: u64,
    consumed_addr: u32,
) -> (r: Result<i32, StubError>)
    requires
        remaining <= old(store).fuel_budget,
    ensures
        *final(store) == *old(store),
        final(mem)@.len() == old(mem)@.len(),
        !old(store).spec_in_step() ==> r == Err::<i32, StubError>(
            StubError::Fault(FaultKind::NoContext),
        ) && final(mem)@ =~= old(mem)@,
        old(store).spec_in_step() && !spec_in_bounds(old(mem)@.len(), consumed_addr, 8) ==> r
            == Err::<i32, StubError>(StubError::Trap(TrapKind::OutOfBounds)) && final(mem)@
            =~= old(mem)@,
        old(store).spec_in_step() && spec_in_bounds(old(mem)@.len(), consumed_addr, 8) ==> r
            == Ok::<i32, StubError>(0i32) && final(mem)@ =~= spec_written(
            old(mem)@,
            consumed_addr,
            vstd::bytes::spec_u64_to_le_bytes((old(store).fuel_budget - remaining) as u64),
        ),
{
    if store.step_context.is_none() {
        return Err(StubError::Fault(FaultKind::NoContext));
    }
    let consumed = store.fuel_budget - remaining;
    match write_u64(mem, consumed_addr, consumed) {
        Ok(()) => Ok(0),
        Err(t) => Err(StubError::Trap(t)),
    }
}

/// `host_save_timing`: reads a UTF-8 key and a little-endian 64-bit fuel
/// figure out of guest memory and records the sample in the step context's
/// timings.
pub fn stub_host_save_timing(
    store: &mut StoreData,
    mem: &mut Vec<u8>,
    key_addr: u32,
    key_len: u32,
    consumed_addr: u32,
) -> (r: Result<i32, StubError>)
    ensures
        final(mem)@ =~= old(mem)@,
        !spec_in_bounds(old(mem)@.len(), key_addr, key_len as nat) ==> r == Err::<i32, StubError>(
            StubError::Trap(TrapKind::OutOfBounds),
        ) && *final(store) == *old(store),
        spec_in_bounds(old(mem)@.len(), key_addr, key_len as nat) ==> {
            let key = old(mem)@.subrange(key_addr as int, key_addr + key_len);
            &&& !spec_valid_utf8(key) ==> r == Err::<i32, StubError>(
                StubError::Fault(FaultKind::InvalidUtf8),
            ) && *final(store) == *old(store)
            &&& spec_valid_utf8(key) && !spec_in_bounds(old(mem)@.len(), consumed_addr, 8) ==> r
                == Err::<i32, StubError>(StubError::Trap(TrapKind::OutOfBounds)) && *final(store)
                == *old(store)
            &&& spec_valid_utf8(key) && spec_in_bounds(old(mem)@.len(), consumed_addr, 8)
                && !old(store).spec_in_step() ==> r == Err::<i32, StubError>(
                StubError::Fault(FaultKind::NoContext),
            ) && *final(store) == *old(store)
            &&& spec_valid_utf8(key) && spec_in_bounds(old(mem)@.len(), consumed_addr, 8) && old(
                store,
            ).spec_in_step() ==> {
                let consumed = vstd::bytes::spec_u64_from_le_bytes(
                    old(mem)@.subrange(consumed_addr as int, consumed_addr + 8),
                );
                let octx = old(store).step_context->Some_0;
                &&& r == Ok::<i32, StubError>(0i32)
                &&& *final(store) == (StoreData {
                    step_context: final(store).step_context,
                    ..*old(store)
                })
                &&& final(store).step_context matches Some(ctx) && ctx.input_state
                    == octx.input_state && ctx.win_rect == octx.win_rect && ctx.stylesheet
                    == octx.stylesheet && ctx.timings@.len() == octx.timings@.len() + 1
                    && ctx.timings@.drop_last() =~= octx.timings@ && ctx.timings@.last().0@ =~= key
                    && ctx.timings@.last().1 == consumed && spec_timing_get(ctx.timings@, key)
                    == Some(consumed)
            }
        },
{
    let key = match read_bytes(mem, key_addr, key_len as usize) {
        Ok(k) => k,
        Err(t) => {
            return Err(StubError::Trap(t));
        },
    };
    if !check_utf8(&key) {
        return Err(StubError::Fault(FaultKind::InvalidUtf8));
    }
    let consumed_bytes = match read_bytes(mem, consumed_addr, 8) {
        Ok(b) => b,
        Err(t) => {
            return Err(StubError::Trap(t));
        },
    };
    let consumed = vstd::bytes::u64_from_le_bytes(consumed_bytes.as_slice());
    match &mut store.step_context {
        Some(ctx) => {
            ctx.save_timing(key, consumed);
            Ok(0)
        },
        None => Err(StubError::Fault(FaultKind::NoContext)),
    }
}

/// An IPv4 address as its four octets, lowest-order byte of the guest's
/// little-endian 32-bit value first.
#[derive(Clone, Copy, PartialEq, Eq, Structural, Debug)]
pub struct Ipv4Octets {
    pub o0: u8,
    pub o1: u8,
    pub o2: u8,
    pub o3: u8,
}

/// `host_tcp_connect`, argument half: validates the guest's address and
/// port words and yields the address octets and port for the TCP stack.
///
/// The port must fit in 16 bits; anything else is a guest fault and
/// traps. The address word is split little-endian.
pub fn stub_host_tcp_connect_request(ip: i32, port: i32) -> (r: Result<
    (Ipv4Octets, u16),
    StubError,
>)
    ensures
        0 <= port <= 0xFFFF ==> (r matches Ok(out) && out.1 == port && out.0 == (Ipv4Octets {
            o0: ((ip as u32) % 256) as u8,
            o1: (((ip as u32) / 256) % 256) as u8,
            o2: (((ip as u32) / 65536) % 256) as u8,
            o3: ((ip as u32) / 16777216) as u8,
        })),
        !(0 <= port <= 0xFFFF) ==> r == Err::<(Ipv4Octets, u16), StubError>(
            StubError::Trap(TrapKind::InvalidArgument),
        ),
{
    if port < 0 || port > 0xFFFF {
        return Err(StubError::Trap(TrapKind::InvalidArgument));
    }
    let u = #[verifier::truncate] (ip as u32);
    let octets = Ipv4Octets {
        o0: (u % 256) as u8,
        o1: ((u / 256) % 256) as u8,
        o2: ((u / 65536) % 256) as u8,
        o3: (u / 16777216) as u8,
    };
    Ok((octets, port as u16))
}

/// `host_tcp_connect`, completion half: files the socket token the TCP
/// stack handed back under a fresh guest-visible id, or surfaces -1 when
/// the stack refused the connection.
///
/// The id is the registry's next counter value, so ids never repeat within
/// the guest's lifetime.
pub fn stub_host_tcp_connect(store: &mut StoreData, stack_reply: Option<u64>) -> (r: Result<
    i32,
    StubError,
>)
    requires
        old(store).wf(),
        old(store).sockets.next_id < i32::MAX,
    ensures
        final(store).wf(),
        !old(store).spec_in_step() ==> r == Err::<i32, StubError>(
            StubError::Fault(FaultKind::NoContext),
        ) && *final(store) == *old(store),
        old(store).spec_in_step() && stack_reply is None ==> r == Ok::<i32, StubError>(-1i32)
            && *final(store) == *old(store),
        old(store).spec_in_step() && stack_reply is Some ==> {
            let id = old(store).sockets.next_id;
            let h = stack_reply->Some_0;
            &&& r == Ok::<i32, StubError>(id)
            &&& id >= 0
            &&& *final(store) == (StoreData { sockets: final(store).sockets, ..*old(store) })
            &&& final(store).sockets.spec_get(id) == Some(h)
            &&& final(store).sockets.next_id == id + 1
            &&& forall|other: i32|
                other != id ==> final(store).sockets.spec_get(other) == old(
                    store,
                ).sockets.spec_get(other)
        },
{
    if store.step_context.is_none() {
        return Err(StubError::Fault(FaultKind::NoContext));
    }
    match stack_reply {
        Some(handle) => {
            let id = store.sockets.add_handle(handle);
            Ok(id)
        },
        None => Ok(-1),
    }
}

/// `host_tcp_may_send`: 1 when the socket the id names accepts writes now,
/// 0 when it does not, -1 when the id names nothing.
///
/// `stack_reply` is the TCP stack's probe of the named socket; it is
/// consulted only when the id is live.
pub fn stub_host_tcp_may_send(store: &mut StoreData, id: i32, stack_reply: bool) -> (r: Result<
    i32,
    StubError,
>)
    requires
        old(store).wf(),
    ensures
        *final(store) == *old(store),
        !old(store).spec_in_step() ==> r == Err::<i32, StubError>(
            StubError::Fault(FaultKind::NoContext),
        ),
        old(store).spec_in_step() && !old(store).sockets.spec_contains(id) ==> r == Ok::<
            i32,
            StubError,
        >(-1i32),
        old(store).spec_in_step() && old(store).sockets.spec_contains(id) ==> r == Ok::<
            i32,
            StubError,
        >(
            if stack_reply {
                1i32
            } else {
                0i32
            },
        ),
{
    if store.step_context.is_none() {
        return Err(StubError::Fault(FaultKind::NoContext));
    }
    match store.sockets.get_handle(id) {
        None => Ok(-1),
        Some(_) => Ok(
            if stack_reply {
                1
            } else {
                0
            },
        ),
    }
}

/// `host_tcp_may_recv`: 1 when the socket the id names has readable data,
/// 0 when it does not, -1 when the id names nothing.
pub fn stub_host_tcp_may_recv(store: &mut StoreData, id: i32, stack_reply: bool) -> (r: Result<
    i32,
    StubError,
>)
    requires
        old(store).wf(),
    ensures
        *final(store) == *old(store),
        !old(store).spec_in_step() ==> r == Err::<i32, StubError>(
            StubError::Fault(FaultKind::NoContext),
        ),
        old(store).spec_in_step() && !old(store).sockets.spec_contains(id) ==> r == Ok::<
            i32,
            StubError,
        >(-1i32),
        old(store).spec_in_step() && old(store).sockets.spec_contains(id) ==> r == Ok::<
            i32,
            StubError,
        >(
            if stack_reply {
                1i32
            } else {
                0i32
            },
        ),
{
    if store.step_context.is_none() {
        return Err(StubError::Fault(FaultKind::NoContext));
    }
    match store.sockets.get_handle(id) {
        None => Ok(-1),
        Some(_) => Ok(
            if stack_reply {
                1
            } else {
                0
            },
        ),
    }
}

/// `host_tcp_write`: hands the guest bytes at [addr, addr + len) to the TCP
/// stack and returns how many it accepted; -1 when the id names nothing or
/// the stack failed. The accepted count is added to the step's sent-bytes
/// counter.
///
/// `stack_reply` is what the stack accepted of those bytes, at most `len`;
/// it is consulted only when the range is in bounds and the id is live.
pub fn stub_host_tcp_write(
    store: &mut StoreData,
    mem: &Vec<u8>,
    addr: u32,
    len: u32,
    id: i32,
    stack_reply: Option<u32>,
) -> (r: Result<i32, StubError>)
    requires
        old(store).wf(),
        stack_reply matches Some(n) ==> n <= len,
    ensures
        final(store).wf(),
        !old(store).spec_in_step() ==> r == Err::<i32, StubError>(
            StubError::Fault(FaultKind::NoContext),
        ) && *final(store) == *old(store),
        old(store).spec_in_step() && !spec_in_bounds(mem@.len(), addr, len as nat) ==> r == Err::<
            i32,
            StubError,
        >(StubError::Trap(TrapKind::OutOfBounds)) && *final(store) == *old(store),
        old(store).spec_in_step() && spec_in_bounds(mem@.len(), addr, len as nat) && !old(
            store,
        ).sockets.spec_contains(id) ==> r == Ok::<i32, StubError>(-1i32) && *final(store) == *old(
            store,
        ),
        old(store).spec_in_step() && spec_in_bounds(mem@.len(), addr, len as nat) && old(
            store,
        ).sockets.spec_contains(id) ==> match stack_reply {
            None => r == Ok::<i32, StubError>(-1i32) && *final(store) == *old(store),
            Some(n) => r == Ok::<i32, StubError>(n as i32) && *final(store) == (StoreData {
                net_sent: crate::arith::clamp_u64_int(old(store).net_sent + n),
                ..*old(store)
            }),
        },
{
    if store.step_context.is_none() {
        return Err(StubError::Fault(FaultKind::NoContext));
    }
    if (addr as u128) + (len as u128) > mem.len() as u128 {
        return Err(StubError::Trap(TrapKind::OutOfBounds));
    }
    match store.sockets.get_handle(id) {
        None => Ok(-1),
        Some(_) => match stack_reply {
            None => Ok(-1),
            Some(n) => {
                store.net_sent = crate::arith::sat_add_u64(store.net_sent, n as u64);
                Ok(#[verifier::truncate] (n as i32))
            },
        },
    }
}

/// `host_tcp_read`: copies what the TCP stack dequeued for the named socket
/// into guest memory at `addr` and returns the byte count; a short or empty
/// read is success with that count; -1 when the id names nothing or the
/// stack failed. The count is added to the step's received-bytes counter.
///
/// `stack_reply` is what the stack dequeued, at most `len` bytes; it is
/// consulted only when the id is live.
pub fn stub_host_tcp_read(
    store: &mut StoreData,
    mem: &mut Vec<u8>,
    addr: u32,
    len: u32,
    id: i32,
    stack_reply: Option<Vec<u8>>,
) -> (r: Result<i32, StubError>)
    requires
        old(store).wf(),
        stack_reply matches Some(d) ==> d@.len() <= len,
    ensures
        final(store).wf(),
        final(mem)@.len() == old(mem)@.len(),
        !old(store).spec_in_step() ==> r == Err::<i32, StubError>(
            StubError::Fault(FaultKind::NoContext),
        ) && *final(store) == *old(store) && final(mem)@ =~= old(mem)@,
        old(store).spec_in_step() && !old(store).sockets.spec_contains(id) ==> r == Ok::<
            i32,
            StubError,
        >(-1i32) && *final(store) == *old(store) && final(mem)@ =~= old(mem)@,
        old(store).spec_in_step() && old(store).sockets.spec_contains(id) ==> match stack_reply {
            None => r == Ok::<i32, StubError>(-1i32) && *final(store) == *old(store) && final(mem)@
                =~= old(mem)@,
            Some(d) => {
                &&& !spec_in_bounds(old(mem)@.len(), addr, d@.len()) ==> r == Err::<
                    i32,
                    StubError,
                >(StubError::Trap(TrapKind::OutOfBounds)) && *final(store) == *old(store)
                    && final(mem)@ =~= old(mem)@
                &&& spec_in_bounds(old(mem)@.len(), addr, d@.len()) ==> r == Ok::<i32, StubError>(
                    d@.len() as i32,
                ) && final(mem)@ =~= spec_written(old(mem)@, addr, d@) && *final(store)
                    == (StoreData {
                    net_recv: crate::arith::clamp_u64_int(old(store).net_recv + d@.len()),
                    ..*old(store)
                })
            },
        },
{
    if store.step_context.is_none() {
        return Err(StubError::Fault(FaultKind::NoContext));
    }
    match store.sockets.get_handle(id) {
        None => Ok(-1),
        Some(_) => match stack_reply {
            None => Ok(-1),
            Some(d) => {
                match write_bytes(mem, addr, &d) {
                    Ok(()) => {
                        store.net_recv = crate::arith::sat_add_u64(store.net_recv, d.len() as u64);
                        Ok(#[verifier::truncate] (d.len() as i32))
                    },
                    Err(t) => Err(StubError::Trap(t)),
                }
            },
        },
    }
}

/// `host_tcp_close`: removes the id from the registry and hands the kernel
/// socket token back so the host closes it in the TCP stack. The id counter
/// does not move, so the id is never reused. Closing an id that names
/// nothing is a guest fault and traps.
pub fn stub_host_tcp_close(store: &mut StoreData, id: i32) -> (r: Result<u64, StubError>)
    requires
        old(store).wf(),
    ensures
        final(store).wf(),
        !old(store).spec_in_step() ==> r == Err::<u64, StubError>(
            StubError::Fault(FaultKind::NoContext),
        ) && *final(store) == *old(store),
        old(store).spec_in_step() && !old(store).sockets.spec_contains(id) ==> r == Err::<
            u64,
            StubError,
        >(StubError::Trap(TrapKind::InvalidArgument)) && *final(store) == *old(store),
        old(store).spec_in_step() && old(store).sockets.spec_contains(id) ==> {
            &&& r matches Ok(h) && Some(h) == old(store).sockets.spec_get(id)
            &&& *final(store) == (StoreData { sockets: final(store).sockets, ..*old(store) })
            &&& final(store).sockets.spec_get(id) == None::<u64>
            &&& final(store).sockets.next_id == old(store).sockets.next_id
            &&& forall|other: i32|
                other != id ==> final(store).sockets.spec_get(other) == old(
                    store,
                ).sockets.spec_get(other)
        },
{
    if store.step_context.is_none() {
        return Err(StubError::Fault(FaultKind::NoContext));
    }
    match store.sockets.drop_handle(id) {
        Some(h) => Ok(h),
        None => Err(StubError::Trap(TrapKind::InvalidArgument)),
    }
}

/// `host_qemu_dump`: reads the requested guest memory range and hands the
/// bytes to the host for diagnostic dumping.
pub fn stub_host_qemu_dump(store: &mut StoreData, mem: &mut Vec<u8>, addr: u32, len: u32) -> (r:
    Result<Vec<u8>, StubError>)
    ensures
        *final(store) == *old(store),
        final(mem)@ =~= old(mem)@,
        !old(store).spec_in_step() ==> r == Err::<Vec<u8>, StubError>(
            StubError::Fault(FaultKind::NoContext),
        ),
        old(store).spec_in_step() ==> {
            &&& r is Ok <==> spec_in_bounds(old(mem)@.len(), addr, len as nat)
            &&& r matches Ok(b) ==> b@ =~= old(mem)@.subrange(addr as int, addr + len)
            &&& r is Err ==> r == Err::<Vec<u8>, StubError>(StubError::Trap(TrapKind::OutOfBounds))
        },
{
    if store.step_context.is_none() {
        return Err(StubError::Fault(FaultKind::NoContext));
    }
    match read_bytes(mem, addr, len as usize) {
        Ok(b) => Ok(b),
        Err(t) => Err(StubError::Trap(t)),
    }
}

} // verus!
