//! End-to-end scenarios for the guest runtime: framebuffer sharing, TCP
//! handle lifecycle, fuel reporting, console capture, input locality and
//! trap recovery.

use wasmos::abi::{
    stub_fd_write, stub_host_get_consumed_fuel, stub_host_log, stub_host_tcp_close,
    stub_host_tcp_connect, stub_host_tcp_connect_request, stub_host_tcp_may_recv,
    stub_host_tcp_may_send, stub_host_tcp_read, stub_host_tcp_write, LogLevel,
};
use wasmos::fault::{FaultKind, StubError, TrapKind};
use wasmos::geometry::Rect;
use wasmos::input::{InputEvent, InputState, PointerState};
use wasmos::runtime::{GuestCall, WasmApp, WasmEngine};
use wasmos::stylesheet::StyleSheet;

fn test_input() -> InputState {
    InputState { pointer: PointerState { x: 0, y: 0, left_clicked: false }, events: Vec::new() }
}

fn test_rect() -> Rect {
    Rect { x0: 0, y0: 0, w: 100, h: 100 }
}

fn open_step(app: &mut WasmApp, budget: u64) {
    app.begin_step(test_input(), test_rect(), StyleSheet::new(), budget);
}

#[test]
fn fb_register_and_blit() {
    // S1: the guest registers a framebuffer region and writes a pattern;
    // the compositor's post-step read observes exactly that pattern.
    let engine = WasmEngine::new();
    let _ = engine;
    let mut app = WasmApp::new("s1");
    let mut mem: Vec<u8> = vec![0; 0x2000];
    let calls = vec![
        GuestCall::HostSetFramebuffer { addr: 0x1000, w: 4, h: 2 },
        GuestCall::GuestWriteMem { addr: 0x1000, bytes: vec![0xAA; 32] },
    ];
    let (stats, outcome) = app.step(
        &mut mem,
        &test_input(),
        &test_rect(),
        StyleSheet::new(),
        true,
        false,
        10_000,
        0,
        5,
        2,
        &calls,
    );
    assert!(outcome.is_ok());
    assert_eq!(stats.fuel, 0);
    let view = app.get_framebuffer(&mem).expect("region is in bounds");
    assert_eq!(view, vec![0xAA; 32]);
}

#[test]
fn fb_out_of_bounds_region_skips_blit() {
    let mut app = WasmApp::new("fb");
    let mut mem: Vec<u8> = vec![0; 64];
    let calls = vec![GuestCall::HostSetFramebuffer { addr: 32, w: 100, h: 100 }];
    let (_, outcome) = app.step(
        &mut mem,
        &test_input(),
        &test_rect(),
        StyleSheet::new(),
        true,
        false,
        10_000,
        0,
        1,
        1,
        &calls,
    );
    assert!(outcome.is_ok());
    assert!(app.get_framebuffer(&mem).is_none());
}

#[test]
fn tcp_handle_lifecycle() {
    // S2: connect yields id 0; after close, writing through id 0 is -1.
    let mut app = WasmApp::new("s2");
    let mem: Vec<u8> = vec![0; 64];
    open_step(&mut app, 10_000);
    let req = stub_host_tcp_connect_request(0x0100_000A, 1234).expect("valid port");
    assert_eq!((req.0.o0, req.0.o1, req.0.o2, req.0.o3), (0x0A, 0x00, 0x00, 0x01));
    assert_eq!(req.1, 1234);
    let id = stub_host_tcp_connect(&mut app.store, Some(7)).expect("stack accepted");
    assert_eq!(id, 0);
    let token = stub_host_tcp_close(&mut app.store, 0).expect("id was live");
    assert_eq!(token, 7);
    let w = stub_host_tcp_write(&mut app.store, &mem, 0, 8, 0, Some(8)).expect("surfaced");
    assert_eq!(w, -1);
    let _ = app.end_step(0, 1, 1);
}

#[test]
fn tcp_ids_are_not_reused_after_close() {
    let mut app = WasmApp::new("ids");
    open_step(&mut app, 10_000);
    let id0 = stub_host_tcp_connect(&mut app.store, Some(7)).unwrap();
    stub_host_tcp_close(&mut app.store, id0).unwrap();
    let id1 = stub_host_tcp_connect(&mut app.store, Some(9)).unwrap();
    assert_eq!(id0, 0);
    assert_eq!(id1, 1);
    let _ = app.end_step(0, 1, 1);
}

#[test]
fn tcp_probes_and_reads() {
    let mut app = WasmApp::new("probe");
    let mut mem: Vec<u8> = vec![0; 64];
    open_step(&mut app, 10_000);
    assert_eq!(stub_host_tcp_may_send(&mut app.store, 3, true).unwrap(), -1);
    let id = stub_host_tcp_connect(&mut app.store, Some(11)).unwrap();
    assert_eq!(stub_host_tcp_may_send(&mut app.store, id, true).unwrap(), 1);
    assert_eq!(stub_host_tcp_may_recv(&mut app.store, id, false).unwrap(), 0);
    // A short read is success with that count; zero bytes is success with
    // zero, not would-block.
    let r = stub_host_tcp_read(&mut app.store, &mut mem, 8, 16, id, Some(vec![1, 2, 3])).unwrap();
    assert_eq!(r, 3);
    assert_eq!(&mem[8..11], &[1, 2, 3]);
    assert_eq!(app.store.net_recv, 3);
    let r0 = stub_host_tcp_read(&mut app.store, &mut mem, 8, 16, id, Some(Vec::new())).unwrap();
    assert_eq!(r0, 0);
    let w = stub_host_tcp_write(&mut app.store, &mem, 0, 8, id, Some(5)).unwrap();
    assert_eq!(w, 5);
    assert_eq!(app.store.net_sent, 5);
    let wfail = stub_host_tcp_write(&mut app.store, &mem, 0, 8, id, None).unwrap();
    assert_eq!(wfail, -1);
    let _ = app.end_step(0, 1, 1);
}

#[test]
fn tcp_invalid_port_traps() {
    assert_eq!(
        stub_host_tcp_connect_request(0, 70_000),
        Err(StubError::Trap(TrapKind::InvalidArgument))
    );
    assert_eq!(
        stub_host_tcp_connect_request(0, -1),
        Err(StubError::Trap(TrapKind::InvalidArgument))
    );
}

#[test]
fn fuel_reporting() {
    // S3: with a 10000 budget and about 7000 consumed, the guest reads the
    // same consumed figure the scheduler records.
    let mut app = WasmApp::new("s3");
    let mut mem: Vec<u8> = vec![0; 64];
    let calls = vec![
        GuestCall::GuestWork { cost: 7000 },
        GuestCall::HostGetConsumedFuel { addr: 0 },
    ];
    let (stats, outcome) = app.step(
        &mut mem,
        &test_input(),
        &test_rect(),
        StyleSheet::new(),
        true,
        false,
        10_000,
        0,
        1,
        1,
        &calls,
    );
    assert!(outcome.is_ok());
    let reported = u64::from_le_bytes(mem[0..8].try_into().unwrap());
    assert_eq!(reported, 7000);
    assert!(0 < reported && reported <= 10_000);
    assert_eq!(stats.fuel, reported);
}

#[test]
fn fuel_exhaustion_traps() {
    let mut app = WasmApp::new("fuel");
    let mut mem: Vec<u8> = vec![0; 16];
    let calls = vec![GuestCall::GuestWork { cost: 20_000 }];
    let (stats, outcome) = app.step(
        &mut mem,
        &test_input(),
        &test_rect(),
        StyleSheet::new(),
        true,
        false,
        10_000,
        0,
        1,
        1,
        &calls,
    );
    assert_eq!(outcome, Err(StubError::Trap(TrapKind::FuelExhausted)));
    assert_eq!(stats.fuel, 10_000);
}

#[test]
fn stdout_reaches_console_once() {
    // S4: one fd_write of "hi\n" lands on the console stream and bumps the
    // version token exactly once.
    let mut app = WasmApp::new("s4");
    let mut mem: Vec<u8> = vec![0; 64];
    // First scatter entry at 0: pointer 16, length 3; bytes at 16.
    mem[0..4].copy_from_slice(&16u32.to_le_bytes());
    mem[4..8].copy_from_slice(&3u32.to_le_bytes());
    mem[16..19].copy_from_slice(b"hi\n");
    open_step(&mut app, 10_000);
    let before = app.store.console.version;
    let r = stub_fd_write(&mut app.store, &mut mem, 1, 0, 1, 8).unwrap();
    assert_eq!(r, 0);
    assert!(app.store.console.data.ends_with(b"hi\n"));
    assert_eq!(app.store.console.version, before + 1);
    assert_eq!(u32::from_le_bytes(mem[8..12].try_into().unwrap()), 3);
    let _ = app.end_step(0, 1, 1);
}

#[test]
fn console_version_strictly_increases() {
    let mut app = WasmApp::new("mono");
    let mut mem: Vec<u8> = vec![0; 64];
    mem[0..2].copy_from_slice(b"ok");
    open_step(&mut app, 10_000);
    let v0 = app.store.console.version;
    let (lvl, msg) = stub_host_log(&mut app.store, &mut mem, 0, 2, 1).unwrap();
    assert_eq!(lvl, LogLevel::Error);
    assert_eq!(msg, b"ok".to_vec());
    let v1 = app.store.console.version;
    let _ = stub_host_log(&mut app.store, &mut mem, 0, 2, 9).unwrap();
    let v2 = app.store.console.version;
    assert!(v0 < v1 && v1 < v2);
    assert!(app.store.console.data.ends_with(b"ok\n"));
    let _ = app.end_step(0, 1, 1);
}

#[test]
fn log_levels_follow_the_encoding() {
    let mut app = WasmApp::new("lvl");
    let mut mem: Vec<u8> = vec![0; 8];
    mem[0] = b'x';
    open_step(&mut app, 10_000);
    let cases = [
        (1, LogLevel::Error),
        (2, LogLevel::Warn),
        (3, LogLevel::Info),
        (4, LogLevel::Debug),
        (0, LogLevel::Trace),
        (77, LogLevel::Trace),
    ];
    for (code, want) in cases {
        let (lvl, _) = stub_host_log(&mut app.store, &mut mem, 0, 1, code).unwrap();
        assert_eq!(lvl, want);
    }
    let _ = app.end_step(0, 1, 1);
}

#[test]
fn stub_outside_context_is_a_host_fault() {
    // Context hygiene: reaching a context-using stub while no step context
    // is installed reports the deterministic host fault the kernel aborts
    // on.
    let mut app = WasmApp::new("ctx");
    let mut mem: Vec<u8> = vec![b'x'; 8];
    let r = stub_host_log(&mut app.store, &mut mem, 0, 1, 1);
    assert_eq!(r, Err(StubError::Fault(FaultKind::NoContext)));
    let c = stub_host_tcp_connect(&mut app.store, Some(1));
    assert_eq!(c, Err(StubError::Fault(FaultKind::NoContext)));
    // The memory-only stubs refuse without a context too.
    let w = stub_fd_write(&mut app.store, &mut mem, 1, 0, 1, 4);
    assert_eq!(w, Err(StubError::Fault(FaultKind::NoContext)));
    let f = wasmos::abi::stub_host_set_framebuffer(&mut app.store, 0, 1, 1);
    assert_eq!(f, Err(StubError::Fault(FaultKind::NoContext)));
}

#[test]
fn context_clear_on_every_exit_path() {
    let mut app = WasmApp::new("clear");
    let mut mem: Vec<u8> = vec![0; 16];
    // A normal tick clears the slot.
    let (_, ok) = app.step(
        &mut mem,
        &test_input(),
        &test_rect(),
        StyleSheet::new(),
        true,
        false,
        100,
        0,
        1,
        1,
        &Vec::new(),
    );
    assert!(ok.is_ok());
    assert!(app.store.step_context.is_none());
    // A trapped tick clears it too.
    let calls = vec![GuestCall::GuestWork { cost: 1000 }];
    let (_, trapped) = app.step(
        &mut mem,
        &test_input(),
        &test_rect(),
        StyleSheet::new(),
        true,
        false,
        100,
        0,
        1,
        1,
        &calls,
    );
    assert!(trapped.is_err());
    assert!(app.store.step_context.is_none());
}

#[test]
fn trap_recovery_next_tick() {
    // S6: a trapping call errors the tick; the next tick steps the guest
    // again with a fresh budget and completes normally.
    let mut app = WasmApp::new("s6");
    let mut mem: Vec<u8> = vec![0; 64];
    let bad = vec![GuestCall::RandomGet { buf: 0xFFFF_FFFF, buf_len: 16, rand: vec![7; 16] }];
    let (_, outcome) = app.step(
        &mut mem,
        &test_input(),
        &test_rect(),
        StyleSheet::new(),
        true,
        false,
        10_000,
        0,
        1,
        1,
        &bad,
    );
    assert_eq!(outcome, Err(StubError::Trap(TrapKind::OutOfBounds)));
    let good = vec![GuestCall::RandomGet { buf: 0, buf_len: 16, rand: vec![7; 16] }];
    let (stats, outcome2) = app.step(
        &mut mem,
        &test_input(),
        &test_rect(),
        StyleSheet::new(),
        true,
        false,
        10_000,
        0,
        1,
        1,
        &good,
    );
    assert!(outcome2.is_ok());
    assert_eq!(stats.fuel, 0);
    assert_eq!(&mem[0..16], &[7u8; 16]);
}

#[test]
fn paused_guest_is_skipped() {
    let mut app = WasmApp::new("pause");
    let mut mem: Vec<u8> = vec![0; 16];
    let calls = vec![GuestCall::GuestWriteMem { addr: 0, bytes: vec![1, 2, 3] }];
    let (stats, outcome) = app.step(
        &mut mem,
        &test_input(),
        &test_rect(),
        StyleSheet::new(),
        true,
        true,
        10_000,
        5,
        9,
        1,
        &calls,
    );
    assert!(outcome.is_ok());
    assert_eq!(stats.fuel, 0);
    assert_eq!(stats.frametime_ns, 4);
    assert_eq!(mem, vec![0; 16]);
}

#[test]
fn mixed_tick_end_to_end() {
    // One tick doing a little of everything: clock, logging, framebuffer
    // registration, guest computation and a TCP round trip.
    let mut app = WasmApp::new("mix");
    let mut mem: Vec<u8> = vec![0; 0x800];
    mem[0x40] = b'o';
    mem[0x41] = b'k';
    let calls = vec![
        GuestCall::ClockTimeGet { clock_id: 0, precision: 0, time_addr: 0x10, now_ns: 42 },
        GuestCall::HostLog { addr: 0x40, len: 2, level: 3 },
        GuestCall::HostSetFramebuffer { addr: 0x100, w: 2, h: 2 },
        GuestCall::GuestWriteMem { addr: 0x100, bytes: vec![0x11; 16] },
        GuestCall::GuestWork { cost: 250 },
        GuestCall::HostTcpConnect { ip: 0x0100_000A, port: 80, stack_reply: Some(5) },
        GuestCall::HostTcpWrite { addr: 0x40, len: 2, id: 0, stack_reply: Some(2) },
        GuestCall::HostTcpRead { addr: 0x60, len: 8, id: 0, stack_reply: Some(vec![7, 8]) },
        GuestCall::HostTcpClose { id: 0 },
        GuestCall::HostGetConsumedFuel { addr: 0x20 },
    ];
    let (stats, outcome) = app.step(
        &mut mem,
        &test_input(),
        &test_rect(),
        StyleSheet::new(),
        true,
        false,
        1000,
        100,
        175,
        1,
        &calls,
    );
    assert!(outcome.is_ok());
    assert_eq!(u64::from_le_bytes(mem[0x10..0x18].try_into().unwrap()), 42);
    assert!(app.store.console.data.ends_with(b"ok\n"));
    assert_eq!(app.store.console.version, 1);
    assert_eq!(app.get_framebuffer(&mem).unwrap(), vec![0x11; 16]);
    assert_eq!(&mem[0x60..0x62], &[7, 8]);
    assert_eq!(stats.fuel, 250);
    assert_eq!(u64::from_le_bytes(mem[0x20..0x28].try_into().unwrap()), 250);
    assert_eq!(stats.net_sent, 2);
    assert_eq!(stats.net_recv, 2);
    assert_eq!(stats.frametime_ns, 75);
    // The closed handle is gone; its id is not reusable.
    assert_eq!(app.store.sockets.get_handle(0), None);
    assert_eq!(app.store.sockets.next_id, 1);
    assert!(app.store.step_context.is_none());
}

#[test]
fn stats_record_memory_and_net() {
    let mut app = WasmApp::new("stats");
    let mut mem: Vec<u8> = vec![0; 64];
    open_step(&mut app, 500);
    let id = stub_host_tcp_connect(&mut app.store, Some(1)).unwrap();
    let _ = stub_host_tcp_write(&mut app.store, &mem, 0, 8, id, Some(6)).unwrap();
    let mut mem2 = vec![0u8; 32];
    let _ = stub_host_tcp_read(&mut app.store, &mut mem2, 0, 4, id, Some(vec![9, 9])).unwrap();
    let stats = app.end_step(10, 25, 3);
    assert_eq!(stats.net_sent, 6);
    assert_eq!(stats.net_recv, 2);
    assert_eq!(stats.mem_used, 3 * 65536);
    assert_eq!(stats.frametime_ns, 15);
}
