//! Unit tests for the memory bridge, socket registry, console, wire
//! formats, UTF-8 validation and the portable stub subset.

use wasmos::abi::{
    run_wasi_stub, stub_args_sizes_get, stub_clock_time_get, stub_environ_get,
    stub_environ_sizes_get, stub_host_get_input_state, stub_host_get_time,
    stub_host_get_win_rect, stub_host_qemu_dump, stub_host_save_timing, WasiStubKind,
};
use wasmos::console::Console;
use wasmos::fault::{FaultKind, StubError, TrapKind};
use wasmos::geometry::Rect;
use wasmos::guestmem::{read_bytes, read_u32, write_bytes, write_u64};
use wasmos::input::{InputEvent, InputState, PointerState};
use wasmos::runtime::WasmApp;
use wasmos::sockets::SocketRegistry;
use wasmos::stylesheet::StyleSheet;
use wasmos::utf8::{check_utf8, trim_end};
use wasmos::wire::{
    decode_input_state, decode_rect, decode_stylesheet, encode_input_state, encode_rect,
    encode_stylesheet,
};

#[test]
fn bridge_bounds_are_rechecked() {
    let mut mem: Vec<u8> = vec![0; 16];
    assert_eq!(read_bytes(&mem, 8, 8).unwrap(), vec![0; 8]);
    assert_eq!(read_bytes(&mem, 9, 8), Err(TrapKind::OutOfBounds));
    assert_eq!(write_bytes(&mut mem, 14, &vec![1, 2]), Ok(()));
    assert_eq!(&mem[14..16], &[1, 2]);
    assert_eq!(write_bytes(&mut mem, 15, &vec![1, 2]), Err(TrapKind::OutOfBounds));
    // The failed write changed nothing.
    assert_eq!(&mem[14..16], &[1, 2]);
}

#[test]
fn bridge_write_then_read_round_trips() {
    // Zero-copy consistency at the byte level: a written pattern is read
    // back exactly.
    let mut mem: Vec<u8> = vec![0x55; 32];
    let pattern: Vec<u8> = (0..8).collect();
    write_bytes(&mut mem, 12, &pattern).unwrap();
    assert_eq!(read_bytes(&mem, 12, 8).unwrap(), pattern);
    // Neighbouring bytes are untouched.
    assert_eq!(mem[11], 0x55);
    assert_eq!(mem[20], 0x55);
}

#[test]
fn bridge_typed_words() {
    let mut mem: Vec<u8> = vec![0; 16];
    write_u64(&mut mem, 4, 0x0102_0304_0506_0708).unwrap();
    assert_eq!(read_u32(&mem, 4).unwrap(), 0x0506_0708);
    assert_eq!(write_u64(&mut mem, 12, 1), Err(TrapKind::OutOfBounds));
}

#[test]
fn registry_assigns_monotone_unique_ids() {
    let mut reg = SocketRegistry::new();
    let a = reg.add_handle(100);
    let b = reg.add_handle(200);
    assert_eq!((a, b), (0, 1));
    assert_eq!(reg.get_handle(0), Some(100));
    assert_eq!(reg.get_handle(1), Some(200));
    assert_eq!(reg.get_handle(2), None);
    assert_eq!(reg.drop_handle(0), Some(100));
    assert_eq!(reg.get_handle(0), None);
    assert_eq!(reg.get_handle(1), Some(200));
    // The counter does not move back: the dropped id is never reassigned.
    let c = reg.add_handle(300);
    assert_eq!(c, 2);
    assert_eq!(reg.get_handle(0), None);
}

#[test]
fn registry_isolation_between_guests() {
    // Handle isolation: an id one guest holds names nothing in a registry
    // that never assigned it.
    let mut g1 = SocketRegistry::new();
    let g2 = SocketRegistry::new();
    let id = g1.add_handle(42);
    assert_eq!(g1.get_handle(id), Some(42));
    assert_eq!(g2.get_handle(id), None);
}

#[test]
fn console_appends_and_versions() {
    let mut c = Console::new();
    assert_eq!(c.version, 0);
    c.append(&b"abc".to_vec());
    c.append_byte(b'!');
    assert_eq!(c.data, b"abc!".to_vec());
    assert_eq!(c.version, 2);
}

#[test]
fn rect_record_round_trips() {
    let r = Rect { x0: -7, y0: 1 << 40, w: 640, h: 480 };
    let bytes = encode_rect(&r);
    assert_eq!(bytes.len(), 24);
    assert_eq!(decode_rect(&bytes), Some(r));
    assert_eq!(decode_rect(&vec![0; 23]), None);
}

#[test]
fn input_record_layout() {
    let inp = InputState {
        pointer: PointerState { x: 3, y: -1, left_clicked: true },
        events: vec![InputEvent::Scroll { delta: 2 }],
    };
    let bytes = encode_input_state(&inp);
    assert_eq!(bytes.len(), 154);
    assert_eq!(&bytes[0..8], &3i64.to_le_bytes());
    assert_eq!(&bytes[8..16], &(-1i64).to_le_bytes());
    assert_eq!(bytes[16], 1);
    assert_eq!(bytes[17], 1);
    // First slot: a scroll of two.
    assert_eq!(bytes[18], 2);
    assert_eq!(&bytes[19..27], &2i64.to_le_bytes());
    // Second slot is empty.
    assert_eq!(bytes[35], 0);
}

#[test]
fn input_record_round_trips() {
    let inp = InputState {
        pointer: PointerState { x: -9, y: 1 << 33, left_clicked: true },
        events: vec![
            InputEvent::Click { x: 5, y: -6 },
            InputEvent::Scroll { delta: -2 },
            InputEvent::Key { code: 0x41 },
        ],
    };
    let bytes = encode_input_state(&inp);
    let back = decode_input_state(&bytes).expect("well-formed record");
    assert_eq!(back.pointer, inp.pointer);
    assert_eq!(back.events, inp.events);
    assert!(decode_input_state(&vec![0; 10]).is_none());
}

#[test]
fn stylesheet_record_round_trips() {
    let s = StyleSheet::new();
    let back = decode_stylesheet(&encode_stylesheet(&s)).expect("well-formed record");
    assert_eq!(back, s);
    assert!(decode_stylesheet(&vec![0; 15]).is_none());
}

#[test]
fn stylesheet_record_layout() {
    let s = StyleSheet::new();
    let bytes = encode_stylesheet(&s);
    assert_eq!(bytes.len(), 16);
    assert_eq!(&bytes[0..4], &[32, 32, 32, 255]);
    assert_eq!(&bytes[12..16], &[255, 255, 255, 255]);
}

#[test]
fn utf8_validator_matches_std() {
    let cases: Vec<Vec<u8>> = vec![
        b"plain ascii".to_vec(),
        vec![0xC3, 0xA9],
        vec![0xE2, 0x82, 0xAC],
        vec![0xF0, 0x9F, 0x98, 0x80],
        vec![0x80],
        vec![0xC0, 0xAF],
        vec![0xE0, 0x80, 0x80],
        vec![0xED, 0xA0, 0x80],
        vec![0xF4, 0x90, 0x80, 0x80],
        vec![0xC3],
    ];
    for bytes in cases {
        assert_eq!(check_utf8(&bytes), std::str::from_utf8(&bytes).is_ok());
    }
}

#[test]
fn trim_end_strips_trailing_whitespace() {
    assert_eq!(trim_end(&b"hi \t\r\n".to_vec()), b"hi".to_vec());
    assert_eq!(trim_end(&b"  lead kept".to_vec()), b"  lead kept".to_vec());
    assert_eq!(trim_end(&b" \n".to_vec()), Vec::<u8>::new());
}

#[test]
fn input_locality() {
    // A background guest receives an empty event list but the pointer in
    // window-local coordinates; the foreground guest receives the events
    // with the same translation.
    let global = InputState {
        pointer: PointerState { x: 30, y: 40, left_clicked: true },
        events: vec![InputEvent::Click { x: 30, y: 40 }],
    };
    let win = Rect { x0: 10, y0: 5, w: 50, h: 50 };
    let background = wasmos::input::make_local_input(&global, &win, false);
    assert_eq!(background.events.len(), 0);
    assert_eq!((background.pointer.x, background.pointer.y), (20, 35));
    assert!(background.pointer.left_clicked);
    let foreground = wasmos::input::make_local_input(&global, &win, true);
    assert_eq!(foreground.events, vec![InputEvent::Click { x: 20, y: 35 }]);
    assert_eq!((foreground.pointer.x, foreground.pointer.y), (20, 35));
}

#[test]
fn wasi_stub_policy() {
    assert_eq!(run_wasi_stub(&WasiStubKind::ArgsGet), Ok(0));
    assert_eq!(run_wasi_stub(&WasiStubKind::ProcExit), Ok(0));
    assert_eq!(run_wasi_stub(&WasiStubKind::FdSeek), Ok(8));
    assert_eq!(run_wasi_stub(&WasiStubKind::FdPrestatGet), Ok(8));
    assert_eq!(
        run_wasi_stub(&WasiStubKind::FdRead),
        Err(StubError::Trap(TrapKind::Unimplemented))
    );
    assert_eq!(
        run_wasi_stub(&WasiStubKind::PathOpen),
        Err(StubError::Trap(TrapKind::Unimplemented))
    );
}

fn in_step(name: &str) -> WasmApp {
    let mut app = WasmApp::new(name);
    let input = InputState {
        pointer: PointerState { x: 15, y: 25, left_clicked: false },
        events: Vec::new(),
    };
    app.begin_step(input, Rect { x0: 2, y0: 3, w: 40, h: 50 }, StyleSheet::new(), 1000);
    app
}

#[test]
fn clock_stub_writes_nanoseconds() {
    let mut app = in_step("clock");
    let mut mem: Vec<u8> = vec![0; 16];
    let r = stub_clock_time_get(&mut app.store, &mut mem, 123_456_789, 0, 0, 4).unwrap();
    assert_eq!(r, 0);
    assert_eq!(u64::from_le_bytes(mem[4..12].try_into().unwrap()), 123_456_789);
    assert_eq!(
        stub_clock_time_get(&mut app.store, &mut mem, 1, 0, 0, 9),
        Err(StubError::Trap(TrapKind::OutOfBounds))
    );
}

#[test]
fn time_stub_writes_float_bits() {
    let mut app = in_step("time");
    let mut mem: Vec<u8> = vec![0; 8];
    let bits: u64 = 0x3FF0_0000_0000_0000;
    stub_host_get_time(&mut app.store, &mut mem, bits, 0).unwrap();
    assert_eq!(u64::from_le_bytes(mem[0..8].try_into().unwrap()), bits);
}

#[test]
fn environ_stubs_surface_the_fixed_entry() {
    let mut app = in_step("env");
    let mut mem: Vec<u8> = vec![0; 64];
    stub_environ_sizes_get(&mut app.store, &mut mem, 0, 4).unwrap();
    assert_eq!(u32::from_le_bytes(mem[0..4].try_into().unwrap()), 1);
    assert_eq!(u32::from_le_bytes(mem[4..8].try_into().unwrap()), 20);
    stub_environ_get(&mut app.store, &mut mem, 8, 16).unwrap();
    assert_eq!(u32::from_le_bytes(mem[8..12].try_into().unwrap()), 16);
    assert_eq!(&mem[16..35], b"RUST_BACKTRACE=full");
    assert_eq!(mem[35], 0);
    stub_args_sizes_get(&mut app.store, &mut mem, 36, 40).unwrap();
    assert_eq!(&mem[36..44], &[0; 8]);
}

#[test]
fn win_rect_stub_round_trips() {
    let mut app = in_step("rect");
    let mut mem: Vec<u8> = vec![0; 32];
    stub_host_get_win_rect(&mut app.store, &mut mem, 0).unwrap();
    let rect = decode_rect(&mem[0..24].to_vec()).unwrap();
    assert_eq!(rect, Rect { x0: 2, y0: 3, w: 40, h: 50 });
}

#[test]
fn input_stub_writes_the_snapshot() {
    let mut app = in_step("inp");
    let mut mem: Vec<u8> = vec![0; 160];
    stub_host_get_input_state(&mut app.store, &mut mem, 0).unwrap();
    assert_eq!(&mem[0..8], &15i64.to_le_bytes());
    assert_eq!(&mem[8..16], &25i64.to_le_bytes());
    assert_eq!(mem[16], 0);
}

#[test]
fn save_timing_records_a_sample() {
    let mut app = in_step("timing");
    let mut mem: Vec<u8> = vec![0; 32];
    mem[0..4].copy_from_slice(b"loop");
    mem[8..16].copy_from_slice(&777u64.to_le_bytes());
    let r = stub_host_save_timing(&mut app.store, &mut mem, 0, 4, 8).unwrap();
    assert_eq!(r, 0);
    let ctx = app.store.step_context.as_ref().unwrap();
    assert_eq!(ctx.timings.len(), 1);
    assert_eq!(ctx.timings[0].0, b"loop".to_vec());
    assert_eq!(ctx.timings[0].1, 777);
}

#[test]
fn save_timing_rejects_bad_key() {
    let mut app = in_step("badkey");
    let mut mem: Vec<u8> = vec![0xFF; 32];
    assert_eq!(
        stub_host_save_timing(&mut app.store, &mut mem, 0, 2, 8),
        Err(StubError::Fault(FaultKind::InvalidUtf8))
    );
}

#[test]
fn qemu_dump_hands_the_range_back() {
    let mut app = in_step("dump");
    let mut mem: Vec<u8> = vec![9; 16];
    assert_eq!(stub_host_qemu_dump(&mut app.store, &mut mem, 4, 4).unwrap(), vec![9; 4]);
    assert_eq!(
        stub_host_qemu_dump(&mut app.store, &mut mem, 14, 4),
        Err(StubError::Trap(TrapKind::OutOfBounds))
    );
}
