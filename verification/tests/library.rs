use sw_cdp1802_io::board::{cassette_stream_for, BoardAction, WebIoBoard};
use sw_cdp1802_io::cpu::CpuSnapshot;
use sw_cdp1802_io::kinds::{DemoKind, MemoryMap, ADD_SOURCE, JOYSTICK_SOURCE};
use sw_cdp1802_io::listing::{listing_addr, symbol_addr};
use sw_cdp1802_io::machine::{ChangeAge, ControlField, DemoMachine, Pixel, StepOutcome};
use sw_cdp1802_io::scope::{
    cassette_waveform_samples, JoystickAxis, ScopePulse, ScopeSample, ScopeState,
};
use sw_cdp1802_io::ui::{
    axis_bucket, change_class, demo_from_query, demo_from_value, demo_value, same_text,
};

fn add_bytes() -> Vec<u8> {
    vec![0xF8, 0x07, 0xFC, 0x05, 0x00]
}

fn state_after(previous: &CpuSnapshot, edit: impl Fn(&mut CpuSnapshot)) -> CpuSnapshot {
    let mut next = *previous;
    next.instr_count += 1;
    edit(&mut next);
    next
}

/// Runs one instruction whose effect on the registers is `edit`, with the
/// board used as `use_board` says.
fn step_with(
    machine: &mut DemoMachine,
    store_reg: Option<u8>,
    edit: impl Fn(&mut CpuSnapshot),
    use_board: impl Fn(&mut WebIoBoard),
) -> bool {
    let Some(mut board) = machine.begin_step() else {
        return false;
    };
    use_board(&mut board);
    let state = state_after(&machine.last_state, edit);
    let memory = machine.memory.clone();
    machine.finish_step(
        board,
        StepOutcome::Executed {
            store_reg,
            state,
            memory,
        },
    )
}

#[test]
fn labels_sources_and_maps_are_fixed() {
    assert_eq!(DemoKind::Add.label(), "Add");
    assert_eq!(DemoKind::Add.source(), ADD_SOURCE);
    assert_eq!(DemoKind::Joystick.source(), JOYSTICK_SOURCE);
    assert!(JOYSTICK_SOURCE.contains("OUT 1"));
    assert!(JOYSTICK_SOURCE.contains("STR R1"));
    assert_eq!(DemoKind::Logo.memory_map(), MemoryMap::elf_256());
    assert_eq!(DemoKind::Cassette.memory_map(), MemoryMap::expanded_4k());
    assert_eq!(MemoryMap::expanded_4k().ram_size, 4096);
    assert_eq!(MemoryMap::expanded_4k().video_base, 0x0100);
    assert_eq!(MemoryMap::elf_256().ram_size, 256);
    assert!(DemoKind::Cassette.description().starts_with("Cassette demo:"));
}

#[test]
fn scope_records_axes_independently_and_drops_after_delay() {
    let mut scope = ScopeState::new();
    assert_eq!(scope.pulse(JoystickAxis::X), None);
    assert!(!scope.is_high_at_offset(JoystickAxis::Y, 0));

    scope.record(JoystickAxis::Y, 7, 3);
    scope.record(JoystickAxis::X, 12, 0);
    assert_eq!(
        scope.pulse(JoystickAxis::Y),
        Some(ScopePulse { trigger_tick: 7, delay_ticks: 3 })
    );
    assert_eq!(
        scope.pulse(JoystickAxis::X),
        Some(ScopePulse { trigger_tick: 12, delay_ticks: 0 })
    );
    assert!(scope.is_high_at_offset(JoystickAxis::Y, 0));
    assert!(scope.is_high_at_offset(JoystickAxis::Y, 3));
    assert!(!scope.is_high_at_offset(JoystickAxis::Y, 4));
    assert!(scope.is_high_at_offset(JoystickAxis::X, 0));
    assert!(!scope.is_high_at_offset(JoystickAxis::X, 1));

    let early = scope.samples(JoystickAxis::Y, 10);
    let late = scope.samples(JoystickAxis::Y, 500);
    assert_eq!(early, late);
    assert_eq!(early.len(), 48);
    assert_eq!(early[0], ScopeSample { tick: 0, high: true });
    assert!(early[3].high);
    assert!(!early[4].high);
    assert_eq!(early[47].tick, 47);
    assert_eq!(ScopeState::default(), ScopeState::new());
}

#[test]
fn waveform_shows_last_bits_as_biphase() {
    let empty = cassette_waveform_samples(&[]);
    assert_eq!(empty.len(), 96);
    assert!(empty.iter().enumerate().all(|(i, s)| s.sample == i && s.high == (i % 2 == 0)));

    // One byte 0b1000_0001: bits 0 and 7 of the stream are set.
    let one = cassette_waveform_samples(&[0x81]);
    assert!(!one[0].high); // clock high, bit 1
    assert!(!one[1].high); // clock low, bit 0
    assert!(one[2].high);
    assert!(one[7].high); // clock low, bit 1
    assert!(one[8].high); // past the tape: clock only

    // Twenty bytes: the window starts at bit 160 - 96 = 64, byte 8.
    let mut bytes = vec![0u8; 20];
    bytes[8] = 0x80;
    let window = cassette_waveform_samples(&bytes);
    assert!(!window[0].high);
    assert!(window[2].high);
    assert_eq!(window[95].sample, 95);
}

#[test]
fn tape_exists_only_for_the_cassette_demo() {
    assert!(cassette_stream_for(DemoKind::Logo, &Some(vec![1, 2, 3])).is_empty());
    assert_eq!(cassette_stream_for(DemoKind::Cassette, &None), vec![0u8; 256]);
    let tape = cassette_stream_for(DemoKind::Cassette, &Some(vec![9, 8, 7]));
    assert_eq!(tape.len(), 273);
    assert_eq!(&tape[16..20], &[0xa5, 9, 8, 7]);
    assert_eq!(tape[20], 0);
}

#[test]
fn board_ports_drive_tape_video_and_strobes() {
    let mut board = WebIoBoard::new(vec![0x11, 0x22]);
    assert_eq!(board.input_port(3), 0);
    assert_eq!(board.cassette_pos(), 0);
    assert_eq!(board.input_port(4), 0x11);
    assert_eq!(board.read_cassette_byte(), 0x22);
    assert_eq!(board.input_port(4), 0);
    assert_eq!(board.cassette_pos(), 3);
    assert_eq!(board.tape_range(1, 10), vec![0x22]);
    assert_eq!(board.tape_range(5, 10), Vec::<u8>::new());

    assert_eq!(board.output_port(1, 5, 6), None);
    assert_eq!(board.output_port(3, 5, 6), Some(JoystickAxis::Y));
    assert_eq!(board.output_port(2, 5, 6), Some(JoystickAxis::X));
    assert_eq!(board.output_port(9, 5, 6), None);
    assert_eq!(board.take_action(), Some(BoardAction::ClearVideo));
    assert_eq!(board.take_action(), None);
    assert_eq!(
        board.take_pulses(),
        vec![(JoystickAxis::Y, 6), (JoystickAxis::X, 5)]
    );
    assert!(board.take_pulses().is_empty());
}

#[test]
fn listing_lines_give_their_addresses() {
    assert_eq!(listing_addr("12 0a3F  F807   LDI 0x07"), Some(0x0a3f));
    assert_eq!(listing_addr("\t3\u{3000}0004 IDL"), Some(0x0004));
    assert_eq!(listing_addr("3 004 IDL"), None);
    assert_eq!(listing_addr("3 00g4 IDL"), None);
    assert_eq!(listing_addr("3"), None);
    assert_eq!(listing_addr(""), None);
    assert_eq!(symbol_addr("FRAME 0x0010"), Some(0x0010));
    assert_eq!(symbol_addr("FRAME   0xFFFF extra"), Some(0xffff));
    assert_eq!(symbol_addr("FRAME 0x+1f"), Some(0x1f));
    assert_eq!(symbol_addr("FRAME 0x10000"), None);
    assert_eq!(symbol_addr("FRAME 0x"), None);
    assert_eq!(symbol_addr("FRAME 0x+"), None);
    assert_eq!(symbol_addr("FRAME 10"), None);
    assert_eq!(symbol_addr("FRAME"), None);
}

#[test]
fn picker_values_and_query_strings_select_demos() {
    for kind in DemoKind::all() {
        assert_eq!(demo_from_value(demo_value(kind)), Some(kind));
    }
    assert_eq!(demo_from_value("Logo"), None);
    assert_eq!(demo_from_query("?demo=logo"), Some(DemoKind::Logo));
    assert_eq!(demo_from_query("??x=1&demo=joystick"), Some(DemoKind::Joystick));
    assert_eq!(demo_from_query("demo=bogus&demo=cassette"), Some(DemoKind::Cassette));
    assert_eq!(demo_from_query("?demo"), None);
    assert_eq!(demo_from_query(""), None);
    assert_eq!(demo_from_query("?mode=add"), None);
    assert_eq!(demo_from_query("?demo=pattern=1"), None);
    assert!(same_text("abc", "abc"));
    assert!(!same_text("abc", "abd"));
}

#[test]
fn axis_buckets_and_change_classes() {
    assert_eq!(axis_bucket(0), 0);
    assert_eq!(axis_bucket(63), 0);
    assert_eq!(axis_bucket(64), 1);
    assert_eq!(axis_bucket(128), 2);
    assert_eq!(axis_bucket(255), 3);
    assert_eq!(change_class(ChangeAge::Recent), "changed-recent");
    assert_eq!(change_class(ChangeAge::Older), "changed-older");
    assert_eq!(change_class(ChangeAge::Stable), "changed-stable");
}

#[test]
fn failed_assembly_crashes_with_reason() {
    let mut machine = DemoMachine::new(Err("UnknownMnemonic(\"LDX\")".to_string()));
    assert!(machine.crashed);
    assert_eq!(machine.program_len, 0);
    assert_eq!(
        machine.last_error.as_deref(),
        Some("assemble error: UnknownMnemonic(\"LDX\")")
    );
    assert_eq!(machine.status_label(), "fault");
    assert!(!machine.start_frame(1, 2, &None));
    assert_eq!(machine.x, 128);
    assert_eq!(machine.begin_step_once(&None), None);
    assert!(machine.begin_step().is_none());
}

#[test]
fn add_demo_steps_one_instruction_at_a_time() {
    let mut machine = DemoMachine::new(Ok(add_bytes()));
    assert_eq!(machine.memory[..5].to_vec(), add_bytes());
    assert_eq!(machine.screen_bytes()[..5].to_vec(), add_bytes());
    assert_eq!(machine.status_label(), "ready");
    assert_eq!(machine.current_addr(), Some(0));

    assert_eq!(machine.begin_step_once(&None), Some(true));
    assert!(step_with(&mut machine, None, |s| { s.d = 0x07; s.regs[0] = 2; }, |_| {}));
    machine.end_step_once();
    assert_eq!(machine.last_state.d, 0x07);
    assert_eq!(machine.last_executed_addr, Some(0));
    assert!(!machine.running());
    assert_eq!(machine.control_age(ControlField::D), ChangeAge::Recent);
    assert_eq!(machine.control_age(ControlField::Pc), ChangeAge::Recent);
    assert_eq!(machine.control_age(ControlField::Q), ChangeAge::Stable);
    assert_eq!(machine.register_age(0), ChangeAge::Recent);
    assert_eq!(machine.register_age(1), ChangeAge::Stable);

    assert_eq!(machine.begin_step_once(&None), Some(false));
    assert!(step_with(&mut machine, None, |s| { s.d = 0x0c; s.regs[0] = 4; }, |_| {}));
    machine.end_step_once();
    assert_eq!(machine.last_state.d, 0x0c);
    assert!(!machine.last_state.halted);
    assert_eq!(machine.active_addr(), 4);

    assert_eq!(machine.begin_step_once(&None), Some(false));
    assert!(!step_with(&mut machine, None, |s| { s.halted = true; s.regs[0] = 5; }, |_| {}));
    machine.end_step_once();
    assert!(machine.last_state.halted);
    assert_eq!(machine.status_label(), "halted");
    assert_eq!(machine.active_addr(), 4);
    assert_eq!(machine.current_addr(), None);
    assert_eq!(machine.last_steps, 3);
    assert_eq!(machine.begin_step_once(&None), None);
}

#[test]
fn changes_age_from_recent_to_stable() {
    let mut machine = DemoMachine::new(Ok(add_bytes()));
    machine.run_source(Ok(add_bytes()), &None);
    assert!(step_with(&mut machine, None, |s| s.q = true, |_| {}));
    assert_eq!(machine.control_age(ControlField::Q), ChangeAge::Recent);
    assert!(step_with(&mut machine, None, |_| {}, |_| {}));
    assert_eq!(machine.control_age(ControlField::Q), ChangeAge::Recent);
    assert!(step_with(&mut machine, None, |_| {}, |_| {}));
    assert_eq!(machine.control_age(ControlField::Q), ChangeAge::Older);
    for _ in 0..8 {
        assert!(step_with(&mut machine, None, |_| {}, |_| {}));
    }
    assert_eq!(machine.control_age(ControlField::Q), ChangeAge::Older);
    assert!(step_with(&mut machine, None, |_| {}, |_| {}));
    assert_eq!(machine.control_age(ControlField::Q), ChangeAge::Stable);
}

#[test]
fn joystick_frame_completes_on_ball_store() {
    let mut machine = DemoMachine::new(Ok(add_bytes()));
    let program = vec![0x61, 0xF8, 0x00, 0xA1, 0x63, 0x00];
    assert!(machine.switch_demo(DemoKind::Joystick, Ok(program), &None));
    assert!(machine.running());
    assert_eq!(machine.last_state.x, 15);
    assert!(machine.set_position(10, 20));
    assert_eq!((machine.x, machine.y), (10, 20));

    // OUT 1 asks the board to clear the video bytes behind the program.
    machine.memory[0x40] = 0x55;
    assert!(step_with(&mut machine, None, |s| s.regs[0] = 1, |b| {
        b.output_port(1, 0, 0);
    }));
    assert_eq!(machine.memory[0x40], 0);
    assert_eq!(machine.memory[0], 0x61);
    // Strobes show on the scope.
    assert!(step_with(&mut machine, None, |s| s.regs[1] = 0x84, |b| {
        b.output_port(3, 1, 3);
        b.output_port(2, 2, 4);
    }));
    assert_eq!(
        machine.scope.pulse(JoystickAxis::Y),
        Some(ScopePulse { trigger_tick: 2, delay_ticks: 3 })
    );
    assert_eq!(
        machine.scope.pulse(JoystickAxis::X),
        Some(ScopePulse { trigger_tick: 2, delay_ticks: 2 })
    );
    assert!(machine.scope_samples(JoystickAxis::Y)[3].high);
    assert!(!machine.scope_samples(JoystickAxis::Y)[4].high);
    // The monitor keeps the old picture until the ball is stored.
    let memory_before = machine.memory.clone();
    assert!(step_with(&mut machine, Some(2), |_| {}, |_| {}));
    assert_eq!(machine.completed_frames, 0);
    assert!(step_with(&mut machine, Some(1), |_| {}, |_| {}));
    assert_eq!(machine.completed_frames, 1);
    assert_eq!(machine.last_ball_addr, Some(0x84));
    assert_eq!(machine.visible_memory, memory_before);

    let pixels = machine.monitor_pixels();
    assert_eq!(pixels.len(), 2048);
    // Byte 0 holds 0x61: pixels 1, 2 and 7 are lit, and they are code.
    assert_eq!(pixels[1], Pixel { on: true, ball: false, code: true });
    assert_eq!(pixels[0], Pixel { on: false, ball: false, code: true });
    assert_eq!(pixels[7].on, true);
    assert_eq!(pixels[8 * 6].code, false);
}

#[test]
fn first_frame_over_budget_crashes() {
    let mut machine = DemoMachine::new(Ok(add_bytes()));
    assert!(machine.switch_demo(DemoKind::Joystick, Ok(add_bytes()), &None));
    for _ in 0..79 {
        assert!(step_with(&mut machine, None, |_| {}, |_| {}));
    }
    assert!(!step_with(&mut machine, None, |_| {}, |_| {}));
    assert!(machine.crashed);
    assert!(!machine.running());
    assert_eq!(
        machine.last_error.as_deref(),
        Some("frame exceeded instruction budget")
    );
}

#[test]
fn step_failures_name_the_address() {
    let mut machine = DemoMachine::new(Ok(add_bytes()));
    assert!(machine.switch_demo(DemoKind::Logo, Ok(vec![0x00]), &None));
    let mut state = machine.last_state;
    state.regs[0] = 0x00af;
    machine.last_state = state;
    let board = machine.begin_step().expect("board");
    assert_eq!(machine.last_executed_addr, Some(0x00af));
    assert!(!machine.finish_step(board, StepOutcome::DecodeFailed("Truncated".to_string())));
    assert!(machine.crashed);
    assert_eq!(
        machine.last_error.as_deref(),
        Some("decode error at 0x00af: Truncated")
    );
    assert!(machine.begin_step().is_none());

    let mut machine = DemoMachine::new(Ok(add_bytes()));
    assert!(machine.run_source(Ok(add_bytes()), &None));
    let board = machine.begin_step().expect("board");
    let mut state = machine.last_state;
    state.instr_count = 1;
    let memory = machine.memory.clone();
    assert!(!machine.finish_step(
        board,
        StepOutcome::ExecuteFailed {
            detail: "Fault".to_string(),
            state,
            memory,
        }
    ));
    assert_eq!(
        machine.last_error.as_deref(),
        Some("emulator error at 0x0000: Fault")
    );
    assert_eq!(machine.last_steps, 1);
}

#[test]
fn halted_cpu_is_a_fault_when_stepped_again() {
    let mut machine = DemoMachine::new(Ok(add_bytes()));
    assert!(machine.run_source(Ok(add_bytes()), &None));
    let mut state = machine.last_state;
    state.halted = true;
    machine.last_state = state;
    assert!(machine.begin_step().is_none());
    assert!(machine.crashed);
    assert_eq!(machine.last_error.as_deref(), Some("CPU was already halted"));
}

#[test]
fn cassette_loader_records_tape_audio() {
    let mut machine = DemoMachine::new(Ok(add_bytes()));
    let logo = vec![0xff; 256];
    assert!(machine.switch_demo(DemoKind::Cassette, Ok(vec![0x6C, 0x00]), &Some(logo.clone())));
    let initial = machine.cassette_scope_samples();
    for _ in 0..18 {
        assert!(step_with(&mut machine, None, |_| {}, |b| {
            b.input_port(4);
        }));
    }
    assert_eq!(machine.cassette_bytes_read, 18);
    assert_eq!(machine.cassette_audio.len(), 18);
    assert_eq!(machine.cassette_audio[16], 0xa5);
    assert_eq!(machine.cassette_audio[17], 0xff);
    assert_ne!(initial, machine.cassette_scope_samples());
    // The monitor follows memory after every instruction outside the joystick demo.
    assert_eq!(machine.visible_memory, machine.memory);
}

#[test]
fn missing_board_stops_the_run() {
    let mut machine = DemoMachine::new(Ok(add_bytes()));
    assert!(machine.run_source(Ok(add_bytes()), &None));
    let board = machine.begin_step().expect("board");
    drop(board);
    assert!(machine.begin_step().is_none());
    assert_eq!(machine.last_error.as_deref(), Some("missing I/O board state"));
    assert!(!machine.running());
    assert!(!machine.crashed);
}

#[test]
fn clearing_video_keeps_code_and_other_pages() {
    let mut machine = DemoMachine::new(Ok(add_bytes()));
    machine.switch_demo(DemoKind::Cassette, Ok(vec![1, 2, 3]), &None);
    for b in machine.memory.iter_mut() {
        *b = 0x77;
    }
    machine.clear_non_code_video();
    assert_eq!(machine.memory[0x00ff], 0x77);
    assert_eq!(machine.memory[0x0100], 0x77);
    assert_eq!(machine.memory[0x0102], 0x77);
    assert_eq!(machine.memory[0x0103], 0x00);
    assert_eq!(machine.memory[0x01ff], 0x00);
    assert_eq!(machine.memory[0x0200], 0x77);
}

#[test]
fn cpu_snapshot_reads_registers() {
    let mut state = CpuSnapshot::new();
    state.regs[3] = 0x1234;
    state.p = 3;
    assert_eq!(state.pc(), 0x1234);
    assert_eq!(state.read_reg(3), 0x1234);
    assert_eq!(state.read_reg(0), 0);
}
