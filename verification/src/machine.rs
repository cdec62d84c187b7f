//! The demo machine: memory, the CPU registers between instructions, the
//! I/O board, and everything the UI shows about the run. Each instruction
//! is executed in three moves: `begin_step` hands out the board and the
//! registers, the emulator executes one instruction, and `finish_step`
//! takes its outcome and decides what the machine does with it.

use vstd::prelude::*;
use crate::board::{
    BoardAction, BoardView, WebIoBoard, cassette_stream_for, spec_cassette_stream,
    spec_tape_range,
};
use crate::cpu::CpuSnapshot;
use crate::kinds::{
    DemoKind, MAX_STEPS_PER_CASSETTE_LOAD, MAX_STEPS_PER_FRAME, MAX_STEPS_PER_RUN, MemoryMap,
    SCREEN_BYTES, spec_memory_map, video_page_fits,
};
use crate::scope::{
    CassetteScopeSample, JoystickAxis, ScopePulse, ScopeSample, ScopeState, cassette_waveform_samples,
    is_bit_set, msb_bit, spec_waveform,
};
use crate::text::{push_hex4, spec_hex4};

verus! {

/// Steps since a change within which it shows as recent.
pub const CHANGE_RECENT_STEPS: u64 = 1;

/// Steps since a change within which it shows as older.
pub const CHANGE_OLDER_STEPS: u64 = 10;

/// How long ago a register or control field last changed.
#[derive(Copy, Clone, Debug, PartialEq, Eq, Structural)]
pub enum ChangeAge {
    Recent,
    Older,
    Stable,
}

/// The control fields the register panel tracks.
#[derive(Copy, Clone, Debug, PartialEq, Eq, Structural)]
pub enum ControlField {
    Pc,
    Active,
    D,
    Df,
    P,
    X,
    Ef4,
    Q,
}

impl ControlField {
    pub open spec fn spec_index(self) -> int {
        match self {
            ControlField::Pc => 0,
            ControlField::Active => 1,
            ControlField::D => 2,
            ControlField::Df => 3,
            ControlField::P => 4,
            ControlField::X => 5,
            ControlField::Ef4 => 6,
            ControlField::Q => 7,
        }
    }

    pub fn index(self) -> (r: usize)
        ensures
            r == self.spec_index(),
    {
        match self {
            ControlField::Pc => 0,
            ControlField::Active => 1,
            ControlField::D => 2,
            ControlField::Df => 3,
            ControlField::P => 4,
            ControlField::X => 5,
            ControlField::Ef4 => 6,
            ControlField::Q => 7,
        }
    }
}

/// What the emulator made of the instruction at PC.
pub enum StepOutcome {
    /// The bytes at PC are no instruction; the text says why.
    DecodeFailed(String),
    /// The emulator refused to execute it; the text says why, and the
    /// registers and memory are as it left them.
    ExecuteFailed { detail: String, state: CpuSnapshot, memory: Vec<u8> },
    /// One instruction ran. `store_reg` is the register an `STR` stored
    /// through, if the instruction was an `STR`.
    Executed { store_reg: Option<u8>, state: CpuSnapshot, memory: Vec<u8> },
}

/// Everything the machine holds, as values.
pub ghost struct MachineView {
    pub memory: Seq<u8>,
    pub visible_memory: Seq<u8>,
    pub last_state: CpuSnapshot,
    pub x: u8,
    pub y: u8,
    pub last_steps: u64,
    pub crashed: bool,
    pub last_error: Option<Seq<char>>,
    pub program_len: usize,
    pub last_executed_addr: Option<u16>,
    pub completed_frames: u64,
    pub last_ball_addr: Option<u16>,
    pub cassette_bytes_read: usize,
    pub cassette_audio: Seq<u8>,
    pub kind: DemoKind,
    pub memory_map: MemoryMap,
    pub scope: ScopeState,
    pub reg_changed_at: Seq<Option<u64>>,
    pub control_changed_at: Seq<Option<u64>>,
    pub board: Option<BoardView>,
    pub running: bool,
}

/// How the monitor draws one pixel: lit or dark, whether it is the ball,
/// and whether the byte behind it holds program code.
#[derive(Copy, Clone, Debug, PartialEq, Eq, Structural)]
pub struct Pixel {
    pub on: bool,
    pub ball: bool,
    pub code: bool,
}

/// Pixel `i` of the monitor, row by row, each byte of the video page
/// giving eight pixels from its most significant bit down.
pub open spec fn spec_pixel(v: MachineView, i: int) -> Pixel {
    let idx = i / 8;
    let addr = v.memory_map.video_base + idx;
    let on = msb_bit(v.visible_memory[addr], (i % 8) as u8);
    Pixel {
        on,
        ball: on && v.last_ball_addr == Some(addr as u16),
        code: addr < v.program_len,
    }
}

/// Pixels on the monitor.
pub const SCREEN_PIXELS: usize = 2048;

pub struct DemoMachine {
    /// What the CPU reads and writes.
    pub memory: Vec<u8>,
    /// What the monitor shows: memory as of the last completed picture.
    pub visible_memory: Vec<u8>,
    pub last_state: CpuSnapshot,
    pub x: u8,
    pub y: u8,
    pub last_steps: u64,
    pub crashed: bool,
    pub last_error: Option<String>,
    pub program_len: usize,
    pub last_executed_addr: Option<u16>,
    pub completed_frames: u64,
    pub last_ball_addr: Option<u16>,
    pub cassette_bytes_read: usize,
    pub cassette_audio: Vec<u8>,
    pub kind: DemoKind,
    pub memory_map: MemoryMap,
    pub scope: ScopeState,
    reg_changed_at: Vec<Option<u64>>,
    control_changed_at: Vec<Option<u64>>,
    board: Option<WebIoBoard>,
    running: bool,
}

pub open spec fn string_view(s: Option<String>) -> Option<Seq<char>> {
    match s {
        Some(t) => Some(t@),
        None => None,
    }
}

pub open spec fn board_view(b: Option<WebIoBoard>) -> Option<BoardView> {
    match b {
        Some(t) => Some(t@),
        None => None,
    }
}

/// The assembled program, or the assembler's complaint.
pub open spec fn assembly_view(a: Result<Vec<u8>, String>) -> Result<Seq<u8>, Seq<char>> {
    match a {
        Ok(b) => Ok(b@),
        Err(e) => Err(e@),
    }
}

/// The assembled logo, if it assembled.
pub open spec fn logo_view(logo: Option<Vec<u8>>) -> Option<Seq<u8>> {
    match logo {
        Some(b) => Some(b@),
        None => None,
    }
}

impl View for DemoMachine {
    type V = MachineView;

    closed spec fn view(&self) -> MachineView {
        MachineView {
            memory: self.memory@,
            visible_memory: self.visible_memory@,
            last_state: self.last_state,
            x: self.x,
            y: self.y,
            last_steps: self.last_steps,
            crashed: self.crashed,
            last_error: string_view(self.last_error),
            program_len: self.program_len,
            last_executed_addr: self.last_executed_addr,
            completed_frames: self.completed_frames,
            last_ball_addr: self.last_ball_addr,
            cassette_bytes_read: self.cassette_bytes_read,
            cassette_audio: self.cassette_audio@,
            kind: self.kind,
            memory_map: self.memory_map,
            scope: self.scope,
            reg_changed_at: self.reg_changed_at@,
            control_changed_at: self.control_changed_at@,
            board: board_view(self.board),
            running: self.running,
        }
    }
}

/// A machine whose memory matches its map and whose CPU state designates
/// real registers.
pub open spec fn machine_wf(v: MachineView) -> bool {
    &&& v.memory.len() == v.memory_map.ram_size
    &&& v.visible_memory.len() == v.memory_map.ram_size
    &&& video_page_fits(v.memory_map)
    &&& v.memory_map.ram_size <= 0x10000
    &&& v.last_state.wf()
    &&& v.reg_changed_at.len() == 16
    &&& v.control_changed_at.len() == 8
}

/// RAM of `ram` bytes holding `program` from address 0 (what does not fit
/// is dropped) and zeros elsewhere.
pub open spec fn spec_loaded(ram: nat, program: Seq<u8>) -> Seq<u8> {
    Seq::new(
        ram,
        |a: int|
            if a < program.len() {
                program[a]
            } else {
                0u8
            },
    )
}

pub open spec fn assemble_error_text(detail: Seq<char>) -> Seq<char> {
    "assemble error: "@ + detail
}

pub open spec fn decode_error_text(pc: u16, detail: Seq<char>) -> Seq<char> {
    "decode error at 0x"@ + spec_hex4(pc) + ": "@ + detail
}

pub open spec fn emulator_error_text(pc: u16, detail: Seq<char>) -> Seq<char> {
    "emulator error at 0x"@ + spec_hex4(pc) + ": "@ + detail
}

pub open spec fn missing_board_text() -> Seq<char> {
    "missing I/O board state"@
}

pub open spec fn already_halted_text() -> Seq<char> {
    "CPU was already halted"@
}

pub open spec fn budget_text() -> Seq<char> {
    "frame exceeded instruction budget"@
}

/// The machine right after (re)loading the program of `kind`: memory and
/// monitor hold the program and zeros, every record of the last run is
/// cleared, and an assembly failure leaves it crashed with the reason.
pub open spec fn spec_reset(
    kind: DemoKind,
    x: u8,
    y: u8,
    assembled: Result<Seq<u8>, Seq<char>>,
) -> MachineView {
    let map = spec_memory_map(kind);
    let program = match assembled {
        Ok(b) => b,
        Err(_) => Seq::empty(),
    };
    MachineView {
        memory: spec_loaded(map.ram_size as nat, program),
        visible_memory: spec_loaded(map.ram_size as nat, program),
        last_state: CpuSnapshot::spec_reset(),
        x,
        y,
        last_steps: 0,
        crashed: assembled is Err,
        last_error: match assembled {
            Ok(_) => None,
            Err(e) => Some(assemble_error_text(e)),
        },
        program_len: match assembled {
            Ok(b) => b.len() as usize,
            Err(_) => 0,
        },
        last_executed_addr: None,
        completed_frames: 0,
        last_ball_addr: None,
        cassette_bytes_read: 0,
        cassette_audio: Seq::empty(),
        kind,
        memory_map: map,
        scope: ScopeState::spec_empty(),
        reg_changed_at: Seq::new(16, |i: int| None),
        control_changed_at: Seq::new(8, |i: int| None),
        board: None,
        running: false,
    }
}

/// A fresh board for a run: nothing pending, the demo's tape at its start.
pub open spec fn fresh_board(kind: DemoKind, logo: Option<Seq<u8>>) -> BoardView {
    BoardView {
        action: None,
        pulses: Seq::empty(),
        cassette: spec_cassette_stream(kind, logo),
        pos: 0,
    }
}

/// The machine at the start of a frame with the joystick at (`x`, `y`):
/// the CPU reset with X designating R15 and a fresh board.
pub open spec fn spec_started(v: MachineView, x: u8, y: u8, logo: Option<Seq<u8>>) -> MachineView {
    MachineView {
        x,
        y,
        last_state: CpuSnapshot { x: 15, ..CpuSnapshot::spec_reset() },
        last_steps: 0,
        last_error: None,
        last_executed_addr: None,
        board: Some(fresh_board(v.kind, logo)),
        running: true,
        ..v
    }
}

/// The instruction budget of a run of `kind`.
pub open spec fn spec_max_steps(kind: DemoKind) -> u64 {
    match kind {
        DemoKind::Joystick => MAX_STEPS_PER_FRAME,
        DemoKind::Cassette => MAX_STEPS_PER_CASSETTE_LOAD,
        _ => MAX_STEPS_PER_RUN,
    }
}

/// Memory after the board asked for the video page to be cleared: the
/// video bytes past the program are zero, all else is kept.
pub open spec fn spec_cleared(mem: Seq<u8>, map: MemoryMap, program_len: usize) -> Seq<u8> {
    let start = if program_len < SCREEN_BYTES {
        program_len as int
    } else {
        SCREEN_BYTES as int
    };
    Seq::new(
        mem.len(),
        |a: int|
            if map.video_base + start <= a < map.video_base + SCREEN_BYTES {
                0u8
            } else {
                mem[a]
            },
    )
}

/// Whether control field `i` differs between two CPU states (PC and the
/// active address both follow PC).
pub open spec fn control_differs(i: int, before: CpuSnapshot, after: CpuSnapshot) -> bool {
    if i == 0 || i == 1 {
        before.spec_pc() != after.spec_pc()
    } else if i == 2 {
        before.d != after.d
    } else if i == 3 {
        before.df != after.df
    } else if i == 4 {
        before.p != after.p
    } else if i == 5 {
        before.x != after.x
    } else if i == 6 {
        before.ef@[3] != after.ef@[3]
    } else {
        before.q != after.q
    }
}

/// Change stamps after one instruction: each field that changed is
/// stamped with the new instruction count.
pub open spec fn spec_track_controls(
    stamps: Seq<Option<u64>>,
    before: CpuSnapshot,
    after: CpuSnapshot,
) -> Seq<Option<u64>> {
    Seq::new(
        8,
        |i: int|
            if control_differs(i, before, after) {
                Some(after.instr_count)
            } else {
                stamps[i]
            },
    )
}

pub open spec fn spec_track_regs(
    stamps: Seq<Option<u64>>,
    before: CpuSnapshot,
    after: CpuSnapshot,
) -> Seq<Option<u64>> {
    Seq::new(
        16,
        |i: int|
            if before.regs@[i] != after.regs@[i] {
                Some(after.instr_count)
            } else {
                stamps[i]
            },
    )
}

/// How a change stamped at `changed_at` looks when the CPU has executed
/// `now` instructions.
pub open spec fn spec_change_age(now: u64, changed_at: Option<u64>) -> ChangeAge {
    match changed_at {
        None => ChangeAge::Stable,
        Some(c) => {
            let age = if now >= c {
                now - c
            } else {
                0
            };
            if age <= CHANGE_RECENT_STEPS {
                ChangeAge::Recent
            } else if age <= CHANGE_OLDER_STEPS {
                ChangeAge::Older
            } else {
                ChangeAge::Stable
            }
        },
    }
}

/// The scope after the strobes of one instruction, in the order they
/// happened, all stamped with `tick`.
pub open spec fn spec_record_pulses(
    scope: ScopeState,
    pulses: Seq<(JoystickAxis, u8)>,
    tick: u64,
) -> ScopeState
    decreases pulses.len(),
{
    if pulses.len() == 0 {
        scope
    } else {
        spec_record_pulses(scope, pulses.drop_last(), tick).spec_record(
            pulses.last().0,
            tick,
            pulses.last().1,
        )
    }
}

/// The tape audio after the head moved from `prev` to `now`: the cassette
/// demo appends the tape bytes passed over.
pub open spec fn spec_audio_after(
    audio: Seq<u8>,
    kind: DemoKind,
    tape: Seq<u8>,
    prev: usize,
    now: usize,
) -> Seq<u8> {
    if kind == DemoKind::Cassette && now > prev {
        audio + spec_tape_range(tape, prev as int, now as int)
    } else {
        audio
    }
}

/// Whether the joystick program just stored the ball: an `STR` through R1.
pub open spec fn spec_ball_store(v: MachineView, store_reg: Option<u8>) -> bool {
    v.kind == DemoKind::Joystick && store_reg == Some(1u8)
}

/// Frames completed once the instruction ran.
pub open spec fn spec_frames_after(v: MachineView, store_reg: Option<u8>) -> u64 {
    if spec_ball_store(v, store_reg) {
        (v.completed_frames + 1) as u64
    } else {
        v.completed_frames
    }
}

/// Whether a run that has completed no frame used up its budget without
/// halting.
pub open spec fn spec_overran(v: MachineView, store_reg: Option<u8>, state: CpuSnapshot) -> bool {
    !state.halted && state.instr_count >= spec_max_steps(v.kind) && spec_frames_after(v, store_reg)
        == 0
}

/// Memory once the board's request is carried out.
pub open spec fn spec_memory_after(v: MachineView, board: BoardView, memory: Seq<u8>) -> Seq<u8> {
    match board.action {
        Some(BoardAction::ClearVideo) => spec_cleared(memory, v.memory_map, v.program_len),
        None => memory,
    }
}

/// What the monitor shows once the instruction ran: the new memory when a
/// picture completed (every instruction outside the joystick demo, the
/// ball store inside it), the last picture otherwise.
pub open spec fn spec_shown_after(v: MachineView, store_reg: Option<u8>, memory: Seq<u8>) -> Seq<u8> {
    if spec_ball_store(v, store_reg) || v.kind != DemoKind::Joystick {
        memory
    } else {
        v.visible_memory
    }
}

/// The machine after one instruction ran: `state`, `memory` and the
/// `board` as the emulator left them, `store_reg` the register of an `STR`.
pub open spec fn spec_executed(
    v: MachineView,
    board: BoardView,
    store_reg: Option<u8>,
    state: CpuSnapshot,
    memory: Seq<u8>,
) -> MachineView {
    let mem = spec_memory_after(v, board, memory);
    let over = spec_overran(v, store_reg, state);
    MachineView {
        memory: mem,
        visible_memory: if state.halted {
            mem
        } else {
            spec_shown_after(v, store_reg, memory)
        },
        last_state: state,
        last_steps: state.instr_count,
        crashed: over,
        running: if state.halted || over {
            false
        } else {
            v.running
        },
        last_error: if over {
            Some(budget_text())
        } else {
            v.last_error
        },
        completed_frames: spec_frames_after(v, store_reg),
        last_ball_addr: if spec_ball_store(v, store_reg) {
            Some(v.last_state.regs@[1])
        } else {
            v.last_ball_addr
        },
        cassette_bytes_read: board.pos as usize,
        cassette_audio: spec_audio_after(
            v.cassette_audio,
            v.kind,
            board.cassette,
            v.cassette_bytes_read,
            board.pos as usize,
        ),
        scope: spec_record_pulses(v.scope, board.pulses, state.instr_count),
        reg_changed_at: spec_track_regs(v.reg_changed_at, v.last_state, state),
        control_changed_at: spec_track_controls(v.control_changed_at, v.last_state, state),
        board: Some(BoardView { action: None, pulses: Seq::empty(), ..board }),
        ..v
    }
}

/// Clearing the video page keeps the program's own bytes and everything
/// outside the page, and leaves the rest of the page dark.
pub proof fn lemma_clear_keeps_code(mem: Seq<u8>, map: MemoryMap, program_len: usize, a: int)
    requires
        0 <= a < mem.len(),
    ensures
        spec_cleared(mem, map, program_len).len() == mem.len(),
        (a < map.video_base + program_len || a < map.video_base || a >= map.video_base
            + SCREEN_BYTES) ==> spec_cleared(mem, map, program_len)[a] == mem[a],
        (map.video_base + program_len <= a < map.video_base + SCREEN_BYTES) ==> spec_cleared(
            mem,
            map,
            program_len,
        )[a] == 0,
{
}

/// In the joystick demo the monitor keeps the last picture until the
/// program stores the ball (or halts); the stored ball completes exactly
/// one frame and is remembered at the address R1 held.
pub proof fn lemma_joystick_pictures(
    v: MachineView,
    board: BoardView,
    store_reg: Option<u8>,
    state: CpuSnapshot,
    memory: Seq<u8>,
)
    requires
        v.kind == DemoKind::Joystick,
        v.completed_frames < u64::MAX,
    ensures
        ({
            let after = spec_executed(v, board, store_reg, state, memory);
            &&& store_reg != Some(1u8) && !state.halted ==> after.visible_memory == v.visible_memory
                && after.completed_frames == v.completed_frames && after.last_ball_addr
                == v.last_ball_addr
            &&& store_reg == Some(1u8) ==> after.completed_frames == v.completed_frames + 1
                && after.last_ball_addr == Some(v.last_state.regs@[1])
        }),
{
}

/// Outside the joystick demo the monitor follows memory after every
/// instruction.
pub proof fn lemma_monitor_follows_memory(
    v: MachineView,
    board: BoardView,
    store_reg: Option<u8>,
    state: CpuSnapshot,
    memory: Seq<u8>,
)
    requires
        v.kind != DemoKind::Joystick,
        board.action is None,
    ensures
        spec_executed(v, board, store_reg, state, memory).visible_memory == memory,
        spec_executed(v, board, store_reg, state, memory).memory == memory,
{
}

/// In the cassette demo the recorded tape audio holds exactly the bytes
/// the loader has read: if it did before an instruction, it does after.
pub proof fn lemma_audio_tracks_tape(
    v: MachineView,
    board: BoardView,
    store_reg: Option<u8>,
    state: CpuSnapshot,
    memory: Seq<u8>,
)
    requires
        v.kind == DemoKind::Cassette,
        v.cassette_audio == board.cassette.take(v.cassette_bytes_read as int),
        v.cassette_bytes_read <= board.pos <= board.cassette.len(),
        board.pos <= usize::MAX,
    ensures
        ({
            let after = spec_executed(v, board, store_reg, state, memory);
            &&& after.cassette_bytes_read == board.pos
            &&& after.cassette_audio == board.cassette.take(board.pos as int)
        }),
{
    let after = spec_executed(v, board, store_reg, state, memory);
    let now = board.pos as usize;
    if board.pos > v.cassette_bytes_read {
        assert(spec_tape_range(board.cassette, v.cassette_bytes_read as int, now as int)
            =~= board.cassette.subrange(v.cassette_bytes_read as int, now as int));
        assert(after.cassette_audio =~= board.cassette.take(board.pos as int));
    } else {
        assert(v.cassette_audio =~= board.cassette.take(board.pos as int));
    }
}

/// A run that overran its budget or faulted is no longer running and
/// keeps the reason.
pub proof fn lemma_overrun_stops(
    v: MachineView,
    board: BoardView,
    store_reg: Option<u8>,
    state: CpuSnapshot,
    memory: Seq<u8>,
)
    requires
        spec_overran(v, store_reg, state),
    ensures
        ({
            let after = spec_executed(v, board, store_reg, state, memory);
            &&& after.crashed
            &&& !spec_running(after)
            &&& after.last_error == Some(budget_text())
        }),
{
}

/// In the joystick demo the monitor shows the memory that the ball store
/// left, so the new picture with the ball appears; outside the joystick
/// demo the monitor shows the memory of every instruction. (Unless the
/// board asked for a clear, that is also the memory the machine keeps.)
pub proof fn lemma_ball_store_shows_picture(
    v: MachineView,
    board: BoardView,
    store_reg: Option<u8>,
    state: CpuSnapshot,
    memory: Seq<u8>,
)
    requires
        !state.halted,
    ensures
        ({
            let after = spec_executed(v, board, store_reg, state, memory);
            &&& v.kind == DemoKind::Joystick && store_reg == Some(1u8) ==> after.visible_memory
                == memory
            &&& v.kind != DemoKind::Joystick ==> after.visible_memory == memory
            &&& v.kind == DemoKind::Joystick && store_reg != Some(1u8) ==> after.visible_memory
                == v.visible_memory
            &&& board.action is None ==> after.memory == memory
        }),
{
}

/// A halted CPU leaves the monitor showing the final memory.
pub proof fn lemma_halt_shows_final_memory(
    v: MachineView,
    board: BoardView,
    store_reg: Option<u8>,
    state: CpuSnapshot,
    memory: Seq<u8>,
)
    requires
        state.halted,
    ensures
        ({
            let after = spec_executed(v, board, store_reg, state, memory);
            &&& after.visible_memory == after.memory
            &&& !after.running
            &&& !after.crashed
        }),
{
}

/// The instruction budgets: the run-to-halt demos (Add, Logo, Pattern)
/// get 400 instructions, a joystick frame 80, the tape load 4096. A run
/// faults exactly when it has not halted, has executed at least its
/// budget and has completed no frame; otherwise it keeps running (until
/// it halts).
pub proof fn lemma_instruction_budgets(
    v: MachineView,
    board: BoardView,
    store_reg: Option<u8>,
    state: CpuSnapshot,
    memory: Seq<u8>,
)
    ensures
        ({
            let after = spec_executed(v, board, store_reg, state, memory);
            let budget: int = if v.kind == DemoKind::Joystick {
                80
            } else if v.kind == DemoKind::Cassette {
                4096
            } else {
                400
            };
            &&& (v.kind == DemoKind::Add || v.kind == DemoKind::Logo || v.kind == DemoKind::Pattern)
                ==> budget == 400
            &&& v.kind != DemoKind::Joystick ==> after.completed_frames == v.completed_frames
            &&& after.crashed == (!state.halted && state.instr_count >= budget
                && after.completed_frames == 0)
            &&& !state.halted && state.instr_count < budget ==> !after.crashed && after.running
                == v.running && after.last_error == v.last_error
            &&& !state.halted && after.completed_frames > 0 ==> !after.crashed && after.running
                == v.running
        }),
{
}

/// Monitor pixel `i` shows bit `i % 8` (from the top) of the byte at
/// address `video_base + i / 8`; it is code exactly when that address is
/// below the program's end, and the ball exactly when it is lit and that
/// address is where the ball was stored.
pub proof fn lemma_monitor_pixel(v: MachineView, i: int)
    requires
        machine_wf(v),
        0 <= i < SCREEN_PIXELS,
    ensures
        ({
            let p = spec_pixel(v, i);
            let addr = v.memory_map.video_base + i / 8;
            let byte = v.visible_memory[addr];
            &&& p.code <==> addr < v.program_len
            &&& p.on <==> (byte & (0x80u8 >> (i % 8) as u8)) != 0
            &&& p.ball <==> p.on && (v.last_ball_addr matches Some(b) && b as int == addr)
        }),
{
    let k = (i % 8) as u8;
    let byte = v.visible_memory[v.memory_map.video_base + i / 8];
    assert(((byte & (0x80u8 >> k)) != 0) == ((byte >> (7 - k) as u8) & 1 == 1)) by (bit_vector)
        requires
            k < 8,
    ;
}

/// After an instruction, every control field and register that changed
/// carries the new instruction count as its change stamp, and every one
/// that did not keeps its stamp. PC and the active address both follow PC.
pub proof fn lemma_change_stamps(
    v: MachineView,
    board: BoardView,
    store_reg: Option<u8>,
    state: CpuSnapshot,
    memory: Seq<u8>,
)
    requires
        machine_wf(v),
        state.wf(),
    ensures
        ({
            let after = spec_executed(v, board, store_reg, state, memory);
            let b = v.last_state;
            let now = Some(state.instr_count);
            let stamp = |f: ControlField| after.control_changed_at[f.spec_index()];
            let old_stamp = |f: ControlField| v.control_changed_at[f.spec_index()];
            let pc_moved = b.regs@[b.p as int] != state.regs@[state.p as int];
            &&& stamp(ControlField::Pc) == (if pc_moved { now } else { old_stamp(ControlField::Pc) })
            &&& stamp(ControlField::Active) == (if pc_moved {
                now
            } else {
                old_stamp(ControlField::Active)
            })
            &&& stamp(ControlField::D) == (if b.d != state.d { now } else { old_stamp(ControlField::D) })
            &&& stamp(ControlField::Df) == (if b.df != state.df {
                now
            } else {
                old_stamp(ControlField::Df)
            })
            &&& stamp(ControlField::P) == (if b.p != state.p { now } else { old_stamp(ControlField::P) })
            &&& stamp(ControlField::X) == (if b.x != state.x { now } else { old_stamp(ControlField::X) })
            &&& stamp(ControlField::Ef4) == (if b.ef@[3] != state.ef@[3] {
                now
            } else {
                old_stamp(ControlField::Ef4)
            })
            &&& stamp(ControlField::Q) == (if b.q != state.q { now } else { old_stamp(ControlField::Q) })
            &&& after.control_changed_at.len() == 8
            &&& after.reg_changed_at.len() == 16
            &&& forall|r: int|
                0 <= r < 16 ==> #[trigger] after.reg_changed_at[r] == (if b.regs@[r] != state.regs@[r] {
                    now
                } else {
                    v.reg_changed_at[r]
                })
        }),
{
}

/// How fresh a change looks: within one instruction it is recent, within
/// ten older, after that (or never) stable.
pub proof fn lemma_change_age_thresholds(now: u64, changed_at: Option<u64>)
    ensures
        changed_at is None ==> spec_change_age(now, changed_at) == ChangeAge::Stable,
        changed_at matches Some(c) ==> {
            let age: int = if now >= c { now - c } else { 0 };
            &&& spec_change_age(now, changed_at) == ChangeAge::Recent <==> age <= 1
            &&& spec_change_age(now, changed_at) == ChangeAge::Older <==> 1 < age <= 10
            &&& spec_change_age(now, changed_at) == ChangeAge::Stable <==> age > 10
        },
{
}

/// Reloading a demo: memory and monitor hold the program from address 0
/// (as much as fits) and zeros after it, in the demo's RAM; the run is
/// stopped with no board, the CPU reset, and the machine is crashed
/// exactly when the program did not assemble, with the assembler's reason.
pub proof fn lemma_reset_loads_program(
    kind: DemoKind,
    x: u8,
    y: u8,
    assembled: Result<Seq<u8>, Seq<char>>,
    a: int,
)
    requires
        assembled matches Ok(p) ==> p.len() <= usize::MAX,
    ensures
        ({
            let r = spec_reset(kind, x, y, assembled);
            &&& r.memory.len() == r.memory_map.ram_size
            &&& r.memory_map == spec_memory_map(kind)
            &&& r.visible_memory == r.memory
            &&& r.kind == kind && r.x == x && r.y == y
            &&& !r.running && r.board is None
            &&& r.last_state.instr_count == 0 && !r.last_state.halted
            &&& r.crashed <==> assembled is Err
            &&& r.completed_frames == 0 && r.last_ball_addr is None && r.cassette_bytes_read == 0
            &&& r.cassette_audio.len() == 0
            &&& assembled matches Ok(p) ==> {
                &&& r.program_len == p.len()
                &&& r.last_error is None
                &&& 0 <= a < r.memory.len() ==> r.memory[a] == (if a < p.len() {
                    p[a]
                } else {
                    0u8
                })
            }
            &&& assembled matches Err(e) ==> {
                &&& r.program_len == 0
                &&& r.last_error == Some("assemble error: "@ + e)
                &&& 0 <= a < r.memory.len() ==> r.memory[a] == 0
            }
        }),
{
}

/// Starting a frame puts the joystick at (`x`, `y`), resets the CPU with
/// X designating R15, gives the run a fresh board at the start of the
/// demo's tape and sets it running, leaving memory and the records of the
/// run as they were.
pub proof fn lemma_start_frame(v: MachineView, x: u8, y: u8, logo: Option<Seq<u8>>)
    ensures
        ({
            let s = spec_started(v, x, y, logo);
            &&& s.x == x && s.y == y
            &&& s.last_state.x == 15 && s.last_state.p == 0 && s.last_state.instr_count == 0
            &&& !s.last_state.halted
            &&& s.running && s.last_error is None && s.last_executed_addr is None
            &&& s.board matches Some(b) && b.pos == 0 && b.action is None && b.pulses.len() == 0
                && b.cassette == spec_cassette_stream(v.kind, logo)
            &&& s.memory == v.memory && s.visible_memory == v.visible_memory && s.kind == v.kind
            &&& s.completed_frames == v.completed_frames && s.crashed == v.crashed
        }),
{
}

/// After an instruction the scope shows, for each axis, the last strobe of
/// that axis the instruction made, stamped with the new instruction count;
/// an axis the instruction did not strobe keeps its trace.
pub proof fn lemma_scope_after_strobes(
    scope: ScopeState,
    pulses: Seq<(JoystickAxis, u8)>,
    tick: u64,
    axis: JoystickAxis,
)
    ensures
        (forall|j: int| 0 <= j < pulses.len() ==> (#[trigger] pulses[j]).0 != axis) ==> spec_record_pulses(
            scope,
            pulses,
            tick,
        ).pulse_of(axis) == scope.pulse_of(axis),
        forall|j: int|
            0 <= j < pulses.len() && (#[trigger] pulses[j]).0 == axis && (forall|k: int|
                j < k < pulses.len() ==> pulses[k].0 != axis) ==> spec_record_pulses(
                scope,
                pulses,
                tick,
            ).pulse_of(axis) == Some(ScopePulse { trigger_tick: tick, delay_ticks: pulses[j].1 }),
    decreases pulses.len(),
{
    if pulses.len() > 0 {
        let init = pulses.drop_last();
        let last = pulses.last();
        lemma_scope_after_strobes(scope, init, tick, axis);
        let mid = spec_record_pulses(scope, init, tick);
        mid.lemma_pulse_of_record(last.0, tick, last.1, axis);
        assert forall|j: int| 0 <= j < init.len() implies #[trigger] init[j] == pulses[j] by {}
        if last.0 != axis {
            assert forall|j: int|
                0 <= j < pulses.len() && (#[trigger] pulses[j]).0 == axis && (forall|k: int|
                    j < k < pulses.len() ==> pulses[k].0 != axis) implies spec_record_pulses(
                scope,
                pulses,
                tick,
            ).pulse_of(axis) == Some(ScopePulse { trigger_tick: tick, delay_ticks: pulses[j].1 }) by {
                assert(j < pulses.len() - 1);
                assert(init[j] == pulses[j]);
                assert forall|k: int| j < k < init.len() implies init[k].0 != axis by {
                    assert(init[k] == pulses[k]);
                }
            }
        } else {
            assert forall|j: int|
                0 <= j < pulses.len() && (#[trigger] pulses[j]).0 == axis && (forall|k: int|
                    j < k < pulses.len() ==> pulses[k].0 != axis) implies spec_record_pulses(
                scope,
                pulses,
                tick,
            ).pulse_of(axis) == Some(ScopePulse { trigger_tick: tick, delay_ticks: pulses[j].1 }) by {
                if j < pulses.len() - 1 {
                    assert(pulses[pulses.len() - 1].0 == axis);
                }
            }
            assert(pulses[pulses.len() - 1].0 == axis);
        }
    }
}

/// Whether switching to `kind` starts a frame: the joystick, logo and
/// cassette demos start (if their program assembled), Add and Pattern wait.
pub open spec fn spec_switch_starts(kind: DemoKind, assembled: Result<Seq<u8>, Seq<char>>) -> bool {
    assembled is Ok && (kind == DemoKind::Joystick || kind == DemoKind::Logo || kind
        == DemoKind::Cassette)
}

/// The machine after switching to `kind`: reloaded, then started (the
/// joystick at its current position, the other demos centred).
pub open spec fn spec_switched(
    v: MachineView,
    kind: DemoKind,
    assembled: Result<Seq<u8>, Seq<char>>,
    logo: Option<Seq<u8>>,
) -> MachineView {
    let loaded = spec_reset(kind, v.x, v.y, assembled);
    if spec_switch_starts(kind, assembled) {
        if kind == DemoKind::Joystick {
            spec_started(loaded, v.x, v.y, logo)
        } else {
            spec_started(loaded, 128, 128, logo)
        }
    } else {
        loaded
    }
}

/// Switching demos: the machine runs the new demo's program in that
/// demo's memory map. The joystick demo starts a frame right away with
/// the joystick where it was, the logo and cassette demos start with it
/// centred, and the Add and Pattern demos wait for a step or a run; a
/// program that does not assemble leaves the machine crashed and idle.
pub proof fn lemma_switch_demo(
    v: MachineView,
    kind: DemoKind,
    assembled: Result<Seq<u8>, Seq<char>>,
    logo: Option<Seq<u8>>,
)
    ensures
        ({
            let s = spec_switched(v, kind, assembled, logo);
            &&& s.kind == kind
            &&& s.memory_map == spec_memory_map(kind)
            &&& assembled is Err ==> s.crashed && !s.running && s.board is None
            &&& assembled is Ok ==> !s.crashed
            &&& (kind == DemoKind::Add || kind == DemoKind::Pattern) ==> !s.running && s.board
                is None
            &&& assembled is Ok && kind == DemoKind::Joystick ==> s.running && s.x == v.x && s.y
                == v.y && s.board is Some
            &&& assembled is Ok && (kind == DemoKind::Logo || kind == DemoKind::Cassette)
                ==> s.running && s.x == 128 && s.y == 128 && s.board is Some
            &&& s.running ==> s.last_state.x == 15 && s.last_state.instr_count == 0
        }),
{
}

/// The machine after the first move of an instruction.
pub open spec fn spec_begun(v: MachineView) -> MachineView {
    if v.crashed || !v.running {
        v
    } else if v.board is None {
        MachineView { running: false, last_error: Some(missing_board_text()), ..v }
    } else if v.last_state.halted {
        MachineView {
            last_steps: v.last_state.instr_count,
            crashed: true,
            running: false,
            last_error: Some(already_halted_text()),
            board: None,
            ..v
        }
    } else {
        MachineView { last_executed_addr: Some(v.last_state.spec_pc()), board: None, ..v }
    }
}

/// Whether the first move of an instruction hands out the board.
pub open spec fn spec_hands_board(v: MachineView) -> bool {
    !v.crashed && v.running && v.board is Some && !v.last_state.halted
}

/// The first move of an instruction: only a running, uncrashed machine
/// with a board and a CPU that has not halted goes on to execute, at the
/// address PC holds. A crashed or idle machine is left as it is; a missing
/// board stops the run with "missing I/O board state"; stepping a halted
/// CPU is a fault, "CPU was already halted". Memory is never touched.
pub proof fn lemma_begin_step(v: MachineView)
    ensures
        ({
            let b = spec_begun(v);
            &&& b.memory == v.memory && b.visible_memory == v.visible_memory
            &&& b.last_state == v.last_state
            &&& (v.crashed || !v.running) ==> b == v
            &&& spec_hands_board(v) ==> !b.crashed && b.running && b.board is None
                && b.last_executed_addr == Some(v.last_state.regs@[v.last_state.p as int])
            &&& !v.crashed && v.running && v.board is None ==> !b.running && !b.crashed
                && b.last_error == Some("missing I/O board state"@)
            &&& !v.crashed && v.running && v.board is Some && v.last_state.halted ==> b.crashed
                && !b.running && b.last_error == Some("CPU was already halted"@)
        }),
{
}

/// The machine after the first half of a single step.
pub open spec fn spec_step_once_begun(v: MachineView, logo: Option<Seq<u8>>) -> MachineView {
    if v.crashed || v.last_state.halted {
        v
    } else if v.board is None {
        MachineView { board: Some(fresh_board(v.kind, logo)), running: true, ..v }
    } else {
        MachineView { running: true, ..v }
    }
}

/// A single step runs exactly when the run has neither crashed nor
/// halted; it keeps a live board (and its tape position) and makes a
/// fresh one only when there is none.
pub proof fn lemma_step_once_begins(v: MachineView, logo: Option<Seq<u8>>)
    ensures
        ({
            let s = spec_step_once_begun(v, logo);
            &&& (v.crashed || v.last_state.halted) ==> s == v
            &&& !(v.crashed || v.last_state.halted) ==> s.running && s.board is Some
            &&& v.board is Some ==> s.board == v.board
            &&& v.board is None && !(v.crashed || v.last_state.halted) ==> (s.board matches Some(b)
                && b.pos == 0)
            &&& s.memory == v.memory && s.last_state == v.last_state
        }),
{
}

/// The status the UI shows for a machine.
pub open spec fn spec_status(v: MachineView) -> Seq<char> {
    if v.crashed {
        "fault"@
    } else if spec_running(v) {
        "running"@
    } else if v.last_state.halted {
        "halted"@
    } else {
        "ready"@
    }
}

/// A fault shows over everything else; a running machine shows as
/// running, a stopped one as halted once its CPU halted and as ready
/// otherwise.
pub proof fn lemma_status(v: MachineView)
    ensures
        v.crashed ==> spec_status(v) == "fault"@,
        !v.crashed && v.running ==> spec_status(v) == "running"@,
        !v.crashed && !v.running && v.last_state.halted ==> spec_status(v) == "halted"@,
        !v.crashed && !v.running && !v.last_state.halted ==> spec_status(v) == "ready"@,
{
}

/// The machine after the second half of a single step.
pub open spec fn spec_step_once_ended(v: MachineView) -> MachineView {
    MachineView {
        running: if !v.last_state.halted && !v.crashed {
            false
        } else {
            v.running
        },
        ..v
    }
}

/// After a single step the run pauses: neither halted nor crashed, it no
/// longer runs, and nothing else changes.
pub proof fn lemma_step_once_pauses(v: MachineView)
    ensures
        !spec_running(spec_step_once_ended(v)) || (v.last_state.halted && v.running && !v.crashed),
        spec_step_once_ended(v) == (MachineView { running: spec_step_once_ended(v).running, ..v }),
        !v.last_state.halted ==> !spec_running(spec_step_once_ended(v)),
{
}

/// Whether the monitor/status strip shows the machine as running.
pub open spec fn spec_running(v: MachineView) -> bool {
    v.running && !v.crashed
}

impl DemoMachine {
    pub open spec fn wf(&self) -> bool {
        machine_wf(self@)
    }

    /// A machine loaded with the Add demo, `assembled` being what the
    /// assembler made of the Add source.
    pub fn new(assembled: Result<Vec<u8>, String>) -> (r: Self)
        ensures
            r.wf(),
            r@ == spec_reset(DemoKind::Add, 128, 128, assembly_view(assembled)),
    {
        let mut machine = DemoMachine {
            memory: Vec::new(),
            visible_memory: Vec::new(),
            last_state: CpuSnapshot::new(),
            x: 128,
            y: 128,
            last_steps: 0,
            crashed: false,
            last_error: None,
            program_len: 0,
            last_executed_addr: None,
            completed_frames: 0,
            last_ball_addr: None,
            cassette_bytes_read: 0,
            cassette_audio: Vec::new(),
            kind: DemoKind::Add,
            memory_map: DemoKind::Add.memory_map(),
            scope: ScopeState::new(),
            reg_changed_at: Vec::new(),
            control_changed_at: Vec::new(),
            board: None,
            running: false,
        };
        machine.reset_with_source(assembled);
        machine
    }

    /// Reloads the current demo from `assembled`, what the assembler made
    /// of its source.
    pub fn reset_with_source(&mut self, assembled: Result<Vec<u8>, String>)
        ensures
            final(self).wf(),
            final(self)@ == spec_reset(old(self)@.kind, old(self)@.x, old(self)@.y, assembly_view(assembled)),
    {
        self.memory_map = self.kind.memory_map();
        let ram = self.memory_map.ram_size;
        self.memory = zeroed(ram);
        self.visible_memory = zeroed(ram);
        self.last_state = CpuSnapshot::new();
        self.last_steps = 0;
        self.crashed = false;
        self.last_error = None;
        self.last_executed_addr = None;
        self.completed_frames = 0;
        self.last_ball_addr = None;
        self.cassette_bytes_read = 0;
        self.cassette_audio = Vec::new();
        self.scope = ScopeState::new();
        self.reg_changed_at = no_stamps(16);
        self.control_changed_at = no_stamps(8);
        self.board = None;
        self.running = false;
        match assembled {
            Ok(bytes) => {
                self.program_len = bytes.len();
                load_bytes(&mut self.memory, &bytes);
                load_bytes(&mut self.visible_memory, &bytes);
            },
            Err(detail) => {
                self.program_len = 0;
                self.crashed = true;
                let mut text = String::from_str("assemble error: ");
                text.append(detail.as_str());
                self.last_error = Some(text);
            },
        }
        assert(self.memory@ =~= spec_reset(old(self)@.kind, old(self)@.x, old(self)@.y, assembly_view(assembled)).memory);
        assert(self.visible_memory@ =~= spec_reset(old(self)@.kind, old(self)@.x, old(self)@.y, assembly_view(assembled)).visible_memory);
        assert(self.reg_changed_at@ =~= Seq::new(16, |i: int| None::<u64>));
        assert(self.control_changed_at@ =~= Seq::new(8, |i: int| None::<u64>));
    }

    /// The tape of the current demo, `logo` being what the assembler made
    /// of the logo source.
    pub fn cassette_stream(&self, logo: &Option<Vec<u8>>) -> (r: Vec<u8>)
        ensures
            r@ == spec_cassette_stream(self@.kind, logo_view(*logo)),
    {
        cassette_stream_for(self.kind, logo)
    }

    /// Starts a frame with the joystick at (`x`, `y`). A crashed machine
    /// stays as it is; the result says whether a frame started, in which
    /// case the RC networks are to be set to (`x`, `y`).
    pub fn start_frame(&mut self, x: u8, y: u8, logo: &Option<Vec<u8>>) -> (r: bool)
        requires
            old(self).wf(),
        ensures
            final(self).wf(),
            r == !old(self)@.crashed,
            r ==> final(self)@ == spec_started(old(self)@, x, y, logo_view(*logo)),
            !r ==> final(self)@ == old(self)@,
    {
        if self.crashed {
            return false;
        }
        self.x = x;
        self.y = y;
        let mut state = CpuSnapshot::new();
        state.x = 15;
        self.last_state = state;
        self.last_steps = 0;
        self.last_error = None;
        self.last_executed_addr = None;
        let cassette = self.cassette_stream(logo);
        self.board = Some(WebIoBoard::new(cassette));
        self.running = true;
        true
    }

    /// Switches to `kind`, loading `assembled` (what the assembler made of
    /// its source). The joystick demo starts a frame at the current
    /// joystick position, the logo and cassette demos one at the centre;
    /// the result says whether a frame started.
    pub fn switch_demo(
        &mut self,
        kind: DemoKind,
        assembled: Result<Vec<u8>, String>,
        logo: &Option<Vec<u8>>,
    ) -> (r: bool)
        requires
            old(self).wf(),
        ensures
            final(self).wf(),
            ({
                let loaded = spec_reset(kind, old(self)@.x, old(self)@.y, assembly_view(assembled));
                let starts = !loaded.crashed && (kind == DemoKind::Joystick || kind == DemoKind::Logo
                    || kind == DemoKind::Cassette);
                let at = if kind == DemoKind::Joystick {
                    (old(self)@.x, old(self)@.y)
                } else {
                    (128u8, 128u8)
                };
                &&& r == starts
                &&& starts ==> final(self)@ == spec_started(loaded, at.0, at.1, logo_view(*logo))
                &&& !starts ==> final(self)@ == loaded
            }),
            final(self)@ == spec_switched(old(self)@, kind, assembly_view(assembled), logo_view(*logo)),
            r == spec_switch_starts(kind, assembly_view(assembled)),
    {
        self.kind = kind;
        self.reset_with_source(assembled);
        match kind {
            DemoKind::Add => false,
            DemoKind::Joystick => {
                let x = self.x;
                let y = self.y;
                self.start_frame(x, y, logo)
            },
            DemoKind::Logo | DemoKind::Cassette => self.start_frame(128, 128, logo),
            DemoKind::Pattern => false,
        }
    }

    /// Loads `assembled` (an edited source, assembled) and starts it with
    /// the joystick centred; the result says whether it started.
    pub fn run_source(&mut self, assembled: Result<Vec<u8>, String>, logo: &Option<Vec<u8>>) -> (r: bool)
        requires
            old(self).wf(),
        ensures
            final(self).wf(),
            ({
                let loaded = spec_reset(old(self)@.kind, old(self)@.x, old(self)@.y, assembly_view(assembled));
                &&& r == !loaded.crashed
                &&& r ==> final(self)@ == spec_started(loaded, 128, 128, logo_view(*logo))
                &&& !r ==> final(self)@ == loaded
            }),
    {
        self.reset_with_source(assembled);
        self.start_frame(128, 128, logo)
    }

    /// Moves the joystick; the result says whether a board is live, whose
    /// RC networks are then to follow.
    pub fn set_position(&mut self, x: u8, y: u8) -> (r: bool)
        ensures
            final(self)@ == (MachineView { x, y, ..old(self)@ }),
            r == old(self)@.board is Some,
    {
        self.x = x;
        self.y = y;
        self.board.is_some()
    }

    pub fn running(&self) -> (r: bool)
        ensures
            r == spec_running(self@),
    {
        self.running && !self.crashed
    }

    /// The UI status of the run.
    pub fn status_label(&self) -> (r: &'static str)
        ensures
            r@ == (if self@.crashed {
                "fault"@
            } else if spec_running(self@) {
                "running"@
            } else if self@.last_state.halted {
                "halted"@
            } else {
                "ready"@
            }),
            r@ == spec_status(self@),
    {
        if self.crashed {
            "fault"
        } else if self.running() {
            "running"
        } else if self.last_state.halted {
            "halted"
        } else {
            "ready"
        }
    }

    /// Zeroes the video bytes that the program does not occupy.
    pub fn clear_non_code_video(&mut self)
        requires
            old(self).wf(),
        ensures
            final(self)@ == (MachineView {
                memory: spec_cleared(old(self)@.memory, old(self)@.memory_map, old(self)@.program_len),
                ..old(self)@
            }),
    {
        let start = if self.program_len < SCREEN_BYTES {
            self.program_len
        } else {
            SCREEN_BYTES
        };
        let base = self.memory_map.video_base as usize;
        let ghost target = spec_cleared(self.memory@, self.memory_map, self.program_len);
        let mut offset = start;
        while offset < SCREEN_BYTES
            invariant
                start <= offset <= SCREEN_BYTES,
                base == self.memory_map.video_base,
                base + SCREEN_BYTES <= self.memory@.len(),
                start == (if self.program_len < SCREEN_BYTES {
                    self.program_len as int
                } else {
                    SCREEN_BYTES as int
                }),
                self.memory@.len() == old(self)@.memory.len(),
                target == spec_cleared(old(self)@.memory, self.memory_map, self.program_len),
                forall|a: int|
                    0 <= a < self.memory@.len() ==> #[trigger] self.memory@[a] == (if base + start
                        <= a < base + offset {
                        0u8
                    } else {
                        old(self)@.memory[a]
                    }),
                self@ == (MachineView { memory: self.memory@, ..old(self)@ }),
            decreases SCREEN_BYTES - offset,
        {
            self.memory.set(base + offset, 0);
            offset = offset + 1;
        }
        assert(self.memory@ =~= target);
    }

    /// The 256 bytes of the video page as the monitor shows them.
    pub fn screen_bytes(&self) -> (r: Vec<u8>)
        requires
            self.wf(),
        ensures
            r@ == self@.visible_memory.subrange(
                self@.memory_map.video_base as int,
                self@.memory_map.video_base + SCREEN_BYTES,
            ),
    {
        let base = self.memory_map.video_base as usize;
        let mut out: Vec<u8> = Vec::new();
        let mut i: usize = 0;
        while i < SCREEN_BYTES
            invariant
                i <= SCREEN_BYTES,
                base == self.memory_map.video_base,
                base + SCREEN_BYTES <= self.visible_memory@.len(),
                out@ == self.visible_memory@.subrange(base as int, base + i),
            decreases SCREEN_BYTES - i,
        {
            out.push(self.visible_memory[base + i]);
            i = i + 1;
            assert(out@ =~= self.visible_memory@.subrange(base as int, base + i));
        }
        out
    }

    /// Every pixel of the monitor, row by row.
    pub fn monitor_pixels(&self) -> (r: Vec<Pixel>)
        requires
            self.wf(),
        ensures
            r@ == Seq::new(SCREEN_PIXELS as nat, |i: int| spec_pixel(self@, i)),
    {
        let bytes = self.screen_bytes();
        let base = self.memory_map.video_base as usize;
        let mut out: Vec<Pixel> = Vec::new();
        let mut i: usize = 0;
        while i < SCREEN_PIXELS
            invariant
                i <= SCREEN_PIXELS,
                base == self@.memory_map.video_base,
                machine_wf(self@),
                bytes@ == self@.visible_memory.subrange(base as int, base + SCREEN_BYTES),
                out@ == Seq::new(i as nat, |k: int| spec_pixel(self@, k)),
            decreases SCREEN_PIXELS - i,
        {
            let idx = i / 8;
            let addr = base + idx;
            let on = is_bit_set(bytes[idx], (i % 8) as u8);
            let ball = on && match self.last_ball_addr {
                Some(b) => b as usize == addr,
                None => false,
            };
            out.push(Pixel { on, ball, code: addr < self.program_len });
            i = i + 1;
            assert(out@ =~= Seq::new(i as nat, |k: int| spec_pixel(self@, k)));
        }
        out
    }

    /// The address shown as active: PC while the CPU runs; once it halted,
    /// the address of the last instruction executed (or the byte before
    /// PC if none was).
    pub fn active_addr(&self) -> (r: u16)
        requires
            self.wf(),
        ensures
            r == (if self@.last_state.halted {
                match self@.last_executed_addr {
                    Some(a) => a,
                    None => (if self@.last_state.spec_pc() > 0 {
                        (self@.last_state.spec_pc() - 1) as u16
                    } else {
                        0u16
                    }),
                }
            } else {
                self@.last_state.spec_pc()
            }),
    {
        if self.last_state.halted {
            match self.last_executed_addr {
                Some(a) => a,
                None => self.last_state.pc().saturating_sub(1),
            }
        } else {
            self.last_state.pc()
        }
    }

    /// The address of the next instruction, while the CPU has not halted.
    pub fn current_addr(&self) -> (r: Option<u16>)
        requires
            self.wf(),
        ensures
            r == (if self@.last_state.halted {
                None
            } else {
                Some(self@.last_state.spec_pc())
            }),
    {
        if self.last_state.halted {
            None
        } else {
            Some(self.last_state.pc())
        }
    }

    fn change_age(&self, changed_at: Option<u64>) -> (r: ChangeAge)
        ensures
            r == spec_change_age(self@.last_state.instr_count, changed_at),
    {
        match changed_at {
            None => ChangeAge::Stable,
            Some(c) => {
                let age = self.last_state.instr_count.saturating_sub(c);
                if age <= CHANGE_RECENT_STEPS {
                    ChangeAge::Recent
                } else if age <= CHANGE_OLDER_STEPS {
                    ChangeAge::Older
                } else {
                    ChangeAge::Stable
                }
            },
        }
    }

    pub fn control_age(&self, field: ControlField) -> (r: ChangeAge)
        requires
            self.wf(),
        ensures
            r == spec_change_age(
                self@.last_state.instr_count,
                self@.control_changed_at[field.spec_index()],
            ),
    {
        self.change_age(self.control_changed_at[field.index()])
    }

    pub fn register_age(&self, idx: usize) -> (r: ChangeAge)
        requires
            self.wf(),
            idx < 16,
        ensures
            r == spec_change_age(self@.last_state.instr_count, self@.reg_changed_at[idx as int]),
    {
        self.change_age(self.reg_changed_at[idx])
    }

    fn track_changes(&mut self, before: &CpuSnapshot, after: &CpuSnapshot)
        requires
            machine_wf(old(self)@),
            before.wf(),
            after.wf(),
        ensures
            final(self)@ == (MachineView {
                reg_changed_at: spec_track_regs(old(self)@.reg_changed_at, *before, *after),
                control_changed_at: spec_track_controls(old(self)@.control_changed_at, *before, *after),
                ..old(self)@
            }),
    {
        let tick = after.instr_count;
        let ghost controls = spec_track_controls(self.control_changed_at@, *before, *after);
        let ghost regs = spec_track_regs(self.reg_changed_at@, *before, *after);
        if before.pc() != after.pc() {
            self.control_changed_at.set(0, Some(tick));
            self.control_changed_at.set(1, Some(tick));
        }
        if before.d != after.d {
            self.control_changed_at.set(2, Some(tick));
        }
        if before.df != after.df {
            self.control_changed_at.set(3, Some(tick));
        }
        if before.p != after.p {
            self.control_changed_at.set(4, Some(tick));
        }
        if before.x != after.x {
            self.control_changed_at.set(5, Some(tick));
        }
        if before.ef[3] != after.ef[3] {
            self.control_changed_at.set(6, Some(tick));
        }
        if before.q != after.q {
            self.control_changed_at.set(7, Some(tick));
        }
        assert(self.control_changed_at@ =~= controls);
        let mut idx: usize = 0;
        while idx < 16
            invariant
                idx <= 16,
                self.reg_changed_at@.len() == 16,
                regs == spec_track_regs(old(self)@.reg_changed_at, *before, *after),
                tick == after.instr_count,
                forall|i: int|
                    0 <= i < 16 ==> #[trigger] self.reg_changed_at@[i] == (if i < idx {
                        regs[i]
                    } else {
                        old(self)@.reg_changed_at[i]
                    }),
                self@ == (MachineView {
                    reg_changed_at: self.reg_changed_at@,
                    control_changed_at: controls,
                    ..old(self)@
                }),
            decreases 16 - idx,
        {
            if before.read_reg(idx as u8) != after.read_reg(idx as u8) {
                self.reg_changed_at.set(idx, Some(tick));
            }
            idx = idx + 1;
        }
        assert(self.reg_changed_at@ =~= regs);
    }

    /// First move of an instruction. A crashed or idle machine does
    /// nothing; without a board the run stops with an error; a halted CPU
    /// is a fault. Otherwise the board is handed out for the instruction
    /// at PC, which becomes the last executed address.
    pub fn begin_step(&mut self) -> (r: Option<WebIoBoard>)
        requires
            old(self).wf(),
        ensures
            final(self).wf(),
            ({
                let v = old(self)@;
                if v.crashed || !v.running {
                    r is None && final(self)@ == v
                } else if v.board is None {
                    r is None && final(self)@ == (MachineView {
                        running: false,
                        last_error: Some(missing_board_text()),
                        ..v
                    })
                } else if v.last_state.halted {
                    r is None && final(self)@ == (MachineView {
                        last_steps: v.last_state.instr_count,
                        crashed: true,
                        running: false,
                        last_error: Some(already_halted_text()),
                        board: None,
                        ..v
                    })
                } else {
                    &&& r matches Some(b) && Some(b@) == v.board
                    &&& final(self)@ == (MachineView {
                        last_executed_addr: Some(v.last_state.spec_pc()),
                        board: None,
                        ..v
                    })
                }
            }),
            final(self)@ == spec_begun(old(self)@),
            r is Some == spec_hands_board(old(self)@),
    {
        if self.crashed || !self.running {
            return None;
        }
        let board = match self.board.take() {
            Some(b) => b,
            None => {
                self.running = false;
                self.last_error = Some(String::from_str("missing I/O board state"));
                return None;
            },
        };
        if self.last_state.halted {
            self.last_steps = self.last_state.instr_count;
            self.crashed = true;
            self.running = false;
            self.last_error = Some(String::from_str("CPU was already halted"));
            return None;
        }
        self.last_executed_addr = Some(self.last_state.pc());
        Some(board)
    }

    /// Last move of an instruction: takes back the `board` handed out by
    /// `begin_step` and what the emulator made of the instruction. A
    /// failure crashes the run with the reason, naming PC. After a
    /// successful instruction the machine keeps the new registers and
    /// memory, counts a frame when the joystick program stores the ball
    /// through R1, carries out the board's request, follows the tape and
    /// the scope, and stops when the CPU halted or a first frame overran
    /// its budget. The result says whether the run goes on.
    pub fn finish_step(&mut self, board: WebIoBoard, outcome: StepOutcome) -> (r: bool)
        requires
            old(self).wf(),
            !old(self)@.crashed,
            old(self)@.board is None,
            old(self)@.completed_frames < u64::MAX,
            match outcome {
                StepOutcome::DecodeFailed(_) => true,
                StepOutcome::ExecuteFailed { state, memory, .. } => state.wf() && memory@.len()
                    == old(self)@.memory.len(),
                StepOutcome::Executed { state, memory, .. } => state.wf() && memory@.len()
                    == old(self)@.memory.len(),
            },
        ensures
            final(self).wf(),
            ({
                let v = old(self)@;
                let pc = v.last_state.spec_pc();
                match outcome {
                    StepOutcome::DecodeFailed(detail) => {
                        &&& !r
                        &&& final(self)@ == (MachineView {
                            last_steps: v.last_state.instr_count,
                            crashed: true,
                            running: false,
                            last_error: Some(decode_error_text(pc, detail@)),
                            ..v
                        })
                    },
                    StepOutcome::ExecuteFailed { detail, state, memory } => {
                        &&& !r
                        &&& final(self)@ == (MachineView {
                            memory: memory@,
                            last_state: state,
                            last_steps: state.instr_count,
                            crashed: true,
                            running: false,
                            last_error: Some(emulator_error_text(pc, detail@)),
                            ..v
                        })
                    },
                    StepOutcome::Executed { store_reg, state, memory } => {
                        let after = spec_executed(v, board@, store_reg, state, memory@);
                        &&& final(self)@ == after
                        &&& r == (!state.halted && !spec_overran(v, store_reg, state))
                    },
                }
            }),
    {
        let pc = self.last_state.pc();
        match outcome {
            StepOutcome::DecodeFailed(detail) => {
                let mut text = String::from_str("decode error at 0x");
                push_hex4(&mut text, pc);
                text.append(": ");
                text.append(detail.as_str());
                self.last_steps = self.last_state.instr_count;
                self.crashed = true;
                self.running = false;
                self.last_error = Some(text);
                false
            },
            StepOutcome::ExecuteFailed { detail, state, memory } => {
                let mut text = String::from_str("emulator error at 0x");
                push_hex4(&mut text, pc);
                text.append(": ");
                text.append(detail.as_str());
                self.memory = memory;
                self.last_state = state;
                self.last_steps = state.instr_count;
                self.crashed = true;
                self.running = false;
                self.last_error = Some(text);
                false
            },
            StepOutcome::Executed { store_reg, state, memory } => {
                self.finish_executed(board, store_reg, state, memory)
            },
        }
    }

    fn finish_executed(
        &mut self,
        board: WebIoBoard,
        store_reg: Option<u8>,
        state: CpuSnapshot,
        memory: Vec<u8>,
    ) -> (r: bool)
        requires
            old(self).wf(),
            !old(self)@.crashed,
            old(self)@.board is None,
            old(self)@.completed_frames < u64::MAX,
            state.wf(),
            memory@.len() == old(self)@.memory.len(),
        ensures
            final(self).wf(),
            final(self)@ == spec_executed(old(self)@, board@, store_reg, state, memory@),
            r == (!state.halted && !spec_overran(old(self)@, store_reg, state)),
    {
        let ghost v = self@;
        let ghost b0 = board@;
        let mut board = board;
        let before = self.last_state;
        let ball = self.kind == DemoKind::Joystick && store_reg == Some(1u8);
        self.memory = memory;
        if ball {
            self.last_ball_addr = Some(before.read_reg(1));
            self.visible_memory = self.memory.clone();
            self.completed_frames = self.completed_frames + 1;
        } else if self.kind != DemoKind::Joystick {
            self.visible_memory = self.memory.clone();
        }
        assert(self.visible_memory@ =~= spec_shown_after(v, store_reg, memory@));
        let action = board.take_action();
        match action {
            Some(BoardAction::ClearVideo) => self.clear_non_code_video(),
            None => {},
        }
        let previous = self.cassette_bytes_read;
        let now = board.cassette_pos();
        self.cassette_bytes_read = now;
        if self.kind == DemoKind::Cassette && now > previous {
            let mut passed = board.tape_range(previous, now);
            self.cassette_audio.append(&mut passed);
        }
        assert(self.cassette_audio@ =~= spec_audio_after(v.cassette_audio, v.kind, b0.cassette, v.cassette_bytes_read, b0.pos as usize));
        self.last_steps = state.instr_count;
        self.track_changes(&before, &state);
        self.last_state = state;
        let pulses = board.take_pulses();
        self.board = Some(board);
        let tick = self.last_state.instr_count;
        let ghost scope0 = self.scope;
        let ghost mid = self@;
        let mut i: usize = 0;
        while i < pulses.len()
            invariant
                i <= pulses@.len(),
                self.scope == spec_record_pulses(scope0, pulses@.take(i as int), tick),
                self@ == (MachineView { scope: self.scope, ..mid }),
            decreases pulses@.len() - i,
        {
            let (axis, delay) = pulses[i];
            self.scope.record(axis, tick, delay);
            i = i + 1;
            assert(pulses@.take(i as int).drop_last() =~= pulses@.take(i - 1));
        }
        assert(pulses@.take(pulses@.len() as int) =~= pulses@);
        if self.last_state.halted {
            self.visible_memory = self.memory.clone();
            self.running = false;
            return false;
        }
        let max_steps = match self.kind {
            DemoKind::Add => MAX_STEPS_PER_RUN,
            DemoKind::Joystick => MAX_STEPS_PER_FRAME,
            DemoKind::Logo | DemoKind::Pattern => MAX_STEPS_PER_RUN,
            DemoKind::Cassette => MAX_STEPS_PER_CASSETTE_LOAD,
        };
        if self.last_state.instr_count >= max_steps && self.completed_frames == 0 {
            self.crashed = true;
            self.running = false;
            self.last_error = Some(String::from_str("frame exceeded instruction budget"));
            return false;
        }
        true
    }

    /// First half of a single step of the Add demo: nothing happens once
    /// the run crashed or halted; otherwise the machine runs (creating a
    /// board if it has none). The result says whether a step is to follow,
    /// and whether a fresh board (with its RC networks centred) was made.
    pub fn begin_step_once(&mut self, logo: &Option<Vec<u8>>) -> (r: Option<bool>)
        requires
            old(self).wf(),
        ensures
            final(self).wf(),
            ({
                let v = old(self)@;
                if v.crashed || v.last_state.halted {
                    r is None && final(self)@ == v
                } else if v.board is None {
                    r == Some(true) && final(self)@ == (MachineView {
                        board: Some(fresh_board(v.kind, logo_view(*logo))),
                        running: true,
                        ..v
                    })
                } else {
                    r == Some(false) && final(self)@ == (MachineView { running: true, ..v })
                }
            }),
            final(self)@ == spec_step_once_begun(old(self)@, logo_view(*logo)),
    {
        if self.crashed || self.last_state.halted {
            return None;
        }
        let created = if self.board.is_none() {
            let cassette = self.cassette_stream(logo);
            self.board = Some(WebIoBoard::new(cassette));
            true
        } else {
            false
        };
        self.running = true;
        Some(created)
    }

    /// Second half of a single step: a run that neither halted nor crashed
    /// pauses after the one instruction.
    pub fn end_step_once(&mut self)
        ensures
            final(self)@ == (MachineView {
                running: if !old(self)@.last_state.halted && !old(self)@.crashed {
                    false
                } else {
                    old(self)@.running
                },
                ..old(self)@
            }),
            final(self)@ == spec_step_once_ended(old(self)@),
    {
        if !self.last_state.halted && !self.crashed {
            self.running = false;
        }
    }

    /// One RC scope sweep of `axis`.
    pub fn scope_samples(&self, axis: JoystickAxis) -> (r: Vec<ScopeSample>)
        ensures
            r@ == self@.scope.spec_sweep(axis),
    {
        self.scope.samples(axis, self.last_state.instr_count)
    }

    /// The waveform of the tape bytes read so far.
    pub fn cassette_scope_samples(&self) -> (r: Vec<CassetteScopeSample>)
        ensures
            r@ == spec_waveform(self@.cassette_audio),
    {
        cassette_waveform_samples(self.cassette_audio.as_slice())
    }
}

/// `n` zero bytes.
fn zeroed(n: usize) -> (r: Vec<u8>)
    ensures
        r@ == Seq::new(n as nat, |i: int| 0u8),
{
    let mut v: Vec<u8> = Vec::new();
    let mut i: usize = 0;
    while i < n
        invariant
            i <= n,
            v@ == Seq::new(i as nat, |k: int| 0u8),
        decreases n - i,
    {
        v.push(0);
        i = i + 1;
        assert(v@ =~= Seq::new(i as nat, |k: int| 0u8));
    }
    v
}

/// `n` empty change stamps.
fn no_stamps(n: usize) -> (r: Vec<Option<u64>>)
    ensures
        r@ == Seq::new(n as nat, |i: int| None::<u64>),
{
    let mut v: Vec<Option<u64>> = Vec::new();
    let mut i: usize = 0;
    while i < n
        invariant
            i <= n,
            v@ == Seq::new(i as nat, |k: int| None::<u64>),
        decreases n - i,
    {
        v.push(None);
        i = i + 1;
        assert(v@ =~= Seq::new(i as nat, |k: int| None::<u64>));
    }
    v
}

/// Copies `program` into `mem` from address 0, dropping what does not fit.
fn load_bytes(mem: &mut Vec<u8>, program: &Vec<u8>)
    ensures
        final(mem)@.len() == old(mem)@.len(),
        forall|a: int|
            0 <= a < old(mem)@.len() ==> #[trigger] final(mem)@[a] == (if a < program@.len() {
                program@[a]
            } else {
                old(mem)@[a]
            }),
{
    let n = if program.len() < mem.len() {
        program.len()
    } else {
        mem.len()
    };
    let mut i: usize = 0;
    while i < n
        invariant
            i <= n,
            n <= program@.len(),
            n <= mem@.len(),
            n == program@.len() || n == old(mem)@.len(),
            mem@.len() == old(mem)@.len(),
            forall|a: int|
                0 <= a < mem@.len() ==> #[trigger] mem@[a] == (if a < i {
                    program@[a]
                } else {
                    old(mem)@[a]
                }),
        decreases n - i,
    {
        mem.set(i, program[i]);
        i = i + 1;
    }
}

} // verus!
