//! The I/O board wired to the 1802's ports: port 1 asks for the video page
//! to be cleared, ports 2 and 3 strobe the joystick's X and Y RC networks,
//! and port 4 reads the next byte of the tape.

use vstd::prelude::*;
use crate::kinds::{DemoKind, SCREEN_BYTES};
use crate::scope::JoystickAxis;

verus! {

pub const PORT_CLEAR_VIDEO: u8 = 1;

pub const PORT_X_PULSE: u8 = 2;

pub const PORT_Y_PULSE: u8 = 3;

pub const PORT_CASSETTE_IN: u8 = 4;

/// Zero bytes on the tape before the sync byte.
pub const CASSETTE_LEADER_BYTES: usize = 16;

/// The byte that ends the tape leader.
pub const CASSETTE_SYNC_BYTE: u8 = 0xa5;

/// A request from the board that the machine carries out after the
/// instruction that made it.
#[derive(Copy, Clone, Debug, PartialEq, Eq, Structural)]
pub enum BoardAction {
    ClearVideo,
}

/// The tape of a demo: for the cassette demo a zero leader, the sync byte
/// and the 256 bytes of the logo page (the logo padded with zeros); 256
/// zeros when the logo does not assemble; no tape for the other demos.
pub open spec fn spec_cassette_stream(kind: DemoKind, logo: Option<Seq<u8>>) -> Seq<u8> {
    if kind != DemoKind::Cassette {
        Seq::empty()
    } else {
        match logo {
            None => Seq::new(SCREEN_BYTES as nat, |i: int| 0u8),
            Some(bytes) => Seq::new(CASSETTE_LEADER_BYTES as nat, |i: int| 0u8).push(
                CASSETTE_SYNC_BYTE,
            ) + Seq::new(
                SCREEN_BYTES as nat,
                |i: int|
                    if i < bytes.len() {
                        bytes[i]
                    } else {
                        0u8
                    },
            ),
        }
    }
}

/// The cassette tape is a 16-byte zero leader, the sync byte 0xA5, and
/// the 256-byte logo page; the loader finds the logo right after the
/// first (and only) sync byte.
pub proof fn lemma_cassette_layout(logo: Seq<u8>)
    ensures
        ({
            let tape = spec_cassette_stream(DemoKind::Cassette, Some(logo));
            &&& tape.len() == 273
            &&& forall|i: int| 0 <= i < 16 ==> tape[i] == 0
            &&& tape[16] == 0xa5
            &&& forall|i: int| 0 <= i < 16 ==> tape[i] != 0xa5
            &&& forall|i: int|
                0 <= i < 256 ==> tape[17 + i] == (if i < logo.len() {
                    logo[i]
                } else {
                    0u8
                })
        }),
{
}

/// When the logo does not assemble the cassette tape is 256 zero bytes.
pub proof fn lemma_cassette_without_logo()
    ensures
        spec_cassette_stream(DemoKind::Cassette, None).len() == 256,
        forall|i: int| 0 <= i < 256 ==> spec_cassette_stream(DemoKind::Cassette, None)[i] == 0,
{
}

/// Only the cassette demo has a tape.
pub proof fn lemma_only_cassette_has_tape(kind: DemoKind, logo: Option<Seq<u8>>)
    ensures
        kind != DemoKind::Cassette ==> spec_cassette_stream(kind, logo).len() == 0,
{
}

pub fn cassette_stream_for(kind: DemoKind, logo: &Option<Vec<u8>>) -> (r: Vec<u8>)
    ensures
        r@ == spec_cassette_stream(
            kind,
            match logo {
                Some(b) => Some(b@),
                None => None,
            },
        ),
{
    if kind != DemoKind::Cassette {
        return Vec::new();
    }
    match logo {
        None => {
            let mut zeros: Vec<u8> = Vec::new();
            let mut i: usize = 0;
            while i < SCREEN_BYTES
                invariant
                    i <= SCREEN_BYTES,
                    zeros@ == Seq::new(i as nat, |k: int| 0u8),
                decreases SCREEN_BYTES - i,
            {
                zeros.push(0);
                i = i + 1;
                assert(zeros@ =~= Seq::new(i as nat, |k: int| 0u8));
            }
            zeros
        },
        Some(bytes) => {
            let mut stream: Vec<u8> = Vec::new();
            let mut i: usize = 0;
            while i < CASSETTE_LEADER_BYTES
                invariant
                    i <= CASSETTE_LEADER_BYTES,
                    stream@ == Seq::new(i as nat, |k: int| 0u8),
                decreases CASSETTE_LEADER_BYTES - i,
            {
                stream.push(0);
                i = i + 1;
                assert(stream@ =~= Seq::new(i as nat, |k: int| 0u8));
            }
            stream.push(CASSETTE_SYNC_BYTE);
            let ghost head = stream@;
            let ghost page = Seq::new(
                SCREEN_BYTES as nat,
                |k: int|
                    if k < bytes@.len() {
                        bytes@[k]
                    } else {
                        0u8
                    },
            );
            let mut j: usize = 0;
            while j < SCREEN_BYTES
                invariant
                    j <= SCREEN_BYTES,
                    stream@ == head + page.take(j as int),
                    page.len() == SCREEN_BYTES,
                    forall|k: int|
                        0 <= k < SCREEN_BYTES ==> #[trigger] page[k] == (if k < bytes@.len() {
                            bytes@[k]
                        } else {
                            0u8
                        }),
                decreases SCREEN_BYTES - j,
            {
                let b: u8 = if j < bytes.len() {
                    bytes[j]
                } else {
                    0
                };
                assert(b == page[j as int]);
                stream.push(b);
                j = j + 1;
                assert(stream@ =~= head + page.take(j as int));
            }
            assert(page.take(SCREEN_BYTES as int) =~= page);
            stream
        },
    }
}

/// What the board holds: the pending action, the strobes not yet shown on
/// the scope (with the RC delay each one measured), the tape and how far
/// it has been read.
pub ghost struct BoardView {
    pub action: Option<BoardAction>,
    pub pulses: Seq<(JoystickAxis, u8)>,
    pub cassette: Seq<u8>,
    pub pos: nat,
}

/// The byte under the tape head: past the end the tape reads as zero.
pub open spec fn tape_byte(cassette: Seq<u8>, pos: int) -> u8 {
    if 0 <= pos < cassette.len() {
        cassette[pos]
    } else {
        0u8
    }
}

/// The bytes at positions `from..to` that exist on the tape.
pub open spec fn spec_tape_range(cassette: Seq<u8>, from: int, to: int) -> Seq<u8> {
    let end = if to < cassette.len() {
        to
    } else {
        cassette.len() as int
    };
    if 0 <= from < end {
        cassette.subrange(from, end)
    } else {
        Seq::empty()
    }
}

/// The board after an `INP` from `port`, and the byte read.
pub open spec fn spec_input(b: BoardView, port: u8) -> (BoardView, u8) {
    if port == PORT_CASSETTE_IN {
        (
            BoardView {
                pos: if b.pos < usize::MAX {
                    b.pos + 1
                } else {
                    b.pos
                },
                ..b
            },
            tape_byte(b.cassette, b.pos as int),
        )
    } else {
        (b, 0u8)
    }
}

/// The board after an `OUT` to `port`, and the axis to strobe.
pub open spec fn spec_output(b: BoardView, port: u8, x_delay: u8, y_delay: u8) -> (
    BoardView,
    Option<JoystickAxis>,
) {
    if port == PORT_CLEAR_VIDEO {
        (BoardView { action: Some(BoardAction::ClearVideo), ..b }, None)
    } else if port == PORT_X_PULSE {
        (BoardView { pulses: b.pulses.push((JoystickAxis::X, x_delay)), ..b }, Some(JoystickAxis::X))
    } else if port == PORT_Y_PULSE {
        (BoardView { pulses: b.pulses.push((JoystickAxis::Y, y_delay)), ..b }, Some(JoystickAxis::Y))
    } else {
        (b, None)
    }
}

/// The port map of the board: `OUT 1` asks for the video page to be
/// cleared, `OUT 2` and `OUT 3` strobe the X and Y axes (recording the
/// delay of that axis), `INP 4` reads the next tape byte (zero past the
/// end); every other port does nothing and reads zero.
pub proof fn lemma_port_map(b: BoardView, port: u8, x_delay: u8, y_delay: u8)
    requires
        b.pos < usize::MAX,
    ensures
        spec_output(b, 1, x_delay, y_delay) == (BoardView { action: Some(BoardAction::ClearVideo), ..b }, None::<JoystickAxis>),
        spec_output(b, 2, x_delay, y_delay).1 == Some(JoystickAxis::X),
        spec_output(b, 2, x_delay, y_delay).0.pulses == b.pulses.push((JoystickAxis::X, x_delay)),
        spec_output(b, 2, x_delay, y_delay).0.action == b.action,
        spec_output(b, 3, x_delay, y_delay).1 == Some(JoystickAxis::Y),
        spec_output(b, 3, x_delay, y_delay).0.pulses == b.pulses.push((JoystickAxis::Y, y_delay)),
        spec_output(b, 3, x_delay, y_delay).0.action == b.action,
        port != 1 && port != 2 && port != 3 ==> spec_output(b, port, x_delay, y_delay) == (b, None::<JoystickAxis>),
        spec_input(b, 4).1 == (if b.pos < b.cassette.len() {
            b.cassette[b.pos as int]
        } else {
            0u8
        }),
        spec_input(b, 4).0.pos == b.pos + 1,
        spec_input(b, 4).0.cassette == b.cassette,
        port != 4 ==> spec_input(b, port) == (b, 0u8),
{
}

/// The part of the board that the program's port instructions drive; the
/// RC networks of the joystick sit beside it.
pub struct WebIoBoard {
    action: Option<BoardAction>,
    pulses: Vec<(JoystickAxis, u8)>,
    cassette: Vec<u8>,
    cassette_pos: usize,
}

impl View for WebIoBoard {
    type V = BoardView;

    closed spec fn view(&self) -> BoardView {
        BoardView {
            action: self.action,
            pulses: self.pulses@,
            cassette: self.cassette@,
            pos: self.cassette_pos as nat,
        }
    }
}

impl WebIoBoard {
    pub fn new(cassette: Vec<u8>) -> (r: Self)
        ensures
            r@ == (BoardView { action: None, pulses: Seq::empty(), cassette: cassette@, pos: 0 }),
    {
        WebIoBoard { action: None, pulses: Vec::new(), cassette, cassette_pos: 0 }
    }

    pub fn take_action(&mut self) -> (r: Option<BoardAction>)
        ensures
            r == old(self)@.action,
            final(self)@ == (BoardView { action: None, ..old(self)@ }),
    {
        self.action.take()
    }

    pub fn take_pulses(&mut self) -> (r: Vec<(JoystickAxis, u8)>)
        ensures
            r@ == old(self)@.pulses,
            final(self)@ == (BoardView { pulses: Seq::empty(), ..old(self)@ }),
    {
        let mut taken: Vec<(JoystickAxis, u8)> = Vec::new();
        std::mem::swap(&mut taken, &mut self.pulses);
        taken
    }

    /// Reads the byte under the tape head and advances the head, which
    /// stops at `usize::MAX`.
    pub fn read_cassette_byte(&mut self) -> (r: u8)
        ensures
            r == tape_byte(old(self)@.cassette, old(self)@.pos as int),
            final(self)@ == (BoardView {
                pos: if old(self)@.pos < usize::MAX {
                    old(self)@.pos + 1
                } else {
                    old(self)@.pos
                },
                ..old(self)@
            }),
    {
        let value = if self.cassette_pos < self.cassette.len() {
            self.cassette[self.cassette_pos]
        } else {
            0
        };
        self.cassette_pos = self.cassette_pos.saturating_add(1);
        value
    }

    /// The tape bytes at positions `from..to` that exist on the tape.
    pub fn tape_range(&self, from: usize, to: usize) -> (r: Vec<u8>)
        ensures
            r@ == spec_tape_range(self@.cassette, from as int, to as int),
    {
        let mut out: Vec<u8> = Vec::new();
        let end = if to < self.cassette.len() {
            to
        } else {
            self.cassette.len()
        };
        let mut i = from;
        while i < end
            invariant
                from <= i,
                end <= self.cassette@.len(),
                i < end ==> out@ == self.cassette@.subrange(from as int, i as int),
                i >= end ==> out@ == spec_tape_range(self.cassette@, from as int, to as int),
                end == (if to < self.cassette@.len() { to as int } else { self.cassette@.len() as int }),
            decreases end - i,
        {
            out.push(self.cassette[i]);
            i = i + 1;
            assert(out@ =~= self.cassette@.subrange(from as int, i as int));
        }
        if from >= end {
            assert(out@ =~= spec_tape_range(self.cassette@, from as int, to as int));
        }
        out
    }

    pub fn cassette_pos(&self) -> (r: usize)
        ensures
            r == self@.pos,
    {
        self.cassette_pos
    }

    /// An `INP` from `port`: port 4 reads the tape, every other port reads 0.
    pub fn input_port(&mut self, port: u8) -> (r: u8)
        ensures
            port == PORT_CASSETTE_IN ==> r == tape_byte(old(self)@.cassette, old(self)@.pos as int)
                && final(self)@ == (BoardView {
                pos: if old(self)@.pos < usize::MAX {
                    old(self)@.pos + 1
                } else {
                    old(self)@.pos
                },
                ..old(self)@
            }),
            port != PORT_CASSETTE_IN ==> r == 0 && final(self)@ == old(self)@,
            (final(self)@, r) == spec_input(old(self)@, port),
    {
        if port == PORT_CASSETTE_IN {
            self.read_cassette_byte()
        } else {
            0
        }
    }

    /// An `OUT` to `port`. Port 1 asks for the video page to be cleared;
    /// ports 2 and 3 record a strobe of the X or Y axis with the RC delay
    /// that axis measures now, and name the axis whose RC network is to be
    /// strobed; other ports do nothing.
    pub fn output_port(&mut self, port: u8, x_delay: u8, y_delay: u8) -> (r: Option<
        JoystickAxis,
    >)
        ensures
            port == PORT_CLEAR_VIDEO ==> r is None && final(self)@ == (BoardView {
                action: Some(BoardAction::ClearVideo),
                ..old(self)@
            }),
            port == PORT_X_PULSE ==> r == Some(JoystickAxis::X) && final(self)@ == (BoardView {
                pulses: old(self)@.pulses.push((JoystickAxis::X, x_delay)),
                ..old(self)@
            }),
            port == PORT_Y_PULSE ==> r == Some(JoystickAxis::Y) && final(self)@ == (BoardView {
                pulses: old(self)@.pulses.push((JoystickAxis::Y, y_delay)),
                ..old(self)@
            }),
            port != PORT_CLEAR_VIDEO && port != PORT_X_PULSE && port != PORT_Y_PULSE ==> r is None
                && final(self)@ == old(self)@,
            (final(self)@, r) == spec_output(old(self)@, port, x_delay, y_delay),
    {
        if port == PORT_CLEAR_VIDEO {
            self.action = Some(BoardAction::ClearVideo);
            None
        } else if port == PORT_X_PULSE {
            self.pulses.push((JoystickAxis::X, x_delay));
            Some(JoystickAxis::X)
        } else if port == PORT_Y_PULSE {
            self.pulses.push((JoystickAxis::Y, y_delay));
            Some(JoystickAxis::Y)
        } else {
            None
        }
    }
}

} // verus!
