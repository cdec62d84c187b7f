//! The catalogue of demos: their labels, assembly sources, descriptions and
//! the memory map each one runs in.

use vstd::prelude::*;

verus! {

/// Width of the TV monitor in pixels.
pub const SCREEN_WIDTH: usize = 64;

/// Height of the TV monitor in pixels.
pub const SCREEN_HEIGHT: usize = 32;

/// Bytes of memory scanned by the monitor: one bit per pixel.
pub const SCREEN_BYTES: usize = 256;

/// Instructions one joystick frame may take before it is declared stuck.
pub const MAX_STEPS_PER_FRAME: u64 = 80;

/// Instructions a run-to-halt demo may take before it is declared stuck.
pub const MAX_STEPS_PER_RUN: u64 = 400;

/// Instructions the tape loader may take before it is declared stuck.
pub const MAX_STEPS_PER_CASSETTE_LOAD: u64 = 4096;

/// Add demo: load 0x07 into D, add 0x05, halt.
pub const ADD_SOURCE: &'static str = "; Add demo: D = 0x07 + 0x05, one instruction per step.
        LDI 0x07        ; D <- 0x07
        ADI 0x05        ; D <- D + 0x05
        IDL             ; halt
";

/// Joystick demo: strobe each RC axis, count until EF4 reports the echo,
/// and plot the ball into the shared memory/video page.
pub const JOYSTICK_SOURCE: &'static str = "; Joystick demo for the shared 256-byte memory/video page.
; OUT 1 clears the non-code video bytes, OUT 3 strobes the Y axis,
; OUT 2 strobes the X axis; EF4 goes high when the RC echo arrives.
FRAME:  OUT 1           ; clear the video page behind the program
        LDI 0x00
        PLO R1          ; R1 -> ball address accumulator
        OUT 3           ; strobe the Y potentiometer
YLOOP:  B4 YDONE        ; echo arrived: Y count is complete
        GLO R1
        ADI 0x40        ; one band of rows further down per count
        PLO R1
        BR YLOOP
YDONE:  OUT 2           ; strobe the X potentiometer
XLOOP:  B4 XDONE        ; echo arrived: X count is complete
        INC R1
        INC R1          ; two bytes further right per count
        BR XLOOP
XDONE:  LDI 0x80
        STR R1          ; plot the ball
        BR FRAME
";

/// Logo demo: a single IDL followed by the static picture data.
pub const LOGO_SOURCE: &'static str = "; Logo demo: one IDL, then a 64 x 32 rocket picture as static data.
        IDL
        DB 0x00, 0x00, 0x00, 0x00, 0x00, 0x00, 0x00
        DB 0x00, 0x00, 0x00, 0x00, 0x00, 0x00, 0x00, 0x00
        DB 0x00, 0x00, 0x00, 0x00, 0x00, 0x00, 0x00, 0x00
        DB 0x00, 0x00, 0x00, 0x00, 0x00, 0x00, 0x00, 0x00
        DB 0x00, 0x00, 0x00, 0x00, 0x00, 0x00, 0x00, 0x00
        DB 0x00, 0x00, 0x00, 0x00, 0x00, 0x00, 0x00, 0x00
        DB 0x00, 0x00, 0x0F, 0x00, 0x00, 0x00, 0x00, 0x00
        DB 0x00, 0x00, 0x0F, 0xC0, 0x00, 0x00, 0x00, 0x00
        DB 0x00, 0x00, 0x07, 0xF0, 0x00, 0x00, 0x00, 0x00
        DB 0x00, 0x00, 0x03, 0xFF, 0xFF, 0xFF, 0x80, 0x00
        DB 0x00, 0x00, 0xFF, 0xFF, 0xFF, 0xFF, 0xF0, 0x00
        DB 0x00, 0x3C, 0xFF, 0xFF, 0xFF, 0xFF, 0xFE, 0x00
        DB 0x00, 0x3C, 0xFF, 0xFF, 0xFF, 0xFF, 0xFE, 0x00
        DB 0x00, 0x00, 0xFF, 0xFF, 0xFF, 0xFF, 0xF0, 0x00
        DB 0x00, 0x00, 0x03, 0xFF, 0xFF, 0xFF, 0x80, 0x00
        DB 0x00, 0x00, 0x07, 0xF0, 0x00, 0x00, 0x00, 0x00
        DB 0x00, 0x00, 0x0F, 0xC0, 0x00, 0x00, 0x00, 0x00
        DB 0x00, 0x00, 0x0F, 0x00, 0x00, 0x00, 0x00, 0x00
        DB 0x00, 0x00, 0x00, 0x00, 0x00, 0x00, 0x00, 0x00
        DB 0x00, 0x00, 0x00, 0x00, 0x00, 0x00, 0x00, 0x00
        DB 0x00, 0x00, 0x00, 0x00, 0x00, 0x00, 0x00, 0x00
        DB 0x00, 0x00, 0x00, 0x00, 0x00, 0x00, 0x00, 0x00
        DB 0x00, 0x00, 0x00, 0x00, 0x00, 0x00, 0x00, 0x00
        DB 0x00, 0x00, 0x00, 0x00, 0x00, 0x00, 0x00, 0x00
        DB 0x00, 0x00, 0x00, 0x00, 0x00, 0x00, 0x00, 0x00
        DB 0x00, 0x00, 0x00, 0x00, 0x00, 0x00, 0x00, 0x00
        DB 0x00, 0x00, 0x00, 0x00, 0x00, 0x00, 0x00, 0x00
        DB 0x00, 0x00, 0x00, 0x00, 0x00, 0x00, 0x00, 0x00
        DB 0x00, 0x00, 0x00, 0x00, 0x00, 0x00, 0x00, 0x00
        DB 0x00, 0x00, 0x00, 0x00, 0x00, 0x00, 0x00, 0x00
        DB 0x00, 0x00, 0x00, 0x00, 0x00, 0x00, 0x00, 0x00
        DB 0x00, 0x00, 0x00, 0x00, 0x00, 0x00, 0x00, 0x00
";

/// Pattern demo: three stripes written into the lower half of the page.
pub const PATTERN_SOURCE: &'static str = "; Pattern demo: three 8-byte stripes from 0x0080 on.
        LDI 0x80
        PLO R1          ; R1 -> 0x0080
        LDI 0x08
        PLO R2          ; R2.0 counts the bytes of a stripe
STRIPE1: LDI 0xAA
        STR R1
        INC R1
        DEC R2
        GLO R2
        BNZ STRIPE1
        LDI 0x08
        PLO R2
STRIPE2: LDI 0xF0
        STR R1
        INC R1
        DEC R2
        GLO R2
        BNZ STRIPE2
        LDI 0x08
        PLO R2
STRIPE3: LDI 0xFF
        STR R1
        INC R1
        DEC R2
        GLO R2
        BNZ STRIPE3
        IDL
";

/// Cassette demo: scan the tape leader for the sync byte, then copy 256
/// bytes from port 4 into the video page at 0x0100.
pub const CASSETTE_SOURCE: &'static str = "; Cassette loader for the 4K machine: video page at 0x0100.
        LDI 0x01
        PHI R1
        LDI 0x00
        PLO R1          ; R1 -> 0x0100
        SEX R1          ; INP stores through R1
SCAN:   INP 4           ; next tape byte into D and M(R1)
        XRI 0xA5
        BNZ SCAN        ; still in the leader
LOAD:   INP 4           ; M(R1) <- tape byte
        INC R1
        GLO R1
        BNZ LOAD        ; until R1 reaches 0x0200
        IDL
";

/// The demos, in the order the picker lists them.
#[derive(Copy, Clone, Debug, PartialEq, Eq, Structural)]
pub enum DemoKind {
    Add,
    Cassette,
    Joystick,
    Logo,
    Pattern,
}

/// Where RAM ends and where the monitor's video page starts.
#[derive(Copy, Clone, Debug, PartialEq, Eq, Structural)]
pub struct MemoryMap {
    pub ram_size: usize,
    pub video_base: u16,
}

/// The demos in alphabetical order of their labels.
pub open spec fn spec_all_kinds() -> Seq<DemoKind> {
    seq![DemoKind::Add, DemoKind::Cassette, DemoKind::Joystick, DemoKind::Logo, DemoKind::Pattern]
}

pub open spec fn spec_label(kind: DemoKind) -> Seq<char> {
    match kind {
        DemoKind::Add => "Add"@,
        DemoKind::Cassette => "Cassette"@,
        DemoKind::Joystick => "Joystick"@,
        DemoKind::Logo => "Logo"@,
        DemoKind::Pattern => "Pattern"@,
    }
}

pub open spec fn spec_source(kind: DemoKind) -> Seq<char> {
    match kind {
        DemoKind::Add => ADD_SOURCE@,
        DemoKind::Cassette => CASSETTE_SOURCE@,
        DemoKind::Joystick => JOYSTICK_SOURCE@,
        DemoKind::Logo => LOGO_SOURCE@,
        DemoKind::Pattern => PATTERN_SOURCE@,
    }
}

pub open spec fn add_description() -> Seq<char> {
    "Add demo: step through a tiny 1802 program that loads 0x07 into D, adds 0x05 with ADI, and halts so the D register and program counter changes are visible one instruction at a time."@
}

pub open spec fn cassette_description() -> Seq<char> {
    "Cassette demo: in 4K mode, a toggled-in loader scans a simulated tape leader until it sees sync byte 0xA5, then INP 4 copies a 256-byte logo into video memory at 0x0100 while the tape waveform is shown on the scope."@
}

pub open spec fn joystick_description() -> Seq<char> {
    "Joystick demo: each axis is a potentiometer feeding an RC network connected to output strobe and EF4 input pins. The 1802 program strobes an axis, then counts in a polling loop until the capacitor echo reaches EF4; those counts position the ball in the shared 0x0000..0x00ff memory/video page. WARNING: if you move the joystick up you will crash the ball into the running program corrupting it."@
}

pub open spec fn logo_description() -> Seq<char> {
    "Logo demo: the assembled program clears the shared 256-byte memory/video page, draws a simple rocket logo from static data, and halts while the TV monitor keeps scanning the bytes as pixels."@
}

pub open spec fn pattern_description() -> Seq<char> {
    "Pattern demo: edit a small 1802 assembly program, assemble it in the browser, and run it to write a visible byte pattern into the lower half of the 256-byte memory/video page."@
}

pub open spec fn spec_description(kind: DemoKind) -> Seq<char> {
    match kind {
        DemoKind::Add => add_description(),
        DemoKind::Cassette => cassette_description(),
        DemoKind::Joystick => joystick_description(),
        DemoKind::Logo => logo_description(),
        DemoKind::Pattern => pattern_description(),
    }
}

/// The 256-byte ELF page, shared by code and video.
pub open spec fn spec_elf_256() -> MemoryMap {
    MemoryMap { ram_size: 256, video_base: 0x0000 }
}

/// The 4K expansion, with the video page one page up.
pub open spec fn spec_expanded_4k() -> MemoryMap {
    MemoryMap { ram_size: 4096, video_base: 0x0100 }
}

pub open spec fn spec_memory_map(kind: DemoKind) -> MemoryMap {
    match kind {
        DemoKind::Cassette => spec_expanded_4k(),
        _ => spec_elf_256(),
    }
}

/// A memory map whose video page lies inside RAM.
pub open spec fn video_page_fits(map: MemoryMap) -> bool {
    map.video_base + SCREEN_BYTES <= map.ram_size
}

impl DemoKind {
    pub fn all() -> (r: [Self; 5])
        ensures
            r@ == spec_all_kinds(),
    {
        [Self::Add, Self::Cassette, Self::Joystick, Self::Logo, Self::Pattern]
    }

    pub fn label(self) -> (r: &'static str)
        ensures
            r@ == spec_label(self),
    {
        match self {
            Self::Add => "Add",
            Self::Cassette => "Cassette",
            Self::Joystick => "Joystick",
            Self::Logo => "Logo",
            Self::Pattern => "Pattern",
        }
    }

    pub fn source(self) -> (r: &'static str)
        ensures
            r@ == spec_source(self),
    {
        match self {
            Self::Add => ADD_SOURCE,
            Self::Cassette => CASSETTE_SOURCE,
            Self::Joystick => JOYSTICK_SOURCE,
            Self::Logo => LOGO_SOURCE,
            Self::Pattern => PATTERN_SOURCE,
        }
    }

    pub fn description(self) -> (r: &'static str)
        ensures
            r@ == spec_description(self),
    {
        match self {
            Self::Add => {
                "Add demo: step through a tiny 1802 program that loads 0x07 into D, adds 0x05 with ADI, and halts so the D register and program counter changes are visible one instruction at a time."
            },
            Self::Cassette => {
                "Cassette demo: in 4K mode, a toggled-in loader scans a simulated tape leader until it sees sync byte 0xA5, then INP 4 copies a 256-byte logo into video memory at 0x0100 while the tape waveform is shown on the scope."
            },
            Self::Joystick => {
                "Joystick demo: each axis is a potentiometer feeding an RC network connected to output strobe and EF4 input pins. The 1802 program strobes an axis, then counts in a polling loop until the capacitor echo reaches EF4; those counts position the ball in the shared 0x0000..0x00ff memory/video page. WARNING: if you move the joystick up you will crash the ball into the running program corrupting it."
            },
            Self::Logo => {
                "Logo demo: the assembled program clears the shared 256-byte memory/video page, draws a simple rocket logo from static data, and halts while the TV monitor keeps scanning the bytes as pixels."
            },
            Self::Pattern => {
                "Pattern demo: edit a small 1802 assembly program, assemble it in the browser, and run it to write a visible byte pattern into the lower half of the 256-byte memory/video page."
            },
        }
    }

    pub fn memory_map(self) -> (r: MemoryMap)
        ensures
            r == spec_memory_map(self),
            video_page_fits(r),
    {
        match self {
            Self::Add | Self::Joystick | Self::Logo | Self::Pattern => MemoryMap::elf_256(),
            Self::Cassette => MemoryMap::expanded_4k(),
        }
    }
}

impl MemoryMap {
    pub fn elf_256() -> (r: Self)
        ensures
            r == spec_elf_256(),
    {
        Self { ram_size: 256, video_base: 0x0000 }
    }

    pub fn expanded_4k() -> (r: Self)
        ensures
            r == spec_expanded_4k(),
    {
        Self { ram_size: 4096, video_base: 0x0100 }
    }
}

/// `a` comes strictly before `b` in lexicographic order of characters.
pub open spec fn precedes(a: Seq<char>, b: Seq<char>) -> bool
    decreases a.len(),
{
    if a.len() == 0 {
        b.len() > 0
    } else if b.len() == 0 {
        false
    } else if a[0] != b[0] {
        (a[0] as int) < (b[0] as int)
    } else {
        precedes(a.drop_first(), b.drop_first())
    }
}

/// The picker lists every demo exactly once, in alphabetical order of the
/// labels.
pub proof fn lemma_demos_listed_once_alphabetically()
    ensures
        forall|k: DemoKind| #[trigger] spec_all_kinds().contains(k),
        spec_all_kinds().no_duplicates(),
        forall|i: int, j: int|
            0 <= i < j < spec_all_kinds().len() ==> precedes(
                #[trigger] spec_label(spec_all_kinds()[i]),
                #[trigger] spec_label(spec_all_kinds()[j]),
            ),
{
    reveal_strlit("Add");
    reveal_strlit("Cassette");
    reveal_strlit("Joystick");
    reveal_strlit("Logo");
    reveal_strlit("Pattern");
    let all = spec_all_kinds();
    assert forall|k: DemoKind| #[trigger] all.contains(k) by {
        match k {
            DemoKind::Add => assert(all[0] == k),
            DemoKind::Cassette => assert(all[1] == k),
            DemoKind::Joystick => assert(all[2] == k),
            DemoKind::Logo => assert(all[3] == k),
            DemoKind::Pattern => assert(all[4] == k),
        }
    }
    assert forall|i: int, j: int|
        0 <= i < j < all.len() implies precedes(
            #[trigger] spec_label(all[i]),
            #[trigger] spec_label(all[j]),
        ) by {
        let a = spec_label(all[i]);
        let b = spec_label(all[j]);
        assert(a.len() > 0 && b.len() > 0);
        assert(a[0] != b[0]);
    }
}

/// Every demo has a description to show under the monitor, and the
/// joystick's ends with its warning about crashing into the program.
pub proof fn lemma_every_demo_described(kind: DemoKind)
    ensures
        spec_description(kind).len() > 0,
        joystick_description().len() >= warning_text().len(),
        joystick_description().subrange(
            joystick_description().len() - warning_text().len(),
            joystick_description().len() as int,
        ) == warning_text(),
{
    reveal_strlit("Add demo: step through a tiny 1802 program that loads 0x07 into D, adds 0x05 with ADI, and halts so the D register and program counter changes are visible one instruction at a time.");
    reveal_strlit("Cassette demo: in 4K mode, a toggled-in loader scans a simulated tape leader until it sees sync byte 0xA5, then INP 4 copies a 256-byte logo into video memory at 0x0100 while the tape waveform is shown on the scope.");
    reveal_strlit("Joystick demo: each axis is a potentiometer feeding an RC network connected to output strobe and EF4 input pins. The 1802 program strobes an axis, then counts in a polling loop until the capacitor echo reaches EF4; those counts position the ball in the shared 0x0000..0x00ff memory/video page. WARNING: if you move the joystick up you will crash the ball into the running program corrupting it.");
    reveal_strlit("Logo demo: the assembled program clears the shared 256-byte memory/video page, draws a simple rocket logo from static data, and halts while the TV monitor keeps scanning the bytes as pixels.");
    reveal_strlit("Pattern demo: edit a small 1802 assembly program, assemble it in the browser, and run it to write a visible byte pattern into the lower half of the 256-byte memory/video page.");
    reveal_strlit("WARNING: if you move the joystick up you will crash the ball into the running program corrupting it.");
    let j = joystick_description();
    let w = warning_text();
    assert(j.subrange(j.len() - w.len(), j.len() as int) =~= w);
}

/// The warning that closes the joystick description.
pub open spec fn warning_text() -> Seq<char> {
    "WARNING: if you move the joystick up you will crash the ball into the running program corrupting it."@
}

/// The cassette demo runs in the 4K machine with its video page at
/// 0x0100; every other demo runs in the 256-byte ELF page, which is also
/// its video page.
pub proof fn lemma_memory_maps(kind: DemoKind)
    ensures
        kind == DemoKind::Cassette ==> spec_memory_map(kind) == (MemoryMap {
            ram_size: 4096,
            video_base: 0x0100,
        }),
        kind != DemoKind::Cassette ==> spec_memory_map(kind) == (MemoryMap {
            ram_size: 256,
            video_base: 0,
        }),
{
}

/// Each demo's description starts with its label and " demo: ".
pub proof fn lemma_description_names_demo(kind: DemoKind)
    ensures
        spec_description(kind).len() > spec_label(kind).len() + 7,
        spec_description(kind).subrange(0, spec_label(kind).len() + 7int) == spec_label(kind)
            + " demo: "@,
{
    reveal_strlit("Add");
    reveal_strlit("Cassette");
    reveal_strlit("Joystick");
    reveal_strlit("Logo");
    reveal_strlit("Pattern");
    reveal_strlit(" demo: ");
    reveal_strlit("Add demo: step through a tiny 1802 program that loads 0x07 into D, adds 0x05 with ADI, and halts so the D register and program counter changes are visible one instruction at a time.");
    reveal_strlit("Cassette demo: in 4K mode, a toggled-in loader scans a simulated tape leader until it sees sync byte 0xA5, then INP 4 copies a 256-byte logo into video memory at 0x0100 while the tape waveform is shown on the scope.");
    reveal_strlit("Joystick demo: each axis is a potentiometer feeding an RC network connected to output strobe and EF4 input pins. The 1802 program strobes an axis, then counts in a polling loop until the capacitor echo reaches EF4; those counts position the ball in the shared 0x0000..0x00ff memory/video page. WARNING: if you move the joystick up you will crash the ball into the running program corrupting it.");
    reveal_strlit("Logo demo: the assembled program clears the shared 256-byte memory/video page, draws a simple rocket logo from static data, and halts while the TV monitor keeps scanning the bytes as pixels.");
    reveal_strlit("Pattern demo: edit a small 1802 assembly program, assemble it in the browser, and run it to write a visible byte pattern into the lower half of the 256-byte memory/video page.");
    let d = spec_description(kind);
    let l = spec_label(kind);
    assert(d.subrange(0, l.len() + 7int) =~= l + " demo: "@);
}

/// Each demo's video page lies inside its RAM.
pub proof fn lemma_video_page_inside_ram(kind: DemoKind)
    ensures
        video_page_fits(spec_memory_map(kind)),
{
}

} // verus!
