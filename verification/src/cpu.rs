//! The CPU registers that the demos show and reason about, as plain values.

use vstd::prelude::*;

verus! {

/// The visible state of a CDP1802 between two instructions: the sixteen
/// 16-bit scratchpad registers, D and DF, the program and index register
/// designators P and X, the Q output, the four external flags EF1..EF4,
/// whether the CPU has halted, and how many instructions it has executed.
#[derive(Copy, Clone, Debug, PartialEq, Eq)]
pub struct CpuSnapshot {
    pub regs: [u16; 16],
    pub d: u8,
    pub df: bool,
    pub p: u8,
    pub x: u8,
    pub q: bool,
    pub ef: [bool; 4],
    pub halted: bool,
    pub instr_count: u64,
}

impl CpuSnapshot {
    /// P and X designate registers 0..15.
    pub open spec fn wf(self) -> bool {
        self.p < 16 && self.x < 16
    }

    /// The program counter is the register that P designates.
    pub open spec fn spec_pc(self) -> u16 {
        self.regs@[self.p as int]
    }

    /// The state after reset: every register and flag cleared.
    pub open spec fn spec_reset() -> CpuSnapshot {
        CpuSnapshot {
            regs: [0u16, 0u16, 0u16, 0u16, 0u16, 0u16, 0u16, 0u16, 0u16, 0u16, 0u16, 0u16, 0u16, 0u16, 0u16, 0u16],
            d: 0,
            df: false,
            p: 0,
            x: 0,
            q: false,
            ef: [false, false, false, false],
            halted: false,
            instr_count: 0,
        }
    }

    pub fn new() -> (r: Self)
        ensures
            r == Self::spec_reset(),
            r.wf(),
    {
        CpuSnapshot {
            regs: [0, 0, 0, 0, 0, 0, 0, 0, 0, 0, 0, 0, 0, 0, 0, 0],
            d: 0,
            df: false,
            p: 0,
            x: 0,
            q: false,
            ef: [false, false, false, false],
            halted: false,
            instr_count: 0,
        }
    }

    pub fn pc(&self) -> (r: u16)
        requires
            self.wf(),
        ensures
            r == self.spec_pc(),
    {
        self.regs[self.p as usize]
    }

    pub fn read_reg(&self, idx: u8) -> (r: u16)
        requires
            idx < 16,
        ensures
            r == self.regs@[idx as int],
    {
        self.regs[idx as usize]
    }
}

} // verus!
