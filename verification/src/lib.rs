//! Browser I/O demos for the RCA CDP1802 (COSMAC ELF-II): the demo catalogue,
//! the machine bookkeeping around each emulated instruction, the I/O board
//! protocol, the RC oscilloscope and tape waveforms, and the text helpers
//! of the user interface.

use vstd::prelude::*;

pub mod kinds;
pub mod scope;
pub mod board;
pub mod cpu;
pub mod text;
pub mod machine;
pub mod ui;
pub mod listing;

verus! {

} // verus!
