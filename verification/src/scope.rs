//! The two oscilloscope traces of the UI: the RC echo of each joystick axis,
//! triggered by the output strobe, and the biphase waveform of the tape
//! bytes the loader has consumed.

use vstd::prelude::*;

verus! {

/// Points in one RC scope sweep.
pub const SCOPE_SAMPLES: usize = 48;

/// Points in the tape waveform window.
pub const CASSETTE_SCOPE_SAMPLES: usize = 96;

/// The two potentiometer axes of the joystick.
#[derive(Copy, Clone, Debug, PartialEq, Eq, Structural)]
pub enum JoystickAxis {
    X,
    Y,
}

/// One point of an RC scope sweep: ticks after the trigger, and the level.
#[derive(Copy, Clone, Debug, PartialEq, Eq, Structural)]
pub struct ScopeSample {
    pub tick: u64,
    pub high: bool,
}

/// One point of the tape waveform.
#[derive(Copy, Clone, Debug, PartialEq, Eq, Structural)]
pub struct CassetteScopeSample {
    pub sample: usize,
    pub high: bool,
}

/// The last strobe of one axis: when it fired and how long the RC echo took.
#[derive(Copy, Clone, Debug, PartialEq, Eq, Structural)]
pub struct ScopePulse {
    pub trigger_tick: u64,
    pub delay_ticks: u8,
}

/// The most recent pulse of each axis.
#[derive(Copy, Clone, Debug, PartialEq, Eq, Structural)]
pub struct ScopeState {
    x: Option<ScopePulse>,
    y: Option<ScopePulse>,
}

impl ScopeState {
    /// The recorded pulse of `axis`, if any.
    pub closed spec fn pulse_of(self, axis: JoystickAxis) -> Option<ScopePulse> {
        match axis {
            JoystickAxis::X => self.x,
            JoystickAxis::Y => self.y,
        }
    }

    /// A scope with no pulse on either axis.
    pub closed spec fn spec_empty() -> ScopeState {
        ScopeState { x: None, y: None }
    }

    /// The scope after a strobe of `axis` at `tick` with an echo of `delay`.
    pub closed spec fn spec_record(self, axis: JoystickAxis, tick: u64, delay: u8) -> ScopeState {
        let pulse = Some(ScopePulse { trigger_tick: tick, delay_ticks: delay });
        match axis {
            JoystickAxis::X => ScopeState { x: pulse, ..self },
            JoystickAxis::Y => ScopeState { y: pulse, ..self },
        }
    }

    /// The trace of `axis` is high `offset` ticks after its trigger while
    /// the echo is still pending.
    pub open spec fn spec_high_at(self, axis: JoystickAxis, offset: int) -> bool {
        match self.pulse_of(axis) {
            Some(p) => offset <= p.delay_ticks,
            None => false,
        }
    }

    /// One sweep of `axis`, always drawn from its trigger.
    pub open spec fn spec_sweep(self, axis: JoystickAxis) -> Seq<ScopeSample> {
        Seq::new(
            SCOPE_SAMPLES as nat,
            |i: int| ScopeSample { tick: i as u64, high: self.spec_high_at(axis, i) },
        )
    }

    /// A sweep starts at the trigger of the last strobe and stays high
    /// exactly until the echo's delay has passed; with no strobe it is low.
    pub proof fn lemma_sweep_shape(self, axis: JoystickAxis, i: int)
        requires
            0 <= i < SCOPE_SAMPLES,
        ensures
            self.spec_sweep(axis)[i].tick == i,
            self.spec_sweep(axis)[i].high <==> (self.pulse_of(axis) matches Some(p) && i
                <= p.delay_ticks),
    {
    }

    /// A new scope has no pulse on either axis.
    pub proof fn lemma_pulse_of_empty(axis: JoystickAxis)
        ensures
            Self::spec_empty().pulse_of(axis) is None,
    {
    }

    /// Recording a strobe of one axis sets that axis's pulse and leaves the
    /// other axis's pulse as it was.
    pub proof fn lemma_pulse_of_record(self, axis: JoystickAxis, tick: u64, delay: u8, other: JoystickAxis)
        ensures
            self.spec_record(axis, tick, delay).pulse_of(axis) == Some(
                ScopePulse { trigger_tick: tick, delay_ticks: delay },
            ),
            other != axis ==> self.spec_record(axis, tick, delay).pulse_of(other) == self.pulse_of(
                other,
            ),
    {
    }

    pub fn new() -> (r: Self)
        ensures
            r == Self::spec_empty(),
    {
        ScopeState { x: None, y: None }
    }

    pub fn record(&mut self, axis: JoystickAxis, trigger_tick: u64, delay_ticks: u8)
        ensures
            *final(self) == old(self).spec_record(axis, trigger_tick, delay_ticks),
    {
        let pulse = Some(ScopePulse { trigger_tick, delay_ticks });
        match axis {
            JoystickAxis::X => self.x = pulse,
            JoystickAxis::Y => self.y = pulse,
        }
    }

    pub fn pulse(&self, axis: JoystickAxis) -> (r: Option<ScopePulse>)
        ensures
            r == self.pulse_of(axis),
    {
        match axis {
            JoystickAxis::X => self.x,
            JoystickAxis::Y => self.y,
        }
    }

    pub fn is_high_at_offset(&self, axis: JoystickAxis, offset: u64) -> (r: bool)
        ensures
            r == self.spec_high_at(axis, offset as int),
    {
        match self.pulse(axis) {
            Some(pulse) => offset <= pulse.delay_ticks as u64,
            None => false,
        }
    }

    /// One sweep of `axis`. The sweep starts at the trigger of the last
    /// strobe, whatever `_current_tick` is.
    pub fn samples(&self, axis: JoystickAxis, _current_tick: u64) -> (r: Vec<ScopeSample>)
        ensures
            r@ == self.spec_sweep(axis),
    {
        let mut out: Vec<ScopeSample> = Vec::new();
        let mut offset: usize = 0;
        while offset < SCOPE_SAMPLES
            invariant
                offset <= SCOPE_SAMPLES,
                out@ == self.spec_sweep(axis).take(offset as int),
            decreases SCOPE_SAMPLES - offset,
        {
            let tick = offset as u64;
            out.push(ScopeSample { tick, high: self.is_high_at_offset(axis, tick) });
            offset = offset + 1;
            assert(out@ =~= self.spec_sweep(axis).take(offset as int));
        }
        assert(out@ =~= self.spec_sweep(axis));
        out
    }
}

impl Default for ScopeState {
    fn default() -> (r: Self)
        ensures
            r == Self::spec_empty(),
    {
        ScopeState { x: None, y: None }
    }
}

/// Bit `k` of `byte`, counting from the most significant bit.
pub open spec fn msb_bit(byte: u8, k: u8) -> bool {
    (byte >> (7 - k) as u8) & 1 == 1
}

/// The `idx`-th bit of the tape stream, most significant bit first; bits
/// past the end read as 0.
pub open spec fn stream_bit(bytes: Seq<u8>, idx: int) -> bool {
    idx / 8 < bytes.len() && msb_bit(bytes[idx / 8], (idx % 8) as u8)
}

/// `n * 8`, saturating at `usize::MAX`.
pub open spec fn saturating_bits(n: nat) -> int {
    if n * 8 > usize::MAX {
        usize::MAX as int
    } else {
        (n * 8) as int
    }
}

/// The first stream bit shown: the window ends at the last consumed bit.
pub open spec fn first_shown_bit(n: nat) -> int {
    if saturating_bits(n) > CASSETTE_SCOPE_SAMPLES {
        saturating_bits(n) - CASSETTE_SCOPE_SAMPLES
    } else {
        0
    }
}

/// The biphase tape waveform of the last bits of `bytes`: a clock that
/// flips every sample, inverted where the data bit is 1.
pub open spec fn spec_waveform(bytes: Seq<u8>) -> Seq<CassetteScopeSample> {
    Seq::new(
        CASSETTE_SCOPE_SAMPLES as nat,
        |i: int|
            CassetteScopeSample {
                sample: i as usize,
                high: (i % 2 == 0) != stream_bit(bytes, first_shown_bit(bytes.len()) + i),
            },
    )
}

/// The tape waveform shows the last 96 bits read (all of them when fewer
/// were read), most significant bit of each byte first, as a clock that
/// is high on even samples and inverted where the data bit is 1.
pub proof fn lemma_waveform_reads_last_bits(bytes: Seq<u8>, i: int)
    requires
        bytes.len() * 8 <= usize::MAX,
        0 <= i < 96,
    ensures
        ({
            let w = spec_waveform(bytes);
            let start: int = if bytes.len() * 8 >= 96 {
                bytes.len() * 8 - 96
            } else {
                0
            };
            let k = start + i;
            let bit = k / 8 < bytes.len() && (bytes[k / 8] & (0x80u8 >> (k % 8) as u8)) != 0;
            &&& w.len() == 96
            &&& w[i].sample == i
            &&& w[i].high == ((i % 2 == 0) != bit)
        }),
{
    let start: int = if bytes.len() * 8 >= 96 {
        bytes.len() * 8 - 96
    } else {
        0
    };
    let k = start + i;
    if k / 8 < bytes.len() {
        let byte = bytes[k / 8];
        let m = (k % 8) as u8;
        assert(((byte & (0x80u8 >> m)) != 0) == ((byte >> (7 - m) as u8) & 1 == 1)) by (bit_vector)
            requires
                m < 8,
        ;
    }
}

/// Whether bit `k` of `byte` is set, counting from the most significant bit.
pub fn is_bit_set(byte: u8, k: u8) -> (r: bool)
    requires
        k < 8,
    ensures
        r == msb_bit(byte, k),
{
    let r = (byte & (0x80u8 >> k)) != 0;
    assert(((byte & (0x80u8 >> k)) != 0) == ((byte >> (7 - k) as u8) & 1 == 1)) by (bit_vector)
        requires
            k < 8,
    ;
    r
}

pub fn cassette_waveform_samples(bytes: &[u8]) -> (r: Vec<CassetteScopeSample>)
    ensures
        r@ == spec_waveform(bytes@),
{
    let mut samples: Vec<CassetteScopeSample> = Vec::new();
    let total_bits = if bytes.len() > usize::MAX / 8 {
        usize::MAX
    } else {
        bytes.len() * 8
    };
    let start_bit = total_bits.saturating_sub(CASSETTE_SCOPE_SAMPLES);
    assert(start_bit == first_shown_bit(bytes@.len()));
    let mut sample: usize = 0;
    while sample < CASSETTE_SCOPE_SAMPLES
        invariant
            sample <= CASSETTE_SCOPE_SAMPLES,
            start_bit == first_shown_bit(bytes@.len()),
            start_bit <= usize::MAX - CASSETTE_SCOPE_SAMPLES,
            samples@ == spec_waveform(bytes@).take(sample as int),
        decreases CASSETTE_SCOPE_SAMPLES - sample,
    {
        let bit_index = start_bit + sample;
        let byte_index = bit_index / 8;
        let byte: u8 = if byte_index < bytes.len() {
            bytes[byte_index]
        } else {
            0
        };
        let bit = if byte_index < bytes.len() {
            is_bit_set(byte, (bit_index % 8) as u8)
        } else {
            false
        };
        let clock = sample % 2 == 0;
        samples.push(CassetteScopeSample { sample, high: clock != bit });
        sample = sample + 1;
        assert(samples@ =~= spec_waveform(bytes@).take(sample as int));
    }
    assert(samples@ =~= spec_waveform(bytes@));
    samples
}

} // verus!
