//! A square-wave channel of the audio unit.
use vstd::prelude::*;
use crate::save_state::{flag_fits, flag_value, word_fits, byte_fits};
use crate::bits::lemma_byte_fields;
use crate::bits::lemma_and_bounds;
use crate::save_state::{
    WriteState, ReadState, StateReader, StateError, bool_bytes, u16_bytes, usize_bytes, read_bool_strict,
    read_u16_le, read_usize_at_most, read_u8_at_most,
};

verus! {

/// The length-counter reload values, indexed by the top five bits of the
/// fourth channel register.
pub const LENGTH_TABLE: [u8; 32] = [
    10, 254, 20, 2, 40, 4, 80, 6, 160, 8, 60, 10, 14, 12, 26, 14, 12, 16, 24, 18, 48, 20, 96, 22,
    192, 24, 72, 26, 16, 28, 32, 30,
];

/// Whether step `step` of duty pattern `duty` is high.
pub open spec fn duty_high(duty: int, step: int) -> bool {
    if duty == 0 {
        step == 7
    } else if duty == 1 {
        step >= 6
    } else if duty == 2 {
        step >= 4
    } else {
        step < 6
    }
}

/// The four duty patterns as eight steps each: 12.5 %, 25 %, 50 % and 75 %.
pub open spec fn duty_pattern(duty: int) -> Seq<bool> {
    if duty == 0 {
        seq![false, false, false, false, false, false, false, true]
    } else if duty == 1 {
        seq![false, false, false, false, false, false, true, true]
    } else if duty == 2 {
        seq![false, false, false, false, true, true, true, true]
    } else {
        seq![true, true, true, true, true, true, false, false]
    }
}

/// Each step of each duty pattern is high exactly where the pattern table
/// says: patterns 0 to 3 are high on 1, 2, 4 and 6 of their eight steps.
pub proof fn lemma_duty_table(duty: int, step: int)
    requires
        0 <= duty < 4,
        0 <= step < 8,
    ensures
        duty_high(duty, step) == duty_pattern(duty)[step],
{
}

pub struct Pulse {
    pub enabled: bool,
    pub duty_table: usize,
    pub duty_counter: usize,
    pub volume: u8,
    pub freq_counter: u16,
    pub freq_timer: u16,
    pub length_counter: u8,
    pub length_enabled: bool,
    pub decay_enabled: bool,
    pub decay_reset_flag: bool,
    pub decay_hidden_volume: u8,
    pub decay_counter: u8,
    pub decay_loop: bool,
    pub sweep_timer: u8,
    pub sweep_negate: bool,
    pub sweep_shift: u8,
    pub sweep_reload: bool,
    pub sweep_enabled: bool,
    pub sweep_counter: u8,
    /// 1 for the first channel, 0 for the second: the first one's negated
    /// sweep subtracts one more.
    pub sweep_negate_constant: u16,
}

/// The channel after the envelope step of a quarter frame: a pending
/// restart reloads the envelope, otherwise the divider counts down and, on
/// running out, reloads and lowers the volume (looping back to 15 if set).
pub open spec fn quarter_clocked(p: Pulse) -> Pulse {
    if p.decay_reset_flag {
        Pulse { decay_reset_flag: false, decay_hidden_volume: 0xF, decay_counter: p.volume, ..p }
    } else if p.decay_counter > 0 {
        Pulse { decay_counter: (p.decay_counter - 1) as u8, ..p }
    } else {
        Pulse {
            decay_counter: p.volume,
            decay_hidden_volume: if p.decay_hidden_volume > 0 {
                (p.decay_hidden_volume - 1) as u8
            } else if p.decay_loop {
                0xFu8
            } else {
                0u8
            },
            ..p
        }
    }
}

/// The channel after the sweep and length step of a half frame: the sweep
/// divider reloads or counts down, the period moves when it runs out with
/// the sweep on and not silencing, and the length counter counts down
/// while enabled.
pub open spec fn half_clocked(p: Pulse) -> Pulse {
    Pulse {
        length_counter: if p.length_enabled && p.length_counter > 0 {
            (p.length_counter - 1) as u8
        } else {
            p.length_counter
        },
        sweep_counter: if p.sweep_reload || p.sweep_counter == 0 {
            p.sweep_timer
        } else {
            (p.sweep_counter - 1) as u8
        },
        sweep_reload: false,
        freq_timer: if !p.sweep_reload && p.sweep_counter == 0 && p.sweep_enabled && !p.sweep_silencing() {
            if p.sweep_negate {
                (p.freq_timer - (p.freq_timer >> p.sweep_shift) - p.sweep_negate_constant) as u16
            } else {
                (p.freq_timer + (p.freq_timer >> p.sweep_shift)) as u16
            }
        } else {
            p.freq_timer
        },
        ..p
    }
}

/// The channel after a write of `data` to its register `register & 3`:
/// duty and envelope, sweep, period low byte, or period high bits with
/// the length load (while enabled) and a restart of the duty sequence and
/// envelope.
pub open spec fn pulse_poked(p: Pulse, register: u16, data: u8) -> Pulse {
    if register & 3 == 0 {
        Pulse {
            duty_table: (data >> 6) as usize,
            volume: data & 0xF,
            length_enabled: data & 0x20 == 0,
            decay_enabled: data & 0x10 == 0,
            decay_loop: data & 0x20 != 0,
            ..p
        }
    } else if register & 3 == 1 {
        Pulse {
            sweep_timer: (data >> 4) & 0x7,
            sweep_negate: data & 0x8 != 0,
            sweep_shift: data & 0x7,
            sweep_reload: true,
            sweep_enabled: data & 0x80 != 0 && data & 0x7 != 0,
            ..p
        }
    } else if register & 3 == 2 {
        Pulse { freq_timer: (p.freq_timer & 0xFF00) | (data as u16), ..p }
    } else {
        Pulse {
            freq_timer: (p.freq_timer & 0x00FF) | (((data as u16) & 0x7) << 8),
            freq_counter: (p.freq_timer & 0x00FF) | (((data as u16) & 0x7) << 8),
            length_counter: if p.enabled { LENGTH_TABLE@[(data >> 3) as int] } else { p.length_counter },
            duty_counter: 0,
            decay_reset_flag: true,
            ..p
        }
    }
}

impl Pulse {
    /// The register ranges that the channel's registers can hold.
    pub open spec fn wf(&self) -> bool {
        &&& self.duty_table < 4
        &&& self.duty_counter < 8
        &&& self.volume <= 15
        &&& self.decay_hidden_volume <= 15
        &&& self.sweep_shift < 8
        &&& self.sweep_enabled ==> self.sweep_shift > 0
        &&& self.sweep_negate_constant <= 1
    }

    /// Whether the sweep unit mutes the channel.
    pub open spec fn sweep_silencing(&self) -> bool {
        self.freq_timer < 8 || (!self.sweep_negate
            && self.freq_timer + (self.freq_timer >> self.sweep_shift) >= 0x800)
    }

    /// The channel's current output level, 0 to 15.
    pub open spec fn output_level(&self) -> u8 {
        if duty_high(self.duty_table as int, self.duty_counter as int) && self.length_counter != 0
            && !self.sweep_silencing() {
            if self.decay_enabled {
                self.decay_hidden_volume
            } else {
                self.volume
            }
        } else {
            0
        }
    }

    pub fn new_pulse1() -> (p: Pulse)
        ensures
            p.wf(),
            p.sweep_negate_constant == 1,
            !p.enabled && p.length_counter == 0 && p.freq_timer == 0,
    {
        Pulse::new(1)
    }

    pub fn new_pulse2() -> (p: Pulse)
        ensures
            p.wf(),
            p.sweep_negate_constant == 0,
            !p.enabled && p.length_counter == 0 && p.freq_timer == 0,
    {
        Pulse::new(0)
    }

    fn new(sweep_negate_constant: u16) -> (p: Pulse)
        requires
            sweep_negate_constant <= 1,
        ensures
            p.wf(),
            p.sweep_negate_constant == sweep_negate_constant,
            !p.enabled && p.length_counter == 0 && p.freq_timer == 0,
    {
        Pulse {
            enabled: false,
            duty_table: 0,
            duty_counter: 0,
            volume: 0,
            freq_counter: 0,
            freq_timer: 0,
            length_counter: 0,
            length_enabled: false,
            decay_enabled: false,
            decay_reset_flag: false,
            decay_hidden_volume: 0,
            decay_counter: 0,
            decay_loop: false,
            sweep_timer: 0,
            sweep_negate: false,
            sweep_shift: 0,
            sweep_reload: false,
            sweep_enabled: false,
            sweep_counter: 0,
            sweep_negate_constant,
        }
    }

    /// The sweep unit's shifted period: at most half the period once it is
    /// shifted at all, and the same at 32 bits as at 16.
    proof fn lemma_sweep_shift(t: u16, sh: u8)
        by (bit_vector)
        requires
            sh < 8,
        ensures
            0 < sh ==> t >> sh <= t / 2,
            (t as u32) >> (sh as u32) <= t as u32,
            (t as u32) >> (sh as u32) == (t >> sh) as u32,
    {
    }

    /// One timer tick (every other CPU cycle): counts the period down and
    /// steps through the duty pattern when it runs out.
    pub fn clock(&mut self)
        requires
            old(self).wf(),
        ensures
            final(self).wf(),
            old(self).freq_counter > 0 ==> *final(self) == (Pulse {
                freq_counter: (old(self).freq_counter - 1) as u16,
                ..*old(self)
            }),
            old(self).freq_counter == 0 ==> *final(self) == (Pulse {
                freq_counter: old(self).freq_timer,
                duty_counter: ((old(self).duty_counter + 1) % 8) as usize,
                ..*old(self)
            }),
    {
        if self.freq_counter > 0 {
            self.freq_counter -= 1;
        } else {
            self.freq_counter = self.freq_timer;
            self.duty_counter = (self.duty_counter + 1) % 8;
        }
    }

    /// The envelope step of a quarter frame.
    pub fn clock_frame_quarter(&mut self)
        requires
            old(self).wf(),
        ensures
            final(self).wf(),
            *final(self) == quarter_clocked(*old(self)),
            old(self).decay_reset_flag ==> *final(self) == (Pulse {
                decay_reset_flag: false,
                decay_hidden_volume: 0xF,
                decay_counter: old(self).volume,
                ..*old(self)
            }),
            !old(self).decay_reset_flag && old(self).decay_counter > 0 ==> *final(self) == (Pulse {
                decay_counter: (old(self).decay_counter - 1) as u8,
                ..*old(self)
            }),
            !old(self).decay_reset_flag && old(self).decay_counter == 0 ==> *final(self) == (Pulse {
                decay_counter: old(self).volume,
                decay_hidden_volume: if old(self).decay_hidden_volume > 0 {
                    (old(self).decay_hidden_volume - 1) as u8
                } else if old(self).decay_loop {
                    0xFu8
                } else {
                    0u8
                },
                ..*old(self)
            }),
    {
        if self.decay_reset_flag {
            self.decay_reset_flag = false;
            self.decay_hidden_volume = 0xF;
            self.decay_counter = self.volume;
        } else {
            if self.decay_counter > 0 {
                self.decay_counter -= 1;
            } else {
                self.decay_counter = self.volume;
                if self.decay_hidden_volume > 0 {
                    self.decay_hidden_volume -= 1;
                } else if self.decay_loop {
                    self.decay_hidden_volume = 0xF;
                }
            }
        }
    }

    /// The sweep and length-counter step of a half frame.
    pub fn clock_frame_half(&mut self)
        requires
            old(self).wf(),
        ensures
            final(self).wf(),
            *final(self) == half_clocked(*old(self)),
            final(self).length_counter == (if old(self).length_enabled && old(self).length_counter > 0 {
                (old(self).length_counter - 1) as u8
            } else {
                old(self).length_counter
            }),
            final(self).sweep_counter == (if old(self).sweep_reload || old(self).sweep_counter == 0 {
                old(self).sweep_timer
            } else {
                (old(self).sweep_counter - 1) as u8
            }),
            !final(self).sweep_reload,
            final(self).freq_timer == (if !old(self).sweep_reload && old(self).sweep_counter == 0
                && old(self).sweep_enabled && !old(self).sweep_silencing() {
                if old(self).sweep_negate {
                    (old(self).freq_timer - (old(self).freq_timer >> old(self).sweep_shift)
                        - old(self).sweep_negate_constant) as u16
                } else {
                    (old(self).freq_timer + (old(self).freq_timer >> old(self).sweep_shift)) as u16
                }
            } else {
                old(self).freq_timer
            }),
            final(self).duty_table == old(self).duty_table,
            final(self).duty_counter == old(self).duty_counter,
            final(self).enabled == old(self).enabled,
            final(self).sweep_shift == old(self).sweep_shift,
            final(self).sweep_negate == old(self).sweep_negate,
            final(self).sweep_enabled == old(self).sweep_enabled,
            final(self).sweep_timer == old(self).sweep_timer,
            final(self).volume == old(self).volume,
            final(self).decay_enabled == old(self).decay_enabled,
            final(self).decay_hidden_volume == old(self).decay_hidden_volume,
            final(self).length_enabled == old(self).length_enabled,
    {
        if self.sweep_reload {
            self.sweep_counter = self.sweep_timer;
            self.sweep_reload = false;
        } else if self.sweep_counter > 0 {
            self.sweep_counter -= 1;
        } else {
            self.sweep_counter = self.sweep_timer;
            if self.sweep_enabled && !self.is_sweep_silencing() {
                let t = self.freq_timer;
                let sh = self.sweep_shift;
                let delta = t >> sh;
                if self.sweep_negate {
                    proof { Pulse::lemma_sweep_shift(t, sh); }
                    self.freq_timer = t - delta;
                    self.freq_timer = self.freq_timer - self.sweep_negate_constant;
                } else {
                    self.freq_timer = t + delta;
                }
            }
        }
        if self.length_enabled && self.length_counter > 0 {
            self.length_counter -= 1;
        }
    }

    /// The channel's output level, 0 to 15.
    pub fn output(&self) -> (r: u8)
        requires
            self.wf(),
        ensures
            r == self.output_level(),
            r <= 15,
            !duty_pattern(self.duty_table as int)[self.duty_counter as int] ==> r == 0,
            duty_pattern(self.duty_table as int)[self.duty_counter as int] && self.length_counter != 0
                && !self.sweep_silencing() ==> r == (if self.decay_enabled { self.decay_hidden_volume } else { self.volume }),
    {
        proof { lemma_duty_table(self.duty_table as int, self.duty_counter as int); }
        let high = match self.duty_table {
            0 => self.duty_counter == 7,
            1 => self.duty_counter >= 6,
            2 => self.duty_counter >= 4,
            _ => self.duty_counter < 6,
        };
        if high && self.length_counter != 0 && !self.is_sweep_silencing() {
            if self.decay_enabled {
                self.decay_hidden_volume
            } else {
                self.volume
            }
        } else {
            0
        }
    }

    fn is_sweep_silencing(&self) -> (r: bool)
        requires
            self.wf(),
        ensures
            r == self.sweep_silencing(),
    {
        if self.freq_timer < 8 {
            true
        } else {
            let ft = self.freq_timer;
            let ss = self.sweep_shift;
            let t = ft as u32;
            let sh = ss as u32;
            proof { Pulse::lemma_sweep_shift(ft, ss); }
            let sum = t + (t >> sh);
            !self.sweep_negate && sum >= 0x800
        }
    }

    /// A write to one of the channel's four registers (selected by the low
    /// two bits of `register`).
    pub fn poke_register(&mut self, register: u16, data: u8)
        requires
            old(self).wf(),
        ensures
            final(self).wf(),
            final(self).enabled == old(self).enabled,
            final(self).sweep_negate_constant == old(self).sweep_negate_constant,
            *final(self) == pulse_poked(*old(self), register, data),
            register & 3 == 0 ==> *final(self) == (Pulse {
                duty_table: (data >> 6) as usize,
                volume: data & 0xF,
                length_enabled: data & 0x20 == 0,
                decay_enabled: data & 0x10 == 0,
                decay_loop: data & 0x20 != 0,
                ..*old(self)
            }),
            register & 3 == 1 ==> *final(self) == (Pulse {
                sweep_timer: (data >> 4) & 0x7,
                sweep_negate: data & 0x8 != 0,
                sweep_shift: data & 0x7,
                sweep_reload: true,
                sweep_enabled: data & 0x80 != 0 && data & 0x7 != 0,
                ..*old(self)
            }),
            register & 3 == 2 ==> *final(self) == (Pulse {
                freq_timer: (old(self).freq_timer & 0xFF00) | (data as u16),
                ..*old(self)
            }),
            register & 3 == 3 ==> *final(self) == (Pulse {
                freq_timer: (old(self).freq_timer & 0x00FF) | (((data as u16) & 0x7) << 8),
                freq_counter: (old(self).freq_timer & 0x00FF) | (((data as u16) & 0x7) << 8),
                length_counter: if old(self).enabled {
                    LENGTH_TABLE@[(data >> 3) as int]
                } else {
                    old(self).length_counter
                },
                duty_counter: 0,
                decay_reset_flag: true,
                ..*old(self)
            }),
    {
        let sel = register & 0b11;
        if sel == 0 {
            self.duty_table = ((data & 0b1100_0000) >> 6) as usize;
            proof { lemma_byte_fields(data); }
            self.volume = data & 0b0000_1111;
            proof { lemma_and_bounds(); }
            self.length_enabled = (data & 0b0010_0000) == 0;
            self.decay_enabled = (data & 0b0001_0000) == 0;
            self.decay_loop = (data & 0b0010_0000) != 0;
        } else if sel == 1 {
            self.sweep_timer = (data & 0b0111_0000) >> 4;
            proof { lemma_byte_fields(data); }
            self.sweep_negate = (data & 0b0000_1000) != 0;
            self.sweep_shift = data & 0b0000_0111;
            proof { lemma_and_bounds(); }
            self.sweep_reload = true;
            self.sweep_enabled = ((data & 0b1000_0000) != 0) && (self.sweep_shift != 0);
        } else if sel == 2 {
            self.freq_timer = (self.freq_timer & 0xFF00) | (data as u16);
        } else {
            proof { lemma_and_bounds(); }
            let t = (self.freq_timer & 0x00FF) | (((data as u16) & 0b111) << 8);
            self.freq_timer = t;
            if self.enabled {
                proof { lemma_byte_fields(data); }
                self.length_counter = LENGTH_TABLE[(data >> 3) as usize];
            }
            self.freq_counter = t;
            self.duty_counter = 0;
            self.decay_reset_flag = true;
        }
    }

    /// Turns the channel on or off; turning it off silences it at once.
    pub fn set_enable_flag(&mut self, enabled: bool)
        requires
            old(self).wf(),
        ensures
            final(self).wf(),
            *final(self) == (Pulse {
                enabled,
                length_counter: if enabled { old(self).length_counter } else { 0 },
                ..*old(self)
            }),
    {
        self.enabled = enabled;
        if !self.enabled {
            self.length_counter = 0;
        }
    }

    /// Whether the length counter is still running.
    pub fn is_enabled(&self) -> (r: bool)
        ensures
            r == (self.length_counter > 0),
    {
        self.length_counter > 0
    }
}

/// The first part of a channel's save state: enable, duty, volume, timer
/// and length counter.
pub open spec fn pulse_head_bytes(p: Pulse) -> Seq<u8> {
    bool_bytes(p.enabled) + usize_bytes(p.duty_table) + usize_bytes(p.duty_counter) + seq![p.volume]
        + u16_bytes(p.freq_counter) + u16_bytes(p.freq_timer) + seq![p.length_counter]
        + bool_bytes(p.length_enabled)
}

/// The rest of a channel's save state: envelope and sweep.
pub open spec fn pulse_tail_bytes(p: Pulse) -> Seq<u8> {
    bool_bytes(p.decay_enabled) + bool_bytes(p.decay_reset_flag) + seq![p.decay_hidden_volume]
        + seq![p.decay_counter] + bool_bytes(p.decay_loop) + seq![p.sweep_timer] + bool_bytes(p.sweep_negate)
        + seq![p.sweep_shift] + bool_bytes(p.sweep_reload) + bool_bytes(p.sweep_enabled) + seq![p.sweep_counter]
        + u16_bytes(p.sweep_negate_constant)
}

/// The bytes of a channel's save state.
pub open spec fn pulse_bytes(p: Pulse) -> Seq<u8> {
    pulse_head_bytes(p) + pulse_tail_bytes(p)
}

fn write_head(p: &Pulse, writer: &mut Vec<u8>)
    ensures
        final(writer)@ == old(writer)@ + pulse_head_bytes(*p),
{
    p.enabled.write(writer);
    p.duty_table.write(writer);
    p.duty_counter.write(writer);
    p.volume.write(writer);
    p.freq_counter.write(writer);
    p.freq_timer.write(writer);
    p.length_counter.write(writer);
    p.length_enabled.write(writer);
    assert(writer@ =~= old(writer)@ + pulse_head_bytes(*p));
}

#[verifier::rlimit(30)]
fn write_tail(p: &Pulse, writer: &mut Vec<u8>)
    ensures
        final(writer)@ == old(writer)@ + pulse_tail_bytes(*p),
{
    p.decay_enabled.write(writer);
    p.decay_reset_flag.write(writer);
    p.decay_hidden_volume.write(writer);
    p.decay_counter.write(writer);
    p.decay_loop.write(writer);
    p.sweep_timer.write(writer);
    p.sweep_negate.write(writer);
    p.sweep_shift.write(writer);
    p.sweep_reload.write(writer);
    p.sweep_enabled.write(writer);
    p.sweep_counter.write(writer);
    p.sweep_negate_constant.write(writer);
    assert(writer@ =~= old(writer)@ + pulse_tail_bytes(*p));
}

impl WriteState for Pulse {
    open spec fn state_bytes(&self) -> Seq<u8> {
        pulse_bytes(*self)
    }

    fn write(&self, writer: &mut Vec<u8>) {
        write_head(self, writer);
        write_tail(self, writer);
        assert(writer@ =~= old(writer)@ + pulse_bytes(*self));
    }
}

/// Whether the first part of a channel can be read from `r`.
pub open spec fn pulse_head_fits(r: Seq<u8>) -> bool {
    &&& r.len() >= 24
    &&& flag_fits(r)
    &&& word_fits(r.skip(1), 3)
    &&& word_fits(r.skip(9), 7)
    &&& byte_fits(r.skip(17), 15)
    &&& flag_fits(r.skip(23))
}

/// Whether the rest of a channel can be read from `r`.
pub open spec fn pulse_tail_fits(r: Seq<u8>) -> bool {
    &&& r.len() >= 13
    &&& flag_fits(r)
    &&& flag_fits(r.skip(1))
    &&& byte_fits(r.skip(2), 15)
    &&& flag_fits(r.skip(4))
    &&& flag_fits(r.skip(6))
    &&& byte_fits(r.skip(7), 7)
    &&& flag_fits(r.skip(8))
    &&& flag_fits(r.skip(9))
}

/// Whether a whole channel can be read from `r`: both parts are there
/// and in range, the sweep's negation constant is 0 or 1, and an enabled
/// sweep has a nonzero shift.
pub open spec fn pulse_fits(r: Seq<u8>) -> bool {
    &&& pulse_head_fits(r)
    &&& pulse_tail_fits(r.skip(24))
    &&& vstd::bytes::spec_u16_from_le_bytes(r.skip(35).take(2)) <= 1
    &&& !(flag_value(r.skip(33)) && r.skip(31)[0] == 0)
}

/// Reads the first part of a channel into `p`.
#[verifier::rlimit(30)]
fn read_head(p: &mut Pulse, reader: &mut StateReader) -> (res: Result<(), StateError>)
    requires
        old(reader).wf(),
    ensures
        final(reader).wf(),
        final(reader).data@ == old(reader).data@,
        res is Ok <==> pulse_head_fits(old(reader).rest()),
        res is Ok ==> final(reader).pos == old(reader).pos + 24
            && old(reader).rest().take(24) == pulse_head_bytes(*final(p))
            && final(p).duty_table < 4 && final(p).duty_counter < 8 && final(p).volume <= 15
            && pulse_tail_bytes(*final(p)) == pulse_tail_bytes(*old(p))
            && (Pulse { enabled: old(p).enabled, duty_table: old(p).duty_table, duty_counter: old(p).duty_counter,
                volume: old(p).volume, freq_counter: old(p).freq_counter, freq_timer: old(p).freq_timer,
                length_counter: old(p).length_counter, length_enabled: old(p).length_enabled, ..*final(p) }) == *old(p),
{
    let ghost r0 = reader.rest();
    let enabled = read_bool_strict(reader)?;
    assert(reader.rest() =~= r0.skip(1));
    let duty_table = read_usize_at_most(reader, 3)?;
    assert(reader.rest() =~= r0.skip(9));
    let duty_counter = read_usize_at_most(reader, 7)?;
    assert(reader.rest() =~= r0.skip(17));
    let volume = read_u8_at_most(reader, 15)?;
    assert(reader.rest() =~= r0.skip(18));
    let freq_counter = read_u16_le(reader)?;
    assert(reader.rest() =~= r0.skip(20));
    let freq_timer = read_u16_le(reader)?;
    assert(reader.rest() =~= r0.skip(22));
    let length_counter = u8::read(reader)?;
    assert(reader.rest() =~= r0.skip(23));
    let length_enabled = read_bool_strict(reader)?;
    p.enabled = enabled;
    p.duty_table = duty_table;
    p.duty_counter = duty_counter;
    p.volume = volume;
    p.freq_counter = freq_counter;
    p.freq_timer = freq_timer;
    p.length_counter = length_counter;
    p.length_enabled = length_enabled;
    assert(r0.take(24) =~= pulse_head_bytes(*p));
    Ok(())
}

/// Reads the rest of a channel into `p`.
#[verifier::rlimit(100)]
fn read_tail(p: &mut Pulse, reader: &mut StateReader) -> (res: Result<(), StateError>)
    requires
        old(reader).wf(),
    ensures
        final(reader).wf(),
        final(reader).data@ == old(reader).data@,
        res is Ok <==> pulse_tail_fits(old(reader).rest()),
        res is Ok ==> final(p).sweep_enabled == flag_value(old(reader).rest().skip(9))
            && final(p).sweep_shift == old(reader).rest().skip(7)[0]
            && final(p).sweep_negate_constant == vstd::bytes::spec_u16_from_le_bytes(old(reader).rest().skip(11).take(2)),
        res is Ok ==> final(reader).pos == old(reader).pos + 13
            && old(reader).rest().take(13) == pulse_tail_bytes(*final(p))
            && final(p).decay_hidden_volume <= 15 && final(p).sweep_shift < 8
            && pulse_head_bytes(*final(p)) == pulse_head_bytes(*old(p))
            && final(p).enabled == old(p).enabled && final(p).duty_table == old(p).duty_table
            && final(p).duty_counter == old(p).duty_counter && final(p).volume == old(p).volume,
{
    let ghost r0 = reader.rest();
    let decay_enabled = read_bool_strict(reader)?;
    assert(reader.rest() =~= r0.skip(1));
    let decay_reset_flag = read_bool_strict(reader)?;
    assert(reader.rest() =~= r0.skip(2));
    let decay_hidden_volume = read_u8_at_most(reader, 15)?;
    assert(reader.rest() =~= r0.skip(3));
    let decay_counter = u8::read(reader)?;
    assert(reader.rest() =~= r0.skip(4));
    let decay_loop = read_bool_strict(reader)?;
    assert(reader.rest() =~= r0.skip(5));
    let sweep_timer = u8::read(reader)?;
    assert(reader.rest() =~= r0.skip(6));
    let sweep_negate = read_bool_strict(reader)?;
    assert(reader.rest() =~= r0.skip(7));
    let sweep_shift = read_u8_at_most(reader, 7)?;
    assert(reader.rest() =~= r0.skip(8));
    let sweep_reload = read_bool_strict(reader)?;
    assert(reader.rest() =~= r0.skip(9));
    let sweep_enabled = read_bool_strict(reader)?;
    assert(reader.rest() =~= r0.skip(10));
    let sweep_counter = u8::read(reader)?;
    assert(reader.rest() =~= r0.skip(11));
    let sweep_negate_constant = read_u16_le(reader)?;
    p.decay_enabled = decay_enabled;
    p.decay_reset_flag = decay_reset_flag;
    p.decay_hidden_volume = decay_hidden_volume;
    p.decay_counter = decay_counter;
    p.decay_loop = decay_loop;
    p.sweep_timer = sweep_timer;
    p.sweep_negate = sweep_negate;
    p.sweep_shift = sweep_shift;
    p.sweep_reload = sweep_reload;
    p.sweep_enabled = sweep_enabled;
    p.sweep_counter = sweep_counter;
    p.sweep_negate_constant = sweep_negate_constant;
    assert(r0.take(13) =~= pulse_tail_bytes(*p));
    Ok(())
}

impl Pulse {
    /// Reads a channel saved by `write`.  Values outside the channel's
    /// register ranges, and flag bytes other than 0 and 1, are refused.
    pub fn read_state(reader: &mut StateReader) -> (res: Result<Pulse, StateError>)
        requires
            old(reader).wf(),
        ensures
            final(reader).wf(),
            final(reader).data@ == old(reader).data@,
            res is Ok <==> pulse_fits(old(reader).rest()),
            res matches Ok(p) ==> p.wf() && final(reader).pos == old(reader).pos + 37
                && old(reader).rest().take(37) == pulse_bytes(p),
    {
        let ghost r0 = reader.rest();
        let mut p = Pulse::new(0);
        read_head(&mut p, reader)?;
        assert(reader.rest() =~= r0.skip(24));
        let ghost h = pulse_head_bytes(p);
        let ghost rt = reader.rest();
        read_tail(&mut p, reader)?;
        proof {
            assert(rt.skip(9) =~= r0.skip(33));
            assert(rt.skip(7) =~= r0.skip(31));
            assert(rt.skip(11) =~= r0.skip(35));
        }
        if p.sweep_negate_constant > 1 || (p.sweep_enabled && p.sweep_shift == 0) {
            return Err(StateError::InvalidData);
        }
        assert(r0.take(37) =~= pulse_bytes(p));
        Ok(p)
    }
}

} // verus!
