//! The standard joypad: eight buttons read back one bit at a time.
use vstd::prelude::*;
use crate::nes::State;
use crate::save_state::{WriteState, ReadState, StateReader, StateError, bool_bytes, usize_bytes};

verus! {

/// The buttons held on one joypad and the position of the serial read.
#[derive(Debug, Clone, Copy, PartialEq, Eq)]
pub struct ControllerState {
    pub a: bool,
    pub b: bool,
    pub select: bool,
    pub start: bool,
    pub up: bool,
    pub down: bool,
    pub left: bool,
    pub right: bool,
    pub index: usize,
}

impl ControllerState {
    /// The button that the serial read reports at position `i`; past the
    /// eighth bit the line reads as released.
    pub open spec fn button(&self, i: usize) -> bool {
        if i == 0 {
            self.a
        } else if i == 1 {
            self.b
        } else if i == 2 {
            self.select
        } else if i == 3 {
            self.start
        } else if i == 4 {
            self.up
        } else if i == 5 {
            self.down
        } else if i == 6 {
            self.left
        } else if i == 7 {
            self.right
        } else {
            false
        }
    }

    /// The same buttons with the read position moved to `i`.
    pub open spec fn with_index(&self, i: usize) -> ControllerState {
        ControllerState { index: i, ..*self }
    }

    /// No button held, read position at the start.
    pub fn new() -> (c: ControllerState)
        ensures
            !c.a && !c.b && !c.select && !c.start,
            !c.up && !c.down && !c.left && !c.right,
            c.index == 0,
    {
        ControllerState {
            a: false,
            b: false,
            select: false,
            start: false,
            up: false,
            down: false,
            left: false,
            right: false,
            index: 0,
        }
    }

    /// Reports the button at the current position (1 when held) and moves
    /// on to the next one.
    pub fn read(&mut self) -> (r: u8)
        ensures
            r == (if old(self).button(old(self).index) { 1u8 } else { 0u8 }),
            *final(self) == old(self).with_index(old(self).index.wrapping_add(1)),
    {
        let status = match self.index {
            0 => self.a,
            1 => self.b,
            2 => self.select,
            3 => self.start,
            4 => self.up,
            5 => self.down,
            6 => self.left,
            7 => self.right,
            _ => false,
        };
        self.index = self.index.wrapping_add(1);
        if status { 1 } else { 0 }
    }

    /// Restarts the serial read when the strobe bit of `data` is set.
    pub fn strobe(&mut self, data: u8)
        ensures
            *final(self) == (if data & 1 != 0 { old(self).with_index(0) } else { *old(self) }),
    {
        if data & 0x1 != 0 {
            self.index = 0;
        }
    }
}

/// The serial read reports the buttons in the order A, B, Select, Start,
/// Up, Down, Left, Right, and released after the eighth.
pub proof fn lemma_button_order(c: ControllerState)
    ensures
        c.button(0) == c.a,
        c.button(1) == c.b,
        c.button(2) == c.select,
        c.button(3) == c.start,
        c.button(4) == c.up,
        c.button(5) == c.down,
        c.button(6) == c.left,
        c.button(7) == c.right,
        forall|i: usize| i >= 8 ==> !#[trigger] c.button(i),
{
}

impl WriteState for ControllerState {
    open spec fn state_bytes(&self) -> Seq<u8> {
        bool_bytes(self.a) + bool_bytes(self.b) + bool_bytes(self.select) + bool_bytes(self.start)
            + bool_bytes(self.up) + bool_bytes(self.down) + bool_bytes(self.left)
            + bool_bytes(self.right) + usize_bytes(self.index)
    }

    #[verifier::rlimit(50)]
    fn write(&self, writer: &mut Vec<u8>) {
        let ghost w0 = writer@;
        self.a.write(writer);
        self.b.write(writer);
        assert(writer@ =~= w0 + (bool_bytes(self.a) + bool_bytes(self.b)));
        self.select.write(writer);
        self.start.write(writer);
        let ghost p1 = bool_bytes(self.a) + bool_bytes(self.b) + bool_bytes(self.select) + bool_bytes(self.start);
        assert(writer@ =~= w0 + p1);
        self.up.write(writer);
        self.down.write(writer);
        let ghost p2 = p1 + bool_bytes(self.up) + bool_bytes(self.down);
        assert(writer@ =~= w0 + p2);
        self.left.write(writer);
        self.right.write(writer);
        let ghost p3 = p2 + bool_bytes(self.left) + bool_bytes(self.right);
        assert(writer@ =~= w0 + p3);
        self.index.write(writer);
        assert(writer@ =~= w0 + (p3 + usize_bytes(self.index)));
    }
}

impl ReadState for ControllerState {
    /// Sixteen bytes: the eight buttons (any nonzero byte reads as held),
    /// then the read position as a 64-bit number.
    open spec fn parse(bytes: Seq<u8>) -> Option<(ControllerState, nat)> {
        if bytes.len() >= 16 {
            Some((ControllerState {
                a: bytes[0] != 0,
                b: bytes[1] != 0,
                select: bytes[2] != 0,
                start: bytes[3] != 0,
                up: bytes[4] != 0,
                down: bytes[5] != 0,
                left: bytes[6] != 0,
                right: bytes[7] != 0,
                index: vstd::bytes::spec_u64_from_le_bytes(bytes.subrange(8, 16)) as usize,
            }, 16))
        } else {
            None
        }
    }

    fn read(reader: &mut StateReader) -> (res: Result<ControllerState, StateError>) {
        let ghost r0 = reader.rest();
        if reader.data.len() - reader.pos < 16 {
            assert(Self::parse(r0) is None);
            return Err(StateError::UnexpectedEnd);
        }
        let a = bool::read(reader)?;
        let b = bool::read(reader)?;
        let select = bool::read(reader)?;
        let start = bool::read(reader)?;
        let up = bool::read(reader)?;
        let down = bool::read(reader)?;
        let left = bool::read(reader)?;
        let right = bool::read(reader)?;
        let ghost r8 = reader.rest();
        assert(r8 =~= r0.skip(8));
        let index = usize::read(reader)?;
        assert(r8.take(8) =~= r0.subrange(8, 16));
        Ok(ControllerState { a, b, select, start, up, down, left, right, index })
    }
}

/// Reading a joypad back from what was written gives the same joypad.
pub proof fn lemma_controller_roundtrip(c: ControllerState, rest: Seq<u8>)
    ensures
        <ControllerState as ReadState>::parse(c.state_bytes() + rest) == Some((c, 16nat)),
{
    vstd::bytes::lemma_auto_spec_u64_to_from_le_bytes();
    reveal(crate::save_state::bool_byte);
    let b = c.state_bytes() + rest;
    assert(usize_bytes(c.index).len() == 8);
    assert(b.subrange(8, 16) =~= usize_bytes(c.index));
    assert(b[0] == crate::save_state::bool_byte(c.a));
    assert(b[7] == crate::save_state::bool_byte(c.right));
}

/// A CPU write to 0x4016: the strobe bit restarts the first joypad's
/// serial read.
pub fn write(s: &mut State, data: u8)
    ensures
        *final(s) == (State {
            controller1: if data & 1 != 0 { old(s).controller1.with_index(0) } else { old(s).controller1 },
            ..*old(s)
        }),
{
    s.controller1.strobe(data);
}

} // verus!
