//! Byte-level save-state encoding.
//!
//! Every piece of emulator state that survives a save/load cycle is written
//! as a little-endian byte string.  Writers append to a `Vec<u8>`; readers
//! consume a `StateReader`, a byte buffer with a cursor.
use vstd::prelude::*;
use vstd::bytes::*;

verus! {

/// Why a saved state could not be read back.
#[derive(Debug, Clone, Copy, PartialEq, Eq)]
pub enum StateError {
    /// The input ended before the value was complete.
    UnexpectedEnd,
    /// A tag byte named no known variant.
    InvalidData,
}

/// A byte buffer and the position of the next unread byte.
pub struct StateReader {
    pub data: Vec<u8>,
    pub pos: usize,
}

impl StateReader {
    pub open spec fn wf(&self) -> bool {
        self.pos <= self.data@.len()
    }

    /// The bytes that are still to be read.
    pub open spec fn rest(&self) -> Seq<u8> {
        self.data@.subrange(self.pos as int, self.data@.len() as int)
    }

    pub fn new(data: Vec<u8>) -> (r: StateReader)
        ensures
            r.wf(),
            r.pos == 0,
            r.data@ == data@,
            r.rest() == data@,
    {
        let r = StateReader { data, pos: 0 };
        assert(r.rest() =~= r.data@);
        r
    }

    /// Takes the next `n` bytes.
    pub fn take(&mut self, n: usize) -> (res: Result<Vec<u8>, StateError>)
        requires
            old(self).wf(),
        ensures
            final(self).wf(),
            final(self).data@ == old(self).data@,
            n <= old(self).rest().len() ==> {
                &&& res is Ok
                &&& res->Ok_0@ == old(self).rest().take(n as int)
                &&& final(self).pos == old(self).pos + n
                &&& final(self).rest() == old(self).rest().skip(n as int)
            },
            n > old(self).rest().len() ==> res == Err::<Vec<u8>, StateError>(StateError::UnexpectedEnd)
                && final(self).pos == old(self).pos,
    {
        if n > self.data.len() - self.pos {
            return Err(StateError::UnexpectedEnd);
        }
        let start = self.pos;
        assert(start + n <= self.data.len());
        let mut out: Vec<u8> = Vec::with_capacity(n);
        let mut i: usize = 0;
        while i < n
            invariant
                start == self.pos,
                start + n <= self.data@.len(),
                start + n <= usize::MAX,
                i <= n,
                out@ == self.data@.subrange(start as int, start + i),
            decreases n - i,
        {
            out.push(self.data[start + i]);
            i += 1;
            assert(out@ =~= self.data@.subrange(start as int, start + i));
        }
        let ghost old_rest = self.rest();
        self.pos = self.pos + n;
        assert(out@ =~= old_rest.take(n as int));
        assert(self.rest() =~= old_rest.skip(n as int));
        Ok(out)
    }
}

/// A value that can be appended to a save state.
pub trait WriteState {
    /// The bytes that `write` appends.
    spec fn state_bytes(&self) -> Seq<u8>;

    fn write(&self, writer: &mut Vec<u8>)
        ensures
            final(writer)@ == old(writer)@ + self.state_bytes(),
    ;
}

/// A value that can be read back from a save state.
pub trait ReadState: Sized {
    /// The value at the front of `bytes` and how many bytes it takes, if any.
    spec fn parse(bytes: Seq<u8>) -> Option<(Self, nat)>;

    fn read(reader: &mut StateReader) -> (res: Result<Self, StateError>)
        requires
            old(reader).wf(),
        ensures
            final(reader).wf(),
            final(reader).data@ == old(reader).data@,
            match Self::parse(old(reader).rest()) {
                Some((v, n)) => res == Ok::<Self, StateError>(v) && final(reader).pos == old(reader).pos + n,
                None => res is Err,
            },
    ;
}

/// The byte a flag is saved as: 1 for true, 0 for false.
#[verifier::opaque]
pub open spec fn bool_byte(b: bool) -> u8 {
    if b { 1 } else { 0 }
}

pub open spec fn bool_bytes(b: bool) -> Seq<u8> {
    seq![bool_byte(b)]
}

pub open spec fn u64_bytes(x: u64) -> Seq<u8> {
    spec_u64_to_le_bytes(x)
}

pub open spec fn u16_bytes(x: u16) -> Seq<u8> {
    spec_u16_to_le_bytes(x)
}

/// A `usize` is saved as a 64-bit little-endian number.
pub open spec fn usize_bytes(x: usize) -> Seq<u8> {
    spec_u64_to_le_bytes(x as u64)
}

/// A byte vector is saved as its length (64-bit) followed by its bytes.
pub open spec fn vec_bytes(v: Seq<u8>) -> Seq<u8> {
    spec_u64_to_le_bytes(v.len() as u64) + v
}

/// Appends one byte.
pub fn push_byte(b: u8, writer: &mut Vec<u8>)
    ensures
        final(writer)@ == old(writer)@ + seq![b],
{
    writer.push(b);
    assert(writer@ =~= old(writer)@ + seq![b]);
}

impl WriteState for u8 {
    open spec fn state_bytes(&self) -> Seq<u8> {
        seq![*self]
    }

    fn write(&self, writer: &mut Vec<u8>) {
        push_byte(*self, writer);
        assert(writer@ == old(writer)@ + self.state_bytes());
    }
}

impl ReadState for u8 {
    open spec fn parse(bytes: Seq<u8>) -> Option<(u8, nat)> {
        if bytes.len() >= 1 {
            Some((bytes[0], 1))
        } else {
            None
        }
    }

    fn read(reader: &mut StateReader) -> (res: Result<u8, StateError>) {
        let ghost r0 = reader.rest();
        if reader.pos < reader.data.len() {
            let b = reader.data[reader.pos];
            reader.pos = reader.pos + 1;
            assert(r0[0] == b);
            assert(Self::parse(r0) == Some((b, 1nat)));
            Ok(b)
        } else {
            assert(Self::parse(r0) is None);
            Err(StateError::UnexpectedEnd)
        }
    }
}

impl WriteState for bool {
    open spec fn state_bytes(&self) -> Seq<u8> {
        bool_bytes(*self)
    }

    fn write(&self, writer: &mut Vec<u8>) {
        let b: u8 = if *self { 1 } else { 0 };
        writer.push(b);
        reveal(bool_byte);
        assert(writer@ =~= old(writer)@ + bool_bytes(*self));
        assert(writer@ == old(writer)@ + self.state_bytes());
    }
}

impl ReadState for bool {
    /// Any nonzero byte reads as `true`.
    open spec fn parse(bytes: Seq<u8>) -> Option<(bool, nat)> {
        if bytes.len() >= 1 {
            Some((bytes[0] != 0, 1))
        } else {
            None
        }
    }

    fn read(reader: &mut StateReader) -> (res: Result<bool, StateError>) {
        let ghost r0 = reader.rest();
        match u8::read(reader) {
            Ok(b) => {
                assert(Self::parse(r0) == Some((b != 0, 1nat)));
                Ok(b != 0)
            },
            Err(e) => {
                assert(Self::parse(r0) is None);
                Err(e)
            },
        }
    }
}

impl WriteState for u16 {
    open spec fn state_bytes(&self) -> Seq<u8> {
        u16_bytes(*self)
    }

    fn write(&self, writer: &mut Vec<u8>) {
        let mut bytes = u16_to_le_bytes(*self);
        writer.append(&mut bytes);
        assert(writer@ == old(writer)@ + self.state_bytes());
    }
}

impl ReadState for u16 {
    open spec fn parse(bytes: Seq<u8>) -> Option<(u16, nat)> {
        if bytes.len() >= 2 {
            Some((spec_u16_from_le_bytes(bytes.take(2)), 2))
        } else {
            None
        }
    }

    fn read(reader: &mut StateReader) -> (res: Result<u16, StateError>) {
        let ghost r0 = reader.rest();
        match reader.take(2) {
            Ok(bytes) => {
                let v = u16_from_le_bytes(bytes.as_slice());
                assert(Self::parse(r0) == Some((v, 2nat)));
                Ok(v)
            },
            Err(e) => {
                assert(Self::parse(r0) is None);
                Err(e)
            },
        }
    }
}

pub open spec fn u32_bytes(x: u32) -> Seq<u8> {
    spec_u32_to_le_bytes(x)
}

impl WriteState for u32 {
    open spec fn state_bytes(&self) -> Seq<u8> {
        u32_bytes(*self)
    }

    fn write(&self, writer: &mut Vec<u8>) {
        let mut bytes = u32_to_le_bytes(*self);
        writer.append(&mut bytes);
        assert(writer@ == old(writer)@ + self.state_bytes());
    }
}

/// Reads a 32-bit little-endian number.
pub fn read_u32_le(reader: &mut StateReader) -> (res: Result<u32, StateError>)
    requires
        old(reader).wf(),
    ensures
        final(reader).wf(),
        final(reader).data@ == old(reader).data@,
        old(reader).rest().len() >= 4 <==> res is Ok,
        res is Err ==> final(reader).pos == old(reader).pos
            && res == Err::<u32, StateError>(StateError::UnexpectedEnd),
        res matches Ok(v) ==> final(reader).pos == old(reader).pos + 4
            && v == spec_u32_from_le_bytes(old(reader).rest().take(4))
            && old(reader).rest().take(4) == u32_bytes(v),
{
    let ghost r0 = reader.rest();
    let bytes = reader.take(4)?;
    let x = u32_from_le_bytes(bytes.as_slice());
    proof {
        lemma_auto_spec_u32_to_from_le_bytes();
        assert(r0.take(4).len() == 4);
    }
    Ok(x)
}

impl WriteState for u64 {
    open spec fn state_bytes(&self) -> Seq<u8> {
        u64_bytes(*self)
    }

    fn write(&self, writer: &mut Vec<u8>) {
        let mut bytes = u64_to_le_bytes(*self);
        writer.append(&mut bytes);
        assert(writer@ == old(writer)@ + self.state_bytes());
    }
}

impl ReadState for u64 {
    open spec fn parse(bytes: Seq<u8>) -> Option<(u64, nat)> {
        if bytes.len() >= 8 {
            Some((spec_u64_from_le_bytes(bytes.take(8)), 8))
        } else {
            None
        }
    }

    fn read(reader: &mut StateReader) -> (res: Result<u64, StateError>) {
        let ghost r0 = reader.rest();
        match reader.take(8) {
            Ok(bytes) => {
                let v = u64_from_le_bytes(bytes.as_slice());
                assert(Self::parse(r0) == Some((v, 8nat)));
                Ok(v)
            },
            Err(e) => {
                assert(Self::parse(r0) is None);
                Err(e)
            },
        }
    }
}

impl WriteState for usize {
    open spec fn state_bytes(&self) -> Seq<u8> {
        usize_bytes(*self)
    }

    fn write(&self, writer: &mut Vec<u8>) {
        let x = *self as u64;
        x.write(writer);
        assert(writer@ == old(writer)@ + self.state_bytes());
    }
}

impl ReadState for usize {
    /// The 64-bit value is narrowed to `usize` as the platform does.
    open spec fn parse(bytes: Seq<u8>) -> Option<(usize, nat)> {
        if bytes.len() >= 8 {
            Some((spec_u64_from_le_bytes(bytes.take(8)) as usize, 8))
        } else {
            None
        }
    }

    fn read(reader: &mut StateReader) -> (res: Result<usize, StateError>) {
        let ghost r0 = reader.rest();
        match u64::read(reader) {
            Ok(x) => {
                assert(Self::parse(r0) == Some((x as usize, 8nat)));
                Ok(x as usize)
            },
            Err(e) => {
                assert(Self::parse(r0) is None);
                Err(e)
            },
        }
    }
}

/// Appends a byte vector: its length as a 64-bit number, then its bytes.
pub fn write_byte_vec(v: &Vec<u8>, writer: &mut Vec<u8>)
    ensures
        final(writer)@ == old(writer)@ + vec_bytes(v@),
{
    let len = v.len() as u64;
    len.write(writer);
    let ghost mid = writer@;
    let mut i: usize = 0;
    while i < v.len()
        invariant
            i <= v@.len(),
            writer@ == mid + v@.take(i as int),
        decreases v@.len() - i,
    {
        writer.push(v[i]);
        i += 1;
        assert(writer@ =~= mid + v@.take(i as int));
    }
    assert(v@.take(v@.len() as int) =~= v@);
    assert(writer@ =~= old(writer)@ + vec_bytes(v@));
}

/// The byte vector at the front of `bytes` and how many bytes it takes, if any.
pub open spec fn parse_byte_vec(bytes: Seq<u8>) -> Option<(Seq<u8>, nat)> {
    if bytes.len() >= 8 {
        let n = spec_u64_from_le_bytes(bytes.take(8)) as usize as nat;
        if bytes.len() >= 8 + n {
            Some((bytes.subrange(8, 8 + n as int), 8 + n))
        } else {
            None
        }
    } else {
        None
    }
}

/// Reads a byte vector written by `write_byte_vec`.
pub fn read_byte_vec(reader: &mut StateReader) -> (res: Result<Vec<u8>, StateError>)
    requires
        old(reader).wf(),
    ensures
        final(reader).wf(),
        final(reader).data@ == old(reader).data@,
        match parse_byte_vec(old(reader).rest()) {
            Some((v, n)) => res is Ok && res->Ok_0@ == v && final(reader).pos == old(reader).pos + n,
            None => res is Err,
        },
{
    let ghost r0 = reader.rest();
    let n = usize::read(reader)?;
    let ghost r1 = reader.rest();
    assert(r1 =~= r0.skip(8));
    let v = reader.take(n)?;
    assert(v@ =~= r0.subrange(8, 8 + n));
    Ok(v)
}

impl<const N: usize> WriteState for [u8; N] {
    open spec fn state_bytes(&self) -> Seq<u8> {
        self@
    }

    fn write(&self, writer: &mut Vec<u8>) {
        let ghost start = writer@;
        let mut i: usize = 0;
        while i < N
            invariant
                i <= N,
                self@.len() == N,
                writer@ == start + self@.take(i as int),
            decreases N - i,
        {
            writer.push(self[i]);
            i += 1;
            assert(writer@ =~= start + self@.take(i as int));
        }
        assert(self@.take(N as int) =~= self@);
        assert(writer@ == old(writer)@ + self.state_bytes());
    }
}

impl<const N: usize> ReadState for [u8; N] {
    open spec fn parse(bytes: Seq<u8>) -> Option<([u8; N], nat)> {
        if bytes.len() >= N {
            let a = choose|a: [u8; N]| a@ == bytes.take(N as int);
            Some((a, N as nat))
        } else {
            None
        }
    }

    fn read(reader: &mut StateReader) -> (res: Result<[u8; N], StateError>)
        ensures
            res matches Ok(a) ==> a@ == old(reader).rest().take(N as int),
    {
        let ghost r0 = reader.rest();
        let bytes = match reader.take(N) {
            Ok(b) => b,
            Err(e) => {
                assert(Self::parse(r0) is None);
                return Err(e);
            },
        };
        let mut a = [0u8; N];
        let mut i: usize = 0;
        while i < N
            invariant
                i <= N,
                bytes@.len() == N,
                a@.len() == N,
                forall|j: int| 0 <= j < i ==> a@[j] == bytes@[j],
            decreases N - i,
        {
            a[i] = bytes[i];
            i += 1;
        }
        assert(a@ =~= r0.take(N as int));
        let ghost c = choose|c: [u8; N]| c@ == r0.take(N as int);
        assert(c@ == a@);
        assert(c =~= a) by {
            assert forall|j: int| 0 <= j < N implies c[j] == a[j] by {
                assert(c@[j] == a@[j]);
            }
        }
        assert(Self::parse(r0) == Some((a, N as nat)));
        Ok(a)
    }
}


/// What reading a `usize` of at most `max` from `rest` gives: the number
/// in the first eight bytes, the end of the input when there are fewer,
/// and invalid data when the number is above `max`.
#[verifier::opaque]
pub open spec fn usize_outcome(rest: Seq<u8>, max: usize, res: Result<usize, StateError>) -> bool {
    if rest.len() < 8 {
        res == Err::<usize, StateError>(StateError::UnexpectedEnd)
    } else if spec_u64_from_le_bytes(rest.take(8)) > max {
        res == Err::<usize, StateError>(StateError::InvalidData)
    } else {
        res == Ok::<usize, StateError>(spec_u64_from_le_bytes(rest.take(8)) as usize)
    }
}

/// Whether `rest` starts with a 64-bit number of at most `max`.
#[verifier::opaque]
pub open spec fn word_fits(rest: Seq<u8>, max: usize) -> bool {
    rest.len() >= 8 && spec_u64_from_le_bytes(rest.take(8)) <= max
}

/// The 64-bit number that `rest` starts with.
#[verifier::opaque]
pub open spec fn word_value(rest: Seq<u8>) -> u64 {
    spec_u64_from_le_bytes(rest.take(8))
}

/// Whether `rest` starts with a flag byte, 0 or 1.
#[verifier::opaque]
pub open spec fn flag_fits(rest: Seq<u8>) -> bool {
    rest.len() >= 1 && rest[0] <= 1
}

/// The flag that a strict flag byte at the front of `rest` reads as.
#[verifier::opaque]
pub open spec fn flag_value(rest: Seq<u8>) -> bool {
    rest[0] == 1
}

/// Whether `rest` starts with a byte of at most `max`.
#[verifier::opaque]
pub open spec fn byte_fits(rest: Seq<u8>, max: u8) -> bool {
    rest.len() >= 1 && rest[0] <= max
}

/// Reads a `usize` and refuses a value above `max`.
pub fn read_usize_at_most(reader: &mut StateReader, max: usize) -> (res: Result<usize, StateError>)
    requires
        old(reader).wf(),
    ensures
        final(reader).wf(),
        final(reader).data@ == old(reader).data@,
        usize_outcome(old(reader).rest(), max, res),
        res is Ok <==> word_fits(old(reader).rest(), max),
        res matches Ok(v) ==> v == word_value(old(reader).rest()),
        res matches Ok(v) ==> v <= max && final(reader).pos == old(reader).pos + 8
            && old(reader).rest().take(8) == usize_bytes(v),
{
    reveal(usize_outcome);
    reveal(word_fits);
    reveal(word_value);
    let ghost r0 = reader.rest();
    let x = match u64::read(reader) {
        Ok(x) => x,
        Err(_) => {
            return Err(StateError::UnexpectedEnd);
        },
    };
    if x > max as u64 {
        return Err(StateError::InvalidData);
    }
    proof {
        lemma_auto_spec_u64_to_from_le_bytes();
        assert(r0.take(8).len() == 8);
    }
    Ok(x as usize)
}

/// The bytes of a run of `usize` values, each saved as a 64-bit number.
pub open spec fn usizes_bytes(s: Seq<usize>) -> Seq<u8>
    decreases s.len(),
{
    if s.len() == 0 {
        Seq::empty()
    } else {
        usizes_bytes(s.drop_last()) + usize_bytes(s.last())
    }
}

/// Each `usize` takes eight bytes.
pub proof fn lemma_usizes_bytes_len(s: Seq<usize>)
    ensures
        usizes_bytes(s).len() == 8 * s.len(),
    decreases s.len(),
{
    if s.len() > 0 {
        lemma_usizes_bytes_len(s.drop_last());
        lemma_auto_spec_u64_to_from_le_bytes();
        assert(usize_bytes(s.last()).len() == 8);
    }
}

/// Appends each `usize` of `a` in turn.
pub fn write_usize_array<const N: usize>(a: &[usize; N], writer: &mut Vec<u8>)
    ensures
        final(writer)@ == old(writer)@ + usizes_bytes(a@),
{
    let ghost start = writer@;
    let mut i: usize = 0;
    while i < N
        invariant
            i <= N,
            a@.len() == N,
            writer@ == start + usizes_bytes(a@.take(i as int)),
        decreases N - i,
    {
        a[i].write(writer);
        assert(a@.take(i + 1).drop_last() =~= a@.take(i as int));
        i += 1;
        assert(writer@ =~= start + usizes_bytes(a@.take(i as int)));
    }
    assert(a@.take(N as int) =~= a@);
}

/// The 64-bit little-endian number at word `i` of `r`.
pub open spec fn word_at(r: Seq<u8>, i: int) -> u64 {
    spec_u64_from_le_bytes(r.subrange(8 * i, 8 * i + 8))
}

/// What reading `N` words of at most `max` from `rest` gives: all of them
/// when there are enough bytes and none is above `max`, an error otherwise.
/// Whether `rest` starts with `n` 64-bit numbers, none above `max`.
#[verifier::opaque]
pub open spec fn words_fit(rest: Seq<u8>, n: int, max: usize) -> bool {
    rest.len() >= 8 * n && forall|i: int| 0 <= i < n ==> #[trigger] word_at(rest, i) <= max
}

#[verifier::opaque]
pub open spec fn words_outcome<const N: usize>(rest: Seq<u8>, max: usize, res: Result<[usize; N], StateError>) -> bool {
    &&& res is Ok <==> rest.len() >= 8 * N && forall|i: int| 0 <= i < N ==> #[trigger] word_at(rest, i) <= max
    &&& res matches Ok(a) ==> forall|i: int| 0 <= i < N ==> a[i] == #[trigger] word_at(rest, i)
}

/// Reads `N` values with `read_usize_at_most`, refusing any above `max`.
pub fn read_usize_array<const N: usize>(reader: &mut StateReader, max: usize) -> (res: Result<[usize; N], StateError>)
    requires
        old(reader).wf(),
    ensures
        final(reader).wf(),
        final(reader).data@ == old(reader).data@,
        words_outcome(old(reader).rest(), max, res),
        res is Ok <==> words_fit(old(reader).rest(), N as int, max),
        res matches Ok(a) ==> (forall|i: int| 0 <= i < N ==> a[i] <= max)
            && final(reader).pos == old(reader).pos + 8 * N
            && old(reader).rest().take(8 * N) == usizes_bytes(a@),
{
    reveal(words_outcome);
    reveal(usize_outcome);
    reveal(words_fit);
    let ghost r0 = reader.rest();
    let ghost p0 = reader.pos;
    let mut a = [0usize; N];
    let mut i: usize = 0;
    while i < N
        invariant
            reader.wf(),
            reader.data@ == old(reader).data@,
            r0 == old(reader).rest(),
            p0 == old(reader).pos,
            i <= N,
            a@.len() == N,
            reader.pos == p0 + 8 * i,
            reader.rest() == r0.skip(8 * i),
            r0.take(8 * i) == usizes_bytes(a@.take(i as int)),
            r0.len() >= 8 * i,
            forall|j: int| 0 <= j < i ==> a[j] <= max,
            forall|j: int| 0 <= j < i ==> a[j] == #[trigger] word_at(r0, j) && word_at(r0, j) <= max,
        decreases N - i,
    {
        let ghost r1 = reader.rest();
        let ghost a0 = a@;
        proof {
            reveal(words_outcome);
            reveal(usize_outcome);
            reveal(words_fit);
            if r1.len() >= 8 {
                assert(r1.take(8) =~= r0.subrange(8 * i, 8 * i + 8));
            }
        }
        let x = match read_usize_at_most(reader, max) {
            Ok(x) => x,
            Err(e) => {
                proof {
                    if r0.len() >= 8 * N {
                        assert(r1.len() >= 8);
                        assert(word_at(r0, i as int) > max);
                    }
                }
                return Err(e);
            },
        };
        a[i] = x;
        assert(a@.take(i + 1).drop_last() =~= a0.take(i as int));
        assert(r0.take(8 * (i + 1)) =~= r0.take(8 * i) + r1.take(8));
        assert(reader.rest() =~= r0.skip(8 * (i + 1)));
        i += 1;
    }
    assert(a@.take(N as int) =~= a@);
    Ok(a)
}

/// The bytes of a run of flags, one byte each.
pub open spec fn bools_bytes(s: Seq<bool>) -> Seq<u8> {
    Seq::new(s.len(), |i: int| bool_byte(s[i]))
}

/// Appends each flag of `a` in turn.
pub fn write_bool_array<const N: usize>(a: &[bool; N], writer: &mut Vec<u8>)
    ensures
        final(writer)@ == old(writer)@ + bools_bytes(a@),
{
    let ghost start = writer@;
    let mut i: usize = 0;
    while i < N
        invariant
            i <= N,
            a@.len() == N,
            writer@ == start + bools_bytes(a@.take(i as int)),
        decreases N - i,
    {
        let b: u8 = if a[i] { 1 } else { 0 };
        writer.push(b);
        reveal(bool_byte);
        i += 1;
        assert(writer@ =~= start + bools_bytes(a@.take(i as int)));
    }
    assert(a@.take(N as int) =~= a@);
}

/// What reading a strict flag from `rest` gives: the first byte as a
/// flag when it is 0 or 1, invalid data when it is another byte, and the
/// end of the input when there is none.
#[verifier::opaque]
pub open spec fn flag_outcome(rest: Seq<u8>, res: Result<bool, StateError>) -> bool {
    if rest.len() < 1 {
        res == Err::<bool, StateError>(StateError::UnexpectedEnd)
    } else if rest[0] > 1 {
        res == Err::<bool, StateError>(StateError::InvalidData)
    } else {
        res == Ok::<bool, StateError>(rest[0] == 1)
    }
}

/// Reads a flag and refuses a byte other than 0 or 1.
pub fn read_bool_strict(reader: &mut StateReader) -> (res: Result<bool, StateError>)
    requires
        old(reader).wf(),
    ensures
        final(reader).wf(),
        final(reader).data@ == old(reader).data@,
        flag_outcome(old(reader).rest(), res),
        res is Ok <==> flag_fits(old(reader).rest()),
        res matches Ok(b) ==> b == flag_value(old(reader).rest()),
        res matches Ok(b) ==> final(reader).pos == old(reader).pos + 1
            && old(reader).rest().take(1) == bool_bytes(b),
{
    reveal(flag_outcome);
    reveal(flag_fits);
    reveal(flag_value);
    let ghost r0 = reader.rest();
    let x = match u8::read(reader) {
        Ok(x) => x,
        Err(_) => {
            return Err(StateError::UnexpectedEnd);
        },
    };
    if x > 1 {
        return Err(StateError::InvalidData);
    }
    reveal(bool_byte);
    assert(r0.take(1) =~= bool_bytes(x == 1));
    Ok(x == 1)
}

/// Reads a 16-bit little-endian number.
pub fn read_u16_le(reader: &mut StateReader) -> (res: Result<u16, StateError>)
    requires
        old(reader).wf(),
    ensures
        final(reader).wf(),
        final(reader).data@ == old(reader).data@,
        (if old(reader).rest().len() < 2 {
            res == Err::<u16, StateError>(StateError::UnexpectedEnd)
        } else {
            res == Ok::<u16, StateError>(spec_u16_from_le_bytes(old(reader).rest().take(2)))
        }),
        res matches Ok(v) ==> final(reader).pos == old(reader).pos + 2
            && old(reader).rest().take(2) == u16_bytes(v),
{
    let ghost r0 = reader.rest();
    let x = match u16::read(reader) {
        Ok(x) => x,
        Err(_) => {
            return Err(StateError::UnexpectedEnd);
        },
    };
    proof {
        lemma_auto_spec_u16_to_from_le_bytes();
        assert(r0.take(2).len() == 2);
    }
    Ok(x)
}

/// What reading `N` strict flags from `rest` gives: all of them when there
/// are enough bytes and each is 0 or 1, an error otherwise.
/// Whether `rest` starts with `n` flag bytes, each 0 or 1.
#[verifier::opaque]
pub open spec fn flags_fit(rest: Seq<u8>, n: int) -> bool {
    rest.len() >= n && forall|i: int| 0 <= i < n ==> #[trigger] rest[i] <= 1
}

#[verifier::opaque]
pub open spec fn flags_outcome<const N: usize>(rest: Seq<u8>, res: Result<[bool; N], StateError>) -> bool {
    &&& res is Ok <==> rest.len() >= N && forall|i: int| 0 <= i < N ==> #[trigger] rest[i] <= 1
    &&& res matches Ok(a) ==> forall|i: int| 0 <= i < N ==> a[i] == (#[trigger] rest[i] == 1)
}

/// Reads `N` flags, refusing a byte other than 0 or 1.
pub fn read_bool_array<const N: usize>(reader: &mut StateReader) -> (res: Result<[bool; N], StateError>)
    requires
        old(reader).wf(),
    ensures
        final(reader).wf(),
        final(reader).data@ == old(reader).data@,
        flags_outcome(old(reader).rest(), res),
        res is Ok <==> flags_fit(old(reader).rest(), N as int),
        res matches Ok(a) ==> final(reader).pos == old(reader).pos + N
            && old(reader).rest().take(N as int) == bools_bytes(a@),
{
    reveal(flags_outcome);
    reveal(flag_outcome);
    reveal(flags_fit);
    let ghost r0 = reader.rest();
    let ghost p0 = reader.pos;
    let mut a = [false; N];
    let mut i: usize = 0;
    while i < N
        invariant
            reader.wf(),
            reader.data@ == old(reader).data@,
            r0 == old(reader).rest(),
            p0 == old(reader).pos,
            i <= N,
            a@.len() == N,
            reader.pos == p0 + i,
            reader.rest() == r0.skip(i as int),
            r0.take(i as int) == bools_bytes(a@.take(i as int)),
            r0.len() >= i,
            forall|j: int| 0 <= j < i ==> #[trigger] r0[j] <= 1 && a[j] == (r0[j] == 1),
        decreases N - i,
    {
        let ghost r1 = reader.rest();
        let ghost a0 = a@;
        proof {
            reveal(flags_outcome);
            reveal(flag_outcome);
            reveal(flags_fit);
        }
        let x = match read_bool_strict(reader) {
            Ok(x) => x,
            Err(e) => {
                proof {
                    if r0.len() >= N {
                        assert(r1[0] == r0[i as int]);
                        assert(r0[i as int] > 1);
                    }
                }
                return Err(e);
            },
        };
        a[i] = x;
        assert(r0.take(i + 1) =~= r0.take(i as int) + r1.take(1));
        assert(bools_bytes(a@.take(i + 1)) =~= bools_bytes(a0.take(i as int)) + bool_bytes(x));
        assert(reader.rest() =~= r0.skip(i + 1));
        i += 1;
    }
    assert(a@.take(N as int) =~= a@);
    Ok(a)
}

/// What reading a length-prefixed byte vector from `rest` gives: the bytes
/// that the 64-bit length announces, when the length fits a `usize` and
/// the bytes are all there, an error otherwise.
/// Whether `rest` starts with a length that fits a `usize` followed by at
/// least that many bytes.
#[verifier::opaque]
pub open spec fn vec_fits(rest: Seq<u8>) -> bool {
    rest.len() >= 8 && spec_u64_from_le_bytes(rest.take(8)) <= usize::MAX
        && rest.len() >= 8 + spec_u64_from_le_bytes(rest.take(8))
}

/// The length that a length-prefixed byte vector at the front of `rest`
/// announces.
#[verifier::opaque]
pub open spec fn vec_len(rest: Seq<u8>) -> int {
    spec_u64_from_le_bytes(rest.take(8)) as int
}

#[verifier::opaque]
pub open spec fn vec_outcome(rest: Seq<u8>, res: Result<Vec<u8>, StateError>) -> bool {
    &&& res is Ok <==> rest.len() >= 8 && spec_u64_from_le_bytes(rest.take(8)) <= usize::MAX
        && rest.len() >= 8 + spec_u64_from_le_bytes(rest.take(8))
    &&& res matches Ok(v) ==> v@ == rest.subrange(8, 8 + v@.len() as int)
        && v@.len() == spec_u64_from_le_bytes(rest.take(8))
}

/// Reads a byte vector written by `write_byte_vec`, giving back exactly the
/// bytes that it consumed.
pub fn read_byte_vec_exact(reader: &mut StateReader) -> (res: Result<Vec<u8>, StateError>)
    requires
        old(reader).wf(),
    ensures
        final(reader).wf(),
        final(reader).data@ == old(reader).data@,
        vec_outcome(old(reader).rest(), res),
        res is Ok <==> vec_fits(old(reader).rest()),
        res matches Ok(v) ==> v@.len() == vec_len(old(reader).rest()),
        res matches Ok(v) ==> final(reader).pos == old(reader).pos + 8 + v@.len()
            && old(reader).rest().take(8 + v@.len() as int) == vec_bytes(v@),
{
    reveal(vec_outcome);
    reveal(usize_outcome);
    reveal(vec_fits);
    reveal(vec_len);
    let ghost r0 = reader.rest();
    let n = read_usize_at_most(reader, usize::MAX)?;
    let ghost r1 = reader.rest();
    assert(r1 =~= r0.skip(8));
    let v = reader.take(n)?;
    assert(v@ =~= r0.subrange(8, 8 + n));
    assert(r0.take(8 + n) =~= r0.take(8) + r1.take(n as int));
    Ok(v)
}

/// Reads a 64-bit little-endian number.
pub fn read_u64_le(reader: &mut StateReader) -> (res: Result<u64, StateError>)
    requires
        old(reader).wf(),
    ensures
        final(reader).wf(),
        final(reader).data@ == old(reader).data@,
        (if old(reader).rest().len() < 8 {
            res == Err::<u64, StateError>(StateError::UnexpectedEnd)
        } else {
            res == Ok::<u64, StateError>(spec_u64_from_le_bytes(old(reader).rest().take(8)))
        }),
        res matches Ok(v) ==> final(reader).pos == old(reader).pos + 8
            && old(reader).rest().take(8) == u64_bytes(v),
{
    let ghost r0 = reader.rest();
    let x = match u64::read(reader) {
        Ok(x) => x,
        Err(_) => {
            return Err(StateError::UnexpectedEnd);
        },
    };
    proof {
        lemma_auto_spec_u64_to_from_le_bytes();
        assert(r0.take(8).len() == 8);
    }
    Ok(x)
}

/// Reads a byte and refuses a value above `max`.
pub fn read_u8_at_most(reader: &mut StateReader, max: u8) -> (res: Result<u8, StateError>)
    requires
        old(reader).wf(),
    ensures
        final(reader).wf(),
        final(reader).data@ == old(reader).data@,
        (if old(reader).rest().len() < 1 {
            res == Err::<u8, StateError>(StateError::UnexpectedEnd)
        } else if old(reader).rest()[0] > max {
            res == Err::<u8, StateError>(StateError::InvalidData)
        } else {
            res == Ok::<u8, StateError>(old(reader).rest()[0])
        }),
        res is Ok <==> byte_fits(old(reader).rest(), max),
        res matches Ok(v) ==> v <= max && final(reader).pos == old(reader).pos + 1
            && old(reader).rest().take(1) == seq![v],
{
    reveal(byte_fits);
    let ghost r0 = reader.rest();
    let x = match u8::read(reader) {
        Ok(x) => x,
        Err(_) => {
            return Err(StateError::UnexpectedEnd);
        },
    };
    if x > max {
        return Err(StateError::InvalidData);
    }
    assert(r0.take(1) =~= seq![x]);
    Ok(x)
}

/// Reading a byte back from what was written gives the same byte.
pub proof fn lemma_u8_roundtrip(x: u8, rest: Seq<u8>)
    ensures
        <u8 as ReadState>::parse(x.state_bytes() + rest) == Some((x, 1nat)),
{
    assert((x.state_bytes() + rest)[0] == x);
}

/// Reading a flag back from what was written gives the same flag.
pub proof fn lemma_bool_roundtrip(b: bool, rest: Seq<u8>)
    ensures
        <bool as ReadState>::parse(b.state_bytes() + rest) == Some((b, 1nat)),
{
    reveal(bool_byte);
    assert((b.state_bytes() + rest)[0] == if b { 1u8 } else { 0u8 });
}

/// Reading a 16-bit number back from what was written gives the same number.
pub proof fn lemma_u16_roundtrip(x: u16, rest: Seq<u8>)
    ensures
        <u16 as ReadState>::parse(x.state_bytes() + rest) == Some((x, 2nat)),
{
    lemma_auto_spec_u16_to_from_le_bytes();
    assert((u16_bytes(x) + rest).take(2) =~= u16_bytes(x));
}

/// Reading a 64-bit number back from what was written gives the same number.
pub proof fn lemma_u64_roundtrip(x: u64, rest: Seq<u8>)
    ensures
        <u64 as ReadState>::parse(x.state_bytes() + rest) == Some((x, 8nat)),
{
    lemma_auto_spec_u64_to_from_le_bytes();
    assert(u64_bytes(x).len() == 8);
    assert((u64_bytes(x) + rest).take(8) =~= u64_bytes(x));
}

/// Reading a `usize` back from what was written gives the same value.
pub proof fn lemma_usize_roundtrip(x: usize, rest: Seq<u8>)
    ensures
        <usize as ReadState>::parse(x.state_bytes() + rest) == Some((x, 8nat)),
{
    lemma_u64_roundtrip(x as u64, rest);
}

/// Reading a byte vector back from what was written gives the same bytes.
pub proof fn lemma_byte_vec_roundtrip(v: Seq<u8>, rest: Seq<u8>)
    requires
        v.len() <= u64::MAX,
        v.len() <= usize::MAX,
    ensures
        parse_byte_vec(vec_bytes(v) + rest) == Some((v, 8 + v.len())),
{
    lemma_auto_spec_u64_to_from_le_bytes();
    let b = vec_bytes(v) + rest;
    assert(spec_u64_to_le_bytes(v.len() as u64).len() == 8);
    assert(b.take(8) =~= spec_u64_to_le_bytes(v.len() as u64));
    assert(b.subrange(8, 8 + v.len() as int) =~= v);
}

/// Reading a byte array back from what was written gives the same array.
pub proof fn lemma_array_roundtrip<const N: usize>(a: [u8; N], rest: Seq<u8>)
    ensures
        <[u8; N] as ReadState>::parse(a.state_bytes() + rest) == Some((a, N as nat)),
{
    let b = a@ + rest;
    assert(b.take(N as int) =~= a@);
    let c = choose|c: [u8; N]| c@ == b.take(N as int);
    assert(c@ == a@);
    assert(c =~= a) by {
        assert forall|j: int| 0 <= j < N implies c[j] == a[j] by {
            assert(c@[j] == a@[j]);
        }
    }
}

} // verus!
