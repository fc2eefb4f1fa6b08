//! A cursor over a byte buffer: big-endian reads that move forward, and a
//! signed relative seek.

use crate::error::DecodeError;
use vstd::prelude::*;

verus! {

/// A byte buffer together with the position of the next byte to read.
#[derive(Clone, Debug)]
pub struct ByteStream {
    pub v: Vec<u8>,
    pub i: usize,
}

/// Whether `n` bytes can be read from `b` starting at position `i`.
pub open spec fn has_bytes(b: Seq<u8>, i: int, n: int) -> bool {
    0 <= i && i + n <= b.len()
}

/// Where a read that runs out of data leaves the cursor: every byte that was
/// still there has been consumed.
pub open spec fn stop_position(b: Seq<u8>, i: int) -> int {
    if i < b.len() {
        b.len() as int
    } else {
        i
    }
}

/// The big-endian value of the two bytes at `i`.
pub open spec fn be_u16(b: Seq<u8>, i: int) -> int {
    b[i] as int * 0x100 + b[i + 1] as int
}

/// The big-endian value of the four bytes at `i`.
pub open spec fn be_u32(b: Seq<u8>, i: int) -> int {
    b[i] as int * 0x100_0000 + b[i + 1] as int * 0x1_0000 + b[i + 2] as int * 0x100 + b[i + 3] as int
}

/// Whether a seek by `offset` from position `i` lands on a byte of `b`.
pub open spec fn seek_lands(b: Seq<u8>, i: int, offset: int) -> bool {
    0 <= i + offset < b.len()
}

impl From<Vec<u8>> for ByteStream {
    /// A cursor at the first byte of `value`.
    fn from(value: Vec<u8>) -> (r: Self) {
        ByteStream { v: value, i: 0 }
    }
}

impl vstd::std_specs::convert::FromSpecImpl<Vec<u8>> for ByteStream {
    open spec fn obeys_from_spec() -> bool {
        true
    }

    open spec fn from_spec(value: Vec<u8>) -> Self {
        ByteStream { v: value, i: 0 }
    }
}

impl ByteStream {
    /// The bytes of the buffer.
    pub open spec fn bytes(&self) -> Seq<u8> {
        self.v@
    }

    /// The position of the cursor.
    pub open spec fn pos(&self) -> int {
        self.i as int
    }

    /// Reads one byte and moves past it; `None`, with the cursor unmoved,
    /// when no byte is left.
    pub fn next(&mut self) -> (r: Option<u8>)
        ensures
            final(self).v == old(self).v,
            has_bytes(old(self).bytes(), old(self).pos(), 1) ==> r == Some(
                old(self).bytes()[old(self).pos()],
            ) && final(self).pos() == old(self).pos() + 1,
            !has_bytes(old(self).bytes(), old(self).pos(), 1) ==> r.is_none() && final(self).i
                == old(self).i,
    {
        if self.i < self.v.len() {
            let i: usize = self.i;
            self.i = i + 1;
            Some(self.v[i])
        } else {
            None
        }
    }

    /// Moves the cursor by `offset` bytes, forwards or backwards. The seek
    /// fails, and the cursor stays where it was, when the target would lie
    /// before the first byte or not on a byte of the buffer.
    pub fn advance_by(&mut self, offset: isize) -> (r: Option<()>)
        ensures
            final(self).v == old(self).v,
            seek_lands(old(self).bytes(), old(self).pos(), offset as int) ==> r.is_some()
                && final(self).pos() == old(self).pos() + offset,
            !seek_lands(old(self).bytes(), old(self).pos(), offset as int) ==> r.is_none()
                && final(self).i == old(self).i,
    {
        let len: usize = self.v.len();
        if offset >= 0 {
            let forward: usize = offset as usize;
            if forward < len && self.i < len - forward {
                self.i = self.i + forward;
                Some(())
            } else {
                None
            }
        } else {
            let back: usize = ((-(offset + 1)) as usize) + 1;
            if back <= self.i && self.i - back < len {
                self.i = self.i - back;
                Some(())
            } else {
                None
            }
        }
    }

    /// Reads an unsigned byte.
    pub fn next_u1(&mut self) -> (r: Option<u8>)
        ensures
            final(self).v == old(self).v,
            has_bytes(old(self).bytes(), old(self).pos(), 1) ==> r == Some(
                old(self).bytes()[old(self).pos()],
            ) && final(self).pos() == old(self).pos() + 1,
            !has_bytes(old(self).bytes(), old(self).pos(), 1) ==> r.is_none() && final(self).i
                == old(self).i,
    {
        self.next()
    }

    /// Reads two bytes as a big-endian unsigned number. When fewer than two
    /// bytes are left the read fails and consumes what was there.
    pub fn next_u2(&mut self) -> (r: Option<usize>)
        ensures
            final(self).v == old(self).v,
            has_bytes(old(self).bytes(), old(self).pos(), 2) ==> r.is_some() && r.unwrap()
                == be_u16(old(self).bytes(), old(self).pos()) && final(self).pos() == old(
                self,
            ).pos() + 2,
            !has_bytes(old(self).bytes(), old(self).pos(), 2) ==> r.is_none() && final(self).pos()
                == stop_position(old(self).bytes(), old(self).pos()),
    {
        let a: usize = match self.next() {
            Some(x) => x as usize,
            None => return None,
        };
        let b: usize = match self.next() {
            Some(x) => x as usize,
            None => return None,
        };
        Some(a * 0x100 + b)
    }

    /// Reads four bytes as a big-endian unsigned number. When fewer than four
    /// bytes are left the read fails and consumes what was there.
    pub fn next_u4(&mut self) -> (r: Option<usize>)
        ensures
            final(self).v == old(self).v,
            has_bytes(old(self).bytes(), old(self).pos(), 4) ==> r.is_some() && r.unwrap()
                == be_u32(old(self).bytes(), old(self).pos()) && final(self).pos() == old(
                self,
            ).pos() + 4,
            !has_bytes(old(self).bytes(), old(self).pos(), 4) ==> r.is_none() && final(self).pos()
                == stop_position(old(self).bytes(), old(self).pos()),
    {
        let a: usize = match self.next() {
            Some(x) => x as usize,
            None => return None,
        };
        let b: usize = match self.next() {
            Some(x) => x as usize,
            None => return None,
        };
        let c: usize = match self.next() {
            Some(x) => x as usize,
            None => return None,
        };
        let d: usize = match self.next() {
            Some(x) => x as usize,
            None => return None,
        };
        Some(a * 0x100_0000 + b * 0x1_0000 + c * 0x100 + d)
    }
}

/// What reading one byte as a field of a structure gives, and where it
/// leaves the cursor.
pub open spec fn parsed_u1(b: Seq<u8>, pos: int) -> (Result<u8, DecodeError>, int) {
    if has_bytes(b, pos, 1) {
        (Ok(b[pos]), pos + 1)
    } else {
        (Err(DecodeError::EndOfData), pos)
    }
}

/// What reading a two-byte field gives, and where it leaves the cursor.
pub open spec fn parsed_u2(b: Seq<u8>, pos: int) -> (Result<usize, DecodeError>, int) {
    if has_bytes(b, pos, 2) {
        (Ok(be_u16(b, pos) as usize), pos + 2)
    } else {
        (Err(DecodeError::EndOfData), stop_position(b, pos))
    }
}

/// What reading a four-byte field gives, and where it leaves the cursor.
pub open spec fn parsed_u4(b: Seq<u8>, pos: int) -> (Result<usize, DecodeError>, int) {
    if has_bytes(b, pos, 4) {
        (Ok(be_u32(b, pos) as usize), pos + 4)
    } else {
        (Err(DecodeError::EndOfData), stop_position(b, pos))
    }
}

/// What decoding `n` items in a row gives, the first at `pos` and each next
/// one where the one before it ended, when `item` says what decoding one
/// item gives. The first failure ends the whole list.
pub open spec fn parsed_list<T>(
    b: Seq<u8>,
    pos: int,
    n: nat,
    item: spec_fn(Seq<u8>, int) -> (Result<T, DecodeError>, int),
) -> (Result<Seq<T>, DecodeError>, int)
    decreases n,
{
    if n == 0 {
        (Ok(Seq::empty()), pos)
    } else {
        let (first, next) = item(b, pos);
        match first {
            Err(e) => (Err(e), next),
            Ok(x) => after(seq![x], parsed_list(b, next, (n - 1) as nat, item)),
        }
    }
}

/// The outcome `rest` of decoding the tail of a list, with the items
/// `done` that were decoded before it put in front.
pub open spec fn after<T>(done: Seq<T>, rest: (Result<Seq<T>, DecodeError>, int)) -> (
    Result<Seq<T>, DecodeError>,
    int,
) {
    match rest.0 {
        Ok(items) => (Ok(done + items), rest.1),
        Err(e) => (Err(e), rest.1),
    }
}

/// Decoding a list item by item: once `done` is decoded and the next item
/// is `x`, what is left to decode is the tail behind `x`.
pub proof fn lemma_list_step<T>(
    done: Seq<T>,
    x: T,
    rest: (Result<Seq<T>, DecodeError>, int),
)
    ensures
        after(done, after(seq![x], rest)) == after(done.push(x), rest),
        after(done, (Ok::<Seq<T>, DecodeError>(Seq::empty()), rest.1)) == (
            Ok::<Seq<T>, DecodeError>(done),
            rest.1,
        ),
{
    if rest.0 is Ok {
        assert(done + (seq![x] + rest.0->Ok_0) == done.push(x) + rest.0->Ok_0);
    }
}

/// A list that decodes ends inside the buffer and not before its start,
/// provided that this holds of each single item.
pub proof fn lemma_list_bounds<T>(
    b: Seq<u8>,
    pos: int,
    n: nat,
    item: spec_fn(Seq<u8>, int) -> (Result<T, DecodeError>, int),
)
    requires
        0 <= pos <= b.len(),
        forall|p: int|
            0 <= p <= b.len() && (#[trigger] item(b, p)).0 is Ok ==> p <= item(b, p).1 <= b.len(),
    ensures
        parsed_list(b, pos, n, item).0 is Ok ==> pos <= parsed_list(b, pos, n, item).1 <= b.len(),
    decreases n,
{
    if n > 0 && item(b, pos).0 is Ok {
        lemma_list_bounds(b, item(b, pos).1, (n - 1) as nat, item);
    }
}

/// Whether the outcome `r` of a function is the outcome `expected` that its
/// description calls for: the same failure, or a value with the expected
/// view.
pub open spec fn agrees<T: View, E>(r: Result<T, E>, expected: Result<T::V, E>) -> bool {
    match expected {
        Ok(v) => r matches Ok(x) && x@ == v,
        Err(e) => r matches Err(x) && x == e,
    }
}

/// The views of the items of a sequence.
pub open spec fn views<T: View>(items: Seq<T>) -> Seq<T::V> {
    items.map_values(|x: T| x@)
}

impl ByteStream {
    /// Reads a one-byte field; running out of data is a decode failure.
    pub fn read_u1(&mut self) -> (r: Result<u8, DecodeError>)
        ensures
            final(self).v == old(self).v,
            (r, final(self).pos()) == parsed_u1(old(self).bytes(), old(self).pos()),
    {
        match self.next_u1() {
            Some(x) => Ok(x),
            None => Err(DecodeError::EndOfData),
        }
    }

    /// Reads a two-byte field; running out of data is a decode failure.
    pub fn read_u2(&mut self) -> (r: Result<usize, DecodeError>)
        ensures
            final(self).v == old(self).v,
            (r, final(self).pos()) == parsed_u2(old(self).bytes(), old(self).pos()),
    {
        match self.next_u2() {
            Some(x) => Ok(x),
            None => Err(DecodeError::EndOfData),
        }
    }

    /// Reads a four-byte field; running out of data is a decode failure.
    pub fn read_u4(&mut self) -> (r: Result<usize, DecodeError>)
        ensures
            final(self).v == old(self).v,
            (r, final(self).pos()) == parsed_u4(old(self).bytes(), old(self).pos()),
    {
        match self.next_u4() {
            Some(x) => Ok(x),
            None => Err(DecodeError::EndOfData),
        }
    }
}

/// A copy of the bytes of `v`.
pub fn copy_bytes(v: &Vec<u8>) -> (r: Vec<u8>)
    ensures
        r@ == v@,
{
    let mut copy: Vec<u8> = Vec::new();
    let mut n: usize = 0;
    while n < v.len()
        invariant
            n <= v.len(),
            copy@ == v@.subrange(0, n as int),
        decreases v.len() - n,
    {
        copy.push(v[n]);
        n = n + 1;
    }
    copy
}

} // verus!
