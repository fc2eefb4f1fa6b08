//! The instruction set: what each opcode means, how wide it is, and how a
//! raw instruction stream is split into instructions.

use crate::error::DecodeError;
use crate::source::{be_u16, copy_bytes, has_bytes, ByteStream};
use vstd::prelude::*;

verus! {

/// One decoded instruction. Immediates are sign-extended; pool indices and
/// local slots are unsigned; branch offsets are signed byte distances.
#[derive(Clone, Copy, Debug, PartialEq, Eq, Structural)]
pub enum OpCode {
    IConstM1,
    IConst0,
    IConst1,
    IConst2,
    IConst3,
    IConst4,
    IConst5,
    BiPush(isize),
    SiPush(isize),
    Ldc(usize),
    ILoad0,
    ILoad1,
    ILoad2,
    ILoad3,
    ALoad0,
    ALoad1,
    ALoad2,
    ALoad3,
    IStore0,
    IStore1,
    IStore2,
    IStore3,
    AStore0,
    AStore1,
    AStore2,
    AStore3,
    Dup,
    IAdd,
    ISub,
    IMul,
    Iinc(usize, isize),
    IReturn,
    Return,
    GetStatic(usize),
    InvokeVirtual(usize),
    InvokeSpecial(usize),
    InvokeStatic(usize),
    New(usize),
    IfEq(isize),
    IfNe(isize),
    IfLt(isize),
    IfGe(isize),
    IfGt(isize),
    IfLe(isize),
    IfICmpEq(isize),
    IfICmpNe(isize),
    IfICmpLt(isize),
    IfICmpGe(isize),
    IfICmpGt(isize),
    IfICmpLe(isize),
    Goto(isize),
}

/// The number of operand bytes that follow a supported opcode; `None` for
/// an opcode outside the supported set.
pub open spec fn operand_width(opcode: u8) -> Option<int> {
    if 0x02 <= opcode <= 0x08 || 0x1a <= opcode <= 0x1d || 0x2a <= opcode <= 0x2d || 0x3b
        <= opcode <= 0x3e || 0x4b <= opcode <= 0x4e || opcode == 0x59 || opcode == 0x60 || opcode
        == 0x64 || opcode == 0x68 || opcode == 0xac || opcode == 0xb1 {
        Some(0)
    } else if opcode == 0x10 || opcode == 0x12 {
        Some(1)
    } else if opcode == 0x11 || opcode == 0x84 || 0x99 <= opcode <= 0xa4 || opcode == 0xa7
        || opcode == 0xb2 || 0xb6 <= opcode <= 0xb8 || opcode == 0xbb {
        Some(2)
    } else {
        None
    }
}

/// A byte read as a signed eight-bit number.
pub open spec fn signed_8(x: int) -> int {
    if x < 0x80 {
        x
    } else {
        x - 0x100
    }
}

/// A two-byte value read as a signed sixteen-bit number.
pub open spec fn signed_16(x: int) -> int {
    if x < 0x8000 {
        x
    } else {
        x - 0x1_0000
    }
}

/// The instruction that `opcode` stands for when its operand bytes start at
/// position `at` of `b`. Meaningful for supported opcodes whose operands are
/// all there.
pub open spec fn instruction(opcode: u8, b: Seq<u8>, at: int) -> OpCode {
    let s1 = signed_8(b[at] as int) as isize;
    let s2 = signed_16(be_u16(b, at)) as isize;
    let u1 = b[at] as usize;
    let u2 = be_u16(b, at) as usize;
    match opcode {
        0x02 => OpCode::IConstM1,
        0x03 => OpCode::IConst0,
        0x04 => OpCode::IConst1,
        0x05 => OpCode::IConst2,
        0x06 => OpCode::IConst3,
        0x07 => OpCode::IConst4,
        0x08 => OpCode::IConst5,
        0x10 => OpCode::BiPush(s1),
        0x11 => OpCode::SiPush(s2),
        0x12 => OpCode::Ldc(u1),
        0x1a => OpCode::ILoad0,
        0x1b => OpCode::ILoad1,
        0x1c => OpCode::ILoad2,
        0x1d => OpCode::ILoad3,
        0x2a => OpCode::ALoad0,
        0x2b => OpCode::ALoad1,
        0x2c => OpCode::ALoad2,
        0x2d => OpCode::ALoad3,
        0x3b => OpCode::IStore0,
        0x3c => OpCode::IStore1,
        0x3d => OpCode::IStore2,
        0x3e => OpCode::IStore3,
        0x4b => OpCode::AStore0,
        0x4c => OpCode::AStore1,
        0x4d => OpCode::AStore2,
        0x4e => OpCode::AStore3,
        0x59 => OpCode::Dup,
        0x60 => OpCode::IAdd,
        0x64 => OpCode::ISub,
        0x68 => OpCode::IMul,
        0x84 => OpCode::Iinc(u1, signed_8(b[at + 1] as int) as isize),
        0x99 => OpCode::IfEq(s2),
        0x9a => OpCode::IfNe(s2),
        0x9b => OpCode::IfLt(s2),
        0x9c => OpCode::IfGe(s2),
        0x9d => OpCode::IfGt(s2),
        0x9e => OpCode::IfLe(s2),
        0x9f => OpCode::IfICmpEq(s2),
        0xa0 => OpCode::IfICmpNe(s2),
        0xa1 => OpCode::IfICmpLt(s2),
        0xa2 => OpCode::IfICmpGe(s2),
        0xa3 => OpCode::IfICmpGt(s2),
        0xa4 => OpCode::IfICmpLe(s2),
        0xa7 => OpCode::Goto(s2),
        0xac => OpCode::IReturn,
        0xb1 => OpCode::Return,
        0xb2 => OpCode::GetStatic(u2),
        0xb6 => OpCode::InvokeVirtual(u2),
        0xb7 => OpCode::InvokeSpecial(u2),
        0xb8 => OpCode::InvokeStatic(u2),
        _ => OpCode::New(u2),
    }
}

/// What decoding one instruction at position `pos` of `b` gives, and where
/// it leaves the cursor. An instruction whose operands are cut short by the
/// end of the buffer counts as the end of the data.
pub open spec fn parsed_instruction(b: Seq<u8>, pos: int) -> (Result<OpCode, DecodeError>, int) {
    if !has_bytes(b, pos, 1) {
        (Err(DecodeError::EndOfData), pos)
    } else {
        match operand_width(b[pos]) {
            None => (Err(DecodeError::UnknownOpcode(b[pos])), pos + 1),
            Some(w) => if has_bytes(b, pos + 1, w) {
                (Ok(instruction(b[pos], b, pos + 1)), pos + 1 + w)
            } else {
                (Err(DecodeError::EndOfData), b.len() as int)
            },
        }
    }
}

fn read_signed_8(c: &mut ByteStream) -> (r: Result<isize, DecodeError>)
    ensures
        final(c).v == old(c).v,
        has_bytes(old(c).bytes(), old(c).pos(), 1) ==> r == Ok::<isize, DecodeError>(
            signed_8(old(c).bytes()[old(c).pos()] as int) as isize,
        ) && final(c).pos() == old(c).pos() + 1,
        !has_bytes(old(c).bytes(), old(c).pos(), 1) ==> r == Err::<isize, DecodeError>(
            DecodeError::EndOfData,
        ) && final(c).i == old(c).i,
{
    match c.next_u1() {
        Some(x) => if x < 0x80 {
            Ok(x as isize)
        } else {
            Ok(x as isize - 0x100)
        },
        None => Err(DecodeError::EndOfData),
    }
}

fn read_signed_16(c: &mut ByteStream) -> (r: Result<isize, DecodeError>)
    ensures
        final(c).v == old(c).v,
        has_bytes(old(c).bytes(), old(c).pos(), 2) ==> r == Ok::<isize, DecodeError>(
            signed_16(be_u16(old(c).bytes(), old(c).pos())) as isize,
        ) && final(c).pos() == old(c).pos() + 2,
        !has_bytes(old(c).bytes(), old(c).pos(), 2) ==> r == Err::<isize, DecodeError>(
            DecodeError::EndOfData,
        ) && final(c).pos() == crate::source::stop_position(old(c).bytes(), old(c).pos()),
{
    match c.next_u2() {
        Some(x) => if x < 0x8000 {
            Ok(x as isize)
        } else {
            Ok(x as isize - 0x1_0000)
        },
        None => Err(DecodeError::EndOfData),
    }
}

fn read_index_8(c: &mut ByteStream) -> (r: Result<usize, DecodeError>)
    ensures
        final(c).v == old(c).v,
        has_bytes(old(c).bytes(), old(c).pos(), 1) ==> r == Ok::<usize, DecodeError>(
            old(c).bytes()[old(c).pos()] as usize,
        ) && final(c).pos() == old(c).pos() + 1,
        !has_bytes(old(c).bytes(), old(c).pos(), 1) ==> r == Err::<usize, DecodeError>(
            DecodeError::EndOfData,
        ) && final(c).i == old(c).i,
{
    match c.next_u1() {
        Some(x) => Ok(x as usize),
        None => Err(DecodeError::EndOfData),
    }
}

fn read_index_16(c: &mut ByteStream) -> (r: Result<usize, DecodeError>)
    ensures
        final(c).v == old(c).v,
        has_bytes(old(c).bytes(), old(c).pos(), 2) ==> r == Ok::<usize, DecodeError>(
            be_u16(old(c).bytes(), old(c).pos()) as usize,
        ) && final(c).pos() == old(c).pos() + 2,
        !has_bytes(old(c).bytes(), old(c).pos(), 2) ==> r == Err::<usize, DecodeError>(
            DecodeError::EndOfData,
        ) && final(c).pos() == crate::source::stop_position(old(c).bytes(), old(c).pos()),
{
    match c.next_u2() {
        Some(x) => Ok(x),
        None => Err(DecodeError::EndOfData),
    }
}

impl OpCode {
    /// Decodes the instruction at the cursor and moves past it.
    ///
    /// Fails with `EndOfData` when the buffer ends before or inside the
    /// instruction, and with `UnknownOpcode` when the opcode is not one of
    /// the supported set; the cursor then stands behind what was read.
    pub fn parse(c: &mut ByteStream) -> (r: Result<OpCode, DecodeError>)
        ensures
            final(c).v == old(c).v,
            r == parsed_instruction(old(c).bytes(), old(c).pos()).0,
            final(c).pos() == parsed_instruction(old(c).bytes(), old(c).pos()).1,
    {
        let opcode: u8 = match c.next() {
            Some(x) => x,
            None => return Err(DecodeError::EndOfData),
        };
        let op = match opcode {
            0x02 => OpCode::IConstM1,
            0x03 => OpCode::IConst0,
            0x04 => OpCode::IConst1,
            0x05 => OpCode::IConst2,
            0x06 => OpCode::IConst3,
            0x07 => OpCode::IConst4,
            0x08 => OpCode::IConst5,
            0x10 => OpCode::BiPush(read_signed_8(c)?),
            0x11 => OpCode::SiPush(read_signed_16(c)?),
            0x12 => OpCode::Ldc(read_index_8(c)?),
            0x1a => OpCode::ILoad0,
            0x1b => OpCode::ILoad1,
            0x1c => OpCode::ILoad2,
            0x1d => OpCode::ILoad3,
            0x2a => OpCode::ALoad0,
            0x2b => OpCode::ALoad1,
            0x2c => OpCode::ALoad2,
            0x2d => OpCode::ALoad3,
            0x3b => OpCode::IStore0,
            0x3c => OpCode::IStore1,
            0x3d => OpCode::IStore2,
            0x3e => OpCode::IStore3,
            0x4b => OpCode::AStore0,
            0x4c => OpCode::AStore1,
            0x4d => OpCode::AStore2,
            0x4e => OpCode::AStore3,
            0x59 => OpCode::Dup,
            0x60 => OpCode::IAdd,
            0x64 => OpCode::ISub,
            0x68 => OpCode::IMul,
            0x84 => {
                let slot = read_index_8(c)?;
                let delta = read_signed_8(c)?;
                OpCode::Iinc(slot, delta)
            },
            0x99 => OpCode::IfEq(read_signed_16(c)?),
            0x9a => OpCode::IfNe(read_signed_16(c)?),
            0x9b => OpCode::IfLt(read_signed_16(c)?),
            0x9c => OpCode::IfGe(read_signed_16(c)?),
            0x9d => OpCode::IfGt(read_signed_16(c)?),
            0x9e => OpCode::IfLe(read_signed_16(c)?),
            0x9f => OpCode::IfICmpEq(read_signed_16(c)?),
            0xa0 => OpCode::IfICmpNe(read_signed_16(c)?),
            0xa1 => OpCode::IfICmpLt(read_signed_16(c)?),
            0xa2 => OpCode::IfICmpGe(read_signed_16(c)?),
            0xa3 => OpCode::IfICmpGt(read_signed_16(c)?),
            0xa4 => OpCode::IfICmpLe(read_signed_16(c)?),
            0xa7 => OpCode::Goto(read_signed_16(c)?),
            0xac => OpCode::IReturn,
            0xb1 => OpCode::Return,
            0xb2 => OpCode::GetStatic(read_index_16(c)?),
            0xb6 => OpCode::InvokeVirtual(read_index_16(c)?),
            0xb7 => OpCode::InvokeSpecial(read_index_16(c)?),
            0xb8 => OpCode::InvokeStatic(read_index_16(c)?),
            0xbb => OpCode::New(read_index_16(c)?),
            other => return Err(DecodeError::UnknownOpcode(other)),
        };
        Ok(op)
    }
}

/// The instructions of the stream `b` from position `pos` on, each with the
/// offset at which it starts. Decoding ends without complaint where the data
/// ends, also where it ends inside an instruction; an unsupported opcode
/// fails the whole stream.
pub open spec fn decoded_from(b: Seq<u8>, pos: int) -> Result<Seq<(usize, OpCode)>, DecodeError>
    decreases b.len() - pos,
{
    let (r, next) = parsed_instruction(b, pos);
    match r {
        Err(DecodeError::EndOfData) => Ok(Seq::empty()),
        Err(e) => Err(e),
        Ok(op) => match decoded_from(b, next) {
            Ok(rest) => Ok(seq![(pos as usize, op)] + rest),
            Err(e) => Err(e),
        },
    }
}

/// The start offsets of a decoded stream, in order.
pub open spec fn starts_of(ins: Seq<(usize, OpCode)>) -> Seq<usize> {
    ins.map_values(|e: (usize, OpCode)| e.0)
}

/// The instructions of a decoded stream, in order.
pub open spec fn ops_of(ins: Seq<(usize, OpCode)>) -> Seq<OpCode> {
    ins.map_values(|e: (usize, OpCode)| e.1)
}

/// The number of the instruction that starts at `offset`, and 0 for an
/// offset at which none starts.
pub open spec fn index_of_offset(starts: Seq<usize>, offset: int) -> usize {
    if exists|k: int| 0 <= k < starts.len() && starts[k] == offset {
        (choose|k: int| 0 <= k < starts.len() && starts[k] == offset) as usize
    } else {
        0
    }
}

/// The table from byte offsets to instruction numbers for a stream of `len`
/// bytes.
pub open spec fn offset_table(starts: Seq<usize>, len: nat) -> Seq<usize> {
    Seq::new(len, |offset: int| index_of_offset(starts, offset))
}

/// Whether the offsets in `starts` grow strictly.
pub open spec fn strictly_increasing(starts: Seq<usize>) -> bool {
    forall|i: int, j: int| 0 <= i < j < starts.len() ==> starts[i] < starts[j]
}

/// A raw instruction stream split into instructions, with the tables that
/// lead from an instruction's number to its byte offset and back.
#[derive(Clone, Debug)]
pub struct Instructions {
    pub code: Vec<OpCode>,
    pub op_to_bytecode: Vec<usize>,
    pub bytecode_to_op: Vec<usize>,
}

proof fn lemma_offset_table_push(starts: Seq<usize>, s: usize, len: nat)
    requires
        strictly_increasing(starts),
        forall|k: int| 0 <= k < starts.len() ==> starts[k] < s,
        s < len,
        starts.len() <= usize::MAX,
    ensures
        offset_table(starts.push(s), len) == offset_table(starts, len).update(
            s as int,
            starts.len() as usize,
        ),
        strictly_increasing(starts.push(s)),
{
    let grown = starts.push(s);
    assert forall|offset: int| 0 <= offset < len implies #[trigger] index_of_offset(grown, offset)
        == offset_table(starts, len).update(s as int, starts.len() as usize)[offset] by {
        if offset == s {
            assert(grown[starts.len() as int] == offset);
        } else if exists|k: int| 0 <= k < grown.len() && grown[k] == offset {
            let k1 = choose|k: int| 0 <= k < grown.len() && grown[k] == offset;
            let k2 = choose|k: int| 0 <= k < starts.len() && starts[k] == offset;
            assert(k1 == k2);
        } else {
            assert forall|k: int| 0 <= k < starts.len() implies starts[k] != offset by {
                assert(grown[k] == starts[k]);
            }
        }
    }
}

/// Splits a raw instruction stream into its instructions and builds both
/// offset tables.
///
/// The result is the sequence that `decoded_from` describes from offset 0:
/// the instructions in order, the offset at which each starts, and for each
/// byte offset the number of the instruction that starts there (0 where
/// none does). The only failure is an unsupported opcode.
pub fn decode_instructions(code_raw: &Vec<u8>) -> (r: Result<Instructions, DecodeError>)
    ensures
        match decoded_from(code_raw@, 0) {
            Ok(ins) => r matches Ok(d) && d.code@ == ops_of(ins) && d.op_to_bytecode@ == starts_of(
                ins,
            ) && d.bytecode_to_op@ == offset_table(starts_of(ins), code_raw@.len()),
            Err(e) => r matches Err(x) && x == e,
        },
{
    let len: usize = code_raw.len();
    let buffer = copy_bytes(code_raw);
    let mut stream = ByteStream { v: buffer, i: 0 };
    let mut bytecode_to_op: Vec<usize> = Vec::new();
    let mut m: usize = 0;
    while m < len
        invariant
            m <= len,
            bytecode_to_op@ == Seq::new(m as nat, |offset: int| 0usize),
        decreases len - m,
    {
        bytecode_to_op.push(0);
        m = m + 1;
    }
    let mut code: Vec<OpCode> = Vec::new();
    let mut op_to_bytecode: Vec<usize> = Vec::new();
    let mut start: usize = 0;
    let ghost mut prefix: Seq<(usize, OpCode)> = Seq::empty();
    loop
        invariant
            len == code_raw.len(),
            stream.v@ == code_raw@,
            stream.i == start,
            start <= len,
            code@ == ops_of(prefix),
            op_to_bytecode@ == starts_of(prefix),
            code.len() <= start,
            bytecode_to_op@ == offset_table(op_to_bytecode@, len as nat),
            strictly_increasing(op_to_bytecode@),
            forall|k: int| 0 <= k < op_to_bytecode.len() ==> op_to_bytecode[k] < start,
            match decoded_from(code_raw@, start as int) {
                Ok(rest) => decoded_from(code_raw@, 0) == Ok::<
                    Seq<(usize, OpCode)>,
                    DecodeError,
                >(prefix + rest),
                Err(e) => decoded_from(code_raw@, 0) == Err::<Seq<(usize, OpCode)>, DecodeError>(
                    e,
                ),
            },
        decreases len - start,
    {
        match OpCode::parse(&mut stream) {
            Ok(op) => {
                proof {
                    lemma_offset_table_push(op_to_bytecode@, start, len as nat);
                    let rest = decoded_from(code_raw@, stream.i as int);
                    if rest is Ok {
                        assert(prefix + (seq![(start, op)] + rest->Ok_0) == prefix.push((start, op))
                            + rest->Ok_0);
                    }
                    prefix = prefix.push((start, op));
                }
                bytecode_to_op.set(start, code.len());
                op_to_bytecode.push(start);
                start = stream.i;
                code.push(op);
            },
            Err(DecodeError::EndOfData) => {
                return Ok(Instructions { code, op_to_bytecode, bytecode_to_op });
            },
            Err(e) => {
                return Err(e);
            },
        }
    }
}

/// Instruction widths are exact: in a decoded stream every instruction is
/// the one that its opcode and operand bytes spell, it takes one byte for
/// the opcode and the operand bytes that its opcode calls for, the next
/// instruction starts right behind it, and so the start offsets grow
/// strictly.
pub proof fn lemma_instruction_layout(b: Seq<u8>, pos: int)
    requires
        0 <= pos,
        b.len() <= usize::MAX,
        decoded_from(b, pos) is Ok,
    ensures
        ({
            let ins = decoded_from(b, pos)->Ok_0;
            &&& ins.len() > 0 ==> ins[0].0 == pos
            &&& forall|k: int|
                0 <= k < ins.len() ==> pos + k <= (#[trigger] ins[k]).0 < b.len() && operand_width(
                    b[ins[k].0 as int],
                ) is Some && parsed_instruction(b, ins[k].0 as int) == (
                    Ok::<OpCode, DecodeError>(ins[k].1),
                    ins[k].0 + 1 + operand_width(b[ins[k].0 as int])->Some_0,
                )
            &&& forall|k: int|
                0 <= k < ins.len() - 1 ==> (#[trigger] ins[k + 1]).0 == ins[k].0 + 1
                    + operand_width(b[ins[k].0 as int])->Some_0
            &&& strictly_increasing(starts_of(ins))
        }),
    decreases b.len() - pos,
{
    let ins = decoded_from(b, pos)->Ok_0;
    let (r, next) = parsed_instruction(b, pos);
    if r is Ok {
        lemma_instruction_layout(b, next);
        let rest = decoded_from(b, next)->Ok_0;
        assert forall|k: int| 0 <= k < ins.len() implies pos + k <= (#[trigger] ins[k]).0
            < b.len() && operand_width(b[ins[k].0 as int]) is Some && parsed_instruction(b, ins[k].0 as int)
            == (
            Ok::<OpCode, DecodeError>(ins[k].1),
            ins[k].0 + 1 + operand_width(b[ins[k].0 as int])->Some_0,
        ) by {}
        assert forall|k: int| 0 <= k < ins.len() - 1 implies (#[trigger] ins[k + 1]).0 == ins[k].0
            + 1 + operand_width(b[ins[k].0 as int])->Some_0 by {
            if k > 0 {
                assert(rest[k - 1 + 1] == rest[k]);
            }
        }
        assert forall|i: int, j: int| 0 <= i < j < starts_of(ins).len() implies starts_of(ins)[i]
            < starts_of(ins)[j] by {
            if i > 0 {
                assert(starts_of(rest)[i - 1] < starts_of(rest)[j - 1]);
            }
        }
    }
}

/// The two offset tables of a decoded stream are inverse to each other on
/// the offsets at which instructions start: the table from byte offsets
/// leads each start offset to the number of its instruction, an offset with
/// a number other than 0 is the start of the instruction with that number,
/// and two different instructions never share a start offset.
pub proof fn lemma_offset_tables_inverse(b: Seq<u8>)
    requires
        b.len() <= usize::MAX,
        decoded_from(b, 0) is Ok,
    ensures
        ({
            let starts = starts_of(decoded_from(b, 0)->Ok_0);
            let table = offset_table(starts, b.len());
            &&& strictly_increasing(starts)
            &&& forall|k: int|
                0 <= k < starts.len() ==> (#[trigger] starts[k]) < b.len() && table[starts[k] as int]
                    == k
            &&& forall|offset: int|
                0 <= offset < b.len() && #[trigger] table[offset] != 0 ==> table[offset]
                    < starts.len() && starts[table[offset] as int] == offset
        }),
{
    let ins = decoded_from(b, 0)->Ok_0;
    let starts = starts_of(ins);
    let table = offset_table(starts, b.len());
    lemma_instruction_layout(b, 0);
    assert forall|k: int| 0 <= k < starts.len() implies (#[trigger] starts[k]) < b.len()
        && table[starts[k] as int] == k by {}
}

/// Whether the stream `b` from position `pos` on is made of whole
/// supported instructions: every opcode is supported and no instruction
/// is cut short by the end of the stream.
pub open spec fn whole_instructions(b: Seq<u8>, pos: int) -> bool
    decreases b.len() - pos,
{
    if pos >= b.len() {
        pos == b.len()
    } else {
        parsed_instruction(b, pos).0 is Ok && whole_instructions(b, parsed_instruction(b, pos).1)
    }
}

/// The offset behind the last instruction of a decoded stream that was
/// decoded from position `pos` on; `pos` itself where there is none.
pub open spec fn end_of_instructions(b: Seq<u8>, ins: Seq<(usize, OpCode)>, pos: int) -> int {
    if ins.len() == 0 {
        pos
    } else {
        ins.last().0 + 1 + operand_width(b[ins.last().0 as int])->Some_0
    }
}

/// Where decoding stops. The last instruction of a decoded stream ends
/// inside the stream, and what stands behind it is the end of the stream
/// or an instruction that the end of the stream cuts short.
pub proof fn lemma_decoding_stops(b: Seq<u8>, pos: int)
    requires
        0 <= pos <= b.len(),
        b.len() <= usize::MAX,
        decoded_from(b, pos) is Ok,
    ensures
        ({
            let end = end_of_instructions(b, decoded_from(b, pos)->Ok_0, pos);
            &&& pos <= end <= b.len()
            &&& parsed_instruction(b, end).0 == Err::<OpCode, DecodeError>(DecodeError::EndOfData)
            &&& end < b.len() ==> operand_width(b[end]) is Some && end + 1 + operand_width(
                b[end],
            )->Some_0 > b.len()
        }),
    decreases b.len() - pos,
{
    let ins = decoded_from(b, pos)->Ok_0;
    let (r, next) = parsed_instruction(b, pos);
    if r is Ok {
        lemma_decoding_stops(b, next);
        let rest = decoded_from(b, next)->Ok_0;
        assert(ins == seq![(pos as usize, r->Ok_0)] + rest);
        if rest.len() > 0 {
            assert(ins.last() == rest.last());
        }
    }
}

/// A stream of whole instructions is decoded to its end: it decodes, and
/// its last instruction ends exactly where the stream ends.
pub proof fn lemma_whole_stream_ends(b: Seq<u8>, pos: int)
    requires
        0 <= pos <= b.len(),
        b.len() <= usize::MAX,
        whole_instructions(b, pos),
    ensures
        decoded_from(b, pos) is Ok,
        end_of_instructions(b, decoded_from(b, pos)->Ok_0, pos) == b.len(),
    decreases b.len() - pos,
{
    if pos < b.len() {
        let (r, next) = parsed_instruction(b, pos);
        lemma_whole_stream_ends(b, next);
        let ins = decoded_from(b, pos)->Ok_0;
        let rest = decoded_from(b, next)->Ok_0;
        assert(ins == seq![(pos as usize, r->Ok_0)] + rest);
        if rest.len() > 0 {
            assert(ins.last() == rest.last());
        }
    }
}

} // verus!
