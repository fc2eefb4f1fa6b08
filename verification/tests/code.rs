use classvm::code::{decode_instructions, OpCode};
use classvm::error::DecodeError;
use classvm::source::ByteStream;

fn parse_one(bytes: &[u8]) -> (Result<OpCode, DecodeError>, usize) {
    let mut s = ByteStream::from(bytes.to_vec());
    let r = OpCode::parse(&mut s);
    (r, s.i)
}

#[test]
fn opcodes_without_operands_take_one_byte() {
    let table: Vec<(u8, OpCode)> = vec![
        (0x02, OpCode::IConstM1),
        (0x03, OpCode::IConst0),
        (0x04, OpCode::IConst1),
        (0x05, OpCode::IConst2),
        (0x06, OpCode::IConst3),
        (0x07, OpCode::IConst4),
        (0x08, OpCode::IConst5),
        (0x1a, OpCode::ILoad0),
        (0x1b, OpCode::ILoad1),
        (0x1c, OpCode::ILoad2),
        (0x1d, OpCode::ILoad3),
        (0x2a, OpCode::ALoad0),
        (0x2b, OpCode::ALoad1),
        (0x2c, OpCode::ALoad2),
        (0x2d, OpCode::ALoad3),
        (0x3b, OpCode::IStore0),
        (0x3c, OpCode::IStore1),
        (0x3d, OpCode::IStore2),
        (0x3e, OpCode::IStore3),
        (0x4b, OpCode::AStore0),
        (0x4c, OpCode::AStore1),
        (0x4d, OpCode::AStore2),
        (0x4e, OpCode::AStore3),
        (0x59, OpCode::Dup),
        (0x60, OpCode::IAdd),
        (0x64, OpCode::ISub),
        (0x68, OpCode::IMul),
        (0xac, OpCode::IReturn),
        (0xb1, OpCode::Return),
    ];
    for (byte, op) in table {
        assert_eq!(parse_one(&[byte, 0x7f, 0x7f]), (Ok(op), 1));
        assert_eq!(parse_one(&[byte]), (Ok(op), 1));
    }
}

#[test]
fn opcodes_with_one_operand_byte_take_two_bytes() {
    assert_eq!(parse_one(&[0x10, 0x05, 0x00]), (Ok(OpCode::BiPush(5)), 2));
    assert_eq!(parse_one(&[0x12, 0xc8, 0x00]), (Ok(OpCode::Ldc(200)), 2));
}

#[test]
fn opcodes_with_two_operand_bytes_take_three_bytes() {
    let table: Vec<(u8, OpCode)> = vec![
        (0x11, OpCode::SiPush(0x0102)),
        (0x84, OpCode::Iinc(1, 2)),
        (0x99, OpCode::IfEq(0x0102)),
        (0x9a, OpCode::IfNe(0x0102)),
        (0x9b, OpCode::IfLt(0x0102)),
        (0x9c, OpCode::IfGe(0x0102)),
        (0x9d, OpCode::IfGt(0x0102)),
        (0x9e, OpCode::IfLe(0x0102)),
        (0x9f, OpCode::IfICmpEq(0x0102)),
        (0xa0, OpCode::IfICmpNe(0x0102)),
        (0xa1, OpCode::IfICmpLt(0x0102)),
        (0xa2, OpCode::IfICmpGe(0x0102)),
        (0xa3, OpCode::IfICmpGt(0x0102)),
        (0xa4, OpCode::IfICmpLe(0x0102)),
        (0xa7, OpCode::Goto(0x0102)),
        (0xb2, OpCode::GetStatic(0x0102)),
        (0xb6, OpCode::InvokeVirtual(0x0102)),
        (0xb7, OpCode::InvokeSpecial(0x0102)),
        (0xb8, OpCode::InvokeStatic(0x0102)),
        (0xbb, OpCode::New(0x0102)),
    ];
    for (byte, op) in table {
        assert_eq!(parse_one(&[byte, 0x01, 0x02, 0x7f]), (Ok(op), 3));
    }
}

#[test]
fn immediates_are_sign_extended() {
    assert_eq!(parse_one(&[0x10, 0xff]), (Ok(OpCode::BiPush(-1)), 2));
    assert_eq!(parse_one(&[0x10, 0x80]), (Ok(OpCode::BiPush(-128)), 2));
    assert_eq!(parse_one(&[0x10, 0x7f]), (Ok(OpCode::BiPush(127)), 2));
    assert_eq!(parse_one(&[0x11, 0xff, 0xfe]), (Ok(OpCode::SiPush(-2)), 3));
    assert_eq!(parse_one(&[0x11, 0x80, 0x00]), (Ok(OpCode::SiPush(-32768)), 3));
    assert_eq!(parse_one(&[0x11, 0x7f, 0xff]), (Ok(OpCode::SiPush(32767)), 3));
    assert_eq!(parse_one(&[0x84, 0xff, 0xff]), (Ok(OpCode::Iinc(255, -1)), 3));
    assert_eq!(parse_one(&[0xa7, 0xff, 0xed]), (Ok(OpCode::Goto(-19)), 3));
    assert_eq!(parse_one(&[0xa1, 0xff, 0xff]), (Ok(OpCode::IfICmpLt(-1)), 3));
}

#[test]
fn pool_indices_are_unsigned() {
    assert_eq!(parse_one(&[0x12, 0xff]), (Ok(OpCode::Ldc(255)), 2));
    assert_eq!(parse_one(&[0xb8, 0xff, 0xff]), (Ok(OpCode::InvokeStatic(65535)), 3));
}

#[test]
fn an_unsupported_opcode_is_refused() {
    assert_eq!(parse_one(&[0x00, 0x01]), (Err(DecodeError::UnknownOpcode(0x00)), 1));
    assert_eq!(parse_one(&[0xff]), (Err(DecodeError::UnknownOpcode(0xff)), 1));
    assert_eq!(parse_one(&[0x09]), (Err(DecodeError::UnknownOpcode(0x09)), 1));
    assert_eq!(parse_one(&[0xb9, 0, 0]), (Err(DecodeError::UnknownOpcode(0xb9)), 1));
}

#[test]
fn the_end_of_the_stream_is_reported() {
    assert_eq!(parse_one(&[]), (Err(DecodeError::EndOfData), 0));
    assert_eq!(parse_one(&[0x10]), (Err(DecodeError::EndOfData), 1));
    assert_eq!(parse_one(&[0x11, 0x01]), (Err(DecodeError::EndOfData), 2));
    assert_eq!(parse_one(&[0x84, 0x01]), (Err(DecodeError::EndOfData), 2));
    assert_eq!(parse_one(&[0xa7]), (Err(DecodeError::EndOfData), 1));
}

#[test]
fn a_stream_is_split_into_instructions() {
    // iconst_1; bipush 7; iadd; goto -5; return
    let raw = vec![0x04, 0x10, 0x07, 0x60, 0xa7, 0xff, 0xfb, 0xb1];
    let d = decode_instructions(&raw).unwrap();
    assert_eq!(
        d.code,
        vec![OpCode::IConst1, OpCode::BiPush(7), OpCode::IAdd, OpCode::Goto(-5), OpCode::Return]
    );
    assert_eq!(d.op_to_bytecode, vec![0, 1, 3, 4, 7]);
    assert_eq!(d.bytecode_to_op, vec![0, 1, 0, 2, 3, 0, 0, 4]);
}

#[test]
fn the_offset_tables_are_inverse_on_instruction_starts() {
    let raw = vec![0x11, 0x00, 0x01, 0xb8, 0x00, 0x02, 0x12, 0x03, 0x84, 0x01, 0x01, 0xac];
    let d = decode_instructions(&raw).unwrap();
    assert_eq!(d.bytecode_to_op.len(), raw.len());
    assert_eq!(d.op_to_bytecode.len(), d.code.len());
    for k in 0..d.code.len() {
        assert_eq!(d.bytecode_to_op[d.op_to_bytecode[k]], k);
        if k > 0 {
            assert!(d.op_to_bytecode[k - 1] < d.op_to_bytecode[k]);
        }
    }
    for (offset, k) in d.bytecode_to_op.iter().enumerate() {
        if *k != 0 {
            assert_eq!(d.op_to_bytecode[*k], offset);
        }
    }
}

#[test]
fn an_empty_stream_has_no_instructions() {
    let d = decode_instructions(&Vec::new()).unwrap();
    assert!(d.code.is_empty());
    assert!(d.op_to_bytecode.is_empty());
    assert!(d.bytecode_to_op.is_empty());
}

#[test]
fn a_stream_that_ends_inside_an_instruction_ends_there() {
    let d = decode_instructions(&vec![0x04, 0x11, 0x01]).unwrap();
    assert_eq!(d.code, vec![OpCode::IConst1]);
    assert_eq!(d.op_to_bytecode, vec![0]);
    assert_eq!(d.bytecode_to_op, vec![0, 0, 0]);
}

#[test]
fn a_stream_with_an_unsupported_opcode_is_refused() {
    let r = decode_instructions(&vec![0x04, 0x00, 0xb1]);
    assert_eq!(r.err(), Some(DecodeError::UnknownOpcode(0x00)));
}

#[test]
fn the_last_instruction_of_a_whole_stream_ends_at_its_end() {
    let streams: Vec<Vec<u8>> = vec![
        vec![0xb1],
        vec![0x04, 0x10, 0x07, 0x60, 0xa7, 0xff, 0xfb, 0xb1],
        vec![0x12, 0x03, 0xb8, 0x00, 0x02],
        vec![0x84, 0x01, 0xff],
    ];
    for raw in streams {
        let d = decode_instructions(&raw).unwrap();
        let last = d.code.len() - 1;
        let width = match d.code[last] {
            OpCode::BiPush(_) | OpCode::Ldc(_) => 1,
            OpCode::Return | OpCode::IAdd => 0,
            _ => 2,
        };
        assert_eq!(d.op_to_bytecode[last] + 1 + width, raw.len());
        for k in 0..last {
            let mut s = ByteStream::from(raw.clone());
            s.i = d.op_to_bytecode[k];
            assert_eq!(OpCode::parse(&mut s), Ok(d.code[k]));
            assert_eq!(s.i, d.op_to_bytecode[k + 1]);
        }
    }
}

#[test]
fn a_cut_last_instruction_is_left_out() {
    let raw = vec![0x04, 0xb8, 0x00];
    let d = decode_instructions(&raw).unwrap();
    assert_eq!(d.code, vec![OpCode::IConst1]);
    assert_eq!(d.op_to_bytecode[0] + 1, 1);
    let mut s = ByteStream::from(raw);
    s.i = 1;
    assert_eq!(OpCode::parse(&mut s), Err(DecodeError::EndOfData));
}
