use classvm::class::attribute::{
    parse_attributes, read_bytes, text_is, Attribute, AttributeInfo, Exception, LineNumber,
    StackMapFrame, VerificationTypeInfo,
};
use classvm::class::constant_pool::{CpInfo, CpPool, UtfInfo};
use classvm::code::OpCode;
use classvm::error::DecodeError;
use classvm::source::ByteStream;

fn text(s: &str) -> CpInfo {
    CpInfo::Utf(UtfInfo { bytes: String::from(s) })
}

// 1 Code, 2 LineNumberTable, 3 SourceFile, 4 StackMapTable, 5 Main.java, 6 Deprecated
fn pool() -> CpPool {
    CpPool(vec![
        text("Code"),
        text("LineNumberTable"),
        text("SourceFile"),
        text("StackMapTable"),
        text("Main.java"),
        text("Deprecated"),
        CpInfo::Integer(classvm::class::constant_pool::IntegerInfo { val: 1 }),
    ])
}

fn attribute(bytes: &[u8]) -> (Result<AttributeInfo, DecodeError>, usize) {
    let mut s = ByteStream::from(bytes.to_vec());
    let r = AttributeInfo::parse(&mut s, &pool());
    (r, s.i)
}

fn frame(bytes: &[u8]) -> (Result<StackMapFrame, DecodeError>, usize) {
    let mut s = ByteStream::from(bytes.to_vec());
    let r = StackMapFrame::parse(&mut s, &pool());
    (r, s.i)
}

fn verification(bytes: &[u8]) -> (Result<VerificationTypeInfo, DecodeError>, usize) {
    let mut s = ByteStream::from(bytes.to_vec());
    let r = VerificationTypeInfo::parse(&mut s);
    (r, s.i)
}

fn code_attribute() -> Vec<u8> {
    let mut b = vec![0, 1, 0, 0, 0, 0];
    b.extend_from_slice(&[0, 2, 0, 3]);
    b.extend_from_slice(&[0, 0, 0, 4, 0x04, 0x10, 0x07, 0xb1]);
    b.extend_from_slice(&[0, 1, 0, 0, 0, 4, 0, 2, 0, 9]);
    b.extend_from_slice(&[0, 1]);
    b.extend_from_slice(&[0, 2, 0, 0, 0, 0, 0, 2, 0, 0, 0, 10, 0, 3, 0, 11]);
    b
}

#[test]
fn verification_types_without_payload() {
    assert_eq!(verification(&[0, 9]), (Ok(VerificationTypeInfo::Top), 1));
    assert_eq!(verification(&[1]), (Ok(VerificationTypeInfo::Integer), 1));
    assert_eq!(verification(&[2]), (Ok(VerificationTypeInfo::Float), 1));
    assert_eq!(verification(&[3]), (Ok(VerificationTypeInfo::Double), 1));
    assert_eq!(verification(&[4]), (Ok(VerificationTypeInfo::Long), 1));
    assert_eq!(verification(&[5]), (Ok(VerificationTypeInfo::Null), 1));
    assert_eq!(verification(&[6]), (Ok(VerificationTypeInfo::UninitializedThis), 1));
}

#[test]
fn verification_types_with_payload() {
    assert_eq!(verification(&[7, 1, 2]), (Ok(VerificationTypeInfo::Object(258)), 3));
    assert_eq!(verification(&[8, 0, 5, 1]), (Ok(VerificationTypeInfo::Uninitialized(5)), 3));
    assert_eq!(verification(&[7, 1]), (Err(DecodeError::EndOfData), 2));
    assert_eq!(verification(&[8]), (Err(DecodeError::EndOfData), 1));
    assert_eq!(verification(&[]), (Err(DecodeError::EndOfData), 0));
}

#[test]
fn an_unknown_verification_type_is_refused() {
    assert_eq!(verification(&[9, 0, 0]), (Err(DecodeError::UnknownVerificationType(9)), 1));
    assert_eq!(verification(&[255]), (Err(DecodeError::UnknownVerificationType(255)), 1));
}

#[test]
fn a_same_frame_has_no_fields() {
    for tag in [0u8, 1, 63] {
        let (r, i) = frame(&[tag, 9, 9]);
        assert!(matches!(r, Ok(StackMapFrame::SameFrame { frame_type }) if frame_type == tag as usize));
        assert_eq!(i, 1);
    }
}

#[test]
fn a_chop_frame_has_an_offset() {
    for tag in [248u8, 249, 250] {
        let (r, i) = frame(&[tag, 1, 0, 9]);
        assert!(matches!(
            r,
            Ok(StackMapFrame::ChopFrame { frame_type, offset_delta: 256 }) if frame_type == tag as usize
        ));
        assert_eq!(i, 3);
    }
    let (r, i) = frame(&[248, 1]);
    assert!(matches!(r, Err(DecodeError::EndOfData)));
    assert_eq!(i, 2);
}

#[test]
fn an_append_frame_has_one_to_three_locals() {
    let (r, i) = frame(&[252, 0, 7, 1, 9]);
    match r {
        Ok(StackMapFrame::AppendFrame { frame_type, offset_delta, locals }) => {
            assert_eq!(frame_type, 252);
            assert_eq!(offset_delta, 7);
            assert_eq!(locals, vec![VerificationTypeInfo::Integer]);
        }
        other => panic!("unexpected {other:?}"),
    }
    assert_eq!(i, 4);
    let (r, i) = frame(&[254, 0, 1, 7, 0, 2, 1, 8, 0, 3]);
    match r {
        Ok(StackMapFrame::AppendFrame { frame_type, offset_delta, locals }) => {
            assert_eq!(frame_type, 254);
            assert_eq!(offset_delta, 1);
            assert_eq!(
                locals,
                vec![
                    VerificationTypeInfo::Object(2),
                    VerificationTypeInfo::Integer,
                    VerificationTypeInfo::Uninitialized(3)
                ]
            );
        }
        other => panic!("unexpected {other:?}"),
    }
    assert_eq!(i, 10);
    let (r, _) = frame(&[253, 0, 1, 1]);
    assert!(matches!(r, Err(DecodeError::EndOfData)));
    let (r, i) = frame(&[253, 0, 1, 1, 77]);
    assert!(matches!(r, Err(DecodeError::UnknownVerificationType(77))));
    assert_eq!(i, 5);
}

#[test]
fn an_unknown_frame_type_is_refused() {
    for tag in [64u8, 127, 128, 247, 251, 255] {
        let (r, i) = frame(&[tag, 0, 0, 0]);
        assert!(matches!(r, Err(DecodeError::UnknownFrameType(t)) if t == tag));
        assert_eq!(i, 1);
    }
    let (r, i) = frame(&[]);
    assert!(matches!(r, Err(DecodeError::EndOfData)));
    assert_eq!(i, 0);
}

#[test]
fn a_source_file_attribute_resolves_its_name() {
    let (r, i) = attribute(&[0, 3, 0, 0, 0, 2, 0, 5, 0xee]);
    let a = r.unwrap();
    assert_eq!(a.attribute_name, "SourceFile");
    assert_eq!(a.attribute_name_index, 3);
    match a.attribute {
        Attribute::SourceFile(s) => {
            assert_eq!(s.sourcefile_index, 5);
            assert_eq!(s.sourcefile, "Main.java");
        }
        other => panic!("unexpected {other:?}"),
    }
    assert_eq!(i, 8);
    let (r, i) = attribute(&[0, 3, 0, 0, 0, 2, 0, 7]);
    assert!(matches!(r, Err(DecodeError::BadIndex(7))));
    assert_eq!(i, 8);
    let (r, _) = attribute(&[0, 3, 0, 0, 0, 2, 0, 99]);
    assert!(matches!(r, Err(DecodeError::BadIndex(99))));
    let (r, _) = attribute(&[0, 3, 0, 0, 0, 2, 0]);
    assert!(matches!(r, Err(DecodeError::EndOfData)));
}

#[test]
fn a_line_number_table_is_a_list_of_pairs() {
    let (r, i) = attribute(&[0, 2, 0, 0, 0, 10, 0, 2, 0, 0, 0, 3, 0, 8, 1, 0]);
    let a = r.unwrap();
    assert_eq!(a.attribute_name, "LineNumberTable");
    match a.attribute {
        Attribute::LineNumberTable(t) => assert_eq!(
            t.line_number_table,
            vec![
                LineNumber { start_pc: 0, line_number: 3 },
                LineNumber { start_pc: 8, line_number: 256 }
            ]
        ),
        other => panic!("unexpected {other:?}"),
    }
    assert_eq!(i, 16);
    let (r, i) = attribute(&[0, 2, 0, 0, 0, 10, 0, 2, 0, 0, 0, 3, 0, 8, 1]);
    assert!(matches!(r, Err(DecodeError::EndOfData)));
    assert_eq!(i, 15);
    let (r, i) = attribute(&[0, 2, 0, 0, 0, 2, 0, 0]);
    match r.unwrap().attribute {
        Attribute::LineNumberTable(t) => assert!(t.line_number_table.is_empty()),
        other => panic!("unexpected {other:?}"),
    }
    assert_eq!(i, 8);
}

#[test]
fn a_stack_map_table_is_a_list_of_frames() {
    let (r, i) = attribute(&[0, 4, 0, 0, 0, 0, 0, 3, 10, 249, 0, 1, 252, 0, 2, 1]);
    let a = r.unwrap();
    assert_eq!(a.attribute_name, "StackMapTable");
    match a.attribute {
        Attribute::StackMapTable(t) => {
            assert_eq!(t.entries.len(), 3);
            assert!(matches!(t.entries[0], StackMapFrame::SameFrame { frame_type: 10 }));
            assert!(matches!(
                t.entries[1],
                StackMapFrame::ChopFrame { frame_type: 249, offset_delta: 1 }
            ));
            assert!(matches!(t.entries[2], StackMapFrame::AppendFrame { .. }));
        }
        other => panic!("unexpected {other:?}"),
    }
    assert_eq!(i, 16);
    let (r, i) = attribute(&[0, 4, 0, 0, 0, 0, 0, 2, 10, 100]);
    assert!(matches!(r, Err(DecodeError::UnknownFrameType(100))));
    assert_eq!(i, 10);
}

#[test]
fn a_code_attribute_holds_instructions_tables_and_nested_attributes() {
    let bytes = code_attribute();
    let (r, i) = attribute(&bytes);
    let a = r.unwrap();
    assert_eq!(i, bytes.len());
    assert_eq!(a.attribute_name, "Code");
    assert_eq!(a.attribute_name_index, 1);
    match a.attribute {
        Attribute::Code(c) => {
            assert_eq!(c.max_stack, 2);
            assert_eq!(c.max_locals, 3);
            assert_eq!(c.code_raw, vec![0x04, 0x10, 0x07, 0xb1]);
            assert_eq!(c.code, vec![OpCode::IConst1, OpCode::BiPush(7), OpCode::Return]);
            assert_eq!(c.op_to_bytecode, vec![0, 1, 3]);
            assert_eq!(c.bytecode_to_op, vec![0, 1, 0, 2]);
            assert_eq!(
                c.exception_table,
                vec![Exception { start_pc: 0, end_pc: 4, handler_pc: 2, catch_type: 9 }]
            );
            assert_eq!(c.attributes.len(), 1);
            assert_eq!(c.attributes[0].attribute_name, "LineNumberTable");
            match &c.attributes[0].attribute {
                Attribute::LineNumberTable(t) => assert_eq!(
                    t.line_number_table,
                    vec![
                        LineNumber { start_pc: 0, line_number: 10 },
                        LineNumber { start_pc: 3, line_number: 11 }
                    ]
                ),
                other => panic!("unexpected {other:?}"),
            }
        }
        other => panic!("unexpected {other:?}"),
    }
}

#[test]
fn the_declared_length_plays_no_part() {
    let mut bytes = code_attribute();
    let with_right_length = attribute(&bytes).1;
    bytes[2] = 0xff;
    bytes[3] = 0xff;
    bytes[4] = 0xff;
    bytes[5] = 0xff;
    let (r, i) = attribute(&bytes);
    assert!(r.is_ok());
    assert_eq!(i, with_right_length);
}

#[test]
fn a_code_attribute_can_nest_a_code_attribute() {
    let inner = code_attribute();
    let mut b = vec![0, 1, 0, 0, 0, 0, 0, 1, 0, 1, 0, 0, 0, 1, 0xb1, 0, 0, 0, 1];
    b.extend_from_slice(&inner);
    let (r, i) = attribute(&b);
    assert_eq!(i, b.len());
    match r.unwrap().attribute {
        Attribute::Code(c) => {
            assert_eq!(c.code, vec![OpCode::Return]);
            assert!(matches!(c.attributes[0].attribute, Attribute::Code(_)));
        }
        other => panic!("unexpected {other:?}"),
    }
}

#[test]
fn a_code_attribute_with_an_unsupported_opcode_is_refused() {
    let b = vec![0, 1, 0, 0, 0, 0, 0, 1, 0, 1, 0, 0, 0, 2, 0x04, 0xca, 0, 0, 0, 0];
    let (r, i) = attribute(&b);
    assert!(matches!(r, Err(DecodeError::UnknownOpcode(0xca))));
    assert_eq!(i, 16);
}

#[test]
fn a_cut_code_attribute_is_refused() {
    let bytes = code_attribute();
    for cut in 0..bytes.len() {
        let (r, i) = attribute(&bytes[..cut]);
        assert!(matches!(r, Err(DecodeError::EndOfData)), "cut at {cut}");
        assert_eq!(i, cut);
    }
}

#[test]
fn an_unsupported_attribute_name_is_refused() {
    let (r, i) = attribute(&[0, 6, 0, 0, 0, 0, 1, 2, 3]);
    assert!(matches!(r, Err(DecodeError::UnknownAttribute(6))));
    assert_eq!(i, 6);
    let (r, i) = attribute(&[0, 5, 0, 0, 0, 0]);
    assert!(matches!(r, Err(DecodeError::UnknownAttribute(5))));
    assert_eq!(i, 6);
}

#[test]
fn an_attribute_name_has_to_be_a_text_constant() {
    let (r, i) = attribute(&[0, 7, 0, 0, 0, 0]);
    assert!(matches!(r, Err(DecodeError::BadIndex(7))));
    assert_eq!(i, 2);
    let (r, _) = attribute(&[0, 0, 0, 0, 0, 0]);
    assert!(matches!(r, Err(DecodeError::BadIndex(0))));
    let (r, _) = attribute(&[0, 8, 0, 0, 0, 0]);
    assert!(matches!(r, Err(DecodeError::BadIndex(8))));
    let (r, i) = attribute(&[0, 6, 0, 0]);
    assert!(matches!(r, Err(DecodeError::EndOfData)));
    assert_eq!(i, 4);
}

#[test]
fn a_list_of_attributes_is_decoded_in_order() {
    let mut b = vec![0, 3, 0, 0, 0, 2, 0, 5];
    b.extend_from_slice(&[0, 2, 0, 0, 0, 2, 0, 0]);
    b.push(0xee);
    let mut s = ByteStream::from(b.clone());
    let list = parse_attributes(&mut s, &pool(), 2).unwrap();
    assert_eq!(list.len(), 2);
    assert_eq!(list[0].attribute_name, "SourceFile");
    assert_eq!(list[1].attribute_name, "LineNumberTable");
    assert_eq!(s.i, 16);
    let mut s = ByteStream::from(b.clone());
    assert!(parse_attributes(&mut s, &pool(), 0).unwrap().is_empty());
    assert_eq!(s.i, 0);
    let mut s = ByteStream::from(b);
    assert!(matches!(parse_attributes(&mut s, &pool(), 3), Err(DecodeError::EndOfData)));
    assert_eq!(s.i, 17);
}

#[test]
fn raw_bytes_are_read_in_one_piece() {
    let mut s = ByteStream::from(vec![1u8, 2, 3, 4]);
    assert_eq!(read_bytes(&mut s, 0), Ok(vec![]));
    assert_eq!(read_bytes(&mut s, 3), Ok(vec![1, 2, 3]));
    assert_eq!(s.i, 3);
    assert_eq!(read_bytes(&mut s, 2), Err(DecodeError::EndOfData));
    assert_eq!(s.i, 4);
    assert_eq!(read_bytes(&mut s, 0), Ok(vec![]));
}

#[test]
fn texts_are_compared_by_their_characters() {
    assert!(text_is(&String::from("Code"), "Code"));
    assert!(!text_is(&String::from("Code"), "code"));
    assert!(!text_is(&String::from("Cod"), "Code"));
    assert!(text_is(&String::new(), ""));
}
