use classvm::class::attribute::Attribute;
use classvm::class::field::{FieldAccessFlags, FieldInfo};
use classvm::class::method::{MethodAccessFlags, MethodInfo};
use classvm::class::constant_pool::{CpInfo, CpPool, UtfInfo};
use classvm::class::{Class, ClassAccessFlags};
use classvm::error::DecodeError;
use classvm::source::ByteStream;

fn u2(x: usize) -> Vec<u8> {
    vec![(x >> 8) as u8, x as u8]
}

fn utf(s: &str) -> Vec<u8> {
    let mut b = vec![1];
    b.extend(u2(s.len()));
    b.extend_from_slice(s.as_bytes());
    b
}

// 1 Main, 2 class Main, 3 java/lang/Object, 4 class Object, 5 Code, 6 main,
// 7 ([Ljava/lang/String;)V, 8 count, 9 I, 10 SourceFile, 11 Main.java, 12 integer 7
fn constants() -> Vec<u8> {
    let mut b = u2(13);
    b.extend(utf("Main"));
    b.extend_from_slice(&[7, 0, 1]);
    b.extend(utf("java/lang/Object"));
    b.extend_from_slice(&[7, 0, 3]);
    b.extend(utf("Code"));
    b.extend(utf("main"));
    b.extend(utf("([Ljava/lang/String;)V"));
    b.extend(utf("count"));
    b.extend(utf("I"));
    b.extend(utf("SourceFile"));
    b.extend(utf("Main.java"));
    b.extend_from_slice(&[3, 0, 0, 0, 7]);
    b
}

fn code(max_stack: usize, max_locals: usize, raw: &[u8]) -> Vec<u8> {
    let mut b = u2(5);
    b.extend_from_slice(&[0, 0, 0, 0]);
    b.extend(u2(max_stack));
    b.extend(u2(max_locals));
    b.extend_from_slice(&[0, 0]);
    b.extend(u2(raw.len()));
    b.extend_from_slice(raw);
    b.extend_from_slice(&[0, 0, 0, 0]);
    b
}

fn class_bytes(this_class: usize, super_class: usize) -> Vec<u8> {
    let mut b = vec![0xca, 0xfe, 0xba, 0xbe, 0x00, 0x03, 0x00, 0x34];
    b.extend(constants());
    b.extend(u2(0x0021));
    b.extend(u2(this_class));
    b.extend(u2(super_class));
    b.extend(u2(2));
    b.extend(u2(4));
    b.extend(u2(2));
    b.extend(u2(1));
    b.extend_from_slice(&[0x00, 0x0a, 0, 8, 0, 9, 0, 0]);
    b.extend(u2(1));
    b.extend_from_slice(&[0x00, 0x09, 0, 6, 0, 7, 0, 1]);
    b.extend(code(2, 1, &[0x04, 0xb1]));
    b.extend(u2(1));
    b.extend_from_slice(&[0, 10, 0, 0, 0, 2, 0, 11]);
    b
}

fn parse(bytes: Vec<u8>) -> (Result<Class, DecodeError>, usize) {
    let mut s = ByteStream::from(bytes);
    let r = Class::parse(&mut s);
    (r, s.i)
}

fn pool() -> CpPool {
    let mut s = ByteStream::from(constants());
    CpPool::parse(&mut s).unwrap()
}

#[test]
fn a_class_is_decoded_part_by_part() {
    let bytes = class_bytes(2, 4);
    let len = bytes.len();
    let (r, i) = parse(bytes);
    let c = r.unwrap();
    assert_eq!(i, len);
    assert_eq!(c.magic, 0xcafebabe);
    assert_eq!(c.minor_version, 3);
    assert_eq!(c.major_version, 52);
    assert_eq!(c.cp.0.len(), 12);
    assert_eq!(c.access_flags, ClassAccessFlags { bits: 0x21 });
    assert_eq!(c.this_class, 2);
    assert_eq!(c.this_class_name, "Main");
    assert_eq!(c.super_class, 4);
    assert_eq!(c.super_class_name, "java/lang/Object");
    assert_eq!(c.interfaces, vec![4, 2]);
    assert_eq!(c.fields.len(), 1);
    assert_eq!(c.fields[0].access_flags, FieldAccessFlags { bits: 0x0a });
    assert_eq!(c.fields[0].name, "count");
    assert_eq!(c.fields[0].descriptor, "I");
    assert_eq!(c.fields[0].name_index, 8);
    assert_eq!(c.fields[0].descriptor_index, 9);
    assert!(c.fields[0].attributes.is_empty());
    assert_eq!(c.methods.len(), 1);
    assert_eq!(c.methods[0].access_flags, MethodAccessFlags { bits: 9 });
    assert_eq!(c.methods[0].name, "main");
    assert_eq!(c.methods[0].descriptor, "([Ljava/lang/String;)V");
    assert_eq!(c.methods[0].name_index, 6);
    assert_eq!(c.methods[0].descriptor_index, 7);
    assert_eq!(c.methods[0].attributes.len(), 1);
    assert!(matches!(c.methods[0].attributes[0].attribute, Attribute::Code(_)));
    assert_eq!(c.attributes.len(), 1);
    assert!(matches!(c.attributes[0].attribute, Attribute::SourceFile(_)));
}

#[test]
fn magic_and_versions_are_not_checked() {
    let mut bytes = class_bytes(2, 4);
    for b in bytes.iter_mut().take(8) {
        *b = 0;
    }
    let c = parse(bytes).0.unwrap();
    assert_eq!(c.magic, 0);
    assert_eq!(c.minor_version, 0);
    assert_eq!(c.major_version, 0);
}

#[test]
fn a_class_decoded_from_inside_a_buffer_starts_at_the_cursor() {
    let mut bytes = vec![0xaa, 0xbb, 0xcc];
    bytes.extend(class_bytes(2, 4));
    bytes.extend_from_slice(&[0xdd, 0xee]);
    let len = bytes.len();
    let mut s = ByteStream::from(bytes);
    s.i = 3;
    let c = Class::parse(&mut s).unwrap();
    assert_eq!(c.this_class_name, "Main");
    assert_eq!(s.i, len - 2);
}

#[test]
fn the_class_names_have_to_resolve() {
    assert!(matches!(parse(class_bytes(1, 4)).0, Err(DecodeError::BadIndex(1))));
    assert!(matches!(parse(class_bytes(2, 0)).0, Err(DecodeError::BadIndex(0))));
    assert!(matches!(parse(class_bytes(2, 13)).0, Err(DecodeError::BadIndex(13))));
    assert!(matches!(parse(class_bytes(12, 12)).0, Err(DecodeError::BadIndex(12))));
}

#[test]
fn a_class_constant_has_to_name_a_text_constant() {
    let mut bytes = vec![0, 0, 0, 0, 0, 0, 0, 0];
    bytes.extend_from_slice(&[0, 3, 7, 0, 2, 7, 0, 1]);
    bytes.extend_from_slice(&[0, 0, 0, 1, 0, 1, 0, 0, 0, 0, 0, 0, 0, 0]);
    assert!(matches!(parse(bytes).0, Err(DecodeError::BadIndex(2))));
}

#[test]
fn a_cut_class_is_refused() {
    let bytes = class_bytes(2, 4);
    for cut in 0..bytes.len() {
        let (r, i) = parse(bytes[..cut].to_vec());
        assert!(matches!(r, Err(DecodeError::EndOfData)), "cut at {cut}");
        assert_eq!(i, cut);
    }
}

#[test]
fn a_class_fails_with_the_failure_of_its_pool() {
    let mut bytes = vec![0, 0, 0, 0, 0, 0, 0, 0];
    bytes.extend_from_slice(&[0, 0]);
    assert!(matches!(parse(bytes).0, Err(DecodeError::EmptyPoolCount)));
    let mut bytes = vec![0, 0, 0, 0, 0, 0, 0, 0];
    bytes.extend_from_slice(&[0, 2, 200]);
    assert!(matches!(parse(bytes).0, Err(DecodeError::UnknownTag(200))));
}

#[test]
fn a_field_is_decoded_against_the_pool() {
    let mut s = ByteStream::from(vec![0x10, 0x01, 0, 8, 0, 9, 0, 1, 0, 10, 0, 0, 0, 2, 0, 11, 0xff]);
    let f = FieldInfo::parse(&mut s, &pool()).unwrap();
    assert_eq!(f.access_flags.bits, 0x1001);
    assert_eq!(f.name, "count");
    assert_eq!(f.descriptor, "I");
    assert_eq!(f.attributes.len(), 1);
    assert_eq!(s.i, 16);
}

#[test]
fn a_field_checks_its_names_before_it_reads_the_attribute_count() {
    let mut s = ByteStream::from(vec![0, 0, 0, 2, 0, 9]);
    assert!(matches!(FieldInfo::parse(&mut s, &pool()), Err(DecodeError::BadIndex(2))));
    assert_eq!(s.i, 6);
    let mut s = ByteStream::from(vec![0, 0, 0, 8, 0, 12]);
    assert!(matches!(FieldInfo::parse(&mut s, &pool()), Err(DecodeError::BadIndex(12))));
    let mut s = ByteStream::from(vec![0, 0, 0, 8, 0, 9]);
    assert!(matches!(FieldInfo::parse(&mut s, &pool()), Err(DecodeError::EndOfData)));
    let mut s = ByteStream::from(vec![0, 0, 0, 8, 0]);
    assert!(matches!(FieldInfo::parse(&mut s, &pool()), Err(DecodeError::EndOfData)));
}

#[test]
fn a_method_is_decoded_against_the_pool() {
    let mut bytes = vec![0x00, 0x09, 0, 6, 0, 7, 0, 1];
    bytes.extend(code(1, 1, &[0xb1]));
    let len = bytes.len();
    let mut s = ByteStream::from(bytes);
    let m = MethodInfo::parse(&mut s, &pool()).unwrap();
    assert_eq!(m.access_flags.bits, 9);
    assert_eq!(m.name, "main");
    assert_eq!(m.descriptor, "([Ljava/lang/String;)V");
    assert_eq!(m.attributes.len(), 1);
    assert_eq!(s.i, len);
}

#[test]
fn a_method_reads_the_attribute_count_before_it_checks_its_names() {
    let mut s = ByteStream::from(vec![0, 0, 0, 2, 0, 9]);
    assert!(matches!(MethodInfo::parse(&mut s, &pool()), Err(DecodeError::EndOfData)));
    let mut s = ByteStream::from(vec![0, 0, 0, 2, 0, 9, 0, 0]);
    assert!(matches!(MethodInfo::parse(&mut s, &pool()), Err(DecodeError::BadIndex(2))));
    assert_eq!(s.i, 8);
    let mut s = ByteStream::from(vec![0, 0, 0, 6, 0, 4, 0, 0]);
    assert!(matches!(MethodInfo::parse(&mut s, &pool()), Err(DecodeError::BadIndex(4))));
}

#[test]
fn a_method_fails_with_the_failure_of_its_attribute() {
    let mut s = ByteStream::from(vec![0, 0, 0, 6, 0, 7, 0, 1, 0, 11, 0, 0, 0, 0]);
    assert!(matches!(MethodInfo::parse(&mut s, &pool()), Err(DecodeError::UnknownAttribute(11))));
}

#[test]
fn access_flags_are_tested_bit_by_bit() {
    let c = ClassAccessFlags { bits: 0x0021 };
    assert!(c.contains(ClassAccessFlags::PUBLIC));
    assert!(c.contains(ClassAccessFlags::SUPER));
    assert!(c.contains(ClassAccessFlags::PUBLIC | ClassAccessFlags::SUPER));
    assert!(!c.contains(ClassAccessFlags::FINAL));
    assert!(!c.contains(ClassAccessFlags::PUBLIC | ClassAccessFlags::FINAL));
    assert!(c.contains(0));
    let f = FieldAccessFlags { bits: 0x000a };
    assert!(f.contains(FieldAccessFlags::PRIVATE));
    assert!(f.contains(FieldAccessFlags::STATIC));
    assert!(!f.contains(FieldAccessFlags::PUBLIC));
    let m = MethodAccessFlags { bits: 0x0009 };
    assert!(m.contains(MethodAccessFlags::PUBLIC));
    assert!(m.contains(MethodAccessFlags::STATIC));
    assert!(!m.contains(MethodAccessFlags::NATIVE));
}

#[test]
fn a_pool_text_built_by_hand_resolves_too() {
    let cp = CpPool(vec![CpInfo::Utf(UtfInfo { bytes: String::from("x") })]);
    let mut s = ByteStream::from(vec![0, 0, 0, 1, 0, 1, 0, 0]);
    let f = FieldInfo::parse(&mut s, &cp).unwrap();
    assert_eq!(f.name, "x");
    assert_eq!(f.descriptor, "x");
}
