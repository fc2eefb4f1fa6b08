//! The constant pool: a table of tagged entries that the rest of a class
//! refers to by one-based index.

use crate::error::DecodeError;
use crate::source::{
    after, agrees, be_u16, be_u32, has_bytes, lemma_list_step, parsed_list, ByteStream,
};
use vstd::prelude::*;
use vstd::utf8::{
    decode_utf8, encode_utf8, encode_utf8_decode_utf8, encode_utf8_valid_utf8, valid_utf8,
};

verus! {

/// A class, by the index of the text constant that holds its name.
#[derive(Clone, Copy, Debug, PartialEq, Eq, Structural)]
pub struct ClassInfo {
    pub name_index: usize,
}

/// A field, by its class and its name-and-type constant.
#[derive(Clone, Copy, Debug, PartialEq, Eq, Structural)]
pub struct FieldrefInfo {
    pub class_index: usize,
    pub name_and_type_index: usize,
}

/// A method, by its class and its name-and-type constant.
#[derive(Clone, Copy, Debug, PartialEq, Eq, Structural)]
pub struct MethodrefInfo {
    pub class_index: usize,
    pub name_and_type_index: usize,
}

/// An interface method, by its class and its name-and-type constant.
#[derive(Clone, Copy, Debug, PartialEq, Eq, Structural)]
pub struct InterfaceMethodrefInfo {
    pub class_index: usize,
    pub name_and_type_index: usize,
}

/// A name and a descriptor, each by the index of a text constant.
#[derive(Clone, Copy, Debug, PartialEq, Eq, Structural)]
pub struct NameAndTypeInfo {
    pub name_index: usize,
    pub descriptor_index: usize,
}

/// A text constant.
#[derive(Clone, Debug)]
pub struct UtfInfo {
    pub bytes: String,
}

/// A string constant, by the index of the text constant that holds it.
#[derive(Clone, Copy, Debug, PartialEq, Eq, Structural)]
pub struct StringInfo {
    pub string_index: usize,
}

/// A 32-bit integer constant, kept as the unsigned value of its four bytes.
#[derive(Clone, Copy, Debug, PartialEq, Eq, Structural)]
pub struct IntegerInfo {
    pub val: usize,
}

/// One entry of the constant pool.
#[derive(Clone, Debug)]
pub enum CpInfo {
    Class(ClassInfo),
    Fieldref(FieldrefInfo),
    Methodref(MethodrefInfo),
    InterfaceMethodref(InterfaceMethodrefInfo),
    NameAndType(NameAndTypeInfo),
    Utf(UtfInfo),
    String(StringInfo),
    Integer(IntegerInfo),
}

/// What an entry of the constant pool holds, with text as its characters.
pub enum CpInfoView {
    Class(ClassInfo),
    Fieldref(FieldrefInfo),
    Methodref(MethodrefInfo),
    InterfaceMethodref(InterfaceMethodrefInfo),
    NameAndType(NameAndTypeInfo),
    Utf(Seq<char>),
    String(StringInfo),
    Integer(IntegerInfo),
}

impl View for UtfInfo {
    type V = Seq<char>;

    open spec fn view(&self) -> Seq<char> {
        self.bytes@
    }
}

impl View for CpInfo {
    type V = CpInfoView;

    open spec fn view(&self) -> CpInfoView {
        match *self {
            CpInfo::Class(x) => CpInfoView::Class(x),
            CpInfo::Fieldref(x) => CpInfoView::Fieldref(x),
            CpInfo::Methodref(x) => CpInfoView::Methodref(x),
            CpInfo::InterfaceMethodref(x) => CpInfoView::InterfaceMethodref(x),
            CpInfo::NameAndType(x) => CpInfoView::NameAndType(x),
            CpInfo::Utf(x) => CpInfoView::Utf(x@),
            CpInfo::String(x) => CpInfoView::String(x),
            CpInfo::Integer(x) => CpInfoView::Integer(x),
        }
    }
}

/// The constant pool of a class: its entries in the order of the file. The
/// first entry has index 1.
#[derive(Clone, Debug)]
pub struct CpPool(pub Vec<CpInfo>);

impl core::ops::Deref for CpPool {
    type Target = Vec<CpInfo>;

    /// The entries of the pool, the first at position 0.
    fn deref(&self) -> (r: &Vec<CpInfo>)
        ensures
            *r == self.0,
    {
        &self.0
    }
}

impl core::ops::DerefMut for CpPool {
    /// The entries of the pool, to change them in place.
    fn deref_mut(&mut self) -> (r: &mut Vec<CpInfo>)
        ensures
            *r == old(self).0,
            final(self).0 == *final(r),
    {
        &mut self.0
    }
}

impl View for CpPool {
    type V = Seq<CpInfoView>;

    open spec fn view(&self) -> Seq<CpInfoView> {
        self.0@.map_values(|e: CpInfo| e@)
    }
}

/// The outcome of a read that ran out of data behind at least one byte that
/// was there: the cursor stands at the end of the buffer.
pub open spec fn out_of_data<T>(b: Seq<u8>) -> (Result<T, DecodeError>, int) {
    (Err(DecodeError::EndOfData), b.len() as int)
}

/// What decoding one pool entry at `pos` gives, and where it leaves the
/// cursor: a tag byte, then the payload that the tag calls for.
pub open spec fn parsed_constant(b: Seq<u8>, pos: int) -> (Result<CpInfoView, DecodeError>, int) {
    if !has_bytes(b, pos, 1) {
        (Err(DecodeError::EndOfData), pos)
    } else {
        let tag = b[pos];
        let p = pos + 1;
        let first = be_u16(b, p) as usize;
        let second = be_u16(b, p + 2) as usize;
        if tag == 9 || tag == 10 || tag == 11 || tag == 12 {
            if !has_bytes(b, p, 4) {
                out_of_data(b)
            } else if tag == 9 {
                (
                    Ok(
                        CpInfoView::Fieldref(
                            FieldrefInfo { class_index: first, name_and_type_index: second },
                        ),
                    ),
                    p + 4,
                )
            } else if tag == 10 {
                (
                    Ok(
                        CpInfoView::Methodref(
                            MethodrefInfo { class_index: first, name_and_type_index: second },
                        ),
                    ),
                    p + 4,
                )
            } else if tag == 11 {
                (
                    Ok(
                        CpInfoView::InterfaceMethodref(
                            InterfaceMethodrefInfo {
                                class_index: first,
                                name_and_type_index: second,
                            },
                        ),
                    ),
                    p + 4,
                )
            } else {
                (
                    Ok(
                        CpInfoView::NameAndType(
                            NameAndTypeInfo { name_index: first, descriptor_index: second },
                        ),
                    ),
                    p + 4,
                )
            }
        } else if tag == 7 || tag == 8 {
            if !has_bytes(b, p, 2) {
                out_of_data(b)
            } else if tag == 7 {
                (Ok(CpInfoView::Class(ClassInfo { name_index: first })), p + 2)
            } else {
                (Ok(CpInfoView::String(StringInfo { string_index: first })), p + 2)
            }
        } else if tag == 3 {
            if !has_bytes(b, p, 4) {
                out_of_data(b)
            } else {
                (Ok(CpInfoView::Integer(IntegerInfo { val: be_u32(b, p) as usize })), p + 4)
            }
        } else if tag == 1 {
            if !has_bytes(b, p, 2) || !has_bytes(b, p + 2, first as int) {
                out_of_data(b)
            } else {
                let payload = b.subrange(p + 2, p + 2 + first);
                if valid_utf8(payload) {
                    (Ok(CpInfoView::Utf(decode_utf8(payload))), p + 2 + first)
                } else {
                    (Err(DecodeError::BadUtf8), p + 2 + first)
                }
            }
        } else {
            (Err(DecodeError::UnknownTag(tag)), p)
        }
    }
}

/// What decoding a whole pool at `pos` gives, and where it leaves the
/// cursor: a two-byte count, then one entry fewer than the count says.
pub open spec fn parsed_pool(b: Seq<u8>, pos: int) -> (Result<Seq<CpInfoView>, DecodeError>, int) {
    if !has_bytes(b, pos, 2) {
        (Err(DecodeError::EndOfData), crate::source::stop_position(b, pos))
    } else if be_u16(b, pos) == 0 {
        (Err(DecodeError::EmptyPoolCount), pos + 2)
    } else {
        parsed_list(
            b,
            pos + 2,
            (be_u16(b, pos) - 1) as nat,
            |b: Seq<u8>, p: int| parsed_constant(b, p),
        )
    }
}

/// The entry with the one-based index `index`, if there is one.
pub open spec fn entry_at(pool: Seq<CpInfoView>, index: int) -> Option<CpInfoView> {
    if 1 <= index <= pool.len() {
        Some(pool[index - 1])
    } else {
        None
    }
}

/// The text of the entry at `index`, if that entry is a text constant.
pub open spec fn utf_at(pool: Seq<CpInfoView>, index: int) -> Option<Seq<char>> {
    match entry_at(pool, index) {
        Some(CpInfoView::Utf(x)) => Some(x),
        _ => None,
    }
}

/// The entry at `index`, if it is a class constant.
pub open spec fn class_at(pool: Seq<CpInfoView>, index: int) -> Option<ClassInfo> {
    match entry_at(pool, index) {
        Some(CpInfoView::Class(x)) => Some(x),
        _ => None,
    }
}

/// The entry at `index`, if it is a string constant.
pub open spec fn string_at(pool: Seq<CpInfoView>, index: int) -> Option<StringInfo> {
    match entry_at(pool, index) {
        Some(CpInfoView::String(x)) => Some(x),
        _ => None,
    }
}

/// The entry at `index`, if it is a field reference.
pub open spec fn fieldref_at(pool: Seq<CpInfoView>, index: int) -> Option<FieldrefInfo> {
    match entry_at(pool, index) {
        Some(CpInfoView::Fieldref(x)) => Some(x),
        _ => None,
    }
}

/// The entry at `index`, if it is a name-and-type constant.
pub open spec fn name_and_type_at(pool: Seq<CpInfoView>, index: int) -> Option<NameAndTypeInfo> {
    match entry_at(pool, index) {
        Some(CpInfoView::NameAndType(x)) => Some(x),
        _ => None,
    }
}

/// The entry at `index`, if it is an interface-method reference.
pub open spec fn interface_methodref_at(pool: Seq<CpInfoView>, index: int) -> Option<
    InterfaceMethodrefInfo,
> {
    match entry_at(pool, index) {
        Some(CpInfoView::InterfaceMethodref(x)) => Some(x),
        _ => None,
    }
}

/// The entry at `index`, if it is a method reference.
pub open spec fn methodref_at(pool: Seq<CpInfoView>, index: int) -> Option<MethodrefInfo> {
    match entry_at(pool, index) {
        Some(CpInfoView::Methodref(x)) => Some(x),
        _ => None,
    }
}

/// The entry at `index`, if it is an integer constant.
pub open spec fn integer_at(pool: Seq<CpInfoView>, index: int) -> Option<IntegerInfo> {
    match entry_at(pool, index) {
        Some(CpInfoView::Integer(x)) => Some(x),
        _ => None,
    }
}

/// Calls `String::from_utf8`, which takes the bytes as text without copying
/// them. The text comes back exactly when the bytes are well-formed UTF-8,
/// and its characters are then the ones that the bytes encode.
#[verifier::external_body]
fn string_from_utf8(bytes: Vec<u8>) -> (r: Option<String>)
    ensures
        match r {
            Some(s) => valid_utf8(bytes@) && s@ == decode_utf8(bytes@),
            None => !valid_utf8(bytes@),
        },
{
    match String::from_utf8(bytes) {
        Ok(s) => Some(s),
        Err(_) => None,
    }
}

impl CpInfo {
    /// Decodes the pool entry at the cursor and moves past it.
    ///
    /// The entry is the one that `parsed_constant` describes. Decoding
    /// fails with `EndOfData` when the buffer ends inside the entry, with
    /// `UnknownTag` on a tag outside the supported set, and with `BadUtf8`
    /// when the payload of a text constant is not well-formed.
    #[verifier::loop_isolation(false)]
    pub fn parse(f: &mut ByteStream) -> (r: Result<CpInfo, DecodeError>)
        ensures
            final(f).v == old(f).v,
            agrees(r, parsed_constant(old(f).bytes(), old(f).pos()).0),
            final(f).pos() == parsed_constant(old(f).bytes(), old(f).pos()).1,
    {
        let tag: u8 = f.read_u1()?;
        match tag {
            10 => {
                let class_index = f.read_u2()?;
                let name_and_type_index = f.read_u2()?;
                Ok(CpInfo::Methodref(MethodrefInfo { class_index, name_and_type_index }))
            },
            7 => {
                let name_index = f.read_u2()?;
                Ok(CpInfo::Class(ClassInfo { name_index }))
            },
            12 => {
                let name_index = f.read_u2()?;
                let descriptor_index = f.read_u2()?;
                Ok(CpInfo::NameAndType(NameAndTypeInfo { name_index, descriptor_index }))
            },
            1 => {
                let len = f.read_u2()?;
                let ghost start = f.pos();
                let mut bytes: Vec<u8> = Vec::new();
                let mut n: usize = 0;
                while n < len
                    invariant
                        f.v == old(f).v,
                        n <= len,
                        f.pos() == start + n,
                        f.pos() <= f.bytes().len(),
                        bytes@ == f.bytes().subrange(start, start + n),
                    decreases len - n,
                {
                    let x = f.read_u1()?;
                    bytes.push(x);
                    n = n + 1;
                }
                match string_from_utf8(bytes) {
                    Some(text) => Ok(CpInfo::Utf(UtfInfo { bytes: text })),
                    None => Err(DecodeError::BadUtf8),
                }
            },
            9 => {
                let class_index = f.read_u2()?;
                let name_and_type_index = f.read_u2()?;
                Ok(CpInfo::Fieldref(FieldrefInfo { class_index, name_and_type_index }))
            },
            11 => {
                let class_index = f.read_u2()?;
                let name_and_type_index = f.read_u2()?;
                Ok(
                    CpInfo::InterfaceMethodref(
                        InterfaceMethodrefInfo { class_index, name_and_type_index },
                    ),
                )
            },
            8 => {
                let string_index = f.read_u2()?;
                Ok(CpInfo::String(StringInfo { string_index }))
            },
            3 => {
                let val = f.read_u4()?;
                Ok(CpInfo::Integer(IntegerInfo { val }))
            },
            other => Err(DecodeError::UnknownTag(other)),
        }
    }
}

impl CpPool {
    /// Decodes a constant pool at the cursor and moves past it.
    ///
    /// The pool is the one that `parsed_pool` describes: the count, then
    /// one entry fewer than the count. A count of zero fails with
    /// `EmptyPoolCount`; the first entry that fails to decode fails the
    /// pool with its own failure.
    #[verifier::loop_isolation(false)]
    pub fn parse(f: &mut ByteStream) -> (r: Result<CpPool, DecodeError>)
        ensures
            final(f).v == old(f).v,
            agrees(r, parsed_pool(old(f).bytes(), old(f).pos()).0),
            final(f).pos() == parsed_pool(old(f).bytes(), old(f).pos()).1,
    {
        let constant_pool_count = f.read_u2()?;
        if constant_pool_count == 0 {
            return Err(DecodeError::EmptyPoolCount);
        }
        let total: usize = constant_pool_count - 1;
        let ghost start = f.pos();
        let ghost item = |b: Seq<u8>, p: int| parsed_constant(b, p);
        let mut constant_pool: Vec<CpInfo> = Vec::new();
        let mut n: usize = 0;
        proof {
            lemma_list_step(
                Seq::<CpInfoView>::empty(),
                arbitrary(),
                parsed_list(f.bytes(), start, total as nat, item),
            );
        }
        while n < total
            invariant
                f.v == old(f).v,
                n <= total,
                constant_pool.len() == n,
                parsed_list(f.bytes(), start, total as nat, item) == after(
                    constant_pool@.map_values(|e: CpInfo| e@),
                    parsed_list(f.bytes(), f.pos(), (total - n) as nat, item),
                ),
            decreases total - n,
        {
            let ghost done = constant_pool@.map_values(|e: CpInfo| e@);
            let entry = CpInfo::parse(f)?;
            proof {
                lemma_list_step(
                    done,
                    entry@,
                    parsed_list(f.bytes(), f.pos(), (total - n - 1) as nat, item),
                );
                assert(constant_pool@.push(entry).map_values(|e: CpInfo| e@) == done.push(entry@));
            }
            constant_pool.push(entry);
            n = n + 1;
        }
        proof {
            lemma_list_step(
                constant_pool@.map_values(|e: CpInfo| e@),
                arbitrary(),
                (Ok(Seq::empty()), f.pos()),
            );
        }
        Ok(CpPool(constant_pool))
    }

    /// The entry with the one-based index `index`; `None` when the index
    /// is 0 or behind the last entry.
    pub fn get(&self, index: usize) -> (r: Option<&CpInfo>)
        ensures
            1 <= index <= self.0.len() ==> r == Some(&self.0[index - 1]),
            !(1 <= index <= self.0.len()) ==> r.is_none(),
            match r {
                Some(e) => entry_at(self@, index as int) == Some(e@),
                None => entry_at(self@, index as int).is_none(),
            },
    {
        if 1 <= index && index <= self.0.len() {
            Some(&self.0[index - 1])
        } else {
            None
        }
    }

    /// The text constant at `index`; `None` when there is no entry at that
    /// index or the entry is of another kind.
    pub fn get_utf(&self, index: usize) -> (r: Option<&UtfInfo>)
        ensures
            match r {
                Some(x) => utf_at(self@, index as int) == Some(x@),
                None => utf_at(self@, index as int).is_none(),
            },
    {
        match self.get(index) {
            Some(CpInfo::Utf(x)) => Some(x),
            _ => None,
        }
    }

    /// The class constant at `index`; `None` when there is no entry at that
    /// index or the entry is of another kind.
    pub fn get_class(&self, index: usize) -> (r: Option<&ClassInfo>)
        ensures
            match r {
                Some(x) => class_at(self@, index as int) == Some(*x),
                None => class_at(self@, index as int).is_none(),
            },
    {
        match self.get(index) {
            Some(CpInfo::Class(x)) => Some(x),
            _ => None,
        }
    }

    /// The string constant at `index`; `None` when there is no entry at
    /// that index or the entry is of another kind.
    pub fn get_string(&self, index: usize) -> (r: Option<&StringInfo>)
        ensures
            match r {
                Some(x) => string_at(self@, index as int) == Some(*x),
                None => string_at(self@, index as int).is_none(),
            },
    {
        match self.get(index) {
            Some(CpInfo::String(x)) => Some(x),
            _ => None,
        }
    }

    /// The field reference at `index`; `None` when there is no entry at
    /// that index or the entry is of another kind.
    pub fn get_fieldref(&self, index: usize) -> (r: Option<&FieldrefInfo>)
        ensures
            match r {
                Some(x) => fieldref_at(self@, index as int) == Some(*x),
                None => fieldref_at(self@, index as int).is_none(),
            },
    {
        match self.get(index) {
            Some(CpInfo::Fieldref(x)) => Some(x),
            _ => None,
        }
    }

    /// The name-and-type constant at `index`; `None` when there is no entry
    /// at that index or the entry is of another kind.
    pub fn get_name_and_type(&self, index: usize) -> (r: Option<&NameAndTypeInfo>)
        ensures
            match r {
                Some(x) => name_and_type_at(self@, index as int) == Some(*x),
                None => name_and_type_at(self@, index as int).is_none(),
            },
    {
        match self.get(index) {
            Some(CpInfo::NameAndType(x)) => Some(x),
            _ => None,
        }
    }

    /// The interface-method reference at `index`; `None` when there is no
    /// entry at that index or the entry is of another kind.
    pub fn get_interface_methodref(&self, index: usize) -> (r: Option<&InterfaceMethodrefInfo>)
        ensures
            match r {
                Some(x) => interface_methodref_at(self@, index as int) == Some(*x),
                None => interface_methodref_at(self@, index as int).is_none(),
            },
    {
        match self.get(index) {
            Some(CpInfo::InterfaceMethodref(x)) => Some(x),
            _ => None,
        }
    }

    /// The method reference at `index`; `None` when there is no entry at
    /// that index or the entry is of another kind.
    pub fn get_methodref(&self, index: usize) -> (r: Option<&MethodrefInfo>)
        ensures
            match r {
                Some(x) => methodref_at(self@, index as int) == Some(*x),
                None => methodref_at(self@, index as int).is_none(),
            },
    {
        match self.get(index) {
            Some(CpInfo::Methodref(x)) => Some(x),
            _ => None,
        }
    }

    /// The integer constant at `index`; `None` when there is no entry at
    /// that index or the entry is of another kind.
    pub fn get_integer(&self, index: usize) -> (r: Option<&IntegerInfo>)
        ensures
            match r {
                Some(x) => integer_at(self@, index as int) == Some(*x),
                None => integer_at(self@, index as int).is_none(),
            },
    {
        match self.get(index) {
            Some(CpInfo::Integer(x)) => Some(x),
            _ => None,
        }
    }
}

/// A typed lookup finds an entry under its own kind and under no other:
/// at the index of an entry, the lookup for the kind of that entry gives
/// what the entry holds, and the lookup for every other kind gives nothing.
pub proof fn lemma_typed_lookup(pool: Seq<CpInfoView>, index: int)
    requires
        1 <= index <= pool.len(),
    ensures
        entry_at(pool, index) == Some(pool[index - 1]),
        match pool[index - 1] {
            CpInfoView::Class(x) => class_at(pool, index) == Some(x),
            CpInfoView::Fieldref(x) => fieldref_at(pool, index) == Some(x),
            CpInfoView::Methodref(x) => methodref_at(pool, index) == Some(x),
            CpInfoView::InterfaceMethodref(x) => interface_methodref_at(pool, index) == Some(x),
            CpInfoView::NameAndType(x) => name_and_type_at(pool, index) == Some(x),
            CpInfoView::Utf(x) => utf_at(pool, index) == Some(x),
            CpInfoView::String(x) => string_at(pool, index) == Some(x),
            CpInfoView::Integer(x) => integer_at(pool, index) == Some(x),
        },
        class_at(pool, index) is Some <==> pool[index - 1] is Class,
        fieldref_at(pool, index) is Some <==> pool[index - 1] is Fieldref,
        methodref_at(pool, index) is Some <==> pool[index - 1] is Methodref,
        interface_methodref_at(pool, index) is Some <==> pool[index - 1] is InterfaceMethodref,
        name_and_type_at(pool, index) is Some <==> pool[index - 1] is NameAndType,
        utf_at(pool, index) is Some <==> pool[index - 1] is Utf,
        string_at(pool, index) is Some <==> pool[index - 1] is String,
        integer_at(pool, index) is Some <==> pool[index - 1] is Integer,
{
}

/// The two bytes that hold `x` as a big-endian number.
pub open spec fn encoded_u16(x: int) -> Seq<u8> {
    seq![(x / 0x100) as u8, (x % 0x100) as u8]
}

/// The four bytes that hold `x` as a big-endian number.
pub open spec fn encoded_u32(x: int) -> Seq<u8> {
    seq![
        (x / 0x100_0000) as u8,
        ((x / 0x1_0000) % 0x100) as u8,
        ((x / 0x100) % 0x100) as u8,
        (x % 0x100) as u8,
    ]
}

/// Whether the entry can be written to a file that this decoder reads:
/// its indices fit two bytes, its text fits a two-byte length and its
/// number fits four bytes.
pub open spec fn encodable(c: CpInfoView) -> bool {
    match c {
        CpInfoView::Class(x) => x.name_index < 0x1_0000,
        CpInfoView::Fieldref(x) => x.class_index < 0x1_0000 && x.name_and_type_index < 0x1_0000,
        CpInfoView::Methodref(x) => x.class_index < 0x1_0000 && x.name_and_type_index < 0x1_0000,
        CpInfoView::InterfaceMethodref(x) => x.class_index < 0x1_0000 && x.name_and_type_index
            < 0x1_0000,
        CpInfoView::NameAndType(x) => x.name_index < 0x1_0000 && x.descriptor_index < 0x1_0000,
        CpInfoView::Utf(x) => encode_utf8(x).len() < 0x1_0000,
        CpInfoView::String(x) => x.string_index < 0x1_0000,
        CpInfoView::Integer(x) => x.val < 0x1_0000_0000,
    }
}

/// The bytes of an entry in a file: its tag, then its payload.
pub open spec fn encoded_constant(c: CpInfoView) -> Seq<u8> {
    match c {
        CpInfoView::Class(x) => seq![7u8] + encoded_u16(x.name_index as int),
        CpInfoView::Fieldref(x) => seq![9u8] + encoded_u16(x.class_index as int) + encoded_u16(
            x.name_and_type_index as int,
        ),
        CpInfoView::Methodref(x) => seq![10u8] + encoded_u16(x.class_index as int) + encoded_u16(
            x.name_and_type_index as int,
        ),
        CpInfoView::InterfaceMethodref(x) => seq![11u8] + encoded_u16(x.class_index as int)
            + encoded_u16(x.name_and_type_index as int),
        CpInfoView::NameAndType(x) => seq![12u8] + encoded_u16(x.name_index as int) + encoded_u16(
            x.descriptor_index as int,
        ),
        CpInfoView::Utf(x) => seq![1u8] + encoded_u16(encode_utf8(x).len() as int) + encode_utf8(x),
        CpInfoView::String(x) => seq![8u8] + encoded_u16(x.string_index as int),
        CpInfoView::Integer(x) => seq![3u8] + encoded_u32(x.val as int),
    }
}

/// The bytes of a run of entries in a file, one behind the other.
pub open spec fn encoded_constants(entries: Seq<CpInfoView>) -> Seq<u8>
    decreases entries.len(),
{
    if entries.len() == 0 {
        Seq::empty()
    } else {
        encoded_constant(entries[0]) + encoded_constants(entries.drop_first())
    }
}

/// The bytes of a constant pool in a file: the count, which is one more
/// than the number of entries, then the entries.
pub open spec fn encoded_pool(entries: Seq<CpInfoView>) -> Seq<u8> {
    encoded_u16(entries.len() as int + 1) + encoded_constants(entries)
}

proof fn lemma_read_u16(b: Seq<u8>, pos: int, x: int)
    requires
        0 <= x < 0x1_0000,
        has_bytes(b, pos, 2),
        b.subrange(pos, pos + 2) == encoded_u16(x),
    ensures
        be_u16(b, pos) == x,
{
}

proof fn lemma_read_u32(b: Seq<u8>, pos: int, x: int)
    requires
        0 <= x < 0x1_0000_0000,
        has_bytes(b, pos, 4),
        b.subrange(pos, pos + 4) == encoded_u32(x),
    ensures
        be_u32(b, pos) == x,
{
}

/// Decoding gives back what was written: where the bytes of an entry
/// stand in a buffer, whatever comes before and behind them, decoding at
/// their start gives that entry and ends right behind them.
pub proof fn lemma_constant_round_trip(c: CpInfoView, before: Seq<u8>, behind: Seq<u8>)
    requires
        encodable(c),
    ensures
        parsed_constant(before + encoded_constant(c) + behind, before.len() as int) == (
            Ok::<CpInfoView, DecodeError>(c),
            (before.len() + encoded_constant(c).len()) as int,
        ),
{
    let enc = encoded_constant(c);
    let b = before + enc + behind;
    let pos = before.len() as int;
    let p = pos + 1;
    assert forall|j: int| 0 <= j < enc.len() implies b[pos + j] == enc[j] by {}
    match c {
        CpInfoView::Class(x) => {
            assert(b.subrange(p, p + 2) == encoded_u16(x.name_index as int));
            lemma_read_u16(b, p, x.name_index as int);
        },
        CpInfoView::String(x) => {
            assert(b.subrange(p, p + 2) == encoded_u16(x.string_index as int));
            lemma_read_u16(b, p, x.string_index as int);
        },
        CpInfoView::Fieldref(x) => {
            assert(b.subrange(p, p + 2) == encoded_u16(x.class_index as int));
            assert(b.subrange(p + 2, p + 4) == encoded_u16(x.name_and_type_index as int));
            lemma_read_u16(b, p, x.class_index as int);
            lemma_read_u16(b, p + 2, x.name_and_type_index as int);
        },
        CpInfoView::Methodref(x) => {
            assert(b.subrange(p, p + 2) == encoded_u16(x.class_index as int));
            assert(b.subrange(p + 2, p + 4) == encoded_u16(x.name_and_type_index as int));
            lemma_read_u16(b, p, x.class_index as int);
            lemma_read_u16(b, p + 2, x.name_and_type_index as int);
        },
        CpInfoView::NameAndType(x) => {
            assert(b.subrange(p, p + 2) == encoded_u16(x.name_index as int));
            assert(b.subrange(p + 2, p + 4) == encoded_u16(x.descriptor_index as int));
            lemma_read_u16(b, p, x.name_index as int);
            lemma_read_u16(b, p + 2, x.descriptor_index as int);
        },
        CpInfoView::Integer(x) => {
            assert(b.subrange(p, p + 4) == encoded_u32(x.val as int));
            lemma_read_u32(b, p, x.val as int);
        },
        CpInfoView::Utf(x) => {
            let text = encode_utf8(x);
            assert(b.subrange(p, p + 2) == encoded_u16(text.len() as int));
            lemma_read_u16(b, p, text.len() as int);
            assert(b.subrange(p + 2, p + 2 + text.len()) == text);
            encode_utf8_valid_utf8(x);
            encode_utf8_decode_utf8(x);
        },
        CpInfoView::InterfaceMethodref(x) => {
            assert(b.subrange(p, p + 2) == encoded_u16(x.class_index as int));
            assert(b.subrange(p + 2, p + 4) == encoded_u16(x.name_and_type_index as int));
            lemma_read_u16(b, p, x.class_index as int);
            lemma_read_u16(b, p + 2, x.name_and_type_index as int);
        },
    }
}

proof fn lemma_constants_round_trip(entries: Seq<CpInfoView>, before: Seq<u8>, behind: Seq<u8>)
    requires
        forall|k: int| 0 <= k < entries.len() ==> encodable(#[trigger] entries[k]),
    ensures
        parsed_list(
            before + encoded_constants(entries) + behind,
            before.len() as int,
            entries.len(),
            |b: Seq<u8>, p: int| parsed_constant(b, p),
        ) == (
            Ok::<Seq<CpInfoView>, DecodeError>(entries),
            (before.len() + encoded_constants(entries).len()) as int,
        ),
    decreases entries.len(),
{
    let b = before + encoded_constants(entries) + behind;
    if entries.len() == 0 {
        assert(entries == Seq::<CpInfoView>::empty());
    } else {
        let first = entries[0];
        let rest = entries.drop_first();
        let enc = encoded_constant(first);
        assert(b == before + enc + (encoded_constants(rest) + behind));
        lemma_constant_round_trip(first, before, encoded_constants(rest) + behind);
        assert(b == (before + enc) + encoded_constants(rest) + behind);
        assert forall|k: int| 0 <= k < rest.len() implies encodable(#[trigger] rest[k]) by {}
        lemma_constants_round_trip(rest, before + enc, behind);
        assert(seq![first] + rest == entries);
    }
}

/// Round trip of the whole pool: where the bytes of a pool stand in a
/// buffer, decoding at their start gives back the entries that were
/// written, in their order, and ends right behind them. With
/// `lemma_typed_lookup`, the lookup for the kind of the `k`-th entry
/// written finds at index `k` what that entry holds.
pub proof fn lemma_pool_round_trip(entries: Seq<CpInfoView>, before: Seq<u8>, behind: Seq<u8>)
    requires
        entries.len() + 1 < 0x1_0000,
        forall|k: int| 0 <= k < entries.len() ==> encodable(#[trigger] entries[k]),
    ensures
        parsed_pool(before + encoded_pool(entries) + behind, before.len() as int) == (
            Ok::<Seq<CpInfoView>, DecodeError>(entries),
            (before.len() + encoded_pool(entries).len()) as int,
        ),
        forall|k: int| 1 <= k <= entries.len() ==> entry_at(entries, k) == Some(entries[k - 1]),
{
    let count = encoded_u16(entries.len() as int + 1);
    let b = before + encoded_pool(entries) + behind;
    let pos = before.len() as int;
    assert(b == (before + count) + encoded_constants(entries) + behind);
    assert(b.subrange(pos, pos + 2) == count);
    lemma_read_u16(b, pos, entries.len() as int + 1);
    lemma_constants_round_trip(entries, before + count, behind);
}

} // verus!
