//! The decoded form of a class file: header, constant pool, resolved class
//! names, interfaces, fields, methods and attributes.

pub mod attribute;
pub mod constant_pool;
pub mod field;
pub mod method;

use crate::class::attribute::{
    attribute_views, parse_attributes, parsed_attributes, AttributeInfo, AttributeInfoView,
};
use crate::class::constant_pool::{
    class_at, out_of_data, parsed_pool, utf_at, CpInfoView, CpPool,
};
use crate::class::field::{parsed_field, FieldInfo, FieldInfoView};
use crate::class::method::{parsed_method, MethodInfo, MethodInfoView};
use crate::error::DecodeError;
use crate::source::{
    after, agrees, be_u16, be_u32, has_bytes, lemma_list_step, parsed_list, stop_position,
    ByteStream,
};
use vstd::prelude::*;

verus! {

/// The access flags of a class, as the bits of the file.
#[derive(Clone, Copy, Debug, PartialEq, Eq, Structural)]
pub struct ClassAccessFlags {
    pub bits: usize,
}

impl ClassAccessFlags {
    pub const PUBLIC: usize = 0x0001;

    pub const FINAL: usize = 0x0010;

    pub const SUPER: usize = 0x0020;

    pub const INTERFACE: usize = 0x0200;

    pub const ABSTRACT: usize = 0x0400;

    pub const SYNTHETIC: usize = 0x1000;

    pub const ANNOTATION: usize = 0x2000;

    pub const ENUM: usize = 0x4000;

    pub const MODULE: usize = 0x8000;

    /// Whether every bit of `mask` is set.
    pub fn contains(&self, mask: usize) -> (r: bool)
        ensures
            r == (self.bits & mask == mask),
    {
        self.bits & mask == mask
    }
}

/// A decoded class. The header numbers are kept as they were read; nothing
/// checks them.
#[derive(Debug)]
pub struct Class {
    pub magic: usize,
    pub minor_version: usize,
    pub major_version: usize,
    pub cp: CpPool,
    pub access_flags: ClassAccessFlags,
    pub this_class: usize,
    pub this_class_name: String,
    pub super_class: usize,
    pub super_class_name: String,
    pub interfaces: Vec<usize>,
    pub fields: Vec<FieldInfo>,
    pub methods: Vec<MethodInfo>,
    pub attributes: Vec<AttributeInfo>,
}

/// What a decoded class holds.
pub struct ClassView {
    pub magic: usize,
    pub minor_version: usize,
    pub major_version: usize,
    pub cp: Seq<CpInfoView>,
    pub access_flags: ClassAccessFlags,
    pub this_class: usize,
    pub this_class_name: Seq<char>,
    pub super_class: usize,
    pub super_class_name: Seq<char>,
    pub interfaces: Seq<usize>,
    pub fields: Seq<FieldInfoView>,
    pub methods: Seq<MethodInfoView>,
    pub attributes: Seq<AttributeInfoView>,
}

impl View for Class {
    type V = ClassView;

    open spec fn view(&self) -> ClassView {
        ClassView {
            magic: self.magic,
            minor_version: self.minor_version,
            major_version: self.major_version,
            cp: self.cp@,
            access_flags: self.access_flags,
            this_class: self.this_class,
            this_class_name: self.this_class_name@,
            super_class: self.super_class,
            super_class_name: self.super_class_name@,
            interfaces: self.interfaces@,
            fields: self.fields@.map_values(|x: FieldInfo| x@),
            methods: self.methods@.map_values(|x: MethodInfo| x@),
            attributes: attribute_views(self.attributes@),
        }
    }
}

/// The name of the class that the class constant at `index` names: the
/// index has to lead to a class constant, and that one to a text constant.
/// The failure names the index that did not resolve.
pub open spec fn class_name_at(cp: Seq<CpInfoView>, index: usize) -> Result<Seq<char>, DecodeError> {
    match class_at(cp, index as int) {
        None => Err(DecodeError::BadIndex(index)),
        Some(class) => match utf_at(cp, class.name_index as int) {
            None => Err(DecodeError::BadIndex(class.name_index)),
            Some(name) => Ok(name),
        },
    }
}

/// What decoding a list of interface indices at `pos` gives, and where it
/// leaves the cursor: a two-byte count, then that many two-byte indices.
pub open spec fn parsed_interfaces(b: Seq<u8>, pos: int) -> (Result<Seq<usize>, DecodeError>, int) {
    if !has_bytes(b, pos, 2) {
        (Err(DecodeError::EndOfData), stop_position(b, pos))
    } else if !has_bytes(b, pos + 2, 2 * be_u16(b, pos)) {
        out_of_data(b)
    } else {
        (
            Ok(Seq::new(be_u16(b, pos) as nat, |k: int| be_u16(b, pos + 2 + 2 * k) as usize)),
            pos + 2 + 2 * be_u16(b, pos),
        )
    }
}

/// What decoding a counted list of fields at `pos` gives, and where it
/// leaves the cursor.
pub open spec fn parsed_fields(b: Seq<u8>, cp: Seq<CpInfoView>, pos: int) -> (
    Result<Seq<FieldInfoView>, DecodeError>,
    int,
) {
    if !has_bytes(b, pos, 2) {
        (Err(DecodeError::EndOfData), stop_position(b, pos))
    } else {
        parsed_list(b, pos + 2, be_u16(b, pos) as nat, |b: Seq<u8>, p: int| parsed_field(b, cp, p))
    }
}

/// What decoding a counted list of methods at `pos` gives, and where it
/// leaves the cursor.
pub open spec fn parsed_methods(b: Seq<u8>, cp: Seq<CpInfoView>, pos: int) -> (
    Result<Seq<MethodInfoView>, DecodeError>,
    int,
) {
    if !has_bytes(b, pos, 2) {
        (Err(DecodeError::EndOfData), stop_position(b, pos))
    } else {
        parsed_list(
            b,
            pos + 2,
            be_u16(b, pos) as nat,
            |b: Seq<u8>, p: int| parsed_method(b, cp, p),
        )
    }
}

/// What decoding the part of a class behind its constant pool gives, and
/// where it leaves the cursor: flags and the indices of this class and its
/// superclass, whose names both have to resolve; then the interfaces, the
/// fields, the methods and the attributes, each as a counted list.
pub open spec fn parsed_class_body(
    b: Seq<u8>,
    magic: usize,
    minor_version: usize,
    major_version: usize,
    cp: Seq<CpInfoView>,
    pos: int,
) -> (Result<ClassView, DecodeError>, int) {
    let this_class = be_u16(b, pos + 2) as usize;
    let super_class = be_u16(b, pos + 4) as usize;
    if !has_bytes(b, pos, 6) {
        (Err(DecodeError::EndOfData), stop_position(b, pos))
    } else {
        match (class_name_at(cp, this_class), class_name_at(cp, super_class)) {
            (Err(e), _) => (Err(e), pos + 6),
            (Ok(_), Err(e)) => (Err(e), pos + 6),
            (Ok(this_class_name), Ok(super_class_name)) => match parsed_interfaces(b, pos + 6) {
                (Err(e), p) => (Err(e), p),
                (Ok(interfaces), p) => match parsed_fields(b, cp, p) {
                    (Err(e), p) => (Err(e), p),
                    (Ok(fields), p) => match parsed_methods(b, cp, p) {
                        (Err(e), p) => (Err(e), p),
                        (Ok(methods), p) => if !has_bytes(b, p, 2) {
                            (Err(DecodeError::EndOfData), stop_position(b, p))
                        } else {
                            match parsed_attributes(b, cp, p + 2, be_u16(b, p) as nat) {
                                (Err(e), end) => (Err(e), end),
                                (Ok(attributes), end) => (
                                    Ok(
                                        ClassView {
                                            magic,
                                            minor_version,
                                            major_version,
                                            cp,
                                            access_flags: ClassAccessFlags {
                                                bits: be_u16(b, pos) as usize,
                                            },
                                            this_class,
                                            this_class_name,
                                            super_class,
                                            super_class_name,
                                            interfaces,
                                            fields,
                                            methods,
                                            attributes,
                                        },
                                    ),
                                    end,
                                ),
                            }
                        },
                    },
                },
            },
        }
    }
}

/// What decoding a class at `pos` gives, and where it leaves the cursor:
/// the magic number and both version numbers, which are taken as they
/// come, the constant pool, and the rest of the class read against that
/// pool.
pub open spec fn parsed_class(b: Seq<u8>, pos: int) -> (Result<ClassView, DecodeError>, int) {
    if !has_bytes(b, pos, 8) {
        (Err(DecodeError::EndOfData), stop_position(b, pos))
    } else {
        match parsed_pool(b, pos + 8) {
            (Err(e), p) => (Err(e), p),
            (Ok(cp), p) => parsed_class_body(
                b,
                be_u32(b, pos) as usize,
                be_u16(b, pos + 4) as usize,
                be_u16(b, pos + 6) as usize,
                cp,
                p,
            ),
        }
    }
}

fn class_name(cp: &CpPool, index: usize) -> (r: Result<String, DecodeError>)
    ensures
        agrees(r, class_name_at(cp@, index)),
{
    let class = match cp.get_class(index) {
        Some(class) => class,
        None => return Err(DecodeError::BadIndex(index)),
    };
    match cp.get_utf(class.name_index) {
        Some(text) => Ok(text.bytes.clone()),
        None => Err(DecodeError::BadIndex(class.name_index)),
    }
}

#[verifier::loop_isolation(false)]
fn parse_interfaces(f: &mut ByteStream) -> (r: Result<Vec<usize>, DecodeError>)
    ensures
        final(f).v == old(f).v,
        agrees(r, parsed_interfaces(old(f).bytes(), old(f).pos()).0),
        final(f).pos() == parsed_interfaces(old(f).bytes(), old(f).pos()).1,
{
    let interfaces_count = f.read_u2()?;
    let ghost start = f.pos();
    let mut interfaces: Vec<usize> = Vec::new();
    let mut n: usize = 0;
    while n < interfaces_count
        invariant
            f.v == old(f).v,
            n <= interfaces_count,
            f.pos() == start + 2 * n,
            has_bytes(f.bytes(), start, 2 * n),
            interfaces@ == Seq::new(n as nat, |k: int| be_u16(f.bytes(), start + 2 * k) as usize),
        decreases interfaces_count - n,
    {
        let index = f.read_u2()?;
        interfaces.push(index);
        n = n + 1;
    }
    Ok(interfaces)
}

#[verifier::loop_isolation(false)]
fn parse_fields(f: &mut ByteStream, cp: &CpPool) -> (r: Result<Vec<FieldInfo>, DecodeError>)
    ensures
        final(f).v == old(f).v,
        match parsed_fields(old(f).bytes(), cp@, old(f).pos()).0 {
            Ok(v) => r matches Ok(x) && x@.map_values(|e: FieldInfo| e@) == v,
            Err(e) => r matches Err(x) && x == e,
        },
        final(f).pos() == parsed_fields(old(f).bytes(), cp@, old(f).pos()).1,
{
    let fields_count = f.read_u2()?;
    let ghost start = f.pos();
    let ghost item = |b: Seq<u8>, p: int| parsed_field(b, cp@, p);
    let mut fields: Vec<FieldInfo> = Vec::new();
    let mut n: usize = 0;
    proof {
        lemma_list_step(
            Seq::<FieldInfoView>::empty(),
            arbitrary(),
            parsed_list(f.bytes(), start, fields_count as nat, item),
        );
    }
    while n < fields_count
        invariant
            f.v == old(f).v,
            n <= fields_count,
            parsed_list(f.bytes(), start, fields_count as nat, item) == after(
                fields@.map_values(|e: FieldInfo| e@),
                parsed_list(f.bytes(), f.pos(), (fields_count - n) as nat, item),
            ),
        decreases fields_count - n,
    {
        let ghost done = fields@.map_values(|e: FieldInfo| e@);
        let field = FieldInfo::parse(f, cp)?;
        proof {
            lemma_list_step(
                done,
                field@,
                parsed_list(f.bytes(), f.pos(), (fields_count - n - 1) as nat, item),
            );
            assert(fields@.push(field).map_values(|e: FieldInfo| e@) == done.push(field@));
        }
        fields.push(field);
        n = n + 1;
    }
    proof {
        lemma_list_step(
            fields@.map_values(|e: FieldInfo| e@),
            arbitrary(),
            (Ok(Seq::empty()), f.pos()),
        );
    }
    Ok(fields)
}

#[verifier::loop_isolation(false)]
fn parse_methods(f: &mut ByteStream, cp: &CpPool) -> (r: Result<Vec<MethodInfo>, DecodeError>)
    ensures
        final(f).v == old(f).v,
        match parsed_methods(old(f).bytes(), cp@, old(f).pos()).0 {
            Ok(v) => r matches Ok(x) && x@.map_values(|e: MethodInfo| e@) == v,
            Err(e) => r matches Err(x) && x == e,
        },
        final(f).pos() == parsed_methods(old(f).bytes(), cp@, old(f).pos()).1,
{
    let methods_count = f.read_u2()?;
    let ghost start = f.pos();
    let ghost item = |b: Seq<u8>, p: int| parsed_method(b, cp@, p);
    let mut methods: Vec<MethodInfo> = Vec::new();
    let mut n: usize = 0;
    proof {
        lemma_list_step(
            Seq::<MethodInfoView>::empty(),
            arbitrary(),
            parsed_list(f.bytes(), start, methods_count as nat, item),
        );
    }
    while n < methods_count
        invariant
            f.v == old(f).v,
            n <= methods_count,
            parsed_list(f.bytes(), start, methods_count as nat, item) == after(
                methods@.map_values(|e: MethodInfo| e@),
                parsed_list(f.bytes(), f.pos(), (methods_count - n) as nat, item),
            ),
        decreases methods_count - n,
    {
        let ghost done = methods@.map_values(|e: MethodInfo| e@);
        let method = MethodInfo::parse(f, cp)?;
        proof {
            lemma_list_step(
                done,
                method@,
                parsed_list(f.bytes(), f.pos(), (methods_count - n - 1) as nat, item),
            );
            assert(methods@.push(method).map_values(|e: MethodInfo| e@) == done.push(method@));
        }
        methods.push(method);
        n = n + 1;
    }
    proof {
        lemma_list_step(
            methods@.map_values(|e: MethodInfo| e@),
            arbitrary(),
            (Ok(Seq::empty()), f.pos()),
        );
    }
    Ok(methods)
}

impl Class {
    /// Decodes a class at the cursor and moves past it.
    ///
    /// The class is the one that `parsed_class` describes. Neither the
    /// magic number nor the versions are checked. Decoding fails with
    /// `EndOfData` when the buffer ends inside the class, with `BadIndex`
    /// when the name of the class or of its superclass does not resolve,
    /// and with the failure of whatever part fails first: the constant
    /// pool, a field, a method or an attribute.
    pub fn parse(f: &mut ByteStream) -> (r: Result<Class, DecodeError>)
        ensures
            final(f).v == old(f).v,
            agrees(r, parsed_class(old(f).bytes(), old(f).pos()).0),
            final(f).pos() == parsed_class(old(f).bytes(), old(f).pos()).1,
    {
        let magic = f.read_u4()?;
        let minor_version = f.read_u2()?;
        let major_version = f.read_u2()?;

        let constant_pool = CpPool::parse(f)?;

        let access_flags = ClassAccessFlags { bits: f.read_u2()? };
        let this_class = f.read_u2()?;
        let super_class = f.read_u2()?;

        let this_class_name = class_name(&constant_pool, this_class)?;
        let super_class_name = class_name(&constant_pool, super_class)?;

        let interfaces = parse_interfaces(f)?;
        let fields = parse_fields(f, &constant_pool)?;
        let methods = parse_methods(f, &constant_pool)?;

        let attributes_count = f.read_u2()?;
        let attributes = parse_attributes(f, &constant_pool, attributes_count)?;

        Ok(
            Class {
                magic,
                minor_version,
                major_version,
                cp: constant_pool,
                access_flags,
                this_class,
                this_class_name,
                super_class,
                super_class_name,
                interfaces,
                fields,
                methods,
                attributes,
            },
        )
    }
}

} // verus!
