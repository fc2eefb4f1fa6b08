//! The fields of a class.

use crate::class::attribute::{
    attribute_views, parse_attributes, parsed_attributes, AttributeInfo, AttributeInfoView,
};
use crate::class::constant_pool::{out_of_data, utf_at, CpInfoView, CpPool};
use crate::error::DecodeError;
use crate::source::{agrees, be_u16, has_bytes, stop_position, ByteStream};
use vstd::prelude::*;

verus! {

/// The access flags of a field, as the bits of the file.
#[derive(Clone, Copy, Debug, PartialEq, Eq, Structural)]
pub struct FieldAccessFlags {
    pub bits: usize,
}

impl FieldAccessFlags {
    pub const PUBLIC: usize = 0x0001;

    pub const PRIVATE: usize = 0x0002;

    pub const PROTECTED: usize = 0x0004;

    pub const STATIC: usize = 0x0008;

    pub const FINAL: usize = 0x0010;

    pub const VOLATILE: usize = 0x0040;

    pub const TRANSIENT: usize = 0x0080;

    pub const SYNTHETIC: usize = 0x1000;

    pub const ENUM: usize = 0x4000;

    /// Whether every bit of `mask` is set.
    pub fn contains(&self, mask: usize) -> (r: bool)
        ensures
            r == (self.bits & mask == mask),
    {
        self.bits & mask == mask
    }
}

/// A field of a class: its flags, its name and descriptor as text and as
/// pool indices, and its attributes.
#[derive(Debug)]
pub struct FieldInfo {
    pub access_flags: FieldAccessFlags,
    pub name: String,
    pub descriptor: String,
    pub name_index: usize,
    pub descriptor_index: usize,
    pub attributes: Vec<AttributeInfo>,
}

/// What a field holds.
pub struct FieldInfoView {
    pub access_flags: FieldAccessFlags,
    pub name: Seq<char>,
    pub descriptor: Seq<char>,
    pub name_index: usize,
    pub descriptor_index: usize,
    pub attributes: Seq<AttributeInfoView>,
}

impl View for FieldInfo {
    type V = FieldInfoView;

    open spec fn view(&self) -> FieldInfoView {
        FieldInfoView {
            access_flags: self.access_flags,
            name: self.name@,
            descriptor: self.descriptor@,
            name_index: self.name_index,
            descriptor_index: self.descriptor_index,
            attributes: attribute_views(self.attributes@),
        }
    }
}

/// What decoding one field at `pos` gives, and where it leaves the cursor:
/// flags, name index and descriptor index, which both have to resolve to
/// text constants; then a count and that many attributes.
pub open spec fn parsed_field(b: Seq<u8>, cp: Seq<CpInfoView>, pos: int) -> (
    Result<FieldInfoView, DecodeError>,
    int,
) {
    let name_index = be_u16(b, pos + 2) as usize;
    let descriptor_index = be_u16(b, pos + 4) as usize;
    if !has_bytes(b, pos, 6) {
        (Err(DecodeError::EndOfData), stop_position(b, pos))
    } else if utf_at(cp, name_index as int) is None {
        (Err(DecodeError::BadIndex(name_index)), pos + 6)
    } else if utf_at(cp, descriptor_index as int) is None {
        (Err(DecodeError::BadIndex(descriptor_index)), pos + 6)
    } else if !has_bytes(b, pos + 6, 2) {
        out_of_data(b)
    } else {
        match parsed_attributes(b, cp, pos + 8, be_u16(b, pos + 6) as nat) {
            (Err(e), end) => (Err(e), end),
            (Ok(attributes), end) => (
                Ok(
                    FieldInfoView {
                        access_flags: FieldAccessFlags { bits: be_u16(b, pos) as usize },
                        name: utf_at(cp, name_index as int)->Some_0,
                        descriptor: utf_at(cp, descriptor_index as int)->Some_0,
                        name_index,
                        descriptor_index,
                        attributes,
                    },
                ),
                end,
            ),
        }
    }
}

impl FieldInfo {
    /// Decodes the field at the cursor and moves past it.
    ///
    /// The field is the one that `parsed_field` describes for the pool
    /// `cp`. Decoding fails with `EndOfData` when the buffer ends inside
    /// the field, with `BadIndex` when the name or the descriptor does not
    /// lead to a text constant, and with the failure of the first
    /// attribute that fails.
    pub fn parse(f: &mut ByteStream, cp: &CpPool) -> (r: Result<FieldInfo, DecodeError>)
        ensures
            final(f).v == old(f).v,
            agrees(r, parsed_field(old(f).bytes(), cp@, old(f).pos()).0),
            final(f).pos() == parsed_field(old(f).bytes(), cp@, old(f).pos()).1,
            r is Ok ==> old(f).pos() < final(f).pos() <= old(f).bytes().len(),
    {
        let access_flags = FieldAccessFlags { bits: f.read_u2()? };
        let name_index = f.read_u2()?;
        let descriptor_index = f.read_u2()?;
        let name = match cp.get_utf(name_index) {
            Some(text) => text.bytes.clone(),
            None => return Err(DecodeError::BadIndex(name_index)),
        };
        let descriptor = match cp.get_utf(descriptor_index) {
            Some(text) => text.bytes.clone(),
            None => return Err(DecodeError::BadIndex(descriptor_index)),
        };
        let attribute_count = f.read_u2()?;
        let attributes = parse_attributes(f, cp, attribute_count)?;
        Ok(FieldInfo { access_flags, name, descriptor, name_index, descriptor_index, attributes })
    }
}

} // verus!
