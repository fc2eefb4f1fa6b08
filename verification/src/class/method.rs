//! The methods of a class.

use crate::class::attribute::{
    attribute_views, parse_attributes, parsed_attributes, AttributeInfo, AttributeInfoView,
};
use crate::class::constant_pool::{utf_at, CpInfoView, CpPool};
use crate::error::DecodeError;
use crate::source::{agrees, be_u16, has_bytes, stop_position, ByteStream};
use vstd::prelude::*;

verus! {

/// The access flags of a method, as the bits of the file.
#[derive(Clone, Copy, Debug, PartialEq, Eq, Structural)]
pub struct MethodAccessFlags {
    pub bits: usize,
}

impl MethodAccessFlags {
    pub const PUBLIC: usize = 0x0001;

    pub const PRIVATE: usize = 0x0002;

    pub const PROTECTED: usize = 0x0004;

    pub const STATIC: usize = 0x0008;

    pub const FINAL: usize = 0x0010;

    pub const SYNCHRONIZED: usize = 0x0020;

    pub const BRIDGE: usize = 0x0040;

    pub const VARARGS: usize = 0x0080;

    pub const NATIVE: usize = 0x0100;

    pub const ABSTRACT: usize = 0x0400;

    pub const STRICT: usize = 0x0800;

    pub const SYNTHETIC: usize = 0x1000;

    /// Whether every bit of `mask` is set.
    pub fn contains(&self, mask: usize) -> (r: bool)
        ensures
            r == (self.bits & mask == mask),
    {
        self.bits & mask == mask
    }
}

/// A method of a class: its flags, its name and descriptor as text and as
/// pool indices, and its attributes, the method body among them.
#[derive(Debug)]
pub struct MethodInfo {
    pub access_flags: MethodAccessFlags,
    pub name: String,
    pub descriptor: String,
    pub name_index: usize,
    pub descriptor_index: usize,
    pub attributes: Vec<AttributeInfo>,
}

/// What a method holds.
pub struct MethodInfoView {
    pub access_flags: MethodAccessFlags,
    pub name: Seq<char>,
    pub descriptor: Seq<char>,
    pub name_index: usize,
    pub descriptor_index: usize,
    pub attributes: Seq<AttributeInfoView>,
}

impl View for MethodInfo {
    type V = MethodInfoView;

    open spec fn view(&self) -> MethodInfoView {
        MethodInfoView {
            access_flags: self.access_flags,
            name: self.name@,
            descriptor: self.descriptor@,
            name_index: self.name_index,
            descriptor_index: self.descriptor_index,
            attributes: attribute_views(self.attributes@),
        }
    }
}

/// What decoding one method at `pos` gives, and where it leaves the cursor:
/// flags, name index, descriptor index and the count of attributes; the two
/// indices have to resolve to text constants; then that many attributes.
pub open spec fn parsed_method(b: Seq<u8>, cp: Seq<CpInfoView>, pos: int) -> (
    Result<MethodInfoView, DecodeError>,
    int,
) {
    let name_index = be_u16(b, pos + 2) as usize;
    let descriptor_index = be_u16(b, pos + 4) as usize;
    if !has_bytes(b, pos, 8) {
        (Err(DecodeError::EndOfData), stop_position(b, pos))
    } else if utf_at(cp, name_index as int) is None {
        (Err(DecodeError::BadIndex(name_index)), pos + 8)
    } else if utf_at(cp, descriptor_index as int) is None {
        (Err(DecodeError::BadIndex(descriptor_index)), pos + 8)
    } else {
        match parsed_attributes(b, cp, pos + 8, be_u16(b, pos + 6) as nat) {
            (Err(e), end) => (Err(e), end),
            (Ok(attributes), end) => (
                Ok(
                    MethodInfoView {
                        access_flags: MethodAccessFlags { bits: be_u16(b, pos) as usize },
                        name: utf_at(cp, name_index as int)->Some_0,
                        descriptor: utf_at(cp, descriptor_index as int)->Some_0,
                        name_index,
                        descriptor_index,
                        attributes,
                    },
                ),
                end,
            ),
        }
    }
}

impl MethodInfo {
    /// Decodes the method at the cursor and moves past it.
    ///
    /// The method is the one that `parsed_method` describes for the pool
    /// `cp`. Decoding fails with `EndOfData` when the buffer ends inside
    /// the method, with `BadIndex` when the name or the descriptor does not
    /// lead to a text constant, and with the failure of the first
    /// attribute that fails.
    pub fn parse(f: &mut ByteStream, cp: &CpPool) -> (r: Result<MethodInfo, DecodeError>)
        ensures
            final(f).v == old(f).v,
            agrees(r, parsed_method(old(f).bytes(), cp@, old(f).pos()).0),
            final(f).pos() == parsed_method(old(f).bytes(), cp@, old(f).pos()).1,
            r is Ok ==> old(f).pos() < final(f).pos() <= old(f).bytes().len(),
    {
        let access_flags = MethodAccessFlags { bits: f.read_u2()? };
        let name_index = f.read_u2()?;
        let descriptor_index = f.read_u2()?;
        let attribute_count = f.read_u2()?;
        let name = match cp.get_utf(name_index) {
            Some(text) => text.bytes.clone(),
            None => return Err(DecodeError::BadIndex(name_index)),
        };
        let descriptor = match cp.get_utf(descriptor_index) {
            Some(text) => text.bytes.clone(),
            None => return Err(DecodeError::BadIndex(descriptor_index)),
        };
        let attributes = parse_attributes(f, cp, attribute_count)?;
        Ok(MethodInfo { access_flags, name, descriptor, name_index, descriptor_index, attributes })
    }
}

} // verus!
