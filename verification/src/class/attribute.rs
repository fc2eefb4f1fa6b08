//! Attributes: the named blocks that hang off a class, a field, a method or
//! a method body. Only the kinds that are needed to run a class are
//! decoded; any other name fails the decoding.

use crate::class::constant_pool::{out_of_data, utf_at, CpInfoView, CpPool};
use crate::code::{decode_instructions, decoded_from, offset_table, ops_of, starts_of, OpCode};
use crate::error::DecodeError;
use crate::source::{
    after, agrees, be_u16, be_u32, has_bytes, lemma_list_bounds, lemma_list_step, parsed_list,
    parsed_u2, stop_position, ByteStream,
};
use vstd::prelude::*;

verus! {

/// The body of an attribute. Only `Code`, `StackMapTable`, `SourceFile` and
/// `LineNumberTable` come out of the decoder.
#[derive(Debug)]
pub enum Attribute {
    Other(Vec<u8>),
    ConstantValue,
    Code(CodeAttribute),
    StackMapTable(StackMapTableAttribute),
    BootstrapMethods,
    NestHost,
    NestMembers,
    PermittedSubclasses,
    Exceptions,
    InnerClasses,
    EnclosingMethod,
    Synthetic,
    Signature,
    Record,
    SourceFile(SourceFileAttribute),
    LineNumberTable(LineNumberTableAttribute),
    LocalVariableTable,
    LocalVariableTypeTable,
    SourceDebugExtension,
    Deprecated,
    RuntimeVisibleAnnotations,
    RuntimeInvisibleAnnotations,
    RuntimeVisibleParameterAnnotations,
    RuntimeInvisibleParameterAnnotations,
    RuntimeVisibleTypeAnnotations,
    RuntimeInvisibleTypeAnnotations,
    AnnotationDefault,
    MethodParameters,
    Module,
    ModulePackages,
    ModuleMainClass,
}

/// The frames of a stack-map table.
#[derive(Clone, Debug)]
pub struct StackMapTableAttribute {
    pub entries: Vec<StackMapFrame>,
}

/// The name of the source file, by pool index and as text.
#[derive(Clone, Debug)]
pub struct SourceFileAttribute {
    pub sourcefile_index: usize,
    pub sourcefile: String,
}

/// The line-number table of a method body.
#[derive(Clone, Debug)]
pub struct LineNumberTableAttribute {
    pub line_number_table: Vec<LineNumber>,
}

/// The source line that starts at a byte offset of the code.
#[derive(Clone, Copy, Debug, PartialEq, Eq, Structural)]
pub struct LineNumber {
    pub start_pc: usize,
    pub line_number: usize,
}

/// The body of a method: its limits, the raw instruction stream, the
/// instructions decoded from it with both offset tables, the exception
/// table and the attributes nested in it.
#[derive(Debug)]
pub struct CodeAttribute {
    pub max_stack: usize,
    pub max_locals: usize,
    pub bytecode_to_op: Vec<usize>,
    pub op_to_bytecode: Vec<usize>,
    pub code: Vec<OpCode>,
    pub code_raw: Vec<u8>,
    pub exception_table: Vec<Exception>,
    pub attributes: Vec<AttributeInfo>,
}

/// One entry of an exception table.
#[derive(Clone, Copy, Debug, PartialEq, Eq, Structural)]
pub struct Exception {
    pub start_pc: usize,
    pub end_pc: usize,
    pub handler_pc: usize,
    pub catch_type: usize,
}

/// An attribute with its name, by pool index and as text.
#[derive(Debug)]
pub struct AttributeInfo {
    pub attribute_name: String,
    pub attribute_name_index: usize,
    pub attribute: Attribute,
}

/// One frame of a stack-map table. Only `SameFrame`, `ChopFrame` and
/// `AppendFrame` come out of the decoder.
#[derive(Clone, Debug)]
pub enum StackMapFrame {
    SameFrame { frame_type: usize },
    SameLocals1StackItemFrame,
    SameLocals1StackItemFrameExtended,
    ChopFrame { frame_type: usize, offset_delta: usize },
    SameFrameExtended,
    AppendFrame { frame_type: usize, offset_delta: usize, locals: Vec<VerificationTypeInfo> },
    FullFrame,
}

/// The type of one local or stack slot in a stack-map frame.
#[derive(Clone, Copy, Debug, PartialEq, Eq, Structural)]
pub enum VerificationTypeInfo {
    Top,
    Integer,
    Float,
    Long,
    Double,
    Null,
    UninitializedThis,
    Object(usize),
    Uninitialized(usize),
}

/// What a stack-map frame holds.
pub enum StackMapFrameView {
    SameFrame { frame_type: usize },
    SameLocals1StackItemFrame,
    SameLocals1StackItemFrameExtended,
    ChopFrame { frame_type: usize, offset_delta: usize },
    SameFrameExtended,
    AppendFrame { frame_type: usize, offset_delta: usize, locals: Seq<VerificationTypeInfo> },
    FullFrame,
}

/// What a source-file attribute holds.
pub struct SourceFileAttributeView {
    pub sourcefile_index: usize,
    pub sourcefile: Seq<char>,
}

/// What a method body holds.
pub struct CodeAttributeView {
    pub max_stack: usize,
    pub max_locals: usize,
    pub bytecode_to_op: Seq<usize>,
    pub op_to_bytecode: Seq<usize>,
    pub code: Seq<OpCode>,
    pub code_raw: Seq<u8>,
    pub exception_table: Seq<Exception>,
    pub attributes: Seq<AttributeInfoView>,
}

/// What the body of an attribute holds.
pub enum AttributeView {
    Other(Seq<u8>),
    ConstantValue,
    Code(CodeAttributeView),
    StackMapTable(Seq<StackMapFrameView>),
    BootstrapMethods,
    NestHost,
    NestMembers,
    PermittedSubclasses,
    Exceptions,
    InnerClasses,
    EnclosingMethod,
    Synthetic,
    Signature,
    Record,
    SourceFile(SourceFileAttributeView),
    LineNumberTable(Seq<LineNumber>),
    LocalVariableTable,
    LocalVariableTypeTable,
    SourceDebugExtension,
    Deprecated,
    RuntimeVisibleAnnotations,
    RuntimeInvisibleAnnotations,
    RuntimeVisibleParameterAnnotations,
    RuntimeInvisibleParameterAnnotations,
    RuntimeVisibleTypeAnnotations,
    RuntimeInvisibleTypeAnnotations,
    AnnotationDefault,
    MethodParameters,
    Module,
    ModulePackages,
    ModuleMainClass,
}

/// What an attribute holds.
pub struct AttributeInfoView {
    pub attribute_name: Seq<char>,
    pub attribute_name_index: usize,
    pub attribute: AttributeView,
}

impl View for StackMapFrame {
    type V = StackMapFrameView;

    open spec fn view(&self) -> StackMapFrameView {
        match *self {
            StackMapFrame::SameFrame { frame_type } => StackMapFrameView::SameFrame { frame_type },
            StackMapFrame::SameLocals1StackItemFrame => StackMapFrameView::SameLocals1StackItemFrame,
            StackMapFrame::SameLocals1StackItemFrameExtended => {
                StackMapFrameView::SameLocals1StackItemFrameExtended
            },
            StackMapFrame::ChopFrame { frame_type, offset_delta } => StackMapFrameView::ChopFrame {
                frame_type,
                offset_delta,
            },
            StackMapFrame::SameFrameExtended => StackMapFrameView::SameFrameExtended,
            StackMapFrame::AppendFrame {
                frame_type,
                offset_delta,
                locals,
            } => StackMapFrameView::AppendFrame { frame_type, offset_delta, locals: locals@ },
            StackMapFrame::FullFrame => StackMapFrameView::FullFrame,
        }
    }
}

impl View for StackMapTableAttribute {
    type V = Seq<StackMapFrameView>;

    open spec fn view(&self) -> Seq<StackMapFrameView> {
        self.entries@.map_values(|e: StackMapFrame| e@)
    }
}

impl View for SourceFileAttribute {
    type V = SourceFileAttributeView;

    open spec fn view(&self) -> SourceFileAttributeView {
        SourceFileAttributeView {
            sourcefile_index: self.sourcefile_index,
            sourcefile: self.sourcefile@,
        }
    }
}

impl View for LineNumberTableAttribute {
    type V = Seq<LineNumber>;

    open spec fn view(&self) -> Seq<LineNumber> {
        self.line_number_table@
    }
}

/// What the attributes of a list hold, in order.
pub open spec fn attribute_views(items: Seq<AttributeInfo>) -> Seq<AttributeInfoView>
    decreases items,
{
    Seq::new(
        items.len(),
        |k: int|
            if 0 <= k < items.len() {
                attribute_info_view(items[k])
            } else {
                arbitrary()
            },
    )
}

/// What an attribute holds.
pub open spec fn attribute_info_view(a: AttributeInfo) -> AttributeInfoView
    decreases a,
{
    AttributeInfoView {
        attribute_name: a.attribute_name@,
        attribute_name_index: a.attribute_name_index,
        attribute: attribute_view(a.attribute),
    }
}

/// What a method body holds.
pub open spec fn code_view(c: CodeAttribute) -> CodeAttributeView
    decreases c,
{
    CodeAttributeView {
        max_stack: c.max_stack,
        max_locals: c.max_locals,
        bytecode_to_op: c.bytecode_to_op@,
        op_to_bytecode: c.op_to_bytecode@,
        code: c.code@,
        code_raw: c.code_raw@,
        exception_table: c.exception_table@,
        attributes: {
            proof {
                vstd::std_specs::vec::axiom_vec_decreases_to_view(c.attributes);
            }
            attribute_views(c.attributes@)
        },
    }
}

/// What the body of an attribute holds.
pub open spec fn attribute_view(a: Attribute) -> AttributeView
    decreases a,
{
    match a {
        Attribute::Other(x) => AttributeView::Other(x@),
        Attribute::ConstantValue => AttributeView::ConstantValue,
        Attribute::Code(x) => AttributeView::Code(code_view(x)),
        Attribute::StackMapTable(x) => AttributeView::StackMapTable(x@),
        Attribute::BootstrapMethods => AttributeView::BootstrapMethods,
        Attribute::NestHost => AttributeView::NestHost,
        Attribute::NestMembers => AttributeView::NestMembers,
        Attribute::PermittedSubclasses => AttributeView::PermittedSubclasses,
        Attribute::Exceptions => AttributeView::Exceptions,
        Attribute::InnerClasses => AttributeView::InnerClasses,
        Attribute::EnclosingMethod => AttributeView::EnclosingMethod,
        Attribute::Synthetic => AttributeView::Synthetic,
        Attribute::Signature => AttributeView::Signature,
        Attribute::Record => AttributeView::Record,
        Attribute::SourceFile(x) => AttributeView::SourceFile(x@),
        Attribute::LineNumberTable(x) => AttributeView::LineNumberTable(x@),
        Attribute::LocalVariableTable => AttributeView::LocalVariableTable,
        Attribute::LocalVariableTypeTable => AttributeView::LocalVariableTypeTable,
        Attribute::SourceDebugExtension => AttributeView::SourceDebugExtension,
        Attribute::Deprecated => AttributeView::Deprecated,
        Attribute::RuntimeVisibleAnnotations => AttributeView::RuntimeVisibleAnnotations,
        Attribute::RuntimeInvisibleAnnotations => AttributeView::RuntimeInvisibleAnnotations,
        Attribute::RuntimeVisibleParameterAnnotations => {
            AttributeView::RuntimeVisibleParameterAnnotations
        },
        Attribute::RuntimeInvisibleParameterAnnotations => {
            AttributeView::RuntimeInvisibleParameterAnnotations
        },
        Attribute::RuntimeVisibleTypeAnnotations => AttributeView::RuntimeVisibleTypeAnnotations,
        Attribute::RuntimeInvisibleTypeAnnotations => AttributeView::RuntimeInvisibleTypeAnnotations,
        Attribute::AnnotationDefault => AttributeView::AnnotationDefault,
        Attribute::MethodParameters => AttributeView::MethodParameters,
        Attribute::Module => AttributeView::Module,
        Attribute::ModulePackages => AttributeView::ModulePackages,
        Attribute::ModuleMainClass => AttributeView::ModuleMainClass,
    }
}

impl View for CodeAttribute {
    type V = CodeAttributeView;

    open spec fn view(&self) -> CodeAttributeView {
        code_view(*self)
    }
}

impl View for Attribute {
    type V = AttributeView;

    open spec fn view(&self) -> AttributeView {
        attribute_view(*self)
    }
}

impl View for AttributeInfo {
    type V = AttributeInfoView;

    open spec fn view(&self) -> AttributeInfoView {
        attribute_info_view(*self)
    }
}

/// What decoding one verification type at `pos` gives, and where it leaves
/// the cursor: a tag, and for two of the tags a two-byte payload.
pub open spec fn parsed_verification_type(b: Seq<u8>, pos: int) -> (
    Result<VerificationTypeInfo, DecodeError>,
    int,
) {
    if !has_bytes(b, pos, 1) {
        (Err(DecodeError::EndOfData), pos)
    } else {
        let tag = b[pos];
        let payload = be_u16(b, pos + 1) as usize;
        if tag == 0 {
            (Ok(VerificationTypeInfo::Top), pos + 1)
        } else if tag == 1 {
            (Ok(VerificationTypeInfo::Integer), pos + 1)
        } else if tag == 2 {
            (Ok(VerificationTypeInfo::Float), pos + 1)
        } else if tag == 3 {
            (Ok(VerificationTypeInfo::Double), pos + 1)
        } else if tag == 4 {
            (Ok(VerificationTypeInfo::Long), pos + 1)
        } else if tag == 5 {
            (Ok(VerificationTypeInfo::Null), pos + 1)
        } else if tag == 6 {
            (Ok(VerificationTypeInfo::UninitializedThis), pos + 1)
        } else if tag == 7 || tag == 8 {
            if !has_bytes(b, pos + 1, 2) {
                out_of_data(b)
            } else if tag == 7 {
                (Ok(VerificationTypeInfo::Object(payload)), pos + 3)
            } else {
                (Ok(VerificationTypeInfo::Uninitialized(payload)), pos + 3)
            }
        } else {
            (Err(DecodeError::UnknownVerificationType(tag)), pos + 1)
        }
    }
}

/// What decoding one stack-map frame at `pos` gives, and where it leaves
/// the cursor. The type byte decides the kind of frame: up to 63 the same
/// frame, 248 to 250 a chop frame with an offset, 252 to 254 an append
/// frame with an offset and one to three verification types. Any other
/// type byte fails.
pub open spec fn parsed_frame(b: Seq<u8>, pos: int) -> (Result<StackMapFrameView, DecodeError>, int) {
    if !has_bytes(b, pos, 1) {
        (Err(DecodeError::EndOfData), pos)
    } else {
        let frame_type = b[pos] as usize;
        let offset_delta = be_u16(b, pos + 1) as usize;
        if frame_type <= 63 {
            (Ok(StackMapFrameView::SameFrame { frame_type }), pos + 1)
        } else if 248 <= frame_type <= 250 {
            if !has_bytes(b, pos + 1, 2) {
                out_of_data(b)
            } else {
                (Ok(StackMapFrameView::ChopFrame { frame_type, offset_delta }), pos + 3)
            }
        } else if 252 <= frame_type <= 254 {
            if !has_bytes(b, pos + 1, 2) {
                out_of_data(b)
            } else {
                let (locals, next) = parsed_list(
                    b,
                    pos + 3,
                    (frame_type - 251) as nat,
                    |b: Seq<u8>, p: int| parsed_verification_type(b, p),
                );
                match locals {
                    Ok(locals) => (
                        Ok(StackMapFrameView::AppendFrame { frame_type, offset_delta, locals }),
                        next,
                    ),
                    Err(e) => (Err(e), next),
                }
            }
        } else {
            (Err(DecodeError::UnknownFrameType(b[pos])), pos + 1)
        }
    }
}

impl VerificationTypeInfo {
    /// Decodes the verification type at the cursor and moves past it.
    ///
    /// The type is the one that `parsed_verification_type` describes.
    /// Decoding fails with `EndOfData` when the buffer ends inside it and
    /// with `UnknownVerificationType` on a tag above 8.
    pub fn parse(f: &mut ByteStream) -> (r: Result<VerificationTypeInfo, DecodeError>)
        ensures
            final(f).v == old(f).v,
            r == parsed_verification_type(old(f).bytes(), old(f).pos()).0,
            final(f).pos() == parsed_verification_type(old(f).bytes(), old(f).pos()).1,
    {
        let tag: u8 = f.read_u1()?;
        let res = match tag {
            0 => VerificationTypeInfo::Top,
            1 => VerificationTypeInfo::Integer,
            2 => VerificationTypeInfo::Float,
            3 => VerificationTypeInfo::Double,
            4 => VerificationTypeInfo::Long,
            5 => VerificationTypeInfo::Null,
            6 => VerificationTypeInfo::UninitializedThis,
            7 => VerificationTypeInfo::Object(f.read_u2()?),
            8 => VerificationTypeInfo::Uninitialized(f.read_u2()?),
            other => return Err(DecodeError::UnknownVerificationType(other)),
        };
        Ok(res)
    }
}

impl StackMapFrame {
    /// Decodes the stack-map frame at the cursor and moves past it. The
    /// constant pool plays no part in it.
    ///
    /// The frame is the one that `parsed_frame` describes. Decoding fails
    /// with `EndOfData` when the buffer ends inside the frame, with
    /// `UnknownFrameType` on a type byte outside the supported ranges, and
    /// with the failure of the first verification type that fails.
    #[verifier::loop_isolation(false)]
    pub fn parse(f: &mut ByteStream, _cp: &CpPool) -> (r: Result<StackMapFrame, DecodeError>)
        ensures
            final(f).v == old(f).v,
            agrees(r, parsed_frame(old(f).bytes(), old(f).pos()).0),
            final(f).pos() == parsed_frame(old(f).bytes(), old(f).pos()).1,
            r is Ok ==> old(f).pos() < final(f).pos() <= old(f).bytes().len(),
    {
        let tag: u8 = f.read_u1()?;
        let frame_type: usize = tag as usize;
        if frame_type <= 63 {
            Ok(StackMapFrame::SameFrame { frame_type })
        } else if 248 <= frame_type && frame_type <= 250 {
            let offset_delta = f.read_u2()?;
            Ok(StackMapFrame::ChopFrame { frame_type, offset_delta })
        } else if 252 <= frame_type && frame_type <= 254 {
            let offset_delta = f.read_u2()?;
            let capacity: usize = frame_type - 251;
            let ghost start = f.pos();
            let ghost item = |b: Seq<u8>, p: int| parsed_verification_type(b, p);
            let mut locals: Vec<VerificationTypeInfo> = Vec::new();
            let mut n: usize = 0;
            proof {
                lemma_list_step(
                    Seq::<VerificationTypeInfo>::empty(),
                    arbitrary(),
                    parsed_list(f.bytes(), start, capacity as nat, item),
                );
            }
            while n < capacity
                invariant
                    f.v == old(f).v,
                    n <= capacity,
                    start <= f.pos() <= f.bytes().len(),
                    parsed_list(f.bytes(), start, capacity as nat, item) == after(
                        locals@,
                        parsed_list(f.bytes(), f.pos(), (capacity - n) as nat, item),
                    ),
                decreases capacity - n,
            {
                let ghost done = locals@;
                let local = VerificationTypeInfo::parse(f)?;
                proof {
                    lemma_list_step(
                        done,
                        local,
                        parsed_list(f.bytes(), f.pos(), (capacity - n - 1) as nat, item),
                    );
                }
                locals.push(local);
                n = n + 1;
            }
            proof {
                lemma_list_step(locals@, arbitrary(), (Ok(Seq::empty()), f.pos()));
            }
            Ok(StackMapFrame::AppendFrame { frame_type, offset_delta, locals })
        } else {
            Err(DecodeError::UnknownFrameType(tag))
        }
    }
}

/// The exception-table entry whose four two-byte fields start at `p`.
pub open spec fn exception_at(b: Seq<u8>, p: int) -> Exception {
    Exception {
        start_pc: be_u16(b, p) as usize,
        end_pc: be_u16(b, p + 2) as usize,
        handler_pc: be_u16(b, p + 4) as usize,
        catch_type: be_u16(b, p + 6) as usize,
    }
}

/// What decoding an exception table at `pos` gives, and where it leaves the
/// cursor: a two-byte count, then that many entries of eight bytes.
pub open spec fn parsed_exceptions(b: Seq<u8>, pos: int) -> (Result<Seq<Exception>, DecodeError>, int) {
    if !has_bytes(b, pos, 2) {
        (Err(DecodeError::EndOfData), stop_position(b, pos))
    } else if !has_bytes(b, pos + 2, 8 * be_u16(b, pos)) {
        out_of_data(b)
    } else {
        (
            Ok(Seq::new(be_u16(b, pos) as nat, |k: int| exception_at(b, pos + 2 + 8 * k))),
            pos + 2 + 8 * be_u16(b, pos),
        )
    }
}

/// The line-number entry whose two two-byte fields start at `p`.
pub open spec fn line_number_at(b: Seq<u8>, p: int) -> LineNumber {
    LineNumber { start_pc: be_u16(b, p) as usize, line_number: be_u16(b, p + 2) as usize }
}

/// What decoding a line-number table at `pos` gives, and where it leaves
/// the cursor: a two-byte count, then that many entries of four bytes.
pub open spec fn parsed_line_numbers(b: Seq<u8>, pos: int) -> (
    Result<Seq<LineNumber>, DecodeError>,
    int,
) {
    if !has_bytes(b, pos, 2) {
        (Err(DecodeError::EndOfData), stop_position(b, pos))
    } else if !has_bytes(b, pos + 2, 4 * be_u16(b, pos)) {
        out_of_data(b)
    } else {
        (
            Ok(Seq::new(be_u16(b, pos) as nat, |k: int| line_number_at(b, pos + 2 + 4 * k))),
            pos + 2 + 4 * be_u16(b, pos),
        )
    }
}

/// What decoding a source-file attribute at `pos` gives, and where it
/// leaves the cursor: the index of a text constant, which has to resolve.
pub open spec fn parsed_source_file(b: Seq<u8>, cp: Seq<CpInfoView>, pos: int) -> (
    Result<SourceFileAttributeView, DecodeError>,
    int,
) {
    match parsed_u2(b, pos) {
        (Err(e), p) => (Err(e), p),
        (Ok(index), p) => match utf_at(cp, index as int) {
            None => (Err(DecodeError::BadIndex(index)), p),
            Some(text) => (
                Ok(SourceFileAttributeView { sourcefile_index: index, sourcefile: text }),
                p,
            ),
        },
    }
}

/// What decoding a stack-map table at `pos` gives, and where it leaves the
/// cursor: a two-byte count, then that many frames.
pub open spec fn parsed_stack_map(b: Seq<u8>, pos: int) -> (
    Result<Seq<StackMapFrameView>, DecodeError>,
    int,
) {
    match parsed_u2(b, pos) {
        (Err(e), p) => (Err(e), p),
        (Ok(n), p) => parsed_list(b, p, n as nat, |b: Seq<u8>, p: int| parsed_frame(b, p)),
    }
}

/// What decoding `n` attributes in a row from `pos` gives, and where it
/// leaves the cursor. The first failure ends the list. (By
/// `lemma_attribute_bounds` an attribute that decodes ends behind its
/// start and inside the buffer, so the last case never comes up.)
pub open spec fn parsed_attributes(b: Seq<u8>, cp: Seq<CpInfoView>, pos: int, n: nat) -> (
    Result<Seq<AttributeInfoView>, DecodeError>,
    int,
)
    decreases b.len() - pos, 1nat,
{
    if n == 0 {
        (Ok(Seq::empty()), pos)
    } else {
        let (first, next) = parsed_attribute(b, cp, pos);
        match first {
            Err(e) => (Err(e), next),
            Ok(x) => if pos < next <= b.len() {
                after(seq![x], parsed_attributes(b, cp, next, (n - 1) as nat))
            } else {
                (Err(DecodeError::EndOfData), next)
            },
        }
    }
}

/// What decoding the body of a `Code` attribute at `pos` gives, and where
/// it leaves the cursor: both limits, the length of the instruction stream
/// and the stream itself, which is split into instructions at once; then
/// the exception table and the nested attributes.
pub open spec fn parsed_code(b: Seq<u8>, cp: Seq<CpInfoView>, pos: int) -> (
    Result<CodeAttributeView, DecodeError>,
    int,
)
    decreases b.len() - pos, 0nat,
{
    let code_start = pos + 8;
    let code_end = code_start + be_u32(b, pos + 4);
    if !has_bytes(b, pos, 8) {
        (Err(DecodeError::EndOfData), stop_position(b, pos))
    } else if !has_bytes(b, code_start, be_u32(b, pos + 4)) {
        out_of_data(b)
    } else {
        let code_raw = b.subrange(code_start, code_end);
        match decoded_from(code_raw, 0) {
            Err(e) => (Err(e), code_end),
            Ok(ins) => match parsed_exceptions(b, code_end) {
                (Err(e), p) => (Err(e), p),
                (Ok(exception_table), p) => if !has_bytes(b, p, 2) {
                    out_of_data(b)
                } else {
                    match parsed_attributes(b, cp, p + 2, be_u16(b, p) as nat) {
                        (Err(e), end) => (Err(e), end),
                        (Ok(attributes), end) => (
                            Ok(
                                CodeAttributeView {
                                    max_stack: be_u16(b, pos) as usize,
                                    max_locals: be_u16(b, pos + 2) as usize,
                                    bytecode_to_op: offset_table(starts_of(ins), code_raw.len()),
                                    op_to_bytecode: starts_of(ins),
                                    code: ops_of(ins),
                                    code_raw,
                                    exception_table,
                                    attributes,
                                },
                            ),
                            end,
                        ),
                    }
                },
            },
        }
    }
}

/// What decoding one attribute at `pos` gives, and where it leaves the
/// cursor: the index of its name, which has to resolve to a text constant,
/// a four-byte length that plays no part, and the body that the name calls
/// for. A name other than the four that are supported fails.
pub open spec fn parsed_attribute(b: Seq<u8>, cp: Seq<CpInfoView>, pos: int) -> (
    Result<AttributeInfoView, DecodeError>,
    int,
)
    decreases b.len() - pos, 0nat,
{
    if !has_bytes(b, pos, 2) {
        (Err(DecodeError::EndOfData), stop_position(b, pos))
    } else {
        let attribute_name_index = be_u16(b, pos) as usize;
        match utf_at(cp, attribute_name_index as int) {
            None => (Err(DecodeError::BadIndex(attribute_name_index)), pos + 2),
            Some(attribute_name) => if !has_bytes(b, pos + 2, 4) {
                out_of_data(b)
            } else {
                let (body, end) = if attribute_name == "Code"@ {
                    match parsed_code(b, cp, pos + 6) {
                        (Ok(x), p) => (Ok(AttributeView::Code(x)), p),
                        (Err(e), p) => (Err(e), p),
                    }
                } else if attribute_name == "LineNumberTable"@ {
                    match parsed_line_numbers(b, pos + 6) {
                        (Ok(x), p) => (Ok(AttributeView::LineNumberTable(x)), p),
                        (Err(e), p) => (Err(e), p),
                    }
                } else if attribute_name == "SourceFile"@ {
                    match parsed_source_file(b, cp, pos + 6) {
                        (Ok(x), p) => (Ok(AttributeView::SourceFile(x)), p),
                        (Err(e), p) => (Err(e), p),
                    }
                } else if attribute_name == "StackMapTable"@ {
                    match parsed_stack_map(b, pos + 6) {
                        (Ok(x), p) => (Ok(AttributeView::StackMapTable(x)), p),
                        (Err(e), p) => (Err(e), p),
                    }
                } else {
                    (Err(DecodeError::UnknownAttribute(attribute_name_index)), pos + 6)
                };
                match body {
                    Ok(attribute) => (
                        Ok(AttributeInfoView { attribute_name, attribute_name_index, attribute }),
                        end,
                    ),
                    Err(e) => (Err(e), end),
                }
            },
        }
    }
}

/// A stack-map frame that decodes ends behind its start and inside the
/// buffer.
pub proof fn lemma_frame_bounds(b: Seq<u8>, pos: int)
    requires
        0 <= pos,
    ensures
        parsed_frame(b, pos).0 is Ok ==> pos < parsed_frame(b, pos).1 <= b.len(),
{
    if has_bytes(b, pos, 3) && 252 <= b[pos] <= 254 {
        let item = |b: Seq<u8>, p: int| parsed_verification_type(b, p);
        lemma_list_bounds(b, pos + 3, (b[pos] - 251) as nat, item);
    }
}

/// An attribute that decodes ends behind its start and inside the buffer:
/// its name index and its length alone take six bytes.
pub proof fn lemma_attribute_bounds(b: Seq<u8>, cp: Seq<CpInfoView>, pos: int)
    requires
        0 <= pos,
    ensures
        parsed_attribute(b, cp, pos).0 is Ok ==> pos + 6 <= parsed_attribute(b, cp, pos).1
            <= b.len(),
    decreases b.len() - pos, 0nat,
{
    if parsed_attribute(b, cp, pos).0 is Ok {
        let name = utf_at(cp, be_u16(b, pos) as usize as int)->Some_0;
        if name == "Code"@ {
            lemma_code_bounds(b, cp, pos + 6);
        } else if name == "LineNumberTable"@ {
        } else if name == "SourceFile"@ {
        } else if name == "StackMapTable"@ {
            let item = |b: Seq<u8>, p: int| parsed_frame(b, p);
            assert forall|p: int| 0 <= p <= b.len() && (#[trigger] item(b, p)).0 is Ok implies p
                <= item(b, p).1 <= b.len() by {
                lemma_frame_bounds(b, p);
            }
            lemma_list_bounds(b, pos + 8, be_u16(b, pos + 6) as usize as nat, item);
        }
    }
}

proof fn lemma_code_bounds(b: Seq<u8>, cp: Seq<CpInfoView>, pos: int)
    requires
        0 <= pos,
    ensures
        parsed_code(b, cp, pos).0 is Ok ==> pos <= parsed_code(b, cp, pos).1 <= b.len(),
    decreases b.len() - pos, 0nat,
{
    if parsed_code(b, cp, pos).0 is Ok {
        let code_end = pos + 8 + be_u32(b, pos + 4);
        let p = parsed_exceptions(b, code_end).1;
        lemma_attributes_bounds(b, cp, p + 2, be_u16(b, p) as nat);
    }
}

/// A list of attributes that decodes ends inside the buffer and not before
/// its start.
pub proof fn lemma_attributes_bounds(b: Seq<u8>, cp: Seq<CpInfoView>, pos: int, n: nat)
    requires
        0 <= pos <= b.len(),
    ensures
        parsed_attributes(b, cp, pos, n).0 is Ok ==> pos <= parsed_attributes(b, cp, pos, n).1
            <= b.len(),
    decreases b.len() - pos, 1nat, n,
{
    if n > 0 && parsed_attribute(b, cp, pos).0 is Ok {
        lemma_attribute_bounds(b, cp, pos);
        lemma_attributes_bounds(b, cp, parsed_attribute(b, cp, pos).1, (n - 1) as nat);
    }
}

/// Whether the text `s` reads as `literal`.
pub fn text_is(s: &String, literal: &str) -> (r: bool)
    ensures
        r == (s@ == literal@),
{
    let other = literal.to_owned();
    *s == other
}

/// What reading `n` raw bytes at `pos` gives, and where it leaves the
/// cursor.
pub open spec fn parsed_bytes(b: Seq<u8>, pos: int, n: int) -> (Result<Seq<u8>, DecodeError>, int) {
    if n <= 0 {
        (Ok(Seq::empty()), pos)
    } else if has_bytes(b, pos, n) {
        (Ok(b.subrange(pos, pos + n)), pos + n)
    } else {
        (Err(DecodeError::EndOfData), stop_position(b, pos))
    }
}

/// Reads `n` bytes at the cursor into a buffer of their own.
#[verifier::loop_isolation(false)]
pub fn read_bytes(f: &mut ByteStream, n: usize) -> (r: Result<Vec<u8>, DecodeError>)
    ensures
        final(f).v == old(f).v,
        agrees(r, parsed_bytes(old(f).bytes(), old(f).pos(), n as int).0),
        final(f).pos() == parsed_bytes(old(f).bytes(), old(f).pos(), n as int).1,
{
    let mut bytes: Vec<u8> = Vec::new();
    let mut k: usize = 0;
    while k < n
        invariant
            f.v == old(f).v,
            k <= n,
            f.pos() == old(f).pos() + k,
            k > 0 ==> has_bytes(f.bytes(), old(f).pos(), k as int),
            bytes@.len() == k,
            forall|j: int| 0 <= j < k ==> bytes@[j] == f.bytes()[old(f).pos() + j],
        decreases n - k,
    {
        let x = f.read_u1()?;
        bytes.push(x);
        k = k + 1;
    }
    assert(n > 0 ==> bytes@ == f.bytes().subrange(old(f).pos(), old(f).pos() + n));
    assert(n == 0 ==> bytes@ == Seq::<u8>::empty());
    Ok(bytes)
}

#[verifier::loop_isolation(false)]
fn parse_exceptions(f: &mut ByteStream) -> (r: Result<Vec<Exception>, DecodeError>)
    ensures
        final(f).v == old(f).v,
        agrees(r, parsed_exceptions(old(f).bytes(), old(f).pos()).0),
        final(f).pos() == parsed_exceptions(old(f).bytes(), old(f).pos()).1,
{
    let exception_table_length = f.read_u2()?;
    let ghost start = f.pos();
    let mut exception_table: Vec<Exception> = Vec::new();
    let mut n: usize = 0;
    while n < exception_table_length
        invariant
            f.v == old(f).v,
            n <= exception_table_length,
            f.pos() == start + 8 * n,
            has_bytes(f.bytes(), start, 8 * n),
            exception_table@ == Seq::new(n as nat, |k: int| exception_at(f.bytes(), start + 8 * k)),
        decreases exception_table_length - n,
    {
        let start_pc = f.read_u2()?;
        let end_pc = f.read_u2()?;
        let handler_pc = f.read_u2()?;
        let catch_type = f.read_u2()?;
        exception_table.push(Exception { start_pc, end_pc, handler_pc, catch_type });
        n = n + 1;
    }
    Ok(exception_table)
}

#[verifier::loop_isolation(false)]
fn parse_line_numbers(f: &mut ByteStream) -> (r: Result<Vec<LineNumber>, DecodeError>)
    ensures
        final(f).v == old(f).v,
        agrees(r, parsed_line_numbers(old(f).bytes(), old(f).pos()).0),
        final(f).pos() == parsed_line_numbers(old(f).bytes(), old(f).pos()).1,
{
    let line_number_table_length = f.read_u2()?;
    let ghost start = f.pos();
    let mut line_number_table: Vec<LineNumber> = Vec::new();
    let mut n: usize = 0;
    while n < line_number_table_length
        invariant
            f.v == old(f).v,
            n <= line_number_table_length,
            f.pos() == start + 4 * n,
            has_bytes(f.bytes(), start, 4 * n),
            line_number_table@ == Seq::new(
                n as nat,
                |k: int| line_number_at(f.bytes(), start + 4 * k),
            ),
        decreases line_number_table_length - n,
    {
        let start_pc = f.read_u2()?;
        let line_number = f.read_u2()?;
        line_number_table.push(LineNumber { start_pc, line_number });
        n = n + 1;
    }
    Ok(line_number_table)
}

#[verifier::loop_isolation(false)]
fn parse_stack_map(f: &mut ByteStream, cp: &CpPool) -> (r: Result<
    StackMapTableAttribute,
    DecodeError,
>)
    ensures
        final(f).v == old(f).v,
        agrees(r, parsed_stack_map(old(f).bytes(), old(f).pos()).0),
        final(f).pos() == parsed_stack_map(old(f).bytes(), old(f).pos()).1,
        r is Ok ==> old(f).pos() < final(f).pos() <= old(f).bytes().len(),
{
    let number_of_entries = f.read_u2()?;
    let ghost start = f.pos();
    let ghost item = |b: Seq<u8>, p: int| parsed_frame(b, p);
    let mut entries: Vec<StackMapFrame> = Vec::new();
    let mut n: usize = 0;
    proof {
        lemma_list_step(
            Seq::<StackMapFrameView>::empty(),
            arbitrary(),
            parsed_list(f.bytes(), start, number_of_entries as nat, item),
        );
    }
    while n < number_of_entries
        invariant
            f.v == old(f).v,
            n <= number_of_entries,
            start <= f.pos() <= f.bytes().len(),
            parsed_list(f.bytes(), start, number_of_entries as nat, item) == after(
                entries@.map_values(|e: StackMapFrame| e@),
                parsed_list(f.bytes(), f.pos(), (number_of_entries - n) as nat, item),
            ),
        decreases number_of_entries - n,
    {
        let ghost done = entries@.map_values(|e: StackMapFrame| e@);
        let frame = StackMapFrame::parse(f, cp)?;
        proof {
            lemma_list_step(
                done,
                frame@,
                parsed_list(f.bytes(), f.pos(), (number_of_entries - n - 1) as nat, item),
            );
            assert(entries@.push(frame).map_values(|e: StackMapFrame| e@) == done.push(frame@));
        }
        entries.push(frame);
        n = n + 1;
    }
    proof {
        lemma_list_step(
            entries@.map_values(|e: StackMapFrame| e@),
            arbitrary(),
            (Ok(Seq::empty()), f.pos()),
        );
    }
    Ok(StackMapTableAttribute { entries })
}

/// Decodes `count` attributes in a row at the cursor and moves past them.
///
/// The attributes are the ones that `parsed_attributes` describes; the
/// first one that fails to decode fails the list with its own failure.
#[verifier::loop_isolation(false)]
pub fn parse_attributes(f: &mut ByteStream, cp: &CpPool, count: usize) -> (r: Result<
    Vec<AttributeInfo>,
    DecodeError,
>)
    ensures
        final(f).v == old(f).v,
        match parsed_attributes(old(f).bytes(), cp@, old(f).pos(), count as nat).0 {
            Ok(v) => r matches Ok(x) && attribute_views(x@) == v,
            Err(e) => r matches Err(x) && x == e,
        },
        final(f).pos() == parsed_attributes(old(f).bytes(), cp@, old(f).pos(), count as nat).1,
        r is Ok ==> old(f).pos() <= final(f).pos() <= old(f).bytes().len() || count == 0,
    decreases old(f).bytes().len() - old(f).pos(), 1nat,
{
    let ghost start = f.pos();
    let mut attributes: Vec<AttributeInfo> = Vec::new();
    let mut n: usize = 0;
    proof {
        lemma_list_step(
            Seq::<AttributeInfoView>::empty(),
            arbitrary(),
            parsed_attributes(f.bytes(), cp@, start, count as nat),
        );
    }
    while n < count
        invariant
            f.v == old(f).v,
            n <= count,
            start <= f.pos(),
            n == 0 ==> f.pos() == start,
            n > 0 ==> f.pos() <= f.bytes().len(),
            parsed_attributes(f.bytes(), cp@, start, count as nat) == after(
                attribute_views(attributes@),
                parsed_attributes(f.bytes(), cp@, f.pos(), (count - n) as nat),
            ),
        decreases count - n,
    {
        let ghost done = attribute_views(attributes@);
        let attribute = AttributeInfo::parse(f, cp)?;
        proof {
            lemma_list_step(
                done,
                attribute@,
                parsed_attributes(f.bytes(), cp@, f.pos(), (count - n - 1) as nat),
            );
            assert(attribute_views(attributes@.push(attribute)) == done.push(attribute@));
        }
        attributes.push(attribute);
        n = n + 1;
    }
    proof {
        lemma_list_step(attribute_views(attributes@), arbitrary(), (Ok(Seq::empty()), f.pos()));
    }
    Ok(attributes)
}

fn parse_code(f: &mut ByteStream, cp: &CpPool) -> (r: Result<CodeAttribute, DecodeError>)
    ensures
        final(f).v == old(f).v,
        agrees(r, parsed_code(old(f).bytes(), cp@, old(f).pos()).0),
        final(f).pos() == parsed_code(old(f).bytes(), cp@, old(f).pos()).1,
        r is Ok ==> old(f).pos() <= final(f).pos() <= old(f).bytes().len(),
    decreases old(f).bytes().len() - old(f).pos(), 0nat,
{
    let max_stack = f.read_u2()?;
    let max_locals = f.read_u2()?;
    let code_length = f.read_u4()?;
    let code_raw = read_bytes(f, code_length)?;
    let decoded = decode_instructions(&code_raw)?;
    let exception_table = parse_exceptions(f)?;
    let attributes_count = f.read_u2()?;
    let attributes = parse_attributes(f, cp, attributes_count)?;
    assert(code_raw@ == old(f).bytes().subrange(
        old(f).pos() + 8,
        old(f).pos() + 8 + be_u32(old(f).bytes(), old(f).pos() + 4),
    ));
    Ok(
        CodeAttribute {
            max_stack,
            max_locals,
            bytecode_to_op: decoded.bytecode_to_op,
            op_to_bytecode: decoded.op_to_bytecode,
            code: decoded.code,
            code_raw,
            exception_table,
            attributes,
        },
    )
}

impl AttributeInfo {
    /// Decodes the attribute at the cursor and moves past it.
    ///
    /// The attribute is the one that `parsed_attribute` describes for the
    /// pool `cp`. Decoding fails with `EndOfData` when the buffer ends
    /// inside the attribute, with `BadIndex` when a name index does not
    /// lead to a text constant, with `UnknownAttribute` on a name other
    /// than `Code`, `LineNumberTable`, `SourceFile` and `StackMapTable`,
    /// and with the failure of whatever part of the body fails first.
    pub fn parse(f: &mut ByteStream, cp: &CpPool) -> (r: Result<AttributeInfo, DecodeError>)
        ensures
            final(f).v == old(f).v,
            agrees(r, parsed_attribute(old(f).bytes(), cp@, old(f).pos()).0),
            final(f).pos() == parsed_attribute(old(f).bytes(), cp@, old(f).pos()).1,
            r is Ok ==> old(f).pos() < final(f).pos() <= old(f).bytes().len(),
        decreases old(f).bytes().len() - old(f).pos(), 0nat,
    {
        let attribute_name_index = f.read_u2()?;
        let attribute_name = match cp.get_utf(attribute_name_index) {
            Some(text) => text.bytes.clone(),
            None => return Err(DecodeError::BadIndex(attribute_name_index)),
        };
        let _attribute_length = f.read_u4()?;
        let attribute = if text_is(&attribute_name, "Code") {
            Attribute::Code(parse_code(f, cp)?)
        } else if text_is(&attribute_name, "LineNumberTable") {
            let line_number_table = parse_line_numbers(f)?;
            Attribute::LineNumberTable(LineNumberTableAttribute { line_number_table })
        } else if text_is(&attribute_name, "SourceFile") {
            let sourcefile_index = f.read_u2()?;
            let sourcefile = match cp.get_utf(sourcefile_index) {
                Some(text) => text.bytes.clone(),
                None => return Err(DecodeError::BadIndex(sourcefile_index)),
            };
            Attribute::SourceFile(SourceFileAttribute { sourcefile_index, sourcefile })
        } else if text_is(&attribute_name, "StackMapTable") {
            Attribute::StackMapTable(parse_stack_map(f, cp)?)
        } else {
            return Err(DecodeError::UnknownAttribute(attribute_name_index));
        };
        Ok(AttributeInfo { attribute_name, attribute_name_index, attribute })
    }
}

} // verus!
