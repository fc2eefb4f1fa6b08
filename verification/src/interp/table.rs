//! The method table: the bodies of the methods of a class, found by name
//! and descriptor.

use crate::class::attribute::{
    attribute_views, text_is, Attribute, AttributeInfo, AttributeInfoView, AttributeView,
    CodeAttribute, CodeAttributeView,
};
use crate::class::method::{MethodInfo, MethodInfoView};
use crate::class::Class;
use crate::interp::ExecError;
use vstd::prelude::*;

verus! {

/// One entry of the method table: a name, a descriptor and the body that
/// they stand for.
#[derive(Debug)]
pub struct MethodEntry<'a> {
    pub name: String,
    pub descriptor: String,
    pub code: &'a CodeAttribute,
}

/// What an entry of the method table holds: a name, a descriptor and the
/// whole body of the method.
pub struct MethodView {
    pub name: Seq<char>,
    pub descriptor: Seq<char>,
    pub code: CodeAttributeView,
}

impl<'a> View for MethodEntry<'a> {
    type V = MethodView;

    open spec fn view(&self) -> MethodView {
        MethodView { name: self.name@, descriptor: self.descriptor@, code: self.code@ }
    }
}

/// The method table of a class: one entry for each method, in the order of
/// the class. Where two methods share name and descriptor, the later one
/// is the one that a lookup finds.
#[derive(Debug)]
pub struct MethodTable<'a> {
    pub entries: Vec<MethodEntry<'a>>,
}

impl<'a> View for MethodTable<'a> {
    type V = Seq<MethodView>;

    open spec fn view(&self) -> Seq<MethodView> {
        self.entries@.map_values(|e: MethodEntry<'a>| e@)
    }
}

/// The position of the first attribute named `Code` at or behind `from`.
pub open spec fn code_position(attributes: Seq<AttributeInfoView>, from: int) -> Option<int>
    decreases attributes.len() - from,
{
    if from < 0 || from >= attributes.len() {
        None
    } else if attributes[from].attribute_name == "Code"@ {
        Some(from)
    } else {
        code_position(attributes, from + 1)
    }
}

/// The body of a method: what its first attribute named `Code` holds.
/// There is none when the method has no such attribute, or when that
/// attribute is no method body.
pub open spec fn method_body(method: MethodInfoView) -> Option<CodeAttributeView> {
    match code_position(method.attributes, 0) {
        None => None,
        Some(k) => match method.attributes[k].attribute {
            AttributeView::Code(code) => Some(code),
            _ => None,
        },
    }
}

/// The table entry for a method: its name and descriptor with its body.
/// There is none when the method has no body.
pub open spec fn method_entry(method: MethodInfoView) -> Option<MethodView> {
    match method_body(method) {
        None => None,
        Some(code) => Some(MethodView { name: method.name, descriptor: method.descriptor, code }),
    }
}

/// The number of the entry that a lookup of `name` and `descriptor` finds:
/// the last one that carries both.
pub open spec fn lookup(table: Seq<MethodView>, name: Seq<char>, descriptor: Seq<char>) -> Option<
    int,
>
    decreases table.len(),
{
    if table.len() == 0 {
        None
    } else if table.last().name == name && table.last().descriptor == descriptor {
        Some(table.len() - 1)
    } else {
        lookup(table.drop_last(), name, descriptor)
    }
}

/// The body of a method, if it has one: the first attribute named `Code`.
fn find_code<'a>(attributes: &'a Vec<AttributeInfo>) -> (r: Option<&'a CodeAttribute>)
    ensures
        match code_position(attribute_views(attributes@), 0) {
            None => r is None,
            Some(k) => match attribute_views(attributes@)[k].attribute {
                AttributeView::Code(code) => r matches Some(found) && found@ == code,
                _ => r is None,
            },
        },
{
    let ghost views = attribute_views(attributes@);
    let mut k: usize = 0;
    while k < attributes.len()
        invariant
            k <= attributes.len(),
            views == attribute_views(attributes@),
            code_position(views, 0) == code_position(views, k as int),
        decreases attributes.len() - k,
    {
        if text_is(&attributes[k].attribute_name, "Code") {
            return match &attributes[k].attribute {
                Attribute::Code(code) => Some(code),
                _ => None,
            };
        }
        k = k + 1;
    }
    None
}

/// The body of a method, if it has one: the whole `Code` attribute that
/// `method_body` describes.
pub fn method_code<'a>(method: &'a MethodInfo) -> (r: Option<&'a CodeAttribute>)
    ensures
        match method_body(method@) {
            None => r is None,
            Some(code) => r matches Some(found) && found@ == code,
        },
{
    find_code(&method.attributes)
}

impl<'a> MethodTable<'a> {
    /// Builds the method table of a class.
    ///
    /// The table has one entry for each method of the class, in order,
    /// each as `method_entry` describes it. Building fails with
    /// `MissingCode` and the number of the first method that has no body.
    pub fn build(class: &'a Class) -> (r: Result<MethodTable<'a>, ExecError>)
        ensures
            match r {
                Ok(table) => table@.len() == class@.methods.len() && forall|k: int|
                    0 <= k < table@.len() ==> method_entry(class@.methods[k]) == Some(
                        #[trigger] table@[k],
                    ),
                Err(e) => e matches ExecError::MissingCode(k) && k < class@.methods.len()
                    && method_entry(class@.methods[k as int]) is None && forall|j: int|
                    0 <= j < k ==> (#[trigger] method_entry(class@.methods[j])) is Some,
            },
    {
        let mut entries: Vec<MethodEntry<'a>> = Vec::new();
        let mut k: usize = 0;
        while k < class.methods.len()
            invariant
                k <= class.methods.len(),
                entries.len() == k,
                forall|j: int|
                    0 <= j < k ==> method_entry(class@.methods[j]) == Some(
                        (#[trigger] entries[j])@,
                    ),
            decreases class.methods.len() - k,
        {
            let method = &class.methods[k];
            let code = match method_code(method) {
                Some(code) => code,
                None => {
                    assert forall|j: int| 0 <= j < k implies (#[trigger] method_entry(
                        class@.methods[j],
                    )) is Some by {
                        assert(method_entry(class@.methods[j]) == Some(entries[j]@));
                    }
                    return Err(ExecError::MissingCode(k));
                },
            };
            let entry = MethodEntry {
                name: method.name.clone(),
                descriptor: method.descriptor.clone(),
                code,
            };
            entries.push(entry);
            k = k + 1;
        }
        Ok(MethodTable { entries })
    }

    /// Looks up the body of the method with this name and descriptor:
    /// that of the last entry that carries both, `None` when there is none.
    pub fn get(&self, name: &str, descriptor: &str) -> (r: Option<&'a CodeAttribute>)
        ensures
            match lookup(self@, name@, descriptor@) {
                None => r is None,
                Some(k) => 0 <= k < self.entries.len() && r == Some(self.entries[k].code),
            },
    {
        let wanted_name = name.to_owned();
        let wanted_descriptor = descriptor.to_owned();
        let mut k: usize = self.entries.len();
        assert(self@.subrange(0, k as int) == self@);
        while k > 0
            invariant
                k <= self.entries.len(),
                wanted_name@ == name@,
                wanted_descriptor@ == descriptor@,
                lookup(self@, name@, descriptor@) == lookup(
                    self@.subrange(0, k as int),
                    name@,
                    descriptor@,
                ),
            decreases k,
        {
            let entry = &self.entries[k - 1];
            let ghost part = self@.subrange(0, k as int);
            assert(part.drop_last() == self@.subrange(0, k - 1));
            if entry.name == wanted_name && entry.descriptor == wanted_descriptor {
                return Some(entry.code);
            }
            k = k - 1;
        }
        None
    }
}

} // verus!
