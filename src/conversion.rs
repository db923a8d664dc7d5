//! The C conversion-header backend: member listings and the header
//! dialect's names.
use vstd::prelude::*;
use crate::case::{comment_block, comment_lines};
use crate::error::{GeneratorError, GeneratorErrorType};
use crate::ir::{Asn1Type, CharacterStringType, Choice, Dialect, SequenceOrSet};
use crate::resolve::{constraints_and_type_name, string_kind, string_kind_name, target_type_name, text_result};
use crate::values::{constant_type_name, type_token};

pub use crate::case::inner_name;
pub use crate::syntax::resolve_standard_syntax;
pub use crate::values::{format_sequence_or_set_of_item_type, value_to_tokens};

verus! {

/// Formats comments as a block of `//` lines.
pub fn format_comments(comments: &str) -> (r: Result<String, GeneratorError>)
    ensures
        r matches Ok(s) && s@ == comment_block("// "@, "\n//"@, comments@),
{
    Ok(comment_lines(comments, "// ", "\n//"))
}

/// A member's name and the header name of its type.
#[derive(Clone, Debug)]
pub struct NameType {
    pub name: String,
    pub ty: String,
    /// Whether the type is not a reference to another declaration.
    pub is_primitive: bool,
}

/// A SEQUENCE or SET member's name and type, with its optionality.
#[derive(Clone, Debug)]
pub struct NamedSeqMember {
    pub name_type: NameType,
    pub is_optional: bool,
    pub has_default: bool,
}

/// Whether `nt` describes a member named `name` of type `ty`.
pub open spec fn describes(nt: NameType, name: Seq<char>, ty: Asn1Type) -> bool {
    &&& nt.name@ == name
    &&& target_type_name(ty, name, seq![], Dialect::Header) == Ok::<Seq<char>, GeneratorErrorType>(nt.ty@)
    &&& nt.is_primitive == !(ty is ElsewhereDeclaredType)
}

fn name_type(name: &String, ty: &Asn1Type) -> (r: NameType)
    requires
        target_type_name(*ty, name@, seq![], Dialect::Header) is Ok,
    ensures
        describes(r, name@, *ty),
{
    let t = match constraints_and_type_name(ty, name, &String::new(), Dialect::Header) {
        Ok((_, t)) => t,
        Err(_) => String::new(),
    };
    NameType {
        name: name.clone(),
        ty: t,
        is_primitive: !matches!(ty, Asn1Type::ElsewhereDeclaredType(_)),
    }
}

/// Lists the members of a SEQUENCE or SET with their header type names.
/// Every member's type must have a header name.
pub fn get_sequence_or_set_members_names(sequence_or_set: &SequenceOrSet) -> (r: Vec<NamedSeqMember>)
    requires
        forall|i: int| 0 <= i < sequence_or_set.members@.len() ==> target_type_name(
            #[trigger] sequence_or_set.members@[i].ty,
            sequence_or_set.members@[i].name@,
            seq![],
            Dialect::Header,
        ) is Ok,
    ensures
        r@.len() == sequence_or_set.members@.len(),
        forall|i: int| 0 <= i < r@.len() ==> {
            let m = sequence_or_set.members@[i];
            &&& describes(#[trigger] r@[i].name_type, m.name@, m.ty)
            &&& r@[i].is_optional == m.is_optional
            &&& r@[i].has_default == (m.default_value is Some)
        },
{
    let ms = &sequence_or_set.members;
    let mut out: Vec<NamedSeqMember> = Vec::new();
    let mut i: usize = 0;
    while i < ms.len()
        invariant
            ms@ == sequence_or_set.members@,
            forall|i: int| 0 <= i < ms@.len() ==> target_type_name(
                #[trigger] ms@[i].ty,
                ms@[i].name@,
                seq![],
                Dialect::Header,
            ) is Ok,
            i <= ms@.len(),
            out@.len() == i,
            forall|k: int| 0 <= k < i ==> {
                let m = ms@[k];
                &&& describes(#[trigger] out@[k].name_type, m.name@, m.ty)
                &&& out@[k].is_optional == m.is_optional
                &&& out@[k].has_default == (m.default_value is Some)
            },
        decreases ms@.len() - i,
    {
        let m = &ms[i];
        let item = NamedSeqMember {
            name_type: name_type(&m.name, &m.ty),
            is_optional: m.is_optional,
            has_default: m.default_value.is_some(),
        };
        let ghost before = out@;
        out.push(item);
        assert forall|k: int| 0 <= k <= i implies {
            let m = ms@[k];
            &&& describes(#[trigger] out@[k].name_type, m.name@, m.ty)
            &&& out@[k].is_optional == m.is_optional
            &&& out@[k].has_default == (m.default_value is Some)
        } by {
            if k < i {
                assert(out@[k] == before[k]);
            }
        }
        i = i + 1;
    }
    out
}

/// Lists the options of a CHOICE with their header type names. Every
/// option's type must have a header name.
pub fn get_choice_members_names(choice: &Choice) -> (r: Vec<NameType>)
    requires
        forall|i: int| 0 <= i < choice.options@.len() ==> target_type_name(
            #[trigger] choice.options@[i].ty,
            choice.options@[i].name@,
            seq![],
            Dialect::Header,
        ) is Ok,
    ensures
        r@.len() == choice.options@.len(),
        forall|i: int| 0 <= i < r@.len() ==> describes(#[trigger] r@[i], choice.options@[i].name@, choice.options@[i].ty),
{
    let os = &choice.options;
    let mut out: Vec<NameType> = Vec::new();
    let mut i: usize = 0;
    while i < os.len()
        invariant
            os@ == choice.options@,
            forall|i: int| 0 <= i < os@.len() ==> target_type_name(
                #[trigger] os@[i].ty,
                os@[i].name@,
                seq![],
                Dialect::Header,
            ) is Ok,
            i <= os@.len(),
            out@.len() == i,
            forall|k: int| 0 <= k < i ==> describes(#[trigger] out@[k], os@[k].name@, os@[k].ty),
        decreases os@.len() - i,
    {
        out.push(name_type(&os[i].name, &os[i].ty));
        i = i + 1;
    }
    out
}

/// The header name of a character string kind.
pub fn string_type(c_type: &CharacterStringType) -> (r: Result<String, GeneratorError>)
    ensures
        r matches Ok(s) && s@ == string_kind_name(*c_type, Dialect::Header),
{
    Ok(string_kind(*c_type, Dialect::Header))
}

/// The header name under which values of `ty` are declared as constants.
pub fn type_to_tokens(ty: &Asn1Type) -> (r: Result<String, GeneratorError>)
    ensures
        text_result(r) == type_token(*ty, Dialect::Header),
{
    constant_type_name(ty, Dialect::Header)
}

} // verus!
