//! The type resolver: the target type name of an ASN.1 type node.
use vstd::prelude::*;
use crate::case::{title_case, to_ros_title_case, inner_name};
use crate::error::{GeneratorError, GeneratorErrorType};
use crate::ir::{Asn1Type, CharacterStringType, Constraint, Dialect, ObjectSetValue};
use crate::width::{int_type_token, integer_type_name, select_width};

verus! {

/// A rendered text or the kind of error that stopped it.
pub open spec fn text_result(r: Result<String, GeneratorError>) -> Result<Seq<char>, GeneratorErrorType> {
    match r {
        Ok(s) => Ok(s@),
        Err(e) => Err(e.kind),
    }
}

/// The name of a character string kind in a dialect.
pub open spec fn string_kind_name(t: CharacterStringType, d: Dialect) -> Seq<char> {
    match t {
        CharacterStringType::NumericString => "NumericString"@,
        CharacterStringType::VisibleString => "VisibleString"@,
        CharacterStringType::IA5String => if d == Dialect::Msg { "Ia5String"@ } else { "IA5String"@ },
        CharacterStringType::TeletexString => "TeletexString"@,
        CharacterStringType::VideotexString => "VideotexString"@,
        CharacterStringType::GraphicString => "GraphicString"@,
        CharacterStringType::GeneralString => "GeneralString"@,
        CharacterStringType::UniversalString => "UniversalString"@,
        CharacterStringType::UTF8String => if d == Dialect::Msg { "Utf8String"@ } else { "UTF8String"@ },
        CharacterStringType::BMPString => if d == Dialect::Msg { "BmpString"@ } else { "BMPString"@ },
        CharacterStringType::PrintableString => "PrintableString"@,
    }
}

/// Names a character string kind in a dialect.
pub fn string_kind(t: CharacterStringType, d: Dialect) -> (r: String)
    ensures
        r@ == string_kind_name(t, d),
{
    let s = match t {
        CharacterStringType::NumericString => "NumericString",
        CharacterStringType::VisibleString => "VisibleString",
        CharacterStringType::IA5String => if d == Dialect::Msg { "Ia5String" } else { "IA5String" },
        CharacterStringType::TeletexString => "TeletexString",
        CharacterStringType::VideotexString => "VideotexString",
        CharacterStringType::GraphicString => "GraphicString",
        CharacterStringType::GeneralString => "GeneralString",
        CharacterStringType::UniversalString => "UniversalString",
        CharacterStringType::UTF8String => if d == Dialect::Msg { "Utf8String" } else { "UTF8String" },
        CharacterStringType::BMPString => if d == Dialect::Msg { "BmpString" } else { "BMPString" },
        CharacterStringType::PrintableString => "PrintableString",
    };
    String::from_str(s)
}

/// Whether a type has no inline form and is declared on its own: an
/// ENUMERATED, CHOICE, SEQUENCE or SET type, or a collection of one.
pub open spec fn needs_own_declaration(ty: Asn1Type) -> bool
    decreases ty,
{
    match ty {
        Asn1Type::Enumerated(_) | Asn1Type::Choice(_) | Asn1Type::Sequence(_) | Asn1Type::SetType(_) => true,
        Asn1Type::SequenceOf(s) => needs_own_declaration(*s.element_type),
        Asn1Type::SetOf(s) => needs_own_declaration(*s.element_type),
        _ => false,
    }
}

/// Decides whether a type must be declared on its own.
pub fn needs_unnesting(ty: &Asn1Type) -> (r: bool)
    ensures
        r == needs_own_declaration(*ty),
    decreases ty,
{
    match ty {
        Asn1Type::Enumerated(_) | Asn1Type::Choice(_) | Asn1Type::Sequence(_) | Asn1Type::SetType(_) => true,
        Asn1Type::SequenceOf(s) => needs_unnesting(&s.element_type),
        Asn1Type::SetOf(s) => needs_unnesting(&s.element_type),
        _ => false,
    }
}

/// The object that a table constraint names: the first value of the
/// object set of the first constraint, when that is a table constraint
/// and the value a reference; else nothing.
pub open spec fn table_reference(cs: Seq<Constraint>) -> Seq<char> {
    if cs.len() > 0 && cs[0] is Table && cs[0]->Table_0@.len() > 0
        && cs[0]->Table_0@[0] is Reference {
        cs[0]->Table_0@[0]->Reference_0@
    } else {
        seq![]
    }
}

fn table_reference_name(cs: &Vec<Constraint>) -> (r: String)
    ensures
        r@ == table_reference(cs@),
{
    if cs.len() > 0 {
        if let Constraint::Table(values) = &cs[0] {
            if values.len() > 0 {
                if let ObjectSetValue::Reference(name) = &values[0] {
                    return name.clone();
                }
            }
        }
    }
    String::new()
}

/// The target type name of `ty`, declared as member `name` of the type
/// `parent`. A type without inline form is named by `parent` followed by
/// `name`; a SEQUENCE OF is its element's name followed by `[]`.
pub open spec fn target_type_name(ty: Asn1Type, name: Seq<char>, parent: Seq<char>, d: Dialect) -> Result<Seq<char>, GeneratorErrorType>
    decreases ty,
{
    match ty {
        Asn1Type::Null => Ok("byte"@),
        Asn1Type::Boolean(_) => Ok(if d == Dialect::Msg { "bool"@ } else { "BOOLEAN"@ }),
        Asn1Type::Integer(i) => Ok(if d == Dialect::Msg {
            integer_type_name(select_width(i.per_visible.min, i.per_visible.max, i.per_visible.extensible))
        } else {
            "INTEGER"@
        }),
        Asn1Type::Real => Ok("float64"@),
        Asn1Type::OctetString(_) => Ok("uint8[]"@),
        Asn1Type::CharacterString(c) => Ok(if d == Dialect::Msg { "string"@ } else { string_kind_name(c.ty, d) }),
        Asn1Type::Enumerated(_) | Asn1Type::Choice(_) | Asn1Type::Sequence(_) | Asn1Type::SetType(_) => Ok(parent + name),
        Asn1Type::SequenceOf(s) => match target_type_name(*s.element_type, name, parent, d) {
            Ok(t) => Ok(t + "[]"@),
            Err(e) => Err(e),
        },
        Asn1Type::SetOf(s) => if needs_own_declaration(*s.element_type) {
            Ok(parent + name)
        } else {
            match target_type_name(*s.element_type, name, parent, d) {
                Ok(t) => Ok(t + "[]"@),
                Err(e) => Err(e),
            }
        },
        Asn1Type::ElsewhereDeclaredType(e) => Ok(title_case(e.identifier@)),
        Asn1Type::InformationObjectFieldReference(cs) => Ok(table_reference(cs@)),
        Asn1Type::EmbeddedPdv | Asn1Type::External => Ok(seq![]),
        Asn1Type::ObjectIdentifier | Asn1Type::BitString | Asn1Type::GeneralizedTime | Asn1Type::UtcTime
        | Asn1Type::Time => Err(GeneratorErrorType::NotYetImplemented),
        Asn1Type::ChoiceSelectionType(_) => Err(GeneratorErrorType::InvariantViolation),
    }
}

/// The constraints that resolving a type hands on: a primitive's own, the
/// outer constraints of a collection, a reference's local ones; none for a
/// type that is declared on its own.
pub open spec fn resolved_constraints(ty: Asn1Type) -> Seq<Constraint> {
    match ty {
        Asn1Type::Boolean(cs) => cs@,
        Asn1Type::Integer(i) => i.constraints@,
        Asn1Type::OctetString(cs) => cs@,
        Asn1Type::CharacterString(c) => c.constraints@,
        Asn1Type::SequenceOf(s) => s.constraints@,
        Asn1Type::SetOf(s) => if needs_own_declaration(*s.element_type) { seq![] } else { s.constraints@ },
        Asn1Type::ElsewhereDeclaredType(e) => e.constraints@,
        _ => seq![],
    }
}

/// Resolves `ty`, declared as member `name` of the type `parent_name`: the
/// constraints it hands on and its target type name.
pub fn constraints_and_type_name<'a>(ty: &'a Asn1Type, name: &String, parent_name: &String, dialect: Dialect)
    -> (r: Result<(&'a [Constraint], String), GeneratorError>)
    ensures
        match r {
            Ok((cs, t)) => target_type_name(*ty, name@, parent_name@, dialect) == Ok::<Seq<char>, GeneratorErrorType>(t@)
                && cs@ == resolved_constraints(*ty),
            Err(e) => target_type_name(*ty, name@, parent_name@, dialect) == Err::<Seq<char>, GeneratorErrorType>(e.kind),
        },
    decreases ty,
{
    let none: &[Constraint] = &[];
    match ty {
        Asn1Type::Null => Ok((none, String::from_str("byte"))),
        Asn1Type::Boolean(cs) => Ok((cs.as_slice(), String::from_str(if dialect == Dialect::Msg { "bool" } else { "BOOLEAN" }))),
        Asn1Type::Integer(i) => if dialect == Dialect::Msg {
            Ok((i.constraints.as_slice(), int_type_token(i.per_visible.min, i.per_visible.max, i.per_visible.extensible)))
        } else {
            Ok((i.constraints.as_slice(), String::from_str("INTEGER")))
        },
        Asn1Type::Real => Ok((none, String::from_str("float64"))),
        Asn1Type::OctetString(cs) => Ok((cs.as_slice(), String::from_str("uint8[]"))),
        Asn1Type::CharacterString(c) => if dialect == Dialect::Msg {
            Ok((c.constraints.as_slice(), String::from_str("string")))
        } else {
            Ok((c.constraints.as_slice(), string_kind(c.ty, dialect)))
        },
        Asn1Type::Enumerated(_) | Asn1Type::Choice(_) | Asn1Type::Sequence(_) | Asn1Type::SetType(_) => {
            Ok((none, inner_name(name, parent_name)))
        },
        Asn1Type::SequenceOf(s) => {
            let (_, inner) = constraints_and_type_name(&s.element_type, name, parent_name, dialect)?;
            Ok((s.constraints.as_slice(), inner.concat("[]")))
        },
        Asn1Type::SetOf(s) => if needs_unnesting(&s.element_type) {
            Ok((none, inner_name(name, parent_name)))
        } else {
            let (_, inner) = constraints_and_type_name(&s.element_type, name, parent_name, dialect)?;
            Ok((s.constraints.as_slice(), inner.concat("[]")))
        },
        Asn1Type::ElsewhereDeclaredType(e) => Ok((e.constraints.as_slice(), to_ros_title_case(e.identifier.as_str()))),
        Asn1Type::InformationObjectFieldReference(cs) => Ok((none, table_reference_name(cs))),
        Asn1Type::EmbeddedPdv | Asn1Type::External => Ok((none, String::new())),
        Asn1Type::ObjectIdentifier | Asn1Type::BitString | Asn1Type::GeneralizedTime | Asn1Type::UtcTime
        | Asn1Type::Time => Err(GeneratorError::new(
            GeneratorErrorType::NotYetImplemented,
            "object identifier, bit string and time types are not supported",
        )),
        Asn1Type::ChoiceSelectionType(_) => Err(GeneratorError::new(
            GeneratorErrorType::InvariantViolation,
            "a choice selection type should have been resolved by the front end",
        )),
    }
}

} // verus!
