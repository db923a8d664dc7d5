//! Value literals, the constant types of default values, and the
//! classification of constant-renderable types and values.
use vstd::prelude::*;
use crate::case::{const_case, to_ros_const_case};
use crate::error::{GeneratorError, GeneratorErrorType};
use crate::ir::{Asn1Type, Asn1Value, Choice, Dialect, IntegerType, SequenceOrSet, SequenceOrSetMember};
use crate::resolve::{string_kind, string_kind_name, text_result};
use crate::text::{decimal, decimal_string};
use crate::width::integer_type_name;

verus! {

broadcast use vstd::std_specs::vec::axiom_vec_index_decreases;

/// The name under which a type's values are declared as constants.
pub open spec fn type_token(ty: Asn1Type, d: Dialect) -> Result<Seq<char>, GeneratorErrorType>
    decreases ty,
{
    match ty {
        Asn1Type::Boolean(_) => Ok("bool"@),
        Asn1Type::Integer(i) => Ok(integer_type_name(i.int_type)),
        Asn1Type::Real => Ok("float64"@),
        Asn1Type::BitString => Ok("BitString"@),
        Asn1Type::OctetString(_) => Ok("OctetString"@),
        Asn1Type::CharacterString(c) => Ok(string_kind_name(c.ty, d)),
        Asn1Type::SequenceOf(s) => match type_token(*s.element_type, d) {
            Ok(_) => Ok("SequenceOf"@),
            Err(e) => Err(e),
        },
        Asn1Type::SetOf(s) => match type_token(*s.element_type, d) {
            Ok(_) => Ok("SequenceOf"@),
            Err(e) => Err(e),
        },
        Asn1Type::ElsewhereDeclaredType(e) => Ok(e.identifier@),
        Asn1Type::GeneralizedTime => Ok("GeneralizedTime"@),
        Asn1Type::UtcTime => Ok("UtcTime"@),
        Asn1Type::EmbeddedPdv | Asn1Type::External => Ok("Any"@),
        _ => Err(GeneratorErrorType::NotYetImplemented),
    }
}

/// Names the type of a constant of type `ty`.
pub fn constant_type_name(ty: &Asn1Type, dialect: Dialect) -> (r: Result<String, GeneratorError>)
    ensures
        text_result(r) == type_token(*ty, dialect),
    decreases ty,
{
    match ty {
        Asn1Type::Boolean(_) => Ok(String::from_str("bool")),
        Asn1Type::Integer(i) => Ok(String::from_str(i.int_type.to_str())),
        Asn1Type::Real => Ok(String::from_str("float64")),
        Asn1Type::BitString => Ok(String::from_str("BitString")),
        Asn1Type::OctetString(_) => Ok(String::from_str("OctetString")),
        Asn1Type::CharacterString(c) => Ok(string_kind(c.ty, dialect)),
        Asn1Type::SequenceOf(s) | Asn1Type::SetOf(s) => {
            let _inner = constant_type_name(&s.element_type, dialect)?;
            Ok(String::from_str("SequenceOf"))
        },
        Asn1Type::ElsewhereDeclaredType(e) => Ok(e.identifier.clone()),
        Asn1Type::GeneralizedTime => Ok(String::from_str("GeneralizedTime")),
        Asn1Type::UtcTime => Ok(String::from_str("UtcTime")),
        Asn1Type::EmbeddedPdv | Asn1Type::External => Ok(String::from_str("Any")),
        _ => Err(GeneratorError::new(
            GeneratorErrorType::NotYetImplemented,
            "values of this type are not supported",
        )),
    }
}

/// The literal of a value; `typed` tells whether a target type name comes
/// with it, which choice, struct-like and array-like values need.
pub open spec fn value_token(v: Asn1Value, typed: bool) -> Result<Seq<char>, GeneratorErrorType>
    decreases v,
{
    match v {
        Asn1Value::Boolean(b) => Ok(if b { "true"@ } else { "false"@ }),
        Asn1Value::Integer(i) => Ok(decimal(i as int)),
        Asn1Value::String(s) => Ok(s@),
        Asn1Value::Real(t) => Ok(t@),
        Asn1Value::EnumeratedValue { enumerated, enumerable } => Ok(enumerated@ + "_"@ + enumerable@),
        Asn1Value::LinkedElsewhereDefinedValue { identifier, .. } => Ok(identifier@),
        Asn1Value::ElsewhereDeclaredValue { identifier } => Ok(identifier@),
        Asn1Value::LinkedNestedValue { value, .. } => value_token(*value, typed),
        Asn1Value::LinkedIntValue { value, .. } => Ok(decimal(value as int)),
        Asn1Value::Choice { .. } | Asn1Value::LinkedStructLikeValue(_) | Asn1Value::LinkedArrayLikeValue(_) => if typed {
            Err(GeneratorErrorType::NotYetImplemented)
        } else {
            Err(GeneratorErrorType::Unidentified)
        },
        Asn1Value::SequenceOrSet(_) => Err(GeneratorErrorType::Unidentified),
        _ => Err(GeneratorErrorType::NotYetImplemented),
    }
}

/// Renders a value as a literal; `type_ref` names the value's type where
/// it is known.
pub fn value_to_tokens(value: &Asn1Value, type_ref: Option<&String>) -> (r: Result<String, GeneratorError>)
    ensures
        text_result(r) == value_token(*value, type_ref is Some),
    decreases value,
{
    match value {
        Asn1Value::Boolean(b) => Ok(String::from_str(if *b { "true" } else { "false" })),
        Asn1Value::Integer(i) => Ok(decimal_string(*i)),
        Asn1Value::String(s) => Ok(s.clone()),
        Asn1Value::Real(t) => Ok(t.clone()),
        Asn1Value::EnumeratedValue { enumerated, enumerable } => {
            let mut out = enumerated.clone();
            out.append("_");
            out.append(enumerable.as_str());
            Ok(out)
        },
        Asn1Value::LinkedElsewhereDefinedValue { identifier, .. } => Ok(identifier.clone()),
        Asn1Value::ElsewhereDeclaredValue { identifier } => Ok(identifier.clone()),
        Asn1Value::LinkedNestedValue { value, .. } => value_to_tokens(value, type_ref),
        Asn1Value::LinkedIntValue { value, .. } => Ok(decimal_string(*value)),
        Asn1Value::Choice { .. } | Asn1Value::LinkedStructLikeValue(_) | Asn1Value::LinkedArrayLikeValue(_) => if type_ref.is_some() {
            Err(GeneratorError::new(
                GeneratorErrorType::NotYetImplemented,
                "choice, struct-like and array-like values are not supported",
            ))
        } else {
            Err(GeneratorError::new(
                GeneratorErrorType::Unidentified,
                "a type name is needed to render a choice, struct-like or array-like value",
            ))
        },
        Asn1Value::SequenceOrSet(_) => Err(GeneratorError::new(
            GeneratorErrorType::Unidentified,
            "unexpectedly encountered an unlinked struct-like value",
        )),
        _ => Err(GeneratorError::new(
            GeneratorErrorType::NotYetImplemented,
            "values of this kind are not supported",
        )),
    }
}

/// The declared type of a member's default constant, given the name `t`
/// of its type: a linked integer keeps its width, an enumerated value is
/// `uint8`.
pub open spec fn default_type(v: Asn1Value, t: Seq<char>) -> Seq<char> {
    match v {
        Asn1Value::LinkedNestedValue { value, .. } => match *value {
            Asn1Value::LinkedIntValue { integer_type, .. } => integer_type_name(integer_type),
            _ => t,
        },
        Asn1Value::LinkedIntValue { integer_type, .. } => integer_type_name(integer_type),
        Asn1Value::EnumeratedValue { .. } => "uint8"@,
        _ => t,
    }
}

/// The default constant of a member: nothing without a default value.
pub open spec fn default_line(m: SequenceOrSetMember) -> Result<Seq<char>, GeneratorErrorType> {
    match m.default_value {
        None => Ok(seq![]),
        Some(v) => match type_token(m.ty, Dialect::Msg) {
            Err(e) => Err(e),
            Ok(t) => match value_token(v, true) {
                Err(e) => Err(e),
                Ok(lit) => Ok(default_type(v, t) + " "@ + const_case(m.name@) + "_DEFAULT = "@
                    + lit + "\n"@),
            },
        },
    }
}

/// The default constants of the first `n` members, or the first error.
pub open spec fn defaults_text(ms: Seq<SequenceOrSetMember>, n: int) -> Result<Seq<char>, GeneratorErrorType>
    decreases n,
{
    if n <= 0 {
        Ok(seq![])
    } else {
        match defaults_text(ms, n - 1) {
            Ok(a) => match default_line(ms[n - 1]) {
                Ok(b) => Ok(a + b),
                Err(e) => Err(e),
            },
            Err(e) => Err(e),
        }
    }
}

proof fn lemma_defaults_error_stays(ms: Seq<SequenceOrSetMember>, k: int, n: int)
    requires
        1 <= k <= n,
        defaults_text(ms, k) is Err,
    ensures
        defaults_text(ms, n) == defaults_text(ms, k),
    decreases n - k,
{
    if k < n {
        lemma_defaults_error_stays(ms, k, n - 1);
    }
}

fn format_default(member: &SequenceOrSetMember) -> (r: Result<String, GeneratorError>)
    ensures
        text_result(r) == default_line(*member),
{
    match &member.default_value {
        None => Ok(String::new()),
        Some(value) => {
            let t = constant_type_name(&member.ty, Dialect::Msg)?;
            let lit = value_to_tokens(value, Some(&t))?;
            let mut out = match value {
                Asn1Value::LinkedNestedValue { value: inner, .. } => match &**inner {
                    Asn1Value::LinkedIntValue { integer_type, .. } => String::from_str(integer_type.to_str()),
                    _ => t,
                },
                Asn1Value::LinkedIntValue { integer_type, .. } => String::from_str(integer_type.to_str()),
                Asn1Value::EnumeratedValue { .. } => String::from_str("uint8"),
                _ => t,
            };
            out.append(" ");
            let name = to_ros_const_case(member.name.as_str());
            out.append(name.as_str());
            out.append("_DEFAULT = ");
            out.append(lit.as_str());
            out.append("\n");
            Ok(out)
        },
    }
}

/// Formats one `{MEMBER}_DEFAULT` constant per member with a default value,
/// in declaration order.
pub fn format_default_methods(members: &Vec<SequenceOrSetMember>, _parent_name: &str) -> (r: Result<String, GeneratorError>)
    ensures
        text_result(r) == defaults_text(members@, members@.len() as int),
{
    let mut out = String::new();
    let mut i: usize = 0;
    while i < members.len()
        invariant
            i <= members@.len(),
            defaults_text(members@, i as int) == Ok::<Seq<char>, GeneratorErrorType>(out@),
        decreases members@.len() - i,
    {
        match format_default(&members[i]) {
            Ok(line) => out.append(line.as_str()),
            Err(e) => {
                proof {
                    assert(defaults_text(members@, i + 1) == Err::<Seq<char>, GeneratorErrorType>(e.kind));
                    lemma_defaults_error_stays(members@, i + 1, members@.len() as int);
                }
                return Err(e);
            },
        }
        i = i + 1;
    }
    Ok(out)
}

/// The element type name of a SEQUENCE OF value whose ASN.1 element type
/// is written `name`; an INTEGER takes the width of its first item where
/// that is a linked integer.
pub open spec fn item_type(name: Seq<char>, first_item: Option<Asn1Value>) -> Seq<char> {
    if name == "BOOLEAN"@ {
        "bool"@
    } else if name == "INTEGER"@ {
        match first_item {
            Some(Asn1Value::LinkedIntValue { integer_type, .. }) => integer_type_name(integer_type),
            _ => "int64"@,
        }
    } else if name == "BIT STRING"@ {
        "BitString"@
    } else if name == "OCTET STRING"@ {
        "OctetString"@
    } else if name == "UTCTime"@ {
        "UtcTime"@
    } else if name == "OBJECT IDENTIFIER"@ {
        "ObjectIdentifier"@
    } else {
        name
    }
}

fn text_is(s: &String, t: &str) -> (r: bool)
    ensures
        r == (s@ == t@),
{
    *s == String::from_str(t)
}

/// Names the element type of a SEQUENCE OF value from the ASN.1 name of the
/// element type. The NULL type has no element name.
pub fn format_sequence_or_set_of_item_type(item_type_name: String, first_item: Option<&Asn1Value>) -> (r: String)
    requires
        item_type_name@ != "NULL"@,
    ensures
        r@ == item_type(item_type_name@, match first_item {
            Some(v) => Some(*v),
            None => None,
        }),
{
    if text_is(&item_type_name, "BOOLEAN") {
        String::from_str("bool")
    } else if text_is(&item_type_name, "INTEGER") {
        match first_item {
            Some(Asn1Value::LinkedIntValue { integer_type, .. }) => String::from_str(integer_type.to_str()),
            _ => String::from_str("int64"),
        }
    } else if text_is(&item_type_name, "BIT STRING") {
        String::from_str("BitString")
    } else if text_is(&item_type_name, "OCTET STRING") {
        String::from_str("OctetString")
    } else if text_is(&item_type_name, "UTCTime") {
        String::from_str("UtcTime")
    } else if text_is(&item_type_name, "OBJECT IDENTIFIER") {
        String::from_str("ObjectIdentifier")
    } else {
        item_type_name
    }
}

/// Whether a value can be rendered as a compile-time constant.
pub open spec fn value_is_const(v: Asn1Value) -> bool
    decreases v,
{
    match v {
        Asn1Value::Null | Asn1Value::Boolean(_) | Asn1Value::EnumeratedValue { .. } => true,
        Asn1Value::Choice { inner_value, .. } => value_is_const(*inner_value),
        Asn1Value::LinkedIntValue { integer_type, .. } => integer_type != IntegerType::Unbounded,
        Asn1Value::LinkedNestedValue { value, .. } => value_is_const(*value),
        Asn1Value::LinkedElsewhereDefinedValue { can_be_const, .. } => can_be_const,
        _ => false,
    }
}

/// Whether the values of a type can be rendered as compile-time constants.
pub open spec fn type_is_const(ty: Asn1Type) -> bool
    decreases ty,
{
    match ty {
        Asn1Type::Null | Asn1Type::Enumerated(_) | Asn1Type::Boolean(_) => true,
        Asn1Type::Integer(i) => i.int_type != IntegerType::Unbounded,
        Asn1Type::Choice(c) => forall|k: int| 0 <= k < c.options@.len() ==> type_is_const(#[trigger] c.options@[k].ty),
        Asn1Type::Sequence(s) => forall|k: int| 0 <= k < s.members@.len() ==> type_is_const(#[trigger] s.members@[k].ty),
        Asn1Type::SetType(s) => forall|k: int| 0 <= k < s.members@.len() ==> type_is_const(#[trigger] s.members@[k].ty),
        Asn1Type::SequenceOf(s) => type_is_const(*s.element_type),
        Asn1Type::SetOf(s) => type_is_const(*s.element_type),
        _ => false,
    }
}

impl Asn1Value {
    /// Decides whether this value can be rendered as a constant.
    pub fn is_const_type(&self) -> (r: bool)
        ensures
            r == value_is_const(*self),
        decreases self,
    {
        match self {
            Asn1Value::Null | Asn1Value::Boolean(_) | Asn1Value::EnumeratedValue { .. } => true,
            Asn1Value::Choice { inner_value, .. } => inner_value.is_const_type(),
            Asn1Value::LinkedIntValue { integer_type, .. } => *integer_type != IntegerType::Unbounded,
            Asn1Value::LinkedNestedValue { value, .. } => value.is_const_type(),
            Asn1Value::LinkedElsewhereDefinedValue { can_be_const, .. } => *can_be_const,
            _ => false,
        }
    }
}

impl Asn1Type {
    /// Decides whether the values of this type can be rendered as constants.
    pub fn is_const_type(&self) -> (r: bool)
        ensures
            r == type_is_const(*self),
        decreases self,
    {
        match self {
            Asn1Type::Null | Asn1Type::Enumerated(_) | Asn1Type::Boolean(_) => true,
            Asn1Type::Integer(i) => i.int_type != IntegerType::Unbounded,
            Asn1Type::Choice(c) => options_const(c),
            Asn1Type::Sequence(s) | Asn1Type::SetType(s) => members_const(s),
            Asn1Type::SequenceOf(s) | Asn1Type::SetOf(s) => s.element_type.is_const_type(),
            _ => false,
        }
    }
}

/// Decides whether every option of a CHOICE has constant-renderable values.
fn options_const(c: &Choice) -> (r: bool)
    ensures
        r == forall|k: int| 0 <= k < c.options@.len() ==> type_is_const(#[trigger] c.options@[k].ty),
    decreases c,
{
    let mut k: usize = 0;
    while k < c.options.len()
        invariant
            k <= c.options@.len(),
            forall|j: int| 0 <= j < k ==> type_is_const(#[trigger] c.options@[j].ty),
        decreases c.options@.len() - k,
    {
        proof {
            assert(decreases_to!(c.options => c.options@));
            assert(decreases_to!(c.options@ => c.options@[k as int]));
            assert(decreases_to!(*c => c.options@[k as int].ty));
        }
        if !c.options[k].ty.is_const_type() {
            return false;
        }
        k = k + 1;
    }
    true
}

/// Decides whether every member of a SEQUENCE or SET has constant-renderable
/// values.
fn members_const(s: &SequenceOrSet) -> (r: bool)
    ensures
        r == forall|k: int| 0 <= k < s.members@.len() ==> type_is_const(#[trigger] s.members@[k].ty),
    decreases s,
{
    let mut k: usize = 0;
    while k < s.members.len()
        invariant
            k <= s.members@.len(),
            forall|j: int| 0 <= j < k ==> type_is_const(#[trigger] s.members@[j].ty),
        decreases s.members@.len() - k,
    {
        proof {
            assert(decreases_to!(s.members => s.members@));
            assert(decreases_to!(s.members@ => s.members@[k as int]));
            assert(decreases_to!(*s => s.members@[k as int].ty));
        }
        if !s.members[k].ty.is_const_type() {
            return false;
        }
        k = k + 1;
    }
    true
}

} // verus!
