//! The typed tree that the ASN.1 front end hands to this crate.
use vstd::prelude::*;

verus! {

/// The fixed-width integer type the front end derived from an integer's
/// constraints.
#[derive(Clone, Copy, Debug, PartialEq, Eq, Structural)]
pub enum IntegerType {
    Int8,
    Uint8,
    Int16,
    Uint16,
    Int32,
    Uint32,
    Int64,
    Uint64,
    Unbounded,
}

/// A PER-visible range, as the front end merged it from a constraint list.
#[derive(Clone, Copy, Debug, PartialEq, Eq)]
pub struct PerVisibleRange {
    pub min: Option<i128>,
    pub max: Option<i128>,
    pub extensible: bool,
    /// Whether the range bounds a size rather than a value.
    pub is_size_constraint: bool,
}

} // verus!

verus! {

/// A value of an information object set.
#[derive(Clone, Debug)]
pub enum ObjectSetValue {
    /// A reference to an object by its identifier.
    Reference(String),
    /// An object written out in place.
    Inline,
}

/// A part of a permitted alphabet, as the front end computed it from the
/// alphabet constraints of a character string type.
#[derive(Clone, Copy, Debug, PartialEq, Eq)]
pub enum CharsetSubset {
    Single(char),
    /// A range of characters; a missing end is open.
    Range { from: Option<char>, to: Option<char> },
}

/// A constraint as the front end linked it.
#[derive(Clone, Debug)]
pub enum Constraint {
    ValueRange { min: Option<i128>, max: Option<i128>, extensible: bool },
    SizeRange { min: Option<i128>, max: Option<i128>, extensible: bool },
    PermittedAlphabet,
    /// A table constraint, with the values of its object set in order.
    Table(Vec<ObjectSetValue>),
    /// Any other constraint: single values, set operations, parameters,
    /// contents constraints.
    Other,
}

} // verus!

verus! {

/// The kinds of ASN.1 character strings.
#[derive(Clone, Copy, Debug, PartialEq, Eq, Structural)]
pub enum CharacterStringType {
    NumericString,
    VisibleString,
    IA5String,
    TeletexString,
    VideotexString,
    GraphicString,
    GeneralString,
    UniversalString,
    UTF8String,
    BMPString,
    PrintableString,
}

/// A named number of an INTEGER type.
#[derive(Clone, Debug)]
pub struct DistinguishedValue {
    pub name: String,
    pub value: i128,
}

/// An INTEGER type, with what the front end computed of its constraints.
#[derive(Clone, Debug)]
pub struct Integer {
    pub constraints: Vec<Constraint>,
    pub distinguished_values: Option<Vec<DistinguishedValue>>,
    /// The PER-visible value range of `constraints`.
    pub per_visible: PerVisibleRange,
    /// The fixed-width type that `constraints` allow.
    pub int_type: IntegerType,
}

/// A character string type.
#[derive(Clone, Debug)]
pub struct CharacterString {
    pub ty: CharacterStringType,
    pub constraints: Vec<Constraint>,
}

/// One item of an ENUMERATED type.
#[derive(Clone, Debug)]
pub struct Enumeral {
    pub name: String,
    pub index: i128,
}

/// An ENUMERATED type; items from `extensible` on are extension additions.
#[derive(Clone, Debug)]
pub struct Enumerated {
    pub members: Vec<Enumeral>,
    pub extensible: Option<usize>,
}

/// A member of a SEQUENCE or SET.
#[derive(Debug)]
pub struct SequenceOrSetMember {
    pub name: String,
    pub ty: Asn1Type,
    pub default_value: Option<Asn1Value>,
    pub is_optional: bool,
    pub constraints: Vec<Constraint>,
}

/// A SEQUENCE or SET type; members from `extensible` on are extension
/// additions.
#[derive(Debug)]
pub struct SequenceOrSet {
    pub members: Vec<SequenceOrSetMember>,
    pub extensible: Option<usize>,
}

/// An option of a CHOICE type.
#[derive(Debug)]
pub struct ChoiceOption {
    pub name: String,
    pub ty: Asn1Type,
    pub constraints: Vec<Constraint>,
}

/// A CHOICE type; options from `extensible` on are extension additions.
#[derive(Debug)]
pub struct Choice {
    pub options: Vec<ChoiceOption>,
    pub extensible: Option<usize>,
}

/// A SEQUENCE OF or SET OF type.
#[derive(Debug)]
pub struct SequenceOrSetOf {
    pub element_type: Box<Asn1Type>,
    pub constraints: Vec<Constraint>,
}

/// A reference to a type declared elsewhere.
#[derive(Clone, Debug)]
pub struct DeclarationElsewhere {
    pub identifier: String,
    pub constraints: Vec<Constraint>,
}

/// The `Choice.option` selection syntax.
#[derive(Clone, Debug)]
pub struct ChoiceSelectionType {
    pub choice_name: String,
    pub selected_option: String,
}

/// An ASN.1 type node.
#[derive(Debug)]
pub enum Asn1Type {
    Null,
    Boolean(Vec<Constraint>),
    Integer(Integer),
    Real,
    ObjectIdentifier,
    BitString,
    OctetString(Vec<Constraint>),
    GeneralizedTime,
    UtcTime,
    Time,
    CharacterString(CharacterString),
    Enumerated(Enumerated),
    Choice(Choice),
    Sequence(SequenceOrSet),
    SetType(SequenceOrSet),
    SequenceOf(SequenceOrSetOf),
    SetOf(SequenceOrSetOf),
    ElsewhereDeclaredType(DeclarationElsewhere),
    /// A reference to a field of an information object class, with its
    /// constraints.
    InformationObjectFieldReference(Vec<Constraint>),
    EmbeddedPdv,
    External,
    ChoiceSelectionType(ChoiceSelectionType),
}

/// A linked ASN.1 value.
#[derive(Debug)]
pub enum Asn1Value {
    All,
    Null,
    Boolean(bool),
    Choice { type_ref: Option<String>, variant_name: String, inner_value: Box<Asn1Value> },
    /// A struct-like value before linking: its fields by optional name.
    SequenceOrSet(Vec<(Option<String>, Asn1Value)>),
    Integer(i128),
    /// A real value, as the decimal text that the front end wrote for it.
    Real(String),
    String(String),
    BitString(Vec<bool>),
    OctetString(Vec<u8>),
    EnumeratedValue { enumerated: String, enumerable: String },
    Time(String),
    ElsewhereDeclaredValue { identifier: String },
    /// An object identifier, by the numbers of its arcs.
    ObjectIdentifier(Vec<Option<u128>>),
    LinkedNestedValue { supertypes: Vec<String>, value: Box<Asn1Value> },
    LinkedIntValue { integer_type: IntegerType, value: i128 },
    LinkedStructLikeValue(Vec<(String, Asn1Value)>),
    LinkedArrayLikeValue(Vec<Asn1Value>),
    LinkedCharStringValue(CharacterStringType, String),
    LinkedElsewhereDefinedValue { identifier: String, can_be_const: bool },
}

/// The target-language dialect that is rendered: ROS `.msg` schemas or
/// C conversion headers.
#[derive(Clone, Copy, Debug, PartialEq, Eq, Structural)]
pub enum Dialect {
    Msg,
    Header,
}

} // verus!

verus! {

/// A field of an information object class, in the order the class declares.
#[derive(Clone, Debug)]
pub struct InformationObjectClassField {
    pub identifier: String,
    /// Whether this field is the class's unique key.
    pub is_unique: bool,
    pub is_optional: bool,
}

/// An information object class.
#[derive(Clone, Debug)]
pub struct InformationObjectClass {
    pub fields: Vec<InformationObjectClassField>,
}

/// A field of an information object, as the object was written.
#[derive(Debug)]
pub enum InformationObjectField {
    TypeField { identifier: String, ty: Asn1Type },
    FixedValueField { identifier: String, value: Asn1Value },
    ObjectSetField { identifier: String },
}

} // verus!
