use ros_backend_core::ir::{
    Asn1Type, Asn1Value, Choice, ChoiceOption, Constraint, Integer, IntegerType, PerVisibleRange,
    SequenceOrSet, SequenceOrSetMember,
};
use ros_backend_core::ros::generate;

fn range(min: Option<i128>, max: Option<i128>, extensible: bool) -> PerVisibleRange {
    PerVisibleRange { min, max, extensible, is_size_constraint: false }
}

fn integer(min: Option<i128>, max: Option<i128>) -> Asn1Type {
    let constrained = min.is_some() || max.is_some();
    let int_type = match (min, max) {
        (Some(0), Some(255)) => IntegerType::Uint8,
        _ => IntegerType::Unbounded,
    };
    Asn1Type::Integer(Integer {
        constraints: if constrained {
            vec![Constraint::ValueRange { min, max, extensible: false }]
        } else {
            vec![]
        },
        distinguished_values: None,
        per_visible: range(min, max, false),
        int_type,
    })
}

fn unbounded_integer() -> Asn1Type {
    integer(None, None)
}

fn member(name: &str, ty: Asn1Type) -> SequenceOrSetMember {
    SequenceOrSetMember {
        name: name.to_string(),
        ty,
        default_value: None,
        is_optional: false,
        constraints: vec![],
    }
}

fn option(name: &str, ty: Asn1Type) -> ChoiceOption {
    ChoiceOption { name: name.to_string(), ty, constraints: vec![] }
}

/// The generated text without its markers and header line, and without
/// whitespace.
fn body(name: &str, ty: &Asn1Type) -> String {
    generate(&name.to_string(), "", ty)
        .unwrap()
        .replace("#<typedef>\n", "")
        .replace("\n#</typedef>", "")
        .lines()
        .skip(1)
        .collect::<Vec<&str>>()
        .join("\n")
        .replace(|c: char| c.is_whitespace(), "")
}

fn squeeze(s: &str) -> String {
    s.replace(|c: char| c.is_whitespace(), "")
}

#[test]
fn single_byte() {
    assert_eq!(
        body("SingleByte", &integer(Some(0), Some(255))),
        squeeze(" uint8 value
        uint8 VALUE_MIN = 0
        uint8 VALUE_MAX = 255 ")
    );
}

#[test]
fn integer_unconstrained() {
    assert_eq!(body("Unbound", &unbounded_integer()), squeeze(" int64 value "));
}

#[test]
fn integer_constrained_positive() {
    assert_eq!(
        body("PositiveNumber", &integer(Some(0), None)),
        squeeze(" int64 value
        int64 VALUE_MIN = 0 ")
    );
}

#[test]
fn integer_constrained_negative() {
    assert_eq!(
        body("NegativeNumber", &integer(None, Some(-1))),
        squeeze(" int64 value
        int64 VALUE_MAX = -1 ")
    );
}

#[test]
fn sequence() {
    let ty = Asn1Type::Sequence(SequenceOrSet {
        members: vec![member("aBigNumber", unbounded_integer()), member("anotherBigNumber", unbounded_integer())],
        extensible: None,
    });
    assert_eq!(
        body("Seq", &ty),
        squeeze(" int64 a_big_number
        int64 another_big_number ")
    );
}

#[test]
fn boolean() {
    assert_eq!(body("Maybe", &Asn1Type::Boolean(vec![])), squeeze(" bool value "));
}

#[test]
fn choice() {
    let ty = Asn1Type::Choice(Choice {
        options: vec![option("aNumber", unbounded_integer()), option("aByteString", Asn1Type::OctetString(vec![]))],
        extensible: None,
    });
    assert_eq!(
        body("Choose", &ty),
        squeeze(" uint8 choice

        int64 a_number
        uint8[] a_byte_string

        uint8 CHOICE_A_NUMBER = 0
        uint8 CHOICE_A_BYTE_STRING = 1")
    );
}

#[test]
fn generated_block_has_markers_and_header() {
    let out = generate(&"Maybe".to_string(), "a flag", &Asn1Type::Boolean(vec![])).unwrap();
    assert_eq!(out, "#<typedef>\n## BOOLEAN Maybe\n# a flag\nbool value\n\n#</typedef>\n");
}

#[test]
fn nested_sequence_is_declared_after_its_parent() {
    let inner = Asn1Type::Sequence(SequenceOrSet { members: vec![member("x", Asn1Type::Boolean(vec![]))], extensible: None });
    let ty = Asn1Type::Sequence(SequenceOrSet {
        members: vec![member("inner", inner), member("flag", Asn1Type::Boolean(vec![]))],
        extensible: None,
    });
    let out = generate(&"Outer".to_string(), "", &ty).unwrap();
    assert_eq!(
        out,
        "#<typedef>\n## SEQUENCE Outer\nOuterinner inner\nbool flag\n\n#</typedef>\n\
         #<typedef>\n## SEQUENCE Outerinner\n#  Inner type \nbool x\n\n#</typedef>\n"
    );
}

#[test]
fn nested_choice_option_is_declared_after_its_parent() {
    let inner = Asn1Type::Enumerated(ros_backend_core::ir::Enumerated {
        members: vec![ros_backend_core::ir::Enumeral { name: "red".to_string(), index: 0 }],
        extensible: None,
    });
    let ty = Asn1Type::Choice(Choice { options: vec![option("colour", inner)], extensible: None });
    let out = generate(&"Pick".to_string(), "", &ty).unwrap();
    assert!(out.ends_with("#<typedef>\n## ENUMERATED Pickcolour\n#  Inner type \nuint8 value\nuint8 RED = 0\n\n#</typedef>\n"));
    assert!(out.contains("Pickcolour colour\n"));
}

#[test]
fn enumerated_declaration_lists_its_items() {
    let ty = Asn1Type::Enumerated(ros_backend_core::ir::Enumerated {
        members: vec![
            ros_backend_core::ir::Enumeral { name: "low".to_string(), index: 0 },
            ros_backend_core::ir::Enumeral { name: "high".to_string(), index: 1 },
        ],
        extensible: Some(1),
    });
    assert_eq!(body("Level", &ty), squeeze("uint8 value uint8 LOW = 0 # .extended uint8 HIGH = 1"));
}

#[test]
fn sequence_declaration_lists_defaults() {
    let mut m = member("retries", integer(Some(0), Some(255)));
    m.default_value = Some(Asn1Value::LinkedNestedValue {
        supertypes: vec![],
        value: Box::new(Asn1Value::LinkedIntValue { integer_type: IntegerType::Uint8, value: 3 }),
    });
    let ty = Asn1Type::Sequence(SequenceOrSet { members: vec![m], extensible: None });
    assert_eq!(body("Config", &ty), squeeze("uint8 retries uint8 RETRIES_DEFAULT = 3"));
}

#[test]
fn generation_error_aborts_the_declaration() {
    let ty = Asn1Type::Sequence(SequenceOrSet { members: vec![member("bits", Asn1Type::BitString)], extensible: None });
    let err = generate(&"Bad".to_string(), "", &ty).unwrap_err();
    assert_eq!(err.kind, ros_backend_core::error::GeneratorErrorType::NotYetImplemented);
}
