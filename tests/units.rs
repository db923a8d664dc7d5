use ros_backend_core::case::{
    format_comments, inner_name, to_ros_const_case, to_ros_snake_case, to_ros_title_case,
};
use ros_backend_core::constraints::{format_alphabet_annotations, format_constraints};
use ros_backend_core::conversion;
use ros_backend_core::error::GeneratorErrorType;
use ros_backend_core::ir::{
    Asn1Type, Asn1Value, CharacterString, CharacterStringType, Choice, ChoiceOption,
    ChoiceSelectionType, Constraint, DeclarationElsewhere, DistinguishedValue, Enumeral,
    Enumerated, InformationObjectClass, InformationObjectClassField, InformationObjectField,
    Integer, IntegerType, ObjectSetValue, PerVisibleRange, SequenceOrSet, SequenceOrSetMember,
    SequenceOrSetOf,
};
use ros_backend_core::members::{
    format_choice_options, format_distinguished_values, format_enum_members,
    format_sequence_or_set_members,
};
use ros_backend_core::resolve::{constraints_and_type_name, needs_unnesting};
use ros_backend_core::ir::{CharsetSubset, Dialect};
use ros_backend_core::ros;
use ros_backend_core::syntax::resolve_standard_syntax;
use ros_backend_core::values::{
    format_default_methods, format_sequence_or_set_of_item_type, value_to_tokens,
};
use ros_backend_core::width::int_type_token;

fn range(min: Option<i128>, max: Option<i128>, extensible: bool, size: bool) -> PerVisibleRange {
    PerVisibleRange { min, max, extensible, is_size_constraint: size }
}

fn some_constraint() -> Vec<Constraint> {
    vec![Constraint::ValueRange { min: None, max: None, extensible: false }]
}

fn member(name: &str, ty: Asn1Type, optional: bool, default: Option<Asn1Value>) -> SequenceOrSetMember {
    SequenceOrSetMember { name: name.to_string(), ty, default_value: default, is_optional: optional, constraints: vec![] }
}

fn option(name: &str, ty: Asn1Type) -> ChoiceOption {
    ChoiceOption { name: name.to_string(), ty, constraints: vec![] }
}

fn int_of(t: IntegerType) -> Asn1Type {
    Asn1Type::Integer(Integer {
        constraints: vec![],
        distinguished_values: None,
        per_visible: range(None, None, false, false),
        int_type: t,
    })
}

#[test]
fn width_selection_picks_narrowest() {
    assert_eq!(int_type_token(Some(0), Some(255), false), "uint8");
    assert_eq!(int_type_token(Some(0), Some(256), false), "uint16");
    assert_eq!(int_type_token(Some(0), Some(65_535), false), "uint16");
    assert_eq!(int_type_token(Some(0), Some(4_294_967_295), false), "uint32");
    assert_eq!(int_type_token(Some(0), Some(4_294_967_296), false), "uint64");
    assert_eq!(int_type_token(Some(-128), Some(127), false), "int8");
    assert_eq!(int_type_token(Some(-129), Some(127), false), "int16");
    assert_eq!(int_type_token(Some(-1), Some(40_000), false), "int32");
    assert_eq!(int_type_token(Some(-1), Some(1i128 << 40), false), "int64");
    assert_eq!(int_type_token(Some(-1), Some(1i128 << 70), false), "int64");
    assert_eq!(int_type_token(Some(0), Some(1i128 << 70), false), "uint64");
}

#[test]
fn width_selection_falls_back_to_int64() {
    assert_eq!(int_type_token(Some(0), Some(255), true), "int64");
    assert_eq!(int_type_token(None, Some(255), false), "int64");
    assert_eq!(int_type_token(Some(0), None, false), "int64");
}

#[test]
fn width_selection_is_monotonic_on_examples() {
    let order = ["uint8", "int8", "uint16", "int16", "uint32", "int32", "uint64", "int64"];
    let bits = |t: String| -> usize { 8 << (order.iter().position(|o| *o == t).unwrap() / 2) };
    assert!(bits(int_type_token(Some(-1), Some(200), false)) >= bits(int_type_token(Some(0), Some(200), false)));
    assert!(bits(int_type_token(Some(0), Some(70_000), false)) >= bits(int_type_token(Some(10), Some(300), false)));
    assert!(bits(int_type_token(Some(-5), Some(5), true)) >= bits(int_type_token(Some(0), Some(1), true)));
}

#[test]
fn constraints_empty_list_renders_nothing() {
    assert_eq!(format_constraints(&vec![], &range(Some(0), Some(9), false, false)), "");
}

#[test]
fn constraints_range_renders_min_and_max() {
    assert_eq!(
        format_constraints(&some_constraint(), &range(Some(0), Some(255), false, false)),
        "uint8 VALUE_MIN = 0\nuint8 VALUE_MAX = 255"
    );
}

#[test]
fn constraints_exact_value_collapses() {
    assert_eq!(format_constraints(&some_constraint(), &range(Some(5), Some(5), false, false)), "uint8 VALUE = 5");
}

#[test]
fn constraints_extensible_exact_value_keeps_both_bounds() {
    assert_eq!(
        format_constraints(&some_constraint(), &range(Some(5), Some(5), true, false)),
        "int64 VALUE_MIN = 5\nint64 VALUE_MAX = 5"
    );
}

#[test]
fn constraints_default_size_renders_nothing() {
    assert_eq!(format_constraints(&some_constraint(), &range(Some(0), None, false, true)), "");
    assert_eq!(format_constraints(&some_constraint(), &range(Some(0), None, true, true)), "int64 LENGTH_MIN = 0");
}

#[test]
fn constraints_size_and_one_sided_ranges() {
    assert_eq!(
        format_constraints(&some_constraint(), &range(Some(1), Some(16), false, true)),
        "uint8 LENGTH_MIN = 1\nuint8 LENGTH_MAX = 16"
    );
    assert_eq!(format_constraints(&some_constraint(), &range(None, Some(-1), false, false)), "int64 VALUE_MAX = -1");
    assert_eq!(format_constraints(&some_constraint(), &range(None, None, false, false)), "");
}

fn parse_back(text: &str) -> (Option<i128>, Option<i128>) {
    let mut min = None;
    let mut max = None;
    for line in text.lines() {
        let (name, value) = line.split_once(" = ").unwrap();
        let value: i128 = value.parse().unwrap();
        if name.ends_with("_MIN") {
            min = Some(value);
        } else if name.ends_with("_MAX") {
            max = Some(value);
        } else {
            min = Some(value);
            max = Some(value);
        }
    }
    (min, max)
}

#[test]
fn constraints_range_round_trip() {
    for (min, max, ext) in [
        (Some(-300), Some(7), false),
        (Some(3), Some(3), false),
        (Some(3), Some(3), true),
        (None, Some(-170_141_183_460_469_231_731_687_303_715_884_105_728), false),
        (Some(i128::MAX), None, true),
    ] {
        let text = format_constraints(&some_constraint(), &range(min, max, ext, false));
        assert_eq!(parse_back(&text), (min, max));
    }
}

#[test]
fn snake_case_of_camel_case() {
    assert_eq!(to_ros_snake_case("aBigNumber"), "a_big_number");
    assert_eq!(to_ros_snake_case("item-Code"), "item_code");
    assert_eq!(to_ros_snake_case("x2Y"), "x2_y");
    assert_eq!(to_ros_snake_case(""), "");
}

#[test]
fn const_and_title_case() {
    assert_eq!(to_ros_const_case("aByteString"), "A_BYTE_STRING");
    assert_eq!(to_ros_title_case("Item-Code-List"), "ItemCodeList");
    assert_eq!(inner_name(&"member".to_string(), &"Parent".to_string()), "Parentmember");
}

#[test]
fn comments_in_both_dialects() {
    assert_eq!(format_comments("one\ntwo").unwrap(), "# one\n#two\n");
    assert_eq!(format_comments("").unwrap(), "");
    assert_eq!(conversion::format_comments("one\ntwo").unwrap(), "// one\n//two\n");
}

#[test]
fn resolver_names_types() {
    let p = "Parent".to_string();
    let n = "child".to_string();
    let seq_of = Asn1Type::SequenceOf(SequenceOrSetOf { element_type: Box::new(Asn1Type::Boolean(vec![])), constraints: vec![] });
    assert_eq!(constraints_and_type_name(&seq_of, &n, &p, Dialect::Msg).unwrap().1, "bool[]");
    assert_eq!(constraints_and_type_name(&Asn1Type::Null, &n, &p, Dialect::Msg).unwrap().1, "byte");
    assert_eq!(constraints_and_type_name(&Asn1Type::Real, &n, &p, Dialect::Msg).unwrap().1, "float64");
    let nested = Asn1Type::Choice(Choice { options: vec![], extensible: None });
    assert_eq!(constraints_and_type_name(&nested, &n, &p, Dialect::Msg).unwrap().1, "Parentchild");
    let alias = Asn1Type::ElsewhereDeclaredType(DeclarationElsewhere { identifier: "Other-Type".to_string(), constraints: vec![] });
    assert_eq!(constraints_and_type_name(&alias, &n, &p, Dialect::Msg).unwrap().1, "OtherType");
    let text = Asn1Type::CharacterString(CharacterString { ty: CharacterStringType::IA5String, constraints: vec![] });
    assert_eq!(constraints_and_type_name(&text, &n, &p, Dialect::Msg).unwrap().1, "string");
    assert_eq!(constraints_and_type_name(&text, &n, &p, Dialect::Header).unwrap().1, "IA5String");
}

#[test]
fn resolver_table_constraint_reference() {
    let p = "P".to_string();
    let n = "n".to_string();
    let field = Asn1Type::InformationObjectFieldReference(vec![Constraint::Table(vec![
        ObjectSetValue::Reference("MyObjects".to_string()),
        ObjectSetValue::Inline,
    ])]);
    assert_eq!(constraints_and_type_name(&field, &n, &p, Dialect::Msg).unwrap().1, "MyObjects");
    let inline = Asn1Type::InformationObjectFieldReference(vec![Constraint::Table(vec![ObjectSetValue::Inline])]);
    assert_eq!(constraints_and_type_name(&inline, &n, &p, Dialect::Msg).unwrap().1, "");
    let empty = Asn1Type::InformationObjectFieldReference(vec![]);
    assert_eq!(constraints_and_type_name(&empty, &n, &p, Dialect::Msg).unwrap().1, "");
}

#[test]
fn resolver_errors() {
    let p = "P".to_string();
    let n = "n".to_string();
    assert_eq!(constraints_and_type_name(&Asn1Type::BitString, &n, &p, Dialect::Msg).unwrap_err().kind, GeneratorErrorType::NotYetImplemented);
    let sel = Asn1Type::ChoiceSelectionType(ChoiceSelectionType { choice_name: "C".to_string(), selected_option: "o".to_string() });
    assert_eq!(constraints_and_type_name(&sel, &n, &p, Dialect::Msg).unwrap_err().kind, GeneratorErrorType::InvariantViolation);
}

#[test]
fn unnesting_predicate() {
    let seq = Asn1Type::Sequence(SequenceOrSet { members: vec![], extensible: None });
    let seq_of_seq = Asn1Type::SequenceOf(SequenceOrSetOf { element_type: Box::new(seq), constraints: vec![] });
    assert!(needs_unnesting(&seq_of_seq));
    let seq_of_bool = Asn1Type::SetOf(SequenceOrSetOf { element_type: Box::new(Asn1Type::Boolean(vec![])), constraints: vec![] });
    assert!(!needs_unnesting(&seq_of_bool));
}

#[test]
fn presence_flag_precedes_optional_member() {
    let s = SequenceOrSet {
        members: vec![
            member("mandatory", Asn1Type::Boolean(vec![]), false, None),
            member("maybeValue", Asn1Type::Boolean(vec![]), true, None),
            member("withDefault", Asn1Type::Boolean(vec![]), true, Some(Asn1Value::Boolean(true))),
            member("ext_group_one", Asn1Type::Boolean(vec![]), false, None),
        ],
        extensible: Some(3),
    };
    assert_eq!(
        format_sequence_or_set_members(&s, &"S".to_string()).unwrap(),
        "bool mandatory\nbool maybe_value_present\nbool maybe_value\nbool with_default\n\
         # .extension_addition_group\nbool ext_group_one_present\nbool ext_group_one\n"
    );
}

#[test]
fn selectors_follow_declaration_order() {
    let opts = vec![option("a", Asn1Type::Boolean(vec![])), option("b", Asn1Type::Null), option("c", Asn1Type::Real)];
    let plain = Choice { options: opts, extensible: None };
    let expected = "bool a\nbyte b\nfloat64 c\n\nuint8 CHOICE_A = 0\nuint8 CHOICE_B = 1\nuint8 CHOICE_C = 2\n";
    assert_eq!(format_choice_options(&plain, &"C".to_string()).unwrap(), expected);
    let opts = vec![option("a", Asn1Type::Boolean(vec![])), option("b", Asn1Type::Null), option("c", Asn1Type::Real)];
    let extended = Choice { options: opts, extensible: Some(1) };
    assert_eq!(
        format_choice_options(&extended, &"C".to_string()).unwrap(),
        "bool a\n# .extension_addition\nbyte b\n# .extension_addition\nfloat64 c\n\n\
         uint8 CHOICE_A = 0\nuint8 CHOICE_B = 1\nuint8 CHOICE_C = 2\n"
    );
}

#[test]
fn enum_members_mark_extensions() {
    let e = Enumerated {
        members: vec![Enumeral { name: "off".to_string(), index: 0 }, Enumeral { name: "onHigh".to_string(), index: 5 }],
        extensible: Some(1),
    };
    assert_eq!(format_enum_members(&e), "uint8 OFF = 0\n# .extended\nuint8 ON_HIGH = 5\n");
}

#[test]
fn distinguished_values_render_as_templates() {
    let d = Some(vec![DistinguishedValue { name: "maxSpeed".to_string(), value: -2 }]);
    assert_eq!(format_distinguished_values(&d), "{type} {prefix}MAX_SPEED = -2\n");
    assert_eq!(format_distinguished_values(&None), "");
}

#[test]
fn default_constants_take_the_declared_type() {
    let members = vec![
        member("level", Asn1Type::Enumerated(Enumerated { members: vec![], extensible: None }), false,
            Some(Asn1Value::EnumeratedValue { enumerated: "Level".to_string(), enumerable: "high".to_string() })),
        member("on", Asn1Type::Boolean(vec![]), false, Some(Asn1Value::Boolean(false))),
        member("plain", Asn1Type::Boolean(vec![]), false, None),
    ];
    let err = format_default_methods(&members, "P").unwrap_err();
    assert_eq!(err.kind, GeneratorErrorType::NotYetImplemented);
    let members = vec![
        member("count", int_of(IntegerType::Uint16), false,
            Some(Asn1Value::LinkedNestedValue { supertypes: vec![], value: Box::new(Asn1Value::LinkedIntValue { integer_type: IntegerType::Int8, value: 7 }) })),
        member("on", Asn1Type::Boolean(vec![]), false, Some(Asn1Value::Boolean(false))),
        member("plain", Asn1Type::Boolean(vec![]), false, None),
    ];
    assert_eq!(format_default_methods(&members, "P").unwrap(), "int8 COUNT_DEFAULT = 7\nbool ON_DEFAULT = false\n");
    let members = vec![
        member("limit", int_of(IntegerType::Int64), false, Some(Asn1Value::LinkedIntValue { integer_type: IntegerType::Uint32, value: 9 })),
        member("size", int_of(IntegerType::Uint16), false, Some(Asn1Value::Integer(-3))),
    ];
    assert_eq!(format_default_methods(&members, "P").unwrap(), "uint32 LIMIT_DEFAULT = 9\nuint16 SIZE_DEFAULT = -3\n");
}

#[test]
fn value_literals() {
    let t = "T".to_string();
    assert_eq!(value_to_tokens(&Asn1Value::Integer(-42), None).unwrap(), "-42");
    assert_eq!(value_to_tokens(&Asn1Value::Boolean(true), None).unwrap(), "true");
    assert_eq!(value_to_tokens(&Asn1Value::Real("2.5".to_string()), None).unwrap(), "2.5");
    assert_eq!(
        value_to_tokens(&Asn1Value::EnumeratedValue { enumerated: "Colour".to_string(), enumerable: "red".to_string() }, None).unwrap(),
        "Colour_red"
    );
    let nested = Asn1Value::LinkedNestedValue { supertypes: vec![], value: Box::new(Asn1Value::String("abc".to_string())) };
    assert_eq!(value_to_tokens(&nested, None).unwrap(), "abc");
    let struct_like = Asn1Value::LinkedStructLikeValue(vec![]);
    assert_eq!(value_to_tokens(&struct_like, None).unwrap_err().kind, GeneratorErrorType::Unidentified);
    assert_eq!(value_to_tokens(&struct_like, Some(&t)).unwrap_err().kind, GeneratorErrorType::NotYetImplemented);
    assert_eq!(value_to_tokens(&Asn1Value::SequenceOrSet(vec![]), Some(&t)).unwrap_err().kind, GeneratorErrorType::Unidentified);
    assert_eq!(value_to_tokens(&Asn1Value::All, None).unwrap_err().kind, GeneratorErrorType::NotYetImplemented);
    let array_like = Asn1Value::LinkedArrayLikeValue(vec![Asn1Value::Integer(1)]);
    assert_eq!(value_to_tokens(&array_like, None).unwrap_err().kind, GeneratorErrorType::Unidentified);
    assert_eq!(value_to_tokens(&array_like, Some(&t)).unwrap_err().kind, GeneratorErrorType::NotYetImplemented);
    let text = Asn1Value::LinkedCharStringValue(CharacterStringType::IA5String, "x".to_string());
    assert_eq!(value_to_tokens(&text, Some(&t)).unwrap_err().kind, GeneratorErrorType::NotYetImplemented);
}

#[test]
fn constant_type_names_per_dialect() {
    let text = Asn1Type::CharacterString(CharacterString { ty: CharacterStringType::UTF8String, constraints: vec![] });
    assert_eq!(ros::type_to_tokens(&text).unwrap(), "Utf8String");
    assert_eq!(conversion::type_to_tokens(&text).unwrap(), "UTF8String");
    assert_eq!(ros::type_to_tokens(&int_of(IntegerType::Uint32)).unwrap(), "uint32");
    assert_eq!(ros::type_to_tokens(&Asn1Type::External).unwrap(), "Any");
    assert_eq!(ros::type_to_tokens(&Asn1Type::Null).unwrap_err().kind, GeneratorErrorType::NotYetImplemented);
    assert_eq!(ros::string_type(&CharacterStringType::BMPString).unwrap(), "BmpString");
    assert_eq!(conversion::string_type(&CharacterStringType::BMPString).unwrap(), "BMPString");
}

#[test]
fn item_types_of_sequence_of_values() {
    let first = Asn1Value::LinkedIntValue { integer_type: IntegerType::Uint16, value: 4 };
    assert_eq!(format_sequence_or_set_of_item_type("INTEGER".to_string(), Some(&first)), "uint16");
    assert_eq!(format_sequence_or_set_of_item_type("INTEGER".to_string(), None), "int64");
    assert_eq!(format_sequence_or_set_of_item_type("BOOLEAN".to_string(), None), "bool");
    assert_eq!(format_sequence_or_set_of_item_type("UTCTime".to_string(), None), "UtcTime");
    assert_eq!(format_sequence_or_set_of_item_type("MyType".to_string(), None), "MyType");
}

#[test]
fn const_classification() {
    assert!(Asn1Value::Boolean(true).is_const_type());
    assert!(!Asn1Value::LinkedIntValue { integer_type: IntegerType::Unbounded, value: 1 }.is_const_type());
    assert!(Asn1Value::LinkedIntValue { integer_type: IntegerType::Int8, value: 1 }.is_const_type());
    assert!(!Asn1Value::Integer(1).is_const_type());
    let ok = Asn1Type::Sequence(SequenceOrSet {
        members: vec![member("a", Asn1Type::Boolean(vec![]), false, None), member("b", int_of(IntegerType::Uint8), false, None)],
        extensible: None,
    });
    assert!(ok.is_const_type());
    let not = Asn1Type::Choice(Choice { options: vec![option("a", int_of(IntegerType::Unbounded))], extensible: None });
    assert!(!not.is_const_type());
}

#[test]
fn conversion_member_listings() {
    let s = SequenceOrSet {
        members: vec![
            member("count", int_of(IntegerType::Uint8), true, None),
            member("ref", Asn1Type::ElsewhereDeclaredType(DeclarationElsewhere { identifier: "A-B".to_string(), constraints: vec![] }), false, Some(Asn1Value::Null)),
        ],
        extensible: None,
    };
    let names = conversion::get_sequence_or_set_members_names(&s);
    assert_eq!(names.len(), 2);
    assert_eq!(names[0].name_type.ty, "INTEGER");
    assert!(names[0].name_type.is_primitive && names[0].is_optional && !names[0].has_default);
    assert_eq!(names[1].name_type.ty, "AB");
    assert!(!names[1].name_type.is_primitive && names[1].has_default);
    let c = Choice { options: vec![option("flag", Asn1Type::Boolean(vec![]))], extensible: None };
    let names = conversion::get_choice_members_names(&c);
    assert_eq!(names[0].name, "flag");
    assert_eq!(names[0].ty, "BOOLEAN");
}

fn class(fields: &[(&str, bool, bool)]) -> InformationObjectClass {
    InformationObjectClass {
        fields: fields
            .iter()
            .map(|(id, unique, optional)| InformationObjectClassField { identifier: id.to_string(), is_unique: *unique, is_optional: *optional })
            .collect(),
    }
}

#[test]
fn syntax_resolution_extracts_key_and_types() {
    let c = class(&[("&id", true, false), ("&Type", false, false), ("&Extra", false, true), ("&Other", false, false)]);
    let app = vec![
        InformationObjectField::FixedValueField { identifier: "&id".to_string(), value: Asn1Value::Integer(7) },
        InformationObjectField::TypeField { identifier: "&Type".to_string(), ty: Asn1Type::Boolean(vec![]) },
        InformationObjectField::TypeField { identifier: "&Other".to_string(), ty: Asn1Type::Real },
    ];
    let (key, types) = resolve_standard_syntax(&c, &app).unwrap();
    assert!(matches!(key, Asn1Value::Integer(7)));
    assert_eq!(types.len(), 2);
    assert_eq!(types[0].0, 1);
    assert!(matches!(types[0].1, Asn1Type::Boolean(_)));
    assert_eq!(types[1].0, 2);
    assert!(matches!(types[1].1, Asn1Type::Real));
}

#[test]
fn syntax_resolution_needs_exactly_one_unique_field() {
    let app = vec![InformationObjectField::FixedValueField { identifier: "&id".to_string(), value: Asn1Value::Integer(1) }];
    let none = class(&[("&id", false, false)]);
    assert_eq!(resolve_standard_syntax(&none, &app).unwrap_err().kind, GeneratorErrorType::MissingClassKey);
    let two = class(&[("&id", true, false), ("&code", true, false)]);
    assert_eq!(resolve_standard_syntax(&two, &app).unwrap_err().kind, GeneratorErrorType::MissingClassKey);
}

#[test]
fn syntax_resolution_mismatch_and_missing_key() {
    let c = class(&[("&id", true, false), ("&Type", false, false)]);
    let wrong = vec![InformationObjectField::TypeField { identifier: "&Type".to_string(), ty: Asn1Type::Null }];
    assert_eq!(resolve_standard_syntax(&c, &wrong).unwrap_err().kind, GeneratorErrorType::SyntaxMismatch);
    let c = class(&[("&Type", false, false), ("&id", true, true)]);
    let no_key = vec![InformationObjectField::TypeField { identifier: "&Type".to_string(), ty: Asn1Type::Null }];
    assert_eq!(resolve_standard_syntax(&c, &no_key).unwrap_err().kind, GeneratorErrorType::MissingClassKey);
    let c = class(&[("&id", true, false)]);
    let set = vec![InformationObjectField::ObjectSetField { identifier: "&id".to_string() }];
    assert_eq!(resolve_standard_syntax(&c, &set).unwrap_err().kind, GeneratorErrorType::NotYetImplemented);
}

#[test]
fn alphabet_annotation_needs_constraints_and_parts() {
    let parts = vec![CharsetSubset::Single('a'), CharsetSubset::Range { from: Some('0'), to: None }];
    assert_eq!(format_alphabet_annotations(&vec![Constraint::PermittedAlphabet], &parts), "from(#alphabet_unicode)");
    assert_eq!(format_alphabet_annotations(&vec![], &parts), "");
    assert_eq!(format_alphabet_annotations(&vec![Constraint::PermittedAlphabet], &vec![]), "");
}


#[test]
fn resolver_hands_on_outer_constraints() {
    let p = "P".to_string();
    let n = "n".to_string();
    let size = Constraint::SizeRange { min: Some(1), max: Some(4), extensible: false };
    let element = Asn1Type::OctetString(vec![Constraint::SizeRange { min: Some(2), max: Some(2), extensible: false }]);
    let list = Asn1Type::SequenceOf(SequenceOrSetOf { element_type: Box::new(element), constraints: vec![size] });
    let (cs, name) = constraints_and_type_name(&list, &n, &p, Dialect::Msg).unwrap();
    assert_eq!(name, "uint8[][]");
    assert_eq!(cs.len(), 1);
    assert!(matches!(cs[0], Constraint::SizeRange { min: Some(1), max: Some(4), extensible: false }));
    let (cs, _) = constraints_and_type_name(&Asn1Type::Real, &n, &p, Dialect::Msg).unwrap();
    assert!(cs.is_empty());
}

#[test]
fn negative_default_keeps_its_sign() {
    let m = SequenceOrSetMember {
        name: "offset".to_string(),
        ty: Asn1Type::Integer(Integer {
            constraints: some_constraint(),
            distinguished_values: None,
            per_visible: range(Some(-128), Some(127), false, false),
            int_type: IntegerType::Int8,
        }),
        default_value: Some(Asn1Value::LinkedNestedValue {
            supertypes: vec![],
            value: Box::new(Asn1Value::LinkedIntValue { integer_type: IntegerType::Int8, value: -1 }),
        }),
        is_optional: false,
        constraints: vec![],
    };
    assert_eq!(format_default_methods(&vec![m], "P").unwrap(), "int8 OFFSET_DEFAULT = -1\n");
}

#[test]
fn nested_declarations_are_one_entry_each() {
    let inner = |n: &str| Asn1Type::Sequence(SequenceOrSet { members: vec![member(n, Asn1Type::Boolean(vec![]), false, None)], extensible: None });
    let s = SequenceOrSet {
        members: vec![
            member("first", inner("x"), false, None),
            member("plain", Asn1Type::Boolean(vec![]), false, None),
            member("second", inner("y"), false, None),
        ],
        extensible: None,
    };
    let parent = "Outer".to_string();
    let v = ros::format_nested_sequence_members(&s, &parent).unwrap();
    assert_eq!(v.len(), 2);
    assert_eq!(v[0], ros::generate(&"Outerfirst".to_string(), " Inner type ", &inner("x")).unwrap());
    assert_eq!(v[1], ros::generate(&"Outersecond".to_string(), " Inner type ", &inner("y")).unwrap());
    let c = Choice { options: vec![option("a", inner("x")), option("b", Asn1Type::Null), option("c", inner("z"))], extensible: None };
    let v = ros::format_nested_choice_options(&c, &parent).unwrap();
    assert_eq!(v.len(), 2);
    assert_eq!(v[0], ros::generate(&"Outera".to_string(), " Inner type ", &inner("x")).unwrap());
    assert_eq!(v[1], ros::generate(&"Outerc".to_string(), " Inner type ", &inner("z")).unwrap());
}

#[test]
fn single_extension_addition_is_marked() {
    let s = SequenceOrSet {
        members: vec![member("root", Asn1Type::Boolean(vec![]), false, None), member("later", Asn1Type::Boolean(vec![]), true, None)],
        extensible: Some(1),
    };
    assert_eq!(
        format_sequence_or_set_members(&s, &"S".to_string()).unwrap(),
        "bool root\n# .extension_addition\nbool later_present\nbool later\n"
    );
}
