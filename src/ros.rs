//! The ROS `.msg` backend: one typedef block per declaration, with the
//! anonymous nested types of aggregates declared after it.
use vstd::prelude::*;
use crate::case::{comment_block, comment_lines, title_case};
use crate::constraints::range_text;
use crate::error::{GeneratorError, GeneratorErrorType};
use crate::ir::{Asn1Type, CharacterStringType, Choice, ChoiceOption, Dialect, SequenceOrSet, SequenceOrSetMember};
use crate::members::{choice_options_text, enum_text, members_text};
use crate::resolve::{needs_own_declaration, needs_unnesting, constraints_and_type_name, string_kind, string_kind_name, target_type_name, text_result};
use crate::values::{constant_type_name, defaults_text, type_token};

pub use crate::case::{format_comments, inner_name, to_ros_const_case, to_ros_snake_case, to_ros_title_case};
pub use crate::constraints::format_constraints;
pub use crate::members::{
    format_choice_options, format_distinguished_values, format_enum_members, format_sequence_or_set_members,
};
pub use crate::syntax::resolve_standard_syntax;
pub use crate::values::{format_default_methods, format_sequence_or_set_of_item_type, value_to_tokens};
pub use crate::width::int_type_token;

verus! {

broadcast use vstd::std_specs::vec::axiom_vec_index_decreases, vstd::std_specs::vec::axiom_vec_decreases_to_view;

/// The kind word of a declaration's header line.
pub open spec fn type_keyword(ty: Asn1Type) -> Seq<char> {
    match ty {
        Asn1Type::Null => "NULL"@,
        Asn1Type::Boolean(_) => "BOOLEAN"@,
        Asn1Type::Integer(_) => "INTEGER"@,
        Asn1Type::Real => "REAL"@,
        Asn1Type::ObjectIdentifier => "OBJECT-IDENTIFIER"@,
        Asn1Type::BitString => "BIT-STRING"@,
        Asn1Type::OctetString(_) => "OCTET-STRING"@,
        Asn1Type::GeneralizedTime => "GeneralizedTime"@,
        Asn1Type::UtcTime => "UTCTime"@,
        Asn1Type::Time => "TIME"@,
        Asn1Type::CharacterString(c) => string_kind_name(c.ty, Dialect::Header),
        Asn1Type::Enumerated(_) => "ENUMERATED"@,
        Asn1Type::Choice(_) => "CHOICE"@,
        Asn1Type::Sequence(_) => "SEQUENCE"@,
        Asn1Type::SetType(_) => "SET"@,
        Asn1Type::SequenceOf(_) => "SEQUENCE-OF"@,
        Asn1Type::SetOf(_) => "SET-OF"@,
        Asn1Type::ElsewhereDeclaredType(e) => title_case(e.identifier@),
        Asn1Type::InformationObjectFieldReference(_) => "CLASS-FIELD"@,
        Asn1Type::EmbeddedPdv => "EMBEDDED-PDV"@,
        Asn1Type::External => "EXTERNAL"@,
        Asn1Type::ChoiceSelectionType(_) => "SELECTION"@,
    }
}

fn keyword(ty: &Asn1Type) -> (r: String)
    ensures
        r@ == type_keyword(*ty),
{
    match ty {
        Asn1Type::Null => String::from_str("NULL"),
        Asn1Type::Boolean(_) => String::from_str("BOOLEAN"),
        Asn1Type::Integer(_) => String::from_str("INTEGER"),
        Asn1Type::Real => String::from_str("REAL"),
        Asn1Type::ObjectIdentifier => String::from_str("OBJECT-IDENTIFIER"),
        Asn1Type::BitString => String::from_str("BIT-STRING"),
        Asn1Type::OctetString(_) => String::from_str("OCTET-STRING"),
        Asn1Type::GeneralizedTime => String::from_str("GeneralizedTime"),
        Asn1Type::UtcTime => String::from_str("UTCTime"),
        Asn1Type::Time => String::from_str("TIME"),
        Asn1Type::CharacterString(c) => string_kind(c.ty, Dialect::Header),
        Asn1Type::Enumerated(_) => String::from_str("ENUMERATED"),
        Asn1Type::Choice(_) => String::from_str("CHOICE"),
        Asn1Type::Sequence(_) => String::from_str("SEQUENCE"),
        Asn1Type::SetType(_) => String::from_str("SET"),
        Asn1Type::SequenceOf(_) => String::from_str("SEQUENCE-OF"),
        Asn1Type::SetOf(_) => String::from_str("SET-OF"),
        Asn1Type::ElsewhereDeclaredType(e) => to_ros_title_case(e.identifier.as_str()),
        Asn1Type::InformationObjectFieldReference(_) => String::from_str("CLASS-FIELD"),
        Asn1Type::EmbeddedPdv => String::from_str("EMBEDDED-PDV"),
        Asn1Type::External => String::from_str("EXTERNAL"),
        Asn1Type::ChoiceSelectionType(_) => String::from_str("SELECTION"),
    }
}

/// The fields and constants of the declaration of `ty` named `name`.
pub open spec fn typedef_body(name: Seq<char>, ty: Asn1Type) -> Result<Seq<char>, GeneratorErrorType> {
    match ty {
        Asn1Type::Enumerated(e) => Ok("uint8 value\n"@ + enum_text(e)),
        Asn1Type::Choice(c) => match choice_options_text(c, name) {
            Ok(t) => Ok("uint8 choice\n\n"@ + t),
            Err(e) => Err(e),
        },
        Asn1Type::Sequence(s) => aggregate_body(s, name),
        Asn1Type::SetType(s) => aggregate_body(s, name),
        _ => match target_type_name(ty, seq![], name, Dialect::Msg) {
            Ok(t) => Ok(t + " value\n"@ + match ty {
                Asn1Type::Integer(i) => if i.constraints@.len() == 0 { seq![] } else { range_text(i.per_visible) },
                _ => seq![],
            }),
            Err(e) => Err(e),
        },
    }
}

/// The member fields of a SEQUENCE or SET, then its default constants.
pub open spec fn aggregate_body(s: SequenceOrSet, name: Seq<char>) -> Result<Seq<char>, GeneratorErrorType> {
    match members_text(s.members@, s.extensible, name, s.members@.len() as int) {
        Ok(a) => match defaults_text(s.members@, s.members@.len() as int) {
            Ok(b) => Ok(a + b),
            Err(e) => Err(e),
        },
        Err(e) => Err(e),
    }
}

/// The typedef block of one declaration: its markers, a header line with
/// its kind and name, its comment and its body.
pub open spec fn typedef_text(name: Seq<char>, comments: Seq<char>, ty: Asn1Type) -> Result<Seq<char>, GeneratorErrorType> {
    match typedef_body(name, ty) {
        Ok(b) => Ok("#<typedef>\n## "@ + type_keyword(ty) + " "@ + name + "\n"@
            + comment_block("# "@, "\n#"@, comments) + b + "\n#</typedef>\n"@),
        Err(e) => Err(e),
    }
}

/// The comment of a nested declaration.
pub open spec fn inner_comment() -> Seq<char> {
    " Inner type "@
}

/// The whole output for the declaration of `ty` named `name`: its typedef
/// block, then those of the nested types of its members or options.
pub open spec fn generated(name: Seq<char>, comments: Seq<char>, ty: Asn1Type) -> Result<Seq<char>, GeneratorErrorType>
    decreases ty, 0int,
{
    match typedef_text(name, comments, ty) {
        Err(e) => Err(e),
        Ok(t) => match ty {
            Asn1Type::Choice(c) => match nested_option_decls(name, c.options@, c.options@.len() as int) {
                Ok(n) => Ok(t + n.flatten()),
                Err(e) => Err(e),
            },
            Asn1Type::Sequence(s) => match nested_member_decls(name, s.members@, s.members@.len() as int) {
                Ok(n) => Ok(t + n.flatten()),
                Err(e) => Err(e),
            },
            Asn1Type::SetType(s) => match nested_member_decls(name, s.members@, s.members@.len() as int) {
                Ok(n) => Ok(t + n.flatten()),
                Err(e) => Err(e),
            },
            _ => Ok(t),
        },
    }
}

/// The declarations of the nested types among the first `n` members, one
/// entry per member that needs its own declaration, in declaration order.
pub open spec fn nested_member_decls(parent: Seq<char>, ms: Seq<SequenceOrSetMember>, n: int) -> Result<Seq<Seq<char>>, GeneratorErrorType>
    decreases ms, n,
{
    if n <= 0 || n > ms.len() {
        Ok(seq![])
    } else {
        match nested_member_decls(parent, ms, n - 1) {
            Err(e) => Err(e),
            Ok(a) => if needs_own_declaration(ms[n - 1].ty) {
                match generated(parent + ms[n - 1].name@, inner_comment(), ms[n - 1].ty) {
                    Ok(b) => Ok(a.push(b)),
                    Err(e) => Err(e),
                }
            } else {
                Ok(a)
            },
        }
    }
}

/// The declarations of the nested types among the first `n` options, one
/// entry per option that needs its own declaration, in declaration order.
pub open spec fn nested_option_decls(parent: Seq<char>, os: Seq<ChoiceOption>, n: int) -> Result<Seq<Seq<char>>, GeneratorErrorType>
    decreases os, n,
{
    if n <= 0 || n > os.len() {
        Ok(seq![])
    } else {
        match nested_option_decls(parent, os, n - 1) {
            Err(e) => Err(e),
            Ok(a) => if needs_own_declaration(os[n - 1].ty) {
                match generated(parent + os[n - 1].name@, inner_comment(), os[n - 1].ty) {
                    Ok(b) => Ok(a.push(b)),
                    Err(e) => Err(e),
                }
            } else {
                Ok(a)
            },
        }
    }
}

/// The texts of a list of strings.
pub open spec fn texts(v: Seq<String>) -> Seq<Seq<char>> {
    v.map_values(|s: String| s@)
}

/// The texts of a list of declarations, one after the other.
pub open spec fn concat_all(v: Seq<String>) -> Seq<char> {
    texts(v).flatten()
}

proof fn lemma_concat_push(v: Seq<String>, s: String)
    ensures
        concat_all(v.push(s)) == concat_all(v) + s@,
        texts(v.push(s)) == texts(v).push(s@),
{
    assert(v.push(s).map_values(|s: String| s@) =~= v.map_values(|s: String| s@).push(s@));
    v.map_values(|s: String| s@).lemma_flatten_push(s@);
}

fn format_typedef(name: &String, comments: &str, ty: &Asn1Type) -> (r: Result<String, GeneratorError>)
    ensures
        text_result(r) == typedef_text(name@, comments@, *ty),
{
    let body = match ty {
        Asn1Type::Enumerated(e) => {
            let mut b = String::from_str("uint8 value\n");
            let items = format_enum_members(e);
            b.append(items.as_str());
            b
        },
        Asn1Type::Choice(c) => {
            let mut b = String::from_str("uint8 choice\n\n");
            let options = format_choice_options(c, name)?;
            b.append(options.as_str());
            b
        },
        Asn1Type::Sequence(s) | Asn1Type::SetType(s) => {
            let mut b = format_sequence_or_set_members(s, name)?;
            let defaults = format_default_methods(&s.members, name.as_str())?;
            b.append(defaults.as_str());
            b
        },
        _ => {
            let (_, mut b) = constraints_and_type_name(ty, &String::new(), name, Dialect::Msg)?;
            b.append(" value\n");
            if let Asn1Type::Integer(i) = ty {
                let bounds = format_constraints(&i.constraints, &i.per_visible);
                b.append(bounds.as_str());
            }
            proof {
                assert(seq![] + name@ =~= name@);
            }
            b
        },
    };
    let mut out = String::from_str("#<typedef>\n## ");
    let kind = keyword(ty);
    out.append(kind.as_str());
    out.append(" ");
    out.append(name.as_str());
    out.append("\n");
    let comment = comment_lines(comments, "# ", "\n#");
    out.append(comment.as_str());
    out.append(body.as_str());
    out.append("\n#</typedef>\n");
    Ok(out)
}

/// Generates the declaration of `ty` named `name`, followed by those of the
/// nested types of its members or options.
pub fn generate(name: &String, comments: &str, ty: &Asn1Type) -> (r: Result<String, GeneratorError>)
    ensures
        text_result(r) == generated(name@, comments@, *ty),
    decreases ty,
{
    let mut out = format_typedef(name, comments, ty)?;
    let nested = match ty {
        Asn1Type::Choice(c) => format_nested_choice_options(c, name)?,
        Asn1Type::Sequence(s) | Asn1Type::SetType(s) => format_nested_sequence_members(s, name)?,
        _ => Vec::new(),
    };
    let ghost head = out@;
    let mut i: usize = 0;
    while i < nested.len()
        invariant
            i <= nested@.len(),
            out@ == head + concat_all(nested@.take(i as int)),
        decreases nested@.len() - i,
    {
        proof {
            assert(nested@.take(i + 1) =~= nested@.take(i as int).push(nested@[i as int]));
            lemma_concat_push(nested@.take(i as int), nested@[i as int]);
        }
        out.append(nested[i].as_str());
        i = i + 1;
    }
    proof {
        assert(nested@.take(nested@.len() as int) =~= nested@);
        assert(concat_all(Seq::<String>::empty()) =~= Seq::<char>::empty());
    }
    Ok(out)
}

proof fn lemma_nested_members_error_stays(parent: Seq<char>, ms: Seq<SequenceOrSetMember>, k: int, n: int)
    requires
        1 <= k <= n <= ms.len(),
        nested_member_decls(parent, ms, k) is Err,
    ensures
        nested_member_decls(parent, ms, n) == nested_member_decls(parent, ms, k),
    decreases n - k,
{
    if k < n {
        lemma_nested_members_error_stays(parent, ms, k, n - 1);
    }
}

proof fn lemma_nested_options_error_stays(parent: Seq<char>, os: Seq<ChoiceOption>, k: int, n: int)
    requires
        1 <= k <= n <= os.len(),
        nested_option_decls(parent, os, k) is Err,
    ensures
        nested_option_decls(parent, os, n) == nested_option_decls(parent, os, k),
    decreases n - k,
{
    if k < n {
        lemma_nested_options_error_stays(parent, os, k, n - 1);
    }
}

/// Generates the declarations of the members of a SEQUENCE or SET named
/// `parent_name` whose types have no inline form: one entry per such member,
/// in declaration order, each the whole output for the member's type named
/// by the parent followed by the member.
pub fn format_nested_sequence_members(sequence_or_set: &SequenceOrSet, parent_name: &String) -> (r: Result<Vec<String>, GeneratorError>)
    ensures
        match r {
            Ok(v) => nested_member_decls(parent_name@, sequence_or_set.members@, sequence_or_set.members@.len() as int)
                == Ok::<Seq<Seq<char>>, GeneratorErrorType>(texts(v@)),
            Err(e) => nested_member_decls(parent_name@, sequence_or_set.members@, sequence_or_set.members@.len() as int)
                == Err::<Seq<Seq<char>>, GeneratorErrorType>(e.kind),
        },
    decreases sequence_or_set,
{
    let ms = &sequence_or_set.members;
    let mut out: Vec<String> = Vec::new();
    assert(texts(out@) =~= Seq::<Seq<char>>::empty());
    let mut i: usize = 0;
    while i < ms.len()
        invariant
            ms@ == sequence_or_set.members@,
            i <= ms@.len(),
            nested_member_decls(parent_name@, ms@, i as int) == Ok::<Seq<Seq<char>>, GeneratorErrorType>(texts(out@)),
        decreases ms@.len() - i,
    {
        let m = &ms[i];
        if needs_unnesting(&m.ty) {
            let name = inner_name(&m.name, parent_name);
            proof {
                assert(decreases_to!(sequence_or_set.members => sequence_or_set.members@));
                assert(decreases_to!(sequence_or_set.members@ => sequence_or_set.members@[i as int]));
                assert(decreases_to!(sequence_or_set.members@[i as int] => sequence_or_set.members@[i as int].ty));
                assert(decreases_to!(*sequence_or_set => m.ty));
            }
            match generate(&name, " Inner type ", &m.ty) {
                Ok(text) => {
                    proof {
                        lemma_concat_push(out@, text);
                    }
                    out.push(text);
                },
                Err(e) => {
                    proof {
                        assert(nested_member_decls(parent_name@, ms@, i + 1) == Err::<Seq<Seq<char>>, GeneratorErrorType>(e.kind));
                        lemma_nested_members_error_stays(parent_name@, ms@, i + 1, ms@.len() as int);
                    }
                    return Err(e);
                },
            }
        }
        i = i + 1;
    }
    Ok(out)
}

/// Generates the declarations of the options of a CHOICE named
/// `parent_name` whose types have no inline form: one entry per such option,
/// in declaration order, each the whole output for the option's type named
/// by the parent followed by the option.
pub fn format_nested_choice_options(choice: &Choice, parent_name: &String) -> (r: Result<Vec<String>, GeneratorError>)
    ensures
        match r {
            Ok(v) => nested_option_decls(parent_name@, choice.options@, choice.options@.len() as int)
                == Ok::<Seq<Seq<char>>, GeneratorErrorType>(texts(v@)),
            Err(e) => nested_option_decls(parent_name@, choice.options@, choice.options@.len() as int)
                == Err::<Seq<Seq<char>>, GeneratorErrorType>(e.kind),
        },
    decreases choice,
{
    let os = &choice.options;
    let mut out: Vec<String> = Vec::new();
    assert(texts(out@) =~= Seq::<Seq<char>>::empty());
    let mut i: usize = 0;
    while i < os.len()
        invariant
            os@ == choice.options@,
            i <= os@.len(),
            nested_option_decls(parent_name@, os@, i as int) == Ok::<Seq<Seq<char>>, GeneratorErrorType>(texts(out@)),
        decreases os@.len() - i,
    {
        let o = &os[i];
        if needs_unnesting(&o.ty) {
            let name = inner_name(&o.name, parent_name);
            proof {
                assert(decreases_to!(choice.options => choice.options@));
                assert(decreases_to!(choice.options@ => choice.options@[i as int]));
                assert(decreases_to!(choice.options@[i as int] => choice.options@[i as int].ty));
                assert(decreases_to!(*choice => o.ty));
            }
            match generate(&name, " Inner type ", &o.ty) {
                Ok(text) => {
                    proof {
                        lemma_concat_push(out@, text);
                    }
                    out.push(text);
                },
                Err(e) => {
                    proof {
                        assert(nested_option_decls(parent_name@, os@, i + 1) == Err::<Seq<Seq<char>>, GeneratorErrorType>(e.kind));
                        lemma_nested_options_error_stays(parent_name@, os@, i + 1, os@.len() as int);
                    }
                    return Err(e);
                },
            }
        }
        i = i + 1;
    }
    Ok(out)
}

/// The `.msg` name of a character string kind.
pub fn string_type(c_type: &CharacterStringType) -> (r: Result<String, GeneratorError>)
    ensures
        r matches Ok(s) && s@ == string_kind_name(*c_type, Dialect::Msg),
{
    Ok(string_kind(*c_type, Dialect::Msg))
}

/// The `.msg` name under which values of `ty` are declared as constants.
pub fn type_to_tokens(ty: &Asn1Type) -> (r: Result<String, GeneratorError>)
    ensures
        text_result(r) == type_token(*ty, Dialect::Msg),
{
    constant_type_name(ty, Dialect::Msg)
}

} // verus!
