//! Fields of aggregate types: SEQUENCE and SET members, CHOICE options,
//! ENUMERATED items and named numbers.
use vstd::prelude::*;
use crate::case::{const_case, snake_case, to_ros_const_case, to_ros_snake_case};
use crate::error::{GeneratorError, GeneratorErrorType};
use crate::ir::{
    Choice, ChoiceOption, Dialect, DistinguishedValue, Enumerated, Enumeral, SequenceOrSet,
    SequenceOrSetMember,
};
use crate::resolve::{constraints_and_type_name, target_type_name, text_result};
use crate::text::{decimal, decimal_string};

verus! {

/// Whether `s` begins with `prefix`.
pub fn starts_with(s: &str, prefix: &str) -> (r: bool)
    ensures
        r == prefix@.is_prefix_of(s@),
{
    let n = prefix.unicode_len();
    if n > s.unicode_len() {
        return false;
    }
    let mut i: usize = 0;
    while i < n
        invariant
            n == prefix@.len(),
            n <= s@.len(),
            i <= n,
            forall|k: int| 0 <= k < i ==> prefix@[k] == s@[k],
        decreases n - i,
    {
        if prefix.get_char(i) != s.get_char(i) {
            return false;
        }
        i = i + 1;
    }
    true
}

/// The name prefix that marks an extension-addition group.
pub open spec fn is_extension_group(name: Seq<char>) -> bool {
    "ext_group_"@.is_prefix_of(name)
}

/// The mark of an extension addition at position `i`, where additions start
/// at `first_extension`: groups and single additions are marked apart, and a
/// root member has no mark.
pub open spec fn extension_mark(name: Seq<char>, i: int, first_extension: Option<usize>) -> Seq<char> {
    if first_extension is Some && i >= first_extension->0 {
        if is_extension_group(name) {
            "# .extension_addition_group\n"@
        } else {
            "# .extension_addition\n"@
        }
    } else {
        seq![]
    }
}

/// Appends the extension mark of the item `name` at position `i` to `out`.
fn push_extension_mark(out: &mut String, name: &String, i: usize, first_extension: Option<usize>)
    ensures
        final(out)@ == old(out)@ + extension_mark(name@, i as int, first_extension),
{
    proof {
        reveal_strlit("");
    }
    let extended = match first_extension {
        Some(k) => i >= k,
        None => false,
    };
    if extended {
        if starts_with(name.as_str(), "ext_group_") {
            out.append("# .extension_addition_group\n");
        } else {
            out.append("# .extension_addition\n");
        }
    } else {
        assert(old(out)@ + Seq::<char>::empty() =~= old(out)@);
    }
}

/// Whether a member is preceded by a presence flag: it is optional without
/// a default, or an extension-addition group.
pub open spec fn needs_presence_flag(m: SequenceOrSetMember) -> bool {
    (m.is_optional && m.default_value is None) || is_extension_group(m.name@)
}

/// The field of a member whose type is named `ty`, after its presence flag
/// where it has one.
pub open spec fn member_line(m: SequenceOrSetMember, ty: Seq<char>) -> Seq<char> {
    let n = snake_case(m.name@);
    let field = ty + " "@ + n + "\n"@;
    if needs_presence_flag(m) {
        "bool "@ + n + "_present\n"@ + field
    } else {
        field
    }
}

/// The text of one member of a SEQUENCE or SET named `parent`.
pub open spec fn member_text(m: SequenceOrSetMember, parent: Seq<char>) -> Result<Seq<char>, GeneratorErrorType> {
    match target_type_name(m.ty, m.name@, parent, Dialect::Msg) {
        Ok(t) => Ok(member_line(m, t)),
        Err(e) => Err(e),
    }
}

/// The text of the first `n` members, each after its extension mark, or the
/// first error among them.
pub open spec fn members_text(ms: Seq<SequenceOrSetMember>, ext: Option<usize>, parent: Seq<char>, n: int) -> Result<Seq<char>, GeneratorErrorType>
    decreases n,
{
    if n <= 0 {
        Ok(seq![])
    } else {
        match members_text(ms, ext, parent, n - 1) {
            Ok(a) => match member_text(ms[n - 1], parent) {
                Ok(b) => Ok(a + extension_mark(ms[n - 1].name@, n - 1, ext) + b),
                Err(e) => Err(e),
            },
            Err(e) => Err(e),
        }
    }
}

proof fn lemma_members_error_stays(ms: Seq<SequenceOrSetMember>, ext: Option<usize>, parent: Seq<char>, k: int, n: int)
    requires
        1 <= k <= n,
        members_text(ms, ext, parent, k) is Err,
    ensures
        members_text(ms, ext, parent, n) == members_text(ms, ext, parent, k),
    decreases n - k,
{
    if k < n {
        lemma_members_error_stays(ms, ext, parent, k, n - 1);
    }
}

/// Formats one member of a SEQUENCE or SET.
fn format_sequence_member(member: &SequenceOrSetMember, parent_name: &String) -> (r: Result<String, GeneratorError>)
    ensures
        text_result(r) == member_text(*member, parent_name@),
{
    let (_, ty) = constraints_and_type_name(&member.ty, &member.name, parent_name, Dialect::Msg)?;
    let name = to_ros_snake_case(member.name.as_str());
    let mut out = String::new();
    if (member.is_optional && member.default_value.is_none()) || starts_with(member.name.as_str(), "ext_group_") {
        out.append("bool ");
        out.append(name.as_str());
        out.append("_present\n");
    }
    out.append(ty.as_str());
    out.append(" ");
    out.append(name.as_str());
    out.append("\n");
    assert(out@ =~= member_line(*member, ty@));
    Ok(out)
}

/// Formats the members of a SEQUENCE or SET named `parent_name`, in
/// declaration order.
pub fn format_sequence_or_set_members(sequence_or_set: &SequenceOrSet, parent_name: &String) -> (r: Result<String, GeneratorError>)
    ensures
        text_result(r) == members_text(
            sequence_or_set.members@,
            sequence_or_set.extensible,
            parent_name@,
            sequence_or_set.members@.len() as int,
        ),
{
    let ms = &sequence_or_set.members;
    let mut out = String::new();
    let mut i: usize = 0;
    while i < ms.len()
        invariant
            ms@ == sequence_or_set.members@,
            i <= ms@.len(),
            members_text(ms@, sequence_or_set.extensible, parent_name@, i as int) == Ok::<Seq<char>, GeneratorErrorType>(out@),
        decreases ms@.len() - i,
    {
        match format_sequence_member(&ms[i], parent_name) {
            Ok(line) => {
                push_extension_mark(&mut out, &ms[i].name, i, sequence_or_set.extensible);
                out.append(line.as_str());
            },
            Err(e) => {
                proof {
                    assert(members_text(ms@, sequence_or_set.extensible, parent_name@, i + 1) == Err::<Seq<char>, GeneratorErrorType>(e.kind));
                    lemma_members_error_stays(ms@, sequence_or_set.extensible, parent_name@, i + 1, ms@.len() as int);
                }

                return Err(e);
            },
        }
        i = i + 1;
    }
    Ok(out)
}

proof fn lemma_members_prefix(ms: Seq<SequenceOrSetMember>, ext: Option<usize>, parent: Seq<char>, i: int, n: int)
    requires
        0 <= i <= n,
        members_text(ms, ext, parent, n) is Ok,
    ensures
        members_text(ms, ext, parent, i) is Ok,
        members_text(ms, ext, parent, i)->Ok_0.is_prefix_of(members_text(ms, ext, parent, n)->Ok_0),
    decreases n - i,
{
    if i < n {
        lemma_members_prefix(ms, ext, parent, i, n - 1);
        if n - 1 >= 0 {
            let a = members_text(ms, ext, parent, n - 1)->Ok_0;
            let whole = members_text(ms, ext, parent, n)->Ok_0;
            assert(a.is_prefix_of(whole)) by {
                assert(whole == a + extension_mark(ms[n - 1].name@, n - 1, ext) + member_text(ms[n - 1], parent)->Ok_0);
            }
        }
    }
}

/// In the text of a SEQUENCE or SET, the field of each member stands at its
/// place in declaration order, after its extension mark; a member that is optional without a default
/// has its presence flag `bool {name}_present` immediately before its field,
/// and a member with a default or a mandatory one (other than an
/// extension-addition group) has its field alone.
pub proof fn lemma_presence_flags(s: SequenceOrSet, parent: Seq<char>, i: int)
    requires
        members_text(s.members@, s.extensible, parent, s.members@.len() as int) is Ok,
        0 <= i < s.members@.len(),
    ensures
        ({
            let ms = s.members@;
            let out = members_text(ms, s.extensible, parent, ms.len() as int)->Ok_0;
            let m = ms[i];
            let start = (members_text(ms, s.extensible, parent, i)->Ok_0.len() + extension_mark(m.name@, i, s.extensible).len()) as int;
            let n = snake_case(m.name@);
            let t = target_type_name(m.ty, m.name@, parent, Dialect::Msg)->Ok_0;
            let field = t + " "@ + n + "\n"@;
            &&& target_type_name(m.ty, m.name@, parent, Dialect::Msg) is Ok
            &&& m.is_optional && m.default_value is None ==> out.subrange(start, start + field.len() + ("bool "@ + n + "_present\n"@).len() as int)
                == "bool "@ + n + "_present\n"@ + field
            &&& (!m.is_optional || m.default_value is Some) && !is_extension_group(m.name@) ==> out.subrange(
                start,
                start + field.len() as int,
            ) == field
        }),
{
    let ms = s.members@;
    let ext = s.extensible;
    let len = ms.len() as int;
    lemma_members_prefix(ms, ext, parent, i + 1, len);
    lemma_members_prefix(ms, ext, parent, i, i + 1);
    let out = members_text(ms, ext, parent, len)->Ok_0;
    let before = members_text(ms, ext, parent, i)->Ok_0 + extension_mark(ms[i].name@, i, ext);
    let upto = members_text(ms, ext, parent, i + 1)->Ok_0;
    let line = member_text(ms[i], parent)->Ok_0;
    assert(upto == before + line);
    assert(out.subrange(before.len() as int, before.len() + line.len() as int) =~= line) by {
        assert forall|k: int| 0 <= k < line.len() implies out[before.len() + k] == line[k] by {
            assert(out[before.len() + k] == upto[before.len() + k]);
        }
    }
}

/// The field of a CHOICE option whose type is named `ty`.
pub open spec fn option_field(o: ChoiceOption, ty: Seq<char>) -> Seq<char> {
    ty + " "@ + snake_case(o.name@)
}

/// The field of one option of a CHOICE named `parent`.
pub open spec fn option_line(o: ChoiceOption, parent: Seq<char>) -> Result<Seq<char>, GeneratorErrorType> {
    match target_type_name(o.ty, o.name@, parent, Dialect::Msg) {
        Ok(t) => Ok(option_field(o, t)),
        Err(e) => Err(e),
    }
}

/// The selector constant of the option at `index`.
pub open spec fn option_selector(name: Seq<char>, index: int) -> Seq<char> {
    "uint8 CHOICE_"@ + const_case(name) + " = "@ + decimal(index)
}

/// The fields of the first `n` options, each on its own line after its
/// extension mark, or the first error among them.
pub open spec fn option_fields(os: Seq<ChoiceOption>, ext: Option<usize>, parent: Seq<char>, n: int) -> Result<Seq<char>, GeneratorErrorType>
    decreases n,
{
    if n <= 0 {
        Ok(seq![])
    } else {
        match option_fields(os, ext, parent, n - 1) {
            Ok(a) => match option_line(os[n - 1], parent) {
                Ok(t) => Ok(a + extension_mark(os[n - 1].name@, n - 1, ext) + t + "\n"@),
                Err(e) => Err(e),
            },
            Err(e) => Err(e),
        }
    }
}

/// The selector constants of the first `n` options, each on its own line.
pub open spec fn option_selectors(os: Seq<ChoiceOption>, n: int) -> Seq<char>
    decreases n,
{
    if n <= 0 {
        seq![]
    } else {
        option_selectors(os, n - 1) + option_selector(os[n - 1].name@, n - 1) + "\n"@
    }
}

/// The text of the options of a CHOICE named `parent`: their fields, an
/// empty line, then their selector constants.
pub open spec fn choice_options_text(c: Choice, parent: Seq<char>) -> Result<Seq<char>, GeneratorErrorType> {
    let n = c.options@.len() as int;
    match option_fields(c.options@, c.extensible, parent, n) {
        Ok(f) => Ok(f + "\n"@ + option_selectors(c.options@, n)),
        Err(e) => Err(e),
    }
}

/// Formats one CHOICE option at position `index`: its field and its selector
/// constant.
fn format_choice_option(name: &String, member: &ChoiceOption, parent_name: &String, index: usize) -> (r: Result<(String, String), GeneratorError>)
    requires
        name@ == member.name@,
    ensures
        match r {
            Ok((f, s)) => option_line(*member, parent_name@) == Ok::<Seq<char>, GeneratorErrorType>(f@)
                && s@ == option_selector(name@, index as int),
            Err(e) => option_line(*member, parent_name@) == Err::<Seq<char>, GeneratorErrorType>(e.kind),
        },
{
    let (_, ty) = constraints_and_type_name(&member.ty, &member.name, parent_name, Dialect::Msg)?;
    let mut field = ty;
    field.append(" ");
    let snake = to_ros_snake_case(name.as_str());
    field.append(snake.as_str());
    let mut selector = String::from_str("uint8 CHOICE_");
    let konst = to_ros_const_case(name.as_str());
    selector.append(konst.as_str());
    selector.append(" = ");
    let idx = decimal_string(index as i128);
    selector.append(idx.as_str());
    Ok((field, selector))
}

proof fn lemma_option_fields_error_stays(os: Seq<ChoiceOption>, ext: Option<usize>, parent: Seq<char>, k: int, n: int)
    requires
        1 <= k <= n,
        option_fields(os, ext, parent, k) is Err,
    ensures
        option_fields(os, ext, parent, n) == option_fields(os, ext, parent, k),
    decreases n - k,
{
    if k < n {
        lemma_option_fields_error_stays(os, ext, parent, k, n - 1);
    }
}

/// Formats the options of a CHOICE named `parent_name`: one field per
/// option in declaration order, an empty line, then one selector constant
/// per option, valued by its position.
pub fn format_choice_options(choice: &Choice, parent_name: &String) -> (r: Result<String, GeneratorError>)
    ensures
        text_result(r) == choice_options_text(*choice, parent_name@),
{
    let os = &choice.options;
    let mut fields = String::new();
    let mut selectors = String::new();
    let mut i: usize = 0;
    while i < os.len()
        invariant
            os@ == choice.options@,
            i <= os@.len(),
            option_fields(os@, choice.extensible, parent_name@, i as int) == Ok::<Seq<char>, GeneratorErrorType>(fields@),
            selectors@ == option_selectors(os@, i as int),
        decreases os@.len() - i,
    {
        let name = os[i].name.clone();
        match format_choice_option(&name, &os[i], parent_name, i) {
            Ok((field, selector)) => {
                push_extension_mark(&mut fields, &os[i].name, i, choice.extensible);
                fields.append(field.as_str());
                fields.append("\n");
                selectors.append(selector.as_str());
                selectors.append("\n");
            },
            Err(e) => {
                proof {
                    assert(option_fields(os@, choice.extensible, parent_name@, i + 1) == Err::<Seq<char>, GeneratorErrorType>(e.kind));
                    lemma_option_fields_error_stays(os@, choice.extensible, parent_name@, i + 1, os@.len() as int);
                }
                return Err(e);
            },
        }
        i = i + 1;
    }
    fields.append("\n");
    fields.append(selectors.as_str());
    Ok(fields)
}

proof fn lemma_option_fields_ok(os: Seq<ChoiceOption>, e1: Option<usize>, e2: Option<usize>, parent: Seq<char>, n: int)
    ensures
        (option_fields(os, e1, parent, n) is Ok) == (option_fields(os, e2, parent, n) is Ok),
    decreases n,
{
    if n > 0 {
        lemma_option_fields_ok(os, e1, e2, parent, n - 1);
    }
}

/// The selector constants of a CHOICE depend on the order of its options
/// alone: the text ends with one `CHOICE_{NAME} = i` line per option, the
/// option at position `i` valued `i`, whichever options are extension
/// additions.
pub proof fn lemma_selector_stability(a: Choice, b: Choice, parent: Seq<char>, i: int)
    requires
        a.options@ == b.options@,
        0 <= i < a.options@.len(),
    ensures
        (choice_options_text(a, parent) is Ok) == (choice_options_text(b, parent) is Ok),
        choice_options_text(a, parent) matches Ok(ta) ==> ta.subrange(
            ta.len() - option_selectors(a.options@, a.options@.len() as int).len(),
            ta.len() as int,
        ) == option_selectors(a.options@, a.options@.len() as int),
        choice_options_text(b, parent) matches Ok(tb) ==> tb.subrange(
            tb.len() - option_selectors(b.options@, b.options@.len() as int).len(),
            tb.len() as int,
        ) == option_selectors(a.options@, a.options@.len() as int),
        option_selectors(a.options@, i + 1) == option_selectors(a.options@, i) + "uint8 CHOICE_"@
            + const_case(a.options@[i].name@) + " = "@ + decimal(i) + "\n"@,
{
    let n = a.options@.len() as int;
    lemma_option_fields_ok(a.options@, a.extensible, b.extensible, parent, n);
    let sel = option_selectors(a.options@, n);
    if let Ok(ta) = choice_options_text(a, parent) {
        let f = option_fields(a.options@, a.extensible, parent, n)->Ok_0;
        assert(ta == f + "\n"@ + sel);
        assert(ta.subrange(ta.len() - sel.len(), ta.len() as int) =~= sel);
    }
    if let Ok(tb) = choice_options_text(b, parent) {
        let f = option_fields(b.options@, b.extensible, parent, n)->Ok_0;
        assert(tb == f + "\n"@ + sel);
        assert(tb.subrange(tb.len() - sel.len(), tb.len() as int) =~= sel);
    }
}

/// The line of an ENUMERATED item at position `i`, marked as an extension
/// addition from position `first_extension` on.
pub open spec fn enum_line(e: Enumeral, i: int, first_extension: Option<usize>) -> Seq<char> {
    let mark = if first_extension is Some && i >= first_extension->0 { "# .extended\n"@ } else { seq![] };
    mark + "uint8 "@ + const_case(e.name@) + " = "@ + decimal(e.index as int) + "\n"@
}

/// The item constants of an ENUMERATED type.
pub open spec fn enum_text(e: Enumerated) -> Seq<char> {
    e.members@.map(|i: int, m: Enumeral| enum_line(m, i, e.extensible)).flatten()
}

/// Formats the items of an ENUMERATED type as `uint8` constants valued by
/// their indices.
pub fn format_enum_members(enumerated: &Enumerated) -> (r: String)
    ensures
        r@ == enum_text(*enumerated),
{
    let ms = &enumerated.members;
    let ghost lines = ms@.map(|i: int, m: Enumeral| enum_line(m, i, enumerated.extensible));
    let mut out = String::new();
    let mut i: usize = 0;
    while i < ms.len()
        invariant
            ms@ == enumerated.members@,
            lines == ms@.map(|i: int, m: Enumeral| enum_line(m, i, enumerated.extensible)),
            i <= ms@.len(),
            out@ == lines.take(i as int).flatten(),
        decreases ms@.len() - i,
    {
        let ghost before = out@;
        let extended = match enumerated.extensible {
            Some(k) => i >= k,
            None => false,
        };
        if extended {
            out.append("# .extended\n");
        }
        out.append("uint8 ");
        let name = to_ros_const_case(ms[i].name.as_str());
        out.append(name.as_str());
        out.append(" = ");
        let idx = decimal_string(ms[i].index);
        out.append(idx.as_str());
        out.append("\n");
        proof {
            reveal_strlit("");
            assert(out@ =~= before + lines[i as int]);
            lines.take(i as int).lemma_flatten_push(lines[i as int]);
            assert(lines.take(i as int).push(lines[i as int]) =~= lines.take(i + 1));
        }
        i = i + 1;
    }
    assert(lines.take(ms@.len() as int) =~= lines);
    out
}

/// The line of a named number; `{type}` and `{prefix}` stay in the text as
/// placeholders for the declaration that uses it.
pub open spec fn distinguished_line(d: DistinguishedValue) -> Seq<char> {
    "{type} {prefix}"@ + const_case(d.name@) + " = "@ + decimal(d.value as int) + "\n"@
}

/// Formats the named numbers of an INTEGER type as constant templates.
pub fn format_distinguished_values(dvalues: &Option<Vec<DistinguishedValue>>) -> (r: String)
    ensures
        r@ == match dvalues {
            Some(ds) => ds@.map_values(|d: DistinguishedValue| distinguished_line(d)).flatten(),
            None => Seq::<char>::empty(),
        },
{
    let mut out = String::new();
    if let Some(ds) = dvalues {
        let ghost lines = ds@.map_values(|d: DistinguishedValue| distinguished_line(d));
        let mut i: usize = 0;
        while i < ds.len()
            invariant
                lines == ds@.map_values(|d: DistinguishedValue| distinguished_line(d)),
                i <= ds@.len(),
                out@ == lines.take(i as int).flatten(),
            decreases ds@.len() - i,
        {
            let ghost before = out@;
            out.append("{type} {prefix}");
            let name = to_ros_const_case(ds[i].name.as_str());
            out.append(name.as_str());
            out.append(" = ");
            let v = decimal_string(ds[i].value);
            out.append(v.as_str());
            out.append("\n");
            proof {
                assert(out@ =~= before + lines[i as int]);
                lines.take(i as int).lemma_flatten_push(lines[i as int]);
                assert(lines.take(i as int).push(lines[i as int]) =~= lines.take(i + 1));
            }
            i = i + 1;
        }
        assert(lines.take(ds@.len() as int) =~= lines);
    }
    out
}

} // verus!
