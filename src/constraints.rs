//! Rendering of range and size constraints as named constants.
use vstd::prelude::*;
use crate::ir::{CharsetSubset, Constraint, PerVisibleRange};
use crate::text::{decimal, decimal_string, lemma_decimal_round_trip, parse_decimal};
use crate::width::{int_type_token, integer_type_name, select_width};

verus! {

/// One constant declaration: `{ty} {name} = {value}`.
pub open spec fn const_line(ty: Seq<char>, name: Seq<char>, value: int) -> Seq<char> {
    ty + " "@ + name + " = "@ + decimal(value)
}

/// Lines joined by newlines, without a trailing one.
pub open spec fn join_lines(lines: Seq<Seq<char>>) -> Seq<char>
    decreases lines.len(),
{
    if lines.len() == 0 {
        seq![]
    } else if lines.len() == 1 {
        lines[0]
    } else {
        join_lines(lines.drop_last()) + "\n"@ + lines.last()
    }
}

/// The prefix of the constants of a range: `LENGTH` for a size, `VALUE`
/// for a value.
pub open spec fn range_prefix(r: PerVisibleRange) -> Seq<char> {
    if r.is_size_constraint {
        "LENGTH"@
    } else {
        "VALUE"@
    }
}

/// The size range that every size has by default, `(0..MAX)`, which is
/// not worth declaring.
pub open spec fn is_default_size(r: PerVisibleRange) -> bool {
    r.is_size_constraint && !r.extensible && r.min == Some(0i128) && r.max is None
}

/// The constants that declare a range, as `(name, value)` pairs. An exact
/// value that is not extensible collapses into one constant named by the
/// prefix alone.
pub open spec fn range_constants(r: PerVisibleRange) -> Seq<(Seq<char>, int)> {
    let p = range_prefix(r);
    if is_default_size(r) {
        seq![]
    } else {
        match (r.min, r.max) {
            (Some(lo), Some(hi)) => if lo == hi && !r.extensible {
                seq![(p, lo as int)]
            } else {
                seq![(p + "_MIN"@, lo as int), (p + "_MAX"@, hi as int)]
            },
            (Some(lo), None) => seq![(p + "_MIN"@, lo as int)],
            (None, Some(hi)) => seq![(p + "_MAX"@, hi as int)],
            (None, None) => seq![],
        }
    }
}

/// The declaration lines of a range, each typed with the range's width.
pub open spec fn range_lines(r: PerVisibleRange) -> Seq<Seq<char>> {
    let ty = integer_type_name(select_width(r.min, r.max, r.extensible));
    range_constants(r).map_values(|c: (Seq<char>, int)| const_line(ty, c.0, c.1))
}

/// The text that declares a range.
pub open spec fn range_text(r: PerVisibleRange) -> Seq<char> {
    join_lines(range_lines(r))
}

/// The value of the first constant named `name`.
pub open spec fn lookup_constant(consts: Seq<(Seq<char>, int)>, name: Seq<char>) -> Option<int>
    decreases consts.len(),
{
    if consts.len() == 0 {
        None
    } else if consts[0].0 == name {
        Some(consts[0].1)
    } else {
        lookup_constant(consts.drop_first(), name)
    }
}

/// The bounds that a list of constants declares under prefix `p`: the
/// exact constant `{p}` gives both, else `{p}_MIN` and `{p}_MAX` give one each.
pub open spec fn read_bounds(consts: Seq<(Seq<char>, int)>, p: Seq<char>) -> (Option<int>, Option<int>) {
    match lookup_constant(consts, p) {
        Some(v) => (Some(v), Some(v)),
        None => (lookup_constant(consts, p + "_MIN"@), lookup_constant(consts, p + "_MAX"@)),
    }
}

/// A bound widened to a mathematical integer.
pub open spec fn bound(b: Option<i128>) -> Option<int> {
    match b {
        Some(v) => Some(v as int),
        None => None,
    }
}

/// Reading back the constants that declare a range gives its bounds again,
/// and each value's decimal text reads back as the value. The single
/// collapsed constant appears exactly for a non-extensible exact value.
pub(crate) proof fn lemma_range_constants_read_back(r: PerVisibleRange)
    ensures
        !is_default_size(r) ==> read_bounds(range_constants(r), range_prefix(r)) == (bound(r.min), bound(r.max)),
        is_default_size(r) ==> range_text(r) == Seq::<char>::empty(),
        (lookup_constant(range_constants(r), range_prefix(r)) is Some) <==> (!is_default_size(r)
            && r.min is Some && r.min == r.max && !r.extensible),
        forall|i: int| 0 <= i < range_constants(r).len() ==> {
            &&& #[trigger] range_lines(r)[i] == const_line(
                integer_type_name(select_width(r.min, r.max, r.extensible)),
                range_constants(r)[i].0,
                range_constants(r)[i].1,
            )
            &&& parse_decimal(decimal(range_constants(r)[i].1)) == range_constants(r)[i].1
        },
{
    reveal_strlit("_MIN");
    reveal_strlit("_MAX");
    reveal_strlit("LENGTH");
    reveal_strlit("VALUE");
    let p = range_prefix(r);
    let cs = range_constants(r);
    assert((p + "_MIN"@).len() != p.len());
    assert((p + "_MAX"@).len() != p.len());
    assert((p + "_MIN"@)[p.len() + 2int] != (p + "_MAX"@)[p.len() + 2int]);
    assert(p + "_MIN"@ != p + "_MAX"@);
    let pmin = p + "_MIN"@;
    let pmax = p + "_MAX"@;
    if cs.len() == 1 {
        assert(cs.drop_first() =~= Seq::<(Seq<char>, int)>::empty());
        assert(lookup_constant(cs.drop_first(), p) is None);
        assert(lookup_constant(cs.drop_first(), pmin) is None);
        assert(lookup_constant(cs.drop_first(), pmax) is None);
    } else if cs.len() == 2 {
        let rest = cs.drop_first();
        assert(rest.drop_first() =~= Seq::<(Seq<char>, int)>::empty());
        assert(lookup_constant(rest.drop_first(), p) is None);
        assert(lookup_constant(rest.drop_first(), pmax) is None);
        assert(lookup_constant(rest, p) is None);
        assert(lookup_constant(rest, pmax) == Some(cs[1].1));
    }
    assert forall|i: int| 0 <= i < cs.len() implies parse_decimal(decimal(cs[i].1)) == cs[i].1 by {
        lemma_decimal_round_trip(cs[i].1);
    }
}

/// Renders the constraints of a type as constant declarations: nothing for
/// an unconstrained type, else the front end's PER-visible range of them.
pub fn format_constraints(constraints: &Vec<Constraint>, per_visible: &PerVisibleRange) -> (r: String)
    ensures
        constraints@.len() == 0 ==> r@ == Seq::<char>::empty(),
        constraints@.len() > 0 ==> r@ == range_text(*per_visible),
{
    if constraints.len() == 0 {
        return String::new();
    }
    let ghost lines = range_lines(*per_visible);
    let range_type = int_type_token(per_visible.min, per_visible.max, per_visible.extensible);
    let prefix = if per_visible.is_size_constraint {
        "LENGTH"
    } else {
        "VALUE"
    };
    if per_visible.is_size_constraint && !per_visible.extensible && per_visible.min == Some(0i128)
        && per_visible.max.is_none() {
        return String::new();
    }
    let mut out = String::new();
    let ghost ty = range_type@;
    let ghost p = prefix@;
    match (per_visible.min, per_visible.max) {
        (Some(min), Some(max)) => {
            if min == max && !per_visible.extensible {
                proof {
                    reveal_strlit("");
                }
                push_const(&mut out, &range_type, prefix, "", min);
                assert(prefix@ + ""@ =~= prefix@);
                assert(lines =~= seq![const_line(ty, p, min as int)]);
            } else {
                push_const(&mut out, &range_type, prefix, "_MIN", min);
                out.append("\n");
                push_const(&mut out, &range_type, prefix, "_MAX", max);
                assert(lines =~= seq![
                    const_line(ty, p + "_MIN"@, min as int),
                    const_line(ty, p + "_MAX"@, max as int),
                ]);
                assert(lines.drop_last() =~= seq![lines[0]]);
                assert(join_lines(lines.drop_last()) == lines[0]);
                assert(join_lines(lines) == lines[0] + "\n"@ + lines[1]);
            }
        },
        (Some(min), None) => {
            push_const(&mut out, &range_type, prefix, "_MIN", min);
            assert(lines =~= seq![const_line(ty, p + "_MIN"@, min as int)]);
        },
        (None, Some(max)) => {
            push_const(&mut out, &range_type, prefix, "_MAX", max);
            assert(lines =~= seq![const_line(ty, p + "_MAX"@, max as int)]);
        },
        (None, None) => {
            assert(lines =~= Seq::<Seq<char>>::empty());
        },
    }
    assert(out@ =~= join_lines(lines));
    out
}

/// Appends `{ty} {prefix}{suffix} = {value}` to `out`.
fn push_const(out: &mut String, ty: &String, prefix: &str, suffix: &str, value: i128)
    ensures
        final(out)@ == old(out)@ + const_line(ty@, prefix@ + suffix@, value as int),
{
    out.append(ty.as_str());
    out.append(" ");
    out.append(prefix);
    out.append(suffix);
    out.append(" = ");
    let v = decimal_string(value);
    out.append(v.as_str());
}

/// The lower-case hexadecimal digit `d` (0 to 15).
pub open spec fn hex_digit(d: int) -> char {
    seq!['0', '1', '2', '3', '4', '5', '6', '7', '8', '9', 'a', 'b', 'c', 'd', 'e', 'f'][d]
}

/// The hexadecimal digits of a natural number, without leading zeros.
pub open spec fn hex_digits(n: nat) -> Seq<char>
    decreases n,
{
    if n < 16 {
        seq![hex_digit(n as int)]
    } else {
        hex_digits(n / 16).push(hex_digit((n % 16) as int))
    }
}

/// The escape `\u{NNNN}` of a character: its code point in lower-case
/// hexadecimal, without leading zeros.
pub open spec fn unicode_escape_of(c: char) -> Seq<char> {
    seq!['\\', 'u', '{'] + hex_digits(c as nat) + seq!['}']
}

/// Relies on `char::escape_unicode` (collected with `to_string`): it writes
/// `\u{NNNN}` with the code point in lower-case hexadecimal digits and no
/// leading zeros.
#[verifier::external_body]
fn escape_unicode(c: char) -> (r: String)
    ensures
        r@ == unicode_escape_of(c),
{
    c.escape_unicode().to_string()
}

/// The text of a part of a permitted alphabet: an escaped character, or a
/// range `from..to` with either end left out when open.
pub open spec fn subset_text(s: CharsetSubset) -> Seq<char> {
    match s {
        CharsetSubset::Single(c) => unicode_escape_of(c),
        CharsetSubset::Range { from, to } => (if from is Some { unicode_escape_of(from->0) } else { seq![] })
            + ".."@ + (if to is Some { unicode_escape_of(to->0) } else { seq![] }),
    }
}

/// The parts of a permitted alphabet, separated by `, `.
pub open spec fn alphabet_text(parts: Seq<CharsetSubset>) -> Seq<char>
    decreases parts.len(),
{
    if parts.len() == 0 {
        seq![]
    } else if parts.len() == 1 {
        subset_text(parts[0])
    } else {
        alphabet_text(parts.drop_last()) + ", "@ + subset_text(parts.last())
    }
}

fn format_subset(s: CharsetSubset) -> (r: String)
    ensures
        r@ == subset_text(s),
{
    match s {
        CharsetSubset::Single(c) => escape_unicode(c),
        CharsetSubset::Range { from, to } => {
            let mut out = match from {
                Some(c) => escape_unicode(c),
                None => String::new(),
            };
            out.append("..");
            if let Some(c) = to {
                let t = escape_unicode(c);
                out.append(t.as_str());
            }
            out
        },
    }
}

/// The annotation of a string type's permitted alphabet: nothing without
/// constraints or without a permitted part, else the `from(..)` template.
/// `permitted` is the front end's PER-visible alphabet of `constraints`.
pub fn format_alphabet_annotations(constraints: &Vec<Constraint>, permitted: &Vec<CharsetSubset>) -> (r: String)
    ensures
        r@ == (if constraints@.len() == 0 || alphabet_text(permitted@).len() == 0 {
            Seq::<char>::empty()
        } else {
            "from(#alphabet_unicode)"@
        }),
{
    if constraints.len() == 0 {
        return String::new();
    }
    let mut joined = String::new();
    let mut i: usize = 0;
    while i < permitted.len()
        invariant
            i <= permitted@.len(),
            joined@ == alphabet_text(permitted@.take(i as int)),
        decreases permitted@.len() - i,
    {
        let part = format_subset(permitted[i]);
        proof {
            assert(permitted@.take(i + 1).drop_last() =~= permitted@.take(i as int));
        }
        if i > 0 {
            joined.append(", ");
        }
        joined.append(part.as_str());
        i = i + 1;
    }
    assert(permitted@.take(permitted@.len() as int) =~= permitted@);
    if joined.unicode_len() == 0 {
        String::new()
    } else {
        String::from_str("from(#alphabet_unicode)")
    }
}

} // verus!
