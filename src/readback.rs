//! Reading rendered range constants back from their text.
use vstd::prelude::*;
use crate::constraints::{
    bound, const_line, is_default_size, join_lines, lemma_range_constants_read_back, lookup_constant, range_constants,
    range_lines, range_prefix, range_text, read_bounds,
};
use crate::ir::PerVisibleRange;
use crate::text::{decimal, nat_digits, parse_decimal};
use crate::width::{integer_type_name, select_width};

verus! {

/// The position of the last `c` in `s`, or -1.
pub open spec fn last_pos(s: Seq<char>, c: char) -> int
    decreases s.len(),
{
    if s.len() == 0 {
        -1
    } else if s.last() == c {
        s.len() - 1
    } else {
        last_pos(s.drop_last(), c)
    }
}

/// The position of the first `c` in `s`, or -1.
pub open spec fn first_pos(s: Seq<char>, c: char) -> int
    decreases s.len(),
{
    if s.len() == 0 {
        -1
    } else if s[0] == c {
        0
    } else if first_pos(s.drop_first(), c) < 0 {
        -1
    } else {
        first_pos(s.drop_first(), c) + 1
    }
}

proof fn lemma_last_pos_bounds(s: Seq<char>, c: char)
    ensures
        -1 <= last_pos(s, c) < s.len(),
        last_pos(s, c) >= 0 ==> s[last_pos(s, c)] == c,
        last_pos(s, c) < 0 ==> !s.contains(c),
    decreases s.len(),
{
    if s.len() > 0 && s.last() != c {
        lemma_last_pos_bounds(s.drop_last(), c);
        if last_pos(s, c) < 0 {
            assert forall|i: int| 0 <= i < s.len() implies s[i] != c by {
                if i < s.len() - 1 {
                    assert(s.drop_last()[i] == s[i]);
                }
            }
        }
    }
}

/// A text cut into its lines at newlines.
pub open spec fn split_lines(s: Seq<char>) -> Seq<Seq<char>>
    decreases s.len(),
{
    let p = last_pos(s, '\n');
    if p < 0 || p >= s.len() {
        seq![s]
    } else {
        split_lines(s.take(p)).push(s.skip(p + 1))
    }
}

/// The name and value of a constant line `{type} {name} = {value}`: the
/// name runs from after the first space to before ` = `, the value is what
/// follows the last space.
pub open spec fn parse_line(l: Seq<char>) -> (Seq<char>, int) {
    let sp = last_pos(l, ' ');
    (l.subrange(first_pos(l, ' ') + 1, sp - 2), parse_decimal(l.skip(sp + 1)))
}

/// The constants that a text declares, one per line.
pub open spec fn parse_constants(text: Seq<char>) -> Seq<(Seq<char>, int)> {
    if text.len() == 0 {
        seq![]
    } else {
        split_lines(text).map_values(|l: Seq<char>| parse_line(l))
    }
}

proof fn lemma_last_pos_append(a: Seq<char>, b: Seq<char>, c: char)
    requires
        !b.contains(c),
    ensures
        last_pos(a + b, c) == last_pos(a, c),
    decreases b.len(),
{
    if b.len() > 0 {
        assert((a + b).drop_last() =~= a + b.drop_last());
        assert((a + b).last() == b.last());
        assert(b.last() == b[b.len() - 1]);
        assert forall|i: int| 0 <= i < b.drop_last().len() implies b.drop_last()[i] != c by {
            assert(b.drop_last()[i] == b[i]);
        }
        lemma_last_pos_append(a, b.drop_last(), c);
    } else {
        assert(a + b =~= a);
    }
}

proof fn lemma_first_pos_append(a: Seq<char>, b: Seq<char>, c: char)
    requires
        !a.contains(c),
        b.len() > 0,
        b[0] == c,
    ensures
        first_pos(a + b, c) == a.len(),
    decreases a.len(),
{
    if a.len() > 0 {
        assert((a + b).drop_first() =~= a.drop_first() + b);
        assert(a[0] != c);
        assert forall|i: int| 0 <= i < a.drop_first().len() implies a.drop_first()[i] != c by {
            assert(a.drop_first()[i] == a[i + 1]);
        }
        lemma_first_pos_append(a.drop_first(), b, c);
    } else {
        assert(a + b =~= b);
    }
}

proof fn lemma_digits_plain(n: nat)
    ensures
        !nat_digits(n).contains(' '),
        !nat_digits(n).contains('\n'),
    decreases n,
{
    if n >= 10 {
        lemma_digits_plain(n / 10);
        let d = nat_digits(n);
        assert forall|i: int| 0 <= i < d.len() implies d[i] != ' ' && d[i] != '\n' by {
            if i < d.len() - 1 {
                assert(d[i] == nat_digits(n / 10)[i]);
            }
        }
    }
}

proof fn lemma_decimal_plain(v: int)
    ensures
        !decimal(v).contains(' '),
        !decimal(v).contains('\n'),
{
    if v < 0 {
        lemma_digits_plain((-v) as nat);
        let d = decimal(v);
        assert forall|i: int| 0 <= i < d.len() implies d[i] != ' ' && d[i] != '\n' by {
            if i > 0 {
                assert(d[i] == nat_digits((-v) as nat)[i - 1]);
            }
        }
    } else {
        lemma_digits_plain(v as nat);
    }
}

/// A constant line reads back as its name and value, where neither the
/// type nor the name holds a space or a newline.
proof fn lemma_parse_line(ty: Seq<char>, name: Seq<char>, v: int)
    requires
        !ty.contains(' '),
        !name.contains(' '),
        !ty.contains('\n'),
        !name.contains('\n'),
    ensures
        parse_line(const_line(ty, name, v)) == (name, v),
        !const_line(ty, name, v).contains('\n'),
{
    reveal_strlit(" ");
    reveal_strlit(" = ");
    let l = const_line(ty, name, v);
    let d = decimal(v);
    lemma_decimal_plain(v);
    crate::text::lemma_decimal_round_trip(v);
    let head = ty + " "@ + name + " ="@;
    reveal_strlit(" =");
    assert(l =~= head.push(' ') + d);
    lemma_last_pos_append(head.push(' '), d, ' ');
    assert(last_pos(head.push(' '), ' ') == head.len());
    let sp = head.len() as int;
    assert(l.skip(sp + 1) =~= d);
    let rest = " "@ + name + " = "@ + d;
    assert(l =~= ty + rest);
    lemma_first_pos_append(ty, rest, ' ');
    assert(l.subrange(ty.len() + 1int, sp - 2) =~= name);
    assert forall|i: int| 0 <= i < l.len() implies l[i] != '\n' by {
        if i < ty.len() {
            assert(l[i] == ty[i]);
        } else if i == ty.len() {
        } else if i < ty.len() + 1 + name.len() {
            assert(l[i] == name[i - ty.len() - 1]);
        } else if i < sp + 1 {
        } else {
            assert(l[i] == d[i - sp - 1]);
        }
    }
}

proof fn lemma_split_join(lines: Seq<Seq<char>>)
    requires
        lines.len() > 0,
        forall|i: int| 0 <= i < lines.len() ==> !(#[trigger] lines[i]).contains('\n'),
    ensures
        split_lines(join_lines(lines)) == lines,
    decreases lines.len(),
{
    reveal_strlit("\n");
    if lines.len() == 1 {
        lemma_last_pos_bounds(lines[0], '\n');
        assert(seq![lines[0]] =~= lines);
    } else {
        let init = lines.drop_last();
        assert forall|i: int| 0 <= i < init.len() implies !(#[trigger] init[i]).contains('\n') by {
            assert(init[i] == lines[i]);
        }
        lemma_split_join(init);
        let j = join_lines(init);
        let t = join_lines(lines);
        assert(t == j + "\n"@ + lines.last());
        assert(!lines.last().contains('\n')) by {
            assert(lines.last() == lines[lines.len() - 1]);
        }
        lemma_last_pos_append(j + "\n"@, lines.last(), '\n');
        assert(last_pos(j + "\n"@, '\n') == j.len());
        assert(t.take(j.len() as int) =~= j);
        assert(t.skip(j.len() + 1int) =~= lines.last());
        assert(init.push(lines.last()) =~= lines);
    }
}

proof fn lemma_range_lines_plain(r: PerVisibleRange)
    ensures
        forall|i: int| 0 <= i < range_lines(r).len() ==> !(#[trigger] range_lines(r)[i]).contains('\n'),
        forall|i: int| 0 <= i < range_lines(r).len() ==> parse_line(#[trigger] range_lines(r)[i]) == range_constants(r)[i],
{
    reveal_strlit("int8");
    reveal_strlit("uint8");
    reveal_strlit("int16");
    reveal_strlit("uint16");
    reveal_strlit("int32");
    reveal_strlit("uint32");
    reveal_strlit("int64");
    reveal_strlit("uint64");
    reveal_strlit("LENGTH");
    reveal_strlit("VALUE");
    reveal_strlit("_MIN");
    reveal_strlit("_MAX");
    let ty = integer_type_name(select_width(r.min, r.max, r.extensible));
    let cs = range_constants(r);
    let p = range_prefix(r);
    assert(!ty.contains(' ') && !ty.contains('\n'));
    assert(!p.contains(' ') && !p.contains('\n'));
    assert(!(p + "_MIN"@).contains(' ') && !(p + "_MIN"@).contains('\n')) by {
        assert forall|i: int| 0 <= i < (p + "_MIN"@).len() implies (p + "_MIN"@)[i] != ' ' && (p + "_MIN"@)[i] != '\n' by {
            if i >= p.len() {
                assert((p + "_MIN"@)[i] == "_MIN"@[i - p.len()]);
            }
        }
    }
    assert(!(p + "_MAX"@).contains(' ') && !(p + "_MAX"@).contains('\n')) by {
        assert forall|i: int| 0 <= i < (p + "_MAX"@).len() implies (p + "_MAX"@)[i] != ' ' && (p + "_MAX"@)[i] != '\n' by {
            if i >= p.len() {
                assert((p + "_MAX"@)[i] == "_MAX"@[i - p.len()]);
            }
        }
    }
    assert forall|i: int| 0 <= i < cs.len() implies !cs[i].0.contains(' ') && !cs[i].0.contains('\n') by {}
    assert forall|i: int| 0 <= i < range_lines(r).len() implies !(#[trigger] range_lines(r)[i]).contains('\n')
        && parse_line(range_lines(r)[i]) == range_constants(r)[i] by {
        lemma_parse_line(ty, cs[i].0, cs[i].1);
    }
}

/// The text that declares a range, read back line by line, gives the
/// range's bounds again. The one collapsed form, a single exact constant,
/// is read exactly for a non-extensible single value, so that it stays
/// apart from an extensible one. The default size range renders as
/// nothing and is not read back.
pub proof fn lemma_range_round_trip(r: PerVisibleRange)
    ensures
        !is_default_size(r) ==> read_bounds(parse_constants(range_text(r)), range_prefix(r)) == (
            bound(r.min),
            bound(r.max),
        ),
        is_default_size(r) ==> range_text(r).len() == 0,
        (lookup_constant(parse_constants(range_text(r)), range_prefix(r)) is Some) <==> (!is_default_size(r)
            && r.min is Some && r.min == r.max && !r.extensible),
{
    lemma_range_constants_read_back(r);
    lemma_range_lines_plain(r);
    let lines = range_lines(r);
    let cs = range_constants(r);
    if lines.len() == 0 {
        assert(parse_constants(range_text(r)) =~= cs);
    } else {
        lemma_split_join(lines);
        reveal_strlit(" = ");
        assert(range_text(r).len() > 0) by {
            if lines.len() == 1 {
                assert(lines[0].len() > 0);
            } else {
                reveal_strlit("\n");
                assert(join_lines(lines) == join_lines(lines.drop_last()) + "\n"@ + lines.last());
            }
        }
        assert(parse_constants(range_text(r)) =~= cs);
    }
}

} // verus!
