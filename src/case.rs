//! Identifier case conventions of the target schema.
use vstd::prelude::*;
use crate::error::GeneratorError;

verus! {

/// Whether a character has the Unicode `Lowercase` property.
pub uninterp spec fn lowercase_char(c: char) -> bool;

/// Whether a character has a Unicode numeric general category.
pub uninterp spec fn numeric_char(c: char) -> bool;

/// Whether a character has the Unicode `Uppercase` property.
pub uninterp spec fn uppercase_char(c: char) -> bool;

/// The Unicode upper-case mapping of a string.
pub uninterp spec fn upper_of(s: Seq<char>) -> Seq<char>;

/// Relies on `char::is_lowercase`, which depends on the character alone.
#[verifier::external_body]
fn is_lower(c: char) -> (r: bool)
    ensures
        r == lowercase_char(c),
{
    c.is_lowercase()
}

/// Relies on `char::is_numeric`, which depends on the character alone.
#[verifier::external_body]
fn is_digit_like(c: char) -> (r: bool)
    ensures
        r == numeric_char(c),
{
    c.is_numeric()
}

/// Relies on `char::is_uppercase`, which depends on the character alone.
#[verifier::external_body]
fn is_upper(c: char) -> (r: bool)
    ensures
        r == uppercase_char(c),
{
    c.is_uppercase()
}

/// Relies on `str::to_uppercase`, which depends on the string alone.
#[verifier::external_body]
fn uppercase(s: &str) -> (r: String)
    ensures
        r@ == upper_of(s@),
{
    s.to_uppercase()
}

/// ASCII lower-casing: `A` to `Z` map to `a` to `z`, all else is kept.
pub open spec fn ascii_lower(c: char) -> char {
    if 'A' <= c <= 'Z' {
        ((c as u32) + 32) as char
    } else {
        c
    }
}

/// ASCII lower-casing of one character, as `char::to_ascii_lowercase` does.
fn lower_ascii(c: char) -> (r: char)
    ensures
        r == ascii_lower(c),
{
    if 'A' <= c && c <= 'Z' {
        ((c as u8) + 32) as char
    } else {
        c
    }
}

/// Relies on `String::push`: it appends one character.
#[verifier::external_body]
pub(crate) fn push_char(s: &mut String, c: char)
    ensures
        final(s)@ == old(s)@.push(c),
{
    s.push(c)
}

/// A hyphen read as an underscore.
pub open spec fn dash_as_underscore(c: char) -> char {
    if c == '-' {
        '_'
    } else {
        c
    }
}

/// What snake case makes of the `i`-th character of `s` (hyphens already
/// read as underscores): a lower-case letter or a digit stays, followed by an
/// underscore where an upper-case letter comes next; any other character is
/// lower-cased.
pub open spec fn snake_piece(s: Seq<char>, i: int) -> Seq<char> {
    let c = s[i];
    if lowercase_char(c) || numeric_char(c) {
        if c != '_' && i + 1 < s.len() && uppercase_char(s[i + 1]) {
            seq![c, '_']
        } else {
            seq![c]
        }
    } else {
        seq![ascii_lower(c)]
    }
}

/// Snake case of the first `n` characters of `s`.
pub open spec fn snake_prefix(s: Seq<char>, n: int) -> Seq<char>
    decreases n,
{
    if n <= 0 {
        seq![]
    } else {
        snake_prefix(s, n - 1) + snake_piece(s, n - 1)
    }
}

/// The snake case of an identifier: `aBigNumber` becomes `a_big_number`.
pub open spec fn snake_case(s: Seq<char>) -> Seq<char> {
    let t = s.map_values(|c: char| dash_as_underscore(c));
    snake_prefix(t, t.len() as int)
}

/// The constant case of an identifier: its snake case, upper-cased.
pub open spec fn const_case(s: Seq<char>) -> Seq<char> {
    upper_of(snake_case(s))
}

/// The title case of an identifier: its hyphens removed.
pub open spec fn title_case(s: Seq<char>) -> Seq<char> {
    s.filter(|c: char| c != '-')
}

/// Converts an ASN.1 identifier to the snake case of field names.
pub fn to_ros_snake_case(input: &str) -> (r: String)
    ensures
        r@ == snake_case(input@),
{
    let ghost t = input@.map_values(|c: char| dash_as_underscore(c));
    let n = input.unicode_len();
    let mut out = String::new();
    let mut i: usize = 0;
    while i < n
        invariant
            n == input@.len(),
            t.len() == n,
            i <= n,
            forall|k: int| 0 <= k < n ==> #[trigger] t[k] == dash_as_underscore(input@[k]),
            out@ == snake_prefix(t, i as int),
        decreases n - i,
    {
        let c = dash_to_underscore(input.get_char(i));
        if is_lower(c) || is_digit_like(c) {
            push_char(&mut out, c);
            if c != '_' && i + 1 < n {
                let next = dash_to_underscore(input.get_char(i + 1));
                if is_upper(next) {
                    push_char(&mut out, '_');
                }
            }
        } else {
            push_char(&mut out, lower_ascii(c));
        }
        assert(out@ =~= snake_prefix(t, i + 1));
        i = i + 1;
    }
    out
}

fn dash_to_underscore(c: char) -> (r: char)
    ensures
        r == dash_as_underscore(c),
{
    if c == '-' {
        '_'
    } else {
        c
    }
}

/// Converts an ASN.1 identifier to the constant case of constant names.
pub fn to_ros_const_case(input: &str) -> (r: String)
    ensures
        r@ == const_case(input@),
{
    let snake = to_ros_snake_case(input);
    uppercase(snake.as_str())
}

/// Converts an ASN.1 type reference to a type name by removing hyphens.
pub fn to_ros_title_case(input: &str) -> (r: String)
    ensures
        r@ == title_case(input@),
{
    let n = input.unicode_len();
    let mut out = String::new();
    let mut i: usize = 0;
    while i < n
        invariant
            n == input@.len(),
            i <= n,
            out@ == input@.take(i as int).filter(|c: char| c != '-'),
        decreases n - i,
    {
        let c = input.get_char(i);
        proof {
            assert(input@.take(i + 1).drop_last() =~= input@.take(i as int));
            reveal(Seq::filter);
        }
        if c != '-' {
            push_char(&mut out, c);
        }
        i = i + 1;
    }
    assert(input@.take(n as int) =~= input@);
    out
}

/// The name of a nested type: its parent's name followed by its own.
pub fn inner_name(name: &String, parent_name: &String) -> (r: String)
    ensures
        r@ == parent_name@ + name@,
{
    let mut out = parent_name.clone();
    out.append(name.as_str());
    out
}

/// A comment block in `.msg` syntax: every line after a `#`, the first
/// after `# `; nothing for no comment.
pub open spec fn comment_block(prefix: Seq<char>, cont: Seq<char>, comments: Seq<char>) -> Seq<char> {
    if comments.len() == 0 {
        seq![]
    } else {
        prefix + comments.map_values(|c: char| if c == '\n' { cont } else { seq![c] }).flatten()
            + "\n"@
    }
}

/// Formats comments as a block of `#` lines.
pub fn format_comments(comments: &str) -> (r: Result<String, GeneratorError>)
    ensures
        r matches Ok(s) && s@ == comment_block("# "@, "\n#"@, comments@),
{
    Ok(comment_lines(comments, "# ", "\n#"))
}

/// Prefixes a comment with `prefix` and every line break in it with `cont`.
pub(crate) fn comment_lines(comments: &str, prefix: &str, cont: &str) -> (r: String)
    ensures
        r@ == comment_block(prefix@, cont@, comments@),
{
    let n = comments.unicode_len();
    if n == 0 {
        return String::new();
    }
    let ghost pieces = comments@.map_values(|c: char| if c == '\n' { cont@ } else { seq![c] });
    let mut out = String::from_str(prefix);
    let mut i: usize = 0;
    while i < n
        invariant
            n == comments@.len(),
            i <= n,
            pieces.len() == n,
            forall|k: int| 0 <= k < n ==> #[trigger] pieces[k] == (if comments@[k] == '\n' { cont@ } else { seq![comments@[k]] }),
            out@ == prefix@ + pieces.take(i as int).flatten(),
        decreases n - i,
    {
        let c = comments.get_char(i);
        proof {
            assert(pieces.take(i + 1).drop_last() =~= pieces.take(i as int));
            pieces.take(i as int).lemma_flatten_push(pieces[i as int]);
            assert(pieces.take(i as int).push(pieces[i as int]) =~= pieces.take(i + 1));
        }
        if c == '\n' {
            out.append(cont);
        } else {
            push_char(&mut out, c);
        }
        i = i + 1;
    }
    assert(pieces.take(n as int) =~= pieces);
    out.append("\n");
    out
}

} // verus!
