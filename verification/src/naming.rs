//! The names of what is derived from a record type: the packed companion
//! type and the two helper macros.

use crate::text::{chars_of, string_of};
use vstd::pervasive::unreached;
use vstd::prelude::*;
use vstd::string::*;

verus! {

/// Whether `ch` is one of the capital letters `A` to `Z`.
pub open spec fn is_upper(ch: char) -> bool {
    'A' <= ch <= 'Z'
}

/// The small letter of a capital letter `A` to `Z`; any other character as
/// it is.
pub open spec fn lower_of(ch: char) -> char {
    if is_upper(ch) {
        ((ch as u8 + 32) as u8) as char
    } else {
        ch
    }
}

/// `name` with an underscore put before every capital letter `A` to `Z`.
pub open spec fn marked(name: Seq<char>) -> Seq<char>
    decreases name.len(),
{
    if name.len() == 0 {
        Seq::empty()
    } else if is_upper(name.last()) {
        marked(name.drop_last()).push('_').push(name.last())
    } else {
        marked(name.drop_last()).push(name.last())
    }
}

/// `text` with every capital letter `A` to `Z` made small.
pub open spec fn lowered(text: Seq<char>) -> Seq<char> {
    Seq::new(text.len(), |i: int| lower_of(text[i]))
}

/// `text` without its first character, where that is an underscore.
pub open spec fn trimmed(text: Seq<char>) -> Seq<char> {
    if text.len() > 0 && text[0] == '_' {
        text.skip(1)
    } else {
        text
    }
}

/// A type name in snake case: every capital letter becomes an underscore
/// and its small letter, and an underscore that then leads is dropped.
pub open spec fn snake_of(name: Seq<char>) -> Seq<char> {
    trimmed(lowered(marked(name)))
}

/// `regex::Regex::new` on `pattern`, then `Regex::replace_all` of the
/// compiled expression on `text` with `replacement`. `None` where the
/// pattern does not compile.
///
/// Not proved, taken from the documentation of `regex`: the pattern
/// `(?P<M>[A-Z])` compiles and matches each capital letter `A` to `Z` on its
/// own, as group `M`; the replacement `_$M` stands for an underscore and the
/// text of group `M`; all matches are replaced, from the left. So each
/// capital letter gets an underscore before it and nothing else changes.
#[verifier::external_body]
fn regex_replace_all(pattern: &str, text: &str, replacement: &str) -> (replaced: Option<String>)
    ensures
        pattern@ == "(?P<M>[A-Z])"@ && replacement@ == "_$M"@ ==> replaced is Some
            && replaced->Some_0@ == marked(text@),
{
    match regex::Regex::new(pattern) {
        Ok(expression) => Some(expression.replace_all(text, replacement).into_owned()),
        Err(_) => None,
    }
}

/// The small letter of a capital letter `A` to `Z`; any other character as
/// it is.
pub fn to_lower(ch: char) -> (lower: char)
    ensures
        lower == lower_of(ch),
{
    if 'A' <= ch && ch <= 'Z' {
        (ch as u8 + 32) as char
    } else {
        ch
    }
}

/// A type name in snake case: `VertexData` becomes `vertex_data`.
pub fn snake_case(name: &str) -> (snake: String)
    ensures
        snake@ == snake_of(name@),
{
    let with_marks = match regex_replace_all("(?P<M>[A-Z])", name, "_$M") {
        Some(with_marks) => with_marks,
        None => unreached(),
    };
    let chars = chars_of(with_marks.as_str());
    let mut lower: Vec<char> = Vec::new();
    let mut i: usize = 0;
    while i < chars.len()
        invariant
            i <= chars.len(),
            lower@ == lowered(chars@.subrange(0, i as int)),
        decreases chars.len() - i,
    {
        lower.push(to_lower(chars[i]));
        i += 1;
    }
    proof {
        assert(chars@.subrange(0, chars.len() as int) == chars@);
    }
    if lower.len() > 0 && lower[0] == '_' {
        lower.remove(0);
        assert(lower@ == lowered(chars@).skip(1));
    }
    string_of(&lower)
}

/// The name of the packed companion of the record type `name`.
pub fn packed_type_name(name: &str) -> (packed: String)
    ensures
        packed@ == name@ + "PackedData"@,
{
    let mut packed = name.to_owned();
    packed.append("PackedData");
    packed
}

/// The name of the macro that packs one constant record of type `name`.
pub fn const_into_name(name: &str) -> (helper: String)
    ensures
        helper@ == snake_of(name@) + "_const_into"@,
{
    let mut helper = snake_case(name);
    helper.append("_const_into");
    helper
}

/// The name of the macro that turns records of type `name` into the bytes
/// of their packed companions.
pub fn mutate_name(name: &str) -> (helper: String)
    ensures
        helper@ == "mutate_"@ + snake_of(name@),
{
    let mut helper = "mutate_".to_owned();
    let snake = snake_case(name);
    helper.append(snake.as_str());
    helper
}

} // verus!
