//! Character-level helpers on strings: comparison, search and assembly.

use vstd::prelude::*;
use vstd::string::*;

verus! {

/// What `String::push` does, as its documentation says and without proof: it
/// appends the given character to the end of the string.
pub assume_specification[ String::push ](text: &mut String, ch: char)
    ensures
        final(text)@ == old(text)@.push(ch),
;

/// The character sequences of a list of strings.
pub open spec fn strings_view(strings: Seq<String>) -> Seq<Seq<char>> {
    Seq::new(strings.len(), |i: int| strings[i]@)
}

/// The character sequences of a list of string slices.
pub open spec fn strs_view(strs: Seq<&'static str>) -> Seq<Seq<char>> {
    Seq::new(strs.len(), |i: int| strs[i]@)
}

/// Whether `needle` occurs in `hay` starting at position `at`.
pub open spec fn occurs_at(hay: Seq<char>, needle: Seq<char>, at: int) -> bool {
    &&& 0 <= at
    &&& at + needle.len() <= hay.len()
    &&& hay.subrange(at, at + needle.len()) == needle
}

/// Whether `needle` occurs in `hay` as a contiguous run of characters.
pub open spec fn is_substring(hay: Seq<char>, needle: Seq<char>) -> bool {
    exists|at: int| occurs_at(hay, needle, at)
}

/// Whether `hay` begins with `prefix`.
pub open spec fn is_prefix(hay: Seq<char>, prefix: Seq<char>) -> bool {
    occurs_at(hay, prefix, 0)
}

/// The characters of a string slice, in order.
pub fn chars_of(text: &str) -> (chars: Vec<char>)
    ensures
        chars@ == text@,
{
    let len: usize = text.unicode_len();
    let mut chars: Vec<char> = Vec::new();
    let mut i: usize = 0;
    while i < len
        invariant
            len == text@.len(),
            i <= len,
            chars@ == text@.subrange(0, i as int),
        decreases len - i,
    {
        chars.push(text.get_char(i));
        i += 1;
    }
    chars
}

/// The string made of the given characters, in order.
pub fn string_of(chars: &Vec<char>) -> (text: String)
    ensures
        text@ == chars@,
{
    let mut text = String::new();
    let mut i: usize = 0;
    while i < chars.len()
        invariant
            i <= chars.len(),
            text@ == chars@.subrange(0, i as int),
        decreases chars.len() - i,
    {
        text.push(chars[i]);
        i += 1;
    }
    text
}

/// Whether two character sequences are the same.
pub fn chars_eq(left: &Vec<char>, right: &Vec<char>) -> (same: bool)
    ensures
        same == (left@ == right@),
{
    if left.len() != right.len() {
        return false;
    }
    let mut i: usize = 0;
    while i < left.len()
        invariant
            left.len() == right.len(),
            i <= left.len(),
            left@.subrange(0, i as int) == right@.subrange(0, i as int),
        decreases left.len() - i,
    {
        if left[i] != right[i] {
            return false;
        }
        proof {
            assert(left@.subrange(0, i + 1) == left@.subrange(0, i as int).push(left@[i as int]));
            assert(right@.subrange(0, i + 1) == right@.subrange(0, i as int).push(
                right@[i as int],
            ));
        }
        i += 1;
    }
    proof {
        assert(left@ == left@.subrange(0, left.len() as int));
        assert(right@ == right@.subrange(0, right.len() as int));
    }
    true
}

/// Whether two string slices hold the same characters.
pub fn str_eq(left: &str, right: &str) -> (same: bool)
    ensures
        same == (left@ == right@),
{
    let left_chars = chars_of(left);
    let right_chars = chars_of(right);
    chars_eq(&left_chars, &right_chars)
}

/// Whether `needle` occurs in `hay` at position `at`.
pub fn chars_occur_at(hay: &Vec<char>, needle: &Vec<char>, at: usize) -> (found: bool)
    ensures
        found == occurs_at(hay@, needle@, at as int),
{
    if needle.len() > hay.len() || at > hay.len() - needle.len() {
        return false;
    }
    let mut i: usize = 0;
    while i < needle.len()
        invariant
            at + needle.len() <= hay.len(),
            i <= needle.len(),
            hay@.subrange(at as int, at + i) == needle@.subrange(0, i as int),
        decreases needle.len() - i,
    {
        if hay[at + i] != needle[i] {
            proof {
                let window = hay@.subrange(at as int, at + needle.len());
                assert(window[i as int] != needle@[i as int]);
            }
            return false;
        }
        proof {
            assert(hay@.subrange(at as int, at + i + 1) == hay@.subrange(at as int, at + i).push(
                hay@[at + i],
            ));
            assert(needle@.subrange(0, i + 1) == needle@.subrange(0, i as int).push(
                needle@[i as int],
            ));
        }
        i += 1;
    }
    proof {
        assert(needle@ == needle@.subrange(0, needle.len() as int));
    }
    true
}

/// Whether `needle` occurs somewhere in `hay`.
pub fn chars_contain(hay: &Vec<char>, needle: &Vec<char>) -> (found: bool)
    ensures
        found == is_substring(hay@, needle@),
{
    if needle.len() > hay.len() {
        return false;
    }
    if needle.len() == 0 {
        assert(occurs_at(hay@, needle@, 0)) by {
            assert(hay@.subrange(0, 0) =~= needle@);
        }
        return true;
    }
    let last: usize = hay.len() - needle.len();
    let mut at: usize = 0;
    while at <= last
        invariant
            0 < needle.len() <= hay.len(),
            last == hay.len() - needle.len(),
            at <= last + 1,
            forall|k: int| 0 <= k < at ==> !occurs_at(hay@, needle@, k),
        decreases last + 1 - at,
    {
        if chars_occur_at(hay, needle, at) {
            return true;
        }
        at += 1;
    }
    false
}

/// Whether `needle` occurs in `hay` as a contiguous run of characters.
pub fn str_contains(hay: &str, needle: &str) -> (found: bool)
    ensures
        found == is_substring(hay@, needle@),
{
    let hay_chars = chars_of(hay);
    let needle_chars = chars_of(needle);
    chars_contain(&hay_chars, &needle_chars)
}

/// `text` with every occurrence of `from` replaced by `to`. Occurrences are
/// found from the left and do not overlap. An empty `from` occurs before
/// every character and at the end.
pub open spec fn replace_all(text: Seq<char>, from: Seq<char>, to: Seq<char>) -> Seq<char>
    decreases text.len(),
{
    if from.len() == 0 {
        if text.len() == 0 {
            to
        } else {
            to + seq![text[0]] + replace_all(text.skip(1), from, to)
        }
    } else if is_prefix(text, from) {
        to + replace_all(text.skip(from.len() as int), from, to)
    } else if text.len() == 0 {
        Seq::empty()
    } else {
        seq![text[0]] + replace_all(text.skip(1), from, to)
    }
}

/// Appends the characters of `items` to `out`.
pub fn push_all(out: &mut Vec<char>, items: &Vec<char>)
    ensures
        final(out)@ == old(out)@ + items@,
{
    let mut i: usize = 0;
    while i < items.len()
        invariant
            i <= items.len(),
            out@ == old(out)@ + items@.subrange(0, i as int),
        decreases items.len() - i,
    {
        out.push(items[i]);
        i += 1;
    }
    proof {
        assert(items@.subrange(0, items.len() as int) == items@);
    }
}

/// `text` with every occurrence of `from` replaced by `to`.
pub fn chars_replace_all(text: &Vec<char>, from: &Vec<char>, to: &Vec<char>) -> (out: Vec<char>)
    ensures
        out@ == replace_all(text@, from@, to@),
{
    let mut out: Vec<char> = Vec::new();
    let mut i: usize = 0;
    proof {
        assert(text@.skip(0) =~= text@);
        assert(out@ + replace_all(text@, from@, to@) =~= replace_all(text@, from@, to@));
    }
    while i < text.len()
        invariant
            i <= text.len(),
            out@ + replace_all(text@.skip(i as int), from@, to@) == replace_all(
                text@,
                from@,
                to@,
            ),
        decreases text.len() - i,
    {
        let ghost rest = text@.skip(i as int);
        let ghost done = out@;
        if from.len() == 0 {
            push_all(&mut out, to);
            out.push(text[i]);
            proof {
                assert(rest.skip(1) == text@.skip(i + 1));
                assert(out@ + replace_all(rest.skip(1), from@, to@) =~= done + (to@ + seq![rest[0]]
                    + replace_all(rest.skip(1), from@, to@)));
            }
            i += 1;
        } else if chars_occur_at(text, from, i) {
            push_all(&mut out, to);
            proof {
                assert(rest.subrange(0, from@.len() as int) == text@.subrange(
                    i as int,
                    i + from@.len(),
                ));
                assert(is_prefix(rest, from@));
                assert(rest.skip(from@.len() as int) == text@.skip(i + from@.len()));
                assert(out@ + replace_all(rest.skip(from@.len() as int), from@, to@) =~= done + (
                to@ + replace_all(rest.skip(from@.len() as int), from@, to@)));
            }
            i += from.len();
        } else {
            out.push(text[i]);
            proof {
                if from@.len() <= rest.len() {
                    assert(rest.subrange(0, from@.len() as int) == text@.subrange(
                        i as int,
                        i + from@.len(),
                    ));
                }
                assert(!is_prefix(rest, from@));
                assert(rest.skip(1) == text@.skip(i + 1));
                assert(out@ + replace_all(rest.skip(1), from@, to@) =~= done + (seq![rest[0]]
                    + replace_all(rest.skip(1), from@, to@)));
            }
            i += 1;
        }
    }
    proof {
        assert(text@.skip(text.len() as int) =~= Seq::<char>::empty());
    }
    if from.len() == 0 {
        let ghost done = out@;
        push_all(&mut out, to);
        assert(out@ == done + replace_all(Seq::<char>::empty(), from@, to@));
    } else {
        assert(!is_prefix(Seq::<char>::empty(), from@));
        assert(out@ =~= out@ + replace_all(Seq::<char>::empty(), from@, to@));
    }
    out
}

/// Whether `ch` is one of the decimal digits `0` to `9`.
pub open spec fn is_digit(ch: char) -> bool {
    '0' <= ch <= '9'
}

/// The number that a decimal digit stands for.
pub open spec fn digit_value(ch: char) -> nat
    recommends
        is_digit(ch),
{
    (ch as u32 - '0' as u32) as nat
}

/// The number that `ch` stands for, where it is a decimal digit.
pub fn digit_of(ch: char) -> (value: Option<u32>)
    ensures
        value is Some == is_digit(ch),
        value matches Some(n) ==> n == digit_value(ch) && n <= 9,
{
    if '0' <= ch && ch <= '9' {
        Some(ch as u32 - '0' as u32)
    } else {
        None
    }
}

/// The character that writes a number below ten.
pub open spec fn digit_char(value: nat) -> char
    recommends
        value < 10,
{
    ((value + 48) as u8) as char
}

/// A number written in decimal digits, without leading zeros.
pub open spec fn decimal(value: nat) -> Seq<char>
    decreases value,
{
    if value < 10 {
        seq![digit_char(value)]
    } else {
        decimal(value / 10).push(digit_char(value % 10))
    }
}

/// Appends `value`, written in decimal digits, to `out`.
pub fn push_decimal(out: &mut Vec<char>, value: u32)
    ensures
        final(out)@ == old(out)@ + decimal(value as nat),
    decreases value,
{
    if value >= 10 {
        push_decimal(out, value / 10);
    }
    let digit: u8 = (value % 10) as u8;
    out.push((digit + 48) as char);
}

/// The parts with the separator between every two of them.
pub open spec fn joined(parts: Seq<Seq<char>>, separator: Seq<char>) -> Seq<char>
    decreases parts.len(),
{
    if parts.len() == 0 {
        Seq::empty()
    } else if parts.len() == 1 {
        parts[0]
    } else {
        joined(parts.drop_last(), separator) + separator + parts.last()
    }
}

/// The parts with the separator between every two of them.
pub fn join_strings(parts: &Vec<String>, separator: &str) -> (text: String)
    ensures
        text@ == joined(strings_view(parts@), separator@),
{
    let mut text = String::new();
    let mut i: usize = 0;
    while i < parts.len()
        invariant
            i <= parts.len(),
            text@ == joined(strings_view(parts@).take(i as int), separator@),
        decreases parts.len() - i,
    {
        if i > 0 {
            text.append(separator);
        }
        text.append(parts[i].as_str());
        proof {
            let views = strings_view(parts@);
            assert(views.take(i + 1).drop_last() == views.take(i as int));
            assert(views.take(i + 1).last() == parts@[i as int]@);
        }
        i += 1;
    }
    proof {
        assert(strings_view(parts@).take(parts.len() as int) == strings_view(parts@));
    }
    text
}

} // verus!
