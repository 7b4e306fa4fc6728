//! Identifier case conversion and small text utilities.
use vstd::prelude::*;

use crate::text::{chars_of, extend_chars, lines_of, split_lines, string_of};

verus! {

/// An ASCII letter or digit.
pub open spec fn is_ascii_alnum(c: char) -> bool {
    ('a' <= c && c <= 'z') || ('A' <= c && c <= 'Z') || ('0' <= c && c <= '9')
}

pub open spec fn is_ascii_upper(c: char) -> bool {
    'A' <= c && c <= 'Z'
}

pub open spec fn ascii_lower(c: char) -> char {
    if is_ascii_upper(c) {
        ((c as u32) + 32) as char
    } else {
        c
    }
}

/// The state of the snake-case scanner after reading `s`: the output so far and
/// whether the last significant character was a word delimiter.
pub open spec fn snake_scan(s: Seq<char>) -> (Seq<char>, bool)
    decreases s.len(),
{
    if s.len() == 0 {
        (Seq::empty(), true)
    } else {
        let (buf, prev_delim) = snake_scan(s.drop_last());
        let c = s.last();
        let sep = if !prev_delim && buf.len() > 0 { buf.push('_') } else { buf };
        if is_ascii_alnum(c) {
            if is_ascii_upper(c) {
                (sep.push(ascii_lower(c)), false)
            } else {
                (buf.push(c), false)
            }
        } else if c == ' ' || c == '-' {
            (sep, true)
        } else {
            (buf, prev_delim)
        }
    }
}

/// The snake_case form of `s`: ASCII letters and digits are kept, upper-case
/// letters start a new word, spaces and hyphens end one, anything else is dropped.
pub open spec fn snake_case(s: Seq<char>) -> Seq<char> {
    snake_scan(s).0
}

fn lower_ascii_char(c: char) -> (r: char)
    ensures
        r == ascii_lower(c),
{
    if 'A' <= c && c <= 'Z' {
        ((c as u8) + 32) as char
    } else {
        c
    }
}

/// Transforms a string to its snake_case form.
pub fn to_snake_case(string: &str) -> (r: String)
    ensures
        r@ == snake_case(string@),
{
    let input = chars_of(string);
    let mut buffer: Vec<char> = Vec::new();
    let mut prev_was_delimiter = true;
    let mut i: usize = 0;
    while i < input.len()
        invariant
            i <= input.len(),
            input@ == string@,
            snake_scan(input@.take(i as int)) == (buffer@, prev_was_delimiter),
        decreases input.len() - i,
    {
        let c = input[i];
        assert(input@.take(i + 1).drop_last() =~= input@.take(i as int));
        if ('a' <= c && c <= 'z') || ('A' <= c && c <= 'Z') || ('0' <= c && c <= '9') {
            if 'A' <= c && c <= 'Z' {
                if !prev_was_delimiter && buffer.len() > 0 {
                    buffer.push('_');
                }
                buffer.push(lower_ascii_char(c));
            } else {
                buffer.push(c);
            }
            prev_was_delimiter = false;
        } else if c == ' ' || c == '-' {
            if !prev_was_delimiter && buffer.len() > 0 {
                buffer.push('_');
            }
            prev_was_delimiter = true;
        }
        i = i + 1;
    }
    assert(input@.take(input.len() as int) =~= string@);
    string_of(&buffer)
}

/// What `char::to_uppercase` yields for `c`.
pub uninterp spec fn upper_of(c: char) -> Seq<char>;

/// Relies on `char::to_uppercase`: the upper-case mapping of one character,
/// which for ASCII maps `a`..`z` to `A`..`Z` and leaves every other ASCII
/// character as it is.
#[verifier::external_body]
fn char_to_upper(c: char) -> (r: Vec<char>)
    ensures
        r@ == upper_of(c),
        'a' <= c && c <= 'z' ==> r@ == seq![((c as u32) - 32) as char],
        c <= '\x7f' && !('a' <= c && c <= 'z') ==> r@ == seq![c],
{
    c.to_uppercase().collect()
}

/// The upper-case form of one character: `a`..`z` become `A`..`Z`, any other
/// ASCII character stays, and beyond ASCII it is what `char::to_uppercase`
/// gives.
pub open spec fn upper_chars(c: char) -> Seq<char> {
    if 'a' <= c && c <= 'z' {
        seq![((c as u32) - 32) as char]
    } else if c <= '\x7f' {
        seq![c]
    } else {
        upper_of(c)
    }
}

/// The state of the PascalCase scanner after reading `s`: the output so far and
/// whether the next character is to be upper-cased.
pub open spec fn pascal_scan(s: Seq<char>) -> (Seq<char>, bool)
    decreases s.len(),
{
    if s.len() == 0 {
        (Seq::empty(), false)
    } else {
        let (acc, upper_next) = pascal_scan(s.drop_last());
        let c = s.last();
        if s.len() == 1 {
            (acc + upper_chars(c), upper_next)
        } else if c == '_' || c == '-' {
            (acc, true)
        } else if upper_next {
            (acc + upper_chars(c), false)
        } else {
            (acc.push(c), upper_next)
        }
    }
}

/// The PascalCase form of `s`: the first character and each one after `_` or
/// `-` are upper-cased, the delimiters are dropped.
pub open spec fn pascal_case(s: Seq<char>) -> Seq<char> {
    pascal_scan(s).0
}

/// Transforms a string to its PascalCase form.
pub fn to_pascal_case(string: &str) -> (r: String)
    ensures
        r@ == pascal_case(string@),
{
    let input = chars_of(string);
    let mut chars: Vec<char> = Vec::new();
    let mut uppercase_next = false;
    let mut i: usize = 0;
    while i < input.len()
        invariant
            i <= input.len(),
            input@ == string@,
            pascal_scan(input@.take(i as int)) == (chars@, uppercase_next),
        decreases input.len() - i,
    {
        let ch = input[i];
        assert(input@.take(i + 1).drop_last() =~= input@.take(i as int));
        assert(input@.take(i + 1).last() == ch);
        if i == 0 {
            let up = char_to_upper(ch);
            extend_chars(&mut chars, &up);
        } else if ch == '_' || ch == '-' {
            uppercase_next = true;
        } else if uppercase_next {
            let up = char_to_upper(ch);
            extend_chars(&mut chars, &up);
            uppercase_next = false;
        } else {
            chars.push(ch);
        }
        i = i + 1;
    }
    assert(input@.take(input.len() as int) =~= string@);
    string_of(&chars)
}

/// One line as `indented_lines` writes it: an empty line stays empty, any other
/// is indented by two spaces; each ends with a newline.
pub open spec fn indent_line(l: Seq<char>) -> Seq<char> {
    if l.len() == 0 {
        seq!['\n']
    } else {
        seq![' ', ' '] + l + seq!['\n']
    }
}

pub open spec fn indent_all(ls: Seq<Seq<char>>) -> Seq<char>
    decreases ls.len(),
{
    if ls.len() == 0 {
        Seq::empty()
    } else {
        indent_all(ls.drop_last()) + indent_line(ls.last())
    }
}

/// Indents every non-empty line of `text` by two spaces.
pub fn indented_lines(text: &str) -> (r: String)
    ensures
        r@ == indent_all(lines_of(text@)),
{
    let input = chars_of(text);
    let lines = split_lines(&input);
    let mut out: Vec<char> = Vec::new();
    let mut i: usize = 0;
    while i < lines.len()
        invariant
            i <= lines.len(),
            lines@.len() == lines_of(text@).len(),
            forall|k: int| 0 <= k < lines@.len() ==> #[trigger] lines@[k]@ == lines_of(text@)[k],
            out@ == indent_all(lines_of(text@).take(i as int)),
        decreases lines.len() - i,
    {
        assert(lines_of(text@).take(i + 1).drop_last() =~= lines_of(text@).take(i as int));
        assert(lines@[i as int]@ == lines_of(text@)[i as int]);
        if lines[i].len() == 0 {
            out.push('\n');
        } else {
            out.push(' ');
            out.push(' ');
            extend_chars(&mut out, &lines[i]);
            out.push('\n');
        }
        assert(out@ =~= indent_all(lines_of(text@).take(i + 1)));
        i = i + 1;
    }
    assert(lines_of(text@).take(lines.len() as int) =~= lines_of(text@));
    string_of(&out)
}

/// A character with the Unicode `White_Space` property, as `char::is_whitespace`
/// tests it.
pub open spec fn is_whitespace(c: char) -> bool {
    let u = c as u32;
    (0x09 <= u && u <= 0x0D) || u == 0x20 || u == 0x85 || u == 0xA0 || u == 0x1680
        || (0x2000 <= u && u <= 0x200A) || u == 0x2028 || u == 0x2029 || u == 0x202F
        || u == 0x205F || u == 0x3000
}

fn char_is_whitespace(c: char) -> (r: bool)
    ensures
        r == is_whitespace(c),
{
    let u = c as u32;
    (0x09 <= u && u <= 0x0D) || u == 0x20 || u == 0x85 || u == 0xA0 || u == 0x1680
        || (0x2000 <= u && u <= 0x200A) || u == 0x2028 || u == 0x2029 || u == 0x202F
        || u == 0x205F || u == 0x3000
}

pub open spec fn is_feature_separator(c: char) -> bool {
    is_whitespace(c) || c == ','
}

/// The feature names completed while reading `s`, and the one being read.
pub open spec fn feature_scan(s: Seq<char>) -> (Seq<Seq<char>>, Seq<char>)
    decreases s.len(),
{
    if s.len() == 0 {
        (Seq::empty(), Seq::empty())
    } else {
        let (done, cur) = feature_scan(s.drop_last());
        if is_feature_separator(s.last()) {
            (if cur.len() > 0 { done.push(cur) } else { done }, Seq::empty())
        } else {
            (done, cur.push(s.last()))
        }
    }
}

/// The non-empty runs of `s` between whitespace and commas, in order.
pub open spec fn feature_list(s: Seq<char>) -> Seq<Seq<char>> {
    let (done, cur) = feature_scan(s);
    if cur.len() > 0 {
        done.push(cur)
    } else {
        done
    }
}

/// Splits a list of feature flags separated by whitespace or commas, keeping
/// the order in which they were given and any repetitions.
pub fn parse_features(feature: &str) -> (r: Vec<String>)
    ensures
        r@.len() == feature_list(feature@).len(),
        forall|k: int| 0 <= k < r@.len() ==> #[trigger] r@[k]@ == feature_list(feature@)[k],
{
    let input = chars_of(feature);
    let mut done: Vec<String> = Vec::new();
    let mut cur: Vec<char> = Vec::new();
    let mut i: usize = 0;
    while i < input.len()
        invariant
            i <= input.len(),
            input@ == feature@,
            feature_scan(input@.take(i as int)).0.len() == done@.len(),
            forall|k: int|
                0 <= k < done@.len() ==> #[trigger] done@[k]@ == feature_scan(
                    input@.take(i as int),
                ).0[k],
            feature_scan(input@.take(i as int)).1 == cur@,
        decreases input.len() - i,
    {
        let c = input[i];
        assert(input@.take(i + 1).drop_last() =~= input@.take(i as int));
        if char_is_whitespace(c) || c == ',' {
            if cur.len() > 0 {
                done.push(string_of(&cur));
            }
            cur = Vec::new();
        } else {
            cur.push(c);
        }
        i = i + 1;
    }
    assert(input@.take(input.len() as int) =~= feature@);
    if cur.len() > 0 {
        done.push(string_of(&cur));
    }
    done
}

} // verus!
