//! The pallet injection engine: a scanner over a runtime's source text that
//! places a pallet's configuration block and registers the pallet in the
//! runtime's aggregation construct.
use vstd::prelude::*;

use crate::text::{chars_of, contains, contains_chars, extend_chars, matches_at, occurs_at, string_of};
use crate::util::{is_whitespace, pascal_case, snake_case, to_pascal_case, to_snake_case};

verus! {

/// The first index at or after `i` that does not hold whitespace.
pub open spec fn skip_ws(s: Seq<char>, i: int) -> int
    decreases s.len() - i,
{
    if i < 0 || i >= s.len() || !is_whitespace(s[i]) {
        i
    } else {
        skip_ws(s, i + 1)
    }
}

/// Where a run of tokens separated by whitespace, starting at `i`, ends.
pub open spec fn tokens_end(s: Seq<char>, i: int, toks: Seq<Seq<char>>) -> Option<int>
    decreases toks.len(),
{
    if toks.len() == 0 {
        Some(i)
    } else if !occurs_at(s, i, toks[0]) {
        None
    } else if toks.len() == 1 {
        Some(i + toks[0].len())
    } else {
        let j = i + toks[0].len();
        let k = skip_ws(s, j);
        if k == j {
            None
        } else {
            tokens_end(s, k, toks.drop_first())
        }
    }
}

/// The index of the `}` that closes a block whose contents start at `i`, at
/// brace depth `depth`.
pub open spec fn close_from(s: Seq<char>, i: int, depth: nat) -> Option<int>
    decreases s.len() - i,
{
    if i < 0 || i >= s.len() || depth == 0 {
        None
    } else if s[i] == '{' {
        close_from(s, i + 1, depth + 1)
    } else if s[i] == '}' {
        if depth == 1 {
            Some(i)
        } else {
            close_from(s, i + 1, (depth - 1) as nat)
        }
    } else {
        close_from(s, i + 1, depth)
    }
}

/// The header of a pallet's configuration block for the runtime.
pub open spec fn impl_header(m: Seq<char>) -> Seq<Seq<char>> {
    seq!["impl"@, m + "::Config"@, "for"@, "Runtime"@, "{"@]
}

/// Where the configuration block of pallet `m` starting at `i` ends (one past
/// its closing brace), if one starts there: at the start of a line, the
/// header, then a body closed at matching brace depth.
pub open spec fn impl_block_at(s: Seq<char>, i: int, m: Seq<char>) -> Option<int> {
    if 0 <= i < s.len() && (i == 0 || s[i - 1] == '\n') {
        match tokens_end(s, i, impl_header(m)) {
            Some(e) => match close_from(s, e, 1) {
                Some(c) => Some(c + 1),
                None => None,
            },
            None => None,
        }
    } else {
        None
    }
}

/// The first configuration block of pallet `m` at or after `i`.
pub open spec fn find_impl_from(s: Seq<char>, i: int, m: Seq<char>) -> Option<(int, int)>
    decreases s.len() - i,
{
    if i < 0 || i >= s.len() {
        None
    } else {
        match impl_block_at(s, i, m) {
            Some(e) => Some((i, e)),
            None => find_impl_from(s, i + 1, m),
        }
    }
}

/// The first index at or after `i` where `pat` occurs.
pub open spec fn find_from(s: Seq<char>, i: int, pat: Seq<char>) -> Option<int>
    decreases s.len() + 1 - i,
{
    if i < 0 || i > s.len() {
        None
    } else if occurs_at(s, i, pat) {
        Some(i)
    } else {
        find_from(s, i + 1, pat)
    }
}

/// The first index at or after `i` that holds `c`.
pub open spec fn find_char(s: Seq<char>, i: int, c: char) -> Option<int>
    decreases s.len() - i,
{
    if i < 0 || i >= s.len() {
        None
    } else if s[i] == c {
        Some(i)
    } else {
        find_char(s, i + 1, c)
    }
}

/// The aggregation construct: where it starts, and the indices of the braces
/// that open and close its body. It is the first `construct_runtime!(`, its
/// body the first brace block after it.
pub open spec fn find_aggregation(s: Seq<char>) -> Option<(int, int, int)> {
    match find_from(s, 0, "construct_runtime!("@) {
        Some(start) => match find_char(s, start, '{') {
            Some(open) => match close_from(s, open + 1, 1) {
                Some(close) => Some((start, open, close)),
                None => None,
            },
            None => None,
        },
        None => None,
    }
}

fn is_ws(c: char) -> (r: bool)
    ensures
        r == is_whitespace(c),
{
    let u = c as u32;
    (0x09 <= u && u <= 0x0D) || u == 0x20 || u == 0x85 || u == 0xA0 || u == 0x1680
        || (0x2000 <= u && u <= 0x200A) || u == 0x2028 || u == 0x2029 || u == 0x202F
        || u == 0x205F || u == 0x3000
}

fn skip_ws_at(s: &Vec<char>, i: usize) -> (r: usize)
    requires
        i <= s.len(),
    ensures
        r as int == skip_ws(s@, i as int),
        i <= r <= s.len(),
{
    let mut j = i;
    while j < s.len() && is_ws(s[j])
        invariant
            i <= j <= s.len(),
            skip_ws(s@, i as int) == skip_ws(s@, j as int),
        decreases s.len() - j,
    {
        j = j + 1;
    }
    j
}

pub open spec fn tok_views(toks: Seq<Vec<char>>) -> Seq<Seq<char>> {
    toks.map_values(|t: Vec<char>| t@)
}

fn tokens_end_at(s: &Vec<char>, i: usize, toks: &Vec<Vec<char>>) -> (r: Option<usize>)
    requires
        i <= s.len(),
    ensures
        match r {
            Some(e) => tokens_end(s@, i as int, tok_views(toks@)) == Some(e as int) && i <= e <= s.len()
                && (toks@.len() > 0 && toks@[0]@.len() > 0 ==> e > i),
            None => tokens_end(s@, i as int, tok_views(toks@)) is None,
        },
{
    let ghost tv = tok_views(toks@);
    if toks.len() == 0 {
        return Some(i);
    }
    let mut pos = i;
    let mut t: usize = 0;
    assert(tv.subrange(0, tv.len() as int) =~= tv);
    loop
        invariant
            t < toks.len(),
            i <= pos <= s.len(),
            t > 0 ==> pos > i,
            tv == tok_views(toks@),
            tokens_end(s@, i as int, tv) == tokens_end(s@, pos as int, tv.subrange(t as int, tv.len() as int)),
        decreases toks.len() - t,
    {
        let ghost rest = tv.subrange(t as int, tv.len() as int);
        assert(rest[0] == toks@[t as int]@);
        if !matches_at(s, pos, &toks[t]) {
            return None;
        }
        let j = pos + toks[t].len();
        if t + 1 == toks.len() {
            return Some(j);
        }
        let k = skip_ws_at(s, j);
        if k == j {
            return None;
        }
        assert(rest.drop_first() =~= tv.subrange(t + 1, tv.len() as int));
        pos = k;
        t = t + 1;
    }
}

fn close_at(s: &Vec<char>, i: usize) -> (r: Option<usize>)
    requires
        1 <= i <= s.len(),
    ensures
        match r {
            Some(c) => close_from(s@, i as int, 1) == Some(c as int) && i <= c < s.len(),
            None => close_from(s@, i as int, 1) is None,
        },
{
    let mut j = i;
    let mut depth: usize = 1;
    while j < s.len()
        invariant
            1 <= i <= j <= s.len(),
            1 <= depth <= j - i + 1,
            close_from(s@, i as int, 1) == close_from(s@, j as int, depth as nat),
        decreases s.len() - j,
    {
        if s[j] == '{' {
            depth = depth + 1;
        } else if s[j] == '}' {
            if depth == 1 {
                return Some(j);
            }
            depth = depth - 1;
        }
        j = j + 1;
    }
    None
}

fn header_tokens(m: &Vec<char>) -> (r: Vec<Vec<char>>)
    ensures
        tok_views(r@) == impl_header(m@),
{
    let mut m_config = m.clone();
    extend_chars(&mut m_config, &chars_of("::Config"));
    let r = vec![chars_of("impl"), m_config, chars_of("for"), chars_of("Runtime"), chars_of("{")];
    assert(tok_views(r@) =~= impl_header(m@));
    r
}

fn impl_block_at_exec(s: &Vec<char>, i: usize, header: &Vec<Vec<char>>, m: &Vec<char>) -> (r: Option<usize>)
    requires
        tok_views(header@) == impl_header(m@),
    ensures
        match r {
            Some(e) => impl_block_at(s@, i as int, m@) == Some(e as int) && i < e <= s.len(),
            None => impl_block_at(s@, i as int, m@) is None,
        },
{
    if i >= s.len() || !(i == 0 || s[i - 1] == '\n') {
        return None;
    }
    match tokens_end_at(s, i, header) {
        Some(e) => {
            proof {
                reveal_strlit("impl");
                assert(header@[0]@ == "impl"@);
            }
            match close_at(s, e) {
                Some(c) => Some(c + 1),
                None => None,
            }
        },
        None => None,
    }
}

/// Finds the first configuration block of pallet `m`.
fn find_impl(s: &Vec<char>, m: &Vec<char>) -> (r: Option<(usize, usize)>)
    ensures
        match r {
            Some((a, b)) => find_impl_from(s@, 0, m@) == Some((a as int, b as int)) && a < b <= s.len(),
            None => find_impl_from(s@, 0, m@) is None,
        },
{
    let header = header_tokens(m);
    let mut i: usize = 0;
    while i < s.len()
        invariant
            i <= s.len(),
            tok_views(header@) == impl_header(m@),
            find_impl_from(s@, 0, m@) == find_impl_from(s@, i as int, m@),
        decreases s.len() - i,
    {
        match impl_block_at_exec(s, i, &header, m) {
            Some(e) => {
                return Some((i, e));
            },
            None => {},
        }
        i = i + 1;
    }
    None
}

fn find_pat(s: &Vec<char>, pat: &Vec<char>) -> (r: Option<usize>)
    ensures
        match r {
            Some(k) => find_from(s@, 0, pat@) == Some(k as int) && k + pat.len() <= s.len(),
            None => find_from(s@, 0, pat@) is None,
        },
{
    let mut i: usize = 0;
    loop
        invariant
            i <= s.len(),
            find_from(s@, 0, pat@) == find_from(s@, i as int, pat@),
        decreases s.len() - i,
    {
        if matches_at(s, i, pat) {
            return Some(i);
        }
        if i == s.len() {
            assert(find_from(s@, i + 1, pat@) is None);
            return None;
        }
        i = i + 1;
    }
}

fn find_char_at(s: &Vec<char>, i: usize, c: char) -> (r: Option<usize>)
    ensures
        match r {
            Some(k) => find_char(s@, i as int, c) == Some(k as int) && i <= k < s.len(),
            None => find_char(s@, i as int, c) is None,
        },
{
    let mut j = i;
    while j < s.len()
        invariant
            i <= j,
            find_char(s@, i as int, c) == find_char(s@, j as int, c),
        decreases s.len() - j,
    {
        if s[j] == c {
            return Some(j);
        }
        j = j + 1;
    }
    None
}

/// Finds the aggregation construct.
fn find_aggregation_exec(s: &Vec<char>) -> (r: Option<(usize, usize, usize)>)
    ensures
        match r {
            Some((a, o, c)) => find_aggregation(s@) == Some((a as int, o as int, c as int)) && a <= o
                < c < s.len(),
            None => find_aggregation(s@) is None,
        },
{
    let marker = chars_of("construct_runtime!(");
    match find_pat(s, &marker) {
        Some(start) => match find_char_at(s, start, '{') {
            Some(open) => match close_at(s, open + 1) {
                Some(close) => Some((start, open, close)),
                None => None,
            },
            None => None,
        },
        None => None,
    }
}

/// The injection target has no aggregation construct.
#[derive(Debug, PartialEq, Eq, Structural)]
pub enum InjectError {
    AggregationNotFound,
}

/// A fresh configuration block for pallet `m`.
pub open spec fn skeleton(m: Seq<char>) -> Seq<char> {
    "impl "@ + m + "::Config for Runtime { \n\t/* "@ + m + " Trait config goes here */ \n}"@
}

/// The registration entry of pallet `m` in the aggregation body.
pub open spec fn entry_line(m: Seq<char>) -> Seq<char> {
    "        "@ + pascal_case(m) + ": "@ + m + ","@
}

/// The number of line feeds in `s`.
pub open spec fn count_nl(s: Seq<char>) -> nat
    decreases s.len(),
{
    if s.len() == 0 {
        0
    } else {
        count_nl(s.drop_last()) + if s.last() == '\n' {
            1nat
        } else {
            0nat
        }
    }
}

/// The first line of `body` at or after index `i` (itself a line start) that
/// mentions `m`, by the indices where it starts and ends.
pub open spec fn first_line_with(body: Seq<char>, m: Seq<char>, i: int) -> Option<(int, int)>
    decreases body.len() - i,
{
    if i < 0 || i > body.len() {
        None
    } else {
        let end = match find_char(body, i, '\n') {
            Some(k) => if i <= k <= body.len() {
                k
            } else {
                body.len() as int
            },
            None => body.len() as int,
        };
        if contains(body.subrange(i, end), m) {
            Some((i, end))
        } else if end >= body.len() {
            None
        } else {
            first_line_with(body, m, end + 1)
        }
    }
}

/// The end of `s` with trailing whitespace left out, looking back from `p`.
pub open spec fn trim_end_from(s: Seq<char>, p: int) -> int
    decreases p,
{
    if p <= 0 || p > s.len() {
        p
    } else if is_whitespace(s[p - 1]) {
        trim_end_from(s, p - 1)
    } else {
        p
    }
}

/// The text with a configuration block for `m` in place, and the line where
/// an existing block began: an existing block is replaced by a fresh one, else
/// a fresh one goes right before the aggregation construct.
pub open spec fn with_impl(s: Seq<char>, m: Seq<char>) -> Option<(Seq<char>, Option<int>)> {
    match find_impl_from(s, 0, m) {
        Some((a, b)) => Some(
            (s.take(a) + skeleton(m) + s.skip(b), Some(count_nl(s.take(a)) + 1int)),
        ),
        None => match find_aggregation(s) {
            Some((start, _, _)) => Some((s.take(start) + skeleton(m) + "\n\n"@ + s.skip(start), None)),
            None => None,
        },
    }
}

/// The text with `m` registered in the aggregation body: the first body line
/// that mentions `m` is replaced by the entry, else the entry goes on a new
/// line after the body's last non-blank character.
pub open spec fn registered(t: Seq<char>, m: Seq<char>) -> Option<Seq<char>> {
    match find_aggregation(t) {
        None => None,
        Some((_, o, c)) => {
            let body = t.subrange(o + 1, c);
            match first_line_with(body, m, 0) {
                Some((ls, le)) => Some(t.take(o + 1 + ls) + entry_line(m) + t.skip(o + 1 + le)),
                None => {
                    let p = o + 1 + trim_end_from(body, body.len() as int);
                    Some(t.take(p) + "\n"@ + entry_line(m) + t.skip(p))
                },
            }
        },
    }
}

/// The whole injection of pallet `m` into source text `s`.
pub open spec fn injected(s: Seq<char>, m: Seq<char>) -> Option<(Seq<char>, Option<int>)> {
    match with_impl(s, m) {
        None => None,
        Some((t, line)) => match registered(t, m) {
            None => None,
            Some(u) => Some((u, line)),
        },
    }
}

fn slice_of(s: &Vec<char>, a: usize, b: usize) -> (r: Vec<char>)
    requires
        a <= b <= s.len(),
    ensures
        r@ == s@.subrange(a as int, b as int),
{
    let mut out: Vec<char> = Vec::new();
    let mut k = a;
    while k < b
        invariant
            a <= k <= b,
            b <= s.len(),
            out@ == s@.subrange(a as int, k as int),
        decreases b - k,
    {
        out.push(s[k]);
        k = k + 1;
        assert(out@ =~= s@.subrange(a as int, k as int));
    }
    out
}

fn count_newlines(s: &Vec<char>, a: usize) -> (r: usize)
    requires
        a <= s.len(),
    ensures
        r == count_nl(s@.take(a as int)),
        r <= a,
{
    let mut n: usize = 0;
    let mut k: usize = 0;
    while k < a
        invariant
            k <= a <= s.len(),
            n == count_nl(s@.take(k as int)),
            n <= k,
        decreases a - k,
    {
        assert(s@.take(k + 1).drop_last() =~= s@.take(k as int));
        if s[k] == '\n' {
            n = n + 1;
        }
        k = k + 1;
    }
    n
}

fn skeleton_of(m: &Vec<char>) -> (r: Vec<char>)
    ensures
        r@ == skeleton(m@),
{
    let mut out = chars_of("impl ");
    extend_chars(&mut out, m);
    extend_chars(&mut out, &chars_of("::Config for Runtime { \n\t/* "));
    extend_chars(&mut out, m);
    extend_chars(&mut out, &chars_of(" Trait config goes here */ \n}"));
    out
}

fn entry_of(m: &Vec<char>, pascal: &Vec<char>) -> (r: Vec<char>)
    requires
        pascal@ == pascal_case(m@),
    ensures
        r@ == entry_line(m@),
{
    let mut out = chars_of("        ");
    extend_chars(&mut out, pascal);
    extend_chars(&mut out, &chars_of(": "));
    extend_chars(&mut out, m);
    extend_chars(&mut out, &chars_of(","));
    out
}

/// `a`, then `mid`, then `s` from `b` on: `s` with `[a, b)` replaced.
fn splice(s: &Vec<char>, a: usize, b: usize, mid: &Vec<char>) -> (r: Vec<char>)
    requires
        a <= b <= s.len(),
    ensures
        r@ == s@.take(a as int) + mid@ + s@.skip(b as int),
{
    let mut out = slice_of(s, 0, a);
    extend_chars(&mut out, mid);
    extend_chars(&mut out, &slice_of(s, b, s.len()));
    assert(s@.subrange(0, a as int) =~= s@.take(a as int));
    assert(s@.subrange(b as int, s.len() as int) =~= s@.skip(b as int));
    out
}

fn first_line_with_exec(body: &Vec<char>, m: &Vec<char>) -> (r: Option<(usize, usize)>)
    ensures
        match r {
            Some((ls, le)) => first_line_with(body@, m@, 0) == Some((ls as int, le as int)) && ls <= le
                <= body.len(),
            None => first_line_with(body@, m@, 0) is None,
        },
{
    let mut i: usize = 0;
    loop
        invariant
            i <= body.len(),
            first_line_with(body@, m@, 0) == first_line_with(body@, m@, i as int),
        decreases body.len() - i,
    {
        let end = match find_char_at(body, i, '\n') {
            Some(k) => k,
            None => body.len(),
        };
        let line = slice_of(body, i, end);
        if contains_chars(&line, m) {
            return Some((i, end));
        }
        if end >= body.len() {
            return None;
        }
        i = end + 1;
    }
}

fn trim_end_exec(s: &Vec<char>) -> (r: usize)
    ensures
        r == trim_end_from(s@, s.len() as int),
        r <= s.len(),
{
    let mut p = s.len();
    while p > 0 && is_ws(s[p - 1])
        invariant
            p <= s.len(),
            trim_end_from(s@, s.len() as int) == trim_end_from(s@, p as int),
        decreases p,
    {
        p = p - 1;
    }
    p
}

fn register_exec(t: &Vec<char>, m: &Vec<char>, entry: &Vec<char>) -> (r: Option<Vec<char>>)
    requires
        entry@ == entry_line(m@),
    ensures
        match r {
            Some(u) => registered(t@, m@) == Some(u@),
            None => registered(t@, m@) is None,
        },
{
    match find_aggregation_exec(t) {
        None => None,
        Some((_, o, c)) => {
            let body = slice_of(t, o + 1, c);
            match first_line_with_exec(&body, m) {
                Some((ls, le)) => Some(splice(t, o + 1 + ls, o + 1 + le, entry)),
                None => {
                    let p = o + 1 + trim_end_exec(&body);
                    let mut line = chars_of("\n");
                    extend_chars(&mut line, entry);
                    let r = splice(t, p, p, &line);
                    assert(r@ =~= t@.take(p as int) + "\n"@ + entry_line(m@) + t@.skip(p as int));
                    Some(r)
                },
            }
        },
    }
}

/// Places a configuration block for pallet `crate_spec` in a runtime's source
/// text and registers the pallet in the aggregation construct. Returns the new
/// text and, where an existing block was replaced, the 1-based line on which it
/// began.
pub fn add_pallet_to_runtime(source: &str, crate_spec: &str) -> (r: Result<
    (String, Option<usize>),
    InjectError,
>)
    ensures
        match injected(source@, snake_case(crate_spec@)) {
            None => r is Err,
            Some((u, line)) => r is Ok && r->Ok_0.0@ == u && match line {
                Some(l) => r->Ok_0.1 == Some(l as usize),
                None => r->Ok_0.1 is None,
            },
        },
{
    let mod_name = to_snake_case(crate_spec);
    let m = chars_of(mod_name.as_str());
    let pascal = chars_of(to_pascal_case(mod_name.as_str()).as_str());
    let s = chars_of(source);
    let skel = skeleton_of(&m);
    let entry = entry_of(&m, &pascal);
    let (t, line) = match find_impl(&s, &m) {
        Some((a, b)) => {
            let n = count_newlines(&s, a);
            (splice(&s, a, b, &skel), Some(n + 1))
        },
        None => match find_aggregation_exec(&s) {
            Some((start, _, _)) => {
                let mut block = skel.clone();
                extend_chars(&mut block, &chars_of("\n\n"));
                let t = splice(&s, start, start, &block);
                assert(t@ =~= s@.take(start as int) + skeleton(m@) + "\n\n"@ + s@.skip(start as int));
                (t, None)
            },
            None => {
                return Err(InjectError::AggregationNotFound);
            },
        },
    };
    match register_exec(&t, &m, &entry) {
        Some(u) => Ok((string_of(&u), line)),
        None => Err(InjectError::AggregationNotFound),
    }
}

/// Injecting pallet `m` into a text that already holds what an injection
/// puts there changes nothing: where the first configuration block of `m` is
/// the fresh block and the first line of the aggregation body that mentions
/// `m` is its registration entry, the text comes back as it is, with the
/// block's line.
pub proof fn lemma_inject_fixed_point(s: Seq<char>, m: Seq<char>)
    requires
        find_impl_from(s, 0, m) is Some,
        ({
            let (a, b) = find_impl_from(s, 0, m)->0;
            0 <= a <= b <= s.len() && s.subrange(a, b) == skeleton(m)
        }),
        find_aggregation(s) is Some,
        ({
            let (_, o, c) = find_aggregation(s)->0;
            &&& 0 <= o < c <= s.len()
            &&& first_line_with(s.subrange(o + 1, c), m, 0) is Some
            &&& ({
                let (ls, le) = first_line_with(s.subrange(o + 1, c), m, 0)->0;
                0 <= ls <= le <= c - (o + 1) && s.subrange(o + 1 + ls, o + 1 + le) == entry_line(m)
            })
        }),
    ensures
        injected(s, m) == Some(
            (s, Some(count_nl(s.take((find_impl_from(s, 0, m)->0).0)) + 1int)),
        ),
{
    let (a, b) = find_impl_from(s, 0, m)->0;
    assert(s.take(a) + skeleton(m) + s.skip(b) =~= s);
    let (_, o, c) = find_aggregation(s)->0;
    let (ls, le) = first_line_with(s.subrange(o + 1, c), m, 0)->0;
    assert(s.take(o + 1 + ls) + entry_line(m) + s.skip(o + 1 + le) =~= s);
}

} // verus!
