//! The shapes of text that every lexer of Rust cuts alike: one number,
//! one string in quotes, one identifier. The tests here do not say that
//! a text is a valid literal; they say where its one token ends.
use crate::decimal::is_digit;
use crate::text::to_chars;
use vstd::prelude::*;

verus! {

/// A digit of base 2, 8, 10 or 16.
pub open spec fn is_base_digit(c: char, base: int) -> bool {
    if base == 2 {
        c == '0' || c == '1'
    } else if base == 8 {
        '0' <= c <= '7'
    } else if base == 16 {
        is_digit(c) || ('a' <= c <= 'f') || ('A' <= c <= 'F')
    } else {
        is_digit(c)
    }
}

/// An ASCII letter or `_`.
pub open spec fn is_ident_start(c: char) -> bool {
    ('a' <= c <= 'z') || ('A' <= c <= 'Z') || c == '_'
}

/// An ASCII letter, a digit or `_`.
pub open spec fn is_ident_char(c: char) -> bool {
    is_ident_start(c) || is_digit(c)
}

/// An identifier of ASCII characters: a letter or `_`, then letters,
/// digits and `_`.
pub open spec fn is_identifier(s: Seq<char>) -> bool {
    &&& s.len() > 0
    &&& is_ident_start(s[0])
    &&& forall|i: int| 0 <= i < s.len() ==> is_ident_char(#[trigger] s[i])
}

/// From `at` on the text is at its end, or holds an identifier and
/// nothing else.
pub open spec fn ends_in_identifier(s: Seq<char>, at: int) -> bool {
    at == s.len() || (0 <= at < s.len() && is_ident_start(s[at]) && forall|i: int|
        at <= i < s.len() ==> is_ident_char(#[trigger] s[i]))
}

/// From `at` on the text is at its end, or holds the suffix of a number
/// and nothing else: an identifier that does not begin with `e` or `E`,
/// which behind digits some lexers take for an exponent.
pub open spec fn ends_in_suffix(s: Seq<char>, at: int) -> bool {
    ends_in_identifier(s, at) && (at < s.len() ==> s[at] != 'e' && s[at] != 'E')
}

/// The place behind the digits of a base, and the `_` among them, that
/// stand from `from` on.
pub open spec fn run_end(s: Seq<char>, from: int, base: int) -> int
    decreases s.len() - from,
{
    if 0 <= from < s.len() && (is_base_digit(s[from], base) || s[from] == '_') {
        run_end(s, from + 1, base)
    } else {
        from
    }
}

/// Behind the digits of a decimal number: an exponent with at least one
/// digit and a suffix, or a suffix alone, or nothing.
pub open spec fn exponent_shape(s: Seq<char>, at: int) -> bool {
    if 0 <= at < s.len() && (s[at] == 'e' || s[at] == 'E') {
        let digits = if at + 1 < s.len() && (s[at + 1] == '+' || s[at + 1] == '-') {
            at + 2
        } else {
            at + 1
        };
        digits < s.len() && is_digit(s[digits]) && ends_in_suffix(s, run_end(s, digits, 10))
    } else {
        ends_in_suffix(s, at)
    }
}

/// The text is one number as every lexer cuts it. Either decimal
/// digits, with `_` among them, then an optional point that digits
/// follow or the text ends with, then an optional exponent, then an
/// optional suffix; or `0x`, `0o` or `0b`, digits of that base, and an
/// optional suffix.
pub open spec fn number_shape(s: Seq<char>) -> bool {
    if s.len() >= 2 && s[0] == '0' && (s[1] == 'x' || s[1] == 'o' || s[1] == 'b') {
        let base: int = if s[1] == 'x' {
            16
        } else if s[1] == 'o' {
            8
        } else {
            2
        };
        s.len() > 2 && is_base_digit(s[2], base) && ends_in_suffix(s, run_end(s, 2, base))
    } else if s.len() > 0 && is_digit(s[0]) {
        let point = run_end(s, 0, 10);
        if point < s.len() && s[point] == '.' {
            if point + 1 == s.len() {
                true
            } else {
                is_digit(s[point + 1]) && exponent_shape(s, run_end(s, point + 1, 10))
            }
        } else {
            exponent_shape(s, point)
        }
    } else {
        false
    }
}

/// The place behind the `"` that closes a string whose content begins
/// at `from`: the first `"` that no `\` stands before.
pub open spec fn cooked_end(s: Seq<char>, from: int) -> Option<int>
    decreases s.len() - from,
{
    if from < 0 || from >= s.len() {
        None
    } else if s[from] == '"' {
        Some(from + 1)
    } else if s[from] == '\\' {
        if from + 1 < s.len() {
            cooked_end(s, from + 2)
        } else {
            None
        }
    } else {
        cooked_end(s, from + 1)
    }
}

/// `count` times `#` stand at `at`.
pub open spec fn hashes_at(s: Seq<char>, at: int, count: int) -> bool {
    &&& 0 <= at
    &&& at + count <= s.len()
    &&& forall|i: int| at <= i < at + count ==> #[trigger] s[i] == '#'
}

/// The place behind the end of a raw string whose content begins at
/// `from`: behind the first `"` that `count` times `#` follow.
pub open spec fn raw_end(s: Seq<char>, from: int, count: int) -> Option<int>
    decreases s.len() - from,
{
    if from < 0 || from >= s.len() {
        None
    } else if s[from] == '"' && hashes_at(s, from + 1, count) {
        Some(from + 1 + count)
    } else {
        raw_end(s, from + 1, count)
    }
}

/// The place behind the `#` that stand from `from` on.
pub open spec fn hash_end(s: Seq<char>, from: int) -> int
    decreases s.len() - from,
{
    if 0 <= from < s.len() && s[from] == '#' {
        hash_end(s, from + 1)
    } else {
        from
    }
}

/// The text is one string in quotes as every lexer cuts it: an optional
/// `b`; then a `"`, the content up to the `"` that closes it; or an `r`,
/// some `#`, a `"`, the content up to the `"` that as many `#` follow;
/// then an optional suffix. Brackets in it stand inside the quotes.
pub open spec fn quoted_shape(s: Seq<char>) -> bool {
    let start: int = if s.len() > 0 && s[0] == 'b' {
        1
    } else {
        0
    };
    if start < s.len() && s[start] == '"' {
        match cooked_end(s, start + 1) {
            Some(end) => ends_in_identifier(s, end),
            None => false,
        }
    } else if start < s.len() && s[start] == 'r' {
        let quote = hash_end(s, start + 1);
        quote < s.len() && s[quote] == '"' && match raw_end(s, quote + 1, quote - (start + 1)) {
            Some(end) => ends_in_identifier(s, end),
            None => false,
        }
    } else {
        false
    }
}

/// Digits and `_` up to a place, and neither at it, are the run from
/// where they begin.
proof fn lemma_run_end(s: Seq<char>, from: int, to: int, base: int)
    requires
        0 <= from <= to <= s.len(),
        forall|i: int| from <= i < to ==> is_base_digit(#[trigger] s[i], base) || s[i] == '_',
        to < s.len() ==> !(is_base_digit(s[to], base) || s[to] == '_'),
    ensures
        run_end(s, from, base) == to,
    decreases to - from,
{
    if from < to {
        lemma_run_end(s, from + 1, to, base);
    }
}

/// `#` up to a place, and none at it, are the run from where they begin.
proof fn lemma_hash_end(s: Seq<char>, from: int, to: int)
    requires
        0 <= from <= to <= s.len(),
        forall|i: int| from <= i < to ==> #[trigger] s[i] == '#',
        to < s.len() ==> s[to] != '#',
    ensures
        hash_end(s, from) == to,
    decreases to - from,
{
    if from < to {
        lemma_hash_end(s, from + 1, to);
    }
}

fn base_digit(c: char, base: u8) -> (r: bool)
    ensures
        r == is_base_digit(c, base as int),
{
    if base == 2 {
        c == '0' || c == '1'
    } else if base == 8 {
        '0' <= c && c <= '7'
    } else if base == 16 {
        ('0' <= c && c <= '9') || ('a' <= c && c <= 'f') || ('A' <= c && c <= 'F')
    } else {
        '0' <= c && c <= '9'
    }
}

fn ident_start(c: char) -> (r: bool)
    ensures
        r == is_ident_start(c),
{
    ('a' <= c && c <= 'z') || ('A' <= c && c <= 'Z') || c == '_'
}

fn ident_char(c: char) -> (r: bool)
    ensures
        r == is_ident_char(c),
{
    ident_start(c) || ('0' <= c && c <= '9')
}

fn skip_run(cs: &Vec<char>, from: usize, base: u8) -> (r: usize)
    requires
        from <= cs@.len(),
    ensures
        from <= r <= cs@.len(),
        r == run_end(cs@, from as int, base as int),
{
    let mut i: usize = from;
    while i < cs.len() && (base_digit(cs[i], base) || cs[i] == '_')
        invariant
            from <= i <= cs@.len(),
            forall|k: int|
                from <= k < i ==> is_base_digit(#[trigger] cs@[k], base as int) || cs@[k] == '_',
        decreases cs.len() - i,
    {
        i = i + 1;
    }
    proof {
        lemma_run_end(cs@, from as int, i as int, base as int);
    }
    i
}

fn identifier_from(cs: &Vec<char>, at: usize) -> (r: bool)
    requires
        at <= cs@.len(),
    ensures
        r == ends_in_identifier(cs@, at as int),
{
    if at == cs.len() {
        return true;
    }
    if !ident_start(cs[at]) {
        return false;
    }
    let mut i: usize = at;
    while i < cs.len()
        invariant
            at <= i <= cs@.len(),
            forall|k: int| at <= k < i ==> is_ident_char(#[trigger] cs@[k]),
        decreases cs.len() - i,
    {
        if !ident_char(cs[i]) {
            assert(!is_ident_char(cs@[i as int]));
            return false;
        }
        i = i + 1;
    }
    true
}

fn suffix_from(cs: &Vec<char>, at: usize) -> (r: bool)
    requires
        at <= cs@.len(),
    ensures
        r == ends_in_suffix(cs@, at as int),
{
    if at < cs.len() && (cs[at] == 'e' || cs[at] == 'E') {
        return false;
    }
    identifier_from(cs, at)
}

fn exponent_from(cs: &Vec<char>, at: usize) -> (r: bool)
    requires
        at <= cs@.len(),
    ensures
        r == exponent_shape(cs@, at as int),
{
    let n: usize = cs.len();
    if at < n && (cs[at] == 'e' || cs[at] == 'E') {
        let digits: usize = if at + 1 < n && (cs[at + 1] == '+' || cs[at + 1] == '-') {
            at + 2
        } else {
            at + 1
        };
        if digits < n && '0' <= cs[digits] && cs[digits] <= '9' {
            let end = skip_run(cs, digits, 10);
            suffix_from(cs, end)
        } else {
            false
        }
    } else {
        suffix_from(cs, at)
    }
}

/// Tests characters for the shape of one number.
pub fn is_number(cs: &Vec<char>) -> (r: bool)
    ensures
        r == number_shape(cs@),
{
    let n: usize = cs.len();
    if n >= 2 && cs[0] == '0' && (cs[1] == 'x' || cs[1] == 'o' || cs[1] == 'b') {
        let base: u8 = if cs[1] == 'x' {
            16
        } else if cs[1] == 'o' {
            8
        } else {
            2
        };
        if n > 2 && base_digit(cs[2], base) {
            let end = skip_run(cs, 2, base);
            suffix_from(cs, end)
        } else {
            false
        }
    } else if n > 0 && '0' <= cs[0] && cs[0] <= '9' {
        let point = skip_run(cs, 0, 10);
        if point < n && cs[point] == '.' {
            if point + 1 == n {
                true
            } else if '0' <= cs[point + 1] && cs[point + 1] <= '9' {
                let end = skip_run(cs, point + 1, 10);
                exponent_from(cs, end)
            } else {
                false
            }
        } else {
            exponent_from(cs, point)
        }
    } else {
        false
    }
}

fn cooked_from(cs: &Vec<char>, from: usize) -> (r: Option<usize>)
    requires
        from <= cs@.len(),
    ensures
        match r {
            Some(end) => end <= cs@.len() && cooked_end(cs@, from as int) == Some(end as int),
            None => cooked_end(cs@, from as int) is None,
        },
{
    let n: usize = cs.len();
    let mut i: usize = from;
    while i < n
        invariant
            n == cs@.len(),
            from <= i <= n,
            cooked_end(cs@, from as int) == cooked_end(cs@, i as int),
        decreases n - i,
    {
        if cs[i] == '"' {
            return Some(i + 1);
        } else if cs[i] == '\\' {
            if i + 1 < n {
                i = i + 2;
            } else {
                return None;
            }
        } else {
            i = i + 1;
        }
    }
    None
}

fn hashes_from(cs: &Vec<char>, at: usize, count: usize) -> (r: bool)
    requires
        at <= cs@.len(),
    ensures
        r == hashes_at(cs@, at as int, count as int),
{
    let n: usize = cs.len();
    if count > n - at {
        return false;
    }
    let mut i: usize = 0;
    while i < count
        invariant
            n == cs@.len(),
            at + count <= n,
            i <= count,
            forall|k: int| at <= k < at + i ==> #[trigger] cs@[k] == '#',
        decreases count - i,
    {
        if cs[at + i] != '#' {
            assert(cs@[at + i] != '#');
            return false;
        }
        i = i + 1;
    }
    true
}

fn raw_from(cs: &Vec<char>, from: usize, count: usize) -> (r: Option<usize>)
    requires
        from <= cs@.len(),
    ensures
        match r {
            Some(end) => end <= cs@.len() && raw_end(cs@, from as int, count as int) == Some(
                end as int,
            ),
            None => raw_end(cs@, from as int, count as int) is None,
        },
{
    let n: usize = cs.len();
    let mut i: usize = from;
    while i < n
        invariant
            n == cs@.len(),
            from <= i <= n,
            raw_end(cs@, from as int, count as int) == raw_end(cs@, i as int, count as int),
        decreases n - i,
    {
        if cs[i] == '"' && hashes_from(cs, i + 1, count) {
            return Some(i + 1 + count);
        }
        i = i + 1;
    }
    None
}

/// Tests characters for the shape of one string in quotes.
pub fn is_quoted(cs: &Vec<char>) -> (r: bool)
    ensures
        r == quoted_shape(cs@),
{
    let n: usize = cs.len();
    let start: usize = if n > 0 && cs[0] == 'b' {
        1
    } else {
        0
    };
    if start < n && cs[start] == '"' {
        match cooked_from(cs, start + 1) {
            Some(end) => identifier_from(cs, end),
            None => false,
        }
    } else if start < n && cs[start] == 'r' {
        let mut quote: usize = start + 1;
        while quote < n && cs[quote] == '#'
            invariant
                n == cs@.len(),
                start + 1 <= quote <= n,
                forall|k: int| start + 1 <= k < quote ==> #[trigger] cs@[k] == '#',
            decreases n - quote,
        {
            quote = quote + 1;
        }
        proof {
            lemma_hash_end(cs@, start + 1, quote as int);
        }
        if quote < n && cs[quote] == '"' {
            match raw_from(cs, quote + 1, quote - (start + 1)) {
                Some(end) => identifier_from(cs, end),
                None => false,
            }
        } else {
            false
        }
    } else {
        false
    }
}

/// Tests a text for an identifier of ASCII characters.
pub fn is_identifier_text(text: &str) -> (r: bool)
    ensures
        r == is_identifier(text@),
{
    let cs = to_chars(text);
    if cs.len() == 0 {
        return false;
    }
    let whole = identifier_from(&cs, 0);
    proof {
        if whole {
            assert(is_ident_start(cs@[0]));
        }
    }
    whole
}

} // verus!
