//! Integers in decimal text: reading them and writing them.
use crate::text::{eq_ignore_case, same_ignoring_case, skip_chars, to_chars};
use vstd::prelude::*;
use vstd::string::*;

verus! {

/// An ASCII decimal digit.
pub open spec fn is_digit(c: char) -> bool {
    '0' <= c <= '9'
}

/// What a digit counts for; nothing for any other character.
pub open spec fn digit_value(c: char) -> nat {
    if is_digit(c) {
        (c as u32 - 48) as nat
    } else {
        0
    }
}

/// The digit that counts for `d`.
pub open spec fn digit_char(d: nat) -> char {
    if d == 0 {
        '0'
    } else if d == 1 {
        '1'
    } else if d == 2 {
        '2'
    } else if d == 3 {
        '3'
    } else if d == 4 {
        '4'
    } else if d == 5 {
        '5'
    } else if d == 6 {
        '6'
    } else if d == 7 {
        '7'
    } else if d == 8 {
        '8'
    } else {
        '9'
    }
}

/// Every character is a digit.
pub open spec fn all_digits(s: Seq<char>) -> bool {
    forall|i: int| 0 <= i < s.len() ==> is_digit(#[trigger] s[i])
}

/// The number that a run of digits writes in base ten.
pub open spec fn decimal_value(s: Seq<char>) -> nat
    decreases s.len(),
{
    if s.len() == 0 {
        0
    } else {
        decimal_value(s.drop_last()) * 10 + digit_value(s.last())
    }
}

/// The number written by one or more digits and nothing else.
pub open spec fn unsigned_value(s: Seq<char>) -> Option<int> {
    if s.len() > 0 && all_digits(s) {
        Some(decimal_value(s) as int)
    } else {
        None
    }
}

/// The integer that `s` writes: an optional sign, then one or more digits.
/// A `-` is a sign only where `signed`; a `+` always is.
pub open spec fn integer_value(s: Seq<char>, signed: bool) -> Option<int> {
    if s.len() > 0 && s[0] == '+' {
        unsigned_value(s.skip(1))
    } else if s.len() > 0 && s[0] == '-' && signed {
        match unsigned_value(s.skip(1)) {
            Some(v) => Some(-v),
            None => None,
        }
    } else {
        unsigned_value(s)
    }
}

/// The digits of `n` in base ten, without leading zeros.
pub open spec fn decimal_digits(n: nat) -> Seq<char>
    decreases n,
{
    if n < 10 {
        seq![digit_char(n)]
    } else {
        decimal_digits(n / 10).push(digit_char(n % 10))
    }
}

/// The text of `v` in base ten, with a `-` in front where it is negative.
pub open spec fn integer_text(v: int) -> Seq<char> {
    if v < 0 {
        seq!['-'] + decimal_digits((-v) as nat)
    } else {
        decimal_digits(v as nat)
    }
}

/// A run of digits is worth at least as much as any run it begins with.
pub proof fn lemma_decimal_value_grows(s: Seq<char>, k: int)
    requires
        0 <= k <= s.len(),
    ensures
        decimal_value(s.take(k)) <= decimal_value(s),
    decreases s.len() - k,
{
    if k == s.len() {
        assert(s.take(k) =~= s);
    } else {
        lemma_decimal_value_grows(s.drop_last(), k);
        assert(s.drop_last().take(k) =~= s.take(k));
    }
}

/// The digits of a number are digits, begin with one, and write that number.
pub proof fn lemma_decimal_digits(n: nat)
    ensures
        decimal_digits(n).len() > 0,
        all_digits(decimal_digits(n)),
        decimal_value(decimal_digits(n)) == n,
    decreases n,
{
    if n < 10 {
        let s = decimal_digits(n);
        assert(s.drop_last() =~= Seq::<char>::empty());
        assert(decimal_value(s.drop_last()) == 0);
    } else {
        lemma_decimal_digits(n / 10);
        let s = decimal_digits(n);
        assert(s.drop_last() =~= decimal_digits(n / 10));
    }
}

/// Reading the text of an integer gives the integer back.
pub proof fn lemma_integer_text_reads_back(v: int, signed: bool)
    requires
        signed || v >= 0,
    ensures
        integer_value(integer_text(v), signed) == Some(v),
{
    if v < 0 {
        lemma_decimal_digits((-v) as nat);
        assert(integer_text(v).skip(1) =~= decimal_digits((-v) as nat));
    } else {
        lemma_decimal_digits(v as nat);
        let s = integer_text(v);
        assert(is_digit(s[0]));
    }
}

/// Text without a sign for `-` writes no negative integer.
pub proof fn lemma_unsigned_is_not_negative(s: Seq<char>)
    ensures
        integer_value(s, false) matches Some(v) ==> v >= 0,
{
}

/// Reads an integer as `str::parse` does: an optional sign, then one or
/// more digits. Gives nothing where the text is anything else or the
/// integer does not fit.
pub fn parse_integer(text: &str, signed: bool) -> (r: Option<i128>)
    ensures
        r == match integer_value(text@, signed) {
            Some(v) => if i128::MIN <= v <= i128::MAX {
                Some(v as i128)
            } else {
                None
            },
            None => None,
        },
{
    let cs = to_chars(text);
    let n: usize = cs.len();
    if n == 0 {
        return None;
    }
    let negative: bool = signed && cs[0] == '-';
    let start: usize = if cs[0] == '+' || negative {
        1
    } else {
        0
    };
    let ghost body = cs@.skip(start as int);
    let ghost goal = integer_value(text@, signed);
    if start == n {
        return None;
    }
    proof {
        if start == 0 {
            assert(body =~= text@);
        }
        assert(goal == match unsigned_value(body) {
            Some(v) => Some(if negative { -v } else { v }),
            None => None,
        });
    }
    let mut acc: u128 = 0;
    let mut i: usize = start;
    while i < n
        invariant
            n == cs@.len(),
            start <= i <= n,
            start < n,
            body == cs@.skip(start as int),
            goal == integer_value(text@, signed),
            goal == match unsigned_value(body) {
                Some(v) => Some(if negative { -v } else { v }),
                None => None,
            },
            all_digits(body.take(i - start)),
            acc == decimal_value(body.take(i - start)),
            acc <= 0x8000_0000_0000_0000_0000_0000_0000_0000,
        decreases n - i,
    {
        let c: char = cs[i];
        let ghost before = body.take(i - start);
        let ghost after = body.take(i + 1 - start);
        proof {
            assert(after.drop_last() =~= before);
            assert(after.last() == c);
            assert(body[i - start] == c);
            assert(decimal_value(after) == acc * 10 + digit_value(c));
            lemma_decimal_value_grows(body, i + 1 - start);
        }
        if !('0' <= c && c <= '9') {
            return None;
        }
        if acc > 17014118346046923173168730371588410572 {
            return None;
        }
        let d: u128 = (c as u32 - 48) as u128;
        acc = acc * 10 + d;
        if acc > 0x8000_0000_0000_0000_0000_0000_0000_0000 {
            return None;
        }
        assert(all_digits(after));
        i = i + 1;
    }
    proof {
        assert(body.take(n - start) =~= body);
    }
    if negative {
        if acc == 0x8000_0000_0000_0000_0000_0000_0000_0000 {
            Some(i128::MIN)
        } else {
            Some(-(acc as i128))
        }
    } else if acc == 0x8000_0000_0000_0000_0000_0000_0000_0000 {
        None
    } else {
        Some(acc as i128)
    }
}

fn digit_str(d: u8) -> (r: &'static str)
    requires
        d < 10,
    ensures
        r@ == seq![digit_char(d as nat)],
{
    proof {
        reveal_strlit("0");
        reveal_strlit("1");
        reveal_strlit("2");
        reveal_strlit("3");
        reveal_strlit("4");
        reveal_strlit("5");
        reveal_strlit("6");
        reveal_strlit("7");
        reveal_strlit("8");
        reveal_strlit("9");
    }
    let r = if d == 0 {
        "0"
    } else if d == 1 {
        "1"
    } else if d == 2 {
        "2"
    } else if d == 3 {
        "3"
    } else if d == 4 {
        "4"
    } else if d == 5 {
        "5"
    } else if d == 6 {
        "6"
    } else if d == 7 {
        "7"
    } else if d == 8 {
        "8"
    } else {
        "9"
    };
    assert(r@ =~= seq![digit_char(d as nat)]);
    r
}

fn push_decimal(out: &mut String, m: u128)
    ensures
        final(out)@ == old(out)@ + decimal_digits(m as nat),
    decreases m,
{
    if m >= 10 {
        push_decimal(out, m / 10);
    }
    out.append(digit_str((m % 10) as u8));
    assert(out@ =~= old(out)@ + decimal_digits(m as nat));
}

/// Writes an integer in base ten.
pub fn format_integer(v: i128) -> (r: String)
    ensures
        r@ == integer_text(v as int),
{
    let mut out = String::new();
    if v < 0 {
        proof {
            reveal_strlit("-");
        }
        out.append("-");
        assert(out@ =~= seq!['-']);
        let m: u128 = if v == i128::MIN {
            0x8000_0000_0000_0000_0000_0000_0000_0000
        } else {
            (-v) as u128
        };
        push_decimal(&mut out, m);
    } else {
        push_decimal(&mut out, v as u128);
        assert(out@ =~= integer_text(v as int));
    }
    out
}

/// How many digits `s` begins with.
pub open spec fn leading_digits(s: Seq<char>) -> nat
    decreases s.len(),
{
    if s.len() > 0 && is_digit(s[0]) {
        1 + leading_digits(s.skip(1))
    } else {
        0
    }
}

/// `s` without the sign it begins with, if it begins with one.
pub open spec fn without_sign(s: Seq<char>) -> Seq<char> {
    if s.len() > 0 && (s[0] == '+' || s[0] == '-') {
        s.skip(1)
    } else {
        s
    }
}

/// An exponent: `e` or `E`, an optional sign, one or more digits.
pub open spec fn is_exponent(s: Seq<char>) -> bool {
    &&& s.len() > 0
    &&& (s[0] == 'e' || s[0] == 'E')
    &&& without_sign(s.skip(1)).len() > 0
    &&& all_digits(without_sign(s.skip(1)))
}

/// A number without a sign: digits with at most one point among them,
/// at least one digit in all, and an optional exponent behind.
pub open spec fn is_number(s: Seq<char>) -> bool {
    let whole = leading_digits(s);
    let rest = s.skip(whole as int);
    if rest.len() > 0 && rest[0] == '.' {
        let fraction = leading_digits(rest.skip(1));
        let tail = rest.skip(1 + fraction as int);
        whole + fraction > 0 && (tail.len() == 0 || is_exponent(tail))
    } else {
        whole > 0 && (rest.len() == 0 || is_exponent(rest))
    }
}

/// The numerals that `str::parse` reads as a float: an optional sign,
/// then a number, or `inf`, `infinity` or `nan` in either case of
/// letters.
pub open spec fn is_float_numeral(s: Seq<char>) -> bool {
    let body = without_sign(s);
    ||| same_ignoring_case(body, "inf"@)
    ||| same_ignoring_case(body, "infinity"@)
    ||| same_ignoring_case(body, "nan"@)
    ||| is_number(body)
}

/// Digits up to a position, and none at it, are the digits that a text
/// begins with.
pub proof fn lemma_leading_digits(s: Seq<char>, k: int)
    requires
        0 <= k <= s.len(),
        forall|i: int| 0 <= i < k ==> is_digit(#[trigger] s[i]),
        k < s.len() ==> !is_digit(s[k]),
    ensures
        leading_digits(s) == k,
    decreases k,
{
    if k > 0 {
        let t = s.skip(1);
        assert forall|i: int| 0 <= i < k - 1 implies is_digit(#[trigger] t[i]) by {
            assert(t[i] == s[i + 1]);
        }
        lemma_leading_digits(t, k - 1);
    }
}

/// The position behind the digits that `cs` holds from `from` on.
fn skip_digits(cs: &Vec<char>, from: usize) -> (r: usize)
    requires
        from <= cs@.len(),
    ensures
        from <= r <= cs@.len(),
        r - from == leading_digits(cs@.skip(from as int)),
        forall|i: int| from <= i < r ==> is_digit(#[trigger] cs@[i]),
        r < cs@.len() ==> !is_digit(cs@[r as int]),
{
    let mut i: usize = from;
    while i < cs.len() && '0' <= cs[i] && cs[i] <= '9'
        invariant
            from <= i <= cs@.len(),
            forall|k: int| from <= k < i ==> is_digit(#[trigger] cs@[k]),
        decreases cs.len() - i,
    {
        i = i + 1;
    }
    proof {
        let s = cs@.skip(from as int);
        assert forall|k: int| 0 <= k < i - from implies is_digit(#[trigger] s[k]) by {
            assert(s[k] == cs@[k + from]);
        }
        lemma_leading_digits(s, i - from);
    }
    i
}

/// Whether `cs` holds an exponent from `from` on.
fn exponent_at(cs: &Vec<char>, from: usize) -> (r: bool)
    requires
        from <= cs@.len(),
    ensures
        r == is_exponent(cs@.skip(from as int)),
{
    let n: usize = cs.len();
    let ghost s = cs@.skip(from as int);
    if from == n {
        return false;
    }
    if !(cs[from] == 'e' || cs[from] == 'E') {
        return false;
    }
    let mut at: usize = from + 1;
    if at < n && (cs[at] == '+' || cs[at] == '-') {
        at = at + 1;
    }
    proof {
        assert(s.skip(1) =~= cs@.skip(from + 1));
        assert(without_sign(s.skip(1)) =~= cs@.skip(at as int));
    }
    let end = skip_digits(cs, at);
    proof {
        let d = cs@.skip(at as int);
        if end == n {
            assert forall|i: int| 0 <= i < d.len() implies is_digit(#[trigger] d[i]) by {
                assert(d[i] == cs@[i + at]);
            }
        } else {
            assert(d[end - at] == cs@[end as int]);
        }
    }
    end == n && end > at
}

/// Whether `cs` holds a number without a sign from `from` on.
fn number_at(cs: &Vec<char>, from: usize) -> (r: bool)
    requires
        from <= cs@.len(),
    ensures
        r == is_number(cs@.skip(from as int)),
{
    let n: usize = cs.len();
    let ghost s = cs@.skip(from as int);
    let point = skip_digits(cs, from);
    proof {
        assert(s.skip(point - from) =~= cs@.skip(point as int));
    }
    if point < n && cs[point] == '.' {
        let end = skip_digits(cs, point + 1);
        proof {
            let rest = s.skip(point - from);
            assert(rest.skip(1) =~= cs@.skip(point + 1));
            assert(rest.skip(1 + (end - point - 1)) =~= cs@.skip(end as int));
        }
        end - from > 1 && (end == n || exponent_at(cs, end))
    } else {
        point > from && (point == n || exponent_at(cs, point))
    }
}

/// Tests a text for a float numeral, as `str::parse` reads one.
pub fn is_float_text(text: &str) -> (r: bool)
    ensures
        r == is_float_numeral(text@),
{
    let cs = to_chars(text);
    let start: usize = if cs.len() > 0 && (cs[0] == '+' || cs[0] == '-') {
        1
    } else {
        0
    };
    let body = skip_chars(text, start);
    proof {
        assert(body@ =~= without_sign(text@));
    }
    eq_ignore_case(body, "inf") || eq_ignore_case(body, "infinity") || eq_ignore_case(body, "nan")
        || number_at(&cs, start)
}

} // verus!
