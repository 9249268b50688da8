//! Literals as annotations carry them, and reading one from text.
use crate::decimal::is_digit;
use crate::shape::{is_number, is_quoted, number_shape, quoted_shape};
use crate::text::{skip_chars, to_chars};
use vstd::prelude::*;

verus! {

/// A literal, as far as a field descriptor reads it.
#[derive(Debug, PartialEq, Eq)]
pub enum Lit {
    /// A string literal, by the text it denotes.
    Str(String),
    /// A byte string literal, by the bytes it denotes.
    ByteStr(Vec<u8>),
    /// An integer literal: its digits in base ten, with a `-` in front
    /// where it is negative, and its suffix, empty where it has none.
    Int { digits: String, suffix: String },
    /// A floating point literal: its numeral in base ten and its suffix.
    Float { digits: String, suffix: String },
    /// `true` or `false`.
    Bool(bool),
    /// A byte, a character, or a literal of no known form.
    Other,
}

/// What a [`Lit`] holds.
pub ghost enum LitView {
    Str(Seq<char>),
    ByteStr(Seq<u8>),
    Int { digits: Seq<char>, suffix: Seq<char> },
    Float { digits: Seq<char>, suffix: Seq<char> },
    Bool(bool),
    Other,
}

impl DeepView for Lit {
    type V = LitView;

    open spec fn deep_view(&self) -> LitView {
        match self {
            Lit::Str(s) => LitView::Str(s@),
            Lit::ByteStr(b) => LitView::ByteStr(b@),
            Lit::Int { digits, suffix } => LitView::Int { digits: digits@, suffix: suffix@ },
            Lit::Float { digits, suffix } => LitView::Float { digits: digits@, suffix: suffix@ },
            Lit::Bool(b) => LitView::Bool(*b),
            Lit::Other => LitView::Other,
        }
    }
}

impl View for Lit {
    type V = LitView;

    open spec fn view(&self) -> LitView {
        self.deep_view()
    }
}

impl Clone for Lit {
    fn clone(&self) -> (r: Self)
        ensures
            r@ == self@,
    {
        match self {
            Lit::Str(s) => Lit::Str(s.clone()),
            Lit::ByteStr(b) => Lit::ByteStr(b.clone()),
            Lit::Int { digits, suffix } => Lit::Int {
                digits: digits.clone(),
                suffix: suffix.clone(),
            },
            Lit::Float { digits, suffix } => Lit::Float {
                digits: digits.clone(),
                suffix: suffix.clone(),
            },
            Lit::Bool(b) => Lit::Bool(*b),
            Lit::Other => Lit::Other,
        }
    }
}

/// The literal that `syn` reads from `text`, if it reads one.
pub uninterp spec fn parsed_literal(text: Seq<char>) -> Option<LitView>;

/// A character that begins a literal in quotes or a boolean: `"`, `'`,
/// `b`, `r`, `t` or `f`.
pub open spec fn begins_word(c: char) -> bool {
    c == '"' || c == '\'' || c == 'b' || c == 'r' || c == 't' || c == 'f'
}

/// Every character is ASCII.
pub open spec fn is_ascii_text(text: Seq<char>) -> bool {
    forall|i: int| 0 <= i < text.len() ==> #[trigger] text[i] <= '\u{7f}'
}

/// A bracket that opens: `(`, `[` or `{`.
pub open spec fn opens(c: char) -> bool {
    c == '(' || c == '[' || c == '{'
}

/// How many brackets that open the text holds. No brackets are nested
/// deeper in it.
pub open spec fn opening_brackets(text: Seq<char>) -> nat
    decreases text.len(),
{
    if text.len() == 0 {
        0
    } else if opens(text.last()) {
        opening_brackets(text.drop_last()) + 1
    } else {
        opening_brackets(text.drop_last())
    }
}

/// The most brackets that open in a text that is read.
pub const MAX_BRACKETS: usize = 64;

/// Text that is handed on to be read as a literal. It is ASCII, and it
/// is one of three: one number; a `-` and one number; or text that
/// begins as a string, a character or a boolean does and is one string
/// in quotes or holds no more brackets that open than `MAX_BRACKETS`.
pub open spec fn readable(text: Seq<char>) -> bool {
    &&& text.len() > 0
    &&& is_ascii_text(text)
    &&& if is_digit(text[0]) {
        number_shape(text)
    } else if text[0] == '-' {
        number_shape(text.skip(1))
    } else {
        begins_word(text[0]) && (quoted_shape(text) || opening_brackets(text) <= MAX_BRACKETS)
    }
}

/// The literal that `text` is read as: the one `syn` reads where the text
/// is readable, none otherwise.
pub open spec fn literal_of_text(text: Seq<char>) -> Option<LitView> {
    if readable(text) {
        parsed_literal(text)
    } else {
        None
    }
}

/// Calls `syn::parse_str::<syn::Lit>` and hands the literal back by what
/// it denotes: a string and a byte string by their `value`, a number by
/// its `base10_digits` and its `suffix`, a boolean by its value; nothing
/// where `syn` returns an error.
///
/// Taken from `syn` and from the lexer behind it without proof:
///
/// - that the call returns for readable text. `syn` panics on a first
///   token that is a literal of a form it does not know. Readable text
///   that begins with a digit is one number as every lexer cuts it, so
///   that the token is all of the text and `syn` knows it. A `-` in
///   front of a token is read by a part of `syn` that does not panic.
///   No other readable text begins as a number or as a literal of an
///   unknown form does, which begins with a `c` or a `(`.
/// - that it does so in bounded space. Brackets outside quotes nest,
///   and each costs `syn` a frame of the stack; readable text holds few
///   of them.
/// - that what is returned depends on the text alone, which is what the
///   name `parsed_literal` says. The text is cut into tokens by the
///   lexer of the process: that of `proc-macro2`, or inside the
///   expansion of a macro that of the compiler, after `proc-macro2` has
///   accepted the text with its own. That the two cut readable text
///   alike is taken on trust where the text is no number: for ASCII text
///   in quotes and for words.
#[verifier::external_body]
fn parse_literal(text: &str) -> (r: Option<Lit>)
    requires
        readable(text@),
    ensures
        r.deep_view() == parsed_literal(text@),
{
    match syn::parse_str::<syn::Lit>(text) {
        Ok(syn::Lit::Str(l)) => Some(Lit::Str(l.value())),
        Ok(syn::Lit::ByteStr(l)) => Some(Lit::ByteStr(l.value())),
        Ok(syn::Lit::Int(l)) => Some(
            Lit::Int { digits: l.base10_digits().to_string(), suffix: l.suffix().to_string() },
        ),
        Ok(syn::Lit::Float(l)) => Some(
            Lit::Float { digits: l.base10_digits().to_string(), suffix: l.suffix().to_string() },
        ),
        Ok(syn::Lit::Bool(l)) => Some(Lit::Bool(l.value)),
        Ok(_) => Some(Lit::Other),
        Err(_) => None,
    }
}

impl Lit {
    /// Reads a literal from text. Text that is not readable is no
    /// literal, though `syn` may read one from it: text with a character
    /// outside ASCII; text that begins with white space or a comment;
    /// a number with anything before or behind it but a `-` in front; a
    /// number with an empty exponent, with a suffix that begins with `e`
    /// or `E`, or in base 2, 8 or 16 with a point; and text other than
    /// a string in quotes with more brackets than `MAX_BRACKETS`.
    pub fn parse(text: &str) -> (r: Option<Lit>)
        ensures
            r.deep_view() == literal_of_text(text@),
    {
        let cs = to_chars(text);
        if cs.len() == 0 {
            return None;
        }
        let mut brackets: usize = 0;
        let mut many: bool = false;
        let mut i: usize = 0;
        while i < cs.len()
            invariant
                cs@ == text@,
                i <= cs@.len(),
                forall|k: int| 0 <= k < i ==> #[trigger] cs@[k] <= '\u{7f}',
                !many ==> brackets == opening_brackets(cs@.take(i as int)),
                !many ==> brackets <= MAX_BRACKETS,
                many ==> opening_brackets(cs@) > MAX_BRACKETS,
            decreases cs.len() - i,
        {
            let c: char = cs[i];
            proof {
                assert(cs@.take(i + 1).drop_last() =~= cs@.take(i as int));
                assert(cs@.take(i + 1).last() == c);
            }
            if c > '\u{7f}' {
                assert(!(text@[i as int] <= '\u{7f}'));
                return None;
            }
            if !many && (c == '(' || c == '[' || c == '{') {
                if brackets == MAX_BRACKETS {
                    proof {
                        lemma_brackets_grow(cs@, i + 1);
                    }
                    many = true;
                } else {
                    brackets = brackets + 1;
                }
            }
            i = i + 1;
        }
        proof {
            assert(cs@.take(cs@.len() as int) =~= cs@);
        }
        let first: char = cs[0];
        let admitted = if '0' <= first && first <= '9' {
            is_number(&cs)
        } else if first == '-' {
            let rest = to_chars(skip_chars(text, 1));
            is_number(&rest)
        } else if first == '"' || first == '\'' || first == 'b' || first == 'r' || first == 't'
            || first == 'f' {
            is_quoted(&cs) || !many
        } else {
            false
        };
        if admitted {
            parse_literal(text)
        } else {
            None
        }
    }
}

/// A text holds at least the brackets that it begins with.
pub proof fn lemma_brackets_grow(text: Seq<char>, k: int)
    requires
        0 <= k <= text.len(),
    ensures
        opening_brackets(text.take(k)) <= opening_brackets(text),
    decreases text.len() - k,
{
    if k == text.len() {
        assert(text.take(k) =~= text);
    } else {
        lemma_brackets_grow(text.drop_last(), k);
        assert(text.drop_last().take(k) =~= text.take(k));
    }
}

} // verus!
