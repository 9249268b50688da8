//! Paths without arguments. `syn` reads them; the library holds each in
//! a text that it writes itself: the identifiers of the segments with
//! `::` between them, and `::` in front where the path begins with it.
use crate::text::to_chars;
use vstd::prelude::*;
use vstd::string::*;

verus! {

/// The path that `syn` reads from `text`, if it reads one: whether it
/// begins with `::`, and the identifiers of its segments in order.
pub uninterp spec fn parsed_path(text: Seq<char>) -> Option<(bool, Seq<Seq<char>>)>;

/// A character that a path without arguments may be written with, and
/// that every lexer of Rust reads alike: an ASCII character other than
/// `"`, `/`, `<`, `(`, `[` and `{`.
pub open spec fn is_plain(c: char) -> bool {
    c <= '\u{7f}' && c != '"' && c != '/' && c != '<' && c != '(' && c != '[' && c != '{'
}

/// Text of plain characters only. It holds no literal in quotes, no
/// comment, no argument of a path and no bracket that opens.
pub open spec fn plain_text(text: Seq<char>) -> bool {
    forall|i: int| 0 <= i < text.len() ==> is_plain(#[trigger] text[i])
}

/// The segments with `::` between them.
pub open spec fn joined(segments: Seq<Seq<char>>) -> Seq<char>
    decreases segments.len(),
{
    if segments.len() == 0 {
        Seq::empty()
    } else if segments.len() == 1 {
        segments[0]
    } else {
        joined(segments.drop_last()) + "::"@ + segments.last()
    }
}

/// The text that the library holds a path in.
pub open spec fn path_text(leading_colon: bool, segments: Seq<Seq<char>>) -> Seq<char> {
    if leading_colon {
        "::"@ + joined(segments)
    } else {
        joined(segments)
    }
}

/// The path that `text` is read as, in the text that the library holds
/// it in: the one `syn` reads where the text is plain, none otherwise.
pub open spec fn path_of_text(text: Seq<char>) -> Option<Seq<char>> {
    if plain_text(text) {
        match parsed_path(text) {
            Some((leading_colon, segments)) => Some(path_text(leading_colon, segments)),
            None => None,
        }
    } else {
        None
    }
}

/// Calls `syn::parse_str::<syn::Path>` and hands back whether the path
/// begins with `::` and the identifier of each segment, as `to_string`
/// gives it; nothing where `syn` returns an error.
///
/// Taken from `syn` without proof: that the call returns for plain text,
/// and that what it returns depends on the text alone, which is what the
/// name `parsed_path` says. Plain text keeps out what `syn` panics on or
/// may not return from, and what one lexer reads otherwise than another:
/// a literal of a form that `syn` does not know, which can stand only
/// among the arguments behind a `<`; brackets, which nest; comments; and
/// characters outside ASCII. How the tokens of a path are printed is
/// not relied on.
#[verifier::external_body]
fn parse_path_parts(text: &str) -> (r: Option<(bool, Vec<String>)>)
    requires
        plain_text(text@),
    ensures
        r.deep_view() == parsed_path(text@),
{
    match syn::parse_str::<syn::Path>(text) {
        Ok(path) => Some(
            (
                path.leading_colon.is_some(),
                path.segments.iter().map(|segment| segment.ident.to_string()).collect(),
            ),
        ),
        Err(_) => None,
    }
}

/// Writes a path from its segments.
pub fn write_path(leading_colon: bool, segments: &Vec<String>) -> (r: String)
    ensures
        r@ == path_text(leading_colon, segments.deep_view()),
{
    let ghost all = segments.deep_view();
    let mut out = String::new();
    if leading_colon {
        out.append("::");
    }
    let ghost front = out@;
    let mut i: usize = 0;
    while i < segments.len()
        invariant
            i <= segments@.len(),
            all == segments.deep_view(),
            front == (if leading_colon {
                "::"@
            } else {
                Seq::<char>::empty()
            }),
            out@ == front + joined(all.take(i as int)),
        decreases segments.len() - i,
    {
        proof {
            assert(all.take(i + 1).drop_last() =~= all.take(i as int));
            assert(all.take(i + 1).last() == segments@[i as int]@);
        }
        if i > 0 {
            out.append("::");
        }
        out.append(segments[i].as_str());
        proof {
            assert(out@ =~= front + joined(all.take(i + 1)));
        }
        i = i + 1;
    }
    proof {
        assert(all.take(segments@.len() as int) =~= all);
        assert(out@ =~= path_text(leading_colon, all));
    }
    out
}

/// Reads a path from text. Text that is not plain is no path.
pub fn parse_path(text: &str) -> (r: Option<String>)
    ensures
        r.deep_view() == path_of_text(text@),
{
    let cs = to_chars(text);
    let mut i: usize = 0;
    while i < cs.len()
        invariant
            cs@ == text@,
            i <= cs@.len(),
            forall|k: int| 0 <= k < i ==> is_plain(#[trigger] cs@[k]),
        decreases cs.len() - i,
    {
        let c: char = cs[i];
        if !(c <= '\u{7f}' && c != '"' && c != '/' && c != '<' && c != '(' && c != '[' && c != '{') {
            assert(!is_plain(text@[i as int]));
            return None;
        }
        i = i + 1;
    }
    match parse_path_parts(text) {
        Some((leading_colon, segments)) => Some(write_path(leading_colon, &segments)),
        None => None,
    }
}

} // verus!
