//! The root directory as a user typed or dropped it.
use vstd::prelude::*;
use crate::text::{split_on, split_on_char, trim, trim_of};

verus! {

/// The text between the first two occurrences of `q` in `s`, when `q` occurs
/// and that text is not empty.
pub open spec fn quoted_by(s: Seq<char>, q: char) -> Option<Seq<char>> {
    let pieces = split_on(s, q);
    if pieces.len() > 1 && pieces[1].len() > 0 {
        Some(pieces[1])
    } else {
        None
    }
}

/// The path that an input line names: the text inside double quotes, else the
/// text inside single quotes, else the whole line trimmed. Desktop shells quote
/// a dropped path, so the quotes are not part of it.
pub open spec fn path_of_input(s: Seq<char>) -> Seq<char> {
    match quoted_by(s, '"') {
        Some(p) => p,
        None => match quoted_by(s, '\'') {
            Some(p) => p,
            None => trim_of(s),
        },
    }
}

fn quoted(s: &str, q: char) -> (r: Option<String>)
    ensures
        r matches Some(p) ==> quoted_by(s@, q) == Some(p@),
        r is None ==> quoted_by(s@, q) is None,
{
    let pieces = split_on_char(s, q);
    proof {
        assert(pieces@.len() == split_on(s@, q).len());
        if pieces@.len() > 1 {
            assert(crate::text::views(pieces@)[1] == pieces@[1]@);
        }
    }
    if pieces.len() > 1 && pieces[1].unicode_len() > 0 {
        Some(pieces[1].clone())
    } else {
        None
    }
}

/// The path that an input line names; see `path_of_input`.
pub fn path_from_input(input: &str) -> (r: String)
    ensures
        r@ == path_of_input(input@),
{
    match quoted(input, '"') {
        Some(p) => p,
        None => match quoted(input, '\'') {
            Some(p) => p,
            None => trim(input),
        },
    }
}

} // verus!
