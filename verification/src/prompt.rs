//! The answers to the question whether a comparison goes on.

use crate::split::{trim, trimmed};
use vstd::prelude::*;
use vstd::string::StrSliceExecFns;

verus! {

/// An answer: go on and ask no more, go on, or stop.
#[derive(Clone, Copy, Debug, PartialEq, Eq, Structural)]
pub enum Response {
    All,
    Yes,
    No,
}

/// The code of a character, that of the small letter for an ASCII capital.
pub open spec fn lower_code(c: char) -> u32 {
    if 0x41 <= c as u32 <= 0x5a {
        (c as u32 + 32) as u32
    } else {
        c as u32
    }
}

/// Whether a text is the given word, whatever the case of its ASCII letters.
pub open spec fn is_word(text: Seq<char>, word: Seq<char>) -> bool {
    &&& text.len() == word.len()
    &&& forall|i: int| 0 <= i < text.len() ==> lower_code(#[trigger] text[i]) == word[i] as u32
}

/// The answer that a line holds, read without the white space around it and
/// without regard to case: `y`, `yes` or nothing for yes, `n` or `no` for
/// no, `a` or `all` for all. `None` for any other line.
pub open spec fn answer(line: Seq<char>) -> Option<Response> {
    let text = trim(line);
    if is_word(text, "y"@) || is_word(text, "yes"@) || text.len() == 0 {
        Some(Response::Yes)
    } else if is_word(text, "n"@) || is_word(text, "no"@) {
        Some(Response::No)
    } else if is_word(text, "a"@) || is_word(text, "all"@) {
        Some(Response::All)
    } else {
        None
    }
}

/// Whether a text is the given word, whatever the case of its ASCII letters.
fn reads(text: &str, word: &str) -> (r: bool)
    ensures
        r == is_word(text@, word@),
{
    let n = text.unicode_len();
    if n != word.unicode_len() {
        return false;
    }
    let mut i: usize = 0;
    while i < n
        invariant
            i <= n,
            n == text@.len(),
            n == word@.len(),
            forall|k: int| 0 <= k < i ==> lower_code(#[trigger] text@[k]) == word@[k] as u32,
        decreases n - i,
    {
        let c = text.get_char(i) as u32;
        let w = word.get_char(i) as u32;
        let code = if 0x41 <= c && c <= 0x5a {
            c + 32
        } else {
            c
        };
        if code != w {
            return false;
        }
        i += 1;
    }
    true
}

impl Response {
    /// Reads the answer that a line holds.
    pub fn parse(line: &str) -> (r: Option<Response>)
        ensures
            r == answer(line@),
    {
        let text = trimmed(line);
        if reads(text, "y") || reads(text, "yes") || text.unicode_len() == 0 {
            Some(Response::Yes)
        } else if reads(text, "n") || reads(text, "no") {
            Some(Response::No)
        } else if reads(text, "a") || reads(text, "all") {
            Some(Response::All)
        } else {
            None
        }
    }
}

} // verus!
