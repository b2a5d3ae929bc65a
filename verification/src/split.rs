//! Lists written as one string, with commas between the entries.

use vstd::prelude::*;
use vstd::string::StrSliceExecFns;

verus! {

/// Whether a character is white space: one of the characters with the
/// Unicode property of that name.
pub open spec fn is_blank(c: char) -> bool {
    let n = c as u32;
    ||| 0x09 <= n <= 0x0d
    ||| n == 0x20
    ||| n == 0x85
    ||| n == 0xa0
    ||| n == 0x1680
    ||| 0x2000 <= n <= 0x200a
    ||| n == 0x2028
    ||| n == 0x2029
    ||| n == 0x202f
    ||| n == 0x205f
    ||| n == 0x3000
}

/// The number of white-space characters in front.
pub open spec fn leading_blanks(s: Seq<char>) -> nat
    decreases s.len(),
{
    if s.len() > 0 && is_blank(s[0]) {
        1 + leading_blanks(s.drop_first())
    } else {
        0
    }
}

/// The number of white-space characters at the end.
pub open spec fn trailing_blanks(s: Seq<char>) -> nat
    decreases s.len(),
{
    if s.len() > 0 && is_blank(s.last()) {
        1 + trailing_blanks(s.drop_last())
    } else {
        0
    }
}

/// A string without the white space in front and at the end.
pub open spec fn trim(s: Seq<char>) -> Seq<char> {
    if leading_blanks(s) >= s.len() {
        Seq::empty()
    } else {
        s.subrange(leading_blanks(s) as int, s.len() - trailing_blanks(s))
    }
}

/// The place of the first separator, or the length where there is none.
pub open spec fn first_separator(s: Seq<char>, separator: char) -> int
    decreases s.len(),
{
    if s.len() == 0 || s[0] == separator {
        0
    } else {
        1 + first_separator(s.drop_first(), separator)
    }
}

/// The pieces between the separators: one more than there are separators.
pub open spec fn split(s: Seq<char>, separator: char) -> Seq<Seq<char>>
    decreases s.len(),
{
    let i = first_separator(s, separator);
    if 0 <= i < s.len() {
        seq![s.take(i)] + split(s.skip(i + 1), separator)
    } else {
        seq![s]
    }
}

/// The entries of a list written with commas: the pieces between the
/// commas, each without the white space around it.
pub open spec fn comma_list(s: Seq<char>) -> Seq<Seq<char>> {
    split(s, ',').map_values(|piece: Seq<char>| trim(piece))
}

proof fn lemma_leading_blanks(s: Seq<char>, i: int)
    requires
        0 <= i <= s.len(),
        forall|k: int| 0 <= k < i ==> is_blank(#[trigger] s[k]),
        i < s.len() ==> !is_blank(s[i]),
    ensures
        leading_blanks(s) == i,
    decreases i,
{
    if i > 0 {
        let rest = s.drop_first();
        assert forall|k: int| 0 <= k < i - 1 implies is_blank(#[trigger] rest[k]) by {
            assert(rest[k] == s[k + 1]);
        }
        lemma_leading_blanks(rest, i - 1);
    }
}

proof fn lemma_trailing_blanks(s: Seq<char>, n: int)
    requires
        0 <= n <= s.len(),
        forall|k: int| s.len() - n <= k < s.len() ==> is_blank(#[trigger] s[k]),
        n < s.len() ==> !is_blank(s[s.len() - n - 1]),
    ensures
        trailing_blanks(s) == n,
    decreases n,
{
    if n > 0 {
        let rest = s.drop_last();
        assert forall|k: int| rest.len() - (n - 1) <= k < rest.len() implies is_blank(
            #[trigger] rest[k],
        ) by {
            assert(rest[k] == s[k]);
        }
        lemma_trailing_blanks(rest, n - 1);
    }
}

proof fn lemma_first_separator(s: Seq<char>, separator: char, i: int)
    requires
        0 <= i <= s.len(),
        forall|k: int| 0 <= k < i ==> #[trigger] s[k] != separator,
        i < s.len() ==> s[i] == separator,
    ensures
        first_separator(s, separator) == i,
    decreases i,
{
    if i > 0 {
        let rest = s.drop_first();
        assert forall|k: int| 0 <= k < i - 1 implies #[trigger] rest[k] != separator by {
            assert(rest[k] == s[k + 1]);
        }
        lemma_first_separator(rest, separator, i - 1);
    }
}

/// Whether a character is white space.
pub fn blank(c: char) -> (r: bool)
    ensures
        r == is_blank(c),
{
    let n = c as u32;
    (0x09 <= n && n <= 0x0d) || n == 0x20 || n == 0x85 || n == 0xa0 || n == 0x1680 || (0x2000 <= n
        && n <= 0x200a) || n == 0x2028 || n == 0x2029 || n == 0x202f || n == 0x205f || n == 0x3000
}

/// A string slice without the white space in front and at the end.
pub fn trimmed<'a>(s: &'a str) -> (r: &'a str)
    ensures
        r@ == trim(s@),
{
    let n = s.unicode_len();
    let mut from: usize = 0;
    while from < n && blank(s.get_char(from))
        invariant
            from <= n,
            n == s@.len(),
            forall|k: int| 0 <= k < from ==> is_blank(#[trigger] s@[k]),
        decreases n - from,
    {
        from += 1;
    }
    proof {
        lemma_leading_blanks(s@, from as int);
    }
    if from == n {
        return s.substring_char(0, 0);
    }
    let mut to: usize = n;
    while to > from && blank(s.get_char(to - 1))
        invariant
            from <= to <= n,
            from < n,
            n == s@.len(),
            !is_blank(s@[from as int]),
            forall|k: int| to <= k < n ==> is_blank(#[trigger] s@[k]),
        decreases to,
    {
        to -= 1;
    }
    proof {
        lemma_trailing_blanks(s@, n - to);
    }
    s.substring_char(from, to)
}

/// The entries of a list written with commas.
pub fn split_commas(s: &str) -> (r: Vec<String>)
    ensures
        r.deep_view() == comma_list(s@),
{
    let n = s.unicode_len();
    let mut pieces: Vec<String> = Vec::new();
    let mut start: usize = 0;
    let mut pos: usize = 0;
    let ghost whole = s@;
    let ghost mut done: Seq<Seq<char>> = Seq::empty();
    proof {
        assert(whole.skip(0) =~= whole);
        assert(done + split(whole.skip(0), ',') =~= split(whole, ','));
    }
    while pos < n
        invariant
            start <= pos <= n,
            n == whole.len(),
            whole == s@,
            split(whole, ',') == done + split(whole.skip(start as int), ','),
            pieces.deep_view() == done.map_values(|piece: Seq<char>| trim(piece)),
            forall|k: int| start <= k < pos ==> #[trigger] whole[k] != ',',
        decreases n - pos,
    {
        if s.get_char(pos) == ',' {
            let piece = s.substring_char(start, pos);
            let ghost rest = whole.skip(start as int);
            let ghost before = pieces.deep_view();
            proof {
                assert forall|k: int| 0 <= k < pos - start implies #[trigger] rest[k] != ',' by {
                    assert(rest[k] == whole[k + start]);
                }
                lemma_first_separator(rest, ',', pos - start);
                assert(rest.take(pos - start) =~= whole.subrange(start as int, pos as int));
                assert(rest.skip(pos - start + 1) =~= whole.skip(pos + 1));
                assert(done + (seq![piece@] + split(whole.skip(pos + 1), ',')) =~= done.push(
                    piece@,
                ) + split(whole.skip(pos + 1), ','));
            }
            pieces.push(trimmed(piece).to_owned());
            proof {
                done = done.push(piece@);
                assert(pieces.deep_view() =~= before.push(trim(piece@)));
                assert(pieces.deep_view() =~= done.map_values(|piece: Seq<char>| trim(piece)));
            }
            start = pos + 1;
        }
        pos += 1;
    }
    let piece = s.substring_char(start, n);
    let ghost rest = whole.skip(start as int);
    let ghost before = pieces.deep_view();
    proof {
        assert forall|k: int| 0 <= k < n - start implies #[trigger] rest[k] != ',' by {
            assert(rest[k] == whole[k + start]);
        }
        lemma_first_separator(rest, ',', n - start);
        assert(rest =~= whole.subrange(start as int, n as int));
        assert(split(whole, ',') =~= done.push(piece@));
    }
    pieces.push(trimmed(piece).to_owned());
    proof {
        assert(pieces.deep_view() =~= before.push(trim(piece@)));
        assert(pieces.deep_view() =~= done.push(piece@).map_values(|piece: Seq<char>| trim(piece)));
    }
    pieces
}

} // verus!
