//! Splitting a command line into words, with double quotes keeping blanks.

use vstd::prelude::*;
use vstd::string::*;
use crate::text::{chars_of, views};

verus! {

/// The characters that separate words on a command line.
pub open spec fn is_blank(ch: char) -> bool {
    ch == ' ' || ch == '\r' || ch == '\n' || ch == '\t'
}

/// The position of the first double quote at or after `from`, or the length
/// of `s` where there is none.
pub open spec fn closing_quote(s: Seq<char>, from: int) -> int
    decreases s.len() - from,
{
    if from < 0 || from >= s.len() {
        s.len() as int
    } else if s[from] == '"' {
        from
    } else {
        closing_quote(s, from + 1)
    }
}

/// The words found from position `pos` on, where `start` is the position at
/// which the word being read began, if one is being read.
///
/// A blank ends the word being read. A double quote opens a quotation that
/// runs to the next double quote, or to the end of the line where none
/// follows; the quotation is a word of its own, blanks included, and a word
/// that was being read when a closed quotation began is given up.
pub open spec fn scan(s: Seq<char>, pos: int, start: Option<int>) -> Seq<Seq<char>>
    decreases s.len() - pos,
{
    if pos < 0 || pos >= s.len() {
        match start {
            Some(b) => seq![s.subrange(b, s.len() as int)],
            None => Seq::empty(),
        }
    } else if is_blank(s[pos]) {
        match start {
            Some(b) => seq![s.subrange(b, pos)] + scan(s, pos + 1, None),
            None => scan(s, pos + 1, None),
        }
    } else if s[pos] == '"' {
        let close = closing_quote(s, pos + 1);
        proof {
            closing_quote_bounds(s, pos + 1);
        }
        if close < s.len() {
            seq![s.subrange(pos + 1, close)] + scan(s, close + 1, None)
        } else {
            seq![s.subrange(pos + 1, s.len() as int)] + scan(s, s.len() as int, start)
        }
    } else {
        scan(s, pos + 1, if start is None { Some(pos) } else { start })
    }
}

/// The words of a command line.
pub open spec fn words(s: Seq<char>) -> Seq<Seq<char>> {
    scan(s, 0, None)
}

/// Whether `w` is a word in the plain sense: not empty, and without
/// blanks.
pub open spec fn is_plain_word(w: Seq<char>) -> bool {
    w.len() > 0 && forall|j: int| 0 <= j < w.len() ==> !is_blank(#[trigger] w[j])
}

/// On a line without double quotes, every word found from `pos` on is a
/// plain word.
pub proof fn plain_scan(s: Seq<char>, pos: int, start: Option<int>)
    requires
        0 <= pos <= s.len(),
        forall|i: int| 0 <= i < s.len() ==> (#[trigger] s[i]) != '"',
        match start {
            Some(b) => 0 <= b < pos && forall|i: int| b <= i < pos ==> !is_blank(#[trigger] s[i]),
            None => true,
        },
    ensures
        forall|k: int|
            0 <= k < scan(s, pos, start).len() ==> is_plain_word(#[trigger] scan(s, pos, start)[k]),
    decreases s.len() - pos,
{
    if pos >= s.len() {
        match start {
            Some(b) => {
                let w = s.subrange(b, s.len() as int);
                assert forall|j: int| 0 <= j < w.len() implies !is_blank(#[trigger] w[j]) by {
                    assert(w[j] == s[b + j]);
                }
                assert(is_plain_word(w));
                assert(scan(s, pos, start) =~= seq![w]);
            },
            None => {
                assert(scan(s, pos, start) =~= Seq::<Seq<char>>::empty());
            },
        }
    } else if is_blank(s[pos]) {
        plain_scan(s, pos + 1, None);
        match start {
            Some(b) => {
                let w = s.subrange(b, pos);
                assert forall|j: int| 0 <= j < w.len() implies !is_blank(#[trigger] w[j]) by {
                    assert(w[j] == s[b + j]);
                }
                let rest = scan(s, pos + 1, None);
                assert(is_plain_word(w));
                assert(scan(s, pos, start) =~= seq![w] + rest);
                assert forall|k: int| 0 <= k < scan(s, pos, start).len() implies is_plain_word(
                    #[trigger] scan(s, pos, start)[k],
                ) by {
                    if k > 0 {
                        assert(scan(s, pos, start)[k] == rest[k - 1]);
                        assert(is_plain_word(rest[k - 1]));
                    } else {
                        assert(scan(s, pos, start)[k] == w);
                    }
                }
            },
            None => {
                assert(scan(s, pos, start) == scan(s, pos + 1, None));
            },
        }
    } else {
        assert(s[pos] != '"');
        let next = if start is None {
            Some(pos)
        } else {
            start
        };
        plain_scan(s, pos + 1, next);
        assert(scan(s, pos, start) == scan(s, pos + 1, next));
    }
}

/// On a line without double quotes, the words are what stands between the
/// blanks: none is empty, and none holds a blank.
pub proof fn words_are_plain(s: Seq<char>)
    requires
        forall|i: int| 0 <= i < s.len() ==> (#[trigger] s[i]) != '"',
    ensures
        forall|k: int| 0 <= k < words(s).len() ==> is_plain_word(#[trigger] words(s)[k]),
{
    plain_scan(s, 0, None);
}

/// Tells the characters that separate words from others.
pub fn whitespace(ch: char) -> (r: bool)
    ensures
        r == is_blank(ch),
{
    ch == ' ' || ch == '\r' || ch == '\n' || ch == '\t'
}

/// The closing quote lies at or after the place where the search began.
pub proof fn closing_quote_bounds(s: Seq<char>, from: int)
    requires
        0 <= from <= s.len(),
    ensures
        from <= closing_quote(s, from) <= s.len(),
        closing_quote(s, from) < s.len() ==> s[closing_quote(s, from)] == '"',
    decreases s.len() - from,
{
    if from < s.len() && s[from] != '"' {
        closing_quote_bounds(s, from + 1);
    }
}

/// Splits `input` into its words.
pub fn split_command_line<'a>(input: &'a str) -> (output: Vec<&'a str>)
    ensures
        views(output@) == words(input@),
{
    let chars = chars_of(input);
    let len: usize = chars.len();
    let mut output: Vec<&'a str> = Vec::new();
    let mut start: Option<usize> = None;
    let mut pos: usize = 0;
    proof {
        assert(views(output@) =~= Seq::<Seq<char>>::empty());
    }
    while pos < len
        invariant
            chars@ == input@,
            len == input@.len(),
            pos <= len,
            match start {
                Some(b) => b < pos,
                None => true,
            },
            words(input@) == views(output@) + scan(
                input@,
                pos as int,
                match start {
                    Some(b) => Some(b as int),
                    None => None,
                },
            ),
        decreases len - pos,
    {
        let ch = chars[pos];
        let ghost before = views(output@);
        if whitespace(ch) {
            if let Some(chunk_start) = start {
                output.push(input.substring_char(chunk_start, pos));
                start = None;
                proof {
                    assert(views(output@) =~= before + seq![
                        input@.subrange(chunk_start as int, pos as int),
                    ]);
                }
            }
            pos = pos + 1;
        } else if ch == '"' {
            let mut p: usize = pos + 1;
            while p < len && chars[p] != '"'
                invariant
                    chars@ == input@,
                    len == input@.len(),
                    pos < p <= len,
                    closing_quote(input@, pos + 1) == closing_quote(input@, p as int),
                decreases len - p,
            {
                p = p + 1;
            }
            output.push(input.substring_char(pos + 1, p));
            proof {
                assert(closing_quote(input@, p as int) == p);
                assert(views(output@) =~= before + seq![
                    input@.subrange(pos + 1, p as int),
                ]);
            }
            if p < len {
                start = None;
                pos = p + 1;
            } else {
                pos = len;
            }
        } else {
            if start.is_none() {
                start = Some(pos);
            }
            pos = pos + 1;
        }
    }
    if let Some(start_chunk) = start {
        let ghost before = views(output@);
        output.push(input.substring_char(start_chunk, len));
        proof {
            assert(views(output@) =~= before + seq![
                input@.subrange(start_chunk as int, len as int),
            ]);
        }
    }
    output
}

} // verus!
