//! Small operations on text: decimal notation, comparison and trimming.

use vstd::prelude::*;
use vstd::string::*;

verus! {

/// The character that stands for the digit `d`.
pub open spec fn digit(d: int) -> char {
    if d == 0 {
        '0'
    } else if d == 1 {
        '1'
    } else if d == 2 {
        '2'
    } else if d == 3 {
        '3'
    } else if d == 4 {
        '4'
    } else if d == 5 {
        '5'
    } else if d == 6 {
        '6'
    } else if d == 7 {
        '7'
    } else if d == 8 {
        '8'
    } else {
        '9'
    }
}

/// The decimal notation of `n`, without leading zeros.
pub open spec fn decimal(n: nat) -> Seq<char>
    decreases n,
{
    if n < 10 {
        seq![digit(n as int)]
    } else {
        decimal(n / 10).push(digit((n % 10) as int))
    }
}

/// The one-character string for a digit.
pub fn digit_str(d: u16) -> (s: &'static str)
    requires
        d < 10,
    ensures
        s@ == seq![digit(d as int)],
{
    proof {
        reveal_strlit("0");
        reveal_strlit("1");
        reveal_strlit("2");
        reveal_strlit("3");
        reveal_strlit("4");
        reveal_strlit("5");
        reveal_strlit("6");
        reveal_strlit("7");
        reveal_strlit("8");
        reveal_strlit("9");
    }
    let s = if d == 0 {
        "0"
    } else if d == 1 {
        "1"
    } else if d == 2 {
        "2"
    } else if d == 3 {
        "3"
    } else if d == 4 {
        "4"
    } else if d == 5 {
        "5"
    } else if d == 6 {
        "6"
    } else if d == 7 {
        "7"
    } else if d == 8 {
        "8"
    } else {
        "9"
    };
    assert(s@ =~= seq![digit(d as int)]);
    s
}

/// Writes `n` in decimal notation.
pub fn decimal_string(n: u16) -> (s: String)
    ensures
        s@ == decimal(n as nat),
    decreases n,
{
    if n < 10 {
        String::from_str(digit_str(n))
    } else {
        let mut s = decimal_string(n / 10);
        s.append(digit_str(n % 10));
        proof {
            assert(s@ =~= decimal((n / 10) as nat).push(digit((n % 10) as int)));
        }
        s
    }
}

/// The characters of `s`, one by one.
pub fn chars_of(s: &str) -> (chars: Vec<char>)
    ensures
        chars@ == s@,
{
    broadcast use vstd::string::group_string_axioms;

    let mut chars: Vec<char> = Vec::new();
    for c in it: s.chars()
        invariant
            it.seq() == s@,
            chars@ == it.seq().take(it.index() as int),
    {
        chars.push(c);
        proof {
            assert(chars@ =~= it.seq().take(it.index() + 1));
        }
    }
    proof {
        assert(chars@ =~= s@);
    }
    chars
}

/// Whether `a` and `b` hold the same characters.
pub fn same_text(a: &str, b: &str) -> (same: bool)
    ensures
        same == (a@ == b@),
{
    let owned_a = String::from_str(a);
    let owned_b = String::from_str(b);
    owned_a == owned_b
}

/// Whether `s` begins with `prefix`.
pub open spec fn starts_with(s: Seq<char>, prefix: Seq<char>) -> bool {
    prefix.len() <= s.len() && s.subrange(0, prefix.len() as int) == prefix
}

/// Whether `s` begins with `prefix`.
pub fn has_prefix(s: &str, prefix: &str) -> (r: bool)
    ensures
        r == starts_with(s@, prefix@),
{
    let n: usize = prefix.unicode_len();
    if s.unicode_len() < n {
        return false;
    }
    same_text(s.substring_char(0, n), prefix)
}

/// The characters that Unicode counts as white space.
pub open spec fn is_space(c: char) -> bool {
    let n = c as u32;
    (0x09 <= n && n <= 0x0D) || n == 0x20 || n == 0x85 || n == 0xA0 || n == 0x1680 || (0x2000 <= n
        && n <= 0x200A) || n == 0x2028 || n == 0x2029 || n == 0x202F || n == 0x205F || n == 0x3000
}

/// Tells white space from other characters.
pub fn space(c: char) -> (r: bool)
    ensures
        r == is_space(c),
{
    let n: u32 = c as u32;
    (0x09 <= n && n <= 0x0D) || n == 0x20 || n == 0x85 || n == 0xA0 || n == 0x1680 || (0x2000 <= n
        && n <= 0x200A) || n == 0x2028 || n == 0x2029 || n == 0x202F || n == 0x205F || n == 0x3000
}

/// The first position at or after `from` that holds no white space, or the
/// length of `s`.
pub open spec fn skip_spaces(s: Seq<char>, from: int) -> int
    decreases s.len() - from,
{
    if from < 0 || from >= s.len() {
        s.len() as int
    } else if is_space(s[from]) {
        skip_spaces(s, from + 1)
    } else {
        from
    }
}

/// The least end at or below `to`, and not below `low`, before which no
/// white space stands.
pub open spec fn drop_spaces(s: Seq<char>, low: int, to: int) -> int
    decreases to,
{
    if to <= low || to <= 0 || to > s.len() {
        low
    } else if is_space(s[to - 1]) {
        drop_spaces(s, low, to - 1)
    } else {
        to
    }
}

/// `s` without the white space at its two ends.
pub open spec fn trimmed(s: Seq<char>) -> Seq<char> {
    let low = skip_spaces(s, 0);
    s.subrange(low, drop_spaces(s, low, s.len() as int))
}

/// The words found from position `pos` on, where `start` is the position
/// at which the word being read began, if one is being read. White space
/// parts the words.
pub open spec fn space_scan(s: Seq<char>, pos: int, start: Option<int>) -> Seq<Seq<char>>
    decreases s.len() - pos,
{
    if pos < 0 || pos >= s.len() {
        match start {
            Some(b) => seq![s.subrange(b, s.len() as int)],
            None => Seq::empty(),
        }
    } else if is_space(s[pos]) {
        match start {
            Some(b) => seq![s.subrange(b, pos)] + space_scan(s, pos + 1, None),
            None => space_scan(s, pos + 1, None),
        }
    } else {
        space_scan(s, pos + 1, if start is None { Some(pos) } else { start })
    }
}

/// The words of `s`: what stands between white space.
pub open spec fn space_words(s: Seq<char>) -> Seq<Seq<char>> {
    space_scan(s, 0, None)
}

/// The views of the slices in `v`.
pub open spec fn views(v: Seq<&str>) -> Seq<Seq<char>> {
    Seq::new(v.len(), |i: int| v[i]@)
}

/// Splits `s` at white space.
pub fn split_whitespace<'a>(s: &'a str) -> (words: Vec<&'a str>)
    ensures
        views(words@) == space_words(s@),
{
    let chars = chars_of(s);
    let len: usize = chars.len();
    let mut words: Vec<&'a str> = Vec::new();
    let mut start: Option<usize> = None;
    let mut pos: usize = 0;
    proof {
        assert(views(words@) =~= Seq::<Seq<char>>::empty());
    }
    while pos < len
        invariant
            chars@ == s@,
            len == s@.len(),
            pos <= len,
            match start {
                Some(b) => b < pos,
                None => true,
            },
            space_words(s@) == views(words@) + space_scan(
                s@,
                pos as int,
                match start {
                    Some(b) => Some(b as int),
                    None => None,
                },
            ),
        decreases len - pos,
    {
        let ghost before = views(words@);
        if space(chars[pos]) {
            if let Some(word_start) = start {
                words.push(s.substring_char(word_start, pos));
                start = None;
                proof {
                    assert(views(words@) =~= before + seq![
                        s@.subrange(word_start as int, pos as int),
                    ]);
                }
            }
        } else if start.is_none() {
            start = Some(pos);
        }
        pos = pos + 1;
    }
    if let Some(word_start) = start {
        let ghost before = views(words@);
        words.push(s.substring_char(word_start, len));
        proof {
            assert(views(words@) =~= before + seq![s@.subrange(word_start as int, len as int)]);
        }
    }
    words
}

/// What `str::to_lowercase` makes of a text.
pub uninterp spec fn lowered(s: Seq<char>) -> Seq<char>;

/// Calls `str::to_lowercase`, which maps every character to its lower
/// case as Unicode defines it, whatever the locale. The result is a
/// function of the text alone; the contract gives it its name.
#[verifier::external_body]
pub(crate) fn lowercase(s: &str) -> (r: String)
    ensures
        r@ == lowered(s@),
{
    s.to_lowercase()
}

/// What `str::to_uppercase` makes of a text.
pub uninterp spec fn uppered(s: Seq<char>) -> Seq<char>;

/// Calls `str::to_uppercase`, which maps every character to its upper
/// case as Unicode defines it, whatever the locale. The result is a
/// function of the text alone; the contract gives it its name.
#[verifier::external_body]
pub(crate) fn uppercase(s: &str) -> (r: String)
    ensures
        r@ == uppered(s@),
{
    s.to_uppercase()
}

/// Removes the white space at the two ends of `s`.
pub fn trim<'a>(s: &'a str) -> (t: &'a str)
    ensures
        t@ == trimmed(s@),
{
    let chars = chars_of(s);
    let len: usize = chars.len();
    let mut low: usize = 0;
    while low < len && space(chars[low])
        invariant
            chars@ == s@,
            len == s@.len(),
            low <= len,
            skip_spaces(s@, 0) == skip_spaces(s@, low as int),
        decreases len - low,
    {
        low = low + 1;
    }
    let mut high: usize = len;
    while high > low && space(chars[high - 1])
        invariant
            chars@ == s@,
            len == s@.len(),
            low <= high <= len,
            drop_spaces(s@, low as int, len as int) == drop_spaces(s@, low as int, high as int),
        decreases high,
    {
        high = high - 1;
    }
    s.substring_char(low, high)
}

} // verus!
