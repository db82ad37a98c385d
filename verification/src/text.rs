//! Character-level text handling: trimming, cutting at a comma, slicing,
//! and decimal numerals.

use vstd::prelude::*;
use vstd::string::*;
use vstd::utf8::{decode_utf8, valid_utf8};

verus! {

/// The characters of `s`, in order.
pub fn chars_of(s: &str) -> (chars: Vec<char>)
    ensures
        chars@ == s@,
{
    broadcast use vstd::string::group_string_axioms;

    let mut chars: Vec<char> = Vec::new();
    for c in it: s.chars()
        invariant
            it.seq() == s@,
            chars@ == it.history(),
    {
        chars.push(c);
    }
    chars
}

/// The characters `lo..hi` of `s` as a string of their own.
pub(crate) fn slice_text(s: &str, lo: usize, hi: usize) -> (piece: String)
    requires
        lo <= hi <= s@.len(),
    ensures
        piece@ == s@.subrange(lo as int, hi as int),
{
    s.substring_char(lo, hi).to_owned()
}

/// `std::str::from_utf8`: the text that `bytes` encode in UTF-8, where they
/// are well-formed UTF-8, and nothing where they are not.
#[verifier::external_body]
pub(crate) fn utf8_text(bytes: &[u8]) -> (text: Option<&str>)
    ensures
        text is Some == valid_utf8(bytes@),
        text matches Some(t) ==> t@ == decode_utf8(bytes@),
{
    std::str::from_utf8(bytes).ok()
}

/// A class of characters that a trim removes from the ends of a text.
#[derive(Clone, Copy, Debug, PartialEq, Eq)]
pub enum Strip {
    /// The double quote `"`.
    Quotes,
    /// The null character.
    Nuls,
    /// The characters with the Unicode property `White_Space`.
    Whitespace,
}

/// Whether `c` has the Unicode property `White_Space`.
pub open spec fn is_whitespace(c: char) -> bool {
    ||| '\u{9}' <= c <= '\u{d}'
    ||| c == ' '
    ||| c == '\u{85}'
    ||| c == '\u{a0}'
    ||| c == '\u{1680}'
    ||| '\u{2000}' <= c <= '\u{200a}'
    ||| c == '\u{2028}'
    ||| c == '\u{2029}'
    ||| c == '\u{202f}'
    ||| c == '\u{205f}'
    ||| c == '\u{3000}'
}

impl Strip {
    /// Whether a trim of this class removes `c`.
    pub open spec fn removes(self, c: char) -> bool {
        match self {
            Strip::Quotes => c == '"',
            Strip::Nuls => c == '\0',
            Strip::Whitespace => is_whitespace(c),
        }
    }

    /// Tests whether a trim of this class removes `c`.
    pub fn test(self, c: char) -> (hit: bool)
        ensures
            hit == self.removes(c),
    {
        match self {
            Strip::Quotes => c == '"',
            Strip::Nuls => c == '\0',
            Strip::Whitespace => {
                ('\u{9}' <= c && c <= '\u{d}') || c == ' ' || c == '\u{85}' || c == '\u{a0}'
                    || c == '\u{1680}' || ('\u{2000}' <= c && c <= '\u{200a}') || c == '\u{2028}'
                    || c == '\u{2029}' || c == '\u{202f}' || c == '\u{205f}' || c == '\u{3000}'
            },
        }
    }
}

/// `s` without its longest prefix of characters that `class` removes.
pub open spec fn trim_start(s: Seq<char>, class: Strip) -> Seq<char>
    decreases s.len(),
{
    if s.len() > 0 && class.removes(s[0]) {
        trim_start(s.drop_first(), class)
    } else {
        s
    }
}

/// `s` without its longest suffix of characters that `class` removes.
pub open spec fn trim_end(s: Seq<char>, class: Strip) -> Seq<char>
    decreases s.len(),
{
    if s.len() > 0 && class.removes(s.last()) {
        trim_end(s.drop_last(), class)
    } else {
        s
    }
}

/// `s` with the characters that `class` removes taken off both ends.
pub open spec fn trim(s: Seq<char>, class: Strip) -> Seq<char> {
    trim_end(trim_start(s, class), class)
}

/// Narrows the window `lo..hi` of `chars` to what a trim of `class` leaves.
pub(crate) fn trim_window(chars: &Vec<char>, lo: usize, hi: usize, class: Strip) -> (window: (usize, usize))
    requires
        lo <= hi <= chars.len(),
    ensures
        lo <= window.0 <= window.1 <= hi,
        chars@.subrange(window.0 as int, window.1 as int) == trim(
            chars@.subrange(lo as int, hi as int),
            class,
        ),
{
    let mut start = lo;
    while start < hi && class.test(chars[start])
        invariant
            lo <= start <= hi <= chars.len(),
            trim_start(chars@.subrange(start as int, hi as int), class) == trim_start(
                chars@.subrange(lo as int, hi as int),
                class,
            ),
        decreases hi - start,
    {
        assert(chars@.subrange(start as int, hi as int).drop_first() =~= chars@.subrange(
            start + 1,
            hi as int,
        ));
        start = start + 1;
    }
    let mut end = hi;
    while start < end && class.test(chars[end - 1])
        invariant
            start <= end <= hi <= chars.len(),
            trim_end(chars@.subrange(start as int, end as int), class) == trim_end(
                chars@.subrange(start as int, hi as int),
                class,
            ),
        decreases end - start,
    {
        assert(chars@.subrange(start as int, end as int).drop_last() =~= chars@.subrange(
            start as int,
            end - 1,
        ));
        end = end - 1;
    }
    (start, end)
}

/// Takes the characters that `class` removes off both ends of a text.
pub fn trim_text(text: &str, class: Strip) -> (trimmed: String)
    ensures
        trimmed@ == trim(text@, class),
{
    let chars = chars_of(text);
    assert(chars@.subrange(0, chars@.len() as int) =~= chars@);
    let (lo, hi) = trim_window(&chars, 0, chars.len(), class);
    slice_text(text, lo, hi)
}

/// The index of the first comma of `s`, or the length of `s` where it has none.
pub open spec fn comma_index(s: Seq<char>) -> int
    decreases s.len(),
{
    if s.len() == 0 || s[0] == ',' {
        0
    } else {
        1 + comma_index(s.drop_first())
    }
}

/// What stands in `s` before its first comma; all of `s` where it has none.
pub open spec fn before_comma(s: Seq<char>) -> Seq<char> {
    s.take(comma_index(s))
}

/// The end of what stands before the first comma in the window `lo..hi` of
/// `chars`.
pub(crate) fn cut_at_comma(chars: &Vec<char>, lo: usize, hi: usize) -> (end: usize)
    requires
        lo <= hi <= chars.len(),
    ensures
        lo <= end <= hi,
        chars@.subrange(lo as int, end as int) == before_comma(
            chars@.subrange(lo as int, hi as int),
        ),
{
    let mut end = lo;
    while end < hi && chars[end] != ','
        invariant
            lo <= end <= hi <= chars.len(),
            comma_index(chars@.subrange(lo as int, hi as int)) == (end - lo) + comma_index(
                chars@.subrange(end as int, hi as int),
            ),
        decreases hi - end,
    {
        assert(chars@.subrange(end as int, hi as int).drop_first() =~= chars@.subrange(
            end + 1,
            hi as int,
        ));
        end = end + 1;
    }
    end
}

/// The decimal digit of a number below ten.
pub open spec fn digit(d: nat) -> char {
    if d == 0 {
        '0'
    } else if d == 1 {
        '1'
    } else if d == 2 {
        '2'
    } else if d == 3 {
        '3'
    } else if d == 4 {
        '4'
    } else if d == 5 {
        '5'
    } else if d == 6 {
        '6'
    } else if d == 7 {
        '7'
    } else if d == 8 {
        '8'
    } else {
        '9'
    }
}

/// The decimal numeral of `n`: no sign, no padding, `"0"` for zero.
pub open spec fn decimal(n: nat) -> Seq<char>
    decreases n,
{
    if n < 10 {
        seq![digit(n)]
    } else {
        decimal(n / 10).push(digit(n % 10))
    }
}

/// The one-character text of a decimal digit.
pub(crate) fn digit_text(d: u64) -> (text: &'static str)
    requires
        d < 10,
    ensures
        text@ == seq![digit(d as nat)],
{
    proof {
        reveal_strlit("0");
        reveal_strlit("1");
        reveal_strlit("2");
        reveal_strlit("3");
        reveal_strlit("4");
        reveal_strlit("5");
        reveal_strlit("6");
        reveal_strlit("7");
        reveal_strlit("8");
        reveal_strlit("9");
    }
    if d == 0 {
        "0"
    } else if d == 1 {
        "1"
    } else if d == 2 {
        "2"
    } else if d == 3 {
        "3"
    } else if d == 4 {
        "4"
    } else if d == 5 {
        "5"
    } else if d == 6 {
        "6"
    } else if d == 7 {
        "7"
    } else if d == 8 {
        "8"
    } else {
        "9"
    }
}

/// Appends the decimal numeral of `n` to `out`.
pub fn push_decimal(out: &mut String, n: u64)
    ensures
        final(out)@ == old(out)@ + decimal(n as nat),
    decreases n,
{
    if n >= 10 {
        push_decimal(out, n / 10);
    }
    out.append(digit_text(n % 10));
}

/// The decimal numeral of `n`.
pub fn decimal_text(n: u64) -> (text: String)
    ensures
        text@ == decimal(n as nat),
{
    let mut text = String::new();
    push_decimal(&mut text, n);
    text
}

/// The lines of `lines` in one text, a line feed between each two.
pub open spec fn joined(lines: Seq<Seq<char>>) -> Seq<char>
    decreases lines.len(),
{
    if lines.len() == 0 {
        seq![]
    } else if lines.len() == 1 {
        lines[0]
    } else {
        joined(lines.drop_last()) + "\n"@ + lines.last()
    }
}

/// Joins lines into one text, a line feed between each two.
pub fn join_lines(lines: &Vec<String>) -> (text: String)
    ensures
        text@ == joined(lines.deep_view()),
{
    let mut text = String::new();
    let mut i: usize = 0;
    while i < lines.len()
        invariant
            i <= lines.len(),
            text@ == joined(lines.deep_view().take(i as int)),
        decreases lines.len() - i,
    {
        assert(lines.deep_view().take(i + 1).drop_last() =~= lines.deep_view().take(i as int));
        if i > 0 {
            text.append("\n");
        }
        text.append(lines[i].as_str());
        i = i + 1;
    }
    assert(lines.deep_view().take(lines.len() as int) =~= lines.deep_view());
    text
}

/// Whether `part` stands somewhere in `text`, character by character.
pub open spec fn holds(text: Seq<char>, part: Seq<char>) -> bool {
    exists|i: int| stands_at(text, part, i)
}

/// Whether `part` stands in `text` from the index `i` on.
pub open spec fn stands_at(text: Seq<char>, part: Seq<char>, i: int) -> bool {
    0 <= i && i + part.len() <= text.len() && text.subrange(i, i + part.len()) == part
}

/// A text holds what it was put together from.
pub(crate) proof fn lemma_holds_part(before: Seq<char>, part: Seq<char>, after: Seq<char>)
    ensures
        holds(before + part + after, part),
{
    let text = before + part + after;
    assert(text.subrange(before.len() as int, (before.len() + part.len()) as int) =~= part);
    assert(stands_at(text, part, before.len() as int));
}

} // verus!
