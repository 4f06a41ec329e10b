//! Text as sequences of characters: white space, words, lines and decimal
//! numbers.

use vstd::prelude::*;
use vstd::slice::slice_subrange;
use vstd::string::*;
use vstd::utf8::*;

verus! {

/// `String::push` appends one character to the end of the string.
pub assume_specification[ String::push ](s: &mut String, c: char)
    ensures
        final(s)@ == old(s)@.push(c),
;

/// A character with the Unicode property `White_Space`.
pub open spec fn whitespace(c: char) -> bool {
    ||| '\u{9}' <= c <= '\u{d}'
    ||| c == ' '
    ||| c == '\u{85}'
    ||| c == '\u{a0}'
    ||| c == '\u{1680}'
    ||| '\u{2000}' <= c <= '\u{200a}'
    ||| c == '\u{2028}'
    ||| c == '\u{2029}'
    ||| c == '\u{202f}'
    ||| c == '\u{205f}'
    ||| c == '\u{3000}'
}

/// Whether a character is white space.
pub fn is_whitespace(c: char) -> (is: bool)
    ensures
        is == whitespace(c),
{
    ('\u{9}' <= c && c <= '\u{d}') || c == ' ' || c == '\u{85}' || c == '\u{a0}' || c == '\u{1680}'
        || ('\u{2000}' <= c && c <= '\u{200a}') || c == '\u{2028}' || c == '\u{2029}' || c
        == '\u{202f}' || c == '\u{205f}' || c == '\u{3000}'
}

/// The characters of a text.
pub fn chars_of(text: &str) -> (chars: Vec<char>)
    ensures
        chars@ == text@,
{
    let mut chars: Vec<char> = Vec::new();
    for c in rest: text.chars()
        invariant
            chars@ == rest.seq().take(rest.index() as int),
            rest.seq() == text@,
    {
        chars.push(c);
        assert(rest.seq().take(rest.index() + 1) =~= rest.seq().take(rest.index() as int).push(c));
    }
    assert(chars@ =~= text@);
    chars
}

/// The text of these characters.
pub fn text_of(chars: &[char]) -> (text: String)
    ensures
        text@ == chars@,
{
    let mut text = String::new();
    let mut i: usize = 0;
    while i < chars.len()
        invariant
            i <= chars.len(),
            text@ == chars@.take(i as int),
        decreases chars.len() - i,
    {
        text.push(chars[i]);
        i += 1;
        assert(chars@.take(i as int) =~= chars@.take(i - 1).push(chars@[i - 1]));
    }
    assert(chars@.take(i as int) =~= chars@);
    text
}

/// Two byte strings compared.
pub fn same_bytes(left: &[u8], right: &[u8]) -> (same: bool)
    ensures
        same == (left@ == right@),
{
    if left.len() != right.len() {
        return false;
    }
    let mut i: usize = 0;
    while i < left.len()
        invariant
            i <= left.len(),
            left.len() == right.len(),
            forall|j: int| 0 <= j < i ==> left@[j] == right@[j],
        decreases left.len() - i,
    {
        if left[i] != right[i] {
            return false;
        }
        i += 1;
    }
    assert(left@ =~= right@);
    true
}

/// Two texts compared.
pub fn same(left: &str, right: &str) -> (same: bool)
    ensures
        same == (left@ == right@),
{
    proof {
        encode_utf8_decode_utf8(left@);
        encode_utf8_decode_utf8(right@);
    }
    same_bytes(left.as_bytes(), right.as_bytes())
}

/// `s` without the white space it starts with.
pub open spec fn trimmed_start(s: Seq<char>) -> Seq<char>
    decreases s.len(),
{
    if s.len() > 0 && whitespace(s[0]) {
        trimmed_start(s.drop_first())
    } else {
        s
    }
}

/// `s` without the white space it ends with.
pub open spec fn trimmed_end(s: Seq<char>) -> Seq<char>
    decreases s.len(),
{
    if s.len() > 0 && whitespace(s.last()) {
        trimmed_end(s.drop_last())
    } else {
        s
    }
}

/// `s` without the white space around it.
pub open spec fn trimmed(s: Seq<char>) -> Seq<char> {
    trimmed_end(trimmed_start(s))
}

/// `s` without any `c` it ends with.
pub open spec fn without_trailing(s: Seq<char>, c: char) -> Seq<char>
    decreases s.len(),
{
    if s.len() > 0 && s.last() == c {
        without_trailing(s.drop_last(), c)
    } else {
        s
    }
}

/// The characters without the white space they start with.
pub fn trim_start(chars: &[char]) -> (rest: &[char])
    ensures
        rest@ == trimmed_start(chars@),
{
    let mut i: usize = 0;
    assert(chars@.skip(0) =~= chars@);
    while i < chars.len() && is_whitespace(chars[i])
        invariant
            i <= chars.len(),
            trimmed_start(chars@) == trimmed_start(chars@.skip(i as int)),
        decreases chars.len() - i,
    {
        assert(chars@.skip(i as int).drop_first() =~= chars@.skip(i + 1));
        i += 1;
    }
    assert(chars@.subrange(i as int, chars@.len() as int) =~= chars@.skip(i as int));
    slice_subrange(chars, i, chars.len())
}

/// The characters without the white space around them.
pub fn trim(chars: &[char]) -> (rest: &[char])
    ensures
        rest@ == trimmed(chars@),
{
    let chars = trim_start(chars);
    let mut end: usize = chars.len();
    assert(chars@.take(end as int) =~= chars@);
    while end > 0 && is_whitespace(chars[end - 1])
        invariant
            end <= chars.len(),
            trimmed_end(chars@) == trimmed_end(chars@.take(end as int)),
        decreases end,
    {
        assert(chars@.take(end as int).drop_last() =~= chars@.take(end - 1));
        end -= 1;
    }
    assert(chars@.subrange(0, end as int) =~= chars@.take(end as int));
    slice_subrange(chars, 0, end)
}

/// The characters without any `c` they end with.
pub fn trim_trailing(chars: &[char], c: char) -> (rest: &[char])
    ensures
        rest@ == without_trailing(chars@, c),
{
    let mut end: usize = chars.len();
    assert(chars@.take(end as int) =~= chars@);
    while end > 0 && chars[end - 1] == c
        invariant
            end <= chars.len(),
            without_trailing(chars@, c) == without_trailing(chars@.take(end as int), c),
        decreases end,
    {
        assert(chars@.take(end as int).drop_last() =~= chars@.take(end - 1));
        end -= 1;
    }
    assert(chars@.subrange(0, end as int) =~= chars@.take(end as int));
    slice_subrange(chars, 0, end)
}

/// How many characters of `s` come before its first white space.
pub open spec fn word_len(s: Seq<char>) -> nat
    decreases s.len(),
{
    if s.len() > 0 && !whitespace(s[0]) {
        1 + word_len(s.drop_first())
    } else {
        0
    }
}

/// The words of `s`: its longest runs of characters that are no white space.
pub open spec fn words(s: Seq<char>) -> Seq<Seq<char>>
    decreases s.len(),
{
    let rest = trimmed_start(s);
    if rest.len() == 0 {
        seq![]
    } else {
        proof {
            lemma_trimmed_start(s);
            lemma_word_len(rest);
        }
        seq![rest.take(word_len(rest) as int)] + words(rest.skip(word_len(rest) as int))
    }
}

/// What trimming leaves at the start is a suffix that starts with no white
/// space.
pub proof fn lemma_trimmed_start(s: Seq<char>)
    ensures
        trimmed_start(s).len() <= s.len(),
        trimmed_start(s) == s.skip(s.len() - trimmed_start(s).len()),
        trimmed_start(s).len() > 0 ==> !whitespace(trimmed_start(s)[0]),
    decreases s.len(),
{
    if s.len() > 0 && whitespace(s[0]) {
        lemma_trimmed_start(s.drop_first());
    }
    assert(trimmed_start(s) =~= s.skip(s.len() - trimmed_start(s).len()));
}

/// The length of the first word is within the text.
pub proof fn lemma_word_len(s: Seq<char>)
    ensures
        word_len(s) <= s.len(),
        s.len() > 0 && !whitespace(s[0]) ==> word_len(s) > 0,
    decreases s.len(),
{
    if s.len() > 0 && !whitespace(s[0]) {
        lemma_word_len(s.drop_first());
    }
}

/// How many of the characters come before the first white space.
fn first_word(chars: &[char]) -> (n: usize)
    ensures
        n == word_len(chars@),
        n <= chars@.len(),
{
    let mut n: usize = 0;
    assert(chars@.skip(0) =~= chars@);
    while n < chars.len() && !is_whitespace(chars[n])
        invariant
            n <= chars.len(),
            word_len(chars@) == n + word_len(chars@.skip(n as int)),
        decreases chars.len() - n,
    {
        assert(chars@.skip(n as int).drop_first() =~= chars@.skip(n + 1));
        n += 1;
    }
    n
}

/// What slices of characters hold.
pub open spec fn all_chars(slices: Seq<&[char]>) -> Seq<Seq<char>> {
    slices.map_values(|slice: &[char]| slice@)
}

/// The words of the characters, in order.
pub fn split_words<'a>(chars: &'a [char]) -> (found: Vec<&'a [char]>)
    ensures
        all_chars(found@) == words(chars@),
{
    let mut found: Vec<&'a [char]> = Vec::new();
    let mut rest = trim_start(chars);
    proof {
        lemma_trimmed_start(chars@);
        lemma_trimmed_start_again(chars@);
        assert(all_chars(found@) + words(rest@) =~= words(chars@));
    }
    while rest.len() > 0
        invariant
            all_chars(found@) + words(rest@) == words(chars@),
            trimmed_start(rest@) == rest@,
        decreases rest.len(),
    {
        let n = first_word(rest);
        let word = slice_subrange(rest, 0, n);
        let after = slice_subrange(rest, n, rest.len());
        let next = trim_start(after);
        proof {
            lemma_trimmed_start(rest@);
            lemma_word_len(rest@);
            lemma_trimmed_start(after@);
            lemma_trimmed_start_again(after@);
            assert(word@ =~= rest@.take(n as int));
            assert(after@ =~= rest@.skip(n as int));
            assert(words(after@) == words(next@));
            assert(all_chars(found@.push(word)) =~= all_chars(found@).push(word@));
            assert(all_chars(found@.push(word)) + words(next@) =~= all_chars(found@) + (seq![word@]
                + words(after@)));
        }
        found.push(word);
        rest = next;
    }
    assert(words(rest@) =~= seq![]);
    assert(all_chars(found@) =~= words(chars@));
    found
}

/// Trimming the start twice trims it once, and leaves the words.
proof fn lemma_trimmed_start_again(s: Seq<char>)
    ensures
        trimmed_start(trimmed_start(s)) == trimmed_start(s),
        words(trimmed_start(s)) == words(s),
{
    lemma_trimmed_start(s);
}

/// Words put together again with one space between them.
pub open spec fn joined(words: Seq<Seq<char>>) -> Seq<char>
    decreases words.len(),
{
    if words.len() == 0 {
        seq![]
    } else if words.len() == 1 {
        words[0]
    } else {
        joined(words.drop_last()).push(' ') + words.last()
    }
}

/// The words from the `from`-th on, with one space between them.
pub fn join_from(words: &Vec<&[char]>, from: usize) -> (text: String)
    requires
        from <= words@.len(),
    ensures
        text@ == joined(all_chars(words@).skip(from as int)),
{
    let ghost parts = all_chars(words@).skip(from as int);
    let mut text = String::new();
    let mut i: usize = from;
    assert(parts.take(0) =~= seq![]);
    while i < words.len()
        invariant
            from <= i <= words.len(),
            parts == all_chars(words@).skip(from as int),
            text@ == joined(parts.take(i - from)),
        decreases words.len() - i,
    {
        let ghost before = text@;
        if i > from {
            text.push(' ');
        }
        let word = text_of(words[i]);
        text.append(word.as_str());
        proof {
            let now = parts.take(i - from + 1);
            assert(now.drop_last() =~= parts.take(i - from));
            assert(now.last() == words@[i as int]@);
            assert(text@ =~= joined(now));
        }
        i += 1;
    }
    assert(parts.take(i - from) =~= parts);
    text
}

/// How many characters of `s` come before its first line feed.
pub open spec fn line_len(s: Seq<char>) -> nat
    decreases s.len(),
{
    if s.len() > 0 && s[0] != '\n' {
        1 + line_len(s.drop_first())
    } else {
        0
    }
}

/// `s` without the one carriage return it may end with.
pub open spec fn without_return(s: Seq<char>) -> Seq<char> {
    if s.len() > 0 && s.last() == '\r' {
        s.drop_last()
    } else {
        s
    }
}

/// The lines of `s`: a line ends at a line feed, which with a carriage return
/// before it is no part of the line, and the last line needs no line feed.
pub open spec fn lines(s: Seq<char>) -> Seq<Seq<char>>
    decreases s.len(),
{
    if s.len() == 0 {
        seq![]
    } else if line_len(s) >= s.len() {
        seq![s]
    } else {
        seq![without_return(s.take(line_len(s) as int))] + lines(s.skip(line_len(s) as int + 1))
    }
}

/// How many of the characters come before the first line feed.
fn first_line(chars: &[char]) -> (n: usize)
    ensures
        n == line_len(chars@),
        n <= chars@.len(),
{
    let mut n: usize = 0;
    assert(chars@.skip(0) =~= chars@);
    while n < chars.len() && chars[n] != '\n'
        invariant
            n <= chars.len(),
            line_len(chars@) == n + line_len(chars@.skip(n as int)),
        decreases chars.len() - n,
    {
        assert(chars@.skip(n as int).drop_first() =~= chars@.skip(n + 1));
        n += 1;
    }
    n
}

/// The lines of the characters, in order.
pub fn split_lines<'a>(chars: &'a [char]) -> (found: Vec<&'a [char]>)
    ensures
        all_chars(found@) == lines(chars@),
{
    let mut found: Vec<&'a [char]> = Vec::new();
    let mut rest = chars;
    assert(all_chars(found@) + lines(rest@) =~= lines(chars@));
    while rest.len() > 0
        invariant
            all_chars(found@) + lines(rest@) == lines(chars@),
        decreases rest.len(),
    {
        let n = first_line(rest);
        let (line, next) = if n >= rest.len() {
            (rest, slice_subrange(rest, n, rest.len()))
        } else if n > 0 && rest[n - 1] == '\r' {
            (slice_subrange(rest, 0, n - 1), slice_subrange(rest, n + 1, rest.len()))
        } else {
            (slice_subrange(rest, 0, n), slice_subrange(rest, n + 1, rest.len()))
        };
        proof {
            if n < rest@.len() {
                assert(line@ =~= without_return(rest@.take(n as int)));
                assert(next@ =~= rest@.skip(n + 1));
            } else {
                assert(lines(next@) =~= seq![]);
            }
            assert(lines(rest@) =~= seq![line@] + lines(next@));
            assert(all_chars(found@.push(line)) =~= all_chars(found@).push(line@));
            assert(all_chars(found@.push(line)) + lines(next@) =~= all_chars(found@) + (seq![line@]
                + lines(next@)));
        }
        found.push(line);
        rest = next;
    }
    assert(lines(rest@) =~= seq![]);
    assert(all_chars(found@) =~= lines(chars@));
    found
}

/// The decimal digits of `n`, without leading zeros.
pub open spec fn decimal(n: nat) -> Seq<char>
    decreases n,
{
    if n < 10 {
        seq![(48 + n) as char]
    } else {
        decimal(n / 10).push((48 + n % 10) as char)
    }
}

/// A number in decimal digits.
pub fn decimal_text(n: usize) -> (text: String)
    ensures
        text@ == decimal(n as nat),
    decreases n,
{
    let mut text = if n < 10 {
        String::new()
    } else {
        decimal_text(n / 10)
    };
    let digit: u8 = 48 + (n % 10) as u8;
    text.push(digit as char);
    assert(text@ =~= decimal(n as nat));
    text
}

} // verus!
