//! Laws of text: what trimming leaves, and words that were joined are split
//! again.

use vstd::prelude::*;

use crate::laws::file::no_line_feed;
use crate::text::{
    decimal, joined, lemma_trimmed_start, lemma_word_len, line_len, lines, trimmed, trimmed_end,
    trimmed_start, whitespace, without_trailing, word_len, words,
};

verus! {

/// Every character is white space.
pub open spec fn all_whitespace(s: Seq<char>) -> bool {
    forall|i: int| 0 <= i < s.len() ==> whitespace(#[trigger] s[i])
}

/// No character is white space.
pub open spec fn no_whitespace(s: Seq<char>) -> bool {
    forall|i: int| 0 <= i < s.len() ==> !whitespace(#[trigger] s[i])
}

/// A word: characters, none of which is white space.
pub open spec fn is_word(s: Seq<char>) -> bool {
    s.len() > 0 && no_whitespace(s)
}

/// White space in front is trimmed away.
proof fn lemma_start(before: Seq<char>, s: Seq<char>)
    requires
        all_whitespace(before),
    ensures
        trimmed_start(before + s) == trimmed_start(s),
    decreases before.len(),
{
    if before.len() > 0 {
        assert(whitespace(before[0]));
        lemma_start(before.drop_first(), s);
        assert((before + s).drop_first() =~= before.drop_first() + s);
    } else {
        assert(before + s =~= s);
    }
}

/// White space behind is trimmed away.
proof fn lemma_end(s: Seq<char>, behind: Seq<char>)
    requires
        all_whitespace(behind),
    ensures
        trimmed_end(s + behind) == trimmed_end(s),
    decreases behind.len(),
{
    if behind.len() > 0 {
        assert(whitespace(behind.last()));
        lemma_end(s, behind.drop_last());
        assert((s + behind).drop_last() =~= s + behind.drop_last());
    } else {
        assert(s + behind =~= s);
    }
}

/// White space around a text that neither starts nor ends with it is exactly
/// what is trimmed away.
pub proof fn white_space_around_is_trimmed(before: Seq<char>, s: Seq<char>, behind: Seq<char>)
    requires
        all_whitespace(before),
        all_whitespace(behind),
        s.len() > 0 ==> !whitespace(s[0]) && !whitespace(s.last()),
    ensures
        trimmed(before + s + behind) == s,
{
    assert(before + s + behind =~= before + (s + behind));
    lemma_start(before, s + behind);
    if s.len() > 0 {
        assert(trimmed_start(s + behind) == s + behind);
        lemma_end(s, behind);
    } else {
        assert(s + behind =~= behind);
        assert(behind + Seq::<char>::empty() =~= behind);
        lemma_start(behind, Seq::<char>::empty());
        assert(trimmed(before + s + behind) =~= s);
    }
}

/// A text without white space is left as it is by trimming.
pub proof fn nothing_else_is_trimmed(s: Seq<char>)
    requires
        no_whitespace(s),
    ensures
        trimmed(s) == s,
{
    white_space_around_is_trimmed(seq![], s, seq![]);
    assert(Seq::<char>::empty() + s + Seq::<char>::empty() =~= s);
}

/// As many `c` as there are behind a text that does not end with one are taken
/// off.
pub proof fn trailing_characters_are_taken_off(s: Seq<char>, c: char, n: nat)
    requires
        s.len() > 0 ==> s.last() != c,
    ensures
        without_trailing(s + Seq::new(n, |i: int| c), c) == s,
    decreases n,
{
    let longer = s + Seq::new(n, |i: int| c);
    if n > 0 {
        trailing_characters_are_taken_off(s, c, (n - 1) as nat);
        assert(longer.drop_last() =~= s + Seq::new((n - 1) as nat, |i: int| c));
        assert(longer.last() == c);
    } else {
        assert(longer =~= s);
    }
}

/// A word is as long as it is, where white space or nothing is behind it.
proof fn lemma_word(word: Seq<char>, rest: Seq<char>)
    requires
        no_whitespace(word),
        rest.len() > 0 ==> whitespace(rest[0]),
    ensures
        word_len(word + rest) == word.len(),
    decreases word.len(),
{
    if word.len() > 0 {
        assert(!whitespace(word[0]));
        lemma_word(word.drop_first(), rest);
        assert((word + rest).drop_first() =~= word.drop_first() + rest);
    } else {
        assert(word + rest =~= rest);
    }
}

/// The first word of a text, and the words behind it.
pub proof fn a_word_in_front_is_split_off(word: Seq<char>, rest: Seq<char>)
    requires
        is_word(word),
        rest.len() > 0 ==> whitespace(rest[0]),
    ensures
        words(word + rest) == seq![word] + words(rest),
{
    lemma_word(word, rest);
    assert(!whitespace(word[0]));
    assert(trimmed_start(word + rest) == word + rest);
    assert((word + rest).take(word.len() as int) =~= word);
    assert((word + rest).skip(word.len() as int) =~= rest);
}

/// White space in front of a text does not change its words.
pub proof fn white_space_in_front_changes_no_word(before: Seq<char>, s: Seq<char>)
    requires
        all_whitespace(before),
    ensures
        words(before + s) == words(s),
{
    lemma_start(before, s);
}

/// White space behind a text does not change its words.
pub proof fn white_space_behind_changes_no_word(s: Seq<char>, behind: Seq<char>)
    requires
        all_whitespace(behind),
    ensures
        words(s + behind) == words(s),
    decreases s.len(),
{
    lemma_trimmed_start(s);
    let cut = s.len() - trimmed_start(s).len();
    let rest = trimmed_start(s);
    lemma_trimmed_prefix(s);
    assert(s + behind =~= s.take(cut) + (rest + behind));
    lemma_start(s.take(cut), rest + behind);
    if rest.len() == 0 {
        assert(rest + behind =~= behind + Seq::<char>::empty());
        lemma_start(behind, Seq::<char>::empty());
        assert(trimmed_start(s + behind).len() == 0);
    } else {
        lemma_word_len(rest);
        assert(trimmed_start(rest + behind) == rest + behind);
        let n = word_len(rest) as int;
        lemma_first_word(rest);
        let after = rest.skip(n);
        assert(rest + behind =~= rest.take(n) + (after + behind));
        assert(after + behind =~= (rest + behind).skip(n));
        lemma_word(rest.take(n), after + behind);
        assert((rest + behind).take(n) =~= rest.take(n));
        white_space_behind_changes_no_word(after, behind);
    }
}

/// What is trimmed at the start is white space.
proof fn lemma_trimmed_prefix(s: Seq<char>)
    ensures
        trimmed_start(s).len() <= s.len(),
        all_whitespace(s.take(s.len() - trimmed_start(s).len())),
    decreases s.len(),
{
    if s.len() > 0 && whitespace(s[0]) {
        lemma_trimmed_prefix(s.drop_first());
        let cut = s.len() - trimmed_start(s).len();
        assert forall|i: int| 0 <= i < cut implies whitespace(#[trigger] s.take(cut)[i]) by {
            if i > 0 {
                assert(whitespace(s.drop_first().take(cut - 1)[i - 1]));
            }
        }
    }
}

/// The first word holds no white space and ends where some is or the text
/// ends.
proof fn lemma_first_word(s: Seq<char>)
    ensures
        word_len(s) <= s.len(),
        no_whitespace(s.take(word_len(s) as int)),
        word_len(s) < s.len() ==> whitespace(s[word_len(s) as int]),
    decreases s.len(),
{
    if s.len() > 0 && !whitespace(s[0]) {
        lemma_first_word(s.drop_first());
        let n = word_len(s) as int;
        assert forall|i: int| 0 <= i < n implies !whitespace(#[trigger] s.take(n)[i]) by {
            if i > 0 {
                assert(!whitespace(s.drop_first().take(n - 1)[i - 1]));
            }
        }
    }
}

/// What a text is split into are words.
pub proof fn only_words_are_split_off(s: Seq<char>)
    ensures
        forall|i: int| 0 <= i < words(s).len() ==> is_word(#[trigger] words(s)[i]),
    decreases s.len(),
{
    let rest = trimmed_start(s);
    lemma_trimmed_start(s);
    if rest.len() > 0 {
        lemma_word_len(rest);
        lemma_first_word(rest);
        only_words_are_split_off(rest.skip(word_len(rest) as int));
        assert forall|i: int| 0 <= i < words(s).len() implies is_word(#[trigger] words(s)[i]) by {
            if i > 0 {
                assert(words(s)[i] == words(rest.skip(word_len(rest) as int))[i - 1]);
            }
        }
    }
}

/// Words joined behind a first one.
proof fn lemma_joined_first(list: Seq<Seq<char>>)
    requires
        list.len() > 1,
    ensures
        joined(list) == list[0].push(' ') + joined(list.drop_first()),
    decreases list.len(),
{
    reveal_with_fuel(joined, 3);
    if list.len() == 2 {
        assert(list.drop_last() =~= seq![list[0]]);
        assert(list.drop_first() =~= seq![list[1]]);
        assert(joined(list) =~= list[0].push(' ') + joined(list.drop_first()));
    } else {
        lemma_joined_first(list.drop_last());
        assert(list.drop_last().drop_first() =~= list.drop_first().drop_last());
        assert(list.drop_first().last() == list.last());
        assert(joined(list) =~= list[0].push(' ') + joined(list.drop_first()));
    }
}

/// Words joined with spaces are split into the same words again.
pub proof fn joined_words_are_split_again(list: Seq<Seq<char>>)
    requires
        forall|i: int| 0 <= i < list.len() ==> is_word(#[trigger] list[i]),
    ensures
        words(joined(list)) == list,
    decreases list.len(),
{
    if list.len() == 0 {
        assert(words(joined(list)) =~= list);
    } else if list.len() == 1 {
        assert(is_word(list[0]));
        assert(list[0] + Seq::<char>::empty() =~= list[0]);
        a_word_in_front_is_split_off(list[0], Seq::<char>::empty());
        assert(words(joined(list)) =~= list);
    } else {
        lemma_joined_first(list);
        assert(is_word(list[0]));
        let others = list.drop_first();
        assert forall|i: int| 0 <= i < others.len() implies is_word(#[trigger] others[i]) by {
            assert(is_word(list[i + 1]));
        }
        joined_words_are_split_again(others);
        let rest = seq![' '] + joined(others);
        assert(joined(list) =~= list[0] + rest);
        a_word_in_front_is_split_off(list[0], rest);
        white_space_in_front_changes_no_word(seq![' '], joined(others));
        assert(words(joined(list)) =~= list);
    }
}

/// White space is the characters that Unicode gives the property `White_Space`:
/// the control characters from tab to carriage return and the next line, the
/// spaces of all widths, and the separators of lines and paragraphs.
pub proof fn white_space_is_these_characters(c: char)
    ensures
        whitespace(c) <==> seq![
            0x9u32, 0xa, 0xb, 0xc, 0xd, 0x20, 0x85, 0xa0, 0x1680, 0x2000, 0x2001, 0x2002, 0x2003,
            0x2004, 0x2005, 0x2006, 0x2007, 0x2008, 0x2009, 0x200a, 0x2028, 0x2029, 0x202f,
            0x205f, 0x3000,
        ].contains(c as u32),
{
    let all = seq![
        0x9u32, 0xa, 0xb, 0xc, 0xd, 0x20, 0x85, 0xa0, 0x1680, 0x2000, 0x2001, 0x2002, 0x2003,
        0x2004, 0x2005, 0x2006, 0x2007, 0x2008, 0x2009, 0x200a, 0x2028, 0x2029, 0x202f, 0x205f,
        0x3000,
    ];
    if whitespace(c) {
        let i: int = if c as u32 <= 0xd {
            c as u32 - 9
        } else if c == ' ' {
            5
        } else if c == '\u{85}' {
            6
        } else if c == '\u{a0}' {
            7
        } else if c == '\u{1680}' {
            8
        } else if c as u32 <= 0x200a {
            c as u32 - 0x2000 + 9
        } else if c == '\u{2028}' {
            20
        } else if c == '\u{2029}' {
            21
        } else if c == '\u{202f}' {
            22
        } else if c == '\u{205f}' {
            23
        } else {
            24
        };
        assert(all[i] == c as u32);
    }
}

/// White space in front of a text that does not start with it is exactly what
/// is trimmed at the start.
pub proof fn white_space_in_front_is_trimmed_at_the_start(before: Seq<char>, s: Seq<char>)
    requires
        all_whitespace(before),
        s.len() > 0 ==> !whitespace(s[0]),
    ensures
        trimmed_start(before + s) == s,
{
    lemma_start(before, s);
}

/// White space alone holds no word.
pub proof fn white_space_holds_no_word(s: Seq<char>)
    requires
        all_whitespace(s),
    ensures
        words(s) == Seq::<Seq<char>>::empty(),
{
    lemma_start(s, Seq::<char>::empty());
    assert(s + Seq::<char>::empty() =~= s);
}

/// Words are joined as they are, with one space between two of them and nothing
/// around them.
pub proof fn words_are_joined_with_one_space(front: Seq<Seq<char>>, back: Seq<Seq<char>>)
    ensures
        joined(Seq::<Seq<char>>::empty()) == Seq::<char>::empty(),
        front.len() == 1 ==> joined(front) == front[0],
        front.len() > 0 && back.len() > 0 ==> joined(front + back) == joined(front) + seq![' ']
            + joined(back),
    decreases back.len(),
{
    if front.len() > 0 && back.len() > 0 {
        let less = back.drop_last();
        assert((front + back).drop_last() =~= front + less);
        assert((front + back).last() == back.last());
        if less.len() > 0 {
            words_are_joined_with_one_space(front, less);
            assert(joined(front + back) =~= joined(front) + seq![' '] + joined(back));
        } else {
            assert(front + less =~= front);
            assert(joined(front + back) =~= joined(front) + seq![' '] + joined(back));
        }
    }
}

/// A line is as long as it is, where a line feed or nothing is behind it.
proof fn lemma_line_len(line: Seq<char>, rest: Seq<char>)
    requires
        no_line_feed(line),
        rest.len() > 0 ==> rest[0] == '\n',
    ensures
        line_len(line + rest) == line.len(),
    decreases line.len(),
{
    let text = line + rest;
    if line.len() > 0 {
        assert(text[0] == line[0]);
        assert forall|i: int| 0 <= i < line.drop_first().len() implies #[trigger] line.drop_first()[i]
            != '\n' by {
            assert(line[i + 1] != '\n');
        }
        lemma_line_len(line.drop_first(), rest);
        assert(text.drop_first() =~= line.drop_first() + rest);
    } else {
        assert(text =~= rest);
    }
}

/// A line ends at a line feed, or at a carriage return with a line feed behind
/// it, and is all that is in front of that; the last line may end without; and
/// no other line is there.
pub proof fn a_line_ends_at_a_line_feed(line: Seq<char>, rest: Seq<char>)
    requires
        no_line_feed(line),
    ensures
        lines(line + seq!['\r', '\n'] + rest) == seq![line] + lines(rest),
        (line.len() > 0 ==> line.last() != '\r') ==> lines(line + seq!['\n'] + rest) == seq![line]
            + lines(rest),
        line.len() > 0 ==> lines(line) == seq![line],
        lines(Seq::<char>::empty()) == Seq::<Seq<char>>::empty(),
{
    let feed = seq!['\n'] + rest;
    let longer = line.push('\r');
    let none = Seq::<char>::empty();
    lemma_line_len(line, none);
    assert(line + none =~= line);
    lemma_line_len(line, feed);
    assert(line + seq!['\n'] + rest =~= line + feed);
    assert((line + feed).take(line.len() as int) =~= line);
    assert((line + feed).skip(line.len() as int + 1) =~= rest);
    lemma_line_len(longer, feed);
    assert(line + seq!['\r', '\n'] + rest =~= longer + feed);
    assert((longer + feed).take(longer.len() as int) =~= longer);
    assert((longer + feed).skip(longer.len() as int + 1) =~= rest);
    assert(longer.drop_last() =~= line);
}

/// The number that decimal digits are.
pub open spec fn number(digits: Seq<char>) -> int
    decreases digits.len(),
{
    if digits.len() == 0 {
        0
    } else {
        number(digits.drop_last()) * 10 + (digits.last() as int - '0' as int)
    }
}

/// A number is written in decimal digits that are that number, without a zero in
/// front of it.
pub proof fn a_number_is_written_in_its_digits(n: nat)
    ensures
        number(decimal(n)) == n,
        decimal(n).len() > 0,
        n > 0 ==> decimal(n)[0] != '0',
        n == 0 ==> decimal(n).len() == 1,
        forall|i: int| 0 <= i < decimal(n).len() ==> '0' <= #[trigger] decimal(n)[i] <= '9',
    decreases n,
{
    reveal_with_fuel(number, 2);
    if n < 10 {
        assert(decimal(n).drop_last() =~= Seq::<char>::empty());
    } else {
        a_number_is_written_in_its_digits(n / 10);
        assert(decimal(n).drop_last() =~= decimal(n / 10));
    }
}

/// Every text is what trimming leaves of it, with white space around that.
pub proof fn a_text_is_what_trimming_leaves_in_white_space(s: Seq<char>) -> (around: (
    Seq<char>,
    Seq<char>,
))
    ensures
        all_whitespace(around.0),
        all_whitespace(around.1),
        s == around.0 + trimmed(s) + around.1,
        trimmed(s).len() > 0 ==> !whitespace(trimmed(s)[0]) && !whitespace(trimmed(s).last()),
{
    let rest = trimmed_start(s);
    lemma_trimmed_prefix(s);
    lemma_trimmed_start(s);
    let before = s.take(s.len() - rest.len());
    let behind = lemma_trimmed_suffix(rest);
    assert(s =~= before + rest);
    assert(s =~= before + trimmed(s) + behind);
    if trimmed(s).len() > 0 {
        assert(trimmed(s)[0] == rest[0]);
    }
    (before, behind)
}

/// What is trimmed at the end is white space.
proof fn lemma_trimmed_suffix(s: Seq<char>) -> (behind: Seq<char>)
    ensures
        all_whitespace(behind),
        s == trimmed_end(s) + behind,
        trimmed_end(s).len() > 0 ==> !whitespace(trimmed_end(s).last()),
    decreases s.len(),
{
    if s.len() > 0 && whitespace(s.last()) {
        let less = lemma_trimmed_suffix(s.drop_last());
        let behind = less.push(s.last());
        assert forall|i: int| 0 <= i < behind.len() implies whitespace(#[trigger] behind[i]) by {
            if i < less.len() {
                assert(whitespace(less[i]));
            }
        }
        assert(s =~= s.drop_last().push(s.last()));
        assert(s =~= trimmed_end(s) + behind);
        behind
    } else {
        assert(s =~= trimmed_end(s) + Seq::<char>::empty());
        Seq::<char>::empty()
    }
}

/// Every text is what is left of it without any `c` at its end, with some `c`
/// behind that.
pub proof fn a_text_is_what_is_left_and_trailing_characters(s: Seq<char>, c: char) -> (n: nat)
    ensures
        s == without_trailing(s, c) + Seq::new(n, |i: int| c),
        without_trailing(s, c).len() > 0 ==> without_trailing(s, c).last() != c,
    decreases s.len(),
{
    if s.len() > 0 && s.last() == c {
        let less = a_text_is_what_is_left_and_trailing_characters(s.drop_last(), c);
        assert(s =~= s.drop_last().push(c));
        assert(s =~= without_trailing(s, c) + Seq::new(less + 1, |i: int| c));
        less + 1
    } else {
        assert(s =~= without_trailing(s, c) + Seq::new(0, |i: int| c));
        0
    }
}

} // verus!
