//! Laws of an `authorized_keys` file: each line is a key, is passed over or
//! refuses the file by its number.

use vstd::prelude::*;

use crate::encoding::fully_padded;
use crate::gate::{keys_of_file, keys_of_lines, lemma_refusal_stays, passed_over};
use crate::key::{key_type, parsed_line, usable, KeyView, MaterialView};
use crate::laws::blob::{a_line_is_refused_for_its_first_fault, one_of_three};
use crate::laws::encoding::base64_holds_no_white_space;
use crate::laws::key::{
    a_key_that_is_parsed_is_whole, a_line_is_read_as_it_was_written, blob_of, lemma_key_types,
    measured,
};
use crate::laws::text::{
    a_word_in_front_is_split_off, all_whitespace, is_word, white_space_around_is_trimmed,
};
use crate::text::{
    decimal, joined, lemma_word_len, line_len, lines, trimmed, trimmed_start, whitespace,
    without_return, word_len, words,
};

verus! {

/// A line that does not refuse the file it stands in.
pub open spec fn line_is_read(line: Seq<char>) -> bool {
    passed_over(trimmed(line)) || parsed_line(trimmed(line)) is Ok
}

/// A file is read exactly where each of its lines is a key or passed over.
pub proof fn a_file_is_read_where_each_line_is(lines: Seq<Seq<char>>)
    ensures
        keys_of_lines(lines) is Ok <==> forall|i: int|
            0 <= i < lines.len() ==> line_is_read(#[trigger] lines[i]),
    decreases lines.len(),
{
    if lines.len() > 0 {
        let front = lines.drop_last();
        a_file_is_read_where_each_line_is(front);
        if forall|i: int| 0 <= i < lines.len() ==> line_is_read(#[trigger] lines[i]) {
            assert forall|i: int| 0 <= i < front.len() implies line_is_read(#[trigger] front[i]) by {
                assert(front[i] == lines[i]);
            }
            assert(line_is_read(lines[lines.len() - 1]));
        }
        if keys_of_lines(lines) is Ok {
            assert forall|i: int| 0 <= i < lines.len() implies line_is_read(#[trigger] lines[i]) by {
                if i < front.len() {
                    assert(front[i] == lines[i]);
                }
            }
        }
    }
}

/// The first line that is neither a key nor passed over refuses the file, by
/// its number and with what is wrong with it.
pub proof fn the_first_bad_line_is_named_by_its_number(
    before: Seq<Seq<char>>,
    line: Seq<char>,
    behind: Seq<Seq<char>>,
)
    requires
        keys_of_lines(before) is Ok,
        !line_is_read(line),
    ensures
        parsed_line(trimmed(line)) is Err,
        keys_of_lines(before + seq![line] + behind) == Err::<Seq<KeyView>, Seq<char>>(
            "line "@ + decimal(before.len() + 1) + ": "@ + parsed_line(trimmed(line))->Err_0,
        ),
{
    let all = before + seq![line] + behind;
    let upto = before + seq![line];
    assert(upto.drop_last() =~= before);
    assert(upto.last() == line);
    assert(all.take(upto.len() as int) =~= upto);
    lemma_refusal_stays(all, upto.len() as int);
}

/// The keys of a file are those of its first lines with those of the others
/// behind them.
pub proof fn the_keys_of_a_file_are_in_order(front: Seq<Seq<char>>, back: Seq<Seq<char>>)
    requires
        keys_of_lines(front) is Ok,
        keys_of_lines(back) is Ok,
    ensures
        keys_of_lines(front + back) == Ok::<Seq<KeyView>, Seq<char>>(
            keys_of_lines(front)->Ok_0 + keys_of_lines(back)->Ok_0,
        ),
    decreases back.len(),
{
    if back.len() > 0 {
        the_keys_of_a_file_are_in_order(front, back.drop_last());
        assert((front + back).drop_last() =~= front + back.drop_last());
        assert((front + back).last() == back.last());
        assert(keys_of_lines(front + back)->Ok_0 =~= keys_of_lines(front)->Ok_0 + keys_of_lines(
            back,
        )->Ok_0);
    } else {
        assert(front + back =~= front);
        assert(keys_of_lines(front)->Ok_0 + keys_of_lines(back)->Ok_0 =~= keys_of_lines(
            front,
        )->Ok_0);
    }
}

/// A blank line or a comment changes no key of a file, wherever it stands.
pub proof fn lines_passed_over_change_no_key(
    before: Seq<Seq<char>>,
    line: Seq<char>,
    behind: Seq<Seq<char>>,
)
    requires
        passed_over(trimmed(line)),
    ensures
        keys_of_lines(before + seq![line] + behind) is Ok <==> keys_of_lines(before + behind) is Ok,
        keys_of_lines(before + behind) is Ok ==> keys_of_lines(before + seq![line] + behind)
            == keys_of_lines(before + behind),
    decreases behind.len(),
{
    let with = before + seq![line] + behind;
    let without = before + behind;
    if behind.len() > 0 {
        lines_passed_over_change_no_key(before, line, behind.drop_last());
        assert(with.drop_last() =~= before + seq![line] + behind.drop_last());
        assert(without.drop_last() =~= before + behind.drop_last());
        assert(with.last() == behind.last() && without.last() == behind.last());
    } else {
        assert(with.drop_last() =~= before);
        assert(with.last() == line);
        assert(without =~= before);
    }
}

/// Each key of a file is whole and usable, and is authorized for any user.
pub proof fn the_keys_of_a_file_are_whole(lines: Seq<Seq<char>>)
    requires
        keys_of_lines(lines) is Ok,
    ensures
        forall|i: int|
            0 <= i < keys_of_lines(lines)->Ok_0.len() ==> {
                &&& (#[trigger] keys_of_lines(lines)->Ok_0[i]).well_formed()
                &&& keys_of_lines(lines)->Ok_0[i].user is None
            },
    decreases lines.len(),
{
    if lines.len() > 0 {
        the_keys_of_a_file_are_whole(lines.drop_last());
        let line = trimmed(lines.last());
        if !passed_over(line) {
            a_key_that_is_parsed_is_whole(line);
        }
    }
}

/// No line feed is among the characters.
pub open spec fn no_line_feed(s: Seq<char>) -> bool {
    forall|i: int| 0 <= i < s.len() ==> #[trigger] s[i] != '\n'
}

/// A line is as long as it is, where a line feed is behind it.
proof fn lemma_line(line: Seq<char>, rest: Seq<char>)
    requires
        no_line_feed(line),
    ensures
        line_len(line.push('\n') + rest) == line.len(),
    decreases line.len(),
{
    let text = line.push('\n') + rest;
    if line.len() > 0 {
        assert(line[0] != '\n');
        assert(text[0] == line[0]);
        assert forall|i: int| 0 <= i < line.drop_first().len() implies #[trigger] line.drop_first()[i]
            != '\n' by {
            assert(line[i + 1] != '\n');
        }
        lemma_line(line.drop_first(), rest);
        assert(text.drop_first() =~= line.drop_first().push('\n') + rest);
    } else {
        assert(text[0] == '\n');
    }
}

/// The first line of a text, and the lines behind it.
pub proof fn a_line_in_front_is_split_off(line: Seq<char>, rest: Seq<char>)
    requires
        no_line_feed(line),
    ensures
        lines(line.push('\n') + rest) == seq![without_return(line)] + lines(rest),
{
    let text = line.push('\n') + rest;
    lemma_line(line, rest);
    assert(text.take(line.len() as int) =~= line);
    assert(text.skip(line.len() as int + 1) =~= rest);
}

/// Words joined with spaces hold no white space but those, and neither start
/// nor end with one.
proof fn lemma_joined(list: Seq<Seq<char>>)
    requires
        list.len() > 0,
        forall|i: int| 0 <= i < list.len() ==> is_word(#[trigger] list[i]),
    ensures
        joined(list).len() > 0,
        joined(list)[0] == list[0][0],
        !whitespace(joined(list)[0]),
        !whitespace(joined(list).last()),
        forall|i: int|
            0 <= i < joined(list).len() ==> whitespace(#[trigger] joined(list)[i]) ==> joined(
                list,
            )[i] == ' ',
    decreases list.len(),
{
    assert(is_word(list[0]));
    assert(is_word(list[list.len() - 1]));
    if list.len() > 1 {
        let front = list.drop_last();
        assert forall|i: int| 0 <= i < front.len() implies is_word(#[trigger] front[i]) by {
            assert(front[i] == list[i]);
        }
        lemma_joined(front);
        let before = joined(front).push(' ');
        assert forall|i: int| 0 <= i < joined(list).len() && whitespace(
            #[trigger] joined(list)[i],
        ) implies joined(list)[i] == ' ' by {
            if i < joined(front).len() {
                assert(joined(list)[i] == joined(front)[i]);
            } else if i >= before.len() {
                assert(joined(list)[i] == list.last()[i - before.len()]);
            }
        }
        assert(joined(list).last() == list.last().last());
    }
}

/// One key and the words of its comment, as a line of a file.
pub struct Entry {
    pub material: MaterialView,
    pub comment: Seq<Seq<char>>,
}

impl Entry {
    /// The key can be written and read, and the comment is made of words.
    pub open spec fn can_be_written(self) -> bool {
        &&& measured(self.material)
        &&& usable(self.material)
        &&& forall|i: int| 0 <= i < self.comment.len() ==> is_word(#[trigger] self.comment[i])
    }

    /// The line, written.
    pub open spec fn line(self) -> Seq<char> {
        joined(
            seq![key_type(self.material), fully_padded(blob_of(self.material))] + self.comment,
        )
    }

    /// The key that the line is.
    pub open spec fn key(self) -> KeyView {
        KeyView {
            blob: blob_of(self.material),
            material: self.material,
            user: None,
            comment: joined(self.comment),
        }
    }
}

/// The text of a file with one key a line.
pub open spec fn file_of(entries: Seq<Entry>) -> Seq<char>
    decreases entries.len(),
{
    if entries.len() == 0 {
        seq![]
    } else {
        entries[0].line().push('\n') + file_of(entries.drop_first())
    }
}

/// The line of an entry is one line, is trimmed already, and is read as the
/// entry's key.
proof fn lemma_entry(entry: Entry)
    requires
        entry.can_be_written(),
    ensures
        no_line_feed(entry.line()),
        without_return(entry.line()) == entry.line(),
        keys_of_lines(seq![entry.line()]) == Ok::<Seq<KeyView>, Seq<char>>(seq![entry.key()]),
{
    let blob = blob_of(entry.material);
    let list = seq![key_type(entry.material), fully_padded(blob)] + entry.comment;
    let line = entry.line();
    let none = Seq::<char>::empty();
    lemma_key_types();
    base64_holds_no_white_space(blob);
    assert forall|i: int| 0 <= i < list.len() implies is_word(#[trigger] list[i]) by {
        if i >= 2 {
            assert(list[i] == entry.comment[i - 2]);
        }
    }
    lemma_joined(list);
    assert forall|i: int| 0 <= i < line.len() implies #[trigger] line[i] != '\n' by {
        assert(whitespace('\n'));
    }
    assert(whitespace('\r'));
    white_space_around_is_trimmed(none, line, none);
    assert(none + line + none =~= line);
    a_line_is_read_as_it_was_written(entry.material, entry.comment);
    let alone = seq![line];
    assert(alone.drop_last() =~= seq![]);
    assert(keys_of_lines(alone.drop_last())->Ok_0 =~= seq![]);
    assert(line[0] != '#');
    assert(keys_of_lines(alone)->Ok_0 =~= seq![entry.key()]);
}

/// A file of keys, one a line, is read back as those keys in that order.
pub proof fn a_file_is_read_as_it_was_written(entries: Seq<Entry>)
    requires
        forall|i: int| 0 <= i < entries.len() ==> (#[trigger] entries[i]).can_be_written(),
    ensures
        keys_of_file(file_of(entries)) == Ok::<Seq<KeyView>, Seq<char>>(
            entries.map_values(|entry: Entry| entry.key()),
        ),
    decreases entries.len(),
{
    let keys = entries.map_values(|entry: Entry| entry.key());
    if entries.len() > 0 {
        let others = entries.drop_first();
        let first = entries[0];
        assert forall|i: int| 0 <= i < others.len() implies (#[trigger] others[i]).can_be_written() by {
            assert(others[i] == entries[i + 1]);
        }
        a_file_is_read_as_it_was_written(others);
        lemma_entry(first);
        a_line_in_front_is_split_off(first.line(), file_of(others));
        the_keys_of_a_file_are_in_order(seq![first.line()], lines(file_of(others)));
        assert(keys =~= seq![first.key()] + others.map_values(|entry: Entry| entry.key()));
    } else {
        assert(keys =~= seq![]);
        assert(lines(file_of(entries)) =~= seq![]);
    }
}

/// A line is passed over exactly where it is empty or starts with `#`, once the
/// white space around it is taken off.
pub proof fn only_blank_lines_and_comments_are_passed_over(line: Seq<char>)
    ensures
        passed_over(line) <==> line == Seq::<char>::empty() || (exists|rest: Seq<char>|
            line == #[trigger] (seq!['#'] + rest)),
{
    if line.len() == 0 {
        assert(line =~= Seq::<char>::empty());
    } else if line[0] == '#' {
        assert(line =~= seq!['#'] + line.drop_first());
    }
    if exists|rest: Seq<char>| line == #[trigger] (seq!['#'] + rest) {
        let rest = choose|rest: Seq<char>| line == #[trigger] (seq!['#'] + rest);
        assert(line[0] == '#');
    }
}

/// A file is what its lines are.
pub proof fn a_file_is_its_lines(text: Seq<char>)
    ensures
        keys_of_file(text) == keys_of_lines(lines(text)),
        keys_of_lines(Seq::<Seq<char>>::empty()) == Ok::<Seq<KeyView>, Seq<char>>(
            Seq::<KeyView>::empty(),
        ),
{
    assert(keys_of_lines(Seq::<Seq<char>>::empty())->Ok_0 =~= Seq::<KeyView>::empty());
}

/// A line that is a key and no comment adds that key, and only that, where it
/// stands.
pub proof fn a_line_that_is_a_key_adds_that_key(
    before: Seq<Seq<char>>,
    line: Seq<char>,
    behind: Seq<Seq<char>>,
    key: KeyView,
)
    requires
        keys_of_lines(before) is Ok,
        keys_of_lines(behind) is Ok,
        parsed_line(trimmed(line)) == Ok::<KeyView, Seq<char>>(key),
    ensures
        keys_of_lines(before + seq![line] + behind) == Ok::<Seq<KeyView>, Seq<char>>(
            keys_of_lines(before)->Ok_0 + seq![key] + keys_of_lines(behind)->Ok_0,
        ),
{
    let alone = seq![line];
    lemma_a_key_is_no_comment(trimmed(line));
    assert(alone.drop_last() =~= seq![]);
    assert(keys_of_lines(alone.drop_last())->Ok_0 =~= seq![]);
    assert(keys_of_lines(alone)->Ok_0 =~= seq![key]);
    the_keys_of_a_file_are_in_order(before, alone);
    the_keys_of_a_file_are_in_order(before + alone, behind);
}

/// A line that is a key is not passed over.
proof fn lemma_a_key_is_no_comment(line: Seq<char>)
    requires
        parsed_line(line) is Ok,
    ensures
        !passed_over(line),
{
    lemma_key_types();
    reveal_with_fuel(words, 2);
    if line.len() > 0 && line[0] == '#' {
        lemma_word_len(line);
        assert(trimmed_start(line) == line);
        assert(words(line)[0] == line.take(word_len(line) as int));
        assert(words(line)[0][0] == '#');
    }
}

/// A file with a line that starts with anything but one of the three key types
/// and is no comment is refused by the number of that line and by what it starts
/// with: a key behind options is never read, nor passed over.
pub proof fn a_file_with_options_is_refused(
    before: Seq<Seq<char>>,
    around: (Seq<char>, Seq<char>),
    word: Seq<char>,
    rest: Seq<char>,
    behind: Seq<Seq<char>>,
)
    requires
        keys_of_lines(before) is Ok,
        all_whitespace(around.0),
        all_whitespace(around.1),
        is_word(word),
        word[0] != '#',
        !one_of_three(word),
        rest.len() > 0 ==> whitespace(rest[0]) && !whitespace(rest.last()),
    ensures
        keys_of_lines(before + seq![around.0 + (word + rest) + around.1] + behind) == Err::<
            Seq<KeyView>,
            Seq<char>,
        >(
            "line "@ + decimal(before.len() + 1) + ": "@ + (
            "the authorized key line starts with '"@ + word
                + "': options are not enforced here and are refused, and the key types verified are ssh-ed25519, ecdsa-sha2-nistp256 and ssh-rsa"@),
        ),
{
    let text = word + rest;
    let line = around.0 + text + around.1;
    assert(!whitespace(word[0]) && text[0] == word[0]);
    if rest.len() > 0 {
        assert(text.last() == rest.last());
    } else {
        assert(text =~= word);
        assert(!whitespace(word[word.len() - 1]));
    }
    white_space_around_is_trimmed(around.0, text, around.1);
    a_word_in_front_is_split_off(word, rest);
    a_line_is_refused_for_its_first_fault(text, seq![]);
    assert(words(text)[0] == word);
    the_first_bad_line_is_named_by_its_number(before, line, behind);
}

/// A file is read exactly where each of its lines, once trimmed, is empty or a
/// comment, or is a key.
pub proof fn a_file_is_read_where_each_line_is_a_key_or_none(text: Seq<char>)
    ensures
        keys_of_file(text) is Ok <==> forall|i: int|
            0 <= i < lines(text).len() ==> {
                let line = trimmed(#[trigger] lines(text)[i]);
                line.len() == 0 || line[0] == '#' || parsed_line(line) is Ok
            },
{
    let all = lines(text);
    a_file_is_read_where_each_line_is(all);
    if keys_of_file(text) is Ok {
        assert forall|i: int| 0 <= i < all.len() implies {
            let line = trimmed(#[trigger] all[i]);
            line.len() == 0 || line[0] == '#' || parsed_line(line) is Ok
        } by {
            assert(line_is_read(all[i]));
        }
    }
}

} // verus!
