//! The file of a saved session: plain text, one line for each window, holding the window's
//! index, its name and its layout, separated by white space.

use vstd::prelude::*;
use vstd::std_specs::iter::IteratorSpec;
use crate::command::{new_window_command, select_layout_command, with_argument};
use crate::strings::texts;

verus! {

/// Whether the character is white space, as Unicode defines it.
pub open spec fn is_space(c: char) -> bool {
    let code = c as u32;
    ||| 0x09 <= code <= 0x0d
    ||| code == 0x20
    ||| code == 0x85
    ||| code == 0xa0
    ||| code == 0x1680
    ||| 0x2000 <= code <= 0x200a
    ||| code == 0x2028
    ||| code == 0x2029
    ||| code == 0x202f
    ||| code == 0x205f
    ||| code == 0x3000
}

/// The lines of a text: the stretches between its line feeds. A text without a line feed is
/// one line, and a line feed at the very end is followed by one empty line.
pub open spec fn lines_of(text: Seq<char>) -> Seq<Seq<char>>
    decreases text.len(),
{
    if text.len() == 0 {
        seq![Seq::<char>::empty()]
    } else {
        let before = lines_of(text.drop_last());
        if text.last() == '\n' {
            before.push(Seq::<char>::empty())
        } else {
            before.drop_last().push(before.last().push(text.last()))
        }
    }
}

/// The words of a line: its longest stretches without white space, left to right.
pub open spec fn words_of(line: Seq<char>) -> Seq<Seq<char>>
    decreases line.len(),
{
    if line.len() == 0 {
        Seq::empty()
    } else {
        let before = words_of(line.drop_last());
        if is_space(line.last()) {
            before
        } else if line.len() >= 2 && !is_space(line[line.len() - 2]) {
            before.drop_last().push(before.last().push(line.last()))
        } else {
            before.push(seq![line.last()])
        }
    }
}

/// The commands that restore the window of one line: a line of at least three words is a
/// record, whose second word names the window and whose third is its layout; any other
/// line restores nothing.
pub open spec fn line_commands(line: Seq<char>) -> Seq<Seq<char>> {
    let words = words_of(line);
    if words.len() >= 3 {
        seq![
            with_argument("new-window -n "@, words[1]),
            with_argument("select-layout "@, words[2]),
        ]
    } else {
        Seq::empty()
    }
}

/// The commands that restore the windows of several lines, line after line.
pub open spec fn lines_commands(lines: Seq<Seq<char>>) -> Seq<Seq<char>>
    decreases lines.len(),
{
    if lines.len() == 0 {
        Seq::empty()
    } else {
        lines_commands(lines.drop_last()) + line_commands(lines.last())
    }
}

/// The commands that restore a saved session, in the order of its lines.
pub open spec fn session_commands(text: Seq<char>) -> Seq<Seq<char>> {
    lines_commands(lines_of(text))
}

/// A word: at least one character, and no white space in it.
pub open spec fn is_word(word: Seq<char>) -> bool {
    word.len() > 0 && forall|i: int| 0 <= i < word.len() ==> !is_space(#[trigger] word[i])
}

/// Whether a text is free of line feeds, as a single line is.
pub open spec fn single_line(line: Seq<char>) -> bool {
    forall|i: int| 0 <= i < line.len() ==> #[trigger] line[i] != '\n'
}

/// The line of a record: its three words, a space between them.
pub open spec fn record_line(index: Seq<char>, name: Seq<char>, layout: Seq<char>) -> Seq<char> {
    index + seq![' '] + name + seq![' '] + layout
}

/// The text of a file that holds the given lines, each followed by a line feed.
pub open spec fn file_of(lines: Seq<Seq<char>>) -> Seq<char>
    decreases lines.len(),
{
    if lines.len() == 0 {
        Seq::empty()
    } else {
        file_of(lines.drop_last()) + lines.last().push('\n')
    }
}

/// Text without a line feed, added to a text, lengthens its last line.
proof fn lemma_lines_of_extended(text: Seq<char>, more: Seq<char>)
    requires
        single_line(more),
    ensures
        lines_of(text).len() > 0,
        lines_of(text + more) == lines_of(text).drop_last().push(lines_of(text).last() + more),
    decreases more.len(),
{
    lemma_lines_nonempty(text);
    if more.len() == 0 {
        assert(text + more =~= text);
        assert(lines_of(text).last() + more =~= lines_of(text).last());
        assert(lines_of(text).drop_last().push(lines_of(text).last()) =~= lines_of(text));
    } else {
        let front = more.drop_last();
        lemma_lines_of_extended(text, front);
        assert((text + more).drop_last() =~= text + front);
        assert((text + more).last() == more.last());
        let before = lines_of(text + front);
        assert(before.last() == lines_of(text).last() + front);
        assert(before.last().push(more.last()) =~= lines_of(text).last() + more);
        assert(before.drop_last() =~= lines_of(text).drop_last());
    }
}

/// Every text has at least one line.
proof fn lemma_lines_nonempty(text: Seq<char>)
    ensures
        lines_of(text).len() > 0,
    decreases text.len(),
{
    if text.len() > 0 {
        lemma_lines_nonempty(text.drop_last());
    }
}

/// The lines of a file are the lines it was written from, and one empty line after the
/// last line feed.
pub proof fn lemma_lines_of_file(lines: Seq<Seq<char>>)
    requires
        forall|i: int| 0 <= i < lines.len() ==> single_line(#[trigger] lines[i]),
    ensures
        lines_of(file_of(lines)) == lines.push(Seq::<char>::empty()),
    decreases lines.len(),
{
    if lines.len() == 0 {
        assert(lines_of(file_of(lines)) =~= lines.push(Seq::<char>::empty()));
    } else {
        let front = lines.drop_last();
        let last = lines.last();
        lemma_lines_of_file(front);
        lemma_lines_of_extended(file_of(front), last);
        let text = file_of(front) + last;
        assert(file_of(lines) =~= text.push('\n'));
        assert(text.push('\n').drop_last() =~= text);
        assert(front.push(Seq::<char>::empty()).drop_last() =~= front);
        assert(Seq::<char>::empty() + last =~= last);
        assert(front.push(last) =~= lines);
    }
}

/// A word that follows the start of a line or white space is the line's next word.
proof fn lemma_words_of_appended(line: Seq<char>, word: Seq<char>)
    requires
        line.len() == 0 || is_space(line.last()),
        is_word(word),
    ensures
        words_of(line + word) == words_of(line).push(word),
    decreases word.len(),
{
    let front = word.drop_last();
    let c = word.last();
    assert((line + word).drop_last() =~= line + front);
    assert((line + word).last() == c);
    if front.len() == 0 {
        assert(line + front =~= line);
        assert(word =~= seq![c]);
    } else {
        assert(is_word(front)) by {
            assert forall|i: int| 0 <= i < front.len() implies !is_space(#[trigger] front[i]) by {
                assert(front[i] == word[i]);
            }
        }
        lemma_words_of_appended(line, front);
        assert((line + word)[(line + word).len() - 2] == front.last());
        assert(front.last() == word[word.len() - 2]);
        assert(words_of(line).push(front).drop_last() =~= words_of(line));
        assert(front.push(c) =~= word);
    }
}

/// The line of a record has the record's three words as its words, so it restores the
/// record's window under its name and gives it its layout.
pub proof fn lemma_record_line(index: Seq<char>, name: Seq<char>, layout: Seq<char>)
    requires
        is_word(index),
        is_word(name),
        is_word(layout),
    ensures
        single_line(record_line(index, name, layout)),
        words_of(record_line(index, name, layout)) == seq![index, name, layout],
        line_commands(record_line(index, name, layout)) == seq![
            with_argument("new-window -n "@, name),
            with_argument("select-layout "@, layout),
        ],
{
    let empty = Seq::<char>::empty();
    assert(words_of(empty) =~= Seq::<Seq<char>>::empty());
    lemma_words_of_appended(empty, index);
    assert(empty + index =~= index);
    let first = index.push(' ');
    assert(first.drop_last() =~= index);
    assert(words_of(first) == words_of(index));
    lemma_words_of_appended(first, name);
    let second = (first + name).push(' ');
    assert(second.drop_last() =~= first + name);
    assert(words_of(second) == words_of(first + name));
    lemma_words_of_appended(second, layout);
    assert(record_line(index, name, layout) =~= second + layout);
    assert(words_of(second + layout) =~= seq![index, name, layout]);
    let line = record_line(index, name, layout);
    assert forall|i: int| 0 <= i < line.len() implies #[trigger] line[i] != '\n' by {
        if i < index.len() {
            assert(line[i] == index[i]);
        } else if i == index.len() {
        } else if i < index.len() + 1 + name.len() {
            assert(line[i] == name[i - index.len() - 1]);
        } else if i == index.len() + 1 + name.len() {
        } else {
            assert(line[i] == layout[i - index.len() - name.len() - 2]);
        }
    }
}

/// Loading what was saved restores, line for line, what the lines of the file describe:
/// the commands of a file are those of its lines, in order. A line that is no record has no
/// commands, so it is passed over and the lines after it are still restored.
pub proof fn lemma_commands_of_file(lines: Seq<Seq<char>>)
    requires
        forall|i: int| 0 <= i < lines.len() ==> single_line(#[trigger] lines[i]),
    ensures
        session_commands(file_of(lines)) == lines_commands(lines),
{
    lemma_lines_of_file(lines);
    let all = lines.push(Seq::<char>::empty());
    assert(all.drop_last() =~= lines);
    assert(words_of(Seq::<char>::empty()) =~= Seq::<Seq<char>>::empty());
    assert(lines_commands(all) =~= lines_commands(lines));
}

/// A line of fewer than three words restores nothing, whatever else it holds.
pub proof fn lemma_short_line(line: Seq<char>)
    requires
        words_of(line).len() < 3,
    ensures
        line_commands(line) == Seq::<Seq<char>>::empty(),
{
}

/// Whether the character is white space.
pub fn is_whitespace(c: char) -> (space: bool)
    ensures
        space == is_space(c),
{
    let code: u32 = c as u32;
    (0x09 <= code && code <= 0x0d) || code == 0x20 || code == 0x85 || code == 0xa0 || code
        == 0x1680 || (0x2000 <= code && code <= 0x200a) || code == 0x2028 || code == 0x2029
        || code == 0x202f || code == 0x205f || code == 0x3000
}

/// The words of a line that has been read up to some point: the finished ones, and the
/// one under way, which is empty where the line is empty or ends in white space.
spec fn words_so_far(finished: Seq<Seq<char>>, current: Seq<char>, line: Seq<char>) -> bool {
    if line.len() == 0 || is_space(line.last()) {
        current.len() == 0 && finished == words_of(line)
    } else {
        current.len() > 0 && finished.push(current) == words_of(line)
    }
}

/// Adds to `commands` those that restore the window of a line, given the line's words.
fn push_line_commands(
    commands: &mut Vec<String>,
    finished: Vec<String>,
    current: String,
    Ghost(line): Ghost<Seq<char>>,
)
    requires
        words_so_far(texts(finished@), current@, line),
    ensures
        texts(final(commands)@) == texts(old(commands)@) + line_commands(line),
{
    let mut words = finished;
    if current.as_str().unicode_len() > 0 {
        words.push(current);
        assert(texts(words@) =~= texts(finished@).push(current@));
    }
    assert(texts(words@) == words_of(line));
    if words.len() >= 3 {
        commands.push(new_window_command(words[1].as_str()));
        commands.push(select_layout_command(words[2].as_str()));
    }
    assert(texts(commands@) =~= texts(old(commands)@) + line_commands(line));
}

/// The commands that restore a saved session: for each record of the text, in order, the
/// command that creates its window and the command that gives it its layout.
pub fn restore_commands(config: &str) -> (commands: Vec<String>)
    ensures
        texts(commands@) == session_commands(config@),
{
    let mut commands: Vec<String> = Vec::new();
    let mut finished: Vec<String> = Vec::new();
    let mut current = String::new();
    let ghost mut done: Seq<Seq<char>> = Seq::empty();
    let ghost mut line: Seq<char> = Seq::empty();
    proof {
        assert(config@.take(0) =~= Seq::<char>::empty());
        assert(lines_of(config@.take(0)) =~= done.push(line));
        assert(texts(commands@) =~= lines_commands(done));
        assert(texts(finished@) =~= words_of(line));
    }
    for c in it: config.chars()
        invariant
            it.seq() == config@,
            lines_of(config@.take(it.index() as int)) == done.push(line),
            texts(commands@) == lines_commands(done),
            words_so_far(texts(finished@), current@, line),
    {
        let ghost read = config@.take(it.index() as int);
        let ghost next = config@.take(it.index() + 1);
        proof {
            assert(next.drop_last() =~= read);
            assert(next.last() == c);
            assert(done.push(line).drop_last() =~= done);
        }
        if c == '\n' {
            push_line_commands(&mut commands, finished, current, Ghost(line));
            finished = Vec::new();
            current = String::new();
            proof {
                assert(done.push(line).drop_last() =~= done);
                done = done.push(line);
                line = Seq::empty();
                assert(texts(finished@) =~= words_of(line));
            }
        } else if is_whitespace(c) {
            if current.as_str().unicode_len() > 0 {
                let ghost before = texts(finished@);
                finished.push(current);
                current = String::new();
                proof {
                    assert(texts(finished@) =~= before.push(finished@.last()@));
                }
            }
            proof {
                assert(line.push(c).drop_last() =~= line);
                line = line.push(c);
            }
        } else {
            current.push(c);
            proof {
                let longer = line.push(c);
                assert(longer.drop_last() =~= line);
                if line.len() > 0 && !is_space(line.last()) {
                    let words = words_of(line);
                    assert(words_of(longer) == words.drop_last().push(words.last().push(c)));
                    assert(words.drop_last() =~= texts(finished@));
                    assert(words_of(longer) =~= texts(finished@).push(current@));
                } else {
                    assert(current@ =~= seq![c]);
                }
                line = longer;
            }
        }
    }
    proof {
        assert(config@.take(config@.len() as int) =~= config@);
        assert(done.push(line).drop_last() =~= done);
    }
    push_line_commands(&mut commands, finished, current, Ghost(line));
    commands
}

} // verus!
