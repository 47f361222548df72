//! The backing store's format: the document's lines one after the other,
//! each ended by a line break.
use crate::text::contents;
use crate::text::string_of;
use vstd::prelude::*;

verus! {

/// The lines one after the other, each followed by a line break.
pub open spec fn joined(lines: Seq<Seq<char>>) -> Seq<char>
    decreases lines.len(),
{
    if lines.len() == 0 {
        Seq::empty()
    } else {
        lines[0].push('\n') + joined(lines.drop_first())
    }
}

/// A line as it is read: without the carriage return that stood before its
/// line break.
pub open spec fn without_return(line: Seq<char>) -> Seq<char> {
    if line.len() > 0 && line.last() == '\r' {
        line.drop_last()
    } else {
        line
    }
}

/// The lines of `content` from index `i` on, where `current` holds what has
/// been read of the line at hand.
pub open spec fn split_from(content: Seq<char>, i: int, current: Seq<char>) -> Seq<Seq<char>>
    decreases content.len() - i,
{
    if i < 0 || i >= content.len() {
        if current.len() > 0 {
            seq![current]
        } else {
            Seq::empty()
        }
    } else if content[i] == '\n' {
        seq![without_return(current)] + split_from(content, i + 1, Seq::empty())
    } else {
        split_from(content, i + 1, current.push(content[i]))
    }
}

/// The lines of `content`: what stands between its line breaks, each without
/// a carriage return at its end, and what follows the last line break where
/// that is not empty.
pub open spec fn split(content: Seq<char>) -> Seq<Seq<char>> {
    split_from(content, 0, Seq::empty())
}

/// Whether a line comes back from the backing store as it went in: it holds
/// no line break and does not end in a carriage return.
pub open spec fn storable(line: Seq<char>) -> bool {
    !line.contains('\n') && (line.len() > 0 ==> line.last() != '\r')
}

/// One more line adds its characters and a line break at the end.
pub proof fn lemma_joined_push(lines: Seq<Seq<char>>, line: Seq<char>)
    ensures
        joined(lines.push(line)) == joined(lines) + line.push('\n'),
    decreases lines.len(),
{
    if lines.len() == 0 {
        let none = Seq::<Seq<char>>::empty();
        assert(lines.push(line).drop_first() =~= none);
        assert(lines =~= none);
        assert(joined(none) =~= Seq::empty());
        assert(joined(lines.push(line)) =~= line.push('\n') + joined(none));
        assert(joined(lines.push(line)) =~= joined(lines) + line.push('\n'));
    } else {
        assert(lines.push(line).drop_first() =~= lines.drop_first().push(line));
        lemma_joined_push(lines.drop_first(), line);
        assert(joined(lines.push(line)) =~= joined(lines) + line.push('\n'));
    }
}

/// Reading goes on in what follows a prefix as it would in that alone.
proof fn lemma_split_after(prefix: Seq<char>, rest: Seq<char>, j: int, current: Seq<char>)
    requires
        0 <= j <= rest.len(),
    ensures
        split_from(prefix + rest, prefix.len() + j, current) == split_from(rest, j, current),
    decreases rest.len() - j,
{
    if j < rest.len() {
        assert((prefix + rest)[prefix.len() + j] == rest[j]);
        if rest[j] == '\n' {
            lemma_split_after(prefix, rest, j + 1, Seq::empty());
        } else {
            lemma_split_after(prefix, rest, j + 1, current.push(rest[j]));
        }
    }
}

/// A storable line and its line break are read as that line, and reading goes
/// on behind them.
proof fn lemma_split_line(line: Seq<char>, rest: Seq<char>, i: int)
    requires
        storable(line),
        0 <= i <= line.len(),
    ensures
        split_from(line.push('\n') + rest, i, line.take(i)) == seq![line] + split(rest),
    decreases line.len() - i,
{
    let content = line.push('\n') + rest;
    if i < line.len() {
        assert(content[i] == line[i]);
        assert(line.contains(line[i]));
        assert(line.take(i).push(line[i]) =~= line.take(i + 1));
        lemma_split_line(line, rest, i + 1);
    } else {
        assert(content[i] == '\n');
        assert(line.take(i) =~= line);
        lemma_split_after(line.push('\n'), rest, 0, Seq::empty());
    }
}

/// What was written is read back as it was: the lines of a document's
/// content are the document's lines, where each of them is storable.
pub proof fn law_round_trip(lines: Seq<Seq<char>>)
    requires
        forall|i: int| 0 <= i < lines.len() ==> storable(#[trigger] lines[i]),
    ensures
        split(joined(lines)) == lines,
    decreases lines.len(),
{
    if lines.len() == 0 {
        assert(split(joined(lines)) =~= lines);
    } else {
        law_round_trip(lines.drop_first());
        lemma_split_line(lines[0], joined(lines.drop_first()), 0);
        assert(lines[0].take(0) =~= Seq::empty());
        assert(seq![lines[0]] + lines.drop_first() =~= lines);
    }
}

/// Reads the lines of `content`.
pub fn split_lines(content: &str) -> (lines: Vec<String>)
    ensures
        contents(lines@) == split(content@),
        forall|i: int| 0 <= i < lines@.len() ==> !(#[trigger] lines@[i])@.contains('\n'),
{
    let mut lines: Vec<String> = Vec::new();
    let mut current: Vec<char> = Vec::new();
    let ghost mut done: int = 0;
    for c in it: content.chars()
        invariant
            it.seq() == content@,
            done == it.index(),
            0 <= done <= content@.len(),
            split(content@) == contents(lines@) + split_from(content@, done, current@),
            !current@.contains('\n'),
            forall|i: int| 0 <= i < lines@.len() ==> !(#[trigger] lines@[i])@.contains('\n'),
    {
        if c == '\n' {
            let n = current.len();
            if n > 0 && current[n - 1] == '\r' {
                current.pop();
            }
            let ghost read = current@;
            let line = string_of(&current);
            proof {
                let before = lines@;
                assert(contents(before.push(line)) =~= contents(before) + seq![read]);
                assert forall|k: int| 0 <= k < read.len() implies read[k] != '\n' by {
                    assert(read[k] != '\n');
                }
            }
            lines.push(line);
            current = Vec::new();
        } else {
            proof {
                let before = current@;
                assert forall|k: int| 0 <= k < before.push(c).len() implies before.push(c)[k]
                    != '\n' by {
                    if k < before.len() {
                        assert(before.contains(before[k]));
                    }
                }
            }
            current.push(c);
        }
        proof {
            done = done + 1;
        }
    }
    if current.len() > 0 {
        let line = string_of(&current);
        proof {
            let before = lines@;
            assert(contents(before.push(line)) =~= contents(before) + seq![current@]);
        }
        lines.push(line);
    } else {
        assert(contents(lines@) + Seq::<Seq<char>>::empty() =~= contents(lines@));
    }
    lines
}

} // verus!
