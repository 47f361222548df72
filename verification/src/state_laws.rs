//! What holds of the session whatever command it is given: a command
//! changes the text by changes of the buffer alone, each of which raises the
//! revision, and a command that is none of the text's leaves the text alone.
use crate::backing::law_round_trip;
use crate::backing::split;
use crate::backing::storable;
use crate::state::Command;
use crate::state::Mode;
use crate::state::StateModel;
use crate::text::TextModel;
use crate::text_laws::TextOp;
use vstd::prelude::*;

verus! {

impl StateModel {
    /// The changes that a command makes to the buffer, in order.
    pub open spec fn text_ops(self, c: Command) -> Seq<TextOp> {
        let ln = self.cursor_pos.line_number;
        let col = self.cursor_pos.colmun as int;
        if self.mode != Mode::Insert {
            Seq::empty()
        } else {
            match c {
                Command::InsertAtCursor(ch) => {
                    let whole = if ln < self.text.lines.len() {
                        self.text.lines[ln as int].content
                    } else {
                        Seq::empty()
                    };
                    if ch == '\n' {
                        seq![
                            TextOp::Populate { n: ln, content: whole.take(col) },
                            TextOp::Insert { n: (ln + 1) as usize, content: whole.skip(col) },
                        ]
                    } else {
                        seq![TextOp::Populate { n: ln, content: whole.insert(col, ch) }]
                    }
                },
                Command::DeleteAtCursor => {
                    if col > 0 {
                        seq![
                            TextOp::Edit {
                                n: ln,
                                content: self.text.lines[ln as int].content.remove(col - 1),
                            },
                        ]
                    } else if ln == 0 {
                        if self.text.lines.len() == 1 && self.text.lines[0].content.len() == 0 {
                            seq![TextOp::Remove { n: 0 }]
                        } else {
                            Seq::empty()
                        }
                    } else {
                        seq![
                            TextOp::Remove { n: ln },
                            TextOp::Edit {
                                n: (ln - 1) as usize,
                                content: self.text.lines[ln - 1].content
                                    + self.text.lines[ln as int].content,
                            },
                        ]
                    }
                },
                _ => Seq::empty(),
            }
        }
    }

    /// A command changes the text by the changes of `text_ops`, which the
    /// buffer admits, and by nothing else.
    pub proof fn law_step_changes_text_by_ops(self, c: Command)
        requires
            self.valid(),
            self.has_room(),
        ensures
            self.text.admits_all(self.text_ops(c)),
            self.step(c).text == self.text.apply_all(self.text_ops(c)),
    {
        let ops = self.text_ops(c);
        if ops.len() == 0 {
        } else if ops.len() == 1 {
            let after = self.text.apply(ops[0]);
            assert(self.text.admits(ops[0]));
            assert(ops.drop_first().len() == 0);
            assert(after.admits_all(ops.drop_first()));
            assert(after.apply_all(ops.drop_first()) == after);
            if c is InsertAtCursor {
                if self.text.lines.len() == 0 {
                    assert(self.text.populated(0).lines[0].content =~= Seq::empty());
                }
            }
        } else {
            let first = self.text.apply(ops[0]);
            assert(self.text.admits(ops[0]));
            let rest = ops.drop_first();
            assert(rest.len() == 1);
            assert(rest[0] == ops[1]);
            let second = first.apply(rest[0]);
            assert(rest.drop_first().len() == 0);
            assert(second.admits_all(rest.drop_first()));
            assert(second.apply_all(rest.drop_first()) == second);
            assert(first.apply_all(rest) == second);
            if c is InsertAtCursor {
                if self.text.lines.len() == 0 {
                    assert(self.text.populated(0).lines[0].content =~= Seq::empty());
                }
                self.text.lemma_populated_valid(self.cursor_pos.line_number);
            }
            assert(first.admits(rest[0]));
            assert(first.admits_all(rest));
        }
    }

    /// A command raises the revision by one for each change it makes to the
    /// buffer, and leaves the text as it is where it makes none.
    pub proof fn law_step_revision(self, c: Command)
        requires
            self.valid(),
            self.has_room(),
        ensures
            self.step(c).text.rev == self.text.rev + self.text_ops(c).len(),
            self.text_ops(c).len() == 0 ==> self.step(c).text == self.text,
    {
        self.law_step_changes_text_by_ops(c);
        let ops = self.text_ops(c);
        if ops.len() == 1 {
            assert(ops.drop_first().len() == 0);
            assert(self.text.apply(ops[0]).apply_all(ops.drop_first()) == self.text.apply(ops[0]));
        } else if ops.len() == 2 {
            let first = self.text.apply(ops[0]);
            let rest = ops.drop_first();
            assert(rest.len() == 1);
            assert(rest.drop_first().len() == 0);
            assert(first.apply(rest[0]).apply_all(rest.drop_first()) == first.apply(rest[0]));
            assert(first.apply_all(rest) == first.apply(rest[0]));
        }
    }

    /// A move of the cursor leaves the text, and so its revision, as it is.
    pub proof fn law_cursor_move_keeps_text(self, lines_down: isize, columns_right: isize)
        ensures
            self.moved(lines_down, columns_right).text == self.text,
            self.step(Command::MoveCursor { lines_down, columns_right }).text == self.text,
    {
    }

    /// A change of mode and a committed command line leave the text as it
    /// is.
    pub proof fn law_mode_and_commit_keep_text(self, m: Mode)
        ensures
            self.step(Command::ShiftMode(m)).text == self.text,
            self.step(Command::CommitCommandline).text == self.text,
    {
    }

    /// A session that is opened on what another left for the backing store
    /// has that session's lines, where each of them is storable.
    pub proof fn law_saved_content_reopens(self, i: int)
        requires
            forall|k: int|
                0 <= k < self.text.lines.len() ==> storable(
                    (#[trigger] self.text.lines[k]).content,
                ),
            0 <= i < self.text.lines.len(),
        ensures
            TextModel::loaded(split(self.file_content())).lines.len() == self.text.lines.len(),
            TextModel::loaded(split(self.file_content())).lines[i].content
                == self.text.lines[i].content,
    {
        let lines = Seq::new(self.text.lines.len(), |k: int| self.text.lines[k].content);
        assert forall|k: int| 0 <= k < lines.len() implies storable(#[trigger] lines[k]) by {
            assert(storable(self.text.lines[k].content));
        }
        law_round_trip(lines);
    }

    /// After a committed `q` the program is told to quit and the text is as
    /// it was.
    pub proof fn law_quit(self)
        requires
            self.mode == Mode::Command,
            self.command_line == seq!['q'],
        ensures
            self.action(Command::CommitCommandline) == crate::state::EditorAction::Quit,
            self.step(Command::CommitCommandline).text == self.text,
    {
    }
}

} // verus!
