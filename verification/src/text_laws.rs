//! What holds of the text buffer whatever is done to it: revisions only
//! grow, identities stay with their lines and are never given out twice,
//! and the revision in effect never falls as the index grows.
use crate::text::LineModel;
use crate::text::TextModel;
use crate::text::lemma_recorded_in_effect;
use vstd::prelude::*;

verus! {

/// One change to the buffer.
pub enum TextOp {
    /// Line `n` is taken up and left with the given characters.
    Edit { n: usize, content: Seq<char> },
    /// The buffer is made to reach line `n`, which is left with the given
    /// characters.
    Populate { n: usize, content: Seq<char> },
    /// Line `n` is taken out.
    Remove { n: usize },
    /// A new line with the given characters is put at index `n`.
    Insert { n: usize, content: Seq<char> },
}

impl TextModel {
    /// Whether the buffer's counters leave room for the change.
    pub open spec fn admits(self, op: TextOp) -> bool {
        match op {
            TextOp::Edit { n, content } => self.rev < u64::MAX,
            TextOp::Populate { n, content } => self.rev < u64::MAX && n < usize::MAX && (n
                >= self.lines.len() ==> self.next_line_id + n + 1 - self.lines.len() <= u64::MAX),
            TextOp::Remove { n } => self.rev < u64::MAX,
            TextOp::Insert { n, content } => self.rev < u64::MAX && self.next_line_id < u64::MAX
                && n <= self.lines.len(),
        }
    }

    /// Whether the change touches the buffer at all: taking out a line that
    /// is not there does not.
    pub open spec fn mutated_by(self, op: TextOp) -> bool {
        match op {
            TextOp::Remove { n } => n < self.lines.len(),
            _ => true,
        }
    }

    /// The line of the buffer after the change in which the line that stood
    /// at index `i` before it is found, if the change did not take it out.
    pub open spec fn moved_to(self, op: TextOp, i: int) -> Option<int> {
        match op {
            TextOp::Remove { n } => if n >= self.lines.len() || i < n {
                Some(i)
            } else if i == n {
                None
            } else {
                Some(i - 1)
            },
            TextOp::Insert { n, content } => if i < n {
                Some(i)
            } else {
                Some(i + 1)
            },
            _ => Some(i),
        }
    }

    /// The buffer after the change.
    pub open spec fn apply(self, op: TextOp) -> TextModel {
        match op {
            TextOp::Edit { n, content } => {
                let t = self.touched(n);
                if n < self.lines.len() {
                    t.with_line(n, LineModel { content, ..t.lines[n as int] })
                } else {
                    t
                }
            },
            TextOp::Populate { n, content } => {
                let p = self.populated(n);
                p.with_line(n, LineModel { content, ..p.lines[n as int] })
            },
            TextOp::Remove { n } => if n < self.lines.len() {
                self.removed(n)
            } else {
                self
            },
            TextOp::Insert { n, content } => self.inserted(n, content),
        }
    }

    /// Whether the buffer admits each of the changes in its turn.
    pub open spec fn admits_all(self, ops: Seq<TextOp>) -> bool
        decreases ops.len(),
    {
        ops.len() > 0 ==> self.admits(ops[0]) && self.apply(ops[0]).admits_all(ops.drop_first())
    }

    /// The buffer after the changes, one after the other.
    pub open spec fn apply_all(self, ops: Seq<TextOp>) -> TextModel
        decreases ops.len(),
    {
        if ops.len() == 0 {
            self
        } else {
            self.apply(ops[0]).apply_all(ops.drop_first())
        }
    }

    /// Whether some line of the buffer has the identity `id`.
    pub open spec fn holds_id(self, id: u64) -> bool {
        exists|i: int| 0 <= i < self.lines.len() && (#[trigger] self.lines[i]).id == id
    }

    /// What is in effect depends on the recorded revisions alone.
    pub proof fn lemma_in_effect_same(self, other: TextModel, i: usize)
        requires
            self.revs_before == other.revs_before,
        ensures
            self.rev_in_effect(i) == other.rev_in_effect(i),
        decreases i,
    {
        if i > 0 {
            self.lemma_in_effect_same(other, (i - 1) as usize);
        }
    }

    /// No line's revision is ahead of the one in effect at its index after a
    /// change that records its revision for index `n`, leaves the lines before
    /// `n` with their revisions, and leaves no line with a later revision.
    proof fn lemma_lines_in_effect(self, after: TextModel, n: usize)
        requires
            self.valid(),
            after.revs_before == self.recorded(n, after.rev),
            forall|i: int| 0 <= i < after.lines.len() ==> (#[trigger] after.lines[i]).rev <= after.rev,
            forall|i: int|
                0 <= i < n && i < after.lines.len() ==> i < self.lines.len() && (
                #[trigger] after.lines[i]).rev == self.lines[i].rev,
        ensures
            forall|i: usize|
                i < after.lines.len() ==> (#[trigger] after.lines[i as int]).rev
                    <= after.rev_in_effect(i),
    {
        assert forall|i: usize| i < after.lines.len() implies (#[trigger] after.lines[i as int]).rev
            <= after.rev_in_effect(i) by {
            lemma_recorded_in_effect(self, after, n, i);
            if i < n {
                assert(after.lines[i as int].rev == self.lines[i as int].rev);
                assert(self.lines[i as int].rev <= self.rev_in_effect(i));
            }
        }
    }

    /// A valid buffer is valid after a line was taken up for a change.
    pub proof fn lemma_touched_valid(self, n: usize)
        requires
            self.valid(),
            self.rev < u64::MAX,
        ensures
            self.touched(n).valid(),
    {
        let r = self.touched(n);
        self.lemma_lines_in_effect(r, n);
        assert forall|i: int| 0 <= i < r.lines.len() implies 1 <= (#[trigger] r.lines[i]).id
            <= r.next_line_id && r.lines[i].rev <= r.rev by {
            assert(self.lines[i].id == r.lines[i].id);
        }
        assert forall|i: int, j: int| 0 <= i < j < r.lines.len() implies (#[trigger] r.lines[i]).id
            != (#[trigger] r.lines[j]).id by {
            assert(self.lines[i].id == r.lines[i].id);
            assert(self.lines[j].id == r.lines[j].id);
        }
    }

    /// A valid buffer is valid after it was made to reach a line, and then
    /// has that line.
    pub proof fn lemma_populated_valid(self, n: usize)
        requires
            self.valid(),
            self.admits(TextOp::Populate { n, content: Seq::empty() }),
        ensures
            self.populated(n).valid(),
            n < self.populated(n).lines.len(),
    {
        let r = self.populated(n);
        if n < self.lines.len() {
            self.lemma_touched_valid(n);
        } else {
            self.lemma_lines_in_effect(r, self.lines.len() as usize);
            assert forall|i: int| 0 <= i < r.lines.len() implies 1 <= (#[trigger] r.lines[i]).id
                <= r.next_line_id && r.lines[i].rev <= r.rev by {
                if i < self.lines.len() {
                    assert(self.lines[i].id == r.lines[i].id);
                }
            }
            assert forall|i: int, j: int| 0 <= i < j < r.lines.len() implies (
            #[trigger] r.lines[i]).id != (#[trigger] r.lines[j]).id by {
                if i < self.lines.len() {
                    assert(self.lines[i].id == r.lines[i].id);
                }
                if j < self.lines.len() {
                    assert(self.lines[j].id == r.lines[j].id);
                }
            }
        }
    }

    /// A valid buffer is valid after a line was taken out.
    pub proof fn lemma_removed_valid(self, n: usize)
        requires
            self.valid(),
            self.rev < u64::MAX,
            n < self.lines.len(),
        ensures
            self.removed(n).valid(),
    {
        let r = self.removed(n);
        assert forall|i: int| 0 <= i < r.lines.len() implies (#[trigger] r.lines[i]).rev
            <= r.rev by {
            let k = if i < n {
                i
            } else {
                i + 1
            };
            assert(self.lines[k].rev <= self.rev);
        }
        self.lemma_lines_in_effect(r, n);
        assert forall|i: int| 0 <= i < r.lines.len() implies 1 <= (#[trigger] r.lines[i]).id
            <= r.next_line_id && r.lines[i].rev <= r.rev by {
            let k = if i < n {
                i
            } else {
                i + 1
            };
            assert(self.lines[k].id == r.lines[i].id);
        }
        assert forall|i: int, j: int| 0 <= i < j < r.lines.len() implies (#[trigger] r.lines[i]).id
            != (#[trigger] r.lines[j]).id by {
            let ki = if i < n {
                i
            } else {
                i + 1
            };
            let kj = if j < n {
                j
            } else {
                j + 1
            };
            assert(self.lines[ki].id == r.lines[i].id);
            assert(self.lines[kj].id == r.lines[j].id);
        }
    }

    /// A valid buffer is valid after a line was put in.
    pub proof fn lemma_inserted_valid(self, n: usize, content: Seq<char>)
        requires
            self.valid(),
            self.admits(TextOp::Insert { n, content }),
        ensures
            self.inserted(n, content).valid(),
    {
        let r = self.inserted(n, content);
        assert forall|i: int| 0 <= i < r.lines.len() implies (#[trigger] r.lines[i]).rev
            <= r.rev by {
            if i != n {
                let k = if i < n {
                    i
                } else {
                    i - 1
                };
                assert(self.lines[k].rev <= self.rev);
            }
        }
        self.lemma_lines_in_effect(r, n);
        assert forall|i: int| 0 <= i < r.lines.len() implies 1 <= (#[trigger] r.lines[i]).id
            <= r.next_line_id && r.lines[i].rev <= r.rev by {
            if i != n {
                let k = if i < n {
                    i
                } else {
                    i - 1
                };
                assert(self.lines[k].id == r.lines[i].id);
            }
        }
        assert forall|i: int, j: int| 0 <= i < j < r.lines.len() implies (#[trigger] r.lines[i]).id
            != (#[trigger] r.lines[j]).id by {
            let ki = if i < n {
                i
            } else {
                i - 1
            };
            let kj = if j < n {
                j
            } else {
                j - 1
            };
            if i != n {
                assert(self.lines[ki].id == r.lines[i].id);
            }
            if j != n {
                assert(self.lines[kj].id == r.lines[j].id);
            }
        }
    }

    /// Replacing a line by one of the same identity and revision keeps the
    /// buffer valid.
    pub proof fn lemma_with_line_valid(self, n: usize, line: LineModel)
        requires
            self.valid(),
            n < self.lines.len(),
            line.id == self.lines[n as int].id,
            line.rev == self.lines[n as int].rev,
        ensures
            self.with_line(n, line).valid(),
    {
        let r = self.with_line(n, line);
        assert forall|i: usize| i < r.lines.len() implies (#[trigger] r.lines[i as int]).rev
            <= r.rev_in_effect(i) by {
            self.lemma_in_effect_same(r, i);
            assert(self.lines[i as int].rev <= self.rev_in_effect(i));
        }
        assert forall|i: int| 0 <= i < r.lines.len() implies 1 <= (#[trigger] r.lines[i]).id
            <= r.next_line_id && r.lines[i].rev <= r.rev by {
            assert(self.lines[i].id == r.lines[i].id);
        }
        assert forall|i: int, j: int| 0 <= i < j < r.lines.len() implies (#[trigger] r.lines[i]).id
            != (#[trigger] r.lines[j]).id by {
            assert(self.lines[i].id == r.lines[i].id);
            assert(self.lines[j].id == r.lines[j].id);
        }
    }

    /// Taking a line up for a change raises the revision, and the line then
    /// carries the new revision, which is above the revision that any line
    /// had before.
    pub proof fn law_touch_stamps_newest(self, n: usize, i: int)
        requires
            self.valid(),
            self.rev < u64::MAX,
            n < self.lines.len(),
            0 <= i < self.lines.len(),
        ensures
            self.touched(n).rev > self.rev,
            self.touched(n).lines[n as int].rev == self.touched(n).rev,
            self.lines[i].rev < self.touched(n).rev,
    {
    }

    /// Putting a line in raises the revision, and the new line carries the
    /// new revision, which is above the revision that any line had before.
    pub proof fn law_insert_stamps_newest(self, n: usize, content: Seq<char>, i: int)
        requires
            self.valid(),
            self.admits(TextOp::Insert { n, content }),
            0 <= i < self.lines.len(),
        ensures
            self.inserted(n, content).rev > self.rev,
            self.inserted(n, content).lines[n as int].rev == self.inserted(n, content).rev,
            self.lines[i].rev < self.inserted(n, content).rev,
    {
    }

    /// Putting a line in leaves one line more: the new line holds the given
    /// characters under an identity that no line had, the lines before it
    /// keep their places, and the lines from its index on move one down, each
    /// with its identity, revision and content.
    pub proof fn law_insert_keeps_lines(self, n: usize, content: Seq<char>, i: int)
        requires
            self.valid(),
            self.admits(TextOp::Insert { n, content }),
            0 <= i < self.lines.len(),
        ensures
            self.inserted(n, content).lines.len() == self.lines.len() + 1,
            self.inserted(n, content).lines[n as int].content == content,
            !self.holds_id(self.inserted(n, content).lines[n as int].id),
            i < n ==> self.inserted(n, content).lines[i] == self.lines[i],
            i >= n ==> self.inserted(n, content).lines[i + 1] == self.lines[i],
    {
        let id = self.inserted(n, content).lines[n as int].id;
        assert forall|k: int| 0 <= k < self.lines.len() implies (#[trigger] self.lines[k]).id
            != id by {
            assert(self.lines[k].id <= self.next_line_id);
        }
    }

    /// Taking a line out leaves one line less: the lines before it keep their
    /// places, the lines after it close up, each with its identity, revision
    /// and content, and the identity of the line taken out is on no line.
    pub proof fn law_remove_keeps_lines(self, n: usize, i: int)
        requires
            self.valid(),
            n < self.lines.len(),
            0 <= i < self.lines.len(),
        ensures
            self.removed(n).lines.len() == self.lines.len() - 1,
            i < n ==> self.removed(n).lines[i] == self.lines[i],
            n <= i < self.lines.len() - 1 ==> self.removed(n).lines[i] == self.lines[i + 1],
            !self.removed(n).holds_id(self.lines[n as int].id),
    {
        let r = self.removed(n);
        let id = self.lines[n as int].id;
        assert forall|k: int| 0 <= k < r.lines.len() implies (#[trigger] r.lines[k]).id != id by {
            let at = if k < n {
                k
            } else {
                k + 1
            };
            assert(self.lines[at].id == r.lines[k].id);
        }
    }

    /// A valid buffer is valid after any change that it admits.
    pub proof fn law_apply_valid(self, op: TextOp)
        requires
            self.valid(),
            self.admits(op),
        ensures
            self.apply(op).valid(),
    {
        match op {
            TextOp::Edit { n, content } => {
                self.lemma_touched_valid(n);
                if n < self.lines.len() {
                    let t = self.touched(n);
                    t.lemma_with_line_valid(n, LineModel { content, ..t.lines[n as int] });
                }
            },
            TextOp::Populate { n, content } => {
                self.lemma_populated_valid(n);
                let p = self.populated(n);
                p.lemma_with_line_valid(n, LineModel { content, ..p.lines[n as int] });
            },
            TextOp::Remove { n } => {
                if n < self.lines.len() {
                    self.lemma_removed_valid(n);
                }
            },
            TextOp::Insert { n, content } => {
                self.lemma_inserted_valid(n, content);
            },
        }
    }

    /// Every change that touches the buffer raises its revision by one; one
    /// that does not leaves the buffer as it was.
    pub proof fn law_revision_grows(self, op: TextOp)
        requires
            self.admits(op),
        ensures
            self.mutated_by(op) ==> self.apply(op).rev == self.rev + 1,
            !self.mutated_by(op) ==> self.apply(op) == self,
    {
    }

    /// No sequence of changes lowers the revision, and the revision rises by
    /// at least one where one of the changes touches the buffer.
    pub proof fn law_revision_never_falls(self, ops: Seq<TextOp>)
        requires
            self.valid(),
            self.admits_all(ops),
        ensures
            self.apply_all(ops).valid(),
            self.apply_all(ops).rev >= self.rev,
            self.apply_all(ops).next_line_id >= self.next_line_id,
            ops.len() > 0 && self.mutated_by(ops[0]) ==> self.apply_all(ops).rev > self.rev,
        decreases ops.len(),
    {
        if ops.len() > 0 {
            self.law_apply_valid(ops[0]);
            self.law_revision_grows(ops[0]);
            self.apply(ops[0]).law_revision_never_falls(ops.drop_first());
        }
    }

    /// A line that a change does not take out keeps its identity: it is
    /// found, with the identity it had, at the index that `moved_to` gives.
    pub proof fn law_identity_stable(self, op: TextOp, i: int)
        requires
            self.valid(),
            self.admits(op),
            0 <= i < self.lines.len(),
        ensures
            self.moved_to(op, i) matches Some(j) ==> 0 <= j < self.apply(op).lines.len()
                && self.apply(op).lines[j].id == self.lines[i].id,
    {
    }

    /// After a change each line either stood in the buffer before, with the
    /// identity it has, or has an identity that the buffer had not given out.
    pub proof fn law_identity_fresh(self, op: TextOp, j: int)
        requires
            self.valid(),
            self.admits(op),
            0 <= j < self.apply(op).lines.len(),
        ensures
            self.holds_id(self.apply(op).lines[j].id) || self.apply(op).lines[j].id
                > self.next_line_id,
            self.apply(op).next_line_id >= self.next_line_id,
    {
        let r = self.apply(op);
        match op {
            TextOp::Edit { n, content } => {
                assert(self.lines[j].id == r.lines[j].id);
            },
            TextOp::Populate { n, content } => {
                if j < self.lines.len() {
                    assert(self.lines[j].id == r.lines[j].id);
                }
            },
            TextOp::Remove { n } => {
                if n < self.lines.len() {
                    let k = if j < n {
                        j
                    } else {
                        j + 1
                    };
                    assert(self.lines[k].id == r.lines[j].id);
                } else {
                    assert(self.lines[j].id == r.lines[j].id);
                }
            },
            TextOp::Insert { n, content } => {
                if j != n {
                    let k = if j < n {
                        j
                    } else {
                        j - 1
                    };
                    assert(self.lines[k].id == r.lines[j].id);
                }
            },
        }
    }

    /// An identity that the buffer has given out and that none of its lines
    /// holds any more is held by no line after any sequence of changes.
    pub proof fn law_identity_never_reused(self, ops: Seq<TextOp>, id: u64)
        requires
            self.valid(),
            self.admits_all(ops),
            id <= self.next_line_id,
            !self.holds_id(id),
        ensures
            !self.apply_all(ops).holds_id(id),
        decreases ops.len(),
    {
        if ops.len() > 0 {
            let next = self.apply(ops[0]);
            self.law_apply_valid(ops[0]);
            assert forall|j: int| 0 <= j < next.lines.len() implies (#[trigger] next.lines[j]).id
                != id by {
                self.law_identity_fresh(ops[0], j);
            }
            self.law_identity_fresh_counter(ops[0]);
            next.law_identity_never_reused(ops.drop_first(), id);
        }
    }

    /// No change lowers the counter of identities.
    pub proof fn law_identity_fresh_counter(self, op: TextOp)
        requires
            self.admits(op),
        ensures
            self.apply(op).next_line_id >= self.next_line_id,
    {
    }

    /// A snapshot of a valid buffer is ordered, where the buffer's lines can be
    /// numbered.
    pub proof fn law_snapshot_ordered(self)
        requires
            self.valid(),
            self.lines.len() <= usize::MAX,
        ensures
            self.snapshot().ordered(),
    {
        let snapshot = self.snapshot();
        assert forall|i: int, j: int| 0 <= i <= j < snapshot.lines.len() implies (
        #[trigger] snapshot.lines[i]).max_rev_before <= (
        #[trigger] snapshot.lines[j]).max_rev_before by {
            self.law_max_rev_monotone(i, j);
        }
        assert forall|i: int| 0 <= i < snapshot.lines.len() implies (
        #[trigger] snapshot.lines[i]).line_number == i && snapshot.lines[i].rev
            <= snapshot.lines[i].max_rev_before by {
            self.law_max_rev_monotone(i, i);
        }
    }

    /// The revision in effect at an index is 0 or the one recorded for some
    /// index at or before it.
    proof fn lemma_rev_in_effect_source(self, i: usize)
        ensures
            self.rev_in_effect(i) == 0 || exists|k: usize|
                k <= i && self.revs_before.contains_key(k) && self.revs_before[k]
                    == self.rev_in_effect(i),
        decreases i,
    {
        if !self.revs_before.contains_key(i) && i > 0 {
            self.lemma_rev_in_effect_source((i - 1) as usize);
        }
    }

    /// The revision in effect never falls as the index grows, and is never
    /// ahead of the buffer's revision.
    pub proof fn law_rev_in_effect_monotone(self, i: usize, j: usize)
        requires
            self.valid(),
            i <= j,
        ensures
            self.rev_in_effect(i) <= self.rev_in_effect(j) <= self.rev,
        decreases j,
    {
        self.lemma_rev_in_effect_source(i);
        self.lemma_rev_in_effect_source(j);
        if i < j && !self.revs_before.contains_key(j) {
            self.law_rev_in_effect_monotone(i, (j - 1) as usize);
        }
    }

    /// In a snapshot the revision in effect at a line never falls as the
    /// index grows, and is never behind the line's own revision.
    pub proof fn law_max_rev_monotone(self, i: int, j: int)
        requires
            self.valid(),
            0 <= i <= j < self.lines.len() <= usize::MAX,
        ensures
            self.snapshot().lines[i].max_rev_before <= self.snapshot().lines[j].max_rev_before,
            self.snapshot().lines[j].rev <= self.snapshot().lines[j].max_rev_before,
    {
        self.law_rev_in_effect_monotone(i as usize, j as usize);
        assert(self.lines[j as usize as int].rev <= self.rev_in_effect(j as usize));
    }
}

} // verus!
