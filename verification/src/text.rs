//! The revision-tracked text buffer and its immutable snapshots.
use std::collections::BTreeMap;
use std::sync::Arc;
use vstd::prelude::*;

verus! {

/// A document-wide edit generation.
#[derive(Clone, Copy, Debug, PartialEq, Eq, PartialOrd, Ord, Hash, Structural)]
pub struct Rev {
    rev: u64,
}

impl View for Rev {
    type V = u64;

    closed spec fn view(&self) -> u64 {
        self.rev
    }
}

impl From<u64> for Rev {
    fn from(v: u64) -> (r: Self)
        ensures
            r@ == v,
    {
        Rev { rev: v }
    }
}

impl vstd::std_specs::convert::FromSpecImpl<u64> for Rev {
    open spec fn obeys_from_spec() -> bool {
        true
    }

    open spec fn from_spec(v: u64) -> Self {
        Rev::numbered(v)
    }
}

impl Default for Rev {
    fn default() -> (r: Self)
        ensures
            r@ == 0,
    {
        Rev { rev: 0 }
    }
}

impl Rev {
    /// The revision with the given number.
    pub closed spec fn numbered(v: u64) -> Rev {
        Rev { rev: v }
    }

    /// A revision is the one with its number, and no other.
    pub proof fn lemma_numbered(self)
        ensures
            Rev::numbered(self@) == self,
            forall|v: u64| (#[trigger] Rev::numbered(v))@ == v,
    {
    }

    /// The revision's number.
    pub fn value(&self) -> (v: u64)
        ensures
            v == self@,
    {
        self.rev
    }

    fn bump(self) -> (r: Self)
        requires
            self@ < u64::MAX,
        ensures
            r@ == self@ + 1,
    {
        Rev { rev: self.rev + 1 }
    }
}

/// The durable identity of a line, distinct from its index.
#[derive(Clone, Copy, Debug, PartialEq, Eq, PartialOrd, Ord, Hash, Structural)]
pub struct LineId {
    id: u64,
}

impl View for LineId {
    type V = u64;

    closed spec fn view(&self) -> u64 {
        self.id
    }
}

impl Default for LineId {
    fn default() -> (r: Self)
        ensures
            r@ == 0,
    {
        LineId { id: 0 }
    }
}

impl LineId {
    /// The identity with the given number.
    pub closed spec fn numbered(v: u64) -> LineId {
        LineId { id: v }
    }

    /// An identity is the one with its number, and no other.
    pub proof fn lemma_numbered(self)
        ensures
            LineId::numbered(self@) == self,
            forall|v: u64| (#[trigger] LineId::numbered(v))@ == v,
    {
    }

    /// The identity's number.
    pub fn value(&self) -> (v: u64)
        ensures
            v == self@,
    {
        self.id
    }

    fn bump(self) -> (r: Self)
        requires
            self@ < u64::MAX,
        ensures
            r@ == self@ + 1,
    {
        LineId { id: self.id + 1 }
    }
}

/// `Arc::clone`: the new handle points at the same value as the old one.
#[verifier::external_body]
pub(crate) fn share<T>(a: &Arc<T>) -> (r: Arc<T>)
    ensures
        r == *a,
{
    Arc::clone(a)
}

/// `String::push`: appends one character to the end of the string.
#[verifier::external_body]
pub(crate) fn push_char(s: &mut String, c: char)
    ensures
        final(s)@ == old(s)@.push(c),
{
    s.push(c)
}

/// Builds the string that holds exactly the given characters.
pub(crate) fn string_of(chars: &Vec<char>) -> (s: String)
    ensures
        s@ == chars@,
{
    let mut s = String::new();
    let mut i: usize = 0;
    while i < chars.len()
        invariant
            i <= chars.len(),
            s@ == chars@.take(i as int),
        decreases chars.len() - i,
    {
        push_char(&mut s, chars[i]);
        i += 1;
        assert(chars@.take(i as int) == chars@.take(i - 1).push(chars@[i - 1]));
    }
    assert(chars@.take(chars.len() as int) == chars@);
    s
}

/// Lists the characters of a string.
pub(crate) fn chars_of(s: &str) -> (chars: Vec<char>)
    ensures
        chars@ == s@,
{
    let mut chars: Vec<char> = Vec::new();
    for c in it: s.chars()
        invariant
            chars@.len() == it.index(),
            chars@ == s@.take(chars@.len() as int),
            it.seq() == s@,
    {
        chars.push(c);
        assert(s@.take(it.index() + 1) == s@.take(it.index() as int).push(c));
    }
    assert(s@.take(s@.len() as int) == s@);
    chars
}

/// What a line is: its identity, its own revision and its characters.
pub struct LineModel {
    pub id: u64,
    pub rev: u64,
    pub content: Seq<char>,
}

/// The characters of a line that is about to enter a buffer.
pub struct LineContent {
    content: Vec<char>,
    content_string: Arc<String>,
}

impl View for LineContent {
    type V = Seq<char>;

    closed spec fn view(&self) -> Seq<char> {
        self.content@
    }
}

impl LineContent {
    #[verifier::type_invariant]
    spec fn agrees(&self) -> bool {
        self.content_string@ == self.content@
    }
}

impl From<&str> for LineContent {
    fn from(s: &str) -> (r: Self)
        ensures
            r@ == s@,
    {
        LineContent { content: chars_of(s), content_string: Arc::new(String::from_str(s)) }
    }
}

// No spec function can build a `LineContent`: what `from` gives is said by
// its `ensures`.
impl vstd::std_specs::convert::FromSpecImpl<&str> for LineContent {
    open spec fn obeys_from_spec() -> bool {
        false
    }

    closed spec fn from_spec(v: &str) -> Self {
        arbitrary()
    }
}

impl From<String> for LineContent {
    fn from(s: String) -> (r: Self)
        ensures
            r@ == s@,
    {
        LineContent { content: chars_of(s.as_str()), content_string: Arc::new(s) }
    }
}

impl vstd::std_specs::convert::FromSpecImpl<String> for LineContent {
    open spec fn obeys_from_spec() -> bool {
        false
    }

    closed spec fn from_spec(v: String) -> Self {
        arbitrary()
    }
}

/// One line of the buffer.
#[derive(Debug)]
pub struct Line {
    id: LineId,
    rev: Rev,
    content: Vec<char>,
    content_string: Arc<String>,
}

impl View for Line {
    type V = LineModel;

    closed spec fn view(&self) -> LineModel {
        LineModel { id: self.id@, rev: self.rev@, content: self.content@ }
    }
}

impl Clone for Line {
    fn clone(&self) -> (r: Self)
        ensures
            r@ == self@,
            self.wf() ==> r.wf(),
    {
        Line {
            id: self.id,
            rev: self.rev,
            content: self.content.clone(),
            content_string: share(&self.content_string),
        }
    }
}

impl Line {
    /// The line's string form holds the same characters as the line.
    pub closed spec fn wf(&self) -> bool {
        self.content_string@ == self.content@
    }

    /// The line's characters can be numbered.
    pub proof fn lemma_char_count_fits(&self)
        ensures
            self@.content.len() <= usize::MAX,
    {
        assert(self.content.len() == self.content@.len());
    }

    pub fn rev(&self) -> (r: Rev)
        ensures
            r@ == self@.rev,
    {
        self.rev
    }

    pub fn id(&self) -> (r: LineId)
        ensures
            r@ == self@.id,
    {
        self.id
    }

    pub fn content_string(&self) -> (s: Arc<String>)
        requires
            self.wf(),
        ensures
            s@ == self@.content,
    {
        share(&self.content_string)
    }

    pub fn char_count(&self) -> (n: usize)
        ensures
            n == self@.content.len(),
    {
        self.content.len()
    }

    /// Takes out the character at `index`.
    pub fn remove_char(&mut self, index: usize)
        requires
            index < old(self)@.content.len(),
        ensures
            final(self)@ == (LineModel {
                content: old(self)@.content.remove(index as int),
                ..old(self)@
            }),
            final(self).wf(),
    {
        self.content.remove(index);
        self.on_content_change();
    }

    /// Puts `c` before the character at `index`, or at the end.
    pub fn insert(&mut self, index: usize, c: char)
        requires
            index <= old(self)@.content.len(),
        ensures
            final(self)@ == (LineModel {
                content: old(self)@.content.insert(index as int, c),
                ..old(self)@
            }),
            final(self).wf(),
    {
        self.content.insert(index, c);
        self.on_content_change();
    }

    /// Cuts the line at `index` and hands back what stood from there on.
    pub fn split_off(&mut self, index: usize) -> (rest: Vec<char>)
        requires
            index <= old(self)@.content.len(),
        ensures
            final(self)@ == (LineModel {
                content: old(self)@.content.take(index as int),
                ..old(self)@
            }),
            rest@ == old(self)@.content.skip(index as int),
            final(self).wf(),
    {
        let result = self.content.split_off(index);
        self.on_content_change();
        assert(self.content@ =~= old(self)@.content.take(index as int));
        assert(result@ =~= old(self)@.content.skip(index as int));
        result
    }

    /// Appends the characters of `other`, which must hold no line break.
    pub fn extend_line(&mut self, other: Line)
        requires
            !other@.content.contains('\n'),
        ensures
            final(self)@ == (LineModel {
                content: old(self)@.content + other@.content,
                ..old(self)@
            }),
            final(self).wf(),
    {
        let mut other = other;
        self.content.append(&mut other.content);
        self.on_content_change();
    }

    fn on_content_change(&mut self)
        ensures
            final(self)@ == old(self)@,
            final(self).wf(),
    {
        let new_content_string = string_of(&self.content);
        self.content_string = Arc::new(new_content_string);
    }
}

/// What a snapshot shows of one line.
pub struct LineViewModel {
    /// The revision in effect at the line's index: the latest of any
    /// insertion, removal or change at or before it.
    pub max_rev_before: u64,
    pub line_number: usize,
    pub content: Seq<char>,
    pub id: u64,
    pub rev: u64,
}

/// One line of a snapshot.
#[derive(Debug)]
pub struct LineView {
    max_rev_before: Rev,
    line_number: usize,
    content_string: Arc<String>,
    line_id: LineId,
    line_rev: Rev,
}

impl View for LineView {
    type V = LineViewModel;

    closed spec fn view(&self) -> LineViewModel {
        LineViewModel {
            max_rev_before: self.max_rev_before@,
            line_number: self.line_number,
            content: self.content_string@,
            id: self.line_id@,
            rev: self.line_rev@,
        }
    }
}

impl Clone for LineView {
    fn clone(&self) -> (r: Self)
        ensures
            r@ == self@,
    {
        LineView {
            max_rev_before: self.max_rev_before,
            line_number: self.line_number,
            content_string: share(&self.content_string),
            line_id: self.line_id,
            line_rev: self.line_rev,
        }
    }
}

impl LineView {
    pub fn content_str(&self) -> (s: Arc<String>)
        ensures
            s@ == self@.content,
    {
        share(&self.content_string)
    }

    pub fn line_number(&self) -> (n: usize)
        ensures
            n == self@.line_number,
    {
        self.line_number
    }

    pub fn id(&self) -> (r: LineId)
        ensures
            r@ == self@.id,
    {
        self.line_id
    }

    pub fn rev(&self) -> (r: Rev)
        ensures
            r@ == self@.rev,
    {
        self.line_rev
    }

    pub fn max_rev_before(&self) -> (r: Rev)
        ensures
            r@ == self@.max_rev_before,
    {
        self.max_rev_before
    }
}

/// What a snapshot is: the revision it was taken at and its lines in order.
pub struct TextViewModel {
    pub rev: u64,
    pub lines: Seq<LineViewModel>,
}

impl TextViewModel {
    /// The lines are numbered from 0, and the revision in effect at a line is
    /// neither behind the line's own revision nor behind the revision in
    /// effect at an earlier line.
    pub open spec fn ordered(self) -> bool {
        &&& forall|i: int|
            0 <= i < self.lines.len() ==> (#[trigger] self.lines[i]).line_number == i
                && self.lines[i].rev <= self.lines[i].max_rev_before
        &&& forall|i: int, j: int|
            0 <= i <= j < self.lines.len() ==> (#[trigger] self.lines[i]).max_rev_before <= (
            #[trigger] self.lines[j]).max_rev_before
    }
}

/// A read-only view of the text at a point in time.
pub struct TextView {
    rev: Rev,
    lines: Arc<Vec<LineView>>,
}

impl View for TextView {
    type V = TextViewModel;

    closed spec fn view(&self) -> TextViewModel {
        TextViewModel {
            rev: self.rev@,
            lines: Seq::new(self.lines@.len(), |i: int| self.lines@[i]@),
        }
    }
}

impl Clone for TextView {
    fn clone(&self) -> (r: Self)
        ensures
            r@ == self@,
    {
        proof {
            use_type_invariant(self);
        }
        TextView { rev: self.rev, lines: share(&self.lines) }
    }
}

/// Walks the lines of a snapshot from one index up to another.
pub struct LineViewIterator {
    lines: Arc<Vec<LineView>>,
    idx: usize,
    end: usize,
}

impl LineViewIterator {
    /// The lines that are still to come, in order.
    pub closed spec fn remaining(&self) -> Seq<LineViewModel> {
        Seq::new(
            if self.idx < self.end {
                (self.end - self.idx) as nat
            } else {
                0
            },
            |i: int| self.lines@[self.idx + i]@,
        )
    }

    /// The range ends where the lines end, or before.
    #[verifier::type_invariant]
    spec fn in_range(&self) -> bool {
        self.end <= self.lines@.len()
    }

    /// Hands out the next line, or `None` when the range is used up.
    pub fn next(&mut self) -> (r: Option<LineView>)
        ensures
            old(self).remaining().len() == 0 ==> r is None && final(self).remaining()
                == old(self).remaining(),
            old(self).remaining().len() > 0 ==> r is Some && r->0@ == old(self).remaining()[0]
                && final(self).remaining() == old(self).remaining().drop_first(),
    {
        proof {
            use_type_invariant(&*self);
        }
        if self.idx >= self.end {
            assert(self.remaining() =~= old(self).remaining());
            None
        } else {
            let ret = self.lines[self.idx].clone();
            self.idx += 1;
            assert(self.remaining() =~= old(self).remaining().drop_first());
            Some(ret)
        }
    }
}

impl TextView {
    #[verifier::type_invariant]
    spec fn ordered(&self) -> bool {
        self@.ordered()
    }

    /// The snapshot's lines can be numbered.
    pub proof fn lemma_line_count_fits(&self)
        ensures
            self@.lines.len() <= usize::MAX,
    {
        assert(self.lines.len() == self.lines@.len());
    }

    pub fn rev(&self) -> (r: Rev)
        ensures
            r@ == self@.rev,
    {
        self.rev
    }

    /// The number of lines; the snapshot is ordered, as every snapshot is.
    pub fn line_count(&self) -> (n: usize)
        ensures
            n == self@.lines.len(),
            self@.ordered(),
    {
        proof {
            use_type_invariant(self);
        }
        self.lines.len()
    }

    pub fn iter_lines(&self) -> (it: LineViewIterator)
        ensures
            it.remaining() == self@.lines,
    {
        let it = self.iter_line_range(0, self.lines.len());
        assert(self@.lines.subrange(0, self@.lines.len() as int) =~= self@.lines);
        it
    }

    /// Walks the lines from `start` up to, and without, `end`; what lies
    /// beyond the last line is left out.
    pub fn iter_line_range(&self, start: usize, end: usize) -> (it: LineViewIterator)
        ensures
            it.remaining() == Self::range_of(self@.lines, start, end),
    {
        let len = self.lines.len();
        let it = LineViewIterator {
            lines: share(&self.lines),
            idx: start,
            end: if len < end {
                len
            } else {
                end
            },
        };
        assert(it.remaining() =~= Self::range_of(self@.lines, start, end));
        it
    }

    /// The lines of `lines` from `start` up to `end`, cut at the last line.
    pub open spec fn range_of(lines: Seq<LineViewModel>, start: usize, end: usize) -> Seq<
        LineViewModel,
    > {
        let stop = if lines.len() < end {
            lines.len() as int
        } else {
            end as int
        };
        if start < stop {
            lines.subrange(start as int, stop)
        } else {
            Seq::empty()
        }
    }
}

/// What a buffer is: its revision, the last identity it gave out, its lines
/// in order, and the revisions recorded per index.
pub struct TextModel {
    pub rev: u64,
    pub next_line_id: u64,
    pub lines: Seq<LineModel>,
    pub revs_before: Map<usize, u64>,
}

impl TextModel {
    /// The buffer without lines that has not been changed yet.
    pub open spec fn empty() -> TextModel {
        TextModel { rev: 0, next_line_id: 0, lines: Seq::empty(), revs_before: Map::empty() }
    }

    /// No identity occurs twice or is ahead of the counter, no revision is
    /// ahead of the buffer's, the recorded revisions do not fall as the index
    /// grows, and no line's own revision is ahead of the one in effect at its
    /// index.
    pub open spec fn valid(self) -> bool {
        &&& forall|i: usize|
            i < self.lines.len() ==> (#[trigger] self.lines[i as int]).rev <= self.rev_in_effect(i)
        &&& forall|i: int|
            0 <= i < self.lines.len() ==> 1 <= (#[trigger] self.lines[i]).id <= self.next_line_id
                && self.lines[i].rev <= self.rev
        &&& forall|i: int, j: int|
            0 <= i < j < self.lines.len() ==> (#[trigger] self.lines[i]).id != (
            #[trigger] self.lines[j]).id
        &&& forall|k: usize| #[trigger]
            self.revs_before.contains_key(k) ==> self.revs_before[k] <= self.rev
        &&& forall|k1: usize, k2: usize|
            #![trigger self.revs_before[k1], self.revs_before[k2]]
            self.revs_before.contains_key(k1) && self.revs_before.contains_key(k2) && k1 <= k2
                ==> self.revs_before[k1] <= self.revs_before[k2]
    }

    /// The recorded revisions once `rev` is in effect from index `n` on:
    /// what was recorded for a greater index is forgotten.
    pub open spec fn recorded(self, n: usize, rev: u64) -> Map<usize, u64> {
        Map::new(
            |k: usize| k == n || (k < n && self.revs_before.contains_key(k)),
            |k: usize|
                if k == n {
                    rev
                } else {
                    self.revs_before[k]
                },
        )
    }

    /// The revision in effect at index `i`: the one recorded for the nearest
    /// index at or before it, or 0 where none is.
    pub open spec fn rev_in_effect(self, i: usize) -> u64
        decreases i,
    {
        if self.revs_before.contains_key(i) {
            self.revs_before[i]
        } else if i == 0 {
            0
        } else {
            self.rev_in_effect((i - 1) as usize)
        }
    }

    /// The buffer after line `n` was taken up for a change: the revision
    /// goes up by one, line `n` (if there is one) is stamped with it, and it
    /// is recorded for index `n`.
    pub open spec fn touched(self, n: usize) -> TextModel {
        let rev = (self.rev + 1) as u64;
        TextModel {
            rev,
            next_line_id: self.next_line_id,
            lines: if n < self.lines.len() {
                self.lines.update(n as int, LineModel { rev, ..self.lines[n as int] })
            } else {
                self.lines
            },
            revs_before: self.recorded(n, rev),
        }
    }

    /// The buffer after it was made to reach line `n`: like `touched` where
    /// the line is there, else with empty lines added up to and with `n`,
    /// each with a new identity and the new revision, which is recorded for
    /// the index of the first of them.
    pub open spec fn populated(self, n: usize) -> TextModel {
        if n < self.lines.len() {
            self.touched(n)
        } else {
            let rev = (self.rev + 1) as u64;
            let added = (n + 1 - self.lines.len()) as nat;
            TextModel {
                rev,
                next_line_id: (self.next_line_id + added) as u64,
                lines: self.lines + Seq::new(
                    added,
                    |i: int|
                        LineModel {
                            id: (self.next_line_id + 1 + i) as u64,
                            rev,
                            content: Seq::empty(),
                        },
                ),
                revs_before: self.recorded(self.lines.len() as usize, rev),
            }
        }
    }

    /// The buffer without its line `n`.
    pub open spec fn removed(self, n: usize) -> TextModel {
        let rev = (self.rev + 1) as u64;
        TextModel {
            rev,
            next_line_id: self.next_line_id,
            lines: self.lines.remove(n as int),
            revs_before: self.recorded(n, rev),
        }
    }

    /// The buffer with a new line of the given characters at index `n`.
    pub open spec fn inserted(self, n: usize, content: Seq<char>) -> TextModel {
        let rev = (self.rev + 1) as u64;
        let id = (self.next_line_id + 1) as u64;
        TextModel {
            rev,
            next_line_id: id,
            lines: self.lines.insert(n as int, LineModel { id, rev, content }),
            revs_before: self.recorded(n, rev),
        }
    }

    /// The buffer with `line` in place of its line `n`.
    pub open spec fn with_line(self, n: usize, line: LineModel) -> TextModel {
        TextModel { lines: self.lines.update(n as int, line), ..self }
    }

    /// The buffer that holds the given lines and has not been changed yet:
    /// line `i` has identity `i + 1` and revision 0.
    pub open spec fn loaded(contents: Seq<Seq<char>>) -> TextModel {
        TextModel {
            rev: 0,
            next_line_id: contents.len() as u64,
            lines: Seq::new(
                contents.len(),
                |i: int| LineModel { id: (i + 1) as u64, rev: 0, content: contents[i] },
            ),
            revs_before: Map::empty(),
        }
    }

    /// The snapshot of the buffer: each line with its index and with the
    /// revision in effect at it, which is the latest of any insertion, removal
    /// or change at or before it.
    pub open spec fn snapshot(self) -> TextViewModel {
        TextViewModel {
            rev: self.rev,
            lines: Seq::new(
                self.lines.len(),
                |i: int|
                    LineViewModel {
                        max_rev_before: self.rev_in_effect(i as usize),
                        line_number: i as usize,
                        content: self.lines[i].content,
                        id: self.lines[i].id,
                        rev: self.lines[i].rev,
                    },
            ),
        }
    }
}

/// The document: its lines in order, each with an identity and a revision.
pub struct Text {
    rev: Rev,
    next_line_id: LineId,
    revs_before: BTreeMap<usize, u64>,
    lines: Vec<Line>,
}

/// What each of the lines is.
pub open spec fn models(lines: Seq<Line>) -> Seq<LineModel> {
    Seq::new(lines.len(), |i: int| lines[i]@)
}

/// What each of the strings holds.
pub open spec fn contents(lines: Seq<String>) -> Seq<Seq<char>> {
    Seq::new(lines.len(), |i: int| lines[i]@)
}

proof fn lemma_models_update(lines: Seq<Line>, n: int, line: Line)
    requires
        0 <= n < lines.len(),
    ensures
        models(lines.update(n, line)) == models(lines).update(n, line@),
{
    assert(models(lines.update(n, line)) =~= models(lines).update(n, line@));
}

/// A valid buffer stays valid, and its lines well formed, when one line is
/// replaced by a well-formed one of the same identity and revision.
proof fn lemma_line_replaced(lines: Seq<Line>, m: TextModel, n: usize, line: Line)
    requires
        0 <= n < lines.len(),
        m.valid(),
        m.lines == models(lines),
        forall|i: int| 0 <= i < lines.len() ==> (#[trigger] lines[i]).wf(),
    ensures
        line.wf() && line@.id == m.lines[n as int].id && line@.rev == m.lines[n as int].rev
            ==> m.with_line(n, line@).valid() && (forall|i: int|
            0 <= i < lines.len() ==> (#[trigger] lines.update(n as int, line)[i]).wf()),
{
    if line.wf() && line@.id == m.lines[n as int].id && line@.rev == m.lines[n as int].rev {
        m.lemma_with_line_valid(n, line@);
        assert forall|i: int| 0 <= i < lines.len() implies (#[trigger] lines.update(
            n as int,
            line,
        )[i]).wf() by {
            if i != n {
                assert(lines.update(n as int, line)[i] == lines[i]);
            }
        }
    }
}

/// Where `k` is the nearest index at or before `i` for which a revision is
/// recorded, that revision is in effect at `i`.
proof fn lemma_in_effect_from(m: TextModel, i: usize, k: usize)
    requires
        k <= i,
        m.revs_before.contains_key(k),
        forall|k2: usize| k2 <= i && m.revs_before.contains_key(k2) ==> k2 <= k,
    ensures
        m.rev_in_effect(i) == m.revs_before[k],
    decreases i - k,
{
    if k < i {
        lemma_in_effect_from(m, (i - 1) as usize, k);
    }
}

/// Where no revision is recorded at or before `i`, none is in effect there.
proof fn lemma_in_effect_none(m: TextModel, i: usize)
    requires
        forall|k2: usize| k2 <= i ==> !m.revs_before.contains_key(k2),
    ensures
        m.rev_in_effect(i) == 0,
    decreases i,
{
    if i > 0 {
        lemma_in_effect_none(m, (i - 1) as usize);
    }
}

/// Once a revision is recorded for index `n`, it is in effect from `n` on,
/// and before `n` what was in effect stays so.
pub proof fn lemma_recorded_in_effect(before: TextModel, after: TextModel, n: usize, i: usize)
    requires
        after.revs_before == before.recorded(n, after.rev),
    ensures
        after.rev_in_effect(i) == if i >= n {
            after.rev
        } else {
            before.rev_in_effect(i)
        },
    decreases i,
{
    if i > 0 && i != n {
        lemma_recorded_in_effect(before, after, n, (i - 1) as usize);
    }
}

/// `BTreeMap::split_off`, with what it returns dropped: the map keeps the
/// entries whose key is less than `key` and no others.
#[verifier::external_body]
fn forget_from(m: &mut BTreeMap<usize, u64>, key: usize)
    ensures
        final(m)@ == old(m)@.remove_keys(Set::new(|k: usize| k >= key)),
{
    let _ = m.split_off(&key);
}

/// The greatest index at or before `key` for which a revision is recorded.
fn nearest_recorded(m: &BTreeMap<usize, u64>, key: usize) -> (r: Option<usize>)
    ensures
        match r {
            Some(k) => k <= key && m@.contains_key(k) && forall|k2: usize|
                k2 <= key && m@.contains_key(k2) ==> k2 <= k,
            None => forall|k2: usize| k2 <= key ==> !m@.contains_key(k2),
        },
{
    broadcast use vstd::laws_cmp::group_laws_cmp;
    broadcast use vstd::std_specs::btree::group_btree_axioms;

    let mut best: Option<usize> = None;
    let ghost mut seen: Set<usize> = Set::empty();
    for k in it: m.keys()
        invariant
            it.seq().unref().to_set() == m@.dom(),
            best matches Some(b) ==> b <= key && m@.contains_key(b),
            forall|j: int| 0 <= j < it.index() ==> seen.contains(#[trigger] it.seq().unref()[j]),
            forall|k2: usize|
                #[trigger] seen.contains(k2) && k2 <= key ==> best is Some && k2 <= best->0,
    {
        assert(it.seq().unref()[it.index()] == *k);
        assert(it.seq().unref().to_set().contains(*k));
        let nearer = match best {
            Some(b) => *k > b,
            None => true,
        };
        if *k <= key && nearer {
            best = Some(*k);
        }
        proof {
            seen = seen.insert(*k);
        }
    }
    assert forall|k2: usize| m@.contains_key(k2) implies seen.contains(k2) by {
        assert(m@.dom().contains(k2));
    }
    best
}

fn recorded_at(m: &BTreeMap<usize, u64>, key: usize) -> (r: Option<u64>)
    ensures
        r == if m@.contains_key(key) {
            Some(m@[key])
        } else {
            None
        },
{
    broadcast use vstd::laws_cmp::group_laws_cmp;
    broadcast use vstd::std_specs::btree::group_btree_axioms;

    match m.get(&key) {
        Some(rev) => Some(*rev),
        None => None,
    }
}

fn remember(m: &mut BTreeMap<usize, u64>, key: usize, rev: u64)
    ensures
        final(m)@ == old(m)@.insert(key, rev),
{
    broadcast use vstd::laws_cmp::group_laws_cmp;

    m.insert(key, rev);
}

impl Text {
    /// What the buffer is.
    pub closed spec fn model(&self) -> TextModel {
        TextModel {
            rev: self.rev@,
            next_line_id: self.next_line_id@,
            lines: models(self.lines@),
            revs_before: self.revs_before@,
        }
    }

    /// The buffer's model is valid and each line's string form is that of
    /// its characters.
    pub closed spec fn wf(&self) -> bool {
        &&& self.model().valid()
        &&& forall|i: int| 0 <= i < self.lines@.len() ==> (#[trigger] self.lines@[i]).wf()
    }

    /// The buffer's lines can be numbered.
    pub proof fn lemma_line_count_fits(&self)
        ensures
            self.model().lines.len() <= usize::MAX,
    {
        assert(self.lines.len() == self.lines@.len());
    }

    /// A well-formed buffer is valid.
    pub proof fn lemma_wf_valid(&self)
        requires
            self.wf(),
        ensures
            self.model().valid(),
    {
    }

    pub fn new() -> (t: Self)
        ensures
            t.wf(),
            t.model() == TextModel::empty(),
    {
        let t = Text {
            rev: Rev::default(),
            next_line_id: LineId::default(),
            revs_before: BTreeMap::new(),
            lines: Vec::new(),
        };
        assert(t.model().lines =~= Seq::empty());
        t
    }

    fn bump_line_id(&mut self) -> (id: LineId)
        requires
            old(self).next_line_id@ < u64::MAX,
        ensures
            id@ == old(self).next_line_id@ + 1,
            final(self).next_line_id == id,
            final(self).rev == old(self).rev,
            final(self).lines == old(self).lines,
            final(self).revs_before == old(self).revs_before,
    {
        self.next_line_id = self.next_line_id.bump();
        self.next_line_id
    }

    fn bump_rev(&mut self) -> (rev: Rev)
        requires
            old(self).rev@ < u64::MAX,
        ensures
            rev@ == old(self).rev@ + 1,
            final(self).rev == rev,
            final(self).next_line_id == old(self).next_line_id,
            final(self).lines == old(self).lines,
            final(self).revs_before == old(self).revs_before,
    {
        self.rev = self.rev.bump();
        self.rev
    }

    /// Records the current revision as in effect from index `ln_number` on.
    fn line_changed(&mut self, ln_number: usize)
        ensures
            final(self).revs_before@ == old(self).model().recorded(ln_number, old(self).rev@),
            final(self).rev == old(self).rev,
            final(self).next_line_id == old(self).next_line_id,
            final(self).lines == old(self).lines,
    {
        remember(&mut self.revs_before, ln_number, self.rev.value());
        if ln_number < usize::MAX {
            forget_from(&mut self.revs_before, ln_number + 1);
        }
        assert(self.revs_before@ =~= old(self).model().recorded(ln_number, old(self).rev@));
    }

    pub fn line_count(&self) -> (n: usize)
        ensures
            n == self.model().lines.len(),
    {
        self.lines.len()
    }

    /// The buffer's revision.
    pub fn rev(&self) -> (r: Rev)
        ensures
            r@ == self.model().rev,
    {
        self.rev
    }

    /// The identity that the buffer gave out last.
    pub fn last_line_id(&self) -> (r: LineId)
        ensures
            r@ == self.model().next_line_id,
    {
        self.next_line_id
    }

    /// The revision in effect at index `i`: the last that was recorded for
    /// it or for the nearest index before it, or 0 where none was.
    pub fn rev_in_effect(&self, i: usize) -> (r: Rev)
        ensures
            r@ == self.model().rev_in_effect(i),
    {
        match nearest_recorded(&self.revs_before, i) {
            Some(k) => {
                proof {
                    lemma_in_effect_from(self.model(), i, k);
                }
                match recorded_at(&self.revs_before, k) {
                    Some(rev) => Rev { rev },
                    None => Rev { rev: 0 },
                }
            },
            None => {
                proof {
                    lemma_in_effect_none(self.model(), i);
                }
                Rev { rev: 0 }
            },
        }
    }

    pub fn line(&self, ln_number: usize) -> (r: Option<&Line>)
        requires
            self.wf(),
        ensures
            ln_number >= self.model().lines.len() ==> r is None,
            ln_number < self.model().lines.len() ==> r is Some && r->0@
                == self.model().lines[ln_number as int] && r->0.wf(),
    {
        if ln_number < self.lines.len() {
            Some(&self.lines[ln_number])
        } else {
            None
        }
    }

    /// The buffer that holds the given lines: see `TextModel::loaded`.
    pub fn from(lines: &[String]) -> (t: Self)
        ensures
            t.wf(),
            t.model() == TextModel::loaded(contents(lines@)),
    {
        let mut text = Text {
            rev: Rev::default(),
            next_line_id: LineId::default(),
            revs_before: BTreeMap::new(),
            lines: Vec::new(),
        };
        let mut i: usize = 0;
        while i < lines.len()
            invariant
                i <= lines.len(),
                text.rev@ == 0,
                text.next_line_id@ == i,
                text.revs_before@ == Map::<usize, u64>::empty(),
                text.lines@.len() == i,
                forall|j: int|
                    0 <= j < i ==> (#[trigger] text.lines@[j]).wf() && text.lines@[j]@
                        == (LineModel { id: (j + 1) as u64, rev: 0, content: lines@[j]@ }),
            decreases lines.len() - i,
        {
            let id = text.bump_line_id();
            let l = Line {
                id,
                rev: Rev::default(),
                content: chars_of(lines[i].as_str()),
                content_string: Arc::new(lines[i].clone()),
            };
            text.lines.push(l);
            i += 1;
        }
        assert(text.model().lines =~= TextModel::loaded(contents(lines@)).lines);
        text
    }

    /// Takes line `ln_number` up for a change: see `TextModel::touched`.
    /// The buffer is what `touched` says with the line as the caller leaves
    /// it.
    pub fn line_mut(&mut self, ln_number: usize) -> (r: Option<&mut Line>)
        requires
            old(self).wf(),
            old(self).model().rev < u64::MAX,
        ensures
            ln_number >= old(self).model().lines.len() ==> r is None && final(self).wf()
                && final(self).model() == old(self).model().touched(ln_number),
            ln_number < old(self).model().lines.len() ==> r is Some,
            r matches Some(l) ==> l.wf() && l@ == old(self).model().touched(
                ln_number,
            ).lines[ln_number as int],
            r matches Some(l) ==> final(self).model() == old(self).model().touched(
                ln_number,
            ).with_line(ln_number, final(l)@),
            r matches Some(l) ==> (final(l).wf() && final(l)@.id == l@.id && final(l)@.rev
                == l@.rev ==> final(self).wf()),
    {
        let rev = self.bump_rev();
        self.line_changed(ln_number);
        if ln_number < self.lines.len() {
            let ghost before = self.lines@;
            let l = &mut self.lines[ln_number];
            l.rev = rev;
            proof {
                let n = ln_number as int;
                let touched = old(self).model().touched(ln_number);
                old(self).model().lemma_touched_valid(ln_number);
                lemma_models_update(before, n, *l);
                lemma_models_update(before, n, *final(l));
                assert(models(before).update(n, l@) =~= touched.lines);
                assert(models(before).update(n, final(l)@) =~= touched.lines.update(
                    n,
                    final(l)@,
                ));
                let stamped = before.update(n, *l);
                assert(forall|i: int| 0 <= i < stamped.len() ==> (#[trigger] stamped[i]).wf());
                lemma_line_replaced(stamped, touched, ln_number, *final(l));
                assert(stamped.update(n, *final(l)) =~= before.update(n, *final(l)));
            }
            Some(l)
        } else {
            proof {
                old(self).model().lemma_touched_valid(ln_number);
            }
            assert(self.model().lines =~= old(self).model().touched(ln_number).lines);
            None
        }
    }

    /// Takes line `ln_number` up for a change, adding empty lines first
    /// where the buffer does not reach it: see `TextModel::populated`.
    pub fn line_mut_populate(&mut self, ln_number: usize) -> (r: &mut Line)
        requires
            old(self).wf(),
            old(self).model().rev < u64::MAX,
            ln_number < usize::MAX,
            ln_number >= old(self).model().lines.len() ==> old(self).model().next_line_id
                + ln_number + 1 - old(self).model().lines.len() <= u64::MAX,
        ensures
            r.wf(),
            r@ == old(self).model().populated(ln_number).lines[ln_number as int],
            final(self).model() == old(self).model().populated(ln_number).with_line(
                ln_number,
                final(r)@,
            ),
            final(r).wf() && final(r)@.id == r@.id && final(r)@.rev == r@.rev ==> final(self).wf(),
    {
        let rev = self.bump_rev();
        if self.lines.len() > ln_number {
            self.line_changed(ln_number);
        } else {
            let number_of_new_lines = ln_number - self.lines.len() + 1;
            self.lines.reserve(number_of_new_lines);
            self.line_changed(self.lines.len());
            let ghost start = self.lines@;
            while self.lines.len() <= ln_number
                invariant
                    start == old(self).lines@,
                    start.len() <= self.lines@.len() <= ln_number + 1,
                    self.rev == rev,
                    self.revs_before@ == old(self).model().recorded(start.len() as usize, rev@),
                    self.next_line_id@ == old(self).next_line_id@ + self.lines@.len()
                        - start.len(),
                    old(self).next_line_id@ + ln_number + 1 - start.len() <= u64::MAX,
                    forall|i: int| 0 <= i < start.len() ==> self.lines@[i] == start[i],
                    forall|i: int|
                        start.len() <= i < self.lines@.len() ==> (#[trigger] self.lines@[i]).wf()
                            && self.lines@[i]@ == (LineModel {
                            id: (old(self).next_line_id@ + 1 + i - start.len()) as u64,
                            rev: rev@,
                            content: Seq::empty(),
                        }),
                decreases ln_number + 1 - self.lines@.len(),
            {
                let l = Line {
                    id: self.bump_line_id(),
                    rev,
                    content: Vec::new(),
                    content_string: Arc::new(String::new()),
                };
                self.lines.push(l);
            }
        }
        let ghost before = self.lines@;
        let ghost populated = old(self).model().populated(ln_number);
        let l = &mut self.lines[ln_number];
        l.rev = rev;
        proof {
            let n = ln_number as int;
            let stamped = before.update(n, *l);
            lemma_models_update(before, n, *l);
            lemma_models_update(before, n, *final(l));
            assert(models(stamped) =~= populated.lines);
            assert(models(before).update(n, final(l)@) =~= populated.lines.update(n, final(l)@));
            assert forall|i: int| 0 <= i < stamped.len() implies (#[trigger] stamped[i]).wf() by {
                if i < old(self).lines@.len() && i != n {
                    assert(stamped[i] == old(self).lines@[i]);
                }
            }
            old(self).model().lemma_populated_valid(ln_number);
            lemma_line_replaced(stamped, populated, ln_number, *final(l));
            assert(stamped.update(n, *final(l)) =~= before.update(n, *final(l)));
        }
        l
    }

    /// Takes line `ln_number` out of the buffer, if there is one.
    pub fn remove_line(&mut self, ln_number: usize) -> (r: Option<Line>)
        requires
            old(self).wf(),
            ln_number < old(self).model().lines.len() ==> old(self).model().rev < u64::MAX,
        ensures
            final(self).wf(),
            ln_number >= old(self).model().lines.len() ==> r is None && final(self).model()
                == old(self).model(),
            ln_number < old(self).model().lines.len() ==> r is Some && r->0.wf() && r->0@
                == old(self).model().lines[ln_number as int] && final(self).model()
                == old(self).model().removed(ln_number),
    {
        if self.lines.len() <= ln_number {
            return None;
        }
        self.bump_rev();
        self.line_changed(ln_number);
        let line = self.lines.remove(ln_number);
        proof {
            let removed = old(self).model().removed(ln_number);
            assert(self.model().lines =~= removed.lines);
            old(self).model().lemma_removed_valid(ln_number);
            assert forall|i: int| 0 <= i < self.lines@.len() implies (
            #[trigger] self.lines@[i]).wf() by {
                let k = if i < ln_number {
                    i
                } else {
                    i + 1
                };
                assert(self.lines@[i] == old(self).lines@[k]);
            }
        }
        Some(line)
    }

    fn insert_built(&mut self, ln_number: usize, content: Vec<char>, content_string: Arc<String>)
        requires
            old(self).wf(),
            old(self).model().rev < u64::MAX,
            old(self).model().next_line_id < u64::MAX,
            ln_number <= old(self).model().lines.len(),
            content_string@ == content@,
        ensures
            final(self).wf(),
            final(self).model() == old(self).model().inserted(ln_number, content@),
    {
        let rev = self.bump_rev();
        let line = Line { id: self.bump_line_id(), rev, content, content_string };
        self.lines.insert(ln_number, line);
        self.line_changed(ln_number);
        proof {
            let inserted = old(self).model().inserted(ln_number, content@);
            assert(self.model().lines =~= inserted.lines);
            old(self).model().lemma_inserted_valid(ln_number, content@);
            assert forall|i: int| 0 <= i < self.lines@.len() implies (
            #[trigger] self.lines@[i]).wf() by {
                if i != ln_number {
                    let k = if i < ln_number {
                        i
                    } else {
                        i - 1
                    };
                    assert(self.lines@[i] == old(self).lines@[k]);
                }
            }
        }
    }

    /// Puts a new line, made of what `s` converts to, at index `ln_number`.
    pub fn insert_line<S>(&mut self, ln_number: usize, s: S) where S: Into<LineContent>
        requires
            old(self).wf(),
            old(self).model().rev < u64::MAX,
            old(self).model().next_line_id < u64::MAX,
            ln_number <= old(self).model().lines.len(),
        ensures
            final(self).wf(),
            exists|lc: LineContent|
                call_ensures(<S as Into<LineContent>>::into, (s,), lc) && final(self).model()
                    == old(self).model().inserted(ln_number, lc@),
    {
        let lc: LineContent = s.into();
        proof {
            use_type_invariant(&lc);
        }
        let ghost held = lc;
        self.insert_built(ln_number, lc.content, lc.content_string);
        assert(call_ensures(<S as Into<LineContent>>::into, (s,), held) && self.model()
            == old(self).model().inserted(ln_number, held@));
    }

    /// Puts a new line of the given characters at index `ln_number`.
    pub fn insert_line_from_chars(&mut self, ln_number: usize, chars: Vec<char>)
        requires
            old(self).wf(),
            old(self).model().rev < u64::MAX,
            old(self).model().next_line_id < u64::MAX,
            ln_number <= old(self).model().lines.len(),
        ensures
            final(self).wf(),
            final(self).model() == old(self).model().inserted(ln_number, chars@),
    {
        let content_str = Arc::new(string_of(&chars));
        self.insert_built(ln_number, chars, content_str);
    }

    /// Takes a snapshot of the buffer: see `TextModel::snapshot`.
    pub fn view(&self) -> (tv: TextView)
        requires
            self.wf(),
        ensures
            tv@ == self.model().snapshot(),
            tv@.ordered(),
    {
        let mut line_views: Vec<LineView> = Vec::new();
        let mut rev_in_effect = Rev::default();
        let mut ln_number: usize = 0;
        while ln_number < self.lines.len()
            invariant
                self.wf(),
                ln_number <= self.lines@.len(),
                line_views@.len() == ln_number,
                ln_number > 0 ==> rev_in_effect@ == self.model().rev_in_effect(
                    (ln_number - 1) as usize,
                ),
                forall|i: int|
                    0 <= i < ln_number ==> (#[trigger] line_views@[i])@
                        == self.model().snapshot().lines[i],
            decreases self.lines@.len() - ln_number,
        {
            let ln = &self.lines[ln_number];
            match recorded_at(&self.revs_before, ln_number) {
                Some(rev) => {
                    rev_in_effect = Rev { rev };
                },
                None => {
                    if ln_number == 0 {
                        rev_in_effect = Rev { rev: 0 };
                    }
                },
            }
            line_views.push(
                LineView {
                    max_rev_before: rev_in_effect,
                    line_number: ln_number,
                    content_string: share(&ln.content_string),
                    line_id: ln.id,
                    line_rev: ln.rev,
                },
            );
            ln_number += 1;
        }
        proof {
            assert(self.model().lines.len() == self.lines@.len());
            self.model().law_snapshot_ordered();
            let held = Seq::new(line_views@.len(), |i: int| line_views@[i]@);
            assert(held =~= self.model().snapshot().lines);
        }
        TextView { rev: self.rev, lines: Arc::new(line_views) }
    }

    pub fn iter_lines(&self) -> (it: LineViewIterator)
        requires
            self.wf(),
        ensures
            it.remaining() == self.model().snapshot().lines,
    {
        self.view().iter_lines()
    }

    pub fn iter_line_range(&self, start: usize, end: usize) -> (it: LineViewIterator)
        requires
            self.wf(),
        ensures
            it.remaining() == TextView::range_of(self.model().snapshot().lines, start, end),
    {
        self.view().iter_line_range(start, end)
    }
}

} // verus!
