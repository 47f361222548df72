//! The edit session: cursor, mode, command line and status text around the
//! text buffer, the commands that change them, and the notices that each
//! change leaves for the session's subscribers.
use crate::backing::joined;
use crate::backing::lemma_joined_push;
use crate::backing::split;
use crate::backing::split_lines;
use crate::format::decimal;
use crate::format::push_decimal;
use crate::pubsub::TopicId;
use crate::pubsub::typed_topic;
use crate::text::LineModel;
use crate::text::Text;
use crate::text::TextModel;
use crate::text::TextView;
use crate::text::TextViewModel;
use crate::text::push_char;
use crate::userinput::Event;
use crate::userinput::Key;
use vstd::prelude::*;
use vstd::string::StringExecFns;

verus! {

/// The topic on which snapshots of the text are published.
pub fn text_update_topic() -> (t: TopicId<TextView>)
    ensures
        t@ == "body-text"@,
{
    typed_topic("body-text")
}

/// The topic on which snapshots of the session are published.
pub fn state_update_topic() -> (t: TopicId<StateSnapshot>)
    ensures
        t@ == "state"@,
{
    typed_topic("state")
}

/// Where the cursor stands: a line of the buffer and a column in it.
#[derive(Clone, Copy, Debug, PartialEq, Eq, Structural)]
pub struct CursorPos {
    pub line_number: usize,
    pub colmun: usize,
}

/// The session's mode, which decides what a command means.
#[derive(Debug, PartialEq, Eq, Clone, Copy, Structural)]
pub enum Mode {
    Insert,
    Normal,
    Command,
}

/// What the session asks of the program after a command.
#[derive(Debug, PartialEq, Eq, Clone, Copy, Structural)]
pub enum EditorAction {
    Quit,
    Continue,
}

/// An editing command.
#[derive(Debug, Clone, Copy, PartialEq, Eq, Structural)]
pub enum Command {
    ShiftMode(Mode),
    DeleteAtCursor,
    InsertAtCursor(char),
    CommitCommandline,
    MoveCursor { lines_down: isize, columns_right: isize },
}

/// The command that a key stands for in a mode, if it stands for one.
pub open spec fn key_command(mode: Mode, k: Key) -> Option<Command> {
    match mode {
        Mode::Insert => match k {
            Key::Esc => Some(Command::ShiftMode(Mode::Normal)),
            Key::Backspace => Some(Command::DeleteAtCursor),
            Key::Char(c) => Some(Command::InsertAtCursor(c)),
            _ => None,
        },
        Mode::Command => match k {
            Key::Esc => Some(Command::ShiftMode(Mode::Normal)),
            Key::Backspace => Some(Command::DeleteAtCursor),
            Key::Char(c) => if c == '\n' {
                Some(Command::CommitCommandline)
            } else {
                Some(Command::InsertAtCursor(c))
            },
            _ => None,
        },
        Mode::Normal => match k {
            Key::Char(c) => if c == 'u' {
                Some(Command::MoveCursor { lines_down: -1isize, columns_right: 0 })
            } else if c == 'o' {
                Some(Command::MoveCursor { lines_down: 0, columns_right: 1 })
            } else if c == 'e' {
                Some(Command::MoveCursor { lines_down: 1, columns_right: 0 })
            } else if c == 'n' {
                Some(Command::MoveCursor { lines_down: 0, columns_right: -1isize })
            } else if c == ':' {
                Some(Command::ShiftMode(Mode::Command))
            } else if c == 'i' {
                Some(Command::ShiftMode(Mode::Insert))
            } else {
                None
            },
            _ => None,
        },
    }
}

/// The command that an event stands for in a mode: that of its key, and
/// none for any other event.
pub open spec fn event_command(mode: Mode, e: Event) -> Option<Command> {
    match e {
        Event::Key(k) => key_command(mode, k),
        _ => None,
    }
}

/// Maps an input event to the command it stands for in the current mode.
pub fn input_map(current_mode: &Mode, e: Event) -> (r: Option<Command>)
    ensures
        r == event_command(*current_mode, e),
{
    let k = match e {
        Event::Key(k) => k,
        _ => {
            return None;
        },
    };
    match current_mode {
        Mode::Insert => match k {
            Key::Esc => Some(Command::ShiftMode(Mode::Normal)),
            Key::Backspace => Some(Command::DeleteAtCursor),
            Key::Char(c) => Some(Command::InsertAtCursor(c)),
            _ => None,
        },
        Mode::Command => match k {
            Key::Esc => Some(Command::ShiftMode(Mode::Normal)),
            Key::Char('\n') => Some(Command::CommitCommandline),
            Key::Backspace => Some(Command::DeleteAtCursor),
            Key::Char(c) => Some(Command::InsertAtCursor(c)),
            _ => None,
        },
        Mode::Normal => match k {
            Key::Char('u') => Some(Command::MoveCursor { lines_down: -1, columns_right: 0 }),
            Key::Char('o') => Some(Command::MoveCursor { lines_down: 0, columns_right: 1 }),
            Key::Char('e') => Some(Command::MoveCursor { lines_down: 1, columns_right: 0 }),
            Key::Char('n') => Some(Command::MoveCursor { lines_down: 0, columns_right: -1 }),
            Key::Char(':') => Some(Command::ShiftMode(Mode::Command)),
            Key::Char('i') => Some(Command::ShiftMode(Mode::Insert)),
            _ => None,
        },
    }
}

/// What a session snapshot shows.
pub struct StateSnapshotModel {
    pub cursor_pos: CursorPos,
    pub text: TextViewModel,
    pub status_text: Seq<char>,
    pub mode: Mode,
    pub command_line: Seq<char>,
}

/// The session at a point in time, as its subscribers see it.
pub struct StateSnapshot {
    cursor_pos: CursorPos,
    text: TextView,
    status_text: String,
    mode: Mode,
    command_line: String,
}

impl View for StateSnapshot {
    type V = StateSnapshotModel;

    closed spec fn view(&self) -> StateSnapshotModel {
        StateSnapshotModel {
            cursor_pos: self.cursor_pos,
            text: self.text@,
            status_text: self.status_text@,
            mode: self.mode,
            command_line: self.command_line@,
        }
    }
}

impl Clone for StateSnapshot {
    fn clone(&self) -> (r: Self)
        ensures
            r@ == self@,
    {
        StateSnapshot {
            cursor_pos: self.cursor_pos,
            text: self.text.clone(),
            status_text: self.status_text.clone(),
            mode: self.mode,
            command_line: self.command_line.clone(),
        }
    }
}

impl StateSnapshot {
    pub fn cursor_pos(&self) -> (r: &CursorPos)
        ensures
            *r == self@.cursor_pos,
    {
        &self.cursor_pos
    }

    pub fn text(&self) -> (r: &TextView)
        ensures
            r@ == self@.text,
    {
        &self.text
    }

    pub fn mode(&self) -> (r: &Mode)
        ensures
            *r == self@.mode,
    {
        &self.mode
    }

    pub fn command_line(&self) -> (r: &str)
        ensures
            r@ == self@.command_line,
    {
        self.command_line.as_str()
    }

    pub fn status_text(&self) -> (r: &str)
        ensures
            r@ == self@.status_text,
    {
        self.status_text.as_str()
    }
}

/// What a notice says.
pub enum NoticeModel {
    Text(TextViewModel),
    State(StateSnapshotModel),
    Save(Seq<char>),
}

/// Something the session leaves for the program to hand on: a snapshot for
/// the subscribers of the text or of the session, or the document's content
/// for the backing store.
pub enum Notice {
    Text(TextView),
    State(StateSnapshot),
    Save(String),
}

impl View for Notice {
    type V = NoticeModel;

    open spec fn view(&self) -> NoticeModel {
        match self {
            Notice::Text(t) => NoticeModel::Text(t@),
            Notice::State(s) => NoticeModel::State(s@),
            Notice::Save(c) => NoticeModel::Save(c@),
        }
    }
}

/// What each of the notices says.
pub open spec fn notices(v: Seq<Notice>) -> Seq<NoticeModel> {
    Seq::new(v.len(), |i: int| v[i]@)
}

/// The text shown after a character was typed: its code (0 for a line
/// break) and the place where the cursor stood.
pub open spec fn typed_status(c: char, line: usize, column: usize) -> Seq<char> {
    let code = if c != '\n' {
        (c as u8) as nat
    } else {
        0
    };
    "char: "@ + decimal(code) + " @ ("@ + decimal(line as nat) + ","@ + decimal(column as nat)
        + ")"@
}

/// The text shown after the backing store failed with `reason`.
pub open spec fn failed_status(reason: Seq<char>) -> Seq<char> {
    "Failed to save file: "@ + reason
}

/// `n` moved by `delta` and kept between 0 and `max`.
pub open spec fn shifted_within(n: usize, delta: isize, max: usize) -> usize {
    if n + delta < 0 {
        0
    } else if n + delta > max {
        max
    } else {
        (n + delta) as usize
    }
}

fn shift_within(n: usize, delta: isize, max: usize) -> (r: usize)
    ensures
        r == shifted_within(n, delta, max),
{
    let moved = if delta >= 0 {
        let up = delta as usize;
        if n > usize::MAX - up {
            usize::MAX
        } else {
            n + up
        }
    } else {
        let down = (-(delta + 1)) as usize;
        if n <= down {
            0
        } else {
            n - down - 1
        }
    };
    if moved > max {
        max
    } else {
        moved
    }
}

fn typed_status_text(c: char, line: usize, column: usize) -> (s: String)
    ensures
        s@ == typed_status(c, line, column),
{
    let code = if c != '\n' {
        (c as u8) as usize
    } else {
        0
    };
    let mut s = String::from_str("char: ");
    push_decimal(&mut s, code as u64);
    s.append(" @ (");
    push_decimal(&mut s, line as u64);
    s.append(",");
    push_decimal(&mut s, column as u64);
    s.append(")");
    s
}

/// What a session is: cursor, mode, command line, status text, the buffer,
/// and the notices that wait to be handed on, oldest first.
pub struct StateModel {
    pub cursor_pos: CursorPos,
    pub text: TextModel,
    pub status_text: Seq<char>,
    pub mode: Mode,
    pub command_line: Seq<char>,
    pub outbox: Seq<NoticeModel>,
}

impl StateModel {
    /// The session that has just been opened on the given buffer.
    pub open spec fn opened(text: TextModel) -> StateModel {
        StateModel {
            cursor_pos: CursorPos { line_number: 0, colmun: 0 },
            text,
            status_text: Seq::empty(),
            mode: Mode::Normal,
            command_line: Seq::empty(),
            outbox: Seq::empty(),
        }
    }

    /// The cursor stands on a line of the buffer and not past its end, or at
    /// the origin where the buffer has no line.
    pub open spec fn cursor_in_text(self) -> bool {
        if self.text.lines.len() == 0 {
            self.cursor_pos.line_number == 0 && self.cursor_pos.colmun == 0
        } else {
            self.cursor_pos.line_number < self.text.lines.len() && self.cursor_pos.colmun
                <= self.text.lines[self.cursor_pos.line_number as int].content.len()
        }
    }

    /// No line of the buffer holds a line break.
    pub open spec fn single_lines(self) -> bool {
        forall|i: int|
            0 <= i < self.text.lines.len() ==> !(#[trigger] self.text.lines[i]).content.contains(
                '\n',
            )
    }

    /// The buffer is valid, the cursor stands in the text, and no line holds
    /// a line break.
    pub open spec fn valid(self) -> bool {
        &&& self.text.valid()
        &&& self.cursor_in_text()
        &&& self.cursor_pos.line_number < usize::MAX
        &&& self.single_lines()
    }

    /// The buffer's counters leave room for one more command.
    pub open spec fn has_room(self) -> bool {
        self.text.rev <= u64::MAX - 2 && self.text.next_line_id <= u64::MAX - 2
    }

    /// What the session's subscribers see of it.
    pub open spec fn snapshot(self) -> StateSnapshotModel {
        StateSnapshotModel {
            cursor_pos: self.cursor_pos,
            text: self.text.snapshot(),
            status_text: self.status_text,
            mode: self.mode,
            command_line: self.command_line,
        }
    }

    /// The session with a snapshot of itself added to the notices.
    pub open spec fn notified(self) -> StateModel {
        StateModel { outbox: self.outbox.push(NoticeModel::State(self.snapshot())), ..self }
    }

    /// The session with a snapshot of the text, and then one of itself, added
    /// to the notices.
    pub open spec fn text_notified(self) -> StateModel {
        StateModel {
            outbox: self.outbox.push(NoticeModel::Text(self.text.snapshot())).push(
                NoticeModel::State(self.snapshot()),
            ),
            ..self
        }
    }

    /// The session in mode `m`, with an empty command line, and notified.
    pub open spec fn shifted(self, m: Mode) -> StateModel {
        (StateModel { mode: m, command_line: Seq::empty(), ..self }).notified()
    }

    /// The document's content as the backing store gets it.
    pub open spec fn file_content(self) -> Seq<char> {
        joined(Seq::new(self.text.lines.len(), |i: int| self.text.lines[i].content))
    }

    /// The session after `c` was typed.
    pub open spec fn inserted(self, c: char) -> StateModel {
        match self.mode {
            Mode::Insert => {
                let ln = self.cursor_pos.line_number;
                let col = self.cursor_pos.colmun;
                let p = self.text.populated(ln);
                let line = p.lines[ln as int];
                if c == '\n' {
                    let cut = p.with_line(
                        ln,
                        LineModel { content: line.content.take(col as int), ..line },
                    );
                    (StateModel {
                        text: cut.inserted((ln + 1) as usize, line.content.skip(col as int)),
                        cursor_pos: CursorPos { line_number: (ln + 1) as usize, colmun: 0 },
                        status_text: typed_status(c, (ln + 1) as usize, col),
                        ..self
                    }).text_notified()
                } else {
                    (StateModel {
                        text: p.with_line(
                            ln,
                            LineModel { content: line.content.insert(col as int, c), ..line },
                        ),
                        cursor_pos: CursorPos { line_number: ln, colmun: (col + 1) as usize },
                        status_text: typed_status(c, ln, col),
                        ..self
                    }).text_notified()
                }
            },
            Mode::Command => if c == '\n' {
                self
            } else {
                (StateModel { command_line: self.command_line.push(c), ..self }).notified()
            },
            Mode::Normal => self,
        }
    }

    /// The session after a deletion at the cursor.
    pub open spec fn deleted(self) -> StateModel {
        match self.mode {
            Mode::Insert => {
                let ln = self.cursor_pos.line_number;
                let col = self.cursor_pos.colmun;
                if col > 0 {
                    let t = self.text.touched(ln);
                    let line = t.lines[ln as int];
                    (StateModel {
                        text: t.with_line(
                            ln,
                            LineModel { content: line.content.remove(col - 1), ..line },
                        ),
                        cursor_pos: CursorPos { line_number: ln, colmun: (col - 1) as usize },
                        ..self
                    }).text_notified()
                } else if ln == 0 {
                    if self.text.lines.len() == 1 && self.text.lines[0].content.len() == 0 {
                        (StateModel { text: self.text.removed(0), ..self }).text_notified()
                    } else {
                        self
                    }
                } else {
                    let gone = self.text.lines[ln as int];
                    let t = self.text.removed(ln).touched((ln - 1) as usize);
                    let prev = t.lines[ln - 1];
                    (StateModel {
                        text: t.with_line(
                            (ln - 1) as usize,
                            LineModel { content: prev.content + gone.content, ..prev },
                        ),
                        cursor_pos: CursorPos {
                            line_number: (ln - 1) as usize,
                            colmun: self.text.lines[ln - 1].content.len() as usize,
                        },
                        ..self
                    }).text_notified()
                }
            },
            Mode::Command => if self.command_line.len() > 0 {
                (StateModel { command_line: self.command_line.drop_last(), ..self }).notified()
            } else {
                self.shifted(Mode::Normal)
            },
            Mode::Normal => self,
        }
    }

    /// The session after the cursor was moved by so many lines.
    pub open spec fn moved_down(self, lines_down: isize) -> StateModel {
        let last = if self.text.lines.len() == 0 {
            0
        } else {
            (self.text.lines.len() - 1) as usize
        };
        let ln = shifted_within(self.cursor_pos.line_number, lines_down, last);
        let col = if ln < self.text.lines.len() {
            let len = self.text.lines[ln as int].content.len();
            if self.cursor_pos.colmun > len {
                len as usize
            } else {
                self.cursor_pos.colmun
            }
        } else {
            0
        };
        (StateModel { cursor_pos: CursorPos { line_number: ln, colmun: col }, ..self }).notified()
    }

    /// The session after the cursor was moved by so many columns.
    pub open spec fn moved_right(self, columns_right: isize) -> StateModel {
        let ln = self.cursor_pos.line_number;
        if ln < self.text.lines.len() {
            let len = self.text.lines[ln as int].content.len() as usize;
            (StateModel {
                cursor_pos: CursorPos {
                    line_number: ln,
                    colmun: shifted_within(self.cursor_pos.colmun, columns_right, len),
                },
                ..self
            }).notified()
        } else {
            self
        }
    }

    /// The session after the cursor was moved: by lines first, then by
    /// columns.
    pub open spec fn moved(self, lines_down: isize, columns_right: isize) -> StateModel {
        if lines_down == 0 && columns_right == 0 {
            self
        } else if columns_right == 0 {
            self.moved_down(lines_down)
        } else if lines_down == 0 {
            self.moved_right(columns_right)
        } else {
            self.moved_down(lines_down).moved_right(columns_right)
        }
    }

    /// The session after the command line was committed: back in normal
    /// mode, and with the document's content left for the backing store where
    /// the command line was `w`.
    pub open spec fn committed(self) -> StateModel {
        let back = self.shifted(Mode::Normal);
        if self.command_line == seq!['w'] {
            StateModel { outbox: back.outbox.push(NoticeModel::Save(self.file_content())), ..back }
        } else {
            back
        }
    }

    /// The session after a command.
    pub open spec fn step(self, c: Command) -> StateModel {
        match c {
            Command::ShiftMode(m) => self.shifted(m),
            Command::DeleteAtCursor => self.deleted(),
            Command::InsertAtCursor(ch) => self.inserted(ch),
            Command::CommitCommandline => if self.mode == Mode::Command {
                self.committed()
            } else {
                self
            },
            Command::MoveCursor { lines_down, columns_right } => if self.mode == Mode::Normal {
                self.moved(lines_down, columns_right)
            } else {
                self
            },
        }
    }

    /// What a command asks of the program: to quit where `q` is committed in
    /// command mode, else to go on.
    pub open spec fn action(self, c: Command) -> EditorAction {
        if c == Command::CommitCommandline && self.mode == Mode::Command && self.command_line
            == seq!['q'] {
            EditorAction::Quit
        } else {
            EditorAction::Continue
        }
    }

    /// The session after the backing store failed with `reason`.
    pub open spec fn save_failed(self, reason: Seq<char>) -> StateModel {
        (StateModel { status_text: failed_status(reason), ..self }).notified()
    }
}

/// The edit session.
pub struct State {
    cursor_pos: CursorPos,
    text: Text,
    status_text: String,
    mode: Mode,
    command_line: String,
    outbox: Vec<Notice>,
}

impl View for State {
    type V = StateModel;

    closed spec fn view(&self) -> StateModel {
        StateModel {
            cursor_pos: self.cursor_pos,
            text: self.text.model(),
            status_text: self.status_text@,
            mode: self.mode,
            command_line: self.command_line@,
            outbox: notices(self.outbox@),
        }
    }
}

/// The session on an empty buffer.
pub fn empty() -> (s: State)
    ensures
        s.wf(),
        s@ == StateModel::opened(TextModel::empty()),
{
    let s = State {
        cursor_pos: CursorPos { line_number: 0, colmun: 0 },
        text: Text::new(),
        status_text: String::new(),
        mode: Mode::Normal,
        command_line: String::new(),
        outbox: Vec::new(),
    };
    assert(s@.outbox =~= Seq::empty());
    s
}

/// The session opened on a file with the given content: the buffer holds
/// the file's lines, and a snapshot of the text and one of the session wait
/// to be handed on.
pub fn from_file(content: &str) -> (s: State)
    ensures
        s.wf(),
        s@ == StateModel::opened(TextModel::loaded(split(content@))).text_notified(),
{
    let lines = split_lines(content);
    let mut s = State {
        cursor_pos: CursorPos { line_number: 0, colmun: 0 },
        text: Text::from(lines.as_slice()),
        status_text: String::new(),
        mode: Mode::Normal,
        command_line: String::new(),
        outbox: Vec::new(),
    };
    proof {
        assert(s@.outbox =~= Seq::empty());
        s.text.lemma_wf_valid();
        assert forall|i: int| 0 <= i < s@.text.lines.len() implies !(
        #[trigger] s@.text.lines[i]).content.contains('\n') by {
            assert(s@.text.lines[i].content == lines@[i]@);
        }
    }
    s.notify_text_change();
    s
}

impl State {
    /// The buffer is well formed and the session's model is valid.
    pub closed spec fn wf(&self) -> bool {
        self.text.wf() && self@.valid()
    }

    /// A well-formed session is valid.
    pub proof fn lemma_wf_valid(&self)
        requires
            self.wf(),
        ensures
            self@.valid(),
    {
    }

    /// Whether the buffer's counters leave room for one more command.
    pub fn has_room(&self) -> (b: bool)
        ensures
            b == self@.has_room(),
    {
        self.text.rev().value() <= u64::MAX - 2 && self.text.last_line_id().value() <= u64::MAX
            - 2
    }

    /// Whether a command changes the buffer, so that the buffer's counters
    /// must leave room for it.
    pub fn changes_text(&self, c: &Command) -> (b: bool)
        requires
            self.wf(),
        ensures
            b == (self@.text_ops(*c).len() > 0),
    {
        match self.mode {
            Mode::Insert => match c {
                Command::InsertAtCursor(_) => true,
                Command::DeleteAtCursor => {
                    if self.cursor_pos.colmun > 0 || self.cursor_pos.line_number > 0 {
                        true
                    } else {
                        self.text.line_count() == 1 && match self.text.line(0) {
                            Some(l) => l.char_count() == 0,
                            None => false,
                        }
                    }
                },
                _ => false,
            },
            _ => false,
        }
    }

    pub fn status_text(&self) -> (r: &str)
        ensures
            r@ == self@.status_text,
    {
        self.status_text.as_str()
    }

    pub fn mode(&self) -> (r: &Mode)
        ensures
            *r == self@.mode,
    {
        &self.mode
    }

    pub fn cursor_pos(&self) -> (r: &CursorPos)
        ensures
            *r == self@.cursor_pos,
    {
        &self.cursor_pos
    }

    pub fn command_line(&self) -> (r: &str)
        ensures
            r@ == self@.command_line,
    {
        self.command_line.as_str()
    }

    pub fn text(&self) -> (r: &Text)
        requires
            self.wf(),
        ensures
            r.wf(),
            r.model() == self@.text,
    {
        &self.text
    }

    /// Hands over the notices that wait, oldest first, and leaves none.
    pub fn take_notices(&mut self) -> (r: Vec<Notice>)
        ensures
            notices(r@) == old(self)@.outbox,
            final(self)@ == (StateModel { outbox: Seq::empty(), ..old(self)@ }),
            old(self).wf() ==> final(self).wf(),
    {
        let mut taken: Vec<Notice> = Vec::new();
        std::mem::swap(&mut taken, &mut self.outbox);
        assert(self@.outbox =~= Seq::empty());
        taken
    }

    fn notify_change(&mut self)
        requires
            old(self).wf(),
        ensures
            final(self).wf(),
            final(self)@ == old(self)@.notified(),
    {
        let snapshot = StateSnapshot {
            cursor_pos: self.cursor_pos,
            text: self.text.view(),
            status_text: self.status_text.clone(),
            mode: self.mode,
            command_line: self.command_line.clone(),
        };
        self.outbox.push(Notice::State(snapshot));
        assert(self@.outbox =~= old(self)@.notified().outbox);
    }

    fn notify_text_change(&mut self)
        requires
            old(self).wf(),
        ensures
            final(self).wf(),
            final(self)@ == old(self)@.text_notified(),
    {
        let view = self.text.view();
        self.outbox.push(Notice::Text(view));
        assert(self@.outbox =~= old(self)@.outbox.push(NoticeModel::Text(self@.text.snapshot())));
        self.notify_change();
    }

    /// Puts the session in mode `m` and clears the command line.
    pub fn shift_mode(&mut self, m: Mode)
        requires
            old(self).wf(),
        ensures
            final(self).wf(),
            final(self)@ == old(self)@.shifted(m),
    {
        self.mode = m;
        self.command_line = String::new();
        self.notify_change();
    }

    /// Types `c` at the cursor: into the document in insert mode, where a
    /// line break splits the line; onto the command line in command mode.
    pub fn insert(&mut self, c: char)
        requires
            old(self).wf(),
            old(self)@.mode == Mode::Insert ==> old(self)@.has_room(),
        ensures
            final(self).wf(),
            final(self)@ == old(self)@.inserted(c),
    {
        match self.mode {
            Mode::Insert => {
                let cur_ln = self.cursor_pos.line_number;
                let cur_col = self.cursor_pos.colmun;
                let ghost populated = old(self)@.text.populated(cur_ln);
                proof {
                    old(self)@.text.lemma_populated_valid(cur_ln);
                    self.text.lemma_line_count_fits();
                }
                let l = self.text.line_mut_populate(cur_ln);
                let ghost line = l@;
                if c == '\n' {
                    let rest_of_line = l.split_off(cur_col);
                    proof {
                        let cut = populated.with_line(
                            cur_ln,
                            LineModel { content: line.content.take(cur_col as int), ..line },
                        );
                        populated.lemma_with_line_valid(
                            cur_ln,
                            LineModel { content: line.content.take(cur_col as int), ..line },
                        );
                        cut.lemma_inserted_valid(
                            (cur_ln + 1) as usize,
                            line.content.skip(cur_col as int),
                        );
                    }
                    self.text.insert_line_from_chars(cur_ln + 1, rest_of_line);
                    self.cursor_pos.line_number = cur_ln + 1;
                    self.cursor_pos.colmun = 0;
                    self.status_text = typed_status_text(c, cur_ln + 1, cur_col);
                } else {
                    l.insert(cur_col, c);
                    proof {
                        l.lemma_char_count_fits();
                        populated.lemma_with_line_valid(
                            cur_ln,
                            LineModel { content: line.content.insert(cur_col as int, c), ..line },
                        );
                    }
                    self.cursor_pos.colmun = cur_col + 1;
                    self.status_text = typed_status_text(c, cur_ln, cur_col);
                }
                proof {
                    let before = old(self)@;
                    let now = self@;
                    self.text.lemma_line_count_fits();
                    self.text.lemma_wf_valid();
                    assert(now.text == before.inserted(c).text);
                    assert(now.cursor_in_text());
                    assert forall|i: int| 0 <= i < now.text.lines.len() implies !(
                    #[trigger] now.text.lines[i]).content.contains('\n') by {
                        lemma_insert_keeps_single_lines(before, c, i);
                    }
                }
                self.notify_text_change();
            },
            Mode::Command => {
                if c != '\n' {
                    push_char(&mut self.command_line, c);
                    self.notify_change();
                }
            },
            Mode::Normal => {},
        }
    }

    /// Deletes at the cursor. In insert mode: the character before the
    /// cursor; at the start of a line, the line is joined onto the one above
    /// it; at the start of the first line nothing happens, unless the buffer
    /// is one empty line, which is then removed. In command mode: the last
    /// character of the command line, or back to normal mode where there is
    /// none.
    pub fn delete(&mut self)
        requires
            old(self).wf(),
            old(self)@.text_ops(Command::DeleteAtCursor).len() > 0 ==> old(self)@.has_room(),
        ensures
            final(self).wf(),
            final(self)@ == old(self)@.deleted(),
    {
        match self.mode {
            Mode::Insert => {
                let cur_col = self.cursor_pos.colmun;
                let cur_row = self.cursor_pos.line_number;
                let count = self.text.line_count();
                if cur_col > 0 {
                    let ghost touched = old(self)@.text.touched(cur_row);
                    proof {
                        old(self)@.text.lemma_touched_valid(cur_row);
                    }
                    match self.text.line_mut(cur_row) {
                        Some(line) => {
                            let ghost whole = line@;
                            line.remove_char(cur_col - 1);
                            proof {
                                touched.lemma_with_line_valid(
                                    cur_row,
                                    LineModel {
                                        content: whole.content.remove(cur_col - 1),
                                        ..whole
                                    },
                                );
                            }
                        },
                        None => {},
                    }
                    self.cursor_pos.colmun = cur_col - 1;
                } else if cur_row == 0 {
                    let only_empty = count == 1 && match self.text.line(0) {
                        Some(l) => l.char_count() == 0,
                        None => false,
                    };
                    if !only_empty {
                        return ;
                    }
                    self.text.remove_line(0);
                } else {
                    let end_of_prev_line = match self.text.line(cur_row - 1) {
                        Some(l) => l.char_count(),
                        None => 0,
                    };
                    proof {
                        old(self)@.text.lemma_removed_valid(cur_row);
                        old(self)@.text.removed(cur_row).lemma_touched_valid(
                            (cur_row - 1) as usize,
                        );
                    }
                    let ghost touched = old(self)@.text.removed(cur_row).touched(
                        (cur_row - 1) as usize,
                    );
                    let cur_line = self.text.remove_line(cur_row);
                    match cur_line {
                        Some(cur_line) => {
                            match self.text.line_mut(cur_row - 1) {
                                Some(prev_row) => {
                                    let ghost whole = prev_row@;
                                    prev_row.extend_line(cur_line);
                                    proof {
                                        touched.lemma_with_line_valid(
                                            (cur_row - 1) as usize,
                                            LineModel {
                                                content: whole.content + cur_line@.content,
                                                ..whole
                                            },
                                        );
                                    }
                                },
                                None => {},
                            }
                        },
                        None => {},
                    }
                    self.cursor_pos.line_number = cur_row - 1;
                    self.cursor_pos.colmun = end_of_prev_line;
                }
                proof {
                    let before = old(self)@;
                    let now = self@;
                    self.text.lemma_wf_valid();
                    assert(now.text == before.deleted().text);
                    assert(now.cursor_in_text());
                    assert forall|i: int| 0 <= i < now.text.lines.len() implies !(
                    #[trigger] now.text.lines[i]).content.contains('\n') by {
                        lemma_delete_keeps_single_lines(before, i);
                    }
                }
                self.notify_text_change();
            },
            Mode::Command => {
                if self.command_line.as_str().unicode_len() > 0 {
                    pop_char(&mut self.command_line);
                    self.notify_change();
                } else {
                    self.shift_mode(Mode::Normal);
                }
            },
            Mode::Normal => {},
        }
    }

    fn move_down(&mut self, lines_down: isize)
        requires
            old(self).wf(),
        ensures
            final(self).wf(),
            final(self)@ == old(self)@.moved_down(lines_down),
    {
        let count = self.text.line_count();
        let last = if count == 0 {
            0
        } else {
            count - 1
        };
        let ln = shift_within(self.cursor_pos.line_number, lines_down, last);
        let col = match self.text.line(ln) {
            Some(l) => {
                let len = l.char_count();
                if self.cursor_pos.colmun > len {
                    len
                } else {
                    self.cursor_pos.colmun
                }
            },
            None => 0,
        };
        self.cursor_pos.line_number = ln;
        self.cursor_pos.colmun = col;
        self.notify_change();
    }

    fn move_right(&mut self, columns_right: isize)
        requires
            old(self).wf(),
        ensures
            final(self).wf(),
            final(self)@ == old(self)@.moved_right(columns_right),
    {
        let len = match self.text.line(self.cursor_pos.line_number) {
            Some(l) => l.char_count(),
            None => {
                return ;
            },
        };
        self.cursor_pos.colmun = shift_within(self.cursor_pos.colmun, columns_right, len);
        self.notify_change();
    }

    /// Moves the cursor by so many lines and columns, keeping it on a line
    /// of the buffer and not past the line's end.
    pub fn move_cursor(&mut self, direction: (isize, isize))
        requires
            old(self).wf(),
        ensures
            final(self).wf(),
            final(self)@ == old(self)@.moved(direction.0, direction.1),
    {
        let (lines_down, columns_right) = direction;
        if lines_down != 0 {
            self.move_down(lines_down);
        }
        if columns_right != 0 {
            self.move_right(columns_right);
        }
    }

    /// The document's content as the backing store gets it: each line
    /// followed by a line break.
    pub fn file_content(&self) -> (content: String)
        requires
            self.wf(),
        ensures
            content@ == self@.file_content(),
    {
        let mut content = String::new();
        let count = self.text.line_count();
        let ghost lines = Seq::new(self@.text.lines.len(), |i: int| self@.text.lines[i].content);
        let mut i: usize = 0;
        while i < count
            invariant
                self.wf(),
                count == self@.text.lines.len(),
                lines == Seq::new(self@.text.lines.len(), |i: int| self@.text.lines[i].content),
                i <= count,
                content@ == joined(lines.take(i as int)),
            decreases count - i,
        {
            match self.text.line(i) {
                Some(l) => {
                    let text = l.content_string();
                    content.append(text.as_str());
                },
                None => {},
            }
            push_char(&mut content, '\n');
            i += 1;
            proof {
                lemma_joined_push(lines.take(i - 1), lines[i - 1]);
                assert(lines.take(i as int) =~= lines.take(i - 1).push(lines[i - 1]));
                assert(content@ =~= joined(lines.take(i as int)));
            }
        }
        assert(lines.take(count as int) =~= lines);
        content
    }

    fn commit_command(&mut self) -> (action: EditorAction)
        requires
            old(self).wf(),
            old(self)@.mode == Mode::Command,
        ensures
            final(self).wf(),
            final(self)@ == old(self)@.committed(),
            action == old(self)@.action(Command::CommitCommandline),
    {
        let quit = is_single(self.command_line.as_str(), 'q');
        let write = is_single(self.command_line.as_str(), 'w');
        let ghost content = self@.file_content();
        self.shift_mode(Mode::Normal);
        if quit {
            assert(old(self)@.command_line[0] == 'q' && seq!['w'][0] == 'w');
            EditorAction::Quit
        } else if write {
            assert(self@.file_content() == content);
            let content = self.file_content();
            self.outbox.push(Notice::Save(content));
            assert(self@.outbox =~= old(self)@.committed().outbox);
            EditorAction::Continue
        } else {
            EditorAction::Continue
        }
    }

    /// Carries out a command as the session's mode gives it meaning, and
    /// says whether the program is to quit. The buffer's counters must leave
    /// room for the command where it changes the buffer.
    pub fn dispatch(&mut self, c: Command) -> (action: EditorAction)
        requires
            old(self).wf(),
            old(self)@.text_ops(c).len() > 0 ==> old(self)@.has_room(),
        ensures
            final(self).wf(),
            final(self)@ == old(self)@.step(c),
            action == old(self)@.action(c),
    {
        match c {
            Command::ShiftMode(m) => {
                self.shift_mode(m);
                EditorAction::Continue
            },
            Command::DeleteAtCursor => {
                self.delete();
                EditorAction::Continue
            },
            Command::InsertAtCursor(ch) => {
                self.insert(ch);
                EditorAction::Continue
            },
            Command::CommitCommandline => {
                match self.mode {
                    Mode::Command => self.commit_command(),
                    _ => EditorAction::Continue,
                }
            },
            Command::MoveCursor { lines_down, columns_right } => {
                match self.mode {
                    Mode::Normal => {
                        self.move_cursor((lines_down, columns_right));
                    },
                    _ => {},
                }
                EditorAction::Continue
            },
        }
    }

    /// Shows that the backing store failed, with its reason, in the status
    /// text.
    pub fn save_failed(&mut self, reason: &str)
        requires
            old(self).wf(),
        ensures
            final(self).wf(),
            final(self)@ == old(self)@.save_failed(reason@),
    {
        let mut status = String::from_str("Failed to save file: ");
        status.append(reason);
        self.status_text = status;
        self.notify_change();
    }
}

/// Whether `s` is the one character `c`.
fn is_single(s: &str, c: char) -> (b: bool)
    ensures
        b == (s@ == seq![c]),
{
    if s.unicode_len() == 1 {
        let first = s.get_char(0);
        assert(first == c ==> s@ =~= seq![c]);
        first == c
    } else {
        false
    }
}

/// `String::pop`, with what it returns dropped: the string loses its last
/// character, or stays empty.
#[verifier::external_body]
fn pop_char(s: &mut String)
    ensures
        old(s)@.len() > 0 ==> final(s)@ == old(s)@.drop_last(),
        old(s)@.len() == 0 ==> final(s)@ == old(s)@,
{
    let _ = s.pop();
}

/// A deletion leaves no line with a line break in it.
proof fn lemma_delete_keeps_single_lines(before: StateModel, i: int)
    requires
        before.valid(),
        before.has_room(),
        before.mode == Mode::Insert,
        0 <= i < before.deleted().text.lines.len(),
    ensures
        !before.deleted().text.lines[i].content.contains('\n'),
{
    let ln = before.cursor_pos.line_number;
    let col = before.cursor_pos.colmun as int;
    let after = before.deleted().text;
    let s = after.lines[i].content;
    if col > 0 {
        let whole = before.text.lines[ln as int].content;
        assert(!whole.contains('\n'));
        if i == ln {
            assert(s == whole.remove(col - 1));
            assert forall|k: int| 0 <= k < s.len() implies s[k] != '\n' by {
                if k < col - 1 {
                    assert(whole.contains(whole[k]));
                } else {
                    assert(whole.contains(whole[k + 1]));
                }
            }
        } else {
            assert(s == before.text.lines[i].content);
        }
    } else if ln == 0 {
        if before.text.lines.len() == 1 && before.text.lines[0].content.len() == 0 {
        } else {
            assert(s == before.text.lines[i].content);
        }
    } else {
        let gone = before.text.lines[ln as int].content;
        let prev = before.text.lines[ln - 1].content;
        assert(!gone.contains('\n'));
        assert(!prev.contains('\n'));
        let removed = before.text.removed(ln);
        if i == ln - 1 {
            assert(removed.lines[i].content == prev);
            assert(s == prev + gone);
            assert forall|k: int| 0 <= k < s.len() implies s[k] != '\n' by {
                if k < prev.len() {
                    assert(prev.contains(prev[k]));
                } else {
                    assert(gone.contains(gone[k - prev.len()]));
                }
            }
        } else {
            let k = if i < ln {
                i
            } else {
                i + 1
            };
            assert(removed.lines[i].content == before.text.lines[k].content);
            assert(s == before.text.lines[k].content);
        }
    }
}

/// Typing a character leaves no line with a line break in it.
proof fn lemma_insert_keeps_single_lines(before: StateModel, c: char, i: int)
    requires
        before.valid(),
        before.has_room(),
        before.mode == Mode::Insert,
        0 <= i < before.inserted(c).text.lines.len(),
    ensures
        !before.inserted(c).text.lines[i].content.contains('\n'),
{
    let ln = before.cursor_pos.line_number;
    let col = before.cursor_pos.colmun as int;
    let p = before.text.populated(ln);
    let after = before.inserted(c).text;
    let s = after.lines[i].content;
    if before.text.lines.len() == 0 {
        assert(p.lines[0].content =~= Seq::empty());
    } else {
        assert(p.lines[ln as int].content == before.text.lines[ln as int].content);
    }
    let whole = p.lines[ln as int].content;
    assert(!whole.contains('\n')) by {
        if before.text.lines.len() != 0 {
            assert(!before.text.lines[ln as int].content.contains('\n'));
        }
    }
    if c == '\n' {
        let cut = p.with_line(ln, LineModel { content: whole.take(col), ..p.lines[ln as int] });
        assert(after == cut.inserted((ln + 1) as usize, whole.skip(col)));
        if i == ln {
            assert(s == cut.lines[i].content);
            assert(s == whole.take(col));
            assert forall|k: int| 0 <= k < s.len() implies s[k] != '\n' by {
                assert(whole.contains(whole[k]));
            }
        } else if i == ln + 1 {
            assert(s == whole.skip(col));
            assert forall|k: int| 0 <= k < s.len() implies s[k] != '\n' by {
                assert(whole.contains(whole[k + col]));
            }
        } else {
            let k = if i < ln {
                i
            } else {
                i - 1
            };
            assert(s == cut.lines[k].content);
            assert(s == before.text.lines[k].content);
        }
    } else {
        if i == ln {
            assert(s == whole.insert(col, c));
            assert forall|k: int| 0 <= k < s.len() implies s[k] != '\n' by {
                if k < col {
                    assert(whole.contains(whole[k]));
                } else if k > col {
                    assert(whole.contains(whole[k - 1]));
                }
            }
        } else {
            assert(s == before.text.lines[i].content);
        }
    }
}

} // verus!
