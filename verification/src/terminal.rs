//! Render diffing: what to paint of a session snapshot on a terminal of a
//! given size, given what each row showed after the last pass.
use crate::bouncer::Bouncer;
use crate::bouncer::BouncerModel;
use crate::bouncer::nanos;
use crate::format::decimal;
use crate::format::padded;
use crate::format::push_decimal;
use crate::format::push_padded_decimal;
use crate::highlight::HighlightRev;
use crate::highlight::HighlightState;
use crate::highlight::HighlightedLineModel;
use crate::highlight::shown_for;
use crate::state::Mode;
use crate::state::StateSnapshot;
use crate::state::StateSnapshotModel;
use crate::text::LineId;
use crate::text::LineView;
use crate::text::LineViewModel;
use crate::text::Rev;
use crate::text::TextView;
use std::time::Duration;
use vstd::prelude::*;
use vstd::string::StringExecFns;

verus! {

/// What a row showed when it was last painted.
#[derive(Clone, Copy, Debug, PartialEq, Eq)]
pub enum LineDisplayRevision {
    /// Nothing that could be shown again.
    New,
    /// A line, by its identity and own revision, in the revision of its
    /// styled form, on a screen of the given width and height.
    Previous { line_id: LineId, line_rev: Option<Rev>, hl_rev: Option<HighlightRev>, screen_dims: (
        u16,
        u16,
    ) },
    /// The mark of a row below the document, with the number shown in it, on
    /// a screen of the given width and height.
    Filler { number: usize, screen_dims: (u16, u16) },
}

impl LineDisplayRevision {
    pub fn from(
        line_id: LineId,
        line_rev: Rev,
        hl_rev: Option<HighlightRev>,
        screen_dims: (u16, u16),
    ) -> (r: Self)
        ensures
            r == (LineDisplayRevision::Previous {
                line_id,
                line_rev: Some(line_rev),
                hl_rev,
                screen_dims,
            }),
    {
        LineDisplayRevision::Previous { line_id, line_rev: Some(line_rev), hl_rev, screen_dims }
    }

    /// Whether a row that showed `previous` must be painted to show `self`:
    /// unless both are lines, or both are marks, and the same in every part.
    pub fn is_new(&self, previous: &LineDisplayRevision) -> (r: bool)
        ensures
            r == (*self is New || *previous is New || *self != *previous),
    {
        match (self, previous) {
            (LineDisplayRevision::New, _) => true,
            (_, LineDisplayRevision::New) => true,
            (
                LineDisplayRevision::Previous {
                    line_id: my_line_id,
                    line_rev: my_line_rev,
                    hl_rev: my_hl_rev,
                    screen_dims: my_screen_dims,
                },
                LineDisplayRevision::Previous { line_id, line_rev, hl_rev, screen_dims },
            ) => {
                my_line_id != line_id || !same_rev(my_line_rev, line_rev) || !same_highlight(
                    my_hl_rev,
                    hl_rev,
                ) || my_screen_dims.0 != screen_dims.0 || my_screen_dims.1 != screen_dims.1
            },
            (
                LineDisplayRevision::Filler { number: my_number, screen_dims: my_screen_dims },
                LineDisplayRevision::Filler { number, screen_dims },
            ) => {
                my_number != number || my_screen_dims.0 != screen_dims.0 || my_screen_dims.1
                    != screen_dims.1
            },
            _ => true,
        }
    }
}

fn same_rev(a: &Option<Rev>, b: &Option<Rev>) -> (r: bool)
    ensures
        r == (*a == *b),
{
    match (a, b) {
        (Some(x), Some(y)) => x == y,
        (None, None) => true,
        _ => false,
    }
}

fn same_highlight(a: &Option<HighlightRev>, b: &Option<HighlightRev>) -> (r: bool)
    ensures
        r == (*a == *b),
{
    match (a, b) {
        (Some(x), Some(y)) => x == y,
        (None, None) => true,
        _ => false,
    }
}

impl Default for LineDisplayRevision {
    fn default() -> (r: Self)
        ensures
            r == LineDisplayRevision::New,
    {
        LineDisplayRevision::New
    }
}

/// What is painted on one row of the text region.
pub enum RowPaintModel {
    /// Nothing: the row shows what it is to show.
    Unchanged,
    /// The row is cleared and gets the text of a line.
    Line(Seq<char>),
    /// The row is cleared and gets the mark of a row below the document.
    Filler(Seq<char>),
}

/// What is painted on one row of the text region.
pub enum RowPaint {
    Unchanged,
    Line(String),
    Filler(String),
}

impl View for RowPaint {
    type V = RowPaintModel;

    open spec fn view(&self) -> RowPaintModel {
        match self {
            RowPaint::Unchanged => RowPaintModel::Unchanged,
            RowPaint::Line(t) => RowPaintModel::Line(t@),
            RowPaint::Filler(t) => RowPaintModel::Filler(t@),
        }
    }
}

/// What one pass paints.
pub struct FrameModel {
    /// The rows of the text region from the top: entry `i` is for row `i + 1`.
    pub rows: Seq<RowPaintModel>,
    /// The row between the text region and the bottom row, which is cleared:
    /// the last but one of the screen, and the first where there is no other.
    pub blank_row: u16,
    /// The bottom row, which is cleared and gets `bottom`: the last of the
    /// screen, counted from 1.
    pub bottom_row: u16,
    pub bottom: Seq<char>,
    /// Where the cursor is put, as column and row, if it is put anywhere.
    pub cursor: Option<(u16, u16)>,
}

/// What one pass paints.
pub struct Frame {
    pub rows: Vec<RowPaint>,
    pub blank_row: u16,
    pub bottom_row: u16,
    pub bottom: String,
    pub cursor: Option<(u16, u16)>,
}

impl View for Frame {
    type V = FrameModel;

    open spec fn view(&self) -> FrameModel {
        FrameModel {
            rows: Seq::new(self.rows@.len(), |i: int| self.rows@[i]@),
            blank_row: self.blank_row,
            bottom_row: self.bottom_row,
            bottom: self.bottom@,
            cursor: self.cursor,
        }
    }
}

/// What the renderer last got from the session and from the highlighter.
pub struct DisplayInputs {
    pub editor: Option<StateSnapshotModel>,
    pub highlight: Option<Map<u64, HighlightedLineModel>>,
}

impl DisplayInputs {
    /// The same with a later snapshot of the session.
    pub open spec fn with_editor(self, editor: StateSnapshotModel) -> DisplayInputs {
        DisplayInputs { editor: Some(editor), ..self }
    }

    /// The same with later styled forms.
    pub open spec fn with_highlight(
        self,
        highlight: Map<u64, HighlightedLineModel>,
    ) -> DisplayInputs {
        DisplayInputs { highlight: Some(highlight), ..self }
    }
}

/// What the renderer last got from the session and from the highlighter.
pub struct StateForDisplay {
    pub editor_state: Option<StateSnapshot>,
    pub highlighter_state: Option<HighlightState>,
}

impl View for StateForDisplay {
    type V = DisplayInputs;

    open spec fn view(&self) -> DisplayInputs {
        DisplayInputs {
            editor: match self.editor_state {
                Some(s) => Some(s@),
                None => None,
            },
            highlight: match self.highlighter_state {
                Some(h) => Some(h@),
                None => None,
            },
        }
    }
}

/// The number of rows of the text region on a screen of height `h`: all but
/// the two at the bottom.
pub open spec fn text_height(h: u16) -> u16 {
    if h >= 2 {
        (h - 2) as u16
    } else {
        0
    }
}

/// The line shown on the first row: the one that puts the cursor's line on
/// the last row of the text region, or the first line where that is above it.
pub open spec fn top_line_for(cursor_line: usize, height: u16) -> usize {
    if height >= 1 && cursor_line >= height - 1 {
        (cursor_line - (height - 1)) as usize
    } else if height >= 1 {
        0
    } else {
        cursor_line
    }
}

/// The styled form shown for a line, if there is one.
pub open spec fn styled_for(
    highlight: Option<Map<u64, HighlightedLineModel>>,
    line: LineViewModel,
) -> Option<HighlightedLineModel> {
    match highlight {
        Some(h) => shown_for(h, line.id, line.rev),
        None => None,
    }
}

/// What a row shows once it shows `line`.
pub open spec fn row_key(
    highlight: Option<Map<u64, HighlightedLineModel>>,
    line: LineViewModel,
    w: u16,
    h: u16,
) -> LineDisplayRevision {
    LineDisplayRevision::Previous {
        line_id: LineId::numbered(line.id),
        line_rev: Some(Rev::numbered(line.rev)),
        hl_rev: match styled_for(highlight, line) {
            Some(s) => Some(s.rev),
            None => None,
        },
        screen_dims: (w, h),
    }
}

/// The text shown for the revision of a styled form.
pub open spec fn highlight_shown(hl_rev: Option<HighlightRev>) -> Seq<char> {
    match hl_rev {
        Some(HighlightRev::Rev { id }) => padded(decimal((id % 100) as nat), 2),
        _ => "-1"@,
    }
}

/// The text of a row that shows `line`: its number, its revision and that of
/// its styled form, and then its styled form, or its content where it has
/// none.
pub open spec fn row_text(
    highlight: Option<Map<u64, HighlightedLineModel>>,
    line: LineViewModel,
) -> Seq<char> {
    let styled = styled_for(highlight, line);
    padded(decimal(line.line_number as nat), 3) + "@"@ + padded(decimal(line.rev as nat), 2) + "/"@
        + highlight_shown(
        match styled {
            Some(s) => Some(s.rev),
            None => None,
        },
    ) + "|"@ + match styled {
        Some(s) => s.text,
        None => line.content,
    }
}

/// The number shown on row `row` where it lies below the document: that of
/// the line that would stand there.
pub open spec fn filler_number(top_line: usize, row: int) -> usize {
    if top_line + row - 1 > usize::MAX {
        usize::MAX
    } else {
        (top_line + row - 1) as usize
    }
}

/// The text of a row below the document: the number of the line that would
/// stand there, and a mark.
pub open spec fn filler_text(top_line: usize, row: int) -> Seq<char> {
    padded(decimal(filler_number(top_line, row) as nat), 2) + "|~"@
}

/// The name of a mode.
pub open spec fn mode_name(mode: Mode) -> Seq<char> {
    match mode {
        Mode::Insert => "Insert"@,
        Mode::Normal => "Normal"@,
        Mode::Command => "Command"@,
    }
}

/// The text of the bottom row: in command mode a colon and the end of the
/// command line, as far as the width allows; else the start of the status
/// text, the mode, and the cursor's line and column.
pub open spec fn bottom_text(editor: StateSnapshotModel, w: u16) -> Seq<char> {
    if editor.mode == Mode::Command {
        let len = editor.command_line.len() as int;
        let from = if len > w {
            len - w
        } else {
            0
        };
        ":"@ + editor.command_line.subrange(from, len)
    } else {
        let len = editor.status_text.len() as int;
        let room = if w >= 1 {
            w - 1
        } else {
            0
        };
        let upto = if len < room {
            len
        } else {
            room
        };
        editor.status_text.subrange(0, upto) + "\t"@ + mode_name(editor.mode) + "\t(l:"@ + decimal(
            editor.cursor_pos.line_number as nat,
        ) + ",c:"@ + decimal(editor.cursor_pos.colmun as nat) + ")"@
    }
}

/// Where the cursor is put, as column and row: on the row of its line, and
/// on its column behind the margin, both kept on the screen; nowhere in
/// command mode.
pub open spec fn cursor_for(editor: StateSnapshotModel, w: u16, h: u16) -> Option<(u16, u16)> {
    if editor.mode == Mode::Command {
        None
    } else {
        let height = text_height(h);
        let top = top_line_for(editor.cursor_pos.line_number, height);
        let down = editor.cursor_pos.line_number - top + 1;
        let row = if down > height {
            height
        } else {
            down as u16
        };
        let across = editor.cursor_pos.colmun + 11;
        let column = if across > w {
            w
        } else {
            across as u16
        };
        Some(
            (
                if column < 1 {
                    1u16
                } else {
                    column
                },
                if row < 1 {
                    1u16
                } else {
                    row
                },
            ),
        )
    }
}

/// What the renderer keeps between passes: the line on the first row, and
/// what each row showed when it was last painted.
pub struct DisplayModel {
    pub top_line: usize,
    pub last_displayed: Seq<LineDisplayRevision>,
}

impl DisplayModel {
    /// What each row showed, for the rows 0 to `h` of the screen: rows that
    /// the renderer has not seen yet showed nothing.
    pub open spec fn resized(self, h: u16) -> Seq<LineDisplayRevision> {
        Seq::new(
            (h + 1) as nat,
            |i: int|
                if i < self.last_displayed.len() {
                    self.last_displayed[i]
                } else {
                    LineDisplayRevision::New
                },
        )
    }

    /// The line that row `row` is to show, if the document reaches it.
    pub open spec fn line_on(editor: StateSnapshotModel, h: u16, row: int) -> Option<
        LineViewModel,
    > {
        let top = top_line_for(editor.cursor_pos.line_number, text_height(h));
        if top + row - 1 < editor.text.lines.len() {
            Some(editor.text.lines[top + row - 1])
        } else {
            None
        }
    }

    /// What row `row` of the text region is to show: a line of the document,
    /// or the mark of a row below it.
    pub open spec fn row_key_on(inputs: DisplayInputs, w: u16, h: u16, row: int) -> LineDisplayRevision
        recommends
            inputs.editor is Some,
    {
        let editor = inputs.editor->0;
        match Self::line_on(editor, h, row) {
            Some(line) => row_key(inputs.highlight, line, w, h),
            None => LineDisplayRevision::Filler {
                number: filler_number(
                    top_line_for(editor.cursor_pos.line_number, text_height(h)),
                    row,
                ),
                screen_dims: (w, h),
            },
        }
    }

    /// Whether row `row` of the text region does not yet show what it is to
    /// show.
    pub open spec fn row_changed(self, inputs: DisplayInputs, w: u16, h: u16, row: int) -> bool {
        self.resized(h)[row] is New || Self::row_key_on(inputs, w, h, row) != self.resized(h)[row]
    }

    /// What is painted on row `row` of the text region: nothing where the row
    /// shows what it is to show, else the line or the mark.
    pub open spec fn row_paint(
        self,
        inputs: DisplayInputs,
        w: u16,
        h: u16,
        row: int,
    ) -> RowPaintModel
        recommends
            inputs.editor is Some,
            1 <= row <= text_height(h),
    {
        let editor = inputs.editor->0;
        if self.row_changed(inputs, w, h, row) {
            match Self::line_on(editor, h, row) {
                Some(line) => RowPaintModel::Line(row_text(inputs.highlight, line)),
                None => RowPaintModel::Filler(
                    filler_text(top_line_for(editor.cursor_pos.line_number, text_height(h)), row),
                ),
            }
        } else {
            RowPaintModel::Unchanged
        }
    }

    /// What row `row` shows after the pass.
    pub open spec fn row_after(
        self,
        inputs: DisplayInputs,
        w: u16,
        h: u16,
        row: int,
    ) -> LineDisplayRevision {
        if inputs.editor is Some && 1 <= row <= text_height(h) {
            Self::row_key_on(inputs, w, h, row)
        } else {
            self.resized(h)[row]
        }
    }

    /// The renderer after a pass.
    pub open spec fn updated(self, inputs: DisplayInputs, w: u16, h: u16) -> DisplayModel {
        DisplayModel {
            top_line: match inputs.editor {
                Some(editor) => top_line_for(editor.cursor_pos.line_number, text_height(h)),
                None => self.top_line,
            },
            last_displayed: Seq::new((h + 1) as nat, |row: int| self.row_after(inputs, w, h, row)),
        }
    }

    /// A pass paints a row of the text region exactly where the row does not
    /// yet show what it is to show.
    pub proof fn law_paints_changed_rows(self, inputs: DisplayInputs, w: u16, h: u16, row: int)
        requires
            inputs.editor is Some,
            1 <= row <= text_height(h),
        ensures
            self.frame(inputs, w, h)->0.rows[row - 1] is Unchanged <==> !self.row_changed(
                inputs,
                w,
                h,
                row,
            ),
    {
    }

    /// A second pass over what the first pass was given paints no row of the
    /// text region.
    pub proof fn law_repeated_pass_paints_no_row(
        self,
        inputs: DisplayInputs,
        w: u16,
        h: u16,
        row: int,
    )
        requires
            inputs.editor is Some,
            1 <= row <= text_height(h),
        ensures
            self.updated(inputs, w, h).frame(inputs, w, h)->0.rows[row - 1] is Unchanged,
    {
        let after = self.updated(inputs, w, h);
        assert(after.resized(h)[row] == self.row_after(inputs, w, h, row));
    }

    /// Where the next pass is given the same as the last but for one row,
    /// which is to show something else, it paints that row and no other, and
    /// remembers what it was given for that row and what it had for the others.
    pub proof fn law_one_changed_row_one_paint(
        self,
        first: DisplayInputs,
        second: DisplayInputs,
        w: u16,
        h: u16,
        changed: int,
        row: int,
    )
        requires
            first.editor is Some,
            second.editor is Some,
            1 <= changed <= text_height(h),
            1 <= row <= text_height(h),
            Self::row_key_on(first, w, h, changed) != Self::row_key_on(second, w, h, changed),
            forall|r: int|
                1 <= r <= text_height(h) && r != changed ==> #[trigger] Self::row_key_on(
                    first,
                    w,
                    h,
                    r,
                ) == Self::row_key_on(second, w, h, r),
        ensures
            !(self.updated(first, w, h).frame(second, w, h)->0.rows[row - 1] is Unchanged) <==> row
                == changed,
            self.updated(first, w, h).updated(second, w, h).last_displayed[row] == if row
                == changed {
                Self::row_key_on(second, w, h, row)
            } else {
                self.updated(first, w, h).last_displayed[row]
            },
    {
        let after = self.updated(first, w, h);
        assert(after.resized(h)[row] == self.row_after(first, w, h, row));
        assert(Self::row_key_on(first, w, h, row) == Self::row_key_on(second, w, h, row) || row
            == changed);
    }

    /// After a change of the screen's size a pass paints every row of the
    /// text region that the pass before it had in its text region.
    pub proof fn law_resize_paints_every_row(
        self,
        first: DisplayInputs,
        second: DisplayInputs,
        w: u16,
        h: u16,
        w2: u16,
        h2: u16,
        row: int,
    )
        requires
            first.editor is Some,
            second.editor is Some,
            w != w2 || h != h2,
            1 <= row <= text_height(h2),
            row <= text_height(h),
        ensures
            !(self.updated(first, w, h).frame(second, w2, h2)->0.rows[row - 1] is Unchanged),
    {
        let after = self.updated(first, w, h);
        assert(after.resized(h2)[row] == self.row_after(first, w, h, row));
    }

    /// What a pass paints: nothing as long as the session has not been heard
    /// of.
    pub open spec fn frame(self, inputs: DisplayInputs, w: u16, h: u16) -> Option<FrameModel> {
        match inputs.editor {
            Some(editor) => Some(
                FrameModel {
                    rows: Seq::new(
                        text_height(h) as nat,
                        |i: int| self.row_paint(inputs, w, h, i + 1),
                    ),
                    blank_row: if h >= 2 {
                        (h - 1) as u16
                    } else {
                        1
                    },
                    bottom_row: if h >= 1 {
                        h
                    } else {
                        1
                    },
                    bottom: bottom_text(editor, w),
                    cursor: cursor_for(editor, w, h),
                },
            ),
            None => None,
        }
    }
}

/// The renderer's memory of what the screen shows.
pub struct TerminalDisplay {
    top_line: usize,
    last_displayed: Vec<LineDisplayRevision>,
}

impl View for TerminalDisplay {
    type V = DisplayModel;

    closed spec fn view(&self) -> DisplayModel {
        DisplayModel { top_line: self.top_line, last_displayed: self.last_displayed@ }
    }
}

fn mode_text(mode: &Mode) -> (r: &'static str)
    ensures
        r@ == mode_name(*mode),
{
    match mode {
        Mode::Insert => "Insert",
        Mode::Normal => "Normal",
        Mode::Command => "Command",
    }
}

fn bottom_line(editor: &StateSnapshot, w: u16) -> (r: String)
    ensures
        r@ == bottom_text(editor@, w),
{
    match editor.mode() {
        Mode::Command => {
            let command_text = editor.command_line();
            let len = command_text.unicode_len();
            let from = if len > w as usize {
                len - w as usize
            } else {
                0
            };
            let mut r = String::from_str(":");
            r.append(command_text.substring_char(from, len));
            r
        },
        _ => {
            let status_text = editor.status_text();
            let len = status_text.unicode_len();
            let room: usize = if w >= 1 {
                (w - 1) as usize
            } else {
                0
            };
            let upto = if len < room {
                len
            } else {
                room
            };
            let mut r = String::new();
            r.append(status_text.substring_char(0, upto));
            assert(r@ =~= editor@.status_text.subrange(0, upto as int));
            r.append("\t");
            r.append(mode_text(editor.mode()));
            r.append("\t(l:");
            push_decimal(&mut r, editor.cursor_pos().line_number as u64);
            r.append(",c:");
            push_decimal(&mut r, editor.cursor_pos().colmun as u64);
            r.append(")");
            r
        },
    }
}

fn cursor_place(editor: &StateSnapshot, w: u16, h: u16) -> (r: Option<(u16, u16)>)
    ensures
        r == cursor_for(editor@, w, h),
{
    match editor.mode() {
        Mode::Command => None,
        _ => {
            let height = height_of(h);
            let line = editor.cursor_pos().line_number;
            let top = top_of(line, height);
            let down = line - top;
            let row: u16 = if down >= height as usize {
                height
            } else {
                (down + 1) as u16
            };
            let col = editor.cursor_pos().colmun;
            let column: u16 = if col >= w as usize || w as usize - col < 11 {
                w
            } else {
                (col + 11) as u16
            };
            Some(
                (
                    if column < 1 {
                        1
                    } else {
                        column
                    },
                    if row < 1 {
                        1
                    } else {
                        row
                    },
                ),
            )
        },
    }
}

fn height_of(h: u16) -> (r: u16)
    ensures
        r == text_height(h),
{
    if h >= 2 {
        h - 2
    } else {
        0
    }
}

fn top_of(cursor_line: usize, height: u16) -> (r: usize)
    ensures
        r == top_line_for(cursor_line, height),
        r <= cursor_line,
{
    if height >= 1 && cursor_line >= (height - 1) as usize {
        cursor_line - (height - 1) as usize
    } else if height >= 1 {
        0
    } else {
        cursor_line
    }
}

fn line_text(highlight: &Option<HighlightState>, line: &LineView) -> (r: (
    String,
    Option<HighlightRev>,
))
    ensures
        r.0@ == row_text(
            match highlight {
                Some(h) => Some(h@),
                None => None,
            },
            line@,
        ),
        r.1 == match styled_for(
            match highlight {
                Some(h) => Some(h@),
                None => None,
            },
            line@,
        ) {
            Some(s) => Some(s.rev),
            None => None,
        },
{
    let styled = match highlight {
        Some(hls) => hls.highlighted_line(line),
        None => None,
    };
    let mut text = String::new();
    push_padded_decimal(&mut text, line.line_number() as u64, 3);
    text.append("@");
    push_padded_decimal(&mut text, line.rev().value(), 2);
    text.append("/");
    let hl_rev = match &styled {
        Some(hll) => Some(hll.rev()),
        None => None,
    };
    match hl_rev {
        Some(HighlightRev::Rev { id }) => {
            push_padded_decimal(&mut text, id % 100, 2);
        },
        _ => {
            text.append("-1");
        },
    }
    text.append("|");
    match &styled {
        Some(hll) => {
            let body = hll.highlighted_text();
            text.append(body.as_str());
        },
        None => {
            let body = line.content_str();
            text.append(body.as_str());
        },
    }
    (text, hl_rev)
}

fn filler_number_of(top_line: usize, row: u16) -> (number: usize)
    requires
        row >= 1,
    ensures
        number == filler_number(top_line, row as int),
{
    let offset = (row - 1) as usize;
    if top_line > usize::MAX - offset {
        usize::MAX
    } else {
        top_line + offset
    }
}

fn filler_line(number: usize) -> (r: String)
    ensures
        r@ == padded(decimal(number as nat), 2) + "|~"@,
{
    let mut r = String::new();
    push_padded_decimal(&mut r, number as u64, 2);
    r.append("|~");
    r
}

impl TerminalDisplay {
    /// The renderer that has painted nothing yet.
    pub fn new() -> (r: Self)
        ensures
            r@ == (DisplayModel { top_line: 0, last_displayed: Seq::empty() }),
    {
        TerminalDisplay { top_line: 0, last_displayed: Vec::new() }
    }

    /// One pass: says what to paint on a screen of width `w` and height `h`
    /// so that it shows `state`, and remembers what each row then shows. A
    /// row of the text region, be it one with a line or one below the
    /// document, is painted only where it showed something else than it is to
    /// show.
    pub fn update(&mut self, state: &StateForDisplay, w: u16, h: u16) -> (frame: Option<Frame>)
        ensures
            final(self)@ == old(self)@.updated(state@, w, h),
            match frame {
                Some(f) => Some(f@),
                None => None,
            } == old(self)@.frame(state@, w, h),
    {
        let text_view_height = height_of(h);
        self.last_displayed.resize(h as usize + 1, LineDisplayRevision::New);
        assert(self.last_displayed@ =~= old(self)@.resized(h));
        let editor_state = match &state.editor_state {
            Some(e) => e,
            None => {
                assert(self@.last_displayed =~= old(self)@.updated(state@, w, h).last_displayed);
                return None;
            },
        };
        let ghost inputs = state@;
        let ghost editor = editor_state@;
        let cursor_pos = editor_state.cursor_pos();
        self.top_line = top_of(cursor_pos.line_number, text_view_height);
        let top_line = self.top_line;
        let hlstate = &state.highlighter_state;
        let text = editor_state.text();
        let end = if top_line > usize::MAX - text_view_height as usize {
            usize::MAX
        } else {
            top_line + text_view_height as usize
        };
        proof {
            text.lemma_line_count_fits();
        }
        let mut text_lines = text.iter_line_range(top_line, end);
        let ghost range = TextView::range_of(editor.text.lines, top_line, end);
        let mut rows: Vec<RowPaint> = Vec::new();
        let mut output_line: u16 = 1;
        while output_line <= text_view_height
            invariant
                1 <= output_line <= text_view_height + 1,
                text_view_height == text_height(h),
                text_view_height < self.last_displayed@.len(),
                editor.text.lines.len() <= usize::MAX,
                self.last_displayed@.len() == h + 1,
                inputs == state@,
                inputs.editor == Some(editor),
                *hlstate == state.highlighter_state,
                top_line == top_line_for(editor.cursor_pos.line_number, text_view_height),
                self.top_line == top_line,
                range == TextView::range_of(editor.text.lines, top_line, end),
                end == if top_line + text_view_height > usize::MAX {
                    usize::MAX as int
                } else {
                    top_line + text_view_height
                },
                text_lines.remaining() == range.skip(
                    if output_line - 1 < range.len() {
                        output_line - 1
                    } else {
                        range.len() as int
                    },
                ),
                rows@.len() == output_line - 1,
                forall|i: int|
                    0 <= i < output_line - 1 ==> (#[trigger] rows@[i])@ == old(self)@.row_paint(
                        inputs,
                        w,
                        h,
                        i + 1,
                    ),
                forall|row: int|
                    0 <= row <= h ==> #[trigger] self.last_displayed@[row] == if 1 <= row
                        < output_line {
                        old(self)@.row_after(inputs, w, h, row)
                    } else {
                        old(self)@.resized(h)[row]
                    },
            decreases text_view_height + 1 - output_line,
        {
            let ghost before = text_lines.remaining();
            let ghost k = output_line - 1;
            match text_lines.next() {
                Some(line) => {
                    proof {
                        assert(k < range.len());
                        assert(before[0] == range[k]);
                        assert(range[k] == editor.text.lines[top_line + k]);
                        assert(DisplayModel::line_on(editor, h, output_line as int) == Some(
                            line@,
                        ));
                        assert(before.drop_first() =~= range.skip(k + 1));
                    }
                    let id = line.id();
                    let rev = line.rev();
                    proof {
                        id.lemma_numbered();
                        rev.lemma_numbered();
                    }
                    let (text, hl_rev) = line_text(hlstate, &line);
                    let now_key = LineDisplayRevision::from(id, rev, hl_rev, (w, h));
                    let should_render = now_key.is_new(&self.last_displayed[output_line as usize]);
                    if should_render {
                        rows.push(RowPaint::Line(text));
                        self.last_displayed[output_line as usize] = now_key;
                    } else {
                        rows.push(RowPaint::Unchanged);
                    }
                },
                None => {
                    proof {
                        assert(k >= range.len());
                        assert(top_line + k >= editor.text.lines.len());
                        assert(DisplayModel::line_on(editor, h, output_line as int) is None);
                    }
                    let number = filler_number_of(top_line, output_line);
                    let now_key = LineDisplayRevision::Filler { number, screen_dims: (w, h) };
                    let should_render = now_key.is_new(&self.last_displayed[output_line as usize]);
                    if should_render {
                        rows.push(RowPaint::Filler(filler_line(number)));
                        self.last_displayed[output_line as usize] = now_key;
                    } else {
                        rows.push(RowPaint::Unchanged);
                    }
                },
            }
            output_line += 1;
        }
        let frame = Frame {
            rows,
            blank_row: if h >= 2 {
                h - 1
            } else {
                1
            },
            bottom_row: if h >= 1 {
                h
            } else {
                1
            },
            bottom: bottom_line(editor_state, w),
            cursor: cursor_place(editor_state, w, h),
        };
        proof {
            assert(frame@.rows =~= old(self)@.frame(inputs, w, h)->0.rows);
            assert(self@.last_displayed =~= old(self)@.updated(inputs, w, h).last_displayed);
        }
        Some(frame)
    }
}

/// What the render loop is: the renderer's memory, what last arrived from
/// the session and from the highlighter, and the frame scheduler.
pub struct RendererModel {
    pub display: DisplayModel,
    pub inputs: DisplayInputs,
    pub deadline: BouncerModel,
}

impl RendererModel {
    /// The loop after something arrived `elapsed` nanoseconds after its
    /// start: a pass is due at the next deadline.
    pub open spec fn arrived_at(self, inputs: DisplayInputs, elapsed: u64) -> RendererModel {
        RendererModel { inputs, deadline: self.deadline.marked_at(elapsed), ..self }
    }

    /// The loop after it was asked for a pass `elapsed` nanoseconds after its
    /// start: where the deadline has come, the pass is made and the scheduler
    /// disarmed.
    pub open spec fn rendered_at(self, elapsed: u64, w: u16, h: u16) -> RendererModel {
        if self.deadline.expired_at(elapsed) {
            RendererModel {
                display: self.display.updated(self.inputs, w, h),
                deadline: BouncerModel { deadline: None, ..self.deadline },
                ..self
            }
        } else {
            self
        }
    }

    /// What is painted when the loop is asked for a pass `elapsed`
    /// nanoseconds after its start: nothing before the deadline.
    pub open spec fn frame_at(self, elapsed: u64, w: u16, h: u16) -> Option<FrameModel> {
        if self.deadline.expired_at(elapsed) {
            self.display.frame(self.inputs, w, h)
        } else {
            None
        }
    }
}

/// The render loop's decisions: it keeps what arrives, and makes a pass
/// when the frame scheduler's deadline has come.
pub struct Renderer {
    display: TerminalDisplay,
    last_state: StateForDisplay,
    render_start_deadline: Bouncer,
}

impl View for Renderer {
    type V = RendererModel;

    closed spec fn view(&self) -> RendererModel {
        RendererModel {
            display: self.display@,
            inputs: self.last_state@,
            deadline: self.render_start_deadline@,
        }
    }
}

/// The time between two deadlines of the render loop, in nanoseconds.
pub const FRAME_BUDGET: u64 = 16_000_000;

/// The grace window of the render loop, in nanoseconds.
pub const FRAME_GRACE: u64 = 2_000_000;

impl Renderer {
    /// The loop that has got nothing yet and is not armed.
    pub fn new() -> (r: Self)
        ensures
            r@ == (RendererModel {
                display: DisplayModel { top_line: 0, last_displayed: Seq::empty() },
                inputs: DisplayInputs { editor: None, highlight: None },
                deadline: BouncerModel {
                    period: FRAME_BUDGET,
                    grace: Some(FRAME_GRACE),
                    deadline: None,
                },
            }),
    {
        Renderer {
            display: TerminalDisplay::new(),
            last_state: StateForDisplay { editor_state: None, highlighter_state: None },
            render_start_deadline: Bouncer::builder().time_between_deadlines(
                Duration::from_nanos(FRAME_BUDGET),
            ).skip_hot_deadline(Duration::from_nanos(FRAME_GRACE)).build(),
        }
    }

    /// Keeps a snapshot of the session that `elapsed` nanoseconds after the
    /// start has arrived.
    pub fn state_arrived_at(&mut self, state: StateSnapshot, elapsed: u64)
        ensures
            final(self)@ == old(self)@.arrived_at(
                old(self)@.inputs.with_editor(state@),
                elapsed,
            ),
    {
        self.last_state.editor_state = Some(state);
        self.render_start_deadline.mark_at(elapsed);
    }

    /// Keeps a snapshot of the session that has arrived now.
    pub fn state_arrived(&mut self, state: StateSnapshot)
        ensures
            exists|elapsed: u64| #[trigger]
                old(self)@.arrived_at(
                    old(self)@.inputs.with_editor(state@),
                    elapsed,
                ) == final(self)@,
    {
        let elapsed = self.render_start_deadline.elapsed();
        self.state_arrived_at(state, elapsed);
    }

    /// Keeps styled forms that `elapsed` nanoseconds after the start have
    /// arrived.
    pub fn highlight_arrived_at(&mut self, highlight: HighlightState, elapsed: u64)
        ensures
            final(self)@ == old(self)@.arrived_at(
                old(self)@.inputs.with_highlight(highlight@),
                elapsed,
            ),
    {
        self.last_state.highlighter_state = Some(highlight);
        self.render_start_deadline.mark_at(elapsed);
    }

    /// Keeps styled forms that have arrived now.
    pub fn highlight_arrived(&mut self, highlight: HighlightState)
        ensures
            exists|elapsed: u64| #[trigger]
                old(self)@.arrived_at(
                    old(self)@.inputs.with_highlight(highlight@),
                    elapsed,
                ) == final(self)@,
    {
        let elapsed = self.render_start_deadline.elapsed();
        self.highlight_arrived_at(highlight, elapsed);
    }

    /// Makes a pass on a screen of width `w` and height `h` where the
    /// deadline has come `elapsed` nanoseconds after the start.
    pub fn render_at(&mut self, elapsed: u64, w: u16, h: u16) -> (frame: Option<Frame>)
        ensures
            final(self)@ == old(self)@.rendered_at(elapsed, w, h),
            match frame {
                Some(f) => Some(f@),
                None => None,
            } == old(self)@.frame_at(elapsed, w, h),
    {
        if self.render_start_deadline.expired_at(elapsed) {
            let frame = self.display.update(&self.last_state, w, h);
            self.render_start_deadline.clear();
            frame
        } else {
            None
        }
    }

    /// Makes a pass where the deadline has come.
    pub fn render_if_due(&mut self, w: u16, h: u16) -> (frame: Option<Frame>)
        ensures
            exists|elapsed: u64| #[trigger]
                old(self)@.rendered_at(elapsed, w, h) == final(self)@ && match frame {
                    Some(f) => Some(f@),
                    None => None,
                } == old(self)@.frame_at(elapsed, w, h),
    {
        let elapsed = self.render_start_deadline.elapsed();
        self.render_at(elapsed, w, h)
    }

    /// The time to wait for the deadline, or none where the loop is not
    /// armed.
    pub fn time_until_deadline(&self) -> (r: Option<Duration>)
        ensures
            r is Some <==> self@.deadline.deadline is Some,
            r matches Some(d) ==> exists|elapsed: u64|
                Some(nanos(d) as u64) == self@.deadline.left_at(elapsed),
    {
        self.render_start_deadline.duration_until_deadline()
    }
}

} // verus!
