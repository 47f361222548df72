use jete::state::empty;
use jete::state::from_file;
use jete::state::input_map;
use jete::state::state_update_topic;
use jete::state::text_update_topic;
use jete::state::Command;
use jete::state::CursorPos;
use jete::state::EditorAction;
use jete::state::Mode;
use jete::state::Notice;
use jete::state::State;
use jete::text::Rev;
use jete::userinput::Event;
use jete::userinput::Key;
use jete::userinput::MouseEvent;

fn lines_of(s: &State) -> Vec<String> {
    let mut out = Vec::new();
    let mut it = s.text().iter_lines();
    while let Some(l) = it.next() {
        out.push(l.content_str().to_string());
    }
    out
}

fn cursor(s: &State) -> (usize, usize) {
    (s.cursor_pos().line_number, s.cursor_pos().colmun)
}

fn typed(s: &mut State, text: &str) {
    for c in text.chars() {
        assert_eq!(s.dispatch(Command::InsertAtCursor(c)), EditorAction::Continue);
    }
}

fn kinds(notices: &[Notice]) -> Vec<&'static str> {
    notices
        .iter()
        .map(|n| match n {
            Notice::Text(_) => "text",
            Notice::State(_) => "state",
            Notice::Save(_) => "save",
        })
        .collect()
}

#[test]
fn end_to_end_insert_delete_quit() {
    let mut s = empty();
    assert_eq!(s.dispatch(Command::ShiftMode(Mode::Insert)), EditorAction::Continue);
    typed(&mut s, "ab\nc");
    assert_eq!(lines_of(&s), vec!["ab".to_string(), "c".to_string()]);
    assert_eq!(cursor(&s), (1, 1));

    assert_eq!(s.dispatch(Command::DeleteAtCursor), EditorAction::Continue);
    assert_eq!(lines_of(&s), vec!["ab".to_string(), "".to_string()]);
    assert_eq!(cursor(&s), (1, 0));
    assert_eq!(s.dispatch(Command::DeleteAtCursor), EditorAction::Continue);
    assert_eq!(lines_of(&s), vec!["ab".to_string()]);
    assert_eq!(cursor(&s), (0, 2));

    let rev_before = s.text().rev();
    assert_eq!(s.dispatch(Command::ShiftMode(Mode::Command)), EditorAction::Continue);
    assert_eq!(s.dispatch(Command::InsertAtCursor('q')), EditorAction::Continue);
    assert_eq!(s.command_line(), "q");
    assert_eq!(s.dispatch(Command::CommitCommandline), EditorAction::Quit);
    assert_eq!(s.text().rev(), rev_before);
    assert_eq!(lines_of(&s), vec!["ab".to_string()]);
    assert_eq!(*s.mode(), Mode::Normal);
    assert_eq!(s.command_line(), "");
}

#[test]
fn typing_raises_the_revision_and_moving_does_not() {
    let mut s = empty();
    s.shift_mode(Mode::Insert);
    assert_eq!(s.text().rev(), Rev::from(0));
    s.insert('a');
    assert_eq!(s.text().rev(), Rev::from(1));
    s.insert('\n');
    assert_eq!(s.text().rev(), Rev::from(3));
    s.insert('b');
    assert_eq!(s.text().rev(), Rev::from(4));
    s.shift_mode(Mode::Normal);
    s.move_cursor((-1, 0));
    s.move_cursor((0, 1));
    s.move_cursor((1, -1));
    assert_eq!(s.dispatch(Command::MoveCursor { lines_down: -3, columns_right: 2 }), EditorAction::Continue);
    assert_eq!(s.text().rev(), Rev::from(4));
    assert_eq!(lines_of(&s), vec!["a".to_string(), "b".to_string()]);
}

#[test]
fn line_identities_survive_edits_elsewhere() {
    let mut s = from_file("one\ntwo\nthree\n");
    let ids = |s: &State| -> Vec<u64> {
        let mut v = Vec::new();
        let mut it = s.text().iter_lines();
        while let Some(l) = it.next() {
            v.push(l.id().value());
        }
        v
    };
    assert_eq!(ids(&s), vec![1, 2, 3]);
    s.shift_mode(Mode::Insert);
    s.insert('x');
    assert_eq!(ids(&s), vec![1, 2, 3]);
    s.insert('\n');
    assert_eq!(lines_of(&s), vec!["x", "one", "two", "three"]);
    assert_eq!(ids(&s), vec![1, 4, 2, 3]);
    // joining line 1 back onto line 0 removes identity 4 for good
    s.delete();
    assert_eq!(lines_of(&s), vec!["xone", "two", "three"]);
    assert_eq!(ids(&s), vec![1, 2, 3]);
    s.insert('\n');
    assert_eq!(ids(&s), vec![1, 5, 2, 3]);
}

#[test]
fn newline_splits_the_line_at_the_cursor() {
    let mut s = from_file("hello world\n");
    s.move_cursor((0, 5));
    s.shift_mode(Mode::Insert);
    s.insert('\n');
    assert_eq!(lines_of(&s), vec!["hello", " world"]);
    assert_eq!(cursor(&s), (1, 0));
    assert_eq!(s.status_text(), "char: 0 @ (1,5)");
}

#[test]
fn typed_character_is_shown_in_the_status_text() {
    let mut s = empty();
    s.shift_mode(Mode::Insert);
    s.insert('a');
    assert_eq!(s.status_text(), "char: 97 @ (0,0)");
    s.insert('b');
    assert_eq!(s.status_text(), "char: 98 @ (0,1)");
    for _ in 0..10 {
        s.insert('z');
    }
    assert_eq!(s.status_text(), "char: 122 @ (0,11)");
}

#[test]
fn delete_at_start_of_first_line_is_a_no_op() {
    let mut s = from_file("ab\ncd\n");
    s.take_notices();
    s.shift_mode(Mode::Insert);
    s.take_notices();
    let rev = s.text().rev();
    s.delete();
    assert_eq!(lines_of(&s), vec!["ab", "cd"]);
    assert_eq!(cursor(&s), (0, 0));
    assert_eq!(s.text().rev(), rev);
    assert!(s.take_notices().is_empty());
}

#[test]
fn delete_removes_the_only_line_when_it_is_empty() {
    let mut s = empty();
    s.shift_mode(Mode::Insert);
    s.insert('a');
    s.delete();
    assert_eq!(lines_of(&s), vec![""]);
    assert_eq!(s.text().line_count(), 1);
    s.take_notices();
    s.delete();
    assert_eq!(s.text().line_count(), 0);
    assert_eq!(cursor(&s), (0, 0));
    assert_eq!(kinds(&s.take_notices()), vec!["text", "state"]);
    s.delete();
    assert_eq!(s.text().line_count(), 0);
    assert!(s.take_notices().is_empty());
}

#[test]
fn delete_at_start_of_a_later_line_joins_it_to_the_one_above() {
    let mut s = from_file("ab\ncd\nef\n");
    s.move_cursor((1, 0));
    s.shift_mode(Mode::Insert);
    s.delete();
    assert_eq!(lines_of(&s), vec!["abcd", "ef"]);
    assert_eq!(cursor(&s), (0, 2));
}

#[test]
fn content_change_leaves_text_then_state_notice() {
    let mut s = empty();
    s.shift_mode(Mode::Insert);
    assert_eq!(kinds(&s.take_notices()), vec!["state"]);
    s.insert('a');
    let notices = s.take_notices();
    assert_eq!(kinds(&notices), vec!["text", "state"]);
    match &notices[0] {
        Notice::Text(t) => {
            assert_eq!(t.line_count(), 1);
            assert_eq!(t.rev(), Rev::from(1));
        }
        _ => panic!("text notice expected"),
    }
    match &notices[1] {
        Notice::State(st) => {
            assert_eq!(*st.cursor_pos(), CursorPos { line_number: 0, colmun: 1 });
            assert_eq!(*st.mode(), Mode::Insert);
            assert_eq!(st.status_text(), "char: 97 @ (0,0)");
            assert_eq!(st.command_line(), "");
            assert_eq!(st.text().rev(), Rev::from(1));
            assert_eq!(st.clone().text().line_count(), 1);
        }
        _ => panic!("state notice expected"),
    }
    assert!(s.take_notices().is_empty());
}

#[test]
fn cursor_move_leaves_only_a_state_notice() {
    let mut s = from_file("ab\ncd\n");
    assert_eq!(kinds(&s.take_notices()), vec!["text", "state"]);
    s.move_cursor((1, 0));
    assert_eq!(kinds(&s.take_notices()), vec!["state"]);
    s.move_cursor((0, 0));
    assert!(s.take_notices().is_empty());
    s.move_cursor((-1, 1));
    assert_eq!(kinds(&s.take_notices()), vec!["state", "state"]);
}

#[test]
fn cursor_stays_within_the_text() {
    let mut s = from_file("abc\n\nlonger line\n");
    s.move_cursor((0, 99));
    assert_eq!(cursor(&s), (0, 3));
    s.move_cursor((1, 0));
    assert_eq!(cursor(&s), (1, 0));
    s.move_cursor((99, 0));
    assert_eq!(cursor(&s), (2, 0));
    s.move_cursor((0, isize::MAX));
    assert_eq!(cursor(&s), (2, 11));
    s.move_cursor((isize::MIN, isize::MIN));
    assert_eq!(cursor(&s), (0, 0));
    s.move_cursor((2, 0));
    s.move_cursor((0, 6));
    s.move_cursor((-2, 0));
    assert_eq!(cursor(&s), (0, 3));

    let mut e = empty();
    e.move_cursor((3, 4));
    assert_eq!(cursor(&e), (0, 0));
}

#[test]
fn commands_are_gated_by_mode() {
    let mut s = from_file("ab\n");
    s.take_notices();
    // normal mode: typing and deleting do nothing
    assert_eq!(s.dispatch(Command::InsertAtCursor('x')), EditorAction::Continue);
    assert_eq!(s.dispatch(Command::DeleteAtCursor), EditorAction::Continue);
    assert_eq!(s.dispatch(Command::CommitCommandline), EditorAction::Continue);
    assert_eq!(lines_of(&s), vec!["ab"]);
    assert!(s.take_notices().is_empty());
    // insert mode: cursor commands do nothing
    s.shift_mode(Mode::Insert);
    s.take_notices();
    assert_eq!(s.dispatch(Command::MoveCursor { lines_down: 0, columns_right: 1 }), EditorAction::Continue);
    assert_eq!(s.dispatch(Command::CommitCommandline), EditorAction::Continue);
    assert_eq!(cursor(&s), (0, 0));
    assert_eq!(*s.mode(), Mode::Insert);
    assert!(s.take_notices().is_empty());
}

#[test]
fn command_line_edits_do_not_touch_the_text() {
    let mut s = from_file("ab\n");
    s.shift_mode(Mode::Command);
    typed(&mut s, "wq");
    assert_eq!(s.command_line(), "wq");
    s.insert('\n');
    assert_eq!(s.command_line(), "wq");
    s.delete();
    assert_eq!(s.command_line(), "w");
    s.delete();
    assert_eq!(s.command_line(), "");
    assert_eq!(*s.mode(), Mode::Command);
    s.delete();
    assert_eq!(*s.mode(), Mode::Normal);
    assert_eq!(lines_of(&s), vec!["ab"]);
    assert_eq!(s.text().rev(), Rev::from(0));
}

#[test]
fn shift_mode_clears_the_command_line() {
    let mut s = empty();
    s.shift_mode(Mode::Command);
    typed(&mut s, "abc");
    assert_eq!(s.dispatch(Command::ShiftMode(Mode::Insert)), EditorAction::Continue);
    assert_eq!(s.command_line(), "");
    assert_eq!(*s.mode(), Mode::Insert);
}

#[test]
fn committed_w_leaves_the_content_for_the_backing_store() {
    let mut s = from_file("ab\ncd");
    s.shift_mode(Mode::Command);
    typed(&mut s, "w");
    s.take_notices();
    assert_eq!(s.dispatch(Command::CommitCommandline), EditorAction::Continue);
    let notices = s.take_notices();
    assert_eq!(kinds(&notices), vec!["state", "save"]);
    match &notices[1] {
        Notice::Save(content) => assert_eq!(content, "ab\ncd\n"),
        _ => panic!("save notice expected"),
    }
    assert_eq!(s.file_content(), "ab\ncd\n");
    assert_eq!(*s.mode(), Mode::Normal);
}

#[test]
fn unknown_command_is_ignored() {
    let mut s = from_file("ab\n");
    s.shift_mode(Mode::Command);
    typed(&mut s, "wx");
    s.take_notices();
    assert_eq!(s.dispatch(Command::CommitCommandline), EditorAction::Continue);
    assert_eq!(kinds(&s.take_notices()), vec!["state"]);
    assert_eq!(*s.mode(), Mode::Normal);
    assert_eq!(lines_of(&s), vec!["ab"]);
}

#[test]
fn failed_save_is_shown_in_the_status_text() {
    let mut s = from_file("ab\n");
    s.take_notices();
    s.save_failed("disk full");
    assert_eq!(s.status_text(), "Failed to save file: disk full");
    assert_eq!(kinds(&s.take_notices()), vec!["state"]);
    assert_eq!(lines_of(&s), vec!["ab"]);
}

#[test]
fn written_content_reads_back_as_the_same_lines() {
    let mut s = empty();
    s.shift_mode(Mode::Insert);
    typed(&mut s, "first\n\nthird line\n");
    let before = lines_of(&s);
    assert_eq!(before, vec!["first", "", "third line", ""]);
    let reopened = from_file(&s.file_content());
    assert_eq!(lines_of(&reopened), before);
}

#[test]
fn opened_file_is_announced() {
    let mut s = from_file("a\r\nb\n");
    assert_eq!(lines_of(&s), vec!["a", "b"]);
    assert_eq!(cursor(&s), (0, 0));
    assert_eq!(*s.mode(), Mode::Normal);
    assert_eq!(s.status_text(), "");
    assert!(s.has_room());
    assert_eq!(kinds(&s.take_notices()), vec!["text", "state"]);
    let mut e = empty();
    assert_eq!(e.text().line_count(), 0);
    assert!(e.take_notices().is_empty());
}

#[test]
fn keys_map_to_commands_by_mode() {
    let key = |k: Key| Event::Key(k);
    assert_eq!(input_map(&Mode::Insert, key(Key::Esc)), Some(Command::ShiftMode(Mode::Normal)));
    assert_eq!(input_map(&Mode::Insert, key(Key::Backspace)), Some(Command::DeleteAtCursor));
    assert_eq!(input_map(&Mode::Insert, key(Key::Char('u'))), Some(Command::InsertAtCursor('u')));
    assert_eq!(input_map(&Mode::Insert, key(Key::Char('\n'))), Some(Command::InsertAtCursor('\n')));
    assert_eq!(input_map(&Mode::Insert, key(Key::Left)), None);

    assert_eq!(input_map(&Mode::Command, key(Key::Esc)), Some(Command::ShiftMode(Mode::Normal)));
    assert_eq!(input_map(&Mode::Command, key(Key::Char('\n'))), Some(Command::CommitCommandline));
    assert_eq!(input_map(&Mode::Command, key(Key::Backspace)), Some(Command::DeleteAtCursor));
    assert_eq!(input_map(&Mode::Command, key(Key::Char('q'))), Some(Command::InsertAtCursor('q')));
    assert_eq!(input_map(&Mode::Command, key(Key::F(1))), None);

    assert_eq!(
        input_map(&Mode::Normal, key(Key::Char('u'))),
        Some(Command::MoveCursor { lines_down: -1, columns_right: 0 })
    );
    assert_eq!(
        input_map(&Mode::Normal, key(Key::Char('o'))),
        Some(Command::MoveCursor { lines_down: 0, columns_right: 1 })
    );
    assert_eq!(
        input_map(&Mode::Normal, key(Key::Char('e'))),
        Some(Command::MoveCursor { lines_down: 1, columns_right: 0 })
    );
    assert_eq!(
        input_map(&Mode::Normal, key(Key::Char('n'))),
        Some(Command::MoveCursor { lines_down: 0, columns_right: -1 })
    );
    assert_eq!(input_map(&Mode::Normal, key(Key::Char(':'))), Some(Command::ShiftMode(Mode::Command)));
    assert_eq!(input_map(&Mode::Normal, key(Key::Char('i'))), Some(Command::ShiftMode(Mode::Insert)));
    assert_eq!(input_map(&Mode::Normal, key(Key::Char('x'))), None);
    assert_eq!(input_map(&Mode::Normal, key(Key::Esc)), None);
    assert_eq!(input_map(&Mode::Normal, Event::Mouse(MouseEvent::Release(1, 1))), None);
    assert_eq!(input_map(&Mode::Insert, Event::Unsupported(vec![27, 91])), None);
}

#[test]
fn session_topics_have_their_names() {
    assert_eq!(text_update_topic().name(), "body-text");
    assert_eq!(state_update_topic().name(), "state");
}

#[test]
fn only_buffer_changes_need_room_in_the_counters() {
    let mut s = from_file("ab\n");
    assert!(!s.changes_text(&Command::InsertAtCursor('x')));
    assert!(!s.changes_text(&Command::DeleteAtCursor));
    assert!(!s.changes_text(&Command::MoveCursor { lines_down: 1, columns_right: 0 }));
    s.shift_mode(Mode::Insert);
    assert!(s.changes_text(&Command::InsertAtCursor('x')));
    assert!(s.changes_text(&Command::InsertAtCursor('\n')));
    // at the start of the first line of a buffer that is not one empty line
    assert!(!s.changes_text(&Command::DeleteAtCursor));
    assert!(!s.changes_text(&Command::ShiftMode(Mode::Normal)));
    assert!(!s.changes_text(&Command::CommitCommandline));
    s.insert('x');
    assert!(s.changes_text(&Command::DeleteAtCursor));
    s.shift_mode(Mode::Command);
    assert!(!s.changes_text(&Command::InsertAtCursor('x')));
    assert!(!s.changes_text(&Command::DeleteAtCursor));

    let mut e = empty();
    e.shift_mode(Mode::Insert);
    assert!(!e.changes_text(&Command::DeleteAtCursor));
    e.insert('a');
    e.delete();
    // one empty line: the deletion removes it
    assert!(e.changes_text(&Command::DeleteAtCursor));
}
