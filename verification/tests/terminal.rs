use jete::highlight::Engine;
use jete::highlight::HighlightPass;
use jete::highlight::HighlightRev;
use jete::highlight::HighlightState;
use jete::state::from_file;
use jete::state::Mode;
use jete::state::Notice;
use jete::state::State;
use jete::state::StateSnapshot;
use jete::terminal::Frame;
use jete::terminal::LineDisplayRevision;
use jete::terminal::Renderer;
use jete::terminal::RowPaint;
use jete::terminal::StateForDisplay;
use jete::terminal::TerminalDisplay;
use jete::text::Rev;
use jete::text::Text;
use std::time::Duration;

fn snapshot_of(s: &mut State) -> StateSnapshot {
    if *s.mode() != Mode::Command {
        s.shift_mode(*s.mode());
    }
    match s.take_notices().pop() {
        Some(Notice::State(snap)) => snap,
        _ => panic!("state notice expected"),
    }
}

fn inputs(s: &mut State) -> StateForDisplay {
    StateForDisplay { editor_state: Some(snapshot_of(s)), highlighter_state: None }
}

fn line_rows(frame: &Frame) -> Vec<(usize, String)> {
    frame
        .rows
        .iter()
        .enumerate()
        .filter_map(|(i, r)| match r {
            RowPaint::Line(t) => Some((i + 1, t.clone())),
            _ => None,
        })
        .collect()
}

fn filler_rows(frame: &Frame) -> Vec<(usize, String)> {
    frame
        .rows
        .iter()
        .enumerate()
        .filter_map(|(i, r)| match r {
            RowPaint::Filler(t) => Some((i + 1, t.clone())),
            _ => None,
        })
        .collect()
}

#[test]
fn first_pass_paints_every_line() {
    let mut s = from_file("one\ntwo\nthree\n");
    let mut d = TerminalDisplay::new();
    let frame = d.update(&inputs(&mut s), 80, 7).expect("a frame");
    assert_eq!(frame.rows.len(), 5);
    assert_eq!(
        line_rows(&frame),
        vec![
            (1, "  0@ 0/-1|one".to_string()),
            (2, "  1@ 0/-1|two".to_string()),
            (3, "  2@ 0/-1|three".to_string()),
        ]
    );
    assert_eq!(filler_rows(&frame), vec![(4, " 3|~".to_string()), (5, " 4|~".to_string())]);
    assert_eq!(frame.blank_row, 6);
    assert_eq!(frame.bottom_row, 7);
    assert_eq!(frame.bottom, "\tNormal\t(l:0,c:0)");
    assert_eq!(frame.cursor, Some((11, 1)));
}

#[test]
fn identical_second_pass_paints_no_line() {
    let mut s = from_file("one\ntwo\nthree\n");
    let mut d = TerminalDisplay::new();
    let state = inputs(&mut s);
    d.update(&state, 80, 5).expect("a frame");
    let again = d.update(&state, 80, 5).expect("a frame");
    assert!(line_rows(&again).is_empty());
    assert_eq!(again.rows.len(), 3);
    assert!(again.rows.iter().all(|r| matches!(r, RowPaint::Unchanged)));
}

#[test]
fn one_changed_line_paints_one_row() {
    let mut s = from_file("one\ntwo\nthree\n");
    let mut d = TerminalDisplay::new();
    d.update(&inputs(&mut s), 80, 5).expect("a frame");
    s.move_cursor((1, 3));
    s.shift_mode(Mode::Insert);
    s.insert('!');
    s.shift_mode(Mode::Normal);
    s.move_cursor((-1, 0));
    s.move_cursor((0, -9));
    let frame = d.update(&inputs(&mut s), 80, 5).expect("a frame");
    assert_eq!(line_rows(&frame), vec![(2, "  1@ 1/-1|two!".to_string())]);
}

#[test]
fn resize_paints_every_line_again() {
    let mut s = from_file("one\ntwo\n");
    let mut d = TerminalDisplay::new();
    let state = inputs(&mut s);
    d.update(&state, 80, 4).expect("a frame");
    assert!(line_rows(&d.update(&state, 80, 4).unwrap()).is_empty());
    let wider = d.update(&state, 81, 4).expect("a frame");
    assert_eq!(line_rows(&wider).len(), 2);
    let taller = d.update(&state, 81, 5).expect("a frame");
    assert_eq!(line_rows(&taller).len(), 2);
    assert_eq!(filler_rows(&taller), vec![(3, " 2|~".to_string())]);
}

#[test]
fn window_follows_the_cursor() {
    let content: String = (0..30).map(|i| format!("line {}\n", i)).collect();
    let mut s = from_file(&content);
    let mut d = TerminalDisplay::new();
    let frame = d.update(&inputs(&mut s), 80, 6).expect("a frame");
    assert_eq!(line_rows(&frame).first().unwrap().1, "  0@ 0/-1|line 0");
    assert_eq!(frame.cursor, Some((11, 1)));

    s.move_cursor((10, 2));
    let frame = d.update(&inputs(&mut s), 80, 6).expect("a frame");
    let rows = line_rows(&frame);
    assert_eq!(rows.len(), 4);
    assert_eq!(rows[0], (1, "  7@ 0/-1|line 7".to_string()));
    assert_eq!(rows[3], (4, " 10@ 0/-1|line 10".to_string()));
    assert_eq!(frame.cursor, Some((13, 4)));
    assert_eq!(frame.bottom, "\tNormal\t(l:10,c:2)");
}

#[test]
fn line_that_returns_to_a_row_after_a_filler_is_painted() {
    let mut s = from_file("one\ntwo\n");
    let mut d = TerminalDisplay::new();
    d.update(&inputs(&mut s), 80, 5).expect("a frame");
    // join line 1 onto line 0: row 2 becomes a filler
    s.move_cursor((1, 0));
    s.shift_mode(Mode::Insert);
    s.delete();
    let frame = d.update(&inputs(&mut s), 80, 5).expect("a frame");
    assert_eq!(filler_rows(&frame), vec![(2, " 1|~".to_string())]);
    // split again: a line stands on row 2 anew
    s.insert('\n');
    let frame = d.update(&inputs(&mut s), 80, 5).expect("a frame");
    assert!(line_rows(&frame).iter().any(|(row, _)| *row == 2));
}

#[test]
fn command_mode_shows_the_command_line_and_no_cursor() {
    let mut s = from_file("one\n");
    s.shift_mode(Mode::Command);
    for c in "write-this".chars() {
        s.insert(c);
    }
    let mut d = TerminalDisplay::new();
    let state = inputs(&mut s);
    let frame = d.update(&state, 80, 5).expect("a frame");
    assert_eq!(frame.bottom, ":write-this");
    assert_eq!(frame.cursor, None);
    let narrow = d.update(&state, 4, 5).expect("a frame");
    assert_eq!(narrow.bottom, ":this");
}

#[test]
fn status_text_is_cut_to_the_width() {
    let mut s = from_file("one\n");
    s.save_failed("no space left on device");
    let mut d = TerminalDisplay::new();
    let frame = d.update(&inputs(&mut s), 11, 5).expect("a frame");
    assert_eq!(frame.bottom, "Failed to \tNormal\t(l:0,c:0)");
    assert_eq!(frame.cursor, Some((11, 1)));
    let frame = d.update(&inputs(&mut s), 5, 5).expect("a frame");
    assert_eq!(frame.cursor, Some((5, 1)));
}

#[test]
fn nothing_is_painted_before_the_session_is_heard_of() {
    let mut d = TerminalDisplay::new();
    let state = StateForDisplay { editor_state: None, highlighter_state: None };
    assert!(d.update(&state, 80, 24).is_none());
}

#[test]
fn tiny_screens_have_no_text_rows() {
    let mut s = from_file("one\n");
    let mut d = TerminalDisplay::new();
    for (h, blank_row, bottom_row) in [(0u16, 1u16, 1u16), (1, 1, 1), (2, 1, 2)] {
        let frame = d.update(&inputs(&mut s), 80, h).expect("a frame");
        assert!(frame.rows.is_empty());
        assert_eq!(frame.blank_row, blank_row);
        assert_eq!(frame.bottom_row, bottom_row);
        assert_eq!(frame.cursor, Some((11, 1)));
    }
    let frame = d.update(&inputs(&mut s), 80, 24).expect("a frame");
    assert_eq!(frame.blank_row, 23);
    assert_eq!(frame.bottom_row, 24);
}

#[test]
fn row_key_is_new_unless_equal_in_every_part() {
    let line_id = Text::from(&["x".to_string()]).line(0).unwrap().id();
    let other_id = Text::from(&["x".to_string(), "y".to_string()]).line(1).unwrap().id();
    let hl = Some(HighlightRev::Rev { id: 7 });
    let key = LineDisplayRevision::from(line_id, Rev::from(3), hl, (80, 24));
    assert_eq!(
        key,
        LineDisplayRevision::Previous {
            line_id,
            line_rev: Some(Rev::from(3)),
            hl_rev: hl,
            screen_dims: (80, 24)
        }
    );
    assert!(!key.is_new(&key.clone()));
    assert!(key.is_new(&LineDisplayRevision::New));
    assert!(LineDisplayRevision::New.is_new(&key));
    assert!(LineDisplayRevision::default().is_new(&LineDisplayRevision::default()));
    assert!(key.is_new(&LineDisplayRevision::from(other_id, Rev::from(3), hl, (80, 24))));
    assert!(key.is_new(&LineDisplayRevision::from(line_id, Rev::from(4), hl, (80, 24))));
    assert!(key.is_new(&LineDisplayRevision::from(line_id, Rev::from(3), None, (80, 24))));
    assert!(key.is_new(&LineDisplayRevision::from(
        line_id,
        Rev::from(3),
        Some(HighlightRev::Rev { id: 8 }),
        (80, 24)
    )));
    assert!(key.is_new(&LineDisplayRevision::from(line_id, Rev::from(3), hl, (81, 24))));
    assert!(key.is_new(&LineDisplayRevision::from(line_id, Rev::from(3), hl, (80, 25))));
    let plain = LineDisplayRevision::from(line_id, Rev::from(3), None, (80, 24));
    assert!(!plain.is_new(&plain.clone()));

    let mark = LineDisplayRevision::Filler { number: 4, screen_dims: (80, 24) };
    assert!(!mark.is_new(&mark.clone()));
    assert!(mark.is_new(&LineDisplayRevision::New));
    assert!(mark.is_new(&key));
    assert!(key.is_new(&mark));
    assert!(mark.is_new(&LineDisplayRevision::Filler { number: 5, screen_dims: (80, 24) }));
    assert!(mark.is_new(&LineDisplayRevision::Filler { number: 4, screen_dims: (81, 24) }));
    assert!(mark.is_new(&LineDisplayRevision::Filler { number: 4, screen_dims: (80, 25) }));
}

fn highlighted(s: &mut State) -> HighlightState {
    let engine = Engine::load();
    let text = snapshot_of(s).text().clone();
    let mut pass = HighlightPass::begin(&engine, "rs", "base16-ocean.dark", &HighlightState::new(), text)
        .expect("syntax and theme are there");
    while !pass.advance().finished {}
    pass.finish()
}

#[test]
fn styled_form_is_shown_once_it_is_there() {
    let mut s = from_file("fn main() {}\n");
    let mut d = TerminalDisplay::new();
    let plain = d.update(&inputs(&mut s), 80, 4).expect("a frame");
    assert_eq!(line_rows(&plain), vec![(1, "  0@ 0/-1|fn main() {}".to_string())]);

    let hl = highlighted(&mut s);
    let state = StateForDisplay { editor_state: Some(snapshot_of(&mut s)), highlighter_state: Some(hl) };
    let styled = d.update(&state, 80, 4).expect("a frame");
    let rows = line_rows(&styled);
    assert_eq!(rows.len(), 1);
    assert!(rows[0].1.starts_with("  0@ 0/"));
    assert!(rows[0].1.contains("\x1b[38;2;"));
    assert!(!rows[0].1.contains("/-1|"));
    assert!(line_rows(&d.update(&state, 80, 4).unwrap()).is_empty());
}

#[test]
fn styled_form_older_than_the_line_is_not_shown() {
    let mut s = from_file("fn main() {}\n");
    let hl = highlighted(&mut s);
    s.shift_mode(Mode::Insert);
    s.insert('x');
    let state = StateForDisplay { editor_state: Some(snapshot_of(&mut s)), highlighter_state: Some(hl) };
    let mut d = TerminalDisplay::new();
    let frame = d.update(&state, 80, 4).expect("a frame");
    assert_eq!(line_rows(&frame), vec![(1, "  0@ 1/-1|xfn main() {}".to_string())]);
}

#[test]
fn render_loop_paints_when_the_deadline_has_come() {
    let mut s = from_file("one\n");
    let mut r = Renderer::new();
    assert!(r.time_until_deadline().is_none());
    assert!(r.render_at(1_000_000_000, 80, 5).is_none());

    r.state_arrived_at(snapshot_of(&mut s), 5_000_000);
    assert!(r.time_until_deadline().is_some());
    // the deadline is the boundary at 16 ms
    assert!(r.render_at(15_999_999, 80, 5).is_none());
    let frame = r.render_at(16_000_000, 80, 5).expect("a frame");
    assert_eq!(line_rows(&frame), vec![(1, "  0@ 0/-1|one".to_string())]);
    assert!(r.time_until_deadline().is_none());
    assert!(r.render_at(17_000_000, 80, 5).is_none());

    // within 2 ms of the boundary at 32 ms: the deadline moves on to 48 ms
    r.highlight_arrived_at(HighlightState::new(), 30_500_000);
    assert!(r.render_at(47_999_999, 80, 5).is_none());
    let frame = r.render_at(48_000_000, 80, 5).expect("a frame");
    assert!(line_rows(&frame).is_empty());
}

#[test]
fn render_loop_arms_on_arrival() {
    let mut s = from_file("one\n");
    let mut r = Renderer::new();
    r.state_arrived(snapshot_of(&mut s));
    let wait = r.time_until_deadline().expect("armed");
    assert!(wait <= Duration::from_millis(32));
    r.highlight_arrived(HighlightState::new());
    assert!(r.time_until_deadline().is_some());
    let _ = r.render_if_due(80, 5);
}

#[test]
fn identical_second_pass_over_a_short_document_paints_no_row() {
    let mut s = from_file("one\ntwo\n");
    let mut d = TerminalDisplay::new();
    let state = inputs(&mut s);
    let first = d.update(&state, 80, 8).expect("a frame");
    assert_eq!(line_rows(&first).len(), 2);
    assert_eq!(filler_rows(&first).len(), 4);
    let again = d.update(&state, 80, 8).expect("a frame");
    assert_eq!(again.rows.len(), 6);
    assert!(again.rows.iter().all(|r| matches!(r, RowPaint::Unchanged)));
}

#[test]
fn one_changed_line_of_a_short_document_paints_one_row() {
    let mut s = from_file("one\ntwo\n");
    let mut d = TerminalDisplay::new();
    d.update(&inputs(&mut s), 80, 8).expect("a frame");
    s.shift_mode(Mode::Insert);
    s.insert('!');
    s.shift_mode(Mode::Normal);
    s.move_cursor((0, -1));
    let frame = d.update(&inputs(&mut s), 80, 8).expect("a frame");
    assert_eq!(line_rows(&frame), vec![(1, "  0@ 1/-1|!one".to_string())]);
    assert!(filler_rows(&frame).is_empty());
    let painted = frame.rows.iter().filter(|r| !matches!(r, RowPaint::Unchanged)).count();
    assert_eq!(painted, 1);
}

#[test]
fn marks_below_the_document_follow_the_window() {
    let content: String = (0..6).map(|i| format!("line {}\n", i)).collect();
    let mut s = from_file(&content);
    let mut d = TerminalDisplay::new();
    // five text rows: lines 0 to 4
    let frame = d.update(&inputs(&mut s), 80, 7).expect("a frame");
    assert!(filler_rows(&frame).is_empty());
    // a taller screen shows marks, and shows them once
    let frame = d.update(&inputs(&mut s), 80, 10).expect("a frame");
    assert_eq!(filler_rows(&frame), vec![(7, " 6|~".to_string()), (8, " 7|~".to_string())]);
    let frame = d.update(&inputs(&mut s), 80, 10).expect("a frame");
    assert!(frame.rows.iter().all(|r| matches!(r, RowPaint::Unchanged)));
}
