use jete::highlight::Engine;
use jete::highlight::HighlightPass;
use jete::highlight::HighlightRev;
use jete::highlight::HighlightState;
use jete::highlight::SYNTAX_EXTENSION;
use jete::highlight::THEME_NAME;
use jete::text::LineView;
use jete::text::Rev;
use jete::text::Text;
use jete::text::TextView;

fn view_of(lines: &[&str]) -> TextView {
    let owned: Vec<String> = lines.iter().map(|l| l.to_string()).collect();
    Text::from(&owned).view()
}

fn lines_of(view: &TextView) -> Vec<LineView> {
    let mut out = Vec::new();
    let mut it = view.iter_lines();
    while let Some(l) = it.next() {
        out.push(l);
    }
    out
}

fn run(engine: &Engine, previous: &HighlightState, text: TextView) -> (Vec<usize>, HighlightState) {
    let mut pass = HighlightPass::begin(engine, "rs", "base16-ocean.dark", previous, text)
        .expect("syntax and theme are there");
    let mut published = Vec::new();
    loop {
        let step = pass.advance();
        published.push(published.len());
        if step.finished {
            break;
        }
    }
    (published, pass.finish())
}

#[test]
fn revision_depends_on_output_and_line() {
    let text = Text::from(&["a".to_string(), "b".to_string()]);
    let first = text.line(0).unwrap().id();
    let second = text.line(1).unwrap().id();
    let a = HighlightRev::from("styled", first);
    assert_eq!(a, HighlightRev::from("styled", first));
    assert_ne!(a, HighlightRev::from("styled!", first));
    assert_ne!(a, HighlightRev::from("styled", second));
    assert!(matches!(a, HighlightRev::Rev { .. }));
    assert_eq!(HighlightRev::default(), HighlightRev::Absent);
}

#[test]
fn revision_is_shown_by_its_last_two_digits() {
    assert_eq!(HighlightRev::Rev { id: 12345 }.shown(), 45);
    assert_eq!(HighlightRev::Rev { id: 7 }.shown(), 7);
    assert_eq!(HighlightRev::Absent.shown(), -1);
}

#[test]
fn pass_styles_every_line() {
    let engine = Engine::load();
    let view = view_of(&["fn main() {", "    let x = 1;", "}"]);
    let (_, state) = run(&engine, &HighlightState::new(), view.clone());
    for line in lines_of(&view) {
        let hl = state.highlighted_line(&line).expect("line is styled");
        let text = hl.highlighted_text();
        assert!(text.contains("\x1b[38;2;"));
        assert_ne!(*text, *line.content_str());
        assert_eq!(hl.rev(), HighlightRev::from(text.as_str(), line.id()));
        assert_eq!(hl.line_rev(), line.max_rev_before());
    }
}

#[test]
fn identical_output_keeps_its_revision() {
    let engine = Engine::load();
    let view = view_of(&["let a = 1;", "let b = 2;"]);
    let (_, first) = run(&engine, &HighlightState::new(), view.clone());
    let (_, second) = run(&engine, &first, view.clone());
    for line in lines_of(&view) {
        assert_eq!(
            first.highlighted_line(&line).unwrap().rev(),
            second.highlighted_line(&line).unwrap().rev()
        );
    }
}

#[test]
fn changed_line_gets_another_revision() {
    let engine = Engine::load();
    let mut text = Text::from(&["let a = 1;".to_string(), "let b = 2;".to_string()]);
    let (_, first) = run(&engine, &HighlightState::new(), text.view());
    let before = lines_of(&text.view());
    text.line_mut(0).unwrap().insert(4, 'x');
    let (_, second) = run(&engine, &first, text.view());
    let after = lines_of(&text.view());
    assert_ne!(
        first.highlighted_line(&before[0]).unwrap().rev(),
        second.highlighted_line(&after[0]).unwrap().rev()
    );
    assert_eq!(
        first.highlighted_line(&before[1]).unwrap().rev(),
        second.highlighted_line(&after[1]).unwrap().rev()
    );
    // what was styled before the edit is too old for the edited line
    assert!(first.highlighted_line(&after[0]).is_none());
    assert!(first.highlighted_line(&after[1]).is_some());
}

#[test]
fn styled_forms_of_removed_lines_are_dropped() {
    let engine = Engine::load();
    let mut text = Text::from(&["a".to_string(), "b".to_string(), "c".to_string()]);
    let (_, first) = run(&engine, &HighlightState::new(), text.view());
    let before = lines_of(&text.view());
    text.remove_line(1);
    let (_, second) = run(&engine, &first, text.view());
    assert!(first.highlighted_line(&before[1]).is_some());
    assert!(second.highlighted_line(&before[1]).is_none());
    assert!(second.clone().highlighted_line(&before[0]).is_some());
    assert!(second.highlighted_line(&before[2]).is_some());
}

#[test]
fn long_documents_are_published_step_by_step() {
    let engine = Engine::load();
    let lines: Vec<String> = (0..45).map(|i| format!("let v{} = {};", i, i)).collect();
    let view = Text::from(&lines).view();
    let all = lines_of(&view);
    let mut pass = HighlightPass::begin(&engine, "rs", "base16-ocean.dark", &HighlightState::new(), view)
        .expect("syntax and theme are there");

    // lines 0 to 20, published after line 20
    let step = pass.advance();
    assert!(!step.finished);
    assert!(step.snapshot.highlighted_line(&all[20]).is_some());
    assert!(step.snapshot.highlighted_line(&all[21]).is_none());
    // lines 21 to 40
    let step = pass.advance();
    assert!(!step.finished);
    assert!(step.snapshot.highlighted_line(&all[40]).is_some());
    assert!(step.snapshot.highlighted_line(&all[41]).is_none());
    // the rest, and the end of the pass
    let step = pass.advance();
    assert!(step.finished);
    assert!(step.snapshot.highlighted_line(&all[44]).is_some());
}

#[test]
fn publication_after_the_last_line_is_followed_by_the_final_one() {
    let engine = Engine::load();
    let lines: Vec<String> = (0..21).map(|i| format!("// {}", i)).collect();
    let (published, _) = run(&engine, &HighlightState::new(), Text::from(&lines).view());
    assert_eq!(published.len(), 2);
    let (published, _) = run(&engine, &HighlightState::new(), view_of(&["a"]));
    assert_eq!(published.len(), 1);
    let (published, state) = run(&engine, &HighlightState::new(), view_of(&[]));
    assert_eq!(published.len(), 1);
    assert!(state.highlighted_line(&lines_of(&view_of(&["a"]))[0]).is_none());
}

#[test]
fn pass_needs_a_known_syntax_and_theme() {
    let engine = Engine::load();
    let none = HighlightState::new();
    assert!(HighlightPass::begin(&engine, "no-such-extension", "base16-ocean.dark", &none, view_of(&[])).is_none());
    assert!(HighlightPass::begin(&engine, "rs", "no such theme", &none, view_of(&[])).is_none());
    assert!(HighlightPass::begin(&engine, "rs", "base16-ocean.dark", &none, view_of(&[])).is_some());
}

#[test]
fn highlight_topic_has_its_name() {
    assert_eq!(HighlightState::topic().name(), "highlight");
    assert_eq!(Rev::default(), Rev::from(0));
}

#[test]
fn loaded_engine_has_the_editors_syntax_and_theme() {
    let engine = Engine::load();
    let none = HighlightState::new();
    assert_eq!(SYNTAX_EXTENSION, "rs");
    assert_eq!(THEME_NAME, "base16-ocean.dark");
    assert!(HighlightPass::begin(&engine, SYNTAX_EXTENSION, THEME_NAME, &none, view_of(&["a"])).is_some());
}

#[test]
fn loaded_engine_has_the_themes_that_come_with_the_highlighter() {
    let engine = Engine::load();
    let none = HighlightState::new();
    for theme in [
        "base16-ocean.dark",
        "base16-eighties.dark",
        "base16-mocha.dark",
        "base16-ocean.light",
        "InspiredGitHub",
        "Solarized (dark)",
        "Solarized (light)",
    ] {
        assert!(
            HighlightPass::begin(&engine, "rs", theme, &none, view_of(&[])).is_some(),
            "theme {:?}",
            theme
        );
    }
    // theme names are matched as they are written
    assert!(HighlightPass::begin(&engine, "rs", "inspiredgithub", &none, view_of(&[])).is_none());
    assert!(HighlightPass::begin(&engine, "rs", "", &none, view_of(&[])).is_none());
}

#[test]
fn extension_is_matched_without_regard_to_ascii_case() {
    let engine = Engine::load();
    let none = HighlightState::new();
    for extension in ["rs", "RS", "Rs", "rS"] {
        assert!(
            HighlightPass::begin(&engine, extension, THEME_NAME, &none, view_of(&[])).is_some(),
            "extension {:?}",
            extension
        );
    }
    // only ASCII letters are folded, and the whole extension is compared
    assert!(HighlightPass::begin(&engine, "rs-not", THEME_NAME, &none, view_of(&[])).is_none());
    assert!(HighlightPass::begin(&engine, "r\u{17f}", THEME_NAME, &none, view_of(&[])).is_none());
}
