//! Highlight bookkeeping: the styled form of each line, keyed by the line's
//! identity, with the revision it was made from and a revision of its own
//! that changes only when the styled form does.
use crate::pubsub::TopicId;
use crate::pubsub::typed_topic;
use crate::text::LineId;
use crate::text::LineView;
use crate::text::LineViewModel;
use crate::text::Rev;
use crate::text::TextView;
use crate::text::share;
use syntect::easy::HighlightLines;
use syntect::highlighting::Theme;
use syntect::highlighting::ThemeSet;
use syntect::parsing::SyntaxSet;
use std::collections::HashMap;
use std::collections::hash_map::DefaultHasher;
use std::hash::Hasher;
use std::sync::Arc;
use vstd::bytes::spec_u64_to_le_bytes;
use vstd::bytes::u64_to_le_bytes;
use vstd::prelude::*;
use vstd::std_specs::hash::DefaultHasherAdditionalSpecFns;
use vstd::string::StringSliceAdditionalSpecFns;
use vstd::utf8::encode_utf8;

verus! {

/// The revision of a line's styled form: a hash of that form and of the
/// line's identity, or `Absent` where the line has no styled form.
#[derive(Debug, PartialEq, Eq, PartialOrd, Ord, Clone, Copy, Structural)]
pub enum HighlightRev {
    Rev { id: u64 },
    Absent,
}

/// The hash that stands for a styled form and the identity of its line.
pub open spec fn styled_hash(output: Seq<char>, line_id: u64) -> u64 {
    DefaultHasher::spec_finish(seq![encode_utf8(output), spec_u64_to_le_bytes(line_id)])
}

impl HighlightRev {
    /// The revision of the styled form `highlighter_output` of the line
    /// `line_id`.
    pub fn from(highlighter_output: &str, line_id: LineId) -> (r: Self)
        ensures
            r == (HighlightRev::Rev {
                id: styled_hash(highlighter_output@, line_id@),
            }),
    {
        let mut h = DefaultHasher::new();
        h.write(highlighter_output.as_bytes());
        let id_bytes = u64_to_le_bytes(line_id.value());
        h.write(id_bytes.as_slice());
        assert(h@ =~= seq![highlighter_output.spec_bytes(), spec_u64_to_le_bytes(line_id@)]);
        HighlightRev::Rev { id: h.finish() }
    }

    /// The number shown for the revision: its last two digits, or -1 where
    /// there is none.
    pub fn shown(&self) -> (n: i64)
        ensures
            n == match *self {
                HighlightRev::Absent => -1,
                HighlightRev::Rev { id } => (id % 100) as int,
            },
    {
        match self {
            HighlightRev::Absent => -1,
            HighlightRev::Rev { id } => (*id % 100) as i64,
        }
    }
}

impl Default for HighlightRev {
    fn default() -> (r: Self)
        ensures
            r == HighlightRev::Absent,
    {
        HighlightRev::Absent
    }
}

/// What the styled form of a line is.
pub struct HighlightedLineModel {
    pub text: Seq<char>,
    pub line_rev: u64,
    pub rev: HighlightRev,
}

/// The styled form of a line.
#[derive(Debug)]
pub struct HighlightedLine {
    highlighted_text: Arc<String>,
    highlighted_line_rev: Rev,
    highlight_rev: HighlightRev,
}

impl View for HighlightedLine {
    type V = HighlightedLineModel;

    closed spec fn view(&self) -> HighlightedLineModel {
        HighlightedLineModel {
            text: self.highlighted_text@,
            line_rev: self.highlighted_line_rev@,
            rev: self.highlight_rev,
        }
    }
}

impl HighlightedLine {
    pub fn highlighted_text(&self) -> (r: Arc<String>)
        ensures
            r@ == self@.text,
    {
        share(&self.highlighted_text)
    }

    pub fn rev(&self) -> (r: HighlightRev)
        ensures
            r == self@.rev,
    {
        self.highlight_rev
    }

    /// The revision of the line that the styled form was made from.
    pub fn line_rev(&self) -> (r: Rev)
        ensures
            r@ == self@.line_rev,
    {
        self.highlighted_line_rev
    }
}

/// The styled forms of the lines of a document, by the lines' identities.
pub struct HighlightState {
    highlighted_lines: HashMap<u64, Arc<HighlightedLine>>,
}

impl View for HighlightState {
    type V = Map<u64, HighlightedLineModel>;

    closed spec fn view(&self) -> Map<u64, HighlightedLineModel> {
        Map::new(
            |id: u64| self.highlighted_lines@.contains_key(id),
            |id: u64| self.highlighted_lines@[id]@,
        )
    }
}

impl Clone for HighlightState {
    fn clone(&self) -> (r: Self)
        ensures
            r@ == self@,
    {
        HighlightState { highlighted_lines: self.highlighted_lines.clone() }
    }
}

/// The styled form that is shown for a line: the one held for the line's
/// identity, where it was made from the line's revision or a later one.
pub open spec fn shown_for(state: Map<u64, HighlightedLineModel>, id: u64, rev: u64) -> Option<
    HighlightedLineModel,
> {
    if state.contains_key(id) && state[id].line_rev >= rev {
        Some(state[id])
    } else {
        None
    }
}

impl HighlightState {
    /// The topic on which the styled forms are published.
    pub fn topic() -> (t: TopicId<HighlightState>)
        ensures
            t@ == "highlight"@,
    {
        typed_topic::<HighlightState>("highlight")
    }

    /// Holds `entry` as the styled form of the line `id`.
    fn set(&mut self, id: u64, entry: HighlightedLine)
        ensures
            final(self)@ == old(self)@.insert(id, entry@),
    {
        broadcast use vstd::std_specs::hash::group_hash_axioms;

        self.highlighted_lines.insert(id, Arc::new(entry));
        assert(self@ =~= old(self)@.insert(id, entry@));
    }

    /// The state that holds no styled form.
    pub fn new() -> (r: Self)
        ensures
            r@ == Map::<u64, HighlightedLineModel>::empty(),
    {
        let r = HighlightState { highlighted_lines: HashMap::new() };
        assert(r@ =~= Map::<u64, HighlightedLineModel>::empty());
        r
    }

    /// The styled form to show for `line`, if one is held that is not older
    /// than the line.
    pub fn highlighted_line(&self, line: &LineView) -> (r: Option<Arc<HighlightedLine>>)
        ensures
            match r {
                Some(hl) => Some(hl@),
                None => None,
            } == shown_for(self@, line@.id, line@.rev),
    {
        broadcast use vstd::std_specs::hash::group_hash_axioms;

        let ln = line.id().value();
        if let Some(hl_line) = self.highlighted_lines.get(&ln) {
            let rev = line.rev();
            if hl_line.highlighted_line_rev.value() >= rev.value() {
                return Some(share(hl_line));
            }
        }
        None
    }
}

/// `syntect::parsing::SyntaxSet`: a set of syntaxes, of which nothing is
/// known.
#[verifier::external_type_specification]
#[verifier::external_body]
pub struct ExSyntaxSet(SyntaxSet);

/// `syntect::highlighting::ThemeSet`: a set of themes, of which nothing is
/// known.
#[verifier::external_type_specification]
#[verifier::external_body]
pub struct ExThemeSet(ThemeSet);

/// `syntect::highlighting::Theme`: one theme of a set.
#[verifier::external_type_specification]
#[verifier::external_body]
pub struct ExTheme(Theme);

/// A `syntect::easy::HighlightLines` part of the way through a document,
/// together with the set of syntaxes that its syntax came from, which is the
/// set that each line has to be parsed with. Nothing is known of its state.
#[verifier::external_body]
struct LineHighlighter<'a> {
    lines: HighlightLines<'a>,
    syntaxes: &'a SyntaxSet,
}

/// The file extensions of the syntaxes that a set holds.
pub uninterp spec fn syntax_extensions(syntaxes: SyntaxSet) -> Set<Seq<char>>;

/// The names of the themes that a set holds: the keys of `ThemeSet::themes`.
pub uninterp spec fn theme_names(themes: ThemeSet) -> Set<Seq<char>>;

/// `c`, in lower case where it is an ASCII capital.
pub open spec fn ascii_lower(c: char) -> char {
    if 'A' as u32 <= c as u32 <= 'Z' as u32 {
        ((c as u32) + 32) as char
    } else {
        c
    }
}

/// Whether two strings are the same but for the case of their ASCII
/// letters.
pub open spec fn same_ignoring_ascii_case(a: Seq<char>, b: Seq<char>) -> bool {
    a.len() == b.len() && forall|i: int|
        0 <= i < a.len() ==> ascii_lower(#[trigger] a[i]) == ascii_lower(b[i])
}

/// Whether one of the extensions is `extension`, but for the case of its
/// ASCII letters.
pub open spec fn holds_extension(extensions: Set<Seq<char>>, extension: Seq<char>) -> bool {
    exists|e: Seq<char>| #[trigger] extensions.contains(e) && same_ignoring_ascii_case(e, extension)
}

/// The names of the themes that come with the highlighter.
pub open spec fn default_theme_names() -> Set<Seq<char>> {
    set![
        "base16-ocean.dark"@,
        "base16-eighties.dark"@,
        "base16-mocha.dark"@,
        "base16-ocean.light"@,
        "InspiredGitHub"@,
        "Solarized (dark)"@,
        "Solarized (light)"@,
    ]
}

/// `SyntaxSet::load_defaults_nonewlines`: the syntaxes that come with the
/// highlighter, for lines without a line break at their end. One of them is
/// for files of the extension `rs`.
#[verifier::external_body]
fn default_syntaxes() -> (r: SyntaxSet)
    ensures
        holds_extension(syntax_extensions(r), "rs"@),
{
    SyntaxSet::load_defaults_nonewlines()
}

/// `ThemeSet::load_defaults`: the themes that come with the highlighter,
/// which include those that its documentation names.
#[verifier::external_body]
fn default_themes() -> (r: ThemeSet)
    ensures
        default_theme_names().subset_of(theme_names(r)),
{
    ThemeSet::load_defaults()
}

/// `BTreeMap::get` on `ThemeSet::themes`: the theme of the given name, which
/// there is where the name is a key of the map.
#[verifier::external_body]
fn theme_named<'a>(themes: &'a ThemeSet, name: &str) -> (r: Option<&'a Theme>)
    ensures
        r is Some <==> theme_names(*themes).contains(name@),
{
    themes.themes.get(name)
}

/// `SyntaxSet::find_syntax_by_extension`, then `HighlightLines::new` on the
/// syntax found: a highlighter at the start of a document, for the syntax of
/// files of the given extension. There is one where a syntax of the set has
/// that extension, the case of ASCII letters left aside.
#[verifier::external_body]
fn line_highlighter<'a>(syntaxes: &'a SyntaxSet, extension: &str, theme: &'a Theme) -> (r: Option<
    LineHighlighter<'a>,
>)
    ensures
        r is Some <==> holds_extension(syntax_extensions(*syntaxes), extension@),
{
    match syntaxes.find_syntax_by_extension(extension) {
        Some(syntax) => Some(
            LineHighlighter { lines: HighlightLines::new(syntax, theme), syntaxes },
        ),
        None => None,
    }
}

/// `HighlightLines::highlight_line` with the set that the highlighter's
/// syntax came from, then `as_24_bit_terminal_escaped`: the styled form of
/// the next line of the document, or nothing where the highlighter fails on
/// it. What the form is depends on the lines that came before, so nothing is
/// said of it.
#[verifier::external_body]
fn styled(highlighter: &mut LineHighlighter, line: &str, background: bool) -> (r: Option<String>) {
    match highlighter.lines.highlight_line(line, highlighter.syntaxes) {
        Ok(ranges) => Some(syntect::util::as_24_bit_terminal_escaped(&ranges[..], background)),
        Err(_) => None,
    }
}

/// The extension of the files whose syntax the editor highlights.
pub const SYNTAX_EXTENSION: &'static str = "rs";

/// The name of the theme in which the editor highlights.
pub const THEME_NAME: &'static str = "base16-ocean.dark";

/// The syntaxes and themes that passes draw on.
pub struct Engine {
    syntaxes: SyntaxSet,
    themes: ThemeSet,
}

impl Engine {
    /// Whether the engine has a syntax for files of the given extension, the
    /// case of ASCII letters left aside.
    pub closed spec fn knows_syntax(&self, extension: Seq<char>) -> bool {
        holds_extension(syntax_extensions(self.syntaxes), extension)
    }

    /// Whether the engine has a theme of the given name.
    pub closed spec fn knows_theme(&self, name: Seq<char>) -> bool {
        theme_names(self.themes).contains(name)
    }

    /// The engine with the syntaxes and themes that come with the
    /// highlighter: among them the syntax and the theme that the editor
    /// highlights with.
    pub fn load() -> (r: Self)
        ensures
            r.knows_syntax(SYNTAX_EXTENSION@),
            r.knows_theme(THEME_NAME@),
            forall|name: Seq<char>|
                default_theme_names().contains(name) ==> #[trigger] r.knows_theme(name),
    {
        Engine { syntaxes: default_syntaxes(), themes: default_themes() }
    }
}

/// The styled form `output` of `line`, as it is held.
pub open spec fn entry_for(line: LineViewModel, output: Seq<char>) -> HighlightedLineModel {
    HighlightedLineModel {
        text: output,
        line_rev: line.max_rev_before,
        rev: HighlightRev::Rev { id: styled_hash(output, line.id) },
    }
}

/// The state with the styled forms `outputs` of the lines from index `from`
/// up to `upto` merged in, line by line.
pub open spec fn merged(
    state: Map<u64, HighlightedLineModel>,
    lines: Seq<LineViewModel>,
    outputs: Seq<Seq<char>>,
    from: int,
    upto: int,
) -> Map<u64, HighlightedLineModel>
    decreases upto - from,
{
    if upto <= from {
        state
    } else {
        merged(state, lines, outputs, from, upto - 1).insert(
            lines[upto - 1].id,
            entry_for(lines[upto - 1], outputs[upto - 1]),
        )
    }
}

/// The state without the styled forms of lines that the document no longer
/// holds.
pub open spec fn retained(state: Map<u64, HighlightedLineModel>, lines: Seq<LineViewModel>) -> Map<
    u64,
    HighlightedLineModel,
> {
    Map::new(
        |id: u64|
            state.contains_key(id) && exists|i: int|
                0 <= i < lines.len() && (#[trigger] lines[i]).id == id,
        |id: u64| state[id],
    )
}

/// Whether the styled forms are published after the line `index`: after
/// every twentieth line but the first.
pub open spec fn publishes_after(index: int) -> bool {
    index > 0 && index % 20 == 0
}

/// The index behind the lines that one step of a pass takes, where it
/// starts at `next`: behind the first line after which the styled forms are
/// published, or behind the last line.
pub open spec fn step_end(len: int, next: int) -> int
    decreases len - next,
{
    if next >= len {
        len
    } else if publishes_after(next) {
        next + 1
    } else {
        step_end(len, next + 1)
    }
}

/// Whether the step that starts at `next` is the last of the pass: it ends
/// behind the last line, and not for a publication after that line.
pub open spec fn step_finishes(len: int, next: int) -> bool
    decreases len - next,
{
    if next >= len {
        true
    } else if publishes_after(next) {
        false
    } else {
        step_finishes(len, next + 1)
    }
}

/// What a pass is: the lines it goes over, the index of the line it takes
/// next, and the styled forms it holds.
pub struct PassModel {
    pub lines: Seq<LineViewModel>,
    pub next: int,
    pub state: Map<u64, HighlightedLineModel>,
}

impl PassModel {
    /// Whether `after` is the pass behind one step of `self` in which the
    /// lines got the styled forms `outputs`.
    pub open spec fn stepped(self, after: PassModel, outputs: Seq<Seq<char>>) -> bool {
        &&& outputs.len() == self.lines.len()
        &&& after.lines == self.lines
        &&& after.next == step_end(self.lines.len() as int, self.next)
        &&& after.state == merged(self.state, self.lines, outputs, self.next, after.next)
    }
}

/// What a step of a pass hands on: the styled forms so far, to be
/// published, and whether the pass is over.
pub struct PassStep {
    pub snapshot: HighlightState,
    pub finished: bool,
}

/// One pass of the highlighter over a snapshot of the text.
pub struct HighlightPass<'a> {
    lines: LineHighlighter<'a>,
    text: TextView,
    next: usize,
    state: HighlightState,
}

impl<'a> View for HighlightPass<'a> {
    type V = PassModel;

    closed spec fn view(&self) -> PassModel {
        PassModel { lines: self.text@.lines, next: self.next as int, state: self.state@ }
    }
}

impl<'a> HighlightPass<'a> {
    /// The pass has not run past the last line.
    pub closed spec fn wf(&self) -> bool {
        self.next <= self.text@.lines.len()
    }

    /// Starts a pass over `text` that builds on the styled forms `previous`,
    /// for the syntax of files of the given extension and in the theme of the
    /// given name; nothing where the engine lacks either, and only then.
    pub fn begin(
        engine: &'a Engine,
        extension: &str,
        theme: &str,
        previous: &HighlightState,
        text: TextView,
    ) -> (r: Option<HighlightPass<'a>>)
        ensures
            r is Some <==> engine.knows_syntax(extension@) && engine.knows_theme(theme@),
            r matches Some(pass) ==> pass.wf() && pass@ == (PassModel {
                lines: text@.lines,
                next: 0,
                state: previous@,
            }),
    {
        let theme = match theme_named(&engine.themes, theme) {
            Some(t) => t,
            None => {
                return None;
            },
        };
        let lines = match line_highlighter(&engine.syntaxes, extension, theme) {
            Some(l) => l,
            None => {
                return None;
            },
        };
        Some(HighlightPass { lines, text, next: 0, state: previous.clone() })
    }

    /// One step of the pass: gives the lines from the next one on their
    /// styled forms, up to the line after which the styled forms are
    /// published or to the last line, and hands the styled forms on. A line on
    /// which the highlighter fails is held as it is.
    pub fn advance(&mut self) -> (r: PassStep)
        requires
            old(self).wf(),
        ensures
            final(self).wf(),
            exists|outputs: Seq<Seq<char>>| #[trigger] old(self)@.stepped(final(self)@, outputs),
            r.snapshot@ == final(self)@.state,
            r.finished == step_finishes(old(self)@.lines.len() as int, old(self)@.next),
    {
        let len = self.text.line_count();
        let start = self.next;
        let ghost lines = self.text@.lines;
        let ghost mut outputs: Seq<Seq<char>> = Seq::new(lines.len(), |i: int| Seq::empty());
        let mut it = self.text.iter_line_range(start, len);
        assert(it.remaining() =~= lines.skip(start as int));
        let mut finished = true;
        while self.next < len
            invariant_except_break
                step_end(len as int, self.next as int) == step_end(len as int, start as int),
                step_finishes(len as int, self.next as int) == step_finishes(
                    len as int,
                    start as int,
                ),
                finished,
            invariant
                start <= self.next <= len,
                len == lines.len(),
                lines == self.text@.lines,
                lines == old(self)@.lines,
                outputs.len() == lines.len(),
                it.remaining() == lines.skip(self.next as int),
                self.state@ == merged(
                    old(self)@.state,
                    lines,
                    outputs,
                    start as int,
                    self.next as int,
                ),
            ensures
                start <= self.next <= len,
                lines == self.text@.lines,
                outputs.len() == lines.len(),
                self.state@ == merged(
                    old(self)@.state,
                    lines,
                    outputs,
                    start as int,
                    self.next as int,
                ),
                self.next == step_end(len as int, start as int),
                finished == step_finishes(len as int, start as int),
            decreases len - self.next,
        {
            let index = self.next;
            let line = match it.next() {
                Some(l) => l,
                None => {
                    assert(false);
                    break ;
                },
            };
            assert(line@ == lines[index as int]);
            let line_text = line.content_str();
            let escaped = match styled(&mut self.lines, line_text.as_str(), false) {
                Some(e) => e,
                None => line_text.as_str().to_owned(),
            };
            let highlight_rev = HighlightRev::from(escaped.as_str(), line.id());
            proof {
                let before = outputs;
                outputs = outputs.update(index as int, escaped@);
                lemma_merged_same(
                    old(self)@.state,
                    lines,
                    before,
                    outputs,
                    start as int,
                    index as int,
                );
            }
            self.state.set(
                line.id().value(),
                HighlightedLine {
                    highlighted_text: Arc::new(escaped),
                    highlighted_line_rev: line.max_rev_before(),
                    highlight_rev,
                },
            );
            self.next = index + 1;
            assert(it.remaining() =~= lines.skip(self.next as int));
            if index > 0 && index % 20 == 0 {
                finished = false;
                break ;
            }
        }
        assert(old(self)@.stepped(self@, outputs));
        PassStep { snapshot: self.state.clone(), finished }
    }

    /// Ends the pass: the styled forms it holds, without those of lines that
    /// the text no longer has.
    pub fn finish(self) -> (r: HighlightState)
        ensures
            r@ == retained(self@.state, self@.lines),
    {
        broadcast use vstd::std_specs::hash::group_hash_axioms;

        let mut kept = HighlightState::new();
        let ghost lines = self.text@.lines;
        let mut it = self.text.iter_lines();
        let mut index: usize = 0;
        let len = self.text.line_count();
        while index < len
            invariant
                index <= len,
                len == lines.len(),
                lines == self.text@.lines,
                it.remaining() == lines.skip(index as int),
                kept@ == retained(self.state@, lines.take(index as int)),
            decreases len - index,
        {
            let ghost before = kept@;
            let ghost id = lines[index as int].id;
            match it.next() {
                Some(line) => {
                    assert(line@ == lines[index as int]);
                    let line_id = line.id().value();
                    if let Some(entry) = self.state.highlighted_lines.get(&line_id) {
                        kept.highlighted_lines.insert(line_id, share(entry));
                        assert(kept@ =~= before.insert(id, self.state@[id]));
                    } else {
                        assert(!self.state@.contains_key(id));
                    }
                },
                None => {
                    assert(false);
                },
            }
            index += 1;
            proof {
                assert(it.remaining() =~= lines.skip(index as int));
                let now = lines.take(index as int);
                let was = lines.take(index - 1);
                assert(now[index - 1].id == id);
                assert forall|k: u64| retained(self.state@, now).contains_key(k) <==> (
                retained(self.state@, was).contains_key(k) || (k == id && self.state@.contains_key(
                    id,
                ))) by {
                    if retained(self.state@, now).contains_key(k) {
                        let i = choose|i: int| 0 <= i < now.len() && (#[trigger] now[i]).id == k;
                        if i < index - 1 {
                            assert(was[i].id == k);
                        }
                    }
                    if retained(self.state@, was).contains_key(k) {
                        let i = choose|i: int| 0 <= i < was.len() && (#[trigger] was[i]).id == k;
                        assert(now[i].id == k);
                    }
                }
                assert(kept@ =~= retained(self.state@, now));
            }
        }
        assert(lines.take(len as int) =~= lines);
        kept
    }
}

/// What is merged depends only on the styled forms of the lines merged.
proof fn lemma_merged_same(
    state: Map<u64, HighlightedLineModel>,
    lines: Seq<LineViewModel>,
    outputs: Seq<Seq<char>>,
    outputs2: Seq<Seq<char>>,
    from: int,
    upto: int,
)
    requires
        forall|i: int| from <= i < upto ==> outputs[i] == outputs2[i],
    ensures
        merged(state, lines, outputs2, from, upto) == merged(state, lines, outputs, from, upto),
    decreases upto - from,
{
    if upto > from {
        lemma_merged_same(state, lines, outputs, outputs2, from, upto - 1);
    }
}

} // verus!
