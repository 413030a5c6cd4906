//! What the shell draws: lines cut into pieces, each with the tone it is shown
//! in.
use vstd::prelude::*;
use vstd::string::*;

use crate::agents::claude;
use crate::checks::runner;
use crate::hq::tui;
use crate::hq::tui::{
    App, Completion, CompletionView, StatusSnapshot, StatusView, TranscriptKind,
};
use crate::text;

verus! {

/// The tone of a piece of text.
#[derive(Debug, Clone, Copy, PartialEq, Eq, Structural)]
pub enum Tone {
    Plain,
    Faint,
    Soft,
    Bright,
    Accent,
    Stone,
    Yellow,
    BoldYellow,
    Cyan,
    Green,
    Red,
    Magenta,
    BoldMagenta,
}

/// A piece of text with its tone.
#[derive(Debug, Clone, PartialEq, Eq)]
pub struct Segment {
    pub text: String,
    pub tone: Tone,
}

/// The contents of a piece.
#[verifier::ext_equal]
pub struct SegmentView {
    pub text: Seq<char>,
    pub tone: Tone,
}

impl View for Segment {
    type V = SegmentView;

    open spec fn view(&self) -> SegmentView {
        SegmentView { text: self.text@, tone: self.tone }
    }
}

/// The contents of a list of pieces.
pub open spec fn segment_views(list: Seq<Segment>) -> Seq<SegmentView> {
    list.map_values(|s: Segment| s@)
}

/// A piece.
pub open spec fn seg(text: Seq<char>, tone: Tone) -> SegmentView {
    SegmentView { text, tone }
}

/// Adds a piece to a list.
fn add_segment(list: &mut Vec<Segment>, text: &str, tone: Tone)
    ensures
        segment_views(final(list)@) == segment_views(old(list)@).push(seg(text@, tone)),
{
    let ghost before = list@;
    list.push(Segment { text: text.to_owned(), tone });
    assert(segment_views(list@) =~= segment_views(before).push(seg(text@, tone)));
}

/// The start of a text, as much as fits a width.
pub open spec fn cut(s: Seq<char>, width: int) -> Seq<char> {
    if s.len() <= width {
        s
    } else {
        s.take(width)
    }
}

/// The start of a text, as much as fits a width.
pub fn truncate_to_width(s: &str, width: usize) -> (out: String)
    ensures
        out@ == cut(s@, width as int),
{
    let chars: Vec<char> = text::chars_of(s);
    if chars.len() <= width {
        return s.to_owned();
    }
    let out: String = text::string_of(&chars, 0, width);
    assert(out@ =~= s@.take(width as int));
    out
}

/// The number of characters of a text.
fn char_count(s: &str) -> (out: usize)
    ensures
        out == s@.len(),
{
    let chars: Vec<char> = text::chars_of(s);
    chars.len()
}

/// The greater of two numbers.
pub open spec fn larger(a: int, b: int) -> int {
    if a < b {
        b
    } else {
        a
    }
}

/// The pieces of a line that fit a width, the last of them cut short.
pub open spec fn fitting(pieces: Seq<SegmentView>, width: int) -> Seq<SegmentView>
    decreases pieces.len(),
{
    if pieces.len() == 0 || width <= 0 || pieces[0].text.len() == 0 {
        Seq::empty()
    } else {
        let first = cut(pieces[0].text, width);
        seq![seg(first, pieces[0].tone)] + fitting(pieces.skip(1), width - first.len())
    }
}

/// The pieces of a line that fit a width, the last of them cut short.
pub fn fit_segments(pieces: &Vec<Segment>, width: usize) -> (out: Vec<Segment>)
    ensures
        segment_views(out@) == fitting(segment_views(pieces@), width as int),
{
    let ghost all = segment_views(pieces@);
    let ghost goal = fitting(all, width as int);
    let mut out: Vec<Segment> = Vec::new();
    let mut left: usize = width;
    let mut i: usize = 0;
    assert(all.skip(0) =~= all);
    assert(segment_views(out@) + fitting(all, width as int) =~= goal);
    while i < pieces.len()
        invariant
            i <= pieces@.len(),
            all == segment_views(pieces@),
            goal == fitting(all, width as int),
            segment_views(out@) + fitting(all.skip(i as int), left as int) == goal,
        decreases pieces@.len() - i,
    {
        let ghost rest = all.skip(i as int);
        assert(rest[0] == pieces@[i as int]@);
        assert(rest.skip(1) =~= all.skip(i + 1));
        let count: usize = char_count(pieces[i].text.as_str());
        if left == 0 || count == 0 {
            assert(segment_views(out@) + fitting(rest, left as int) =~= segment_views(out@));
            return out;
        }
        let ghost done = segment_views(out@);
        let first: String = truncate_to_width(pieces[i].text.as_str(), left);
        let used: usize = char_count(first.as_str());
        add_segment(&mut out, first.as_str(), pieces[i].tone);
        assert(done + fitting(rest, left as int) =~= segment_views(out@) + fitting(
            rest.skip(1),
            left - used,
        ));
        left = left - used;
        i = i + 1;
    }
    assert(all.skip(i as int).len() == 0);
    assert(segment_views(out@) + fitting(all.skip(i as int), left as int) =~= segment_views(out@));
    out
}

/// The number of characters of a line.
pub open spec fn line_len(pieces: Seq<SegmentView>) -> nat
    decreases pieces.len(),
{
    if pieces.len() == 0 {
        0
    } else {
        pieces[0].text.len() + line_len(pieces.skip(1))
    }
}

/// A line that was cut to a width is not longer than it.
pub proof fn law_lines_fit(pieces: Seq<SegmentView>, width: int)
    requires
        0 <= width,
    ensures
        line_len(fitting(pieces, width)) <= width,
    decreases pieces.len(),
{
    if pieces.len() > 0 && width > 0 && pieces[0].text.len() > 0 {
        let first = cut(pieces[0].text, width);
        law_lines_fit(pieces.skip(1), width - first.len());
        let rest = fitting(pieces.skip(1), width - first.len());
        let line = fitting(pieces, width);
        assert(line.skip(1) =~= rest);
        assert(line[0].text == first);
    }
}

// ------------------------------------------------------------------ the status line

/// The tone of a task's state.
pub open spec fn state_tone(name: Seq<char>) -> Tone {
    if name == "Idle"@ {
        Tone::Faint
    } else if name == "Executing"@ || name == "Addressing"@ || name == "Checking"@ {
        Tone::Yellow
    } else if name == "Reviewing"@ {
        Tone::Cyan
    } else if name == "Complete"@ {
        Tone::Green
    } else if name == "Failed"@ {
        Tone::Red
    } else if name == "AwaitingHuman"@ {
        Tone::Magenta
    } else {
        Tone::Bright
    }
}

/// The tone of a task's state.
pub fn task_state_color(name: &str) -> (out: Tone)
    ensures
        out == state_tone(name@),
{
    if text::same(name, "Idle") {
        Tone::Faint
    } else if text::same(name, "Executing") || text::same(name, "Addressing") || text::same(
        name,
        "Checking",
    ) {
        Tone::Yellow
    } else if text::same(name, "Reviewing") {
        Tone::Cyan
    } else if text::same(name, "Complete") {
        Tone::Green
    } else if text::same(name, "Failed") {
        Tone::Red
    } else if text::same(name, "AwaitingHuman") {
        Tone::Magenta
    } else {
        Tone::Bright
    }
}

/// The name of the state that the status line shows.
pub open spec fn shown_state(status: StatusView) -> Seq<char> {
    if status.task_state.len() == 0 {
        "Idle"@
    } else {
        status.task_state
    }
}

/// The pieces of the status line before it is cut: the state, what to do where
/// a human is waited for, and the counters.
pub open spec fn status_pieces(status: StatusView) -> Seq<SegmentView> {
    let state = shown_state(status);
    let head = if state == "AwaitingHuman"@ {
        seq![
            seg(state, state_tone(state)),
            seg("  ← type your answer and press Enter"@, Tone::BoldMagenta),
        ]
    } else {
        seq![seg(state, state_tone(state))]
    };
    head + seq![
        seg(" | "@, Tone::Faint),
        seg("retries: "@, Tone::Faint),
        seg(text::decimal(status.retries as nat), Tone::Soft),
        seg(" | "@, Tone::Faint),
        seg("cycles: "@, Tone::Faint),
        seg(text::decimal(status.cycles as nat), Tone::Soft),
    ]
}

/// The status line; while a request to quit waits, what would quit.
pub open spec fn status_line(status: StatusView, ctrl_c_pending: bool, width: int) -> Seq<
    SegmentView,
> {
    fitting(
        if ctrl_c_pending {
            seq![seg("Press Ctrl+C again to exit"@, Tone::Yellow)]
        } else {
            status_pieces(status)
        },
        larger(width, 1),
    )
}

/// The greater of a width and one.
fn at_least_one(width: usize) -> (out: usize)
    ensures
        out == larger(width as int, 1),
{
    if width < 1 {
        1
    } else {
        width
    }
}

/// The pieces of the status line.
pub fn print_status_line(status: &StatusSnapshot, ctrl_c_pending: bool, width: usize) -> (out: Vec<
    Segment,
>)
    ensures
        segment_views(out@) == status_line(status@, ctrl_c_pending, width as int),
{
    let mut pieces: Vec<Segment> = Vec::new();
    assert(segment_views(pieces@) =~= Seq::empty());
    if ctrl_c_pending {
        add_segment(&mut pieces, "Press Ctrl+C again to exit", Tone::Yellow);
        assert(segment_views(pieces@) =~= seq![seg("Press Ctrl+C again to exit"@, Tone::Yellow)]);
    } else {
        let named: bool = char_count(status.task_state.as_str()) > 0;
        let state: &str = if named {
            status.task_state.as_str()
        } else {
            "Idle"
        };
        add_segment(&mut pieces, state, task_state_color(state));
        if text::same(state, "AwaitingHuman") {
            add_segment(&mut pieces, "  ← type your answer and press Enter", Tone::BoldMagenta);
        }
        add_segment(&mut pieces, " | ", Tone::Faint);
        add_segment(&mut pieces, "retries: ", Tone::Faint);
        add_segment(
            &mut pieces,
            text::decimal_string(status.retries as u64).as_str(),
            Tone::Soft,
        );
        add_segment(&mut pieces, " | ", Tone::Faint);
        add_segment(&mut pieces, "cycles: ", Tone::Faint);
        add_segment(
            &mut pieces,
            text::decimal_string(status.cycles as u64).as_str(),
            Tone::Soft,
        );
        assert(segment_views(pieces@) =~= status_pieces(status@));
    }
    fit_segments(&pieces, at_least_one(width))
}

// ------------------------------------------------------------------ completions

/// How many completions are shown at once.
pub const POPUP_ROWS: usize = 3;

/// The first completion that is shown.
pub open spec fn popup_start(total: int, selected: int) -> int {
    if total <= POPUP_ROWS || selected < 0 {
        0
    } else if selected < total - POPUP_ROWS {
        selected
    } else {
        total - POPUP_ROWS
    }
}

/// A completion that is shown.
#[derive(Debug, Clone, PartialEq, Eq)]
pub struct CompletionRow {
    pub selected: bool,
    pub command: String,
    pub description: String,
}

/// The contents of a shown completion.
#[verifier::ext_equal]
pub struct RowView {
    pub selected: bool,
    pub command: Seq<char>,
    pub description: Seq<char>,
}

impl View for CompletionRow {
    type V = RowView;

    open spec fn view(&self) -> RowView {
        RowView {
            selected: self.selected,
            command: self.command@,
            description: self.description@,
        }
    }
}

/// The contents of shown completions.
pub open spec fn row_views(list: Seq<CompletionRow>) -> Seq<RowView> {
    list.map_values(|r: CompletionRow| r@)
}

/// How many completions are shown.
pub open spec fn popup_count(total: int) -> int {
    if total < POPUP_ROWS {
        total
    } else {
        POPUP_ROWS as int
    }
}

/// The completions that are shown, each cut to a width.
pub open spec fn popup_rows(list: Seq<CompletionView>, selected: int, width: int) -> Seq<RowView> {
    let start = popup_start(list.len() as int, selected);
    Seq::new(
        popup_count(list.len() as int) as nat,
        |i: int|
            RowView {
                selected: start + i == selected,
                command: cut(list[start + i].0, larger(width, 1)),
                description: cut(list[start + i].1, larger(width, 1)),
            },
    )
}

/// The completions that are shown, each cut to a width.
pub fn visible_completion_rows(list: &Vec<Completion>, selected: usize, width: usize) -> (out: Vec<
    CompletionRow,
>)
    ensures
        row_views(out@) == popup_rows(
            tui::completion_views(list@),
            selected as int,
            width as int,
        ),
{
    let ghost shown = tui::completion_views(list@);
    let total: usize = list.len();
    let room: usize = at_least_one(width);
    let start: usize = if total <= POPUP_ROWS {
        0
    } else if selected < total - POPUP_ROWS {
        selected
    } else {
        total - POPUP_ROWS
    };
    let count: usize = if total < POPUP_ROWS {
        total
    } else {
        POPUP_ROWS
    };
    let ghost all = popup_rows(shown, selected as int, width as int);
    let mut out: Vec<CompletionRow> = Vec::new();
    assert(row_views(out@) =~= all.take(0));
    let mut i: usize = 0;
    while i < count
        invariant
            i <= count,
            shown == tui::completion_views(list@),
            total == list@.len(),
            count == popup_count(total as int),
            start == popup_start(total as int, selected as int),
            room == larger(width as int, 1),
            all == popup_rows(shown, selected as int, width as int),
            row_views(out@) == all.take(i as int),
        decreases count - i,
    {
        let ghost done = row_views(out@);
        let (command, description): Completion = list[start + i];
        assert(shown[start + i] == (command@, description@));
        out.push(
            CompletionRow {
                selected: start + i == selected,
                command: truncate_to_width(command, room),
                description: truncate_to_width(description, room),
            },
        );
        assert(row_views(out@) =~= done.push(all[i as int]));
        assert(all.take(i + 1) =~= all.take(i as int).push(all[i as int]));
        i = i + 1;
    }
    assert(all.take(i as int) =~= all);
    out
}

/// The completion that is selected is among those that are shown.
pub proof fn law_selected_completion_is_shown(
    list: Seq<CompletionView>,
    selected: int,
    width: int,
)
    requires
        0 <= selected < list.len(),
    ensures
        exists|i: int|
            0 <= i < popup_rows(list, selected, width).len() && (#[trigger] popup_rows(
                list,
                selected,
                width,
            )[i]).selected,
{
    let i = selected - popup_start(list.len() as int, selected);
    assert(popup_rows(list, selected, width)[i].selected);
}

/// The pieces of a shown completion: a mark, the command, and as much of the
/// description as fits beside them.
pub open spec fn completion_pieces(row: RowView, width: int) -> Seq<SegmentView> {
    let gap = if row.description.len() == 0 {
        0int
    } else {
        2int
    };
    let room = larger(width - (2 + row.command.len() + gap), 1);
    let description = cut(row.description, room);
    let head = if row.selected {
        seq![seg("› "@, Tone::Yellow), seg(row.command, Tone::BoldYellow)]
    } else {
        seq![seg("  "@, Tone::Faint), seg(row.command, Tone::Soft)]
    };
    if description.len() == 0 {
        head
    } else {
        head + seq![seg("  "@, Tone::Faint), seg(description, Tone::Faint)]
    }
}

/// The pieces of a shown completion.
pub fn print_completion_line(row: &CompletionRow, width: usize) -> (out: Vec<Segment>)
    ensures
        segment_views(out@) == completion_pieces(row@, width as int),
{
    let command_width: usize = char_count(row.command.as_str());
    let described: bool = char_count(row.description.as_str()) > 0;
    let gap: usize = if described {
        2
    } else {
        0
    };
    let room: usize = if width > gap + 2 && width - gap - 2 > command_width {
        width - gap - 2 - command_width
    } else {
        1
    };
    let description: String = truncate_to_width(row.description.as_str(), room);
    let mut out: Vec<Segment> = Vec::new();
    assert(segment_views(out@) =~= Seq::empty());
    if row.selected {
        add_segment(&mut out, "› ", Tone::Yellow);
        add_segment(&mut out, row.command.as_str(), Tone::BoldYellow);
    } else {
        add_segment(&mut out, "  ", Tone::Faint);
        add_segment(&mut out, row.command.as_str(), Tone::Soft);
    }
    if char_count(description.as_str()) > 0 {
        add_segment(&mut out, "  ", Tone::Faint);
        add_segment(&mut out, description.as_str(), Tone::Faint);
    }
    assert(segment_views(out@) =~= completion_pieces(row@, width as int));
    out
}

// ------------------------------------------------------------------ the prompt

/// The prompt with what is visible of the input, and where the cursor stands
/// in it.
#[derive(Debug, Clone, PartialEq, Eq)]
pub struct PromptLine {
    pub visible: String,
    pub cursor_col: usize,
}

/// How much of the input is visible.
pub open spec fn prompt_room(width: int) -> int {
    larger(width - 2, 1)
}

/// The first character of the input that is visible: where the input does not
/// fit, the cursor is kept at the right edge.
pub open spec fn prompt_start(len: int, cursor: int, width: int) -> int {
    if len <= prompt_room(width) || cursor <= prompt_room(width) {
        0
    } else {
        cursor - prompt_room(width)
    }
}

/// What is visible of the input.
pub open spec fn prompt_visible(input: Seq<char>, cursor: int, width: int) -> Seq<char> {
    let start = prompt_start(input.len() as int, cursor, width);
    cut(input.skip(start), prompt_room(width))
}

/// The visible part of the input and the column of the cursor, behind the mark
/// of the prompt.
pub fn render_prompt_line(input: &str, cursor: usize, width: usize) -> (out: PromptLine)
    requires
        cursor <= input@.len(),
        input@.len() < usize::MAX - 2,
    ensures
        out.visible@ == prompt_visible(input@, cursor as int, width as int),
        out.cursor_col == 2 + cursor - prompt_start(
            input@.len() as int,
            cursor as int,
            width as int,
        ),
{
    let room: usize = if width > 3 {
        width - 2
    } else {
        1
    };
    let chars: Vec<char> = text::chars_of(input);
    let total: usize = chars.len();
    let start: usize = if total <= room || cursor <= room {
        0
    } else {
        cursor - room
    };
    let end: usize = if total - start <= room {
        total
    } else {
        start + room
    };
    let visible: String = text::string_of(&chars, start, end);
    assert(visible@ =~= prompt_visible(input@, cursor as int, width as int));
    PromptLine { visible, cursor_col: 2 + (cursor - start) }
}

/// The cursor always stands in the visible part of the input, or directly
/// behind it.
pub proof fn law_cursor_is_visible(input: Seq<char>, cursor: int, width: int)
    requires
        0 <= cursor <= input.len(),
    ensures
        prompt_start(input.len() as int, cursor, width) <= cursor,
        cursor - prompt_start(input.len() as int, cursor, width) <= prompt_visible(
            input,
            cursor,
            width,
        ).len(),
{
}

/// What is drawn at the bottom of the screen, between two borders and below
/// them.
#[derive(Debug, Clone, PartialEq, Eq)]
pub struct LiveArea {
    /// The width of the borders.
    pub border: usize,
    /// The line between them.
    pub prompt: String,
    pub cursor_col: usize,
    /// The lines below them.
    pub lower: Vec<Vec<Segment>>,
}

/// The contents of drawn lines.
pub open spec fn lower_views(list: Seq<Vec<Segment>>) -> Seq<Seq<SegmentView>> {
    list.map_values(|l: Vec<Segment>| segment_views(l@))
}

/// The lines below the prompt: the completions where they are shown, the
/// status line otherwise.
pub open spec fn lower_lines(app: App, width: int) -> Seq<Seq<SegmentView>> {
    if tui::popup(app.edit(), app.confirmation is Some) {
        popup_rows(app.edit().candidates, app.edit().selected, width).map_values(
            |r: RowView| completion_pieces(r, width),
        )
    } else {
        seq![status_line(app.status@, app.ctrl_c_pending, width)]
    }
}

/// The lines below the prompt.
pub fn render_lower_live_area(app: &App, width: usize) -> (out: Vec<Vec<Segment>>)
    ensures
        lower_views(out@) == lower_lines(*app, width as int),
{
    let mut out: Vec<Vec<Segment>> = Vec::new();
    if !app.completion_popup_visible() {
        out.push(print_status_line(&app.status, app.ctrl_c_pending, width));
        assert(lower_views(out@) =~= lower_lines(*app, width as int));
        return out;
    }
    let rows: Vec<CompletionRow> = visible_completion_rows(
        &app.completion_candidates,
        app.completion_selected,
        width,
    );
    let ghost all = row_views(rows@).map_values(|r: RowView| completion_pieces(r, width as int));
    assert(lower_views(out@) =~= all.take(0));
    let mut i: usize = 0;
    while i < rows.len()
        invariant
            i <= rows@.len(),
            all == row_views(rows@).map_values(
                |r: RowView| completion_pieces(r, width as int),
            ),
            lower_views(out@) == all.take(i as int),
        decreases rows@.len() - i,
    {
        let ghost done = lower_views(out@);
        out.push(print_completion_line(&rows[i], width));
        assert(lower_views(out@) =~= done.push(all[i as int]));
        assert(all.take(i + 1) =~= all.take(i as int).push(all[i as int]));
        i = i + 1;
    }
    assert(all.take(i as int) =~= all);
    out
}

/// What is drawn at the bottom of the screen: a question that waits comes
/// before the input.
pub fn redraw_live_area(app: &App, width: usize) -> (out: LiveArea)
    requires
        tui::edit_wf(app.edit()),
        app.input@.len() < usize::MAX - 2,
        app.confirmation is Some ==> app.confirmation->0.prompt@.len()
            + app.confirmation->0.suffix@.len() < usize::MAX,
    ensures
        out.border == larger(width as int, 1),
        match app.confirmation {
            Some(question) => {
                let prompt = cut(question.prompt@, larger(width as int, 1));
                &&& out.prompt@ == prompt + " "@ + question.suffix@
                &&& out.cursor_col == prompt.len() + 1 + question.suffix@.len()
            },
            None => {
                &&& out.prompt@ == "> "@ + prompt_visible(
                    app.input@,
                    app.cursor_pos as int,
                    width as int,
                )
                &&& out.cursor_col == 2 + app.cursor_pos - prompt_start(
                    app.input@.len() as int,
                    app.cursor_pos as int,
                    width as int,
                )
            },
        },
        lower_views(out.lower@) == lower_lines(*app, width as int),
{
    let border: usize = at_least_one(width);
    let lower: Vec<Vec<Segment>> = render_lower_live_area(app, width);
    match &app.confirmation {
        Some(question) => {
            let mut prompt: String = truncate_to_width(question.prompt.as_str(), border);
            let shown: usize = char_count(prompt.as_str());
            let suffix: usize = char_count(question.suffix.as_str());
            prompt.append(" ");
            prompt.append(question.suffix.as_str());
            LiveArea { border, prompt, cursor_col: shown + 1 + suffix, lower }
        },
        None => {
            let line: PromptLine = render_prompt_line(app.input.as_str(), app.cursor_pos, width);
            let mut prompt: String = "> ".to_owned();
            prompt.append(line.visible.as_str());
            LiveArea { border, prompt, cursor_col: line.cursor_col, lower }
        },
    }
}

/// How many lines are cleared before the bottom of the screen is drawn anew:
/// none where it was not drawn, otherwise the lines below the prompt, the
/// prompt and its borders.
pub fn clear_live_area(prompt_visible: bool, lower_lines: usize) -> (out: usize)
    requires
        lower_lines <= usize::MAX - 3,
    ensures
        out == if !prompt_visible || lower_lines == 0 {
            0
        } else {
            lower_lines + 3
        },
{
    if !prompt_visible || lower_lines == 0 {
        0
    } else {
        lower_lines + 3
    }
}

/// The tone of a line of the transcript.
pub fn transcript_tone(kind: TranscriptKind) -> (out: Tone)
    ensures
        out == match kind {
            TranscriptKind::Info => Tone::Plain,
            TranscriptKind::Tip => Tone::Soft,
            TranscriptKind::Muted => Tone::Faint,
            TranscriptKind::Error => Tone::Red,
            TranscriptKind::Transition => Tone::Accent,
        },
{
    match kind {
        TranscriptKind::Info => Tone::Plain,
        TranscriptKind::Tip => Tone::Soft,
        TranscriptKind::Muted => Tone::Faint,
        TranscriptKind::Error => Tone::Red,
        TranscriptKind::Transition => Tone::Accent,
    }
}

// ------------------------------------------------------------------ the header

/// What the header says.
#[derive(Debug, Clone, PartialEq, Eq)]
pub struct StartupHeader {
    pub version: String,
    pub directory: String,
    pub supervisor_type: String,
    pub supervisor_version: String,
    pub executor_type: String,
    pub executor_version: String,
}

/// The line of an agent.
pub open spec fn agent_line(label: Seq<char>, kind: Seq<char>, version: Seq<char>) -> Seq<char> {
    if version.len() == 0 {
        label + " "@ + kind
    } else {
        label + " "@ + kind + " "@ + version
    }
}

/// The line of an agent.
pub fn startup_agent_line(label: &str, agent_type: &str, version: &str) -> (out: String)
    ensures
        out@ == agent_line(label@, agent_type@, version@),
{
    let mut out: String = label.to_owned();
    out.append(" ");
    out.append(agent_type);
    if char_count(version) > 0 {
        out.append(" ");
        out.append(version);
    }
    out
}

/// The lines of the header.
pub open spec fn metadata_lines(header: StartupHeader) -> Seq<Seq<char>> {
    seq![
        "version: "@ + header.version@,
        "directory: "@ + header.directory@,
        agent_line("supervisor:"@, header.supervisor_type@, header.supervisor_version@),
        agent_line("executor:"@, header.executor_type@, header.executor_version@),
    ]
}

/// The lines of the header.
pub fn startup_metadata_lines(header: &StartupHeader) -> (out: Vec<String>)
    ensures
        text::views(out@) == metadata_lines(*header),
{
    let mut version: String = "version: ".to_owned();
    version.append(header.version.as_str());
    let mut directory: String = "directory: ".to_owned();
    directory.append(header.directory.as_str());
    let supervisor: String = startup_agent_line(
        "supervisor:",
        header.supervisor_type.as_str(),
        header.supervisor_version.as_str(),
    );
    let executor: String = startup_agent_line(
        "executor:",
        header.executor_type.as_str(),
        header.executor_version.as_str(),
    );
    let mut out: Vec<String> = Vec::new();
    text::add_text(&mut out, version.as_str());
    text::add_text(&mut out, directory.as_str());
    text::add_text(&mut out, supervisor.as_str());
    text::add_text(&mut out, executor.as_str());
    assert(text::views(out@) =~= metadata_lines(*header));
    out
}

/// The length of the longest of some lines, each cut to a width; none gives 0.
pub open spec fn longest(lines: Seq<Seq<char>>, width: int) -> int
    decreases lines.len(),
{
    if lines.len() == 0 {
        0
    } else {
        larger(longest(lines.drop_last(), width), cut(lines.last(), width).len() as int)
    }
}

/// The width of the box round some lines, on a screen of a width.
pub open spec fn box_width(lines: Seq<Seq<char>>, width: int) -> int {
    if lines.len() == 0 {
        1
    } else {
        longest(lines, larger(width - 6, 1))
    }
}

/// The width of the box round some lines, on a screen of a width.
pub fn metadata_inner_width(lines: &Vec<String>, width: usize) -> (out: usize)
    ensures
        out == box_width(text::views(lines@), width as int),
{
    let ghost all = text::views(lines@);
    if lines.len() == 0 {
        return 1;
    }
    let room: usize = if width > 7 {
        width - 6
    } else {
        1
    };
    let mut best: usize = 0;
    let mut i: usize = 0;
    while i < lines.len()
        invariant
            i <= lines@.len(),
            all == text::views(lines@),
            room == larger(width - 6, 1),
            best == longest(all.take(i as int), room as int),
        decreases lines@.len() - i,
    {
        assert(all.take(i + 1).drop_last() =~= all.take(i as int));
        assert(all.take(i + 1).last() == lines@[i as int]@);
        let cut_line: String = truncate_to_width(lines[i].as_str(), room);
        let count: usize = char_count(cut_line.as_str());
        if best < count {
            best = count;
        }
        i = i + 1;
    }
    assert(all.take(i as int) =~= all);
    best
}

/// The pieces of a header line: its label, then the agent and its version, the
/// program's version, or whatever else stands there.
pub open spec fn meta_pieces(line: Seq<char>, width: int, program: Seq<char>) -> Seq<SegmentView> {
    let content = cut(line, larger(width, 1));
    let label = content.take(text::first_space(content));
    let rest = content.skip(text::first_space(content));
    let head = seg(label, Tone::Faint);
    let first = " "@ + claude::configured_name(program);
    match (
        text::after_prefix(rest, first + " "@),
        text::after_prefix(rest, " codex "@),
    ) {
        (Some(version), _) => seq![
            head,
            seg(first, Tone::Accent),
            seg(" "@, Tone::Plain),
            seg(version, Tone::Soft),
        ],
        (None, Some(version)) => seq![
            head,
            seg(" codex"@, Tone::Accent),
            seg(" "@, Tone::Plain),
            seg(version, Tone::Soft),
        ],
        (None, None) => if label == "version:"@ {
            seq![head, seg(rest, Tone::Stone)]
        } else {
            seq![head, seg(rest, Tone::Bright)]
        },
    }
}

/// The pieces of a header line.
pub fn print_meta_line(line: &str, width: usize, program: &str) -> (out: Vec<Segment>)
    ensures
        segment_views(out@) == meta_pieces(line@, width as int, program@),
{
    let content: String = truncate_to_width(line, at_least_one(width));
    let chars: Vec<char> = text::chars_of(content.as_str());
    let end: usize = text::find_space(&chars);
    let label: String = text::string_of(&chars, 0, end);
    let rest: String = text::string_of(&chars, end, chars.len());
    assert(label@ =~= content@.take(end as int));
    assert(rest@ =~= content@.skip(end as int));
    let mut out: Vec<Segment> = Vec::new();
    assert(segment_views(out@) =~= Seq::empty());
    add_segment(&mut out, label.as_str(), Tone::Faint);
    let mut first: String = " ".to_owned();
    first.append(claude::name_of(program).as_str());
    let mut before: String = first.clone();
    before.append(" ");
    if let Some(version) = text::strip_prefix(rest.as_str(), before.as_str()) {
        add_segment(&mut out, first.as_str(), Tone::Accent);
        add_segment(&mut out, " ", Tone::Plain);
        add_segment(&mut out, version.as_str(), Tone::Soft);
    } else if let Some(version) = text::strip_prefix(rest.as_str(), " codex ") {
        add_segment(&mut out, " codex", Tone::Accent);
        add_segment(&mut out, " ", Tone::Plain);
        add_segment(&mut out, version.as_str(), Tone::Soft);
    } else if text::same(label.as_str(), "version:") {
        add_segment(&mut out, rest.as_str(), Tone::Stone);
    } else {
        add_segment(&mut out, rest.as_str(), Tone::Bright);
    }
    assert(segment_views(out@) =~= meta_pieces(line@, width as int, program@));
    out
}

/// The tone of a word of a tip.
pub open spec fn tip_tone(word: Seq<char>) -> Tone {
    if "/"@.is_prefix_of(word) {
        Tone::Accent
    } else if word == "Tip:"@ {
        Tone::Faint
    } else {
        Tone::Soft
    }
}

/// The pieces of the words of a tip that fit what is left of the width; the
/// first word has no space before it.
pub open spec fn tip_words(words: Seq<Seq<char>>, left: int, first: bool) -> Seq<SegmentView>
    decreases words.len(),
{
    let gap = if first {
        0int
    } else {
        1int
    };
    if words.len() == 0 || left <= gap || words[0].len() == 0 {
        Seq::empty()
    } else {
        let word = cut(words[0], left - gap);
        let head = if first {
            Seq::empty()
        } else {
            seq![seg(" "@, Tone::Plain)]
        };
        head.push(seg(word, tip_tone(word))) + tip_words(
            words.skip(1),
            left - gap - word.len(),
            false,
        )
    }
}

/// The pieces of a tip.
pub open spec fn tip_pieces(tip: Seq<char>, width: int) -> Seq<SegmentView> {
    tip_words(text::split(tip, ' '), larger(width, 1), true)
}

/// The tone of a word of a tip.
fn word_tone(word: &str) -> (out: Tone)
    ensures
        out == tip_tone(word@),
{
    if text::starts_with(word, "/") {
        Tone::Accent
    } else if text::same(word, "Tip:") {
        Tone::Faint
    } else {
        Tone::Soft
    }
}

/// The pieces of a tip.
pub fn print_tip_line(tip: &str, width: usize) -> (out: Vec<Segment>)
    ensures
        segment_views(out@) == tip_pieces(tip@, width as int),
{
    let words: Vec<String> = text::split_string(tip, ' ');
    let ghost all = text::views(words@);
    let ghost goal = tip_pieces(tip@, width as int);
    let mut left: usize = at_least_one(width);
    let mut first: bool = true;
    let mut out: Vec<Segment> = Vec::new();
    let mut i: usize = 0;
    assert(all.skip(0) =~= all);
    assert(segment_views(out@) + tip_words(all, left as int, true) =~= goal);
    while i < words.len()
        invariant
            i <= words@.len(),
            all == text::views(words@),
            goal == tip_pieces(tip@, width as int),
            segment_views(out@) + tip_words(all.skip(i as int), left as int, first) == goal,
        decreases words@.len() - i,
    {
        let ghost rest = all.skip(i as int);
        let ghost done = segment_views(out@);
        assert(rest[0] == words@[i as int]@);
        assert(rest.skip(1) =~= all.skip(i + 1));
        let gap: usize = if first {
            0
        } else {
            1
        };
        if left <= gap || char_count(words[i].as_str()) == 0 {
            assert(done + tip_words(rest, left as int, first) =~= done);
            return out;
        }
        let word: String = truncate_to_width(words[i].as_str(), left - gap);
        let used: usize = char_count(word.as_str());
        if !first {
            add_segment(&mut out, " ", Tone::Plain);
        }
        add_segment(&mut out, word.as_str(), word_tone(word.as_str()));
        assert(done + tip_words(rest, left as int, first) =~= segment_views(out@) + tip_words(
            rest.skip(1),
            left - gap - used,
            false,
        ));
        left = left - gap - used;
        first = false;
        i = i + 1;
    }
    assert(all.skip(i as int).len() == 0);
    assert(segment_views(out@) + tip_words(all.skip(i as int), left as int, first)
        =~= segment_views(out@));
    out
}

/// The tip that the shell starts with.
pub const STARTUP_TIP: &'static str =
    "Tip: /plan to start a task · /status to check state · /help for all commands";

/// The name of the program in large letters.
pub fn ferrus_logo_lines() -> (out: Vec<String>)
    ensures
        text::views(out@) == seq![
            "███████ ███████ █████   █████   ██   ██ ███████"@,
            "██      ██      ██  ██  ██  ██  ██   ██ ██"@,
            "█████   █████   █████   █████   ██   ██ ███████"@,
            "██      ██      ██  ██  ██  ██  ██   ██      ██"@,
            "██      ███████ ██  ██  ██  ██   █████  ███████"@,
        ],
{
    let mut out: Vec<String> = Vec::new();
    text::add_text(&mut out, "███████ ███████ █████   █████   ██   ██ ███████");
    text::add_text(&mut out, "██      ██      ██  ██  ██  ██  ██   ██ ██");
    text::add_text(&mut out, "█████   █████   █████   █████   ██   ██ ███████");
    text::add_text(&mut out, "██      ██      ██  ██  ██  ██  ██   ██      ██");
    text::add_text(&mut out, "██      ███████ ██  ██  ██  ██   █████  ███████");
    assert(text::views(out@) =~= seq![
        "███████ ███████ █████   █████   ██   ██ ███████"@,
        "██      ██      ██  ██  ██  ██  ██   ██ ██"@,
        "█████   █████   █████   █████   ██   ██ ███████"@,
        "██      ██      ██  ██  ██  ██  ██   ██      ██"@,
        "██      ███████ ██  ██  ██  ██   █████  ███████"@,
    ]);
    out
}

/// A directory with the user's home shortened to a tilde.
pub open spec fn abbreviated(path: Seq<char>, home: Option<Seq<char>>) -> Seq<char> {
    match home {
        None => path,
        Some(home) => if path == home {
            "~"@
        } else {
            match text::after_prefix(path, home + "/"@) {
                Some(rest) => "~/"@ + rest,
                None => path,
            }
        },
    }
}

/// A directory with the user's home shortened to a tilde.
pub fn abbreviate_home(path: &str, home: Option<&str>) -> (out: String)
    ensures
        out@ == abbreviated(path@, text::opt_str_view(home)),
{
    match home {
        None => path.to_owned(),
        Some(home) => {
            if text::same(path, home) {
                return "~".to_owned();
            }
            let mut inside: String = home.to_owned();
            inside.append("/");
            match text::strip_prefix(path, inside.as_str()) {
                Some(rest) => {
                    let mut out: String = "~/".to_owned();
                    out.append(rest.as_str());
                    out
                },
                None => path.to_owned(),
            }
        },
    }
}

// ------------------------------------------------------------------ the history file

/// The remembered lines of a history file.
pub fn load_history(contents: &str) -> (out: Vec<String>)
    ensures
        text::views(out@) == tui::kept_history(text::lines(contents@)),
{
    let lines: Vec<String> = text::line_strings(contents);
    tui::keep_history(&lines)
}

/// The history file of the remembered lines.
pub fn save_history(history: &Vec<String>) -> (out: String)
    ensures
        out@ == text::join(tui::kept_history(text::views(history@)), "\n"@),
{
    let kept: Vec<String> = tui::keep_history(history);
    text::join_strings(&kept, "\n")
}

/// Whether a line survives being written and read: it is not empty, has no line
/// feed, and does not end in a carriage return.
pub open spec fn survives(line: Seq<char>) -> bool {
    line.len() > 0 && !line.contains('\n') && line.last() != '\r'
}

proof fn lemma_split_joined(lines: Seq<Seq<char>>)
    requires
        lines.len() > 0,
        forall|i: int| 0 <= i < lines.len() ==> survives(#[trigger] lines[i]),
    ensures
        text::split(text::join(lines, "\n"@), '\n') == lines,
    decreases lines.len(),
{
    reveal_strlit("\n");
    let last = lines.last();
    assert(survives(lines[lines.len() - 1]));
    if lines.len() == 1 {
        text::lemma_split_plain(last, '\n');
        assert(text::join(lines, "\n"@) =~= last);
        assert(seq![last] =~= lines);
    } else {
        let front = lines.drop_last();
        assert forall|i: int| 0 <= i < front.len() implies survives(#[trigger] front[i]) by {
            assert(front[i] == lines[i]);
        }
        lemma_split_joined(front);
        text::lemma_split_after(text::join(front, "\n"@), last, '\n');
        assert("\n"@ =~= seq!['\n']);
        assert(text::join(lines, "\n"@) =~= text::join(front, "\n"@).push('\n') + last);
        assert(front.push(last) =~= lines);
    }
}

/// A history that was saved is read back as it was, if it is not longer than
/// what is kept and its lines survive in a file of lines.
pub proof fn law_history_is_read_back(history: Seq<Seq<char>>)
    requires
        history.len() <= tui::MAX_HISTORY,
        forall|i: int| 0 <= i < history.len() ==> survives(#[trigger] history[i]),
    ensures
        tui::kept_history(text::lines(text::join(tui::kept_history(history), "\n"@))) == history,
{
    let written = text::join(history, "\n"@);
    if history.len() == 0 {
        assert(written =~= Seq::empty());
        assert(text::split(written, '\n') =~= seq![Seq::<char>::empty()]);
        assert(text::lines(written) =~= history);
    } else {
        lemma_split_joined(history);
        assert(survives(history[history.len() - 1]));
        let front = history.drop_last();
        let ended = front.map_values(|l: Seq<char>| text::without_cr(l));
        assert forall|i: int| 0 <= i < front.len() implies ended[i] == front[i] by {
            assert(front[i] == history[i]);
            assert(survives(history[i]));
        }
        assert(ended =~= front);
        assert(text::lines(written) =~= history);
    }
}

/// The version that an agent reports of itself: the first line of its output,
/// without the white space around it.
pub open spec fn reported_version(output: Seq<char>) -> Seq<char> {
    let lines = text::lines(output);
    if lines.len() == 0 {
        Seq::empty()
    } else {
        text::trim(lines[0])
    }
}

/// The version that an agent reports of itself.
pub fn load_agent_version(output: &str) -> (out: String)
    ensures
        out@ == reported_version(output@),
{
    let lines: Vec<String> = text::line_strings(output);
    if lines.len() == 0 {
        let none: String = String::new();
        assert(none@ =~= Seq::empty());
        return none;
    }
    assert(text::views(lines@)[0] == lines@[0]@);
    text::trim_string(lines[0].as_str())
}

/// The version that an agent reported of itself; none where its command failed.
pub fn load_agent_version_from_version_command(success: bool, stdout: &Vec<u8>) -> (out: String)
    ensures
        out@ == if success {
            reported_version(runner::lossy_text(stdout@))
        } else {
            Seq::empty()
        },
{
    if success {
        load_agent_version(runner::text_of_bytes(stdout).as_str())
    } else {
        let none: String = String::new();
        assert(none@ =~= Seq::empty());
        none
    }
}

// ------------------------------------------------------------------ laws of what is drawn

/// The text of a line.
pub open spec fn line_text(pieces: Seq<SegmentView>) -> Seq<char>
    decreases pieces.len(),
{
    if pieces.len() == 0 {
        Seq::empty()
    } else {
        pieces[0].text + line_text(pieces.skip(1))
    }
}

/// A text that is cut to a width is its start, as long as the width allows.
pub proof fn law_cut_is_the_start(s: Seq<char>, width: int)
    requires
        0 <= width,
    ensures
        cut(s, width).is_prefix_of(s),
        s.len() <= width ==> cut(s, width) == s,
        s.len() > width ==> cut(s, width).len() == width,
{
    assert(s.subrange(0, cut(s, width).len() as int) =~= cut(s, width));
}

/// A line that is cut to a width shows the start of its text, as much as fits, and all
/// of it in its tones where all fits.
pub proof fn law_line_shows_its_start(pieces: Seq<SegmentView>, width: int)
    requires
        0 <= width,
        forall|i: int| 0 <= i < pieces.len() ==> (#[trigger] pieces[i]).text.len() > 0,
    ensures
        line_text(pieces).len() <= width ==> fitting(pieces, width) == pieces,
        line_text(pieces).len() > width ==> line_text(fitting(pieces, width)) == line_text(
            pieces,
        ).take(width),
    decreases pieces.len(),
{
    if pieces.len() == 0 {
        assert(fitting(pieces, width) =~= pieces);
    } else if width == 0 {
        assert(pieces[0].text.len() > 0);
        assert(line_text(fitting(pieces, width)) =~= line_text(pieces).take(0));
    } else {
        let first = cut(pieces[0].text, width);
        let others = pieces.skip(1);
        assert(pieces[0].text.len() > 0);
        assert forall|i: int| 0 <= i < others.len() implies (#[trigger] others[i]).text.len()
            > 0 by {
            assert(others[i] == pieces[i + 1]);
        }
        law_line_shows_its_start(others, width - first.len());
        let rest = fitting(others, width - first.len());
        let line = fitting(pieces, width);
        assert(line =~= seq![seg(first, pieces[0].tone)] + rest);
        assert(line.skip(1) =~= rest);
        assert(line_text(line) == first + line_text(rest));
        if line_text(pieces).len() <= width {
            assert(first == pieces[0].text);
            assert(seq![pieces[0]] + others =~= pieces);
        } else if first.len() < pieces[0].text.len() {
            assert(rest.len() == 0);
            assert(line_text(line) =~= line_text(pieces).take(width));
        } else {
            assert(line_text(line) =~= line_text(pieces).take(width));
        }
    }
}

/// The status line says which state the task is in, how to answer where a human is
/// waited for, and what was counted.
pub proof fn law_status_line_tells_the_task(status: StatusView)
    ensures
        line_text(status_pieces(status)) == (if status.task_state.len() == 0 {
            "Idle"@
        } else {
            status.task_state
        }) + (if status.task_state == "AwaitingHuman"@ {
            "  ← type your answer and press Enter"@
        } else {
            Seq::empty()
        }) + (" | "@ + "retries: "@ + text::decimal(status.retries as nat) + " | "@ + "cycles: "@
            + text::decimal(status.cycles as nat)),
{
    reveal_strlit("Idle");
    reveal_strlit("AwaitingHuman");
    assert("Idle"@.len() == 4);
    assert("AwaitingHuman"@.len() == 13);
    reveal_with_fuel(line_text, 9);
    let pieces = status_pieces(status);
    let tail = " | "@ + "retries: "@ + text::decimal(status.retries as nat) + " | "@ + "cycles: "@
        + text::decimal(status.cycles as nat);
    let state = shown_state(status);
    if state == "AwaitingHuman"@ {
        assert(pieces.len() == 8);
        assert(line_text(pieces) =~= state + "  ← type your answer and press Enter"@ + tail);
    } else {
        assert(pieces.len() == 7);
        assert(line_text(pieces) =~= state + Seq::empty() + tail);
    }
}

/// Every tone stands for what a task can be in: it is idle, worked on, reviewed,
/// complete, failed, or waits for a human.
pub proof fn law_tones_tell_states_apart(name: Seq<char>)
    ensures
        state_tone(name) is Faint <==> name == "Idle"@,
        state_tone(name) is Yellow <==> name == "Executing"@ || name == "Addressing"@ || name
            == "Checking"@,
        state_tone(name) is Cyan <==> name == "Reviewing"@,
        state_tone(name) is Green <==> name == "Complete"@,
        state_tone(name) is Red <==> name == "Failed"@,
        state_tone(name) is Magenta <==> name == "AwaitingHuman"@,
{
    reveal_strlit("Idle");
    reveal_strlit("Executing");
    reveal_strlit("Addressing");
    reveal_strlit("Checking");
    reveal_strlit("Reviewing");
    reveal_strlit("Complete");
    reveal_strlit("Failed");
    reveal_strlit("AwaitingHuman");
    assert("Idle"@.len() == 4);
    assert("Executing"@.len() == 9 && "Executing"@[0] == 'E');
    assert("Addressing"@.len() == 10);
    assert("Checking"@.len() == 8 && "Checking"@[1] == 'h');
    assert("Reviewing"@.len() == 9 && "Reviewing"@[0] == 'R');
    assert("Complete"@.len() == 8 && "Complete"@[1] == 'o');
    assert("Failed"@.len() == 6);
    assert("AwaitingHuman"@.len() == 13);
}

/// The completions that are shown follow each other in the list, up to three of them,
/// and the one that is marked is the selected one, and no other.
pub proof fn law_shown_completions_follow(
    list: Seq<CompletionView>,
    selected: int,
    width: int,
    i: int,
)
    requires
        0 <= selected < list.len(),
        0 <= i < popup_rows(list, selected, width).len(),
        1 <= width,
    ensures
        popup_rows(list, selected, width).len() == if list.len() < 3 {
            list.len() as int
        } else {
            3
        },
        ({
            let start = popup_start(list.len() as int, selected);
            let row = popup_rows(list, selected, width)[i];
            &&& 0 <= start && start + popup_rows(list, selected, width).len() <= list.len()
            &&& row.command.is_prefix_of(list[start + i].0)
            &&& row.description.is_prefix_of(list[start + i].1)
            &&& list[start + i].0.len() <= width ==> row.command == list[start + i].0
            &&& row.selected <==> start + i == selected
        }),
{
    let start = popup_start(list.len() as int, selected);
    law_cut_is_the_start(list[start + i].0, width);
    law_cut_is_the_start(list[start + i].1, width);
}

/// A completion is shown with its whole command behind its mark, and with as much of
/// its description as there is room for.
pub proof fn law_completion_line_fits(row: RowView, width: int)
    requires
        2 + row.command.len() + 2 < width,
    ensures
        ({
            let line = line_text(completion_pieces(row, width));
            &&& line.len() <= width
            &&& line.subrange(2, 2int + row.command.len()) == row.command
            &&& (row.selected ==> line.take(2) == "› "@)
            &&& (!row.selected ==> line.take(2) == "  "@)
            &&& row.description.len() > 0 && 2 + row.command.len() + 2 + row.description.len()
                <= width ==> row.description.is_suffix_of(line)
            &&& row.description.len() == 0 ==> line.len() == 2 + row.command.len()
        }),
{
    reveal_strlit("› ");
    reveal_strlit("  ");
    reveal_with_fuel(line_text, 5);
    let pieces = completion_pieces(row, width);
    let line = line_text(pieces);
    let gap = if row.description.len() == 0 {
        0int
    } else {
        2int
    };
    let room = larger(width - (2 + row.command.len() + gap), 1);
    let description = cut(row.description, room);
    let mark = if row.selected {
        "› "@
    } else {
        "  "@
    };
    if description.len() == 0 {
        assert(pieces.len() == 2);
        assert(line =~= mark + row.command);
    } else {
        assert(pieces.len() == 4);
        assert(line =~= mark + row.command + "  "@ + description);
    }
    assert(line.take(2) =~= mark);
    assert(line.subrange(2, 2int + row.command.len()) =~= row.command);
    if description.len() > 0 && description == row.description {
        assert(line.subrange(line.len() - description.len(), line.len() as int) =~= description);
    }
}

/// What is visible of the input is a part of it without gaps, as much as there is room
/// for, and its start as long as the cursor can be seen there.
pub proof fn law_visible_input_is_a_part(input: Seq<char>, cursor: int, width: int, k: int)
    requires
        0 <= cursor <= input.len(),
        3 <= width,
        0 <= k < prompt_visible(input, cursor, width).len(),
    ensures
        ({
            let start = prompt_start(input.len() as int, cursor, width);
            &&& prompt_visible(input, cursor, width)[k] == input[start + k]
            &&& prompt_visible(input, cursor, width).len() <= width - 2
            &&& cursor <= width - 2 ==> start == 0
            &&& input.len() <= width - 2 ==> prompt_visible(input, cursor, width) == input
            &&& prompt_visible(input, cursor, width).len() == width - 2 || start
                + prompt_visible(input, cursor, width).len() == input.len()
        }),
{
    let start = prompt_start(input.len() as int, cursor, width);
    assert(prompt_visible(input, cursor, width)[k] == input.skip(start)[k]);
    if input.len() <= width - 2 {
        assert(prompt_visible(input, cursor, width) =~= input);
    }
}

/// The header names the version, the directory and the two agents, each line with what
/// belongs to it at its end.
pub proof fn law_header_tells_what_runs(header: StartupHeader)
    ensures
        metadata_lines(header).len() == 4,
        metadata_lines(header)[0] == "version: "@ + header.version@,
        metadata_lines(header)[1] == "directory: "@ + header.directory@,
        header.supervisor_version@.len() == 0 ==> metadata_lines(header)[2] == "supervisor:"@
            + " "@ + header.supervisor_type@,
        header.supervisor_version@.len() > 0 ==> metadata_lines(header)[2] == "supervisor:"@ + " "@
            + header.supervisor_type@ + " "@ + header.supervisor_version@,
        header.executor_version@.len() == 0 ==> metadata_lines(header)[3] == "executor:"@ + " "@
            + header.executor_type@,
        header.executor_version@.len() > 0 ==> metadata_lines(header)[3] == "executor:"@ + " "@
            + header.executor_type@ + " "@ + header.executor_version@,
{
}

/// The box round some lines is as wide as the longest of them, and leaves room for its
/// border on the screen.
pub proof fn law_box_holds_its_lines(lines: Seq<Seq<char>>, width: int, i: int)
    requires
        7 <= width,
        0 <= i < lines.len(),
    ensures
        box_width(lines, width) <= width - 6,
        lines[i].len() <= width - 6 ==> lines[i].len() <= box_width(lines, width),
        lines[i].len() > width - 6 ==> box_width(lines, width) == width - 6,
        exists|k: int|
            0 <= k < lines.len() && cut(#[trigger] lines[k], width - 6).len() == box_width(
                lines,
                width,
            ),
{
    lemma_longest(lines, width - 6, i);
}

proof fn lemma_longest(lines: Seq<Seq<char>>, width: int, i: int)
    requires
        1 <= width,
        0 <= i < lines.len(),
    ensures
        cut(lines[i], width).len() <= longest(lines, width) <= width,
        exists|k: int|
            0 <= k < lines.len() && cut(#[trigger] lines[k], width).len() == longest(
                lines,
                width,
            ),
    decreases lines.len(),
{
    let front = lines.drop_last();
    let last = lines.len() - 1;
    assert(lines[last] == lines.last());
    if front.len() > 0 {
        let at = if i < last {
            i
        } else {
            0
        };
        lemma_longest(front, width, at);
        let k = choose|k: int|
            0 <= k < front.len() && cut(#[trigger] front[k], width).len() == longest(front, width);
        assert(front[k] == lines[k]);
        assert(front[at] == lines[at]);
    }
    assert(cut(lines[last], width).len() <= width);
}

/// The first space of a text lies in it.
proof fn lemma_label_ends(s: Seq<char>)
    ensures
        0 <= text::first_space(s) <= s.len(),
    decreases s.len(),
{
    if s.len() > 0 && s[0] != ' ' {
        lemma_label_ends(s.skip(1));
    }
}

/// A line of the header is drawn as it is, whatever its parts are toned.
pub proof fn law_header_line_is_drawn_whole(line: Seq<char>, width: int, program: Seq<char>)
    requires
        line.len() <= width,
        1 <= width,
    ensures
        line_text(meta_pieces(line, width, program)) == line,
{
    reveal_strlit(" ");
    reveal_strlit(" codex ");
    reveal_strlit(" codex");
    reveal_with_fuel(line_text, 5);
    lemma_label_ends(line);
    let at = text::first_space(line);
    let label = line.take(at);
    let rest = line.skip(at);
    let pieces = meta_pieces(line, width, program);
    assert(label + rest =~= line);
    let first = " "@ + claude::configured_name(program);
    let before = first + " "@;
    if before.is_prefix_of(rest) {
        assert(rest =~= before + rest.skip(before.len() as int));
        assert(pieces.len() == 4);
        assert(line_text(pieces) =~= label + first + " "@ + rest.skip(before.len() as int));
        assert(line_text(pieces) =~= line);
    } else if " codex "@.is_prefix_of(rest) {
        assert(rest =~= " codex "@ + rest.skip(7));
        assert(pieces.len() == 4);
        assert(" codex"@ + " "@ =~= " codex "@);
        assert(line_text(pieces) =~= label + " codex"@ + " "@ + rest.skip(7));
        assert(line_text(pieces) =~= line);
    } else {
        assert(pieces.len() == 2);
        assert(line_text(pieces) =~= label + rest);
    }
}

/// A tip fits the width it is drawn in.
pub proof fn law_tips_fit(words: Seq<Seq<char>>, left: int, first: bool)
    requires
        0 <= left,
    ensures
        line_text(tip_words(words, left, first)).len() <= left,
    decreases words.len(),
{
    let gap = if first {
        0int
    } else {
        1int
    };
    if words.len() == 0 || left <= gap || words[0].len() == 0 {
    } else {
        reveal_strlit(" ");
        let word = cut(words[0], left - gap);
        let rest = tip_words(words.skip(1), left - gap - word.len(), false);
        law_tips_fit(words.skip(1), left - gap - word.len(), false);
        let line = tip_words(words, left, first);
        reveal_with_fuel(line_text, 3);
        if first {
            assert(line =~= seq![seg(word, tip_tone(word))] + rest);
            assert(line.skip(1) =~= rest);
        } else {
            assert(line =~= seq![seg(" "@, Tone::Plain), seg(word, tip_tone(word))] + rest);
            assert(line.skip(1) =~= seq![seg(word, tip_tone(word))] + rest);
            assert(line.skip(1).skip(1) =~= rest);
        }
    }
}

/// The home directory and what lies below it are written with a tilde in its place;
/// another directory is written as it is, also where its name only starts like it.
pub proof fn law_home_is_a_tilde(home: Seq<char>, inside: Seq<char>, path: Seq<char>)
    ensures
        abbreviated(home, Some(home)) == "~"@,
        abbreviated(home + "/"@ + inside, Some(home)) == "~/"@ + inside,
        abbreviated(path, None) == path,
        path != home && !(home + "/"@).is_prefix_of(path) ==> abbreviated(path, Some(home)) == path,
{
    reveal_strlit("/");
    let below = home + "/"@;
    let whole = below + inside;
    assert(whole.len() > home.len());
    assert(whole.subrange(0, below.len() as int) =~= below);
    assert(whole.skip(below.len() as int) =~= inside);
}

/// The version that an agent reports is the first line of its output without the white
/// space round it; of no output there is none.
pub proof fn law_version_is_the_first_line(line: Seq<char>, rest: Seq<char>)
    requires
        !line.contains('\n'),
        line.len() > 0,
        line.last() != '\r',
    ensures
        reported_version(line.push('\n') + rest) == text::trim(line),
        reported_version(line) == text::trim(line),
        reported_version(Seq::empty()).len() == 0,
{
    text::law_lines_end_at_line_feeds(line, rest);
    assert(text::lines(line.push('\n') + rest)[0] == line);
    assert(text::lines(line)[0] == line);
}

} // verus!
