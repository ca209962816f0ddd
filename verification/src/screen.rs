//! What is drawn on a terminal, as plain values, and what comes from its
//! keyboard and mouse.

use vstd::prelude::*;

use crate::report;
use crate::report::{chars_within, pad};
use crate::model::{
    AgentSessionState, Execution, ExecutionOutcome, ExecutionOutcomeView, ExecutionState,
    ExecutionView,
};
use crate::text;
use crate::text::{
    chars_of, clone_maybe, decimal_text, joined, joined3, signed_decimal_text, text_between,
};

verus! {

/// A colour of the terminal; `Plain` is whatever the terminal uses.
#[derive(Debug, Clone, Copy, PartialEq, Eq, Structural)]
pub enum Color {
    Plain,
    Black,
    White,
    Gray,
    DarkGray,
    Cyan,
    Yellow,
    Green,
    Magenta,
    LightRed,
}

/// How a text looks.
#[derive(Debug, Clone, Copy, PartialEq, Eq, Structural)]
pub struct Style {
    pub fg: Color,
    pub bg: Color,
    pub bold: bool,
}

/// A part of the screen.
#[derive(Debug, Clone, Copy, PartialEq, Eq, Structural)]
pub struct Rect {
    pub x: u16,
    pub y: u16,
    pub width: u16,
    pub height: u16,
}

/// A key; `Other` stands for those that nothing is bound to.
#[derive(Debug, Clone, Copy, PartialEq, Eq, Structural)]
pub enum KeyCode {
    Char(char),
    Enter,
    Esc,
    Backspace,
    Tab,
    BackTab,
    Up,
    Down,
    Left,
    Right,
    Home,
    End,
    Other,
}

/// A key that was pressed, or released where `press` is not set.
#[derive(Debug, Clone, Copy, PartialEq, Eq, Structural)]
pub struct KeyEvent {
    pub code: KeyCode,
    pub control: bool,
    pub alt: bool,
    pub press: bool,
}

/// What was done with the mouse.
#[derive(Debug, Clone, Copy, PartialEq, Eq, Structural)]
pub enum MouseKind {
    LeftDown,
    ScrollUp,
    ScrollDown,
    Other,
}

/// Something that was done with the mouse, and where.
#[derive(Debug, Clone, Copy, PartialEq, Eq, Structural)]
pub struct MouseEvent {
    pub kind: MouseKind,
    pub column: u16,
    pub row: u16,
}

/// A piece of a line.
#[derive(Debug, PartialEq, Eq)]
pub struct Span {
    pub text: String,
    pub style: Style,
}

/// What a `Span` holds.
#[verifier::ext_equal]
pub struct SpanView {
    pub text: Seq<char>,
    pub style: Style,
}

impl View for Span {
    type V = SpanView;

    open spec fn view(&self) -> SpanView {
        SpanView {
            text: self.text@,
            style: self.style,
        }
    }
}

impl Clone for Span {
    fn clone(&self) -> (copy: Self)
        ensures
            copy@ == self@,
    {
        Span {
            text: self.text.clone(),
            style: self.style,
        }
    }
}

/// Copies a list of `Span` values.
pub fn clone_span_list(list: &Vec<Span>) -> (copy: Vec<Span>)
    ensures
        copy@.map_values(|item: Span| item@) == list@.map_values(|item: Span| item@),
{
    let mut copy: Vec<Span> = Vec::new();
    let mut i: usize = 0;
    while i < list.len()
        invariant
            i <= list.len(),
            copy.len() == i,
            forall|k: int| 0 <= k < i ==> copy@[k]@ == list@[k]@,
        decreases list.len() - i,
    {
        copy.push(list[i].clone());
        i += 1;
    }
    assert(copy@.map_values(|item: Span| item@) =~= list@.map_values(|item: Span| item@));
    copy
}

/// A line of a panel.
#[derive(Debug, PartialEq, Eq)]
pub struct Line {
    pub spans: Vec<Span>,
}

/// What a `Line` holds.
#[verifier::ext_equal]
pub struct LineView {
    pub spans: Seq<SpanView>,
}

impl View for Line {
    type V = LineView;

    open spec fn view(&self) -> LineView {
        LineView {
            spans: self.spans@.map_values(|item: Span| item@),
        }
    }
}

impl Clone for Line {
    fn clone(&self) -> (copy: Self)
        ensures
            copy@ == self@,
    {
        Line {
            spans: clone_span_list(&self.spans),
        }
    }
}

/// Copies a list of `Line` values.
pub fn clone_line_list(list: &Vec<Line>) -> (copy: Vec<Line>)
    ensures
        copy@.map_values(|item: Line| item@) == list@.map_values(|item: Line| item@),
{
    let mut copy: Vec<Line> = Vec::new();
    let mut i: usize = 0;
    while i < list.len()
        invariant
            i <= list.len(),
            copy.len() == i,
            forall|k: int| 0 <= k < i ==> copy@[k]@ == list@[k]@,
        decreases list.len() - i,
    {
        copy.push(list[i].clone());
        i += 1;
    }
    assert(copy@.map_values(|item: Line| item@) =~= list@.map_values(|item: Line| item@));
    copy
}

/// Something that is drawn in a part of the screen: lines, in a frame where there
/// is a title. One that `clears` is drawn over what is there, one that is `listed`
/// shows a line for each item, one that is `wrapped` breaks its lines, and
/// `scroll` of its lines have moved out of sight.
#[derive(Debug, PartialEq, Eq)]
pub struct Panel {
    pub area: Rect,
    pub title: Option<String>,
    pub border: Style,
    pub lines: Vec<Line>,
    pub style: Style,
    pub centered: bool,
    pub wrapped: bool,
    pub listed: bool,
    pub clears: bool,
    pub scroll: u16,
}

/// What a `Panel` holds.
#[verifier::ext_equal]
pub struct PanelView {
    pub area: Rect,
    pub title: Option<Seq<char>>,
    pub border: Style,
    pub lines: Seq<LineView>,
    pub style: Style,
    pub centered: bool,
    pub wrapped: bool,
    pub listed: bool,
    pub clears: bool,
    pub scroll: u16,
}

impl View for Panel {
    type V = PanelView;

    open spec fn view(&self) -> PanelView {
        PanelView {
            area: self.area,
            title: text::maybe_text(self.title),
            border: self.border,
            lines: self.lines@.map_values(|item: Line| item@),
            style: self.style,
            centered: self.centered,
            wrapped: self.wrapped,
            listed: self.listed,
            clears: self.clears,
            scroll: self.scroll,
        }
    }
}

impl Clone for Panel {
    fn clone(&self) -> (copy: Self)
        ensures
            copy@ == self@,
    {
        Panel {
            area: self.area,
            title: clone_maybe(&self.title),
            border: self.border,
            lines: clone_line_list(&self.lines),
            style: self.style,
            centered: self.centered,
            wrapped: self.wrapped,
            listed: self.listed,
            clears: self.clears,
            scroll: self.scroll,
        }
    }
}

impl KeyEvent {
    /// A key that was pressed alone.
    pub fn pressed(code: KeyCode) -> (event: KeyEvent)
        ensures
            event == (KeyEvent { code, control: false, alt: false, press: true }),
    {
        KeyEvent { code, control: false, alt: false, press: true }
    }
}

/// The look of a text that has none.
pub open spec fn unstyled() -> Style {
    Style { fg: Color::Plain, bg: Color::Plain, bold: false }
}

/// The look of a text in a colour.
pub open spec fn in_color(color: Color) -> Style {
    Style { fg: color, bg: Color::Plain, bold: false }
}

/// The look of a text that stands out.
pub open spec fn in_bold(color: Color) -> Style {
    Style { fg: color, bg: Color::Plain, bold: true }
}

/// The look of a text that has none.
pub fn plain_style() -> (style: Style)
    ensures
        style == unstyled(),
{
    Style { fg: Color::Plain, bg: Color::Plain, bold: false }
}

/// The look of a text in a colour.
pub fn colored(color: Color) -> (style: Style)
    ensures
        style == in_color(color),
{
    Style { fg: color, bg: Color::Plain, bold: false }
}

/// The look of a text that stands out.
pub fn bold(color: Color) -> (style: Style)
    ensures
        style == in_bold(color),
{
    Style { fg: color, bg: Color::Plain, bold: true }
}

/// A piece of a line.
pub open spec fn piece(text: Seq<char>, style: Style) -> SpanView {
    SpanView { text, style }
}

/// A line of one piece.
pub open spec fn styled_line(text: Seq<char>, style: Style) -> LineView {
    LineView { spans: seq![piece(text, style)] }
}

/// A line of one piece with no look.
pub open spec fn raw_line(text: Seq<char>) -> LineView {
    styled_line(text, unstyled())
}

/// A line of some pieces.
pub open spec fn line_of(spans: Seq<SpanView>) -> LineView {
    LineView { spans }
}

/// The views of some lines.
pub open spec fn line_views(lines: Seq<Line>) -> Seq<LineView> {
    lines.map_values(|item: Line| item@)
}

/// The views of some panels.
pub open spec fn panel_views(panels: Seq<Panel>) -> Seq<PanelView> {
    panels.map_values(|item: Panel| item@)
}

impl Line {
    /// A line with nothing on it yet.
    pub fn new() -> (line: Line)
        ensures
            line@ == line_of(Seq::empty()),
    {
        let spans: Vec<Span> = Vec::new();
        assert(spans@.map_values(|item: Span| item@) =~= Seq::empty());
        Line { spans }
    }

    /// Puts a piece at the end of the line.
    pub fn put(&mut self, text: String, style: Style)
        ensures
            final(self)@ == line_of(old(self)@.spans.push(piece(text@, style))),
    {
        let ghost before = self@.spans;
        let ghost shown = text@;
        self.spans.push(Span { text, style });
        assert(self@.spans =~= before.push(piece(shown, style)));
    }

    /// Puts a piece with no look at the end of the line.
    pub fn put_raw(&mut self, text: &str)
        ensures
            final(self)@ == line_of(old(self)@.spans.push(piece(text@, unstyled()))),
    {
        self.put(text.to_owned(), plain_style());
    }
}

/// A line of one piece.
pub fn make_line(text: String, style: Style) -> (line: Line)
    ensures
        line@ == styled_line(text@, style),
{
    let mut line = Line::new();
    let ghost shown = text@;
    line.put(text, style);
    assert(line@.spans =~= seq![piece(shown, style)]);
    line
}

/// A line of one piece with no look.
pub fn make_raw(text: &str) -> (line: Line)
    ensures
        line@ == raw_line(text@),
{
    make_line(text.to_owned(), plain_style())
}

/// No lines.
pub fn no_lines() -> (lines: Vec<Line>)
    ensures
        line_views(lines@) == Seq::<LineView>::empty(),
        lines.len() == 0,
{
    let lines: Vec<Line> = Vec::new();
    assert(line_views(lines@) =~= Seq::<LineView>::empty());
    lines
}

/// Puts a line below others.
pub fn put_line(lines: &mut Vec<Line>, line: Line)
    ensures
        line_views(final(lines)@) == line_views(old(lines)@).push(line@),
        final(lines).len() == old(lines).len() + 1,
{
    let ghost before = line_views(lines@);
    let ghost view = line@;
    lines.push(line);
    assert(line_views(lines@) =~= before.push(view));
}

/// Puts a panel behind others.
pub fn put_panel(panels: &mut Vec<Panel>, panel: Panel)
    ensures
        panel_views(final(panels)@) == panel_views(old(panels)@).push(panel@),
{
    let ghost before = panel_views(panels@);
    let ghost view = panel@;
    panels.push(panel);
    assert(panel_views(panels@) =~= before.push(view));
}

/// A panel in a frame with a title.
pub open spec fn framed(area: Rect, title: Seq<char>, lines: Seq<LineView>) -> PanelView {
    PanelView {
        area,
        title: Some(title),
        border: unstyled(),
        lines,
        style: unstyled(),
        centered: false,
        wrapped: false,
        listed: false,
        clears: false,
        scroll: 0,
    }
}

/// A panel with one message and no frame.
pub open spec fn message_panel(area: Rect, message: Seq<char>, style: Style) -> PanelView {
    PanelView {
        area,
        title: None,
        border: unstyled(),
        lines: seq![raw_line(message)],
        style,
        centered: false,
        wrapped: false,
        listed: false,
        clears: false,
        scroll: 0,
    }
}

/// A panel in a frame with a title.
pub fn make_framed(area: Rect, title: &str, lines: Vec<Line>) -> (panel: Panel)
    ensures
        panel@ == framed(area, title@, line_views(lines@)),
{
    Panel {
        area,
        title: Some(title.to_owned()),
        border: plain_style(),
        lines,
        style: plain_style(),
        centered: false,
        wrapped: false,
        listed: false,
        clears: false,
        scroll: 0,
    }
}

/// A panel with one message and no frame.
pub fn make_message(area: Rect, message: &str, style: Style) -> (panel: Panel)
    ensures
        panel@ == message_panel(area, message@, style),
{
    let mut lines = no_lines();
    put_line(&mut lines, make_raw(message));
    assert(line_views(lines@) =~= seq![raw_line(message@)]);
    Panel {
        area,
        title: None,
        border: plain_style(),
        lines,
        style,
        centered: false,
        wrapped: false,
        listed: false,
        clears: false,
        scroll: 0,
    }
}

/// Whether a place lies in a part of the screen.
pub open spec fn lies_in(area: Rect, x: u16, y: u16) -> bool {
    area.x <= x < area.x + area.width && area.y <= y < area.y + area.height
}

/// Whether a part of the screen ends where places can still be numbered.
pub open spec fn on_screen(area: Rect) -> bool {
    area.x + area.width <= u16::MAX && area.y + area.height <= u16::MAX
}

/// Whether a place that can be numbered lies in a part of the screen.
pub open spec fn covers(area: Rect, x: u16, y: u16) -> bool {
    &&& area.x <= x
    &&& (x as int) < at_most_u16(area.x + area.width)
    &&& area.y <= y
    &&& (y as int) < at_most_u16(area.y + area.height)
}

/// Whether a place lies in a part of the screen.
pub fn contains(area: Rect, x: u16, y: u16) -> (yes: bool)
    ensures
        yes == covers(area, x, y),
        on_screen(area) ==> yes == lies_in(area, x, y),
{
    x >= area.x && x < area.x.saturating_add(area.width) && y >= area.y && y < area.y.saturating_add(
        area.height,
    )
}

/// A number held at the largest place on a screen.
pub open spec fn at_most_u16(value: int) -> int {
    if value > u16::MAX {
        u16::MAX as int
    } else {
        value
    }
}

/// A part of the screen in the middle of another, no larger than that.
pub open spec fn centered(width: u16, height: u16, area: Rect) -> Rect {
    let w = if width < area.width {
        width
    } else {
        area.width
    };
    let h = if height < area.height {
        height
    } else {
        area.height
    };
    Rect {
        x: (area.x + (area.width - w) / 2) as u16,
        y: (area.y + (area.height - h) / 2) as u16,
        width: w,
        height: h,
    }
}

/// Finds the part of the screen in the middle of another.
pub fn centered_rect(width: u16, height: u16, area: Rect) -> (middle: Rect)
    requires
        on_screen(area),
    ensures
        middle == centered(width, height, area),
{
    let w: u16 = if width < area.width {
        width
    } else {
        area.width
    };
    let h: u16 = if height < area.height {
        height
    } else {
        area.height
    };
    Rect {
        x: area.x + (area.width - w) / 2,
        y: area.y + (area.height - h) / 2,
        width: w,
        height: h,
    }
}

/// What lies in the middle of a part of the screen lies in it.
pub proof fn the_middle_is_inside(width: u16, height: u16, area: Rect, x: u16, y: u16)
    requires
        on_screen(area),
    ensures
        lies_in(centered(width, height, area), x, y) ==> lies_in(area, x, y),
{
}

/// A difference held at zero.
pub open spec fn over(value: int, less: int) -> int {
    if value < less {
        0
    } else {
        value - less
    }
}

/// A number held at the largest that a list can count to.
pub open spec fn countable(value: int) -> int {
    if value > usize::MAX {
        usize::MAX as int
    } else {
        value
    }
}

/// The first item of a list that is in sight: the list moves as little as
/// needed for the selected item to be in sight, and not past its end.
pub open spec fn offset_for(current: int, selected: int, capacity: int, count: int) -> int {
    let held = if current < over(count, capacity) {
        current
    } else {
        over(count, capacity)
    };
    if selected < held {
        selected
    } else if selected >= countable(held + capacity) {
        over(countable(selected + 1), capacity)
    } else {
        held
    }
}

/// Finds the first item of a list that is in sight.
pub fn selection_offset(current: usize, selected: usize, capacity: usize, item_count: usize) -> (offset: usize)
    ensures
        offset == offset_for(
            current as int,
            selected as int,
            capacity as int,
            item_count as int,
        ),
{
    let last: usize = item_count.saturating_sub(capacity);
    let mut offset: usize = if current < last {
        current
    } else {
        last
    };
    if selected < offset {
        offset = selected;
    } else if selected >= offset.saturating_add(capacity) {
        offset = selected.saturating_add(1).saturating_sub(capacity);
    }
    offset
}

/// The selected item of a list is in sight, wherever the list was before.
pub proof fn the_selection_is_in_sight(
    current: usize,
    selected: usize,
    capacity: usize,
    count: usize,
)
    requires
        selected < count,
        capacity > 0,
    ensures
        ({
            let offset = offset_for(
                current as int,
                selected as int,
                capacity as int,
                count as int,
            );
            0 <= offset <= selected < offset + capacity
        }),
{
}

/// A text cut to some characters, with dots where something was cut off.
pub open spec fn cut(text: Seq<char>, max: int) -> Seq<char> {
    if text.len() > max {
        text.take(max) + "..."@
    } else {
        text
    }
}

/// Cuts a text to some characters.
pub fn truncate(value: &str, max_chars: usize) -> (short: String)
    ensures
        short@ == cut(value@, max_chars as int),
{
    let chars = chars_of(value);
    if chars.len() > max_chars {
        let mut short = text_between(&chars, 0, max_chars);
        assert(short@ =~= value@.take(max_chars as int));
        short.append("...");
        short
    } else {
        value.to_owned()
    }
}

/// Whether a character is for controlling a terminal.
pub open spec fn is_control(c: char) -> bool {
    (c as u32) < 0x20 || (0x7f <= (c as u32) && (c as u32) < 0xa0)
}

/// What a character of output is shown as: none of it controls the terminal.
pub open spec fn harmless(c: char) -> char {
    if c == '\n' {
        '\n'
    } else if c == '\t' {
        ' '
    } else if is_control(c) {
        '?'
    } else {
        c
    }
}

/// What output is shown as.
pub open spec fn sanitized(text: Seq<char>) -> Seq<char> {
    text.map_values(|c: char| harmless(c))
}

/// Makes output fit to be shown.
pub fn sanitize_output(value: &str) -> (shown: String)
    ensures
        shown@ == sanitized(value@),
{
    let chars = chars_of(value);
    let mut shown = String::new();
    let mut i: usize = 0;
    assert(shown@ =~= sanitized(chars@.take(0)));
    while i < chars.len()
        invariant
            i <= chars.len(),
            shown@ == sanitized(chars@.take(i as int)),
        decreases chars.len() - i,
    {
        let c = chars[i];
        let code: u32 = c as u32;
        let safe: char = if c == '\n' {
            '\n'
        } else if c == '\t' {
            ' '
        } else if code < 0x20 || (0x7f <= code && code < 0xa0) {
            '?'
        } else {
            c
        };
        shown.push(safe);
        assert(shown@ =~= sanitized(chars@.take(i + 1)));
        i += 1;
    }
    assert(chars@.take(i as int) =~= value@);
    shown
}

/// Output that is shown controls nothing: but for the ends of lines no
/// character of it is a control character.
pub proof fn shown_output_controls_nothing(text: Seq<char>, at: int)
    requires
        0 <= at < text.len(),
    ensures
        sanitized(text)[at] != '\n' ==> !is_control(sanitized(text)[at]),
        sanitized(text).len() == text.len(),
{
}

/// The part of an identifier that is shown in a list: its first twelve bytes,
/// or all of it where they cannot be cut off.
pub open spec fn listed_id(id: Seq<char>) -> Seq<char> {
    match report::chars_in(id, 12) {
        Some(count) => id.take(count),
        None => id,
    }
}

/// Shortens an identifier for a list.
pub fn short_id(id: &str) -> (short: String)
    ensures
        short@ == listed_id(id@),
{
    match chars_within(id, 12) {
        Some(count) => {
            let chars = chars_of(id);
            let short = text_between(&chars, 0, count);
            assert(short@ =~= id@.take(count as int));
            short
        },
        None => id.to_owned(),
    }
}

/// The words of a text: what stands between its white space.
pub open spec fn words(text: Seq<char>) -> Seq<Seq<char>>
    decreases text.len(),
{
    if text.len() == 0 {
        Seq::empty()
    } else {
        let front = words(text.drop_last());
        let c = text.last();
        if text::white_space(c) {
            front
        } else if text.len() == 1 || text::white_space(text[text.len() - 2]) {
            front.push(seq![c])
        } else {
            front.drop_last().push(front.last().push(c))
        }
    }
}

/// A text on one line: its words with one space between them.
pub open spec fn on_one_line(text: Seq<char>) -> Seq<char> {
    report::separated(words(text), " "@)
}

proof fn words_grow(text: Seq<char>)
    requires
        text.len() > 0,
        !text::white_space(text.last()),
    ensures
        words(text).len() > 0,
    decreases text.len(),
{
    if text.len() > 1 && !text::white_space(text[text.len() - 2]) {
        words_grow(text.drop_last());
    }
}

/// Puts a text on one line.
pub fn one_line(text: &str) -> (line: String)
    ensures
        line@ == on_one_line(text@),
{
    let chars = chars_of(text);
    let ghost all = text@;
    let mut line = String::new();
    let mut any = false;
    let mut inside = false;
    let mut i: usize = 0;
    assert(all.take(0) =~= Seq::empty());
    assert(line@ =~= on_one_line(all.take(0)));
    while i < chars.len()
        invariant
            i <= chars.len(),
            chars@ == all,
            line@ == on_one_line(all.take(i as int)),
            any == (words(all.take(i as int)).len() > 0),
            inside == (i > 0 && !text::white_space(all[i - 1])),
        decreases chars.len() - i,
    {
        let c = chars[i];
        let ghost front = all.take(i as int);
        let ghost next = all.take(i + 1);
        proof {
            assert(next.drop_last() =~= front);
            assert(next.last() == c);
            if i > 0 {
                assert(next[next.len() - 2] == all[i - 1]);
            }
        }
        let ghost before = line@;
        if c.is_whitespace() {
            inside = false;
        } else {
            if !inside {
                if any {
                    line.append(" ");
                }
                line.push(c);
                proof {
                    let list = words(front).push(seq![c]);
                    assert(words(next) == list);
                    assert(list.drop_last() =~= words(front));
                    if words(front).len() == 0 {
                        assert(list[0] == seq![c]);
                        assert(line@ =~= seq![c]);
                    } else {
                        assert(line@ =~= before + " "@ + seq![c]);
                    }
                }
            } else {
                line.push(c);
                proof {
                    assert(front.last() == all[i - 1]);
                    words_grow(front);
                    let old_words = words(front);
                    let list = old_words.drop_last().push(old_words.last().push(c));
                    assert(words(next) == list);
                    assert(list.drop_last() =~= old_words.drop_last());
                    if old_words.len() == 1 {
                        assert(list[0] == old_words[0].push(c));
                    } else {
                        assert(report::separated(old_words, " "@) == report::separated(
                            old_words.drop_last(),
                            " "@,
                        ) + " "@ + old_words.last());
                        assert(line@ =~= report::separated(list.drop_last(), " "@) + " "@
                            + list.last());
                    }
                }
            }
            any = true;
            inside = true;
        }
        i += 1;
    }
    assert(all.take(i as int) =~= all);
    line
}

/// The lines of a text: what stands between the ends of lines.
pub open spec fn lines_in(text: Seq<char>) -> Seq<Seq<char>>
    decreases text.len(),
{
    if text.len() == 0 {
        seq![Seq::empty()]
    } else {
        let front = lines_in(text.drop_last());
        if text.last() == '\n' {
            front.push(Seq::empty())
        } else {
            front.drop_last().push(front.last().push(text.last()))
        }
    }
}

proof fn lines_exist(text: Seq<char>)
    ensures
        lines_in(text).len() > 0,
    decreases text.len(),
{
    if text.len() > 0 {
        lines_exist(text.drop_last());
    }
}

/// The lines of a text in one look.
pub open spec fn styled_lines(texts: Seq<Seq<char>>, style: Style) -> Seq<LineView> {
    texts.map_values(|text: Seq<char>| styled_line(text, style))
}

/// Puts the lines of a text below others.
pub fn put_text(lines: &mut Vec<Line>, text: &str, style: Style)
    ensures
        line_views(final(lines)@) == line_views(old(lines)@) + styled_lines(
            lines_in(text@),
            style,
        ),
        final(lines).len() > old(lines).len(),
{
    let chars = chars_of(text);
    let ghost all = text@;
    let ghost before = line_views(lines@);
    let ghost count = lines.len();
    let mut current = String::new();
    let mut i: usize = 0;
    assert(all.take(0) =~= Seq::empty());
    assert(before + styled_lines(Seq::empty(), style) =~= before);
    assert(lines_in(all.take(0)).drop_last() =~= Seq::empty());
    while i < chars.len()
        invariant
            i <= chars.len(),
            chars@ == all,
            lines.len() >= count,
            line_views(lines@) == before + styled_lines(
                lines_in(all.take(i as int)).drop_last(),
                style,
            ),
            current@ == lines_in(all.take(i as int)).last(),
        decreases chars.len() - i,
    {
        let c = chars[i];
        let ghost front = lines_in(all.take(i as int));
        let ghost shown = current@;
        proof {
            assert(all.take(i + 1).drop_last() =~= all.take(i as int));
            assert(all.take(i + 1).last() == c);
            lines_exist(all.take(i as int));
        }
        if c == '\n' {
            put_line(lines, make_line(current, style));
            current = String::new();
            proof {
                let next = front.push(Seq::<char>::empty());
                assert(lines_in(all.take(i + 1)) == next);
                assert(next.drop_last() =~= front);
                assert(styled_lines(front, style) =~= styled_lines(front.drop_last(), style).push(
                    styled_line(shown, style),
                ));
                assert(line_views(lines@) =~= before + styled_lines(front, style));
                assert(current@ =~= next.last());
            }
        } else {
            current.push(c);
            proof {
                let next = front.drop_last().push(front.last().push(c));
                assert(lines_in(all.take(i + 1)) == next);
                assert(next.drop_last() =~= front.drop_last());
            }
        }
        i += 1;
    }
    let ghost shown = current@;
    put_line(lines, make_line(current, style));
    proof {
        assert(all.take(i as int) =~= all);
        lines_exist(all);
        let whole = lines_in(all);
        assert(styled_lines(whole, style) =~= styled_lines(whole.drop_last(), style).push(
            styled_line(shown, style),
        ));
        assert(line_views(lines@) =~= before + styled_lines(whole, style));
    }
}

/// Spaces before a text that fill it up to a width.
pub open spec fn padded_left(text: Seq<char>, width: int) -> Seq<char> {
    report::spaces(width - text.len()) + text
}

/// Fills a text up with spaces before it.
pub fn pad_left(text: &str, width: usize) -> (result: String)
    ensures
        result@ == padded_left(text@, width as int),
{
    let count = chars_of(text).len();
    let missing: usize = width.saturating_sub(count);
    let mut result = pad("", missing);
    assert(result@ =~= report::spaces(width - text@.len())) by {
        reveal_strlit("");
    }
    result.append(text);
    result
}

/// A number below a hundred, in two digits.
pub open spec fn two_digits(n: nat) -> Seq<char> {
    if n < 10 {
        "0"@ + text::decimal(n)
    } else {
        text::decimal(n)
    }
}

/// How long something took, in minutes and seconds.
pub open spec fn shown_span(duration_ms: u64) -> Seq<char> {
    let seconds = (duration_ms / 1000) as nat;
    if seconds < 60 {
        text::decimal(seconds) + "s"@
    } else {
        text::decimal(seconds / 60) + "m "@ + two_digits(seconds % 60) + "s"@
    }
}

/// Shows how long something took.
pub fn format_duration(duration_ms: u64) -> (text: String)
    ensures
        text@ == shown_span(duration_ms),
{
    let seconds: u64 = duration_ms / 1000;
    if seconds < 60 {
        joined(decimal_text(seconds).as_str(), "s")
    } else {
        let rest: u64 = seconds % 60;
        let mut text = joined(decimal_text(seconds / 60).as_str(), "m ");
        if rest < 10 {
            text.append(joined("0", decimal_text(rest).as_str()).as_str());
        } else {
            text.append(decimal_text(rest).as_str());
        }
        text.append("s");
        text
    }
}

/// The time between two moments, none where the second comes before the first.
pub open spec fn time_since(now: i64, then: i64) -> u64 {
    if now < then {
        0
    } else if now - then > i64::MAX {
        i64::MAX as u64
    } else {
        (now - then) as u64
    }
}

/// The time between two moments.
pub fn elapsed_since(now: i64, then: i64) -> (elapsed: u64)
    ensures
        elapsed == time_since(now, then),
{
    if now < then {
        0
    } else if now as i128 - then as i128 > i64::MAX as i128 {
        i64::MAX as u64
    } else {
        (now - then) as u64
    }
}

/// How old something is, in the largest unit that it reaches.
pub open spec fn shown_age(now: i64, then: i64) -> Seq<char> {
    let seconds = (time_since(now, then) / 1000) as nat;
    if seconds < 60 {
        text::decimal(seconds) + "s"@
    } else if seconds < 3600 {
        text::decimal(seconds / 60) + "m"@
    } else if seconds < 86400 {
        text::decimal(seconds / 3600) + "h"@
    } else {
        text::decimal(seconds / 86400) + "d"@
    }
}

/// Shows how old something is.
pub fn format_age(now: i64, timestamp_ms: i64) -> (text: String)
    ensures
        text@ == shown_age(now, timestamp_ms),
{
    let seconds: u64 = elapsed_since(now, timestamp_ms) / 1000;
    if seconds < 60 {
        joined(decimal_text(seconds).as_str(), "s")
    } else if seconds < 3600 {
        joined(decimal_text(seconds / 60).as_str(), "m")
    } else if seconds < 86400 {
        joined(decimal_text(seconds / 3600).as_str(), "h")
    } else {
        joined(decimal_text(seconds / 86400).as_str(), "d")
    }
}

/// How an outcome is shown; `before` and `after` stand around the signal of
/// one that was cancelled.
pub open spec fn shown_outcome(
    outcome: Option<ExecutionOutcomeView>,
    before: Seq<char>,
    after: Seq<char>,
) -> Seq<char> {
    match outcome {
        Some(ExecutionOutcomeView::Exited { code }) => "exit "@ + text::signed_decimal(code as int),
        Some(ExecutionOutcomeView::Signaled { signal }) => "signal "@ + text::signed_decimal(
            signal as int,
        ),
        Some(ExecutionOutcomeView::SpawnError { message }) => "spawn error: "@ + message,
        Some(ExecutionOutcomeView::Cancelled { signal }) => match signal {
            Some(signal) => before + text::signed_decimal(signal as int) + after,
            None => "cancelled"@,
        },
        Some(ExecutionOutcomeView::Interrupted { reason }) => "interrupted: "@ + reason,
        None => "in progress"@,
    }
}

/// The view of an outcome that may not be there.
pub open spec fn outcome_of(outcome: Option<ExecutionOutcome>) -> Option<ExecutionOutcomeView> {
    match outcome {
        Some(outcome) => Some(outcome@),
        None => None,
    }
}

/// Shows an outcome.
pub fn format_outcome(outcome: &Option<ExecutionOutcome>, before: &str, after: &str) -> (text: String)
    ensures
        text@ == shown_outcome(outcome_of(*outcome), before@, after@),
{
    match outcome {
        Some(outcome) => match outcome {
            ExecutionOutcome::Exited { code } => joined(
                "exit ",
                signed_decimal_text(*code as i64).as_str(),
            ),
            ExecutionOutcome::Signaled { signal } => joined(
                "signal ",
                signed_decimal_text(*signal as i64).as_str(),
            ),
            ExecutionOutcome::SpawnError { message } => joined("spawn error: ", message.as_str()),
            ExecutionOutcome::Cancelled { signal } => match signal {
                Some(signal) => joined3(
                    before,
                    signed_decimal_text(*signal as i64).as_str(),
                    after,
                ),
                None => "cancelled".to_owned(),
            },
            ExecutionOutcome::Interrupted { reason } => joined("interrupted: ", reason.as_str()),
        },
        None => "in progress".to_owned(),
    }
}

/// What is said of how an execution stands, and how it looks.
#[derive(Debug, Clone, Copy, PartialEq, Eq, Structural)]
pub enum Status {
    Queued,
    Running,
    Cancelled,
    Failed,
    Passed,
}

/// How an execution stands: one that was cancelled or interrupted is that
/// whatever else is known of it, and one that has ended passed where it exited
/// with zero.
pub open spec fn status_of(execution: ExecutionView) -> Status {
    match execution.state {
        ExecutionState::Queued => Status::Queued,
        ExecutionState::Running => Status::Running,
        ExecutionState::Cancelled => Status::Cancelled,
        ExecutionState::Interrupted => match execution.outcome {
            Some(ExecutionOutcomeView::Cancelled { signal }) => Status::Cancelled,
            _ => Status::Failed,
        },
        ExecutionState::Finished => match execution.outcome {
            Some(ExecutionOutcomeView::Cancelled { signal }) => Status::Cancelled,
            Some(ExecutionOutcomeView::Exited { code }) => if code == 0 {
                Status::Passed
            } else {
                Status::Failed
            },
            _ => Status::Failed,
        },
    }
}

/// What is said of a status.
pub open spec fn status_name(status: Status) -> Seq<char> {
    match status {
        Status::Queued => "queued"@,
        Status::Running => "running"@,
        Status::Cancelled => "cancelled"@,
        Status::Failed => "failed"@,
        Status::Passed => "passed"@,
    }
}

/// The colour of a status.
pub open spec fn status_color(status: Status) -> Color {
    match status {
        Status::Queued => Color::Yellow,
        Status::Running => Color::Cyan,
        Status::Cancelled => Color::Magenta,
        Status::Failed => Color::LightRed,
        Status::Passed => Color::Green,
    }
}

fn status(execution: &Execution) -> (status: Status)
    ensures
        status == status_of(execution@),
{
    let cancelled = match &execution.outcome {
        Some(ExecutionOutcome::Cancelled { signal }) => true,
        _ => false,
    };
    match execution.state {
        ExecutionState::Queued => Status::Queued,
        ExecutionState::Running => Status::Running,
        ExecutionState::Cancelled => Status::Cancelled,
        ExecutionState::Interrupted => if cancelled {
            Status::Cancelled
        } else {
            Status::Failed
        },
        ExecutionState::Finished => match &execution.outcome {
            Some(ExecutionOutcome::Cancelled { signal }) => Status::Cancelled,
            Some(ExecutionOutcome::Exited { code }) => if *code == 0 {
                Status::Passed
            } else {
                Status::Failed
            },
            _ => Status::Failed,
        },
    }
}

/// Says how an execution stands, and how that looks.
pub fn execution_status(execution: &Execution) -> (shown: (&'static str, Style))
    ensures
        shown.0@ == status_name(status_of(execution@)),
        shown.1 == in_color(status_color(status_of(execution@))),
{
    match status(execution) {
        Status::Queued => ("queued", colored(Color::Yellow)),
        Status::Running => ("running", colored(Color::Cyan)),
        Status::Cancelled => ("cancelled", colored(Color::Magenta)),
        Status::Failed => ("failed", colored(Color::LightRed)),
        Status::Passed => ("passed", colored(Color::Green)),
    }
}

/// Whether an execution failed.
pub fn execution_failed(execution: &Execution) -> (failed: bool)
    ensures
        failed == (status_of(execution@) == Status::Failed),
{
    match status(execution) {
        Status::Failed => true,
        _ => false,
    }
}

/// How a session looks, by its state.
pub open spec fn session_color(state: AgentSessionState) -> Color {
    match state {
        AgentSessionState::Recording => Color::Cyan,
        AgentSessionState::Finished => Color::Green,
        AgentSessionState::Interrupted => Color::LightRed,
    }
}

/// How a session looks.
pub fn session_style(state: AgentSessionState) -> (style: Style)
    ensures
        style == in_color(session_color(state)),
{
    match state {
        AgentSessionState::Recording => colored(Color::Cyan),
        AgentSessionState::Finished => colored(Color::Green),
        AgentSessionState::Interrupted => colored(Color::LightRed),
    }
}

/// How a frame looks: the one that keys go to stands out.
pub open spec fn frame_style(active: bool) -> Style {
    if active {
        in_color(Color::Cyan)
    } else {
        in_color(Color::DarkGray)
    }
}

/// How a frame looks.
pub fn focus_style(active: bool) -> (style: Style)
    ensures
        style == frame_style(active),
{
    if active {
        colored(Color::Cyan)
    } else {
        colored(Color::DarkGray)
    }
}

/// How long an execution took, or has taken by now.
pub open spec fn taken(execution: ExecutionView, now: i64) -> u64 {
    match execution.duration_ms {
        Some(duration) => duration,
        None => time_since(
            now,
            match execution.started_at_ms {
                Some(started) => started,
                None => execution.created_at_ms,
            },
        ),
    }
}

/// How long an execution took, or has taken by now.
pub fn time_taken(execution: &Execution, now: i64) -> (duration: u64)
    ensures
        duration == taken(execution@, now),
{
    match execution.duration_ms {
        Some(duration) => duration,
        None => match execution.started_at_ms {
            Some(started) => elapsed_since(now, started),
            None => elapsed_since(now, execution.created_at_ms),
        },
    }
}

/// What is drawn where the screen is too small.
pub open spec fn too_small(area: Rect, title: Seq<char>, width: u16, height: u16) -> PanelView {
    PanelView {
        centered: true,
        ..framed(
            area,
            title,
            seq![
                raw_line("Terminal too small"@),
                raw_line("minimum: "@ + text::decimal(width as nat) + "x"@ + text::decimal(height as nat)),
                raw_line(
                    "current: "@ + text::decimal(area.width as nat) + "x"@ + text::decimal(area.height as nat),
                ),
            ],
        )
    }
}

fn size_text(label: &str, width: u16, height: u16) -> (text: String)
    ensures
        text@ == label@ + text::decimal(width as nat) + "x"@ + text::decimal(height as nat),
{
    let mut text = joined3(label, decimal_text(width as u64).as_str(), "x");
    text.append(decimal_text(height as u64).as_str());
    text
}

/// Says that the screen is too small.
pub fn too_small_panel(area: Rect, title: &str, width: u16, height: u16) -> (panel: Panel)
    ensures
        panel@ == too_small(area, title@, width, height),
{
    let mut lines = no_lines();
    put_line(&mut lines, make_raw("Terminal too small"));
    put_line(&mut lines, make_raw(size_text("minimum: ", width, height).as_str()));
    put_line(&mut lines, make_raw(size_text("current: ", area.width, area.height).as_str()));
    assert(line_views(lines@) =~= too_small(area, title@, width, height).lines);
    let mut panel = make_framed(area, title, lines);
    panel.centered = true;
    panel
}

/// Asks whether an execution is to be cancelled.
pub open spec fn confirmation(area: Rect, execution_id: Seq<char>) -> PanelView {
    PanelView {
        centered: true,
        clears: true,
        border: in_color(Color::Yellow),
        ..framed(
            area,
            "Confirm"@,
            seq![
                raw_line("Cancel this execution?"@),
                styled_line(listed_id(execution_id), in_color(Color::Yellow)),
                raw_line("y/Enter confirm   n/Esc keep running"@),
            ],
        )
    }
}

/// Asks whether an execution is to be cancelled.
pub fn confirmation_panel(area: Rect, execution_id: &str) -> (panel: Panel)
    ensures
        panel@ == confirmation(area, execution_id@),
{
    let mut lines = no_lines();
    put_line(&mut lines, make_raw("Cancel this execution?"));
    put_line(&mut lines, make_line(short_id(execution_id), colored(Color::Yellow)));
    put_line(&mut lines, make_raw("y/Enter confirm   n/Esc keep running"));
    assert(line_views(lines@) =~= confirmation(area, execution_id@).lines);
    let mut panel = make_framed(area, "Confirm", lines);
    panel.centered = true;
    panel.clears = true;
    panel.border = colored(Color::Yellow);
    panel
}

/// The row of an item in a list that has a frame.
pub open spec fn row_area(area: Rect, row: int) -> Rect {
    Rect {
        x: at_most_u16(area.x + 1) as u16,
        y: at_most_u16(area.y + 1 + row) as u16,
        width: over(area.width as int, 2) as u16,
        height: 1,
    }
}

/// The row of an item in a list that has a frame.
pub fn row_rect(area: Rect, row: u16) -> (rect: Rect)
    ensures
        rect == row_area(area, row as int),
{
    Rect {
        x: area.x.saturating_add(1),
        y: area.y.saturating_add(1).saturating_add(row),
        width: area.width.saturating_sub(2),
        height: 1,
    }
}

/// How many rows a list with a frame has for its items; one at least.
pub open spec fn rows_in(area: Rect) -> int {
    if area.height <= 3 {
        1
    } else {
        area.height - 2
    }
}

/// How many rows a list with a frame has for its items.
pub fn capacity(area: Rect) -> (rows: u16)
    ensures
        rows == rows_in(area),
{
    if area.height <= 3 {
        1
    } else {
        area.height - 2
    }
}

/// The part of a list that is in sight.
pub open spec fn window<A>(list: Seq<A>, offset: int, rows: int) -> Seq<A> {
    if offset >= list.len() {
        Seq::empty()
    } else if offset + rows >= list.len() {
        list.skip(offset)
    } else {
        list.subrange(offset, offset + rows)
    }
}

/// The upper case of an ASCII letter; other characters stay.
pub open spec fn ascii_upper(c: char) -> char {
    if 'a' <= c && c <= 'z' {
        (c as u32 - 32) as char
    } else {
        c
    }
}

/// How an agent is shown: its name in upper case.
pub open spec fn provider_shown(provider: Seq<char>) -> Seq<char> {
    provider.map_values(|c: char| ascii_upper(c))
}

/// Shows an agent.
pub fn provider_label(provider: &str) -> (label: String)
    ensures
        label@ == provider_shown(provider@),
{
    let chars = chars_of(provider);
    let mut label = String::new();
    let mut i: usize = 0;
    assert(label@ =~= provider_shown(chars@.take(0)));
    while i < chars.len()
        invariant
            i <= chars.len(),
            label@ == provider_shown(chars@.take(i as int)),
        decreases chars.len() - i,
    {
        let c = chars[i];
        let upper: char = if c >= 'a' && c <= 'z' {
            (c as u8 - 32u8) as char
        } else {
            c
        };
        label.push(upper);
        assert(label@ =~= provider_shown(chars@.take(i + 1)));
        i += 1;
    }
    assert(chars@.take(i as int) =~= provider@);
    label
}

/// A text without its last character.
pub open spec fn shortened_by_one(text: Seq<char>) -> Seq<char> {
    if text.len() == 0 {
        text
    } else {
        text.drop_last()
    }
}

/// A text without its last character.
pub fn without_last(text: &str) -> (short: String)
    ensures
        short@ == shortened_by_one(text@),
{
    let chars = chars_of(text);
    if chars.len() == 0 {
        text.to_owned()
    } else {
        let short = text_between(&chars, 0, chars.len() - 1);
        assert(short@ =~= text@.drop_last());
        short
    }
}

} // verus!
