//! What the terminal shows: which text, in which style, in which part of the
//! screen.
use ratatui::layout;
use vstd::prelude::*;
use crate::num::{limit, round_div, unsigned};
use crate::text::{concat, decimal_string, join, pad_left_string, pad_right_string, repeat};
use crate::tui::{App, ConfigField, CONFIG_FIELDS};

verus! {

// ── Areas ──────────────────────────────────────────────────────────

/// A rectangle of terminal cells.
#[derive(Debug, Clone, Copy, PartialEq, Eq, Structural)]
pub struct Area {
    pub x: u16,
    pub y: u16,
    pub width: u16,
    pub height: u16,
}

/// The axis along which an area is divided.
#[derive(Debug, Clone, Copy, PartialEq, Eq, Structural)]
pub enum Direction {
    Horizontal,
    Vertical,
}

/// What a part of a divided area asks for.
#[derive(Debug, Clone, Copy, PartialEq, Eq, Structural)]
pub enum Constraint {
    Length(u16),
    Min(u16),
    Percentage(u16),
}

/// `parts` is a division of `area` that the layout solver can give.
pub uninterp spec fn may_split(
    direction: Direction,
    constraints: Seq<Constraint>,
    area: Area,
    parts: Seq<Area>,
) -> bool;

/// A part reaches across the whole of the area in the other direction and lies
/// within it in the direction of the division.
pub open spec fn spans(direction: Direction, part: Area, area: Area) -> bool {
    match direction {
        Direction::Horizontal => {
            &&& part.y == area.y
            &&& part.height == area.height
            &&& area.x <= part.x
            &&& part.x + part.width <= area.x + area.width
        },
        Direction::Vertical => {
            &&& part.x == area.x
            &&& part.width == area.width
            &&& area.y <= part.y
            &&& part.y + part.height <= area.y + area.height
        },
    }
}

/// The first cell of an area in a direction.
pub open spec fn start(direction: Direction, area: Area) -> int {
    match direction {
        Direction::Horizontal => area.x as int,
        Direction::Vertical => area.y as int,
    }
}

/// How many cells an area has in a direction.
pub open spec fn extent(direction: Direction, area: Area) -> int {
    match direction {
        Direction::Horizontal => area.width as int,
        Direction::Vertical => area.height as int,
    }
}

/// The cells that a part gets where there is room: a length what it says, a
/// minimum what it says and what is left over.
pub open spec fn cells(constraint: Constraint, spare: int) -> int {
    match constraint {
        Constraint::Length(n) => n as int,
        Constraint::Min(n) => n + spare,
        Constraint::Percentage(_) => 0,
    }
}

/// The cells that the first `i` parts get.
pub open spec fn cells_before(constraints: Seq<Constraint>, spare: int, i: int) -> int
    decreases i,
{
    if i <= 0 {
        0
    } else {
        cells_before(constraints, spare, i - 1) + cells(constraints[i - 1], spare)
    }
}

/// What is left of `room` cells when all lengths and minimums are met.
pub open spec fn left_over(constraints: Seq<Constraint>, room: int) -> int {
    room - cells_before(constraints, 0, constraints.len() as int)
}

/// The percentage of a part.
pub open spec fn percent(constraint: Constraint) -> int {
    match constraint {
        Constraint::Percentage(p) => p as int,
        _ => 0,
    }
}

/// The percentages of the first `i` parts together.
pub open spec fn percent_before(constraints: Seq<Constraint>, i: int) -> int
    decreases i,
{
    if i <= 0 {
        0
    } else {
        percent_before(constraints, i - 1) + percent(constraints[i - 1])
    }
}

/// A short list of lengths, with at most one minimum among them, that all fit
/// into `room` cells.
pub open spec fn has_room(constraints: Seq<Constraint>, room: int) -> bool {
    &&& constraints.len() <= 3
    &&& forall|i: int|
        0 <= i < constraints.len() ==> (#[trigger] constraints[i]) is Length || constraints[i] is Min
    &&& forall|i: int, j: int|
        0 <= i < j < constraints.len() ==> (#[trigger] constraints[i]) is Length || (
        #[trigger] constraints[j]) is Length
    &&& left_over(constraints, room) >= 0
}

/// A short list of percentages that are no more than the whole.
pub open spec fn is_shared(constraints: Seq<Constraint>) -> bool {
    &&& constraints.len() <= 3
    &&& forall|i: int| 0 <= i < constraints.len() ==> (#[trigger] constraints[i]) is Percentage
    &&& percent_before(constraints, constraints.len() as int) <= 100
}

/// The parts stand one behind the other, each with the cells that it gets.
pub open spec fn stacked(
    direction: Direction,
    constraints: Seq<Constraint>,
    area: Area,
    parts: Seq<Area>,
) -> bool {
    let spare = left_over(constraints, extent(direction, area));
    forall|i: int|
        0 <= i < parts.len() ==> {
            &&& start(direction, #[trigger] parts[i]) == start(direction, area) + cells_before(
                constraints,
                spare,
                i,
            )
            &&& extent(direction, parts[i]) == cells(constraints[i], spare)
        }
}

/// The first cell behind the first `i` shares of an area, to the nearest cell.
pub open spec fn share_edge(
    direction: Direction,
    constraints: Seq<Constraint>,
    area: Area,
    i: int,
) -> int {
    start(direction, area) + (extent(direction, area) * percent_before(constraints, i) + 50) / 100
}

/// The parts stand one behind the other, each with its share.
pub open spec fn shared_out(
    direction: Direction,
    constraints: Seq<Constraint>,
    area: Area,
    parts: Seq<Area>,
) -> bool {
    forall|i: int|
        0 <= i < parts.len() ==> {
            &&& start(direction, #[trigger] parts[i]) == share_edge(direction, constraints, area, i)
            &&& start(direction, parts[i]) + extent(direction, parts[i]) == share_edge(
                direction,
                constraints,
                area,
                i + 1,
            )
        }
}

/// An area whose end has a number.
pub open spec fn ends_in_range(direction: Direction, area: Area) -> bool {
    start(direction, area) + extent(direction, area) <= u16::MAX
}

/// `parts` is a division of `area` that the layout solver can give: one part
/// for each constraint, each within the area; where the constraints can all be
/// met, each part has what it asks for.
pub open spec fn divides(
    direction: Direction,
    constraints: Seq<Constraint>,
    area: Area,
    parts: Seq<Area>,
) -> bool {
    &&& may_split(direction, constraints, area, parts)
    &&& parts.len() == constraints.len()
    &&& forall|i: int| 0 <= i < parts.len() ==> spans(direction, #[trigger] parts[i], area)
    &&& ends_in_range(direction, area) && has_room(constraints, extent(direction, area))
        ==> stacked(direction, constraints, area, parts)
    &&& ends_in_range(direction, area) && is_shared(constraints) ==> shared_out(
        direction,
        constraints,
        area,
        parts,
    )
}

/// A sum that stays at the greatest cell number.
pub open spec fn saturated(n: int) -> int {
    if n > u16::MAX {
        u16::MAX as int
    } else {
        n
    }
}

/// The area without a margin on each side; no area at all if the margins do not
/// fit.
pub open spec fn inner(area: Area, horizontal: u16, vertical: u16) -> Area {
    if area.width < saturated(2 * horizontal) || area.height < saturated(2 * vertical) {
        Area { x: 0, y: 0, width: 0, height: 0 }
    } else {
        Area {
            x: saturated(area.x + horizontal) as u16,
            y: saturated(area.y + vertical) as u16,
            width: (area.width - saturated(2 * horizontal)) as u16,
            height: (area.height - saturated(2 * vertical)) as u16,
        }
    }
}

/// Divides an area by `ratatui::layout::Layout::split`, on a layout with the
/// default margin, spacing and flex.
///
/// Trusted: the solver gives one part for each constraint; each part has the
/// area's full extent across the direction of the division and lies within the
/// area along it. Up to three lengths and at most one minimum that fit are met
/// exactly: the parts stand one behind the other from the start of the area, a
/// length has its cells, and the minimum has the rest, because gaps, minimums
/// and lengths outweigh by far all that lets parts grow. Up to three percentages
/// of no more than the whole are met too, with each edge at the nearest cell, a
/// half rounded up. Both are said of areas that end within the numbers of cells.
///
/// How the space is shared out otherwise is left unsaid: where the constraints
/// cannot all be met, the solver may settle them in more than one way.
/// `may_split` stands for the ways it can.
#[verifier::external_body]
fn split_area(direction: Direction, constraints: &Vec<Constraint>, area: Area) -> (parts: Vec<Area>)
    ensures
        may_split(direction, constraints@, area, parts@),
        parts@.len() == constraints@.len(),
        forall|i: int| 0 <= i < parts@.len() ==> spans(direction, #[trigger] parts@[i], area),
        ends_in_range(direction, area) && has_room(constraints@, extent(direction, area))
            ==> stacked(direction, constraints@, area, parts@),
        ends_in_range(direction, area) && is_shared(constraints@) ==> shared_out(
            direction,
            constraints@,
            area,
            parts@,
        ),
{
    let axis = match direction {
        Direction::Horizontal => layout::Direction::Horizontal,
        Direction::Vertical => layout::Direction::Vertical,
    };
    let asked = constraints.iter().map(|c| match c {
        Constraint::Length(n) => layout::Constraint::Length(*n),
        Constraint::Min(n) => layout::Constraint::Min(*n),
        Constraint::Percentage(n) => layout::Constraint::Percentage(*n),
    });
    let rule = layout::Layout::default().direction(axis).constraints(asked);
    let Area { x, y, width, height } = area;
    let parts = rule.split(layout::Rect { x, y, width, height });
    parts.iter().map(|r| Area { x: r.x, y: r.y, width: r.width, height: r.height }).collect()
}

/// Takes a margin off an area.
fn inner_area(area: Area, horizontal: u16, vertical: u16) -> (r: Area)
    ensures
        r == inner(area, horizontal, vertical),
{
    let across: u16 = horizontal.saturating_add(horizontal);
    let down: u16 = vertical.saturating_add(vertical);
    if area.width < across || area.height < down {
        Area { x: 0, y: 0, width: 0, height: 0 }
    } else {
        Area {
            x: area.x.saturating_add(horizontal),
            y: area.y.saturating_add(vertical),
            width: area.width - across,
            height: area.height - down,
        }
    }
}

// ── Widgets ────────────────────────────────────────────────────────

/// The colours in use.
#[derive(Debug, Clone, Copy, PartialEq, Eq, Structural)]
pub enum Color {
    Black,
    Red,
    Green,
    Yellow,
    Magenta,
    Cyan,
    Gray,
    DarkGray,
    White,
}

/// The looks of a text. What is `None` stays as it is.
#[derive(Debug, Clone, Copy, PartialEq, Eq, Structural)]
pub struct Style {
    pub fg: Option<Color>,
    pub bg: Option<Color>,
    pub bold: bool,
}

/// A text in one style.
#[derive(Debug, Clone)]
pub struct Span {
    pub text: String,
    pub style: Style,
}

/// The frame around a widget.
#[derive(Debug, Clone)]
pub struct Block {
    pub title: Option<String>,
    pub title_style: Style,
    /// A border runs around all four sides.
    pub bordered: bool,
    pub border_style: Style,
}

/// Something to draw.
#[derive(Debug, Clone)]
pub enum Widget {
    /// Lines of text.
    Paragraph { lines: Vec<Vec<Span>>, block: Block, centered: bool },
    /// A list with at most one highlighted entry.
    List {
        items: Vec<Vec<Span>>,
        block: Block,
        highlight_style: Style,
        highlight_symbol: String,
        selected: Option<usize>,
    },
    /// A bar that is filled up to a ratio, which is given in millionths.
    Gauge { block: Block, style: Style, ratio: u32, label: String },
    /// A frame with nothing in it.
    Frame { block: Block },
    /// Blanks, over whatever was there.
    Clear,
}

/// Something to draw, and where.
#[derive(Debug, Clone)]
pub struct Placed {
    pub widget: Widget,
    pub area: Area,
}

/// What a span shows.
#[verifier::ext_equal]
pub struct SpanView {
    pub text: Seq<char>,
    pub style: Style,
}

/// What a frame shows.
#[verifier::ext_equal]
pub struct BlockView {
    pub title: Option<Seq<char>>,
    pub title_style: Style,
    pub bordered: bool,
    pub border_style: Style,
}

/// What a widget shows.
#[verifier::ext_equal]
pub enum WidgetView {
    Paragraph { lines: Seq<Seq<SpanView>>, block: BlockView, centered: bool },
    List {
        items: Seq<Seq<SpanView>>,
        block: BlockView,
        highlight_style: Style,
        highlight_symbol: Seq<char>,
        selected: Option<usize>,
    },
    Gauge { block: BlockView, style: Style, ratio: u32, label: Seq<char> },
    Frame { block: BlockView },
    Clear,
}

/// What is shown, and where.
#[verifier::ext_equal]
pub struct PlacedView {
    pub widget: WidgetView,
    pub area: Area,
}

impl View for Span {
    type V = SpanView;

    open spec fn view(&self) -> SpanView {
        SpanView { text: self.text@, style: self.style }
    }
}

/// What a line of spans shows.
pub open spec fn line_view(line: Seq<Span>) -> Seq<SpanView> {
    line.map_values(|s: Span| s@)
}

/// What several lines show.
pub open spec fn lines_view(lines: Seq<Vec<Span>>) -> Seq<Seq<SpanView>> {
    lines.map_values(|l: Vec<Span>| line_view(l@))
}

impl View for Block {
    type V = BlockView;

    open spec fn view(&self) -> BlockView {
        BlockView {
            title: crate::select::opt_text(self.title),
            title_style: self.title_style,
            bordered: self.bordered,
            border_style: self.border_style,
        }
    }
}

impl View for Widget {
    type V = WidgetView;

    open spec fn view(&self) -> WidgetView {
        match *self {
            Widget::Paragraph { lines, block, centered } => WidgetView::Paragraph {
                lines: lines_view(lines@),
                block: block@,
                centered,
            },
            Widget::List { items, block, highlight_style, highlight_symbol, selected } =>
                WidgetView::List {
                items: lines_view(items@),
                block: block@,
                highlight_style,
                highlight_symbol: highlight_symbol@,
                selected,
            },
            Widget::Gauge { block, style, ratio, label } => WidgetView::Gauge {
                block: block@,
                style,
                ratio,
                label: label@,
            },
            Widget::Frame { block } => WidgetView::Frame { block: block@ },
            Widget::Clear => WidgetView::Clear,
        }
    }
}

impl View for Placed {
    type V = PlacedView;

    open spec fn view(&self) -> PlacedView {
        PlacedView { widget: self.widget@, area: self.area }
    }
}

/// What several placed widgets show.
pub open spec fn placed_views(items: Seq<Placed>) -> Seq<PlacedView> {
    items.map_values(|p: Placed| p@)
}

/// A foreground colour and nothing else.
pub open spec fn fg(color: Color) -> Style {
    Style { fg: Some(color), bg: None, bold: false }
}

/// A foreground colour in bold.
pub open spec fn bold(color: Color) -> Style {
    Style { fg: Some(color), bg: None, bold: true }
}

/// Nothing in particular.
pub open spec fn unstyled() -> Style {
    Style { fg: None, bg: None, bold: false }
}

/// A text in one style.
pub open spec fn styled(text: Seq<char>, style: Style) -> SpanView {
    SpanView { text, style }
}

/// A border without a title.
pub open spec fn border(color: Color) -> BlockView {
    BlockView {
        title: None,
        title_style: unstyled(),
        bordered: true,
        border_style: fg(color),
    }
}

/// A dark border with a title in bold cyan.
pub open spec fn titled(title: Seq<char>) -> BlockView {
    BlockView {
        title: Some(title),
        title_style: bold(Color::Cyan),
        bordered: true,
        border_style: fg(Color::DarkGray),
    }
}

/// A title without a border.
pub open spec fn caption(title: Seq<char>, color: Color) -> BlockView {
    BlockView {
        title: Some(title),
        title_style: fg(color),
        bordered: false,
        border_style: unstyled(),
    }
}

/// A foreground colour and nothing else.
fn fg_style(color: Color) -> (r: Style)
    ensures
        r == fg(color),
{
    Style { fg: Some(color), bg: None, bold: false }
}

/// A foreground colour in bold.
fn bold_style(color: Color) -> (r: Style)
    ensures
        r == bold(color),
{
    Style { fg: Some(color), bg: None, bold: true }
}

/// Nothing in particular.
fn no_style() -> (r: Style)
    ensures
        r == unstyled(),
{
    Style { fg: None, bg: None, bold: false }
}

/// A text in one style.
fn span(text: &str, style: Style) -> (r: Span)
    ensures
        r@ == styled(text@, style),
{
    Span { text: text.to_owned(), style }
}

/// A border without a title.
fn border_block(color: Color) -> (r: Block)
    ensures
        r@ == border(color),
{
    Block { title: None, title_style: no_style(), bordered: true, border_style: fg_style(color) }
}

/// A dark border with a title in bold cyan.
fn titled_block(title: &str) -> (r: Block)
    ensures
        r@ == titled(title@),
{
    Block {
        title: Some(title.to_owned()),
        title_style: bold_style(Color::Cyan),
        bordered: true,
        border_style: fg_style(Color::DarkGray),
    }
}

/// A title without a border.
fn caption_block(title: &str, color: Color) -> (r: Block)
    ensures
        r@ == caption(title@, color),
{
    Block {
        title: Some(title.to_owned()),
        title_style: fg_style(color),
        bordered: false,
        border_style: no_style(),
    }
}

// ── Title ──────────────────────────────────────────────────────────

/// The name of the mode.
pub open spec fn mode_text(keyboard_mode: bool) -> Seq<char> {
    if keyboard_mode {
        "[Keyboard]"@
    } else {
        "[Vocoder]"@
    }
}

/// The title bar: the program's name and the mode.
pub open spec fn title_view(app: App, area: Area) -> PlacedView {
    PlacedView {
        widget: WidgetView::Paragraph {
            lines: seq![
                seq![
                    styled(" ✦ "@, bold(Color::Magenta)),
                    styled("vocoder"@, bold(Color::Cyan)),
                    styled(" ✦ "@, bold(Color::Magenta)),
                    styled(mode_text(app.config.keyboard_mode), fg(Color::Yellow)),
                ],
            ],
            block: border(Color::Magenta),
            centered: true,
        },
        area,
    }
}

/// The title bar.
pub fn render_title(app: &App, area: Area) -> (r: Placed)
    ensures
        r@ == title_view(*app, area),
{
    let mode = if app.config.keyboard_mode {
        "[Keyboard]"
    } else {
        "[Vocoder]"
    };
    let line = vec![
        span(" ✦ ", bold_style(Color::Magenta)),
        span("vocoder", bold_style(Color::Cyan)),
        span(" ✦ ", bold_style(Color::Magenta)),
        span(mode, fg_style(Color::Yellow)),
    ];
    let r = Placed {
        widget: Widget::Paragraph {
            lines: vec![line],
            block: border_block(Color::Magenta),
            centered: true,
        },
        area,
    };
    proof {
        assert(r@ =~~= title_view(*app, area));
    }
    r
}

// ── Configuration ──────────────────────────────────────────────────

/// The entry of one field: its name, filled up to a column, and its value.
pub open spec fn config_line(app: App, field: ConfigField) -> Seq<SpanView> {
    seq![
        styled(
            " "@ + crate::text::pad_right(field.label_text(), 16),
            fg(Color::White),
        ),
        styled("◄ "@ + field.value_text(app.config) + " ►"@, fg(Color::Yellow)),
    ]
}

/// The configuration panel: an entry for each field, the selected one
/// highlighted.
pub open spec fn config_view(app: App, area: Area) -> PlacedView {
    PlacedView {
        widget: WidgetView::List {
            items: CONFIG_FIELDS@.map_values(|field: ConfigField| config_line(app, field)),
            block: titled(" ⚙  Configuration "@),
            highlight_style: Style {
                fg: Some(Color::White),
                bg: Some(Color::DarkGray),
                bold: true,
            },
            highlight_symbol: "▶ "@,
            selected: app.list_state,
        },
        area,
    }
}

/// The entry of one field.
fn config_entry(app: &App, field: ConfigField) -> (r: Vec<Span>)
    ensures
        line_view(r@) == config_line(*app, field),
{
    let label = pad_right_string(field.label(), 16);
    let value = field.display_value(&app.config);
    let mut shown = concat("◄ ", value.as_str());
    shown.append(" ►");
    let name = concat(" ", label.as_str());
    let r = vec![
        span(name.as_str(), fg_style(Color::White)),
        span(shown.as_str(), fg_style(Color::Yellow)),
    ];
    proof {
        assert(line_view(r@) =~~= config_line(*app, field));
    }
    r
}

/// The configuration panel.
pub fn render_config(app: &App, area: Area) -> (r: Placed)
    ensures
        r@ == config_view(*app, area),
{
    let mut items: Vec<Vec<Span>> = Vec::new();
    let mut i: usize = 0;
    while i < CONFIG_FIELDS.len()
        invariant
            i <= CONFIG_FIELDS@.len(),
            items@.len() == i,
            forall|j: int|
                0 <= j < i ==> line_view((#[trigger] items@[j])@) == config_line(
                    *app,
                    CONFIG_FIELDS@[j],
                ),
        decreases CONFIG_FIELDS@.len() - i,
    {
        items.push(config_entry(app, CONFIG_FIELDS[i]));
        i = i + 1;
    }
    let r = Placed {
        widget: Widget::List {
            items,
            block: titled_block(" ⚙  Configuration "),
            highlight_style: Style {
                fg: Some(Color::White),
                bg: Some(Color::DarkGray),
                bold: true,
            },
            highlight_symbol: "▶ ".to_owned(),
            selected: app.list_state,
        },
        area,
    };
    proof {
        assert(r@ =~~= config_view(*app, area));
    }
    r
}

// ── Status ─────────────────────────────────────────────────────────

/// A light that is on or off, with its name and what it says.
pub open spec fn light_line(
    on: bool,
    name: Seq<char>,
    when_on: Seq<char>,
    when_off: Seq<char>,
) -> Seq<SpanView> {
    if on {
        seq![
            styled(" ● "@ + name, fg(Color::Green)),
            styled(when_on, fg(Color::Green)),
        ]
    } else {
        seq![
            styled(" ○ "@ + name, fg(Color::Red)),
            styled(when_off, fg(Color::Red)),
        ]
    }
}

/// The connection panel.
pub open spec fn connection_view(app: App, area: Area) -> PlacedView {
    PlacedView {
        widget: WidgetView::Paragraph {
            lines: seq![
                light_line(app.status.audio_running, "Audio  "@, "Running"@, "Stopped"@),
                light_line(app.status.midi_connected, "MIDI   "@, "Connected"@, "Disconnected"@),
            ],
            block: titled(" ♪  Status "@),
            centered: false,
        },
        area,
    }
}

/// A light with its name and what it says.
fn light(on: bool, name: &str, when_on: &str, when_off: &str) -> (r: Vec<Span>)
    ensures
        line_view(r@) == light_line(on, name@, when_on@, when_off@),
{
    let color = if on {
        Color::Green
    } else {
        Color::Red
    };
    let text = concat(
        if on {
            " ● "
        } else {
            " ○ "
        },
        name,
    );
    let says = if on {
        when_on
    } else {
        when_off
    };
    let r = vec![span(text.as_str(), fg_style(color)), span(says, fg_style(color))];
    proof {
        assert(line_view(r@) =~~= light_line(on, name@, when_on@, when_off@));
    }
    r
}

/// The connection panel.
pub fn render_connection_status(app: &App, area: Area) -> (r: Placed)
    ensures
        r@ == connection_view(*app, area),
{
    let r = Placed {
        widget: Widget::Paragraph {
            lines: vec![
                light(app.status.audio_running, "Audio  ", "Running", "Stopped"),
                light(app.status.midi_connected, "MIDI   ", "Connected", "Disconnected"),
            ],
            block: titled_block(" ♪  Status "),
            centered: false,
        },
        area,
    };
    proof {
        assert(r@ =~~= connection_view(*app, area));
    }
    r
}

/// A level of 1, in millionths.
pub const FULL: u32 = 1_000_000;

/// A level meter: the bar goes from nothing to the full level, the label says
/// the level as it is, rounded to whole percent.
pub open spec fn gauge_view(
    title: Seq<char>,
    color: Color,
    level: i32,
    area: Area,
) -> PlacedView {
    PlacedView {
        widget: WidgetView::Gauge {
            block: caption(title, color),
            style: Style { fg: Some(color), bg: Some(Color::Black), bold: true },
            ratio: crate::num::limited(level as int, 0, FULL as int) as u32,
            label: crate::tui::minus(level as int) + crate::text::decimal(
                crate::num::rounded(crate::num::magnitude(level as int), 10_000),
            ) + "%"@,
        },
        area,
    }
}

/// The level panel: what was there is cleared, then come the frame and the two
/// meters, in the two parts of the frame's inside.
pub open spec fn levels_view(app: App, area: Area, parts: Seq<Area>) -> Seq<PlacedView> {
    seq![
        PlacedView { widget: WidgetView::Clear, area },
        PlacedView { widget: WidgetView::Frame { block: titled(" 🎚  Levels "@) }, area },
        gauge_view("  In "@, Color::Green, app.status.input_level, parts[0]),
        gauge_view(" Out "@, Color::Magenta, app.status.output_level, parts[1]),
    ]
}

/// A level meter.
fn gauge(title: &str, color: Color, level: i32, area: Area) -> (r: Placed)
    ensures
        r@ == gauge_view(title@, color, level, area),
{
    let number = decimal_string(round_div(unsigned(level) as u32, 10_000));
    let mut label = concat(
        if level < 0 {
            "-"
        } else {
            ""
        },
        number.as_str(),
    );
    label.append("%");
    Placed {
        widget: Widget::Gauge {
            block: caption_block(title, color),
            style: Style { fg: Some(color), bg: Some(Color::Black), bold: true },
            ratio: limit(level as i64, 0, FULL as i64) as u32,
            label,
        },
        area,
    }
}

/// The level panel, with the parts of its inside for the two meters.
pub fn place_levels(app: &App, area: Area, parts: &Vec<Area>) -> (r: Vec<Placed>)
    requires
        parts@.len() == 2,
    ensures
        placed_views(r@) == levels_view(*app, area, parts@),
{
    let r = vec![
        Placed { widget: Widget::Clear, area },
        Placed { widget: Widget::Frame { block: titled_block(" 🎚  Levels ") }, area },
        gauge("  In ", Color::Green, app.status.input_level, parts[0]),
        gauge(" Out ", Color::Magenta, app.status.output_level, parts[1]),
    ];
    proof {
        assert(placed_views(r@) =~~= levels_view(*app, area, parts@));
    }
    r
}

/// Two halves.
pub open spec fn halves() -> Seq<Constraint> {
    seq![Constraint::Percentage(50), Constraint::Percentage(50)]
}

/// The level panel as it is drawn in an area, whichever way its inside is
/// divided.
pub open spec fn levels_drawn(app: App, area: Area, items: Seq<PlacedView>) -> bool {
    exists|parts: Seq<Area>|
        {
            &&& #[trigger] divides(Direction::Vertical, halves(), inner(area, 1, 1), parts)
            &&& items == levels_view(app, area, parts)
        }
}

/// The level panel.
pub fn render_levels(app: &App, area: Area) -> (r: Vec<Placed>)
    ensures
        levels_drawn(*app, area, placed_views(r@)),
{
    let constraints = vec![Constraint::Percentage(50), Constraint::Percentage(50)];
    let parts = split_area(Direction::Vertical, &constraints, inner_area(area, 1, 1));
    proof {
        assert(constraints@ =~= halves());
        assert(divides(Direction::Vertical, halves(), inner(area, 1, 1), parts@));
    }
    place_levels(app, area, &parts)
}

/// The number of cells of the load bar.
pub const BAR_CELLS: u32 = 20;

/// The colour of a load: green below a half, yellow below four fifths.
pub open spec fn load_color(cpu_usage: i32) -> Color {
    if cpu_usage < 500_000 {
        Color::Green
    } else if cpu_usage < 800_000 {
        Color::Yellow
    } else {
        Color::Red
    }
}

/// The load as it is shown: none where it is negative.
pub open spec fn shown_load(cpu_usage: i32) -> nat {
    if cpu_usage < 0 {
        0
    } else {
        cpu_usage as nat
    }
}

/// The cells of the load bar that are filled.
pub open spec fn filled(cpu_usage: i32) -> nat {
    (shown_load(cpu_usage) * BAR_CELLS as nat) / FULL as nat
}

/// The load: the number in whole percent and a bar.
pub open spec fn cpu_line(cpu_usage: i32) -> Seq<SpanView> {
    let color = load_color(cpu_usage);
    seq![
        styled(" CPU "@, fg(Color::White)),
        styled(
            crate::text::pad_left(crate::text::decimal(shown_load(cpu_usage) / 10_000), 3) + "% "@,
            bold(color),
        ),
        styled(crate::text::repeated('▰', filled(cpu_usage)), fg(color)),
        styled(
            crate::text::repeated('▱', (BAR_CELLS - filled(cpu_usage)) as nat),
            fg(Color::DarkGray),
        ),
    ]
}

/// The names of the notes that sound.
pub open spec fn notes_text(notes: Seq<String>) -> Seq<char> {
    if notes.len() == 0 {
        "---"@
    } else {
        crate::text::joined(crate::text::texts(notes), ", "@)
    }
}

/// The notes that sound.
pub open spec fn note_line(notes: Seq<String>) -> Seq<SpanView> {
    seq![
        styled(" Note "@, fg(Color::White)),
        styled("♫ "@ + notes_text(notes), bold(Color::Yellow)),
    ]
}

/// The panel of the load and the notes.
pub open spec fn cpu_and_note_view(app: App, area: Area) -> PlacedView {
    PlacedView {
        widget: WidgetView::Paragraph {
            lines: seq![cpu_line(app.status.cpu_usage), note_line(app.status.active_notes@)],
            block: border(Color::DarkGray),
            centered: false,
        },
        area,
    }
}

/// The bar has room for the load.
pub open spec fn load_fits(app: App) -> bool {
    filled(app.status.cpu_usage) <= BAR_CELLS
}

/// The load as it is shown.
fn load_of(cpu_usage: i32) -> (r: u64)
    ensures
        r == shown_load(cpu_usage),
        r <= i32::MAX,
{
    if cpu_usage < 0 {
        0
    } else {
        cpu_usage as u64
    }
}

/// The cells of the load bar that a load fills.
fn filled_cells(load: u64) -> (r: u64)
    requires
        load <= i32::MAX,
    ensures
        r == (load as nat * BAR_CELLS as nat) / FULL as nat,
{
    assert(load * BAR_CELLS == load * 20);
    load * BAR_CELLS as u64 / FULL as u64
}

/// Whether the bar has room for the load, so that the screen can be drawn.
pub fn can_draw(app: &App) -> (r: bool)
    ensures
        r == load_fits(*app),
{
    filled_cells(load_of(app.status.cpu_usage)) <= BAR_CELLS as u64
}

/// The load.
fn cpu_spans(cpu_usage: i32) -> (r: Vec<Span>)
    requires
        filled(cpu_usage) <= BAR_CELLS,
    ensures
        line_view(r@) == cpu_line(cpu_usage),
{
    let color = if cpu_usage < 500_000 {
        Color::Green
    } else if cpu_usage < 800_000 {
        Color::Yellow
    } else {
        Color::Red
    };
    let load: u64 = load_of(cpu_usage);
    let number = decimal_string(load / 10_000);
    let mut percent = pad_left_string(number.as_str(), 3);
    percent.append("% ");
    let full: usize = filled_cells(load) as usize;
    let rest: usize = BAR_CELLS as usize - full;
    proof {
        reveal_strlit("▰");
        reveal_strlit("▱");
    }
    let done = repeat("▰", full);
    let open = repeat("▱", rest);
    let r = vec![
        span(" CPU ", fg_style(Color::White)),
        span(percent.as_str(), bold_style(color)),
        span(done.as_str(), fg_style(color)),
        span(open.as_str(), fg_style(Color::DarkGray)),
    ];
    proof {
        assert(line_view(r@) =~~= cpu_line(cpu_usage));
    }
    r
}

/// The notes that sound.
fn note_spans(notes: &Vec<String>) -> (r: Vec<Span>)
    ensures
        line_view(r@) == note_line(notes@),
{
    let names = if notes.len() == 0 {
        "---".to_owned()
    } else {
        join(notes, ", ")
    };
    let shown = concat("♫ ", names.as_str());
    let r = vec![
        span(" Note ", fg_style(Color::White)),
        span(shown.as_str(), bold_style(Color::Yellow)),
    ];
    proof {
        assert(line_view(r@) =~~= note_line(notes@));
    }
    r
}

/// The panel of the load and the notes. The load must not be more than the bar
/// has room for.
pub fn render_cpu_and_note(app: &App, area: Area) -> (r: Placed)
    requires
        load_fits(*app),
    ensures
        r@ == cpu_and_note_view(*app, area),
{
    let r = Placed {
        widget: Widget::Paragraph {
            lines: vec![cpu_spans(app.status.cpu_usage), note_spans(&app.status.active_notes)],
            block: border_block(Color::DarkGray),
            centered: false,
        },
        area,
    };
    proof {
        assert(r@ =~~= cpu_and_note_view(*app, area));
    }
    r
}

// ── Help ───────────────────────────────────────────────────────────

/// The help bar: the keys and what they do.
pub open spec fn help_view(area: Area) -> PlacedView {
    PlacedView {
        widget: WidgetView::Paragraph {
            lines: seq![
                seq![
                    styled(" ↑/k ↓/j "@, fg(Color::DarkGray)),
                    styled("navigate  "@, fg(Color::Gray)),
                    styled("←/h →/l "@, fg(Color::DarkGray)),
                    styled("adjust  "@, fg(Color::Gray)),
                    styled("q/Esc "@, fg(Color::DarkGray)),
                    styled("quit"@, fg(Color::Gray)),
                ],
            ],
            block: border(Color::DarkGray),
            centered: true,
        },
        area,
    }
}

/// The help bar.
pub fn render_help(area: Area) -> (r: Placed)
    ensures
        r@ == help_view(area),
{
    let line = vec![
        span(" ↑/k ↓/j ", fg_style(Color::DarkGray)),
        span("navigate  ", fg_style(Color::Gray)),
        span("←/h →/l ", fg_style(Color::DarkGray)),
        span("adjust  ", fg_style(Color::Gray)),
        span("q/Esc ", fg_style(Color::DarkGray)),
        span("quit", fg_style(Color::Gray)),
    ];
    let r = Placed {
        widget: Widget::Paragraph {
            lines: vec![line],
            block: border_block(Color::DarkGray),
            centered: true,
        },
        area,
    };
    proof {
        assert(r@ =~~= help_view(area));
    }
    r
}

// ── The whole screen ───────────────────────────────────────────────

/// The rows of the status column: connections, levels, and the rest.
pub open spec fn status_rows() -> Seq<Constraint> {
    seq![Constraint::Length(4), Constraint::Length(4), Constraint::Min(0)]
}

/// The rows of the screen: title, body and help.
pub open spec fn screen_rows() -> Seq<Constraint> {
    seq![Constraint::Length(3), Constraint::Min(0), Constraint::Length(3)]
}

/// The status column, given its rows and what the level panel shows.
pub open spec fn status_view(app: App, rows: Seq<Area>, levels: Seq<PlacedView>) -> Seq<
    PlacedView,
> {
    seq![connection_view(app, rows[0])] + levels + seq![cpu_and_note_view(app, rows[2])]
}

/// The status column as it is drawn in an area, whichever way that is divided.
pub open spec fn status_drawn(app: App, area: Area, items: Seq<PlacedView>) -> bool {
    exists|rows: Seq<Area>, levels: Seq<PlacedView>|
        {
            &&& #[trigger] divides(Direction::Vertical, status_rows(), area, rows)
            &&& #[trigger] levels_drawn(app, rows[1], levels)
            &&& items == status_view(app, rows, levels)
        }
}

/// The body as it is drawn in an area, whichever way that is divided: the
/// configuration on the left, the status on the right.
pub open spec fn body_drawn(app: App, area: Area, items: Seq<PlacedView>) -> bool {
    exists|columns: Seq<Area>, status: Seq<PlacedView>|
        {
            &&& #[trigger] divides(Direction::Horizontal, halves(), area, columns)
            &&& #[trigger] status_drawn(app, columns[1], status)
            &&& items == body_view(app, columns, status)
        }
}

/// The screen as it is drawn in an area, whichever way that is divided.
pub open spec fn drawn(app: App, area: Area, items: Seq<PlacedView>) -> bool {
    exists|rows: Seq<Area>, body: Seq<PlacedView>|
        {
            &&& #[trigger] divides(Direction::Vertical, screen_rows(), area, rows)
            &&& #[trigger] body_drawn(app, rows[1], body)
            &&& items == screen_view(app, rows, body)
        }
}

/// The body, given its columns and what the status column shows.
pub open spec fn body_view(app: App, columns: Seq<Area>, status: Seq<PlacedView>) -> Seq<
    PlacedView,
> {
    seq![config_view(app, columns[0])] + status
}

/// The screen, given its rows and what the body shows.
pub open spec fn screen_view(app: App, rows: Seq<Area>, body: Seq<PlacedView>) -> Seq<PlacedView> {
    seq![title_view(app, rows[0])] + body + seq![help_view(rows[2])]
}

/// Puts the other panels of the status column round the level panel.
pub fn place_status(app: &App, rows: &Vec<Area>, levels: Vec<Placed>) -> (r: Vec<Placed>)
    requires
        load_fits(*app),
        rows@.len() == 3,
    ensures
        placed_views(r@) == status_view(*app, rows@, placed_views(levels@)),
{
    let mut levels = levels;
    let ghost shown = placed_views(levels@);
    let mut r = vec![render_connection_status(app, rows[0])];
    r.append(&mut levels);
    r.push(render_cpu_and_note(app, rows[2]));
    proof {
        assert(placed_views(r@) =~= status_view(*app, rows@, shown));
    }
    r
}

/// Puts the configuration panel before the status column.
pub fn place_body(app: &App, columns: &Vec<Area>, status: Vec<Placed>) -> (r: Vec<Placed>)
    requires
        columns@.len() == 2,
    ensures
        placed_views(r@) == body_view(*app, columns@, placed_views(status@)),
{
    let mut status = status;
    let ghost shown = placed_views(status@);
    let mut r = vec![render_config(app, columns[0])];
    r.append(&mut status);
    proof {
        assert(placed_views(r@) =~= body_view(*app, columns@, shown));
    }
    r
}

/// Puts the title before the body and the help after it.
pub fn place_screen(app: &App, rows: &Vec<Area>, body: Vec<Placed>) -> (r: Vec<Placed>)
    requires
        rows@.len() == 3,
    ensures
        placed_views(r@) == screen_view(*app, rows@, placed_views(body@)),
{
    let mut body = body;
    let ghost shown = placed_views(body@);
    let mut r = vec![render_title(app, rows[0])];
    r.append(&mut body);
    r.push(render_help(rows[2]));
    proof {
        assert(placed_views(r@) =~= screen_view(*app, rows@, shown));
    }
    r
}

/// The status column. The load must not be more than its bar has room for.
pub fn render_status(app: &App, area: Area) -> (r: Vec<Placed>)
    requires
        load_fits(*app),
    ensures
        status_drawn(*app, area, placed_views(r@)),
{
    let constraints = vec![Constraint::Length(4), Constraint::Length(4), Constraint::Min(0)];
    let rows = split_area(Direction::Vertical, &constraints, area);
    let levels = render_levels(app, rows[1]);
    proof {
        assert(constraints@ =~= status_rows());
        assert(divides(Direction::Vertical, status_rows(), area, rows@));
        assert(levels_drawn(*app, rows@[1], placed_views(levels@)));
    }
    place_status(app, &rows, levels)
}

/// The body. The load must not be more than its bar has room for.
pub fn render_body(app: &App, area: Area) -> (r: Vec<Placed>)
    requires
        load_fits(*app),
    ensures
        body_drawn(*app, area, placed_views(r@)),
{
    let constraints = vec![Constraint::Percentage(50), Constraint::Percentage(50)];
    let columns = split_area(Direction::Horizontal, &constraints, area);
    let status = render_status(app, columns[1]);
    proof {
        assert(constraints@ =~= halves());
        assert(divides(Direction::Horizontal, halves(), area, columns@));
        assert(status_drawn(*app, columns@[1], placed_views(status@)));
    }
    place_body(app, &columns, status)
}

/// The screen, in the order in which it is drawn. The load must not be more
/// than its bar has room for.
pub fn draw(app: &App, area: Area) -> (r: Vec<Placed>)
    requires
        load_fits(*app),
    ensures
        drawn(*app, area, placed_views(r@)),
{
    let constraints = vec![Constraint::Length(3), Constraint::Min(0), Constraint::Length(3)];
    let rows = split_area(Direction::Vertical, &constraints, area);
    let body = render_body(app, rows[1]);
    proof {
        assert(constraints@ =~= screen_rows());
        assert(divides(Direction::Vertical, screen_rows(), area, rows@));
        assert(body_drawn(*app, rows@[1], placed_views(body@)));
    }
    place_screen(app, &rows, body)
}

// ── Laws ───────────────────────────────────────────────────────────

/// A part that stays within an area, or that has no cells at all.
pub open spec fn fits(part: Area, area: Area) -> bool {
    ||| part.width == 0
    ||| part.height == 0
    ||| {
        &&& area.x <= part.x
        &&& area.y <= part.y
        &&& part.x + part.width <= area.x + area.width
        &&& part.y + part.height <= area.y + area.height
    }
}

/// Every item fits into an area.
pub open spec fn all_fit(items: Seq<PlacedView>, area: Area) -> bool {
    forall|i: int| 0 <= i < items.len() ==> fits((#[trigger] items[i]).area, area)
}

/// What fits into a part of an area fits into the area.
proof fn lemma_fits_further(items: Seq<PlacedView>, part: Area, area: Area)
    requires
        all_fit(items, part),
        fits(part, area),
    ensures
        all_fit(items, area),
{
    assert forall|i: int| 0 <= i < items.len() implies fits((#[trigger] items[i]).area, area) by {
        assert(fits(items[i].area, part));
    }
}

/// The parts of a division fit into the divided area.
proof fn lemma_parts_fit(direction: Direction, constraints: Seq<Constraint>, area: Area, parts: Seq<
    Area,
>, i: int)
    requires
        divides(direction, constraints, area, parts),
        0 <= i < constraints.len(),
    ensures
        fits(parts[i], area),
{
    assert(spans(direction, parts[i], area));
}

/// What is drawn for the levels fits into their area.
pub proof fn law_levels_fit(app: App, area: Area, items: Seq<PlacedView>)
    requires
        levels_drawn(app, area, items),
    ensures
        all_fit(items, area),
{
    let inside = inner(area, 1, 1);
    let parts = choose|parts: Seq<Area>|
        {
            &&& #[trigger] divides(Direction::Vertical, halves(), inside, parts)
            &&& items == levels_view(app, area, parts)
        };
    assert(spans(Direction::Vertical, parts[0], inside));
    assert(spans(Direction::Vertical, parts[1], inside));
}

/// What is drawn for the status fits into its area.
pub proof fn law_status_fits(app: App, area: Area, items: Seq<PlacedView>)
    requires
        status_drawn(app, area, items),
    ensures
        all_fit(items, area),
{
    let (rows, levels) = choose|rows: Seq<Area>, levels: Seq<PlacedView>|
        {
            &&& #[trigger] divides(Direction::Vertical, status_rows(), area, rows)
            &&& #[trigger] levels_drawn(app, rows[1], levels)
            &&& items == status_view(app, rows, levels)
        };
    law_levels_fit(app, rows[1], levels);
    lemma_parts_fit(Direction::Vertical, status_rows(), area, rows, 0);
    lemma_parts_fit(Direction::Vertical, status_rows(), area, rows, 1);
    lemma_parts_fit(Direction::Vertical, status_rows(), area, rows, 2);
    lemma_fits_further(levels, rows[1], area);
    assert forall|i: int| 0 <= i < items.len() implies fits((#[trigger] items[i]).area, area) by {
        if 1 <= i < items.len() - 1 {
            assert(items[i] == levels[i - 1]);
        }
    }
}

/// What is drawn for the body fits into its area.
pub proof fn law_body_fits(app: App, area: Area, items: Seq<PlacedView>)
    requires
        body_drawn(app, area, items),
    ensures
        all_fit(items, area),
{
    let (columns, status) = choose|columns: Seq<Area>, status: Seq<PlacedView>|
        {
            &&& #[trigger] divides(Direction::Horizontal, halves(), area, columns)
            &&& #[trigger] status_drawn(app, columns[1], status)
            &&& items == body_view(app, columns, status)
        };
    law_status_fits(app, columns[1], status);
    lemma_parts_fit(Direction::Horizontal, halves(), area, columns, 0);
    lemma_parts_fit(Direction::Horizontal, halves(), area, columns, 1);
    lemma_fits_further(status, columns[1], area);
    assert forall|i: int| 0 <= i < items.len() implies fits((#[trigger] items[i]).area, area) by {
        if i >= 1 {
            assert(items[i] == status[i - 1]);
        }
    }
}

/// Nothing is drawn outside the screen.
pub proof fn law_screen_fits(app: App, area: Area, items: Seq<PlacedView>)
    requires
        drawn(app, area, items),
    ensures
        all_fit(items, area),
{
    let (rows, body) = choose|rows: Seq<Area>, body: Seq<PlacedView>|
        {
            &&& #[trigger] divides(Direction::Vertical, screen_rows(), area, rows)
            &&& #[trigger] body_drawn(app, rows[1], body)
            &&& items == screen_view(app, rows, body)
        };
    law_body_fits(app, rows[1], body);
    lemma_parts_fit(Direction::Vertical, screen_rows(), area, rows, 0);
    lemma_parts_fit(Direction::Vertical, screen_rows(), area, rows, 1);
    lemma_parts_fit(Direction::Vertical, screen_rows(), area, rows, 2);
    lemma_fits_further(body, rows[1], area);
    assert forall|i: int| 0 <= i < items.len() implies fits((#[trigger] items[i]).area, area) by {
        if 1 <= i < items.len() - 1 {
            assert(items[i] == body[i - 1]);
        }
    }
}

/// The first half of `n` cells; the odd one goes to it.
pub open spec fn first_half(n: u16) -> u16 {
    ((n + 1) / 2) as u16
}

/// The second half of `n` cells.
pub open spec fn second_half(n: u16) -> u16 {
    (n / 2) as u16
}

/// Two halves always share an area without a gap; the odd cell goes to the
/// first.
pub proof fn law_halves(direction: Direction, area: Area, parts: Seq<Area>)
    requires
        divides(direction, halves(), area, parts),
        ends_in_range(direction, area),
    ensures
        direction is Horizontal ==> parts == seq![
            Area { width: first_half(area.width), ..area },
            Area {
                x: (area.x + first_half(area.width)) as u16,
                width: second_half(area.width),
                ..area
            },
        ],
        direction is Vertical ==> parts == seq![
            Area { height: first_half(area.height), ..area },
            Area {
                y: (area.y + first_half(area.height)) as u16,
                height: second_half(area.height),
                ..area
            },
        ],
{
    reveal_with_fuel(percent_before, 3);
    let n = extent(direction, area);
    assert(percent_before(halves(), 0) == 0);
    assert(percent_before(halves(), 1) == 50);
    assert(percent_before(halves(), 2) == 100);
    assert(n * percent_before(halves(), 0) == n * 0);
    assert(n * percent_before(halves(), 1) == n * 50);
    assert(n * percent_before(halves(), 2) == n * 100);
    assert(spans(direction, parts[0], area));
    assert(spans(direction, parts[1], area));
    assert(start(direction, parts[0]) == share_edge(direction, halves(), area, 0));
    assert(start(direction, parts[1]) == share_edge(direction, halves(), area, 1));
    assert(parts =~= seq![parts[0], parts[1]]);
}

/// On a screen of at least six rows the title has the first three, the help the
/// last three, and the body all that is between.
pub proof fn law_screen_rows(area: Area, rows: Seq<Area>)
    requires
        divides(Direction::Vertical, screen_rows(), area, rows),
        area.y + area.height <= u16::MAX,
        area.height >= 6,
    ensures
        rows == seq![
            Area { height: 3, ..area },
            Area { y: (area.y + 3) as u16, height: (area.height - 6) as u16, ..area },
            Area { y: (area.y + area.height - 3) as u16, height: 3, ..area },
        ],
{
    reveal_with_fuel(cells_before, 4);
    let down = Direction::Vertical;
    assert(spans(down, rows[0], area));
    assert(spans(down, rows[1], area));
    assert(spans(down, rows[2], area));
    assert(has_room(screen_rows(), area.height as int));
    assert(start(down, rows[0]) == area.y);
    assert(start(down, rows[1]) == area.y + 3);
    assert(start(down, rows[2]) == area.y + area.height - 3);
    assert(rows =~= seq![rows[0], rows[1], rows[2]]);
}

/// In a column of at least eight rows the connections have the first four, the
/// levels the next four, and the load and the notes all that follow.
pub proof fn law_status_rows(area: Area, rows: Seq<Area>)
    requires
        divides(Direction::Vertical, status_rows(), area, rows),
        area.y + area.height <= u16::MAX,
        area.height >= 8,
    ensures
        rows == seq![
            Area { height: 4, ..area },
            Area { y: (area.y + 4) as u16, height: 4, ..area },
            Area { y: (area.y + 8) as u16, height: (area.height - 8) as u16, ..area },
        ],
{
    reveal_with_fuel(cells_before, 4);
    let down = Direction::Vertical;
    assert(spans(down, rows[0], area));
    assert(spans(down, rows[1], area));
    assert(spans(down, rows[2], area));
    assert(has_room(status_rows(), area.height as int));
    assert(start(down, rows[0]) == area.y);
    assert(start(down, rows[1]) == area.y + 4);
    assert(start(down, rows[2]) == area.y + 8);
    assert(rows =~= seq![rows[0], rows[1], rows[2]]);
}

/// The areas of the panels on a screen with room for all of them.
pub open spec fn panel_areas(area: Area) -> Seq<Area> {
    let left = first_half(area.width);
    let body = Area { y: (area.y + 3) as u16, height: (area.height - 6) as u16, ..area };
    let column = Area { x: (area.x + left) as u16, width: second_half(area.width), ..body };
    let levels = Area { y: (area.y + 7) as u16, height: 4, ..column };
    let meter = Area {
        x: (column.x + 1) as u16,
        y: (area.y + 8) as u16,
        width: (column.width - 2) as u16,
        height: 1,
    };
    seq![
        Area { height: 3, ..area },
        Area { width: left, ..body },
        Area { height: 4, ..column },
        levels,
        levels,
        meter,
        Area { y: (area.y + 9) as u16, ..meter },
        Area { y: (area.y + 11) as u16, height: (area.height - 14) as u16, ..column },
        Area { y: (area.y + area.height - 3) as u16, height: 3, ..area },
    ]
}

/// On a screen of at least fourteen rows and four columns every panel has its
/// place, down to the cell.
pub proof fn law_screen_layout(app: App, area: Area, items: Seq<PlacedView>)
    requires
        drawn(app, area, items),
        area.x + area.width <= u16::MAX,
        area.y + area.height <= u16::MAX,
        area.width >= 4,
        area.height >= 14,
    ensures
        items.map_values(|p: PlacedView| p.area) == panel_areas(area),
{
    let (rows, body) = choose|rows: Seq<Area>, body: Seq<PlacedView>|
        {
            &&& #[trigger] divides(Direction::Vertical, screen_rows(), area, rows)
            &&& #[trigger] body_drawn(app, rows[1], body)
            &&& items == screen_view(app, rows, body)
        };
    law_screen_rows(area, rows);
    let (columns, status) = choose|columns: Seq<Area>, status: Seq<PlacedView>|
        {
            &&& #[trigger] divides(Direction::Horizontal, halves(), rows[1], columns)
            &&& #[trigger] status_drawn(app, columns[1], status)
            &&& body == body_view(app, columns, status)
        };
    law_halves(Direction::Horizontal, rows[1], columns);
    let (panels, levels) = choose|panels: Seq<Area>, levels: Seq<PlacedView>|
        {
            &&& #[trigger] divides(Direction::Vertical, status_rows(), columns[1], panels)
            &&& #[trigger] levels_drawn(app, panels[1], levels)
            &&& status == status_view(app, panels, levels)
        };
    law_status_rows(columns[1], panels);
    let inside = inner(panels[1], 1, 1);
    let meters = choose|meters: Seq<Area>|
        {
            &&& #[trigger] divides(Direction::Vertical, halves(), inside, meters)
            &&& levels == levels_view(app, panels[1], meters)
        };
    law_halves(Direction::Vertical, inside, meters);
    assert(body =~= seq![config_view(app, columns[0]), status[0]] + levels + seq![status[5]]);
    assert(items =~= seq![
        title_view(app, rows[0]),
        config_view(app, columns[0]),
        connection_view(app, panels[0]),
        levels[0],
        levels[1],
        levels[2],
        levels[3],
        cpu_and_note_view(app, panels[2]),
        help_view(rows[2]),
    ]);
    assert(items.map_values(|p: PlacedView| p.area) =~= panel_areas(area));
}

/// Whatever the size of the screen, every panel is drawn, each in its place of
/// the order.
pub proof fn law_every_panel_is_drawn(app: App, area: Area, items: Seq<PlacedView>)
    requires
        drawn(app, area, items),
    ensures
        items.len() == 9,
        items[0] == title_view(app, items[0].area),
        items[1] == config_view(app, items[1].area),
        items[2] == connection_view(app, items[2].area),
        items[3].widget is Clear,
        items[4].widget is Frame,
        items[5] == gauge_view("  In "@, Color::Green, app.status.input_level, items[5].area),
        items[6] == gauge_view(" Out "@, Color::Magenta, app.status.output_level, items[6].area),
        items[7] == cpu_and_note_view(app, items[7].area),
        items[8] == help_view(items[8].area),
{
    let (rows, body) = choose|rows: Seq<Area>, body: Seq<PlacedView>|
        {
            &&& #[trigger] divides(Direction::Vertical, screen_rows(), area, rows)
            &&& #[trigger] body_drawn(app, rows[1], body)
            &&& items == screen_view(app, rows, body)
        };
    let (columns, status) = choose|columns: Seq<Area>, status: Seq<PlacedView>|
        {
            &&& #[trigger] divides(Direction::Horizontal, halves(), rows[1], columns)
            &&& #[trigger] status_drawn(app, columns[1], status)
            &&& body == body_view(app, columns, status)
        };
    let (parts, levels) = choose|parts: Seq<Area>, levels: Seq<PlacedView>|
        {
            &&& #[trigger] divides(Direction::Vertical, status_rows(), columns[1], parts)
            &&& #[trigger] levels_drawn(app, parts[1], levels)
            &&& status == status_view(app, parts, levels)
        };
    assert(levels.len() == 4);
    assert(status.len() == 6);
    assert(body.len() == 7);
    assert(body[0] == config_view(app, columns[0]));
    assert(body[1] == status[0]);
    assert(forall|i: int| 0 <= i < 4 ==> status[i + 1] == #[trigger] levels[i]);
    assert(items[1] == body[0]);
    assert(items[2] == status[0]);
    assert(items[3] == body[2] && body[2] == status[1] && status[1] == levels[0]);
    assert(items[4] == body[3] && body[3] == status[2] && status[2] == levels[1]);
    assert(items[5] == body[4] && body[4] == status[3] && status[3] == levels[2]);
    assert(items[6] == body[5] && body[5] == status[4] && status[4] == levels[3]);
    assert(items[7] == body[6] && body[6] == status[5]);
}

/// The load bar is always as long, and it has room exactly for a load of less
/// than one cell above full.
pub proof fn law_load_bar(cpu_usage: i32)
    ensures
        filled(cpu_usage) <= BAR_CELLS <==> cpu_usage < 1_050_000,
        filled(cpu_usage) <= BAR_CELLS ==> cpu_line(cpu_usage)[2].text.len()
            + cpu_line(cpu_usage)[3].text.len() == BAR_CELLS,
{
}

/// A meter never shows more than the full level, and up to there it shows the
/// level itself.
pub proof fn law_gauge_ratio(title: Seq<char>, color: Color, level: i32, area: Area)
    ensures
        gauge_view(title, color, level, area).widget matches WidgetView::Gauge { ratio, .. }
            && ratio <= FULL && (0 <= level <= FULL ==> ratio == level),
{
}

/// The name of every field is there and fits into its column, so that the
/// values stand below one another.
pub proof fn law_values_line_up(app: App, field: ConfigField)
    ensures
        field.label_text().len() > 0,
        config_line(app, field)[0].text.len() == 17,
{
    reveal_strlit(" ");
    reveal_strlit("Audio Input");
    reveal_strlit("Audio Output");
    reveal_strlit("MIDI Input");
    reveal_strlit("Sample Rate");
    reveal_strlit("Buffer Size");
    reveal_strlit("MIDI Channel");
    reveal_strlit("Formant Shift");
    reveal_strlit("Pitch Shift");
    reveal_strlit("Gain");
}

/// The title bar names the program and says the mode: Keyboard exactly in
/// keyboard mode, else Vocoder.
pub proof fn law_title_says_the_mode(app: App, area: Area)
    ensures
        title_view(app, area).area == area,
        title_view(app, area).widget is Paragraph,
        ({
            let lines = title_view(app, area).widget->Paragraph_lines;
            &&& lines.len() == 1
            &&& lines[0].len() == 4
            &&& lines[0][1].text == "vocoder"@
            &&& app.config.keyboard_mode ==> lines[0][3].text == "[Keyboard]"@
            &&& !app.config.keyboard_mode ==> lines[0][3].text == "[Vocoder]"@
        }),
{
}

/// The configuration panel has an entry for each field, in the order of the
/// fields: its name behind a blank, filled up to the same column, and then its
/// value between two arrows. The highlighted entry is the application's.
pub proof fn law_config_entries(app: App, area: Area, k: int)
    requires
        0 <= k < 9,
    ensures
        config_view(app, area).area == area,
        config_view(app, area).widget is List,
        config_view(app, area).widget->List_selected == app.list_state,
        config_view(app, area).widget->List_items.len() == 9,
        ({
            let entry = config_view(app, area).widget->List_items[k];
            let field = CONFIG_FIELDS@[k];
            let label = field.label_text();
            &&& entry.len() == 2
            &&& entry[0].text.len() == 17
            &&& entry[0].text[0] == ' '
            &&& entry[0].text.subrange(1, 1int + label.len()) == label
            &&& forall|i: int|
                1 + label.len() <= i < 17 ==> #[trigger] entry[0].text[i] == ' '
            &&& entry[1].text == "◄ "@ + field.value_text(app.config) + " ►"@
        }),
{
    let field = CONFIG_FIELDS@[k];
    let label = field.label_text();
    law_values_line_up(app, field);
    reveal_strlit(" ");
    let entry = config_line(app, field);
    crate::text::law_padding(label, 16);
    let padded = crate::text::pad_right(label, 16);
    assert(config_view(app, area).widget->List_items[k] == entry);
    assert(entry[0].text =~= " "@ + padded);
    assert(label.len() <= 16);
    assert(entry[0].text.subrange(1, 1int + label.len()) =~= label) by {
        assert forall|i: int| 0 <= i < label.len() implies entry[0].text[1 + i] == label[i] by {
            assert(padded.take(label.len() as int)[i] == padded[i]);
        }
    }
    assert forall|i: int| 1 + label.len() <= i < 17 implies #[trigger] entry[0].text[i] == ' ' by {
        assert(padded[i - 1] == ' ');
    }
}

/// The audio line says Running, in green, exactly if the audio runs, and else
/// Stopped, in red. The MIDI line says Connected, in green, exactly if MIDI is
/// connected, and else Disconnected, in red. Neither depends on the other.
pub proof fn law_connection_lines(app: App, area: Area)
    ensures
        connection_view(app, area).area == area,
        connection_view(app, area).widget is Paragraph,
        ({
            let lines = connection_view(app, area).widget->Paragraph_lines;
            &&& lines.len() == 2
            &&& lines[0].len() == 2
            &&& lines[1].len() == 2
            &&& app.status.audio_running ==> {
                &&& lines[0][0].text == " ● "@ + "Audio  "@
                &&& lines[0][1].text == "Running"@
                &&& lines[0][0].style.fg == Some(Color::Green)
                &&& lines[0][1].style.fg == Some(Color::Green)
            }
            &&& !app.status.audio_running ==> {
                &&& lines[0][0].text == " ○ "@ + "Audio  "@
                &&& lines[0][1].text == "Stopped"@
                &&& lines[0][0].style.fg == Some(Color::Red)
                &&& lines[0][1].style.fg == Some(Color::Red)
            }
            &&& app.status.midi_connected ==> {
                &&& lines[1][0].text == " ● "@ + "MIDI   "@
                &&& lines[1][1].text == "Connected"@
                &&& lines[1][0].style.fg == Some(Color::Green)
                &&& lines[1][1].style.fg == Some(Color::Green)
            }
            &&& !app.status.midi_connected ==> {
                &&& lines[1][0].text == " ○ "@ + "MIDI   "@
                &&& lines[1][1].text == "Disconnected"@
                &&& lines[1][0].style.fg == Some(Color::Red)
                &&& lines[1][1].style.fg == Some(Color::Red)
            }
        }),
{
}

/// A text that says a level in percent: with a minus where it is negative, off
/// by at most a half, and even where it is off by exactly that.
pub open spec fn says_percent(text: Seq<char>, sign: Seq<char>, size: int) -> bool {
    exists|n: int|
        {
            &&& 20_000 * n - 10_000 <= 2 * size <= 20_000 * n + 10_000
            &&& 2 * size == 20_000 * n + 10_000 || 2 * size == 20_000 * n - 10_000 ==> n % 2 == 0
            &&& #[trigger] crate::tui::shows(text, sign, n, "%"@)
        }
}

/// What a meter shows of a level: a bar from nothing at zero to full at one, and
/// a label with the level in percent.
pub open spec fn meters(widget: WidgetView, title: Seq<char>, color: Color, level: int) -> bool {
    &&& widget is Gauge
    &&& widget->Gauge_block.title == Some(title)
    &&& widget->Gauge_style.fg == Some(color)
    &&& 0 <= level <= 1_000_000 ==> widget->Gauge_ratio == level
    &&& level < 0 ==> widget->Gauge_ratio == 0
    &&& level > 1_000_000 ==> widget->Gauge_ratio == 1_000_000
    &&& level >= 0 ==> says_percent(widget->Gauge_label, ""@, level)
    &&& level < 0 ==> says_percent(widget->Gauge_label, "-"@, -level)
}

/// The level panel clears its area and frames it, and shows the input level in
/// the first part and the output level in the second, each by itself.
pub proof fn law_levels_show_both(app: App, area: Area, parts: Seq<Area>)
    ensures
        ({
            let items = levels_view(app, area, parts);
            &&& items.len() == 4
            &&& items[0].widget is Clear
            &&& items[0].area == area
            &&& items[1].widget is Frame
            &&& items[1].widget->Frame_block.title == Some(" 🎚  Levels "@)
            &&& items[1].area == area
            &&& meters(items[2].widget, "  In "@, Color::Green, app.status.input_level as int)
            &&& items[2].area == parts[0]
            &&& meters(items[3].widget, " Out "@, Color::Magenta, app.status.output_level as int)
            &&& items[3].area == parts[1]
        }),
{
    let items = levels_view(app, area, parts);
    lemma_meters("  In "@, Color::Green, app.status.input_level, parts[0]);
    lemma_meters(" Out "@, Color::Magenta, app.status.output_level, parts[1]);
}

/// A meter shows its level.
proof fn lemma_meters(title: Seq<char>, color: Color, level: i32, area: Area)
    ensures
        meters(gauge_view(title, color, level, area).widget, title, color, level as int),
{
    let widget = gauge_view(title, color, level, area).widget;
    let size = crate::num::magnitude(level as int);
    let n = crate::num::rounded(size, 10_000);
    crate::num::law_rounded(size, 10_000);
    crate::text::law_decimal(n);
    let number = crate::text::decimal(n);
    let before = if level < 0 {
        "-"@
    } else {
        ""@
    };
    assert(crate::text::writes(number, n as int));
    assert(widget->Gauge_label == before + number + "%"@);
    assert(crate::tui::shows(widget->Gauge_label, before, n as int, "%"@));
}

/// The load is shown in whole percent, rounded down, in at least three places,
/// and by a bar of twenty cells, one filled for each full twentieth. Both are
/// green below a half, yellow below four fifths, and else red. A negative load
/// is shown as none.
pub proof fn law_load_line(cpu_usage: i32)
    requires
        cpu_usage < 1_050_000,
    ensures
        ({
            let line = cpu_line(cpu_usage);
            let load = if cpu_usage < 0 {
                0
            } else {
                cpu_usage as int
            };
            let full = line[2].text.len();
            let rest = line[3].text.len();
            let color = line[1].style.fg;
            &&& line.len() == 4
            &&& line[0].text == " CPU "@
            &&& full * 50_000 <= load < (full + 1) * 50_000
            &&& full + rest == 20
            &&& forall|i: int| 0 <= i < full ==> #[trigger] line[2].text[i] == '▰'
            &&& forall|i: int| 0 <= i < rest ==> #[trigger] line[3].text[i] == '▱'
            &&& cpu_usage < 500_000 ==> color == Some(Color::Green)
            &&& 500_000 <= cpu_usage < 800_000 ==> color == Some(Color::Yellow)
            &&& 800_000 <= cpu_usage ==> color == Some(Color::Red)
            &&& line[2].style.fg == color
            &&& line[1].style.bold
            &&& line[3].style.fg == Some(Color::DarkGray)
            &&& exists|n: int, number: Seq<char>, blanks: nat|
                {
                    &&& n * 10_000 <= load < (n + 1) * 10_000
                    &&& #[trigger] crate::text::writes(number, n)
                    &&& blanks + number.len() == 3
                    &&& line[1].text == #[trigger] crate::text::repeated(' ', blanks) + number + "% "@
                }
        }),
{
    let load = shown_load(cpu_usage);
    let n = load / 10_000;
    let number = crate::text::decimal(n);
    crate::text::law_decimal(n);
    lemma_short_number(n);
    let blanks = crate::text::missing(number.len(), 3);
    let line = cpu_line(cpu_usage);
    assert(crate::text::writes(number, n as int));
    assert(line[1].text == crate::text::repeated(' ', blanks) + number + "% "@);
    assert(n * 10_000 <= load < (n + 1) * 10_000);
    assert(filled(cpu_usage) == load * 20 / 1_000_000);
}

/// A number below a thousand has at most three digits.
proof fn lemma_short_number(n: nat)
    requires
        n < 1000,
    ensures
        crate::text::decimal(n).len() <= 3,
{
    reveal_with_fuel(crate::text::decimal, 4);
}

/// The notes are shown in order with commas between them: three dashes where
/// there is none, one by itself, and each further one behind a comma.
pub proof fn law_note_line(notes: Seq<String>, next: String)
    ensures
        note_line(Seq::empty())[1].text == "♫ "@ + "---"@,
        note_line(seq![next])[1].text == "♫ "@ + next@,
        notes.len() > 0 ==> note_line(notes.push(next))[1].text == note_line(notes)[1].text + ", "@
            + next@,
        note_line(notes).len() == 2,
        note_line(notes)[0].text == " Note "@,
        note_line(notes)[1].style == note_line(Seq::empty())[1].style,
        note_line(notes)[0].style == note_line(Seq::empty())[0].style,
{
    let names = crate::text::texts(notes);
    crate::text::law_joined(names, ", "@, next@);
    assert(crate::text::texts(seq![next]) =~= seq![next@]);
    assert(crate::text::texts(notes.push(next)) =~= names.push(next@));
    if notes.len() > 0 {
        assert(note_line(notes.push(next))[1].text =~= note_line(notes)[1].text + ", "@ + next@);
    }
}

/// The panel of the load and the notes shows the one above the other.
pub proof fn law_load_and_notes(app: App, area: Area)
    ensures
        cpu_and_note_view(app, area).area == area,
        cpu_and_note_view(app, area).widget is Paragraph,
        cpu_and_note_view(app, area).widget->Paragraph_lines == seq![
            cpu_line(app.status.cpu_usage),
            note_line(app.status.active_notes@),
        ],
{
}

/// Each panel looks the same wherever it is drawn and whatever the rest of the
/// state is: the title depends on the mode alone, the configuration on the
/// configuration and the highlight, the connections on the two connections, the
/// meters on the two levels, the last panel on the load and the notes.
pub proof fn law_panels_are_independent(
    a: App,
    b: App,
    here: Area,
    there: Area,
    these: Seq<Area>,
    those: Seq<Area>,
)
    ensures
        a.config.keyboard_mode == b.config.keyboard_mode ==> title_view(a, here).widget
            == title_view(b, there).widget,
        a.config == b.config && a.list_state == b.list_state ==> config_view(a, here).widget
            == config_view(b, there).widget,
        a.status.audio_running == b.status.audio_running && a.status.midi_connected
            == b.status.midi_connected ==> connection_view(a, here).widget == connection_view(
            b,
            there,
        ).widget,
        a.status.input_level == b.status.input_level ==> levels_view(a, here, these)[2].widget
            == levels_view(b, there, those)[2].widget,
        a.status.output_level == b.status.output_level ==> levels_view(a, here, these)[3].widget
            == levels_view(b, there, those)[3].widget,
        levels_view(a, here, these)[1].widget == levels_view(b, there, those)[1].widget,
        a.status.cpu_usage == b.status.cpu_usage && a.status.active_notes@
            == b.status.active_notes@ ==> cpu_and_note_view(a, here).widget == cpu_and_note_view(
            b,
            there,
        ).widget,
        help_view(here).widget == help_view(there).widget,
        help_view(here).area == here,
{
    if a.config == b.config {
        assert(CONFIG_FIELDS@.map_values(|field: ConfigField| config_line(a, field))
            =~= CONFIG_FIELDS@.map_values(|field: ConfigField| config_line(b, field)));
    }
}

/// The looks of a panel do not change with what it shows: the frames, the
/// highlight, the spans of the title but the mode, and the styles of entries and
/// meters are always the same.
pub proof fn law_looks_are_fixed(a: App, b: App, area: Area, l: i32, m: i32)
    ensures
        ({
            let x = title_view(a, area).widget;
            let y = title_view(b, area).widget;
            &&& x->Paragraph_block == y->Paragraph_block
            &&& x->Paragraph_centered
            &&& y->Paragraph_centered
            &&& x->Paragraph_lines[0].take(3) == y->Paragraph_lines[0].take(3)
            &&& x->Paragraph_lines[0][3].style == y->Paragraph_lines[0][3].style
        }),
        ({
            let x = config_view(a, area).widget;
            let y = config_view(b, area).widget;
            &&& x->List_block == y->List_block
            &&& x->List_highlight_style == y->List_highlight_style
            &&& x->List_highlight_symbol == y->List_highlight_symbol
            &&& forall|k: int|
                0 <= k < 9 ==> (#[trigger] x->List_items[k])[0] == y->List_items[k][0]
                    && x->List_items[k][1].style == y->List_items[k][1].style
        }),
        ({
            let x = connection_view(a, area).widget;
            let y = connection_view(b, area).widget;
            &&& x->Paragraph_block == y->Paragraph_block
            &&& x->Paragraph_centered == y->Paragraph_centered
            &&& forall|i: int, j: int|
                0 <= i < 2 && 0 <= j < 2 ==> #[trigger] x->Paragraph_lines[i][j].style
                    == fg(x->Paragraph_lines[i][j].style.fg->0)
        }),
        ({
            let x = gauge_view("  In "@, Color::Green, l, area).widget;
            let y = gauge_view("  In "@, Color::Green, m, area).widget;
            &&& x->Gauge_block == y->Gauge_block
            &&& x->Gauge_style == y->Gauge_style
        }),
        ({
            let x = gauge_view(" Out "@, Color::Magenta, l, area).widget;
            let y = gauge_view(" Out "@, Color::Magenta, m, area).widget;
            &&& x->Gauge_block == y->Gauge_block
            &&& x->Gauge_style == y->Gauge_style
        }),
        ({
            let x = cpu_and_note_view(a, area).widget;
            let y = cpu_and_note_view(b, area).widget;
            &&& x->Paragraph_block == y->Paragraph_block
            &&& x->Paragraph_centered == y->Paragraph_centered
        }),
        cpu_line(l)[0] == cpu_line(m)[0],
        cpu_line(l)[3].style == cpu_line(m)[3].style,
        !cpu_line(l)[2].style.bold,
        cpu_line(l)[1].style == bold(cpu_line(l)[1].style.fg->0),
        cpu_line(l)[2].style == fg(cpu_line(l)[1].style.fg->0),
{
    let x = title_view(a, area).widget;
    let y = title_view(b, area).widget;
    assert(x->Paragraph_lines[0].take(3) =~= y->Paragraph_lines[0].take(3));
    let v = config_view(a, area).widget;
    let w = config_view(b, area).widget;
    assert forall|k: int| 0 <= k < 9 implies (#[trigger] v->List_items[k])[0] == w->List_items[k][0]
        && v->List_items[k][1].style == w->List_items[k][1].style by {
        assert(v->List_items[k] == config_line(a, CONFIG_FIELDS@[k]));
        assert(w->List_items[k] == config_line(b, CONFIG_FIELDS@[k]));
    }
}

/// A margin takes its cells off each side, where they are there to take; where
/// they are not, nothing is left.
pub proof fn law_margin(area: Area, h: u16, v: u16)
    requires
        area.x + area.width <= u16::MAX,
        area.y + area.height <= u16::MAX,
    ensures
        2 * h <= area.width && 2 * v <= area.height ==> {
            let r = inner(area, h, v);
            &&& r.x == area.x + h
            &&& r.y == area.y + v
            &&& r.x + r.width + h == area.x + area.width
            &&& r.y + r.height + v == area.y + area.height
        },
        2 * h <= u16::MAX && 2 * v <= u16::MAX && (2 * h > area.width || 2 * v > area.height)
            ==> inner(area, h, v) == (Area { x: 0, y: 0, width: 0, height: 0 }),
{
}

/// Where the panels stand, whatever the size of the screen: three rows of the
/// screen, two columns of the middle row, three rows of the right column, and
/// two rows inside the frame of the levels.
pub proof fn law_panels_stand_in_their_parts(app: App, area: Area, items: Seq<PlacedView>)
    requires
        drawn(app, area, items),
    ensures
        screen_rows() == seq![Constraint::Length(3), Constraint::Min(0), Constraint::Length(3)],
        status_rows() == seq![Constraint::Length(4), Constraint::Length(4), Constraint::Min(0)],
        halves() == seq![Constraint::Percentage(50), Constraint::Percentage(50)],
        exists|rows: Seq<Area>, columns: Seq<Area>, panels: Seq<Area>, inside: Seq<Area>|
            {
                &&& #[trigger] divides(
                    Direction::Vertical,
                    screen_rows(),
                    area,
                    rows,
                )
                &&& #[trigger] divides(
                    Direction::Horizontal,
                    halves(),
                    rows[1],
                    columns,
                )
                &&& #[trigger] divides(
                    Direction::Vertical,
                    status_rows(),
                    columns[1],
                    panels,
                )
                &&& #[trigger] divides(
                    Direction::Vertical,
                    halves(),
                    inner(panels[1], 1, 1),
                    inside,
                )
                &&& items.map_values(|p: PlacedView| p.area) == seq![
                    rows[0],
                    columns[0],
                    panels[0],
                    panels[1],
                    panels[1],
                    inside[0],
                    inside[1],
                    panels[2],
                    rows[2],
                ]
            },
{
    let (rows, body) = choose|rows: Seq<Area>, body: Seq<PlacedView>|
        {
            &&& #[trigger] divides(Direction::Vertical, screen_rows(), area, rows)
            &&& #[trigger] body_drawn(app, rows[1], body)
            &&& items == screen_view(app, rows, body)
        };
    let (columns, status) = choose|columns: Seq<Area>, status: Seq<PlacedView>|
        {
            &&& #[trigger] divides(Direction::Horizontal, halves(), rows[1], columns)
            &&& #[trigger] status_drawn(app, columns[1], status)
            &&& body == body_view(app, columns, status)
        };
    let (panels, levels) = choose|panels: Seq<Area>, levels: Seq<PlacedView>|
        {
            &&& #[trigger] divides(Direction::Vertical, status_rows(), columns[1], panels)
            &&& #[trigger] levels_drawn(app, panels[1], levels)
            &&& status == status_view(app, panels, levels)
        };
    let inside = choose|inside: Seq<Area>|
        {
            &&& #[trigger] divides(Direction::Vertical, halves(), inner(panels[1], 1, 1), inside)
            &&& levels == levels_view(app, panels[1], inside)
        };
    assert(body =~= seq![config_view(app, columns[0]), status[0]] + levels + seq![status[5]]);
    assert(items =~= seq![
        title_view(app, rows[0]),
        config_view(app, columns[0]),
        connection_view(app, panels[0]),
        levels[0],
        levels[1],
        levels[2],
        levels[3],
        cpu_and_note_view(app, panels[2]),
        help_view(rows[2]),
    ]);
    assert(items.map_values(|p: PlacedView| p.area) =~= seq![
        rows[0],
        columns[0],
        panels[0],
        panels[1],
        panels[1],
        inside[0],
        inside[1],
        panels[2],
        rows[2],
    ]);
}

/// Putting panels together keeps all that is put in, in order, and adds each
/// new panel at its end, in its own part.
pub proof fn law_putting_together(app: App, parts: Seq<Area>, inner_items: Seq<PlacedView>, i: int)
    requires
        0 <= i < inner_items.len(),
    ensures
        ({
            let n = inner_items.len() as int;
            let status = status_view(app, parts, inner_items);
            let body = body_view(app, parts, inner_items);
            let screen = screen_view(app, parts, inner_items);
            &&& status.len() == n + 2
            &&& status[0] == connection_view(app, parts[0])
            &&& status[i + 1] == inner_items[i]
            &&& status[n + 1] == cpu_and_note_view(app, parts[2])
            &&& body.len() == n + 1
            &&& body[0] == config_view(app, parts[0])
            &&& body[i + 1] == inner_items[i]
            &&& screen.len() == n + 2
            &&& screen[0] == title_view(app, parts[0])
            &&& screen[i + 1] == inner_items[i]
            &&& screen[n + 1] == help_view(parts[2])
        }),
{
}

} // verus!
