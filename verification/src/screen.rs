//! What the interface shows: texts, styles and the areas that they are drawn in.
use crate::batches::{stage_count, Stage};
use crate::form::{choice_label, FormView, RepoForm};
use crate::model::{bool_text, bool_word, strategy_text, Repository};
use crate::paint::{unstyled, Color, Style};
use crate::path::{borrowed_path, display_path, displayed, RawPath};
use crate::rows::{row_color, row_detail, row_label, RowState, RowView};
use crate::text::{
    after_colon, concat, decimal, drop_heading, matches_ignoring_case, number, owned, pad, padded,
    same_but_case, texts,
};
use crate::tui::{batches_fit, is_marked, members, App, AppView, Mode, ModeView};
use ratatui::buffer::CellWidth;
use ratatui::layout::{Constraint, Direction, Layout, Rect};
use ratatui::text::Text;
use ratatui::widgets::{Paragraph, Wrap};
use vstd::prelude::*;

verus! {

// ---------------------------------------------------------------------------
// Areas
// ---------------------------------------------------------------------------

/// A part of the terminal.
#[derive(Clone, Copy, Debug, PartialEq, Eq, Structural)]
pub struct Area {
    pub x: u16,
    pub y: u16,
    pub width: u16,
    pub height: u16,
}

/// How much of an area a part gets.
#[derive(Clone, Copy, Debug, PartialEq, Eq, Structural)]
pub enum Extent {
    Length(u16),
    Min(u16),
    Percentage(u16),
}

/// The direction in which an area is split.
#[derive(Clone, Copy, Debug, PartialEq, Eq, Structural)]
pub enum Axis {
    Vertical,
    Horizontal,
}

/// How many lines `Paragraph::line_count` counts for a text that is wrapped at a width, with
/// blanks at the start of lines left out.
pub uninterp spec fn wrapped_lines(text: Seq<char>, width: u16) -> nat;

/// How many columns `CellWidth::cell_width` gives for each of the symbols that
/// `Line::styled_graphemes` finds in the lines of a text.
pub uninterp spec fn symbol_widths(text: Seq<char>) -> Seq<u16>;

/// Calls `Line::styled_graphemes` on every line of a text and `CellWidth::cell_width` on every
/// symbol. The widths depend on the text alone and are named, not spelled out.
#[verifier::external_body]
fn widths_of(text: &str) -> (widths: Vec<u16>)
    ensures
        widths@ == symbol_widths(text@),
{
    let text = Text::raw(text);
    let symbols = text.iter().flat_map(|line| line.styled_graphemes(ratatui::style::Style::new()));
    symbols.map(|grapheme| grapheme.symbol.cell_width()).collect()
}

/// How many columns symbols take together.
pub open spec fn columns(widths: Seq<u16>) -> nat
    decreases widths.len(),
{
    if widths.len() == 0 {
        0
    } else {
        columns(widths.drop_last()) + widths.last() as nat
    }
}

/// Whether the lines of a text that is wrapped at a width can be counted, given the widths of
/// its symbols. Columns are added up in 16 bits. A sum never exceeds the columns of the text,
/// nor those of a line and three symbols; symbols that are wider than a line are passed over.
pub open spec fn countable(widths: Seq<u16>, width: u16) -> bool {
    ||| columns(widths) <= u16::MAX
    ||| forall|i: int|
        0 <= i < widths.len() && (#[trigger] widths[i]) <= width ==> (width - 1) + 3 * widths[i]
            <= u16::MAX
}

/// Whether the lines of a text that is wrapped at a width can be counted, given the widths of
/// its symbols.
pub fn is_countable(widths: &Vec<u16>, width: u16) -> (answer: bool)
    ensures
        answer == countable(widths@, width),
{
    let mut total: u32 = 0;
    let mut narrow = true;
    let mut i: usize = 0;
    assert(widths@.take(0) =~= Seq::<u16>::empty());
    while i < widths.len()
        invariant
            i <= widths@.len(),
            total <= 2 * u16::MAX,
            if total <= u16::MAX {
                total == columns(widths@.take(i as int))
            } else {
                columns(widths@.take(i as int)) > u16::MAX
            },
            narrow == forall|j: int|
                0 <= j < i && (#[trigger] widths@[j]) <= width ==> (width - 1) + 3 * widths@[j]
                    <= u16::MAX,
        decreases widths@.len() - i,
    {
        proof {
            assert(widths@.take(i + 1).drop_last() =~= widths@.take(i as int));
            assert(widths@.take(i + 1).last() == widths@[i as int]);
        }
        let symbol: u16 = widths[i];
        if total <= 65535 {
            total = total + symbol as u32;
        }
        if symbol <= width && width as u32 + 3 * (symbol as u32) > 65536 {
            narrow = false;
        }
        i = i + 1;
    }
    assert(widths@.take(i as int) =~= widths@);
    total <= 65535 || narrow
}

/// Calls `Paragraph::line_count` on a wrapped paragraph. The count depends on the text and the
/// width alone and is named, not spelled out; nothing fits in a width of zero. Texts and widths
/// for which the sums of columns may overflow are left out.
#[verifier::external_body]
fn count_lines(text: &str, width: u16) -> (count: usize)
    requires
        countable(symbol_widths(text@), width),
    ensures
        count == wrapped_lines(text@, width),
        width == 0 ==> count == 0,
{
    Paragraph::new(text).wrap(Wrap { trim: true }).line_count(width)
}

/// Whether `parts` is an outcome of `Layout::split` on an area. There may be several: where
/// extents compete, the solver may settle on different shares from one process to the next.
pub uninterp spec fn can_split(
    area: Area,
    axis: Axis,
    extents: Seq<Extent>,
    parts: Seq<Area>,
) -> bool;

/// Whether parts span an area across the direction in which it is split.
pub open spec fn spans(area: Area, axis: Axis, parts: Seq<Area>) -> bool {
    forall|i: int|
        0 <= i < parts.len() ==> match axis {
            Axis::Vertical => (#[trigger] parts[i]).x == area.x && parts[i].width == area.width,
            Axis::Horizontal => parts[i].y == area.y && parts[i].height == area.height,
        }
}

/// Calls `Layout::split`. There is one part for each extent, and each spans the whole area
/// across the direction of the split. How the area is shared out along it is up to the solver
/// and is not stated, only that the parts are an outcome for these arguments.
#[verifier::external_body]
fn split(area: Area, axis: Axis, extents: &Vec<Extent>) -> (parts: Vec<Area>)
    ensures
        parts@.len() == extents@.len(),
        spans(area, axis, parts@),
        can_split(area, axis, extents@, parts@),
{
    let constraints = extents.iter().map(|extent| match extent {
        Extent::Length(size) => Constraint::Length(*size),
        Extent::Min(size) => Constraint::Min(*size),
        Extent::Percentage(share) => Constraint::Percentage(*share),
    });
    let direction = match axis {
        Axis::Vertical => Direction::Vertical,
        Axis::Horizontal => Direction::Horizontal,
    };
    let whole = Rect { x: area.x, y: area.y, width: area.width, height: area.height };
    let parts = Layout::new(direction, constraints).split(whole);
    parts.iter().map(|p| Area { x: p.x, y: p.y, width: p.width, height: p.height }).collect()
}

// ---------------------------------------------------------------------------
// Overview
// ---------------------------------------------------------------------------

/// What is shown of the state can be drawn.
pub open spec fn drawable(app: AppView) -> bool {
    &&& app.rows_fit()
    &&& batches_fit(app.batches, app.repositories.len(), app.run_id)
    &&& members(app.batches) <= usize::MAX
}

/// How many of the rows are ready.
pub open spec fn ready_rows(states: Seq<RowView>) -> nat
    decreases states.len(),
{
    if states.len() == 0 {
        0
    } else {
        ready_rows(states.drop_last()) + if states.last() is Ready {
            1nat
        } else {
            0nat
        }
    }
}

/// The stage that the batches are in, and its color.
pub open spec fn sync_stage(app: AppView) -> (Seq<char>, Color) {
    if app.totals.finished == app.totals.launched {
        ("FINISHING"@, Color::Blue)
    } else if stage_count(app.states, app.batches, Stage::Pulling) > 0 {
        ("SYNCING"@, Color::Magenta)
    } else if stage_count(app.states, app.batches, Stage::Fetching) > 0 {
        ("FETCHING"@, Color::Cyan)
    } else if stage_count(app.states, app.batches, Stage::Queued) > 0 {
        ("QUEUED"@, Color::Blue)
    } else {
        ("WAITING"@, Color::DarkGray)
    }
}

/// The share of the repositories with a result, in percent. A product that a machine word does
/// not hold counts as the largest one.
pub open spec fn percent_done(finished: usize, launched: usize) -> nat {
    let product = if finished * 100 > usize::MAX {
        usize::MAX as nat
    } else {
        (finished * 100) as nat
    };
    product / (if launched == 0 {
        1
    } else {
        launched as nat
    })
}

/// The heading of the overview.
pub open spec fn overview_label(app: AppView) -> Seq<char> {
    if app.quit_pending {
        "WAITING TO QUIT"@
    } else if app.completion is Some {
        app.completion->0.title
    } else if app.refresh_run is Some {
        "REFRESHING  "@ + decimal(ready_rows(app.states)) + "/"@ + decimal(app.repositories.len())
    } else if app.batches.len() > 0 {
        sync_stage(app).0 + "  "@ + decimal(app.totals.finished as nat) + "/"@ + decimal(
            app.totals.launched as nat,
        ) + " ("@ + decimal(percent_done(app.totals.finished, app.totals.launched)) + "%)"@
    } else {
        "READY"@
    }
}

/// The color of the overview.
pub open spec fn overview_color(app: AppView) -> Color {
    if app.quit_pending {
        Color::Yellow
    } else if app.completion is Some {
        if app.completion->0.failed {
            Color::LightRed
        } else {
            Color::Green
        }
    } else if app.refresh_run is Some {
        Color::Blue
    } else if app.batches.len() > 0 {
        sync_stage(app).1
    } else {
        Color::DarkGray
    }
}

/// What the overview says besides its heading. While batches run, the heading of the status is
/// left out.
pub open spec fn overview_summary(app: AppView) -> Seq<char> {
    let summary = if !app.quit_pending && app.completion is Some {
        app.completion->0.summary
    } else {
        app.status
    };
    if app.batches.len() > 0 && !app.quit_pending {
        after_colon(summary, summary)
    } else {
        summary
    }
}

/// The text of the overview.
pub open spec fn overview_text(app: AppView) -> Seq<char> {
    let label = overview_label(app);
    let summary = overview_summary(app);
    if same_but_case(summary, label) {
        " "@ + label + " "@
    } else {
        " "@ + label + "  |  "@ + summary + " "@
    }
}

/// How the overview is drawn.
pub open spec fn overview_style(app: AppView) -> Style {
    if app.color_enabled {
        Style {
            foreground: Some(
                if overview_color(app) == Color::Blue || overview_color(app) == Color::DarkGray {
                    Color::White
                } else {
                    Color::Black
                },
            ),
            background: Some(overview_color(app)),
            bold: true,
            reversed: false,
        }
    } else {
        Style { bold: true, reversed: true, ..unstyled() }
    }
}

impl App {
    fn count_ready(&self) -> (count: usize)
        ensures
            count == ready_rows(self@.states),
    {
        let ghost all = self@.states;
        let mut count: usize = 0;
        let mut i: usize = 0;
        assert(all.take(0) =~= Seq::<RowView>::empty());
        while i < self.states.len()
            invariant
                i <= self.states@.len(),
                all == self@.states,
                count <= i,
                count == ready_rows(all.take(i as int)),
            decreases self.states@.len() - i,
        {
            proof {
                assert(all.take(i + 1).drop_last() =~= all.take(i as int));
                assert(all.take(i + 1).last() == self.states@[i as int]@);
            }
            if matches!(&self.states[i], RowState::Ready(_)) {
                count = count + 1;
            }
            i = i + 1;
        }
        assert(all.take(i as int) =~= all);
        count
    }

    fn stage(&self) -> (result: (&'static str, Color))
        requires
            drawable(self@),
        ensures
            result.0@ == sync_stage(self@).0,
            result.1 == sync_stage(self@).1,
    {
        if self.sync_totals.finished == self.sync_totals.launched {
            ("FINISHING", Color::Blue)
        } else if self.count_stage(Stage::Pulling) > 0 {
            ("SYNCING", Color::Magenta)
        } else if self.count_stage(Stage::Fetching) > 0 {
            ("FETCHING", Color::Cyan)
        } else if self.count_stage(Stage::Queued) > 0 {
            ("QUEUED", Color::Blue)
        } else {
            ("WAITING", Color::DarkGray)
        }
    }

    fn percent(&self) -> (percent: u128)
        ensures
            percent == percent_done(self@.totals.finished, self@.totals.launched),
    {
        let product: u128 = self.sync_totals.finished as u128 * 100;
        let capped: u128 = if product > usize::MAX as u128 {
            usize::MAX as u128
        } else {
            product
        };
        let launched: u128 = if self.sync_totals.launched == 0 {
            1
        } else {
            self.sync_totals.launched as u128
        };
        capped / launched
    }

    /// The heading, the color and the summary of the overview.
    pub fn overview(&self) -> (result: (String, Color, String))
        requires
            drawable(self@),
        ensures
            result.0@ == overview_label(self@),
            result.1 == overview_color(self@),
            result.2@ == overview_summary(self@),
    {
        let (label, color, summary) = if self.quit_pending {
            ("WAITING TO QUIT".to_owned(), Color::Yellow, self.status.clone())
        } else if let Some(completion) = &self.completion {
            let color = if completion.failed {
                Color::LightRed
            } else {
                Color::Green
            };
            (completion.title.clone(), color, completion.summary.clone())
        } else if self.refresh_run.is_some() {
            let mut label = concat("REFRESHING  ", number(self.count_ready() as u128).as_str());
            label.append("/");
            label.append(number(self.repositories.len() as u128).as_str());
            (label, Color::Blue, self.status.clone())
        } else if self.sync_batches.len() > 0 {
            let (stage, color) = self.stage();
            let mut label = concat(stage, "  ");
            label.append(number(self.sync_totals.finished as u128).as_str());
            label.append("/");
            label.append(number(self.sync_totals.launched as u128).as_str());
            label.append(" (");
            label.append(number(self.percent()).as_str());
            label.append("%)");
            (label, color, self.status.clone())
        } else {
            ("READY".to_owned(), Color::DarkGray, self.status.clone())
        };
        if self.sync_batches.len() > 0 && !self.quit_pending {
            let counts = drop_heading(summary.as_str());
            (label, color, counts)
        } else {
            (label, color, summary)
        }
    }

    /// The text of the overview and how it is drawn.
    pub fn overview_bar(&self) -> (result: (String, Style))
        requires
            drawable(self@),
        ensures
            result.0@ == overview_text(self@),
            result.1 == overview_style(self@),
    {
        let (label, color, summary) = self.overview();
        let style = if self.color_enabled {
            let foreground = if color == Color::Blue || color == Color::DarkGray {
                Color::White
            } else {
                Color::Black
            };
            Style {
                foreground: Some(foreground),
                background: Some(color),
                bold: true,
                reversed: false,
            }
        } else {
            Style { foreground: None, background: None, bold: true, reversed: true }
        };
        let mut text = concat(" ", label.as_str());
        if !matches_ignoring_case(summary.as_str(), label.as_str()) {
            text.append("  |  ");
            text.append(summary.as_str());
        }
        text.append(" ");
        (text, style)
    }
}

// ---------------------------------------------------------------------------
// Layout
// ---------------------------------------------------------------------------

/// The area inside a blank column on either side.
pub open spec fn inner_area(full: Area) -> Area {
    Area {
        x: if full.x == u16::MAX {
            full.x
        } else {
            (full.x + 1) as u16
        },
        width: if full.width < 2 {
            0
        } else {
            (full.width - 2) as u16
        },
        ..full
    }
}

/// The area inside a blank column on either side.
pub fn inside(full: Area) -> (area: Area)
    ensures
        area == inner_area(full),
{
    Area {
        x: if full.x == u16::MAX {
            full.x
        } else {
            full.x + 1
        },
        y: full.y,
        width: if full.width < 2 {
            0
        } else {
            full.width - 2
        },
        height: full.height,
    }
}

/// The height of the overview, given how many lines its text takes.
pub open spec fn bar_height(lines: nat) -> u16 {
    if lines == 0 {
        1
    } else if lines > u16::MAX {
        u16::MAX
    } else {
        lines as u16
    }
}

/// The tallest overview beside which the rest can be laid out.
pub const TALLEST_BAR: u16 = 65529;

fn height_of(lines: usize) -> (height: u16)
    ensures
        height == bar_height(lines as nat),
        height >= 1,
{
    if lines == 0 {
        1
    } else if lines > u16::MAX as usize {
        u16::MAX
    } else {
        lines as u16
    }
}

/// The height of the table: all repositories, as far as there is room.
pub open spec fn table_height(count: nat, area: Area, bar: u16) -> u16 {
    let wanted = if count + 2 > u16::MAX {
        u16::MAX as nat
    } else {
        count + 2
    };
    let room = if area.height < 6 + bar {
        0
    } else {
        (area.height - (6 + bar)) as nat
    };
    (if wanted < room {
        wanted
    } else {
        room
    }) as u16
}

/// The parts of the main view, from top to bottom: title, overview, table, details, keys and
/// what is left.
pub open spec fn main_extents(count: nat, area: Area, bar: u16) -> Seq<Extent> {
    seq![
        Extent::Length(2),
        Extent::Length((bar + 1) as u16),
        Extent::Length(table_height(count, area, bar)),
        Extent::Length(2),
        Extent::Length(1),
        Extent::Min(0),
    ]
}

/// The parts of the main view.
pub fn layout_extents(count: usize, area: Area, bar: u16) -> (extents: Vec<Extent>)
    requires
        bar <= TALLEST_BAR,
    ensures
        extents@ == main_extents(count as nat, area, bar),
{
    let wanted: u16 = if count > (u16::MAX - 2) as usize {
        u16::MAX
    } else {
        count as u16 + 2
    };
    let room: u16 = if area.height < 6 + bar {
        0
    } else {
        area.height - (6 + bar)
    };
    let table: u16 = if wanted < room {
        wanted
    } else {
        room
    };
    let mut extents: Vec<Extent> = Vec::new();
    extents.push(Extent::Length(2));
    extents.push(Extent::Length(bar + 1));
    extents.push(Extent::Length(table));
    extents.push(Extent::Length(2));
    extents.push(Extent::Length(1));
    extents.push(Extent::Min(0));
    assert(extents@ =~= main_extents(count as nat, area, bar));
    extents
}

/// The parts around something in the middle that takes a share of an area.
pub open spec fn centering(percent: u16) -> Seq<Extent> {
    seq![
        Extent::Percentage(((100 - percent) / 2) as u16),
        Extent::Percentage(percent),
        Extent::Percentage(((100 - percent) / 2) as u16),
    ]
}

fn centering_extents(percent: u16) -> (extents: Vec<Extent>)
    requires
        percent <= 100,
    ensures
        extents@ == centering(percent),
{
    let side: u16 = (100 - percent) / 2;
    let mut extents: Vec<Extent> = Vec::new();
    extents.push(Extent::Percentage(side));
    extents.push(Extent::Percentage(percent));
    extents.push(Extent::Percentage(side));
    assert(extents@ =~= centering(percent));
    extents
}

/// Whether an area can be the middle of another one: of three parts from top to bottom the
/// second, and of three parts of that from left to right again the second.
pub open spec fn can_center(percent_x: u16, percent_y: u16, area: Area, middle: Area) -> bool {
    exists|tall: Seq<Area>, wide: Seq<Area>|
        tall.len() == 3 && wide.len() == 3 && #[trigger] can_split(
            area,
            Axis::Vertical,
            centering(percent_y),
            tall,
        ) && #[trigger] can_split(tall[1], Axis::Horizontal, centering(percent_x), wide)
            && spans(area, Axis::Vertical, tall) && spans(tall[1], Axis::Horizontal, wide)
            && middle == wide[1]
}

/// The middle of an area.
pub fn centered_rect(percent_x: u16, percent_y: u16, area: Area) -> (middle: Area)
    requires
        percent_x <= 100,
        percent_y <= 100,
    ensures
        can_center(percent_x, percent_y, area, middle),
{
    let tall = split(area, Axis::Vertical, &centering_extents(percent_y));
    let wide = split(tall[1], Axis::Horizontal, &centering_extents(percent_x));
    wide[1]
}

// ---------------------------------------------------------------------------
// Contents
// ---------------------------------------------------------------------------

/// A text with its style.
#[derive(Debug, PartialEq, Eq)]
pub struct Span {
    pub text: String,
    pub style: Style,
}

/// The contents of a [`Span`].
#[verifier::ext_equal]
pub struct SpanView {
    pub text: Seq<char>,
    pub style: Style,
}

impl View for Span {
    type V = SpanView;

    open spec fn view(&self) -> SpanView {
        SpanView { text: self.text@, style: self.style }
    }
}

/// The contents of a line.
pub open spec fn line_view(line: Seq<Span>) -> Seq<SpanView> {
    Seq::new(line.len(), |i: int| line[i]@)
}

/// The contents of several lines.
pub open spec fn line_views(lines: Seq<Vec<Span>>) -> Seq<Seq<SpanView>> {
    Seq::new(lines.len(), |i: int| line_view(lines[i]@))
}

/// A text without a style.
pub open spec fn bare(text: Seq<char>) -> SpanView {
    SpanView { text, style: unstyled() }
}

fn span(text: &str, style: Style) -> (result: Span)
    ensures
        result@ == (SpanView { text: text@, style }),
{
    Span { text: text.to_owned(), style }
}

fn push_span(line: &mut Vec<Span>, text: &str, style: Style)
    ensures
        line_view(final(line)@) == line_view(old(line)@).push(SpanView { text: text@, style }),
{
    line.push(span(text, style));
    assert(line_view(line@) =~= line_view(old(line)@).push(SpanView { text: text@, style }));
}

fn push_line(lines: &mut Vec<Vec<Span>>, line: Vec<Span>)
    ensures
        line_views(final(lines)@) == line_views(old(lines)@).push(line_view(line@)),
{
    lines.push(line);
    assert(line_views(lines@) =~= line_views(old(lines)@).push(line_view(line@)));
}

/// The style of what stands out.
pub open spec fn accent(color_enabled: bool) -> Style {
    Style {
        foreground: if color_enabled {
            Some(Color::Cyan)
        } else {
            None
        },
        bold: true,
        ..unstyled()
    }
}

/// The style of what stays in the background.
pub open spec fn quiet(color_enabled: bool) -> Style {
    Style {
        foreground: if color_enabled {
            Some(Color::DarkGray)
        } else {
            None
        },
        ..unstyled()
    }
}

fn accent_style(color_enabled: bool) -> (style: Style)
    ensures
        style == accent(color_enabled),
{
    let foreground = if color_enabled {
        Some(Color::Cyan)
    } else {
        None
    };
    Style { foreground, background: None, bold: true, reversed: false }
}

fn quiet_style(color_enabled: bool) -> (style: Style)
    ensures
        style == quiet(color_enabled),
{
    if color_enabled {
        Style::colored(Color::DarkGray)
    } else {
        Style::none()
    }
}

/// The title line.
pub open spec fn title_line(app: AppView) -> Seq<SpanView> {
    seq![
        SpanView { text: "repo-sync"@, style: accent(app.color_enabled) },
        SpanView {
            text: "  "@ + decimal(app.repositories.len()) + " repos · "@ + decimal(
                app.marked.len(),
            ) + " marked"@,
            style: quiet(app.color_enabled),
        },
    ]
}

/// The branch that a row shows.
pub open spec fn row_branch(row: RowView) -> Seq<char> {
    match row {
        RowView::Ready(inspection) => match inspection.branch {
            Some(branch) => branch,
            None => "-"@,
        },
        _ => "-"@,
    }
}

/// The cells of a repository, given the width of the view.
pub open spec fn row_cells(
    app: AppView,
    index: int,
    width: u16,
    home: Option<Seq<u8>>,
) -> Seq<SpanView> {
    let repository = app.repositories[index];
    let row = app.states[index];
    let first = seq![
        bare(
            if app.marked.contains(repository.name) {
                "●"@
            } else {
                " "@
            },
        ),
        bare(repository.name),
        SpanView {
            text: row_label(row),
            style: if app.color_enabled {
                Style { foreground: Some(row_color(row)), ..unstyled() }
            } else {
                unstyled()
            },
        },
    ];
    let wide = if width >= 100 {
        first + seq![
            bare(row_branch(row)),
            bare(strategy_text(repository.strategy)),
            bare(
                if repository.submodules {
                    "yes"@
                } else {
                    "no"@
                },
            ),
        ]
    } else {
        first
    };
    if width >= 60 {
        wide.push(bare(displayed(repository.path, home)))
    } else {
        wide
    }
}

/// The headings of the table, given the width of the view.
pub open spec fn headings(width: u16) -> Seq<Seq<char>> {
    let first = seq![""@, "name"@, "status"@];
    let wide = if width >= 100 {
        first + seq!["branch"@, "strategy"@, "sub"@]
    } else {
        first
    };
    if width >= 60 {
        wide.push("path"@)
    } else {
        wide
    }
}

/// The widths of the columns, given the width of the view.
pub open spec fn column_extents(width: u16) -> Seq<Extent> {
    let first = seq![
        Extent::Length(2),
        if width < 60 {
            Extent::Min(12)
        } else {
            Extent::Length(26)
        },
        Extent::Length(10),
    ];
    let wide = if width >= 100 {
        first + seq![Extent::Length(16), Extent::Length(8), Extent::Length(3)]
    } else {
        first
    };
    if width >= 60 {
        wide.push(Extent::Min(12))
    } else {
        wide
    }
}

/// Every row has a cell below each heading, and each column a width.
pub proof fn columns_agree(app: AppView, index: int, width: u16, home: Option<Seq<u8>>)
    ensures
        row_cells(app, index, width, home).len() == headings(width).len(),
        column_extents(width).len() == headings(width).len(),
{
}

/// What is said of the selected repository.
pub open spec fn details_text(app: AppView, width: u16, home: Option<Seq<u8>>) -> Seq<char> {
    "details  "@ + match app.selected {
        None => "No repositories registered. Press a to add one."@,
        Some(index) => {
            let repository = app.repositories[index as int];
            let detail = row_detail(app.states[index as int]);
            if width < 100 {
                detail + "\n"@ + displayed(repository.path, home) + " · "@ + strategy_text(
                    repository.strategy,
                ) + " · sub="@ + bool_text(repository.submodules)
            } else {
                detail
            }
        },
    }
}

/// What is said of the keys.
pub open spec fn shortcuts_text(width: u16) -> Seq<char> {
    if width < 60 {
        "j/k move s sync S all ? help q quit"@
    } else {
        "↑/↓ move  Space mark  r refresh  s selected  S all  a/e/d edit  ? help  q quit"@
    }
}

/// The window with the keys.
pub open spec fn help_text() -> Seq<char> {
    "Repository manager\n\na        add a repository\ne        edit the current repository\nd        remove it from the registry (files are untouched)\nSpace    mark/unmark for a batch sync\nr        refresh all remote states\ns        sync marked repositories, or the current row\nS        sync every repository\nq        quit when no Git operation is active\n\nEach batch fetches concurrently and pulls serially.\nSeparate batches can run at the same time.\nPress ?, q, or Esc to close this help."@
}

/// The window with the question before a removal.
pub open spec fn confirm_text(app: AppView) -> Seq<char> {
    "Remove "@ + match app.selected {
        Some(index) => app.repositories[index as int].name,
        None => "this repository"@,
    } + " from the registry?\nRepository files will not be deleted.\n\n[y/Enter] remove    [n/Esc] cancel"@
}

/// The title of the window with a form.
pub open spec fn form_title(form: FormView) -> Seq<char> {
    if form.editing_name is Some {
        " Edit repository "@
    } else {
        " Add repository "@
    }
}

/// The style of a field of a form.
pub open spec fn field_style(form: FormView, field: int, color_enabled: bool) -> Style {
    if form.field == field {
        accent(color_enabled)
    } else {
        unstyled()
    }
}

/// The line for a field of a form.
pub open spec fn field_line(
    form: FormView,
    field: int,
    label: Seq<char>,
    value: Seq<char>,
    color_enabled: bool,
) -> Seq<SpanView> {
    let style = field_style(form, field, color_enabled);
    seq![SpanView { text: padded(label, 12), style }, SpanView { text: value, style }]
}

/// An empty line.
pub open spec fn blank_line() -> Seq<SpanView> {
    seq![bare(""@)]
}

/// The lines of a form.
pub open spec fn form_lines(form: FormView, color_enabled: bool) -> Seq<Seq<SpanView>> {
    let fields = seq![
        blank_line(),
        field_line(form, 0, "Name"@, form.name, color_enabled),
        blank_line(),
        field_line(form, 1, "Path"@, form.path, color_enabled),
        blank_line(),
        field_line(form, 2, "Strategy"@, strategy_text(form.strategy), color_enabled),
        blank_line(),
        field_line(form, 3, "Submodules"@, choice_label(form.submodules), color_enabled),
        blank_line(),
    ];
    let checked = match form.error {
        Some(error) => fields.push(
            seq![
                SpanView {
                    text: error,
                    style: if color_enabled {
                        Style { foreground: Some(Color::Red), ..unstyled() }
                    } else {
                        unstyled()
                    },
                },
            ],
        ),
        None => fields,
    };
    checked.push(seq![bare("Tab/↑/↓ field  ←/→ toggle  Enter save  Esc cancel"@)])
}

impl App {
    /// The title line.
    pub fn title(&self) -> (line: Vec<Span>)
        ensures
            line_view(line@) == title_line(self@),
    {
        let mut text = concat("  ", number(self.repositories.len() as u128).as_str());
        text.append(" repos · ");
        text.append(number(self.marked.len() as u128).as_str());
        text.append(" marked");
        let mut line: Vec<Span> = Vec::new();
        push_span(&mut line, "repo-sync", accent_style(self.color_enabled));
        push_span(&mut line, text.as_str(), quiet_style(self.color_enabled));
        assert(line_view(line@) =~= title_line(self@));
        line
    }

    fn cells(&self, index: usize, width: u16, home: Option<&RawPath>) -> (cells: Vec<Span>)
        requires
            index < self@.repositories.len(),
            self@.rows_fit(),
        ensures
            line_view(cells@) == row_cells(self@, index as int, width, borrowed_path(home)),
    {
        let repository = &self.repositories[index];
        let row = &self.states[index];
        proof {
            assert(self@.repositories[index as int] == repository@);
            assert(self@.states[index as int] == row@);
        }
        let marker = if is_marked(&self.marked, repository.name.as_str()) {
            "●"
        } else {
            " "
        };
        let mut cells: Vec<Span> = Vec::new();
        push_span(&mut cells, marker, Style::none());
        push_span(&mut cells, repository.name.as_str(), Style::none());
        let style = if self.color_enabled {
            row.style()
        } else {
            Style::none()
        };
        push_span(&mut cells, row.label().as_str(), style);
        if width >= 100 {
            let branch = match row {
                RowState::Ready(inspection) => match &inspection.branch {
                    Some(branch) => branch.clone(),
                    None => "-".to_owned(),
                },
                _ => "-".to_owned(),
            };
            push_span(&mut cells, branch.as_str(), Style::none());
            push_span(&mut cells, repository.strategy.to_text(), Style::none());
            let answer = if repository.submodules {
                "yes"
            } else {
                "no"
            };
            push_span(&mut cells, answer, Style::none());
        }
        if width >= 60 {
            push_span(&mut cells, display_path(&repository.path, home).as_str(), Style::none());
        }
        assert(line_view(cells@) =~= row_cells(
            self@,
            index as int,
            width,
            borrowed_path(home),
        ));
        cells
    }

    /// The cells of every repository.
    pub fn table_rows(&self, width: u16, home: Option<&RawPath>) -> (result: Vec<Vec<Span>>)
        requires
            self@.rows_fit(),
        ensures
            line_views(result@) == Seq::new(
                self@.repositories.len(),
                |i: int| row_cells(self@, i, width, borrowed_path(home)),
            ),
    {
        let ghost place = borrowed_path(home);
        let mut result: Vec<Vec<Span>> = Vec::new();
        let mut i: usize = 0;
        assert(line_views(result@) =~= Seq::new(0, |k: int| row_cells(self@, k, width, place)));
        while i < self.repositories.len()
            invariant
                i <= self.repositories@.len(),
                self@.rows_fit(),
                place == borrowed_path(home),
                line_views(result@) == Seq::new(
                    i as nat,
                    |k: int| row_cells(self@, k, width, place),
                ),
            decreases self.repositories@.len() - i,
        {
            push_line(&mut result, self.cells(i, width, home));
            assert(line_views(result@) =~= Seq::new(
                (i + 1) as nat,
                |k: int| row_cells(self@, k, width, place),
            ));
            i = i + 1;
        }
        result
    }

    /// What is said of the selected repository.
    pub fn details(&self, width: u16, home: Option<&RawPath>) -> (text: String)
        requires
            self@.rows_fit(),
        ensures
            text@ == details_text(self@, width, borrowed_path(home)),
    {
        let mut text = "details  ".to_owned();
        match self.selected {
            None => {
                text.append("No repositories registered. Press a to add one.");
            },
            Some(index) => {
                let repository = &self.repositories[index];
                let row = &self.states[index];
                proof {
                    assert(self@.repositories[index as int] == repository@);
                    assert(self@.states[index as int] == row@);
                }
                let mut detail = row.detail();
                if width < 100 {
                    detail.append("\n");
                    detail.append(display_path(&repository.path, home).as_str());
                    detail.append(" · ");
                    detail.append(repository.strategy.to_text());
                    detail.append(" · sub=");
                    detail.append(bool_word(repository.submodules));
                }
                text.append(detail.as_str());
            },
        }
        text
    }

    /// The question before a removal.
    pub fn confirmation(&self) -> (text: String)
        requires
            self@.rows_fit(),
        ensures
            text@ == confirm_text(self@),
    {
        let name = match self.selected {
            Some(index) => {
                assert(self@.repositories[index as int] == self.repositories@[index as int]@);
                self.repositories[index].name.clone()
            },
            None => "this repository".to_owned(),
        };
        let mut text = concat("Remove ", name.as_str());
        text.append(
            " from the registry?\nRepository files will not be deleted.\n\n[y/Enter] remove    [n/Esc] cancel",
        );
        text
    }
}

/// The headings of the table.
pub fn table_headings(width: u16) -> (result: Vec<String>)
    ensures
        texts(result@) == headings(width),
{
    let mut result = owned(&["", "name", "status"]);
    if width >= 100 {
        push_text(&mut result, "branch");
        push_text(&mut result, "strategy");
        push_text(&mut result, "sub");
    }
    if width >= 60 {
        push_text(&mut result, "path");
    }
    assert(texts(result@) =~= headings(width));
    result
}

fn push_text(list: &mut Vec<String>, text: &str)
    ensures
        texts(final(list)@) == texts(old(list)@).push(text@),
{
    list.push(text.to_owned());
    assert(texts(list@) =~= texts(old(list)@).push(text@));
}

/// The widths of the columns.
pub fn table_widths(width: u16) -> (result: Vec<Extent>)
    ensures
        result@ == column_extents(width),
{
    let mut result: Vec<Extent> = Vec::new();
    result.push(Extent::Length(2));
    if width < 60 {
        result.push(Extent::Min(12));
    } else {
        result.push(Extent::Length(26));
    }
    result.push(Extent::Length(10));
    if width >= 100 {
        result.push(Extent::Length(16));
        result.push(Extent::Length(8));
        result.push(Extent::Length(3));
    }
    if width >= 60 {
        result.push(Extent::Min(12));
    }
    assert(result@ =~= column_extents(width));
    result
}

/// What is said of the keys.
pub fn shortcuts(width: u16) -> (text: String)
    ensures
        text@ == shortcuts_text(width),
{
    if width < 60 {
        "j/k move s sync S all ? help q quit".to_owned()
    } else {
        "↑/↓ move  Space mark  r refresh  s selected  S all  a/e/d edit  ? help  q quit".to_owned()
    }
}

/// The text of the window with the keys.
pub fn help() -> (text: String)
    ensures
        text@ == help_text(),
{
    "Repository manager\n\na        add a repository\ne        edit the current repository\nd        remove it from the registry (files are untouched)\nSpace    mark/unmark for a batch sync\nr        refresh all remote states\ns        sync marked repositories, or the current row\nS        sync every repository\nq        quit when no Git operation is active\n\nEach batch fetches concurrently and pulls serially.\nSeparate batches can run at the same time.\nPress ?, q, or Esc to close this help.".to_owned()
}

impl RepoForm {
    /// The title of the window with this form.
    pub fn title(&self) -> (text: String)
        ensures
            text@ == form_title(self@),
    {
        if self.editing_name.is_some() {
            " Edit repository ".to_owned()
        } else {
            " Add repository ".to_owned()
        }
    }

    fn push_field(
        &self,
        lines: &mut Vec<Vec<Span>>,
        field: usize,
        label: &str,
        value: &str,
        color_enabled: bool,
    )
        ensures
            line_views(final(lines)@) == line_views(old(lines)@).push(
                field_line(self@, field as int, label@, value@, color_enabled),
            ).push(blank_line()),
    {
        let style = if self.field == field {
            accent_style(color_enabled)
        } else {
            Style::none()
        };
        let mut line: Vec<Span> = Vec::new();
        push_span(&mut line, pad(label, 12).as_str(), style);
        push_span(&mut line, value, style);
        assert(line_view(line@) =~= field_line(
            self@,
            field as int,
            label@,
            value@,
            color_enabled,
        ));
        push_line(lines, line);
        push_blank(lines);
    }

    /// The lines of the form.
    pub fn lines(&self, color_enabled: bool) -> (lines: Vec<Vec<Span>>)
        ensures
            line_views(lines@) == form_lines(self@, color_enabled),
    {
        let mut lines: Vec<Vec<Span>> = Vec::new();
        push_blank(&mut lines);
        self.push_field(&mut lines, 0, "Name", self.name.as_str(), color_enabled);
        self.push_field(&mut lines, 1, "Path", self.path.as_str(), color_enabled);
        self.push_field(&mut lines, 2, "Strategy", self.strategy.to_text(), color_enabled);
        self.push_field(&mut lines, 3, "Submodules", self.submodules.label(), color_enabled);
        if let Some(error) = &self.error {
            let style = if color_enabled {
                Style::colored(Color::Red)
            } else {
                Style::none()
            };
            let mut line: Vec<Span> = Vec::new();
            push_span(&mut line, error.as_str(), style);
            assert(line_view(line@) =~= seq![SpanView { text: error@, style }]);
            push_line(&mut lines, line);
        }
        let mut hint: Vec<Span> = Vec::new();
        push_span(
            &mut hint,
            "Tab/↑/↓ field  ←/→ toggle  Enter save  Esc cancel",
            Style::none(),
        );
        assert(line_view(hint@) =~= seq![
            bare("Tab/↑/↓ field  ←/→ toggle  Enter save  Esc cancel"@),
        ]);
        push_line(&mut lines, hint);
        assert(line_views(lines@) =~= form_lines(self@, color_enabled));
        lines
    }
}

fn push_blank(lines: &mut Vec<Vec<Span>>)
    ensures
        line_views(final(lines)@) == line_views(old(lines)@).push(blank_line()),
{
    let mut line: Vec<Span> = Vec::new();
    push_span(&mut line, "", Style::none());
    assert(line_view(line@) =~= blank_line());
    push_line(lines, line);
}

// ---------------------------------------------------------------------------
// The whole screen
// ---------------------------------------------------------------------------

/// What a window above the main view holds.
#[derive(Debug, PartialEq, Eq)]
pub enum PopupBody {
    Text(String),
    Lines(Vec<Vec<Span>>),
}

/// The contents of a [`PopupBody`].
#[verifier::ext_equal]
pub enum BodyView {
    Text(Seq<char>),
    Lines(Seq<Seq<SpanView>>),
}

impl View for PopupBody {
    type V = BodyView;

    open spec fn view(&self) -> BodyView {
        match self {
            PopupBody::Text(text) => BodyView::Text(text@),
            PopupBody::Lines(lines) => BodyView::Lines(line_views(lines@)),
        }
    }
}

/// A window above the main view.
#[derive(Debug, PartialEq, Eq)]
pub struct Popup {
    pub area: Area,
    pub title: String,
    pub body: PopupBody,
    pub centered: bool,
    pub trim: bool,
}

/// The contents of a [`Popup`].
#[verifier::ext_equal]
pub struct PopupView {
    pub area: Area,
    pub title: Seq<char>,
    pub body: BodyView,
    pub centered: bool,
    pub trim: bool,
}

impl View for Popup {
    type V = PopupView;

    open spec fn view(&self) -> PopupView {
        PopupView {
            area: self.area,
            title: self.title@,
            body: self.body@,
            centered: self.centered,
            trim: self.trim,
        }
    }
}

/// Everything that is drawn.
#[derive(Debug, PartialEq, Eq)]
pub struct Screen {
    pub title_area: Area,
    pub title: Vec<Span>,
    pub table_area: Area,
    pub headings: Vec<String>,
    pub heading_style: Style,
    pub widths: Vec<Extent>,
    pub rows: Vec<Vec<Span>>,
    pub highlight_style: Style,
    pub selected: Option<usize>,
    pub details_area: Area,
    pub details: String,
    pub bar_area: Area,
    pub bar: String,
    pub bar_style: Style,
    pub shortcuts_area: Area,
    pub shortcuts: String,
    pub shortcuts_style: Style,
    pub popup: Option<Popup>,
}

/// The contents of a [`Screen`].
#[verifier::ext_equal]
pub struct ScreenView {
    pub title_area: Area,
    pub title: Seq<SpanView>,
    pub table_area: Area,
    pub headings: Seq<Seq<char>>,
    pub heading_style: Style,
    pub widths: Seq<Extent>,
    pub rows: Seq<Seq<SpanView>>,
    pub highlight_style: Style,
    pub selected: Option<usize>,
    pub details_area: Area,
    pub details: Seq<char>,
    pub bar_area: Area,
    pub bar: Seq<char>,
    pub bar_style: Style,
    pub shortcuts_area: Area,
    pub shortcuts: Seq<char>,
    pub shortcuts_style: Style,
    pub popup: Option<PopupView>,
}

impl View for Screen {
    type V = ScreenView;

    open spec fn view(&self) -> ScreenView {
        ScreenView {
            title_area: self.title_area,
            title: line_view(self.title@),
            table_area: self.table_area,
            headings: texts(self.headings@),
            heading_style: self.heading_style,
            widths: self.widths@,
            rows: line_views(self.rows@),
            highlight_style: self.highlight_style,
            selected: self.selected,
            details_area: self.details_area,
            details: self.details@,
            bar_area: self.bar_area,
            bar: self.bar@,
            bar_style: self.bar_style,
            shortcuts_area: self.shortcuts_area,
            shortcuts: self.shortcuts@,
            shortcuts_style: self.shortcuts_style,
            popup: match self.popup {
                Some(popup) => Some(popup@),
                None => None,
            },
        }
    }
}

/// The shares of width and height of the window above the main view.
pub open spec fn popup_shares(mode: ModeView) -> Option<(u16, u16)> {
    match mode {
        ModeView::Normal => None,
        ModeView::Help => Some((70, 65)),
        ModeView::Form(_) => Some((72, 58)),
        ModeView::ConfirmDelete => Some((58, 24)),
    }
}

/// The window above the main view, in its area.
pub open spec fn popup_in(app: AppView, area: Area) -> Option<PopupView> {
    match app.mode {
        ModeView::Normal => None,
        ModeView::Help => Some(
            PopupView {
                area,
                title: " Help "@,
                body: BodyView::Text(help_text()),
                centered: false,
                trim: false,
            },
        ),
        ModeView::Form(form) => Some(
            PopupView {
                area,
                title: form_title(form),
                body: BodyView::Lines(form_lines(form, app.color_enabled)),
                centered: false,
                trim: false,
            },
        ),
        ModeView::ConfirmDelete => Some(
            PopupView {
                area,
                title: " Confirm "@,
                body: BodyView::Text(confirm_text(app)),
                centered: true,
                trim: true,
            },
        ),
    }
}

/// The area of the overview: not higher than its text.
pub open spec fn bar_area(chunk: Area, bar: u16) -> Area {
    Area {
        height: if bar < chunk.height {
            bar
        } else {
            chunk.height
        },
        ..chunk
    }
}

/// The screen, given the width of the view, the height of the overview, the parts of the main
/// view and the area of a window above it.
pub open spec fn composed(
    app: AppView,
    width: u16,
    bar: u16,
    chunks: Seq<Area>,
    popup: Area,
    home: Option<Seq<u8>>,
) -> ScreenView {
    ScreenView {
        title_area: chunks[0],
        title: title_line(app),
        table_area: chunks[2],
        headings: headings(width),
        heading_style: accent(app.color_enabled),
        widths: column_extents(width),
        rows: Seq::new(app.repositories.len(), |i: int| row_cells(app, i, width, home)),
        highlight_style: accent(app.color_enabled),
        selected: app.selected,
        details_area: chunks[3],
        details: details_text(app, width, home),
        bar_area: bar_area(chunks[1], bar),
        bar: overview_text(app),
        bar_style: overview_style(app),
        shortcuts_area: chunks[4],
        shortcuts: shortcuts_text(width),
        shortcuts_style: quiet(app.color_enabled),
        popup: popup_in(app, popup),
    }
}

/// Whether an area can be that of the window above the main view.
pub open spec fn popup_fits(mode: ModeView, full: Area, popup: Area) -> bool {
    popup_shares(mode) matches Some(shares) ==> can_center(shares.0, shares.1, full, popup)
}

/// Whether parts can be those of the main view.
pub open spec fn chunks_fit(app: AppView, area: Area, bar: u16, chunks: Seq<Area>) -> bool {
    &&& chunks.len() == 6
    &&& spans(area, Axis::Vertical, chunks)
    &&& can_split(
        area,
        Axis::Vertical,
        main_extents(app.repositories.len(), area, bar),
        chunks,
    )
}

/// How high the overview is in a terminal.
pub open spec fn bar_needed(app: AppView, full: Area) -> u16 {
    bar_height(wrapped_lines(overview_text(app), inner_area(full).width))
}

impl App {
    fn popup(&self, area: Area) -> (popup: Option<Popup>)
        requires
            self@.rows_fit(),
        ensures
            match popup {
                Some(popup) => popup_in(self@, area) == Some(popup@),
                None => popup_in(self@, area) is None,
            },
    {
        match &self.mode {
            Mode::Normal => None,
            Mode::Help => Some(
                Popup {
                    area,
                    title: " Help ".to_owned(),
                    body: PopupBody::Text(help()),
                    centered: false,
                    trim: false,
                },
            ),
            Mode::Form(form) => Some(
                Popup {
                    area,
                    title: form.title(),
                    body: PopupBody::Lines(form.lines(self.color_enabled)),
                    centered: false,
                    trim: false,
                },
            ),
            Mode::ConfirmDelete => Some(
                Popup {
                    area,
                    title: " Confirm ".to_owned(),
                    body: PopupBody::Text(self.confirmation()),
                    centered: true,
                    trim: true,
                },
            ),
        }
    }

    /// The screen, given the width of the view, the height of the overview, the parts of the
    /// main view and the area of a window above it.
    pub fn compose(
        &self,
        width: u16,
        bar: u16,
        chunks: &Vec<Area>,
        popup: Area,
        home: Option<&RawPath>,
    ) -> (screen: Screen)
        requires
            drawable(self@),
            chunks@.len() == 6,
        ensures
            screen@ == composed(self@, width, bar, chunks@, popup, borrowed_path(home)),
    {
        let (text, style) = self.overview_bar();
        let chunk = chunks[1];
        let height: u16 = if bar < chunk.height {
            bar
        } else {
            chunk.height
        };
        let screen = Screen {
            title_area: chunks[0],
            title: self.title(),
            table_area: chunks[2],
            headings: table_headings(width),
            heading_style: accent_style(self.color_enabled),
            widths: table_widths(width),
            rows: self.table_rows(width, home),
            highlight_style: accent_style(self.color_enabled),
            selected: self.selected,
            details_area: chunks[3],
            details: self.details(width, home),
            bar_area: Area { x: chunk.x, y: chunk.y, width: chunk.width, height },
            bar: text,
            bar_style: style,
            shortcuts_area: chunks[4],
            shortcuts: shortcuts(width),
            shortcuts_style: quiet_style(self.color_enabled),
            popup: self.popup(popup),
        };
        assert(screen@ =~= composed(self@, width, bar, chunks@, popup, borrowed_path(home)));
        screen
    }

    fn popup_area(&self, full: Area) -> (area: Area)
        ensures
            popup_fits(self@.mode, full, area),
    {
        match &self.mode {
            Mode::Normal => full,
            Mode::Help => centered_rect(70, 65, full),
            Mode::Form(_) => centered_rect(72, 58, full),
            Mode::ConfirmDelete => centered_rect(58, 24, full),
        }
    }

    /// The screen for a terminal. There is none where the columns of the overview cannot be
    /// added up, or where it is too high to lay anything out beside it.
    pub fn render(&self, full: Area, home: Option<&RawPath>) -> (screen: Option<Screen>)
        requires
            drawable(self@),
        ensures
            match screen {
                None => !countable(
                    symbol_widths(overview_text(self@)),
                    inner_area(full).width,
                ) || bar_needed(self@, full) > TALLEST_BAR,
                Some(screen) => {
                    &&& countable(symbol_widths(overview_text(self@)), inner_area(full).width)
                    &&& bar_needed(self@, full) <= TALLEST_BAR
                    &&& exists|chunks: Seq<Area>, popup: Area|
                        chunks_fit(
                            self@,
                            inner_area(full),
                            bar_needed(self@, full),
                            chunks,
                        ) && popup_fits(self@.mode, full, popup) && screen@
                            == #[trigger] composed(
                            self@,
                            inner_area(full).width,
                            bar_needed(self@, full),
                            chunks,
                            popup,
                            borrowed_path(home),
                        )
                },
            },
    {
        let area = inside(full);
        let (text, _style) = self.overview_bar();
        if !is_countable(&widths_of(text.as_str()), area.width) {
            return None;
        }
        let bar: u16 = height_of(count_lines(text.as_str(), area.width));
        if bar > TALLEST_BAR {
            return None;
        }
        let extents = layout_extents(self.repositories.len(), area, bar);
        let chunks = split(area, Axis::Vertical, &extents);
        let popup = self.popup_area(full);
        let screen = self.compose(area.width, bar, &chunks, popup, home);
        assert(chunks_fit(self@, inner_area(full), bar_needed(self@, full), chunks@));
        assert(screen@ == composed(
            self@,
            inner_area(full).width,
            bar_needed(self@, full),
            chunks@,
            popup,
            borrowed_path(home),
        ));
        Some(screen)
    }
}

/// Every state that the interface can be in can be drawn.
pub proof fn valid_states_are_drawable(app: AppView)
    requires
        app.sound(),
    ensures
        drawable(app),
{
}

/// Without colors the overview says the same.
pub proof fn overview_needs_no_color(app: AppView, color_enabled: bool)
    ensures
        overview_text(AppView { color_enabled, ..app }) == overview_text(app),
{
}

/// The parts of the main view have the room that they ask for, unless the terminal is too low
/// for a table at all.
pub proof fn main_view_fits(count: nat, area: Area, bar: u16)
    requires
        bar <= TALLEST_BAR,
        area.height >= bar + 6,
    ensures
        2 + (bar + 1) + table_height(count, area, bar) + 2 + 1 <= area.height,
{
}

} // verus!
