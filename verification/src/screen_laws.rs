//! What the screen shows, and where.
use crate::batch_laws::{rows_shown, stages_are_rows};
use crate::batches::Stage;
use crate::form::{FormSubmodules, FormView};
use crate::git::Settings;
use crate::model::{
    strategy_text, InspectionView, RepositoryView, Strategy, SyncKind, SyncResultView,
};
use crate::paint::{Color, Style};
use crate::path::displayed;
use crate::plan::SyncPlanView;
use crate::rows::{inspection_parts, plan_detail, row_color, row_detail, row_label, RowView};
use crate::screen::{
    centering, column_extents, composed, details_text, form_lines, headings, inner_area,
    main_extents, overview_color, overview_label, overview_summary, overview_text, percent_done,
    popup_in, popup_shares, ready_rows, row_cells, shortcuts_text, Area, BodyView, Extent,
    ScreenView, SpanView,
};
use crate::text::{decimal, joined, lower, padded, same_but_case};
use crate::text_laws::labels_are_cut_off;
use crate::tui::{started, AppView, ModeView};
use vstd::prelude::*;

verus! {

// ---------------------------------------------------------------------------
// Rows
// ---------------------------------------------------------------------------

/// What an inspection found is told: the error alone where there is one, and otherwise the
/// branch, the reference, the number of remote commits and the local changes, as far as they are
/// known. A plan tells the same as the inspection that finds what it was made from.
pub proof fn details_tell_what_was_found(
    inspection: InspectionView,
    plan: SyncPlanView,
    branch: Seq<char>,
    reference: Seq<char>,
    count: u64,
    error: Seq<char>,
)
    requires
        inspection.branch == Some(branch),
        inspection.compare_ref == Some(reference),
        inspection.updates == Some(count),
        inspection.error is None,
        plan.branch == branch,
        plan.compare_ref == reference,
        plan.update_count == count,
    ensures
        row_detail(RowView::Ready(InspectionView { dirty: false, ..inspection })) == "branch="@
            + branch + ("  ·  "@ + ("compare="@ + reference)) + ("  ·  "@ + ("remote updates="@
            + decimal(count as nat))),
        row_detail(RowView::Ready(InspectionView { dirty: true, ..inspection })) == row_detail(
            RowView::Ready(InspectionView { dirty: false, ..inspection }),
        ) + ("  ·  "@ + "local dirty"@),
        row_detail(RowView::Prepared(plan_detail(plan))) == row_detail(
            RowView::Ready(InspectionView { dirty: false, ..inspection }),
        ),
        row_detail(RowView::Updating(plan_detail(plan))) == row_detail(
            RowView::Ready(InspectionView { dirty: false, ..inspection }),
        ),
        row_detail(RowView::Ready(InspectionView { error: Some(error), ..inspection })) == error,
{
    let clean = InspectionView { dirty: false, ..inspection };
    let dirty = InspectionView { dirty: true, ..inspection };
    let first = "branch="@ + branch;
    let second = "compare="@ + reference;
    let third = "remote updates="@ + decimal(count as nat);
    assert(inspection_parts(clean) =~= seq![first, second, third]);
    assert(inspection_parts(dirty) =~= seq![first, second, third, "local dirty"@]);
    reveal_with_fuel(joined, 4);
    assert(seq![first, second, third].drop_last() =~= seq![first, second]);
    assert(seq![first, second].drop_last() =~= seq![first]);
    assert(seq![first, second, third, "local dirty"@].drop_last() =~= seq![first, second, third]);
    assert("  ·  compare="@ =~= "  ·  "@ + "compare="@) by {
        reveal_strlit("  ·  compare=");
        reveal_strlit("  ·  ");
        reveal_strlit("compare=");
    }
    assert("  ·  remote updates="@ =~= "  ·  "@ + "remote updates="@) by {
        reveal_strlit("  ·  remote updates=");
        reveal_strlit("  ·  ");
        reveal_strlit("remote updates=");
    }
    assert(plan_detail(plan) =~= row_detail(RowView::Ready(clean)));
    assert(row_detail(RowView::Ready(dirty)) =~= row_detail(RowView::Ready(clean)) + ("  ·  "@
        + "local dirty"@));
}

/// A result that comes with local changes says so before its own words.
pub proof fn results_tell_local_changes(result: SyncResultView)
    ensures
        row_detail(RowView::Finished(SyncResultView { dirty: false, ..result })) == result.detail,
        result.detail.len() > 0 ==> row_detail(
            RowView::Finished(SyncResultView { dirty: true, ..result }),
        ) == "local dirty; "@ + result.detail,
        result.detail.len() == 0 ==> row_detail(
            RowView::Finished(SyncResultView { dirty: true, ..result }),
        ) == "local dirty"@,
{
    reveal_strlit("local dirty; ");
    reveal_strlit("local dirty");
    reveal_strlit("; ");
    assert("local dirty; "@ =~= "local dirty"@ + "; "@);
}

/// Red is what failed, yellow what has local changes, green what was updated or can be. The
/// words say the same.
pub proof fn colors_tell_the_state(row: RowView)
    ensures
        row_color(row) == Color::Red <==> match row {
            RowView::Ready(inspection) => inspection.error is Some,
            RowView::Finished(result) => result.kind == SyncKind::Failed,
            _ => false,
        },
        row_color(row) == Color::Yellow <==> match row {
            RowView::Ready(inspection) => inspection.error is None && inspection.dirty,
            _ => false,
        },
        row_color(row) == Color::Green <==> match row {
            RowView::Ready(inspection) => inspection.error is None && !inspection.dirty
                && inspection.updates is Some && inspection.updates->0 > 0,
            RowView::Finished(result) => result.kind == SyncKind::Updated,
            _ => false,
        },
        row_color(row) == Color::Cyan <==> row is Checking || row is Planning || row is Prepared
            || row is Updating,
        row is Ready ==> (row_label(row) == "unknown"@ <==> row_color(row) == Color::Red),
        row is Ready ==> (row_label(row) == "dirty"@ <==> row_color(row) == Color::Yellow),
        row is Ready ==> (row_label(row) == "yes"@ <==> row_color(row) == Color::Green),
        row is Ready ==> (row_label(row) == "no"@ <==> row_color(row) == Color::DarkGray),
{
    reveal_strlit("unknown");
    reveal_strlit("dirty");
    reveal_strlit("yes");
    reveal_strlit("no");
    assert("unknown"@.len() == 7 && "dirty"@.len() == 5 && "yes"@.len() == 3 && "no"@.len() == 2);
}

// ---------------------------------------------------------------------------
// The table
// ---------------------------------------------------------------------------

/// What stands under a heading in the row of a repository.
pub open spec fn under_heading(
    heading: Seq<char>,
    repository: RepositoryView,
    row: RowView,
    home: Option<Seq<u8>>,
    text: Seq<char>,
) -> bool {
    &&& heading == "name"@ ==> text == repository.name
    &&& heading == "status"@ ==> text == row_label(row)
    &&& heading == "branch"@ ==> text == match row {
        RowView::Ready(inspection) => match inspection.branch {
            Some(branch) => branch,
            None => "-"@,
        },
        _ => "-"@,
    }
    &&& heading == "strategy"@ ==> text == match repository.strategy {
        Strategy::Rebase => "rebase"@,
        Strategy::Merge => "merge"@,
    }
    &&& heading == "sub"@ ==> text == if repository.submodules {
        "yes"@
    } else {
        "no"@
    }
    &&& heading == "path"@ ==> text == displayed(repository.path, home)
}

proof fn headings_differ()
    ensures
        ""@.len() == 0,
        "name"@ != "status"@ && "name"@ != "branch"@ && "name"@ != "strategy"@ && "name"@ != "sub"@
            && "name"@ != "path"@ && "name"@ != ""@,
        "status"@ != "branch"@ && "status"@ != "strategy"@ && "status"@ != "sub"@ && "status"@
            != "path"@ && "status"@ != ""@,
        "branch"@ != "strategy"@ && "branch"@ != "sub"@ && "branch"@ != "path"@ && "branch"@
            != ""@,
        "strategy"@ != "sub"@ && "strategy"@ != "path"@ && "strategy"@ != ""@,
        "sub"@ != "path"@ && "sub"@ != ""@ && "path"@ != ""@,
{
    reveal_strlit("");
    reveal_strlit("name");
    reveal_strlit("status");
    reveal_strlit("branch");
    reveal_strlit("strategy");
    reveal_strlit("sub");
    reveal_strlit("path");
    assert("name"@.len() == 4 && "path"@.len() == 4 && "name"@[0] == 'n' && "path"@[0] == 'p');
    assert("status"@.len() == 6 && "branch"@.len() == 6 && "status"@[0] == 's' && "branch"@[0]
        == 'b');
    assert("strategy"@.len() == 8 && "sub"@.len() == 3 && ""@.len() == 0);
}

/// Each row has a cell for each heading, with what the heading says, and each column has a
/// width. The first cell is the mark. Name and status are always there, the path from sixty
/// columns on, and the rest from a hundred on.
pub proof fn cells_stand_under_their_heading(
    app: AppView,
    index: int,
    width: u16,
    home: Option<Seq<u8>>,
    column: int,
)
    requires
        0 <= index < app.repositories.len(),
        0 <= column < headings(width).len(),
    ensures
        row_cells(app, index, width, home).len() == headings(width).len(),
        column_extents(width).len() == headings(width).len(),
        under_heading(
            headings(width)[column],
            app.repositories[index],
            app.states[index],
            home,
            row_cells(app, index, width, home)[column].text,
        ),
        row_cells(app, index, width, home)[0].text == if app.marked.contains(
            app.repositories[index].name,
        ) {
            "●"@
        } else {
            " "@
        },
        headings(width)[0].len() == 0,
        headings(width).contains("name"@),
        headings(width).contains("status"@),
        headings(width).contains("path"@) <==> width >= 60,
        headings(width).contains("branch"@) <==> width >= 100,
        headings(width).contains("strategy"@) <==> width >= 100,
        headings(width).contains("sub"@) <==> width >= 100,
{
    headings_differ();
    let all = headings(width);
    assert(all[1] == "name"@ && all[2] == "status"@);
    if width >= 100 {
        assert(all =~= seq![""@, "name"@, "status"@, "branch"@, "strategy"@, "sub"@, "path"@]);
        assert(all[3] == "branch"@ && all[4] == "strategy"@ && all[5] == "sub"@ && all[6]
            == "path"@);
    } else if width >= 60 {
        assert(all =~= seq![""@, "name"@, "status"@, "path"@]);
        assert(all[3] == "path"@);
    } else {
        assert(all =~= seq![""@, "name"@, "status"@]);
    }
}

/// The details are those of the selected repository. Where the table has no room for them, path,
/// strategy and submodules are told below.
pub proof fn details_are_of_the_selected(
    app: AppView,
    index: usize,
    width: u16,
    home: Option<Seq<u8>>,
)
    requires
        app.rows_fit(),
        app.selected == Some(index),
    ensures
        ({
            let repository = app.repositories[index as int];
            let told = "details  "@ + row_detail(app.states[index as int]);
            &&& width >= 100 ==> details_text(app, width, home) == told
            &&& width < 100 ==> details_text(app, width, home) == told + "\n"@ + displayed(
                repository.path,
                home,
            ) + " · "@ + match repository.strategy {
                Strategy::Rebase => "rebase"@,
                Strategy::Merge => "merge"@,
            } + " · sub="@ + if repository.submodules {
                "true"@
            } else {
                "false"@
            }
        }),
        details_text(AppView { selected: None, ..app }, width, home)
            == "details  No repositories registered. Press a to add one."@,
{
    let repository = app.repositories[index as int];
    let detail = row_detail(app.states[index as int]);
    reveal_strlit("details  ");
    reveal_strlit("No repositories registered. Press a to add one.");
    reveal_strlit("details  No repositories registered. Press a to add one.");
    assert(details_text(AppView { selected: None, ..app }, width, home)
        =~= "details  No repositories registered. Press a to add one."@);
    let strategy = match repository.strategy {
        Strategy::Rebase => "rebase"@,
        Strategy::Merge => "merge"@,
    };
    let submodules = if repository.submodules {
        "true"@
    } else {
        "false"@
    };
    if width < 100 {
        assert(details_text(app, width, home) =~= "details  "@ + detail + "\n"@ + displayed(
            repository.path,
            home,
        ) + " · "@ + strategy + " · sub="@ + submodules);
    }
}

// ---------------------------------------------------------------------------
// Colors
// ---------------------------------------------------------------------------

/// Whether a style leaves the colors to the terminal.
pub open spec fn colorless(style: Style) -> bool {
    style.foreground is None && style.background is None
}

/// Whether nothing of a line has a color.
pub open spec fn colorless_line(line: Seq<SpanView>) -> bool {
    forall|i: int| 0 <= i < line.len() ==> colorless((#[trigger] line[i]).style)
}

/// Whether nothing of a screen has a color.
pub open spec fn colorless_screen(screen: ScreenView) -> bool {
    &&& colorless_line(screen.title)
    &&& colorless(screen.heading_style)
    &&& colorless(screen.highlight_style)
    &&& colorless(screen.bar_style)
    &&& colorless(screen.shortcuts_style)
    &&& forall|i: int| 0 <= i < screen.rows.len() ==> colorless_line(#[trigger] screen.rows[i])
    &&& screen.popup matches Some(popup) ==> popup.body matches BodyView::Lines(lines) ==> {
        forall|i: int| 0 <= i < lines.len() ==> colorless_line(#[trigger] lines[i])
    }
}

/// Without colors nothing on the screen has one. What stands out is bold, and the bar is
/// reversed.
pub proof fn colors_can_be_left_out(
    app: AppView,
    width: u16,
    bar: u16,
    chunks: Seq<Area>,
    popup: Area,
    home: Option<Seq<u8>>,
)
    requires
        !app.color_enabled,
    ensures
        ({
            let screen = composed(app, width, bar, chunks, popup, home);
            &&& colorless_screen(screen)
            &&& screen.heading_style.bold && screen.highlight_style.bold
            &&& screen.bar_style.bold && screen.bar_style.reversed
        }),
{
    let screen = composed(app, width, bar, chunks, popup, home);
    assert forall|i: int| 0 <= i < screen.rows.len() implies colorless_line(
        #[trigger] screen.rows[i],
    ) by {
        assert(screen.rows[i] == row_cells(app, i, width, home));
    }
}

/// With colors the status of each row has the color of its state, and the bar that of what goes
/// on, with letters that can be read on it.
pub proof fn colors_are_shown(
    app: AppView,
    width: u16,
    bar: u16,
    chunks: Seq<Area>,
    popup: Area,
    home: Option<Seq<u8>>,
    index: int,
)
    requires
        app.color_enabled,
        0 <= index < app.repositories.len(),
    ensures
        ({
            let screen = composed(app, width, bar, chunks, popup, home);
            let letters = screen.bar_style.foreground;
            &&& screen.rows.len() == app.repositories.len()
            &&& screen.rows[index][2].style.foreground == Some(row_color(app.states[index]))
            &&& screen.rows[index][2].style.background is None
            &&& colorless(screen.rows[index][0].style) && colorless(screen.rows[index][1].style)
            &&& screen.bar_style.background == Some(overview_color(app))
            &&& letters == Some(Color::White) || letters == Some(Color::Black)
            &&& letters == Some(Color::White) <==> screen.bar_style.background == Some(Color::Blue)
                || screen.bar_style.background == Some(Color::DarkGray)
            &&& screen.bar_style.bold && !screen.bar_style.reversed
            &&& screen.heading_style.foreground == Some(Color::Cyan)
            &&& screen.highlight_style.foreground == Some(Color::Cyan)
            &&& screen.shortcuts_style.foreground == Some(Color::DarkGray)
        }),
{
}

// ---------------------------------------------------------------------------
// The bar
// ---------------------------------------------------------------------------

proof fn ready_rows_are_counted(states: Seq<RowView>)
    ensures
        ready_rows(states) == states.filter(|row: RowView| row is Ready).len(),
    decreases states.len(),
{
    reveal(Seq::filter);
    if states.len() > 0 {
        ready_rows_are_counted(states.drop_last());
    }
}

/// While a refresh runs, the bar counts the rows that were found out. While batches run, it
/// names the furthest stage of a row and counts the repositories that have ended. What has ended
/// is shown until something else begins. A wait for the end goes before everything.
pub proof fn bars_tell_what_goes_on(app: AppView)
    ensures
        app.quit_pending ==> overview_label(app) == "WAITING TO QUIT"@ && overview_color(app)
            == Color::Yellow && overview_summary(app) == app.status,
        !app.quit_pending && app.completion is Some ==> overview_label(app)
            == app.completion->0.title && overview_color(app) == if app.completion->0.failed {
            Color::LightRed
        } else {
            Color::Green
        },
        !app.quit_pending && app.completion is Some && app.batches.len() == 0
            ==> overview_summary(app) == app.completion->0.summary,
        !app.quit_pending && app.completion is None && app.refresh_run is Some ==> overview_label(
            app,
        ) == "REFRESHING  "@ + decimal(app.states.filter(|row: RowView| row is Ready).len())
            + "/"@ + decimal(app.repositories.len()) && overview_color(app) == Color::Blue,
        !app.quit_pending && app.completion is None && app.batches.len() == 0
            ==> overview_summary(app) == app.status,
        !app.quit_pending && app.completion is None && app.refresh_run is None
            && app.batches.len() == 0 ==> overview_label(app) == "READY"@ && overview_color(app)
            == Color::DarkGray,
        !app.quit_pending && app.completion is None && app.refresh_run is None
            && app.batches.len() > 0 ==> ({
            let stage = if app.totals.finished == app.totals.launched {
                ("FINISHING"@, Color::Blue)
            } else if rows_shown(app, |row: RowView| row is Updating) > 0 {
                ("SYNCING"@, Color::Magenta)
            } else if rows_shown(app, |row: RowView| row is Planning) > 0 {
                ("FETCHING"@, Color::Cyan)
            } else if rows_shown(app, |row: RowView| row is Prepared) > 0 {
                ("QUEUED"@, Color::Blue)
            } else {
                ("WAITING"@, Color::DarkGray)
            };
            &&& overview_label(app) == stage.0 + "  "@ + decimal(app.totals.finished as nat)
                + "/"@ + decimal(app.totals.launched as nat) + " ("@ + decimal(
                percent_done(app.totals.finished, app.totals.launched),
            ) + "%)"@
            &&& overview_color(app) == stage.1
        }),
{
    ready_rows_are_counted(app.states);
    stages_are_rows(app.states, app.batches, Stage::Fetching, |row: RowView| row is Planning);
    stages_are_rows(app.states, app.batches, Stage::Queued, |row: RowView| row is Prepared);
    stages_are_rows(app.states, app.batches, Stage::Pulling, |row: RowView| row is Updating);
}

/// The share that has ended is in whole percent, rounded down. It is a hundred once all has
/// ended, and not before.
pub proof fn shares_are_rounded_down(finished: usize, launched: usize)
    requires
        finished <= launched,
        0 < launched,
        launched * 100 <= usize::MAX,
    ensures
        ({
            let share = percent_done(finished, launched);
            &&& share * launched <= finished * 100
            &&& finished * 100 < (share + 1) * launched
            &&& share <= 100
            &&& share == 100 <==> finished == launched
        }),
{
    let share = percent_done(finished, launched);
    let product = (finished * 100) as nat;
    let count = launched as nat;
    assert(share == product / count);
    vstd::arithmetic::div_mod::lemma_fundamental_div_mod(product as int, count as int);
    vstd::arithmetic::div_mod::lemma_mod_bound(product as int, count as int);
    assert(count * share == share * count) by (nonlinear_arith);
    assert((share + 1) * count == share * count + count) by (nonlinear_arith);
    if share > 100 {
        assert(share * count >= 101 * count) by (nonlinear_arith)
            requires
                share > 100,
        ;
    }
    if share == 100 {
        assert(share * count == 100 * count);
    }
    if finished == launched && share < 100 {
        assert((share + 1) * count <= 100 * count) by (nonlinear_arith)
            requires
                share < 100,
        ;
    }
}

/// The bar shows the label between spaces, and what there is to say beside it unless that is the
/// label itself.
pub proof fn bars_show_their_label(app: AppView)
    ensures
        overview_summary(app) == overview_label(app) ==> overview_text(app) == " "@
            + overview_label(app) + " "@,
        overview_summary(app).len() != overview_label(app).len() ==> overview_text(app) == " "@
            + overview_label(app) + "  |  "@ + overview_summary(app) + " "@,
{
}

// ---------------------------------------------------------------------------
// Areas
// ---------------------------------------------------------------------------

/// The lines that an extent asks for.
pub open spec fn asked(extent: Extent) -> int {
    match extent {
        Extent::Length(lines) => lines as int,
        _ => 0,
    }
}

/// One column is left free at each side.
pub proof fn sides_are_left_free(full: Area)
    requires
        2 <= full.width,
        full.x + full.width <= u16::MAX,
    ensures
        inner_area(full).x == full.x + 1,
        inner_area(full).x + inner_area(full).width + 1 == full.x + full.width,
        inner_area(full).y == full.y,
        inner_area(full).height == full.height,
{
}

/// Title, bar, table, details and shortcuts fit below each other. The table has a line for each
/// repository and two more where there is room for them, and takes all that is left otherwise.
pub proof fn parts_fit_below_each_other(count: nat, area: Area, bar: u16)
    requires
        6 + bar <= area.height,
    ensures
        ({
            let parts = main_extents(count, area, bar);
            let lines = asked(parts[0]) + asked(parts[1]) + asked(parts[2]) + asked(parts[3])
                + asked(parts[4]);
            &&& parts.len() == 6
            &&& asked(parts[1]) == bar + 1
            &&& lines <= area.height
            &&& asked(parts[2]) <= count + 2
            &&& asked(parts[2]) < count + 2 ==> lines == area.height
            &&& parts[5] == Extent::Min(0)
            &&& asked(parts[0]) == 2 && asked(parts[3]) == 2 && asked(parts[4]) == 1
        }),
{
}

/// A window stands in the middle: what is left is halved.
pub proof fn windows_stand_in_the_middle(percent: u16)
    requires
        percent <= 100,
    ensures
        centering(percent).len() == 3,
        centering(percent)[1] == Extent::Percentage(percent),
        centering(percent)[0] == centering(percent)[2],
        centering(percent)[0] matches Extent::Percentage(side) && 99 <= 2 * side + percent <= 100,
{
}

/// Each part of the screen is drawn in its area, and the table shows the selected row.
pub proof fn parts_have_their_area(
    app: AppView,
    width: u16,
    bar: u16,
    chunks: Seq<Area>,
    popup: Area,
    home: Option<Seq<u8>>,
)
    requires
        chunks.len() == 6,
    ensures
        ({
            let screen = composed(app, width, bar, chunks, popup, home);
            &&& screen.title_area == chunks[0]
            &&& screen.bar_area.x == chunks[1].x && screen.bar_area.y == chunks[1].y
            &&& screen.bar_area.width == chunks[1].width
            &&& screen.bar_area.height <= bar && screen.bar_area.height <= chunks[1].height
            &&& screen.bar_area.height == bar || screen.bar_area.height == chunks[1].height
            &&& screen.table_area == chunks[2]
            &&& screen.details_area == chunks[3]
            &&& screen.shortcuts_area == chunks[4]
            &&& screen.selected == app.selected
            &&& screen.headings == headings(width)
            &&& screen.widths == column_extents(width)
            &&& screen.details == details_text(app, width, home)
            &&& screen.bar == overview_text(app)
            &&& screen.title.len() == 2
            &&& screen.title[0].text == "repo-sync"@
            &&& screen.title[1].text == "  "@ + decimal(app.repositories.len()) + " repos · "@
                + decimal(app.marked.len()) + " marked"@
            &&& screen.popup is None <==> app.mode is Normal
            &&& screen.popup matches Some(window) ==> window.area == popup
        }),
{
}

// ---------------------------------------------------------------------------
// Windows
// ---------------------------------------------------------------------------

/// The text of a line.
pub open spec fn line_text(line: Seq<SpanView>) -> Seq<char>
    decreases line.len(),
{
    if line.len() == 0 {
        seq![]
    } else {
        line_text(line.drop_last()) + line.last().text
    }
}

proof fn two_texts(first: SpanView, second: SpanView)
    ensures
        line_text(seq![first, second]) == first.text + second.text,
{
    reveal_with_fuel(line_text, 3);
    assert(seq![first, second].drop_last() =~= seq![first]);
    assert(seq![first].drop_last() =~= seq![]);
    assert(line_text(seq![first, second]) =~= first.text + second.text);
}

/// A form shows what it holds beside the names of its fields. Of these lines the one that takes
/// the keys alone stands out. What is wrong is told below.
pub proof fn forms_show_their_fields(form: FormView, color_enabled: bool, field: int)
    requires
        0 <= field < 4,
    ensures
        ({
            let lines = form_lines(form, color_enabled);
            let line = lines[2 * field + 1];
            &&& line_text(lines[1]) == "Name        "@ + form.name
            &&& line_text(lines[3]) == "Path        "@ + form.path
            &&& line_text(lines[5]) == "Strategy    "@ + match form.strategy {
                Strategy::Rebase => "rebase"@,
                Strategy::Merge => "merge"@,
            }
            &&& line_text(lines[7]) == "Submodules  "@ + match form.submodules {
                FormSubmodules::Auto => "auto"@,
                FormSubmodules::Enabled => "true"@,
                FormSubmodules::Disabled => "false"@,
            }
            &&& line.len() == 2
            &&& line[0].style.bold == (form.field == field)
            &&& line[1].style == line[0].style
            &&& line[0].style.foreground == if color_enabled && form.field == field {
                Some(Color::Cyan)
            } else {
                None
            }
            &&& form.error matches Some(error) ==> lines.len() == 11 && lines[9].len() == 1
                && lines[9][0].text == error && lines[9][0].style.foreground == if color_enabled {
                Some(Color::Red)
            } else {
                None
            }
            &&& form.error is None ==> lines.len() == 10
        }),
{
    let lines = form_lines(form, color_enabled);
    reveal_strlit("Name");
    reveal_strlit("Path");
    reveal_strlit("Strategy");
    reveal_strlit("Submodules");
    reveal_strlit("Name        ");
    reveal_strlit("Path        ");
    reveal_strlit("Strategy    ");
    reveal_strlit("Submodules  ");
    assert(padded("Name"@, 12) =~= "Name        "@);
    assert(padded("Path"@, 12) =~= "Path        "@);
    assert(padded("Strategy"@, 12) =~= "Strategy    "@);
    assert(padded("Submodules"@, 12) =~= "Submodules  "@);
    assert(lines[1] =~= seq![lines[1][0], lines[1][1]]);
    assert(lines[3] =~= seq![lines[3][0], lines[3][1]]);
    assert(lines[5] =~= seq![lines[5][0], lines[5][1]]);
    assert(lines[7] =~= seq![lines[7][0], lines[7][1]]);
    two_texts(lines[1][0], lines[1][1]);
    two_texts(lines[3][0], lines[3][1]);
    two_texts(lines[5][0], lines[5][1]);
    two_texts(lines[7][0], lines[7][1]);
}

/// The question before a removal names the selected repository, and says that its files stay.
pub proof fn questions_name_the_repository(app: AppView, area: Area, index: usize)
    requires
        app.selected == Some(index),
        app.mode is ConfirmDelete,
    ensures
        popup_in(app, area) matches Some(window) && window.body == BodyView::Text(
            "Remove "@ + app.repositories[index as int].name
                + " from the registry?\nRepository files will not be deleted.\n\n[y/Enter] remove    [n/Esc] cancel"@,
        ) && window.title == " Confirm "@,
{
}

/// A form stands under the title of what it does.
pub proof fn forms_have_their_title(app: AppView, area: Area, form: FormView)
    requires
        app.mode == ModeView::Form(form),
    ensures
        popup_in(app, area) matches Some(window) && window.title == if form.editing_name is Some {
            " Edit repository "@
        } else {
            " Add repository "@
        } && window.body == BodyView::Lines(form_lines(form, app.color_enabled)),
{
}

/// While batches run, the bar leaves out what stands before the first colon of the status: the
/// label says it.
pub proof fn bars_leave_out_the_heading(app: AppView, heading: Seq<char>, rest: Seq<char>)
    requires
        !app.quit_pending,
        app.completion is None,
        app.status == heading + seq![':', ' '] + rest,
        forall|i: int| 0 <= i < heading.len() ==> #[trigger] heading[i] != ':',
    ensures
        app.batches.len() > 0 ==> overview_summary(app) == rest,
        app.batches.len() == 0 ==> overview_summary(app) == app.status,
{
    labels_are_cut_off(heading, rest);
}

/// At the beginning the bar says once that the interface is ready.
pub proof fn interfaces_say_they_are_ready(
    repositories: Seq<RepositoryView>,
    settings: Settings,
    color_enabled: bool,
)
    ensures
        overview_text(started(repositories, settings, color_enabled)) == " READY "@,
{
    let app = started(repositories, settings, color_enabled);
    reveal_strlit("READY");
    reveal_strlit("ready");
    reveal_strlit(" ");
    reveal_strlit(" READY ");
    let (left, right) = ("ready"@, "READY"@);
    assert(left[0] == 'r' && left[1] == 'e' && left[2] == 'a' && left[3] == 'd' && left[4] == 'y');
    assert(right[0] == 'R' && right[1] == 'E' && right[2] == 'A' && right[3] == 'D' && right[4]
        == 'Y');
    assert forall|i: int| 0 <= i < left.len() implies lower(#[trigger] left[i]) == lower(
        right[i],
    ) by {
        assert(i == 0 || i == 1 || i == 2 || i == 3 || i == 4);
    }
    assert(same_but_case(overview_summary(app), overview_label(app)));
    assert(overview_text(app) =~= " READY "@);
}

/// Each column has room for what stands in it: the status for every word, the strategy and the
/// submodules for theirs. Name and path have the room that is left.
pub proof fn columns_have_room(width: u16, column: int, row: RowView, strategy: Strategy)
    requires
        0 <= column < headings(width).len(),
    ensures
        ({
            let heading = headings(width)[column];
            let extent = column_extents(width)[column];
            &&& heading == "status"@ ==> extent == Extent::Length(10) && row_label(row).len() <= 10
            &&& heading == "strategy"@ ==> extent == Extent::Length(8) && strategy_text(
                strategy,
            ).len() <= 8 && "strategy"@.len() == 8
            &&& heading == "sub"@ ==> extent == Extent::Length(3) && "yes"@.len() == 3
            &&& heading == "branch"@ ==> extent == Extent::Length(16)
            &&& heading == "name"@ ==> extent == if width < 60 {
                Extent::Min(12)
            } else {
                Extent::Length(26)
            }
            &&& heading == "path"@ ==> extent == Extent::Min(12)
            &&& column == 0 ==> extent == Extent::Length(2)
        }),
{
    headings_differ();
    reveal_strlit("idle");
    reveal_strlit("queued");
    reveal_strlit("checking");
    reveal_strlit("waiting");
    reveal_strlit("fetching");
    reveal_strlit("pulling");
    reveal_strlit("updated");
    reveal_strlit("skipped");
    reveal_strlit("failed");
    reveal_strlit("unknown");
    reveal_strlit("dirty");
    reveal_strlit("yes");
    reveal_strlit("no");
    reveal_strlit("rebase");
    reveal_strlit("merge");
    reveal_strlit("strategy");
    let all = headings(width);
    if width >= 100 {
        assert(all =~= seq![""@, "name"@, "status"@, "branch"@, "strategy"@, "sub"@, "path"@]);
    } else if width >= 60 {
        assert(all =~= seq![""@, "name"@, "status"@, "path"@]);
    } else {
        assert(all =~= seq![""@, "name"@, "status"@]);
    }
}

/// There is a window where there is something to show in it, and it leaves room around: the help
/// and the form take about two thirds of the screen, the question is the smallest.
pub proof fn windows_leave_room(form: FormView)
    ensures
        popup_shares(ModeView::Normal) is None,
        popup_shares(ModeView::Help) == Some((70u16, 65u16)),
        popup_shares(ModeView::Form(form)) == Some((72u16, 58u16)),
        popup_shares(ModeView::ConfirmDelete) == Some((58u16, 24u16)),
{
}

/// The shortcuts are told in full where there is room, and else in short.
pub proof fn shortcuts_are_told(width: u16)
    ensures
        width >= 60 ==> shortcuts_text(width)
            == "↑/↓ move  Space mark  r refresh  s selected  S all  a/e/d edit  ? help  q quit"@,
        width < 60 ==> shortcuts_text(width) == "j/k move s sync S all ? help q quit"@,
{
}

} // verus!
