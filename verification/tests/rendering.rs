use ratatui::backend::TestBackend;
use ratatui::layout::{Alignment, Constraint, Rect};
use ratatui::style::{Color, Modifier, Style};
use ratatui::text::{Line, Span};
use ratatui::widgets::{Block, Borders, Cell, Clear, Paragraph, Row, Table, TableState, Wrap};
use ratatui::{Frame, Terminal};
use repo_sync::git::{Settings, Timeout};
use repo_sync::model::{Inspection, Repository, Strategy, SyncKind, SyncResult};
use repo_sync::paint;
use repo_sync::path::RawPath;
use repo_sync::rows::RowState;
use repo_sync::screen::{self, Area, Extent, PopupBody, Screen};
use repo_sync::tui::{App, Mode, UiMessage};

fn settings() -> Settings {
    Settings {
        jobs: 2,
        fetch_attempts: 1,
        terminal_prompt: false,
        command_timeout: Timeout { seconds: 5, nanos: 0 },
    }
}

fn app_with_repositories(names: &[&str]) -> App {
    let list = names
        .iter()
        .map(|name| Repository {
            name: (*name).to_owned(),
            path: RawPath::from_text(&format!("/tmp/{name}")),
            strategy: Strategy::Rebase,
            submodules: false,
        })
        .collect();
    App::new(list, settings(), true)
}

fn reserve(app: &mut App, indices: Vec<usize>) -> u64 {
    let keys: Vec<RawPath> = app.repositories.iter().map(|item| item.path.clone()).collect();
    app.reserve_sync_batch(&indices, &keys)
}

fn complete(app: &mut App, run_id: u64, index: usize, kind: SyncKind) {
    let results = vec![SyncResult {
        repository: app.repositories[index].clone(),
        kind,
        dirty: false,
        detail: String::new(),
    }];
    app.drain_messages(&vec![UiMessage::SyncComplete { run_id, results }]);
}

fn color(color: paint::Color) -> Color {
    match color {
        paint::Color::Black => Color::Black,
        paint::Color::Red => Color::Red,
        paint::Color::Green => Color::Green,
        paint::Color::Yellow => Color::Yellow,
        paint::Color::Blue => Color::Blue,
        paint::Color::Magenta => Color::Magenta,
        paint::Color::Cyan => Color::Cyan,
        paint::Color::Gray => Color::Gray,
        paint::Color::DarkGray => Color::DarkGray,
        paint::Color::LightRed => Color::LightRed,
        paint::Color::White => Color::White,
    }
}

fn style(style: paint::Style) -> Style {
    let mut result = Style::default();
    if let Some(foreground) = style.foreground {
        result = result.fg(color(foreground));
    }
    if let Some(background) = style.background {
        result = result.bg(color(background));
    }
    if style.bold {
        result = result.add_modifier(Modifier::BOLD);
    }
    if style.reversed {
        result = result.add_modifier(Modifier::REVERSED);
    }
    result
}

fn rect(area: Area) -> Rect {
    Rect { x: area.x, y: area.y, width: area.width, height: area.height }
}

fn line(spans: &[screen::Span]) -> Line<'static> {
    Line::from(
        spans
            .iter()
            .map(|span| Span::styled(span.text.clone(), style(span.style)))
            .collect::<Vec<_>>(),
    )
}

fn draw(frame: &mut Frame<'_>, screen: &Screen) {
    frame.render_widget(Paragraph::new(line(&screen.title)), rect(screen.title_area));
    let rows = screen.rows.iter().map(|cells| {
        Row::new(
            cells
                .iter()
                .map(|cell| Cell::from(cell.text.clone()).style(style(cell.style)))
                .collect::<Vec<_>>(),
        )
    });
    let widths = screen.widths.iter().map(|extent| match extent {
        Extent::Length(size) => Constraint::Length(*size),
        Extent::Min(size) => Constraint::Min(*size),
        Extent::Percentage(share) => Constraint::Percentage(*share),
    });
    let table = Table::new(rows, widths)
        .header(Row::new(screen.headings.clone()).style(style(screen.heading_style)))
        .row_highlight_style(style(screen.highlight_style))
        .highlight_symbol("> ");
    let mut state = TableState::default();
    state.select(screen.selected);
    frame.render_stateful_widget(table, rect(screen.table_area), &mut state);
    frame.render_widget(
        Paragraph::new(screen.details.clone()).wrap(Wrap { trim: true }),
        rect(screen.details_area),
    );
    frame.render_widget(
        Paragraph::new(screen.bar.clone())
            .style(style(screen.bar_style))
            .wrap(Wrap { trim: true }),
        rect(screen.bar_area),
    );
    frame.render_widget(
        Paragraph::new(screen.shortcuts.clone()).style(style(screen.shortcuts_style)),
        rect(screen.shortcuts_area),
    );
    if let Some(popup) = &screen.popup {
        frame.render_widget(Clear, rect(popup.area));
        let body = match &popup.body {
            PopupBody::Text(text) => Paragraph::new(text.clone()),
            PopupBody::Lines(lines) => {
                Paragraph::new(lines.iter().map(|spans| line(spans)).collect::<Vec<_>>())
            }
        };
        let alignment = if popup.centered { Alignment::Center } else { Alignment::Left };
        frame.render_widget(
            body.alignment(alignment)
                .wrap(Wrap { trim: popup.trim })
                .block(Block::default().title(popup.title.clone()).borders(Borders::ALL)),
            rect(popup.area),
        );
    }
}

fn full(width: u16, height: u16) -> Area {
    Area { x: 0, y: 0, width, height }
}

fn terminal(app: &App, width: u16, height: u16) -> Terminal<TestBackend> {
    let mut terminal = Terminal::new(TestBackend::new(width, height)).unwrap();
    terminal
        .draw(|frame| {
            let screen = app.render(full(width, height), None).unwrap();
            draw(frame, &screen);
        })
        .unwrap();
    terminal
}

fn lines(app: &App, width: u16, height: u16) -> Vec<String> {
    terminal(app, width, height)
        .backend()
        .buffer()
        .content()
        .chunks(usize::from(width))
        .map(|row| row.iter().map(|cell| cell.symbol()).collect::<String>())
        .collect()
}

#[test]
fn renders_empty_and_narrow_terminals_without_panicking() {
    let app = app_with_repositories(&[]);
    for (width, height) in [(120, 40), (80, 24), (40, 10)] {
        let rendered = lines(&app, width, height).join("");
        if width == 40 {
            assert!(rendered.contains("q"));
        }
    }
    for (width, height) in [(0, 0), (1, 1), (2, 3), (5, 200)] {
        assert!(app.render(full(width, height), None).is_some());
    }
}

#[test]
fn completion_is_visible_only_after_every_batch_finishes() {
    let mut app = app_with_repositories(&["one", "two"]);
    let first = reserve(&mut app, vec![0]);
    let second = reserve(&mut app, vec![1]);
    complete(&mut app, first, 0, SyncKind::Updated);
    assert!(app.completion.is_none());
    complete(&mut app, second, 1, SyncKind::Failed);
    assert!(app.completion.as_ref().unwrap().failed);

    for color in [true, false] {
        app.color_enabled = color;
        for (width, height) in [(120, 24), (40, 12)] {
            let text = lines(&app, width, height).join("\n");
            assert!(text.contains("SYNC ENDED WITH ERRORS"));
            assert!(text
                .split_whitespace()
                .collect::<Vec<_>>()
                .join(" ")
                .contains("2/2 repos"));
            assert!(text.contains("q quit"));
            if !color && width == 40 {
                println!("{text}");
            }
        }
    }
    reserve(&mut app, vec![0]);
    assert!(app.completion.is_none());
}

#[test]
fn overview_merges_counts_and_uses_dark_text_for_errors() {
    let mut app = app_with_repositories(&["one", "two"]);
    app.color_enabled = true;
    reserve(&mut app, vec![0, 1]);
    app.states[0] = RowState::Planning;
    app.update_sync_status();
    let drawn = terminal(&app, 120, 24);
    let buffer = drawn.backend().buffer();
    let bar: String = buffer.content()[240..360].iter().map(|cell| cell.symbol()).collect();
    assert!(bar.contains("FETCHING  0/2 (0%)"));
    assert!(bar.contains("1 waiting, 1 fetching, 0 queued, 0 pulling"));
    assert!(!bar.contains("sync 0/2"));
    assert_eq!(buffer[(80, 2)].bg, Color::Cyan);
    assert_eq!(buffer[(1, 3)].bg, Color::Reset);
    app.sync_batches.clear();
    app.sync_totals.finished = 2;
    app.sync_totals.failed = 2;
    app.finish_sync();
    let drawn = terminal(&app, 120, 24);
    let buffer = drawn.backend().buffer();
    let bar: String = buffer.content()[240..360].iter().map(|cell| cell.symbol()).collect();
    assert!(bar.contains("SYNC ENDED WITH ERRORS") && bar.contains("2 failed"));
    assert_eq!(buffer[(1, 2)].fg, Color::Black);
    assert_eq!(buffer[(1, 2)].bg, Color::LightRed);
}

fn bar(app: &App) -> (String, Color, Modifier) {
    let drawn = terminal(app, 80, 24);
    let buffer = drawn.backend().buffer();
    let text = buffer.content()[160..240].iter().map(|cell| cell.symbol()).collect();
    (text, buffer[(1, 2)].bg, buffer[(1, 2)].modifier)
}

#[test]
fn overview_bar_distinguishes_stages_and_keeps_progress_without_color() {
    let mut app = app_with_repositories(&["one", "two"]);
    app.color_enabled = true;
    assert_eq!(bar(&app).1, Color::DarkGray);
    reserve(&mut app, vec![0, 1]);
    app.sync_totals.finished = 1;
    for (state, label, color) in [
        (RowState::Waiting, "WAITING", Color::DarkGray),
        (RowState::Planning, "FETCHING", Color::Cyan),
        (RowState::Prepared(String::new()), "QUEUED", Color::Blue),
        (RowState::Updating(String::new()), "SYNCING", Color::Magenta),
    ] {
        app.states[0] = state;
        let (text, background, _) = bar(&app);
        assert!(text.contains(label) && text.contains("1/2 (50%)"));
        assert_eq!(background, color);
    }
    app.color_enabled = false;
    let (text, background, modifiers) = bar(&app);
    assert!(text.contains("SYNCING  1/2 (50%)"));
    assert_eq!(background, Color::Reset);
    assert!(modifiers.contains(Modifier::REVERSED));
    app.color_enabled = true;
    app.sync_totals.finished = 2;
    assert!(bar(&app).0.contains("FINISHING"));
    app.sync_batches.clear();
    app.finish_sync();
    assert_eq!(bar(&app).1, Color::Green);
    app.sync_totals.failed = 1;
    app.finish_sync();
    assert_eq!(bar(&app).1, Color::LightRed);
    app.completion = None;
    app.refresh_run = Some(3);
    assert!(bar(&app).0.contains("REFRESHING"));
    app.quit_pending = true;
    assert_eq!(bar(&app).1, Color::Yellow);
}

#[test]
fn tall_terminal_keeps_progress_and_details_next_to_repositories() {
    let mut app = app_with_repositories(&["alpha", "beta", "gamma"]);
    reserve(&mut app, vec![0, 1, 2]);
    app.update_sync_status();
    let lines = lines(&app, 120, 80);
    let progress = lines.iter().position(|line| line.contains("WAITING  0/3")).unwrap();
    let last_repo = lines.iter().position(|line| line.contains("gamma")).unwrap();
    let details = lines.iter().position(|line| line.contains("details")).unwrap();
    assert!(progress < 5);
    assert!(details > last_repo && details <= last_repo + 2);
    assert!(lines.iter().position(|line| line.contains("q quit")).unwrap() < 15);
    println!("{}", lines[..13].join("\n"));
}

#[test]
fn long_repository_list_scrolls_beneath_the_overview() {
    let names: Vec<_> = (0..60).map(|index| format!("repo-{index:02}")).collect();
    let mut app = app_with_repositories(&names.iter().map(String::as_str).collect::<Vec<_>>());
    app.selected = Some(59);
    let lines = lines(&app, 120, 24);
    assert!(lines[..5].iter().any(|line| line.contains("READY")));
    assert!(lines.iter().any(|line| line.contains("repo-59")));
    assert!(lines.iter().any(|line| line.contains("details")));
    assert!(lines.iter().any(|line| line.contains("q quit")));
}

#[test]
fn main_view_has_no_panel_borders() {
    let app = app_with_repositories(&[]);
    let rendered = lines(&app, 80, 24).join("");
    assert!(!rendered.contains(['┌', '┐', '└', '┘', '│', '─']));
}

#[test]
fn renders_unicode_repository_fields() {
    let list = vec![Repository {
        name: "项目-很长的名字".to_owned(),
        path: RawPath::from_text("/tmp/代码 仓库"),
        strategy: Strategy::Merge,
        submodules: true,
    }];
    let mut app = App::new(list, settings(), true);
    app.states[0] = RowState::Ready(Inspection {
        branch: Some("功能/测试".to_owned()),
        updates: Some(2),
        ..Inspection::default()
    });
    let rendered = lines(&app, 80, 24).join("");
    assert!(rendered.contains("yes"));
}

#[test]
fn wide_tables_have_more_columns() {
    let mut app = app_with_repositories(&["one"]);
    app.marked.push("one".to_owned());
    assert_eq!(screen::table_headings(59), vec!["", "name", "status"]);
    assert_eq!(screen::table_headings(60), vec!["", "name", "status", "path"]);
    assert_eq!(
        screen::table_headings(100),
        vec!["", "name", "status", "branch", "strategy", "sub", "path"]
    );
    let home = RawPath::from_text("/tmp");
    for width in [59, 60, 100] {
        let cells: Vec<String> = app.table_rows(width, Some(&home))[0]
            .iter()
            .map(|cell| cell.text.clone())
            .collect();
        assert_eq!(cells.len(), screen::table_headings(width).len());
        assert_eq!(cells.len(), screen::table_widths(width).len());
        assert_eq!(&cells[..3], ["●", "one", "idle"]);
    }
    let wide: Vec<String> =
        app.table_rows(100, Some(&home))[0].iter().map(|cell| cell.text.clone()).collect();
    assert_eq!(&wide[3..], ["-", "rebase", "no", "~/one"]);
    assert_eq!(app.details(99, Some(&home)), "details  idle\n~/one · rebase · sub=false");
    assert_eq!(app.details(100, Some(&home)), "details  idle");
}

#[test]
fn title_counts_repositories_and_marks() {
    let mut app = app_with_repositories(&["one", "two"]);
    app.toggle_mark();
    let title = app.title();
    assert_eq!(title[0].text, "repo-sync");
    assert_eq!(title[1].text, "  2 repos · 1 marked");
}

#[test]
fn windows_are_centered_on_the_screen() {
    let middle = screen::centered_rect(50, 50, full(80, 24));
    assert_eq!(middle, Area { x: 20, y: 6, width: 40, height: 12 });
    let mut app = app_with_repositories(&["one"]);
    app.mode = Mode::ConfirmDelete;
    let popup = app.render(full(80, 24), None).unwrap().popup.unwrap();
    assert_eq!(popup.title, " Confirm ");
    assert!(popup.area.x > 0 && popup.area.y > 0);
    assert!(popup.area.x + popup.area.width <= 80);
    let text = lines(&app, 80, 24).join("\n");
    assert!(text.contains("Remove one from the registry?"));
    app.mode = Mode::Help;
    let text = lines(&app, 100, 40).join("\n");
    assert!(text.contains("mark/unmark for a batch sync"));
    app.mode = Mode::Normal;
    app.handle_key(repo_sync::form::Key::Char('a'));
    let text = lines(&app, 100, 40).join("\n");
    assert!(text.contains("Add repository") && text.contains("Submodules  auto"));
}

#[test]
fn layout_leaves_room_for_everything() {
    let area = Area { x: 1, y: 0, width: 78, height: 24 };
    assert_eq!(
        screen::layout_extents(3, area, 1),
        vec![
            Extent::Length(2),
            Extent::Length(2),
            Extent::Length(5),
            Extent::Length(2),
            Extent::Length(1),
            Extent::Min(0),
        ]
    );
    assert_eq!(screen::layout_extents(100, area, 2)[2], Extent::Length(16));
    assert_eq!(screen::layout_extents(100, Area { height: 3, ..area }, 2)[2], Extent::Length(0));
    assert_eq!(screen::inside(full(80, 24)), area);
}

#[test]
fn great_widths_take_short_texts() {
    let mut app = app_with_repositories(&["one"]);
    assert_eq!(app.render(full(65_535, 30), None).unwrap().bar_area.height, 1);
    let height = |app: &App, width| {
        app.render(full(width, 30), None).map(|screen| screen.bar_area.height)
    };
    // The label stands on a line of its own, and the word takes the others.
    app.status = "x".repeat(70_000);
    assert_eq!(height(&app, 16_386), Some(6));
    assert_eq!(height(&app, 65_535), Some(3));
    app.status = "あ".repeat(30_000);
    assert_eq!(height(&app, 65_535), Some(1));
    app.status = "あ".repeat(40_000);
    assert_eq!(height(&app, 65_532), Some(3));
    assert_eq!(height(&app, 65_533), None);
    assert!(screen::is_countable(&vec![u16::MAX], u16::MAX));
    assert!(!screen::is_countable(&vec![u16::MAX, 1], u16::MAX));
    assert!(screen::is_countable(&vec![u16::MAX, 1], 16_384));
    assert!(!screen::is_countable(&vec![16_385, u16::MAX], 16_385));
}

#[test]
fn long_status_takes_more_lines() {
    let mut app = app_with_repositories(&["one"]);
    app.status = "word ".repeat(40);
    let wide = app.render(full(400, 30), None).unwrap();
    let narrow = app.render(full(40, 30), None).unwrap();
    assert_eq!(wide.bar_area.height, 1);
    assert!(narrow.bar_area.height > 5);
    app.status = "ready".to_owned();
    assert_eq!(app.overview_bar().0, " READY ");
    app.status = "x\n".repeat(70_000);
    assert!(app.render(full(40, 30), None).is_none());
}
