//! What the terminal shows.
use ratatui::layout::{Constraint, Direction, Layout, Rect};
use vocoder::screen::{
    can_draw, draw, place_body, place_levels, place_screen, place_status, render_body, render_config,
    render_connection_status, render_cpu_and_note, render_help, render_levels, render_status,
    render_title, Area, Block, Color, Placed, Span, Style, Widget,
};
use vocoder::tui::{App, Event, KeyCode, KeyEvent, KeyEventKind, Status};

const SCREEN: Area = Area { x: 0, y: 0, width: 80, height: 24 };

fn area(x: u16, y: u16, width: u16, height: u16) -> Area {
    Area { x, y, width, height }
}

fn app_with(status: Status) -> App {
    App::new(vec!["mic".to_string()], vec![], vec![]).with_status(status)
}

fn app() -> App {
    app_with(Status::default())
}

fn fg(color: Color) -> Style {
    Style { fg: Some(color), bg: None, bold: false }
}

fn bold(color: Color) -> Style {
    Style { fg: Some(color), bg: None, bold: true }
}

fn texts(line: &[Span]) -> Vec<&str> {
    line.iter().map(|s| s.text.as_str()).collect()
}

fn styles(line: &[Span]) -> Vec<Style> {
    line.iter().map(|s| s.style).collect()
}

fn paragraph(placed: &Placed) -> (&Vec<Vec<Span>>, &Block, bool) {
    match &placed.widget {
        Widget::Paragraph { lines, block, centered } => (lines, block, *centered),
        other => panic!("{:?}", other),
    }
}

fn gauge(placed: &Placed) -> (&Block, Style, u32, &str) {
    match &placed.widget {
        Widget::Gauge { block, style, ratio, label } => (block, *style, *ratio, label.as_str()),
        other => panic!("{:?}", other),
    }
}

#[test]
fn title_shows_the_name_and_the_mode() {
    let mut app = app();
    let placed = render_title(&app, SCREEN);
    assert_eq!(placed.area, SCREEN);
    let (lines, block, centered) = paragraph(&placed);
    assert!(centered);
    assert_eq!(lines.len(), 1);
    assert_eq!(texts(&lines[0]), vec![" ✦ ", "vocoder", " ✦ ", "[Vocoder]"]);
    assert_eq!(
        styles(&lines[0]),
        vec![bold(Color::Magenta), bold(Color::Cyan), bold(Color::Magenta), fg(Color::Yellow)]
    );
    assert!(block.bordered);
    assert_eq!(block.title, None);
    assert_eq!(block.border_style, fg(Color::Magenta));
    app.handle_event(&Event::Key(KeyEvent { code: KeyCode::Tab, kind: KeyEventKind::Press }));
    let placed = render_title(&app, SCREEN);
    assert_eq!(paragraph(&placed).0[0][3].text, "[Keyboard]");
}

#[test]
fn config_lists_every_field() {
    let mut app = app();
    app.handle_event(&Event::Key(KeyEvent { code: KeyCode::Down, kind: KeyEventKind::Press }));
    let placed = render_config(&app, area(1, 2, 3, 4));
    assert_eq!(placed.area, area(1, 2, 3, 4));
    match &placed.widget {
        Widget::List { items, block, highlight_style, highlight_symbol, selected } => {
            let entries: Vec<String> = items.iter().map(|l| texts(l).concat()).collect();
            assert_eq!(
                entries,
                vec![
                    " Audio Input     ◄ mic ►",
                    " Audio Output    ◄ (default) ►",
                    " MIDI Input      ◄ (first available) ►",
                    " Sample Rate     ◄ 44100 Hz ►",
                    " Buffer Size     ◄ 512 samples ►",
                    " MIDI Channel    ◄ Channel 1 ►",
                    " Formant Shift   ◄ 1.00x ►",
                    " Pitch Shift     ◄ +0.0 semitones ►",
                    " Gain            ◄ 300% ►",
                ]
            );
            for line in items {
                assert_eq!(styles(line), vec![fg(Color::White), fg(Color::Yellow)]);
                assert_eq!(line[0].text.chars().count(), 17);
            }
            assert_eq!(block.title.as_deref(), Some(" ⚙  Configuration "));
            assert_eq!(block.title_style, bold(Color::Cyan));
            assert!(block.bordered);
            assert_eq!(block.border_style, fg(Color::DarkGray));
            assert_eq!(highlight_style.fg, Some(Color::White));
            assert_eq!(highlight_style.bg, Some(Color::DarkGray));
            assert!(highlight_style.bold);
            assert_eq!(highlight_symbol, "▶ ");
            assert_eq!(*selected, Some(1));
        }
        other => panic!("{:?}", other),
    }
}

#[test]
fn connections_show_their_state() {
    let placed = render_connection_status(
        &app_with(Status { audio_running: true, ..Status::default() }),
        SCREEN,
    );
    let (lines, block, centered) = paragraph(&placed);
    assert!(!centered);
    assert_eq!(texts(&lines[0]), vec![" ● Audio  ", "Running"]);
    assert_eq!(styles(&lines[0]), vec![fg(Color::Green); 2]);
    assert_eq!(texts(&lines[1]), vec![" ○ MIDI   ", "Disconnected"]);
    assert_eq!(styles(&lines[1]), vec![fg(Color::Red); 2]);
    assert_eq!(block.title.as_deref(), Some(" ♪  Status "));
    let placed = render_connection_status(
        &app_with(Status { midi_connected: true, ..Status::default() }),
        SCREEN,
    );
    let lines = paragraph(&placed).0;
    assert_eq!(texts(&lines[0]), vec![" ○ Audio  ", "Stopped"]);
    assert_eq!(texts(&lines[1]), vec![" ● MIDI   ", "Connected"]);
}

#[test]
fn levels_clear_frame_and_meter() {
    let app = app_with(Status { input_level: 300_000, output_level: 1_234_567, ..Status::default() });
    let parts = vec![area(1, 1, 5, 1), area(1, 2, 5, 1)];
    let items = place_levels(&app, area(0, 0, 7, 4), &parts);
    assert_eq!(items.len(), 4);
    assert!(matches!(items[0].widget, Widget::Clear));
    assert_eq!(items[0].area, area(0, 0, 7, 4));
    match &items[1].widget {
        Widget::Frame { block } => assert_eq!(block.title.as_deref(), Some(" 🎚  Levels ")),
        other => panic!("{:?}", other),
    }
    assert_eq!(items[1].area, area(0, 0, 7, 4));
    let (block, style, ratio, label) = gauge(&items[2]);
    assert_eq!(items[2].area, parts[0]);
    assert_eq!(block.title.as_deref(), Some("  In "));
    assert_eq!(block.title_style, fg(Color::Green));
    assert!(!block.bordered);
    assert_eq!(style, Style { fg: Some(Color::Green), bg: Some(Color::Black), bold: true });
    assert_eq!((ratio, label), (300_000, "30%"));
    let (block, _, ratio, label) = gauge(&items[3]);
    assert_eq!(items[3].area, parts[1]);
    assert_eq!(block.title.as_deref(), Some(" Out "));
    assert_eq!((ratio, label), (1_000_000, "123%"));
}

#[test]
fn level_labels_round_half_to_even() {
    let parts = vec![SCREEN, SCREEN];
    let levels = [
        (5_000, "0%"),
        (5_001, "1%"),
        (15_000, "2%"),
        (24_999, "2%"),
        (25_000, "2%"),
        (995_000, "100%"),
        (i32::MAX, "214748%"),
        (-1, "-0%"),
        (-300_000, "-30%"),
        (-15_000, "-2%"),
        (i32::MIN, "-214748%"),
    ];
    for (level, expected) in levels {
        let app = app_with(Status { input_level: level, ..Status::default() });
        let items = place_levels(&app, SCREEN, &parts);
        assert_eq!(gauge(&items[2]).3, expected);
        assert_eq!(gauge(&items[2]).2, level.clamp(0, 1_000_000) as u32);
    }
    assert_eq!(format!("{:.0}%", -0.3f32 * 100.0), "-30%");
    assert_eq!(format!("{:.0}%", -0.000001f32 * 100.0), "-0%");
}

#[test]
fn levels_are_drawn_inside_their_frame() {
    let whole = area(10, 5, 20, 6);
    let items = render_levels(&app(), whole);
    assert_eq!(items[0].area, whole);
    assert_eq!(items[1].area, whole);
    assert_eq!(items[2].area, area(11, 6, 18, 2));
    assert_eq!(items[3].area, area(11, 8, 18, 2));
}

#[test]
fn levels_without_room_have_no_area() {
    let items = render_levels(&app(), area(10, 5, 20, 1));
    assert_eq!(items[2].area, area(0, 0, 0, 0));
    assert_eq!(items[3].area, area(0, 0, 0, 0));
}

#[test]
fn load_shows_percent_and_bar() {
    let loads = [
        (i32::MIN, "  0% ", 0, Color::Green),
        (-120_000, "  0% ", 0, Color::Green),
        (0, "  0% ", 0, Color::Green),
        (120_000, " 12% ", 2, Color::Green),
        (499_999, " 49% ", 9, Color::Green),
        (500_000, " 50% ", 10, Color::Yellow),
        (799_999, " 79% ", 15, Color::Yellow),
        (800_000, " 80% ", 16, Color::Red),
        (1_000_000, "100% ", 20, Color::Red),
        (1_049_999, "104% ", 20, Color::Red),
    ];
    for (cpu_usage, percent, cells, color) in loads {
        let placed =
            render_cpu_and_note(&app_with(Status { cpu_usage, ..Status::default() }), SCREEN);
        let (lines, block, centered) = paragraph(&placed);
        assert!(!centered);
        assert_eq!(block.title, None);
        assert_eq!(block.border_style, fg(Color::DarkGray));
        let full = "▰".repeat(cells);
        let rest = "▱".repeat(20 - cells);
        assert_eq!(texts(&lines[0]), vec![" CPU ", percent, full.as_str(), rest.as_str()]);
        assert_eq!(
            styles(&lines[0]),
            vec![fg(Color::White), bold(color), fg(color), fg(Color::DarkGray)]
        );
    }
}

#[test]
fn notes_are_joined() {
    let placed = render_cpu_and_note(&app(), SCREEN);
    assert_eq!(texts(&paragraph(&placed).0[1]), vec![" Note ", "♫ ---"]);
    let active_notes = vec!["C4".to_string(), "E4".to_string(), "G4".to_string()];
    let placed =
        render_cpu_and_note(&app_with(Status { active_notes, ..Status::default() }), SCREEN);
    let line = &paragraph(&placed).0[1];
    assert_eq!(texts(line), vec![" Note ", "♫ C4, E4, G4"]);
    assert_eq!(styles(line), vec![fg(Color::White), bold(Color::Yellow)]);
}

#[test]
fn help_names_the_keys() {
    let placed = render_help(area(0, 21, 80, 3));
    assert_eq!(placed.area, area(0, 21, 80, 3));
    let (lines, _, centered) = paragraph(&placed);
    assert!(centered);
    assert_eq!(
        texts(&lines[0]),
        vec![" ↑/k ↓/j ", "navigate  ", "←/h →/l ", "adjust  ", "q/Esc ", "quit"]
    );
    assert_eq!(lines[0][0].style, fg(Color::DarkGray));
    assert_eq!(lines[0][1].style, fg(Color::Gray));
}

#[test]
fn panels_are_put_together_in_order() {
    let app = app();
    let rows = vec![area(0, 0, 9, 1), area(0, 1, 9, 2), area(0, 3, 9, 3)];
    let status = place_status(&app, &rows, vec![render_help(SCREEN)]);
    assert_eq!(status.iter().map(|p| p.area).collect::<Vec<_>>(), vec![rows[0], SCREEN, rows[2]]);
    let columns = vec![area(0, 0, 4, 9), area(4, 0, 5, 9)];
    let body = place_body(&app, &columns, status);
    assert_eq!(body.len(), 4);
    assert_eq!(body[0].area, columns[0]);
    let screen = place_screen(&app, &rows, body);
    assert_eq!(screen.len(), 6);
    assert_eq!(screen[0].area, rows[0]);
    assert_eq!(screen[5].area, rows[2]);
    assert_eq!(screen[3].area, SCREEN);
}

#[test]
fn status_is_divided_into_rows() {
    let items = render_status(&app(), area(40, 3, 40, 18));
    let areas: Vec<Area> = items.iter().map(|p| p.area).collect();
    assert_eq!(
        areas,
        vec![
            area(40, 3, 40, 4),
            area(40, 7, 40, 4),
            area(40, 7, 40, 4),
            area(41, 8, 38, 1),
            area(41, 9, 38, 1),
            area(40, 11, 40, 10),
        ]
    );
}

#[test]
fn body_is_divided_into_columns() {
    let items = render_body(&app(), area(0, 3, 80, 18));
    assert_eq!(items[0].area, area(0, 3, 40, 18));
    assert_eq!(items[1].area, area(40, 3, 40, 4));
    assert_eq!(items[6].area, area(40, 11, 40, 10));
}

#[test]
fn screen_is_drawn_from_top_to_bottom() {
    let items = draw(&app(), SCREEN);
    assert_eq!(items.len(), 9);
    assert_eq!(items[0].area, area(0, 0, 80, 3));
    assert!(matches!(items[1].widget, Widget::List { .. }));
    assert_eq!(items[1].area, area(0, 3, 40, 18));
    assert!(matches!(items[3].widget, Widget::Clear));
    assert!(matches!(items[4].widget, Widget::Frame { .. }));
    assert_eq!(items[8].area, area(0, 21, 80, 3));
    assert_eq!(texts(&paragraph(&items[8]).0[0])[5], "quit");
}

#[test]
fn a_screen_can_be_drawn_up_to_a_full_bar() {
    for cpu_usage in [i32::MIN, -1, 0, 1_000_000, 1_049_999] {
        assert!(can_draw(&app_with(Status { cpu_usage, ..Status::default() })));
    }
    for cpu_usage in [1_050_000, 2_000_000, i32::MAX] {
        assert!(!can_draw(&app_with(Status { cpu_usage, ..Status::default() })));
    }
}

/// The areas of the panels on a screen with room for all of them.
fn panel_areas(whole: Area) -> Vec<Area> {
    let Area { x, y, width, height } = whole;
    let left = width - width / 2;
    let right = width / 2;
    vec![
        area(x, y, width, 3),
        area(x, y + 3, left, height - 6),
        area(x + left, y + 3, right, 4),
        area(x + left, y + 7, right, 4),
        area(x + left, y + 7, right, 4),
        area(x + left + 1, y + 8, right - 2, 1),
        area(x + left + 1, y + 9, right - 2, 1),
        area(x + left, y + 11, right, height - 14),
        area(x, y + height - 3, width, 3),
    ]
}

#[test]
fn every_panel_has_its_place() {
    for width in [4u16, 5, 6, 7, 39, 80, 81, 1001, 65000] {
        for height in [14u16, 15, 16, 17, 24, 25, 333, 65000] {
            for (x, y) in [(0u16, 0u16), (7, 5)] {
                let whole = area(x, y, width, height);
                let areas: Vec<Area> = draw(&app(), whole).iter().map(|p| p.area).collect();
                assert_eq!(areas, panel_areas(whole));
            }
        }
    }
}

#[test]
fn title_and_help_keep_their_rows() {
    for height in 6..14u16 {
        let items = draw(&app(), area(2, 1, 31, height));
        assert_eq!(items[0].area, area(2, 1, 31, 3));
        assert_eq!(items[1].area, area(2, 4, 16, height - 6));
        assert_eq!(items[8].area, area(2, 1 + height - 3, 31, 3));
    }
}

fn edges(parts: &[Rect]) -> Vec<(u16, u16)> {
    parts.iter().map(|r| (r.y, r.y + r.height)).collect()
}

fn divide(constraints: &[Constraint], y: u16, height: u16) -> Vec<(u16, u16)> {
    let whole = Rect { x: 3, y, width: 9, height };
    edges(&Layout::default().direction(Direction::Vertical).constraints(constraints).split(whole))
}

/// Lengths and one minimum that fit are met exactly by the layout solver.
#[test]
fn solver_meets_lengths_and_a_minimum() {
    let amounts = [0u16, 3, 17];
    for a in amounts {
        for b in amounts {
            for c in amounts {
                for minimum in 0..4usize {
                    for spare in [0u16, 1, 40_000] {
                        for y in [0u16, 12] {
                            let sizes = [a, b, c];
                            let height = a + b + c + spare;
                            let mut constraints = vec![];
                            let mut expected = vec![];
                            let mut at = y;
                            for (i, n) in sizes.iter().enumerate() {
                                let got = if i == minimum { n + spare } else { *n };
                                constraints.push(if i == minimum {
                                    Constraint::Min(*n)
                                } else {
                                    Constraint::Length(*n)
                                });
                                expected.push((at, at + got));
                                at += got;
                            }
                            assert_eq!(divide(&constraints, y, height), expected);
                        }
                    }
                }
            }
        }
    }
    let large = [Constraint::Length(5), Constraint::Min(40_000)];
    assert_eq!(divide(&large, 0, 50_000), vec![(0, 5), (5, 50_000)]);
    assert_eq!(divide(&[Constraint::Min(0)], 4, 9), vec![(4, 13)]);
    assert_eq!(divide(&[], 4, 9), vec![]);
}

/// Percentages of no more than the whole are met to the nearest cell.
#[test]
fn solver_meets_percentages() {
    let shares = [0u16, 7, 33, 50];
    for a in shares {
        for b in shares {
            for c in shares {
                if a + b + c > 100 {
                    continue;
                }
                for height in [0u16, 1, 2, 3, 25, 50, 99, 1001, 65_001] {
                    for y in [0u16, 11] {
                        let edge = |p: u16| y + ((height as u32 * p as u32 + 50) / 100) as u16;
                        let expected =
                            vec![(edge(0), edge(a)), (edge(a), edge(a + b)), (edge(a + b), edge(a + b + c))];
                        let asked = [a, b, c].map(Constraint::Percentage);
                        assert_eq!(divide(&asked, y, height), expected);
                    }
                }
            }
        }
    }
}

#[test]
fn nothing_is_drawn_outside_the_screen() {
    for width in [0u16, 1, 2, 3, 7, 20, 79, 200, 65535] {
        for height in [0u16, 1, 2, 3, 5, 6, 7, 10, 13, 24, 100, 65535] {
            for (x, y) in [(0u16, 0u16), (3, 9)] {
                let whole = area(x, y, width, height);
                let items = draw(&app(), whole);
                assert_eq!(items.len(), 9);
                for item in &items {
                    let a = item.area;
                    let inside = a.x >= x
                        && a.y >= y
                        && a.x as u32 + a.width as u32 <= x as u32 + width as u32
                        && a.y as u32 + a.height as u32 <= y as u32 + height as u32;
                    assert!(inside || a.width == 0 || a.height == 0, "{:?} in {:?}", a, whole);
                }
            }
        }
    }
}
