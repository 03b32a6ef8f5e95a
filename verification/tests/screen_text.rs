use ratatui::layout::{Constraint, Direction, Layout, Rect};
use tmux_organizer::app::{App, Key, Mode};
use tmux_organizer::model::{Pane, Session, Target, Window};
use tmux_organizer::ui::{
    centered_rect, details, help_text, overlay, preview_title, row_style, status_hints, status_line,
    tree_title, Area, Color,
};

fn sample() -> Vec<Session> {
    vec![Session {
        name: "main".into(),
        windows: vec![Window {
            name: "w0".into(),
            index: 0,
            active: true,
            panes: vec![
                Pane { id: "%1".into(), index: 0, active: false, current_command: "bash".into(), current_path: "/home".into(), title: "".into() },
                Pane { id: "%2".into(), index: 1, active: true, current_command: "nvim".into(), current_path: "/src".into(), title: "edit".into() },
            ],
        }],
    }]
}

#[test]
fn help_text_lists_both_groups() {
    let expected = "j/k ↑↓  : Navigate\n←/→     : Collapse/Expand\nSpace   : Toggle collapse\nEnter   : Focus & exit TUI\n─────────────────────────\nm       : Move pane\ns       : Swap pane\ne       : Equalize pane layout\nr       : Rename session/window/pane\nn       : New window in session\nN       : New session\np       : Toggle preview/help\nx/d     : Kill item\nq/Esc   : Quit";
    assert_eq!(help_text(), expected);
}

#[test]
fn status_hints_list_actions_then_navigation() {
    assert_eq!(
        status_hints(),
        "m=move  s=swap  e=equalize  r=rename  n=new window  N=new session  p=preview  x=kill  Enter=focus"
    );
}

#[test]
fn status_line_per_mode() {
    let normal = status_line(&Mode::Normal);
    assert_eq!(normal[0].text, "NORMAL");
    assert_eq!(normal[0].color, Some(Color::Green));
    assert!(normal[0].bold);
    assert_eq!(normal[1].text, format!("  {}", status_hints()));
    let eq = status_line(&Mode::EqualizeConfirm { session: "s".into(), window_index: 1, window_name: "w".into(), num_panes: 3 });
    assert_eq!(eq[2].text, " (3 panes)  →  Enter=auto  t=tiled  h=horizontal  v=vertical  m=main-h  Esc=cancel");
    let rn = status_line(&Mode::RenameInput { target: Target::Window { session: "s".into(), index: 1 }, input: "x".into() });
    assert_eq!(rn[1].text, "Window  →  type new name then Enter=save  Esc=cancel");
}

#[test]
fn overlays_per_mode() {
    assert!(overlay(&Mode::Normal).is_none());
    let o = overlay(&Mode::NewWindow { session: "s".into(), input: "ab".into() }).unwrap();
    assert_eq!(o.title, " ✚ New Window ");
    assert_eq!(o.body, "New window in session [s]\n\nName (optional, leave blank for default):\n▶ ab_\n\n[Enter] create  [Esc] cancel");
    assert_eq!((o.percent_x, o.percent_y), (60, 28));
    let e = overlay(&Mode::EqualizeConfirm { session: "s".into(), window_index: 1, window_name: "w".into(), num_panes: 2 }).unwrap();
    assert!(e.body.starts_with("Equalize layout for window [w] (2 panes)\n\nRecommended layout: even-vertical\n"));
    let r = overlay(&Mode::RenameInput { target: Target::Pane { session: "s".into(), window_index: 0, id: "%1".into() }, input: "t".into() }).unwrap();
    assert_eq!(r.title, " ✏ Rename Pane ");
    assert_eq!(r.color, Color::Yellow);
}

#[test]
fn details_of_each_target() {
    let mut app = App::new(sample());
    assert_eq!(details(&app), "Type: Session\n\nName: main\nWindows: 1\nTotal Panes: 2");
    app.handle_key(Key::Down);
    assert_eq!(details(&app), "Type: Window\n\nSession: main\nIndex: 0\nName: w0\nPanes: 2\n\nPress [e] to equalize pane layout");
    app.handle_key(Key::Down);
    app.handle_key(Key::Down);
    assert_eq!(
        details(&app),
        "Type: Pane\n\nPane ID: %2\nIndex: 1\nActive: Yes ●\nCommand: nvim\nTitle: edit\nPath: /src\n\nWindow: 0\nSession: main"
    );
    let empty = App::new(Vec::new());
    assert_eq!(details(&empty), "No item selected.\n\nPress [n] to create a new window\nor [N] for a new session.");
}

#[test]
fn row_styles_and_titles() {
    let app = App::new(sample());
    assert_eq!(row_style(&app, &Target::Session("main".into())), (Color::Green, true));
    assert_eq!(row_style(&app, &Target::Pane { session: "main".into(), window_index: 0, id: "%2".into() }), (Color::Cyan, true));
    assert_eq!(row_style(&app, &Target::Pane { session: "main".into(), window_index: 0, id: "%9".into() }), (Color::White, false));
    assert_eq!(tree_title(&Mode::Normal), " Sessions, Windows & Panes ");
    assert_eq!(preview_title(&app), " Preview (Press 'p' for Help) ");
}

#[test]
fn centered_rect_matches_ratatui_layout() {
    let r = Rect { x: 0, y: 0, width: 100, height: 50 };
    let rows = Layout::default()
        .direction(Direction::Vertical)
        .constraints([Constraint::Percentage(36), Constraint::Percentage(28), Constraint::Percentage(36)])
        .split(r);
    let cols = Layout::default()
        .direction(Direction::Horizontal)
        .constraints([Constraint::Percentage(20), Constraint::Percentage(60), Constraint::Percentage(20)])
        .split(rows[1]);
    let c = centered_rect(60, 28, Area { x: 0, y: 0, width: 100, height: 50 });
    assert_eq!((c.x, c.y, c.width, c.height), (cols[1].x, cols[1].y, cols[1].width, cols[1].height));
    assert_ne!(c, Area { x: 0, y: 0, width: 100, height: 50 });
}

/// Start and length of the middle part, cut at the nearest cell (halves up).
fn middle_by_rounding(start: u16, len: u16, side: u16, mid: u16) -> (u16, u16) {
    let l = (start as u32 + len as u32).min(u16::MAX as u32) - start as u32;
    let a = (l * side as u32 + 50) / 100;
    let b = (l * (side as u32 + mid as u32) + 50) / 100;
    ((start as u32 + a) as u16, (b - a) as u16)
}

#[test]
fn centered_rect_rounds_to_the_nearest_cell_and_stays_inside() {
    let places: [(u16, u16); 10] =
        [(0, 0), (0, 1), (0, 7), (2, 10), (5, 33), (0, 80), (1, 100), (3, 211), (0, 1000), (65500, 100)];
    for &(x, width) in places.iter() {
        for &(y, height) in places.iter().rev() {
            for percent in (0u16..=100).step_by(3) {
                let (px, py) = (percent, 100 - percent);
                let r = Area { x, y, width, height };
                let c = centered_rect(px, py, r);
                let rows = Layout::default()
                    .direction(Direction::Vertical)
                    .constraints([
                        Constraint::Percentage((100 - py) / 2),
                        Constraint::Percentage(py),
                        Constraint::Percentage((100 - py) / 2),
                    ])
                    .split(Rect { x, y, width, height });
                let cols = Layout::default()
                    .direction(Direction::Horizontal)
                    .constraints([
                        Constraint::Percentage((100 - px) / 2),
                        Constraint::Percentage(px),
                        Constraint::Percentage((100 - px) / 2),
                    ])
                    .split(rows[1]);
                assert_eq!((c.x, c.y, c.width, c.height), (cols[1].x, cols[1].y, cols[1].width, cols[1].height));
                let (cy, ch) = middle_by_rounding(y, height, (100 - py) / 2, py);
                let (cx, cw) = middle_by_rounding(x, width, (100 - px) / 2, px);
                assert_eq!((c.x, c.y, c.width, c.height), (cx, cy, cw, ch));
                assert!(x <= c.x && c.x as u32 + c.width as u32 <= x as u32 + width as u32);
                assert!(y <= c.y && c.y as u32 + c.height as u32 <= y as u32 + height as u32);
            }
        }
    }
}
