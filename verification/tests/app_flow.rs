use tmux_organizer::app::{App, Flow, Key, Mode, Step};
use tmux_organizer::model::{Pane, Session, Target, Window};
use tmux_organizer::tmux::{parse_tmux_state, switch_commands, LIST_FORMAT};

fn pane(id: &str, index: usize, active: bool, title: &str) -> Pane {
    Pane {
        id: id.into(),
        index,
        active,
        current_command: "bash".into(),
        current_path: "/".into(),
        title: title.into(),
    }
}

fn sample() -> Vec<Session> {
    vec![
        Session {
            name: "main".into(),
            windows: vec![
                Window {
                    name: "w0".into(),
                    index: 0,
                    active: true,
                    panes: vec![pane("%1", 0, false, ""), pane("%2", 1, true, "vim")],
                },
                Window { name: "w1".into(), index: 1, active: false, panes: vec![pane("%3", 0, true, "")] },
            ],
        },
        Session {
            name: "work".into(),
            windows: vec![Window { name: "logs".into(), index: 3, active: true, panes: vec![pane("%4", 0, true, "")] }],
        },
    ]
}

fn run_args(step: &Step) -> Vec<String> {
    match step {
        Step::Run(a) => a.clone(),
        Step::Done(_) => panic!("expected a command"),
    }
}

fn is_continue(step: &Step) -> bool {
    matches!(step, Step::Done(Flow::Continue))
}

fn is_exit(step: &Step) -> bool {
    matches!(step, Step::Done(Flow::Exit))
}

#[test]
fn new_selects_first_row() {
    let app = App::new(sample());
    assert_eq!(app.selected(), Some(0));
    assert_eq!(app.flat_items().len(), 9);
    assert!(matches!(app.mode(), Mode::Normal));
    assert!(app.show_preview());
    let empty = App::new(Vec::new());
    assert_eq!(empty.selected(), None);
}

#[test]
fn labels_follow_the_tree() {
    let app = App::new(sample());
    let labels: Vec<&str> = app.flat_items().iter().map(|i| i.label.as_str()).collect();
    assert_eq!(labels[0], "▼ Session: main");
    assert_eq!(labels[1], "  ▼ Window 0: w0");
    assert_eq!(labels[2], "    ├─ 0 (%1): bash");
    assert_eq!(labels[3], "    └─ 1 (%2): bash [vim] ●");
    assert_eq!(labels[4], "  ▼ Window 1: w1");
    assert_eq!(labels[5], "    └─ 0 (%3): bash ●");
}

#[test]
fn navigation_wraps_and_previous_undoes_next() {
    let mut app = App::new(sample());
    assert!(is_continue(&app.handle_key(Key::Up)));
    assert_eq!(app.selected(), Some(8));
    app.handle_key(Key::Down);
    assert_eq!(app.selected(), Some(0));
    app.handle_key(Key::Char('j'));
    app.handle_key(Key::Char('j'));
    app.handle_key(Key::Char('k'));
    assert_eq!(app.selected(), Some(1));
}

#[test]
fn toggle_twice_restores_the_list() {
    let mut app = App::new(sample());
    let before: Vec<String> = app.flat_items().iter().map(|i| i.label.clone()).collect();
    app.handle_key(Key::Char(' '));
    assert_eq!(app.flat_items().len(), 4);
    assert_eq!(app.flat_items()[0].label, "▶ Session: main");
    assert_eq!(app.selected(), Some(0));
    app.handle_key(Key::Char(' '));
    let after: Vec<String> = app.flat_items().iter().map(|i| i.label.clone()).collect();
    assert_eq!(before, after);
    // window: collapse with Left, expand with Right
    app.handle_key(Key::Down);
    app.handle_key(Key::Left);
    assert_eq!(app.flat_items().len(), 7);
    assert_eq!(app.flat_items()[1].label, "  ▶ Window 0: w0");
    app.handle_key(Key::Right);
    assert_eq!(app.flat_items().len(), 9);
}

#[test]
fn reload_keeps_the_selection_in_bounds() {
    let mut app = App::new(sample());
    for _ in 0..8 {
        app.handle_key(Key::Down);
    }
    assert_eq!(app.selected(), Some(8));
    app.handle_key(Key::Char('d'));
    let step = app.handle_key(Key::Enter);
    assert_eq!(run_args(&step), vec!["kill-pane", "-t", "%4"]);
    app.resume(Ok(String::new()));
    let out = "main\t0\tw0\t0\t%1\t1\tbash\t/\tbash\t1\n";
    app.resume(Ok(out.to_string()));
    assert_eq!(app.flat_items().len(), 3);
    assert_eq!(app.selected(), Some(2));
}

#[test]
fn quit_and_escape() {
    let mut app = App::new(sample());
    assert!(is_exit(&app.handle_key(Key::Char('q'))));
    assert!(is_exit(&app.handle_key(Key::Esc)));
    app.handle_key(Key::Char('N'));
    assert!(matches!(app.mode(), Mode::NewSession { .. }));
    assert!(is_continue(&app.handle_key(Key::Esc)));
    assert!(matches!(app.mode(), Mode::Normal));
}

#[test]
fn enter_runs_the_switch_chain_then_exits() {
    let mut app = App::new(sample());
    app.handle_key(Key::Down);
    app.handle_key(Key::Down);
    app.handle_key(Key::Down); // pane %2
    let step = app.handle_key(Key::Enter);
    assert_eq!(run_args(&step), vec!["select-pane", "-t", "%2"]);
    let step = app.resume(Ok(String::new()));
    assert_eq!(run_args(&step), vec!["select-window", "-t", "main:0"]);
    let step = app.resume(Ok(String::new()));
    assert_eq!(run_args(&step), vec!["switch-client", "-t", "main"]);
    assert!(is_exit(&app.resume(Ok(String::new()))));
}

#[test]
fn failed_switch_shows_the_error() {
    let mut app = App::new(sample());
    let step = app.handle_key(Key::Enter);
    assert_eq!(run_args(&step), vec!["switch-client", "-t", "main"]);
    assert!(is_continue(&app.resume(Err("no client".to_string()))));
    match app.mode() {
        Mode::Error(m) => assert_eq!(m, "no client"),
        _ => panic!("expected an error"),
    }
    // dismissing reloads, ignoring a failed reload
    let step = app.handle_key(Key::Enter);
    assert_eq!(run_args(&step), vec!["list-panes", "-a", "-F", LIST_FORMAT]);
    assert!(is_continue(&app.resume(Err("gone".to_string()))));
    assert!(matches!(app.mode(), Mode::Normal));
}

#[test]
fn switch_commands_per_target() {
    let s = switch_commands(&Target::Session("a".into()));
    assert_eq!(s, vec![vec!["switch-client", "-t", "a"]]);
    let w = switch_commands(&Target::Window { session: "a".into(), index: 12 });
    assert_eq!(w, vec![vec!["select-window", "-t", "a:12"], vec!["switch-client", "-t", "a"]]);
}

#[test]
fn rename_types_trims_and_reloads() {
    let mut app = App::new(sample());
    app.handle_key(Key::Char('r'));
    match app.mode() {
        Mode::RenameInput { input, .. } => assert_eq!(input, "main"),
        _ => panic!("expected rename"),
    }
    app.handle_key(Key::Char('x'));
    app.handle_key(Key::Backspace);
    app.handle_key(Key::Backspace);
    app.handle_key(Key::Char('!'));
    app.handle_key(Key::Char(' '));
    match app.mode() {
        Mode::RenameInput { input, .. } => assert_eq!(input, "mai! "),
        _ => panic!("expected rename"),
    }
    let step = app.handle_key(Key::Enter);
    assert_eq!(run_args(&step), vec!["rename-session", "-t", "main", "mai!"]);
    let step = app.resume(Ok(String::new()));
    assert_eq!(run_args(&step), vec!["list-panes", "-a", "-F", LIST_FORMAT]);
    let out = "mai!\t0\tw\t0\t%1\t1\tbash\t/\tbash\t1\n";
    assert!(is_continue(&app.resume(Ok(out.to_string()))));
    assert_eq!(app.sessions().len(), 1);
    assert_eq!(app.flat_items()[0].label, "▼ Session: mai!");
    assert_eq!(app.selected(), Some(0));
}

#[test]
fn rename_of_blank_input_stays() {
    let mut app = App::new(sample());
    app.handle_key(Key::Down);
    app.handle_key(Key::Down);
    app.handle_key(Key::Char('r'));
    match app.mode() {
        Mode::RenameInput { input, .. } => assert_eq!(input, "bash"),
        _ => panic!("expected rename"),
    }
    for _ in 0..4 {
        app.handle_key(Key::Backspace);
    }
    app.handle_key(Key::Char(' '));
    assert!(is_continue(&app.handle_key(Key::Enter)));
    assert!(matches!(app.mode(), Mode::RenameInput { .. }));
}

#[test]
fn kill_confirm_runs_kill_window() {
    let mut app = App::new(sample());
    app.handle_key(Key::Down);
    app.handle_key(Key::Char('x'));
    match app.mode() {
        Mode::KillConfirm { label, .. } => assert_eq!(label, "  ▼ Window 0: w0"),
        _ => panic!("expected kill"),
    }
    app.handle_key(Key::Char('z'));
    assert!(matches!(app.mode(), Mode::KillConfirm { .. }));
    let step = app.handle_key(Key::Char('y'));
    assert_eq!(run_args(&step), vec!["kill-window", "-t", "main:0"]);
    app.resume(Err("denied".into()));
    assert!(matches!(app.mode(), Mode::Error(_)));
}

#[test]
fn new_window_with_and_without_name() {
    let mut app = App::new(sample());
    app.handle_key(Key::Char('n'));
    let step = app.handle_key(Key::Enter);
    assert_eq!(run_args(&step), vec!["new-window", "-d", "-t", "main:"]);
    let mut app = App::new(sample());
    app.handle_key(Key::Char('n'));
    app.handle_key(Key::Char(' '));
    app.handle_key(Key::Char('e'));
    let step = app.handle_key(Key::Enter);
    assert_eq!(run_args(&step), vec!["new-window", "-d", "-t", "main:", "-n", "e"]);
    let mut empty = App::new(Vec::new());
    empty.handle_key(Key::Char('n'));
    match empty.mode() {
        Mode::NewWindow { session, .. } => assert_eq!(session, ""),
        _ => panic!("expected new window"),
    }
}

#[test]
fn new_session_needs_a_name() {
    let mut app = App::new(sample());
    app.handle_key(Key::Char('N'));
    assert!(is_continue(&app.handle_key(Key::Enter)));
    assert!(matches!(app.mode(), Mode::NewSession { .. }));
    app.handle_key(Key::Char('s'));
    let step = app.handle_key(Key::Enter);
    assert_eq!(run_args(&step), vec!["new-session", "-d", "-s", "s"]);
}

#[test]
fn equalize_picks_layouts() {
    let mut app = App::new(sample());
    app.handle_key(Key::Down);
    app.handle_key(Key::Char('e'));
    match app.mode() {
        Mode::EqualizeConfirm { num_panes, window_name, .. } => {
            assert_eq!(*num_panes, 2);
            assert_eq!(window_name, "w0");
        }
        _ => panic!("expected equalize"),
    }
    let step = app.handle_key(Key::Enter);
    assert_eq!(run_args(&step), vec!["select-layout", "-t", "main:0", "even-vertical"]);
    let mut app = App::new(sample());
    app.handle_key(Key::Down);
    app.handle_key(Key::Char('e'));
    let step = app.handle_key(Key::Char('m'));
    assert_eq!(run_args(&step), vec!["select-layout", "-t", "main:0", "main-horizontal"]);
    // a window with one pane cannot be equalized
    let mut app = App::new(sample());
    for _ in 0..4 {
        app.handle_key(Key::Down);
    }
    app.handle_key(Key::Char('e'));
    match app.mode() {
        Mode::Error(m) => assert_eq!(m, "Window has only 1 pane — nothing to equalize."),
        _ => panic!("expected error"),
    }
}

#[test]
fn move_pane_to_new_window() {
    let mut app = App::new(sample());
    app.handle_key(Key::Down);
    app.handle_key(Key::Down); // %1
    app.handle_key(Key::Char('m'));
    match app.mode() {
        Mode::MovePaneSelect { src_pane_id, src_label } => {
            assert_eq!(src_pane_id, "%1");
            assert_eq!(src_label, "    ├─ 0 (%1): bash");
        }
        _ => panic!("expected move pane"),
    }
    app.handle_key(Key::Up);
    app.handle_key(Key::Up); // session main
    let step = app.handle_key(Key::Char('w'));
    assert_eq!(run_args(&step), vec!["break-pane", "-d", "-s", "%1", "-P", "-F", "#{window_id}"]);
    let step = app.resume(Ok("  @7\n".into()));
    assert_eq!(run_args(&step), vec!["move-window", "-d", "-s", "@7", "-t", "main:"]);
    assert!(is_exit(&app.resume(Ok(String::new()))));
}

#[test]
fn move_pane_joins_next_to_target() {
    let mut app = App::new(sample());
    app.handle_key(Key::Down);
    app.handle_key(Key::Down);
    app.handle_key(Key::Char('m'));
    app.handle_key(Key::Char('h')); // split below the pane itself
    let mut app2 = App::new(sample());
    app2.handle_key(Key::Down);
    app2.handle_key(Key::Down);
    app2.handle_key(Key::Char('m'));
    app2.handle_key(Key::Up); // window main:0
    let step = app2.handle_key(Key::Char('v'));
    assert_eq!(run_args(&step), vec!["join-pane", "-h", "-s", "%1", "-t", "main:0"]);
    drop(app);
}

#[test]
fn merge_window_joins_each_pane() {
    let mut app = App::new(sample());
    app.handle_key(Key::Down); // window main:0
    app.handle_key(Key::Char('m'));
    match app.mode() {
        Mode::MoveWindowSelect { src_label, .. } => assert_eq!(src_label, "Window 0: w0"),
        _ => panic!("expected move window"),
    }
    // merging into itself is refused
    app.handle_key(Key::Char('m'));
    match app.mode() {
        Mode::Error(m) => assert_eq!(m, "Cannot merge a window into itself."),
        _ => panic!("expected error"),
    }
    let mut app = App::new(sample());
    app.handle_key(Key::Down);
    app.handle_key(Key::Char('m'));
    for _ in 0..3 {
        app.handle_key(Key::Down);
    } // window main:1
    let step = app.handle_key(Key::Char('m'));
    assert_eq!(run_args(&step), vec!["join-pane", "-d", "-s", "%1", "-t", "main:1"]);
    let step = app.resume(Ok(String::new()));
    assert_eq!(run_args(&step), vec!["join-pane", "-d", "-s", "%2", "-t", "main:1"]);
    app.resume(Err("busy".into()));
    match app.mode() {
        Mode::Error(m) => assert_eq!(m, "Failed to merge pane %2: busy"),
        _ => panic!("expected error"),
    }
}

#[test]
fn merge_into_session_is_refused() {
    let mut app = App::new(sample());
    app.handle_key(Key::Down);
    app.handle_key(Key::Char('m'));
    app.handle_key(Key::Up); // session row
    app.handle_key(Key::Char('m'));
    match app.mode() {
        Mode::Error(m) => assert_eq!(m, "Must select a target Window or Pane to merge."),
        _ => panic!("expected error"),
    }
}

#[test]
fn move_window_to_other_session() {
    let mut app = App::new(sample());
    app.handle_key(Key::Down);
    app.handle_key(Key::Char('m'));
    for _ in 0..5 {
        app.handle_key(Key::Char('j'));
    } // session work
    let step = app.handle_key(Key::Enter);
    assert_eq!(run_args(&step), vec!["move-window", "-d", "-s", "main:0", "-t", "work:"]);
}

#[test]
fn swap_needs_a_pane_target() {
    let mut app = App::new(sample());
    app.handle_key(Key::Down);
    app.handle_key(Key::Down);
    app.handle_key(Key::Char('s'));
    app.handle_key(Key::Up);
    assert!(is_continue(&app.handle_key(Key::Enter)));
    assert!(matches!(app.mode(), Mode::SwapSelect { .. }));
    app.handle_key(Key::Down);
    app.handle_key(Key::Down);
    let step = app.handle_key(Key::Enter);
    assert_eq!(run_args(&step), vec!["swap-pane", "-s", "%1", "-t", "%2"]);
}

#[test]
fn preview_captures_the_active_pane_once() {
    let mut app = App::new(sample());
    let step = app.update_preview();
    assert_eq!(run_args(&step), vec!["capture-pane", "-pt", "%2"]);
    app.resume(Ok("hello".into()));
    assert_eq!(app.preview_content().as_deref(), Some("hello"));
    assert_eq!(app.last_previewed_pane_id().as_deref(), Some("%2"));
    assert!(is_continue(&app.update_preview()));
    // turning the preview off and on again captures afresh
    assert!(is_continue(&app.handle_key(Key::Char('p'))));
    assert!(!app.show_preview());
    let step = app.handle_key(Key::Char('p'));
    assert_eq!(run_args(&step), vec!["capture-pane", "-pt", "%2"]);
    app.resume(Err("no pane".into()));
    assert_eq!(app.preview_content().as_deref(), Some("Error capturing pane preview: no pane"));
}

#[test]
fn resume_without_command_changes_nothing() {
    let mut app = App::new(sample());
    assert!(is_continue(&app.resume(Ok("x".into()))));
    assert_eq!(app.selected(), Some(0));
    assert!(app.preview_content().is_none());
}

#[test]
fn parse_reads_bad_indexes_as_zero_and_strips_cr() {
    let out = "s\tx\tw\t-1\t%1\t1\tbash\t/\tt\t1\r\n";
    let sessions = parse_tmux_state(out);
    assert_eq!(sessions[0].windows[0].index, 0);
    assert_eq!(sessions[0].windows[0].panes[0].index, 0);
    assert!(sessions[0].windows[0].active);
    let ten_plus = "s\t1\tw\t2\t%1\t0\tbash\t/\tt\t0\textra\n";
    let sessions = parse_tmux_state(ten_plus);
    assert_eq!(sessions[0].windows[0].index, 1);
    assert!(!sessions[0].windows[0].active);
}

#[test]
fn parse_keeps_equal_indexes_in_order_and_last_active_flag() {
    let out = "s\t0\tw\t5\t%a\t0\tc\t/\tt\t0\n\
               s\t0\tother\t5\t%b\t0\tc\t/\tt\t1\n\
               s\t0\tw\t1\t%c\t0\tc\t/\tt\t0\n";
    let sessions = parse_tmux_state(out);
    let w = &sessions[0].windows[0];
    assert_eq!(w.name, "w");
    assert!(!w.active);
    let ids: Vec<&str> = w.panes.iter().map(|p| p.id.as_str()).collect();
    assert_eq!(ids, vec!["%c", "%a", "%b"]);
}
