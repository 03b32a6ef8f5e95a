use tmux_organizer::tmux::{best_layout_for, parse_tmux_state};

#[test]
fn best_layout_picks_by_pane_count() {
    assert_eq!(best_layout_for(0), "even-horizontal");
    assert_eq!(best_layout_for(1), "even-horizontal");
    assert_eq!(best_layout_for(2), "even-vertical");
    assert_eq!(best_layout_for(3), "tiled");
    assert_eq!(best_layout_for(42), "tiled");
}

#[test]
fn parse_groups_panes_into_windows_and_sessions() {
    let out = "main\t0\teditor\t0\t%1\t1\tnvim\t/home\tnvim\t1\n\
               main\t0\teditor\t1\t%2\t0\tbash\t/home\tbash\t1\n\
               main\t1\tshell\t0\t%3\t0\tzsh\t/tmp\tzsh\t0\n\
               work\t0\tlogs\t0\t%4\t1\ttail\t/var\ttail\t1\n";
    let sessions = parse_tmux_state(out);

    assert_eq!(sessions.len(), 2);

    let main = &sessions[0];
    assert_eq!(main.name, "main");
    assert_eq!(main.windows.len(), 2);
    assert_eq!(main.windows[0].name, "editor");
    assert_eq!(main.windows[0].panes.len(), 2);
    assert!(main.windows[0].active);
    assert_eq!(main.windows[0].panes[0].id, "%1");
    assert!(main.windows[0].panes[0].active);
    assert_eq!(main.windows[0].panes[0].current_path, "/home");
    assert_eq!(main.windows[1].name, "shell");
    assert!(!main.windows[1].active);

    assert_eq!(sessions[1].name, "work");
    assert_eq!(sessions[1].windows[0].panes.len(), 1);
}

#[test]
fn parse_sorts_windows_and_panes_by_index() {
    // Arrive out of order; expect them sorted by index.
    let out = "s\t2\tw2\t1\t%b\t0\ta\t/\ta\t1\n\
               s\t2\tw2\t0\t%a\t0\tb\t/\tb\t1\n\
               s\t0\tw0\t0\t%c\t0\tc\t/\tc\t0\n";
    let s = &parse_tmux_state(out)[0];
    assert_eq!(s.windows[0].index, 0);
    assert_eq!(s.windows[1].index, 2);
    assert_eq!(s.windows[1].panes[0].index, 0);
    assert_eq!(s.windows[1].panes[0].id, "%a");
    assert_eq!(s.windows[1].panes[1].index, 1);
}

#[test]
fn parse_skips_malformed_lines() {
    let out = "too\tfew\tfields\n\
               s\t0\tw\t0\t%1\t1\tbash\t/\tbash\t1\n";
    let sessions = parse_tmux_state(out);
    assert_eq!(sessions.len(), 1);
    assert_eq!(sessions[0].windows[0].panes.len(), 1);
}

#[test]
fn parse_empty_output_is_empty() {
    assert!(parse_tmux_state("").is_empty());
}
