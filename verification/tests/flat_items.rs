use tmux_organizer::app::rebuild_flat_items;
use tmux_organizer::model::{Pane, Session, Target, Window};

fn pane(id: &str, index: usize) -> Pane {
    Pane {
        id: id.into(),
        index,
        active: false,
        current_command: "bash".into(),
        current_path: "/".into(),
        title: String::new(),
    }
}

fn sample() -> Vec<Session> {
    vec![Session {
        name: "main".into(),
        windows: vec![
            Window { name: "w0".into(), index: 0, active: true, panes: vec![pane("%1", 0), pane("%2", 1)] },
            Window { name: "w1".into(), index: 1, active: false, panes: vec![pane("%3", 0)] },
        ],
    }]
}

#[test]
fn expanded_lists_session_windows_and_panes() {
    let items = rebuild_flat_items(&sample(), &Vec::new(), &Vec::new());
    // 1 session + 2 windows + (2 + 1) panes = 6.
    assert_eq!(items.len(), 6);
    assert!(matches!(items[0].target, Target::Session(_)));
    assert!(matches!(items[1].target, Target::Window { index: 0, .. }));
    assert!(matches!(items[2].target, Target::Pane { .. }));
}

#[test]
fn collapsed_session_hides_all_descendants() {
    let collapsed = vec!["main".to_string()];
    let items = rebuild_flat_items(&sample(), &collapsed, &Vec::new());
    assert_eq!(items.len(), 1);
    assert!(matches!(items[0].target, Target::Session(_)));
}

#[test]
fn collapsed_window_hides_only_its_panes() {
    let collapsed_windows = vec![("main".to_string(), 0)]; // hide w0's 2 panes
    let items = rebuild_flat_items(&sample(), &Vec::new(), &collapsed_windows);
    // session + w0 + w1 + w1's single pane = 4.
    assert_eq!(items.len(), 4);
}
