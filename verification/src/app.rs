//! Application state, the in-memory tree lookups, and per-mode key handling.

use vstd::prelude::*;
use crate::text::{decimal, owned, pop_char, push_char, push_decimal, trim, trimmed, views_of};
use crate::order::{Indexed, lemma_filter_push};
use crate::tmux::{
    best_layout_for, commands_view, LIST_FORMAT, first_index, lemma_first_index, list_panes_args,
    list_panes_spec, named, numbered, parse_tmux_state, position_of_session, position_of_window,
    switch_commands, switch_plan, total_panes, tree_is_unambiguous, tree_of, tree_panes,
};
use crate::model::{
    make_session_address, make_window_address, window_address, NavItem, NavItemV, Pane, PaneV, Session, SessionV, Target, TargetV, Window,
    WindowV,
};

verus! {

// ---------------------------------------------------------------------------
// The flattened tree
// ---------------------------------------------------------------------------

/// The marker of a collapsed or an expanded node.
pub open spec fn fold_icon(collapsed: bool) -> Seq<char> {
    if collapsed {
        "▶"@
    } else {
        "▼"@
    }
}

/// The label of a session row.
pub open spec fn session_label(name: Seq<char>, collapsed: bool) -> Seq<char> {
    fold_icon(collapsed) + " Session: "@ + name
}

/// The label of a window row.
pub open spec fn window_label(w: WindowV, collapsed: bool) -> Seq<char> {
    "  "@ + fold_icon(collapsed) + " Window "@ + decimal(w.index as nat) + ": "@ + w.name
}

/// What a pane row shows: the command, and the title in brackets where it is
/// set and differs from the command.
pub open spec fn pane_content(p: PaneV) -> Seq<char> {
    if p.title.len() > 0 && p.title != p.current_command {
        p.current_command + " ["@ + p.title + "]"@
    } else {
        p.current_command
    }
}

/// The tree branch drawn before a pane row: a corner for the last pane.
pub open spec fn branch(last: bool) -> Seq<char> {
    if last {
        "    └─ "@
    } else {
        "    ├─ "@
    }
}

/// The marker of the active pane.
pub open spec fn active_marker(active: bool) -> Seq<char> {
    if active {
        " ●"@
    } else {
        Seq::empty()
    }
}

/// The label of a pane row.
pub open spec fn pane_label(p: PaneV, last: bool) -> Seq<char> {
    branch(last) + decimal(p.index as nat) + " ("@ + p.id + "): "@ + pane_content(p) + active_marker(
        p.active,
    )
}

/// The rows of the panes `ps[..n]` of window `w` in session `s`.
pub open spec fn pane_rows(s: Seq<char>, w: WindowV, n: int) -> Seq<NavItemV> {
    Seq::new(
        n as nat,
        |i: int|
            NavItemV {
                label: pane_label(w.panes[i], i == w.panes.len() - 1),
                target: TargetV::Pane { session: s, window_index: w.index, id: w.panes[i].id },
            },
    )
}

/// The rows of one window: its own row, then its panes unless it is collapsed.
pub open spec fn window_rows(s: Seq<char>, w: WindowV, cw: Set<(Seq<char>, usize)>) -> Seq<
    NavItemV,
> {
    let collapsed = cw.contains((s, w.index));
    seq![
        NavItemV {
            label: window_label(w, collapsed),
            target: TargetV::Window { session: s, index: w.index },
        },
    ] + if collapsed {
        Seq::empty()
    } else {
        pane_rows(s, w, w.panes.len() as int)
    }
}

/// The rows of the windows `ws` of session `s`, in order.
pub open spec fn windows_rows(s: Seq<char>, ws: Seq<WindowV>, cw: Set<(Seq<char>, usize)>) -> Seq<
    NavItemV,
>
    decreases ws.len(),
{
    if ws.len() == 0 {
        Seq::empty()
    } else {
        windows_rows(s, ws.drop_last(), cw) + window_rows(s, ws.last(), cw)
    }
}

/// The rows of one session: its own row, then its windows unless it is
/// collapsed.
pub open spec fn session_rows(
    s: SessionV,
    cs: Set<Seq<char>>,
    cw: Set<(Seq<char>, usize)>,
) -> Seq<NavItemV> {
    let collapsed = cs.contains(s.name);
    seq![NavItemV { label: session_label(s.name, collapsed), target: TargetV::Session(s.name) }]
        + if collapsed {
        Seq::empty()
    } else {
        windows_rows(s.name, s.windows, cw)
    }
}

/// The flattened tree: the rows of every session, in order.
pub open spec fn flat_rows(
    ss: Seq<SessionV>,
    cs: Set<Seq<char>>,
    cw: Set<(Seq<char>, usize)>,
) -> Seq<NavItemV>
    decreases ss.len(),
{
    if ss.len() == 0 {
        Seq::empty()
    } else {
        flat_rows(ss.drop_last(), cs, cw) + session_rows(ss.last(), cs, cw)
    }
}

fn contains_name(v: &Vec<String>, name: &String) -> (b: bool)
    ensures
        b == views_of(v@).to_set().contains(name@),
{
    let mut i: usize = 0;
    while i < v.len()
        invariant
            i <= v@.len(),
            forall|j: int| 0 <= j < i ==> views_of(v@)[j] != name@,
        decreases v@.len() - i,
    {
        if v[i] == *name {
            assert(views_of(v@)[i as int] == name@);
            return true;
        }
        i += 1;
    }
    false
}

fn contains_window(v: &Vec<(String, usize)>, name: &String, index: usize) -> (b: bool)
    ensures
        b == views_of(v@).to_set().contains((name@, index)),
{
    let mut i: usize = 0;
    while i < v.len()
        invariant
            i <= v@.len(),
            forall|j: int| 0 <= j < i ==> views_of(v@)[j] != (name@, index),
        decreases v@.len() - i,
    {
        if v[i].0 == *name && v[i].1 == index {
            assert(views_of(v@)[i as int] == (name@, index));
            return true;
        }
        i += 1;
    }
    false
}

fn push_fold_icon(s: &mut String, collapsed: bool)
    ensures
        final(s)@ == old(s)@ + fold_icon(collapsed),
{
    if collapsed {
        s.append("▶");
    } else {
        s.append("▼");
    }
}

fn make_session_label(name: &String, collapsed: bool) -> (r: String)
    ensures
        r@ == session_label(name@, collapsed),
{
    let mut r = String::new();
    push_fold_icon(&mut r, collapsed);
    r.append(" Session: ");
    r.append(name.as_str());
    assert(r@ =~= session_label(name@, collapsed));
    r
}

fn make_window_label(w: &Window, collapsed: bool) -> (r: String)
    ensures
        r@ == window_label(w@, collapsed),
{
    let mut r = String::new();
    r.append("  ");
    push_fold_icon(&mut r, collapsed);
    r.append(" Window ");
    push_decimal(&mut r, w.index);
    r.append(": ");
    r.append(w.name.as_str());
    assert(r@ =~= window_label(w@, collapsed));
    r
}

fn make_pane_label(p: &Pane, last: bool) -> (r: String)
    ensures
        r@ == pane_label(p@, last),
{
    let mut r = String::new();
    if last {
        r.append("    └─ ");
    } else {
        r.append("    ├─ ");
    }
    push_decimal(&mut r, p.index);
    r.append(" (");
    r.append(p.id.as_str());
    r.append("): ");
    if !p.title.as_str().is_empty() && p.title != p.current_command {
        r.append(p.current_command.as_str());
        r.append(" [");
        r.append(p.title.as_str());
        r.append("]");
    } else {
        r.append(p.current_command.as_str());
    }
    if p.active {
        r.append(" ●");
    }
    assert(r@ =~= pane_label(p@, last));
    r
}

fn push_pane_rows(out: &mut Vec<NavItem>, s: &String, w: &Window)
    ensures
        views_of(final(out)@) == views_of(old(out)@) + pane_rows(s@, w@, w@.panes.len() as int),
{
    let n = w.panes.len();
    let mut i: usize = 0;
    assert(views_of(out@) =~= views_of(old(out)@) + pane_rows(s@, w@, 0));
    while i < n
        invariant
            i <= n,
            n == w@.panes.len(),
            views_of(out@) == views_of(old(out)@) + pane_rows(s@, w@, i as int),
        decreases n - i,
    {
        let p = &w.panes[i];
        assert(p@ == w@.panes[i as int]);
        let item = NavItem {
            label: make_pane_label(p, i == n - 1),
            target: Target::Pane { session: s.clone(), window_index: w.index, id: p.id.clone() },
        };
        let ghost before = views_of(out@);
        out.push(item);
        assert(views_of(out@) =~= before.push(item@));
        assert(pane_rows(s@, w@, i + 1) =~= pane_rows(s@, w@, i as int).push(item@));
        i += 1;
    }
}

fn push_window_rows(out: &mut Vec<NavItem>, s: &String, w: &Window, cw: &Vec<(String, usize)>)
    ensures
        views_of(final(out)@) == views_of(old(out)@) + window_rows(s@, w@, views_of(cw@).to_set()),
{
    let collapsed = contains_window(cw, s, w.index);
    let item = NavItem {
        label: make_window_label(w, collapsed),
        target: Target::Window { session: s.clone(), index: w.index },
    };
    out.push(item);
    let ghost mid = views_of(out@);
    assert(mid =~= views_of(old(out)@).push(item@));
    if !collapsed {
        push_pane_rows(out, s, w);
    }
    assert(views_of(out@) =~= views_of(old(out)@) + window_rows(s@, w@, views_of(cw@).to_set()));
}

fn push_session_rows(
    out: &mut Vec<NavItem>,
    s: &Session,
    cs: &Vec<String>,
    cw: &Vec<(String, usize)>,
)
    ensures
        views_of(final(out)@) == views_of(old(out)@) + session_rows(s@, views_of(cs@).to_set(), views_of(cw@).to_set()),
{
    let collapsed = contains_name(cs, &s.name);
    let item = NavItem {
        label: make_session_label(&s.name, collapsed),
        target: Target::Session(s.name.clone()),
    };
    out.push(item);
    let ghost start = views_of(out@);
    assert(start =~= views_of(old(out)@).push(item@));
    if !collapsed {
        let n = s.windows.len();
        let mut j: usize = 0;
        assert(s@.windows.take(0) =~= Seq::<WindowV>::empty());
        assert(start + windows_rows(s@.name, s@.windows.take(0), views_of(cw@).to_set()) =~= start);
        while j < n
            invariant
                j <= n,
                n == s@.windows.len(),
                views_of(out@) == start + windows_rows(s@.name, s@.windows.take(j as int), views_of(cw@).to_set()),
            decreases n - j,
        {
            assert(s.windows@[j as int]@ == s@.windows[j as int]);
            push_window_rows(out, &s.name, &s.windows[j], cw);
            assert(s@.windows.take(j + 1).drop_last() == s@.windows.take(j as int));
            assert(s@.windows.take(j + 1).last() == s@.windows[j as int]);
            j += 1;
        }
        assert(s@.windows.take(n as int) == s@.windows);
    }
    assert(views_of(out@) =~= views_of(old(out)@) + session_rows(s@, views_of(cs@).to_set(), views_of(cw@).to_set()));
}

/// Flatten the session tree into a displayable, navigable list, honouring the
/// collapsed-session and collapsed-window sets.
pub fn rebuild_flat_items(
    sessions: &Vec<Session>,
    collapsed_sessions: &Vec<String>,
    collapsed_windows: &Vec<(String, usize)>,
) -> (items: Vec<NavItem>)
    ensures
        views_of(items@) == flat_rows(
            views_of(sessions@),
            views_of(collapsed_sessions@).to_set(),
            views_of(collapsed_windows@).to_set(),
        ),
{
    let ghost ss = views_of(sessions@);
    let mut out: Vec<NavItem> = Vec::new();
    let mut i: usize = 0;
    assert(ss.take(0) =~= Seq::<SessionV>::empty());
    assert(views_of(out@) =~= Seq::<NavItemV>::empty());
    while i < sessions.len()
        invariant
            i <= sessions@.len(),
            ss == views_of(sessions@),
            views_of(out@) == flat_rows(
                ss.take(i as int),
                views_of(collapsed_sessions@).to_set(),
                views_of(collapsed_windows@).to_set(),
            ),
        decreases sessions@.len() - i,
    {
        push_session_rows(&mut out, &sessions[i], collapsed_sessions, collapsed_windows);
        assert(ss.take(i + 1).drop_last() == ss.take(i as int));
        assert(ss.take(i + 1).last() == ss[i as int]);
        i += 1;
    }
    assert(ss.take(sessions@.len() as int) == ss);
    out
}


// ---------------------------------------------------------------------------
// Modes, keys and steps
// ---------------------------------------------------------------------------

/// Whether the event loop should keep running or exit the TUI.
pub enum Flow {
    Continue,
    Exit,
}

/// A key press, as far as the organizer tells keys apart.
#[derive(Clone, Copy, Debug, PartialEq, Eq)]
pub enum Key {
    Char(char),
    Up,
    Down,
    Left,
    Right,
    Enter,
    Esc,
    Backspace,
    Other,
}

/// What the event loop has to do next: stop handling this event (and keep
/// running or exit), or run tmux with the given arguments and hand the outcome
/// to [`App::resume`].
pub enum Step {
    Done(Flow),
    Run(Vec<String>),
}

/// The mathematical value of a [`Step`].
pub enum StepV {
    Done(Flow),
    Run(Seq<Seq<char>>),
}

impl View for Step {
    type V = StepV;

    open spec fn view(&self) -> StepV {
        match self {
            Step::Done(f) => StepV::Done(*f),
            Step::Run(a) => StepV::Run(views_of(a@)),
        }
    }
}

/// The interaction mode. Each variant carries exactly the data its screen needs.
#[derive(Clone, Debug)]
pub enum Mode {
    Normal,
    MovePaneSelect { src_pane_id: String, src_label: String },
    MoveWindowSelect { src_session: String, src_window_index: usize, src_label: String },
    SwapSelect { src_pane_id: String, src_label: String },
    RenameInput { target: Target, input: String },
    KillConfirm { target: Target, label: String },
    NewSession { input: String },
    NewWindow { session: String, input: String },
    EqualizeConfirm { session: String, window_index: usize, window_name: String, num_panes: usize },
    Error(String),
}

/// The mathematical value of a [`Mode`].
pub enum ModeV {
    Normal,
    MovePaneSelect { src_pane_id: Seq<char>, src_label: Seq<char> },
    MoveWindowSelect { src_session: Seq<char>, src_window_index: usize, src_label: Seq<char> },
    SwapSelect { src_pane_id: Seq<char>, src_label: Seq<char> },
    RenameInput { target: TargetV, input: Seq<char> },
    KillConfirm { target: TargetV, label: Seq<char> },
    NewSession { input: Seq<char> },
    NewWindow { session: Seq<char>, input: Seq<char> },
    EqualizeConfirm {
        session: Seq<char>,
        window_index: usize,
        window_name: Seq<char>,
        num_panes: usize,
    },
    Error(Seq<char>),
}

impl View for Mode {
    type V = ModeV;

    open spec fn view(&self) -> ModeV {
        match self {
            Mode::Normal => ModeV::Normal,
            Mode::MovePaneSelect { src_pane_id, src_label } => ModeV::MovePaneSelect {
                src_pane_id: src_pane_id@,
                src_label: src_label@,
            },
            Mode::MoveWindowSelect { src_session, src_window_index, src_label } =>
                ModeV::MoveWindowSelect {
                src_session: src_session@,
                src_window_index: *src_window_index,
                src_label: src_label@,
            },
            Mode::SwapSelect { src_pane_id, src_label } => ModeV::SwapSelect {
                src_pane_id: src_pane_id@,
                src_label: src_label@,
            },
            Mode::RenameInput { target, input } => ModeV::RenameInput {
                target: target@,
                input: input@,
            },
            Mode::KillConfirm { target, label } => ModeV::KillConfirm {
                target: target@,
                label: label@,
            },
            Mode::NewSession { input } => ModeV::NewSession { input: input@ },
            Mode::NewWindow { session, input } => ModeV::NewWindow {
                session: session@,
                input: input@,
            },
            Mode::EqualizeConfirm { session, window_index, window_name, num_panes } =>
                ModeV::EqualizeConfirm {
                session: session@,
                window_index: *window_index,
                window_name: window_name@,
                num_panes: *num_panes,
            },
            Mode::Error(msg) => ModeV::Error(msg@),
        }
    }
}

/// What the tmux command in flight was started for, and so what its outcome
/// leads to.
pub enum Pending {
    /// No command in flight.
    Idle,
    /// A chain of commands that ends the TUI once all of them succeeded: the
    /// commands still to run after the one in flight.
    Chain(Vec<Vec<String>>),
    /// `break-pane` of a pane to be moved into this session.
    BreakPane(String),
    /// Joining the panes of a window into `target`: the pane in flight and the
    /// ones still to join.
    Merge { target: String, current: String, rest: Vec<String> },
    /// A command that changes tmux's state; the tree is reloaded after it.
    Mutation,
    /// `list-panes`; whether a failure is reported as an error.
    Reload(bool),
    /// `capture-pane` of this pane for the preview.
    Capture(String),
}

/// The mathematical value of a [`Pending`].
pub enum PendingV {
    Idle,
    Chain(Seq<Seq<Seq<char>>>),
    BreakPane(Seq<char>),
    Merge { target: Seq<char>, current: Seq<char>, rest: Seq<Seq<char>> },
    Mutation,
    Reload(bool),
    Capture(Seq<char>),
}

impl View for Pending {
    type V = PendingV;

    open spec fn view(&self) -> PendingV {
        match self {
            Pending::Idle => PendingV::Idle,
            Pending::Chain(c) => PendingV::Chain(commands_view(c@)),
            Pending::BreakPane(s) => PendingV::BreakPane(s@),
            Pending::Merge { target, current, rest } => PendingV::Merge {
                target: target@,
                current: current@,
                rest: views_of(rest@),
            },
            Pending::Mutation => PendingV::Mutation,
            Pending::Reload(report) => PendingV::Reload(*report),
            Pending::Capture(id) => PendingV::Capture(id@),
        }
    }
}

// ---------------------------------------------------------------------------
// The application state
// ---------------------------------------------------------------------------

/// The organizer's state: the session tree, what is collapsed, the flattened
/// list and its selection, the mode, the preview, and the tmux command in
/// flight.
pub struct App {
    sessions: Vec<Session>,
    collapsed_sessions: Vec<String>,
    collapsed_windows: Vec<(String, usize)>,
    flat_items: Vec<NavItem>,
    selected: Option<usize>,
    mode: Mode,
    preview_content: Option<String>,
    show_preview: bool,
    last_previewed_pane_id: Option<String>,
    pending: Pending,
}

/// The mathematical value of an [`App`].
pub struct AppV {
    pub sessions: Seq<SessionV>,
    pub collapsed_sessions: Set<Seq<char>>,
    pub collapsed_windows: Set<(Seq<char>, usize)>,
    pub items: Seq<NavItemV>,
    pub selected: Option<usize>,
    pub mode: ModeV,
    pub preview: Option<Seq<char>>,
    pub show_preview: bool,
    pub last_previewed: Option<Seq<char>>,
    pub pending: PendingV,
}

/// The value of an optional string.
pub open spec fn opt_view(o: Option<String>) -> Option<Seq<char>> {
    match o {
        Some(s) => Some(s@),
        None => None,
    }
}

impl View for App {
    type V = AppV;

    closed spec fn view(&self) -> AppV {
        AppV {
            sessions: views_of(self.sessions@),
            collapsed_sessions: views_of(self.collapsed_sessions@).to_set(),
            collapsed_windows: views_of(self.collapsed_windows@).to_set(),
            items: views_of(self.flat_items@),
            selected: self.selected,
            mode: self.mode@,
            preview: opt_view(self.preview_content),
            show_preview: self.show_preview,
            last_previewed: opt_view(self.last_previewed_pane_id),
            pending: self.pending@,
        }
    }
}

/// The arguments that capture the contents of a pane.
pub open spec fn capture_args(id: Seq<char>) -> Seq<Seq<char>> {
    seq!["capture-pane"@, "-pt"@, id]
}

/// The state of a freshly started organizer over `sessions`.
pub open spec fn initial_state(sessions: Seq<SessionV>) -> AppV {
    let items = flat_rows(sessions, Set::empty(), Set::empty());
    AppV {
        sessions,
        collapsed_sessions: Set::empty(),
        collapsed_windows: Set::empty(),
        items,
        selected: if items.len() > 0 {
            Some(0)
        } else {
            None
        },
        mode: ModeV::Normal,
        preview: None,
        show_preview: true,
        last_previewed: None,
        pending: PendingV::Idle,
    }
}

/// The selection after the list was rebuilt with `len` rows: kept, but moved
/// onto the last row where the list got shorter, and empty for an empty list.
pub open spec fn clamp_selection(selected: Option<usize>, len: nat) -> Option<usize> {
    if len == 0 {
        None
    } else {
        let cur = match selected {
            Some(i) => i,
            None => 0,
        };
        Some(if cur < len - 1 { cur } else { (len - 1) as usize })
    }
}

/// The first session named `name`.
pub open spec fn session_named(ss: Seq<SessionV>, name: Seq<char>) -> Option<SessionV> {
    let i = first_index(ss, named(name));
    if i >= 0 {
        Some(ss[i])
    } else {
        None
    }
}

/// The first window numbered `index` of the first session named `session`.
pub open spec fn window_at(ss: Seq<SessionV>, session: Seq<char>, index: usize) -> Option<WindowV> {
    match session_named(ss, session) {
        Some(s) => {
            let j = first_index(s.windows, numbered(index));
            if j >= 0 {
                Some(s.windows[j])
            } else {
                None
            }
        },
        None => None,
    }
}

/// Whether a pane has id `id`.
pub open spec fn pane_with_id(id: Seq<char>) -> spec_fn(PaneV) -> bool {
    |p: PaneV| p.id == id
}

/// The first pane with id `id` in that window.
pub open spec fn pane_at(ss: Seq<SessionV>, session: Seq<char>, index: usize, id: Seq<char>) -> Option<
    PaneV,
> {
    match window_at(ss, session, index) {
        Some(w) => {
            let k = first_index(w.panes, pane_with_id(id));
            if k >= 0 {
                Some(w.panes[k])
            } else {
                None
            }
        },
        None => None,
    }
}

/// Whether a pane is the active one of its window.
pub open spec fn active_pane() -> spec_fn(PaneV) -> bool {
    |p: PaneV| p.active
}

/// Whether a window is the active one of its session.
pub open spec fn active_window() -> spec_fn(WindowV) -> bool {
    |w: WindowV| w.active
}

/// The first active pane of `ps`, else its first pane.
pub open spec fn shown_pane(ps: Seq<PaneV>) -> Option<PaneV> {
    let k = first_index(ps, active_pane());
    if k >= 0 {
        Some(ps[k])
    } else if ps.len() > 0 {
        Some(ps[0])
    } else {
        None
    }
}

/// The first active window of `ws`, else its first window.
pub open spec fn shown_window(ws: Seq<WindowV>) -> Option<WindowV> {
    let k = first_index(ws, active_window());
    if k >= 0 {
        Some(ws[k])
    } else if ws.len() > 0 {
        Some(ws[0])
    } else {
        None
    }
}

impl AppV {
    /// The well-formedness of the state: the list is the flattening of the
    /// tree, and the selection is a row of it, present exactly when there are
    /// rows.
    pub open spec fn wf(self) -> bool {
        &&& self.items == flat_rows(self.sessions, self.collapsed_sessions, self.collapsed_windows)
        &&& self.items.len() <= usize::MAX
        &&& match self.selected {
            Some(i) => i < self.items.len(),
            None => self.items.len() == 0,
        }
    }

    /// What the cursor points at.
    pub open spec fn current_target(self) -> Option<TargetV> {
        match self.selected {
            Some(i) => if i < self.items.len() {
                Some(self.items[i as int].target)
            } else {
                None
            },
            None => None,
        }
    }

    /// The label of the selected row.
    pub open spec fn current_label(self) -> Option<Seq<char>> {
        match self.selected {
            Some(i) => if i < self.items.len() {
                Some(self.items[i as int].label)
            } else {
                None
            },
            None => None,
        }
    }

    pub open spec fn with_mode(self, mode: ModeV) -> AppV {
        AppV { mode, ..self }
    }

    pub open spec fn with_pending(self, pending: PendingV) -> AppV {
        AppV { pending, ..self }
    }

    pub open spec fn with_selected(self, selected: Option<usize>) -> AppV {
        AppV { selected, ..self }
    }

    /// The state with the list rebuilt from the tree and the collapsed sets.
    pub open spec fn rebuilt(self) -> AppV {
        let items = flat_rows(self.sessions, self.collapsed_sessions, self.collapsed_windows);
        AppV { items, selected: clamp_selection(self.selected, items.len()), ..self }
    }

    /// The selection moved one row down, wrapping to the top.
    pub open spec fn next(self) -> AppV {
        if self.items.len() == 0 {
            self
        } else {
            self.with_selected(
                Some(
                    match self.selected {
                        Some(i) => if i >= self.items.len() - 1 {
                            0
                        } else {
                            (i + 1) as usize
                        },
                        None => 0,
                    },
                ),
            )
        }
    }

    /// The selection moved one row up, wrapping to the bottom.
    pub open spec fn previous(self) -> AppV {
        if self.items.len() == 0 {
            self
        } else {
            self.with_selected(
                Some(
                    match self.selected {
                        Some(i) => if i == 0 {
                            (self.items.len() - 1) as usize
                        } else {
                            (i - 1) as usize
                        },
                        None => 0,
                    },
                ),
            )
        }
    }

    /// The selected session or window collapsed (or expanded), the list rebuilt.
    pub open spec fn set_collapsed(self, collapse: bool) -> AppV {
        match self.current_target() {
            Some(TargetV::Session(name)) => AppV {
                collapsed_sessions: if collapse {
                    self.collapsed_sessions.insert(name)
                } else {
                    self.collapsed_sessions.remove(name)
                },
                ..self
            }.rebuilt(),
            Some(TargetV::Window { session, index }) => AppV {
                collapsed_windows: if collapse {
                    self.collapsed_windows.insert((session, index))
                } else {
                    self.collapsed_windows.remove((session, index))
                },
                ..self
            }.rebuilt(),
            Some(TargetV::Pane { .. }) => self.rebuilt(),
            None => self,
        }
    }

    /// The selected session or window switched between collapsed and expanded,
    /// the list rebuilt.
    pub open spec fn toggle_collapsed(self) -> AppV {
        match self.current_target() {
            Some(TargetV::Session(name)) => self.set_collapsed(
                !self.collapsed_sessions.contains(name),
            ),
            Some(TargetV::Window { session, index }) => self.set_collapsed(
                !self.collapsed_windows.contains((session, index)),
            ),
            Some(TargetV::Pane { .. }) => self.rebuilt(),
            None => self,
        }
    }

    /// The text a rename starts from: the session's name, the window's name,
    /// or the pane's title (its command where the title is empty).
    pub open spec fn rename_seed(self, t: TargetV) -> Seq<char> {
        match t {
            TargetV::Session(name) => name,
            TargetV::Window { session, index } => match window_at(self.sessions, session, index) {
                Some(w) => w.name,
                None => Seq::empty(),
            },
            TargetV::Pane { session, window_index, id } => match pane_at(
                self.sessions,
                session,
                window_index,
                id,
            ) {
                Some(p) => if p.title.len() > 0 {
                    p.title
                } else {
                    p.current_command
                },
                None => Seq::empty(),
            },
        }
    }

    /// The window an equalize acts on, its name and its pane count.
    pub open spec fn equalize_info(self) -> Option<(Seq<char>, usize, Seq<char>, nat)> {
        let place = match self.current_target() {
            Some(TargetV::Window { session, index }) => Some((session, index)),
            Some(TargetV::Pane { session, window_index, .. }) => Some((session, window_index)),
            _ => None,
        };
        match place {
            Some((session, index)) => match window_at(self.sessions, session, index) {
                Some(w) => Some((session, index, w.name, w.panes.len())),
                None => None,
            },
            None => None,
        }
    }

    /// The state after the preview was brought up to date: a `capture-pane` of
    /// the pane to preview where it differs from the last one previewed or
    /// nothing is shown yet.
    pub open spec fn update_preview(self) -> (AppV, StepV) {
        if !self.show_preview {
            (self, StepV::Done(Flow::Continue))
        } else {
            match self.current_target() {
                None => (AppV { preview: None, last_previewed: None, ..self }, StepV::Done(Flow::Continue)),
                Some(t) => match self.preview_pane(t) {
                    Some(id) => if self.last_previewed != Some(id) || self.preview is None {
                        (self.with_pending(PendingV::Capture(id)), StepV::Run(capture_args(id)))
                    } else {
                        (self, StepV::Done(Flow::Continue))
                    },
                    None => (
                        AppV { preview: None, last_previewed: None, ..self },
                        StepV::Done(Flow::Continue),
                    ),
                },
            }
        }
    }

    /// The pane whose contents are previewed for `t`: the pane itself, or the
    /// active (else first) pane of the active (else first) window.
    pub open spec fn preview_pane(self, t: TargetV) -> Option<Seq<char>> {
        match t {
            TargetV::Pane { id, .. } => Some(id),
            TargetV::Window { session, index } => match window_at(self.sessions, session, index) {
                Some(w) => match shown_pane(w.panes) {
                    Some(p) => Some(p.id),
                    None => None,
                },
                None => None,
            },
            TargetV::Session(name) => match session_named(self.sessions, name) {
                Some(s) => match shown_window(s.windows) {
                    Some(w) => match shown_pane(w.panes) {
                        Some(p) => Some(p.id),
                        None => None,
                    },
                    None => None,
                },
                None => None,
            },
        }
    }
}

/// The state unchanged, and the event handled.
pub open spec fn stay(a: AppV) -> (AppV, StepV) {
    (a, StepV::Done(Flow::Continue))
}

/// `o`, or `d` where there is none.
pub open spec fn or_else(o: Option<Seq<char>>, d: Seq<char>) -> Seq<char> {
    match o {
        Some(x) => x,
        None => d,
    }
}

/// The ids of the panes `ps`, in order.
pub open spec fn pane_ids(ps: Seq<PaneV>) -> Seq<Seq<char>> {
    ps.map_values(|p: PaneV| p.id)
}

/// The value of a command's outcome.
pub open spec fn result_view(r: Result<String, String>) -> Result<Seq<char>, Seq<char>> {
    match r {
        Ok(s) => Ok(s@),
        Err(e) => Err(e@),
    }
}

/// The label of a window that is being moved.
pub open spec fn window_move_label(index: usize, name: Seq<char>) -> Seq<char> {
    "Window "@ + decimal(index as nat) + ": "@ + name
}

/// The arguments that join a pane next to a target.
pub open spec fn join_args(flag: Seq<char>, src: Seq<char>, dst: Seq<char>) -> Seq<Seq<char>> {
    seq!["join-pane"@, flag, "-s"@, src, "-t"@, dst]
}

/// The arguments that break a pane out into a window of its own, printing the
/// new window's id.
pub open spec fn break_args(src: Seq<char>) -> Seq<Seq<char>> {
    seq!["break-pane"@, "-d"@, "-s"@, src, "-P"@, "-F"@, "#{window_id}"@]
}

/// The arguments that move a window into a session.
pub open spec fn move_window_args(src: Seq<char>, session: Seq<char>) -> Seq<Seq<char>> {
    seq!["move-window"@, "-d"@, "-s"@, src, "-t"@, session + seq![':']]
}

/// The arguments that join one pane of a merged window into the target window.
pub open spec fn merge_args(pane: Seq<char>, target: Seq<char>) -> Seq<Seq<char>> {
    seq!["join-pane"@, "-d"@, "-s"@, pane, "-t"@, target]
}

/// The arguments that rename a target.
pub open spec fn rename_args(t: TargetV, name: Seq<char>) -> Seq<Seq<char>> {
    match t {
        TargetV::Session(s) => seq!["rename-session"@, "-t"@, s, name],
        TargetV::Window { session, index } => seq![
            "rename-window"@,
            "-t"@,
            window_address(session, index),
            name,
        ],
        TargetV::Pane { id, .. } => seq!["select-pane"@, "-t"@, id, "-T"@, name],
    }
}

/// The arguments that kill a target.
pub open spec fn kill_args(t: TargetV) -> Seq<Seq<char>> {
    match t {
        TargetV::Session(s) => seq!["kill-session"@, "-t"@, s],
        TargetV::Window { session, index } => seq![
            "kill-window"@,
            "-t"@,
            window_address(session, index),
        ],
        TargetV::Pane { id, .. } => seq!["kill-pane"@, "-t"@, id],
    }
}

/// The arguments that create a window in `session`, named where a name is given.
pub open spec fn new_window_args(session: Seq<char>, name: Seq<char>) -> Seq<Seq<char>> {
    if name.len() == 0 {
        seq!["new-window"@, "-d"@, "-t"@, session + seq![':']]
    } else {
        seq!["new-window"@, "-d"@, "-t"@, session + seq![':'], "-n"@, name]
    }
}

/// The layout an equalize key picks, if it picks one.
pub open spec fn equalize_layout(key: Key, num_panes: usize) -> Option<Seq<char>> {
    match key {
        Key::Enter | Key::Char('y') | Key::Char('Y') => Some(
            if num_panes <= 1 {
                "even-horizontal"@
            } else if num_panes == 2 {
                "even-vertical"@
            } else {
                "tiled"@
            },
        ),
        Key::Char('t') => Some("tiled"@),
        Key::Char('h') => Some("even-horizontal"@),
        Key::Char('v') => Some("even-vertical"@),
        Key::Char('m') => Some("main-horizontal"@),
        _ => None,
    }
}

/// The arguments that apply a layout to a window.
pub open spec fn layout_args(session: Seq<char>, index: usize, layout: Seq<char>) -> Seq<Seq<char>> {
    seq!["select-layout"@, "-t"@, window_address(session, index), layout]
}

/// Text input after a key: a character typed, or the last one erased.
pub open spec fn edited(input: Seq<char>, key: Key) -> Seq<char> {
    match key {
        Key::Char(c) => input.push(c),
        Key::Backspace => if input.len() > 0 {
            input.drop_last()
        } else {
            input
        },
        _ => input,
    }
}

impl AppV {
    /// Runs a command that changes tmux's state; the tree is reloaded after it.
    pub open spec fn mutate(self, args: Seq<Seq<char>>) -> (AppV, StepV) {
        (self.with_pending(PendingV::Mutation), StepV::Run(args))
    }

    /// Runs a command that ends the TUI when it succeeds.
    pub open spec fn finish_with(self, args: Seq<Seq<char>>) -> (AppV, StepV) {
        (self.with_pending(PendingV::Chain(Seq::empty())), StepV::Run(args))
    }

    /// The selection moved, or a node collapsed or expanded, by the navigation
    /// keys shared by the selection modes.
    pub open spec fn moved(self, key: Key) -> AppV {
        match key {
            Key::Up | Key::Char('k') => self.previous(),
            Key::Down | Key::Char('j') => self.next(),
            Key::Left => self.set_collapsed(true),
            Key::Right => self.set_collapsed(false),
            Key::Char(' ') => self.toggle_collapsed(),
            _ => self,
        }
    }

    /// The navigation keys shared by the selection modes, then the mode kept.
    pub open spec fn navigate(self, key: Key, keep: ModeV) -> AppV {
        self.moved(key).with_mode(keep)
    }

    /// A key in normal mode.
    pub open spec fn on_normal(self, key: Key) -> (AppV, StepV) {
        match key {
            Key::Char('q') | Key::Esc => (self, StepV::Done(Flow::Exit)),
            Key::Up | Key::Char('k') => stay(self.previous()),
            Key::Down | Key::Char('j') => stay(self.next()),
            Key::Left | Key::Char('h') => stay(self.set_collapsed(true)),
            Key::Right | Key::Char('l') => stay(self.set_collapsed(false)),
            Key::Char(' ') => stay(self.toggle_collapsed()),
            Key::Enter => match self.current_target() {
                Some(t) => (
                    self.with_pending(PendingV::Chain(switch_plan(t).drop_first())),
                    StepV::Run(switch_plan(t)[0]),
                ),
                None => stay(self),
            },
            Key::Char('m') => match self.current_target() {
                Some(TargetV::Pane { id, .. }) => stay(
                    self.with_mode(
                        ModeV::MovePaneSelect {
                            src_pane_id: id,
                            src_label: or_else(self.current_label(), "Pane"@),
                        },
                    ),
                ),
                Some(TargetV::Window { session, index }) => stay(
                    self.with_mode(
                        ModeV::MoveWindowSelect {
                            src_session: session,
                            src_window_index: index,
                            src_label: window_move_label(
                                index,
                                match window_at(self.sessions, session, index) {
                                    Some(w) => w.name,
                                    None => Seq::empty(),
                                },
                            ),
                        },
                    ),
                ),
                _ => stay(self),
            },
            Key::Char('s') => match self.current_target() {
                Some(TargetV::Pane { id, .. }) => stay(
                    self.with_mode(
                        ModeV::SwapSelect {
                            src_pane_id: id,
                            src_label: or_else(self.current_label(), "Pane"@),
                        },
                    ),
                ),
                _ => stay(self),
            },
            Key::Char('r') => match self.current_target() {
                Some(t) => stay(
                    self.with_mode(ModeV::RenameInput { target: t, input: self.rename_seed(t) }),
                ),
                None => stay(self),
            },
            Key::Char('x') | Key::Char('d') => match self.current_target() {
                Some(t) => stay(
                    self.with_mode(
                        ModeV::KillConfirm { target: t, label: or_else(self.current_label(), "Item"@) },
                    ),
                ),
                None => stay(self),
            },
            Key::Char('n') => stay(
                self.with_mode(
                    ModeV::NewWindow {
                        session: match self.current_target() {
                            Some(t) => t.session_name(),
                            None => if self.sessions.len() > 0 {
                                self.sessions[0].name
                            } else {
                                Seq::empty()
                            },
                        },
                        input: Seq::empty(),
                    },
                ),
            ),
            Key::Char('N') => stay(self.with_mode(ModeV::NewSession { input: Seq::empty() })),
            Key::Char('e') => match self.equalize_info() {
                Some((session, window_index, window_name, num_panes)) => if num_panes <= 1 {
                    stay(self.with_mode(ModeV::Error(nothing_to_equalize())))
                } else {
                    stay(
                        self.with_mode(
                            ModeV::EqualizeConfirm {
                                session,
                                window_index,
                                window_name,
                                num_panes: num_panes as usize,
                            },
                        ),
                    )
                },
                None => stay(self),
            },
            Key::Char('p') => {
                let b = AppV { show_preview: !self.show_preview, ..self };
                if b.show_preview {
                    AppV { last_previewed: None, ..b }.update_preview()
                } else {
                    stay(b)
                }
            },
            _ => stay(self),
        }
    }

    /// A key while choosing where to move a pane.
    pub open spec fn on_move_pane(self, key: Key, src: Seq<char>, label: Seq<char>) -> (
        AppV,
        StepV,
    ) {
        let keep = ModeV::MovePaneSelect { src_pane_id: src, src_label: label };
        match key {
            Key::Esc => stay(self),
            Key::Char('v') | Key::Char('h') | Key::Char('w') => match self.current_target() {
                Some(t) => match key {
                    Key::Char('v') => self.finish_with(join_args("-h"@, src, t.tmux_id())),
                    Key::Char('h') => self.finish_with(join_args("-v"@, src, t.tmux_id())),
                    _ => (
                        self.with_pending(PendingV::BreakPane(t.session_name())),
                        StepV::Run(break_args(src)),
                    ),
                },
                None => stay(self.with_mode(keep)),
            },
            _ => stay(self.navigate(key, keep)),
        }
    }

    /// A key while choosing where to move a window.
    pub open spec fn on_move_window(
        self,
        key: Key,
        src_session: Seq<char>,
        src_index: usize,
        label: Seq<char>,
    ) -> (AppV, StepV) {
        let keep = ModeV::MoveWindowSelect {
            src_session,
            src_window_index: src_index,
            src_label: label,
        };
        match key {
            Key::Esc => stay(self),
            Key::Enter => match self.current_target() {
                Some(t) => self.finish_with(
                    move_window_args(window_address(src_session, src_index), t.session_name()),
                ),
                None => stay(self.with_mode(keep)),
            },
            Key::Char('m') => match self.current_target() {
                Some(TargetV::Session(_)) => stay(self.with_mode(ModeV::Error(merge_needs_window()))),
                Some(t) => {
                    let (dst_session, dst_index) = match t {
                        TargetV::Window { session, index } => (session, index),
                        TargetV::Pane { session, window_index, .. } => (session, window_index),
                        TargetV::Session(s) => (s, 0),
                    };
                    if src_session == dst_session && src_index == dst_index {
                        stay(self.with_mode(ModeV::Error(merge_into_itself())))
                    } else {
                        match window_at(self.sessions, src_session, src_index) {
                            Some(w) => {
                                let ids = pane_ids(w.panes);
                                let target = window_address(dst_session, dst_index);
                                if ids.len() == 0 {
                                    (self, StepV::Done(Flow::Exit))
                                } else {
                                    (
                                        self.with_pending(
                                            PendingV::Merge {
                                                target,
                                                current: ids[0],
                                                rest: ids.drop_first(),
                                            },
                                        ),
                                        StepV::Run(merge_args(ids[0], target)),
                                    )
                                }
                            },
                            None => stay(self.with_mode(keep)),
                        }
                    }
                },
                None => stay(self.with_mode(keep)),
            },
            _ => stay(self.navigate(key, keep)),
        }
    }

    /// A key while choosing the pane to swap with.
    pub open spec fn on_swap(self, key: Key, src: Seq<char>, label: Seq<char>) -> (AppV, StepV) {
        let keep = ModeV::SwapSelect { src_pane_id: src, src_label: label };
        match key {
            Key::Esc => stay(self),
            Key::Enter => match self.current_target() {
                Some(TargetV::Pane { id, .. }) => self.finish_with(
                    seq!["swap-pane"@, "-s"@, src, "-t"@, id],
                ),
                _ => stay(self.with_mode(keep)),
            },
            _ => stay(self.navigate(key, keep)),
        }
    }

    /// A key while typing a new name.
    pub open spec fn on_rename(self, key: Key, t: TargetV, input: Seq<char>) -> (AppV, StepV) {
        match key {
            Key::Esc => stay(self),
            Key::Enter => if trim(input).len() == 0 {
                stay(self.with_mode(ModeV::RenameInput { target: t, input }))
            } else {
                self.mutate(rename_args(t, trim(input)))
            },
            _ => stay(self.with_mode(ModeV::RenameInput { target: t, input: edited(input, key) })),
        }
    }

    /// A key while confirming a kill.
    pub open spec fn on_kill_confirm(self, key: Key, t: TargetV, label: Seq<char>) -> (
        AppV,
        StepV,
    ) {
        match key {
            Key::Char('y') | Key::Char('Y') | Key::Enter => self.mutate(kill_args(t)),
            Key::Char('n') | Key::Char('N') | Key::Esc => stay(self),
            _ => stay(self.with_mode(ModeV::KillConfirm { target: t, label })),
        }
    }

    /// A key while typing the name of a new session.
    pub open spec fn on_new_session(self, key: Key, input: Seq<char>) -> (AppV, StepV) {
        match key {
            Key::Esc => stay(self),
            Key::Enter => if trim(input).len() == 0 {
                stay(self.with_mode(ModeV::NewSession { input }))
            } else {
                self.mutate(seq!["new-session"@, "-d"@, "-s"@, trim(input)])
            },
            _ => stay(self.with_mode(ModeV::NewSession { input: edited(input, key) })),
        }
    }

    /// A key while typing the name of a new window.
    pub open spec fn on_new_window(self, key: Key, session: Seq<char>, input: Seq<char>) -> (
        AppV,
        StepV,
    ) {
        match key {
            Key::Esc => stay(self),
            Key::Enter => self.mutate(new_window_args(session, trim(input))),
            _ => stay(self.with_mode(ModeV::NewWindow { session, input: edited(input, key) })),
        }
    }

    /// A key while choosing a layout.
    pub open spec fn on_equalize(
        self,
        key: Key,
        session: Seq<char>,
        window_index: usize,
        window_name: Seq<char>,
        num_panes: usize,
    ) -> (AppV, StepV) {
        match key {
            Key::Esc | Key::Char('n') | Key::Char('N') => stay(self),
            _ => match equalize_layout(key, num_panes) {
                Some(layout) => self.mutate(layout_args(session, window_index, layout)),
                None => stay(
                    self.with_mode(
                        ModeV::EqualizeConfirm { session, window_index, window_name, num_panes },
                    ),
                ),
            },
        }
    }

    /// A key while an error is shown.
    pub open spec fn on_error(self, key: Key, msg: Seq<char>) -> (AppV, StepV) {
        match key {
            Key::Esc | Key::Enter => (
                self.with_pending(PendingV::Reload(false)),
                StepV::Run(list_panes_spec()),
            ),
            _ => stay(self.with_mode(ModeV::Error(msg))),
        }
    }

    /// A key press: the current mode is left (for normal mode) and the key
    /// handled as that mode handles it.
    pub open spec fn handle_key(self, key: Key) -> (AppV, StepV) {
        let a = self.with_mode(ModeV::Normal);
        match self.mode {
            ModeV::Normal => a.on_normal(key),
            ModeV::MovePaneSelect { src_pane_id, src_label } => a.on_move_pane(
                key,
                src_pane_id,
                src_label,
            ),
            ModeV::MoveWindowSelect { src_session, src_window_index, src_label } =>
                a.on_move_window(key, src_session, src_window_index, src_label),
            ModeV::SwapSelect { src_pane_id, src_label } => a.on_swap(key, src_pane_id, src_label),
            ModeV::RenameInput { target, input } => a.on_rename(key, target, input),
            ModeV::KillConfirm { target, label } => a.on_kill_confirm(key, target, label),
            ModeV::NewSession { input } => a.on_new_session(key, input),
            ModeV::NewWindow { session, input } => a.on_new_window(key, session, input),
            ModeV::EqualizeConfirm { session, window_index, window_name, num_panes } =>
                a.on_equalize(key, session, window_index, window_name, num_panes),
            ModeV::Error(msg) => a.on_error(key, msg),
        }
    }

    /// The outcome of the tmux command in flight handed back: the next command
    /// of a chain, or the effect of the finished one.
    pub open spec fn resume(self, outcome: Result<Seq<char>, Seq<char>>) -> (AppV, StepV) {
        let idle = self.with_pending(PendingV::Idle);
        match self.pending {
            PendingV::Idle => stay(self),
            PendingV::Chain(rest) => match outcome {
                Ok(_) => if rest.len() == 0 {
                    (idle, StepV::Done(Flow::Exit))
                } else {
                    (self.with_pending(PendingV::Chain(rest.drop_first())), StepV::Run(rest[0]))
                },
                Err(e) => stay(idle.with_mode(ModeV::Error(e))),
            },
            PendingV::BreakPane(session) => match outcome {
                Ok(out) => (
                    self.with_pending(PendingV::Chain(Seq::empty())),
                    StepV::Run(move_window_args(trim(out), session)),
                ),
                Err(e) => stay(idle.with_mode(ModeV::Error(e))),
            },
            PendingV::Merge { target, current, rest } => match outcome {
                Ok(_) => if rest.len() == 0 {
                    (idle, StepV::Done(Flow::Exit))
                } else {
                    (
                        self.with_pending(
                            PendingV::Merge { target, current: rest[0], rest: rest.drop_first() },
                        ),
                        StepV::Run(merge_args(rest[0], target)),
                    )
                },
                Err(e) => stay(idle.with_mode(ModeV::Error(merge_failed(current, e)))),
            },
            PendingV::Mutation => match outcome {
                Ok(_) => (self.with_pending(PendingV::Reload(true)), StepV::Run(list_panes_spec())),
                Err(e) => stay(idle.with_mode(ModeV::Error(e))),
            },
            PendingV::Reload(report) => match outcome {
                Ok(out) => stay(
                    AppV { sessions: tree_of(out), last_previewed: None, ..idle }.rebuilt(),
                ),
                Err(e) => if report {
                    stay(idle.with_mode(ModeV::Error(e)))
                } else {
                    stay(idle)
                },
            },
            PendingV::Capture(id) => stay(
                AppV {
                    preview: Some(
                        match outcome {
                            Ok(c) => c,
                            Err(e) => "Error capturing pane preview: "@ + e,
                        },
                    ),
                    last_previewed: Some(id),
                    ..idle
                },
            ),
        }
    }
}

/// The error shown when a window is to be merged into a session.
pub open spec fn merge_needs_window() -> Seq<char> {
    "Must select a target Window or Pane to merge."@
}

/// The error shown when a window is to be merged into itself.
pub open spec fn merge_into_itself() -> Seq<char> {
    "Cannot merge a window into itself."@
}

/// The error shown when a window with one pane is to be equalized.
pub open spec fn nothing_to_equalize() -> Seq<char> {
    "Window has only 1 pane — nothing to equalize."@
}

/// The error shown when joining a pane of a merged window failed.
pub open spec fn merge_failed(pane: Seq<char>, e: Seq<char>) -> Seq<char> {
    "Failed to merge pane "@ + pane + ": "@ + e
}

// ---------------------------------------------------------------------------
// Laws of the state machine
// ---------------------------------------------------------------------------

/// Moving the selection down and then up returns to the same row, and moving
/// it up and then down too.
pub proof fn lemma_previous_undoes_next(a: AppV)
    requires
        a.wf(),
    ensures
        a.next().previous() == a,
        a.previous().next() == a,
{
    if a.items.len() > 0 {
        let i = a.selected.unwrap();
        let len = a.items.len();
        let n = if i >= len - 1 { 0usize } else { (i + 1) as usize };
        assert(a.next() == a.with_selected(Some(n)));
        assert(a.next().previous() == a.with_selected(Some(i)));
        assert(a.with_selected(Some(i)) == a);
        let p = if i == 0 { (len - 1) as usize } else { (i - 1) as usize };
        assert(a.previous() == a.with_selected(Some(p)));
        assert(a.previous().next() == a.with_selected(Some(i)));
    }
}

/// Every mode that waits for a choice or some input is left with `Esc`, and
/// nothing else changes; in normal mode `Esc` quits; an error is dismissed by
/// reloading the tree.
pub proof fn lemma_escape_cancels(a: AppV)
    ensures
        match a.mode {
            ModeV::Normal => a.handle_key(Key::Esc) == (a, StepV::Done(Flow::Exit)),
            ModeV::Error(_) => a.handle_key(Key::Esc) == (
                a.with_mode(ModeV::Normal).with_pending(PendingV::Reload(false)),
                StepV::Run(list_panes_spec()),
            ),
            _ => a.handle_key(Key::Esc) == stay(a.with_mode(ModeV::Normal)),
        },
{
    match a.mode {
        ModeV::Normal => {
            assert(a.with_mode(ModeV::Normal) == a);
        },
        _ => {},
    }
}

/// Typing a character and erasing it leaves the input as it was.
pub proof fn lemma_backspace_undoes_typing(input: Seq<char>, c: char)
    ensures
        edited(edited(input, Key::Char(c)), Key::Backspace) == input,
{
    assert(input.push(c).drop_last() =~= input);
}

/// An outcome handed back while no command is in flight changes nothing.
pub proof fn lemma_resume_idle_is_inert(a: AppV, outcome: Result<Seq<char>, Seq<char>>)
    requires
        a.pending == PendingV::Idle,
    ensures
        a.resume(outcome) == stay(a),
{
}

/// `q` and `Esc` in normal mode end the program, run no command and change
/// nothing.
pub proof fn lemma_quit_keys(a: AppV)
    requires
        a.mode == ModeV::Normal,
    ensures
        a.handle_key(Key::Char('q')) == (a, StepV::Done(Flow::Exit)),
        a.handle_key(Key::Esc) == (a, StepV::Done(Flow::Exit)),
{
    assert(a.with_mode(ModeV::Normal) == a);
}

/// The machine in state `a` after `step`, fed the outcomes `outs` one by one
/// while it asks for commands: the commands it ran, in order, and the state
/// and step it ends with.
pub open spec fn run_outcomes(
    a: AppV,
    step: StepV,
    outs: Seq<Result<Seq<char>, Seq<char>>>,
) -> (Seq<Seq<Seq<char>>>, AppV, StepV)
    decreases outs.len(),
{
    match step {
        StepV::Run(c) => if outs.len() == 0 {
            (Seq::empty(), a, step)
        } else {
            let (b, next) = a.resume(outs[0]);
            let (cs, e, last) = run_outcomes(b, next, outs.drop_first());
            (seq![c] + cs, e, last)
        },
        StepV::Done(_) => (Seq::empty(), a, step),
    }
}

/// Whether the first `n` outcomes are successes.
pub open spec fn all_ok(outs: Seq<Result<Seq<char>, Seq<char>>>, n: int) -> bool {
    forall|j: int| 0 <= j < n ==> (#[trigger] outs[j]) is Ok
}

proof fn lemma_chain_runs(
    a: AppV,
    c: Seq<Seq<char>>,
    rest: Seq<Seq<Seq<char>>>,
    outs: Seq<Result<Seq<char>, Seq<char>>>,
    k: int,
)
    requires
        a.pending == PendingV::Chain(rest),
        0 <= k <= rest.len(),
        outs.len() == k + 1,
        all_ok(outs, k),
    ensures
        outs[k] is Ok && k == rest.len() ==> run_outcomes(a, StepV::Run(c), outs) == (
            seq![c] + rest,
            a.with_pending(PendingV::Idle),
            StepV::Done(Flow::Exit),
        ),
        outs[k] is Err ==> run_outcomes(a, StepV::Run(c), outs) == (
            seq![c] + rest.take(k),
            a.with_pending(PendingV::Idle).with_mode(ModeV::Error(outs[k]->Err_0)),
            StepV::Done(Flow::Continue),
        ),
    decreases k,
{
    let tail = outs.drop_first();
    if k == 0 {
        let (b, next) = a.resume(outs[0]);
        assert(run_outcomes(b, next, tail) == (Seq::<Seq<Seq<char>>>::empty(), b, next));
        if outs[0] is Ok && rest.len() == 0 {
            assert(seq![c] + Seq::<Seq<Seq<char>>>::empty() =~= seq![c] + rest);
        }
        if outs[0] is Err {
            assert(seq![c] + Seq::<Seq<Seq<char>>>::empty() =~= seq![c] + rest.take(0));
        }
    } else {
        assert(outs[0] is Ok);
        let b = a.with_pending(PendingV::Chain(rest.drop_first()));
        assert(a.resume(outs[0]) == (b, StepV::Run(rest[0])));
        assert(all_ok(tail, k - 1)) by {
            assert forall|j: int| 0 <= j < k - 1 implies (#[trigger] tail[j]) is Ok by {
                assert(tail[j] == outs[j + 1]);
            }
        }
        lemma_chain_runs(b, rest[0], rest.drop_first(), tail, k - 1);
        assert(tail[k - 1] == outs[k]);
        assert(b.with_pending(PendingV::Idle) == a.with_pending(PendingV::Idle));
        assert(seq![c] + (seq![rest[0]] + rest.drop_first()) =~= seq![c] + rest);
        assert(seq![c] + (seq![rest[0]] + rest.drop_first().take(k - 1)) =~= seq![c] + rest.take(
            k,
        ));
    }
}

/// `Enter` on a row in normal mode runs the commands that focus its target, in
/// order. When they all succeed the program ends; when one fails, no later
/// command runs, its error is shown, and nothing else changes.
pub proof fn lemma_enter_focuses_target(
    a: AppV,
    outs: Seq<Result<Seq<char>, Seq<char>>>,
    k: int,
)
    requires
        a.mode == ModeV::Normal,
        a.pending == PendingV::Idle,
        a.current_target() is Some,
        0 <= k < switch_plan(a.current_target()->0).len(),
        outs.len() == k + 1,
        all_ok(outs, k),
    ensures
        ({
            let plan = switch_plan(a.current_target()->0);
            let (b, step) = a.handle_key(Key::Enter);
            &&& outs[k] is Ok && k == plan.len() - 1 ==> run_outcomes(b, step, outs) == (
                plan,
                a,
                StepV::Done(Flow::Exit),
            )
            &&& outs[k] is Err ==> run_outcomes(b, step, outs) == (
                plan.take(k + 1),
                a.with_mode(ModeV::Error(outs[k]->Err_0)),
                StepV::Done(Flow::Continue),
            )
        }),
{
    let t = a.current_target()->0;
    let plan = switch_plan(t);
    assert(a.with_mode(ModeV::Normal) == a);
    assert(plan.len() > 0);
    let b = a.with_pending(PendingV::Chain(plan.drop_first()));
    assert(a.handle_key(Key::Enter) == (b, StepV::Run(plan[0])));
    lemma_chain_runs(b, plan[0], plan.drop_first(), outs, k);
    assert(b.with_pending(PendingV::Idle) == a);
    assert(seq![plan[0]] + plan.drop_first() =~= plan);
    assert(seq![plan[0]] + plan.drop_first().take(k) =~= plan.take(k + 1));
}

// ---------------------------------------------------------------------------
// The structure of the flattened tree
// ---------------------------------------------------------------------------

proof fn lemma_windows_rows_targets(s: Seq<char>, ws: Seq<WindowV>, cw: Set<(Seq<char>, usize)>)
    ensures
        forall|i: int|
            0 <= i < windows_rows(s, ws, cw).len() ==> !((#[trigger] windows_rows(s, ws, cw)[i]).target
                is Session),
    decreases ws.len(),
{
    if ws.len() > 0 {
        lemma_windows_rows_targets(s, ws.drop_last(), cw);
        let a = windows_rows(s, ws.drop_last(), cw);
        let b = window_rows(s, ws.last(), cw);
        assert forall|i: int| 0 <= i < (a + b).len() implies !((a + b)[i].target is Session) by {
            if i >= a.len() {
                assert((a + b)[i] == b[i - a.len()]);
            }
        }
    }
}

proof fn lemma_flat_rows_concat(
    a: Seq<SessionV>,
    b: Seq<SessionV>,
    cs: Set<Seq<char>>,
    cw: Set<(Seq<char>, usize)>,
)
    ensures
        flat_rows(a + b, cs, cw) == flat_rows(a, cs, cw) + flat_rows(b, cs, cw),
    decreases b.len(),
{
    if b.len() == 0 {
        assert(a + b == a);
        assert(flat_rows(a, cs, cw) + flat_rows(b, cs, cw) =~= flat_rows(a, cs, cw));
    } else {
        lemma_flat_rows_concat(a, b.drop_last(), cs, cw);
        assert((a + b).drop_last() == a + b.drop_last());
        assert((a + b).last() == b.last());
        assert(flat_rows(a + b.drop_last(), cs, cw) + session_rows(b.last(), cs, cw) =~= flat_rows(
            a,
            cs,
            cw,
        ) + (flat_rows(b.drop_last(), cs, cw) + session_rows(b.last(), cs, cw)));
    }
}

proof fn lemma_windows_rows_concat(
    s: Seq<char>,
    a: Seq<WindowV>,
    b: Seq<WindowV>,
    cw: Set<(Seq<char>, usize)>,
)
    ensures
        windows_rows(s, a + b, cw) == windows_rows(s, a, cw) + windows_rows(s, b, cw),
    decreases b.len(),
{
    if b.len() == 0 {
        assert(a + b == a);
        assert(windows_rows(s, a, cw) + windows_rows(s, b, cw) =~= windows_rows(s, a, cw));
    } else {
        lemma_windows_rows_concat(s, a, b.drop_last(), cw);
        assert((a + b).drop_last() == a + b.drop_last());
        assert((a + b).last() == b.last());
        assert(windows_rows(s, a + b.drop_last(), cw) + window_rows(s, b.last(), cw)
            =~= windows_rows(s, a, cw) + (windows_rows(s, b.drop_last(), cw) + window_rows(
            s,
            b.last(),
            cw,
        )));
    }
}

proof fn lemma_windows_rows_agree(
    s: Seq<char>,
    ws: Seq<WindowV>,
    cw1: Set<(Seq<char>, usize)>,
    cw2: Set<(Seq<char>, usize)>,
)
    requires
        forall|j: int|
            0 <= j < ws.len() ==> cw1.contains((s, (#[trigger] ws[j]).index)) == cw2.contains(
                (s, ws[j].index),
            ),
    ensures
        windows_rows(s, ws, cw1) == windows_rows(s, ws, cw2),
    decreases ws.len(),
{
    if ws.len() > 0 {
        let d = ws.drop_last();
        assert forall|j: int| 0 <= j < d.len() implies cw1.contains((s, (#[trigger] d[j]).index))
            == cw2.contains((s, d[j].index)) by {
            assert(d[j] == ws[j]);
        }
        lemma_windows_rows_agree(s, d, cw1, cw2);
        assert(ws.last() == ws[ws.len() - 1]);
    }
}

/// The key a collapsed window is kept under, for each window of a tree.
pub open spec fn window_key(ss: Seq<SessionV>, k: int, j: int) -> (Seq<char>, usize) {
    (ss[k].name, ss[k].windows[j].index)
}

proof fn lemma_flat_rows_agree(
    ss: Seq<SessionV>,
    cs1: Set<Seq<char>>,
    cw1: Set<(Seq<char>, usize)>,
    cs2: Set<Seq<char>>,
    cw2: Set<(Seq<char>, usize)>,
)
    requires
        forall|k: int| 0 <= k < ss.len() ==> cs1.contains((#[trigger] ss[k]).name) == cs2.contains(ss[k].name),
        forall|k: int, j: int|
            0 <= k < ss.len() && 0 <= j < ss[k].windows.len() ==> cw1.contains(
                #[trigger] window_key(ss, k, j),
            ) == cw2.contains(window_key(ss, k, j)),
    ensures
        flat_rows(ss, cs1, cw1) == flat_rows(ss, cs2, cw2),
    decreases ss.len(),
{
    if ss.len() > 0 {
        let d = ss.drop_last();
        assert forall|k: int| 0 <= k < d.len() implies cs1.contains((#[trigger] d[k]).name)
            == cs2.contains(d[k].name) by {
            assert(d[k] == ss[k]);
        }
        assert forall|k: int, j: int| 0 <= k < d.len() && 0 <= j < d[k].windows.len() implies cw1.contains(
            #[trigger] window_key(d, k, j),
        ) == cw2.contains(window_key(d, k, j)) by {
            assert(d[k] == ss[k]);
            assert(window_key(d, k, j) == window_key(ss, k, j));
        }
        lemma_flat_rows_agree(d, cs1, cw1, cs2, cw2);
        let last = ss.last();
        let n = ss.len() - 1;
        assert(cs1.contains(ss[n].name) == cs2.contains(ss[n].name));
        assert forall|j: int| 0 <= j < last.windows.len() implies cw1.contains(
            (last.name, (#[trigger] last.windows[j]).index),
        ) == cw2.contains((last.name, last.windows[j].index)) by {
            assert(window_key(ss, n, j) == (last.name, last.windows[j].index));
        }
        lemma_windows_rows_agree(last.name, last.windows, cw1, cw2);
    }
}

proof fn lemma_flat_rows_single(x: SessionV, cs: Set<Seq<char>>, cw: Set<(Seq<char>, usize)>)
    ensures
        flat_rows(seq![x], cs, cw) == session_rows(x, cs, cw),
{
    assert(seq![x].drop_last() =~= Seq::<SessionV>::empty());
    assert(flat_rows(Seq::<SessionV>::empty(), cs, cw) == Seq::<NavItemV>::empty());
    assert(Seq::<NavItemV>::empty() + session_rows(x, cs, cw) =~= session_rows(x, cs, cw));
}

proof fn lemma_windows_rows_single(s: Seq<char>, w: WindowV, cw: Set<(Seq<char>, usize)>)
    ensures
        windows_rows(s, seq![w], cw) == window_rows(s, w, cw),
{
    assert(seq![w].drop_last() =~= Seq::<WindowV>::empty());
    assert(windows_rows(s, Seq::<WindowV>::empty(), cw) == Seq::<NavItemV>::empty());
    assert(Seq::<NavItemV>::empty() + window_rows(s, w, cw) =~= window_rows(s, w, cw));
}

/// Where the row of a session lies: a session row at `i` is the first row of
/// some session `k`, after the rows of the sessions before it.
proof fn lemma_session_row_at(
    ss: Seq<SessionV>,
    cs: Set<Seq<char>>,
    cw: Set<(Seq<char>, usize)>,
    i: int,
) -> (k: int)
    requires
        0 <= i < flat_rows(ss, cs, cw).len(),
        flat_rows(ss, cs, cw)[i].target is Session,
    ensures
        0 <= k < ss.len(),
        i == flat_rows(ss.take(k), cs, cw).len(),
        flat_rows(ss, cs, cw)[i].target == TargetV::Session(ss[k].name),
    decreases ss.len(),
{
    let d = ss.drop_last();
    let a = flat_rows(d, cs, cw);
    let b = session_rows(ss.last(), cs, cw);
    assert(flat_rows(ss, cs, cw) == a + b);
    if i < a.len() {
        assert(flat_rows(ss, cs, cw)[i] == a[i]);
        let k = lemma_session_row_at(d, cs, cw, i);
        assert(d.take(k) == ss.take(k));
        assert(d[k] == ss[k]);
        k
    } else {
        let o = i - a.len();
        assert(flat_rows(ss, cs, cw)[i] == b[o]);
        if o > 0 {
            if !cs.contains(ss.last().name) {
                lemma_windows_rows_targets(ss.last().name, ss.last().windows, cw);
                assert(b[o] == windows_rows(ss.last().name, ss.last().windows, cw)[o - 1]);
            }
        }
        assert(o == 0);
        assert(ss.take(ss.len() - 1) == d);
        ss.len() - 1
    }
}

/// Where the row of a window lies: a window row at `i` belongs to an expanded
/// session `k` and is the first row of its window `j`.
proof fn lemma_window_row_at(
    ss: Seq<SessionV>,
    cs: Set<Seq<char>>,
    cw: Set<(Seq<char>, usize)>,
    i: int,
) -> (kj: (int, int))
    requires
        0 <= i < flat_rows(ss, cs, cw).len(),
        flat_rows(ss, cs, cw)[i].target is Window,
    ensures
        0 <= kj.0 < ss.len(),
        0 <= kj.1 < ss[kj.0].windows.len(),
        !cs.contains(ss[kj.0].name),
        i == flat_rows(ss.take(kj.0), cs, cw).len() + 1 + windows_rows(
            ss[kj.0].name,
            ss[kj.0].windows.take(kj.1),
            cw,
        ).len(),
        flat_rows(ss, cs, cw)[i].target == (TargetV::Window {
            session: ss[kj.0].name,
            index: ss[kj.0].windows[kj.1].index,
        }),
    decreases ss.len(),
{
    let d = ss.drop_last();
    let a = flat_rows(d, cs, cw);
    let last = ss.last();
    let b = session_rows(last, cs, cw);
    assert(flat_rows(ss, cs, cw) == a + b);
    if i < a.len() {
        assert(flat_rows(ss, cs, cw)[i] == a[i]);
        let kj = lemma_window_row_at(d, cs, cw, i);
        assert(d.take(kj.0) == ss.take(kj.0));
        assert(d[kj.0] == ss[kj.0]);
        kj
    } else {
        let o = i - a.len();
        assert(flat_rows(ss, cs, cw)[i] == b[o]);
        assert(o > 0);
        assert(!cs.contains(last.name));
        let w = windows_rows(last.name, last.windows, cw);
        assert(b[o] == w[o - 1]);
        let j = lemma_window_row_in(last.name, last.windows, cw, o - 1);
        assert(ss.take(ss.len() - 1) == d);
        assert(ss[ss.len() - 1] == last);
        (ss.len() - 1, j)
    }
}

proof fn lemma_window_row_in(s: Seq<char>, ws: Seq<WindowV>, cw: Set<(Seq<char>, usize)>, i: int) -> (j: int)
    requires
        0 <= i < windows_rows(s, ws, cw).len(),
        windows_rows(s, ws, cw)[i].target is Window,
    ensures
        0 <= j < ws.len(),
        i == windows_rows(s, ws.take(j), cw).len(),
        windows_rows(s, ws, cw)[i].target == (TargetV::Window { session: s, index: ws[j].index }),
    decreases ws.len(),
{
    let d = ws.drop_last();
    let a = windows_rows(s, d, cw);
    let b = window_rows(s, ws.last(), cw);
    assert(windows_rows(s, ws, cw) == a + b);
    if i < a.len() {
        assert(windows_rows(s, ws, cw)[i] == a[i]);
        let j = lemma_window_row_in(s, d, cw, i);
        assert(d.take(j) == ws.take(j));
        assert(d[j] == ws[j]);
        j
    } else {
        let o = i - a.len();
        assert(windows_rows(s, ws, cw)[i] == b[o]);
        if o > 0 {
            let p = pane_rows(s, ws.last(), ws.last().panes.len() as int);
            assert(b[o] == p[o - 1]);
        }
        assert(o == 0);
        assert(ws.take(ws.len() - 1) == d);
        ws.len() - 1
    }
}

/// Flipping whether one session is collapsed keeps that session's row where
/// it was, in a tree whose sessions have distinct names.
proof fn lemma_session_row_stays(
    ss: Seq<SessionV>,
    cs: Set<Seq<char>>,
    cw: Set<(Seq<char>, usize)>,
    i: int,
    cs2: Set<Seq<char>>,
)
    requires
        tree_is_unambiguous(ss),
        0 <= i < flat_rows(ss, cs, cw).len(),
        flat_rows(ss, cs, cw)[i].target is Session,
        forall|x: Seq<char>| x != flat_rows(ss, cs, cw)[i].target->Session_0 ==> cs.contains(x)
            == cs2.contains(x),
    ensures
        i < flat_rows(ss, cs2, cw).len(),
        flat_rows(ss, cs2, cw)[i].target == flat_rows(ss, cs, cw)[i].target,
{
    let k = lemma_session_row_at(ss, cs, cw, i);
    let pre = ss.take(k);
    let post = ss.skip(k + 1);
    assert(ss == pre + (seq![ss[k]] + post));
    lemma_flat_rows_concat(pre, seq![ss[k]] + post, cs2, cw);
    lemma_flat_rows_concat(seq![ss[k]], post, cs2, cw);
    lemma_flat_rows_single(ss[k], cs2, cw);
    assert forall|m: int| 0 <= m < pre.len() implies cs.contains((#[trigger] pre[m]).name)
        == cs2.contains(pre[m].name) by {
        assert(pre[m] == ss[m]);
        assert(ss[m].name != ss[k].name);
    }
    lemma_flat_rows_agree(pre, cs, cw, cs2, cw);
    let rows2 = flat_rows(ss, cs2, cw);
    assert(rows2 == flat_rows(pre, cs2, cw) + (session_rows(ss[k], cs2, cw) + flat_rows(
        post,
        cs2,
        cw,
    )));
    assert(rows2[i] == session_rows(ss[k], cs2, cw)[0]);
}

/// Flipping whether one window is collapsed keeps that window's row where it
/// was, in an unambiguous tree.
proof fn lemma_window_row_stays(
    ss: Seq<SessionV>,
    cs: Set<Seq<char>>,
    cw: Set<(Seq<char>, usize)>,
    i: int,
    cw2: Set<(Seq<char>, usize)>,
)
    requires
        tree_is_unambiguous(ss),
        0 <= i < flat_rows(ss, cs, cw).len(),
        flat_rows(ss, cs, cw)[i].target is Window,
        forall|x: (Seq<char>, usize)|
            x != (flat_rows(ss, cs, cw)[i].target->Window_session, flat_rows(
                ss,
                cs,
                cw,
            )[i].target->Window_index) ==> cw.contains(x) == cw2.contains(x),
    ensures
        i < flat_rows(ss, cs, cw2).len(),
        flat_rows(ss, cs, cw2)[i].target == flat_rows(ss, cs, cw)[i].target,
{
    let (k, j) = lemma_window_row_at(ss, cs, cw, i);
    let name = ss[k].name;
    let ws = ss[k].windows;
    let pre = ss.take(k);
    let post = ss.skip(k + 1);
    assert(ss == pre + (seq![ss[k]] + post));
    lemma_flat_rows_concat(pre, seq![ss[k]] + post, cs, cw2);
    lemma_flat_rows_concat(seq![ss[k]], post, cs, cw2);
    lemma_flat_rows_single(ss[k], cs, cw2);
    assert forall|m: int, n: int| 0 <= m < pre.len() && 0 <= n < pre[m].windows.len() implies cw.contains(
        #[trigger] window_key(pre, m, n),
    ) == cw2.contains(window_key(pre, m, n)) by {
        assert(pre[m] == ss[m]);
        assert(ss[m].name != ss[k].name);
    }
    assert forall|m: int| 0 <= m < pre.len() implies cs.contains((#[trigger] pre[m]).name)
        == cs.contains(pre[m].name) by {}
    lemma_flat_rows_agree(pre, cs, cw, cs, cw2);
    let wpre = ws.take(j);
    let wpost = ws.skip(j + 1);
    assert(ws == wpre + (seq![ws[j]] + wpost));
    lemma_windows_rows_concat(name, wpre, seq![ws[j]] + wpost, cw2);
    lemma_windows_rows_concat(name, seq![ws[j]], wpost, cw2);
    lemma_windows_rows_single(name, ws[j], cw2);
    assert forall|n: int| 0 <= n < wpre.len() implies cw.contains((name, (#[trigger] wpre[n]).index))
        == cw2.contains((name, wpre[n].index)) by {
        assert(wpre[n] == ws[n]);
        assert(Window::index_of(ws[n]) != Window::index_of(ws[j]));
    }
    lemma_windows_rows_agree(name, wpre, cw, cw2);
    let rows2 = flat_rows(ss, cs, cw2);
    let srows = session_rows(ss[k], cs, cw2);
    assert(srows == seq![
        NavItemV {
            label: session_label(name, cs.contains(name)),
            target: TargetV::Session(name),
        },
    ] + windows_rows(name, ws, cw2));
    assert(rows2 == flat_rows(pre, cs, cw) + (srows + flat_rows(post, cs, cw2)));
    let wr = windows_rows(name, ws, cw2);
    assert(wr == windows_rows(name, wpre, cw) + (window_rows(name, ws[j], cw2) + windows_rows(
        name,
        wpost,
        cw2,
    )));
    let o = windows_rows(name, wpre, cw).len() as int;
    assert(wr[o] == window_rows(name, ws[j], cw2)[0]);
    assert(srows[1 + o] == wr[o]);
    assert(rows2[i] == srows[1 + o]);
}

/// Collapsing a session or window and expanding it again (or the other way
/// round) restores the state, where sessions have distinct names and windows
/// distinct indexes in their session, as every tree the parser builds has.
pub proof fn lemma_toggle_twice_restores(a: AppV)
    requires
        a.wf(),
        tree_is_unambiguous(a.sessions),
        a.current_target() matches Some(t) && !(t is Pane),
    ensures
        a.toggle_collapsed().toggle_collapsed() == a,
{
    let i = a.selected.unwrap() as int;
    let t = a.current_target().unwrap();
    let b = a.toggle_collapsed();
    match t {
        TargetV::Session(name) => {
            let was = a.collapsed_sessions.contains(name);
            let cs2 = if !was {
                a.collapsed_sessions.insert(name)
            } else {
                a.collapsed_sessions.remove(name)
            };
            lemma_session_row_stays(a.sessions, a.collapsed_sessions, a.collapsed_windows, i, cs2);
            assert(b.collapsed_sessions == cs2);
            assert(b.selected == Some(i as usize));
            assert(b.current_target() == Some(t));
            assert(b.collapsed_sessions.contains(name) == !was);
            let c = b.toggle_collapsed();
            assert(c.collapsed_sessions =~= a.collapsed_sessions);
            assert(c.items == a.items);
            assert(c.selected == a.selected);
        },
        TargetV::Window { session, index } => {
            let key = (session, index);
            let was = a.collapsed_windows.contains(key);
            let cw2 = if !was {
                a.collapsed_windows.insert(key)
            } else {
                a.collapsed_windows.remove(key)
            };
            lemma_window_row_stays(a.sessions, a.collapsed_sessions, a.collapsed_windows, i, cw2);
            assert(b.collapsed_windows == cw2);
            assert(b.selected == Some(i as usize));
            assert(b.current_target() == Some(t));
            assert(b.collapsed_windows.contains(key) == !was);
            let c = b.toggle_collapsed();
            assert(c.collapsed_windows =~= a.collapsed_windows);
            assert(c.items == a.items);
            assert(c.selected == a.selected);
        },
        TargetV::Pane { .. } => {},
    }
}

/// The number of windows in a session tree.
pub open spec fn tree_windows(ss: Seq<SessionV>) -> nat
    decreases ss.len(),
{
    if ss.len() == 0 {
        0
    } else {
        tree_windows(ss.drop_last()) + ss.last().windows.len()
    }
}

proof fn lemma_windows_rows_expanded(s: Seq<char>, ws: Seq<WindowV>)
    ensures
        windows_rows(s, ws, Set::empty()).len() == ws.len() + total_panes(ws),
    decreases ws.len(),
{
    if ws.len() > 0 {
        lemma_windows_rows_expanded(s, ws.drop_last());
    }
}

/// With nothing collapsed, the list has one row for every session, every
/// window and every pane.
pub proof fn lemma_expanded_rows(ss: Seq<SessionV>)
    ensures
        flat_rows(ss, Set::empty(), Set::empty()).len() == ss.len() + tree_windows(ss) + tree_panes(
            ss,
        ),
    decreases ss.len(),
{
    if ss.len() > 0 {
        lemma_expanded_rows(ss.drop_last());
        lemma_windows_rows_expanded(ss.last().name, ss.last().windows);
    }
}

/// A collapsed session shows its own row only: with every session collapsed,
/// the list is one row per session, whatever windows are collapsed.
pub proof fn lemma_collapsed_sessions_rows(
    ss: Seq<SessionV>,
    cs: Set<Seq<char>>,
    cw: Set<(Seq<char>, usize)>,
)
    requires
        forall|k: int| 0 <= k < ss.len() ==> cs.contains(#[trigger] ss[k].name),
    ensures
        flat_rows(ss, cs, cw).len() == ss.len(),
        forall|k: int|
            0 <= k < ss.len() ==> #[trigger] flat_rows(ss, cs, cw)[k].target == TargetV::Session(
                ss[k].name,
            ),
    decreases ss.len(),
{
    if ss.len() > 0 {
        let d = ss.drop_last();
        assert forall|k: int| 0 <= k < d.len() implies cs.contains(#[trigger] d[k].name) by {
            assert(d[k] == ss[k]);
        }
        lemma_collapsed_sessions_rows(d, cs, cw);
        let n = ss.len() - 1;
        assert(cs.contains(ss[n].name));
        let r = flat_rows(ss, cs, cw);
        assert forall|k: int| 0 <= k < ss.len() implies #[trigger] r[k].target == TargetV::Session(
            ss[k].name,
        ) by {
            if k < n {
                assert(r[k] == flat_rows(d, cs, cw)[k]);
                assert(d[k] == ss[k]);
            }
        }
    }
}

// ---------------------------------------------------------------------------
// Collapsed sets
// ---------------------------------------------------------------------------

fn insert_name(v: &mut Vec<String>, x: String)
    ensures
        views_of(final(v)@).to_set() == views_of(old(v)@).to_set().insert(x@),
{
    let ghost xv = x@;
    if !contains_name(v, &x) {
        let ghost before = views_of(v@);
        v.push(x);
        assert(views_of(v@) =~= before.push(xv));
        assert(views_of(v@).to_set() =~= before.to_set().insert(xv)) by {
            assert forall|a: Seq<char>| views_of(v@).contains(a) <==> before.contains(a) || a == xv by {
                if views_of(v@).contains(a) {
                    let k = choose|k: int| 0 <= k < views_of(v@).len() && views_of(v@)[k] == a;
                    if k < before.len() {
                        assert(before[k] == a);
                    }
                }
                if before.contains(a) {
                    let k = choose|k: int| 0 <= k < before.len() && before[k] == a;
                    assert(views_of(v@)[k] == a);
                }
                if a == xv {
                    assert(views_of(v@)[before.len() as int] == a);
                }
            }
        }
    } else {
        assert(views_of(v@).to_set() =~= views_of(v@).to_set().insert(xv));
    }
}

fn remove_name(v: &mut Vec<String>, x: &String)
    ensures
        views_of(final(v)@).to_set() == views_of(old(v)@).to_set().remove(x@),
{
    let ghost orig = views_of(v@);
    let mut out: Vec<String> = Vec::new();
    let mut i: usize = 0;
    while i < v.len()
        invariant
            i <= v@.len(),
            orig == views_of(v@),
            forall|a: Seq<char>|
                views_of(out@).contains(a) <==> (orig.take(i as int).contains(a) && a != x@),
        decreases v@.len() - i,
    {
        let ghost before = views_of(out@);
        let ghost pre = orig.take(i as int);
        let ghost nxt = orig.take(i + 1);
        assert forall|a: Seq<char>| nxt.contains(a) <==> (pre.contains(a) || a == orig[i as int]) by {
            if nxt.contains(a) {
                let k = choose|k: int| 0 <= k < nxt.len() && nxt[k] == a;
                if k < i {
                    assert(pre[k] == a);
                }
            }
            if pre.contains(a) {
                let k = choose|k: int| 0 <= k < pre.len() && pre[k] == a;
                assert(nxt[k] == a);
            }
            if a == orig[i as int] {
                assert(nxt[i as int] == a);
            }
        }
        let same = v[i] == *x;
        assert(same == (orig[i as int] == x@));
        if !same {
            out.push(v[i].clone());
            assert(views_of(out@) =~= before.push(orig[i as int]));
            assert forall|a: Seq<char>| views_of(out@).contains(a) <==> (before.contains(a) || a
                == orig[i as int]) by {
                if views_of(out@).contains(a) {
                    let k = choose|k: int| 0 <= k < views_of(out@).len() && views_of(out@)[k] == a;
                    if k < before.len() {
                        assert(before[k] == a);
                    }
                }
                if before.contains(a) {
                    let k = choose|k: int| 0 <= k < before.len() && before[k] == a;
                    assert(views_of(out@)[k] == a);
                }
                if a == orig[i as int] {
                    assert(views_of(out@)[before.len() as int] == a);
                }
            }
        }
        assert forall|a: Seq<char>| views_of(out@).contains(a) <==> (nxt.contains(a) && a != x@) by {
            if !same {
                assert(views_of(out@).contains(a) <==> (before.contains(a) || a == orig[i as int]));
            }
        }
        i += 1;
    }
    assert(orig.take(orig.len() as int) == orig);
    assert(views_of(out@).to_set() =~= orig.to_set().remove(x@));
    *v = out;
}

fn insert_window(v: &mut Vec<(String, usize)>, name: String, index: usize)
    ensures
        views_of(final(v)@).to_set() == views_of(old(v)@).to_set().insert((name@, index)),
{
    let ghost xv = (name@, index);
    if !contains_window(v, &name, index) {
        let ghost before = views_of(v@);
        v.push((name, index));
        assert(views_of(v@) =~= before.push(xv));
        assert(views_of(v@).to_set() =~= before.to_set().insert(xv)) by {
            assert forall|a: (Seq<char>, usize)| views_of(v@).contains(a) <==> before.contains(a)
                || a == xv by {
                if views_of(v@).contains(a) {
                    let k = choose|k: int| 0 <= k < views_of(v@).len() && views_of(v@)[k] == a;
                    if k < before.len() {
                        assert(before[k] == a);
                    }
                }
                if before.contains(a) {
                    let k = choose|k: int| 0 <= k < before.len() && before[k] == a;
                    assert(views_of(v@)[k] == a);
                }
                if a == xv {
                    assert(views_of(v@)[before.len() as int] == a);
                }
            }
        }
    } else {
        assert(views_of(v@).to_set() =~= views_of(v@).to_set().insert(xv));
    }
}

#[verifier::spinoff_prover]
fn remove_window(v: &mut Vec<(String, usize)>, name: &String, index: usize)
    ensures
        views_of(final(v)@).to_set() == views_of(old(v)@).to_set().remove((name@, index)),
{
    let ghost orig = views_of(v@);
    let ghost xv = (name@, index);
    let mut out: Vec<(String, usize)> = Vec::new();
    let mut i: usize = 0;
    while i < v.len()
        invariant
            i <= v@.len(),
            orig == views_of(v@),
            xv == (name@, index),
            forall|a: (Seq<char>, usize)|
                views_of(out@).contains(a) <==> (orig.take(i as int).contains(a) && a != xv),
        decreases v@.len() - i,
    {
        let ghost before = views_of(out@);
        let ghost pre = orig.take(i as int);
        let ghost nxt = orig.take(i + 1);
        assert forall|a: (Seq<char>, usize)| nxt.contains(a) <==> (pre.contains(a) || a == orig[i as int]) by {
            if nxt.contains(a) {
                let k = choose|k: int| 0 <= k < nxt.len() && nxt[k] == a;
                if k < i {
                    assert(pre[k] == a);
                }
            }
            if pre.contains(a) {
                let k = choose|k: int| 0 <= k < pre.len() && pre[k] == a;
                assert(nxt[k] == a);
            }
            if a == orig[i as int] {
                assert(nxt[i as int] == a);
            }
        }
        let same = v[i].0 == *name && v[i].1 == index;
        assert(same == (orig[i as int] == xv));
        if !same {
            out.push((v[i].0.clone(), v[i].1));
            assert(views_of(out@) =~= before.push(orig[i as int]));
            assert forall|a: (Seq<char>, usize)| views_of(out@).contains(a) <==> (before.contains(a)
                || a == orig[i as int]) by {
                if views_of(out@).contains(a) {
                    let k = choose|k: int| 0 <= k < views_of(out@).len() && views_of(out@)[k] == a;
                    if k < before.len() {
                        assert(before[k] == a);
                    }
                }
                if before.contains(a) {
                    let k = choose|k: int| 0 <= k < before.len() && before[k] == a;
                    assert(views_of(out@)[k] == a);
                }
                if a == orig[i as int] {
                    assert(views_of(out@)[before.len() as int] == a);
                }
            }
        }
        assert forall|a: (Seq<char>, usize)| views_of(out@).contains(a) <==> (nxt.contains(a) && a
            != xv) by {
            if !same {
                assert(views_of(out@).contains(a) <==> (before.contains(a) || a == orig[i as int]));
            }
        }
        i += 1;
    }
    assert(orig.take(orig.len() as int) == orig);
    assert(views_of(out@).to_set() =~= orig.to_set().remove(xv));
    *v = out;
}

fn shown_pane_of(ps: &Vec<Pane>) -> (r: Option<&Pane>)
    ensures
        match r {
            Some(p) => shown_pane(views_of(ps@)) == Some(p@),
            None => shown_pane(views_of(ps@)) is None,
        },
{
    let ghost v = views_of(ps@);
    let mut k: usize = 0;
    while k < ps.len()
        invariant
            k <= ps@.len(),
            v == views_of(ps@),
            forall|j: int| 0 <= j < k ==> !active_pane()(#[trigger] v[j]),
        decreases ps@.len() - k,
    {
        if ps[k].active {
            proof {
                lemma_first_index(v, active_pane(), k as int);
            }
            return Some(&ps[k]);
        }
        k += 1;
    }
    proof {
        lemma_first_index(v, active_pane(), k as int);
    }
    if ps.len() > 0 {
        Some(&ps[0])
    } else {
        None
    }
}

fn shown_window_of(ws: &Vec<Window>) -> (r: Option<&Window>)
    ensures
        match r {
            Some(w) => shown_window(views_of(ws@)) == Some(w@),
            None => shown_window(views_of(ws@)) is None,
        },
{
    let ghost v = views_of(ws@);
    let mut k: usize = 0;
    while k < ws.len()
        invariant
            k <= ws@.len(),
            v == views_of(ws@),
            forall|j: int| 0 <= j < k ==> !active_window()(#[trigger] v[j]),
        decreases ws@.len() - k,
    {
        if ws[k].active {
            proof {
                lemma_first_index(v, active_window(), k as int);
            }
            return Some(&ws[k]);
        }
        k += 1;
    }
    proof {
        lemma_first_index(v, active_window(), k as int);
    }
    if ws.len() > 0 {
        Some(&ws[0])
    } else {
        None
    }
}


fn empty_commands() -> (c: Vec<Vec<String>>)
    ensures
        commands_view(c@) == Seq::<Seq<Seq<char>>>::empty(),
{
    let c: Vec<Vec<String>> = Vec::new();
    assert(commands_view(c@) =~= Seq::<Seq<Seq<char>>>::empty());
    c
}

fn take_first_command(c: &mut Vec<Vec<String>>) -> (first: Vec<String>)
    requires
        old(c)@.len() > 0,
    ensures
        views_of(first@) == commands_view(old(c)@)[0],
        commands_view(final(c)@) == commands_view(old(c)@).drop_first(),
{
    let ghost before = c@;
    let first = c.remove(0);
    assert(commands_view(c@) =~= commands_view(before).drop_first()) by {
        assert forall|k: int| 0 <= k < c@.len() implies #[trigger] commands_view(c@)[k]
            == commands_view(before).drop_first()[k] by {
            assert(c@[k] == before[k + 1]);
        }
    }
    first
}

fn take_first_name(c: &mut Vec<String>) -> (first: String)
    requires
        old(c)@.len() > 0,
    ensures
        first@ == views_of(old(c)@)[0],
        views_of(final(c)@) == views_of(old(c)@).drop_first(),
{
    let ghost before = c@;
    let first = c.remove(0);
    assert(views_of(c@) =~= views_of(before).drop_first()) by {
        assert forall|k: int| 0 <= k < c@.len() implies #[trigger] views_of(c@)[k] == views_of(
            before,
        ).drop_first()[k] by {
            assert(c@[k] == before[k + 1]);
        }
    }
    first
}

fn pane_ids_of(w: &Window) -> (r: Vec<String>)
    ensures
        views_of(r@) == pane_ids(w@.panes),
{
    let mut r: Vec<String> = Vec::new();
    let mut k: usize = 0;
    while k < w.panes.len()
        invariant
            k <= w.panes@.len(),
            views_of(r@) == pane_ids(w@.panes).take(k as int),
        decreases w.panes@.len() - k,
    {
        let ghost before = views_of(r@);
        r.push(w.panes[k].id.clone());
        assert(views_of(r@) =~= before.push(w@.panes[k as int].id));
        assert(pane_ids(w@.panes).take(k + 1) =~= pane_ids(w@.panes).take(k as int).push(
            w@.panes[k as int].id,
        ));
        k += 1;
    }
    assert(pane_ids(w@.panes).take(k as int) =~= pane_ids(w@.panes));
    r
}

fn make_window_move_label(index: usize, name: &String) -> (r: String)
    ensures
        r@ == window_move_label(index, name@),
{
    let mut r = String::new();
    r.append("Window ");
    push_decimal(&mut r, index);
    r.append(": ");
    r.append(name.as_str());
    assert(r@ =~= window_move_label(index, name@));
    r
}

fn make_merge_failed(pane: &String, e: &String) -> (r: String)
    ensures
        r@ == merge_failed(pane@, e@),
{
    let mut r = String::new();
    r.append("Failed to merge pane ");
    r.append(pane.as_str());
    r.append(": ");
    r.append(e.as_str());
    assert(r@ =~= merge_failed(pane@, e@));
    r
}

fn edit_input(input: &mut String, key: Key)
    ensures
        final(input)@ == edited(old(input)@, key),
{
    match key {
        Key::Char(c) => push_char(input, c),
        Key::Backspace => pop_char(input),
        _ => {},
    }
}

fn join_command(flag: &str, src: &String, dst: String) -> (a: Vec<String>)
    ensures
        views_of(a@) == join_args(flag@, src@, dst@),
{
    let a = vec![owned("join-pane"), owned(flag), owned("-s"), src.clone(), owned("-t"), dst];
    assert(views_of(a@) =~= join_args(flag@, src@, dst@));
    a
}

fn move_window_command(src: String, session: &String) -> (a: Vec<String>)
    ensures
        views_of(a@) == move_window_args(src@, session@),
{
    let a = vec![
        owned("move-window"),
        owned("-d"),
        owned("-s"),
        src,
        owned("-t"),
        make_session_address(session),
    ];
    assert(views_of(a@) =~= move_window_args(src@, session@));
    a
}

fn merge_command(pane: &String, target: &String) -> (a: Vec<String>)
    ensures
        views_of(a@) == merge_args(pane@, target@),
{
    let a = vec![
        owned("join-pane"),
        owned("-d"),
        owned("-s"),
        pane.clone(),
        owned("-t"),
        target.clone(),
    ];
    assert(views_of(a@) =~= merge_args(pane@, target@));
    a
}

fn rename_command(t: &Target, name: String) -> (a: Vec<String>)
    ensures
        views_of(a@) == rename_args(t@, name@),
{
    match t {
        Target::Session(s) => {
            let a = vec![owned("rename-session"), owned("-t"), s.clone(), name];
            assert(views_of(a@) =~= rename_args(t@, name@));
            a
        },
        Target::Window { session, index } => {
            let a = vec![
                owned("rename-window"),
                owned("-t"),
                make_window_address(session, *index),
                name,
            ];
            assert(views_of(a@) =~= rename_args(t@, name@));
            a
        },
        Target::Pane { id, .. } => {
            let a = vec![owned("select-pane"), owned("-t"), id.clone(), owned("-T"), name];
            assert(views_of(a@) =~= rename_args(t@, name@));
            a
        },
    }
}

fn kill_command(t: &Target) -> (a: Vec<String>)
    ensures
        views_of(a@) == kill_args(t@),
{
    match t {
        Target::Session(s) => {
            let a = vec![owned("kill-session"), owned("-t"), s.clone()];
            assert(views_of(a@) =~= kill_args(t@));
            a
        },
        Target::Window { session, index } => {
            let a = vec![owned("kill-window"), owned("-t"), make_window_address(session, *index)];
            assert(views_of(a@) =~= kill_args(t@));
            a
        },
        Target::Pane { id, .. } => {
            let a = vec![owned("kill-pane"), owned("-t"), id.clone()];
            assert(views_of(a@) =~= kill_args(t@));
            a
        },
    }
}

fn new_window_command(session: &String, name: String) -> (a: Vec<String>)
    ensures
        views_of(a@) == new_window_args(session@, name@),
{
    if name.as_str().is_empty() {
        let a = vec![owned("new-window"), owned("-d"), owned("-t"), make_session_address(session)];
        assert(views_of(a@) =~= new_window_args(session@, name@));
        a
    } else {
        let a = vec![
            owned("new-window"),
            owned("-d"),
            owned("-t"),
            make_session_address(session),
            owned("-n"),
            name,
        ];
        assert(views_of(a@) =~= new_window_args(session@, name@));
        a
    }
}

fn layout_for_key(key: Key, num_panes: usize) -> (r: Option<&'static str>)
    ensures
        match r {
            Some(l) => equalize_layout(key, num_panes) == Some(l@),
            None => equalize_layout(key, num_panes) is None,
        },
{
    match key {
        Key::Enter | Key::Char('y') | Key::Char('Y') => Some(best_layout_for(num_panes)),
        Key::Char('t') => Some("tiled"),
        Key::Char('h') => Some("even-horizontal"),
        Key::Char('v') => Some("even-vertical"),
        Key::Char('m') => Some("main-horizontal"),
        _ => None,
    }
}

// ---------------------------------------------------------------------------
// The state: construction, reading, navigation
// ---------------------------------------------------------------------------

impl App {
    /// The organizer over a freshly fetched session tree: nothing collapsed,
    /// the first row selected, no preview yet.
    pub fn new(sessions: Vec<Session>) -> (app: App)
        ensures
            app@ == initial_state(views_of(sessions@)),
            app@.wf(),
    {
        let collapsed_sessions: Vec<String> = Vec::new();
        let collapsed_windows: Vec<(String, usize)> = Vec::new();
        let flat_items = rebuild_flat_items(&sessions, &collapsed_sessions, &collapsed_windows);
        assert(views_of(collapsed_sessions@).to_set() =~= Set::<Seq<char>>::empty());
        assert(views_of(collapsed_windows@).to_set() =~= Set::<(Seq<char>, usize)>::empty());
        let selected = if flat_items.len() > 0 {
            Some(0)
        } else {
            None
        };
        App {
            sessions,
            collapsed_sessions,
            collapsed_windows,
            flat_items,
            selected,
            mode: Mode::Normal,
            preview_content: None,
            show_preview: true,
            last_previewed_pane_id: None,
            pending: Pending::Idle,
        }
    }

    /// The session tree.
    pub fn sessions(&self) -> (r: &Vec<Session>)
        ensures
            views_of(r@) == self@.sessions,
    {
        &self.sessions
    }

    /// The rows of the flattened tree.
    pub fn flat_items(&self) -> (r: &Vec<NavItem>)
        ensures
            views_of(r@) == self@.items,
    {
        &self.flat_items
    }

    /// The selected row.
    pub fn selected(&self) -> (r: Option<usize>)
        ensures
            r == self@.selected,
    {
        self.selected
    }

    /// The interaction mode.
    pub fn mode(&self) -> (r: &Mode)
        ensures
            r@ == self@.mode,
    {
        &self.mode
    }

    /// The captured contents of the previewed pane.
    pub fn preview_content(&self) -> (r: &Option<String>)
        ensures
            opt_view(*r) == self@.preview,
    {
        &self.preview_content
    }

    /// Whether the preview (rather than the help) is shown.
    pub fn show_preview(&self) -> (r: bool)
        ensures
            r == self@.show_preview,
    {
        self.show_preview
    }

    /// The pane last captured for the preview.
    pub fn last_previewed_pane_id(&self) -> (r: &Option<String>)
        ensures
            opt_view(*r) == self@.last_previewed,
    {
        &self.last_previewed_pane_id
    }

    /// Rebuild the flattened list from the in-memory session tree, without
    /// touching tmux.
    fn rebuild_items(&mut self)
        ensures
            final(self)@ == old(self)@.rebuilt(),
            final(self)@.wf(),
    {
        self.flat_items = rebuild_flat_items(
            &self.sessions,
            &self.collapsed_sessions,
            &self.collapsed_windows,
        );
        let len = self.flat_items.len();
        if len == 0 {
            self.selected = None;
        } else {
            let curr = match self.selected {
                Some(i) => i,
                None => 0,
            };
            self.selected = Some(if curr < len - 1 { curr } else { len - 1 });
        }
    }

    /// The first session named `name`.
    pub fn find_session(&self, name: &String) -> (r: Option<&Session>)
        ensures
            match r {
                Some(s) => session_named(self@.sessions, name@) == Some(s@),
                None => session_named(self@.sessions, name@) is None,
            },
    {
        match position_of_session(&self.sessions, name) {
            Some(i) => Some(&self.sessions[i]),
            None => None,
        }
    }

    /// The first window numbered `index` of the first session named `session`.
    pub fn find_window(&self, session: &String, index: usize) -> (r: Option<&Window>)
        ensures
            match r {
                Some(w) => window_at(self@.sessions, session@, index) == Some(w@),
                None => window_at(self@.sessions, session@, index) is None,
            },
    {
        match self.find_session(session) {
            Some(s) => match position_of_window(&s.windows, index) {
                Some(j) => Some(&s.windows[j]),
                None => None,
            },
            None => None,
        }
    }

    /// The first pane with id `id` in that window.
    pub fn find_pane(&self, session: &String, window_index: usize, id: &String) -> (r: Option<&Pane>)
        ensures
            match r {
                Some(p) => pane_at(self@.sessions, session@, window_index, id@) == Some(p@),
                None => pane_at(self@.sessions, session@, window_index, id@) is None,
            },
    {
        match self.find_window(session, window_index) {
            Some(w) => {
                let ghost ps = views_of(w.panes@);
                let mut k: usize = 0;
                while k < w.panes.len()
                    invariant
                        k <= w.panes@.len(),
                        ps == views_of(w.panes@),
                        window_at(self@.sessions, session@, window_index) == Some(w@),
                        forall|j: int| 0 <= j < k ==> !pane_with_id(id@)(#[trigger] ps[j]),
                    decreases w.panes@.len() - k,
                {
                    if w.panes[k].id == *id {
                        proof {
                            lemma_first_index(ps, pane_with_id(id@), k as int);
                        }
                        return Some(&w.panes[k]);
                    }
                    k += 1;
                }
                proof {
                    lemma_first_index(ps, pane_with_id(id@), k as int);
                }
                None
            },
            None => None,
        }
    }

    /// What the cursor points at.
    pub fn current_target(&self) -> (r: Option<Target>)
        ensures
            match r {
                Some(t) => self@.current_target() == Some(t@),
                None => self@.current_target() is None,
            },
    {
        match self.selected {
            Some(idx) => if idx < self.flat_items.len() {
                Some(self.flat_items[idx].target.duplicate())
            } else {
                None
            },
            None => None,
        }
    }

    /// The label of the selected row.
    pub fn current_label(&self) -> (r: Option<&str>)
        ensures
            match r {
                Some(l) => self@.current_label() == Some(l@),
                None => self@.current_label() is None,
            },
    {
        match self.selected {
            Some(idx) => if idx < self.flat_items.len() {
                Some(self.flat_items[idx].label.as_str())
            } else {
                None
            },
            None => None,
        }
    }

    fn next(&mut self)
        requires
            old(self)@.wf(),
        ensures
            final(self)@ == old(self)@.next(),
            final(self)@.wf(),
    {
        if self.flat_items.len() == 0 {
            return;
        }
        let i = match self.selected {
            Some(i) => if i >= self.flat_items.len() - 1 {
                0
            } else {
                i + 1
            },
            None => 0,
        };
        self.selected = Some(i);
    }

    fn previous(&mut self)
        requires
            old(self)@.wf(),
        ensures
            final(self)@ == old(self)@.previous(),
            final(self)@.wf(),
    {
        if self.flat_items.len() == 0 {
            return;
        }
        let i = match self.selected {
            Some(i) => if i == 0 {
                self.flat_items.len() - 1
            } else {
                i - 1
            },
            None => 0,
        };
        self.selected = Some(i);
    }

    /// Collapse (`true`) or expand (`false`) the current session/window node.
    fn set_collapsed(&mut self, collapse: bool)
        requires
            old(self)@.wf(),
        ensures
            final(self)@ == old(self)@.set_collapsed(collapse),
            final(self)@.wf(),
    {
        if let Some(target) = self.current_target() {
            match target {
                Target::Session(name) => {
                    if collapse {
                        insert_name(&mut self.collapsed_sessions, name);
                    } else {
                        remove_name(&mut self.collapsed_sessions, &name);
                    }
                },
                Target::Window { session, index } => {
                    if collapse {
                        insert_window(&mut self.collapsed_windows, session, index);
                    } else {
                        remove_window(&mut self.collapsed_windows, &session, index);
                    }
                },
                Target::Pane { .. } => {},
            }
            self.rebuild_items();
        }
    }

    /// Initial value to seed a rename input with, looked up from current state.
    fn rename_seed(&self, target: &Target) -> (r: String)
        ensures
            r@ == self@.rename_seed(target@),
    {
        match target {
            Target::Session(name) => name.clone(),
            Target::Window { session, index } => match self.find_window(session, *index) {
                Some(w) => w.name.clone(),
                None => String::new(),
            },
            Target::Pane { session, window_index, id } => match self.find_pane(
                session,
                *window_index,
                id,
            ) {
                Some(p) => if !p.title.as_str().is_empty() {
                    p.title.clone()
                } else {
                    p.current_command.clone()
                },
                None => String::new(),
            },
        }
    }

    /// Resolve the window an equalize would act on, plus its pane count.
    fn equalize_target_info(&self) -> (r: Option<(String, usize, String, usize)>)
        ensures
            match r {
                Some((s, i, n, np)) => self@.equalize_info() == Some((s@, i, n@, np as nat)),
                None => self@.equalize_info() is None,
            },
    {
        let (session, window_index) = match self.current_target() {
            Some(Target::Window { session, index }) => (session, index),
            Some(Target::Pane { session, window_index, .. }) => (session, window_index),
            _ => {
                return None;
            },
        };
        match self.find_window(&session, window_index) {
            Some(w) => Some((session, window_index, w.name.clone(), w.panes.len())),
            None => None,
        }
    }

    /// Resolve the pane whose contents should be previewed for a target: the
    /// pane itself, or the active (else first) pane of a window/session.
    fn find_active_pane_for_target(&self, target: &Target) -> (r: Option<String>)
        ensures
            opt_view(r) == self@.preview_pane(target@),
    {
        match target {
            Target::Pane { id, .. } => Some(id.clone()),
            Target::Window { session, index } => match self.find_window(session, *index) {
                Some(w) => match shown_pane_of(&w.panes) {
                    Some(p) => Some(p.id.clone()),
                    None => None,
                },
                None => None,
            },
            Target::Session(name) => match self.find_session(name) {
                Some(s) => match shown_window_of(&s.windows) {
                    Some(w) => match shown_pane_of(&w.panes) {
                        Some(p) => Some(p.id.clone()),
                        None => None,
                    },
                    None => None,
                },
                None => None,
            },
        }
    }

    /// Brings the preview up to date: asks for a `capture-pane` of the pane to
    /// preview where it is not the one shown already.
    pub fn update_preview(&mut self) -> (step: Step)
        requires
            old(self)@.wf(),
        ensures
            (final(self)@, step@) == old(self)@.update_preview(),
            final(self)@.wf(),
    {
        if !self.show_preview {
            return Step::Done(Flow::Continue);
        }
        let target = match self.current_target() {
            Some(t) => t,
            None => {
                self.preview_content = None;
                self.last_previewed_pane_id = None;
                return Step::Done(Flow::Continue);
            },
        };
        match self.find_active_pane_for_target(&target) {
            Some(id) => {
                let differs = match &self.last_previewed_pane_id {
                    Some(last) => *last != id,
                    None => true,
                };
                if differs || self.preview_content.is_none() {
                    let args = vec![owned("capture-pane"), owned("-pt"), id.clone()];
                    assert(views_of(args@) =~= capture_args(id@));
                    self.pending = Pending::Capture(id);
                    Step::Run(args)
                } else {
                    Step::Done(Flow::Continue)
                }
            },
            None => {
                self.preview_content = None;
                self.last_previewed_pane_id = None;
                Step::Done(Flow::Continue)
            },
        }
    }

    /// Toggle the collapsed state of the current session/window node.
    fn toggle_collapsed(&mut self)
        requires
            old(self)@.wf(),
        ensures
            final(self)@ == old(self)@.toggle_collapsed(),
            final(self)@.wf(),
    {
        if let Some(target) = self.current_target() {
            match target {
                Target::Session(name) => {
                    let collapse = !contains_name(&self.collapsed_sessions, &name);
                    self.set_collapsed(collapse);
                },
                Target::Window { session, index } => {
                    let collapse = !contains_window(&self.collapsed_windows, &session, index);
                    self.set_collapsed(collapse);
                },
                Target::Pane { .. } => {
                    self.rebuild_items();
                },
            }
        }
    }
}

impl App {
    fn moved(&mut self, key: Key)
        requires
            old(self)@.wf(),
        ensures
            final(self)@ == old(self)@.moved(key),
            final(self)@.wf(),
    {
        match key {
            Key::Up | Key::Char('k') => self.previous(),
            Key::Down | Key::Char('j') => self.next(),
            Key::Left => self.set_collapsed(true),
            Key::Right => self.set_collapsed(false),
            Key::Char(' ') => self.toggle_collapsed(),
            _ => {},
        }
    }

    fn on_normal(&mut self, key: Key) -> (step: Step)
        requires
            old(self)@.wf(),
        ensures
            (final(self)@, step@) == old(self)@.on_normal(key),
            final(self)@.wf(),
    {
        match key {
            Key::Char('q') | Key::Esc => {
                return Step::Done(Flow::Exit);
            },
            Key::Up | Key::Char('k') => self.previous(),
            Key::Down | Key::Char('j') => self.next(),
            Key::Left | Key::Char('h') => self.set_collapsed(true),
            Key::Right | Key::Char('l') => self.set_collapsed(false),
            Key::Char(' ') => self.toggle_collapsed(),
            Key::Enter => {
                if let Some(target) = self.current_target() {
                    let mut plan = switch_commands(&target);
                    assert(switch_plan(target@).len() > 0);
                    assert(commands_view(plan@).len() == plan@.len());
                    let first = take_first_command(&mut plan);
                    self.pending = Pending::Chain(plan);
                    return Step::Run(first);
                }
            },
            Key::Char('m') => {
                match self.current_target() {
                    Some(Target::Pane { id, .. }) => {
                        let label = match self.current_label() {
                            Some(l) => owned(l),
                            None => owned("Pane"),
                        };
                        self.mode = Mode::MovePaneSelect { src_pane_id: id, src_label: label };
                    },
                    Some(Target::Window { session, index }) => {
                        let name = match self.find_window(&session, index) {
                            Some(w) => w.name.clone(),
                            None => String::new(),
                        };
                        let label = make_window_move_label(index, &name);
                        self.mode = Mode::MoveWindowSelect {
                            src_session: session,
                            src_window_index: index,
                            src_label: label,
                        };
                    },
                    _ => {},
                }
            },
            Key::Char('s') => {
                if let Some(Target::Pane { id, .. }) = self.current_target() {
                    let label = match self.current_label() {
                        Some(l) => owned(l),
                        None => owned("Pane"),
                    };
                    self.mode = Mode::SwapSelect { src_pane_id: id, src_label: label };
                }
            },
            Key::Char('r') => {
                if let Some(target) = self.current_target() {
                    let input = self.rename_seed(&target);
                    self.mode = Mode::RenameInput { target, input };
                }
            },
            Key::Char('x') | Key::Char('d') => {
                if let Some(target) = self.current_target() {
                    let label = match self.current_label() {
                        Some(l) => owned(l),
                        None => owned("Item"),
                    };
                    self.mode = Mode::KillConfirm { target, label };
                }
            },
            Key::Char('n') => {
                let session = match self.current_target() {
                    Some(t) => owned(t.session()),
                    None => if self.sessions.len() > 0 {
                        self.sessions[0].name.clone()
                    } else {
                        String::new()
                    },
                };
                self.mode = Mode::NewWindow { session, input: String::new() };
            },
            Key::Char('N') => self.mode = Mode::NewSession { input: String::new() },
            Key::Char('e') => {
                if let Some((session, window_index, window_name, num_panes)) =
                    self.equalize_target_info()
                {
                    if num_panes <= 1 {
                        self.mode = Mode::Error(
                            owned("Window has only 1 pane — nothing to equalize."),
                        );
                    } else {
                        self.mode = Mode::EqualizeConfirm {
                            session,
                            window_index,
                            window_name,
                            num_panes,
                        };
                    }
                }
            },
            Key::Char('p') => {
                self.show_preview = !self.show_preview;
                if self.show_preview {
                    self.last_previewed_pane_id = None;
                    return self.update_preview();
                }
            },
            _ => {},
        }
        Step::Done(Flow::Continue)
    }
}

impl App {
    fn on_move_pane(&mut self, key: Key, src_pane_id: String, src_label: String) -> (step: Step)
        requires
            old(self)@.wf(),
        ensures
            (final(self)@, step@) == old(self)@.on_move_pane(key, src_pane_id@, src_label@),
            final(self)@.wf(),
    {
        match key {
            Key::Esc => {
                return Step::Done(Flow::Continue);
            },
            Key::Char('v') | Key::Char('h') | Key::Char('w') => {
                if let Some(target) = self.current_target() {
                    match key {
                        Key::Char('v') => {
                            let args = join_command("-h", &src_pane_id, target.tmux_id());
                            self.pending = Pending::Chain(empty_commands());
                            return Step::Run(args);
                        },
                        Key::Char('h') => {
                            let args = join_command("-v", &src_pane_id, target.tmux_id());
                            self.pending = Pending::Chain(empty_commands());
                            return Step::Run(args);
                        },
                        _ => {
                            let args = vec![
                                owned("break-pane"),
                                owned("-d"),
                                owned("-s"),
                                src_pane_id,
                                owned("-P"),
                                owned("-F"),
                                owned("#{window_id}"),
                            ];
                            assert(views_of(args@) =~= break_args(src_pane_id@));
                            self.pending = Pending::BreakPane(owned(target.session()));
                            return Step::Run(args);
                        },
                    }
                }
            },
            _ => self.moved(key),
        }
        self.mode = Mode::MovePaneSelect { src_pane_id, src_label };
        Step::Done(Flow::Continue)
    }

    fn on_move_window(
        &mut self,
        key: Key,
        src_session: String,
        src_window_index: usize,
        src_label: String,
    ) -> (step: Step)
        requires
            old(self)@.wf(),
        ensures
            (final(self)@, step@) == old(self)@.on_move_window(
                key,
                src_session@,
                src_window_index,
                src_label@,
            ),
            final(self)@.wf(),
    {
        match key {
            Key::Esc => {
                return Step::Done(Flow::Continue);
            },
            Key::Enter => {
                if let Some(target) = self.current_target() {
                    let src = make_window_address(&src_session, src_window_index);
                    let dst = owned(target.session());
                    let args = move_window_command(src, &dst);
                    self.pending = Pending::Chain(empty_commands());
                    return Step::Run(args);
                }
            },
            Key::Char('m') => {
                if let Some(target) = self.current_target() {
                    let (dst_session, dst_index) = match &target {
                        Target::Window { session, index } => (session.clone(), *index),
                        Target::Pane { session, window_index, .. } => (
                            session.clone(),
                            *window_index,
                        ),
                        Target::Session(_) => {
                            self.mode = Mode::Error(
                                owned("Must select a target Window or Pane to merge."),
                            );
                            return Step::Done(Flow::Continue);
                        },
                    };
                    if src_session == dst_session && src_window_index == dst_index {
                        self.mode = Mode::Error(owned("Cannot merge a window into itself."));
                        return Step::Done(Flow::Continue);
                    }
                    let pane_ids: Option<Vec<String>> = match self.find_window(
                        &src_session,
                        src_window_index,
                    ) {
                        Some(w) => Some(pane_ids_of(w)),
                        None => None,
                    };
                    if let Some(mut ids) = pane_ids {
                        let target_str = make_window_address(&dst_session, dst_index);
                        if ids.len() == 0 {
                            return Step::Done(Flow::Exit);
                        }
                        let first = take_first_name(&mut ids);
                        let args = merge_command(&first, &target_str);
                        self.pending = Pending::Merge { target: target_str, current: first, rest: ids };
                        return Step::Run(args);
                    }
                }
            },
            _ => self.moved(key),
        }
        self.mode = Mode::MoveWindowSelect { src_session, src_window_index, src_label };
        Step::Done(Flow::Continue)
    }

    fn on_swap(&mut self, key: Key, src_pane_id: String, src_label: String) -> (step: Step)
        requires
            old(self)@.wf(),
        ensures
            (final(self)@, step@) == old(self)@.on_swap(key, src_pane_id@, src_label@),
            final(self)@.wf(),
    {
        match key {
            Key::Esc => {
                return Step::Done(Flow::Continue);
            },
            Key::Enter => {
                if let Some(Target::Pane { id: dst, .. }) = self.current_target() {
                    let args = vec![owned("swap-pane"), owned("-s"), src_pane_id, owned("-t"), dst];
                    assert(views_of(args@) =~= seq!["swap-pane"@, "-s"@, src_pane_id@, "-t"@, dst@]);
                    self.pending = Pending::Chain(empty_commands());
                    return Step::Run(args);
                }
            },
            _ => self.moved(key),
        }
        self.mode = Mode::SwapSelect { src_pane_id, src_label };
        Step::Done(Flow::Continue)
    }

    fn on_rename(&mut self, key: Key, target: Target, input: String) -> (step: Step)
        requires
            old(self)@.wf(),
        ensures
            (final(self)@, step@) == old(self)@.on_rename(key, target@, input@),
            final(self)@.wf(),
    {
        let mut input = input;
        match key {
            Key::Esc => {
                return Step::Done(Flow::Continue);
            },
            Key::Enter => {
                let name = trimmed(input.as_str());
                if name.as_str().is_empty() {
                    self.mode = Mode::RenameInput { target, input };
                    return Step::Done(Flow::Continue);
                }
                let args = rename_command(&target, name);
                self.pending = Pending::Mutation;
                return Step::Run(args);
            },
            _ => edit_input(&mut input, key),
        }
        self.mode = Mode::RenameInput { target, input };
        Step::Done(Flow::Continue)
    }

    fn on_kill_confirm(&mut self, key: Key, target: Target, label: String) -> (step: Step)
        requires
            old(self)@.wf(),
        ensures
            (final(self)@, step@) == old(self)@.on_kill_confirm(key, target@, label@),
            final(self)@.wf(),
    {
        match key {
            Key::Char('y') | Key::Char('Y') | Key::Enter => {
                let args = kill_command(&target);
                self.pending = Pending::Mutation;
                Step::Run(args)
            },
            Key::Char('n') | Key::Char('N') | Key::Esc => Step::Done(Flow::Continue),
            _ => {
                self.mode = Mode::KillConfirm { target, label };
                Step::Done(Flow::Continue)
            },
        }
    }

    fn on_new_session(&mut self, key: Key, input: String) -> (step: Step)
        requires
            old(self)@.wf(),
        ensures
            (final(self)@, step@) == old(self)@.on_new_session(key, input@),
            final(self)@.wf(),
    {
        let mut input = input;
        match key {
            Key::Esc => {
                return Step::Done(Flow::Continue);
            },
            Key::Enter => {
                let name = trimmed(input.as_str());
                if name.as_str().is_empty() {
                    self.mode = Mode::NewSession { input };
                    return Step::Done(Flow::Continue);
                }
                let args = vec![owned("new-session"), owned("-d"), owned("-s"), name];
                assert(views_of(args@) =~= seq!["new-session"@, "-d"@, "-s"@, trim(input@)]);
                self.pending = Pending::Mutation;
                return Step::Run(args);
            },
            _ => edit_input(&mut input, key),
        }
        self.mode = Mode::NewSession { input };
        Step::Done(Flow::Continue)
    }

    fn on_new_window(&mut self, key: Key, session: String, input: String) -> (step: Step)
        requires
            old(self)@.wf(),
        ensures
            (final(self)@, step@) == old(self)@.on_new_window(key, session@, input@),
            final(self)@.wf(),
    {
        let mut input = input;
        match key {
            Key::Esc => {
                return Step::Done(Flow::Continue);
            },
            Key::Enter => {
                let name = trimmed(input.as_str());
                let args = new_window_command(&session, name);
                self.pending = Pending::Mutation;
                return Step::Run(args);
            },
            _ => edit_input(&mut input, key),
        }
        self.mode = Mode::NewWindow { session, input };
        Step::Done(Flow::Continue)
    }

    fn on_equalize(
        &mut self,
        key: Key,
        session: String,
        window_index: usize,
        window_name: String,
        num_panes: usize,
    ) -> (step: Step)
        requires
            old(self)@.wf(),
        ensures
            (final(self)@, step@) == old(self)@.on_equalize(
                key,
                session@,
                window_index,
                window_name@,
                num_panes,
            ),
            final(self)@.wf(),
    {
        match key {
            Key::Esc | Key::Char('n') | Key::Char('N') => Step::Done(Flow::Continue),
            _ => match layout_for_key(key, num_panes) {
                Some(layout) => {
                    let args = vec![
                        owned("select-layout"),
                        owned("-t"),
                        make_window_address(&session, window_index),
                        owned(layout),
                    ];
                    assert(views_of(args@) =~= layout_args(session@, window_index, layout@));
                    self.pending = Pending::Mutation;
                    Step::Run(args)
                },
                None => {
                    self.mode = Mode::EqualizeConfirm { session, window_index, window_name, num_panes };
                    Step::Done(Flow::Continue)
                },
            },
        }
    }

    fn on_error(&mut self, key: Key, msg: String) -> (step: Step)
        requires
            old(self)@.wf(),
        ensures
            (final(self)@, step@) == old(self)@.on_error(key, msg@),
            final(self)@.wf(),
    {
        match key {
            Key::Esc | Key::Enter => {
                self.pending = Pending::Reload(false);
                Step::Run(list_panes_args())
            },
            _ => {
                self.mode = Mode::Error(msg);
                Step::Done(Flow::Continue)
            },
        }
    }

    /// Dispatch a keypress to the handler for the current mode.
    ///
    /// The current mode is moved out (replaced with [`Mode::Normal`]); each
    /// handler restores its mode if the app should stay in it, so the common
    /// "return to Normal" cases need no extra work.
    pub fn handle_key(&mut self, key: Key) -> (step: Step)
        requires
            old(self)@.wf(),
        ensures
            (final(self)@, step@) == old(self)@.handle_key(key),
            final(self)@.wf(),
    {
        let mut mode = Mode::Normal;
        std::mem::swap(&mut mode, &mut self.mode);
        match mode {
            Mode::Normal => self.on_normal(key),
            Mode::MovePaneSelect { src_pane_id, src_label } => self.on_move_pane(
                key,
                src_pane_id,
                src_label,
            ),
            Mode::MoveWindowSelect { src_session, src_window_index, src_label } => self.on_move_window(
                key,
                src_session,
                src_window_index,
                src_label,
            ),
            Mode::SwapSelect { src_pane_id, src_label } => self.on_swap(key, src_pane_id, src_label),
            Mode::RenameInput { target, input } => self.on_rename(key, target, input),
            Mode::KillConfirm { target, label } => self.on_kill_confirm(key, target, label),
            Mode::NewSession { input } => self.on_new_session(key, input),
            Mode::NewWindow { session, input } => self.on_new_window(key, session, input),
            Mode::EqualizeConfirm { session, window_index, window_name, num_panes } => self.on_equalize(
                key,
                session,
                window_index,
                window_name,
                num_panes,
            ),
            Mode::Error(msg) => self.on_error(key, msg),
        }
    }

    /// Hands back the outcome (standard output, or the error text) of the tmux
    /// command that the last step asked for; returns what to do next.
    pub fn resume(&mut self, outcome: Result<String, String>) -> (step: Step)
        requires
            old(self)@.wf(),
        ensures
            (final(self)@, step@) == old(self)@.resume(result_view(outcome)),
            final(self)@.wf(),
    {
        let mut pending = Pending::Idle;
        std::mem::swap(&mut pending, &mut self.pending);
        match pending {
            Pending::Idle => Step::Done(Flow::Continue),
            Pending::Chain(rest) => {
                let mut rest = rest;
                match outcome {
                    Ok(_) => if rest.len() == 0 {
                        Step::Done(Flow::Exit)
                    } else {
                        let next = take_first_command(&mut rest);
                        self.pending = Pending::Chain(rest);
                        Step::Run(next)
                    },
                    Err(e) => {
                        self.mode = Mode::Error(e);
                        Step::Done(Flow::Continue)
                    },
                }
            },
            Pending::BreakPane(session) => match outcome {
                Ok(out) => {
                    let wid = trimmed(out.as_str());
                    let args = move_window_command(wid, &session);
                    self.pending = Pending::Chain(empty_commands());
                    Step::Run(args)
                },
                Err(e) => {
                    self.mode = Mode::Error(e);
                    Step::Done(Flow::Continue)
                },
            },
            Pending::Merge { target, current, rest } => {
                let mut rest = rest;
                match outcome {
                    Ok(_) => if rest.len() == 0 {
                        Step::Done(Flow::Exit)
                    } else {
                        let next = take_first_name(&mut rest);
                        let args = merge_command(&next, &target);
                        self.pending = Pending::Merge { target, current: next, rest };
                        Step::Run(args)
                    },
                    Err(e) => {
                        self.mode = Mode::Error(make_merge_failed(&current, &e));
                        Step::Done(Flow::Continue)
                    },
                }
            },
            Pending::Mutation => match outcome {
                Ok(_) => {
                    self.pending = Pending::Reload(true);
                    Step::Run(list_panes_args())
                },
                Err(e) => {
                    self.mode = Mode::Error(e);
                    Step::Done(Flow::Continue)
                },
            },
            Pending::Reload(report) => {
                match outcome {
                    Ok(out) => {
                        self.sessions = parse_tmux_state(out.as_str());
                        self.rebuild_items();
                        self.last_previewed_pane_id = None;
                    },
                    Err(e) => {
                        if report {
                            self.mode = Mode::Error(e);
                        }
                    },
                }
                Step::Done(Flow::Continue)
            },
            Pending::Capture(id) => {
                let content = match outcome {
                    Ok(c) => c,
                    Err(e) => {
                        let mut m = owned("Error capturing pane preview: ");
                        m.append(e.as_str());
                        m
                    },
                };
                self.preview_content = Some(content);
                self.last_previewed_pane_id = Some(id);
                Step::Done(Flow::Continue)
            },
        }
    }
}

// ---------------------------------------------------------------------------
// Laws of the commands the modes run
// ---------------------------------------------------------------------------

/// In move-pane mode with a row selected, `v` joins the pane beside the
/// selected target (`join-pane -h`), `h` joins it below the target
/// (`join-pane -v`), and `w` breaks it out into a window of its own, printing
/// that window's id, to move it into the target's session; each leaves move
/// mode. `v` and `h` split differently. With no row selected these keys do
/// nothing.
pub proof fn lemma_move_pane_keys(a: AppV, src: Seq<char>, label: Seq<char>)
    requires
        a.mode == (ModeV::MovePaneSelect { src_pane_id: src, src_label: label }),
    ensures
        match a.current_target() {
            Some(t) => {
                &&& a.handle_key(Key::Char('v')) == (
                    a.with_mode(ModeV::Normal).with_pending(PendingV::Chain(Seq::empty())),
                    StepV::Run(seq!["join-pane"@, "-h"@, "-s"@, src, "-t"@, t.tmux_id()]),
                )
                &&& a.handle_key(Key::Char('h')) == (
                    a.with_mode(ModeV::Normal).with_pending(PendingV::Chain(Seq::empty())),
                    StepV::Run(seq!["join-pane"@, "-v"@, "-s"@, src, "-t"@, t.tmux_id()]),
                )
                &&& a.handle_key(Key::Char('w')) == (
                    a.with_mode(ModeV::Normal).with_pending(PendingV::BreakPane(t.session_name())),
                    StepV::Run(
                        seq!["break-pane"@, "-d"@, "-s"@, src, "-P"@, "-F"@, "#{window_id}"@],
                    ),
                )
                &&& a.handle_key(Key::Char('v')).1 != a.handle_key(Key::Char('h')).1
            },
            None => {
                &&& a.handle_key(Key::Char('v')) == stay(a)
                &&& a.handle_key(Key::Char('h')) == stay(a)
                &&& a.handle_key(Key::Char('w')) == stay(a)
            },
        },
{
    let n = a.with_mode(ModeV::Normal);
    assert(n.current_target() == a.current_target());
    assert(n.with_mode(ModeV::MovePaneSelect { src_pane_id: src, src_label: label }) == a);
    reveal_strlit("-h");
    reveal_strlit("-v");
    let sv = seq!["join-pane"@, "-h"@, "-s"@, src, "-t"@, n.current_target()->0.tmux_id()];
    let sh = seq!["join-pane"@, "-v"@, "-s"@, src, "-t"@, n.current_target()->0.tmux_id()];
    assert("-h"@[1] != "-v"@[1]);
    assert(sv[1] != sh[1]);
}

/// Confirming a kill (`y`, `Y` or `Enter`) runs exactly the command that kills
/// the target and nothing else: `kill-session -t s` for a session,
/// `kill-window -t s:i` for a window, `kill-pane -t id` for a pane. `n`, `N`
/// and `Esc` cancel it, and other keys keep asking.
pub proof fn lemma_kill_confirm_keys(a: AppV, t: TargetV, label: Seq<char>)
    requires
        a.mode == (ModeV::KillConfirm { target: t, label }),
    ensures
        ({
            let args = match t {
                TargetV::Session(name) => seq!["kill-session"@, "-t"@, name],
                TargetV::Window { session, index } => seq![
                    "kill-window"@,
                    "-t"@,
                    session + seq![':'] + decimal(index as nat),
                ],
                TargetV::Pane { id, .. } => seq!["kill-pane"@, "-t"@, id],
            };
            let killed = (
                a.with_mode(ModeV::Normal).with_pending(PendingV::Mutation),
                StepV::Run(args),
            );
            &&& a.handle_key(Key::Char('y')) == killed
            &&& a.handle_key(Key::Char('Y')) == killed
            &&& a.handle_key(Key::Enter) == killed
            &&& a.handle_key(Key::Char('n')) == stay(a.with_mode(ModeV::Normal))
            &&& a.handle_key(Key::Char('N')) == stay(a.with_mode(ModeV::Normal))
            &&& a.handle_key(Key::Esc) == stay(a.with_mode(ModeV::Normal))
            &&& a.handle_key(Key::Char('x')) == stay(a)
        }),
{
    let n = a.with_mode(ModeV::Normal);
    assert(n.with_mode(ModeV::KillConfirm { target: t, label }) == a);
}

/// `Enter` while renaming runs the rename with the input trimmed, unless the
/// trimmed input is empty, when it keeps asking: `rename-session -t s name` for
/// a session, `rename-window -t s:i name` for a window, and for a pane
/// `select-pane -t id -T name`, which sets the pane's title and never renames
/// its window.
pub proof fn lemma_rename_enter(a: AppV, t: TargetV, input: Seq<char>)
    requires
        a.mode == (ModeV::RenameInput { target: t, input }),
    ensures
        trim(input).len() == 0 ==> a.handle_key(Key::Enter) == stay(a),
        trim(input).len() > 0 ==> a.handle_key(Key::Enter) == (
            a.with_mode(ModeV::Normal).with_pending(PendingV::Mutation),
            StepV::Run(
                match t {
                    TargetV::Session(s) => seq!["rename-session"@, "-t"@, s, trim(input)],
                    TargetV::Window { session, index } => seq![
                        "rename-window"@,
                        "-t"@,
                        session + seq![':'] + decimal(index as nat),
                        trim(input),
                    ],
                    TargetV::Pane { id, .. } => seq!["select-pane"@, "-t"@, id, "-T"@, trim(input)],
                },
            ),
        ),
        t is Pane && trim(input).len() > 0 ==> (a.handle_key(Key::Enter).1 matches StepV::Run(args)
            && args[0] != "rename-window"@),
{
    let n = a.with_mode(ModeV::Normal);
    assert(n.with_mode(ModeV::RenameInput { target: t, input }) == a);
    reveal_strlit("select-pane");
    reveal_strlit("rename-window");
    assert("select-pane"@[0] != "rename-window"@[0]);
}

/// In equalize mode each layout key applies its own layout to the window,
/// whatever its pane count: `t` tiled, `h` even-horizontal, `v` even-vertical,
/// `m` main-horizontal, four different layouts. `Enter`, `y` and `Y` pick one
/// by the pane count: even-horizontal for at most one pane, even-vertical for
/// two, tiled for more. `Esc`, `n` and `N` cancel.
pub proof fn lemma_equalize_keys(
    a: AppV,
    session: Seq<char>,
    window_index: usize,
    window_name: Seq<char>,
    num_panes: usize,
)
    requires
        a.mode == (ModeV::EqualizeConfirm { session, window_index, window_name, num_panes }),
    ensures
        ({
            let n = a.with_mode(ModeV::Normal).with_pending(PendingV::Mutation);
            let w = session + seq![':'] + decimal(window_index as nat);
            let auto = if num_panes <= 1 {
                "even-horizontal"@
            } else if num_panes == 2 {
                "even-vertical"@
            } else {
                "tiled"@
            };
            &&& a.handle_key(Key::Char('t')) == (
                n,
                StepV::Run(seq!["select-layout"@, "-t"@, w, "tiled"@]),
            )
            &&& a.handle_key(Key::Char('h')) == (
                n,
                StepV::Run(seq!["select-layout"@, "-t"@, w, "even-horizontal"@]),
            )
            &&& a.handle_key(Key::Char('v')) == (
                n,
                StepV::Run(seq!["select-layout"@, "-t"@, w, "even-vertical"@]),
            )
            &&& a.handle_key(Key::Char('m')) == (
                n,
                StepV::Run(seq!["select-layout"@, "-t"@, w, "main-horizontal"@]),
            )
            &&& a.handle_key(Key::Enter) == (n, StepV::Run(seq!["select-layout"@, "-t"@, w, auto]))
            &&& a.handle_key(Key::Char('y')) == (
                n,
                StepV::Run(seq!["select-layout"@, "-t"@, w, auto]),
            )
            &&& a.handle_key(Key::Char('Y')) == (
                n,
                StepV::Run(seq!["select-layout"@, "-t"@, w, auto]),
            )
            &&& a.handle_key(Key::Esc) == stay(a.with_mode(ModeV::Normal))
            &&& a.handle_key(Key::Char('n')) == stay(a.with_mode(ModeV::Normal))
            &&& a.handle_key(Key::Char('N')) == stay(a.with_mode(ModeV::Normal))
            &&& "tiled"@ != "even-horizontal"@
            &&& "tiled"@ != "even-vertical"@
            &&& "tiled"@ != "main-horizontal"@
            &&& "even-horizontal"@ != "even-vertical"@
            &&& "even-horizontal"@ != "main-horizontal"@
            &&& "even-vertical"@ != "main-horizontal"@
        }),
{
    reveal_strlit("tiled");
    reveal_strlit("even-horizontal");
    reveal_strlit("even-vertical");
    reveal_strlit("main-horizontal");
    assert("tiled"@[0] != "even-horizontal"@[0]);
    assert("tiled"@[0] != "even-vertical"@[0]);
    assert("tiled"@[0] != "main-horizontal"@[0]);
    assert("even-horizontal"@[5] != "even-vertical"@[5]);
    assert("even-horizontal"@[0] != "main-horizontal"@[0]);
    assert("even-vertical"@[0] != "main-horizontal"@[0]);
}

/// `Enter` in normal mode focuses its target with these commands, in order: a
/// session is switched to; a window is selected as `s:i` and its session
/// switched to; a pane is selected by its id, then its window, then its
/// session.
pub proof fn lemma_switch_plan_commands(t: TargetV)
    ensures
        switch_plan(t) == match t {
            TargetV::Session(name) => seq![seq!["switch-client"@, "-t"@, name]],
            TargetV::Window { session, index } => seq![
                seq!["select-window"@, "-t"@, session + seq![':'] + decimal(index as nat)],
                seq!["switch-client"@, "-t"@, session],
            ],
            TargetV::Pane { session, window_index, id } => seq![
                seq!["select-pane"@, "-t"@, id],
                seq!["select-window"@, "-t"@, session + seq![':'] + decimal(window_index as nat)],
                seq!["switch-client"@, "-t"@, session],
            ],
        },
{
}

/// `Enter` while choosing where to move a window moves it, detached, to the
/// end of the selected row's session; with no row selected it keeps asking.
pub proof fn lemma_move_window_enter(a: AppV, src_session: Seq<char>, src_index: usize, label: Seq<char>)
    requires
        a.mode == (ModeV::MoveWindowSelect {
            src_session,
            src_window_index: src_index,
            src_label: label,
        }),
    ensures
        match a.current_target() {
            Some(t) => a.handle_key(Key::Enter) == (
                a.with_mode(ModeV::Normal).with_pending(PendingV::Chain(Seq::empty())),
                StepV::Run(
                    seq![
                        "move-window"@,
                        "-d"@,
                        "-s"@,
                        src_session + seq![':'] + decimal(src_index as nat),
                        "-t"@,
                        t.session_name() + seq![':'],
                    ],
                ),
            ),
            None => a.handle_key(Key::Enter) == stay(a),
        },
{
    let n = a.with_mode(ModeV::Normal);
    assert(n.with_mode(
        ModeV::MoveWindowSelect { src_session, src_window_index: src_index, src_label: label },
    ) == a);
}

/// Merging a window into another (`m` on a window or pane row of another
/// window) joins the source window's first pane, detached, into the target
/// window `s:i`; on a session row it is refused, and into itself too.
pub proof fn lemma_merge_starts(a: AppV, src_session: Seq<char>, src_index: usize, label: Seq<char>)
    requires
        a.mode == (ModeV::MoveWindowSelect {
            src_session,
            src_window_index: src_index,
            src_label: label,
        }),
        a.current_target() is Some,
    ensures
        ({
            let t = a.current_target()->0;
            let n = a.with_mode(ModeV::Normal);
            match t {
                TargetV::Session(_) => a.handle_key(Key::Char('m')) == stay(
                    n.with_mode(ModeV::Error("Must select a target Window or Pane to merge."@)),
                ),
                TargetV::Window { session, index } | TargetV::Pane {
                    session,
                    window_index: index,
                    ..
                } => if session == src_session && index == src_index {
                    a.handle_key(Key::Char('m')) == stay(
                        n.with_mode(ModeV::Error("Cannot merge a window into itself."@)),
                    )
                } else {
                    match window_at(a.sessions, src_session, src_index) {
                        Some(w) => w.panes.len() > 0 ==> a.handle_key(Key::Char('m')) == (
                            n.with_pending(
                                PendingV::Merge {
                                    target: session + seq![':'] + decimal(index as nat),
                                    current: w.panes[0].id,
                                    rest: w.panes.drop_first().map_values(|p: PaneV| p.id),
                                },
                            ),
                            StepV::Run(
                                seq![
                                    "join-pane"@,
                                    "-d"@,
                                    "-s"@,
                                    w.panes[0].id,
                                    "-t"@,
                                    session + seq![':'] + decimal(index as nat),
                                ],
                            ),
                        ),
                        None => a.handle_key(Key::Char('m')) == stay(a),
                    }
                },
            }
        }),
{
    let n = a.with_mode(ModeV::Normal);
    assert(n.with_mode(
        ModeV::MoveWindowSelect { src_session, src_window_index: src_index, src_label: label },
    ) == a);
    match window_at(a.sessions, src_session, src_index) {
        Some(w) => {
            if w.panes.len() > 0 {
                assert(pane_ids(w.panes).drop_first() =~= w.panes.drop_first().map_values(
                    |p: PaneV| p.id,
                ));
            }
        },
        None => {},
    }
}

/// While a merge is in flight, each success joins the next pane of the source
/// window, detached, into the target, and the last one ends the program; a
/// failure stops the merge and names the pane that failed.
pub proof fn lemma_merge_continues(
    a: AppV,
    target: Seq<char>,
    current: Seq<char>,
    rest: Seq<Seq<char>>,
    outcome: Result<Seq<char>, Seq<char>>,
)
    requires
        a.pending == (PendingV::Merge { target, current, rest }),
    ensures
        a.resume(outcome) == match outcome {
            Ok(_) => if rest.len() == 0 {
                (a.with_pending(PendingV::Idle), StepV::Done(Flow::Exit))
            } else {
                (
                    a.with_pending(
                        PendingV::Merge { target, current: rest[0], rest: rest.drop_first() },
                    ),
                    StepV::Run(seq!["join-pane"@, "-d"@, "-s"@, rest[0], "-t"@, target]),
                )
            },
            Err(e) => stay(
                a.with_pending(PendingV::Idle).with_mode(
                    ModeV::Error("Failed to merge pane "@ + current + ": "@ + e),
                ),
            ),
        },
{
}

/// After a pane was broken out, the new window (its id, as tmux printed it,
/// trimmed) is moved, detached, to the end of the target session.
pub proof fn lemma_break_then_move(a: AppV, session: Seq<char>, out: Seq<char>)
    requires
        a.pending == PendingV::BreakPane(session),
    ensures
        a.resume(Ok(out)) == (
            a.with_pending(PendingV::Chain(Seq::empty())),
            StepV::Run(seq!["move-window"@, "-d"@, "-s"@, trim(out), "-t"@, session + seq![':']]),
        ),
{
}

/// `Enter` while choosing the pane to swap with swaps the source pane with the
/// selected pane; on any other row it keeps asking.
pub proof fn lemma_swap_enter(a: AppV, src: Seq<char>, label: Seq<char>)
    requires
        a.mode == (ModeV::SwapSelect { src_pane_id: src, src_label: label }),
    ensures
        match a.current_target() {
            Some(TargetV::Pane { id, .. }) => a.handle_key(Key::Enter) == (
                a.with_mode(ModeV::Normal).with_pending(PendingV::Chain(Seq::empty())),
                StepV::Run(seq!["swap-pane"@, "-s"@, src, "-t"@, id]),
            ),
            _ => a.handle_key(Key::Enter) == stay(a),
        },
{
    let n = a.with_mode(ModeV::Normal);
    assert(n.with_mode(ModeV::SwapSelect { src_pane_id: src, src_label: label }) == a);
}

/// `Enter` while naming a new window creates it, detached, at the end of the
/// session, named by the trimmed input where that is not empty.
pub proof fn lemma_new_window_enter(a: AppV, session: Seq<char>, input: Seq<char>)
    requires
        a.mode == (ModeV::NewWindow { session, input }),
    ensures
        a.handle_key(Key::Enter) == (
            a.with_mode(ModeV::Normal).with_pending(PendingV::Mutation),
            StepV::Run(
                if trim(input).len() == 0 {
                    seq!["new-window"@, "-d"@, "-t"@, session + seq![':']]
                } else {
                    seq!["new-window"@, "-d"@, "-t"@, session + seq![':'], "-n"@, trim(input)]
                },
            ),
        ),
{
}

/// `Enter` while naming a new session creates it, detached, named by the
/// trimmed input; a blank name keeps asking.
pub proof fn lemma_new_session_enter(a: AppV, input: Seq<char>)
    requires
        a.mode == (ModeV::NewSession { input }),
    ensures
        trim(input).len() == 0 ==> a.handle_key(Key::Enter) == stay(a),
        trim(input).len() > 0 ==> a.handle_key(Key::Enter) == (
            a.with_mode(ModeV::Normal).with_pending(PendingV::Mutation),
            StepV::Run(seq!["new-session"@, "-d"@, "-s"@, trim(input)]),
        ),
{
    let n = a.with_mode(ModeV::Normal);
    assert(n.with_mode(ModeV::NewSession { input }) == a);
}

/// After a command that changed tmux succeeds, the tree is fetched again with
/// `list-panes -a -F` and the format the parser reads.
pub proof fn lemma_mutation_reloads(a: AppV, out: Seq<char>)
    requires
        a.pending == PendingV::Mutation,
    ensures
        a.resume(Ok(out)) == (
            a.with_pending(PendingV::Reload(true)),
            StepV::Run(seq!["list-panes"@, "-a"@, "-F"@, LIST_FORMAT@]),
        ),
{
}

/// In normal mode with a row selected, the action keys open their modes on the
/// selected target and run nothing yet: `x` and `d` ask to kill it, `r` asks
/// for its new name seeded with its current one (a session's name, a window's
/// name, a pane's title or else its command), `n` asks for a new window in its
/// session, `N` for a new session, `m` on a pane or window chooses where to
/// move it, `s` on a pane chooses the pane to swap it with, and `e` on a window
/// or pane asks which layout to give its window, or refuses a window of one
/// pane.
pub proof fn lemma_normal_keys_open_modes(a: AppV)
    requires
        a.mode == ModeV::Normal,
        a.current_target() is Some,
    ensures
        ({
            let t = a.current_target()->0;
            &&& a.handle_key(Key::Char('x')).1 == StepV::Done(Flow::Continue)
            &&& (a.handle_key(Key::Char('x')).0.mode matches ModeV::KillConfirm { target, .. }
                && target == t)
            &&& a.handle_key(Key::Char('d')).0.mode == a.handle_key(Key::Char('x')).0.mode
            &&& a.handle_key(Key::Char('r')).1 == StepV::Done(Flow::Continue)
            &&& a.handle_key(Key::Char('r')).0.mode == ModeV::RenameInput {
                target: t,
                input: match t {
                    TargetV::Session(name) => name,
                    TargetV::Window { session, index } => match window_at(a.sessions, session, index) {
                        Some(w) => w.name,
                        None => Seq::empty(),
                    },
                    TargetV::Pane { session, window_index, id } => match pane_at(
                        a.sessions,
                        session,
                        window_index,
                        id,
                    ) {
                        Some(p) => if p.title.len() > 0 {
                            p.title
                        } else {
                            p.current_command
                        },
                        None => Seq::empty(),
                    },
                },
            }
            &&& a.handle_key(Key::Char('n')) == stay(
                a.with_mode(ModeV::NewWindow { session: t.session_name(), input: Seq::empty() }),
            )
            &&& a.handle_key(Key::Char('N')) == stay(
                a.with_mode(ModeV::NewSession { input: Seq::empty() }),
            )
            &&& a.handle_key(Key::Char('m')).1 == StepV::Done(Flow::Continue)
            &&& match t {
                TargetV::Pane { id, .. } => {
                    &&& (a.handle_key(Key::Char('m')).0.mode matches ModeV::MovePaneSelect {
                        src_pane_id,
                        ..
                    } && src_pane_id == id)
                    &&& (a.handle_key(Key::Char('s')).0.mode matches ModeV::SwapSelect {
                        src_pane_id,
                        ..
                    } && src_pane_id == id)
                },
                TargetV::Window { session, index } => {
                    &&& (a.handle_key(Key::Char('m')).0.mode matches ModeV::MoveWindowSelect {
                        src_session,
                        src_window_index,
                        ..
                    } && src_session == session && src_window_index == index)
                    &&& a.handle_key(Key::Char('s')) == stay(a)
                },
                TargetV::Session(_) => {
                    &&& a.handle_key(Key::Char('m')) == stay(a)
                    &&& a.handle_key(Key::Char('s')) == stay(a)
                },
            }
            &&& match t {
                TargetV::Window { session, index } | TargetV::Pane {
                    session,
                    window_index: index,
                    ..
                } => match window_at(a.sessions, session, index) {
                    Some(w) => if w.panes.len() <= 1 {
                        a.handle_key(Key::Char('e')) == stay(
                            a.with_mode(
                                ModeV::Error("Window has only 1 pane — nothing to equalize."@),
                            ),
                        )
                    } else {
                        a.handle_key(Key::Char('e')) == stay(
                            a.with_mode(
                                ModeV::EqualizeConfirm {
                                    session,
                                    window_index: index,
                                    window_name: w.name,
                                    num_panes: w.panes.len() as usize,
                                },
                            ),
                        )
                    },
                    None => a.handle_key(Key::Char('e')) == stay(a),
                },
                TargetV::Session(_) => a.handle_key(Key::Char('e')) == stay(a),
            }
        }),
{
    assert(a.with_mode(ModeV::Normal) == a);
}

// ---------------------------------------------------------------------------
// Laws of collapsing
// ---------------------------------------------------------------------------

/// The targets of rows, in order.
pub open spec fn targets(rows: Seq<NavItemV>) -> Seq<TargetV> {
    rows.map_values(|r: NavItemV| r.target)
}

/// Whether the row of a target is shown while the sessions `cs` and the
/// windows `cw` are collapsed: a session row always, a window row unless its
/// session is collapsed, a pane row unless its session or its window is.
pub open spec fn shown(cs: Set<Seq<char>>, cw: Set<(Seq<char>, usize)>) -> spec_fn(TargetV) -> bool {
    |t: TargetV|
        match t {
            TargetV::Session(_) => true,
            TargetV::Window { session, .. } => !cs.contains(session),
            TargetV::Pane { session, window_index, .. } => !cs.contains(session) && !cw.contains(
                (session, window_index),
            ),
        }
}

proof fn lemma_targets_add(a: Seq<NavItemV>, b: Seq<NavItemV>)
    ensures
        targets(a + b) == targets(a) + targets(b),
{
    assert(targets(a + b) =~= targets(a) + targets(b));
}

proof fn lemma_filter_add<A>(a: Seq<A>, b: Seq<A>, p: spec_fn(A) -> bool)
    ensures
        (a + b).filter(p) == a.filter(p) + b.filter(p),
    decreases b.len(),
{
    if b.len() == 0 {
        assert(a + b =~= a);
        assert(a.filter(p) + b.filter(p) =~= a.filter(p));
    } else {
        let d = b.drop_last();
        lemma_filter_add(a, d, p);
        assert((a + d).push(b.last()) =~= a + b);
        assert(d.push(b.last()) =~= b);
        lemma_filter_push(a + d, b.last(), p);
        lemma_filter_push(d, b.last(), p);
        if p(b.last()) {
            assert((a.filter(p) + d.filter(p)).push(b.last()) =~= a.filter(p) + d.filter(p).push(
                b.last(),
            ));
        }
    }
}

proof fn lemma_filter_keeps_all<A>(s: Seq<A>, p: spec_fn(A) -> bool)
    requires
        forall|i: int| 0 <= i < s.len() ==> p(#[trigger] s[i]),
    ensures
        s.filter(p) == s,
    decreases s.len(),
{
    if s.len() > 0 {
        let d = s.drop_last();
        assert forall|i: int| 0 <= i < d.len() implies p(#[trigger] d[i]) by {
            assert(d[i] == s[i]);
        }
        lemma_filter_keeps_all(d, p);
        lemma_filter_push(d, s.last(), p);
        assert(p(s[s.len() - 1]));
        assert(d.push(s.last()) =~= s);
    }
}

proof fn lemma_filter_keeps_none<A>(s: Seq<A>, p: spec_fn(A) -> bool)
    requires
        forall|i: int| 0 <= i < s.len() ==> !p(#[trigger] s[i]),
    ensures
        s.filter(p) == Seq::<A>::empty(),
    decreases s.len(),
{
    if s.len() > 0 {
        let d = s.drop_last();
        assert forall|i: int| 0 <= i < d.len() implies !p(#[trigger] d[i]) by {
            assert(d[i] == s[i]);
        }
        lemma_filter_keeps_none(d, p);
        lemma_filter_push(d, s.last(), p);
        assert(!p(s[s.len() - 1]));
        assert(d.push(s.last()) =~= s);
    }
}

proof fn lemma_filter_twice<A>(s: Seq<A>, p1: spec_fn(A) -> bool, p2: spec_fn(A) -> bool)
    requires
        forall|x: A| #[trigger] p2(x) ==> p1(x),
    ensures
        s.filter(p1).filter(p2) == s.filter(p2),
    decreases s.len(),
{
    if s.len() > 0 {
        let d = s.drop_last();
        lemma_filter_twice(d, p1, p2);
        lemma_filter_push(d, s.last(), p1);
        lemma_filter_push(d, s.last(), p2);
        lemma_filter_push(d.filter(p1), s.last(), p2);
        assert(d.push(s.last()) =~= s);
    }
}

proof fn lemma_windows_rows_session(s: Seq<char>, ws: Seq<WindowV>, cw: Set<(Seq<char>, usize)>)
    ensures
        forall|i: int|
            0 <= i < windows_rows(s, ws, cw).len() ==> !((#[trigger] windows_rows(s, ws, cw)[i]).target
                is Session) && windows_rows(s, ws, cw)[i].target.session_name() == s,
    decreases ws.len(),
{
    if ws.len() > 0 {
        lemma_windows_rows_session(s, ws.drop_last(), cw);
        let a = windows_rows(s, ws.drop_last(), cw);
        let b = window_rows(s, ws.last(), cw);
        assert forall|i: int| 0 <= i < (a + b).len() implies !((#[trigger] (a + b)[i]).target
            is Session) && (a + b)[i].target.session_name() == s by {
            if i >= a.len() {
                assert((a + b)[i] == b[i - a.len()]);
            } else {
                assert((a + b)[i] == a[i]);
            }
        }
    }
}

proof fn lemma_window_rows_shown(
    s: Seq<char>,
    w: WindowV,
    cs: Set<Seq<char>>,
    cw: Set<(Seq<char>, usize)>,
)
    requires
        !cs.contains(s),
    ensures
        targets(window_rows(s, w, cw)) == targets(
            window_rows(s, w, Set::<(Seq<char>, usize)>::empty()),
        ).filter(shown(cs, cw)),
{
    let head = seq![
        NavItemV {
            label: window_label(w, false),
            target: TargetV::Window { session: s, index: w.index },
        },
    ];
    let panes = pane_rows(s, w, w.panes.len() as int);
    let p = shown(cs, cw);
    assert(window_rows(s, w, Set::<(Seq<char>, usize)>::empty()) == head + panes);
    lemma_targets_add(head, panes);
    lemma_filter_add(targets(head), targets(panes), p);
    lemma_filter_keeps_all(targets(head), p);
    let collapsed = cw.contains((s, w.index));
    let head2 = seq![
        NavItemV {
            label: window_label(w, collapsed),
            target: TargetV::Window { session: s, index: w.index },
        },
    ];
    assert(targets(head2) =~= targets(head));
    if collapsed {
        lemma_filter_keeps_none(targets(panes), p);
        assert(window_rows(s, w, cw) == head2 + Seq::<NavItemV>::empty());
        assert(head2 + Seq::<NavItemV>::empty() =~= head2);
        assert(targets(head) + Seq::<TargetV>::empty() =~= targets(head));
    } else {
        lemma_filter_keeps_all(targets(panes), p);
        assert(window_rows(s, w, cw) == head2 + panes);
        lemma_targets_add(head2, panes);
    }
}

proof fn lemma_windows_rows_shown(
    s: Seq<char>,
    ws: Seq<WindowV>,
    cs: Set<Seq<char>>,
    cw: Set<(Seq<char>, usize)>,
)
    requires
        !cs.contains(s),
    ensures
        targets(windows_rows(s, ws, cw)) == targets(
            windows_rows(s, ws, Set::<(Seq<char>, usize)>::empty()),
        ).filter(shown(cs, cw)),
    decreases ws.len(),
{
    let e = Set::<(Seq<char>, usize)>::empty();
    let p = shown(cs, cw);
    if ws.len() == 0 {
        assert(targets(Seq::<NavItemV>::empty()) =~= Seq::<TargetV>::empty());
        lemma_filter_keeps_all(Seq::<TargetV>::empty(), p);
    } else {
        let d = ws.drop_last();
        lemma_windows_rows_shown(s, d, cs, cw);
        lemma_window_rows_shown(s, ws.last(), cs, cw);
        lemma_targets_add(windows_rows(s, d, cw), window_rows(s, ws.last(), cw));
        lemma_targets_add(windows_rows(s, d, e), window_rows(s, ws.last(), e));
        lemma_filter_add(targets(windows_rows(s, d, e)), targets(window_rows(s, ws.last(), e)), p);
    }
}

proof fn lemma_session_rows_shown(s: SessionV, cs: Set<Seq<char>>, cw: Set<(Seq<char>, usize)>)
    ensures
        targets(session_rows(s, cs, cw)) == targets(
            session_rows(s, Set::<Seq<char>>::empty(), Set::<(Seq<char>, usize)>::empty()),
        ).filter(shown(cs, cw)),
{
    let e = Set::<(Seq<char>, usize)>::empty();
    let p = shown(cs, cw);
    let collapsed = cs.contains(s.name);
    let head = seq![NavItemV { label: session_label(s.name, false), target: TargetV::Session(s.name) }];
    let head2 = seq![
        NavItemV { label: session_label(s.name, collapsed), target: TargetV::Session(s.name) },
    ];
    let body = windows_rows(s.name, s.windows, e);
    assert(session_rows(s, Set::<Seq<char>>::empty(), e) == head + body);
    lemma_targets_add(head, body);
    lemma_filter_add(targets(head), targets(body), p);
    lemma_filter_keeps_all(targets(head), p);
    assert(targets(head2) =~= targets(head));
    if collapsed {
        lemma_windows_rows_session(s.name, s.windows, e);
        assert forall|i: int| 0 <= i < targets(body).len() implies !p(#[trigger] targets(body)[i]) by {
            assert(targets(body)[i] == body[i].target);
        }
        lemma_filter_keeps_none(targets(body), p);
        assert(session_rows(s, cs, cw) == head2 + Seq::<NavItemV>::empty());
        assert(head2 + Seq::<NavItemV>::empty() =~= head2);
        assert(targets(head) + Seq::<TargetV>::empty() =~= targets(head));
    } else {
        lemma_windows_rows_shown(s.name, s.windows, cs, cw);
        assert(session_rows(s, cs, cw) == head2 + windows_rows(s.name, s.windows, cw));
        lemma_targets_add(head2, windows_rows(s.name, s.windows, cw));
    }
}

/// Collapsing hides the rows below a collapsed node and nothing else: the rows
/// are those of the fully expanded list that stay shown, in the same order.
pub proof fn lemma_collapse_hides_rows(
    ss: Seq<SessionV>,
    cs: Set<Seq<char>>,
    cw: Set<(Seq<char>, usize)>,
)
    ensures
        targets(flat_rows(ss, cs, cw)) == targets(
            flat_rows(ss, Set::<Seq<char>>::empty(), Set::<(Seq<char>, usize)>::empty()),
        ).filter(shown(cs, cw)),
    decreases ss.len(),
{
    let es = Set::<Seq<char>>::empty();
    let e = Set::<(Seq<char>, usize)>::empty();
    let p = shown(cs, cw);
    if ss.len() == 0 {
        assert(targets(Seq::<NavItemV>::empty()) =~= Seq::<TargetV>::empty());
        lemma_filter_keeps_all(Seq::<TargetV>::empty(), p);
    } else {
        let d = ss.drop_last();
        lemma_collapse_hides_rows(d, cs, cw);
        lemma_session_rows_shown(ss.last(), cs, cw);
        lemma_targets_add(flat_rows(d, cs, cw), session_rows(ss.last(), cs, cw));
        lemma_targets_add(flat_rows(d, es, e), session_rows(ss.last(), es, e));
        lemma_filter_add(targets(flat_rows(d, es, e)), targets(session_rows(ss.last(), es, e)), p);
    }
}

/// Collapsing more shows less: with more sessions and windows collapsed, the
/// rows are those of the list with fewer collapsed that stay shown, in the
/// same order.
pub proof fn lemma_collapse_more_shows_less(
    ss: Seq<SessionV>,
    cs1: Set<Seq<char>>,
    cw1: Set<(Seq<char>, usize)>,
    cs2: Set<Seq<char>>,
    cw2: Set<(Seq<char>, usize)>,
)
    requires
        cs1.subset_of(cs2),
        cw1.subset_of(cw2),
    ensures
        targets(flat_rows(ss, cs2, cw2)) == targets(flat_rows(ss, cs1, cw1)).filter(
            shown(cs2, cw2),
        ),
{
    let full = targets(flat_rows(ss, Set::<Seq<char>>::empty(), Set::<(Seq<char>, usize)>::empty()));
    lemma_collapse_hides_rows(ss, cs1, cw1);
    lemma_collapse_hides_rows(ss, cs2, cw2);
    assert forall|t: TargetV| #[trigger] shown(cs2, cw2)(t) implies shown(cs1, cw1)(t) by {}
    lemma_filter_twice(full, shown(cs1, cw1), shown(cs2, cw2));
}

proof fn lemma_windows_rows_same_keys(
    s: Seq<char>,
    ws: Seq<WindowV>,
    cw1: Set<(Seq<char>, usize)>,
    cw2: Set<(Seq<char>, usize)>,
)
    requires
        forall|j: int| 0 <= j < ws.len() ==> cw1.contains((s, (#[trigger] ws[j]).index)) == cw2.contains(
            (s, ws[j].index),
        ),
    ensures
        windows_rows(s, ws, cw1) == windows_rows(s, ws, cw2),
    decreases ws.len(),
{
    if ws.len() > 0 {
        let d = ws.drop_last();
        assert forall|j: int| 0 <= j < d.len() implies cw1.contains((s, (#[trigger] d[j]).index))
            == cw2.contains((s, d[j].index)) by {
            assert(d[j] == ws[j]);
        }
        lemma_windows_rows_same_keys(s, d, cw1, cw2);
        assert(cw1.contains((s, ws[ws.len() - 1].index)) == cw2.contains((s, ws[ws.len() - 1].index)));
    }
}

/// Collapsed keys that name no session or window of the tree change nothing:
/// two sets of collapsed nodes that agree on the tree's own sessions and
/// windows give the same list, labels included.
pub proof fn lemma_unused_keys_change_nothing(
    ss: Seq<SessionV>,
    cs1: Set<Seq<char>>,
    cw1: Set<(Seq<char>, usize)>,
    cs2: Set<Seq<char>>,
    cw2: Set<(Seq<char>, usize)>,
)
    requires
        forall|i: int| 0 <= i < ss.len() ==> cs1.contains((#[trigger] ss[i]).name) == cs2.contains(
            ss[i].name,
        ),
        forall|i: int, j: int|
            0 <= i < ss.len() && 0 <= j < ss[i].windows.len() ==> cw1.contains(
                (ss[i].name, (#[trigger] ss[i].windows[j]).index),
            ) == cw2.contains((ss[i].name, ss[i].windows[j].index)),
    ensures
        flat_rows(ss, cs1, cw1) == flat_rows(ss, cs2, cw2),
    decreases ss.len(),
{
    if ss.len() > 0 {
        let d = ss.drop_last();
        let n = ss.len() - 1;
        assert forall|i: int| 0 <= i < d.len() implies cs1.contains((#[trigger] d[i]).name)
            == cs2.contains(d[i].name) by {
            assert(d[i] == ss[i]);
        }
        assert forall|i: int, j: int| 0 <= i < d.len() && 0 <= j < d[i].windows.len() implies cw1.contains(
            (d[i].name, (#[trigger] d[i].windows[j]).index),
        ) == cw2.contains((d[i].name, d[i].windows[j].index)) by {
            assert(d[i] == ss[i]);
        }
        lemma_unused_keys_change_nothing(d, cs1, cw1, cs2, cw2);
        let s = ss[n];
        assert(cs1.contains(s.name) == cs2.contains(s.name));
        assert forall|j: int| 0 <= j < s.windows.len() implies cw1.contains(
            (s.name, (#[trigger] s.windows[j]).index),
        ) == cw2.contains((s.name, s.windows[j].index)) by {
            assert(ss[n].windows[j] == s.windows[j]);
        }
        lemma_windows_rows_same_keys(s.name, s.windows, cw1, cw2);
    }
}

} // verus!
