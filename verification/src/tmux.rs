//! The tmux side of the organizer as data: the `list-panes` output parser, the
//! commands that focus a target, and the layout heuristic.

use vstd::prelude::*;
use crate::text::{
    chars_of, lines_of, owned, parse_usize, parse_usize_spec, split_chars, split_lines, split_on,
    string_of, views_of,
};
use crate::model::{
    make_window_address, window_address, Pane, PaneV, Session, SessionV, Target, TargetV, Window,
    WindowV,
};
use crate::order::{
    Indexed, distinct_indexes, has_index, has_index_k, insert_by_index, is_index_ordered, lemma_filter_push,
    lemma_sort_is_stable, lemma_sorted_distinct, lemma_sorted_elements, lemma_sorted_is_ordered,
    sort_by_index, sorted_by_index};

verus! {

/// Format string passed to `tmux list-panes -F`. Fields are tab-separated and
/// parsed positionally by [`parse_tmux_state`]; keep the two in sync.
pub const LIST_FORMAT: &'static str = "#{session_name}\t#{window_index}\t#{window_name}\t#{pane_index}\t#{pane_id}\t#{pane_active}\t#{pane_current_command}\t#{pane_current_path}\t#{pane_title}\t#{window_active}";

// ---------------------------------------------------------------------------
// The model of the parser
// ---------------------------------------------------------------------------

/// What one well-formed output line says.
pub struct Row {
    pub session: Seq<char>,
    pub window_index: usize,
    pub window_name: Seq<char>,
    pub pane: PaneV,
    pub window_active: bool,
}

/// A field read as an index, 0 where it is not a number.
pub open spec fn index_field(f: Seq<char>) -> usize {
    match parse_usize_spec(f) {
        Some(v) => v,
        None => 0,
    }
}

/// A field read as a flag: exactly `1`.
pub open spec fn flag_field(f: Seq<char>) -> bool {
    f == seq!['1']
}

/// The row described by the tab-separated fields `f` (at least ten of them).
pub open spec fn row_of(f: Seq<Seq<char>>) -> Row {
    Row {
        session: f[0],
        window_index: index_field(f[1]),
        window_name: f[2],
        pane: PaneV {
            id: f[4],
            index: index_field(f[3]),
            active: flag_field(f[5]),
            current_command: f[6],
            current_path: f[7],
            title: f[8],
        },
        window_active: flag_field(f[9]),
    }
}

/// The rows of `lines`, in order, skipping the lines with fewer than ten fields.
pub open spec fn rows_of_lines(lines: Seq<Seq<char>>) -> Seq<Row>
    decreases lines.len(),
{
    if lines.len() == 0 {
        Seq::empty()
    } else {
        let before = rows_of_lines(lines.drop_last());
        let f = split_on(lines.last(), '\t');
        if f.len() >= 10 {
            before.push(row_of(f))
        } else {
            before
        }
    }
}

/// The rows of the whole `list-panes` output.
pub open spec fn rows_of(output: Seq<char>) -> Seq<Row> {
    rows_of_lines(lines_of(output))
}

/// The position of the first element of `s` satisfying `p`, or -1.
pub open spec fn first_index<T>(s: Seq<T>, p: spec_fn(T) -> bool) -> int
    decreases s.len(),
{
    if s.len() == 0 {
        -1
    } else {
        let q = first_index(s.drop_last(), p);
        if q >= 0 {
            q
        } else if p(s.last()) {
            s.len() - 1
        } else {
            -1
        }
    }
}

/// The first position `i` of a match, when every earlier element fails `p`.
pub proof fn lemma_first_index<T>(s: Seq<T>, p: spec_fn(T) -> bool, i: int)
    requires
        0 <= i <= s.len(),
        forall|j: int| 0 <= j < i ==> !p(#[trigger] s[j]),
        i < s.len() ==> p(s[i]),
    ensures
        first_index(s, p) == (if i < s.len() {
            i
        } else {
            -1
        }),
    decreases s.len(),
{
    if s.len() > 0 {
        if i < s.len() {
            if i < s.len() - 1 {
                lemma_first_index(s.drop_last(), p, i);
            } else {
                lemma_first_index(s.drop_last(), p, s.len() - 1);
            }
        } else {
            lemma_first_index(s.drop_last(), p, s.len() - 1);
        }
    }
}

/// Whether a session is named `name`.
pub open spec fn named(name: Seq<char>) -> spec_fn(SessionV) -> bool {
    |s: SessionV| s.name == name
}

/// Whether a window has index `index`.
pub open spec fn numbered(index: usize) -> spec_fn(WindowV) -> bool {
    |w: WindowV| w.index == index
}

/// A window after a row of it was read: its active flag from the row, the
/// row's pane appended.
pub open spec fn window_with_row(w: WindowV, r: Row) -> WindowV {
    WindowV { name: w.name, index: w.index, panes: w.panes.push(r.pane), active: r.window_active }
}

/// A session after a row of it was read: the row's window found by index (or
/// appended, named from the row), then updated by the row.
pub open spec fn session_with_row(s: SessionV, r: Row) -> SessionV {
    let p = first_index(s.windows, numbered(r.window_index));
    let ws = if p < 0 {
        s.windows.push(
            WindowV {
                name: r.window_name,
                index: r.window_index,
                panes: Seq::empty(),
                active: r.window_active,
            },
        )
    } else {
        s.windows
    };
    let q = if p < 0 {
        s.windows.len() as int
    } else {
        p
    };
    SessionV { name: s.name, windows: ws.update(q, window_with_row(ws[q], r)) }
}

/// The tree after one more row: the row's session found by name (or appended),
/// then updated by the row.
pub open spec fn tree_with_row(ss: Seq<SessionV>, r: Row) -> Seq<SessionV> {
    let p = first_index(ss, named(r.session));
    let ss1 = if p < 0 {
        ss.push(SessionV { name: r.session, windows: Seq::empty() })
    } else {
        ss
    };
    let q = if p < 0 {
        ss.len() as int
    } else {
        p
    };
    ss1.update(q, session_with_row(ss1[q], r))
}

/// The tree the rows describe, before sorting: sessions, windows and panes in
/// the order they first appear.
pub open spec fn group_rows(rows: Seq<Row>) -> Seq<SessionV>
    decreases rows.len(),
{
    if rows.len() == 0 {
        Seq::empty()
    } else {
        tree_with_row(group_rows(rows.drop_last()), rows.last())
    }
}

/// A window with its panes sorted by index.
pub open spec fn sort_window(w: WindowV) -> WindowV {
    WindowV { name: w.name, index: w.index, panes: sorted_by_index::<Pane>(w.panes), active: w.active }
}

/// A session with its windows sorted by index, and each window's panes too.
pub open spec fn sort_session(s: SessionV) -> SessionV {
    SessionV {
        name: s.name,
        windows: sorted_by_index::<Window>(s.windows).map_values(|w: WindowV| sort_window(w)),
    }
}

/// The session tree that a `list-panes -F LIST_FORMAT` output describes.
pub open spec fn tree_of(output: Seq<char>) -> Seq<SessionV> {
    group_rows(rows_of(output)).map_values(|s: SessionV| sort_session(s))
}

// ---------------------------------------------------------------------------
// The parser
// ---------------------------------------------------------------------------

fn is_one(v: &Vec<char>) -> (b: bool)
    ensures
        b == flag_field(v@),
{
    if v.len() == 1 && v[0] == '1' {
        assert(v@ =~= seq!['1']);
        true
    } else {
        false
    }
}

fn index_of_field(v: &Vec<char>) -> (k: usize)
    ensures
        k == index_field(v@),
{
    match parse_usize(v) {
        Some(k) => k,
        None => 0,
    }
}

/// The position of the first session named `name`.
pub fn position_of_session(sessions: &Vec<Session>, name: &String) -> (r: Option<usize>)
    ensures
        match r {
            Some(i) => i < sessions@.len() && first_index(views_of(sessions@), named(name@)) == i,
            None => first_index(views_of(sessions@), named(name@)) == -1,
        },
{
    let ghost ss = views_of(sessions@);
    let mut i: usize = 0;
    while i < sessions.len()
        invariant
            i <= sessions@.len(),
            ss == views_of(sessions@),
            forall|j: int| 0 <= j < i ==> !named(name@)(#[trigger] ss[j]),
        decreases sessions@.len() - i,
    {
        if sessions[i].name == *name {
            proof {
                lemma_first_index(ss, named(name@), i as int);
            }
            return Some(i);
        }
        i += 1;
    }
    proof {
        lemma_first_index(ss, named(name@), i as int);
    }
    None
}

/// The position of the first window numbered `index`.
pub fn position_of_window(windows: &Vec<Window>, index: usize) -> (r: Option<usize>)
    ensures
        match r {
            Some(i) => i < windows@.len() && first_index(views_of(windows@), numbered(index)) == i,
            None => first_index(views_of(windows@), numbered(index)) == -1,
        },
{
    let ghost ws = views_of(windows@);
    let mut i: usize = 0;
    while i < windows.len()
        invariant
            i <= windows@.len(),
            ws == views_of(windows@),
            forall|j: int| 0 <= j < i ==> !numbered(index)(#[trigger] ws[j]),
        decreases windows@.len() - i,
    {
        if windows[i].index == index {
            proof {
                lemma_first_index(ws, numbered(index), i as int);
            }
            return Some(i);
        }
        i += 1;
    }
    proof {
        lemma_first_index(ws, numbered(index), i as int);
    }
    None
}

fn add_to_window(w: &mut Window, pane: Pane, active: bool, Ghost(r): Ghost<Row>)
    requires
        r.pane == pane@,
        r.window_active == active,
    ensures
        final(w)@ == window_with_row(old(w)@, r),
{
    w.active = active;
    w.panes.push(pane);
    assert(views_of(w.panes@) =~= views_of(old(w).panes@).push(r.pane));
}

fn add_to_session(
    s: &mut Session,
    window_index: usize,
    window_name: String,
    pane: Pane,
    window_active: bool,
    Ghost(r): Ghost<Row>,
)
    requires
        r.window_index == window_index,
        r.window_name == window_name@,
        r.pane == pane@,
        r.window_active == window_active,
    ensures
        final(s)@ == session_with_row(old(s)@, r),
{
    let ghost ws0 = views_of(s.windows@);
    let q = match position_of_window(&s.windows, window_index) {
        Some(q) => q,
        None => {
            let nw = Window {
                name: window_name,
                index: window_index,
                panes: Vec::new(),
                active: window_active,
            };
            assert(nw@.panes =~= Seq::<PaneV>::empty());
            s.windows.push(nw);
            s.windows.len() - 1
        },
    };
    let ghost ws1 = views_of(s.windows@);
    assert(ws1 == (if first_index(ws0, numbered(window_index)) < 0 {
        ws0.push(
            WindowV {
                name: r.window_name,
                index: r.window_index,
                panes: Seq::empty(),
                active: r.window_active,
            },
        )
    } else {
        ws0
    }));
    add_to_window(&mut s.windows[q], pane, window_active, Ghost(r));
    assert(views_of(s.windows@) =~= ws1.update(q as int, window_with_row(ws1[q as int], r)));
}

fn add_row(
    sessions: &mut Vec<Session>,
    session_name: String,
    window_index: usize,
    window_name: String,
    pane: Pane,
    window_active: bool,
    Ghost(r): Ghost<Row>,
)
    requires
        r.session == session_name@,
        r.window_index == window_index,
        r.window_name == window_name@,
        r.pane == pane@,
        r.window_active == window_active,
    ensures
        views_of(final(sessions)@) == tree_with_row(views_of(old(sessions)@), r),
{
    let ghost ss0 = views_of(sessions@);
    let q = match position_of_session(sessions, &session_name) {
        Some(q) => q,
        None => {
            let ns = Session { name: session_name, windows: Vec::new() };
            assert(ns@.windows =~= Seq::<WindowV>::empty());
            sessions.push(ns);
            sessions.len() - 1
        },
    };
    let ghost ss1 = views_of(sessions@);
    assert(ss1 == (if first_index(ss0, named(r.session)) < 0 {
        ss0.push(SessionV { name: r.session, windows: Seq::empty() })
    } else {
        ss0
    }));
    add_to_session(&mut sessions[q], window_index, window_name, pane, window_active, Ghost(r));
    assert(views_of(sessions@) =~= ss1.update(q as int, session_with_row(ss1[q as int], r)));
}

fn sort_window_exec(w: &mut Window)
    ensures
        final(w)@ == sort_window(old(w)@),
{
    sort_by_index(&mut w.panes);
}

fn sort_session_exec(s: &mut Session)
    ensures
        final(s)@ == sort_session(old(s)@),
{
    sort_by_index(&mut s.windows);
    let ghost sorted = views_of(s.windows@);
    let mut j: usize = 0;
    while j < s.windows.len()
        invariant
            j <= s.windows@.len(),
            s.name == old(s).name,
            sorted.len() == s.windows@.len(),
            sorted == sorted_by_index::<Window>(views_of(old(s).windows@)),
            forall|t: int| 0 <= t < j ==> #[trigger] views_of(s.windows@)[t] == sort_window(sorted[t]),
            forall|t: int| j <= t < s.windows@.len() ==> #[trigger] views_of(s.windows@)[t] == sorted[t],
        decreases s.windows@.len() - j,
    {
        let ghost before = views_of(s.windows@);
        assert(before[j as int] == sorted[j as int]);
        sort_window_exec(&mut s.windows[j]);
        assert(views_of(s.windows@) =~= before.update(j as int, sort_window(sorted[j as int])));
        j += 1;
    }
    assert(views_of(s.windows@) =~= sorted.map_values(|w: WindowV| sort_window(w)));
}

/// Parse the tab-separated `list-panes -F` output into a session tree.
///
/// Pure (no I/O). Lines with fewer than the expected number of fields are
/// skipped; windows and panes are sorted by index.
pub fn parse_tmux_state(output: &str) -> (sessions: Vec<Session>)
    ensures
        views_of(sessions@) == tree_of(output@),
{
    let chars = chars_of(output);
    let lines = split_lines(&chars);
    let ghost ls = lines_of(output@);
    let mut sessions: Vec<Session> = Vec::new();
    let mut i: usize = 0;
    assert(ls.take(0) =~= Seq::<Seq<char>>::empty());
    while i < lines.len()
        invariant
            i <= lines@.len(),
            views_of(lines@) == ls,
            views_of(sessions@) == group_rows(rows_of_lines(ls.take(i as int))),
        decreases lines@.len() - i,
    {
        let parts = split_chars(&lines[i], '\t');
        assert(ls.take(i + 1).drop_last() == ls.take(i as int));
        assert(ls.take(i + 1).last() == lines@[i as int]@);
        let ghost f = split_on(lines@[i as int]@, '\t');
        let ghost rows = rows_of_lines(ls.take(i as int));
        if parts.len() >= 10 {
            let ghost r = row_of(f);
            assert(rows_of_lines(ls.take(i + 1)) == rows.push(r));
            assert(rows.push(r).drop_last() == rows);
            let pane = Pane {
                id: string_of(&parts[4]),
                index: index_of_field(&parts[3]),
                active: is_one(&parts[5]),
                current_command: string_of(&parts[6]),
                current_path: string_of(&parts[7]),
                title: string_of(&parts[8]),
            };
            let session_name = string_of(&parts[0]);
            let window_index = index_of_field(&parts[1]);
            let window_name = string_of(&parts[2]);
            let window_active = is_one(&parts[9]);
            add_row(
                &mut sessions,
                session_name,
                window_index,
                window_name,
                pane,
                window_active,
                Ghost(r),
            );
        } else {
            assert(rows_of_lines(ls.take(i + 1)) == rows);
        }
        i += 1;
    }
    assert(ls.take(lines@.len() as int) == ls);
    let ghost grouped = views_of(sessions@);
    let mut k: usize = 0;
    while k < sessions.len()
        invariant
            k <= sessions@.len(),
            grouped.len() == sessions@.len(),
            forall|t: int| 0 <= t < k ==> #[trigger] views_of(sessions@)[t] == sort_session(grouped[t]),
            forall|t: int| k <= t < sessions@.len() ==> #[trigger] views_of(sessions@)[t] == grouped[t],
        decreases sessions@.len() - k,
    {
        let ghost before = views_of(sessions@);
        assert(before[k as int] == grouped[k as int]);
        sort_session_exec(&mut sessions[k]);
        assert(views_of(sessions@) =~= before.update(k as int, sort_session(grouped[k as int])));
        k += 1;
    }
    assert(views_of(sessions@) =~= grouped.map_values(|s: SessionV| sort_session(s)));
    sessions
}

// ---------------------------------------------------------------------------
// Commands
// ---------------------------------------------------------------------------

/// The arguments of one tmux invocation, as text.
pub open spec fn args_view(a: Vec<String>) -> Seq<Seq<char>> {
    views_of(a@)
}

/// The values of a list of tmux invocations.
pub open spec fn commands_view(c: Seq<Vec<String>>) -> Seq<Seq<Seq<char>>> {
    c.map_values(|a: Vec<String>| args_view(a))
}

/// The arguments that fetch the whole session tree.
pub open spec fn list_panes_spec() -> Seq<Seq<char>> {
    seq!["list-panes"@, "-a"@, "-F"@, LIST_FORMAT@]
}

/// Arguments for `tmux list-panes -a -F LIST_FORMAT`.
pub fn list_panes_args() -> (a: Vec<String>)
    ensures
        args_view(a) == list_panes_spec(),
{
    let a = vec![owned("list-panes"), owned("-a"), owned("-F"), owned(LIST_FORMAT)];
    assert(args_view(a) =~= list_panes_spec());
    a
}

/// The commands that focus a target: select its pane and window as needed,
/// then switch the attached client to its session.
pub open spec fn switch_plan(t: TargetV) -> Seq<Seq<Seq<char>>> {
    match t {
        TargetV::Session(name) => seq![seq!["switch-client"@, "-t"@, name]],
        TargetV::Window { session, index } => seq![
            seq!["select-window"@, "-t"@, window_address(session, index)],
            seq!["switch-client"@, "-t"@, session],
        ],
        TargetV::Pane { session, window_index, id } => seq![
            seq!["select-pane"@, "-t"@, id],
            seq!["select-window"@, "-t"@, window_address(session, window_index)],
            seq!["switch-client"@, "-t"@, session],
        ],
    }
}

/// The tmux commands that focus `target`, to be run in order, stopping at the
/// first that fails.
pub fn switch_commands(target: &Target) -> (c: Vec<Vec<String>>)
    ensures
        commands_view(c@) == switch_plan(target@),
{
    match target {
        Target::Session(name) => {
            let c = vec![vec![owned("switch-client"), owned("-t"), name.clone()]];
            assert(commands_view(c@) =~= switch_plan(target@)) by {
                assert(args_view(c@[0]) =~= switch_plan(target@)[0]);
            }
            c
        },
        Target::Window { session, index } => {
            let c = vec![
                vec![owned("select-window"), owned("-t"), make_window_address(session, *index)],
                vec![owned("switch-client"), owned("-t"), session.clone()],
            ];
            assert(commands_view(c@) =~= switch_plan(target@)) by {
                assert(args_view(c@[0]) =~= switch_plan(target@)[0]);
                assert(args_view(c@[1]) =~= switch_plan(target@)[1]);
            }
            c
        },
        Target::Pane { session, window_index, id } => {
            let c = vec![
                vec![owned("select-pane"), owned("-t"), id.clone()],
                vec![owned("select-window"), owned("-t"), make_window_address(session, *window_index)],
                vec![owned("switch-client"), owned("-t"), session.clone()],
            ];
            assert(commands_view(c@) =~= switch_plan(target@)) by {
                assert(args_view(c@[0]) =~= switch_plan(target@)[0]);
                assert(args_view(c@[1]) =~= switch_plan(target@)[1]);
                assert(args_view(c@[2]) =~= switch_plan(target@)[2]);
            }
            c
        },
    }
}

/// Choose the layout name that distributes `num_panes` panes most evenly.
pub fn best_layout_for(num_panes: usize) -> (r: &'static str)
    ensures
        r@ == (if num_panes <= 1 {
            "even-horizontal"@
        } else if num_panes == 2 {
            "even-vertical"@
        } else {
            "tiled"@
        }),
{
    match num_panes {
        0 | 1 => "even-horizontal",
        2 => "even-vertical",
        _ => "tiled",
    }
}

// ---------------------------------------------------------------------------
// Laws of the parser
// ---------------------------------------------------------------------------

/// A session's windows, and each window's panes, are in index order.
pub open spec fn session_is_ordered(s: SessionV) -> bool {
    &&& is_index_ordered::<Window>(s.windows)
    &&& forall|j: int|
        0 <= j < s.windows.len() ==> is_index_ordered::<Pane>(#[trigger] s.windows[j].panes)
}

/// Windows and panes come out sorted by index, whatever order tmux listed
/// them in.
pub proof fn lemma_tree_is_ordered(output: Seq<char>)
    ensures
        forall|i: int|
            0 <= i < tree_of(output).len() ==> session_is_ordered(#[trigger] tree_of(output)[i]),
{
    let g = group_rows(rows_of(output));
    assert forall|i: int| 0 <= i < tree_of(output).len() implies session_is_ordered(
        #[trigger] tree_of(output)[i],
    ) by {
        let s = g[i];
        assert(tree_of(output)[i] == sort_session(s));
        let sorted = sorted_by_index::<Window>(s.windows);
        lemma_sorted_is_ordered::<Window>(s.windows);
        let ws = sorted.map_values(|w: WindowV| sort_window(w));
        assert(sort_session(s).windows == ws);
        assert forall|a: int, b: int| 0 <= a <= b < ws.len() implies Window::index_of(ws[a])
            <= Window::index_of(ws[b]) by {
            assert(ws[a].index == sorted[a].index);
            assert(ws[b].index == sorted[b].index);
        }
        assert forall|j: int| 0 <= j < ws.len() implies is_index_ordered::<Pane>(
            #[trigger] ws[j].panes,
        ) by {
            lemma_sorted_is_ordered::<Pane>(sorted[j].panes);
        }
    }
}

/// The number of panes of the windows `ws`.
pub open spec fn total_panes(ws: Seq<WindowV>) -> nat
    decreases ws.len(),
{
    if ws.len() == 0 {
        0
    } else {
        total_panes(ws.drop_last()) + ws.last().panes.len()
    }
}

/// The number of panes in a session tree.
pub open spec fn tree_panes(ss: Seq<SessionV>) -> nat
    decreases ss.len(),
{
    if ss.len() == 0 {
        0
    } else {
        tree_panes(ss.drop_last()) + total_panes(ss.last().windows)
    }
}

proof fn lemma_total_push(ws: Seq<WindowV>, w: WindowV)
    ensures
        total_panes(ws.push(w)) == total_panes(ws) + w.panes.len(),
{
    assert(ws.push(w).drop_last() == ws);
}

proof fn lemma_total_update(ws: Seq<WindowV>, q: int, w: WindowV)
    requires
        0 <= q < ws.len(),
    ensures
        total_panes(ws.update(q, w)) + ws[q].panes.len() == total_panes(ws) + w.panes.len(),
    decreases ws.len(),
{
    let u = ws.update(q, w);
    if q == ws.len() - 1 {
        assert(u.drop_last() == ws.drop_last());
    } else {
        lemma_total_update(ws.drop_last(), q, w);
        assert(u.drop_last() == ws.drop_last().update(q, w));
    }
}

proof fn lemma_tree_push(ss: Seq<SessionV>, s: SessionV)
    ensures
        tree_panes(ss.push(s)) == tree_panes(ss) + total_panes(s.windows),
{
    assert(ss.push(s).drop_last() == ss);
}

proof fn lemma_tree_update(ss: Seq<SessionV>, q: int, s: SessionV)
    requires
        0 <= q < ss.len(),
    ensures
        tree_panes(ss.update(q, s)) + total_panes(ss[q].windows) == tree_panes(ss) + total_panes(
            s.windows,
        ),
    decreases ss.len(),
{
    let u = ss.update(q, s);
    if q == ss.len() - 1 {
        assert(u.drop_last() == ss.drop_last());
    } else {
        lemma_tree_update(ss.drop_last(), q, s);
        assert(u.drop_last() == ss.drop_last().update(q, s));
    }
}

/// `first_index` points at a match, or is -1.
pub proof fn lemma_first_index_range<T>(s: Seq<T>, p: spec_fn(T) -> bool)
    ensures
        -1 <= first_index(s, p) < s.len(),
        first_index(s, p) >= 0 ==> p(s[first_index(s, p)]),
        first_index(s, p) == -1 ==> forall|i: int| 0 <= i < s.len() ==> !p(#[trigger] s[i]),
    decreases s.len(),
{
    if s.len() > 0 {
        lemma_first_index_range(s.drop_last(), p);
        assert forall|i: int| 0 <= i < s.len() - 1 implies s.drop_last()[i] == s[i] by {}
    }
}

proof fn lemma_session_with_row_panes(s: SessionV, r: Row)
    ensures
        total_panes(session_with_row(s, r).windows) == total_panes(s.windows) + 1,
{
    lemma_first_index_range(s.windows, numbered(r.window_index));
    let p = first_index(s.windows, numbered(r.window_index));
    let fresh = WindowV {
        name: r.window_name,
        index: r.window_index,
        panes: Seq::empty(),
        active: r.window_active,
    };
    let ws = if p < 0 {
        s.windows.push(fresh)
    } else {
        s.windows
    };
    let q = if p < 0 {
        s.windows.len() as int
    } else {
        p
    };
    if p < 0 {
        lemma_total_push(s.windows, fresh);
    }
    assert(total_panes(ws) == total_panes(s.windows));
    lemma_total_update(ws, q, window_with_row(ws[q], r));
}

proof fn lemma_tree_with_row_panes(ss: Seq<SessionV>, r: Row)
    ensures
        tree_panes(tree_with_row(ss, r)) == tree_panes(ss) + 1,
{
    lemma_first_index_range(ss, named(r.session));
    let p = first_index(ss, named(r.session));
    let fresh = SessionV { name: r.session, windows: Seq::empty() };
    let ss1 = if p < 0 {
        ss.push(fresh)
    } else {
        ss
    };
    let q = if p < 0 {
        ss.len() as int
    } else {
        p
    };
    if p < 0 {
        lemma_tree_push(ss, fresh);
        assert(total_panes(fresh.windows) == 0);
    }
    lemma_session_with_row_panes(ss1[q], r);
    lemma_tree_update(ss1, q, session_with_row(ss1[q], r));
}

proof fn lemma_group_panes(rows: Seq<Row>)
    ensures
        tree_panes(group_rows(rows)) == rows.len(),
    decreases rows.len(),
{
    if rows.len() > 0 {
        lemma_group_panes(rows.drop_last());
        lemma_tree_with_row_panes(group_rows(rows.drop_last()), rows.last());
    }
}

proof fn lemma_insert_panes(ws: Seq<WindowV>, x: WindowV)
    ensures
        total_panes(insert_by_index::<Window>(ws, x)) == total_panes(ws) + x.panes.len(),
    decreases ws.len(),
{
    if ws.len() == 0 || Window::index_of(ws.last()) <= Window::index_of(x) {
        lemma_total_push(ws, x);
    } else {
        lemma_insert_panes(ws.drop_last(), x);
        lemma_total_push(insert_by_index::<Window>(ws.drop_last(), x), ws.last());
    }
}

proof fn lemma_sorted_panes(ws: Seq<WindowV>)
    ensures
        total_panes(sorted_by_index::<Window>(ws)) == total_panes(ws),
    decreases ws.len(),
{
    if ws.len() > 0 {
        lemma_sorted_panes(ws.drop_last());
        lemma_insert_panes(sorted_by_index::<Window>(ws.drop_last()), ws.last());
    }
}

proof fn lemma_sort_windows_panes(ws: Seq<WindowV>)
    ensures
        total_panes(ws.map_values(|w: WindowV| sort_window(w))) == total_panes(ws),
    decreases ws.len(),
{
    if ws.len() > 0 {
        lemma_sort_windows_panes(ws.drop_last());
        assert(ws.map_values(|w: WindowV| sort_window(w)).drop_last() =~= ws.drop_last().map_values(
            |w: WindowV| sort_window(w),
        ));
        lemma_sorted_is_ordered::<Pane>(ws.last().panes);
    }
}

proof fn lemma_sort_tree_panes(ss: Seq<SessionV>)
    ensures
        tree_panes(ss.map_values(|s: SessionV| sort_session(s))) == tree_panes(ss),
    decreases ss.len(),
{
    if ss.len() > 0 {
        lemma_sort_tree_panes(ss.drop_last());
        assert(ss.map_values(|s: SessionV| sort_session(s)).drop_last() =~= ss.drop_last().map_values(
            |s: SessionV| sort_session(s),
        ));
        let ws = ss.last().windows;
        lemma_sort_windows_panes(sorted_by_index::<Window>(ws));
        lemma_sorted_panes(ws);
    }
}

/// Every well-formed line becomes exactly one pane of the tree: malformed
/// lines are skipped, and no well-formed line is lost or counted twice.
pub proof fn lemma_tree_keeps_every_pane(output: Seq<char>)
    ensures
        tree_panes(tree_of(output)) == rows_of(output).len(),
{
    lemma_group_panes(rows_of(output));
    lemma_sort_tree_panes(group_rows(rows_of(output)));
}

/// Whether no two sessions share a name.
pub open spec fn names_distinct(ss: Seq<SessionV>) -> bool {
    forall|i: int, j: int| 0 <= i < j < ss.len() ==> (#[trigger] ss[i]).name != (#[trigger] ss[j]).name
}

/// Whether no two sessions share a name and no session has two windows with
/// one index.
pub open spec fn tree_is_unambiguous(ss: Seq<SessionV>) -> bool {
    &&& names_distinct(ss)
    &&& forall|i: int| 0 <= i < ss.len() ==> distinct_indexes::<Window>(#[trigger] ss[i].windows)
}

proof fn lemma_session_with_row_distinct(s: SessionV, r: Row)
    requires
        distinct_indexes::<Window>(s.windows),
    ensures
        distinct_indexes::<Window>(session_with_row(s, r).windows),
        session_with_row(s, r).name == s.name,
{
    lemma_first_index_range(s.windows, numbered(r.window_index));
    let p = first_index(s.windows, numbered(r.window_index));
    let fresh = WindowV {
        name: r.window_name,
        index: r.window_index,
        panes: Seq::empty(),
        active: r.window_active,
    };
    let ws = if p < 0 {
        s.windows.push(fresh)
    } else {
        s.windows
    };
    let q = if p < 0 {
        s.windows.len() as int
    } else {
        p
    };
    assert(distinct_indexes::<Window>(ws)) by {
        if p < 0 {
            assert forall|i: int, j: int| 0 <= i < j < ws.len() implies Window::index_of(
                #[trigger] ws[i],
            ) != Window::index_of(#[trigger] ws[j]) by {
                if j == s.windows.len() {
                    assert(!numbered(r.window_index)(s.windows[i]));
                } else {
                    assert(ws[i] == s.windows[i] && ws[j] == s.windows[j]);
                }
            }
        }
    }
    let u = ws.update(q, window_with_row(ws[q], r));
    assert forall|i: int, j: int| 0 <= i < j < u.len() implies Window::index_of(#[trigger] u[i])
        != Window::index_of(#[trigger] u[j]) by {
        assert(Window::index_of(ws[i]) != Window::index_of(ws[j]));
    }
}

proof fn lemma_tree_with_row_unambiguous(ss: Seq<SessionV>, r: Row)
    requires
        tree_is_unambiguous(ss),
    ensures
        tree_is_unambiguous(tree_with_row(ss, r)),
{
    lemma_first_index_range(ss, named(r.session));
    let p = first_index(ss, named(r.session));
    let fresh = SessionV { name: r.session, windows: Seq::empty() };
    let ss1 = if p < 0 {
        ss.push(fresh)
    } else {
        ss
    };
    let q = if p < 0 {
        ss.len() as int
    } else {
        p
    };
    assert(tree_is_unambiguous(ss1)) by {
        if p < 0 {
            assert forall|i: int, j: int| 0 <= i < j < ss1.len() implies (#[trigger] ss1[i]).name
                != (#[trigger] ss1[j]).name by {
                if j == ss.len() {
                    assert(!named(r.session)(ss[i]));
                } else {
                    assert(ss1[i] == ss[i] && ss1[j] == ss[j]);
                }
            }
            assert forall|i: int| 0 <= i < ss1.len() implies distinct_indexes::<Window>(
                #[trigger] ss1[i].windows,
            ) by {
                if i < ss.len() {
                    assert(ss1[i] == ss[i]);
                }
            }
        }
    }
    lemma_session_with_row_distinct(ss1[q], r);
    let u = ss1.update(q, session_with_row(ss1[q], r));
    assert forall|i: int, j: int| 0 <= i < j < u.len() implies (#[trigger] u[i]).name != (
    #[trigger] u[j]).name by {
        assert(ss1[i].name != ss1[j].name);
    }
}

proof fn lemma_group_unambiguous(rows: Seq<Row>)
    ensures
        tree_is_unambiguous(group_rows(rows)),
    decreases rows.len(),
{
    if rows.len() > 0 {
        lemma_group_unambiguous(rows.drop_last());
        lemma_tree_with_row_unambiguous(group_rows(rows.drop_last()), rows.last());
    }
}

/// Each session appears once, and each window once in its session: the
/// parser groups lines by session name and window index.
pub proof fn lemma_tree_is_unambiguous(output: Seq<char>)
    ensures
        tree_is_unambiguous(tree_of(output)),
{
    let g = group_rows(rows_of(output));
    lemma_group_unambiguous(rows_of(output));
    let t = tree_of(output);
    assert forall|i: int, j: int| 0 <= i < j < t.len() implies (#[trigger] t[i]).name != (
    #[trigger] t[j]).name by {
        assert(t[i].name == g[i].name && t[j].name == g[j].name);
    }
    assert forall|i: int| 0 <= i < t.len() implies distinct_indexes::<Window>(
        #[trigger] t[i].windows,
    ) by {
        let sorted = sorted_by_index::<Window>(g[i].windows);
        lemma_sorted_distinct::<Window>(g[i].windows);
        let ws = t[i].windows;
        assert(ws == sorted.map_values(|w: WindowV| sort_window(w)));
        assert forall|a: int, b: int| 0 <= a < b < ws.len() implies Window::index_of(
            #[trigger] ws[a],
        ) != Window::index_of(#[trigger] ws[b]) by {
            assert(ws[a].index == sorted[a].index && ws[b].index == sorted[b].index);
        }
    }
}

/// Whether a line has the ten fields of a row.
pub open spec fn is_row_line(l: Seq<char>) -> bool {
    split_on(l, '\t').len() >= 10
}

proof fn lemma_rows_of_row_lines(lines: Seq<Seq<char>>)
    ensures
        rows_of_lines(lines.filter(|l: Seq<char>| is_row_line(l))) == rows_of_lines(lines),
    decreases lines.len(),
{
    let p = |l: Seq<char>| is_row_line(l);
    if lines.len() > 0 {
        let d = lines.drop_last();
        lemma_rows_of_row_lines(d);
        reveal_with_fuel(Seq::filter, 1);
        assert(lines.filter(p) == (if p(lines.last()) {
            d.filter(p).push(lines.last())
        } else {
            d.filter(p)
        }));
        if p(lines.last()) {
            assert(d.filter(p).push(lines.last()).drop_last() =~= d.filter(p));
        }
    }
}

/// Lines with fewer than ten fields leave no trace: an output whose lines are
/// those of `output` with the short ones taken out gives the same tree.
pub proof fn lemma_short_lines_ignored(output: Seq<char>, shorter: Seq<char>)
    requires
        lines_of(shorter) == lines_of(output).filter(|l: Seq<char>| is_row_line(l)),
    ensures
        tree_of(shorter) == tree_of(output),
        rows_of(shorter) == rows_of(output),
{
    lemma_rows_of_row_lines(lines_of(output));
}

/// Whether a row belongs to the window `index` of the session `name`.
pub open spec fn in_window(name: Seq<char>, index: usize) -> spec_fn(Row) -> bool {
    |r: Row| r.session == name && r.window_index == index
}

/// The panes that rows describe, in the order of the rows.
pub open spec fn row_panes(rows: Seq<Row>) -> Seq<PaneV> {
    rows.map_values(|r: Row| r.pane)
}

/// Whether `w`, a window of the session `name`, is what the rows of that
/// session and window index say: there is at least one, its panes are theirs
/// in line order, its name comes from the first and its active flag from the
/// last.
pub open spec fn window_follows_rows(rows: Seq<Row>, name: Seq<char>, w: WindowV) -> bool {
    let rs = rows.filter(in_window(name, w.index));
    &&& rs.len() > 0
    &&& w.panes == row_panes(rs)
    &&& w.name == rs[0].window_name
    &&& w.active == rs.last().window_active
}

/// Whether some session of `ss` named `name` has a window with index `index`.
pub open spec fn has_window(ss: Seq<SessionV>, name: Seq<char>, index: usize) -> bool {
    exists|i: int, j: int|
        #![trigger ss[i].windows[j]]
        0 <= i < ss.len() && 0 <= j < ss[i].windows.len() && ss[i].name == name
            && ss[i].windows[j].index == index
}

/// The distinct values of `s`, in the order they first occur.
pub open spec fn first_occurrences(s: Seq<Seq<char>>) -> Seq<Seq<char>>
    decreases s.len(),
{
    if s.len() == 0 {
        s
    } else {
        let d = first_occurrences(s.drop_last());
        if d.contains(s.last()) {
            d
        } else {
            d.push(s.last())
        }
    }
}

/// The names of the sessions of `ss`, in order.
pub open spec fn session_names(ss: Seq<SessionV>) -> Seq<Seq<char>> {
    ss.map_values(|s: SessionV| s.name)
}

/// The session names that rows carry, in the order of the rows.
pub open spec fn row_sessions(rows: Seq<Row>) -> Seq<Seq<char>> {
    rows.map_values(|r: Row| r.session)
}

/// How the grouped tree follows the rows.
pub open spec fn group_follows_rows(g: Seq<SessionV>, rows: Seq<Row>) -> bool {
    &&& forall|i: int| 0 <= i < g.len() ==> (#[trigger] g[i]).windows.len() > 0
    &&& forall|i: int, j: int|
        0 <= i < g.len() && 0 <= j < g[i].windows.len() ==> window_follows_rows(
            rows,
            g[i].name,
            #[trigger] g[i].windows[j],
        )
    &&& forall|k: int|
        0 <= k < rows.len() ==> has_window(g, (#[trigger] rows[k]).session, rows[k].window_index)
    &&& session_names(g) == first_occurrences(row_sessions(rows))
}

proof fn lemma_window_gets_row(rows: Seq<Row>, name: Seq<char>, w: WindowV, r: Row)
    requires
        r.session == name,
        r.window_index == w.index,
        window_follows_rows(rows, name, w) || (rows.filter(in_window(name, w.index)).len() == 0
            && w.panes.len() == 0 && w.name == r.window_name),
    ensures
        window_follows_rows(rows.push(r), name, window_with_row(w, r)),
{
    let p = in_window(name, w.index);
    let rs = rows.filter(p);
    lemma_filter_push(rows, r, p);
    let rs2 = rows.push(r).filter(p);
    assert(rs2 == rs.push(r));
    assert(row_panes(rs.push(r)) =~= row_panes(rs).push(r.pane));
    if rs.len() == 0 {
        assert(row_panes(rs) =~= Seq::<PaneV>::empty());
        assert(w.panes =~= row_panes(rs));
    }
}

proof fn lemma_window_skips_row(rows: Seq<Row>, name: Seq<char>, w: WindowV, r: Row)
    requires
        window_follows_rows(rows, name, w),
        !(r.session == name && r.window_index == w.index),
    ensures
        window_follows_rows(rows.push(r), name, w),
{
    lemma_filter_push(rows, r, in_window(name, w.index));
}

proof fn lemma_row_sessions_push(rows: Seq<Row>, r: Row)
    ensures
        row_sessions(rows.push(r)).drop_last() == row_sessions(rows),
        row_sessions(rows.push(r)).last() == r.session,
        row_sessions(rows.push(r)).len() > 0,
{
    assert(row_sessions(rows.push(r)).drop_last() =~= row_sessions(rows));
}

proof fn lemma_tree_with_row_follows(g: Seq<SessionV>, rows: Seq<Row>, r: Row)
    requires
        tree_is_unambiguous(g),
        group_follows_rows(g, rows),
    ensures
        group_follows_rows(tree_with_row(g, r), rows.push(r)),
{
    let rows2 = rows.push(r);
    lemma_first_index_range(g, named(r.session));
    let p = first_index(g, named(r.session));
    let fresh = SessionV { name: r.session, windows: Seq::empty() };
    let ss1 = if p < 0 {
        g.push(fresh)
    } else {
        g
    };
    let q = if p < 0 {
        g.len() as int
    } else {
        p
    };
    let s0 = ss1[q];
    assert(s0.name == r.session);
    lemma_first_index_range(s0.windows, numbered(r.window_index));
    let pw = first_index(s0.windows, numbered(r.window_index));
    let fw = WindowV {
        name: r.window_name,
        index: r.window_index,
        panes: Seq::empty(),
        active: r.window_active,
    };
    let ws = if pw < 0 {
        s0.windows.push(fw)
    } else {
        s0.windows
    };
    let qw = if pw < 0 {
        s0.windows.len() as int
    } else {
        pw
    };
    let s1 = session_with_row(s0, r);
    assert(s1.windows == ws.update(qw, window_with_row(ws[qw], r)));
    let g2 = tree_with_row(g, r);
    assert(g2 == ss1.update(q, s1));
    // The row's own window: it is new exactly when no earlier row had it.
    let rs = rows.filter(in_window(r.session, r.window_index));
    if pw < 0 {
        if rs.len() > 0 {
            let e = rs[0];
            rows.lemma_filter_pred(in_window(r.session, r.window_index), 0);
            assert(rs.contains(e));
            rows.lemma_filter_contains_rev(in_window(r.session, r.window_index), e);
            let k = choose|k: int| 0 <= k < rows.len() && rows[k] == e;
            assert(has_window(g, rows[k].session, rows[k].window_index));
            let (a, b) = choose|a: int, b: int|
                #![trigger g[a].windows[b]]
                0 <= a < g.len() && 0 <= b < g[a].windows.len() && g[a].name == r.session
                    && g[a].windows[b].index == r.window_index;
            if p < 0 {
                assert(!named(r.session)(g[a]));
            } else {
                assert(a == p);
                assert(!numbered(r.window_index)(s0.windows[b]));
            }
        }
    } else {
        assert(ws[qw] == g[p].windows[pw]);
    }
    lemma_window_gets_row(rows, r.session, ws[qw], r);
    // Every session and window.
    assert forall|i: int| 0 <= i < g2.len() implies (#[trigger] g2[i]).windows.len() > 0 by {
        if i != q {
            assert(g2[i] == g[i]);
        }
    }
    assert forall|i: int, j: int| 0 <= i < g2.len() && 0 <= j < g2[i].windows.len() implies window_follows_rows(
        rows2,
        g2[i].name,
        #[trigger] g2[i].windows[j],
    ) by {
        if i != q {
            assert(g2[i] == g[i]);
            assert(window_follows_rows(rows, g[i].name, g[i].windows[j]));
            if p >= 0 {
                assert(g[i].name != g[p].name);
            } else {
                assert(!named(r.session)(g[i]));
            }
            lemma_window_skips_row(rows, g[i].name, g[i].windows[j], r);
        } else if j != qw {
            assert(g2[i].windows[j] == s0.windows[j]);
            assert(s0 == g[p]);
            assert(window_follows_rows(rows, g[p].name, g[p].windows[j]));
            if pw >= 0 {
                assert(Window::index_of(s0.windows[j]) != Window::index_of(s0.windows[pw]));
            } else {
                assert(!numbered(r.window_index)(s0.windows[j]));
            }
            lemma_window_skips_row(rows, s0.name, s0.windows[j], r);
        }
    }
    assert forall|k: int| 0 <= k < rows2.len() implies has_window(
        g2,
        (#[trigger] rows2[k]).session,
        rows2[k].window_index,
    ) by {
        if k < rows.len() {
            assert(rows2[k] == rows[k]);
            assert(has_window(g, rows[k].session, rows[k].window_index));
            let (a, b) = choose|a: int, b: int|
                #![trigger g[a].windows[b]]
                0 <= a < g.len() && 0 <= b < g[a].windows.len() && g[a].name == rows[k].session
                    && g[a].windows[b].index == rows[k].window_index;
            if a != q {
                assert(g2[a] == g[a]);
                assert(g2[a].windows[b] == g[a].windows[b]);
            } else {
                assert(g2[a].windows[b].index == g[a].windows[b].index);
            }
        } else {
            assert(rows2[k] == r);
            assert(g2[q].windows[qw].index == r.window_index);
        }
    }
    // The order of the sessions.
    lemma_row_sessions_push(rows, r);
    let fo = first_occurrences(row_sessions(rows));
    assert(first_occurrences(row_sessions(rows2)) == if fo.contains(r.session) {
        fo
    } else {
        fo.push(r.session)
    });
    if p >= 0 {
        assert(session_names(g)[p] == r.session);
        assert(fo.contains(r.session));
        assert(session_names(g2) =~= session_names(g));
    } else {
        assert(!fo.contains(r.session)) by {
            if fo.contains(r.session) {
                let t = choose|t: int| 0 <= t < fo.len() && fo[t] == r.session;
                assert(session_names(g)[t] == g[t].name);
                assert(!named(r.session)(g[t]));
            }
        }
        assert(session_names(g2) =~= session_names(g).push(r.session));
    }
}

proof fn lemma_group_follows_rows(rows: Seq<Row>)
    ensures
        group_follows_rows(group_rows(rows), rows),
    decreases rows.len(),
{
    if rows.len() == 0 {
        assert(session_names(group_rows(rows)) =~= first_occurrences(row_sessions(rows)));
    } else {
        let d = rows.drop_last();
        lemma_group_follows_rows(d);
        lemma_group_unambiguous(d);
        lemma_tree_with_row_follows(group_rows(d), d, rows.last());
        assert(d.push(rows.last()) =~= rows);
    }
}

/// Whether `w`, a window of the session `name` in the parsed tree, is what the
/// rows of that session and window index say: there is at least one, its
/// panes are theirs sorted by index, its name comes from the first and its
/// active flag from the last.
pub open spec fn tree_window_follows_rows(rows: Seq<Row>, name: Seq<char>, w: WindowV) -> bool {
    let rs = rows.filter(in_window(name, w.index));
    &&& rs.len() > 0
    &&& w.panes == sorted_by_index::<Pane>(row_panes(rs))
    &&& w.name == rs[0].window_name
    &&& w.active == rs.last().window_active
}

/// How the parsed tree follows the well-formed lines of the output, taken in
/// order as rows:
/// - the sessions are the distinct session names of the rows, in the order
///   they first occur (not sorted by name);
/// - every session has a window, and every window a pane;
/// - a window of a session is the rows with that session name and window
///   index: its panes are theirs (sorted by index), its name is the first
///   row's window name, its active flag the last row's;
/// - every row has its window in the tree.
pub proof fn lemma_tree_follows_rows(output: Seq<char>)
    ensures
        ({
            let rows = rows_of(output);
            let t = tree_of(output);
            &&& session_names(t) == first_occurrences(row_sessions(rows))
            &&& forall|i: int| 0 <= i < t.len() ==> (#[trigger] t[i]).windows.len() > 0
            &&& forall|i: int, j: int|
                0 <= i < t.len() && 0 <= j < t[i].windows.len() ==> tree_window_follows_rows(
                    rows,
                    t[i].name,
                    #[trigger] t[i].windows[j],
                )
            &&& forall|k: int|
                0 <= k < rows.len() ==> has_window(
                    t,
                    (#[trigger] rows[k]).session,
                    rows[k].window_index,
                )
        }),
{
    let rows = rows_of(output);
    let g = group_rows(rows);
    let t = tree_of(output);
    lemma_group_follows_rows(rows);
    lemma_group_unambiguous(rows);
    assert(session_names(t) =~= session_names(g));
    assert forall|i: int| 0 <= i < t.len() implies (#[trigger] t[i]).windows.len() > 0 by {
        lemma_sorted_is_ordered::<Window>(g[i].windows);
    }
    assert forall|i: int, j: int| 0 <= i < t.len() && 0 <= j < t[i].windows.len() implies tree_window_follows_rows(
        rows,
        t[i].name,
        #[trigger] t[i].windows[j],
    ) by {
        let sorted = sorted_by_index::<Window>(g[i].windows);
        lemma_sorted_is_ordered::<Window>(g[i].windows);
        lemma_sorted_elements::<Window>(g[i].windows);
        assert(t[i].windows[j] == sort_window(sorted[j]));
        assert(g[i].windows.contains(sorted[j]));
        let b = choose|b: int| 0 <= b < g[i].windows.len() && g[i].windows[b] == sorted[j];
        assert(window_follows_rows(rows, g[i].name, g[i].windows[b]));
    }
    assert forall|k: int| 0 <= k < rows.len() implies has_window(
        t,
        (#[trigger] rows[k]).session,
        rows[k].window_index,
    ) by {
        assert(has_window(g, rows[k].session, rows[k].window_index));
        let (a, b) = choose|a: int, b: int|
            #![trigger g[a].windows[b]]
            0 <= a < g.len() && 0 <= b < g[a].windows.len() && g[a].name == rows[k].session
                && g[a].windows[b].index == rows[k].window_index;
        let ws = g[a].windows;
        lemma_sorted_distinct::<Window>(ws);
        assert(Window::index_of(ws[b]) == rows[k].window_index);
        assert(has_index::<Window>(ws, rows[k].window_index));
        let sorted = sorted_by_index::<Window>(ws);
        assert(has_index::<Window>(sorted, rows[k].window_index));
        let c = choose|c: int|
            0 <= c < sorted.len() && Window::index_of(#[trigger] sorted[c]) == rows[k].window_index;
        lemma_sorted_is_ordered::<Window>(ws);
        assert(t[a].windows[c].index == sorted[c].index);
    }
}

/// Panes with the same index in one window keep the order of their lines.
pub proof fn lemma_tree_keeps_line_order(output: Seq<char>, i: int, j: int, k: usize)
    requires
        0 <= i < tree_of(output).len(),
        0 <= j < tree_of(output)[i].windows.len(),
    ensures
        tree_of(output)[i].windows[j].panes.filter(has_index_k::<Pane>(k)) == row_panes(
            rows_of(output).filter(
                in_window(tree_of(output)[i].name, tree_of(output)[i].windows[j].index),
            ),
        ).filter(has_index_k::<Pane>(k)),
{
    lemma_tree_follows_rows(output);
    let t = tree_of(output);
    assert(tree_window_follows_rows(rows_of(output), t[i].name, t[i].windows[j]));
    lemma_sort_is_stable::<Pane>(
        row_panes(rows_of(output).filter(in_window(t[i].name, t[i].windows[j].index))),
        k,
    );
}

proof fn lemma_row_from_lines(lines: Seq<Seq<char>>, k: int) -> (m: int)
    requires
        0 <= k < rows_of_lines(lines).len(),
    ensures
        0 <= m < lines.len(),
        split_on(lines[m], '\t').len() >= 10,
        rows_of_lines(lines)[k] == row_of(split_on(lines[m], '\t')),
    decreases lines.len(),
{
    let d = lines.drop_last();
    let before = rows_of_lines(d);
    if k < before.len() {
        let m = lemma_row_from_lines(d, k);
        assert(lines[m] == d[m]);
        m
    } else {
        lines.len() - 1
    }
}

proof fn lemma_row_from_line(output: Seq<char>, r: Row) -> (m: int)
    requires
        rows_of(output).contains(r),
    ensures
        0 <= m < lines_of(output).len(),
        split_on(lines_of(output)[m], '\t').len() >= 10,
        r == row_of(split_on(lines_of(output)[m], '\t')),
{
    let k = choose|k: int| 0 <= k < rows_of(output).len() && rows_of(output)[k] == r;
    lemma_row_from_lines(lines_of(output), k)
}

/// Every pane of the parsed tree comes from one line of the output with at
/// least ten tab-separated fields: the line's first field is the pane's
/// session, its second the window index, and the pane's index, id, active
/// flag, command, path and title are its fourth to ninth fields, in that order
/// (`#{pane_index}`, `#{pane_id}`, `#{pane_active}`, `#{pane_current_command}`,
/// `#{pane_current_path}`, `#{pane_title}`). A field that is not a number is
/// read as index 0, and a flag is set by the field `1` alone.
pub proof fn lemma_panes_come_from_lines(output: Seq<char>, i: int, j: int, q: int)
    requires
        0 <= i < tree_of(output).len(),
        0 <= j < tree_of(output)[i].windows.len(),
        0 <= q < tree_of(output)[i].windows[j].panes.len(),
    ensures
        exists|m: int|
            #![trigger lines_of(output)[m]]
            0 <= m < lines_of(output).len() && ({
                let f = split_on(lines_of(output)[m], '\t');
                let w = tree_of(output)[i].windows[j];
                let p = w.panes[q];
                &&& f.len() >= 10
                &&& f[0] == tree_of(output)[i].name
                &&& w.index == (match parse_usize_spec(f[1]) {
                    Some(v) => v,
                    None => 0usize,
                })
                &&& p.index == (match parse_usize_spec(f[3]) {
                    Some(v) => v,
                    None => 0usize,
                })
                &&& p.id == f[4]
                &&& p.active == (f[5] == seq!['1'])
                &&& p.current_command == f[6]
                &&& p.current_path == f[7]
                &&& p.title == f[8]
            }),
{
    let t = tree_of(output);
    let rows = rows_of(output);
    lemma_tree_follows_rows(output);
    let w = t[i].windows[j];
    assert(tree_window_follows_rows(rows, t[i].name, w));
    let pred = in_window(t[i].name, w.index);
    let rs = rows.filter(pred);
    let ps = row_panes(rs);
    lemma_sorted_elements::<Pane>(ps);
    assert(ps.contains(w.panes[q]));
    let c = choose|c: int| 0 <= c < ps.len() && ps[c] == w.panes[q];
    assert(rs[c].pane == w.panes[q]);
    rows.lemma_filter_pred(pred, c);
    assert(rs.contains(rs[c]));
    rows.lemma_filter_contains_rev(pred, rs[c]);
    let m = lemma_row_from_line(output, rs[c]);
    assert(lines_of(output)[m] == lines_of(output)[m]);
}

/// Every window of the parsed tree is named by the third field (`#{window_name}`)
/// of a line of its session and window index, and its active flag is the
/// tenth field (`#{window_active}`) of such a line.
pub proof fn lemma_windows_come_from_lines(output: Seq<char>, i: int, j: int)
    requires
        0 <= i < tree_of(output).len(),
        0 <= j < tree_of(output)[i].windows.len(),
    ensures
        exists|m: int|
            #![trigger lines_of(output)[m]]
            0 <= m < lines_of(output).len() && ({
                let f = split_on(lines_of(output)[m], '\t');
                let w = tree_of(output)[i].windows[j];
                &&& f.len() >= 10
                &&& f[0] == tree_of(output)[i].name
                &&& w.index == (match parse_usize_spec(f[1]) {
                    Some(v) => v,
                    None => 0usize,
                })
                &&& w.name == f[2]
            }),
        exists|m: int|
            #![trigger lines_of(output)[m]]
            0 <= m < lines_of(output).len() && ({
                let f = split_on(lines_of(output)[m], '\t');
                let w = tree_of(output)[i].windows[j];
                &&& f.len() >= 10
                &&& f[0] == tree_of(output)[i].name
                &&& w.index == (match parse_usize_spec(f[1]) {
                    Some(v) => v,
                    None => 0usize,
                })
                &&& w.active == (f[9] == seq!['1'])
            }),
{
    let t = tree_of(output);
    let rows = rows_of(output);
    lemma_tree_follows_rows(output);
    let w = t[i].windows[j];
    assert(tree_window_follows_rows(rows, t[i].name, w));
    let pred = in_window(t[i].name, w.index);
    let rs = rows.filter(pred);
    let n = rs.len() - 1;
    rows.lemma_filter_pred(pred, 0);
    rows.lemma_filter_pred(pred, n);
    assert(rs.contains(rs[0]));
    assert(rs.contains(rs[n]));
    rows.lemma_filter_contains_rev(pred, rs[0]);
    rows.lemma_filter_contains_rev(pred, rs[n]);
    let m0 = lemma_row_from_line(output, rs[0]);
    let m1 = lemma_row_from_line(output, rs[n]);
    assert(lines_of(output)[m0] == lines_of(output)[m0]);
    assert(lines_of(output)[m1] == lines_of(output)[m1]);
}

/// The format asks tmux for the fields in the order the parser reads them:
/// session name, window index, window name, pane index, pane id, pane active
/// flag, command, path, title and window active flag, separated by tabs.
pub proof fn lemma_list_format_fields()
    ensures
        LIST_FORMAT@ == "#{session_name}"@ + seq!['\t'] + "#{window_index}"@ + seq!['\t'] + "#{window_name}"@ + seq!['\t'] + "#{pane_index}"@ + seq!['\t'] + "#{pane_id}"@ + seq!['\t'] + "#{pane_active}"@ + seq!['\t'] + "#{pane_current_command}"@ + seq!['\t'] + "#{pane_current_path}"@ + seq!['\t'] + "#{pane_title}"@ + seq!['\t'] + "#{window_active}"@,
{
    reveal_strlit("#{session_name}\t#{window_index}\t#{window_name}\t#{pane_index}\t#{pane_id}\t#{pane_active}\t#{pane_current_command}\t#{pane_current_path}\t#{pane_title}\t#{window_active}");
    reveal_strlit("#{session_name}");
    reveal_strlit("#{window_index}");
    reveal_strlit("#{window_name}");
    reveal_strlit("#{pane_index}");
    reveal_strlit("#{pane_id}");
    reveal_strlit("#{pane_active}");
    reveal_strlit("#{pane_current_command}");
    reveal_strlit("#{pane_current_path}");
    reveal_strlit("#{pane_title}");
    reveal_strlit("#{window_active}");
    assert(LIST_FORMAT@ =~= "#{session_name}"@ + seq!['\t'] + "#{window_index}"@ + seq!['\t'] + "#{window_name}"@ + seq!['\t'] + "#{pane_index}"@ + seq!['\t'] + "#{pane_id}"@ + seq!['\t'] + "#{pane_active}"@ + seq!['\t'] + "#{pane_current_command}"@ + seq!['\t'] + "#{pane_current_path}"@ + seq!['\t'] + "#{pane_title}"@ + seq!['\t'] + "#{window_active}"@);
}

} // verus!
