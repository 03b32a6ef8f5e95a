//! What the screen shows, as text: the keymap tables that both the help panel
//! and the status bar are rendered from, the status bar and modal overlays of
//! each mode, the details panel, and the centering of popups.

use vstd::prelude::*;
use crate::text::{decimal, owned, push_decimal, views_of};
use crate::model::{PaneV, Target, TargetV, Window, WindowV};
use crate::app::{pane_at, session_named, window_at, App, AppV, Mode, ModeV};
use crate::tmux::{best_layout_for, total_panes};
use crate::order::lemma_filter_push;
use ratatui::layout::{Constraint, Direction, Layout, Rect};

verus! {

// ---------------------------------------------------------------------------
// Key bindings
// ---------------------------------------------------------------------------

/// One key binding: how the help panel lists it, and its compact status-bar
/// hint, if it has one.
pub struct Binding {
    /// Keys as shown in the help panel's left column, e.g. "j/k ↑↓".
    pub help_keys: &'static str,
    /// Description shown in the help panel.
    pub help_desc: &'static str,
    /// Compact ("key", "label") pair for the status bar; `None` to omit it there.
    pub status: Option<(&'static str, &'static str)>,
}

/// The mathematical value of a [`Binding`].
pub struct BindingV {
    pub keys: Seq<char>,
    pub desc: Seq<char>,
    pub status: Option<(Seq<char>, Seq<char>)>,
}

impl View for Binding {
    type V = BindingV;

    open spec fn view(&self) -> BindingV {
        BindingV {
            keys: self.help_keys@,
            desc: self.help_desc@,
            status: match self.status {
                Some((k, l)) => Some((k@, l@)),
                None => None,
            },
        }
    }
}

/// A binding's value from its parts.
pub open spec fn bind(keys: Seq<char>, desc: Seq<char>, status: Option<(Seq<char>, Seq<char>)>) -> BindingV {
    BindingV { keys, desc, status }
}

/// Navigation keys: the top group of the help panel.
pub open spec fn nav_bindings_spec() -> Seq<BindingV> {
    seq![
        bind("j/k ↑↓"@, "Navigate"@, None),
        bind("←/→"@, "Collapse/Expand"@, None),
        bind("Space"@, "Toggle collapse"@, None),
        bind("Enter"@, "Focus & exit TUI"@, Some(("Enter"@, "focus"@))),
    ]
}

/// Action keys: the bottom group of the help panel.
pub open spec fn action_bindings_spec() -> Seq<BindingV> {
    seq![
        bind("m"@, "Move pane"@, Some(("m"@, "move"@))),
        bind("s"@, "Swap pane"@, Some(("s"@, "swap"@))),
        bind("e"@, "Equalize pane layout"@, Some(("e"@, "equalize"@))),
        bind("r"@, "Rename session/window/pane"@, Some(("r"@, "rename"@))),
        bind("n"@, "New window in session"@, Some(("n"@, "new window"@))),
        bind("N"@, "New session"@, Some(("N"@, "new session"@))),
        bind("p"@, "Toggle preview/help"@, Some(("p"@, "preview"@))),
        bind("x/d"@, "Kill item"@, Some(("x"@, "kill"@))),
        bind("q/Esc"@, "Quit"@, None),
    ]
}

/// The navigation key bindings.
pub fn nav_bindings() -> (r: Vec<Binding>)
    ensures
        views_of(r@) == nav_bindings_spec(),
{
    let r = vec![
        Binding { help_keys: "j/k ↑↓", help_desc: "Navigate", status: None },
        Binding { help_keys: "←/→", help_desc: "Collapse/Expand", status: None },
        Binding { help_keys: "Space", help_desc: "Toggle collapse", status: None },
        Binding { help_keys: "Enter", help_desc: "Focus & exit TUI", status: Some(("Enter", "focus")) },
    ];
    assert(views_of(r@) =~= nav_bindings_spec());
    r
}

/// The action key bindings.
pub fn action_bindings() -> (r: Vec<Binding>)
    ensures
        views_of(r@) == action_bindings_spec(),
{
    let r = vec![
        Binding { help_keys: "m", help_desc: "Move pane", status: Some(("m", "move")) },
        Binding { help_keys: "s", help_desc: "Swap pane", status: Some(("s", "swap")) },
        Binding { help_keys: "e", help_desc: "Equalize pane layout", status: Some(("e", "equalize")) },
        Binding {
            help_keys: "r",
            help_desc: "Rename session/window/pane",
            status: Some(("r", "rename")),
        },
        Binding { help_keys: "n", help_desc: "New window in session", status: Some(("n", "new window")) },
        Binding { help_keys: "N", help_desc: "New session", status: Some(("N", "new session")) },
        Binding { help_keys: "p", help_desc: "Toggle preview/help", status: Some(("p", "preview")) },
        Binding { help_keys: "x/d", help_desc: "Kill item", status: Some(("x", "kill")) },
        Binding { help_keys: "q/Esc", help_desc: "Quit", status: None },
    ];
    assert(views_of(r@) =~= action_bindings_spec());
    r
}

// ---------------------------------------------------------------------------
// Joining and padding text
// ---------------------------------------------------------------------------

/// The parts with `sep` between each two neighbours.
pub open spec fn joined(parts: Seq<Seq<char>>, sep: Seq<char>) -> Seq<char>
    decreases parts.len(),
{
    if parts.len() == 0 {
        Seq::empty()
    } else if parts.len() == 1 {
        parts[0]
    } else {
        joined(parts.drop_last(), sep) + sep + parts.last()
    }
}

/// Joins the parts with `sep` between each two neighbours.
pub fn join(parts: &Vec<String>, sep: &str) -> (r: String)
    ensures
        r@ == joined(views_of(parts@), sep@),
{
    let ghost ps = views_of(parts@);
    let mut r = String::new();
    let mut i: usize = 0;
    assert(ps.take(0) =~= Seq::<Seq<char>>::empty());
    while i < parts.len()
        invariant
            i <= parts@.len(),
            ps == views_of(parts@),
            r@ == joined(ps.take(i as int), sep@),
        decreases parts@.len() - i,
    {
        assert(ps.take(i + 1).drop_last() == ps.take(i as int));
        assert(ps.take(i + 1).last() == ps[i as int]);
        if i > 0 {
            r.append(sep);
        } else {
            assert(r@ =~= Seq::<char>::empty());
        }
        r.append(parts[i].as_str());
        proof {
            if i == 0 {
                assert(r@ =~= ps[0]);
            }
        }
        i += 1;
    }
    assert(ps.take(parts@.len() as int) == ps);
    r
}

/// `s` padded with spaces on the right to `width` characters, as `{:<width}`
/// formats it.
pub open spec fn pad_right(s: Seq<char>, width: nat) -> Seq<char> {
    if s.len() < width {
        s + Seq::new((width - s.len()) as nat, |i: int| ' ')
    } else {
        s
    }
}

// ---------------------------------------------------------------------------
// Help panel and status hints
// ---------------------------------------------------------------------------

/// One help panel row.
pub open spec fn help_row(b: BindingV) -> Seq<char> {
    pad_right(b.keys, 8) + ": "@ + b.desc
}

/// The help panel rows of a group of bindings.
pub open spec fn help_rows(bs: Seq<BindingV>) -> Seq<Seq<char>> {
    bs.map_values(|b: BindingV| help_row(b))
}

/// The help panel body: the navigation rows, a divider, the action rows.
pub open spec fn help_text_spec() -> Seq<char> {
    joined(help_rows(nav_bindings_spec()), seq!['\n']) + "\n─────────────────────────\n"@
        + joined(help_rows(action_bindings_spec()), seq!['\n'])
}

fn help_row_of(b: &Binding) -> (r: String)
    ensures
        r@ == help_row(b@),
{
    let mut r = owned(b.help_keys);
    let n = b.help_keys.unicode_len();
    let mut k: usize = n;
    while k < 8
        invariant
            n == b@.keys.len(),
            n <= k,
            k <= 8 || k == n,
            r@ == b@.keys + Seq::new((k - n) as nat, |i: int| ' '),
        decreases 8 - k,
    {
        crate::text::push_char(&mut r, ' ');
        assert(r@ =~= b@.keys + Seq::new((k + 1 - n) as nat, |i: int| ' '));
        k += 1;
    }
    proof {
        if n >= 8 {
            assert(r@ =~= b@.keys);
        }
    }
    r.append(": ");
    r.append(b.help_desc);
    assert(r@ =~= help_row(b@));
    r
}

fn help_rows_of(bs: &Vec<Binding>) -> (r: Vec<String>)
    ensures
        views_of(r@) == help_rows(views_of(bs@)),
{
    let mut r: Vec<String> = Vec::new();
    let mut i: usize = 0;
    while i < bs.len()
        invariant
            i <= bs@.len(),
            views_of(r@) == help_rows(views_of(bs@)).take(i as int),
        decreases bs@.len() - i,
    {
        let ghost before = views_of(r@);
        r.push(help_row_of(&bs[i]));
        assert(views_of(r@) =~= before.push(help_row(bs@[i as int]@)));
        assert(help_rows(views_of(bs@)).take(i + 1) =~= help_rows(views_of(bs@)).take(i as int).push(
            help_row(bs@[i as int]@),
        ));
        i += 1;
    }
    assert(help_rows(views_of(bs@)).take(i as int) =~= help_rows(views_of(bs@)));
    r
}

/// Render the help panel body (two groups separated by a divider).
pub fn help_text() -> (r: String)
    ensures
        r@ == help_text_spec(),
{
    let nav = help_rows_of(&nav_bindings());
    let actions = help_rows_of(&action_bindings());
    let mut r = join(&nav, "\n");
    proof {
        reveal_strlit("\n");
    }
    assert("\n"@ =~= seq!['\n']);
    r.append("\n─────────────────────────\n");
    r.append(join(&actions, "\n").as_str());
    r
}

/// The status-bar hints of a group of bindings: `key=label` for those that
/// have one.
pub open spec fn hints(bs: Seq<BindingV>) -> Seq<Seq<char>>
    decreases bs.len(),
{
    if bs.len() == 0 {
        Seq::empty()
    } else {
        let before = hints(bs.drop_last());
        match bs.last().status {
            Some((key, label)) => before.push(key + seq!['='] + label),
            None => before,
        }
    }
}

/// The compact normal-mode hint line: action hints, then navigation hints.
pub open spec fn status_hints_spec() -> Seq<char> {
    joined(hints(action_bindings_spec() + nav_bindings_spec()), "  "@)
}

/// The hint of a binding: `key=label`, empty for one without a status pair.
pub open spec fn hint_of(b: BindingV) -> Seq<char> {
    match b.status {
        Some((key, label)) => key + seq!['='] + label,
        None => Seq::empty(),
    }
}

/// The key of a binding's hint, empty for one without a status pair.
pub open spec fn hint_key(b: BindingV) -> Seq<char> {
    match b.status {
        Some((key, _)) => key,
        None => Seq::empty(),
    }
}

/// Whether a binding has a status-bar hint.
pub open spec fn has_hint(b: BindingV) -> bool {
    b.status is Some
}

/// Whether `k` is one of the keys that a help row lists as `keys`: all of it,
/// or the part before its first `/`.
pub open spec fn names_key(keys: Seq<char>, k: Seq<char>) -> bool {
    keys == k || keys.take(k.len() as int + 1) == k.push('/')
}

proof fn lemma_hints_filter(bs: Seq<BindingV>)
    ensures
        hints(bs) == bs.filter(|b: BindingV| has_hint(b)).map_values(|b: BindingV| hint_of(b)),
    decreases bs.len(),
{
    let p = |b: BindingV| has_hint(b);
    if bs.len() == 0 {
        assert(bs.filter(p).map_values(|b: BindingV| hint_of(b)) =~= Seq::<Seq<char>>::empty());
    } else {
        let d = bs.drop_last();
        lemma_hints_filter(d);
        lemma_filter_push(d, bs.last(), p);
        assert(d.push(bs.last()) =~= bs);
        assert(d.filter(p).push(bs.last()).map_values(|b: BindingV| hint_of(b)) =~= d.filter(
            p,
        ).map_values(|b: BindingV| hint_of(b)).push(hint_of(bs.last())));
    }
}

/// The status bar and the help panel tell of the same bindings: the hints are
/// those of the action bindings and then of the navigation bindings that have
/// one, in the help panel's order, and each hint's key is a key that the help
/// panel lists for that binding.
pub proof fn lemma_hints_follow_help()
    ensures
        hints(action_bindings_spec() + nav_bindings_spec()) == (action_bindings_spec()
            + nav_bindings_spec()).filter(|b: BindingV| has_hint(b)).map_values(
            |b: BindingV| hint_of(b),
        ),
        forall|i: int|
            0 <= i < (action_bindings_spec() + nav_bindings_spec()).len() && has_hint(
                #[trigger] (action_bindings_spec() + nav_bindings_spec())[i],
            ) ==> names_key(
                (action_bindings_spec() + nav_bindings_spec())[i].keys,
                hint_key((action_bindings_spec() + nav_bindings_spec())[i]),
            ),
{
    lemma_hints_filter(action_bindings_spec() + nav_bindings_spec());
    reveal_strlit("m");
    reveal_strlit("s");
    reveal_strlit("e");
    reveal_strlit("r");
    reveal_strlit("n");
    reveal_strlit("N");
    reveal_strlit("p");
    reveal_strlit("x");
    reveal_strlit("x/d");
    reveal_strlit("Enter");
    let all = action_bindings_spec() + nav_bindings_spec();
    assert("x/d"@.take(2) =~= "x"@.push('/'));
    assert forall|i: int| 0 <= i < all.len() && has_hint(#[trigger] all[i]) implies names_key(
        all[i].keys,
        hint_key(all[i]),
    ) by {
        if i < 9 {
            assert(all[i] == action_bindings_spec()[i]);
        } else {
            assert(all[i] == nav_bindings_spec()[i - 9]);
        }
    }
}

fn push_hints(out: &mut Vec<String>, bs: &Vec<Binding>, Ghost(prefix): Ghost<Seq<BindingV>>)
    requires
        views_of(old(out)@) == hints(prefix),
    ensures
        views_of(final(out)@) == hints(prefix + views_of(bs@)),
{
    let mut i: usize = 0;
    assert(prefix + views_of(bs@).take(0) =~= prefix);
    while i < bs.len()
        invariant
            i <= bs@.len(),
            views_of(out@) == hints(prefix + views_of(bs@).take(i as int)),
        decreases bs@.len() - i,
    {
        let ghost seen = prefix + views_of(bs@).take(i as int);
        let ghost more = prefix + views_of(bs@).take(i + 1);
        assert(more.drop_last() =~= seen);
        assert(more.last() == bs@[i as int]@);
        match bs[i].status {
            Some((key, label)) => {
                let mut h = owned(key);
                h.append("=");
                proof {
                    reveal_strlit("=");
                }
                assert("="@ =~= seq!['=']);
                h.append(label);
                let ghost before = views_of(out@);
                out.push(h);
                assert(views_of(out@) =~= before.push(key@ + seq!['='] + label@));
            },
            None => {},
        }
        i += 1;
    }
    assert(views_of(bs@).take(i as int) =~= views_of(bs@));
}

/// Render the compact normal-mode hint string for the status bar.
pub fn status_hints() -> (r: String)
    ensures
        r@ == status_hints_spec(),
{
    let mut parts: Vec<String> = Vec::new();
    assert(views_of(parts@) =~= hints(Seq::empty()));
    push_hints(&mut parts, &action_bindings(), Ghost(Seq::empty()));
    assert(Seq::<BindingV>::empty() + action_bindings_spec() =~= action_bindings_spec());
    push_hints(&mut parts, &nav_bindings(), Ghost(action_bindings_spec()));
    join(&parts, "  ")
}

// ---------------------------------------------------------------------------
// Styled pieces of text
// ---------------------------------------------------------------------------

/// The colours the organizer draws with.
#[derive(Clone, Copy, Debug, PartialEq, Eq)]
pub enum Color {
    Green,
    Magenta,
    LightMagenta,
    Yellow,
    LightYellow,
    Red,
    LightRed,
    Cyan,
    LightBlue,
    White,
    Gray,
    DarkGray,
}

/// A run of text in one style: a foreground colour (or the default) and
/// whether it is bold.
pub struct Piece {
    pub text: String,
    pub color: Option<Color>,
    pub bold: bool,
}

/// The mathematical value of a [`Piece`].
pub struct PieceV {
    pub text: Seq<char>,
    pub color: Option<Color>,
    pub bold: bool,
}

impl View for Piece {
    type V = PieceV;

    open spec fn view(&self) -> PieceV {
        PieceV { text: self.text@, color: self.color, bold: self.bold }
    }
}

/// A bold heading in a colour.
pub open spec fn heading(text: Seq<char>, c: Color) -> PieceV {
    PieceV { text, color: Some(c), bold: true }
}

/// Text in a colour.
pub open spec fn tinted(text: Seq<char>, c: Color) -> PieceV {
    PieceV { text, color: Some(c), bold: false }
}

/// Text in the default style.
pub open spec fn plain(text: Seq<char>) -> PieceV {
    PieceV { text, color: None, bold: false }
}

fn piece(text: String, color: Option<Color>, bold: bool) -> (r: Piece)
    ensures
        r@ == (PieceV { text: text@, color, bold }),
{
    Piece { text, color, bold }
}

// ---------------------------------------------------------------------------
// The status bar
// ---------------------------------------------------------------------------

/// The status bar of a mode: its name, what it acts on, and its keys.
pub open spec fn status_pieces(m: ModeV) -> Seq<PieceV> {
    match m {
        ModeV::Normal => seq![
            heading("NORMAL"@, Color::Green),
            plain("  "@ + status_hints_spec()),
        ],
        ModeV::MovePaneSelect { src_label, .. } => seq![
            heading("MOVE PANE "@, Color::Magenta),
            tinted(src_label, Color::Yellow),
            plain("  →  navigate to target then:  v=split-v  h=split-h  w=new-window  Esc=cancel"@),
        ],
        ModeV::MoveWindowSelect { src_label, .. } => seq![
            heading("MOVE WINDOW "@, Color::Magenta),
            tinted(src_label, Color::Yellow),
            plain(
                "  →  navigate to target then:  Enter=move (new window)  m=merge (join all panes)  Esc=cancel"@,
            ),
        ],
        ModeV::SwapSelect { src_label, .. } => seq![
            heading("SWAP "@, Color::Magenta),
            tinted(src_label, Color::Yellow),
            plain("  →  navigate to target pane then Enter=swap  Esc=cancel"@),
        ],
        ModeV::RenameInput { target, .. } => seq![
            heading("RENAME "@, Color::Yellow),
            plain(target.kind() + "  →  type new name then Enter=save  Esc=cancel"@),
        ],
        ModeV::KillConfirm { label, .. } => seq![
            heading("KILL? "@, Color::Red),
            tinted(label, Color::Yellow),
            plain("  →  y=yes  n=cancel"@),
        ],
        ModeV::NewSession { .. } => seq![
            heading("NEW SESSION"@, Color::Cyan),
            plain("  →  type session name then Enter=create  Esc=cancel"@),
        ],
        ModeV::NewWindow { session, .. } => seq![
            heading("NEW WINDOW"@, Color::Cyan),
            plain(
                " in ["@ + session
                    + "]  →  type window name (optional) then Enter=create  Esc=cancel"@,
            ),
        ],
        ModeV::EqualizeConfirm { window_name, num_panes, .. } => seq![
            heading("EQUALIZE "@, Color::LightBlue),
            tinted(window_name, Color::Yellow),
            plain(
                " ("@ + decimal(num_panes as nat)
                    + " panes)  →  Enter=auto  t=tiled  h=horizontal  v=vertical  m=main-h  Esc=cancel"@,
            ),
        ],
        ModeV::Error(err) => seq![
            heading("ERROR "@, Color::Red),
            tinted(err, Color::LightRed),
            plain("  →  Enter/Esc to dismiss"@),
        ],
    }
}

/// Build the bottom status bar line for the current mode.
pub fn status_line(mode: &Mode) -> (r: Vec<Piece>)
    ensures
        views_of(r@) == status_pieces(mode@),
{
    let r = match mode {
        Mode::Normal => {
            let mut hint = owned("  ");
            hint.append(status_hints().as_str());
            vec![piece(owned("NORMAL"), Some(Color::Green), true), piece(hint, None, false)]
        },
        Mode::MovePaneSelect { src_label, .. } => vec![
            piece(owned("MOVE PANE "), Some(Color::Magenta), true),
            piece(src_label.clone(), Some(Color::Yellow), false),
            piece(
                owned(
                    "  →  navigate to target then:  v=split-v  h=split-h  w=new-window  Esc=cancel",
                ),
                None,
                false,
            ),
        ],
        Mode::MoveWindowSelect { src_label, .. } => vec![
            piece(owned("MOVE WINDOW "), Some(Color::Magenta), true),
            piece(src_label.clone(), Some(Color::Yellow), false),
            piece(
                owned(
                    "  →  navigate to target then:  Enter=move (new window)  m=merge (join all panes)  Esc=cancel",
                ),
                None,
                false,
            ),
        ],
        Mode::SwapSelect { src_label, .. } => vec![
            piece(owned("SWAP "), Some(Color::Magenta), true),
            piece(src_label.clone(), Some(Color::Yellow), false),
            piece(owned("  →  navigate to target pane then Enter=swap  Esc=cancel"), None, false),
        ],
        Mode::RenameInput { target, .. } => {
            let mut t = owned(target.kind());
            t.append("  →  type new name then Enter=save  Esc=cancel");
            vec![piece(owned("RENAME "), Some(Color::Yellow), true), piece(t, None, false)]
        },
        Mode::KillConfirm { label, .. } => vec![
            piece(owned("KILL? "), Some(Color::Red), true),
            piece(label.clone(), Some(Color::Yellow), false),
            piece(owned("  →  y=yes  n=cancel"), None, false),
        ],
        Mode::NewSession { .. } => vec![
            piece(owned("NEW SESSION"), Some(Color::Cyan), true),
            piece(owned("  →  type session name then Enter=create  Esc=cancel"), None, false),
        ],
        Mode::NewWindow { session, .. } => {
            let mut t = owned(" in [");
            t.append(session.as_str());
            t.append("]  →  type window name (optional) then Enter=create  Esc=cancel");
            vec![piece(owned("NEW WINDOW"), Some(Color::Cyan), true), piece(t, None, false)]
        },
        Mode::EqualizeConfirm { window_name, num_panes, .. } => {
            let mut t = owned(" (");
            push_decimal(&mut t, *num_panes);
            t.append(
                " panes)  →  Enter=auto  t=tiled  h=horizontal  v=vertical  m=main-h  Esc=cancel",
            );
            vec![
                piece(owned("EQUALIZE "), Some(Color::LightBlue), true),
                piece(window_name.clone(), Some(Color::Yellow), false),
                piece(t, None, false),
            ]
        },
        Mode::Error(err) => vec![
            piece(owned("ERROR "), Some(Color::Red), true),
            piece(err.clone(), Some(Color::LightRed), false),
            piece(owned("  →  Enter/Esc to dismiss"), None, false),
        ],
    };
    assert(views_of(r@) =~= status_pieces(mode@));
    r
}

// ---------------------------------------------------------------------------
// Modal overlays
// ---------------------------------------------------------------------------

/// A popup drawn over the screen: its size as percentages of the screen, its
/// title and text, and the colour of its border and title.
pub struct Overlay {
    pub percent_x: u16,
    pub percent_y: u16,
    pub title: String,
    pub body: String,
    pub color: Color,
}

/// The mathematical value of an [`Overlay`].
pub struct OverlayV {
    pub percent_x: u16,
    pub percent_y: u16,
    pub title: Seq<char>,
    pub body: Seq<char>,
    pub color: Color,
}

impl View for Overlay {
    type V = OverlayV;

    open spec fn view(&self) -> OverlayV {
        OverlayV {
            percent_x: self.percent_x,
            percent_y: self.percent_y,
            title: self.title@,
            body: self.body@,
            color: self.color,
        }
    }
}

/// The layout recommended for a number of panes.
pub open spec fn recommended_layout(num_panes: usize) -> Seq<char> {
    if num_panes <= 1 {
        "even-horizontal"@
    } else if num_panes == 2 {
        "even-vertical"@
    } else {
        "tiled"@
    }
}

/// The popup a mode shows, if any.
pub open spec fn overlay_of(m: ModeV) -> Option<OverlayV> {
    match m {
        ModeV::RenameInput { target, input } => Some(
            OverlayV {
                percent_x: 60,
                percent_y: 28,
                title: " ✏ Rename "@ + target.kind() + " "@,
                body: "Enter new name for "@ + target.kind() + ":\n\n▶ "@ + input
                    + "_\n\n[Enter] save  [Esc] cancel"@,
                color: Color::Yellow,
            },
        ),
        ModeV::KillConfirm { label, .. } => Some(
            OverlayV {
                percent_x: 62,
                percent_y: 30,
                title: " ✖ Confirm Kill "@,
                body: "⚠  Kill and permanently destroy:\n\n  "@ + label
                    + "\n\nThis cannot be undone!\n\n[y / Enter] kill     [n / Esc] cancel"@,
                color: Color::Red,
            },
        ),
        ModeV::NewSession { input } => Some(
            OverlayV {
                percent_x: 60,
                percent_y: 28,
                title: " ✚ New Session "@,
                body: "Enter name for the new session:\n\n▶ "@ + input
                    + "_\n\n[Enter] create  [Esc] cancel"@,
                color: Color::Cyan,
            },
        ),
        ModeV::NewWindow { session, input } => Some(
            OverlayV {
                percent_x: 60,
                percent_y: 28,
                title: " ✚ New Window "@,
                body: "New window in session ["@ + session
                    + "]\n\nName (optional, leave blank for default):\n▶ "@ + input
                    + "_\n\n[Enter] create  [Esc] cancel"@,
                color: Color::Cyan,
            },
        ),
        ModeV::EqualizeConfirm { window_name, num_panes, .. } => Some(
            OverlayV {
                percent_x: 65,
                percent_y: 40,
                title: " ⟺ Equalize Panes "@,
                body: "Equalize layout for window ["@ + window_name + "] ("@ + decimal(
                    num_panes as nat,
                ) + " panes)\n\nRecommended layout: "@ + recommended_layout(num_panes)
                    + "\n\nPick a layout:\n  Enter / y  →  auto (recommended: "@
                    + recommended_layout(num_panes)
                    + ")\n  t          →  tiled (grid)\n  h          →  even-horizontal (columns)\n  v          →  even-vertical (rows)\n  m          →  main-horizontal (1 big + rows)\n\n[Esc / n]   →  cancel"@,
                color: Color::LightBlue,
            },
        ),
        ModeV::Error(err) => Some(
            OverlayV {
                percent_x: 60,
                percent_y: 30,
                title: " ✖ Error "@,
                body: "tmux returned an error:\n\n"@ + err + "\n\n[Enter / Esc] dismiss"@,
                color: Color::Red,
            },
        ),
        _ => None,
    }
}

/// The popup the current mode shows, if any.
pub fn overlay(mode: &Mode) -> (r: Option<Overlay>)
    ensures
        match r {
            Some(o) => overlay_of(mode@) == Some(o@),
            None => overlay_of(mode@) is None,
        },
{
    match mode {
        Mode::RenameInput { target, input } => {
            let kind = target.kind();
            let mut title = owned(" ✏ Rename ");
            title.append(kind);
            title.append(" ");
            let mut body = owned("Enter new name for ");
            body.append(kind);
            body.append(":\n\n▶ ");
            body.append(input.as_str());
            body.append("_\n\n[Enter] save  [Esc] cancel");
            Some(Overlay { percent_x: 60, percent_y: 28, title, body, color: Color::Yellow })
        },
        Mode::KillConfirm { label, .. } => {
            let mut body = owned("⚠  Kill and permanently destroy:\n\n  ");
            body.append(label.as_str());
            body.append("\n\nThis cannot be undone!\n\n[y / Enter] kill     [n / Esc] cancel");
            Some(
                Overlay {
                    percent_x: 62,
                    percent_y: 30,
                    title: owned(" ✖ Confirm Kill "),
                    body,
                    color: Color::Red,
                },
            )
        },
        Mode::NewSession { input } => {
            let mut body = owned("Enter name for the new session:\n\n▶ ");
            body.append(input.as_str());
            body.append("_\n\n[Enter] create  [Esc] cancel");
            Some(
                Overlay {
                    percent_x: 60,
                    percent_y: 28,
                    title: owned(" ✚ New Session "),
                    body,
                    color: Color::Cyan,
                },
            )
        },
        Mode::NewWindow { session, input } => {
            let mut body = owned("New window in session [");
            body.append(session.as_str());
            body.append("]\n\nName (optional, leave blank for default):\n▶ ");
            body.append(input.as_str());
            body.append("_\n\n[Enter] create  [Esc] cancel");
            Some(
                Overlay {
                    percent_x: 60,
                    percent_y: 28,
                    title: owned(" ✚ New Window "),
                    body,
                    color: Color::Cyan,
                },
            )
        },
        Mode::EqualizeConfirm { window_name, num_panes, .. } => {
            let layout_name = best_layout_for(*num_panes);
            let mut body = owned("Equalize layout for window [");
            body.append(window_name.as_str());
            body.append("] (");
            push_decimal(&mut body, *num_panes);
            body.append(" panes)\n\nRecommended layout: ");
            body.append(layout_name);
            body.append("\n\nPick a layout:\n  Enter / y  →  auto (recommended: ");
            body.append(layout_name);
            body.append(
                ")\n  t          →  tiled (grid)\n  h          →  even-horizontal (columns)\n  v          →  even-vertical (rows)\n  m          →  main-horizontal (1 big + rows)\n\n[Esc / n]   →  cancel",
            );
            Some(
                Overlay {
                    percent_x: 65,
                    percent_y: 40,
                    title: owned(" ⟺ Equalize Panes "),
                    body,
                    color: Color::LightBlue,
                },
            )
        },
        Mode::Error(err) => {
            let mut body = owned("tmux returned an error:\n\n");
            body.append(err.as_str());
            body.append("\n\n[Enter / Esc] dismiss");
            Some(
                Overlay {
                    percent_x: 60,
                    percent_y: 30,
                    title: owned(" ✖ Error "),
                    body,
                    color: Color::Red,
                },
            )
        },
        _ => None,
    }
}

// ---------------------------------------------------------------------------
// The tree panel, the details panel and the preview panel
// ---------------------------------------------------------------------------

/// The title of the tree panel in a mode.
pub open spec fn tree_title_of(m: ModeV) -> Seq<char> {
    match m {
        ModeV::MovePaneSelect { .. } => " Choose Target to Move Pane "@,
        ModeV::MoveWindowSelect { .. } => " Choose Target to Move Window "@,
        ModeV::SwapSelect { .. } => " Choose Target Pane to Swap "@,
        _ => " Sessions, Windows & Panes "@,
    }
}

/// Whether a mode is one where a target is being chosen.
pub open spec fn is_selecting(m: ModeV) -> bool {
    match m {
        ModeV::MovePaneSelect { .. } | ModeV::MoveWindowSelect { .. } | ModeV::SwapSelect { .. } =>
            true,
        _ => false,
    }
}

/// The title of the tree panel.
pub fn tree_title(mode: &Mode) -> (r: &'static str)
    ensures
        r@ == tree_title_of(mode@),
{
    match mode {
        Mode::MovePaneSelect { .. } => " Choose Target to Move Pane ",
        Mode::MoveWindowSelect { .. } => " Choose Target to Move Window ",
        Mode::SwapSelect { .. } => " Choose Target Pane to Swap ",
        _ => " Sessions, Windows & Panes ",
    }
}

/// Whether a target is being chosen (the tree panel is then highlighted).
pub fn selecting(mode: &Mode) -> (r: bool)
    ensures
        r == is_selecting(mode@),
{
    match mode {
        Mode::MovePaneSelect { .. } | Mode::MoveWindowSelect { .. } | Mode::SwapSelect { .. } => true,
        _ => false,
    }
}

/// The style of a tree row: sessions bold green, windows light yellow, the
/// active pane bold cyan, other panes white.
pub open spec fn row_style_of(a: AppV, t: TargetV) -> (Color, bool) {
    match t {
        TargetV::Session(_) => (Color::Green, true),
        TargetV::Window { .. } => (Color::LightYellow, false),
        TargetV::Pane { session, window_index, id } => match pane_at(
            a.sessions,
            session,
            window_index,
            id,
        ) {
            Some(p) => if p.active {
                (Color::Cyan, true)
            } else {
                (Color::White, false)
            },
            None => (Color::White, false),
        },
    }
}

/// The colour of a tree row and whether it is bold.
pub fn row_style(app: &App, target: &Target) -> (r: (Color, bool))
    ensures
        r == row_style_of(app@, target@),
{
    match target {
        Target::Session(_) => (Color::Green, true),
        Target::Window { .. } => (Color::LightYellow, false),
        Target::Pane { session, window_index, id } => {
            let active = match app.find_pane(session, *window_index, id) {
                Some(p) => p.active,
                None => false,
            };
            if active {
                (Color::Cyan, true)
            } else {
                (Color::White, false)
            }
        },
    }
}

/// `n`, or the largest `usize` where `n` is larger.
pub open spec fn capped(n: nat) -> usize {
    if n <= usize::MAX {
        n as usize
    } else {
        usize::MAX
    }
}

/// The title line of a pane's details, where its title is set and differs
/// from its command.
pub open spec fn title_line(p: PaneV) -> Seq<char> {
    if p.title.len() > 0 && p.title != p.current_command {
        "Title: "@ + p.title + "\n"@
    } else {
        Seq::empty()
    }
}

/// The details panel for the selected row.
pub open spec fn details_of(a: AppV) -> Seq<char> {
    match a.current_target() {
        Some(TargetV::Session(name)) => {
            let (nw, np) = match session_named(a.sessions, name) {
                Some(s) => (s.windows.len(), capped(total_panes(s.windows)) as nat),
                None => (0, 0),
            };
            "Type: Session\n\nName: "@ + name + "\nWindows: "@ + decimal(nw) + "\nTotal Panes: "@
                + decimal(np)
        },
        Some(TargetV::Window { session, index }) => {
            let (name, np) = match window_at(a.sessions, session, index) {
                Some(w) => (w.name, w.panes.len()),
                None => (Seq::empty(), 0),
            };
            "Type: Window\n\nSession: "@ + session + "\nIndex: "@ + decimal(index as nat)
                + "\nName: "@ + name + "\nPanes: "@ + decimal(np)
                + "\n\nPress [e] to equalize pane layout"@
        },
        Some(TargetV::Pane { session, window_index, id }) => match pane_at(
            a.sessions,
            session,
            window_index,
            id,
        ) {
            Some(p) => "Type: Pane\n\nPane ID: "@ + id + "\nIndex: "@ + decimal(p.index as nat)
                + "\nActive: "@ + (if p.active {
                "Yes ●"@
            } else {
                "No"@
            }) + "\nCommand: "@ + p.current_command + "\n"@ + title_line(p) + "Path: "@
                + p.current_path + "\n\nWindow: "@ + decimal(window_index as nat) + "\nSession: "@
                + session,
            None => "Type: Pane\n\nPane ID: "@ + id + "\n(no longer available)"@,
        },
        None => "No item selected.\n\nPress [n] to create a new window\nor [N] for a new session."@,
    }
}

fn total_panes_of(ws: &Vec<Window>) -> (r: usize)
    ensures
        r == capped(total_panes(views_of(ws@))),
{
    let ghost v = views_of(ws@);
    let mut t: usize = 0;
    let mut i: usize = 0;
    assert(v.take(0) =~= Seq::<WindowV>::empty());
    while i < ws.len()
        invariant
            i <= ws@.len(),
            v == views_of(ws@),
            t == capped(total_panes(v.take(i as int))),
        decreases ws@.len() - i,
    {
        assert(v.take(i + 1).drop_last() == v.take(i as int));
        assert(v.take(i + 1).last() == ws@[i as int]@);
        t = t.saturating_add(ws[i].panes.len());
        i += 1;
    }
    assert(v.take(i as int) == v);
    t
}

/// Render the details panel for the selected row.
pub fn details(app: &App) -> (r: String)
    ensures
        r@ == details_of(app@),
{
    match app.current_target() {
        Some(Target::Session(name)) => {
            let (nw, np) = match app.find_session(&name) {
                Some(s) => (s.windows.len(), total_panes_of(&s.windows)),
                None => (0, 0),
            };
            let mut r = owned("Type: Session\n\nName: ");
            r.append(name.as_str());
            r.append("\nWindows: ");
            push_decimal(&mut r, nw);
            r.append("\nTotal Panes: ");
            push_decimal(&mut r, np);
            r
        },
        Some(Target::Window { session, index }) => {
            let (name, np) = match app.find_window(&session, index) {
                Some(w) => (w.name.clone(), w.panes.len()),
                None => (String::new(), 0),
            };
            let mut r = owned("Type: Window\n\nSession: ");
            r.append(session.as_str());
            r.append("\nIndex: ");
            push_decimal(&mut r, index);
            r.append("\nName: ");
            r.append(name.as_str());
            r.append("\nPanes: ");
            push_decimal(&mut r, np);
            r.append("\n\nPress [e] to equalize pane layout");
            r
        },
        Some(Target::Pane { session, window_index, id }) => match app.find_pane(
            &session,
            window_index,
            &id,
        ) {
            Some(p) => {
                let mut r = owned("Type: Pane\n\nPane ID: ");
                r.append(id.as_str());
                r.append("\nIndex: ");
                push_decimal(&mut r, p.index);
                r.append("\nActive: ");
                if p.active {
                    r.append("Yes ●");
                } else {
                    r.append("No");
                }
                r.append("\nCommand: ");
                r.append(p.current_command.as_str());
                r.append("\n");
                let ghost before_title = r@;
                if !p.title.as_str().is_empty() && p.title != p.current_command {
                    r.append("Title: ");
                    r.append(p.title.as_str());
                    r.append("\n");
                } else {
                    assert(r@ =~= before_title + title_line(p@));
                }
                r.append("Path: ");
                r.append(p.current_path.as_str());
                r.append("\n\nWindow: ");
                push_decimal(&mut r, window_index);
                r.append("\nSession: ");
                r.append(session.as_str());
                assert(r@ =~= details_of(app@));
                r
            },
            None => {
                let mut r = owned("Type: Pane\n\nPane ID: ");
                r.append(id.as_str());
                r.append("\n(no longer available)");
                r
            },
        },
        None => owned(
            "No item selected.\n\nPress [n] to create a new window\nor [N] for a new session.",
        ),
    }
}

/// The text of the preview panel.
pub open spec fn preview_text_of(a: AppV) -> Seq<char> {
    match a.preview {
        Some(c) => c,
        None => "No preview available."@,
    }
}

/// The title of the preview panel.
pub open spec fn preview_title_of(a: AppV) -> Seq<char> {
    " "@ + match a.last_previewed {
        Some(id) => "Previewing Pane "@ + id,
        None => "Preview"@,
    } + " (Press 'p' for Help) "@
}

/// The text of the preview panel: the captured pane, or a note that nothing was captured.
pub fn preview_text(app: &App) -> (r: String)
    ensures
        r@ == preview_text_of(app@),
{
    match app.preview_content() {
        Some(c) => c.clone(),
        None => owned("No preview available."),
    }
}

/// The title of the preview panel, naming the previewed pane.
pub fn preview_title(app: &App) -> (r: String)
    ensures
        r@ == preview_title_of(app@),
{
    let mut r = owned(" ");
    match app.last_previewed_pane_id() {
        Some(id) => {
            r.append("Previewing Pane ");
            r.append(id.as_str());
        },
        None => r.append("Preview"),
    }
    r.append(" (Press 'p' for Help) ");
    assert(r@ =~= preview_title_of(app@));
    r
}

// ---------------------------------------------------------------------------
// Popup placement
// ---------------------------------------------------------------------------

/// A rectangle of terminal cells.
#[derive(Clone, Copy, Debug, PartialEq, Eq)]
pub struct Area {
    pub x: u16,
    pub y: u16,
    pub width: u16,
    pub height: u16,
}

/// The number of cells from `start` that ratatui lays out for an extent of
/// `len` cells: `len`, cut where the coordinate range of `u16` ends.
pub open spec fn extent(start: u16, len: u16) -> int {
    if start + len <= u16::MAX {
        len as int
    } else {
        u16::MAX - start
    }
}

/// `pct`% of `len` cells, rounded to the nearest cell, halves up.
pub open spec fn share(len: int, pct: int) -> int {
    (len * pct + 50) / 100
}

/// The middle part when the `len` cells from `start` are split into three
/// parts of `side`%, `mid`% and `side`%: its start and its length. Each cut
/// falls where its share of the extent ends, rounded to the nearest cell.
pub open spec fn middle_part(start: u16, len: u16, side: u16, mid: u16) -> (u16, u16) {
    let l = extent(start, len);
    let a = share(l, side as int);
    let b = share(l, side + mid);
    ((start + a) as u16, (b - a) as u16)
}

/// The middle part lies within the extent that was split.
pub proof fn lemma_middle_part_inside(start: u16, len: u16, side: u16, mid: u16)
    requires
        2 * side + mid <= 100,
    ensures
        ({
            let (s, n) = middle_part(start, len, side, mid);
            &&& s as int == start + share(extent(start, len), side as int)
            &&& n as int == share(extent(start, len), side + mid) - share(
                extent(start, len),
                side as int,
            )
            &&& start <= s
            &&& s + n <= start + len
        }),
{
    let l = extent(start, len);
    assert(0 <= l <= len);
    assert(start + l <= u16::MAX);
    let a = share(l, side as int);
    let b = share(l, side + mid);
    assert(0 <= a <= b <= l) by (nonlinear_arith)
        requires
            0 <= l,
            0 <= side,
            0 <= mid,
            side + mid <= 100,
            a == (l * side + 50) / 100,
            b == (l * (side + mid) + 50) / 100,
    {
        assert(l * side <= l * (side + mid));
        assert(l * (side + mid) <= l * 100);
        assert((l * 100 + 50) / 100 == l);
    }
}

/// `Layout::split` of ratatui, with three percentage constraints
/// `side`, `mid`, `side` that together take at most the whole area, and the
/// middle part taken. What the contract claims is what the source of
/// `Layout::split` (version 0.28) shows for a layout with no margin, no spacing
/// and the default `Flex::Start`:
/// - across the split axis, the part keeps the area's position and extent;
/// - along the axis, the extent is cut where the coordinate range ends, the
///   first spacer is empty, and each segment gets exactly its percentage, since
///   every percentage can be met. The start and end of a segment are then
///   rounded to the nearest cell, halves up, which is `middle_part`.
#[verifier::external_body]
fn split_middle(vertical: bool, side: u16, mid: u16, area: Area) -> (r: Area)
    requires
        2 * side + mid <= 100,
    ensures
        vertical ==> r.x == area.x && r.width == area.width && (r.y, r.height) == middle_part(
            area.y,
            area.height,
            side,
            mid,
        ),
        !vertical ==> r.y == area.y && r.height == area.height && (r.x, r.width) == middle_part(
            area.x,
            area.width,
            side,
            mid,
        ),
{
    let direction = if vertical { Direction::Vertical } else { Direction::Horizontal };
    let rect = Rect { x: area.x, y: area.y, width: area.width, height: area.height };
    let parts = Layout::default().direction(direction).constraints(
        [Constraint::Percentage(side), Constraint::Percentage(mid), Constraint::Percentage(side)],
    ).split(rect);
    Area { x: parts[1].x, y: parts[1].y, width: parts[1].width, height: parts[1].height }
}

/// The area of a popup `percent_x`% wide and `percent_y`% high, centered in `r`.
pub open spec fn centered_area(percent_x: u16, percent_y: u16, r: Area) -> Area {
    let (y, height) = middle_part(r.y, r.height, ((100 - percent_y) / 2) as u16, percent_y);
    let (x, width) = middle_part(r.x, r.width, ((100 - percent_x) / 2) as u16, percent_x);
    Area { x, y, width, height }
}

/// A rectangle `percent_x`% wide and `percent_y`% high, centered in `r`.
pub fn centered_rect(percent_x: u16, percent_y: u16, r: Area) -> (c: Area)
    requires
        percent_x <= 100,
        percent_y <= 100,
    ensures
        c == centered_area(percent_x, percent_y, r),
        r.x <= c.x,
        c.x + c.width <= r.x + r.width,
        r.y <= c.y,
        c.y + c.height <= r.y + r.height,
{
    proof {
        lemma_middle_part_inside(r.y, r.height, ((100 - percent_y) / 2) as u16, percent_y);
        lemma_middle_part_inside(r.x, r.width, ((100 - percent_x) / 2) as u16, percent_x);
    }
    let rows = split_middle(true, (100 - percent_y) / 2, percent_y, r);
    split_middle(false, (100 - percent_x) / 2, percent_x, rows)
}

} // verus!
