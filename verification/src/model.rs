//! Domain types describing the tmux session tree and what the cursor points at.

use vstd::prelude::*;
use crate::text::{decimal, push_decimal, views_of};

verus! {

/// One tmux pane.
#[derive(Clone, Debug)]
pub struct Pane {
    pub id: String,
    pub index: usize,
    pub active: bool,
    pub current_command: String,
    pub current_path: String,
    pub title: String,
}

/// One tmux window and its panes.
#[derive(Clone, Debug)]
pub struct Window {
    pub name: String,
    pub index: usize,
    pub panes: Vec<Pane>,
    pub active: bool,
}

/// One tmux session and its windows.
#[derive(Clone, Debug)]
pub struct Session {
    pub name: String,
    pub windows: Vec<Window>,
}

/// The mathematical value of a [`Pane`].
pub struct PaneV {
    pub id: Seq<char>,
    pub index: usize,
    pub active: bool,
    pub current_command: Seq<char>,
    pub current_path: Seq<char>,
    pub title: Seq<char>,
}

/// The mathematical value of a [`Window`].
pub struct WindowV {
    pub name: Seq<char>,
    pub index: usize,
    pub panes: Seq<PaneV>,
    pub active: bool,
}

/// The mathematical value of a [`Session`].
pub struct SessionV {
    pub name: Seq<char>,
    pub windows: Seq<WindowV>,
}

impl View for Pane {
    type V = PaneV;

    open spec fn view(&self) -> PaneV {
        PaneV {
            id: self.id@,
            index: self.index,
            active: self.active,
            current_command: self.current_command@,
            current_path: self.current_path@,
            title: self.title@,
        }
    }
}

impl View for Window {
    type V = WindowV;

    open spec fn view(&self) -> WindowV {
        WindowV {
            name: self.name@,
            index: self.index,
            panes: views_of(self.panes@),
            active: self.active,
        }
    }
}

impl View for Session {
    type V = SessionV;

    open spec fn view(&self) -> SessionV {
        SessionV { name: self.name@, windows: views_of(self.windows@) }
    }
}

/// What the cursor currently points at in the tree.
///
/// This holds only *addressing* information (enough to build a tmux target).
/// Display fields (command, title, pane count, ...) are looked up from the live
/// [`Session`] tree on demand, so they can never go stale relative to it.
#[derive(Clone, Debug, PartialEq, Eq)]
pub enum Target {
    Session(String),
    Window { session: String, index: usize },
    Pane { session: String, window_index: usize, id: String },
}

/// The mathematical value of a [`Target`].
pub enum TargetV {
    Session(Seq<char>),
    Window { session: Seq<char>, index: usize },
    Pane { session: Seq<char>, window_index: usize, id: Seq<char> },
}

impl View for Target {
    type V = TargetV;

    open spec fn view(&self) -> TargetV {
        match self {
            Target::Session(name) => TargetV::Session(name@),
            Target::Window { session, index } => TargetV::Window { session: session@, index: *index },
            Target::Pane { session, window_index, id } => TargetV::Pane {
                session: session@,
                window_index: *window_index,
                id: id@,
            },
        }
    }
}

impl TargetV {
    /// The name of the session the target lives in.
    pub open spec fn session_name(self) -> Seq<char> {
        match self {
            TargetV::Session(name) => name,
            TargetV::Window { session, .. } => session,
            TargetV::Pane { session, .. } => session,
        }
    }

    /// The tmux target string: `sess:`, `sess:idx`, or the pane id.
    pub open spec fn tmux_id(self) -> Seq<char> {
        match self {
            TargetV::Session(name) => name + seq![':'],
            TargetV::Window { session, index } => window_address(session, index),
            TargetV::Pane { id, .. } => id,
        }
    }

    /// The label of the target's kind.
    pub open spec fn kind(self) -> Seq<char> {
        match self {
            TargetV::Session(_) => "Session"@,
            TargetV::Window { .. } => "Window"@,
            TargetV::Pane { .. } => "Pane"@,
        }
    }
}

/// The tmux address `session:index` of a window.
pub open spec fn window_address(session: Seq<char>, index: usize) -> Seq<char> {
    session + seq![':'] + decimal(index as nat)
}

/// Builds `session:index`.
pub fn make_window_address(session: &String, index: usize) -> (r: String)
    ensures
        r@ == window_address(session@, index),
{
    let mut r = session.clone();
    r.append(":");
    proof {
        reveal_strlit(":");
    }
    push_decimal(&mut r, index);
    r
}

/// Builds `session:`, the address of a session.
pub fn make_session_address(session: &String) -> (r: String)
    ensures
        r@ == session@ + seq![':'],
{
    let mut r = session.clone();
    r.append(":");
    proof {
        reveal_strlit(":");
    }
    r
}

impl Target {
    /// The name of the session this target lives in.
    pub fn session(&self) -> (r: &str)
        ensures
            r@ == self@.session_name(),
    {
        match self {
            Target::Session(name) => name.as_str(),
            Target::Window { session, .. } => session.as_str(),
            Target::Pane { session, .. } => session.as_str(),
        }
    }

    /// The tmux target string for this item: `sess:`, `sess:idx`, or a pane id.
    pub fn tmux_id(&self) -> (r: String)
        ensures
            r@ == self@.tmux_id(),
    {
        match self {
            Target::Session(name) => make_session_address(name),
            Target::Window { session, index } => make_window_address(session, *index),
            Target::Pane { id, .. } => id.clone(),
        }
    }

    /// Human label for the kind of target, e.g. for status text.
    pub fn kind(&self) -> (r: &'static str)
        ensures
            r@ == self@.kind(),
    {
        match self {
            Target::Session(_) => "Session",
            Target::Window { .. } => "Window",
            Target::Pane { .. } => "Pane",
        }
    }

    /// An equal copy of this target.
    pub fn duplicate(&self) -> (r: Target)
        ensures
            r@ == self@,
    {
        match self {
            Target::Session(name) => Target::Session(name.clone()),
            Target::Window { session, index } => Target::Window {
                session: session.clone(),
                index: *index,
            },
            Target::Pane { session, window_index, id } => Target::Pane {
                session: session.clone(),
                window_index: *window_index,
                id: id.clone(),
            },
        }
    }
}

/// One row of the flattened, navigable tree: a precomputed display label plus
/// the target it points at.
#[derive(Clone, Debug)]
pub struct NavItem {
    pub label: String,
    pub target: Target,
}

/// The mathematical value of a [`NavItem`].
pub struct NavItemV {
    pub label: Seq<char>,
    pub target: TargetV,
}

impl View for NavItem {
    type V = NavItemV;

    open spec fn view(&self) -> NavItemV {
        NavItemV { label: self.label@, target: self.target@ }
    }
}

} // verus!
