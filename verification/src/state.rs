//! The state of the window manager and how its entities are found.

use crate::animation::AnimaitonState;
use crate::animation::Animation;
use crate::entities::Command;
use crate::entities::Gesture;
use crate::entities::Id;
use crate::entities::IdGenerator;
use crate::entities::Monitor;
use crate::entities::Window;
use crate::geometry::Point;
use crate::mru_list::MruList;
use crate::workspace::Workspace;
use crate::workspace::WorkspaceView;
use vstd::prelude::*;

verus! {

/// The identifiers of a sequence of windows.
pub open spec fn window_ids(windows: Seq<Window>) -> Seq<Id> {
    Seq::new(windows.len(), |i: int| windows[i].id)
}

/// The identifiers of a sequence of workspaces.
pub open spec fn workspace_ids(workspaces: Seq<WorkspaceView>) -> Seq<Id> {
    Seq::new(workspaces.len(), |i: int| workspaces[i].id)
}

/// The identifiers of a sequence of monitors.
pub open spec fn monitor_ids(monitors: Seq<Monitor>) -> Seq<Id> {
    Seq::new(monitors.len(), |i: int| monitors[i].id)
}

/// The workspaces that a sequence of monitors shows.
pub open spec fn shown_workspaces(monitors: Seq<Monitor>) -> Seq<Id> {
    Seq::new(monitors.len(), |i: int| monitors[i].workspace)
}

/// What a sequence of workspaces holds.
pub open spec fn workspace_views(workspaces: Seq<Workspace>) -> Seq<WorkspaceView> {
    Seq::new(workspaces.len(), |i: int| workspaces[i]@)
}

/// The first index of an element is the one before which it does not occur.
pub proof fn lemma_first_index(s: Seq<Id>, x: Id, i: int)
    requires
        0 <= i < s.len(),
        s[i] == x,
        forall|k: int| 0 <= k < i ==> s[k] != x,
    ensures
        s.index_of_first(x) == Some(i),
        s.contains(x),
{
    s.index_of_first_ensures(x);
    assert(s.contains(x));
    let first = s.index_of_first(x).unwrap();
    assert(s[first] == x);
}

/// An element that occurs nowhere has no first index.
pub proof fn lemma_no_index(s: Seq<Id>, x: Id)
    requires
        forall|k: int| 0 <= k < s.len() ==> s[k] != x,
    ensures
        s.index_of_first(x).is_none(),
        !s.contains(x),
{
    s.index_of_first_ensures(x);
}

/// The whole state of the window manager as a mathematical value.
pub struct State {
    pub monitors: Seq<Monitor>,
    pub windows: Seq<Window>,
    pub workspaces: Seq<WorkspaceView>,
    /// The windows that take part in the tiling, the focused one last.
    pub mru_windows: Seq<Id>,
    /// All workspaces, the active one last.
    pub mru_workspaces: Seq<Id>,
    pub gesture: Gesture,
    /// Where the pointer was at the last pointer event.
    pub old_cursor: Point,
    pub animations: Seq<Animation>,
    /// The commands that wait for the compositor, oldest first.
    pub commands: Seq<Command>,
    pub next_monitor_id: Id,
    pub next_window_id: Id,
    pub next_workspace_id: Id,
    /// How many workspaces without a monitor are kept in reserve.
    pub extra_workspaces: usize,
    /// The number of configured keyboard layouts.
    pub keyboard_layouts: usize,
    /// The index of the keyboard layout in use.
    pub keyboard_layout: usize,
}

impl State {
    /// The index of the window `id`.
    pub open spec fn window_index(self, id: Id) -> Option<int> {
        window_ids(self.windows).index_of_first(id)
    }

    /// The window `id`.
    pub open spec fn window(self, id: Id) -> Option<Window> {
        match self.window_index(id) {
            Some(i) => Some(self.windows[i]),
            None => None,
        }
    }

    /// The index of the workspace `id`.
    pub open spec fn workspace_index(self, id: Id) -> Option<int> {
        workspace_ids(self.workspaces).index_of_first(id)
    }

    /// The workspace `id`.
    pub open spec fn workspace(self, id: Id) -> Option<WorkspaceView> {
        match self.workspace_index(id) {
            Some(i) => Some(self.workspaces[i]),
            None => None,
        }
    }

    /// The index of the monitor `id`.
    pub open spec fn monitor_index(self, id: Id) -> Option<int> {
        monitor_ids(self.monitors).index_of_first(id)
    }

    /// The index of the monitor that shows the workspace `workspace`.
    pub open spec fn monitor_index_by_workspace(self, workspace: Id) -> Option<int> {
        shown_workspaces(self.monitors).index_of_first(workspace)
    }

    /// The monitor that shows the workspace `workspace`.
    pub open spec fn monitor_by_workspace(self, workspace: Id) -> Option<Monitor> {
        match self.monitor_index_by_workspace(workspace) {
            Some(i) => Some(self.monitors[i]),
            None => None,
        }
    }

    /// The workspace that lists the window `window`.
    pub open spec fn workspace_of(self, window: Id) -> Option<Id> {
        match self.window(window) {
            Some(w) => w.on_workspace,
            None => None,
        }
    }

    /// The monitor that shows the workspace of the window `window`.
    pub open spec fn monitor_by_window(self, window: Id) -> Option<Monitor> {
        match self.workspace_of(window) {
            Some(workspace) => self.monitor_by_workspace(workspace),
            None => None,
        }
    }

    /// The focused window: the one used most recently.
    pub open spec fn active_window(self) -> Option<Id> {
        if self.mru_windows.len() == 0 {
            None
        } else {
            Some(self.mru_windows.last())
        }
    }

    /// The active workspace: the one used most recently.
    pub open spec fn active_workspace(self) -> Option<Id> {
        if self.mru_workspaces.len() == 0 {
            None
        } else {
            Some(self.mru_workspaces.last())
        }
    }

    /// The state with one more command for the compositor.
    pub open spec fn with_command(self, command: Command) -> State {
        State { commands: self.commands.push(command), ..self }
    }

    /// The state with another value for the window at `index`.
    pub open spec fn with_window_at(self, index: int, window: Window) -> State {
        State { windows: self.windows.update(index, window), ..self }
    }

    /// The state with another value for the workspace at `index`.
    pub open spec fn with_workspace_at(self, index: int, workspace: WorkspaceView) -> State {
        State { workspaces: self.workspaces.update(index, workspace), ..self }
    }
}

/// The position of the window `id` in `windows`.
pub fn find_window(windows: &Vec<Window>, id: Id) -> (found: Option<usize>)
    ensures
        match found {
            Some(i) => i < windows@.len() && windows@[i as int].id == id && window_ids(
                windows@,
            ).index_of_first(id) == Some(i as int),
            None => window_ids(windows@).index_of_first(id).is_none(),
        },
{
    let n: usize = windows.len();
    let mut i: usize = 0;
    while i < n
        invariant
            n == windows@.len(),
            i <= n,
            forall|k: int| 0 <= k < i ==> window_ids(windows@)[k] != id,
        decreases n - i,
    {
        if windows[i].id == id {
            proof {
                lemma_first_index(window_ids(windows@), id, i as int);
            }
            return Some(i);
        }
        i = i + 1;
    }
    proof {
        lemma_no_index(window_ids(windows@), id);
    }
    None
}

/// The position of the workspace `id` in `workspaces`.
pub fn find_workspace(workspaces: &Vec<Workspace>, id: Id) -> (found: Option<usize>)
    ensures
        match found {
            Some(i) => i < workspaces@.len() && workspaces@[i as int]@.id == id && workspace_ids(
                workspace_views(workspaces@),
            ).index_of_first(id) == Some(i as int),
            None => workspace_ids(workspace_views(workspaces@)).index_of_first(id).is_none(),
        },
{
    let n: usize = workspaces.len();
    let mut i: usize = 0;
    while i < n
        invariant
            n == workspaces@.len(),
            i <= n,
            forall|k: int| 0 <= k < i ==> workspace_ids(workspace_views(workspaces@))[k] != id,
        decreases n - i,
    {
        if workspaces[i].id() == id {
            proof {
                lemma_first_index(workspace_ids(workspace_views(workspaces@)), id, i as int);
            }
            return Some(i);
        }
        i = i + 1;
    }
    proof {
        lemma_no_index(workspace_ids(workspace_views(workspaces@)), id);
    }
    None
}

/// The position of the monitor `id` in `monitors`.
pub fn find_monitor(monitors: &Vec<Monitor>, id: Id) -> (found: Option<usize>)
    ensures
        match found {
            Some(i) => i < monitors@.len() && monitors@[i as int].id == id && monitor_ids(
                monitors@,
            ).index_of_first(id) == Some(i as int),
            None => monitor_ids(monitors@).index_of_first(id).is_none(),
        },
{
    let n: usize = monitors.len();
    let mut i: usize = 0;
    while i < n
        invariant
            n == monitors@.len(),
            i <= n,
            forall|k: int| 0 <= k < i ==> monitor_ids(monitors@)[k] != id,
        decreases n - i,
    {
        if monitors[i].id == id {
            proof {
                lemma_first_index(monitor_ids(monitors@), id, i as int);
            }
            return Some(i);
        }
        i = i + 1;
    }
    proof {
        lemma_no_index(monitor_ids(monitors@), id);
    }
    None
}

/// The position in `monitors` of the monitor that shows `workspace`.
pub fn find_monitor_by_workspace(monitors: &Vec<Monitor>, workspace: Id) -> (found: Option<
    usize,
>)
    ensures
        match found {
            Some(i) => i < monitors@.len() && monitors@[i as int].workspace == workspace
                && shown_workspaces(monitors@).index_of_first(workspace) == Some(i as int),
            None => shown_workspaces(monitors@).index_of_first(workspace).is_none(),
        },
{
    let n: usize = monitors.len();
    let mut i: usize = 0;
    while i < n
        invariant
            n == monitors@.len(),
            i <= n,
            forall|k: int| 0 <= k < i ==> shown_workspaces(monitors@)[k] != workspace,
        decreases n - i,
    {
        if monitors[i].workspace == workspace {
            proof {
                lemma_first_index(shown_workspaces(monitors@), workspace, i as int);
            }
            return Some(i);
        }
        i = i + 1;
    }
    proof {
        lemma_no_index(shown_workspaces(monitors@), workspace);
    }
    None
}

/// The window manager: all monitors, workspaces and windows, the orders of
/// their use, the gesture and the animations in progress, and the commands
/// that wait for the compositor.
#[derive(Debug)]
pub struct WindowManager {
    pub monitor_id_generator: IdGenerator,
    pub window_id_generator: IdGenerator,
    pub workspace_id_generator: IdGenerator,
    pub monitors: Vec<Monitor>,
    pub windows: Vec<Window>,
    pub workspaces: Vec<Workspace>,
    pub mru_windows: MruList<Id>,
    pub mru_workspaces: MruList<Id>,
    pub old_cursor: Point,
    pub gesture: Gesture,
    pub animation_state: AnimaitonState,
    pub commands: Vec<Command>,
    pub extra_workspaces: usize,
    pub keyboard_layouts: usize,
    pub keyboard_layout: usize,
}

impl View for WindowManager {
    type V = State;

    open spec fn view(&self) -> State {
        State {
            monitors: self.monitors@,
            windows: self.windows@,
            workspaces: workspace_views(self.workspaces@),
            mru_windows: self.mru_windows@,
            mru_workspaces: self.mru_workspaces@,
            gesture: self.gesture,
            old_cursor: self.old_cursor,
            animations: self.animation_state@,
            commands: self.commands@,
            next_monitor_id: self.monitor_id_generator.upcoming(),
            next_window_id: self.window_id_generator.upcoming(),
            next_workspace_id: self.workspace_id_generator.upcoming(),
            extra_workspaces: self.extra_workspaces,
            keyboard_layouts: self.keyboard_layouts,
            keyboard_layout: self.keyboard_layout,
        }
    }
}

impl WindowManager {
    /// The window `window_id`.
    pub fn get_window(&self, window_id: Id) -> (window: Option<&Window>)
        ensures
            match window {
                Some(w) => self@.window(window_id) == Some(*w),
                None => self@.window(window_id).is_none(),
            },
    {
        match find_window(&self.windows, window_id) {
            Some(i) => Some(&self.windows[i]),
            None => None,
        }
    }

    /// The workspace `workspace_id`.
    pub fn get_workspace(&self, workspace_id: Id) -> (workspace: Option<&Workspace>)
        ensures
            match workspace {
                Some(w) => self@.workspace(workspace_id) == Some(w@),
                None => self@.workspace(workspace_id).is_none(),
            },
    {
        match find_workspace(&self.workspaces, workspace_id) {
            Some(i) => Some(&self.workspaces[i]),
            None => None,
        }
    }

    /// The monitor that shows the workspace `workspace_id`.
    pub fn monitor_by_workspace(&self, workspace_id: Id) -> (monitor: Option<&Monitor>)
        ensures
            match monitor {
                Some(m) => self@.monitor_by_workspace(workspace_id) == Some(*m),
                None => self@.monitor_by_workspace(workspace_id).is_none(),
            },
    {
        match find_monitor_by_workspace(&self.monitors, workspace_id) {
            Some(i) => Some(&self.monitors[i]),
            None => None,
        }
    }

    /// The workspace that lists the window `window_id`.
    pub fn workspace_of(&self, window_id: Id) -> (workspace: Option<Id>)
        ensures
            workspace == self@.workspace_of(window_id),
    {
        match self.get_window(window_id) {
            Some(window) => window.on_workspace,
            None => None,
        }
    }

    /// The monitor that shows the workspace of the window `window_id`.
    pub fn monitor_by_window(&self, window_id: Id) -> (monitor: Option<&Monitor>)
        ensures
            match monitor {
                Some(m) => self@.monitor_by_window(window_id) == Some(*m),
                None => self@.monitor_by_window(window_id).is_none(),
            },
    {
        match self.workspace_of(window_id) {
            Some(workspace_id) => self.monitor_by_workspace(workspace_id),
            None => None,
        }
    }

    /// The focused window.
    pub fn active_window(&self) -> (window: Option<Id>)
        ensures
            window == self@.active_window(),
    {
        match self.mru_windows.top() {
            Some(id) => Some(*id),
            None => None,
        }
    }

    /// The active workspace.
    pub fn active_workspace(&self) -> (workspace: Option<Id>)
        ensures
            workspace == self@.active_workspace(),
    {
        match self.mru_workspaces.top() {
            Some(id) => Some(*id),
            None => None,
        }
    }

    /// The workspace that takes a new window: the active one.
    pub fn new_window_workspace(&self) -> (workspace: Option<Id>)
        ensures
            workspace == self@.active_workspace(),
    {
        self.active_workspace()
    }

    /// Hands over the commands that wait for the compositor, oldest first.
    pub fn take_commands(&mut self) -> (commands: Vec<Command>)
        ensures
            commands@ == old(self)@.commands,
            final(self)@ == (State { commands: Seq::empty(), ..old(self)@ }),
    {
        let mut commands: Vec<Command> = Vec::new();
        core::mem::swap(&mut self.commands, &mut commands);
        commands
    }

    /// Adds a command for the compositor.
    pub fn emit(&mut self, command: Command)
        ensures
            final(self)@ == old(self)@.with_command(command),
    {
        self.commands.push(command);
    }
}

} // verus!
