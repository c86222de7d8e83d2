//! Focus and workspaces: which window and which workspace are active, which
//! workspace a monitor shows, and what lies in a direction.

use crate::entities::Command;
use crate::entities::Direction;
use crate::entities::Id;
use crate::entities::Monitor;
use crate::entities::VerticalDirection;
use crate::entities::WorkspacePosition;
use crate::geometry::Point;
use crate::geometry::halve;
use crate::mru_list::MruList;
use crate::mru_list::reversed;
use crate::mru_list::without;
use crate::state::State;
use crate::state::WindowManager;
use crate::state::find_monitor_by_workspace;
use crate::state::find_window;
use crate::state::find_workspace;
use crate::workspace::find_id;
use core::cmp::Ordering;
use vstd::prelude::*;

verus! {

/// `list` with `x` moved to its end, if `x` is in it.
pub open spec fn promoted_in(list: Seq<Id>, x: Id) -> Seq<Id> {
    if list.contains(x) {
        without(list, x).push(x)
    } else {
        list
    }
}

/// Whether the monitor at `a` stands before the one at `b` when the monitors
/// are sorted by the left edge of their zones, ties in their given order.
pub open spec fn precedes(monitors: Seq<Monitor>, a: int, b: int) -> bool {
    let left_a = monitors[a].extents.top_left.x;
    let left_b = monitors[b].extents.top_left.x;
    left_a < left_b || (left_a == left_b && a < b)
}

/// How the monitors `a` and `b` compare by the left edge of their zones.
pub fn monitor_x_position(a: &&Monitor, b: &&Monitor) -> (order: Ordering)
    ensures
        match order {
            Ordering::Less => a.extents.top_left.x < b.extents.top_left.x,
            Ordering::Equal => a.extents.top_left.x == b.extents.top_left.x,
            Ordering::Greater => a.extents.top_left.x > b.extents.top_left.x,
        },
{
    if a.extents.top_left.x < b.extents.top_left.x {
        Ordering::Less
    } else if a.extents.top_left.x == b.extents.top_left.x {
        Ordering::Equal
    } else {
        Ordering::Greater
    }
}

/// Whether the monitor at `j` lies in `direction` of the monitor at `from`
/// when the monitors are sorted from left to right.
pub open spec fn beyond(monitors: Seq<Monitor>, from: int, direction: Direction, j: int) -> bool {
    match direction {
        Direction::Left => precedes(monitors, j, from),
        Direction::Right => precedes(monitors, from, j),
    }
}

/// Among the first `k` monitors, the one next to the monitor at `from` in
/// `direction`, when the monitors are sorted from left to right.
pub open spec fn nearest_monitor(monitors: Seq<Monitor>, from: int, direction: Direction, k: int)
    -> Option<int>
    decreases k,
{
    if k <= 0 {
        None
    } else {
        let best = nearest_monitor(monitors, from, direction, k - 1);
        let j = k - 1;
        let nearer = match best {
            None => true,
            Some(b) => beyond(monitors, j, direction, b),
        };
        if beyond(monitors, from, direction, j) && nearer {
            Some(j)
        } else {
            best
        }
    }
}

impl State {
    /// Whether no monitor shows the workspace `workspace`.
    pub open spec fn is_unbound(self, workspace: Id) -> bool {
        self.monitor_index_by_workspace(workspace).is_none()
    }

    /// The state after the workspace `workspace`, if no monitor shows it,
    /// took the place of the active workspace on its monitor.
    pub open spec fn rebound(self, workspace: Id) -> State {
        if self.is_unbound(workspace) {
            match self.active_workspace() {
                Some(active) => match self.monitor_index_by_workspace(active) {
                    Some(m) => State {
                        monitors: self.monitors.update(
                            m,
                            Monitor { workspace, ..self.monitors[m] },
                        ),
                        ..self
                    },
                    None => self,
                },
                None => self,
            }
        } else {
            self
        }
    }

    /// The state after the workspace `workspace` was focused: it is shown on
    /// a monitor, it is the active workspace, its window used most recently
    /// has the focus, or no window if it is empty, and it is laid out.
    /// Nothing changes if there is no such workspace.
    pub open spec fn workspace_focused(self, workspace: Id) -> State {
        match self.workspace_index(workspace) {
            Some(index) => {
                let bound = self.rebound(workspace);
                let active = State {
                    mru_workspaces: promoted_in(bound.mru_workspaces, workspace),
                    ..bound
                };
                let focused = match active.workspaces[index].active_window() {
                    Some(window) => State {
                        mru_windows: promoted_in(active.mru_windows, window),
                        ..active
                    }.with_command(Command::FocusWindow { window }),
                    None => active.with_command(Command::Blur),
                };
                focused.arranged(workspace, false)
            },
            None => self,
        }
    }

    /// The state after the window `window` became the one used most
    /// recently, overall and on its workspace.
    pub open spec fn activated(self, window: Id) -> State {
        let promoted = State { mru_windows: promoted_in(self.mru_windows, window), ..self };
        match self.workspace_of(window) {
            Some(workspace) => match self.workspace_index(workspace) {
                Some(index) => promoted.with_workspace_at(
                    index,
                    self.workspaces[index].promoted(window),
                ),
                None => promoted,
            },
            None => promoted,
        }
    }

    /// The state after the window `window` was focused: it is the window
    /// used most recently, and its workspace is focused. A window on no
    /// workspace just gets the focus. Nothing changes if there is no such
    /// window.
    pub open spec fn window_focused(self, window: Id) -> State {
        match self.window(window) {
            Some(w) => {
                let active = self.activated(window);
                match w.on_workspace {
                    Some(workspace) => match self.workspace_index(workspace) {
                        Some(_) => active.workspace_focused(workspace),
                        None => active.with_command(Command::FocusWindow { window }),
                    },
                    None => active.with_command(Command::FocusWindow { window }),
                }
            },
            None => self,
        }
    }

    /// The state after the focus went to `window`, or was taken from every
    /// window.
    pub open spec fn focus_set(self, window: Option<Id>) -> State {
        match window {
            Some(window) => self.window_focused(window),
            None => self.with_command(Command::Blur),
        }
    }

    /// The index of the monitor next to the one of the active workspace.
    pub open spec fn monitor_by_direction(self, direction: Direction) -> Option<int> {
        match self.active_workspace() {
            Some(active) => match self.monitor_index_by_workspace(active) {
                Some(from) => nearest_monitor(
                    self.monitors,
                    from,
                    direction,
                    self.monitors.len() as int,
                ),
                None => None,
            },
            None => None,
        }
    }

    /// Of the first `k` workspaces of `order`, those that are the active one
    /// or shown on no monitor.
    pub open spec fn vertical_candidates(self, order: Seq<Id>, k: int) -> Seq<Id>
        decreases k,
    {
        if k <= 0 {
            Seq::empty()
        } else {
            let before = self.vertical_candidates(order, k - 1);
            let id = order[k - 1];
            if self.active_workspace() == Some(id) || self.is_unbound(id) {
                before.push(id)
            } else {
                before
            }
        }
    }

    /// The workspace above or below the active one: among the active
    /// workspace and those that no monitor shows, in order of use, the one
    /// before or after the active one.
    pub open spec fn workspace_by_direction(self, direction: VerticalDirection) -> Option<Id> {
        match self.active_workspace() {
            Some(active) => {
                let candidates = self.vertical_candidates(
                    reversed(self.mru_workspaces),
                    self.mru_workspaces.len() as int,
                );
                match candidates.index_of_first(active) {
                    Some(i) => match direction {
                        VerticalDirection::Up => if i > 0 {
                            Some(candidates[i - 1])
                        } else {
                            None
                        },
                        VerticalDirection::Down => if i + 1 < candidates.len() {
                            Some(candidates[i + 1])
                        } else {
                            None
                        },
                    },
                    None => None,
                }
            },
            None => None,
        }
    }

    /// Whether the window `window` exists and its centre, as committed,
    /// lies right of `x`.
    pub open spec fn centre_right_of(self, window: Id, x: i32) -> bool {
        match self.window(window) {
            Some(w) => w.rendered.exact_center_x() > x,
            None => false,
        }
    }

    /// The first index from `from` on in `windows` of a window whose centre,
    /// as committed, lies right of `x`; the length of `windows` if there is
    /// none.
    pub open spec fn first_right_of(self, windows: Seq<Id>, x: i32, from: int) -> int
        decreases windows.len() - from,
    {
        if from >= windows.len() {
            windows.len() as int
        } else if from < 0 {
            0
        } else if self.centre_right_of(windows[from], x) {
            from
        } else {
            self.first_right_of(windows, x, from + 1)
        }
    }

    /// The index in the window sequence of `workspace` at which a window
    /// dropped at `cursor` goes: before the first window whose centre lies
    /// right of the cursor, else at the end.
    pub open spec fn index_by_cursor(self, workspace: Id, cursor: Point) -> int {
        match self.workspace(workspace) {
            Some(w) => self.first_right_of(w.windows, cursor.x, 0),
            None => 0,
        }
    }

    /// The index in the window sequence of `workspace` that `position`
    /// stands for when a window is added.
    pub open spec fn insertion_index(self, workspace: Id, position: WorkspacePosition) -> int {
        match self.workspace(workspace) {
            Some(w) => match position {
                WorkspacePosition::ActiveWindow => w.index_after_active(),
                WorkspacePosition::Start => 0,
                WorkspacePosition::End => w.windows.len() as int,
                WorkspacePosition::Coordinate(p) => self.first_right_of(w.windows, p.x, 0),
            },
            None => 0,
        }
    }

    /// The window at which `workspace` is entered at `position`.
    pub open spec fn window_for_entry(self, workspace: Id, position: WorkspacePosition) -> Option<
        Id,
    > {
        match self.workspace(workspace) {
            Some(w) => if w.windows.len() == 0 {
                None
            } else {
                match position {
                    WorkspacePosition::ActiveWindow => w.active_window(),
                    WorkspacePosition::Start => Some(w.windows.first()),
                    WorkspacePosition::End => Some(w.windows.last()),
                    WorkspacePosition::Coordinate(p) => {
                        let i = self.first_right_of(w.windows, p.x, 0);
                        if i < w.windows.len() {
                            Some(w.windows[i])
                        } else {
                            Some(w.windows.last())
                        }
                    },
                }
            },
            None => None,
        }
    }
}

/// What `first_right_of` finds: no window from `from` up to the index found
/// has its centre right of `x`, and the window at the index found, if there
/// is one, has.
pub proof fn lemma_first_right_of(state: State, windows: Seq<Id>, x: i32, from: int)
    requires
        0 <= from <= windows.len(),
    ensures
        from <= state.first_right_of(windows, x, from) <= windows.len(),
        forall|k: int|
            from <= k < state.first_right_of(windows, x, from) ==> !state.centre_right_of(
                #[trigger] windows[k],
                x,
            ),
        state.first_right_of(windows, x, from) < windows.len() ==> state.centre_right_of(
            windows[state.first_right_of(windows, x, from)],
            x,
        ),
    decreases windows.len() - from,
{
    if from < windows.len() && !state.centre_right_of(windows[from], x) {
        lemma_first_right_of(state, windows, x, from + 1);
    }
}

/// What `nearest_monitor` finds among the first `k` monitors: a monitor on
/// the asked side of the one at `from` with no other of them between the
/// two, or nothing if none of them is on that side.
pub proof fn lemma_nearest_monitor(monitors: Seq<Monitor>, from: int, direction: Direction, k: int)
    requires
        0 <= k <= monitors.len(),
    ensures
        match nearest_monitor(monitors, from, direction, k) {
            Some(found) => {
                &&& 0 <= found < k
                &&& beyond(monitors, from, direction, found)
                &&& forall|j: int|
                    0 <= j < k && #[trigger] beyond(monitors, from, direction, j) ==> j == found
                        || beyond(monitors, found, direction, j)
            },
            None => forall|j: int| 0 <= j < k ==> !#[trigger] beyond(monitors, from, direction, j),
        },
    decreases k,
{
    if k > 0 {
        lemma_nearest_monitor(monitors, from, direction, k - 1);
    }
}

/// The candidates for a workspace switch are the workspaces of `order` that
/// are active or on no monitor, in the order of `order`.
pub proof fn lemma_vertical_candidates(state: State, order: Seq<Id>, k: int)
    requires
        0 <= k <= order.len(),
    ensures
        state.vertical_candidates(order, k) == order.take(k).filter(
            |id: Id| state.active_workspace() == Some(id) || state.is_unbound(id),
        ),
    decreases k,
{
    reveal(Seq::filter);
    let wanted = |id: Id| state.active_workspace() == Some(id) || state.is_unbound(id);
    if k > 0 {
        lemma_vertical_candidates(state, order, k - 1);
        assert(order.take(k).drop_last() =~= order.take(k - 1));
        assert(order.take(k).last() == order[k - 1]);
    } else {
        assert(order.take(0) =~= Seq::<Id>::empty());
    }
}

/// Moves `x` to the end of `list`, if it is in it.
pub fn promote_in(list: &mut MruList<Id>, x: Id)
    ensures
        final(list)@ == promoted_in(old(list)@, x),
{
    broadcast use vstd::laws_eq::group_laws_eq;

    if list.contains(&x) {
        list.promote(&x);
    }
}

impl WindowManager {
    /// Shows the workspace `workspace`, if no monitor shows it, on the
    /// monitor of the active workspace.
    fn rebind(&mut self, workspace: Id)
        ensures
            final(self)@ == old(self)@.rebound(workspace),
    {
        if find_monitor_by_workspace(&self.monitors, workspace).is_some() {
            return ;
        }
        let active = match self.active_workspace() {
            Some(active) => active,
            None => {
                return ;
            },
        };
        match find_monitor_by_workspace(&self.monitors, active) {
            Some(m) => {
                let monitor = self.monitors[m];
                self.monitors.set(
                    m,
                    Monitor { id: monitor.id, extents: monitor.extents, workspace },
                );
            },
            None => {},
        }
    }

    /// Focuses the workspace `workspace`.
    pub fn focus_workspace(&mut self, workspace: Id)
        ensures
            final(self)@ == old(self)@.workspace_focused(workspace),
    {
        let index = match find_workspace(&self.workspaces, workspace) {
            Some(index) => index,
            None => {
                return ;
            },
        };
        self.rebind(workspace);
        promote_in(&mut self.mru_workspaces, workspace);
        match self.workspaces[index].active_window() {
            Some(window) => {
                promote_in(&mut self.mru_windows, window);
                self.commands.push(Command::FocusWindow { window });
            },
            None => {
                self.commands.push(Command::Blur);
            },
        }
        self.arrange_windows_workspace(workspace);
    }

    /// Makes the window `window_id` the one used most recently, overall and
    /// on its workspace.
    pub fn activate_window(&mut self, window_id: Id)
        ensures
            final(self)@ == old(self)@.activated(window_id),
    {
        let workspace = self.workspace_of(window_id);
        promote_in(&mut self.mru_windows, window_id);
        match workspace {
            Some(workspace) => match find_workspace(&self.workspaces, workspace) {
                Some(index) => {
                    self.workspaces[index].promote_window(window_id);
                    assert(self@.workspaces =~= old(self)@.activated(window_id).workspaces);
                },
                None => {},
            },
            None => {},
        }
    }

    /// Gives the focus to `window_id`, or takes it from every window.
    pub fn focus_window(&mut self, window_id: Option<Id>)
        ensures
            final(self)@ == old(self)@.focus_set(window_id),
    {
        let window_id = match window_id {
            Some(window_id) => window_id,
            None => {
                self.commands.push(Command::Blur);
                return ;
            },
        };
        let window = match find_window(&self.windows, window_id) {
            Some(i) => self.windows[i],
            None => {
                return ;
            },
        };
        let found = match window.on_workspace {
            Some(workspace) => match find_workspace(&self.workspaces, workspace) {
                Some(_) => Some(workspace),
                None => None,
            },
            None => None,
        };
        self.activate_window(window_id);
        match found {
            Some(workspace) => {
                self.focus_workspace(workspace);
            },
            None => {
                self.commands.push(Command::FocusWindow { window: window_id });
            },
        }
    }

    /// The index of the monitor next to the one of the active workspace in
    /// `direction`, when the monitors are sorted by the left edge of their
    /// zones.
    pub fn get_monitor_by_direction(&self, direction: Direction) -> (monitor: Option<usize>)
        ensures
            match monitor {
                Some(m) => m < self@.monitors.len() && self@.monitor_by_direction(direction)
                    == Some(m as int),
                None => self@.monitor_by_direction(direction).is_none(),
            },
    {
        let active = match self.active_workspace() {
            Some(active) => active,
            None => {
                return None;
            },
        };
        let from = match find_monitor_by_workspace(&self.monitors, active) {
            Some(from) => from,
            None => {
                return None;
            },
        };
        let from_left = self.monitors[from].extents.top_left.x;
        let mut best: Option<usize> = None;
        let n: usize = self.monitors.len();
        let mut k: usize = 0;
        while k < n
            invariant
                n == self@.monitors.len(),
                from < n,
                from_left == self@.monitors[from as int].extents.top_left.x,
                k <= n,
                match best {
                    Some(b) => b < k && nearest_monitor(
                        self@.monitors,
                        from as int,
                        direction,
                        k as int,
                    ) == Some(b as int),
                    None => nearest_monitor(self@.monitors, from as int, direction, k as int)
                        .is_none(),
                },
            decreases n - k,
        {
            let left = self.monitors[k].extents.top_left.x;
            let beyond = match direction {
                Direction::Left => left < from_left || (left == from_left && k < from),
                Direction::Right => from_left < left || (from_left == left && from < k),
            };
            let nearer = match best {
                None => true,
                Some(b) => {
                    let best_left = self.monitors[b].extents.top_left.x;
                    match direction {
                        Direction::Left => best_left < left || (best_left == left && b < k),
                        Direction::Right => left < best_left || (left == best_left && k < b),
                    }
                },
            };
            if beyond && nearer {
                best = Some(k);
            }
            k = k + 1;
        }
        best
    }

    /// The workspace above or below the active one.
    pub fn get_workspace_by_direction(&self, direction: VerticalDirection) -> (workspace: Option<
        Id,
    >)
        ensures
            workspace == self@.workspace_by_direction(direction),
    {
        let active = match self.active_workspace() {
            Some(active) => active,
            None => {
                return None;
            },
        };
        let order = self.workspace_order();
        let mut candidates: Vec<Id> = Vec::new();
        let n: usize = order.len();
        let mut k: usize = 0;
        while k < n
            invariant
                n == order@.len(),
                k <= n,
                self@.active_workspace() == Some(active),
                candidates@ == self@.vertical_candidates(order@, k as int),
            decreases n - k,
        {
            let id = order[k];
            if id == active || find_monitor_by_workspace(&self.monitors, id).is_none() {
                candidates.push(id);
            }
            k = k + 1;
        }
        let count: usize = candidates.len();
        match find_id(&candidates, active) {
            Some(i) => match direction {
                VerticalDirection::Up => {
                    if i > 0 {
                        Some(candidates[i - 1])
                    } else {
                        None
                    }
                },
                VerticalDirection::Down => {
                    if i + 1 < count {
                        Some(candidates[i + 1])
                    } else {
                        None
                    }
                },
            },
            None => None,
        }
    }

    /// The index in the window sequence of the workspace `workspace_id` at
    /// which a window dropped at `cursor` goes.
    pub fn find_index_by_cursor(&self, workspace_id: Id, cursor: &Point) -> (index: usize)
        ensures
            index == self@.index_by_cursor(workspace_id, *cursor),
    {
        let index = match find_workspace(&self.workspaces, workspace_id) {
            Some(index) => index,
            None => {
                return 0;
            },
        };
        let windows = self.workspaces[index].windows();
        let n: usize = windows.len();
        let mut k: usize = 0;
        while k < n
            invariant
                n == windows@.len(),
                k <= n,
                self@.index_by_cursor(workspace_id, *cursor) == self@.first_right_of(
                    windows@,
                    cursor.x,
                    0,
                ),
                self@.first_right_of(windows@, cursor.x, 0) == self@.first_right_of(
                    windows@,
                    cursor.x,
                    k as int,
                ),
            decreases n - k,
        {
            match find_window(&self.windows, windows[k]) {
                Some(i) => {
                    let rendered = self.windows[i].rendered;
                    let center: i64 = rendered.top_left.x as i64 + halve(rendered.size.width) as i64;
                    if center > cursor.x as i64 {
                        return k;
                    }
                },
                None => {},
            }
            k = k + 1;
        }
        n
    }

    /// The index in the window sequence of the workspace `workspace_id` that
    /// `position` stands for when a window is added.
    pub fn get_insertion_index(&self, workspace_id: Id, position: WorkspacePosition) -> (index:
        usize)
        ensures
            index == self@.insertion_index(workspace_id, position),
    {
        let index = match find_workspace(&self.workspaces, workspace_id) {
            Some(index) => index,
            None => {
                return 0;
            },
        };
        match position {
            WorkspacePosition::ActiveWindow => self.workspaces[index].index_after_active(),
            WorkspacePosition::Start => 0,
            WorkspacePosition::End => self.workspaces[index].windows().len(),
            WorkspacePosition::Coordinate(p) => self.find_index_by_cursor(workspace_id, &p),
        }
    }

    /// The window at which the workspace `workspace_id` is entered at
    /// `position`.
    pub fn get_window_for_entry(&self, workspace_id: Id, position: WorkspacePosition) -> (window:
        Option<Id>)
        ensures
            window == self@.window_for_entry(workspace_id, position),
    {
        let index = match find_workspace(&self.workspaces, workspace_id) {
            Some(index) => index,
            None => {
                return None;
            },
        };
        let windows = self.workspaces[index].windows();
        let n: usize = windows.len();
        if n == 0 {
            return None;
        }
        match position {
            WorkspacePosition::ActiveWindow => self.workspaces[index].active_window(),
            WorkspacePosition::Start => Some(windows[0]),
            WorkspacePosition::End => Some(windows[n - 1]),
            WorkspacePosition::Coordinate(p) => {
                let i = self.find_index_by_cursor(workspace_id, &p);
                if i < n {
                    Some(windows[i])
                } else {
                    Some(windows[n - 1])
                }
            },
        }
    }
}

} // verus!
