//! The actions that a key chord can trigger: navigation between windows,
//! monitors and workspaces, moving and resizing the active window.

use crate::entities::Activation;
use crate::entities::Command;
use crate::entities::Direction;
use crate::entities::Id;
use crate::entities::VerticalDirection;
use crate::entities::Window;
use crate::entities::WorkspacePosition;
use crate::geometry::Size;
use crate::geometry::clamp_i32;
use crate::geometry::half;
use crate::geometry::halve;
use crate::geometry::saturate;
use crate::state::State;
use crate::state::WindowManager;
use crate::state::find_monitor_by_workspace;
use crate::state::find_window;
use crate::state::find_workspace;
use crate::workspace::WorkspaceView;
use vstd::prelude::*;

verus! {

/// The unit of a resize step: a step of `STEP_SCALE` is the full width of
/// the monitor.
pub const STEP_SCALE: u32 = 1_000_000;

/// The place at which the next monitor in `direction` is entered: the edge
/// that faces the monitor one comes from.
pub open spec fn entry_position(direction: Direction) -> WorkspacePosition {
    match direction {
        Direction::Left => WorkspacePosition::End,
        Direction::Right => WorkspacePosition::Start,
    }
}

/// The first index from `from` on of a step that is more than `width` is of
/// `monitor_width`.
pub open spec fn first_step_beyond(steps: Seq<u32>, width: i32, monitor_width: i32, from: int)
    -> Option<int>
    decreases steps.len() - from,
{
    if from < 0 || from >= steps.len() {
        None
    } else if steps[from] * monitor_width > width * STEP_SCALE {
        Some(from)
    } else {
        first_step_beyond(steps, width, monitor_width, from + 1)
    }
}

/// The step that a window of `width` on a monitor of `monitor_width` takes
/// next: the first one that is more than its share of the monitor now, else
/// the first one of all.
pub open spec fn next_step(steps: Seq<u32>, width: i32, monitor_width: i32) -> Option<u32> {
    match first_step_beyond(steps, width, monitor_width, 0) {
        Some(i) => Some(steps[i]),
        None => if steps.len() > 0 {
            Some(steps[0])
        } else {
            None
        },
    }
}

/// The width of the share `step` of a monitor of `monitor_width`, rounded to
/// the nearest integer.
pub open spec fn step_width(step: u32, monitor_width: i32) -> i32 {
    clamp_i32((step * monitor_width + STEP_SCALE / 2) / (STEP_SCALE as int))
}

/// The width that a window of `width` on a monitor of `monitor_width` gets
/// when it is resized along `steps`; `None` without a step and on a monitor
/// without width.
pub open spec fn resized_width(steps: Seq<u32>, width: i32, monitor_width: i32) -> Option<i32> {
    if monitor_width <= 0 {
        None
    } else {
        match next_step(steps, width, monitor_width) {
            Some(step) => Some(step_width(step, monitor_width)),
            None => None,
        }
    }
}

/// The exact product of a step and a width.
fn scaled(step: u32, width: i32) -> (product: i64)
    ensures
        product == step * width,
        -0x7fff_ffff_8000_0000 <= product <= 0x7fff_ffff_8000_0000,
{
    proof {
        assert(-0xffff_ffff * 0x8000_0000 <= step * width <= 0xffff_ffff * 0x8000_0000)
            by (nonlinear_arith)
            requires
                0 <= step <= 0xffff_ffff,
                -0x8000_0000 <= width <= 0x7fff_ffff,
        ;
    }
    step as i64 * width as i64
}

/// The width that a window of `width` on a monitor of `monitor_width` gets
/// when it is resized along `steps`.
pub fn pick_width(steps: &Vec<u32>, width: i32, monitor_width: i32) -> (picked: Option<i32>)
    ensures
        picked == resized_width(steps@, width, monitor_width),
{
    if monitor_width <= 0 || steps.len() == 0 {
        return None;
    }
    let n: usize = steps.len();
    let threshold: i64 = width as i64 * 1_000_000;
    let mut k: usize = 0;
    while k < n
        invariant
            n == steps@.len(),
            n > 0,
            k <= n,
            monitor_width > 0,
            threshold == width * STEP_SCALE,
            first_step_beyond(steps@, width, monitor_width, 0) == first_step_beyond(
                steps@,
                width,
                monitor_width,
                k as int,
            ),
        decreases n - k,
    {
        let share = scaled(steps[k], monitor_width);
        if share > threshold {
            return Some(saturate((share + 500_000) / 1_000_000));
        }
        k = k + 1;
    }
    let share = scaled(steps[0], monitor_width);
    Some(saturate((share + 500_000) / 1_000_000))
}

impl State {
    /// The state after the leftmost window of the active workspace was
    /// focused.
    pub open spec fn navigated_first(self) -> State {
        match self.active_workspace() {
            Some(active) => match self.workspace(active) {
                Some(w) => if w.windows.len() > 0 {
                    self.window_focused(w.windows.first())
                } else {
                    self
                },
                None => self,
            },
            None => self,
        }
    }

    /// The state after the rightmost window of the active workspace was
    /// focused.
    pub open spec fn navigated_last(self) -> State {
        match self.active_workspace() {
            Some(active) => match self.workspace(active) {
                Some(w) => if w.windows.len() > 0 {
                    self.window_focused(w.windows.last())
                } else {
                    self
                },
                None => self,
            },
            None => self,
        }
    }

    /// The neighbour of the window `window` on its workspace.
    pub open spec fn tiled_neighbor(self, window: Id, direction: Direction) -> Option<Id> {
        match self.workspace_of(window) {
            Some(workspace) => match self.workspace(workspace) {
                Some(w) => w.neighbor(window, direction),
                None => None,
            },
            None => None,
        }
    }

    /// The state after the monitor next to the active one was entered at
    /// `position`: the window there gets the focus, or the workspace if it
    /// is empty. Nothing changes if there is no monitor in that direction.
    pub open spec fn navigated_monitor(self, direction: Direction, position: WorkspacePosition)
        -> State {
        match self.monitor_by_direction(direction) {
            Some(m) => {
                let workspace = self.monitors[m].workspace;
                match self.window_for_entry(workspace, position) {
                    Some(window) => self.window_focused(window),
                    None => self.workspace_focused(workspace),
                }
            },
            None => self,
        }
    }

    /// The state after the focus went to the neighbour of the active window,
    /// or, where it has none, to the next monitor.
    pub open spec fn navigated(self, direction: Direction) -> State {
        let next = match self.active_window() {
            Some(active) => self.tiled_neighbor(active, direction),
            None => None,
        };
        match next {
            Some(window) => self.window_focused(window),
            None => self.navigated_monitor(direction, entry_position(direction)),
        }
    }

    /// The state after the window `window` left its workspace.
    pub open spec fn detached(self, window: Id) -> State {
        match self.window_index(window) {
            Some(i) => {
                let w = self.windows[i];
                match w.on_workspace {
                    Some(workspace) => {
                        let left = match self.workspace_index(workspace) {
                            Some(index) => self.with_workspace_at(
                                index,
                                self.workspaces[index].removed(window),
                            ),
                            None => self,
                        };
                        left.with_window_at(i, Window { on_workspace: None, ..w })
                    },
                    None => self,
                }
            },
            None => self,
        }
    }

    /// The state after the window `window` was put on the workspace `to` at
    /// `index` of its window sequence.
    pub open spec fn attached(self, window: Id, to: Id, index: int) -> State {
        match (self.window_index(window), self.workspace_index(to)) {
            (Some(i), Some(target)) => self.with_workspace_at(
                target,
                self.workspaces[target].inserted(window, index),
            ).with_window_at(i, Window { on_workspace: Some(to), ..self.windows[i] }),
            _ => self,
        }
    }

    /// Whether the window `window` can go to the workspace `to`: both exist
    /// and the window is on a workspace.
    pub open spec fn can_transfer(self, window: Id, to: Id) -> bool {
        &&& self.workspace_of(window).is_some()
        &&& self.workspace_index(to).is_some()
    }

    /// The state after the window `window` went to the workspace `to` at
    /// `index` of its window sequence: the workspace is focused and every
    /// workspace laid out.
    pub open spec fn window_moved_to_workspace(self, window: Id, to: Id, index: int) -> State {
        if self.can_transfer(window, to) {
            self.detached(window).attached(window, to, index).workspace_focused(to).arranged_all()
        } else {
            self
        }
    }

    /// The state after the window `window` went to the workspace `to` at
    /// `position`.
    pub open spec fn window_sent(self, window: Id, to: Id, position: WorkspacePosition) -> State {
        if self.can_transfer(window, to) {
            let left = self.detached(window);
            left.attached(window, to, left.insertion_index(to, position)).workspace_focused(
                to,
            ).arranged_all()
        } else {
            self
        }
    }

    /// The state after the active window went to the monitor next to its
    /// own, at `position` of the workspace there.
    pub open spec fn window_moved_to_monitor(
        self,
        direction: Direction,
        position: WorkspacePosition,
    ) -> State {
        match (self.monitor_by_direction(direction), self.active_window()) {
            (Some(m), Some(active)) => self.window_sent(
                active,
                self.monitors[m].workspace,
                position,
            ),
            _ => self,
        }
    }

    /// The state after the active window changed places with its neighbour,
    /// or, where it has none, went to the next monitor.
    pub open spec fn window_moved(self, direction: Direction) -> State {
        match self.active_window() {
            Some(active) => match self.workspace_of(active) {
                Some(workspace) => match self.workspace_index(workspace) {
                    Some(index) => match self.workspaces[index].moved(active, direction) {
                        Some(moved) => self.with_workspace_at(index, moved).arranged(
                            workspace,
                            false,
                        ),
                        None => self.window_moved_to_monitor(
                            direction,
                            entry_position(direction),
                        ),
                    },
                    None => self,
                },
                None => self,
            },
            None => self,
        }
    }

    /// The state after the workspace above or below the active one was
    /// focused.
    pub open spec fn workspace_switched(self, direction: VerticalDirection) -> State {
        match self.workspace_by_direction(direction) {
            Some(workspace) => self.workspace_focused(workspace),
            None => self,
        }
    }

    /// The state after the active window went to the workspace above or
    /// below the active one, right after the window active there.
    pub open spec fn window_moved_vertically(self, direction: VerticalDirection) -> State {
        match (self.workspace_by_direction(direction), self.active_window()) {
            (Some(workspace), Some(active)) => self.window_sent(
                active,
                workspace,
                WorkspacePosition::ActiveWindow,
            ),
            _ => self,
        }
    }

    /// The state after the active window took the next of the widths
    /// `steps`, each a share of the monitor in units of `STEP_SCALE`.
    pub open spec fn window_resized(self, steps: Seq<u32>) -> State {
        match self.active_window() {
            Some(active) => match (self.window_index(active), self.monitor_by_window(active)) {
                (Some(i), Some(monitor)) => {
                    let w = self.windows[i];
                    match resized_width(steps, w.size.width, monitor.extents.size.width) {
                        Some(width) => self.with_window_at(
                            i,
                            Window { size: Size { width, height: w.size.height }, ..w },
                        ),
                        None => self,
                    }.arranged_all()
                },
                _ => self,
            },
            None => self,
        }
    }

    /// The state after the viewport was scrolled so that the active window
    /// stands in the middle of its monitor, as far as it stays in view.
    pub open spec fn window_centered(self) -> State {
        match self.active_window() {
            Some(active) => match self.window(active) {
                Some(w) => match w.on_workspace {
                    Some(workspace) => match (
                        self.workspace_index(workspace),
                        self.monitor_by_workspace(workspace),
                    ) {
                        (Some(index), Some(monitor)) => {
                            let view = self.workspaces[index];
                            let scroll_left = clamp_i32(
                                w.rendered.top_left.x + view.scroll_left
                                    - monitor.extents.top_left.x - half(
                                    monitor.extents.size.width as int,
                                ) + half(w.size.width as int),
                            );
                            self.with_workspace_at(
                                index,
                                WorkspaceView { scroll_left, ..view },
                            ).arranged(workspace, false)
                        },
                        _ => self,
                    },
                    None => self,
                },
                None => self,
            },
            None => self,
        }
    }

    /// The index of the keyboard layout after the one in use.
    pub open spec fn next_keyboard_layout(self) -> usize {
        if self.keyboard_layout < self.keyboard_layouts - 1 {
            (self.keyboard_layout + 1) as usize
        } else {
            0
        }
    }

    /// The state after the next keyboard layout was installed. Nothing
    /// changes where no layout is configured.
    pub open spec fn keyboard_layout_switched(self) -> State {
        if self.keyboard_layouts == 0 {
            self
        } else {
            State { keyboard_layout: self.next_keyboard_layout(), ..self }.with_command(
                Command::SetKeyboardLayout { index: self.next_keyboard_layout() },
            )
        }
    }

    /// The state after the client of the active window was asked to close
    /// it.
    pub open spec fn close_requested(self) -> State {
        match self.active_window() {
            Some(window) => self.with_command(Command::AskClientToClose { window }),
            None => self,
        }
    }
}

impl WindowManager {
    /// Focuses the leftmost window of the active workspace.
    pub fn naviate_first(&mut self)
        ensures
            final(self)@ == old(self)@.navigated_first(),
    {
        let first = match self.active_workspace() {
            Some(active) => match find_workspace(&self.workspaces, active) {
                Some(index) => {
                    let windows = self.workspaces[index].windows();
                    if windows.len() > 0 {
                        Some(windows[0])
                    } else {
                        None
                    }
                },
                None => None,
            },
            None => None,
        };
        match first {
            Some(window) => self.focus_window(Some(window)),
            None => {},
        }
    }

    /// Focuses the rightmost window of the active workspace.
    pub fn naviate_last(&mut self)
        ensures
            final(self)@ == old(self)@.navigated_last(),
    {
        let last = match self.active_workspace() {
            Some(active) => match find_workspace(&self.workspaces, active) {
                Some(index) => {
                    let windows = self.workspaces[index].windows();
                    let n: usize = windows.len();
                    if n > 0 {
                        Some(windows[n - 1])
                    } else {
                        None
                    }
                },
                None => None,
            },
            None => None,
        };
        match last {
            Some(window) => self.focus_window(Some(window)),
            None => {},
        }
    }

    /// The neighbour of the window `window_id` on its workspace.
    pub fn get_tiled_window(&self, window_id: Id, direction: Direction) -> (window: Option<Id>)
        ensures
            window == self@.tiled_neighbor(window_id, direction),
    {
        match self.workspace_of(window_id) {
            Some(workspace) => match find_workspace(&self.workspaces, workspace) {
                Some(index) => self.workspaces[index].window_by_direction(window_id, direction),
                None => None,
            },
            None => None,
        }
    }

    /// Enters the monitor next to the active one at `position`.
    pub fn navigate_monitor(&mut self, direction: Direction, position: WorkspacePosition)
        ensures
            final(self)@ == old(self)@.navigated_monitor(direction, position),
    {
        match self.get_monitor_by_direction(direction) {
            Some(m) => {
                let workspace = self.monitors[m].workspace;
                match self.get_window_for_entry(workspace, position) {
                    Some(window) => self.focus_window(Some(window)),
                    None => self.focus_workspace(workspace),
                }
            },
            None => {},
        }
    }

    /// Enters the monitor next to the active one.
    pub fn naviate_monitor(&mut self, direction: Direction, activation: Activation)
        ensures
            final(self)@ == old(self)@.navigated_monitor(
                direction,
                activation.spec_position(direction),
            ),
    {
        self.navigate_monitor(direction, activation.position(direction))
    }

    /// Focuses the neighbour of the active window, or, where it has none,
    /// the window at the near edge of the next monitor.
    pub fn naviate(&mut self, direction: Direction)
        ensures
            final(self)@ == old(self)@.navigated(direction),
    {
        let next = match self.active_window() {
            Some(active) => self.get_tiled_window(active, direction),
            None => None,
        };
        match next {
            Some(window) => self.focus_window(Some(window)),
            None => {
                let position = match direction {
                    Direction::Left => WorkspacePosition::End,
                    Direction::Right => WorkspacePosition::Start,
                };
                self.navigate_monitor(direction, position)
            },
        }
    }

    /// Takes the window `window_id` off its workspace.
    pub fn detach_window(&mut self, window_id: Id)
        ensures
            final(self)@ == old(self)@.detached(window_id),
    {
        let i = match find_window(&self.windows, window_id) {
            Some(i) => i,
            None => {
                return ;
            },
        };
        let w = self.windows[i];
        match w.on_workspace {
            Some(workspace) => {
                match find_workspace(&self.workspaces, workspace) {
                    Some(index) => {
                        self.workspaces[index].remove_window(window_id);
                        assert(self@.workspaces =~= old(self)@.with_workspace_at(
                            index as int,
                            old(self)@.workspaces[index as int].removed(window_id),
                        ).workspaces);
                    },
                    None => {},
                }
                self.windows.set(i, Window { on_workspace: None, ..w });
            },
            None => {},
        }
    }

    /// Takes the window `window` off its workspace. Fails if it is on none.
    pub fn remove_window_from_workspace(&mut self, window: Id) -> (result: Result<(), ()>)
        ensures
            result.is_ok() == old(self)@.workspace_of(window).is_some(),
            final(self)@ == old(self)@.detached(window),
    {
        let on_workspace = self.workspace_of(window).is_some();
        self.detach_window(window);
        if on_workspace {
            Ok(())
        } else {
            Err(())
        }
    }

    /// Puts the window `window_id` on the workspace `to` at `index` of its
    /// window sequence.
    pub fn attach_window(&mut self, window_id: Id, to: Id, index: usize)
        ensures
            final(self)@ == old(self)@.attached(window_id, to, index as int),
    {
        let i = match find_window(&self.windows, window_id) {
            Some(i) => i,
            None => {
                return ;
            },
        };
        let target = match find_workspace(&self.workspaces, to) {
            Some(target) => target,
            None => {
                return ;
            },
        };
        self.workspaces[target].add_window(window_id, index);
        assert(self@.workspaces =~= old(self)@.with_workspace_at(
            target as int,
            old(self)@.workspaces[target as int].inserted(window_id, index as int),
        ).workspaces);
        let w = self.windows[i];
        self.windows.set(i, Window { on_workspace: Some(to), ..w });
    }

    /// Whether the window `window_id` can go to the workspace `to`.
    fn can_transfer(&self, window_id: Id, to: Id) -> (possible: bool)
        ensures
            possible == self@.can_transfer(window_id, to),
    {
        self.workspace_of(window_id).is_some() && find_workspace(&self.workspaces, to).is_some()
    }

    /// Moves the window `window_id` to the workspace `to_workspace_id`, at
    /// `index` of its window sequence, focuses that workspace and lays out
    /// every workspace.
    pub fn move_window_workspace(&mut self, window_id: Id, to_workspace_id: Id, index: usize)
        ensures
            final(self)@ == old(self)@.window_moved_to_workspace(
                window_id,
                to_workspace_id,
                index as int,
            ),
    {
        if !self.can_transfer(window_id, to_workspace_id) {
            return ;
        }
        self.detach_window(window_id);
        self.attach_window(window_id, to_workspace_id, index);
        self.focus_workspace(to_workspace_id);
        self.arrange_windows();
    }

    /// Moves the window `window_id` to the workspace `to`, at `position`.
    pub fn move_window_to(&mut self, window_id: Id, to: Id, position: WorkspacePosition)
        ensures
            final(self)@ == old(self)@.window_sent(window_id, to, position),
    {
        if !self.can_transfer(window_id, to) {
            return ;
        }
        self.detach_window(window_id);
        let index = self.get_insertion_index(to, position);
        self.attach_window(window_id, to, index);
        self.focus_workspace(to);
        self.arrange_windows();
    }

    /// Moves the active window to the monitor next to its own, at
    /// `position` of the workspace there.
    pub fn move_window_to_monitor(&mut self, direction: Direction, position: WorkspacePosition)
        ensures
            final(self)@ == old(self)@.window_moved_to_monitor(direction, position),
    {
        match self.get_monitor_by_direction(direction) {
            Some(m) => match self.active_window() {
                Some(active) => {
                    let workspace = self.monitors[m].workspace;
                    self.move_window_to(active, workspace, position);
                },
                None => {},
            },
            None => {},
        }
    }

    /// Moves the active window to the monitor next to its own.
    pub fn move_window_monitor(&mut self, direction: Direction, activation: Activation)
        ensures
            final(self)@ == old(self)@.window_moved_to_monitor(
                direction,
                activation.spec_position(direction),
            ),
    {
        self.move_window_to_monitor(direction, activation.position(direction))
    }

    /// Exchanges the active window with its neighbour, or, where it has
    /// none, moves it to the near edge of the next monitor.
    pub fn move_window(&mut self, direction: Direction)
        ensures
            final(self)@ == old(self)@.window_moved(direction),
    {
        let active = match self.active_window() {
            Some(active) => active,
            None => {
                return ;
            },
        };
        let workspace = match self.workspace_of(active) {
            Some(workspace) => workspace,
            None => {
                return ;
            },
        };
        let index = match find_workspace(&self.workspaces, workspace) {
            Some(index) => index,
            None => {
                return ;
            },
        };
        match self.workspaces[index].move_window(active, direction) {
            Ok(()) => {
                assert(self@.workspaces =~= old(self)@.with_workspace_at(
                    index as int,
                    old(self)@.workspaces[index as int].moved(active, direction).unwrap(),
                ).workspaces);
                self.arrange_windows_workspace(workspace);
            },
            Err(()) => {
                assert(self@.workspaces =~= old(self)@.workspaces);
                let position = match direction {
                    Direction::Left => WorkspacePosition::End,
                    Direction::Right => WorkspacePosition::Start,
                };
                self.move_window_to_monitor(direction, position);
            },
        }
    }

    /// Focuses the workspace above or below the active one.
    pub fn switch_workspace(&mut self, direction: VerticalDirection)
        ensures
            final(self)@ == old(self)@.workspace_switched(direction),
    {
        match self.get_workspace_by_direction(direction) {
            Some(workspace) => self.focus_workspace(workspace),
            None => {},
        }
    }

    /// Moves the active window to the workspace above or below the active
    /// one.
    pub fn move_window_vertically(&mut self, direction: VerticalDirection)
        ensures
            final(self)@ == old(self)@.window_moved_vertically(direction),
    {
        match self.get_workspace_by_direction(direction) {
            Some(workspace) => match self.active_window() {
                Some(active) => {
                    self.move_window_to(active, workspace, WorkspacePosition::ActiveWindow);
                },
                None => {},
            },
            None => {},
        }
    }

    /// Gives the active window the next of the widths `steps`, each a share
    /// of the monitor in units of `STEP_SCALE`, and lays out every
    /// workspace.
    pub fn resize_window(&mut self, steps: &Vec<u32>)
        ensures
            final(self)@ == old(self)@.window_resized(steps@),
    {
        let active = match self.active_window() {
            Some(active) => active,
            None => {
                return ;
            },
        };
        let i = match find_window(&self.windows, active) {
            Some(i) => i,
            None => {
                return ;
            },
        };
        let monitor_width = match self.monitor_by_window(active) {
            Some(monitor) => monitor.extents.size.width,
            None => {
                return ;
            },
        };
        let w = self.windows[i];
        match pick_width(steps, w.size.width, monitor_width) {
            Some(width) => {
                self.windows.set(i, Window { size: Size { width, height: w.size.height }, ..w });
            },
            None => {},
        }
        self.arrange_windows();
    }

    /// Scrolls the viewport so that the active window stands in the middle
    /// of its monitor, and lays out its workspace.
    pub fn center_window(&mut self)
        ensures
            final(self)@ == old(self)@.window_centered(),
    {
        let active = match self.active_window() {
            Some(active) => active,
            None => {
                return ;
            },
        };
        let w = match find_window(&self.windows, active) {
            Some(i) => self.windows[i],
            None => {
                return ;
            },
        };
        let workspace = match w.on_workspace {
            Some(workspace) => workspace,
            None => {
                return ;
            },
        };
        let index = match find_workspace(&self.workspaces, workspace) {
            Some(index) => index,
            None => {
                return ;
            },
        };
        let zone = match find_monitor_by_workspace(&self.monitors, workspace) {
            Some(m) => self.monitors[m].extents,
            None => {
                return ;
            },
        };
        let current = self.workspaces[index].scroll_left();
        let exact: i64 = w.rendered.top_left.x as i64 + current as i64 - zone.top_left.x as i64
            - halve(zone.size.width) as i64 + halve(w.size.width) as i64;
        self.workspaces[index].set_scroll_left(saturate(exact));
        assert(self@.workspaces =~= old(self)@.with_workspace_at(
            index as int,
            WorkspaceView {
                scroll_left: clamp_i32(exact as int),
                ..old(self)@.workspaces[index as int]
            },
        ).workspaces);
        self.arrange_windows_workspace(workspace);
    }

    /// Installs the keyboard layout after the one in use.
    pub fn switch_keyboard_layout(&mut self)
        ensures
            final(self)@ == old(self)@.keyboard_layout_switched(),
    {
        if self.keyboard_layouts == 0 {
            return ;
        }
        let next = if self.keyboard_layout < self.keyboard_layouts - 1 {
            self.keyboard_layout + 1
        } else {
            0
        };
        self.keyboard_layout = next;
        self.commands.push(Command::SetKeyboardLayout { index: next });
    }

    /// Asks the client of the active window to close it.
    pub fn close_window(&mut self)
        ensures
            final(self)@ == old(self)@.close_requested(),
    {
        match self.active_window() {
            Some(window) => {
                self.commands.push(Command::AskClientToClose { window });
            },
            None => {},
        }
    }
}

} // verus!
