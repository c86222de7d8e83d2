//! The layout engine: packs the windows of a workspace side by side, sizes
//! them to the monitor, scrolls the viewport to the active window and commits
//! the positions that result.

use crate::animation::Animation;
use crate::animation::AnimationDriver;
use crate::animation::after_start;
use crate::animation::spec_window_animation_millis;
use crate::animation::start_commands;
use crate::animation::window_animation_millis;
use crate::entities::Command;
use crate::entities::Gesture;
use crate::entities::Id;
use crate::entities::Window;
use crate::geometry::Point;
use crate::geometry::Rectangle;
use crate::geometry::Size;
use crate::geometry::clamp_i32;
use crate::geometry::half;
use crate::geometry::sat_add;
use crate::geometry::saturate;
use crate::mru_list::reversed;
use crate::state::State;
use crate::state::WindowManager;
use crate::state::find_monitor_by_workspace;
use crate::state::find_window;
use crate::state::find_workspace;
use crate::workspace::WorkspaceView;
use crate::workspace::copy_ids;
use vstd::prelude::*;

verus! {

/// The smaller of two numbers.
pub open spec fn min_i32(a: i32, b: i32) -> i32 {
    if a <= b {
        a
    } else {
        b
    }
}

/// The window `w` placed at the workspace-local `x` in the zone `zone`: as
/// high as the zone, or as its own limit if that is less, and centred
/// vertically.
pub open spec fn placed(w: Window, x: i32, zone: Rectangle) -> Window {
    let height = min_i32(zone.size.height, w.info.max_height);
    Window {
        x,
        y: clamp_i32(zone.top_left.y + half(zone.size.height - height)),
        size: Size { width: w.size.width, height },
        ..w
    }
}

/// The scroll offset that shows a window spanning `width` from `left` in the
/// zone `zone`, coming from `scroll_left`: unchanged where the window is in
/// view, else the nearest offset that brings its left, or else its right,
/// edge to the edge of the zone.
pub open spec fn scrolled_to(scroll_left: i32, zone: Rectangle, left: i32, width: i32) -> i32 {
    if left < scroll_left + zone.top_left.x {
        clamp_i32(left - zone.top_left.x)
    } else if left + width > scroll_left + zone.exact_right() {
        clamp_i32(left + width - zone.exact_right())
    } else {
        scroll_left
    }
}

/// The animation that takes the window `window` from `start` to `end`.
pub open spec fn window_animation(window: Id, start: Point, end: Point) -> Animation {
    Animation {
        driver: AnimationDriver::WindowPosition { window, start, end },
        delay: 0,
        duration: (spec_window_animation_millis(start, end) * 1000) as u64,
        progress: None,
    }
}

impl State {
    /// Whether the window `id` exists and takes part in the tiling.
    pub open spec fn is_tiled(self, id: Id) -> bool {
        match self.window(id) {
            Some(w) => w.spec_is_tiled(),
            None => false,
        }
    }

    /// The workspace-local x coordinate at which entry `k` of the window
    /// sequence `windows` begins: the tiled windows before it stand side by
    /// side from `zone_left` on.
    pub open spec fn packed_left(self, windows: Seq<Id>, zone_left: i32, k: int) -> i32
        decreases k,
    {
        if k <= 0 {
            zone_left
        } else {
            let before = self.packed_left(windows, zone_left, k - 1);
            match self.window(windows[k - 1]) {
                Some(w) => if w.spec_is_tiled() {
                    clamp_i32(before + w.size.width)
                } else {
                    before
                },
                None => before,
            }
        }
    }

    /// The window at `i` after the workspace `workspace` was packed into
    /// `zone`: a tiled window of the workspace gets its place, any other
    /// window stays as it is.
    pub open spec fn placed_window(self, workspace: WorkspaceView, zone: Rectangle, i: int)
        -> Window {
        let w = self.windows[i];
        match workspace.windows.index_of_first(w.id) {
            Some(k) => if w.spec_is_tiled() {
                placed(w, self.packed_left(workspace.windows, zone.top_left.x, k), zone)
            } else {
                w
            },
            None => w,
        }
    }

    /// The state after the pending positions of the windows of a workspace
    /// were computed. A workspace that no monitor shows is left alone.
    pub open spec fn with_cached_positions(self, workspace_id: Id) -> State {
        match (self.workspace(workspace_id), self.monitor_by_workspace(workspace_id)) {
            (Some(workspace), Some(monitor)) => State {
                windows: Seq::new(
                    self.windows.len(),
                    |i: int| self.placed_window(workspace, monitor.extents, i),
                ),
                ..self
            },
            _ => self,
        }
    }

    /// The state after the workspace at `index` was scrolled so that the
    /// pending position of the window `window` lies in `zone`.
    pub open spec fn with_window_visible_on(self, index: int, zone: Rectangle, window: Window)
        -> State {
        let workspace = self.workspaces[index];
        self.with_workspace_at(
            index,
            WorkspaceView {
                scroll_left: scrolled_to(workspace.scroll_left, zone, window.x, window.size.width),
                ..workspace
            },
        )
    }

    /// The state after the workspace of the window `window_id` was scrolled
    /// so that the window is in view. Nothing changes if the window is on no
    /// workspace or its workspace on no monitor.
    pub open spec fn with_window_visible(self, window_id: Id) -> State {
        match self.window(window_id) {
            Some(window) => match window.on_workspace {
                Some(workspace_id) => match (
                    self.workspace_index(workspace_id),
                    self.monitor_by_workspace(workspace_id),
                ) {
                    (Some(index), Some(monitor)) => self.with_window_visible_on(
                        index,
                        monitor.extents,
                        window,
                    ),
                    _ => self,
                },
                None => self,
            },
            None => self,
        }
    }

    /// The state after the window `window` was sent from its committed
    /// position to `to`: the position is committed, and an animation leads
    /// there unless the window stands there already.
    pub open spec fn with_window_animated(self, window: Id, to: Point) -> State {
        match self.window_index(window) {
            Some(i) => {
                let w = self.windows[i];
                if w.rendered.top_left == to {
                    self
                } else {
                    let animation = window_animation(window, w.rendered.top_left, to);
                    State {
                        windows: self.windows.update(
                            i,
                            Window {
                                rendered: Rectangle { top_left: to, size: w.rendered.size },
                                ..w
                            },
                        ),
                        animations: after_start(self.animations, animation),
                        commands: self.commands + start_commands(self.animations, animation),
                        ..self
                    }
                }
            },
            None => self,
        }
    }

    /// The state after the window `window` was put at `to` at once: the
    /// position is committed, and an animation without duration leads there.
    pub open spec fn with_window_snapped(self, window: Id, to: Point) -> State {
        match self.window_index(window) {
            Some(i) => {
                let w = self.windows[i];
                let animation = Animation {
                    driver: AnimationDriver::WindowPosition {
                        window,
                        start: w.rendered.top_left,
                        end: to,
                    },
                    delay: 0,
                    duration: 0,
                    progress: None,
                };
                State {
                    windows: self.windows.update(
                        i,
                        Window { rendered: Rectangle { top_left: to, size: w.rendered.size }, ..w },
                    ),
                    animations: after_start(self.animations, animation),
                    commands: self.commands + start_commands(self.animations, animation),
                    ..self
                }
            },
            None => self,
        }
    }

    /// Whether a move gesture holds the window `id`.
    pub open spec fn held_by_move(self, id: Id) -> bool {
        match self.gesture {
            Gesture::Move(gesture) => gesture.window == id,
            _ => false,
        }
    }

    /// The state after the pending position of the window `id` was
    /// committed, seen through a viewport scrolled by `scroll_left`. Another
    /// size is set at once; another position alone is reached by an
    /// animation. A window that is not tiled is left alone, and so is one
    /// that a move gesture holds, unless `force` is set.
    pub open spec fn with_committed_window(self, id: Id, scroll_left: i32, force: bool) -> State {
        match self.window_index(id) {
            Some(i) => {
                let w = self.windows[i];
                let extents = w.spec_screen_extents(scroll_left);
                if !w.spec_is_tiled() || (!force && self.held_by_move(id)) {
                    self
                } else if extents.size != w.rendered.size {
                    State {
                        windows: self.windows.update(i, Window { rendered: extents, ..w }),
                        commands: self.commands.push(Command::SetExtents { window: id, extents }),
                        ..self
                    }
                } else {
                    self.with_window_animated(id, extents.top_left)
                }
            },
            None => self,
        }
    }

    /// The state after the first `k` windows of `windows` were committed.
    pub open spec fn with_committed_windows(
        self,
        windows: Seq<Id>,
        scroll_left: i32,
        force: bool,
        k: int,
    ) -> State
        decreases k,
    {
        if k <= 0 {
            self
        } else {
            self.with_committed_windows(windows, scroll_left, force, k - 1).with_committed_window(
                windows[k - 1],
                scroll_left,
                force,
            )
        }
    }

    /// The state after the pending positions of all windows of a workspace
    /// were committed.
    pub open spec fn with_window_positions(self, workspace_id: Id, force: bool) -> State {
        match self.workspace(workspace_id) {
            Some(workspace) => self.with_committed_windows(
                workspace.windows,
                workspace.scroll_left,
                force,
                workspace.windows.len() as int,
            ),
            None => self,
        }
    }

    /// The state after a workspace was laid out: its windows packed and
    /// sized, the viewport scrolled to the window used most recently if that
    /// one is tiled, and the positions committed. A workspace that no
    /// monitor shows is not laid out.
    pub open spec fn arranged(self, workspace_id: Id, force: bool) -> State {
        match (self.workspace_index(workspace_id), self.monitor_by_workspace(workspace_id)) {
            (Some(index), Some(monitor)) => {
                let packed = self.with_cached_positions(workspace_id);
                let scrolled = match packed.workspaces[index].active_window() {
                    Some(active) => match packed.window(active) {
                        Some(window) => if window.spec_is_tiled() {
                            packed.with_window_visible_on(index, monitor.extents, window)
                        } else {
                            packed
                        },
                        None => packed,
                    },
                    None => packed,
                };
                scrolled.with_window_positions(workspace_id, force)
            },
            _ => self,
        }
    }

    /// The state after the first `k` of the workspaces `order` were laid
    /// out.
    pub open spec fn arranged_upto(self, order: Seq<Id>, k: int) -> State
        decreases k,
    {
        if k <= 0 {
            self
        } else {
            self.arranged_upto(order, k - 1).arranged(order[k - 1], false)
        }
    }

    /// The state after every workspace was laid out, the one used most
    /// recently first.
    pub open spec fn arranged_all(self) -> State {
        self.arranged_upto(reversed(self.mru_workspaces), self.mru_workspaces.len() as int)
    }
}

/// The window `w` placed at `x` in `zone`.
pub fn place(w: &Window, x: i32, zone: &Rectangle) -> (window: Window)
    ensures
        window == placed(*w, x, *zone),
{
    let height = if zone.size.height <= w.info.max_height {
        zone.size.height
    } else {
        w.info.max_height
    };
    let spare: i64 = zone.size.height as i64 - height as i64;
    let y = saturate(zone.top_left.y as i64 + spare / 2);
    Window { x, y, size: Size { width: w.size.width, height }, ..*w }
}

/// The scroll offset that shows a window spanning `width` from `left`.
pub fn scroll_to(scroll_left: i32, zone: &Rectangle, left: i32, width: i32) -> (scroll: i32)
    ensures
        scroll == scrolled_to(scroll_left, *zone, left, width),
{
    let zone_left: i64 = zone.top_left.x as i64;
    let zone_right: i64 = zone_left + zone.size.width as i64;
    let right: i64 = left as i64 + width as i64;
    if (left as i64) < scroll_left as i64 + zone_left {
        saturate(left as i64 - zone_left)
    } else if right > scroll_left as i64 + zone_right {
        saturate(right - zone_right)
    } else {
        scroll_left
    }
}

impl WindowManager {
    /// The workspace-local x coordinates at which the entries of the window
    /// sequence of the workspace at `index` begin.
    fn packed_lefts(&self, index: usize, zone_left: i32) -> (lefts: Vec<i32>)
        requires
            index < self.workspaces@.len(),
        ensures
            lefts@.len() == self@.workspaces[index as int].windows.len(),
            forall|k: int|
                0 <= k < lefts@.len() ==> lefts@[k] == self@.packed_left(
                    self@.workspaces[index as int].windows,
                    zone_left,
                    k,
                ),
    {
        let listed = self.workspaces[index].windows();
        let ghost windows = self@.workspaces[index as int].windows;
        let mut lefts: Vec<i32> = Vec::new();
        let mut x: i32 = zone_left;
        let n: usize = listed.len();
        let mut k: usize = 0;
        while k < n
            invariant
                listed@ == windows,
                n == windows.len(),
                k <= n,
                lefts@.len() == k,
                x == self@.packed_left(windows, zone_left, k as int),
                forall|j: int|
                    0 <= j < k ==> lefts@[j] == self@.packed_left(windows, zone_left, j),
            decreases n - k,
        {
            lefts.push(x);
            match find_window(&self.windows, listed[k]) {
                Some(i) => {
                    if self.windows[i].is_tiled() {
                        x = sat_add(x, self.windows[i].size.width);
                    }
                },
                None => {},
            }
            k = k + 1;
        }
        lefts
    }

    /// Computes the pending positions of the windows of a workspace.
    pub fn update_cached_positions(&mut self, workspace_id: Id)
        ensures
            final(self)@ == old(self)@.with_cached_positions(workspace_id),
    {
        let index = match find_workspace(&self.workspaces, workspace_id) {
            Some(index) => index,
            None => {
                return ;
            },
        };
        let zone = match find_monitor_by_workspace(&self.monitors, workspace_id) {
            Some(m) => self.monitors[m].extents,
            None => {
                return ;
            },
        };
        let lefts = self.packed_lefts(index, zone.top_left.x);
        let ghost before = self@;
        let ghost workspace = before.workspaces[index as int];
        let n: usize = self.windows.len();
        let mut i: usize = 0;
        while i < n
            invariant
                index < self.workspaces@.len(),
                self.workspaces == old(self).workspaces,
                before == old(self)@,
                n == before.windows.len(),
                i <= n,
                self@ == (State { windows: self@.windows, ..before }),
                self@.windows.len() == n,
                workspace == before.workspaces[index as int],
                lefts@.len() == workspace.windows.len(),
                forall|k: int|
                    0 <= k < lefts@.len() ==> lefts@[k] == before.packed_left(
                        workspace.windows,
                        zone.top_left.x,
                        k,
                    ),
                forall|j: int|
                    0 <= j < i ==> self@.windows[j] == before.placed_window(workspace, zone, j),
                forall|j: int| i <= j < n ==> self@.windows[j] == before.windows[j],
            decreases n - i,
        {
            let w = self.windows[i];
            if w.is_tiled() {
                match self.workspaces[index].get_window_index(w.id) {
                    Some(k) => {
                        let moved = place(&w, lefts[k], &zone);
                        self.windows.set(i, moved);
                    },
                    None => {},
                }
            } else {
                proof {
                    workspace.windows.index_of_first_ensures(w.id);
                }
            }
            i = i + 1;
        }
        assert(self@.windows =~= old(self)@.with_cached_positions(workspace_id).windows);
    }

    /// Scrolls the workspace at `index` so that the pending position of
    /// `window` lies in `zone`.
    fn scroll_into_view(&mut self, index: usize, zone: &Rectangle, window: &Window)
        requires
            index < old(self).workspaces@.len(),
        ensures
            final(self)@ == old(self)@.with_window_visible_on(index as int, *zone, *window),
    {
        let scroll_left = self.workspaces[index].scroll_left();
        let scroll = scroll_to(scroll_left, zone, window.x, window.size.width);
        self.workspaces[index].set_scroll_left(scroll);
        assert(self@.workspaces =~= old(self)@.with_window_visible_on(
            index as int,
            *zone,
            *window,
        ).workspaces);
    }

    /// Scrolls the workspace of the window `window_id` so that the window is
    /// in view.
    pub fn ensure_window_visible(&mut self, window_id: Id)
        ensures
            final(self)@ == old(self)@.with_window_visible(window_id),
    {
        let window = match find_window(&self.windows, window_id) {
            Some(i) => self.windows[i],
            None => {
                return ;
            },
        };
        let workspace_id = match window.on_workspace {
            Some(workspace_id) => workspace_id,
            None => {
                return ;
            },
        };
        let index = match find_workspace(&self.workspaces, workspace_id) {
            Some(index) => index,
            None => {
                return ;
            },
        };
        let zone = match find_monitor_by_workspace(&self.monitors, workspace_id) {
            Some(m) => self.monitors[m].extents,
            None => {
                return ;
            },
        };
        self.scroll_into_view(index, &zone, &window);
    }

    /// Sends the window `window` from its committed position to
    /// `to_top_left`, in a time that grows with the distance.
    pub fn animate_window_position(&mut self, window: Id, to_top_left: Point)
        ensures
            final(self)@ == old(self)@.with_window_animated(window, to_top_left),
    {
        let i = match find_window(&self.windows, window) {
            Some(i) => i,
            None => {
                return ;
            },
        };
        let w = self.windows[i];
        let start = w.rendered.top_left;
        if start == to_top_left {
            return ;
        }
        let millis = window_animation_millis(start, to_top_left);
        let animation = Animation::immediate(
            millis * 1000,
            AnimationDriver::WindowPosition { window, start, end: to_top_left },
        );
        self.windows.set(
            i,
            Window { rendered: Rectangle { top_left: to_top_left, size: w.rendered.size }, ..w },
        );
        self.animation_state.start_animation(animation, &mut self.commands);
    }

    /// Puts the window `window` at `to_top_left` at once.
    pub fn set_window_position(&mut self, window: Id, to_top_left: Point)
        ensures
            final(self)@ == old(self)@.with_window_snapped(window, to_top_left),
    {
        let i = match find_window(&self.windows, window) {
            Some(i) => i,
            None => {
                return ;
            },
        };
        let w = self.windows[i];
        let animation = Animation::immediate(
            0,
            AnimationDriver::WindowPosition {
                window,
                start: w.rendered.top_left,
                end: to_top_left,
            },
        );
        self.windows.set(
            i,
            Window { rendered: Rectangle { top_left: to_top_left, size: w.rendered.size }, ..w },
        );
        self.animation_state.start_animation(animation, &mut self.commands);
    }

    /// Commits the pending position of the window `id`.
    fn commit_window(&mut self, id: Id, scroll_left: i32, force: bool)
        ensures
            final(self)@ == old(self)@.with_committed_window(id, scroll_left, force),
    {
        let i = match find_window(&self.windows, id) {
            Some(i) => i,
            None => {
                return ;
            },
        };
        let w = self.windows[i];
        let held = match self.gesture {
            Gesture::Move(gesture) => gesture.window == id,
            _ => false,
        };
        if !w.is_tiled() || (!force && held) {
            return ;
        }
        let extents = w.screen_extents(scroll_left);
        if extents.size != w.rendered.size {
            self.windows.set(i, Window { rendered: extents, ..w });
            self.commands.push(Command::SetExtents { window: id, extents });
        } else {
            self.animate_window_position(id, extents.top_left);
        }
    }

    /// Commits the pending positions of the windows of a workspace: another
    /// size is set at once, another position is reached by an animation.
    pub fn update_window_positions(&mut self, workspace_id: Id, force: bool)
        ensures
            final(self)@ == old(self)@.with_window_positions(workspace_id, force),
    {
        let index = match find_workspace(&self.workspaces, workspace_id) {
            Some(index) => index,
            None => {
                return ;
            },
        };
        let scroll_left = self.workspaces[index].scroll_left();
        let windows = copy_ids(self.workspaces[index].windows());
        let ghost before = self@;
        let n: usize = windows.len();
        let mut k: usize = 0;
        while k < n
            invariant
                n == windows@.len(),
                k <= n,
                self@ == before.with_committed_windows(windows@, scroll_left, force, k as int),
            decreases n - k,
        {
            self.commit_window(windows[k], scroll_left, force);
            k = k + 1;
        }
    }

    /// Lays out a workspace, committing also the window that a move gesture
    /// holds if `force` is set.
    pub fn arrange_windows_workspace_options(&mut self, workspace_id: Id, force: bool)
        ensures
            final(self)@ == old(self)@.arranged(workspace_id, force),
    {
        let index = match find_workspace(&self.workspaces, workspace_id) {
            Some(index) => index,
            None => {
                return ;
            },
        };
        let zone = match find_monitor_by_workspace(&self.monitors, workspace_id) {
            Some(m) => self.monitors[m].extents,
            None => {
                return ;
            },
        };
        self.update_cached_positions(workspace_id);
        match self.workspaces[index].active_window() {
            Some(active) => match find_window(&self.windows, active) {
                Some(i) => {
                    let window = self.windows[i];
                    if window.is_tiled() {
                        self.scroll_into_view(index, &zone, &window);
                    }
                },
                None => {},
            },
            None => {},
        }
        self.update_window_positions(workspace_id, force);
    }

    /// Lays out a workspace.
    pub fn arrange_windows_workspace(&mut self, workspace_id: Id)
        ensures
            final(self)@ == old(self)@.arranged(workspace_id, false),
    {
        self.arrange_windows_workspace_options(workspace_id, false)
    }

    /// Lays out every workspace, the one used most recently first.
    pub fn arrange_windows(&mut self)
        ensures
            final(self)@ == old(self)@.arranged_all(),
    {
        let order = self.workspace_order();
        let ghost before = self@;
        let n: usize = order.len();
        let mut k: usize = 0;
        while k < n
            invariant
                n == order@.len(),
                k <= n,
                self@ == before.arranged_upto(order@, k as int),
            decreases n - k,
        {
            self.arrange_windows_workspace(order[k]);
            k = k + 1;
        }
    }

    /// The workspaces, the one used most recently first.
    pub fn workspace_order(&self) -> (order: Vec<Id>)
        ensures
            order@ == reversed(self@.mru_workspaces),
    {
        let mut order: Vec<Id> = Vec::new();
        let n: usize = self.mru_workspaces.len();
        let mut k: usize = 0;
        while k < n
            invariant
                n == self@.mru_workspaces.len(),
                k <= n,
                order@.len() == k,
                forall|j: int| 0 <= j < k ==> order@[j] == reversed(self@.mru_workspaces)[j],
            decreases n - k,
        {
            match self.mru_workspaces.nth(k) {
                Some(id) => {
                    order.push(*id);
                },
                None => {},
            }
            k = k + 1;
        }
        assert(order@ =~= reversed(self@.mru_workspaces));
        order
    }
}

} // verus!
