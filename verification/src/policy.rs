//! The life cycle of windows and monitors as the compositor reports it.

use crate::animation::AnimaitonState;
use crate::animation::after_frame;
use crate::animation::frame_commands;
use crate::animation::target_scan;
use crate::bindings::lemma_initial_bindings;
use crate::entities::AnimationStatus;
use crate::entities::Gesture;
use crate::entities::GestureType;
use crate::entities::Id;
use crate::entities::IdGenerator;
use crate::entities::Monitor;
use crate::entities::Window;
use crate::entities::WindowEdges;
use crate::entities::WindowInfo;
use crate::geometry::Point;
use crate::geometry::Rectangle;
use crate::invariants::lemma_initial_state;
use crate::mru_list::MruList;
use crate::mru_list::reversed;
use crate::mru_list::without;
use crate::state::State;
use crate::state::WindowManager;
use crate::state::find_monitor;
use crate::state::find_monitor_by_workspace;
use crate::state::find_window;
use crate::state::find_workspace;
use crate::workspace::Workspace;
use crate::workspace::WorkspaceView;
use vstd::prelude::*;

verus! {

/// The monitors `monitors` after those at the first `k` indices of `bound`
/// were given the first `k` workspaces of `order`.
pub open spec fn reassigned(monitors: Seq<Monitor>, bound: Seq<int>, order: Seq<Id>, k: int)
    -> Seq<Monitor>
    decreases k,
{
    if k <= 0 {
        monitors
    } else {
        let before = reassigned(monitors, bound, order, k - 1);
        let m = bound[k - 1];
        if 0 <= m < before.len() && k - 1 < order.len() {
            before.update(m, Monitor { workspace: order[k - 1], ..before[m] })
        } else {
            before
        }
    }
}

impl State {
    /// How many of the first `k` workspaces no monitor shows.
    pub open spec fn unbound_count(self, k: int) -> int
        decreases k,
    {
        if k <= 0 {
            0
        } else if self.is_unbound(self.workspaces[k - 1].id) {
            self.unbound_count(k - 1) + 1
        } else {
            self.unbound_count(k - 1)
        }
    }

    /// The state with one more workspace: empty, shown on no monitor and
    /// used least recently.
    pub open spec fn with_new_workspace(self) -> State {
        let id = self.next_workspace_id;
        State {
            workspaces: self.workspaces.push(
                WorkspaceView {
                    id,
                    scroll_left: 0,
                    windows: Seq::empty(),
                    mru_windows: Seq::empty(),
                },
            ),
            mru_workspaces: seq![id] + without(self.mru_workspaces, id),
            next_workspace_id: (id + 1) as Id,
            ..self
        }
    }

    /// The state with `n` more workspaces, or as many as there are
    /// identifiers left.
    pub open spec fn with_new_workspaces(self, n: nat) -> State
        decreases n,
    {
        if n == 0 || self.next_workspace_id == u64::MAX {
            self
        } else {
            self.with_new_workspace().with_new_workspaces((n - 1) as nat)
        }
    }

    /// How many workspaces are kept in reserve, shown on no monitor:
    /// `extra_workspaces` of them, and one at least.
    pub open spec fn reserve(self) -> int {
        if self.extra_workspaces < 1 {
            1
        } else {
            self.extra_workspaces as int
        }
    }

    /// How many workspaces are missing before a monitor can take one: one
    /// more than the reserve are to be shown on no monitor, so that the
    /// reserve is left when a monitor has taken its workspace.
    pub open spec fn missing_workspaces(self) -> nat {
        let wanted = self.reserve() + 1;
        let there = self.unbound_count(self.workspaces.len() as int);
        if there < wanted {
            (wanted - there) as nat
        } else {
            0
        }
    }

    /// The state with the reserve of workspaces filled up.
    pub open spec fn with_spare_workspaces(self) -> State {
        self.with_new_workspaces(self.missing_workspaces())
    }

    /// The first workspace from `from` on in `order` that no monitor shows.
    pub open spec fn first_unbound(self, order: Seq<Id>, from: int) -> Option<Id>
        decreases order.len() - from,
    {
        if from < 0 || from >= order.len() {
            None
        } else if self.is_unbound(order[from]) {
            Some(order[from])
        } else {
            self.first_unbound(order, from + 1)
        }
    }

    /// The workspace for a new monitor: of those that no monitor shows, the
    /// one used most recently.
    pub open spec fn unused_workspace(self) -> Option<Id> {
        self.first_unbound(reversed(self.mru_workspaces), 0)
    }

    /// Whether a monitor can be added: an identifier and a workspace are
    /// left for it.
    pub open spec fn can_add_monitor(self) -> bool {
        &&& self.next_monitor_id < u64::MAX
        &&& self.with_spare_workspaces().unused_workspace().is_some()
    }

    /// The state after a monitor with the zone `zone` appeared: the reserve
    /// of workspaces is filled up, the monitor shows the first workspace of
    /// the reserve, and that workspace is laid out.
    pub open spec fn monitor_added(self, zone: Rectangle) -> State {
        let spare = self.with_spare_workspaces();
        if self.can_add_monitor() {
            let workspace = spare.unused_workspace().unwrap();
            State {
                monitors: spare.monitors.push(
                    Monitor { id: spare.next_monitor_id, extents: zone, workspace },
                ),
                next_monitor_id: (spare.next_monitor_id + 1) as Id,
                ..spare
            }.arranged(workspace, false)
        } else {
            spare
        }
    }

    /// The state after the zone of the monitor `monitor` changed to `zone`:
    /// its workspace is laid out anew.
    pub open spec fn monitor_updated(self, monitor: Id, zone: Rectangle) -> State {
        match self.monitor_index(monitor) {
            Some(m) => State {
                monitors: self.monitors.update(m, Monitor { extents: zone, ..self.monitors[m] }),
                ..self
            }.arranged(self.monitors[m].workspace, false),
            None => self,
        }
    }

    /// The indices of the monitors that show one of the first `k` workspaces
    /// of `order`, in that order.
    pub open spec fn monitors_in_order(self, order: Seq<Id>, k: int) -> Seq<int>
        decreases k,
    {
        if k <= 0 {
            Seq::empty()
        } else {
            let before = self.monitors_in_order(order, k - 1);
            match self.monitor_index_by_workspace(order[k - 1]) {
                Some(m) => before.push(m),
                None => before,
            }
        }
    }

    /// The state after the monitor `monitor` disappeared: the monitors that
    /// are left, in the order of use of their workspaces, show the
    /// workspaces used most recently, and every workspace is laid out.
    pub open spec fn monitor_removed(self, monitor: Id) -> State {
        match self.monitor_index(monitor) {
            Some(m) => {
                let left = State { monitors: self.monitors.remove(m), ..self };
                let order = reversed(left.mru_workspaces);
                let bound = left.monitors_in_order(order, order.len() as int);
                State {
                    monitors: reassigned(left.monitors, bound, order, bound.len() as int),
                    ..left
                }.arranged_all()
            },
            None => self,
        }
    }

    /// The state after the window `window` was added: a window that takes
    /// part in the tiling becomes the window used most recently, goes right
    /// after the active window of the active workspace and gets the focus.
    pub open spec fn window_added(self, window: Window) -> State {
        let listed = State { windows: self.windows.push(window), ..self };
        if window.spec_is_tiled() {
            let known = State {
                mru_windows: without(listed.mru_windows, window.id).push(window.id),
                ..listed
            };
            match known.active_workspace() {
                Some(active) => match known.workspace(active) {
                    Some(w) => known.attached(
                        window.id,
                        active,
                        w.index_after_active(),
                    ).window_focused(window.id),
                    None => known,
                },
                None => known,
            }
        } else {
            listed
        }
    }

    /// The state after a surface became ready.
    pub open spec fn window_ready(self, info: WindowInfo) -> State {
        if self.next_window_id == u64::MAX {
            self
        } else {
            State { next_window_id: (self.next_window_id + 1) as Id, ..self }.window_added(
                Window {
                    id: self.next_window_id,
                    on_workspace: None,
                    x: info.extents.top_left.x,
                    y: info.extents.top_left.y,
                    size: info.extents.size,
                    rendered: info.extents,
                    is_dragged: false,
                    info,
                },
            )
        }
    }

    /// The state after the compositor reported what became of the window
    /// `window`: both its sizes follow the report, and its workspace is laid
    /// out.
    pub open spec fn window_configured(self, window: Id, info: WindowInfo) -> State {
        match self.window_index(window) {
            Some(i) => {
                let w = self.windows[i];
                let known = self.with_window_at(
                    i,
                    Window { size: info.extents.size, rendered: info.extents, info, ..w },
                );
                match w.on_workspace {
                    Some(workspace) => known.arranged(workspace, false),
                    None => known,
                }
            },
            None => self,
        }
    }

    /// The state after the window `window` was destroyed: it is gone from
    /// every list, and the window used most recently on the active workspace
    /// gets the focus.
    pub open spec fn window_deleted(self, window: Id) -> State {
        match self.window_index(window) {
            Some(i) => {
                let left = self.detached(window);
                let gone = State {
                    windows: left.windows.remove(i),
                    mru_windows: without(left.mru_windows, window),
                    ..left
                };
                match gone.active_workspace() {
                    Some(active) => match gone.workspace(active) {
                        Some(w) => match w.active_window() {
                            Some(next) => gone.window_focused(next),
                            None => gone,
                        },
                        None => gone,
                    },
                    None => gone,
                }
            },
            None => self,
        }
    }

    /// The state after the frame at `now`: every animation ran its frame.
    pub open spec fn frame_run(self, now: u64) -> State {
        State {
            animations: after_frame(self.animations, now),
            commands: self.commands + frame_commands(self.animations, now),
            ..self
        }
    }
}

/// New workspaces leave the monitors, the windows and their identifiers as
/// they are.
pub proof fn lemma_new_workspaces_frame(state: State, n: nat)
    ensures
        state.with_new_workspaces(n).monitors == state.monitors,
        state.with_new_workspaces(n).windows == state.windows,
        state.with_new_workspaces(n).mru_windows == state.mru_windows,
        state.with_new_workspaces(n).next_monitor_id == state.next_monitor_id,
        state.with_new_workspaces(n).next_window_id == state.next_window_id,
        state.with_new_workspaces(n).commands == state.commands,
    decreases n,
{
    if n != 0 && state.next_workspace_id != u64::MAX {
        lemma_new_workspaces_frame(state.with_new_workspace(), (n - 1) as nat);
    }
}

impl WindowManager {
    /// A window manager without monitors and windows, with the reserve of
    /// workspaces filled up.
    pub fn new(extra_workspaces: usize, keyboard_layouts: usize) -> (wm: WindowManager)
        ensures
            wm@ == (State {
                monitors: Seq::empty(),
                windows: Seq::empty(),
                workspaces: Seq::empty(),
                mru_windows: Seq::empty(),
                mru_workspaces: Seq::empty(),
                gesture: Gesture::Idle,
                old_cursor: Point { x: 0, y: 0 },
                animations: Seq::empty(),
                commands: Seq::empty(),
                next_monitor_id: 1,
                next_window_id: 1,
                next_workspace_id: 1,
                extra_workspaces,
                keyboard_layouts,
                keyboard_layout: 0,
            }).with_spare_workspaces(),
            wm@.wf(),
            wm@.bindings_wf(),
    {
        proof {
            lemma_initial_state(extra_workspaces, keyboard_layouts);
            lemma_initial_bindings(extra_workspaces, keyboard_layouts);
        }
        let mut wm = WindowManager {
            monitor_id_generator: IdGenerator::new(),
            window_id_generator: IdGenerator::new(),
            workspace_id_generator: IdGenerator::new(),
            monitors: Vec::new(),
            windows: Vec::new(),
            workspaces: Vec::new(),
            mru_windows: MruList::new(),
            mru_workspaces: MruList::new(),
            old_cursor: Point { x: 0, y: 0 },
            gesture: Gesture::Idle,
            animation_state: AnimaitonState::new(),
            commands: Vec::new(),
            extra_workspaces,
            keyboard_layouts,
            keyboard_layout: 0,
        };
        assert(wm@.workspaces =~= Seq::empty());
        wm.ensure_spare_workspaces();
        wm
    }

    /// How many workspaces no monitor shows.
    fn count_unbound(&self) -> (count: usize)
        ensures
            count == self@.unbound_count(self@.workspaces.len() as int),
    {
        let n: usize = self.workspaces.len();
        let mut count: usize = 0;
        let mut k: usize = 0;
        while k < n
            invariant
                n == self@.workspaces.len(),
                k <= n,
                count <= k,
                count == self@.unbound_count(k as int),
            decreases n - k,
        {
            if find_monitor_by_workspace(&self.monitors, self.workspaces[k].id()).is_none() {
                count = count + 1;
            }
            k = k + 1;
        }
        count
    }

    /// Adds an empty workspace at the bottom of the order of use.
    fn add_workspace(&mut self)
        requires
            old(self)@.next_workspace_id < u64::MAX,
        ensures
            final(self)@ == old(self)@.with_new_workspace(),
    {
        broadcast use vstd::laws_eq::group_laws_eq;

        let workspace = Workspace::new(&mut self.workspace_id_generator);
        let id = workspace.id();
        self.workspaces.push(workspace);
        self.mru_workspaces.push_bottom(id);
        assert(self@.workspaces =~= old(self)@.with_new_workspace().workspaces);
    }

    /// Fills up the reserve of workspaces that no monitor shows.
    pub fn ensure_spare_workspaces(&mut self)
        ensures
            final(self)@ == old(self)@.with_spare_workspaces(),
    {
        let there = self.count_unbound();
        let reserve: u128 = if self.extra_workspaces < 1 {
            1
        } else {
            self.extra_workspaces as u128
        };
        let wanted: u128 = reserve + 1;
        let mut missing: u128 = if (there as u128) < wanted {
            wanted - there as u128
        } else {
            0
        };
        while missing > 0 && !self.workspace_id_generator.is_exhausted()
            invariant
                self@.with_new_workspaces(missing as nat) == old(self)@.with_spare_workspaces(),
            decreases missing,
        {
            self.add_workspace();
            missing = missing - 1;
        }
    }

    /// The workspace for a new monitor.
    fn find_unused_workspace(&self) -> (workspace: Option<Id>)
        ensures
            workspace == self@.unused_workspace(),
    {
        let order = self.workspace_order();
        let n: usize = order.len();
        let mut k: usize = 0;
        while k < n
            invariant
                n == order@.len(),
                order@ == reversed(self@.mru_workspaces),
                k <= n,
                self@.first_unbound(order@, 0) == self@.first_unbound(order@, k as int),
            decreases n - k,
        {
            if find_monitor_by_workspace(&self.monitors, order[k]).is_none() {
                return Some(order[k]);
            }
            k = k + 1;
        }
        None
    }

    /// Fills up the reserve of workspaces and returns the first workspace of
    /// the reserve.
    pub fn get_or_create_unused_workspace(&mut self) -> (workspace: Option<Id>)
        ensures
            final(self)@ == old(self)@.with_spare_workspaces(),
            workspace == final(self)@.unused_workspace(),
    {
        self.ensure_spare_workspaces();
        self.find_unused_workspace()
    }

    /// Takes note of a new monitor with the application zone `zone` and
    /// returns its identifier; `None` if no identifier or no workspace is
    /// left for it.
    pub fn advise_application_zone_create(&mut self, zone: Rectangle) -> (monitor: Option<Id>)
        ensures
            final(self)@ == old(self)@.monitor_added(zone),
            monitor == if old(self)@.can_add_monitor() {
                Some(old(self)@.next_monitor_id)
            } else {
                None
            },
    {
        let unused = self.get_or_create_unused_workspace();
        proof {
            lemma_new_workspaces_frame(old(self)@, old(self)@.missing_workspaces());
        }
        if self.monitor_id_generator.is_exhausted() {
            return None;
        }
        match unused {
            Some(workspace) => {
                let monitor = Monitor::new(&mut self.monitor_id_generator, zone, workspace);
                let id = monitor.id;
                self.monitors.push(monitor);
                self.arrange_windows_workspace(workspace);
                Some(id)
            },
            None => None,
        }
    }

    /// Takes note of the new application zone of the monitor `monitor`.
    pub fn advise_application_zone_update(&mut self, monitor: Id, zone: Rectangle)
        ensures
            final(self)@ == old(self)@.monitor_updated(monitor, zone),
    {
        match find_monitor(&self.monitors, monitor) {
            Some(m) => {
                let old = self.monitors[m];
                self.monitors.set(m, Monitor { extents: zone, ..old });
                self.arrange_windows_workspace(old.workspace);
            },
            None => {},
        }
    }

    /// The indices of the monitors in the order of use of their workspaces.
    fn monitors_in_order(&self, order: &Vec<Id>) -> (bound: Vec<usize>)
        ensures
            bound@.len() == self@.monitors_in_order(order@, order@.len() as int).len(),
            forall|k: int|
                0 <= k < bound@.len() ==> bound@[k] as int == self@.monitors_in_order(
                    order@,
                    order@.len() as int,
                )[k],
    {
        let mut bound: Vec<usize> = Vec::new();
        let n: usize = order.len();
        let mut k: usize = 0;
        while k < n
            invariant
                n == order@.len(),
                k <= n,
                bound@.len() == self@.monitors_in_order(order@, k as int).len(),
                forall|j: int|
                    0 <= j < bound@.len() ==> bound@[j] as int == self@.monitors_in_order(
                        order@,
                        k as int,
                    )[j],
            decreases n - k,
        {
            match find_monitor_by_workspace(&self.monitors, order[k]) {
                Some(m) => {
                    bound.push(m);
                },
                None => {},
            }
            k = k + 1;
        }
        bound
    }

    /// Takes note that the monitor `monitor` is gone.
    pub fn advise_application_zone_delete(&mut self, monitor: Id)
        ensures
            final(self)@ == old(self)@.monitor_removed(monitor),
    {
        let m = match find_monitor(&self.monitors, monitor) {
            Some(m) => m,
            None => {
                return ;
            },
        };
        self.monitors.remove(m);
        let order = self.workspace_order();
        let bound = self.monitors_in_order(&order);
        let ghost left = self@;
        let ghost indices = left.monitors_in_order(order@, order@.len() as int);
        let n: usize = bound.len();
        let mut k: usize = 0;
        while k < n
            invariant
                n == bound@.len(),
                n == indices.len(),
                forall|j: int| 0 <= j < n ==> bound@[j] as int == indices[j],
                k <= n,
                self@ == (State {
                    monitors: reassigned(left.monitors, indices, order@, k as int),
                    ..left
                }),
            decreases n - k,
        {
            let index = bound[k];
            if index < self.monitors.len() && k < order.len() {
                let old = self.monitors[index];
                self.monitors.set(index, Monitor { workspace: order[k], ..old });
            }
            k = k + 1;
        }
        self.arrange_windows();
    }

    /// Adds the window `window`.
    pub fn add_window(&mut self, window: Window)
        ensures
            final(self)@ == old(self)@.window_added(window),
    {
        broadcast use vstd::laws_eq::group_laws_eq;

        self.windows.push(window);
        if !window.is_tiled() {
            return ;
        }
        self.mru_windows.push(window.id);
        let active = match self.active_workspace() {
            Some(active) => active,
            None => {
                return ;
            },
        };
        let index = match find_workspace(&self.workspaces, active) {
            Some(i) => self.workspaces[i].index_after_active(),
            None => {
                return ;
            },
        };
        self.attach_window(window.id, active, index);
        self.focus_window(Some(window.id));
    }

    /// Takes note of a surface that became ready and returns the identifier
    /// of its window; `None` if no identifier is left.
    pub fn handle_window_ready(&mut self, info: WindowInfo) -> (window: Option<Id>)
        ensures
            final(self)@ == old(self)@.window_ready(info),
            window == if old(self)@.next_window_id == u64::MAX {
                None
            } else {
                Some(old(self)@.next_window_id)
            },
    {
        if self.window_id_generator.is_exhausted() {
            return None;
        }
        let window = Window::new(&mut self.window_id_generator, info);
        self.add_window(window);
        Some(window.id)
    }

    /// Takes note of what became of the window `window`.
    pub fn advise_configured_window(&mut self, window: Id, info: WindowInfo)
        ensures
            final(self)@ == old(self)@.window_configured(window, info),
    {
        match find_window(&self.windows, window) {
            Some(i) => {
                let w = self.windows[i];
                self.windows.set(
                    i,
                    Window { size: info.extents.size, rendered: info.extents, info, ..w },
                );
                match w.on_workspace {
                    Some(workspace) => {
                        self.arrange_windows_workspace(workspace);
                    },
                    None => {},
                }
            },
            None => {},
        }
    }

    /// Takes note that the window `window` has the focus.
    pub fn advise_focus_gained(&mut self, window: Id)
        ensures
            final(self)@ == old(self)@.window_focused(window),
    {
        self.focus_window(Some(window))
    }

    /// Forgets the window `window_id`.
    pub fn delete_window(&mut self, window_id: Id)
        ensures
            final(self)@ == old(self)@.window_deleted(window_id),
    {
        broadcast use vstd::laws_eq::group_laws_eq;

        let i = match find_window(&self.windows, window_id) {
            Some(i) => i,
            None => {
                return ;
            },
        };
        self.detach_window(window_id);
        self.windows.remove(i);
        self.mru_windows.remove(&window_id);
        let next = match self.active_workspace() {
            Some(active) => match find_workspace(&self.workspaces, active) {
                Some(index) => self.workspaces[index].active_window(),
                None => None,
            },
            None => None,
        };
        match next {
            Some(next) => self.focus_window(Some(next)),
            None => {},
        }
    }

    /// Takes note that the window `window` is gone.
    pub fn advise_delete_window(&mut self, window: Id)
        ensures
            final(self)@ == old(self)@.window_deleted(window),
    {
        self.delete_window(window)
    }

    /// Begins a move gesture that the client of `window` asks for;
    /// `has_focus` is the compositor's answer to whether it has the window
    /// focused.
    pub fn handle_request_move(&mut self, window: Id, has_focus: bool, cursor: Point) -> (granted:
        bool)
        ensures
            granted == old(self)@.grants_gesture(window, has_focus),
            final(self)@ == old(self)@.gesture_requested(
                window,
                has_focus,
                cursor,
                WindowEdges { top: false, bottom: false, left: false, right: false },
                GestureType::Move,
            ),
    {
        self.handle_pointer_request(
            window,
            has_focus,
            cursor,
            WindowEdges { top: false, bottom: false, left: false, right: false },
            GestureType::Move,
        )
    }

    /// Begins a resize gesture that the client of `window` asks for;
    /// `has_focus` is the compositor's answer to whether it has the window
    /// focused.
    pub fn handle_request_resize(
        &mut self,
        window: Id,
        has_focus: bool,
        cursor: Point,
        edges: WindowEdges,
    ) -> (granted: bool)
        ensures
            granted == old(self)@.grants_gesture(window, has_focus),
            final(self)@ == old(self)@.gesture_requested(
                window,
                has_focus,
                cursor,
                edges,
                GestureType::Resize,
            ),
    {
        self.handle_pointer_request(window, has_focus, cursor, edges, GestureType::Resize)
    }

    /// Runs the frame at `now`, in microseconds, for every animation.
    pub fn frame(&mut self, now: u64)
        ensures
            final(self)@ == old(self)@.frame_run(now),
    {
        self.animation_state.step(now, &mut self.commands);
    }

    /// Whether the window `window` is on its way, and where to.
    pub fn animation_status(&self, window: Id) -> (status: AnimationStatus)
        ensures
            status == target_scan(
                self@.animations,
                window,
                self@.animations.len() as int,
            ),
    {
        self.animation_state.status(window)
    }
}

} // verus!
