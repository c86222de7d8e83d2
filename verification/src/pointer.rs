//! Pointer gestures: moving and resizing a window with the pointer, swapping
//! it with its neighbours and carrying it to another monitor.

use crate::entities::Command;
use crate::entities::Direction;
use crate::entities::Gesture;
use crate::entities::GestureType;
use crate::entities::Id;
use crate::entities::Monitor;
use crate::entities::MoveGesture;
use crate::entities::ResizeGesture;
use crate::entities::Window;
use crate::entities::WindowEdges;
use crate::entities::WindowInfo;
use crate::entities::WorkspacePosition;
use crate::geometry::Displacement;
use crate::geometry::Point;
use crate::geometry::Rectangle;
use crate::geometry::Size;
use crate::geometry::clamp_i32;
use crate::geometry::half;
use crate::geometry::halve;
use crate::geometry::sat_add;
use crate::geometry::sat_sub;
use crate::mru_list::reversed;
use crate::state::State;
use crate::state::WindowManager;
use crate::state::find_window;
use crate::state::find_workspace;
use crate::workspace::WorkspaceView;
use vstd::prelude::*;

verus! {

/// The height of the band at the top of the screen in which a move gesture
/// scrolls the workspace instead of dragging the window.
pub const TITLE_BAR_BAND: i32 = 100;

/// What the pointer did.
#[derive(Debug, PartialEq, Eq, Structural, Clone, Copy)]
pub enum PointerAction {
    Motion,
    ButtonDown,
    ButtonUp,
}

/// A pointer event as the compositor reports it.
#[derive(Debug, PartialEq, Eq, Structural, Clone, Copy)]
pub struct PointerEvent {
    pub action: PointerAction,
    /// Where the pointer is, on screen.
    pub position: Point,
    /// The window under the pointer, if any.
    pub over_window: Option<Id>,
}

/// The extents `original` after the edges `edges` followed the pointer by
/// `by`: the top edge takes the height with it, else the bottom edge adds to
/// it; the left edge takes the width with it, else the right edge adds to
/// it.
pub open spec fn resized_extents(original: Rectangle, edges: WindowEdges, by: Displacement)
    -> Rectangle {
    let vertical = if edges.top {
        (clamp_i32(original.top_left.y + by.dy), clamp_i32(original.size.height - by.dy))
    } else if edges.bottom {
        (original.top_left.y, clamp_i32(original.size.height + by.dy))
    } else {
        (original.top_left.y, original.size.height)
    };
    let horizontal = if edges.left {
        (clamp_i32(original.top_left.x + by.dx), clamp_i32(original.size.width - by.dx))
    } else if edges.right {
        (original.top_left.x, clamp_i32(original.size.width + by.dx))
    } else {
        (original.top_left.x, original.size.width)
    };
    Rectangle {
        top_left: Point { x: horizontal.0, y: vertical.0 },
        size: Size { width: horizontal.1, height: vertical.1 },
    }
}

/// The first index from `from` on of a monitor whose zone holds `point`.
pub open spec fn first_monitor_at(monitors: Seq<Monitor>, point: Point, from: int) -> Option<int>
    decreases monitors.len() - from,
{
    if from < 0 || from >= monitors.len() {
        None
    } else if monitors[from].extents.spec_contains(point) {
        Some(from)
    } else {
        first_monitor_at(monitors, point, from + 1)
    }
}

impl State {
    /// Whether the window `window` exists and its committed rectangle holds
    /// `point`.
    pub open spec fn covers(self, window: Id, point: Point) -> bool {
        match self.window(window) {
            Some(w) => w.rendered.spec_contains(point),
            None => false,
        }
    }

    /// The first window from `from` on in `order` that covers `point`.
    pub open spec fn first_covering(self, order: Seq<Id>, point: Point, from: int) -> Option<Id>
        decreases order.len() - from,
    {
        if from < 0 || from >= order.len() {
            None
        } else if self.covers(order[from], point) {
            Some(order[from])
        } else {
            self.first_covering(order, point, from + 1)
        }
    }

    /// The window under `point`: of the windows in the order of use whose
    /// committed rectangle holds the point, the one used most recently.
    pub open spec fn window_at(self, point: Point) -> Option<Id> {
        self.first_covering(reversed(self.mru_windows), point, 0)
    }

    /// The workspace of the monitor under `point`.
    pub open spec fn workspace_at(self, point: Point) -> Option<Id> {
        match first_monitor_at(self.monitors, point, 0) {
            Some(m) => Some(self.monitors[m].workspace),
            None => None,
        }
    }

    /// The state after the pointer came to `position`: the workspace of the
    /// monitor under it is focused, unless it is the active one already.
    pub open spec fn pointer_entered(self, position: Point) -> State {
        match self.workspace_at(position) {
            Some(workspace) => if self.active_workspace() == Some(workspace) {
                self
            } else {
                self.workspace_focused(workspace)
            },
            None => self,
        }
    }

    /// The state after a client asked for a gesture on `window` with the
    /// pointer at `cursor`; `has_focus` says whether the compositor has the
    /// window focused. Only the focused window is granted a gesture. It
    /// leaves the maximized and the fullscreen state first, and a resize
    /// puts it into the resizing state.
    pub open spec fn gesture_requested(
        self,
        window: Id,
        has_focus: bool,
        cursor: Point,
        edges: WindowEdges,
        gesture_type: GestureType,
    ) -> State {
        if !self.grants_gesture(window, has_focus) {
            self
        } else {
            let i = self.window_index(window).unwrap();
            let w = self.windows[i];
            let restored = if w.info.maximized {
                self.with_command(Command::SetMaximized { window, maximized: false })
            } else {
                self
            };
            let windowed = if w.info.fullscreen {
                restored.with_command(Command::SetFullscreen { window, fullscreen: false })
            } else {
                restored
            };
            match gesture_type {
                GestureType::Move => State {
                    gesture: Gesture::Move(
                        MoveGesture {
                            window,
                            drag_anchor: cursor.spec_minus(w.rendered.top_left),
                        },
                    ),
                    ..windowed.with_window_at(
                        i,
                        Window {
                            info: WindowInfo { maximized: false, fullscreen: false, ..w.info },
                            ..w
                        },
                    )
                },
                GestureType::Resize => {
                    let resizing = if w.info.resizing {
                        windowed
                    } else {
                        windowed.with_command(Command::SetResizing { window, resizing: true })
                    };
                    State {
                        gesture: Gesture::Resize(
                            ResizeGesture {
                                window,
                                start_cursor: cursor,
                                edges,
                                original_extents: w.rendered,
                            },
                        ),
                        ..resizing.with_window_at(
                            i,
                            Window {
                                info: WindowInfo {
                                    maximized: false,
                                    fullscreen: false,
                                    resizing: true,
                                    ..w.info
                                },
                                ..w
                            },
                        )
                    }
                },
            }
        }
    }

    /// Whether the window `window` is granted a gesture: the compositor has
    /// it focused, and it is known here.
    pub open spec fn grants_gesture(self, window: Id, has_focus: bool) -> bool {
        has_focus && self.window_index(window).is_some()
    }

    /// The direction in which the window `window`, dragged to the screen
    /// coordinate `x`, changes places with a neighbour: to the left once the
    /// pointer is left of the point where the two would meet after the
    /// exchange, and to the right likewise.
    pub open spec fn swap_direction(self, window: Window, workspace: WorkspaceView, x: i32)
        -> Option<Direction> {
        let own = half(window.rendered.size.width as int);
        let left = match workspace.neighbor(window.id, Direction::Left) {
            Some(id) => match self.window(id) {
                Some(l) => x < l.rendered.exact_center_x() + own,
                None => false,
            },
            None => false,
        };
        let right = match workspace.neighbor(window.id, Direction::Right) {
            Some(id) => match self.window(id) {
                Some(r) => x > r.rendered.exact_center_x() - own,
                None => false,
            },
            None => false,
        };
        if left {
            Some(Direction::Left)
        } else if right {
            Some(Direction::Right)
        } else {
            None
        }
    }

    /// The state after the window of the move gesture `gesture` followed
    /// the pointer to `position`, below the title-bar band: over another
    /// monitor it goes to the workspace there, at the pointer; past the
    /// middle of a neighbour it changes places with it; else it moves with
    /// the pointer.
    pub open spec fn window_dragged(self, gesture: MoveGesture, position: Point) -> State {
        match self.window_index(gesture.window) {
            Some(i) => {
                let w = Window { is_dragged: true, ..self.windows[i] };
                let held = self.with_window_at(i, w);
                let carried = held.with_window_at(
                    i,
                    Window {
                        rendered: Rectangle {
                            top_left: position.spec_translate(
                                Displacement {
                                    dx: clamp_i32(-gesture.drag_anchor.dx),
                                    dy: clamp_i32(-gesture.drag_anchor.dy),
                                },
                            ),
                            size: w.rendered.size,
                        },
                        ..w
                    },
                ).with_command(
                    Command::MoveTo {
                        window: gesture.window,
                        top_left: position.spec_translate(
                            Displacement {
                                dx: clamp_i32(-gesture.drag_anchor.dx),
                                dy: clamp_i32(-gesture.drag_anchor.dy),
                            },
                        ),
                    },
                );
                match w.on_workspace {
                    Some(workspace) => match held.workspace_index(workspace) {
                        Some(index) => {
                            let over = held.workspace_at(position);
                            if over.is_some() && over != Some(workspace) {
                                held.window_sent(
                                    gesture.window,
                                    over.unwrap(),
                                    WorkspacePosition::Coordinate(position),
                                )
                            } else {
                                match held.swap_direction(w, held.workspaces[index], position.x) {
                                    Some(direction) => match held.workspaces[index].moved(
                                        gesture.window,
                                        direction,
                                    ) {
                                        Some(moved) => held.with_workspace_at(
                                            index,
                                            moved,
                                        ).arranged(workspace, false),
                                        None => held.arranged(workspace, false),
                                    },
                                    None => carried,
                                }
                            }
                        },
                        None => carried,
                    },
                    None => carried,
                }
            },
            None => self,
        }
    }

    /// The state after a move gesture in the title-bar band scrolled the
    /// workspace of its window by `dx`.
    pub open spec fn workspace_dragged(self, gesture: MoveGesture, dx: i32) -> State {
        match self.window_index(gesture.window) {
            Some(i) => {
                let w = Window { is_dragged: false, ..self.windows[i] };
                let released = self.with_window_at(i, w);
                match w.on_workspace {
                    Some(workspace) => match released.workspace_index(workspace) {
                        Some(index) => {
                            let view = released.workspaces[index];
                            released.with_workspace_at(
                                index,
                                WorkspaceView {
                                    scroll_left: clamp_i32(view.scroll_left - dx),
                                    ..view
                                },
                            ).arranged(workspace, true)
                        },
                        None => released,
                    },
                    None => released,
                }
            },
            None => self,
        }
    }

    /// The state after the window of the resize gesture `gesture` followed
    /// the pointer to `position`.
    pub open spec fn window_resized_by_gesture(self, gesture: ResizeGesture, position: Point)
        -> State {
        match self.window_index(gesture.window) {
            Some(i) => {
                let w = self.windows[i];
                let by = position.spec_minus(gesture.start_cursor);
                let extents = resized_extents(gesture.original_extents, gesture.edges, by);
                let scrolled = match w.on_workspace {
                    Some(workspace) => match self.workspace_index(workspace) {
                        Some(index) => if gesture.edges.left {
                            let view = self.workspaces[index];
                            self.with_workspace_at(
                                index,
                                WorkspaceView {
                                    scroll_left: clamp_i32(view.scroll_left - by.dx),
                                    ..view
                                },
                            )
                        } else {
                            self
                        },
                        None => self,
                    },
                    None => self,
                };
                let set = scrolled.with_window_at(
                    i,
                    Window { size: extents.size, rendered: extents, ..w },
                ).with_command(Command::SetExtents { window: gesture.window, extents });
                match w.on_workspace {
                    Some(workspace) => set.arranged(workspace, false),
                    None => set,
                }
            },
            None => self,
        }
    }

    /// The state after the pointer moved to `position`.
    pub open spec fn pointer_moved(self, position: Point) -> State {
        let entered = self.pointer_entered(position);
        let by = position.spec_minus(self.old_cursor);
        match entered.gesture {
            Gesture::Move(gesture) => if position.y < TITLE_BAR_BAND {
                entered.workspace_dragged(gesture, by.dx)
            } else {
                entered.window_dragged(gesture, position)
            },
            Gesture::Resize(gesture) => entered.window_resized_by_gesture(gesture, position),
            Gesture::Idle => entered,
        }
    }

    /// The state after a pointer button was released: the gesture, if there
    /// is one, ends, and the workspace of its window is laid out.
    pub open spec fn button_released(self) -> State {
        match self.gesture.spec_window() {
            Some(window) => {
                let ended = State { gesture: Gesture::Idle, ..self };
                match ended.window_index(window) {
                    Some(i) => {
                        let w = Window { is_dragged: false, ..ended.windows[i] };
                        let released = ended.with_window_at(i, w);
                        match w.on_workspace {
                            Some(workspace) => released.arranged(workspace, false),
                            None => released,
                        }
                    },
                    None => ended,
                }
            },
            None => self,
        }
    }

    /// Whether the pointer event `event` belongs to the gesture in progress
    /// and goes no further.
    pub open spec fn consumes(self, event: PointerEvent) -> bool {
        match event.action {
            PointerAction::Motion => self.gesture != Gesture::Idle,
            PointerAction::ButtonUp => self.gesture != Gesture::Idle,
            PointerAction::ButtonDown => false,
        }
    }

    /// The state after the pointer event `event`: a motion drives the
    /// gesture, a release ends it, and a press gives the focus to the window
    /// under the pointer.
    pub open spec fn pointer_handled(self, event: PointerEvent) -> State {
        let handled = match event.action {
            PointerAction::Motion => self.pointer_moved(event.position),
            PointerAction::ButtonUp => self.button_released(),
            PointerAction::ButtonDown => match event.over_window {
                Some(window) => self.window_focused(window),
                None => self,
            },
        };
        State { old_cursor: event.position, ..handled }
    }
}

/// The extents `original` after the edges `edges` followed the pointer by
/// `by`.
pub fn resize_extents(original: &Rectangle, edges: &WindowEdges, by: Displacement) -> (extents:
    Rectangle)
    ensures
        extents == resized_extents(*original, *edges, by),
{
    let mut extents = *original;
    if edges.top {
        extents.top_left.y = sat_add(original.top_left.y, by.dy);
        extents.size.height = sat_sub(original.size.height, by.dy);
    } else if edges.bottom {
        extents.size.height = sat_add(original.size.height, by.dy);
    }
    if edges.left {
        extents.top_left.x = sat_add(original.top_left.x, by.dx);
        extents.size.width = sat_sub(original.size.width, by.dx);
    } else if edges.right {
        extents.size.width = sat_add(original.size.width, by.dx);
    }
    extents
}

impl WindowManager {
    /// The window under `point`, as far as the window manager can tell from
    /// the positions that it committed.
    pub fn window_at(&self, point: &Point) -> (window: Option<Id>)
        ensures
            window == self@.window_at(*point),
    {
        let ghost order = reversed(self@.mru_windows);
        let n: usize = self.mru_windows.len();
        let mut k: usize = 0;
        while k < n
            invariant
                n == order.len(),
                order == reversed(self@.mru_windows),
                k <= n,
                self@.first_covering(order, *point, 0) == self@.first_covering(
                    order,
                    *point,
                    k as int,
                ),
            decreases n - k,
        {
            match self.mru_windows.nth(k) {
                Some(id) => match find_window(&self.windows, *id) {
                    Some(i) => {
                        if self.windows[i].rendered.contains(point) {
                            return Some(*id);
                        }
                    },
                    None => {},
                },
                None => {},
            }
            k = k + 1;
        }
        None
    }

    /// The workspace of the monitor under `point`.
    pub fn get_workspace_at(&self, point: &Point) -> (workspace: Option<Id>)
        ensures
            workspace == self@.workspace_at(*point),
    {
        let n: usize = self.monitors.len();
        let mut k: usize = 0;
        while k < n
            invariant
                n == self@.monitors.len(),
                k <= n,
                first_monitor_at(self@.monitors, *point, 0) == first_monitor_at(
                    self@.monitors,
                    *point,
                    k as int,
                ),
            decreases n - k,
        {
            if self.monitors[k].extents.contains(point) {
                return Some(self.monitors[k].workspace);
            }
            k = k + 1;
        }
        None
    }

    /// Focuses the workspace of the monitor under the pointer, unless it is
    /// the active one already.
    fn enter_pointer(&mut self, position: &Point)
        ensures
            final(self)@ == old(self)@.pointer_entered(*position),
    {
        match self.get_workspace_at(position) {
            Some(workspace) => {
                if self.active_workspace() != Some(workspace) {
                    self.focus_workspace(workspace);
                }
            },
            None => {},
        }
    }

    /// Begins a move or resize gesture that a client asks for; `has_focus`
    /// is the compositor's answer to whether it has the window focused.
    /// Returns whether the gesture was granted: only the focused window gets
    /// one.
    pub fn handle_pointer_request(
        &mut self,
        window: Id,
        has_focus: bool,
        cursor: Point,
        edges: WindowEdges,
        gesture_type: GestureType,
    ) -> (granted: bool)
        ensures
            granted == old(self)@.grants_gesture(window, has_focus),
            final(self)@ == old(self)@.gesture_requested(
                window,
                has_focus,
                cursor,
                edges,
                gesture_type,
            ),
    {
        if !has_focus {
            return false;
        }
        let i = match find_window(&self.windows, window) {
            Some(i) => i,
            None => {
                return false;
            },
        };
        let w = self.windows[i];
        if w.info.maximized {
            self.commands.push(Command::SetMaximized { window, maximized: false });
        }
        if w.info.fullscreen {
            self.commands.push(Command::SetFullscreen { window, fullscreen: false });
        }
        match gesture_type {
            GestureType::Move => {
                self.windows.set(
                    i,
                    Window {
                        info: WindowInfo { maximized: false, fullscreen: false, ..w.info },
                        ..w
                    },
                );
                self.gesture = Gesture::Move(
                    MoveGesture { window, drag_anchor: cursor - w.rendered.top_left },
                );
            },
            GestureType::Resize => {
                if !w.info.resizing {
                    self.commands.push(Command::SetResizing { window, resizing: true });
                }
                self.windows.set(
                    i,
                    Window {
                        info: WindowInfo {
                            maximized: false,
                            fullscreen: false,
                            resizing: true,
                            ..w.info
                        },
                        ..w
                    },
                );
                self.gesture = Gesture::Resize(
                    ResizeGesture {
                        window,
                        start_cursor: cursor,
                        edges,
                        original_extents: w.rendered,
                    },
                );
            },
        }
        true
    }

    /// The direction in which the dragged window `window` changes places
    /// with a neighbour.
    fn get_swap_direction(&self, window: &Window, index: usize, x: i32) -> (direction: Option<
        Direction,
    >)
        requires
            index < self.workspaces@.len(),
        ensures
            direction == self@.swap_direction(*window, self@.workspaces[index as int], x),
    {
        let own: i64 = halve(window.rendered.size.width) as i64;
        let left = match self.workspaces[index].window_by_direction(window.id, Direction::Left) {
            Some(id) => match find_window(&self.windows, id) {
                Some(l) => {
                    let rendered = self.windows[l].rendered;
                    (x as i64) < rendered.top_left.x as i64 + halve(rendered.size.width) as i64
                        + own
                },
                None => false,
            },
            None => false,
        };
        let right = match self.workspaces[index].window_by_direction(window.id, Direction::Right) {
            Some(id) => match find_window(&self.windows, id) {
                Some(r) => {
                    let rendered = self.windows[r].rendered;
                    (x as i64) > rendered.top_left.x as i64 + halve(rendered.size.width) as i64
                        - own
                },
                None => false,
            },
            None => false,
        };
        if left {
            Some(Direction::Left)
        } else if right {
            Some(Direction::Right)
        } else {
            None
        }
    }

    /// Lets the window of a move gesture follow the pointer.
    fn drag_window(&mut self, gesture: &MoveGesture, position: &Point)
        ensures
            final(self)@ == old(self)@.window_dragged(*gesture, *position),
    {
        let i = match find_window(&self.windows, gesture.window) {
            Some(i) => i,
            None => {
                return ;
            },
        };
        let w = Window { is_dragged: true, ..self.windows[i] };
        self.windows.set(i, w);
        let ghost held = self@;
        let found = match w.on_workspace {
            Some(workspace) => match find_workspace(&self.workspaces, workspace) {
                Some(index) => Some((workspace, index)),
                None => None,
            },
            None => None,
        };
        match found {
            Some((workspace, index)) => {
                let over = self.get_workspace_at(position);
                match over {
                    Some(target) => {
                        if target != workspace {
                            self.move_window_to(
                                gesture.window,
                                target,
                                WorkspacePosition::Coordinate(*position),
                            );
                            return ;
                        }
                    },
                    None => {},
                }
                match self.get_swap_direction(&w, index, position.x) {
                    Some(direction) => {
                        let _ = self.workspaces[index].move_window(gesture.window, direction);
                        proof {
                            match held.workspaces[index as int].moved(gesture.window, direction) {
                                Some(moved) => {
                                    assert(self@.workspaces =~= held.with_workspace_at(
                                        index as int,
                                        moved,
                                    ).workspaces);
                                },
                                None => {
                                    assert(self@.workspaces =~= held.workspaces);
                                },
                            }
                        }
                        self.arrange_windows_workspace(workspace);
                        return ;
                    },
                    None => {},
                }
            },
            None => {},
        }
        let top_left = position.translate(
            Displacement {
                dx: sat_sub(0, gesture.drag_anchor.dx),
                dy: sat_sub(0, gesture.drag_anchor.dy),
            },
        );
        self.windows.set(
            i,
            Window { rendered: Rectangle { top_left, size: w.rendered.size }, ..w },
        );
        self.commands.push(Command::MoveTo { window: gesture.window, top_left });
    }

    /// Scrolls the workspace of the window of a move gesture by `dx`.
    fn drag_workspace(&mut self, gesture: &MoveGesture, dx: i32)
        ensures
            final(self)@ == old(self)@.workspace_dragged(*gesture, dx),
    {
        let i = match find_window(&self.windows, gesture.window) {
            Some(i) => i,
            None => {
                return ;
            },
        };
        let w = Window { is_dragged: false, ..self.windows[i] };
        self.windows.set(i, w);
        let ghost released = self@;
        match w.on_workspace {
            Some(workspace) => match find_workspace(&self.workspaces, workspace) {
                Some(index) => {
                    let scroll_left = self.workspaces[index].scroll_left();
                    self.workspaces[index].set_scroll_left(sat_sub(scroll_left, dx));
                    assert(self@.workspaces =~= released.with_workspace_at(
                        index as int,
                        WorkspaceView {
                            scroll_left: clamp_i32(scroll_left - dx),
                            ..released.workspaces[index as int]
                        },
                    ).workspaces);
                    self.arrange_windows_workspace_options(workspace, true);
                },
                None => {},
            },
            None => {},
        }
    }

    /// Lets the edges of the window of a resize gesture follow the pointer.
    pub fn apply_resize_by(&mut self, gesture: &ResizeGesture, position: &Point)
        ensures
            final(self)@ == old(self)@.window_resized_by_gesture(*gesture, *position),
    {
        let i = match find_window(&self.windows, gesture.window) {
            Some(i) => i,
            None => {
                return ;
            },
        };
        let w = self.windows[i];
        let by = *position - gesture.start_cursor;
        let extents = resize_extents(&gesture.original_extents, &gesture.edges, by);
        match w.on_workspace {
            Some(workspace) => match find_workspace(&self.workspaces, workspace) {
                Some(index) => {
                    if gesture.edges.left {
                        let scroll_left = self.workspaces[index].scroll_left();
                        self.workspaces[index].set_scroll_left(sat_sub(scroll_left, by.dx));
                        assert(self@.workspaces =~= old(self)@.with_workspace_at(
                            index as int,
                            WorkspaceView {
                                scroll_left: clamp_i32(scroll_left - by.dx),
                                ..old(self)@.workspaces[index as int]
                            },
                        ).workspaces);
                    }
                },
                None => {},
            },
            None => {},
        }
        self.windows.set(i, Window { size: extents.size, rendered: extents, ..w });
        self.commands.push(Command::SetExtents { window: gesture.window, extents });
        match w.on_workspace {
            Some(workspace) => {
                self.arrange_windows_workspace(workspace);
            },
            None => {},
        }
    }

    /// Ends the gesture in progress, if there is one.
    fn release_button(&mut self)
        ensures
            final(self)@ == old(self)@.button_released(),
    {
        let window = match self.gesture.window() {
            Some(window) => window,
            None => {
                return ;
            },
        };
        self.gesture = Gesture::Idle;
        match find_window(&self.windows, window) {
            Some(i) => {
                let w = Window { is_dragged: false, ..self.windows[i] };
                self.windows.set(i, w);
                match w.on_workspace {
                    Some(workspace) => {
                        self.arrange_windows_workspace(workspace);
                    },
                    None => {},
                }
            },
            None => {},
        }
    }

    /// Drives the gesture in progress with the pointer at `position`.
    fn move_pointer(&mut self, position: &Point)
        ensures
            final(self)@ == old(self)@.pointer_moved(*position),
    {
        let by = *position - self.old_cursor;
        self.enter_pointer(position);
        match self.gesture {
            Gesture::Move(gesture) => {
                if position.y < TITLE_BAR_BAND {
                    self.drag_workspace(&gesture, by.dx);
                } else {
                    self.drag_window(&gesture, position);
                }
            },
            Gesture::Resize(gesture) => {
                self.apply_resize_by(&gesture, position);
            },
            Gesture::Idle => {},
        }
    }

    /// Gives the focus to the window under the pointer, if there is one.
    fn press_button(&mut self, over_window: Option<Id>)
        ensures
            final(self)@ == match over_window {
                Some(window) => old(self)@.window_focused(window),
                None => old(self)@,
            },
    {
        match over_window {
            Some(window) => self.focus_window(Some(window)),
            None => {},
        }
    }

    /// Handles a pointer event. Returns whether the event belongs to the
    /// gesture in progress and goes no further.
    pub fn handle_pointer_event(&mut self, event: &PointerEvent) -> (consumed: bool)
        ensures
            consumed == old(self)@.consumes(*event),
            final(self)@ == old(self)@.pointer_handled(*event),
    {
        let held = self.gesture.window().is_some();
        let consumed = match event.action {
            PointerAction::Motion => {
                self.move_pointer(&event.position);
                held
            },
            PointerAction::ButtonUp => {
                self.release_button();
                held
            },
            PointerAction::ButtonDown => {
                self.press_button(event.over_window);
                false
            },
        };
        self.old_cursor = event.position;
        consumed
    }
}

} // verus!
