//! What becomes of the windows when one of them is destroyed, when the
//! active window is moved past the end of its row, and when a window is
//! dragged to another monitor.

use crate::actions::entry_position;
use crate::entities::Command;
use crate::entities::Direction;
use crate::entities::Gesture;
use crate::entities::Id;
use crate::entities::Monitor;
use crate::entities::MoveGesture;
use crate::entities::Window;
use crate::entities::WorkspacePosition;
use crate::focus::lemma_first_right_of;
use crate::focus::promoted_in;
use crate::geometry::Point;
use crate::invariants::lemma_attached;
use crate::invariants::lemma_detached;
use crate::invariants::lemma_found_at;
use crate::invariants::lemma_pointer_entered;
use crate::invariants::lemma_remove_lookup;
use crate::invariants::lemma_window_forgotten;
use crate::invariants::lemma_window_replaced;
use crate::laws::lemma_arranged_frame;
use crate::laws::lemma_arranged_upto_frame;
use crate::laws::lemma_commit_windows_frame;
use crate::laws::lemma_focus_follows;
use crate::laws::lemma_frame_lookups;
use crate::laws::lemma_index_bounds;
use crate::laws::lemma_layout_frame_trans;
use crate::laws::lemma_layout_keeps_wf;
use crate::laws::lemma_promoted_in;
use crate::laws::lemma_workspace_focused;
use crate::laws::same_listing;
use crate::laws::same_surface;
use crate::mru_list::lemma_without_absent;
use crate::mru_list::lemma_without_facts;
use crate::mru_list::reversed;
use crate::mru_list::without;
use crate::pointer::PointerAction;
use crate::pointer::PointerEvent;
use crate::pointer::TITLE_BAR_BAND;
use crate::pointer::first_monitor_at;
use crate::state::State;
use crate::state::shown_workspaces;
use crate::state::window_ids;
use crate::state::workspace_ids;
use crate::workspace::WorkspaceView;
use crate::workspace::at_most;
use vstd::prelude::*;

verus! {

/// Promoting the window used most recently changes nothing.
pub proof fn lemma_top_promoted(view: WorkspaceView, window: Id)
    requires
        view.wf(),
        view.active_window() == Some(window),
    ensures
        view.has_window(window),
        view.promoted(window) == view,
{
    let n = view.mru_windows.len() as int;
    assert(view.mru_windows[n - 1] == window);
    assert(view.mru_windows.contains(window));
    lemma_without_facts(view.mru_windows, window);
    assert(without(view.mru_windows, window) == view.mru_windows.remove(n - 1));
    assert(view.mru_windows.remove(n - 1).push(window) =~= view.mru_windows);
}

/// Focusing a workspace leaves every workspace with its windows in both
/// their orders.
pub proof fn lemma_workspace_focus_keeps_orders(state: State, workspace: Id)
    ensures
        state.workspace_focused(workspace).workspaces.len() == state.workspaces.len(),
        forall|k: int|
            0 <= k < state.workspaces.len() ==> same_listing(
                state.workspaces[k],
                #[trigger] state.workspace_focused(workspace).workspaces[k],
            ),
{
    lemma_index_bounds(state, workspace);
    match state.workspace_index(workspace) {
        Some(index) => {
            let bound = state.rebound(workspace);
            let active = State {
                mru_workspaces: promoted_in(bound.mru_workspaces, workspace),
                ..bound
            };
            let focused = match active.workspaces[index].active_window() {
                Some(window) => State {
                    mru_windows: promoted_in(active.mru_windows, window),
                    ..active
                }.with_command(Command::FocusWindow { window }),
                None => active.with_command(Command::Blur),
            };
            assert(focused.workspaces == state.workspaces);
            lemma_arranged_frame(focused, workspace, false);
            let done = focused.arranged(workspace, false);
            assert forall|k: int| 0 <= k < state.workspaces.len() implies same_listing(
                state.workspaces[k],
                #[trigger] done.workspaces[k],
            ) by {
                assert(same_listing(focused.workspaces[k], done.workspaces[k]));
            }
        },
        None => {},
    }
}

/// Focusing the window that its workspace used most recently leaves every
/// workspace with its windows in both their orders.
pub proof fn lemma_focus_of_top_keeps_orders(state: State, window: Id, index: int)
    requires
        state.wf(),
        0 <= index < state.workspaces.len(),
        state.workspaces[index].active_window() == Some(window),
    ensures
        state.window_focused(window).workspaces.len() == state.workspaces.len(),
        forall|k: int|
            0 <= k < state.workspaces.len() ==> same_listing(
                state.workspaces[k],
                #[trigger] state.window_focused(window).workspaces[k],
            ),
{
    let listed = state.workspaces[index];
    assert(listed.wf());
    lemma_top_promoted(listed, window);
    assert(state.lists(index, window));
    lemma_index_bounds(state, window);
    lemma_found_at(state);
    let workspace = listed.id;
    assert(state.workspace_index(workspace) == Some(index));
    let active = state.activated(window);
    assert(active.workspaces =~= state.workspaces);
    lemma_workspace_focus_keeps_orders(active, workspace);
}

/// When a window that a workspace lists is destroyed, it is gone from the
/// order of use and from every workspace; every other window keeps its
/// workspace and its place in both orders of the workspace; and the window
/// that the active workspace used most recently, if there is one, is the
/// active window and is given the focus by the first command issued.
pub proof fn lemma_window_deleted_outcome(state: State, window: Id, index: int)
    requires
        state.wf(),
        0 <= index < state.workspaces.len(),
        state.workspaces[index].has_window(window),
    ensures
        state.window_deleted(window).wf(),
        !state.window_deleted(window).mru_windows.contains(window),
        state.window_deleted(window).window_index(window).is_none(),
        state.window_deleted(window).active_window() != Some(window),
        state.window_deleted(window).workspaces.len() == state.workspaces.len(),
        forall|k: int|
            0 <= k < state.workspaces.len() ==> {
                &&& (#[trigger] state.window_deleted(window).workspaces[k]).id
                    == state.workspaces[k].id
                &&& state.window_deleted(window).workspaces[k].windows == without(
                    state.workspaces[k].windows,
                    window,
                )
                &&& state.window_deleted(window).workspaces[k].mru_windows == without(
                    state.workspaces[k].mru_windows,
                    window,
                )
            },
        forall|k: int|
            0 <= k < state.workspaces.len() && k != index ==> (
            #[trigger] state.window_deleted(window).workspaces[k]).windows
                == state.workspaces[k].windows,
        match state.active_workspace() {
            Some(active) => match state.workspace(active) {
                Some(w) => match w.removed(window).active_window() {
                    Some(next) => {
                        &&& state.window_deleted(window).active_window() == Some(next)
                        &&& state.window_deleted(window).commands.len() > state.commands.len()
                        &&& state.window_deleted(window).commands[state.commands.len() as int] == (
                        Command::FocusWindow { window: next })
                    },
                    None => state.window_deleted(window).commands == state.commands,
                },
                None => true,
            },
            None => true,
        },
{
    let after = state.window_deleted(window);
    assert(state.lists(index, window));
    lemma_index_bounds(state, window);
    lemma_found_at(state);
    let i = state.window_index(window).unwrap();
    let home = state.workspaces[index].id;
    assert(state.workspace_index(home) == Some(index));
    lemma_detached(state, window);
    let left = state.detached(window);
    assert(left.workspaces == state.workspaces.update(index, state.workspaces[index].removed(window)));
    assert(left.commands == state.commands);
    lemma_window_forgotten(left, window, i);
    let gone = State {
        windows: left.windows.remove(i),
        mru_windows: without(left.mru_windows, window),
        ..left
    };
    lemma_without_facts(state.mru_windows, window);
    let ids = window_ids(left.windows);
    assert(window_ids(gone.windows) =~= ids.remove(i));
    lemma_remove_lookup(ids, i);
    window_ids(gone.windows).index_of_first_ensures(window);
    assert(gone.window_index(window).is_none());
    assert forall|k: int| 0 <= k < state.workspaces.len() implies {
        &&& (#[trigger] gone.workspaces[k]).id == state.workspaces[k].id
        &&& gone.workspaces[k].windows == without(state.workspaces[k].windows, window)
        &&& gone.workspaces[k].mru_windows == without(state.workspaces[k].mru_windows, window)
    } by {
        if k != index {
            let other = state.workspaces[k];
            assert(other.wf());
            if other.windows.contains(window) {
                assert(state.lists(k, window));
                assert(state.workspace_index(other.id) == Some(k));
            }
            lemma_without_absent(other.windows, window);
            lemma_without_absent(other.mru_windows, window);
        }
    }
    assert(workspace_ids(gone.workspaces) =~= workspace_ids(state.workspaces));
    let next_of = match gone.active_workspace() {
        Some(active) => match gone.workspace(active) {
            Some(w) => w.active_window(),
            None => None,
        },
        None => None,
    };
    match gone.active_workspace() {
        Some(active) => {
            lemma_index_bounds(gone, active);
            lemma_index_bounds(state, active);
            match gone.workspace_index(active) {
                Some(a) => {
                    assert(gone.workspaces[a].id == state.workspaces[a].id);
                    assert(state.workspace_index(active) == Some(a));
                    assert(state.workspaces[a].wf());
                    state.workspaces[a].lemma_removed_wf(window);
                    if a != index {
                        assert(gone.workspaces[a] == state.workspaces[a]);
                        lemma_without_absent(state.workspaces[a].windows, window);
                        lemma_without_absent(state.workspaces[a].mru_windows, window);
                        assert(state.workspaces[a].removed(window) == state.workspaces[a]);
                    }
                    assert(gone.workspaces[a] == state.workspaces[a].removed(window));
                    match gone.workspaces[a].active_window() {
                        Some(next) => {
                            assert(gone.workspaces[a].wf());
                            lemma_top_promoted(gone.workspaces[a], next);
                            lemma_focus_follows(gone, next, a);
                            lemma_focus_of_top_keeps_orders(gone, next, a);
                            let done = gone.window_focused(next);
                            assert(after == done);
                            assert(window_ids(done.windows) =~= window_ids(gone.windows));
                            assert forall|k: int| 0 <= k < state.workspaces.len() implies {
                                &&& (#[trigger] done.workspaces[k]).id == state.workspaces[k].id
                                &&& done.workspaces[k].windows == without(
                                    state.workspaces[k].windows,
                                    window,
                                )
                                &&& done.workspaces[k].mru_windows == without(
                                    state.workspaces[k].mru_windows,
                                    window,
                                )
                            } by {
                                assert(same_listing(gone.workspaces[k], done.workspaces[k]));
                            }
                        },
                        None => {
                            assert(after == gone);
                        },
                    }
                },
                None => {
                    assert(after == gone);
                },
            }
        },
        None => {
            assert(after == gone);
        },
    }
    assert forall|k: int| 0 <= k < state.workspaces.len() && k != index implies (
    #[trigger] after.workspaces[k]).windows == state.workspaces[k].windows by {
        let other = state.workspaces[k];
        if other.windows.contains(window) {
            assert(state.lists(k, window));
            assert(state.workspace_index(other.id) == Some(k));
        }
        lemma_without_absent(other.windows, window);
    }
    if after.active_window() == Some(window) {
        assert(after.mru_windows[after.mru_windows.len() - 1] == window);
        assert(after.mru_windows.contains(window));
    }
}

/// A workspace that was focused is the active workspace, if the order of
/// use of the workspaces holds it.
pub proof fn lemma_focused_workspace_is_active(state: State, workspace: Id)
    requires
        state.mru_workspaces.no_duplicates(),
        state.mru_workspaces.contains(workspace),
        state.workspace_index(workspace).is_some(),
    ensures
        state.workspace_focused(workspace).active_workspace() == Some(workspace),
{
    let index = state.workspace_index(workspace).unwrap();
    let bound = state.rebound(workspace);
    let active = State { mru_workspaces: promoted_in(bound.mru_workspaces, workspace), ..bound };
    lemma_promoted_in(state.mru_workspaces, workspace);
    let focused = match active.workspaces[index].active_window() {
        Some(window) => State {
            mru_windows: promoted_in(active.mru_windows, window),
            ..active
        }.with_command(Command::FocusWindow { window }),
        None => active.with_command(Command::Blur),
    };
    lemma_arranged_frame(focused, workspace, false);
}

/// What a window sent to another workspace leaves behind and finds: its
/// old workspace holds the other windows in their order, the new one holds
/// it at the place asked for among its windows in their order, as the
/// window used most recently; that workspace is the active one and the
/// window the active window.
pub proof fn lemma_window_sent_outcome(
    state: State,
    window: Id,
    to: Id,
    position: WorkspacePosition,
    from_index: int,
    to_index: int,
)
    requires
        state.wf(),
        state.mru_workspaces.contains(to),
        0 <= from_index < state.workspaces.len(),
        state.workspaces[from_index].has_window(window),
        state.workspace_index(to) == Some(to_index),
        to_index != from_index,
    ensures
        state.window_sent(window, to, position).wf(),
        state.window_sent(window, to, position).workspaces.len() == state.workspaces.len(),
        state.window_sent(window, to, position).workspaces[from_index].windows == without(
            state.workspaces[from_index].windows,
            window,
        ),
        state.window_sent(window, to, position).workspaces[to_index].windows
            == state.workspaces[to_index].windows.insert(
            state.detached(window).insertion_index(to, position),
            window,
        ),
        0 <= state.detached(window).insertion_index(to, position)
            <= state.workspaces[to_index].windows.len(),
        forall|k: int|
            0 <= k < state.workspaces.len() && k != from_index && k != to_index ==> (
            #[trigger] state.window_sent(window, to, position).workspaces[k]).windows
                == state.workspaces[k].windows,
        state.window_sent(window, to, position).workspaces[to_index].active_window() == Some(
            window,
        ),
        state.window_sent(window, to, position).workspace_of(window) == Some(to),
        state.window_sent(window, to, position).active_workspace() == Some(to),
        state.window_sent(window, to, position).active_window() == Some(window),
{
    lemma_found_at(state);
    lemma_index_bounds(state, window);
    lemma_index_bounds(state, to);
    assert(state.lists(from_index, window));
    let i = state.window_index(window).unwrap();
    let home = state.workspaces[from_index].id;
    assert(state.workspace_index(home) == Some(from_index));
    assert(state.can_transfer(window, to));
    lemma_detached(state, window);
    let left = state.detached(window);
    assert(left.workspaces == state.workspaces.update(
        from_index,
        state.workspaces[from_index].removed(window),
    ));
    let target = state.workspaces[to_index];
    assert(target.wf());
    assert(left.workspaces[to_index] == target);
    assert(!target.windows.contains(window)) by {
        if target.windows.contains(window) {
            assert(state.lists(to_index, window));
            assert(state.workspace_index(target.id) == Some(to_index));
        }
    }
    assert(!target.mru_windows.contains(window));
    lemma_without_absent(target.windows, window);
    lemma_without_absent(target.mru_windows, window);
    lemma_index_bounds(left, to);
    assert(left.workspace(to) == Some(target));
    let index = left.insertion_index(to, position);
    assert(0 <= index <= target.windows.len()) by {
        match target.active_window() {
            Some(top) => {
                target.windows.index_of_first_ensures(top);
            },
            None => {},
        }
        match position {
            WorkspacePosition::Coordinate(p) => {
                lemma_first_right_of(left, target.windows, p.x, 0);
            },
            _ => {},
        }
    }
    lemma_attached(left, window, to, index);
    let there = left.attached(window, to, index);
    lemma_index_bounds(left, window);
    assert(at_most(index, target.windows.len() as int) == index);
    assert(there.workspaces[to_index].windows == target.windows.insert(index, window));
    assert(there.workspaces[to_index].mru_windows == target.mru_windows.push(window));
    assert(there.workspaces[from_index].windows == without(
        state.workspaces[from_index].windows,
        window,
    ));
    assert(there.windows[i].on_workspace == Some(to));
    assert(workspace_ids(there.workspaces) == workspace_ids(state.workspaces));
    assert(there.workspace_index(to) == Some(to_index));
    lemma_workspace_focused(there, to, to_index);
    lemma_workspace_focus_keeps_orders(there, to);
    lemma_focused_workspace_is_active(there, to);
    let focused = there.workspace_focused(to);
    lemma_arranged_upto_frame(
        focused,
        reversed(focused.mru_workspaces),
        focused.mru_workspaces.len() as int,
    );
    let done = focused.arranged_all();
    assert(done == state.window_sent(window, to, position));
    lemma_layout_keeps_wf(focused, done);
    lemma_frame_lookups(focused, done);
    assert(same_listing(there.workspaces[to_index], focused.workspaces[to_index]));
    assert(same_listing(focused.workspaces[to_index], done.workspaces[to_index]));
    assert(same_listing(there.workspaces[from_index], focused.workspaces[from_index]));
    assert(same_listing(focused.workspaces[from_index], done.workspaces[from_index]));
    assert forall|k: int|
        0 <= k < state.workspaces.len() && k != from_index && k != to_index implies (
    #[trigger] done.workspaces[k]).windows == state.workspaces[k].windows by {
        assert(same_listing(there.workspaces[k], focused.workspaces[k]));
        assert(same_listing(focused.workspaces[k], done.workspaces[k]));
    }
    assert(window_ids(focused.windows) =~= window_ids(there.windows));
    assert(focused.windows[i].on_workspace == there.windows[i].on_workspace);
    assert(same_surface(focused.windows[i], done.windows[i]));
    assert(done.window_index(window) == Some(i));
}

/// The active window at the end of its row goes to the monitor next to its
/// own: moved to the right, it is the first window of the workspace there,
/// moved to the left, the last one; the windows there keep their order, and
/// so do those that it leaves. The workspace there is the active one, and
/// the window is its window used most recently and the active window.
pub proof fn lemma_move_falls_back(
    state: State,
    direction: Direction,
    from_index: int,
    to_index: int,
)
    requires
        state.wf(),
        state.bindings_wf(),
        state.active_window().is_some(),
        0 <= from_index < state.workspaces.len(),
        state.workspaces[from_index].has_window(state.active_window().unwrap()),
        state.workspaces[from_index].moved(state.active_window().unwrap(), direction).is_none(),
        state.monitor_by_direction(direction).is_some(),
        state.workspace_index(
            state.monitors[state.monitor_by_direction(direction).unwrap()].workspace,
        ) == Some(to_index),
        to_index != from_index,
    ensures
        ({
            let window = state.active_window().unwrap();
            let to = state.monitors[state.monitor_by_direction(direction).unwrap()].workspace;
            let after = state.window_moved(direction);
            &&& after.workspaces[to_index].windows == match direction {
                Direction::Right => seq![window] + state.workspaces[to_index].windows,
                Direction::Left => state.workspaces[to_index].windows.push(window),
            }
            &&& after.workspaces[from_index].windows == without(
                state.workspaces[from_index].windows,
                window,
            )
            &&& after.workspaces[to_index].active_window() == Some(window)
            &&& after.workspace_of(window) == Some(to)
            &&& after.active_workspace() == Some(to)
            &&& after.active_window() == Some(window)
        }),
{
    let window = state.active_window().unwrap();
    let m = state.monitor_by_direction(direction).unwrap();
    let to = state.monitors[m].workspace;
    lemma_found_at(state);
    lemma_index_bounds(state, window);
    lemma_index_bounds(state, to);
    assert(state.lists(from_index, window));
    let home = state.workspaces[from_index].id;
    assert(state.workspace_index(home) == Some(from_index));
    assert(workspace_ids(state.workspaces)[to_index] == to);
    assert(workspace_ids(state.workspaces).contains(to));
    let position = entry_position(direction);
    assert(state.window_moved(direction) == state.window_sent(window, to, position));
    lemma_window_sent_outcome(state, window, to, position, from_index, to_index);
    lemma_detached(state, window);
    let left = state.detached(window);
    lemma_index_bounds(left, to);
    let target = state.workspaces[to_index];
    assert(left.workspaces[to_index] == target);
    match direction {
        Direction::Right => {
            assert(target.windows.insert(0, window) =~= seq![window] + target.windows);
        },
        Direction::Left => {
            assert(target.windows.insert(target.windows.len() as int, window)
                =~= target.windows.push(window));
        },
    }
}

/// States whose windows stand at the same committed places find the same
/// place for a window dropped at `x`.
pub proof fn lemma_first_right_of_frame(a: State, b: State, windows: Seq<Id>, x: i32, from: int)
    requires
        forall|id: Id| a.centre_right_of(id, x) == b.centre_right_of(id, x),
    ensures
        a.first_right_of(windows, x, from) == b.first_right_of(windows, x, from),
    decreases windows.len() - from,
{
    if 0 <= from < windows.len() {
        assert(a.centre_right_of(windows[from], x) == b.centre_right_of(windows[from], x));
        if !a.centre_right_of(windows[from], x) {
            lemma_first_right_of_frame(a, b, windows, x, from + 1);
        }
    }
}

/// A window dragged over another monitor goes to the workspace there: it
/// stands before the first window whose centre lies right of the pointer,
/// or at the end if there is none, and the other windows there keep their
/// order; the workspace that it leaves holds its other windows in their
/// order.
pub proof fn lemma_drag_to_other_monitor(
    state: State,
    gesture: MoveGesture,
    position: Point,
    from_index: int,
    to_index: int,
)
    requires
        state.wf(),
        0 <= from_index < state.workspaces.len(),
        state.workspaces[from_index].has_window(gesture.window),
        state.workspace_at(position).is_some(),
        state.mru_workspaces.contains(state.workspace_at(position).unwrap()),
        state.workspace_index(state.workspace_at(position).unwrap()) == Some(to_index),
        to_index != from_index,
    ensures
        ({
            let there = state.workspaces[to_index].windows;
            let index = state.first_right_of(there, position.x, 0);
            let after = state.window_dragged(gesture, position);
            &&& 0 <= index <= there.len()
            &&& forall|k: int| 0 <= k < index ==> !state.centre_right_of(#[trigger] there[k], position.x)
            &&& index < there.len() ==> state.centre_right_of(there[index], position.x)
            &&& after.wf()
            &&& after.workspaces.len() == state.workspaces.len()
            &&& after.workspaces[to_index].windows == there.insert(index, gesture.window)
            &&& after.workspaces[from_index].windows == without(
                state.workspaces[from_index].windows,
                gesture.window,
            )
            &&& forall|k: int|
                0 <= k < state.workspaces.len() && k != from_index && k != to_index ==> (
                #[trigger] after.workspaces[k]).windows == state.workspaces[k].windows
            &&& after.workspace_of(gesture.window) == state.workspace_at(position)
            &&& after.active_window() == Some(gesture.window)
        }),
{
    let window = gesture.window;
    let to = state.workspace_at(position).unwrap();
    let there = state.workspaces[to_index].windows;
    lemma_found_at(state);
    lemma_index_bounds(state, window);
    lemma_index_bounds(state, to);
    assert(state.lists(from_index, window));
    let i = state.window_index(window).unwrap();
    let home = state.workspaces[from_index].id;
    assert(state.workspace_index(home) == Some(from_index));
    assert(home != to);
    let w = Window { is_dragged: true, ..state.windows[i] };
    lemma_window_replaced(state, i, w);
    let held = state.with_window_at(i, w);
    assert(window_ids(held.windows) =~= window_ids(state.windows));
    assert(held.workspace_index(home) == Some(from_index));
    assert(state.window_dragged(gesture, position) == held.window_sent(
        window,
        to,
        WorkspacePosition::Coordinate(position),
    ));
    lemma_window_sent_outcome(
        held,
        window,
        to,
        WorkspacePosition::Coordinate(position),
        from_index,
        to_index,
    );
    lemma_detached(held, window);
    let left = held.detached(window);
    lemma_index_bounds(left, to);
    assert(left.workspaces[to_index] == state.workspaces[to_index]);
    assert(window_ids(left.windows) == window_ids(state.windows));
    assert forall|id: Id| left.centre_right_of(id, position.x) == state.centre_right_of(
        id,
        position.x,
    ) by {
        lemma_index_bounds(state, id);
        lemma_index_bounds(left, id);
        match state.window_index(id) {
            Some(j) => {
                assert(left.windows[j].rendered == state.windows[j].rendered);
            },
            None => {},
        }
    }
    lemma_first_right_of_frame(left, state, there, position.x, 0);
    lemma_first_right_of(state, there, position.x, 0);
}

/// A pointer motion below the title-bar band that carries the window of a
/// move gesture over another monitor is taken by the gesture, and the window
/// goes to the workspace there as `lemma_drag_to_other_monitor` says of the
/// state in which the pointer has come over that monitor.
pub proof fn lemma_motion_to_other_monitor(
    state: State,
    gesture: MoveGesture,
    event: PointerEvent,
)
    requires
        state.wf(),
        state.gesture == Gesture::Move(gesture),
        event.action == PointerAction::Motion,
        event.position.y >= TITLE_BAR_BAND,
    ensures
        state.consumes(event),
        state.pointer_entered(event.position).wf(),
        state.pointer_entered(event.position).gesture == state.gesture,
        state.pointer_entered(event.position).workspace_at(event.position) == state.workspace_at(
            event.position,
        ),
        state.pointer_handled(event) == (State {
            old_cursor: event.position,
            ..state.pointer_entered(event.position).window_dragged(gesture, event.position)
        }),
{
    lemma_pointer_entered(state, event.position);
    match state.workspace_at(event.position) {
        Some(workspace) => {
            if state.active_workspace() != Some(workspace) {
                lemma_index_bounds(state, workspace);
                match state.workspace_index(workspace) {
                    Some(index) => {
                        let bound = state.rebound(workspace);
                        let active = State {
                            mru_workspaces: promoted_in(bound.mru_workspaces, workspace),
                            ..bound
                        };
                        let focused = match active.workspaces[index].active_window() {
                            Some(window) => State {
                                mru_windows: promoted_in(active.mru_windows, window),
                                ..active
                            }.with_command(Command::FocusWindow { window }),
                            None => active.with_command(Command::Blur),
                        };
                        lemma_arranged_frame(focused, workspace, false);
                        lemma_rebound_keeps_place(state, workspace, event.position);
                    },
                    None => {},
                }
            }
        },
        None => {},
    }
}

/// Showing the workspace under the pointer on the monitor of the active
/// workspace changes nothing: a monitor shows it already.
pub proof fn lemma_rebound_keeps_place(state: State, workspace: Id, position: Point)
    requires
        state.workspace_at(position) == Some(workspace),
    ensures
        state.rebound(workspace) == state,
{
    lemma_monitor_at(state.monitors, position, 0);
    let m = first_monitor_at(state.monitors, position, 0).unwrap();
    let shown = shown_workspaces(state.monitors);
    assert(shown[m] == workspace);
    shown.index_of_first_ensures(workspace);
}

/// What `first_monitor_at` finds is a monitor.
pub proof fn lemma_monitor_at(monitors: Seq<Monitor>, position: Point, from: int)
    requires
        0 <= from,
    ensures
        match first_monitor_at(monitors, position, from) {
            Some(m) => from <= m < monitors.len(),
            None => true,
        },
    decreases monitors.len() - from,
{
    if from < monitors.len() && !monitors[from].extents.spec_contains(position) {
        lemma_monitor_at(monitors, position, from + 1);
    }
}

/// States that differ by layout alone pack the windows of a workspace at
/// the same places.
pub proof fn lemma_packed_left_frame(
    before: State,
    after: State,
    windows: Seq<Id>,
    zone_left: i32,
    k: int,
)
    requires
        before.layout_frame(after),
    ensures
        after.packed_left(windows, zone_left, k) == before.packed_left(windows, zone_left, k),
    decreases k,
{
    if k > 0 {
        lemma_packed_left_frame(before, after, windows, zone_left, k - 1);
        lemma_frame_lookups(before, after);
        let id = windows[k - 1];
        lemma_index_bounds(before, id);
        match before.window_index(id) {
            Some(j) => {
                assert(after.window_index(id) == Some(j));
                assert(same_surface(before.windows[j], after.windows[j]));
            },
            None => {
                assert(after.window_index(id).is_none());
            },
        }
    }
}

/// The pending position of the window at `j` after the workspace
/// `workspace_id` was packed, scrolled and committed is the one that the
/// packing gave it.
proof fn lemma_arranged_pending(state: State, workspace_id: Id, force: bool, index: int, j: int)
    requires
        state.workspace_index(workspace_id) == Some(index),
        state.monitor_by_workspace(workspace_id).is_some(),
        0 <= j < state.windows.len(),
    ensures
        state.arranged(workspace_id, force).windows.len() == state.windows.len(),
        state.arranged(workspace_id, force).windows[j].pending() == state.placed_window(
            state.workspaces[index],
            state.monitor_by_workspace(workspace_id).unwrap().extents,
            j,
        ).pending(),
{
    let monitor = state.monitor_by_workspace(workspace_id).unwrap();
    workspace_ids(state.workspaces).index_of_first_ensures(workspace_id);
    let packed = state.with_cached_positions(workspace_id);
    assert(packed.windows[j] == state.placed_window(state.workspaces[index], monitor.extents, j));
    assert(state.layout_frame(packed));
    let scrolled = match packed.workspaces[index].active_window() {
        Some(active) => match packed.window(active) {
            Some(window) => if window.spec_is_tiled() {
                packed.with_window_visible_on(index, monitor.extents, window)
            } else {
                packed
            },
            None => packed,
        },
        None => packed,
    };
    assert(scrolled.windows == packed.windows);
    assert(packed.layout_frame(scrolled));
    lemma_layout_frame_trans(state, packed, scrolled);
    lemma_frame_lookups(state, scrolled);
    match scrolled.workspace(workspace_id) {
        Some(listed) => {
            lemma_commit_windows_frame(
                scrolled,
                listed.windows,
                listed.scroll_left,
                force,
                listed.windows.len() as int,
            );
        },
        None => {},
    }
    let done = state.arranged(workspace_id, force);
    assert(done.windows[j].pending() == scrolled.windows[j].pending());
}

/// After a workspace on a monitor was laid out, its tiled windows stand
/// side by side from the left edge of the zone on, without a gap: each one
/// begins where the tiled windows before it end.
pub proof fn lemma_arranged_packs(
    state: State,
    workspace_id: Id,
    force: bool,
    index: int,
    k: int,
    j: int,
)
    requires
        state.workspace_index(workspace_id) == Some(index),
        state.monitor_by_workspace(workspace_id).is_some(),
        state.workspaces[index].windows.no_duplicates(),
        0 <= k < state.workspaces[index].windows.len(),
        state.window_index(state.workspaces[index].windows[k]) == Some(j),
        state.windows[j].spec_is_tiled(),
    ensures
        state.arranged(workspace_id, force).windows[j].x == state.packed_left(
            state.workspaces[index].windows,
            state.monitor_by_workspace(workspace_id).unwrap().extents.top_left.x,
            k,
        ),
{
    let listed = state.workspaces[index].windows;
    let id = listed[k];
    lemma_index_bounds(state, id);
    listed.index_of_first_ensures(id);
    assert(listed.contains(id));
    let found = listed.index_of_first(id).unwrap();
    assert(listed[found] == listed[k]);
    lemma_arranged_pending(state, workspace_id, force, index, j);
}

/// Laying out a workspace leaves the pending position of a window that the
/// workspace does not list as it is.
pub proof fn lemma_arranged_leaves_others(state: State, workspace_id: Id, force: bool, j: int)
    requires
        0 <= j < state.windows.len(),
        match state.workspace(workspace_id) {
            Some(w) => !w.windows.contains(state.windows[j].id),
            None => true,
        },
    ensures
        state.arranged(workspace_id, force).windows.len() == state.windows.len(),
        state.arranged(workspace_id, force).windows[j].pending() == state.windows[j].pending(),
{
    lemma_index_bounds(state, workspace_id);
    match (state.workspace_index(workspace_id), state.monitor_by_workspace(workspace_id)) {
        (Some(index), Some(monitor)) => {
            state.workspaces[index].windows.index_of_first_ensures(state.windows[j].id);
            lemma_arranged_pending(state, workspace_id, force, index, j);
        },
        _ => {},
    }
}

/// After the first `n` workspaces of `order` were laid out, the tiled
/// windows of each of them that is on a monitor stand side by side from the
/// left edge of the zone on.
pub proof fn lemma_arranged_upto_packs(
    state: State,
    order: Seq<Id>,
    n: int,
    p: int,
    index: int,
    k: int,
    j: int,
)
    requires
        state.wf(),
        order.no_duplicates(),
        0 <= p < n <= order.len(),
        state.workspace_index(order[p]) == Some(index),
        state.monitor_by_workspace(order[p]).is_some(),
        0 <= k < state.workspaces[index].windows.len(),
        state.window_index(state.workspaces[index].windows[k]) == Some(j),
        state.windows[j].spec_is_tiled(),
    ensures
        state.layout_frame(state.arranged_upto(order, n)),
        state.arranged_upto(order, n).windows[j].x == state.packed_left(
            state.workspaces[index].windows,
            state.monitor_by_workspace(order[p]).unwrap().extents.top_left.x,
            k,
        ),
    decreases n,
{
    let before = state.arranged_upto(order, n - 1);
    let after = state.arranged_upto(order, n);
    lemma_arranged_upto_frame(state, order, n - 1);
    lemma_arranged_upto_frame(state, order, n);
    lemma_frame_lookups(state, before);
    lemma_index_bounds(state, order[p]);
    lemma_index_bounds(state, state.workspaces[index].windows[k]);
    let listed = state.workspaces[index];
    let zone_left = state.monitor_by_workspace(order[p]).unwrap().extents.top_left.x;
    assert(same_listing(listed, before.workspaces[index]));
    assert(same_surface(state.windows[j], before.windows[j]));
    assert(listed.wf());
    if p == n - 1 {
        lemma_arranged_packs(before, order[p], false, index, k, j);
        lemma_packed_left_frame(state, before, listed.windows, zone_left, k);
    } else {
        lemma_arranged_upto_packs(state, order, n - 1, p, index, k, j);
        let other = order[n - 1];
        lemma_index_bounds(state, other);
        lemma_found_at(state);
        match before.workspace(other) {
            Some(w) => {
                let o = state.workspace_index(other).unwrap();
                assert(same_listing(state.workspaces[o], before.workspaces[o]));
                if w.windows.contains(before.windows[j].id) {
                    assert(listed.windows.contains(state.windows[j].id));
                    assert(state.lists(index, state.windows[j].id));
                    assert(state.lists(o, state.windows[j].id));
                    assert(state.workspaces[o].id == other);
                    assert(state.workspaces[index].id == order[p]);
                }
            },
            None => {},
        }
        lemma_arranged_leaves_others(before, other, false, j);
    }
}

/// After every workspace was laid out, the tiled windows of each workspace
/// on a monitor stand side by side from the left edge of the zone on,
/// without a gap: each one begins where the tiled windows before it end.
pub proof fn lemma_arranged_all_packs(state: State, workspace_id: Id, index: int, k: int, j: int)
    requires
        state.wf(),
        state.mru_workspaces.contains(workspace_id),
        state.workspace_index(workspace_id) == Some(index),
        state.monitor_by_workspace(workspace_id).is_some(),
        0 <= k < state.workspaces[index].windows.len(),
        state.window_index(state.workspaces[index].windows[k]) == Some(j),
        state.windows[j].spec_is_tiled(),
    ensures
        state.arranged_all().windows[j].x == state.packed_left(
            state.workspaces[index].windows,
            state.monitor_by_workspace(workspace_id).unwrap().extents.top_left.x,
            k,
        ),
        state.arranged_all().packed_left(
            state.workspaces[index].windows,
            state.monitor_by_workspace(workspace_id).unwrap().extents.top_left.x,
            k,
        ) == state.packed_left(
            state.workspaces[index].windows,
            state.monitor_by_workspace(workspace_id).unwrap().extents.top_left.x,
            k,
        ),
{
    let order = reversed(state.mru_workspaces);
    let n = state.mru_workspaces.len() as int;
    let at = choose|at: int| 0 <= at < n && state.mru_workspaces[at] == workspace_id;
    let p = n - 1 - at;
    assert(order[p] == workspace_id);
    assert forall|a: int, b: int| 0 <= a < n && 0 <= b < n && a != b implies order[a]
        != order[b] by {
        assert(order[a] == state.mru_workspaces[n - 1 - a]);
        assert(order[b] == state.mru_workspaces[n - 1 - b]);
    }
    lemma_arranged_upto_packs(state, order, n, p, index, k, j);
    lemma_packed_left_frame(
        state,
        state.arranged_all(),
        state.workspaces[index].windows,
        state.monitor_by_workspace(workspace_id).unwrap().extents.top_left.x,
        k,
    );
}

/// When a window was sent from a workspace on a monitor to another
/// workspace on a monitor, the workspace that it left is laid out again
/// without it: its tiled windows stand side by side from the left edge of
/// the zone on, with no gap where the window was.
pub proof fn lemma_window_sent_repacks(
    state: State,
    window: Id,
    to: Id,
    position: WorkspacePosition,
    from_index: int,
    to_index: int,
    k: int,
    j: int,
)
    requires
        state.wf(),
        state.mru_workspaces.contains(to),
        state.mru_workspaces.contains(state.workspaces[from_index].id),
        0 <= from_index < state.workspaces.len(),
        state.workspaces[from_index].has_window(window),
        state.workspace_index(to) == Some(to_index),
        to_index != from_index,
        state.monitor_by_workspace(to).is_some(),
        state.monitor_by_workspace(state.workspaces[from_index].id).is_some(),
        0 <= k < without(state.workspaces[from_index].windows, window).len(),
        state.window_sent(window, to, position).window_index(
            without(state.workspaces[from_index].windows, window)[k],
        ) == Some(j),
        state.window_sent(window, to, position).windows[j].spec_is_tiled(),
    ensures
        state.window_sent(window, to, position).workspaces[from_index].windows == without(
            state.workspaces[from_index].windows,
            window,
        ),
        state.window_sent(window, to, position).monitor_by_workspace(
            state.workspaces[from_index].id,
        ) == state.monitor_by_workspace(state.workspaces[from_index].id),
        state.window_sent(window, to, position).windows[j].x == state.window_sent(
            window,
            to,
            position,
        ).packed_left(
            without(state.workspaces[from_index].windows, window),
            state.monitor_by_workspace(
                state.workspaces[from_index].id,
            ).unwrap().extents.top_left.x,
            k,
        ),
{
    let home = state.workspaces[from_index].id;
    let rest = without(state.workspaces[from_index].windows, window);
    lemma_found_at(state);
    lemma_index_bounds(state, window);
    lemma_index_bounds(state, to);
    assert(state.lists(from_index, window));
    assert(state.workspace_index(home) == Some(from_index));
    lemma_window_sent_outcome(state, window, to, position, from_index, to_index);
    lemma_detached(state, window);
    let left = state.detached(window);
    let index = left.insertion_index(to, position);
    lemma_attached(left, window, to, index);
    let there = left.attached(window, to, index);
    assert(there.monitors == state.monitors);
    assert(there.mru_workspaces == state.mru_workspaces);
    assert(workspace_ids(there.workspaces) == workspace_ids(state.workspaces));
    assert(there.workspace_index(to) == Some(to_index));
    assert(there.workspace_index(home) == Some(from_index));
    shown_workspaces(state.monitors).index_of_first_ensures(to);
    assert(there.rebound(to) == there);
    lemma_workspace_focused(there, to, to_index);
    lemma_workspace_focus_keeps_orders(there, to);
    lemma_promoted_in(there.mru_workspaces, to);
    let focused = there.workspace_focused(to);
    assert(focused.monitors == state.monitors && focused.mru_workspaces == promoted_in(
        there.mru_workspaces,
        to,
    )) by {
        let active = State { mru_workspaces: promoted_in(there.mru_workspaces, to), ..there };
        let lit = match active.workspaces[to_index].active_window() {
            Some(top) => State {
                mru_windows: promoted_in(active.mru_windows, top),
                ..active
            }.with_command(Command::FocusWindow { window: top }),
            None => active.with_command(Command::Blur),
        };
        lemma_arranged_frame(lit, to, false);
    }
    assert(workspace_ids(focused.workspaces) =~= workspace_ids(there.workspaces));
    assert(same_listing(there.workspaces[from_index], focused.workspaces[from_index]));
    assert(focused.workspaces[from_index].windows == rest);
    lemma_arranged_upto_frame(
        focused,
        reversed(focused.mru_workspaces),
        focused.mru_workspaces.len() as int,
    );
    let done = focused.arranged_all();
    assert(done == state.window_sent(window, to, position));
    lemma_frame_lookups(focused, done);
    assert(same_surface(focused.windows[j], done.windows[j])) by {
        lemma_index_bounds(done, rest[k]);
    }
    lemma_arranged_all_packs(focused, home, from_index, k, j);
}

} // verus!
