//! The consistency of the state is kept: what the window manager does to a
//! consistent state gives a consistent state.

use crate::actions::entry_position;
use crate::actions::resized_width;
use crate::entities::Command;
use crate::entities::Direction;
use crate::entities::Gesture;
use crate::entities::GestureType;
use crate::entities::Id;
use crate::entities::Monitor;
use crate::entities::MoveGesture;
use crate::entities::ResizeGesture;
use crate::entities::VerticalDirection;
use crate::entities::Window;
use crate::entities::WindowEdges;
use crate::entities::WindowInfo;
use crate::entities::WorkspacePosition;
use crate::focus::lemma_first_right_of;
use crate::geometry::Displacement;
use crate::geometry::Point;
use crate::geometry::Rectangle;
use crate::geometry::Size;
use crate::geometry::clamp_i32;
use crate::geometry::half;
use crate::laws::lemma_arranged_frame;
use crate::laws::lemma_arranged_upto_frame;
use crate::laws::lemma_focus_frame_refl;
use crate::laws::lemma_focus_keeps_wf;
use crate::laws::lemma_frame_keeps_wf;
use crate::laws::lemma_index_bounds;
use crate::laws::lemma_layout_keeps_wf;
use crate::laws::lemma_workspace_focused;
use crate::mru_list::lemma_without_absent;
use crate::mru_list::lemma_without_facts;
use crate::mru_list::reversed;
use crate::mru_list::without;
use crate::pointer::PointerAction;
use crate::pointer::PointerEvent;
use crate::pointer::resized_extents;
use crate::policy::reassigned;
use crate::shortcuts::ActionShortcut;
use crate::shortcuts::Binding;
use crate::shortcuts::Keybinding;
use crate::shortcuts::KeyboardShortcut;
use crate::shortcuts::binding_index;
use crate::state::State;
use crate::state::window_ids;
use crate::state::workspace_ids;
use crate::workspace::WorkspaceView;
use crate::workspace::at_most;
use crate::workspace::lemma_insert_contains;
use crate::workspace::lemma_insert_fresh;
use crate::workspace::lemma_push_is_insert;
use crate::workspace::lemma_swapped;
use vstd::prelude::*;

verus! {

/// In a consistent state every window and every workspace is found under
/// its identifier.
pub proof fn lemma_found_at(state: State)
    requires
        state.wf(),
    ensures
        forall|j: int|
            0 <= j < state.windows.len() ==> state.window_index(
                (#[trigger] state.windows[j]).id,
            ) == Some(j),
        forall|i: int|
            0 <= i < state.workspaces.len() ==> state.workspace_index(
                (#[trigger] state.workspaces[i]).id,
            ) == Some(i),
{
    assert forall|j: int| 0 <= j < state.windows.len() implies state.window_index(
        (#[trigger] state.windows[j]).id,
    ) == Some(j) by {
        let ids = window_ids(state.windows);
        ids.index_of_first_ensures(state.windows[j].id);
        assert(ids[j] == state.windows[j].id);
        let found = ids.index_of_first(state.windows[j].id).unwrap();
        assert(ids[found] == ids[j]);
    }
    assert forall|i: int| 0 <= i < state.workspaces.len() implies state.workspace_index(
        (#[trigger] state.workspaces[i]).id,
    ) == Some(i) by {
        let ids = workspace_ids(state.workspaces);
        ids.index_of_first_ensures(state.workspaces[i].id);
        assert(ids[i] == state.workspaces[i].id);
        let found = ids.index_of_first(state.workspaces[i].id).unwrap();
        assert(ids[found] == ids[i]);
    }
}

/// A consistent state stays consistent when a workspace is replaced by one
/// with the same identifier and the same windows.
pub proof fn lemma_workspace_replaced(state: State, index: int, view: WorkspaceView)
    requires
        state.wf(),
        0 <= index < state.workspaces.len(),
        view.id == state.workspaces[index].id,
        view.wf(),
        forall|w: Id| view.windows.contains(w) == state.workspaces[index].windows.contains(w),
    ensures
        state.with_workspace_at(index, view).wf(),
{
    let after = state.with_workspace_at(index, view);
    assert(workspace_ids(after.workspaces) =~= workspace_ids(state.workspaces));
    assert forall|i: int| 0 <= i < after.workspaces.len() implies (
    #[trigger] after.workspaces[i]).wf() by {
        assert(state.workspaces[i].wf());
    }
    assert forall|i: int, w: Id|
        0 <= i < after.workspaces.len() && #[trigger] after.workspaces[i].windows.contains(
            w,
        ) implies after.lists(i, w) by {
        assert(state.workspaces[i].windows.contains(w));
        assert(state.lists(i, w));
    }
    assert forall|j: int| 0 <= j < after.windows.len() implies #[trigger] after.placed_consistently(
        j,
    ) by {
        assert(state.placed_consistently(j));
        match state.windows[j].on_workspace {
            Some(workspace) => {
                lemma_index_bounds(state, workspace);
            },
            None => {},
        }
    }
    assert forall|i: int| 0 <= i < after.workspaces.len() implies (
    #[trigger] after.workspaces[i]).id < after.next_workspace_id by {
        assert(state.workspaces[i].id < state.next_workspace_id);
    }
}

/// A consistent state stays consistent when a window is replaced by one
/// with the same identifier on the same workspace.
pub proof fn lemma_window_replaced(state: State, index: int, window: Window)
    requires
        state.wf(),
        0 <= index < state.windows.len(),
        window.id == state.windows[index].id,
        window.on_workspace == state.windows[index].on_workspace,
    ensures
        state.with_window_at(index, window).wf(),
        state.focus_frame(state.with_window_at(index, window)),
{
    let after = state.with_window_at(index, window);
    lemma_focus_frame_refl(state);
    assert(state.focus_frame(after));
    lemma_frame_keeps_wf(state, after);
}

/// Taking a window off its workspace keeps a consistent state consistent;
/// afterwards the window is on no workspace, and the order of use of all
/// windows is as before.
pub proof fn lemma_detached(state: State, window: Id)
    requires
        state.wf(),
    ensures
        state.detached(window).wf(),
        state.detached(window).mru_windows == state.mru_windows,
        state.detached(window).mru_workspaces == state.mru_workspaces,
        state.detached(window).window_index(window) == state.window_index(window),
        state.detached(window).workspace_of(window).is_none(),
        window_ids(state.detached(window).windows) == window_ids(state.windows),
        workspace_ids(state.detached(window).workspaces) == workspace_ids(state.workspaces),
{
    lemma_index_bounds(state, window);
    lemma_found_at(state);
    let after = state.detached(window);
    match state.window_index(window) {
        Some(i) => {
            let w = state.windows[i];
            match w.on_workspace {
                Some(workspace) => {
                    assert(state.placed_consistently(i));
                    lemma_index_bounds(state, workspace);
                    let index = state.workspace_index(workspace).unwrap();
                    let listed = state.workspaces[index];
                    listed.lemma_removed_wf(window);
                    lemma_without_facts(listed.windows, window);
                    let view = listed.removed(window);
                    assert(window_ids(after.windows) =~= window_ids(state.windows));
                    assert(workspace_ids(after.workspaces) =~= workspace_ids(state.workspaces));
                    assert forall|id: Id| id != window implies after.workspace_of(id)
                        == state.workspace_of(id) by {
                        lemma_index_bounds(state, id);
                    }
                    assert forall|k: int| 0 <= k < after.workspaces.len() implies (
                    #[trigger] after.workspaces[k]).wf() by {
                        assert(state.workspaces[k].wf());
                    }
                    assert forall|k: int, x: Id|
                        0 <= k < after.workspaces.len() && #[trigger] after.workspaces[k].windows.contains(
                            x,
                        ) implies after.lists(k, x) by {
                        if k == index {
                            assert(x != window);
                            assert(listed.windows.contains(x));
                            assert(state.lists(index, x));
                        } else {
                            assert(state.workspaces[k].windows.contains(x));
                            assert(state.lists(k, x));
                            if x == window {
                                assert(state.workspaces[k].id == workspace);
                                assert(state.workspace_index(state.workspaces[k].id) == Some(k));
                            }
                        }
                    }
                    assert forall|j: int| 0 <= j < after.windows.len() implies
                        #[trigger] after.placed_consistently(j) by {
                        if j != i {
                            assert(state.placed_consistently(j));
                            assert(state.window_index(state.windows[j].id) == Some(j));
                            match state.windows[j].on_workspace {
                                Some(home) => {
                                    lemma_index_bounds(state, home);
                                },
                                None => {},
                            }
                        }
                    }
                    assert forall|j: int| 0 <= j < after.windows.len() implies (
                    #[trigger] after.windows[j]).id < after.next_window_id by {
                        assert(state.windows[j].id < state.next_window_id);
                    }
                    assert forall|k: int| 0 <= k < after.workspaces.len() implies (
                    #[trigger] after.workspaces[k]).id < after.next_workspace_id by {
                        assert(state.workspaces[k].id < state.next_workspace_id);
                    }
                },
                None => {},
            }
        },
        None => {},
    }
}

/// Putting a window that is on no workspace onto a workspace keeps a
/// consistent state consistent, if the window takes part in the order of use
/// of all windows.
pub proof fn lemma_attached(state: State, window: Id, to: Id, index: int)
    requires
        state.wf(),
        state.workspace_of(window).is_none(),
        state.window_index(window).is_some() ==> state.mru_windows.contains(window),
        0 <= index,
    ensures
        state.attached(window, to, index).wf(),
        state.attached(window, to, index).mru_windows == state.mru_windows,
        state.attached(window, to, index).mru_workspaces == state.mru_workspaces,
        window_ids(state.attached(window, to, index).windows) == window_ids(state.windows),
        workspace_ids(state.attached(window, to, index).workspaces) == workspace_ids(
            state.workspaces,
        ),
{
    lemma_index_bounds(state, window);
    lemma_index_bounds(state, to);
    lemma_found_at(state);
    let after = state.attached(window, to, index);
    match (state.window_index(window), state.workspace_index(to)) {
        (Some(i), Some(target)) => {
            let listed = state.workspaces[target];
            assert(!listed.windows.contains(window)) by {
                if listed.windows.contains(window) {
                    assert(state.lists(target, window));
                }
            }
            listed.lemma_inserted_wf(window, index);
            lemma_without_absent(listed.windows, window);
            let at = at_most(index, listed.windows.len() as int);
            let view = listed.inserted(window, index);
            assert(view.windows == listed.windows.insert(at, window));
            assert(window_ids(after.windows) =~= window_ids(state.windows));
            assert(workspace_ids(after.workspaces) =~= workspace_ids(state.workspaces));
            assert forall|id: Id| id != window implies after.workspace_of(id)
                == state.workspace_of(id) by {
                lemma_index_bounds(state, id);
            }
            assert(after.workspace_of(window) == Some(to));
            assert forall|k: int| 0 <= k < after.workspaces.len() implies (
            #[trigger] after.workspaces[k]).wf() by {
                assert(state.workspaces[k].wf());
            }
            assert forall|k: int, x: Id|
                0 <= k < after.workspaces.len() && #[trigger] after.workspaces[k].windows.contains(
                    x,
                ) implies after.lists(k, x) by {
                if k == target {
                    lemma_insert_contains(listed.windows, at, window, x);
                    if x != window {
                        assert(listed.windows.contains(x));
                        assert(state.lists(target, x));
                    }
                } else {
                    assert(state.workspaces[k].windows.contains(x));
                    assert(state.lists(k, x));
                }
            }
            assert forall|j: int| 0 <= j < after.windows.len() implies
                #[trigger] after.placed_consistently(j) by {
                if j == i {
                    lemma_insert_contains(listed.windows, at, window, window);
                } else {
                    assert(state.placed_consistently(j));
                    match state.windows[j].on_workspace {
                        Some(home) => {
                            lemma_index_bounds(state, home);
                            lemma_insert_contains(listed.windows, at, window, state.windows[j].id);
                        },
                        None => {},
                    }
                }
            }
            assert forall|j: int| 0 <= j < after.windows.len() implies (
            #[trigger] after.windows[j]).id < after.next_window_id by {
                assert(state.windows[j].id < state.next_window_id);
            }
            assert forall|k: int| 0 <= k < after.workspaces.len() implies (
            #[trigger] after.workspaces[k]).id < after.next_workspace_id by {
                assert(state.workspaces[k].id < state.next_workspace_id);
            }
        },
        _ => {},
    }
}

/// Laying out a workspace keeps a consistent state consistent.
pub proof fn lemma_arranged_keeps_wf(state: State, workspace: Id, force: bool)
    requires
        state.wf(),
    ensures
        state.arranged(workspace, force).wf(),
        state.focus_frame(state.arranged(workspace, force)),
{
    lemma_arranged_frame(state, workspace, force);
    lemma_layout_keeps_wf(state, state.arranged(workspace, force));
}

/// Laying out every workspace keeps a consistent state consistent.
pub proof fn lemma_arranged_all_keeps_wf(state: State)
    requires
        state.wf(),
    ensures
        state.arranged_all().wf(),
        state.focus_frame(state.arranged_all()),
{
    lemma_arranged_upto_frame(
        state,
        reversed(state.mru_workspaces),
        state.mru_workspaces.len() as int,
    );
    lemma_layout_keeps_wf(state, state.arranged_all());
}

/// Focusing a workspace keeps a consistent state consistent.
pub proof fn lemma_workspace_focus_keeps_wf(state: State, workspace: Id)
    requires
        state.wf(),
    ensures
        state.workspace_focused(workspace).wf(),
        state.focus_frame(state.workspace_focused(workspace)),
{
    lemma_index_bounds(state, workspace);
    match state.workspace_index(workspace) {
        Some(index) => {
            lemma_workspace_focused(state, workspace, index);
        },
        None => {
            lemma_focus_frame_refl(state);
        },
    }
}

/// Appending a new element keeps a sequence free of repetitions, and every
/// element of it is found where it was.
pub proof fn lemma_push_fresh_lookup(ids: Seq<Id>, id: Id)
    requires
        ids.no_duplicates(),
        !ids.contains(id),
    ensures
        ids.push(id).no_duplicates(),
        ids.push(id).index_of_first(id) == Some(ids.len() as int),
        forall|old: Id|
            old != id ==> #[trigger] ids.push(id).index_of_first(old) == ids.index_of_first(old),
{
    let more = ids.push(id);
    assert forall|a: int, b: int| 0 <= a < more.len() && 0 <= b < more.len() && a != b implies more[a]
        != more[b] by {
        if a < ids.len() {
            assert(ids.contains(ids[a]));
        }
        if b < ids.len() {
            assert(ids.contains(ids[b]));
        }
    }
    more.index_of_first_ensures(id);
    assert(more[ids.len() as int] == id);
    assert(more.index_of_first(id) == Some(ids.len() as int)) by {
        let found = more.index_of_first(id).unwrap();
        assert(more[found] == more[ids.len() as int]);
    }
    assert forall|old: Id| old != id implies #[trigger] more.index_of_first(old)
        == ids.index_of_first(old) by {
        more.index_of_first_ensures(old);
        ids.index_of_first_ensures(old);
        match ids.index_of_first(old) {
            Some(i) => {
                assert(more[i] == old);
                let found = more.index_of_first(old).unwrap();
                assert(more[found] == more[i]);
            },
            None => {
                match more.index_of_first(old) {
                    Some(found) => {
                        assert(ids[found] == old);
                    },
                    None => {},
                }
            },
        }
    }
}

/// Putting an element at the bottom of an order of use keeps the order free
/// of repetitions.
pub proof fn lemma_bottom_order(list: Seq<Id>, id: Id)
    requires
        list.no_duplicates(),
    ensures
        (seq![id] + without(list, id)).no_duplicates(),
{
    lemma_without_facts(list, id);
    let rest = without(list, id);
    lemma_insert_fresh(rest, 0, id);
    assert(seq![id] + rest =~= rest.insert(0, id));
}

/// A new workspace keeps a consistent state consistent.
pub proof fn lemma_new_workspace(state: State)
    requires
        state.wf(),
        state.next_workspace_id < u64::MAX,
    ensures
        state.with_new_workspace().wf(),
{
    let id = state.next_workspace_id;
    let after = state.with_new_workspace();
    let ids = workspace_ids(state.workspaces);
    assert(!ids.contains(id)) by {
        if ids.contains(id) {
            let i = choose|i: int| 0 <= i < ids.len() && ids[i] == id;
            assert(state.workspaces[i].id < state.next_workspace_id);
        }
    }
    assert(workspace_ids(after.workspaces) == ids.push(id)) by {
        assert(workspace_ids(after.workspaces) =~= ids.push(id));
    }
    lemma_push_fresh_lookup(ids, id);
    lemma_bottom_order(state.mru_workspaces, id);
    assert(window_ids(after.windows) == window_ids(state.windows));
    assert forall|i: int| 0 <= i < after.workspaces.len() implies (
    #[trigger] after.workspaces[i]).wf() by {
        if i < state.workspaces.len() {
            assert(state.workspaces[i].wf());
        }
    }
    assert forall|i: int, w: Id|
        0 <= i < after.workspaces.len() && #[trigger] after.workspaces[i].windows.contains(
            w,
        ) implies after.lists(i, w) by {
        assert(i < state.workspaces.len());
        assert(state.workspaces[i].windows.contains(w));
        assert(state.lists(i, w));
    }
    assert forall|j: int| 0 <= j < after.windows.len() implies #[trigger] after.placed_consistently(
        j,
    ) by {
        assert(state.placed_consistently(j));
        match state.windows[j].on_workspace {
            Some(home) => {
                lemma_index_bounds(state, home);
                assert(home != id) by {
                    assert(state.workspaces[state.workspace_index(home).unwrap()].id
                        < state.next_workspace_id);
                }
                assert(ids.push(id).index_of_first(home) == ids.index_of_first(home));
            },
            None => {},
        }
    }
    assert forall|i: int| 0 <= i < after.workspaces.len() implies (
    #[trigger] after.workspaces[i]).id < after.next_workspace_id by {
        if i < state.workspaces.len() {
            assert(state.workspaces[i].id < state.next_workspace_id);
        }
    }
    assert forall|j: int| 0 <= j < after.windows.len() implies (#[trigger] after.windows[j]).id
        < after.next_window_id by {
        assert(state.windows[j].id < state.next_window_id);
    }
}

/// New workspaces keep a consistent state consistent.
pub proof fn lemma_new_workspaces(state: State, n: nat)
    requires
        state.wf(),
    ensures
        state.with_new_workspaces(n).wf(),
    decreases n,
{
    if n != 0 && state.next_workspace_id != u64::MAX {
        lemma_new_workspace(state);
        lemma_new_workspaces(state.with_new_workspace(), (n - 1) as nat);
    }
}

/// A window manager without monitors and windows is consistent, with its
/// reserve of workspaces.
pub proof fn lemma_initial_state(extra_workspaces: usize, keyboard_layouts: usize)
    ensures
        (State {
            monitors: Seq::empty(),
            windows: Seq::empty(),
            workspaces: Seq::empty(),
            mru_windows: Seq::empty(),
            mru_workspaces: Seq::empty(),
            gesture: Gesture::Idle,
            old_cursor: Point { x: 0, y: 0 },
            animations: Seq::empty(),
            commands: Seq::empty(),
            next_monitor_id: 1,
            next_window_id: 1,
            next_workspace_id: 1,
            extra_workspaces,
            keyboard_layouts,
            keyboard_layout: 0,
        }).with_spare_workspaces().wf(),
{
    let empty = State {
        monitors: Seq::empty(),
        windows: Seq::empty(),
        workspaces: Seq::empty(),
        mru_windows: Seq::empty(),
        mru_workspaces: Seq::empty(),
        gesture: Gesture::Idle,
        old_cursor: Point { x: 0, y: 0 },
        animations: Seq::empty(),
        commands: Seq::empty(),
        next_monitor_id: 1,
        next_window_id: 1,
        next_workspace_id: 1,
        extra_workspaces,
        keyboard_layouts,
        keyboard_layout: 0,
    };
    assert(window_ids(empty.windows) =~= Seq::<Id>::empty());
    assert(workspace_ids(empty.workspaces) =~= Seq::<Id>::empty());
    assert(empty.wf());
    lemma_new_workspaces(empty, empty.missing_workspaces());
}

/// Listing a new window that is on no workspace keeps a consistent state
/// consistent.
pub proof fn lemma_window_listed(state: State, window: Window)
    requires
        state.wf(),
        window.on_workspace.is_none(),
        window.id < state.next_window_id,
        forall|j: int| 0 <= j < state.windows.len() ==> state.windows[j].id != window.id,
    ensures
        (State { windows: state.windows.push(window), ..state }).wf(),
        (State { windows: state.windows.push(window), ..state }).workspace_of(window.id).is_none(),
        (State { windows: state.windows.push(window), ..state }).window_index(window.id).is_some(),
{
    let id = window.id;
    let listed = State { windows: state.windows.push(window), ..state };
    let ids = window_ids(state.windows);
    assert(!ids.contains(id)) by {
        if ids.contains(id) {
            let j = choose|j: int| 0 <= j < ids.len() && ids[j] == id;
            assert(state.windows[j].id == id);
        }
    }
    assert(window_ids(listed.windows) == ids.push(id)) by {
        assert(window_ids(listed.windows) =~= ids.push(id));
    }
    lemma_push_fresh_lookup(ids, id);
    assert(workspace_ids(listed.workspaces) == workspace_ids(state.workspaces));
    assert forall|old: Id| old != id implies listed.workspace_of(old) == state.workspace_of(
        old,
    ) by {
        assert(ids.push(id).index_of_first(old) == ids.index_of_first(old));
        lemma_index_bounds(state, old);
    }
    assert forall|i: int, w: Id|
        0 <= i < listed.workspaces.len() && #[trigger] listed.workspaces[i].windows.contains(
            w,
        ) implies listed.lists(i, w) by {
        assert(state.lists(i, w));
        if w == id {
            lemma_index_bounds(state, id);
        }
    }
    assert forall|j: int| 0 <= j < listed.windows.len() implies
        #[trigger] listed.placed_consistently(j) by {
        if j < state.windows.len() {
            assert(state.placed_consistently(j));
        }
    }
    assert forall|j: int| 0 <= j < listed.windows.len() implies (
    #[trigger] listed.windows[j]).id < listed.next_window_id by {
        if j < state.windows.len() {
            assert(state.windows[j].id < state.next_window_id);
        }
    }
    assert forall|i: int| 0 <= i < listed.workspaces.len() implies (
    #[trigger] listed.workspaces[i]).wf() by {
        assert(state.workspaces[i].wf());
    }
    assert forall|i: int| 0 <= i < listed.workspaces.len() implies (
    #[trigger] listed.workspaces[i]).id < listed.next_workspace_id by {
        assert(state.workspaces[i].id < state.next_workspace_id);
    }
}

/// Putting an element at the top of an order of use keeps the order free of
/// repetitions and keeps its elements.
pub proof fn lemma_top_order(list: Seq<Id>, id: Id)
    requires
        list.no_duplicates(),
    ensures
        without(list, id).push(id).no_duplicates(),
        without(list, id).push(id).contains(id),
        forall|w: Id| list.contains(w) ==> #[trigger] without(list, id).push(id).contains(w),
{
    let rest = without(list, id);
    lemma_without_facts(list, id);
    lemma_push_is_insert(rest, id);
    lemma_insert_fresh(rest, rest.len() as int, id);
    assert forall|w: Id| list.contains(w) implies #[trigger] rest.push(id).contains(w) by {
        lemma_insert_contains(rest, rest.len() as int, id, w);
    }
}

/// Making a window the one used most recently, whether or not it took part
/// in the order of use before, keeps a consistent state consistent.
pub proof fn lemma_window_known(state: State, id: Id)
    requires
        state.wf(),
    ensures
        (State { mru_windows: without(state.mru_windows, id).push(id), ..state }).wf(),
        without(state.mru_windows, id).push(id).contains(id),
{
    let rest = without(state.mru_windows, id);
    let known = State { mru_windows: rest.push(id), ..state };
    lemma_top_order(state.mru_windows, id);
    assert(window_ids(known.windows) == window_ids(state.windows));
    assert(workspace_ids(known.workspaces) == workspace_ids(state.workspaces));
    assert forall|i: int, w: Id|
        0 <= i < known.workspaces.len() && #[trigger] known.workspaces[i].windows.contains(
            w,
        ) implies known.lists(i, w) by {
        assert(state.lists(i, w));
        assert(rest.push(id).contains(w));
    }
    assert forall|j: int| 0 <= j < known.windows.len() implies #[trigger] known.placed_consistently(
        j,
    ) by {
        assert(state.placed_consistently(j));
    }
    assert forall|j: int| 0 <= j < known.windows.len() implies (#[trigger] known.windows[j]).id
        < known.next_window_id by {
        assert(state.windows[j].id < state.next_window_id);
    }
    assert forall|i: int| 0 <= i < known.workspaces.len() implies (
    #[trigger] known.workspaces[i]).wf() by {
        assert(state.workspaces[i].wf());
    }
    assert forall|i: int| 0 <= i < known.workspaces.len() implies (
    #[trigger] known.workspaces[i]).id < known.next_workspace_id by {
        assert(state.workspaces[i].id < state.next_workspace_id);
    }
}

/// Adding a new window that is on no workspace yet keeps a consistent state
/// consistent.
pub proof fn lemma_window_added(state: State, window: Window)
    requires
        state.wf(),
        window.on_workspace.is_none(),
        window.id < state.next_window_id,
        forall|j: int| 0 <= j < state.windows.len() ==> state.windows[j].id != window.id,
    ensures
        state.window_added(window).wf(),
{
    let id = window.id;
    let listed = State { windows: state.windows.push(window), ..state };
    lemma_window_listed(state, window);
    if window.spec_is_tiled() {
        lemma_window_known(listed, id);
        let known = State { mru_windows: without(listed.mru_windows, id).push(id), ..listed };
        assert(known.workspace_of(id).is_none());
        match known.active_workspace() {
            Some(active) => match known.workspace(active) {
                Some(w) => {
                    let index = w.index_after_active();
                    assert(0 <= index) by {
                        match w.active_window() {
                            Some(top) => {
                                w.windows.index_of_first_ensures(top);
                            },
                            None => {},
                        }
                    }
                    lemma_attached(known, id, active, index);
                    lemma_focus_keeps_wf(known.attached(id, active, index), Some(id));
                },
                None => {},
            },
            None => {},
        }
    }
}

/// A surface that became ready keeps a consistent state consistent.
pub proof fn lemma_window_ready(state: State, info: WindowInfo)
    requires
        state.wf(),
    ensures
        state.window_ready(info).wf(),
{
    if state.next_window_id != u64::MAX {
        let counted = State { next_window_id: (state.next_window_id + 1) as Id, ..state };
        lemma_focus_frame_refl(state);
        assert(counted.wf()) by {
            assert(window_ids(counted.windows) == window_ids(state.windows));
            assert forall|i: int, w: Id|
                0 <= i < counted.workspaces.len() && #[trigger] counted.workspaces[i].windows.contains(
                    w,
                ) implies counted.lists(i, w) by {
                assert(state.lists(i, w));
            }
            assert forall|j: int| 0 <= j < counted.windows.len() implies
                #[trigger] counted.placed_consistently(j) by {
                assert(state.placed_consistently(j));
            }
            assert forall|j: int| 0 <= j < counted.windows.len() implies (
            #[trigger] counted.windows[j]).id < counted.next_window_id by {
                assert(state.windows[j].id < state.next_window_id);
            }
        }
        let window = Window {
            id: state.next_window_id,
            on_workspace: None,
            x: info.extents.top_left.x,
            y: info.extents.top_left.y,
            size: info.extents.size,
            rendered: info.extents,
            is_dragged: false,
            info,
        };
        assert forall|j: int| 0 <= j < counted.windows.len() implies counted.windows[j].id
            != window.id by {
            assert(state.windows[j].id < state.next_window_id);
        }
        lemma_window_added(counted, window);
    }
}

/// Moving a window to a workspace keeps a consistent state consistent.
pub proof fn lemma_window_sent(state: State, window: Id, to: Id, position: WorkspacePosition)
    requires
        state.wf(),
    ensures
        state.window_sent(window, to, position).wf(),
{
    if state.can_transfer(window, to) {
        lemma_index_bounds(state, window);
        let i = state.window_index(window).unwrap();
        assert(state.placed_consistently(i));
        let home = state.windows[i].on_workspace.unwrap();
        lemma_index_bounds(state, home);
        assert(state.lists(state.workspace_index(home).unwrap(), window));
        lemma_detached(state, window);
        let left = state.detached(window);
        let index = left.insertion_index(to, position);
        assert(0 <= index) by {
            match left.workspace(to) {
                Some(w) => {
                    match w.active_window() {
                        Some(top) => {
                            w.windows.index_of_first_ensures(top);
                        },
                        None => {},
                    }
                    match position {
                        WorkspacePosition::Coordinate(p) => {
                            lemma_first_right_of(left, w.windows, p.x, 0);
                        },
                        _ => {},
                    }
                },
                None => {},
            }
        }
        lemma_attached(left, window, to, index);
        let there = left.attached(window, to, index);
        lemma_workspace_focus_keeps_wf(there, to);
        lemma_arranged_all_keeps_wf(there.workspace_focused(to));
    }
}

/// Moving a window to an index of a workspace keeps a consistent state
/// consistent.
pub proof fn lemma_window_moved_to_workspace(state: State, window: Id, to: Id, index: int)
    requires
        state.wf(),
        0 <= index,
    ensures
        state.window_moved_to_workspace(window, to, index).wf(),
{
    if state.can_transfer(window, to) {
        lemma_index_bounds(state, window);
        let i = state.window_index(window).unwrap();
        assert(state.placed_consistently(i));
        let home = state.windows[i].on_workspace.unwrap();
        lemma_index_bounds(state, home);
        assert(state.lists(state.workspace_index(home).unwrap(), window));
        lemma_detached(state, window);
        let left = state.detached(window);
        lemma_attached(left, window, to, index);
        let there = left.attached(window, to, index);
        lemma_workspace_focus_keeps_wf(there, to);
        lemma_arranged_all_keeps_wf(there.workspace_focused(to));
    }
}

/// A state that differs from a consistent state in neither windows nor
/// workspaces nor orders of use is consistent.
pub proof fn lemma_core_kept(state: State, after: State)
    requires
        state.wf(),
        after.windows == state.windows,
        after.workspaces == state.workspaces,
        after.mru_windows == state.mru_windows,
        after.mru_workspaces == state.mru_workspaces,
        after.next_window_id == state.next_window_id,
        after.next_workspace_id == state.next_workspace_id,
    ensures
        after.wf(),
        state.focus_frame(after),
{
    lemma_focus_frame_refl(state);
    lemma_frame_keeps_wf(state, after);
}

/// Taking out an element of a sequence without repetitions leaves the other
/// elements to be found, those behind it one place earlier.
pub proof fn lemma_remove_lookup(ids: Seq<Id>, i: int)
    requires
        ids.no_duplicates(),
        0 <= i < ids.len(),
    ensures
        ids.remove(i).no_duplicates(),
        !ids.remove(i).contains(ids[i]),
        forall|old: Id|
            old != ids[i] ==> #[trigger] ids.remove(i).index_of_first(old) == match ids.index_of_first(
                old,
            ) {
                Some(j) => Some(
                    if j < i {
                        j
                    } else {
                        j - 1
                    },
                ),
                None => None,
            },
{
    let less = ids.remove(i);
    assert forall|a: int, b: int| 0 <= a < less.len() && 0 <= b < less.len() && a != b implies less[a]
        != less[b] by {
        let sa = if a < i {
            a
        } else {
            a + 1
        };
        let sb = if b < i {
            b
        } else {
            b + 1
        };
        assert(less[a] == ids[sa] && less[b] == ids[sb]);
    }
    assert(!less.contains(ids[i])) by {
        if less.contains(ids[i]) {
            let a = choose|a: int| 0 <= a < less.len() && less[a] == ids[i];
            let sa = if a < i {
                a
            } else {
                a + 1
            };
            assert(ids[sa] == ids[i]);
        }
    }
    assert forall|old: Id| old != ids[i] implies #[trigger] less.index_of_first(old)
        == match ids.index_of_first(old) {
        Some(j) => Some(
            if j < i {
                j
            } else {
                j - 1
            },
        ),
        None => None,
    } by {
        less.index_of_first_ensures(old);
        ids.index_of_first_ensures(old);
        match ids.index_of_first(old) {
            Some(j) => {
                let to = if j < i {
                    j
                } else {
                    j - 1
                };
                assert(less[to] == old);
                let found = less.index_of_first(old).unwrap();
                assert(less[found] == less[to]);
            },
            None => {
                match less.index_of_first(old) {
                    Some(found) => {
                        let from = if found < i {
                            found
                        } else {
                            found + 1
                        };
                        assert(ids[from] == old);
                    },
                    None => {},
                }
            },
        }
    }
}

/// Forgetting a window that is on no workspace keeps a consistent state
/// consistent.
pub proof fn lemma_window_forgotten(state: State, window: Id, i: int)
    requires
        state.wf(),
        state.window_index(window) == Some(i),
        state.workspace_of(window).is_none(),
    ensures
        (State {
            windows: state.windows.remove(i),
            mru_windows: without(state.mru_windows, window),
            ..state
        }).wf(),
{
    lemma_index_bounds(state, window);
    let gone = State {
        windows: state.windows.remove(i),
        mru_windows: without(state.mru_windows, window),
        ..state
    };
    let ids = window_ids(state.windows);
    assert(window_ids(gone.windows) == ids.remove(i)) by {
        assert(window_ids(gone.windows) =~= ids.remove(i));
    }
    lemma_remove_lookup(ids, i);
    lemma_without_facts(state.mru_windows, window);
    assert(workspace_ids(gone.workspaces) == workspace_ids(state.workspaces));
    assert forall|x: Id| x != window implies gone.workspace_of(x) == state.workspace_of(x) by {
        lemma_index_bounds(state, x);
        assert(ids.remove(i).index_of_first(x) == match ids.index_of_first(x) {
            Some(j) => Some(
                if j < i {
                    j
                } else {
                    j - 1
                },
            ),
            None => None,
        });
    }
    assert forall|k: int, x: Id|
        0 <= k < gone.workspaces.len() && #[trigger] gone.workspaces[k].windows.contains(
            x,
        ) implies gone.lists(k, x) by {
        assert(state.lists(k, x));
        assert(x != window);
    }
    assert forall|j: int| 0 <= j < gone.windows.len() implies #[trigger] gone.placed_consistently(
        j,
    ) by {
        let from = if j < i {
            j
        } else {
            j + 1
        };
        assert(gone.windows[j] == state.windows[from]);
        assert(state.placed_consistently(from));
    }
    assert forall|j: int| 0 <= j < gone.windows.len() implies (#[trigger] gone.windows[j]).id
        < gone.next_window_id by {
        let from = if j < i {
            j
        } else {
            j + 1
        };
        assert(gone.windows[j] == state.windows[from]);
        assert(state.windows[from].id < state.next_window_id);
    }
    assert forall|k: int| 0 <= k < gone.workspaces.len() implies (
    #[trigger] gone.workspaces[k]).wf() by {
        assert(state.workspaces[k].wf());
    }
    assert forall|k: int| 0 <= k < gone.workspaces.len() implies (
    #[trigger] gone.workspaces[k]).id < gone.next_workspace_id by {
        assert(state.workspaces[k].id < state.next_workspace_id);
    }
}

/// A window that was destroyed leaves a consistent state consistent.
pub proof fn lemma_window_deleted(state: State, window: Id)
    requires
        state.wf(),
    ensures
        state.window_deleted(window).wf(),
{
    lemma_index_bounds(state, window);
    match state.window_index(window) {
        Some(i) => {
            lemma_detached(state, window);
            let left = state.detached(window);
            lemma_window_forgotten(left, window, i);
            let gone = State {
                windows: left.windows.remove(i),
                mru_windows: without(left.mru_windows, window),
                ..left
            };
            match gone.active_workspace() {
                Some(active) => match gone.workspace(active) {
                    Some(w) => match w.active_window() {
                        Some(next) => {
                            lemma_focus_keeps_wf(gone, Some(next));
                        },
                        None => {},
                    },
                    None => {},
                },
                None => {},
            }
        },
        None => {},
    }
}

/// What the compositor reports of a window keeps a consistent state
/// consistent.
pub proof fn lemma_window_configured(state: State, window: Id, info: WindowInfo)
    requires
        state.wf(),
    ensures
        state.window_configured(window, info).wf(),
{
    lemma_index_bounds(state, window);
    match state.window_index(window) {
        Some(i) => {
            let w = state.windows[i];
            let known = Window { size: info.extents.size, rendered: info.extents, info, ..w };
            lemma_window_replaced(state, i, known);
            match w.on_workspace {
                Some(workspace) => {
                    lemma_arranged_keeps_wf(state.with_window_at(i, known), workspace, false);
                },
                None => {},
            }
        },
        None => {},
    }
}

/// A gesture that a client asks for keeps a consistent state consistent.
pub proof fn lemma_gesture_requested(
    state: State,
    window: Id,
    has_focus: bool,
    cursor: Point,
    edges: WindowEdges,
    gesture_type: GestureType,
)
    requires
        state.wf(),
    ensures
        state.gesture_requested(window, has_focus, cursor, edges, gesture_type).wf(),
{
    lemma_index_bounds(state, window);
    let after = state.gesture_requested(window, has_focus, cursor, edges, gesture_type);
    if state.grants_gesture(window, has_focus) {
        let i = state.window_index(window).unwrap();
        lemma_focus_frame_refl(state);
        assert(state.focus_frame(after));
        lemma_frame_keeps_wf(state, after);
    }
}

/// The frame of the animations keeps a consistent state consistent.
pub proof fn lemma_frame_run(state: State, now: u64)
    requires
        state.wf(),
    ensures
        state.frame_run(now).wf(),
{
    lemma_core_kept(state, state.frame_run(now));
}

/// A new monitor keeps a consistent state consistent.
pub proof fn lemma_monitor_added(state: State, zone: Rectangle)
    requires
        state.wf(),
    ensures
        state.monitor_added(zone).wf(),
{
    lemma_new_workspaces(state, state.missing_workspaces());
    let spare = state.with_spare_workspaces();
    if state.can_add_monitor() {
        let workspace = spare.unused_workspace().unwrap();
        let shown = State {
            monitors: spare.monitors.push(
                Monitor { id: spare.next_monitor_id, extents: zone, workspace },
            ),
            next_monitor_id: (spare.next_monitor_id + 1) as Id,
            ..spare
        };
        lemma_core_kept(spare, shown);
        lemma_arranged_keeps_wf(shown, workspace, false);
    }
}

/// Another zone of a monitor keeps a consistent state consistent.
pub proof fn lemma_monitor_updated(state: State, monitor: Id, zone: Rectangle)
    requires
        state.wf(),
    ensures
        state.monitor_updated(monitor, zone).wf(),
{
    match state.monitor_index(monitor) {
        Some(m) => {
            let changed = State {
                monitors: state.monitors.update(
                    m,
                    Monitor { extents: zone, ..state.monitors[m] },
                ),
                ..state
            };
            lemma_core_kept(state, changed);
            lemma_arranged_keeps_wf(changed, state.monitors[m].workspace, false);
        },
        None => {},
    }
}

/// A monitor that disappeared leaves a consistent state consistent.
pub proof fn lemma_monitor_removed(state: State, monitor: Id)
    requires
        state.wf(),
    ensures
        state.monitor_removed(monitor).wf(),
{
    match state.monitor_index(monitor) {
        Some(m) => {
            let left = State { monitors: state.monitors.remove(m), ..state };
            let order = reversed(left.mru_workspaces);
            let bound = left.monitors_in_order(order, order.len() as int);
            let handed = State {
                monitors: reassigned(left.monitors, bound, order, bound.len() as int),
                ..left
            };
            lemma_core_kept(state, handed);
            lemma_arranged_all_keeps_wf(handed);
        },
        None => {},
    }
}

/// Navigating keeps a consistent state consistent.
pub proof fn lemma_navigated(state: State, direction: Direction, position: WorkspacePosition)
    requires
        state.wf(),
    ensures
        state.navigated_first().wf(),
        state.navigated_last().wf(),
        state.navigated_monitor(direction, position).wf(),
        state.navigated(direction).wf(),
{
    match state.active_workspace() {
        Some(active) => match state.workspace(active) {
            Some(w) => if w.windows.len() > 0 {
                lemma_focus_keeps_wf(state, Some(w.windows.first()));
                lemma_focus_keeps_wf(state, Some(w.windows.last()));
            },
            None => {},
        },
        None => {},
    }
    lemma_navigated_monitor(state, direction, position);
    lemma_navigated_monitor(state, direction, entry_position(direction));
    let next = match state.active_window() {
        Some(active) => state.tiled_neighbor(active, direction),
        None => None,
    };
    match next {
        Some(window) => {
            lemma_focus_keeps_wf(state, Some(window));
        },
        None => {},
    }
}

/// Entering another monitor keeps a consistent state consistent.
pub proof fn lemma_navigated_monitor(
    state: State,
    direction: Direction,
    position: WorkspacePosition,
)
    requires
        state.wf(),
    ensures
        state.navigated_monitor(direction, position).wf(),
{
    match state.monitor_by_direction(direction) {
        Some(m) => {
            let workspace = state.monitors[m].workspace;
            match state.window_for_entry(workspace, position) {
                Some(window) => {
                    lemma_focus_keeps_wf(state, Some(window));
                },
                None => {
                    lemma_workspace_focus_keeps_wf(state, workspace);
                },
            }
        },
        None => {},
    }
}

/// Moving the active window keeps a consistent state consistent.
pub proof fn lemma_window_moved(
    state: State,
    direction: Direction,
    vertical: VerticalDirection,
    position: WorkspacePosition,
)
    requires
        state.wf(),
    ensures
        state.window_moved_to_monitor(direction, position).wf(),
        state.window_moved(direction).wf(),
        state.workspace_switched(vertical).wf(),
        state.window_moved_vertically(vertical).wf(),
{
    match (state.monitor_by_direction(direction), state.active_window()) {
        (Some(m), Some(active)) => {
            lemma_window_sent(state, active, state.monitors[m].workspace, position);
            lemma_window_sent(
                state,
                active,
                state.monitors[m].workspace,
                entry_position(direction),
            );
        },
        _ => {},
    }
    match state.active_window() {
        Some(active) => match state.workspace_of(active) {
            Some(workspace) => {
                lemma_index_bounds(state, workspace);
                match state.workspace_index(workspace) {
                    Some(index) => {
                        lemma_workspace_swapped(state, index, active, direction);
                    },
                    None => {},
                }
            },
            None => {},
        },
        None => {},
    }
    match state.workspace_by_direction(vertical) {
        Some(workspace) => {
            lemma_workspace_focus_keeps_wf(state, workspace);
            match state.active_window() {
                Some(active) => {
                    lemma_window_sent(state, active, workspace, WorkspacePosition::ActiveWindow);
                },
                None => {},
            }
        },
        None => {},
    }
}

/// A window that changes places with its neighbour keeps a consistent state
/// consistent.
pub proof fn lemma_workspace_swapped(state: State, index: int, window: Id, direction: Direction)
    requires
        state.wf(),
        0 <= index < state.workspaces.len(),
    ensures
        match state.workspaces[index].moved(window, direction) {
            Some(moved) => state.with_workspace_at(index, moved).wf() && state.with_workspace_at(
                index,
                moved,
            ).arranged(state.workspaces[index].id, false).wf(),
            None => true,
        },
{
    let listed = state.workspaces[index];
    assert(listed.wf());
    match listed.moved(window, direction) {
        Some(moved) => {
            listed.lemma_moved_wf(window, direction);
            listed.windows.index_of_first_ensures(window);
            let i = listed.windows.index_of_first(window).unwrap();
            let j = match direction {
                Direction::Left => i - 1,
                Direction::Right => i + 1,
            };
            lemma_swapped(listed.windows, i, j);
            lemma_workspace_replaced(state, index, moved);
            lemma_arranged_keeps_wf(state.with_workspace_at(index, moved), listed.id, false);
        },
        None => {},
    }
}

/// Another scroll offset keeps a consistent state consistent.
pub proof fn lemma_workspace_scrolled(state: State, index: int, scroll_left: i32)
    requires
        state.wf(),
        0 <= index < state.workspaces.len(),
    ensures
        state.with_workspace_at(
            index,
            WorkspaceView { scroll_left, ..state.workspaces[index] },
        ).wf(),
{
    assert(state.workspaces[index].wf());
    lemma_workspace_replaced(
        state,
        index,
        WorkspaceView { scroll_left, ..state.workspaces[index] },
    );
}

/// Resizing and centring the active window, switching the keyboard layout
/// and asking a client to close keep a consistent state consistent.
pub proof fn lemma_window_adjusted(state: State, steps: Seq<u32>)
    requires
        state.wf(),
    ensures
        state.window_resized(steps).wf(),
        state.window_centered().wf(),
        state.keyboard_layout_switched().wf(),
        state.close_requested().wf(),
{
    lemma_core_kept(state, state.keyboard_layout_switched());
    lemma_core_kept(state, state.close_requested());
    match state.active_window() {
        Some(active) => {
            lemma_index_bounds(state, active);
            match (state.window_index(active), state.monitor_by_window(active)) {
                (Some(i), Some(monitor)) => {
                    let w = state.windows[i];
                    match resized_width(
                        steps,
                        w.size.width,
                        monitor.extents.size.width,
                    ) {
                        Some(width) => {
                            let sized = Window {
                                size: Size { width, height: w.size.height },
                                ..w
                            };
                            lemma_window_replaced(state, i, sized);
                            lemma_arranged_all_keeps_wf(state.with_window_at(i, sized));
                        },
                        None => {
                            lemma_arranged_all_keeps_wf(state);
                        },
                    }
                },
                _ => {},
            }
            match state.window(active) {
                Some(w) => match w.on_workspace {
                    Some(workspace) => {
                        lemma_index_bounds(state, workspace);
                        match (
                            state.workspace_index(workspace),
                            state.monitor_by_workspace(workspace),
                        ) {
                            (Some(index), Some(monitor)) => {
                                let view = state.workspaces[index];
                                let scroll_left = clamp_i32(
                                    w.rendered.top_left.x + view.scroll_left
                                        - monitor.extents.top_left.x - half(
                                        monitor.extents.size.width as int,
                                    ) + half(w.size.width as int),
                                );
                                lemma_workspace_scrolled(state, index, scroll_left);
                                lemma_arranged_keeps_wf(
                                    state.with_workspace_at(
                                        index,
                                        WorkspaceView { scroll_left, ..view },
                                    ),
                                    workspace,
                                    false,
                                );
                            },
                            _ => {},
                        }
                    },
                    None => {},
                },
                None => {},
            }
        },
        None => {},
    }
}

/// Every action keeps a consistent state consistent.
pub proof fn lemma_action_triggered(state: State, action: ActionShortcut)
    requires
        state.wf(),
    ensures
        state.action_triggered(action).wf(),
{
    match action {
        ActionShortcut::NavigateToFirst => {
            lemma_navigated(state, Direction::Left, WorkspacePosition::Start);
        },
        ActionShortcut::NavigateToLast => {
            lemma_navigated(state, Direction::Left, WorkspacePosition::Start);
        },
        ActionShortcut::Navigate { direction } => {
            lemma_navigated(state, direction, WorkspacePosition::Start);
        },
        ActionShortcut::NavigateWorkspace { direction } => {
            lemma_window_moved(state, Direction::Left, direction, WorkspacePosition::Start);
        },
        ActionShortcut::NavigateMonitor { direction } => {
            lemma_navigated_monitor(state, direction, WorkspacePosition::ActiveWindow);
        },
        ActionShortcut::MoveWindow { direction } => {
            lemma_window_moved(state, direction, VerticalDirection::Up, WorkspacePosition::Start);
        },
        ActionShortcut::MoveWindowWorkspace { direction } => {
            lemma_window_moved(state, Direction::Left, direction, WorkspacePosition::Start);
        },
        ActionShortcut::MoveWindowMonitor { direction } => {
            lemma_window_moved(
                state,
                direction,
                VerticalDirection::Up,
                WorkspacePosition::ActiveWindow,
            );
        },
        ActionShortcut::ResizeWindow { steps } => {
            lemma_window_adjusted(state, steps@);
        },
        ActionShortcut::CenterWindow => {
            lemma_window_adjusted(state, Seq::empty());
        },
        ActionShortcut::CloseWindow => {
            lemma_window_adjusted(state, Seq::empty());
        },
        ActionShortcut::SwitchKeyboardLayout => {
            lemma_window_adjusted(state, Seq::empty());
        },
        ActionShortcut::DebugPrintWindows => {},
    }
}

/// A key that went down or up keeps a consistent state consistent.
pub proof fn lemma_key_handled(
    state: State,
    bindings: Seq<Binding>,
    chord: Keybinding,
    pressed: bool,
)
    requires
        state.wf(),
    ensures
        state.key_handled(bindings, chord, pressed).wf(),
{
    match binding_index(bindings, chord, 0) {
        Some(i) => if pressed {
            match bindings[i].shortcut {
                KeyboardShortcut::Action(action) => {
                    lemma_action_triggered(state, action);
                },
                KeyboardShortcut::Command(_) => {
                    lemma_core_kept(state, state.shortcut_triggered(bindings[i].shortcut, i));
                },
            }
        },
        None => {},
    }
}

/// The pointer coming over a monitor keeps a consistent state consistent.
pub proof fn lemma_pointer_entered(state: State, position: Point)
    requires
        state.wf(),
    ensures
        state.pointer_entered(position).wf(),
{
    match state.workspace_at(position) {
        Some(workspace) => {
            lemma_workspace_focus_keeps_wf(state, workspace);
        },
        None => {},
    }
}

/// Scrolling a workspace with a move gesture keeps a consistent state
/// consistent.
pub proof fn lemma_workspace_dragged(state: State, gesture: MoveGesture, dx: i32)
    requires
        state.wf(),
    ensures
        state.workspace_dragged(gesture, dx).wf(),
{
    lemma_index_bounds(state, gesture.window);
    match state.window_index(gesture.window) {
        Some(i) => {
            let w = Window { is_dragged: false, ..state.windows[i] };
            lemma_window_replaced(state, i, w);
            let released = state.with_window_at(i, w);
            match w.on_workspace {
                Some(workspace) => {
                    lemma_index_bounds(released, workspace);
                    match released.workspace_index(workspace) {
                        Some(index) => {
                            let view = released.workspaces[index];
                            let scroll_left = clamp_i32(view.scroll_left - dx);
                            lemma_workspace_scrolled(released, index, scroll_left);
                            lemma_arranged_keeps_wf(
                                released.with_workspace_at(
                                    index,
                                    WorkspaceView { scroll_left, ..view },
                                ),
                                workspace,
                                true,
                            );
                        },
                        None => {},
                    }
                },
                None => {},
            }
        },
        None => {},
    }
}

/// Dragging a window keeps a consistent state consistent.
pub proof fn lemma_window_dragged(state: State, gesture: MoveGesture, position: Point)
    requires
        state.wf(),
    ensures
        state.window_dragged(gesture, position).wf(),
{
    lemma_index_bounds(state, gesture.window);
    match state.window_index(gesture.window) {
        Some(i) => {
            let w = Window { is_dragged: true, ..state.windows[i] };
            lemma_window_replaced(state, i, w);
            let held = state.with_window_at(i, w);
            let moved = Window {
                rendered: Rectangle {
                    top_left: position.spec_translate(
                        Displacement {
                            dx: clamp_i32(-gesture.drag_anchor.dx),
                            dy: clamp_i32(-gesture.drag_anchor.dy),
                        },
                    ),
                    size: w.rendered.size,
                },
                ..w
            };
            lemma_window_replaced(held, i, moved);
            lemma_core_kept(
                held.with_window_at(i, moved),
                held.with_window_at(i, moved).with_command(
                    Command::MoveTo { window: gesture.window, top_left: moved.rendered.top_left },
                ),
            );
            match w.on_workspace {
                Some(workspace) => {
                    lemma_index_bounds(held, workspace);
                    match held.workspace_index(workspace) {
                        Some(index) => {
                            let over = held.workspace_at(position);
                            if over.is_some() && over != Some(workspace) {
                                lemma_window_sent(
                                    held,
                                    gesture.window,
                                    over.unwrap(),
                                    WorkspacePosition::Coordinate(position),
                                );
                            } else {
                                match held.swap_direction(w, held.workspaces[index], position.x) {
                                    Some(direction) => {
                                        lemma_workspace_swapped(
                                            held,
                                            index,
                                            gesture.window,
                                            direction,
                                        );
                                        lemma_arranged_keeps_wf(held, workspace, false);
                                    },
                                    None => {},
                                }
                            }
                        },
                        None => {},
                    }
                },
                None => {},
            }
        },
        None => {},
    }
}

/// Resizing a window with the pointer keeps a consistent state consistent.
pub proof fn lemma_window_resized_by_gesture(state: State, gesture: ResizeGesture, position: Point)
    requires
        state.wf(),
    ensures
        state.window_resized_by_gesture(gesture, position).wf(),
{
    lemma_index_bounds(state, gesture.window);
    match state.window_index(gesture.window) {
        Some(i) => {
            let w = state.windows[i];
            let by = position.spec_minus(gesture.start_cursor);
            let extents = resized_extents(
                gesture.original_extents,
                gesture.edges,
                by,
            );
            let scrolled = match w.on_workspace {
                Some(workspace) => match state.workspace_index(workspace) {
                    Some(index) => if gesture.edges.left {
                        let view = state.workspaces[index];
                        state.with_workspace_at(
                            index,
                            WorkspaceView {
                                scroll_left: clamp_i32(view.scroll_left - by.dx),
                                ..view
                            },
                        )
                    } else {
                        state
                    },
                    None => state,
                },
                None => state,
            };
            assert(scrolled.wf()) by {
                match w.on_workspace {
                    Some(workspace) => {
                        lemma_index_bounds(state, workspace);
                        match state.workspace_index(workspace) {
                            Some(index) => {
                                lemma_workspace_scrolled(
                                    state,
                                    index,
                                    clamp_i32(
                                        state.workspaces[index].scroll_left - by.dx,
                                    ),
                                );
                            },
                            None => {},
                        }
                    },
                    None => {},
                }
            }
            let sized = Window { size: extents.size, rendered: extents, ..w };
            assert(scrolled.windows == state.windows);
            lemma_window_replaced(scrolled, i, sized);
            let set = scrolled.with_window_at(i, sized).with_command(
                Command::SetExtents { window: gesture.window, extents },
            );
            lemma_core_kept(scrolled.with_window_at(i, sized), set);
            match w.on_workspace {
                Some(workspace) => {
                    lemma_arranged_keeps_wf(set, workspace, false);
                },
                None => {},
            }
        },
        None => {},
    }
}

/// A pointer button that was released keeps a consistent state consistent.
pub proof fn lemma_button_released(state: State)
    requires
        state.wf(),
    ensures
        state.button_released().wf(),
{
    match state.gesture.spec_window() {
        Some(window) => {
            let ended = State { gesture: Gesture::Idle, ..state };
            lemma_core_kept(state, ended);
            lemma_index_bounds(ended, window);
            match ended.window_index(window) {
                Some(i) => {
                    let w = Window { is_dragged: false, ..ended.windows[i] };
                    lemma_window_replaced(ended, i, w);
                    match w.on_workspace {
                        Some(workspace) => {
                            lemma_arranged_keeps_wf(ended.with_window_at(i, w), workspace, false);
                        },
                        None => {},
                    }
                },
                None => {},
            }
        },
        None => {},
    }
}

/// Every pointer event keeps a consistent state consistent.
pub proof fn lemma_pointer_handled(state: State, event: PointerEvent)
    requires
        state.wf(),
    ensures
        state.pointer_handled(event).wf(),
{
    let handled = match event.action {
        PointerAction::Motion => state.pointer_moved(event.position),
        PointerAction::ButtonUp => state.button_released(),
        PointerAction::ButtonDown => match event.over_window {
            Some(window) => state.window_focused(window),
            None => state,
        },
    };
    assert(handled.wf()) by {
        match event.action {
            PointerAction::Motion => {
                lemma_pointer_entered(state, event.position);
                let entered = state.pointer_entered(event.position);
                let by = event.position.spec_minus(state.old_cursor);
                match entered.gesture {
                    Gesture::Move(gesture) => {
                        lemma_workspace_dragged(entered, gesture, by.dx);
                        lemma_window_dragged(entered, gesture, event.position);
                    },
                    Gesture::Resize(gesture) => {
                        lemma_window_resized_by_gesture(entered, gesture, event.position);
                    },
                    Gesture::Idle => {},
                }
            },
            PointerAction::ButtonUp => {
                lemma_button_released(state);
            },
            PointerAction::ButtonDown => {
                lemma_focus_keeps_wf(state, event.over_window);
            },
        }
    }
    lemma_core_kept(handled, State { old_cursor: event.position, ..handled });
}

} // verus!
