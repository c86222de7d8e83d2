//! Monitors and workspaces: every monitor shows a workspace of its own, and
//! the order of use of the workspaces holds every workspace. What the
//! window manager does keeps it so.

use crate::actions::entry_position;
use crate::actions::resized_width;
use crate::entities::Command;
use crate::entities::Direction;
use crate::entities::Gesture;
use crate::entities::GestureType;
use crate::entities::Id;
use crate::entities::Monitor;
use crate::entities::MoveGesture;
use crate::entities::ResizeGesture;
use crate::entities::VerticalDirection;
use crate::entities::Window;
use crate::entities::WindowEdges;
use crate::entities::WindowInfo;
use crate::entities::WorkspacePosition;
use crate::focus::lemma_first_right_of;
use crate::focus::promoted_in;
use crate::geometry::Point;
use crate::geometry::Rectangle;
use crate::geometry::Size;
use crate::geometry::clamp_i32;
use crate::geometry::half;
use crate::invariants::lemma_attached;
use crate::invariants::lemma_detached;
use crate::invariants::lemma_new_workspace;
use crate::invariants::lemma_new_workspaces;
use crate::invariants::lemma_pointer_entered;
use crate::invariants::lemma_push_fresh_lookup;
use crate::invariants::lemma_remove_lookup;
use crate::invariants::lemma_window_forgotten;
use crate::invariants::lemma_window_known;
use crate::invariants::lemma_window_listed;
use crate::invariants::lemma_window_replaced;
use crate::invariants::lemma_workspace_focus_keeps_wf;
use crate::laws::lemma_activated;
use crate::laws::lemma_arranged_frame;
use crate::laws::lemma_arranged_upto_frame;
use crate::laws::lemma_frame_lookups;
use crate::laws::lemma_index_bounds;
use crate::laws::lemma_promoted_in;
use crate::mru_list::lemma_without_facts;
use crate::mru_list::reversed;
use crate::mru_list::without;
use crate::pointer::PointerAction;
use crate::pointer::PointerEvent;
use crate::pointer::resized_extents;
use crate::policy::reassigned;
use crate::shortcuts::ActionShortcut;
use crate::shortcuts::Binding;
use crate::shortcuts::Keybinding;
use crate::shortcuts::KeyboardShortcut;
use crate::shortcuts::binding_index;
use crate::state::State;
use crate::state::monitor_ids;
use crate::state::shown_workspaces;
use crate::state::window_ids;
use crate::state::workspace_ids;
use crate::workspace::WorkspaceView;
use vstd::prelude::*;

verus! {

impl State {
    /// Whether the monitor at `m` has an identifier that was handed out and
    /// shows a workspace that exists.
    pub open spec fn bound_well(self, m: int) -> bool {
        &&& self.monitors[m].id < self.next_monitor_id
        &&& self.workspace_index(self.monitors[m].workspace).is_some()
    }

    /// Whether the monitors and the workspaces fit together: no two
    /// monitors have one identifier or show one workspace, every monitor
    /// shows a workspace that exists, and the order of use of the workspaces
    /// holds exactly the workspaces that exist.
    pub open spec fn bindings_wf(self) -> bool {
        &&& monitor_ids(self.monitors).no_duplicates()
        &&& shown_workspaces(self.monitors).no_duplicates()
        &&& forall|m: int| 0 <= m < self.monitors.len() ==> #[trigger] self.bound_well(m)
        &&& forall|id: Id|
            self.mru_workspaces.contains(id) <==> workspace_ids(self.workspaces).contains(id)
    }

    /// Whether `after` has the monitors of this state and the same
    /// workspaces in the order of use.
    pub open spec fn binding_frame(self, after: State) -> bool {
        &&& after.monitors == self.monitors
        &&& after.next_monitor_id == self.next_monitor_id
        &&& workspace_ids(after.workspaces) == workspace_ids(self.workspaces)
        &&& forall|id: Id| after.mru_workspaces.contains(id) == self.mru_workspaces.contains(id)
    }
}

/// A state with the monitors and workspaces of a state in which they fit
/// together has them fit together.
pub proof fn lemma_binding_frame(before: State, after: State)
    requires
        before.bindings_wf(),
        before.binding_frame(after),
    ensures
        after.bindings_wf(),
{
    assert forall|m: int| 0 <= m < after.monitors.len() implies #[trigger] after.bound_well(m) by {
        assert(before.bound_well(m));
    }
}

/// A state with the structure of another has its workspaces under the same
/// identifiers.
pub proof fn lemma_same_workspace_ids(before: State, after: State)
    requires
        before.focus_frame(after),
    ensures
        workspace_ids(after.workspaces) == workspace_ids(before.workspaces),
{
    assert(workspace_ids(after.workspaces) =~= workspace_ids(before.workspaces));
}

/// A layout leaves the monitors and the workspaces as they are.
pub proof fn lemma_layout_binds(before: State, after: State)
    requires
        before.layout_frame(after),
    ensures
        before.binding_frame(after),
{
    lemma_frame_lookups(before, after);
}

/// Laying out a workspace leaves the monitors and the workspaces as they
/// are.
pub proof fn lemma_arranged_binds(state: State, workspace: Id, force: bool)
    ensures
        state.binding_frame(state.arranged(workspace, force)),
{
    lemma_arranged_frame(state, workspace, force);
    lemma_layout_binds(state, state.arranged(workspace, force));
}

/// Laying out every workspace leaves the monitors and the workspaces as
/// they are.
pub proof fn lemma_arranged_all_binds(state: State)
    ensures
        state.binding_frame(state.arranged_all()),
{
    lemma_arranged_upto_frame(
        state,
        reversed(state.mru_workspaces),
        state.mru_workspaces.len() as int,
    );
    lemma_layout_binds(state, state.arranged_all());
}

/// Showing a workspace that exists on the monitor of the active workspace
/// keeps the monitors and the workspaces fitting together.
pub proof fn lemma_rebound(state: State, workspace: Id)
    requires
        state.bindings_wf(),
        state.workspace_index(workspace).is_some(),
    ensures
        state.rebound(workspace).bindings_wf(),
{
    let after = state.rebound(workspace);
    let shown = shown_workspaces(state.monitors);
    shown.index_of_first_ensures(workspace);
    if state.is_unbound(workspace) {
        match state.active_workspace() {
            Some(active) => {
                shown.index_of_first_ensures(active);
                match state.monitor_index_by_workspace(active) {
                    Some(m) => {
                        assert(monitor_ids(after.monitors) =~= monitor_ids(state.monitors));
                        assert(shown_workspaces(after.monitors) =~= shown.update(m, workspace));
                        assert forall|a: int, b: int|
                            0 <= a < shown.len() && 0 <= b < shown.len() && a != b implies shown.update(
                            m,
                            workspace,
                        )[a] != shown.update(m, workspace)[b] by {
                            if a == m {
                                assert(shown.contains(shown[b]));
                            } else if b == m {
                                assert(shown.contains(shown[a]));
                            }
                        }
                        assert forall|k: int| 0 <= k < after.monitors.len() implies
                            #[trigger] after.bound_well(k) by {
                            assert(state.bound_well(k));
                        }
                    },
                    None => {},
                }
            },
            None => {},
        }
    }
}

/// Focusing a workspace keeps the monitors and the workspaces fitting
/// together.
pub proof fn lemma_workspace_focus_binds(state: State, workspace: Id)
    requires
        state.wf(),
        state.bindings_wf(),
    ensures
        state.workspace_focused(workspace).bindings_wf(),
{
    lemma_index_bounds(state, workspace);
    match state.workspace_index(workspace) {
        Some(index) => {
            lemma_rebound(state, workspace);
            let bound = state.rebound(workspace);
            lemma_promoted_in(state.mru_workspaces, workspace);
            let active = State {
                mru_workspaces: promoted_in(bound.mru_workspaces, workspace),
                ..bound
            };
            let focused = match active.workspaces[index].active_window() {
                Some(window) => State {
                    mru_windows: promoted_in(active.mru_windows, window),
                    ..active
                }.with_command(Command::FocusWindow { window }),
                None => active.with_command(Command::Blur),
            };
            assert(bound.binding_frame(focused));
            lemma_binding_frame(bound, focused);
            lemma_arranged_binds(focused, workspace, false);
            lemma_binding_frame(focused, focused.arranged(workspace, false));
        },
        None => {},
    }
}

/// Focusing a window, or taking the focus from every window, keeps the
/// monitors and the workspaces fitting together.
pub proof fn lemma_focus_binds(state: State, window: Option<Id>)
    requires
        state.wf(),
        state.bindings_wf(),
    ensures
        state.focus_set(window).bindings_wf(),
{
    match window {
        Some(window) => {
            lemma_index_bounds(state, window);
            match state.window(window) {
                Some(w) => {
                    lemma_activated(state, window);
                    let active = state.activated(window);
                    lemma_same_workspace_ids(state, active);
                    match state.workspace_of(window) {
                        Some(home) => {
                            lemma_index_bounds(state, home);
                        },
                        None => {},
                    }
                    assert(state.binding_frame(active));
                    lemma_binding_frame(state, active);
                    match w.on_workspace {
                        Some(workspace) => match state.workspace_index(workspace) {
                            Some(_) => {
                                lemma_workspace_focus_binds(active, workspace);
                            },
                            None => {
                                lemma_binding_frame(
                                    active,
                                    active.with_command(Command::FocusWindow { window }),
                                );
                            },
                        },
                        None => {
                            lemma_binding_frame(
                                active,
                                active.with_command(Command::FocusWindow { window }),
                            );
                        },
                    }
                },
                None => {},
            }
        },
        None => {
            lemma_binding_frame(state, state.with_command(Command::Blur));
        },
    }
}

/// Taking a window off its workspace leaves the monitors and the workspaces
/// as they are.
pub proof fn lemma_detached_binds(state: State, window: Id)
    requires
        state.wf(),
    ensures
        state.binding_frame(state.detached(window)),
{
    lemma_detached(state, window);
    lemma_index_bounds(state, window);
    match state.window_index(window) {
        Some(i) => match state.windows[i].on_workspace {
            Some(workspace) => {
                lemma_index_bounds(state, workspace);
            },
            None => {},
        },
        None => {},
    }
}

/// Putting a window onto a workspace leaves the monitors and the workspaces
/// as they are.
pub proof fn lemma_attached_binds(state: State, window: Id, to: Id, index: int)
    requires
        state.wf(),
        state.workspace_of(window).is_none(),
        state.window_index(window).is_some() ==> state.mru_windows.contains(window),
        0 <= index,
    ensures
        state.binding_frame(state.attached(window, to, index)),
{
    lemma_attached(state, window, to, index);
    lemma_index_bounds(state, window);
    lemma_index_bounds(state, to);
}

/// An order read backwards holds the same elements, each of them once.
pub proof fn lemma_reversed(list: Seq<Id>)
    requires
        list.no_duplicates(),
    ensures
        reversed(list).no_duplicates(),
        reversed(list).len() == list.len(),
        forall|id: Id| reversed(list).contains(id) == list.contains(id),
{
    let back = reversed(list);
    let n = list.len() as int;
    assert forall|id: Id| back.contains(id) == list.contains(id) by {
        if back.contains(id) {
            let i = choose|i: int| 0 <= i < back.len() && back[i] == id;
            assert(list[n - 1 - i] == id);
        }
        if list.contains(id) {
            let i = choose|i: int| 0 <= i < list.len() && list[i] == id;
            assert(back[n - 1 - i] == id);
        }
    }
}

/// Which monitors `monitors_in_order` lists for the first `k` workspaces of
/// `order`: those that show one of them, each once.
pub proof fn lemma_monitors_in_order(state: State, order: Seq<Id>, k: int)
    requires
        shown_workspaces(state.monitors).no_duplicates(),
        order.no_duplicates(),
        0 <= k <= order.len(),
    ensures
        state.monitors_in_order(order, k).no_duplicates(),
        state.monitors_in_order(order, k).len() <= k,
        forall|m: int| #[trigger]
            state.monitors_in_order(order, k).contains(m) <==> 0 <= m < state.monitors.len()
                && order.take(k).contains(state.monitors[m].workspace),
    decreases k,
{
    let shown = shown_workspaces(state.monitors);
    let found = state.monitors_in_order(order, k);
    if k == 0 {
        assert(order.take(0) =~= Seq::<Id>::empty());
    } else {
        lemma_monitors_in_order(state, order, k - 1);
        let before = state.monitors_in_order(order, k - 1);
        let workspace = order[k - 1];
        shown.index_of_first_ensures(workspace);
        let head = order.take(k - 1);
        let upto = order.take(k);
        assert(upto =~= head.push(workspace));
        assert(!head.contains(workspace)) by {
            if head.contains(workspace) {
                let p = choose|p: int| 0 <= p < head.len() && head[p] == workspace;
                assert(order[p] == order[k - 1]);
            }
        }
        assert forall|id: Id| upto.contains(id) <==> (id == workspace || head.contains(id)) by {
            if upto.contains(id) {
                let p = choose|p: int| 0 <= p < upto.len() && upto[p] == id;
                if p < k - 1 {
                    assert(head[p] == id);
                }
            }
            if head.contains(id) {
                let p = choose|p: int| 0 <= p < head.len() && head[p] == id;
                assert(upto[p] == id);
            }
            assert(upto[k - 1] == workspace);
        }
        match state.monitor_index_by_workspace(workspace) {
            Some(m) => {
                assert(shown[m] == workspace);
                assert(found == before.push(m));
                assert(!before.contains(m));
                assert(found.no_duplicates()) by {
                    assert forall|a: int, b: int|
                        0 <= a < found.len() && 0 <= b < found.len() && a != b implies found[a]
                        != found[b] by {
                        if a == before.len() {
                            assert(before.contains(before[b]));
                        } else if b == before.len() {
                            assert(before.contains(before[a]));
                        }
                    }
                }
                assert forall|x: int| #[trigger]
                    found.contains(x) <==> 0 <= x < state.monitors.len() && order.take(
                        k,
                    ).contains(state.monitors[x].workspace) by {
                    if found.contains(x) {
                        let t = choose|t: int| 0 <= t < found.len() && found[t] == x;
                        if t < before.len() {
                            assert(before.contains(x));
                        }
                    }
                    if 0 <= x < state.monitors.len() && order.take(k).contains(
                        state.monitors[x].workspace,
                    ) {
                        if state.monitors[x].workspace == workspace {
                            assert(shown[x] == shown[m]);
                            assert(found[before.len() as int] == m);
                        } else {
                            assert(before.contains(x));
                            let t = choose|t: int| 0 <= t < before.len() && before[t] == x;
                            assert(found[t] == x);
                        }
                    }
                }
            },
            None => {
                assert(found == before);
                assert forall|x: int| #[trigger]
                    found.contains(x) <==> 0 <= x < state.monitors.len() && order.take(
                        k,
                    ).contains(state.monitors[x].workspace) by {
                    if 0 <= x < state.monitors.len() && state.monitors[x].workspace == workspace {
                        assert(shown[x] == workspace);
                        assert(shown.contains(workspace));
                    }
                }
            },
        }
    }
}

/// What `reassigned` gives after `k` steps: the monitor listed at `t`
/// shows the workspace at `t` of `order`, for every `t` before `k`, and
/// every other monitor is as it was.
pub proof fn lemma_reassigned(monitors: Seq<Monitor>, bound: Seq<int>, order: Seq<Id>, k: int)
    requires
        bound.no_duplicates(),
        bound.len() <= order.len(),
        0 <= k <= bound.len(),
        forall|t: int| 0 <= t < bound.len() ==> 0 <= #[trigger] bound[t] < monitors.len(),
    ensures
        reassigned(monitors, bound, order, k).len() == monitors.len(),
        forall|m: int|
            0 <= m < monitors.len() ==> {
                &&& (#[trigger] reassigned(monitors, bound, order, k)[m]).id == monitors[m].id
                &&& reassigned(monitors, bound, order, k)[m].extents == monitors[m].extents
            },
        forall|t: int|
            0 <= t < k ==> reassigned(monitors, bound, order, k)[#[trigger] bound[t]].workspace
                == order[t],
        forall|m: int|
            0 <= m < monitors.len() && !bound.take(k).contains(m) ==> #[trigger] reassigned(
                monitors,
                bound,
                order,
                k,
            )[m] == monitors[m],
    decreases k,
{
    if k == 0 {
        assert(bound.take(0) =~= Seq::<int>::empty());
    } else {
        lemma_reassigned(monitors, bound, order, k - 1);
        let before = reassigned(monitors, bound, order, k - 1);
        let after = reassigned(monitors, bound, order, k);
        let m = bound[k - 1];
        assert(after == before.update(m, Monitor { workspace: order[k - 1], ..before[m] }));
        assert forall|t: int| 0 <= t < k implies after[#[trigger] bound[t]].workspace
            == order[t] by {
            if t < k - 1 {
                assert(bound[t] != bound[k - 1]);
            }
        }
        assert forall|x: int| 0 <= x < monitors.len() && !bound.take(k).contains(x) implies
            #[trigger] after[x] == monitors[x] by {
            assert(bound.take(k)[k - 1] == m);
            assert(x != m);
            let head = bound.take(k - 1);
            assert(!head.contains(x)) by {
                if head.contains(x) {
                    let t = choose|t: int| 0 <= t < head.len() && head[t] == x;
                    assert(bound.take(k)[t] == x);
                }
            }
        }
    }
}

/// A monitor that disappeared leaves the monitors and the workspaces
/// fitting together: each monitor left shows one of the workspaces used
/// most recently, and each another one.
pub proof fn lemma_monitor_removed_binds(state: State, monitor: Id)
    requires
        state.wf(),
        state.bindings_wf(),
    ensures
        state.monitor_removed(monitor).bindings_wf(),
{
    let ids = monitor_ids(state.monitors);
    ids.index_of_first_ensures(monitor);
    match state.monitor_index(monitor) {
        Some(gone) => {
            let left = State { monitors: state.monitors.remove(gone), ..state };
            let shown = shown_workspaces(state.monitors);
            assert(monitor_ids(left.monitors) =~= ids.remove(gone));
            assert(shown_workspaces(left.monitors) =~= shown.remove(gone));
            lemma_remove_lookup(ids, gone);
            lemma_remove_lookup(shown, gone);
            assert forall|m: int| 0 <= m < left.monitors.len() implies #[trigger] left.bound_well(
                m,
            ) by {
                let from = if m < gone {
                    m
                } else {
                    m + 1
                };
                assert(left.monitors[m] == state.monitors[from]);
                assert(state.bound_well(from));
            }
            assert(left.bindings_wf());
            let order = reversed(left.mru_workspaces);
            lemma_reversed(left.mru_workspaces);
            let bound = left.monitors_in_order(order, order.len() as int);
            lemma_monitors_in_order(left, order, order.len() as int);
            assert(order.take(order.len() as int) =~= order);
            assert forall|t: int| 0 <= t < bound.len() implies 0 <= #[trigger] bound[t]
                < left.monitors.len() by {
                assert(bound.contains(bound[t]));
            }
            lemma_reassigned(left.monitors, bound, order, bound.len() as int);
            let handed = reassigned(left.monitors, bound, order, bound.len() as int);
            let after = State { monitors: handed, ..left };
            assert(bound.take(bound.len() as int) =~= bound);
            assert forall|m: int| 0 <= m < handed.len() implies bound.contains(m) by {
                assert(left.bound_well(m));
                let workspace = left.monitors[m].workspace;
                lemma_index_bounds(left, workspace);
                let i = left.workspace_index(workspace).unwrap();
                assert(workspace_ids(left.workspaces)[i] == workspace);
                assert(workspace_ids(left.workspaces).contains(workspace));
                assert(left.mru_workspaces.contains(workspace));
                assert(order.contains(workspace));
            }
            assert(monitor_ids(handed) =~= monitor_ids(left.monitors));
            assert forall|a: int, b: int|
                0 <= a < handed.len() && 0 <= b < handed.len() && a != b implies shown_workspaces(
                handed,
            )[a] != shown_workspaces(handed)[b] by {
                assert(bound.contains(a));
                assert(bound.contains(b));
                let ta = choose|t: int| 0 <= t < bound.len() && bound[t] == a;
                let tb = choose|t: int| 0 <= t < bound.len() && bound[t] == b;
                assert(handed[bound[ta]].workspace == order[ta]);
                assert(handed[bound[tb]].workspace == order[tb]);
                assert(order[ta] != order[tb]);
            }
            assert forall|m: int| 0 <= m < after.monitors.len() implies #[trigger] after.bound_well(
                m,
            ) by {
                assert(bound.contains(m));
                let t = choose|t: int| 0 <= t < bound.len() && bound[t] == m;
                assert(handed[bound[t]].workspace == order[t]);
                assert(order.contains(order[t]));
                assert(left.mru_workspaces.contains(order[t]));
                assert(workspace_ids(left.workspaces).contains(order[t]));
                workspace_ids(left.workspaces).index_of_first_ensures(order[t]);
                assert(left.bound_well(m));
            }
            assert(after.bindings_wf());
            lemma_arranged_all_binds(after);
            lemma_binding_frame(after, after.arranged_all());
        },
        None => {},
    }
}

/// Another value for a workspace, under the same identifier, leaves the
/// monitors and the workspaces as they are.
pub proof fn lemma_workspace_at_binds(state: State, index: int, view: WorkspaceView)
    requires
        0 <= index < state.workspaces.len(),
        view.id == state.workspaces[index].id,
    ensures
        state.binding_frame(state.with_workspace_at(index, view)),
{
    assert(workspace_ids(state.with_workspace_at(index, view).workspaces) =~= workspace_ids(
        state.workspaces,
    ));
}

/// A new workspace keeps the monitors and the workspaces fitting together.
pub proof fn lemma_new_workspace_binds(state: State)
    requires
        state.wf(),
        state.bindings_wf(),
        state.next_workspace_id < u64::MAX,
    ensures
        state.with_new_workspace().bindings_wf(),
{
    let id = state.next_workspace_id;
    let after = state.with_new_workspace();
    let ids = workspace_ids(state.workspaces);
    assert(!ids.contains(id)) by {
        if ids.contains(id) {
            let i = choose|i: int| 0 <= i < ids.len() && ids[i] == id;
            assert(state.workspaces[i].id < state.next_workspace_id);
        }
    }
    assert(workspace_ids(after.workspaces) == ids.push(id)) by {
        assert(workspace_ids(after.workspaces) =~= ids.push(id));
    }
    lemma_push_fresh_lookup(ids, id);
    lemma_without_facts(state.mru_workspaces, id);
    let rest = without(state.mru_workspaces, id);
    assert forall|x: Id| after.mru_workspaces.contains(x) <==> workspace_ids(
        after.workspaces,
    ).contains(x) by {
        let order = seq![id] + rest;
        assert(order[0] == id);
        assert(ids.push(id)[ids.len() as int] == id);
        if order.contains(x) && x != id {
            let p = choose|p: int| 0 <= p < order.len() && order[p] == x;
            assert(rest[p - 1] == x);
            assert(rest.contains(x));
            let i = choose|i: int| 0 <= i < ids.len() && ids[i] == x;
            assert(ids.push(id)[i] == x);
        }
        if ids.push(id).contains(x) && x != id {
            let i = choose|i: int| 0 <= i < ids.push(id).len() && ids.push(id)[i] == x;
            assert(ids[i] == x);
            assert(state.mru_workspaces.contains(x));
            assert(rest.contains(x));
            let p = choose|p: int| 0 <= p < rest.len() && rest[p] == x;
            assert(order[p + 1] == x);
        }
    }
    assert forall|m: int| 0 <= m < after.monitors.len() implies #[trigger] after.bound_well(m) by {
        assert(state.bound_well(m));
        let workspace = state.monitors[m].workspace;
        lemma_index_bounds(state, workspace);
        assert(workspace != id) by {
            assert(state.workspaces[state.workspace_index(workspace).unwrap()].id
                < state.next_workspace_id);
        }
        assert(ids.push(id).index_of_first(workspace) == ids.index_of_first(workspace));
    }
}

/// New workspaces keep the monitors and the workspaces fitting together.
pub proof fn lemma_new_workspaces_bind(state: State, n: nat)
    requires
        state.wf(),
        state.bindings_wf(),
    ensures
        state.with_new_workspaces(n).bindings_wf(),
        state.with_new_workspaces(n).monitors == state.monitors,
        state.with_new_workspaces(n).next_monitor_id == state.next_monitor_id,
    decreases n,
{
    if n != 0 && state.next_workspace_id != u64::MAX {
        lemma_new_workspace(state);
        lemma_new_workspace_binds(state);
        lemma_new_workspaces_bind(state.with_new_workspace(), (n - 1) as nat);
    }
}

/// In a window manager without monitors and windows, with its reserve of
/// workspaces, the monitors and the workspaces fit together.
pub proof fn lemma_initial_bindings(extra_workspaces: usize, keyboard_layouts: usize)
    ensures
        (State {
            monitors: Seq::empty(),
            windows: Seq::empty(),
            workspaces: Seq::empty(),
            mru_windows: Seq::empty(),
            mru_workspaces: Seq::empty(),
            gesture: Gesture::Idle,
            old_cursor: Point { x: 0, y: 0 },
            animations: Seq::empty(),
            commands: Seq::empty(),
            next_monitor_id: 1,
            next_window_id: 1,
            next_workspace_id: 1,
            extra_workspaces,
            keyboard_layouts,
            keyboard_layout: 0,
        }).with_spare_workspaces().bindings_wf(),
{
    let empty = State {
        monitors: Seq::empty(),
        windows: Seq::empty(),
        workspaces: Seq::empty(),
        mru_windows: Seq::empty(),
        mru_workspaces: Seq::empty(),
        gesture: Gesture::Idle,
        old_cursor: Point { x: 0, y: 0 },
        animations: Seq::empty(),
        commands: Seq::empty(),
        next_monitor_id: 1,
        next_window_id: 1,
        next_workspace_id: 1,
        extra_workspaces,
        keyboard_layouts,
        keyboard_layout: 0,
    };
    assert(window_ids(empty.windows) =~= Seq::<Id>::empty());
    assert(workspace_ids(empty.workspaces) =~= Seq::<Id>::empty());
    assert(monitor_ids(empty.monitors) =~= Seq::<Id>::empty());
    assert(shown_workspaces(empty.monitors) =~= Seq::<Id>::empty());
    assert(empty.wf());
    assert(empty.bindings_wf());
    lemma_new_workspaces_bind(empty, empty.missing_workspaces());
}

/// What `first_unbound` finds is a workspace of `order` that no monitor
/// shows.
pub proof fn lemma_first_unbound(state: State, order: Seq<Id>, from: int)
    requires
        0 <= from <= order.len(),
    ensures
        match state.first_unbound(order, from) {
            Some(workspace) => order.contains(workspace) && state.is_unbound(workspace),
            None => true,
        },
    decreases order.len() - from,
{
    if from < order.len() {
        if state.is_unbound(order[from]) {
            assert(order.contains(order[from]));
        } else {
            lemma_first_unbound(state, order, from + 1);
        }
    }
}

/// A new monitor keeps the monitors and the workspaces fitting together.
pub proof fn lemma_monitor_added_binds(state: State, zone: Rectangle)
    requires
        state.wf(),
        state.bindings_wf(),
    ensures
        state.monitor_added(zone).bindings_wf(),
{
    lemma_new_workspaces(state, state.missing_workspaces());
    lemma_new_workspaces_bind(state, state.missing_workspaces());
    let spare = state.with_spare_workspaces();
    if state.can_add_monitor() {
        let workspace = spare.unused_workspace().unwrap();
        let order = reversed(spare.mru_workspaces);
        lemma_reversed(spare.mru_workspaces);
        lemma_first_unbound(spare, order, 0);
        let monitor = Monitor { id: spare.next_monitor_id, extents: zone, workspace };
        let shown = State {
            monitors: spare.monitors.push(monitor),
            next_monitor_id: (spare.next_monitor_id + 1) as Id,
            ..spare
        };
        let ids = monitor_ids(spare.monitors);
        let bound = shown_workspaces(spare.monitors);
        assert(monitor_ids(shown.monitors) =~= ids.push(monitor.id));
        assert(shown_workspaces(shown.monitors) =~= bound.push(workspace));
        assert(!ids.contains(monitor.id)) by {
            if ids.contains(monitor.id) {
                let m = choose|m: int| 0 <= m < ids.len() && ids[m] == monitor.id;
                assert(spare.bound_well(m));
            }
        }
        bound.index_of_first_ensures(workspace);
        lemma_push_fresh_lookup(ids, monitor.id);
        lemma_push_fresh_lookup(bound, workspace);
        workspace_ids(spare.workspaces).index_of_first_ensures(workspace);
        assert(order.contains(workspace));
        assert(spare.mru_workspaces.contains(workspace));
        assert(workspace_ids(spare.workspaces).contains(workspace));
        assert(spare.workspace_index(workspace).is_some());
        assert(spare.next_monitor_id == state.next_monitor_id);
        assert forall|m: int| 0 <= m < shown.monitors.len() implies #[trigger] shown.bound_well(
            m,
        ) by {
            if m < spare.monitors.len() {
                assert(spare.bound_well(m));
                assert(shown.monitors[m] == spare.monitors[m]);
            } else {
                assert(shown.monitors[m] == monitor);
            }
        }
        assert(shown.bindings_wf());
        lemma_arranged_binds(shown, workspace, false);
        lemma_binding_frame(shown, shown.arranged(workspace, false));
    }
}

/// Another zone of a monitor keeps the monitors and the workspaces fitting
/// together.
pub proof fn lemma_monitor_updated_binds(state: State, monitor: Id, zone: Rectangle)
    requires
        state.bindings_wf(),
    ensures
        state.monitor_updated(monitor, zone).bindings_wf(),
{
    monitor_ids(state.monitors).index_of_first_ensures(monitor);
    match state.monitor_index(monitor) {
        Some(m) => {
            let changed = State {
                monitors: state.monitors.update(m, Monitor { extents: zone, ..state.monitors[m] }),
                ..state
            };
            assert(monitor_ids(changed.monitors) =~= monitor_ids(state.monitors));
            assert(shown_workspaces(changed.monitors) =~= shown_workspaces(state.monitors));
            assert forall|k: int| 0 <= k < changed.monitors.len() implies
                #[trigger] changed.bound_well(k) by {
                assert(state.bound_well(k));
            }
            lemma_arranged_binds(changed, state.monitors[m].workspace, false);
            lemma_binding_frame(changed, changed.arranged(state.monitors[m].workspace, false));
        },
        None => {},
    }
}

/// Moving a window to a workspace keeps the monitors and the workspaces
/// fitting together.
pub proof fn lemma_window_sent_binds(
    state: State,
    window: Id,
    to: Id,
    position: WorkspacePosition,
)
    requires
        state.wf(),
        state.bindings_wf(),
    ensures
        state.window_sent(window, to, position).bindings_wf(),
{
    if state.can_transfer(window, to) {
        lemma_index_bounds(state, window);
        let i = state.window_index(window).unwrap();
        assert(state.placed_consistently(i));
        let home = state.windows[i].on_workspace.unwrap();
        lemma_index_bounds(state, home);
        assert(state.lists(state.workspace_index(home).unwrap(), window));
        lemma_detached(state, window);
        lemma_detached_binds(state, window);
        let left = state.detached(window);
        lemma_binding_frame(state, left);
        let index = left.insertion_index(to, position);
        assert(0 <= index) by {
            match left.workspace(to) {
                Some(w) => {
                    match w.active_window() {
                        Some(top) => {
                            w.windows.index_of_first_ensures(top);
                        },
                        None => {},
                    }
                    match position {
                        WorkspacePosition::Coordinate(p) => {
                            lemma_first_right_of(left, w.windows, p.x, 0);
                        },
                        _ => {},
                    }
                },
                None => {},
            }
        }
        lemma_attached(left, window, to, index);
        lemma_attached_binds(left, window, to, index);
        let there = left.attached(window, to, index);
        lemma_binding_frame(left, there);
        lemma_workspace_focus_keeps_wf(there, to);
        lemma_workspace_focus_binds(there, to);
        lemma_arranged_all_binds(there.workspace_focused(to));
        lemma_binding_frame(there.workspace_focused(to), there.workspace_focused(to).arranged_all());
    }
}

/// Moving a window to an index of a workspace keeps the monitors and the
/// workspaces fitting together.
pub proof fn lemma_window_moved_to_workspace_binds(state: State, window: Id, to: Id, index: int)
    requires
        state.wf(),
        state.bindings_wf(),
        0 <= index,
    ensures
        state.window_moved_to_workspace(window, to, index).bindings_wf(),
{
    if state.can_transfer(window, to) {
        lemma_index_bounds(state, window);
        let i = state.window_index(window).unwrap();
        assert(state.placed_consistently(i));
        let home = state.windows[i].on_workspace.unwrap();
        lemma_index_bounds(state, home);
        assert(state.lists(state.workspace_index(home).unwrap(), window));
        lemma_detached(state, window);
        lemma_detached_binds(state, window);
        let left = state.detached(window);
        lemma_binding_frame(state, left);
        lemma_attached(left, window, to, index);
        lemma_attached_binds(left, window, to, index);
        let there = left.attached(window, to, index);
        lemma_binding_frame(left, there);
        lemma_workspace_focus_keeps_wf(there, to);
        lemma_workspace_focus_binds(there, to);
        lemma_arranged_all_binds(there.workspace_focused(to));
        lemma_binding_frame(there.workspace_focused(to), there.workspace_focused(to).arranged_all());
    }
}

/// Adding a new window keeps the monitors and the workspaces fitting
/// together.
pub proof fn lemma_window_added_binds(state: State, window: Window)
    requires
        state.wf(),
        state.bindings_wf(),
        window.on_workspace.is_none(),
        window.id < state.next_window_id,
        forall|j: int| 0 <= j < state.windows.len() ==> state.windows[j].id != window.id,
    ensures
        state.window_added(window).bindings_wf(),
{
    let id = window.id;
    let listed = State { windows: state.windows.push(window), ..state };
    lemma_window_listed(state, window);
    lemma_binding_frame(state, listed);
    if window.spec_is_tiled() {
        lemma_window_known(listed, id);
        let known = State { mru_windows: without(listed.mru_windows, id).push(id), ..listed };
        lemma_binding_frame(listed, known);
        assert(known.workspace_of(id).is_none());
        match known.active_workspace() {
            Some(active) => match known.workspace(active) {
                Some(w) => {
                    let index = w.index_after_active();
                    assert(0 <= index) by {
                        match w.active_window() {
                            Some(top) => {
                                w.windows.index_of_first_ensures(top);
                            },
                            None => {},
                        }
                    }
                    lemma_attached(known, id, active, index);
                    lemma_attached_binds(known, id, active, index);
                    let there = known.attached(id, active, index);
                    lemma_binding_frame(known, there);
                    lemma_focus_binds(there, Some(id));
                },
                None => {},
            },
            None => {},
        }
    }
}

/// A surface that became ready keeps the monitors and the workspaces
/// fitting together.
pub proof fn lemma_window_ready_binds(state: State, info: WindowInfo)
    requires
        state.wf(),
        state.bindings_wf(),
    ensures
        state.window_ready(info).bindings_wf(),
{
    if state.next_window_id != u64::MAX {
        let counted = State { next_window_id: (state.next_window_id + 1) as Id, ..state };
        lemma_binding_frame(state, counted);
        assert(counted.wf()) by {
            assert(window_ids(counted.windows) == window_ids(
                state.windows,
            ));
            assert forall|i: int, w: Id|
                0 <= i < counted.workspaces.len() && #[trigger] counted.workspaces[i].windows.contains(
                    w,
                ) implies counted.lists(i, w) by {
                assert(state.lists(i, w));
            }
            assert forall|j: int| 0 <= j < counted.windows.len() implies
                #[trigger] counted.placed_consistently(j) by {
                assert(state.placed_consistently(j));
            }
            assert forall|j: int| 0 <= j < counted.windows.len() implies (
            #[trigger] counted.windows[j]).id < counted.next_window_id by {
                assert(state.windows[j].id < state.next_window_id);
            }
        }
        let window = Window {
            id: state.next_window_id,
            on_workspace: None,
            x: info.extents.top_left.x,
            y: info.extents.top_left.y,
            size: info.extents.size,
            rendered: info.extents,
            is_dragged: false,
            info,
        };
        assert forall|j: int| 0 <= j < counted.windows.len() implies counted.windows[j].id
            != window.id by {
            assert(state.windows[j].id < state.next_window_id);
        }
        lemma_window_added_binds(counted, window);
    }
}

/// A window that was destroyed leaves the monitors and the workspaces
/// fitting together.
pub proof fn lemma_window_deleted_binds(state: State, window: Id)
    requires
        state.wf(),
        state.bindings_wf(),
    ensures
        state.window_deleted(window).bindings_wf(),
{
    lemma_index_bounds(state, window);
    match state.window_index(window) {
        Some(i) => {
            lemma_detached(state, window);
            lemma_detached_binds(state, window);
            let left = state.detached(window);
            lemma_binding_frame(state, left);
            lemma_window_forgotten(left, window, i);
            let gone = State {
                windows: left.windows.remove(i),
                mru_windows: without(left.mru_windows, window),
                ..left
            };
            lemma_binding_frame(left, gone);
            match gone.active_workspace() {
                Some(active) => match gone.workspace(active) {
                    Some(w) => match w.active_window() {
                        Some(next) => {
                            lemma_focus_binds(gone, Some(next));
                        },
                        None => {},
                    },
                    None => {},
                },
                None => {},
            }
        },
        None => {},
    }
}

/// What the compositor reports of a window, a gesture that a client asks
/// for and the frame of the animations keep the monitors and the workspaces
/// fitting together.
pub proof fn lemma_reports_bind(
    state: State,
    window: Id,
    info: WindowInfo,
    has_focus: bool,
    cursor: Point,
    edges: WindowEdges,
    gesture_type: GestureType,
    now: u64,
)
    requires
        state.wf(),
        state.bindings_wf(),
    ensures
        state.window_configured(window, info).bindings_wf(),
        state.gesture_requested(window, has_focus, cursor, edges, gesture_type).bindings_wf(),
        state.frame_run(now).bindings_wf(),
{
    lemma_index_bounds(state, window);
    lemma_binding_frame(state, state.frame_run(now));
    lemma_binding_frame(state, state.gesture_requested(window, has_focus, cursor, edges, gesture_type));
    match state.window_index(window) {
        Some(i) => {
            let w = state.windows[i];
            let known = state.with_window_at(
                i,
                Window { size: info.extents.size, rendered: info.extents, info, ..w },
            );
            lemma_binding_frame(state, known);
            match w.on_workspace {
                Some(workspace) => {
                    lemma_arranged_binds(known, workspace, false);
                    lemma_binding_frame(known, known.arranged(workspace, false));
                },
                None => {},
            }
        },
        None => {},
    }
}

/// Entering another monitor keeps the monitors and the workspaces fitting
/// together.
pub proof fn lemma_navigated_monitor_binds(
    state: State,
    direction: Direction,
    position: WorkspacePosition,
)
    requires
        state.wf(),
        state.bindings_wf(),
    ensures
        state.navigated_monitor(direction, position).bindings_wf(),
{
    match state.monitor_by_direction(direction) {
        Some(m) => {
            let workspace = state.monitors[m].workspace;
            match state.window_for_entry(workspace, position) {
                Some(window) => {
                    lemma_focus_binds(state, Some(window));
                },
                None => {
                    lemma_workspace_focus_binds(state, workspace);
                },
            }
        },
        None => {},
    }
}

/// Navigating keeps the monitors and the workspaces fitting together.
pub proof fn lemma_navigated_binds(state: State, direction: Direction)
    requires
        state.wf(),
        state.bindings_wf(),
    ensures
        state.navigated_first().bindings_wf(),
        state.navigated_last().bindings_wf(),
        state.navigated(direction).bindings_wf(),
{
    match state.active_workspace() {
        Some(active) => match state.workspace(active) {
            Some(w) => if w.windows.len() > 0 {
                lemma_focus_binds(state, Some(w.windows.first()));
                lemma_focus_binds(state, Some(w.windows.last()));
            },
            None => {},
        },
        None => {},
    }
    lemma_navigated_monitor_binds(state, direction, entry_position(direction));
    let next = match state.active_window() {
        Some(active) => state.tiled_neighbor(active, direction),
        None => None,
    };
    match next {
        Some(window) => {
            lemma_focus_binds(state, Some(window));
        },
        None => {},
    }
}

/// A window that changes places with its neighbour leaves the monitors and
/// the workspaces as they are.
pub proof fn lemma_workspace_swapped_binds(
    state: State,
    index: int,
    window: Id,
    direction: Direction,
)
    requires
        state.bindings_wf(),
        0 <= index < state.workspaces.len(),
    ensures
        match state.workspaces[index].moved(window, direction) {
            Some(moved) => state.with_workspace_at(index, moved).arranged(
                state.workspaces[index].id,
                false,
            ).bindings_wf(),
            None => true,
        },
{
    match state.workspaces[index].moved(window, direction) {
        Some(moved) => {
            let swapped = state.with_workspace_at(index, moved);
            lemma_workspace_at_binds(state, index, moved);
            lemma_binding_frame(state, swapped);
            lemma_arranged_binds(swapped, state.workspaces[index].id, false);
            lemma_binding_frame(swapped, swapped.arranged(state.workspaces[index].id, false));
        },
        None => {},
    }
}

/// Moving the active window keeps the monitors and the workspaces fitting
/// together.
pub proof fn lemma_window_moved_binds(
    state: State,
    direction: Direction,
    vertical: VerticalDirection,
    position: WorkspacePosition,
)
    requires
        state.wf(),
        state.bindings_wf(),
    ensures
        state.window_moved_to_monitor(direction, position).bindings_wf(),
        state.window_moved(direction).bindings_wf(),
        state.workspace_switched(vertical).bindings_wf(),
        state.window_moved_vertically(vertical).bindings_wf(),
{
    match (state.monitor_by_direction(direction), state.active_window()) {
        (Some(m), Some(active)) => {
            lemma_window_sent_binds(state, active, state.monitors[m].workspace, position);
            lemma_window_sent_binds(
                state,
                active,
                state.monitors[m].workspace,
                entry_position(direction),
            );
        },
        _ => {},
    }
    match state.active_window() {
        Some(active) => match state.workspace_of(active) {
            Some(workspace) => {
                lemma_index_bounds(state, workspace);
                match state.workspace_index(workspace) {
                    Some(index) => {
                        lemma_workspace_swapped_binds(state, index, active, direction);
                    },
                    None => {},
                }
            },
            None => {},
        },
        None => {},
    }
    match state.workspace_by_direction(vertical) {
        Some(workspace) => {
            lemma_workspace_focus_binds(state, workspace);
            match state.active_window() {
                Some(active) => {
                    lemma_window_sent_binds(
                        state,
                        active,
                        workspace,
                        WorkspacePosition::ActiveWindow,
                    );
                },
                None => {},
            }
        },
        None => {},
    }
}

/// Resizing and centring the active window, switching the keyboard layout
/// and asking a client to close keep the monitors and the workspaces
/// fitting together.
pub proof fn lemma_window_adjusted_binds(state: State, steps: Seq<u32>)
    requires
        state.wf(),
        state.bindings_wf(),
    ensures
        state.window_resized(steps).bindings_wf(),
        state.window_centered().bindings_wf(),
        state.keyboard_layout_switched().bindings_wf(),
        state.close_requested().bindings_wf(),
{
    lemma_binding_frame(state, state.keyboard_layout_switched());
    lemma_binding_frame(state, state.close_requested());
    match state.active_window() {
        Some(active) => {
            lemma_index_bounds(state, active);
            match (state.window_index(active), state.monitor_by_window(active)) {
                (Some(i), Some(monitor)) => {
                    let w = state.windows[i];
                    let sized = match resized_width(
                        steps,
                        w.size.width,
                        monitor.extents.size.width,
                    ) {
                        Some(width) => state.with_window_at(
                            i,
                            Window {
                                size: Size { width, height: w.size.height },
                                ..w
                            },
                        ),
                        None => state,
                    };
                    lemma_binding_frame(state, sized);
                    lemma_arranged_all_binds(sized);
                    lemma_binding_frame(sized, sized.arranged_all());
                },
                _ => {},
            }
            match state.window(active) {
                Some(w) => match w.on_workspace {
                    Some(workspace) => {
                        lemma_index_bounds(state, workspace);
                        match (
                            state.workspace_index(workspace),
                            state.monitor_by_workspace(workspace),
                        ) {
                            (Some(index), Some(monitor)) => {
                                let view = state.workspaces[index];
                                let scroll_left = clamp_i32(
                                    w.rendered.top_left.x + view.scroll_left
                                        - monitor.extents.top_left.x - half(
                                        monitor.extents.size.width as int,
                                    ) + half(w.size.width as int),
                                );
                                let moved = WorkspaceView { scroll_left, ..view };
                                lemma_workspace_at_binds(state, index, moved);
                                let scrolled = state.with_workspace_at(index, moved);
                                lemma_binding_frame(state, scrolled);
                                lemma_arranged_binds(scrolled, workspace, false);
                                lemma_binding_frame(scrolled, scrolled.arranged(workspace, false));
                            },
                            _ => {},
                        }
                    },
                    None => {},
                },
                None => {},
            }
        },
        None => {},
    }
}

/// Every action keeps the monitors and the workspaces fitting together.
pub proof fn lemma_action_binds(state: State, action: ActionShortcut)
    requires
        state.wf(),
        state.bindings_wf(),
    ensures
        state.action_triggered(action).bindings_wf(),
{
    match action {
        ActionShortcut::NavigateToFirst => {
            lemma_navigated_binds(state, Direction::Left);
        },
        ActionShortcut::NavigateToLast => {
            lemma_navigated_binds(state, Direction::Left);
        },
        ActionShortcut::Navigate { direction } => {
            lemma_navigated_binds(state, direction);
        },
        ActionShortcut::NavigateWorkspace { direction } => {
            lemma_window_moved_binds(state, Direction::Left, direction, WorkspacePosition::Start);
        },
        ActionShortcut::NavigateMonitor { direction } => {
            lemma_navigated_monitor_binds(state, direction, WorkspacePosition::ActiveWindow);
        },
        ActionShortcut::MoveWindow { direction } => {
            lemma_window_moved_binds(
                state,
                direction,
                VerticalDirection::Up,
                WorkspacePosition::Start,
            );
        },
        ActionShortcut::MoveWindowWorkspace { direction } => {
            lemma_window_moved_binds(state, Direction::Left, direction, WorkspacePosition::Start);
        },
        ActionShortcut::MoveWindowMonitor { direction } => {
            lemma_window_moved_binds(
                state,
                direction,
                VerticalDirection::Up,
                WorkspacePosition::ActiveWindow,
            );
        },
        ActionShortcut::ResizeWindow { steps } => {
            lemma_window_adjusted_binds(state, steps@);
        },
        ActionShortcut::CenterWindow => {
            lemma_window_adjusted_binds(state, Seq::empty());
        },
        ActionShortcut::CloseWindow => {
            lemma_window_adjusted_binds(state, Seq::empty());
        },
        ActionShortcut::SwitchKeyboardLayout => {
            lemma_window_adjusted_binds(state, Seq::empty());
        },
        ActionShortcut::DebugPrintWindows => {},
    }
}

/// A key that went down or up keeps the monitors and the workspaces fitting
/// together.
pub proof fn lemma_key_binds(state: State, bindings: Seq<Binding>, chord: Keybinding, pressed: bool)
    requires
        state.wf(),
        state.bindings_wf(),
    ensures
        state.key_handled(bindings, chord, pressed).bindings_wf(),
{
    match binding_index(bindings, chord, 0) {
        Some(i) => if pressed {
            match bindings[i].shortcut {
                KeyboardShortcut::Action(action) => {
                    lemma_action_binds(state, action);
                },
                KeyboardShortcut::Command(_) => {
                    lemma_binding_frame(state, state.shortcut_triggered(bindings[i].shortcut, i));
                },
            }
        },
        None => {},
    }
}

/// Scrolling a workspace with a move gesture keeps the monitors and the
/// workspaces fitting together.
pub proof fn lemma_workspace_dragged_binds(state: State, gesture: MoveGesture, dx: i32)
    requires
        state.wf(),
        state.bindings_wf(),
    ensures
        state.workspace_dragged(gesture, dx).bindings_wf(),
{
    lemma_index_bounds(state, gesture.window);
    match state.window_index(gesture.window) {
        Some(i) => {
            let w = Window { is_dragged: false, ..state.windows[i] };
            let released = state.with_window_at(i, w);
            lemma_binding_frame(state, released);
            match w.on_workspace {
                Some(workspace) => {
                    lemma_index_bounds(released, workspace);
                    match released.workspace_index(workspace) {
                        Some(index) => {
                            let view = released.workspaces[index];
                            let moved = WorkspaceView {
                                scroll_left: clamp_i32(view.scroll_left - dx),
                                ..view
                            };
                            lemma_workspace_at_binds(released, index, moved);
                            let scrolled = released.with_workspace_at(index, moved);
                            lemma_binding_frame(released, scrolled);
                            lemma_arranged_binds(scrolled, workspace, true);
                            lemma_binding_frame(scrolled, scrolled.arranged(workspace, true));
                        },
                        None => {},
                    }
                },
                None => {},
            }
        },
        None => {},
    }
}

/// Dragging a window keeps the monitors and the workspaces fitting
/// together.
pub proof fn lemma_window_dragged_binds(state: State, gesture: MoveGesture, position: Point)
    requires
        state.wf(),
        state.bindings_wf(),
    ensures
        state.window_dragged(gesture, position).bindings_wf(),
{
    lemma_index_bounds(state, gesture.window);
    match state.window_index(gesture.window) {
        Some(i) => {
            let w = Window { is_dragged: true, ..state.windows[i] };
            lemma_window_replaced(state, i, w);
            let held = state.with_window_at(i, w);
            lemma_binding_frame(state, held);
            let carried = state.window_dragged(gesture, position);
            match w.on_workspace {
                Some(workspace) => {
                    lemma_index_bounds(held, workspace);
                    match held.workspace_index(workspace) {
                        Some(index) => {
                            let over = held.workspace_at(position);
                            if over.is_some() && over != Some(workspace) {
                                lemma_window_sent_binds(
                                    held,
                                    gesture.window,
                                    over.unwrap(),
                                    WorkspacePosition::Coordinate(position),
                                );
                            } else {
                                match held.swap_direction(w, held.workspaces[index], position.x) {
                                    Some(direction) => {
                                        lemma_workspace_swapped_binds(
                                            held,
                                            index,
                                            gesture.window,
                                            direction,
                                        );
                                        lemma_arranged_binds(held, workspace, false);
                                        lemma_binding_frame(
                                            held,
                                            held.arranged(workspace, false),
                                        );
                                    },
                                    None => {
                                        lemma_binding_frame(held, carried);
                                    },
                                }
                            }
                        },
                        None => {
                            lemma_binding_frame(held, carried);
                        },
                    }
                },
                None => {
                    lemma_binding_frame(held, carried);
                },
            }
        },
        None => {},
    }
}

/// Resizing a window with the pointer keeps the monitors and the workspaces
/// fitting together.
pub proof fn lemma_window_resized_binds(state: State, gesture: ResizeGesture, position: Point)
    requires
        state.wf(),
        state.bindings_wf(),
    ensures
        state.window_resized_by_gesture(gesture, position).bindings_wf(),
{
    lemma_index_bounds(state, gesture.window);
    match state.window_index(gesture.window) {
        Some(i) => {
            let w = state.windows[i];
            let by = position.spec_minus(gesture.start_cursor);
            let extents = resized_extents(
                gesture.original_extents,
                gesture.edges,
                by,
            );
            let scrolled = match w.on_workspace {
                Some(workspace) => match state.workspace_index(workspace) {
                    Some(index) => if gesture.edges.left {
                        let view = state.workspaces[index];
                        state.with_workspace_at(
                            index,
                            WorkspaceView {
                                scroll_left: clamp_i32(view.scroll_left - by.dx),
                                ..view
                            },
                        )
                    } else {
                        state
                    },
                    None => state,
                },
                None => state,
            };
            assert(state.binding_frame(scrolled)) by {
                match w.on_workspace {
                    Some(workspace) => {
                        lemma_index_bounds(state, workspace);
                        match state.workspace_index(workspace) {
                            Some(index) => {
                                let view = state.workspaces[index];
                                lemma_workspace_at_binds(
                                    state,
                                    index,
                                    WorkspaceView {
                                        scroll_left: clamp_i32(
                                            view.scroll_left - by.dx,
                                        ),
                                        ..view
                                    },
                                );
                            },
                            None => {},
                        }
                    },
                    None => {},
                }
            }
            lemma_binding_frame(state, scrolled);
            let set = scrolled.with_window_at(
                i,
                Window { size: extents.size, rendered: extents, ..w },
            ).with_command(Command::SetExtents { window: gesture.window, extents });
            lemma_binding_frame(scrolled, set);
            match w.on_workspace {
                Some(workspace) => {
                    lemma_arranged_binds(set, workspace, false);
                    lemma_binding_frame(set, set.arranged(workspace, false));
                },
                None => {},
            }
        },
        None => {},
    }
}

/// A pointer button that was released keeps the monitors and the workspaces
/// fitting together.
pub proof fn lemma_button_released_binds(state: State)
    requires
        state.bindings_wf(),
    ensures
        state.button_released().bindings_wf(),
{
    match state.gesture.spec_window() {
        Some(window) => {
            let ended = State { gesture: Gesture::Idle, ..state };
            lemma_binding_frame(state, ended);
            lemma_index_bounds(ended, window);
            match ended.window_index(window) {
                Some(i) => {
                    let w = Window { is_dragged: false, ..ended.windows[i] };
                    let released = ended.with_window_at(i, w);
                    lemma_binding_frame(ended, released);
                    match w.on_workspace {
                        Some(workspace) => {
                            lemma_arranged_binds(released, workspace, false);
                            lemma_binding_frame(released, released.arranged(workspace, false));
                        },
                        None => {},
                    }
                },
                None => {},
            }
        },
        None => {},
    }
}

/// Every pointer event keeps the monitors and the workspaces fitting
/// together.
pub proof fn lemma_pointer_binds(state: State, event: PointerEvent)
    requires
        state.wf(),
        state.bindings_wf(),
    ensures
        state.pointer_handled(event).bindings_wf(),
{
    let handled = match event.action {
        PointerAction::Motion => state.pointer_moved(event.position),
        PointerAction::ButtonUp => state.button_released(),
        PointerAction::ButtonDown => match event.over_window {
            Some(window) => state.window_focused(window),
            None => state,
        },
    };
    assert(handled.bindings_wf()) by {
        match event.action {
            PointerAction::Motion => {
                lemma_pointer_entered(state, event.position);
                let entered = state.pointer_entered(event.position);
                assert(entered.bindings_wf()) by {
                    match state.workspace_at(event.position) {
                        Some(workspace) => {
                            lemma_workspace_focus_binds(state, workspace);
                        },
                        None => {},
                    }
                }
                let by = event.position.spec_minus(state.old_cursor);
                match entered.gesture {
                    Gesture::Move(gesture) => {
                        lemma_workspace_dragged_binds(entered, gesture, by.dx);
                        lemma_window_dragged_binds(entered, gesture, event.position);
                    },
                    Gesture::Resize(gesture) => {
                        lemma_window_resized_binds(entered, gesture, event.position);
                    },
                    Gesture::Idle => {},
                }
            },
            PointerAction::ButtonUp => {
                lemma_button_released_binds(state);
            },
            PointerAction::ButtonDown => {
                match event.over_window {
                    Some(window) => {
                        lemma_focus_binds(state, Some(window));
                    },
                    None => {},
                }
            },
        }
    }
    lemma_binding_frame(handled, State { old_cursor: event.position, ..handled });
}

/// States with the same monitors and the same identifiers of workspaces
/// have as many workspaces that no monitor shows.
pub proof fn lemma_unbound_count_frame(before: State, after: State, k: int)
    requires
        after.monitors == before.monitors,
        workspace_ids(after.workspaces) == workspace_ids(before.workspaces),
        0 <= k <= before.workspaces.len(),
    ensures
        after.unbound_count(k) == before.unbound_count(k),
    decreases k,
{
    assert(workspace_ids(after.workspaces).len() == after.workspaces.len());
    assert(workspace_ids(before.workspaces).len() == before.workspaces.len());
    if k > 0 {
        lemma_unbound_count_frame(before, after, k - 1);
        assert(workspace_ids(after.workspaces)[k - 1] == after.workspaces[k - 1].id);
        assert(workspace_ids(before.workspaces)[k - 1] == before.workspaces[k - 1].id);
    }
}

/// A new workspace is one more workspace that no monitor shows.
pub proof fn lemma_new_workspace_unbound(state: State)
    requires
        state.wf(),
        state.bindings_wf(),
        state.next_workspace_id < u64::MAX,
    ensures
        state.with_new_workspace().workspaces.len() == state.workspaces.len() + 1,
        state.with_new_workspace().unbound_count((state.workspaces.len() + 1) as int)
            == state.unbound_count(state.workspaces.len() as int) + 1,
{
    let id = state.next_workspace_id;
    let after = state.with_new_workspace();
    let n = state.workspaces.len() as int;
    lemma_prefix_unbound(state, after, n);
    let shown = shown_workspaces(state.monitors);
    shown.index_of_first_ensures(id);
    if shown.contains(id) {
        let m = choose|m: int| 0 <= m < shown.len() && shown[m] == id;
        assert(state.bound_well(m));
        lemma_index_bounds(state, id);
        assert(state.workspaces[state.workspace_index(id).unwrap()].id < state.next_workspace_id);
    }
    assert(after.workspaces[n].id == id);
}

/// Workspaces added behind the first `k` leave the count of those among the
/// first `k` that no monitor shows as it is.
pub proof fn lemma_prefix_unbound(before: State, after: State, k: int)
    requires
        after.monitors == before.monitors,
        0 <= k <= before.workspaces.len() <= after.workspaces.len(),
        forall|i: int|
            0 <= i < before.workspaces.len() ==> (#[trigger] after.workspaces[i]).id
                == before.workspaces[i].id,
    ensures
        after.unbound_count(k) == before.unbound_count(k),
    decreases k,
{
    if k > 0 {
        lemma_prefix_unbound(before, after, k - 1);
        assert(after.workspaces[k - 1].id == before.workspaces[k - 1].id);
    }
}

/// While identifiers are left, `n` new workspaces are `n` more workspaces
/// that no monitor shows.
pub proof fn lemma_new_workspaces_unbound(state: State, n: nat)
    requires
        state.wf(),
        state.bindings_wf(),
        state.next_workspace_id + n <= u64::MAX,
    ensures
        state.with_new_workspaces(n).workspaces.len() == state.workspaces.len() + n,
        state.with_new_workspaces(n).unbound_count((state.workspaces.len() + n) as int)
            == state.unbound_count(state.workspaces.len() as int) + n,
    decreases n,
{
    if n != 0 {
        lemma_new_workspace(state);
        lemma_new_workspace_binds(state);
        lemma_new_workspace_unbound(state);
        lemma_new_workspaces_unbound(state.with_new_workspace(), (n - 1) as nat);
    }
}

/// A monitor that takes a workspace which no monitor showed leaves one
/// workspace less that no monitor shows, among the first `k`, if the
/// workspace is among them.
pub proof fn lemma_taken_unbound(before: State, after: State, workspace: Id, at: int, k: int)
    requires
        before.wf(),
        after.workspaces == before.workspaces,
        shown_workspaces(after.monitors) == shown_workspaces(before.monitors).push(workspace),
        before.is_unbound(workspace),
        before.workspace_index(workspace) == Some(at),
        0 <= k <= before.workspaces.len(),
    ensures
        after.unbound_count(k) == before.unbound_count(k) - if at < k {
            1int
        } else {
            0int
        },
    decreases k,
{
    lemma_index_bounds(before, workspace);
    if k > 0 {
        lemma_taken_unbound(before, after, workspace, at, k - 1);
        let id = before.workspaces[k - 1].id;
        let shown = shown_workspaces(before.monitors);
        let more = shown.push(workspace);
        shown.index_of_first_ensures(id);
        more.index_of_first_ensures(id);
        shown.index_of_first_ensures(workspace);
        lemma_index_bounds(before, workspace);
        crate::invariants::lemma_found_at(before);
        assert(more[shown.len() as int] == workspace);
        assert(after.workspaces[k - 1].id == id);
        assert(before.workspaces[at].id == workspace);
        if id == workspace {
            assert(more.contains(id));
            assert(before.workspace_index(id) == Some(k - 1));
            assert(at == k - 1);
            assert(before.is_unbound(id));
            assert(!after.is_unbound(id));
            assert(after.unbound_count(k) == after.unbound_count(k - 1));
            assert(before.unbound_count(k) == before.unbound_count(k - 1) + 1);
        } else {
            assert(at != k - 1);
            if more.contains(id) {
                let m = choose|m: int| 0 <= m < more.len() && more[m] == id;
                assert(shown[m] == id);
            }
            if shown.contains(id) {
                let m = choose|m: int| 0 <= m < shown.len() && shown[m] == id;
                assert(more[m] == id);
            }
            assert(after.is_unbound(id) == before.is_unbound(id));
            assert(after.unbound_count(k) - after.unbound_count(k - 1) == before.unbound_count(k)
                - before.unbound_count(k - 1));
        }
    }
}

/// A new monitor shows a workspace that no monitor showed before and leaves
/// every other monitor as it was; afterwards the reserve of workspaces that
/// no monitor shows is there. This is stated where an identifier is left
/// for the monitor and for each workspace that is missing.
pub proof fn lemma_monitor_added_keeps_reserve(state: State, zone: Rectangle)
    requires
        state.wf(),
        state.bindings_wf(),
        state.next_monitor_id < u64::MAX,
        state.next_workspace_id + state.missing_workspaces() <= u64::MAX,
    ensures
        state.can_add_monitor(),
        state.monitor_added(zone).monitors.len() == state.monitors.len() + 1,
        forall|m: int|
            0 <= m < state.monitors.len() ==> #[trigger] state.monitor_added(zone).monitors[m]
                == state.monitors[m],
        state.monitor_added(zone).monitors.last().extents == zone,
        !shown_workspaces(state.monitors).contains(
            state.monitor_added(zone).monitors.last().workspace,
        ),
        state.monitor_added(zone).unbound_count(
            state.monitor_added(zone).workspaces.len() as int,
        ) >= state.reserve(),
{
    let n = state.missing_workspaces();
    lemma_new_workspaces(state, n);
    lemma_new_workspaces_bind(state, n);
    lemma_new_workspaces_unbound(state, n);
    let spare = state.with_spare_workspaces();
    let count = spare.workspaces.len() as int;
    assert(spare.unbound_count(count) >= state.reserve() + 1);
    let order = reversed(spare.mru_workspaces);
    lemma_reversed(spare.mru_workspaces);
    lemma_some_unbound(spare, count);
    let free = choose|i: int| 0 <= i < count && spare.is_unbound(spare.workspaces[i].id);
    assert(workspace_ids(spare.workspaces)[free] == spare.workspaces[free].id);
    assert(workspace_ids(spare.workspaces).contains(spare.workspaces[free].id));
    assert(spare.mru_workspaces.contains(spare.workspaces[free].id));
    assert(order.contains(spare.workspaces[free].id));
    lemma_first_unbound_finds(spare, order, 0, spare.workspaces[free].id);
    lemma_first_unbound(spare, order, 0);
    let workspace = spare.unused_workspace().unwrap();
    let monitor = Monitor { id: spare.next_monitor_id, extents: zone, workspace };
    let shown = State {
        monitors: spare.monitors.push(monitor),
        next_monitor_id: (spare.next_monitor_id + 1) as Id,
        ..spare
    };
    assert(shown_workspaces(shown.monitors) =~= shown_workspaces(spare.monitors).push(workspace));
    assert(spare.mru_workspaces.contains(workspace));
    workspace_ids(spare.workspaces).index_of_first_ensures(workspace);
    let at = spare.workspace_index(workspace).unwrap();
    lemma_taken_unbound(spare, shown, workspace, at, count);
    let done = shown.arranged(workspace, false);
    lemma_arranged_binds(shown, workspace, false);
    lemma_arranged_frame(shown, workspace, false);
    lemma_unbound_count_frame(shown, done, count);
    shown_workspaces(spare.monitors).index_of_first_ensures(workspace);
}

/// Where the count of workspaces that no monitor shows is not 0, there is
/// one.
pub proof fn lemma_some_unbound(state: State, k: int)
    requires
        0 <= k <= state.workspaces.len(),
        state.unbound_count(k) > 0,
    ensures
        exists|i: int| 0 <= i < k && state.is_unbound(#[trigger] state.workspaces[i].id),
    decreases k,
{
    if k > 0 {
        if state.is_unbound(state.workspaces[k - 1].id) {
        } else {
            lemma_some_unbound(state, k - 1);
        }
    }
}

/// Where `order` holds a workspace that no monitor shows, from `from` on,
/// `first_unbound` finds one.
pub proof fn lemma_first_unbound_finds(state: State, order: Seq<Id>, from: int, workspace: Id)
    requires
        0 <= from <= order.len(),
        exists|p: int| from <= p < order.len() && order[p] == workspace,
        state.is_unbound(workspace),
    ensures
        state.first_unbound(order, from).is_some(),
    decreases order.len() - from,
{
    if from < order.len() && !state.is_unbound(order[from]) {
        let p = choose|p: int| from <= p < order.len() && order[p] == workspace;
        assert(p != from);
        lemma_first_unbound_finds(state, order, from + 1, workspace);
    }
}

} // verus!
