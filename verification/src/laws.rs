//! What holds of the window manager as a whole: the layout leaves the
//! structure alone, it keeps the active window in view and every window
//! within the monitor, the focus follows the commands, and navigation can be
//! undone.

use crate::animation::start_commands;
use crate::entities::Command;
use crate::entities::Direction;
use crate::entities::Id;
use crate::entities::Window;
use crate::focus::promoted_in;
use crate::geometry::Rectangle;
use crate::layout::scrolled_to;
use crate::layout::window_animation;
use crate::mru_list::lemma_without_facts;
use crate::mru_list::without;
use crate::state::State;
use crate::state::window_ids;
use crate::state::workspace_ids;
use crate::workspace::WorkspaceView;
use crate::workspace::lemma_insert_contains;
use crate::workspace::lemma_insert_fresh;
use crate::workspace::lemma_push_is_insert;
use vstd::prelude::*;

verus! {

/// Whether `after` begins with `before`.
pub open spec fn extends(before: Seq<Command>, after: Seq<Command>) -> bool {
    &&& before.len() <= after.len()
    &&& forall|i: int| 0 <= i < before.len() ==> after[i] == before[i]
}

/// Whether `after` is the window `before` with, at most, other positions
/// and another height.
pub open spec fn same_surface(before: Window, after: Window) -> bool {
    &&& after.id == before.id
    &&& after.on_workspace == before.on_workspace
    &&& after.info == before.info
    &&& after.is_dragged == before.is_dragged
    &&& after.size.width == before.size.width
}

/// Whether `after` is the workspace `before` with, at most, another scroll
/// offset.
pub open spec fn same_listing(before: WorkspaceView, after: WorkspaceView) -> bool {
    &&& after.id == before.id
    &&& after.windows == before.windows
    &&& after.mru_windows == before.mru_windows
}

impl State {
    /// Whether `after` differs from this state by layout alone: positions,
    /// heights and scroll offsets, animations and further commands.
    pub open spec fn layout_frame(self, after: State) -> bool {
        &&& after.monitors == self.monitors
        &&& after.mru_windows == self.mru_windows
        &&& after.mru_workspaces == self.mru_workspaces
        &&& after.gesture == self.gesture
        &&& after.old_cursor == self.old_cursor
        &&& after.next_monitor_id == self.next_monitor_id
        &&& after.next_window_id == self.next_window_id
        &&& after.next_workspace_id == self.next_workspace_id
        &&& after.extra_workspaces == self.extra_workspaces
        &&& after.keyboard_layouts == self.keyboard_layouts
        &&& after.keyboard_layout == self.keyboard_layout
        &&& after.windows.len() == self.windows.len()
        &&& forall|i: int|
            0 <= i < self.windows.len() ==> same_surface(self.windows[i], #[trigger] after.windows[i])
        &&& after.workspaces.len() == self.workspaces.len()
        &&& forall|i: int|
            0 <= i < self.workspaces.len() ==> same_listing(
                self.workspaces[i],
                #[trigger] after.workspaces[i],
            )
        &&& extends(self.commands, after.commands)
    }

    /// Whether `after` differs from this state by committed positions
    /// alone.
    pub open spec fn commit_frame(self, after: State) -> bool {
        &&& self.layout_frame(after)
        &&& after.workspaces == self.workspaces
        &&& forall|i: int|
            0 <= i < self.windows.len() ==> (#[trigger] after.windows[i]).pending()
                == self.windows[i].pending()
    }
}

/// States that differ by layout alone find the same entities under the same
/// identifiers.
pub proof fn lemma_frame_lookups(before: State, after: State)
    requires
        before.layout_frame(after),
    ensures
        window_ids(after.windows) == window_ids(before.windows),
        workspace_ids(after.workspaces) == workspace_ids(before.workspaces),
        forall|id: Id| after.window_index(id) == before.window_index(id),
        forall|id: Id| after.workspace_index(id) == before.workspace_index(id),
        forall|id: Id| after.is_tiled(id) == before.is_tiled(id),
        forall|id: Id| after.workspace_of(id) == before.workspace_of(id),
        forall|id: Id|
            after.monitor_index_by_workspace(id) == before.monitor_index_by_workspace(id),
        forall|id: Id| after.held_by_move(id) == before.held_by_move(id),
{
    assert(window_ids(after.windows) =~= window_ids(before.windows));
    assert(workspace_ids(after.workspaces) =~= workspace_ids(before.workspaces));
    assert forall|id: Id| after.is_tiled(id) == before.is_tiled(id) by {
        window_ids(before.windows).index_of_first_ensures(id);
    }
    assert forall|id: Id| after.workspace_of(id) == before.workspace_of(id) by {
        window_ids(before.windows).index_of_first_ensures(id);
    }
}

/// A layout after a layout is a layout.
pub proof fn lemma_layout_frame_trans(a: State, b: State, c: State)
    requires
        a.layout_frame(b),
        b.layout_frame(c),
    ensures
        a.layout_frame(c),
{
    assert forall|i: int| 0 <= i < a.windows.len() implies same_surface(
        a.windows[i],
        #[trigger] c.windows[i],
    ) by {
        assert(same_surface(a.windows[i], b.windows[i]));
    }
    assert forall|i: int| 0 <= i < a.workspaces.len() implies same_listing(
        a.workspaces[i],
        #[trigger] c.workspaces[i],
    ) by {
        assert(same_listing(a.workspaces[i], b.workspaces[i]));
    }
}

/// A commit after a commit is a commit.
pub proof fn lemma_commit_frame_trans(a: State, b: State, c: State)
    requires
        a.commit_frame(b),
        b.commit_frame(c),
    ensures
        a.commit_frame(c),
{
    lemma_layout_frame_trans(a, b, c);
    assert forall|i: int| 0 <= i < a.windows.len() implies (#[trigger] c.windows[i]).pending()
        == a.windows[i].pending() by {
        assert(b.windows[i].pending() == a.windows[i].pending());
    }
}

/// Committing one window changes committed positions alone.
pub proof fn lemma_commit_window_frame(state: State, id: Id, scroll_left: i32, force: bool)
    ensures
        state.commit_frame(state.with_committed_window(id, scroll_left, force)),
{
    let after = state.with_committed_window(id, scroll_left, force);
    window_ids(state.windows).index_of_first_ensures(id);
    match state.window_index(id) {
        Some(i) => {
            let w = state.windows[i];
            let extents = w.spec_screen_extents(scroll_left);
            if !w.spec_is_tiled() || (!force && state.held_by_move(id)) {
            } else if extents.size != w.rendered.size {
            } else if extents.top_left != w.rendered.top_left {
                let animation = window_animation(id, w.rendered.top_left, extents.top_left);
                assert(extends(
                    state.commands,
                    state.commands + start_commands(state.animations, animation),
                ));
                assert(after.windows == state.windows.update(i, Window { rendered: extents, ..w }));
            } else {
            }
        },
        None => {},
    }
}

/// Committing windows changes committed positions alone.
pub proof fn lemma_commit_windows_frame(
    state: State,
    windows: Seq<Id>,
    scroll_left: i32,
    force: bool,
    k: int,
)
    ensures
        state.commit_frame(state.with_committed_windows(windows, scroll_left, force, k)),
    decreases k,
{
    if k > 0 {
        let before = state.with_committed_windows(windows, scroll_left, force, k - 1);
        lemma_commit_windows_frame(state, windows, scroll_left, force, k - 1);
        lemma_commit_window_frame(before, windows[k - 1], scroll_left, force);
        lemma_commit_frame_trans(
            state,
            before,
            before.with_committed_window(windows[k - 1], scroll_left, force),
        );
    }
}

/// Laying out a workspace changes the layout alone.
pub proof fn lemma_arranged_frame(state: State, workspace_id: Id, force: bool)
    ensures
        state.layout_frame(state.arranged(workspace_id, force)),
{
    workspace_ids(state.workspaces).index_of_first_ensures(workspace_id);
    match (state.workspace_index(workspace_id), state.monitor_by_workspace(workspace_id)) {
        (Some(index), Some(monitor)) => {
            let packed = state.with_cached_positions(workspace_id);
            assert(state.layout_frame(packed));
            let scrolled = match packed.workspaces[index].active_window() {
                Some(active) => match packed.window(active) {
                    Some(window) => if window.spec_is_tiled() {
                        packed.with_window_visible_on(index, monitor.extents, window)
                    } else {
                        packed
                    },
                    None => packed,
                },
                None => packed,
            };
            assert(packed.layout_frame(scrolled));
            lemma_layout_frame_trans(state, packed, scrolled);
            lemma_frame_lookups(state, scrolled);
            let done = scrolled.with_window_positions(workspace_id, force);
            match scrolled.workspace(workspace_id) {
                Some(workspace) => {
                    lemma_commit_windows_frame(
                        scrolled,
                        workspace.windows,
                        workspace.scroll_left,
                        force,
                        workspace.windows.len() as int,
                    );
                },
                None => {},
            }
            lemma_layout_frame_trans(state, scrolled, done);
        },
        _ => {},
    }
}

/// Laying out workspaces one after the other changes the layout alone.
pub proof fn lemma_arranged_upto_frame(state: State, order: Seq<Id>, k: int)
    ensures
        state.layout_frame(state.arranged_upto(order, k)),
    decreases k,
{
    if k > 0 {
        let before = state.arranged_upto(order, k - 1);
        lemma_arranged_upto_frame(state, order, k - 1);
        lemma_arranged_frame(before, order[k - 1], false);
        lemma_layout_frame_trans(state, before, before.arranged(order[k - 1], false));
    }
}

/// After a workspace was laid out, each of its tiled windows is no higher
/// than the zone of the monitor and no higher than its own limit.
pub proof fn lemma_height_within_limits(state: State, workspace_id: Id, force: bool, i: int)
    requires
        state.workspace(workspace_id).is_some(),
        state.monitor_by_workspace(workspace_id).is_some(),
        0 <= i < state.windows.len(),
        state.windows[i].spec_is_tiled(),
        state.workspace(workspace_id).unwrap().has_window(state.windows[i].id),
    ensures
        state.arranged(workspace_id, force).windows[i].size.height
            <= state.monitor_by_workspace(workspace_id).unwrap().extents.size.height,
        state.arranged(workspace_id, force).windows[i].size.height
            <= state.windows[i].info.max_height,
        state.arranged(workspace_id, force).windows[i].info == state.windows[i].info,
{
    let index = state.workspace_index(workspace_id).unwrap();
    let monitor = state.monitor_by_workspace(workspace_id).unwrap();
    let workspace = state.workspaces[index];
    workspace_ids(state.workspaces).index_of_first_ensures(workspace_id);
    workspace.windows.index_of_first_ensures(state.windows[i].id);
    let packed = state.with_cached_positions(workspace_id);
    assert(packed.windows[i] == state.placed_window(workspace, monitor.extents, i));
    assert(state.layout_frame(packed));
    let scrolled = match packed.workspaces[index].active_window() {
        Some(active) => match packed.window(active) {
            Some(window) => if window.spec_is_tiled() {
                packed.with_window_visible_on(index, monitor.extents, window)
            } else {
                packed
            },
            None => packed,
        },
        None => packed,
    };
    assert(scrolled.windows == packed.windows);
    assert(packed.layout_frame(scrolled));
    lemma_layout_frame_trans(state, packed, scrolled);
    lemma_frame_lookups(state, scrolled);
    match scrolled.workspace(workspace_id) {
        Some(listed) => {
            lemma_commit_windows_frame(
                scrolled,
                listed.windows,
                listed.scroll_left,
                force,
                listed.windows.len() as int,
            );
        },
        None => {},
    }
    let done = state.arranged(workspace_id, force);
    assert(done.windows[i].pending() == scrolled.windows[i].pending());
}

/// The scroll offset that the layout picks shows the whole of a window that
/// is no wider than the zone: its left edge is not left of the zone and its
/// right edge not right of it. This is stated where the coordinates
/// involved are within the range of `i32`.
pub proof fn lemma_scrolled_to_shows(scroll_left: i32, zone: Rectangle, left: i32, width: i32)
    requires
        width <= zone.size.width,
        i32::MIN <= left - zone.top_left.x <= i32::MAX,
        i32::MIN <= left + width - zone.exact_right() <= i32::MAX,
    ensures
        scrolled_to(scroll_left, zone, left, width) <= left - zone.top_left.x,
        left + width - scrolled_to(scroll_left, zone, left, width) <= zone.exact_right(),
{
}

/// After a workspace was laid out, its window used most recently, if it is
/// tiled, lies within the zone of the monitor: the viewport begins at or
/// before its left edge and ends at or after its right edge. This is stated
/// for a window that is no wider than the zone, and where the coordinates
/// involved are within the range of `i32`.
pub proof fn lemma_active_window_in_view(
    state: State,
    workspace_id: Id,
    force: bool,
    index: int,
    i: int,
)
    requires
        state.workspace_index(workspace_id) == Some(index),
        state.monitor_by_workspace(workspace_id).is_some(),
        state.workspaces[index].active_window().is_some(),
        state.window_index(state.workspaces[index].active_window().unwrap()) == Some(i),
        state.windows[i].spec_is_tiled(),
        state.workspaces[index].has_window(state.windows[i].id),
        ({
            let zone = state.monitor_by_workspace(workspace_id).unwrap().extents;
            let workspace = state.workspaces[index];
            let left = state.packed_left(
                workspace.windows,
                zone.top_left.x,
                workspace.windows.index_of_first(state.windows[i].id).unwrap(),
            );
            let width = state.windows[i].size.width;
            &&& width <= zone.size.width
            &&& i32::MIN <= left - zone.top_left.x <= i32::MAX
            &&& i32::MIN <= left + width - zone.exact_right() <= i32::MAX
        }),
    ensures
        ({
            let zone = state.monitor_by_workspace(workspace_id).unwrap().extents;
            let after = state.arranged(workspace_id, force);
            let window = after.windows[i];
            let scroll_left = after.workspaces[index].scroll_left;
            &&& scroll_left <= window.x - zone.top_left.x
            &&& window.x + window.size.width - scroll_left <= zone.exact_right()
        }),
{
    let monitor = state.monitor_by_workspace(workspace_id).unwrap();
    let zone = monitor.extents;
    let workspace = state.workspaces[index];
    let active = workspace.active_window().unwrap();
    workspace_ids(state.workspaces).index_of_first_ensures(workspace_id);
    window_ids(state.windows).index_of_first_ensures(active);
    workspace.windows.index_of_first_ensures(active);
    let k = workspace.windows.index_of_first(active).unwrap();
    let packed = state.with_cached_positions(workspace_id);
    assert(packed.windows[i] == state.placed_window(workspace, zone, i));
    assert(state.layout_frame(packed));
    lemma_frame_lookups(state, packed);
    assert(packed.window(active) == Some(packed.windows[i]));
    let window = packed.windows[i];
    let scrolled = packed.with_window_visible_on(index, zone, window);
    lemma_scrolled_to_shows(workspace.scroll_left, zone, window.x, window.size.width);
    assert(packed.layout_frame(scrolled));
    lemma_layout_frame_trans(state, packed, scrolled);
    lemma_frame_lookups(state, scrolled);
    match scrolled.workspace(workspace_id) {
        Some(listed) => {
            lemma_commit_windows_frame(
                scrolled,
                listed.windows,
                listed.scroll_left,
                force,
                listed.windows.len() as int,
            );
        },
        None => {},
    }
    let done = state.arranged(workspace_id, force);
    assert(done.windows[i].pending() == scrolled.windows[i].pending());
    assert(done.workspaces == scrolled.workspaces);
}

/// Moving an element of a list without repetitions to its end keeps the
/// elements, each of them once, and makes the element the last one.
pub proof fn lemma_promoted_in(list: Seq<Id>, x: Id)
    requires
        list.no_duplicates(),
    ensures
        promoted_in(list, x).no_duplicates(),
        promoted_in(list, x).len() == list.len(),
        forall|y: Id| promoted_in(list, x).contains(y) == list.contains(y),
        list.contains(x) ==> promoted_in(list, x).last() == x,
{
    if list.contains(x) {
        lemma_without_facts(list, x);
        let rest = without(list, x);
        let end = rest.len() as int;
        lemma_insert_fresh(rest, end, x);
        lemma_push_is_insert(rest, x);
        assert forall|y: Id| promoted_in(list, x).contains(y) == list.contains(y) by {
            lemma_insert_contains(rest, end, x, y);
        }
    }
}

impl State {
    /// Whether the workspace at `index` lists `window` consistently: the
    /// window knows that it is on that workspace, and it takes part in the
    /// order of use of all windows.
    pub open spec fn lists(self, index: int, window: Id) -> bool {
        &&& self.workspace_of(window) == Some(self.workspaces[index].id)
        &&& self.mru_windows.contains(window)
    }

    /// Whether the workspace `workspace` exists and lists `window`.
    pub open spec fn knows(self, workspace: Id, window: Id) -> bool {
        match self.workspace_index(workspace) {
            Some(i) => self.workspaces[i].windows.contains(window),
            None => false,
        }
    }

    /// Whether the window at `index`, if it says that it is on a workspace,
    /// is listed there.
    pub open spec fn placed_consistently(self, index: int) -> bool {
        match self.windows[index].on_workspace {
            Some(workspace) => self.knows(workspace, self.windows[index].id),
            None => true,
        }
    }

    /// Whether the cross-references of the state are consistent: no
    /// identifier and no entry of an order of use occurs twice, and the
    /// identifiers still to come are new; every workspace holds the same
    /// windows in both its orders; a window is listed by the workspace that
    /// it says it is on and by no other, and every window listed takes part
    /// in the order of use of all windows.
    pub open spec fn wf(self) -> bool {
        &&& self.mru_windows.no_duplicates()
        &&& self.mru_workspaces.no_duplicates()
        &&& window_ids(self.windows).no_duplicates()
        &&& workspace_ids(self.workspaces).no_duplicates()
        &&& forall|i: int|
            0 <= i < self.workspaces.len() ==> (#[trigger] self.workspaces[i]).wf()
        &&& forall|i: int, w: Id|
            0 <= i < self.workspaces.len() && #[trigger] self.workspaces[i].windows.contains(w)
                ==> self.lists(i, w)
        &&& forall|j: int| 0 <= j < self.windows.len() ==> #[trigger] self.placed_consistently(j)
        &&& forall|j: int|
            0 <= j < self.windows.len() ==> (#[trigger] self.windows[j]).id < self.next_window_id
        &&& forall|i: int|
            0 <= i < self.workspaces.len() ==> (#[trigger] self.workspaces[i]).id
                < self.next_workspace_id
    }

    /// Whether `after` has the windows and workspaces of this state, each
    /// window on the same workspace and each workspace with the same window
    /// sequence, and the same windows in the order of use.
    pub open spec fn focus_frame(self, after: State) -> bool {
        &&& after.windows.len() == self.windows.len()
        &&& forall|i: int|
            0 <= i < self.windows.len() ==> {
                &&& (#[trigger] after.windows[i]).id == self.windows[i].id
                &&& after.windows[i].on_workspace == self.windows[i].on_workspace
            }
        &&& after.workspaces.len() == self.workspaces.len()
        &&& forall|i: int|
            0 <= i < self.workspaces.len() ==> {
                &&& (#[trigger] after.workspaces[i]).id == self.workspaces[i].id
                &&& after.workspaces[i].windows == self.workspaces[i].windows
                &&& after.workspaces[i].wf()
            }
        &&& after.mru_windows.no_duplicates()
        &&& after.mru_workspaces.no_duplicates()
        &&& forall|w: Id| after.mru_windows.contains(w) == self.mru_windows.contains(w)
        &&& after.next_window_id == self.next_window_id
        &&& after.next_workspace_id == self.next_workspace_id
    }
}

/// An index found for an identifier is the index of an entity with that
/// identifier.
pub proof fn lemma_index_bounds(state: State, id: Id)
    ensures
        match state.window_index(id) {
            Some(i) => 0 <= i < state.windows.len() && state.windows[i].id == id,
            None => forall|j: int| 0 <= j < state.windows.len() ==> state.windows[j].id != id,
        },
        match state.workspace_index(id) {
            Some(i) => 0 <= i < state.workspaces.len() && state.workspaces[i].id == id,
            None => forall|j: int|
                0 <= j < state.workspaces.len() ==> state.workspaces[j].id != id,
        },
{
    window_ids(state.windows).index_of_first_ensures(id);
    workspace_ids(state.workspaces).index_of_first_ensures(id);
    if state.window_index(id).is_none() {
        assert forall|j: int| 0 <= j < state.windows.len() implies state.windows[j].id != id by {
            assert(window_ids(state.windows)[j] == state.windows[j].id);
        }
    }
    if state.workspace_index(id).is_none() {
        assert forall|j: int| 0 <= j < state.workspaces.len() implies state.workspaces[j].id
            != id by {
            assert(workspace_ids(state.workspaces)[j] == state.workspaces[j].id);
        }
    }
}

/// A state with the structure of a consistent state is consistent.
pub proof fn lemma_frame_keeps_wf(before: State, after: State)
    requires
        before.wf(),
        before.focus_frame(after),
    ensures
        after.wf(),
{
    assert(window_ids(after.windows) =~= window_ids(before.windows));
    assert(workspace_ids(after.workspaces) =~= workspace_ids(before.workspaces));
    assert forall|id: Id| after.workspace_of(id) == before.workspace_of(id) by {
        window_ids(before.windows).index_of_first_ensures(id);
    }
    assert forall|i: int, w: Id|
        0 <= i < after.workspaces.len() && #[trigger] after.workspaces[i].windows.contains(
            w,
        ) implies after.lists(i, w) by {
        assert(before.workspaces[i].windows.contains(w));
        assert(before.lists(i, w));
    }
    assert forall|j: int| 0 <= j < after.windows.len() implies #[trigger] after.placed_consistently(
        j,
    ) by {
        assert(before.placed_consistently(j));
        match before.windows[j].on_workspace {
            Some(workspace) => {
                workspace_ids(before.workspaces).index_of_first_ensures(workspace);
            },
            None => {},
        }
    }
    assert forall|j: int| 0 <= j < after.windows.len() implies (#[trigger] after.windows[j]).id
        < after.next_window_id by {
        assert(before.windows[j].id < before.next_window_id);
    }
    assert forall|i: int| 0 <= i < after.workspaces.len() implies (
    #[trigger] after.workspaces[i]).id < after.next_workspace_id by {
        assert(before.workspaces[i].id < before.next_workspace_id);
    }
}

/// The structure that two steps keep is kept by both together.
pub proof fn lemma_focus_frame_trans(a: State, b: State, c: State)
    requires
        a.focus_frame(b),
        b.focus_frame(c),
    ensures
        a.focus_frame(c),
{
    assert forall|i: int| 0 <= i < a.windows.len() implies {
        &&& (#[trigger] c.windows[i]).id == a.windows[i].id
        &&& c.windows[i].on_workspace == a.windows[i].on_workspace
    } by {
        assert(b.windows[i].id == a.windows[i].id);
    }
    assert forall|i: int| 0 <= i < a.workspaces.len() implies {
        &&& (#[trigger] c.workspaces[i]).id == a.workspaces[i].id
        &&& c.workspaces[i].windows == a.workspaces[i].windows
        &&& c.workspaces[i].wf()
    } by {
        assert(b.workspaces[i].id == a.workspaces[i].id);
    }
    assert forall|w: Id| c.mru_windows.contains(w) == a.mru_windows.contains(w) by {
        assert(b.mru_windows.contains(w) == a.mru_windows.contains(w));
    }
}

/// A layout keeps the cross-references of a state consistent.
pub proof fn lemma_layout_keeps_wf(before: State, after: State)
    requires
        before.wf(),
        before.layout_frame(after),
    ensures
        after.wf(),
        before.focus_frame(after),
{
    assert forall|i: int| 0 <= i < before.windows.len() implies {
        &&& (#[trigger] after.windows[i]).id == before.windows[i].id
        &&& after.windows[i].on_workspace == before.windows[i].on_workspace
    } by {
        assert(same_surface(before.windows[i], after.windows[i]));
    }
    assert forall|i: int| 0 <= i < before.workspaces.len() implies {
        &&& (#[trigger] after.workspaces[i]).id == before.workspaces[i].id
        &&& after.workspaces[i].windows == before.workspaces[i].windows
        &&& after.workspaces[i].wf()
    } by {
        assert(same_listing(before.workspaces[i], after.workspaces[i]));
        assert(before.workspaces[i].wf());
    }
    lemma_frame_keeps_wf(before, after);
}

/// Focusing a workspace of a consistent state gives a consistent state with
/// the same windows and window sequences; the window used most recently on
/// the workspace becomes the active window, and the first command issued
/// gives it the focus.
pub proof fn lemma_workspace_focused(state: State, workspace: Id, index: int)
    requires
        state.wf(),
        state.workspace_index(workspace) == Some(index),
    ensures
        state.workspace_focused(workspace).wf(),
        state.focus_frame(state.workspace_focused(workspace)),
        extends(state.commands, state.workspace_focused(workspace).commands),
        state.workspace_focused(workspace).commands.len() > state.commands.len(),
        match state.workspaces[index].active_window() {
            Some(window) => {
                &&& state.workspace_focused(workspace).active_window() == Some(window)
                &&& state.workspace_focused(workspace).commands[state.commands.len() as int] == (
                Command::FocusWindow { window })
            },
            None => state.workspace_focused(workspace).commands[state.commands.len() as int]
                == Command::Blur,
        },
{
    workspace_ids(state.workspaces).index_of_first_ensures(workspace);
    let bound = state.rebound(workspace);
    let active = State {
        mru_workspaces: promoted_in(bound.mru_workspaces, workspace),
        ..bound
    };
    lemma_promoted_in(state.mru_workspaces, workspace);
    let focused = match active.workspaces[index].active_window() {
        Some(window) => State {
            mru_windows: promoted_in(active.mru_windows, window),
            ..active
        }.with_command(Command::FocusWindow { window }),
        None => active.with_command(Command::Blur),
    };
    match state.workspaces[index].active_window() {
        Some(window) => {
            lemma_promoted_in(state.mru_windows, window);
            let listed = state.workspaces[index];
            assert(listed.wf());
            assert(listed.mru_windows.contains(window)) by {
                assert(listed.mru_windows[listed.mru_windows.len() - 1] == window);
            }
            assert(listed.windows.contains(window));
            assert(state.lists(index, window));
        },
        None => {},
    }
    assert(state.focus_frame(focused)) by {
        assert forall|i: int| 0 <= i < state.workspaces.len() implies {
            &&& (#[trigger] focused.workspaces[i]).id == state.workspaces[i].id
            &&& focused.workspaces[i].windows == state.workspaces[i].windows
            &&& focused.workspaces[i].wf()
        } by {
            assert(state.workspaces[i].wf());
        }
    }
    lemma_frame_keeps_wf(state, focused);
    let done = focused.arranged(workspace, false);
    lemma_arranged_frame(focused, workspace, false);
    lemma_layout_keeps_wf(focused, done);
    lemma_focus_frame_trans(state, focused, done);
    assert(done.commands[state.commands.len() as int] == focused.commands[state.commands.len() as int]);
}

/// Making a window the one used most recently keeps a consistent state
/// consistent, with the same windows and window sequences.
pub proof fn lemma_activated(state: State, window: Id)
    requires
        state.wf(),
    ensures
        state.activated(window).wf(),
        state.focus_frame(state.activated(window)),
        state.activated(window).commands == state.commands,
{
    lemma_promoted_in(state.mru_windows, window);
    let active = state.activated(window);
    lemma_index_bounds(state, window);
    match state.workspace_of(window) {
        Some(workspace) => {
            lemma_index_bounds(state, workspace);
        },
        None => {},
    }
    assert(state.focus_frame(active)) by {
        assert forall|i: int| 0 <= i < state.workspaces.len() implies {
            &&& (#[trigger] active.workspaces[i]).id == state.workspaces[i].id
            &&& active.workspaces[i].windows == state.workspaces[i].windows
            &&& active.workspaces[i].wf()
        } by {
            assert(state.workspaces[i].wf());
            state.workspaces[i].lemma_promoted_wf(window);
        }
    }
    lemma_frame_keeps_wf(state, active);
}

/// Focusing a window, or taking the focus from every window, keeps a
/// consistent state consistent, with the same windows and window sequences.
pub proof fn lemma_focus_keeps_wf(state: State, window: Option<Id>)
    requires
        state.wf(),
    ensures
        state.focus_set(window).wf(),
        state.focus_frame(state.focus_set(window)),
{
    match window {
        Some(window) => {
            window_ids(state.windows).index_of_first_ensures(window);
            match state.window(window) {
                Some(w) => {
                    lemma_activated(state, window);
                    let active = state.activated(window);
                    assert(workspace_ids(active.workspaces) =~= workspace_ids(state.workspaces));
                    match w.on_workspace {
                        Some(workspace) => match state.workspace_index(workspace) {
                            Some(index) => {
                                lemma_workspace_focused(active, workspace, index);
                                lemma_focus_frame_trans(
                                    state,
                                    active,
                                    active.workspace_focused(workspace),
                                );
                            },
                            None => {
                                let done = active.with_command(Command::FocusWindow { window });
                                assert(active.focus_frame(done));
                                lemma_frame_keeps_wf(active, done);
                                lemma_focus_frame_trans(state, active, done);
                            },
                        },
                        None => {
                            let done = active.with_command(Command::FocusWindow { window });
                            assert(active.focus_frame(done));
                            lemma_frame_keeps_wf(active, done);
                            lemma_focus_frame_trans(state, active, done);
                        },
                    }
                },
                None => {
                    lemma_focus_frame_refl(state);
                },
            }
        },
        None => {
            let done = state.with_command(Command::Blur);
            lemma_focus_frame_refl(state);
            assert(state.focus_frame(done));
            lemma_frame_keeps_wf(state, done);
        },
    }
}

/// A consistent state has its own structure.
pub proof fn lemma_focus_frame_refl(state: State)
    requires
        state.wf(),
    ensures
        state.focus_frame(state),
{
    assert forall|i: int| 0 <= i < state.workspaces.len() implies {
        &&& (#[trigger] state.workspaces[i]).id == state.workspaces[i].id
        &&& state.workspaces[i].windows == state.workspaces[i].windows
        &&& state.workspaces[i].wf()
    } by {
    }
}

/// Focusing a window that a workspace of a consistent state lists gives a
/// consistent state with the same windows and window sequences; the window
/// is the active window, and the first command issued gives it the focus.
pub proof fn lemma_focus_follows(state: State, window: Id, index: int)
    requires
        state.wf(),
        0 <= index < state.workspaces.len(),
        state.workspaces[index].has_window(window),
    ensures
        state.window_focused(window).wf(),
        state.focus_frame(state.window_focused(window)),
        state.window_focused(window).active_window() == Some(window),
        state.window_focused(window).commands.len() > state.commands.len(),
        state.window_focused(window).commands[state.commands.len() as int] == (
        Command::FocusWindow { window }),
{
    let listed = state.workspaces[index];
    let workspace = listed.id;
    assert(state.lists(index, window));
    window_ids(state.windows).index_of_first_ensures(window);
    workspace_ids(state.workspaces).index_of_first_ensures(workspace);
    assert(workspace_ids(state.workspaces)[index] == workspace);
    let found = state.workspace_index(workspace).unwrap();
    assert(found == index) by {
        assert(workspace_ids(state.workspaces)[found] == workspace_ids(state.workspaces)[index]);
    }
    lemma_promoted_in(state.mru_windows, window);
    listed.lemma_promoted_wf(window);
    lemma_activated(state, window);
    let active = state.activated(window);
    assert(workspace_ids(active.workspaces) =~= workspace_ids(state.workspaces));
    lemma_workspace_focused(active, workspace, index);
    lemma_focus_frame_trans(state, active, active.workspace_focused(workspace));
}

/// Navigation can be undone: where the active window has a neighbour on its
/// left, going left and then right again leaves the same window active.
pub proof fn lemma_navigation_reversible(state: State, index: int)
    requires
        state.wf(),
        0 <= index < state.workspaces.len(),
        state.active_window().is_some(),
        state.workspaces[index].has_window(state.active_window().unwrap()),
        state.workspaces[index].neighbor(state.active_window().unwrap(), Direction::Left)
            .is_some(),
    ensures
        state.navigated(Direction::Left).navigated(Direction::Right).active_window()
            == state.active_window(),
{
    let active = state.active_window().unwrap();
    let listed = state.workspaces[index];
    let workspace = listed.id;
    let left = listed.neighbor(active, Direction::Left).unwrap();
    listed.windows.index_of_first_ensures(active);
    let k = listed.windows.index_of_first(active).unwrap();
    assert(left == listed.windows[k - 1]);
    assert(listed.windows.contains(left));
    assert(state.lists(index, active));
    assert(state.lists(index, left));
    workspace_ids(state.workspaces).index_of_first_ensures(workspace);
    assert(workspace_ids(state.workspaces)[index] == workspace);
    assert(state.workspace_index(workspace) == Some(index)) by {
        let found = state.workspace_index(workspace).unwrap();
        assert(workspace_ids(state.workspaces)[found] == workspace_ids(state.workspaces)[index]);
    }
    assert(state.tiled_neighbor(active, Direction::Left) == Some(left));
    let there = state.navigated(Direction::Left);
    assert(there == state.window_focused(left));
    lemma_focus_follows(state, left, index);
    let moved = there.workspaces[index];
    assert(moved.windows == listed.windows);
    assert(moved.id == workspace);
    assert(there.lists(index, left));
    assert(there.lists(index, active));
    assert(workspace_ids(there.workspaces) =~= workspace_ids(state.workspaces));
    listed.windows.index_of_first_ensures(left);
    assert(listed.windows.index_of_first(left) == Some(k - 1)) by {
        let found = listed.windows.index_of_first(left).unwrap();
        assert(listed.windows[found] == listed.windows[k - 1]);
    }
    assert(moved.neighbor(left, Direction::Right) == Some(active));
    assert(there.tiled_neighbor(left, Direction::Right) == Some(active));
    assert(there.navigated(Direction::Right) == there.window_focused(active));
    lemma_focus_follows(there, active, index);
}

} // verus!
