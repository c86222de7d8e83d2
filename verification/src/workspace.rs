//! A workspace: the windows of one horizontal strip in their visual order,
//! the same windows in order of use, and the scroll offset of the viewport.

use crate::entities::Direction;
use crate::entities::Id;
use crate::entities::IdGenerator;
use crate::mru_list::MruList;
use crate::mru_list::lemma_without_absent;
use crate::mru_list::lemma_without_facts;
use crate::mru_list::without;
use vstd::prelude::*;

verus! {

/// `s` with the elements at `i` and `j` exchanged.
pub open spec fn swapped(s: Seq<Id>, i: int, j: int) -> Seq<Id> {
    s.update(i, s[j]).update(j, s[i])
}

/// The smaller of two lengths.
pub open spec fn at_most(index: int, len: int) -> int {
    if index < len {
        index
    } else {
        len
    }
}

/// What a sequence holds after an insertion.
pub proof fn lemma_insert_contains(s: Seq<Id>, i: int, x: Id, y: Id)
    requires
        0 <= i <= s.len(),
    ensures
        s.insert(i, x).contains(y) <==> (y == x || s.contains(y)),
{
    let t = s.insert(i, x);
    assert(t[i] == x);
    if t.contains(y) {
        let a = choose|a: int| 0 <= a < t.len() && t[a] == y;
        if a < i {
            assert(s[a] == y);
        } else if a > i {
            assert(s[a - 1] == y);
        }
    }
    if s.contains(y) {
        let a = choose|a: int| 0 <= a < s.len() && s[a] == y;
        if a < i {
            assert(t[a] == y);
        } else {
            assert(t[a + 1] == y);
        }
    }
}

/// Inserting an element that is not there keeps a sequence free of
/// repetitions, and taking it out again gives back the sequence.
pub proof fn lemma_insert_fresh(s: Seq<Id>, i: int, x: Id)
    requires
        s.no_duplicates(),
        !s.contains(x),
        0 <= i <= s.len(),
    ensures
        s.insert(i, x).no_duplicates(),
        s.insert(i, x).contains(x),
        without(s.insert(i, x), x) == s,
        s.insert(i, x).index_of_first(x) == Some(i),
{
    let t = s.insert(i, x);
    assert forall|a: int, b: int| 0 <= a < t.len() && 0 <= b < t.len() && a != b implies t[a]
        != t[b] by {
        let sa = if a < i {
            a
        } else {
            a - 1
        };
        let sb = if b < i {
            b
        } else {
            b - 1
        };
        if a == i {
            assert(t[b] == s[sb]);
            assert(s.contains(s[sb]));
        } else if b == i {
            assert(t[a] == s[sa]);
            assert(s.contains(s[sa]));
        } else {
            assert(t[a] == s[sa] && t[b] == s[sb]);
        }
    }
    assert(t[i] == x);
    lemma_without_facts(t, x);
    assert(t.remove(i) =~= s);
    t.index_of_first_ensures(x);
}

/// Two sequences with the same elements have the same elements after the
/// same element went into both.
pub proof fn lemma_same_elements_after_insert(a: Seq<Id>, b: Seq<Id>, i: int, j: int, x: Id)
    requires
        0 <= i <= a.len(),
        0 <= j <= b.len(),
        forall|w: Id| a.contains(w) <==> b.contains(w),
    ensures
        forall|w: Id| a.insert(i, x).contains(w) <==> b.insert(j, x).contains(w),
{
    assert forall|w: Id| a.insert(i, x).contains(w) <==> b.insert(j, x).contains(w) by {
        lemma_insert_contains(a, i, x, w);
        lemma_insert_contains(b, j, x, w);
    }
}

/// Appending an element is inserting it at the end.
pub proof fn lemma_push_is_insert(s: Seq<Id>, x: Id)
    ensures
        s.push(x) == s.insert(s.len() as int, x),
{
    assert(s.push(x) =~= s.insert(s.len() as int, x));
}

/// Exchanging two elements keeps a sequence free of repetitions and keeps
/// its elements.
pub proof fn lemma_swapped(s: Seq<Id>, i: int, j: int)
    requires
        s.no_duplicates(),
        0 <= i < s.len(),
        0 <= j < s.len(),
    ensures
        swapped(s, i, j).no_duplicates(),
        swapped(s, i, j).len() == s.len(),
        forall|y: Id| #[trigger] swapped(s, i, j).contains(y) <==> s.contains(y),
        swapped(swapped(s, i, j), i, j) == s,
{
    let t = swapped(s, i, j);
    let other = |a: int|
        if a == i {
            j
        } else if a == j {
            i
        } else {
            a
        };
    assert forall|a: int| 0 <= a < t.len() implies t[a] == s[other(a)] by {}
    assert forall|a: int, b: int| 0 <= a < t.len() && 0 <= b < t.len() && a != b implies t[a]
        != t[b] by {
        assert(t[a] == s[other(a)]);
        assert(t[b] == s[other(b)]);
    }
    assert forall|y: Id| #[trigger] t.contains(y) <==> s.contains(y) by {
        if t.contains(y) {
            let a = choose|a: int| 0 <= a < t.len() && t[a] == y;
            assert(s[other(a)] == y);
        }
        if s.contains(y) {
            let a = choose|a: int| 0 <= a < s.len() && s[a] == y;
            assert(t[other(a)] == y);
        }
    }
    assert(swapped(t, i, j) =~= s);
}

/// The position of `x` in `v`.
pub fn find_id(v: &Vec<Id>, x: Id) -> (found: Option<usize>)
    ensures
        match found {
            Some(i) => i < v@.len() && v@[i as int] == x && v@.index_of_first(x) == Some(
                i as int,
            ),
            None => v@.index_of_first(x).is_none(),
        },
        found.is_some() == v@.contains(x),
{
    proof {
        v@.index_of_first_ensures(x);
    }
    let n: usize = v.len();
    let mut i: usize = 0;
    while i < n
        invariant
            n == v@.len(),
            i <= n,
            forall|k: int| 0 <= k < i ==> v@[k] != x,
        decreases n - i,
    {
        if v[i] == x {
            proof {
                v@.index_of_first_ensures(x);
                assert(v@[i as int] == x);
                let first = v@.index_of_first(x).unwrap();
                assert(v@[first] == x);
                assert(first == i);
            }
            return Some(i);
        }
        i = i + 1;
    }
    None
}

/// A copy of `v`.
pub fn copy_ids(v: &Vec<Id>) -> (copy: Vec<Id>)
    ensures
        copy@ == v@,
{
    let mut copy: Vec<Id> = Vec::new();
    let n: usize = v.len();
    let mut i: usize = 0;
    while i < n
        invariant
            n == v@.len(),
            i <= n,
            copy@ == v@.take(i as int),
        decreases n - i,
    {
        copy.push(v[i]);
        assert(v@.take(i as int + 1) =~= v@.take(i as int).push(v@[i as int]));
        i = i + 1;
    }
    assert(v@.take(n as int) =~= v@);
    copy
}

/// What a workspace holds.
pub struct WorkspaceView {
    pub id: Id,
    /// The workspace-local x coordinate of the left edge of the viewport.
    pub scroll_left: i32,
    /// The windows from left to right.
    pub windows: Seq<Id>,
    /// The same windows, the one used most recently last.
    pub mru_windows: Seq<Id>,
}

impl WorkspaceView {
    /// Both sequences hold the same windows, each of them once.
    pub open spec fn wf(self) -> bool {
        &&& self.windows.no_duplicates()
        &&& self.mru_windows.no_duplicates()
        &&& self.windows.len() == self.mru_windows.len()
        &&& forall|w: Id| self.windows.contains(w) <==> self.mru_windows.contains(w)
    }

    pub open spec fn has_window(self, window: Id) -> bool {
        self.windows.contains(window)
    }

    /// The window used most recently.
    pub open spec fn active_window(self) -> Option<Id> {
        if self.mru_windows.len() == 0 {
            None
        } else {
            Some(self.mru_windows.last())
        }
    }

    /// The neighbour of `from` in the window sequence; `None` at the ends
    /// and if `from` is not on the workspace.
    pub open spec fn neighbor(self, from: Id, direction: Direction) -> Option<Id> {
        match self.windows.index_of_first(from) {
            None => None,
            Some(i) => match direction {
                Direction::Left => if i == 0 {
                    None
                } else {
                    Some(self.windows[i - 1])
                },
                Direction::Right => if i + 1 < self.windows.len() {
                    Some(self.windows[i + 1])
                } else {
                    None
                },
            },
        }
    }

    /// The workspace after `window` changed places with its neighbour;
    /// `None` where there is no such neighbour.
    pub open spec fn moved(self, window: Id, direction: Direction) -> Option<WorkspaceView> {
        match self.windows.index_of_first(window) {
            None => None,
            Some(i) => match direction {
                Direction::Left => if i == 0 {
                    None
                } else {
                    Some(WorkspaceView { windows: swapped(self.windows, i, i - 1), ..self })
                },
                Direction::Right => if i + 1 < self.windows.len() {
                    Some(WorkspaceView { windows: swapped(self.windows, i, i + 1), ..self })
                } else {
                    None
                },
            },
        }
    }

    /// The workspace after the windows `a` and `b` changed places; the same
    /// workspace if one of them is not on it.
    pub open spec fn exchanged(self, a: Id, b: Id) -> WorkspaceView {
        match (self.windows.index_of_first(a), self.windows.index_of_first(b)) {
            (Some(i), Some(j)) => WorkspaceView { windows: swapped(self.windows, i, j), ..self },
            _ => self,
        }
    }

    /// The workspace without `window`.
    pub open spec fn removed(self, window: Id) -> WorkspaceView {
        WorkspaceView {
            windows: without(self.windows, window),
            mru_windows: without(self.mru_windows, window),
            ..self
        }
    }

    /// The workspace with `window` at `index` of the window sequence, or at
    /// its end if `index` lies beyond it, and used most recently. A window
    /// that was on the workspace already leaves its old place first.
    pub open spec fn inserted(self, window: Id, index: int) -> WorkspaceView {
        let rest = self.removed(window);
        WorkspaceView {
            windows: rest.windows.insert(at_most(index, rest.windows.len() as int), window),
            mru_windows: rest.mru_windows.push(window),
            ..self
        }
    }

    /// The workspace with `window` used most recently; the same workspace if
    /// the window is not on it.
    pub open spec fn promoted(self, window: Id) -> WorkspaceView {
        if self.has_window(window) {
            WorkspaceView { mru_windows: without(self.mru_windows, window).push(window), ..self }
        } else {
            self
        }
    }

    /// The index right after the window used most recently, 0 without one.
    pub open spec fn index_after_active(self) -> int {
        match self.active_window() {
            None => 0,
            Some(active) => match self.windows.index_of_first(active) {
                Some(i) => i + 1,
                None => self.windows.len() as int,
            },
        }
    }

    /// Taking a window off keeps a workspace well-formed.
    pub proof fn lemma_removed_wf(self, window: Id)
        requires
            self.wf(),
        ensures
            self.removed(window).wf(),
            !self.removed(window).has_window(window),
            !self.removed(window).mru_windows.contains(window),
    {
        lemma_without_facts(self.windows, window);
        lemma_without_facts(self.mru_windows, window);
        let rest = self.removed(window);
        assert(self.windows.contains(window) <==> self.mru_windows.contains(window));
        assert forall|w: Id| rest.windows.contains(w) <==> rest.mru_windows.contains(w) by {
            if w != window {
                assert(rest.windows.contains(w) <==> self.windows.contains(w));
                assert(rest.mru_windows.contains(w) <==> self.mru_windows.contains(w));
            }
        }
    }

    /// Putting a window on keeps a workspace well-formed.
    pub proof fn lemma_inserted_wf(self, window: Id, index: int)
        requires
            self.wf(),
            0 <= index,
        ensures
            self.inserted(window, index).wf(),
            self.inserted(window, index).has_window(window),
            self.inserted(window, index).active_window() == Some(window),
    {
        self.lemma_removed_wf(window);
        let rest = self.removed(window);
        let at = at_most(index, rest.windows.len() as int);
        let end = rest.mru_windows.len() as int;
        let done = self.inserted(window, index);
        assert(done.windows == rest.windows.insert(at, window));
        assert(done.mru_windows == rest.mru_windows.insert(end, window)) by {
            lemma_push_is_insert(rest.mru_windows, window);
        }
        assert(done.windows.no_duplicates() && done.windows.contains(window)) by {
            lemma_insert_fresh(rest.windows, at, window);
        }
        assert(done.mru_windows.no_duplicates()) by {
            lemma_insert_fresh(rest.mru_windows, end, window);
        }
        assert(done.mru_windows.last() == window && done.mru_windows.len() == end + 1);
        lemma_same_elements_after_insert(rest.windows, rest.mru_windows, at, end, window);
    }

    /// Promoting a window keeps a workspace well-formed and makes the window
    /// the active one.
    pub proof fn lemma_promoted_wf(self, window: Id)
        requires
            self.wf(),
        ensures
            self.promoted(window).wf(),
            self.has_window(window) ==> self.promoted(window).active_window() == Some(window),
    {
        if self.has_window(window) {
            lemma_without_facts(self.mru_windows, window);
            let rest = without(self.mru_windows, window);
            let end = rest.len() as int;
            lemma_insert_fresh(rest, end, window);
            lemma_push_is_insert(rest, window);
            let done = self.promoted(window);
            assert(done.mru_windows == rest.insert(end, window));
            assert forall|w: Id| done.windows.contains(w) <==> done.mru_windows.contains(w) by {
                lemma_insert_contains(rest, end, window, w);
                if w != window {
                    assert(rest.contains(w) <==> self.mru_windows.contains(w));
                }
            }
        }
    }

    /// Exchanging two windows keeps a workspace well-formed.
    pub proof fn lemma_exchanged_wf(self, a: Id, b: Id)
        requires
            self.wf(),
        ensures
            self.exchanged(a, b).wf(),
    {
        self.windows.index_of_first_ensures(a);
        self.windows.index_of_first_ensures(b);
        match (self.windows.index_of_first(a), self.windows.index_of_first(b)) {
            (Some(i), Some(j)) => {
                lemma_swapped(self.windows, i, j);
                let done = self.exchanged(a, b);
                assert forall|w: Id| done.windows.contains(w) <==> done.mru_windows.contains(
                    w,
                ) by {
                    assert(done.windows.contains(w) <==> self.windows.contains(w));
                }
            },
            _ => {},
        }
    }

    /// Moving a window to a neighbouring place keeps a workspace well-formed.
    pub proof fn lemma_moved_wf(self, window: Id, direction: Direction)
        requires
            self.wf(),
            self.moved(window, direction).is_some(),
        ensures
            self.moved(window, direction).unwrap().wf(),
    {
        self.windows.index_of_first_ensures(window);
        let i = self.windows.index_of_first(window).unwrap();
        let j = match direction {
            Direction::Left => i - 1,
            Direction::Right => i + 1,
        };
        lemma_swapped(self.windows, i, j);
        let done = self.moved(window, direction).unwrap();
        assert(done.windows == swapped(self.windows, i, j));
        assert forall|w: Id| done.windows.contains(w) <==> done.mru_windows.contains(w) by {
            assert(done.windows.contains(w) <==> self.windows.contains(w));
        }
    }

    /// Adding a window that is not on the workspace and removing it again
    /// gives back the workspace as it was: the window sequence, the order of
    /// use and the scroll offset.
    pub proof fn lemma_add_then_remove(self, window: Id, index: int)
        requires
            self.wf(),
            !self.has_window(window),
            0 <= index,
        ensures
            self.inserted(window, index).removed(window) == self,
    {
        lemma_without_absent(self.windows, window);
        assert(!self.mru_windows.contains(window));
        lemma_without_absent(self.mru_windows, window);
        let at = at_most(index, self.windows.len() as int);
        lemma_insert_fresh(self.windows, at, window);
        lemma_insert_fresh(self.mru_windows, self.mru_windows.len() as int, window);
        lemma_push_is_insert(self.mru_windows, window);
    }

    /// Moving a window to a neighbouring place and back again gives back the
    /// workspace as it was.
    pub proof fn lemma_move_there_and_back(self, window: Id)
        requires
            self.wf(),
            self.moved(window, Direction::Left).is_some(),
        ensures
            self.moved(window, Direction::Left).unwrap().moved(window, Direction::Right)
                == Some(self),
    {
        self.windows.index_of_first_ensures(window);
        let i = self.windows.index_of_first(window).unwrap();
        lemma_swapped(self.windows, i, i - 1);
        let there = swapped(self.windows, i, i - 1);
        there.index_of_first_ensures(window);
        assert(there[i - 1] == window);
        assert(swapped(there, i - 1, i) =~= self.windows);
    }
}

/// An ordered sequence of windows with the order of their use and the scroll
/// offset of the viewport. The two orders always hold the same windows, each
/// of them once.
#[derive(Debug)]
pub struct Workspace {
    id: Id,
    scroll_left: i32,
    windows: Vec<Id>,
    mru_windows: MruList<Id>,
}

impl View for Workspace {
    type V = WorkspaceView;

    closed spec fn view(&self) -> WorkspaceView {
        WorkspaceView {
            id: self.id,
            scroll_left: self.scroll_left,
            windows: self.windows@,
            mru_windows: self.mru_windows@,
        }
    }
}

impl Workspace {
    #[verifier::type_invariant]
    spec fn well_formed(self) -> bool {
        self@.wf()
    }

    /// An empty workspace, scrolled to the origin.
    pub fn new(id_generator: &mut IdGenerator) -> (workspace: Workspace)
        requires
            old(id_generator).upcoming() < u64::MAX,
        ensures
            final(id_generator).upcoming() == old(id_generator).upcoming() + 1,
            workspace@ == (WorkspaceView {
                id: old(id_generator).upcoming(),
                scroll_left: 0,
                windows: Seq::empty(),
                mru_windows: Seq::empty(),
            }),
    {
        Workspace {
            id: id_generator.next_id(),
            scroll_left: 0,
            windows: Vec::new(),
            mru_windows: MruList::new(),
        }
    }

    /// The two orders hold the same windows, each of them once. This holds
    /// of every workspace.
    pub fn consistent(&self)
        ensures
            self@.wf(),
    {
        proof {
            use_type_invariant(self);
        }
    }

    /// Moves both lists out, leaving the workspace empty.
    fn take_lists(&mut self) -> (lists: (Vec<Id>, MruList<Id>))
        ensures
            lists.0@ == old(self)@.windows,
            lists.1@ == old(self)@.mru_windows,
            old(self)@.wf(),
            final(self)@ == (WorkspaceView {
                windows: Seq::empty(),
                mru_windows: Seq::empty(),
                ..old(self)@
            }),
    {
        proof {
            use_type_invariant(&*self);
        }
        let mut taken = Workspace {
            id: self.id,
            scroll_left: self.scroll_left,
            windows: Vec::new(),
            mru_windows: MruList::new(),
        };
        core::mem::swap(self, &mut taken);
        let Workspace { windows, mru_windows, .. } = taken;
        (windows, mru_windows)
    }

    pub fn id(&self) -> (id: Id)
        ensures
            id == self@.id,
    {
        self.id
    }

    pub fn scroll_left(&self) -> (scroll_left: i32)
        ensures
            scroll_left == self@.scroll_left,
    {
        self.scroll_left
    }

    /// Scrolls the viewport.
    pub fn set_scroll_left(&mut self, scroll_left: i32)
        ensures
            final(self)@ == (WorkspaceView { scroll_left, ..old(self)@ }),
    {
        proof {
            use_type_invariant(&*self);
        }
        self.scroll_left = scroll_left;
    }

    /// The windows from left to right.
    pub fn windows(&self) -> (windows: &Vec<Id>)
        ensures
            windows@ == self@.windows,
    {
        &self.windows
    }

    /// The windows in order of use.
    pub fn mru_windows(&self) -> (windows: &MruList<Id>)
        ensures
            windows@ == self@.mru_windows,
    {
        &self.mru_windows
    }

    /// The window used most recently.
    pub fn active_window(&self) -> (window: Option<Id>)
        ensures
            window == self@.active_window(),
    {
        match self.mru_windows.top() {
            Some(window) => Some(*window),
            None => None,
        }
    }

    pub fn has_window(&self, window: Id) -> (found: bool)
        ensures
            found == self@.has_window(window),
    {
        find_id(&self.windows, window).is_some()
    }

    /// The index of `window` in the window sequence.
    pub fn get_window_index(&self, window: Id) -> (index: Option<usize>)
        ensures
            match index {
                Some(i) => i < self@.windows.len() && self@.windows[i as int] == window
                    && self@.windows.index_of_first(window) == Some(i as int),
                None => self@.windows.index_of_first(window).is_none(),
            },
            index.is_some() == self@.has_window(window),
    {
        find_id(&self.windows, window)
    }

    /// The neighbour of `from` in the window sequence; `None` at the ends
    /// and if `from` is not on the workspace.
    pub fn window_by_direction(&self, from: Id, direction: Direction) -> (window: Option<Id>)
        ensures
            window == self@.neighbor(from, direction),
    {
        proof {
            self.windows@.index_of_first_ensures(from);
        }
        match find_id(&self.windows, from) {
            None => None,
            Some(i) => match direction {
                Direction::Left => {
                    if i == 0 {
                        None
                    } else {
                        Some(self.windows[i - 1])
                    }
                },
                Direction::Right => {
                    let n: usize = self.windows.len();
                    if i + 1 < n {
                        Some(self.windows[i + 1])
                    } else {
                        None
                    }
                },
            },
        }
    }

    /// Exchanges the windows at two indices of the window sequence.
    fn swap_at(&mut self, i: usize, j: usize)
        requires
            i < old(self)@.windows.len(),
            j < old(self)@.windows.len(),
        ensures
            final(self)@ == (WorkspaceView {
                windows: swapped(old(self)@.windows, i as int, j as int),
                ..old(self)@
            }),
    {
        let id = self.id;
        let scroll_left = self.scroll_left;
        let (mut windows, mru_windows) = self.take_lists();
        let a = windows[i];
        let b = windows[j];
        windows.set(i, b);
        windows.set(j, a);
        proof {
            lemma_swapped(old(self)@.windows, i as int, j as int);
            let done = swapped(old(self)@.windows, i as int, j as int);
            assert(windows@ =~= done);
            assert forall|w: Id| done.contains(w) <==> mru_windows@.contains(w) by {
                assert(done.contains(w) <==> old(self)@.windows.contains(w));
            }
        }
        *self = Workspace { id, scroll_left, windows, mru_windows };
    }

    /// Exchanges `window` with its neighbour in `direction`. Fails, and
    /// changes nothing, where there is no such neighbour.
    pub fn move_window(&mut self, window: Id, direction: Direction) -> (result: Result<(), ()>)
        ensures
            match old(self)@.moved(window, direction) {
                Some(moved) => result.is_ok() && final(self)@ == moved,
                None => result.is_err() && final(self)@ == old(self)@,
            },
    {
        let from = match find_id(&self.windows, window) {
            None => {
                return Err(());
            },
            Some(i) => i,
        };
        let to = match direction {
            Direction::Left => {
                if from == 0 {
                    return Err(());
                }
                from - 1
            },
            Direction::Right => {
                let n: usize = self.windows.len();
                if from + 1 >= n {
                    return Err(());
                }
                from + 1
            },
        };
        self.swap_at(from, to);
        Ok(())
    }

    /// Exchanges the places of two windows. Changes nothing if one of them
    /// is not on the workspace.
    pub fn swap_windows(&mut self, a: Id, b: Id)
        ensures
            final(self)@ == old(self)@.exchanged(a, b),
    {
        match find_id(&self.windows, a) {
            Some(i) => match find_id(&self.windows, b) {
                Some(j) => {
                    self.swap_at(i, j);
                },
                None => {},
            },
            None => {},
        }
    }

    /// Makes `window` the one used most recently, if it is on the workspace.
    pub fn promote_window(&mut self, window: Id)
        ensures
            final(self)@ == old(self)@.promoted(window),
    {
        broadcast use vstd::laws_eq::group_laws_eq;

        if self.has_window(window) {
            let id = self.id;
            let scroll_left = self.scroll_left;
            let (windows, mut mru_windows) = self.take_lists();
            mru_windows.promote(&window);
            proof {
                old(self)@.lemma_promoted_wf(window);
            }
            *self = Workspace { id, scroll_left, windows, mru_windows };
        }
    }

    /// Takes `window` off the workspace.
    pub fn remove_window(&mut self, window: Id)
        ensures
            final(self)@ == old(self)@.removed(window),
    {
        broadcast use vstd::laws_eq::group_laws_eq;

        let id = self.id;
        let scroll_left = self.scroll_left;
        let (mut windows, mut mru_windows) = self.take_lists();
        proof {
            lemma_without_facts(windows@, window);
            old(self)@.lemma_removed_wf(window);
        }
        match find_id(&windows, window) {
            Some(i) => {
                proof {
                    windows@.index_of_first_ensures(window);
                }
                windows.remove(i);
            },
            None => {},
        }
        mru_windows.remove(&window);
        *self = Workspace { id, scroll_left, windows, mru_windows };
    }

    /// Puts `window` at `index` of the window sequence, or at its end if
    /// `index` lies beyond it, and makes it the window used most recently.
    pub fn add_window(&mut self, window: Id, index: usize)
        ensures
            final(self)@ == old(self)@.inserted(window, index as int),
    {
        broadcast use vstd::laws_eq::group_laws_eq;

        proof {
            use_type_invariant(&*self);
        }
        self.remove_window(window);
        let id = self.id;
        let scroll_left = self.scroll_left;
        let (mut windows, mut mru_windows) = self.take_lists();
        let at = if index < windows.len() {
            index
        } else {
            windows.len()
        };
        windows.insert(at, window);
        mru_windows.push(window);
        proof {
            old(self)@.lemma_removed_wf(window);
            old(self)@.lemma_inserted_wf(window, index as int);
            lemma_without_absent(old(self)@.removed(window).mru_windows, window);
        }
        *self = Workspace { id, scroll_left, windows, mru_windows };
    }

    /// The index at which a window is added right after the window used most
    /// recently: 0 on an empty workspace.
    pub fn index_after_active(&self) -> (index: usize)
        ensures
            index == self@.index_after_active(),
    {
        match self.active_window() {
            None => 0,
            Some(active) => {
                let n: usize = self.windows.len();
                match find_id(&self.windows, active) {
                    Some(i) => i + 1,
                    None => n,
                }
            },
        }
    }
}

} // verus!
