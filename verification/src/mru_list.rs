//! A most-recently-used list: an ordered container without repetitions whose
//! last element, the top, is the one touched most recently.

use vstd::laws_eq::obeys_concrete_eq;
use vstd::prelude::*;

verus! {

/// `s` without the elements equal to `x`.
pub open spec fn without<T>(s: Seq<T>, x: T) -> Seq<T> {
    s.filter(|y: T| y != x)
}

/// `s` read backwards.
pub open spec fn reversed<T>(s: Seq<T>) -> Seq<T> {
    Seq::new(s.len(), |i: int| s[s.len() - 1 - i])
}

/// Filtering by "differs from `x`" leaves a sequence without `x` unchanged.
pub proof fn lemma_without_absent<T>(s: Seq<T>, x: T)
    requires
        !s.contains(x),
    ensures
        without(s, x) == s,
    decreases s.len(),
{
    reveal(Seq::filter);
    if s.len() > 0 {
        assert(s.drop_last().len() < s.len());
        assert forall|y: T| s.drop_last().contains(y) implies s.contains(y) by {
            let i = choose|i: int| 0 <= i < s.drop_last().len() && s.drop_last()[i] == y;
            assert(s[i] == y);
        }
        lemma_without_absent(s.drop_last(), x);
        assert(s.last() != x) by {
            assert(s[s.len() - 1] == s.last());
        }
        assert(s.drop_last().push(s.last()) =~= s);
    }
}

/// What remains of a sequence without repetitions when `x` leaves it.
pub proof fn lemma_without_facts<T>(s: Seq<T>, x: T)
    requires
        s.no_duplicates(),
    ensures
        without(s, x).no_duplicates(),
        !without(s, x).contains(x),
        forall|y: T| y != x ==> (without(s, x).contains(y) <==> s.contains(y)),
        s.contains(x) ==> without(s, x).len() + 1 == s.len(),
        !s.contains(x) ==> without(s, x) == s,
        forall|i: int|
            0 <= i < s.len() && s[i] == x ==> without(s, x) == s.remove(i),
    decreases s.len(),
{
    reveal(Seq::filter);
    let pred = |y: T| y != x;
    if s.len() == 0 {
        assert(without(s, x) =~= s);
    } else {
        let init = s.drop_last();
        let last = s.last();
        assert(s =~= init.push(last));
        assert(init.no_duplicates());
        lemma_without_facts(init, x);
        assert forall|y: T| init.contains(y) implies s.contains(y) by {
            let i = choose|i: int| 0 <= i < init.len() && init[i] == y;
            assert(s[i] == y);
        }
        assert(!init.contains(last)) by {
            if init.contains(last) {
                let i = choose|i: int| 0 <= i < init.len() && init[i] == last;
                assert(s[i] == s[s.len() - 1]);
            }
        }
        if last == x {
            assert(without(s, x) == without(init, x));
            lemma_without_absent(init, x);
            assert(without(s, x) == init);
            assert(s.contains(x)) by {
                assert(s[s.len() - 1] == x);
            }
            assert forall|y: T| y != x implies (without(s, x).contains(y) <==> s.contains(y)) by {
                if s.contains(y) {
                    let i = choose|i: int| 0 <= i < s.len() && s[i] == y;
                    assert(i < init.len());
                    assert(init[i] == y);
                }
            }
            assert forall|i: int| 0 <= i < s.len() && s[i] == x implies without(s, x)
                == s.remove(i) by {
                assert(i == s.len() - 1);
                assert(s.remove(i) =~= init);
            }
        } else {
            let rest = without(init, x);
            assert(without(s, x) == rest.push(last));
            assert(!rest.contains(last));
            assert(rest.push(last).no_duplicates()) by {
                assert forall|i: int, j: int|
                    0 <= i < rest.len() + 1 && 0 <= j < rest.len() + 1 && i != j implies rest.push(
                    last,
                )[i] != rest.push(last)[j] by {
                    if i == rest.len() {
                        assert(rest.contains(rest[j]));
                    } else if j == rest.len() {
                        assert(rest.contains(rest[i]));
                    }
                }
            }
            assert(!rest.push(last).contains(x)) by {
                if rest.push(last).contains(x) {
                    let i = choose|i: int| 0 <= i < rest.len() + 1 && rest.push(last)[i] == x;
                    assert(rest[i] == x);
                    assert(rest.contains(x));
                }
            }
            assert forall|y: T| y != x implies (without(s, x).contains(y) <==> s.contains(y)) by {
                if without(s, x).contains(y) {
                    let i = choose|i: int|
                        0 <= i < rest.len() + 1 && rest.push(last)[i] == y;
                    if i < rest.len() {
                        assert(rest.contains(y));
                    } else {
                        assert(s[s.len() - 1] == y);
                    }
                }
                if s.contains(y) {
                    let i = choose|i: int| 0 <= i < s.len() && s[i] == y;
                    if i < init.len() {
                        assert(init[i] == y);
                        assert(init.contains(y));
                        let j = choose|j: int| 0 <= j < rest.len() && rest[j] == y;
                        assert(rest.push(last)[j] == y);
                    } else {
                        assert(rest.push(last)[rest.len() as int] == y);
                    }
                }
            }
            if s.contains(x) {
                let i = choose|i: int| 0 <= i < s.len() && s[i] == x;
                assert(init[i] == x);
                assert(init.contains(x));
            } else {
                assert(!init.contains(x));
                assert(without(s, x) =~= s);
            }
            assert forall|i: int| 0 <= i < s.len() && s[i] == x implies without(s, x)
                == s.remove(i) by {
                assert(init[i] == x);
                assert(rest == init.remove(i));
                assert(s.remove(i) =~= init.remove(i).push(last));
            }
        }
    }
}

/// An ordered list without repetitions. The view lists the elements from the
/// least recently used to the most recently used one.
#[derive(Debug)]
pub struct MruList<T: PartialEq> {
    items: Vec<T>,
}

impl<T: PartialEq> View for MruList<T> {
    type V = Seq<T>;

    closed spec fn view(&self) -> Seq<T> {
        self.items@
    }
}

impl<T: PartialEq> MruList<T> {
    #[verifier::type_invariant]
    spec fn no_repetition(self) -> bool {
        self.items@.no_duplicates()
    }

    /// The most recently used element, if there is one.
    pub open spec fn spec_top(self) -> Option<T> {
        if self@.len() == 0 {
            None
        } else {
            Some(self@.last())
        }
    }

    /// An empty list.
    pub fn new() -> (list: MruList<T>)
        ensures
            list@ == Seq::<T>::empty(),
    {
        MruList { items: Vec::new() }
    }

    /// Moves the elements out, leaving the list empty.
    fn take_items(&mut self) -> (items: Vec<T>)
        ensures
            items@ == old(self)@,
            items@.no_duplicates(),
            final(self)@ == Seq::<T>::empty(),
    {
        proof {
            use_type_invariant(&*self);
        }
        let mut taken = MruList { items: Vec::new() };
        core::mem::swap(self, &mut taken);
        let MruList { items } = taken;
        items
    }

    /// No element occurs twice. This holds of every list.
    pub fn distinct(&self)
        ensures
            self@.no_duplicates(),
    {
        proof {
            use_type_invariant(self);
        }
    }

    /// The elements, most recently used first.
    pub fn iter(&self) -> (items: Vec<&T>)
        ensures
            items@.len() == self@.len(),
            forall|i: int| 0 <= i < items@.len() ==> *items@[i] == reversed(self@)[i],
    {
        let mut out: Vec<&T> = Vec::new();
        let n: usize = self.items.len();
        let mut i: usize = 0;
        while i < n
            invariant
                n == self.items@.len(),
                i <= n,
                out@.len() == i,
                forall|k: int| 0 <= k < i ==> *out@[k] == self.items@[n - 1 - k],
            decreases n - i,
        {
            out.push(&self.items[n - 1 - i]);
            i = i + 1;
        }
        out
    }

    /// The element of the given rank: 0 for the most recently used one.
    pub fn nth(&self, rank: usize) -> (item: Option<&T>)
        ensures
            match item {
                Some(item) => rank < self@.len() && *item == reversed(self@)[rank as int],
                None => rank >= self@.len(),
            },
    {
        let n: usize = self.items.len();
        if rank < n {
            Some(&self.items[n - 1 - rank])
        } else {
            None
        }
    }

    pub fn len(&self) -> (n: usize)
        ensures
            n == self@.len(),
    {
        self.items.len()
    }

    /// The most recently used element.
    pub fn top(&self) -> (top: Option<&T>)
        ensures
            match top {
                Some(item) => self.spec_top() == Some(*item),
                None => self.spec_top().is_none(),
            },
    {
        let n: usize = self.items.len();
        if n == 0 {
            None
        } else {
            Some(&self.items[n - 1])
        }
    }

    /// The position of `item` in the view.
    pub fn position(&self, item: &T) -> (found: Option<usize>)
        requires
            obeys_concrete_eq::<T>(),
        ensures
            match found {
                Some(i) => i < self@.len() && self@[i as int] == *item,
                None => !self@.contains(*item),
            },
    {
        let n: usize = self.items.len();
        let mut i: usize = 0;
        while i < n
            invariant
                obeys_concrete_eq::<T>(),
                n == self.items@.len(),
                i <= n,
                forall|k: int| 0 <= k < i ==> self.items@[k] != *item,
            decreases n - i,
        {
            proof {
                reveal(obeys_concrete_eq);
            }
            if self.items[i] == *item {
                return Some(i);
            }
            i = i + 1;
        }
        None
    }

    /// Whether `item` is in the list.
    pub fn contains(&self, item: &T) -> (found: bool)
        requires
            obeys_concrete_eq::<T>(),
        ensures
            found == self@.contains(*item),
    {
        self.position(item).is_some()
    }

    /// Makes `item` the most recently used element, whether or not it was in
    /// the list before.
    pub fn push(&mut self, item: T)
        requires
            obeys_concrete_eq::<T>(),
        ensures
            final(self)@ == without(old(self)@, item).push(item),
    {
        proof {
            use_type_invariant(&*self);
            lemma_without_facts(self@, item);
        }
        let _ = self.remove(&item);
        let mut items = self.take_items();
        items.push(item);
        proof {
            let rest = without(old(self)@, item);
            assert forall|i: int, j: int|
                0 <= i < items@.len() && 0 <= j < items@.len() && i != j implies items@[i]
                != items@[j] by {
                if i == rest.len() {
                    assert(rest.contains(rest[j]));
                } else if j == rest.len() {
                    assert(rest.contains(rest[i]));
                }
            }
        }
        *self = MruList { items };
    }

    /// Makes `item` the least recently used element, whether or not it was in
    /// the list before.
    pub fn push_bottom(&mut self, item: T)
        requires
            obeys_concrete_eq::<T>(),
        ensures
            final(self)@ == seq![item] + without(old(self)@, item),
    {
        proof {
            use_type_invariant(&*self);
            lemma_without_facts(self@, item);
        }
        let _ = self.remove(&item);
        let mut items = self.take_items();
        items.insert(0, item);
        proof {
            let rest = without(old(self)@, item);
            assert(items@ =~= seq![item] + rest);
            assert forall|i: int, j: int|
                0 <= i < items@.len() && 0 <= j < items@.len() && i != j implies items@[i]
                != items@[j] by {
                if i == 0 {
                    assert(rest.contains(rest[j - 1]));
                } else if j == 0 {
                    assert(rest.contains(rest[i - 1]));
                } else {
                    assert(rest[i - 1] != rest[j - 1]);
                }
            }
        }
        *self = MruList { items };
    }

    /// Makes an element of the list the most recently used one.
    pub fn promote(&mut self, item: &T)
        requires
            obeys_concrete_eq::<T>(),
            old(self)@.contains(*item),
        ensures
            final(self)@ == without(old(self)@, *item).push(*item),
    {
        proof {
            use_type_invariant(&*self);
            lemma_without_facts(self@, *item);
        }
        match self.remove(item) {
            Some(found) => {
                self.push(found);
                proof {
                    lemma_without_absent(without(old(self)@, *item), *item);
                }
            },
            None => {},
        }
    }

    /// Takes `item` out of the list and hands it back, if it was there.
    pub fn remove(&mut self, item: &T) -> (removed: Option<T>)
        requires
            obeys_concrete_eq::<T>(),
        ensures
            final(self)@ == without(old(self)@, *item),
            removed == if old(self)@.contains(*item) {
                Some(*item)
            } else {
                None
            },
            final(self)@.no_duplicates(),
            !final(self)@.contains(*item),
    {
        proof {
            use_type_invariant(&*self);
            lemma_without_facts(self@, *item);
        }
        match self.position(item) {
            Some(index) => {
                let mut items = self.take_items();
                let removed = items.remove(index);
                *self = MruList { items };
                Some(removed)
            },
            None => None,
        }
    }
}

} // verus!
