//! A history of bounded length: what comes in last stays, what came in first
//! leaves when there is no room.

use vstd::prelude::*;

verus! {

/// The last `cap` items of `s`, or all of `s` where it holds no more.
pub open spec fn newest<T>(s: Seq<T>, cap: nat) -> Seq<T> {
    if s.len() > cap {
        s.skip(s.len() - cap)
    } else {
        s
    }
}

/// `s` after `item` came in, with room for `cap` items.
pub open spec fn push_bounded<T>(s: Seq<T>, item: T, cap: nat) -> Seq<T> {
    newest(s.push(item), cap)
}

/// `s` after the items of `items` came in, one after the other.
pub open spec fn push_all<T>(s: Seq<T>, items: Seq<T>, cap: nat) -> Seq<T>
    decreases items.len(),
{
    if items.len() == 0 {
        s
    } else {
        push_bounded(push_all(s, items.drop_last(), cap), items.last(), cap)
    }
}

/// However many items come in, the history never holds more than its
/// capacity, and what it holds is the newest of all that it ever held or
/// took in, oldest first.
pub proof fn lemma_push_all_keeps_newest<T>(s: Seq<T>, items: Seq<T>, cap: nat)
    requires
        s.len() <= cap,
    ensures
        push_all(s, items, cap) == newest(s + items, cap),
        push_all(s, items, cap).len() <= cap,
    decreases items.len(),
{
    if items.len() > 0 {
        lemma_push_all_keeps_newest(s, items.drop_last(), cap);
    }
}

/// A history that holds at most `capacity` items, oldest first.
#[derive(Debug)]
pub struct Bounded<T> {
    items: Vec<T>,
    capacity: usize,
}

impl<T> View for Bounded<T> {
    type V = Seq<T>;

    closed spec fn view(&self) -> Seq<T> {
        self.items@
    }
}

impl<T> Bounded<T> {
    /// How many items the history has room for.
    pub closed spec fn cap(&self) -> nat {
        self.capacity as nat
    }

    /// A history is well formed when it holds no more than it has room for.
    pub closed spec fn wf(&self) -> bool {
        self.items@.len() <= self.capacity
    }

    /// A well-formed history holds no more than it has room for.
    pub proof fn lemma_wf(&self)
        requires
            self.wf(),
        ensures
            self@.len() <= self.cap(),
    {
    }

    /// An empty history with room for `capacity` items.
    pub fn new(capacity: usize) -> (out: Self)
        ensures
            out.wf(),
            out@ == Seq::<T>::empty(),
            out.cap() == capacity,
    {
        Bounded { items: Vec::new(), capacity }
    }

    /// How many items the history has room for.
    pub fn capacity(&self) -> (out: usize)
        ensures
            out == self.cap(),
    {
        self.capacity
    }

    /// How many items the history holds.
    pub fn len(&self) -> (out: usize)
        ensures
            out == self@.len(),
    {
        self.items.len()
    }

    /// Whether the history holds nothing.
    pub fn is_empty(&self) -> (out: bool)
        ensures
            out == (self@.len() == 0),
    {
        self.items.len() == 0
    }

    /// The items, oldest first.
    pub fn as_slice(&self) -> (out: &[T])
        ensures
            out@ == self@,
    {
        self.items.as_slice()
    }

    /// The last item that came in, if any is held.
    pub fn last(&self) -> (out: Option<&T>)
        ensures
            match out {
                Some(item) => self@.len() > 0 && *item == self@.last(),
                None => self@.len() == 0,
            },
    {
        if self.items.len() == 0 {
            None
        } else {
            Some(&self.items[self.items.len() - 1])
        }
    }

    /// Takes `item` in. Where there is no room, the oldest item leaves.
    pub fn push(&mut self, item: T)
        requires
            old(self).wf(),
        ensures
            final(self).wf(),
            final(self).cap() == old(self).cap(),
            final(self)@ == push_bounded(old(self)@, item, old(self).cap()),
    {
        self.items.push(item);
        if self.items.len() > self.capacity {
            let _ = self.items.remove(0);
        }
    }

    /// Lets every item go.
    pub fn clear(&mut self)
        ensures
            final(self).wf(),
            final(self).cap() == old(self).cap(),
            final(self)@ == Seq::<T>::empty(),
    {
        self.items.clear();
    }
}

} // verus!
