use vstd::prelude::*;

verus! {

/// Contents after pushing `v` onto `s` with the evict-oldest policy at capacity `cap`.
pub open spec fn pushed<T>(s: Seq<T>, v: T, cap: nat) -> Seq<T> {
    if s.len() < cap {
        s.push(v)
    } else {
        s.drop_first().push(v)
    }
}

/// Contents after pushing every item of `xs`, in order, onto an empty buffer.
pub open spec fn pushed_all<T>(xs: Seq<T>, cap: nat) -> Seq<T>
    decreases xs.len(),
{
    if xs.len() == 0 {
        Seq::empty()
    } else {
        pushed(pushed_all(xs.drop_last(), cap), xs.last(), cap)
    }
}

/// The last `cap` items of `xs` (all of them if there are fewer).
pub open spec fn newest<T>(xs: Seq<T>, cap: nat) -> Seq<T> {
    if xs.len() > cap {
        xs.subrange(xs.len() - cap, xs.len() as int)
    } else {
        xs
    }
}

/// Pushing a sequence of items onto an empty buffer of capacity `cap` keeps exactly the
/// newest `cap` of them, oldest first.
pub proof fn lemma_pushed_all_keeps_newest<T>(xs: Seq<T>, cap: nat)
    requires
        cap > 0,
    ensures
        pushed_all(xs, cap) == newest(xs, cap),
    decreases xs.len(),
{
    if xs.len() > 0 {
        let init = xs.drop_last();
        lemma_pushed_all_keeps_newest(init, cap);
        if init.len() >= cap {
            assert(newest(init, cap).drop_first().push(xs.last()) =~= newest(xs, cap));
        } else {
            assert(init.push(xs.last()) =~= xs);
        }
    }
}

/// Once more than `cap` items were pushed the buffer is full, and its oldest item is the
/// `cap`-th most recent one pushed.
pub proof fn lemma_overflow_keeps_capacity<T>(xs: Seq<T>, cap: nat)
    requires
        cap > 0,
        xs.len() > cap,
    ensures
        pushed_all(xs, cap).len() == cap,
        pushed_all(xs, cap)[0] == xs[xs.len() - cap],
        pushed_all(xs, cap).last() == xs.last(),
{
    lemma_pushed_all_keeps_newest(xs, cap);
}

/// Fixed-capacity FIFO. When full, pushing a new item evicts the oldest one, so the buffer
/// always keeps the most recent `capacity` items.
pub struct RingBuf<T> {
    items: Vec<T>,
    head: usize,
    cap: usize,
}

impl<T> View for RingBuf<T> {
    type V = Seq<T>;

    /// Contents from oldest to newest.
    closed spec fn view(&self) -> Seq<T> {
        Seq::new(self.items@.len(), |i: int| self.items@[self.slot(i)])
    }
}

impl<T> RingBuf<T> {
    /// Storage slot of the `i`-th oldest item.
    pub closed spec fn slot(&self, i: int) -> int {
        if self.head + i < self.items@.len() {
            self.head + i
        } else {
            self.head + i - self.items@.len()
        }
    }

    pub closed spec fn spec_capacity(&self) -> nat {
        self.cap as nat
    }

    pub closed spec fn wf(&self) -> bool {
        &&& self.cap > 0
        &&& self.items@.len() <= self.cap
        &&& (self.items@.len() < self.cap ==> self.head == 0)
        &&& (self.items@.len() == self.cap ==> self.head < self.cap)
    }

    /// Creates an empty buffer that holds at most `cap` items.
    pub fn new(cap: usize) -> (r: Self)
        requires
            cap > 0,
        ensures
            r.wf(),
            r@ == Seq::<T>::empty(),
            r.spec_capacity() == cap,
    {
        let r = RingBuf { items: Vec::new(), head: 0, cap };
        assert(r@ =~= Seq::<T>::empty());
        r
    }

    pub fn len(&self) -> (r: usize)
        requires
            self.wf(),
        ensures
            r == self@.len(),
            r <= self.spec_capacity(),
    {
        self.items.len()
    }

    pub fn capacity(&self) -> (r: usize)
        ensures
            r == self.spec_capacity(),
    {
        self.cap
    }

    /// Appends `v` as the newest item. On a full buffer the oldest item is removed and
    /// returned.
    pub fn push_back(&mut self, v: T) -> (evicted: Option<T>)
        requires
            old(self).wf(),
        ensures
            final(self).wf(),
            final(self).spec_capacity() == old(self).spec_capacity(),
            final(self)@ == pushed(old(self)@, v, old(self).spec_capacity()),
            old(self)@.len() < old(self).spec_capacity() ==> {
                &&& final(self)@ == old(self)@.push(v)
                &&& evicted is None
            },
            old(self)@.len() == old(self).spec_capacity() ==> {
                &&& final(self)@ == old(self)@.drop_first().push(v)
                &&& evicted == Some(old(self)@[0])
            },
    {
        if self.items.len() < self.cap {
            self.items.push(v);
            assert(self@ =~= old(self)@.push(v));
            None
        } else {
            let h = self.head;
            let mut v = v;
            let ghost newest = v;
            std::mem::swap(&mut self.items[h], &mut v);
            self.head = if h + 1 == self.cap {
                0
            } else {
                h + 1
            };
            assert(self@ =~= old(self)@.drop_first().push(newest));
            Some(v)
        }
    }

    /// The `i`-th oldest item.
    pub fn get(&self, i: usize) -> (r: &T)
        requires
            self.wf(),
            i < self@.len(),
        ensures
            *r == self@[i as int],
    {
        let j = if self.items.len() - self.head > i {
            self.head + i
        } else {
            i - (self.items.len() - self.head)
        };
        &self.items[j]
    }

    /// The newest item, if any.
    pub fn back(&self) -> (r: Option<&T>)
        requires
            self.wf(),
        ensures
            self@.len() == 0 ==> r is None,
            self@.len() > 0 ==> r == Some(&self@.last()),
    {
        if self.items.len() == 0 {
            None
        } else {
            let i = if self.head == 0 {
                self.items.len() - 1
            } else {
                self.head - 1
            };
            Some(&self.items[i])
        }
    }

    /// A mutable reference to the newest item; the buffer is non-empty.
    pub fn back_mut(&mut self) -> (r: &mut T)
        requires
            old(self).wf(),
            old(self)@.len() > 0,
        ensures
            *r == old(self)@.last(),
            final(self).wf(),
            final(self).spec_capacity() == old(self).spec_capacity(),
            final(self)@ == old(self)@.update(old(self)@.len() - 1, *final(r)),
    {
        let i = if self.head == 0 {
            self.items.len() - 1
        } else {
            self.head - 1
        };
        assert(old(self).slot(old(self)@.len() - 1) == i);
        &mut self.items[i]
    }
}

} // verus!
