//! A fixed-capacity ring buffer with circular indexing.
//!
//! Backed by a single `Vec<T>` plus a head index. Pushing into a full
//! buffer overwrites the oldest element and returns it, which lets
//! streaming statistics maintain incremental sums cheaply.
//!
//! The buffer is modelled by its view: the retained items in
//! oldest-to-newest order. Every push moves that window one step along
//! the stream of pushed items, as `slide` states.

use vstd::prelude::*;

use crate::error::CryptoTuiError;

verus! {

/// The window that results from pushing `item` into `window`, when the
/// window may hold at most `cap` items: the item is appended, and if the
/// window was already full its oldest item is dropped first.
pub open spec fn slide<T>(window: Seq<T>, cap: nat, item: T) -> Seq<T> {
    if window.len() < cap {
        window.push(item)
    } else {
        window.drop_first().push(item)
    }
}

/// The window that a buffer of capacity `cap` holds after the items of
/// `items` were pushed, in order, into `start`.
pub open spec fn slide_all<T>(start: Seq<T>, cap: nat, items: Seq<T>) -> Seq<T>
    decreases items.len(),
{
    if items.len() == 0 {
        start
    } else {
        slide(slide_all(start, cap, items.drop_last()), cap, items.last())
    }
}

/// The items that pushing the items of `items`, in order, into a buffer of
/// capacity `cap` that holds `start` evicts, in the order they come out:
/// each push into a full buffer evicts the window's oldest item.
pub open spec fn evictions<T>(start: Seq<T>, cap: nat, items: Seq<T>) -> Seq<T>
    decreases items.len(),
{
    if items.len() == 0 {
        Seq::empty()
    } else {
        let before = slide_all(start, cap, items.drop_last());
        let earlier = evictions(start, cap, items.drop_last());
        if before.len() < cap {
            earlier
        } else {
            earlier.push(before[0])
        }
    }
}

/// The last `n` items of `s` (all of `s` when it is shorter).
pub open spec fn last_n<T>(s: Seq<T>, n: nat) -> Seq<T> {
    if s.len() <= n {
        s
    } else {
        s.subrange(s.len() - n, s.len() as int)
    }
}

/// Fixed-capacity ring buffer.
///
/// Items are written at the *head*; once the buffer fills, each
/// subsequent push overwrites the oldest element. [`Self::iter`] yields
/// the elements in oldest-to-newest order regardless of where the head
/// currently sits.
#[derive(Debug)]
pub struct RingBuffer<T> {
    buffer: Vec<T>,
    head: usize,
    capacity: usize,
}

impl<T> RingBuffer<T> {
    /// The buffer's layout: a positive capacity, never exceeded; the head
    /// is a slot index, and stays at slot 0 until the buffer has filled.
    #[verifier::type_invariant]
    spec fn well_formed(self) -> bool {
        &&& 0 < self.capacity
        &&& self.buffer@.len() <= self.capacity
        &&& self.head < self.capacity
        &&& self.buffer@.len() < self.capacity ==> self.head == 0
    }

    /// The fixed capacity that the buffer was made with.
    pub closed spec fn spec_capacity(&self) -> nat {
        self.capacity as nat
    }
}

impl<T> View for RingBuffer<T> {
    type V = Seq<T>;

    /// The retained items, oldest first.
    closed spec fn view(&self) -> Seq<T> {
        if self.buffer@.len() < self.capacity {
            self.buffer@
        } else {
            self.buffer@.subrange(self.head as int, self.buffer@.len() as int) + self.buffer@.subrange(
                0,
                self.head as int,
            )
        }
    }
}

impl<T> RingBuffer<T> {
    /// Create a new ring buffer with the given fixed capacity.
    ///
    /// Returns [`CryptoTuiError::InvalidConfig`] if and only if
    /// `capacity == 0`.
    pub fn new(capacity: usize) -> (res: Result<Self, CryptoTuiError>)
        ensures
            capacity == 0 <==> res is Err,
            res matches Err(CryptoTuiError::InvalidConfig(msg)) ==> msg@
                == "RingBuffer capacity must be > 0"@,
            res matches Ok(rb) ==> rb@ == Seq::<T>::empty() && rb.spec_capacity() == capacity,
    {
        if capacity == 0 {
            return Err(CryptoTuiError::InvalidConfig("RingBuffer capacity must be > 0".to_owned()));
        }
        Ok(RingBuffer { buffer: Vec::with_capacity(capacity), head: 0, capacity })
    }

    /// Push `item` into the buffer.
    ///
    /// If the buffer was full before the call, returns the evicted
    /// oldest element. Otherwise returns `None`.
    pub fn push(&mut self, item: T) -> (evicted: Option<T>)
        ensures
            final(self).spec_capacity() == old(self).spec_capacity(),
            final(self)@ == slide(old(self)@, old(self).spec_capacity(), item),
            final(self)@.len() <= final(self).spec_capacity(),
            old(self)@.len() < old(self).spec_capacity() ==> evicted is None,
            old(self)@.len() >= old(self).spec_capacity() ==> evicted == Some(old(self)@[0]),
    {
        proof {
            use_type_invariant(&*self);
        }
        let ghost pre = self.buffer@;
        let ghost h = self.head as int;
        if self.buffer.len() < self.capacity {
            let mut buf: Vec<T> = Vec::new();
            std::mem::swap(&mut buf, &mut self.buffer);
            buf.push(item);
            self.buffer = buf;
            assert(self.buffer@.subrange(0, self.buffer@.len() as int) =~= self.buffer@);
            assert(self.buffer@.subrange(0, 0) =~= Seq::<T>::empty());
            assert(self@ =~= slide(pre, self.capacity as nat, item));
            None
        } else {
            let cap = self.capacity;
            let mut item = item;
            std::mem::swap(&mut self.buffer[self.head], &mut item);
            let next = if self.head + 1 == cap {
                0
            } else {
                self.head + 1
            };
            self.head = next;
            proof {
                let post = self.buffer@;
                assert(post =~= pre.update(h, post[h]));
                let old_view = pre.subrange(h, cap as int) + pre.subrange(0, h);
                assert(old_view[0] == pre[h]);
                if h + 1 == cap {
                    assert(self@ =~= post.subrange(0, cap as int) + post.subrange(0, 0));
                    assert(self@ =~= old_view.drop_first().push(post[h]));
                } else {
                    assert(self@ =~= old_view.drop_first().push(post[h]));
                }
            }
            Some(item)
        }
    }

    /// Number of elements currently stored.
    pub fn len(&self) -> (n: usize)
        ensures
            n == self@.len(),
            n <= self.spec_capacity(),
    {
        proof {
            use_type_invariant(self);
        }
        self.buffer.len()
    }

    /// Whether the buffer holds zero elements.
    pub fn is_empty(&self) -> (b: bool)
        ensures
            b <==> self@.len() == 0,
    {
        proof {
            use_type_invariant(self);
        }
        self.buffer.len() == 0
    }

    /// Whether the buffer has reached its fixed capacity.
    pub fn is_full(&self) -> (b: bool)
        ensures
            b <==> self@.len() == self.spec_capacity(),
    {
        proof {
            use_type_invariant(self);
        }
        self.buffer.len() == self.capacity
    }

    /// Fixed capacity supplied at construction time.
    pub fn capacity(&self) -> (c: usize)
        ensures
            c == self.spec_capacity(),
            0 < c,
    {
        proof {
            use_type_invariant(self);
        }
        self.capacity
    }

    /// The elements in oldest-to-newest order.
    pub fn iter(&self) -> (items: Vec<&T>)
        ensures
            items@.len() == self@.len(),
            forall|i: int| 0 <= i < self@.len() ==> *#[trigger] items@[i] == self@[i],
    {
        proof {
            use_type_invariant(self);
        }
        let len = self.buffer.len();
        let start = if len < self.capacity {
            0
        } else {
            self.head
        };
        let tail_len = len - start;
        let mut items: Vec<&T> = Vec::new();
        let mut i: usize = 0;
        while i < len
            invariant
                len == self.buffer@.len(),
                start <= len,
                tail_len == len - start,
                len < self.capacity ==> start == 0,
                len >= self.capacity ==> start == self.head,
                i <= len,
                items@.len() == i,
                forall|j: int| 0 <= j < i ==> *#[trigger] items@[j] == self@[j],
            decreases len - i,
        {
            let idx = if i < tail_len {
                start + i
            } else {
                i - tail_len
            };
            proof {
                if len >= self.capacity {
                    let b = self.buffer@;
                    assert(self@ == b.subrange(start as int, len as int) + b.subrange(0, start as int));
                }
            }
            items.push(&self.buffer[idx]);
            i = i + 1;
        }
        items
    }

    /// Remove every element, leaving the buffer empty.
    /// The capacity is preserved.
    pub fn clear(&mut self)
        ensures
            final(self)@ == Seq::<T>::empty(),
            final(self).spec_capacity() == old(self).spec_capacity(),
    {
        proof {
            use_type_invariant(&*self);
        }
        self.head = 0;
        let mut buf: Vec<T> = Vec::new();
        std::mem::swap(&mut buf, &mut self.buffer);
        buf.clear();
        self.buffer = buf;
    }
}

/// A window never holds more than `cap` items: keeping the last `cap`
/// items of a sequence leaves `min(len, cap)` of them.
pub proof fn lemma_last_n_len<T>(s: Seq<T>, cap: nat)
    ensures
        last_n(s, cap).len() == if s.len() <= cap { s.len() } else { cap },
{
}

/// The sliding-window law: pushing the items of `items`, in order, into a
/// buffer of capacity `cap` that holds `start` leaves it holding the last
/// `cap` items of `start` followed by `items`. In particular a buffer
/// filled from empty holds the `cap` most recent items, oldest first.
pub proof fn lemma_slide_all_keeps_most_recent<T>(start: Seq<T>, cap: nat, items: Seq<T>)
    requires
        0 < cap,
        start.len() <= cap,
    ensures
        slide_all(start, cap, items) == last_n(start + items, cap),
    decreases items.len(),
{
    if items.len() == 0 {
        assert(start + items =~= start);
    } else {
        let prefix = items.drop_last();
        let x = items.last();
        lemma_slide_all_keeps_most_recent(start, cap, prefix);
        let s = start + prefix;
        assert(start + items =~= s.push(x));
        if s.len() < cap {
            assert(last_n(s, cap) == s);
        } else {
            let w = last_n(s, cap);
            assert(w.len() == cap);
            assert(w.drop_first().push(x) =~= s.push(x).subrange(s.len() + 1 - cap, (s.len() + 1) as int));
        }
    }
}

/// The first-in, first-out law: whatever a sequence of pushes evicts,
/// followed by what the buffer then holds, is exactly what the buffer held
/// before followed by the pushed items. Nothing is lost, duplicated or
/// reordered, and items leave in the order they came in.
pub proof fn lemma_evictions_then_window<T>(start: Seq<T>, cap: nat, items: Seq<T>)
    requires
        0 < cap,
    ensures
        evictions(start, cap, items) + slide_all(start, cap, items) == start + items,
    decreases items.len(),
{
    if items.len() == 0 {
        assert(Seq::<T>::empty() + start =~= start);
        assert(start + items =~= start);
    } else {
        let prefix = items.drop_last();
        let x = items.last();
        lemma_evictions_then_window(start, cap, prefix);
        let w = slide_all(start, cap, prefix);
        let e = evictions(start, cap, prefix);
        assert(start + items =~= (start + prefix).push(x));
        if w.len() < cap {
            assert(e + w.push(x) =~= (e + w).push(x));
        } else {
            assert(e.push(w[0]) + w.drop_first().push(x) =~= (e + w).push(x));
        }
    }
}

impl<T: Clone> Clone for RingBuffer<T> {
    /// A copy with the same capacity whose items are clones of this
    /// buffer's items, in the same order.
    fn clone(&self) -> (c: Self)
        ensures
            c.spec_capacity() == self.spec_capacity(),
            c@.len() == self@.len(),
            forall|i: int| 0 <= i < self@.len() ==> cloned::<T>(self@[i], #[trigger] c@[i]),
    {
        proof {
            use_type_invariant(self);
        }
        let c = RingBuffer { buffer: self.buffer.clone(), head: self.head, capacity: self.capacity };
        proof {
            let b = self.buffer@;
            let cb = c.buffer@;
            let len = b.len() as int;
            let h = self.head as int;
            assert forall|i: int| 0 <= i < self@.len() implies cloned::<T>(self@[i], #[trigger] c@[i]) by {
                if len < self.capacity {
                    assert(cloned::<T>(self.buffer[i], c.buffer[i]));
                } else {
                    let j = if i < len - h { h + i } else { i - (len - h) };
                    assert(self@[i] == b[j]);
                    assert(c@[i] == cb[j]);
                    assert(cloned::<T>(self.buffer[j], c.buffer[j]));
                }
            }
        }
        c
    }
}

} // verus!
