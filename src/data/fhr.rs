use vstd::layout::size_of;
use vstd::pervasive::strictly_cloned;
use vstd::prelude::*;

verus! {

/// Whether `size` elements of `T` form a block that can be allocated: at
/// least one element, and no more bytes than `isize::MAX`.
pub open spec fn valid_block<T>(size: int) -> bool {
    &&& 0 < size
    &&& size * size_of::<T>() <= isize::MAX
}

/// An array whose length is chosen at run time and never changes after
/// construction. It holds at least one element.
pub struct FixedHeapArray<T> {
    data: Vec<T>,
}

impl<T> View for FixedHeapArray<T> {
    type V = Seq<T>;

    closed spec fn view(&self) -> Seq<T> {
        self.data@
    }
}

impl<T> FixedHeapArray<T> {
    #[verifier::type_invariant]
    closed spec fn inv(self) -> bool {
        valid_block::<T>(self.data@.len() as int)
    }
}

impl<T: Clone> FixedHeapArray<T> {
    /// Allocates `size` elements, each a fresh clone of `default`.
    ///
    /// Returns `None` when `size` is zero or when the block would exceed
    /// `isize::MAX` bytes.
    pub fn new(size: usize, default: T) -> (r: Option<Self>)
        ensures
            r is Some <==> valid_block::<T>(size as int),
            r matches Some(a) ==> {
                &&& a@.len() == size
                &&& forall|i: int| 0 <= i < size ==> strictly_cloned(default, #[trigger] a@[i])
            },
    {
        if size == 0 {
            return None;
        }
        let elem: usize = core::mem::size_of::<T>();
        match size.checked_mul(elem) {
            Some(bytes) => {
                if bytes > isize::MAX as usize {
                    return None;
                }
            },
            None => {
                return None;
            },
        }
        let mut data: Vec<T> = Vec::with_capacity(size);
        while data.len() < size
            invariant
                data@.len() <= size,
                forall|i: int| 0 <= i < data@.len() ==> strictly_cloned(default, #[trigger] data@[i]),
            decreases size - data@.len(),
        {
            data.push(default.clone());
        }
        Some(FixedHeapArray { data })
    }
}

impl<T> FixedHeapArray<T> {
    /// The number of elements, fixed at construction.
    pub fn len(&self) -> (r: usize)
        ensures
            r == self@.len(),
            valid_block::<T>(r as int),
    {
        proof {
            use_type_invariant(self);
        }
        self.data.len()
    }

    /// The elements as a slice.
    pub fn as_slice(&self) -> (r: &[T])
        ensures
            r@ == self@,
    {
        self.data.as_slice()
    }

    /// The element at position `i`.
    pub fn get(&self, i: usize) -> (r: &T)
        requires
            i < self@.len(),
        ensures
            *r == self@[i as int],
    {
        &self.data[i]
    }

    /// A mutable reference to the element at position `i`; writing through
    /// it changes that element and no other.
    pub fn get_mut(&mut self, i: usize) -> (r: &mut T)
        requires
            i < old(self)@.len(),
        ensures
            *r == old(self)@[i as int],
            final(self)@ == old(self)@.update(i as int, *final(r)),
        no_unwind
    {
        proof {
            use_type_invariant(&*self);
        }
        &mut self.data[i]
    }

    /// Replaces the element at position `i` by `v`; every other element
    /// stays as it was.
    pub fn set(&mut self, i: usize, v: T)
        requires
            i < old(self)@.len(),
        ensures
            final(self)@ == old(self)@.update(i as int, v),
            forall|j: int| 0 <= j < old(self)@.len() && j != i ==> #[trigger] final(self)@[j] == old(self)@[j],
        no_unwind
    {
        proof {
            use_type_invariant(&*self);
        }
        self.data[i] = v;
    }
}

impl<T> core::ops::Deref for FixedHeapArray<T> {
    type Target = [T];

    fn deref(&self) -> (r: &[T])
        ensures
            r@ == self@,
    {
        self.data.as_slice()
    }
}

impl<T> FixedHeapArray<T> {
    /// Gives up the array for an iterator that hands out its elements by
    /// value, from position 0 up.
    pub fn into_iter(self) -> (r: IntoIter<T>)
        ensures
            r@ == self@,
            r.capacity() == self@.len(),
    {
        proof {
            use_type_invariant(&self);
        }
        let mut data = self.data;
        let cap = data.len();
        let ghost all = data@;
        let mut rest: Vec<T> = Vec::with_capacity(cap);
        while data.len() > 0
            invariant
                all.len() == cap,
                data@.len() <= cap,
                data@ == all.subrange(0, data@.len() as int),
                backwards(rest@) == all.subrange(data@.len() as int, cap as int),
            decreases data@.len(),
        {
            let ghost before = data@.len() as int;
            let ghost done = rest@;
            match data.pop() {
                Some(x) => {
                    rest.push(x);
                },
                None => {},
            }
            proof {
                assert(rest@ == done.push(all[before - 1]));
                assert(backwards(done).len() == done.len());
                assert(done.len() == cap - before);
                let tail = all.subrange(before - 1, cap as int);
                assert forall|j: int| 0 <= j < tail.len() implies backwards(rest@)[j] == tail[j] by {
                    if j > 0 {
                        assert(backwards(done)[j - 1] == all.subrange(before, cap as int)[j - 1]);
                    }
                }
                assert(backwards(rest@) =~= tail);
            }
        }
        proof {
            assert(all.subrange(0, cap as int) =~= all);
        }
        IntoIter { rest, cap }
    }
}

/// What one step of an iterator over the pending elements `s` returns, and
/// which elements are pending after it.
pub open spec fn step<T>(s: Seq<T>) -> (Option<T>, Seq<T>) {
    if s.len() == 0 {
        (None, s)
    } else {
        (Some(s[0]), s.drop_first())
    }
}

/// What `k` successive steps over the pending elements `s` return.
pub open spec fn steps<T>(s: Seq<T>, k: nat) -> Seq<Option<T>>
    decreases k,
{
    if k == 0 {
        Seq::empty()
    } else {
        seq![step(s).0] + steps(step(s).1, (k - 1) as nat)
    }
}

/// `s` read from its last element to its first.
pub open spec fn backwards<T>(s: Seq<T>) -> Seq<T> {
    Seq::new(s.len(), |i: int| s[s.len() - 1 - i])
}

/// An iterator that owns the elements of a consumed `FixedHeapArray` and
/// hands them out one at a time. Elements not yet handed out are dropped
/// with the iterator.
pub struct IntoIter<T> {
    /// The pending elements, the next one last.
    rest: Vec<T>,
    /// The size of the array this iterator was made from.
    cap: usize,
}

impl<T> View for IntoIter<T> {
    type V = Seq<T>;

    /// The pending elements, in the order in which they will be handed out.
    closed spec fn view(&self) -> Seq<T> {
        backwards(self.rest@)
    }
}

impl<T> IntoIter<T> {
    /// The size of the array this iterator was made from.
    pub closed spec fn capacity(&self) -> nat {
        self.cap as nat
    }

    /// Hands out the next pending element, or `None` once all are out.
    pub fn next(&mut self) -> (r: Option<T>)
        ensures
            (r, final(self)@) == step(old(self)@),
            final(self).capacity() == old(self).capacity(),
    {
        let r = self.rest.pop();
        proof {
            assert(old(self)@.len() > 0 ==> self@ =~= old(self)@.drop_first());
        }
        r
    }

    /// The exact number of pending elements, as a lower and an upper bound.
    pub fn size_hint(&self) -> (r: (usize, Option<usize>))
        ensures
            r == (self@.len() as usize, Some(self@.len() as usize)),
    {
        let n = self.rest.len();
        (n, Some(n))
    }
}

/// Draining an iterator made from an array yields every element of the
/// array, in order of position, and after that nothing more.
pub proof fn lemma_into_iter_yields_in_order<T>(elems: Seq<T>, extra: nat)
    ensures
        steps(elems, elems.len() + extra) =~= elems.map_values(|x: T| Some(x)) + Seq::new(extra, |i: int| None::<T>),
    decreases elems.len(),
{
    if elems.len() == 0 {
        lemma_exhausted_yields_none(elems, extra);
    } else {
        lemma_into_iter_yields_in_order(elems.drop_first(), extra);
    }
}

/// An iterator with nothing pending yields `None` at every step.
pub proof fn lemma_exhausted_yields_none<T>(elems: Seq<T>, k: nat)
    requires
        elems.len() == 0,
    ensures
        steps(elems, k) =~= Seq::new(k, |i: int| None::<T>),
    decreases k,
{
    if k > 0 {
        lemma_exhausted_yields_none(elems, (k - 1) as nat);
    }
}

} // verus!
