use vstd::prelude::*;

verus! {

/// A first-in first-out queue that never holds more than a fixed number of items.
/// A push onto a full queue fails and leaves it as it was.
pub struct BoundedQueue<T> {
    items: Vec<T>,
    capacity: usize,
}

impl<T> View for BoundedQueue<T> {
    type V = Seq<T>;

    /// The items, oldest first.
    closed spec fn view(&self) -> Seq<T> {
        self.items@
    }
}

impl<T> BoundedQueue<T> {
    /// The most items the queue holds.
    pub closed spec fn max_len(&self) -> nat {
        self.capacity as nat
    }

    pub open spec fn wf(&self) -> bool {
        self@.len() <= self.max_len()
    }

    /// An empty queue that holds at most `capacity` items.
    pub fn new(capacity: usize) -> (r: Self)
        ensures
            r.wf(),
            r@ == Seq::<T>::empty(),
            r.max_len() == capacity,
    {
        BoundedQueue { items: Vec::new(), capacity }
    }

    pub fn len(&self) -> (r: usize)
        ensures
            r == self@.len(),
    {
        self.items.len()
    }

    pub fn capacity(&self) -> (r: usize)
        ensures
            r == self.max_len(),
    {
        self.capacity
    }

    pub fn is_full(&self) -> (r: bool)
        requires
            self.wf(),
        ensures
            r == (self@.len() == self.max_len()),
    {
        self.items.len() == self.capacity
    }

    /// Appends `item`, or hands it back when the queue is full.
    pub fn push(&mut self, item: T) -> (r: Result<(), T>)
        requires
            old(self).wf(),
        ensures
            final(self).wf(),
            final(self).max_len() == old(self).max_len(),
            old(self)@.len() == old(self).max_len() ==> r == Err::<(), T>(item) && final(self)@
                == old(self)@,
            old(self)@.len() < old(self).max_len() ==> r == Ok::<(), T>(()) && final(self)@
                == old(self)@.push(item),
    {
        if self.items.len() == self.capacity {
            return Err(item);
        }
        self.items.push(item);
        Ok(())
    }

    /// Takes the oldest item out.
    pub fn pop(&mut self) -> (r: T)
        requires
            old(self).wf(),
            old(self)@.len() > 0,
        ensures
            final(self).wf(),
            final(self).max_len() == old(self).max_len(),
            r == old(self)@[0],
            final(self)@ == old(self)@.drop_first(),
    {
        let r = self.items.remove(0);
        assert(self.items@ =~= old(self)@.drop_first());
        r
    }
}

/// The queue contents after pushing `items` in order onto `s`, each push succeeding.
pub open spec fn pushed_all<T>(s: Seq<T>, items: Seq<T>) -> Seq<T>
    decreases items.len(),
{
    if items.len() == 0 {
        s
    } else {
        pushed_all(s.push(items[0]), items.drop_first())
    }
}

/// The items that `n` pops take out of a queue holding `s`, in the order taken.
pub open spec fn popped<T>(s: Seq<T>, n: nat) -> Seq<T>
    decreases n,
{
    if n == 0 || s.len() == 0 {
        Seq::empty()
    } else {
        seq![s[0]].add(popped(s.drop_first(), (n - 1) as nat))
    }
}

proof fn lemma_pushed_all_is_concat<T>(s: Seq<T>, items: Seq<T>)
    ensures
        pushed_all(s, items) == s + items,
    decreases items.len(),
{
    if items.len() == 0 {
        assert(s + items =~= s);
    } else {
        lemma_pushed_all_is_concat(s.push(items[0]), items.drop_first());
        assert(s.push(items[0]) + items.drop_first() =~= s + items);
    }
}

proof fn lemma_popped_all<T>(s: Seq<T>)
    ensures
        popped(s, s.len()) == s,
    decreases s.len(),
{
    if s.len() > 0 {
        lemma_popped_all(s.drop_first());
        assert(seq![s[0]].add(s.drop_first()) =~= s);
    }
}

/// A queue is first-in first-out: pushing `items` one by one onto an empty queue
/// and then popping as many times gives the items back in the order pushed.
pub proof fn lemma_fifo<T>(items: Seq<T>)
    ensures
        popped(pushed_all(Seq::empty(), items), items.len()) == items,
{
    lemma_pushed_all_is_concat(Seq::empty(), items);
    assert(Seq::<T>::empty() + items =~= items);
    lemma_popped_all(items);
}

} // verus!
