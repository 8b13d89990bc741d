//! Order-preserving collection of results from jobs that finish in any order.
//!
//! Job `i` of a batch fills slot `i` whenever it completes; results leave the
//! batch strictly by position, so result `i` is handed out only after results
//! `0..i`, however the completions were interleaved.

use vstd::prelude::*;

verus! {

/// Results of a batch of jobs, handed out in the jobs' order.
pub struct OrderedBatch<T> {
    /// Completed results not yet handed out, by position.
    slots: Vec<Option<T>>,
    /// Position of the next result to hand out.
    next: usize,
    /// Every result completed so far, by position, handed out or not.
    completed: Ghost<Seq<Option<T>>>,
    /// The results handed out so far, in the order they left.
    emitted: Ghost<Seq<T>>,
}

impl<T> OrderedBatch<T> {
    /// Number of jobs in the batch.
    pub closed spec fn spec_len(&self) -> nat {
        self.slots@.len()
    }

    /// Position of the next result to hand out.
    pub closed spec fn spec_next(&self) -> nat {
        self.next as nat
    }

    /// The results completed so far, by position.
    pub closed spec fn completed(&self) -> Seq<Option<T>> {
        self.completed@
    }

    /// The results handed out so far, in order.
    pub closed spec fn emitted(&self) -> Seq<T> {
        self.emitted@
    }

    pub closed spec fn wf(&self) -> bool {
        &&& self.next <= self.slots@.len()
        &&& self.completed@.len() == self.slots@.len()
        &&& self.emitted@.len() == self.next
        &&& forall|i: int| 0 <= i < self.next ==> self.slots@[i] is None
        &&& forall|i: int| 0 <= i < self.next ==> self.completed@[i] == Some(self.emitted@[i])
        &&& forall|i: int|
            self.next <= i < self.slots@.len() ==> self.slots@[i] == self.completed@[i]
    }

    /// A batch of `n` jobs, none completed.
    pub fn new(n: usize) -> (r: Self)
        ensures
            r.wf(),
            r.spec_len() == n,
            r.spec_next() == 0,
            r.completed() == Seq::new(n as nat, |i: int| None::<T>),
            r.emitted() == Seq::<T>::empty(),
    {
        let mut slots: Vec<Option<T>> = Vec::with_capacity(n);
        let mut i: usize = 0;
        while i < n
            invariant
                i <= n,
                slots@.len() == i,
                forall|j: int| 0 <= j < i ==> slots@[j] is None,
            decreases n - i,
        {
            slots.push(None);
            i = i + 1;
        }
        let ghost completed = Seq::new(n as nat, |i: int| None::<T>);
        proof {
            assert(slots@ =~= completed);
        }
        OrderedBatch { slots, next: 0, completed: Ghost(completed), emitted: Ghost(Seq::empty()) }
    }

    /// Number of jobs in the batch.
    pub fn len(&self) -> (r: usize)
        ensures
            r == self.spec_len(),
    {
        self.slots.len()
    }

    /// Whether every result has been handed out.
    pub fn is_finished(&self) -> (r: bool)
        requires
            self.wf(),
        ensures
            r == (self.spec_next() == self.spec_len()),
    {
        self.next == self.slots.len()
    }

    /// Records the result of job `index`, which completes once.
    pub fn complete(&mut self, index: usize, value: T)
        requires
            old(self).wf(),
            index < old(self).spec_len(),
            old(self).completed()[index as int] is None,
        ensures
            final(self).wf(),
            final(self).spec_len() == old(self).spec_len(),
            final(self).spec_next() == old(self).spec_next(),
            final(self).completed() == old(self).completed().update(index as int, Some(value)),
            final(self).emitted() == old(self).emitted(),
    {
        proof {
            if index < self.next {
                assert(self.completed@[index as int] == Some(self.emitted@[index as int]));
            }
        }
        self.slots.set(index, Some(value));
        self.completed = Ghost(self.completed@.update(index as int, Some(value)));
    }

    /// Hands out the result at the next position if that job has completed.
    pub fn pop_ready(&mut self) -> (r: Option<T>)
        requires
            old(self).wf(),
        ensures
            final(self).wf(),
            final(self).spec_len() == old(self).spec_len(),
            final(self).completed() == old(self).completed(),
            old(self).spec_next() < old(self).spec_len()
                && old(self).completed()[old(self).spec_next() as int] is Some ==> {
                &&& r == old(self).completed()[old(self).spec_next() as int]
                &&& final(self).spec_next() == old(self).spec_next() + 1
                &&& final(self).emitted() == old(self).emitted().push(r->0)
            },
            !(old(self).spec_next() < old(self).spec_len()
                && old(self).completed()[old(self).spec_next() as int] is Some) ==> {
                &&& r is None
                &&& final(self).spec_next() == old(self).spec_next()
                &&& final(self).emitted() == old(self).emitted()
            },
    {
        if self.next >= self.slots.len() {
            return None;
        }
        let i = self.next;
        let taken = self.slots[i].take();
        match taken {
            None => None,
            Some(v) => {
                self.next = i + 1;
                self.emitted = Ghost(self.emitted@.push(v));
                proof {
                    assert(self.emitted@[i as int] == v);
                }
                Some(v)
            },
        }
    }

    /// Hands out, in order, every result that is ready: those from the next
    /// position up to the first job that has not completed.
    pub fn drain_ready(&mut self) -> (r: Vec<T>)
        requires
            old(self).wf(),
        ensures
            final(self).wf(),
            final(self).spec_len() == old(self).spec_len(),
            final(self).completed() == old(self).completed(),
            old(self).spec_next() <= final(self).spec_next() <= final(self).spec_len(),
            forall|i: int|
                old(self).spec_next() <= i < final(self).spec_next()
                    ==> old(self).completed()[i] is Some,
            final(self).spec_next() == final(self).spec_len()
                || old(self).completed()[final(self).spec_next() as int] is None,
            r@.len() == final(self).spec_next() - old(self).spec_next(),
            forall|j: int|
                0 <= j < r@.len() ==> old(self).completed()[old(self).spec_next() + j] == Some(
                    r@[j],
                ),
            final(self).emitted() == old(self).emitted() + r@,
    {
        let mut out: Vec<T> = Vec::new();
        let ghost start = self.next as int;
        loop
            invariant
                self.wf(),
                self.spec_len() == old(self).spec_len(),
                self.completed() == old(self).completed(),
                start == old(self).spec_next(),
                start <= self.next,
                out@.len() == self.next - start,
                forall|i: int| start <= i < self.next ==> old(self).completed()[i] is Some,
                forall|j: int|
                    0 <= j < out@.len() ==> old(self).completed()[start + j] == Some(out@[j]),
                self.emitted() == old(self).emitted() + out@,
            ensures
                self.spec_next() == self.spec_len()
                    || old(self).completed()[self.spec_next() as int] is None,
            decreases self.spec_len() - self.next,
        {
            match self.pop_ready() {
                Some(v) => {
                    out.push(v);
                },
                None => {
                    break;
                },
            }
        }
        proof {
            assert(self.emitted() =~= old(self).emitted() + out@);
        }
        out
    }
}

impl<V, E> OrderedBatch<Result<V, E>> {
    /// Hands out, in order, the ready results up to the first failure. The
    /// successes before it come back with that failure, if one was reached;
    /// results after a failure are never handed out by this call.
    pub fn drain_until_failure(&mut self) -> (r: (Vec<V>, Option<E>))
        requires
            old(self).wf(),
        ensures
            final(self).wf(),
            final(self).spec_len() == old(self).spec_len(),
            final(self).completed() == old(self).completed(),
            forall|j: int|
                0 <= j < r.0@.len() ==> old(self).completed()[old(self).spec_next() + j] == Some(
                    Ok::<V, E>(r.0@[j]),
                ),
            r.1 is Some ==> {
                &&& old(self).completed()[(old(self).spec_next() + r.0@.len()) as int] == Some(
                    Err::<V, E>(r.1->0),
                )
                &&& final(self).spec_next() == old(self).spec_next() + r.0@.len() + 1
            },
            r.1 is None ==> {
                &&& final(self).spec_next() == old(self).spec_next() + r.0@.len()
                &&& (final(self).spec_next() == final(self).spec_len()
                    || old(self).completed()[final(self).spec_next() as int] is None)
            },
    {
        let mut out: Vec<V> = Vec::new();
        let ghost start = self.next as int;
        loop
            invariant
                self.wf(),
                self.spec_len() == old(self).spec_len(),
                self.completed() == old(self).completed(),
                start == old(self).spec_next(),
                self.next == start + out@.len(),
                forall|j: int|
                    0 <= j < out@.len() ==> old(self).completed()[start + j] == Some(
                        Ok::<V, E>(out@[j]),
                    ),
            decreases self.spec_len() - self.next,
        {
            match self.pop_ready() {
                Some(Ok(v)) => {
                    out.push(v);
                },
                Some(Err(e)) => {
                    return (out, Some(e));
                },
                None => {
                    return (out, None);
                },
            }
        }
    }
}

/// Whatever order the jobs completed in, the results handed out are the
/// jobs' results in input order: the `i`-th one out is job `i`'s result.
/// Once the batch is finished, every job's result has been handed out.
pub proof fn lemma_output_in_input_order<T>(b: &OrderedBatch<T>)
    requires
        b.wf(),
    ensures
        b.emitted().len() == b.spec_next(),
        forall|i: int| 0 <= i < b.emitted().len() ==> b.completed()[i] == Some(b.emitted()[i]),
        b.spec_next() == b.spec_len() ==> b.emitted().len() == b.spec_len(),
{
}

} // verus!
