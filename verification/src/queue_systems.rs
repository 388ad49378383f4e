//! Work lists for iterative tree traversal: a queue and a stack, both
//! growable so that a deep tree can never overflow them.

use vstd::prelude::*;

verus! {

/// A first-in-first-out queue of node indices.
pub struct StackQueue {
    queue: Vec<usize>,
    start: usize,
}

impl StackQueue {
    /// The entries still waiting, oldest first.
    pub closed spec fn view(self) -> Seq<usize> {
        self.queue@.skip(self.start as int)
    }

    /// A queue is well formed when its read position is inside its storage.
    pub closed spec fn wf(self) -> bool {
        self.start <= self.queue@.len()
    }

    /// An empty queue.
    pub fn new() -> (q: StackQueue)
        ensures
            q.wf(),
            q.view() == Seq::<usize>::empty(),
    {
        let q = StackQueue { queue: Vec::new(), start: 0 };
        proof {
            assert(q.view() =~= Seq::<usize>::empty());
        }
        q
    }

    /// Append one entry at the back.
    pub fn push(&mut self, n: usize)
        requires
            old(self).wf(),
        ensures
            final(self).wf(),
            final(self).view() == old(self).view().push(n),
    {
        self.queue.push(n);
        proof {
            assert(self.view() =~= old(self).view().push(n));
        }
    }

    /// Take the oldest entry, or nothing if the queue is exhausted.
    pub fn pop(&mut self) -> (r: Option<usize>)
        requires
            old(self).wf(),
        ensures
            final(self).wf(),
            old(self).view().len() == 0 ==> r is None && final(self).view() == old(self).view(),
            old(self).view().len() > 0 ==> r == Some(old(self).view()[0]) && final(self).view()
                == old(self).view().skip(1),
    {
        if self.start == self.queue.len() {
            None
        } else {
            let r = self.queue[self.start];
            self.start = self.start + 1;
            proof {
                assert(self.view() =~= old(self).view().skip(1));
            }
            Some(r)
        }
    }
}

/// A last-in-first-out stack of node indices.
pub struct FastStack {
    stack: Vec<usize>,
}

impl FastStack {
    /// The entries still waiting, oldest at the front.
    pub closed spec fn view(self) -> Seq<usize> {
        self.stack@
    }

    /// An empty stack.
    pub fn new() -> (s: FastStack)
        ensures
            s.view() == Seq::<usize>::empty(),
    {
        let s = FastStack { stack: Vec::new() };
        proof {
            assert(s.view() =~= Seq::<usize>::empty());
        }
        s
    }

    /// Put one entry on top.
    pub fn push(&mut self, n: usize)
        ensures
            final(self).view() == old(self).view().push(n),
    {
        self.stack.push(n);
    }

    /// Take the most recent entry, or nothing if the stack is exhausted.
    pub fn pop(&mut self) -> (r: Option<usize>)
        ensures
            old(self).view().len() == 0 ==> r is None && final(self).view() == old(self).view(),
            old(self).view().len() > 0 ==> r == Some(old(self).view().last())
                && final(self).view() == old(self).view().drop_last(),
    {
        let r = self.stack.pop();
        proof {
            if old(self).view().len() > 0 {
                assert(self.view() =~= old(self).view().drop_last());
            }
        }
        r
    }
}

} // verus!
