use std::collections::VecDeque;
use vstd::prelude::*;

verus! {

/// The numbers of background jobs: numbers given back are handed out again,
/// oldest first, before a new number one past the last new one is made.
pub struct JobIds {
    pool: VecDeque<u32>,
    counter: u32,
}

impl JobIds {
    /// The numbers given back and not handed out again, oldest first.
    pub closed spec fn pool(&self) -> Seq<u32> {
        self.pool@
    }

    /// The last new number made (0 before the first).
    pub closed spec fn counter(&self) -> u32 {
        self.counter
    }

    /// Every number waiting in the pool was made before and waits only once.
    pub closed spec fn wf(&self) -> bool {
        &&& forall|i: int| 0 <= i < self.pool@.len() ==> 1 <= #[trigger] self.pool@[i] <= self.counter
        &&& forall|i: int, j: int|
            0 <= i < j < self.pool@.len() ==> #[trigger] self.pool@[i] != #[trigger] self.pool@[j]
    }

    pub fn new() -> (j: JobIds)
        ensures
            j.wf(),
            j.pool() == Seq::<u32>::empty(),
            j.counter() == 0,
    {
        JobIds { pool: VecDeque::new(), counter: 0 }
    }

    /// Whether a number can be handed out: one waits in the pool, or a new
    /// one still fits a `u32`.
    pub fn can_acquire(&self) -> (b: bool)
        ensures
            b == (self.pool().len() > 0 || self.counter() < u32::MAX),
    {
        self.pool.len() > 0 || self.counter < u32::MAX
    }

    /// Whether `id` may be given back: it was handed out and is not waiting.
    pub fn can_release(&self, id: u32) -> (b: bool)
        ensures
            b == (1 <= id <= self.counter() && !self.pool().contains(id)),
    {
        if id < 1 || id > self.counter {
            return false;
        }
        let mut i: usize = 0;
        while i < self.pool.len()
            invariant
                i <= self.pool@.len(),
                forall|k: int| 0 <= k < i ==> self.pool@[k] != id,
            decreases self.pool@.len() - i,
        {
            if self.pool[i] == id {
                assert(self.pool@[i as int] == id);
                return false;
            }
            i = i + 1;
        }
        true
    }

    /// Hands out a number: the oldest one given back, else a new one.
    pub fn acquire(&mut self) -> (id: u32)
        requires
            old(self).wf(),
            old(self).pool().len() > 0 || old(self).counter() < u32::MAX,
        ensures
            final(self).wf(),
            1 <= id <= final(self).counter(),
            !final(self).pool().contains(id),
            old(self).pool().len() > 0 ==> {
                &&& id == old(self).pool()[0]
                &&& final(self).pool() == old(self).pool().drop_first()
                &&& final(self).counter() == old(self).counter()
            },
            old(self).pool().len() == 0 ==> {
                &&& id == old(self).counter() + 1
                &&& final(self).counter() == id
                &&& final(self).pool() == old(self).pool()
            },
    {
        match self.pool.pop_front() {
            Some(id) => {
                proof {
                    let p = self.pool@;
                    let o = old(self).pool@;
                    assert forall|i: int| 0 <= i < p.len() implies p[i] != id by {
                        assert(p[i] == o[i + 1]);
                        assert(o[0] != o[i + 1]);
                    }
                    assert forall|i: int, j: int|
                        0 <= i < j < p.len() implies #[trigger] p[i] != #[trigger] p[j] by {
                        assert(p[i] == o[i + 1]);
                        assert(p[j] == o[j + 1]);
                    }
                    assert forall|i: int| 0 <= i < p.len() implies 1 <= #[trigger] p[i]
                        <= self.counter by {
                        assert(p[i] == o[i + 1]);
                    }
                }
                id
            },
            None => {
                self.counter = self.counter + 1;
                self.counter
            },
        }
    }

    /// Gives a number back, once its job has ended.
    pub fn release(&mut self, id: u32)
        requires
            old(self).wf(),
            1 <= id <= old(self).counter(),
            !old(self).pool().contains(id),
        ensures
            final(self).wf(),
            final(self).pool() == old(self).pool().push(id),
            final(self).counter() == old(self).counter(),
    {
        self.pool.push_back(id);
        proof {
            let p = self.pool@;
            let o = old(self).pool@;
            assert forall|i: int, j: int| 0 <= i < j < p.len() implies #[trigger] p[i]
                != #[trigger] p[j] by {
                if j == o.len() {
                    assert(o[i] == p[i]);
                    assert(o.contains(o[i]));
                }
            }
        }
    }
}

} // verus!
