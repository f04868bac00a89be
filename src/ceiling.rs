use vstd::prelude::*;

verus! {

/// The largest of `ps`, or 0 when there is none.
pub open spec fn max_of(ps: Seq<u8>) -> u8
    decreases ps.len(),
{
    if ps.len() == 0 {
        0
    } else {
        let rest = max_of(ps.drop_last());
        if ps.last() > rest {
            ps.last()
        } else {
            rest
        }
    }
}

proof fn lemma_max_of(ps: Seq<u8>)
    ensures
        forall|i: int| 0 <= i < ps.len() ==> ps[i] <= max_of(ps),
        ps.len() > 0 ==> exists|i: int| 0 <= i < ps.len() && ps[i] == max_of(ps),
    decreases ps.len(),
{
    if ps.len() > 0 {
        lemma_max_of(ps.drop_last());
        assert forall|i: int| 0 <= i < ps.len() implies ps[i] <= max_of(ps) by {
            if i < ps.len() - 1 {
                assert(ps.drop_last()[i] == ps[i]);
            }
        }
        if ps.last() <= max_of(ps.drop_last()) && ps.len() > 1 {
            let j = choose|j: int| 0 <= j < ps.len() - 1 && ps.drop_last()[j] == max_of(ps.drop_last());
            assert(ps[j] == max_of(ps));
        }
    }
}

/// A resource shared between tasks, with the priority ceiling of the tasks
/// that access it: the highest of their priorities.
#[derive(Debug, Clone, Copy, PartialEq, Eq, Structural)]
pub struct Resource {
    pub ceiling: u8,
}

impl Resource {
    /// The resource shared by tasks of the given priorities.
    pub fn shared_by(priorities: &[u8]) -> (r: Resource)
        ensures
            r.ceiling == max_of(priorities@),
    {
        let mut m: u8 = 0;
        let mut i: usize = 0;
        while i < priorities.len()
            invariant
                i <= priorities@.len(),
                m == max_of(priorities@.subrange(0, i as int)),
            decreases priorities@.len() - i,
        {
            proof {
                let next = priorities@.subrange(0, i + 1);
                assert(next.drop_last() =~= priorities@.subrange(0, i as int));
            }
            if priorities[i] > m {
                m = priorities[i];
            }
            i = i + 1;
        }
        proof {
            assert(priorities@.subrange(0, priorities@.len() as int) =~= priorities@);
        }
        Resource { ceiling: m }
    }
}

/// The preemption threshold of a single processor under priority-ceiling
/// locking. A task runs only if its priority is above the current ceiling;
/// taking a resource raises the ceiling to the resource's, and releasing it
/// restores the ceiling that stood before, so locks nest.
#[derive(Debug)]
pub struct CeilingLock {
    current: u8,
    saved: Vec<u8>,
}

/// The state of a `CeilingLock`: the current ceiling, and the ceilings to
/// restore, innermost last.
pub struct CeilingModel {
    pub current: u8,
    pub saved: Seq<u8>,
}

impl View for CeilingLock {
    type V = CeilingModel;

    closed spec fn view(&self) -> CeilingModel {
        CeilingModel { current: self.current, saved: self.saved@ }
    }
}

impl CeilingLock {
    /// No resource held; the ceiling is `base`, the priority of the code that
    /// runs when no task does.
    pub fn new(base: u8) -> (r: CeilingLock)
        ensures
            r@.current == base,
            r@.saved == Seq::<u8>::empty(),
    {
        CeilingLock { current: base, saved: Vec::new() }
    }

    /// The current ceiling.
    pub fn ceiling(&self) -> (r: u8)
        ensures
            r == self@.current,
    {
        self.current
    }

    /// Whether a task of priority `p` may start now, preempting what runs.
    pub fn may_preempt(&self, p: u8) -> (r: bool)
        ensures
            r == (p > self@.current),
    {
        p > self.current
    }

    /// Takes `res`: the ceiling rises to the resource's, if that is higher.
    pub fn lock(&mut self, res: Resource)
        ensures
            final(self)@.current == (if res.ceiling > old(self)@.current {
                res.ceiling
            } else {
                old(self)@.current
            }),
            final(self)@.saved == old(self)@.saved.push(old(self)@.current),
    {
        self.saved.push(self.current);
        if res.ceiling > self.current {
            self.current = res.ceiling;
        }
    }

    /// Releases the innermost resource held: the ceiling returns to what it
    /// was when that resource was taken.
    pub fn unlock(&mut self)
        requires
            old(self)@.saved.len() > 0,
        ensures
            final(self)@.current == old(self)@.saved.last(),
            final(self)@.saved == old(self)@.saved.drop_last(),
    {
        match self.saved.pop() {
            Some(c) => self.current = c,
            None => {},
        }
    }
}

/// Mutual exclusion: once a resource shared by tasks of priorities `ps` is
/// taken, none of those tasks may preempt until it is released.
pub proof fn lemma_lock_excludes_sharers(ps: Seq<u8>, current: u8, p: u8)
    requires
        ps.contains(p),
    ensures
        !(p > (if max_of(ps) > current { max_of(ps) } else { current })),
{
    lemma_max_of(ps);
}

/// A task of higher priority than every sharer of the resource and than the
/// ceiling before the lock still preempts: locking blocks no more than it must.
pub proof fn lemma_lock_admits_higher(ps: Seq<u8>, current: u8, p: u8)
    requires
        forall|i: int| 0 <= i < ps.len() ==> ps[i] < p,
        current < p,
    ensures
        p > (if max_of(ps) > current { max_of(ps) } else { current }),
{
    lemma_max_of(ps);
}

} // verus!
