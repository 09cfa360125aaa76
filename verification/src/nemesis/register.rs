//! The nemesis register: bookkeeping of currently-active faults under an
//! eviction policy. `put` admits a new fault record and decides which active
//! record, if any, must now be recovered.
use std::collections::VecDeque;

use madsim::rand::Rng;
use vstd::prelude::*;

verus! {

/// The policy by which the register evicts an active fault once it holds more
/// than the policy's capacity.
#[derive(Debug, Clone, Copy, PartialEq, Eq)]
pub enum NemesisRegisterStrategy {
    /// Evict the oldest record. The capacity is the payload.
    FIFO(usize),
    /// Evict a uniformly random record. The capacity is the payload.
    RandomQueue(usize),
}

impl NemesisRegisterStrategy {
    /// How many records may stay active after a `put`.
    pub open spec fn capacity(self) -> nat {
        match self {
            NemesisRegisterStrategy::FIFO(k) => k as nat,
            NemesisRegisterStrategy::RandomQueue(k) => k as nat,
        }
    }
}

impl Default for NemesisRegisterStrategy {
    fn default() -> (s: Self)
        ensures
            s == NemesisRegisterStrategy::FIFO(1usize),
    {
        NemesisRegisterStrategy::FIFO(1)
    }
}

/// Queue after appending `n` to `q` and, if over capacity, evicting the head.
pub open spec fn fifo_post<T>(cap: nat, q: Seq<T>, n: T) -> Seq<T> {
    let q1 = q.push(n);
    if q1.len() <= cap {
        q1
    } else {
        q1.drop_first()
    }
}

/// Record evicted by a FIFO put of `n` into `q`, if any.
pub open spec fn fifo_evicted<T>(cap: nat, q: Seq<T>, n: T) -> Option<T> {
    let q1 = q.push(n);
    if q1.len() <= cap {
        None
    } else {
        Some(q1[0])
    }
}

/// What a RandomQueue put of `n` into `q` may do: append, and if the queue is
/// then over capacity, remove one of its entries — possibly the one just
/// appended.
pub open spec fn random_put_ok<T>(
    cap: nat,
    q: Seq<T>,
    n: T,
    q_post: Seq<T>,
    evicted: Option<T>,
) -> bool {
    let q1 = q.push(n);
    if q1.len() <= cap {
        evicted is None && q_post == q1
    } else {
        exists|i: int|
            0 <= i < q1.len() && evicted == Some(q1[i]) && q_post == q1.remove(i)
    }
}

/// A register of the fault records that are currently active.
#[derive(Debug, Clone)]
pub struct NemesisRegister<T = crate::nemesis::NemesisRecord> {
    queue: VecDeque<T>,
    strategy: NemesisRegisterStrategy,
}

impl<T> View for NemesisRegister<T> {
    type V = Seq<T>;

    closed spec fn view(&self) -> Seq<T> {
        self.queue@
    }
}

impl<T> NemesisRegister<T> {
    /// The eviction policy in force.
    pub closed spec fn policy(self) -> NemesisRegisterStrategy {
        self.strategy
    }

    /// Create an empty register under the given policy.
    pub fn new(strategy: NemesisRegisterStrategy) -> (r: Self)
        ensures
            r@ == Seq::<T>::empty(),
            r.policy() == strategy,
    {
        NemesisRegister { queue: VecDeque::new(), strategy }
    }

    /// How many fault records are currently active.
    pub fn len(&self) -> (n: usize)
        ensures
            n == self@.len(),
    {
        self.queue.len()
    }

    /// Set the policy and return the register.
    #[inline]
    pub fn with_strategy(self, strategy: NemesisRegisterStrategy) -> (r: Self)
        ensures
            r@ == self@,
            r.policy() == strategy,
    {
        let mut this = self;
        this.set_strategy(strategy);
        this
    }

    /// Set the policy.
    #[inline]
    pub fn set_strategy(&mut self, strategy: NemesisRegisterStrategy)
        ensures
            final(self)@ == old(self)@,
            final(self).policy() == strategy,
    {
        self.strategy = strategy;
    }

    /// Admit `n` as a newly active fault record. If the register then holds
    /// more records than the policy's capacity, one record is evicted and
    /// returned: the caller must now recover that fault. Under `FIFO` the
    /// oldest record leaves; under `RandomQueue` a uniformly random one does,
    /// possibly `n` itself.
    pub fn put(&mut self, n: T) -> (evicted: Option<T>)
        ensures
            final(self).policy() == old(self).policy(),
            (old(self).policy() matches NemesisRegisterStrategy::FIFO(k) ==> {
                &&& final(self)@ == fifo_post(k as nat, old(self)@, n)
                &&& evicted == fifo_evicted(k as nat, old(self)@, n)
            }),
            (old(self).policy() matches NemesisRegisterStrategy::RandomQueue(k)
                ==> random_put_ok(k as nat, old(self)@, n, final(self)@, evicted)),
    {
        self.queue.push_back(n);
        let len = self.queue.len();
        match self.strategy {
            NemesisRegisterStrategy::FIFO(max_size) => {
                if len <= max_size {
                    return None;
                }
                let front = self.queue.pop_front();
                proof {
                    assert(self@ =~= old(self)@.push(n).drop_first());
                }
                front
            },
            NemesisRegisterStrategy::RandomQueue(max_size) => {
                if len <= max_size {
                    return None;
                }
                let index = random_index(len);
                let out = self.queue.remove(index);
                proof {
                    let q1 = old(self)@.push(n);
                    assert(out == Some(q1[index as int]) && self@ == q1.remove(index as int));
                }
                out
            },
        }
    }
}

/// Relies on `rand::Rng::gen_range` (reached through madsim's re-export of
/// the rand crate): a uniform draw from a non-empty range `0..len` lies below
/// `len`; `gen_range` panics only on an empty range, which the precondition
/// rules out.
#[verifier::external_body]
fn random_index(len: usize) -> (i: usize)
    requires
        len > 0,
    ensures
        i < len,
{
    madsim::rand::thread_rng().gen_range(0..len)
}

/// The register that starts from an empty queue and absorbs `puts` one by one
/// under `FIFO(cap)` holds, after all of them, the newest records only.
pub open spec fn fifo_queue<T>(cap: nat, puts: Seq<T>) -> Seq<T>
    decreases puts.len(),
{
    if puts.len() == 0 {
        Seq::empty()
    } else {
        fifo_post(cap, fifo_queue(cap, puts.drop_last()), puts.last())
    }
}

/// Record evicted by the last of `puts`, all absorbed under `FIFO(cap)`.
pub open spec fn fifo_run_evicted<T>(cap: nat, puts: Seq<T>) -> Option<T>
    recommends
        puts.len() > 0,
{
    fifo_evicted(cap, fifo_queue(cap, puts.drop_last()), puts.last())
}

/// After any run of FIFO puts, the queue holds exactly the last
/// `min(cap, puts.len())` records, in arrival order.
pub proof fn lemma_fifo_queue_shape<T>(cap: nat, puts: Seq<T>)
    ensures
        fifo_queue(cap, puts) == puts.skip(
            if puts.len() <= cap {
                0
            } else {
                puts.len() - cap
            },
        ),
    decreases puts.len(),
{
    if puts.len() == 0 {
        assert(fifo_queue(cap, puts) =~= puts.skip(0));
    } else {
        let prefix = puts.drop_last();
        lemma_fifo_queue_shape(cap, prefix);
        let q = fifo_queue(cap, prefix);
        let q1 = q.push(puts.last());
        if prefix.len() <= cap {
            assert(q1 =~= puts.skip(0));
            if q1.len() <= cap {
                assert(fifo_queue(cap, puts) =~= puts.skip(0));
            } else {
                assert(fifo_queue(cap, puts) =~= puts.skip(puts.len() - cap));
            }
        } else {
            assert(q1 =~= puts.skip(prefix.len() - cap));
            assert(q1.len() == cap + 1 > cap);
            assert(fifo_queue(cap, puts) =~= puts.skip(puts.len() - cap));
        }
    }
}

/// For every sequence of puts into a fresh `FIFO(cap)` register: the put at
/// position `i` (counting from zero) evicts nothing while `i < cap` — so the
/// first eviction happens exactly on put number `cap + 1` — and afterwards
/// always evicts the earliest record that had not been evicted yet, namely
/// the one put at position `i - cap`.
pub proof fn lemma_fifo_register_evictions<T>(cap: nat, puts: Seq<T>, i: int)
    requires
        0 <= i < puts.len(),
    ensures
        i < cap ==> fifo_run_evicted(cap, puts.take(i + 1)) is None,
        i >= cap ==> fifo_run_evicted(cap, puts.take(i + 1)) == Some(puts[i - cap]),
{
    let run = puts.take(i + 1);
    assert(run.drop_last() =~= puts.take(i));
    lemma_fifo_queue_shape(cap, puts.take(i));
    let q = fifo_queue(cap, puts.take(i));
    if i < cap {
        assert(q.len() == i);
        assert(q.push(run.last()).len() == i + 1 <= cap);
    } else {
        assert(q.len() == cap);
        assert(q.push(run.last()).len() == cap + 1 > cap);
        if cap == 0 {
            assert(q.push(run.last())[0] == run.last());
            assert(run.last() == puts[i]);
        } else {
            assert(q.push(run.last())[0] == q[0]);
            assert(q[0] == puts.take(i)[i - cap]);
            assert(puts.take(i)[i - cap] == puts[i - cap]);
        }
    }
}

/// A `RandomQueue(cap)` register never grows past `cap` records, and whatever
/// a put evicts was present in the queue at the moment of eviction — that is,
/// in the queue as it stood right after the new record was appended.
pub proof fn lemma_random_queue_bounded<T>(
    cap: nat,
    q: Seq<T>,
    n: T,
    q_post: Seq<T>,
    evicted: Option<T>,
)
    requires
        q.len() <= cap,
        random_put_ok(cap, q, n, q_post, evicted),
    ensures
        q_post.len() <= cap,
        evicted matches Some(e) ==> q.push(n).contains(e),
{
    let q1 = q.push(n);
    if q1.len() > cap {
        let i = choose|i: int|
            0 <= i < q1.len() && evicted == Some(q1[i]) && q_post == q1.remove(i);
        assert(q1.contains(q1[i]));
    }
}

} // verus!
