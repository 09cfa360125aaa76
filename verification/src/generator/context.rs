//! The global context of one simulation run: the id allocation pool, the
//! raw generator with its batch cache, the run's start instant, and the
//! history log. Constructed once per run and shared with every generator.
use madsim::time::Instant;
use vstd::prelude::*;

use crate::generator::{GeneratorId, RawGenerator, GENERATOR_CACHE_SIZE};
use crate::history::{
    error_view, history_wf, invoke_entry, nemesis_entry, result_entry, ErrorType,
    HistoryType, SerializableHistoryList,
};
use crate::nemesis::{classify_all, AllNemesis};
use crate::op::Op;
use crate::ids::IdSet;

verus! {

/// `id` is the smallest non-negative integer outside `ids`.
pub open spec fn is_min_free(ids: Set<u64>, id: u64) -> bool {
    &&& !ids.contains(id)
    &&& forall|m: u64| m < id ==> ids.contains(m)
}

/// The run-wide shared state.
pub struct Global<G: RawGenerator> {
    /// The generator ids currently allocated.
    pool: IdSet,
    /// The raw item source, exclusively owned by this context.
    gen: G,
    /// Items already pulled from the source but not handed out yet, newest
    /// at the front — the next item to hand out sits at the back.
    cache: Vec<G::Item>,
    /// The run's start instant on the monotonic clock; every history
    /// timestamp is measured from it.
    start_time: Instant,
    /// The run's history log.
    history: SerializableHistoryList,
}

impl<G: RawGenerator> Global<G> {
    /// The pool of allocated generator ids is well formed.
    pub open spec fn wf(self) -> bool {
        self.pool_spec().wf()
    }

    /// The pool of allocated generator ids.
    pub closed spec fn pool_spec(self) -> IdSet {
        self.pool
    }

    /// The set of generator ids currently allocated.
    pub open spec fn id_set(self) -> Set<u64> {
        self.pool_spec().as_set()
    }

    /// The run's history log.
    pub closed spec fn history_spec(self) -> SerializableHistoryList {
        self.history
    }

    /// Read access to the run's history log.
    pub fn history(&self) -> (h: &SerializableHistoryList)
        ensures
            h == self.history_spec(),
    {
        &self.history
    }

    /// Hand the finished history log out at run end.
    pub fn into_history(self) -> (h: SerializableHistoryList)
        ensures
            h == self.history_spec(),
    {
        self.history
    }

    /// Append an `Invoke` event to the run's history, timestamped with the
    /// clock's current distance from the run's start.
    pub fn push_invoke(&mut self, process: u64, value: Op)
        ensures
            final(self).id_set() == old(self).id_set(),
            final(self).wf() == old(self).wf(),
            exists|t: u64|
                final(self).history_spec()@ == old(self).history_spec()@.push(
                    #[trigger] invoke_entry(
                        old(self).history_spec()@.len() as u64,
                        t,
                        process,
                        value@,
                    ),
                ),
            history_wf(old(self).history_spec()@) ==> history_wf(final(self).history_spec()@),
    {
        let ghost v = value@;
        let t = nanos_since(&self.start_time);
        self.history.push_invoke(t, process, value);
        proof {
            assert(self.history_spec()@ == old(self).history_spec()@.push(
                invoke_entry(old(self).history_spec()@.len() as u64, t, process, v),
            ));
        }
    }

    /// Append a result event to the run's history, timestamped with the
    /// clock's current distance from the run's start.
    pub fn push_result(
        &mut self,
        process: u64,
        result_type: HistoryType,
        value: Op,
        error: Option<ErrorType>,
    )
        requires
            result_type != HistoryType::Invoke,
            (result_type == HistoryType::Okay) <==> (error is None),
        ensures
            final(self).id_set() == old(self).id_set(),
            final(self).wf() == old(self).wf(),
            exists|t: u64|
                final(self).history_spec()@ == old(self).history_spec()@.push(
                    #[trigger] result_entry(
                        old(self).history_spec()@.len() as u64,
                        t,
                        process,
                        result_type,
                        value@,
                        error_view(error),
                    ),
                ),
            history_wf(old(self).history_spec()@) ==> history_wf(final(self).history_spec()@),
    {
        let ghost v = value@;
        let ghost e = error_view(error);
        let t = nanos_since(&self.start_time);
        self.history.push_result(t, process, result_type, value, error);
        proof {
            assert(self.history_spec()@ == old(self).history_spec()@.push(
                result_entry(
                    old(self).history_spec()@.len() as u64,
                    t,
                    process,
                    result_type,
                    v,
                    e,
                ),
            ));
        }
    }

    /// A fresh context over `gen`: no ids allocated, an empty history, and
    /// the clock's current reading as the start instant.
    pub fn new(gen: G) -> (g: Self)
        ensures
            g.wf(),
            g.id_set() == Set::<u64>::empty(),
            g.history_spec()@ == Seq::<crate::history::HistoryEntryView>::empty(),
    {
        let g = Global {
            pool: IdSet::new(),
            gen,
            cache: Vec::new(),
            start_time: instant_now(),
            history: SerializableHistoryList::default(),
        };
        proof {
            assert(g.id_set() =~= Set::<u64>::empty());
        }
        g
    }

    /// The smallest generator id not currently allocated: ids freed earlier
    /// are reused before a fresh id past the current maximum is taken.
    pub fn get_next_id(&self) -> (id: GeneratorId)
        requires
            self.wf(),
        ensures
            is_min_free(self.id_set(), id),
    {
        let n = self.pool.len();
        let mut i: usize = 0;
        while i < n
            invariant
                self.wf(),
                n == self.pool_spec()@.len(),
                i <= n,
                forall|j: int| 0 <= j < i ==> self.pool_spec()@[j] == j as u64,
            decreases n - i,
        {
            if self.pool.index(i) != i as u64 {
                proof {
                    let ids = self.pool_spec()@;
                    assert forall|m: u64| m < i as u64 implies self.id_set().contains(m) by {
                        assert(ids[m as int] == m);
                    }
                    assert(!self.id_set().contains(i as u64)) by {
                        if self.id_set().contains(i as u64) {
                            let j = choose|j: int|
                                0 <= j < ids.len() && ids[j] == i as u64;
                            if j < i {
                                assert(ids[j] == j as u64);
                            } else if j > i {
                                assert(ids[i as int] < ids[j]);
                                assert(ids[i as int] > i - 1) by {
                                    if i > 0 {
                                        assert(ids[i - 1] < ids[i as int]);
                                    }
                                }
                            } else {
                                assert(ids[i as int] != i as u64);
                            }
                        }
                    }
                }
                return i as u64;
            }
            i += 1;
        }
        proof {
            let ids = self.pool_spec()@;
            assert forall|m: u64| m < n as u64 implies self.id_set().contains(m) by {
                assert(ids[m as int] == m);
            }
            assert(!self.id_set().contains(n as u64)) by {
                if self.id_set().contains(n as u64) {
                    let j = choose|j: int| 0 <= j < ids.len() && ids[j] == n as u64;
                    assert(ids[j] == j as u64);
                }
            }
        }
        n as u64
    }

    /// Claim the smallest unallocated id for a new generator.
    pub fn alloc_new_generator(&mut self) -> (id: GeneratorId)
        requires
            old(self).wf(),
        ensures
            final(self).wf(),
            is_min_free(old(self).id_set(), id),
            final(self).id_set() == old(self).id_set().insert(id),
            final(self).history_spec() == old(self).history_spec(),
    {
        let id = self.get_next_id();
        self.pool.insert(id);
        id
    }

    /// Release a generator's id back to the pool, so that the smallest-id
    /// rule can hand it out again.
    pub fn free_generator(&mut self, id: GeneratorId)
        requires
            old(self).wf(),
        ensures
            final(self).wf(),
            final(self).id_set() == old(self).id_set().remove(id),
            final(self).history_spec() == old(self).history_spec(),
    {
        self.pool.remove(id);
    }

    /// Pull the next `n` items out of the raw generator, through the batch
    /// cache: the source is asked for `GENERATOR_CACHE_SIZE` items at a time
    /// and the surplus is kept for later pulls.
    pub fn take_seq(&mut self, n: usize) -> (out: Vec<G::Item>)
        requires
            old(self).wf(),
        ensures
            final(self).wf(),
            out@.len() == n,
            final(self).id_set() == old(self).id_set(),
            final(self).history_spec() == old(self).history_spec(),
    {
        let mut out: Vec<G::Item> = Vec::new();
        while out.len() < n
            invariant
                self.wf(),
                out@.len() <= n,
                self.id_set() == old(self).id_set(),
                self.history_spec() == old(self).history_spec(),
            decreases n - out@.len(),
        {
            if self.cache.len() == 0 {
                let mut batch = self.gen.gen_n(GENERATOR_CACHE_SIZE);
                while batch.len() > 0
                    invariant
                        self.wf(),
                        self.id_set() == old(self).id_set(),
                        self.history_spec() == old(self).history_spec(),
                        self.cache@.len() + batch@.len() == GENERATOR_CACHE_SIZE,
                    decreases batch@.len(),
                {
                    match batch.pop() {
                        Some(item) => {
                            self.cache.push(item);
                        },
                        None => {},
                    }
                }
            }
            match self.cache.pop() {
                Some(item) => {
                    out.push(item);
                },
                None => {},
            }
        }
        out
    }

    /// Append an `Info` event for a nemesis to the run's history,
    /// timestamped with the clock's current distance from the run's start.
    pub fn push_nemesis(&mut self, value: AllNemesis)
        requires
            classify_all(value@) is Some,
        ensures
            final(self).id_set() == old(self).id_set(),
            final(self).wf() == old(self).wf(),
            exists|t: u64|
                final(self).history_spec()@ == old(self).history_spec()@.push(
                    #[trigger] nemesis_entry(
                        old(self).history_spec()@.len() as u64,
                        t,
                        value@,
                    ),
                ),
            history_wf(old(self).history_spec()@) ==> history_wf(final(self).history_spec()@),
    {
        let ghost v = value@;
        let t = nanos_since(&self.start_time);
        self.history.push_nemesis(t, value);
        proof {
            assert(self.history_spec()@ == old(self).history_spec()@.push(
                nemesis_entry(old(self).history_spec()@.len() as u64, t, v),
            ));
        }
    }

    /// Nanoseconds elapsed since the run's start, on the monotonic clock.
    pub fn timestamp(&self) -> u64 {
        nanos_since(&self.start_time)
    }
}

/// Reuse of a freed id: once `freed` leaves the pool, the next allocation —
/// which by `alloc_new_generator`'s contract takes the smallest id outside
/// the pool — returns an id no larger than the freed one, and never an id
/// still held.
pub proof fn lemma_id_reuse(ids: Set<u64>, freed: u64, next: u64)
    requires
        ids.contains(freed),
        is_min_free(ids.remove(freed), next),
    ensures
        next <= freed,
        !ids.remove(freed).contains(next),
{
    if next > freed {
        assert(ids.remove(freed).contains(freed));
    }
}

/// Relies on tokio's `Instant::now` (reached through madsim's re-export):
/// an opaque reading of the monotonic clock; nothing can be promised of it.
#[verifier::external_body]
fn instant_now() -> Instant {
    Instant::now()
}

/// Relies on tokio's `Instant::duration_since` — saturating, never panics —
/// and `Duration::as_nanos`: the nanoseconds from `start` to now, truncated
/// to 64 bits. The result depends on the clock, so nothing can be promised
/// of it.
#[verifier::external_body]
fn nanos_since(start: &Instant) -> u64 {
    Instant::now().duration_since(*start).as_nanos() as u64
}

#[verifier::external_type_specification]
#[verifier::external_body]
pub struct ExInstant(Instant);

} // verus!
