//! Generators: the raw infinite operation source, and the cancellable,
//! pacing-aware lazy sequence of operations bound to one simulated process.
pub mod context;
pub mod controller;

use vstd::prelude::*;

use crate::generator::context::Global;
use crate::generator::controller::DelayStrategy;

verus! {

/// Position at which a sequence of length `len` is cut when up to `n` items
/// are asked for: `n` itself, or the whole length if the sequence is shorter.
pub open spec fn cut_at(n: int, len: int) -> int {
    if n <= len {
        n
    } else {
        len
    }
}

/// The items of `s` whose position is marked to keep, in order.
pub open spec fn filter_by<T>(s: Seq<T>, keeps: Seq<bool>) -> Seq<T>
    recommends
        s.len() == keeps.len(),
    decreases s.len(),
{
    if s.len() == 0 {
        Seq::empty()
    } else {
        filter_by(s.drop_last(), keeps.drop_last()) + if keeps.last() {
            seq![s.last()]
        } else {
            Seq::empty()
        }
    }
}

/// The id of a generator; doubles as the process tag of every history entry
/// the generator's items produce.
pub type GeneratorId = u64;

/// How many items one batched pull takes out of the raw generator; the batch
/// is cached so that most pulls stay out of the external source.
pub const GENERATOR_CACHE_SIZE: usize = 200;

/// The raw generator: an infinite, failure-free source of items, pulled in
/// batches to amortize the cost of crossing into the external item source.
/// Nothing can be promised of the items themselves.
pub trait RawGenerator {
    type Item;

    /// Generate one item.
    fn gen(&mut self) -> Self::Item;

    /// Generate `n` items by `n` sequential single pulls.
    fn gen_n(&mut self, n: usize) -> (out: Vec<Self::Item>)
        ensures
            out@.len() == n,
    {
        let mut out: Vec<Self::Item> = Vec::new();
        let mut i: usize = 0;
        while i < n
            invariant
                i <= n,
                out@.len() == i,
            decreases n - i,
        {
            out.push(self.gen());
            i += 1;
        }
        out
    }
}

/// A cancellable, pacing-aware lazy sequence of items for one simulated
/// process. The remaining items are held eagerly; `next` hands them out in
/// order together with the pacing delay the caller must wait out on the
/// simulation's virtual clock.
#[derive(Debug)]
pub struct Generator<T> {
    /// The process id this generator's items are tagged with.
    id: GeneratorId,
    /// The items not yet handed out, in the order they will be handed out.
    seq: Vec<T>,
    /// How long the caller must pace between items, on the virtual clock.
    delay: DelayStrategy,
}

impl<T> View for Generator<T> {
    type V = Seq<T>;

    closed spec fn view(&self) -> Seq<T> {
        self.seq@
    }
}

impl<T> Generator<T> {
    /// The process id this generator's items are tagged with.
    pub closed spec fn id_spec(self) -> GeneratorId {
        self.id
    }

    /// The pacing strategy in force.
    pub closed spec fn delay_spec(self) -> DelayStrategy {
        self.delay
    }

    /// A generator over `seq`, claiming a fresh process id from `global`.
    pub fn new<G: RawGenerator>(global: &mut Global<G>, seq: Vec<T>) -> (g: Self)
        requires
            old(global).wf(),
        ensures
            final(global).wf(),
            g@ == seq@,
            g.delay_spec() == DelayStrategy::Immediate,
            !old(global).id_set().contains(g.id_spec()),
            final(global).id_set() == old(global).id_set().insert(g.id_spec()),
    {
        let id = global.alloc_new_generator();
        Generator { id, seq, delay: DelayStrategy::Immediate }
    }

    /// A generator over `seq` with an explicit pacing strategy.
    pub fn new_with_delay<G: RawGenerator>(
        global: &mut Global<G>,
        seq: Vec<T>,
        delay: DelayStrategy,
    ) -> (g: Self)
        requires
            old(global).wf(),
        ensures
            final(global).wf(),
            g@ == seq@,
            g.delay_spec() == delay,
            !old(global).id_set().contains(g.id_spec()),
            final(global).id_set() == old(global).id_set().insert(g.id_spec()),
    {
        let id = global.alloc_new_generator();
        Generator { id, seq, delay }
    }

    /// A single-item generator: used to inject one fault deterministically
    /// into a merged stream.
    pub fn once<G: RawGenerator>(global: &mut Global<G>, item: T) -> (g: Self)
        requires
            old(global).wf(),
        ensures
            final(global).wf(),
            g@ =~= seq![item],
            g.delay_spec() == DelayStrategy::Immediate,
            !old(global).id_set().contains(g.id_spec()),
            final(global).id_set() == old(global).id_set().insert(g.id_spec()),
    {
        let id = global.alloc_new_generator();
        let mut seq: Vec<T> = Vec::new();
        seq.push(item);
        Generator { id, seq, delay: DelayStrategy::Immediate }
    }

    /// The process id of this generator.
    pub fn id(&self) -> (id: GeneratorId)
        ensures
            id == self.id_spec(),
    {
        self.id
    }

    /// Hand out the next item and the delay the caller must wait out before
    /// executing it, or nothing once the sequence has ended.
    pub fn get_without_delay(&mut self) -> (r: Option<(T, DelayStrategy)>)
        ensures
            final(self).id_spec() == old(self).id_spec(),
            final(self).delay_spec() == old(self).delay_spec(),
            match r {
                Some((item, delay)) => {
                    &&& old(self)@.len() > 0
                    &&& item == old(self)@[0]
                    &&& delay == old(self).delay_spec()
                    &&& final(self)@ == old(self)@.drop_first()
                },
                None => {
                    &&& old(self)@.len() == 0
                    &&& final(self)@ == old(self)@
                },
            },
    {
        if self.seq.len() == 0 {
            return None;
        }
        let item = self.seq.remove(0);
        let delay = self.delay;
        proof {
            assert(self@ =~= old(self)@.drop_first());
        }
        Some((item, delay))
    }

    /// Hand out the next item, or nothing once the sequence has ended.
    pub fn next(&mut self) -> (r: Option<T>)
        ensures
            final(self).id_spec() == old(self).id_spec(),
            final(self).delay_spec() == old(self).delay_spec(),
            match r {
                Some(item) => {
                    &&& old(self)@.len() > 0
                    &&& item == old(self)@[0]
                    &&& final(self)@ == old(self)@.drop_first()
                },
                None => {
                    &&& old(self)@.len() == 0
                    &&& final(self)@ == old(self)@
                },
            },
    {
        match self.get_without_delay() {
            Some((item, _delay)) => Some(item),
            None => None,
        }
    }

    /// Hand out the next item tagged with this generator's process id.
    pub fn next_with_id(&mut self) -> (r: Option<(T, GeneratorId)>)
        ensures
            final(self).id_spec() == old(self).id_spec(),
            final(self).delay_spec() == old(self).delay_spec(),
            match r {
                Some((item, id)) => {
                    &&& old(self)@.len() > 0
                    &&& item == old(self)@[0]
                    &&& id == old(self).id_spec()
                    &&& final(self)@ == old(self)@.drop_first()
                },
                None => {
                    &&& old(self)@.len() == 0
                    &&& final(self)@ == old(self)@
                },
            },
    {
        let id = self.id;
        match self.next() {
            Some(item) => Some((item, id)),
            None => None,
        }
    }

    /// Drain the generator into a vector of its items, in order.
    pub fn collect(self) -> (items: Vec<T>)
        ensures
            items@ == self@,
    {
        let mut this = self;
        let ghost orig = this@;
        let mut items: Vec<T> = Vec::new();
        loop
            invariant
                items@ + this@ == orig,
            ensures
                this@.len() == 0,
                items@ == orig,
            decreases this@.len(),
        {
            match this.next() {
                Some(item) => {
                    items.push(item);
                    proof {
                        assert(items@ + this@ =~= orig);
                    }
                },
                None => {
                    proof {
                        assert(items@ =~= orig);
                    }
                    break ;
                },
            }
        }
        items
    }

    /// Drain the generator into (item, delay) pairs, in order.
    pub fn collect_all(self) -> (items: Vec<(T, DelayStrategy)>)
        ensures
            items@.len() == self@.len(),
            forall|i: int|
                0 <= i < self@.len() ==> items@[i] == (self@[i], self.delay_spec()),
    {
        let ghost orig = self@;
        let ghost delay = self.delay_spec();
        let mut this = self;
        let mut items: Vec<(T, DelayStrategy)> = Vec::new();
        loop
            invariant
                this.delay_spec() == delay,
                items@.len() + this@.len() == orig.len(),
                forall|i: int| 0 <= i < items@.len() ==> items@[i] == (orig[i], delay),
                forall|i: int|
                    0 <= i < this@.len() ==> this@[i] == orig[items@.len() + i],
            ensures
                this@.len() == 0,
                items@.len() == orig.len(),
                forall|i: int| 0 <= i < items@.len() ==> items@[i] == (orig[i], delay),
            decreases this@.len(),
        {
            match this.get_without_delay() {
                Some((item, d)) => {
                    items.push((item, d));
                },
                None => {
                    break ;
                },
            }
        }
        items
    }

    /// Transform every item by `f`, keeping identity and pacing. Pure: it
    /// neither suspends nor consumes the process identity.
    pub fn map<U, F: Fn(T) -> U>(self, f: F) -> (g: Generator<U>)
        requires
            forall|i: int| 0 <= i < self@.len() ==> call_requires(f, (self@[i],)),
        ensures
            g.id_spec() == self.id_spec(),
            g.delay_spec() == self.delay_spec(),
            g@.len() == self@.len(),
            forall|i: int|
                0 <= i < self@.len() ==> call_ensures(f, (self@[i],), #[trigger] g@[i]),
    {
        let ghost orig = self@;
        let Generator { id, seq, delay } = self;
        let mut rest = seq;
        let mut out: Vec<U> = Vec::new();
        while rest.len() > 0
            invariant
                out@.len() + rest@.len() == orig.len(),
                forall|i: int| 0 <= i < rest@.len() ==> rest@[i] == orig[out@.len() + i],
                forall|i: int| 0 <= i < orig.len() ==> call_requires(f, (orig[i],)),
                forall|i: int|
                    0 <= i < out@.len() ==> call_ensures(f, (orig[i],), #[trigger] out@[i]),
            decreases rest@.len(),
        {
            let x = rest.remove(0);
            out.push(f(x));
        }
        Generator { id, seq: out, delay }
    }

    /// Keep only the items `f` accepts, in order, keeping identity and
    /// pacing. Pure: it neither suspends nor consumes the process identity.
    pub fn filter<F: Fn(&T) -> bool>(self, f: F) -> (g: Self)
        requires
            forall|i: int| 0 <= i < self@.len() ==> call_requires(f, (&self@[i],)),
        ensures
            g.id_spec() == self.id_spec(),
            g.delay_spec() == self.delay_spec(),
            exists|keeps: Seq<bool>|
                {
                    &&& keeps.len() == self@.len()
                    &&& (forall|i: int|
                        0 <= i < self@.len() ==> call_ensures(
                            f,
                            (&self@[i],),
                            #[trigger] keeps[i],
                        ))
                    &&& g@ == filter_by(self@, keeps)
                },
    {
        let ghost orig = self@;
        let Generator { id, seq, delay } = self;
        let mut rest = seq;
        let mut out: Vec<T> = Vec::new();
        let ghost mut keeps = Seq::<bool>::empty();
        while rest.len() > 0
            invariant
                keeps.len() + rest@.len() == orig.len(),
                forall|j: int| 0 <= j < rest@.len() ==> rest@[j] == orig[keeps.len() + j],
                forall|j: int| 0 <= j < orig.len() ==> call_requires(f, (&orig[j],)),
                forall|j: int|
                    0 <= j < keeps.len() ==> call_ensures(f, (&orig[j],), #[trigger] keeps[j]),
                out@ == filter_by(orig.take(keeps.len() as int), keeps),
            decreases rest@.len(),
        {
            let ghost done = keeps.len();
            let x = rest.remove(0);
            let keep = f(&x);
            proof {
                let old_keeps = keeps;
                keeps = keeps.push(keep);
                assert(orig.take(done as int + 1).drop_last() =~= orig.take(done as int));
                assert(keeps.drop_last() =~= old_keeps);
                assert(orig.take(done as int + 1).last() == orig[done as int]);
            }
            if keep {
                out.push(x);
            }
            proof {
                assert(out@ =~= filter_by(orig.take(keeps.len() as int), keeps));
            }
        }
        proof {
            assert(orig.take(orig.len() as int) =~= orig);
        }
        Generator { id, seq: out, delay }
    }

    /// Bound the sequence to at most `n` items.
    pub fn take(self, n: usize) -> (g: Self)
        ensures
            g.id_spec() == self.id_spec(),
            g.delay_spec() == self.delay_spec(),
            g@ == self@.take(cut_at(n as int, self@.len() as int)),
    {
        let mut this = self;
        this.seq.truncate(n);
        proof {
            assert(this@ =~= self@.take(cut_at(n as int, self@.len() as int)));
        }
        this
    }

    /// Split off the first `n` items (fewer if the sequence ends early) into
    /// a finite head generator; the tail keeps the rest. Both keep this
    /// generator's identity and pacing.
    pub fn split_at(self, n: usize) -> (r: (Self, Self))
        ensures
            r.0.id_spec() == self.id_spec() && r.1.id_spec() == self.id_spec(),
            r.0.delay_spec() == self.delay_spec() && r.1.delay_spec() == self.delay_spec(),
            r.0@ == self@.take(cut_at(n as int, self@.len() as int)),
            r.1@ == self@.skip(cut_at(n as int, self@.len() as int)),
    {
        let mut this = self;
        let cut = if n <= this.seq.len() {
            n
        } else {
            this.seq.len()
        };
        let tail_items = this.seq.split_off(cut);
        let head = Generator { id: this.id, seq: this.seq, delay: this.delay };
        let tail = Generator { id: this.id, seq: tail_items, delay: this.delay };
        proof {
            assert(head@ =~= self@.take(cut_at(n as int, self@.len() as int)));
            assert(tail@ =~= self@.skip(cut_at(n as int, self@.len() as int)));
        }
        (head, tail)
    }
}

} // verus!
