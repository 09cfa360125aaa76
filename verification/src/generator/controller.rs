//! Pacing and scheduling policies, and the generator group: the merge of
//! several generators into one ordered stream under a selectable strategy.
use vstd::prelude::*;

use crate::generator::{Generator, GeneratorId};

verus! {

/// How a generator paces itself between two items, measured on the
/// simulation's virtual clock; wall-clock time never elapses for it.
#[derive(Debug, Clone, Copy, PartialEq, Eq, Structural)]
pub enum DelayStrategy {
    /// No pacing: the next item may be executed at once.
    Immediate,
    /// Wait the given number of virtual-clock nanoseconds before each item.
    Fixed(u64),
}

impl Default for DelayStrategy {
    fn default() -> (d: Self)
        ensures
            d == DelayStrategy::Immediate,
    {
        DelayStrategy::Immediate
    }
}

/// How a generator group merges its generators into one stream.
#[derive(Debug, Clone, Copy, PartialEq, Eq, Structural)]
pub enum GeneratorGroupStrategy {
    /// Fully drain the first generator, then the second, and so on.
    Chain,
    /// Visit the not-yet-exhausted generators in a fixed cyclic order, one
    /// item per visit, until all are exhausted or the given total number of
    /// items has been emitted.
    RoundRobin(usize),
}

impl Default for GeneratorGroupStrategy {
    fn default() -> (s: Self)
        ensures
            s == GeneratorGroupStrategy::Chain,
    {
        GeneratorGroupStrategy::Chain
    }
}

/// One generator as the merge sees it: its remaining items, its remaining
/// quota of turns, its process id, and its pacing.
pub type GroupEntry<T> = (Seq<T>, nat, u64, DelayStrategy);

/// One emitted unit: the item, the process id of the generator it came
/// from, and that generator's pacing.
pub type GroupItem<T> = (T, u64, DelayStrategy);

/// Termination measure of a merge: every step either emits an item from
/// some generator's sequence or retires a generator, so the total of all
/// sequence lengths plus the number of generators shrinks.
pub open spec fn group_measure<T>(gens: Seq<GroupEntry<T>>) -> nat
    decreases gens.len(),
{
    if gens.len() == 0 {
        0
    } else {
        gens[0].0.len() + 1 + group_measure(gens.drop_first())
    }
}

/// Appending a generator to the rotation adds its share to the measure.
pub proof fn lemma_group_measure_push<T>(gens: Seq<GroupEntry<T>>, entry: GroupEntry<T>)
    ensures
        group_measure(gens.push(entry)) == group_measure(gens) + entry.0.len() + 1,
    decreases gens.len(),
{
    if gens.len() == 0 {
        assert(gens.push(entry)[0] == entry);
        assert(gens.push(entry).drop_first() =~= Seq::<GroupEntry<T>>::empty());
        assert(group_measure(Seq::<GroupEntry<T>>::empty()) == 0);
    } else {
        lemma_group_measure_push(gens.drop_first(), entry);
        assert(gens.push(entry).drop_first() =~= gens.drop_first().push(entry));
        assert(gens.push(entry)[0] == gens[0]);
    }
}

/// `s` tagged with one generator's process id and pacing.
pub open spec fn with_tags<T>(s: Seq<T>, id: u64, delay: DelayStrategy) -> Seq<GroupItem<T>> {
    Seq::new(s.len(), |i: int| (s[i], id, delay))
}

/// What a chain merge emits: each generator in the order supplied, drained
/// up to its quota, then the next one — generator-major order.
pub open spec fn chain_output<T>(gens: Seq<GroupEntry<T>>) -> Seq<GroupItem<T>>
    decreases gens.len(),
{
    if gens.len() == 0 {
        Seq::empty()
    } else {
        let g = gens[0];
        with_tags(g.0.take(crate::generator::cut_at(g.1 as int, g.0.len() as int)), g.2, g.3)
            + chain_output(gens.drop_first())
    }
}

/// What a round-robin merge emits, with `budget` items still allowed: the
/// head of the rotation is retired at once if it is exhausted or out of
/// quota; otherwise it emits one item and moves, with one turn less, to the
/// back of the rotation — cycle-major order.
pub open spec fn rr_output<T>(gens: Seq<GroupEntry<T>>, budget: nat) -> Seq<GroupItem<T>>
    decreases group_measure(gens),
    via rr_output_decreases::<T>
{
    if gens.len() == 0 || budget == 0 {
        Seq::empty()
    } else {
        let g = gens[0];
        if g.0.len() == 0 || g.1 == 0 {
            rr_output(gens.drop_first(), budget)
        } else {
            seq![(g.0[0], g.2, g.3)] + rr_output(
                gens.drop_first().push((g.0.drop_first(), (g.1 - 1) as nat, g.2, g.3)),
                (budget - 1) as nat,
            )
        }
    }
}

#[via_fn]
proof fn rr_output_decreases<T>(gens: Seq<GroupEntry<T>>, budget: nat) {
    if gens.len() > 0 && budget > 0 {
        let g = gens[0];
        if !(g.0.len() == 0 || g.1 == 0) {
            let moved = (g.0.drop_first(), (g.1 - 1) as nat, g.2, g.3);
            lemma_group_measure_push(gens.drop_first(), moved);
        }
    }
}

/// A merge of several generators into one ordered stream of (item,
/// process-id, pacing) units.
#[derive(Debug)]
pub struct GeneratorGroup<T> {
    /// The rotation: each generator with its remaining quota of turns.
    gens: Vec<(Generator<T>, usize)>,
    /// The merge strategy.
    strategy: GeneratorGroupStrategy,
    /// How many more items may be emitted in all (round robin only).
    budget: usize,
}

impl<T> GeneratorGroup<T> {
    /// The merge as the specification sees it.
    pub closed spec fn state(self) -> Seq<GroupEntry<T>> {
        self.gens@.map_values(
            |p: (Generator<T>, usize)| (p.0@, p.1 as nat, p.0.id_spec(), p.0.delay_spec()),
        )
    }

    /// The merge strategy in force.
    pub closed spec fn strategy_spec(self) -> GeneratorGroupStrategy {
        self.strategy
    }

    /// How many more items the merge may emit in all.
    pub closed spec fn budget_spec(self) -> nat {
        self.budget as nat
    }

    /// Everything this merge will emit, in order.
    pub open spec fn output_spec(self) -> Seq<GroupItem<T>> {
        match self.strategy_spec() {
            GeneratorGroupStrategy::Chain => chain_output(self.state()),
            GeneratorGroupStrategy::RoundRobin(_) => rr_output(
                self.state(),
                self.budget_spec(),
            ),
        }
    }

    /// A group over `gens` in rotation order, under the chain strategy,
    /// with no quota on any generator.
    pub fn new(gens: Vec<Generator<T>>) -> (g: Self)
        ensures
            g.strategy_spec() == GeneratorGroupStrategy::Chain,
            g.state().len() == gens@.len(),
            forall|i: int|
                0 <= i < gens@.len() ==> (#[trigger] g.state()[i]) == (
                    gens@[i]@,
                    usize::MAX as nat,
                    gens@[i].id_spec(),
                    gens@[i].delay_spec(),
                ),
    {
        let mut rotation: Vec<(Generator<T>, usize)> = Vec::new();
        let mut rest = gens;
        let ghost orig = rest@;
        while rest.len() > 0
            invariant
                rotation@.len() + rest@.len() == orig.len(),
                forall|i: int| 0 <= i < rest@.len() ==> rest@[i] == orig[rotation@.len() + i],
                forall|i: int|
                    0 <= i < rotation@.len() ==> (#[trigger] rotation@[i]) == (orig[i],
                    usize::MAX),
            decreases rest@.len(),
        {
            let g = rest.remove(0);
            rotation.push((g, usize::MAX));
        }
        let group = GeneratorGroup {
            gens: rotation,
            strategy: GeneratorGroupStrategy::Chain,
            budget: usize::MAX,
        };
        group
    }

    /// A group over `gens` in rotation order, each generator with a fixed
    /// quota of turns: it is retired once the quota is consumed, even if
    /// its sequence is not exhausted — proportional mixing of sources.
    pub fn new_with_count(gens: Vec<(Generator<T>, usize)>) -> (g: Self)
        ensures
            g.strategy_spec() == GeneratorGroupStrategy::Chain,
            g.state().len() == gens@.len(),
            forall|i: int|
                0 <= i < gens@.len() ==> (#[trigger] g.state()[i]) == (
                    gens@[i].0@,
                    gens@[i].1 as nat,
                    gens@[i].0.id_spec(),
                    gens@[i].0.delay_spec(),
                ),
    {
        let group = GeneratorGroup {
            gens,
            strategy: GeneratorGroupStrategy::Chain,
            budget: usize::MAX,
        };
        group
    }

    /// Select the merge strategy; a round-robin limit becomes the emission
    /// budget of the whole group.
    pub fn with_strategy(self, strategy: GeneratorGroupStrategy) -> (g: Self)
        ensures
            g.state() == self.state(),
            g.strategy_spec() == strategy,
            g.budget_spec() == match strategy {
                GeneratorGroupStrategy::Chain => usize::MAX as nat,
                GeneratorGroupStrategy::RoundRobin(limit) => limit as nat,
            },
    {
        let budget = match strategy {
            GeneratorGroupStrategy::Chain => usize::MAX,
            GeneratorGroupStrategy::RoundRobin(limit) => limit,
        };
        GeneratorGroup { gens: self.gens, strategy, budget }
    }

    /// Emit the next unit of the merged stream — the item, the process id
    /// of the generator it came from, and that generator's pacing — or
    /// nothing once the merge has ended.
    pub fn next_unit(&mut self) -> (r: Option<(T, GeneratorId, DelayStrategy)>)
        ensures
            final(self).strategy_spec() == old(self).strategy_spec(),
            match r {
                Some(unit) => old(self).output_spec() == seq![unit]
                    + final(self).output_spec(),
                None => {
                    &&& old(self).output_spec() == Seq::<GroupItem<T>>::empty()
                    &&& final(self).output_spec() == Seq::<GroupItem<T>>::empty()
                },
            },
        decreases old(self).state().len(),
    {
        if self.gens.len() == 0 {
            return None;
        }
        let is_rr = match self.strategy {
            GeneratorGroupStrategy::Chain => false,
            GeneratorGroupStrategy::RoundRobin(_) => true,
        };
        if is_rr && self.budget == 0 {
            return None;
        }
        let ghost pre_state = self.state();
        let (mut g, q) = self.gens.remove(0);
        proof {
            assert(self.state() =~= pre_state.drop_first());
        }
        if q == 0 {
            proof {
                assert(pre_state[0].1 == 0);
                assert(chain_output(pre_state) =~= with_tags(
                    pre_state[0].0.take(0),
                    pre_state[0].2,
                    pre_state[0].3,
                ) + chain_output(pre_state.drop_first()));
                assert(with_tags(pre_state[0].0.take(0), pre_state[0].2, pre_state[0].3)
                    =~= Seq::<GroupItem<T>>::empty());
                assert(chain_output(pre_state) =~= chain_output(pre_state.drop_first()));
            }
            return self.next_unit();
        }
        let id = g.id();
        match g.get_without_delay() {
            Some((item, delay)) => {
                match self.strategy {
                    GeneratorGroupStrategy::Chain => {
                        let new_q = q - 1;
                        self.gens.insert(0, (g, new_q));
                        proof {
                            let head0 = pre_state[0];
                            let head1 = (head0.0.drop_first(), (head0.1 - 1) as nat,
                            head0.2, head0.3);
                            assert(self.state() =~= seq![head1] + pre_state.drop_first());
                            assert((seq![head1] + pre_state.drop_first()).drop_first()
                                =~= pre_state.drop_first());
                            let cut0 = crate::generator::cut_at(
                                head0.1 as int,
                                head0.0.len() as int,
                            );
                            let cut1 = crate::generator::cut_at(
                                head1.1 as int,
                                head1.0.len() as int,
                            );
                            assert(head0.0.take(cut0) =~= seq![head0.0[0]]
                                + head1.0.take(cut1));
                            assert(with_tags(head0.0.take(cut0), head0.2, head0.3)
                                =~= seq![(head0.0[0], head0.2, head0.3)] + with_tags(
                                head1.0.take(cut1),
                                head1.2,
                                head1.3,
                            ));
                            assert(chain_output(pre_state) =~= seq![
                                (head0.0[0], head0.2, head0.3),
                            ] + chain_output(self.state()));
                        }
                        Some((item, id, delay))
                    },
                    GeneratorGroupStrategy::RoundRobin(_) => {
                        let new_q = q - 1;
                        self.gens.push((g, new_q));
                        self.budget = self.budget - 1;
                        proof {
                            let head0 = pre_state[0];
                            let head1 = (head0.0.drop_first(), (head0.1 - 1) as nat,
                            head0.2, head0.3);
                            assert(self.state() =~= pre_state.drop_first().push(head1));
                            assert(rr_output(pre_state, old(self).budget_spec()) =~= seq![
                                (head0.0[0], head0.2, head0.3),
                            ] + rr_output(self.state(), self.budget_spec()));
                        }
                        Some((item, id, delay))
                    },
                }
            },
            None => {
                proof {
                    assert(pre_state[0].0.len() == 0);
                    match self.strategy {
                        GeneratorGroupStrategy::Chain => {
                            let head0 = pre_state[0];
                            let cut0 = crate::generator::cut_at(
                                head0.1 as int,
                                head0.0.len() as int,
                            );
                            assert(with_tags(head0.0.take(cut0), head0.2, head0.3)
                                =~= Seq::<GroupItem<T>>::empty());
                            assert(chain_output(pre_state) =~= chain_output(
                                pre_state.drop_first(),
                            ));
                        },
                        GeneratorGroupStrategy::RoundRobin(_) => {},
                    }
                }
                self.next_unit()
            },
        }
    }

    /// Emit the next item with the process id of its generator.
    pub fn next_with_id(&mut self) -> (r: Option<(T, GeneratorId)>)
        ensures
            final(self).strategy_spec() == old(self).strategy_spec(),
            match r {
                Some((item, id)) => {
                    &&& old(self).output_spec().len() > 0
                    &&& item == old(self).output_spec()[0].0
                    &&& id == old(self).output_spec()[0].1
                    &&& final(self).output_spec() == old(self).output_spec().drop_first()
                },
                None => {
                    &&& old(self).output_spec() == Seq::<GroupItem<T>>::empty()
                    &&& final(self).output_spec() == Seq::<GroupItem<T>>::empty()
                },
            },
    {
        match self.next_unit() {
            Some((item, id, _delay)) => {
                proof {
                    assert(old(self).output_spec().drop_first() =~= self.output_spec());
                }
                Some((item, id))
            },
            None => None,
        }
    }

    /// Emit the next item of the merged stream.
    pub fn next(&mut self) -> (r: Option<T>)
        ensures
            final(self).strategy_spec() == old(self).strategy_spec(),
            match r {
                Some(item) => {
                    &&& old(self).output_spec().len() > 0
                    &&& item == old(self).output_spec()[0].0
                    &&& final(self).output_spec() == old(self).output_spec().drop_first()
                },
                None => {
                    &&& old(self).output_spec() == Seq::<GroupItem<T>>::empty()
                    &&& final(self).output_spec() == Seq::<GroupItem<T>>::empty()
                },
            },
    {
        match self.next_with_id() {
            Some((item, _id)) => Some(item),
            None => None,
        }
    }

    /// Drain the merge into its items, in merge order.
    pub fn collect(self) -> (items: Vec<T>)
        ensures
            items@.len() == self.output_spec().len(),
            forall|i: int|
                0 <= i < items@.len() ==> items@[i] == self.output_spec()[i].0,
    {
        let ghost orig = self.output_spec();
        let mut this = self;
        let mut items: Vec<T> = Vec::new();
        loop
            invariant
                items@.len() + this.output_spec().len() == orig.len(),
                forall|i: int| 0 <= i < items@.len() ==> items@[i] == orig[i].0,
                forall|i: int|
                    0 <= i < this.output_spec().len() ==> this.output_spec()[i]
                        == orig[items@.len() + i],
            ensures
                this.output_spec().len() == 0,
                items@.len() == orig.len(),
                forall|i: int| 0 <= i < items@.len() ==> items@[i] == orig[i].0,
            decreases this.output_spec().len(),
        {
            let ghost pre_out = this.output_spec();
            let ghost done = items@.len();
            match this.next() {
                Some(item) => {
                    items.push(item);
                    proof {
                        assert forall|i: int|
                            0 <= i < this.output_spec().len() implies this.output_spec()[i]
                            == orig[items@.len() + i] by {
                            assert(this.output_spec()[i] == pre_out[i + 1]);
                            assert(pre_out[i + 1] == orig[done + (i + 1)]);
                        }
                        assert(items@[done as int] == orig[done as int].0);
                    }
                },
                None => {
                    break ;
                },
            }
        }
        items
    }

    /// Drain the merge into (item, pacing) pairs, in merge order.
    pub fn collect_all(self) -> (items: Vec<(T, DelayStrategy)>)
        ensures
            items@.len() == self.output_spec().len(),
            forall|i: int|
                0 <= i < items@.len() ==> items@[i] == (
                    self.output_spec()[i].0,
                    self.output_spec()[i].2,
                ),
    {
        let ghost orig = self.output_spec();
        let mut this = self;
        let mut items: Vec<(T, DelayStrategy)> = Vec::new();
        loop
            invariant
                items@.len() + this.output_spec().len() == orig.len(),
                forall|i: int|
                    0 <= i < items@.len() ==> items@[i] == (orig[i].0, orig[i].2),
                forall|i: int|
                    0 <= i < this.output_spec().len() ==> this.output_spec()[i]
                        == orig[items@.len() + i],
            ensures
                this.output_spec().len() == 0,
                items@.len() == orig.len(),
                forall|i: int|
                    0 <= i < items@.len() ==> items@[i] == (orig[i].0, orig[i].2),
            decreases this.output_spec().len(),
        {
            let ghost pre_out = this.output_spec();
            let ghost done = items@.len();
            match this.next_unit() {
                Some((item, _id, delay)) => {
                    items.push((item, delay));
                    proof {
                        assert forall|i: int|
                            0 <= i < this.output_spec().len() implies this.output_spec()[i]
                            == orig[items@.len() + i] by {
                            assert(pre_out == seq![(item, _id, delay)]
                                + this.output_spec());
                            assert(this.output_spec()[i] == pre_out[i + 1]);
                            assert(pre_out[i + 1] == orig[done + (i + 1)]);
                        }
                        assert(pre_out[0] == orig[done as int]);
                        assert(items@[done as int] == (orig[done as int].0,
                        orig[done as int].2));
                    }
                },
                None => {
                    break ;
                },
            }
        }
        items
    }
}

} // verus!
