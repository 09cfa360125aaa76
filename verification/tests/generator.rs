use jepsen_rs::generator::context::Global;
use jepsen_rs::generator::controller::{
    DelayStrategy, GeneratorGroup, GeneratorGroupStrategy,
};
use jepsen_rs::generator::{Generator, RawGenerator};

/// A raw generator for testing: an infinite run of increasing numbers.
struct Nums(i32);

impl RawGenerator for Nums {
    type Item = i32;
    fn gen(&mut self) -> i32 {
        let out = self.0;
        self.0 += 1;
        out
    }
}

#[test]
fn test_raw_generator() {
    let mut gen = Nums(0);
    let mut out = gen.gen_n(10);
    out.sort();
    assert_eq!(out, vec![0, 1, 2, 3, 4, 5, 6, 7, 8, 9]);
}

#[test]
fn take_seq_pulls_through_the_cache() {
    let mut global = Global::new(Nums(0));
    let first = global.take_seq(3);
    assert_eq!(first.len(), 3);
    let second = global.take_seq(2);
    assert_eq!(second.len(), 2);
}

#[test]
fn id_allocation_reuses_the_smallest_freed_id() {
    let mut global = Global::new(Nums(0));
    assert_eq!(global.alloc_new_generator(), 0);
    assert_eq!(global.alloc_new_generator(), 1);
    assert_eq!(global.alloc_new_generator(), 2);
    global.free_generator(1);
    assert_eq!(global.get_next_id(), 1);
    assert_eq!(global.alloc_new_generator(), 1);
    assert_eq!(global.alloc_new_generator(), 3);
    global.free_generator(0);
    global.free_generator(2);
    assert_eq!(global.alloc_new_generator(), 0);
    assert_eq!(global.alloc_new_generator(), 2);
}

#[test]
fn test_split_at() {
    let mut global = Global::new(Nums(0));
    let g = Generator::new(&mut global, vec![1, 2, 3, 4, 5]);
    let (head, tail) = g.split_at(3);
    assert_eq!(head.collect(), vec![1, 2, 3]);
    assert_eq!(tail.collect(), vec![4, 5]);
}

#[test]
fn split_at_past_the_end_takes_everything() {
    let mut global = Global::new(Nums(0));
    let g = Generator::new(&mut global, vec![1, 2]);
    let (head, tail) = g.split_at(10);
    assert_eq!(head.collect(), vec![1, 2]);
    assert_eq!(tail.collect(), Vec::<i32>::new());
}

#[test]
fn chain_of_two_generators_concatenates() {
    let mut global = Global::new(Nums(0));
    let g1 = Generator::new(&mut global, vec![1, 2, 3]);
    let g2 = Generator::new(&mut global, vec![4, 5]);
    let group = GeneratorGroup::new(vec![g1, g2])
        .with_strategy(GeneratorGroupStrategy::Chain);
    assert_eq!(group.collect(), vec![1, 2, 3, 4, 5]);
}

#[test]
fn round_robin_interleaves() {
    let mut global = Global::new(Nums(0));
    let g1 = Generator::new(&mut global, vec![1, 2, 3]);
    let g2 = Generator::new(&mut global, vec![10, 20, 30]);
    let group = GeneratorGroup::new(vec![g1, g2])
        .with_strategy(GeneratorGroupStrategy::RoundRobin(usize::MAX));
    assert_eq!(group.collect(), vec![1, 10, 2, 20, 3, 30]);
}

#[test]
fn round_robin_skips_exhausted_generators() {
    let mut global = Global::new(Nums(0));
    let g1 = Generator::new(&mut global, vec![1]);
    let g2 = Generator::new(&mut global, vec![10, 20, 30]);
    let group = GeneratorGroup::new(vec![g1, g2])
        .with_strategy(GeneratorGroupStrategy::RoundRobin(usize::MAX));
    assert_eq!(group.collect(), vec![1, 10, 20, 30]);
}

#[test]
fn round_robin_stops_at_the_limit() {
    let mut global = Global::new(Nums(0));
    let g1 = Generator::new(&mut global, vec![1, 2, 3]);
    let g2 = Generator::new(&mut global, vec![10, 20, 30]);
    let group = GeneratorGroup::new(vec![g1, g2])
        .with_strategy(GeneratorGroupStrategy::RoundRobin(4));
    assert_eq!(group.collect(), vec![1, 10, 2, 20]);
}

#[test]
fn map_filter_take_compose() {
    let mut global = Global::new(Nums(0));
    let source: Vec<u64> = (1..=100).collect();
    let g = Generator::new(&mut global, source);
    let g = g.map(|x: u64| x + 2);
    let g = g.filter(|x: &u64| x % 3 == 0);
    let g = g.take(5);
    assert_eq!(g.collect(), vec![3, 6, 9, 12, 15]);
}

#[test]
fn weighted_group_respects_quotas() {
    let mut global = Global::new(Nums(0));
    let a: Vec<u64> = (0..100).collect();
    let b: Vec<u64> = (1000..1100).collect();
    let ga = Generator::new(&mut global, a);
    let gb = Generator::new(&mut global, b);
    let group = GeneratorGroup::new_with_count(vec![(ga, 30), (gb, 20)])
        .with_strategy(GeneratorGroupStrategy::RoundRobin(usize::MAX));
    let out = group.collect();
    let from_a = out.iter().filter(|x| **x < 1000).count();
    let from_b = out.iter().filter(|x| **x >= 1000).count();
    assert_eq!(from_a, 30);
    assert_eq!(from_b, 20);
    assert_eq!(out.len(), 50);
}

#[test]
fn once_yields_a_single_item() {
    let mut global = Global::new(Nums(0));
    let g = Generator::once(&mut global, 7);
    assert_eq!(g.collect(), vec![7]);
}

#[test]
fn collect_all_carries_the_pacing() {
    let mut global = Global::new(Nums(0));
    let g = Generator::new_with_delay(&mut global, vec![1, 2], DelayStrategy::Fixed(5));
    let out = g.collect_all();
    assert_eq!(out, vec![(1, DelayStrategy::Fixed(5)), (2, DelayStrategy::Fixed(5))]);
}

#[test]
fn next_with_id_tags_items_with_the_process() {
    let mut global = Global::new(Nums(0));
    let mut g = Generator::new(&mut global, vec![42]);
    let id = g.id();
    assert_eq!(g.next_with_id(), Some((42, id)));
    assert_eq!(g.next_with_id(), None);
}
