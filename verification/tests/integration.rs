use jepsen_rs::generator::context::Global;
use jepsen_rs::generator::controller::{GeneratorGroup, GeneratorGroupStrategy};
use jepsen_rs::generator::{Generator, RawGenerator};
use jepsen_rs::history::HistoryType;
use jepsen_rs::nemesis::{AllNemesis, NemesisType};
use jepsen_rs::op::{Op, OpOrNemesis};

/// A raw generator for testing: a fixed little workload, repeated forever.
struct TestOpGen(u64);

impl RawGenerator for TestOpGen {
    type Item = OpOrNemesis;
    fn gen(&mut self) -> OpOrNemesis {
        self.0 += 1;
        if self.0 % 2 == 1 {
            OpOrNemesis::Op(Op::Write(1, 1))
        } else {
            OpOrNemesis::Op(Op::Txn(vec![Op::Read(1, Some(1)), Op::Write(1, 1)]))
        }
    }
}

#[test]
fn test_nemesis_and_op_generator_intergration() {
    let mut global = Global::new(TestOpGen(0));
    let seq = global.take_seq(2);
    let gen = Generator::new(&mut global, seq);
    let nemesis = Generator::once(
        &mut global,
        OpOrNemesis::Nemesis(AllNemesis::Execute(NemesisType::SplitOne(1))),
    );
    let group = GeneratorGroup::new(vec![gen, nemesis])
        .with_strategy(GeneratorGroupStrategy::Chain);
    let res = group.collect();
    assert_eq!(res.len(), 3);
    assert!(match &res[0] {
        OpOrNemesis::Op(op) => op.deep_eq(&Op::Write(1, 1)),
        _ => false,
    });
    assert!(match &res[1] {
        OpOrNemesis::Op(op) =>
            op.deep_eq(&Op::Txn(vec![Op::Read(1, Some(1)), Op::Write(1, 1)])),
        _ => false,
    });
    assert!(matches!(
        &res[2],
        OpOrNemesis::Nemesis(AllNemesis::Execute(NemesisType::SplitOne(1)))
    ));
}

/// A full simulated run: generate operations, "execute" them against a toy
/// register, and record everything; the history must come out well formed.
#[test]
fn run_records_a_well_formed_history() {
    let mut global = Global::new(TestOpGen(0));
    let seq = global.take_seq(6);
    let gen = Generator::new(&mut global, seq);
    let mut group = GeneratorGroup::new(vec![gen])
        .with_strategy(GeneratorGroupStrategy::RoundRobin(usize::MAX));
    while let Some((item, process)) = group.next_with_id() {
        match item {
            OpOrNemesis::Op(op) => {
                let completed = op.clone();
                global.push_invoke(process, op);
                global.push_result(process, HistoryType::Okay, completed, None);
            }
            OpOrNemesis::Nemesis(n) => {
                global.push_nemesis(n);
            }
        }
    }
    let history = global.into_history();
    assert_eq!(history.len(), 12);
    for i in 0..history.len() {
        assert_eq!(history.index(i).index, i as u64);
    }
    let text = jepsen_rs::codec::entry::encode_history(&history);
    let back = jepsen_rs::codec::entry::decode_history(&text).unwrap();
    assert!(back.deep_eq(&history));
}
