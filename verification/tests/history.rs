use jepsen_rs::history::{
    HistoryProcess, HistoryType, HistoryValue, SerializableHistoryList,
};
use jepsen_rs::ids::IdSet;
use jepsen_rs::nemesis::{
    AllNemesis, NemesisRecord, NemesisType, NetRecord, SerializableNemesisType,
};
use jepsen_rs::op::{Op, OpFunctionType, OpOrNemesisFuncType};

fn two_ids() -> IdSet {
    let mut ids = IdSet::new();
    ids.insert(1);
    ids.insert(2);
    ids
}

#[test]
fn test_push_op_and_nemesis_to_history_and_conversion() {
    let nm = AllNemesis::Execute(NemesisType::PartitionHalves(two_ids()));
    let mut res = SerializableHistoryList::default();
    res.push_nemesis(0, nm);
    let his = res.index(0);
    assert_eq!(his.type_, HistoryType::Info);
    assert_eq!(
        his.f,
        OpOrNemesisFuncType::Nemesis(SerializableNemesisType::Partition)
    );
    assert_eq!(his.process, HistoryProcess::Nemesis);
    assert!(match his.value {
        HistoryValue::String(ref s) => s.starts_with("Execute: {\"PartitionHalves\""),
        _ => false,
    });
    res.push_invoke(1, 1, Op::Read(1, None));
    let text = jepsen_rs::codec::entry::encode_history(&res);
    let back = jepsen_rs::codec::entry::decode_history(&text).unwrap();
    assert!(back.deep_eq(&res));
}

#[test]
fn indexes_count_up_from_zero_in_append_order() {
    let mut h = SerializableHistoryList::default();
    h.push_invoke(10, 0, Op::Write(1, 5));
    h.push_invoke(11, 1, Op::Read(1, None));
    h.push_result(12, 1, HistoryType::Okay, Op::Read(1, Some(5)), None);
    h.push_result(
        13,
        0,
        HistoryType::Fail,
        Op::Write(1, 5),
        Some(vec!["lost quorum".to_string()]),
    );
    for i in 0..h.len() {
        assert_eq!(h.index(i).index, i as u64);
    }
    // Ok exactly when the error is absent, among result events.
    assert_eq!(h.index(2).type_, HistoryType::Okay);
    assert!(h.index(2).error.is_none());
    assert_eq!(h.index(3).type_, HistoryType::Fail);
    assert!(h.index(3).error.is_some());
}

#[test]
fn invoke_entry_carries_the_operation_label() {
    let mut h = SerializableHistoryList::default();
    h.push_invoke(7, 3, Op::Txn(vec![Op::Read(1, None), Op::Write(2, 9)]));
    let e = h.index(0);
    assert_eq!(e.f, OpOrNemesisFuncType::Op(OpFunctionType::Txn));
    assert_eq!(e.process, HistoryProcess::Gen(3));
    assert_eq!(e.time, 7);
    assert!(match e.value {
        HistoryValue::Op(ref op) => op.deep_eq(&Op::Txn(vec![
            Op::Read(1, None),
            Op::Write(2, 9)
        ])),
        _ => false,
    });
}

#[test]
fn recover_nemesis_is_classified_by_its_record() {
    let record = NemesisRecord::Kill(two_ids());
    assert_eq!(
        SerializableNemesisType::of_record(&record),
        SerializableNemesisType::Resume
    );
    let mut peers = IdSet::new();
    peers.insert(2);
    let net = NetRecord::from_pairs(vec![(1, peers)]).unwrap();
    let mut h = SerializableHistoryList::default();
    h.push_nemesis(5, AllNemesis::Recover(NemesisRecord::Net(net)));
    let e = h.index(0);
    assert_eq!(
        e.f,
        OpOrNemesisFuncType::Nemesis(SerializableNemesisType::Join)
    );
    assert!(match e.value {
        HistoryValue::String(ref s) => s == "Recover: {\"Net\":{\"1\":[2]}}",
        _ => false,
    });
}

#[test]
fn net_record_rejects_unsorted_pairs() {
    let mut a = IdSet::new();
    a.insert(9);
    let mut b = IdSet::new();
    b.insert(8);
    assert!(NetRecord::from_pairs(vec![(2, a), (1, b)]).is_none());
}

#[test]
fn nemesis_type_classification() {
    assert_eq!(
        SerializableNemesisType::of_type(&NemesisType::Kill(two_ids())),
        SerializableNemesisType::Kill
    );
    assert_eq!(
        SerializableNemesisType::of_type(&NemesisType::Pause(two_ids())),
        SerializableNemesisType::Pause
    );
    assert_eq!(
        SerializableNemesisType::of_type(&NemesisType::SplitOne(1)),
        SerializableNemesisType::Partition
    );
    assert_eq!(
        SerializableNemesisType::of_type(&NemesisType::PartitionMajoritiesRing),
        SerializableNemesisType::Partition
    );
}

#[test]
fn id_sets_stay_sorted_and_deduplicated() {
    let mut ids = IdSet::new();
    ids.insert(5);
    ids.insert(1);
    ids.insert(3);
    ids.insert(3);
    assert!(ids.check_wf());
    assert_eq!(ids.len(), 3);
    assert_eq!((ids.index(0), ids.index(1), ids.index(2)), (1, 3, 5));
    assert!(ids.contains(3));
    assert!(!ids.contains(2));
    ids.remove(3);
    assert_eq!(ids.len(), 2);
    assert!(!ids.contains(3));
}
