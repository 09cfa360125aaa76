use jepsen_rs::codec::entry::{decode_entry, encode_entry, encode_history, decode_history};
use jepsen_rs::history::{
    HistoryProcess, HistoryType, HistoryValue, SerializableHistory,
    SerializableHistoryList,
};
use jepsen_rs::nemesis::SerializableNemesisType;
use jepsen_rs::op::{Op, OpFunctionType, OpOrNemesisFuncType};

fn sample_invoke() -> SerializableHistory {
    SerializableHistory {
        index: 0,
        type_: HistoryType::Invoke,
        f: OpOrNemesisFuncType::Op(OpFunctionType::Write),
        value: HistoryValue::Op(Op::Write(1, 2)),
        time: 12345,
        process: HistoryProcess::Gen(0),
        error: None,
    }
}

#[test]
fn entry_encoding_is_the_expected_text() {
    let text = encode_entry(&sample_invoke());
    assert_eq!(
        text,
        "{\":index\":0,\":type\":\":invoke\",\":f\":\":write\",\":value\":[\":w\",1,2],\":time\":12345,\":process\":0}"
    );
}

#[test]
fn entry_round_trip_simple() {
    let e = sample_invoke();
    let back = decode_entry(&encode_entry(&e)).unwrap();
    assert!(back.deep_eq(&e));
}

#[test]
fn entry_round_trip_with_error_and_strings() {
    let e = SerializableHistory {
        index: 3,
        type_: HistoryType::Fail,
        f: OpOrNemesisFuncType::Op(OpFunctionType::Read),
        value: HistoryValue::Op(Op::Read(7, None)),
        time: 42,
        process: HistoryProcess::Gen(9),
        error: Some(vec![
            "node \"a\" unreachable".to_string(),
            "path C:\\tmp lost".to_string(),
        ]),
    };
    let text = encode_entry(&e);
    let back = decode_entry(&text).unwrap();
    assert!(back.deep_eq(&e));
}

#[test]
fn entry_round_trip_nested_txn() {
    let e = SerializableHistory {
        index: 11,
        type_: HistoryType::Okay,
        f: OpOrNemesisFuncType::Op(OpFunctionType::Txn),
        value: HistoryValue::Op(Op::Txn(vec![
            Op::Read(1, Some(4)),
            Op::Write(2, 5),
            Op::Txn(vec![Op::Read(3, None)]),
        ])),
        time: u64::MAX,
        process: HistoryProcess::Gen(u64::MAX),
        error: None,
    };
    let back = decode_entry(&encode_entry(&e)).unwrap();
    assert!(back.deep_eq(&e));
}

#[test]
fn entry_round_trip_nemesis_info() {
    let e = SerializableHistory {
        index: 2,
        type_: HistoryType::Info,
        f: OpOrNemesisFuncType::Nemesis(SerializableNemesisType::Partition),
        value: HistoryValue::String("Execute: {\"SplitOne\":1}".to_string()),
        time: 5,
        process: HistoryProcess::Nemesis,
        error: None,
    };
    let back = decode_entry(&encode_entry(&e)).unwrap();
    assert!(back.deep_eq(&e));
}

#[test]
fn whole_history_round_trip() {
    let mut h = SerializableHistoryList::default();
    h.push_invoke(1, 0, Op::Write(1, 10));
    h.push_result(2, 0, HistoryType::Okay, Op::Write(1, 10), None);
    h.push_invoke(3, 1, Op::Read(1, None));
    h.push_result(
        4,
        1,
        HistoryType::Info,
        Op::Read(1, None),
        Some(vec!["timeout".to_string()]),
    );
    let text = encode_history(&h);
    let back = decode_history(&text).unwrap();
    assert!(back.deep_eq(&h));
    assert!(text.starts_with('['));
    assert!(text.ends_with(']'));
}

#[test]
fn decode_rejects_trailing_garbage() {
    let text = encode_entry(&sample_invoke());
    assert!(decode_entry(&format!("{}x", text)).is_none());
    assert!(decode_entry("").is_none());
    assert!(decode_entry("{\":index\":oops}").is_none());
}

#[test]
fn decode_rejects_oversized_numbers() {
    let text = "{\":index\":99999999999999999999999,\":type\":\":invoke\",\":f\":\":write\",\":value\":[\":w\",1,2],\":time\":1,\":process\":0}";
    assert!(decode_entry(text).is_none());
}

#[test]
fn decode_history_rejects_bad_texts() {
    assert!(decode_history("").is_none());
    assert!(decode_history("{}").is_none());
    assert!(decode_history("[oops]").is_none());
    let h = SerializableHistoryList::default();
    let empty = encode_history(&h);
    assert_eq!(empty, "[]");
    assert!(decode_history(&format!("{}tail", empty)).is_none());
    assert!(decode_history(&empty).unwrap().deep_eq(&h));
}
