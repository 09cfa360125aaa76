//! Canonical text for operations and history entries, with the decoder
//! that reads it back: the round trip over this form is exact.
use vstd::prelude::*;

use crate::codec::{dec_digits, is_digit, parse_lit, parse_string, parse_u64, quoted};
use crate::history::{
    HistoryEntryView, HistoryProcess, HistoryType, HistoryValue, HistoryValueView,
    SerializableHistory, SerializableHistoryList,
};
use crate::nemesis::SerializableNemesisType;
use crate::op::{Op, OpFunctionType, OpOrNemesisFuncType, OpView};

use crate::codec::{
    chars_to_string, push_dec, push_quoted, push_str_lit, scan_string, scan_u64,
    str_to_chars,
};

verus! {

/// A client operation in canonical text: a bracketed form with the
/// operation's label, its key, and its value — an unfilled read's value is
/// the null word; a transaction nests its operations' forms.
pub open spec fn op_text(v: OpView) -> Seq<char>
    decreases v,
{
    match v {
        OpView::Read(key, value) => match value {
            Some(x) => "[\":r\","@ + dec_digits(key as nat) + ","@ + dec_digits(x as nat)
                + "]"@,
            None => "[\":r\","@ + dec_digits(key as nat) + ",null]"@,
        },
        OpView::Write(key, x) => "[\":w\","@ + dec_digits(key as nat) + ","@ + dec_digits(
            x as nat,
        ) + "]"@,
        OpView::Txn(ops) => "[\":txn\",["@ + ops_text(ops) + "]]"@,
    }
}

/// A sequence of operations in canonical text, separated by commas.
pub open spec fn ops_text(ops: Seq<OpView>) -> Seq<char>
    decreases ops,
{
    if ops.len() == 0 {
        Seq::empty()
    } else if ops.len() == 1 {
        op_text(ops[0])
    } else {
        op_text(ops[0]) + seq![','] + ops_text(ops.drop_first())
    }
}

/// The operation a canonical text starts with, and what follows it.
pub open spec fn parse_op(s: Seq<char>) -> Option<(OpView, Seq<char>)>
    decreases s.len(), 0int,
{
    if parse_lit("[\":r\","@, s) is Some {
        let r1 = parse_lit("[\":r\","@, s)->Some_0;
        match parse_u64(r1) {
            Some((key, r2)) => {
                if parse_lit(",null]"@, r2) is Some {
                    Some((OpView::Read(key, None), parse_lit(",null]"@, r2)->Some_0))
                } else {
                    match parse_lit(","@, r2) {
                        Some(r3) => match parse_u64(r3) {
                            Some((x, r4)) => match parse_lit("]"@, r4) {
                                Some(r5) => Some((OpView::Read(key, Some(x)), r5)),
                                None => None,
                            },
                            None => None,
                        },
                        None => None,
                    }
                }
            },
            None => None,
        }
    } else if parse_lit("[\":w\","@, s) is Some {
        let r1 = parse_lit("[\":w\","@, s)->Some_0;
        match parse_u64(r1) {
            Some((key, r2)) => match parse_lit(","@, r2) {
                Some(r3) => match parse_u64(r3) {
                    Some((x, r4)) => match parse_lit("]"@, r4) {
                        Some(r5) => Some((OpView::Write(key, x), r5)),
                        None => None,
                    },
                    None => None,
                },
                None => None,
            },
            None => None,
        }
    } else if parse_lit("[\":txn\",["@, s) is Some {
        let r1 = parse_lit("[\":txn\",["@, s)->Some_0;
        if r1.len() < s.len() {
            match parse_ops(r1) {
                Some((ops, r2)) => match parse_lit("]"@, r2) {
                    Some(r3) => Some((OpView::Txn(ops), r3)),
                    None => None,
                },
                None => None,
            }
        } else {
            None
        }
    } else {
        None
    }
}

/// The comma-separated operations a canonical text starts with, up to and
/// including their closing bracket, and what follows it.
pub open spec fn parse_ops(s: Seq<char>) -> Option<(Seq<OpView>, Seq<char>)>
    decreases s.len(), 1int,
{
    if parse_lit("]"@, s) is Some {
        Some((Seq::empty(), parse_lit("]"@, s)->Some_0))
    } else {
        match parse_op(s) {
            Some((op, r1)) => {
                if parse_lit(","@, r1) is Some {
                    let r2 = parse_lit(","@, r1)->Some_0;
                    if r2.len() < s.len() {
                        match parse_ops(r2) {
                            Some((rest_ops, r3)) => Some((seq![op] + rest_ops, r3)),
                            None => None,
                        }
                    } else {
                        None
                    }
                } else {
                    match parse_lit("]"@, r1) {
                        Some(r2) => Some((seq![op], r2)),
                        None => None,
                    }
                }
            },
            None => None,
        }
    }
}

/// Every operation's canonical text opens with its bracket.
pub proof fn lemma_op_text_head(v: OpView)
    ensures
        op_text(v).len() > 0,
        op_text(v)[0] == '[',
{
    reveal_strlit("[\":r\",");
    reveal_strlit("[\":w\",");
    reveal_strlit("[\":txn\",[");
    match v {
        OpView::Read(key, value) => {
            assert(op_text(v)[0] == "[\":r\","@[0]);
        },
        OpView::Write(key, x) => {
            assert(op_text(v)[0] == "[\":w\","@[0]);
        },
        OpView::Txn(ops) => {
            assert(op_text(v)[0] == "[\":txn\",["@[0]);
        },
    }
}

/// Parsing an operation off its canonical text yields it back, leaving the
/// rest untouched.
pub proof fn lemma_parse_op_round(v: OpView, rest: Seq<char>)
    ensures
        parse_op(op_text(v) + rest) == Some((v, rest)),
    decreases v, 0int,
{
    reveal_strlit("[\":r\",");
    reveal_strlit("[\":w\",");
    reveal_strlit("[\":txn\",[");
    reveal_strlit(",null]");
    reveal_strlit(",");
    reveal_strlit("]");
    reveal_strlit("]]");
    let s = op_text(v) + rest;
    match v {
        OpView::Read(key, value) => {
            crate::codec::lemma_dec_digits(key as nat);
            match value {
                Some(x) => {
                    crate::codec::lemma_dec_digits(x as nat);
                    let tail2 = ","@ + dec_digits(x as nat) + "]"@ + rest;
                    let tail1 = dec_digits(key as nat) + tail2;
                    assert(s =~= "[\":r\","@ + tail1);
                    crate::codec::lemma_parse_lit("[\":r\","@, tail1);
                    assert(tail1 =~= dec_digits(key as nat) + tail2);
                    assert(tail2[0] == ',');
                    crate::codec::lemma_parse_u64(key, tail2);
                    assert(parse_lit(",null]"@, tail2) is None) by {
                        if parse_lit(",null]"@, tail2) is Some {
                            assert(tail2.take(6)[1] == 'n');
                            assert(tail2[1] == dec_digits(x as nat)[0]);
                            assert(is_digit(tail2[1]));
                        }
                    }
                    let tail3 = dec_digits(x as nat) + "]"@ + rest;
                    assert(tail2 =~= ","@ + tail3);
                    crate::codec::lemma_parse_lit(","@, tail3);
                    let tail4 = "]"@ + rest;
                    assert(tail3 =~= dec_digits(x as nat) + tail4);
                    assert(tail4[0] == ']');
                    crate::codec::lemma_parse_u64(x, tail4);
                    assert(tail4 =~= "]"@ + rest);
                    crate::codec::lemma_parse_lit("]"@, rest);
                },
                None => {
                    let tail2 = ",null]"@ + rest;
                    let tail1 = dec_digits(key as nat) + tail2;
                    assert(s =~= "[\":r\","@ + tail1);
                    crate::codec::lemma_parse_lit("[\":r\","@, tail1);
                    assert(tail2[0] == ',');
                    crate::codec::lemma_parse_u64(key, tail2);
                    crate::codec::lemma_parse_lit(",null]"@, rest);
                    assert(tail2 =~= ",null]"@ + rest);
                },
            }
        },
        OpView::Write(key, x) => {
            crate::codec::lemma_dec_digits(key as nat);
            crate::codec::lemma_dec_digits(x as nat);
            assert(parse_lit("[\":r\","@, s) is None) by {
                if parse_lit("[\":r\","@, s) is Some {
                    assert(s.take(6)[3] == 'r');
                    assert(s[3] == "[\":w\","@[3]);
                }
            }
            let tail2 = ","@ + dec_digits(x as nat) + "]"@ + rest;
            let tail1 = dec_digits(key as nat) + tail2;
            assert(s =~= "[\":w\","@ + tail1);
            crate::codec::lemma_parse_lit("[\":w\","@, tail1);
            assert(tail2[0] == ',');
            crate::codec::lemma_parse_u64(key, tail2);
            let tail3 = dec_digits(x as nat) + "]"@ + rest;
            assert(tail2 =~= ","@ + tail3);
            crate::codec::lemma_parse_lit(","@, tail3);
            let tail4 = "]"@ + rest;
            assert(tail3 =~= dec_digits(x as nat) + tail4);
            assert(tail4[0] == ']');
            crate::codec::lemma_parse_u64(x, tail4);
            assert(tail4 =~= "]"@ + rest);
            crate::codec::lemma_parse_lit("]"@, rest);
        },
        OpView::Txn(ops) => {
            assert(parse_lit("[\":r\","@, s) is None) by {
                if parse_lit("[\":r\","@, s) is Some {
                    assert(s.take(6)[3] == 'r');
                    assert(s[3] == "[\":txn\",["@[3]);
                }
            }
            assert(parse_lit("[\":w\","@, s) is None) by {
                if parse_lit("[\":w\","@, s) is Some {
                    assert(s.take(6)[3] == 'w');
                    assert(s[3] == "[\":txn\",["@[3]);
                }
            }
            let tail1 = ops_text(ops) + seq![']'] + (seq![']'] + rest);
            assert(s =~= "[\":txn\",["@ + tail1);
            crate::codec::lemma_parse_lit("[\":txn\",["@, tail1);
            assert(decreases_to!(v => v->Txn_0));
            lemma_parse_ops_round(ops, seq![']'] + rest);
            assert((seq![']'] + rest)[0] == ']');
            assert(seq![']'] + rest =~= "]"@ + rest);
            crate::codec::lemma_parse_lit("]"@, rest);
        },
    }
}

/// Parsing a comma-separated run of operations up to its closing bracket
/// yields the operations back, leaving the rest untouched.
pub proof fn lemma_parse_ops_round(ops: Seq<OpView>, rest: Seq<char>)
    ensures
        parse_ops(ops_text(ops) + seq![']'] + rest) == Some((ops, rest)),
    decreases ops, 1int,
{
    reveal_strlit(",");
    reveal_strlit("]");
    let s = ops_text(ops) + seq![']'] + rest;
    if ops.len() == 0 {
        assert(s =~= "]"@ + rest);
        crate::codec::lemma_parse_lit("]"@, rest);
    } else {
        lemma_op_text_head(ops[0]);
        assert(s[0] == op_text(ops[0])[0]);
        assert(parse_lit("]"@, s) is None) by {
            if parse_lit("]"@, s) is Some {
                assert(s.take(1)[0] == ']');
            }
        }
        if ops.len() == 1 {
            let tail = seq![']'] + rest;
            assert(s =~= op_text(ops[0]) + tail);
            lemma_parse_op_round(ops[0], tail);
            assert(parse_lit(","@, tail) is None) by {
                if parse_lit(","@, tail) is Some {
                    assert(tail.take(1)[0] == ',');
                }
            }
            assert(tail =~= "]"@ + rest);
            crate::codec::lemma_parse_lit("]"@, rest);
            assert(seq![ops[0]] =~= ops);
        } else {
            let inner = ops_text(ops.drop_first()) + seq![']'] + rest;
            let tail = seq![','] + inner;
            assert(s =~= op_text(ops[0]) + tail);
            lemma_parse_op_round(ops[0], tail);
            assert(tail =~= ","@ + inner);
            crate::codec::lemma_parse_lit(","@, inner);
            assert(inner.len() < s.len());
            lemma_parse_ops_round(ops.drop_first(), rest);
            assert(seq![ops[0]] + ops.drop_first() =~= ops);
        }
    }
}


/// A literal cannot be parsed off a text that differs from it at some
/// position within the literal.
pub proof fn lemma_label_mismatch(lit: Seq<char>, own: Seq<char>, i: int, rest: Seq<char>)
    requires
        0 <= i < lit.len(),
        i < own.len(),
        own[i] != lit[i],
    ensures
        parse_lit(lit, own + rest) is None,
{
    assert((own + rest)[i] == own[i]);
    if parse_lit(lit, own + rest) is Some {
        assert((own + rest).take(lit.len() as int)[i] == lit[i]);
    }
}

/// The label of a history event kind, as a quoted keyword.
pub open spec fn type_label(t: HistoryType) -> Seq<char> {
    match t {
        HistoryType::Invoke => "\":invoke\""@,
        HistoryType::Okay => "\":ok\""@,
        HistoryType::Fail => "\":fail\""@,
        HistoryType::Info => "\":info\""@,
    }
}

/// The history event kind a canonical text starts with, and the rest.
pub open spec fn parse_type(s: Seq<char>) -> Option<(HistoryType, Seq<char>)> {
    if parse_lit("\":invoke\""@, s) is Some {
        Some((HistoryType::Invoke, parse_lit("\":invoke\""@, s)->Some_0))
    } else if parse_lit("\":ok\""@, s) is Some {
        Some((HistoryType::Okay, parse_lit("\":ok\""@, s)->Some_0))
    } else if parse_lit("\":fail\""@, s) is Some {
        Some((HistoryType::Fail, parse_lit("\":fail\""@, s)->Some_0))
    } else if parse_lit("\":info\""@, s) is Some {
        Some((HistoryType::Info, parse_lit("\":info\""@, s)->Some_0))
    } else {
        None
    }
}

/// Parsing an event kind off its label yields it back.
pub proof fn lemma_parse_type(t: HistoryType, rest: Seq<char>)
    ensures
        parse_type(type_label(t) + rest) == Some((t, rest)),
{
    reveal_strlit("\":invoke\"");
    reveal_strlit("\":ok\"");
    reveal_strlit("\":fail\"");
    reveal_strlit("\":info\"");
    match t {
        HistoryType::Invoke => {
            crate::codec::lemma_parse_lit("\":invoke\""@, rest);
        },
        HistoryType::Okay => {
            lemma_label_mismatch("\":invoke\""@, "\":ok\""@, 2, rest);
            crate::codec::lemma_parse_lit("\":ok\""@, rest);
        },
        HistoryType::Fail => {
            lemma_label_mismatch("\":invoke\""@, "\":fail\""@, 2, rest);
            lemma_label_mismatch("\":ok\""@, "\":fail\""@, 2, rest);
            crate::codec::lemma_parse_lit("\":fail\""@, rest);
        },
        HistoryType::Info => {
            lemma_label_mismatch("\":invoke\""@, "\":info\""@, 4, rest);
            lemma_label_mismatch("\":ok\""@, "\":info\""@, 2, rest);
            lemma_label_mismatch("\":fail\""@, "\":info\""@, 2, rest);
            crate::codec::lemma_parse_lit("\":info\""@, rest);
        },
    }
}

/// The label of an event's `f` field: the operation kind or the nemesis
/// classification, as a quoted keyword.
pub open spec fn f_label(f: OpOrNemesisFuncType) -> Seq<char> {
    match f {
        OpOrNemesisFuncType::Op(OpFunctionType::Read) => "\":read\""@,
        OpOrNemesisFuncType::Op(OpFunctionType::Write) => "\":write\""@,
        OpOrNemesisFuncType::Op(OpFunctionType::Txn) => "\":txn\""@,
        OpOrNemesisFuncType::Nemesis(SerializableNemesisType::BitflipWal) => "\":bitflip-wal\""@,
        OpOrNemesisFuncType::Nemesis(SerializableNemesisType::BitflipSnap) => "\":bitflip-snap\""@,
        OpOrNemesisFuncType::Nemesis(SerializableNemesisType::TruncateWal) => "\":truncate-wal\""@,
        OpOrNemesisFuncType::Nemesis(SerializableNemesisType::Pause) => "\":pause\""@,
        OpOrNemesisFuncType::Nemesis(SerializableNemesisType::Kill) => "\":kill\""@,
        OpOrNemesisFuncType::Nemesis(SerializableNemesisType::Partition) => "\":partition\""@,
        OpOrNemesisFuncType::Nemesis(SerializableNemesisType::Clock) => "\":clock\""@,
        OpOrNemesisFuncType::Nemesis(SerializableNemesisType::Join) => "\":join\""@,
        OpOrNemesisFuncType::Nemesis(SerializableNemesisType::Start) => "\":start\""@,
        OpOrNemesisFuncType::Nemesis(SerializableNemesisType::Resume) => "\":resume\""@,
    }
}

/// The `f` label a canonical text starts with, and the rest.
pub open spec fn parse_f(s: Seq<char>) -> Option<(OpOrNemesisFuncType, Seq<char>)> {
    if parse_lit("\":read\""@, s) is Some {
        Some((OpOrNemesisFuncType::Op(OpFunctionType::Read), parse_lit("\":read\""@, s)->Some_0))
    } else if parse_lit("\":write\""@, s) is Some {
        Some((OpOrNemesisFuncType::Op(OpFunctionType::Write), parse_lit("\":write\""@, s)->Some_0))
    } else if parse_lit("\":txn\""@, s) is Some {
        Some((OpOrNemesisFuncType::Op(OpFunctionType::Txn), parse_lit("\":txn\""@, s)->Some_0))
    } else if parse_lit("\":bitflip-wal\""@, s) is Some {
        Some((OpOrNemesisFuncType::Nemesis(SerializableNemesisType::BitflipWal), parse_lit("\":bitflip-wal\""@, s)->Some_0))
    } else if parse_lit("\":bitflip-snap\""@, s) is Some {
        Some((OpOrNemesisFuncType::Nemesis(SerializableNemesisType::BitflipSnap), parse_lit("\":bitflip-snap\""@, s)->Some_0))
    } else if parse_lit("\":truncate-wal\""@, s) is Some {
        Some((OpOrNemesisFuncType::Nemesis(SerializableNemesisType::TruncateWal), parse_lit("\":truncate-wal\""@, s)->Some_0))
    } else if parse_lit("\":pause\""@, s) is Some {
        Some((OpOrNemesisFuncType::Nemesis(SerializableNemesisType::Pause), parse_lit("\":pause\""@, s)->Some_0))
    } else if parse_lit("\":kill\""@, s) is Some {
        Some((OpOrNemesisFuncType::Nemesis(SerializableNemesisType::Kill), parse_lit("\":kill\""@, s)->Some_0))
    } else if parse_lit("\":partition\""@, s) is Some {
        Some((OpOrNemesisFuncType::Nemesis(SerializableNemesisType::Partition), parse_lit("\":partition\""@, s)->Some_0))
    } else if parse_lit("\":clock\""@, s) is Some {
        Some((OpOrNemesisFuncType::Nemesis(SerializableNemesisType::Clock), parse_lit("\":clock\""@, s)->Some_0))
    } else if parse_lit("\":join\""@, s) is Some {
        Some((OpOrNemesisFuncType::Nemesis(SerializableNemesisType::Join), parse_lit("\":join\""@, s)->Some_0))
    } else if parse_lit("\":start\""@, s) is Some {
        Some((OpOrNemesisFuncType::Nemesis(SerializableNemesisType::Start), parse_lit("\":start\""@, s)->Some_0))
    } else if parse_lit("\":resume\""@, s) is Some {
        Some((OpOrNemesisFuncType::Nemesis(SerializableNemesisType::Resume), parse_lit("\":resume\""@, s)->Some_0))
    } else {
        None
    }
}

/// Parsing an `f` label off its text yields it back.
pub proof fn lemma_parse_f(f: OpOrNemesisFuncType, rest: Seq<char>)
    ensures
        parse_f(f_label(f) + rest) == Some((f, rest)),
{
    reveal_strlit("\":read\"");
    reveal_strlit("\":write\"");
    reveal_strlit("\":txn\"");
    reveal_strlit("\":bitflip-wal\"");
    reveal_strlit("\":bitflip-snap\"");
    reveal_strlit("\":truncate-wal\"");
    reveal_strlit("\":pause\"");
    reveal_strlit("\":kill\"");
    reveal_strlit("\":partition\"");
    reveal_strlit("\":clock\"");
    reveal_strlit("\":join\"");
    reveal_strlit("\":start\"");
    reveal_strlit("\":resume\"");
    match f {
        OpOrNemesisFuncType::Op(OpFunctionType::Read) => {
            crate::codec::lemma_parse_lit("\":read\""@, rest);
        },
        OpOrNemesisFuncType::Op(OpFunctionType::Write) => {
            lemma_label_mismatch("\":read\""@, "\":write\""@, 2, rest);
            crate::codec::lemma_parse_lit("\":write\""@, rest);
        },
        OpOrNemesisFuncType::Op(OpFunctionType::Txn) => {
            lemma_label_mismatch("\":read\""@, "\":txn\""@, 2, rest);
            lemma_label_mismatch("\":write\""@, "\":txn\""@, 2, rest);
            crate::codec::lemma_parse_lit("\":txn\""@, rest);
        },
        OpOrNemesisFuncType::Nemesis(SerializableNemesisType::BitflipWal) => {
            lemma_label_mismatch("\":read\""@, "\":bitflip-wal\""@, 2, rest);
            lemma_label_mismatch("\":write\""@, "\":bitflip-wal\""@, 2, rest);
            lemma_label_mismatch("\":txn\""@, "\":bitflip-wal\""@, 2, rest);
            crate::codec::lemma_parse_lit("\":bitflip-wal\""@, rest);
        },
        OpOrNemesisFuncType::Nemesis(SerializableNemesisType::BitflipSnap) => {
            lemma_label_mismatch("\":read\""@, "\":bitflip-snap\""@, 2, rest);
            lemma_label_mismatch("\":write\""@, "\":bitflip-snap\""@, 2, rest);
            lemma_label_mismatch("\":txn\""@, "\":bitflip-snap\""@, 2, rest);
            lemma_label_mismatch("\":bitflip-wal\""@, "\":bitflip-snap\""@, 10, rest);
            crate::codec::lemma_parse_lit("\":bitflip-snap\""@, rest);
        },
        OpOrNemesisFuncType::Nemesis(SerializableNemesisType::TruncateWal) => {
            lemma_label_mismatch("\":read\""@, "\":truncate-wal\""@, 2, rest);
            lemma_label_mismatch("\":write\""@, "\":truncate-wal\""@, 2, rest);
            lemma_label_mismatch("\":txn\""@, "\":truncate-wal\""@, 3, rest);
            lemma_label_mismatch("\":bitflip-wal\""@, "\":truncate-wal\""@, 2, rest);
            lemma_label_mismatch("\":bitflip-snap\""@, "\":truncate-wal\""@, 2, rest);
            crate::codec::lemma_parse_lit("\":truncate-wal\""@, rest);
        },
        OpOrNemesisFuncType::Nemesis(SerializableNemesisType::Pause) => {
            lemma_label_mismatch("\":read\""@, "\":pause\""@, 2, rest);
            lemma_label_mismatch("\":write\""@, "\":pause\""@, 2, rest);
            lemma_label_mismatch("\":txn\""@, "\":pause\""@, 2, rest);
            lemma_label_mismatch("\":bitflip-wal\""@, "\":pause\""@, 2, rest);
            lemma_label_mismatch("\":bitflip-snap\""@, "\":pause\""@, 2, rest);
            lemma_label_mismatch("\":truncate-wal\""@, "\":pause\""@, 2, rest);
            crate::codec::lemma_parse_lit("\":pause\""@, rest);
        },
        OpOrNemesisFuncType::Nemesis(SerializableNemesisType::Kill) => {
            lemma_label_mismatch("\":read\""@, "\":kill\""@, 2, rest);
            lemma_label_mismatch("\":write\""@, "\":kill\""@, 2, rest);
            lemma_label_mismatch("\":txn\""@, "\":kill\""@, 2, rest);
            lemma_label_mismatch("\":bitflip-wal\""@, "\":kill\""@, 2, rest);
            lemma_label_mismatch("\":bitflip-snap\""@, "\":kill\""@, 2, rest);
            lemma_label_mismatch("\":truncate-wal\""@, "\":kill\""@, 2, rest);
            lemma_label_mismatch("\":pause\""@, "\":kill\""@, 2, rest);
            crate::codec::lemma_parse_lit("\":kill\""@, rest);
        },
        OpOrNemesisFuncType::Nemesis(SerializableNemesisType::Partition) => {
            lemma_label_mismatch("\":read\""@, "\":partition\""@, 2, rest);
            lemma_label_mismatch("\":write\""@, "\":partition\""@, 2, rest);
            lemma_label_mismatch("\":txn\""@, "\":partition\""@, 2, rest);
            lemma_label_mismatch("\":bitflip-wal\""@, "\":partition\""@, 2, rest);
            lemma_label_mismatch("\":bitflip-snap\""@, "\":partition\""@, 2, rest);
            lemma_label_mismatch("\":truncate-wal\""@, "\":partition\""@, 2, rest);
            lemma_label_mismatch("\":pause\""@, "\":partition\""@, 4, rest);
            lemma_label_mismatch("\":kill\""@, "\":partition\""@, 2, rest);
            crate::codec::lemma_parse_lit("\":partition\""@, rest);
        },
        OpOrNemesisFuncType::Nemesis(SerializableNemesisType::Clock) => {
            lemma_label_mismatch("\":read\""@, "\":clock\""@, 2, rest);
            lemma_label_mismatch("\":write\""@, "\":clock\""@, 2, rest);
            lemma_label_mismatch("\":txn\""@, "\":clock\""@, 2, rest);
            lemma_label_mismatch("\":bitflip-wal\""@, "\":clock\""@, 2, rest);
            lemma_label_mismatch("\":bitflip-snap\""@, "\":clock\""@, 2, rest);
            lemma_label_mismatch("\":truncate-wal\""@, "\":clock\""@, 2, rest);
            lemma_label_mismatch("\":pause\""@, "\":clock\""@, 2, rest);
            lemma_label_mismatch("\":kill\""@, "\":clock\""@, 2, rest);
            lemma_label_mismatch("\":partition\""@, "\":clock\""@, 2, rest);
            crate::codec::lemma_parse_lit("\":clock\""@, rest);
        },
        OpOrNemesisFuncType::Nemesis(SerializableNemesisType::Join) => {
            lemma_label_mismatch("\":read\""@, "\":join\""@, 2, rest);
            lemma_label_mismatch("\":write\""@, "\":join\""@, 2, rest);
            lemma_label_mismatch("\":txn\""@, "\":join\""@, 2, rest);
            lemma_label_mismatch("\":bitflip-wal\""@, "\":join\""@, 2, rest);
            lemma_label_mismatch("\":bitflip-snap\""@, "\":join\""@, 2, rest);
            lemma_label_mismatch("\":truncate-wal\""@, "\":join\""@, 2, rest);
            lemma_label_mismatch("\":pause\""@, "\":join\""@, 2, rest);
            lemma_label_mismatch("\":kill\""@, "\":join\""@, 2, rest);
            lemma_label_mismatch("\":partition\""@, "\":join\""@, 2, rest);
            lemma_label_mismatch("\":clock\""@, "\":join\""@, 2, rest);
            crate::codec::lemma_parse_lit("\":join\""@, rest);
        },
        OpOrNemesisFuncType::Nemesis(SerializableNemesisType::Start) => {
            lemma_label_mismatch("\":read\""@, "\":start\""@, 2, rest);
            lemma_label_mismatch("\":write\""@, "\":start\""@, 2, rest);
            lemma_label_mismatch("\":txn\""@, "\":start\""@, 2, rest);
            lemma_label_mismatch("\":bitflip-wal\""@, "\":start\""@, 2, rest);
            lemma_label_mismatch("\":bitflip-snap\""@, "\":start\""@, 2, rest);
            lemma_label_mismatch("\":truncate-wal\""@, "\":start\""@, 2, rest);
            lemma_label_mismatch("\":pause\""@, "\":start\""@, 2, rest);
            lemma_label_mismatch("\":kill\""@, "\":start\""@, 2, rest);
            lemma_label_mismatch("\":partition\""@, "\":start\""@, 2, rest);
            lemma_label_mismatch("\":clock\""@, "\":start\""@, 2, rest);
            lemma_label_mismatch("\":join\""@, "\":start\""@, 2, rest);
            crate::codec::lemma_parse_lit("\":start\""@, rest);
        },
        OpOrNemesisFuncType::Nemesis(SerializableNemesisType::Resume) => {
            lemma_label_mismatch("\":read\""@, "\":resume\""@, 4, rest);
            lemma_label_mismatch("\":write\""@, "\":resume\""@, 2, rest);
            lemma_label_mismatch("\":txn\""@, "\":resume\""@, 2, rest);
            lemma_label_mismatch("\":bitflip-wal\""@, "\":resume\""@, 2, rest);
            lemma_label_mismatch("\":bitflip-snap\""@, "\":resume\""@, 2, rest);
            lemma_label_mismatch("\":truncate-wal\""@, "\":resume\""@, 2, rest);
            lemma_label_mismatch("\":pause\""@, "\":resume\""@, 2, rest);
            lemma_label_mismatch("\":kill\""@, "\":resume\""@, 2, rest);
            lemma_label_mismatch("\":partition\""@, "\":resume\""@, 2, rest);
            lemma_label_mismatch("\":clock\""@, "\":resume\""@, 2, rest);
            lemma_label_mismatch("\":join\""@, "\":resume\""@, 2, rest);
            lemma_label_mismatch("\":start\""@, "\":resume\""@, 2, rest);
            crate::codec::lemma_parse_lit("\":resume\""@, rest);
        },
    }
}

/// The actor of an event in canonical text: the process id as a number, or
/// the reserved nemesis keyword.
pub open spec fn process_text(p: HistoryProcess) -> Seq<char> {
    match p {
        HistoryProcess::Nemesis => "\":nemesis\""@,
        HistoryProcess::Gen(id) => dec_digits(id as nat),
    }
}

/// The actor a canonical text starts with, and the rest.
pub open spec fn parse_process(s: Seq<char>) -> Option<(HistoryProcess, Seq<char>)> {
    if parse_lit("\":nemesis\""@, s) is Some {
        Some((HistoryProcess::Nemesis, parse_lit("\":nemesis\""@, s)->Some_0))
    } else {
        match parse_u64(s) {
            Some((id, r)) => Some((HistoryProcess::Gen(id), r)),
            None => None,
        }
    }
}

/// Parsing an actor off its text yields it back, provided what follows
/// does not begin with a digit.
pub proof fn lemma_parse_process(p: HistoryProcess, rest: Seq<char>)
    requires
        rest.len() == 0 || !is_digit(rest[0]),
    ensures
        parse_process(process_text(p) + rest) == Some((p, rest)),
{
    reveal_strlit("\":nemesis\"");
    match p {
        HistoryProcess::Nemesis => {
            crate::codec::lemma_parse_lit("\":nemesis\""@, rest);
        },
        HistoryProcess::Gen(id) => {
            crate::codec::lemma_dec_digits(id as nat);
            lemma_label_mismatch("\":nemesis\""@, dec_digits(id as nat), 0, rest);
            crate::codec::lemma_parse_u64(id, rest);
        },
    }
}

/// The payload of an event in canonical text: a quoted string or an
/// operation's bracketed form.
pub open spec fn value_text(v: HistoryValueView) -> Seq<char> {
    match v {
        HistoryValueView::String(s) => quoted(s),
        HistoryValueView::Op(op) => op_text(op),
    }
}

/// The payload a canonical text starts with, and the rest.
pub open spec fn parse_value(s: Seq<char>) -> Option<(HistoryValueView, Seq<char>)> {
    if s.len() > 0 && s[0] == '"' {
        match parse_string(s) {
            Some((t, r)) => Some((HistoryValueView::String(t), r)),
            None => None,
        }
    } else {
        match parse_op(s) {
            Some((op, r)) => Some((HistoryValueView::Op(op), r)),
            None => None,
        }
    }
}

/// Parsing a payload off its text yields it back.
pub proof fn lemma_parse_value(v: HistoryValueView, rest: Seq<char>)
    ensures
        parse_value(value_text(v) + rest) == Some((v, rest)),
{
    match v {
        HistoryValueView::String(t) => {
            assert((value_text(v) + rest)[0] == '"');
            crate::codec::lemma_parse_string(t, rest);
        },
        HistoryValueView::Op(op) => {
            lemma_op_text_head(op);
            assert((value_text(v) + rest)[0] == '[');
            lemma_parse_op_round(op, rest);
        },
    }
}

/// The error messages of a failed event, quoted and separated by commas.
pub open spec fn msgs_text(msgs: Seq<Seq<char>>) -> Seq<char>
    decreases msgs.len(),
{
    if msgs.len() == 0 {
        Seq::empty()
    } else if msgs.len() == 1 {
        quoted(msgs[0])
    } else {
        quoted(msgs[0]) + seq![','] + msgs_text(msgs.drop_first())
    }
}

/// The comma-separated error messages a canonical text starts with, up to
/// and including their closing bracket, and the rest.
pub open spec fn parse_msgs(s: Seq<char>) -> Option<(Seq<Seq<char>>, Seq<char>)>
    decreases s.len(),
{
    if parse_lit("]"@, s) is Some {
        Some((Seq::empty(), parse_lit("]"@, s)->Some_0))
    } else {
        match parse_string(s) {
            Some((m, r1)) => {
                if parse_lit(","@, r1) is Some {
                    let r2 = parse_lit(","@, r1)->Some_0;
                    if r2.len() < s.len() {
                        match parse_msgs(r2) {
                            Some((rest_msgs, r3)) => Some((seq![m] + rest_msgs, r3)),
                            None => None,
                        }
                    } else {
                        None
                    }
                } else {
                    match parse_lit("]"@, r1) {
                        Some(r2) => Some((seq![m], r2)),
                        None => None,
                    }
                }
            },
            None => None,
        }
    }
}

/// Parsing a run of error messages up to its closing bracket yields the
/// messages back, leaving the rest untouched.
pub proof fn lemma_parse_msgs(msgs: Seq<Seq<char>>, rest: Seq<char>)
    ensures
        parse_msgs(msgs_text(msgs) + seq![']'] + rest) == Some((msgs, rest)),
    decreases msgs.len(),
{
    reveal_strlit(",");
    reveal_strlit("]");
    let s = msgs_text(msgs) + seq![']'] + rest;
    if msgs.len() == 0 {
        assert(s =~= "]"@ + rest);
        crate::codec::lemma_parse_lit("]"@, rest);
    } else {
        assert(s[0] == quoted(msgs[0])[0]);
        assert(parse_lit("]"@, s) is None) by {
            if parse_lit("]"@, s) is Some {
                assert(s.take(1)[0] == ']');
            }
        }
        if msgs.len() == 1 {
            let tail = seq![']'] + rest;
            assert(s =~= quoted(msgs[0]) + tail);
            crate::codec::lemma_parse_string(msgs[0], tail);
            assert(parse_lit(","@, tail) is None) by {
                if parse_lit(","@, tail) is Some {
                    assert(tail.take(1)[0] == ',');
                }
            }
            assert(tail =~= "]"@ + rest);
            crate::codec::lemma_parse_lit("]"@, rest);
            assert(seq![msgs[0]] =~= msgs);
        } else {
            let inner = msgs_text(msgs.drop_first()) + seq![']'] + rest;
            let tail = seq![','] + inner;
            assert(s =~= quoted(msgs[0]) + tail);
            crate::codec::lemma_parse_string(msgs[0], tail);
            assert(tail =~= ","@ + inner);
            crate::codec::lemma_parse_lit(","@, inner);
            assert(quoted(msgs[0]).len() >= 2);
            assert(inner.len() < s.len());
            lemma_parse_msgs(msgs.drop_first(), rest);
            assert(seq![msgs[0]] + msgs.drop_first() =~= msgs);
        }
    }
}

/// The trailing error field of an event: absent entirely when there is no
/// error, else the messages between brackets.
pub open spec fn error_text(error: Option<Seq<Seq<char>>>) -> Seq<char> {
    match error {
        None => Seq::empty(),
        Some(msgs) => ",\":error\":["@ + msgs_text(msgs) + "]"@,
    }
}

/// One history event in canonical text: its fields in a fixed order under
/// their canonical names, the error field only when an error is present,
/// between curly braces.
pub open spec fn entry_text(e: HistoryEntryView) -> Seq<char> {
    "{\":index\":"@ + dec_digits(e.index as nat) + ",\":type\":"@ + type_label(e.type_)
        + ",\":f\":"@ + f_label(e.f) + ",\":value\":"@ + value_text(e.value)
        + ",\":time\":"@ + dec_digits(e.time as nat) + ",\":process\":"@ + process_text(
        e.process,
    ) + error_text(e.error) + "}"@
}

/// The leading fields of an event's canonical text, through its actor,
/// and the rest.
pub open spec fn parse_entry_head(s: Seq<char>) -> Option<
    ((u64, HistoryType, OpOrNemesisFuncType, HistoryValueView, u64, HistoryProcess), Seq<char>),
> {
    match parse_lit("{\":index\":"@, s) {
        Some(r1) => match parse_u64(r1) {
            Some((index, r2)) => match parse_lit(",\":type\":"@, r2) {
                Some(r3) => match parse_type(r3) {
                    Some((type_, r4)) => match parse_lit(",\":f\":"@, r4) {
                        Some(r5) => match parse_f(r5) {
                            Some((f, r6)) => match parse_lit(",\":value\":"@, r6) {
                                Some(r7) => match parse_value(r7) {
                                    Some((value, r8)) => match parse_lit(",\":time\":"@, r8) {
                                        Some(r9) => match parse_u64(r9) {
                                            Some((time, r10)) => match parse_lit(
                                                ",\":process\":"@,
                                                r10,
                                            ) {
                                                Some(r11) => match parse_process(r11) {
                                                    Some((process, r12)) => Some(
                                                        ((index, type_, f, value, time, process), r12),
                                                    ),
                                                    None => None,
                                                },
                                                None => None,
                                            },
                                            None => None,
                                        },
                                        None => None,
                                    },
                                    None => None,
                                },
                                None => None,
                            },
                            None => None,
                        },
                        None => None,
                    },
                    None => None,
                },
                None => None,
            },
            None => None,
        },
        None => None,
    }
}

/// The history event a canonical text starts with, and the rest.
pub open spec fn parse_entry(s: Seq<char>) -> Option<(HistoryEntryView, Seq<char>)> {
    match parse_entry_head(s) {
        Some((fields, r)) => parse_entry_end(
            fields.0,
            fields.1,
            fields.2,
            fields.3,
            fields.4,
            fields.5,
            r,
        ),
        None => None,
    }
}

/// The tail of an event's canonical text: the error field if present, then
/// the closing brace.
pub open spec fn parse_entry_end(
    index: u64,
    type_: HistoryType,
    f: OpOrNemesisFuncType,
    value: HistoryValueView,
    time: u64,
    process: HistoryProcess,
    s: Seq<char>,
) -> Option<(HistoryEntryView, Seq<char>)> {
    if parse_lit("}"@, s) is Some {
        Some(
            (
                HistoryEntryView { index, type_, f, value, time, process, error: None },
                parse_lit("}"@, s)->Some_0,
            ),
        )
    } else {
        match parse_lit(",\":error\":["@, s) {
            Some(r1) => match parse_msgs(r1) {
                Some((msgs, r2)) => match parse_lit("}"@, r2) {
                    Some(r3) => Some(
                        (
                            HistoryEntryView {
                                index,
                                type_,
                                f,
                                value,
                                time,
                                process,
                                error: Some(msgs),
                            },
                            r3,
                        ),
                    ),
                    None => None,
                },
                None => None,
            },
            None => None,
        }
    }
}

/// The leading fields of an event's canonical text, through its actor.
pub open spec fn entry_head_text(e: HistoryEntryView) -> Seq<char> {
    "{\":index\":"@ + dec_digits(e.index as nat) + ",\":type\":"@ + type_label(e.type_)
        + ",\":f\":"@ + f_label(e.f) + ",\":value\":"@ + value_text(e.value)
        + ",\":time\":"@ + dec_digits(e.time as nat) + ",\":process\":"@ + process_text(
        e.process,
    )
}

/// Parsing the leading fields off their canonical text yields them back,
/// provided what follows does not begin with a digit.
#[verifier::rlimit(100)]
pub proof fn lemma_parse_entry_head(e: HistoryEntryView, tail: Seq<char>)
    requires
        tail.len() > 0,
        !is_digit(tail[0]),
    ensures
        parse_entry_head(entry_head_text(e) + tail) == Some(
            ((e.index, e.type_, e.f, e.value, e.time, e.process), tail),
        ),
{
    reveal_strlit("{\":index\":");
    reveal_strlit(",\":type\":");
    reveal_strlit(",\":f\":");
    reveal_strlit(",\":value\":");
    reveal_strlit(",\":time\":");
    reveal_strlit(",\":process\":");
    crate::codec::lemma_dec_digits(e.index as nat);
    crate::codec::lemma_dec_digits(e.time as nat);
    let p1 = process_text(e.process) + tail;
    let p0 = ",\":process\":"@ + p1;
    let m1 = dec_digits(e.time as nat) + p0;
    let m0 = ",\":time\":"@ + m1;
    let v1 = value_text(e.value) + m0;
    let v0 = ",\":value\":"@ + v1;
    let f1 = f_label(e.f) + v0;
    let f0 = ",\":f\":"@ + f1;
    let y1 = type_label(e.type_) + f0;
    let y0 = ",\":type\":"@ + y1;
    let i1 = dec_digits(e.index as nat) + y0;
    let s0 = "{\":index\":"@ + i1;
    assert(entry_head_text(e) + tail =~= s0);
    crate::codec::lemma_parse_lit("{\":index\":"@, i1);
    assert(y0[0] == ',');
    crate::codec::lemma_parse_u64(e.index, y0);
    crate::codec::lemma_parse_lit(",\":type\":"@, y1);
    lemma_parse_type(e.type_, f0);
    crate::codec::lemma_parse_lit(",\":f\":"@, f1);
    lemma_parse_f(e.f, v0);
    crate::codec::lemma_parse_lit(",\":value\":"@, v1);
    lemma_parse_value(e.value, m0);
    crate::codec::lemma_parse_lit(",\":time\":"@, m1);
    assert(p0[0] == ',');
    crate::codec::lemma_parse_u64(e.time, p0);
    crate::codec::lemma_parse_lit(",\":process\":"@, p1);
    lemma_parse_process(e.process, tail);
}

/// Parsing the error field and the closing brace off their canonical text
/// completes the event, leaving the rest untouched.
pub proof fn lemma_parse_entry_end(e: HistoryEntryView, rest: Seq<char>)
    ensures
        parse_entry_end(
            e.index,
            e.type_,
            e.f,
            e.value,
            e.time,
            e.process,
            error_text(e.error) + "}"@ + rest,
        ) == Some((e, rest)),
{
    reveal_strlit(",\":error\":[");
    reveal_strlit("}");
    reveal_strlit("]");
    let t12 = error_text(e.error) + "}"@ + rest;
    match e.error {
        None => {
            assert(t12 =~= "}"@ + rest);
            crate::codec::lemma_parse_lit("}"@, rest);
        },
        Some(msgs) => {
            assert(t12[0] == ",\":error\":["@[0]);
            assert(parse_lit("}"@, t12) is None) by {
                if parse_lit("}"@, t12) is Some {
                    assert(t12.take(1)[0] == '}');
                    assert(t12[0] == ',');
                }
            }
            let u1 = msgs_text(msgs) + seq![']'] + ("}"@ + rest);
            assert(t12 =~= ",\":error\":["@ + u1);
            crate::codec::lemma_parse_lit(",\":error\":["@, u1);
            lemma_parse_msgs(msgs, "}"@ + rest);
            crate::codec::lemma_parse_lit("}"@, rest);
        },
    }
}

/// Parsing a history event off its canonical text yields it back, leaving
/// the rest untouched.
pub proof fn lemma_parse_entry(e: HistoryEntryView, rest: Seq<char>)
    ensures
        parse_entry(entry_text(e) + rest) == Some((e, rest)),
{
    reveal_strlit(",\":error\":[");
    reveal_strlit("}");
    let tail = error_text(e.error) + "}"@ + rest;
    assert(tail.len() > 0 && !is_digit(tail[0])) by {
        match e.error {
            None => {
                assert(tail =~= "}"@ + rest);
                assert(tail[0] == '}');
            },
            Some(msgs) => {
                assert(tail[0] == ",\":error\":["@[0]);
            },
        }
    }
    assert(entry_text(e) + rest =~= entry_head_text(e) + tail);
    lemma_parse_entry_head(e, tail);
    lemma_parse_entry_end(e, rest);
}

/// Round trip of one history event: decoding its canonical text yields a
/// value equal to the original, with nothing left over.
pub proof fn lemma_entry_round_trip(e: HistoryEntryView)
    ensures
        parse_entry(entry_text(e)) == Some((e, Seq::<char>::empty())),
{
    lemma_parse_entry(e, Seq::empty());
    assert(entry_text(e) + Seq::<char>::empty() =~= entry_text(e));
}


/// Every event's canonical text opens with its brace.
pub proof fn lemma_entry_text_head(e: HistoryEntryView)
    ensures
        entry_text(e).len() > 0,
        entry_text(e)[0] == '{',
{
    reveal_strlit("{\":index\":");
    assert(entry_text(e)[0] == "{\":index\":"@[0]);
}

/// The events of a history in canonical text, separated by commas.
pub open spec fn entries_text(h: Seq<HistoryEntryView>) -> Seq<char>
    decreases h.len(),
{
    if h.len() == 0 {
        Seq::empty()
    } else if h.len() == 1 {
        entry_text(h[0])
    } else {
        entry_text(h[0]) + seq![','] + entries_text(h.drop_first())
    }
}

/// A whole history in canonical text: its events in append order, between
/// square brackets.
pub open spec fn history_text(h: Seq<HistoryEntryView>) -> Seq<char> {
    seq!['['] + entries_text(h) + seq![']']
}

/// The comma-separated events a canonical text starts with, up to and
/// including their closing bracket, and the rest.
pub open spec fn parse_entries(s: Seq<char>) -> Option<(Seq<HistoryEntryView>, Seq<char>)>
    decreases s.len(),
{
    if parse_lit("]"@, s) is Some {
        Some((Seq::empty(), parse_lit("]"@, s)->Some_0))
    } else {
        match parse_entry(s) {
            Some((e, r1)) => {
                if parse_lit(","@, r1) is Some {
                    let r2 = parse_lit(","@, r1)->Some_0;
                    if r2.len() < s.len() {
                        match parse_entries(r2) {
                            Some((rest_entries, r3)) => Some((seq![e] + rest_entries, r3)),
                            None => None,
                        }
                    } else {
                        None
                    }
                } else {
                    match parse_lit("]"@, r1) {
                        Some(r2) => Some((seq![e], r2)),
                        None => None,
                    }
                }
            },
            None => None,
        }
    }
}

/// The whole history a canonical text starts with, and the rest.
pub open spec fn parse_history(s: Seq<char>) -> Option<(Seq<HistoryEntryView>, Seq<char>)> {
    if s.len() > 0 && s[0] == '[' {
        parse_entries(s.drop_first())
    } else {
        None
    }
}

/// Parsing a run of events up to its closing bracket yields them back,
/// leaving the rest untouched.
#[verifier::rlimit(100)]
pub proof fn lemma_parse_entries(h: Seq<HistoryEntryView>, rest: Seq<char>)
    ensures
        parse_entries(entries_text(h) + seq![']'] + rest) == Some((h, rest)),
    decreases h.len(),
{
    reveal_strlit(",");
    reveal_strlit("]");
    let s = entries_text(h) + seq![']'] + rest;
    if h.len() == 0 {
        assert(s =~= "]"@ + rest);
        crate::codec::lemma_parse_lit("]"@, rest);
    } else {
        lemma_entry_text_head(h[0]);
        assert(s[0] == entry_text(h[0])[0]);
        assert(parse_lit("]"@, s) is None) by {
            if parse_lit("]"@, s) is Some {
                assert(s.take(1)[0] == ']');
            }
        }
        if h.len() == 1 {
            let tail = seq![']'] + rest;
            assert(s =~= entry_text(h[0]) + tail);
            lemma_parse_entry(h[0], tail);
            assert(parse_lit(","@, tail) is None) by {
                if parse_lit(","@, tail) is Some {
                    assert(tail.take(1)[0] == ',');
                }
            }
            assert(tail =~= "]"@ + rest);
            crate::codec::lemma_parse_lit("]"@, rest);
            assert(seq![h[0]] =~= h);
        } else {
            let inner = entries_text(h.drop_first()) + seq![']'] + rest;
            let tail = seq![','] + inner;
            assert(s =~= entry_text(h[0]) + tail);
            lemma_parse_entry(h[0], tail);
            assert(tail =~= ","@ + inner);
            crate::codec::lemma_parse_lit(","@, inner);
            assert(inner.len() < s.len());
            lemma_parse_entries(h.drop_first(), rest);
            assert(seq![h[0]] + h.drop_first() =~= h);
        }
    }
}

/// Round trip of a whole history: decoding its canonical text yields a
/// value equal to the original, with nothing left over.
pub proof fn lemma_history_round_trip(h: Seq<HistoryEntryView>)
    ensures
        parse_history(history_text(h)) == Some((h, Seq::<char>::empty())),
{
    let s = history_text(h);
    assert(s[0] == '[');
    assert(s.drop_first() =~= entries_text(h) + seq![']'] + Seq::<char>::empty());
    lemma_parse_entries(h, Seq::empty());
}


/// Whether the text at `pos` begins with the literal, and where it ends —
/// exactly as `parse_lit` reads it.
fn scan_lit(buf: &Vec<char>, pos: usize, lit: &str) -> (r: Option<usize>)
    requires
        pos <= buf@.len(),
    ensures
        match r {
            Some(p) => {
                &&& p == pos + lit@.len() <= buf@.len()
                &&& parse_lit(lit@, buf@.skip(pos as int)) == Some(buf@.skip(p as int))
            },
            None => parse_lit(lit@, buf@.skip(pos as int)) is None,
        },
{
    let chars = str_to_chars(lit);
    let n = chars.len();
    let ghost s = buf@.skip(pos as int);
    if buf.len() - pos < n {
        proof {
            assert(lit@.len() > s.len());
        }
        return None;
    }
    let blen = buf.len();
    let mut i: usize = 0;
    while i < n
        invariant
            i <= n,
            n == lit@.len(),
            chars@ == lit@,
            blen == buf@.len(),
            pos + n <= blen,
            s == buf@.skip(pos as int),
            forall|j: int| 0 <= j < i ==> buf@.skip(pos as int)[j] == lit@[j],
        decreases n - i,
    {
        if buf[pos + i] != chars[i] {
            proof {
                assert(s[i as int] == buf@[pos + i]);
                if parse_lit(lit@, s) is Some {
                    assert(s.take(lit@.len() as int)[i as int] == lit@[i as int]);
                }
            }
            return None;
        }
        proof {
            assert(s[i as int] == buf@[pos + i]);
        }
        i += 1;
    }
    proof {
        assert(s.take(lit@.len() as int) =~= lit@);
        assert(s.skip(lit@.len() as int) =~= buf@.skip(pos as int + n));
    }
    Some(pos + n)
}

/// The operation the text at `pos` begins with, exactly as `parse_op`
/// reads it.
pub fn scan_op(buf: &Vec<char>, pos: usize) -> (r: Option<(Op, usize)>)
    requires
        pos <= buf@.len(),
    ensures
        match r {
            Some(parsed) => pos < parsed.1 <= buf@.len() && parse_op(
                buf@.skip(pos as int),
            ) == Some((parsed.0@, buf@.skip(parsed.1 as int))),
            None => parse_op(buf@.skip(pos as int)) is None,
        },
    decreases buf@.len() - pos, 0int,
{
    let ghost s = buf@.skip(pos as int);
    if let Some(p1) = scan_lit(buf, pos, "[\":r\",") {
        proof {
            reveal_strlit("[\":r\",");
        }
        match scan_u64(buf, p1) {
            Some((key, p2)) => {
                if let Some(p3) = scan_lit(buf, p2, ",null]") {
                    proof {
                        reveal_strlit(",null]");
                    }
                    return Some((Op::Read(key, None), p3));
                }
                match scan_lit(buf, p2, ",") {
                    Some(p3) => match scan_u64(buf, p3) {
                        Some((x, p4)) => match scan_lit(buf, p4, "]") {
                            Some(p5) => {
                                proof {
                                    reveal_strlit(",");
                                    reveal_strlit("]");
                                }
                                Some((Op::Read(key, Some(x)), p5))
                            },
                            None => None,
                        },
                        None => None,
                    },
                    None => None,
                }
            },
            None => None,
        }
    } else if let Some(p1) = scan_lit(buf, pos, "[\":w\",") {
        proof {
            reveal_strlit("[\":w\",");
        }
        match scan_u64(buf, p1) {
            Some((key, p2)) => match scan_lit(buf, p2, ",") {
                Some(p3) => match scan_u64(buf, p3) {
                    Some((x, p4)) => match scan_lit(buf, p4, "]") {
                        Some(p5) => {
                            proof {
                                reveal_strlit(",");
                                reveal_strlit("]");
                            }
                            Some((Op::Write(key, x), p5))
                        },
                        None => None,
                    },
                    None => None,
                },
                None => None,
            },
            None => None,
        }
    } else if let Some(p1) = scan_lit(buf, pos, "[\":txn\",[") {
        proof {
            reveal_strlit("[\":txn\",[");
        }
        match scan_ops(buf, p1) {
            Some((ops, p2)) => match scan_lit(buf, p2, "]") {
                Some(p3) => {
                    proof {
                        reveal_strlit("]");
                        crate::op::lemma_ops_view(ops@);
                    }
                    Some((Op::Txn(ops), p3))
                },
                None => None,
            },
            None => None,
        }
    } else {
        None
    }
}

/// The comma-separated operations the text at `pos` begins with, up to and
/// including their closing bracket, exactly as `parse_ops` reads them.
pub fn scan_ops(buf: &Vec<char>, pos: usize) -> (r: Option<(Vec<Op>, usize)>)
    requires
        pos <= buf@.len(),
    ensures
        match r {
            Some(parsed) => pos < parsed.1 <= buf@.len() && parse_ops(
                buf@.skip(pos as int),
            ) == Some((crate::op::ops_view(parsed.0@), buf@.skip(parsed.1 as int))),
            None => parse_ops(buf@.skip(pos as int)) is None,
        },
    decreases buf@.len() - pos, 1int,
{
    if let Some(p) = scan_lit(buf, pos, "]") {
        proof {
            reveal_strlit("]");
            crate::op::lemma_ops_view(Seq::<Op>::empty());
            assert(crate::op::ops_view(Seq::<Op>::empty()) =~= Seq::<OpView>::empty());
        }
        let ops: Vec<Op> = Vec::new();
        proof {
            assert(ops@ =~= Seq::<Op>::empty());
        }
        return Some((ops, p));
    }
    match scan_op(buf, pos) {
        Some((op, p1)) => {
            if let Some(p2) = scan_lit(buf, p1, ",") {
                proof {
                    reveal_strlit(",");
                }
                match scan_ops(buf, p2) {
                    Some((rest_ops, p3)) => {
                        let mut ops: Vec<Op> = Vec::new();
                        ops.push(op);
                        let mut rest_vec = rest_ops;
                        let ghost rest_view = rest_vec@;
                        while rest_vec.len() > 0
                            invariant
                                ops@.len() >= 1,
                                ops@[0] == op,
                                ops@.drop_first() + rest_vec@ == rest_view,
                            decreases rest_vec@.len(),
                        {
                            let x = rest_vec.remove(0);
                            ops.push(x);
                            proof {
                                assert(ops@.drop_first() + rest_vec@ =~= rest_view);
                            }
                        }
                        proof {
                            assert(ops@.drop_first() =~= rest_view);
                            assert(ops@ =~= seq![op] + rest_view);
                            crate::op::lemma_ops_view(ops@);
                            crate::op::lemma_ops_view(rest_view);
                            assert(crate::op::ops_view(ops@) =~= seq![op@]
                                + crate::op::ops_view(rest_view));
                        }
                        Some((ops, p3))
                    },
                    None => None,
                }
            } else {
                match scan_lit(buf, p1, "]") {
                    Some(p2) => {
                        proof {
                            reveal_strlit("]");
                        }
                        let mut ops: Vec<Op> = Vec::new();
                        ops.push(op);
                        proof {
                            crate::op::lemma_ops_view(ops@);
                            assert(crate::op::ops_view(ops@) =~= seq![op@]);
                        }
                        Some((ops, p2))
                    },
                    None => None,
                }
            }
        },
        None => None,
    }
}

/// The event kind the text at `pos` begins with, exactly as the
/// specification reads it.
fn scan_type(buf: &Vec<char>, pos: usize) -> (r: Option<(HistoryType, usize)>)
    requires
        pos <= buf@.len(),
    ensures
        match r {
            Some(parsed) => pos < parsed.1 <= buf@.len() && parse_type(
                buf@.skip(pos as int),
            ) == Some((parsed.0, buf@.skip(parsed.1 as int))),
            None => parse_type(buf@.skip(pos as int)) is None,
        },
{
    if let Some(p) = scan_lit(buf, pos, "\":invoke\"") {
        proof {
            reveal_strlit("\":invoke\"");
        }
        return Some((HistoryType::Invoke, p));
    }
    if let Some(p) = scan_lit(buf, pos, "\":ok\"") {
        proof {
            reveal_strlit("\":ok\"");
        }
        return Some((HistoryType::Okay, p));
    }
    if let Some(p) = scan_lit(buf, pos, "\":fail\"") {
        proof {
            reveal_strlit("\":fail\"");
        }
        return Some((HistoryType::Fail, p));
    }
    if let Some(p) = scan_lit(buf, pos, "\":info\"") {
        proof {
            reveal_strlit("\":info\"");
        }
        return Some((HistoryType::Info, p));
    }
    None
}

/// The `f` label the text at `pos` begins with, exactly as the
/// specification reads it.
fn scan_f(buf: &Vec<char>, pos: usize) -> (r: Option<(OpOrNemesisFuncType, usize)>)
    requires
        pos <= buf@.len(),
    ensures
        match r {
            Some(parsed) => pos < parsed.1 <= buf@.len() && parse_f(
                buf@.skip(pos as int),
            ) == Some((parsed.0, buf@.skip(parsed.1 as int))),
            None => parse_f(buf@.skip(pos as int)) is None,
        },
{
    if let Some(p) = scan_lit(buf, pos, "\":read\"") {
        proof {
            reveal_strlit("\":read\"");
        }
        return Some((OpOrNemesisFuncType::Op(OpFunctionType::Read), p));
    }
    if let Some(p) = scan_lit(buf, pos, "\":write\"") {
        proof {
            reveal_strlit("\":write\"");
        }
        return Some((OpOrNemesisFuncType::Op(OpFunctionType::Write), p));
    }
    if let Some(p) = scan_lit(buf, pos, "\":txn\"") {
        proof {
            reveal_strlit("\":txn\"");
        }
        return Some((OpOrNemesisFuncType::Op(OpFunctionType::Txn), p));
    }
    if let Some(p) = scan_lit(buf, pos, "\":bitflip-wal\"") {
        proof {
            reveal_strlit("\":bitflip-wal\"");
        }
        return Some((OpOrNemesisFuncType::Nemesis(SerializableNemesisType::BitflipWal), p));
    }
    if let Some(p) = scan_lit(buf, pos, "\":bitflip-snap\"") {
        proof {
            reveal_strlit("\":bitflip-snap\"");
        }
        return Some((OpOrNemesisFuncType::Nemesis(SerializableNemesisType::BitflipSnap), p));
    }
    if let Some(p) = scan_lit(buf, pos, "\":truncate-wal\"") {
        proof {
            reveal_strlit("\":truncate-wal\"");
        }
        return Some((OpOrNemesisFuncType::Nemesis(SerializableNemesisType::TruncateWal), p));
    }
    if let Some(p) = scan_lit(buf, pos, "\":pause\"") {
        proof {
            reveal_strlit("\":pause\"");
        }
        return Some((OpOrNemesisFuncType::Nemesis(SerializableNemesisType::Pause), p));
    }
    if let Some(p) = scan_lit(buf, pos, "\":kill\"") {
        proof {
            reveal_strlit("\":kill\"");
        }
        return Some((OpOrNemesisFuncType::Nemesis(SerializableNemesisType::Kill), p));
    }
    if let Some(p) = scan_lit(buf, pos, "\":partition\"") {
        proof {
            reveal_strlit("\":partition\"");
        }
        return Some((OpOrNemesisFuncType::Nemesis(SerializableNemesisType::Partition), p));
    }
    if let Some(p) = scan_lit(buf, pos, "\":clock\"") {
        proof {
            reveal_strlit("\":clock\"");
        }
        return Some((OpOrNemesisFuncType::Nemesis(SerializableNemesisType::Clock), p));
    }
    if let Some(p) = scan_lit(buf, pos, "\":join\"") {
        proof {
            reveal_strlit("\":join\"");
        }
        return Some((OpOrNemesisFuncType::Nemesis(SerializableNemesisType::Join), p));
    }
    if let Some(p) = scan_lit(buf, pos, "\":start\"") {
        proof {
            reveal_strlit("\":start\"");
        }
        return Some((OpOrNemesisFuncType::Nemesis(SerializableNemesisType::Start), p));
    }
    if let Some(p) = scan_lit(buf, pos, "\":resume\"") {
        proof {
            reveal_strlit("\":resume\"");
        }
        return Some((OpOrNemesisFuncType::Nemesis(SerializableNemesisType::Resume), p));
    }
    None
}

/// The actor the text at `pos` begins with, exactly as `parse_process`
/// reads it.
fn scan_process(buf: &Vec<char>, pos: usize) -> (r: Option<(HistoryProcess, usize)>)
    requires
        pos <= buf@.len(),
    ensures
        match r {
            Some(parsed) => pos < parsed.1 <= buf@.len() && parse_process(
                buf@.skip(pos as int),
            ) == Some((parsed.0, buf@.skip(parsed.1 as int))),
            None => parse_process(buf@.skip(pos as int)) is None,
        },
{
    if let Some(p) = scan_lit(buf, pos, "\":nemesis\"") {
        proof {
            reveal_strlit("\":nemesis\"");
        }
        return Some((HistoryProcess::Nemesis, p));
    }
    match scan_u64(buf, pos) {
        Some((id, p)) => Some((HistoryProcess::Gen(id), p)),
        None => None,
    }
}

/// The payload the text at `pos` begins with, exactly as `parse_value`
/// reads it.
fn scan_value(buf: &Vec<char>, pos: usize) -> (r: Option<(HistoryValue, usize)>)
    requires
        pos <= buf@.len(),
    ensures
        match r {
            Some(parsed) => pos < parsed.1 <= buf@.len() && parse_value(
                buf@.skip(pos as int),
            ) == Some((parsed.0@, buf@.skip(parsed.1 as int))),
            None => parse_value(buf@.skip(pos as int)) is None,
        },
{
    if pos < buf.len() && buf[pos] == '"' {
        proof {
            assert(buf@.skip(pos as int)[0] == buf@[pos as int]);
        }
        match scan_string(buf, pos) {
            Some((text, p)) => Some((HistoryValue::String(text), p)),
            None => None,
        }
    } else {
        proof {
            if pos < buf@.len() {
                assert(buf@.skip(pos as int)[0] == buf@[pos as int]);
            }
        }
        match scan_op(buf, pos) {
            Some((op, p)) => Some((HistoryValue::Op(op), p)),
            None => None,
        }
    }
}

/// The comma-separated error messages the text at `pos` begins with, up to
/// and including their closing bracket, exactly as `parse_msgs` reads them.
fn scan_msgs(buf: &Vec<char>, pos: usize) -> (r: Option<(Vec<String>, usize)>)
    requires
        pos <= buf@.len(),
    ensures
        match r {
            Some(parsed) => pos < parsed.1 <= buf@.len() && parse_msgs(
                buf@.skip(pos as int),
            ) == Some(
                (parsed.0@.map_values(|m: String| m@), buf@.skip(parsed.1 as int)),
            ),
            None => parse_msgs(buf@.skip(pos as int)) is None,
        },
    decreases buf@.len() - pos,
{
    if let Some(p) = scan_lit(buf, pos, "]") {
        proof {
            reveal_strlit("]");
        }
        let msgs: Vec<String> = Vec::new();
        proof {
            assert(msgs@.map_values(|m: String| m@) =~= Seq::<Seq<char>>::empty());
        }
        return Some((msgs, p));
    }
    match scan_string(buf, pos) {
        Some((m, p1)) => {
            if let Some(p2) = scan_lit(buf, p1, ",") {
                proof {
                    reveal_strlit(",");
                }
                match scan_msgs(buf, p2) {
                    Some((rest_msgs, p3)) => {
                        let ghost m_view = m@;
                        let mut msgs: Vec<String> = Vec::new();
                        msgs.push(m);
                        let mut rest_vec = rest_msgs;
                        let ghost rest_view = rest_vec@;
                        while rest_vec.len() > 0
                            invariant
                                msgs@.len() >= 1,
                                msgs@[0]@ == m_view,
                                msgs@.drop_first() + rest_vec@ == rest_view,
                            decreases rest_vec@.len(),
                        {
                            let x = rest_vec.remove(0);
                            msgs.push(x);
                            proof {
                                assert(msgs@.drop_first() + rest_vec@ =~= rest_view);
                            }
                        }
                        proof {
                            assert(msgs@.drop_first() =~= rest_view);
                            assert(msgs@.map_values(|mm: String| mm@) =~= seq![m_view]
                                + rest_view.map_values(|mm: String| mm@));
                        }
                        Some((msgs, p3))
                    },
                    None => None,
                }
            } else {
                match scan_lit(buf, p1, "]") {
                    Some(p2) => {
                        proof {
                            reveal_strlit("]");
                        }
                        let ghost m_view = m@;
                        let mut msgs: Vec<String> = Vec::new();
                        msgs.push(m);
                        proof {
                            assert(msgs@.map_values(|mm: String| mm@) =~= seq![m_view]);
                        }
                        Some((msgs, p2))
                    },
                    None => None,
                }
            }
        },
        None => None,
    }
}

/// The history event the text at `pos` begins with, exactly as
/// `parse_entry` reads it.
pub fn scan_entry(buf: &Vec<char>, pos: usize) -> (r: Option<(SerializableHistory, usize)>)
    requires
        pos <= buf@.len(),
    ensures
        match r {
            Some(parsed) => pos < parsed.1 <= buf@.len() && parse_entry(
                buf@.skip(pos as int),
            ) == Some((parsed.0@, buf@.skip(parsed.1 as int))),
            None => parse_entry(buf@.skip(pos as int)) is None,
        },
{
    let head = scan_entry_head(buf, pos);
    match head {
        Some((index, type_, f, value, time, process, p12)) => {
            if let Some(p) = scan_lit(buf, p12, "}") {
                proof {
                    reveal_strlit("}");
                }
                let e = SerializableHistory {
                    index,
                    type_,
                    f,
                    value,
                    time,
                    process,
                    error: None,
                };
                return Some((e, p));
            }
            match scan_lit(buf, p12, ",\":error\":[") {
                Some(p13) => {
                    proof {
                        reveal_strlit(",\":error\":[");
                    }
                    match scan_msgs(buf, p13) {
                        Some((msgs, p14)) => match scan_lit(buf, p14, "}") {
                            Some(p15) => {
                                proof {
                                    reveal_strlit("}");
                                }
                                let e = SerializableHistory {
                                    index,
                                    type_,
                                    f,
                                    value,
                                    time,
                                    process,
                                    error: Some(msgs),
                                };
                                Some((e, p15))
                            },
                            None => None,
                        },
                        None => None,
                    }
                },
                None => None,
            }
        },
        None => None,
    }
}

/// The leading fields of the event at `pos`, exactly as `parse_entry_head`
/// reads them.
fn scan_entry_head(buf: &Vec<char>, pos: usize) -> (r: Option<
    (u64, HistoryType, OpOrNemesisFuncType, HistoryValue, u64, HistoryProcess, usize),
>)
    requires
        pos <= buf@.len(),
    ensures
        match r {
            Some(parsed) => pos < parsed.6 <= buf@.len() && parse_entry_head(
                buf@.skip(pos as int),
            ) == Some(
                (
                    (parsed.0, parsed.1, parsed.2, parsed.3@, parsed.4, parsed.5),
                    buf@.skip(parsed.6 as int),
                ),
            ),
            None => parse_entry_head(buf@.skip(pos as int)) is None,
        },
{
    let p1 = match scan_lit(buf, pos, "{\":index\":") {
        Some(p) => p,
        None => {
            return None;
        },
    };
    proof {
        reveal_strlit("{\":index\":");
    }
    let (index, p2) = match scan_u64(buf, p1) {
        Some(x) => x,
        None => {
            return None;
        },
    };
    let p3 = match scan_lit(buf, p2, ",\":type\":") {
        Some(p) => p,
        None => {
            return None;
        },
    };
    proof {
        reveal_strlit(",\":type\":");
    }
    let (type_, p4) = match scan_type(buf, p3) {
        Some(x) => x,
        None => {
            return None;
        },
    };
    let p5 = match scan_lit(buf, p4, ",\":f\":") {
        Some(p) => p,
        None => {
            return None;
        },
    };
    proof {
        reveal_strlit(",\":f\":");
    }
    let (f, p6) = match scan_f(buf, p5) {
        Some(x) => x,
        None => {
            return None;
        },
    };
    let p7 = match scan_lit(buf, p6, ",\":value\":") {
        Some(p) => p,
        None => {
            return None;
        },
    };
    proof {
        reveal_strlit(",\":value\":");
    }
    let (value, p8) = match scan_value(buf, p7) {
        Some(x) => x,
        None => {
            return None;
        },
    };
    let p9 = match scan_lit(buf, p8, ",\":time\":") {
        Some(p) => p,
        None => {
            return None;
        },
    };
    proof {
        reveal_strlit(",\":time\":");
    }
    let (time, p10) = match scan_u64(buf, p9) {
        Some(x) => x,
        None => {
            return None;
        },
    };
    let p11 = match scan_lit(buf, p10, ",\":process\":") {
        Some(p) => p,
        None => {
            return None;
        },
    };
    proof {
        reveal_strlit(",\":process\":");
    }
    let (process, p12) = match scan_process(buf, p11) {
        Some(x) => x,
        None => {
            return None;
        },
    };
    Some((index, type_, f, value, time, process, p12))
}


/// Append the canonical text of one operation.
pub fn push_op(out: &mut Vec<char>, op: &Op)
    ensures
        final(out)@ == old(out)@ + op_text(op@),
    decreases *op, 0int,
{
    match op {
        Op::Read(key, value) => {
            push_str_lit(out, "[\":r\",");
            push_dec(out, *key);
            match value {
                Some(x) => {
                    push_str_lit(out, ",");
                    push_dec(out, *x);
                    push_str_lit(out, "]");
                },
                None => {
                    push_str_lit(out, ",null]");
                },
            }
            proof {
                assert(out@ =~= old(out)@ + op_text(op@));
            }
        },
        Op::Write(key, x) => {
            push_str_lit(out, "[\":w\",");
            push_dec(out, *key);
            push_str_lit(out, ",");
            push_dec(out, *x);
            push_str_lit(out, "]");
            proof {
                assert(out@ =~= old(out)@ + op_text(op@));
            }
        },
        Op::Txn(ops) => {
            push_str_lit(out, "[\":txn\",[");
            proof {
                assert(*ops == (*op)->Txn_0);
                assert(decreases_to!(*op => (*op)->Txn_0));
                crate::op::lemma_ops_view(ops@);
            }
            push_ops_from(out, ops, 0);
            push_str_lit(out, "]]");
            proof {
                assert(ops@.skip(0) =~= ops@);
                assert(out@ =~= old(out)@ + op_text(op@));
            }
        },
    }
}

/// Append the canonical text of the operations of `ops` from `from` on,
/// separated by commas.
fn push_ops_from(out: &mut Vec<char>, ops: &Vec<Op>, from: usize)
    requires
        from <= ops@.len(),
    ensures
        final(out)@ == old(out)@ + ops_text(crate::op::ops_view(ops@.skip(from as int))),
    decreases *ops, ops@.len() - from,
{
    proof {
        crate::op::lemma_ops_view(ops@.skip(from as int));
    }
    if from == ops.len() {
        proof {
            assert(ops@.skip(from as int) =~= Seq::<Op>::empty());
            assert(crate::op::ops_view(ops@.skip(from as int)).len() == 0);
            assert(out@ =~= old(out)@ + ops_text(crate::op::ops_view(ops@.skip(from as int))));
        }
        return ;
    }
    let hd = &ops[from];
    proof {
        assert(decreases_to!(*ops => ops@));
        assert(decreases_to!(ops@ => ops@[from as int]));
        assert(crate::op::ops_view(ops@.skip(from as int))[0] == crate::op::op_view(
            ops@[from as int],
        ));
    }
    push_op(out, hd);
    if from + 1 == ops.len() {
        proof {
            assert(crate::op::ops_view(ops@.skip(from as int)).len() == 1);
            assert(out@ =~= old(out)@ + ops_text(crate::op::ops_view(ops@.skip(from as int))));
        }
        return ;
    }
    push_str_lit(out, ",");
    push_ops_from(out, ops, from + 1);
    proof {
        crate::op::lemma_ops_view(ops@.skip(from as int + 1));
        assert(crate::op::ops_view(ops@.skip(from as int)).drop_first()
            =~= crate::op::ops_view(ops@.skip(from as int + 1)));
        reveal_strlit(",");
        assert(","@ =~= seq![',']);
        assert(out@ =~= old(out)@ + ops_text(crate::op::ops_view(ops@.skip(from as int))));
    }
}

/// Append the label of `x`.
fn push_type_label(out: &mut Vec<char>, x: HistoryType)
    ensures
        final(out)@ == old(out)@ + type_label(x),
{
    match x {
        HistoryType::Invoke => push_str_lit(out, "\":invoke\""),
        HistoryType::Okay => push_str_lit(out, "\":ok\""),
        HistoryType::Fail => push_str_lit(out, "\":fail\""),
        HistoryType::Info => push_str_lit(out, "\":info\""),
    }
}

/// Append the label of `x`.
fn push_f_label(out: &mut Vec<char>, x: OpOrNemesisFuncType)
    ensures
        final(out)@ == old(out)@ + f_label(x),
{
    match x {
        OpOrNemesisFuncType::Op(OpFunctionType::Read) => push_str_lit(out, "\":read\""),
        OpOrNemesisFuncType::Op(OpFunctionType::Write) => push_str_lit(out, "\":write\""),
        OpOrNemesisFuncType::Op(OpFunctionType::Txn) => push_str_lit(out, "\":txn\""),
        OpOrNemesisFuncType::Nemesis(SerializableNemesisType::BitflipWal) => push_str_lit(out, "\":bitflip-wal\""),
        OpOrNemesisFuncType::Nemesis(SerializableNemesisType::BitflipSnap) => push_str_lit(out, "\":bitflip-snap\""),
        OpOrNemesisFuncType::Nemesis(SerializableNemesisType::TruncateWal) => push_str_lit(out, "\":truncate-wal\""),
        OpOrNemesisFuncType::Nemesis(SerializableNemesisType::Pause) => push_str_lit(out, "\":pause\""),
        OpOrNemesisFuncType::Nemesis(SerializableNemesisType::Kill) => push_str_lit(out, "\":kill\""),
        OpOrNemesisFuncType::Nemesis(SerializableNemesisType::Partition) => push_str_lit(out, "\":partition\""),
        OpOrNemesisFuncType::Nemesis(SerializableNemesisType::Clock) => push_str_lit(out, "\":clock\""),
        OpOrNemesisFuncType::Nemesis(SerializableNemesisType::Join) => push_str_lit(out, "\":join\""),
        OpOrNemesisFuncType::Nemesis(SerializableNemesisType::Start) => push_str_lit(out, "\":start\""),
        OpOrNemesisFuncType::Nemesis(SerializableNemesisType::Resume) => push_str_lit(out, "\":resume\""),
    }
}

/// Append the canonical text of an actor.
fn push_process(out: &mut Vec<char>, p: HistoryProcess)
    ensures
        final(out)@ == old(out)@ + process_text(p),
{
    match p {
        HistoryProcess::Nemesis => push_str_lit(out, "\":nemesis\""),
        HistoryProcess::Gen(id) => push_dec(out, id),
    }
}

/// Append the canonical text of a payload.
fn push_value(out: &mut Vec<char>, v: &HistoryValue)
    ensures
        final(out)@ == old(out)@ + value_text(v@),
{
    match v {
        HistoryValue::String(s) => push_quoted(out, s.as_str()),
        HistoryValue::Op(op) => push_op(out, op),
    }
}

/// Append the canonical text of the messages of `msgs` from `from` on,
/// separated by commas.
fn push_msgs_from(out: &mut Vec<char>, msgs: &Vec<String>, from: usize)
    requires
        from <= msgs@.len(),
    ensures
        final(out)@ == old(out)@ + msgs_text(
            msgs@.skip(from as int).map_values(|m: String| m@),
        ),
    decreases msgs@.len() - from,
{
    let ghost tail = msgs@.skip(from as int).map_values(|m: String| m@);
    if from == msgs.len() {
        proof {
            assert(msgs@.skip(from as int) =~= Seq::<String>::empty());
            assert(tail =~= Seq::<Seq<char>>::empty());
            assert(out@ =~= old(out)@ + msgs_text(tail));
        }
        return ;
    }
    proof {
        assert(tail[0] == msgs@[from as int]@);
    }
    push_quoted(out, msgs[from].as_str());
    if from + 1 == msgs.len() {
        proof {
            assert(tail.len() == 1);
            assert(out@ =~= old(out)@ + msgs_text(tail));
        }
        return ;
    }
    push_str_lit(out, ",");
    push_msgs_from(out, msgs, from + 1);
    proof {
        assert(tail.drop_first() =~= msgs@.skip(from as int + 1).map_values(
            |m: String| m@,
        ));
        reveal_strlit(",");
        assert(","@ =~= seq![',']);
        assert(out@ =~= old(out)@ + msgs_text(tail));
    }
}

/// Append the canonical text of all messages of `msgs`, separated by
/// commas.
pub fn push_msgs_list(out: &mut Vec<char>, msgs: &Vec<String>)
    ensures
        final(out)@ == old(out)@ + msgs_text(msgs@.map_values(|m: String| m@)),
{
    push_msgs_from(out, msgs, 0);
    proof {
        assert(msgs@.skip(0) =~= msgs@);
    }
}

/// Append the canonical text of one history event.
#[verifier::rlimit(100)]
pub fn push_entry(out: &mut Vec<char>, e: &SerializableHistory)
    ensures
        final(out)@ == old(out)@ + entry_text(e@),
{
    push_str_lit(out, "{\":index\":");
    push_dec(out, e.index);
    push_str_lit(out, ",\":type\":");
    push_type_label(out, e.type_);
    push_str_lit(out, ",\":f\":");
    push_f_label(out, e.f);
    push_str_lit(out, ",\":value\":");
    push_value(out, &e.value);
    push_str_lit(out, ",\":time\":");
    push_dec(out, e.time);
    push_str_lit(out, ",\":process\":");
    push_process(out, e.process);
    match &e.error {
        None => {
        },
        Some(msgs) => {
            push_str_lit(out, ",\":error\":[");
            push_msgs_from(out, msgs, 0);
            push_str_lit(out, "]");
            proof {
                assert(msgs@.skip(0) =~= msgs@);
                reveal_strlit("]");
                assert("]"@ =~= seq![']']);
            }
        },
    }
    push_str_lit(out, "}");
    proof {
        assert(out@ =~= old(out)@ + entry_text(e@));
    }
}

/// One history event in its canonical textual form.
pub fn encode_entry(e: &SerializableHistory) -> (s: String)
    ensures
        s@ == entry_text(e@),
{
    let mut out: Vec<char> = Vec::new();
    push_entry(&mut out, e);
    proof {
        assert(out@ =~= entry_text(e@));
    }
    chars_to_string(&out)
}

/// The history event a canonical text holds, provided the whole text is
/// exactly one event.
pub fn decode_entry(s: &str) -> (r: Option<SerializableHistory>)
    ensures
        match r {
            Some(e) => parse_entry(s@) == Some((e@, Seq::<char>::empty())),
            None => parse_entry(s@) is None || parse_entry(s@)->Some_0.1.len() != 0,
        },
{
    let buf = str_to_chars(s);
    proof {
        assert(buf@.skip(0) =~= s@);
    }
    match scan_entry(&buf, 0) {
        Some((e, p)) => {
            if p == buf.len() {
                proof {
                    assert(buf@.skip(p as int) =~= Seq::<char>::empty());
                }
                Some(e)
            } else {
                proof {
                    assert(buf@.skip(p as int).len() != 0);
                }
                None
            }
        },
        None => None,
    }
}

/// Append the canonical text of the events of `h` from `from` on,
/// separated by commas.
fn push_entries_from(out: &mut Vec<char>, h: &SerializableHistoryList, from: usize)
    requires
        from <= h@.len(),
    ensures
        final(out)@ == old(out)@ + entries_text(h@.skip(from as int)),
    decreases h@.len() - from,
{
    let n = h.len();
    if from == n {
        proof {
            assert(h@.skip(from as int) =~= Seq::<HistoryEntryView>::empty());
            assert(out@ =~= old(out)@ + entries_text(h@.skip(from as int)));
        }
        return ;
    }
    let e = h.index(from);
    proof {
        assert(h@.skip(from as int)[0] == h@[from as int]);
    }
    push_entry(out, e);
    if from + 1 == n {
        proof {
            assert(h@.skip(from as int).len() == 1);
            assert(out@ =~= old(out)@ + entries_text(h@.skip(from as int)));
        }
        return ;
    }
    push_str_lit(out, ",");
    push_entries_from(out, h, from + 1);
    proof {
        assert(h@.skip(from as int).drop_first() =~= h@.skip(from as int + 1));
        reveal_strlit(",");
        assert(","@ =~= seq![',']);
        assert(out@ =~= old(out)@ + entries_text(h@.skip(from as int)));
    }
}

/// A whole history in its canonical textual form.
pub fn encode_history(h: &SerializableHistoryList) -> (s: String)
    ensures
        s@ == history_text(h@),
{
    let mut out: Vec<char> = Vec::new();
    out.push('[');
    push_entries_from(&mut out, h, 0);
    out.push(']');
    proof {
        assert(h@.skip(0) =~= h@);
        assert(out@ =~= history_text(h@));
    }
    chars_to_string(&out)
}

/// The comma-separated events the text at `pos` begins with, up to and
/// including their closing bracket, exactly as `parse_entries` reads them.
fn scan_entries(buf: &Vec<char>, pos: usize) -> (r: Option<(Vec<SerializableHistory>, usize)>)
    requires
        pos <= buf@.len(),
    ensures
        match r {
            Some(parsed) => pos < parsed.1 <= buf@.len() && parse_entries(
                buf@.skip(pos as int),
            ) == Some(
                (
                    parsed.0@.map_values(|e: SerializableHistory| e@),
                    buf@.skip(parsed.1 as int),
                ),
            ),
            None => parse_entries(buf@.skip(pos as int)) is None,
        },
    decreases buf@.len() - pos,
{
    if let Some(p) = scan_lit(buf, pos, "]") {
        proof {
            reveal_strlit("]");
        }
        let entries: Vec<SerializableHistory> = Vec::new();
        proof {
            assert(entries@.map_values(|e: SerializableHistory| e@)
                =~= Seq::<HistoryEntryView>::empty());
        }
        return Some((entries, p));
    }
    match scan_entry(buf, pos) {
        Some((e, p1)) => {
            if let Some(p2) = scan_lit(buf, p1, ",") {
                proof {
                    reveal_strlit(",");
                }
                match scan_entries(buf, p2) {
                    Some((rest_entries, p3)) => {
                        let ghost e_view = e@;
                        let mut entries: Vec<SerializableHistory> = Vec::new();
                        entries.push(e);
                        let mut rest_vec = rest_entries;
                        let ghost rest_view = rest_vec@;
                        while rest_vec.len() > 0
                            invariant
                                entries@.len() >= 1,
                                entries@[0]@ == e_view,
                                entries@.drop_first() + rest_vec@ == rest_view,
                            decreases rest_vec@.len(),
                        {
                            let x = rest_vec.remove(0);
                            entries.push(x);
                            proof {
                                assert(entries@.drop_first() + rest_vec@ =~= rest_view);
                            }
                        }
                        proof {
                            assert(entries@.drop_first() =~= rest_view);
                            assert(entries@.map_values(|ee: SerializableHistory| ee@)
                                =~= seq![e_view] + rest_view.map_values(
                                |ee: SerializableHistory| ee@,
                            ));
                        }
                        Some((entries, p3))
                    },
                    None => None,
                }
            } else {
                match scan_lit(buf, p1, "]") {
                    Some(p2) => {
                        proof {
                            reveal_strlit("]");
                        }
                        let ghost e_view = e@;
                        let mut entries: Vec<SerializableHistory> = Vec::new();
                        entries.push(e);
                        proof {
                            assert(entries@.map_values(|ee: SerializableHistory| ee@)
                                =~= seq![e_view]);
                        }
                        Some((entries, p2))
                    },
                    None => None,
                }
            }
        },
        None => None,
    }
}

/// The whole history a canonical text holds, provided the text is exactly
/// one history.
pub fn decode_history(s: &str) -> (r: Option<SerializableHistoryList>)
    ensures
        match r {
            Some(h) => parse_history(s@) == Some((h@, Seq::<char>::empty())),
            None => parse_history(s@) is None || parse_history(s@)->Some_0.1.len() != 0,
        },
{
    let buf = str_to_chars(s);
    if buf.len() == 0 {
        return None;
    }
    if buf[0] != '[' {
        proof {
            assert(s@[0] == buf@[0]);
        }
        return None;
    }
    proof {
        assert(s@[0] == buf@[0]);
        assert(buf@.skip(1) =~= s@.drop_first());
    }
    match scan_entries(&buf, 1) {
        Some((entries, p)) => {
            if p == buf.len() {
                proof {
                    assert(buf@.skip(p as int) =~= Seq::<char>::empty());
                }
                let h = SerializableHistoryList::from_entries(entries);
                Some(h)
            } else {
                proof {
                    assert(buf@.skip(p as int).len() != 0);
                }
                None
            }
        },
        None => None,
    }
}

} // verus!
