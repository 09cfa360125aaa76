//! The client operation model: reads, writes, and flat transactions, plus
//! the tagged unions that mix operations with nemeses in one stream.
use vstd::prelude::*;

use crate::nemesis::{classify_all, AllNemesis, AllNemesisView, SerializableNemesisType};

verus! {

/// A client operation. Values are pure: the generator layers never mutate
/// them; only the external client fills a read's result in. A `Txn` should
/// hold reads and writes only — nesting a `Txn` is a usage error of the
/// external client, not an invariant of this model.
#[derive(Debug)]
pub enum Op {
    Read(u64, Option<u64>),
    Write(u64, u64),
    Txn(Vec<Op>),
}

/// Mathematical value of an [`Op`].
#[verifier::ext_equal]
pub enum OpView {
    Read(u64, Option<u64>),
    Write(u64, u64),
    Txn(Seq<OpView>),
}

/// Mathematical value of one operation.
pub open spec fn op_view(op: Op) -> OpView
    decreases op,
{
    match op {
        Op::Read(key, value) => OpView::Read(key, value),
        Op::Write(key, value) => OpView::Write(key, value),
        Op::Txn(ops) => OpView::Txn(ops_view(ops@)),
    }
}

/// Mathematical values of a sequence of operations, element by element.
pub open spec fn ops_view(s: Seq<Op>) -> Seq<OpView>
    decreases s,
{
    if s.len() == 0 {
        Seq::empty()
    } else {
        ops_view(s.drop_last()).push(op_view(s.last()))
    }
}

/// `ops_view` maps `op_view` over the sequence.
pub proof fn lemma_ops_view(s: Seq<Op>)
    ensures
        ops_view(s).len() == s.len(),
        forall|i: int| 0 <= i < s.len() ==> ops_view(s)[i] == op_view(s[i]),
    decreases s.len(),
{
    if s.len() > 0 {
        lemma_ops_view(s.drop_last());
    }
}

impl View for Op {
    type V = OpView;

    open spec fn view(&self) -> OpView {
        op_view(*self)
    }
}

impl Op {
    /// Deep equality of two operations. `Op` holds a `Vec`, so the derived
    /// `==` cannot serve in contracts; this one can.
    #[verifier::loop_isolation(false)]
    pub fn deep_eq(&self, other: &Op) -> (r: bool)
        ensures
            r == (self@ == other@),
        decreases *self,
    {
        match (self, other) {
            (Op::Read(k1, v1), Op::Read(k2, v2)) => {
                let val_eq = match (v1, v2) {
                    (Some(a), Some(b)) => a == b,
                    (None, None) => true,
                    _ => false,
                };
                k1 == k2 && val_eq
            },
            (Op::Write(k1, v1), Op::Write(k2, v2)) => k1 == k2 && v1 == v2,
            (Op::Txn(ops1), Op::Txn(ops2)) => {
                proof {
                    lemma_ops_view(ops1@);
                    lemma_ops_view(ops2@);
                    assert(self@ == OpView::Txn(ops_view(ops1@)));
                    assert(other@ == OpView::Txn(ops_view(ops2@)));
                }
                if ops1.len() != ops2.len() {
                    return false;
                }
                let mut i: usize = 0;
                while i < ops1.len()
                    invariant
                        i <= ops1@.len(),
                        ops1@.len() == ops2@.len(),
                        self@ == OpView::Txn(ops_view(ops1@)),
                        other@ == OpView::Txn(ops_view(ops2@)),
                        ops_view(ops1@).len() == ops1@.len(),
                        ops_view(ops2@).len() == ops2@.len(),
                        forall|j: int|
                            0 <= j < ops1@.len() ==> ops_view(ops1@)[j] == op_view(ops1@[j]),
                        forall|j: int|
                            0 <= j < ops2@.len() ==> ops_view(ops2@)[j] == op_view(ops2@[j]),
                        forall|j: int| 0 <= j < i ==> op_view(ops1@[j]) == op_view(ops2@[j]),
                    decreases ops1@.len() - i,
                {
                    let hd1 = &ops1[i];
                    let hd2 = &ops2[i];
                    proof {
                        assert(*ops1 == (*self)->Txn_0);
                        assert(decreases_to!(*self => (*self)->Txn_0));
                        assert(decreases_to!(*ops1 => ops1@));
                        assert(decreases_to!(ops1@ => ops1@[i as int]));
                    }
                    if !hd1.deep_eq(hd2) {
                        proof {
                            assert(ops_view(ops1@)[i as int] != ops_view(ops2@)[i as int]);
                        }
                        return false;
                    }
                    i += 1;
                }
                proof {
                    assert(ops_view(ops1@) =~= ops_view(ops2@));
                }
                true
            },
            _ => false,
        }
    }
}

impl Clone for Op {
    /// A clone has the same mathematical value.
    #[verifier::loop_isolation(false)]
    fn clone(&self) -> (r: Self)
        ensures
            r@ == self@,
        decreases *self,
    {
        match self {
            Op::Read(key, value) => Op::Read(*key, *value),
            Op::Write(key, value) => Op::Write(*key, *value),
            Op::Txn(ops) => {
                proof {
                    lemma_ops_view(ops@);
                }
                let mut out: Vec<Op> = Vec::new();
                let mut i: usize = 0;
                while i < ops.len()
                    invariant
                        i <= ops@.len(),
                        out@.len() == i,
                        self@ == OpView::Txn(ops_view(ops@)),
                        ops_view(ops@).len() == ops@.len(),
                        forall|j: int| 0 <= j < ops@.len() ==> ops_view(ops@)[j] == op_view(
                            ops@[j],
                        ),
                        forall|j: int| 0 <= j < i ==> op_view(#[trigger] out@[j]) == op_view(
                            ops@[j],
                        ),
                    decreases ops@.len() - i,
                {
                    let hd = &ops[i];
                    proof {
                        assert(*ops == (*self)->Txn_0);
                        assert(decreases_to!(*self => (*self)->Txn_0));
                        assert(decreases_to!(*ops => ops@));
                        assert(decreases_to!(ops@ => ops@[i as int]));
                    }
                    out.push(hd.clone());
                    i += 1;
                }
                let r = Op::Txn(out);
                proof {
                    lemma_ops_view(out@);
                    assert(ops_view(out@) =~= ops_view(ops@));
                }
                r
            },
        }
    }
}

/// The label under which an operation appears in the history's `f` field.
#[derive(Debug, Clone, Copy, PartialEq, Eq, Structural)]
pub enum OpFunctionType {
    Read,
    Write,
    Txn,
}

/// The label of an operation: which kind of work it asks for.
pub open spec fn op_function_type(op: OpView) -> OpFunctionType {
    match op {
        OpView::Read(_, _) => OpFunctionType::Read,
        OpView::Write(_, _) => OpFunctionType::Write,
        OpView::Txn(_) => OpFunctionType::Txn,
    }
}

impl Op {
    /// The label under which this operation is recorded.
    pub fn function_type(&self) -> (t: OpFunctionType)
        ensures
            t == op_function_type(self@),
    {
        match self {
            Op::Read(_, _) => OpFunctionType::Read,
            Op::Write(_, _) => OpFunctionType::Write,
            Op::Txn(_) => OpFunctionType::Txn,
        }
    }
}

/// One unit of the merged generator stream: a client operation or a nemesis.
#[derive(Debug)]
pub enum OpOrNemesis {
    Op(Op),
    Nemesis(AllNemesis),
}

/// Mathematical value of an [`OpOrNemesis`].
pub enum OpOrNemesisView {
    Op(OpView),
    Nemesis(AllNemesisView),
}

impl View for OpOrNemesis {
    type V = OpOrNemesisView;

    open spec fn view(&self) -> OpOrNemesisView {
        match self {
            OpOrNemesis::Op(op) => OpOrNemesisView::Op(op@),
            OpOrNemesis::Nemesis(n) => OpOrNemesisView::Nemesis(n@),
        }
    }
}

impl Clone for OpOrNemesis {
    /// A clone has the same mathematical value.
    fn clone(&self) -> (r: Self)
        ensures
            r@ == self@,
    {
        match self {
            OpOrNemesis::Op(op) => OpOrNemesis::Op(op.clone()),
            OpOrNemesis::Nemesis(n) => OpOrNemesis::Nemesis(n.clone()),
        }
    }
}

/// The label under which a stream unit appears in the history's `f` field:
/// an operation label or a nemesis classification.
#[derive(Debug, Clone, Copy, PartialEq, Eq, Structural)]
pub enum OpOrNemesisFuncType {
    Op(OpFunctionType),
    Nemesis(SerializableNemesisType),
}

/// The label of a stream unit; a `Noop` nemesis has none.
pub open spec fn op_or_nemesis_function_type(x: OpOrNemesisView) -> Option<
    OpOrNemesisFuncType,
> {
    match x {
        OpOrNemesisView::Op(op) => Some(OpOrNemesisFuncType::Op(op_function_type(op))),
        OpOrNemesisView::Nemesis(n) => match classify_all(n) {
            Some(c) => Some(OpOrNemesisFuncType::Nemesis(c)),
            None => None,
        },
    }
}

} // verus!
