//! The history log: an append-only, timestamped, ordered record of
//! invoke/ok/fail/info events for one test run — the sole input of the
//! external correctness checker.
use vstd::prelude::*;

use crate::codec::all_nemesis_text;
use crate::nemesis::{classify_all, AllNemesis, AllNemesisView};
use crate::op::{op_function_type, Op, OpOrNemesisFuncType, OpView};

verus! {

/// The error payload of a failed operation: one or more messages.
pub type ErrorType = Vec<String>;

/// The kind of a history event.
#[derive(Debug, Clone, Copy, PartialEq, Eq, Structural)]
pub enum HistoryType {
    Invoke,
    Okay,
    Fail,
    Info,
}

/// Which actor a history event belongs to: a generator's process, or the
/// reserved pseudo-process for nemesis events.
#[derive(Debug, Clone, Copy, PartialEq, Eq, Structural)]
pub enum HistoryProcess {
    Nemesis,
    Gen(u64),
}

/// The payload of a history event: a textual nemesis description, or the
/// operation itself.
#[derive(Debug, Clone)]
pub enum HistoryValue {
    String(String),
    Op(Op),
}

/// Mathematical value of a [`HistoryValue`].
#[verifier::ext_equal]
pub enum HistoryValueView {
    String(Seq<char>),
    Op(OpView),
}

impl View for HistoryValue {
    type V = HistoryValueView;

    open spec fn view(&self) -> HistoryValueView {
        match self {
            HistoryValue::String(s) => HistoryValueView::String(s@),
            HistoryValue::Op(op) => HistoryValueView::Op(op@),
        }
    }
}

/// One history event, in the exact shape the external checker consumes.
#[derive(Debug, Clone)]
pub struct SerializableHistory {
    /// Position of this event in the log; assigned at append time.
    pub index: u64,
    /// The kind of event.
    pub type_: HistoryType,
    /// The label of the operation or nemesis this event is about.
    pub f: OpOrNemesisFuncType,
    /// The event's payload.
    pub value: HistoryValue,
    /// Nanoseconds since the run's start instant, on the virtual clock.
    pub time: u64,
    /// The actor the event belongs to.
    pub process: HistoryProcess,
    /// The error payload; present exactly when the event is not `Ok` among
    /// result events.
    pub error: Option<ErrorType>,
}

/// Mathematical value of a history event.
#[verifier::ext_equal]
pub struct HistoryEntryView {
    pub index: u64,
    pub type_: HistoryType,
    pub f: OpOrNemesisFuncType,
    pub value: HistoryValueView,
    pub time: u64,
    pub process: HistoryProcess,
    pub error: Option<Seq<Seq<char>>>,
}

/// Mathematical value of an error payload.
pub open spec fn error_view(error: Option<ErrorType>) -> Option<Seq<Seq<char>>> {
    match error {
        Some(msgs) => Some(msgs@.map_values(|m: String| m@)),
        None => None,
    }
}

impl View for SerializableHistory {
    type V = HistoryEntryView;

    open spec fn view(&self) -> HistoryEntryView {
        HistoryEntryView {
            index: self.index,
            type_: self.type_,
            f: self.f,
            value: self.value@,
            time: self.time,
            process: self.process,
            error: error_view(self.error),
        }
    }
}

/// An entry is sound when its error payload agrees with its kind: an `Ok`
/// result succeeded, so it carries no error; a `Fail` result carries one; an
/// `Invoke` carries none; an `Info` may carry one (a failed operation whose
/// outcome is unknown) or none (a nemesis event).
pub open spec fn entry_wf(e: HistoryEntryView) -> bool {
    &&& e.type_ == HistoryType::Okay ==> e.error is None
    &&& e.type_ == HistoryType::Fail ==> e.error is Some
    &&& e.type_ == HistoryType::Invoke ==> e.error is None
}

/// The append-only history log. Owned by the run's global context; entries
/// are never mutated or removed once appended.
#[derive(Debug, Clone)]
pub struct SerializableHistoryList {
    entries: Vec<SerializableHistory>,
}

impl View for SerializableHistoryList {
    type V = Seq<HistoryEntryView>;

    closed spec fn view(&self) -> Seq<HistoryEntryView> {
        self.entries@.map_values(|e: SerializableHistory| e@)
    }
}

/// A log is well formed when every entry's `index` equals its position —
/// indexes are `0, 1, 2, …` in append order — and every entry is sound.
pub open spec fn history_wf(h: Seq<HistoryEntryView>) -> bool {
    forall|i: int|
        0 <= i < h.len() ==> (#[trigger] h[i]).index == i && entry_wf(h[i])
}

/// The `Invoke` entry that recording (`index`, `time`, `process`, `value`)
/// appends.
pub open spec fn invoke_entry(index: u64, time: u64, process: u64, value: OpView) -> HistoryEntryView {
    HistoryEntryView {
        index,
        type_: HistoryType::Invoke,
        f: OpOrNemesisFuncType::Op(op_function_type(value)),
        value: HistoryValueView::Op(value),
        time,
        process: HistoryProcess::Gen(process),
        error: None,
    }
}

/// The result entry that recording (`index`, `time`, `process`,
/// `result_type`, `value`, `error`) appends.
pub open spec fn result_entry(
    index: u64,
    time: u64,
    process: u64,
    result_type: HistoryType,
    value: OpView,
    error: Option<Seq<Seq<char>>>,
) -> HistoryEntryView {
    HistoryEntryView {
        index,
        type_: result_type,
        f: OpOrNemesisFuncType::Op(op_function_type(value)),
        value: HistoryValueView::Op(value),
        time,
        process: HistoryProcess::Gen(process),
        error,
    }
}

impl Default for SerializableHistoryList {
    /// A fresh, empty log.
    fn default() -> (h: Self)
        ensures
            h@ == Seq::<HistoryEntryView>::empty(),
    {
        let h = SerializableHistoryList { entries: Vec::new() };
        proof {
            assert(h@ =~= Seq::<HistoryEntryView>::empty());
        }
        h
    }
}

impl SerializableHistoryList {
    /// How many events the log holds.
    pub fn len(&self) -> (n: usize)
        ensures
            n == self@.len(),
    {
        self.entries.len()
    }

    /// The event at position `i`.
    pub fn index(&self, i: usize) -> (e: &SerializableHistory)
        requires
            i < self@.len(),
        ensures
            e@ == self@[i as int],
    {
        &self.entries[i]
    }

    /// A log assembled from already-built events — what a decoded text
    /// yields. Nothing is assumed of it: its well-formedness is whatever
    /// `history_wf` says of its entries.
    pub fn from_entries(entries: Vec<SerializableHistory>) -> (h: Self)
        ensures
            h@ == entries@.map_values(|e: SerializableHistory| e@),
    {
        SerializableHistoryList { entries }
    }

    /// Append an `Invoke` event for `value`, tagged with `process`, at
    /// `time` nanoseconds since the run's start. Its index is the log's
    /// length at the moment of insertion.
    pub fn push_invoke(&mut self, time: u64, process: u64, value: Op)
        ensures
            final(self)@ == old(self)@.push(
                invoke_entry(old(self)@.len() as u64, time, process, value@),
            ),
            history_wf(old(self)@) ==> history_wf(final(self)@),
    {
        let f = OpOrNemesisFuncType::Op(value.function_type());
        let item = SerializableHistory {
            index: self.entries.len() as u64,
            type_: HistoryType::Invoke,
            f,
            value: HistoryValue::Op(value),
            time,
            process: HistoryProcess::Gen(process),
            error: None,
        };
        self.entries.push(item);
        proof {
            assert(self@ =~= old(self)@.push(item@));
        }
    }

    /// Append a result event — `Ok`, `Fail` or `Info` — for `value`. The
    /// result type must agree with the error payload: `Ok` if and only if
    /// there is no error; handing in any other combination is a usage error
    /// that this contract refuses.
    pub fn push_result(
        &mut self,
        time: u64,
        process: u64,
        result_type: HistoryType,
        value: Op,
        error: Option<ErrorType>,
    )
        requires
            result_type != HistoryType::Invoke,
            (result_type == HistoryType::Okay) <==> (error is None),
        ensures
            final(self)@ == old(self)@.push(
                result_entry(
                    old(self)@.len() as u64,
                    time,
                    process,
                    result_type,
                    value@,
                    error_view(error),
                ),
            ),
            history_wf(old(self)@) ==> history_wf(final(self)@),
    {
        let f = OpOrNemesisFuncType::Op(value.function_type());
        let item = SerializableHistory {
            index: self.entries.len() as u64,
            type_: result_type,
            f,
            value: HistoryValue::Op(value),
            time,
            process: HistoryProcess::Gen(process),
            error,
        };
        self.entries.push(item);
        proof {
            assert(self@ =~= old(self)@.push(item@));
        }
    }

    /// Append an `Info` event for a nemesis, tagged with the reserved
    /// nemesis pseudo-process and carrying the fault's textual description
    /// and classification. A `Noop` is never recorded to history, so it has
    /// no classification and is refused here.
    pub fn push_nemesis(&mut self, time: u64, value: AllNemesis)
        requires
            classify_all(value@) is Some,
        ensures
            final(self)@ == old(self)@.push(
                nemesis_entry(old(self)@.len() as u64, time, value@),
            ),
            history_wf(old(self)@) ==> history_wf(final(self)@),
    {
        let c = crate::nemesis::SerializableNemesisType::of_all(&value);
        let text = crate::codec::describe_all_nemesis(&value);
        let item = SerializableHistory {
            index: self.entries.len() as u64,
            type_: HistoryType::Info,
            f: OpOrNemesisFuncType::Nemesis(c),
            value: HistoryValue::String(text),
            time,
            process: HistoryProcess::Nemesis,
            error: None,
        };
        self.entries.push(item);
        proof {
            assert(self@ =~= old(self)@.push(item@));
        }
    }
}

/// The `Info` entry under which a nemesis appears in the history.
pub open spec fn nemesis_entry(index: u64, time: u64, n: AllNemesisView) -> HistoryEntryView
    recommends
        classify_all(n) is Some,
{
    HistoryEntryView {
        index,
        type_: HistoryType::Info,
        f: OpOrNemesisFuncType::Nemesis(classify_all(n)->Some_0),
        value: HistoryValueView::String(all_nemesis_text(n)),
        time,
        process: HistoryProcess::Nemesis,
        error: None,
    }
}

/// In a well-formed log the `index` fields read `0, 1, 2, …, len − 1` in
/// append order, and `Ok` entries — and only result entries that are `Ok` —
/// carry no error. This holds of every log built by the push operations,
/// which preserve well-formedness starting from the empty log.
pub proof fn lemma_history_indexes(h: Seq<HistoryEntryView>)
    requires
        history_wf(h),
    ensures
        h.map_values(|e: HistoryEntryView| e.index) =~= Seq::new(
            h.len(),
            |i: int| i as u64,
        ),
        forall|i: int|
            0 <= i < h.len() ==> ((#[trigger] h[i]).type_ == HistoryType::Okay ==> h[i].error
                is None),
{
}


impl HistoryValue {
    /// Deep equality of two payloads; usable in contracts, unlike the
    /// derived operator, since a payload holds a `Vec`.
    pub fn deep_eq(&self, other: &HistoryValue) -> (r: bool)
        ensures
            r == (self@ == other@),
    {
        match (self, other) {
            (HistoryValue::String(a), HistoryValue::String(b)) => a.eq(b),
            (HistoryValue::Op(a), HistoryValue::Op(b)) => a.deep_eq(b),
            _ => false,
        }
    }
}

/// Deep equality of two error payloads.
fn error_deep_eq(a: &Option<ErrorType>, b: &Option<ErrorType>) -> (r: bool)
    ensures
        r == (error_view(*a) == error_view(*b)),
{
    match (a, b) {
        (None, None) => true,
        (Some(xs), Some(ys)) => {
            if xs.len() != ys.len() {
                proof {
                    assert(error_view(*a)->Some_0.len() != error_view(*b)->Some_0.len());
                }
                return false;
            }
            let mut i: usize = 0;
            while i < xs.len()
                invariant
                    i <= xs@.len(),
                    xs@.len() == ys@.len(),
                    error_view(*a) == Some(xs@.map_values(|m: String| m@)),
                    error_view(*b) == Some(ys@.map_values(|m: String| m@)),
                    forall|j: int| 0 <= j < i ==> xs@[j]@ == ys@[j]@,
                decreases xs@.len() - i,
            {
                if !crate::codec::str_eq(xs[i].as_str(), ys[i].as_str()) {
                    proof {
                        assert(error_view(*a)->Some_0[i as int] == xs@[i as int]@);
                        assert(error_view(*b)->Some_0[i as int] == ys@[i as int]@);
                    }
                    return false;
                }
                i += 1;
            }
            proof {
                assert(error_view(*a)->Some_0 =~~= error_view(*b)->Some_0);
            }
            true
        },
        _ => false,
    }
}

impl SerializableHistory {
    /// Deep equality of two events; usable in contracts, unlike the
    /// derived operator, since an event holds vectors and strings.
    pub fn deep_eq(&self, other: &SerializableHistory) -> (r: bool)
        ensures
            r == (self@ == other@),
    {
        let fields_eq = self.index == other.index && self.type_ == other.type_ && self.f
            == other.f && self.time == other.time && self.process == other.process;
        if !fields_eq {
            return false;
        }
        if !self.value.deep_eq(&other.value) {
            return false;
        }
        if !error_deep_eq(&self.error, &other.error) {
            return false;
        }
        proof {
            assert(self@ =~= other@);
        }
        true
    }
}

impl SerializableHistoryList {
    /// Deep equality of two logs, event by event.
    pub fn deep_eq(&self, other: &SerializableHistoryList) -> (r: bool)
        ensures
            r == (self@ == other@),
    {
        if self.entries.len() != other.entries.len() {
            return false;
        }
        let mut i: usize = 0;
        while i < self.entries.len()
            invariant
                i <= self.entries@.len(),
                self.entries@.len() == other.entries@.len(),
                self@.len() == self.entries@.len(),
                other@.len() == other.entries@.len(),
                forall|j: int| 0 <= j < self.entries@.len() ==> #[trigger] self@[j]
                    == self.entries@[j]@,
                forall|j: int| 0 <= j < other.entries@.len() ==> #[trigger] other@[j]
                    == other.entries@[j]@,
                forall|j: int| 0 <= j < i ==> self.entries@[j]@ == other.entries@[j]@,
            decreases self.entries@.len() - i,
        {
            if !self.entries[i].deep_eq(&other.entries[i]) {
                proof {
                    assert(self@[i as int] != other@[i as int]);
                }
                return false;
            }
            i += 1;
        }
        proof {
            assert(self@ =~= other@);
        }
        true
    }
}

} // verus!
