//! Data model for nemeses: fault intents, fault records, and their
//! coarse classification used when a fault is written to the history.
pub mod register;

use vstd::prelude::*;

use crate::ids::IdSet;

verus! {

/// Identifier of one server of the cluster under test.
pub type ServerId = u64;

/// The links a network fault has cut: for each server, the set of peers it
/// can no longer reach. Kept sorted by server id so that every walk over it
/// is deterministic and its textual encoding is canonical.
#[derive(Debug, PartialEq, Eq)]
pub struct NetRecord {
    links: Vec<(u64, IdSet)>,
}

impl View for NetRecord {
    type V = Seq<(u64, Seq<u64>)>;

    closed spec fn view(&self) -> Seq<(u64, Seq<u64>)> {
        self.links@.map_values(|p: (u64, IdSet)| (p.0, p.1@))
    }
}

impl NetRecord {
    /// Server ids strictly increase and every peer set is well formed.
    pub open spec fn wf(self) -> bool {
        &&& forall|i: int, j: int| 0 <= i < j < self@.len() ==> self@[i].0 < self@[j].0
        &&& forall|i: int, a: int, b: int|
            0 <= i < self@.len() && 0 <= a < b < self@[i].1.len() ==> self@[i].1[a]
                < self@[i].1[b]
    }

    /// Build a record from pairs of a server id and its unreachable peers.
    /// The pairs must arrive sorted by strictly increasing server id, with
    /// each peer set well formed; otherwise nothing is built.
    pub fn from_pairs(pairs: Vec<(u64, IdSet)>) -> (r: Option<NetRecord>)
        ensures
            match r {
                Some(record) => {
                    &&& record.wf()
                    &&& record@ == pairs@.map_values(|p: (u64, IdSet)| (p.0, p.1@))
                    &&& forall|i: int, j: int|
                        0 <= i < j < pairs@.len() ==> pairs@[i].0 < pairs@[j].0
                    &&& forall|i: int| 0 <= i < pairs@.len() ==> (#[trigger] pairs@[i].1).wf()
                },
                None => {
                    ||| exists|i: int, j: int|
                        0 <= i < j < pairs@.len() && pairs@[i].0 >= pairs@[j].0
                    ||| exists|i: int| 0 <= i < pairs@.len() && !(#[trigger] pairs@[i].1).wf()
                },
            },
    {
        let mut i: usize = 0;
        while i < pairs.len()
            invariant
                i <= pairs@.len(),
                forall|a: int, b: int| 0 <= a < b < i ==> pairs@[a].0 < pairs@[b].0,
                forall|a: int| 0 <= a < i ==> (#[trigger] pairs@[a].1).wf(),
            decreases pairs.len() - i,
        {
            if i > 0 && pairs[i - 1].0 >= pairs[i].0 {
                return None;
            }
            if !pairs[i].1.check_wf() {
                return None;
            }
            proof {
                assert forall|a: int, b: int| 0 <= a < b < i + 1 implies pairs@[a].0
                    < pairs@[b].0 by {
                    if b == i && a < i - 1 {
                        assert(pairs@[a].0 < pairs@[i - 1].0);
                    }
                }
            }
            i += 1;
        }
        let record = NetRecord { links: pairs };
        proof {
            assert forall|i: int, j: int| 0 <= i < j < record@.len() implies record@[i].0
                < record@[j].0 by {
                assert(record@[i].0 == record.links@[i].0);
                assert(record@[j].0 == record.links@[j].0);
            }
            assert forall|i: int| 0 <= i < record@.len() implies record@[i].1
                == record.links@[i].1@ by {}
        }
        Some(record)
    }

    pub fn len(&self) -> (n: usize)
        ensures
            n == self@.len(),
    {
        self.links.len()
    }

    /// The server id of the link set at position `i`.
    pub fn server_at(&self, i: usize) -> (id: u64)
        requires
            i < self@.len(),
        ensures
            id == self@[i as int].0,
    {
        self.links[i].0
    }

    /// The peers unreachable from the server at position `i`.
    pub fn peers_at(&self, i: usize) -> (peers: &IdSet)
        requires
            i < self@.len(),
        ensures
            peers@ == self@[i as int].1,
    {
        &self.links[i].1
    }
}

/// A fault *intent*: what the harness asks the cluster client to inflict.
#[derive(Debug, PartialEq, Eq)]
#[non_exhaustive]
pub enum NemesisType {
    /// Do nothing; a sentinel that is never recorded to history.
    Noop,
    Kill(IdSet),
    Pause(IdSet),
    SplitOne(ServerId),
    PartitionHalves(IdSet),
    PartitionRandomN(usize),
    PartitionMajoritiesRing,
    PartitionLeaderAndMajority,
    LeaderSendToMajorityButCannotReceive,
}

/// Mathematical value of a [`NemesisType`].
pub enum NemesisTypeView {
    Noop,
    Kill(Seq<u64>),
    Pause(Seq<u64>),
    SplitOne(u64),
    PartitionHalves(Seq<u64>),
    PartitionRandomN(nat),
    PartitionMajoritiesRing,
    PartitionLeaderAndMajority,
    LeaderSendToMajorityButCannotReceive,
}

impl View for NemesisType {
    type V = NemesisTypeView;

    open spec fn view(&self) -> NemesisTypeView {
        match self {
            NemesisType::Noop => NemesisTypeView::Noop,
            NemesisType::Kill(s) => NemesisTypeView::Kill(s@),
            NemesisType::Pause(s) => NemesisTypeView::Pause(s@),
            NemesisType::SplitOne(id) => NemesisTypeView::SplitOne(*id),
            NemesisType::PartitionHalves(s) => NemesisTypeView::PartitionHalves(s@),
            NemesisType::PartitionRandomN(n) => NemesisTypeView::PartitionRandomN(*n as nat),
            NemesisType::PartitionMajoritiesRing => NemesisTypeView::PartitionMajoritiesRing,
            NemesisType::PartitionLeaderAndMajority => NemesisTypeView::PartitionLeaderAndMajority,
            NemesisType::LeaderSendToMajorityButCannotReceive => NemesisTypeView::LeaderSendToMajorityButCannotReceive,
        }
    }
}

impl Default for NemesisType {
    fn default() -> (t: Self)
        ensures
            t == NemesisType::Noop,
    {
        NemesisType::Noop
    }
}

/// A fault *effect*: the minimal state needed to undo the fault later.
/// Irreversible faults have no record here by design.
#[derive(Debug, PartialEq, Eq)]
#[non_exhaustive]
pub enum NemesisRecord {
    /// Nothing to undo; never recorded to history.
    Noop,
    /// The servers that were killed.
    Kill(IdSet),
    /// The servers that were paused.
    Pause(IdSet),
    /// The network links that were cut.
    Net(NetRecord),
}

/// Mathematical value of a [`NemesisRecord`].
pub enum NemesisRecordView {
    Noop,
    Kill(Seq<u64>),
    Pause(Seq<u64>),
    Net(Seq<(u64, Seq<u64>)>),
}

impl View for NemesisRecord {
    type V = NemesisRecordView;

    open spec fn view(&self) -> NemesisRecordView {
        match self {
            NemesisRecord::Noop => NemesisRecordView::Noop,
            NemesisRecord::Kill(s) => NemesisRecordView::Kill(s@),
            NemesisRecord::Pause(s) => NemesisRecordView::Pause(s@),
            NemesisRecord::Net(links) => NemesisRecordView::Net(links@),
        }
    }
}

impl Default for NemesisRecord {
    fn default() -> (r: Self)
        ensures
            r == NemesisRecord::Noop,
    {
        NemesisRecord::Noop
    }
}

impl From<NetRecord> for NemesisRecord {
    /// A network record is the fault record of the links it cut.
    fn from(record: NetRecord) -> (r: Self)
        ensures
            r == NemesisRecord::Net(record),
    {
        NemesisRecord::Net(record)
    }
}

impl vstd::std_specs::convert::FromSpecImpl<NetRecord> for NemesisRecord {
    open spec fn obeys_from_spec() -> bool {
        true
    }

    open spec fn from_spec(record: NetRecord) -> Self {
        NemesisRecord::Net(record)
    }
}

/// What a nemesis generator yields: either a fault to execute or a recorded
/// fault to recover.
#[derive(Debug, PartialEq, Eq)]
pub enum AllNemesis {
    Execute(NemesisType),
    Recover(NemesisRecord),
}

/// Mathematical value of an [`AllNemesis`].
pub enum AllNemesisView {
    Execute(NemesisTypeView),
    Recover(NemesisRecordView),
}

impl View for AllNemesis {
    type V = AllNemesisView;

    open spec fn view(&self) -> AllNemesisView {
        match self {
            AllNemesis::Execute(t) => AllNemesisView::Execute(t@),
            AllNemesis::Recover(r) => AllNemesisView::Recover(r@),
        }
    }
}

/// The coarse classification under which a fault appears in the history.
/// Derived deterministically from an intent or a record; never used for
/// logic decisions.
#[derive(Debug, Clone, Copy, PartialEq, Eq, Structural)]
#[non_exhaustive]
pub enum SerializableNemesisType {
    BitflipWal,
    BitflipSnap,
    TruncateWal,
    Pause,
    Kill,
    Partition,
    Clock,
    /// Recovery from a partition.
    Join,
    /// Recovery from a pause.
    Start,
    /// Recovery from a kill.
    Resume,
}

/// Classification of a fault intent. `Noop` has none: it is never recorded.
pub open spec fn classify_type(t: NemesisTypeView) -> Option<SerializableNemesisType> {
    match t {
        NemesisTypeView::Noop => None,
        NemesisTypeView::Kill(_) => Some(SerializableNemesisType::Kill),
        NemesisTypeView::Pause(_) => Some(SerializableNemesisType::Pause),
        _ => Some(SerializableNemesisType::Partition),
    }
}

/// Classification of a fault record's recovery. `Noop` has none.
pub open spec fn classify_record(r: NemesisRecordView) -> Option<SerializableNemesisType> {
    match r {
        NemesisRecordView::Noop => None,
        NemesisRecordView::Kill(_) => Some(SerializableNemesisType::Resume),
        NemesisRecordView::Pause(_) => Some(SerializableNemesisType::Start),
        NemesisRecordView::Net(_) => Some(SerializableNemesisType::Join),
    }
}

/// Classification under which an [`AllNemesis`] appears in the history.
pub open spec fn classify_all(n: AllNemesisView) -> Option<SerializableNemesisType> {
    match n {
        AllNemesisView::Execute(t) => classify_type(t),
        AllNemesisView::Recover(r) => classify_record(r),
    }
}

impl SerializableNemesisType {
    /// Classify a fault intent. `Noop` is never recorded to history, so it
    /// has no classification and is refused here.
    pub fn of_type(t: &NemesisType) -> (c: Self)
        requires
            !(t@ is Noop),
        ensures
            Some(c) == classify_type(t@),
    {
        match t {
            NemesisType::Noop => vstd::pervasive::unreached(),
            NemesisType::Kill(_) => SerializableNemesisType::Kill,
            NemesisType::Pause(_) => SerializableNemesisType::Pause,
            _ => SerializableNemesisType::Partition,
        }
    }

    /// Classify a fault record's recovery. `Noop` is never recorded to
    /// history, so it has no classification and is refused here.
    pub fn of_record(r: &NemesisRecord) -> (c: Self)
        requires
            !(r@ is Noop),
        ensures
            Some(c) == classify_record(r@),
    {
        match r {
            NemesisRecord::Noop => vstd::pervasive::unreached(),
            NemesisRecord::Kill(_) => SerializableNemesisType::Resume,
            NemesisRecord::Pause(_) => SerializableNemesisType::Start,
            NemesisRecord::Net(_) => SerializableNemesisType::Join,
        }
    }

    /// Classify a generated nemesis, intent or recovery.
    pub fn of_all(n: &AllNemesis) -> (c: Self)
        requires
            !(n@ matches AllNemesisView::Execute(t) && t is Noop),
            !(n@ matches AllNemesisView::Recover(r) && r is Noop),
        ensures
            Some(c) == classify_all(n@),
    {
        match n {
            AllNemesis::Execute(t) => Self::of_type(t),
            AllNemesis::Recover(r) => Self::of_record(r),
        }
    }
}

impl Clone for NetRecord {
    /// A clone has the same links.
    fn clone(&self) -> (r: Self)
        ensures
            r@ == self@,
    {
        let mut links: Vec<(u64, IdSet)> = Vec::new();
        let mut i: usize = 0;
        while i < self.links.len()
            invariant
                i <= self.links.len(),
                links@.len() == i,
                forall|j: int|
                    0 <= j < i ==> (#[trigger] links@[j]).0 == self.links@[j].0 && links@[j].1@
                        == self.links@[j].1@,
            decreases self.links.len() - i,
        {
            let entry = &self.links[i];
            links.push((entry.0, entry.1.clone()));
            i += 1;
        }
        let r = NetRecord { links };
        proof {
            assert(r@ =~= self@);
        }
        r
    }
}

impl Clone for NemesisType {
    /// A clone has the same mathematical value.
    fn clone(&self) -> (r: Self)
        ensures
            r@ == self@,
    {
        match self {
            NemesisType::Noop => NemesisType::Noop,
            NemesisType::Kill(s) => NemesisType::Kill(s.clone()),
            NemesisType::Pause(s) => NemesisType::Pause(s.clone()),
            NemesisType::SplitOne(id) => NemesisType::SplitOne(*id),
            NemesisType::PartitionHalves(s) => NemesisType::PartitionHalves(s.clone()),
            NemesisType::PartitionRandomN(n) => NemesisType::PartitionRandomN(*n),
            NemesisType::PartitionMajoritiesRing => NemesisType::PartitionMajoritiesRing,
            NemesisType::PartitionLeaderAndMajority => NemesisType::PartitionLeaderAndMajority,
            NemesisType::LeaderSendToMajorityButCannotReceive => NemesisType::LeaderSendToMajorityButCannotReceive,
        }
    }
}

impl Clone for NemesisRecord {
    /// A clone has the same mathematical value.
    fn clone(&self) -> (r: Self)
        ensures
            r@ == self@,
    {
        match self {
            NemesisRecord::Noop => NemesisRecord::Noop,
            NemesisRecord::Kill(s) => NemesisRecord::Kill(s.clone()),
            NemesisRecord::Pause(s) => NemesisRecord::Pause(s.clone()),
            NemesisRecord::Net(links) => NemesisRecord::Net(links.clone()),
        }
    }
}

impl Clone for AllNemesis {
    /// A clone has the same mathematical value.
    fn clone(&self) -> (r: Self)
        ensures
            r@ == self@,
    {
        match self {
            AllNemesis::Execute(t) => AllNemesis::Execute(t.clone()),
            AllNemesis::Recover(rec) => AllNemesis::Recover(rec.clone()),
        }
    }
}

} // verus!
