//! The boundary to the external consistency checker: the options handed to
//! it, the shape of its verdict, and the namespace the checker lives in.
//! Running the checker itself is outside this crate; everything here is the
//! data it is driven with.
pub mod elle_rw;

use vstd::prelude::*;

use crate::codec::entry::msgs_text;
use crate::codec::{push_quoted, push_str_lit, quoted, str_eq};
use crate::CljNs;

verus! {

/// Default output directory for checker artifacts.
pub fn default_out_dir() -> (s: String)
    ensures
        s@ == "./out"@,
{
    "./out".to_string()
}

/// The verdict value of a check: satisfied, violated, or undecided.
#[derive(Debug, Clone, Copy, PartialEq, Eq, Structural)]
pub enum ValidType {
    True,
    False,
    Unknown,
}

/// The canonical text of a verdict value: the booleans as themselves, the
/// undecided case as a quoted keyword.
pub open spec fn valid_text(v: ValidType) -> Seq<char> {
    match v {
        ValidType::True => "true"@,
        ValidType::False => "false"@,
        ValidType::Unknown => "\":unknown\""@,
    }
}

/// The verdict value a canonical text stands for, if any.
pub open spec fn parse_valid(s: Seq<char>) -> Option<ValidType> {
    if s == "true"@ {
        Some(ValidType::True)
    } else if s == "false"@ {
        Some(ValidType::False)
    } else if s == "\":unknown\""@ {
        Some(ValidType::Unknown)
    } else {
        None
    }
}

impl ValidType {
    /// The canonical text of this verdict value.
    pub fn encode(&self) -> (s: String)
        ensures
            s@ == valid_text(*self),
    {
        match self {
            ValidType::True => "true".to_string(),
            ValidType::False => "false".to_string(),
            ValidType::Unknown => "\":unknown\"".to_string(),
        }
    }

    /// The verdict value of a canonical text, if it is one.
    pub fn decode(s: &str) -> (v: Option<ValidType>)
        ensures
            v == parse_valid(s@),
    {
        if str_eq(s, "true") {
            Some(ValidType::True)
        } else if str_eq(s, "false") {
            Some(ValidType::False)
        } else if str_eq(s, "\":unknown\"") {
            Some(ValidType::Unknown)
        } else {
            None
        }
    }
}

/// Encoding then decoding a verdict value yields it back.
pub proof fn lemma_valid_round_trip(v: ValidType)
    ensures
        parse_valid(valid_text(v)) == Some(v),
{
    reveal_strlit("true");
    reveal_strlit("false");
    reveal_strlit("\":unknown\"");
    assert("true"@.len() == 4);
    assert("false"@.len() == 5);
    assert("\":unknown\""@.len() == 10);
}

/// The canonical names of the consistency models the external checker can
/// be asked to test a history against.
#[derive(Debug, Clone, Copy, PartialEq, Eq, Structural)]
pub enum ConsistencyModel {
    ConsistentView,
    ConflictSerializable,
    CursorStability,
    ForwardConsistentView,
    MonotonicSnapshotRead,
    MonotonicView,
    ReadCommitted,
    ReadUncommitted,
    RepeatableRead,
    Serializable,
    SnapshotIsolation,
    StrictSerializable,
    StrongSerializable,
    UpdateSerializable,
    StrongSessionReadUncommitted,
    StrongSessionReadCommitted,
    StrongReadUncommitted,
    StrongReadCommitted,
}

impl Default for ConsistencyModel {
    fn default() -> (m: Self)
        ensures
            m == ConsistencyModel::Serializable,
    {
        ConsistencyModel::Serializable
    }
}

/// The canonical keyword of a consistency model.
pub open spec fn model_label(m: ConsistencyModel) -> Seq<char> {
    match m {
        ConsistencyModel::ConsistentView => ":consistent-view"@,
        ConsistencyModel::ConflictSerializable => ":conflict-serializable"@,
        ConsistencyModel::CursorStability => ":cursor-stability"@,
        ConsistencyModel::ForwardConsistentView => ":forward-consistent-view"@,
        ConsistencyModel::MonotonicSnapshotRead => ":monotonic-snapshot-read"@,
        ConsistencyModel::MonotonicView => ":monotonic-view"@,
        ConsistencyModel::ReadCommitted => ":read-committed"@,
        ConsistencyModel::ReadUncommitted => ":read-uncommitted"@,
        ConsistencyModel::RepeatableRead => ":repeatable-read"@,
        ConsistencyModel::Serializable => ":serializable"@,
        ConsistencyModel::SnapshotIsolation => ":snapshot-isolation"@,
        ConsistencyModel::StrictSerializable => ":strict-serializable"@,
        ConsistencyModel::StrongSerializable => ":strong-serializable"@,
        ConsistencyModel::UpdateSerializable => ":update-serializable"@,
        ConsistencyModel::StrongSessionReadUncommitted => ":strong-session-read-uncommitted"@,
        ConsistencyModel::StrongSessionReadCommitted => ":strong-session-read-committed"@,
        ConsistencyModel::StrongReadUncommitted => ":strong-read-uncommitted"@,
        ConsistencyModel::StrongReadCommitted => ":strong-read-committed"@,
    }
}

impl ConsistencyModel {
    /// The canonical keyword of this model.
    pub fn label(&self) -> (s: &'static str)
        ensures
            s@ == model_label(*self),
    {
        match self {
            ConsistencyModel::ConsistentView => ":consistent-view",
            ConsistencyModel::ConflictSerializable => ":conflict-serializable",
            ConsistencyModel::CursorStability => ":cursor-stability",
            ConsistencyModel::ForwardConsistentView => ":forward-consistent-view",
            ConsistencyModel::MonotonicSnapshotRead => ":monotonic-snapshot-read",
            ConsistencyModel::MonotonicView => ":monotonic-view",
            ConsistencyModel::ReadCommitted => ":read-committed",
            ConsistencyModel::ReadUncommitted => ":read-uncommitted",
            ConsistencyModel::RepeatableRead => ":repeatable-read",
            ConsistencyModel::Serializable => ":serializable",
            ConsistencyModel::SnapshotIsolation => ":snapshot-isolation",
            ConsistencyModel::StrictSerializable => ":strict-serializable",
            ConsistencyModel::StrongSerializable => ":strong-serializable",
            ConsistencyModel::UpdateSerializable => ":update-serializable",
            ConsistencyModel::StrongSessionReadUncommitted => ":strong-session-read-uncommitted",
            ConsistencyModel::StrongSessionReadCommitted => ":strong-session-read-committed",
            ConsistencyModel::StrongReadUncommitted => ":strong-read-uncommitted",
            ConsistencyModel::StrongReadCommitted => ":strong-read-committed",
        }
    }
}

/// What a run of the external checker is asked to do: which consistency
/// models to test, where to write artifacts, which anomalies to look for,
/// and which analyzer to use.
#[derive(Debug, Clone)]
pub struct CheckOption {
    /// The models to test, or the checker's own default.
    pub consistency_models: Option<Vec<ConsistencyModel>>,
    /// Where the checker writes its artifacts.
    pub directory: String,
    /// The anomalies to look for, or the checker's own default.
    pub anomalies: Option<Vec<String>>,
    /// The analyzer to run, or the checker's own default.
    pub analyzer: Option<String>,
}

impl Default for CheckOption {
    /// No models, no anomalies, no analyzer named; artifacts go to the
    /// default output directory.
    fn default() -> (o: Self)
        ensures
            o.consistency_models is None,
            o.directory@ == "./out"@,
            o.anomalies is None,
            o.analyzer is None,
    {
        CheckOption {
            consistency_models: None,
            directory: default_out_dir(),
            anomalies: None,
            analyzer: None,
        }
    }
}

impl CheckOption {
    /// Name the consistency models to test.
    pub fn consistency_models(self, models: Vec<ConsistencyModel>) -> (o: Self)
        ensures
            o.consistency_models matches Some(m) && m@ == models@,
            o.directory == self.directory,
            o.anomalies == self.anomalies,
            o.analyzer == self.analyzer,
    {
        CheckOption { consistency_models: Some(models), ..self }
    }

    /// Name the directory the checker writes its artifacts to.
    pub fn directory(self, directory: String) -> (o: Self)
        ensures
            o.directory == directory,
            o.consistency_models == self.consistency_models,
            o.anomalies == self.anomalies,
            o.analyzer == self.analyzer,
    {
        CheckOption { directory, ..self }
    }

    /// Name the anomalies the checker must look for.
    pub fn anomalies(self, anomalies: Vec<String>) -> (o: Self)
        ensures
            o.anomalies matches Some(a) && a@ == anomalies@,
            o.consistency_models == self.consistency_models,
            o.directory == self.directory,
            o.analyzer == self.analyzer,
    {
        CheckOption { anomalies: Some(anomalies), ..self }
    }

    /// Name the analyzer the checker must run.
    pub fn analyzer(self, analyzer: String) -> (o: Self)
        ensures
            o.analyzer matches Some(a) && a@ == analyzer@,
            o.consistency_models == self.consistency_models,
            o.directory == self.directory,
            o.anomalies == self.anomalies,
    {
        CheckOption { analyzer: Some(analyzer), ..self }
    }
}

/// The consistency models of a check request in canonical text, quoted and
/// separated by commas.
pub open spec fn models_text(ms: Seq<ConsistencyModel>) -> Seq<char>
    decreases ms.len(),
{
    if ms.len() == 0 {
        Seq::empty()
    } else if ms.len() == 1 {
        quoted(model_label(ms[0]))
    } else {
        quoted(model_label(ms[0])) + seq![','] + models_text(ms.drop_first())
    }
}

/// A check request in canonical text: the fields that are set, in a fixed
/// order under their canonical names, between curly braces; unset fields
/// are left out entirely.
pub open spec fn check_option_text(
    models: Option<Seq<ConsistencyModel>>,
    directory: Seq<char>,
    anomalies: Option<Seq<Seq<char>>>,
    analyzer: Option<Seq<char>>,
) -> Seq<char> {
    seq!['{'] + (match models {
        Some(ms) => "\":consistency-models\":["@ + models_text(ms) + "],"@,
        None => Seq::empty(),
    }) + "\":directory\":"@ + quoted(directory) + (match anomalies {
        Some(a) => ",\":anomalies\":["@ + msgs_text(a) + "]"@,
        None => Seq::empty(),
    }) + (match analyzer {
        Some(a) => ",\":analyzer\":"@ + quoted(a),
        None => Seq::empty(),
    }) + seq!['}']
}

impl CheckOption {
    /// This request in its canonical textual form, ready to drive the
    /// external checker.
    pub fn encode(&self) -> (s: String)
        ensures
            s@ == check_option_text(
                match self.consistency_models {
                    Some(ref ms) => Some(ms@),
                    None => None,
                },
                self.directory@,
                match self.anomalies {
                    Some(ref a) => Some(a@.map_values(|m: String| m@)),
                    None => None,
                },
                match self.analyzer {
                    Some(ref a) => Some(a@),
                    None => None,
                },
            ),
    {
        let mut out: Vec<char> = Vec::new();
        out.push('{');
        match &self.consistency_models {
            Some(ms) => {
                push_str_lit(&mut out, "\":consistency-models\":[");
                push_models_from(&mut out, ms, 0);
                push_str_lit(&mut out, "],");
                proof {
                    assert(ms@.skip(0) =~= ms@);
                }
            },
            None => {
            },
        }
        push_str_lit(&mut out, "\":directory\":");
        push_quoted(&mut out, self.directory.as_str());
        match &self.anomalies {
            Some(a) => {
                push_str_lit(&mut out, ",\":anomalies\":[");
                crate::codec::entry::push_msgs_list(&mut out, a);
                push_str_lit(&mut out, "]");
            },
            None => {
            },
        }
        match &self.analyzer {
            Some(a) => {
                push_str_lit(&mut out, ",\":analyzer\":");
                push_quoted(&mut out, a.as_str());
            },
            None => {
            },
        }
        out.push('}');
        proof {
            assert(out@ =~= check_option_text(
                match self.consistency_models {
                    Some(ref ms) => Some(ms@),
                    None => None,
                },
                self.directory@,
                match self.anomalies {
                    Some(ref a) => Some(a@.map_values(|m: String| m@)),
                    None => None,
                },
                match self.analyzer {
                    Some(ref a) => Some(a@),
                    None => None,
                },
            ));
        }
        crate::codec::chars_to_string(&out)
    }
}

/// Append the canonical text of the models of `ms` from `from` on,
/// separated by commas.
fn push_models_from(out: &mut Vec<char>, ms: &Vec<ConsistencyModel>, from: usize)
    requires
        from <= ms@.len(),
    ensures
        final(out)@ == old(out)@ + models_text(ms@.skip(from as int)),
    decreases ms@.len() - from,
{
    if from == ms.len() {
        proof {
            assert(ms@.skip(from as int) =~= Seq::<ConsistencyModel>::empty());
            assert(out@ =~= old(out)@ + models_text(ms@.skip(from as int)));
        }
        return ;
    }
    proof {
        assert(ms@.skip(from as int)[0] == ms@[from as int]);
    }
    push_quoted(out, ms[from].label());
    if from + 1 == ms.len() {
        proof {
            assert(ms@.skip(from as int).len() == 1);
            assert(out@ =~= old(out)@ + models_text(ms@.skip(from as int)));
        }
        return ;
    }
    push_str_lit(out, ",");
    push_models_from(out, ms, from + 1);
    proof {
        assert(ms@.skip(from as int).drop_first() =~= ms@.skip(from as int + 1));
        reveal_strlit(",");
        assert(","@ =~= seq![',']);
        assert(out@ =~= old(out)@ + models_text(ms@.skip(from as int)));
    }
}

/// The external checker's verdict over a history: whether the tested
/// models hold, the anomaly labels found, a textual anomaly payload, and
/// the models ruled out directly or by implication.
#[derive(Debug, Clone)]
pub struct SerializableCheckResult {
    /// Whether the history satisfied the tested models.
    pub valid: ValidType,
    /// The labels of the anomaly kinds found.
    pub anomaly_types: Vec<String>,
    /// The anomalies themselves, as text, if any were reported.
    pub anomalies: Option<String>,
    /// The models the history was shown not to satisfy.
    pub not: Vec<String>,
    /// Further models ruled out by implication.
    pub also_not: Vec<String>,
}

/// A checker the harness can drive: it lives in some namespace of the
/// external runtime.
pub trait Checker {
    /// The namespace of this checker.
    spec fn ns_spec(&self) -> CljNs;

    /// The namespace of this checker.
    fn ns(&self) -> (ns: &CljNs)
        ensures
            ns == self.ns_spec(),
    ;
}

} // verus!
