//! One reconciliation pass: the per-speaker step that accumulates candidates
//! and decides the immediate action, the plan for batch-grouping the
//! candidates once the pass is done, and a planner for a whole pass.

use vstd::prelude::*;

use crate::classifier::classify;
use crate::classifier::spec_classify;
use crate::classifier::Disposition;
use crate::classifier::TopologyError;
use crate::model::Group;

verus! {

/// The state a reconciliation pass carries between speakers: the ordered list
/// of candidates that no existing group could take, in discovery order. It is
/// scoped to one pass and discarded afterwards.
pub struct PassState {
    pub candidates: Vec<String>,
}

impl PassState {
    /// A fresh pass with no candidates collected yet.
    pub fn new() -> (s: PassState)
        ensures
            s.candidates@ == Seq::<String>::empty(),
    {
        PassState { candidates: Vec::new() }
    }

    /// One step of the pass: classify the speaker against its snapshot and
    /// either leave it alone, direct it to a coordinator (the caller issues
    /// the join), or collect it as a candidate. Only a `NoGroupAvailable`
    /// disposition changes the candidate list, which grows by exactly that
    /// speaker's name; a malformed snapshot aborts the pass.
    pub fn process_speaker(&mut self, name: &String, snapshot: &Vec<Group>) -> (r: Result<
        Disposition,
        TopologyError,
    >)
        ensures
            r == spec_classify(snapshot@, name@),
            r matches Ok(Disposition::NoGroupAvailable) ==> final (self).candidates@ == old(
                self,
            ).candidates@.push(*name),
            !(r matches Ok(Disposition::NoGroupAvailable)) ==> final (self).candidates@ == old(
                self,
            ).candidates@,
    {
        let r = classify(name, snapshot);
        if let Ok(Disposition::NoGroupAvailable) = &r {
            self.candidates.push(name.clone());
        }
        r
    }
}

/// The commands that batch-group the candidates of one pass: the designated
/// coordinator (the first candidate), and the names to join to it, in order.
pub struct GroupPlan {
    pub coordinator: Option<String>,
    pub joins: Vec<String>,
}

/// Plans the batch grouping of the collected candidates. An empty list needs
/// no commands; otherwise the first candidate is designated coordinator of a
/// freshly formed group and every remaining candidate is joined to it, in
/// sequence order.
#[verifier::loop_isolation(false)]
pub fn plan_group_all(names: &Vec<String>) -> (p: GroupPlan)
    ensures
        names@.len() == 0 ==> p.coordinator is None && p.joins@ == Seq::<String>::empty(),
        names@.len() > 0 ==> p.coordinator == Some(names@[0]) && p.joins@ == names@.skip(1),
{
    if names.len() == 0 {
        return GroupPlan { coordinator: None, joins: Vec::new() };
    }
    let coordinator = names[0].clone();
    let mut joins: Vec<String> = Vec::new();
    let n = names.len();
    let mut i: usize = 1;
    assert(joins@ =~= names@.subrange(1, 1));
    while i < n
        invariant
            1 <= i <= n,
            joins@ == names@.subrange(1, i as int),
        decreases n - i,
    {
        joins.push(names[i].clone());
        proof {
            assert(joins@ =~= names@.subrange(1, i + 1));
        }
        i += 1;
    }
    proof {
        assert(names@.subrange(1, n as int) =~= names@.skip(1));
    }
    GroupPlan { coordinator: Some(coordinator), joins }
}

/// Everything one pass decides: the joins issued during the pass (speaker,
/// coordinator it joins), in discovery order, and the candidates left for
/// batch grouping, in discovery order.
#[derive(Debug)]
pub struct PassPlan {
    pub joins: Vec<(String, String)>,
    pub candidates: Vec<String>,
}

/// What a pass decides from speaker `i` on, having already accumulated
/// `joins` and `candidates`: each speaker is classified against its own
/// snapshot, grouped speakers are skipped, and the first malformed snapshot
/// aborts the whole pass.
pub open spec fn spec_pass_from(
    speakers: Seq<(String, Vec<Group>)>,
    i: int,
    joins: Seq<(String, String)>,
    candidates: Seq<String>,
) -> Result<(Seq<(String, String)>, Seq<String>), TopologyError>
    decreases speakers.len() - i,
{
    if i < 0 || i >= speakers.len() {
        Ok((joins, candidates))
    } else {
        match spec_classify(speakers[i].1@, speakers[i].0@) {
            Ok(Disposition::AlreadyGrouped) => spec_pass_from(speakers, i + 1, joins, candidates),
            Ok(Disposition::JoinCoordinator(c)) => spec_pass_from(
                speakers,
                i + 1,
                joins.push((speakers[i].0, c)),
                candidates,
            ),
            Ok(Disposition::NoGroupAvailable) => spec_pass_from(
                speakers,
                i + 1,
                joins,
                candidates.push(speakers[i].0),
            ),
            Err(e) => Err(e),
        }
    }
}

/// What a whole pass decides, starting from nothing.
pub open spec fn spec_pass(speakers: Seq<(String, Vec<Group>)>) -> Result<
    (Seq<(String, String)>, Seq<String>),
    TopologyError,
> {
    spec_pass_from(speakers, 0, Seq::empty(), Seq::empty())
}

/// Plans one whole reconciliation pass over the discovered speakers, each
/// paired with its own topology snapshot, in discovery order: which speaker
/// joins which coordinator, and which speakers are left as candidates for the
/// batch grouper.
#[verifier::loop_isolation(false)]
pub fn plan_pass(speakers: &Vec<(String, Vec<Group>)>) -> (r: Result<PassPlan, TopologyError>)
    ensures
        match r {
            Ok(p) => spec_pass(speakers@) == Ok::<
                (Seq<(String, String)>, Seq<String>),
                TopologyError,
            >((p.joins@, p.candidates@)),
            Err(e) => spec_pass(speakers@) == Err::<
                (Seq<(String, String)>, Seq<String>),
                TopologyError,
            >(e),
        },
{
    let mut joins: Vec<(String, String)> = Vec::new();
    let mut candidates: Vec<String> = Vec::new();
    let n = speakers.len();
    let mut i: usize = 0;
    while i < n
        invariant
            i <= n,
            spec_pass(speakers@) == spec_pass_from(speakers@, i as int, joins@, candidates@),
        decreases n - i,
    {
        let name = &speakers[i].0;
        let snapshot = &speakers[i].1;
        match classify(name, snapshot) {
            Ok(Disposition::AlreadyGrouped) => {},
            Ok(Disposition::JoinCoordinator(c)) => {
                joins.push((name.clone(), c));
            },
            Ok(Disposition::NoGroupAvailable) => {
                candidates.push(name.clone());
            },
            Err(e) => {
                return Err(e);
            },
        }
        i += 1;
    }
    Ok(PassPlan { joins, candidates })
}

} // verus!
