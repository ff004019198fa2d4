//! Group classifier: pure decisions over one speaker's zone topology
//! snapshot — is the speaker already grouped, and which coordinator, if any,
//! should it join.

use vstd::prelude::*;

use crate::model::ascii_eq_ignore_case;
use crate::model::first_qualifying;
use crate::model::group_qualifies;
use crate::model::lemma_first_qualifying_at;
use crate::model::lemma_first_qualifying_none;
use crate::model::lemma_resolve_at;
use crate::model::lemma_resolve_none;
use crate::model::member_named;
use crate::model::resolve_coordinator;
use crate::model::Group;

verus! {

/// A snapshot declares a coordinator identifier that no member of the group
/// carries: the topology is malformed, and the pass must fail rather than
/// silently treat the group as unjoinable.
#[derive(Clone, Copy, PartialEq, Eq, Debug)]
pub struct TopologyError;

/// The classification outcome for one speaker in one pass.
#[derive(PartialEq, Eq, Debug)]
pub enum Disposition {
    /// The speaker already belongs to a multi-member group; nothing to do.
    AlreadyGrouped,
    /// The speaker should join the group led by the named coordinator.
    JoinCoordinator(String),
    /// No existing group can take the speaker; collect it as a candidate for
    /// a freshly formed group.
    NoGroupAvailable,
}

/// The speaker counts as grouped iff some group with two or more members
/// lists its display name.
pub open spec fn spec_is_already_grouped(groups: Seq<Group>, name: Seq<char>) -> bool {
    exists|i: int|
        0 <= i < groups.len() && group_qualifies(#[trigger] groups[i]) && member_named(
            groups[i].members@,
            name,
        )
}

/// What the coordinator search returns: nothing to join when no group
/// qualifies, an error when the first qualifying group's coordinator
/// identifier resolves to no member, nothing when the speaker is that
/// coordinator or already a member of that group, and otherwise the
/// coordinator's display name.
pub open spec fn spec_find_coordinator(groups: Seq<Group>, name: Seq<char>) -> Result<
    Option<String>,
    TopologyError,
> {
    match first_qualifying(groups) {
        None => Ok(None),
        Some(g) => match resolve_coordinator(g.members@, g.coordinator_id@) {
            None => Err(TopologyError),
            Some(c) => if c.name@ == name {
                Ok(None)
            } else if member_named(g.members@, name) {
                Ok(None)
            } else {
                Ok(Some(c.name))
            },
        },
    }
}

/// One disposition per speaker per pass: grouped speakers are left alone, and
/// only ungrouped ones are sent to a coordinator or collected.
pub open spec fn spec_classify(groups: Seq<Group>, name: Seq<char>) -> Result<
    Disposition,
    TopologyError,
> {
    if spec_is_already_grouped(groups, name) {
        Ok(Disposition::AlreadyGrouped)
    } else {
        match spec_find_coordinator(groups, name) {
            Ok(Some(c)) => Ok(Disposition::JoinCoordinator(c)),
            Ok(None) => Ok(Disposition::NoGroupAvailable),
            Err(e) => Err(e),
        }
    }
}

/// Whether the named speaker already belongs to a multi-member group of the
/// snapshot.
#[verifier::loop_isolation(false)]
pub fn is_already_grouped(name: &String, snapshot: &Vec<Group>) -> (r: bool)
    ensures
        r == spec_is_already_grouped(snapshot@, name@),
{
    let n = snapshot.len();
    let mut i: usize = 0;
    while i < n
        invariant
            n == snapshot@.len(),
            i <= n,
            forall|g: int|
                0 <= g < i ==> !(group_qualifies(#[trigger] snapshot@[g]) && member_named(
                    snapshot@[g].members@,
                    name@,
                )),
        decreases n - i,
    {
        let group = &snapshot[i];
        if group.members.len() > 1 {
            let m = group.members.len();
            let mut j: usize = 0;
            while j < m
                invariant
                    m == group.members@.len(),
                    j <= m,
                    forall|k: int| 0 <= k < j ==> (#[trigger] group.members@[k]).name@ != name@,
                decreases m - j,
            {
                if group.members[j].name == *name {
                    assert(member_named(group.members@, name@));
                    return true;
                }
                j += 1;
            }
            assert(!member_named(group.members@, name@));
        }
        i += 1;
    }
    false
}

/// The first qualifying group of the snapshot, as an index, or `None` when
/// every group has at most one member.
#[verifier::loop_isolation(false)]
fn first_qualifying_index(snapshot: &Vec<Group>) -> (r: Option<usize>)
    ensures
        match r {
            Some(i) => i < snapshot@.len() && group_qualifies(snapshot@[i as int])
                && first_qualifying(snapshot@) == Some(snapshot@[i as int]),
            None => first_qualifying(snapshot@) is None,
        },
{
    let n = snapshot.len();
    let mut i: usize = 0;
    while i < n
        invariant
            n == snapshot@.len(),
            i <= n,
            forall|j: int| 0 <= j < i ==> !group_qualifies(#[trigger] snapshot@[j]),
        decreases n - i,
    {
        if snapshot[i].members.len() > 1 {
            proof {
                lemma_first_qualifying_at(snapshot@, i as int);
            }
            return Some(i);
        }
        i += 1;
    }
    proof {
        lemma_first_qualifying_none(snapshot@);
    }
    None
}

/// The coordinator the named speaker should join, if any. The search stops at
/// the first qualifying group: `Ok(None)` when no group qualifies, when the
/// speaker is that group's coordinator, or when it is already one of its
/// members; `Err(TopologyError)` when the group's declared coordinator
/// identifier matches no member's unique identifier; and otherwise the
/// coordinator's display name.
#[verifier::loop_isolation(false)]
pub fn find_coordinator_to_join(name: &String, snapshot: &Vec<Group>) -> (r: Result<
    Option<String>,
    TopologyError,
>)
    ensures
        r == spec_find_coordinator(snapshot@, name@),
{
    let gi = match first_qualifying_index(snapshot) {
        None => {
            return Ok(None);
        },
        Some(gi) => gi,
    };
    let group = &snapshot[gi];
    let m = group.members.len();
    let mut j: usize = 0;
    while j < m
        invariant
            m == group.members@.len(),
            j <= m,
            forall|k: int|
                0 <= k < j ==> !ascii_eq_ignore_case(
                    (#[trigger] group.members@[k]).uuid@,
                    group.coordinator_id@,
                ),
        decreases m - j,
    {
        if group.members[j].uuid.as_str().eq_ignore_ascii_case(group.coordinator_id.as_str()) {
            proof {
                lemma_resolve_at(group.members@, group.coordinator_id@, j as int);
            }
            let coordinator = &group.members[j];
            if coordinator.name == *name {
                return Ok(None);
            }
            let mut k: usize = 0;
            while k < m
                invariant
                    m == group.members@.len(),
                    k <= m,
                    forall|t: int| 0 <= t < k ==> (#[trigger] group.members@[t]).name@ != name@,
                decreases m - k,
            {
                if group.members[k].name == *name {
                    assert(member_named(group.members@, name@));
                    return Ok(None);
                }
                k += 1;
            }
            assert(!member_named(group.members@, name@));
            return Ok(Some(coordinator.name.clone()));
        }
        j += 1;
    }
    proof {
        lemma_resolve_none(group.members@, group.coordinator_id@);
    }
    Err(TopologyError)
}

/// The full classification of one speaker: already grouped, join a named
/// coordinator, or no group available.
pub fn classify(name: &String, snapshot: &Vec<Group>) -> (r: Result<Disposition, TopologyError>)
    ensures
        r == spec_classify(snapshot@, name@),
{
    if is_already_grouped(name, snapshot) {
        return Ok(Disposition::AlreadyGrouped);
    }
    match find_coordinator_to_join(name, snapshot) {
        Ok(Some(c)) => Ok(Disposition::JoinCoordinator(c)),
        Ok(None) => Ok(Disposition::NoGroupAvailable),
        Err(e) => Err(e),
    }
}

} // verus!
