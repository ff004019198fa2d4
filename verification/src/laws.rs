//! The classifier's laws: what the two queries return on any snapshot with no
//! qualifying group, and on any snapshot with exactly one qualifying group,
//! for each way a speaker can relate to that group.

use vstd::prelude::*;

use crate::classifier::spec_find_coordinator;
use crate::classifier::spec_is_already_grouped;
use crate::classifier::TopologyError;
use crate::model::ascii_eq_ignore_case;
use crate::model::group_qualifies;
use crate::model::lemma_first_qualifying_at;
use crate::model::lemma_first_qualifying_none;
use crate::model::lemma_resolve_at;
use crate::model::member_named;
use crate::model::Group;

verus! {

/// Law: in a snapshot where every group has at most one member, no speaker
/// counts as grouped and there is no coordinator to join, whoever asks.
pub proof fn lemma_singleton_groups_no_action(groups: Seq<Group>, name: Seq<char>)
    requires
        forall|i: int| 0 <= i < groups.len() ==> (#[trigger] groups[i]).members@.len() <= 1,
    ensures
        !spec_is_already_grouped(groups, name),
        spec_find_coordinator(groups, name) == Ok::<Option<String>, TopologyError>(None),
{
    assert forall|i: int| 0 <= i < groups.len() implies !group_qualifies(#[trigger] groups[i]) by {}
    lemma_first_qualifying_none(groups);
}

/// The premises the next three laws share: `groups[gi]` is the only group
/// with two or more members, and `groups[gi].members[mi]` is the member its
/// declared coordinator identifier resolves to (the first whose unique
/// identifier is an ASCII case-insensitive match).
pub open spec fn sole_qualifying_group_with_coordinator(
    groups: Seq<Group>,
    gi: int,
    mi: int,
) -> bool {
    &&& 0 <= gi < groups.len()
    &&& group_qualifies(groups[gi])
    &&& forall|j: int| 0 <= j < groups.len() && j != gi ==> !group_qualifies(#[trigger] groups[j])
    &&& 0 <= mi < groups[gi].members@.len()
    &&& ascii_eq_ignore_case(groups[gi].members@[mi].uuid@, groups[gi].coordinator_id@)
    &&& forall|j: int|
        0 <= j < mi ==> !ascii_eq_ignore_case(
            (#[trigger] groups[gi].members@[j]).uuid@,
            groups[gi].coordinator_id@,
        )
}

/// Law: in a snapshot with exactly one qualifying group, the coordinator of
/// that group is never told to join anything — no self-join.
pub proof fn lemma_coordinator_joins_nothing(groups: Seq<Group>, gi: int, mi: int)
    requires
        sole_qualifying_group_with_coordinator(groups, gi, mi),
    ensures
        spec_find_coordinator(groups, groups[gi].members@[mi].name@) == Ok::<
            Option<String>,
            TopologyError,
        >(None),
{
    lemma_first_qualifying_at(groups, gi);
    lemma_resolve_at(groups[gi].members@, groups[gi].coordinator_id@, mi);
}

/// Law: a speaker already listed in the only qualifying group, other than the
/// coordinator itself, counts as grouped and is told to join nothing — no
/// no-op rejoin.
pub proof fn lemma_member_joins_nothing(groups: Seq<Group>, gi: int, mi: int, name: Seq<char>)
    requires
        sole_qualifying_group_with_coordinator(groups, gi, mi),
        member_named(groups[gi].members@, name),
        name != groups[gi].members@[mi].name@,
    ensures
        spec_is_already_grouped(groups, name),
        spec_find_coordinator(groups, name) == Ok::<Option<String>, TopologyError>(None),
{
    lemma_first_qualifying_at(groups, gi);
    lemma_resolve_at(groups[gi].members@, groups[gi].coordinator_id@, mi);
}

/// Law: a speaker not listed in the only qualifying group is directed to that
/// group's coordinator by display name.
pub proof fn lemma_outsider_joins_coordinator(groups: Seq<Group>, gi: int, mi: int, name: Seq<char>)
    requires
        sole_qualifying_group_with_coordinator(groups, gi, mi),
        !member_named(groups[gi].members@, name),
    ensures
        !spec_is_already_grouped(groups, name),
        spec_find_coordinator(groups, name) == Ok::<Option<String>, TopologyError>(
            Some(groups[gi].members@[mi].name),
        ),
{
    lemma_first_qualifying_at(groups, gi);
    lemma_resolve_at(groups[gi].members@, groups[gi].coordinator_id@, mi);
    assert(groups[gi].members@[mi].name@ != name) by {
        if groups[gi].members@[mi].name@ == name {
            assert(member_named(groups[gi].members@, name));
        }
    }
}


} // verus!
