//! Data model of a zone topology snapshot: group members, groups, and the
//! spec-level notions the classifier contracts are stated over.

use vstd::prelude::*;

verus! {

/// One speaker as it appears among the members of a group: its display name
/// (the practical identity key) and its stable unique identifier (matched
/// against a group's declared coordinator identifier).
#[derive(Clone, Debug)]
pub struct Member {
    pub name: String,
    pub uuid: String,
}

/// One group of a zone topology snapshot: the unique identifier of its
/// coordinator, and the speakers that belong to the group. A snapshot is an
/// ordered sequence of such groups, `Vec<Group>`.
#[derive(Clone, Debug)]
pub struct Group {
    pub coordinator_id: String,
    pub members: Vec<Member>,
}

/// ASCII lowercasing of one character: `'A'..='Z'` map to `'a'..='z'`, every
/// other character is unchanged.
pub open spec fn ascii_lower_char(c: char) -> char {
    if 65 <= c as u32 && c as u32 <= 90 {
        ((c as u32) + 32) as char
    } else {
        c
    }
}

/// Two character sequences are an ASCII case-insensitive match: equal length,
/// and equal character by character after ASCII lowercasing.
pub open spec fn ascii_eq_ignore_case(a: Seq<char>, b: Seq<char>) -> bool {
    a.len() == b.len() && forall|i: int|
        0 <= i < a.len() ==> ascii_lower_char(#[trigger] a[i]) == ascii_lower_char(b[i])
}

/// Relies on `str::eq_ignore_ascii_case`: true iff the two strings are equal
/// after ASCII-lowercasing each character (`to_ascii_lowercase(a) ==
/// to_ascii_lowercase(b)`, per its documentation).
pub assume_specification[ str::eq_ignore_ascii_case ](s: &str, other: &str) -> (r: bool)
    ensures
        r == ascii_eq_ignore_case(s@, other@),
;

/// A group counts as a real, joinable group only with two or more members; a
/// single-member group is "no group".
pub open spec fn group_qualifies(g: Group) -> bool {
    g.members@.len() > 1
}

/// Some member of the sequence carries the given display name.
pub open spec fn member_named(members: Seq<Member>, name: Seq<char>) -> bool {
    exists|i: int| 0 <= i < members.len() && #[trigger] members[i].name@ == name
}

/// The first group of the snapshot with two or more members, if any; the
/// classifier stops at this group and never scans past it.
pub open spec fn first_qualifying(groups: Seq<Group>) -> Option<Group>
    decreases groups.len(),
{
    if groups.len() == 0 {
        None
    } else if group_qualifies(groups[0]) {
        Some(groups[0])
    } else {
        first_qualifying(groups.skip(1))
    }
}

/// The first member whose unique identifier is an ASCII case-insensitive
/// match for the group's declared coordinator identifier, if any.
pub open spec fn resolve_coordinator(members: Seq<Member>, coordinator_id: Seq<char>) -> Option<
    Member,
>
    decreases members.len(),
{
    if members.len() == 0 {
        None
    } else if ascii_eq_ignore_case(members[0].uuid@, coordinator_id) {
        Some(members[0])
    } else {
        resolve_coordinator(members.skip(1), coordinator_id)
    }
}

pub(crate) proof fn lemma_first_qualifying_none(groups: Seq<Group>)
    requires
        forall|i: int| 0 <= i < groups.len() ==> !group_qualifies(#[trigger] groups[i]),
    ensures
        first_qualifying(groups) is None,
    decreases groups.len(),
{
    if groups.len() > 0 {
        let rest = groups.skip(1);
        assert forall|i: int| 0 <= i < rest.len() implies !group_qualifies(#[trigger] rest[i]) by {
            assert(rest[i] == groups[i + 1]);
        }
        lemma_first_qualifying_none(rest);
    }
}

pub(crate) proof fn lemma_first_qualifying_at(groups: Seq<Group>, k: int)
    requires
        0 <= k < groups.len(),
        group_qualifies(groups[k]),
        forall|j: int| 0 <= j < k ==> !group_qualifies(#[trigger] groups[j]),
    ensures
        first_qualifying(groups) == Some(groups[k]),
    decreases k,
{
    if k > 0 {
        assert(!group_qualifies(groups[0]));
        let rest = groups.skip(1);
        assert forall|j: int| 0 <= j < k - 1 implies !group_qualifies(#[trigger] rest[j]) by {
            assert(rest[j] == groups[j + 1]);
        }
        assert(rest[k - 1] == groups[k]);
        lemma_first_qualifying_at(rest, k - 1);
    }
}

pub(crate) proof fn lemma_resolve_none(members: Seq<Member>, coordinator_id: Seq<char>)
    requires
        forall|i: int|
            0 <= i < members.len() ==> !ascii_eq_ignore_case(
                (#[trigger] members[i]).uuid@,
                coordinator_id,
            ),
    ensures
        resolve_coordinator(members, coordinator_id) is None,
    decreases members.len(),
{
    if members.len() > 0 {
        let rest = members.skip(1);
        assert forall|i: int| 0 <= i < rest.len() implies !ascii_eq_ignore_case(
            (#[trigger] rest[i]).uuid@,
            coordinator_id,
        ) by {
            assert(rest[i] == members[i + 1]);
        }
        lemma_resolve_none(rest, coordinator_id);
    }
}

pub(crate) proof fn lemma_resolve_at(members: Seq<Member>, coordinator_id: Seq<char>, k: int)
    requires
        0 <= k < members.len(),
        ascii_eq_ignore_case(members[k].uuid@, coordinator_id),
        forall|j: int|
            0 <= j < k ==> !ascii_eq_ignore_case((#[trigger] members[j]).uuid@, coordinator_id),
    ensures
        resolve_coordinator(members, coordinator_id) == Some(members[k]),
    decreases k,
{
    if k > 0 {
        assert(!ascii_eq_ignore_case(members[0].uuid@, coordinator_id));
        let rest = members.skip(1);
        assert forall|j: int| 0 <= j < k - 1 implies !ascii_eq_ignore_case(
            (#[trigger] rest[j]).uuid@,
            coordinator_id,
        ) by {
            assert(rest[j] == members[j + 1]);
        }
        assert(rest[k - 1] == members[k]);
        lemma_resolve_at(rest, coordinator_id, k - 1);
    }
}

} // verus!
