use speaker_grouper::pass::plan_group_all;
use speaker_grouper::Disposition;
use speaker_grouper::Group;
use speaker_grouper::Member;
use speaker_grouper::PassState;

fn member(name: &str, uuid: &str) -> Member {
    Member { name: name.to_string(), uuid: uuid.to_string() }
}

fn group(coordinator_id: &str, members: Vec<Member>) -> Group {
    Group { coordinator_id: coordinator_id.to_string(), members }
}

#[test]
fn grouping_no_candidates_is_a_no_op() {
    let names: Vec<String> = Vec::new();
    let plan = plan_group_all(&names);
    assert_eq!(plan.coordinator, None);
    assert!(plan.joins.is_empty());
}

#[test]
fn grouping_three_candidates_joins_the_rest_to_the_first() {
    let names = vec!["A".to_string(), "B".to_string(), "C".to_string()];
    let plan = plan_group_all(&names);
    assert_eq!(plan.coordinator, Some("A".to_string()));
    assert_eq!(plan.joins, vec!["B".to_string(), "C".to_string()]);
}

#[test]
fn grouping_a_single_candidate_issues_no_joins() {
    let names = vec!["Bedroom".to_string()];
    let plan = plan_group_all(&names);
    assert_eq!(plan.coordinator, Some("Bedroom".to_string()));
    assert!(plan.joins.is_empty());
}

#[test]
fn only_no_group_available_collects_a_candidate() {
    let grouped_snapshot = vec![group(
        "RINCON_A",
        vec![member("Kitchen", "RINCON_A"), member("Living Room", "RINCON_B")],
    )];
    let ungrouped_snapshot = vec![group("RINCON_C", vec![member("Bedroom", "RINCON_C")])];

    let mut pass = PassState::new();
    assert!(pass.candidates.is_empty());

    let kitchen = "Kitchen".to_string();
    assert_eq!(
        pass.process_speaker(&kitchen, &grouped_snapshot),
        Ok(Disposition::AlreadyGrouped)
    );
    assert!(pass.candidates.is_empty());

    let patio = "Patio".to_string();
    assert_eq!(
        pass.process_speaker(&patio, &grouped_snapshot),
        Ok(Disposition::JoinCoordinator("Kitchen".to_string()))
    );
    assert!(pass.candidates.is_empty());

    let bedroom = "Bedroom".to_string();
    assert_eq!(
        pass.process_speaker(&bedroom, &ungrouped_snapshot),
        Ok(Disposition::NoGroupAvailable)
    );
    assert_eq!(pass.candidates, vec!["Bedroom".to_string()]);
}
