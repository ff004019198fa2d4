use speaker_grouper::pass::plan_group_all;
use speaker_grouper::pass::plan_pass;
use speaker_grouper::Group;
use speaker_grouper::Member;
use speaker_grouper::TopologyError;

fn member(name: &str, uuid: &str) -> Member {
    Member { name: name.to_string(), uuid: uuid.to_string() }
}

fn group(coordinator_id: &str, members: Vec<Member>) -> Group {
    Group { coordinator_id: coordinator_id.to_string(), members }
}

fn singleton_snapshot(name: &str, uuid: &str) -> Vec<Group> {
    vec![group(uuid, vec![member(name, uuid)])]
}

#[test]
fn all_ungrouped_speakers_form_one_new_group_in_discovery_order() {
    // Discovery yields three speakers, each seeing only singleton groups.
    let speakers = vec![
        ("Kitchen".to_string(), singleton_snapshot("Kitchen", "RINCON_K")),
        (
            "Living Room".to_string(),
            singleton_snapshot("Living Room", "RINCON_L"),
        ),
        ("Bedroom".to_string(), singleton_snapshot("Bedroom", "RINCON_B")),
    ];
    let plan = plan_pass(&speakers).unwrap();
    assert!(plan.joins.is_empty());
    assert_eq!(
        plan.candidates,
        vec![
            "Kitchen".to_string(),
            "Living Room".to_string(),
            "Bedroom".to_string()
        ]
    );

    let batch = plan_group_all(&plan.candidates);
    assert_eq!(batch.coordinator, Some("Kitchen".to_string()));
    assert_eq!(
        batch.joins,
        vec!["Living Room".to_string(), "Bedroom".to_string()]
    );
}

#[test]
fn grouped_pair_is_skipped_and_the_lone_speaker_is_collected() {
    // "Kitchen" and "Living Room" share a two-member group coordinated by
    // "Kitchen"; "Bedroom" sees only its own singleton group.
    let pair_snapshot = vec![group(
        "RINCON_K",
        vec![member("Kitchen", "RINCON_K"), member("Living Room", "RINCON_L")],
    )];
    let speakers = vec![
        ("Kitchen".to_string(), pair_snapshot.clone()),
        ("Living Room".to_string(), pair_snapshot),
        ("Bedroom".to_string(), singleton_snapshot("Bedroom", "RINCON_B")),
    ];
    let plan = plan_pass(&speakers).unwrap();
    assert!(plan.joins.is_empty());
    assert_eq!(plan.candidates, vec!["Bedroom".to_string()]);

    // A single candidate has no remaining elements to join.
    let batch = plan_group_all(&plan.candidates);
    assert_eq!(batch.coordinator, Some("Bedroom".to_string()));
    assert!(batch.joins.is_empty());
}

#[test]
fn ungrouped_speaker_joins_an_existing_group_during_the_pass() {
    let pair_snapshot = vec![group(
        "RINCON_K",
        vec![member("Kitchen", "RINCON_K"), member("Living Room", "RINCON_L")],
    )];
    let speakers = vec![
        ("Kitchen".to_string(), pair_snapshot.clone()),
        ("Bedroom".to_string(), pair_snapshot),
    ];
    let plan = plan_pass(&speakers).unwrap();
    assert_eq!(
        plan.joins,
        vec![("Bedroom".to_string(), "Kitchen".to_string())]
    );
    assert!(plan.candidates.is_empty());
}

#[test]
fn malformed_snapshot_aborts_the_pass() {
    let speakers = vec![
        ("Kitchen".to_string(), singleton_snapshot("Kitchen", "RINCON_K")),
        (
            "Bedroom".to_string(),
            vec![group(
                "RINCON_MISSING",
                vec![member("Kitchen", "RINCON_K"), member("Living Room", "RINCON_L")],
            )],
        ),
    ];
    assert_eq!(plan_pass(&speakers).unwrap_err(), TopologyError);
}
