use geonft::event::{EventKind, TreasureEvent};
use geonft::plan::{make_plan, Plan, StepKind};
use geonft::status::{StatusMap, SyncStatus};

fn key(name: &str) -> String {
    name.to_string()
}

fn kinds(plan: &Plan) -> Vec<(String, StepKind)> {
    plan.steps.iter().map(|step| (step.public_key.clone(), step.kind)).collect()
}

fn statuses_with(public_key: &str, status: SyncStatus) -> StatusMap {
    let mut statuses = StatusMap::new();
    if status != SyncStatus::Unsynced {
        assert_eq!(statuses.record_status(&key(public_key), status), Ok(()));
    }
    statuses
}

fn plan_for_one(kind: EventKind, status: SyncStatus) -> Vec<StepKind> {
    let events = vec![TreasureEvent::new(kind, key("gtp1a"), 10)];
    let plan = make_plan(statuses_with("gtp1a", status), &events);
    plan.steps.iter().map(|step| step.kind).collect()
}

#[test]
fn plant_of_unsynced_treasure_plans_upload_and_submission() {
    let events = vec![TreasureEvent::new(EventKind::Plant, key("gtp1a"), 10)];
    let plan = make_plan(StatusMap::new(), &events);
    assert_eq!(
        kinds(&plan),
        vec![
            (key("gtp1a"), StepKind::UploadBlobToIpfs),
            (key("gtp1a"), StepKind::UploadPlantToSolana),
        ]
    );
}

#[test]
fn plant_then_claim_of_unsynced_treasure_plans_three_steps() {
    let events = vec![
        TreasureEvent::new(EventKind::Plant, key("gtp1a"), 10),
        TreasureEvent::new(EventKind::Claim, key("gtp1a"), 20),
    ];
    let plan = make_plan(StatusMap::new(), &events);
    assert_eq!(
        kinds(&plan),
        vec![
            (key("gtp1a"), StepKind::UploadBlobToIpfs),
            (key("gtp1a"), StepKind::UploadPlantToSolana),
            (key("gtp1a"), StepKind::UploadClaimToSolana),
        ]
    );
}

#[test]
fn claim_synced_treasure_plans_nothing() {
    let statuses = statuses_with("gtp1a", SyncStatus::ClaimSynced);
    let events = vec![
        TreasureEvent::new(EventKind::Plant, key("gtp1a"), 10),
        TreasureEvent::new(EventKind::Claim, key("gtp1a"), 20),
    ];
    let plan = make_plan(statuses, &events);
    assert!(plan.steps.is_empty());
    assert_eq!(plan.statuses.get(&key("gtp1a")), SyncStatus::ClaimSynced);
}

#[test]
fn plant_event_by_snapshot_status() {
    assert_eq!(
        plan_for_one(EventKind::Plant, SyncStatus::Unsynced),
        vec![StepKind::UploadBlobToIpfs, StepKind::UploadPlantToSolana]
    );
    assert_eq!(
        plan_for_one(EventKind::Plant, SyncStatus::BlobSynced),
        vec![StepKind::UploadPlantToSolana]
    );
    assert_eq!(plan_for_one(EventKind::Plant, SyncStatus::PlantSynced), vec![]);
    assert_eq!(plan_for_one(EventKind::Plant, SyncStatus::ClaimSynced), vec![]);
}

#[test]
fn claim_event_by_snapshot_status() {
    assert_eq!(
        plan_for_one(EventKind::Claim, SyncStatus::Unsynced),
        vec![StepKind::UploadClaimToSolana]
    );
    assert_eq!(
        plan_for_one(EventKind::Claim, SyncStatus::BlobSynced),
        vec![StepKind::UploadClaimToSolana]
    );
    assert_eq!(
        plan_for_one(EventKind::Claim, SyncStatus::PlantSynced),
        vec![StepKind::UploadClaimToSolana]
    );
    assert_eq!(plan_for_one(EventKind::Claim, SyncStatus::ClaimSynced), vec![]);
}

#[test]
fn no_events_plan_nothing() {
    let plan = make_plan(statuses_with("gtp1a", SyncStatus::BlobSynced), &Vec::new());
    assert!(plan.steps.is_empty());
    assert_eq!(plan.statuses.get(&key("gtp1a")), SyncStatus::BlobSynced);
}

#[test]
fn steps_follow_the_order_of_the_events() {
    let mut statuses = StatusMap::new();
    assert_eq!(statuses.record_status(&key("gtp1b"), SyncStatus::BlobSynced), Ok(()));
    let events = vec![
        TreasureEvent::new(EventKind::Plant, key("gtp1b"), 1),
        TreasureEvent::new(EventKind::Plant, key("gtp1a"), 2),
        TreasureEvent::new(EventKind::Claim, key("gtp1b"), 3),
    ];
    let plan = make_plan(statuses, &events);
    assert_eq!(
        kinds(&plan),
        vec![
            (key("gtp1b"), StepKind::UploadPlantToSolana),
            (key("gtp1a"), StepKind::UploadBlobToIpfs),
            (key("gtp1a"), StepKind::UploadPlantToSolana),
            (key("gtp1b"), StepKind::UploadClaimToSolana),
        ]
    );
}

#[test]
fn the_snapshot_is_not_updated_while_planning() {
    let events = vec![
        TreasureEvent::new(EventKind::Plant, key("gtp1a"), 1),
        TreasureEvent::new(EventKind::Plant, key("gtp1a"), 2),
    ];
    let plan = make_plan(StatusMap::new(), &events);
    assert_eq!(
        kinds(&plan),
        vec![
            (key("gtp1a"), StepKind::UploadBlobToIpfs),
            (key("gtp1a"), StepKind::UploadPlantToSolana),
            (key("gtp1a"), StepKind::UploadBlobToIpfs),
            (key("gtp1a"), StepKind::UploadPlantToSolana),
        ]
    );
    assert_eq!(plan.statuses.get(&key("gtp1a")), SyncStatus::Unsynced);
}

#[test]
fn planning_twice_gives_the_same_steps() {
    let events = vec![
        TreasureEvent::new(EventKind::Plant, key("gtp1a"), 1),
        TreasureEvent::new(EventKind::Claim, key("gtp1a"), 2),
        TreasureEvent::new(EventKind::Plant, key("gtp1b"), 3),
    ];
    let first = make_plan(statuses_with("gtp1b", SyncStatus::BlobSynced), &events);
    let second = make_plan(statuses_with("gtp1b", SyncStatus::BlobSynced), &events);
    assert_eq!(kinds(&first), kinds(&second));
    assert_eq!(kinds(&first).len(), 4);
}

#[test]
fn step_kinds_name_their_stages() {
    assert_eq!(StepKind::UploadBlobToIpfs.required_status(), SyncStatus::Unsynced);
    assert_eq!(StepKind::UploadBlobToIpfs.resulting_status(), SyncStatus::BlobSynced);
    assert_eq!(StepKind::UploadPlantToSolana.required_status(), SyncStatus::BlobSynced);
    assert_eq!(StepKind::UploadPlantToSolana.resulting_status(), SyncStatus::PlantSynced);
    assert_eq!(StepKind::UploadClaimToSolana.required_status(), SyncStatus::PlantSynced);
    assert_eq!(StepKind::UploadClaimToSolana.resulting_status(), SyncStatus::ClaimSynced);
}
