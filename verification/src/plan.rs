//! The planner: from the recorded events and a snapshot of the statuses to
//! the ordered list of publication steps.

use crate::event::{events_view, EventKind, EventView, TreasureEvent};
use crate::status::{status_in, StatusMap, SyncStatus};
use vstd::prelude::*;

verus! {

/// One publication action.
#[derive(Clone, Copy, Debug, PartialEq, Eq, Structural, Hash)]
pub enum StepKind {
    /// Put the treasure's image into the content store.
    UploadBlobToIpfs,
    /// Submit the plant to the ledger.
    UploadPlantToSolana,
    /// Submit the claim to the ledger.
    UploadClaimToSolana,
}

impl StepKind {
    /// The stage a treasure must be at for the step to run.
    pub open spec fn spec_required_status(self) -> SyncStatus {
        match self {
            StepKind::UploadBlobToIpfs => SyncStatus::Unsynced,
            StepKind::UploadPlantToSolana => SyncStatus::BlobSynced,
            StepKind::UploadClaimToSolana => SyncStatus::PlantSynced,
        }
    }

    /// The stage a treasure is at once the step has run.
    pub open spec fn spec_resulting_status(self) -> SyncStatus {
        match self {
            StepKind::UploadBlobToIpfs => SyncStatus::BlobSynced,
            StepKind::UploadPlantToSolana => SyncStatus::PlantSynced,
            StepKind::UploadClaimToSolana => SyncStatus::ClaimSynced,
        }
    }

    /// The stage a treasure must be at for the step to run.
    #[verifier::when_used_as_spec(spec_required_status)]
    pub fn required_status(self) -> (status: SyncStatus)
        ensures
            status == self.spec_required_status(),
    {
        match self {
            StepKind::UploadBlobToIpfs => SyncStatus::Unsynced,
            StepKind::UploadPlantToSolana => SyncStatus::BlobSynced,
            StepKind::UploadClaimToSolana => SyncStatus::PlantSynced,
        }
    }

    /// The stage a treasure is at once the step has run.
    #[verifier::when_used_as_spec(spec_resulting_status)]
    pub fn resulting_status(self) -> (status: SyncStatus)
        ensures
            status == self.spec_resulting_status(),
    {
        match self {
            StepKind::UploadBlobToIpfs => SyncStatus::BlobSynced,
            StepKind::UploadPlantToSolana => SyncStatus::PlantSynced,
            StepKind::UploadClaimToSolana => SyncStatus::ClaimSynced,
        }
    }
}

/// A planned action on one treasure.
#[derive(Debug)]
pub struct Step {
    /// The treasure's public key in its canonical encoding.
    pub public_key: String,
    pub kind: StepKind,
}

/// A `Step` as a mathematical value.
pub struct StepView {
    pub public_key: Seq<char>,
    pub kind: StepKind,
}

impl View for Step {
    type V = StepView;

    open spec fn view(&self) -> StepView {
        StepView { public_key: self.public_key@, kind: self.kind }
    }
}

/// The steps of `steps` as mathematical values, in the same order.
pub open spec fn steps_view(steps: Seq<Step>) -> Seq<StepView> {
    steps.map_values(|step: Step| step@)
}

/// The statuses a plan was computed from, and the steps to carry out, in
/// order.
pub struct Plan {
    pub statuses: StatusMap,
    pub steps: Vec<Step>,
}

/// The steps that one event asks for when its treasure is at `status`:
/// a plant needs the image uploaded and then the plant submitted, as far as
/// that has not happened; a claim needs the claim submitted unless it was.
pub open spec fn steps_for(
    kind: EventKind,
    public_key: Seq<char>,
    status: SyncStatus,
) -> Seq<StepView> {
    match (kind, status) {
        (EventKind::Plant, SyncStatus::Unsynced) => seq![
            StepView { public_key, kind: StepKind::UploadBlobToIpfs },
            StepView { public_key, kind: StepKind::UploadPlantToSolana },
        ],
        (EventKind::Plant, SyncStatus::BlobSynced) => seq![
            StepView { public_key, kind: StepKind::UploadPlantToSolana },
        ],
        (EventKind::Plant, _) => seq![],
        (EventKind::Claim, SyncStatus::ClaimSynced) => seq![],
        (EventKind::Claim, _) => seq![StepView { public_key, kind: StepKind::UploadClaimToSolana }],
    }
}

/// The plan for `events`, taken in their order, each judged by the status
/// that `statuses` gives to its treasure.
pub open spec fn plan_steps(
    statuses: Map<Seq<char>, SyncStatus>,
    events: Seq<EventView>,
) -> Seq<StepView>
    decreases events.len(),
{
    if events.len() == 0 {
        Seq::empty()
    } else {
        let event = events.last();
        plan_steps(statuses, events.drop_last()) + steps_for(
            event.kind,
            event.public_key,
            status_in(statuses, event.public_key),
        )
    }
}

/// Computes the plan for `events`, which are taken in the order given, from
/// the snapshot `statuses`. The snapshot is kept in the plan unchanged.
pub fn make_plan(statuses: StatusMap, events: &Vec<TreasureEvent>) -> (plan: Plan)
    requires
        statuses.wf(),
    ensures
        plan.statuses == statuses,
        steps_view(plan.steps@) == plan_steps(statuses@, events_view(events@)),
{
    let mut steps: Vec<Step> = Vec::new();
    let ghost all = events_view(events@);
    assert(steps_view(steps@) =~= plan_steps(statuses@, all.take(0)));
    let mut i: usize = 0;
    while i < events.len()
        invariant
            i <= events.len(),
            statuses.wf(),
            all == events_view(events@),
            steps_view(steps@) == plan_steps(statuses@, all.take(i as int)),
        decreases events.len() - i,
    {
        let event = &events[i];
        let status = statuses.get(&event.public_key);
        let ghost before = steps_view(steps@);
        proof {
            assert(all.take(i + 1).drop_last() =~= all.take(i as int));
            assert(all.take(i + 1).last() == event@);
        }
        match event.kind {
            EventKind::Plant => {
                match status {
                    SyncStatus::Unsynced => {
                        steps.push(
                            Step {
                                public_key: event.public_key.clone(),
                                kind: StepKind::UploadBlobToIpfs,
                            },
                        );
                        steps.push(
                            Step {
                                public_key: event.public_key.clone(),
                                kind: StepKind::UploadPlantToSolana,
                            },
                        );
                    },
                    SyncStatus::BlobSynced => {
                        steps.push(
                            Step {
                                public_key: event.public_key.clone(),
                                kind: StepKind::UploadPlantToSolana,
                            },
                        );
                    },
                    _ => {},
                }
            },
            EventKind::Claim => {
                match status {
                    SyncStatus::ClaimSynced => {},
                    _ => {
                        steps.push(
                            Step {
                                public_key: event.public_key.clone(),
                                kind: StepKind::UploadClaimToSolana,
                            },
                        );
                    },
                }
            },
        }
        proof {
            assert(steps_view(steps@) =~= before + steps_for(
                event.kind,
                event.public_key@,
                status,
            ));
        }
        i += 1;
    }
    proof {
        assert(all.take(events.len() as int) =~= all);
    }
    Plan { statuses, steps }
}

/// Planning looks at the snapshot only through the statuses of the
/// treasures that the events are about: two snapshots that agree on those
/// give the same plan for the same events.
pub proof fn lemma_plan_deterministic(
    first: Map<Seq<char>, SyncStatus>,
    second: Map<Seq<char>, SyncStatus>,
    events: Seq<EventView>,
)
    requires
        forall|i: int|
            0 <= i < events.len() ==> status_in(first, #[trigger] events[i].public_key)
                == status_in(second, events[i].public_key),
    ensures
        plan_steps(first, events) == plan_steps(second, events),
    decreases events.len(),
{
    if events.len() > 0 {
        let front = events.drop_last();
        assert forall|i: int| 0 <= i < front.len() implies status_in(
            first,
            #[trigger] front[i].public_key,
        ) == status_in(second, front[i].public_key) by {
            assert(front[i] == events[i]);
        }
        lemma_plan_deterministic(first, second, front);
        assert(events.last() == events[events.len() - 1]);
    }
}

} // verus!
