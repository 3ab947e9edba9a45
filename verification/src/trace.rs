//! What a round does to the statuses, as a function of what happened to each
//! step, and the laws of that function.

use crate::event::{event_le, key_bytes, lemma_lex_le_total, time_sorted, EventKind, EventView};
use crate::plan::{plan_steps, steps_for, StepKind, StepView};
use crate::status::{status_in, SyncStatus};
use vstd::prelude::*;

verus! {

/// What became of one step of a plan.
#[derive(Clone, Copy, Debug, PartialEq, Eq, Structural, Hash)]
pub enum StepOutcome {
    /// The action was performed and the new status was written.
    Completed,
    /// The treasure was not at the stage the step starts from, so nothing
    /// was attempted.
    Stale,
    /// The ledger or the content store refused or failed the action.
    ActionFailed,
    /// The action was performed, but the new status could not be written.
    WriteFailed,
}

/// Why a step, or a whole round, did not do its work.
#[derive(Clone, Copy, Debug, PartialEq, Eq, Structural, Hash)]
pub enum SyncError {
    /// The treasure was not at the stage the step starts from. The step is
    /// passed over and the round goes on.
    PreconditionMismatch,
    /// The ledger or the content store failed. Within a step the round goes
    /// on with the next step; at the connection it ends the round.
    ExternalServiceError,
    /// The status store failed to write. The round goes on with the next
    /// step, and the treasure stays where it was.
    PersistenceError,
}

impl StepOutcome {
    /// The error that the outcome stands for, `None` for a completed step.
    pub open spec fn spec_error(self) -> Option<SyncError> {
        match self {
            StepOutcome::Completed => None,
            StepOutcome::Stale => Some(SyncError::PreconditionMismatch),
            StepOutcome::ActionFailed => Some(SyncError::ExternalServiceError),
            StepOutcome::WriteFailed => Some(SyncError::PersistenceError),
        }
    }

    /// The error that the outcome stands for, `None` for a completed step.
    #[verifier::when_used_as_spec(spec_error)]
    pub fn error(self) -> (error: Option<SyncError>)
        ensures
            error == self.spec_error(),
    {
        match self {
            StepOutcome::Completed => None,
            StepOutcome::Stale => Some(SyncError::PreconditionMismatch),
            StepOutcome::ActionFailed => Some(SyncError::ExternalServiceError),
            StepOutcome::WriteFailed => Some(SyncError::PersistenceError),
        }
    }
}

/// The statuses after a step with the given outcome: a completed step moves
/// its treasure to the stage the step results in, anything else changes
/// nothing.
pub open spec fn apply_outcome(
    statuses: Map<Seq<char>, SyncStatus>,
    step: StepView,
    outcome: StepOutcome,
) -> Map<Seq<char>, SyncStatus> {
    if outcome == StepOutcome::Completed {
        statuses.insert(step.public_key, step.kind.resulting_status())
    } else {
        statuses
    }
}

/// The statuses once the first `outcomes.len()` steps of `steps` have had
/// the outcomes given, starting from `snapshot`.
pub open spec fn replay(
    snapshot: Map<Seq<char>, SyncStatus>,
    steps: Seq<StepView>,
    outcomes: Seq<StepOutcome>,
) -> Map<Seq<char>, SyncStatus>
    decreases outcomes.len(),
{
    if outcomes.len() == 0 {
        snapshot
    } else {
        apply_outcome(
            replay(snapshot, steps, outcomes.drop_last()),
            steps[outcomes.len() - 1],
            outcomes.last(),
        )
    }
}

/// The stage of step `i`'s treasure at the moment step `i` is taken up.
pub open spec fn status_before(
    snapshot: Map<Seq<char>, SyncStatus>,
    steps: Seq<StepView>,
    outcomes: Seq<StepOutcome>,
    i: int,
) -> SyncStatus {
    status_in(replay(snapshot, steps, outcomes.take(i)), steps[i].public_key)
}

/// `outcomes` is what an executor that checks every precondition can
/// produce on the first `outcomes.len()` steps: a step is stale exactly when
/// its treasure is not at the stage the step starts from.
pub open spec fn faithful(
    snapshot: Map<Seq<char>, SyncStatus>,
    steps: Seq<StepView>,
    outcomes: Seq<StepOutcome>,
) -> bool {
    &&& outcomes.len() <= steps.len()
    &&& forall|i: int|
        0 <= i < outcomes.len() ==> ((#[trigger] outcomes[i] == StepOutcome::Stale)
            <==> status_before(snapshot, steps, outcomes, i) != steps[i].kind.required_status())
}

/// One more outcome extends a faithful trace when it is `Stale` exactly if
/// the next step's precondition fails.
pub proof fn lemma_trace_extends(
    snapshot: Map<Seq<char>, SyncStatus>,
    steps: Seq<StepView>,
    outcomes: Seq<StepOutcome>,
    outcome: StepOutcome,
)
    requires
        faithful(snapshot, steps, outcomes),
        outcomes.len() < steps.len(),
        (outcome == StepOutcome::Stale) <==> status_in(
            replay(snapshot, steps, outcomes),
            steps[outcomes.len() as int].public_key,
        ) != steps[outcomes.len() as int].kind.required_status(),
    ensures
        faithful(snapshot, steps, outcomes.push(outcome)),
        replay(snapshot, steps, outcomes.push(outcome)) == apply_outcome(
            replay(snapshot, steps, outcomes),
            steps[outcomes.len() as int],
            outcome,
        ),
{
    let longer = outcomes.push(outcome);
    assert(longer.drop_last() =~= outcomes);
    assert forall|i: int| 0 <= i < longer.len() implies ((#[trigger] longer[i]
        == StepOutcome::Stale) <==> status_before(snapshot, steps, longer, i)
        != steps[i].kind.required_status()) by {
        if i < outcomes.len() {
            assert(longer.take(i) =~= outcomes.take(i));
            assert(outcomes[i] == longer[i]);
        } else {
            assert(longer.take(i) =~= outcomes);
        }
    }
}

/// A prefix of a faithful trace is faithful.
pub proof fn lemma_trace_prefix(
    snapshot: Map<Seq<char>, SyncStatus>,
    steps: Seq<StepView>,
    outcomes: Seq<StepOutcome>,
    n: int,
)
    requires
        faithful(snapshot, steps, outcomes),
        0 <= n <= outcomes.len(),
    ensures
        faithful(snapshot, steps, outcomes.take(n)),
{
    let prefix = outcomes.take(n);
    assert forall|i: int| 0 <= i < prefix.len() implies ((#[trigger] prefix[i]
        == StepOutcome::Stale) <==> status_before(snapshot, steps, prefix, i)
        != steps[i].kind.required_status()) by {
        assert(prefix.take(i) =~= outcomes.take(i));
        assert(prefix[i] == outcomes[i]);
    }
}

/// One step moves at most its own treasure, and that by exactly one stage:
/// it does so when its outcome is `Completed`, and no status changes
/// otherwise.
pub proof fn lemma_step_advances_at_most_one(
    snapshot: Map<Seq<char>, SyncStatus>,
    steps: Seq<StepView>,
    outcomes: Seq<StepOutcome>,
    i: int,
    key: Seq<char>,
)
    requires
        faithful(snapshot, steps, outcomes),
        0 <= i < outcomes.len(),
    ensures
        ({
            let before = status_in(replay(snapshot, steps, outcomes.take(i)), key);
            let after = status_in(replay(snapshot, steps, outcomes.take(i + 1)), key);
            if outcomes[i] == StepOutcome::Completed && key == steps[i].public_key {
                after.stage() == before.stage() + 1
            } else {
                after == before
            }
        }),
{
    assert(outcomes.take(i + 1).drop_last() =~= outcomes.take(i));
    assert(outcomes.take(i + 1).last() == outcomes[i]);
}

/// Monotonicity within a round: the stage of a treasure at a later moment
/// of a faithful trace is never below its stage at an earlier moment.
pub proof fn lemma_statuses_never_regress(
    snapshot: Map<Seq<char>, SyncStatus>,
    steps: Seq<StepView>,
    outcomes: Seq<StepOutcome>,
    earlier: int,
    later: int,
    key: Seq<char>,
)
    requires
        faithful(snapshot, steps, outcomes),
        0 <= earlier <= later <= outcomes.len(),
    ensures
        status_in(replay(snapshot, steps, outcomes.take(earlier)), key).stage() <= status_in(
            replay(snapshot, steps, outcomes.take(later)),
            key,
        ).stage(),
    decreases later - earlier,
{
    if earlier < later {
        lemma_statuses_never_regress(snapshot, steps, outcomes, earlier, later - 1, key);
        lemma_step_advances_at_most_one(snapshot, steps, outcomes, later - 1, key);
    }
}

/// Monotonicity of a round: when the round is over no treasure is at an
/// earlier stage than in the snapshot the round began with.
pub proof fn lemma_round_never_regresses(
    snapshot: Map<Seq<char>, SyncStatus>,
    steps: Seq<StepView>,
    outcomes: Seq<StepOutcome>,
    key: Seq<char>,
)
    requires
        faithful(snapshot, steps, outcomes),
    ensures
        status_in(snapshot, key).stage() <= status_in(
            replay(snapshot, steps, outcomes),
            key,
        ).stage(),
{
    lemma_statuses_never_regress(snapshot, steps, outcomes, 0, outcomes.len() as int, key);
    assert(outcomes.take(outcomes.len() as int) =~= outcomes);
    assert(outcomes.take(0) =~= Seq::<StepOutcome>::empty());
}

/// The steps of one round and what became of those that were taken up.
pub struct RoundTrace {
    pub steps: Seq<StepView>,
    pub outcomes: Seq<StepOutcome>,
}

/// The statuses after the rounds of `rounds`, one after the other, each
/// begun with the statuses that the one before it ended with, and the first
/// with `snapshot`.
pub open spec fn after_rounds(
    snapshot: Map<Seq<char>, SyncStatus>,
    rounds: Seq<RoundTrace>,
) -> Map<Seq<char>, SyncStatus>
    decreases rounds.len(),
{
    if rounds.len() == 0 {
        snapshot
    } else {
        replay(
            after_rounds(snapshot, rounds.drop_last()),
            rounds.last().steps,
            rounds.last().outcomes,
        )
    }
}

/// Every round of `rounds` is faithful to the statuses it began with.
pub open spec fn rounds_faithful(
    snapshot: Map<Seq<char>, SyncStatus>,
    rounds: Seq<RoundTrace>,
) -> bool {
    forall|r: int|
        0 <= r < rounds.len() ==> faithful(
            after_rounds(snapshot, rounds.take(r)),
            (#[trigger] rounds[r]).steps,
            rounds[r].outcomes,
        )
}

/// Monotonicity across rounds: over any number of successive rounds,
/// whatever their plans are and whatever fails in them, the stage of a
/// treasure after a later round is never below its stage after an earlier
/// one.
pub proof fn lemma_rounds_never_regress(
    snapshot: Map<Seq<char>, SyncStatus>,
    rounds: Seq<RoundTrace>,
    earlier: int,
    later: int,
    key: Seq<char>,
)
    requires
        rounds_faithful(snapshot, rounds),
        0 <= earlier <= later <= rounds.len(),
    ensures
        status_in(after_rounds(snapshot, rounds.take(earlier)), key).stage() <= status_in(
            after_rounds(snapshot, rounds.take(later)),
            key,
        ).stage(),
    decreases later - earlier,
{
    if earlier < later {
        lemma_rounds_never_regress(snapshot, rounds, earlier, later - 1, key);
        let last = rounds[later - 1];
        assert(rounds.take(later).drop_last() =~= rounds.take(later - 1));
        assert(rounds.take(later).last() == last);
        lemma_round_never_regresses(
            after_rounds(snapshot, rounds.take(later - 1)),
            last.steps,
            last.outcomes,
            key,
        );
    }
}

/// Dependency safety: a step on which anything was attempted found its
/// treasure at the stage the step starts from. So a plant is never
/// submitted for a treasure that is `Unsynced`, and a claim never for one
/// that is `Unsynced` or `BlobSynced`.
pub proof fn lemma_dependency_safety(
    snapshot: Map<Seq<char>, SyncStatus>,
    steps: Seq<StepView>,
    outcomes: Seq<StepOutcome>,
    i: int,
)
    requires
        faithful(snapshot, steps, outcomes),
        0 <= i < outcomes.len(),
        outcomes[i] != StepOutcome::Stale,
    ensures
        status_before(snapshot, steps, outcomes, i) == steps[i].kind.required_status(),
        steps[i].kind == StepKind::UploadPlantToSolana ==> status_before(
            snapshot,
            steps,
            outcomes,
            i,
        ) != SyncStatus::Unsynced,
        steps[i].kind == StepKind::UploadClaimToSolana ==> status_before(
            snapshot,
            steps,
            outcomes,
            i,
        ) != SyncStatus::Unsynced && status_before(snapshot, steps, outcomes, i)
            != SyncStatus::BlobSynced,
{
}

/// Step `i` is preceded by a step of the given kind on the same treasure.
pub open spec fn has_earlier(steps: Seq<StepView>, i: int, kind: StepKind) -> bool {
    exists|j: int|
        0 <= j < i && #[trigger] steps[j] == (StepView { public_key: steps[i].public_key, kind })
}

/// Every step comes after the steps it depends on, as far as the snapshot
/// does not show them done: a plant submission for a treasure that the
/// snapshot has `Unsynced` follows an upload of its image, and a claim
/// submission for one that the snapshot has below `PlantSynced` follows a
/// plant submission.
pub open spec fn prerequisites_precede(
    snapshot: Map<Seq<char>, SyncStatus>,
    steps: Seq<StepView>,
) -> bool {
    forall|i: int|
        0 <= i < steps.len() ==> {
            let step = #[trigger] steps[i];
            let planned_from = status_in(snapshot, step.public_key);
            &&& step.kind == StepKind::UploadPlantToSolana && planned_from == SyncStatus::Unsynced
                ==> has_earlier(steps, i, StepKind::UploadBlobToIpfs)
            &&& step.kind == StepKind::UploadClaimToSolana && planned_from.stage() < 2
                ==> has_earlier(steps, i, StepKind::UploadPlantToSolana)
        }
}

/// Event `j` is a claim.
pub open spec fn claim_at(events: Seq<EventView>, j: int) -> bool {
    0 <= j < events.len() && events[j].kind == EventKind::Claim
}

/// Event `i` is a plant of the treasure that event `j` is about, and comes
/// before it.
pub open spec fn plant_before(events: Seq<EventView>, i: int, j: int) -> bool {
    0 <= i < j && events[i].kind == EventKind::Plant && events[i].public_key
        == events[j].public_key
}

/// Event `i` is a plant of the treasure that event `j` is about, recorded
/// no later than event `j`.
pub open spec fn plant_on_record(events: Seq<EventView>, i: int, j: int) -> bool {
    0 <= i < events.len() && events[i].kind == EventKind::Plant && events[i].public_key
        == events[j].public_key && events[i].timestamp <= events[j].timestamp
}

/// Every claim event comes after a plant event for the same treasure.
pub open spec fn claims_follow_plants(events: Seq<EventView>) -> bool {
    forall|j: int| #[trigger]
        claim_at(events, j) ==> exists|i: int| #[trigger] plant_before(events, i, j)
}

/// Every claim event has a plant event for the same treasure that was
/// recorded at the same time or before.
pub open spec fn plants_recorded_first(events: Seq<EventView>) -> bool {
    forall|j: int| #[trigger]
        claim_at(events, j) ==> exists|i: int| #[trigger] plant_on_record(events, i, j)
}

/// In events that are in the order in which they are taken, every claim
/// comes after a plant of the same treasure, provided such a plant was
/// recorded no later than the claim. A plant and a claim of one treasure
/// that share their record time are kept in this order by the order of
/// events.
pub proof fn lemma_sorted_claims_follow_plants(events: Seq<EventView>)
    requires
        time_sorted(events),
        plants_recorded_first(events),
    ensures
        claims_follow_plants(events),
{
    assert forall|j: int| #[trigger] claim_at(events, j) implies exists|i: int| #[trigger]
        plant_before(events, i, j) by {
        let i = choose|i: int| #[trigger] plant_on_record(events, i, j);
        lemma_claim_is_not_before_its_plant(events[j], events[i]);
        if i > j {
            assert(event_le(events[j], events[i]));
        }
        assert(plant_before(events, i, j));
    }
}

proof fn lemma_claim_is_not_before_its_plant(claim: EventView, plant: EventView)
    requires
        claim.kind == EventKind::Claim,
        plant.kind == EventKind::Plant,
        claim.public_key == plant.public_key,
        plant.timestamp <= claim.timestamp,
    ensures
        !event_le(claim, plant),
{
    lemma_lex_le_total(key_bytes(plant.public_key), key_bytes(plant.public_key));
}

/// Nothing failed: every step was completed or found stale.
pub open spec fn nothing_failed(outcomes: Seq<StepOutcome>) -> bool {
    forall|i: int|
        0 <= i < outcomes.len() ==> #[trigger] outcomes[i] == StepOutcome::Completed
            || outcomes[i] == StepOutcome::Stale
}

proof fn lemma_plan_grows(
    snapshot: Map<Seq<char>, SyncStatus>,
    events: Seq<EventView>,
    n: int,
)
    requires
        0 <= n <= events.len(),
    ensures
        plan_steps(snapshot, events.take(n)).len() <= plan_steps(snapshot, events).len(),
        forall|j: int|
            0 <= j < plan_steps(snapshot, events.take(n)).len() ==> plan_steps(
                snapshot,
                events.take(n),
            )[j] == plan_steps(snapshot, events)[j],
    decreases events.len() - n,
{
    if n == events.len() {
        assert(events.take(n) =~= events);
    } else {
        lemma_plan_grows(snapshot, events.drop_last(), n);
        assert(events.drop_last().take(n) =~= events.take(n));
    }
}

/// The plan holds a plant submission for every plant event whose treasure
/// the snapshot has below `PlantSynced`, and a claim submission for every
/// claim event whose treasure the snapshot has below `ClaimSynced`.
proof fn lemma_submission_is_planned(
    snapshot: Map<Seq<char>, SyncStatus>,
    events: Seq<EventView>,
    i: int,
)
    requires
        0 <= i < events.len(),
        events[i].kind == EventKind::Plant ==> status_in(snapshot, events[i].public_key).stage()
            < 2,
        events[i].kind == EventKind::Claim ==> status_in(snapshot, events[i].public_key)
            != SyncStatus::ClaimSynced,
    ensures
        exists|j: int|
            0 <= j < plan_steps(snapshot, events).len() && #[trigger] plan_steps(
                snapshot,
                events,
            )[j] == (StepView {
                public_key: events[i].public_key,
                kind: match events[i].kind {
                    EventKind::Plant => StepKind::UploadPlantToSolana,
                    EventKind::Claim => StepKind::UploadClaimToSolana,
                },
            }),
{
    let upto = events.take(i + 1);
    let front = plan_steps(snapshot, upto.drop_last());
    let asked = steps_for(
        events[i].kind,
        events[i].public_key,
        status_in(snapshot, events[i].public_key),
    );
    assert(upto.last() == events[i]);
    assert(plan_steps(snapshot, upto) == front + asked);
    let j = front.len() + asked.len() - 1;
    assert(plan_steps(snapshot, upto)[j] == asked.last());
    lemma_plan_grows(snapshot, events, i + 1);
    assert(plan_steps(snapshot, events)[j] == plan_steps(snapshot, upto)[j]);
}

/// The planner puts every step after the steps it depends on, provided
/// every claim event comes after a plant event for the same treasure.
pub proof fn lemma_planner_orders_steps(
    snapshot: Map<Seq<char>, SyncStatus>,
    events: Seq<EventView>,
)
    requires
        claims_follow_plants(events),
    ensures
        prerequisites_precede(snapshot, plan_steps(snapshot, events)),
    decreases events.len(),
{
    if events.len() > 0 {
        let front_events = events.drop_last();
        let event = events.last();
        assert(claims_follow_plants(front_events)) by {
            assert forall|j: int| #[trigger] claim_at(front_events, j) implies exists|i: int|
                #[trigger] plant_before(front_events, i, j) by {
                assert(claim_at(events, j));
                let i = choose|i: int| #[trigger] plant_before(events, i, j);
                assert(plant_before(front_events, i, j));
            }
        }
        lemma_planner_orders_steps(snapshot, front_events);
        let front = plan_steps(snapshot, front_events);
        let planned_from = status_in(snapshot, event.public_key);
        let last = steps_for(event.kind, event.public_key, planned_from);
        let steps = plan_steps(snapshot, events);
        assert(steps == front + last);
        assert forall|i: int| 0 <= i < steps.len() implies {
            let step = #[trigger] steps[i];
            let from = status_in(snapshot, step.public_key);
            &&& step.kind == StepKind::UploadPlantToSolana && from == SyncStatus::Unsynced
                ==> has_earlier(steps, i, StepKind::UploadBlobToIpfs)
            &&& step.kind == StepKind::UploadClaimToSolana && from.stage() < 2 ==> has_earlier(
                steps,
                i,
                StepKind::UploadPlantToSolana,
            )
        } by {
            let step = steps[i];
            let from = status_in(snapshot, step.public_key);
            if i < front.len() {
                assert(steps[i] == front[i]);
                if step.kind == StepKind::UploadPlantToSolana && from == SyncStatus::Unsynced {
                    let j = choose|j: int|
                        0 <= j < i && #[trigger] front[j] == (StepView {
                            public_key: front[i].public_key,
                            kind: StepKind::UploadBlobToIpfs,
                        });
                    assert(steps[j] == front[j]);
                }
                if step.kind == StepKind::UploadClaimToSolana && from.stage() < 2 {
                    let j = choose|j: int|
                        0 <= j < i && #[trigger] front[j] == (StepView {
                            public_key: front[i].public_key,
                            kind: StepKind::UploadPlantToSolana,
                        });
                    assert(steps[j] == front[j]);
                }
            } else {
                assert(steps[i] == last[i - front.len()]);
                assert(step.public_key == event.public_key);
                if step.kind == StepKind::UploadPlantToSolana && from == SyncStatus::Unsynced {
                    let j = front.len() as int;
                    assert(steps[j] == last[0]);
                    assert(i == j + 1);
                }
                if step.kind == StepKind::UploadClaimToSolana && from.stage() < 2 {
                    assert(event.kind == EventKind::Claim);
                    let n = events.len() - 1;
                    assert(events[n] == event);
                    assert(claim_at(events, n));
                    let p = choose|p: int| #[trigger] plant_before(events, p, n);
                    assert(front_events[p] == events[p]);
                    lemma_submission_is_planned(snapshot, front_events, p);
                    let j = choose|j: int|
                        0 <= j < front.len() && #[trigger] front[j] == (StepView {
                            public_key: front_events[p].public_key,
                            kind: StepKind::UploadPlantToSolana,
                        });
                    assert(steps[j] == front[j]);
                }
            }
        }
    }
}

/// When every step comes after the steps it depends on and nothing fails,
/// no step is taken up before its treasure has reached the stage the step
/// starts from, and every step leaves its treasure past that stage.
pub proof fn lemma_no_step_is_early(
    snapshot: Map<Seq<char>, SyncStatus>,
    steps: Seq<StepView>,
    outcomes: Seq<StepOutcome>,
    i: int,
)
    requires
        prerequisites_precede(snapshot, steps),
        faithful(snapshot, steps, outcomes),
        nothing_failed(outcomes),
        0 <= i < outcomes.len(),
    ensures
        status_before(snapshot, steps, outcomes, i).stage()
            >= steps[i].kind.required_status().stage(),
        status_in(replay(snapshot, steps, outcomes.take(i + 1)), steps[i].public_key).stage()
            > steps[i].kind.required_status().stage(),
    decreases i,
{
    let step = steps[i];
    let key = step.public_key;
    let before = status_before(snapshot, steps, outcomes, i);
    lemma_statuses_never_regress(snapshot, steps, outcomes, 0, i, key);
    assert(outcomes.take(0) =~= Seq::<StepOutcome>::empty());
    assert(status_in(snapshot, key).stage() <= before.stage());
    if step.kind == StepKind::UploadPlantToSolana && status_in(snapshot, key)
        == SyncStatus::Unsynced {
        let j = choose|j: int|
            0 <= j < i && #[trigger] steps[j] == (StepView {
                public_key: key,
                kind: StepKind::UploadBlobToIpfs,
            });
        lemma_no_step_is_early(snapshot, steps, outcomes, j);
        lemma_statuses_never_regress(snapshot, steps, outcomes, j + 1, i, key);
    }
    if step.kind == StepKind::UploadClaimToSolana && status_in(snapshot, key).stage() < 2 {
        let j = choose|j: int|
            0 <= j < i && #[trigger] steps[j] == (StepView {
                public_key: key,
                kind: StepKind::UploadPlantToSolana,
            });
        lemma_no_step_is_early(snapshot, steps, outcomes, j);
        lemma_statuses_never_regress(snapshot, steps, outcomes, j + 1, i, key);
    }
    assert(before.stage() >= step.kind.required_status().stage());
    lemma_step_advances_at_most_one(snapshot, steps, outcomes, i, key);
    assert(outcomes[i] == StepOutcome::Completed || outcomes[i] == StepOutcome::Stale);
}

/// After a pass over all of `steps` in which nothing failed, every step's
/// treasure is past the stage the step starts from.
proof fn lemma_pass_leaves_steps_behind(
    snapshot: Map<Seq<char>, SyncStatus>,
    steps: Seq<StepView>,
    outcomes: Seq<StepOutcome>,
    i: int,
)
    requires
        prerequisites_precede(snapshot, steps),
        faithful(snapshot, steps, outcomes),
        outcomes.len() == steps.len(),
        nothing_failed(outcomes),
        0 <= i < steps.len(),
    ensures
        status_in(replay(snapshot, steps, outcomes), steps[i].public_key).stage()
            > steps[i].kind.required_status().stage(),
{
    lemma_no_step_is_early(snapshot, steps, outcomes, i);
    lemma_statuses_never_regress(
        snapshot,
        steps,
        outcomes,
        i + 1,
        outcomes.len() as int,
        steps[i].public_key,
    );
    assert(outcomes.take(outcomes.len() as int) =~= outcomes);
}

/// A pass finds every step stale exactly when it begins with statuses in
/// which no step's treasure is at the stage the step starts from; and it
/// then changes no status.
pub proof fn lemma_pass_is_stale_exactly_when(
    statuses: Map<Seq<char>, SyncStatus>,
    steps: Seq<StepView>,
    outcomes: Seq<StepOutcome>,
)
    requires
        faithful(statuses, steps, outcomes),
        outcomes.len() == steps.len(),
    ensures
        (forall|i: int| 0 <= i < outcomes.len() ==> outcomes[i] == StepOutcome::Stale) <==> (
        forall|i: int|
            0 <= i < steps.len() ==> status_in(statuses, (#[trigger] steps[i]).public_key)
                != steps[i].kind.required_status()),
        (forall|i: int| 0 <= i < outcomes.len() ==> outcomes[i] == StepOutcome::Stale) ==> replay(
            statuses,
            steps,
            outcomes,
        ) == statuses,
{
    if forall|i: int|
        0 <= i < steps.len() ==> status_in(statuses, (#[trigger] steps[i]).public_key)
            != steps[i].kind.required_status() {
        lemma_all_stale(statuses, steps, outcomes);
    }
    if forall|i: int| 0 <= i < outcomes.len() ==> outcomes[i] == StepOutcome::Stale {
        assert forall|i: int| 0 <= i < steps.len() implies status_in(
            statuses,
            (#[trigger] steps[i]).public_key,
        ) != steps[i].kind.required_status() by {
            lemma_stale_prefix_changes_nothing(statuses, steps, outcomes, i);
            assert(outcomes[i] == StepOutcome::Stale);
        }
        lemma_stale_prefix_changes_nothing(statuses, steps, outcomes, outcomes.len() as int);
        assert(outcomes.take(outcomes.len() as int) =~= outcomes);
    }
}

proof fn lemma_stale_prefix_changes_nothing(
    statuses: Map<Seq<char>, SyncStatus>,
    steps: Seq<StepView>,
    outcomes: Seq<StepOutcome>,
    n: int,
)
    requires
        0 <= n <= outcomes.len(),
        forall|i: int| 0 <= i < outcomes.len() ==> outcomes[i] == StepOutcome::Stale,
    ensures
        replay(statuses, steps, outcomes.take(n)) == statuses,
    decreases n,
{
    if n > 0 {
        lemma_stale_prefix_changes_nothing(statuses, steps, outcomes, n - 1);
        assert(outcomes.take(n).drop_last() =~= outcomes.take(n - 1));
        assert(outcomes.take(n).last() == outcomes[n - 1]);
    }
}

/// A trace in which every treasure is already past the stage its step
/// starts from consists of stale steps and changes nothing.
proof fn lemma_all_stale(
    statuses: Map<Seq<char>, SyncStatus>,
    steps: Seq<StepView>,
    outcomes: Seq<StepOutcome>,
)
    requires
        faithful(statuses, steps, outcomes),
        forall|i: int|
            0 <= i < steps.len() ==> status_in(statuses, (#[trigger] steps[i]).public_key)
                != steps[i].kind.required_status(),
    ensures
        forall|i: int| 0 <= i < outcomes.len() ==> outcomes[i] == StepOutcome::Stale,
        replay(statuses, steps, outcomes) == statuses,
    decreases outcomes.len(),
{
    if outcomes.len() > 0 {
        let n = outcomes.len() - 1;
        let front = outcomes.drop_last();
        lemma_trace_prefix(statuses, steps, outcomes, n);
        assert(outcomes.take(n) =~= front);
        lemma_all_stale(statuses, steps, front);
        assert(status_before(statuses, steps, outcomes, n) == status_in(
            statuses,
            steps[n].public_key,
        ));
        assert(outcomes[n] == StepOutcome::Stale);
        assert forall|i: int| 0 <= i < outcomes.len() implies outcomes[i]
            == StepOutcome::Stale by {
            if i < n {
                assert(front[i] == outcomes[i]);
            }
        }
    }
}

/// Idempotence for any list of steps: after a pass over all of `steps` in
/// which nothing failed, a second pass over the same steps, begun with the
/// statuses that the first one ended with, finds every step stale and
/// changes no status. It holds of every list in which each step comes after
/// the steps it depends on.
pub proof fn lemma_second_pass_is_stale(
    snapshot: Map<Seq<char>, SyncStatus>,
    steps: Seq<StepView>,
    first: Seq<StepOutcome>,
    second: Seq<StepOutcome>,
)
    requires
        prerequisites_precede(snapshot, steps),
        faithful(snapshot, steps, first),
        first.len() == steps.len(),
        nothing_failed(first),
        faithful(replay(snapshot, steps, first), steps, second),
    ensures
        forall|i: int| 0 <= i < second.len() ==> second[i] == StepOutcome::Stale,
        replay(replay(snapshot, steps, first), steps, second) == replay(snapshot, steps, first),
{
    let between = replay(snapshot, steps, first);
    assert forall|i: int| 0 <= i < steps.len() implies status_in(
        between,
        (#[trigger] steps[i]).public_key,
    ) != steps[i].kind.required_status() by {
        lemma_pass_leaves_steps_behind(snapshot, steps, first, i);
    }
    lemma_all_stale(between, steps, second);
}

/// Completion of a plan: let a plan be computed from `snapshot` and from
/// events in which every claim follows a plant of the same treasure, and
/// let it be carried out to its end with no failure. Then every treasure
/// with a plant event is `PlantSynced` or `ClaimSynced`, and every treasure
/// with a claim event is `ClaimSynced`.
pub proof fn lemma_plan_without_failure_completes(
    snapshot: Map<Seq<char>, SyncStatus>,
    events: Seq<EventView>,
    outcomes: Seq<StepOutcome>,
    i: int,
)
    requires
        claims_follow_plants(events),
        faithful(snapshot, plan_steps(snapshot, events), outcomes),
        outcomes.len() == plan_steps(snapshot, events).len(),
        nothing_failed(outcomes),
        0 <= i < events.len(),
    ensures
        ({
            let end = status_in(
                replay(snapshot, plan_steps(snapshot, events), outcomes),
                events[i].public_key,
            );
            &&& events[i].kind == EventKind::Plant ==> end.stage() >= 2
            &&& events[i].kind == EventKind::Claim ==> end == SyncStatus::ClaimSynced
        }),
{
    let steps = plan_steps(snapshot, events);
    let key = events[i].public_key;
    lemma_planner_orders_steps(snapshot, events);
    lemma_round_never_regresses(snapshot, steps, outcomes, key);
    if events[i].kind == EventKind::Plant && status_in(snapshot, key).stage() < 2 {
        lemma_submission_is_planned(snapshot, events, i);
        let j = choose|j: int|
            0 <= j < steps.len() && #[trigger] steps[j] == (StepView {
                public_key: key,
                kind: StepKind::UploadPlantToSolana,
            });
        lemma_pass_leaves_steps_behind(snapshot, steps, outcomes, j);
    }
    if events[i].kind == EventKind::Claim && status_in(snapshot, key) != SyncStatus::ClaimSynced {
        lemma_submission_is_planned(snapshot, events, i);
        let j = choose|j: int|
            0 <= j < steps.len() && #[trigger] steps[j] == (StepView {
                public_key: key,
                kind: StepKind::UploadClaimToSolana,
            });
        lemma_pass_leaves_steps_behind(snapshot, steps, outcomes, j);
    }
}

/// Idempotence of a plan: let a plan be computed from `snapshot` and from
/// events in which every claim follows a plant of the same treasure, and
/// let it be carried out once with no failure. Carrying out the same steps
/// again, from the statuses the first pass ended with, finds every step
/// stale and changes no status.
pub proof fn lemma_plan_is_idempotent(
    snapshot: Map<Seq<char>, SyncStatus>,
    events: Seq<EventView>,
    first: Seq<StepOutcome>,
    second: Seq<StepOutcome>,
)
    requires
        claims_follow_plants(events),
        faithful(snapshot, plan_steps(snapshot, events), first),
        first.len() == plan_steps(snapshot, events).len(),
        nothing_failed(first),
        faithful(
            replay(snapshot, plan_steps(snapshot, events), first),
            plan_steps(snapshot, events),
            second,
        ),
    ensures
        forall|i: int| 0 <= i < second.len() ==> second[i] == StepOutcome::Stale,
        replay(
            replay(snapshot, plan_steps(snapshot, events), first),
            plan_steps(snapshot, events),
            second,
        ) == replay(snapshot, plan_steps(snapshot, events), first),
{
    lemma_planner_orders_steps(snapshot, events);
    lemma_second_pass_is_stale(snapshot, plan_steps(snapshot, events), first, second);
}

} // verus!
