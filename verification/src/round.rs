//! The executor of one round, as a machine that is told what happened and
//! says what to do next. The caller performs the actions; the machine does
//! no input or output.

use crate::plan::{steps_view, Plan, Step, StepKind, StepView};
use crate::status::{status_in, StatusMap, SyncStatus};
use crate::trace::{
    apply_outcome, faithful, lemma_trace_extends, replay, StepOutcome, SyncError,
};
use vstd::prelude::*;

verus! {

/// Where a round stands.
#[derive(Clone, Copy, Debug, PartialEq, Eq, Structural, Hash)]
pub enum Phase {
    /// Waiting to hear whether the ledger and the content store answer.
    Connecting,
    /// Waiting for the outcome of the current step's action.
    Acting,
    /// The current step's action succeeded; waiting for the outcome of the
    /// status write.
    Recording,
    /// Every step was taken up.
    Finished,
    /// The connection failed; no step was taken up.
    Aborted,
}

/// What the caller reports back after carrying out an action.
#[derive(Clone, Copy, Debug, PartialEq, Eq, Structural, Hash)]
pub enum Response {
    Connected,
    ConnectionFailed,
    ActionSucceeded,
    ActionFailed,
    StatusRecorded,
    StatusWriteFailed,
}

/// What the caller is to do next.
#[derive(Debug, PartialEq, Eq)]
pub enum Action {
    /// Connect to the ledger and the content store.
    Connect,
    /// Upload the image of this treasure to the content store.
    UploadBlob { public_key: String },
    /// Submit the plant of this treasure to the ledger.
    SubmitPlant { public_key: String },
    /// Submit the claim of this treasure to the ledger.
    SubmitClaim { public_key: String },
    /// Write this status of this treasure to the status store.
    RecordStatus { public_key: String, status: SyncStatus },
    /// The round is over.
    Finish,
    /// The round is over because the connection failed.
    Abort,
}

/// An `Action` as a mathematical value.
pub enum ActionView {
    Connect,
    UploadBlob { public_key: Seq<char> },
    SubmitPlant { public_key: Seq<char> },
    SubmitClaim { public_key: Seq<char> },
    RecordStatus { public_key: Seq<char>, status: SyncStatus },
    Finish,
    Abort,
}

impl View for Action {
    type V = ActionView;

    open spec fn view(&self) -> ActionView {
        match self {
            Action::Connect => ActionView::Connect,
            Action::UploadBlob { public_key } => ActionView::UploadBlob { public_key: public_key@ },
            Action::SubmitPlant { public_key } => ActionView::SubmitPlant {
                public_key: public_key@,
            },
            Action::SubmitClaim { public_key } => ActionView::SubmitClaim {
                public_key: public_key@,
            },
            Action::RecordStatus { public_key, status } => ActionView::RecordStatus {
                public_key: public_key@,
                status: *status,
            },
            Action::Finish => ActionView::Finish,
            Action::Abort => ActionView::Abort,
        }
    }
}

/// The action that carries out a step.
pub open spec fn action_for(step: StepView) -> ActionView {
    match step.kind {
        StepKind::UploadBlobToIpfs => ActionView::UploadBlob { public_key: step.public_key },
        StepKind::UploadPlantToSolana => ActionView::SubmitPlant { public_key: step.public_key },
        StepKind::UploadClaimToSolana => ActionView::SubmitClaim { public_key: step.public_key },
    }
}

/// A round as a mathematical value.
pub struct RoundView {
    /// The statuses the plan was computed from.
    pub snapshot: Map<Seq<char>, SyncStatus>,
    /// The steps of the plan.
    pub steps: Seq<StepView>,
    /// What became of the steps taken up so far, in order.
    pub outcomes: Seq<StepOutcome>,
    /// The live statuses: the snapshot, moved forward by the completed
    /// steps.
    pub statuses: Map<Seq<char>, SyncStatus>,
    pub phase: Phase,
}

impl RoundView {
    /// The round at its start, before the connection is known.
    pub open spec fn begin(snapshot: Map<Seq<char>, SyncStatus>, steps: Seq<StepView>) -> RoundView {
        RoundView {
            snapshot,
            steps,
            outcomes: Seq::empty(),
            statuses: snapshot,
            phase: Phase::Connecting,
        }
    }

    /// The step that is taken up next.
    pub open spec fn current_step(self) -> StepView {
        self.steps[self.outcomes.len() as int]
    }

    /// Passes over steps as long as they are stale, and stops at the first
    /// step whose treasure is at the stage the step starts from, or at the
    /// end of the plan.
    pub open spec fn settle(self) -> RoundView
        decreases self.steps.len() - self.outcomes.len(),
    {
        if self.outcomes.len() >= self.steps.len() {
            RoundView { phase: Phase::Finished, ..self }
        } else if status_in(self.statuses, self.current_step().public_key)
            == self.current_step().kind.required_status() {
            RoundView { phase: Phase::Acting, ..self }
        } else {
            (RoundView { outcomes: self.outcomes.push(StepOutcome::Stale), ..self }).settle()
        }
    }

    /// The current step has the given outcome, and the round moves on.
    pub open spec fn conclude(self, outcome: StepOutcome) -> RoundView {
        (RoundView {
            outcomes: self.outcomes.push(outcome),
            statuses: apply_outcome(self.statuses, self.current_step(), outcome),
            ..self
        }).settle()
    }

    /// The round after `response`. A response that the phase does not wait
    /// for changes nothing.
    pub open spec fn react(self, response: Response) -> RoundView {
        match (self.phase, response) {
            (Phase::Connecting, Response::Connected) => self.settle(),
            (Phase::Connecting, Response::ConnectionFailed) => RoundView {
                phase: Phase::Aborted,
                ..self
            },
            (Phase::Acting, Response::ActionSucceeded) => RoundView {
                phase: Phase::Recording,
                ..self
            },
            (Phase::Acting, Response::ActionFailed) => self.conclude(StepOutcome::ActionFailed),
            (Phase::Recording, Response::StatusRecorded) => self.conclude(StepOutcome::Completed),
            (Phase::Recording, Response::StatusWriteFailed) => self.conclude(
                StepOutcome::WriteFailed,
            ),
            _ => self,
        }
    }

    /// What the caller is to do in this state.
    pub open spec fn pending(self) -> ActionView {
        match self.phase {
            Phase::Connecting => ActionView::Connect,
            Phase::Acting => action_for(self.current_step()),
            Phase::Recording => ActionView::RecordStatus {
                public_key: self.current_step().public_key,
                status: self.current_step().kind.resulting_status(),
            },
            Phase::Finished => ActionView::Finish,
            Phase::Aborted => ActionView::Abort,
        }
    }

    /// The outcomes are those of an executor that checks every
    /// precondition, and the live statuses are what they make of the
    /// snapshot.
    pub open spec fn trace_ok(self) -> bool {
        &&& faithful(self.snapshot, self.steps, self.outcomes)
        &&& self.statuses == replay(self.snapshot, self.steps, self.outcomes)
    }

    /// The state is one that a round can be in.
    pub open spec fn consistent(self) -> bool {
        &&& self.trace_ok()
        &&& match self.phase {
            Phase::Connecting | Phase::Aborted => self.outcomes.len() == 0,
            Phase::Acting | Phase::Recording => {
                &&& self.outcomes.len() < self.steps.len()
                &&& status_in(self.statuses, self.current_step().public_key)
                    == self.current_step().kind.required_status()
            },
            Phase::Finished => self.outcomes.len() == self.steps.len(),
        }
    }
}

/// Passing over stale steps keeps the snapshot, the steps and the live
/// statuses, and ends in a state a round can be in.
pub proof fn lemma_settle_consistent(round: RoundView)
    requires
        round.trace_ok(),
    ensures
        round.settle().consistent(),
        round.settle().snapshot == round.snapshot,
        round.settle().steps == round.steps,
        round.settle().statuses == round.statuses,
        round.settle().phase == Phase::Acting || round.settle().phase == Phase::Finished,
        round.outcomes.len() <= round.settle().outcomes.len(),
    decreases round.steps.len() - round.outcomes.len(),
{
    if round.outcomes.len() < round.steps.len() && status_in(
        round.statuses,
        round.current_step().public_key,
    ) != round.current_step().kind.required_status() {
        lemma_trace_extends(round.snapshot, round.steps, round.outcomes, StepOutcome::Stale);
        lemma_settle_consistent(
            RoundView { outcomes: round.outcomes.push(StepOutcome::Stale), ..round },
        );
    }
}

/// Every response leads from a state a round can be in to another such
/// state, keeps the snapshot and the steps, and moves no treasure back.
pub proof fn lemma_react_consistent(round: RoundView, response: Response)
    requires
        round.consistent(),
    ensures
        round.react(response).consistent(),
        round.react(response).snapshot == round.snapshot,
        round.react(response).steps == round.steps,
        forall|key: Seq<char>|
            status_in(round.statuses, key).stage() <= status_in(
                round.react(response).statuses,
                key,
            ).stage(),
{
    match (round.phase, response) {
        (Phase::Connecting, Response::Connected) => {
            lemma_settle_consistent(round);
        },
        (Phase::Acting, Response::ActionFailed) => {
            lemma_conclude_consistent(round, StepOutcome::ActionFailed);
        },
        (Phase::Recording, Response::StatusRecorded) => {
            lemma_conclude_consistent(round, StepOutcome::Completed);
        },
        (Phase::Recording, Response::StatusWriteFailed) => {
            lemma_conclude_consistent(round, StepOutcome::WriteFailed);
        },
        _ => {},
    }
}

proof fn lemma_conclude_consistent(round: RoundView, outcome: StepOutcome)
    requires
        round.consistent(),
        round.phase == Phase::Acting || round.phase == Phase::Recording,
        outcome != StepOutcome::Stale,
    ensures
        round.conclude(outcome).consistent(),
        round.conclude(outcome).snapshot == round.snapshot,
        round.conclude(outcome).steps == round.steps,
        round.conclude(outcome).statuses == apply_outcome(
            round.statuses,
            round.current_step(),
            outcome,
        ),
        forall|key: Seq<char>|
            status_in(round.statuses, key).stage() <= status_in(
                round.conclude(outcome).statuses,
                key,
            ).stage(),
{
    lemma_trace_extends(round.snapshot, round.steps, round.outcomes, outcome);
    let next = RoundView {
        outcomes: round.outcomes.push(outcome),
        statuses: apply_outcome(round.statuses, round.current_step(), outcome),
        ..round
    };
    lemma_settle_consistent(next);
}

/// The executor's state in one round.
pub struct Round {
    snapshot: Ghost<Map<Seq<char>, SyncStatus>>,
    steps: Vec<Step>,
    outcomes: Vec<StepOutcome>,
    statuses: StatusMap,
    phase: Phase,
}

impl View for Round {
    type V = RoundView;

    closed spec fn view(&self) -> RoundView {
        RoundView {
            snapshot: self.snapshot@,
            steps: steps_view(self.steps@),
            outcomes: self.outcomes@,
            statuses: self.statuses@,
            phase: self.phase,
        }
    }
}

/// Begins the round that carries out `plan`. The live statuses start as the
/// plan's snapshot, and the first thing to do is to connect.
pub fn execute_plan(plan: Plan) -> (round: Round)
    requires
        plan.statuses.wf(),
    ensures
        round.wf(),
        round@ == RoundView::begin(plan.statuses@, steps_view(plan.steps@)),
        round@.consistent(),
{
    Round {
        snapshot: Ghost(plan.statuses@),
        steps: plan.steps,
        outcomes: Vec::new(),
        statuses: plan.statuses,
        phase: Phase::Connecting,
    }
}

impl Round {
    spec fn statuses_wf(&self) -> bool {
        self.statuses.wf()
    }

    /// The state is one that a round can be in.
    pub closed spec fn wf(&self) -> bool {
        self.statuses_wf() && self@.consistent()
    }

    /// Where the round stands.
    pub fn phase(&self) -> (phase: Phase)
        ensures
            phase == self@.phase,
    {
        self.phase
    }

    /// The error that ended the round before any step was taken up: the
    /// failed connection of an aborted round. Every other round has none,
    /// whatever became of its steps.
    pub fn fatal_error(&self) -> (error: Option<SyncError>)
        ensures
            error == if self@.phase == Phase::Aborted {
                Some(SyncError::ExternalServiceError)
            } else {
                None::<SyncError>
            },
    {
        match self.phase {
            Phase::Aborted => Some(SyncError::ExternalServiceError),
            _ => None,
        }
    }

    /// The live statuses.
    pub fn statuses(&self) -> (statuses: &StatusMap)
        requires
            self.wf(),
        ensures
            statuses.wf(),
            statuses@ == self@.statuses,
    {
        &self.statuses
    }

    /// What became of the steps taken up so far, in the order of the plan.
    pub fn outcomes(&self) -> (outcomes: &Vec<StepOutcome>)
        ensures
            outcomes@ == self@.outcomes,
    {
        &self.outcomes
    }

    /// The steps of the plan.
    pub fn steps(&self) -> (steps: &Vec<Step>)
        ensures
            steps_view(steps@) == self@.steps,
    {
        &self.steps
    }

    /// What the caller is to do now.
    pub fn pending_action(&self) -> (action: Action)
        requires
            self.wf(),
        ensures
            action@ == self@.pending(),
    {
        match self.phase {
            Phase::Connecting => Action::Connect,
            Phase::Acting => {
                let step = &self.steps[self.outcomes.len()];
                match step.kind {
                    StepKind::UploadBlobToIpfs => Action::UploadBlob {
                        public_key: step.public_key.clone(),
                    },
                    StepKind::UploadPlantToSolana => Action::SubmitPlant {
                        public_key: step.public_key.clone(),
                    },
                    StepKind::UploadClaimToSolana => Action::SubmitClaim {
                        public_key: step.public_key.clone(),
                    },
                }
            },
            Phase::Recording => {
                let step = &self.steps[self.outcomes.len()];
                Action::RecordStatus {
                    public_key: step.public_key.clone(),
                    status: step.kind.resulting_status(),
                }
            },
            Phase::Finished => Action::Finish,
            Phase::Aborted => Action::Abort,
        }
    }

    fn settle(&mut self)
        requires
            old(self).statuses_wf(),
            old(self)@.outcomes.len() <= old(self)@.steps.len(),
        ensures
            final(self).statuses_wf(),
            final(self)@ == old(self)@.settle(),
    {
        while self.outcomes.len() < self.steps.len()
            invariant
                self.statuses_wf(),
                self.outcomes.len() <= self.steps.len(),
                self@.settle() == old(self)@.settle(),
            decreases self.steps.len() - self.outcomes.len(),
        {
            let step = &self.steps[self.outcomes.len()];
            if self.statuses.get(&step.public_key) == step.kind.required_status() {
                self.phase = Phase::Acting;
                return ;
            }
            self.outcomes.push(StepOutcome::Stale);
        }
        self.phase = Phase::Finished;
    }

    fn conclude(&mut self, outcome: StepOutcome)
        requires
            old(self).wf(),
            old(self)@.phase == Phase::Acting || old(self)@.phase == Phase::Recording,
            outcome != StepOutcome::Stale,
        ensures
            final(self).statuses_wf(),
            final(self)@ == old(self)@.conclude(outcome),
    {
        if outcome == StepOutcome::Completed {
            let step = &self.steps[self.outcomes.len()];
            let written = self.statuses.record_status(
                &step.public_key,
                step.kind.resulting_status(),
            );
            assert(written is Ok);
        }
        self.outcomes.push(outcome);
        self.settle();
    }

    /// Takes in what happened to the pending action and says what to do
    /// next. The state moves as `RoundView::react` says. A plant is handed
    /// out for submission only while its treasure is `BlobSynced`, a claim
    /// only while it is `PlantSynced`, an image only while it is
    /// `Unsynced`; and no treasure is ever moved back.
    pub fn handle(&mut self, response: Response) -> (action: Action)
        requires
            old(self).wf(),
        ensures
            final(self).wf(),
            final(self)@.consistent(),
            final(self)@ == old(self)@.react(response),
            action@ == final(self)@.pending(),
            final(self)@.snapshot == old(self)@.snapshot,
            final(self)@.steps == old(self)@.steps,
            forall|key: Seq<char>|
                status_in(old(self)@.statuses, key).stage() <= status_in(
                    final(self)@.statuses,
                    key,
                ).stage(),
            action@ matches ActionView::UploadBlob { public_key } ==> status_in(
                final(self)@.statuses,
                public_key,
            ) == SyncStatus::Unsynced,
            action@ matches ActionView::SubmitPlant { public_key } ==> status_in(
                final(self)@.statuses,
                public_key,
            ) == SyncStatus::BlobSynced,
            action@ matches ActionView::SubmitClaim { public_key } ==> status_in(
                final(self)@.statuses,
                public_key,
            ) == SyncStatus::PlantSynced,
    {
        proof {
            lemma_react_consistent(self@, response);
        }
        match (self.phase, response) {
            (Phase::Connecting, Response::Connected) => {
                self.settle();
            },
            (Phase::Connecting, Response::ConnectionFailed) => {
                self.phase = Phase::Aborted;
            },
            (Phase::Acting, Response::ActionSucceeded) => {
                self.phase = Phase::Recording;
            },
            (Phase::Acting, Response::ActionFailed) => {
                self.conclude(StepOutcome::ActionFailed);
            },
            (Phase::Recording, Response::StatusRecorded) => {
                self.conclude(StepOutcome::Completed);
            },
            (Phase::Recording, Response::StatusWriteFailed) => {
                self.conclude(StepOutcome::WriteFailed);
            },
            _ => {},
        }
        self.pending_action()
    }
}

} // verus!
