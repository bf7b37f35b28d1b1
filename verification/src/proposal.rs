use vstd::prelude::*;
use crate::history::copy_bytes;
use crate::ident::StepID;

verus! {

/// One editing step of a proposal: the gestures that it sets, carried as
/// their encoded bytes, under the marker of the step.
#[derive(Clone, Debug, PartialEq, Eq)]
pub struct Plan {
    pub step_id: StepID,
    pub gestures: Vec<u8>,
}

/// What an editing step holds.
pub struct PlanView {
    pub step_id: StepID,
    pub gestures: Seq<u8>,
}

impl View for Plan {
    type V = PlanView;

    open spec fn view(&self) -> PlanView {
        PlanView { step_id: self.step_id, gestures: self.gestures@ }
    }
}

impl Plan {
    /// A step that holds what this one holds.
    pub fn duplicate(&self) -> (copy: Plan)
        ensures
            copy@ == self@,
    {
        Plan { step_id: self.step_id, gestures: copy_bytes(&self.gestures) }
    }
}

/// What a sequence of steps holds.
pub open spec fn plans_view(plans: Seq<Plan>) -> Seq<PlanView> {
    plans.map_values(|p: Plan| p@)
}

/// Copies a sequence of steps.
pub fn duplicate_plans(plans: &Vec<Plan>) -> (copy: Vec<Plan>)
    ensures
        plans_view(copy@) == plans_view(plans@),
{
    let mut copy: Vec<Plan> = Vec::new();
    let mut i: usize = 0;
    while i < plans.len()
        invariant
            i <= plans.len(),
            copy@.len() == i,
            forall|j: int| 0 <= j < i ==> (#[trigger] copy@[j])@ == plans@[j]@,
        decreases plans.len() - i,
    {
        copy.push(plans[i].duplicate());
        i = i + 1;
    }
    assert(plans_view(copy@) =~= plans_view(plans@));
    copy
}

/// A draft of changes to the master plan: the steps taken so far, the step
/// that is being worked on, and the steps that were taken back and can be
/// taken again.
#[derive(Clone, Debug, PartialEq, Eq)]
pub struct Proposal {
    pub undoable_history: Vec<Plan>,
    pub ongoing: Plan,
    pub redoable_history: Vec<Plan>,
}

/// What a proposal holds.
pub struct ProposalView {
    pub undoable_history: Seq<PlanView>,
    pub ongoing: PlanView,
    pub redoable_history: Seq<PlanView>,
}

impl View for Proposal {
    type V = ProposalView;

    open spec fn view(&self) -> ProposalView {
        ProposalView {
            undoable_history: plans_view(self.undoable_history@),
            ongoing: self.ongoing@,
            redoable_history: plans_view(self.redoable_history@),
        }
    }
}

/// The state of a proposal that a mirror knows: the markers of the last step
/// taken, of the ongoing step, and of the first step that can be taken again.
#[derive(Clone, Copy, Debug, PartialEq, Eq)]
pub struct ProposalKnownState {
    pub known_last_undoable: Option<StepID>,
    pub known_ongoing: Option<StepID>,
    pub known_first_redoable: Option<StepID>,
}

/// What changed in a proposal since a known state of it.
#[derive(Clone, Debug, PartialEq, Eq)]
pub enum ProposalUpdate {
    /// Nothing.
    Unchanged,
    /// Only the ongoing step, which is given.
    ChangedOngoing(Plan),
    /// The steps taken or taken back: the whole proposal is given.
    ChangedCompletely(Proposal),
}

/// What an update of a proposal holds.
pub enum ProposalUpdateView {
    Unchanged,
    ChangedOngoing(PlanView),
    ChangedCompletely(ProposalView),
}

impl View for ProposalUpdate {
    type V = ProposalUpdateView;

    open spec fn view(&self) -> ProposalUpdateView {
        match *self {
            ProposalUpdate::Unchanged => ProposalUpdateView::Unchanged,
            ProposalUpdate::ChangedOngoing(plan) => ProposalUpdateView::ChangedOngoing(plan@),
            ProposalUpdate::ChangedCompletely(proposal) => ProposalUpdateView::ChangedCompletely(
                proposal@,
            ),
        }
    }
}

/// The marker of the last step of `plans`, where there is a step.
pub open spec fn last_step(plans: Seq<PlanView>) -> Option<StepID> {
    if plans.len() == 0 {
        None
    } else {
        Some(plans.last().step_id)
    }
}

/// The marker of the first step of `plans`, where there is a step.
pub open spec fn first_step(plans: Seq<PlanView>) -> Option<StepID> {
    if plans.len() == 0 {
        None
    } else {
        Some(plans[0].step_id)
    }
}

/// The known state that belongs to a proposal.
pub open spec fn known_state_of(proposal: ProposalView) -> ProposalKnownState {
    ProposalKnownState {
        known_last_undoable: last_step(proposal.undoable_history),
        known_ongoing: Some(proposal.ongoing.step_id),
        known_first_redoable: first_step(proposal.redoable_history),
    }
}

/// `proposal` with `ongoing` as its ongoing step.
pub open spec fn with_ongoing(proposal: ProposalView, ongoing: PlanView) -> ProposalView {
    ProposalView { ongoing, ..proposal }
}

/// The proposal that an update makes of `proposal`.
pub open spec fn updated_proposal(proposal: ProposalView, update: ProposalUpdateView) -> ProposalView {
    match update {
        ProposalUpdateView::Unchanged => proposal,
        ProposalUpdateView::ChangedOngoing(ongoing) => with_ongoing(proposal, ongoing),
        ProposalUpdateView::ChangedCompletely(whole) => whole,
    }
}

/// The update that brings a mirror in the state `known` to `proposal`: the
/// whole proposal where the steps taken or taken back differ, the ongoing
/// step where only it differs, and nothing otherwise.
pub open spec fn update_since(proposal: ProposalView, known: ProposalKnownState) -> ProposalUpdateView {
    if known.known_first_redoable == first_step(proposal.redoable_history)
        && known.known_last_undoable == last_step(proposal.undoable_history) {
        if known.known_ongoing == Some(proposal.ongoing.step_id) {
            ProposalUpdateView::Unchanged
        } else {
            ProposalUpdateView::ChangedOngoing(proposal.ongoing)
        }
    } else {
        ProposalUpdateView::ChangedCompletely(proposal)
    }
}

/// Whether two optional markers are the same.
pub fn same_step(a: Option<StepID>, b: Option<StepID>) -> (same: bool)
    ensures
        same == (a == b),
{
    match (a, b) {
        (None, None) => true,
        (Some(x), Some(y)) => x.0 == y.0,
        _ => false,
    }
}

impl Proposal {
    /// A proposal that holds what this one holds.
    pub fn duplicate(&self) -> (copy: Proposal)
        ensures
            copy@ == self@,
    {
        Proposal {
            undoable_history: duplicate_plans(&self.undoable_history),
            ongoing: self.ongoing.duplicate(),
            redoable_history: duplicate_plans(&self.redoable_history),
        }
    }

    /// The state that this mirror knows, to be sent with a request for what
    /// changed since.
    pub fn as_known_state(&self) -> (known: ProposalKnownState)
        ensures
            known == known_state_of(self@),
    {
        let n = self.undoable_history.len();
        let last = if n == 0 {
            None
        } else {
            Some(self.undoable_history[n - 1].step_id)
        };
        let first = if self.redoable_history.len() == 0 {
            None
        } else {
            Some(self.redoable_history[0].step_id)
        };
        ProposalKnownState {
            known_last_undoable: last,
            known_ongoing: Some(self.ongoing.step_id),
            known_first_redoable: first,
        }
    }

    /// Puts `ongoing` in the place of the ongoing step.
    pub fn set_ongoing_step(&mut self, ongoing: Plan)
        ensures
            final(self)@ == with_ongoing(old(self)@, ongoing@),
    {
        self.ongoing = ongoing;
    }

    /// Applies an update that was computed for the state that this mirror
    /// knows.
    pub fn apply_update(&mut self, update: &ProposalUpdate)
        ensures
            final(self)@ == updated_proposal(old(self)@, update@),
    {
        match update {
            ProposalUpdate::Unchanged => {},
            ProposalUpdate::ChangedOngoing(ongoing) => {
                self.set_ongoing_step(ongoing.duplicate());
            },
            ProposalUpdate::ChangedCompletely(whole) => {
                *self = whole.duplicate();
            },
        }
    }

    /// The update that brings a mirror in the state `known` to this proposal.
    pub fn update_for(&self, known: &ProposalKnownState) -> (update: ProposalUpdate)
        ensures
            update@ == update_since(self@, *known),
    {
        let mine = self.as_known_state();
        if same_step(known.known_first_redoable, mine.known_first_redoable) && same_step(
            known.known_last_undoable,
            mine.known_last_undoable,
        ) {
            if same_step(known.known_ongoing, mine.known_ongoing) {
                ProposalUpdate::Unchanged
            } else {
                ProposalUpdate::ChangedOngoing(self.ongoing.duplicate())
            }
        } else {
            ProposalUpdate::ChangedCompletely(self.duplicate())
        }
    }
}

/// A mirror that takes the update computed for its known state holds the
/// proposal that the update was computed from, provided that the markers
/// tell the steps apart: wherever the mirror and the proposal agree on the
/// marker of the last step taken and on that of the first step taken back,
/// they hold the same steps taken and taken back.
pub proof fn law_proposal_delta(mirror: ProposalView, proposal: ProposalView)
    requires
        last_step(mirror.undoable_history) == last_step(proposal.undoable_history) && first_step(
            mirror.redoable_history,
        ) == first_step(proposal.redoable_history) ==> mirror.undoable_history
            == proposal.undoable_history && mirror.redoable_history == proposal.redoable_history,
        mirror.ongoing.step_id == proposal.ongoing.step_id ==> mirror.ongoing == proposal.ongoing,
    ensures
        updated_proposal(mirror, update_since(proposal, known_state_of(mirror))) == proposal,
{
}

} // verus!
