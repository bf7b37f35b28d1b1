use vstd::prelude::*;
use crate::history::{KnownVersions, PlanHistoryKnownState};
use crate::ident::{BrowserUIID, ProposalID};
use crate::proposal::ProposalKnownState;
use crate::result::PlanResultKnownState;

verus! {

/// The classes of entity that the bridge asks for what is drawn of them.
#[derive(Clone, Copy, Debug, PartialEq, Eq, Hash)]
pub enum EntityClass {
    Lane,
    SwitchLane,
    Building,
}

/// A request that the bridge sends into the simulation. None of them is
/// waited for: the reply, if one comes, arrives later as an event of its own.
#[derive(Debug, PartialEq, Eq)]
pub enum Request {
    /// To every entity of a class: report what is drawn of you.
    GetRenderInfo { class: EntityClass, requester: BrowserUIID },
    /// To every entity of a class: report the instances that you hold.
    GetCarInstances { class: EntityClass, requester: BrowserUIID },
    /// To the plan authority: report what changed in the master plan and in
    /// the proposals since the states given.
    GetAllPlans {
        requester: BrowserUIID,
        master: PlanHistoryKnownState,
        proposals: Vec<(ProposalID, ProposalKnownState)>,
    },
    /// To the plan authority: report what changed in the result of a
    /// proposal since the state given, and its actions.
    GetProposalPreviewUpdate {
        requester: BrowserUIID,
        proposal_id: ProposalID,
        known_result: PlanResultKnownState,
    },
}

/// What a request holds.
pub enum RequestView {
    GetRenderInfo { class: EntityClass, requester: BrowserUIID },
    GetCarInstances { class: EntityClass, requester: BrowserUIID },
    GetAllPlans {
        requester: BrowserUIID,
        master: KnownVersions,
        proposals: Seq<(ProposalID, ProposalKnownState)>,
    },
    GetProposalPreviewUpdate {
        requester: BrowserUIID,
        proposal_id: ProposalID,
        known_result: Seq<crate::ident::PrototypeID>,
    },
}

impl View for Request {
    type V = RequestView;

    open spec fn view(&self) -> RequestView {
        match *self {
            Request::GetRenderInfo { class, requester } => RequestView::GetRenderInfo {
                class,
                requester,
            },
            Request::GetCarInstances { class, requester } => RequestView::GetCarInstances {
                class,
                requester,
            },
            Request::GetAllPlans { requester, master, proposals } => RequestView::GetAllPlans {
                requester,
                master: master@,
                proposals: proposals@,
            },
            Request::GetProposalPreviewUpdate {
                requester,
                proposal_id,
                known_result,
            } => RequestView::GetProposalPreviewUpdate {
                requester,
                proposal_id,
                known_result: known_result@,
            },
        }
    }
}

/// What a sequence of requests holds, in order.
pub open spec fn requests_view(requests: Seq<Request>) -> Seq<RequestView> {
    requests.map_values(|r: Request| r@)
}

} // verus!
