use vstd::prelude::*;
use crate::actions::{Action, ActionGroups};
use crate::aggregate::{
    aggregate_patch, buffer_view, car_instances_patch, store_report, BuffersView,
};
use crate::history::{
    known_versions_of, with_gestures, HistoryView, PlanHistory, PlanHistoryUpdate,
};
use crate::ident::{BrowserUIID, BuildingID, ProposalID, RawID};
use crate::keyed::{has_key, lemma_mapped_distinct, lookup, mapped, upsert, KeyedList};
use crate::mesh::{Instance, Mesh, MeshView};
use crate::mirror::{
    accepted, accepts, apply_proposal_updates, master_patch, master_plan_patch,
    proposal_known_state, proposal_patches, proposal_update_view, proposal_view,
    with_proposal_updates, ProposalUpdatesView, ProposalsView,
};
use crate::patch::{
    js_preview_of, member_path, members, patches_view, set_mesh_at, to_js_preview, Field, Patch,
    PatchView, Segment, SegmentView, Value, ValueView,
};
use crate::permanent::{
    building_constructed, building_constructed_patches, building_destructed,
    building_destructed_patches, lane_constructed, lane_constructed_patches, lane_destructed,
    lane_destructed_patches, BuildingMesh,
};
use crate::preview::{preview_of, Preview};
use crate::proposal::{Proposal, ProposalKnownState, ProposalUpdate};
use crate::prototype::PathGeometry;
use crate::request::{requests_view, EntityClass, Request, RequestView};
use crate::result::{
    known_state_of, updated_result, PlanResult, PlanResultUpdate, PlanResultUpdateView,
    ResultView,
};

verus! {

/// The bridge between the simulation and the presentation surface. It
/// mirrors what the simulation reports and says how the presentation surface
/// is to be changed. It sends and draws nothing itself: every event handler
/// returns the requests to be sent and the commands to be carried out.
#[derive(Debug)]
pub struct BrowserUI {
    id: BrowserUIID,
    car_instance_buffers: KeyedList<RawID, Vec<Instance>>,
    master_plan: PlanHistory,
    proposals: KeyedList<ProposalID, Proposal>,
    result_preview: PlanResult,
    actions_preview: ActionGroups,
    awaiting_preview_update: bool,
}

/// What the bridge holds.
pub struct BrowserUIView {
    /// The address of the bridge.
    pub id: BrowserUIID,
    /// The latest instance report of every source.
    pub car_instance_buffers: BuffersView,
    /// The mirror of the master plan.
    pub master_plan: HistoryView,
    /// The mirrors of the proposals.
    pub proposals: ProposalsView,
    /// The mirror of the result of the proposal that is previewed.
    pub result_preview: ResultView,
    /// The actions of the proposal that is previewed.
    pub actions_preview: Seq<Seq<Action>>,
    /// Whether a request for a preview is under way.
    pub awaiting_preview_update: bool,
}

impl View for BrowserUI {
    type V = BrowserUIView;

    closed spec fn view(&self) -> BrowserUIView {
        BrowserUIView {
            id: self.id,
            car_instance_buffers: mapped(self.car_instance_buffers.entries(), buffer_view()),
            master_plan: self.master_plan@,
            proposals: mapped(self.proposals.entries(), proposal_view()),
            result_preview: self.result_preview@,
            actions_preview: self.actions_preview@,
            awaiting_preview_update: self.awaiting_preview_update,
        }
    }
}

/// What an event handler hands back: requests to send into the simulation,
/// and commands for the presentation surface, which form one batch.
#[derive(Debug, PartialEq, Eq)]
pub struct Outbox {
    pub requests: Vec<Request>,
    pub patches: Vec<Patch>,
}

/// What an outbox holds.
pub struct OutboxView {
    pub requests: Seq<RequestView>,
    pub patches: Seq<PatchView>,
}

impl View for Outbox {
    type V = OutboxView;

    open spec fn view(&self) -> OutboxView {
        OutboxView {
            requests: requests_view(self.requests@),
            patches: patches_view(self.patches@),
        }
    }
}

/// What named meshes hold.
pub open spec fn named_meshes_view(meshes: Seq<(&'static str, Mesh)>) -> Seq<(Seq<char>, MeshView)> {
    meshes.map_values(|m: (&'static str, Mesh)| (m.0@, m.1@))
}

/// The bridge that has seen nothing yet.
pub open spec fn initial_state(id: BrowserUIID) -> BrowserUIView {
    BrowserUIView {
        id,
        car_instance_buffers: Seq::empty(),
        master_plan: Seq::empty(),
        proposals: Seq::empty(),
        result_preview: Seq::empty(),
        actions_preview: Seq::empty(),
        awaiting_preview_update: false,
    }
}

/// The command that stores a mesh that never changes under its name.
pub open spec fn static_mesh_patch(name: Seq<char>, mesh: MeshView) -> PatchView {
    set_mesh_at(
        member_path(Field::Planning, Field::Rendering, Field::StaticMeshes),
        SegmentView::Name(name),
        mesh,
    )
}

/// What a new bridge sends: the meshes that never change, and a request to
/// every lane, switch lane and building for what is drawn of it.
pub open spec fn spawn_outbox(id: BrowserUIID, meshes: Seq<(Seq<char>, MeshView)>) -> OutboxView {
    OutboxView {
        requests: seq![
            RequestView::GetRenderInfo { class: EntityClass::Lane, requester: id },
            RequestView::GetRenderInfo { class: EntityClass::SwitchLane, requester: id },
            RequestView::GetRenderInfo { class: EntityClass::Building, requester: id },
        ],
        patches: meshes.map_values(|m: (Seq<char>, MeshView)| static_mesh_patch(m.0, m.1)),
    }
}

/// Whether a frame asks for a preview: a proposal is open and no request for
/// a preview is under way.
pub open spec fn asks_for_preview(state: BrowserUIView, current_proposal: Option<ProposalID>) -> bool {
    current_proposal is Some && !state.awaiting_preview_update
}

/// The requests of a frame: for what changed in the plans; for the preview of
/// the open proposal, where one is called for; and for the instances of
/// every lane and switch lane.
pub open spec fn frame_requests(
    state: BrowserUIView,
    current_proposal: Option<ProposalID>,
) -> Seq<RequestView> {
    let plans = seq![
        RequestView::GetAllPlans {
            requester: state.id,
            master: known_versions_of(state.master_plan),
            proposals: mapped(state.proposals, proposal_known_state()),
        },
    ];
    let preview = if asks_for_preview(state, current_proposal) {
        seq![
            RequestView::GetProposalPreviewUpdate {
                requester: state.id,
                proposal_id: current_proposal->0,
                known_result: known_state_of(state.result_preview),
            },
        ]
    } else {
        Seq::empty()
    };
    let instances = seq![
        RequestView::GetCarInstances { class: EntityClass::Lane, requester: state.id },
        RequestView::GetCarInstances { class: EntityClass::SwitchLane, requester: state.id },
    ];
    plans + preview + instances
}

/// What a frame sends: its requests, and the command that replaces the
/// instances drawn by those of the reports held when the frame begins.
pub open spec fn frame_outbox(
    state: BrowserUIView,
    current_proposal: Option<ProposalID>,
) -> OutboxView {
    OutboxView {
        requests: frame_requests(state, current_proposal),
        patches: seq![car_instances_patch(state.car_instance_buffers)],
    }
}

/// The bridge after a frame: a request for a preview is under way where one
/// was before or where the frame sent one.
pub open spec fn after_frame(
    state: BrowserUIView,
    current_proposal: Option<ProposalID>,
) -> BrowserUIView {
    BrowserUIView {
        awaiting_preview_update: state.awaiting_preview_update || current_proposal is Some,
        ..state
    }
}

/// The bridge after an update of the plans.
pub open spec fn after_plans_update(
    state: BrowserUIView,
    master_update: HistoryView,
    proposal_updates: ProposalUpdatesView,
) -> BrowserUIView {
    BrowserUIView {
        master_plan: with_gestures(state.master_plan, master_update),
        proposals: with_proposal_updates(state.proposals, proposal_updates),
        ..state
    }
}

/// The commands that show an update of the plans: the whole master plan
/// where anything of it changed, then what changed of the proposals.
pub open spec fn plans_update_patches(
    state: BrowserUIView,
    master_update: HistoryView,
    proposal_updates: ProposalUpdatesView,
) -> Seq<PatchView> {
    let master = if master_update.len() == 0 {
        Seq::empty()
    } else {
        seq![master_patch(with_gestures(state.master_plan, master_update))]
    };
    master + proposal_patches(proposal_updates)
}

/// The bridge after an update of the preview: the result has taken the
/// update, the actions are the new ones, and no request is under way.
pub open spec fn after_preview_update(
    state: BrowserUIView,
    result_update: PlanResultUpdateView,
    actions: Seq<Seq<Action>>,
) -> BrowserUIView {
    BrowserUIView {
        result_preview: updated_result(state.result_preview, result_update),
        actions_preview: actions,
        awaiting_preview_update: false,
        ..state
    }
}

/// The command that replaces the preview shown, whole.
pub open spec fn preview_patch(result: ResultView, actions: Seq<Seq<Action>>) -> PatchView {
    PatchView::SetAt {
        path: member_path(Field::Planning, Field::Rendering, Field::CurrentPreview),
        value: ValueView::Preview(js_preview_of(preview_of(result, actions))),
    }
}

impl BrowserUI {
    /// A bridge that has seen nothing yet, with what it sends at once: the
    /// meshes that never change, each under its name, and the requests that
    /// fill its mirrors before the first frame.
    pub fn spawn(id: BrowserUIID, static_meshes: &Vec<(&'static str, Mesh)>) -> (made: (
        BrowserUI,
        Outbox,
    ))
        ensures
            made.0@ == initial_state(id),
            made.1@ == spawn_outbox(id, named_meshes_view(static_meshes@)),
    {
        let mut patches: Vec<Patch> = Vec::new();
        let mut i: usize = 0;
        while i < static_meshes.len()
            invariant
                i <= static_meshes.len(),
                patches@.len() == i,
                forall|j: int|
                    0 <= j < i ==> (#[trigger] patches@[j])@ == static_mesh_patch(
                        static_meshes@[j].0@,
                        static_meshes@[j].1@,
                    ),
            decreases static_meshes.len() - i,
        {
            let name: &'static str = static_meshes[i].0;
            patches.push(
                Patch::set_mesh(
                    Field::Planning,
                    Field::StaticMeshes,
                    Segment::Name(name),
                    &static_meshes[i].1,
                ),
            );
            i = i + 1;
        }
        let mut requests: Vec<Request> = Vec::new();
        requests.push(Request::GetRenderInfo { class: EntityClass::Lane, requester: id });
        requests.push(Request::GetRenderInfo { class: EntityClass::SwitchLane, requester: id });
        requests.push(Request::GetRenderInfo { class: EntityClass::Building, requester: id });
        let outbox = Outbox { requests, patches };
        let ui = BrowserUI {
            id,
            car_instance_buffers: KeyedList::new(),
            master_plan: PlanHistory::new(),
            proposals: KeyedList::new(),
            result_preview: PlanResult::new(),
            actions_preview: ActionGroups::new(),
            awaiting_preview_update: false,
        };
        proof {
            let expected = spawn_outbox(id, named_meshes_view(static_meshes@));
            assert(outbox@.requests =~= expected.requests);
            assert(outbox@.patches =~= expected.patches);
            assert(ui@.car_instance_buffers =~= Seq::empty());
            assert(ui@.proposals =~= Seq::empty());
        }
        (ui, outbox)
    }

    /// One frame. `current_proposal` is the proposal that is open on the
    /// presentation surface while planning is going on there, and nothing
    /// otherwise.
    pub fn on_frame(&mut self, current_proposal: Option<ProposalID>) -> (outbox: Outbox)
        ensures
            final(self)@ == after_frame(old(self)@, current_proposal),
            outbox@ == frame_outbox(old(self)@, current_proposal),
    {
        let mut requests: Vec<Request> = Vec::new();
        let mut known: Vec<(ProposalID, ProposalKnownState)> = Vec::new();
        let n = self.proposals.len();
        let mut i: usize = 0;
        while i < n
            invariant
                i <= n,
                n == self.proposals.entries().len(),
                known@.len() == i,
                forall|j: int|
                    0 <= j < i ==> #[trigger] known@[j] == (
                        self.proposals.entries()[j].0,
                        crate::proposal::known_state_of(self.proposals.entries()[j].1@),
                    ),
            decreases n - i,
        {
            known.push((self.proposals.key_at(i), self.proposals.value_at(i).as_known_state()));
            i = i + 1;
        }
        assert(known@ =~= mapped(old(self)@.proposals, proposal_known_state()));
        requests.push(
            Request::GetAllPlans {
                requester: self.id,
                master: self.master_plan.as_known_state(),
                proposals: known,
            },
        );
        match current_proposal {
            Some(proposal_id) => {
                if !self.awaiting_preview_update {
                    requests.push(
                        Request::GetProposalPreviewUpdate {
                            requester: self.id,
                            proposal_id,
                            known_result: self.result_preview.as_known_state(),
                        },
                    );
                    self.awaiting_preview_update = true;
                }
            },
            None => {},
        }
        requests.push(Request::GetCarInstances { class: EntityClass::Lane, requester: self.id });
        requests.push(
            Request::GetCarInstances { class: EntityClass::SwitchLane, requester: self.id },
        );
        let mut patches: Vec<Patch> = Vec::new();
        patches.push(aggregate_patch(&self.car_instance_buffers));
        let outbox = Outbox { requests, patches };
        proof {
            let expected = frame_outbox(old(self)@, current_proposal);
            assert(outbox@.requests =~= expected.requests);
            assert(outbox@.patches =~= expected.patches);
        }
        outbox
    }

    /// Whether an update of the plans can be taken: an update of the ongoing
    /// step alone needs its proposal to be mirrored.
    pub fn accepts_plans_update(
        &self,
        proposal_updates: &KeyedList<ProposalID, ProposalUpdate>,
    ) -> (ok: bool)
        ensures
            ok == accepted(self@.proposals, mapped(proposal_updates.entries(), proposal_update_view())),
    {
        accepts(&self.proposals, proposal_updates)
    }

    /// Takes what changed in the master plan and in the proposals.
    pub fn on_plans_update(
        &mut self,
        master_update: &PlanHistoryUpdate,
        proposal_updates: &KeyedList<ProposalID, ProposalUpdate>,
    ) -> (patches: Vec<Patch>)
        requires
            accepted(
                old(self)@.proposals,
                mapped(proposal_updates.entries(), proposal_update_view()),
            ),
        ensures
            final(self)@ == after_plans_update(
                old(self)@,
                master_update@,
                mapped(proposal_updates.entries(), proposal_update_view()),
            ),
            patches_view(patches@) == plans_update_patches(
                old(self)@,
                master_update@,
                mapped(proposal_updates.entries(), proposal_update_view()),
            ),
    {
        let mut patches: Vec<Patch> = Vec::new();
        if !master_update.is_empty() {
            self.master_plan.apply_update(master_update);
            patches.push(master_plan_patch(&self.master_plan));
        }
        assert(self.master_plan@ == with_gestures(old(self)@.master_plan, master_update@));
        let ghost shown = patches_view(patches@);
        assert(shown =~= if master_update@.len() == 0 {
            Seq::empty()
        } else {
            seq![master_patch(with_gestures(old(self)@.master_plan, master_update@))]
        });
        apply_proposal_updates(&mut self.proposals, proposal_updates, &mut patches);
        patches
    }

    /// Takes the preview of the open proposal: what changed in its result,
    /// and its actions, which replace the actions held. The command handed
    /// back replaces the preview shown, whole.
    pub fn on_proposal_preview_update(
        &mut self,
        _proposal_id: ProposalID,
        result_update: &PlanResultUpdate,
        actions: &ActionGroups,
    ) -> (patches: Vec<Patch>)
        ensures
            final(self)@ == after_preview_update(old(self)@, result_update@, actions@),
            patches_view(patches@) == seq![
                preview_patch(final(self)@.result_preview, actions@),
            ],
    {
        self.result_preview.apply_update(result_update);
        self.actions_preview = actions.duplicate();
        self.awaiting_preview_update = false;
        let preview = Preview::reconcile(&self.result_preview, &self.actions_preview);
        let mut patches: Vec<Patch> = Vec::new();
        patches.push(
            Patch::SetAt {
                path: members(Field::Planning, Field::Rendering, Field::CurrentPreview),
                value: Value::Preview(to_js_preview(&preview)),
            },
        );
        assert(patches_view(patches@) =~= seq![preview_patch(self@.result_preview, actions@)]);
        patches
    }

    /// A lane was built: shows it.
    pub fn on_lane_constructed(
        &mut self,
        id: RawID,
        lane_path: &PathGeometry,
        is_switch: bool,
        on_intersection: bool,
    ) -> (patches: Vec<Patch>)
        ensures
            final(self)@ == old(self)@,
            patches_view(patches@) == lane_constructed(id, lane_path@, is_switch, on_intersection),
    {
        lane_constructed_patches(id, lane_path, is_switch, on_intersection)
    }

    /// A lane was taken away: takes away what was shown of it. The flags
    /// have to be those with which the lane was shown.
    pub fn on_lane_destructed(&mut self, id: RawID, is_switch: bool, on_intersection: bool) -> (patches:
        Vec<Patch>)
        ensures
            final(self)@ == old(self)@,
            patches_view(patches@) == lane_destructed(id, is_switch, on_intersection),
    {
        lane_destructed_patches(id, is_switch, on_intersection)
    }

    /// A source reports its instances: they replace those that it reported
    /// before.
    pub fn on_car_instances(&mut self, from_lane: RawID, instances: &Vec<Instance>)
        ensures
            final(self)@ == (BrowserUIView {
                car_instance_buffers: upsert(
                    old(self)@.car_instance_buffers,
                    from_lane,
                    instances@,
                ),
                ..old(self)@
            }),
    {
        store_report(&mut self.car_instance_buffers, from_lane, instances);
    }

    /// A building was built: shows it.
    pub fn on_building_constructed(&mut self, id: BuildingID, meshes: &BuildingMesh) -> (patches:
        Vec<Patch>)
        ensures
            final(self)@ == old(self)@,
            patches_view(patches@) == building_constructed(id, meshes@),
    {
        building_constructed_patches(id, meshes)
    }

    /// A building was taken away: takes away what was shown of it.
    pub fn on_building_destructed(&mut self, id: BuildingID) -> (patches: Vec<Patch>)
        ensures
            final(self)@ == old(self)@,
            patches_view(patches@) == building_destructed(id),
    {
        building_destructed_patches(id)
    }

    /// The address of the bridge.
    pub fn id(&self) -> (id: BrowserUIID)
        ensures
            id == self@.id,
    {
        self.id
    }

    /// Whether a request for a preview is under way.
    pub fn is_awaiting_preview_update(&self) -> (awaiting: bool)
        ensures
            awaiting == self@.awaiting_preview_update,
    {
        self.awaiting_preview_update
    }

    /// The mirror of the master plan.
    pub fn master_plan(&self) -> (plan: &PlanHistory)
        ensures
            plan@ == self@.master_plan,
    {
        &self.master_plan
    }

    /// The mirror of the result of the proposal that is previewed.
    pub fn result_preview(&self) -> (result: &PlanResult)
        ensures
            result@ == self@.result_preview,
    {
        &self.result_preview
    }

    /// The actions of the proposal that is previewed.
    pub fn actions_preview(&self) -> (actions: &ActionGroups)
        ensures
            actions@ == self@.actions_preview,
    {
        &self.actions_preview
    }

    /// The mirror of the proposal `id`, where it is mirrored.
    pub fn proposal(&self, id: ProposalID) -> (found: Option<&Proposal>)
        ensures
            found is Some <==> has_key(self@.proposals, id),
            found is Some ==> Some(found->0@) == lookup(self@.proposals, id),
    {
        proof {
            use_type_invariant(&self.proposals);
            lemma_mapped_distinct(self.proposals.entries(), proposal_view());
        }
        self.proposals.get(&id)
    }

    /// The instances that the source `source` reported last, where it has
    /// reported.
    pub fn car_instances(&self, source: RawID) -> (found: Option<&Vec<Instance>>)
        ensures
            found is Some <==> has_key(self@.car_instance_buffers, source),
            found is Some ==> Some(found->0@) == lookup(self@.car_instance_buffers, source),
    {
        proof {
            use_type_invariant(&self.car_instance_buffers);
            lemma_mapped_distinct(self.car_instance_buffers.entries(), buffer_view());
        }
        self.car_instance_buffers.get(&source)
    }
}

} // verus!
