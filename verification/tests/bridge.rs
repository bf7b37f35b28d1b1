use browser_ui::actions::{Action, ActionGroup, ActionGroups};
use browser_ui::bridge::{BrowserUI, Outbox};
use browser_ui::history::{PlanHistory, PlanHistoryUpdate, VersionedGesture};
use browser_ui::ident::{BrowserUIID, GestureID, ProposalID, PrototypeID, RawID, StepID};
use browser_ui::keyed::KeyedList;
use browser_ui::mesh::{to_js_mesh, Mesh, Vertex};
use browser_ui::patch::{to_js_preview, Field, JsPreview, Patch, Segment, Value};
use browser_ui::preview::Preview;
use browser_ui::proposal::{Plan, Proposal, ProposalKnownState, ProposalUpdate};
use browser_ui::prototype::{LanePrototype, PathGeometry, Prototype, PrototypeKind, RoadPrototype};
use browser_ui::request::{EntityClass, Request};
use browser_ui::result::{PlanResultKnownState, PlanResultUpdate};
use browser_ui::view_state::ViewState;

fn me() -> BrowserUIID {
    BrowserUIID(RawID { instance_id: 0, type_id: 1, machine: 2, version: 0 })
}

fn triangle(at: f32) -> Mesh {
    Mesh::new(
        vec![
            Vertex { position: [at.to_bits(), 0.0f32.to_bits(), 0.0f32.to_bits()] },
            Vertex { position: [at.to_bits(), 1.0f32.to_bits(), 0.0f32.to_bits()] },
            Vertex { position: [(at + 1.0).to_bits(), 0.0f32.to_bits(), 0.0f32.to_bits()] },
        ],
        vec![0, 1, 2],
    )
}

fn path(at: f32) -> PathGeometry {
    PathGeometry {
        lane: triangle(at),
        marker_left: triangle(at + 100.0),
        marker_right: triangle(at + 200.0),
        switch_gap: triangle(at + 300.0),
    }
}

fn lane(id: u64, at: f32) -> Prototype {
    Prototype {
        id: PrototypeID(id),
        kind: PrototypeKind::Road(RoadPrototype::Lane(LanePrototype(path(at)))),
    }
}

fn plan(step: u64, bytes: &[u8]) -> Plan {
    Plan { step_id: StepID(step), gestures: bytes.to_vec() }
}

fn proposal(step: u64) -> Proposal {
    Proposal {
        undoable_history: vec![plan(step, b"first")],
        ongoing: plan(step + 1, b"second"),
        redoable_history: vec![],
    }
}

fn updates(list: Vec<(u64, ProposalUpdate)>) -> KeyedList<ProposalID, ProposalUpdate> {
    let mut keyed = KeyedList::new();
    for (id, update) in list {
        keyed.insert(ProposalID(id), update);
    }
    keyed
}

fn no_master_change() -> PlanHistoryUpdate {
    PlanHistoryUpdate { changed_gestures: vec![] }
}

fn members(fields: &[Field]) -> Vec<Segment> {
    fields.iter().map(|f| Segment::Field(*f)).collect()
}

fn car_requests() -> Vec<Request> {
    vec![
        Request::GetCarInstances { class: EntityClass::Lane, requester: me() },
        Request::GetCarInstances { class: EntityClass::SwitchLane, requester: me() },
    ]
}

fn plans_request(ui: &BrowserUI, proposals: Vec<(ProposalID, ProposalKnownState)>) -> Request {
    Request::GetAllPlans {
        requester: me(),
        master: ui.master_plan().as_known_state(),
        proposals,
    }
}

#[test]
fn new_bridge_seeds_its_mirrors_and_pushes_static_meshes() {
    let static_meshes = vec![("tree", triangle(1.0)), ("lamp", triangle(2.0))];
    let (ui, outbox) = BrowserUI::spawn(me(), &static_meshes);
    assert_eq!(
        outbox.requests,
        vec![
            Request::GetRenderInfo { class: EntityClass::Lane, requester: me() },
            Request::GetRenderInfo { class: EntityClass::SwitchLane, requester: me() },
            Request::GetRenderInfo { class: EntityClass::Building, requester: me() },
        ]
    );
    let at = |name: &'static str| {
        let mut path = members(&[Field::Planning, Field::Rendering, Field::StaticMeshes]);
        path.push(Segment::Name(name));
        path
    };
    assert_eq!(
        outbox.patches,
        vec![
            Patch::SetAt { path: at("tree"), value: Value::Mesh(to_js_mesh(&triangle(1.0))) },
            Patch::SetAt { path: at("lamp"), value: Value::Mesh(to_js_mesh(&triangle(2.0))) },
        ]
    );
    assert_eq!(ui.id(), me());
    assert!(!ui.is_awaiting_preview_update());
    assert_eq!(ui.master_plan(), &PlanHistory::new());
    assert_eq!(ui.result_preview().prototypes.len(), 0);
    assert_eq!(ui.actions_preview(), &ActionGroups::new());
    assert_eq!(ui.proposal(ProposalID(1)), None);
}

#[test]
fn new_bridge_without_static_meshes_sends_requests_only() {
    let (_, outbox) = BrowserUI::spawn(me(), &Vec::new());
    assert_eq!(outbox.requests.len(), 3);
    assert!(outbox.patches.is_empty());
}

#[test]
fn frame_without_open_proposal_asks_for_plans_and_instances() {
    let (mut ui, _) = BrowserUI::spawn(me(), &Vec::new());
    let outbox = ui.on_frame(None);
    let mut expected = vec![plans_request(&ui, vec![])];
    expected.extend(car_requests());
    assert_eq!(outbox.requests, expected);
    assert!(!ui.is_awaiting_preview_update());
    assert_eq!(
        outbox.patches,
        vec![Patch::SetAt {
            path: members(&[Field::Transport, Field::Rendering, Field::CarInstances]),
            value: Value::Instances(vec![]),
        }]
    );
}

#[test]
fn frame_asks_for_one_preview_at_a_time() {
    let (mut ui, _) = BrowserUI::spawn(me(), &Vec::new());
    let first = ui.on_frame(Some(ProposalID(5)));
    let mut expected = vec![
        plans_request(&ui, vec![]),
        Request::GetProposalPreviewUpdate {
            requester: me(),
            proposal_id: ProposalID(5),
            known_result: PlanResultKnownState { known_prototypes: vec![] },
        },
    ];
    expected.extend(car_requests());
    assert_eq!(first.requests, expected);
    assert!(ui.is_awaiting_preview_update());

    let second = ui.on_frame(Some(ProposalID(5)));
    let mut expected = vec![plans_request(&ui, vec![])];
    expected.extend(car_requests());
    assert_eq!(second.requests, expected);
    assert!(ui.is_awaiting_preview_update());

    let third = ui.on_frame(None);
    assert_eq!(third.requests.len(), 3);
    assert!(ui.is_awaiting_preview_update());
}

#[test]
fn preview_update_clears_the_flag_and_the_next_frame_asks_again() {
    let (mut ui, _) = BrowserUI::spawn(me(), &Vec::new());
    ui.on_frame(Some(ProposalID(5)));
    let update = PlanResultUpdate { new_prototypes: vec![lane(1, 0.0)], removed_prototypes: vec![] };
    ui.on_proposal_preview_update(ProposalID(5), &update, &ActionGroups::new());
    assert!(!ui.is_awaiting_preview_update());
    let outbox = ui.on_frame(Some(ProposalID(5)));
    assert_eq!(
        outbox.requests[1],
        Request::GetProposalPreviewUpdate {
            requester: me(),
            proposal_id: ProposalID(5),
            known_result: PlanResultKnownState { known_prototypes: vec![PrototypeID(1)] },
        }
    );
    assert!(ui.is_awaiting_preview_update());
}

#[test]
fn frame_sends_the_known_states_of_all_proposals() {
    let (mut ui, _) = BrowserUI::spawn(me(), &Vec::new());
    ui.on_plans_update(
        &no_master_change(),
        &updates(vec![
            (1, ProposalUpdate::ChangedCompletely(proposal(10))),
            (2, ProposalUpdate::ChangedCompletely(proposal(20))),
        ]),
    );
    let outbox = ui.on_frame(None);
    assert_eq!(
        outbox.requests[0],
        plans_request(
            &ui,
            vec![
                (ProposalID(1), proposal(10).as_known_state()),
                (ProposalID(2), proposal(20).as_known_state()),
            ]
        )
    );
}

#[test]
fn master_update_is_applied_and_shown_whole() {
    let (mut ui, _) = BrowserUI::spawn(me(), &Vec::new());
    let first = PlanHistoryUpdate {
        changed_gestures: vec![
            (GestureID(1), VersionedGesture { step: StepID(1), gesture: vec![1] }),
            (GestureID(2), VersionedGesture { step: StepID(2), gesture: vec![2] }),
        ],
    };
    ui.on_plans_update(&first, &updates(vec![]));
    let second = PlanHistoryUpdate {
        changed_gestures: vec![(
            GestureID(1),
            VersionedGesture { step: StepID(3), gesture: vec![1, 1] },
        )],
    };
    let patches = ui.on_plans_update(&second, &updates(vec![]));
    let mut expected = PlanHistory::new();
    expected.apply_update(&first);
    expected.apply_update(&second);
    assert_eq!(ui.master_plan(), &expected);
    assert_eq!(expected.gestures.len(), 2);
    assert_eq!(patches.len(), 1);
    match &patches[0] {
        Patch::SetAt { path, value: Value::MasterPlan(shown) } => {
            assert_eq!(path, &members(&[Field::Planning, Field::Master]));
            assert_eq!(shown, &expected);
        }
        other => panic!("unexpected patch {:?}", other),
    }
    let frame = ui.on_frame(None);
    assert_eq!(frame.requests[0], plans_request(&ui, vec![]));
    match &frame.requests[0] {
        Request::GetAllPlans { master, .. } => {
            assert_eq!(master.known_gesture_versions.get(&GestureID(1)), Some(&StepID(3)));
            assert_eq!(master.known_gesture_versions.get(&GestureID(2)), Some(&StepID(2)));
        }
        other => panic!("unexpected request {:?}", other),
    }
}

#[test]
fn empty_master_update_shows_nothing() {
    let (mut ui, _) = BrowserUI::spawn(me(), &Vec::new());
    let patches = ui.on_plans_update(&no_master_change(), &updates(vec![]));
    assert!(patches.is_empty());
    assert_eq!(ui.master_plan(), &PlanHistory::new());
}

#[test]
fn proposal_is_first_seen_through_a_full_replacement() {
    let (mut ui, _) = BrowserUI::spawn(me(), &Vec::new());
    let batch = updates(vec![(7, ProposalUpdate::ChangedCompletely(proposal(1)))]);
    assert!(ui.accepts_plans_update(&batch));
    let patches = ui.on_plans_update(&no_master_change(), &batch);
    assert_eq!(ui.proposal(ProposalID(7)), Some(&proposal(1)));
    let mut at = members(&[Field::Planning, Field::Proposals]);
    at.push(Segment::Proposal(ProposalID(7)));
    assert_eq!(patches, vec![Patch::SetAt { path: at, value: Value::Proposal(proposal(1)) }]);
}

#[test]
fn changed_ongoing_step_replaces_the_ongoing_step_only() {
    let (mut ui, _) = BrowserUI::spawn(me(), &Vec::new());
    ui.on_plans_update(
        &no_master_change(),
        &updates(vec![
            (7, ProposalUpdate::ChangedCompletely(proposal(1))),
            (8, ProposalUpdate::ChangedCompletely(proposal(5))),
        ]),
    );
    let batch = updates(vec![
        (8, ProposalUpdate::Unchanged),
        (7, ProposalUpdate::ChangedOngoing(plan(9, b"edited"))),
    ]);
    assert!(ui.accepts_plans_update(&batch));
    let patches = ui.on_plans_update(&no_master_change(), &batch);
    let mut expected = proposal(1);
    expected.set_ongoing_step(plan(9, b"edited"));
    assert_eq!(ui.proposal(ProposalID(7)), Some(&expected));
    assert_eq!(ui.proposal(ProposalID(8)), Some(&proposal(5)));
    let mut at = members(&[Field::Planning, Field::Proposals]);
    at.push(Segment::Proposal(ProposalID(7)));
    at.push(Segment::Field(Field::Ongoing));
    assert_eq!(patches, vec![Patch::SetAt { path: at, value: Value::Step(plan(9, b"edited")) }]);
}

#[test]
fn changed_ongoing_step_of_an_unseen_proposal_is_not_accepted() {
    let (mut ui, _) = BrowserUI::spawn(me(), &Vec::new());
    let batch = updates(vec![
        (1, ProposalUpdate::ChangedCompletely(proposal(1))),
        (7, ProposalUpdate::ChangedOngoing(plan(9, b"edited"))),
    ]);
    assert!(!ui.accepts_plans_update(&batch));
    ui.on_plans_update(
        &no_master_change(),
        &updates(vec![(7, ProposalUpdate::ChangedCompletely(proposal(1)))]),
    );
    assert!(ui.accepts_plans_update(&batch));
    assert!(ui.accepts_plans_update(&updates(vec![])));
}

#[test]
fn preview_update_shows_one_batch_of_five_meshes() {
    let (mut ui, _) = BrowserUI::spawn(me(), &Vec::new());
    let update = PlanResultUpdate {
        new_prototypes: vec![lane(1, 0.0), lane(2, 10.0)],
        removed_prototypes: vec![],
    };
    let actions = ActionGroups(vec![
        ActionGroup(vec![Action::Construct(PrototypeID(1))]),
        ActionGroup(vec![Action::Destruct(PrototypeID(2))]),
    ]);
    let patches = ui.on_proposal_preview_update(ProposalID(5), &update, &actions);
    let mut markers = path(0.0).marker_left;
    markers.add_assign(&path(0.0).marker_right);
    assert_eq!(
        patches,
        vec![Patch::SetAt {
            path: members(&[Field::Planning, Field::Rendering, Field::CurrentPreview]),
            value: Value::Preview(JsPreview {
                zones: to_js_mesh(&Mesh::empty()),
                lanes_to_construct: to_js_mesh(&path(0.0).lane),
                lanes_to_construct_marker: to_js_mesh(&markers),
                lanes_to_destruct: to_js_mesh(&path(10.0).lane),
                switch_lanes_to_construct_marker_gap: to_js_mesh(&Mesh::empty()),
            }),
        }]
    );
    assert_eq!(ui.actions_preview(), &actions);
    assert_eq!(ui.result_preview().prototypes.len(), 2);
}

#[test]
fn preview_is_rebuilt_from_nothing_each_time() {
    let (mut ui, _) = BrowserUI::spawn(me(), &Vec::new());
    let build = ActionGroups(vec![ActionGroup(vec![Action::Construct(PrototypeID(1))])]);
    let update = PlanResultUpdate { new_prototypes: vec![lane(1, 0.0)], removed_prototypes: vec![] };
    let mut view = ViewState::new();
    view.apply_all(ui.on_proposal_preview_update(ProposalID(5), &update, &build));
    let nothing = PlanResultUpdate { new_prototypes: vec![], removed_prototypes: vec![] };
    view.apply_all(ui.on_proposal_preview_update(ProposalID(5), &nothing, &ActionGroups::new()));
    assert_eq!(view.len(), 1);
    assert_eq!(
        view.get(&members(&[Field::Planning, Field::Rendering, Field::CurrentPreview])),
        Some(&Value::Preview(to_js_preview(&Preview::empty())))
    );
    assert_eq!(ui.result_preview().prototypes.len(), 1);
}

#[test]
fn preview_update_removes_prototypes_that_are_gone() {
    let (mut ui, _) = BrowserUI::spawn(me(), &Vec::new());
    let build = ActionGroups(vec![ActionGroup(vec![
        Action::Construct(PrototypeID(1)),
        Action::Construct(PrototypeID(2)),
    ])]);
    let first = PlanResultUpdate {
        new_prototypes: vec![lane(1, 0.0), lane(2, 10.0)],
        removed_prototypes: vec![],
    };
    ui.on_proposal_preview_update(ProposalID(5), &first, &build);
    let second = PlanResultUpdate { new_prototypes: vec![], removed_prototypes: vec![PrototypeID(1)] };
    let patches = ui.on_proposal_preview_update(ProposalID(5), &second, &build);
    match &patches[0] {
        Patch::SetAt { value: Value::Preview(shown), .. } => {
            assert_eq!(shown.lanes_to_construct, to_js_mesh(&path(10.0).lane));
        }
        other => panic!("unexpected patch {:?}", other),
    }
}

#[test]
fn events_of_the_tracker_leave_the_mirrors_alone() {
    let (mut ui, _) = BrowserUI::spawn(me(), &Vec::new());
    ui.on_plans_update(
        &no_master_change(),
        &updates(vec![(7, ProposalUpdate::ChangedCompletely(proposal(1)))]),
    );
    let lane_id = RawID { instance_id: 4, type_id: 2, machine: 0, version: 0 };
    ui.on_lane_constructed(lane_id, &path(0.0), false, false);
    ui.on_lane_destructed(lane_id, false, false);
    assert_eq!(ui.proposal(ProposalID(7)), Some(&proposal(1)));
    assert!(!ui.is_awaiting_preview_update());
    assert_eq!(ui.car_instances(lane_id), None);
}

#[test]
fn outbox_of_a_frame_is_one_batch() {
    let (mut ui, _) = BrowserUI::spawn(me(), &Vec::new());
    let Outbox { requests, patches } = ui.on_frame(None);
    assert_eq!(requests.len(), 3);
    assert_eq!(patches.len(), 1);
}
