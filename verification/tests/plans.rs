use browser_ui::history::{PlanHistory, PlanHistoryUpdate, VersionedGesture};
use browser_ui::ident::{GestureID, PrototypeID, StepID};
use browser_ui::keyed::KeyedList;
use browser_ui::mesh::Mesh;
use browser_ui::proposal::{Plan, Proposal, ProposalKnownState, ProposalUpdate};
use browser_ui::prototype::{LotOccupancy, LotPrototype, Prototype, PrototypeKind};
use browser_ui::result::{PlanResult, PlanResultKnownState, PlanResultUpdate};

fn gesture(step: u64, bytes: &[u8]) -> VersionedGesture {
    VersionedGesture { step: StepID(step), gesture: bytes.to_vec() }
}

fn replay(edits: &[(u64, VersionedGesture)]) -> PlanHistory {
    let mut history = PlanHistory::new();
    for (id, gesture) in edits {
        history.gestures.insert(GestureID(*id), gesture.duplicate());
    }
    history
}

fn edits() -> Vec<(u64, VersionedGesture)> {
    vec![
        (1, gesture(10, b"road a")),
        (2, gesture(11, b"zone b")),
        (1, gesture(12, b"road a, longer")),
        (3, gesture(13, b"road c")),
        (2, gesture(14, b"zone b, wider")),
    ]
}

fn plan(step: u64, bytes: &[u8]) -> Plan {
    Plan { step_id: StepID(step), gestures: bytes.to_vec() }
}

fn lot(id: u64) -> Prototype {
    Prototype {
        id: PrototypeID(id),
        kind: PrototypeKind::Lot(LotPrototype {
            footprint: Mesh::empty(),
            occupancy: LotOccupancy::Vacant,
        }),
    }
}

#[test]
fn known_state_of_history_lists_latest_steps() {
    let history = replay(&edits());
    let known = history.as_known_state();
    assert_eq!(known.known_gesture_versions.len(), 3);
    assert_eq!(known.known_gesture_versions.get(&GestureID(1)), Some(&StepID(12)));
    assert_eq!(known.known_gesture_versions.get(&GestureID(2)), Some(&StepID(14)));
    assert_eq!(known.known_gesture_versions.get(&GestureID(3)), Some(&StepID(13)));
    assert_eq!(known.known_gesture_versions.get(&GestureID(4)), None);
}

#[test]
fn history_delta_holds_only_what_changed() {
    let all = edits();
    let mirror = replay(&all[..2]);
    let authority = replay(&all[..4]);
    let update = authority.update_for(&mirror.as_known_state());
    assert_eq!(
        update.changed_gestures,
        vec![
            (GestureID(1), gesture(12, b"road a, longer")),
            (GestureID(3), gesture(13, b"road c")),
        ]
    );
    assert!(!update.is_empty());
}

#[test]
fn history_delta_for_current_state_is_empty() {
    let authority = replay(&edits());
    let update = authority.update_for(&authority.as_known_state());
    assert!(update.is_empty());
    assert_eq!(update, PlanHistoryUpdate { changed_gestures: vec![] });
}

#[test]
fn applying_history_delta_equals_replaying_all_edits() {
    let all = edits();
    for seen in 0..=all.len() {
        for now in seen..=all.len() {
            let mut mirror = replay(&all[..seen]);
            let authority = replay(&all[..now]);
            let update = authority.update_for(&mirror.as_known_state());
            mirror.apply_update(&update);
            assert_eq!(mirror, authority, "seen {} now {}", seen, now);
        }
    }
}

#[test]
fn applying_history_delta_twice_changes_nothing_more() {
    let all = edits();
    let mut mirror = replay(&all[..1]);
    let update = replay(&all).update_for(&mirror.as_known_state());
    mirror.apply_update(&update);
    let once = replay(&all);
    assert_eq!(mirror, once);
    mirror.apply_update(&update);
    assert_eq!(mirror, once);
}

#[test]
fn proposal_known_state_names_the_ends_of_its_histories() {
    let proposal = Proposal {
        undoable_history: vec![plan(1, b"a"), plan(2, b"b")],
        ongoing: plan(3, b"c"),
        redoable_history: vec![plan(4, b"d"), plan(5, b"e")],
    };
    assert_eq!(
        proposal.as_known_state(),
        ProposalKnownState {
            known_last_undoable: Some(StepID(2)),
            known_ongoing: Some(StepID(3)),
            known_first_redoable: Some(StepID(4)),
        }
    );
    let fresh = Proposal {
        undoable_history: vec![],
        ongoing: plan(1, b""),
        redoable_history: vec![],
    };
    assert_eq!(
        fresh.as_known_state(),
        ProposalKnownState {
            known_last_undoable: None,
            known_ongoing: Some(StepID(1)),
            known_first_redoable: None,
        }
    );
}

#[test]
fn proposal_update_is_as_small_as_the_change() {
    let mirror = Proposal {
        undoable_history: vec![plan(1, b"a")],
        ongoing: plan(2, b"b"),
        redoable_history: vec![],
    };
    assert_eq!(mirror.update_for(&mirror.as_known_state()), ProposalUpdate::Unchanged);

    let mut edited = mirror.duplicate();
    edited.set_ongoing_step(plan(3, b"b, edited"));
    assert_eq!(
        edited.update_for(&mirror.as_known_state()),
        ProposalUpdate::ChangedOngoing(plan(3, b"b, edited"))
    );

    let stepped = Proposal {
        undoable_history: vec![plan(1, b"a"), plan(3, b"b, edited")],
        ongoing: plan(4, b""),
        redoable_history: vec![],
    };
    assert_eq!(
        stepped.update_for(&mirror.as_known_state()),
        ProposalUpdate::ChangedCompletely(stepped.duplicate())
    );
}

#[test]
fn applying_proposal_update_gives_the_proposal_it_came_from() {
    let start = Proposal {
        undoable_history: vec![plan(1, b"a")],
        ongoing: plan(2, b"b"),
        redoable_history: vec![],
    };
    let mut edited = start.duplicate();
    edited.set_ongoing_step(plan(3, b"b, edited"));
    let undone = Proposal {
        undoable_history: vec![],
        ongoing: plan(5, b""),
        redoable_history: vec![plan(1, b"a")],
    };
    for target in [start.duplicate(), edited, undone] {
        let mut mirror = start.duplicate();
        let update = target.update_for(&mirror.as_known_state());
        mirror.apply_update(&update);
        assert_eq!(mirror, target);
    }
}

#[test]
fn result_delta_names_new_and_removed_prototypes() {
    let mut mirror = PlanResult::new();
    mirror.apply_update(&PlanResultUpdate {
        new_prototypes: vec![lot(1), lot(2), lot(3)],
        removed_prototypes: vec![],
    });
    assert_eq!(
        mirror.as_known_state(),
        PlanResultKnownState {
            known_prototypes: vec![PrototypeID(1), PrototypeID(2), PrototypeID(3)],
        }
    );
    let mut authority = PlanResult::new();
    authority.apply_update(&PlanResultUpdate {
        new_prototypes: vec![lot(2), lot(4)],
        removed_prototypes: vec![],
    });
    let update = authority.update_for(&mirror.as_known_state());
    assert_eq!(
        update,
        PlanResultUpdate {
            new_prototypes: vec![lot(4)],
            removed_prototypes: vec![PrototypeID(1), PrototypeID(3)],
        }
    );
    mirror.apply_update(&update);
    assert_eq!(mirror.prototypes.len(), 2);
    assert_eq!(mirror.prototypes.get(&PrototypeID(2)), Some(&lot(2)));
    assert_eq!(mirror.prototypes.get(&PrototypeID(4)), Some(&lot(4)));
    assert_eq!(mirror.prototypes.get(&PrototypeID(1)), None);
    assert_eq!(mirror, authority);
}

#[test]
fn result_update_removes_before_it_adds() {
    let mut mirror = PlanResult::new();
    mirror.apply_update(&PlanResultUpdate {
        new_prototypes: vec![lot(1)],
        removed_prototypes: vec![],
    });
    mirror.apply_update(&PlanResultUpdate {
        new_prototypes: vec![lot(1)],
        removed_prototypes: vec![PrototypeID(1)],
    });
    assert_eq!(mirror.prototypes.get(&PrototypeID(1)), Some(&lot(1)));
}

#[test]
fn keyed_list_keeps_first_arrival_order_and_replaces_in_place() {
    let mut list: KeyedList<GestureID, u32> = KeyedList::new();
    list.insert(GestureID(5), 50);
    list.insert(GestureID(3), 30);
    list.insert(GestureID(5), 51);
    assert_eq!(list.len(), 2);
    assert_eq!(list.key_at(0), GestureID(5));
    assert_eq!(*list.value_at(0), 51);
    assert_eq!(list.position(&GestureID(3)), Some(1));
    list.remove(&GestureID(5));
    assert_eq!(list.position(&GestureID(3)), Some(0));
    assert_eq!(list.get(&GestureID(5)), None);
    list.remove(&GestureID(9));
    assert_eq!(list.len(), 1);
}
