use browser_ui::ident::{ProposalID, RawID, StepID};
use browser_ui::patch::{Field, Patch, Segment, Value};
use browser_ui::proposal::Plan;
use browser_ui::view_state::{lies_below, lies_below_keys, same_segment, ViewState};

fn numbers(n: u32) -> Value {
    Value::Instances(vec![n, n + 1])
}

fn key(n: u32) -> Segment {
    Segment::Entity(RawID { instance_id: n, type_id: 1, machine: 0, version: 0 })
}

fn at(fields: &[Field]) -> Vec<Segment> {
    fields.iter().map(|f| Segment::Field(*f)).collect()
}

fn put(path: Vec<Segment>, n: u32) -> Patch {
    Patch::SetAt { path, value: numbers(n) }
}

#[test]
fn set_twice_is_the_same_as_once() {
    let mut once = ViewState::new();
    once.apply(put(at(&[Field::Planning, Field::Master]), 1));
    once.apply(put(at(&[Field::Transport, Field::Rendering, Field::CarInstances]), 7));
    let mut twice = ViewState::new();
    twice.apply(put(at(&[Field::Planning, Field::Master]), 1));
    twice.apply(put(at(&[Field::Transport, Field::Rendering, Field::CarInstances]), 7));
    twice.apply(put(at(&[Field::Transport, Field::Rendering, Field::CarInstances]), 7));
    assert_eq!(once, twice);
    assert_eq!(twice.len(), 2);
}

#[test]
fn set_replaces_the_value_at_its_path() {
    let mut view = ViewState::new();
    let path = at(&[Field::Transport, Field::Rendering, Field::CarInstances]);
    view.apply(put(path.clone(), 1));
    view.apply(put(path.clone(), 2));
    assert_eq!(view.len(), 1);
    assert_eq!(view.get(&path), Some(&numbers(2)));
}

#[test]
fn set_replaces_what_lies_below_its_path() {
    let mut view = ViewState::new();
    let store = at(&[Field::Transport, Field::Rendering, Field::LaneAsphalt]);
    let mut first = store.clone();
    first.push(key(1));
    let mut second = store.clone();
    second.push(key(2));
    view.apply(put(first.clone(), 1));
    view.apply(put(second.clone(), 2));
    view.apply(put(at(&[Field::Planning, Field::Master]), 3));
    view.apply(put(store.clone(), 9));
    assert_eq!(view.len(), 2);
    assert_eq!(view.get(&first), None);
    assert_eq!(view.get(&second), None);
    assert_eq!(view.get(&store), Some(&numbers(9)));
    assert_eq!(view.get(&at(&[Field::Planning, Field::Master])), Some(&numbers(3)));
}

#[test]
fn unset_removes_the_named_keys_only() {
    let mut view = ViewState::new();
    let store = at(&[Field::Transport, Field::Rendering, Field::LaneAsphalt]);
    let other = at(&[Field::Transport, Field::Rendering, Field::LaneMarker]);
    for n in 1..=3 {
        let mut path = store.clone();
        path.push(key(n));
        view.apply(put(path, n));
        let mut path = other.clone();
        path.push(key(n));
        view.apply(put(path, 10 + n));
    }
    view.apply(Patch::UnsetAt { path: store.clone(), keys: vec![key(1), key(3), key(8)] });
    assert_eq!(view.len(), 4);
    let mut kept = store.clone();
    kept.push(key(2));
    assert_eq!(view.get(&kept), Some(&numbers(2)));
    let mut gone = store.clone();
    gone.push(key(1));
    assert_eq!(view.get(&gone), None);
    let mut untouched = other.clone();
    untouched.push(key(1));
    assert_eq!(view.get(&untouched), Some(&numbers(11)));
}

#[test]
fn unset_of_no_keys_or_absent_keys_changes_nothing() {
    let mut view = ViewState::new();
    let store = at(&[Field::LandUse, Field::Rendering, Field::Wall]);
    let mut path = store.clone();
    path.push(key(1));
    view.apply(put(path.clone(), 1));
    view.apply(Patch::UnsetAt { path: store.clone(), keys: vec![] });
    view.apply(Patch::UnsetAt { path: store.clone(), keys: vec![key(2)] });
    view.apply(Patch::UnsetAt { path: path.clone(), keys: vec![key(1)] });
    assert_eq!(view.len(), 1);
    assert_eq!(view.get(&path), Some(&numbers(1)));
}

#[test]
fn unset_removes_what_lies_below_a_key() {
    let mut view = ViewState::new();
    let proposals = at(&[Field::Planning, Field::Proposals]);
    let mut ongoing = proposals.clone();
    ongoing.push(Segment::Proposal(ProposalID(4)));
    ongoing.push(Segment::Field(Field::Ongoing));
    view.apply(Patch::SetAt {
        path: ongoing.clone(),
        value: Value::Step(Plan { step_id: StepID(1), gestures: vec![1, 2, 3] }),
    });
    assert!(view.get(&ongoing).is_some());
    view.apply(Patch::UnsetAt { path: proposals, keys: vec![Segment::Proposal(ProposalID(4))] });
    assert_eq!(view.len(), 0);
}

#[test]
fn commands_of_a_batch_are_carried_out_in_order() {
    let mut view = ViewState::new();
    let path = at(&[Field::Planning, Field::Master]);
    view.apply_all(vec![put(path.clone(), 1), put(path.clone(), 2), put(path.clone(), 3)]);
    assert_eq!(view.get(&path), Some(&numbers(3)));
    view.apply_all(vec![]);
    assert_eq!(view.len(), 1);
}

#[test]
fn empty_view_holds_nothing() {
    let view = ViewState::new();
    assert_eq!(view.len(), 0);
    assert_eq!(view.get(&vec![]), None);
    assert_eq!(view.get(&at(&[Field::Planning])), None);
}

#[test]
fn segments_are_compared_by_what_they_hold() {
    assert!(same_segment(&Segment::Name("tree"), &Segment::Name("tree")));
    assert!(!same_segment(&Segment::Name("tree"), &Segment::Name("trees")));
    assert!(same_segment(&key(1), &key(1)));
    assert!(!same_segment(&key(1), &key(2)));
    assert!(!same_segment(&Segment::Field(Field::Wall), &Segment::Field(Field::Field)));
    assert!(!same_segment(&Segment::Proposal(ProposalID(1)), &key(1)));
    let differs_in_version =
        Segment::Entity(RawID { instance_id: 1, type_id: 1, machine: 0, version: 1 });
    assert!(!same_segment(&key(1), &differs_in_version));
}

#[test]
fn paths_lie_below_their_prefixes() {
    let store = at(&[Field::Transport, Field::Rendering, Field::LaneAsphalt]);
    let mut entry = store.clone();
    entry.push(key(1));
    assert!(lies_below(&entry, &store, None));
    assert!(lies_below(&entry, &entry, None));
    assert!(lies_below(&entry, &store, Some(&key(1))));
    assert!(!lies_below(&entry, &store, Some(&key(2))));
    assert!(!lies_below(&store, &entry, None));
    assert!(!lies_below(&store, &store, Some(&key(1))));
    assert!(lies_below(&store, &vec![], None));
    assert!(lies_below_keys(&entry, &store, &vec![key(3), key(1)]));
    assert!(!lies_below_keys(&entry, &store, &vec![key(3)]));
    assert!(!lies_below_keys(&entry, &store, &vec![]));
}

#[test]
fn members_have_the_names_of_the_presentation_surface() {
    assert_eq!(Field::Planning.name(), "planning");
    assert_eq!(Field::Rendering.name(), "rendering");
    assert_eq!(Field::StaticMeshes.name(), "staticMeshes");
    assert_eq!(Field::Master.name(), "master");
    assert_eq!(Field::Proposals.name(), "proposals");
    assert_eq!(Field::Ongoing.name(), "ongoing");
    assert_eq!(Field::CurrentPreview.name(), "currentPreview");
    assert_eq!(Field::Transport.name(), "transport");
    assert_eq!(Field::CarInstances.name(), "carInstances");
    assert_eq!(Field::LaneMarkerGap.name(), "laneMarkerGap");
    assert_eq!(Field::LaneAsphalt.name(), "laneAsphalt");
    assert_eq!(Field::LaneMarker.name(), "laneMarker");
    assert_eq!(Field::LandUse.name(), "landUse");
    assert_eq!(Field::Wall.name(), "wall");
    assert_eq!(Field::BrickRoof.name(), "brickRoof");
    assert_eq!(Field::FlatRoof.name(), "flatRoof");
    assert_eq!(Field::Field.name(), "field");
}
