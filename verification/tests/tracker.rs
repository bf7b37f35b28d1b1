use browser_ui::bridge::BrowserUI;
use browser_ui::ident::{BrowserUIID, BuildingID, RawID};
use browser_ui::mesh::{to_js_mesh, Mesh, Vertex};
use browser_ui::patch::{Field, Patch, Segment, Value};
use browser_ui::permanent::{lane_parts, BuildingMesh, LaneParts};
use browser_ui::prototype::PathGeometry;
use browser_ui::view_state::ViewState;

fn triangle(at: f32) -> Mesh {
    Mesh::new(
        vec![
            Vertex { position: [at.to_bits(), 0.0f32.to_bits(), 0.0f32.to_bits()] },
            Vertex { position: [at.to_bits(), 1.0f32.to_bits(), 0.0f32.to_bits()] },
            Vertex { position: [(at + 1.0).to_bits(), 0.0f32.to_bits(), 0.0f32.to_bits()] },
        ],
        vec![0, 1, 2],
    )
}

fn path() -> PathGeometry {
    PathGeometry {
        lane: triangle(0.0),
        marker_left: triangle(100.0),
        marker_right: triangle(200.0),
        switch_gap: triangle(300.0),
    }
}

fn lane(n: u32) -> RawID {
    RawID { instance_id: n, type_id: 7, machine: 0, version: 1 }
}

fn bridge() -> BrowserUI {
    let id = BrowserUIID(RawID { instance_id: 0, type_id: 1, machine: 0, version: 0 });
    BrowserUI::spawn(id, &Vec::new()).0
}

fn entry(part: Field, store: Field, id: RawID) -> Vec<Segment> {
    vec![
        Segment::Field(part),
        Segment::Field(Field::Rendering),
        Segment::Field(store),
        Segment::Entity(id),
    ]
}

fn store(part: Field, store: Field) -> Vec<Segment> {
    vec![Segment::Field(part), Segment::Field(Field::Rendering), Segment::Field(store)]
}

fn set(part: Field, name: Field, id: RawID, mesh: &Mesh) -> Patch {
    Patch::SetAt { path: entry(part, name, id), value: Value::Mesh(to_js_mesh(mesh)) }
}

fn unset(part: Field, name: Field, id: RawID) -> Patch {
    Patch::UnsetAt { path: store(part, name), keys: vec![Segment::Entity(id)] }
}

#[test]
fn lane_on_intersection_gets_an_asphalt_entry_only() {
    let mut ui = bridge();
    let mut view = ViewState::new();
    view.apply_all(ui.on_lane_constructed(lane(1), &path(), false, true));
    assert_eq!(view.len(), 1);
    assert_eq!(
        view.get(&entry(Field::Transport, Field::LaneAsphalt, lane(1))),
        Some(&Value::Mesh(to_js_mesh(&path().lane)))
    );
    assert_eq!(view.get(&entry(Field::Transport, Field::LaneMarker, lane(1))), None);
    assert_eq!(view.get(&entry(Field::Transport, Field::LaneMarkerGap, lane(1))), None);
}

#[test]
fn destructing_a_lane_removes_exactly_its_entry() {
    let mut ui = bridge();
    let mut view = ViewState::new();
    view.apply_all(ui.on_lane_constructed(lane(1), &path(), false, true));
    view.apply_all(ui.on_lane_constructed(lane(2), &path(), false, true));
    view.apply_all(ui.on_lane_constructed(lane(3), &path(), false, false));
    assert_eq!(view.len(), 4);
    let patches = ui.on_lane_destructed(lane(1), false, true);
    assert_eq!(patches, vec![unset(Field::Transport, Field::LaneAsphalt, lane(1))]);
    view.apply_all(patches);
    assert_eq!(view.len(), 3);
    assert_eq!(view.get(&entry(Field::Transport, Field::LaneAsphalt, lane(1))), None);
    assert!(view.get(&entry(Field::Transport, Field::LaneAsphalt, lane(2))).is_some());
    assert!(view.get(&entry(Field::Transport, Field::LaneAsphalt, lane(3))).is_some());
    assert!(view.get(&entry(Field::Transport, Field::LaneMarker, lane(3))).is_some());
}

#[test]
fn plain_lane_gets_asphalt_and_merged_markers() {
    let mut ui = bridge();
    let patches = ui.on_lane_constructed(lane(4), &path(), false, false);
    let mut markers = path().marker_left;
    markers.add_assign(&path().marker_right);
    assert_eq!(markers.indices, vec![0u16, 1, 2, 3, 4, 5]);
    assert_eq!(
        patches,
        vec![
            set(Field::Transport, Field::LaneAsphalt, lane(4), &path().lane),
            set(Field::Transport, Field::LaneMarker, lane(4), &markers),
        ]
    );
    assert_eq!(
        ui.on_lane_destructed(lane(4), false, false),
        vec![
            unset(Field::Transport, Field::LaneAsphalt, lane(4)),
            unset(Field::Transport, Field::LaneMarker, lane(4)),
        ]
    );
}

#[test]
fn switch_lane_gets_a_gap_entry_only() {
    let mut ui = bridge();
    for on_intersection in [false, true] {
        assert_eq!(
            ui.on_lane_constructed(lane(5), &path(), true, on_intersection),
            vec![set(Field::Transport, Field::LaneMarkerGap, lane(5), &path().switch_gap)]
        );
        assert_eq!(
            ui.on_lane_destructed(lane(5), true, on_intersection),
            vec![unset(Field::Transport, Field::LaneMarkerGap, lane(5))]
        );
    }
}

#[test]
fn destructing_with_the_same_flags_restores_the_view() {
    let mut ui = bridge();
    for (is_switch, on_intersection) in [(false, false), (false, true), (true, false), (true, true)] {
        let mut view = ViewState::new();
        view.apply_all(ui.on_lane_constructed(lane(9), &path(), false, false));
        let mut expected = ViewState::new();
        expected.apply_all(ui.on_lane_constructed(lane(9), &path(), false, false));
        view.apply_all(ui.on_lane_constructed(lane(1), &path(), is_switch, on_intersection));
        assert_ne!(view, expected);
        view.apply_all(ui.on_lane_destructed(lane(1), is_switch, on_intersection));
        assert_eq!(view, expected);
    }
}

#[test]
fn destructing_with_other_flags_leaves_a_stale_entry() {
    let mut ui = bridge();
    let mut view = ViewState::new();
    view.apply_all(ui.on_lane_constructed(lane(1), &path(), false, false));
    view.apply_all(ui.on_lane_destructed(lane(1), false, true));
    assert_eq!(view.len(), 1);
    assert!(view.get(&entry(Field::Transport, Field::LaneMarker, lane(1))).is_some());
}

#[test]
fn constructing_a_lane_twice_is_the_same_as_once() {
    let mut ui = bridge();
    let mut once = ViewState::new();
    once.apply_all(ui.on_lane_constructed(lane(1), &path(), false, false));
    let mut twice = ViewState::new();
    twice.apply_all(ui.on_lane_constructed(lane(1), &path(), false, false));
    twice.apply_all(ui.on_lane_constructed(lane(1), &path(), false, false));
    assert_eq!(once.len(), 2);
    assert_eq!(twice.len(), 2);
    for name in [Field::LaneAsphalt, Field::LaneMarker] {
        let at = entry(Field::Transport, name, lane(1));
        assert_eq!(once.get(&at), twice.get(&at));
    }
}

#[test]
fn building_gets_four_entries_and_loses_them() {
    let mut ui = bridge();
    let id = BuildingID(RawID { instance_id: 12, type_id: 9, machine: 0, version: 0 });
    let meshes = BuildingMesh {
        wall: triangle(1.0),
        brick_roof: triangle(2.0),
        flat_roof: triangle(3.0),
        field: triangle(4.0),
    };
    let patches = ui.on_building_constructed(id, &meshes);
    assert_eq!(
        patches,
        vec![
            set(Field::LandUse, Field::Wall, id.0, &meshes.wall),
            set(Field::LandUse, Field::BrickRoof, id.0, &meshes.brick_roof),
            set(Field::LandUse, Field::FlatRoof, id.0, &meshes.flat_roof),
            set(Field::LandUse, Field::Field, id.0, &meshes.field),
        ]
    );
    let mut view = ViewState::new();
    view.apply_all(patches);
    assert_eq!(view.len(), 4);
    let removal = ui.on_building_destructed(id);
    assert_eq!(
        removal,
        vec![
            unset(Field::LandUse, Field::Wall, id.0),
            unset(Field::LandUse, Field::BrickRoof, id.0),
            unset(Field::LandUse, Field::FlatRoof, id.0),
            unset(Field::LandUse, Field::Field, id.0),
        ]
    );
    view.apply_all(removal);
    assert_eq!(view.len(), 0);
}

#[test]
fn parts_shown_follow_the_flags() {
    assert_eq!(lane_parts(true, false), LaneParts { surface: false, markers: false, gap: true });
    assert_eq!(lane_parts(true, true), LaneParts { surface: false, markers: false, gap: true });
    assert_eq!(lane_parts(false, true), LaneParts { surface: true, markers: false, gap: false });
    assert_eq!(lane_parts(false, false), LaneParts { surface: true, markers: true, gap: false });
}

#[test]
fn parts_that_are_not_shown_do_not_matter() {
    let mut ui = bridge();
    let mut bare = path();
    bare.marker_left = Mesh::empty();
    bare.marker_right = Mesh::empty();
    bare.switch_gap = Mesh::empty();
    assert_eq!(
        ui.on_lane_constructed(lane(1), &bare, false, true),
        ui.on_lane_constructed(lane(1), &path(), false, true)
    );
    assert_ne!(
        ui.on_lane_constructed(lane(1), &bare, false, false),
        ui.on_lane_constructed(lane(1), &path(), false, false)
    );
}
