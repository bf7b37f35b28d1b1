use vstd::prelude::*;
use crate::ident::{BuildingID, RawID};
use crate::mesh::{merged, Mesh, MeshView};
use crate::patch::{
    member_path, patches_view, set_mesh_at, unset_at, Field, Patch, PatchView, Segment,
    SegmentView,
};
use crate::prototype::{PathGeometry, PathGeometryView};
use crate::view_state::{applied, applied_all, at_or_below, below_keys, TreeView};

verus! {

/// The meshes that are drawn for one building.
#[derive(Clone, Debug, PartialEq, Eq)]
pub struct BuildingMesh {
    pub wall: Mesh,
    pub brick_roof: Mesh,
    pub flat_roof: Mesh,
    pub field: Mesh,
}

/// What the meshes of a building hold.
pub struct BuildingMeshView {
    pub wall: MeshView,
    pub brick_roof: MeshView,
    pub flat_roof: MeshView,
    pub field: MeshView,
}

impl View for BuildingMesh {
    type V = BuildingMeshView;

    open spec fn view(&self) -> BuildingMeshView {
        BuildingMeshView {
            wall: self.wall@,
            brick_roof: self.brick_roof@,
            flat_roof: self.flat_roof@,
            field: self.field@,
        }
    }
}

/// The keyed store `rendering.store` of the lanes.
pub open spec fn lane_store(store: Field) -> Seq<SegmentView> {
    member_path(Field::Transport, Field::Rendering, store)
}

/// The keyed store `rendering.store` of the buildings.
pub open spec fn building_store(store: Field) -> Seq<SegmentView> {
    member_path(Field::LandUse, Field::Rendering, store)
}

/// The commands that show a lane that was built. A switch lane gets an entry
/// for its gap and no other. A lane on an intersection gets an entry for its
/// surface and no other. Any other lane gets an entry for its surface and
/// one for its markings, the left half merged with the right.
pub open spec fn lane_constructed(
    id: RawID,
    path: PathGeometryView,
    is_switch: bool,
    on_intersection: bool,
) -> Seq<PatchView> {
    let key = SegmentView::Entity(id);
    if is_switch {
        seq![set_mesh_at(lane_store(Field::LaneMarkerGap), key, path.switch_gap)]
    } else if on_intersection {
        seq![set_mesh_at(lane_store(Field::LaneAsphalt), key, path.lane)]
    } else {
        seq![
            set_mesh_at(lane_store(Field::LaneAsphalt), key, path.lane),
            set_mesh_at(
                lane_store(Field::LaneMarker),
                key,
                merged(path.marker_left, path.marker_right),
            ),
        ]
    }
}

/// The commands that take away what was shown of a lane: the entries that
/// `lane_constructed` makes for the same flags.
pub open spec fn lane_destructed(id: RawID, is_switch: bool, on_intersection: bool) -> Seq<
    PatchView,
> {
    let key = SegmentView::Entity(id);
    if is_switch {
        seq![unset_at(lane_store(Field::LaneMarkerGap), key)]
    } else if on_intersection {
        seq![unset_at(lane_store(Field::LaneAsphalt), key)]
    } else {
        seq![
            unset_at(lane_store(Field::LaneAsphalt), key),
            unset_at(lane_store(Field::LaneMarker), key),
        ]
    }
}

/// The commands that show a building that was built: one entry in each of
/// the four stores of the buildings.
pub open spec fn building_constructed(id: BuildingID, meshes: BuildingMeshView) -> Seq<PatchView> {
    let key = SegmentView::Entity(id.0);
    seq![
        set_mesh_at(building_store(Field::Wall), key, meshes.wall),
        set_mesh_at(building_store(Field::BrickRoof), key, meshes.brick_roof),
        set_mesh_at(building_store(Field::FlatRoof), key, meshes.flat_roof),
        set_mesh_at(building_store(Field::Field), key, meshes.field),
    ]
}

/// The commands that take away what was shown of a building.
pub open spec fn building_destructed(id: BuildingID) -> Seq<PatchView> {
    let key = SegmentView::Entity(id.0);
    seq![
        unset_at(building_store(Field::Wall), key),
        unset_at(building_store(Field::BrickRoof), key),
        unset_at(building_store(Field::FlatRoof), key),
        unset_at(building_store(Field::Field), key),
    ]
}

/// The parts of the geometry of a path that are shown for a lane.
#[derive(Clone, Copy, Debug, PartialEq, Eq)]
pub struct LaneParts {
    pub surface: bool,
    pub markers: bool,
    pub gap: bool,
}

/// The parts that are shown for a lane: the gap alone for a switch lane, the
/// surface alone for a lane on an intersection, the surface and the markings
/// for any other lane.
pub open spec fn parts_shown(is_switch: bool, on_intersection: bool) -> LaneParts {
    LaneParts {
        surface: !is_switch,
        markers: !is_switch && !on_intersection,
        gap: is_switch,
    }
}

/// Says which parts of the geometry of its path are shown for a lane, so
/// that no other part needs to be worked out.
pub fn lane_parts(is_switch: bool, on_intersection: bool) -> (parts: LaneParts)
    ensures
        parts == parts_shown(is_switch, on_intersection),
{
    LaneParts { surface: !is_switch, markers: !is_switch && !on_intersection, gap: is_switch }
}

/// Only the parts that `parts_shown` names are shown: two geometries that
/// agree on them give the same commands.
pub proof fn law_only_shown_parts_matter(
    id: RawID,
    a: PathGeometryView,
    b: PathGeometryView,
    is_switch: bool,
    on_intersection: bool,
)
    requires
        parts_shown(is_switch, on_intersection).surface ==> a.lane == b.lane,
        parts_shown(is_switch, on_intersection).markers ==> a.marker_left == b.marker_left
            && a.marker_right == b.marker_right,
        parts_shown(is_switch, on_intersection).gap ==> a.switch_gap == b.switch_gap,
    ensures
        lane_constructed(id, a, is_switch, on_intersection) == lane_constructed(
            id,
            b,
            is_switch,
            on_intersection,
        ),
{
}

/// The entry of the lane `id` in the keyed store `rendering.store` of the
/// lanes.
pub open spec fn lane_entry(store: Field, id: RawID) -> Seq<SegmentView> {
    lane_store(store).push(SegmentView::Entity(id))
}

/// Showing a lane on an intersection puts its surface at its entry among
/// the surfaces and touches nothing else of the tree: no markings are put.
/// Taking that lane away removes what is at or below that entry and nothing
/// else.
pub proof fn law_intersection_lane_entry(tree: TreeView, id: RawID, path: PathGeometryView)
    ensures
        applied_all(tree, lane_constructed(id, path, false, true)) == tree.remove_keys(
            at_or_below(lane_entry(Field::LaneAsphalt, id)),
        ).insert(
            lane_entry(Field::LaneAsphalt, id),
            crate::patch::ValueView::Mesh(crate::mesh::js_mesh_of(path.lane)),
        ),
        applied_all(tree, lane_destructed(id, false, true)) == tree.remove_keys(
            at_or_below(lane_entry(Field::LaneAsphalt, id)),
        ),
{
    let shown = lane_constructed(id, path, false, true);
    assert(shown.drop_last() =~= Seq::<PatchView>::empty());
    assert(applied_all(tree, shown.drop_last()) == tree);
    let taken = lane_destructed(id, false, true);
    assert(taken.drop_last() =~= Seq::<PatchView>::empty());
    assert(applied_all(tree, taken.drop_last()) == tree);
    lemma_below_one_key(lane_store(Field::LaneAsphalt), SegmentView::Entity(id));
}

/// The paths at or below the one entry `key` of `store` are those at or
/// below the path of that entry.
pub proof fn lemma_below_one_key(store: Seq<SegmentView>, key: SegmentView)
    ensures
        below_keys(store, seq![key]) == at_or_below(store.push(key)),
{
    let keys = seq![key];
    assert forall|p: Seq<SegmentView>| below_keys(store, keys).contains(p) == at_or_below(
        store.push(key),
    ).contains(p) by {
        if below_keys(store, keys).contains(p) {
            let i = choose|i: int|
                0 <= i < keys.len() && #[trigger] store.push(keys[i]).is_prefix_of(p);
            assert(keys[i] == key);
        }
        if store.push(key).is_prefix_of(p) {
            assert(keys[0] == key);
            assert(store.push(keys[0]).is_prefix_of(p));
        }
    }
    assert(below_keys(store, keys) =~= at_or_below(store.push(key)));
}

/// Taking a lane away with the flags with which it was shown leaves the tree
/// as it was before the lane was shown, provided that nothing was at or
/// below the entries of the lane then.
pub proof fn law_destruct_undoes_construct(
    tree: TreeView,
    id: RawID,
    path: PathGeometryView,
    is_switch: bool,
    on_intersection: bool,
)
    requires
        forall|p: Seq<SegmentView>| #[trigger]
            tree.dom().contains(p) ==> !lane_entry(Field::LaneMarkerGap, id).is_prefix_of(p)
                && !lane_entry(Field::LaneAsphalt, id).is_prefix_of(p) && !lane_entry(
                Field::LaneMarker,
                id,
            ).is_prefix_of(p),
    ensures
        applied_all(
            applied_all(tree, lane_constructed(id, path, is_switch, on_intersection)),
            lane_destructed(id, is_switch, on_intersection),
        ) == tree,
{
    let key = SegmentView::Entity(id);
    let shown = lane_constructed(id, path, is_switch, on_intersection);
    let taken = lane_destructed(id, is_switch, on_intersection);
    lemma_below_one_key(lane_store(Field::LaneMarkerGap), key);
    lemma_below_one_key(lane_store(Field::LaneAsphalt), key);
    lemma_below_one_key(lane_store(Field::LaneMarker), key);
    let gap = lane_entry(Field::LaneMarkerGap, id);
    let asphalt = lane_entry(Field::LaneAsphalt, id);
    let marker = lane_entry(Field::LaneMarker, id);
    assert(gap.is_prefix_of(gap));
    assert(asphalt.is_prefix_of(asphalt));
    assert(marker.is_prefix_of(marker));
    if is_switch || on_intersection {
        assert(shown.drop_last() =~= Seq::<PatchView>::empty());
        assert(taken.drop_last() =~= Seq::<PatchView>::empty());
        let put = applied_all(tree, shown);
        assert(applied_all(tree, shown.drop_last()) == tree);
        assert(applied_all(put, taken.drop_last()) == put);
        assert(applied_all(put, taken) =~= tree);
    } else {
        assert(asphalt[2] != marker[2]);
        assert(!asphalt.is_prefix_of(marker)) by {
            if asphalt.is_prefix_of(marker) {
                assert(marker.subrange(0, asphalt.len() as int)[2] == asphalt[2]);
            }
        }
        assert(!marker.is_prefix_of(asphalt)) by {
            if marker.is_prefix_of(asphalt) {
                assert(asphalt.subrange(0, marker.len() as int)[2] == marker[2]);
            }
        }
        let first = shown[0];
        let second = shown[1];
        assert(shown.drop_last() =~= seq![first]);
        assert(seq![first].drop_last() =~= Seq::<PatchView>::empty());
        assert(seq![first].last() == first);
        assert(applied_all(tree, Seq::<PatchView>::empty()) == tree);
        let one = applied_all(tree, seq![first]);
        assert(one == applied(tree, first));
        let put = applied_all(tree, shown);
        assert(put == applied(one, second));
        let undo_first = taken[0];
        let undo_second = taken[1];
        assert(taken.drop_last() =~= seq![undo_first]);
        assert(seq![undo_first].drop_last() =~= Seq::<PatchView>::empty());
        assert(seq![undo_first].last() == undo_first);
        assert(applied_all(put, Seq::<PatchView>::empty()) == put);
        let less = applied_all(put, seq![undo_first]);
        assert(less == applied(put, undo_first));
        assert(applied_all(put, taken) == applied(less, undo_second));
        assert(applied(less, undo_second) =~= tree);
    }
}

/// Works out the commands that show a lane that was built.
pub fn lane_constructed_patches(
    id: RawID,
    lane_path: &PathGeometry,
    is_switch: bool,
    on_intersection: bool,
) -> (patches: Vec<Patch>)
    ensures
        patches_view(patches@) == lane_constructed(id, lane_path@, is_switch, on_intersection),
{
    let key = Segment::Entity(id);
    let mut patches: Vec<Patch> = Vec::new();
    if is_switch {
        patches.push(
            Patch::set_mesh(Field::Transport, Field::LaneMarkerGap, key, &lane_path.switch_gap),
        );
    } else {
        patches.push(Patch::set_mesh(Field::Transport, Field::LaneAsphalt, key, &lane_path.lane));
        if !on_intersection {
            let mut marker = lane_path.marker_left.duplicate();
            marker.add_assign(&lane_path.marker_right);
            patches.push(Patch::set_mesh(Field::Transport, Field::LaneMarker, key, &marker));
        }
    }
    assert(patches_view(patches@) =~= lane_constructed(
        id,
        lane_path@,
        is_switch,
        on_intersection,
    ));
    patches
}

/// Works out the commands that take away what was shown of a lane.
pub fn lane_destructed_patches(id: RawID, is_switch: bool, on_intersection: bool) -> (patches: Vec<
    Patch,
>)
    ensures
        patches_view(patches@) == lane_destructed(id, is_switch, on_intersection),
{
    let key = Segment::Entity(id);
    let mut patches: Vec<Patch> = Vec::new();
    if is_switch {
        patches.push(Patch::unset(Field::Transport, Field::LaneMarkerGap, key));
    } else {
        patches.push(Patch::unset(Field::Transport, Field::LaneAsphalt, key));
        if !on_intersection {
            patches.push(Patch::unset(Field::Transport, Field::LaneMarker, key));
        }
    }
    assert(patches_view(patches@) =~= lane_destructed(id, is_switch, on_intersection));
    patches
}

/// Works out the commands that show a building that was built.
pub fn building_constructed_patches(id: BuildingID, meshes: &BuildingMesh) -> (patches: Vec<Patch>)
    ensures
        patches_view(patches@) == building_constructed(id, meshes@),
{
    let key = Segment::Entity(id.0);
    let mut patches: Vec<Patch> = Vec::new();
    patches.push(Patch::set_mesh(Field::LandUse, Field::Wall, key, &meshes.wall));
    patches.push(Patch::set_mesh(Field::LandUse, Field::BrickRoof, key, &meshes.brick_roof));
    patches.push(Patch::set_mesh(Field::LandUse, Field::FlatRoof, key, &meshes.flat_roof));
    patches.push(Patch::set_mesh(Field::LandUse, Field::Field, key, &meshes.field));
    assert(patches_view(patches@) =~= building_constructed(id, meshes@));
    patches
}

/// Works out the commands that take away what was shown of a building.
pub fn building_destructed_patches(id: BuildingID) -> (patches: Vec<Patch>)
    ensures
        patches_view(patches@) == building_destructed(id),
{
    let key = Segment::Entity(id.0);
    let mut patches: Vec<Patch> = Vec::new();
    patches.push(Patch::unset(Field::LandUse, Field::Wall, key));
    patches.push(Patch::unset(Field::LandUse, Field::BrickRoof, key));
    patches.push(Patch::unset(Field::LandUse, Field::FlatRoof, key));
    patches.push(Patch::unset(Field::LandUse, Field::Field, key));
    assert(patches_view(patches@) =~= building_destructed(id));
    patches
}

} // verus!
