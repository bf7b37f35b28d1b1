use vstd::prelude::*;
use crate::actions::{governing_verdict, Action, ActionGroups, Verdict};
use crate::mesh::{empty_mesh, merged, Mesh, MeshView};
use crate::prototype::{
    ConnectingLanes, ConnectingLanesView, IntersectionPrototype, KindView, LanePrototype,
    LotOccupancy, PathGeometryView, PrototypeKind, RoadPrototype,
};
use crate::result::{PlanResult, ResultView};

verus! {

/// The geometry that shows what carrying a proposal out would change. It is
/// built anew, from nothing, whenever the preview changes.
#[derive(Clone, Debug, PartialEq, Eq)]
pub struct Preview {
    /// The footprints of vacant lots.
    pub zones: Mesh,
    /// The surfaces of the lanes that would be built.
    pub lanes_to_construct: Mesh,
    /// The side markings of the lanes that would be built.
    pub lanes_to_construct_marker: Mesh,
    /// The surfaces of the lanes that would be taken away.
    pub lanes_to_destruct: Mesh,
    /// The gaps that new switch lanes leave in the markings.
    pub switch_lanes_to_construct_marker_gap: Mesh,
}

/// What a preview holds.
pub struct PreviewView {
    pub zones: MeshView,
    pub lanes_to_construct: MeshView,
    pub lanes_to_construct_marker: MeshView,
    pub lanes_to_destruct: MeshView,
    pub switch_lanes_to_construct_marker_gap: MeshView,
}

impl View for Preview {
    type V = PreviewView;

    open spec fn view(&self) -> PreviewView {
        PreviewView {
            zones: self.zones@,
            lanes_to_construct: self.lanes_to_construct@,
            lanes_to_construct_marker: self.lanes_to_construct_marker@,
            lanes_to_destruct: self.lanes_to_destruct@,
            switch_lanes_to_construct_marker_gap: self.switch_lanes_to_construct_marker_gap@,
        }
    }
}

/// The preview in which nothing is shown.
pub open spec fn empty_preview() -> PreviewView {
    PreviewView {
        zones: empty_mesh(),
        lanes_to_construct: empty_mesh(),
        lanes_to_construct_marker: empty_mesh(),
        lanes_to_destruct: empty_mesh(),
        switch_lanes_to_construct_marker_gap: empty_mesh(),
    }
}

/// `preview` with the surface of a lane added: among the lanes to build for
/// a construct, among the lanes to take away for a destruct, nowhere for a
/// morph.
pub open spec fn with_lane_surface(
    preview: PreviewView,
    path: PathGeometryView,
    verdict: Verdict,
) -> PreviewView {
    match verdict {
        Verdict::Construct => PreviewView {
            lanes_to_construct: merged(preview.lanes_to_construct, path.lane),
            ..preview
        },
        Verdict::Morph => preview,
        Verdict::Destruct => PreviewView {
            lanes_to_destruct: merged(preview.lanes_to_destruct, path.lane),
            ..preview
        },
    }
}

/// `preview` with the two halves of the side markings of a lane added, the
/// left one first, where the lane is to be built.
pub open spec fn with_lane_markers(
    preview: PreviewView,
    path: PathGeometryView,
    verdict: Verdict,
) -> PreviewView {
    match verdict {
        Verdict::Construct => PreviewView {
            lanes_to_construct_marker: merged(
                merged(preview.lanes_to_construct_marker, path.marker_left),
                path.marker_right,
            ),
            ..preview
        },
        _ => preview,
    }
}

/// `preview` with the gap of a switch lane added, where the lane is to be
/// built.
pub open spec fn with_switch_gap(
    preview: PreviewView,
    path: PathGeometryView,
    verdict: Verdict,
) -> PreviewView {
    match verdict {
        Verdict::Construct => PreviewView {
            switch_lanes_to_construct_marker_gap: merged(
                preview.switch_lanes_to_construct_marker_gap,
                path.switch_gap,
            ),
            ..preview
        },
        _ => preview,
    }
}

/// `preview` with the surfaces of `lanes` added, one after the other.
pub open spec fn with_lane_surfaces(
    preview: PreviewView,
    lanes: Seq<PathGeometryView>,
    verdict: Verdict,
) -> PreviewView
    decreases lanes.len(),
{
    if lanes.len() == 0 {
        preview
    } else {
        with_lane_surface(
            with_lane_surfaces(preview, lanes.drop_last(), verdict),
            lanes.last(),
            verdict,
        )
    }
}

/// `preview` with the surfaces of all lanes of an intersection added:
/// connection point by connection point, and lane by lane within each.
pub open spec fn with_intersection(
    preview: PreviewView,
    connections: Seq<ConnectingLanesView>,
    verdict: Verdict,
) -> PreviewView
    decreases connections.len(),
{
    if connections.len() == 0 {
        preview
    } else {
        with_lane_surfaces(
            with_intersection(preview, connections.drop_last(), verdict),
            connections.last().lanes,
            verdict,
        )
    }
}

/// `preview` with what a prototype of the given kind contributes under the
/// verdict that governs it. A lane gives its surface and, where it is built,
/// its markings; a switch lane gives its gap where it is built; an
/// intersection gives the surfaces of its lanes and nothing of its own; a
/// vacant lot gives its footprint whatever the verdict; anything else gives
/// nothing.
pub open spec fn with_prototype(preview: PreviewView, kind: KindView, verdict: Verdict) -> PreviewView {
    match kind {
        KindView::Lane(path) => with_lane_markers(
            with_lane_surface(preview, path, verdict),
            path,
            verdict,
        ),
        KindView::SwitchLane(path) => with_switch_gap(preview, path, verdict),
        KindView::Intersection(connections) => with_intersection(preview, connections, verdict),
        KindView::Lot { footprint, occupancy } => if occupancy is Vacant {
            PreviewView { zones: merged(preview.zones, footprint), ..preview }
        } else {
            preview
        },
        KindView::PavedArea => preview,
    }
}

/// `preview` with what a prototype contributes, which is nothing where no
/// action governs it.
pub open spec fn with_governed(
    preview: PreviewView,
    kind: KindView,
    verdict: Option<Verdict>,
) -> PreviewView {
    match verdict {
        None => preview,
        Some(v) => with_prototype(preview, kind, v),
    }
}

/// The preview of a plan result under the action groups: starting from
/// nothing, each prototype in turn contributes under the verdict that governs
/// its identifier.
pub open spec fn preview_of(result: ResultView, groups: Seq<Seq<Action>>) -> PreviewView
    decreases result.len(),
{
    if result.len() == 0 {
        empty_preview()
    } else {
        with_governed(
            preview_of(result.drop_last(), groups),
            result.last().1.kind,
            governing_verdict(groups, result.last().0),
        )
    }
}

/// The surfaces of lanes go to the lanes to build or to the lanes to take
/// away, and change nothing else of a preview.
pub proof fn lemma_lane_surfaces_only(
    preview: PreviewView,
    lanes: Seq<PathGeometryView>,
    verdict: Verdict,
)
    ensures
        with_lane_surfaces(preview, lanes, verdict).zones == preview.zones,
        with_lane_surfaces(preview, lanes, verdict).lanes_to_construct_marker
            == preview.lanes_to_construct_marker,
        with_lane_surfaces(preview, lanes, verdict).switch_lanes_to_construct_marker_gap
            == preview.switch_lanes_to_construct_marker_gap,
        !(verdict is Construct) ==> with_lane_surfaces(preview, lanes, verdict).lanes_to_construct
            == preview.lanes_to_construct,
        !(verdict is Destruct) ==> with_lane_surfaces(preview, lanes, verdict).lanes_to_destruct
            == preview.lanes_to_destruct,
    decreases lanes.len(),
{
    if lanes.len() > 0 {
        lemma_lane_surfaces_only(preview, lanes.drop_last(), verdict);
    }
}

/// An intersection contributes the surfaces of its lanes and nothing of its
/// own: whatever the verdict, the zones, the markings and the gaps of a
/// preview stay as they are, and so do the lanes that the verdict does not
/// speak of.
pub proof fn law_intersection_only_lanes(
    preview: PreviewView,
    connections: Seq<ConnectingLanesView>,
    verdict: Verdict,
)
    ensures
        with_intersection(preview, connections, verdict).zones == preview.zones,
        with_intersection(preview, connections, verdict).lanes_to_construct_marker
            == preview.lanes_to_construct_marker,
        with_intersection(preview, connections, verdict).switch_lanes_to_construct_marker_gap
            == preview.switch_lanes_to_construct_marker_gap,
        !(verdict is Construct) ==> with_intersection(
            preview,
            connections,
            verdict,
        ).lanes_to_construct == preview.lanes_to_construct,
        !(verdict is Destruct) ==> with_intersection(preview, connections, verdict).lanes_to_destruct
            == preview.lanes_to_destruct,
    decreases connections.len(),
{
    if connections.len() > 0 {
        let before = with_intersection(preview, connections.drop_last(), verdict);
        law_intersection_only_lanes(preview, connections.drop_last(), verdict);
        lemma_lane_surfaces_only(before, connections.last().lanes, verdict);
    }
}

/// A prototype that a morph makes counts as existing: it adds nothing to the
/// lanes, the markings or the gaps of a preview. A vacant lot adds its
/// footprint to the zones, whatever the verdict.
pub proof fn law_morph_shows_no_lanes(preview: PreviewView, kind: KindView)
    ensures
        with_prototype(preview, kind, Verdict::Morph) == match kind {
            KindView::Lot { footprint, occupancy } => if occupancy is Vacant {
                PreviewView { zones: merged(preview.zones, footprint), ..preview }
            } else {
                preview
            },
            _ => preview,
        },
{
    match kind {
        KindView::Intersection(connections) => {
            lemma_morphed_intersection(preview, connections);
        },
        _ => {},
    }
}

/// The lanes of an intersection that comes out of a morph change nothing.
pub proof fn lemma_morphed_intersection(preview: PreviewView, connections: Seq<ConnectingLanesView>)
    ensures
        with_intersection(preview, connections, Verdict::Morph) == preview,
    decreases connections.len(),
{
    if connections.len() > 0 {
        lemma_morphed_intersection(preview, connections.drop_last());
        lemma_morphed_lanes(preview, connections.last().lanes);
    }
}

/// The surfaces of lanes that come out of a morph change nothing.
pub proof fn lemma_morphed_lanes(preview: PreviewView, lanes: Seq<PathGeometryView>)
    ensures
        with_lane_surfaces(preview, lanes, Verdict::Morph) == preview,
    decreases lanes.len(),
{
    if lanes.len() > 0 {
        lemma_morphed_lanes(preview, lanes.drop_last());
    }
}

/// An intersection with two connection points of one lane each, when it is
/// built, adds the surface of the first lane and then that of the second to
/// the lanes to build, and changes nothing else.
pub proof fn law_intersection_expansion(
    preview: PreviewView,
    first: ConnectingLanesView,
    second: ConnectingLanesView,
)
    requires
        first.lanes.len() == 1,
        second.lanes.len() == 1,
    ensures
        with_prototype(preview, KindView::Intersection(seq![first, second]), Verdict::Construct)
            == (PreviewView {
            lanes_to_construct: merged(
                merged(preview.lanes_to_construct, first.lanes[0].lane),
                second.lanes[0].lane,
            ),
            ..preview
        }),
{
    let connections = seq![first, second];
    let verdict = Verdict::Construct;
    assert(connections.drop_last() =~= seq![first]);
    assert(seq![first].drop_last() =~= Seq::<ConnectingLanesView>::empty());
    assert(connections.last() == second);
    assert(seq![first].last() == first);
    assert(first.lanes.drop_last() =~= Seq::<PathGeometryView>::empty());
    assert(second.lanes.drop_last() =~= Seq::<PathGeometryView>::empty());
    let start = with_intersection(preview, Seq::empty(), verdict);
    assert(start == preview);
    let after_first = with_intersection(preview, seq![first], verdict);
    assert(after_first == with_lane_surfaces(start, first.lanes, verdict));
    assert(with_lane_surfaces(start, first.lanes.drop_last(), verdict) == start);
    assert(after_first == with_lane_surface(start, first.lanes[0], verdict));
    let after_second = with_intersection(preview, connections, verdict);
    assert(after_second == with_lane_surfaces(after_first, second.lanes, verdict));
    assert(with_lane_surfaces(after_first, second.lanes.drop_last(), verdict) == after_first);
}

/// A plan result of two road lanes, of which the actions build the first and
/// take the second away, shows the surface of the first among the lanes to
/// build, its markings, left half then right half, among the markings, and
/// the surface of the second among the lanes to take away. The zones and the
/// gaps stay empty.
pub proof fn law_construct_and_destruct(
    first: crate::ident::PrototypeID,
    first_path: PathGeometryView,
    second: crate::ident::PrototypeID,
    second_path: PathGeometryView,
)
    requires
        first != second,
    ensures
        preview_of(
            seq![
                (first, crate::prototype::PrototypeView { id: first, kind: KindView::Lane(first_path) }),
                (
                    second,
                    crate::prototype::PrototypeView { id: second, kind: KindView::Lane(second_path) },
                ),
            ],
            seq![seq![Action::Construct(first)], seq![Action::Destruct(second)]],
        ) == (PreviewView {
            zones: empty_mesh(),
            lanes_to_construct: first_path.lane,
            lanes_to_construct_marker: merged(first_path.marker_left, first_path.marker_right),
            lanes_to_destruct: second_path.lane,
            switch_lanes_to_construct_marker_gap: empty_mesh(),
        }),
{
    let a = (first, crate::prototype::PrototypeView { id: first, kind: KindView::Lane(first_path) });
    let b = (
        second,
        crate::prototype::PrototypeView { id: second, kind: KindView::Lane(second_path) },
    );
    let result = seq![a, b];
    let build = seq![Action::Construct(first)];
    let take = seq![Action::Destruct(second)];
    let groups = seq![build, take];
    assert(result.drop_last() =~= seq![a]);
    assert(seq![a].drop_last() =~= Seq::<(crate::ident::PrototypeID, crate::prototype::PrototypeView)>::empty());
    assert(result.last() == b);
    assert(seq![a].last() == a);
    assert(groups[0] == build);
    assert(groups.drop_first() =~= seq![take]);
    assert(seq![take][0] == take);
    assert(seq![take].drop_first() =~= Seq::<Seq<Action>>::empty());
    assert(build[0] == Action::Construct(first));
    assert(build.drop_first() =~= Seq::<Action>::empty());
    assert(take[0] == Action::Destruct(second));
    assert(take.drop_first() =~= Seq::<Action>::empty());
    assert(crate::actions::first_verdict(Seq::<Action>::empty(), second) is None);
    assert(governing_verdict(Seq::<Seq<Action>>::empty(), second) is None);
    assert(crate::actions::first_verdict(build, first) == Some(Verdict::Construct));
    assert(!crate::actions::targets(build[0], second));
    assert(crate::actions::first_verdict(build, second) is None);
    assert(crate::actions::first_verdict(take, second) == Some(Verdict::Destruct));
    assert(governing_verdict(groups, first) == Some(Verdict::Construct));
    assert(governing_verdict(seq![take], second) == Some(Verdict::Destruct));
    assert(governing_verdict(groups, second) == Some(Verdict::Destruct));
    crate::mesh::lemma_merge_empty(first_path.lane);
    crate::mesh::lemma_merge_empty(first_path.marker_left);
    crate::mesh::lemma_merge_empty(second_path.lane);
    let none = preview_of(Seq::empty(), groups);
    assert(none == empty_preview());
    let one = preview_of(seq![a], groups);
    assert(one == with_governed(none, a.1.kind, governing_verdict(groups, first)));
}

impl Preview {
    /// The preview in which nothing is shown.
    pub fn empty() -> (preview: Preview)
        ensures
            preview@ == empty_preview(),
    {
        Preview {
            zones: Mesh::empty(),
            lanes_to_construct: Mesh::empty(),
            lanes_to_construct_marker: Mesh::empty(),
            lanes_to_destruct: Mesh::empty(),
            switch_lanes_to_construct_marker_gap: Mesh::empty(),
        }
    }

    /// Adds the surface of a lane where its verdict puts it.
    pub fn add_lane_surface(&mut self, lane: &LanePrototype, verdict: Verdict)
        ensures
            final(self)@ == with_lane_surface(old(self)@, lane.0@, verdict),
    {
        match verdict {
            Verdict::Construct => {
                self.lanes_to_construct.add_assign(&lane.0.lane);
            },
            Verdict::Morph => {},
            Verdict::Destruct => {
                self.lanes_to_destruct.add_assign(&lane.0.lane);
            },
        }
    }

    /// Adds the surfaces of all lanes of an intersection.
    pub fn add_intersection(&mut self, intersection: &IntersectionPrototype, verdict: Verdict)
        ensures
            final(self)@ == with_intersection(old(self)@, intersection@, verdict),
    {
        let connections = &intersection.connecting_lanes;
        let mut c: usize = 0;
        while c < connections.len()
            invariant
                c <= connections.len(),
                connections@ == intersection.connecting_lanes@,
                self@ == with_intersection(old(self)@, intersection@.take(c as int), verdict),
            decreases connections.len() - c,
        {
            let ghost before = self@;
            let lanes = &connections[c].lanes;
            let mut i: usize = 0;
            while i < lanes.len()
                invariant
                    i <= lanes.len(),
                    self@ == with_lane_surfaces(
                        before,
                        crate::prototype::lanes_view(lanes@).take(i as int),
                        verdict,
                    ),
                decreases lanes.len() - i,
            {
                self.add_lane_surface(&lanes[i], verdict);
                i = i + 1;
                proof {
                    let taken = crate::prototype::lanes_view(lanes@).take(i as int);
                    assert(taken.drop_last() =~= crate::prototype::lanes_view(lanes@).take(i - 1));
                    assert(taken.last() == lanes@[i - 1].0@);
                }
            }
            c = c + 1;
            proof {
                assert(crate::prototype::lanes_view(lanes@).take(i as int)
                    =~= crate::prototype::lanes_view(lanes@));
                let taken = intersection@.take(c as int);
                assert(taken.drop_last() =~= intersection@.take(c - 1));
                assert(taken.last() == connections@[c - 1]@);
            }
        }
        assert(intersection@.take(c as int) =~= intersection@);
    }

    /// Adds what a prototype of the given kind contributes under `verdict`.
    pub fn add_prototype(&mut self, kind: &PrototypeKind, verdict: Verdict)
        ensures
            final(self)@ == with_prototype(old(self)@, kind@, verdict),
    {
        match kind {
            PrototypeKind::Road(RoadPrototype::Lane(lane)) => {
                self.add_lane_surface(lane, verdict);
                match verdict {
                    Verdict::Construct => {
                        self.lanes_to_construct_marker.add_assign(&lane.0.marker_left);
                        self.lanes_to_construct_marker.add_assign(&lane.0.marker_right);
                    },
                    _ => {},
                }
            },
            PrototypeKind::Road(RoadPrototype::SwitchLane(lane)) => {
                match verdict {
                    Verdict::Construct => {
                        self.switch_lanes_to_construct_marker_gap.add_assign(&lane.0.switch_gap);
                    },
                    _ => {},
                }
            },
            PrototypeKind::Road(RoadPrototype::Intersection(intersection)) => {
                self.add_intersection(intersection, verdict);
            },
            PrototypeKind::Road(RoadPrototype::PavedArea) => {},
            PrototypeKind::Lot(lot) => {
                match lot.occupancy {
                    LotOccupancy::Vacant => {
                        self.zones.add_assign(&lot.footprint);
                    },
                    LotOccupancy::Occupied(_) => {},
                }
            },
        }
    }

    /// Works out the preview of a plan result under the action groups.
    pub fn reconcile(result: &PlanResult, actions: &ActionGroups) -> (preview: Preview)
        ensures
            preview@ == preview_of(result@, actions@),
    {
        let mut preview = Preview::empty();
        let n = result.prototypes.len();
        let mut i: usize = 0;
        assert(result@.take(0) =~= Seq::empty());
        while i < n
            invariant
                i <= n,
                n == result@.len(),
                n == result.prototypes.entries().len(),
                preview@ == preview_of(result@.take(i as int), actions@),
            decreases n - i,
        {
            let id = result.prototypes.key_at(i);
            let prototype = result.prototypes.value_at(i);
            match actions.governing_verdict_for(id) {
                Some(verdict) => {
                    preview.add_prototype(&prototype.kind, verdict);
                },
                None => {},
            }
            i = i + 1;
            proof {
                let taken = result@.take(i as int);
                assert(taken.drop_last() =~= result@.take(i - 1));
                assert(taken.last() == result@[i - 1]);
            }
        }
        assert(result@.take(i as int) =~= result@);
        preview
    }
}

} // verus!
