use vstd::prelude::*;
use crate::ident::{BuildingID, PrototypeID};
use crate::mesh::{Mesh, MeshView};

verus! {

/// What is drawn for the path of one lane: the surface of the lane, the two
/// halves of its side markings, and the gap that a switch lane leaves in the
/// markings of its neighbours.
#[derive(Clone, Debug, PartialEq, Eq)]
pub struct PathGeometry {
    pub lane: Mesh,
    pub marker_left: Mesh,
    pub marker_right: Mesh,
    pub switch_gap: Mesh,
}

/// What the geometry of a path holds.
pub struct PathGeometryView {
    pub lane: MeshView,
    pub marker_left: MeshView,
    pub marker_right: MeshView,
    pub switch_gap: MeshView,
}

impl View for PathGeometry {
    type V = PathGeometryView;

    open spec fn view(&self) -> PathGeometryView {
        PathGeometryView {
            lane: self.lane@,
            marker_left: self.marker_left@,
            marker_right: self.marker_right@,
            switch_gap: self.switch_gap@,
        }
    }
}

impl PathGeometry {
    /// A geometry that holds what this one holds.
    pub fn duplicate(&self) -> (copy: PathGeometry)
        ensures
            copy@ == self@,
    {
        PathGeometry {
            lane: self.lane.duplicate(),
            marker_left: self.marker_left.duplicate(),
            marker_right: self.marker_right.duplicate(),
            switch_gap: self.switch_gap.duplicate(),
        }
    }
}

/// A road lane that a proposal would build or take away.
#[derive(Clone, Debug, PartialEq, Eq)]
pub struct LanePrototype(pub PathGeometry);

/// A lane on which traffic changes between two neighbouring lanes.
#[derive(Clone, Debug, PartialEq, Eq)]
pub struct SwitchLanePrototype(pub PathGeometry);

/// The geometries of a sequence of lanes, in order.
pub open spec fn lanes_view(lanes: Seq<LanePrototype>) -> Seq<PathGeometryView> {
    lanes.map_values(|lane: LanePrototype| lane.0@)
}

/// Copies a sequence of lanes.
pub fn duplicate_lanes(lanes: &Vec<LanePrototype>) -> (copy: Vec<LanePrototype>)
    ensures
        lanes_view(copy@) == lanes_view(lanes@),
{
    let mut copy: Vec<LanePrototype> = Vec::new();
    let mut i: usize = 0;
    while i < lanes.len()
        invariant
            i <= lanes.len(),
            copy@.len() == i,
            forall|j: int| 0 <= j < i ==> (#[trigger] copy@[j]).0@ == lanes@[j].0@,
        decreases lanes.len() - i,
    {
        copy.push(LanePrototype(lanes[i].0.duplicate()));
        i = i + 1;
    }
    assert(lanes_view(copy@) =~= lanes_view(lanes@));
    copy
}

/// A point at which an intersection meets the roads that lead into it.
#[derive(Clone, Copy, Debug, PartialEq, Eq, Hash)]
pub struct ConnectionPoint(pub u64);

/// The lanes that run through an intersection from one of its connection
/// points, in their order.
#[derive(Clone, Debug, PartialEq, Eq)]
pub struct ConnectingLanes {
    pub point: ConnectionPoint,
    pub lanes: Vec<LanePrototype>,
}

/// What the lanes from one connection point hold.
pub struct ConnectingLanesView {
    pub point: ConnectionPoint,
    pub lanes: Seq<PathGeometryView>,
}

impl View for ConnectingLanes {
    type V = ConnectingLanesView;

    open spec fn view(&self) -> ConnectingLanesView {
        ConnectingLanesView { point: self.point, lanes: lanes_view(self.lanes@) }
    }
}

/// What the connections of an intersection hold, in order.
pub open spec fn connections_view(connections: Seq<ConnectingLanes>) -> Seq<ConnectingLanesView> {
    connections.map_values(|c: ConnectingLanes| c@)
}

/// An intersection. It has no surface of its own: it is drawn as the lanes
/// that run through it.
#[derive(Clone, Debug, PartialEq, Eq)]
pub struct IntersectionPrototype {
    pub connecting_lanes: Vec<ConnectingLanes>,
}

impl View for IntersectionPrototype {
    type V = Seq<ConnectingLanesView>;

    open spec fn view(&self) -> Seq<ConnectingLanesView> {
        connections_view(self.connecting_lanes@)
    }
}

impl IntersectionPrototype {
    /// An intersection that holds what this one holds.
    pub fn duplicate(&self) -> (copy: IntersectionPrototype)
        ensures
            copy@ == self@,
    {
        let mut connections: Vec<ConnectingLanes> = Vec::new();
        let mut i: usize = 0;
        while i < self.connecting_lanes.len()
            invariant
                i <= self.connecting_lanes.len(),
                connections@.len() == i,
                forall|j: int| 0 <= j < i ==> (#[trigger] connections@[j])@ == self.connecting_lanes@[j]@,
            decreases self.connecting_lanes.len() - i,
        {
            let c = &self.connecting_lanes[i];
            connections.push(ConnectingLanes { point: c.point, lanes: duplicate_lanes(&c.lanes) });
            i = i + 1;
        }
        assert(connections_view(connections@) =~= connections_view(self.connecting_lanes@));
        IntersectionPrototype { connecting_lanes: connections }
    }
}

/// The kinds of road prototype.
#[derive(Clone, Debug, PartialEq, Eq)]
pub enum RoadPrototype {
    Lane(LanePrototype),
    SwitchLane(SwitchLanePrototype),
    Intersection(IntersectionPrototype),
    PavedArea,
}

/// Whether a building stands on a lot.
#[derive(Clone, Copy, Debug, PartialEq, Eq)]
pub enum LotOccupancy {
    Vacant,
    Occupied(BuildingID),
}

/// A zoning lot, with the mesh of its footprint.
#[derive(Clone, Debug, PartialEq, Eq)]
pub struct LotPrototype {
    pub footprint: Mesh,
    pub occupancy: LotOccupancy,
}

/// The kinds of prototype.
#[derive(Clone, Debug, PartialEq, Eq)]
pub enum PrototypeKind {
    Road(RoadPrototype),
    Lot(LotPrototype),
}

/// What a prototype is, with all that is drawn for it.
pub enum KindView {
    Lane(PathGeometryView),
    SwitchLane(PathGeometryView),
    Intersection(Seq<ConnectingLanesView>),
    PavedArea,
    Lot { footprint: MeshView, occupancy: LotOccupancy },
}

impl View for PrototypeKind {
    type V = KindView;

    open spec fn view(&self) -> KindView {
        match *self {
            PrototypeKind::Road(RoadPrototype::Lane(lane)) => KindView::Lane(lane.0@),
            PrototypeKind::Road(RoadPrototype::SwitchLane(lane)) => KindView::SwitchLane(lane.0@),
            PrototypeKind::Road(RoadPrototype::Intersection(intersection)) => KindView::Intersection(
                intersection@,
            ),
            PrototypeKind::Road(RoadPrototype::PavedArea) => KindView::PavedArea,
            PrototypeKind::Lot(lot) => KindView::Lot {
                footprint: lot.footprint@,
                occupancy: lot.occupancy,
            },
        }
    }
}

impl PrototypeKind {
    /// A kind that holds what this one holds.
    pub fn duplicate(&self) -> (copy: PrototypeKind)
        ensures
            copy@ == self@,
    {
        match self {
            PrototypeKind::Road(RoadPrototype::Lane(lane)) => PrototypeKind::Road(
                RoadPrototype::Lane(LanePrototype(lane.0.duplicate())),
            ),
            PrototypeKind::Road(RoadPrototype::SwitchLane(lane)) => PrototypeKind::Road(
                RoadPrototype::SwitchLane(SwitchLanePrototype(lane.0.duplicate())),
            ),
            PrototypeKind::Road(RoadPrototype::Intersection(intersection)) => PrototypeKind::Road(
                RoadPrototype::Intersection(intersection.duplicate()),
            ),
            PrototypeKind::Road(RoadPrototype::PavedArea) => PrototypeKind::Road(
                RoadPrototype::PavedArea,
            ),
            PrototypeKind::Lot(lot) => PrototypeKind::Lot(
                LotPrototype { footprint: lot.footprint.duplicate(), occupancy: lot.occupancy },
            ),
        }
    }
}

/// A candidate object that a proposal would place, under its identifier.
#[derive(Clone, Debug, PartialEq, Eq)]
pub struct Prototype {
    pub id: PrototypeID,
    pub kind: PrototypeKind,
}

/// What a prototype holds.
pub struct PrototypeView {
    pub id: PrototypeID,
    pub kind: KindView,
}

impl View for Prototype {
    type V = PrototypeView;

    open spec fn view(&self) -> PrototypeView {
        PrototypeView { id: self.id, kind: self.kind@ }
    }
}

impl Prototype {
    /// A prototype that holds what this one holds.
    pub fn duplicate(&self) -> (copy: Prototype)
        ensures
            copy@ == self@,
    {
        Prototype { id: self.id, kind: self.kind.duplicate() }
    }
}

} // verus!
