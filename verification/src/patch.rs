use vstd::prelude::*;
use crate::history::{HistoryView, PlanHistory};
use vstd::string::*;
use crate::ident::{ProposalID, RawID};
use crate::key::{append_upper_hex, key_text, upper_hex};
use crate::mesh::{js_mesh_of, to_js_mesh, JsMesh, JsMeshView, Mesh, MeshView};
use crate::preview::{Preview, PreviewView};
use crate::proposal::{Plan, PlanView, Proposal, ProposalView};

verus! {

/// The named members of the state tree of the presentation surface.
#[derive(Clone, Copy, Debug, PartialEq, Eq, Hash, Structural)]
pub enum Field {
    Planning,
    Rendering,
    StaticMeshes,
    Master,
    Proposals,
    Ongoing,
    CurrentPreview,
    Transport,
    CarInstances,
    LaneMarkerGap,
    LaneAsphalt,
    LaneMarker,
    LandUse,
    Wall,
    BrickRoof,
    FlatRoof,
    Field,
}

/// The name under which the presentation surface knows a member.
pub open spec fn field_name(field: Field) -> Seq<char> {
    match field {
        Field::Planning => "planning"@,
        Field::Rendering => "rendering"@,
        Field::StaticMeshes => "staticMeshes"@,
        Field::Master => "master"@,
        Field::Proposals => "proposals"@,
        Field::Ongoing => "ongoing"@,
        Field::CurrentPreview => "currentPreview"@,
        Field::Transport => "transport"@,
        Field::CarInstances => "carInstances"@,
        Field::LaneMarkerGap => "laneMarkerGap"@,
        Field::LaneAsphalt => "laneAsphalt"@,
        Field::LaneMarker => "laneMarker"@,
        Field::LandUse => "landUse"@,
        Field::Wall => "wall"@,
        Field::BrickRoof => "brickRoof"@,
        Field::FlatRoof => "flatRoof"@,
        Field::Field => "field"@,
    }
}

impl Field {
    /// The name under which the presentation surface knows this member.
    pub fn name(self) -> (name: &'static str)
        ensures
            name@ == field_name(self),
    {
        match self {
            Field::Planning => "planning",
            Field::Rendering => "rendering",
            Field::StaticMeshes => "staticMeshes",
            Field::Master => "master",
            Field::Proposals => "proposals",
            Field::Ongoing => "ongoing",
            Field::CurrentPreview => "currentPreview",
            Field::Transport => "transport",
            Field::CarInstances => "carInstances",
            Field::LaneMarkerGap => "laneMarkerGap",
            Field::LaneAsphalt => "laneAsphalt",
            Field::LaneMarker => "laneMarker",
            Field::LandUse => "landUse",
            Field::Wall => "wall",
            Field::BrickRoof => "brickRoof",
            Field::FlatRoof => "flatRoof",
            Field::Field => "field",
        }
    }
}

/// One step of a path into the state tree: a named member, or the key of an
/// entry that belongs to an entity, to a proposal or to a name.
#[derive(Clone, Copy, Debug, PartialEq, Eq)]
pub enum Segment {
    Field(Field),
    Entity(RawID),
    Proposal(ProposalID),
    Name(&'static str),
}

/// What a step of a path holds.
pub enum SegmentView {
    Field(Field),
    Entity(RawID),
    Proposal(ProposalID),
    Name(Seq<char>),
}

impl View for Segment {
    type V = SegmentView;

    open spec fn view(&self) -> SegmentView {
        match *self {
            Segment::Field(field) => SegmentView::Field(field),
            Segment::Entity(id) => SegmentView::Entity(id),
            Segment::Proposal(id) => SegmentView::Proposal(id),
            Segment::Name(name) => SegmentView::Name(name@),
        }
    }
}

/// The text of a step of a path on the presentation surface: the name of a
/// member, the key of an entity, the number of a proposal in hexadecimal
/// digits, or a name as it is.
pub open spec fn segment_text(segment: SegmentView) -> Seq<char> {
    match segment {
        SegmentView::Field(field) => field_name(field),
        SegmentView::Entity(id) => key_text(id),
        SegmentView::Proposal(id) => upper_hex(id.0 as nat),
        SegmentView::Name(name) => name,
    }
}

impl Segment {
    /// The text of this step on the presentation surface.
    pub fn text(&self) -> (text: String)
        ensures
            text@ == segment_text(self@),
    {
        match *self {
            Segment::Field(field) => String::from_str(field.name()),
            Segment::Entity(id) => id.key(),
            Segment::Proposal(id) => {
                let mut text = String::new();
                append_upper_hex(&mut text, id.0);
                text
            },
            Segment::Name(name) => String::from_str(name),
        }
    }
}

/// A path into the state tree, from the root.
pub type PathView = Seq<SegmentView>;

/// What a path holds.
pub open spec fn path_view(path: Seq<Segment>) -> PathView {
    path.map_values(|s: Segment| s@)
}

/// The path of three named members.
pub open spec fn member_path(a: Field, b: Field, c: Field) -> PathView {
    seq![SegmentView::Field(a), SegmentView::Field(b), SegmentView::Field(c)]
}

/// The preview in the form in which it crosses to the presentation surface.
#[derive(Clone, Debug, PartialEq, Eq)]
pub struct JsPreview {
    pub zones: JsMesh,
    pub lanes_to_construct: JsMesh,
    pub lanes_to_construct_marker: JsMesh,
    pub lanes_to_destruct: JsMesh,
    pub switch_lanes_to_construct_marker_gap: JsMesh,
}

/// What a flat preview holds.
pub struct JsPreviewView {
    pub zones: JsMeshView,
    pub lanes_to_construct: JsMeshView,
    pub lanes_to_construct_marker: JsMeshView,
    pub lanes_to_destruct: JsMeshView,
    pub switch_lanes_to_construct_marker_gap: JsMeshView,
}

impl View for JsPreview {
    type V = JsPreviewView;

    open spec fn view(&self) -> JsPreviewView {
        JsPreviewView {
            zones: self.zones@,
            lanes_to_construct: self.lanes_to_construct@,
            lanes_to_construct_marker: self.lanes_to_construct_marker@,
            lanes_to_destruct: self.lanes_to_destruct@,
            switch_lanes_to_construct_marker_gap: self.switch_lanes_to_construct_marker_gap@,
        }
    }
}

/// The flat form of a preview.
pub open spec fn js_preview_of(preview: PreviewView) -> JsPreviewView {
    JsPreviewView {
        zones: js_mesh_of(preview.zones),
        lanes_to_construct: js_mesh_of(preview.lanes_to_construct),
        lanes_to_construct_marker: js_mesh_of(preview.lanes_to_construct_marker),
        lanes_to_destruct: js_mesh_of(preview.lanes_to_destruct),
        switch_lanes_to_construct_marker_gap: js_mesh_of(
            preview.switch_lanes_to_construct_marker_gap,
        ),
    }
}

/// Puts a preview into the form in which it crosses to the presentation
/// surface.
pub fn to_js_preview(preview: &Preview) -> (js: JsPreview)
    ensures
        js@ == js_preview_of(preview@),
{
    JsPreview {
        zones: to_js_mesh(&preview.zones),
        lanes_to_construct: to_js_mesh(&preview.lanes_to_construct),
        lanes_to_construct_marker: to_js_mesh(&preview.lanes_to_construct_marker),
        lanes_to_destruct: to_js_mesh(&preview.lanes_to_destruct),
        switch_lanes_to_construct_marker_gap: to_js_mesh(
            &preview.switch_lanes_to_construct_marker_gap,
        ),
    }
}

/// A value that can be stored in the state tree.
#[derive(Debug, PartialEq, Eq)]
pub enum Value {
    /// A mesh, flat.
    Mesh(JsMesh),
    /// Instances, flat: eight numbers each.
    Instances(Vec<u32>),
    /// The master plan.
    MasterPlan(PlanHistory),
    /// A proposal.
    Proposal(Proposal),
    /// One step of a proposal.
    Step(Plan),
    /// The five meshes of a preview, flat.
    Preview(JsPreview),
}

/// What a value holds.
pub enum ValueView {
    Mesh(JsMeshView),
    Instances(Seq<u32>),
    MasterPlan(HistoryView),
    Proposal(ProposalView),
    Step(PlanView),
    Preview(JsPreviewView),
}

impl View for Value {
    type V = ValueView;

    open spec fn view(&self) -> ValueView {
        match *self {
            Value::Mesh(mesh) => ValueView::Mesh(mesh@),
            Value::Instances(numbers) => ValueView::Instances(numbers@),
            Value::MasterPlan(history) => ValueView::MasterPlan(history@),
            Value::Proposal(proposal) => ValueView::Proposal(proposal@),
            Value::Step(plan) => ValueView::Step(plan@),
            Value::Preview(preview) => ValueView::Preview(preview@),
        }
    }
}

/// A command to the presentation surface.
#[derive(Debug, PartialEq, Eq)]
pub enum Patch {
    /// Put `value` at `path`, in place of whatever is there.
    SetAt { path: Vec<Segment>, value: Value },
    /// Take the entries named by `keys` out of what is at `path`.
    UnsetAt { path: Vec<Segment>, keys: Vec<Segment> },
}

/// What a command holds.
pub enum PatchView {
    SetAt { path: PathView, value: ValueView },
    UnsetAt { path: PathView, keys: Seq<SegmentView> },
}

impl View for Patch {
    type V = PatchView;

    open spec fn view(&self) -> PatchView {
        match *self {
            Patch::SetAt { path, value } => PatchView::SetAt { path: path_view(path@), value: value@ },
            Patch::UnsetAt { path, keys } => PatchView::UnsetAt {
                path: path_view(path@),
                keys: path_view(keys@),
            },
        }
    }
}

/// What a batch of commands holds, in order.
pub open spec fn patches_view(patches: Seq<Patch>) -> Seq<PatchView> {
    patches.map_values(|p: Patch| p@)
}

/// The command that stores the flat form of `mesh` under the key `key` of
/// the keyed store at `store`.
pub open spec fn set_mesh_at(store: PathView, key: SegmentView, mesh: MeshView) -> PatchView {
    PatchView::SetAt { path: store.push(key), value: ValueView::Mesh(js_mesh_of(mesh)) }
}

/// The command that takes the key `key` out of the keyed store at `store`.
pub open spec fn unset_at(store: PathView, key: SegmentView) -> PatchView {
    PatchView::UnsetAt { path: store, keys: seq![key] }
}

/// The path of three named members.
pub fn members(a: Field, b: Field, c: Field) -> (path: Vec<Segment>)
    ensures
        path_view(path@) == member_path(a, b, c),
{
    let mut path: Vec<Segment> = Vec::new();
    path.push(Segment::Field(a));
    path.push(Segment::Field(b));
    path.push(Segment::Field(c));
    assert(path_view(path@) =~= member_path(a, b, c));
    path
}

impl Patch {
    /// The command that stores the flat form of `mesh` under `key` in the
    /// keyed store `rendering.store` of the part `part` of the tree.
    pub fn set_mesh(part: Field, store: Field, key: Segment, mesh: &Mesh) -> (patch: Patch)
        ensures
            patch@ == set_mesh_at(member_path(part, Field::Rendering, store), key@, mesh@),
    {
        let mut path = members(part, Field::Rendering, store);
        path.push(key);
        assert(path_view(path@) =~= member_path(part, Field::Rendering, store).push(key@));
        Patch::SetAt { path, value: Value::Mesh(to_js_mesh(mesh)) }
    }

    /// The command that takes `key` out of the keyed store `rendering.store`
    /// of the part `part` of the tree.
    pub fn unset(part: Field, store: Field, key: Segment) -> (patch: Patch)
        ensures
            patch@ == unset_at(member_path(part, Field::Rendering, store), key@),
    {
        let path = members(part, Field::Rendering, store);
        let mut keys: Vec<Segment> = Vec::new();
        keys.push(key);
        assert(path_view(keys@) =~= seq![key@]);
        Patch::UnsetAt { path, keys }
    }
}

} // verus!
