use vstd::prelude::*;

verus! {

/// A value that can serve as the key of a [`crate::keyed::KeyedList`]:
/// it can be copied and compared for equality at run time.
pub trait Key: Copy {
    /// Decides whether two keys are the same value.
    fn same(&self, other: &Self) -> (r: bool)
        ensures
            r == (*self == *other),
    ;
}

/// The address of one entity of the simulation: a lane, a building, a
/// proposal authority. Two entities never share an address while both live.
#[derive(Clone, Copy, Debug, PartialEq, Eq, Hash)]
pub struct RawID {
    /// Number of the instance within its class.
    pub instance_id: u32,
    /// Number of the class the instance belongs to.
    pub type_id: u16,
    /// Machine on which the instance lives.
    pub machine: u8,
    /// Generation of the instance number, raised when a number is reused.
    pub version: u8,
}

impl Key for RawID {
    fn same(&self, other: &Self) -> (r: bool) {
        self.instance_id == other.instance_id && self.type_id == other.type_id
            && self.machine == other.machine && self.version == other.version
    }
}

/// Address of the bridge itself, to which replies are sent.
#[derive(Clone, Copy, Debug, PartialEq, Eq, Hash)]
pub struct BrowserUIID(pub RawID);

/// Address of a building.
#[derive(Clone, Copy, Debug, PartialEq, Eq, Hash)]
pub struct BuildingID(pub RawID);

/// Identifier of a proposal document.
#[derive(Clone, Copy, Debug, PartialEq, Eq, Hash)]
pub struct ProposalID(pub u64);

impl Key for ProposalID {
    fn same(&self, other: &Self) -> (r: bool) {
        self.0 == other.0
    }
}

/// Identifier of one gesture of a plan.
#[derive(Clone, Copy, Debug, PartialEq, Eq, Hash)]
pub struct GestureID(pub u64);

impl Key for GestureID {
    fn same(&self, other: &Self) -> (r: bool) {
        self.0 == other.0
    }
}

/// Version marker of one editing step. A step that changes anything gets a
/// marker that was never used before.
#[derive(Clone, Copy, Debug, PartialEq, Eq, Hash)]
pub struct StepID(pub u64);

impl Key for StepID {
    fn same(&self, other: &Self) -> (r: bool) {
        self.0 == other.0
    }
}

/// Identifier of a prototype: a candidate object that a proposal would place.
#[derive(Clone, Copy, Debug, PartialEq, Eq, Hash)]
pub struct PrototypeID(pub u64);

impl Key for PrototypeID {
    fn same(&self, other: &Self) -> (r: bool) {
        self.0 == other.0
    }
}

} // verus!
