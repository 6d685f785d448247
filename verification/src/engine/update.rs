//! The update protocol: state is read through an update that records
//! writes, and the update is then applied to the state in one step.
use vstd::prelude::*;
use crate::error::Result;

verus! {

/// A piece of state that an update can be applied to.
pub trait Updatable {}

/// A staged change to a target.
pub trait Delta: Sized {
    type Target;

    fn new() -> Self;

    fn apply(&self, target: &mut Self::Target) -> Result<()>;
}

/// A container addressed by keys.
pub trait UpdatableContainer {
    type CoordinateType;
    type DataType;

    fn get(&self, key: &Self::CoordinateType) -> Result<&Self::DataType>;

    fn mut_set(&mut self, key: &Self::CoordinateType, value: &Self::DataType) -> Result<()>;
}

/// The writes staged against a container. Reads go to the staged value
/// where there is one, else to the container.
pub trait UpdatableContainerDelta {
    type CoordinateType;
    type DataType;
    type Target;

    fn get<'a>(&'a self, source: &'a Self::Target, key: &Self::CoordinateType) -> Result<
        &'a Self::DataType,
    >;

    fn set(&mut self, key: &Self::CoordinateType, value: &Self::DataType) -> Result<()>;

    fn get_cached(&self, key: &Self::CoordinateType) -> Result<Option<&Self::DataType>>;
}

} // verus!
