use vstd::prelude::*;

verus! {

/// The table an error speaks of.
#[derive(Clone, Copy, Debug, PartialEq, Eq, Structural)]
pub enum Entity {
    Resource,
    ResourceConfig,
}

/// What the storage engine said when it turned a statement down.
#[derive(Clone, Copy, Debug, PartialEq, Eq, Structural)]
pub enum DriverError {
    /// A row with the same unique key is already there.
    UniqueViolation,
}

/// Why a repository call did not succeed.
#[derive(Clone, Copy, Debug, PartialEq, Eq, Structural)]
pub enum StoreError {
    /// The row asked for is absent.
    NotFound { entity: Entity },
    /// A row with that identity exists already.
    Conflict { entity: Entity },
    /// No connection could be had from the pool.
    StoreUnavailable,
    /// The engine rejected a statement that was well formed.
    QueryFailed { entity: Entity, cause: DriverError },
}

/// The part of a lifecycle operation that writes.
#[derive(Clone, Copy, Debug, PartialEq, Eq, Structural)]
pub enum Step {
    /// Writing or removing the identity row.
    IdentityWrite,
    /// Writing or removing version rows.
    VersionWrite,
}

/// A repository error, with the step of the lifecycle operation at which it came.
#[derive(Clone, Copy, Debug, PartialEq, Eq, Structural)]
pub struct ServiceError {
    pub step: Step,
    pub cause: StoreError,
}

impl Entity {
    /// The name of the table, as diagnostics print it.
    pub fn name(&self) -> (s: &'static str)
        ensures
            s@ == (match *self {
                Entity::Resource => "Resource"@,
                Entity::ResourceConfig => "ResourceConfig"@,
            }),
    {
        match self {
            Entity::Resource => "Resource",
            Entity::ResourceConfig => "ResourceConfig",
        }
    }
}

impl ServiceError {
    /// The operation stopped half way: its identity step was done, its version
    /// step was not.
    pub open spec fn is_partial(self) -> bool {
        self.step == Step::VersionWrite
    }

    pub fn partial(&self) -> (b: bool)
        ensures
            b == self.is_partial(),
    {
        match self.step {
            Step::IdentityWrite => false,
            Step::VersionWrite => true,
        }
    }
}

} // verus!
