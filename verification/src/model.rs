//! The store as mathematics: what the two tables hold, and what each
//! operation makes of them. The contracts of the executable functions are
//! stated over these definitions.

use crate::error::{DriverError, Entity, ServiceError, Step, StoreError};
use crate::models::resource::{ResourceConfigView, ResourceKind, ResourcePartialView, ResourceView};
use vstd::prelude::*;

verus! {

/// The state of a store.
pub struct StoreView {
    /// The identity table: the kind of each resource, by key.
    pub resources: Map<Seq<char>, ResourceKind>,
    /// The version table, in the order in which the rows were written.
    pub configs: Seq<ResourceConfigView>,
    /// How many connections the pool has.
    pub pool_size: nat,
    /// How many of them are checked out.
    pub in_use: nat,
}

/// Holds of the versions that belong to the resource `resource_key`.
pub open spec fn owned_by(resource_key: Seq<char>) -> spec_fn(ResourceConfigView) -> bool {
    |version: ResourceConfigView| version.resource_key == resource_key
}

/// Holds of the versions that belong to any other resource.
pub open spec fn not_owned_by(resource_key: Seq<char>) -> spec_fn(ResourceConfigView) -> bool {
    |version: ResourceConfigView| version.resource_key != resource_key
}

/// No two rows have the same key.
pub open spec fn distinct_keys(rows: Seq<ResourceConfigView>) -> bool {
    forall|i: int, j: int| 0 <= i < j < rows.len() ==> rows[i].key != rows[j].key
}

/// Each row is at least as new as every row after it.
pub open spec fn descending(rows: Seq<ResourceConfigView>) -> bool {
    forall|i: int, j: int| 0 <= i < j < rows.len() ==> rows[i].created_at >= rows[j].created_at
}

/// The place of a version stamped `at` in a list that is newest first: before
/// the first version that is not newer than it.
pub open spec fn slot(sorted: Seq<ResourceConfigView>, at: i64) -> int
    decreases sorted.len(),
{
    if sorted.len() == 0 || sorted.first().created_at <= at {
        0
    } else {
        1 + slot(sorted.drop_first(), at)
    }
}

/// `rows` ordered by `created_at`, newest first. Of two rows with the same
/// `created_at`, the one that stands later in `rows` comes first.
pub open spec fn newest_first(rows: Seq<ResourceConfigView>) -> Seq<ResourceConfigView>
    decreases rows.len(),
{
    if rows.len() == 0 {
        Seq::empty()
    } else {
        let earlier = newest_first(rows.drop_last());
        earlier.insert(slot(earlier, rows.last().created_at), rows.last())
    }
}

/// The identity row that a creation request asks for.
pub open spec fn identity_of(payload: ResourcePartialView) -> ResourceView {
    ResourceView { key: payload.name, kind: payload.kind }
}

/// The first version that a creation request asks for, under the key and the
/// time that were drawn for it.
pub open spec fn first_version_of(
    payload: ResourcePartialView,
    key: u128,
    now: i64,
) -> ResourceConfigView {
    ResourceConfigView { key, resource_key: payload.name, data: payload.config, created_at: now }
}

/// Holds of the keys that `Uuid::new_v4` can give: the version field says 4 and
/// the variant field says RFC 9562.
pub open spec fn is_random_uuid(key: u128) -> bool {
    key & 0x0000_0000_0000_f000_c000_0000_0000_0000u128
        == 0x0000_0000_0000_4000_8000_0000_0000_0000u128
}

/// What can be seen of one resource in the two tables.
#[derive(Clone, Copy, Debug, PartialEq, Eq, Structural)]
pub enum ResourceState {
    /// No identity row and no version.
    Absent,
    /// An identity row and at least one version.
    Active,
    /// An identity row without versions, or versions without an identity row.
    Orphaned,
}

impl StoreView {
    /// What every store holds to: no two versions share a key, and no more
    /// connections are out than the pool has.
    pub open spec fn wf(self) -> bool {
        &&& self.in_use <= self.pool_size
        &&& distinct_keys(self.configs)
    }

    /// A connection can be had.
    pub open spec fn available(self) -> bool {
        self.in_use < self.pool_size
    }

    pub open spec fn has_resource(self, key: Seq<char>) -> bool {
        self.resources.contains_key(key)
    }

    /// The identity row under `key`.
    pub open spec fn resource(self, key: Seq<char>) -> ResourceView
        recommends
            self.has_resource(key),
    {
        ResourceView { key, kind: self.resources[key] }
    }

    pub open spec fn has_version(self, key: u128) -> bool {
        exists|i: int| 0 <= i < self.configs.len() && self.configs[i].key == key
    }

    /// The version under `key`.
    pub open spec fn version(self, key: u128) -> ResourceConfigView
        recommends
            self.has_version(key),
    {
        self.configs[choose|i: int| 0 <= i < self.configs.len() && self.configs[i].key == key]
    }

    /// The versions of one resource, in the order in which they were written.
    pub open spec fn versions_of(self, resource_key: Seq<char>) -> Seq<ResourceConfigView> {
        self.configs.filter(owned_by(resource_key))
    }

    /// The versions of one resource, newest first: what a listing returns.
    pub open spec fn history(self, resource_key: Seq<char>) -> Seq<ResourceConfigView> {
        newest_first(self.versions_of(resource_key))
    }

    pub open spec fn state_of(self, key: Seq<char>) -> ResourceState {
        if self.has_resource(key) {
            if self.versions_of(key).len() > 0 {
                ResourceState::Active
            } else {
                ResourceState::Orphaned
            }
        } else {
            if self.versions_of(key).len() > 0 {
                ResourceState::Orphaned
            } else {
                ResourceState::Absent
            }
        }
    }

    pub open spec fn with_resource(self, resource: ResourceView) -> StoreView {
        StoreView { resources: self.resources.insert(resource.key, resource.kind), ..self }
    }

    pub open spec fn without_resource(self, key: Seq<char>) -> StoreView {
        StoreView { resources: self.resources.remove(key), ..self }
    }

    pub open spec fn with_version(self, version: ResourceConfigView) -> StoreView {
        StoreView { configs: self.configs.push(version), ..self }
    }

    pub open spec fn without_versions_of(self, resource_key: Seq<char>) -> StoreView {
        StoreView { configs: self.configs.filter(not_owned_by(resource_key)), ..self }
    }

    /// Why a statement that needs nothing but a connection fails, if it does.
    pub open spec fn connection_error(self) -> Option<StoreError> {
        if !self.available() {
            Some(StoreError::StoreUnavailable)
        } else {
            None
        }
    }

    /// Why writing the identity row `key` fails, if it does.
    pub open spec fn insert_resource_error(self, key: Seq<char>) -> Option<StoreError> {
        if !self.available() {
            Some(StoreError::StoreUnavailable)
        } else if self.has_resource(key) {
            Some(StoreError::Conflict { entity: Entity::Resource })
        } else {
            None
        }
    }

    /// Why reading or removing the identity row `key` fails, if it does.
    pub open spec fn resource_error(self, key: Seq<char>) -> Option<StoreError> {
        if !self.available() {
            Some(StoreError::StoreUnavailable)
        } else if !self.has_resource(key) {
            Some(StoreError::NotFound { entity: Entity::Resource })
        } else {
            None
        }
    }

    /// Why writing a version under `key` fails, if it does.
    pub open spec fn create_error(self, key: u128) -> Option<StoreError> {
        if !self.available() {
            Some(StoreError::StoreUnavailable)
        } else if self.has_version(key) {
            Some(
                StoreError::QueryFailed {
                    entity: Entity::ResourceConfig,
                    cause: DriverError::UniqueViolation,
                },
            )
        } else {
            None
        }
    }

    /// Why reading the version `key` fails, if it does.
    pub open spec fn version_error(self, key: u128) -> Option<StoreError> {
        if !self.available() {
            Some(StoreError::StoreUnavailable)
        } else if !self.has_version(key) {
            Some(StoreError::NotFound { entity: Entity::ResourceConfig })
        } else {
            None
        }
    }

    /// Why reading the current version of `resource_key` fails, if it does.
    pub open spec fn current_version_error(self, resource_key: Seq<char>) -> Option<StoreError> {
        if !self.available() {
            Some(StoreError::StoreUnavailable)
        } else if self.history(resource_key).len() == 0 {
            Some(StoreError::NotFound { entity: Entity::ResourceConfig })
        } else {
            None
        }
    }

    /// What a listing of the versions of `resource_key` returns.
    pub open spec fn listing(self, resource_key: Seq<char>) -> Result<
        Seq<ResourceConfigView>,
        StoreError,
    > {
        match self.connection_error() {
            Some(error) => Err(error),
            None => Ok(self.history(resource_key)),
        }
    }

    /// Why creating a resource fails, if it does, and at which step.
    pub open spec fn create_resource_error(
        self,
        payload: ResourcePartialView,
        key: u128,
    ) -> Option<ServiceError> {
        match self.insert_resource_error(payload.name) {
            Some(cause) => Some(ServiceError { step: Step::IdentityWrite, cause }),
            None => match self.with_resource(identity_of(payload)).create_error(key) {
                Some(cause) => Some(ServiceError { step: Step::VersionWrite, cause }),
                None => None,
            },
        }
    }

    /// The store after an attempt to create a resource. Where the first step
    /// fails nothing is written; where the second fails the identity row stays.
    pub open spec fn after_create_resource(
        self,
        payload: ResourcePartialView,
        key: u128,
        now: i64,
    ) -> StoreView {
        match self.create_resource_error(payload, key) {
            None => self.with_resource(identity_of(payload)).with_version(
                first_version_of(payload, key, now),
            ),
            Some(error) => if error.step == Step::VersionWrite {
                self.with_resource(identity_of(payload))
            } else {
                self
            },
        }
    }

    /// What an attempt to create a resource returns: the identity row and the
    /// first version, or the error.
    pub open spec fn create_resource_result(
        self,
        payload: ResourcePartialView,
        key: u128,
        now: i64,
    ) -> Result<(ResourceView, ResourceConfigView), ServiceError> {
        match self.create_resource_error(payload, key) {
            None => Ok((identity_of(payload), first_version_of(payload, key, now))),
            Some(error) => Err(error),
        }
    }

    /// Why deleting a resource fails, if it does. It fails at the first step
    /// or not at all: once the identity row is removed the versions are
    /// removed over the same pool, which nothing else touches in between.
    pub open spec fn delete_resource_error(self, key: Seq<char>) -> Option<ServiceError> {
        match self.resource_error(key) {
            Some(cause) => Some(ServiceError { step: Step::IdentityWrite, cause }),
            None => None,
        }
    }

    /// The store after an attempt to delete a resource: without the identity
    /// row and the versions of the resource, or, where the attempt fails, as
    /// it was.
    pub open spec fn after_delete_resource(self, key: Seq<char>) -> StoreView {
        if self.resource_error(key) is None {
            self.without_resource(key).without_versions_of(key)
        } else {
            self
        }
    }
}

} // verus!
