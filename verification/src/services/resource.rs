//! The lifecycle of a resource: creating it with its first version, deleting
//! it with all its versions, and reading its history.
//!
//! Each operation is two writes, first to the identity table, then to the
//! version table, and the two are not one transaction. Where the second write
//! fails after the first was made, the first is not undone: the error names
//! the step, and the resource is left orphaned, which `resource_state`
//! reports. A store that made both writes in one transaction would never be
//! seen half way; this one keeps them apart, and says in each contract what
//! is left behind.

use crate::error::{Entity, ServiceError, Step, StoreError};
use crate::model::{descending, is_random_uuid, ResourceState};
use crate::models::resource::{
    version_views, Resource, ResourceConfig, ResourceConfigDbModel, ResourceConfigView,
    ResourcePartial, ResourceView,
};
use crate::repositories::resource::{delete_by_key, insert};
use crate::repositories::resource_config::{
    create, delete_by_resource_key, fresh_key, lemma_newest_first_descending, list_by_resource,
    now_micros,
};
use crate::store::Store;
use vstd::prelude::*;

verus! {

/// The views of what a creation returns.
pub open spec fn creation_view(result: Result<(Resource, ResourceConfig), ServiceError>) -> Result<
    (ResourceView, ResourceConfigView),
    ServiceError,
> {
    match result {
        Ok((resource, version)) => Ok((resource@, version@)),
        Err(error) => Err(error),
    }
}

/// Creates the resource that `payload` describes, with `key` as the key of its
/// first version and `now` as the time of that version.
///
/// First the identity row is written, then the version. Where the identity
/// row cannot be written nothing changes. Where the version cannot be written
/// the identity row stays, without a version, and the error says
/// `VersionWrite`.
pub fn create_resource_with(
    payload: ResourcePartial,
    key: u128,
    now: i64,
    store: &mut Store,
) -> (result: Result<(Resource, ResourceConfig), ServiceError>)
    requires
        old(store).wf(),
    ensures
        final(store).wf(),
        final(store)@ == old(store)@.after_create_resource(payload@, key, now),
        creation_view(result) == old(store)@.create_resource_result(payload@, key, now),
{
    let identity = Resource { key: payload.name.clone(), kind: payload.kind };
    match insert(&identity, store) {
        Err(cause) => Err(ServiceError { step: Step::IdentityWrite, cause }),
        Ok(resource) => {
            let item = ResourceConfigDbModel {
                key,
                resource_key: payload.name,
                data: payload.config,
                created_at: now,
            };
            match create(&item, store) {
                Err(cause) => Err(ServiceError { step: Step::VersionWrite, cause }),
                Ok(row) => Ok((resource, ResourceConfig::from(row))),
            }
        },
    }
}

/// Creates the resource that `payload` describes. The key of its first
/// version is drawn at random and the time of that version is read from the
/// clock; for the rest see `create_resource_with`.
///
/// A resource whose key exists is refused with `Conflict`, and nothing is
/// written.
pub fn create_resource(payload: ResourcePartial, store: &mut Store) -> (result: Result<
    (Resource, ResourceConfig),
    ServiceError,
>)
    requires
        old(store).wf(),
    ensures
        final(store).wf(),
        old(store)@.insert_resource_error(payload@.name) matches Some(cause) ==> result == Err::<
            (Resource, ResourceConfig),
            ServiceError,
        >(ServiceError { step: Step::IdentityWrite, cause }) && final(store)@ == old(store)@,
        exists|key: u128, now: i64|
            is_random_uuid(key) && final(store)@ == #[trigger] old(store)@.after_create_resource(
                payload@,
                key,
                now,
            ) && creation_view(result) == old(store)@.create_resource_result(payload@, key, now),
{
    let key = fresh_key();
    let now = now_micros();
    create_resource_with(payload, key, now, store)
}

/// Deletes the resource `key` and all its versions.
///
/// First the identity row is removed, so that the resource stops being found,
/// then its versions. A resource that does not exist is refused with
/// `NotFound`, and nothing changes.
pub fn delete_resource(key: &str, store: &mut Store) -> (result: Result<(), ServiceError>)
    requires
        old(store).wf(),
    ensures
        final(store).wf(),
        final(store)@ == old(store)@.after_delete_resource(key@),
        match result {
            Ok(_) => old(store)@.delete_resource_error(key@) is None,
            Err(error) => old(store)@.delete_resource_error(key@) == Some(error),
        },
{
    match delete_by_key(key, store) {
        Err(cause) => Err(ServiceError { step: Step::IdentityWrite, cause }),
        Ok(_) => match delete_by_resource_key(key, store) {
            Err(cause) => Err(ServiceError { step: Step::VersionWrite, cause }),
            Ok(_) => Ok(()),
        },
    }
}

/// The views of what a listing returns.
pub open spec fn listing_view(result: Result<Vec<ResourceConfig>, StoreError>) -> Result<
    Seq<ResourceConfigView>,
    StoreError,
> {
    match result {
        Ok(list) => Ok(version_views(list@)),
        Err(error) => Err(error),
    }
}

/// The versions of the resource `key`, newest first. The store is read and
/// not written: what is returned depends on the store and the key alone.
pub fn list_versions(key: &str, store: &Store) -> (result: Result<Vec<ResourceConfig>, StoreError>)
    requires
        store.wf(),
    ensures
        listing_view(result) == store@.listing(key@),
        result matches Ok(list) ==> descending(version_views(list@)),
{
    list_by_resource(key, store)
}

/// The current version of the resource `key`: the first of its listing.
///
/// The call fails with `NotFound` where the resource has no version.
pub fn current_version(key: &str, store: &Store) -> (result: Result<ResourceConfig, StoreError>)
    requires
        store.wf(),
    ensures
        match result {
            Ok(version) => store@.current_version_error(key@) is None && version@
                == store@.history(key@)[0],
            Err(error) => store@.current_version_error(key@) == Some(error),
        },
{
    match list_by_resource(key, store) {
        Err(error) => Err(error),
        Ok(mut list) => {
            if list.len() == 0 {
                Err(StoreError::NotFound { entity: Entity::ResourceConfig })
            } else {
                Ok(list.swap_remove(0))
            }
        },
    }
}

/// Whether the resource `key` is absent, active or orphaned.
pub fn resource_state(key: &str, store: &Store) -> (result: Result<ResourceState, StoreError>)
    requires
        store.wf(),
    ensures
        match result {
            Ok(state) => store@.connection_error() is None && state == store@.state_of(key@),
            Err(error) => store@.connection_error() == Some(error),
        },
{
    let list = list_by_resource(key, store)?;
    proof {
        lemma_newest_first_descending(store@.versions_of(key@));
    }
    let owner = key.to_owned();
    let identified = store.resource_kind(&owner).is_some();
    let versioned = list.len() > 0;
    if identified {
        if versioned {
            Ok(ResourceState::Active)
        } else {
            Ok(ResourceState::Orphaned)
        }
    } else {
        if versioned {
            Ok(ResourceState::Orphaned)
        } else {
            Ok(ResourceState::Absent)
        }
    }
}

/// What goes back to the caller of an endpoint.
#[derive(Debug, PartialEq, Eq)]
pub struct HttpResponse {
    pub status: u16,
    pub body: Body,
}

/// The body of a response.
#[derive(Debug, PartialEq, Eq)]
pub enum Body {
    Empty,
    /// The resource that was created.
    Resource(Resource),
    /// Why the operation failed, and at which step: a failure at
    /// `VersionWrite` means that the identity step was done.
    Error(ServiceError),
}

/// The status that an error is reported with: 404 where something was not
/// found, 409 where a key was taken, 400 for the rest.
pub open spec fn status_of(error: ServiceError) -> u16 {
    match error.cause {
        StoreError::NotFound { .. } => 404,
        StoreError::Conflict { .. } => 409,
        _ => 400,
    }
}

/// The response to a request to create a resource: 201 with the resource, or
/// the status of the error with the error.
pub fn created_response(result: Result<(Resource, ResourceConfig), ServiceError>) -> (response:
    HttpResponse)
    ensures
        match result {
            Ok((resource, _)) => response.status == 201 && (response.body matches Body::Resource(
                sent,
            ) && sent@ == resource@),
            Err(error) => response.status == status_of(error) && response.body == Body::Error(
                error,
            ),
        },
{
    match result {
        Ok((resource, _)) => HttpResponse { status: 201, body: Body::Resource(resource) },
        Err(error) => error_response(error),
    }
}

/// The response to a request to delete a resource: 202 without a body, or the
/// status of the error with the error.
pub fn deleted_response(result: Result<(), ServiceError>) -> (response: HttpResponse)
    ensures
        match result {
            Ok(_) => response.status == 202 && response.body == Body::Empty,
            Err(error) => response.status == status_of(error) && response.body == Body::Error(
                error,
            ),
        },
{
    match result {
        Ok(_) => HttpResponse { status: 202, body: Body::Empty },
        Err(error) => error_response(error),
    }
}

/// The response that reports `error`.
pub fn error_response(error: ServiceError) -> (response: HttpResponse)
    ensures
        response.status == status_of(error),
        response.body == Body::Error(error),
{
    let status: u16 = match error.cause {
        StoreError::NotFound { .. } => 404,
        StoreError::Conflict { .. } => 409,
        StoreError::StoreUnavailable => 400,
        StoreError::QueryFailed { .. } => 400,
    };
    HttpResponse { status, body: Body::Error(error) }
}

} // verus!
