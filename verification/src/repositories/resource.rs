//! The identity table: one row per resource, under the resource's key.

use crate::error::{Entity, StoreError};
use crate::models::resource::Resource;
use crate::store::Store;
use vstd::prelude::*;

verus! {

/// Writes the identity row `item` and returns it as written.
///
/// The call fails with `StoreUnavailable` where the pool has no idle
/// connection, and with `Conflict` where a resource with that key exists. On
/// failure the table is as it was.
pub fn insert(item: &Resource, store: &mut Store) -> (result: Result<Resource, StoreError>)
    requires
        old(store).wf(),
    ensures
        final(store).wf(),
        match result {
            Ok(row) => old(store)@.insert_resource_error(item.key@) is None && row@ == item@
                && final(store)@ == old(store)@.with_resource(item@),
            Err(error) => final(store)@ == old(store)@ && old(store)@.insert_resource_error(
                item.key@,
            ) == Some(error),
        },
{
    if !store.available() {
        return Err(StoreError::StoreUnavailable);
    }
    match store.resource_kind(&item.key) {
        Some(_) => Err(StoreError::Conflict { entity: Entity::Resource }),
        None => {
            store.put_resource(item.clone());
            Ok(item.clone())
        },
    }
}

/// The identity row of the resource `key`.
///
/// The call fails with `StoreUnavailable` where the pool has no idle
/// connection, and with `NotFound` where there is no such resource.
pub fn find_resource_by_key(key: &str, store: &Store) -> (result: Result<Resource, StoreError>)
    requires
        store.wf(),
    ensures
        match result {
            Ok(row) => store@.resource_error(key@) is None && row@ == store@.resource(key@),
            Err(error) => store@.resource_error(key@) == Some(error),
        },
{
    if !store.available() {
        return Err(StoreError::StoreUnavailable);
    }
    let key = key.to_owned();
    match store.resource_kind(&key) {
        Some(kind) => Ok(Resource { key, kind }),
        None => Err(StoreError::NotFound { entity: Entity::Resource }),
    }
}

/// Removes the identity row of the resource `key`. The versions of the
/// resource are not touched.
///
/// The call fails with `StoreUnavailable` where the pool has no idle
/// connection, and with `NotFound` where there is no such resource. On
/// failure the table is as it was.
pub fn delete_by_key(key: &str, store: &mut Store) -> (result: Result<(), StoreError>)
    requires
        old(store).wf(),
    ensures
        final(store).wf(),
        match result {
            Ok(_) => old(store)@.resource_error(key@) is None && final(store)@
                == old(store)@.without_resource(key@),
            Err(error) => old(store)@.resource_error(key@) == Some(error) && final(store)@
                == old(store)@,
        },
{
    if !store.available() {
        return Err(StoreError::StoreUnavailable);
    }
    let key = key.to_owned();
    match store.resource_kind(&key) {
        Some(_) => {
            store.remove_resource(&key);
            Ok(())
        },
        None => Err(StoreError::NotFound { entity: Entity::Resource }),
    }
}

} // verus!
