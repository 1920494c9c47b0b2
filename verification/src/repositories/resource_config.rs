//! The version table: write a version, list the versions of a resource,
//! fetch one version, remove the versions of a resource. There is no update:
//! a new configuration is a new row.

use crate::error::{DriverError, Entity, StoreError};
use crate::model::{
    descending, distinct_keys, is_random_uuid, newest_first, not_owned_by, owned_by, slot,
};
use crate::models::resource::{
    config_views, version_views, ResourceConfig, ResourceConfigDbModel, ResourceConfigView,
};
use crate::store::Store;
use vstd::prelude::*;

verus! {

/// What `Uuid::new_v4` of the crate `uuid` returns, as the 128-bit number that
/// `Uuid::as_u128` makes of it. The key is random; all that is claimed of it is
/// that its version and variant fields are those of a random UUID, which
/// `new_v4` sets on every key it returns. Not proved: the claim is read off
/// the source of `new_v4`. On a machine whose random source fails, `new_v4`
/// panics.
#[verifier::external_body]
pub(crate) fn fresh_key() -> (key: u128)
    ensures
        is_random_uuid(key),
{
    uuid::Uuid::new_v4().as_u128()
}

/// What `Utc::now` of the crate `chrono` returns, as the microseconds since
/// the Unix epoch that `DateTime::timestamp_micros` makes of it. Nothing is
/// claimed of the value: the clock may stand still or go back. On a machine
/// whose clock stands before 1970, `Utc::now` panics.
#[verifier::external_body]
pub(crate) fn now_micros() -> (now: i64) {
    chrono::Utc::now().timestamp_micros()
}

/// Where the row with key `key` stands in `rows`, if there is one.
fn position_of(rows: &Vec<ResourceConfigDbModel>, key: u128) -> (at: Option<usize>)
    ensures
        match at {
            Some(i) => i < rows.len() && rows[i as int].key == key,
            None => forall|j: int| 0 <= j < rows.len() ==> rows[j].key != key,
        },
{
    let mut i: usize = 0;
    while i < rows.len()
        invariant
            i <= rows.len(),
            forall|j: int| 0 <= j < i ==> rows[j].key != key,
        decreases rows.len() - i,
    {
        if rows[i].key == key {
            return Some(i);
        }
        i += 1;
    }
    None
}

/// Where a version stamped `at` goes in `list`, which is newest first.
fn slot_of(list: &Vec<ResourceConfig>, at: i64) -> (place: usize)
    ensures
        place <= list.len(),
        place == slot(version_views(list@), at),
{
    let ghost views = version_views(list@);
    let mut place: usize = 0;
    assert(views.skip(0) =~= views);
    while place < list.len() && list[place].created_at > at
        invariant
            place <= list.len(),
            views == version_views(list@),
            slot(views, at) == place + slot(views.skip(place as int), at),
        decreases list.len() - place,
    {
        assert(views.skip(place as int).drop_first() =~= views.skip(place as int + 1));
        place += 1;
    }
    place
}

/// Writes `item` to the version table and returns the row as written.
///
/// The row is appended; no row that was there is touched. The call fails with
/// `StoreUnavailable` where the pool has no idle connection, and with
/// `QueryFailed` where a version with the key of `item` exists already. On
/// failure the table is as it was.
pub fn create(item: &ResourceConfigDbModel, store: &mut Store) -> (result: Result<
    ResourceConfigDbModel,
    StoreError,
>)
    requires
        old(store).wf(),
    ensures
        final(store).wf(),
        match result {
            Ok(row) => old(store)@.create_error(item.key) is None && row@ == item@ && final(store)@
                == old(store)@.with_version(item@),
            Err(error) => old(store)@.create_error(item.key) == Some(error) && final(store)@
                == old(store)@,
        },
{
    if !store.available() {
        return Err(StoreError::StoreUnavailable);
    }
    let rows = store.configs();
    let found = position_of(rows, item.key);
    proof {
        assert forall|j: int| 0 <= j < rows.len() implies config_views(rows@)[j].key
            == rows[j].key by {}
    }
    match found {
        Some(at) => {
            assert(store@.configs[at as int].key == item.key);
            Err(
                StoreError::QueryFailed {
                    entity: Entity::ResourceConfig,
                    cause: DriverError::UniqueViolation,
                },
            )
        },
        None => {
            store.push_config(item.clone());
            Ok(item.clone())
        },
    }
}

/// Writes `data` as a new version of the resource `resource_key` and returns
/// the version. The key of the version is drawn at random and its time is
/// read from the clock, and the version is then written as `create` writes a
/// row.
///
/// Whether the resource has an identity row is not looked at. The call fails
/// with `StoreUnavailable` where the pool has no idle connection, and with
/// `QueryFailed` where the key that was drawn is taken. On failure the table
/// is as it was.
pub fn create_version(resource_key: &str, data: String, store: &mut Store) -> (result: Result<
    ResourceConfig,
    StoreError,
>)
    requires
        old(store).wf(),
    ensures
        final(store).wf(),
        !old(store)@.available() ==> result == Err::<ResourceConfig, StoreError>(
            StoreError::StoreUnavailable,
        ),
        match result {
            Ok(version) => is_random_uuid(version.key) && version@.resource_key == resource_key@
                && version@.data == data@ && old(store)@.create_error(version.key) is None
                && final(store)@ == old(store)@.with_version(version@),
            Err(error) => final(store)@ == old(store)@ && (exists|key: u128|
                is_random_uuid(key) && #[trigger] old(store)@.create_error(key) == Some(error)),
        },
{
    let item = ResourceConfigDbModel {
        key: fresh_key(),
        resource_key: resource_key.to_owned(),
        data,
        created_at: now_micros(),
    };
    match create(&item, store) {
        Ok(row) => Ok(ResourceConfig::from(row)),
        Err(error) => Err(error),
    }
}

/// Removes every version of the resource `key`.
///
/// Succeeds where the resource has no version. The call fails with
/// `StoreUnavailable` where the pool has no idle connection; the table is then
/// as it was.
pub fn delete_by_resource_key(key: &str, store: &mut Store) -> (result: Result<(), StoreError>)
    requires
        old(store).wf(),
    ensures
        final(store).wf(),
        match result {
            Ok(_) => old(store)@.connection_error() is None && final(store)@
                == old(store)@.without_versions_of(key@),
            Err(error) => old(store)@.connection_error() == Some(error) && final(store)@
                == old(store)@,
        },
{
    if !store.available() {
        return Err(StoreError::StoreUnavailable);
    }
    let key = key.to_owned();
    let mut kept: Vec<ResourceConfigDbModel> = Vec::new();
    let rows = store.configs();
    let ghost table = config_views(rows@);
    let mut i: usize = 0;
    assert(table.take(0) =~= Seq::empty());
    assert(table.take(0).filter(not_owned_by(key@)) =~= Seq::empty()) by {
        reveal(Seq::filter);
    }
    while i < rows.len()
        invariant
            i <= rows.len(),
            table == config_views(rows@),
            config_views(kept@) == table.take(i as int).filter(not_owned_by(key@)),
        decreases rows.len() - i,
    {
        proof {
            reveal(Seq::filter);
            assert(table.take(i as int + 1).drop_last() =~= table.take(i as int));
        }
        if rows[i].resource_key != key {
            let ghost before = kept@;
            kept.push(rows[i].clone());
            assert(config_views(kept@) =~= config_views(before).push(table[i as int]));
        }
        i += 1;
    }
    proof {
        assert(table.take(rows.len() as int) =~= table);
        lemma_filter_keeps_distinct(table, not_owned_by(key@));
    }
    store.set_configs(kept);
    Ok(())
}

/// The versions of the resource `key`, newest first, so that the first one is
/// the resource's current configuration. Versions with the same `created_at`
/// come in the reverse of the order in which they were written.
///
/// A resource without versions has the empty list. The call fails with
/// `StoreUnavailable` where the pool has no idle connection.
pub fn list_by_resource(key: &str, store: &Store) -> (result: Result<
    Vec<ResourceConfig>,
    StoreError,
>)
    requires
        store.wf(),
    ensures
        match result {
            Ok(list) => store@.connection_error() is None && version_views(list@)
                == store@.history(key@) && descending(version_views(list@)),
            Err(error) => store@.connection_error() == Some(error),
        },
{
    if !store.available() {
        return Err(StoreError::StoreUnavailable);
    }
    let key = key.to_owned();
    let rows = store.configs();
    let ghost table = config_views(rows@);
    let mut list: Vec<ResourceConfig> = Vec::new();
    let mut i: usize = 0;
    assert(table.take(0) =~= Seq::empty());
    assert(table.take(0).filter(owned_by(key@)) =~= Seq::empty()) by {
        reveal(Seq::filter);
    }
    assert(version_views(list@) =~= newest_first(Seq::empty()));
    while i < rows.len()
        invariant
            i <= rows.len(),
            table == config_views(rows@),
            version_views(list@) == newest_first(table.take(i as int).filter(owned_by(key@))),
        decreases rows.len() - i,
    {
        proof {
            reveal(Seq::filter);
            assert(table.take(i as int + 1).drop_last() =~= table.take(i as int));
        }
        if rows[i].resource_key == key {
            let place = slot_of(&list, rows[i].created_at);
            let version = ResourceConfig::from(rows[i].clone());
            let ghost before = list@;
            list.insert(place, version);
            proof {
                let owned = table.take(i as int + 1).filter(owned_by(key@));
                assert(owned.drop_last() =~= table.take(i as int).filter(owned_by(key@)));
                assert(owned.last() == table[i as int]);
                assert(version_views(list@) =~= version_views(before).insert(
                    place as int,
                    table[i as int],
                ));
            }
        }
        i += 1;
    }
    proof {
        assert(table.take(rows.len() as int) =~= table);
        lemma_newest_first_descending(store@.versions_of(key@));
    }
    Ok(list)
}

/// The version with key `key`.
///
/// The call fails with `StoreUnavailable` where the pool has no idle
/// connection, and with `NotFound` where the table has no such version.
pub fn find_by_key(key: &u128, store: &Store) -> (result: Result<ResourceConfig, StoreError>)
    requires
        store.wf(),
    ensures
        match result {
            Ok(version) => store@.version_error(*key) is None && version@ == store@.version(*key),
            Err(error) => store@.version_error(*key) == Some(error),
        },
{
    if !store.available() {
        return Err(StoreError::StoreUnavailable);
    }
    let rows = store.configs();
    let found = position_of(rows, *key);
    proof {
        assert forall|j: int| 0 <= j < rows.len() implies config_views(rows@)[j].key
            == rows[j].key by {}
    }
    match found {
        Some(at) => {
            proof {
                let table = store@.configs;
                assert(table[at as int].key == *key);
                let chosen = choose|i: int| 0 <= i < table.len() && table[i].key == *key;
                assert(chosen == at) by {
                    if chosen < at {
                        assert(table[chosen].key != table[at as int].key);
                    } else if at < chosen {
                        assert(table[at as int].key != table[chosen].key);
                    }
                }
            }
            Ok(ResourceConfig::from(rows[at].clone()))
        },
        None => Err(StoreError::NotFound { entity: Entity::ResourceConfig }),
    }
}

/// Filtering takes rows out and puts none in, so keys that were distinct stay so.
pub proof fn lemma_filter_keeps_distinct(
    rows: Seq<ResourceConfigView>,
    keep: spec_fn(ResourceConfigView) -> bool,
)
    requires
        distinct_keys(rows),
    ensures
        distinct_keys(rows.filter(keep)),
    decreases rows.len(),
{
    reveal(Seq::filter);
    if rows.len() > 0 {
        let front = rows.drop_last();
        lemma_filter_keeps_distinct(front, keep);
        if keep(rows.last()) {
            let kept = front.filter(keep);
            assert forall|i: int| 0 <= i < kept.len() implies kept[i].key != rows.last().key by {
                assert(kept.contains(kept[i]));
                front.lemma_filter_contains_rev(keep, kept[i]);
                let j = choose|j: int| 0 <= j < front.len() && front[j] == kept[i];
                assert(rows[j].key != rows[rows.len() - 1].key);
            }
        }
    }
}

/// The place that `slot` gives keeps a newest-first list newest first.
pub proof fn lemma_slot_keeps_descending(sorted: Seq<ResourceConfigView>, at: i64)
    requires
        descending(sorted),
    ensures
        0 <= slot(sorted, at) <= sorted.len(),
        forall|i: int| 0 <= i < slot(sorted, at) ==> sorted[i].created_at > at,
        forall|i: int| slot(sorted, at) <= i < sorted.len() ==> sorted[i].created_at <= at,
    decreases sorted.len(),
{
    if sorted.len() > 0 && sorted.first().created_at > at {
        let rest = sorted.drop_first();
        assert forall|i: int, j: int| 0 <= i < j < rest.len() implies rest[i].created_at
            >= rest[j].created_at by {
            assert(sorted[i + 1].created_at >= sorted[j + 1].created_at);
        }
        lemma_slot_keeps_descending(rest, at);
        assert forall|i: int| 0 <= i < slot(sorted, at) implies sorted[i].created_at > at by {
            if i > 0 {
                assert(rest[i - 1].created_at > at);
            }
        }
        assert forall|i: int| slot(sorted, at) <= i < sorted.len() implies sorted[i].created_at
            <= at by {
            assert(rest[i - 1].created_at <= at);
        }
    } else if sorted.len() > 0 {
        assert forall|i: int| 0 <= i < sorted.len() implies sorted[i].created_at <= at by {
            if i > 0 {
                assert(sorted[0].created_at >= sorted[i].created_at);
            }
        }
    }
}

/// A listing is newest first.
pub proof fn lemma_newest_first_descending(rows: Seq<ResourceConfigView>)
    ensures
        descending(newest_first(rows)),
        newest_first(rows).len() == rows.len(),
    decreases rows.len(),
{
    if rows.len() > 0 {
        let earlier = newest_first(rows.drop_last());
        lemma_newest_first_descending(rows.drop_last());
        lemma_slot_keeps_descending(earlier, rows.last().created_at);
    }
}

} // verus!
