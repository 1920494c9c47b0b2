//! What holds of the store whatever is done with it. Each statement is over
//! the definitions of `model`, which the contracts of the executable
//! functions use, so that it holds of what those functions do.

use crate::error::{Entity, ServiceError, Step, StoreError};
use crate::model::{
    descending, distinct_keys, first_version_of, identity_of, newest_first, not_owned_by,
    owned_by, slot, ResourceState, StoreView,
};
use crate::models::resource::{ResourceConfigView, ResourcePartialView};
use crate::repositories::resource_config::{
    lemma_filter_keeps_distinct, lemma_newest_first_descending, lemma_slot_keeps_descending,
};
use vstd::prelude::*;
use vstd::seq_lib::{to_multiset_build, to_multiset_insert};

verus! {

/// Filtering a table with one more row: the row is kept or it is not, and the
/// rest is filtered as before.
pub proof fn lemma_filter_push(
    rows: Seq<ResourceConfigView>,
    row: ResourceConfigView,
    keep: spec_fn(ResourceConfigView) -> bool,
)
    ensures
        rows.push(row).filter(keep) == if keep(row) {
            rows.filter(keep).push(row)
        } else {
            rows.filter(keep)
        },
{
    reveal(Seq::filter);
    assert(rows.push(row).drop_last() =~= rows);
}

/// Every row that a filter keeps stands in the table that was filtered.
proof fn lemma_kept_rows_are_rows(
    rows: Seq<ResourceConfigView>,
    keep: spec_fn(ResourceConfigView) -> bool,
    i: int,
) -> (j: int)
    requires
        0 <= i < rows.filter(keep).len(),
    ensures
        0 <= j < rows.len(),
        rows[j] == rows.filter(keep)[i],
        keep(rows[j]),
{
    let kept = rows.filter(keep);
    assert(kept.contains(kept[i]));
    rows.lemma_filter_contains_rev(keep, kept[i]);
    rows.lemma_filter_pred(keep, i);
    choose|j: int| 0 <= j < rows.len() && rows[j] == kept[i]
}

/// Once the versions of a resource are taken out, none of them is left.
proof fn lemma_purged(rows: Seq<ResourceConfigView>, resource_key: Seq<char>)
    ensures
        rows.filter(not_owned_by(resource_key)).filter(owned_by(resource_key)).len() == 0,
    decreases rows.len(),
{
    reveal(Seq::filter);
    if rows.len() > 0 {
        lemma_purged(rows.drop_last(), resource_key);
        if not_owned_by(resource_key)(rows.last()) {
            lemma_filter_push(
                rows.drop_last().filter(not_owned_by(resource_key)),
                rows.last(),
                owned_by(resource_key),
            );
        }
    }
}

/// Taking out the versions of one resource leaves those of another as they were.
proof fn lemma_others_kept(
    rows: Seq<ResourceConfigView>,
    resource_key: Seq<char>,
    other: Seq<char>,
)
    requires
        other != resource_key,
    ensures
        rows.filter(not_owned_by(resource_key)).filter(owned_by(other)) == rows.filter(
            owned_by(other),
        ),
    decreases rows.len(),
{
    reveal(Seq::filter);
    if rows.len() > 0 {
        lemma_others_kept(rows.drop_last(), resource_key, other);
        if not_owned_by(resource_key)(rows.last()) {
            lemma_filter_push(
                rows.drop_last().filter(not_owned_by(resource_key)),
                rows.last(),
                owned_by(other),
            );
        }
    }
}

/// The versions of a resource and the versions of the others make up the table.
proof fn lemma_split_len(rows: Seq<ResourceConfigView>, resource_key: Seq<char>)
    ensures
        rows.filter(owned_by(resource_key)).len() + rows.filter(not_owned_by(resource_key)).len()
            == rows.len(),
    decreases rows.len(),
{
    reveal(Seq::filter);
    if rows.len() > 0 {
        lemma_split_len(rows.drop_last(), resource_key);
    }
}

/// A listing holds the versions it was made from, each as often as it was there.
pub proof fn law_listing_keeps_versions(rows: Seq<ResourceConfigView>)
    ensures
        newest_first(rows).to_multiset() == rows.to_multiset(),
        newest_first(rows).len() == rows.len(),
        descending(newest_first(rows)),
    decreases rows.len(),
{
    lemma_newest_first_descending(rows);
    if rows.len() > 0 {
        let front = rows.drop_last();
        let earlier = newest_first(front);
        law_listing_keeps_versions(front);
        lemma_slot_keeps_descending(earlier, rows.last().created_at);
        to_multiset_insert(earlier, slot(earlier, rows.last().created_at), rows.last());
        to_multiset_build(front, rows.last());
        assert(front.push(rows.last()) =~= rows);
    } else {
        assert(newest_first(rows) =~= rows);
    }
}

/// Row `a` of `rows` is listed before row `b`: it is newer, or it is as new
/// and was written later.
pub open spec fn listed_before(rows: Seq<ResourceConfigView>, a: int, b: int) -> bool {
    rows[a].created_at > rows[b].created_at || (rows[a].created_at == rows[b].created_at && a
        > b)
}

/// Every version of a listing is one of the rows it was made from.
proof fn lemma_listed_rows_are_rows(rows: Seq<ResourceConfigView>, i: int) -> (a: int)
    requires
        0 <= i < newest_first(rows).len(),
    ensures
        0 <= a < rows.len(),
        rows[a] == newest_first(rows)[i],
{
    broadcast use vstd::seq_lib::group_to_multiset_ensures;

    let listing = newest_first(rows);
    law_listing_keeps_versions(rows);
    assert(listing.contains(listing[i]));
    assert(listing.to_multiset().count(listing[i]) > 0);
    assert(rows.contains(listing[i]));
    choose|a: int| 0 <= a < rows.len() && rows[a] == listing[i]
}

/// The order of a listing, said without saying how it is made: of any two
/// versions in it, the one that comes first is the newer one, or, where both
/// are as new, the one that was written later. With the versions it holds,
/// this settles the listing.
pub proof fn law_listing_order(rows: Seq<ResourceConfigView>)
    requires
        distinct_keys(rows),
    ensures
        forall|i: int, j: int, a: int, b: int|
            #![trigger newest_first(rows)[i], newest_first(rows)[j], rows[a], rows[b]]
            0 <= i < j < newest_first(rows).len() && 0 <= a < rows.len() && 0 <= b < rows.len()
                && newest_first(rows)[i] == rows[a] && newest_first(rows)[j] == rows[b]
                ==> listed_before(rows, a, b),
    decreases rows.len(),
{
    if rows.len() > 0 {
        let n = rows.len() as int;
        let front = rows.drop_last();
        let last = rows.last();
        let earlier = newest_first(front);
        let place = slot(earlier, last.created_at);
        let listing = newest_first(rows);
        law_listing_order(front);
        law_listing_keeps_versions(front);
        lemma_slot_keeps_descending(earlier, last.created_at);
        assert forall|k: int| 0 <= k < earlier.len() implies (#[trigger] earlier[k]).key
            != last.key by {
            let c = lemma_listed_rows_are_rows(front, k);
            assert(rows[c].key != rows[n - 1].key);
        }
        assert forall|i: int, j: int, a: int, b: int|
            #![trigger listing[i], listing[j], rows[a], rows[b]]
            0 <= i < j < listing.len() && 0 <= a < n && 0 <= b < n && listing[i] == rows[a]
                && listing[j] == rows[b] implies listed_before(rows, a, b) by {
            if i == place {
                if a < n - 1 {
                    assert(rows[a].key != rows[n - 1].key);
                }
                assert(listing[j] == earlier[j - 1]);
                assert(earlier[j - 1].key != last.key);
            } else if j == place {
                if b < n - 1 {
                    assert(rows[b].key != rows[n - 1].key);
                }
                assert(listing[i] == earlier[i]);
                assert(earlier[i].key != last.key);
            } else {
                let before = if i < place {
                    i
                } else {
                    i - 1
                };
                let after = if j < place {
                    j
                } else {
                    j - 1
                };
                assert(listing[i] == earlier[before]);
                assert(listing[j] == earlier[after]);
                assert(earlier[before].key != last.key);
                assert(earlier[after].key != last.key);
                assert(front[a] == rows[a]);
                assert(front[b] == rows[b]);
                assert(listed_before(front, a, b));
            }
        }
    }
}

/// The listing of a resource is newest first and holds exactly the versions
/// of that resource.
pub proof fn law_history_is_ordered(store: StoreView, resource_key: Seq<char>)
    ensures
        descending(store.history(resource_key)),
        store.history(resource_key).to_multiset() == store.versions_of(
            resource_key,
        ).to_multiset(),
        forall|i: int|
            0 <= i < store.history(resource_key).len() ==> (#[trigger] store.history(
                resource_key,
            )[i]).resource_key == resource_key,
{
    let owned = store.versions_of(resource_key);
    let listing = store.history(resource_key);
    law_listing_keeps_versions(owned);
    assert forall|i: int| 0 <= i < listing.len() implies (#[trigger] listing[i]).resource_key
        == resource_key by {
        broadcast use vstd::seq_lib::group_to_multiset_ensures;

        assert(listing.contains(listing[i]));
        assert(listing.to_multiset().count(listing[i]) > 0);
        assert(owned.contains(listing[i]));
        let j = choose|j: int| 0 <= j < owned.len() && owned[j] == listing[i];
        store.configs.lemma_filter_pred(owned_by(resource_key), j);
    }
}

/// Writing a version changes the listing of its resource by putting the
/// version in its place, and changes no other listing. Nothing that was
/// written before is altered or lost.
pub proof fn law_create_appends(store: StoreView, version: ResourceConfigView)
    requires
        store.wf(),
        store.create_error(version.key) is None,
    ensures
        store.with_version(version).wf(),
        store.with_version(version).configs.take(store.configs.len() as int) == store.configs,
        store.with_version(version).resources == store.resources,
        store.with_version(version).history(version.resource_key) == store.history(
            version.resource_key,
        ).insert(slot(store.history(version.resource_key), version.created_at), version),
        forall|other: Seq<char>|
            other != version.resource_key ==> #[trigger] store.with_version(version).history(other)
                == store.history(other),
{
    let after = store.with_version(version);
    assert(after.configs.take(store.configs.len() as int) =~= store.configs);
    lemma_filter_push(store.configs, version, owned_by(version.resource_key));
    let owned = after.versions_of(version.resource_key);
    assert(owned.drop_last() =~= store.versions_of(version.resource_key));
    assert forall|other: Seq<char>| other != version.resource_key implies #[trigger] after.history(
        other,
    ) == store.history(other) by {
        lemma_filter_push(store.configs, version, owned_by(other));
    }
}

/// A version that is at least as new as every version its resource has
/// becomes the current version: it stands first in the listing, and the
/// listing that was follows it.
pub proof fn law_newest_version_is_current(store: StoreView, version: ResourceConfigView)
    requires
        store.wf(),
        store.create_error(version.key) is None,
        forall|i: int|
            0 <= i < store.configs.len() && (#[trigger] store.configs[i]).resource_key
                == version.resource_key ==> store.configs[i].created_at <= version.created_at,
    ensures
        store.with_version(version).history(version.resource_key) == seq![version]
            + store.history(version.resource_key),
        store.with_version(version).current_version_error(version.resource_key) is None,
        store.with_version(version).history(version.resource_key)[0] == version,
{
    let listing = store.history(version.resource_key);
    law_create_appends(store, version);
    law_history_is_ordered(store, version.resource_key);
    if listing.len() > 0 {
        broadcast use vstd::seq_lib::group_to_multiset_ensures;

        let owned = store.versions_of(version.resource_key);
        assert(listing.contains(listing[0]));
        assert(listing.to_multiset().count(listing[0]) > 0);
        assert(owned.contains(listing[0]));
        let i = choose|i: int| 0 <= i < owned.len() && owned[i] == listing[0];
        let j = lemma_kept_rows_are_rows(store.configs, owned_by(version.resource_key), i);
        assert(store.configs[j].created_at <= version.created_at);
    }
    assert(slot(listing, version.created_at) == 0);
    assert(listing.insert(0, version) =~= seq![version] + listing);
}

/// Every version of a resource stands in the listing of that resource.
proof fn lemma_row_is_listed(store: StoreView, i: int) -> (k: int)
    requires
        0 <= i < store.configs.len(),
    ensures
        0 <= k < store.history(store.configs[i].resource_key).len(),
        store.history(store.configs[i].resource_key)[k] == store.configs[i],
{
    broadcast use vstd::seq_lib::group_to_multiset_ensures;

    let resource_key = store.configs[i].resource_key;
    let owned = store.versions_of(resource_key);
    let listing = store.history(resource_key);
    law_listing_keeps_versions(owned);
    store.configs.lemma_filter_contains(owned_by(resource_key), i);
    assert(owned.to_multiset().count(store.configs[i]) > 0);
    assert(listing.contains(store.configs[i]));
    choose|k: int| 0 <= k < listing.len() && listing[k] == store.configs[i]
}

/// A version that was just written is the current version of its resource
/// exactly where no version of that resource is newer than it. Where the
/// clock went back between two writes, the later write is not the current
/// version.
pub proof fn law_current_exactly_when_not_older(store: StoreView, version: ResourceConfigView)
    requires
        store.wf(),
        store.create_error(version.key) is None,
    ensures
        store.with_version(version).history(version.resource_key)[0] == version <==> (forall|
            i: int,
        |
            0 <= i < store.configs.len() && (#[trigger] store.configs[i]).resource_key
                == version.resource_key ==> store.configs[i].created_at <= version.created_at),
{
    let listing = store.history(version.resource_key);
    let owned = store.versions_of(version.resource_key);
    let after = store.with_version(version).history(version.resource_key);
    law_create_appends(store, version);
    law_history_is_ordered(store, version.resource_key);
    if forall|i: int|
        0 <= i < store.configs.len() && (#[trigger] store.configs[i]).resource_key
            == version.resource_key ==> store.configs[i].created_at <= version.created_at {
        law_newest_version_is_current(store, version);
    } else {
        let i = choose|i: int|
            0 <= i < store.configs.len() && (#[trigger] store.configs[i]).resource_key
                == version.resource_key && store.configs[i].created_at > version.created_at;
        let k = lemma_row_is_listed(store, i);
        if k > 0 {
            assert(listing[0].created_at >= listing[k].created_at);
        }
        assert(listing.first().created_at > version.created_at);
        lemma_slot_keeps_descending(listing, version.created_at);
        assert(slot(listing, version.created_at) > 0) by {
            if slot(listing, version.created_at) == 0 {
                assert(listing[0].created_at <= version.created_at);
            }
        }
        assert(after[0] == listing[0]);
        let a = lemma_listed_rows_are_rows(owned, 0);
        let j = lemma_kept_rows_are_rows(store.configs, owned_by(version.resource_key), a);
        assert(store.configs[j].key != version.key);
    }
}

impl StoreView {
    /// The store after `create` was called with each of `items` in turn. A
    /// call that fails leaves the store as it was.
    pub open spec fn after_creates(self, items: Seq<ResourceConfigView>) -> StoreView
        decreases items.len(),
    {
        if items.len() == 0 {
            self
        } else {
            let before = self.after_creates(items.drop_last());
            if before.create_error(items.last().key) is None {
                before.with_version(items.last())
            } else {
                before
            }
        }
    }
}

/// Versions written one after the other for one resource, none older than
/// the one before it or than what the resource had, are listed in the reverse
/// of the order in which they were written, before what the resource had: the
/// one written last is the current version.
pub proof fn law_creates_list_in_reverse(
    store: StoreView,
    resource_key: Seq<char>,
    items: Seq<ResourceConfigView>,
)
    requires
        store.wf(),
        store.available(),
        forall|j: int| 0 <= j < items.len() ==> (#[trigger] items[j]).resource_key == resource_key,
        forall|j: int| 0 <= j < items.len() ==> !store.has_version((#[trigger] items[j]).key),
        distinct_keys(items),
        descending(items.reverse()),
        forall|i: int, j: int|
            0 <= i < store.configs.len() && 0 <= j < items.len() && (
            #[trigger] store.configs[i]).resource_key == resource_key
                ==> store.configs[i].created_at <= (#[trigger] items[j]).created_at,
    ensures
        store.after_creates(items).wf(),
        store.after_creates(items) == (StoreView { configs: store.configs + items, ..store }),
        store.after_creates(items).history(resource_key) == items.reverse() + store.history(
            resource_key,
        ),
        items.len() > 0 ==> store.after_creates(items).history(resource_key)[0] == items.last(),
    decreases items.len(),
{
    if items.len() == 0 {
        assert(store.configs + items =~= store.configs);
        assert(store.after_creates(items) == store);
        assert(items.reverse() + store.history(resource_key) =~= store.history(resource_key));
    } else {
        let front = items.drop_last();
        let last = items.last();
        let n = items.len() as int;
        let backwards = front.reverse();
        assert forall|i: int, j: int| 0 <= i < j < backwards.len() implies backwards[i].created_at
            >= backwards[j].created_at by {
            assert(items.reverse()[i + 1].created_at >= items.reverse()[j + 1].created_at);
        }
        assert forall|j: int| 0 <= j < front.len() implies (#[trigger] front[j]).resource_key
            == resource_key && !store.has_version(front[j].key) by {
            assert(front[j] == items[j]);
        }
        let table = store.configs;
        assert forall|i: int, j: int|
            0 <= i < table.len() && 0 <= j < front.len() && (#[trigger] table[i]).resource_key
                == resource_key implies table[i].created_at <= (#[trigger] front[j]).created_at by {
            assert(front[j] == items[j]);
        }
        law_creates_list_in_reverse(store, resource_key, front);
        let before = store.after_creates(front);
        assert(!before.has_version(last.key)) by {
            if before.has_version(last.key) {
                let i = choose|i: int|
                    0 <= i < before.configs.len() && before.configs[i].key == last.key;
                if i < store.configs.len() {
                    assert(store.configs[i].key == last.key);
                    assert(store.has_version(items[n - 1].key));
                } else {
                    assert(front[i - store.configs.len()].key == last.key);
                    assert(items[i - store.configs.len()].key != items[n - 1].key);
                }
            }
        }
        assert forall|i: int|
            0 <= i < before.configs.len() && (#[trigger] before.configs[i]).resource_key
                == last.resource_key implies before.configs[i].created_at <= last.created_at by {
            if i < store.configs.len() {
                assert(store.configs[i].created_at <= items[n - 1].created_at);
            } else {
                let j = i - store.configs.len();
                assert(before.configs[i] == items[j]);
                assert(items.reverse()[0].created_at >= items.reverse()[n - 1 - j].created_at);
            }
        }
        law_create_appends(before, last);
        law_newest_version_is_current(before, last);
        assert(store.after_creates(items).configs =~= store.configs + items);
        assert(seq![last] + (front.reverse() + store.history(resource_key)) =~= items.reverse()
            + store.history(resource_key));
    }
}

/// Whatever a lifecycle operation does to the tables, it leaves the pool as it
/// found it: the connection that a call borrows is back when the call
/// returns, whether the call succeeds or fails.
pub proof fn law_calls_return_their_connection(
    store: StoreView,
    payload: ResourcePartialView,
    key: u128,
    now: i64,
    resource_key: Seq<char>,
)
    ensures
        store.after_create_resource(payload, key, now).in_use == store.in_use,
        store.after_create_resource(payload, key, now).pool_size == store.pool_size,
        store.after_delete_resource(resource_key).in_use == store.in_use,
        store.after_delete_resource(resource_key).pool_size == store.pool_size,
{
}

/// A listing taken twice from one state of the store is the same both times.
pub proof fn law_listing_repeats(
    store: StoreView,
    resource_key: Seq<char>,
    first: Result<Seq<ResourceConfigView>, StoreError>,
    second: Result<Seq<ResourceConfigView>, StoreError>,
)
    requires
        first == store.listing(resource_key),
        second == store.listing(resource_key),
    ensures
        first == second,
{
}

/// Deleting a resource that exists removes its identity row and every one of
/// its versions, and nothing else. Afterwards the resource is absent: it is
/// not found, it has no current version, and none of its versions is found
/// under the key it had.
pub proof fn law_delete_removes_all(store: StoreView, key: Seq<char>)
    requires
        store.wf(),
        store.available(),
        store.has_resource(key),
    ensures
        store.delete_resource_error(key) is None,
        store.after_delete_resource(key).wf(),
        store.after_delete_resource(key).resource_error(key) == Some(
            StoreError::NotFound { entity: Entity::Resource },
        ),
        store.after_delete_resource(key).history(key).len() == 0,
        store.after_delete_resource(key).current_version_error(key) == Some(
            StoreError::NotFound { entity: Entity::ResourceConfig },
        ),
        store.after_delete_resource(key).state_of(key) == ResourceState::Absent,
        store.after_delete_resource(key).configs.len() + store.versions_of(key).len()
            == store.configs.len(),
        forall|i: int|
            0 <= i < store.configs.len() && (#[trigger] store.configs[i]).resource_key == key
                ==> store.after_delete_resource(key).version_error(store.configs[i].key) == Some(
                StoreError::NotFound { entity: Entity::ResourceConfig },
            ),
        forall|other: Seq<char>|
            other != key ==> store.after_delete_resource(key).has_resource(other)
                == store.has_resource(other) && #[trigger] store.after_delete_resource(
                key,
            ).history(other) == store.history(other),
{
    let after = store.after_delete_resource(key);
    lemma_filter_keeps_distinct(store.configs, not_owned_by(key));
    lemma_purged(store.configs, key);
    lemma_split_len(store.configs, key);
    assert(after.versions_of(key) =~= Seq::empty());
    assert forall|i: int|
        0 <= i < store.configs.len() && (#[trigger] store.configs[i]).resource_key
            == key implies !after.has_version(store.configs[i].key) by {
        if after.has_version(store.configs[i].key) {
            let a = choose|a: int|
                0 <= a < after.configs.len() && after.configs[a].key == store.configs[i].key;
            let j = lemma_kept_rows_are_rows(store.configs, not_owned_by(key), a);
            if i < j {
                assert(store.configs[i].key != store.configs[j].key);
            } else if j < i {
                assert(store.configs[j].key != store.configs[i].key);
            }
        }
    }
    assert forall|other: Seq<char>| other != key implies after.has_resource(other)
        == store.has_resource(other) && #[trigger] after.history(other) == store.history(
        other,
    ) by {
        lemma_others_kept(store.configs, key, other);
    }
}

/// Deleting a resource that does not exist fails with `NotFound` at the first
/// step and leaves the store as it was.
pub proof fn law_delete_absent_changes_nothing(store: StoreView, key: Seq<char>)
    requires
        store.available(),
        !store.has_resource(key),
    ensures
        store.delete_resource_error(key) == Some(
            ServiceError {
                step: Step::IdentityWrite,
                cause: StoreError::NotFound { entity: Entity::Resource },
            },
        ),
        store.after_delete_resource(key) == store,
{
}

/// Creating a resource under a key that is taken fails with `Conflict` at the
/// first step and leaves the store as it was: the resource that has the key
/// gets no further version.
pub proof fn law_create_duplicate_conflicts(
    store: StoreView,
    payload: ResourcePartialView,
    key: u128,
    now: i64,
)
    requires
        store.available(),
        store.has_resource(payload.name),
    ensures
        store.create_resource_error(payload, key) == Some(
            ServiceError {
                step: Step::IdentityWrite,
                cause: StoreError::Conflict { entity: Entity::Resource },
            },
        ),
        store.after_create_resource(payload, key, now) == store,
        store.after_create_resource(payload, key, now).history(payload.name) == store.history(
            payload.name,
        ),
{
}

/// A resource that was created is active: it is found under its key with the
/// kind it was given, and the version written with it is among its versions.
/// Where the resource had no version left over from before, that version is
/// its current one and its only one.
pub proof fn law_create_makes_active(
    store: StoreView,
    payload: ResourcePartialView,
    key: u128,
    now: i64,
)
    requires
        store.wf(),
        store.create_resource_error(payload, key) is None,
    ensures
        store.after_create_resource(payload, key, now).wf(),
        store.after_create_resource(payload, key, now).resource_error(payload.name) is None,
        store.after_create_resource(payload, key, now).resource(payload.name) == identity_of(
            payload,
        ),
        store.after_create_resource(payload, key, now).state_of(payload.name)
            == ResourceState::Active,
        store.after_create_resource(payload, key, now).version_error(key) is None,
        store.after_create_resource(payload, key, now).version(key) == first_version_of(
            payload,
            key,
            now,
        ),
        store.versions_of(payload.name).len() == 0 ==> store.after_create_resource(
            payload,
            key,
            now,
        ).history(payload.name) == seq![first_version_of(payload, key, now)],
{
    let identified = store.with_resource(identity_of(payload));
    let version = first_version_of(payload, key, now);
    let after = store.after_create_resource(payload, key, now);
    assert(after == identified.with_version(version));
    assert(identified.has_version(key) == store.has_version(key));
    law_create_appends(identified, version);
    lemma_filter_push(identified.configs, version, owned_by(payload.name));
    let at = store.configs.len() as int;
    assert(after.configs[at] == version);
    assert(after.has_version(key));
    let chosen = choose|i: int| 0 <= i < after.configs.len() && after.configs[i].key == key;
    assert(chosen == at) by {
        if chosen < at {
            assert(after.configs[chosen].key != after.configs[at].key);
        } else if at < chosen {
            assert(after.configs[at].key != after.configs[chosen].key);
        }
    }
    if store.versions_of(payload.name).len() == 0 {
        assert(identified.versions_of(payload.name) =~= Seq::empty());
        assert(after.history(payload.name) =~= seq![version]);
    }
}

/// Creating a resource, whether it succeeds or fails, alters nothing that was
/// written before: every version is where it was and as it was, and every
/// resource that existed exists with the kind it had.
pub proof fn law_create_keeps_what_was_written(
    store: StoreView,
    payload: ResourcePartialView,
    key: u128,
    now: i64,
)
    ensures
        store.after_create_resource(payload, key, now).configs.take(store.configs.len() as int)
            == store.configs,
        forall|other: Seq<char>| #[trigger]
            store.has_resource(other) ==> store.after_create_resource(
                payload,
                key,
                now,
            ).has_resource(other) && store.after_create_resource(payload, key, now).resources[other]
                == store.resources[other],
{
    let after = store.after_create_resource(payload, key, now);
    assert(after.configs.take(store.configs.len() as int) =~= store.configs);
}

/// Where the version of a new resource cannot be written, the identity row
/// stays and no version is added.
pub proof fn law_partial_create_leaves_identity(
    store: StoreView,
    payload: ResourcePartialView,
    key: u128,
    now: i64,
)
    requires
        store.create_resource_error(payload, key) matches Some(error) && error.is_partial(),
    ensures
        store.after_create_resource(payload, key, now).has_resource(payload.name),
        store.after_create_resource(payload, key, now).configs == store.configs,
        store.versions_of(payload.name).len() == 0 ==> store.after_create_resource(
            payload,
            key,
            now,
        ).state_of(payload.name) == ResourceState::Orphaned,
{
}

} // verus!
