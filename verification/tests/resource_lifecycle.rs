use nanocl_resources::error::{DriverError, Entity, ServiceError, Step, StoreError};
use nanocl_resources::model::ResourceState;
use nanocl_resources::models::resource::{
    Resource, ResourceConfig, ResourceConfigDbModel, ResourceKind, ResourcePartial,
};
use nanocl_resources::repositories::resource::{delete_by_key, find_resource_by_key, insert};
use nanocl_resources::repositories::resource_config::{
    create, create_version, delete_by_resource_key, find_by_key, list_by_resource,
};
use nanocl_resources::services::resource::{
    create_resource, create_resource_with, created_response, current_version, delete_resource,
    deleted_response, error_response, list_versions, resource_state, Body,
};
use nanocl_resources::store::Store;

fn payload(name: &str, kind: ResourceKind, config: &str) -> ResourcePartial {
    ResourcePartial { name: name.to_owned(), kind, config: config.to_owned() }
}

fn row(key: u128, resource_key: &str, data: &str, created_at: i64) -> ResourceConfigDbModel {
    ResourceConfigDbModel {
        key,
        resource_key: resource_key.to_owned(),
        data: data.to_owned(),
        created_at,
    }
}

fn version(key: u128, resource_key: &str, data: &str, created_at: i64) -> ResourceConfig {
    ResourceConfig {
        key,
        resource_key: resource_key.to_owned(),
        data: data.to_owned(),
        created_at,
    }
}

fn keys(list: &[ResourceConfig]) -> Vec<u128> {
    list.iter().map(|version| version.key).collect()
}

const NOT_FOUND_RESOURCE: StoreError = StoreError::NotFound { entity: Entity::Resource };

const NOT_FOUND_VERSION: StoreError = StoreError::NotFound { entity: Entity::ResourceConfig };

#[test]
fn resource_basic() {
    let mut store = Store::new(4);

    // Create
    let request = payload("test_resource", ResourceKind::ProxyRule, "{\"test\":\"value\"}");
    let response = created_response(create_resource(request, &mut store));
    assert_eq!(response.status, 201);
    match response.body {
        Body::Resource(resource) => {
            assert_eq!(resource.key, "test_resource");
            assert_eq!(resource.kind, ResourceKind::ProxyRule);
        }
        other => panic!("no resource in the body: {:?}", other),
    }

    // Delete
    let response = deleted_response(delete_resource("test_resource", &mut store));
    assert_eq!(response.status, 202);
    assert_eq!(response.body, Body::Empty);
}

#[test]
fn create_returns_the_resource_and_its_first_version() {
    let mut store = Store::new(1);
    let created =
        create_resource_with(payload("r1", ResourceKind::ProxyRule, "{\"rule\":\"a\"}"), 11, 1_000, &mut store);
    assert_eq!(
        created,
        Ok((
            Resource { key: "r1".to_owned(), kind: ResourceKind::ProxyRule },
            version(11, "r1", "{\"rule\":\"a\"}", 1_000),
        ))
    );
    assert_eq!(
        find_resource_by_key("r1", &store),
        Ok(Resource { key: "r1".to_owned(), kind: ResourceKind::ProxyRule })
    );
    assert_eq!(
        list_versions("r1", &store),
        Ok(vec![version(11, "r1", "{\"rule\":\"a\"}", 1_000)])
    );
    assert_eq!(resource_state("r1", &store), Ok(ResourceState::Active));
}

#[test]
fn create_again_under_the_same_key_conflicts() {
    let mut store = Store::new(1);
    create_resource_with(payload("r1", ResourceKind::ProxyRule, "{\"rule\":\"a\"}"), 11, 1_000, &mut store)
        .unwrap();
    let again =
        create_resource_with(payload("r1", ResourceKind::DnsRule, "{\"rule\":\"b\"}"), 12, 2_000, &mut store);
    assert_eq!(
        again,
        Err(ServiceError {
            step: Step::IdentityWrite,
            cause: StoreError::Conflict { entity: Entity::Resource },
        })
    );
    // no second version, and the kind is the one given at creation
    assert_eq!(
        list_versions("r1", &store),
        Ok(vec![version(11, "r1", "{\"rule\":\"a\"}", 1_000)])
    );
    assert_eq!(find_resource_by_key("r1", &store).unwrap().kind, ResourceKind::ProxyRule);
    assert_eq!(find_by_key(&12, &store), Err(NOT_FOUND_VERSION));

    // the same through the function that draws key and time itself
    let third = create_resource(payload("r1", ResourceKind::ProxyRule, "{\"rule\":\"c\"}"), &mut store);
    assert_eq!(
        third,
        Err(ServiceError {
            step: Step::IdentityWrite,
            cause: StoreError::Conflict { entity: Entity::Resource },
        })
    );
    assert_eq!(store.configs().len(), 1);
    assert_eq!(created_response(third).status, 409);
}

#[test]
fn a_new_configuration_is_a_new_version() {
    let mut store = Store::new(1);
    create_resource_with(payload("r1", ResourceKind::ProxyRule, "{\"rule\":\"a\"}"), 11, 1_000, &mut store)
        .unwrap();
    let written = create(&row(12, "r1", "{\"rule\":\"b\"}", 2_000), &mut store);
    assert_eq!(written, Ok(row(12, "r1", "{\"rule\":\"b\"}", 2_000)));
    assert_eq!(
        list_versions("r1", &store),
        Ok(vec![
            version(12, "r1", "{\"rule\":\"b\"}", 2_000),
            version(11, "r1", "{\"rule\":\"a\"}", 1_000),
        ])
    );
    // the first version is still there, as it was written
    assert_eq!(find_by_key(&11, &store), Ok(version(11, "r1", "{\"rule\":\"a\"}", 1_000)));
    assert_eq!(current_version("r1", &store), Ok(version(12, "r1", "{\"rule\":\"b\"}", 2_000)));
}

#[test]
fn delete_removes_the_resource_and_every_version() {
    let mut store = Store::new(1);
    create_resource_with(payload("r1", ResourceKind::ProxyRule, "{\"rule\":\"a\"}"), 11, 1_000, &mut store)
        .unwrap();
    create(&row(12, "r1", "{\"rule\":\"b\"}", 2_000), &mut store).unwrap();
    assert_eq!(delete_resource("r1", &mut store), Ok(()));
    assert_eq!(list_versions("r1", &store), Ok(vec![]));
    assert_eq!(find_by_key(&11, &store), Err(NOT_FOUND_VERSION));
    assert_eq!(find_by_key(&12, &store), Err(NOT_FOUND_VERSION));
    assert_eq!(find_resource_by_key("r1", &store), Err(NOT_FOUND_RESOURCE));
    assert_eq!(current_version("r1", &store), Err(NOT_FOUND_VERSION));
    assert_eq!(resource_state("r1", &store), Ok(ResourceState::Absent));
    assert_eq!(store.configs().len(), 0);
}

#[test]
fn delete_leaves_other_resources_alone() {
    let mut store = Store::new(1);
    create_resource_with(payload("a", ResourceKind::ProxyRule, "1"), 1, 10, &mut store).unwrap();
    create_resource_with(payload("b", ResourceKind::DnsRule, "2"), 2, 20, &mut store).unwrap();
    create(&row(3, "a", "3", 30), &mut store).unwrap();
    create(&row(4, "b", "4", 40), &mut store).unwrap();
    create(&row(5, "a", "5", 50), &mut store).unwrap();
    assert_eq!(delete_resource("a", &mut store), Ok(()));
    assert_eq!(store.configs().len(), 2);
    assert_eq!(keys(&list_versions("b", &store).unwrap()), vec![4, 2]);
    assert_eq!(
        find_resource_by_key("b", &store),
        Ok(Resource { key: "b".to_owned(), kind: ResourceKind::DnsRule })
    );
    assert_eq!(keys(&list_versions("a", &store).unwrap()), Vec::<u128>::new());
}

#[test]
fn delete_of_an_absent_resource_changes_nothing() {
    let mut store = Store::new(1);
    create_resource_with(payload("a", ResourceKind::ProxyRule, "1"), 1, 10, &mut store).unwrap();
    // versions of a resource that has no identity row
    create(&row(2, "ghost", "2", 20), &mut store).unwrap();
    let result = delete_resource("ghost", &mut store);
    assert_eq!(
        result,
        Err(ServiceError { step: Step::IdentityWrite, cause: NOT_FOUND_RESOURCE })
    );
    assert!(!result.unwrap_err().partial());
    assert_eq!(deleted_response(result).status, 404);
    assert_eq!(store.configs().len(), 2);
    assert_eq!(keys(&list_versions("ghost", &store).unwrap()), vec![2]);
    assert_eq!(keys(&list_versions("a", &store).unwrap()), vec![1]);
    assert!(find_resource_by_key("a", &store).is_ok());
    assert_eq!(delete_resource("nobody", &mut store).unwrap_err().cause, NOT_FOUND_RESOURCE);
}

#[test]
fn listing_is_newest_first() {
    let mut store = Store::new(1);
    for (key, at) in [(1u128, 30i64), (2, 10), (3, 50), (4, 20), (5, 40)] {
        create(&row(key, "r", "{}", at), &mut store).unwrap();
        create(&row(key + 100, "other", "{}", at), &mut store).unwrap();
    }
    let list = list_by_resource("r", &store).unwrap();
    assert_eq!(keys(&list), vec![3, 5, 1, 4, 2]);
    let stamps: Vec<i64> = list.iter().map(|version| version.created_at).collect();
    assert_eq!(stamps, vec![50, 40, 30, 20, 10]);
    assert!(list.iter().all(|version| version.resource_key == "r"));
    assert_eq!(current_version("r", &store).unwrap().key, 3);
    assert_eq!(keys(&list_by_resource("other", &store).unwrap()), vec![103, 105, 101, 104, 102]);
}

#[test]
fn versions_written_in_turn_are_listed_in_reverse() {
    let mut store = Store::new(1);
    create_resource_with(payload("r", ResourceKind::ProxyRule, "0"), 1, 100, &mut store).unwrap();
    for key in 2u128..=6 {
        let at = 100 + (key as i64) * 10;
        create(&row(key, "r", "{}", at), &mut store).unwrap();
        assert_eq!(current_version("r", &store).unwrap().key, key);
    }
    assert_eq!(keys(&list_versions("r", &store).unwrap()), vec![6, 5, 4, 3, 2, 1]);
}

#[test]
fn of_equal_times_the_later_written_comes_first() {
    let mut store = Store::new(1);
    create(&row(1, "r", "a", 7), &mut store).unwrap();
    create(&row(2, "r", "b", 7), &mut store).unwrap();
    create(&row(3, "r", "c", 9), &mut store).unwrap();
    create(&row(4, "r", "d", 7), &mut store).unwrap();
    create(&row(5, "r", "e", 3), &mut store).unwrap();
    assert_eq!(keys(&list_by_resource("r", &store).unwrap()), vec![3, 4, 2, 1, 5]);
}

#[test]
fn an_older_time_does_not_become_current() {
    let mut store = Store::new(1);
    create(&row(1, "r", "a", 5), &mut store).unwrap();
    create(&row(2, "r", "b", 3), &mut store).unwrap();
    assert_eq!(current_version("r", &store).unwrap().key, 1);
    assert_eq!(keys(&list_by_resource("r", &store).unwrap()), vec![1, 2]);
}

#[test]
fn listing_twice_gives_the_same() {
    let mut store = Store::new(1);
    create(&row(1, "r", "a", 5), &mut store).unwrap();
    create(&row(2, "r", "b", 5), &mut store).unwrap();
    create(&row(3, "r", "c", 1), &mut store).unwrap();
    let first = list_versions("r", &store);
    let second = list_versions("r", &store);
    assert_eq!(first, second);
    assert_eq!(keys(&first.unwrap()), vec![2, 1, 3]);
    assert_eq!(store.configs().len(), 3);
}

#[test]
fn a_resource_without_versions_has_the_empty_listing() {
    let mut store = Store::new(1);
    assert_eq!(list_by_resource("r", &store), Ok(vec![]));
    insert(&Resource { key: "r".to_owned(), kind: ResourceKind::DnsRule }, &mut store).unwrap();
    assert_eq!(list_by_resource("r", &store), Ok(vec![]));
    assert_eq!(current_version("r", &store), Err(NOT_FOUND_VERSION));
    assert_eq!(delete_by_resource_key("r", &mut store), Ok(()));
}

#[test]
fn a_version_key_is_unique() {
    let mut store = Store::new(1);
    create(&row(1, "r", "a", 5), &mut store).unwrap();
    let again = create(&row(1, "s", "b", 6), &mut store);
    assert_eq!(
        again,
        Err(StoreError::QueryFailed {
            entity: Entity::ResourceConfig,
            cause: DriverError::UniqueViolation,
        })
    );
    assert_eq!(store.configs().len(), 1);
    assert_eq!(find_by_key(&1, &store), Ok(version(1, "r", "a", 5)));
    assert_eq!(list_by_resource("s", &store), Ok(vec![]));
}

#[test]
fn a_failed_version_write_leaves_the_identity_row() {
    let mut store = Store::new(1);
    create(&row(9, "elsewhere", "x", 1), &mut store).unwrap();
    let result =
        create_resource_with(payload("r", ResourceKind::ProxyRule, "{}"), 9, 2, &mut store);
    let error = result.unwrap_err();
    assert_eq!(
        error,
        ServiceError {
            step: Step::VersionWrite,
            cause: StoreError::QueryFailed {
                entity: Entity::ResourceConfig,
                cause: DriverError::UniqueViolation,
            },
        }
    );
    assert!(error.partial());
    assert_eq!(error_response(error).status, 400);
    assert_eq!(error_response(error).body, Body::Error(error));
    assert!(find_resource_by_key("r", &store).is_ok());
    assert_eq!(list_versions("r", &store), Ok(vec![]));
    assert_eq!(resource_state("r", &store), Ok(ResourceState::Orphaned));
    assert_eq!(store.configs().len(), 1);
    // the caller reads, then retries under another key
    assert_eq!(
        create_resource_with(payload("r", ResourceKind::ProxyRule, "{}"), 10, 3, &mut store)
            .unwrap_err()
            .cause,
        StoreError::Conflict { entity: Entity::Resource }
    );
    create(&row(10, "r", "{}", 3), &mut store).unwrap();
    assert_eq!(resource_state("r", &store), Ok(ResourceState::Active));
}

#[test]
fn versions_without_a_resource_are_orphaned() {
    let mut store = Store::new(1);
    assert_eq!(resource_state("r", &store), Ok(ResourceState::Absent));
    create_resource_with(payload("r", ResourceKind::ProxyRule, "{}"), 1, 1, &mut store).unwrap();
    assert_eq!(delete_by_key("r", &mut store), Ok(()));
    assert_eq!(resource_state("r", &store), Ok(ResourceState::Orphaned));
    assert_eq!(keys(&list_versions("r", &store).unwrap()), vec![1]);
    assert_eq!(delete_by_resource_key("r", &mut store), Ok(()));
    assert_eq!(resource_state("r", &store), Ok(ResourceState::Absent));
}

#[test]
fn an_exhausted_pool_fails_every_call_and_changes_nothing() {
    let mut store = Store::new(2);
    create_resource_with(payload("r", ResourceKind::ProxyRule, "{}"), 1, 1, &mut store).unwrap();
    let first = store.checkout().unwrap();
    assert!(store.available());
    let second = store.checkout().unwrap();
    assert!(!store.available());
    assert_eq!(store.checkout().unwrap_err(), StoreError::StoreUnavailable);

    let unavailable = Err(StoreError::StoreUnavailable);
    assert_eq!(create(&row(2, "r", "{}", 2), &mut store), unavailable);
    assert_eq!(list_by_resource("r", &store), Err(StoreError::StoreUnavailable));
    assert_eq!(find_by_key(&1, &store), Err(StoreError::StoreUnavailable));
    assert_eq!(delete_by_resource_key("r", &mut store), Err(StoreError::StoreUnavailable));
    assert_eq!(
        insert(&Resource { key: "s".to_owned(), kind: ResourceKind::DnsRule }, &mut store),
        Err(StoreError::StoreUnavailable)
    );
    assert_eq!(find_resource_by_key("r", &store), Err(StoreError::StoreUnavailable));
    assert_eq!(delete_by_key("r", &mut store), Err(StoreError::StoreUnavailable));
    assert_eq!(current_version("r", &store), Err(StoreError::StoreUnavailable));
    assert_eq!(resource_state("r", &store), Err(StoreError::StoreUnavailable));
    let refused = ServiceError { step: Step::IdentityWrite, cause: StoreError::StoreUnavailable };
    assert_eq!(delete_resource("r", &mut store), Err(refused));
    assert_eq!(
        create_resource(payload("s", ResourceKind::DnsRule, "{}"), &mut store),
        Err(refused)
    );
    assert_eq!(error_response(refused).status, 400);

    store.checkin(first);
    assert!(store.available());
    assert_eq!(keys(&list_by_resource("r", &store).unwrap()), vec![1]);
    assert!(find_resource_by_key("s", &store).is_err());
    store.checkin(second);
    // a connection too many is not counted
    let mut other = Store::new(1);
    let stray = other.checkout().unwrap();
    store.checkin(stray);
    assert!(store.checkout().is_ok());
    assert!(store.checkout().is_ok());
    assert!(store.checkout().is_err());
}

#[test]
fn a_pool_of_none_is_never_available() {
    let mut store = Store::new(0);
    assert!(!store.available());
    assert_eq!(
        create_resource(payload("r", ResourceKind::ProxyRule, "{}"), &mut store)
            .unwrap_err()
            .cause,
        StoreError::StoreUnavailable
    );
}

#[test]
fn drawn_keys_are_random_uuids_and_the_time_is_read() {
    let mut store = Store::new(1);
    let (_, first) =
        create_resource(payload("a", ResourceKind::ProxyRule, "{}"), &mut store).unwrap();
    let (_, second) =
        create_resource(payload("b", ResourceKind::ProxyRule, "{}"), &mut store).unwrap();
    assert_ne!(first.key, second.key);
    for drawn in [&first, &second] {
        let uuid = uuid::Uuid::from_u128(drawn.key);
        assert_eq!(uuid.get_version_num(), 4);
        assert_eq!(uuid.get_variant(), uuid::Variant::RFC4122);
    }
    // 2020-01-01 in microseconds since the epoch
    assert!(first.created_at > 1_577_836_800_000_000);
    assert!(second.created_at >= first.created_at - 1_000_000);
    assert_eq!(find_by_key(&first.key, &store), Ok(first));
}

#[test]
fn statuses() {
    let not_found = ServiceError { step: Step::IdentityWrite, cause: NOT_FOUND_RESOURCE };
    let conflict = ServiceError {
        step: Step::IdentityWrite,
        cause: StoreError::Conflict { entity: Entity::Resource },
    };
    let failed = ServiceError {
        step: Step::VersionWrite,
        cause: StoreError::QueryFailed {
            entity: Entity::ResourceConfig,
            cause: DriverError::UniqueViolation,
        },
    };
    assert_eq!(error_response(not_found).status, 404);
    assert_eq!(error_response(conflict).status, 409);
    assert_eq!(error_response(failed).status, 400);
    assert_eq!(deleted_response(Ok(())).status, 202);
    assert_eq!(deleted_response(Err(not_found)).body, Body::Error(not_found));
    assert_eq!(created_response(Err(conflict)).body, Body::Error(conflict));
    assert_eq!(Entity::Resource.name(), "Resource");
    assert_eq!(Entity::ResourceConfig.name(), "ResourceConfig");
}

#[test]
fn a_new_version_gets_a_key_and_a_time() {
    let mut store = Store::new(1);
    create_resource_with(payload("r1", ResourceKind::ProxyRule, "{\"rule\":\"a\"}"), 11, 1_000, &mut store)
        .unwrap();
    let written = create_version("r1", "{\"rule\":\"b\"}".to_owned(), &mut store).unwrap();
    assert_eq!(written.resource_key, "r1");
    assert_eq!(written.data, "{\"rule\":\"b\"}");
    assert_ne!(written.key, 11);
    assert_eq!(uuid::Uuid::from_u128(written.key).get_version_num(), 4);
    assert!(written.created_at > 1_000);
    assert_eq!(current_version("r1", &store), Ok(written.clone()));
    assert_eq!(keys(&list_versions("r1", &store).unwrap()), vec![written.key, 11]);
    assert_eq!(find_by_key(&written.key, &store), Ok(written));

    let mut empty = Store::new(0);
    assert_eq!(
        create_version("r1", "{}".to_owned(), &mut empty),
        Err(StoreError::StoreUnavailable)
    );
}
