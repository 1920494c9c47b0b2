use nanocl_resources::client::namespace::{Method, NanocldClient, Request};
use nanocl_resources::models::namespace::Namespace;
use nanocl_resources::models::resource::{ResourceConfig, ResourceConfigDbModel, ResourceKind};
use nanocl_resources::models::vm_image::{QemuImgInfo, VmImage, VmImageDbModel, VmImageUpdateDbModel};
use nanocl_resources::name_map::NameMap;

#[test]
fn namespace_basic() {
    const NAMESPACE: &str = "clientnt";
    let client = NanocldClient { url: "http://localhost:8585".to_owned(), version: "v0.2".to_owned() };

    let request = client.list_namespace();
    assert_eq!(
        request,
        Request { method: Method::Get, path: "/v0.2/namespaces".to_owned(), body: None }
    );

    let request = client.create_namespace(NAMESPACE);
    assert_eq!(request.method, Method::Post);
    assert_eq!(request.path, "/v0.2/namespaces");
    let namespace = request.body.unwrap();
    assert_eq!(namespace.name, NAMESPACE);

    let request = client.inspect_namespace(NAMESPACE);
    assert_eq!(
        request,
        Request {
            method: Method::Get,
            path: "/v0.2/namespaces/clientnt/inspect".to_owned(),
            body: None,
        }
    );

    let request = client.delete_namespace(NAMESPACE);
    assert_eq!(
        request,
        Request { method: Method::Delete, path: "/v0.2/namespaces/clientnt".to_owned(), body: None }
    );
    assert_eq!(namespace, Namespace { name: "clientnt".to_owned() });
}

#[test]
fn an_image_is_its_row_without_the_parent() {
    let row = VmImageDbModel {
        name: "ubuntu-22.snap".to_owned(),
        created_at: 1_700_000_000_000_000,
        kind: "Snapshot".to_owned(),
        path: "/var/lib/nanocl/vms/images/ubuntu-22.snap.img".to_owned(),
        format: "qcow2".to_owned(),
        size_actual: 196_616,
        size_virtual: 10_737_418_240,
        parent: Some("ubuntu-22".to_owned()),
    };
    assert_eq!(
        VmImage::from(row),
        VmImage {
            name: "ubuntu-22.snap".to_owned(),
            created_at: 1_700_000_000_000_000,
            path: "/var/lib/nanocl/vms/images/ubuntu-22.snap.img".to_owned(),
            kind: "Snapshot".to_owned(),
            format: "qcow2".to_owned(),
            size_actual: 196_616,
            size_virtual: 10_737_418_240,
        }
    );
}

#[test]
fn a_report_gives_the_sizes_to_write() {
    let info = QemuImgInfo { format: "raw".to_owned(), virtual_size: 4096, actual_size: 512 };
    assert_eq!(info.sizes(), VmImageUpdateDbModel { size_actual: 512, size_virtual: 4096 });
}

#[test]
fn a_version_is_its_row() {
    let row = ResourceConfigDbModel {
        key: 0xa1a2a3a4_b1b2_c1c2_d1d2_d3d4d5d6d7d8,
        resource_key: "r1".to_owned(),
        data: "{\"rule\":\"a\"}".to_owned(),
        created_at: -5,
    };
    assert_eq!(
        ResourceConfig::from(row.clone()),
        ResourceConfig {
            key: 0xa1a2a3a4_b1b2_c1c2_d1d2_d3d4d5d6d7d8,
            resource_key: "r1".to_owned(),
            data: "{\"rule\":\"a\"}".to_owned(),
            created_at: -5,
        }
    );
    assert_eq!(row.clone(), row);
}

#[test]
fn a_name_map_holds_one_value_under_a_name() {
    let mut map: NameMap<u32> = NameMap::new();
    assert_eq!(map.get(&"a".to_owned()), None);
    map.insert("a".to_owned(), 1);
    map.insert("b".to_owned(), 2);
    map.insert("a".to_owned(), 3);
    assert_eq!(map.get(&"a".to_owned()), Some(&3));
    assert_eq!(map.get(&"b".to_owned()), Some(&2));
    assert_eq!(map.entries().len(), 2);
    assert_eq!(map.remove(&"a".to_owned()), Some(3));
    assert_eq!(map.remove(&"a".to_owned()), None);
    assert_eq!(map.get(&"a".to_owned()), None);
    assert_eq!(map.get(&"b".to_owned()), Some(&2));
    assert_eq!(map.entries(), &vec![("b".to_owned(), 2)]);
}

#[test]
fn a_kind_has_a_name() {
    assert_eq!(ResourceKind::ProxyRule.name(), "ProxyRule");
    assert_eq!(ResourceKind::DnsRule.name(), "DnsRule");
    assert_eq!(ResourceKind::from_name("ProxyRule"), Some(ResourceKind::ProxyRule));
    assert_eq!(ResourceKind::from_name("DnsRule"), Some(ResourceKind::DnsRule));
    assert_eq!(ResourceKind::from_name("proxyrule"), None);
    assert_eq!(ResourceKind::from_name(""), None);
}
