use vstd::prelude::*;

verus! {

/// What a resource is for. Fixed when the resource is created.
#[derive(Clone, Copy, Debug, PartialEq, Eq, Structural)]
pub enum ResourceKind {
    ProxyRule,
    DnsRule,
}

impl ResourceKind {
    /// The name of the kind, as it is written in requests and in the identity
    /// table.
    pub open spec fn spec_name(self) -> Seq<char> {
        match self {
            ResourceKind::ProxyRule => "ProxyRule"@,
            ResourceKind::DnsRule => "DnsRule"@,
        }
    }

    /// The name of the kind.
    pub fn name(&self) -> (name: &'static str)
        ensures
            name@ == self.spec_name(),
    {
        match self {
            ResourceKind::ProxyRule => "ProxyRule",
            ResourceKind::DnsRule => "DnsRule",
        }
    }

    /// The kind that `name` names, if it names one.
    pub fn from_name(name: &str) -> (kind: Option<ResourceKind>)
        ensures
            match kind {
                Some(found) => name@ == found.spec_name(),
                None => name@ != "ProxyRule"@ && name@ != "DnsRule"@,
            },
    {
        let name = name.to_owned();
        if name == "ProxyRule".to_owned() {
            Some(ResourceKind::ProxyRule)
        } else if name == "DnsRule".to_owned() {
            Some(ResourceKind::DnsRule)
        } else {
            None
        }
    }
}

/// The identity row of a resource.
#[derive(Debug, PartialEq, Eq)]
pub struct Resource {
    pub key: String,
    pub kind: ResourceKind,
}

pub struct ResourceView {
    pub key: Seq<char>,
    pub kind: ResourceKind,
}

impl View for Resource {
    type V = ResourceView;

    open spec fn view(&self) -> ResourceView {
        ResourceView { key: self.key@, kind: self.kind }
    }
}

impl Clone for Resource {
    fn clone(&self) -> (r: Self)
        ensures
            r@ == self@,
    {
        Resource { key: self.key.clone(), kind: self.kind }
    }
}

/// What a caller hands in to have a resource created: its name, its kind and
/// its first configuration.
#[derive(Debug, PartialEq, Eq)]
pub struct ResourcePartial {
    pub name: String,
    pub kind: ResourceKind,
    pub config: String,
}

pub struct ResourcePartialView {
    pub name: Seq<char>,
    pub kind: ResourceKind,
    pub config: Seq<char>,
}

impl View for ResourcePartial {
    type V = ResourcePartialView;

    open spec fn view(&self) -> ResourcePartialView {
        ResourcePartialView { name: self.name@, kind: self.kind, config: self.config@ }
    }
}

/// One version of a resource's configuration, as a row of the version table.
///
/// `data` is the configuration document in serialised form; nothing here looks
/// inside it. `created_at` counts microseconds since the Unix epoch.
#[derive(Debug, PartialEq, Eq)]
pub struct ResourceConfigDbModel {
    pub key: u128,
    pub resource_key: String,
    pub data: String,
    pub created_at: i64,
}

/// One version of a resource's configuration, as callers see it.
#[derive(Debug, PartialEq, Eq)]
pub struct ResourceConfig {
    pub key: u128,
    pub resource_key: String,
    pub data: String,
    pub created_at: i64,
}

pub struct ResourceConfigView {
    pub key: u128,
    pub resource_key: Seq<char>,
    pub data: Seq<char>,
    pub created_at: i64,
}

impl View for ResourceConfigDbModel {
    type V = ResourceConfigView;

    open spec fn view(&self) -> ResourceConfigView {
        ResourceConfigView {
            key: self.key,
            resource_key: self.resource_key@,
            data: self.data@,
            created_at: self.created_at,
        }
    }
}

impl View for ResourceConfig {
    type V = ResourceConfigView;

    open spec fn view(&self) -> ResourceConfigView {
        ResourceConfigView {
            key: self.key,
            resource_key: self.resource_key@,
            data: self.data@,
            created_at: self.created_at,
        }
    }
}

impl Clone for ResourceConfigDbModel {
    fn clone(&self) -> (r: Self)
        ensures
            r@ == self@,
    {
        ResourceConfigDbModel {
            key: self.key,
            resource_key: self.resource_key.clone(),
            data: self.data.clone(),
            created_at: self.created_at,
        }
    }
}

impl Clone for ResourceConfig {
    fn clone(&self) -> (r: Self)
        ensures
            r@ == self@,
    {
        ResourceConfig {
            key: self.key,
            resource_key: self.resource_key.clone(),
            data: self.data.clone(),
            created_at: self.created_at,
        }
    }
}

impl From<ResourceConfigDbModel> for ResourceConfig {
    fn from(row: ResourceConfigDbModel) -> (config: ResourceConfig) {
        ResourceConfig {
            key: row.key,
            resource_key: row.resource_key,
            data: row.data,
            created_at: row.created_at,
        }
    }
}

impl vstd::std_specs::convert::FromSpecImpl<ResourceConfigDbModel> for ResourceConfig {
    open spec fn obeys_from_spec() -> bool {
        true
    }

    open spec fn from_spec(row: ResourceConfigDbModel) -> ResourceConfig {
        ResourceConfig {
            key: row.key,
            resource_key: row.resource_key,
            data: row.data,
            created_at: row.created_at,
        }
    }
}

/// The views of the rows of a table, in the table's order.
pub open spec fn config_views(rows: Seq<ResourceConfigDbModel>) -> Seq<ResourceConfigView> {
    rows.map_values(|row: ResourceConfigDbModel| row@)
}

/// The views of a list of versions, in the list's order.
pub open spec fn version_views(versions: Seq<ResourceConfig>) -> Seq<ResourceConfigView> {
    versions.map_values(|version: ResourceConfig| version@)
}

} // verus!
