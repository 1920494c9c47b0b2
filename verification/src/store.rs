//! The two tables and the connection pool in front of them.
//!
//! Every statement runs on a connection borrowed from a bounded pool for the
//! duration of the call. The store serves one caller at a time, so the borrow
//! is over when the call returns and the number of connections in use is what
//! it was. Connections that the embedding program keeps for itself are
//! checked out and in explicitly; while all are out, every call fails with
//! `StoreUnavailable`.

use crate::error::StoreError;
use crate::model::{distinct_keys, StoreView};
use crate::models::resource::{config_views, Resource, ResourceConfigDbModel, ResourceKind};
use crate::name_map::NameMap;
use vstd::prelude::*;

verus! {

/// A connection that is checked out of the pool.
#[derive(Debug)]
pub struct Connection {
    slot: usize,
}

/// The identity table, the version table and the pool.
#[derive(Debug)]
pub struct Store {
    resources: NameMap<ResourceKind>,
    configs: Vec<ResourceConfigDbModel>,
    pool_size: usize,
    in_use: usize,
}

impl View for Store {
    type V = StoreView;

    closed spec fn view(&self) -> StoreView {
        StoreView {
            resources: self.resources@,
            configs: config_views(self.configs@),
            pool_size: self.pool_size as nat,
            in_use: self.in_use as nat,
        }
    }
}

impl Store {
    /// No two identity rows share a key.
    pub closed spec fn identities_distinct(&self) -> bool {
        self.resources.wf()
    }

    /// The store is in order: its view is, and no two identity rows share a key.
    pub open spec fn wf(&self) -> bool {
        &&& self@.wf()
        &&& self.identities_distinct()
    }

    /// An empty store behind a pool of `pool_size` connections.
    pub fn new(pool_size: usize) -> (store: Store)
        ensures
            store.wf(),
            store@.resources == Map::<Seq<char>, ResourceKind>::empty(),
            store@.configs == Seq::<crate::models::resource::ResourceConfigView>::empty(),
            store@.pool_size == pool_size,
            store@.in_use == 0,
    {
        let store = Store { resources: NameMap::new(), configs: Vec::new(), pool_size, in_use: 0 };
        assert(store@.configs =~= Seq::empty());
        store
    }

    /// Whether a statement issued now would get a connection.
    pub fn available(&self) -> (b: bool)
        ensures
            b == self@.available(),
    {
        self.in_use < self.pool_size
    }

    /// Takes a connection out of the pool and keeps it out until it is
    /// checked in again.
    pub fn checkout(&mut self) -> (result: Result<Connection, StoreError>)
        requires
            old(self).wf(),
        ensures
            final(self).wf(),
            match result {
                Ok(_) => old(self)@.available() && final(self)@ == (StoreView {
                    in_use: old(self)@.in_use + 1,
                    ..old(self)@
                }),
                Err(error) => !old(self)@.available() && error == StoreError::StoreUnavailable
                    && final(self)@ == old(self)@,
            },
    {
        if self.in_use < self.pool_size {
            let slot = self.in_use;
            self.in_use = self.in_use + 1;
            Ok(Connection { slot })
        } else {
            Err(StoreError::StoreUnavailable)
        }
    }

    /// Gives a connection back to the pool. Where none is out, nothing changes.
    pub fn checkin(&mut self, connection: Connection)
        requires
            old(self).wf(),
        ensures
            final(self).wf(),
            final(self)@ == (StoreView {
                in_use: if old(self)@.in_use > 0 {
                    (old(self)@.in_use - 1) as nat
                } else {
                    0
                },
                ..old(self)@
            }),
    {
        if self.in_use > 0 {
            self.in_use = self.in_use - 1;
        }
    }

    /// The kind of the resource `key`, if the identity table has it.
    pub fn resource_kind(&self, key: &String) -> (kind: Option<ResourceKind>)
        requires
            self.wf(),
        ensures
            kind is Some == self@.has_resource(key@),
            kind matches Some(k) ==> k == self@.resources[key@],
    {
        match self.resources.get(key) {
            Some(kind) => Some(*kind),
            None => None,
        }
    }

    /// Writes an identity row, in the place of the one with that key if there
    /// is one.
    pub(crate) fn put_resource(&mut self, resource: Resource)
        requires
            old(self).wf(),
        ensures
            final(self).wf(),
            final(self)@ == old(self)@.with_resource(resource@),
    {
        self.resources.insert(resource.key, resource.kind);
    }

    /// Removes the identity row `key`, if there is one.
    pub(crate) fn remove_resource(&mut self, key: &String)
        requires
            old(self).wf(),
        ensures
            final(self).wf(),
            final(self)@ == old(self)@.without_resource(key@),
    {
        self.resources.remove(key);
    }

    /// The rows of the version table, in the order in which they were written.
    pub fn configs(&self) -> (rows: &Vec<ResourceConfigDbModel>)
        ensures
            config_views(rows@) == self@.configs,
    {
        &self.configs
    }

    /// Appends a row to the version table.
    pub(crate) fn push_config(&mut self, row: ResourceConfigDbModel)
        requires
            old(self).wf(),
            !old(self)@.has_version(row.key),
        ensures
            final(self).wf(),
            final(self)@ == old(self)@.with_version(row@),
    {
        self.configs.push(row);
        assert(self@.configs =~= old(self)@.configs.push(row@));
    }

    /// Puts `rows` in the place of the version table.
    pub(crate) fn set_configs(&mut self, rows: Vec<ResourceConfigDbModel>)
        requires
            old(self).wf(),
            distinct_keys(config_views(rows@)),
        ensures
            final(self).wf(),
            final(self)@ == (StoreView { configs: config_views(rows@), ..old(self)@ }),
    {
        self.configs = rows;
    }
}

} // verus!
