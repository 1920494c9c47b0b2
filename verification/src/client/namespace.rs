//! The requests by which a client manages namespaces. The client makes the
//! request; sending it and reading the answer is left to the caller.

use crate::models::namespace::Namespace;
use vstd::prelude::*;
use vstd::string::StringExecFns;

verus! {

/// A client of one daemon, speaking one version of its interface.
#[derive(Clone, Debug, PartialEq, Eq)]
pub struct NanocldClient {
    pub url: String,
    pub version: String,
}

#[derive(Clone, Copy, Debug, PartialEq, Eq, Structural)]
pub enum Method {
    Get,
    Post,
    Delete,
}

/// A request to the daemon: what to do, on which path, with which namespace
/// as its body.
#[derive(Clone, Debug, PartialEq, Eq)]
pub struct Request {
    pub method: Method,
    pub path: String,
    pub body: Option<Namespace>,
}

impl NanocldClient {
    /// The path under which the namespaces are.
    pub open spec fn namespaces_path(&self) -> Seq<char> {
        "/"@ + self.version@ + "/namespaces"@
    }

    fn namespaces(&self) -> (path: String)
        ensures
            path@ == self.namespaces_path(),
    {
        "/".to_owned().concat(self.version.as_str()).concat("/namespaces")
    }

    /// The request that lists all namespaces.
    pub fn list_namespace(&self) -> (request: Request)
        ensures
            request.method == Method::Get,
            request.path@ == self.namespaces_path(),
            request.body is None,
    {
        Request { method: Method::Get, path: self.namespaces(), body: None }
    }

    /// The request that creates the namespace `name`.
    pub fn create_namespace(&self, name: &str) -> (request: Request)
        ensures
            request.method == Method::Post,
            request.path@ == self.namespaces_path(),
            request.body matches Some(namespace) && namespace.name@ == name@,
    {
        Request {
            method: Method::Post,
            path: self.namespaces(),
            body: Some(Namespace { name: name.to_owned() }),
        }
    }

    /// The request that asks what the namespace `name` holds.
    pub fn inspect_namespace(&self, name: &str) -> (request: Request)
        ensures
            request.method == Method::Get,
            request.path@ == self.namespaces_path() + "/"@ + name@ + "/inspect"@,
            request.body is None,
    {
        Request {
            method: Method::Get,
            path: self.namespaces().concat("/").concat(name).concat("/inspect"),
            body: None,
        }
    }

    /// The request that deletes the namespace `name`.
    pub fn delete_namespace(&self, name: &str) -> (request: Request)
        ensures
            request.method == Method::Delete,
            request.path@ == self.namespaces_path() + "/"@ + name@,
            request.body is None,
    {
        Request {
            method: Method::Delete,
            path: self.namespaces().concat("/").concat(name),
            body: None,
        }
    }
}

} // verus!
