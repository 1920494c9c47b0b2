use crate::name_map::NameMap;
use vstd::prelude::*;

verus! {

/// The arguments of the `context` command.
#[derive(Debug, PartialEq, Eq)]
pub struct ContextArg {
    pub command: ContextCommand,
}

/// What the `context` command can be asked to do.
#[derive(Debug, PartialEq, Eq)]
pub enum ContextCommand {
    /// List contexts
    List,
    /// Set current context
    Use {
        /// Context name
        name: String,
    },
    /// Create a new context from a file
    From {
        /// Path to context file
        path: String,
    },
}

/// Where a service of a cluster is reached.
#[derive(Clone, Debug, PartialEq, Eq)]
pub struct ContextEndpoint {
    pub host: String,
}

/// What is said about a context.
#[derive(Clone, Debug, PartialEq, Eq)]
pub struct ContextMetaData {
    pub description: String,
}

/// A named set of endpoints through which a remote cluster is managed.
#[derive(Clone, Debug)]
pub struct Context {
    pub name: String,
    pub meta_data: ContextMetaData,
    pub endpoints: NameMap<ContextEndpoint>,
}

/// A row of the table of contexts.
#[derive(Clone, Debug, PartialEq, Eq)]
pub struct ContextRow {
    /// Name of the context
    pub name: String,
    /// Description of the context
    pub description: String,
    /// Endpoint of the context
    pub endpoint: String,
    /// Current context indicator
    pub current: String,
}

pub struct ContextRowView {
    pub name: Seq<char>,
    pub description: Seq<char>,
    pub endpoint: Seq<char>,
    pub current: Seq<char>,
}

impl View for ContextRow {
    type V = ContextRowView;

    open spec fn view(&self) -> ContextRowView {
        ContextRowView {
            name: self.name@,
            description: self.description@,
            endpoint: self.endpoint@,
            current: self.current@,
        }
    }
}

impl Context {
    /// The context can be shown as a row: it has an endpoint named `Nanocl`.
    pub open spec fn has_row(&self) -> bool {
        &&& self.endpoints.wf()
        &&& self.endpoints@.contains_key("Nanocl"@)
    }

    /// The row that shows the context: its name, its description, the host of
    /// its `Nanocl` endpoint, and the mark of a context that is not the
    /// current one.
    pub open spec fn row(&self) -> ContextRowView
        recommends
            self.has_row(),
    {
        ContextRowView {
            name: self.name@,
            description: self.meta_data.description@,
            endpoint: self.endpoints@["Nanocl"@].host@,
            current: "⨯"@,
        }
    }

    /// The row that shows the context.
    pub fn to_row(&self) -> (row: ContextRow)
        requires
            self.has_row(),
        ensures
            row@ == self.row(),
    {
        let nanocl = "Nanocl".to_owned();
        let endpoint = self.endpoints.get(&nanocl).unwrap();
        ContextRow {
            name: self.name.clone(),
            description: self.meta_data.description.clone(),
            endpoint: endpoint.host.clone(),
            current: "⨯".to_owned(),
        }
    }
}

impl ContextRow {
    /// The row that shows `context`.
    pub fn from(context: Context) -> (row: ContextRow)
        requires
            context.has_row(),
        ensures
            row@ == context.row(),
    {
        context.to_row()
    }
}

/// An endpoint as the metadata of a docker context gives it.
#[derive(Clone, Debug, PartialEq, Eq)]
pub struct DockerContextMetaEndpoint {
    pub host: String,
}

/// The metadata of a docker context.
#[derive(Clone, Debug)]
pub struct DockerContextMeta {
    pub endpoints: NameMap<DockerContextMetaEndpoint>,
}

} // verus!
