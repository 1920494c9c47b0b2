//! Contexts: the default one, where contexts are kept on disk, and the table
//! that lists them. Reading the environment and the files is left to the
//! caller, who hands in what was read.

use crate::models::context::{Context, ContextEndpoint, ContextMetaData, ContextRow, ContextRowView};
use crate::name_map::NameMap;
use vstd::prelude::*;
use vstd::string::StringExecFns;

verus! {

/// The host of the default context where the environment names none.
pub open spec fn default_host() -> Seq<char> {
    "unix:///run/nanocl/nanocl.sock"@
}

/// The host of the default context, given what the variable `NANOCL_HOST`
/// holds, if it is set.
pub open spec fn host_or_default(nanocl_host: Option<String>) -> Seq<char> {
    match nanocl_host {
        Some(host) => host@,
        None => default_host(),
    }
}

/// The rows of `contexts`, in their order.
pub open spec fn rows_of(contexts: Seq<Context>) -> Seq<ContextRowView> {
    contexts.map_values(|context: Context| context.row())
}

/// The views of `rows`, in their order.
pub open spec fn row_views(rows: Seq<ContextRow>) -> Seq<ContextRowView> {
    rows.map_values(|row: ContextRow| row@)
}

impl Context {
    /// The default context. Its one endpoint, `Nanocl`, is at `nanocl_host`,
    /// which is what the variable `NANOCL_HOST` holds, or at the local socket
    /// where the variable is not set.
    pub fn new(nanocl_host: Option<String>) -> (context: Context)
        ensures
            context.has_row(),
            context.name@ == "default"@,
            context.meta_data.description@ == "Default context based on NANOCL_HOST env"@,
            context.endpoints@.dom() == set!["Nanocl"@],
            context.endpoints@["Nanocl"@].host@ == host_or_default(nanocl_host),
    {
        let host = match nanocl_host {
            Some(host) => host,
            None => "unix:///run/nanocl/nanocl.sock".to_owned(),
        };
        let mut endpoints = NameMap::new();
        endpoints.insert("Nanocl".to_owned(), ContextEndpoint { host });
        assert(endpoints@.dom() =~= set!["Nanocl"@]);
        Context {
            name: "default".to_owned(),
            meta_data: ContextMetaData {
                description: "Default context based on NANOCL_HOST env".to_owned(),
            },
            endpoints,
        }
    }

    /// The directory in which the contexts of the user whose home is `home`
    /// are kept.
    pub fn directory(home: &str) -> (path: String)
        ensures
            path@ == home@ + "/.nanocl/contexts"@,
    {
        home.to_owned().concat("/.nanocl/contexts")
    }

    /// The file in which the context `name` is kept.
    pub fn file_of(home: &str, name: &str) -> (path: String)
        ensures
            path@ == home@ + "/.nanocl/contexts/"@ + name@ + ".yml"@,
    {
        home.to_owned().concat("/.nanocl/contexts/").concat(name).concat(".yml")
    }

    /// The file in which the user's choice of context is kept.
    pub fn config_file(home: &str) -> (path: String)
        ensures
            path@ == home@ + "/.nanocl/conf.yml"@,
    {
        home.to_owned().concat("/.nanocl/conf.yml")
    }

    /// Whether `name` names a context that is kept in a file. The default
    /// context is not: it can be chosen without being read.
    pub fn is_stored(name: &str) -> (stored: bool)
        ensures
            stored == (name@ != "default"@),
    {
        name.to_owned() != "default".to_owned()
    }

    /// The table of contexts: the default context first, then `contexts` in
    /// their order. `contexts` are those that were read from the directory.
    pub fn list(nanocl_host: Option<String>, contexts: &Vec<Context>) -> (rows: Vec<ContextRow>)
        requires
            forall|i: int| 0 <= i < contexts.len() ==> (#[trigger] contexts[i]).has_row(),
        ensures
            rows.len() == contexts.len() + 1,
            rows[0]@.name == "default"@,
            rows[0]@.description == "Default context based on NANOCL_HOST env"@,
            rows[0]@.endpoint == host_or_default(nanocl_host),
            rows[0]@.current == "⨯"@,
            row_views(rows@).skip(1) == rows_of(contexts@),
    {
        let mut rows: Vec<ContextRow> = Vec::new();
        rows.push(ContextRow::from(Context::new(nanocl_host)));
        let mut i: usize = 0;
        while i < contexts.len()
            invariant
                i <= contexts.len(),
                forall|j: int| 0 <= j < contexts.len() ==> (#[trigger] contexts[j]).has_row(),
                rows.len() == i + 1,
                rows[0]@.name == "default"@,
                rows[0]@.description == "Default context based on NANOCL_HOST env"@,
                rows[0]@.endpoint == host_or_default(nanocl_host),
                rows[0]@.current == "⨯"@,
                row_views(rows@).skip(1) == rows_of(contexts@.take(i as int)),
            decreases contexts.len() - i,
        {
            let ghost before = rows@;
            rows.push(contexts[i].to_row());
            assert(row_views(rows@).skip(1) =~= rows_of(contexts@.take(i as int + 1))) by {
                assert(row_views(before).skip(1) == rows_of(contexts@.take(i as int)));
                assert forall|j: int| 0 <= j < i implies row_views(rows@).skip(1)[j] == rows_of(
                    contexts@.take(i as int + 1),
                )[j] by {
                    assert(row_views(before).skip(1)[j] == rows_of(contexts@.take(i as int))[j]);
                }
            }
            i += 1;
        }
        assert(contexts@.take(contexts.len() as int) =~= contexts@);
        rows
    }
}

} // verus!
