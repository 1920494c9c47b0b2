use vstd::prelude::*;

verus! {

/// A namespace: a name under which workloads are grouped.
#[derive(Clone, Debug, PartialEq, Eq)]
pub struct Namespace {
    pub name: String,
}

} // verus!
