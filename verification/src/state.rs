//! The documents in which a desired state is declared. They are containers
//! of what was declared and carry no identity of their own: the key of a
//! declared workload is derived from its name and the document's namespace
//! when the state is applied. The library does not read the specs of the
//! resources and the cargoes, so their types are left to the user.

use vstd::prelude::*;

verus! {

/// What says which kind of document a state file holds.
#[derive(Debug)]
pub struct StateConfig {
    pub api_version: String,
    pub type_: String,
}

/// A document that declares resources.
#[derive(Debug)]
pub struct StateResources<R> {
    pub resources: Vec<R>,
}

/// A document that declares the cargoes of a namespace.
#[derive(Debug)]
pub struct StateCargo<C> {
    pub namespace: Option<String>,
    pub cargoes: Vec<C>,
}

/// A document that declares both the resources and the cargoes of a
/// namespace.
#[derive(Debug)]
pub struct StateDeployment<R, C> {
    pub namespace: Option<String>,
    pub resources: Option<Vec<R>>,
    pub cargoes: Option<Vec<C>>,
}

} // verus!
