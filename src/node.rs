//! Node type plumbing.
use vstd::prelude::*;
use core::marker::PhantomData;

verus! {

/// Adds a database and a provider type to the node types a user configured.
#[derive(Debug)]
pub struct FullNodeTypesAdapter<Types, DB, Provider> {
    pub(crate) types: Types,
    _db: PhantomData<DB>,
    _provider: PhantomData<Provider>,
}

impl<Types, DB, Provider> FullNodeTypesAdapter<Types, DB, Provider> {
    /// The node types the adapter wraps.
    pub closed spec fn spec_types(&self) -> Types {
        self.types
    }

    /// An adapter over the given node types.
    pub fn new(types: Types) -> (r: Self)
        ensures
            r.spec_types() == types,
    {
        FullNodeTypesAdapter { types, _db: PhantomData, _provider: PhantomData }
    }

    /// The node types the adapter wraps.
    pub fn types(&self) -> (r: &Types)
        ensures
            *r == self.spec_types(),
    {
        &self.types
    }
}

} // verus!
