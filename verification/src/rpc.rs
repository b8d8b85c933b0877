//! The RPC handle of the knowledge runtime API.

use vstd::prelude::*;
use std::marker::PhantomData;
use std::sync::Arc;

verus! {

/// Answers the knowledge RPC methods through a client of the runtime.
pub struct TemplatePallet<C, Block> {
    client: Arc<C>,
    _marker: PhantomData<Block>,
}

impl<C, Block> TemplatePallet<C, Block> {
    /// The client through which the runtime is asked.
    pub closed spec fn client_handle(&self) -> Arc<C> {
        self.client
    }

    /// Creates a new instance with the given reference to the client.
    pub fn new(client: Arc<C>) -> (r: Self)
        ensures
            r.client_handle() == client,
    {
        TemplatePallet { client, _marker: PhantomData }
    }

    /// The client through which the runtime is asked.
    pub fn client(&self) -> (r: &Arc<C>)
        ensures
            *r == self.client_handle(),
    {
        &self.client
    }
}

} // verus!
