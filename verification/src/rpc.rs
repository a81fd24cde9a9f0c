//! The handle through which a query service reaches its client, and the
//! error code it reports.

use std::marker::PhantomData;
use std::sync::Arc;
use vstd::prelude::*;

verus! {

/// Answers queries about pools from the state that `client` gives
/// access to.
pub struct SyntheticProtocol<C, B> {
    client: Arc<C>,
    _marker: PhantomData<B>,
}

impl<C, B> SyntheticProtocol<C, B> {
    /// The client that the handle was made with.
    pub closed spec fn spec_client(&self) -> Arc<C> {
        self.client
    }

    /// A handle on `client`.
    pub fn new(client: Arc<C>) -> (r: Self)
        ensures
            r.spec_client() == client,
    {
        SyntheticProtocol { client: client, _marker: PhantomData }
    }

    /// The client that the handle was made with.
    pub fn client(&self) -> (r: &Arc<C>)
        ensures
            *r == self.spec_client(),
    {
        &self.client
    }
}

/// Why a query failed.
#[derive(Clone, Copy, Debug, PartialEq, Eq, Structural)]
pub enum Error {
    /// The runtime could not answer.
    RuntimeError,
}

impl From<Error> for i64 {
    fn from(e: Error) -> (r: i64) {
        match e {
            Error::RuntimeError => 1,
        }
    }
}

impl vstd::std_specs::convert::FromSpecImpl<Error> for i64 {
    open spec fn obeys_from_spec() -> bool {
        true
    }

    open spec fn from_spec(e: Error) -> i64 {
        match e {
            Error::RuntimeError => 1,
        }
    }
}

} // verus!
