//! The display connection: the native handle and what was negotiated on it,
//! shared by every resource created from it.

use std::sync::Arc;
use vstd::prelude::*;

use crate::capability::{Capabilities, CapabilitySet};
use crate::version::Version;

verus! {

/// A display connection as a mathematical value.
pub struct Connection {
    /// The native handle of the connection.
    pub raw: usize,
    /// What was negotiated on it.
    pub capabilities: Capabilities,
}

#[derive(Debug)]
struct DisplayInner {
    raw: usize,
    capabilities: CapabilitySet,
}

/// A display connection. Clones share one connection; each resource created
/// from it holds one.
#[derive(Debug)]
pub struct Display {
    inner: Arc<DisplayInner>,
}

/// `Arc::clone` of std: another pointer to the same allocation. The contract
/// claims that the value seen through the new pointer is the one seen through
/// the old.
#[verifier::external_body]
fn share(inner: &Arc<DisplayInner>) -> (shared: Arc<DisplayInner>)
    ensures
        shared == *inner,
{
    Arc::clone(inner)
}

impl View for Display {
    type V = Connection;

    closed spec fn view(&self) -> Connection {
        Connection { raw: self.inner.raw, capabilities: self.inner.capabilities@ }
    }
}

impl Clone for Display {
    /// Another reference to the same connection.
    fn clone(&self) -> (other: Display)
        ensures
            other@ == self@,
    {
        Display { inner: share(&self.inner) }
    }
}

impl Display {
    /// Records a connection that was made: its native handle, and the
    /// capabilities queried right after the native initialisation.
    pub fn new(raw: usize, capabilities: CapabilitySet) -> (display: Display)
        ensures
            display@ == (Connection { raw, capabilities: capabilities@ }),
    {
        Display { inner: Arc::new(DisplayInner { raw, capabilities }) }
    }

    /// The native handle of the connection.
    pub fn raw(&self) -> (raw: usize)
        ensures
            raw == self@.raw,
    {
        self.inner.raw
    }

    /// What was negotiated on the connection.
    pub fn capabilities(&self) -> (capabilities: &CapabilitySet)
        ensures
            capabilities@ == self@.capabilities,
    {
        &self.inner.capabilities
    }

    /// The negotiated version.
    pub fn version(&self) -> (version: Version)
        ensures
            version == self@.capabilities.version,
    {
        self.inner.capabilities.version()
    }
}

} // verus!
