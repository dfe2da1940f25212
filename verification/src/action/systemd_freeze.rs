use std::sync::Arc;
use vstd::prelude::*;

verus! {

/// Napping by freezing the unit with systemd, through the client `C`.
/// Applying freezes each cgroup's unit; reverting thaws it.
pub struct SystemdFreezeAction<C> {
    client: Arc<C>,
}

impl<C> SystemdFreezeAction<C> {
    pub fn new(client: Arc<C>) -> (r: Self)
        ensures
            r.spec_client() == client,
    {
        Self { client }
    }

    pub closed spec fn spec_client(self) -> Arc<C> {
        self.client
    }

    pub fn client(&self) -> (r: &Arc<C>)
        ensures
            *r == self.spec_client(),
    {
        &self.client
    }
}

} // verus!
