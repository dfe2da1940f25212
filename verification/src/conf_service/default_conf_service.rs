//! The settings the daemon uses when it finds no settings file.
use super::conf::{Conf, NapBackendType};
use super::ConfService;
use vstd::prelude::*;

verus! {

/// The built-in backend.
pub open spec fn default_backend() -> NapBackendType {
    NapBackendType::SystemdScope
}

pub struct DefaultConfService {
    conf: Conf,
}

impl DefaultConfService {
    pub closed spec fn spec_conf(&self) -> Conf {
        self.conf
    }

    /// The built-in settings.
    pub open spec fn new_spec() -> Conf {
        Conf { nap_backend_type: default_backend() }
    }

    pub fn new() -> (r: Self)
        ensures
            r.spec_conf() == Self::new_spec(),
    {
        DefaultConfService { conf: Conf { nap_backend_type: NapBackendType::SystemdScope } }
    }

    pub fn conf(&self) -> (r: &Conf)
        ensures
            *r == self.spec_conf(),
    {
        &self.conf
    }
}

impl ConfService for DefaultConfService {
    /// Always the built-in settings.
    fn get_conf(&self) -> (r: Result<&Conf, std::io::Error>)
        ensures
            r matches Ok(c) && *c == self.spec_conf(),
    {
        Ok(&self.conf)
    }
}

} // verus!
