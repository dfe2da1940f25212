//! Where the daemon finds its nap backend setting: a TOML file in the
//! user's configuration directory, or the built-in default.
pub mod conf;
pub mod default_conf_service;
pub mod toml_conf_service;

pub use conf::{Conf, NapBackendType};
pub use default_conf_service::DefaultConfService;
pub use toml_conf_service::TomlConfService;
use vstd::prelude::*;

verus! {

#[verifier::external_type_specification]
#[verifier::external_body]
pub struct ExIoError(std::io::Error);

/// A source of the daemon's settings.
pub trait ConfService {
    fn get_conf(&self) -> Result<&Conf, std::io::Error>;
}

} // verus!
