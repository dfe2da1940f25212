//! Settings read from `~/.config/app-nap/app-nap.toml`. The daemon reads
//! and parses the file; this keeps what was loaded and falls back to the
//! built-in settings while nothing is.
use super::conf::Conf;
use super::default_conf_service::DefaultConfService;
use super::ConfService;
use crate::text::chars_of;
use vstd::prelude::*;
use vstd::string::StringExecFns;

verus! {

/// Where the settings file is under the home directory `home`: the path
/// components `.config/app-nap/app-nap.toml` joined to it.
pub open spec fn config_path_for(home: Seq<char>) -> Seq<char> {
    if home.len() == 0 {
        ".config/app-nap/app-nap.toml"@
    } else if home.last() == '/' {
        home + ".config/app-nap/app-nap.toml"@
    } else {
        home + "/.config/app-nap/app-nap.toml"@
    }
}

/// The settings file's path under the home directory `home`.
pub fn config_path(home: &str) -> (r: String)
    ensures
        r@ == config_path_for(home@),
{
    let tail = ".config/app-nap/app-nap.toml";
    let sep_tail = "/.config/app-nap/app-nap.toml";
    let cs = chars_of(home);
    if cs.len() == 0 {
        String::from_str(tail)
    } else if cs[cs.len() - 1] == '/' {
        String::from_str(home).concat(tail)
    } else {
        String::from_str(home).concat(sep_tail)
    }
}

pub struct TomlConfService {
    config_path: String,
    fallback: DefaultConfService,
    loaded_conf: Option<Conf>,
}

impl TomlConfService {
    pub closed spec fn spec_path(&self) -> Seq<char> {
        self.config_path@
    }

    pub closed spec fn spec_loaded(&self) -> Option<Conf> {
        self.loaded_conf
    }

    pub closed spec fn spec_fallback(&self) -> Conf {
        self.fallback.spec_conf()
    }

    /// A service for the settings file under the home directory `home`,
    /// with nothing loaded yet.
    pub fn new(home: &str) -> (r: Self)
        ensures
            r.spec_path() == config_path_for(home@),
            r.spec_loaded() is None,
            r.spec_fallback() == DefaultConfService::new_spec(),
    {
        TomlConfService {
            config_path: config_path(home),
            fallback: DefaultConfService::new(),
            loaded_conf: None,
        }
    }

    /// The path of the settings file.
    pub fn config_path(&self) -> (r: &str)
        ensures
            r@ == self.spec_path(),
    {
        self.config_path.as_str()
    }

    /// Keeps what the settings file gave, or forgets it (`None`, when the
    /// file does not exist).
    pub fn set_loaded(&mut self, conf: Option<Conf>)
        ensures
            final(self).spec_loaded() == conf,
            final(self).spec_path() == old(self).spec_path(),
            final(self).spec_fallback() == old(self).spec_fallback(),
    {
        self.loaded_conf = conf;
    }
}

impl ConfService for TomlConfService {
    /// The loaded settings, or the built-in ones while none are.
    fn get_conf(&self) -> (r: Result<&Conf, std::io::Error>)
        ensures
            r matches Ok(c) && *c == match self.spec_loaded() {
                Some(l) => l,
                None => self.spec_fallback(),
            },
    {
        match &self.loaded_conf {
            Some(conf) => Ok(conf),
            None => self.fallback.get_conf(),
        }
    }
}

} // verus!
