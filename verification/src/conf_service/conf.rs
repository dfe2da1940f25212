//! The nap backend setting.
use vstd::prelude::*;
use vstd::string::StringExecFns;

verus! {

#[derive(Debug, Clone, Copy, PartialEq, Eq, Structural)]
pub enum NapBackendType {
    Signal,
    SystemdScope,
}

/// The name a backend has in the settings file.
pub open spec fn backend_name(t: NapBackendType) -> Seq<char> {
    match t {
        NapBackendType::Signal => "signal"@,
        NapBackendType::SystemdScope => "systemd-scope"@,
    }
}

/// No two backends have the same name, so a backend's name reads back as
/// that backend.
pub proof fn lemma_backend_names_distinct(a: NapBackendType, b: NapBackendType)
    ensures
        backend_name(a) == backend_name(b) ==> a == b,
{
    reveal_strlit("signal");
    reveal_strlit("systemd-scope");
    if a != b {
        assert(backend_name(a).len() != backend_name(b).len());
    }
}

/// The message for a name that no backend has.
pub open spec fn unknown_backend_message(value: Seq<char>) -> Seq<char> {
    "unknown nap backend type: "@ + value
}

impl NapBackendType {
    pub fn as_str(self) -> (r: &'static str)
        ensures
            r@ == backend_name(self),
    {
        match self {
            NapBackendType::Signal => "signal",
            NapBackendType::SystemdScope => "systemd-scope",
        }
    }

    /// The backend of a name, or the message saying that no backend has
    /// it.
    pub fn parse(value: &str) -> (r: Result<NapBackendType, String>)
        ensures
            match r {
                Ok(t) => backend_name(t) == value@,
                Err(m) => m@ == unknown_backend_message(value@) && forall|t: NapBackendType|
                    backend_name(t) != value@,
            },
    {
        let signal = "signal";
        let scope = "systemd-scope";
        proof {
            reveal_strlit("signal");
            reveal_strlit("systemd-scope");
        }
        if crate::text::str_eq(value, signal) {
            Ok(NapBackendType::Signal)
        } else if crate::text::str_eq(value, scope) {
            Ok(NapBackendType::SystemdScope)
        } else {
            proof {
                assert forall|t: NapBackendType| backend_name(t) != value@ by {
                    match t {
                        NapBackendType::Signal => {},
                        NapBackendType::SystemdScope => {},
                    }
                }
            }
            let head = "unknown nap backend type: ";
            Err(String::from_str(head).concat(value))
        }
    }
}

impl std::str::FromStr for NapBackendType {
    type Err = String;

    fn from_str(value: &str) -> (r: Result<NapBackendType, String>)
        ensures
            match r {
                Ok(t) => backend_name(t) == value@,
                Err(m) => m@ == unknown_backend_message(value@) && forall|t: NapBackendType|
                    backend_name(t) != value@,
            },
    {
        NapBackendType::parse(value)
    }
}

#[derive(Debug, Clone)]
pub struct Conf {
    pub nap_backend_type: NapBackendType,
}

} // verus!
