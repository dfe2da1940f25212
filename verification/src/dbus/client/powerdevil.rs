//! PowerDevil's power-management inhibitions.
use vstd::prelude::*;

verus! {

#[derive(Debug, Clone)]
pub struct ActiveInhibition {
    /// "idle", "sleep", "sleep:idle", ""
    pub policies: String,
    /// Desktop file id (e.g. "org.mozilla.firefox")
    pub app_name: String,
    /// Human-readable reason, apparently it's free-form
    pub reason: String,
    /// Always "block" in current powerdevil
    pub mode: String,
    /// Active = 0x1, Allowed = 0x2
    pub flags: u32,
}

impl ActiveInhibition {
    /// The active flag (bit 0) is set.
    pub fn is_active(&self) -> (r: bool)
        ensures
            r == (self.flags % 2 == 1),
    {
        let f = self.flags;
        assert((f & 1u32 != 0) == (f % 2 == 1)) by (bit_vector);
        f & 1u32 != 0
    }

    /// The allowed flag (bit 1) is set.
    pub fn is_allowed(&self) -> (r: bool)
        ensures
            r == ((self.flags / 2) % 2 == 1),
    {
        let f = self.flags;
        assert((f & 2u32 != 0) == ((f / 2) % 2 == 1)) by (bit_vector);
        f & 2u32 != 0
    }
}

/// ActiveInhibitions provides tuples and zbus doesn't autoconvert to struct
impl From<(String, String, String, String, u32)> for ActiveInhibition {
    fn from(t: (String, String, String, String, u32)) -> (r: Self) {
        let (policies, app_name, reason, mode, flags) = t;
        ActiveInhibition { policies, app_name, reason, mode, flags }
    }
}

impl vstd::std_specs::convert::FromSpecImpl<(String, String, String, String, u32)> for ActiveInhibition {
    open spec fn obeys_from_spec() -> bool {
        true
    }

    open spec fn from_spec(t: (String, String, String, String, u32)) -> ActiveInhibition {
        ActiveInhibition { policies: t.0, app_name: t.1, reason: t.2, mode: t.3, flags: t.4 }
    }
}

} // verus!
