use super::ecore::ECoreAction;
use super::systemd::cpu_quota_from_percent;
use super::Action;
use crate::config::model::Action as ActionConfig;
use vstd::prelude::*;

verus! {

/// The configured actions that become backends: all of them, except the
/// E-core ones when the E-core backend is not available.
pub open spec fn kept_configs(config: Seq<ActionConfig>, has_ecore: bool) -> Seq<ActionConfig>
    decreases config.len(),
{
    if config.len() == 0 {
        Seq::empty()
    } else {
        let rest = kept_configs(config.drop_last(), has_ecore);
        if config.last() == ActionConfig::Ecore && !has_ecore {
            rest
        } else {
            rest.push(config.last())
        }
    }
}

/// The backend `a` is the one that the configured action `c` names.
pub open spec fn backend_of(a: Action, c: ActionConfig, ecore: Option<ECoreAction>) -> bool {
    match (c, a) {
        (ActionConfig::Signal, Action::Signal) => true,
        (ActionConfig::SystemdFreeze, Action::SystemdFreeze) => true,
        (ActionConfig::Ecore, Action::Ecore(e)) => ecore matches Some(src) && e.wf()
            && e.ecores().cpus() == src.ecores().cpus() && e.allcores().cpus()
            == src.allcores().cpus(),
        (ActionConfig::SystemdCpuQuota { percent }, Action::SystemdCpuQuota { quota }) => quota
            == percent * 10_000,
        (ActionConfig::SystemdCpuWeight { weight: w }, Action::SystemdCpuWeight { weight }) => weight
            == w,
        _ => false,
    }
}

/// The backends of a configured action list, in order. `ecore` is the E-core
/// backend as the daemon could build it; E-core actions are skipped when it
/// is `None`.
pub fn from_config(config: &[ActionConfig], ecore: Option<&ECoreAction>) -> (r: Vec<Action>)
    requires
        ecore matches Some(e) ==> e.wf(),
    ensures
        r@.len() == kept_configs(config@, ecore is Some).len(),
        forall|i: int|
            0 <= i < r@.len() ==> backend_of(
                #[trigger] r@[i],
                kept_configs(config@, ecore is Some)[i],
                match ecore {
                    Some(e) => Some(*e),
                    None => None,
                },
            ),
        forall|i: int| 0 <= i < r@.len() ==> (#[trigger] r@[i]).wf(),
{
    let ghost owned = match ecore {
        Some(e) => Some(*e),
        None => None::<ECoreAction>,
    };
    let mut r: Vec<Action> = Vec::new();
    let mut i: usize = 0;
    while i < config.len()
        invariant
            i <= config@.len(),
            ecore matches Some(e) ==> e.wf(),
            owned == match ecore {
                Some(e) => Some(*e),
                None => None,
            },
            r@.len() == kept_configs(config@.take(i as int), ecore is Some).len(),
            forall|j: int|
                0 <= j < r@.len() ==> backend_of(
                    #[trigger] r@[j],
                    kept_configs(config@.take(i as int), ecore is Some)[j],
                    owned,
                ),
            forall|j: int| 0 <= j < r@.len() ==> (#[trigger] r@[j]).wf(),
        decreases config@.len() - i,
    {
        let ghost before = kept_configs(config@.take(i as int), ecore is Some);
        assert(config@.take(i + 1).drop_last() =~= config@.take(i as int));
        assert(config@.take(i + 1).last() == config@[i as int]);
        match config[i] {
            ActionConfig::Signal => r.push(Action::Signal),
            ActionConfig::Ecore => match ecore {
                Some(e) => r.push(Action::Ecore(Box::new(e.duplicate()))),
                None => {},
            },
            ActionConfig::SystemdFreeze => r.push(Action::SystemdFreeze),
            ActionConfig::SystemdCpuQuota { percent } => r.push(
                Action::SystemdCpuQuota { quota: cpu_quota_from_percent(percent) },
            ),
            ActionConfig::SystemdCpuWeight { weight } => r.push(
                Action::SystemdCpuWeight { weight },
            ),
        }
        i = i + 1;
    }
    assert(config@.take(config@.len() as int) =~= config@);
    r
}

} // verus!
