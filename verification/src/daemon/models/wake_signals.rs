//! The signals that keep an app awake: power-management inhibitors and media
//! playback.
use crate::cgroup::{last_component, UnitName, UnitPath};
use super::window_group::distinct_paths;
use crate::text::{contains, distinct_texts, str_contains, str_eq};
use vstd::prelude::*;

verus! {

/// The texts of a list of unit paths.
pub open spec fn unit_texts(v: Seq<UnitPath>) -> Seq<Seq<char>> {
    v.map_values(|u: UnitPath| u@)
}

/// Some unit path holds some inhibiting app's name.
pub open spec fn inhibited_by(apps: Seq<Seq<char>>, units: Seq<Seq<char>>) -> bool {
    exists|i: int, j: int|
        0 <= i < units.len() && 0 <= j < apps.len() && contains(
            #[trigger] units[i],
            #[trigger] apps[j],
        )
}

/// Some unit is the unit of a media player: the two have the same unit
/// name.
pub open spec fn playing_in(players: Seq<Seq<char>>, units: Seq<Seq<char>>) -> bool {
    exists|i: int, j: int|
        0 <= i < units.len() && 0 <= j < players.len() && last_component(#[trigger] units[i])
            == last_component(#[trigger] players[j])
}

#[derive(Debug)]
pub struct WakeSignals {
    /// cgroup unit contains these app names
    pub powerdevil_apps: Vec<String>,
    /// the units of the media players that are playing
    pub mpris_units: Vec<UnitPath>,
}

impl Default for WakeSignals {
    fn default() -> (r: Self)
        ensures
            r.wf(),
            r.powerdevil_apps@.len() == 0,
            r.mpris_units@.len() == 0,
    {
        WakeSignals { powerdevil_apps: Vec::new(), mpris_units: Vec::new() }
    }
}

impl WakeSignals {
    /// No inhibiting app and no player unit is listed twice.
    pub open spec fn wf(&self) -> bool {
        distinct_texts(self.powerdevil_apps@) && distinct_paths(self.mpris_units@)
    }

    /// The names of the inhibiting apps.
    pub open spec fn app_texts(&self) -> Seq<Seq<char>> {
        self.powerdevil_apps@.map_values(|s: String| s@)
    }

    /// The unit paths of the playing media players.
    pub open spec fn player_texts(&self) -> Seq<Seq<char>> {
        unit_texts(self.mpris_units@)
    }

    pub fn is_inhibiting(&self, cgroups: &Vec<UnitPath>) -> (r: bool)
        ensures
            r == inhibited_by(self.app_texts(), unit_texts(cgroups@)),
    {
        let ghost apps = self.app_texts();
        let ghost units = unit_texts(cgroups@);
        let mut i: usize = 0;
        while i < cgroups.len()
            invariant
                i <= cgroups@.len(),
                apps == self.app_texts(),
                units == unit_texts(cgroups@),
                forall|a: int, b: int|
                    0 <= a < i && 0 <= b < apps.len() ==> !contains(units[a], apps[b]),
            decreases cgroups@.len() - i,
        {
            let mut j: usize = 0;
            while j < self.powerdevil_apps.len()
                invariant
                    i < cgroups@.len(),
                    j <= self.powerdevil_apps@.len(),
                    apps == self.app_texts(),
                    units == unit_texts(cgroups@),
                    forall|b: int| 0 <= b < j ==> !contains(units[i as int], apps[b]),
                decreases self.powerdevil_apps@.len() - j,
            {
                if str_contains(cgroups[i].as_str(), self.powerdevil_apps[j].as_str()) {
                    assert(contains(units[i as int], apps[j as int]));
                    return true;
                }
                j = j + 1;
            }
            i = i + 1;
        }
        false
    }

    pub fn is_playing_media(&self, cgroups: &Vec<UnitPath>) -> (r: bool)
        ensures
            r == playing_in(self.player_texts(), unit_texts(cgroups@)),
    {
        let ghost players = self.player_texts();
        let ghost units = unit_texts(cgroups@);
        let mut i: usize = 0;
        while i < cgroups.len()
            invariant
                i <= cgroups@.len(),
                players == self.player_texts(),
                units == unit_texts(cgroups@),
                forall|a: int, b: int|
                    0 <= a < i && 0 <= b < players.len() ==> last_component(units[a])
                        != last_component(players[b]),
            decreases cgroups@.len() - i,
        {
            let unit = UnitName::from(&cgroups[i]);
            let mut j: usize = 0;
            while j < self.mpris_units.len()
                invariant
                    i < cgroups@.len(),
                    j <= self.mpris_units@.len(),
                    players == self.player_texts(),
                    units == unit_texts(cgroups@),
                    unit@ == last_component(units[i as int]),
                    forall|b: int| 0 <= b < j ==> last_component(units[i as int]) != last_component(
                        players[b],
                    ),
                decreases self.mpris_units@.len() - j,
            {
                let player = UnitName::from(&self.mpris_units[j]);
                if str_eq(player.as_str(), unit.as_str()) {
                    assert(last_component(units[i as int]) == last_component(players[j as int]));
                    return true;
                }
                j = j + 1;
            }
            i = i + 1;
        }
        false
    }
}

} // verus!
