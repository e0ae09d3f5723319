//! A snapshot of the tool's local state: configuration values, registered
//! projects, device aliases and the provisioning profiles on disk.

use vstd::prelude::*;
use crate::config::{Config, ProjectConfig, clone_opt};
use crate::sign::ProvisioningProfileInspection;

verus! {

/// A provisioning profile directory and the number of profiles in it.
#[derive(Debug, Clone)]
pub struct ProfileDirInfo {
    pub path: String,
    pub file_count: usize,
}

/// The local state as shown by `state`.
#[derive(Debug)]
pub struct StateSnapshot {
    pub config_path: String,
    pub temp_bundle_prefix: Option<String>,
    pub team_id: Option<String>,
    pub default_device: Option<String>,
    pub default_project: Option<String>,
    pub device_aliases: Vec<(String, String)>,
    pub projects: Vec<(String, ProjectConfig)>,
    pub profile_dirs: Vec<ProfileDirInfo>,
    pub profile_inspections: Result<Vec<ProvisioningProfileInspection>, String>,
}

/// Takes a snapshot of the configuration, with what was found on disk: the
/// configuration file's path, the profile directories and the inspected
/// profiles (or why they could not be read). Aliases and projects are
/// listed in name order.
pub fn collect(
    config: &Config,
    config_path: String,
    profile_dirs: Vec<ProfileDirInfo>,
    profile_inspections: Result<Vec<ProvisioningProfileInspection>, String>,
) -> (r: StateSnapshot)
    ensures
        r.config_path == config_path,
        r.temp_bundle_prefix == config.signing.temp_bundle_prefix,
        r.team_id == config.signing.team_id,
        r.default_device == config.defaults.device,
        r.default_project == config.defaults.project,
        r.device_aliases@.len() == config.devices.aliases.key_seq().len(),
        forall|i: int| 0 <= i < r.device_aliases@.len() ==> #[trigger] r.device_aliases@[i].0@ == config.devices.aliases.key_seq()[i]
            && r.device_aliases@[i].1 == config.devices.aliases@[config.devices.aliases.key_seq()[i]],
        r.projects@.len() == config.projects.key_seq().len(),
        forall|i: int| 0 <= i < r.projects@.len() ==> #[trigger] r.projects@[i].0@ == config.projects.key_seq()[i]
            && r.projects@[i].1 == config.projects@[config.projects.key_seq()[i]],
        r.profile_dirs == profile_dirs,
        r.profile_inspections == profile_inspections,
{
    let mut device_aliases: Vec<(String, String)> = Vec::new();
    let mut i: usize = 0;
    while i < config.devices.aliases.len()
        invariant
            i <= config.devices.aliases.key_seq().len(),
            device_aliases@.len() == i,
            forall|j: int| 0 <= j < i ==> #[trigger] device_aliases@[j].0@ == config.devices.aliases.key_seq()[j]
                && device_aliases@[j].1 == config.devices.aliases@[config.devices.aliases.key_seq()[j]],
        decreases config.devices.aliases.key_seq().len() - i,
    {
        let k = config.devices.aliases.key_at(i).clone();
        let v = config.devices.aliases.value_at(i).clone();
        device_aliases.push((k, v));
        i = i + 1;
    }
    let mut projects: Vec<(String, ProjectConfig)> = Vec::new();
    let mut j: usize = 0;
    while j < config.projects.len()
        invariant
            j <= config.projects.key_seq().len(),
            projects@.len() == j,
            forall|m: int| 0 <= m < j ==> #[trigger] projects@[m].0@ == config.projects.key_seq()[m]
                && projects@[m].1 == config.projects@[config.projects.key_seq()[m]],
        decreases config.projects.key_seq().len() - j,
    {
        let k = config.projects.key_at(j).clone();
        let v = config.projects.value_at(j).duplicate();
        projects.push((k, v));
        j = j + 1;
    }
    StateSnapshot {
        config_path,
        temp_bundle_prefix: clone_opt(&config.signing.temp_bundle_prefix),
        team_id: clone_opt(&config.signing.team_id),
        default_device: clone_opt(&config.defaults.device),
        default_project: clone_opt(&config.defaults.project),
        device_aliases,
        projects,
        profile_dirs,
        profile_inspections,
    }
}

} // verus!
