//! The persisted configuration: defaults, device aliases, signing settings and
//! registered projects.

use vstd::prelude::*;
use crate::keyed_map::KeyedMap;

verus! {

/// How a project is deployed.
#[derive(Debug, Clone, Copy, PartialEq, Eq, Structural)]
pub enum ProjectKind {
    /// An Xcode source tree, a build directory, or an `.app` bundle.
    Xcode,
    /// An `.ipa` copied into the tool's cache and re-signed on every deploy.
    Ipa,
}

/// One registered project.
#[derive(Debug)]
pub struct ProjectConfig {
    pub kind: ProjectKind,
    pub path: Option<String>,
    pub build_dir: String,
    pub bundle_id: Option<String>,
    pub app_name: Option<String>,
    pub ipa_path: Option<String>,
    pub original_name: Option<String>,
    pub last_tossed_at: Option<String>,
}

/// Default device and project.
#[derive(Debug)]
pub struct DefaultsConfig {
    pub device: Option<String>,
    pub project: Option<String>,
}

/// Device aliases: alias name to hardware UDID.
#[derive(Debug)]
pub struct DevicesConfig {
    pub aliases: KeyedMap<String>,
}

/// Settings for temporary signing.
#[derive(Debug)]
pub struct SigningConfig {
    pub temp_bundle_prefix: Option<String>,
    pub team_id: Option<String>,
}

/// The whole configuration file.
#[derive(Debug)]
pub struct Config {
    pub defaults: DefaultsConfig,
    pub devices: DevicesConfig,
    pub signing: SigningConfig,
    pub projects: KeyedMap<ProjectConfig>,
}

/// A copy of an optional string.
pub fn clone_opt(o: &Option<String>) -> (r: Option<String>)
    ensures
        r == *o,
{
    match o {
        Some(s) => Some(s.clone()),
        None => None,
    }
}

impl ProjectConfig {
    /// Whether the project is a managed IPA.
    pub fn is_ipa(&self) -> (b: bool)
        ensures
            b == (self.kind == ProjectKind::Ipa),
    {
        match self.kind {
            ProjectKind::Ipa => true,
            ProjectKind::Xcode => false,
        }
    }

    /// An equal copy.
    pub fn duplicate(&self) -> (r: Self)
        ensures
            r == *self,
    {
        ProjectConfig {
            kind: self.kind,
            path: clone_opt(&self.path),
            build_dir: self.build_dir.clone(),
            bundle_id: clone_opt(&self.bundle_id),
            app_name: clone_opt(&self.app_name),
            ipa_path: clone_opt(&self.ipa_path),
            original_name: clone_opt(&self.original_name),
            last_tossed_at: clone_opt(&self.last_tossed_at),
        }
    }
}

impl Default for DefaultsConfig {
    fn default() -> (r: Self)
        ensures
            r.device is None,
            r.project is None,
    {
        DefaultsConfig { device: None, project: None }
    }
}

impl Default for DevicesConfig {
    fn default() -> (r: Self)
        ensures
            r.aliases@ == Map::<Seq<char>, String>::empty(),
    {
        DevicesConfig { aliases: KeyedMap::new() }
    }
}

impl Default for SigningConfig {
    fn default() -> (r: Self)
        ensures
            r.temp_bundle_prefix is None,
            r.team_id is None,
    {
        SigningConfig { temp_bundle_prefix: None, team_id: None }
    }
}

impl Default for Config {
    fn default() -> (r: Self)
        ensures
            r.defaults.device is None,
            r.defaults.project is None,
            r.devices.aliases@ == Map::<Seq<char>, String>::empty(),
            r.signing.temp_bundle_prefix is None,
            r.signing.team_id is None,
            r.projects@ == Map::<Seq<char>, ProjectConfig>::empty(),
    {
        Config {
            defaults: DefaultsConfig::default(),
            devices: DevicesConfig::default(),
            signing: SigningConfig::default(),
            projects: KeyedMap::new(),
        }
    }
}

} // verus!
