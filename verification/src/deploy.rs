//! Deploying a project to a device: the steps of `install`, `launch` and
//! `run`, decided one at a time while the caller performs the builds,
//! directory reads and device commands they ask for.

use vstd::prelude::*;
use crate::actions::{
    destination_failure, generic_build_msg, next_address, retry_due, retry_name_msg, retry_udid_msg,
    CommandFallback, DeviceCommand, FallbackStep, after_device_build, device_details, resolve_device, resolve_prebuilt,
    project_named, records_deployment, record_project_tossed, resolve_project_name, unknown_project_msg,
};
use crate::config::{Config, ProjectKind};
use crate::device::{Device, device_resolution, device_selected};
use crate::error::TossError;
use crate::interaction::{Exchange, WorkflowAdapter, WorkflowEvent, last_answer, last_reply, shown, warns};
use crate::lines::string_views;
use crate::paths::{joined, path_join};
use crate::project::{
    build_output_prompt, chosen_item, find_app_in_dir, item_selection, multiple_build_outputs_msg, find_xcode_project, ipa_not_prebuilt_msg, listed_schemes, managed_ipa_path,
    missing_cached_ipa_msg, multiple_schemes_msg, no_schemes_found_msg, parse_schemes, resolve_project, select_build_output, select_scheme,
};
use crate::sign_session::SignResult;

verus! {

/// What `install` reports.
#[derive(Debug, Clone)]
pub struct InstallResult {
    pub project_name: String,
    pub device_id: String,
    pub device_udid: String,
    pub device_name: String,
    pub app_path: String,
}

/// What `launch` reports.
#[derive(Debug, Clone)]
pub struct LaunchResult {
    pub project_name: String,
    pub device_id: String,
    pub device_name: String,
    pub bundle_id: String,
}

/// What `run` reports.
#[derive(Debug, Clone)]
pub struct RunResult {
    pub project_name: String,
    pub device_id: String,
    pub device_udid: String,
    pub device_name: String,
    pub app_path: String,
    pub bundle_id: String,
}

/// The deployment commands.
#[derive(Debug, Clone, Copy, PartialEq, Eq, Structural)]
pub enum DeployCommand {
    /// Build (unless prebuilt) and install.
    Install,
    /// Launch the installed app.
    Launch,
    /// Build (unless prebuilt), install and launch.
    Run,
}

/// What a finished deployment reports.
#[derive(Debug)]
pub enum DeployOutcome {
    Installed(InstallResult),
    Launched(LaunchResult),
    Ran(RunResult),
}

/// What a deployment asks its caller to do next.
#[derive(Debug)]
pub enum DeployAction {
    /// List the devices (`devicectl list devices`).
    ListDevices,
    /// List the names of the entries of a directory.
    ReadDir { dir: String },
    /// Read the bundle identifier of an app bundle.
    ExtractBundleId { app_path: String },
    /// List the schemes of a workspace or project (`xcodebuild -list`).
    ListSchemes { project_path: String, is_workspace: bool },
    /// Build a scheme for the device with this UDID, or for any iOS device.
    Build { project_path: String, is_workspace: bool, scheme: String, device_udid: Option<String>, verbose: bool },
    /// Find the DerivedData build outputs of a source directory.
    FindBuilds { source_dir: String },
    /// Install an app on the device addressed by `device`.
    Install { device: String, app_path: String },
    /// Launch an app on the device addressed by `device`.
    Launch { device: String, bundle_id: String },
    /// Re-sign the managed IPA at `ipa_path` for the device addressed by
    /// `device` and install it (launching it too when `launch`).
    SignIpa { ipa_path: String, device: String, launch: bool },
    /// Save the configuration.
    SaveConfig,
    /// The deployment is over.
    Finished(DeployOutcome),
}

/// What the caller hands back after an action.
#[derive(Debug)]
pub enum DeployEvent {
    /// Start the deployment.
    Begin,
    /// The devices listed.
    Devices(Vec<Device>),
    /// The entry names of the directory read.
    DirEntries(Vec<String>),
    /// The bundle identifier read.
    BundleId(String),
    /// The output of `xcodebuild -list`.
    SchemeList(String),
    /// How the build ended.
    Built(Result<(), TossError>),
    /// The build outputs found.
    Builds(Vec<String>),
    /// How the install or launch ended.
    CommandDone(Result<(), TossError>),
    /// How re-signing and installing the managed IPA ended.
    IpaSigned(Result<SignResult, TossError>),
    /// The configuration was saved.
    Saved,
}

/// Where a deployment stands.
#[derive(Debug, Clone, Copy, PartialEq, Eq, Structural)]
pub enum DeployPhase {
    Start,
    Resolved,
    Devices,
    LocateApp,
    ReadBundleId,
    ReadSource,
    Schemes,
    DeviceBuild,
    GenericBuild,
    Builds,
    ReadOutput,
    Install,
    Launch,
    SignIpa,
    Save,
    Done,
}

/// The event each phase waits for.
pub open spec fn awaited(phase: DeployPhase, e: DeployEvent) -> bool {
    match phase {
        DeployPhase::Start | DeployPhase::Resolved => e is Begin,
        DeployPhase::Devices => e is Devices,
        DeployPhase::LocateApp | DeployPhase::ReadSource | DeployPhase::ReadOutput => e is DirEntries,
        DeployPhase::ReadBundleId => e is BundleId,
        DeployPhase::Schemes => e is SchemeList,
        DeployPhase::DeviceBuild | DeployPhase::GenericBuild => e is Built,
        DeployPhase::Builds => e is Builds,
        DeployPhase::Install | DeployPhase::Launch => e is CommandDone,
        DeployPhase::SignIpa => e is IpaSigned,
        DeployPhase::Save => e is Saved,
        DeployPhase::Done => false,
    }
}

/// After asking for `a`, the deployment is in `phase` (and so awaits the
/// event that answers the action).
pub open spec fn leads_to(a: DeployAction, phase: DeployPhase) -> bool {
    match a {
        DeployAction::ListDevices => phase == DeployPhase::Devices,
        DeployAction::ReadDir { .. } => phase == DeployPhase::LocateApp || phase == DeployPhase::ReadSource
            || phase == DeployPhase::ReadOutput,
        DeployAction::ExtractBundleId { .. } => phase == DeployPhase::ReadBundleId,
        DeployAction::ListSchemes { .. } => phase == DeployPhase::Schemes,
        DeployAction::Build { device_udid, .. } => if device_udid is Some {
            phase == DeployPhase::DeviceBuild
        } else {
            phase == DeployPhase::GenericBuild
        },
        DeployAction::FindBuilds { .. } => phase == DeployPhase::Builds,
        DeployAction::Install { .. } | DeployAction::Launch { .. } => phase == DeployPhase::Install || phase == DeployPhase::Launch,
        DeployAction::SignIpa { .. } => phase == DeployPhase::SignIpa,
        DeployAction::SaveConfig => phase == DeployPhase::Save,
        DeployAction::Finished(_) => phase == DeployPhase::Done,
    }
}

/// Message for a project deployed from source without a source path.
pub open spec fn no_source_path_msg(name: Seq<char>) -> Seq<char> {
    "project '"@ + name + "' has no source path — re-register with path or use --prebuilt"@
}

/// The text of an optional bundle identifier (empty when unknown).
pub open spec fn bundle_text(b: Option<Seq<char>>) -> Seq<char> {
    match b {
        Some(t) => t,
        None => Seq::empty(),
    }
}

/// `device` addresses the deployment's device: by its identifier, its UDID
/// or its name (the three tried in turn).
pub open spec fn addresses(device: Seq<char>, target: (Seq<char>, Seq<char>, Seq<char>, Seq<char>)) -> bool {
    device == target.1 || device == target.2 || device == target.3
}

/// The outcome reports the deployment of `target` (project, device
/// identifier, UDID and name) with the app at `app_path` and the bundle
/// identifier `bundle`.
pub open spec fn reports(
    o: DeployOutcome,
    target: (Seq<char>, Seq<char>, Seq<char>, Seq<char>),
    app_path: Seq<char>,
    bundle: Option<Seq<char>>,
) -> bool {
    match o {
        DeployOutcome::Installed(r) => r.project_name@ == target.0 && r.device_id@ == target.1
            && r.device_udid@ == target.2 && r.device_name@ == target.3 && r.app_path@ == app_path,
        DeployOutcome::Launched(r) => r.project_name@ == target.0 && r.device_id@ == target.1
            && r.device_name@ == target.3 && r.bundle_id@ == bundle_text(bundle),
        DeployOutcome::Ran(r) => r.project_name@ == target.0 && r.device_id@ == target.1
            && r.device_udid@ == target.2 && r.device_name@ == target.3 && r.app_path@ == app_path
            && r.bundle_id@ == bundle_text(bundle),
    }
}

/// What an action asks for matches the deployment: installs and launches
/// address its device and carry its app and bundle identifier, and a
/// finished deployment reports it.
pub open spec fn fits(
    a: DeployAction,
    target: (Seq<char>, Seq<char>, Seq<char>, Seq<char>),
    app_path: Seq<char>,
    bundle: Option<Seq<char>>,
) -> bool {
    match a {
        DeployAction::Install { device, app_path: p } => p@ == app_path && addresses(device@, target),
        DeployAction::Launch { device, bundle_id } => bundle_id@ == bundle_text(bundle) && addresses(device@, target),
        DeployAction::SignIpa { device, .. } => device@ == target.1,
        DeployAction::Finished(o) => reports(o, target, app_path, bundle),
        _ => true,
    }
}

/// `command` deploys the registered IPA project `name`: it is re-signed
/// from its cached copy on every install or run.
pub open spec fn ipa_deploy(config: Config, name: Seq<char>, command: DeployCommand) -> bool {
    &&& config.projects@.dom().contains(name)
    &&& config.projects@[name].kind == ProjectKind::Ipa
    &&& command != DeployCommand::Launch
}

/// The device command that the deployment `d` waits on in `phase`.
pub open spec fn phase_command(phase: DeployPhase) -> DeviceCommand {
    if phase == DeployPhase::Install {
        DeviceCommand::Install
    } else {
        DeviceCommand::Launch
    }
}

/// The warning shown before attempt `attempt` + 1 of `c`, addressing the
/// device `target` (identifier, UDID, name).
pub open spec fn retry_msg(c: DeviceCommand, attempt: int, target: (Seq<char>, Seq<char>, Seq<char>, Seq<char>)) -> Seq<char> {
    if attempt == 1 {
        retry_udid_msg(c, target.1)
    } else {
        retry_name_msg(c, target.2, target.3)
    }
}

/// What the step after an install or launch command that ended with
/// `outcome` does, from deployment `d` to `next`, configuration `before` to
/// `after` and log `log0` to `log1`, answering `r`:
/// - a failure to locate the device with another way of addressing it left
///   is retried, after a warning, with the same command addressing the
///   device by that way (a failure of the front end to take the warning
///   ends it);
/// - any other failure ends the deployment with it;
/// - a finished install of `run` is followed by the launch;
/// - a deployment started for a known project finishes at once;
/// - a finished launch reports;
/// - a finished install is recorded (the configuration then saved).
pub open spec fn command_step(d: Deployment, outcome: Result<(), TossError>, next: Deployment, before: Config, after: Config,
    log0: Seq<Exchange>, log1: Seq<Exchange>, r: Result<DeployAction, TossError>) -> bool {
    let t = d.target_spec();
    let a = d.attempt_spec();
    if retry_due(outcome, a, t.3) {
        &&& after == before
        &&& warns(log0, log1, retry_msg(phase_command(d.phase_spec()), a, t))
        &&& match last_reply(log1) {
            Err(e) => r == Err::<DeployAction, TossError>(e),
            Ok(()) => next.phase_spec() == d.phase_spec() && next.attempt_spec() == a + 1 && if d.phase_spec() == DeployPhase::Install {
                r matches Ok(DeployAction::Install { device, app_path }) && device@ == next_address(a, t.2, t.3)
                    && app_path@ == d.app_path_spec()
            } else {
                r matches Ok(DeployAction::Launch { device, bundle_id }) && device@ == next_address(a, t.2, t.3)
                    && bundle_id@ == bundle_text(d.bundle_id_spec())
            },
        }
    } else {
        match outcome {
            Err(e) => r == Err::<DeployAction, TossError>(e) && after == before && log1 == log0,
            Ok(()) => if d.phase_spec() == DeployPhase::Install && d.command_spec() == DeployCommand::Run {
                &&& after == before && log1 == log0
                &&& next.phase_spec() == DeployPhase::Launch && next.attempt_spec() == 1
                &&& r matches Ok(DeployAction::Launch { device, bundle_id }) && device@ == t.1
                    && bundle_id@ == bundle_text(d.bundle_id_spec())
            } else if d.partial_spec() {
                after == before && log1 == log0 && (r matches Ok(DeployAction::Finished(_)))
            } else if d.command_spec() == DeployCommand::Launch {
                &&& after == before
                &&& log1.len() == log0.len() + 1 && (r is Ok <==> last_reply(log1) is Ok)
                &&& r is Ok ==> (r matches Ok(DeployAction::Finished(DeployOutcome::Launched(_))))
            } else {
                &&& r is Ok ==> (r matches Ok(DeployAction::SaveConfig) && records_deployment(before, after, t.0))
                &&& r is Err ==> after == before
            },
        }
    }
}

/// Log `after` goes beyond log `before` and ends with the front end shown,
/// and taking, that `scheme` of `project` is being built for the device
/// `device_udid`.
pub open spec fn told_building(before: Seq<Exchange>, after: Seq<Exchange>, project: Seq<char>, scheme: String, device_udid: Seq<char>) -> bool {
    &&& after.len() > before.len()
    &&& after.last() matches Exchange::Shown { event: WorkflowEvent::Building { project: p, scheme: s, device_udid: u }, answer: Ok(()) }
        && p@ == project && s == scheme && u@ == device_udid
}

/// From log `before` to log `after`, the front end was shown, and took,
/// that the app at `app_path` is being installed on the device
/// `device_name`, and nothing else happened.
pub open spec fn told_installing(before: Seq<Exchange>, after: Seq<Exchange>, app_path: Seq<char>, device_name: Seq<char>) -> bool {
    &&& after.len() == before.len() + 1
    &&& after.drop_last() == before
    &&& after.last() matches Exchange::Shown { event: WorkflowEvent::Installing { app_path: a, device_name: d }, answer: Ok(()) }
        && a@ == app_path && d@ == device_name
}

/// From log `before` to log `after`, the front end was shown, and took,
/// that the app `bundle_id` is being launched on the device `device_name`,
/// and nothing else happened.
pub open spec fn told_launching(before: Seq<Exchange>, after: Seq<Exchange>, bundle_id: Seq<char>, device_name: Seq<char>) -> bool {
    &&& after.len() == before.len() + 1
    &&& after.drop_last() == before
    &&& after.last() matches Exchange::Shown { event: WorkflowEvent::Launching { bundle_id: b, device_name: d }, answer: Ok(()) }
        && b@ == bundle_id && d@ == device_name
}

/// What a deployment asks for once the project `name` and the device
/// `device_id` are known: an IPA project installed or run is re-signed from
/// its cached copy; a launch or a prebuilt deployment locates the app in
/// the build directory (an IPA project cannot be launched this way); a
/// deployment from source reads the source directory, which the project
/// must have.
pub open spec fn next_step(
    config: Config,
    name: Seq<char>,
    command: DeployCommand,
    prebuilt: Option<bool>,
    device_id: Seq<char>,
    r: Result<DeployAction, TossError>,
) -> bool {
    if !config.projects@.dom().contains(name) {
        r is Err
    } else {
        let p = config.projects@[name];
        if p.kind == ProjectKind::Ipa && command != DeployCommand::Launch {
            match p.ipa_path {
                Some(ip) => r matches Ok(DeployAction::SignIpa { ipa_path, device, launch }) && ipa_path@ == ip@
                    && device@ == device_id && launch == (command == DeployCommand::Run),
                None => r matches Err(TossError::Project(m)) && m@ == missing_cached_ipa_msg(name),
            }
        } else if command == DeployCommand::Launch || match prebuilt {
            Some(b) => b,
            None => p.path is None,
        } {
            if p.kind == ProjectKind::Ipa {
                r matches Err(TossError::Project(m)) && m@ == ipa_not_prebuilt_msg(name)
            } else {
                match p.app_name {
                    None => r matches Ok(DeployAction::ReadDir { dir }) && dir@ == p.build_dir@,
                    Some(n) => {
                        &&& r is Ok
                        &&& p.bundle_id is None ==> (r matches Ok(DeployAction::ExtractBundleId { app_path })
                            && app_path@ == joined(p.build_dir@, n@))
                        &&& p.bundle_id is Some ==> (r matches Ok(a) && if command == DeployCommand::Launch {
                            a is Launch
                        } else {
                            a is Install
                        })
                    },
                }
            }
        } else {
            match p.path {
                Some(src) => r matches Ok(DeployAction::ReadDir { dir }) && dir@ == src@,
                None => r matches Err(TossError::Project(m)) && m@ == no_source_path_msg(name),
            }
        }
    }
}

/// One deployment of a project to a device.
pub struct Deployment {
    command: DeployCommand,
    project: Option<String>,
    device: Option<String>,
    prebuilt_flag: Option<bool>,
    verbose: bool,
    phase: DeployPhase,
    project_name: String,
    device_id: String,
    device_udid: String,
    device_name: String,
    source_dir: String,
    project_path: String,
    is_workspace: bool,
    scheme: String,
    build_dir: String,
    app_path: String,
    bundle_id: Option<String>,
    fallback: Option<CommandFallback>,
    partial: bool,
}

impl Deployment {
    /// The command being run.
    pub closed spec fn command_spec(&self) -> DeployCommand {
        self.command
    }

    /// Where the deployment stands.
    pub closed spec fn phase_spec(&self) -> DeployPhase {
        self.phase
    }

    /// The state is consistent: a retried install or launch has a fallback
    /// chain in a valid step.
    pub closed spec fn wf(&self) -> bool {
        &&& (self.phase == DeployPhase::Install || self.phase == DeployPhase::Launch) ==> (self.fallback matches Some(f)
            && 1 <= f.attempt <= 3 && f.device_id@ == self.device_id@ && f.device_udid@ == self.device_udid@
            && f.device_name@ == self.device_name@)
        &&& self.phase == DeployPhase::Install ==> (self.fallback matches Some(f) && f.command == DeviceCommand::Install)
            && self.command != DeployCommand::Launch
        &&& self.phase == DeployPhase::Launch ==> (self.fallback matches Some(f) && f.command == DeviceCommand::Launch)
        &&& self.phase == DeployPhase::SignIpa ==> self.command != DeployCommand::Launch
        &&& self.phase == DeployPhase::Save ==> self.command != DeployCommand::Launch && !self.partial
    }

    /// The number of the attempt being made of the current install or
    /// launch command (1 to 3).
    pub closed spec fn attempt_spec(&self) -> int {
        match self.fallback {
            Some(f) => f.attempt as int,
            None => 0,
        }
    }

    /// The project deployed and the device it goes to: project name, device
    /// identifier, UDID and name (as far as they are known yet).
    pub closed spec fn target_spec(&self) -> (Seq<char>, Seq<char>, Seq<char>, Seq<char>) {
        (self.project_name@, self.device_id@, self.device_udid@, self.device_name@)
    }

    /// The app bundle deployed, once known.
    pub closed spec fn app_path_spec(&self) -> Seq<char> {
        self.app_path@
    }

    /// The app's bundle identifier, once known.
    pub closed spec fn bundle_id_spec(&self) -> Option<Seq<char>> {
        match self.bundle_id {
            Some(b) => Some(b@),
            None => None,
        }
    }

    /// Whether the caller asked to skip (or to force) the build.
    pub closed spec fn prebuilt_spec(&self) -> Option<bool> {
        self.prebuilt_flag
    }

    /// The project and device named by the caller, if any.
    pub closed spec fn requested_spec(&self) -> (Option<Seq<char>>, Option<Seq<char>>) {
        (
            match self.project { Some(p) => Some(p@), None => None },
            match self.device { Some(d) => Some(d@), None => None },
        )
    }

    /// The deployment was started for a known project and device and
    /// neither reports nor records what it did.
    pub closed spec fn partial_spec(&self) -> bool {
        self.partial
    }

    spec fn keeps(&self, other: Deployment) -> bool {
        &&& self.command == other.command
        &&& self.partial == other.partial
        &&& self.project == other.project
        &&& self.device == other.device
        &&& self.project_name == other.project_name
        &&& self.device_id == other.device_id
        &&& self.device_udid == other.device_udid
        &&& self.device_name == other.device_name
    }

    /// A deployment of the project named `project` (else the default or
    /// only one) to the device named `device` (else the default or only
    /// one); `prebuilt` says whether to skip building (by default, when the
    /// project has no source path).
    pub fn new(command: DeployCommand, project: Option<&str>, device: Option<&str>, prebuilt: Option<bool>, verbose: bool) -> (d: Self)
        ensures
            d.wf(),
            d.command_spec() == command,
            d.phase_spec() == DeployPhase::Start,
            d.requested_spec() == (match project { Some(p) => Some(p@), None => None },
                match device { Some(x) => Some(x@), None => None }),
            !d.partial_spec(),
    {
        Deployment {
            command,
            project: match project { Some(p) => Some(p.to_string()), None => None },
            device: match device { Some(p) => Some(p.to_string()), None => None },
            prebuilt_flag: prebuilt,
            verbose,
            phase: DeployPhase::Start,
            project_name: String::new(),
            device_id: String::new(),
            device_udid: String::new(),
            device_name: String::new(),
            source_dir: String::new(),
            project_path: String::new(),
            is_workspace: false,
            scheme: String::new(),
            build_dir: String::new(),
            app_path: String::new(),
            bundle_id: None,
            fallback: None,
            partial: false,
        }
    }

    /// The part of a deployment that follows the choice of project and
    /// device: it builds (unless `prebuilt`) or locates the app, then runs
    /// the device commands, and finishes without reporting the install or
    /// launch and without recording the deployment.
    pub fn for_device(
        command: DeployCommand,
        project_name: &str,
        device_id: &str,
        device_udid: &str,
        device_name: &str,
        prebuilt: bool,
        verbose: bool,
    ) -> (d: Self)
        ensures
            d.wf(),
            d.command_spec() == command,
            d.phase_spec() == DeployPhase::Resolved,
            d.target_spec() == (project_name@, device_id@, device_udid@, device_name@),
            d.partial_spec(),
    {
        Deployment {
            command,
            project: Some(project_name.to_string()),
            device: Some(device_id.to_string()),
            prebuilt_flag: Some(prebuilt),
            verbose,
            phase: DeployPhase::Resolved,
            project_name: project_name.to_string(),
            device_id: device_id.to_string(),
            device_udid: device_udid.to_string(),
            device_name: device_name.to_string(),
            source_dir: String::new(),
            project_path: String::new(),
            is_workspace: false,
            scheme: String::new(),
            build_dir: String::new(),
            app_path: String::new(),
            bundle_id: None,
            fallback: None,
            partial: true,
        }
    }

    fn start_device_command(&mut self, command: DeviceCommand) -> (a: DeployAction)
        requires
            old(self).phase != DeployPhase::Done,
            command == DeviceCommand::Install ==> old(self).command != DeployCommand::Launch,
        ensures
            final(self).attempt_spec() == 1,
            final(self).command == old(self).command,
            final(self).wf(),
            final(self).phase != DeployPhase::Done,
            final(self).phase == (if command == DeviceCommand::Install { DeployPhase::Install } else { DeployPhase::Launch }),
            command == DeviceCommand::Install ==> (a matches DeployAction::Install { device, app_path }
                && device@ == old(self).device_id@ && app_path@ == old(self).app_path@),
            command == DeviceCommand::Launch ==> (a matches DeployAction::Launch { device, .. } && device@ == old(self).device_id@),
            leads_to(a, final(self).phase),
            final(self).keeps(*old(self)),
            final(self).app_path == old(self).app_path,
            final(self).bundle_id == old(self).bundle_id,
            fits(a, final(self).target_spec(), final(self).app_path_spec(), final(self).bundle_id_spec()),
            !(a is SignIpa),
    {
        let (fallback, target) = CommandFallback::new(command, self.device_id.as_str(), self.device_udid.as_str(),
            self.device_name.as_str());
        self.fallback = Some(fallback);
        match command {
            DeviceCommand::Install => {
                self.phase = DeployPhase::Install;
                DeployAction::Install { device: target, app_path: self.app_path.clone() }
            },
            DeviceCommand::Launch => {
                self.phase = DeployPhase::Launch;
                let bundle_id = match &self.bundle_id {
                    Some(b) => b.clone(),
                    None => String::new(),
                };
                DeployAction::Launch { device: target, bundle_id }
            },
        }
    }

    /// Once the app (and, where needed, its bundle identifier) is known:
    /// launch it for `launch`, install it otherwise.
    fn after_app_known(&mut self) -> (a: DeployAction)
        requires
            old(self).wf(),
            old(self).phase != DeployPhase::Done,
        ensures
            final(self).command == old(self).command,
            final(self).wf(),
            final(self).phase != DeployPhase::Done,
            leads_to(a, final(self).phase),
            final(self).keeps(*old(self)),
            final(self).app_path == old(self).app_path,
            final(self).bundle_id == old(self).bundle_id,
            fits(a, final(self).target_spec(), final(self).app_path_spec(), final(self).bundle_id_spec()),
            !(a is SignIpa),
            old(self).command == DeployCommand::Launch ==> a is Launch,
            old(self).command != DeployCommand::Launch ==> a is Install,
    {
        match self.command {
            DeployCommand::Launch => self.start_device_command(DeviceCommand::Launch),
            _ => self.start_device_command(DeviceCommand::Install),
        }
    }

    /// Asks for the bundle identifier when the configuration does not
    /// record it (and it is needed).
    fn after_app_path(&mut self) -> (a: DeployAction)
        requires
            old(self).wf(),
            old(self).phase != DeployPhase::Done,
        ensures
            final(self).command == old(self).command,
            final(self).wf(),
            final(self).phase != DeployPhase::Done,
            leads_to(a, final(self).phase),
            final(self).keeps(*old(self)),
            final(self).app_path == old(self).app_path,
            final(self).bundle_id == old(self).bundle_id,
            fits(a, final(self).target_spec(), final(self).app_path_spec(), final(self).bundle_id_spec()),
            !(a is SignIpa),
            old(self).bundle_id is None ==> (a matches DeployAction::ExtractBundleId { app_path } && app_path@ == old(self).app_path@),
            old(self).bundle_id is Some ==> if old(self).command == DeployCommand::Launch { a is Launch } else { a is Install },
    {
        if self.bundle_id.is_none() {
            self.phase = DeployPhase::ReadBundleId;
            return DeployAction::ExtractBundleId { app_path: self.app_path.clone() };
        }
        self.after_app_known()
    }

    /// Locates the app of a prebuilt project from the configuration.
    fn locate_prebuilt(&mut self, config: &Config) -> (r: Result<DeployAction, TossError>)
        requires
            old(self).wf(),
            old(self).phase != DeployPhase::Done,
        ensures
            final(self).command == old(self).command,
            final(self).wf(),
            final(self).phase != DeployPhase::Done,
            r matches Ok(a) ==> leads_to(a, final(self).phase),
            final(self).keeps(*old(self)),
            r matches Ok(a) ==> fits(a, final(self).target_spec(), final(self).app_path_spec(), final(self).bundle_id_spec()),
            r matches Ok(a) ==> !(a is SignIpa),
            !config.projects@.dom().contains(old(self).project_name@) ==> (r matches Err(TossError::Project(m))
                && m@ == unknown_project_msg(old(self).project_name@)),
            config.projects@.dom().contains(old(self).project_name@) ==> {
                let p = config.projects@[old(self).project_name@];
                &&& p.kind == ProjectKind::Ipa ==> (r matches Err(TossError::Project(m))
                    && m@ == ipa_not_prebuilt_msg(old(self).project_name@))
                &&& p.kind == ProjectKind::Xcode ==> {
                    &&& r is Ok
                    &&& final(self).bundle_id == p.bundle_id
                    &&& match p.app_name {
                        None => (r matches Ok(DeployAction::ReadDir { dir }) && dir@ == p.build_dir@),
                        Some(n) => {
                            &&& final(self).app_path@ == joined(p.build_dir@, n@)
                            &&& p.bundle_id is None ==> (r matches Ok(DeployAction::ExtractBundleId { app_path })
                                && app_path@ == final(self).app_path@)
                            &&& p.bundle_id is Some ==> (r matches Ok(a) && if old(self).command == DeployCommand::Launch {
                                a is Launch
                            } else {
                                a is Install
                            })
                        },
                    }
                }
            },
    {
        let loc = match resolve_project(config, self.project_name.as_str()) {
            Ok(l) => l,
            Err(e) => return Err(e),
        };
        let app_path = loc.app_path();
        self.build_dir = loc.build_dir;
        self.bundle_id = loc.bundle_id;
        match app_path {
            Some(path) => {
                self.app_path = path;
                Ok(self.after_app_path())
            },
            None => {
                self.phase = DeployPhase::LocateApp;
                Ok(DeployAction::ReadDir { dir: self.build_dir.clone() })
            },
        }
    }

    /// Once project and device are known: locate the app of a prebuilt
    /// project (and of any launch), else read the project's source
    /// directory to build it.
    fn after_device(&mut self, config: &Config) -> (r: Result<DeployAction, TossError>)
        requires
            old(self).wf(),
            old(self).phase != DeployPhase::Done,
        ensures
            final(self).command == old(self).command,
            final(self).wf(),
            final(self).phase != DeployPhase::Done,
            r matches Ok(a) ==> leads_to(a, final(self).phase),
            final(self).keeps(*old(self)),
            r matches Ok(a) ==> fits(a, final(self).target_spec(), final(self).app_path_spec(), final(self).bundle_id_spec()),
            ipa_deploy(*config, old(self).project_name@, old(self).command) ==> match config.projects@[old(self).project_name@].ipa_path {
                Some(p) => r matches Ok(DeployAction::SignIpa { ipa_path, launch, .. }) && ipa_path@ == p@
                    && launch == (old(self).command == DeployCommand::Run),
                None => r is Err,
            },
            r matches Ok(DeployAction::SignIpa { .. }) ==> ipa_deploy(*config, old(self).project_name@, old(self).command),
            next_step(*config, old(self).project_name@, old(self).command, old(self).prebuilt_flag, old(self).device_id@, r),
    {
        let is_ipa = match config.projects.get(self.project_name.as_str()) {
            Some(p) => p.is_ipa(),
            None => false,
        };
        if is_ipa && self.command != DeployCommand::Launch {
            let ipa_path = match managed_ipa_path(config, self.project_name.as_str()) {
                Ok(p) => p,
                Err(e) => return Err(e),
            };
            self.phase = DeployPhase::SignIpa;
            return Ok(DeployAction::SignIpa {
                ipa_path,
                device: self.device_id.clone(),
                launch: self.command == DeployCommand::Run,
            });
        }
        let prebuilt = resolve_prebuilt(config, self.project_name.as_str(), self.prebuilt_flag);
        if self.command == DeployCommand::Launch || prebuilt {
            return self.locate_prebuilt(config);
        }
        let source = match config.projects.get(self.project_name.as_str()) {
            Some(p) => crate::config::clone_opt(&p.path),
            None => None,
        };
        match source {
            Some(s) => {
                self.source_dir = s;
                self.phase = DeployPhase::ReadSource;
                Ok(DeployAction::ReadDir { dir: self.source_dir.clone() })
            },
            None => {
                let mut m = "project '".to_string();
                m.append(self.project_name.as_str());
                m.append("' has no source path — re-register with path or use --prebuilt");
                Err(TossError::Project(m))
            },
        }
    }

    /// Ends a deployment started for a known device, reporting what was
    /// done without any further step.
    fn finish_quietly(&mut self) -> (a: DeployAction)
        ensures
            final(self).command == old(self).command,
            final(self).wf(),
            final(self).phase == DeployPhase::Done,
            a matches DeployAction::Finished(o) && match old(self).command {
                DeployCommand::Install => o is Installed,
                DeployCommand::Launch => o is Launched,
                DeployCommand::Run => o is Ran,
            },
            final(self).keeps(*old(self)),
            final(self).app_path == old(self).app_path,
            final(self).bundle_id == old(self).bundle_id,
            fits(a, final(self).target_spec(), final(self).app_path_spec(), final(self).bundle_id_spec()),
            !(a is SignIpa),
    {
        self.phase = DeployPhase::Done;
        self.fallback = None;
        let bundle_id = match &self.bundle_id {
            Some(b) => b.clone(),
            None => String::new(),
        };
        match self.command {
            DeployCommand::Install => DeployAction::Finished(DeployOutcome::Installed(InstallResult {
                project_name: self.project_name.clone(),
                device_id: self.device_id.clone(),
                device_udid: self.device_udid.clone(),
                device_name: self.device_name.clone(),
                app_path: self.app_path.clone(),
            })),
            DeployCommand::Launch => DeployAction::Finished(DeployOutcome::Launched(LaunchResult {
                project_name: self.project_name.clone(),
                device_id: self.device_id.clone(),
                device_name: self.device_name.clone(),
                bundle_id,
            })),
            DeployCommand::Run => DeployAction::Finished(DeployOutcome::Ran(RunResult {
                project_name: self.project_name.clone(),
                device_id: self.device_id.clone(),
                device_udid: self.device_udid.clone(),
                device_name: self.device_name.clone(),
                app_path: self.app_path.clone(),
                bundle_id,
            })),
        }
    }

    /// Picks the scheme from the listing `out` and asks for a build of it for
    /// the device.
    fn build_scheme<A: WorkflowAdapter>(&mut self, out: &str, adapter: &mut A) -> (r: Result<DeployAction, TossError>)
        requires
            old(self).wf(),
            old(self).phase == DeployPhase::Schemes,
        ensures
            final(self).wf(),
            final(self).command == old(self).command,
            final(self).keeps(*old(self)),
            final(self).app_path == old(self).app_path,
            final(self).bundle_id == old(self).bundle_id,
            r matches Ok(a) ==> leads_to(a, final(self).phase) && !(a is SignIpa),
            r matches Ok(a) ==> fits(a, final(self).target_spec(), final(self).app_path_spec(), final(self).bundle_id_spec()),
            r is Ok ==> (r matches Ok(DeployAction::Build { scheme, device_udid: Some(u), .. })
                && u@ == old(self).device_udid@
                && exists|i: int| 0 <= i < listed_schemes(out@).len() && #[trigger] listed_schemes(out@)[i] == scheme@),
            listed_schemes(out@).len() == 0 ==> (r matches Err(TossError::Project(m)) && m@ == no_schemes_found_msg()),
            listed_schemes(out@).len() == 1 && r is Ok ==> (r matches Ok(DeployAction::Build { scheme, .. })
                && scheme@ == listed_schemes(out@)[0]),
            r matches Ok(DeployAction::Build { project_path, is_workspace, verbose, .. }) ==> project_path == old(self).project_path
                && is_workspace == old(self).is_workspace && verbose == old(self).verbose,
            r matches Ok(DeployAction::Build { scheme: s, .. }) ==> told_building(old(adapter).log(), final(adapter).log(),
                old(self).project_name@, s, old(self).device_udid@),
    {
        let schemes = match parse_schemes(out) {
            Ok(s) => s,
            Err(e) => return Err(e),
        };
        let ghost listed = schemes@;
        let picked = select_scheme(schemes, adapter);
        proof {
            if picked is Ok {
                if listed.len() == 1 {
                    assert(string_views(listed)[0] == listed[0]@);
                } else if let Ok(Some(k)) = last_answer(adapter.log()) {
                    assert(string_views(listed)[k as int] == listed[k as int]@);
                }
            }
        }
        self.scheme = match picked {
            Ok(s) => s,
            Err(e) => return Err(e),
        };
        if let Err(e) = adapter.emit(WorkflowEvent::Building {
            project: self.project_name.clone(),
            scheme: self.scheme.clone(),
            device_udid: self.device_udid.clone(),
        }) {
            return Err(e);
        }
        self.phase = DeployPhase::DeviceBuild;
        Ok(DeployAction::Build {
            project_path: self.project_path.clone(),
            is_workspace: self.is_workspace,
            scheme: self.scheme.clone(),
            device_udid: Some(self.device_udid.clone()),
            verbose: self.verbose,
        })
    }

    /// Takes the next step, given what the caller's last action gave.
    pub fn advance<A: WorkflowAdapter>(&mut self, config: &mut Config, event: DeployEvent, adapter: &mut A) -> (r: Result<DeployAction, TossError>)
        requires
            old(self).wf(),
            awaited(old(self).phase_spec(), event),
        ensures
            final(self).wf(),
            final(self).command_spec() == old(self).command_spec(),
            final(config).projects@.dom() == old(config).projects@.dom(),
            final(config).defaults == old(config).defaults,
            final(config).devices == old(config).devices,
            final(config).signing == old(config).signing,
            old(self).command_spec() == DeployCommand::Launch ==> *final(config) == *old(config),
            r matches Ok(DeployAction::Finished(o)) ==> match old(self).command_spec() {
                DeployCommand::Install => o is Installed,
                DeployCommand::Launch => o is Launched,
                DeployCommand::Run => o is Ran,
            },
            r matches Ok(a) ==> leads_to(a, final(self).phase_spec()),
            final(self).requested_spec() == old(self).requested_spec(),
            final(self).partial_spec() == old(self).partial_spec(),
            old(self).phase_spec() != DeployPhase::Start ==> final(self).target_spec().0 == old(self).target_spec().0,
            old(self).phase_spec() != DeployPhase::Start && old(self).phase_spec() != DeployPhase::Devices
                ==> final(self).target_spec() == old(self).target_spec(),
            r matches Ok(a) ==> fits(a, final(self).target_spec(), final(self).app_path_spec(), final(self).bundle_id_spec()),
            *final(config) == *old(config) || (r matches Ok(DeployAction::SaveConfig)
                && records_deployment(*old(config), *final(config), final(self).target_spec().0)),
            r matches Ok(DeployAction::SaveConfig) ==> old(self).command_spec() != DeployCommand::Launch
                && !old(self).partial_spec(),
            old(self).phase_spec() == DeployPhase::Start ==> match old(self).requested_spec().0 {
                Some(p) => if old(config).projects@.dom().contains(p) {
                    r is Ok && final(self).target_spec().0 == p
                } else {
                    r matches Err(TossError::Project(m)) && m@ == unknown_project_msg(p)
                },
                None => match old(config).defaults.project {
                    Some(d) => old(config).projects@.dom().contains(d@) ==> r is Ok && final(self).target_spec().0 == d@,
                    None => true,
                },
            },
            old(self).phase_spec() == DeployPhase::Devices && r is Ok ==> (event matches DeployEvent::Devices(devs)
                && (final(self).target_spec().2, final(self).target_spec().3) == device_details(devs@, final(self).target_spec().1)
                && exists|i: int| 0 <= i < devs@.len() && #[trigger] devs@[i].identifier@ == final(self).target_spec().1),
            r matches Ok(DeployAction::SignIpa { ipa_path, launch, .. }) ==> (ipa_deploy(*old(config), final(self).target_spec().0,
                old(self).command_spec()) && launch == (old(self).command_spec() == DeployCommand::Run)
                && (old(config).projects@[final(self).target_spec().0].ipa_path matches Some(p) && p@ == ipa_path@)),
            (old(self).phase_spec() == DeployPhase::Devices || old(self).phase_spec() == DeployPhase::Resolved) && r is Ok
                && ipa_deploy(*old(config), final(self).target_spec().0, old(self).command_spec())
                ==> r matches Ok(DeployAction::SignIpa { .. }),
            old(self).phase_spec() == DeployPhase::Resolved ==> next_step(*old(config), old(self).target_spec().0,
                old(self).command_spec(), old(self).prebuilt_spec(), old(self).target_spec().1, r),
            old(self).phase_spec() == DeployPhase::Devices ==> (event matches DeployEvent::Devices(devs) && match old(self).requested_spec().1 {
                Some(f) => device_resolution(f, old(config).devices.aliases@, devs@) matches Ok(i) ==> next_step(*old(config),
                    old(self).target_spec().0, old(self).command_spec(), old(self).prebuilt_spec(), devs@[i].identifier@, r),
                None => old(config).defaults.device matches Some(d) ==> (device_resolution(d@, old(config).devices.aliases@, devs@)
                    matches Ok(i) ==> next_step(*old(config), old(self).target_spec().0, old(self).command_spec(),
                    old(self).prebuilt_spec(), devs@[i].identifier@, r)),
            }),
            old(self).phase_spec() == DeployPhase::DeviceBuild ==> match event {
                DeployEvent::Built(Ok(())) => r is Ok ==> r matches Ok(DeployAction::FindBuilds { .. }),
                DeployEvent::Built(Err(e)) => if destination_failure(e) {
                    r is Ok ==> r matches Ok(DeployAction::Build { device_udid: None, .. })
                } else {
                    r == Err::<DeployAction, TossError>(e)
                },
                _ => true,
            },
            old(self).phase_spec() == DeployPhase::GenericBuild ==> match event {
                DeployEvent::Built(Ok(())) => r is Ok ==> r matches Ok(DeployAction::FindBuilds { .. }),
                DeployEvent::Built(Err(e)) => r == Err::<DeployAction, TossError>(e),
                _ => true,
            },
            old(self).phase_spec() == DeployPhase::Schemes && r is Ok ==> (event matches DeployEvent::SchemeList(out)
                && r matches Ok(DeployAction::Build { scheme, device_udid: Some(u), .. })
                && u@ == final(self).target_spec().2
                && exists|i: int| 0 <= i < listed_schemes(out@).len() && #[trigger] listed_schemes(out@)[i] == scheme@),
            old(self).phase_spec() == DeployPhase::Devices ==> (event matches DeployEvent::Devices(devs)
                && (old(self).requested_spec().1 matches Some(f) ==> match device_resolution(f, old(config).devices.aliases@, devs@) {
                    Ok(i) => r is Ok ==> final(self).target_spec().1 == devs@[i].identifier@,
                    Err(m) => r matches Err(TossError::Device(e)) && e@ == m,
                })),
            old(self).phase_spec() == DeployPhase::Start ==> exists|s: Result<String, TossError>|
                #[trigger] project_named(*old(config), old(self).requested_spec().0, old(adapter).log(), final(adapter).log(), s),
            old(self).phase_spec() == DeployPhase::Install || old(self).phase_spec() == DeployPhase::Launch ==> match event {
                DeployEvent::CommandDone(outcome) => command_step(*old(self), outcome, *final(self), *old(config), *final(config),
                    old(adapter).log(), final(adapter).log(), r),
                _ => false,
            },
            old(self).phase_spec() == DeployPhase::SignIpa ==> match event {
                DeployEvent::IpaSigned(Err(e)) => r == Err::<DeployAction, TossError>(e) && *final(config) == *old(config),
                DeployEvent::IpaSigned(Ok(signed)) => {
                    &&& final(self).app_path_spec() == signed.app_path@
                    &&& final(self).bundle_id_spec() == Some(signed.final_bundle_id@)
                    &&& if old(self).partial_spec() {
                        *final(config) == *old(config) && (r matches Ok(DeployAction::Finished(_)))
                    } else {
                        r is Ok ==> (r matches Ok(DeployAction::SaveConfig)
                            && records_deployment(*old(config), *final(config), old(self).target_spec().0))
                    }
                },
                _ => false,
            },
            old(self).phase_spec() == DeployPhase::Save ==> *final(config) == *old(config) && match old(self).command_spec() {
                DeployCommand::Install => r matches Ok(DeployAction::Finished(DeployOutcome::Installed(_))),
                DeployCommand::Run => (r is Ok <==> last_reply(final(adapter).log()) is Ok)
                    && (r is Ok ==> (r matches Ok(DeployAction::Finished(DeployOutcome::Ran(_))))),
                DeployCommand::Launch => false,
            },
            old(self).phase_spec() == DeployPhase::Resolved || old(self).phase_spec() == DeployPhase::LocateApp
                || old(self).phase_spec() == DeployPhase::ReadSource || old(self).phase_spec() == DeployPhase::ReadOutput
                || old(self).phase_spec() == DeployPhase::ReadBundleId ==> final(adapter).log() == old(adapter).log(),
            old(self).phase_spec() == DeployPhase::DeviceBuild || old(self).phase_spec() == DeployPhase::GenericBuild ==> match event {
                DeployEvent::Built(Ok(())) => {
                    &&& final(adapter).log() == old(adapter).log().push(shown(WorkflowEvent::BuildSucceeded, last_reply(final(adapter).log())))
                    &&& (r is Ok <==> last_reply(final(adapter).log()) is Ok)
                },
                DeployEvent::Built(Err(e)) => if old(self).phase_spec() == DeployPhase::DeviceBuild && destination_failure(e) {
                    &&& warns(old(adapter).log(), final(adapter).log(), generic_build_msg(old(self).target_spec().2))
                    &&& (r is Ok <==> last_reply(final(adapter).log()) is Ok)
                } else {
                    final(adapter).log() == old(adapter).log()
                },
                _ => true,
            },
            old(self).phase_spec() == DeployPhase::Schemes ==> (r matches Ok(DeployAction::Build { scheme: s, .. }) ==> told_building(
                old(adapter).log(), final(adapter).log(), final(self).target_spec().0, s, final(self).target_spec().2)),
            old(self).phase_spec() == DeployPhase::Builds ==> (event matches DeployEvent::Builds(builds)
                && exists|s: Result<String, TossError>| #[trigger] item_selection(builds@, build_output_prompt(), None,
                    multiple_build_outputs_msg(), old(adapter).log(), final(adapter).log(), s)
                && (r is Ok ==> (r matches Ok(DeployAction::ReadDir { dir }) && item_selection(builds@, build_output_prompt(), None,
                    multiple_build_outputs_msg(), old(adapter).log(), final(adapter).log(), Ok(dir))))),
            old(self).phase_spec() == DeployPhase::Devices ==> (event matches DeployEvent::Devices(devs)
                && exists|s: Result<String, TossError>| #[trigger] device_selected(old(self).requested_spec().1, *old(config), devs@,
                    old(adapter).log(), final(adapter).log(), s)),
            r matches Ok(DeployAction::SaveConfig) ==> told_installing(old(adapter).log(), final(adapter).log(),
                final(self).app_path_spec(), final(self).target_spec().3),
            r matches Ok(DeployAction::Finished(DeployOutcome::Installed(_))) ==> final(adapter).log() == old(adapter).log(),
            !old(self).partial_spec() ==> (r matches Ok(DeployAction::Finished(DeployOutcome::Launched(l))) ==> told_launching(
                old(adapter).log(), final(adapter).log(), l.bundle_id@, l.device_name@)),
            !old(self).partial_spec() ==> (r matches Ok(DeployAction::Finished(DeployOutcome::Ran(x))) ==> told_launching(
                old(adapter).log(), final(adapter).log(), x.bundle_id@, x.device_name@)),
    {
        match event {
            DeployEvent::Begin => {
                if self.phase == DeployPhase::Resolved {
                    return self.after_device(config);
                }
                let project = match &self.project {
                    Some(p) => Some(p.as_str()),
                    None => None,
                };
                self.project_name = match resolve_project_name(config, project, adapter) {
                    Ok(n) => n,
                    Err(e) => return Err(e),
                };
                self.phase = DeployPhase::Devices;
                Ok(DeployAction::ListDevices)
            },
            DeployEvent::Devices(devices) => {
                let device = match &self.device {
                    Some(d) => Some(d.as_str()),
                    None => None,
                };
                let (id, udid, name) = match resolve_device(device, config, devices.as_slice(), adapter) {
                    Ok(t) => t,
                    Err(e) => return Err(e),
                };
                self.device_id = id;
                self.device_udid = udid;
                self.device_name = name;
                self.after_device(config)
            },
            DeployEvent::DirEntries(entries) => {
                match self.phase {
                    DeployPhase::LocateApp => {
                        let name = match find_app_in_dir(self.build_dir.as_str(), entries.as_slice()) {
                            Ok(n) => n,
                            Err(e) => return Err(e),
                        };
                        self.app_path = path_join(self.build_dir.as_str(), name.as_str());
                        Ok(self.after_app_path())
                    },
                    DeployPhase::ReadSource => {
                        let (path, ws) = match find_xcode_project(self.source_dir.as_str(), entries.as_slice()) {
                            Ok(p) => p,
                            Err(e) => return Err(e),
                        };
                        self.project_path = path;
                        self.is_workspace = ws;
                        self.phase = DeployPhase::Schemes;
                        Ok(DeployAction::ListSchemes { project_path: self.project_path.clone(), is_workspace: ws })
                    },
                    _ => {
                        let name = match find_app_in_dir(self.build_dir.as_str(), entries.as_slice()) {
                            Ok(n) => n,
                            Err(e) => return Err(e),
                        };
                        self.app_path = path_join(self.build_dir.as_str(), name.as_str());
                        self.bundle_id = None;
                        if self.command == DeployCommand::Run {
                            self.phase = DeployPhase::ReadBundleId;
                            return Ok(DeployAction::ExtractBundleId { app_path: self.app_path.clone() });
                        }
                        Ok(self.after_app_known())
                    },
                }
            },
            DeployEvent::BundleId(b) => {
                self.bundle_id = Some(b);
                Ok(self.after_app_known())
            },
            DeployEvent::SchemeList(out) => self.build_scheme(out.as_str(), adapter),
            DeployEvent::Built(outcome) => {
                if self.phase == DeployPhase::DeviceBuild {
                    let again = match after_device_build(outcome, self.device_udid.as_str(), adapter) {
                        Ok(a) => a,
                        Err(e) => return Err(e),
                    };
                    if again {
                        self.phase = DeployPhase::GenericBuild;
                        return Ok(DeployAction::Build {
                            project_path: self.project_path.clone(),
                            is_workspace: self.is_workspace,
                            scheme: self.scheme.clone(),
                            device_udid: None,
                            verbose: self.verbose,
                        });
                    }
                } else if let Err(e) = outcome {
                    return Err(e);
                }
                let ghost before = adapter.log();
                let w = adapter.emit(WorkflowEvent::BuildSucceeded);
                assert(adapter.log().drop_last() =~= before);
                if let Err(e) = w {
                    return Err(e);
                }
                self.phase = DeployPhase::Builds;
                Ok(DeployAction::FindBuilds { source_dir: self.source_dir.clone() })
            },
            DeployEvent::Builds(builds) => {
                self.build_dir = match select_build_output(builds.as_slice(), adapter) {
                    Ok(b) => b,
                    Err(e) => return Err(e),
                };
                self.phase = DeployPhase::ReadOutput;
                Ok(DeployAction::ReadDir { dir: self.build_dir.clone() })
            },
            DeployEvent::CommandDone(outcome) => {
                let mut fallback = self.fallback.take().unwrap();
                let step = fallback.after_attempt(outcome, adapter);
                let retry_target = match step {
                    FallbackStep::Retry { target } => Some(target),
                    FallbackStep::Finished(Ok(())) => None,
                    FallbackStep::Finished(Err(e)) => {
                        self.fallback = Some(fallback);
                        return Err(e);
                    },
                };
                let is_install = fallback.command == DeviceCommand::Install;
                self.fallback = Some(fallback);
                if let Some(target) = retry_target {
                    if is_install {
                        return Ok(DeployAction::Install { device: target, app_path: self.app_path.clone() });
                    }
                    let bundle_id = match &self.bundle_id {
                        Some(b) => b.clone(),
                        None => String::new(),
                    };
                    return Ok(DeployAction::Launch { device: target, bundle_id });
                }
                if is_install && self.command == DeployCommand::Run {
                    return Ok(self.start_device_command(DeviceCommand::Launch));
                }
                if self.partial {
                    return Ok(self.finish_quietly());
                }
                self.finish_deploy(config, adapter)
            },
            DeployEvent::IpaSigned(outcome) => {
                let signed = match outcome {
                    Ok(s) => s,
                    Err(e) => return Err(e),
                };
                self.app_path = signed.app_path;
                self.bundle_id = Some(signed.final_bundle_id);
                if self.partial {
                    return Ok(self.finish_quietly());
                }
                self.finish_deploy(config, adapter)
            },
            DeployEvent::Saved => {
                self.phase = DeployPhase::Done;
                self.fallback = None;
                if self.command == DeployCommand::Run {
                    let bundle_id = match &self.bundle_id {
                        Some(b) => b.clone(),
                        None => String::new(),
                    };
                    let ghost before = adapter.log();
                    if let Err(e) = adapter.emit(WorkflowEvent::Launching {
                        bundle_id: bundle_id.clone(),
                        device_name: self.device_name.clone(),
                    }) {
                        return Err(e);
                    }
                    assert(adapter.log().drop_last() =~= before);
                    return Ok(DeployAction::Finished(DeployOutcome::Ran(RunResult {
                        project_name: self.project_name.clone(),
                        device_id: self.device_id.clone(),
                        device_udid: self.device_udid.clone(),
                        device_name: self.device_name.clone(),
                        app_path: self.app_path.clone(),
                        bundle_id,
                    })));
                }
                Ok(DeployAction::Finished(DeployOutcome::Installed(InstallResult {
                    project_name: self.project_name.clone(),
                    device_id: self.device_id.clone(),
                    device_udid: self.device_udid.clone(),
                    device_name: self.device_name.clone(),
                    app_path: self.app_path.clone(),
                })))
            },
        }
    }

    /// After the last device command: a launch reports at once; an install
    /// (alone or in a run) is recorded as the project's last deployment and
    /// the configuration saved.
    fn finish_deploy<A: WorkflowAdapter>(&mut self, config: &mut Config, adapter: &mut A) -> (r: Result<DeployAction, TossError>)
        requires
            old(self).wf(),
            !old(self).partial,
        ensures
            final(self).wf(),
            final(self).command == old(self).command,
            final(self).keeps(*old(self)),
            final(self).app_path == old(self).app_path,
            final(self).bundle_id == old(self).bundle_id,
            r matches Ok(a) ==> fits(a, final(self).target_spec(), final(self).app_path_spec(), final(self).bundle_id_spec()),
            *final(config) == *old(config) || (r matches Ok(DeployAction::SaveConfig)
                && records_deployment(*old(config), *final(config), old(self).project_name@)),
            final(config).projects@.dom() == old(config).projects@.dom(),
            final(config).defaults == old(config).defaults,
            final(config).devices == old(config).devices,
            final(config).signing == old(config).signing,
            old(self).command == DeployCommand::Launch ==> *final(config) == *old(config),
            r matches Ok(DeployAction::Finished(o)) ==> match old(self).command {
                DeployCommand::Install => o is Installed,
                DeployCommand::Launch => o is Launched,
                DeployCommand::Run => o is Ran,
            },
            r matches Ok(a) ==> leads_to(a, final(self).phase),
            r matches Ok(a) ==> !(a is SignIpa),
            r is Ok ==> if old(self).command == DeployCommand::Launch {
                (r matches Ok(DeployAction::Finished(o)) && o is Launched) && *final(config) == *old(config)
            } else {
                r matches Ok(DeployAction::SaveConfig) && records_deployment(*old(config), *final(config), old(self).project_name@)
            },
            old(self).command != DeployCommand::Launch && !old(config).projects@.dom().contains(old(self).project_name@)
                ==> r is Err && *final(config) == *old(config),
            r matches Ok(DeployAction::SaveConfig) ==> told_installing(old(adapter).log(), final(adapter).log(),
                old(self).app_path@, old(self).device_name@),
            old(self).command == DeployCommand::Launch ==> final(adapter).log().len() == old(adapter).log().len() + 1
                && (r is Ok <==> last_reply(final(adapter).log()) is Ok),
            r matches Ok(DeployAction::Finished(DeployOutcome::Launched(l))) ==> told_launching(old(adapter).log(),
                final(adapter).log(), l.bundle_id@, l.device_name@),
    {
        if self.command == DeployCommand::Launch {
            let bundle_id = match &self.bundle_id {
                Some(b) => b.clone(),
                None => String::new(),
            };
            let ghost before = adapter.log();
            if let Err(e) = adapter.emit(WorkflowEvent::Launching {
                bundle_id: bundle_id.clone(),
                device_name: self.device_name.clone(),
            }) {
                return Err(e);
            }
            assert(adapter.log().drop_last() =~= before);
            self.phase = DeployPhase::Done;
            self.fallback = None;
            return Ok(DeployAction::Finished(DeployOutcome::Launched(LaunchResult {
                project_name: self.project_name.clone(),
                device_id: self.device_id.clone(),
                device_name: self.device_name.clone(),
                bundle_id,
            })));
        }
        let ghost before = adapter.log();
        if let Err(e) = adapter.emit(WorkflowEvent::Installing {
            app_path: self.app_path.clone(),
            device_name: self.device_name.clone(),
        }) {
            return Err(e);
        }
        assert(adapter.log().drop_last() =~= before);
        if let Err(e) = record_project_tossed(config, self.project_name.as_str()) {
            return Err(e);
        }
        self.phase = DeployPhase::Save;
        self.fallback = None;
        Ok(DeployAction::SaveConfig)
    }
}

} // verus!

verus! {

/// Starts `install`: build (unless prebuilt) and install the project's app.
pub fn install(project: Option<&str>, device: Option<&str>, prebuilt: Option<bool>, verbose: bool) -> (d: Deployment)
    ensures
        d.wf(),
        d.command_spec() == DeployCommand::Install,
        d.phase_spec() == DeployPhase::Start,
        d.requested_spec() == (match project { Some(p) => Some(p@), None => None },
            match device { Some(x) => Some(x@), None => None }),
        !d.partial_spec(),
{
    Deployment::new(DeployCommand::Install, project, device, prebuilt, verbose)
}

/// Starts `launch`: launch the project's installed app.
pub fn launch(project: Option<&str>, device: Option<&str>) -> (d: Deployment)
    ensures
        d.wf(),
        d.command_spec() == DeployCommand::Launch,
        d.phase_spec() == DeployPhase::Start,
        d.requested_spec() == (match project { Some(p) => Some(p@), None => None },
            match device { Some(x) => Some(x@), None => None }),
        !d.partial_spec(),
{
    Deployment::new(DeployCommand::Launch, project, device, None, false)
}

/// Starts `run`: build (unless prebuilt), install and launch.
pub fn run(project: Option<&str>, device: Option<&str>, prebuilt: Option<bool>, verbose: bool) -> (d: Deployment)
    ensures
        d.wf(),
        d.command_spec() == DeployCommand::Run,
        d.phase_spec() == DeployPhase::Start,
        d.requested_spec() == (match project { Some(p) => Some(p@), None => None },
            match device { Some(x) => Some(x@), None => None }),
        !d.partial_spec(),
{
    Deployment::new(DeployCommand::Run, project, device, prebuilt, verbose)
}

/// Starts the install steps for a chosen project and device: build
/// (unless `prebuilt`) or locate the app, then install it.
pub fn install_app_workflow(project_name: &str, device_id: &str, device_udid: &str, device_name: &str, prebuilt: bool, verbose: bool) -> (d: Deployment)
    ensures
        d.wf(),
        d.command_spec() == DeployCommand::Install,
        d.phase_spec() == DeployPhase::Resolved,
        d.target_spec() == (project_name@, device_id@, device_udid@, device_name@),
        d.partial_spec(),
{
    Deployment::for_device(DeployCommand::Install, project_name, device_id, device_udid, device_name, prebuilt, verbose)
}

/// Starts the launch steps for a chosen project and device: locate the
/// app's bundle identifier, then launch it.
pub fn launch_app_workflow(project_name: &str, device_id: &str, device_udid: &str, device_name: &str) -> (d: Deployment)
    ensures
        d.wf(),
        d.command_spec() == DeployCommand::Launch,
        d.phase_spec() == DeployPhase::Resolved,
        d.target_spec() == (project_name@, device_id@, device_udid@, device_name@),
        d.partial_spec(),
{
    Deployment::for_device(DeployCommand::Launch, project_name, device_id, device_udid, device_name, true, false)
}

/// Starts the run steps for a chosen project and device: build (unless
/// `prebuilt`) or locate the app, install it, then launch it.
pub fn run_app_workflow(project_name: &str, device_id: &str, device_udid: &str, device_name: &str, prebuilt: bool, verbose: bool) -> (d: Deployment)
    ensures
        d.wf(),
        d.command_spec() == DeployCommand::Run,
        d.phase_spec() == DeployPhase::Resolved,
        d.target_spec() == (project_name@, device_id@, device_udid@, device_name@),
        d.partial_spec(),
{
    Deployment::for_device(DeployCommand::Run, project_name, device_id, device_udid, device_name, prebuilt, verbose)
}

} // verus!
