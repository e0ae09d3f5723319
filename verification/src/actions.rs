//! Deployment workflows: which project and device a command acts on, when a
//! failed build or device command is retried, and what is recorded after a
//! deployment.

use vstd::prelude::*;
use crate::config::{Config, ProjectConfig};
use crate::device::{device_selected, 
    Device, choice_in_range, connected_outcome, device_resolution, resolved_as, select_device,
    selectable_positions, selected_as,
};
use crate::error::TossError;
use crate::interaction::{Exchange, WorkflowAdapter, WorkflowEvent, asks, last_answer, last_reply, pick, warns};
use crate::lines::string_views;
use crate::text::{has_substring, str_contains, str_eq};

verus! {

/// Message for a project name that is not registered.
pub open spec fn unknown_project_msg(name: Seq<char>) -> Seq<char> {
    "unknown project '"@ + name + "' — register it with `toss projects add`"@
}

/// Message when no project is registered.
pub open spec fn no_projects_msg() -> Seq<char> {
    "no projects registered — use `toss projects add` to register one"@
}

/// Message when several projects are registered and the user cannot be asked.
pub open spec fn multiple_projects_msg() -> Seq<char> {
    "multiple projects registered — specify one as a CLI argument"@
}

/// Which registered project is picked when none is named: the only one, or
/// the user's answer `choice` among all of them (in key order). `Ok` holds
/// the position in key order; `Err(Ok(m))` is a project error with message
/// `m`; `Err(Err(e))` is the front end's own failure.
pub open spec fn project_pick_outcome(n: nat, choice: Result<Option<usize>, TossError>) -> Result<int, Result<Seq<char>, TossError>> {
    if n == 0 {
        Err(Ok(no_projects_msg()))
    } else if n == 1 {
        Ok(0)
    } else {
        match choice {
            Ok(Some(k)) => Ok(k as int),
            Ok(None) => Err(Ok(multiple_projects_msg())),
            Err(e) => Err(Err(e)),
        }
    }
}

/// `r` is the result that the pick outcome `o` stands for, among `keys`.
pub open spec fn project_picked_as(r: Result<String, TossError>, o: Result<int, Result<Seq<char>, TossError>>, keys: Seq<Seq<char>>) -> bool {
    match o {
        Ok(i) => r matches Ok(s) && s@ == keys[i],
        Err(Ok(m)) => r matches Err(TossError::Project(e)) && e@ == m,
        Err(Err(e)) => r == Err::<String, TossError>(e),
    }
}

/// Picks a registered project given the user's answer to the choice among
/// all of them (used only when there are several).
pub fn pick_project(config: &Config, choice: Result<Option<usize>, TossError>) -> (r: Result<String, TossError>)
    requires
        choice_in_range(choice, config.projects.key_seq().len()),
    ensures
        project_picked_as(r, project_pick_outcome(config.projects.key_seq().len(), choice), config.projects.key_seq()),
{
    let names = config.projects.keys();
    if names.len() == 0 {
        return Err(TossError::Project("no projects registered — use `toss projects add` to register one".to_string()));
    }
    if names.len() == 1 {
        return Ok(names[0].clone());
    }
    match pick(choice, TossError::Project("multiple projects registered — specify one as a CLI argument".to_string())) {
        Ok(k) => Ok(names[k].clone()),
        Err(e) => Err(e),
    }
}

/// Message when the configured default project is not registered.
pub open spec fn stale_default_project_msg(d: Seq<char>) -> Seq<char> {
    "default project '"@ + d + "' not found in config, ignoring"@
}

/// Picking among the registered projects, from log `before` to log
/// `after`: with none or one nothing is asked; with several the user is
/// asked once to choose among their names, and that answer decides.
pub open spec fn project_chosen(config: Config, before: Seq<Exchange>, after: Seq<Exchange>, r: Result<String, TossError>) -> bool {
    let names = config.projects.key_seq();
    if names.len() <= 1 {
        after == before && project_picked_as(r, project_pick_outcome(names.len(), Ok(None)), names)
    } else {
        &&& asks(before, after, "Select project"@, names)
        &&& choice_in_range(last_answer(after), names.len())
        &&& project_picked_as(r, project_pick_outcome(names.len(), last_answer(after)), names)
    }
}

/// What naming the project a command acts on does, from log `before` to log
/// `after`, with result `r`: the project given (which must be registered),
/// else the default project, else one of the registered ones. A default that
/// is not registered is first reported as a warning; a failure of the front
/// end there ends it.
pub open spec fn project_named(config: Config, project: Option<Seq<char>>, before: Seq<Exchange>, after: Seq<Exchange>, r: Result<String, TossError>) -> bool {
    match project {
        Some(n) => after == before && if config.projects@.dom().contains(n) {
            r matches Ok(s) && s@ == n
        } else {
            r matches Err(TossError::Project(m)) && m@ == unknown_project_msg(n)
        },
        None => match config.defaults.project {
            Some(d) if config.projects@.dom().contains(d@) => after == before && (r matches Ok(s) && s@ == d@),
            Some(d) => {
                let mid = after.take(before.len() + 1int);
                &&& after.len() > before.len()
                &&& warns(before, mid, stale_default_project_msg(d@))
                &&& match last_reply(mid) {
                    Err(e) => after == mid && r == Err::<String, TossError>(e),
                    Ok(()) => project_chosen(config, mid, after, r),
                }
            },
            None => project_chosen(config, before, after, r),
        },
    }
}

/// Names the project a command acts on: the one given (which must be
/// registered), else the default project, else the only registered one, else
/// the user's choice among all. A default that is not registered is reported
/// as a warning and skipped; a failure of the front end there ends it.
pub fn resolve_project_name<A: WorkflowAdapter>(config: &Config, project: Option<&str>, adapter: &mut A) -> (r: Result<String, TossError>)
    ensures
        project_named(*config, match project { Some(n) => Some(n@), None => None }, old(adapter).log(), final(adapter).log(), r),
{
    let ghost before = adapter.log();
    if let Some(name) = project {
        if !config.projects.contains_key(name) {
            let mut m = "unknown project '".to_string();
            m.append(name);
            m.append("' — register it with `toss projects add`");
            return Err(TossError::Project(m));
        }
        return Ok(name.to_string());
    }
    if let Some(default_project) = &config.defaults.project {
        if config.projects.contains_key(default_project.as_str()) {
            return Ok(default_project.clone());
        }
        let mut m = "default project '".to_string();
        m.append(default_project.as_str());
        m.append("' not found in config, ignoring");
        let w = adapter.emit(WorkflowEvent::Warning { message: m });
        assert(adapter.log().drop_last() =~= before);
        assert(adapter.log().take(before.len() + 1int) =~= adapter.log());
        if let Err(e) = w {
            return Err(e);
        }
    }
    let ghost mid = adapter.log();
    let names = config.projects.keys();
    assert(string_views(names@) =~= config.projects.key_seq());
    if names.len() <= 1 {
        let r = pick_project(config, Ok(None));
        assert(choice_in_range(Ok(None), config.projects.key_seq().len()));
        return r;
    }
    let choice = adapter.select_index("Select project", names.as_slice(), 0);
    proof {
        reveal_strlit("Select project");
        if mid.len() == before.len() + 1 {
            assert(adapter.log().take(before.len() + 1int) =~= mid);
        }
    }
    assert(choice_in_range(choice, config.projects.key_seq().len()));
    pick_project(config, choice)
}


/// `j` is the first position of a device whose identifier is `id`.
pub open spec fn is_first_with_identifier(devs: Seq<Device>, id: Seq<char>, j: int) -> bool {
    0 <= j < devs.len() && devs[j].identifier@ == id && forall|k: int| 0 <= k < j ==> #[trigger] devs[k].identifier@ != id
}

/// The UDID and name reported for the device with identifier `id`: those of
/// the first listed device with that identifier, or `id` itself for both.
pub open spec fn device_details(devs: Seq<Device>, id: Seq<char>) -> (Seq<char>, Seq<char>) {
    if exists|j: int| is_first_with_identifier(devs, id, j) {
        let j = choose|j: int| is_first_with_identifier(devs, id, j);
        (devs[j].udid@, devs[j].name@)
    } else {
        (id, id)
    }
}

/// Picks the device for a command and returns its identifier, UDID and name.
pub fn resolve_device<A: WorkflowAdapter>(device: Option<&str>, config: &Config, devices: &[Device], adapter: &mut A) -> (r: Result<(String, String, String), TossError>)
    ensures
        r matches Ok(t) ==> (t.1@, t.2@) == device_details(devices@, t.0@),
        r matches Ok(t) ==> exists|i: int| 0 <= i < devices@.len() && #[trigger] devices@[i].identifier@ == t.0@,
        device_selected(match device { Some(f) => Some(f@), None => None }, *config, devices@, old(adapter).log(),
            final(adapter).log(), match r {
            Ok(t) => Ok::<String, TossError>(t.0),
            Err(e) => Err::<String, TossError>(e),
        }),
        device matches Some(f) ==> match device_resolution(f@, config.devices.aliases@, devices@) {
            Ok(i) => r matches Ok(t) && t.0@ == devices@[i].identifier@,
            Err(m) => r matches Err(TossError::Device(e)) && e@ == m,
        },
{
    let device_id = match select_device(device, config, devices, adapter) {
        Ok(id) => id,
        Err(e) => return Err(e),
    };
    let mut i: usize = 0;
    #[verifier::loop_isolation(false)]
    while i < devices.len()
        invariant
            i <= devices@.len(),
            forall|k: int| 0 <= k < i ==> #[trigger] devices@[k].identifier@ != device_id@,
        decreases devices@.len() - i,
    {
        if str_eq(devices[i].identifier.as_str(), device_id.as_str()) {
            proof {
                assert(is_first_with_identifier(devices@, device_id@, i as int));
                let c = choose|j: int| is_first_with_identifier(devices@, device_id@, j);
                if c < i {
                    assert(devices@[c].identifier@ != device_id@);
                } else if c > i {
                    assert(devices@[i as int].identifier@ != device_id@);
                }
            }
            let udid = devices[i].udid.clone();
            let name = devices[i].name.clone();
            return Ok((device_id, udid, name));
        }
        i = i + 1;
    }
    let u = device_id.clone();
    let n = device_id.clone();
    Ok((device_id, u, n))
}

/// Whether a deployment builds from source: as asked, else when the project
/// has no source path (or is not registered).
pub fn resolve_prebuilt(config: &Config, project_name: &str, prebuilt: Option<bool>) -> (b: bool)
    ensures
        b == match prebuilt {
            Some(p) => p,
            None => if config.projects@.dom().contains(project_name@) {
                config.projects@[project_name@].path is None
            } else {
                true
            },
        },
{
    match prebuilt {
        Some(p) => p,
        None => match config.projects.get(project_name) {
            Some(p) => p.path.is_none(),
            None => true,
        },
    }
}

/// Message when recording the deployment time of an unregistered project.
pub open spec fn unknown_tossed_project_msg(name: Seq<char>) -> Seq<char> {
    "unknown project '"@ + name + "' while updating last toss time"@
}

/// Records `timestamp` as the time the project was last deployed; nothing
/// else changes. Fails, changing nothing, when the project is not registered.
pub fn set_last_tossed(config: &mut Config, project_name: &str, timestamp: String) -> (r: Result<(), TossError>)
    ensures
        old(config).projects@.dom().contains(project_name@) ==> {
            let p = old(config).projects@[project_name@];
            &&& r is Ok
            &&& final(config).projects@ == old(config).projects@.insert(
                project_name@,
                ProjectConfig { last_tossed_at: Some(timestamp), ..p },
            )
            &&& final(config).defaults == old(config).defaults
            &&& final(config).devices == old(config).devices
            &&& final(config).signing == old(config).signing
        },
        !old(config).projects@.dom().contains(project_name@) ==> (r matches Err(TossError::Project(m))
            && m@ == unknown_tossed_project_msg(project_name@) && *final(config) == *old(config)),
{
    let updated = match config.projects.get(project_name) {
        Some(p) => {
            let mut q = p.duplicate();
            q.last_tossed_at = Some(timestamp);
            q
        },
        None => {
            let mut m = "unknown project '".to_string();
            m.append(project_name);
            m.append("' while updating last toss time");
            return Err(TossError::Project(m));
        },
    };
    config.projects.insert(project_name.to_string(), updated);
    Ok(())
}

/// A project entry with its last deployment time set to `t`.
pub open spec fn stamped(p: ProjectConfig, t: String) -> ProjectConfig {
    ProjectConfig { last_tossed_at: Some(t), ..p }
}

/// The configuration after recording a deployment of `name`: its entry with
/// a last deployment time (an RFC 3339 timestamp), everything else as before.
pub open spec fn records_deployment(before: Config, after: Config, name: Seq<char>) -> bool {
    &&& before.projects@.dom().contains(name)
    &&& exists|t: String| crate::time::rfc3339_instant(t@) is Some
        && after.projects@ == before.projects@.insert(name, #[trigger] stamped(before.projects@[name], t))
    &&& after.defaults == before.defaults
    &&& after.devices == before.devices
    &&& after.signing == before.signing
}

/// Records the current time as the time the project was last deployed.
pub fn record_project_tossed(config: &mut Config, project_name: &str) -> (r: Result<(), TossError>)
    ensures
        r is Ok ==> records_deployment(*old(config), *final(config), project_name@),
        r is Ok ==> (final(config).projects@[project_name@].last_tossed_at matches Some(t)
            && crate::time::rfc3339_instant(t@) is Some),
        r is Err ==> *final(config) == *old(config),
        !old(config).projects@.dom().contains(project_name@) ==> r is Err,
{
    let timestamp = match crate::time::now_rfc3339() {
        Ok(t) => t,
        Err(e) => return Err(e),
    };
    let ghost before = config.projects@;
    let ghost stamp = timestamp;
    let r = set_last_tossed(config, project_name, timestamp);
    proof {
        if r is Ok {
            assert(config.projects@ == before.insert(project_name@, stamped(before[project_name@], stamp)));
        }
    }
    r
}

/// Text of `xcodebuild` failures that mean the device could not serve as a
/// build destination.
pub open spec fn missing_destination_text(m: Seq<char>) -> bool {
    has_substring(m, "Unable to find a destination matching the provided destination specifier"@)
        || has_substring(m, "Supported platforms for the buildables in the current scheme is empty"@)
}

/// The error is an `xcodebuild` failure to use the device as destination.
pub open spec fn destination_failure(e: TossError) -> bool {
    match e {
        TossError::Xcrun(m) => missing_destination_text(m@),
        _ => false,
    }
}

/// The error is a `devicectl` failure to locate the device.
pub open spec fn locate_failure(e: TossError) -> bool {
    match e {
        TossError::Xcrun(m) => unknown_identifier_text(m@),
        _ => false,
    }
}

/// A failed device build is retried for a generic iOS destination when
/// `xcodebuild` could not use the device as destination.
pub fn should_retry_generic_ios_build(err: &TossError) -> (b: bool)
    ensures
        b == destination_failure(*err),
{
    match err {
        TossError::Xcrun(message) => str_contains(
            message.as_str(),
            "Unable to find a destination matching the provided destination specifier",
        ) || str_contains(message.as_str(), "Supported platforms for the buildables in the current scheme is empty"),
        _ => false,
    }
}

/// Text of `devicectl` failures that mean the device identifier was not found.
pub open spec fn unknown_identifier_text(m: Seq<char>) -> bool {
    has_substring(m, "CoreDeviceService was unable to locate a device matching the requested device identifier"@)
        || has_substring(m, "com.apple.dt.CoreDeviceError error 1011"@)
}

/// A failed install or launch is retried with another identifier when
/// `devicectl` could not locate the device by the one used.
pub fn should_retry_devicectl_identifier(err: &TossError) -> (b: bool)
    ensures
        b == locate_failure(*err),
{
    match err {
        TossError::Xcrun(message) => str_contains(
            message.as_str(),
            "CoreDeviceService was unable to locate a device matching the requested device identifier",
        ) || str_contains(message.as_str(), "com.apple.dt.CoreDeviceError error 1011"),
        _ => false,
    }
}


/// The message of a failed `xcrun` command: a heading, the trimmed error
/// output and, when there is any, the trimmed standard output.
pub open spec fn failure_text(head: Seq<char>, stderr: Seq<char>, stdout: Seq<char>) -> Seq<char> {
    head + ":\n"@ + crate::lines::trimmed(stderr)
        + if crate::lines::trimmed(stdout).len() == 0 { Seq::empty() } else { "\n"@ + crate::lines::trimmed(stdout) }
}

/// The error of a failed `xcrun` command (`install failed`, `launch
/// failed`, ...), from its outputs.
pub fn command_failure(head: &str, stderr: &str, stdout: &str) -> (e: TossError)
    ensures
        e matches TossError::Xcrun(m) && m@ == failure_text(head@, stderr@, stdout@),
{
    let mut m = crate::text::concat(head, ":\n");
    m.append(crate::lines::trim(stderr).as_str());
    let out = crate::lines::trim(stdout);
    if out.unicode_len() > 0 {
        m.append("\n");
        m.append(out.as_str());
    } else {
        assert(m@ =~= m@ + Seq::<char>::empty());
    }
    TossError::Xcrun(m)
}

/// Which device command a fallback chain retries.
#[derive(Debug, Clone, Copy, PartialEq, Eq, Structural)]
pub enum DeviceCommand {
    Install,
    Launch,
}

/// The verb of a device command, as it appears in warnings.
pub open spec fn command_verb(c: DeviceCommand) -> Seq<char> {
    match c {
        DeviceCommand::Install => "install"@,
        DeviceCommand::Launch => "launch"@,
    }
}

/// Warning before retrying with the hardware UDID.
pub open spec fn retry_udid_msg(c: DeviceCommand, id: Seq<char>) -> Seq<char> {
    "devicectl could not locate device identifier '"@ + id + "' — retrying "@ + command_verb(c)
        + " with hardware UDID"@
}

/// Warning before retrying with the device name.
pub open spec fn retry_name_msg(c: DeviceCommand, udid: Seq<char>, name: Seq<char>) -> Seq<char> {
    "devicectl could not locate hardware UDID '"@ + udid + "' — retrying "@ + command_verb(c)
        + " with device name '"@ + name + "'"@
}

/// An attempt of a device command numbered `attempt` that ended with
/// `outcome` is tried again: `devicectl` could not locate the device, and
/// another way of addressing it is left (the UDID after the first attempt;
/// the device name, when known, after the second).
pub open spec fn retry_due(outcome: Result<(), TossError>, attempt: int, device_name: Seq<char>) -> bool {
    outcome matches Err(e) && locate_failure(e) && (attempt == 1 || (attempt == 2 && device_name.len() > 0))
}

/// How the device is addressed in the attempt after attempt `attempt`: by
/// its UDID after the first, by its name after the second.
pub open spec fn next_address(attempt: int, udid: Seq<char>, name: Seq<char>) -> Seq<char> {
    if attempt == 1 {
        udid
    } else {
        name
    }
}

/// What to do after an attempt of a device command.
#[derive(Debug)]
pub enum FallbackStep {
    /// The command is over, with this result.
    Finished(Result<(), TossError>),
    /// Run the command again, addressing the device as `target`.
    Retry { target: String },
}

/// An install or launch that is retried with the hardware UDID and then the
/// device name when `devicectl` cannot locate the device by the identifier
/// used. `attempt` counts the attempts made so far (1 to 3).
pub struct CommandFallback {
    pub command: DeviceCommand,
    pub device_id: String,
    pub device_udid: String,
    pub device_name: String,
    pub attempt: u8,
}

impl CommandFallback {
    /// Starts a chain; the first attempt addresses the device by `device_id`.
    pub fn new(command: DeviceCommand, device_id: &str, device_udid: &str, device_name: &str) -> (r: (Self, String))
        ensures
            r.0.command == command,
            r.0.device_id@ == device_id@,
            r.0.device_udid@ == device_udid@,
            r.0.device_name@ == device_name@,
            r.0.attempt == 1,
            r.1@ == device_id@,
    {
        (CommandFallback {
            command,
            device_id: device_id.to_string(),
            device_udid: device_udid.to_string(),
            device_name: device_name.to_string(),
            attempt: 1,
        }, device_id.to_string())
    }

    /// Decides what follows an attempt that ended with `outcome`. After the
    /// first attempt a failure to locate the device is retried with the UDID;
    /// after the second, with the device name when it is known; the third
    /// attempt is final. A warning is shown before each retry.
    pub fn after_attempt<A: WorkflowAdapter>(&mut self, outcome: Result<(), TossError>, adapter: &mut A) -> (r: FallbackStep)
        requires
            1 <= old(self).attempt <= 3,
        ensures
            final(self).command == old(self).command,
            final(self).device_id == old(self).device_id,
            final(self).device_udid == old(self).device_udid,
            final(self).device_name == old(self).device_name,
            1 <= final(self).attempt <= 3,
            retry_due(outcome, old(self).attempt as int, old(self).device_name@) ==> {
                &&& warns(old(adapter).log(), final(adapter).log(), if old(self).attempt == 1 {
                    retry_udid_msg(old(self).command, old(self).device_id@)
                } else {
                    retry_name_msg(old(self).command, old(self).device_udid@, old(self).device_name@)
                })
                &&& match last_reply(final(adapter).log()) {
                    Ok(()) => (r matches FallbackStep::Retry { target } && target@ == next_address(old(self).attempt as int,
                        old(self).device_udid@, old(self).device_name@)) && final(self).attempt == old(self).attempt + 1,
                    Err(e) => r == FallbackStep::Finished(Err(e)),
                }
            },
            !retry_due(outcome, old(self).attempt as int, old(self).device_name@) ==> r == FallbackStep::Finished(outcome)
                && final(adapter).log() == old(adapter).log() && final(self).attempt == old(self).attempt,
    {
        if outcome.is_ok() {
            return FallbackStep::Finished(outcome);
        }
        let e = match outcome {
            Ok(()) => return FallbackStep::Finished(Ok(())),
            Err(e) => e,
        };
        if !should_retry_devicectl_identifier(&e) || self.attempt >= 3 {
            return FallbackStep::Finished(Err(e));
        }
        let verb = match self.command {
            DeviceCommand::Install => "install",
            DeviceCommand::Launch => "launch",
        };
        if self.attempt == 1 {
            let mut m = "devicectl could not locate device identifier '".to_string();
            m.append(self.device_id.as_str());
            m.append("' — retrying ");
            m.append(verb);
            m.append(" with hardware UDID");
            let ghost before = adapter.log();
            let ghost msg = m@;
            assert(msg == retry_udid_msg(self.command, self.device_id@));
            let w = adapter.emit(WorkflowEvent::Warning { message: m });
            assert(adapter.log().drop_last() =~= before);
            if let Err(err) = w {
                return FallbackStep::Finished(Err(err));
            }
            self.attempt = 2;
            return FallbackStep::Retry { target: self.device_udid.clone() };
        }
        if self.device_name.as_str().unicode_len() == 0 {
            return FallbackStep::Finished(Err(e));
        }
        let mut m = "devicectl could not locate hardware UDID '".to_string();
        m.append(self.device_udid.as_str());
        m.append("' — retrying ");
        m.append(verb);
        m.append(" with device name '");
        m.append(self.device_name.as_str());
        m.append("'");
        let ghost before = adapter.log();
        let w = adapter.emit(WorkflowEvent::Warning { message: m });
        assert(adapter.log().drop_last() =~= before);
        if let Err(err) = w {
            return FallbackStep::Finished(Err(err));
        }
        self.attempt = 3;
        FallbackStep::Retry { target: self.device_name.clone() }
    }
}

/// Warning before a build is retried for a generic iOS destination.
pub open spec fn generic_build_msg(udid: Seq<char>) -> Seq<char> {
    "device-specific xcodebuild destination was unavailable for '"@ + udid
        + "' — retrying with generic iOS destination"@
}

/// What follows a build for the device: `Ok(true)` to build again for a
/// generic iOS destination (after a warning), `Ok(false)` when the build
/// succeeded, or the build's failure.
pub fn after_device_build<A: WorkflowAdapter>(outcome: Result<(), TossError>, device_udid: &str, adapter: &mut A) -> (r: Result<bool, TossError>)
    ensures
        match outcome {
            Ok(()) => r == Ok::<bool, TossError>(false) && final(adapter).log() == old(adapter).log(),
            Err(e) => if destination_failure(e) {
                &&& warns(old(adapter).log(), final(adapter).log(), generic_build_msg(device_udid@))
                &&& match last_reply(final(adapter).log()) {
                    Ok(()) => r == Ok::<bool, TossError>(true),
                    Err(w) => r == Err::<bool, TossError>(w),
                }
            } else {
                r == Err::<bool, TossError>(e) && final(adapter).log() == old(adapter).log()
            },
        },
{
    match outcome {
        Ok(()) => Ok(false),
        Err(e) => {
            if !should_retry_generic_ios_build(&e) {
                return Err(e);
            }
            let mut m = "device-specific xcodebuild destination was unavailable for '".to_string();
            m.append(device_udid);
            m.append("' — retrying with generic iOS destination");
            let ghost before = adapter.log();
            let w = adapter.emit(WorkflowEvent::Warning { message: m });
            assert(adapter.log().drop_last() =~= before);
            match w {
                Ok(()) => Ok(true),
                Err(err) => Err(err),
            }
        },
    }
}

} // verus!
