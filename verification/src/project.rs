//! Registered projects: where a project's app is found, and how projects are
//! added to and removed from the configuration.

use vstd::prelude::*;
use crate::actions::unknown_project_msg;
use crate::config::{Config, ProjectConfig, ProjectKind, clone_opt};
use crate::error::TossError;
use crate::lines::{split_lines, string_views, text_lines, trim, trimmed};
use crate::interaction::{Exchange, WorkflowAdapter, answer_in_range, asks, last_answer, pick_spec, select_one};
use crate::paths::{
    extension_is, file_name_of, file_stem_of, joined, path_file_stem, path_join, has_extension, name_from_file, parent_of, path_file_name, path_parent,
    sanitize_alias_from_name, sanitize_name, sanitized,
};

verus! {

/// A project that was registered.
#[derive(Debug, Clone)]
pub struct AddedProject {
    pub name: String,
    pub kind: ProjectKind,
    pub build_dir: Option<String>,
    pub source_dir: Option<String>,
    pub cached_ipa_path: Option<String>,
    pub original_name: Option<String>,
    pub app_name: Option<String>,
    pub bundle_id: Option<String>,
    pub is_default: bool,
}

/// A project that was removed.
#[derive(Debug, Clone)]
pub struct RemovedProject {
    pub name: String,
    pub cleared_default: bool,
}

/// Where a registered app project's bundle lies, as far as the configuration
/// says: its build directory, and the app name and bundle identifier when
/// they were recorded (otherwise they are read from the build directory).
#[derive(Debug)]
pub struct ProjectLocation {
    pub build_dir: String,
    pub app_name: Option<String>,
    pub bundle_id: Option<String>,
}

impl ProjectLocation {
    /// The app bundle's path, where the configuration records the app's
    /// name: the build directory joined with that name.
    pub fn app_path(&self) -> (r: Option<String>)
        ensures
            match self.app_name {
                Some(n) => r matches Some(p) && p@ == joined(self.build_dir@, n@),
                None => r is None,
            },
    {
        match &self.app_name {
            Some(n) => Some(path_join(self.build_dir.as_str(), n.as_str())),
            None => None,
        }
    }
}

/// Message for an IPA project used where an app bundle is needed.
pub open spec fn ipa_not_prebuilt_msg(name: Seq<char>) -> Seq<char> {
    "project '"@ + name + "' is an IPA project and cannot be resolved as a prebuilt app bundle"@
}

fn unknown_project_error(project: &str) -> (e: TossError)
    ensures
        e matches TossError::Project(m) && m@ == unknown_project_msg(project@),
{
    let mut m = "unknown project '".to_string();
    m.append(project);
    m.append("' — register it with `toss projects add`");
    TossError::Project(m)
}

/// Looks up where a registered app project's bundle lies.
pub fn resolve_project(config: &Config, project: &str) -> (r: Result<ProjectLocation, TossError>)
    ensures
        !config.projects@.dom().contains(project@) ==> (r matches Err(TossError::Project(m))
            && m@ == unknown_project_msg(project@)),
        config.projects@.dom().contains(project@) ==> {
            let p = config.projects@[project@];
            &&& p.kind == ProjectKind::Ipa ==> (r matches Err(TossError::Project(m))
                && m@ == ipa_not_prebuilt_msg(project@))
            &&& p.kind == ProjectKind::Xcode ==> (r matches Ok(l) && l.build_dir == p.build_dir
                && l.app_name == p.app_name && l.bundle_id == p.bundle_id)
        },
{
    let proj = match config.projects.get(project) {
        Some(p) => p,
        None => return Err(unknown_project_error(project)),
    };
    if proj.is_ipa() {
        let mut m = "project '".to_string();
        m.append(project);
        m.append("' is an IPA project and cannot be resolved as a prebuilt app bundle");
        return Err(TossError::Project(m));
    }
    Ok(ProjectLocation {
        build_dir: proj.build_dir.clone(),
        app_name: clone_opt(&proj.app_name),
        bundle_id: clone_opt(&proj.bundle_id),
    })
}

/// Message for a project name that is taken.
pub open spec fn project_exists_msg(name: Seq<char>) -> Seq<char> {
    "project '"@ + name + "' already exists"@
}

fn project_exists_error(name: &str) -> (e: TossError)
    ensures
        e matches TossError::Project(m) && m@ == project_exists_msg(name@),
{
    let mut m = "project '".to_string();
    m.append(name);
    m.append("' already exists");
    TossError::Project(m)
}

/// Refuses an alias that names a registered project; checked before anything
/// is read from disk.
pub fn check_alias_free(config: &Config, alias: Option<&str>) -> (r: Result<(), TossError>)
    ensures
        match alias {
            Some(a) => if config.projects@.dom().contains(a@) {
                r matches Err(TossError::Project(m)) && m@ == project_exists_msg(a@)
            } else {
                r is Ok
            },
            None => r is Ok,
        },
{
    if let Some(a) = alias {
        if config.projects.contains_key(a) {
            return Err(project_exists_error(a));
        }
    }
    Ok(())
}

/// What a path given to `projects add` is.
#[derive(Debug)]
pub enum ProjectInput {
    /// An `.app` bundle: its build directory is the bundle's parent.
    AppBundle { build_dir: String },
    /// A directory holding an `.xcodeproj` of the given name: its build
    /// directory is found in DerivedData.
    Source { source_dir: String, project_name: String },
    /// Any other directory, used as build directory.
    BuildDir { build_dir: String },
}

/// Message for a path that does not exist.
pub open spec fn missing_path_msg(path: Seq<char>) -> Seq<char> {
    "'"@ + path + "' does not exist"@
}

/// Message for a path that is neither a directory nor an app bundle.
pub open spec fn not_project_path_msg(path: Seq<char>) -> Seq<char> {
    "'"@ + path + "' is not a directory or .app bundle"@
}

fn quoted_error(path: &str, tail: &str) -> (e: TossError)
    ensures
        e matches TossError::Project(m) && m@ == "'"@ + path@ + tail@,
{
    let mut m = "'".to_string();
    m.append(path);
    m.append(tail);
    TossError::Project(m)
}

/// Classifies the (home-expanded) `input_path` given as `path`, from what is
/// on disk: whether it exists, the name of an `.xcodeproj` inside it, and
/// whether it is a directory. An app bundle whose path has no parent is
/// treated as a plain directory.
pub fn classify_project_path(path: &str, input_path: &str, exists: bool, xcodeproj: Option<String>, is_dir: bool) -> (r: Result<ProjectInput, TossError>)
    ensures
        !exists ==> (r matches Err(TossError::Project(m)) && m@ == missing_path_msg(path@)),
        exists && has_extension(input_path@, "app"@) && path_parent(input_path@) is Some ==> (r matches Ok(ProjectInput::AppBundle { build_dir })
            && Some(build_dir@) == path_parent(input_path@)),
        exists && !(has_extension(input_path@, "app"@) && path_parent(input_path@) is Some) ==> match xcodeproj {
            Some(n) => r matches Ok(ProjectInput::Source { source_dir, project_name }) && source_dir@ == input_path@
                && project_name == n,
            None => if is_dir {
                r matches Ok(ProjectInput::BuildDir { build_dir }) && build_dir@ == input_path@
            } else {
                r matches Err(TossError::Project(m)) && m@ == not_project_path_msg(path@)
            },
        },
{
    if !exists {
        return Err(quoted_error(path, "' does not exist"));
    }
    if extension_is(input_path, "app") {
        if let Some(parent) = parent_of(input_path) {
            return Ok(ProjectInput::AppBundle { build_dir: parent });
        }
    }
    match xcodeproj {
        Some(n) => Ok(ProjectInput::Source { source_dir: input_path.to_string(), project_name: n }),
        None => if is_dir {
            Ok(ProjectInput::BuildDir { build_dir: input_path.to_string() })
        } else {
            Err(quoted_error(path, "' is not a directory or .app bundle"))
        },
    }
}

/// The name a project is registered under: the alias, else a name derived
/// from the Xcode project's name, else from the build directory's name, else
/// `project`.
pub open spec fn project_name_for(alias: Option<Seq<char>>, project_name: Option<Seq<char>>, build_dir: Seq<char>) -> Seq<char> {
    match alias {
        Some(a) => a,
        None => sanitized(match project_name {
            Some(n) => n,
            None => match path_file_name(build_dir) {
                Some(f) => f,
                None => "project"@,
            },
        }),
    }
}

/// Adds `project` under `name`; the first registered project becomes the
/// default project. Returns whether it did.
fn register(config: &mut Config, name: &str, project: ProjectConfig) -> (is_first: bool)
    requires
        !old(config).projects@.dom().contains(name@),
    ensures
        is_first == (old(config).projects@ == Map::<Seq<char>, ProjectConfig>::empty()),
        final(config).projects@ == old(config).projects@.insert(name@, project),
        final(config).defaults.device == old(config).defaults.device,
        is_first ==> (final(config).defaults.project matches Some(d) && d@ == name@),
        !is_first ==> final(config).defaults.project == old(config).defaults.project,
        final(config).devices == old(config).devices,
        final(config).signing == old(config).signing,
{
    let is_first = config.projects.is_empty();
    config.projects.insert(name.to_string(), project);
    if is_first {
        config.defaults.project = Some(name.to_string());
    }
    is_first
}


/// The entry an app project is registered with.
pub open spec fn app_project_entry(source_dir: Option<String>, build_dir: String, app_name: Option<String>, bundle_id: Option<String>) -> ProjectConfig {
    ProjectConfig {
        kind: ProjectKind::Xcode,
        path: source_dir,
        build_dir,
        bundle_id,
        app_name,
        ipa_path: None,
        original_name: None,
        last_tossed_at: None,
    }
}

/// Registers an app project found at `build_dir` (built from `source_dir`
/// when that is known), under the alias or a name derived from the Xcode
/// project's or the build directory's name. The app name and bundle
/// identifier are those read from the build directory, if any. The first
/// registered project becomes the default. A name that is taken is refused
/// and nothing changes.
pub fn add_project(
    config: &mut Config,
    alias: Option<&str>,
    source_dir: Option<String>,
    build_dir: String,
    project_name: Option<String>,
    app_name: Option<String>,
    bundle_id: Option<String>,
) -> (r: Result<AddedProject, TossError>)
    ensures
        ({
            let name = project_name_for(
                match alias { Some(a) => Some(a@), None => None },
                match project_name { Some(n) => Some(n@), None => None },
                build_dir@,
            );
            &&& old(config).projects@.dom().contains(name) ==> (r matches Err(TossError::Project(m))
                && m@ == project_exists_msg(name) && *final(config) == *old(config))
            &&& !old(config).projects@.dom().contains(name) ==> (r matches Ok(a) && {
                &&& a.name@ == name
                &&& a.kind == ProjectKind::Xcode
                &&& a.build_dir == Some(build_dir)
                &&& a.source_dir == source_dir
                &&& a.cached_ipa_path is None
                &&& a.original_name is None
                &&& a.app_name == app_name
                &&& a.bundle_id == bundle_id
                &&& a.is_default == (old(config).projects@ == Map::<Seq<char>, ProjectConfig>::empty())
                &&& final(config).projects@ == old(config).projects@.insert(name, app_project_entry(source_dir, build_dir, app_name, bundle_id))
                &&& final(config).defaults.device == old(config).defaults.device
                &&& a.is_default ==> (final(config).defaults.project matches Some(d) && d@ == name)
                &&& !a.is_default ==> final(config).defaults.project == old(config).defaults.project
                &&& final(config).devices == old(config).devices
                &&& final(config).signing == old(config).signing
            })
        }),
{
    let name = match alias {
        Some(a) => a.to_string(),
        None => {
            let base = match &project_name {
                Some(n) => n.clone(),
                None => match file_name_of(build_dir.as_str()) {
                    Some(f) => f,
                    None => "project".to_string(),
                },
            };
            sanitize_name(base.as_str())
        },
    };
    if config.projects.contains_key(name.as_str()) {
        return Err(project_exists_error(name.as_str()));
    }
    let project = ProjectConfig {
        kind: ProjectKind::Xcode,
        path: clone_opt(&source_dir),
        build_dir: build_dir.clone(),
        bundle_id: clone_opt(&bundle_id),
        app_name: clone_opt(&app_name),
        ipa_path: None,
        original_name: None,
        last_tossed_at: None,
    };
    let is_default = register(config, name.as_str(), project);
    Ok(AddedProject {
        name,
        kind: ProjectKind::Xcode,
        build_dir: Some(build_dir),
        source_dir,
        cached_ipa_path: None,
        original_name: None,
        app_name,
        bundle_id,
        is_default,
    })
}

/// Message for a path that is not an `.ipa` file.
pub open spec fn not_ipa_msg(path: Seq<char>) -> Seq<char> {
    "'"@ + path + "' is not an .ipa file"@
}

/// Message for a path without a file name.
pub open spec fn no_file_name_msg(path: Seq<char>) -> Seq<char> {
    "cannot determine file name for '"@ + path + "'"@
}

/// The name an IPA is registered under: the alias, else a name derived from
/// its file name.
pub open spec fn ipa_project_name(alias: Option<Seq<char>>, file_name: Seq<char>) -> Seq<char> {
    match alias {
        Some(a) => a,
        None => name_from_file(file_name),
    }
}

/// The file name of an IPA project's cached copy: the project name and a
/// short hash of the source file, joined by `-`, with the `ipa` extension.
pub fn cached_ipa_file_name(name: &str, hash: &str) -> (r: String)
    ensures
        r@ == name@ + "-"@ + hash@ + ".ipa"@,
{
    let mut r = name.to_string();
    r.append("-");
    r.append(hash);
    r.append(".ipa");
    r
}

/// An IPA about to be registered: its project name and original file name.
/// The name is the alias given, else the one made from the file name.
pub struct IpaRegistration {
    name: String,
    original_name: String,
    alias: Ghost<Option<Seq<char>>>,
}

impl IpaRegistration {
    #[verifier::type_invariant]
    spec fn named_by_rule(self) -> bool {
        self.name@ == ipa_project_name(self.alias@, self.original_name@)
    }

    /// The project name it is registered under.
    pub closed spec fn name_spec(&self) -> Seq<char> {
        self.name@
    }

    /// The IPA's original file name.
    pub closed spec fn original_spec(&self) -> Seq<char> {
        self.original_name@
    }

    /// The alias given on the command line, if any.
    pub closed spec fn alias_spec(&self) -> Option<Seq<char>> {
        self.alias@
    }

    /// The IPA's original file name.
    pub fn original_name(&self) -> (r: &str)
        ensures
            r@ == self.original_spec(),
    {
        self.original_name.as_str()
    }

    /// The project name it is registered under.
    pub fn name(&self) -> (r: &str)
        ensures
            r@ == self.name_spec(),
            r@ == ipa_project_name(self.alias_spec(), self.original_spec()),
    {
        proof {
            use_type_invariant(self);
        }
        self.name.as_str()
    }
}

/// Checks an IPA given to `projects add --ipa` (as `path`, home-expanded to
/// `input_path`) before it is copied into the cache: it must exist, be a
/// file with the `ipa` extension, have a file name, and its project name
/// must be free.
pub fn plan_ipa_project(config: &Config, path: &str, input_path: &str, exists: bool, is_file: bool, alias: Option<&str>) -> (r: Result<IpaRegistration, TossError>)
    ensures
        !exists ==> (r matches Err(TossError::Project(m)) && m@ == missing_path_msg(path@)),
        exists && !(is_file && has_extension(input_path@, "ipa"@)) ==> (r matches Err(TossError::Project(m))
            && m@ == not_ipa_msg(path@)),
        exists && is_file && has_extension(input_path@, "ipa"@) ==> match path_file_name(input_path@) {
            None => r matches Err(TossError::Project(m)) && m@ == no_file_name_msg(path@),
            Some(f) => {
                let name = ipa_project_name(match alias { Some(a) => Some(a@), None => None }, f);
                &&& config.projects@.dom().contains(name) ==> (r matches Err(TossError::Project(m))
                    && m@ == project_exists_msg(name))
                &&& !config.projects@.dom().contains(name) ==> (r matches Ok(p) && p.name_spec() == name
                    && p.original_spec() == f && p.alias_spec() == match alias { Some(a) => Some(a@), None => None })
            },
        },
{
    if !exists {
        return Err(quoted_error(path, "' does not exist"));
    }
    if !is_file || !extension_is(input_path, "ipa") {
        return Err(quoted_error(path, "' is not an .ipa file"));
    }
    let original_name = match file_name_of(input_path) {
        Some(f) => f,
        None => {
            let mut m = "cannot determine file name for '".to_string();
            m.append(path);
            m.append("'");
            return Err(TossError::Project(m));
        },
    };
    let name = match alias {
        Some(a) => a.to_string(),
        None => sanitize_alias_from_name(original_name.as_str()),
    };
    if config.projects.contains_key(name.as_str()) {
        return Err(project_exists_error(name.as_str()));
    }
    Ok(IpaRegistration { name, original_name, alias: Ghost(match alias { Some(a) => Some(a@), None => None }) })
}

/// The entry an IPA project is registered with: the cached copy's path, the
/// original file name and the bundle identifier read from it, if any.
pub open spec fn is_ipa_entry(p: ProjectConfig, cached_path: String, original_name: Seq<char>, bundle_id: Option<String>) -> bool {
    &&& p.kind == ProjectKind::Ipa
    &&& p.path is None
    &&& p.build_dir@ == Seq::<char>::empty()
    &&& p.bundle_id == bundle_id
    &&& p.app_name is None
    &&& p.ipa_path == Some(cached_path)
    &&& (p.original_name matches Some(o) && o@ == original_name)
    &&& p.last_tossed_at is None
}

/// Registers a checked IPA once it is copied into the cache at
/// `cached_path`; the first registered project becomes the default.
pub fn add_ipa_project(config: &mut Config, registration: IpaRegistration, cached_path: String, bundle_id: Option<String>) -> (a: AddedProject)
    requires
        !old(config).projects@.dom().contains(registration.name_spec()),
    ensures
        a.name@ == registration.name_spec(),
        a.name@ == ipa_project_name(registration.alias_spec(), registration.original_spec()),
        a.kind == ProjectKind::Ipa,
        a.build_dir is None,
        a.source_dir is None,
        a.cached_ipa_path == Some(cached_path),
        (a.original_name matches Some(o) && o@ == registration.original_spec()),
        a.app_name is None,
        a.bundle_id == bundle_id,
        a.is_default == (old(config).projects@ == Map::<Seq<char>, ProjectConfig>::empty()),
        final(config).projects@ == old(config).projects@.insert(registration.name_spec(), final(config).projects@[registration.name_spec()]),
        is_ipa_entry(final(config).projects@[registration.name_spec()], cached_path, registration.original_spec(), bundle_id),
        final(config).defaults.device == old(config).defaults.device,
        a.is_default ==> (final(config).defaults.project matches Some(d) && d@ == registration.name_spec()),
        !a.is_default ==> final(config).defaults.project == old(config).defaults.project,
        final(config).devices == old(config).devices,
        final(config).signing == old(config).signing,
{
    proof {
        use_type_invariant(&registration);
    }
    let project = ProjectConfig {
        kind: ProjectKind::Ipa,
        path: None,
        build_dir: String::new(),
        bundle_id: clone_opt(&bundle_id),
        app_name: None,
        ipa_path: Some(cached_path.clone()),
        original_name: Some(registration.original_name.clone()),
        last_tossed_at: None,
    };
    let is_default = register(config, registration.name.as_str(), project);
    AddedProject {
        name: registration.name.clone(),
        kind: ProjectKind::Ipa,
        build_dir: None,
        source_dir: None,
        cached_ipa_path: Some(cached_path),
        original_name: Some(registration.original_name.clone()),
        app_name: None,
        bundle_id,
        is_default,
    }
}

/// Message for removing a project that is not registered.
pub open spec fn no_such_project_msg(name: Seq<char>) -> Seq<char> {
    "no project named '"@ + name + "' found"@
}

/// Unregisters a project; the default project is cleared when it was this
/// one. Fails, changing nothing, when no project has that name.
pub fn remove_project(config: &mut Config, alias: &str) -> (r: Result<RemovedProject, TossError>)
    ensures
        !old(config).projects@.dom().contains(alias@) ==> (r matches Err(TossError::Project(m))
            && m@ == no_such_project_msg(alias@) && *final(config) == *old(config)),
        old(config).projects@.dom().contains(alias@) ==> (r matches Ok(rp) && {
            let was_default = old(config).defaults.project matches Some(d) && d@ == alias@;
            &&& rp.name@ == alias@
            &&& rp.cleared_default == was_default
            &&& final(config).projects@ == old(config).projects@.remove(alias@)
            &&& final(config).defaults.project == if was_default { None } else { old(config).defaults.project }
            &&& final(config).defaults.device == old(config).defaults.device
            &&& final(config).devices == old(config).devices
            &&& final(config).signing == old(config).signing
        }),
{
    if !config.projects.contains_key(alias) {
        let mut m = "no project named '".to_string();
        m.append(alias);
        m.append("' found");
        return Err(TossError::Project(m));
    }
    let _removed = config.projects.remove(alias);
    let cleared_default = match &config.defaults.project {
        Some(d) => crate::text::str_eq(d.as_str(), alias),
        None => false,
    };
    if cleared_default {
        config.defaults.project = None;
    }
    Ok(RemovedProject { name: alias.to_string(), cleared_default })
}

/// Message for an app project used where an IPA is needed.
pub open spec fn not_ipa_project_msg(name: Seq<char>) -> Seq<char> {
    "project '"@ + name + "' is not an IPA project"@
}

/// Message for an IPA project without a cached copy.
pub open spec fn missing_cached_ipa_msg(name: Seq<char>) -> Seq<char> {
    "project '"@ + name + "' is missing its cached ipa path"@
}

/// The path of a registered IPA project's cached copy.
pub fn managed_ipa_path(config: &Config, project: &str) -> (r: Result<String, TossError>)
    ensures
        !config.projects@.dom().contains(project@) ==> (r matches Err(TossError::Project(m))
            && m@ == unknown_project_msg(project@)),
        config.projects@.dom().contains(project@) ==> {
            let p = config.projects@[project@];
            &&& p.kind != ProjectKind::Ipa ==> (r matches Err(TossError::Project(m)) && m@ == not_ipa_project_msg(project@))
            &&& p.kind == ProjectKind::Ipa ==> match p.ipa_path {
                Some(ip) => r matches Ok(s) && s@ == ip@,
                None => r matches Err(TossError::Project(m)) && m@ == missing_cached_ipa_msg(project@),
            }
        },
{
    let proj = match config.projects.get(project) {
        Some(p) => p,
        None => return Err(unknown_project_error(project)),
    };
    if !proj.is_ipa() {
        let mut m = "project '".to_string();
        m.append(project);
        m.append("' is not an IPA project");
        return Err(TossError::Project(m));
    }
    match &proj.ipa_path {
        Some(ip) => Ok(ip.clone()),
        None => {
            let mut m = "project '".to_string();
            m.append(project);
            m.append("' is missing its cached ipa path");
            Err(TossError::Project(m))
        },
    }
}

/// Message when a project has no scheme to build.
pub open spec fn no_schemes_available_msg() -> Seq<char> {
    "no schemes available"@
}

/// Message when several schemes exist and the user cannot be asked.
pub open spec fn multiple_schemes_msg() -> Seq<char> {
    "multiple schemes found — specify one via an interactive adapter"@
}

/// `r` is what picking among `items` gives for the chooser's answer `c`:
/// the item chosen, a project error with `msg` when the user could not be
/// asked, or the front end's own failure.
pub open spec fn chosen_item(r: Result<String, TossError>, c: Result<Option<usize>, TossError>, items: Seq<String>, msg: Seq<char>) -> bool {
    match c {
        Ok(Some(k)) => r == Ok::<String, TossError>(items[k as int]),
        Ok(None) => r matches Err(TossError::Project(m)) && m@ == msg,
        Err(e) => r == Err::<String, TossError>(e),
    }
}

/// Picks one of `items` given the chooser's answer: the item at the chosen
/// position, a project error with `multiple_msg` when the user could not be
/// asked, or the front end's own failure.
pub fn pick_item(items: &[String], choice: Result<Option<usize>, TossError>, multiple_msg: &str) -> (r: Result<String, TossError>)
    requires
        answer_in_range(choice, items@.len()),
    ensures
        chosen_item(r, choice, items@, multiple_msg@),
{
    match choice {
        Ok(Some(k)) => Ok(items[k].clone()),
        Ok(None) => Err(TossError::Project(multiple_msg.to_string())),
        Err(e) => Err(e),
    }
}

/// Picking one of `items`, from log `before` to log `after`: with none and
/// an `empty` message given, fails with it; with one, takes it; otherwise the
/// user is asked once under `prompt`, and that answer decides (`multiple` is
/// the message when the front end cannot ask).
pub open spec fn item_selection(items: Seq<String>, prompt: Seq<char>, empty: Option<Seq<char>>, multiple: Seq<char>,
    before: Seq<Exchange>, after: Seq<Exchange>, r: Result<String, TossError>) -> bool {
    if items.len() == 0 && empty is Some {
        after == before && (r matches Err(TossError::Project(m)) && m@ == empty->0)
    } else if items.len() == 1 {
        after == before && r == Ok::<String, TossError>(items[0])
    } else {
        &&& asks(before, after, prompt, string_views(items))
        &&& answer_in_range(last_answer(after), items.len())
        &&& chosen_item(r, last_answer(after), items, multiple)
    }
}

/// Picks one of `items` (`empty_msg`, if any, is the error for none; with
/// none and no such message the user is asked anyway).
fn select_item<A: WorkflowAdapter>(adapter: &mut A, prompt: &str, items: &[String], empty_msg: Option<&str>, multiple_msg: &str) -> (r: Result<String, TossError>)
    ensures
        item_selection(items@, prompt@, match empty_msg { Some(m) => Some(m@), None => None }, multiple_msg@,
            old(adapter).log(), final(adapter).log(), r),
{
    if items.len() == 0 {
        if let Some(m) = empty_msg {
            return Err(TossError::Project(m.to_string()));
        }
    }
    if items.len() == 1 {
        return Ok(items[0].clone());
    }
    let choice = adapter.select_index(prompt, items, 0);
    pick_item(items, choice, multiple_msg)
}

/// Prompt for the scheme to build.
pub open spec fn scheme_prompt() -> Seq<char> {
    "Select scheme"@
}

/// Picks the scheme to build: the only one, or the user's choice.
pub fn select_scheme<A: WorkflowAdapter>(schemes: Vec<String>, adapter: &mut A) -> (r: Result<String, TossError>)
    ensures
        item_selection(schemes@, scheme_prompt(), Some(no_schemes_available_msg()), multiple_schemes_msg(),
            old(adapter).log(), final(adapter).log(), r),
{
    select_item(adapter, "Select scheme", schemes.as_slice(), Some("no schemes available"),
        "multiple schemes found — specify one via an interactive adapter")
}

/// Message when several build directories match and the user cannot be asked.
pub open spec fn multiple_build_dirs_msg() -> Seq<char> {
    "multiple build directories found — use the TUI to choose one"@
}

/// Prompt for the build directory of a source project.
pub open spec fn build_dir_prompt() -> Seq<char> {
    "Multiple build directories found — choose one"@
}

/// Picks the build directory of a source project among the DerivedData
/// builds found: the only one, or the user's choice.
pub fn select_build_dir<A: WorkflowAdapter>(builds: &[String], adapter: &mut A) -> (r: Result<String, TossError>)
    ensures
        item_selection(builds@, build_dir_prompt(), None, multiple_build_dirs_msg(), old(adapter).log(), final(adapter).log(), r),
{
    select_item(adapter, "Multiple build directories found — choose one", builds, None,
        "multiple build directories found — use the TUI to choose one")
}

/// Message when several build outputs match and the user cannot be asked.
pub open spec fn multiple_build_outputs_msg() -> Seq<char> {
    "multiple build outputs found — use the TUI to choose one"@
}

/// Prompt for the build output to deploy.
pub open spec fn build_output_prompt() -> Seq<char> {
    "Multiple build outputs found, select one"@
}

/// Picks the build output to deploy after a build: the only one, or the
/// user's choice.
pub fn select_build_output<A: WorkflowAdapter>(builds: &[String], adapter: &mut A) -> (r: Result<String, TossError>)
    ensures
        item_selection(builds@, build_output_prompt(), None, multiple_build_outputs_msg(), old(adapter).log(), final(adapter).log(), r),
{
    select_item(adapter, "Multiple build outputs found, select one", builds, None,
        "multiple build outputs found — use the TUI to choose one")
}

/// Position of the first entry name with extension `ext`, from position `i` on.
pub open spec fn first_with_ext(names: Seq<String>, ext: Seq<char>, i: int) -> Option<int>
    decreases names.len() - i,
{
    if i < 0 || i >= names.len() {
        None
    } else if has_extension(names[i]@, ext) {
        Some(i)
    } else {
        first_with_ext(names, ext, i + 1)
    }
}

fn find_first_with_ext(names: &[String], ext: &str) -> (r: Option<usize>)
    ensures
        r matches Some(i) ==> i < names@.len() && first_with_ext(names@, ext@, 0) == Some(i as int),
        r is None ==> first_with_ext(names@, ext@, 0) is None,
{
    let mut i: usize = 0;
    while i < names.len()
        invariant
            i <= names@.len(),
            first_with_ext(names@, ext@, 0) == first_with_ext(names@, ext@, i as int),
        decreases names@.len() - i,
    {
        if extension_is(names[i].as_str(), ext) {
            return Some(i);
        }
        i = i + 1;
    }
    None
}

/// The entry names with extension `ext`, in order.
pub open spec fn names_with_ext(names: Seq<String>, ext: Seq<char>) -> Seq<String>
    decreases names.len(),
{
    if names.len() == 0 {
        names
    } else if has_extension(names.last()@, ext) {
        names_with_ext(names.drop_last(), ext).push(names.last())
    } else {
        names_with_ext(names.drop_last(), ext)
    }
}

fn filter_ext(names: &[String], ext: &str) -> (r: Vec<String>)
    ensures
        r@ == names_with_ext(names@, ext@),
{
    let mut r: Vec<String> = Vec::new();
    let mut i: usize = 0;
    while i < names.len()
        invariant
            i <= names@.len(),
            r@ == names_with_ext(names@.subrange(0, i as int), ext@),
        decreases names@.len() - i,
    {
        assert(names@.subrange(0, i + 1).drop_last() =~= names@.subrange(0, i as int));
        if extension_is(names[i].as_str(), ext) {
            r.push(names[i].clone());
        }
        i = i + 1;
    }
    assert(names@.subrange(0, names@.len() as int) =~= names@);
    r
}

/// Message when a build directory holds no app bundle.
pub open spec fn no_app_msg(dir: Seq<char>) -> Seq<char> {
    "no .app found in "@ + dir
}

/// Message when a build directory holds several app bundles.
pub open spec fn multiple_apps_msg(dir: Seq<char>) -> Seq<char> {
    "multiple .app bundles found in "@ + dir + " — specify app_name in config"@
}

/// The app bundle of a build directory `dir`, from the names of its entries:
/// the only one with the `app` extension.
pub fn find_app_in_dir(dir: &str, entries: &[String]) -> (r: Result<String, TossError>)
    ensures
        ({
            let apps = names_with_ext(entries@, "app"@);
            &&& apps.len() == 0 ==> (r matches Err(TossError::Project(m)) && m@ == no_app_msg(dir@))
            &&& apps.len() == 1 ==> r == Ok::<String, TossError>(apps[0])
            &&& apps.len() > 1 ==> (r matches Err(TossError::Project(m)) && m@ == multiple_apps_msg(dir@))
        }),
{
    let apps = filter_ext(entries, "app");
    if apps.len() == 0 {
        let mut m = "no .app found in ".to_string();
        m.append(dir);
        return Err(TossError::Project(m));
    }
    if apps.len() == 1 {
        return Ok(apps[0].clone());
    }
    let mut m = "multiple .app bundles found in ".to_string();
    m.append(dir);
    m.append(" — specify app_name in config");
    Err(TossError::Project(m))
}

/// Message when a directory holds no Xcode workspace or project.
pub open spec fn no_xcode_project_msg(dir: Seq<char>) -> Seq<char> {
    "no .xcworkspace or .xcodeproj found in "@ + dir
}

/// The workspace or project to build in `dir`, from the names of its
/// entries: the first workspace, else the first project; `true` for a
/// workspace.
pub fn find_xcode_project(dir: &str, entries: &[String]) -> (r: Result<(String, bool), TossError>)
    ensures
        match first_with_ext(entries@, "xcworkspace"@, 0) {
            Some(i) => r matches Ok((p, w)) && p@ == joined(dir@, entries@[i]@) && w,
            None => match first_with_ext(entries@, "xcodeproj"@, 0) {
                Some(i) => r matches Ok((p, w)) && p@ == joined(dir@, entries@[i]@) && !w,
                None => r matches Err(TossError::Project(m)) && m@ == no_xcode_project_msg(dir@),
            },
        },
{
    if let Some(i) = find_first_with_ext(entries, "xcworkspace") {
        return Ok((path_join(dir, entries[i].as_str()), true));
    }
    if let Some(i) = find_first_with_ext(entries, "xcodeproj") {
        return Ok((path_join(dir, entries[i].as_str()), false));
    }
    let mut m = "no .xcworkspace or .xcodeproj found in ".to_string();
    m.append(dir);
    Err(TossError::Project(m))
}

/// The entries whose names start with `prefix`, in order.
pub open spec fn prefixed(entries: Seq<Seq<char>>, prefix: Seq<char>) -> Seq<Seq<char>>
    decreases entries.len(),
{
    if entries.len() == 0 {
        Seq::empty()
    } else {
        let rest = prefixed(entries.drop_last(), prefix);
        if crate::text::starts_with(entries.last(), prefix) { rest.push(entries.last()) } else { rest }
    }
}

/// The entries kept by a prefix are exactly the entries made of the prefix
/// followed by anything, in their order, none added.
pub proof fn lemma_prefixed_meaning(entries: Seq<Seq<char>>, prefix: Seq<char>)
    ensures
        forall|x: Seq<char>| #[trigger] prefixed(entries, prefix).contains(x) <==> entries.contains(x)
            && exists|rest: Seq<char>| x == prefix + rest,
        prefixed(entries, prefix).len() <= entries.len(),
    decreases entries.len(),
{
    if entries.len() > 0 {
        let init = entries.drop_last();
        let last = entries.last();
        lemma_prefixed_meaning(init, prefix);
        crate::text::lemma_starts_with_split(last, prefix);
        assert forall|x: Seq<char>| #[trigger] prefixed(entries, prefix).contains(x) <==> entries.contains(x)
            && exists|rest: Seq<char>| x == prefix + rest by {
            crate::text::lemma_starts_with_split(x, prefix);
            let r = prefixed(init, prefix);
            if prefixed(entries, prefix).contains(x) {
                let q = choose|q: int| 0 <= q < prefixed(entries, prefix).len() && prefixed(entries, prefix)[q] == x;
                if q < r.len() {
                    assert(r[q] == x);
                    assert(r.contains(x));
                    let k = choose|k: int| 0 <= k < init.len() && init[k] == x;
                    assert(entries[k] == x);
                } else {
                    assert(x == last);
                    assert(entries[entries.len() - 1] == x);
                }
            }
            if entries.contains(x) && exists|rest: Seq<char>| x == prefix + rest {
                let k = choose|k: int| 0 <= k < entries.len() && entries[k] == x;
                if k < entries.len() - 1 {
                    assert(init[k] == x);
                    assert(r.contains(x));
                    let q = choose|q: int| 0 <= q < r.len() && r[q] == x;
                    assert(prefixed(entries, prefix)[q] == x);
                } else {
                    assert(prefixed(entries, prefix)[r.len() as int] == x);
                }
            }
        }
    }
}

/// Entries that are `prefix` followed by anything.
pub open spec fn begins_with(prefix: Seq<char>) -> spec_fn(Seq<char>) -> bool {
    |x: Seq<char>| exists|rest: Seq<char>| x == prefix + rest
}

/// The entries kept by a prefix are those that begin with it, in their
/// order and as often as they occur.
pub proof fn lemma_prefixed_is_filter(entries: Seq<Seq<char>>, prefix: Seq<char>)
    ensures
        prefixed(entries, prefix) == entries.filter(begins_with(prefix)),
    decreases entries.len(),
{
    if entries.len() == 0 {
        reveal(Seq::filter);
    } else {
        let init = entries.drop_last();
        lemma_prefixed_is_filter(init, prefix);
        assert(entries =~= init.push(entries.last()));
        init.lemma_filter_push(entries.last(), begins_with(prefix));
        crate::text::lemma_starts_with_split(entries.last(), prefix);
    }
}

/// The DerivedData folders of a project are exactly the entries named by
/// the project's name, a dash, and anything after it: `Demo-abc` is one of
/// `Demo`'s, `Other-xyz` is not.
pub proof fn lemma_derived_data_folders_meaning(entries: Seq<Seq<char>>, project_name: Seq<char>)
    ensures
        forall|x: Seq<char>| #[trigger] prefixed(entries, project_name + "-"@).contains(x) <==> entries.contains(x)
            && exists|rest: Seq<char>| x == project_name + seq!['-'] + rest,
{
    lemma_prefixed_meaning(entries, project_name + "-"@);
    reveal_strlit("-");
    assert("-"@ =~= seq!['-']);
}

/// The DerivedData folders of an Xcode project among the entries of the
/// DerivedData directory: those named after the project and a dash.
pub fn derived_data_folders(project_name: &str, entries: &[String]) -> (r: Vec<String>)
    ensures
        string_views(r@) == prefixed(string_views(entries@), project_name@ + "-"@),
{
    let prefix = crate::text::concat(project_name, "-");
    let ghost views = string_views(entries@);
    let mut r: Vec<String> = Vec::new();
    let mut i: usize = 0;
    while i < entries.len()
        invariant
            i <= entries@.len(),
            views == string_views(entries@),
            prefix@ == project_name@ + "-"@,
            string_views(r@) == prefixed(views.subrange(0, i as int), prefix@),
        decreases entries@.len() - i,
    {
        assert(views.subrange(0, i + 1).drop_last() =~= views.subrange(0, i as int));
        assert(views.subrange(0, i + 1).last() == entries@[i as int]@);
        if crate::text::str_starts_with(entries[i].as_str(), prefix.as_str()) {
            let ghost before = r@;
            r.push(entries[i].clone());
            assert(string_views(r@) =~= string_views(before).push(entries@[i as int]@));
        }
        i = i + 1;
    }
    assert(views.subrange(0, entries@.len() as int) =~= views);
    r
}

/// Message when no DerivedData build of a project holds an app.
pub open spec fn no_derived_build_msg(project: Seq<char>) -> Seq<char> {
    "no DerivedData build found for '"@ + project + "' — build the project in Xcode first"@
}

/// The paths, among `products`, of the build products directories that hold
/// an app; each comes with the entries read from it (`None` where it is not
/// a directory).
pub open spec fn app_products(products: Seq<(String, Option<Vec<String>>)>) -> Seq<Seq<char>>
    decreases products.len(),
{
    if products.len() == 0 {
        Seq::empty()
    } else {
        let prev = app_products(products.drop_last());
        match products.last().1 {
            Some(v) => if first_with_ext(v@, "app"@, 0) is Some {
                prev.push(products.last().0@)
            } else {
                prev
            },
            None => prev,
        }
    }
}

/// The builds of a project found in DerivedData: the build products
/// directories (of its DerivedData folders, in order) that hold an app.
/// Fails when there is none.
pub fn derived_data_builds(project_name: &str, products: &[(String, Option<Vec<String>>)]) -> (r: Result<Vec<String>, TossError>)
    ensures
        app_products(products@).len() == 0 ==> (r matches Err(TossError::Project(m)) && m@ == no_derived_build_msg(project_name@)),
        app_products(products@).len() > 0 ==> (r matches Ok(v) && string_views(v@) == app_products(products@)),
{
    let mut r: Vec<String> = Vec::new();
    let mut i: usize = 0;
    while i < products.len()
        invariant
            i <= products@.len(),
            string_views(r@) == app_products(products@.subrange(0, i as int)),
        decreases products@.len() - i,
    {
        assert(products@.subrange(0, i + 1).drop_last() =~= products@.subrange(0, i as int));
        assert(products@.subrange(0, i + 1).last() == products@[i as int]);
        if let Some(entries) = &products[i].1 {
            if find_first_with_ext(entries.as_slice(), "app").is_some() {
                let ghost before = r@;
                r.push(products[i].0.clone());
                assert(string_views(r@) =~= string_views(before).push(products@[i as int].0@));
            }
        }
        i = i + 1;
    }
    assert(products@.subrange(0, products@.len() as int) =~= products@);
    if r.len() == 0 {
        let mut m = "no DerivedData build found for '".to_string();
        m.append(project_name);
        m.append("' — build the project in Xcode first");
        return Err(TossError::Project(m));
    }
    Ok(r)
}

/// The name of the first Xcode project among a directory's entries (its
/// file stem).
pub fn find_xcodeproj(entries: &[String]) -> (r: Option<String>)
    ensures
        match first_with_ext(entries@, "xcodeproj"@, 0) {
            Some(i) => match path_file_stem(entries@[i]@) {
                Some(stem) => r matches Some(s) && s@ == stem,
                None => r is None,
            },
            None => r is None,
        },
{
    match find_first_with_ext(entries, "xcodeproj") {
        Some(i) => file_stem_of(entries[i].as_str()),
        None => None,
    }
}

/// The schemes listed by `xcodebuild -list`: the trimmed lines after the
/// `Schemes:` heading (from line `i` on, `in_section` telling whether the
/// heading was seen), up to the first blank line; further headings are
/// skipped.
pub open spec fn scheme_section(lines: Seq<Seq<char>>, i: int, in_section: bool) -> Seq<Seq<char>>
    decreases lines.len() - i,
{
    if i < 0 || i >= lines.len() {
        Seq::empty()
    } else {
        let t = trimmed(lines[i]);
        if t == "Schemes:"@ {
            scheme_section(lines, i + 1, true)
        } else if in_section {
            if t.len() == 0 {
                Seq::empty()
            } else {
                seq![t] + scheme_section(lines, i + 1, true)
            }
        } else {
            scheme_section(lines, i + 1, false)
        }
    }
}

/// The schemes in the output of `xcodebuild -list`.
pub open spec fn listed_schemes(output: Seq<char>) -> Seq<Seq<char>> {
    scheme_section(text_lines(output), 0, false)
}

/// Message when `xcodebuild -list` names no scheme.
pub open spec fn no_schemes_found_msg() -> Seq<char> {
    "no schemes found"@
}

/// Reads the schemes from the output of `xcodebuild -list`; there must be one.
pub fn parse_schemes(output: &str) -> (r: Result<Vec<String>, TossError>)
    ensures
        listed_schemes(output@).len() == 0 ==> (r matches Err(TossError::Project(m)) && m@ == no_schemes_found_msg()),
        listed_schemes(output@).len() > 0 ==> (r matches Ok(v) && string_views(v@) == listed_schemes(output@)),
{
    let lines = split_lines(output);
    let ghost ls = string_views(lines@);
    let mut schemes: Vec<String> = Vec::new();
    let mut in_section = false;
    let mut i: usize = 0;
    while i < lines.len()
        invariant_except_break
            i <= lines@.len(),
            ls == string_views(lines@),
            string_views(schemes@) + scheme_section(ls, i as int, in_section) == scheme_section(ls, 0, false),
        ensures
            ls == string_views(lines@),
            string_views(schemes@) == scheme_section(ls, 0, false),
        decreases lines@.len() - i,
    {
        let t = trim(lines[i].as_str());
        assert(ls[i as int] == lines@[i as int]@);
        if crate::text::str_eq(t.as_str(), "Schemes:") {
            in_section = true;
        } else if in_section {
            if t.as_str().unicode_len() == 0 {
                assert(string_views(schemes@) + Seq::<Seq<char>>::empty() =~= string_views(schemes@));
                break;
            }
            let ghost before = schemes@;
            schemes.push(t);
            assert(string_views(schemes@) =~= string_views(before).push(schemes@.last()@));
            assert(string_views(before) + (seq![schemes@.last()@] + scheme_section(ls, i + 1, true))
                =~= string_views(schemes@) + scheme_section(ls, i + 1, true));
        }
        i = i + 1;
    }
    proof {
        if i >= lines@.len() {
            assert(string_views(schemes@) + Seq::<Seq<char>>::empty() =~= string_views(schemes@));
        }
    }
    if schemes.len() == 0 {
        return Err(TossError::Project("no schemes found".to_string()));
    }
    Ok(schemes)
}

} // verus!
