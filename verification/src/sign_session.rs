//! Re-signing an IPA and deploying it: the steps of `sign`, decided one at
//! a time while the caller unpacks, signs and talks to the device.

use vstd::prelude::*;
use crate::actions::{device_details, resolve_device};
use crate::config::Config;
use crate::device::{Device, device_resolution, device_selected};
use crate::error::{TossError, error_text};
use crate::interaction::{Exchange, WorkflowAdapter, WorkflowEvent, last_reply, warns};
use crate::paths::{file_name_of, path_file_name};
use crate::sign::{
    kind_name, target_usable,
    BundleKind, BundleTarget, DiscoveredBundle, PlannerAction, PlannerEvent, ProvisioningProfile, SigningIdentity, SigningPlan,
    SigningPlanner, identities_in, identity_selection, identity_views, main_bundle_id, no_identities_msg,
    parse_signing_identities, select_signing_identity,
};
use crate::lines::text_lines;

verus! {

/// What signing and deploying an IPA achieved.
#[derive(Debug)]
pub struct SignOutcome {
    pub app_path: String,
    pub final_bundle_id: String,
    pub launched: bool,
}

/// What `sign` reports.
#[derive(Debug, Clone)]
pub struct SignResult {
    pub device_id: String,
    pub device_udid: String,
    pub device_name: String,
    pub app_path: String,
    pub final_bundle_id: String,
    pub launched: bool,
}

/// What a signing session asks its caller to do next.
#[derive(Debug)]
pub enum SignAction {
    /// List the devices.
    ListDevices,
    /// Unpack the IPA and read the bundle identifier of its app.
    Extract { ipa: String },
    /// List the signing identities (`security find-identity`).
    ListIdentities,
    /// Find the app's bundles (the app, then its extensions) with their
    /// identifiers, the installed profiles, and the current time.
    Scan { app_path: String },
    /// Read the profile at `path`.
    LoadProfile { path: String },
    /// Provision a profile by building a probe app, then list the installed
    /// profiles again.
    AutoProvision { kind: BundleKind, bundle_id: String, team_id: String, device_udid: String },
    /// Rewrite identifiers, embed profiles and sign the bundles of the plan
    /// with the identity, then verify the app.
    SignBundles,
    /// Install the app on the device addressed by `device`.
    Install { device: String, app_path: String },
    /// Launch the app on the device addressed by `device`.
    Launch { device: String, bundle_id: String },
    /// Delete the temporary profiles.
    Cleanup { paths: Vec<String> },
    /// The session is over.
    Finished(SignResult),
}

/// What the caller hands back after an action.
#[derive(Debug)]
pub enum SignEvent {
    Begin,
    Devices(Vec<Device>),
    Extracted { app_path: String, bundle_id: String },
    IdentityList(String),
    Scanned { bundles: Vec<DiscoveredBundle>, profiles: Vec<ProvisioningProfile>, now: u64 },
    ProfileLoaded(ProvisioningProfile),
    Provisioned(Vec<ProvisioningProfile>),
    Signed(Result<(), TossError>),
    CommandDone(Result<(), TossError>),
    CleanedUp(Result<(), TossError>),
}

/// Where a signing session stands.
#[derive(Debug, Clone, Copy, PartialEq, Eq, Structural)]
pub enum SignPhase {
    Start,
    Devices,
    Extract,
    Identities,
    Scan,
    AwaitProfile,
    AwaitProvisioning,
    Signing,
    Install,
    Launch,
    Cleanup,
    Done,
}

/// The event each phase waits for.
pub open spec fn sign_awaited(phase: SignPhase, e: SignEvent) -> bool {
    match phase {
        SignPhase::Start => e is Begin,
        SignPhase::Devices => e is Devices,
        SignPhase::Extract => e is Extracted,
        SignPhase::Identities => e is IdentityList,
        SignPhase::Scan => e is Scanned,
        SignPhase::AwaitProfile => e is ProfileLoaded,
        SignPhase::AwaitProvisioning => e is Provisioned,
        SignPhase::Signing => e is Signed,
        SignPhase::Install | SignPhase::Launch => e is CommandDone,
        SignPhase::Cleanup => e is CleanedUp,
        SignPhase::Done => false,
    }
}

/// After asking for `a`, the session is in `phase`.
pub open spec fn sign_leads_to(a: SignAction, phase: SignPhase) -> bool {
    match a {
        SignAction::ListDevices => phase == SignPhase::Devices,
        SignAction::Extract { .. } => phase == SignPhase::Extract,
        SignAction::ListIdentities => phase == SignPhase::Identities,
        SignAction::Scan { .. } => phase == SignPhase::Scan,
        SignAction::LoadProfile { .. } => phase == SignPhase::AwaitProfile,
        SignAction::AutoProvision { .. } => phase == SignPhase::AwaitProvisioning,
        SignAction::SignBundles => phase == SignPhase::Signing,
        SignAction::Install { .. } => phase == SignPhase::Install,
        SignAction::Launch { .. } => phase == SignPhase::Launch,
        SignAction::Cleanup { .. } => phase == SignPhase::Cleanup,
        SignAction::Finished(_) => phase == SignPhase::Done,
    }
}

/// Message of the warning when temporary profiles could not be deleted.
pub open spec fn cleanup_failed_msg(err: TossError) -> Seq<char> {
    "failed to clean temporary profiles: "@ + crate::error::error_text(err)
}

/// What an action asks for matches the session: the IPA unpacked, the
/// device addressed, the app installed, the bundle identifier launched, the
/// profiles deleted and, at the end, what is reported.
pub open spec fn sign_fits(
    a: SignAction,
    ipa: Seq<char>,
    device: (Seq<char>, Seq<char>, Seq<char>),
    app_path: Seq<char>,
    bundle_id: Seq<char>,
    launch: bool,
    cleanup: Seq<String>,
) -> bool {
    match a {
        SignAction::Extract { ipa: i } => i@ == ipa,
        SignAction::Install { device: d, app_path: p } => d@ == device.0 && p@ == app_path,
        SignAction::Launch { device: d, bundle_id: b } => d@ == device.0 && b@ == bundle_id,
        SignAction::Cleanup { paths } => paths@ == cleanup,
        SignAction::Finished(res) => res.device_id@ == device.0 && res.device_udid@ == device.1
            && res.device_name@ == device.2 && res.app_path@ == app_path && res.final_bundle_id@ == bundle_id
            && res.launched == launch,
        _ => true,
    }
}

/// Every bundle of the plan is signed with a profile usable for its final
/// identifier on the device `udid` at time `now`.
pub open spec fn plan_usable(plan: SigningPlan, udid: Seq<char>, now: u64) -> bool {
    forall|k: int| 0 <= k < plan.targets@.len() ==> target_usable(#[trigger] plan.targets@[k], udid, now)
}

/// The progress event shown when signing starts: the IPA's file name (its
/// whole path when it has none) and the device's name.
pub fn signing_event(ipa: &str, device_name: &str) -> (e: WorkflowEvent)
    ensures
        e matches WorkflowEvent::Signing { ipa_name, device_name: d } && d@ == device_name@
            && ipa_name@ == match path_file_name(ipa@) {
                Some(n) => n,
                None => ipa@,
            },
{
    let ipa_name = match file_name_of(ipa) {
        Some(n) => n,
        None => ipa.to_string(),
    };
    WorkflowEvent::Signing { ipa_name, device_name: device_name.to_string() }
}

/// What follows a progress event shown to the user, given the front end's
/// answer `w` to it: its failure is the result; otherwise the rest happens
/// (`then`).
pub open spec fn emitted_then(w: Result<(), TossError>, r: Result<SignAction, TossError>, then: bool) -> bool {
    match w {
        Err(e) => r == Err::<SignAction, TossError>(e),
        Ok(()) => then,
    }
}

/// The name an IPA is shown under: its file name, or the whole path when it
/// has none.
pub open spec fn shown_ipa_name(ipa: Seq<char>) -> Seq<char> {
    match path_file_name(ipa) {
        Some(n) => n,
        None => ipa,
    }
}

/// From log `before` to log `after`, the front end was shown that the IPA
/// at `ipa` is being signed for the device `device_name`, and nothing else
/// happened.
pub open spec fn told_signing(before: Seq<Exchange>, after: Seq<Exchange>, ipa: Seq<char>, device_name: Seq<char>) -> bool {
    &&& after.len() == before.len() + 1
    &&& after.drop_last() == before
    &&& after.last() matches Exchange::Shown { event: WorkflowEvent::Signing { ipa_name, device_name: d }, .. }
        && ipa_name@ == shown_ipa_name(ipa) && d@ == device_name
}

/// The name an unpacked app is reported under: the file name of its path,
/// or nothing when it has none.
pub open spec fn shown_app_name(app_path: Seq<char>) -> Seq<char> {
    match path_file_name(app_path) {
        Some(n) => n,
        None => Seq::empty(),
    }
}

/// The exchange shows, and the front end took, the step of the signing plan
/// for target `t`: its kind, identifiers and profile.
pub open spec fn plan_step_shown(x: Exchange, t: BundleTarget) -> bool {
    x matches Exchange::Shown {
        event: WorkflowEvent::SigningPlanStep { kind, original_bundle_id, final_bundle_id, profile_name }, answer: Ok(()) }
        && kind@ == kind_name(t.kind) && original_bundle_id == t.original_bundle_id
        && final_bundle_id == t.final_bundle_id && profile_name == t.profile.name
}

/// From log `before` to log `after`, the front end was shown the step of
/// each target of a plan, in order, and nothing else happened.
pub open spec fn plan_told(before: Seq<Exchange>, after: Seq<Exchange>, targets: Seq<BundleTarget>) -> bool {
    &&& after.len() == before.len() + targets.len()
    &&& after.take(before.len() as int) == before
    &&& forall|i: int| 0 <= i < targets.len() ==> plan_step_shown(#[trigger] after[before.len() + i], targets[i])
}

/// `r` asks to unpack the IPA at `ipa`.
pub open spec fn asks_extract(r: Result<SignAction, TossError>, ipa: Seq<char>) -> bool {
    r matches Ok(SignAction::Extract { ipa: i }) && i@ == ipa
}

/// One signing of an IPA for a device.
pub struct SignSession {
    ipa: String,
    device: Option<String>,
    identity_override: Option<String>,
    profile_override: Option<String>,
    launch: bool,
    phase: SignPhase,
    device_id: String,
    device_udid: String,
    device_name: String,
    app_path: String,
    identity: Option<SigningIdentity>,
    planner: Option<SigningPlanner>,
    plan: Option<SigningPlan>,
    main_bundle_id: String,
    pending: Option<TossError>,
    scan_time: u64,
}

impl SignSession {
    /// Where the session stands.
    pub closed spec fn phase_spec(&self) -> SignPhase {
        self.phase
    }

    /// The state is consistent: while planning, the planner is consistent
    /// and waits for a profile; once planned, the plan is kept.
    pub closed spec fn wf(&self) -> bool {
        &&& self.phase == SignPhase::AwaitProfile ==> (self.planner matches Some(p) && p.wf() && p.awaits_override())
        &&& self.phase == SignPhase::AwaitProvisioning ==> (self.planner matches Some(p) && p.wf() && p.awaits_provisioning())
        &&& (self.phase == SignPhase::Signing || self.phase == SignPhase::Install || self.phase == SignPhase::Launch
            || self.phase == SignPhase::Cleanup) ==> self.plan is Some
        &&& self.phase == SignPhase::Scan ==> self.identity is Some
        &&& (self.phase == SignPhase::Start || self.phase == SignPhase::Devices || self.phase == SignPhase::Extract
            || self.phase == SignPhase::Identities || self.phase == SignPhase::Scan) ==> self.planner is None && self.plan is None
        &&& self.planner matches Some(p) ==> p.device_udid_spec() == self.device_udid@ && p.now_spec() == self.scan_time
        &&& self.plan matches Some(p) ==> plan_usable(p, self.device_udid@, self.scan_time)
    }

    /// The IPA signed.
    pub closed spec fn ipa_spec(&self) -> Seq<char> {
        self.ipa@
    }

    /// The device named by the caller, if any.
    pub closed spec fn requested_device_spec(&self) -> Option<Seq<char>> {
        match self.device {
            Some(d) => Some(d@),
            None => None,
        }
    }

    /// The signing identity named by the caller, if any.
    pub closed spec fn requested_identity_spec(&self) -> Option<Seq<char>> {
        match self.identity_override {
            Some(q) => Some(q@),
            None => None,
        }
    }

    /// Whether the app is launched after the install.
    pub closed spec fn launch_spec(&self) -> bool {
        self.launch
    }

    /// The device signed for: identifier, UDID and name (once known).
    pub closed spec fn device_spec(&self) -> (Seq<char>, Seq<char>, Seq<char>) {
        (self.device_id@, self.device_udid@, self.device_name@)
    }

    /// The app's path inside the unpacked IPA (once known).
    pub closed spec fn app_path_spec(&self) -> Seq<char> {
        self.app_path@
    }

    /// The main app's final bundle identifier (once planned).
    pub closed spec fn bundle_spec(&self) -> Seq<char> {
        self.main_bundle_id@
    }

    /// The time (seconds since the epoch) profiles are judged by, once the
    /// app is scanned.
    pub closed spec fn scan_time_spec(&self) -> u64 {
        self.scan_time
    }

    /// The temporary profiles to delete (once planned).
    pub closed spec fn cleanup_spec(&self) -> Seq<String> {
        match self.plan {
            Some(p) => p.cleanup_profiles@,
            None => Seq::empty(),
        }
    }

    spec fn keeps(&self, other: SignSession) -> bool {
        &&& self.ipa == other.ipa
        &&& self.device == other.device
        &&& self.identity_override == other.identity_override
        &&& self.launch == other.launch
        &&& self.device_id == other.device_id
        &&& self.device_udid == other.device_udid
        &&& self.device_name == other.device_name
        &&& self.app_path == other.app_path
    }

    /// A session signing the IPA at `ipa` for the device named by `device`
    /// (else the default or only one), with the identity and profile named
    /// on the command line, if any, launching the app afterwards if asked.
    pub fn new(ipa: &str, device: Option<&str>, identity: Option<&str>, profile: Option<&str>, launch: bool) -> (s: Self)
        ensures
            s.wf(),
            s.phase_spec() == SignPhase::Start,
            s.ipa_spec() == ipa@,
            s.requested_device_spec() == (match device { Some(d) => Some(d@), None => None }),
            s.requested_identity_spec() == (match identity { Some(q) => Some(q@), None => None }),
            s.launch_spec() == launch,
            !s.failed(),
    {
        SignSession {
            ipa: ipa.to_string(),
            device: match device { Some(d) => Some(d.to_string()), None => None },
            identity_override: match identity { Some(d) => Some(d.to_string()), None => None },
            profile_override: match profile { Some(d) => Some(d.to_string()), None => None },
            launch,
            phase: SignPhase::Start,
            device_id: String::new(),
            device_udid: String::new(),
            device_name: String::new(),
            app_path: String::new(),
            identity: None,
            planner: None,
            plan: None,
            main_bundle_id: String::new(),
            pending: None,
            scan_time: 0,
        }
    }

    /// A step after signing began failed; the failure is reported once the
    /// temporary profiles are deleted.
    pub closed spec fn failed(&self) -> bool {
        self.pending is Some
    }

    /// The plan to sign with, once made.
    pub closed spec fn plan_spec(&self) -> Option<SigningPlan> {
        self.plan
    }

    /// The identity to sign with, once chosen.
    pub closed spec fn identity_spec(&self) -> Option<SigningIdentity> {
        self.identity
    }

    /// The plan to sign with, once made.
    pub fn plan(&self) -> (r: Option<&SigningPlan>)
        ensures
            match r {
                Some(p) => self.plan_spec() == Some(*p),
                None => self.plan_spec() is None,
            },
            (self.phase_spec() == SignPhase::Signing) ==> (self.wf() ==> r is Some),
    {
        match &self.plan {
            Some(p) => Some(p),
            None => None,
        }
    }

    /// The identity to sign with, once chosen.
    pub fn identity(&self) -> (r: Option<&SigningIdentity>)
        ensures
            match r {
                Some(i) => self.identity_spec() == Some(*i),
                None => self.identity_spec() is None,
            },
    {
        match &self.identity {
            Some(i) => Some(i),
            None => None,
        }
    }

    /// The app's path inside the unpacked IPA.
    pub fn app_path(&self) -> (r: &str)
        ensures
            r@ == self.app_path_spec(),
    {
        self.app_path.as_str()
    }

    /// Turns what the planner asks for into the session's next action.
    fn after_planner<A: WorkflowAdapter>(&mut self, step: Result<PlannerAction, TossError>, adapter: &mut A) -> (r: Result<SignAction, TossError>)
        requires
            old(self).phase == SignPhase::Done,
            old(self).planner matches Some(p) && p.wf(),
            step matches Ok(PlannerAction::LoadOverride { .. }) ==> old(self).planner->0.awaits_override(),
            step matches Ok(PlannerAction::AutoProvision { .. }) ==> old(self).planner->0.awaits_provisioning(),
            old(self).planner->0.device_udid_spec() == old(self).device_udid@,
            old(self).planner->0.now_spec() == old(self).scan_time,
            old(self).plan matches Some(p) ==> plan_usable(p, old(self).device_udid@, old(self).scan_time),
            step matches Ok(PlannerAction::Finished(plan)) ==> plan_usable(plan, old(self).device_udid@, old(self).scan_time),
        ensures
            final(self).wf(),
            final(self).pending == old(self).pending,
            r matches Ok(a) ==> sign_leads_to(a, final(self).phase) && !(a is Finished),
            final(self).keeps(*old(self)),
            r matches Ok(a) ==> sign_fits(a, final(self).ipa_spec(), final(self).device_spec(), final(self).app_path_spec(),
                final(self).bundle_spec(), final(self).launch_spec(), final(self).cleanup_spec()),
            match step {
                Err(e) => r == Err::<SignAction, TossError>(e),
                Ok(PlannerAction::LoadOverride { path }) => (r matches Ok(SignAction::LoadProfile { path: q }) && q == path),
                Ok(PlannerAction::AutoProvision { kind, bundle_id, team_id, device_udid }) => (r matches Ok(
                    SignAction::AutoProvision { kind: k, bundle_id: b, team_id: t, device_udid: u })
                    && k == kind && b == bundle_id && t == team_id && u == device_udid),
                Ok(PlannerAction::Finished(plan)) => {
                    &&& r is Ok ==> plan_told(old(adapter).log(), final(adapter).log(), plan.targets@)
                    &&& r is Ok ==> (r matches Ok(SignAction::SignBundles) && final(self).plan == Some(plan)
                        && exists|i: int| 0 <= i < plan.targets@.len() && #[trigger] plan.targets@[i].path@ == old(self).app_path@
                            && final(self).main_bundle_id@ == plan.targets@[i].final_bundle_id@)
                    &&& (forall|i: int| 0 <= i < plan.targets@.len() ==> #[trigger] plan.targets@[i].path@ != old(self).app_path@)
                        ==> r is Err
                },
            },
    {
        let action = match step {
            Ok(a) => a,
            Err(e) => return Err(e),
        };
        match action {
            PlannerAction::LoadOverride { path } => {
                self.phase = SignPhase::AwaitProfile;
                Ok(SignAction::LoadProfile { path })
            },
            PlannerAction::AutoProvision { kind, bundle_id, team_id, device_udid } => {
                self.phase = SignPhase::AwaitProvisioning;
                Ok(SignAction::AutoProvision { kind, bundle_id, team_id, device_udid })
            },
            PlannerAction::Finished(plan) => {
                let ghost start = adapter.log();
                let mut i: usize = 0;
                while i < plan.targets.len()
                    invariant
                        i <= plan.targets@.len(),
                        self.phase == SignPhase::Done,
                        self.wf(),
                        step matches Ok(PlannerAction::Finished(_)),
                        adapter.log().len() == start.len() + i,
                        adapter.log().take(start.len() as int) == start,
                        forall|j: int| 0 <= j < i ==> plan_step_shown(#[trigger] adapter.log()[start.len() + j], plan.targets@[j]),
                    decreases plan.targets@.len() - i,
                {
                    let t = &plan.targets[i];
                    let ghost before = adapter.log();
                    let w = adapter.emit(WorkflowEvent::SigningPlanStep {
                        kind: t.kind.display_name().to_string(),
                        original_bundle_id: t.original_bundle_id.clone(),
                        final_bundle_id: t.final_bundle_id.clone(),
                        profile_name: t.profile.name.clone(),
                    });
                    if let Err(e) = w {
                        return Err(e);
                    }
                    proof {
                        assert(adapter.log().take(start.len() as int) =~= before.take(start.len() as int));
                        assert forall|j: int| 0 <= j < i + 1 implies plan_step_shown(#[trigger] adapter.log()[start.len() + j],
                            plan.targets@[j]) by {
                            if j < i {
                                assert(adapter.log()[start.len() + j] == before[start.len() + j]);
                            }
                        }
                    }
                    i = i + 1;
                }
                let main = match main_bundle_id(&plan, self.app_path.as_str()) {
                    Ok(m) => m,
                    Err(e) => return Err(e),
                };
                self.main_bundle_id = main;
                self.plan = Some(plan);
                self.phase = SignPhase::Signing;
                Ok(SignAction::SignBundles)
            },
        }
    }

    /// Starts deleting the temporary profiles (also after a failure, which
    /// is reported once they are gone).
    fn cleanup(&mut self) -> (a: SignAction)
        requires
            old(self).wf(),
            old(self).plan is Some,
        ensures
            final(self).wf(),
            final(self).pending == old(self).pending,
            final(self).phase == SignPhase::Cleanup,
            a matches SignAction::Cleanup { paths } && paths@ == old(self).plan->0.cleanup_profiles@,
            final(self).keeps(*old(self)),
            final(self).plan == old(self).plan,
            final(self).main_bundle_id == old(self).main_bundle_id,
    {
        self.phase = SignPhase::Cleanup;
        let paths = match &self.plan {
            Some(p) => {
                let mut v: Vec<String> = Vec::new();
                let mut i: usize = 0;
                while i < p.cleanup_profiles.len()
                    invariant
                        i <= p.cleanup_profiles@.len(),
                        v@ == p.cleanup_profiles@.subrange(0, i as int),
                    decreases p.cleanup_profiles@.len() - i,
                {
                    v.push(p.cleanup_profiles[i].clone());
                    assert(p.cleanup_profiles@.subrange(0, i + 1) =~= p.cleanup_profiles@.subrange(0, i as int).push(p.cleanup_profiles@[i as int]));
                    i = i + 1;
                }
                assert(p.cleanup_profiles@.subrange(0, p.cleanup_profiles@.len() as int) =~= p.cleanup_profiles@);
                v
            },
            None => Vec::new(),
        };
        SignAction::Cleanup { paths }
    }

    /// Takes the next step, given what the caller's last action gave.
    #[verifier::rlimit(40)]
    pub fn advance<A: WorkflowAdapter>(&mut self, config: &Config, event: SignEvent, adapter: &mut A) -> (r: Result<SignAction, TossError>)
        requires
            old(self).wf(),
            sign_awaited(old(self).phase_spec(), event),
        ensures
            final(self).wf(),
            r matches Ok(a) ==> sign_leads_to(a, final(self).phase_spec()),
            old(self).phase_spec() == SignPhase::Signing || old(self).phase_spec() == SignPhase::Install
                || old(self).phase_spec() == SignPhase::Launch ==> r is Ok,
            r matches Ok(SignAction::Finished(res)) ==> !old(self).failed(),
            old(self).phase_spec() == SignPhase::Cleanup && old(self).failed() ==> r is Err,
            final(self).plan_spec() matches Some(p) ==> plan_usable(p, final(self).device_spec().1, final(self).scan_time_spec()),
            final(self).ipa_spec() == old(self).ipa_spec(),
            final(self).requested_device_spec() == old(self).requested_device_spec(),
            final(self).requested_identity_spec() == old(self).requested_identity_spec(),
            final(self).launch_spec() == old(self).launch_spec(),
            old(self).phase_spec() != SignPhase::Devices ==> final(self).device_spec() == old(self).device_spec(),
            old(self).phase_spec() != SignPhase::Extract ==> final(self).app_path_spec() == old(self).app_path_spec(),
            (old(self).phase_spec() == SignPhase::Install || old(self).phase_spec() == SignPhase::Launch
                || old(self).phase_spec() == SignPhase::Cleanup) ==> final(self).bundle_spec() == old(self).bundle_spec()
                && final(self).cleanup_spec() == old(self).cleanup_spec(),
            r matches Ok(a) ==> sign_fits(a, final(self).ipa_spec(), final(self).device_spec(), final(self).app_path_spec(),
                final(self).bundle_spec(), final(self).launch_spec(), final(self).cleanup_spec()),
            old(self).phase_spec() == SignPhase::Signing ==> (r matches Ok(a) && (a is Install || (a is Cleanup && final(self).failed()))
                && (event matches SignEvent::Signed(Err(_)) ==> a is Cleanup)),
            old(self).phase_spec() == SignPhase::Install ==> (r matches Ok(a)
                && (a is Launch ==> final(self).launch_spec())
                && (a is Launch || a is Cleanup)
                && (event matches SignEvent::CommandDone(Err(_)) ==> a is Cleanup && final(self).failed())
                && (event matches SignEvent::CommandDone(Ok(_)) && final(self).launch_spec() ==> a is Launch || final(self).failed())),
            old(self).phase_spec() == SignPhase::Launch ==> (r matches Ok(a) && a is Cleanup
                && (event matches SignEvent::CommandDone(Err(_)) ==> final(self).failed())),
            old(self).phase_spec() == SignPhase::Cleanup && !old(self).failed() && r is Ok ==> r matches Ok(SignAction::Finished(_)),
            old(self).phase_spec() == SignPhase::Devices && r is Ok ==> (event matches SignEvent::Devices(devs)
                && (final(self).device_spec().1, final(self).device_spec().2) == device_details(devs@, final(self).device_spec().0)
                && exists|i: int| 0 <= i < devs@.len() && #[trigger] devs@[i].identifier@ == final(self).device_spec().0),
            old(self).phase_spec() == SignPhase::Devices ==> (event matches SignEvent::Devices(devs)
                && (old(self).requested_device_spec() matches Some(f) ==> match device_resolution(f, config.devices.aliases@, devs@) {
                    Ok(i) => final(self).device_spec().0 == devs@[i].identifier@
                        && emitted_then(last_reply(final(adapter).log()), r, asks_extract(r, old(self).ipa_spec())),
                    Err(m) => r matches Err(TossError::Device(e)) && e@ == m,
                })),
            old(self).phase_spec() == SignPhase::Devices ==> (event matches SignEvent::Devices(devs)
                && exists|mid: Seq<Exchange>, s: Result<String, TossError>|
                    #[trigger] device_selected(old(self).requested_device_spec(), *config, devs@, old(adapter).log(), mid, s)
                    && match s {
                        Err(e) => final(adapter).log() == mid && r == Err::<SignAction, TossError>(e),
                        Ok(id) => id@ == final(self).device_spec().0
                            && told_signing(mid, final(adapter).log(), old(self).ipa_spec(), final(self).device_spec().2)
                            && emitted_then(last_reply(final(adapter).log()), r, asks_extract(r, old(self).ipa_spec())),
                    }),
            old(self).phase_spec() == SignPhase::Extract ==> match event {
                SignEvent::Extracted { app_path, bundle_id } => {
                    &&& final(adapter).log().len() == old(adapter).log().len() + 1
                    &&& final(adapter).log().drop_last() == old(adapter).log()
                    &&& final(adapter).log().last() matches Exchange::Shown {
                        event: WorkflowEvent::ExtractedBundle { bundle_id: b, app_name: n }, answer }
                        && b == bundle_id && n@ == shown_app_name(app_path@)
                        && (answer matches Err(e) ==> r == Err::<SignAction, TossError>(e))
                },
                _ => false,
            },
            r matches Ok(SignAction::SignBundles) ==> (final(self).plan_spec() matches Some(p)
                && exists|mid: Seq<Exchange>| #[trigger] plan_told(mid, final(adapter).log(), p.targets@)),
            old(self).phase_spec() == SignPhase::Cleanup ==> match event {
                SignEvent::CleanedUp(Ok(())) => match old(self).plan_spec() {
                    Some(p) if p.cleanup_profiles@.len() > 0 => {
                        &&& final(adapter).log().len() == old(adapter).log().len() + 1
                        &&& final(adapter).log().drop_last() == old(adapter).log()
                        &&& final(adapter).log().last() matches Exchange::Shown {
                            event: WorkflowEvent::CleanedTemporaryProfiles { count }, .. } && count == p.cleanup_profiles@.len()
                    },
                    _ => final(adapter).log() == old(adapter).log(),
                },
                SignEvent::CleanedUp(Err(err)) => warns(old(adapter).log(), final(adapter).log(),
                    "failed to clean temporary profiles: "@ + error_text(err)),
                _ => false,
            },
            old(self).phase_spec() == SignPhase::Identities ==> match event {
                SignEvent::IdentityList(output) => if identities_in(text_lines(output@)).len() == 0 {
                    final(adapter).log() == old(adapter).log()
                        && (r matches Err(TossError::Signing(m)) && m@ == no_identities_msg())
                } else {
                    exists|ids: Seq<SigningIdentity>, mid: Seq<Exchange>, s: Result<SigningIdentity, TossError>|
                        identity_views(ids) == identities_in(text_lines(output@))
                        && #[trigger] identity_selection(ids, old(self).requested_identity_spec(), old(adapter).log(), mid, s)
                        && match s {
                            Err(e) => final(adapter).log() == mid && r == Err::<SignAction, TossError>(e),
                            Ok(id) => {
                                &&& final(adapter).log().len() == mid.len() + 1
                                &&& final(adapter).log().drop_last() == mid
                                &&& final(adapter).log().last() matches Exchange::Shown {
                                    event: WorkflowEvent::UsingIdentity { identity_name: n }, answer }
                                    && n == id.name && match answer {
                                        Err(e) => r == Err::<SignAction, TossError>(e),
                                        Ok(()) => r matches Ok(SignAction::Scan { .. }),
                                    }
                            },
                        }
                },
                _ => false,
            },
            old(self).phase_spec() == SignPhase::Signing ==> match event {
                SignEvent::Signed(Ok(_)) => {
                    &&& final(adapter).log().len() == old(adapter).log().len() + 1
                    &&& final(adapter).log().drop_last() == old(adapter).log()
                    &&& final(adapter).log().last() matches Exchange::Shown {
                        event: WorkflowEvent::Installing { app_path: a, device_name: d }, answer }
                        && a@ == old(self).app_path_spec() && d@ == old(self).device_spec().0
                        && (answer is Ok <==> r matches Ok(SignAction::Install { .. }))
                },
                _ => final(adapter).log() == old(adapter).log(),
            },
            old(self).phase_spec() == SignPhase::Install && old(self).launch_spec() ==> match event {
                SignEvent::CommandDone(Ok(_)) => {
                    &&& final(adapter).log().len() == old(adapter).log().len() + 1
                    &&& final(adapter).log().drop_last() == old(adapter).log()
                    &&& final(adapter).log().last() matches Exchange::Shown {
                        event: WorkflowEvent::Launching { bundle_id: b, device_name: d }, answer }
                        && b@ == old(self).bundle_spec() && d@ == old(self).device_spec().0
                        && (answer is Ok <==> r matches Ok(SignAction::Launch { .. }))
                },
                _ => final(adapter).log() == old(adapter).log(),
            },
    {
        match event {
            SignEvent::Begin => {
                self.phase = SignPhase::Devices;
                Ok(SignAction::ListDevices)
            },
            SignEvent::Devices(devices) => {
                let device = match &self.device {
                    Some(d) => Some(d.as_str()),
                    None => None,
                };
                let ghost before = adapter.log();
                let (id, udid, name) = match resolve_device(device, config, devices.as_slice(), adapter) {
                    Ok(t) => t,
                    Err(e) => {
                        assert(device_selected(old(self).requested_device_spec(), *config, devices@, before, adapter.log(),
                            Err::<String, TossError>(e)));
                        return Err(e);
                    },
                };
                let ghost mid = adapter.log();
                let ghost sel = Ok::<String, TossError>(id);
                assert(device_selected(old(self).requested_device_spec(), *config, devices@, before, mid, sel));
                self.device_id = id;
                self.device_udid = udid;
                self.device_name = name;
                let w = adapter.emit(signing_event(self.ipa.as_str(), self.device_name.as_str()));
                assert(adapter.log().drop_last() =~= mid);
                if let Err(e) = w {
                    assert(emitted_then(Err(e), Err::<SignAction, TossError>(e), asks_extract(Err::<SignAction, TossError>(e), old(self).ipa_spec())));
                    return Err(e);
                }
                self.phase = SignPhase::Extract;
                let r = Ok(SignAction::Extract { ipa: self.ipa.clone() });
                assert(emitted_then(Ok(()), r, asks_extract(r, old(self).ipa_spec())));
                r
            },
            SignEvent::Extracted { app_path, bundle_id } => {
                self.app_path = app_path;
                let app_name = match file_name_of(self.app_path.as_str()) {
                    Some(n) => n,
                    None => String::new(),
                };
                let ghost before = adapter.log();
                let w = adapter.emit(WorkflowEvent::ExtractedBundle { bundle_id, app_name });
                assert(adapter.log().drop_last() =~= before);
                if let Err(e) = w {
                    return Err(e);
                }
                self.phase = SignPhase::Identities;
                Ok(SignAction::ListIdentities)
            },
            SignEvent::IdentityList(output) => {
                let identities = match parse_signing_identities(output.as_str()) {
                    Ok(i) => i,
                    Err(e) => return Err(e),
                };
                let query = match &self.identity_override {
                    Some(q) => Some(q.as_str()),
                    None => None,
                };
                let ghost before = adapter.log();
                let identity = match select_signing_identity(identities.as_slice(), query, adapter) {
                    Ok(i) => i,
                    Err(e) => {
                        assert(identity_selection(identities@, old(self).requested_identity_spec(), before, adapter.log(),
                            Err::<SigningIdentity, TossError>(e)));
                        return Err(e);
                    },
                };
                let ghost mid = adapter.log();
                let ghost picked = Ok::<SigningIdentity, TossError>(identity);
                assert(identity_selection(identities@, old(self).requested_identity_spec(), before, mid, picked));
                let w = adapter.emit(WorkflowEvent::UsingIdentity { identity_name: identity.name.clone() });
                assert(adapter.log().drop_last() =~= mid);
                if let Err(e) = w {
                    return Err(e);
                }
                self.identity = Some(identity);
                self.phase = SignPhase::Scan;
                Ok(SignAction::Scan { app_path: self.app_path.clone() })
            },
            SignEvent::Scanned { bundles, profiles, now } => {
                let identity = self.identity.as_ref().unwrap().duplicate();
                let planner = match SigningPlanner::new(bundles, profiles, identity, self.device_udid.clone(),
                    crate::config::clone_opt(&self.profile_override), now) {
                    Ok(p) => p,
                    Err(e) => return Err(e),
                };
                let mut planner = planner;
                let step = planner.advance(config, PlannerEvent::Begin, adapter);
                self.scan_time = now;
                self.planner = Some(planner);
                self.phase = SignPhase::Done;
                let ghost mid = adapter.log();
                let r = self.after_planner(step, adapter);
                assert(r matches Ok(SignAction::SignBundles) ==> plan_told(mid, adapter.log(), self.plan->0.targets@));
                r
            },
            SignEvent::ProfileLoaded(profile) => {
                let mut planner = self.planner.take().unwrap();
                let step = planner.advance(config, PlannerEvent::OverrideLoaded(profile), adapter);
                self.planner = Some(planner);
                self.phase = SignPhase::Done;
                let ghost mid = adapter.log();
                let r = self.after_planner(step, adapter);
                assert(r matches Ok(SignAction::SignBundles) ==> plan_told(mid, adapter.log(), self.plan->0.targets@));
                r
            },
            SignEvent::Provisioned(profiles) => {
                let mut planner = self.planner.take().unwrap();
                let step = planner.advance(config, PlannerEvent::Provisioned(profiles), adapter);
                self.planner = Some(planner);
                self.phase = SignPhase::Done;
                let ghost mid = adapter.log();
                let r = self.after_planner(step, adapter);
                assert(r matches Ok(SignAction::SignBundles) ==> plan_told(mid, adapter.log(), self.plan->0.targets@));
                r
            },
            SignEvent::Signed(outcome) => {
                if let Err(e) = outcome {
                    self.pending = Some(e);
                    return Ok(self.cleanup());
                }
                let ghost before = adapter.log();
                let w = adapter.emit(WorkflowEvent::Installing {
                    app_path: self.app_path.clone(),
                    device_name: self.device_id.clone(),
                });
                assert(adapter.log().drop_last() =~= before);
                if let Err(e) = w {
                    self.pending = Some(e);
                    return Ok(self.cleanup());
                }
                self.phase = SignPhase::Install;
                Ok(SignAction::Install { device: self.device_id.clone(), app_path: self.app_path.clone() })
            },
            SignEvent::CommandDone(outcome) => {
                if let Err(e) = outcome {
                    self.pending = Some(e);
                    return Ok(self.cleanup());
                }
                if self.phase == SignPhase::Install && self.launch {
                    let ghost before = adapter.log();
                    let w = adapter.emit(WorkflowEvent::Launching {
                        bundle_id: self.main_bundle_id.clone(),
                        device_name: self.device_id.clone(),
                    });
                    assert(adapter.log().drop_last() =~= before);
                    if let Err(e) = w {
                        self.pending = Some(e);
                        return Ok(self.cleanup());
                    }
                    self.phase = SignPhase::Launch;
                    return Ok(SignAction::Launch { device: self.device_id.clone(), bundle_id: self.main_bundle_id.clone() });
                }
                Ok(self.cleanup())
            },
            SignEvent::CleanedUp(outcome) => {
                let count = match &self.plan {
                    Some(p) => p.cleanup_profiles.len(),
                    None => 0,
                };
                let ghost before = adapter.log();
                match outcome {
                    Ok(()) => {
                        if count > 0 {
                            let w = adapter.emit(WorkflowEvent::CleanedTemporaryProfiles { count });
                            assert(adapter.log().drop_last() =~= before);
                            if let Err(e) = w {
                                self.phase = SignPhase::Done;
                                return Err(e);
                            }
                        }
                    },
                    Err(err) => {
                        let m = crate::text::concat("failed to clean temporary profiles: ", err.message().as_str());
                        let w = adapter.emit(WorkflowEvent::Warning { message: m });
                        assert(adapter.log().drop_last() =~= before);
                        if let Err(e) = w {
                            self.phase = SignPhase::Done;
                            return Err(e);
                        }
                    },
                }
                self.phase = SignPhase::Done;
                if let Some(e) = self.pending.take() {
                    return Err(e);
                }
                let outcome = SignOutcome {
                    app_path: self.app_path.clone(),
                    final_bundle_id: self.main_bundle_id.clone(),
                    launched: self.launch,
                };
                Ok(SignAction::Finished(SignResult {
                    device_id: self.device_id.clone(),
                    device_udid: self.device_udid.clone(),
                    device_name: self.device_name.clone(),
                    app_path: outcome.app_path,
                    final_bundle_id: outcome.final_bundle_id,
                    launched: outcome.launched,
                }))
            },
        }
    }
}

/// Starts `sign`: re-sign an IPA for a device and install it (and launch
/// it, if asked).
pub fn sign_ipa(ipa: &str, device: Option<&str>, identity: Option<&str>, profile: Option<&str>, launch: bool) -> (s: SignSession)
    ensures
        s.wf(),
        s.phase_spec() == SignPhase::Start,
        s.ipa_spec() == ipa@,
        s.requested_device_spec() == (match device { Some(d) => Some(d@), None => None }),
        s.requested_identity_spec() == (match identity { Some(q) => Some(q@), None => None }),
        s.launch_spec() == launch,
        !s.failed(),
{
    SignSession::new(ipa, device, identity, profile, launch)
}

} // verus!
