//! The reconciliation engine: from a manifest identity and the registry's
//! answers, decide whether to skip, install, or remove and reinstall, then
//! optionally launch.
//!
//! The host performs each requested registry or launch action and hands the
//! engine the corresponding event.
use vstd::prelude::*;
use crate::edition::{app_user_model_id_spec, edition_named, shell_target_spec, Edition};
use crate::manifest::PackageIdentity;
use crate::text::str_equal;

verus! {

/// What the registry reports of an installed package.
#[derive(Debug)]
pub struct InstalledPackageInfo {
    pub version: String,
    pub family_name: String,
    pub full_name: String,
}

/// What the registry reports after a removal.
#[derive(Debug)]
pub struct RemovalReport {
    pub error_text: Option<String>,
    pub extended_error_code: Option<i32>,
    pub is_registered: bool,
}

/// A failed registry operation.
#[derive(Clone, Copy, Debug, PartialEq, Eq, Structural)]
pub enum ServiceError {
    Query,
    Register,
    Remove,
}

/// A failed launch.
#[derive(Clone, Copy, Debug, PartialEq, Eq, Structural)]
pub enum LaunchError {
    NotFound,
    SpawnFailed,
}

/// Why a reconciliation ended without reaching its goal.
#[derive(Clone, Copy, Debug, PartialEq, Eq, Structural)]
pub enum ReconcileError {
    /// The manifest names no supported edition.
    UnknownPackage,
    /// A registry operation failed.
    Service(ServiceError),
    /// The registry still reports the package as registered after removal.
    StillRegistered,
}

/// The course taken for one invocation.
#[derive(Clone, Copy, Debug, PartialEq, Eq, Structural)]
pub enum ReconciliationDecision {
    /// The installed version matches: nothing to install.
    StartOnly { edition: Edition, launch: bool },
    /// Nothing is installed: register the manifest.
    InstallFresh { edition: Edition, launch: bool },
    /// Another version is installed: remove it, then register the manifest.
    RemoveThenReinstall { edition: Edition, launch: bool },
}

/// The decision for a manifest of `version`, given the version the registry
/// reports as installed (`None`: not installed).
pub open spec fn decide_spec(
    edition: Edition,
    version: Seq<char>,
    installed: Option<Seq<char>>,
    auto_start: bool,
) -> ReconciliationDecision {
    match installed {
        None => ReconciliationDecision::InstallFresh { edition, launch: auto_start },
        Some(v) => if v == version {
            ReconciliationDecision::StartOnly { edition, launch: auto_start }
        } else {
            ReconciliationDecision::RemoveThenReinstall { edition, launch: auto_start }
        },
    }
}

pub open spec fn installed_version(installed: Option<InstalledPackageInfo>) -> Option<Seq<char>> {
    match installed {
        None => None,
        Some(info) => Some(info.version@),
    }
}

/// Decides the course for a manifest of `manifest_version` against what the
/// registry reports as installed. Versions are compared as exact strings.
pub fn decide(
    edition: Edition,
    manifest_version: &str,
    installed: &Option<InstalledPackageInfo>,
    auto_start: bool,
) -> (r: ReconciliationDecision)
    ensures
        r == decide_spec(edition, manifest_version@, installed_version(*installed), auto_start),
{
    match installed {
        None => ReconciliationDecision::InstallFresh { edition, launch: auto_start },
        Some(info) => if str_equal(info.version.as_str(), manifest_version) {
            ReconciliationDecision::StartOnly { edition, launch: auto_start }
        } else {
            ReconciliationDecision::RemoveThenReinstall { edition, launch: auto_start }
        },
    }
}

/// What the engine waits for.
#[derive(Clone, Copy, Debug)]
pub enum Phase {
    AwaitQuery,
    AwaitRemoval,
    AwaitRegistration(ReconciliationDecision),
    AwaitLaunch(ReconciliationDecision),
    Done(Result<ReconciliationDecision, ReconcileError>),
}

/// What the host is asked to do next.
#[derive(Debug)]
pub enum RegistryAction {
    /// Query the installed package by application user model id.
    Query(String),
    /// Remove the installed package by full name, keeping application data.
    Remove(String),
    /// Register the package whose manifest is at this path.
    Register(String),
    /// Launch with this shell activation argument.
    Launch(String),
    /// The invocation is over.
    Finish(Result<ReconciliationDecision, ReconcileError>),
}

/// The answer to the last action.
#[derive(Debug)]
pub enum RegistryEvent {
    Queried(Result<Option<InstalledPackageInfo>, ServiceError>),
    Removed(Result<RemovalReport, ServiceError>),
    Registered(Result<(), ServiceError>),
    Launched(Result<(), LaunchError>),
}

pub open spec fn launch_requested(d: ReconciliationDecision) -> bool {
    match d {
        ReconciliationDecision::StartOnly { launch, .. } => launch,
        ReconciliationDecision::InstallFresh { launch, .. } => launch,
        ReconciliationDecision::RemoveThenReinstall { launch, .. } => launch,
    }
}

pub open spec fn decision_edition(d: ReconciliationDecision) -> Edition {
    match d {
        ReconciliationDecision::StartOnly { edition, .. } => edition,
        ReconciliationDecision::InstallFresh { edition, .. } => edition,
        ReconciliationDecision::RemoveThenReinstall { edition, .. } => edition,
    }
}

/// A decision made for this edition under this auto-start setting.
pub open spec fn decision_fits(d: ReconciliationDecision, edition: Edition, auto_start: bool) -> bool {
    decision_edition(d) == edition && launch_requested(d) == auto_start
}

/// The decision a phase holds was made for the reconciler's own edition and
/// auto-start setting, and a phase that waits on a launch holds a decision
/// that asks for one.
pub open spec fn phase_consistent(edition: Edition, auto_start: bool, phase: Phase) -> bool {
    match phase {
        Phase::AwaitRegistration(d) => decision_fits(d, edition, auto_start),
        Phase::AwaitLaunch(d) => decision_fits(d, edition, auto_start) && launch_requested(d),
        Phase::Done(Ok(d)) => decision_fits(d, edition, auto_start),
        _ => true,
    }
}

/// After the install step of `d` (or none, for `StartOnly`): launch or finish.
pub open spec fn after_install(d: ReconciliationDecision) -> Phase {
    if launch_requested(d) {
        Phase::AwaitLaunch(d)
    } else {
        Phase::Done(Ok(d))
    }
}

pub open spec fn query_result(r: Result<Option<InstalledPackageInfo>, ServiceError>) -> Option<InstalledPackageInfo> {
    match r {
        Ok(Some(info)) => Some(info),
        _ => None,
    }
}

/// One transition of the engine. An event that does not answer the pending
/// action leaves the phase as it is.
pub open spec fn advance_spec(
    edition: Edition,
    version: Seq<char>,
    auto_start: bool,
    phase: Phase,
    event: RegistryEvent,
) -> Phase {
    match (phase, event) {
        (Phase::AwaitQuery, RegistryEvent::Queried(r)) => {
            let d = decide_spec(edition, version, installed_version(query_result(r)), auto_start);
            match d {
                ReconciliationDecision::StartOnly { .. } => after_install(d),
                ReconciliationDecision::InstallFresh { .. } => Phase::AwaitRegistration(d),
                ReconciliationDecision::RemoveThenReinstall { .. } => Phase::AwaitRemoval,
            }
        },
        (Phase::AwaitRemoval, RegistryEvent::Removed(r)) => match r {
            Err(_) => Phase::Done(Err(ReconcileError::Service(ServiceError::Remove))),
            Ok(report) => if report.is_registered {
                Phase::Done(Err(ReconcileError::StillRegistered))
            } else {
                Phase::AwaitRegistration(
                    ReconciliationDecision::RemoveThenReinstall { edition, launch: auto_start },
                )
            },
        },
        (Phase::AwaitRegistration(d), RegistryEvent::Registered(r)) => match r {
            Err(_) => Phase::Done(Err(ReconcileError::Service(ServiceError::Register))),
            Ok(_) => after_install(d),
        },
        (Phase::AwaitLaunch(d), RegistryEvent::Launched(_)) => Phase::Done(Ok(d)),
        _ => phase,
    }
}

/// The full name of the installed package, kept from the query for removal.
pub open spec fn full_name_after(old_name: Seq<char>, phase: Phase, event: RegistryEvent) -> Seq<char> {
    match (phase, event) {
        (Phase::AwaitQuery, RegistryEvent::Queried(Ok(Some(info)))) => info.full_name@,
        _ => old_name,
    }
}

/// Whether `a` is the action that `phase` waits on.
pub open spec fn announces(
    a: RegistryAction,
    edition: Edition,
    manifest_path: Seq<char>,
    full_name: Seq<char>,
    phase: Phase,
) -> bool {
    match phase {
        Phase::AwaitQuery => a matches RegistryAction::Query(id) && id@ == app_user_model_id_spec(edition),
        Phase::AwaitRemoval => a matches RegistryAction::Remove(n) && n@ == full_name,
        Phase::AwaitRegistration(_) => a matches RegistryAction::Register(p) && p@ == manifest_path,
        Phase::AwaitLaunch(_) => a matches RegistryAction::Launch(t) && t@ == shell_target_spec(edition),
        Phase::Done(r) => a == RegistryAction::Finish(r),
    }
}

/// The phase reached after a sequence of events.
pub open spec fn phase_after(
    edition: Edition,
    version: Seq<char>,
    auto_start: bool,
    phase: Phase,
    events: Seq<RegistryEvent>,
) -> Phase
    decreases events.len(),
{
    if events.len() == 0 {
        phase
    } else {
        let next = advance_spec(edition, version, auto_start, phase, events[0]);
        phase_after(edition, version, auto_start, next, events.drop_first())
    }
}

proof fn lemma_done_stays(
    edition: Edition,
    version: Seq<char>,
    auto_start: bool,
    r: Result<ReconciliationDecision, ReconcileError>,
    events: Seq<RegistryEvent>,
)
    ensures
        phase_after(edition, version, auto_start, Phase::Done(r), events) == Phase::Done(r),
    decreases events.len(),
{
    if events.len() > 0 {
        lemma_done_stays(edition, version, auto_start, r, events.drop_first());
    }
}

/// An ineffective removal ends the invocation: once the registry answers a
/// removal with the package still registered, whatever events follow, the
/// engine only reports that failure and never asks for a registration.
pub proof fn lemma_still_registered_blocks_registration(
    edition: Edition,
    version: Seq<char>,
    auto_start: bool,
    manifest_path: Seq<char>,
    full_name: Seq<char>,
    report: RemovalReport,
    later: Seq<RegistryEvent>,
)
    requires
        report.is_registered,
    ensures
        forall|k: int, a: RegistryAction|
            0 <= k <= later.len() && #[trigger] announces(
                a,
                edition,
                manifest_path,
                full_name,
                phase_after(
                    edition,
                    version,
                    auto_start,
                    Phase::AwaitRemoval,
                    seq![RegistryEvent::Removed(Ok(report))] + later.subrange(0, k),
                ),
            ) ==> !(a is Register) && a == RegistryAction::Finish(Err(ReconcileError::StillRegistered)),
{
    assert forall|k: int|
        0 <= k <= later.len() implies #[trigger] phase_after(
            edition,
            version,
            auto_start,
            Phase::AwaitRemoval,
            seq![RegistryEvent::Removed(Ok(report))] + later.subrange(0, k),
        ) == Phase::Done(Err(ReconcileError::StillRegistered)) by {
        let evs = seq![RegistryEvent::Removed(Ok(report))] + later.subrange(0, k);
        assert(evs[0] == RegistryEvent::Removed(Ok(report)));
        assert(evs.drop_first() == later.subrange(0, k));
        lemma_done_stays(
            edition,
            version,
            auto_start,
            Err(ReconcileError::StillRegistered),
            later.subrange(0, k),
        );
    }
}

/// One reconciliation in progress.
pub struct Reconciler {
    edition: Edition,
    version: String,
    manifest_path: String,
    auto_start: bool,
    full_name: String,
    phase: Phase,
}

impl Reconciler {
    pub closed spec fn edition(&self) -> Edition {
        self.edition
    }

    pub closed spec fn version(&self) -> Seq<char> {
        self.version@
    }

    pub closed spec fn manifest_path(&self) -> Seq<char> {
        self.manifest_path@
    }

    pub closed spec fn auto_start(&self) -> bool {
        self.auto_start
    }

    pub closed spec fn full_name(&self) -> Seq<char> {
        self.full_name@
    }

    pub closed spec fn phase(&self) -> Phase {
        self.phase
    }

    /// Starts a reconciliation for a manifest identity; fails closed with
    /// `UnknownPackage` when the name is not one of the supported editions.
    pub fn new(identity: &PackageIdentity, manifest_path: String, auto_start: bool) -> (r: Result<
        Reconciler,
        ReconcileError,
    >)
        ensures
            edition_named(identity.name@) is None <==> r is Err,
            r matches Err(e) ==> e == ReconcileError::UnknownPackage,
            r matches Ok(rec) ==> {
                &&& edition_named(identity.name@) == Some(rec.edition())
                &&& rec.version() == identity.version@
                &&& rec.manifest_path() == manifest_path@
                &&& rec.auto_start() == auto_start
                &&& rec.phase() == Phase::AwaitQuery
                &&& phase_consistent(rec.edition(), rec.auto_start(), rec.phase())
            },
    {
        match Edition::from_package_name(identity.name.as_str()) {
            None => Err(ReconcileError::UnknownPackage),
            Some(edition) => Ok(
                Reconciler {
                    edition,
                    version: identity.version.clone(),
                    manifest_path,
                    auto_start,
                    full_name: String::new(),
                    phase: Phase::AwaitQuery,
                },
            ),
        }
    }

    /// The action the engine waits on.
    pub fn pending(&self) -> (r: RegistryAction)
        ensures
            announces(r, self.edition(), self.manifest_path(), self.full_name(), self.phase()),
    {
        match self.phase {
            Phase::AwaitQuery => RegistryAction::Query(self.edition.app_user_model_id()),
            Phase::AwaitRemoval => RegistryAction::Remove(self.full_name.clone()),
            Phase::AwaitRegistration(_) => RegistryAction::Register(self.manifest_path.clone()),
            Phase::AwaitLaunch(_) => RegistryAction::Launch(self.edition.shell_target()),
            Phase::Done(r) => RegistryAction::Finish(r),
        }
    }

    /// Takes the answer to the pending action and returns the next action.
    pub fn step(&mut self, event: RegistryEvent) -> (r: RegistryAction)
        ensures
            final(self).edition() == old(self).edition(),
            final(self).version() == old(self).version(),
            final(self).manifest_path() == old(self).manifest_path(),
            final(self).auto_start() == old(self).auto_start(),
            final(self).phase() == advance_spec(
                old(self).edition(),
                old(self).version(),
                old(self).auto_start(),
                old(self).phase(),
                event,
            ),
            final(self).full_name() == full_name_after(old(self).full_name(), old(self).phase(), event),
            phase_consistent(old(self).edition(), old(self).auto_start(), old(self).phase())
                ==> phase_consistent(final(self).edition(), final(self).auto_start(), final(self).phase()),
            announces(
                r,
                final(self).edition(),
                final(self).manifest_path(),
                final(self).full_name(),
                final(self).phase(),
            ),
    {
        let ghost event_before = event;
        match (self.phase, event) {
            (Phase::AwaitQuery, RegistryEvent::Queried(result)) => {
                let installed = match result {
                    Ok(Some(info)) => Some(info),
                    _ => None,
                };
                let d = decide(self.edition, self.version.as_str(), &installed, self.auto_start);
                match d {
                    ReconciliationDecision::StartOnly { launch, .. } => {
                        self.phase = if launch {
                            Phase::AwaitLaunch(d)
                        } else {
                            Phase::Done(Ok(d))
                        };
                    },
                    ReconciliationDecision::InstallFresh { .. } => {
                        self.phase = Phase::AwaitRegistration(d);
                    },
                    ReconciliationDecision::RemoveThenReinstall { .. } => {
                        self.phase = Phase::AwaitRemoval;
                    },
                }
                if let Some(info) = installed {
                    self.full_name = info.full_name;
                }
            },
            (Phase::AwaitRemoval, RegistryEvent::Removed(result)) => {
                match result {
                    Err(_) => {
                        self.phase = Phase::Done(Err(ReconcileError::Service(ServiceError::Remove)));
                    },
                    Ok(report) => {
                        if report.is_registered {
                            self.phase = Phase::Done(Err(ReconcileError::StillRegistered));
                        } else {
                            self.phase = Phase::AwaitRegistration(
                                ReconciliationDecision::RemoveThenReinstall {
                                    edition: self.edition,
                                    launch: self.auto_start,
                                },
                            );
                        }
                    },
                }
            },
            (Phase::AwaitRegistration(d), RegistryEvent::Registered(result)) => {
                match result {
                    Err(_) => {
                        self.phase = Phase::Done(Err(ReconcileError::Service(ServiceError::Register)));
                    },
                    Ok(_) => {
                        let launch = match d {
                            ReconciliationDecision::StartOnly { launch, .. } => launch,
                            ReconciliationDecision::InstallFresh { launch, .. } => launch,
                            ReconciliationDecision::RemoveThenReinstall { launch, .. } => launch,
                        };
                        self.phase = if launch {
                            Phase::AwaitLaunch(d)
                        } else {
                            Phase::Done(Ok(d))
                        };
                    },
                }
            },
            (Phase::AwaitLaunch(d), RegistryEvent::Launched(_)) => {
                self.phase = Phase::Done(Ok(d));
            },
            _ => {},
        }
        self.pending()
    }
}

} // verus!
