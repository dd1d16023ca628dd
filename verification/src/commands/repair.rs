//! Setting up and repairing what agents need on the host and in their guests.

use crate::text as t;
use vstd::prelude::*;
use vstd::string::*;

verus! {

/// The program that runs an agent in its guest.
#[derive(Clone, Copy, Debug, PartialEq, Eq, Structural)]
pub enum HarnessRuntime {
    Codex,
    ClaudeCode,
    Opencode,
}

pub open spec fn harness_named(name: Seq<char>, coder: Seq<char>) -> Option<HarnessRuntime> {
    if name == "codex"@ {
        Some(HarnessRuntime::Codex)
    } else if name == coder + "-code"@ {
        Some(HarnessRuntime::ClaudeCode)
    } else if name == "opencode"@ {
        Some(HarnessRuntime::Opencode)
    } else {
        None
    }
}

/// Reads the name of a harness. `coder` is the command of the coding tool that
/// stands beside codex and opencode.
pub fn parse_harness_runtime(harness: &str, coder: &str) -> (r: Result<HarnessRuntime, String>)
    ensures
        match r {
            Ok(h) => harness_named(harness@, coder@) == Some(h),
            Err(message) => harness_named(harness@, coder@) is None && message@ == "unsupported harness: "@ + harness@,
        },
{
    if t::same(harness, "codex") {
        Ok(HarnessRuntime::Codex)
    } else if t::same(harness, coder.to_owned().concat("-code").as_str()) {
        Ok(HarnessRuntime::ClaudeCode)
    } else if t::same(harness, "opencode") {
        Ok(HarnessRuntime::Opencode)
    } else {
        Err("unsupported harness: ".to_owned().concat(harness))
    }
}

#[derive(Debug, PartialEq, Eq)]
pub struct RepairCommand {
    pub command: RepairSubcommand<String, Vec<String>>,
}

/// How a worker is put into a guest.
#[derive(Debug, PartialEq, Eq)]
pub struct WorkerSetup<S> {
    pub agent_id: S,
    pub session_id: S,
    pub harness: S,
    /// The command of the coding tool that stands beside codex and opencode.
    pub coder: S,
    pub ssh_user: S,
    pub ssh_key: S,
    pub harness_auth_guest_path: S,
    pub sessiond_url: S,
    pub sessiond_token_path: S,
    pub auth_source: Option<S>,
    pub install_harness: bool,
    /// Seed the guest's credentials anew, even where it has live ones.
    pub force_reseed_auth: bool,
}

impl View for WorkerSetup<String> {
    type V = WorkerSetup<Seq<char>>;

    open spec fn view(&self) -> WorkerSetup<Seq<char>> {
        WorkerSetup {
            agent_id: self.agent_id@,
            session_id: self.session_id@,
            harness: self.harness@,
            coder: self.coder@,
            ssh_user: self.ssh_user@,
            ssh_key: self.ssh_key@,
            harness_auth_guest_path: self.harness_auth_guest_path@,
            sessiond_url: self.sessiond_url@,
            sessiond_token_path: self.sessiond_token_path@,
            auth_source: t::opt_view(self.auth_source),
            install_harness: self.install_harness,
            force_reseed_auth: self.force_reseed_auth,
        }
    }
}

/// A worker that is to be put into a guest at a known address.
#[derive(Debug, PartialEq, Eq)]
pub struct GuestWorkerInstall<S> {
    pub guest_ip: S,
    pub agent_id: S,
    pub session_id: S,
    pub harness: HarnessRuntime,
    pub ssh_user: S,
    pub ssh_key: S,
    pub harness_auth_guest_path: S,
    pub sessiond_url: S,
    pub sessiond_token_path: S,
    pub auth_source: Option<S>,
    pub install_harness: bool,
    pub force_reseed_auth: bool,
}

impl View for GuestWorkerInstall<String> {
    type V = GuestWorkerInstall<Seq<char>>;

    open spec fn view(&self) -> GuestWorkerInstall<Seq<char>> {
        GuestWorkerInstall {
            guest_ip: self.guest_ip@,
            agent_id: self.agent_id@,
            session_id: self.session_id@,
            harness: self.harness,
            ssh_user: self.ssh_user@,
            ssh_key: self.ssh_key@,
            harness_auth_guest_path: self.harness_auth_guest_path@,
            sessiond_url: self.sessiond_url@,
            sessiond_token_path: self.sessiond_token_path@,
            auth_source: t::opt_view(self.auth_source),
            install_harness: self.install_harness,
            force_reseed_auth: self.force_reseed_auth,
        }
    }
}

#[derive(Debug, PartialEq, Eq)]
pub struct UbuntuCloudimgRepair<S> {
    pub release: S,
    pub arch: S,
    pub image_url: Option<S>,
    pub sha256sums_url: Option<S>,
    pub qemu_img: Option<S>,
    pub force: bool,
}

impl View for UbuntuCloudimgRepair<String> {
    type V = UbuntuCloudimgRepair<Seq<char>>;

    open spec fn view(&self) -> UbuntuCloudimgRepair<Seq<char>> {
        UbuntuCloudimgRepair {
            release: self.release@,
            arch: self.arch@,
            image_url: t::opt_view(self.image_url),
            sha256sums_url: t::opt_view(self.sha256sums_url),
            qemu_img: t::opt_view(self.qemu_img),
            force: self.force,
        }
    }
}

#[derive(Debug, PartialEq, Eq)]
pub struct WindowsHarnesses<L> {
    pub agent_ids: L,
    pub session_ids: L,
    pub harnesses: L,
    pub harness_auth_guest_paths: L,
    pub telegram_token_sources: L,
}

impl View for WindowsHarnesses<Vec<String>> {
    type V = WindowsHarnesses<Seq<Seq<char>>>;

    open spec fn view(&self) -> WindowsHarnesses<Seq<Seq<char>>> {
        WindowsHarnesses {
            agent_ids: t::texts(self.agent_ids@),
            session_ids: t::texts(self.session_ids@),
            harnesses: t::texts(self.harnesses@),
            harness_auth_guest_paths: t::texts(self.harness_auth_guest_paths@),
            telegram_token_sources: t::texts(self.telegram_token_sources@),
        }
    }
}

#[derive(Debug, PartialEq, Eq)]
pub struct FirecrackerHarnessRepair<S, L> {
    pub agent_ids: L,
    pub ssh_key: S,
    pub sessiond_bind: S,
    pub sessiond_token_path: S,
    pub skip_assets: bool,
    pub skip_net: bool,
    pub skip_launch: bool,
    pub skip_worker_refresh: bool,
    pub skip_services: bool,
    pub install_harness: bool,
    pub ssh_wait_seconds: u64,
    pub force_reseed_auth: bool,
}

impl View for FirecrackerHarnessRepair<String, Vec<String>> {
    type V = FirecrackerHarnessRepair<Seq<char>, Seq<Seq<char>>>;

    open spec fn view(&self) -> FirecrackerHarnessRepair<Seq<char>, Seq<Seq<char>>> {
        FirecrackerHarnessRepair {
            agent_ids: t::texts(self.agent_ids@),
            ssh_key: self.ssh_key@,
            sessiond_bind: self.sessiond_bind@,
            sessiond_token_path: self.sessiond_token_path@,
            skip_assets: self.skip_assets,
            skip_net: self.skip_net,
            skip_launch: self.skip_launch,
            skip_worker_refresh: self.skip_worker_refresh,
            skip_services: self.skip_services,
            install_harness: self.install_harness,
            ssh_wait_seconds: self.ssh_wait_seconds,
            force_reseed_auth: self.force_reseed_auth,
        }
    }
}

#[derive(Debug, PartialEq, Eq)]
pub enum RepairSubcommand<S, L> {
    /// Fetch the cloud image that guests are made from.
    UbuntuCloudimg { image: UbuntuCloudimgRepair<S> },
    SshKey { key_path: S, force: bool },
    WindowsHarnesses {
        config: WindowsHarnesses<L>,
        register_tasks: bool,
        skip_guest_worker_refresh: bool,
    },
    GuestWorker { guest_ip: Option<S>, worker: WorkerSetup<S> },
    FirecrackerHarnesses {
        agent_ids: L,
        ssh_key: S,
        sessiond_bind: S,
        sessiond_token_path: S,
        skip_assets: bool,
        skip_net: bool,
        skip_launch: bool,
        skip_worker_refresh: bool,
        skip_services: bool,
        no_install_harness: bool,
        ssh_wait_seconds: u64,
        force_reseed_auth: bool,
    },
}

impl View for RepairSubcommand<String, Vec<String>> {
    type V = RepairSubcommand<Seq<char>, Seq<Seq<char>>>;

    open spec fn view(&self) -> RepairSubcommand<Seq<char>, Seq<Seq<char>>> {
        match self {
            RepairSubcommand::UbuntuCloudimg { image } => RepairSubcommand::UbuntuCloudimg {
                image: image@,
            },
            RepairSubcommand::SshKey { key_path, force } => RepairSubcommand::SshKey {
                key_path: key_path@,
                force: *force,
            },
            RepairSubcommand::WindowsHarnesses { config, register_tasks, skip_guest_worker_refresh } => RepairSubcommand::WindowsHarnesses {
                config: config@,
                register_tasks: *register_tasks,
                skip_guest_worker_refresh: *skip_guest_worker_refresh,
            },
            RepairSubcommand::GuestWorker { guest_ip, worker } => RepairSubcommand::GuestWorker {
                guest_ip: t::opt_view(*guest_ip),
                worker: worker@,
            },
            RepairSubcommand::FirecrackerHarnesses { agent_ids, ssh_key, sessiond_bind, sessiond_token_path, skip_assets, skip_net, skip_launch, skip_worker_refresh, skip_services, no_install_harness, ssh_wait_seconds, force_reseed_auth } => RepairSubcommand::FirecrackerHarnesses {
                agent_ids: t::texts(agent_ids@),
                ssh_key: ssh_key@,
                sessiond_bind: sessiond_bind@,
                sessiond_token_path: sessiond_token_path@,
                skip_assets: *skip_assets,
                skip_net: *skip_net,
                skip_launch: *skip_launch,
                skip_worker_refresh: *skip_worker_refresh,
                skip_services: *skip_services,
                no_install_harness: *no_install_harness,
                ssh_wait_seconds: *ssh_wait_seconds,
                force_reseed_auth: *force_reseed_auth,
            },
        }
    }
}

/// Where a command stands: what it waits for.
#[derive(Debug, PartialEq, Eq)]
pub enum RepairStage<S, L> {
    Configuring { register_tasks: bool, skip_guest_worker_refresh: bool },
    Refreshing { agent_ids: L },
    Addressing { worker: WorkerSetup<S> },
    /// One last thing is done.
    Last,
    Ended,
}

impl View for RepairStage<String, Vec<String>> {
    type V = RepairStage<Seq<char>, Seq<Seq<char>>>;

    open spec fn view(&self) -> RepairStage<Seq<char>, Seq<Seq<char>>> {
        match self {
            RepairStage::Configuring { register_tasks, skip_guest_worker_refresh } => RepairStage::Configuring {
                register_tasks: *register_tasks,
                skip_guest_worker_refresh: *skip_guest_worker_refresh,
            },
            RepairStage::Refreshing { agent_ids } => RepairStage::Refreshing {
                agent_ids: t::texts(agent_ids@),
            },
            RepairStage::Addressing { worker } => RepairStage::Addressing { worker: worker@ },
            RepairStage::Last => RepairStage::Last,
            RepairStage::Ended => RepairStage::Ended,
        }
    }
}

#[derive(Debug, PartialEq, Eq)]
pub enum RepairEvent<S, L> {
    /// The action was carried out.
    Done,
    Failed { error: S },
    /// The configuration was made for these agents.
    Configured { agent_ids: L },
    /// The address of the guest was looked up.
    Ip { ip: Option<S> },
}

impl View for RepairEvent<String, Vec<String>> {
    type V = RepairEvent<Seq<char>, Seq<Seq<char>>>;

    open spec fn view(&self) -> RepairEvent<Seq<char>, Seq<Seq<char>>> {
        match self {
            RepairEvent::Done => RepairEvent::Done,
            RepairEvent::Failed { error } => RepairEvent::Failed { error: error@ },
            RepairEvent::Configured { agent_ids } => RepairEvent::Configured {
                agent_ids: t::texts(agent_ids@),
            },
            RepairEvent::Ip { ip } => RepairEvent::Ip { ip: t::opt_view(*ip) },
        }
    }
}

#[derive(Debug, PartialEq, Eq)]
pub enum RepairAction<S, L> {
    FetchImage { image: UbuntuCloudimgRepair<S> },
    /// Make the key of the agents; a relative path is taken from the working directory.
    MakeSshKey { key_path: S, force: bool },
    ConfigureWindows { config: WindowsHarnesses<L> },
    /// Repair with the configuration that was made.
    RepairWindows { register_tasks: bool, skip_guest_worker_refresh: bool },
    /// Report on the health of these agents.
    Doctor { agent_ids: L, json: bool, sessiond_url: S },
    FindGuestIp { agent_id: S },
    InstallWorker { install: GuestWorkerInstall<S> },
    RepairFirecracker { repair: FirecrackerHarnessRepair<S, L> },
    Finish,
    Fail { message: S },
    /// The event is not one that was waited for.
    Ignore,
}

impl View for RepairAction<String, Vec<String>> {
    type V = RepairAction<Seq<char>, Seq<Seq<char>>>;

    open spec fn view(&self) -> RepairAction<Seq<char>, Seq<Seq<char>>> {
        match self {
            RepairAction::FetchImage { image } => RepairAction::FetchImage { image: image@ },
            RepairAction::MakeSshKey { key_path, force } => RepairAction::MakeSshKey {
                key_path: key_path@,
                force: *force,
            },
            RepairAction::ConfigureWindows { config } => RepairAction::ConfigureWindows {
                config: config@,
            },
            RepairAction::RepairWindows { register_tasks, skip_guest_worker_refresh } => RepairAction::RepairWindows {
                register_tasks: *register_tasks,
                skip_guest_worker_refresh: *skip_guest_worker_refresh,
            },
            RepairAction::Doctor { agent_ids, json, sessiond_url } => RepairAction::Doctor {
                agent_ids: t::texts(agent_ids@),
                json: *json,
                sessiond_url: sessiond_url@,
            },
            RepairAction::FindGuestIp { agent_id } => RepairAction::FindGuestIp {
                agent_id: agent_id@,
            },
            RepairAction::InstallWorker { install } => RepairAction::InstallWorker {
                install: install@,
            },
            RepairAction::RepairFirecracker { repair } => RepairAction::RepairFirecracker {
                repair: repair@,
            },
            RepairAction::Finish => RepairAction::Finish,
            RepairAction::Fail { message } => RepairAction::Fail { message: message@ },
            RepairAction::Ignore => RepairAction::Ignore,
        }
    }
}

pub type StageView = RepairStage<Seq<char>, Seq<Seq<char>>>;

pub type ActionView = RepairAction<Seq<char>, Seq<Seq<char>>>;

/// A worker goes into a guest whose address is known, if its harness is known.
pub open spec fn installed(worker: WorkerSetup<Seq<char>>, guest_ip: Seq<char>) -> (StageView, ActionView) {
    match harness_named(worker.harness, worker.coder) {
        Some(harness) => (
            RepairStage::Last,
            RepairAction::InstallWorker {
                install: GuestWorkerInstall {
                    guest_ip,
                    agent_id: worker.agent_id,
                    session_id: worker.session_id,
                    harness,
                    ssh_user: worker.ssh_user,
                    ssh_key: worker.ssh_key,
                    harness_auth_guest_path: worker.harness_auth_guest_path,
                    sessiond_url: worker.sessiond_url,
                    sessiond_token_path: worker.sessiond_token_path,
                    auth_source: worker.auth_source,
                    install_harness: worker.install_harness,
                    force_reseed_auth: worker.force_reseed_auth,
                },
            },
        ),
        None => (
            RepairStage::Ended,
            RepairAction::Fail { message: "unsupported harness: "@ + worker.harness },
        ),
    }
}

fn install(worker: WorkerSetup<String>, guest_ip: String) -> (r: (
    RepairStage<String, Vec<String>>,
    RepairAction<String, Vec<String>>,
))
    ensures
        (r.0@, r.1@) == installed(worker@, guest_ip@),
{
    match parse_harness_runtime(worker.harness.as_str(), worker.coder.as_str()) {
        Ok(harness) => (
            RepairStage::Last,
            RepairAction::InstallWorker {
                install: GuestWorkerInstall {
                    guest_ip,
                    agent_id: worker.agent_id,
                    session_id: worker.session_id,
                    harness,
                    ssh_user: worker.ssh_user,
                    ssh_key: worker.ssh_key,
                    harness_auth_guest_path: worker.harness_auth_guest_path,
                    sessiond_url: worker.sessiond_url,
                    sessiond_token_path: worker.sessiond_token_path,
                    auth_source: worker.auth_source,
                    install_harness: worker.install_harness,
                    force_reseed_auth: worker.force_reseed_auth,
                },
            },
        ),
        Err(message) => (RepairStage::Ended, RepairAction::Fail { message }),
    }
}

/// How a repair starts.
pub open spec fn started(command: RepairSubcommand<Seq<char>, Seq<Seq<char>>>) -> (StageView, ActionView) {
    match command {
        RepairSubcommand::UbuntuCloudimg { image } => (RepairStage::Last, RepairAction::FetchImage { image }),
        RepairSubcommand::SshKey { key_path, force } => (
            RepairStage::Last,
            RepairAction::MakeSshKey { key_path, force },
        ),
        RepairSubcommand::WindowsHarnesses { config, register_tasks, skip_guest_worker_refresh } => (
            RepairStage::Configuring { register_tasks, skip_guest_worker_refresh },
            RepairAction::ConfigureWindows { config },
        ),
        RepairSubcommand::GuestWorker { guest_ip, worker } => match guest_ip {
            Some(ip) => installed(worker, ip),
            None => (
                RepairStage::Addressing { worker },
                RepairAction::FindGuestIp { agent_id: worker.agent_id },
            ),
        },
        RepairSubcommand::FirecrackerHarnesses {
            agent_ids,
            ssh_key,
            sessiond_bind,
            sessiond_token_path,
            skip_assets,
            skip_net,
            skip_launch,
            skip_worker_refresh,
            skip_services,
            no_install_harness,
            ssh_wait_seconds,
            force_reseed_auth,
        } => (
            RepairStage::Last,
            RepairAction::RepairFirecracker {
                repair: FirecrackerHarnessRepair {
                    agent_ids,
                    ssh_key,
                    sessiond_bind,
                    sessiond_token_path,
                    skip_assets,
                    skip_net,
                    skip_launch,
                    skip_worker_refresh,
                    skip_services,
                    install_harness: !no_install_harness,
                    ssh_wait_seconds,
                    force_reseed_auth,
                },
            },
        ),
    }
}

/// Starts a repair.
pub fn run_repair(command: RepairCommand) -> (r: (
    RepairStage<String, Vec<String>>,
    RepairAction<String, Vec<String>>,
))
    ensures
        (r.0@, r.1@) == started(command.command@),
{
    match command.command {
        RepairSubcommand::UbuntuCloudimg { image } => (RepairStage::Last, RepairAction::FetchImage { image }),
        RepairSubcommand::SshKey { key_path, force } => (
            RepairStage::Last,
            RepairAction::MakeSshKey { key_path, force },
        ),
        RepairSubcommand::WindowsHarnesses { config, register_tasks, skip_guest_worker_refresh } => (
            RepairStage::Configuring { register_tasks, skip_guest_worker_refresh },
            RepairAction::ConfigureWindows { config },
        ),
        RepairSubcommand::GuestWorker { guest_ip, worker } => match guest_ip {
            Some(ip) => install(worker, ip),
            None => {
                let agent_id = worker.agent_id.clone();
                (RepairStage::Addressing { worker }, RepairAction::FindGuestIp { agent_id })
            },
        },
        RepairSubcommand::FirecrackerHarnesses {
            agent_ids,
            ssh_key,
            sessiond_bind,
            sessiond_token_path,
            skip_assets,
            skip_net,
            skip_launch,
            skip_worker_refresh,
            skip_services,
            no_install_harness,
            ssh_wait_seconds,
            force_reseed_auth,
        } => (
            RepairStage::Last,
            RepairAction::RepairFirecracker {
                repair: FirecrackerHarnessRepair {
                    agent_ids,
                    ssh_key,
                    sessiond_bind,
                    sessiond_token_path,
                    skip_assets,
                    skip_net,
                    skip_launch,
                    skip_worker_refresh,
                    skip_services,
                    install_harness: !no_install_harness,
                    ssh_wait_seconds,
                    force_reseed_auth,
                },
            },
        ),
    }
}

/// What is said where the address of a guest is not known.
pub open spec fn no_guest_ip(agent_id: Seq<char>) -> Seq<char> {
    "could not discover live IP for "@ + agent_id + "; pass --guest-ip explicitly"@
}

impl RepairStage<Seq<char>, Seq<Seq<char>>> {
    /// How a repair goes on when an event comes.
    pub open spec fn next(self, event: RepairEvent<Seq<char>, Seq<Seq<char>>>) -> (StageView, ActionView) {
        match (self, event) {
            (RepairStage::Ended, _) => (self, RepairAction::Ignore),
            (_, RepairEvent::Failed { error }) => (RepairStage::Ended, RepairAction::Fail { message: error }),
            (
                RepairStage::Configuring { register_tasks, skip_guest_worker_refresh },
                RepairEvent::Configured { agent_ids },
            ) => (
                RepairStage::Refreshing { agent_ids },
                RepairAction::RepairWindows { register_tasks, skip_guest_worker_refresh },
            ),
            (RepairStage::Refreshing { agent_ids }, RepairEvent::Done) => (
                RepairStage::Last,
                RepairAction::Doctor { agent_ids, json: false, sessiond_url: "http://127.0.0.1:47834"@ },
            ),
            (RepairStage::Addressing { worker }, RepairEvent::Ip { ip }) => match ip {
                Some(ip) => installed(worker, ip),
                None => (RepairStage::Ended, RepairAction::Fail { message: no_guest_ip(worker.agent_id) }),
            },
            (RepairStage::Last, RepairEvent::Done) => (RepairStage::Ended, RepairAction::Finish),
            _ => (self, RepairAction::Ignore),
        }
    }
}

impl RepairStage<String, Vec<String>> {
    /// Goes on when an event comes.
    pub fn advance(self, event: RepairEvent<String, Vec<String>>) -> (r: (
        RepairStage<String, Vec<String>>,
        RepairAction<String, Vec<String>>,
    ))
        ensures
            (r.0@, r.1@) == self@.next(event@),
    {
        match (self, event) {
            (RepairStage::Ended, _) => (RepairStage::Ended, RepairAction::Ignore),
            (_, RepairEvent::Failed { error }) => (RepairStage::Ended, RepairAction::Fail { message: error }),
            (
                RepairStage::Configuring { register_tasks, skip_guest_worker_refresh },
                RepairEvent::Configured { agent_ids },
            ) => (
                RepairStage::Refreshing { agent_ids },
                RepairAction::RepairWindows { register_tasks, skip_guest_worker_refresh },
            ),
            (RepairStage::Refreshing { agent_ids }, RepairEvent::Done) => (
                RepairStage::Last,
                RepairAction::Doctor {
                    agent_ids,
                    json: false,
                    sessiond_url: "http://127.0.0.1:47834".to_owned(),
                },
            ),
            (RepairStage::Addressing { worker }, RepairEvent::Ip { ip }) => match ip {
                Some(ip) => install(worker, ip),
                None => (
                    RepairStage::Ended,
                    RepairAction::Fail {
                        message: "could not discover live IP for ".to_owned().concat(
                            worker.agent_id.as_str(),
                        ).concat("; pass --guest-ip explicitly"),
                    },
                ),
            },
            (RepairStage::Last, RepairEvent::Done) => (RepairStage::Ended, RepairAction::Finish),
            (stage, _) => (stage, RepairAction::Ignore),
        }
    }
}

/// The credentials of a guest are seeded anew only where the command asks for
/// it, whether the address of the guest was given or found.
pub proof fn law_credentials_are_reseeded_only_on_demand(
    guest_ip: Option<Seq<char>>,
    worker: WorkerSetup<Seq<char>>,
    ip: Seq<char>,
)
    ensures
        ({
            let (stage, action) = started(RepairSubcommand::GuestWorker { guest_ip, worker });
            let last = if guest_ip is Some {
                action
            } else {
                stage.next(RepairEvent::Ip { ip: Some(ip) }).1
            };
            last matches RepairAction::InstallWorker { install } ==> install.force_reseed_auth
                == worker.force_reseed_auth && install.guest_ip == (if guest_ip is Some {
                guest_ip->0
            } else {
                ip
            })
        }),
{
}

/// A worker is installed in the guest with everything that the command names,
/// under the harness that it names; an unknown harness installs nothing.
pub proof fn law_a_worker_is_installed_as_asked(worker: WorkerSetup<Seq<char>>, ip: Seq<char>)
    ensures
        ({
            let action = started(RepairSubcommand::GuestWorker { guest_ip: Some(ip), worker }).1;
            let (addressing, find) = started(RepairSubcommand::GuestWorker { guest_ip: None, worker });
            let known = worker.harness == "codex"@ || worker.harness == worker.coder + "-code"@ || worker.harness
                == "opencode"@;
            &&& known ==> (action matches RepairAction::InstallWorker { install } && install.guest_ip == ip
                && install.agent_id == worker.agent_id && install.session_id == worker.session_id && install.ssh_user
                == worker.ssh_user && install.ssh_key == worker.ssh_key && install.harness_auth_guest_path
                == worker.harness_auth_guest_path && install.sessiond_url == worker.sessiond_url
                && install.sessiond_token_path == worker.sessiond_token_path && install.auth_source
                == worker.auth_source && install.install_harness == worker.install_harness)
            &&& !known ==> action == (ActionView::Fail { message: "unsupported harness: "@ + worker.harness })
            &&& worker.harness == "codex"@ ==> (action matches RepairAction::InstallWorker { install } && install.harness
                == HarnessRuntime::Codex)
            &&& find == (ActionView::FindGuestIp { agent_id: worker.agent_id })
            &&& addressing.next(RepairEvent::Ip { ip: Some(ip) }).1 == action
            &&& addressing.next(RepairEvent::Ip { ip: None }).1 matches RepairAction::Fail { message } && t::has(
                message,
                worker.agent_id,
            )
        }),
{
    t::lemma_has_part("could not discover live IP for "@, worker.agent_id, "; pass --guest-ip explicitly"@);
}

/// The harness is found by its name.
pub proof fn law_a_harness_is_found_by_its_name(coder: Seq<char>)
    ensures
        harness_named("codex"@, coder) == Some(HarnessRuntime::Codex),
        coder.len() > 0 && coder + "-code"@ != "codex"@ ==> harness_named(coder + "-code"@, coder) == Some(
            HarnessRuntime::ClaudeCode,
        ),
        coder + "-code"@ != "opencode"@ ==> harness_named("opencode"@, coder) == Some(HarnessRuntime::Opencode),
{
    reveal_strlit("codex");
    reveal_strlit("opencode");
    assert("codex"@.len() == 5 && "codex"@[0] == 'c' && "codex"@[1] == 'o' && "codex"@[2] == 'd' && "codex"@[3] == 'e' && "codex"@[4] == 'x');
    assert("opencode"@.len() == 8 && "opencode"@[0] == 'o' && "opencode"@[1] == 'p' && "opencode"@[2] == 'e' && "opencode"@[3] == 'n' && "opencode"@[4] == 'c' && "opencode"@[5] == 'o');
}

/// The harnesses of a Windows host are configured, then repaired as the command
/// says, and the doctor looks at the very agents that were configured; then the
/// command ends.
pub proof fn law_the_doctor_looks_at_the_repaired_agents(
    config: WindowsHarnesses<Seq<Seq<char>>>,
    register_tasks: bool,
    skip: bool,
    agent_ids: Seq<Seq<char>>,
)
    ensures
        ({
            let (configuring, first) = started(
                RepairSubcommand::WindowsHarnesses { config, register_tasks, skip_guest_worker_refresh: skip },
            );
            let (refreshing, second) = configuring.next(RepairEvent::Configured { agent_ids });
            let (last, third) = refreshing.next(RepairEvent::Done);
            &&& first == (ActionView::ConfigureWindows { config })
            &&& second == (ActionView::RepairWindows { register_tasks, skip_guest_worker_refresh: skip })
            &&& third matches RepairAction::Doctor { agent_ids: ids, json, .. } && ids == agent_ids && !json
            &&& last.next(RepairEvent::Done).1 is Finish
        }),
{
}

/// The Firecracker agents are repaired as the command says; a harness is
/// installed unless that was ruled out.
pub proof fn law_firecracker_agents_are_repaired_as_asked(
    agent_ids: Seq<Seq<char>>,
    ssh_key: Seq<char>,
    sessiond_bind: Seq<char>,
    sessiond_token_path: Seq<char>,
    flags: (bool, bool, bool, bool, bool),
    no_install_harness: bool,
    ssh_wait_seconds: u64,
    force_reseed_auth: bool,
    image: UbuntuCloudimgRepair<Seq<char>>,
    force: bool,
)
    ensures
        started(
            RepairSubcommand::FirecrackerHarnesses {
                agent_ids,
                ssh_key,
                sessiond_bind,
                sessiond_token_path,
                skip_assets: flags.0,
                skip_net: flags.1,
                skip_launch: flags.2,
                skip_worker_refresh: flags.3,
                skip_services: flags.4,
                no_install_harness,
                ssh_wait_seconds,
                force_reseed_auth,
            },
        ).1 matches RepairAction::RepairFirecracker { repair } && repair.agent_ids == agent_ids && repair.ssh_key == ssh_key
            && repair.install_harness == !no_install_harness && repair.force_reseed_auth == force_reseed_auth
            && repair.skip_assets == flags.0 && repair.skip_net == flags.1 && repair.skip_launch == flags.2
            && repair.skip_worker_refresh == flags.3 && repair.skip_services == flags.4 && repair.ssh_wait_seconds
            == ssh_wait_seconds && repair.sessiond_bind == sessiond_bind && repair.sessiond_token_path
            == sessiond_token_path,
        started(RepairSubcommand::SshKey { key_path: ssh_key, force }).1 == (ActionView::MakeSshKey {
            key_path: ssh_key,
            force,
        }),
        started(RepairSubcommand::UbuntuCloudimg { image }).1 == (ActionView::FetchImage { image }),
{
}

/// A failure ends the repair with its error.
pub proof fn law_a_failure_ends_the_repair(stage: StageView, error: Seq<char>)
    requires
        stage !is Ended,
    ensures
        stage.next(RepairEvent::Failed { error }).0 is Ended,
        stage.next(RepairEvent::Failed { error }).1 == (ActionView::Fail { message: error }),
{
}

} // verus!
