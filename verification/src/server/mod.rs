//! Managing configured servers: what a request asks of which server, the
//! stop-work-restart cycle around backups and restores, daily maintenance
//! across the fleet, and the server list.

use crate::cli::{Action, BackupTarget, Request, StopType};
use crate::config::{flag, server_index, Config, ServerConfig, ServerType, UnknownJavaVersion};
use manager::{manager_of, ServerManager};
use minecraft::{minecraft_result, MinecraftError, MinecraftServer};
use vstd::prelude::*;

pub mod generic;
pub mod manager;
pub mod minecraft;

verus! {

/// Where a backup goes.
#[derive(Debug, Clone, Copy, PartialEq, Eq, Structural)]
pub enum BackupKind {
    /// Mirror into the local backup directory.
    Local,
    /// Back up to the remote repository.
    Remote,
}

/// What is done to one server.
#[derive(Debug, Clone, Copy, PartialEq, Eq, Structural)]
pub enum ServerOperation {
    Start,
    /// Stop a Minecraft server through RCON.
    StopMinecraft { stop_type: StopType },
    /// Stop through the configured stop command. `unsupported_stop_type`
    /// holds when a friendly stop was asked of a server that cannot warn its
    /// players, so the stop command is used all the same.
    StopWithStopCommand { unsupported_stop_type: bool },
    /// Back up; a running server is stopped first and started again after.
    Backup { kind: BackupKind },
    /// Restore; a running server is stopped first and started again after.
    Restore { dry_run: bool },
    RestartMinecraft,
    RestartWithStopCommand,
    Attach,
    Status,
}

/// Where a request goes.
pub enum Route {
    ValidateConfig { fix: bool },
    List,
    Maintenance,
    /// Back up every server with `backup = true`.
    BackupAll { kind: BackupKind },
    /// Remote retention cleanup.
    Cleanup { dry_run: bool },
    /// An operation on one server. When `reconcile_rcon` holds, the RCON
    /// password in the config is brought in line with `server.properties`
    /// before the operation.
    Server { server_id: String, server_type: ServerType, reconcile_rcon: bool, operation: ServerOperation },
}

/// Why a request names no server that can be acted on.
#[derive(Debug, PartialEq, Eq)]
pub enum DispatchError {
    MissingServerName,
    UnknownServer { server_id: String },
}

pub open spec fn dispatch_error_text(e: DispatchError) -> Seq<char> {
    match e {
        DispatchError::MissingServerName => "This action requires a server name."@,
        DispatchError::UnknownServer { server_id } => "Server '"@ + server_id@
            + "' not found in configuration file."@,
    }
}

impl DispatchError {
    pub fn message(&self) -> (m: String)
        ensures
            m@ == dispatch_error_text(*self),
    {
        match self {
            DispatchError::MissingServerName => String::from_str("This action requires a server name."),
            DispatchError::UnknownServer { server_id } => {
                let mut m = String::from_str("Server '");
                m.append(server_id.as_str());
                m.append("' not found in configuration file.");
                m
            },
        }
    }
}

/// Actions that stop a Minecraft server, which needs the RCON password that
/// the server itself uses.
pub open spec fn needs_minecraft_rcon(action: Action) -> bool {
    match action {
        Action::Stop { .. } | Action::Restart | Action::BackupLocal { .. } | Action::BackupRemote {
            ..
        } | Action::Restore { .. } => true,
        _ => false,
    }
}

pub fn action_needs_minecraft_rcon(action: Action) -> (b: bool)
    ensures
        b == needs_minecraft_rcon(action),
{
    match action {
        Action::Stop { .. } | Action::Restart | Action::BackupLocal { .. } | Action::BackupRemote {
            ..
        } | Action::Restore { .. } => true,
        _ => false,
    }
}

/// Actions that concern the whole fleet or no server at all.
pub open spec fn fleet_route(action: Action) -> bool {
    match action {
        Action::ValidateConfig { .. } | Action::List | Action::Maintenance | Action::BackupCleanup {
            ..
        } => true,
        Action::BackupLocal { target } | Action::BackupRemote { target } => target == BackupTarget::All,
        _ => false,
    }
}

/// The operation an action asks of a server of type `t`.
pub open spec fn operation_of(t: ServerType, action: Action) -> ServerOperation {
    let minecraft = t == ServerType::Minecraft;
    match action {
        Action::Stop { stop_type } => if minecraft {
            ServerOperation::StopMinecraft { stop_type }
        } else {
            ServerOperation::StopWithStopCommand {
                unsupported_stop_type: t != ServerType::Velocity && stop_type != StopType::Immediate,
            }
        },
        Action::BackupLocal { .. } => ServerOperation::Backup { kind: BackupKind::Local },
        Action::BackupRemote { .. } => ServerOperation::Backup { kind: BackupKind::Remote },
        Action::Restore { dry_run } => ServerOperation::Restore { dry_run },
        Action::Restart => if minecraft {
            ServerOperation::RestartMinecraft
        } else {
            ServerOperation::RestartWithStopCommand
        },
        Action::Attach => ServerOperation::Attach,
        Action::Status => ServerOperation::Status,
        _ => ServerOperation::Start,
    }
}

pub fn server_operation(t: ServerType, action: Action) -> (op: ServerOperation)
    ensures
        op == operation_of(t, action),
{
    let minecraft = match t {
        ServerType::Minecraft => true,
        _ => false,
    };
    match action {
        Action::Stop { stop_type } => if minecraft {
            ServerOperation::StopMinecraft { stop_type }
        } else {
            let velocity = match t {
                ServerType::Velocity => true,
                _ => false,
            };
            let immediate = match stop_type {
                StopType::Immediate => true,
                StopType::Friendly => false,
            };
            ServerOperation::StopWithStopCommand { unsupported_stop_type: !velocity && !immediate }
        },
        Action::BackupLocal { .. } => ServerOperation::Backup { kind: BackupKind::Local },
        Action::BackupRemote { .. } => ServerOperation::Backup { kind: BackupKind::Remote },
        Action::Restore { dry_run } => ServerOperation::Restore { dry_run },
        Action::Restart => if minecraft {
            ServerOperation::RestartMinecraft
        } else {
            ServerOperation::RestartWithStopCommand
        },
        Action::Attach => ServerOperation::Attach,
        Action::Status => ServerOperation::Status,
        _ => ServerOperation::Start,
    }
}

/// Routes a request: fleet-wide actions need no server; any other action
/// needs the ID of a configured server.
pub fn dispatch_request(request: &Request, config: &Config) -> (r: Result<Route, DispatchError>)
    ensures
        request.action matches Action::ValidateConfig { fix } ==> r matches Ok(Route::ValidateConfig {
            fix: f,
        }) && f == fix,
        request.action is List ==> r matches Ok(Route::List),
        request.action is Maintenance ==> r matches Ok(Route::Maintenance),
        request.action == (Action::BackupLocal { target: BackupTarget::All }) ==> r matches Ok(
            Route::BackupAll { kind: BackupKind::Local },
        ),
        request.action == (Action::BackupRemote { target: BackupTarget::All }) ==> r matches Ok(
            Route::BackupAll { kind: BackupKind::Remote },
        ),
        request.action matches Action::BackupCleanup { dry_run } ==> r matches Ok(Route::Cleanup {
            dry_run: d,
        }) && d == dry_run,
        !fleet_route(request.action) ==> match request.server {
            None => r == Err::<Route, DispatchError>(DispatchError::MissingServerName),
            Some(id) => match server_index(config.servers@, id@) {
                None => r matches Err(DispatchError::UnknownServer { server_id: s }) && s@ == id@,
                Some(i) => r matches Ok(
                    Route::Server { server_id, server_type, reconcile_rcon, operation },
                ) && server_id@ == id@ && server_type == config.servers@[i].1.server_type
                    && reconcile_rcon == (server_type == ServerType::Minecraft && needs_minecraft_rcon(
                    request.action,
                )) && operation == operation_of(server_type, request.action),
            },
        },
{
    match request.action {
        Action::ValidateConfig { fix } => return Ok(Route::ValidateConfig { fix }),
        Action::List => return Ok(Route::List),
        Action::Maintenance => return Ok(Route::Maintenance),
        Action::BackupLocal { target: BackupTarget::All } => return Ok(
            Route::BackupAll { kind: BackupKind::Local },
        ),
        Action::BackupRemote { target: BackupTarget::All } => return Ok(
            Route::BackupAll { kind: BackupKind::Remote },
        ),
        Action::BackupCleanup { dry_run } => return Ok(Route::Cleanup { dry_run }),
        _ => {},
    }
    let id = match &request.server {
        Some(id) => id,
        None => return Err(DispatchError::MissingServerName),
    };
    proof {
        crate::config::lemma_server_index(config.servers@, id@);
    }
    let i = match crate::config::find_server(config, id.as_str()) {
        Some(i) => i,
        None => return Err(DispatchError::UnknownServer { server_id: id.clone() }),
    };
    let server_type = config.servers[i].1.server_type;
    let minecraft = match server_type {
        ServerType::Minecraft => true,
        _ => false,
    };
    let reconcile_rcon = minecraft && action_needs_minecraft_rcon(request.action);
    Ok(
        Route::Server {
            server_id: id.clone(),
            server_type,
            reconcile_rcon,
            operation: server_operation(server_type, request.action),
        },
    )
}


// ---------------------------------------------------------------------------
// Stop, work, start again
// ---------------------------------------------------------------------------

/// The operation that a restart follows, as error texts name it.
#[derive(Debug, Clone, Copy, PartialEq, Eq, Structural)]
pub enum CycleLabel {
    Backup,
    Restore,
    VelocityBackup,
}

pub open spec fn label_text(l: CycleLabel) -> Seq<char> {
    match l {
        CycleLabel::Backup => "Backup"@,
        CycleLabel::Restore => "Restore"@,
        CycleLabel::VelocityBackup => "Velocity backup"@,
    }
}

/// `result` is what an operation with `outcome` comes to when the restart
/// after it failed with `restart_error`: the restart failure in the context
/// of the operation, and a failed operation's own error last.
pub open spec fn restart_combined(
    label: CycleLabel,
    outcome: Result<(), String>,
    restart_error: String,
    result: Result<(), String>,
) -> bool {
    match outcome {
        Ok(()) => result matches Err(m) && m@ == label_text(label)
            + " completed, but failed to restart server"@ + ": "@ + restart_error@,
        Err(b) => result matches Err(m) && m@ == label_text(label)
            + " failed, and server restart also failed: "@ + restart_error@ + ": "@ + b@,
    }
}

fn push_label(m: &mut String, label: CycleLabel)
    ensures
        final(m)@ == old(m)@ + label_text(label),
{
    match label {
        CycleLabel::Backup => m.append("Backup"),
        CycleLabel::Restore => m.append("Restore"),
        CycleLabel::VelocityBackup => m.append("Velocity backup"),
    }
}

/// The result of an operation after which the server was started again: the
/// operation's own outcome when the start succeeded.
pub fn restart_outcome(label: CycleLabel, outcome: Result<(), String>, restart: Result<(), String>) -> (r:
    Result<(), String>)
    ensures
        restart is Ok ==> r == outcome,
        restart matches Err(s) ==> restart_combined(label, outcome, s, r),
{
    match restart {
        Ok(()) => outcome,
        Err(s) => {
            let mut m = String::new();
            push_label(&mut m, label);
            match outcome {
                Ok(()) => {
                    m.append(" completed, but failed to restart server");
                    m.append(": ");
                    m.append(s.as_str());
                },
                Err(b) => {
                    m.append(" failed, and server restart also failed: ");
                    m.append(s.as_str());
                    m.append(": ");
                    m.append(b.as_str());
                },
            }
            Err(m)
        },
    }
}

/// One piece of work done while the server is stopped.
#[derive(Debug, Clone, Copy, PartialEq, Eq, Structural)]
pub enum CycleWork {
    LocalBackup,
    RemoteBackup,
    Restore { dry_run: bool },
}

/// How a running server is stopped for the work.
#[derive(Debug, Clone, Copy, PartialEq, Eq, Structural)]
pub enum StopMethod {
    /// A friendly stop through RCON.
    FriendlyRcon,
    /// The configured stop command.
    StopCommand,
}

/// What a cycle does: check the remote backup environment (first, or once
/// the server is stopped), stop the server if it runs (unless `stop_first`
/// is off: then the server is left as it is), do the work in order until a
/// piece fails, and start the server again if it ran (or anyway, with
/// `start_anyway`).
pub struct CyclePlan {
    pub server_name: String,
    pub validate_first: bool,
    pub stop_first: bool,
    pub validate_after_stop: bool,
    pub stop_method: StopMethod,
    pub work: Vec<CycleWork>,
    pub start_anyway: bool,
    pub label: CycleLabel,
}

/// Where a cycle stands.
pub enum CyclePhase {
    Validate,
    CheckRunning,
    Stop,
    Wait,
    ValidateAfterStop { was_running: bool },
    Work { index: usize, was_running: bool },
    Restart { outcome: Result<(), String> },
    Done { result: Result<(), String> },
}

/// What the caller does for a phase.
#[derive(Debug, Clone, Copy, PartialEq, Eq, Structural)]
pub enum CycleAction {
    ValidateRemoteEnv,
    CheckRunning,
    Stop { method: StopMethod },
    /// Poll until the session is gone, up to the maintenance timeout.
    WaitUntilStopped { timeout_secs: u64, poll_interval_secs: u64 },
    Run { work: CycleWork },
    Start,
    Finish,
}

/// What came of an action.
pub enum CycleEvent {
    Succeeded,
    Failed { error: String },
    Running { running: bool },
    Stopped { stopped: bool },
}

/// After the work, or in its place: start the server again when it ran or
/// when the plan starts it anyway.
pub open spec fn finish_phase(p: CyclePlan, was_running: bool, outcome: Result<(), String>) -> CyclePhase {
    if was_running || p.start_anyway {
        CyclePhase::Restart { outcome }
    } else {
        CyclePhase::Done { result: outcome }
    }
}

pub open spec fn work_phase(p: CyclePlan, was_running: bool) -> CyclePhase {
    if p.work@.len() > 0 {
        CyclePhase::Work { index: 0, was_running }
    } else {
        finish_phase(p, was_running, Ok(()))
    }
}

pub open spec fn after_stop_phase(p: CyclePlan, was_running: bool) -> CyclePhase {
    if p.validate_after_stop {
        CyclePhase::ValidateAfterStop { was_running }
    } else {
        work_phase(p, was_running)
    }
}

/// The phase after `phase` once `event` came of its action. An event that
/// does not answer the phase's action leaves the phase as it is.
pub open spec fn cycle_transition(p: CyclePlan, phase: CyclePhase, event: CycleEvent) -> CyclePhase {
    match (phase, event) {
        (CyclePhase::Validate, CycleEvent::Succeeded) => check_phase(p),
        (CyclePhase::Validate, CycleEvent::Failed { error }) => CyclePhase::Done { result: Err(error) },
        (CyclePhase::CheckRunning, CycleEvent::Running { running }) => if running {
            CyclePhase::Stop
        } else {
            after_stop_phase(p, false)
        },
        (CyclePhase::CheckRunning, CycleEvent::Failed { error }) => CyclePhase::Done { result: Err(error) },
        (CyclePhase::Stop, CycleEvent::Succeeded) => CyclePhase::Wait,
        (CyclePhase::Stop, CycleEvent::Failed { error }) => CyclePhase::Done { result: Err(error) },
        (CyclePhase::Wait, CycleEvent::Stopped { stopped }) => if stopped {
            after_stop_phase(p, true)
        } else {
            CyclePhase::Wait
        },
        (CyclePhase::Wait, CycleEvent::Failed { error }) => CyclePhase::Done { result: Err(error) },
        (CyclePhase::ValidateAfterStop { was_running }, CycleEvent::Succeeded) => work_phase(p, was_running),
        (CyclePhase::ValidateAfterStop { .. }, CycleEvent::Failed { error }) => CyclePhase::Done {
            result: Err(error),
        },
        (CyclePhase::Work { index, was_running }, CycleEvent::Succeeded) => if index + 1 < p.work@.len() {
            CyclePhase::Work { index: (index + 1) as usize, was_running }
        } else {
            finish_phase(p, was_running, Ok(()))
        },
        (CyclePhase::Work { was_running, .. }, CycleEvent::Failed { error }) => finish_phase(
            p,
            was_running,
            Err(error),
        ),
        (CyclePhase::Restart { outcome }, CycleEvent::Succeeded) => CyclePhase::Done { result: outcome },
        (ph, _) => ph,
    }
}

/// Every work item of a plan runs, in order, until one fails: after item
/// `index` succeeds comes item `index + 1` for the same server state, and
/// after the last one the server is started again when it was running or
/// the plan starts it anyway, else the cycle is over.
pub proof fn lemma_work_runs_in_order(p: CyclePlan, index: usize, was_running: bool)
    ensures
        index + 1 < p.work@.len() ==> cycle_transition(p, CyclePhase::Work { index, was_running }, CycleEvent::Succeeded)
            == (CyclePhase::Work { index: (index + 1) as usize, was_running }),
        index + 1 >= p.work@.len() ==> cycle_transition(
            p,
            CyclePhase::Work { index, was_running },
            CycleEvent::Succeeded,
        ) == if was_running || p.start_anyway {
            CyclePhase::Restart { outcome: Ok(()) }
        } else {
            CyclePhase::Done { result: Ok(()) }
        },
        forall|error: String|
            #[trigger] cycle_transition(p, CyclePhase::Work { index, was_running }, CycleEvent::Failed { error })
                == if was_running || p.start_anyway {
                CyclePhase::Restart { outcome: Err(error) }
            } else {
                CyclePhase::Done { result: Err(error) }
            },
        p.work@.len() > 0 ==> cycle_transition(
            p,
            CyclePhase::ValidateAfterStop { was_running },
            CycleEvent::Succeeded,
        ) == (CyclePhase::Work { index: 0, was_running }),
        p.work@.len() > 0 && !p.validate_after_stop ==> cycle_transition(
            p,
            CyclePhase::Wait,
            CycleEvent::Stopped { stopped: true },
        ) == (CyclePhase::Work { index: 0, was_running: true }),
{
}

/// After the remote check at the start: check whether the server runs, or
/// go on as with a stopped server when the plan leaves it alone.
pub open spec fn check_phase(p: CyclePlan) -> CyclePhase {
    if p.stop_first {
        CyclePhase::CheckRunning
    } else {
        after_stop_phase(p, false)
    }
}

/// Where a cycle begins.
pub fn cycle_begin(plan: &CyclePlan) -> (p: CyclePhase)
    ensures
        p == if plan.validate_first {
            CyclePhase::Validate
        } else {
            check_phase(*plan)
        },
{
    if plan.validate_first {
        CyclePhase::Validate
    } else {
        check(plan)
    }
}

fn check(plan: &CyclePlan) -> (p: CyclePhase)
    ensures
        p == check_phase(*plan),
{
    if plan.stop_first {
        CyclePhase::CheckRunning
    } else {
        after_stop(plan, false)
    }
}

/// What comes next when a fixed list of steps is run in order.
pub enum StepNext {
    /// Run the step at `index`.
    Run { index: usize },
    /// Stop with `result`.
    Done { result: Result<(), String> },
}

/// Runs a list of `len` steps in order, `done` of which have run so far,
/// `last` being the outcome of the latest one (`Ok` before the first): the
/// first failure ends the list with its error and no later step runs; after
/// the last step the list has succeeded. The steps of a maintenance task
/// and of a restart are run this way.
pub fn step_after(len: usize, done: usize, last: Result<(), String>) -> (r: StepNext)
    requires
        done <= len,
    ensures
        match last {
            Err(e) => r == (StepNext::Done { result: Err(e) }),
            Ok(()) => if done < len {
                r == (StepNext::Run { index: done })
            } else {
                r == (StepNext::Done { result: Ok(()) })
            },
        },
{
    match last {
        Err(e) => StepNext::Done { result: Err(e) },
        Ok(()) => if done < len {
            StepNext::Run { index: done }
        } else {
            StepNext::Done { result: Ok(()) }
        },
    }
}

/// What is announced before an action of a cycle: a Velocity cycle names
/// the stop and the start of server `server_id`; other cycles announce
/// nothing.
pub open spec fn announcement_text(plan: CyclePlan, action: CycleAction, server_id: Seq<char>) -> Option<
    Seq<char>,
> {
    if plan.label == CycleLabel::VelocityBackup {
        match action {
            CycleAction::Stop { .. } => Some("Stopping Velocity server "@ + server_id),
            CycleAction::Start => Some("Starting Velocity server "@ + server_id),
            _ => None,
        }
    } else {
        None
    }
}

pub fn cycle_announcement(plan: &CyclePlan, action: &CycleAction, server_id: &str) -> (r: Option<String>)
    ensures
        match (r, announcement_text(*plan, *action, server_id@)) {
            (Some(m), Some(t)) => m@ == t,
            (None, None) => true,
            _ => false,
        },
{
    if plan.label != CycleLabel::VelocityBackup {
        return None;
    }
    match action {
        CycleAction::Stop { .. } => {
            let mut m = String::from_str("Stopping Velocity server ");
            m.append(server_id);
            Some(m)
        },
        CycleAction::Start => {
            let mut m = String::from_str("Starting Velocity server ");
            m.append(server_id);
            Some(m)
        },
        _ => None,
    }
}

/// The action that a phase asks for.
pub fn cycle_action(plan: &CyclePlan, phase: &CyclePhase) -> (a: CycleAction)
    ensures
        a == match *phase {
            CyclePhase::Validate | CyclePhase::ValidateAfterStop { .. } => CycleAction::ValidateRemoteEnv,
            CyclePhase::CheckRunning => CycleAction::CheckRunning,
            CyclePhase::Stop => CycleAction::Stop { method: plan.stop_method },
            CyclePhase::Wait => CycleAction::WaitUntilStopped {
                timeout_secs: MAINTENANCE_STOP_TIMEOUT_SECS,
                poll_interval_secs: MAINTENANCE_POLL_INTERVAL_SECS,
            },
            CyclePhase::Work { index, .. } => if index < plan.work@.len() {
                CycleAction::Run { work: plan.work@[index as int] }
            } else {
                CycleAction::Finish
            },
            CyclePhase::Restart { .. } => CycleAction::Start,
            CyclePhase::Done { .. } => CycleAction::Finish,
        },
{
    match phase {
        CyclePhase::Validate | CyclePhase::ValidateAfterStop { .. } => CycleAction::ValidateRemoteEnv,
        CyclePhase::CheckRunning => CycleAction::CheckRunning,
        CyclePhase::Stop => CycleAction::Stop { method: plan.stop_method },
        CyclePhase::Wait => CycleAction::WaitUntilStopped {
            timeout_secs: MAINTENANCE_STOP_TIMEOUT_SECS,
            poll_interval_secs: MAINTENANCE_POLL_INTERVAL_SECS,
        },
        CyclePhase::Work { index, .. } => if *index < plan.work.len() {
            CycleAction::Run { work: plan.work[*index] }
        } else {
            CycleAction::Finish
        },
        CyclePhase::Restart { .. } => CycleAction::Start,
        CyclePhase::Done { .. } => CycleAction::Finish,
    }
}

/// How long a server may take to stop during maintenance, in seconds.
pub const MAINTENANCE_STOP_TIMEOUT_SECS: u64 = 900;

/// How often a stopping server is checked during maintenance, in seconds.
pub const MAINTENANCE_POLL_INTERVAL_SECS: u64 = 5;

fn finish(plan: &CyclePlan, was_running: bool, outcome: Result<(), String>) -> (p: CyclePhase)
    ensures
        p == finish_phase(*plan, was_running, outcome),
{
    if was_running || plan.start_anyway {
        CyclePhase::Restart { outcome }
    } else {
        CyclePhase::Done { result: outcome }
    }
}

fn begin_work(plan: &CyclePlan, was_running: bool) -> (p: CyclePhase)
    ensures
        p == work_phase(*plan, was_running),
{
    if plan.work.len() > 0 {
        CyclePhase::Work { index: 0, was_running }
    } else {
        finish(plan, was_running, Ok(()))
    }
}

fn after_stop(plan: &CyclePlan, was_running: bool) -> (p: CyclePhase)
    ensures
        p == after_stop_phase(*plan, was_running),
{
    if plan.validate_after_stop {
        CyclePhase::ValidateAfterStop { was_running }
    } else {
        begin_work(plan, was_running)
    }
}

/// Moves a cycle on. A server that did not stop in time ends the cycle; a
/// failed restart is reported with the outcome of the work.
pub fn cycle_step(plan: &CyclePlan, phase: CyclePhase, event: CycleEvent) -> (next: CyclePhase)
    ensures
        match (phase, event) {
            (CyclePhase::Wait, CycleEvent::Stopped { stopped: false }) => next matches CyclePhase::Done {
                result: Err(m),
            } && m@ == "Timed out waiting for server '"@ + plan.server_name@ + "' to stop"@,
            (CyclePhase::Restart { outcome }, CycleEvent::Failed { error }) => next matches CyclePhase::Done {
                result,
            } && restart_combined(plan.label, outcome, error, result),
            (ph, ev) => next == cycle_transition(*plan, ph, ev),
        },
        phase matches CyclePhase::Work { index, was_running } ==> (event is Succeeded ==> if index + 1
            < plan.work@.len() {
            next == (CyclePhase::Work { index: (index + 1) as usize, was_running })
        } else if was_running || plan.start_anyway {
            next == (CyclePhase::Restart { outcome: Ok(()) })
        } else {
            next == (CyclePhase::Done { result: Ok(()) })
        }),
{
    proof {
        if phase is Work && event is Succeeded {
            lemma_work_runs_in_order(*plan, phase->Work_index, phase->Work_was_running);
        }
    }
    match (phase, event) {
        (CyclePhase::Validate, CycleEvent::Succeeded) => check(plan),
        (CyclePhase::Validate, CycleEvent::Failed { error }) => CyclePhase::Done { result: Err(error) },
        (CyclePhase::CheckRunning, CycleEvent::Running { running }) => if running {
            CyclePhase::Stop
        } else {
            after_stop(plan, false)
        },
        (CyclePhase::CheckRunning, CycleEvent::Failed { error }) => CyclePhase::Done { result: Err(error) },
        (CyclePhase::Stop, CycleEvent::Succeeded) => CyclePhase::Wait,
        (CyclePhase::Stop, CycleEvent::Failed { error }) => CyclePhase::Done { result: Err(error) },
        (CyclePhase::Wait, CycleEvent::Stopped { stopped }) => if stopped {
            after_stop(plan, true)
        } else {
            let mut m = String::from_str("Timed out waiting for server '");
            m.append(plan.server_name.as_str());
            m.append("' to stop");
            CyclePhase::Done { result: Err(m) }
        },
        (CyclePhase::Wait, CycleEvent::Failed { error }) => CyclePhase::Done { result: Err(error) },
        (CyclePhase::ValidateAfterStop { was_running }, CycleEvent::Succeeded) => begin_work(plan, was_running),
        (CyclePhase::ValidateAfterStop { .. }, CycleEvent::Failed { error }) => CyclePhase::Done {
            result: Err(error),
        },
        (CyclePhase::Work { index, was_running }, CycleEvent::Succeeded) => if index < plan.work.len()
            && index + 1 < plan.work.len() {
            CyclePhase::Work { index: index + 1, was_running }
        } else {
            finish(plan, was_running, Ok(()))
        },
        (CyclePhase::Work { was_running, .. }, CycleEvent::Failed { error }) => finish(
            plan,
            was_running,
            Err(error),
        ),
        (CyclePhase::Restart { outcome }, CycleEvent::Succeeded) => CyclePhase::Done { result: outcome },
        (CyclePhase::Restart { outcome }, CycleEvent::Failed { error }) => CyclePhase::Done {
            result: restart_outcome(plan.label, outcome, Err(error)),
        },
        (ph, _) => ph,
    }
}


/// The cycle around a backup: the remote environment is checked first for a
/// remote backup; a running server is stopped friendly through RCON when it is
/// a Minecraft server, else with its stop command, and started again after.
pub fn backup_cycle(server_name: &str, server_type: ServerType, kind: BackupKind) -> (p: CyclePlan)
    ensures
        p.server_name@ == server_name@,
        p.validate_first == (kind == BackupKind::Remote),
        p.stop_first,
        !p.validate_after_stop,
        p.stop_method == stop_method_of(server_type),
        p.work@ == seq![work_of(kind)],
        !p.start_anyway,
        p.label == CycleLabel::Backup,
{
    let work = match kind {
        BackupKind::Local => CycleWork::LocalBackup,
        BackupKind::Remote => CycleWork::RemoteBackup,
    };
    let p = CyclePlan {
        server_name: String::from_str(server_name),
        validate_first: match kind {
            BackupKind::Remote => true,
            BackupKind::Local => false,
        },
        stop_first: true,
        validate_after_stop: false,
        stop_method: stop_method_for(server_type),
        work: vec![work],
        start_anyway: false,
        label: CycleLabel::Backup,
    };
    assert(p.work@ =~= seq![work_of(kind)]);
    p
}

pub open spec fn work_of(kind: BackupKind) -> CycleWork {
    match kind {
        BackupKind::Local => CycleWork::LocalBackup,
        BackupKind::Remote => CycleWork::RemoteBackup,
    }
}

/// Minecraft servers stop friendly through RCON; others with their stop command.
pub open spec fn stop_method_of(t: ServerType) -> StopMethod {
    if t == ServerType::Minecraft {
        StopMethod::FriendlyRcon
    } else {
        StopMethod::StopCommand
    }
}

fn stop_method_for(t: ServerType) -> (m: StopMethod)
    ensures
        m == stop_method_of(t),
{
    match t {
        ServerType::Minecraft => StopMethod::FriendlyRcon,
        _ => StopMethod::StopCommand,
    }
}

/// The cycle around a restore; a dry run leaves a running server alone.
pub fn restore_cycle(server_name: &str, server_type: ServerType, dry_run: bool) -> (p: CyclePlan)
    ensures
        p.server_name@ == server_name@,
        !p.validate_first,
        p.stop_first == !dry_run,
        !p.validate_after_stop,
        p.stop_method == stop_method_of(server_type),
        p.work@ == seq![CycleWork::Restore { dry_run }],
        !p.start_anyway,
        p.label == CycleLabel::Restore,
{
    let p = CyclePlan {
        server_name: String::from_str(server_name),
        validate_first: false,
        stop_first: !dry_run,
        validate_after_stop: false,
        stop_method: stop_method_for(server_type),
        work: vec![CycleWork::Restore { dry_run }],
        start_anyway: false,
        label: CycleLabel::Restore,
    };
    assert(p.work@ =~= seq![CycleWork::Restore { dry_run }]);
    p
}

/// The cycle of a Velocity proxy before backend maintenance: stopped if it
/// runs; with `backup = true` its remote environment is checked and it is
/// backed up locally, then remotely; it is started again when it ran or is
/// enabled.
pub fn velocity_cycle(server_name: &str, server: &ServerConfig) -> (p: CyclePlan)
    ensures
        p.server_name@ == server_name@,
        !p.validate_first,
        p.stop_first,
        p.validate_after_stop == flag(server.backup),
        p.stop_method == StopMethod::StopCommand,
        p.work@ == if flag(server.backup) {
            seq![CycleWork::LocalBackup, CycleWork::RemoteBackup]
        } else {
            seq![]
        },
        p.start_anyway == flag(server.enabled),
        p.label == CycleLabel::VelocityBackup,
{
    let backup = server.backup == Some(true);
    let work = if backup {
        vec![CycleWork::LocalBackup, CycleWork::RemoteBackup]
    } else {
        Vec::new()
    };
    let p = CyclePlan {
        server_name: String::from_str(server_name),
        validate_first: false,
        stop_first: true,
        validate_after_stop: backup,
        stop_method: StopMethod::StopCommand,
        work,
        start_anyway: server.enabled == Some(true),
        label: CycleLabel::VelocityBackup,
    };
    assert(p.work@ =~= if flag(server.backup) {
        seq![CycleWork::LocalBackup, CycleWork::RemoteBackup]
    } else {
        seq![]
    });
    p
}

// ---------------------------------------------------------------------------
// The fleet
// ---------------------------------------------------------------------------

/// Which servers a fleet-wide step concerns.
#[derive(Debug, Clone, Copy, PartialEq, Eq, Structural)]
pub enum Selection {
    All,
    Minecraft,
    Velocity,
    /// Every server but the Velocity proxies.
    Backends,
    /// Servers with `backup = true`.
    BackupEnabled,
}

pub open spec fn selected(sel: Selection, s: ServerConfig) -> bool {
    match sel {
        Selection::All => true,
        Selection::Minecraft => s.server_type == ServerType::Minecraft,
        Selection::Velocity => s.server_type == ServerType::Velocity,
        Selection::Backends => s.server_type != ServerType::Velocity,
        Selection::BackupEnabled => flag(s.backup),
    }
}

fn is_selected(sel: Selection, s: &ServerConfig) -> (b: bool)
    ensures
        b == selected(sel, *s),
{
    match sel {
        Selection::All => true,
        Selection::Minecraft => match s.server_type {
            ServerType::Minecraft => true,
            _ => false,
        },
        Selection::Velocity => match s.server_type {
            ServerType::Velocity => true,
            _ => false,
        },
        Selection::Backends => match s.server_type {
            ServerType::Velocity => false,
            _ => true,
        },
        Selection::BackupEnabled => s.backup == Some(true),
    }
}

/// The IDs of the selected servers, in configuration order.
pub open spec fn ids_with(servers: Seq<(String, ServerConfig)>, sel: Selection) -> Seq<String>
    decreases servers.len(),
{
    if servers.len() == 0 {
        seq![]
    } else {
        ids_with(servers.drop_last(), sel) + if selected(sel, servers.last().1) {
            seq![servers.last().0]
        } else {
            seq![]
        }
    }
}

/// The IDs of the selected servers, in configuration order.
pub fn server_ids(config: &Config, sel: Selection) -> (r: Vec<String>)
    ensures
        r@ == ids_with(config.servers@, sel),
{
    let mut r: Vec<String> = Vec::new();
    let mut i: usize = 0;
    while i < config.servers.len()
        invariant
            i <= config.servers.len(),
            r@ == ids_with(config.servers@.take(i as int), sel),
        decreases config.servers.len() - i,
    {
        assert(config.servers@.take(i + 1).drop_last() =~= config.servers@.take(i as int));
        if is_selected(sel, &config.servers[i].1) {
            r.push(config.servers[i].0.clone());
        }
        i = i + 1;
        assert(r@ =~= ids_with(config.servers@.take(i as int), sel));
    }
    assert(config.servers@.take(config.servers.len() as int) =~= config.servers@);
    r
}

/// The IDs of the selected servers in the order of `String`: the order in
/// which fleet-wide work goes through them.
pub fn sorted_server_ids(config: &Config, sel: Selection) -> (r: Vec<String>)
    ensures
        crate::text::sorted_by_key(r@),
        r@.to_multiset() == ids_with(config.servers@, sel).to_multiset(),
{
    crate::text::sort_by_key(server_ids(config, sel))
}

/// What daily maintenance does to one backend server.
#[derive(Debug, PartialEq, Eq)]
pub struct MaintenanceTask {
    pub server_id: String,
    pub was_running: bool,
    pub should_start: bool,
    pub should_backup: bool,
}

/// The maintenance task of a server: none for a Velocity proxy, and none for
/// a server that is stopped, not enabled and not backed up.
pub open spec fn maintenance_task_for(servers: Seq<(String, ServerConfig)>, id: String, running: bool) -> Option<
    MaintenanceTask,
> {
    match server_index(servers, id@) {
        None => None,
        Some(i) => {
            let s = servers[i].1;
            if s.server_type == ServerType::Velocity {
                None
            } else if running || flag(s.enabled) || flag(s.backup) {
                Some(
                    MaintenanceTask {
                        server_id: id,
                        was_running: running,
                        should_start: flag(s.enabled),
                        should_backup: flag(s.backup),
                    },
                )
            } else {
                None
            }
        },
    }
}

/// The tasks of the first `n` candidates, in their order.
pub open spec fn tasks_upto(
    servers: Seq<(String, ServerConfig)>,
    ids: Seq<String>,
    running: Seq<bool>,
    n: nat,
) -> Seq<MaintenanceTask>
    decreases n,
{
    if n == 0 {
        seq![]
    } else {
        tasks_upto(servers, ids, running, (n - 1) as nat) + match maintenance_task_for(
            servers,
            ids[n - 1],
            running[n - 1],
        ) {
            Some(t) => seq![t],
            None => seq![],
        }
    }
}

/// The maintenance tasks of the candidates, each with whether its server was
/// running (`running[i]` for `candidates[i]`).
pub fn build_maintenance_tasks(config: &Config, candidates: &Vec<String>, running: &Vec<bool>) -> (r: Vec<
    MaintenanceTask,
>)
    requires
        candidates.len() == running.len(),
    ensures
        r@ == tasks_upto(config.servers@, candidates@, running@, candidates@.len()),
{
    let mut r: Vec<MaintenanceTask> = Vec::new();
    let mut k: usize = 0;
    while k < candidates.len()
        invariant
            k <= candidates.len(),
            candidates.len() == running.len(),
            r@ == tasks_upto(config.servers@, candidates@, running@, k as nat),
        decreases candidates.len() - k,
    {
        proof {
            crate::config::lemma_server_index(config.servers@, candidates@[k as int]@);
        }
        match crate::config::find_server(config, candidates[k].as_str()) {
            Some(i) => {
                let s = &config.servers[i].1;
                let velocity = match s.server_type {
                    ServerType::Velocity => true,
                    _ => false,
                };
                let start = s.enabled == Some(true);
                let backup = s.backup == Some(true);
                if !velocity && (running[k] || start || backup) {
                    r.push(
                        MaintenanceTask {
                            server_id: candidates[k].clone(),
                            was_running: running[k],
                            should_start: start,
                            should_backup: backup,
                        },
                    );
                }
            },
            None => {},
        }
        k = k + 1;
        assert(r@ =~= tasks_upto(config.servers@, candidates@, running@, k as nat));
    }
    r
}

/// The steps of a maintenance task, each of which must succeed: check the
/// remote environment and back up (locally, then remotely) when the server
/// is backed up; stop it first if it ran; start it after if it is enabled.
pub fn process_maintenance_task(task: &MaintenanceTask, server_type: ServerType) -> (r: Vec<CycleAction>)
    ensures
        r@ == (if task.should_backup {
            seq![CycleAction::ValidateRemoteEnv]
        } else {
            seq![]
        }) + (if task.was_running {
            seq![
                CycleAction::Stop { method: stop_method_of(server_type) },
                CycleAction::WaitUntilStopped {
                    timeout_secs: MAINTENANCE_STOP_TIMEOUT_SECS,
                    poll_interval_secs: MAINTENANCE_POLL_INTERVAL_SECS,
                },
            ]
        } else {
            seq![]
        }) + (if task.should_backup {
            seq![
                CycleAction::Run { work: CycleWork::LocalBackup },
                CycleAction::Run { work: CycleWork::RemoteBackup },
            ]
        } else {
            seq![]
        }) + (if task.should_start {
            seq![CycleAction::Start]
        } else {
            seq![]
        }),
{
    let mut r: Vec<CycleAction> = Vec::new();
    if task.should_backup {
        r.push(CycleAction::ValidateRemoteEnv);
    }
    if task.was_running {
        r.push(CycleAction::Stop { method: stop_method_for(server_type) });
        r.push(
            CycleAction::WaitUntilStopped {
                timeout_secs: MAINTENANCE_STOP_TIMEOUT_SECS,
                poll_interval_secs: MAINTENANCE_POLL_INTERVAL_SECS,
            },
        );
    }
    if task.should_backup {
        r.push(CycleAction::Run { work: CycleWork::LocalBackup });
        r.push(CycleAction::Run { work: CycleWork::RemoteBackup });
    }
    if task.should_start {
        r.push(CycleAction::Start);
    }
    assert(r@ =~= (if task.should_backup {
        seq![CycleAction::ValidateRemoteEnv]
    } else {
        seq![]
    }) + (if task.was_running {
        seq![
            CycleAction::Stop { method: stop_method_of(server_type) },
            CycleAction::WaitUntilStopped {
                timeout_secs: MAINTENANCE_STOP_TIMEOUT_SECS,
                poll_interval_secs: MAINTENANCE_POLL_INTERVAL_SECS,
            },
        ]
    } else {
        seq![]
    }) + (if task.should_backup {
        seq![
            CycleAction::Run { work: CycleWork::LocalBackup },
            CycleAction::Run { work: CycleWork::RemoteBackup },
        ]
    } else {
        seq![]
    }) + (if task.should_start {
        seq![CycleAction::Start]
    } else {
        seq![]
    }));
    r
}

/// `<id>: <error>` for each failed server.
pub open spec fn failure_lines(failures: Seq<(String, String)>) -> Seq<Seq<char>> {
    failures.map_values(|f: (String, String)| f.0@ + ": "@ + f.1@)
}

/// Fleet work succeeds when no server failed; else it fails with a heading
/// and one `- <id>: <error>` line per failed server.
pub fn failure_report(heading: &str, failures: &Vec<(String, String)>) -> (r: Result<(), String>)
    ensures
        failures@.len() == 0 ==> r is Ok,
        failures@.len() > 0 ==> (r matches Err(m) && m@ == heading@ + ":\n- "@ + crate::text::join_with(
            failure_lines(failures@),
            "\n- "@,
        )),
{
    if failures.len() == 0 {
        return Ok(());
    }
    let mut lines: Vec<String> = Vec::new();
    let mut i: usize = 0;
    while i < failures.len()
        invariant
            i <= failures.len(),
            crate::text::views(lines@) == failure_lines(failures@).take(i as int),
        decreases failures.len() - i,
    {
        let mut line = failures[i].0.clone();
        line.append(": ");
        line.append(failures[i].1.as_str());
        crate::text::push_text(&mut lines, line);
        i = i + 1;
        assert(crate::text::views(lines@) =~= failure_lines(failures@).take(i as int));
    }
    assert(failure_lines(failures@).take(failures.len() as int) =~= failure_lines(failures@));
    let mut m = String::from_str(heading);
    m.append(":\n- ");
    crate::text::push_joined(&mut m, &lines, "\n- ");
    Err(m)
}

/// How daily maintenance ends once every task has run.
pub enum MaintenanceEnd {
    Failed { error: String },
    /// Run the remote retention cleanup, then finish.
    CleanupThenFinish,
    Finished,
}

/// Daily maintenance fails when a task failed; else, on Mondays, when some
/// server is backed up, it ends with the remote retention cleanup.
pub fn maintenance_end(config: &Config, failures: &Vec<(String, String)>, monday: bool) -> (r: MaintenanceEnd)
    ensures
        failures@.len() > 0 ==> (r matches MaintenanceEnd::Failed { error: m } && m@ == "Daily maintenance failed"@
            + ":\n- "@ + crate::text::join_with(failure_lines(failures@), "\n- "@)),
        failures@.len() == 0 && monday && crate::config::any_backup_enabled(config.servers@) ==> r is CleanupThenFinish,
        failures@.len() == 0 && !(monday && crate::config::any_backup_enabled(config.servers@)) ==> r is Finished,
{
    match failure_report("Daily maintenance failed", failures) {
        Err(m) => MaintenanceEnd::Failed { error: m },
        Ok(()) => if monday && crate::config::has_backup_enabled_servers(config) {
            MaintenanceEnd::CleanupThenFinish
        } else {
            MaintenanceEnd::Finished
        },
    }
}

/// The error of a failed cleanup after successful maintenance.
pub fn cleanup_failure(error: &str) -> (m: String)
    ensures
        m@ == "Daily maintenance backups completed, but remote cleanup failed"@ + ": "@ + error@,
{
    let mut m = String::from_str("Daily maintenance backups completed, but remote cleanup failed");
    m.append(": ");
    m.append(error);
    m
}


// ---------------------------------------------------------------------------
// The server list
// ---------------------------------------------------------------------------

/// One row of `list`.
pub struct ListRow {
    pub id: String,
    pub server: String,
    pub server_type: String,
    pub status: String,
}

/// The row of a server: its ID, name, type, and `running` or `stopped`.
pub fn list_row(server_id: &str, server: &ServerConfig, running: bool) -> (r: ListRow)
    ensures
        r.id@ == server_id@,
        r.server@ == server.name@,
        r.server_type@ == crate::config::server_type_text(server.server_type),
        r.status@ == if running {
            "running"@
        } else {
            "stopped"@
        },
{
    ListRow {
        id: String::from_str(server_id),
        server: server.name.clone(),
        server_type: String::from_str(server.server_type.name()),
        status: String::from_str(
            if running {
                "running"
            } else {
                "stopped"
            },
        ),
    }
}

/// The length in bytes of a text, as `str::len` gives it.
pub open spec fn byte_len(s: Seq<char>) -> nat {
    (crate::text::utf8(s).len() as usize) as nat
}

/// The longest byte length among texts.
pub open spec fn max_byte_len(values: Seq<Seq<char>>) -> nat
    decreases values.len(),
{
    if values.len() == 0 {
        0
    } else {
        let rest = max_byte_len(values.drop_last());
        let last = byte_len(values.last());
        if last > rest {
            last
        } else {
            rest
        }
    }
}

/// The width of a column: its longest value or its header, in bytes.
pub fn list_column_width(header: &str, values: &Vec<String>) -> (w: usize)
    ensures
        w == if byte_len(header@) > max_byte_len(crate::text::views(values@)) {
            byte_len(header@)
        } else {
            max_byte_len(crate::text::views(values@))
        },
{
    let mut widest: usize = 0;
    let mut i: usize = 0;
    while i < values.len()
        invariant
            i <= values.len(),
            widest == max_byte_len(crate::text::views(values@).take(i as int)),
        decreases values.len() - i,
    {
        assert(crate::text::views(values@).take(i + 1).drop_last() =~= crate::text::views(values@).take(
            i as int,
        ));
        let n = values[i].as_str().len();
        if n > widest {
            widest = n;
        }
        i = i + 1;
    }
    assert(crate::text::views(values@).take(values.len() as int) =~= crate::text::views(values@));
    let h = header.len();
    if h > widest {
        h
    } else {
        widest
    }
}

/// A text padded with spaces to `width` characters.
pub open spec fn padded(s: Seq<char>, width: nat) -> Seq<char> {
    if s.len() >= width {
        s
    } else {
        s + Seq::new((width - s.len()) as nat, |i: int| ' ')
    }
}

/// A row of the list: the first three columns padded to their widths,
/// columns two spaces apart.
pub open spec fn list_line(
    id: Seq<char>,
    server: Seq<char>,
    server_type: Seq<char>,
    status: Seq<char>,
    id_width: nat,
    server_width: nat,
    type_width: nat,
) -> Seq<char> {
    padded(id, id_width) + "  "@ + padded(server, server_width) + "  "@ + padded(server_type, type_width)
        + "  "@ + status
}

fn push_padded(out: &mut String, s: &str, width: usize)
    ensures
        final(out)@ == old(out)@ + padded(s@, width as nat),
{
    let ghost start = out@;
    out.append(s);
    let n = crate::text::chars_of(s).len();
    let mut k = n;
    while k < width
        invariant
            n == s@.len(),
            k >= n,
            k <= width || k == n,
            out@ == start + s@ + Seq::new((k - n) as nat, |i: int| ' '),
        decreases width - k,
    {
        out.push(' ');
        k = k + 1;
        assert(out@ =~= start + s@ + Seq::new((k - n) as nat, |i: int| ' '));
    }
    assert(out@ =~= start + padded(s@, width as nat));
}

pub fn format_list_row(
    id: &str,
    server: &str,
    server_type: &str,
    status: &str,
    id_width: usize,
    server_width: usize,
    type_width: usize,
) -> (r: String)
    ensures
        r@ == list_line(
            id@,
            server@,
            server_type@,
            status@,
            id_width as nat,
            server_width as nat,
            type_width as nat,
        ),
{
    let mut r = String::new();
    push_padded(&mut r, id, id_width);
    r.append("  ");
    push_padded(&mut r, server, server_width);
    r.append("  ");
    push_padded(&mut r, server_type, type_width);
    r.append("  ");
    r.append(status);
    r
}

/// The lines of `list`: a header, then one row per server, with columns as
/// wide as their widest value.
pub fn list_servers(rows: &Vec<ListRow>) -> (r: Vec<String>)
    ensures
        r@.len() == rows@.len() + 1,
        ({
            let ids = rows@.map_values(|row: ListRow| row.id@);
            let names = rows@.map_values(|row: ListRow| row.server@);
            let types = rows@.map_values(|row: ListRow| row.server_type@);
            let iw = if byte_len("ID"@) > max_byte_len(ids) {
                byte_len("ID"@)
            } else {
                max_byte_len(ids)
            };
            let sw = if byte_len("SERVER"@) > max_byte_len(names) {
                byte_len("SERVER"@)
            } else {
                max_byte_len(names)
            };
            let tw = if byte_len("TYPE"@) > max_byte_len(types) {
                byte_len("TYPE"@)
            } else {
                max_byte_len(types)
            };
            &&& r@[0]@ == list_line("ID"@, "SERVER"@, "TYPE"@, "STATUS"@, iw, sw, tw)
            &&& forall|i: int|
                0 <= i < rows@.len() ==> (#[trigger] r@[i + 1])@ == list_line(
                    rows@[i].id@,
                    rows@[i].server@,
                    rows@[i].server_type@,
                    rows@[i].status@,
                    iw,
                    sw,
                    tw,
                )
        }),
{
    let mut ids: Vec<String> = Vec::new();
    let mut names: Vec<String> = Vec::new();
    let mut types: Vec<String> = Vec::new();
    let mut i: usize = 0;
    while i < rows.len()
        invariant
            i <= rows.len(),
            crate::text::views(ids@) == rows@.map_values(|row: ListRow| row.id@).take(i as int),
            crate::text::views(names@) == rows@.map_values(|row: ListRow| row.server@).take(i as int),
            crate::text::views(types@) == rows@.map_values(|row: ListRow| row.server_type@).take(i as int),
        decreases rows.len() - i,
    {
        crate::text::push_text(&mut ids, rows[i].id.clone());
        crate::text::push_text(&mut names, rows[i].server.clone());
        crate::text::push_text(&mut types, rows[i].server_type.clone());
        i = i + 1;
        assert(crate::text::views(ids@) =~= rows@.map_values(|row: ListRow| row.id@).take(i as int));
        assert(crate::text::views(names@) =~= rows@.map_values(|row: ListRow| row.server@).take(i as int));
        assert(crate::text::views(types@) =~= rows@.map_values(|row: ListRow| row.server_type@).take(
            i as int,
        ));
    }
    assert(rows@.map_values(|row: ListRow| row.id@).take(rows.len() as int) =~= rows@.map_values(
        |row: ListRow| row.id@,
    ));
    assert(rows@.map_values(|row: ListRow| row.server@).take(rows.len() as int) =~= rows@.map_values(
        |row: ListRow| row.server@,
    ));
    assert(rows@.map_values(|row: ListRow| row.server_type@).take(rows.len() as int) =~= rows@.map_values(
        |row: ListRow| row.server_type@,
    ));
    let iw = list_column_width("ID", &ids);
    let sw = list_column_width("SERVER", &names);
    let tw = list_column_width("TYPE", &types);
    let mut r: Vec<String> = Vec::new();
    r.push(format_list_row("ID", "SERVER", "TYPE", "STATUS", iw, sw, tw));
    let mut j: usize = 0;
    while j < rows.len()
        invariant
            j <= rows.len(),
            r@.len() == j + 1,
            r@[0]@ == list_line("ID"@, "SERVER"@, "TYPE"@, "STATUS"@, iw as nat, sw as nat, tw as nat),
            forall|k: int|
                0 <= k < j ==> (#[trigger] r@[k + 1])@ == list_line(
                    rows@[k].id@,
                    rows@[k].server@,
                    rows@[k].server_type@,
                    rows@[k].status@,
                    iw as nat,
                    sw as nat,
                    tw as nat,
                ),
        decreases rows.len() - j,
    {
        let row = &rows[j];
        r.push(
            format_list_row(
                row.id.as_str(),
                row.server.as_str(),
                row.server_type.as_str(),
                row.status.as_str(),
                iw,
                sw,
                tw,
            ),
        );
        j = j + 1;
    }
    r
}


// ---------------------------------------------------------------------------
// What every cycle keeps
// ---------------------------------------------------------------------------

/// A phase of a cycle whose server was found stopped.
pub open spec fn found_stopped(phase: CyclePhase) -> bool {
    match phase {
        CyclePhase::ValidateAfterStop { was_running } => !was_running,
        CyclePhase::Work { was_running, .. } => !was_running,
        CyclePhase::Done { .. } => true,
        _ => false,
    }
}

/// A server that was already stopped is worked on without being started
/// afterwards: once a backup or restore cycle has found it stopped, no later
/// phase starts it.
pub proof fn lemma_stopped_server_stays_stopped(p: CyclePlan, phase: CyclePhase, event: CycleEvent)
    requires
        !p.start_anyway,
        found_stopped(phase) || (phase is CheckRunning && event == (CycleEvent::Running { running: false })),
    ensures
        found_stopped(cycle_transition(p, phase, event)),
        !(cycle_transition(p, phase, event) is Restart),
{
}

/// A phase of a cycle whose server was running and has been stopped.
pub open spec fn stopped_for_work(phase: CyclePhase) -> bool {
    match phase {
        CyclePhase::ValidateAfterStop { was_running } => was_running,
        CyclePhase::Work { was_running, .. } => was_running,
        CyclePhase::Restart { .. } => true,
        _ => false,
    }
}

/// A server that was running is started again once its work is over,
/// whether the work succeeded or failed: from the work on, every phase
/// leads to the restart (a failed remote check after the stop aside).
pub proof fn lemma_running_server_is_restarted(p: CyclePlan, phase: CyclePhase, event: CycleEvent)
    requires
        phase is Work && stopped_for_work(phase),
        event is Succeeded || event is Failed,
    ensures
        stopped_for_work(cycle_transition(p, phase, event)),
{
}

/// The work of a cycle that stops its server runs only after the server was
/// found stopped or was stopped and waited for: such a cycle reaches its
/// work from no other phase.
pub proof fn lemma_work_follows_stop(p: CyclePlan, phase: CyclePhase, event: CycleEvent)
    requires
        p.stop_first,
        !(phase is Work) && !(phase is ValidateAfterStop),
        cycle_transition(p, phase, event) is Work,
    ensures
        (phase is CheckRunning && event == (CycleEvent::Running { running: false })) || (phase is Wait
            && event == (CycleEvent::Stopped { stopped: true })),
{
}


/// A maintenance task as the configuration of its server asks for it.
pub open spec fn task_fits(servers: Seq<(String, ServerConfig)>, t: MaintenanceTask) -> bool {
    match server_index(servers, t.server_id@) {
        Some(i) => {
            &&& servers[i].1.server_type != ServerType::Velocity
            &&& t.should_start == flag(servers[i].1.enabled)
            &&& t.should_backup == flag(servers[i].1.backup)
            &&& (t.was_running || t.should_start || t.should_backup)
        },
        None => false,
    }
}

/// Daily maintenance leaves Velocity proxies to their own phase, and gives
/// no task to a backend server that is stopped, not enabled and not backed
/// up; every task starts exactly the enabled servers and backs up exactly the
/// servers with `backup = true`.
pub proof fn lemma_maintenance_tasks_fit(
    servers: Seq<(String, ServerConfig)>,
    ids: Seq<String>,
    running: Seq<bool>,
    n: nat,
)
    ensures
        forall|k: int|
            0 <= k < tasks_upto(servers, ids, running, n).len() ==> task_fits(
                servers,
                #[trigger] tasks_upto(servers, ids, running, n)[k],
            ),
    decreases n,
{
    if n > 0 {
        lemma_maintenance_tasks_fit(servers, ids, running, (n - 1) as nat);
        let before = tasks_upto(servers, ids, running, (n - 1) as nat);
        let all = tasks_upto(servers, ids, running, n);
        assert forall|k: int| 0 <= k < all.len() implies task_fits(servers, #[trigger] all[k]) by {
            if k < before.len() {
                assert(all[k] == before[k]);
            } else {
                crate::config::lemma_server_index(servers, ids[n - 1]@);
            }
        }
    }
}


/// Every selected ID is the ID of a configured server that the selection
/// takes: `--all` backups see only servers with `backup = true`, the Velocity
/// phase only Velocity proxies.
pub proof fn lemma_selected_ids(servers: Seq<(String, ServerConfig)>, sel: Selection)
    ensures
        forall|k: int|
            0 <= k < ids_with(servers, sel).len() ==> exists|i: int|
                0 <= i < servers.len() && servers[i].0 == #[trigger] ids_with(servers, sel)[k]
                    && selected(sel, servers[i].1),
    decreases servers.len(),
{
    if servers.len() > 0 {
        let rest = servers.drop_last();
        lemma_selected_ids(rest, sel);
        let ids = ids_with(servers, sel);
        let before = ids_with(rest, sel);
        assert forall|k: int| 0 <= k < ids.len() implies exists|i: int|
            0 <= i < servers.len() && servers[i].0 == #[trigger] ids[k] && selected(sel, servers[i].1) by {
            if k < before.len() {
                assert(ids[k] == before[k]);
                let i = choose|i: int| 0 <= i < rest.len() && rest[i].0 == before[k] && selected(sel, rest[i].1);
                assert(servers[i] == rest[i]);
            } else {
                let i = servers.len() - 1;
                assert(servers[i] == servers.last());
            }
        }
    }
}

/// No two servers share an ID, as TOML table keys guarantee.
pub open spec fn keys_unique(servers: Seq<(String, ServerConfig)>) -> bool {
    forall|i: int, j: int| 0 <= i < j < servers.len() ==> (#[trigger] servers[i]).0@ != (#[trigger] servers[j]).0@
}

/// A fleet-wide step goes through each server it selects exactly once and
/// through no other: among the selected IDs, the ID of server `i` occurs
/// once when the selection takes the server and never otherwise, and an ID
/// that no server has never occurs. With `BackupEnabled` this is `backup
/// --all`: one backup per server with `backup = true`, none for the rest.
pub proof fn lemma_each_selected_server_once(servers: Seq<(String, ServerConfig)>, sel: Selection)
    requires
        keys_unique(servers),
    ensures
        forall|i: int|
            0 <= i < servers.len() ==> ids_with(servers, sel).to_multiset().count(#[trigger] servers[i].0) == if selected(
                sel,
                servers[i].1,
            ) {
                1nat
            } else {
                0nat
            },
        forall|x: String|
            (forall|i: int| 0 <= i < servers.len() ==> (#[trigger] servers[i]).0 != x) ==> ids_with(
                servers,
                sel,
            ).to_multiset().count(x) == 0,
    decreases servers.len(),
{
    broadcast use vstd::seq_lib::to_multiset_build;
    broadcast use vstd::multiset::group_multiset_axioms;

    if servers.len() == 0 {
        assert(ids_with(servers, sel) =~= Seq::<String>::empty());
        assert(Seq::<String>::empty().to_multiset() =~= vstd::multiset::Multiset::<String>::empty()) by {
            broadcast use vstd::seq_lib::group_seq_properties;
        }
    } else {
        let rest = servers.drop_last();
        let last = servers.last();
        assert(keys_unique(rest)) by {
            assert forall|i: int, j: int| 0 <= i < j < rest.len() implies (#[trigger] rest[i]).0@ != (
            #[trigger] rest[j]).0@ by {
                assert(rest[i] == servers[i] && rest[j] == servers[j]);
            }
        }
        lemma_each_selected_server_once(rest, sel);
        let before = ids_with(rest, sel);
        let all = ids_with(servers, sel);
        if selected(sel, last.1) {
            assert(all =~= before.push(last.0));
        } else {
            assert(all =~= before);
        }
        assert(before.to_multiset().count(last.0) == 0) by {
            assert forall|i: int| 0 <= i < rest.len() implies (#[trigger] rest[i]).0 != last.0 by {
                assert(rest[i] == servers[i]);
                assert(servers[i].0@ != servers[servers.len() - 1].0@);
            }
        }
        assert forall|i: int| 0 <= i < servers.len() implies all.to_multiset().count(#[trigger] servers[i].0)
            == if selected(sel, servers[i].1) {
            1nat
        } else {
            0nat
        } by {
            if i < rest.len() {
                assert(rest[i] == servers[i]);
                assert(servers[i].0@ != servers[servers.len() - 1].0@);
                assert(rest[i].0 != last.0);
            } else {
                assert(servers[i] == last);
            }
        }
        assert forall|x: String|
            (forall|i: int| 0 <= i < servers.len() ==> (#[trigger] servers[i]).0 != x) implies all.to_multiset().count(
            x,
        ) == 0 by {
            assert forall|i: int| 0 <= i < rest.len() implies (#[trigger] rest[i]).0 != x by {
                assert(rest[i] == servers[i]);
            }
            assert(servers[servers.len() - 1].0 != x);
        }
    }
}

/// Whether maintenance has work for a backend server: it was running, is
/// enabled, or is backed up.
pub open spec fn needs_maintenance(s: ServerConfig, running: bool) -> bool {
    s.server_type != ServerType::Velocity && (running || flag(s.enabled) || flag(s.backup))
}

/// The task of server `s` with ID `id` that was (or was not) running.
pub open spec fn task_of(id: String, s: ServerConfig, running: bool) -> MaintenanceTask {
    MaintenanceTask { server_id: id, was_running: running, should_start: flag(s.enabled), should_backup: flag(s.backup) }
}

/// The tasks of the first `n` candidates come from those candidates, in
/// their order, and a candidate that names a server needing maintenance has
/// its task among them.
proof fn lemma_tasks_follow_ids(
    servers: Seq<(String, ServerConfig)>,
    ids: Seq<String>,
    running: Seq<bool>,
    n: nat,
)
    requires
        keys_unique(servers),
        n <= ids.len(),
        n <= running.len(),
    ensures
        forall|k: int|
            0 <= k < tasks_upto(servers, ids, running, n).len() ==> exists|j: int|
                0 <= j < n && ids[j] == (#[trigger] tasks_upto(servers, ids, running, n)[k]).server_id
                    && tasks_upto(servers, ids, running, n)[k].was_running == running[j],
        forall|k1: int, k2: int|
            0 <= k1 < k2 < tasks_upto(servers, ids, running, n).len() ==> exists|j1: int, j2: int|
                0 <= j1 < j2 < n && ids[j1] == (#[trigger] tasks_upto(servers, ids, running, n)[k1]).server_id
                    && ids[j2] == (#[trigger] tasks_upto(servers, ids, running, n)[k2]).server_id,
        forall|i: int, j: int|
            0 <= i < servers.len() && 0 <= j < n && ids[j] == (#[trigger] servers[i]).0 && needs_maintenance(
                servers[i].1,
                #[trigger] running[j],
            ) ==> tasks_upto(servers, ids, running, n).contains(task_of(ids[j], servers[i].1, running[j])),
    decreases n,
{
    if n > 0 {
        lemma_tasks_follow_ids(servers, ids, running, (n - 1) as nat);
        let before = tasks_upto(servers, ids, running, (n - 1) as nat);
        let all = tasks_upto(servers, ids, running, n);
        let m = n - 1;
        crate::config::lemma_server_index(servers, ids[m]@);
        assert forall|k: int| 0 <= k < all.len() implies exists|j: int|
            0 <= j < n && ids[j] == (#[trigger] all[k]).server_id && all[k].was_running == running[j] by {
            if k < before.len() {
                assert(all[k] == before[k]);
            } else {
                assert(ids[m] == all[k].server_id);
            }
        }
        assert forall|k1: int, k2: int| 0 <= k1 < k2 < all.len() implies exists|j1: int, j2: int|
            0 <= j1 < j2 < n && ids[j1] == (#[trigger] all[k1]).server_id && ids[j2] == (
            #[trigger] all[k2]).server_id by {
            assert(all[k1] == before[k1]);
            if k2 < before.len() {
                assert(all[k2] == before[k2]);
            } else {
                let j1 = choose|j: int| 0 <= j < n - 1 && ids[j] == (#[trigger] before[k1]).server_id
                    && before[k1].was_running == running[j];
                assert(ids[m] == all[k2].server_id);
                assert(0 <= j1 < m < n);
            }
        }
        assert forall|i: int, j: int|
            0 <= i < servers.len() && 0 <= j < n && ids[j] == (#[trigger] servers[i]).0 && needs_maintenance(
                servers[i].1,
                #[trigger] running[j],
            ) implies all.contains(task_of(ids[j], servers[i].1, running[j])) by {
            if j < m {
                assert(before.contains(task_of(ids[j], servers[i].1, running[j])));
                let k = choose|k: int| 0 <= k < before.len() && before[k] == task_of(ids[j], servers[i].1, running[j]);
                assert(all[k] == before[k]);
            } else {
                let si = server_index(servers, ids[m]@)->0;
                if si != i {
                    assert(servers[si].0@ == ids[m]@);
                    assert(servers[i].0@ == ids[m]@);
                    if si < i {
                        assert(servers[si].0@ != servers[i].0@);
                    } else {
                        assert(servers[i].0@ != servers[si].0@);
                    }
                }
                assert(all[all.len() - 1] == task_of(ids[j], servers[i].1, running[j]));
            }
        }
    }
}

/// Daily maintenance over the whole configuration: with the backend IDs in
/// the order fleet work uses (`ids`, as the sorted ID list gives them) and
/// `running[j]` telling whether server `ids[j]` was running, every backend
/// server is a candidate exactly once; the tasks follow the candidates in
/// order, so they come in ascending ID order; and a server has a task, with
/// its own settings, exactly when it needs maintenance.
pub proof fn lemma_maintenance_tasks_of_fleet(
    servers: Seq<(String, ServerConfig)>,
    ids: Seq<String>,
    running: Seq<bool>,
)
    requires
        keys_unique(servers),
        ids.to_multiset() == ids_with(servers, Selection::Backends).to_multiset(),
        running.len() == ids.len(),
    ensures
        forall|i: int|
            0 <= i < servers.len() ==> ids.to_multiset().count(#[trigger] servers[i].0) == if servers[i].1.server_type
                != ServerType::Velocity {
                1nat
            } else {
                0nat
            },
        forall|j: int|
            0 <= j < ids.len() ==> exists|i: int|
                0 <= i < servers.len() && (#[trigger] servers[i]).0 == #[trigger] ids[j]
                    && servers[i].1.server_type != ServerType::Velocity,
        forall|k: int|
            0 <= k < tasks_upto(servers, ids, running, ids.len()).len() ==> task_fits(
                servers,
                #[trigger] tasks_upto(servers, ids, running, ids.len())[k],
            ) && exists|j: int|
                0 <= j < ids.len() && ids[j] == tasks_upto(servers, ids, running, ids.len())[k].server_id
                    && tasks_upto(servers, ids, running, ids.len())[k].was_running == running[j],
        forall|k1: int, k2: int|
            0 <= k1 < k2 < tasks_upto(servers, ids, running, ids.len()).len() ==> exists|j1: int, j2: int|
                0 <= j1 < j2 < ids.len() && ids[j1] == (#[trigger] tasks_upto(servers, ids, running, ids.len())[k1]).server_id
                    && ids[j2] == (#[trigger] tasks_upto(servers, ids, running, ids.len())[k2]).server_id,
        forall|i: int, j: int|
            0 <= i < servers.len() && 0 <= j < ids.len() && ids[j] == (#[trigger] servers[i]).0 && needs_maintenance(
                servers[i].1,
                #[trigger] running[j],
            ) ==> tasks_upto(servers, ids, running, ids.len()).contains(task_of(ids[j], servers[i].1, running[j])),
{
    broadcast use vstd::seq_lib::to_multiset_contains;

    lemma_each_selected_server_once(servers, Selection::Backends);
    lemma_selected_ids(servers, Selection::Backends);
    lemma_maintenance_tasks_fit(servers, ids, running, ids.len());
    lemma_tasks_follow_ids(servers, ids, running, ids.len());
    let sel_ids = ids_with(servers, Selection::Backends);
    assert forall|j: int| 0 <= j < ids.len() implies exists|i: int|
        0 <= i < servers.len() && (#[trigger] servers[i]).0 == #[trigger] ids[j] && servers[i].1.server_type
            != ServerType::Velocity by {
        assert(ids.contains(ids[j]));
        assert(ids.to_multiset().count(ids[j]) > 0);
        assert(sel_ids.contains(ids[j]));
        let k = choose|k: int| 0 <= k < sel_ids.len() && sel_ids[k] == ids[j];
        let i = choose|i: int|
            0 <= i < servers.len() && servers[i].0 == #[trigger] sel_ids[k] && selected(Selection::Backends, servers[i].1);
        assert(servers[i].0 == ids[j]);
    }
}

/// A backup of a named server is done whatever its `backup` setting says:
/// the route of such a request depends on the server's type alone.
pub proof fn lemma_named_backup_is_forced(t: ServerType)
    ensures
        operation_of(t, Action::BackupLocal { target: BackupTarget::Server }) == (ServerOperation::Backup {
            kind: BackupKind::Local,
        }),
        operation_of(t, Action::BackupRemote { target: BackupTarget::Server }) == (ServerOperation::Backup {
            kind: BackupKind::Remote,
        }),
{
}


// ---------------------------------------------------------------------------
// Setting servers up
// ---------------------------------------------------------------------------

/// Why a configured server could not be set up.
pub enum SetupError {
    UnknownServer { server_id: String },
    /// The manager of a server could not be set up.
    ManagerFailed { server_id: String, error: UnknownJavaVersion },
    Minecraft(MinecraftError),
    Java(UnknownJavaVersion),
}

pub open spec fn setup_error_text(e: SetupError) -> Seq<char> {
    match e {
        SetupError::UnknownServer { server_id } => "Server '"@ + server_id@
            + "' not found in configuration file."@,
        SetupError::ManagerFailed { server_id, error } => "Failed to initialize server manager for '"@
            + server_id@ + "'"@ + ": "@ + crate::config::unknown_java_text(error),
        SetupError::Minecraft(e) => minecraft::minecraft_error_text(e),
        SetupError::Java(e) => crate::config::unknown_java_text(e),
    }
}

impl SetupError {
    pub fn message(&self) -> (m: String)
        ensures
            m@ == setup_error_text(*self),
    {
        match self {
            SetupError::UnknownServer { server_id } => {
                let mut m = String::from_str("Server '");
                m.append(server_id.as_str());
                m.append("' not found in configuration file.");
                m
            },
            SetupError::ManagerFailed { server_id, error } => {
                let mut m = String::from_str("Failed to initialize server manager for '");
                m.append(server_id.as_str());
                m.append("'");
                m.append(": ");
                let inner = error.message();
                m.append(inner.as_str());
                m
            },
            SetupError::Minecraft(e) => e.message(),
            SetupError::Java(e) => e.message(),
        }
    }
}

/// A server as fleet-wide work handles it: Minecraft servers stop through
/// RCON, the others through their stop command.
pub enum MaintenanceServer {
    Minecraft(MinecraftServer),
    Generic(ServerManager),
}

impl MaintenanceServer {
    pub open spec fn manager_of(&self) -> ServerManager {
        match self {
            MaintenanceServer::Minecraft(s) => s.manager,
            MaintenanceServer::Generic(m) => *m,
        }
    }

    pub fn manager(&self) -> (m: &ServerManager)
        ensures
            *m == self.manager_of(),
    {
        match self {
            MaintenanceServer::Minecraft(s) => &s.manager,
            MaintenanceServer::Generic(m) => m,
        }
    }

    pub fn server_id(&self) -> (r: &str)
        ensures
            r@ == self.manager_of().server_id@,
    {
        self.manager().server_id.as_str()
    }

    pub fn server_name(&self) -> (r: &str)
        ensures
            r@ == self.manager_of().config.name@,
    {
        self.manager().config.name.as_str()
    }
}

/// Sets up the manager of the server with ID `server_id`.
pub fn manager_for_server(config: &Config, server_id: &str) -> (r: Result<ServerManager, SetupError>)
    ensures
        match server_index(config.servers@, server_id@) {
            None => r matches Err(SetupError::UnknownServer { server_id: s }) && s@ == server_id@,
            Some(i) => match r {
                Ok(m) => manager_of(
                    m,
                    server_id@,
                    config.servers@[i].1,
                    config.global,
                    config.backup,
                    config.java_environments@,
                ),
                Err(SetupError::ManagerFailed { server_id: s, error }) => s@ == server_id@
                    && crate::config::resolve_java_bin_spec(config.servers@[i].1, config.java_environments@)
                    is None && error.java_version@ == crate::config::java_version_key(config.servers@[i].1)
                    && error.server_name@ == config.servers@[i].1.name@,
                _ => false,
            },
        },
{
    proof {
        crate::config::lemma_server_index(config.servers@, server_id@);
    }
    let i = match crate::config::find_server(config, server_id) {
        Some(i) => i,
        None => return Err(SetupError::UnknownServer { server_id: String::from_str(server_id) }),
    };
    let server = config.servers[i].1.clone();
    match ServerManager::new(
        String::from_str(server_id),
        server,
        &config.global,
        &config.backup,
        &config.java_environments,
    ) {
        Ok(m) => Ok(m),
        Err(error) => Err(SetupError::ManagerFailed { server_id: String::from_str(server_id), error }),
    }
}

/// Sets up the server with ID `server_id` for fleet-wide work.
pub fn maintenance_server_for_config(config: &Config, server_id: &str) -> (r: Result<
    MaintenanceServer,
    SetupError,
>)
    ensures
        match server_index(config.servers@, server_id@) {
            None => r matches Err(SetupError::UnknownServer { server_id: s }) && s@ == server_id@,
            Some(i) => if config.servers@[i].1.server_type == ServerType::Minecraft {
                match r {
                    Ok(MaintenanceServer::Minecraft(s)) => minecraft_result(
                        Ok(s),
                        server_id@,
                        config.servers@[i].1,
                        config.global,
                        config.backup,
                        config.java_environments@,
                    ),
                    Err(SetupError::Minecraft(e)) => minecraft_result(
                        Err(e),
                        server_id@,
                        config.servers@[i].1,
                        config.global,
                        config.backup,
                        config.java_environments@,
                    ),
                    _ => false,
                }
            } else {
                match r {
                    Ok(MaintenanceServer::Generic(m)) => manager_of(
                        m,
                        server_id@,
                        config.servers@[i].1,
                        config.global,
                        config.backup,
                        config.java_environments@,
                    ),
                    Err(SetupError::Java(e)) => crate::config::resolve_java_bin_spec(
                        config.servers@[i].1,
                        config.java_environments@,
                    ) is None && e.java_version@ == crate::config::java_version_key(config.servers@[i].1)
                        && e.server_name@ == config.servers@[i].1.name@,
                    _ => false,
                }
            },
        },
{
    proof {
        crate::config::lemma_server_index(config.servers@, server_id@);
    }
    let i = match crate::config::find_server(config, server_id) {
        Some(i) => i,
        None => return Err(SetupError::UnknownServer { server_id: String::from_str(server_id) }),
    };
    let server = config.servers[i].1.clone();
    match server.server_type {
        ServerType::Minecraft => match MinecraftServer::new(
            String::from_str(server_id),
            server,
            &config.global,
            &config.backup,
            &config.java_environments,
        ) {
            Ok(s) => Ok(MaintenanceServer::Minecraft(s)),
            Err(e) => Err(SetupError::Minecraft(e)),
        },
        _ => match ServerManager::new(
            String::from_str(server_id),
            server,
            &config.global,
            &config.backup,
            &config.java_environments,
        ) {
            Ok(m) => Ok(MaintenanceServer::Generic(m)),
            Err(e) => Err(SetupError::Java(e)),
        },
    }
}

} // verus!
