//! Minecraft servers: stopped through RCON, with a warning to online players
//! before a friendly stop.

use crate::cli::StopType;
use crate::config::{BackupConfig, GlobalConfig, ServerConfig, UnknownJavaVersion};
use crate::text::{chars_of, words};
use super::manager::{
    ManagerError, ScreenLaunch, ServerManager, ServerStep, DEFAULT_STOP_POLL_INTERVAL_SECS,
    DEFAULT_STOP_TIMEOUT_SECS,
};
use vstd::prelude::*;

verus! {

// ---------------------------------------------------------------------------
// Reading the player count
// ---------------------------------------------------------------------------

pub open spec fn is_digit(c: char) -> bool {
    '0' <= c && c <= '9'
}

/// The number that a string of decimal digits writes.
pub open spec fn digits_value(s: Seq<char>) -> nat
    decreases s.len(),
{
    if s.len() == 0 {
        0
    } else {
        digits_value(s.drop_last()) * 10 + ((s.last() as int) - ('0' as int)) as nat
    }
}

/// A word without the `+` sign that may lead it.
pub open spec fn unsigned_part(s: Seq<char>) -> Seq<char> {
    if s.len() > 0 && s[0] == '+' {
        s.drop_first()
    } else {
        s
    }
}

pub open spec fn all_digits(d: Seq<char>) -> bool {
    forall|i: int| 0 <= i < d.len() ==> is_digit(#[trigger] d[i])
}

/// What `str::parse::<u32>` reads: an optional `+`, then one or more decimal
/// digits whose value fits in 32 bits.
pub open spec fn parse_u32(s: Seq<char>) -> Option<u32> {
    let d = unsigned_part(s);
    if d.len() > 0 && all_digits(d) && digits_value(d) <= u32::MAX {
        Some(digits_value(d) as u32)
    } else {
        None
    }
}

/// The first word of a list that reads as a `u32`.
pub open spec fn first_number(ws: Seq<Seq<char>>) -> Option<u32>
    decreases ws.len(),
{
    if ws.len() == 0 {
        None
    } else {
        match parse_u32(ws[0]) {
            Some(n) => Some(n),
            None => first_number(ws.drop_first()),
        }
    }
}

proof fn lemma_digits_value_grows(s: Seq<char>, i: int)
    requires
        0 <= i <= s.len(),
        forall|k: int| 0 <= k < s.len() ==> is_digit(#[trigger] s[k]),
    ensures
        digits_value(s.take(i)) <= digits_value(s),
    decreases s.len() - i,
{
    if i < s.len() {
        lemma_digits_value_grows(s, i + 1);
        assert(s.take(i + 1).drop_last() =~= s.take(i));
    } else {
        assert(s.take(i) =~= s);
    }
}

/// Reads a word as `str::parse::<u32>` does.
pub fn parse_u32_word(w: &Vec<char>) -> (r: Option<u32>)
    ensures
        r == parse_u32(w@),
{
    let start: usize = if w.len() > 0 && w[0] == '+' {
        1
    } else {
        0
    };
    let ghost d = unsigned_part(w@);
    assert(d =~= w@.subrange(start as int, w@.len() as int));
    if start >= w.len() {
        return None;
    }
    let mut value: u64 = 0;
    let mut i = start;
    while i < w.len()
        invariant
            start <= i <= w.len(),
            start < w.len(),
            d =~= w@.subrange(start as int, w@.len() as int),
            d == unsigned_part(w@),
            forall|k: int| start <= k < i ==> is_digit(#[trigger] w@[k]),
            value == digits_value(d.take(i - start)),
            value <= u32::MAX,
        decreases w.len() - i,
    {
        let c = w[i];
        if !('0' <= c && c <= '9') {
            proof {
                assert(d[i - start] == w@[i as int]);
                assert(!is_digit(d[i - start]));
                assert(!all_digits(d));
                assert(parse_u32(w@) is None);
            }
            return None;
        }
        let digit = (c as u64) - ('0' as u64);
        assert(d.take(i - start + 1).drop_last() =~= d.take(i - start));
        let next = value * 10 + digit;
        assert(d.take(i - start + 1).last() == c);
        assert(digits_value(d.take(i - start + 1)) == next);
        if next > 4294967295u64 {
            proof {
                assert forall|k: int| 0 <= k < i - start + 1 implies is_digit(#[trigger] d.take(i - start + 1)[k]) by {
                    assert(d.take(i - start + 1)[k] == w@[start + k]);
                }
                if all_digits(d) {
                    lemma_digits_value_grows(d, i - start + 1);
                    assert(digits_value(d) > u32::MAX);
                }
                assert(parse_u32(w@) is None);
            }
            return None;
        }
        value = next;
        i = i + 1;
    }
    proof {
        assert(d.take(i - start) =~= d);
        assert forall|k: int| 0 <= k < d.len() implies is_digit(#[trigger] d[k]) by {
            assert(d[k] == w@[start + k]);
        }
    }
    Some(value as u32)
}

/// The first number in an RCON `list` reply: the count of online players.
pub fn parse_player_count(response: &str) -> (r: Option<u32>)
    ensures
        r == first_number(words(response@)),
{
    let v = chars_of(response);
    let ws = crate::text::split_words(&v);
    let mut i: usize = 0;
    assert(words(response@).skip(0) =~= words(response@));
    while i < ws.len()
        invariant
            i <= ws.len(),
            v@ == response@,
            ws@.len() == words(response@).len(),
            forall|j: int| 0 <= j < ws@.len() ==> (#[trigger] ws@[j])@ == words(response@)[j],
            first_number(words(response@)) == first_number(words(response@).skip(i as int)),
        decreases ws.len() - i,
    {
        let ghost rest = words(response@).skip(i as int);
        assert(rest[0] == ws@[i as int]@);
        match parse_u32_word(&ws[i]) {
            Some(n) => return Some(n),
            None => {},
        }
        assert(rest.drop_first() =~= words(response@).skip(i + 1));
        i = i + 1;
    }
    assert(words(response@).skip(i as int) =~= seq![]);
    None
}


// ---------------------------------------------------------------------------
// The server
// ---------------------------------------------------------------------------

/// A Minecraft server with its RCON settings.
pub struct MinecraftServer {
    pub manager: ServerManager,
    pub rcon_port: u16,
    pub rcon_password: String,
}

/// Why a Minecraft server could not be set up.
pub enum MinecraftError {
    MissingRconPort { server_name: String },
    MissingRconPassword { server_name: String },
    Java(UnknownJavaVersion),
}

pub open spec fn minecraft_error_text(e: MinecraftError) -> Seq<char> {
    match e {
        MinecraftError::MissingRconPort { server_name } => "Minecraft server '"@ + server_name@
            + "' has no rconPort."@,
        MinecraftError::MissingRconPassword { server_name } => "Minecraft server '"@ + server_name@
            + "' has no rconPassword."@,
        MinecraftError::Java(j) => crate::config::unknown_java_text(j),
    }
}

impl MinecraftError {
    pub fn message(&self) -> (m: String)
        ensures
            m@ == minecraft_error_text(*self),
    {
        match self {
            MinecraftError::MissingRconPort { server_name } => {
                let mut m = String::from_str("Minecraft server '");
                m.append(server_name.as_str());
                m.append("' has no rconPort.");
                m
            },
            MinecraftError::MissingRconPassword { server_name } => {
                let mut m = String::from_str("Minecraft server '");
                m.append(server_name.as_str());
                m.append("' has no rconPassword.");
                m
            },
            MinecraftError::Java(j) => j.message(),
        }
    }
}

/// Where a stop of a Minecraft server stands. Each phase asks for one
/// action ([`stop_action`]); what came of it moves the stop on
/// ([`MinecraftServer::stop_step`]).
#[derive(Debug, Clone, PartialEq, Eq)]
pub enum StopPhase {
    /// Check whether the session runs.
    Check { stop_type: StopType },
    /// Send `list` over RCON to count the players online.
    ListPlayers,
    /// Warn that the server stops in five minutes.
    WarnFiveMinutes,
    /// Wait four minutes.
    WaitFourMinutes,
    /// Warn that the server stops in one minute.
    WarnOneMinute,
    /// Wait one minute.
    WaitOneMinute,
    /// Check again whether the session runs before stopping it.
    Recheck,
    /// Send `stop` over RCON.
    SendStop,
    /// The stop is over: the server stopped, or it was not running.
    Stopped,
    /// The stop failed.
    Failed { error: String },
}

/// What the caller does for a phase.
#[derive(Debug, PartialEq, Eq)]
pub enum StopAction {
    /// Report whether the server's `screen` session runs.
    CheckRunning,
    /// Send this command over RCON and report the reply or the failure.
    Rcon { command: String },
    /// Sleep this many seconds.
    Sleep { secs: u64 },
    /// Nothing more to do: the stop ended with this result.
    Finish { result: Result<(), String> },
}

/// What came of an action.
#[derive(Debug, PartialEq, Eq)]
pub enum StopEvent {
    Running { running: bool },
    Replied { reply: String },
    Failed { error: String },
    Slept,
}

/// The RCON command that a phase sends, if it sends one.
pub open spec fn rcon_command_of(p: StopPhase) -> Option<Seq<char>> {
    match p {
        StopPhase::ListPlayers => Some("list"@),
        StopPhase::WarnFiveMinutes => Some("msg @a Server is shutting down in 5 minutes"@),
        StopPhase::WarnOneMinute => Some("msg @a Server is shutting down in 1 minute"@),
        StopPhase::SendStop => Some("stop"@),
        _ => None,
    }
}

/// The seconds that a phase sleeps, if it sleeps.
pub open spec fn sleep_of(p: StopPhase) -> Option<u64> {
    match p {
        StopPhase::WaitFourMinutes => Some(240),
        StopPhase::WaitOneMinute => Some(60),
        _ => None,
    }
}

/// The action that a phase asks for.
pub fn stop_action(phase: StopPhase) -> (a: StopAction)
    ensures
        (phase is Check || phase is Recheck) <==> a is CheckRunning,
        rcon_command_of(phase) matches Some(c) ==> (a matches StopAction::Rcon { command } && command@
            == c),
        rcon_command_of(phase) is None ==> !(a is Rcon),
        sleep_of(phase) matches Some(t) ==> a == (StopAction::Sleep { secs: t }),
        sleep_of(phase) is None ==> !(a is Sleep),
        phase is Stopped ==> a == (StopAction::Finish { result: Ok(()) }),
        phase matches StopPhase::Failed { error } ==> a == (StopAction::Finish { result: Err(error) }),
        !(phase is Stopped || phase is Failed) ==> !(a is Finish),
{
    match phase {
        StopPhase::Check { .. } => StopAction::CheckRunning,
        StopPhase::Recheck => StopAction::CheckRunning,
        StopPhase::ListPlayers => StopAction::Rcon { command: String::from_str("list") },
        StopPhase::WarnFiveMinutes => StopAction::Rcon {
            command: String::from_str("msg @a Server is shutting down in 5 minutes"),
        },
        StopPhase::WaitFourMinutes => StopAction::Sleep { secs: 240 },
        StopPhase::WarnOneMinute => StopAction::Rcon {
            command: String::from_str("msg @a Server is shutting down in 1 minute"),
        },
        StopPhase::WaitOneMinute => StopAction::Sleep { secs: 60 },
        StopPhase::SendStop => StopAction::Rcon { command: String::from_str("stop") },
        StopPhase::Stopped => StopAction::Finish { result: Ok(()) },
        StopPhase::Failed { error } => StopAction::Finish { result: Err(error) },
    }
}

/// The context of a failed `list` during a friendly stop.
pub open spec fn list_failure_context(name: Seq<char>) -> Seq<char> {
    "Minecraft server '"@ + name + "' has a running screen session, but RCON is not reachable for friendly stop"@
}

/// The context of a failed `stop`.
pub open spec fn stop_failure_context(name: Seq<char>) -> Seq<char> {
    "Minecraft server '"@ + name + "' has a running screen session, but RCON stop failed"@
}

/// The phase after `phase` once `event` came of its action. An event that
/// does not answer the phase's action leaves the phase as it is.
pub open spec fn stop_transition(name: Seq<char>, phase: StopPhase, event: StopEvent) -> StopPhase {
    match (phase, event) {
        (StopPhase::Check { stop_type }, StopEvent::Running { running }) => if !running {
            StopPhase::Stopped
        } else if stop_type == StopType::Friendly {
            StopPhase::ListPlayers
        } else {
            StopPhase::SendStop
        },
        (StopPhase::Recheck, StopEvent::Running { running }) => if !running {
            StopPhase::Stopped
        } else {
            StopPhase::SendStop
        },
        (StopPhase::ListPlayers, StopEvent::Replied { reply }) => match first_number(words(reply@)) {
            Some(n) if n > 0 => StopPhase::WarnFiveMinutes,
            _ => StopPhase::Recheck,
        },
        (StopPhase::WarnFiveMinutes, StopEvent::Replied { .. }) => StopPhase::WaitFourMinutes,
        (StopPhase::WaitFourMinutes, StopEvent::Slept) => StopPhase::WarnOneMinute,
        (StopPhase::WarnOneMinute, StopEvent::Replied { .. }) => StopPhase::WaitOneMinute,
        (StopPhase::WaitOneMinute, StopEvent::Slept) => StopPhase::Recheck,
        (StopPhase::SendStop, StopEvent::Replied { .. }) => StopPhase::Stopped,
        (p, _) => p,
    }
}

/// Setting up a Minecraft server: it needs an RCON port, then an RCON
/// password, then a Java executable that resolves.
pub open spec fn minecraft_result(
    r: Result<MinecraftServer, MinecraftError>,
    server_id: Seq<char>,
    config: ServerConfig,
    global: GlobalConfig,
    backup: BackupConfig,
    envs: Seq<(String, String)>,
) -> bool {
    if config.rcon_port is None {
        r matches Err(MinecraftError::MissingRconPort { server_name: n }) && n@ == config.name@
    } else if config.rcon_password is None {
        r matches Err(MinecraftError::MissingRconPassword { server_name: n }) && n@ == config.name@
    } else if crate::config::resolve_java_bin_spec(config, envs) is None {
        r matches Err(MinecraftError::Java(e)) && e.server_name@ == config.name@ && e.java_version@
            == crate::config::java_version_key(config)
    } else {
        r matches Ok(s) && Some(s.rcon_port) == config.rcon_port && Some(s.rcon_password)
            == config.rcon_password && super::manager::manager_of(s.manager, server_id, config, global, backup, envs)
    }
}

impl MinecraftServer {
    /// A Minecraft server needs an RCON port and password.
    pub fn new(
        server_id: String,
        config: ServerConfig,
        global: &GlobalConfig,
        backup: &BackupConfig,
        java_environments: &Vec<(String, String)>,
    ) -> (r: Result<Self, MinecraftError>)
        ensures
            minecraft_result(r, server_id@, config, *global, *backup, java_environments@),
    {
        let rcon_port = match config.rcon_port {
            Some(p) => p,
            None => return Err(MinecraftError::MissingRconPort { server_name: config.name.clone() }),
        };
        let rcon_password = match &config.rcon_password {
            Some(p) => p.clone(),
            None => return Err(MinecraftError::MissingRconPassword { server_name: config.name.clone() }),
        };
        match ServerManager::new(server_id, config, global, backup, java_environments) {
            Ok(manager) => Ok(MinecraftServer { manager, rcon_port, rcon_password }),
            Err(e) => Err(MinecraftError::Java(e)),
        }
    }

    /// Starting a Minecraft server is starting its `screen` session.
    pub fn start_server(&self, running: bool, timestamp: &str) -> (r: Result<Option<ScreenLaunch>, ManagerError>)
        ensures
            super::manager::start_result(self.manager, running, timestamp@, r),
    {
        self.manager.start_server(running, timestamp)
    }

    /// Where a stop of this kind begins.
    pub fn stop_server(&self, stop_type: StopType) -> (p: StopPhase)
        ensures
            p == (StopPhase::Check { stop_type }),
    {
        StopPhase::Check { stop_type }
    }

    /// Moves a stop on: a failed RCON command ends it with the failure, in
    /// the context of the command where one is given.
    pub fn stop_step(&self, phase: StopPhase, event: StopEvent) -> (next: StopPhase)
        ensures
            match (phase, event) {
                (StopPhase::ListPlayers, StopEvent::Failed { error }) => next matches StopPhase::Failed { error: m } && m@ == list_failure_context(self.manager.config.name@) + ": "@ + error@,
                (StopPhase::SendStop, StopEvent::Failed { error }) => next matches StopPhase::Failed { error: m } && m@ == stop_failure_context(self.manager.config.name@) + ": "@ + error@,
                (StopPhase::WarnFiveMinutes, StopEvent::Failed { error }) => next == (StopPhase::Failed { error }),
                (StopPhase::WarnOneMinute, StopEvent::Failed { error }) => next == (StopPhase::Failed { error }),
                (p, e) => next == stop_transition(self.manager.config.name@, p, e),
            },
    {
        match (phase, event) {
            (StopPhase::Check { stop_type }, StopEvent::Running { running }) => {
                if !running {
                    StopPhase::Stopped
                } else {
                    match stop_type {
                        StopType::Friendly => StopPhase::ListPlayers,
                        StopType::Immediate => StopPhase::SendStop,
                    }
                }
            },
            (StopPhase::Recheck, StopEvent::Running { running }) => {
                if !running {
                    StopPhase::Stopped
                } else {
                    StopPhase::SendStop
                }
            },
            (StopPhase::ListPlayers, StopEvent::Replied { reply }) => {
                match parse_player_count(reply.as_str()) {
                    Some(n) => {
                        if n > 0 {
                            StopPhase::WarnFiveMinutes
                        } else {
                            StopPhase::Recheck
                        }
                    },
                    None => StopPhase::Recheck,
                }
            },
            (StopPhase::ListPlayers, StopEvent::Failed { error }) => {
                let mut m = String::from_str("Minecraft server '");
                m.append(self.manager.config.name.as_str());
                m.append("' has a running screen session, but RCON is not reachable for friendly stop");
                m.append(": ");
                m.append(error.as_str());
                StopPhase::Failed { error: m }
            },
            (StopPhase::WarnFiveMinutes, StopEvent::Replied { .. }) => StopPhase::WaitFourMinutes,
            (StopPhase::WarnFiveMinutes, StopEvent::Failed { error }) => StopPhase::Failed { error },
            (StopPhase::WaitFourMinutes, StopEvent::Slept) => StopPhase::WarnOneMinute,
            (StopPhase::WarnOneMinute, StopEvent::Replied { .. }) => StopPhase::WaitOneMinute,
            (StopPhase::WarnOneMinute, StopEvent::Failed { error }) => StopPhase::Failed { error },
            (StopPhase::WaitOneMinute, StopEvent::Slept) => StopPhase::Recheck,
            (StopPhase::SendStop, StopEvent::Replied { .. }) => StopPhase::Stopped,
            (StopPhase::SendStop, StopEvent::Failed { error }) => {
                let mut m = String::from_str("Minecraft server '");
                m.append(self.manager.config.name.as_str());
                m.append("' has a running screen session, but RCON stop failed");
                m.append(": ");
                m.append(error.as_str());
                StopPhase::Failed { error: m }
            },
            (p, _) => p,
        }
    }

    /// Stop, then wait for the session to end.
    pub fn stop_server_and_wait(&self, stop_type: StopType) -> (r: Vec<ServerStep>)
        ensures
            r@ == seq![
                ServerStep::StopMinecraft { stop_type },
                ServerStep::WaitUntilStopped {
                    timeout_secs: DEFAULT_STOP_TIMEOUT_SECS,
                    poll_interval_secs: DEFAULT_STOP_POLL_INTERVAL_SECS,
                },
            ],
    {
        let r = vec![
            ServerStep::StopMinecraft { stop_type },
            ServerStep::WaitUntilStopped {
                timeout_secs: DEFAULT_STOP_TIMEOUT_SECS,
                poll_interval_secs: DEFAULT_STOP_POLL_INTERVAL_SECS,
            },
        ];
        assert(r@ =~= seq![
            ServerStep::StopMinecraft { stop_type },
            ServerStep::WaitUntilStopped {
                timeout_secs: DEFAULT_STOP_TIMEOUT_SECS,
                poll_interval_secs: DEFAULT_STOP_POLL_INTERVAL_SECS,
            },
        ]);
        r
    }

    /// Stop at once, wait for the session to end, and start again.
    pub fn restart_server(&self) -> (r: Vec<ServerStep>)
        ensures
            r@ == seq![
                ServerStep::StopMinecraft { stop_type: StopType::Immediate },
                ServerStep::WaitUntilStopped {
                    timeout_secs: DEFAULT_STOP_TIMEOUT_SECS,
                    poll_interval_secs: DEFAULT_STOP_POLL_INTERVAL_SECS,
                },
                ServerStep::Start,
            ],
    {
        let mut r = self.stop_server_and_wait(StopType::Immediate);
        r.push(ServerStep::Start);
        r
    }
}


/// A friendly stop with nobody online is an immediate stop: after the
/// player list, it goes straight to the final check and `stop`, with no
/// warning and no wait.
pub proof fn lemma_friendly_stop_without_players(name: Seq<char>, reply: String)
    requires
        !(first_number(words(reply@)) matches Some(n) && n > 0),
    ensures
        stop_transition(name, StopPhase::ListPlayers, StopEvent::Replied { reply }) == StopPhase::Recheck,
{
}

/// With players online, a friendly stop warns them five minutes ahead.
pub proof fn lemma_friendly_stop_warns_players(name: Seq<char>, reply: String)
    requires
        first_number(words(reply@)) matches Some(n) && n > 0,
    ensures
        stop_transition(name, StopPhase::ListPlayers, StopEvent::Replied { reply })
            == StopPhase::WarnFiveMinutes,
{
}

/// A stopped server is left alone: a stop that finds no session ends at once.
pub proof fn lemma_stop_of_stopped_server(name: Seq<char>, stop_type: StopType)
    ensures
        stop_transition(name, StopPhase::Check { stop_type }, StopEvent::Running { running: false })
            == StopPhase::Stopped,
        stop_transition(name, StopPhase::Recheck, StopEvent::Running { running: false })
            == StopPhase::Stopped,
{
}

} // verus!
