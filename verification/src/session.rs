//! The relation between the control socket and a running player: what two
//! probes of the socket say, how the player is started, and the order in
//! which a driver's steps follow one another.
//!
//! The library decides; a driver performs each step and reports what it saw.

use vstd::prelude::*;

verus! {

/// How many poll intervals a start waits for the socket, unless told otherwise.
pub const DEFAULT_POLL_ATTEMPTS: u32 = 10;

/// The length of one poll interval, in milliseconds.
pub const POLL_INTERVAL_MS: u64 = 200;

/// How long a reload leaves the old player to release the socket, in
/// milliseconds.
pub const RELOAD_GRACE_MS: u64 = 300;

/// What two probes of the control socket say about the player.
#[derive(Clone, Copy, Debug, PartialEq, Eq, Structural)]
pub enum SessionState {
    /// Nothing is present at the socket path.
    NoPlayer,
    /// The path is present but refuses connections: a crashed player left it.
    StalePlayer,
    /// The path is present and accepts connections.
    LivePlayer,
}

/// The state that the two observations determine. Reachability counts only
/// where the path exists.
pub open spec fn classify_spec(exists: bool, reachable: bool) -> SessionState {
    if !exists {
        SessionState::NoPlayer
    } else if reachable {
        SessionState::LivePlayer
    } else {
        SessionState::StalePlayer
    }
}

/// Classifies the session from whether the socket path exists and whether a
/// connection to it succeeds.
pub fn classify(exists: bool, reachable: bool) -> (state: SessionState)
    ensures
        state == classify_spec(exists, reachable),
{
    if !exists {
        SessionState::NoPlayer
    } else if reachable {
        SessionState::LivePlayer
    } else {
        SessionState::StalePlayer
    }
}

/// Every pair of observations has exactly one state: no player where the
/// path is absent, whatever a connection would say; a stale one where the path
/// is present and refuses; a live one where it is present and accepts.
pub proof fn lemma_classification(exists: bool, reachable: bool)
    ensures
        !exists ==> classify_spec(exists, reachable) == SessionState::NoPlayer,
        exists && !reachable ==> classify_spec(exists, reachable) == SessionState::StalePlayer,
        exists && reachable ==> classify_spec(exists, reachable) == SessionState::LivePlayer,
{
}

/// Whether a player is running behind the socket.
pub fn is_running(exists: bool, reachable: bool) -> (running: bool)
    ensures
        running == (classify_spec(exists, reachable) == SessionState::LivePlayer),
        running == (exists && reachable),
{
    exists && reachable
}

/// Why a session could not be had.
#[derive(Clone, Copy, Debug, PartialEq, Eq, Structural)]
pub enum SessionError {
    /// The stale socket could not be removed, or the player could not be
    /// launched.
    Filesystem,
    /// The player did not bind the socket within the poll window.
    StartupTimeout,
    /// The socket could not be reached to deliver a message.
    Connection,
}

impl SessionError {
    /// The error in words.
    pub fn message(&self) -> (text: &'static str)
        ensures
            text@ == match *self {
                SessionError::Filesystem => "Failed to prepare the mpv socket"@,
                SessionError::StartupTimeout => "Failed to create mpv socket"@,
                SessionError::Connection => "Failed to reach the mpv socket"@,
            },
    {
        match self {
            SessionError::Filesystem => "Failed to prepare the mpv socket",
            SessionError::StartupTimeout => "Failed to create mpv socket",
            SessionError::Connection => "Failed to reach the mpv socket",
        }
    }
}

/// How an attempt to remove the socket path ended.
#[derive(Clone, Copy, Debug, PartialEq, Eq, Structural)]
pub enum Removal {
    /// The path was deleted.
    Removed,
    /// The path was already gone.
    Missing,
    /// The filesystem refused.
    Denied,
}

/// What the driver reports after a step.
#[derive(Clone, Copy, Debug, PartialEq, Eq, Structural)]
pub enum Observation {
    /// Whether the socket path exists.
    Exists(bool),
    /// Whether a connection to the socket succeeded.
    Reachable(bool),
    /// How the removal of the socket path ended.
    Removal(Removal),
    /// Whether the player process was started.
    Launched(bool),
    /// Whether the message was written and flushed in full.
    Sent(bool),
    /// The pause is over.
    Slept,
}

/// What the driver has to do next, and where that ends.
#[derive(Clone, Copy, Debug, PartialEq, Eq, Structural)]
pub enum SpawnStep {
    /// Report whether the socket path exists.
    ProbeExists,
    /// Try to connect, and report whether that succeeded.
    ProbeReachable,
    /// Delete the socket path, and report how that ended.
    RemoveEndpoint,
    /// Start the player, and report whether it started.
    Launch,
    /// After a launch: report whether the socket path exists by now.
    PollExists,
    /// Pause for one poll interval.
    Wait,
    /// A live player is behind the socket. Nothing is left to do.
    Ready,
    /// The session could not be had. Nothing is left to do.
    Failed(SessionError),
}

/// The start of a player in progress.
#[derive(Clone, Copy, Debug, PartialEq, Eq, Structural)]
pub struct Spawn {
    /// The pending step.
    pub step: SpawnStep,
    /// The poll intervals begun since the launch.
    pub waited: u32,
    /// The poll intervals allowed.
    pub bound: u32,
}

/// The step that follows a classification: a live player is reused, a stale
/// socket is removed first, and with no socket the player is launched.
pub open spec fn plan(state: SessionState) -> SpawnStep {
    match state {
        SessionState::NoPlayer => SpawnStep::Launch,
        SessionState::StalePlayer => SpawnStep::RemoveEndpoint,
        SessionState::LivePlayer => SpawnStep::Ready,
    }
}

/// The state after `obs`. An observation that does not answer the pending
/// step changes nothing.
pub open spec fn advance_spec(s: Spawn, obs: Observation) -> Spawn {
    match (s.step, obs) {
        (SpawnStep::ProbeExists, Observation::Exists(false)) => Spawn {
            step: plan(classify_spec(false, false)),
            ..s
        },
        (SpawnStep::ProbeExists, Observation::Exists(true)) => Spawn {
            step: SpawnStep::ProbeReachable,
            ..s
        },
        (SpawnStep::ProbeReachable, Observation::Reachable(reachable)) => Spawn {
            step: plan(classify_spec(true, reachable)),
            ..s
        },
        (SpawnStep::RemoveEndpoint, Observation::Removal(Removal::Denied)) => Spawn {
            step: SpawnStep::Failed(SessionError::Filesystem),
            ..s
        },
        (SpawnStep::RemoveEndpoint, Observation::Removal(_)) => Spawn {
            step: SpawnStep::Launch,
            ..s
        },
        (SpawnStep::Launch, Observation::Launched(true)) => Spawn {
            step: SpawnStep::PollExists,
            waited: 0,
            ..s
        },
        (SpawnStep::Launch, Observation::Launched(false)) => Spawn {
            step: SpawnStep::Failed(SessionError::Filesystem),
            ..s
        },
        (SpawnStep::PollExists, Observation::Exists(true)) => Spawn { step: SpawnStep::Ready, ..s },
        (SpawnStep::PollExists, Observation::Exists(false)) => if s.waited < s.bound {
            Spawn { step: SpawnStep::Wait, waited: (s.waited + 1) as u32, ..s }
        } else {
            Spawn { step: SpawnStep::Failed(SessionError::StartupTimeout), ..s }
        },
        (SpawnStep::Wait, Observation::Slept) => Spawn { step: SpawnStep::PollExists, ..s },
        _ => s,
    }
}

/// A start that has observed nothing yet.
pub open spec fn initial(bound: u32) -> Spawn {
    Spawn { step: SpawnStep::ProbeExists, waited: 0, bound }
}

impl Spawn {
    /// A start that has observed nothing yet and allows `bound` poll
    /// intervals.
    pub fn begin(bound: u32) -> (s: Spawn)
        ensures
            s == initial(bound),
    {
        Spawn { step: SpawnStep::ProbeExists, waited: 0, bound }
    }

    /// Whether nothing is left to do.
    pub fn is_finished(&self) -> (finished: bool)
        ensures
            finished == (self.step == SpawnStep::Ready || self.step is Failed),
    {
        match self.step {
            SpawnStep::Ready => true,
            SpawnStep::Failed(_) => true,
            _ => false,
        }
    }

    /// Takes the driver's report of the pending step and gives the state
    /// whose step comes next.
    pub fn advance(self, obs: Observation) -> (next: Spawn)
        ensures
            next == advance_spec(self, obs),
    {
        match (self.step, obs) {
            (SpawnStep::ProbeExists, Observation::Exists(exists)) => {
                if exists {
                    Spawn { step: SpawnStep::ProbeReachable, ..self }
                } else {
                    Spawn { step: SpawnStep::Launch, ..self }
                }
            },
            (SpawnStep::ProbeReachable, Observation::Reachable(reachable)) => {
                match classify(true, reachable) {
                    SessionState::LivePlayer => Spawn { step: SpawnStep::Ready, ..self },
                    SessionState::StalePlayer => Spawn { step: SpawnStep::RemoveEndpoint, ..self },
                    SessionState::NoPlayer => Spawn { step: SpawnStep::Launch, ..self },
                }
            },
            (SpawnStep::RemoveEndpoint, Observation::Removal(removal)) => {
                match removal {
                    Removal::Removed | Removal::Missing => Spawn { step: SpawnStep::Launch, ..self },
                    Removal::Denied => Spawn {
                        step: SpawnStep::Failed(SessionError::Filesystem),
                        ..self
                    },
                }
            },
            (SpawnStep::Launch, Observation::Launched(started)) => {
                if started {
                    Spawn { step: SpawnStep::PollExists, waited: 0, ..self }
                } else {
                    Spawn { step: SpawnStep::Failed(SessionError::Filesystem), ..self }
                }
            },
            (SpawnStep::PollExists, Observation::Exists(exists)) => {
                if exists {
                    Spawn { step: SpawnStep::Ready, ..self }
                } else if self.waited < self.bound {
                    Spawn { step: SpawnStep::Wait, waited: self.waited + 1, ..self }
                } else {
                    Spawn { step: SpawnStep::Failed(SessionError::StartupTimeout), ..self }
                }
            },
            (SpawnStep::Wait, Observation::Slept) => Spawn { step: SpawnStep::PollExists, ..self },
            _ => self,
        }
    }
}

/// The start of a launch is asked for only on the report that the socket path
/// is absent, or that it has just been removed or was found gone; and a
/// socket found present but unreachable is never followed by anything but its
/// removal. So no player is launched while an old socket path stands.
pub proof fn lemma_launch_needs_clear_endpoint(s: Spawn, obs: Observation)
    ensures
        advance_spec(s, obs).step == SpawnStep::Launch && s.step != SpawnStep::Launch ==> {
            ||| s.step == SpawnStep::ProbeExists && obs == Observation::Exists(false)
            ||| s.step == SpawnStep::RemoveEndpoint && (obs == Observation::Removal(
                Removal::Removed,
            ) || obs == Observation::Removal(Removal::Missing))
        },
        s.step == SpawnStep::ProbeReachable && obs == Observation::Reachable(false)
            ==> advance_spec(s, obs).step == SpawnStep::RemoveEndpoint,
        s.step == SpawnStep::RemoveEndpoint ==> {
            let next = advance_spec(s, obs).step;
            ||| next == SpawnStep::RemoveEndpoint
            ||| next == SpawnStep::Launch
            ||| next == SpawnStep::Failed(SessionError::Filesystem)
        },
{
}

/// Where the poll ends for a socket that appears once `appears_after` poll
/// intervals have been begun: the driver's reports are played to the end.
pub open spec fn poll_outcome(s: Spawn, appears_after: nat) -> Spawn
    decreases s.bound - s.waited, (if s.step == SpawnStep::Wait { 1nat } else { 0nat }),
{
    match s.step {
        SpawnStep::PollExists => {
            let exists = s.waited >= appears_after;
            if !exists && s.waited < s.bound {
                poll_outcome(advance_spec(s, Observation::Exists(exists)), appears_after)
            } else {
                advance_spec(s, Observation::Exists(exists))
            }
        },
        SpawnStep::Wait => poll_outcome(advance_spec(s, Observation::Slept), appears_after),
        _ => s,
    }
}

/// A poll under way ends ready exactly where the socket is there already or
/// appears within the allowed intervals, having begun no more intervals than
/// it took; otherwise it ends in a startup timeout, having begun exactly the
/// allowed number.
pub proof fn lemma_poll_outcome(s: Spawn, appears_after: nat)
    requires
        s.step == SpawnStep::PollExists,
    ensures
        poll_outcome(s, appears_after) == if appears_after <= s.waited {
            Spawn { step: SpawnStep::Ready, ..s }
        } else if appears_after <= s.bound {
            Spawn { step: SpawnStep::Ready, waited: appears_after as u32, ..s }
        } else if s.waited <= s.bound {
            Spawn { step: SpawnStep::Failed(SessionError::StartupTimeout), waited: s.bound, ..s }
        } else {
            Spawn { step: SpawnStep::Failed(SessionError::StartupTimeout), ..s }
        },
    decreases s.bound - s.waited,
{
    if s.waited < appears_after && s.waited < s.bound {
        let waiting = advance_spec(s, Observation::Exists(false));
        let polling = advance_spec(waiting, Observation::Slept);
        assert(poll_outcome(waiting, appears_after) == poll_outcome(polling, appears_after));
        lemma_poll_outcome(polling, appears_after);
    }
}

/// A start that finds no socket and launches the player succeeds exactly
/// where the socket appears within `bound` poll intervals. Where it appears
/// later or never, the start fails with a startup timeout after exactly
/// `bound` intervals, no more.
pub proof fn lemma_startup_poll(bound: u32, appears_after: nat)
    ensures
        ({
            let launch = advance_spec(initial(bound), Observation::Exists(false));
            let polling = advance_spec(launch, Observation::Launched(true));
            let end = poll_outcome(polling, appears_after);
            &&& launch.step == SpawnStep::Launch
            &&& polling.step == SpawnStep::PollExists
            &&& end.step == if appears_after <= bound {
                SpawnStep::Ready
            } else {
                SpawnStep::Failed(SessionError::StartupTimeout)
            }
            &&& end.waited == if appears_after <= bound {
                appears_after
            } else {
                bound as nat
            }
        }),
{
    let launch = advance_spec(initial(bound), Observation::Exists(false));
    let polling = advance_spec(launch, Observation::Launched(true));
    lemma_poll_outcome(polling, appears_after);
}

/// The state of a start after the reports `obs`, taken in order.
pub open spec fn spawn_run(bound: u32, obs: Seq<Observation>) -> Spawn
    decreases obs.len(),
{
    if obs.len() == 0 {
        initial(bound)
    } else {
        advance_spec(spawn_run(bound, obs.drop_last()), obs.last())
    }
}

/// Whether a report says that the socket path is out of the way.
pub open spec fn clears_endpoint(obs: Observation) -> bool {
    obs == Observation::Removal(Removal::Removed) || obs == Observation::Removal(Removal::Missing)
}

/// A start that finds a stale socket gets no further than its removal until
/// a report says that the path is out of the way: without such a report the
/// player is not launched.
pub proof fn lemma_stale_removed_before_launch(bound: u32, obs: Seq<Observation>)
    requires
        obs.len() >= 2,
        obs[0] == Observation::Exists(true),
        obs[1] == Observation::Reachable(false),
    ensures
        ({
            let step = spawn_run(bound, obs).step;
            ||| step == SpawnStep::RemoveEndpoint
            ||| step == SpawnStep::Failed(SessionError::Filesystem)
            ||| exists|i: int| 2 <= i < obs.len() && clears_endpoint(#[trigger] obs[i])
        }),
    decreases obs.len(),
{
    let before = obs.drop_last();
    if obs.len() == 2 {
        assert(spawn_run(bound, before.drop_last()) == initial(bound));
    } else {
        lemma_stale_removed_before_launch(bound, before);
    }
}

/// A reload in progress: the old player is told to quit, is left a grace
/// period to release the socket, and only then is a new one started.
#[derive(Clone, Copy, Debug, PartialEq, Eq, Structural)]
pub enum Reload {
    /// Send the quit message, and report whether it was written and flushed
    /// in full.
    SendQuit { bound: u32 },
    /// Pause for the grace period.
    Grace { bound: u32 },
    /// The start of the new player, with its pending step.
    Spawning(Spawn),
    /// The quit message could not be delivered. Nothing is left to do.
    Failed(SessionError),
}

/// The state of a reload after `obs`. An observation that does not answer
/// the pending step changes nothing.
pub open spec fn reload_advance_spec(r: Reload, obs: Observation) -> Reload {
    match (r, obs) {
        (Reload::SendQuit { bound }, Observation::Sent(true)) => Reload::Grace { bound },
        (Reload::SendQuit { bound }, Observation::Sent(false)) => Reload::Failed(
            SessionError::Connection,
        ),
        (Reload::Grace { bound }, Observation::Slept) => Reload::Spawning(initial(bound)),
        (Reload::Spawning(s), _) => Reload::Spawning(advance_spec(s, obs)),
        _ => r,
    }
}

impl Reload {
    /// A reload that has done nothing yet; its start of the new player allows
    /// `bound` poll intervals.
    pub fn begin(bound: u32) -> (r: Reload)
        ensures
            r == (Reload::SendQuit { bound }),
    {
        Reload::SendQuit { bound }
    }

    /// Whether nothing is left to do.
    pub fn is_finished(&self) -> (finished: bool)
        ensures
            finished == match *self {
                Reload::Failed(_) => true,
                Reload::Spawning(s) => s.step == SpawnStep::Ready || s.step is Failed,
                _ => false,
            },
    {
        match self {
            Reload::Failed(_) => true,
            Reload::Spawning(s) => s.is_finished(),
            _ => false,
        }
    }

    /// Takes the driver's report of the pending step and gives the state
    /// whose step comes next.
    pub fn advance(self, obs: Observation) -> (next: Reload)
        ensures
            next == reload_advance_spec(self, obs),
    {
        match self {
            Reload::SendQuit { bound } => match obs {
                Observation::Sent(flushed) => {
                    if flushed {
                        Reload::Grace { bound }
                    } else {
                        Reload::Failed(SessionError::Connection)
                    }
                },
                _ => self,
            },
            Reload::Grace { bound } => match obs {
                Observation::Slept => Reload::Spawning(Spawn::begin(bound)),
                _ => self,
            },
            Reload::Spawning(s) => Reload::Spawning(s.advance(obs)),
            Reload::Failed(_) => self,
        }
    }
}

/// The state of a reload after the reports `obs`, taken in order.
pub open spec fn reload_run(bound: u32, obs: Seq<Observation>) -> Reload
    decreases obs.len(),
{
    if obs.len() == 0 {
        Reload::SendQuit { bound }
    } else {
        reload_advance_spec(reload_run(bound, obs.drop_last()), obs.last())
    }
}

/// A reload reaches its grace period only after the report that the quit
/// message was flushed in full, and the start of the new player only after
/// that report and, later, the end of the grace period. A quit message that
/// was not delivered ends the reload with no start at all.
pub proof fn lemma_reload_order(bound: u32, obs: Seq<Observation>)
    ensures
        reload_run(bound, obs) is Grace ==> exists|i: int|
            0 <= i < obs.len() && #[trigger] obs[i] == Observation::Sent(true),
        reload_run(bound, obs) is Spawning ==> exists|i: int, j: int|
            0 <= i < j < obs.len() && #[trigger] obs[i] == Observation::Sent(true)
                && #[trigger] obs[j] == Observation::Slept,
        reload_run(bound, obs) is Failed ==> reload_run(bound, obs) == Reload::Failed(
            SessionError::Connection,
        ),
    decreases obs.len(),
{
    if obs.len() > 0 {
        lemma_reload_order(bound, obs.drop_last());
    }
}

} // verus!
