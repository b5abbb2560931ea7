//! One SSH session: a PTY-backed child process modelled by its liveness, a
//! terminal buffer for its output, a connection-state machine, activity
//! signalling, and bounded reconnection. The process itself is spawned and
//! polled by the caller, which feeds outcomes and drained bytes back in.

use crate::host::Host;
use crate::terminal::{
    buffer_stepped_all, lemma_buffer_stepped_all_snoc, vt_cols, vt_rows, TerminalBuffer,
};
use vstd::prelude::*;

verus! {

/// The connection state of an SSH session.
#[derive(Debug, Clone, PartialEq)]
pub enum ConnectionState {
    /// Session is connecting.
    Connecting,
    /// Session is connected and active.
    Connected,
    /// Session is disconnected.
    Disconnected,
    /// Session encountered an error.
    Error(String),
    /// Session is attempting to reconnect.
    Reconnecting,
}

/// The activity shown on a session's tab.
#[derive(Debug, Clone, Copy, PartialEq, Eq, Structural)]
pub enum ActivityIndicator {
    /// No special activity.
    Idle,
    /// New output since last viewed.
    NewOutput,
    /// Connection error or disconnected.
    Error,
    /// Background command running.
    BackgroundActivity,
}

/// Configuration for SSH sessions.
#[derive(Debug, Clone, Copy, PartialEq, Eq, Structural)]
pub struct SessionConfig {
    /// Maximum number of lines kept in the scrollback buffer.
    pub max_scrollback_lines: usize,
    /// Timeout for connection attempts, in milliseconds.
    pub connection_timeout_ms: u64,
    /// Whether to attempt automatic reconnection.
    pub auto_reconnect: bool,
    /// Number of reconnection attempts allowed.
    pub max_reconnect_attempts: u32,
}

impl Default for SessionConfig {
    /// Ten thousand scrollback lines, a thirty-second connection timeout,
    /// automatic reconnection with three attempts.
    fn default() -> (c: Self)
        ensures
            c.max_scrollback_lines == 10000,
            c.connection_timeout_ms == 30000,
            c.auto_reconnect,
            c.max_reconnect_attempts == 3,
    {
        SessionConfig {
            max_scrollback_lines: 10000,
            connection_timeout_ms: 30000,
            auto_reconnect: true,
            max_reconnect_attempts: 3,
        }
    }
}

/// Why a session operation failed.
#[derive(Debug)]
pub enum SessionError {
    /// The SSH process could not be started.
    SpawnFailure(String),
    /// The reconnection budget is used up.
    ReconnectExhausted,
}

impl SessionError {
    /// The human-readable text of this error.
    pub fn message(&self) -> (r: String)
        ensures
            *self matches SessionError::SpawnFailure(e) ==> r@ == "Failed to start SSH process: "@
                + e@,
            *self is ReconnectExhausted ==> r@ == "Max reconnection attempts exceeded"@,
    {
        match self {
            SessionError::SpawnFailure(e) => {
                let mut s = String::from_str("Failed to start SSH process: ");
                s.append(e.as_str());
                s
            },
            SessionError::ReconnectExhausted => String::from_str(
                "Max reconnection attempts exceeded",
            ),
        }
    }
}

/// Statistics about a session.
#[derive(Debug, Clone, Copy, PartialEq, Eq, Structural)]
pub struct SessionStats {
    /// Milliseconds since the last recorded activity.
    pub uptime_ms: u64,
    /// Lines currently held in the scrollback buffer.
    pub lines_in_buffer: usize,
    /// Reconnection attempts made so far.
    pub connection_attempts: u32,
    /// When activity was last recorded, in caller-supplied milliseconds.
    pub last_activity_ms: u64,
}

/// The display name a host gets on its tab: the host name, truncated with an
/// ellipsis past fifteen characters.
pub open spec fn display_name_spec(name: Seq<char>) -> Seq<char> {
    if name.len() > 15 {
        name.subrange(0, 12) + "..."@
    } else {
        name
    }
}

/// The command line that connects to `h`: the `ssh` executable with a fixed
/// log level and host-key policy, the port when one is set, and
/// `user@destination` with `root` standing in for an unset user.
pub open spec fn ssh_argv(h: Host) -> Seq<Seq<char>> {
    seq!["ssh"@, "-o"@, "LogLevel=ERROR"@, "-o"@, "StrictHostKeyChecking=accept-new"@] + (
    match h.port {
        Some(p) => seq!["-p"@, p@],
        None => Seq::empty(),
    }) + seq![
        (match h.user {
            Some(u) => u@,
            None => "root"@,
        }) + "@"@ + h.destination@,
    ]
}

/// The attempt counter after one `reconnect` call: one more below the bound,
/// unchanged at it.
pub open spec fn attempts_after_call(a: int, max: int) -> int {
    if a < max {
        a + 1
    } else {
        a
    }
}

/// The attempt counter after `k` `reconnect` calls.
pub open spec fn attempts_after_calls(a: int, max: int, k: nat) -> int
    decreases k,
{
    if k == 0 {
        a
    } else {
        attempts_after_call(attempts_after_calls(a, max, (k - 1) as nat), max)
    }
}

/// Repeated reconnection from any attempt count within the budget raises the
/// counter by one per call until it reaches the bound, and never past it:
/// after the budget is spent, every further call leaves the counter at the
/// bound (and, by `reconnect`'s contract, fails with a terminal error).
pub proof fn lemma_reconnect_exhaustion(a: int, max: int, k: nat)
    requires
        0 <= a <= max,
    ensures
        attempts_after_calls(a, max, k) == if a + k <= max {
            a + k
        } else {
            max as int
        },
        attempts_after_calls(a, max, k) <= max,
    decreases k,
{
    if k > 0 {
        lemma_reconnect_exhaustion(a, max, (k - 1) as nat);
    }
}

/// An individual SSH session with terminal emulation.
pub struct SshSession {
    /// Host configuration.
    pub host: Host,
    /// Session identifier, derived from the host name.
    pub id: String,
    /// Display name for the tab.
    pub display_name: String,
    /// Current connection state.
    pub state: ConnectionState,
    /// Activity indicator.
    pub activity: ActivityIndicator,
    /// Terminal buffer with VT100 parsing.
    pub terminal: TerminalBuffer,
    /// Session configuration.
    pub config: SessionConfig,
    /// Reconnection attempts made so far.
    pub reconnect_attempts: u32,
    /// When activity was last recorded, in caller-supplied milliseconds.
    pub last_activity_ms: u64,
    /// Whether a child process is currently attached.
    pub has_process: bool,
}

/// How one UI tick transforms a session: the drained byte chunks go through
/// the terminal buffer one by one in order (raising the new-output indicator
/// when any arrived), then the liveness check turns a dead-but-active
/// session into a disconnected one with an error indicator.
pub open spec fn session_stepped(
    pre: SshSession,
    post: SshSession,
    chunks: Seq<Seq<u8>>,
    process_alive: bool,
    now_ms: u64,
) -> bool {
    let batch_count = chunks.len() as int;
    let was_active = pre.state is Connected || pre.state is Connecting;
    let mid_activity = if batch_count > 0 {
        ActivityIndicator::NewOutput
    } else {
        pre.activity
    };
    &&& post.host == pre.host
    &&& post.id == pre.id
    &&& post.display_name == pre.display_name
    &&& post.config_view() == pre.config_view()
    &&& post.attempts_view() == pre.attempts_view()
    &&& post.terminal.wf()
    &&& buffer_stepped_all(pre.terminal, post.terminal, chunks)
    &&& post.terminal.max_lines_view() == pre.terminal.max_lines_view()
    &&& post.state == (if !process_alive && was_active {
        ConnectionState::Disconnected
    } else {
        pre.state
    })
    &&& post.activity == (if !process_alive && was_active {
        ActivityIndicator::Error
    } else {
        mid_activity
    })
    &&& post.has_process_view() == (if !process_alive && was_active {
        false
    } else {
        pre.has_process_view()
    })
    &&& post.last_activity_view() == (if batch_count > 0 {
        now_ms
    } else {
        pre.last_activity_view()
    })
}

impl SshSession {
    /// The session configuration.
    pub open spec fn config_view(self) -> SessionConfig {
        self.config
    }

    /// Reconnection attempts made so far.
    pub open spec fn attempts_view(self) -> int {
        self.reconnect_attempts as int
    }

    /// When activity was last recorded.
    pub open spec fn last_activity_view(self) -> u64 {
        self.last_activity_ms
    }

    /// Whether a child process is currently attached.
    pub open spec fn has_process_view(self) -> bool {
        self.has_process
    }

    /// The session's basic shape: the attempt counter stays within its
    /// budget and the terminal stays within its scrollback bound.
    pub open spec fn wf(self) -> bool {
        &&& self.terminal.wf()
        &&& self.attempts_view() <= self.config_view().max_reconnect_attempts as int
    }

    /// Creates a new, not yet connected session for `host`.
    pub fn new(host: Host, config: SessionConfig) -> (s: Self)
        ensures
            s.wf(),
            s.host == host,
            s.id@ == host.name@,
            s.display_name@ == display_name_spec(host.name@),
            s.state is Disconnected,
            s.activity is Idle,
            s.config_view() == config,
            s.attempts_view() == 0,
            !s.has_process_view(),
            s.terminal.max_lines_view() == config.max_scrollback_lines as int,
            s.terminal.scrollback_lines().len() == 0,
    {
        let id = host.name.clone();
        let display_name = Self::generate_display_name(&host);
        SshSession {
            host,
            id,
            display_name,
            state: ConnectionState::Disconnected,
            activity: ActivityIndicator::Idle,
            terminal: TerminalBuffer::new(config.max_scrollback_lines),
            config,
            reconnect_attempts: 0,
            last_activity_ms: 0,
            has_process: false,
        }
    }

    /// The display name for a host's tab, truncated with an ellipsis when
    /// the host name is longer than fifteen characters.
    pub fn generate_display_name(host: &Host) -> (r: String)
        ensures
            r@ == display_name_spec(host.name@),
    {
        let name = host.name.as_str();
        if name.unicode_len() > 15 {
            let mut s = String::from_str(name.substring_char(0, 12));
            s.append("...");
            s
        } else {
            name.to_owned()
        }
    }

    /// Starts a connection attempt: records the session as connecting,
    /// clears the activity indicator, and hands back the command line the
    /// caller must spawn on the PTY (reporting the outcome to
    /// [`Self::connect_outcome`]).
    pub fn connect_command(&mut self) -> (argv: Vec<String>)
        ensures
            argv.deep_view() == ssh_argv(old(self).host),
            *final(self) == (SshSession {
                state: ConnectionState::Connecting,
                activity: ActivityIndicator::Idle,
                ..*old(self)
            }),
    {
        self.state = ConnectionState::Connecting;
        self.activity = ActivityIndicator::Idle;
        let mut argv: Vec<String> = Vec::new();
        argv.push(String::from_str("ssh"));
        argv.push(String::from_str("-o"));
        argv.push(String::from_str("LogLevel=ERROR"));
        argv.push(String::from_str("-o"));
        argv.push(String::from_str("StrictHostKeyChecking=accept-new"));
        if let Some(port) = &self.host.port {
            argv.push(String::from_str("-p"));
            argv.push(port.clone());
        }
        let mut target = match &self.host.user {
            Some(user) => user.clone(),
            None => String::from_str("root"),
        };
        target.append("@");
        target.append(self.host.destination.as_str());
        argv.push(target);
        proof {
            assert(argv.deep_view() =~= ssh_argv(old(self).host));
        }
        argv
    }

    /// Records the outcome of spawning the SSH process: on success the
    /// session is connected and owns the process; on failure it is parked in
    /// an error state with the error surfaced, and the tab stays usable.
    pub fn connect_outcome(&mut self, spawn_error: Option<String>, now_ms: u64) -> (r: Result<
        (),
        SessionError,
    >)
        ensures
            spawn_error is None ==> r is Ok && *final(self) == (SshSession {
                state: ConnectionState::Connected,
                has_process: true,
                last_activity_ms: now_ms,
                ..*old(self)
            }),
            spawn_error matches Some(e) ==> {
                &&& r matches Err(SessionError::SpawnFailure(m)) && m@ == e@
                &&& final(self).state matches ConnectionState::Error(msg) && msg@
                    == "Failed to start SSH: "@ + e@
                &&& final(self).activity is Error
                &&& !final(self).has_process_view()
                &&& final(self).host == old(self).host
                &&& final(self).id == old(self).id
                &&& final(self).display_name == old(self).display_name
                &&& final(self).terminal == old(self).terminal
                &&& final(self).config_view() == old(self).config_view()
                &&& final(self).attempts_view() == old(self).attempts_view()
                &&& final(self).last_activity_view() == old(self).last_activity_view()
            },
            old(self).wf() ==> final(self).wf(),
    {
        match spawn_error {
            None => {
                self.has_process = true;
                self.state = ConnectionState::Connected;
                self.last_activity_ms = now_ms;
                Ok(())
            },
            Some(e) => {
                let mut msg = String::from_str("Failed to start SSH: ");
                msg.append(e.as_str());
                self.state = ConnectionState::Error(msg);
                self.activity = ActivityIndicator::Error;
                self.has_process = false;
                Err(SessionError::SpawnFailure(e))
            },
        }
    }

    /// Applies the PTY data drained since the last tick: every chunk runs
    /// through the terminal buffer in order, and any data at all raises the
    /// new-output indicator and refreshes the activity timestamp.
    pub fn process_pending_data(&mut self, chunks: &Vec<Vec<u8>>, now_ms: u64)
        requires
            old(self).wf(),
        ensures
            final(self).wf(),
            buffer_stepped_all(old(self).terminal, final(self).terminal, chunks.deep_view()),
            chunks@.len() == 0 ==> *final(self) == *old(self),
            chunks@.len() > 0 ==> *final(self) == (SshSession {
                activity: ActivityIndicator::NewOutput,
                last_activity_ms: now_ms,
                terminal: final(self).terminal,
                ..*old(self)
            }),
            final(self).terminal.max_lines_view() == old(self).terminal.max_lines_view(),
    {
        let n = chunks.len();
        if n == 0 {
            proof {
                assert(chunks.deep_view().len() == 0);
            }
            return ;
        }
        let mut i: usize = 0;
        proof {
            assert(chunks.deep_view().take(0) =~= Seq::<Seq<u8>>::empty());
        }
        while i < n
            invariant
                i <= n,
                self.terminal.wf(),
                buffer_stepped_all(
                    old(self).terminal,
                    self.terminal,
                    chunks.deep_view().take(i as int),
                ),
                self.terminal.max_lines_view() == old(self).terminal.max_lines_view(),
                self.host == old(self).host,
                self.id == old(self).id,
                self.display_name == old(self).display_name,
                self.state == old(self).state,
                self.activity == old(self).activity,
                self.config == old(self).config,
                self.reconnect_attempts == old(self).reconnect_attempts,
                self.last_activity_ms == old(self).last_activity_ms,
                self.has_process == old(self).has_process,
                n == chunks@.len(),
                n == chunks.deep_view().len(),
            decreases n - i,
        {
            let ghost mid = self.terminal;
            self.terminal.process_data(chunks[i].as_slice());
            proof {
                assert(chunks.deep_view()[i as int] == chunks@[i as int]@);
                lemma_buffer_stepped_all_snoc(
                    old(self).terminal,
                    mid,
                    self.terminal,
                    chunks.deep_view().take(i as int),
                    chunks.deep_view()[i as int],
                );
                assert(chunks.deep_view().take(i as int).push(chunks.deep_view()[i as int])
                    =~= chunks.deep_view().take(i + 1));
            }
            i += 1;
        }
        proof {
            assert(chunks.deep_view().take(n as int) =~= chunks.deep_view());
        }
        self.activity = ActivityIndicator::NewOutput;
        self.last_activity_ms = now_ms;
    }

    /// Reflows the terminal buffer to the new dimensions (asks below two
    /// rows or columns are raised to that floor). The caller is responsible
    /// for resizing the OS-level PTY to match.
    pub fn resize(&mut self, cols: u16, rows: u16)
        ensures
            vt_rows(final(self).terminal.parser_view()) == (if rows < 2 {
                2u16
            } else {
                rows
            }),
            vt_cols(final(self).terminal.parser_view()) == (if cols < 2 {
                2u16
            } else {
                cols
            }),
            final(self).terminal.scrollback_lines() == old(self).terminal.scrollback_lines(),
            final(self).terminal.max_lines_view() == old(self).terminal.max_lines_view(),
            final(self).terminal.has_new_output_view() == old(
                self,
            ).terminal.has_new_output_view(),
            final(self).host == old(self).host,
            final(self).id == old(self).id,
            final(self).display_name == old(self).display_name,
            final(self).state == old(self).state,
            final(self).activity == old(self).activity,
            final(self).config_view() == old(self).config_view(),
            final(self).attempts_view() == old(self).attempts_view(),
            final(self).last_activity_view() == old(self).last_activity_view(),
            final(self).has_process_view() == old(self).has_process_view(),
            old(self).wf() ==> final(self).wf(),
    {
        self.terminal.resize(cols, rows);
    }

    /// Whether the session counts as active: connected or still connecting.
    pub fn is_active(&self) -> (r: bool)
        ensures
            r == (self.state is Connected || self.state is Connecting),
    {
        match &self.state {
            ConnectionState::Connected => true,
            ConnectionState::Connecting => true,
            _ => false,
        }
    }

    /// Whether a child process is currently attached.
    pub fn is_process_running(&self) -> (r: bool)
        ensures
            r == self.has_process_view(),
    {
        self.has_process
    }

    /// Applies the result of the liveness poll: a session whose process has
    /// exited while it was connected or connecting becomes disconnected,
    /// with the error indicator raised.
    pub fn update_state(&mut self, process_alive: bool)
        ensures
            (!process_alive && (old(self).state is Connected || old(self).state is Connecting))
                ==> *final(self) == (SshSession {
                state: ConnectionState::Disconnected,
                activity: ActivityIndicator::Error,
                has_process: false,
                ..*old(self)
            }),
            (process_alive || !(old(self).state is Connected || old(self).state is Connecting))
                ==> *final(self) == *old(self),
            old(self).wf() ==> final(self).wf(),
    {
        let active = self.is_active();
        if !process_alive && active {
            self.state = ConnectionState::Disconnected;
            self.activity = ActivityIndicator::Error;
            self.has_process = false;
        }
    }

    /// Starts a reconnection attempt from a disconnected or failed session:
    /// within the budget it counts the attempt, tears down any process
    /// ownership, and records the session as reconnecting (the caller then
    /// waits its backoff, spawns, and reports through
    /// [`Self::connect_outcome`]); once the budget is spent it parks the
    /// session in a terminal error state and refuses.
    pub fn reconnect(&mut self) -> (r: Result<(), SessionError>)
        requires
            old(self).wf(),
        ensures
            final(self).wf(),
            old(self).attempts_view() >= old(self).config_view().max_reconnect_attempts as int
                ==> {
                &&& r matches Err(SessionError::ReconnectExhausted)
                &&& final(self).state matches ConnectionState::Error(m) && m@
                    == "Max reconnection attempts exceeded"@
                &&& final(self).attempts_view() == old(self).attempts_view()
                &&& final(self).has_process_view() == old(self).has_process_view()
            },
            old(self).attempts_view() < old(self).config_view().max_reconnect_attempts as int
                ==> {
                &&& r is Ok
                &&& final(self).state is Reconnecting
                &&& final(self).attempts_view() == old(self).attempts_view() + 1
                &&& !final(self).has_process_view()
            },
            final(self).attempts_view() == attempts_after_call(
                old(self).attempts_view(),
                old(self).config_view().max_reconnect_attempts as int,
            ),
            final(self).host == old(self).host,
            final(self).id == old(self).id,
            final(self).display_name == old(self).display_name,
            final(self).activity == old(self).activity,
            final(self).config_view() == old(self).config_view(),
            final(self).terminal == old(self).terminal,
    {
        if self.reconnect_attempts >= self.config.max_reconnect_attempts {
            self.state = ConnectionState::Error(
                String::from_str("Max reconnection attempts exceeded"),
            );
            return Err(SessionError::ReconnectExhausted);
        }
        self.reconnect_attempts = self.reconnect_attempts + 1;
        self.state = ConnectionState::Reconnecting;
        self.has_process = false;
        Ok(())
    }

    /// Releases the session's claim on its process and records it
    /// disconnected; idempotent. The caller kills the actual child process.
    pub fn disconnect(&mut self)
        ensures
            *final(self) == (SshSession {
                state: ConnectionState::Disconnected,
                has_process: false,
                ..*old(self)
            }),
            old(self).wf() ==> final(self).wf(),
    {
        self.has_process = false;
        self.state = ConnectionState::Disconnected;
    }

    /// The tab's display name, activity indicator and connection state.
    pub fn get_tab_info(&self) -> (r: (String, ActivityIndicator, ConnectionState))
        ensures
            r.0@ == self.display_name@,
            r.1 == self.activity,
            r.2 == self.state,
    {
        let state = match &self.state {
            ConnectionState::Connecting => ConnectionState::Connecting,
            ConnectionState::Connected => ConnectionState::Connected,
            ConnectionState::Disconnected => ConnectionState::Disconnected,
            ConnectionState::Error(m) => ConnectionState::Error(m.clone()),
            ConnectionState::Reconnecting => ConnectionState::Reconnecting,
        };
        (self.display_name.clone(), self.activity, state)
    }

    /// Marks the session as viewed: clears the terminal's new-output flag
    /// and, when the indicator shows new output, resets it.
    pub fn mark_viewed(&mut self)
        ensures
            !final(self).terminal.has_new_output_view(),
            final(self).terminal.scrollback_lines() == old(self).terminal.scrollback_lines(),
            final(self).terminal.max_lines_view() == old(self).terminal.max_lines_view(),
            final(self).activity == (if old(self).activity is NewOutput {
                ActivityIndicator::Idle
            } else {
                old(self).activity
            }),
            final(self).state == old(self).state,
            final(self).host == old(self).host,
            final(self).id == old(self).id,
            final(self).display_name == old(self).display_name,
            final(self).config_view() == old(self).config_view(),
            final(self).attempts_view() == old(self).attempts_view(),
            final(self).last_activity_view() == old(self).last_activity_view(),
            final(self).has_process_view() == old(self).has_process_view(),
            old(self).wf() ==> final(self).wf(),
    {
        self.terminal.mark_viewed();
        if let ActivityIndicator::NewOutput = self.activity {
            self.activity = ActivityIndicator::Idle;
        }
    }

    /// A snapshot of the session's statistics at `now_ms`: time since the
    /// last activity, scrollback size, and the attempt counter.
    pub fn get_stats(&self, now_ms: u64) -> (r: SessionStats)
        ensures
            r.uptime_ms as int == (if now_ms >= self.last_activity_view() {
                now_ms - self.last_activity_view()
            } else {
                0
            }),
            r.lines_in_buffer as int == self.terminal.scrollback_lines().len(),
            r.connection_attempts as int == self.attempts_view(),
            r.last_activity_ms == self.last_activity_view(),
    {
        let uptime_ms = if now_ms >= self.last_activity_ms {
            now_ms - self.last_activity_ms
        } else {
            0
        };
        SessionStats {
            uptime_ms,
            lines_in_buffer: self.terminal.get_scrollback().len(),
            connection_attempts: self.reconnect_attempts,
            last_activity_ms: self.last_activity_ms,
        }
    }

    /// One UI tick for this session: apply the drained bytes, then the
    /// liveness poll's result.
    pub fn tick(&mut self, chunks: &Vec<Vec<u8>>, process_alive: bool, now_ms: u64)
        requires
            old(self).wf(),
        ensures
            final(self).wf(),
            session_stepped(*old(self), *final(self), chunks.deep_view(), process_alive, now_ms),
    {
        self.process_pending_data(chunks, now_ms);
        self.update_state(process_alive);
    }
}

/// One UI tick for every session: each drains its own batch in order and
/// applies its own liveness poll result; no session's failure touches another.
pub fn process_all_sessions(
    sessions: &mut Vec<SshSession>,
    batches: &Vec<Vec<Vec<u8>>>,
    alive: &Vec<bool>,
    now_ms: u64,
)
    requires
        batches@.len() == old(sessions)@.len(),
        alive@.len() == old(sessions)@.len(),
        forall|i: int| 0 <= i < old(sessions)@.len() ==> (#[trigger] old(sessions)@[i]).wf(),
    ensures
        final(sessions)@.len() == old(sessions)@.len(),
        forall|i: int|
            0 <= i < final(sessions)@.len() ==> (#[trigger] final(sessions)@[i]).wf()
                && session_stepped(
                old(sessions)@[i],
                final(sessions)@[i],
                batches@[i].deep_view(),
                alive@[i],
                now_ms,
            ),
{
    let n = sessions.len();
    let mut i: usize = 0;
    while i < n
        invariant
            n == sessions@.len(),
            n == old(sessions)@.len(),
            n == batches@.len(),
            n == alive@.len(),
            i <= n,
            forall|k: int| i <= k < n ==> sessions@[k] == old(sessions)@[k],
            forall|k: int| i <= k < n ==> (#[trigger] sessions@[k]).wf(),
            forall|k: int|
                0 <= k < i ==> (#[trigger] sessions@[k]).wf() && session_stepped(
                    old(sessions)@[k],
                    sessions@[k],
                    batches@[k].deep_view(),
                    alive@[k],
                    now_ms,
                ),
        decreases n - i,
    {
        let ghost before = sessions@;
        let mut sess = sessions.remove(i);
        sess.tick(&batches[i], alive[i], now_ms);
        sessions.insert(i, sess);
        proof {
            assert(forall|k: int| 0 <= k < n && k != i ==> sessions@[k] == before[k]);
            assert(sessions@[i as int] == sess);
        }
        i += 1;
    }
}

} // verus!
