//! The tab registry: an ordered collection of sessions, a zero-based active
//! index, cyclic tab stepping, and an overflow window for width-bounded tab
//! bars. Closing, renaming and disconnecting keep the active index in range.

use crate::host::Host;
use crate::strutil::{dec_str, str_eq, usize_to_string};
use vstd::prelude::*;

verus! {

/// Maximum number of concurrent sessions.
pub const MAX_SESSIONS: usize = 20;

/// Maximum number of tabs shown at once in a width-bounded tab bar.
pub const MAX_VISIBLE_TABS: usize = 10;

/// Status of an SSH session tab.
#[derive(Debug, Clone, Copy, PartialEq, Eq, Structural)]
pub enum SessionStatus {
    /// Session is being created and connected; the only initial state.
    Connecting,
    /// Session is connected and active.
    Connected,
    /// Session is attempting to reconnect.
    Reconnecting,
    /// Session is disconnected or failed.
    Disconnected,
}

/// Activity indicators for session tabs: independent flags that combine into
/// the tab-label suffix `*` (new output), `!` (error), `@` (background).
#[derive(Debug, Clone, Copy, PartialEq, Eq, Structural)]
pub struct ActivityIndicators {
    /// New output since last viewed (`*`).
    pub has_new_output: bool,
    /// Error or alert condition (`!`).
    pub has_error: bool,
    /// Background command running (`@`).
    pub has_background_activity: bool,
}

/// A single session tab: a stable 1-based display id, the host it belongs
/// to, and its connection status and activity flags.
#[derive(Debug)]
pub struct Session {
    pub id: usize,
    pub host: Host,
    pub has_ssh_process: bool,
    pub is_active: bool,
    pub status: SessionStatus,
    pub activity: ActivityIndicators,
}

/// The session a fresh tab starts as: connecting, with no process attached
/// yet and no activity.
pub open spec fn session_new_spec(id: int, host: Host) -> Session {
    Session {
        id: id as usize,
        host,
        has_ssh_process: false,
        is_active: false,
        status: SessionStatus::Connecting,
        activity: ActivityIndicators {
            has_new_output: false,
            has_error: false,
            has_background_activity: false,
        },
    }
}

/// `s` with its new-output indicator raised.
pub open spec fn with_new_output(s: Session) -> Session {
    Session { activity: ActivityIndicators { has_new_output: true, ..s.activity }, ..s }
}

/// `s` with its error indicator raised and its status set to disconnected.
pub open spec fn with_error(s: Session) -> Session {
    Session {
        activity: ActivityIndicators { has_error: true, ..s.activity },
        status: SessionStatus::Disconnected,
        ..s
    }
}

/// `s` with its background-activity indicator raised.
pub open spec fn with_background(s: Session) -> Session {
    Session { activity: ActivityIndicators { has_background_activity: true, ..s.activity }, ..s }
}

/// `s` with its new-output indicator cleared, as after being viewed.
pub open spec fn with_viewed(s: Session) -> Session {
    Session { activity: ActivityIndicators { has_new_output: false, ..s.activity }, ..s }
}

/// `s` disconnected by the registry: no process, error flag raised.
pub open spec fn with_disconnected(s: Session) -> Session {
    Session {
        status: SessionStatus::Disconnected,
        has_ssh_process: false,
        activity: ActivityIndicators { has_error: true, ..s.activity },
        ..s
    }
}

/// `s` renamed to `name`.
pub open spec fn with_name(s: Session, name: String) -> Session {
    Session { host: Host { name, ..s.host }, ..s }
}

/// The activity-indicator suffix of a tab label: `*`, `!`, `@`, in that
/// fixed order, each present exactly when its flag is set.
pub open spec fn indicators_seq(a: ActivityIndicators) -> Seq<char> {
    (if a.has_new_output {
        seq!['*']
    } else {
        Seq::empty()
    }) + (if a.has_error {
        seq!['!']
    } else {
        Seq::empty()
    }) + (if a.has_background_activity {
        seq!['@']
    } else {
        Seq::empty()
    })
}

/// The tab label `[<id>:<name><indicators>]`.
pub open spec fn tab_label(id: nat, name: Seq<char>, a: ActivityIndicators) -> Seq<char> {
    "["@ + dec_str(id) + ":"@ + name + indicators_seq(a) + "]"@
}

impl Session {
    /// Creates a new tab for `host` under display id `id`.
    pub fn new(id: usize, host: Host) -> (s: Self)
        ensures
            s == session_new_spec(id as int, host),
    {
        Session {
            id,
            host,
            has_ssh_process: false,
            is_active: false,
            status: SessionStatus::Connecting,
            activity: ActivityIndicators {
                has_new_output: false,
                has_error: false,
                has_background_activity: false,
            },
        }
    }

    /// The label shown for this tab: `[<id>:<name>]` with the activity
    /// suffix `*`, `!`, `@` in that order, omitted when no flag is set.
    pub fn tab_display_name(&self) -> (r: String)
        ensures
            r@ == tab_label(self.id as nat, self.host.name@, self.activity),
    {
        proof {
            reveal_strlit("*");
            reveal_strlit("!");
            reveal_strlit("@");
            assert("*"@ =~= seq!['*']);
            assert("!"@ =~= seq!['!']);
            assert("@"@ =~= seq!['@']);
        }
        let mut s = String::from_str("[");
        let num = usize_to_string(self.id);
        s.append(num.as_str());
        s.append(":");
        s.append(self.host.name.as_str());
        if self.activity.has_new_output {
            s.append("*");
        }
        if self.activity.has_error {
            s.append("!");
        }
        if self.activity.has_background_activity {
            s.append("@");
        }
        s.append("]");
        proof {
            assert(s@ =~= tab_label(self.id as nat, self.host.name@, self.activity));
        }
        s
    }

    /// Whether this tab currently holds a live SSH process.
    pub fn is_connected(&self) -> (r: bool)
        ensures
            r == self.has_ssh_process,
    {
        self.has_ssh_process
    }

    /// Raises the new-output indicator.
    pub fn mark_new_output(&mut self)
        ensures
            *final(self) == (Session {
                activity: ActivityIndicators { has_new_output: true, ..old(self).activity },
                ..*old(self)
            }),
    {
        self.activity.has_new_output = true;
    }

    /// Raises the error indicator and records the session as disconnected.
    pub fn mark_error(&mut self)
        ensures
            *final(self) == (Session {
                activity: ActivityIndicators { has_error: true, ..old(self).activity },
                status: SessionStatus::Disconnected,
                ..*old(self)
            }),
    {
        self.activity.has_error = true;
        self.status = SessionStatus::Disconnected;
    }

    /// Raises the background-activity indicator.
    pub fn mark_background_activity(&mut self)
        ensures
            *final(self) == (Session {
                activity: ActivityIndicators {
                    has_background_activity: true,
                    ..old(self).activity
                },
                ..*old(self)
            }),
    {
        self.activity.has_background_activity = true;
    }

    /// Clears the new-output indicator; error and background activity stay
    /// until cleared on their own.
    pub fn clear_activity_indicators(&mut self)
        ensures
            *final(self) == (Session {
                activity: ActivityIndicators { has_new_output: false, ..old(self).activity },
                ..*old(self)
            }),
    {
        self.activity.has_new_output = false;
    }

    /// Clears the error indicator; with no other activity left, the session
    /// counts as connected again.
    pub fn clear_error(&mut self)
        ensures
            final(self).activity == (ActivityIndicators { has_error: false, ..old(self).activity }),
            final(self).status == (if !old(self).activity.has_new_output && !old(self).activity.has_background_activity {
                SessionStatus::Connected
            } else {
                old(self).status
            }),
            final(self).id == old(self).id,
            final(self).host == old(self).host,
            final(self).has_ssh_process == old(self).has_ssh_process,
            final(self).is_active == old(self).is_active,
    {
        self.activity.has_error = false;
        if !self.activity.has_new_output && !self.activity.has_background_activity {
            self.status = SessionStatus::Connected;
        }
    }
}

/// Why a tab operation was refused.
#[derive(Debug, Clone, Copy, PartialEq, Eq, Structural)]
pub enum TabError {
    /// The registry already holds the maximum number of sessions.
    CapacityExceeded,
    /// The referenced tab does not exist.
    InvalidIndex,
}

impl TabError {
    /// The human-readable text of this error.
    pub fn message(&self) -> (r: String)
        ensures
            *self is CapacityExceeded ==> r@ == "Maximum number of sessions ("@ + dec_str(
                MAX_SESSIONS as nat,
            ) + ") reached"@,
            *self is InvalidIndex ==> r@ == "invalid session index"@,
    {
        match self {
            TabError::CapacityExceeded => {
                let mut s = String::from_str("Maximum number of sessions (");
                let num = usize_to_string(MAX_SESSIONS);
                s.append(num.as_str());
                s.append(") reached");
                proof {
                    assert(s@ =~= "Maximum number of sessions ("@ + dec_str(MAX_SESSIONS as nat)
                        + ") reached"@);
                }
                s
            },
            TabError::InvalidIndex => String::from_str("invalid session index"),
        }
    }
}

/// The overflow window of a width-bounded tab bar: the first visible tab and
/// whether tabs are hidden before or after the window.
#[derive(Debug, Clone, Copy, PartialEq, Eq, Structural)]
pub struct TabOverflow {
    pub start_index: usize,
    pub has_left_overflow: bool,
    pub has_right_overflow: bool,
}

/// The first visible tab index: the window is centered on the active tab and
/// clamped to `[0, total - visible]`; when everything fits it starts at 0.
pub open spec fn overflow_start(total: int, active: int, visible: int) -> int {
    if total <= visible {
        0
    } else {
        let ideal = active - visible / 2;
        if ideal < 0 {
            0
        } else if ideal > total - visible {
            total - visible
        } else {
            ideal
        }
    }
}

/// The overflow window for `total` tabs with the active tab at `active`.
pub open spec fn spec_overflow_window(total: int, active: int) -> TabOverflow {
    let start = overflow_start(total, active, MAX_VISIBLE_TABS as int);
    TabOverflow {
        start_index: start as usize,
        has_left_overflow: start > 0,
        has_right_overflow: start + (MAX_VISIBLE_TABS as int) < total,
    }
}

/// The overflow window keeps the active tab inside the visible range
/// `[start, start + MAX_VISIBLE_TABS)`, and the overflow flags report
/// exactly whether tabs exist before or after the window.
pub proof fn lemma_window_contains_active(total: int, active: int)
    requires
        0 < total <= usize::MAX as int,
        0 <= active < total,
    ensures
        spec_overflow_window(total, active).start_index as int <= active,
        active < spec_overflow_window(total, active).start_index as int + (MAX_VISIBLE_TABS as int),
        spec_overflow_window(total, active).has_left_overflow == (spec_overflow_window(
            total,
            active,
        ).start_index as int > 0),
        spec_overflow_window(total, active).has_right_overflow == (spec_overflow_window(
            total,
            active,
        ).start_index as int + (MAX_VISIBLE_TABS as int) < total),
{
    let v = MAX_VISIBLE_TABS as int;
    let start = overflow_start(total, active, v);
    assert(0 <= start && start <= usize::MAX as int);
    assert((start as usize) as int == start);
}

/// The next tab index, wrapping past the end.
pub open spec fn next_index(cur: int, len: int) -> int {
    if cur + 1 < len {
        cur + 1
    } else {
        0
    }
}

/// The previous tab index, wrapping past the start.
pub open spec fn prev_index(cur: int, len: int) -> int {
    if cur == 0 {
        len - 1
    } else {
        cur - 1
    }
}

/// Stepping to the next tab and back (or back and then forward) returns to
/// the starting tab, for any non-empty registry.
pub proof fn lemma_tab_cycle_roundtrip(cur: int, len: int)
    requires
        0 < len,
        0 <= cur < len,
    ensures
        prev_index(next_index(cur, len), len) == cur,
        next_index(prev_index(cur, len), len) == cur,
{
}

/// The active index after removing the tab at `removed`, out of a registry
/// that is left with `new_len` tabs: a removal at or before the active index
/// shifts it down by one (never below zero), clamped to the new last index.
pub open spec fn close_active_index(cur: int, removed: int, new_len: int) -> int {
    if new_len == 0 {
        0
    } else {
        let shifted = if removed <= cur && cur > 0 {
            cur - 1
        } else {
            cur
        };
        if shifted > new_len - 1 {
            new_len - 1
        } else {
            shifted
        }
    }
}

/// Closing the active tab at the last position moves the active index to the
/// new last tab; closing a tab strictly after the active one leaves it
/// unchanged; closing one at or strictly before it decrements it by exactly
/// one, never below zero.
pub proof fn lemma_close_tab_active_index(cur: int, removed: int, len: int)
    requires
        0 <= removed < len,
        0 <= cur < len,
    ensures
        (removed == cur && cur == len - 1 && len > 1) ==> close_active_index(cur, removed, len - 1)
            == len - 2,
        removed > cur ==> close_active_index(cur, removed, len - 1) == cur,
        (removed <= cur && cur > 0) ==> close_active_index(cur, removed, len - 1) == cur - 1,
        (removed == cur && cur == 0 && len > 1) ==> close_active_index(cur, removed, len - 1) == 0,
{
}

/// The session count after one more create: one more tab below the capacity
/// bound, unchanged at it.
pub open spec fn add_count(n: int) -> int {
    if n < MAX_SESSIONS {
        n + 1
    } else {
        n
    }
}

/// The session count after `k` creates starting from an empty registry.
pub open spec fn count_after_creates(k: nat) -> int
    decreases k,
{
    if k == 0 {
        0
    } else {
        add_count(count_after_creates((k - 1) as nat))
    }
}

/// After any number of creates from an empty registry, the session count
/// equals the number of calls until the capacity bound, and stays at the
/// bound from then on: every create below the bound succeeds and counts,
/// and every create at the bound fails and leaves the count unchanged.
pub proof fn lemma_capacity_bound(k: nat)
    ensures
        count_after_creates(k) == if k <= MAX_SESSIONS {
            k as int
        } else {
            MAX_SESSIONS as int
        },
    decreases k,
{
    if k > 0 {
        lemma_capacity_bound((k - 1) as nat);
    }
}

/// Manages multiple SSH session tabs: an ordered registry, the active tab,
/// and the derived overflow window.
#[derive(Debug)]
pub struct TabManager {
    sessions: Vec<Session>,
    current_session_index: usize,
    next_session_id: usize,
    overflow: TabOverflow,
}

impl TabManager {
    /// The registry, in tab order.
    pub closed spec fn sessions_view(self) -> Seq<Session> {
        self.sessions@
    }

    /// The zero-based active tab index.
    pub closed spec fn active_index_view(self) -> int {
        self.current_session_index as int
    }

    /// The display id the next created session will get.
    pub closed spec fn next_id_view(self) -> int {
        self.next_session_id as int
    }

    /// The overflow window, as last recomputed.
    pub closed spec fn window_view(self) -> TabOverflow {
        self.overflow
    }

    /// The registry's basic shape: the count stays within capacity, the
    /// active index stays in range (and is 0 when the registry is empty),
    /// and the overflow window matches the count and the active index.
    pub open spec fn wf(self) -> bool {
        &&& self.sessions_view().len() <= MAX_SESSIONS
        &&& self.sessions_view().len() == 0 ==> self.active_index_view() == 0
        &&& self.sessions_view().len() > 0 ==> self.active_index_view()
            < self.sessions_view().len()
        &&& 0 <= self.active_index_view()
        &&& 1 <= self.next_id_view()
        &&& self.window_view() == spec_overflow_window(
            self.sessions_view().len() as int,
            self.active_index_view(),
        )
    }

    /// Creates an empty tab registry.
    pub fn new() -> (m: Self)
        ensures
            m.wf(),
            m.sessions_view() == Seq::<Session>::empty(),
            m.active_index_view() == 0,
            m.next_id_view() == 1,
    {
        let m = TabManager {
            sessions: Vec::new(),
            current_session_index: 0,
            next_session_id: 1,
            overflow: compute_overflow(0, 0),
        };
        proof {
            assert(m.sessions_view() =~= Seq::<Session>::empty());
        }
        m
    }

    /// Recomputes the overflow window from the count and the active index.
    fn update_overflow(&mut self)
        ensures
            *final(self) == (TabManager {
                overflow: spec_overflow_window(
                    old(self).sessions_view().len() as int,
                    old(self).active_index_view(),
                ),
                ..*old(self)
            }),
    {
        self.overflow = compute_overflow(self.sessions.len(), self.current_session_index);
    }

    /// Adds a session for `host` and switches to it; refuses creation at the
    /// capacity bound, with the registry unchanged.
    pub fn add_session(&mut self, host: Host) -> (r: Result<usize, TabError>)
        requires
            old(self).wf(),
        ensures
            final(self).wf(),
            final(self).sessions_view().len() as int == add_count(
                old(self).sessions_view().len() as int,
            ),
            old(self).sessions_view().len() >= MAX_SESSIONS ==> r == Err::<usize, TabError>(
                TabError::CapacityExceeded,
            ) && *final(self) == *old(self),
            old(self).sessions_view().len() < MAX_SESSIONS ==> {
                &&& r matches Ok(id) && id as int == old(self).next_id_view()
                &&& final(self).sessions_view() == old(self).sessions_view().push(
                    session_new_spec(old(self).next_id_view(), host),
                )
                &&& final(self).active_index_view() == old(self).sessions_view().len() as int
                &&& final(self).next_id_view() == if old(self).next_id_view() < usize::MAX as int {
                    old(self).next_id_view() + 1
                } else {
                    old(self).next_id_view()
                }
            },
    {
        if self.sessions.len() >= MAX_SESSIONS {
            return Err(TabError::CapacityExceeded);
        }
        let session_id = self.next_session_id;
        let session = Session::new(session_id, host);
        self.sessions.push(session);
        if self.next_session_id < usize::MAX {
            self.next_session_id = self.next_session_id + 1;
        }
        self.current_session_index = self.sessions.len() - 1;
        self.update_overflow();
        Ok(session_id)
    }

    /// Switches to a session by 1-based index; reports whether the index was
    /// valid. The registry itself is unchanged.
    pub fn switch_to_session(&mut self, one_based_index: usize) -> (r: bool)
        requires
            old(self).wf(),
        ensures
            final(self).wf(),
            final(self).sessions_view() == old(self).sessions_view(),
            final(self).next_id_view() == old(self).next_id_view(),
            r == (1 <= one_based_index && one_based_index as int <= old(self).sessions_view().len()),
            r ==> final(self).active_index_view() == one_based_index - 1,
            !r ==> final(self).active_index_view() == old(self).active_index_view(),
    {
        if one_based_index == 0 || one_based_index > self.sessions.len() {
            return false;
        }
        self.current_session_index = one_based_index - 1;
        self.update_overflow();
        true
    }

    /// The active session, when the registry is non-empty.
    pub fn current_session(&self) -> (r: Option<&Session>)
        requires
            self.wf(),
        ensures
            self.sessions_view().len() == 0 ==> r is None,
            self.sessions_view().len() > 0 ==> r == Some(
                &self.sessions_view()[self.active_index_view()],
            ),
    {
        if self.sessions.len() == 0 {
            None
        } else {
            Some(&self.sessions[self.current_session_index])
        }
    }

    /// All sessions, in tab order.
    pub fn sessions(&self) -> (r: &Vec<Session>)
        ensures
            r@ == self.sessions_view(),
    {
        &self.sessions
    }

    /// The zero-based active tab index.
    pub fn current_session_index(&self) -> (r: usize)
        ensures
            r as int == self.active_index_view(),
    {
        self.current_session_index
    }

    /// Whether any session exists.
    pub fn has_sessions(&self) -> (r: bool)
        ensures
            r == (self.sessions_view().len() > 0),
    {
        self.sessions.len() > 0
    }

    /// The number of sessions.
    pub fn session_count(&self) -> (r: usize)
        ensures
            r as int == self.sessions_view().len(),
    {
        self.sessions.len()
    }

    /// The overflow window for a width-bounded tab bar.
    pub fn overflow_window(&self) -> (r: TabOverflow)
        ensures
            r == self.window_view(),
    {
        self.overflow
    }

    /// The whole tab bar as one string: each session's label in order, the
    /// active one prefixed with a marker.
    pub fn tab_bar_display(&self) -> (r: String)
        ensures
            r@ == tab_bar_from(self.sessions_view(), self.active_index_view(), 0),
    {
        let mut s = String::new();
        let n = self.sessions.len();
        let mut i: usize = 0;
        proof {
            reveal_strlit("\u{25b6}");
            assert("\u{25b6}"@ =~= seq!['\u{25b6}']);
            assert(s@ + tab_bar_from(self.sessions_view(), self.active_index_view(), 0)
                =~= tab_bar_from(self.sessions_view(), self.active_index_view(), 0));
        }
        while i < n
            invariant
                n == self.sessions_view().len(),
                i <= n,
                "\u{25b6}"@ =~= seq!['\u{25b6}'],
                tab_bar_from(self.sessions_view(), self.active_index_view(), 0) == s@
                    + tab_bar_from(self.sessions_view(), self.active_index_view(), i as int),
            decreases n - i,
        {
            let ghost prev = s@;
            let ghost piece = (if i as int == self.active_index_view() {
                seq!['\u{25b6}']
            } else {
                Seq::<char>::empty()
            }) + tab_label(
                self.sessions_view()[i as int].id as nat,
                self.sessions_view()[i as int].host.name@,
                self.sessions_view()[i as int].activity,
            );
            let label = self.sessions[i].tab_display_name();
            if i == self.current_session_index {
                s.append("\u{25b6}");
            }
            s.append(label.as_str());
            proof {
                assert(s@ =~= prev + piece);
                assert(tab_bar_from(self.sessions_view(), self.active_index_view(), i as int)
                    =~= piece + tab_bar_from(
                    self.sessions_view(),
                    self.active_index_view(),
                    i + 1,
                ));
                assert(prev + (piece + tab_bar_from(
                    self.sessions_view(),
                    self.active_index_view(),
                    i + 1,
                )) =~= (prev + piece) + tab_bar_from(
                    self.sessions_view(),
                    self.active_index_view(),
                    i + 1,
                ));
            }
            i += 1;
        }
        s
    }

    /// Marks activity of the given kind (`output`, `error`, `background`) on
    /// the session at `session_index`; other kinds and out-of-range indices
    /// change nothing.
    #[verifier::rlimit(60)]
    pub fn mark_session_activity(&mut self, session_index: usize, activity_type: &str)
        requires
            old(self).wf(),
        ensures
            final(self).wf(),
            final(self).active_index_view() == old(self).active_index_view(),
            final(self).next_id_view() == old(self).next_id_view(),
            (session_index as int) >= old(self).sessions_view().len() ==> final(self).sessions_view()
                == old(self).sessions_view(),
            (session_index as int) < old(self).sessions_view().len() ==> final(self).sessions_view()
                == (if activity_type@ == "output"@ {
                old(self).sessions_view().update(
                    session_index as int,
                    with_new_output(old(self).sessions_view()[session_index as int]),
                )
            } else if activity_type@ == "error"@ {
                old(self).sessions_view().update(
                    session_index as int,
                    with_error(old(self).sessions_view()[session_index as int]),
                )
            } else if activity_type@ == "background"@ {
                old(self).sessions_view().update(
                    session_index as int,
                    with_background(old(self).sessions_view()[session_index as int]),
                )
            } else {
                old(self).sessions_view()
            }),
    {
        if session_index >= self.sessions.len() {
            return ;
        }
        let ghost before = self.sessions@;
        if str_eq(activity_type, "output") {
            let mut sess = self.sessions.remove(session_index);
            sess.mark_new_output();
            self.sessions.insert(session_index, sess);
            proof {
                assert(self.sessions@ =~= before.update(
                    session_index as int,
                    with_new_output(before[session_index as int]),
                ));
            }
        } else if str_eq(activity_type, "error") {
            let mut sess = self.sessions.remove(session_index);
            sess.mark_error();
            self.sessions.insert(session_index, sess);
            proof {
                assert(self.sessions@ =~= before.update(
                    session_index as int,
                    with_error(before[session_index as int]),
                ));
            }
        } else if str_eq(activity_type, "background") {
            let mut sess = self.sessions.remove(session_index);
            sess.mark_background_activity();
            self.sessions.insert(session_index, sess);
            proof {
                assert(self.sessions@ =~= before.update(
                    session_index as int,
                    with_background(before[session_index as int]),
                ));
            }
        }
    }

    /// Switches to a session by 1-based index and clears its new-output
    /// indicator; reports whether the index was valid.
    pub fn switch_to_session_and_clear_activity(&mut self, one_based_index: usize) -> (r: bool)
        requires
            old(self).wf(),
        ensures
            final(self).wf(),
            final(self).next_id_view() == old(self).next_id_view(),
            r == (1 <= one_based_index && one_based_index as int <= old(self).sessions_view().len()),
            !r ==> final(self).sessions_view() == old(self).sessions_view() && final(self).active_index_view() == old(self).active_index_view(),
            r ==> final(self).active_index_view() == one_based_index - 1 && final(self).sessions_view() == old(self).sessions_view().update(
                one_based_index - 1,
                with_viewed(old(self).sessions_view()[one_based_index - 1]),
            ),
    {
        if self.switch_to_session(one_based_index) {
            let ghost before = self.sessions@;
            let idx = self.current_session_index;
            let mut sess = self.sessions.remove(idx);
            sess.clear_activity_indicators();
            self.sessions.insert(idx, sess);
            proof {
                assert(self.sessions@ =~= before.update(
                    idx as int,
                    with_viewed(before[idx as int]),
                ));
            }
            true
        } else {
            false
        }
    }

    /// Steps to the next tab, wrapping past the end, and marks the new
    /// active session's output as viewed; does nothing when no tab exists.
    pub fn next_tab(&mut self)
        requires
            old(self).wf(),
        ensures
            final(self).wf(),
            final(self).next_id_view() == old(self).next_id_view(),
            old(self).sessions_view().len() == 0 ==> *final(self) == *old(self),
            old(self).sessions_view().len() > 0 ==> {
                &&& final(self).active_index_view() == next_index(
                    old(self).active_index_view(),
                    old(self).sessions_view().len() as int,
                )
                &&& final(self).sessions_view() == old(self).sessions_view().update(
                    final(self).active_index_view(),
                    with_viewed(old(self).sessions_view()[final(self).active_index_view()]),
                )
            },
    {
        let n = self.sessions.len();
        if n == 0 {
            return ;
        }
        let idx = if self.current_session_index + 1 < n {
            self.current_session_index + 1
        } else {
            0
        };
        self.current_session_index = idx;
        let ghost before = self.sessions@;
        let mut sess = self.sessions.remove(idx);
        sess.clear_activity_indicators();
        self.sessions.insert(idx, sess);
        self.update_overflow();
        proof {
            assert(self.sessions@ =~= before.update(idx as int, with_viewed(before[idx as int])));
        }
    }

    /// Steps to the previous tab, wrapping past the start, and marks the new
    /// active session's output as viewed; does nothing when no tab exists.
    pub fn previous_tab(&mut self)
        requires
            old(self).wf(),
        ensures
            final(self).wf(),
            final(self).next_id_view() == old(self).next_id_view(),
            old(self).sessions_view().len() == 0 ==> *final(self) == *old(self),
            old(self).sessions_view().len() > 0 ==> {
                &&& final(self).active_index_view() == prev_index(
                    old(self).active_index_view(),
                    old(self).sessions_view().len() as int,
                )
                &&& final(self).sessions_view() == old(self).sessions_view().update(
                    final(self).active_index_view(),
                    with_viewed(old(self).sessions_view()[final(self).active_index_view()]),
                )
            },
    {
        let n = self.sessions.len();
        if n == 0 {
            return ;
        }
        let idx = if self.current_session_index == 0 {
            n - 1
        } else {
            self.current_session_index - 1
        };
        self.current_session_index = idx;
        let ghost before = self.sessions@;
        let mut sess = self.sessions.remove(idx);
        sess.clear_activity_indicators();
        self.sessions.insert(idx, sess);
        self.update_overflow();
        proof {
            assert(self.sessions@ =~= before.update(idx as int, with_viewed(before[idx as int])));
        }
    }

    /// Disconnects the session at `session_index`: records it disconnected
    /// with an error indicator but keeps its tab; reports whether the index
    /// was valid.
    pub fn disconnect_session(&mut self, session_index: usize) -> (r: bool)
        requires
            old(self).wf(),
        ensures
            final(self).wf(),
            final(self).active_index_view() == old(self).active_index_view(),
            final(self).next_id_view() == old(self).next_id_view(),
            r == ((session_index as int) < old(self).sessions_view().len()),
            !r ==> final(self).sessions_view() == old(self).sessions_view(),
            r ==> final(self).sessions_view() == old(self).sessions_view().update(
                session_index as int,
                with_disconnected(old(self).sessions_view()[session_index as int]),
            ),
    {
        if session_index >= self.sessions.len() {
            return false;
        }
        let ghost before = self.sessions@;
        let mut sess = self.sessions.remove(session_index);
        sess.status = SessionStatus::Disconnected;
        sess.has_ssh_process = false;
        sess.activity.has_error = true;
        self.sessions.insert(session_index, sess);
        proof {
            assert(self.sessions@ =~= before.update(
                session_index as int,
                with_disconnected(before[session_index as int]),
            ));
        }
        true
    }

    /// Renames the session at `session_index`; reports whether the index was
    /// valid.
    pub fn rename_session(&mut self, session_index: usize, new_name: String) -> (r: bool)
        requires
            old(self).wf(),
        ensures
            final(self).wf(),
            final(self).active_index_view() == old(self).active_index_view(),
            final(self).next_id_view() == old(self).next_id_view(),
            r == ((session_index as int) < old(self).sessions_view().len()),
            !r ==> final(self).sessions_view() == old(self).sessions_view(),
            r ==> final(self).sessions_view() == old(self).sessions_view().update(
                session_index as int,
                with_name(old(self).sessions_view()[session_index as int], new_name),
            ),
    {
        if session_index >= self.sessions.len() {
            return false;
        }
        let ghost before = self.sessions@;
        let mut sess = self.sessions.remove(session_index);
        sess.host.name = new_name;
        self.sessions.insert(session_index, sess);
        proof {
            assert(self.sessions@ =~= before.update(
                session_index as int,
                with_name(before[session_index as int], new_name),
            ));
        }
        true
    }

    /// Closes the session at `session_index`, removing its tab and
    /// re-deriving the active index; reports whether the index was valid.
    pub fn close_session(&mut self, session_index: usize) -> (r: bool)
        requires
            old(self).wf(),
        ensures
            final(self).wf(),
            final(self).next_id_view() == old(self).next_id_view(),
            r == ((session_index as int) < old(self).sessions_view().len()),
            !r ==> *final(self) == *old(self),
            r ==> final(self).sessions_view() == old(self).sessions_view().remove(
                session_index as int,
            ),
            r ==> final(self).active_index_view() == close_active_index(
                old(self).active_index_view(),
                session_index as int,
                old(self).sessions_view().len() - 1,
            ),
    {
        if session_index >= self.sessions.len() {
            return false;
        }
        self.sessions.remove(session_index);
        if self.sessions.len() == 0 {
            self.current_session_index = 0;
        } else {
            if session_index <= self.current_session_index && self.current_session_index > 0 {
                self.current_session_index = self.current_session_index - 1;
            }
            if self.current_session_index >= self.sessions.len() {
                self.current_session_index = self.sessions.len() - 1;
            }
        }
        self.update_overflow();
        true
    }

    /// Closes the active tab; reports false when no tab exists.
    pub fn close_current_tab(&mut self) -> (r: bool)
        requires
            old(self).wf(),
        ensures
            final(self).wf(),
            final(self).next_id_view() == old(self).next_id_view(),
            r == (old(self).sessions_view().len() > 0),
            !r ==> *final(self) == *old(self),
            r ==> final(self).sessions_view() == old(self).sessions_view().remove(
                old(self).active_index_view(),
            ),
            r ==> final(self).active_index_view() == close_active_index(
                old(self).active_index_view(),
                old(self).active_index_view(),
                old(self).sessions_view().len() - 1,
            ),
    {
        if self.sessions.len() == 0 {
            return false;
        }
        let idx = self.current_session_index;
        self.close_session(idx)
    }

    /// Goes to a tab by 1-based number and marks its output as viewed;
    /// refuses 0 and numbers past the count, with the registry unchanged.
    pub fn goto_tab(&mut self, one_based_index: usize) -> (r: Result<(), TabError>)
        requires
            old(self).wf(),
        ensures
            final(self).wf(),
            final(self).next_id_view() == old(self).next_id_view(),
            r == (if 1 <= one_based_index && one_based_index as int <= old(self).sessions_view().len() {
                Ok::<(), TabError>(())
            } else {
                Err::<(), TabError>(TabError::InvalidIndex)
            }),
            r is Err ==> final(self).sessions_view() == old(self).sessions_view() && final(self).active_index_view() == old(self).active_index_view(),
            r is Ok ==> final(self).active_index_view() == one_based_index - 1 && final(self).sessions_view() == old(self).sessions_view().update(
                one_based_index - 1,
                with_viewed(old(self).sessions_view()[one_based_index - 1]),
            ),
    {
        if self.switch_to_session_and_clear_activity(one_based_index) {
            Ok(())
        } else {
            Err(TabError::InvalidIndex)
        }
    }

    /// The position of the first session whose host name equals `name`.
    pub fn find_session_by_host(&self, name: &str) -> (r: Option<usize>)
        ensures
            r matches Some(i) ==> (i as int) < self.sessions_view().len()
                && self.sessions_view()[i as int].host.name@ == name@ && (forall|j: int|
                0 <= j < i ==> (#[trigger] self.sessions_view()[j]).host.name@ != name@),
            r is None ==> forall|j: int|
                0 <= j < self.sessions_view().len() ==> (#[trigger] self.sessions_view()[j]).host.name@
                    != name@,
    {
        let n = self.sessions.len();
        let mut i: usize = 0;
        while i < n
            invariant
                n == self.sessions_view().len(),
                i <= n,
                forall|j: int|
                    0 <= j < i ==> (#[trigger] self.sessions_view()[j]).host.name@ != name@,
            decreases n - i,
        {
            if str_eq(self.sessions[i].host.name.as_str(), name) {
                return Some(i);
            }
            i += 1;
        }
        None
    }

    /// Whether any session's host name equals `name`; used to avoid opening
    /// duplicate tabs for the same host.
    pub fn has_session_for_host(&self, name: &str) -> (r: bool)
        ensures
            r == exists|j: int|
                0 <= j < self.sessions_view().len() && (#[trigger] self.sessions_view()[j]).host.name@
                    == name@,
    {
        match self.find_session_by_host(name) {
            Some(i) => {
                proof {
                    assert(self.sessions_view()[i as int].host.name@ == name@);
                }
                true
            },
            None => false,
        }
    }

    /// A read-only snapshot of every session for a session-overview display:
    /// 1-based tab number, names, status, activity, and the is-active flag.
    pub fn get_session_stats(&self) -> (r: Vec<TabStats>)
        ensures
            r@.len() == self.sessions_view().len(),
            forall|i: int|
                0 <= i < r@.len() ==> {
                    let s = self.sessions_view()[i];
                    &&& (#[trigger] r@[i]).tab_number as int == i + 1
                    &&& r@[i].name@ == s.host.name@
                    &&& r@[i].destination@ == s.host.destination@
                    &&& r@[i].status == s.status
                    &&& r@[i].activity == s.activity
                    &&& r@[i].is_current == (i == self.active_index_view())
                },
    {
        let mut r: Vec<TabStats> = Vec::new();
        let n = self.sessions.len();
        let mut i: usize = 0;
        while i < n
            invariant
                n == self.sessions_view().len(),
                i <= n,
                r@.len() == i,
                forall|k: int|
                    0 <= k < i ==> {
                        let s = self.sessions_view()[k];
                        &&& (#[trigger] r@[k]).tab_number as int == k + 1
                        &&& r@[k].name@ == s.host.name@
                        &&& r@[k].destination@ == s.host.destination@
                        &&& r@[k].status == s.status
                        &&& r@[k].activity == s.activity
                        &&& r@[k].is_current == (k == self.active_index_view())
                    },
            decreases n - i,
        {
            let stat = TabStats {
                tab_number: i + 1,
                name: self.sessions[i].host.name.clone(),
                destination: self.sessions[i].host.destination.clone(),
                status: self.sessions[i].status,
                activity: self.sessions[i].activity,
                is_current: i == self.current_session_index,
            };
            r.push(stat);
            i += 1;
        }
        r
    }
}

/// A read-only view of one session for a session-overview display.
#[derive(Debug)]
pub struct TabStats {
    pub tab_number: usize,
    pub name: String,
    pub destination: String,
    pub status: SessionStatus,
    pub activity: ActivityIndicators,
    pub is_current: bool,
}

/// The tab bar text from position `i` on: each label in order, the active
/// tab prefixed with a marker.
pub open spec fn tab_bar_from(sessions: Seq<Session>, current: int, i: int) -> Seq<char>
    decreases sessions.len() - i,
{
    if i < 0 || i >= sessions.len() {
        Seq::empty()
    } else {
        (if i == current {
            seq!['\u{25b6}']
        } else {
            Seq::empty()
        }) + tab_label(sessions[i].id as nat, sessions[i].host.name@, sessions[i].activity)
            + tab_bar_from(sessions, current, i + 1)
    }
}

impl Default for TabManager {
    /// An empty tab registry.
    fn default() -> (m: Self)
        ensures
            m.wf(),
            m.sessions_view() == Seq::<Session>::empty(),
            m.active_index_view() == 0,
            m.next_id_view() == 1,
    {
        TabManager::new()
    }
}

/// Computes the overflow window for `total` tabs with the active tab at
/// `active`.
fn compute_overflow(total: usize, active: usize) -> (r: TabOverflow)
    ensures
        r == spec_overflow_window(total as int, active as int),
{
    if total <= MAX_VISIBLE_TABS {
        TabOverflow { start_index: 0, has_left_overflow: false, has_right_overflow: false }
    } else {
        let half = MAX_VISIBLE_TABS / 2;
        let low = if active >= half {
            active - half
        } else {
            0
        };
        let max_start = total - MAX_VISIBLE_TABS;
        let start = if low > max_start {
            max_start
        } else {
            low
        };
        TabOverflow {
            start_index: start,
            has_left_overflow: start > 0,
            has_right_overflow: start + MAX_VISIBLE_TABS < total,
        }
    }
}

} // verus!
