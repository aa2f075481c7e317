//! The decision logic of the mail-sync scheduler: the interrupt slots the
//! workers wake on, the per-pass decisions of the folder, SMTP and idle
//! loops, and the supervisor's start and shutdown rules.  The loops
//! themselves perform network work and waiting; everything they decide is
//! a function from state and event to next state and action, stated and
//! proved here.

use vstd::prelude::*;

verus! {

/// The payload of a worker interrupt: something changed, re-evaluate; if
/// `probe_network`, assume the connectivity state has flipped.
#[derive(Debug, Clone, Copy, PartialEq, Eq, Structural)]
pub struct InterruptInfo {
    pub probe_network: bool,
}

impl InterruptInfo {
    /// An interrupt with the given network hint.
    pub fn new(probe_network: bool) -> (r: Self)
        ensures
            r.probe_network == probe_network,
    {
        Self { probe_network }
    }
}

/// Which configured folder a loop watches.
#[derive(Debug, Clone, Copy, PartialEq, Eq, Structural)]
pub enum FolderMeaning {
    Inbox,
    Mvbox,
    Sent,
    /// Used when a loop has no folder to watch.
    Unknown,
}

/// The configuration key that names a watched folder.
#[derive(Debug, Clone, Copy, PartialEq, Eq, Structural)]
pub enum FolderConfigKey {
    ConfiguredInboxFolder,
    ConfiguredMvboxFolder,
    ConfiguredSentboxFolder,
}

/// Each folder meaning maps to at most one configuration key.
pub fn folder_config_key(m: FolderMeaning) -> (r: Option<FolderConfigKey>)
    ensures
        r == (match m {
            FolderMeaning::Inbox => Option::Some(FolderConfigKey::ConfiguredInboxFolder),
            FolderMeaning::Mvbox => Option::Some(FolderConfigKey::ConfiguredMvboxFolder),
            FolderMeaning::Sent => Option::Some(FolderConfigKey::ConfiguredSentboxFolder),
            FolderMeaning::Unknown => Option::<FolderConfigKey>::None,
        }),
{
    match m {
        FolderMeaning::Inbox => Option::Some(FolderConfigKey::ConfiguredInboxFolder),
        FolderMeaning::Mvbox => Option::Some(FolderConfigKey::ConfiguredMvboxFolder),
        FolderMeaning::Sent => Option::Some(FolderConfigKey::ConfiguredSentboxFolder),
        FolderMeaning::Unknown => Option::None,
    }
}

/// The connectivity a worker reports.
#[derive(Debug, Clone, PartialEq, Eq)]
pub enum Connectivity {
    NotConfigured,
    Connecting,
    Working,
    Connected,
    ErrorWithMessage(String),
}

/// What an interrupt does to a single-slot channel: a pending signal is
/// kept and the new one dropped; an empty slot takes the signal.
pub open spec fn spec_interrupt(
    slot: Option<InterruptInfo>,
    info: InterruptInfo,
) -> Option<InterruptInfo> {
    match slot {
        Option::None => Option::Some(info),
        Option::Some(_) => slot,
    }
}

/// What a worker's wait on the slot observes.
#[derive(Debug, Clone, Copy, PartialEq, Eq, Structural)]
pub enum WaitOutcome {
    /// A pending interrupt, consumed.
    Interrupted(InterruptInfo),
    /// The timer fired while the slot was empty.
    TimerTick,
    /// Nothing to observe yet.
    KeepWaiting,
}

/// The wait decision: a pending interrupt always wins, the timer only
/// fires on an empty slot.
pub open spec fn spec_idle_wait(slot: Option<InterruptInfo>, timer_fired: bool) -> WaitOutcome {
    match slot {
        Option::Some(i) => WaitOutcome::Interrupted(i),
        Option::None => if timer_fired {
            WaitOutcome::TimerTick
        } else {
            WaitOutcome::KeepWaiting
        },
    }
}

/// A one-slot interrupt channel: senders never block, a full slot drops
/// the new signal.
pub struct InterruptSlot {
    pub pending: Option<InterruptInfo>,
}

impl InterruptSlot {
    /// An empty slot.
    pub fn new() -> (r: Self)
        ensures
            r.pending is None,
    {
        Self { pending: Option::None }
    }

    /// Delivers an interrupt without blocking, as `spec_interrupt` says.
    pub fn interrupt(&mut self, info: InterruptInfo)
        ensures
            final(self).pending == spec_interrupt(old(self).pending, info),
    {
        if self.pending.is_none() {
            self.pending = Option::Some(info);
        }
    }

    /// One wait attempt: consumes a pending interrupt, else reports the
    /// timer or keeps waiting.
    pub fn wait_attempt(&mut self, timer_fired: bool) -> (r: WaitOutcome)
        ensures
            r == spec_idle_wait(old(self).pending, timer_fired),
            final(self).pending is None,
    {
        match self.pending {
            Option::Some(i) => {
                self.pending = Option::None;
                WaitOutcome::Interrupted(i)
            },
            Option::None => {
                if timer_fired {
                    WaitOutcome::TimerTick
                } else {
                    WaitOutcome::KeepWaiting
                }
            },
        }
    }
}

/// Interrupt liveness: once an interrupt has been delivered, the slot
/// holds one, and the worker's very next wait attempt observes an
/// interrupt rather than a timer tick or more waiting, whatever was
/// pending before and whether or not its timer fired.
pub proof fn lemma_interrupt_liveness(
    slot: Option<InterruptInfo>,
    sig: InterruptInfo,
    timer_fired: bool,
)
    ensures
        spec_interrupt(slot, sig) is Some,
        spec_idle_wait(spec_interrupt(slot, sig), timer_fired) is Interrupted,
{
}

/// Per-worker handles the supervisor keeps: the stop line, the interrupt
/// slot, and the connectivity the worker reports.
pub struct ConnectionState {
    /// Whether the stop signal has been sent.
    pub stop_requested: bool,
    /// Whether the worker still runs and can take the stop signal.
    pub worker_running: bool,
    /// The idle interrupt slot.
    pub interrupt: InterruptSlot,
    /// The connectivity the worker last reported.
    pub connectivity: Connectivity,
}

impl ConnectionState {
    /// A fresh connection state for a running worker.
    pub fn new() -> (r: Self)
        ensures
            !r.stop_requested,
            r.worker_running,
            r.interrupt.pending is None,
            r.connectivity == Connectivity::NotConfigured,
    {
        Self {
            stop_requested: false,
            worker_running: true,
            interrupt: InterruptSlot::new(),
            connectivity: Connectivity::NotConfigured,
        }
    }

    /// Delivers an idle interrupt without blocking.
    pub fn interrupt(&mut self, info: InterruptInfo)
        ensures
            final(self).interrupt.pending == spec_interrupt(old(self).interrupt.pending, info),
            final(self).stop_requested == old(self).stop_requested,
            final(self).worker_running == old(self).worker_running,
            final(self).connectivity == old(self).connectivity,
    {
        self.interrupt.interrupt(info);
    }

    /// Requests the worker to stop; fails only when the worker is already
    /// gone.
    pub fn stop(&mut self) -> (r: Result<(), ()>)
        ensures
            r is Ok <==> old(self).worker_running,
            final(self).stop_requested == (old(self).stop_requested || old(self).worker_running),
            final(self).worker_running == old(self).worker_running,
            final(self).interrupt == old(self).interrupt,
            final(self).connectivity == old(self).connectivity,
    {
        if self.worker_running {
            self.stop_requested = true;
            Result::Ok(())
        } else {
            Result::Err(())
        }
    }
}

/// The retry state of the SMTP loop.
pub struct SmtpSchedState {
    /// Seconds until the next send retry; absent while sending succeeds.
    pub retry_timeout: Option<u64>,
}

/// The timeout after one more failed send: thirty seconds at first, then
/// tripled, saturating at the largest value.
pub open spec fn next_timeout(t: Option<u64>) -> Option<u64> {
    match t {
        Option::None => Option::Some(30u64),
        Option::Some(x) => Option::Some(
            if x > u64::MAX / 3 {
                u64::MAX
            } else {
                (3 * x) as u64
            },
        ),
    }
}

/// The retry timeout after `k` consecutive failures, starting from none.
pub open spec fn backoff_after(k: nat) -> Option<u64>
    decreases k,
{
    if k == 0 {
        Option::None
    } else {
        next_timeout(backoff_after((k - 1) as nat))
    }
}

/// Powers of three.
pub open spec fn pow3(n: nat) -> int
    decreases n,
{
    if n == 0 {
        1
    } else {
        3 * pow3((n - 1) as nat)
    }
}

/// A value capped at the largest timeout.
pub open spec fn capped(v: int) -> u64 {
    if v > u64::MAX {
        u64::MAX
    } else {
        v as u64
    }
}

/// Exponential SMTP backoff: after `k` consecutive send failures the next
/// retry is due in `30 * 3^(k-1)` seconds, saturating at the largest
/// timeout.
pub proof fn lemma_smtp_backoff(k: nat)
    requires
        k >= 1,
    ensures
        backoff_after(k) == Option::Some(capped(30 * pow3((k - 1) as nat))),
    decreases k,
{
    if k == 1 {
        assert(pow3(0) == 1);
        assert(backoff_after(1) == next_timeout(backoff_after(0)));
    } else {
        lemma_smtp_backoff((k - 1) as nat);
        let c = 30 * pow3((k - 2) as nat);
        let prev = capped(c);
        assert(pow3((k - 1) as nat) == 3 * pow3((k - 2) as nat));
        assert(30 * pow3((k - 1) as nat) == 3 * c) by (nonlinear_arith)
            requires
                pow3((k - 1) as nat) == 3 * pow3((k - 2) as nat),
                c == 30 * pow3((k - 2) as nat),
        ;
        assert(c >= 30) by {
            lemma_pow3_pos((k - 2) as nat);
        }
            assert(3 * (u64::MAX / 3) == u64::MAX) by (nonlinear_arith);
        if c > u64::MAX {
            assert(prev == u64::MAX);
            assert(prev > u64::MAX / 3);
            assert(3 * c > u64::MAX);
        } else {
            assert(prev == c);
            if c > u64::MAX / 3 {
                assert(3 * c > u64::MAX) by (nonlinear_arith)
                    requires
                        c > u64::MAX / 3,
                        3 * (u64::MAX / 3) == u64::MAX,
                ;
            } else {
                assert(3 * c <= u64::MAX) by (nonlinear_arith)
                    requires
                        c <= u64::MAX / 3,
                        3 * (u64::MAX / 3) == u64::MAX,
                ;
            }
        }
    }
}

/// Powers of three are positive.
proof fn lemma_pow3_pos(n: nat)
    ensures
        pow3(n) >= 1,
    decreases n,
{
    if n > 0 {
        lemma_pow3_pos((n - 1) as nat);
    }
}

/// What one pass of the SMTP loop does after draining the queue.
#[derive(Debug, Clone, Copy, PartialEq, Eq, Structural)]
pub enum SmtpStep {
    /// The rate limiter said not yet: sleep this long, racing the
    /// interrupt slot, then try again; the retry state is untouched.
    Ratelimited { wait_seconds: u64 },
    /// Enter fake idle: wait for an interrupt, bounded by the retry
    /// timeout when sending failed, reporting the given connectivity.
    Idle { wait_seconds: Option<u64>, connected: bool },
}

/// One pass of the SMTP loop: a failed send sets or triples the retry
/// timeout and idles bounded by it; a successful send under rate limiting
/// sleeps out the limiter; otherwise the retry timeout is cleared and the
/// loop idles until interrupted.  When idling, connectivity reports the
/// last send error if any, else connected.
pub fn smtp_iteration(
    state: &mut SmtpSchedState,
    send_failed: bool,
    ratelimit_wait: u64,
    has_last_error: bool,
) -> (r: SmtpStep)
    ensures
        send_failed ==> final(state).retry_timeout == next_timeout(old(state).retry_timeout) && r
            == (SmtpStep::Idle { wait_seconds: final(state).retry_timeout, connected: !has_last_error }),
        !send_failed && ratelimit_wait > 0 ==> final(state).retry_timeout == old(
            state,
        ).retry_timeout && r == (SmtpStep::Ratelimited { wait_seconds: ratelimit_wait }),
        !send_failed && ratelimit_wait == 0 ==> final(state).retry_timeout is None && r == (
        SmtpStep::Idle { wait_seconds: Option::None, connected: !has_last_error }),
{
    if send_failed {
        let t = match state.retry_timeout {
            Option::None => 30u64,
            Option::Some(x) => {
                if x > u64::MAX / 3 {
                    u64::MAX
                } else {
                    3 * x
                }
            },
        };
        state.retry_timeout = Option::Some(t);
        SmtpStep::Idle { wait_seconds: Option::Some(t), connected: !has_last_error }
    } else if ratelimit_wait > 0 {
        SmtpStep::Ratelimited { wait_seconds: ratelimit_wait }
    } else {
        state.retry_timeout = Option::None;
        SmtpStep::Idle { wait_seconds: Option::None, connected: !has_last_error }
    }
}

/// How scanning the other folders went, on the Inbox pass.
#[derive(Debug, Clone, Copy, PartialEq, Eq, Structural)]
pub enum ScanOutcome {
    /// Scanning failed; this alone never forces a reconnect, since the
    /// problem may be a single bad folder.
    Failed,
    /// Scanning moved messages into the watched folder.
    FoundMovedMessages,
    MovedNothing,
}

/// What the outside operations of one folder pass reported.
#[derive(Debug, Clone, Copy, PartialEq, Eq, Structural)]
pub struct FetchOutcomes {
    /// Whether the connection could be prepared.
    pub prepare_ok: bool,
    /// Whether fetching the watched folder succeeded.
    pub fetch_ok: bool,
    /// How the Inbox-only folder scan went.
    pub scan: ScanOutcome,
    /// Whether the re-fetch after a scan that moved messages succeeded.
    pub refetch_ok: bool,
    /// Whether a session is still held after synchronizing.
    pub session_available: bool,
    /// Whether that session advertises the idle capability.
    pub can_idle: bool,
}

/// How the pass ends.
#[derive(Debug, Clone, Copy, PartialEq, Eq, Structural)]
pub enum FetchIdleNext {
    /// Poll with no folder to watch.
    FakeIdleUnconfigured,
    /// Poll the watched folder.
    FakeIdleWatched,
    /// Enter real idle on the watched folder.
    RealIdle,
    /// Give up on this pass and report a non-probing interrupt.
    ReturnNonProbing,
}

/// Everything one folder pass decides.
#[derive(Debug, Clone, Copy, PartialEq, Eq, Structural)]
pub struct FetchIdlePlan {
    /// Reset the connection so a fresh one is opened.
    pub reconnect: bool,
    /// Report that no folder is configured.
    pub set_not_configured: bool,
    /// Flush queued seen-flag updates first (Inbox only).
    pub flush_seen_flags: bool,
    /// Mark expired messages for deletion after fetching.
    pub sweep_expired: bool,
    /// Scan the other folders once (Inbox only).
    pub scan_folders: bool,
    /// Fetch the watched folder again because scanning moved messages.
    pub refetch: bool,
    /// Synchronize seen flags in both directions.
    pub sync_seen_flags: bool,
    /// Report the connection as working.
    pub set_connected: bool,
    /// How the pass ends.
    pub next: FetchIdleNext,
}

/// The decision table of one folder pass, exactly as the loop performs
/// it: an unconfigured folder polls idly; a failed preparation reconnects
/// and polls; a failed fetch (first or after scanning) reconnects and
/// gives the pass up; otherwise the side steps run in order and the pass
/// ends in real idle when a session with the idle capability is held, and
/// in polling otherwise.
pub open spec fn spec_fetch_idle(folder_configured: bool, inbox: bool, oc: FetchOutcomes) -> FetchIdlePlan {
    if !folder_configured {
        FetchIdlePlan {
            reconnect: false,
            set_not_configured: true,
            flush_seen_flags: false,
            sweep_expired: false,
            scan_folders: false,
            refetch: false,
            sync_seen_flags: false,
            set_connected: false,
            next: FetchIdleNext::FakeIdleUnconfigured,
        }
    } else if !oc.prepare_ok {
        FetchIdlePlan {
            reconnect: true,
            set_not_configured: false,
            flush_seen_flags: false,
            sweep_expired: false,
            scan_folders: false,
            refetch: false,
            sync_seen_flags: false,
            set_connected: false,
            next: FetchIdleNext::FakeIdleWatched,
        }
    } else if !oc.fetch_ok {
        FetchIdlePlan {
            reconnect: true,
            set_not_configured: false,
            flush_seen_flags: inbox,
            sweep_expired: false,
            scan_folders: false,
            refetch: false,
            sync_seen_flags: false,
            set_connected: false,
            next: FetchIdleNext::ReturnNonProbing,
        }
    } else if inbox && oc.scan == ScanOutcome::FoundMovedMessages && !oc.refetch_ok {
        FetchIdlePlan {
            reconnect: true,
            set_not_configured: false,
            flush_seen_flags: true,
            sweep_expired: true,
            scan_folders: true,
            refetch: true,
            sync_seen_flags: false,
            set_connected: false,
            next: FetchIdleNext::ReturnNonProbing,
        }
    } else {
        FetchIdlePlan {
            reconnect: false,
            set_not_configured: false,
            flush_seen_flags: inbox,
            sweep_expired: true,
            scan_folders: inbox,
            refetch: inbox && oc.scan == ScanOutcome::FoundMovedMessages,
            sync_seen_flags: true,
            set_connected: true,
            next: if oc.session_available && oc.can_idle {
                FetchIdleNext::RealIdle
            } else {
                FetchIdleNext::FakeIdleWatched
            },
        }
    }
}

/// Decides one folder pass, as `spec_fetch_idle` describes.
pub fn fetch_idle_decision(folder_configured: bool, inbox: bool, oc: &FetchOutcomes) -> (r:
    FetchIdlePlan)
    ensures
        r == spec_fetch_idle(folder_configured, inbox, *oc),
{
    if !folder_configured {
        FetchIdlePlan {
            reconnect: false,
            set_not_configured: true,
            flush_seen_flags: false,
            sweep_expired: false,
            scan_folders: false,
            refetch: false,
            sync_seen_flags: false,
            set_connected: false,
            next: FetchIdleNext::FakeIdleUnconfigured,
        }
    } else if !oc.prepare_ok {
        FetchIdlePlan {
            reconnect: true,
            set_not_configured: false,
            flush_seen_flags: false,
            sweep_expired: false,
            scan_folders: false,
            refetch: false,
            sync_seen_flags: false,
            set_connected: false,
            next: FetchIdleNext::FakeIdleWatched,
        }
    } else if !oc.fetch_ok {
        FetchIdlePlan {
            reconnect: true,
            set_not_configured: false,
            flush_seen_flags: inbox,
            sweep_expired: false,
            scan_folders: false,
            refetch: false,
            sync_seen_flags: false,
            set_connected: false,
            next: FetchIdleNext::ReturnNonProbing,
        }
    } else if inbox && matches!(oc.scan, ScanOutcome::FoundMovedMessages) && !oc.refetch_ok {
        FetchIdlePlan {
            reconnect: true,
            set_not_configured: false,
            flush_seen_flags: true,
            sweep_expired: true,
            scan_folders: true,
            refetch: true,
            sync_seen_flags: false,
            set_connected: false,
            next: FetchIdleNext::ReturnNonProbing,
        }
    } else {
        FetchIdlePlan {
            reconnect: false,
            set_not_configured: false,
            flush_seen_flags: inbox,
            sweep_expired: true,
            scan_folders: inbox,
            refetch: inbox && matches!(oc.scan, ScanOutcome::FoundMovedMessages),
            sync_seen_flags: true,
            set_connected: true,
            next: if oc.session_available && oc.can_idle {
                FetchIdleNext::RealIdle
            } else {
                FetchIdleNext::FakeIdleWatched
            },
        }
    }
}

/// The flags an Inbox pass consults before fetching.
#[derive(Debug, Clone, Copy, PartialEq, Eq, Structural)]
pub struct InboxFlags {
    /// A quota refresh was requested and the flag atomically cleared.
    pub quota_requested: bool,
    /// A folder resync was requested and the flag atomically cleared.
    pub resync_requested: bool,
    /// Whether existing messages were already seeded once.
    pub fetched_existing: bool,
    /// When housekeeping last ran, as a unix timestamp.
    pub last_housekeeping: i64,
    /// The time now.
    pub now: i64,
}

/// The side steps an Inbox pass performs before fetching.
#[derive(Debug, Clone, Copy, PartialEq, Eq, Structural)]
pub struct InboxPass {
    pub update_quota: bool,
    pub resync_folders: bool,
    pub run_housekeeping: bool,
    /// Mark the seeding as done first, then seed: the intent is persisted
    /// once, even when seeding fails.
    pub mark_fetched_existing: bool,
    pub fetch_existing: bool,
}

/// Housekeeping is due a day after it last ran, the sum saturating.
pub open spec fn spec_housekeeping_due(last: i64, now: i64) -> bool {
    (if last + 86400 > i64::MAX {
        i64::MAX as int
    } else {
        last + 86400
    }) <= now
}

/// Decides whether housekeeping is due.
pub fn housekeeping_due(last: i64, now: i64) -> (r: bool)
    ensures
        r == spec_housekeeping_due(last, now),
{
    let next = match last.checked_add(86400) {
        Option::Some(v) => v,
        Option::None => i64::MAX,
    };
    next <= now
}

/// The side steps of one Inbox pass, each taken exactly when its flag or
/// deadline says so.
pub fn inbox_pass_plan(f: &InboxFlags) -> (r: InboxPass)
    ensures
        r.update_quota == f.quota_requested,
        r.resync_folders == f.resync_requested,
        r.run_housekeeping == spec_housekeeping_due(f.last_housekeeping, f.now),
        r.mark_fetched_existing == !f.fetched_existing,
        r.fetch_existing == !f.fetched_existing,
{
    InboxPass {
        update_quota: f.quota_requested,
        resync_folders: f.resync_requested,
        run_housekeeping: housekeeping_due(f.last_housekeeping, f.now),
        mark_fetched_existing: !f.fetched_existing,
        fetch_existing: !f.fetched_existing,
    }
}

/// A failed resync re-arms the request so the next pass tries again.
pub fn resync_flag_after(requested: bool, resync_ok: bool) -> (r: bool)
    ensures
        r == (requested && !resync_ok),
{
    requested && !resync_ok
}

/// What one fake-idle tick observed.
#[derive(Debug, Clone, Copy, PartialEq, Eq, Structural)]
pub struct FakeIdleTick {
    /// The interrupt slot fired instead of the timer.
    pub interrupted: bool,
    /// Whether connecting with the proper login succeeded.
    pub connect_ok: bool,
    /// Whether the connection now advertises the idle capability.
    pub can_idle: bool,
    /// What fetching the watched folder returned: nothing when there is
    /// no folder to poll, otherwise whether new messages came and whether
    /// the fetch succeeded at all.
    pub fetched: Option<Option<bool>>,
}

/// What the polling loop does after one tick.
#[derive(Debug, Clone, Copy, PartialEq, Eq, Structural)]
pub enum FakeIdleStep {
    /// Keep polling.
    Continue,
    /// Reset the connection, then keep polling.
    ContinueReconnect,
    /// Real idle became available: leave so the outer pass re-enters it.
    BreakIdleAvailable,
    /// New messages were fetched: leave at once, the next fetch will find
    /// nothing and proceed to idle.
    BreakNewMessages,
    /// An interrupt arrived.
    BreakInterrupted,
}

/// The decision table of one polling tick: an interrupt ends the wait; a
/// failed connection is retried next tick; a connection that can idle
/// ends the polling; fetched messages end it too; a failed fetch resets
/// the connection and polling goes on.
pub open spec fn spec_fake_idle_step(t: FakeIdleTick) -> FakeIdleStep {
    if t.interrupted {
        FakeIdleStep::BreakInterrupted
    } else if !t.connect_ok {
        FakeIdleStep::Continue
    } else if t.can_idle {
        FakeIdleStep::BreakIdleAvailable
    } else {
        match t.fetched {
            Option::None => FakeIdleStep::Continue,
            Option::Some(Option::None) => FakeIdleStep::ContinueReconnect,
            Option::Some(Option::Some(new_msgs)) => if new_msgs {
                FakeIdleStep::BreakNewMessages
            } else {
                FakeIdleStep::Continue
            },
        }
    }
}

/// Decides one polling tick, as `spec_fake_idle_step` describes.
pub fn fake_idle_step(t: &FakeIdleTick) -> (r: FakeIdleStep)
    ensures
        r == spec_fake_idle_step(*t),
{
    if t.interrupted {
        FakeIdleStep::BreakInterrupted
    } else if !t.connect_ok {
        FakeIdleStep::Continue
    } else if t.can_idle {
        FakeIdleStep::BreakIdleAvailable
    } else {
        match t.fetched {
            Option::None => FakeIdleStep::Continue,
            Option::Some(Option::None) => FakeIdleStep::ContinueReconnect,
            Option::Some(Option::Some(new_msgs)) => {
                if new_msgs {
                    FakeIdleStep::BreakNewMessages
                } else {
                    FakeIdleStep::Continue
                }
            },
        }
    }
}

/// How entering real idle starts.
#[derive(Debug, Clone, Copy, PartialEq, Eq, Structural)]
pub enum IdleEntry {
    /// The session lacks the idle capability: an error.
    AbilityMissing,
    /// An interrupt arrived before the wait was armed: skip the wait once
    /// and clear the skip flag.
    SkipWait,
    /// Arm the wait, racing the interrupt slot.
    Wait,
}

/// Entering idle: refused without the capability, skipped once when an
/// interrupt arrived early, armed otherwise.
pub fn idle_entry(can_idle: bool, skip_next_idle_wait: bool) -> (r: IdleEntry)
    ensures
        r == (if !can_idle {
            IdleEntry::AbilityMissing
        } else if skip_next_idle_wait {
            IdleEntry::SkipWait
        } else {
            IdleEntry::Wait
        }),
{
    if !can_idle {
        IdleEntry::AbilityMissing
    } else if skip_next_idle_wait {
        IdleEntry::SkipWait
    } else {
        IdleEntry::Wait
    }
}

/// Leaving real idle: a termination that times out or fails breaks the
/// connection so a fresh one is opened; only a clean termination keeps
/// the session.
pub fn idle_finish(done_timed_out: bool, done_ok: bool) -> (r: (bool, bool))
    ensures
        r.0 == (done_timed_out || !done_ok),
        r.1 == (!done_timed_out && done_ok),
{
    (done_timed_out || !done_ok, !done_timed_out && done_ok)
}

/// One watched folder's worker: its meaning and its handles.
pub struct SchedBox {
    pub meaning: FolderMeaning,
    pub conn_state: ConnectionState,
}

/// The job and connection scheduler: the Inbox worker, the optional
/// further folder workers, the SMTP worker, and the interrupt slots of the
/// timer loops.
pub struct Scheduler {
    pub inbox: SchedBox,
    /// Optional boxes: the move folder and the sent folder, when watched.
    pub oboxes: Vec<SchedBox>,
    pub smtp: ConnectionState,
    pub ephemeral_interrupt: InterruptSlot,
    pub location_interrupt: InterruptSlot,
    /// A pending wake of the recently-seen loop: a contact and the time it
    /// was seen.
    pub recently_seen_interrupt: Option<(u32, i64)>,
}

impl Scheduler {
    /// The optional boxes are at most the move folder and the sent
    /// folder.
    pub open spec fn wf(&self) -> bool {
        self.oboxes@.len() <= 2
    }

    /// How many workers must signal that they started: the Inbox worker,
    /// one per watched optional folder, and the SMTP worker.
    pub open spec fn spec_worker_count(watch_mvbox: bool, watch_sentbox: bool) -> int {
        2 + (if watch_mvbox {
            1int
        } else {
            0int
        }) + (if watch_sentbox {
            1int
        } else {
            0int
        })
    }

    /// Builds the scheduler once every worker has signaled `started`:
    /// start fails, and no scheduler exists, unless all of them did.
    pub fn start(watch_mvbox: bool, watch_sentbox: bool, started: &Vec<bool>) -> (r: Result<
        Scheduler,
        (),
    >)
        ensures
            r is Ok <==> (started@.len() == Self::spec_worker_count(watch_mvbox, watch_sentbox)
                && forall|i: int| 0 <= i < started@.len() ==> started@[i]),
            r matches Ok(sc) ==> {
                &&& sc.wf()
                &&& sc.inbox.meaning == FolderMeaning::Inbox
                &&& sc.oboxes@.len() == Self::spec_worker_count(watch_mvbox, watch_sentbox) - 2
                &&& (watch_mvbox ==> sc.oboxes@[0].meaning == FolderMeaning::Mvbox)
                &&& (watch_sentbox ==> sc.oboxes@[sc.oboxes@.len() - 1].meaning
                    == FolderMeaning::Sent)
                &&& sc.inbox.conn_state.interrupt.pending is None
                &&& sc.smtp.interrupt.pending is None
                &&& sc.ephemeral_interrupt.pending is None
                &&& sc.location_interrupt.pending is None
                &&& sc.recently_seen_interrupt is None
            },
    {
        let mut expected: usize = 2;
        if watch_mvbox {
            expected = expected + 1;
        }
        if watch_sentbox {
            expected = expected + 1;
        }
        if started.len() != expected {
            return Result::Err(());
        }
        let mut i: usize = 0;
        while i < started.len()
            invariant
                0 <= i <= started@.len(),
                forall|j: int| 0 <= j < i ==> started@[j],
            decreases started@.len() - i,
        {
            if !started[i] {
                return Result::Err(());
            }
            i = i + 1;
        }
        let mut oboxes: Vec<SchedBox> = Vec::new();
        if watch_mvbox {
            oboxes.push(SchedBox { meaning: FolderMeaning::Mvbox, conn_state: ConnectionState::new() });
        }
        if watch_sentbox {
            oboxes.push(SchedBox { meaning: FolderMeaning::Sent, conn_state: ConnectionState::new() });
        }
        Result::Ok(
            Scheduler {
                inbox: SchedBox { meaning: FolderMeaning::Inbox, conn_state: ConnectionState::new() },
                oboxes,
                smtp: ConnectionState::new(),
                ephemeral_interrupt: InterruptSlot::new(),
                location_interrupt: InterruptSlot::new(),
                recently_seen_interrupt: Option::None,
            },
        )
    }

    /// Delivers one interrupt to every folder worker and the SMTP worker.
    fn broadcast(&mut self, probe_network: bool)
        ensures
            final(self).inbox.conn_state.interrupt.pending == spec_interrupt(
                old(self).inbox.conn_state.interrupt.pending,
                InterruptInfo { probe_network },
            ),
            final(self).oboxes@.len() == old(self).oboxes@.len(),
            forall|i: int|
                0 <= i < old(self).oboxes@.len() ==> (#[trigger] final(self).oboxes@[i]).meaning
                    == old(self).oboxes@[i].meaning && final(self).oboxes@[i].conn_state.interrupt.pending
                    == spec_interrupt(
                    old(self).oboxes@[i].conn_state.interrupt.pending,
                    InterruptInfo { probe_network },
                ),
            final(self).smtp.interrupt.pending == spec_interrupt(
                old(self).smtp.interrupt.pending,
                InterruptInfo { probe_network },
            ),
            final(self).ephemeral_interrupt == old(self).ephemeral_interrupt,
            final(self).location_interrupt == old(self).location_interrupt,
            final(self).recently_seen_interrupt == old(self).recently_seen_interrupt,
    {
        let info = InterruptInfo::new(probe_network);
        self.inbox.conn_state.interrupt(info);
        let mut fresh: Vec<SchedBox> = Vec::new();
        let n = self.oboxes.len();
        let mut i: usize = 0;
        while i < n
            invariant
                0 <= i <= n,
                n == old(self).oboxes@.len(),
                self.oboxes@ == old(self).oboxes@,
                info.probe_network == probe_network,
                fresh@.len() == i,
                forall|j: int|
                    0 <= j < i ==> (#[trigger] fresh@[j]).meaning == old(self).oboxes@[j].meaning
                        && fresh@[j].conn_state.interrupt.pending == spec_interrupt(
                        old(self).oboxes@[j].conn_state.interrupt.pending,
                        info,
                    ) && fresh@[j].conn_state.stop_requested == old(
                        self,
                    ).oboxes@[j].conn_state.stop_requested && fresh@[j].conn_state.worker_running
                        == old(self).oboxes@[j].conn_state.worker_running,
            decreases n - i,
        {
            let b = &self.oboxes[i];
            let mut cs2 = ConnectionState {
                stop_requested: b.conn_state.stop_requested,
                worker_running: b.conn_state.worker_running,
                interrupt: InterruptSlot { pending: b.conn_state.interrupt.pending },
                connectivity: match b.conn_state.connectivity {
                    Connectivity::NotConfigured => Connectivity::NotConfigured,
                    Connectivity::Connecting => Connectivity::Connecting,
                    Connectivity::Working => Connectivity::Working,
                    Connectivity::Connected => Connectivity::Connected,
                    Connectivity::ErrorWithMessage(ref m) => Connectivity::ErrorWithMessage(
                        m.clone(),
                    ),
                },
            };
            cs2.interrupt(info);
            fresh.push(SchedBox { meaning: b.meaning, conn_state: cs2 });
            i = i + 1;
        }
        self.oboxes = fresh;
        self.smtp.interrupt(info);
    }

    /// Announces that the network likely came back: every worker is woken
    /// with a probing interrupt.
    pub fn maybe_network(&mut self)
        ensures
            final(self).inbox.conn_state.interrupt.pending == spec_interrupt(
                old(self).inbox.conn_state.interrupt.pending,
                InterruptInfo { probe_network: true },
            ),
            forall|i: int|
                0 <= i < old(self).oboxes@.len() ==> (
                #[trigger] final(self).oboxes@[i]).conn_state.interrupt.pending == spec_interrupt(
                    old(self).oboxes@[i].conn_state.interrupt.pending,
                    InterruptInfo { probe_network: true },
                ),
            final(self).smtp.interrupt.pending == spec_interrupt(
                old(self).smtp.interrupt.pending,
                InterruptInfo { probe_network: true },
            ),
    {
        self.broadcast(true);
    }

    /// Announces that the network was likely lost: every worker is woken
    /// with a non-probing interrupt.
    pub fn maybe_network_lost(&mut self)
        ensures
            final(self).inbox.conn_state.interrupt.pending == spec_interrupt(
                old(self).inbox.conn_state.interrupt.pending,
                InterruptInfo { probe_network: false },
            ),
            forall|i: int|
                0 <= i < old(self).oboxes@.len() ==> (
                #[trigger] final(self).oboxes@[i]).conn_state.interrupt.pending == spec_interrupt(
                    old(self).oboxes@[i].conn_state.interrupt.pending,
                    InterruptInfo { probe_network: false },
                ),
            final(self).smtp.interrupt.pending == spec_interrupt(
                old(self).smtp.interrupt.pending,
                InterruptInfo { probe_network: false },
            ),
    {
        self.broadcast(false);
    }

    /// Wakes the Inbox worker.
    pub fn interrupt_inbox(&mut self, info: InterruptInfo)
        ensures
            final(self).inbox.conn_state.interrupt.pending == spec_interrupt(
                old(self).inbox.conn_state.interrupt.pending,
                info,
            ),
            final(self).oboxes@ == old(self).oboxes@,
            final(self).smtp == old(self).smtp,
    {
        self.inbox.conn_state.interrupt(info);
    }

    /// Wakes the SMTP worker.
    pub fn interrupt_smtp(&mut self, info: InterruptInfo)
        ensures
            final(self).smtp.interrupt.pending == spec_interrupt(
                old(self).smtp.interrupt.pending,
                info,
            ),
            final(self).inbox.conn_state == old(self).inbox.conn_state,
            final(self).oboxes@ == old(self).oboxes@,
    {
        self.smtp.interrupt(info);
    }

    /// Wakes the ephemeral-expiry loop.
    pub fn interrupt_ephemeral_task(&mut self)
        ensures
            final(self).ephemeral_interrupt.pending == spec_interrupt(
                old(self).ephemeral_interrupt.pending,
                InterruptInfo { probe_network: false },
            ),
    {
        self.ephemeral_interrupt.interrupt(InterruptInfo::new(false));
    }

    /// Wakes the location-streaming loop.
    pub fn interrupt_location(&mut self)
        ensures
            final(self).location_interrupt.pending == spec_interrupt(
                old(self).location_interrupt.pending,
                InterruptInfo { probe_network: false },
            ),
    {
        self.location_interrupt.interrupt(InterruptInfo::new(false));
    }

    /// Wakes the recently-seen loop for a contact; a pending wake is kept
    /// and the new one dropped, as on every interrupt slot.
    pub fn interrupt_recently_seen(&mut self, contact_id: u32, timestamp: i64)
        ensures
            final(self).recently_seen_interrupt == (match old(self).recently_seen_interrupt {
                Option::None => Option::Some((contact_id, timestamp)),
                Option::Some(p) => Option::Some(p),
            }),
    {
        if self.recently_seen_interrupt.is_none() {
            self.recently_seen_interrupt = Option::Some((contact_id, timestamp));
        }
    }
}

/// One step of the ordered shutdown.
#[derive(Debug, Clone, Copy, PartialEq, Eq, Structural)]
pub enum ShutdownAction {
    /// Send the stop signal to a folder or SMTP worker.
    SignalStop,
    /// Await that worker's task, bounded by the given timeout.
    JoinWithTimeout { timeout_seconds: u64 },
    /// Abort a timer loop outright; it holds nothing that needs a
    /// graceful end.
    Abort,
}

/// The shutdown plan for a scheduler with `n` optional boxes: a stop
/// signal to each of the `n + 2` workers, then a bounded join of each,
/// then the abort of the three timer loops.
pub open spec fn spec_stop_plan(n: int) -> Seq<ShutdownAction> {
    Seq::new(
        (2 * (n + 2) + 3) as nat,
        |i: int|
            if i < n + 2 {
                ShutdownAction::SignalStop
            } else if i < 2 * (n + 2) {
                ShutdownAction::JoinWithTimeout { timeout_seconds: 30 }
            } else {
                ShutdownAction::Abort
            },
    )
}

impl Scheduler {
    /// Halts the scheduler: the ordered shutdown plan, consuming it.  It
    /// never fails; a worker that cannot end within its bounded join is
    /// forcefully terminated by the join's caller.
    pub fn stop(self) -> (r: Vec<ShutdownAction>)
        requires
            self.wf(),
        ensures
            r@ == spec_stop_plan(self.oboxes@.len() as int),
    {
        let n = self.oboxes.len();
        let workers = n + 2;
        let mut r: Vec<ShutdownAction> = Vec::new();
        let mut i: usize = 0;
        while i < workers
            invariant
                0 <= i <= workers,
                workers == n + 2,
                n == self.oboxes@.len(),
                r@.len() == i,
                forall|j: int| 0 <= j < i ==> r@[j] == ShutdownAction::SignalStop,
            decreases workers - i,
        {
            r.push(ShutdownAction::SignalStop);
            i = i + 1;
        }
        let mut k: usize = 0;
        while k < workers
            invariant
                0 <= k <= workers,
                workers == n + 2,
                n == self.oboxes@.len(),
                r@.len() == workers + k,
                forall|j: int| 0 <= j < workers ==> r@[j] == ShutdownAction::SignalStop,
                forall|j: int|
                    workers <= j < workers + k ==> r@[j] == (ShutdownAction::JoinWithTimeout {
                        timeout_seconds: 30,
                    }),
            decreases workers - k,
        {
            r.push(ShutdownAction::JoinWithTimeout { timeout_seconds: 30 });
            k = k + 1;
        }
        r.push(ShutdownAction::Abort);
        r.push(ShutdownAction::Abort);
        r.push(ShutdownAction::Abort);
        proof {
            assert(r@ =~= spec_stop_plan(self.oboxes@.len() as int));
        }
        r
    }
}

/// Bounded stop: every join of the shutdown plan waits at most thirty
/// seconds, whatever the worker is blocked in; after that the task is
/// aborted, so `stop` returns within the bound for every worker.
pub proof fn lemma_stop_bounded(n: int)
    requires
        n >= 0,
    ensures
        forall|i: int|
            0 <= i < spec_stop_plan(n).len() && (#[trigger] spec_stop_plan(n)[i]) is JoinWithTimeout
                ==> spec_stop_plan(n)[i]->JoinWithTimeout_timeout_seconds == 30,
{
}

} // verus!
