//! Tests of the scheduler's decision logic: interrupt slots, the SMTP
//! backoff, the folder-pass decision table, polling, and the supervisor.

use mailsync::sched::fake_idle_step;
use mailsync::sched::fetch_idle_decision;
use mailsync::sched::folder_config_key;
use mailsync::sched::housekeeping_due;
use mailsync::sched::idle_entry;
use mailsync::sched::idle_finish;
use mailsync::sched::resync_flag_after;
use mailsync::sched::smtp_iteration;
use mailsync::sched::ConnectionState;
use mailsync::sched::FakeIdleStep;
use mailsync::sched::FakeIdleTick;
use mailsync::sched::FetchIdleNext;
use mailsync::sched::FetchOutcomes;
use mailsync::sched::FolderConfigKey;
use mailsync::sched::FolderMeaning;
use mailsync::sched::IdleEntry;
use mailsync::sched::InboxFlags;
use mailsync::sched::inbox_pass_plan;
use mailsync::sched::InterruptInfo;
use mailsync::sched::InterruptSlot;
use mailsync::sched::Scheduler;
use mailsync::sched::ShutdownAction;
use mailsync::sched::SmtpSchedState;
use mailsync::sched::SmtpStep;
use mailsync::sched::WaitOutcome;

#[test]
fn interrupt_slot_drops_when_full() {
    let mut slot = InterruptSlot::new();
    slot.interrupt(InterruptInfo::new(true));
    assert_eq!(slot.pending, Some(InterruptInfo { probe_network: true }));
    // A second signal is dropped, not queued.
    slot.interrupt(InterruptInfo::new(false));
    assert_eq!(slot.pending, Some(InterruptInfo { probe_network: true }));
}

#[test]
fn interrupt_wakes_the_next_wait() {
    let mut slot = InterruptSlot::new();
    slot.interrupt(InterruptInfo::new(false));
    // Whether or not the timer fired, the pending interrupt wins.
    let w = slot.wait_attempt(true);
    assert_eq!(w, WaitOutcome::Interrupted(InterruptInfo { probe_network: false }));
    assert_eq!(slot.pending, None);
    assert_eq!(slot.wait_attempt(true), WaitOutcome::TimerTick);
    assert_eq!(slot.wait_attempt(false), WaitOutcome::KeepWaiting);
}

#[test]
fn smtp_backoff_triples_from_thirty() {
    let mut st = SmtpSchedState { retry_timeout: None };
    let s1 = smtp_iteration(&mut st, true, 0, true);
    assert_eq!(st.retry_timeout, Some(30));
    assert_eq!(s1, SmtpStep::Idle { wait_seconds: Some(30), connected: false });
    smtp_iteration(&mut st, true, 0, true);
    assert_eq!(st.retry_timeout, Some(90));
    smtp_iteration(&mut st, true, 0, true);
    assert_eq!(st.retry_timeout, Some(270));
    // A successful send without rate limiting clears the timeout.
    let s4 = smtp_iteration(&mut st, false, 0, false);
    assert_eq!(st.retry_timeout, None);
    assert_eq!(s4, SmtpStep::Idle { wait_seconds: None, connected: true });
}

#[test]
fn smtp_backoff_saturates() {
    let mut st = SmtpSchedState { retry_timeout: Some(u64::MAX / 3 + 1) };
    smtp_iteration(&mut st, true, 0, true);
    assert_eq!(st.retry_timeout, Some(u64::MAX));
    smtp_iteration(&mut st, true, 0, true);
    assert_eq!(st.retry_timeout, Some(u64::MAX));
}

#[test]
fn smtp_ratelimit_sleeps_without_touching_retry_state() {
    let mut st = SmtpSchedState { retry_timeout: Some(90) };
    let s = smtp_iteration(&mut st, false, 17, false);
    assert_eq!(s, SmtpStep::Ratelimited { wait_seconds: 17 });
    assert_eq!(st.retry_timeout, Some(90));
}

#[test]
fn fetch_idle_decision_table() {
    let happy = FetchOutcomes {
        prepare_ok: true,
        fetch_ok: true,
        scan: mailsync::sched::ScanOutcome::MovedNothing,
        refetch_ok: true,
        session_available: true,
        can_idle: true,
    };
    // No folder configured: poll idly and report it.
    let p = fetch_idle_decision(false, true, &happy);
    assert!(p.set_not_configured);
    assert_eq!(p.next, FetchIdleNext::FakeIdleUnconfigured);
    // Preparation failed: reconnect and poll the folder.
    let p = fetch_idle_decision(true, true, &FetchOutcomes { prepare_ok: false, ..happy });
    assert!(p.reconnect);
    assert_eq!(p.next, FetchIdleNext::FakeIdleWatched);
    // Fetch failed: reconnect and give the pass up.
    let p = fetch_idle_decision(true, false, &FetchOutcomes { fetch_ok: false, ..happy });
    assert!(p.reconnect);
    assert_eq!(p.next, FetchIdleNext::ReturnNonProbing);
    // Happy Inbox pass with the idle capability: all side steps, real idle.
    let p = fetch_idle_decision(true, true, &happy);
    assert!(!p.reconnect);
    assert!(p.flush_seen_flags && p.scan_folders && p.sync_seen_flags && p.set_connected);
    assert!(!p.refetch);
    assert_eq!(p.next, FetchIdleNext::RealIdle);
    // A non-Inbox pass skips the Inbox-only steps.
    let p = fetch_idle_decision(true, false, &FetchOutcomes { can_idle: false, ..happy });
    assert!(!p.flush_seen_flags && !p.scan_folders);
    assert_eq!(p.next, FetchIdleNext::FakeIdleWatched);
    // Scanning moved messages: fetch the watched folder again.
    let moved = FetchOutcomes { scan: mailsync::sched::ScanOutcome::FoundMovedMessages, ..happy };
    let p = fetch_idle_decision(true, true, &moved);
    assert!(p.refetch);
    assert_eq!(p.next, FetchIdleNext::RealIdle);
    // ... and a failed re-fetch reconnects and gives the pass up.
    let p = fetch_idle_decision(true, true, &FetchOutcomes { refetch_ok: false, ..moved });
    assert!(p.reconnect);
    assert_eq!(p.next, FetchIdleNext::ReturnNonProbing);
    // A failed scan alone does not reconnect.
    let p = fetch_idle_decision(true, true, &FetchOutcomes {
        scan: mailsync::sched::ScanOutcome::Failed,
        can_idle: false,
        ..happy
    });
    assert!(!p.reconnect);
    assert_eq!(p.next, FetchIdleNext::FakeIdleWatched);
}

#[test]
fn inbox_pass_flags() {
    let plan = inbox_pass_plan(&InboxFlags {
        quota_requested: true,
        resync_requested: false,
        fetched_existing: false,
        last_housekeeping: 0,
        now: 86400,
    });
    assert!(plan.update_quota);
    assert!(!plan.resync_folders);
    assert!(plan.run_housekeeping);
    assert!(plan.mark_fetched_existing && plan.fetch_existing);

    assert!(housekeeping_due(0, 86400));
    assert!(!housekeeping_due(0, 86399));
    // The deadline saturates instead of wrapping.
    assert!(!housekeeping_due(i64::MAX - 100, 5));
    assert!(resync_flag_after(true, false));
    assert!(!resync_flag_after(true, true));
    assert!(!resync_flag_after(false, false));
}

#[test]
fn fake_idle_tick_table() {
    let tick = FakeIdleTick {
        interrupted: false,
        connect_ok: true,
        can_idle: false,
        fetched: Some(Some(false)),
    };
    assert_eq!(fake_idle_step(&tick), FakeIdleStep::Continue);
    assert_eq!(
        fake_idle_step(&FakeIdleTick { interrupted: true, ..tick }),
        FakeIdleStep::BreakInterrupted
    );
    assert_eq!(
        fake_idle_step(&FakeIdleTick { connect_ok: false, ..tick }),
        FakeIdleStep::Continue
    );
    assert_eq!(
        fake_idle_step(&FakeIdleTick { can_idle: true, ..tick }),
        FakeIdleStep::BreakIdleAvailable
    );
    assert_eq!(
        fake_idle_step(&FakeIdleTick { fetched: Some(Some(true)), ..tick }),
        FakeIdleStep::BreakNewMessages
    );
    assert_eq!(
        fake_idle_step(&FakeIdleTick { fetched: Some(None), ..tick }),
        FakeIdleStep::ContinueReconnect
    );
    assert_eq!(fake_idle_step(&FakeIdleTick { fetched: None, ..tick }), FakeIdleStep::Continue);
}

#[test]
fn idle_entry_and_finish() {
    assert_eq!(idle_entry(false, false), IdleEntry::AbilityMissing);
    assert_eq!(idle_entry(true, true), IdleEntry::SkipWait);
    assert_eq!(idle_entry(true, false), IdleEntry::Wait);
    // A clean termination keeps the session; anything else reconnects.
    assert_eq!(idle_finish(false, true), (false, true));
    assert_eq!(idle_finish(true, true), (true, false));
    assert_eq!(idle_finish(false, false), (true, false));
}

#[test]
fn folder_config_keys() {
    assert_eq!(
        folder_config_key(FolderMeaning::Inbox),
        Some(FolderConfigKey::ConfiguredInboxFolder)
    );
    assert_eq!(
        folder_config_key(FolderMeaning::Mvbox),
        Some(FolderConfigKey::ConfiguredMvboxFolder)
    );
    assert_eq!(
        folder_config_key(FolderMeaning::Sent),
        Some(FolderConfigKey::ConfiguredSentboxFolder)
    );
    assert_eq!(folder_config_key(FolderMeaning::Unknown), None);
}

#[test]
fn scheduler_starts_only_when_every_worker_did() {
    let sc = Scheduler::start(true, false, &vec![true, true, true]).unwrap();
    assert_eq!(sc.oboxes.len(), 1);
    assert_eq!(sc.oboxes[0].meaning, FolderMeaning::Mvbox);
    assert!(Scheduler::start(true, false, &vec![true, false, true]).is_err());
    assert!(Scheduler::start(true, false, &vec![true, true]).is_err());
    assert!(Scheduler::start(true, true, &vec![true, true, true, true]).is_ok());
    assert!(Scheduler::start(false, false, &vec![true, true]).is_ok());
}

#[test]
fn scheduler_broadcasts_interrupts() {
    let mut sc = Scheduler::start(true, true, &vec![true, true, true, true]).unwrap();
    sc.maybe_network();
    assert_eq!(
        sc.inbox.conn_state.interrupt.pending,
        Some(InterruptInfo { probe_network: true })
    );
    for b in &sc.oboxes {
        assert_eq!(b.conn_state.interrupt.pending, Some(InterruptInfo { probe_network: true }));
    }
    assert_eq!(sc.smtp.interrupt.pending, Some(InterruptInfo { probe_network: true }));
    // The pending probe is kept when the network flips back.
    sc.maybe_network_lost();
    assert_eq!(
        sc.inbox.conn_state.interrupt.pending,
        Some(InterruptInfo { probe_network: true })
    );
    sc.interrupt_ephemeral_task();
    assert_eq!(sc.ephemeral_interrupt.pending, Some(InterruptInfo { probe_network: false }));
    sc.interrupt_location();
    assert_eq!(sc.location_interrupt.pending, Some(InterruptInfo { probe_network: false }));
    sc.interrupt_recently_seen(10, 1700000000);
    assert_eq!(sc.recently_seen_interrupt, Some((10, 1700000000)));
}

#[test]
fn stop_plan_is_ordered_and_bounded() {
    let sc = Scheduler::start(true, false, &vec![true, true, true]).unwrap();
    let plan = sc.stop();
    // Three workers: stop each, join each within thirty seconds, abort the
    // three timer loops.
    assert_eq!(plan.len(), 9);
    for i in 0..3 {
        assert_eq!(plan[i], ShutdownAction::SignalStop);
    }
    for i in 3..6 {
        assert_eq!(plan[i], ShutdownAction::JoinWithTimeout { timeout_seconds: 30 });
    }
    for i in 6..9 {
        assert_eq!(plan[i], ShutdownAction::Abort);
    }
}

#[test]
fn connection_stop_fails_only_without_a_worker() {
    let mut cs = ConnectionState::new();
    assert!(cs.stop().is_ok());
    assert!(cs.stop_requested);
    cs.worker_running = false;
    cs.stop_requested = false;
    assert!(cs.stop().is_err());
    assert!(!cs.stop_requested);
}
