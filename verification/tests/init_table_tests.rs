use userland::cogman::init::{
    name_len, CtrlRequest, RestartPolicy, ServiceEntry, ServiceTable, SvcState, MAX_SVCS,
    PROG_MONITOR, PROG_SESSION, PROG_SHELL, RESTART_DELAY_ITERS,
};

fn entry(t: &ServiceTable, i: usize) -> ServiceEntry {
    t.slot(i).unwrap()
}

#[test]
fn default_table_holds_three_services() {
    let t = ServiceTable::new();
    let s = entry(&t, 0);
    assert_eq!(s.program_id, PROG_SESSION);
    assert_eq!(&s.name[..7], b"session");
    assert_eq!(s.policy, RestartPolicy::Always);
    assert!(s.auto_start);
    assert_eq!(entry(&t, 1).program_id, PROG_SHELL);
    assert!(!entry(&t, 1).auto_start);
    assert_eq!(entry(&t, 2).program_id, PROG_MONITOR);
    for i in 3..MAX_SVCS {
        assert!(t.slot(i).is_none());
    }
}

#[test]
fn name_len_stops_at_zero() {
    assert_eq!(name_len(b"shell\0\0\0\0\0\0\0\0\0\0\0"), 5);
    assert_eq!(name_len(b"abcdefghijklmnop"), 16);
    assert_eq!(name_len(&[0u8; 16]), 0);
}

#[test]
fn new_entry_is_stopped() {
    let e = ServiceEntry::new(7, *b"x\0\0\0\0\0\0\0\0\0\0\0\0\0\0\0", RestartPolicy::Never, false);
    assert_eq!(e.pid, 0);
    assert_eq!(e.state, SvcState::Stopped);
    assert_eq!(e.restart_count, 0);
}

#[test]
fn boot_starts_only_auto_start_services() {
    let mut t = ServiceTable::new();
    assert_eq!(t.next_spawn(0), Some(PROG_SESSION));
    assert_eq!(t.next_spawn(1), None);
    assert_eq!(t.next_spawn(2), None);
    assert_eq!(entry(&t, 0).restart_count, 1);
    let log = t.record_spawn(0, 5);
    assert_eq!(log, b"[COGMAN] spawned svc=session pid=5\r\n".to_vec());
    assert_eq!(entry(&t, 0).state, SvcState::Running);
    assert_eq!(entry(&t, 0).pid, 5);
    assert_eq!(t.next_spawn(0), None);
}

#[test]
fn failed_spawn_is_logged() {
    let mut t = ServiceTable::new();
    t.next_spawn(0);
    let log = t.record_spawn(0, -1);
    assert_eq!(log, b"[COGMAN] spawn failed svc=session\r\n".to_vec());
    assert_eq!(entry(&t, 0).state, SvcState::Failed);
}

#[test]
fn reaping_schedules_restart_by_policy() {
    let mut t = ServiceTable::new();
    t.next_spawn(0);
    t.record_spawn(0, 5);
    let log = t.record_reap(5, 0);
    assert_eq!(
        log,
        b"[COGMAN] reaped pid=5 status=0\r\n[COGMAN] scheduling restart svc=session\r\n".to_vec()
    );
    let e = entry(&t, 0);
    assert_eq!(e.state, SvcState::Restarting);
    assert_eq!(e.restart_at, RESTART_DELAY_ITERS);
    assert_eq!(e.pid, 0);
    for _ in 0..RESTART_DELAY_ITERS {
        assert_eq!(t.next_spawn(0), None);
        t.tick_restarts();
    }
    assert_eq!(t.next_spawn(0), Some(PROG_SESSION));
    assert_eq!(entry(&t, 0).restart_count, 2);
}

#[test]
fn on_failure_policy_stops_after_clean_exit() {
    let mut t = ServiceTable::new();
    t.handle_request(CtrlRequest::Start(PROG_SHELL));
    assert_eq!(t.next_spawn(1), Some(PROG_SHELL));
    t.record_spawn(1, 9);
    let log = t.record_reap(9, 0);
    assert_eq!(log, b"[COGMAN] reaped pid=9 status=0\r\n".to_vec());
    assert_eq!(entry(&t, 1).state, SvcState::Stopped);
    assert_eq!(entry(&t, 1).last_exit, 0);
}

#[test]
fn unknown_pid_is_only_logged() {
    let mut t = ServiceTable::new();
    let log = t.record_reap(77, -1);
    assert_eq!(log, b"[COGMAN] reaped pid=77 status=4294967295\r\n".to_vec());
}

#[test]
fn list_reports_each_service() {
    let mut t = ServiceTable::new();
    let reply = t.handle_request(CtrlRequest::List);
    assert_eq!(reply.responses.len(), 3);
    assert_eq!(reply.responses[2].program_id, PROG_MONITOR);
    assert!(reply.ack.is_none());
    assert!(!reply.spawn_shutdown);
}

#[test]
fn stop_keeps_the_service_down() {
    let mut t = ServiceTable::new();
    t.next_spawn(0);
    t.record_spawn(0, 5);
    let reply = t.handle_request(CtrlRequest::Stop(PROG_SESSION));
    assert!(reply.spawn_shutdown);
    assert_eq!(reply.log, b"[COGMAN] stop requested for prog=8\r\n".to_vec());
    assert_eq!(reply.responses.len(), 1);
    assert_eq!(reply.responses[0].state, 0);
    assert_eq!(reply.responses[0].pid, 5);
    t.record_reap(5, 0);
    assert_eq!(entry(&t, 0).state, SvcState::Stopped);
}

#[test]
fn status_of_unknown_program_is_zero() {
    let mut t = ServiceTable::new();
    let reply = t.handle_request(CtrlRequest::Status(99));
    assert_eq!(reply.responses[0].program_id, 99);
    assert_eq!(reply.responses[0].state, 0);
    assert_eq!(reply.responses[0].name, [0u8; 16]);
    let reply = t.handle_request(CtrlRequest::Stop(99));
    assert!(!reply.spawn_shutdown);
    assert!(reply.log.is_empty());
}

#[test]
fn restart_and_ping() {
    let mut t = ServiceTable::new();
    let reply = t.handle_request(CtrlRequest::Restart(PROG_MONITOR));
    assert_eq!(reply.log, b"[COGMAN] restart requested for prog=5\r\n".to_vec());
    assert_eq!(reply.responses[0].state, 3);
    assert_eq!(t.next_spawn(2), Some(PROG_MONITOR));
    let reply = t.handle_request(CtrlRequest::Ping(41));
    assert_eq!(reply.ack, Some(41));
    assert!(reply.responses.is_empty());
}
