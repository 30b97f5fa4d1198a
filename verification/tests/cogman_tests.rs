//! Cogman: persona, supervisor, adviser and control messages.

use userland::cogman::advisor::local::{is_model_loaded, list_models, load, query, unload, InferParams, LocalModel};
use userland::cogman::advisor::cloud::{is_network_available, json_extract_text, json_string, read_api_key};
use userland::cogman::advisor::{
    announce_ready, ask, classify, contains_subsequence, detect_backend, redact, AdvisorBackend, PrivacyClass, Query,
    QueryContext, MAX_QUERY, MAX_RESPONSE,
};
use userland::cogman::control::{handle_ipc, COG_CTRL_ASK, COG_CTRL_LIST, COG_CTRL_STATUS, COG_CTRL_STOP};
use userland::cogman::persona::{
    greet, say_exited, say_ipc_unknown, say_restarting, say_spawn_failed, say_spawning, speak_u32,
};
use userland::cogman::supervisor::{
    backoff_ticks, default_supervisor, prog_name, ControlFlow, RestartPolicy, Service, Supervisor, SvcState,
};

#[test]
fn decimal_and_messages() {
    assert_eq!(speak_u32(0), b"0");
    assert_eq!(speak_u32(4294967295), b"4294967295");
    assert_eq!(say_spawning(b"wm", 12), b"[Cogman] Bringing up wm  (pid=12)\r\n");
    assert_eq!(say_spawn_failed(b"wm"), b"[Cogman] I'm afraid I couldn't start wm. I shall try again presently.\r\n");
    assert_eq!(say_exited(b"wm", -1), b"[Cogman] wm has stepped out (exit=4294967295)\r\n");
    assert_eq!(say_restarting(b"wm", 3), b"[Cogman] Restarting wm. This is restart number 3.\r\n");
    assert_eq!(say_ipc_unknown(0x4f), b"[Cogman] Received an unfamiliar IPC message (type=0x4f). Ignoring it.\r\n");
    assert!(greet().starts_with(b"\r\n  ____"));
}

#[test]
fn prog_names() {
    assert_eq!(prog_name(0), b"shell");
    assert_eq!(prog_name(9), b"wm");
    assert_eq!(prog_name(12), b"terminal");
    assert_eq!(prog_name(13), b"unknown");
}

#[test]
fn backoff_doubles_and_caps() {
    assert_eq!(backoff_ticks(0), 0);
    assert_eq!(backoff_ticks(1), 200);
    assert_eq!(backoff_ticks(2), 400);
    assert_eq!(backoff_ticks(3), 800);
    assert_eq!(backoff_ticks(4), 1600);
    assert_eq!(backoff_ticks(6), 6400);
    assert_eq!(backoff_ticks(7), 8000);
    assert_eq!(backoff_ticks(u16::MAX), 8000);
}

#[test]
fn register_is_capped_at_sixteen() {
    let mut sv = Supervisor::new();
    for i in 0..20 {
        sv.register(Service::new(i, b"x", RestartPolicy::Never, false, 0));
    }
    assert_eq!(sv.services().len(), 16);
    assert_eq!(sv.services()[15].program_id, 15);
}

#[test]
fn start_all_and_spawn_results() {
    let mut sv = default_supervisor(1, 2, 3);
    let plan = sv.start_all();
    assert_eq!(plan.spawn, vec![0]);
    assert!(plan.journal);
    let speech = sv.record_spawn(0, 17);
    assert_eq!(speech, b"[Cogman] Bringing up wm  (pid=17)\r\n");
    assert_eq!(sv.services()[0].state, SvcState::Running);
    assert_eq!(sv.services()[0].pid, 17);
    let plan = sv.start_all();
    assert!(plan.spawn.is_empty());
    assert!(plan.journal);
    let speech = sv.record_spawn(1, -1);
    assert_eq!(speech, say_spawn_failed(b"terminal"));
    assert_eq!(sv.services()[1].state, SvcState::Failed);
}

#[test]
fn reap_restarts_on_failure_with_backoff() {
    let mut sv = default_supervisor(1, 2, 3);
    sv.record_spawn(0, 17);
    let out = sv.reap_pass(17, 1);
    assert_eq!(out.flow, ControlFlow::Continue);
    assert!(out.journal);
    assert_eq!(out.spawn, None);
    let s = sv.services()[0];
    assert_eq!(s.state, SvcState::Restarting);
    assert_eq!(s.pid, 0);
    assert_eq!(s.last_exit, 1);
    assert_eq!(s.restart_delay, 0);
    assert_eq!(s.restart_count, 1);
    let mut expected = say_exited(b"wm", 1);
    expected.extend_from_slice(&say_restarting(b"wm", 1));
    assert_eq!(out.speech, expected);
    // A first restart is due at once.
    let plan = sv.restart_pass();
    assert_eq!(plan.due, vec![0]);
    assert!(plan.journal);
    // After it fails again, the countdown is 200 ticks.
    sv.record_spawn(0, 18);
    sv.reap_pass(18, 1);
    assert_eq!(sv.services()[0].restart_delay, 200);
    for _ in 0..200 {
        let plan = sv.restart_pass();
        assert!(plan.due.is_empty());
        assert!(!plan.journal);
    }
    assert_eq!(sv.restart_pass().due, vec![0]);
}

#[test]
fn reap_clean_exit_stops_and_chains_wm_after_fbtest() {
    let mut sv = Supervisor::new();
    sv.register(Service::new(11, b"fbtest", RestartPolicy::OnFailure, true, 0));
    sv.register(Service::new(9, b"wm", RestartPolicy::OnFailure, false, 0));
    sv.record_spawn(0, 5);
    let out = sv.reap_pass(5, 0);
    assert_eq!(sv.services()[0].state, SvcState::Stopped);
    assert_eq!(out.spawn, Some(1));
    let mut expected = say_exited(b"fbtest", 0);
    expected.extend_from_slice(b"[Cogman] fbtest has exited cleanly and I shan't restart it per policy.\r\n");
    assert_eq!(out.speech, expected);
}

#[test]
fn reap_halt_reboot_and_nothing() {
    let mut sv = default_supervisor(1, 2, 3);
    let out = sv.reap_pass(0, 0);
    assert_eq!(out.flow, ControlFlow::Continue);
    assert!(!out.journal);
    let out = sv.reap_pass(4, 42);
    assert_eq!(out.flow, ControlFlow::Halt);
    assert!(out.speech.starts_with(b"\r\n[Cogman] Halt requested."));
    let out = sv.reap_pass(4, 43);
    assert_eq!(out.flow, ControlFlow::Reboot);
    let out = sv.reap_pass(99, 0);
    assert_eq!(out.flow, ControlFlow::Continue);
    assert!(out.journal);
    assert!(out.speech.is_empty());
}

#[test]
fn journal_encoding() {
    let mut sv = Supervisor::new();
    sv.register(Service::new(9, b"wm", RestartPolicy::Always, true, 0x0102030405060708));
    sv.record_spawn(0, 0x1234);
    let rec = sv.journal_state();
    assert_eq!(rec.len(), 1 + 24);
    assert_eq!(rec[0], 1);
    assert_eq!(&rec[1..5], &[9, 0, 0, 0]);
    assert_eq!(&rec[5..9], &[0x34, 0x12, 0, 0]);
    assert_eq!(rec[9], 1); // running
    assert_eq!(rec[10], 2); // always
    assert_eq!(&rec[11..13], &[0, 0]);
    assert_eq!(&rec[13..17], &[0, 0, 0, 0]);
    assert_eq!(&rec[17..25], &[8, 7, 6, 5, 4, 3, 2, 1]);
    assert_eq!(Supervisor::new().journal_state(), vec![0]);
}

#[test]
fn classify_markers() {
    assert!(contains_subsequence(b"abc", b""));
    assert!(contains_subsequence(b"hello world", b"o w"));
    assert!(!contains_subsequence(b"ab", b"abc"));
    assert_eq!(classify(b"my password=hunter2"), PrivacyClass::Sensitive);
    assert_eq!(classify(b"cat /etc/shadow please"), PrivacyClass::Sensitive);
    assert_eq!(classify(b"mail me at a@b.c"), PrivacyClass::Redacted);
    assert_eq!(classify(b"ping 192.168.1.1"), PrivacyClass::Redacted);
    assert_eq!(classify(b"how do I write a loop"), PrivacyClass::Public);
}

#[test]
fn redact_copies_up_to_limit() {
    let mut out = [7u8; MAX_QUERY];
    assert_eq!(redact(b"abc", &mut out), 3);
    assert_eq!(&out[..4], b"abc\x07");
    let long = vec![1u8; 2000];
    assert_eq!(redact(&long, &mut out), MAX_QUERY);
}

#[test]
fn local_model_stubs() {
    let mut m = LocalModel::new();
    assert!(!is_model_loaded(&m));
    assert!(!load(&mut m, b"/var/cogman/models/active"));
    unload(&mut m);
    let mut out = [0u8; MAX_RESPONSE];
    let n = query(&m, b"hi", &mut out);
    assert!(out[..n].starts_with(b"[Cogman] No local model is loaded."));
    let mut l = [0u8; 512];
    assert_eq!(list_models(&mut l), 0);
    let p = InferParams::default();
    assert_eq!((p.max_tokens, p.temperature_x100, p.top_p_x100), (512, 70, 95));
    assert!(!is_network_available());
    let mut key = [0u8; 128];
    assert_eq!(read_api_key(&mut key), 0);
}

#[test]
fn adviser_dispatch_offline() {
    let m = LocalModel::new();
    assert_eq!(detect_backend(&m), AdvisorBackend::Offline);
    assert_eq!(
        announce_ready(&m),
        b"[Cogman] No network stack yet, I'm afraid. Adviser running in local-model mode only.\r\n".to_vec()
    );
    let mut out = [0u8; MAX_RESPONSE];
    let q = Query { text: b"token=abc", context: QueryContext::default() };
    let (n, side) = ask(&q, &mut out, &m);
    assert!(out[..n].starts_with(b"I'm afraid that query contains sensitive material."));
    assert!(side.is_empty());
    let q = Query { text: b"hello", context: QueryContext::default() };
    let (n, _) = ask(&q, &mut out, &m);
    assert!(out[..n].starts_with(b"I'm offline at the moment"));
}

#[test]
fn json_helpers() {
    let mut out = [0u8; 16];
    let n = json_string(b"a\"b\\c", &mut out, 2);
    assert_eq!(n, 9);
    assert_eq!(&out[2..11], b"\"a\\\"b\\\\c\"");
    let mut small = [0u8; 4];
    assert_eq!(json_string(b"abcdef", &mut small, 1), 3);
    assert_eq!(&small, b"\x00\"ab");
    assert_eq!(json_string(b"x", &mut small, 9), 0);
    let body = b"{\"text\": \"hello\", \"x\": 1}";
    assert_eq!(json_extract_text(body, b"\"text\""), Some((10, 15)));
    assert_eq!(json_extract_text(body, b"\"none\""), None);
}

#[test]
fn control_messages() {
    let mut sv = default_supervisor(1, 2, 3);
    sv.record_spawn(0, 17);
    let m = LocalModel::new();
    let payload = [0u8; 56];
    let list = handle_ipc(&sv, COG_CTRL_LIST, &payload, &m);
    assert_eq!(
        list,
        b"[Cogman] Service table:\r\n  [running   ] wm pid=17\r\n  [stopped   ] terminal\r\n  [stopped   ] monitor\r\n".to_vec()
    );
    assert_eq!(handle_ipc(&sv, COG_CTRL_STATUS, &payload, &m), b"[Cogman] Running. All services nominal.\r\n".to_vec());
    let mut stop = [0u8; 56];
    stop[0] = 0x0c;
    stop[1] = 0x01;
    assert_eq!(
        handle_ipc(&sv, COG_CTRL_STOP, &stop, &m),
        b"[Cogman] Stopping service with program_id=268 (not yet implemented - coming presently).\r\n".to_vec()
    );
    let mut ask_p = [0u8; 56];
    ask_p[..5].copy_from_slice(b"hello");
    let reply = handle_ipc(&sv, COG_CTRL_ASK, &ask_p, &m);
    assert!(reply.starts_with(b"[Cogman] I'm offline at the moment"));
    assert!(reply.ends_with(b"\r\n"));
    assert_eq!(handle_ipc(&sv, 0x99, &payload, &m), say_ipc_unknown(0x99));
}

#[test]
fn redact_scrubs_credential_values() {
    let mut out = [0u8; MAX_QUERY];
    let n = redact(b"use token=abc now", &mut out);
    assert_eq!(&out[..n], b"use token=[REDACTED]");
    let n = redact(b"my password=hunter2", &mut out);
    assert_eq!(&out[..n], b"my password=[REDACTED]");
}

#[test]
fn cloud_query_answers_with_notice() {
    let mut out = [9u8; MAX_RESPONSE];
    let n = userland::cogman::advisor::cloud::query(b"hello", &mut out);
    assert_eq!(n, 66);
    assert_eq!(&out[..n], b"[Cogman] Network stack not yet available. Cannot reach hosted API.");
    assert_eq!(out[n], 9);
}
