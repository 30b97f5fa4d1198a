//! The init supervisor's fixed service table: the first user process spawns
//! the auto-start services, reaps dead children and restarts them by their
//! policy, and answers control messages about the table.
//!
//! Spawning, waiting, the message queue and the console are the caller's:
//! it hands each result to the table and writes the log text it returns.

use vstd::prelude::*;
use crate::cogman::persona::{dec, push_bytes, push_dec, push_text, t};

verus! {

/// Number of slots in the service table.
pub const MAX_SVCS: usize = 16;
/// Supervisor loop iterations to wait before a restart.
pub const RESTART_DELAY_ITERS: u32 = 30;
/// Program id of the shell.
pub const PROG_SHELL: u32 = 0;
/// Program id of the system monitor.
pub const PROG_MONITOR: u32 = 5;
/// Program id of the shutdown program, spawned to stop a service.
pub const PROG_SHUTDOWN: u32 = 6;
/// Program id of the session (compositor and window manager).
pub const PROG_SESSION: u32 = 8;

/// State of a supervised service.
#[derive(Clone, Copy, Debug, PartialEq, Eq, Structural)]
pub enum SvcState {
    Stopped,
    Running,
    Failed,
    /// Waiting for its restart countdown.
    Restarting,
}

/// When a service is restarted after it exits.
#[derive(Clone, Copy, Debug, PartialEq, Eq, Structural)]
pub enum RestartPolicy {
    Never,
    /// Only after a non-zero exit status.
    OnFailure,
    Always,
}

/// The number a state is reported as.
pub open spec fn state_code(s: SvcState) -> u8 {
    match s {
        SvcState::Stopped => 0,
        SvcState::Running => 1,
        SvcState::Failed => 2,
        SvcState::Restarting => 3,
    }
}

/// One supervised service.
#[derive(Clone, Copy, Debug)]
pub struct ServiceEntry {
    pub program_id: u32,
    /// Name, zero-padded.
    pub name: [u8; 16],
    /// Process id, 0 when not running.
    pub pid: u32,
    pub state: SvcState,
    pub policy: RestartPolicy,
    pub auto_start: bool,
    pub restart_count: u16,
    /// Restart countdown in loop iterations; 0 means due now.
    pub restart_at: u32,
    /// The most recent exit status.
    pub last_exit: i32,
}

/// Whether `e` is a service that has never run.
pub open spec fn is_fresh(e: ServiceEntry, program_id: u32, name: Seq<u8>, policy: RestartPolicy, auto_start: bool) -> bool {
    &&& e.program_id == program_id
    &&& e.name@ == name
    &&& e.pid == 0
    &&& e.state == SvcState::Stopped
    &&& e.policy == policy
    &&& e.auto_start == auto_start
    &&& e.restart_count == 0
    &&& e.restart_at == 0
    &&& e.last_exit == 0
}

impl ServiceEntry {
    /// A stopped service that has never run.
    pub fn new(program_id: u32, name: [u8; 16], policy: RestartPolicy, auto_start: bool) -> (e: Self)
        ensures
            is_fresh(e, program_id, name@, policy, auto_start),
    {
        ServiceEntry {
            program_id,
            name,
            pid: 0,
            state: SvcState::Stopped,
            policy,
            auto_start,
            restart_count: 0,
            restart_at: 0,
            last_exit: 0,
        }
    }
}

/// The length of a zero-padded name: up to its first zero byte.
pub open spec fn is_name_len(name: Seq<u8>, n: int) -> bool {
    &&& 0 <= n <= name.len()
    &&& forall|j: int| 0 <= j < n ==> name[j] != 0
    &&& n < name.len() ==> name[n] == 0
}

/// The length of a zero-padded name (16 when it has no zero byte).
pub fn name_len(name: &[u8; 16]) -> (n: usize)
    ensures
        is_name_len(name@, n as int),
{
    let mut i: usize = 0;
    while i < 16
        invariant
            i <= 16,
            name@.len() == 16,
            forall|j: int| 0 <= j < i ==> name@[j] != 0,
        decreases 16 - i,
    {
        if name[i] == 0 {
            return i;
        }
        i += 1;
    }
    16
}

/// `s` zero-padded to sixteen bytes.
pub open spec fn name16(s: Seq<u8>) -> Seq<u8> {
    Seq::new(16, |i: int| if i < s.len() { s[i] } else { 0u8 })
}

fn pad_name(s: &str) -> (a: [u8; 16])
    requires
        t(s).len() <= 16,
    ensures
        a@ == name16(t(s)),
{
    let b = s.as_bytes();
    let mut a: [u8; 16] = [0u8; 16];
    let mut i: usize = 0;
    while i < b.len()
        invariant
            b@ == t(s),
            b@.len() <= 16,
            i <= b@.len(),
            a@.len() == 16,
            forall|j: int| 0 <= j < i ==> a@[j] == b@[j],
            forall|j: int| i <= j < 16 ==> a@[j] == 0,
        decreases b@.len() - i,
    {
        a[i] = b[i];
        i += 1;
    }
    assert(a@ =~= name16(t(s)));
    a
}

/// The service table: sixteen slots, each empty or holding a service.
pub struct ServiceTable {
    slots: Vec<Option<ServiceEntry>>,
}

impl View for ServiceTable {
    type V = Seq<Option<ServiceEntry>>;

    closed spec fn view(&self) -> Seq<Option<ServiceEntry>> {
        self.slots@
    }
}

/// Whether slot `s` holds the service with process id `pid`.
pub open spec fn has_pid(s: Option<ServiceEntry>, pid: u32) -> bool {
    s matches Some(e) && e.pid == pid
}

/// Whether slot `s` holds the service with program id `prog`.
pub open spec fn has_program(s: Option<ServiceEntry>, prog: u32) -> bool {
    s matches Some(e) && e.program_id == prog
}

/// A service after its process exited with `status`: it is no longer
/// running and is scheduled for a restart, or stopped, by its policy.
pub open spec fn after_exit(e: ServiceEntry, status: i32) -> ServiceEntry {
    if restarts(e.policy, status) {
        ServiceEntry { pid: 0, last_exit: status, state: SvcState::Restarting, restart_at: RESTART_DELAY_ITERS, ..e }
    } else {
        ServiceEntry { pid: 0, last_exit: status, state: SvcState::Stopped, ..e }
    }
}

/// Whether a service exiting with `status` is restarted under `policy`.
pub open spec fn restarts(policy: RestartPolicy, status: i32) -> bool {
    match policy {
        RestartPolicy::Never => false,
        RestartPolicy::Always => true,
        RestartPolicy::OnFailure => status != 0,
    }
}

/// Whether a slot is due to be started: stopped with auto-start, or
/// restarting with its countdown at zero.
pub open spec fn is_due(s: Option<ServiceEntry>) -> bool {
    s matches Some(e) && ((e.state == SvcState::Stopped && e.auto_start)
        || (e.state == SvcState::Restarting && e.restart_at == 0))
}

/// A slot after one countdown tick.
pub open spec fn ticked(s: Option<ServiceEntry>) -> Option<ServiceEntry> {
    match s {
        Some(e) => if e.state == SvcState::Restarting && e.restart_at > 0 {
            Some(ServiceEntry { restart_at: (e.restart_at - 1) as u32, ..e })
        } else {
            s
        },
        None => None,
    }
}

/// The log text of a service name.
pub open spec fn shown_name(e: ServiceEntry) -> Seq<u8> {
    e.name@.subrange(0, choose|n: int| is_name_len(e.name@, n))
}

proof fn lemma_name_len_unique(name: Seq<u8>, a: int, b: int)
    requires
        is_name_len(name, a),
        is_name_len(name, b),
    ensures
        a == b,
{
    if a < b {
        assert(name[a] != 0);
    } else if b < a {
        assert(name[b] != 0);
    }
}

/// The bytes of a service's name, as logged.
fn name_bytes(e: &ServiceEntry) -> (out: Vec<u8>)
    ensures
        out@ == shown_name(*e),
{
    let n = name_len(&e.name);
    proof {
        let c = choose|m: int| is_name_len(e.name@, m);
        assert(is_name_len(e.name@, n as int));
        lemma_name_len_unique(e.name@, c, n as int);
    }
    let mut v: Vec<u8> = Vec::new();
    let mut i: usize = 0;
    while i < n
        invariant
            n <= 16,
            e.name@.len() == 16,
            i <= n,
            v@ == e.name@.subrange(0, i as int),
        decreases n - i,
    {
        v.push(e.name[i]);
        i += 1;
        assert(v@ =~= e.name@.subrange(0, i as int));
    }
    v
}

/// A status response about one service.
#[derive(Clone, Copy, Debug)]
pub struct CogResp {
    pub program_id: u32,
    pub state: u8,
    pub restart_count: u16,
    pub pid: u32,
    pub name: [u8; 16],
}

/// What a response says about program `prog` and slot `s`: the service's
/// state, restart count, pid and name, or zeros when there is none.
pub open spec fn resp_for(prog: u32, s: Option<ServiceEntry>) -> (u32, u8, u16, u32, Seq<u8>) {
    match s {
        Some(e) => (prog, state_code(e.state), e.restart_count, e.pid, e.name@),
        None => (prog, 0u8, 0u16, 0u32, Seq::new(16, |i: int| 0u8)),
    }
}

/// A response as the contracts see it.
pub open spec fn resp_view(r: CogResp) -> (u32, u8, u16, u32, Seq<u8>) {
    (r.program_id, r.state, r.restart_count, r.pid, r.name@)
}

/// The responses to a list request over the first `n` slots: one per service.
pub open spec fn list_resps(slots: Seq<Option<ServiceEntry>>, n: int) -> Seq<(u32, u8, u16, u32, Seq<u8>)>
    decreases n,
{
    if n <= 0 {
        Seq::empty()
    } else {
        list_resps(slots, n - 1) + match slots[n - 1] {
            Some(e) => seq![resp_for(e.program_id, slots[n - 1])],
            None => Seq::empty(),
        }
    }
}

/// The first slot running process `pid`, if any.
pub open spec fn first_pid(slots: Seq<Option<ServiceEntry>>, pid: u32) -> Option<int> {
    if exists|i: int| 0 <= i < slots.len() && has_pid(slots[i], pid) {
        Some(choose|i: int| 0 <= i < slots.len() && has_pid(slots[i], pid)
            && forall|j: int| 0 <= j < i ==> !has_pid(#[trigger] slots[j], pid))
    } else {
        None
    }
}

/// The first slot holding program `prog`, if any.
pub open spec fn first_program(slots: Seq<Option<ServiceEntry>>, prog: u32) -> Option<int> {
    if exists|i: int| 0 <= i < slots.len() && has_program(slots[i], prog) {
        Some(choose|i: int| 0 <= i < slots.len() && has_program(slots[i], prog)
            && forall|j: int| 0 <= j < i ==> !has_program(#[trigger] slots[j], prog))
    } else {
        None
    }
}

/// A control request.
#[derive(Clone, Copy, Debug, PartialEq, Eq, Structural)]
pub enum CtrlRequest {
    /// List every service.
    List,
    /// Report on a program.
    Status(u32),
    /// Stop a program and do not restart it.
    Stop(u32),
    /// Start a stopped or failed program.
    Start(u32),
    /// Restart a program at the next tick.
    Restart(u32),
    /// A liveness check with its sequence number.
    Ping(u32),
    /// Any other message; ignored.
    Other,
}

/// What answering a control request takes.
pub struct CtrlReply {
    /// Responses to send back, in order.
    pub responses: Vec<CogResp>,
    /// The sequence number to acknowledge, for a ping.
    pub ack: Option<u32>,
    /// Whether to spawn the shutdown program.
    pub spawn_shutdown: bool,
    /// Text for the console.
    pub log: Vec<u8>,
}

proof fn lemma_list_resps_step(slots: Seq<Option<ServiceEntry>>, n: int)
    requires
        n >= 1,
    ensures
        list_resps(slots, n) == list_resps(slots, n - 1) + match slots[n - 1] {
            Some(e) => seq![resp_for(e.program_id, slots[n - 1])],
            None => Seq::empty(),
        },
{
}

/// The state after a stop request on slot `i`.
pub open spec fn stopped_at(slots: Seq<Option<ServiceEntry>>, i: int) -> Seq<Option<ServiceEntry>> {
    slots.update(i, Some(ServiceEntry { policy: RestartPolicy::Never, state: SvcState::Stopped, ..slots[i]->0 }))
}

/// The state after a start request on slot `i`.
pub open spec fn started_at(slots: Seq<Option<ServiceEntry>>, i: int) -> Seq<Option<ServiceEntry>> {
    let e = slots[i]->0;
    if e.state == SvcState::Stopped || e.state == SvcState::Failed {
        slots.update(i, Some(ServiceEntry { state: SvcState::Stopped, auto_start: true, ..e }))
    } else {
        slots
    }
}

/// The state after a restart request on slot `i`.
pub open spec fn restarted_at(slots: Seq<Option<ServiceEntry>>, i: int) -> Seq<Option<ServiceEntry>> {
    slots.update(i, Some(ServiceEntry { state: SvcState::Restarting, restart_at: 0, ..slots[i]->0 }))
}

/// The table after a control request.
pub open spec fn after_request(slots: Seq<Option<ServiceEntry>>, req: CtrlRequest) -> Seq<Option<ServiceEntry>> {
    match req {
        CtrlRequest::Stop(p) => match first_program(slots, p) { Some(i) => stopped_at(slots, i), None => slots },
        CtrlRequest::Start(p) => match first_program(slots, p) { Some(i) => started_at(slots, i), None => slots },
        CtrlRequest::Restart(p) => match first_program(slots, p) { Some(i) => restarted_at(slots, i), None => slots },
        _ => slots,
    }
}

/// The response about program `p` in `slots`.
pub open spec fn status_resp(slots: Seq<Option<ServiceEntry>>, p: u32) -> (u32, u8, u16, u32, Seq<u8>) {
    match first_program(slots, p) {
        Some(i) => resp_for(p, slots[i]),
        None => resp_for(p, None),
    }
}

impl ServiceTable {
    /// The table the system starts with: the session (always restarted,
    /// started at boot), the shell and the monitor (restarted on failure,
    /// started on demand), and thirteen empty slots.
    pub fn new() -> (tab: Self)
        ensures
            tab@.len() == MAX_SVCS,
            tab@[0] matches Some(e) && is_fresh(e, PROG_SESSION, name16(t("session")), RestartPolicy::Always, true),
            tab@[1] matches Some(e) && is_fresh(e, PROG_SHELL, name16(t("shell")), RestartPolicy::OnFailure, false),
            tab@[2] matches Some(e) && is_fresh(e, PROG_MONITOR, name16(t("monitor")), RestartPolicy::OnFailure, false),
            forall|i: int| 3 <= i < MAX_SVCS ==> tab@[i] is None,
    {
        proof {
            reveal_strlit("session");
            reveal_strlit("shell");
            reveal_strlit("monitor");
            vstd::string::is_ascii_spec_bytes("session");
            vstd::string::is_ascii_spec_bytes("shell");
            vstd::string::is_ascii_spec_bytes("monitor");
        }
        let mut slots: Vec<Option<ServiceEntry>> = Vec::new();
        slots.push(Some(ServiceEntry::new(PROG_SESSION, pad_name("session"), RestartPolicy::Always, true)));
        slots.push(Some(ServiceEntry::new(PROG_SHELL, pad_name("shell"), RestartPolicy::OnFailure, false)));
        slots.push(Some(ServiceEntry::new(PROG_MONITOR, pad_name("monitor"), RestartPolicy::OnFailure, false)));
        while slots.len() < MAX_SVCS
            invariant
                3 <= slots@.len() <= MAX_SVCS,
                slots@[0] matches Some(e) && is_fresh(e, PROG_SESSION, name16(t("session")), RestartPolicy::Always, true),
                slots@[1] matches Some(e) && is_fresh(e, PROG_SHELL, name16(t("shell")), RestartPolicy::OnFailure, false),
                slots@[2] matches Some(e) && is_fresh(e, PROG_MONITOR, name16(t("monitor")), RestartPolicy::OnFailure, false),
                forall|i: int| 3 <= i < slots@.len() ==> slots@[i] is None,
            decreases MAX_SVCS - slots@.len(),
        {
            slots.push(None);
        }
        ServiceTable { slots }
    }

    /// The slot at `i`.
    pub fn slot(&self, i: usize) -> (s: Option<ServiceEntry>)
        requires
            i < self@.len(),
        ensures
            s == self@[i as int],
    {
        self.slots[i]
    }

    /// The first slot holding the service with process id `pid`.
    pub fn find_by_pid(&self, pid: u32) -> (r: Option<usize>)
        ensures
            r matches Some(i) ==> i < self@.len() && has_pid(self@[i as int], pid)
                && forall|j: int| 0 <= j < i ==> !has_pid(#[trigger] self@[j], pid),
            r is None ==> forall|j: int| 0 <= j < self@.len() ==> !has_pid(#[trigger] self@[j], pid),
    {
        let mut i: usize = 0;
        while i < self.slots.len()
            invariant
                i <= self@.len(),
                self@ == self.slots@,
                forall|j: int| 0 <= j < i ==> !has_pid(#[trigger] self@[j], pid),
            decreases self@.len() - i,
        {
            if let Some(e) = self.slots[i] {
                if e.pid == pid {
                    return Some(i);
                }
            }
            i += 1;
        }
        None
    }

    /// The first slot holding the service with program id `prog`.
    pub fn find_by_program_id(&self, prog: u32) -> (r: Option<usize>)
        ensures
            r matches Some(i) ==> i < self@.len() && has_program(self@[i as int], prog)
                && first_program(self@, prog) == Some(i as int),
            r is None ==> first_program(self@, prog) is None,
    {
        let mut i: usize = 0;
        while i < self.slots.len()
            invariant
                i <= self@.len(),
                self@ == self.slots@,
                forall|j: int| 0 <= j < i ==> !has_program(#[trigger] self@[j], prog),
            decreases self@.len() - i,
        {
            if let Some(e) = self.slots[i] {
                if e.program_id == prog {
                    proof { lemma_first_program(self@, prog, i as int); }
                    return Some(i);
                }
            }
            i += 1;
        }
        None
    }
}

proof fn lemma_first_program(slots: Seq<Option<ServiceEntry>>, prog: u32, i: int)
    requires
        0 <= i < slots.len(),
        has_program(slots[i], prog),
        forall|j: int| 0 <= j < i ==> !has_program(#[trigger] slots[j], prog),
    ensures
        first_program(slots, prog) == Some(i),
{
    let c = choose|k: int| 0 <= k < slots.len() && has_program(slots[k], prog)
        && forall|j: int| 0 <= j < k ==> !has_program(#[trigger] slots[j], prog);
    assert(0 <= c < slots.len() && has_program(slots[c], prog));
    if c < i {
        assert(!has_program(slots[c], prog));
    } else if i < c {
        assert(!has_program(slots[i], prog));
    }
}

/// The log line for a reaped child.
pub open spec fn reaped_line(pid: u32, status: i32) -> Seq<u8> {
    t("[COGMAN] reaped pid=") + dec(pid as nat) + t(" status=") + dec((status as u32) as nat) + t("\r\n")
}

/// The log line for a spawn attempt: `ret` is what the spawn returned.
pub open spec fn spawn_line(e: ServiceEntry, ret: isize) -> Seq<u8> {
    if ret > 0 {
        t("[COGMAN] spawned svc=") + shown_name(e) + t(" pid=") + dec((ret as u32) as nat) + t("\r\n")
    } else {
        t("[COGMAN] spawn failed svc=") + shown_name(e) + t("\r\n")
    }
}

/// The log text of a control request.
pub open spec fn request_log(slots: Seq<Option<ServiceEntry>>, req: CtrlRequest) -> Seq<u8> {
    match req {
        CtrlRequest::Stop(p) => if first_program(slots, p) is Some {
            t("[COGMAN] stop requested for prog=") + dec(p as nat) + t("\r\n")
        } else {
            Seq::empty()
        },
        CtrlRequest::Restart(p) => if first_program(slots, p) is Some {
            t("[COGMAN] restart requested for prog=") + dec(p as nat) + t("\r\n")
        } else {
            Seq::empty()
        },
        _ => Seq::empty(),
    }
}

/// The responses to a control request, given the table before and after it.
pub open spec fn request_resps(before: Seq<Option<ServiceEntry>>, after: Seq<Option<ServiceEntry>>, req: CtrlRequest) -> Seq<(u32, u8, u16, u32, Seq<u8>)> {
    match req {
        CtrlRequest::List => list_resps(before, before.len() as int),
        CtrlRequest::Status(p) => seq![status_resp(after, p)],
        CtrlRequest::Stop(p) => seq![status_resp(after, p)],
        CtrlRequest::Start(p) => seq![status_resp(after, p)],
        CtrlRequest::Restart(p) => seq![status_resp(after, p)],
        _ => Seq::empty(),
    }
}

fn build_resp(prog: u32, slot: Option<ServiceEntry>) -> (r: CogResp)
    ensures
        resp_view(r) == resp_for(prog, slot),
{
    match slot {
        Some(e) => {
            let code: u8 = match e.state {
                SvcState::Stopped => 0,
                SvcState::Running => 1,
                SvcState::Failed => 2,
                SvcState::Restarting => 3,
            };
            CogResp { program_id: prog, state: code, restart_count: e.restart_count, pid: e.pid, name: e.name }
        },
        None => {
            let r = CogResp { program_id: prog, state: 0, restart_count: 0, pid: 0, name: [0u8; 16] };
            assert(r.name@ =~= Seq::new(16, |i: int| 0u8));
            r
        },
    }
}

impl ServiceTable {
    /// Record that child `pid` exited with `status`: the service it ran, if
    /// any, stops running and is scheduled for a restart or stopped by its
    /// policy. Returns the log text.
    pub fn record_reap(&mut self, pid: u32, status: i32) -> (log: Vec<u8>)
        ensures
            match first_pid(old(self)@, pid) {
                Some(i) => {
                    &&& final(self)@ == old(self)@.update(i, Some(after_exit(old(self)@[i]->0, status)))
                    &&& log@ == reaped_line(pid, status) + if restarts(old(self)@[i]->0.policy, status) {
                        t("[COGMAN] scheduling restart svc=") + shown_name(old(self)@[i]->0) + t("\r\n")
                    } else {
                        Seq::empty()
                    }
                },
                None => final(self)@ == old(self)@ && log@ == reaped_line(pid, status),
            },
    {
        let mut log: Vec<u8> = Vec::new();
        push_text(&mut log, "[COGMAN] reaped pid=");
        push_dec(&mut log, pid);
        push_text(&mut log, " status=");
        push_dec(&mut log, status as u32);
        push_text(&mut log, "\r\n");
        let found = self.find_by_pid(pid);
        proof { self.lemma_find_pid(pid, found); }
        match found {
            Some(idx) => {
                let e = self.slots[idx].unwrap();
                let restart = match e.policy {
                    RestartPolicy::Never => false,
                    RestartPolicy::Always => true,
                    RestartPolicy::OnFailure => status != 0,
                };
                if restart {
                    let ne = ServiceEntry { pid: 0, last_exit: status, state: SvcState::Restarting, restart_at: RESTART_DELAY_ITERS, ..e };
                    self.slots.set(idx, Some(ne));
                    push_text(&mut log, "[COGMAN] scheduling restart svc=");
                    let nb = name_bytes(&e);
                    push_bytes(&mut log, nb.as_slice());
                    push_text(&mut log, "\r\n");
                } else {
                    let ne = ServiceEntry { pid: 0, last_exit: status, state: SvcState::Stopped, ..e };
                    self.slots.set(idx, Some(ne));
                }
            },
            None => {},
        }
        log
    }

    proof fn lemma_find_pid(&self, pid: u32, found: Option<usize>)
        requires
            found matches Some(i) ==> i < self@.len() && has_pid(self@[i as int], pid)
                && forall|j: int| 0 <= j < i ==> !has_pid(#[trigger] self@[j], pid),
            found is None ==> forall|j: int| 0 <= j < self@.len() ==> !has_pid(#[trigger] self@[j], pid),
        ensures
            found matches Some(i) ==> first_pid(self@, pid) == Some(i as int),
            found is None ==> first_pid(self@, pid) is None,
    {
        let slots = self@;
        if let Some(i) = found {
            let c = choose|k: int| 0 <= k < slots.len() && has_pid(slots[k], pid)
                && forall|j: int| 0 <= j < k ==> !has_pid(#[trigger] slots[j], pid);
            assert(0 <= i < slots.len() && has_pid(slots[i as int], pid));
            if c < i {
                assert(!has_pid(slots[c], pid));
            } else if i < c {
                assert(!has_pid(slots[i as int], pid));
            }
        }
    }

    /// Count down the restart delay of every restarting service.
    pub fn tick_restarts(&mut self)
        ensures
            final(self)@ == old(self)@.map_values(|s: Option<ServiceEntry>| ticked(s)),
    {
        let ghost s0 = self@;
        let mut i: usize = 0;
        while i < self.slots.len()
            invariant
                i <= self@.len(),
                self@.len() == s0.len(),
                forall|j: int| 0 <= j < i ==> self@[j] == ticked(s0[j]),
                forall|j: int| i <= j < self@.len() ==> self@[j] == s0[j],
            decreases self@.len() - i,
        {
            if let Some(e) = self.slots[i] {
                if e.state == SvcState::Restarting && e.restart_at > 0 {
                    self.slots.set(i, Some(ServiceEntry { restart_at: e.restart_at - 1, ..e }));
                }
            }
            i += 1;
        }
        assert(self@ =~= s0.map_values(|s: Option<ServiceEntry>| ticked(s)));
    }

    /// If slot `idx` is due to start, count the start and return the
    /// program to spawn for it.
    pub fn next_spawn(&mut self, idx: usize) -> (prog: Option<u32>)
        requires
            idx < old(self)@.len(),
        ensures
            is_due(old(self)@[idx as int]) ==> {
                let e = old(self)@[idx as int]->0;
                &&& prog == Some(e.program_id)
                &&& final(self)@ == old(self)@.update(idx as int, Some(ServiceEntry {
                    restart_count: if e.restart_count < u16::MAX { (e.restart_count + 1) as u16 } else { e.restart_count },
                    ..e
                }))
            },
            !is_due(old(self)@[idx as int]) ==> prog is None && final(self)@ == old(self)@,
    {
        match self.slots[idx] {
            Some(e) => {
                if (e.state == SvcState::Stopped && e.auto_start) || (e.state == SvcState::Restarting && e.restart_at == 0) {
                    let count = if e.restart_count < u16::MAX { e.restart_count + 1 } else { e.restart_count };
                    self.slots.set(idx, Some(ServiceEntry { restart_count: count, ..e }));
                    Some(e.program_id)
                } else {
                    None
                }
            },
            None => None,
        }
    }

    /// Record what spawning the service in slot `idx` returned: a positive
    /// process id means it runs, anything else that it failed. Returns the
    /// log text.
    pub fn record_spawn(&mut self, idx: usize, ret: isize) -> (log: Vec<u8>)
        requires
            idx < old(self)@.len(),
            old(self)@[idx as int] is Some,
        ensures
            ({
                let e = old(self)@[idx as int]->0;
                &&& final(self)@ == old(self)@.update(idx as int, Some(if ret > 0 {
                    ServiceEntry { pid: ret as u32, state: SvcState::Running, ..e }
                } else {
                    ServiceEntry { state: SvcState::Failed, ..e }
                }))
                &&& log@ == spawn_line(e, ret)
            }),
    {
        let e = self.slots[idx].unwrap();
        let nb = name_bytes(&e);
        let mut log: Vec<u8> = Vec::new();
        if ret > 0 {
            let pid = ret as u32;
            self.slots.set(idx, Some(ServiceEntry { pid, state: SvcState::Running, ..e }));
            push_text(&mut log, "[COGMAN] spawned svc=");
            push_bytes(&mut log, nb.as_slice());
            push_text(&mut log, " pid=");
            push_dec(&mut log, pid);
            push_text(&mut log, "\r\n");
        } else {
            self.slots.set(idx, Some(ServiceEntry { state: SvcState::Failed, ..e }));
            push_text(&mut log, "[COGMAN] spawn failed svc=");
            push_bytes(&mut log, nb.as_slice());
            push_text(&mut log, "\r\n");
        }
        log
    }

    fn list_responses(&self) -> (out: Vec<CogResp>)
        ensures
            out@.map_values(|r: CogResp| resp_view(r)) == list_resps(self@, self@.len() as int),
    {
        let mut responses: Vec<CogResp> = Vec::new();
        let mut i: usize = 0;
        while i < self.slots.len()
            invariant
                i <= self@.len(),
                self@ == self.slots@,
                responses@.map_values(|r: CogResp| resp_view(r)) == list_resps(self@, i as int),
            decreases self@.len() - i,
        {
            let ghost before = responses@;
            proof { lemma_list_resps_step(self@, i + 1); }
            if let Some(e) = self.slots[i] {
                let r = build_resp(e.program_id, Some(e));
                responses.push(r);
                assert(responses@.map_values(|r: CogResp| resp_view(r)) =~= before.map_values(|r: CogResp| resp_view(r)) + seq![resp_view(r)]);
            } else {
                assert(responses@.map_values(|r: CogResp| resp_view(r)) =~= before.map_values(|r: CogResp| resp_view(r)) + Seq::empty());
            }
            i += 1;
        }
        responses
    }

    fn status_response(&self, p: u32) -> (r: CogResp)
        ensures
            resp_view(r) == status_resp(self@, p),
    {
        let idx = self.find_by_program_id(p);
        let slot = match idx {
            Some(i) => self.slots[i],
            None => None,
        };
        build_resp(p, slot)
    }

    fn apply_request(&mut self, req: CtrlRequest) -> (found: bool)
        ensures
            final(self)@ == after_request(old(self)@, req),
            found == (match req {
                CtrlRequest::Stop(p) | CtrlRequest::Start(p) | CtrlRequest::Restart(p) => first_program(old(self)@, p) is Some,
                _ => false,
            }),
    {
        match req {
            CtrlRequest::Stop(p) => match self.find_by_program_id(p) {
                Some(i) => {
                    let e = self.slots[i].unwrap();
                    self.slots.set(i, Some(ServiceEntry { policy: RestartPolicy::Never, state: SvcState::Stopped, ..e }));
                    true
                },
                None => false,
            },
            CtrlRequest::Start(p) => match self.find_by_program_id(p) {
                Some(i) => {
                    let e = self.slots[i].unwrap();
                    if e.state == SvcState::Stopped || e.state == SvcState::Failed {
                        self.slots.set(i, Some(ServiceEntry { state: SvcState::Stopped, auto_start: true, ..e }));
                    }
                    true
                },
                None => false,
            },
            CtrlRequest::Restart(p) => match self.find_by_program_id(p) {
                Some(i) => {
                    let e = self.slots[i].unwrap();
                    self.slots.set(i, Some(ServiceEntry { state: SvcState::Restarting, restart_at: 0, ..e }));
                    true
                },
                None => false,
            },
            _ => false,
        }
    }

    /// Answer a control request: list the services, report on one, stop,
    /// start or restart one (then report on it), or acknowledge a ping.
    pub fn handle_request(&mut self, req: CtrlRequest) -> (reply: CtrlReply)
        ensures
            final(self)@ == after_request(old(self)@, req),
            reply.responses@.map_values(|r: CogResp| resp_view(r)) == request_resps(old(self)@, final(self)@, req),
            reply.ack == (match req { CtrlRequest::Ping(s) => Some(s), _ => None }),
            reply.spawn_shutdown == (match req { CtrlRequest::Stop(p) => first_program(old(self)@, p) is Some, _ => false }),
            reply.log@ == request_log(old(self)@, req),
    {
        let mut responses: Vec<CogResp> = Vec::new();
        let mut log: Vec<u8> = Vec::new();
        let mut ack: Option<u32> = None;
        let mut spawn_shutdown = false;
        match req {
            CtrlRequest::List => {
                responses = self.list_responses();
            },
            CtrlRequest::Status(p) => {
                responses.push(self.status_response(p));
                assert(responses@.map_values(|r: CogResp| resp_view(r)) =~= seq![status_resp(self@, p)]);
            },
            CtrlRequest::Stop(p) => {
                let found = self.apply_request(req);
                if found {
                    spawn_shutdown = true;
                    push_text(&mut log, "[COGMAN] stop requested for prog=");
                    push_dec(&mut log, p);
                    push_text(&mut log, "\r\n");
                }
                responses.push(self.status_response(p));
                assert(responses@.map_values(|r: CogResp| resp_view(r)) =~= seq![status_resp(self@, p)]);
            },
            CtrlRequest::Start(p) => {
                self.apply_request(req);
                responses.push(self.status_response(p));
                assert(responses@.map_values(|r: CogResp| resp_view(r)) =~= seq![status_resp(self@, p)]);
            },
            CtrlRequest::Restart(p) => {
                let found = self.apply_request(req);
                if found {
                    push_text(&mut log, "[COGMAN] restart requested for prog=");
                    push_dec(&mut log, p);
                    push_text(&mut log, "\r\n");
                }
                responses.push(self.status_response(p));
                assert(responses@.map_values(|r: CogResp| resp_view(r)) =~= seq![status_resp(self@, p)]);
            },
            CtrlRequest::Ping(seq) => {
                ack = Some(seq);
            },
            CtrlRequest::Other => {},
        }
        assert(log@ =~= request_log(old(self)@, req));
        CtrlReply { responses, ack, spawn_shutdown, log }
    }
}

/// A slot after `k` countdown ticks.
pub open spec fn ticked_times(s: Option<ServiceEntry>, k: nat) -> Option<ServiceEntry>
    decreases k,
{
    if k == 0 { s } else { ticked(ticked_times(s, (k - 1) as nat)) }
}

/// A service whose process exited and whose policy restarts it is due to
/// be spawned again after exactly the restart delay: not before the last
/// tick, and at it.
pub proof fn lemma_exit_then_restart(e: ServiceEntry, status: i32, k: nat)
    requires
        restarts(e.policy, status),
        k <= RESTART_DELAY_ITERS,
    ensures
        ticked_times(Some(after_exit(e, status)), k) matches Some(f) && f.state == SvcState::Restarting
            && f.restart_at == RESTART_DELAY_ITERS - k && f.pid == 0,
        is_due(ticked_times(Some(after_exit(e, status)), k)) <==> k == RESTART_DELAY_ITERS,
    decreases k,
{
    if k > 0 {
        lemma_exit_then_restart(e, status, (k - 1) as nat);
    }
}

/// A service stopped by request is not rescheduled when its process
/// exits: the reap leaves it stopped whatever the exit status, and unless
/// it starts automatically it is not due to start again.
pub proof fn lemma_stop_keeps_down(slots: Seq<Option<ServiceEntry>>, p: u32, status: i32)
    requires
        first_program(slots, p) is Some,
    ensures
        ({
            let i = first_program(slots, p)->0;
            let after = after_request(slots, CtrlRequest::Stop(p));
            &&& after[i] is Some
            &&& after_exit(after[i]->0, status).state == SvcState::Stopped
            &&& !slots[i]->0.auto_start ==> !is_due(Some(after_exit(after[i]->0, status)))
        }),
{
    lemma_first_program_some(slots, p);
    let i = first_program(slots, p)->0;
    let after = stopped_at(slots, i);
    assert(after_request(slots, CtrlRequest::Stop(p)) == after);
    let e = after[i]->0;
    assert(e.policy == RestartPolicy::Never);
    assert(!restarts(e.policy, status));
}

/// The first slot at or after `k` that holds program `prog`.
pub open spec fn program_from(slots: Seq<Option<ServiceEntry>>, prog: u32, k: int) -> Option<int>
    decreases slots.len() - k,
{
    if k < 0 || k >= slots.len() {
        None
    } else if has_program(slots[k], prog) {
        Some(k)
    } else {
        program_from(slots, prog, k + 1)
    }
}

proof fn lemma_program_from(slots: Seq<Option<ServiceEntry>>, prog: u32, k: int)
    requires
        0 <= k,
        forall|j: int| 0 <= j < k ==> !has_program(#[trigger] slots[j], prog),
    ensures
        program_from(slots, prog, k) matches Some(i) ==> k <= i < slots.len() && has_program(slots[i], prog)
            && forall|j: int| 0 <= j < i ==> !has_program(#[trigger] slots[j], prog),
        program_from(slots, prog, k) is None ==> forall|j: int| k <= j < slots.len() ==> !has_program(#[trigger] slots[j], prog),
    decreases slots.len() - k,
{
    if k < slots.len() && !has_program(slots[k], prog) {
        lemma_program_from(slots, prog, k + 1);
    }
}

proof fn lemma_first_program_some(slots: Seq<Option<ServiceEntry>>, prog: u32)
    ensures
        first_program(slots, prog) matches Some(i) ==> 0 <= i < slots.len() && has_program(slots[i], prog),
{
    lemma_program_from(slots, prog, 0);
    if let Some(i) = program_from(slots, prog, 0) {
        assert(0 <= i < slots.len() && has_program(slots[i], prog)
            && forall|j: int| 0 <= j < i ==> !has_program(#[trigger] slots[j], prog));
    }
}

} // verus!
