//! Process supervisor: Cogman's init responsibilities.
//!
//! Keeps the service table, decides which services to start, applies the
//! restart policies when a child exits, and encodes the table for the
//! kernel journal so a replacement instance can resume. Spawning, waiting
//! and writing are the caller's part: each decision here says what to do.

use vstd::prelude::*;
use crate::cogman::persona::{
    msg_exited, msg_halt, msg_reboot, msg_restarting, msg_spawn_failed, msg_spawning,
    msg_stopped_policy, say_exited, say_halt, say_reboot, say_restarting, say_spawn_failed, say_spawning,
    say_stopped_policy, push_bytes, t,
};
use vstd::string::StringSliceAdditionalSpecFns;

verus! {

/// When a service is restarted after it exits.
#[derive(Copy, Clone, Debug, PartialEq, Eq, Structural)]
pub enum RestartPolicy {
    /// Never restart: one-shot or manually controlled.
    Never,
    /// Restart only on non-zero exit.
    OnFailure,
    /// Always restart regardless of exit code.
    Always,
}

/// The state of a service.
#[derive(Copy, Clone, Debug, PartialEq, Eq, Structural)]
pub enum SvcState {
    Stopped,
    Running,
    Restarting,
    Failed,
}

/// What the supervisor loop does next.
#[derive(Copy, Clone, Debug, PartialEq, Eq, Structural)]
pub enum ControlFlow {
    Continue,
    Halt,
    Reboot,
}

/// The name of a program id (the kernel's program registrations).
pub open spec fn spec_prog_name(id: u32) -> Seq<u8> {
    if id == 0 { t("shell") }
    else if id == 1 { t("rwm") }
    else if id == 2 { t("editor") }
    else if id == 3 { t("viewer") }
    else if id == 4 { t("copy") }
    else if id == 5 { t("monitor") }
    else if id == 6 { t("shutdown") }
    else if id == 7 { t("exit") }
    else if id == 8 { t("session") }
    else if id == 9 { t("wm") }
    else if id == 10 { t("cogman") }
    else if id == 11 { t("fbtest") }
    else if id == 12 { t("terminal") }
    else { t("unknown") }
}

/// The name of a program id.
pub fn prog_name(id: u32) -> (name: &'static [u8])
    ensures
        name@ == spec_prog_name(id),
{
    if id == 0 { "shell".as_bytes() }
    else if id == 1 { "rwm".as_bytes() }
    else if id == 2 { "editor".as_bytes() }
    else if id == 3 { "viewer".as_bytes() }
    else if id == 4 { "copy".as_bytes() }
    else if id == 5 { "monitor".as_bytes() }
    else if id == 6 { "shutdown".as_bytes() }
    else if id == 7 { "exit".as_bytes() }
    else if id == 8 { "session".as_bytes() }
    else if id == 9 { "wm".as_bytes() }
    else if id == 10 { "cogman".as_bytes() }
    else if id == 11 { "fbtest".as_bytes() }
    else if id == 12 { "terminal".as_bytes() }
    else { "unknown".as_bytes() }
}

/// An entry of the service table.
#[derive(Copy, Clone, Debug)]
pub struct Service {
    pub program_id: u32,
    pub pid: u32,
    pub state: SvcState,
    pub policy: RestartPolicy,
    pub auto_start: bool,
    pub restart_count: u16,
    pub restart_delay: u32,
    pub last_exit: i32,
    /// Capability mask granted to spawned instances of this service.
    pub cap_mask: u64,
}

impl Service {
    /// A stopped service that has never run. The name is informative only:
    /// the program id names the service.
    pub fn new(id: u32, name: &[u8], policy: RestartPolicy, auto_start: bool, cap_mask: u64) -> (s: Self)
        ensures
            s == (Service {
                program_id: id,
                pid: 0,
                state: SvcState::Stopped,
                policy,
                auto_start,
                restart_count: 0,
                restart_delay: 0,
                last_exit: 0,
                cap_mask,
            }),
    {
        let _ = name;
        Service {
            program_id: id,
            pid: 0,
            state: SvcState::Stopped,
            policy,
            auto_start,
            restart_count: 0,
            restart_delay: 0,
            last_exit: 0,
            cap_mask,
        }
    }

    /// The service's program name.
    pub fn name_bytes(&self) -> (name: &'static [u8])
        ensures
            name@ == spec_prog_name(self.program_id),
    {
        prog_name(self.program_id)
    }
}

/// Program id of the framebuffer test, after which the window manager starts.
pub const PROG_FBTEST: u32 = 11;
/// Program id of the window manager.
pub const PROG_WM: u32 = 9;
/// Program id of the terminal.
pub const PROG_TERMINAL: u32 = 12;

/// Size of the service table.
pub const MAX_SERVICES: usize = 16;

/// The service table, in registration order.
pub struct Supervisor {
    table: Vec<Service>,
}

impl View for Supervisor {
    type V = Seq<Service>;

    closed spec fn view(&self) -> Seq<Service> {
        self.table@
    }
}

/// Exponential backoff in ticks: none before a first restart, then 200
/// doubled per further restart (200, 400, 800, ...), capped at 8000.
pub open spec fn spec_backoff(restart_count: u16) -> u32 {
    if restart_count == 0 {
        0
    } else {
        let shift: u32 = if restart_count < 7 { (restart_count - 1) as u32 } else { 6 };
        let b = 200 * vstd::arithmetic::power2::pow2(shift as nat);
        if b < 8000 { b as u32 } else { 8000 }
    }
}

/// Whether a service with `policy` that exited with `status` is restarted.
pub open spec fn should_restart(policy: RestartPolicy, status: i32) -> bool {
    match policy {
        RestartPolicy::Never => false,
        RestartPolicy::OnFailure => status != 0,
        RestartPolicy::Always => true,
    }
}

/// The services, from `from` on, that start at boot and are stopped.
pub open spec fn start_list(s: Seq<Service>, n: int) -> Seq<usize>
    decreases n,
{
    if n <= 0 {
        Seq::empty()
    } else {
        start_list(s, n - 1) + if s[n - 1].auto_start && s[n - 1].state == SvcState::Stopped {
            seq![(n - 1) as usize]
        } else {
            Seq::empty()
        }
    }
}

/// The first position at or after `from` whose service satisfies `p`.
pub open spec fn first_from(s: Seq<Service>, p: spec_fn(Service) -> bool, from: int) -> Option<int>
    decreases s.len() - from,
{
    if from < 0 || from >= s.len() {
        None
    } else if p(s[from]) {
        Some(from)
    } else {
        first_from(s, p, from + 1)
    }
}

/// A service after its spawn: failed when the kernel refused, else running
/// under the new process id.
pub open spec fn spawned(svc: Service, pid_raw: isize) -> Service {
    if pid_raw < 0 {
        Service { state: SvcState::Failed, ..svc }
    } else {
        Service { pid: pid_raw as u32, state: SvcState::Running, ..svc }
    }
}

/// A service after its process exited with `status`: restarting after a
/// backoff when its policy says so, else stopped.
pub open spec fn exited(svc: Service, status: i32) -> Service {
    let s = Service { pid: 0, last_exit: status, ..svc };
    if should_restart(svc.policy, status) {
        Service {
            state: SvcState::Restarting,
            restart_delay: spec_backoff(svc.restart_count),
            restart_count: if svc.restart_count < u16::MAX { (svc.restart_count + 1) as u16 } else { u16::MAX },
            ..s
        }
    } else {
        Service { state: SvcState::Stopped, ..s }
    }
}

/// How an exit is handled, by restart policy: `Always` restarts whatever the
/// exit status (0 included), `OnFailure` restarts exactly on a non-zero
/// status, `Never` never restarts. A restart waits the backoff for the
/// restarts so far and counts one more (saturating); a service that is not
/// restarted is stopped with its counters kept. Either way the process is
/// gone (pid 0), the status is recorded, and the rest of the entry stays.
pub proof fn law_exit_by_policy(svc: Service, status: i32)
    ensures
        ({
            let e = exited(svc, status);
            let restarts = match svc.policy {
                RestartPolicy::Never => false,
                RestartPolicy::OnFailure => status != 0,
                RestartPolicy::Always => true,
            };
            &&& svc.policy == RestartPolicy::Always ==> restarts
            &&& svc.policy == RestartPolicy::Never ==> !restarts
            &&& e.pid == 0
            &&& e.last_exit == status
            &&& e.program_id == svc.program_id
            &&& e.policy == svc.policy
            &&& e.auto_start == svc.auto_start
            &&& e.cap_mask == svc.cap_mask
            &&& restarts ==> {
                &&& e.state == SvcState::Restarting
                &&& e.restart_delay == spec_backoff(svc.restart_count)
                &&& e.restart_count == (if svc.restart_count < u16::MAX { svc.restart_count + 1 } else { svc.restart_count as int })
            }
            &&& !restarts ==> {
                &&& e.state == SvcState::Stopped
                &&& e.restart_delay == svc.restart_delay
                &&& e.restart_count == svc.restart_count
            }
        }),
{
}

/// What a reap pass decided.
pub struct ReapOutcome {
    /// Continue, or halt / reboot the machine.
    pub flow: ControlFlow,
    /// What Cogman says, in order.
    pub speech: Vec<u8>,
    /// A service to spawn now (the window manager after the framebuffer test).
    pub spawn: Option<usize>,
    /// Whether the table is to be journalled.
    pub journal: bool,
}

/// What a start pass decided: the services to spawn, in slot order, and
/// whether the table is to be journalled afterwards.
pub struct StartPlan {
    pub spawn: Vec<usize>,
    pub journal: bool,
}

/// What a restart pass decided: the services due to spawn now, in slot
/// order, and whether the table is to be journalled afterwards.
pub struct RestartPlan {
    pub due: Vec<usize>,
    pub journal: bool,
}

/// Journal code of a state.
pub open spec fn state_code(s: SvcState) -> u8 {
    match s {
        SvcState::Stopped => 0,
        SvcState::Running => 1,
        SvcState::Restarting => 2,
        SvcState::Failed => 3,
    }
}

/// Journal code of a policy.
pub open spec fn policy_code(p: RestartPolicy) -> u8 {
    match p {
        RestartPolicy::Never => 0,
        RestartPolicy::OnFailure => 1,
        RestartPolicy::Always => 2,
    }
}

/// Little-endian bytes of the low `n` bytes of `x`.
pub open spec fn le(x: u64, n: nat) -> Seq<u8>
    decreases n,
{
    if n == 0 {
        Seq::empty()
    } else {
        seq![(x & 0xff) as u8] + le(x >> 8, (n - 1) as nat)
    }
}

/// The 24-byte journal entry of a service: program id, pid, state, policy,
/// restart count, last exit status and capability mask, little-endian.
pub open spec fn journal_entry(s: Service) -> Seq<u8> {
    le(s.program_id as u64, 4) + le(s.pid as u64, 4) + seq![state_code(s.state), policy_code(s.policy)]
        + le(s.restart_count as u64, 2) + le((s.last_exit as u32) as u64, 4) + le(s.cap_mask, 8)
}

/// The journal entries of the first `n` services.
pub open spec fn journal_entries(s: Seq<Service>, n: int) -> Seq<u8>
    decreases n,
{
    if n <= 0 {
        Seq::empty()
    } else {
        journal_entries(s, n - 1) + journal_entry(s[n - 1])
    }
}

/// The journal record of a table: the number of services, then their entries.
pub open spec fn journal_record(s: Seq<Service>) -> Seq<u8> {
    seq![s.len() as u8] + journal_entries(s, s.len() as int)
}

/// Append the low `n` bytes of `x` to `v`, little-endian.
fn push_le(v: &mut Vec<u8>, x: u64, n: usize)
    ensures
        final(v)@ == old(v)@ + le(x, n as nat),
    decreases n,
{
    if n > 0 {
        v.push((x & 0xff) as u8);
        push_le(v, x >> 8, n - 1);
        assert(final(v)@ =~= old(v)@ + le(x, n as nat));
    }
}

/// A service after a tick of a restart pass: a restarting service with
/// delay left counts down, one without is due.
pub open spec fn ticked(svc: Service) -> Service {
    if svc.state == SvcState::Restarting && svc.restart_delay > 0 {
        Service { restart_delay: (svc.restart_delay - 1) as u32, ..svc }
    } else {
        svc
    }
}

/// The services, among the first `n`, whose restart is due.
pub open spec fn due_list(s: Seq<Service>, n: int) -> Seq<usize>
    decreases n,
{
    if n <= 0 {
        Seq::empty()
    } else {
        due_list(s, n - 1) + if s[n - 1].state == SvcState::Restarting && s[n - 1].restart_delay == 0 {
            seq![(n - 1) as usize]
        } else {
            Seq::empty()
        }
    }
}

impl Supervisor {
    #[verifier::type_invariant]
    spec fn inv(self) -> bool {
        self.table@.len() <= MAX_SERVICES
    }

    /// Move the table out, leaving an empty one.
    fn take(&mut self) -> (t: Vec<Service>)
        ensures
            t@ == old(self)@,
            t@.len() <= MAX_SERVICES,
    {
        let mut e = Supervisor::new();
        std::mem::swap(self, &mut e);
        proof { use_type_invariant(&e); }
        e.table
    }

    /// An empty table.
    pub fn new() -> (s: Self)
        ensures
            s@ == Seq::<Service>::empty(),
    {
        Supervisor { table: Vec::new() }
    }

    /// The registered services, in order.
    pub fn services(&self) -> (s: &[Service])
        ensures
            s@ == self@,
            s@.len() <= MAX_SERVICES,
    {
        proof { use_type_invariant(self); }
        self.table.as_slice()
    }

    /// Add a service at the end of the table; a full table is left unchanged.
    pub fn register(&mut self, svc: Service)
        ensures
            final(self)@ == if old(self)@.len() < MAX_SERVICES { old(self)@.push(svc) } else { old(self)@ },
    {
        let mut table = self.take();
        if table.len() < MAX_SERVICES {
            table.push(svc);
        }
        *self = Supervisor { table };
    }

    /// The services to spawn at boot: those that start automatically and are
    /// stopped, in table order. The caller spawns each, records the result,
    /// and then journals the table once, whatever was spawned.
    pub fn start_all(&self) -> (plan: StartPlan)
        ensures
            plan.spawn@ == start_list(self@, self@.len() as int),
            plan.journal,
    {
        let mut out: Vec<usize> = Vec::new();
        let mut k: usize = 0;
        while k < self.table.len()
            invariant
                k <= self@.len(),
                self@ == self.table@,
                out@ == start_list(self@, k as int),
            decreases self@.len() - k,
        {
            let s = self.table[k];
            if s.auto_start && s.state == SvcState::Stopped {
                out.push(k);
            }
            k += 1;
            assert(out@ =~= start_list(self@, k as int));
        }
        StartPlan { spawn: out, journal: true }
    }

    /// Record the kernel's answer to spawning service `idx` (a process id, or
    /// negative when it refused) and say so.
    pub fn record_spawn(&mut self, idx: usize, pid_raw: isize) -> (speech: Vec<u8>)
        requires
            idx < old(self)@.len(),
        ensures
            final(self)@ == old(self)@.update(idx as int, spawned(old(self)@[idx as int], pid_raw)),
            speech@ == if pid_raw < 0 {
                msg_spawn_failed(spec_prog_name(old(self)@[idx as int].program_id))
            } else {
                msg_spawning(spec_prog_name(old(self)@[idx as int].program_id), pid_raw as u32)
            },
    {
        let mut table = self.take();
        let mut svc = table[idx];
        let speech;
        if pid_raw < 0 {
            speech = say_spawn_failed(svc.name_bytes());
            svc.state = SvcState::Failed;
        } else {
            svc.pid = pid_raw as u32;
            svc.state = SvcState::Running;
            speech = say_spawning(svc.name_bytes(), svc.pid);
        }
        table.set(idx, svc);
        *self = Supervisor { table };
        speech
    }

    /// Handle the result of waiting for a child: `reaped` is the process that
    /// exited (zero or negative when there was none) and `status` its exit
    /// status. Status 42 asks to halt and 43 to reboot; otherwise the exited
    /// service's policy applies, and after the framebuffer test stops the
    /// stopped window manager is to be spawned.
    pub fn reap_pass(&mut self, reaped: isize, status: i32) -> (out: ReapOutcome)
        ensures
            reaped <= 0 ==> out.flow == ControlFlow::Continue && out.speech@.len() == 0
                && out.spawn is None && !out.journal && final(self)@ == old(self)@,
            reaped > 0 && status == 42 ==> out.flow == ControlFlow::Halt && out.speech@ == msg_halt()
                && out.spawn is None && !out.journal && final(self)@ == old(self)@,
            reaped > 0 && status == 43 ==> out.flow == ControlFlow::Reboot && out.speech@ == msg_reboot()
                && out.spawn is None && !out.journal && final(self)@ == old(self)@,
            reaped > 0 && status != 42 && status != 43 ==> {
                let dead = reaped as u32;
                let old_s = old(self)@;
                &&& out.flow == ControlFlow::Continue
                &&& out.journal
                &&& match first_from(old_s, |s: Service| s.pid == dead, 0) {
                    None => final(self)@ == old_s && out.speech@.len() == 0 && out.spawn is None,
                    Some(k) => {
                        let svc = old_s[k];
                        let new_svc = exited(svc, status);
                        let name = spec_prog_name(svc.program_id);
                        &&& final(self)@ == old_s.update(k, new_svc)
                        &&& out.speech@ == msg_exited(name, status) + if should_restart(svc.policy, status) {
                            msg_restarting(name, new_svc.restart_count)
                        } else {
                            msg_stopped_policy(name)
                        }
                        &&& out.spawn == if !should_restart(svc.policy, status) && svc.program_id == PROG_FBTEST {
                            match first_from(final(self)@, |s: Service| s.program_id == PROG_WM && s.state == SvcState::Stopped, 0) {
                                Some(j) => Some(j as usize),
                                None => None::<usize>,
                            }
                        } else {
                            None::<usize>
                        }
                    },
                }
            },
    {
        proof { use_type_invariant(&*self); }
        if reaped <= 0 {
            return ReapOutcome { flow: ControlFlow::Continue, speech: Vec::new(), spawn: None, journal: false };
        }
        if status == 42 {
            return ReapOutcome { flow: ControlFlow::Halt, speech: say_halt(), spawn: None, journal: false };
        }
        if status == 43 {
            return ReapOutcome { flow: ControlFlow::Reboot, speech: say_reboot(), spawn: None, journal: false };
        }
        let dead = reaped as u32;
        let mut table = self.take();
        let ghost old_s = table@;
        let ghost is_dead = |s: Service| s.pid == dead;
        let mut k: usize = 0;
        while k < table.len()
            invariant
                table@ == old_s,
                k <= old_s.len(),
                is_dead == (|s: Service| s.pid == dead),
                first_from(old_s, is_dead, 0) == first_from(old_s, is_dead, k as int),
            ensures
                k <= old_s.len(),
                k < old_s.len() ==> old_s[k as int].pid == dead,
                first_from(old_s, is_dead, 0) == first_from(old_s, is_dead, k as int),
            decreases old_s.len() - k,
        {
            if table[k].pid == dead {
                break;
            }
            k += 1;
        }
        if k == table.len() {
            *self = Supervisor { table };
            return ReapOutcome { flow: ControlFlow::Continue, speech: Vec::new(), spawn: None, journal: true };
        }
        assert(first_from(old_s, is_dead, k as int) == Some(k as int));
        let mut svc = table[k];
        svc.pid = 0;
        svc.last_exit = status;
        let mut speech = say_exited(svc.name_bytes(), status);
        let restart = match svc.policy {
            RestartPolicy::Never => false,
            RestartPolicy::OnFailure => status != 0,
            RestartPolicy::Always => true,
        };
        let mut chain_wm = false;
        if restart {
            svc.state = SvcState::Restarting;
            svc.restart_delay = backoff_ticks(svc.restart_count);
            svc.restart_count = svc.restart_count.saturating_add(1);
            let more = say_restarting(svc.name_bytes(), svc.restart_count);
            push_bytes(&mut speech, more.as_slice());
        } else {
            svc.state = SvcState::Stopped;
            let more = say_stopped_policy(svc.name_bytes());
            push_bytes(&mut speech, more.as_slice());
            if svc.program_id == PROG_FBTEST {
                chain_wm = true;
            }
        }
        table.set(k, svc);
        assert(table@ == old_s.update(k as int, exited(old_s[k as int], status)));
        let mut spawn: Option<usize> = None;
        if chain_wm {
            let ghost new_s = table@;
            let ghost is_wm = |s: Service| s.program_id == PROG_WM && s.state == SvcState::Stopped;
            let mut j: usize = 0;
            while j < table.len()
                invariant_except_break
                    spawn is None,
                invariant
                    table@ == new_s,
                    j <= new_s.len(),
                    is_wm == (|s: Service| s.program_id == PROG_WM && s.state == SvcState::Stopped),
                    first_from(new_s, is_wm, 0) == first_from(new_s, is_wm, j as int),
                ensures
                    j <= new_s.len(),
                    first_from(new_s, is_wm, 0) == first_from(new_s, is_wm, j as int),
                    j < new_s.len() ==> spawn == Some(j) && is_wm(new_s[j as int]),
                    j == new_s.len() ==> spawn is None,
                decreases new_s.len() - j,
            {
                let s = table[j];
                if s.program_id == PROG_WM && s.state == SvcState::Stopped {
                    spawn = Some(j);
                    break;
                }
                j += 1;
            }
            assert(spawn == match first_from(new_s, is_wm, 0) {
                Some(j) => Some(j as usize),
                None => None::<usize>,
            });
        }
        *self = Supervisor { table };
        ReapOutcome { flow: ControlFlow::Continue, speech, spawn, journal: true }
    }

    /// The journal record of the table: the number of services, then 24
    /// bytes per service (see `journal_entry`).
    pub fn journal_state(&self) -> (rec: Vec<u8>)
        ensures
            rec@ == journal_record(self@),
    {
        proof { use_type_invariant(self); }
        let mut buf: Vec<u8> = Vec::new();
        buf.push(self.table.len() as u8);
        let mut k: usize = 0;
        while k < self.table.len()
            invariant
                k <= self@.len(),
                self@ == self.table@,
                self@.len() <= MAX_SERVICES,
                buf@ == seq![self@.len() as u8] + journal_entries(self@, k as int),
            decreases self@.len() - k,
        {
            let s = self.table[k];
            let ghost before = buf@;
            push_le(&mut buf, s.program_id as u64, 4);
            push_le(&mut buf, s.pid as u64, 4);
            buf.push(match s.state {
                SvcState::Stopped => 0u8,
                SvcState::Running => 1u8,
                SvcState::Restarting => 2u8,
                SvcState::Failed => 3u8,
            });
            buf.push(match s.policy {
                RestartPolicy::Never => 0u8,
                RestartPolicy::OnFailure => 1u8,
                RestartPolicy::Always => 2u8,
            });
            push_le(&mut buf, s.restart_count as u64, 2);
            push_le(&mut buf, (s.last_exit as u32) as u64, 4);
            push_le(&mut buf, s.cap_mask, 8);
            k += 1;
            assert(buf@ =~= before + journal_entry(self@[k - 1]));
            assert(buf@ =~= seq![self@.len() as u8] + journal_entries(self@, k as int));
        }
        buf
    }

    /// A tick of the restart clock: every restarting service with delay left
    /// counts down; those without are due and returned, in table order. The
    /// caller spawns each, records the results and journals the table when
    /// any was due.
    pub fn restart_pass(&mut self) -> (plan: RestartPlan)
        ensures
            final(self)@ == old(self)@.map_values(|s: Service| ticked(s)),
            plan.due@ == due_list(old(self)@, old(self)@.len() as int),
            plan.journal == (plan.due@.len() > 0),
    {
        let mut table = self.take();
        let ghost old_s = table@;
        let mut due: Vec<usize> = Vec::new();
        let mut k: usize = 0;
        while k < table.len()
            invariant
                k <= old_s.len(),
                table@.len() == old_s.len(),
                old_s.len() <= MAX_SERVICES,
                forall|i: int| 0 <= i < k ==> #[trigger] table@[i] == ticked(old_s[i]),
                forall|i: int| k <= i < old_s.len() ==> #[trigger] table@[i] == old_s[i],
                due@ == due_list(old_s, k as int),
            decreases old_s.len() - k,
        {
            let mut s = table[k];
            if s.state == SvcState::Restarting {
                if s.restart_delay > 0 {
                    s.restart_delay = s.restart_delay - 1;
                    table.set(k, s);
                } else {
                    due.push(k);
                }
            }
            k += 1;
            assert(due@ =~= due_list(old_s, k as int));
        }
        assert(table@ =~= old_s.map_values(|s: Service| ticked(s)));
        *self = Supervisor { table };
        let journal = due.len() > 0;
        RestartPlan { due, journal }
    }
}

/// Exponential backoff: 0, 200, 400, 800, ... ticks, capped at 8000.
pub fn backoff_ticks(restart_count: u16) -> (ticks: u32)
    ensures
        ticks == spec_backoff(restart_count),
{
    if restart_count == 0 {
        return 0;
    }
    let shift: u32 = if restart_count < 7 { (restart_count - 1) as u32 } else { 6 };
    assert(200u32 << shift == 200 * vstd::arithmetic::power2::pow2(shift as nat)) by {
        vstd::arithmetic::power2::lemma2_to64();
        vstd::bits::lemma_u32_shl_is_mul(200, shift);
    }
    let b = 200u32 << shift;
    if b < 8000 { b } else { 8000 }
}

/// The default services: the window manager (restarted on failure, started
/// at boot), the terminal and the monitor (started on demand), each with
/// its capability mask.
pub fn default_supervisor(wm_caps: u64, terminal_caps: u64, monitor_caps: u64) -> (sv: Supervisor)
    ensures
        sv@ == seq![
            Service { program_id: PROG_WM, pid: 0, state: SvcState::Stopped, policy: RestartPolicy::OnFailure,
                auto_start: true, restart_count: 0, restart_delay: 0, last_exit: 0, cap_mask: wm_caps },
            Service { program_id: PROG_TERMINAL, pid: 0, state: SvcState::Stopped, policy: RestartPolicy::Never,
                auto_start: false, restart_count: 0, restart_delay: 0, last_exit: 0, cap_mask: terminal_caps },
            Service { program_id: 5, pid: 0, state: SvcState::Stopped, policy: RestartPolicy::Never,
                auto_start: false, restart_count: 0, restart_delay: 0, last_exit: 0, cap_mask: monitor_caps },
        ],
{
    let mut sv = Supervisor::new();
    sv.register(Service::new(PROG_WM, "wm".as_bytes(), RestartPolicy::OnFailure, true, wm_caps));
    sv.register(Service::new(PROG_TERMINAL, "terminal".as_bytes(), RestartPolicy::Never, false, terminal_caps));
    sv.register(Service::new(5, "monitor".as_bytes(), RestartPolicy::Never, false, monitor_caps));
    assert(sv@ =~= seq![
        Service { program_id: PROG_WM, pid: 0, state: SvcState::Stopped, policy: RestartPolicy::OnFailure,
            auto_start: true, restart_count: 0, restart_delay: 0, last_exit: 0, cap_mask: wm_caps },
        Service { program_id: PROG_TERMINAL, pid: 0, state: SvcState::Stopped, policy: RestartPolicy::Never,
            auto_start: false, restart_count: 0, restart_delay: 0, last_exit: 0, cap_mask: terminal_caps },
        Service { program_id: 5, pid: 0, state: SvcState::Stopped, policy: RestartPolicy::Never,
            auto_start: false, restart_count: 0, restart_delay: 0, last_exit: 0, cap_mask: monitor_caps },
    ]);
    sv
}

} // verus!
