//! Cogman's control messages: any process can ask for the service table,
//! the status, a stop, or the adviser's answer to a question. Each message
//! is answered with what Cogman says on the console.

use vstd::prelude::*;
use crate::cogman::advisor::{ask, ask_reply, Query, QueryContext, MAX_RESPONSE};
use crate::cogman::advisor::local::LocalModel;
use crate::cogman::persona::{dec, msg_ipc_unknown, push_bytes, push_dec, push_text, say_ipc_unknown, t};
use crate::cogman::supervisor::{spec_prog_name, Service, SvcState, Supervisor};

verus! {

/// Stop a service (payload: its program id, little-endian).
pub const COG_CTRL_STOP: u8 = 0x41;
/// Report the status.
pub const COG_CTRL_STATUS: u8 = 0x42;
/// List the service table.
pub const COG_CTRL_LIST: u8 = 0x43;
/// A response from Cogman.
pub const COG_RESP: u8 = 0x44;
/// Ask the adviser (payload: the question, zero-terminated).
pub const COG_CTRL_ASK: u8 = 0x45;

/// Bytes of a control message's payload.
pub const PAYLOAD_LEN: usize = 56;

/// The label of a state in the service list (ten columns).
pub open spec fn state_label(s: SvcState) -> Seq<u8> {
    match s {
        SvcState::Running => t("running   "),
        SvcState::Stopped => t("stopped   "),
        SvcState::Restarting => t("restarting"),
        SvcState::Failed => t("failed    "),
    }
}

/// One line of the service list.
pub open spec fn service_line(s: Service) -> Seq<u8> {
    t("  [") + state_label(s.state) + t("] ") + spec_prog_name(s.program_id)
        + (if s.pid > 0 { t(" pid=") + dec(s.pid as nat) } else { Seq::empty() }) + t("\r\n")
}

/// The lines of the first `n` services.
pub open spec fn service_lines(s: Seq<Service>, n: int) -> Seq<u8>
    decreases n,
{
    if n <= 0 { Seq::empty() } else { service_lines(s, n - 1) + service_line(s[n - 1]) }
}

/// The length of the question in an ask payload: up to its first zero byte,
/// or 55 bytes when there is none.
pub open spec fn question_len(p: Seq<u8>) -> int {
    if exists|i: int| 0 <= i < p.len() && p[i] == 0 {
        choose|i: int| 0 <= i < p.len() && p[i] == 0 && forall|j: int| 0 <= j < i ==> p[j] != 0
    } else {
        55
    }
}

/// The little-endian `u32` in the first four bytes of `p`.
pub open spec fn le_u32(p: Seq<u8>) -> u32 {
    (p[0] as u32) | ((p[1] as u32) << 8u32) | ((p[2] as u32) << 16u32) | ((p[3] as u32) << 24u32)
}

/// What Cogman says in answer to a control message of type `ty`.
pub open spec fn control_speech(table: Seq<Service>, ty: u8, payload: Seq<u8>, model: LocalModel) -> Seq<u8> {
    if ty == COG_CTRL_LIST {
        t("[Cogman] Service table:\r\n") + service_lines(table, table.len() as int)
    } else if ty == COG_CTRL_STATUS {
        t("[Cogman] Running. All services nominal.\r\n")
    } else if ty == COG_CTRL_ASK {
        let q = payload.subrange(0, question_len(payload));
        let reply = ask_reply(q, false, model, false);
        let shown = if reply.len() <= MAX_RESPONSE { reply } else { reply.subrange(0, MAX_RESPONSE as int) };
        t("[Cogman] ") + shown + t("\r\n")
    } else if ty == COG_CTRL_STOP {
        t("[Cogman] Stopping service with program_id=") + dec(le_u32(payload) as nat)
            + t(" (not yet implemented - coming presently).\r\n")
    } else {
        msg_ipc_unknown(ty)
    }
}

/// Handle a control message: list the services, report the status, answer
/// a question (without cloud opt-in), announce a stop, or note an unknown
/// message type.
pub fn handle_ipc(sv: &Supervisor, msg_type: u8, payload: &[u8], model: &LocalModel) -> (speech: Vec<u8>)
    requires
        payload@.len() == PAYLOAD_LEN,
    ensures
        speech@ == control_speech(sv@, msg_type, payload@, *model),
{
    if msg_type == COG_CTRL_LIST {
        let mut v: Vec<u8> = Vec::new();
        push_text(&mut v, "[Cogman] Service table:\r\n");
        let services = sv.services();
        let mut k: usize = 0;
        while k < services.len()
            invariant
                k <= services@.len(),
                services@ == sv@,
                v@ == t("[Cogman] Service table:\r\n") + service_lines(sv@, k as int),
            decreases services@.len() - k,
        {
            let s = services[k];
            let ghost before = v@;
            push_text(&mut v, "  [");
            match s.state {
                SvcState::Running => push_text(&mut v, "running   "),
                SvcState::Stopped => push_text(&mut v, "stopped   "),
                SvcState::Restarting => push_text(&mut v, "restarting"),
                SvcState::Failed => push_text(&mut v, "failed    "),
            }
            push_text(&mut v, "] ");
            push_bytes(&mut v, s.name_bytes());
            if s.pid > 0 {
                push_text(&mut v, " pid=");
                push_dec(&mut v, s.pid);
            }
            push_text(&mut v, "\r\n");
            k += 1;
            assert(v@ =~= before + service_line(sv@[k - 1]));
            assert(v@ =~= t("[Cogman] Service table:\r\n") + service_lines(sv@, k as int));
        }
        v
    } else if msg_type == COG_CTRL_STATUS {
        let mut v: Vec<u8> = Vec::new();
        push_text(&mut v, "[Cogman] Running. All services nominal.\r\n");
        v
    } else if msg_type == COG_CTRL_ASK {
        let mut n: usize = 0;
        while n < payload.len() && payload[n] != 0
            invariant
                n <= payload@.len(),
                forall|j: int| 0 <= j < n ==> payload@[j] != 0,
            decreases payload@.len() - n,
        {
            n += 1;
        }
        let qlen = if n < payload.len() { n } else { 55 };
        proof {
            if n < payload@.len() {
                assert(payload@[n as int] == 0);
                let c = choose|i: int| 0 <= i < payload@.len() && payload@[i] == 0 && forall|j: int| 0 <= j < i ==> payload@[j] != 0;
                assert(c == n) by {
                    if c < n { assert(payload@[c] != 0); }
                    if c > n { assert(payload@[n as int] != 0); }
                }
            }
        }
        let text = slice_prefix(payload, qlen);
        let query = Query { text: text.as_slice(), context: QueryContext { pentest_mode: false, cloud_opt_in: false } };
        let mut resp = [0u8; MAX_RESPONSE];
        let (len, side) = ask(&query, &mut resp, model);
        assert(side@ == Seq::<u8>::empty());
        let mut v: Vec<u8> = Vec::new();
        push_text(&mut v, "[Cogman] ");
        let shown = slice_prefix(resp.as_slice(), len);
        push_bytes(&mut v, shown.as_slice());
        push_text(&mut v, "\r\n");
        let ghost reply = ask_reply(text@, false, *model, false);
        assert(shown@ =~= if reply.len() <= MAX_RESPONSE { reply } else { reply.subrange(0, MAX_RESPONSE as int) });
        v
    } else if msg_type == COG_CTRL_STOP {
        let prog_id: u32 = (payload[0] as u32) | ((payload[1] as u32) << 8) | ((payload[2] as u32) << 16)
            | ((payload[3] as u32) << 24);
        let mut v: Vec<u8> = Vec::new();
        push_text(&mut v, "[Cogman] Stopping service with program_id=");
        push_dec(&mut v, prog_id);
        push_text(&mut v, " (not yet implemented - coming presently).\r\n");
        v
    } else {
        say_ipc_unknown(msg_type)
    }
}

/// The first `n` bytes of `s`.
fn slice_prefix(s: &[u8], n: usize) -> (out: Vec<u8>)
    requires
        n <= s@.len(),
    ensures
        out@ == s@.subrange(0, n as int),
{
    let mut out: Vec<u8> = Vec::new();
    let mut i: usize = 0;
    while i < n
        invariant
            n <= s@.len(),
            i <= n,
            out@ == s@.subrange(0, i as int),
        decreases n - i,
    {
        out.push(s[i]);
        i += 1;
        assert(out@ =~= s@.subrange(0, i as int));
    }
    out
}

} // verus!
