//! Cogman's British persona: every sentence Cogman utters is built here.
//! Keeps the rest of the code free of raw byte literals and makes the
//! persona easy to adjust. Each function returns the bytes to write to the
//! console; writing them is the caller's part.

use vstd::prelude::*;
use vstd::string::StringSliceAdditionalSpecFns;

verus! {

/// The bytes of a text.
pub open spec fn t(s: &str) -> Seq<u8> {
    s.spec_bytes()
}

/// The ASCII code of decimal digit `d`.
pub open spec fn digit(d: nat) -> u8 {
    (48 + d) as u8
}

/// The decimal representation of `n`, without leading zeros ("0" for zero).
pub open spec fn dec(n: nat) -> Seq<u8>
    decreases n,
{
    if n < 10 {
        seq![digit(n)]
    } else {
        dec(n / 10).push(digit(n % 10))
    }
}

/// The lowercase hexadecimal digit of a nibble.
pub open spec fn hex_digit(n: u8) -> u8 {
    if n < 10 { (48 + n) as u8 } else { (97 + n - 10) as u8 }
}

/// Append a text to `v`.
pub fn push_text(v: &mut Vec<u8>, s: &str)
    ensures
        final(v)@ == old(v)@ + t(s),
{
    let b = s.as_bytes();
    v.extend_from_slice(b);
    assert(final(v)@ =~= old(v)@ + t(s));
}

/// Append bytes to `v`.
pub fn push_bytes(v: &mut Vec<u8>, b: &[u8])
    ensures
        final(v)@ == old(v)@ + b@,
{
    v.extend_from_slice(b);
    assert(final(v)@ =~= old(v)@ + b@);
}

/// Append the decimal representation of `n` to `v`.
pub fn push_dec(v: &mut Vec<u8>, n: u32)
    ensures
        final(v)@ == old(v)@ + dec(n as nat),
    decreases n,
{
    if n >= 10 {
        push_dec(v, n / 10);
    }
    let d = (n % 10) as u8;
    v.push(48 + d);
    assert(final(v)@ =~= old(v)@ + dec(n as nat));
}

/// The decimal representation of `n`.
pub fn speak_u32(n: u32) -> (out: Vec<u8>)
    ensures
        out@ == dec(n as nat),
{
    let mut v: Vec<u8> = Vec::new();
    push_dec(&mut v, n);
    assert(v@ =~= dec(n as nat));
    v
}

/// The boot greeting: the banner and Cogman's introduction.
pub open spec fn greeting() -> Seq<u8> {
    t("\r\n")
        + t("  ____                  ___  ____\r\n")
        + t(" |  _ \\ ___   __ _ _  _|__ \\/ ___|\r\n")
        + t(" | |_) / _ \\ / _` | | | |/ /\\___ \\\r\n")
        + t(" |  _ < (_) | (_| | |_| / /_ ___) |\r\n")
        + t(" |_| \\_\\___/ \\__, |\\__,_/____|____/\r\n")
        + t("              |___/\r\n")
        + t("\r\n")
        + t("  Cogman  -  Personal AI Assistant & System Butler\r\n")
        + t("  RogueOS  -  Built for developers, pentesters, and power users\r\n")
        + t("\r\n")
        + t("[Cogman] Good day. I'm Cogman, your system butler and personal adviser.\r\n")
        + t("[Cogman] I shall manage your processes and remain at your disposal.\r\n")
        + t("[Cogman] Privacy-first: your data stays local unless you decide otherwise.\r\n")
        + t("\r\n")
}

/// The boot greeting.
pub fn greet() -> (out: Vec<u8>)
    ensures
        out@ == greeting(),
{
    let mut v: Vec<u8> = Vec::new();
    push_text(&mut v, "\r\n");
    push_text(&mut v, "  ____                  ___  ____\r\n");
    push_text(&mut v, " |  _ \\ ___   __ _ _  _|__ \\/ ___|\r\n");
    push_text(&mut v, " | |_) / _ \\ / _` | | | |/ /\\___ \\\r\n");
    push_text(&mut v, " |  _ < (_) | (_| | |_| / /_ ___) |\r\n");
    push_text(&mut v, " |_| \\_\\___/ \\__, |\\__,_/____|____/\r\n");
    push_text(&mut v, "              |___/\r\n");
    push_text(&mut v, "\r\n");
    push_text(&mut v, "  Cogman  -  Personal AI Assistant & System Butler\r\n");
    push_text(&mut v, "  RogueOS  -  Built for developers, pentesters, and power users\r\n");
    push_text(&mut v, "\r\n");
    push_text(&mut v, "[Cogman] Good day. I'm Cogman, your system butler and personal adviser.\r\n");
    push_text(&mut v, "[Cogman] I shall manage your processes and remain at your disposal.\r\n");
    push_text(&mut v, "[Cogman] Privacy-first: your data stays local unless you decide otherwise.\r\n");
    push_text(&mut v, "\r\n");
    v
}

pub open spec fn msg_spawning(name: Seq<u8>, pid: u32) -> Seq<u8> {
    t("[Cogman] Bringing up ") + name + t("  (pid=") + dec(pid as nat) + t(")\r\n")
}

/// A service is being started with process `pid`.
pub fn say_spawning(name: &[u8], pid: u32) -> (out: Vec<u8>)
    ensures
        out@ == msg_spawning(name@, pid),
{
    let mut v: Vec<u8> = Vec::new();
    push_text(&mut v, "[Cogman] Bringing up ");
    push_bytes(&mut v, name);
    push_text(&mut v, "  (pid=");
    push_dec(&mut v, pid);
    push_text(&mut v, ")\r\n");
    v
}

pub open spec fn msg_spawn_failed(name: Seq<u8>) -> Seq<u8> {
    t("[Cogman] I'm afraid I couldn't start ") + name + t(". I shall try again presently.\r\n")
}

/// A service could not be started.
pub fn say_spawn_failed(name: &[u8]) -> (out: Vec<u8>)
    ensures
        out@ == msg_spawn_failed(name@),
{
    let mut v: Vec<u8> = Vec::new();
    push_text(&mut v, "[Cogman] I'm afraid I couldn't start ");
    push_bytes(&mut v, name);
    push_text(&mut v, ". I shall try again presently.\r\n");
    v
}

pub open spec fn msg_exited(name: Seq<u8>, status: i32) -> Seq<u8> {
    t("[Cogman] ") + name + t(" has stepped out (exit=") + dec((status as u32) as nat) + t(")\r\n")
}

/// A service exited with `status` (shown as an unsigned number).
pub fn say_exited(name: &[u8], status: i32) -> (out: Vec<u8>)
    ensures
        out@ == msg_exited(name@, status),
{
    let mut v: Vec<u8> = Vec::new();
    push_text(&mut v, "[Cogman] ");
    push_bytes(&mut v, name);
    push_text(&mut v, " has stepped out (exit=");
    push_dec(&mut v, status as u32);
    push_text(&mut v, ")\r\n");
    v
}

pub open spec fn msg_restarting(name: Seq<u8>, count: u16) -> Seq<u8> {
    t("[Cogman] Restarting ") + name + t(". This is restart number ") + dec(count as nat) + t(".\r\n")
}

/// A service is being restarted for the `count`-th time.
pub fn say_restarting(name: &[u8], count: u16) -> (out: Vec<u8>)
    ensures
        out@ == msg_restarting(name@, count),
{
    let mut v: Vec<u8> = Vec::new();
    push_text(&mut v, "[Cogman] Restarting ");
    push_bytes(&mut v, name);
    push_text(&mut v, ". This is restart number ");
    push_dec(&mut v, count as u32);
    push_text(&mut v, ".\r\n");
    v
}

pub open spec fn msg_stopped_policy(name: Seq<u8>) -> Seq<u8> {
    t("[Cogman] ") + name + t(" has exited cleanly and I shan't restart it per policy.\r\n")
}

/// A service exited and its policy does not restart it.
pub fn say_stopped_policy(name: &[u8]) -> (out: Vec<u8>)
    ensures
        out@ == msg_stopped_policy(name@),
{
    let mut v: Vec<u8> = Vec::new();
    push_text(&mut v, "[Cogman] ");
    push_bytes(&mut v, name);
    push_text(&mut v, " has exited cleanly and I shan't restart it per policy.\r\n");
    v
}

pub open spec fn msg_halt() -> Seq<u8> {
    t("\r\n[Cogman] Halt requested. Powering down now. Goodbye.\r\n\r\n")
}

/// Halt was requested.
pub fn say_halt() -> (out: Vec<u8>)
    ensures
        out@ == msg_halt(),
{
    let mut v: Vec<u8> = Vec::new();
    push_text(&mut v, "\r\n[Cogman] Halt requested. Powering down now. Goodbye.\r\n\r\n");
    v
}

pub open spec fn msg_reboot() -> Seq<u8> {
    t("\r\n[Cogman] Reboot requested. Back in a moment.\r\n\r\n")
}

/// Reboot was requested.
pub fn say_reboot() -> (out: Vec<u8>)
    ensures
        out@ == msg_reboot(),
{
    let mut v: Vec<u8> = Vec::new();
    push_text(&mut v, "\r\n[Cogman] Reboot requested. Back in a moment.\r\n\r\n");
    v
}

pub open spec fn msg_waitpid_error() -> Seq<u8> {
    t("[Cogman] Beg pardon — waitpid returned an error. Carrying on.\r\n")
}

/// Waiting for a child failed.
pub fn say_waitpid_error() -> (out: Vec<u8>)
    ensures
        out@ == msg_waitpid_error(),
{
    let mut v: Vec<u8> = Vec::new();
    push_text(&mut v, "[Cogman] Beg pardon — waitpid returned an error. Carrying on.\r\n");
    v
}

pub open spec fn msg_advisor_ready(mode: Seq<u8>) -> Seq<u8> {
    t("[Cogman] Adviser online (") + mode + t("). Ask away whenever you're ready.\r\n")
}

/// The adviser is online in `mode`.
pub fn say_advisor_ready(mode: &[u8]) -> (out: Vec<u8>)
    ensures
        out@ == msg_advisor_ready(mode@),
{
    let mut v: Vec<u8> = Vec::new();
    push_text(&mut v, "[Cogman] Adviser online (");
    push_bytes(&mut v, mode);
    push_text(&mut v, "). Ask away whenever you're ready.\r\n");
    v
}

pub open spec fn msg_advisor_local_only() -> Seq<u8> {
    t("[Cogman] Running in local-only mode. Your queries never leave this machine.\r\n")
}

/// The adviser runs on a local model only.
pub fn say_advisor_local_only() -> (out: Vec<u8>)
    ensures
        out@ == msg_advisor_local_only(),
{
    let mut v: Vec<u8> = Vec::new();
    push_text(&mut v, "[Cogman] Running in local-only mode. Your queries never leave this machine.\r\n");
    v
}

pub open spec fn msg_advisor_cloud_available() -> Seq<u8> {
    t("[Cogman] Cloud inference is available. I'll ask locally first, cloud as a fallback — with your permission.\r\n")
}

/// Cloud inference can be used as a fallback.
pub fn say_advisor_cloud_available() -> (out: Vec<u8>)
    ensures
        out@ == msg_advisor_cloud_available(),
{
    let mut v: Vec<u8> = Vec::new();
    push_text(&mut v, "[Cogman] Cloud inference is available. I'll ask locally first, cloud as a fallback — with your permission.\r\n");
    v
}

pub open spec fn msg_advisor_privacy_strip() -> Seq<u8> {
    t("[Cogman] I've scrubbed any sensitive tokens before that query left the box.\r\n")
}

/// Sensitive tokens were scrubbed from a query before it left.
pub fn say_advisor_privacy_strip() -> (out: Vec<u8>)
    ensures
        out@ == msg_advisor_privacy_strip(),
{
    let mut v: Vec<u8> = Vec::new();
    push_text(&mut v, "[Cogman] I've scrubbed any sensitive tokens before that query left the box.\r\n");
    v
}

pub open spec fn msg_no_network() -> Seq<u8> {
    t("[Cogman] No network stack yet, I'm afraid. Adviser running in local-model mode only.\r\n")
}

/// There is no network stack.
pub fn say_no_network() -> (out: Vec<u8>)
    ensures
        out@ == msg_no_network(),
{
    let mut v: Vec<u8> = Vec::new();
    push_text(&mut v, "[Cogman] No network stack yet, I'm afraid. Adviser running in local-model mode only.\r\n");
    v
}

pub open spec fn msg_ipc_unknown(ty: u8) -> Seq<u8> {
    t("[Cogman] Received an unfamiliar IPC message (type=0x")
        + seq![hex_digit(ty / 16), hex_digit(ty % 16)]
        + t("). Ignoring it.\r\n")
}

/// The lowercase hexadecimal digit of a nibble.
fn nibble(n: u8) -> (d: u8)
    requires
        n < 16,
    ensures
        d == hex_digit(n),
{
    if n < 10 { 48 + n } else { 97 + n - 10 }
}

/// An IPC message of unknown type `ty` arrived (type shown in hexadecimal).
pub fn say_ipc_unknown(ty: u8) -> (out: Vec<u8>)
    ensures
        out@ == msg_ipc_unknown(ty),
{
    let mut v: Vec<u8> = Vec::new();
    push_text(&mut v, "[Cogman] Received an unfamiliar IPC message (type=0x");
    let hi = ty >> 4;
    let lo = ty & 0x0f;
    assert(hi == ty / 16 && lo == ty % 16) by (bit_vector)
        requires hi == ty >> 4, lo == ty & 0x0f;
    v.push(nibble(hi));
    v.push(nibble(lo));
    push_text(&mut v, "). Ignoring it.\r\n");
    assert(v@ =~= msg_ipc_unknown(ty));
    v
}

} // verus!
