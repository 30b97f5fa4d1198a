//! The adviser: Cogman's assistant interface.
//!
//! Query → privacy filter → local model or cloud → response. In order:
//!   1. With a local model loaded, use it: nothing leaves the machine.
//!   2. With cloud opted in and a network, strip what can be stripped and ask the cloud.
//!   3. Otherwise, decline politely and explain.
//! Sensitive material never leaves the machine.

pub mod cloud;
pub mod local;

use vstd::prelude::*;
use vstd::string::StringSliceAdditionalSpecFns;
use crate::cogman::persona::{
    msg_advisor_cloud_available, msg_advisor_local_only, msg_advisor_privacy_strip, msg_advisor_ready,
    msg_no_network, push_bytes, say_advisor_cloud_available, say_advisor_local_only, say_advisor_privacy_strip,
    say_advisor_ready, say_no_network, t,
};
use crate::cogman::advisor::local::{local_reply, replied, LocalModel};
use crate::cogman::advisor::cloud::no_network_reply;

verus! {

/// Maximum query length (bytes) accepted from any source.
pub const MAX_QUERY: usize = 1024;

/// Maximum response length (bytes) that can be buffered.
pub const MAX_RESPONSE: usize = 4096;

/// Where the adviser can send a query.
#[derive(Copy, Clone, Debug, PartialEq, Eq, Structural)]
pub enum AdvisorBackend {
    /// Local model loaded into memory.
    Local,
    /// The cloud API (requires networking and an API key on disk).
    Cloud,
    /// No backend available: the adviser is offline.
    Offline,
}

/// Privacy classification of a query before it leaves the machine.
#[derive(Copy, Clone, Debug, PartialEq, Eq, Structural)]
pub enum PrivacyClass {
    /// Safe to send as-is.
    Public,
    /// Contained redactable personal data: send after stripping.
    Redacted,
    /// Contains credentials, keys, or highly sensitive paths: local only.
    Sensitive,
}

/// A user query plus the context the adviser should know.
pub struct Query<'a> {
    pub text: &'a [u8],
    pub context: QueryContext,
}

#[derive(Copy, Clone, Debug)]
pub struct QueryContext {
    /// Whether the user is in a pentesting session.
    pub pentest_mode: bool,
    /// Whether the user has opted in to cloud fallback.
    pub cloud_opt_in: bool,
}

impl Default for QueryContext {
    fn default() -> (c: Self)
        ensures
            !c.pentest_mode && !c.cloud_opt_in,
    {
        QueryContext { pentest_mode: false, cloud_opt_in: false }
    }
}

/// Write `msg` into `out`, cut to the buffer; returns the length written.
pub fn write_reply(out: &mut [u8; MAX_RESPONSE], msg: &str) -> (n: usize)
    ensures
        replied(t(msg), old(out)@, final(out)@, n),
{
    let b = msg.as_bytes();
    let n = if b.len() < MAX_RESPONSE { b.len() } else { MAX_RESPONSE };
    let mut i: usize = 0;
    while i < n
        invariant
            n <= b@.len(),
            n <= MAX_RESPONSE,
            b@ == t(msg),
            i <= n,
            out@.len() == MAX_RESPONSE,
            forall|j: int| 0 <= j < i ==> out@[j] == b@[j],
            forall|j: int| i <= j < MAX_RESPONSE ==> out@[j] == old(out)@[j],
        decreases n - i,
    {
        out[i] = b[i];
        i += 1;
    }
    n
}

/// Whether `needle` occurs in `hay` (the empty needle always does).
pub open spec fn occurs(hay: Seq<u8>, needle: Seq<u8>) -> bool {
    exists|i: int| 0 <= i && i + needle.len() <= hay.len() && #[trigger] hay.subrange(i, i + needle.len()) == needle
}

/// Whether `needle` occurs in `haystack`.
pub fn contains_subsequence(haystack: &[u8], needle: &[u8]) -> (r: bool)
    ensures
        r == occurs(haystack@, needle@),
{
    if needle.len() == 0 {
        assert(haystack@.subrange(0, 0int + needle@.len()) =~= needle@);
        return true;
    }
    if needle.len() > haystack.len() {
        return false;
    }
    let mut i: usize = 0;
    while i <= haystack.len() - needle.len()
        invariant
            0 < needle@.len() <= haystack@.len(),
            i <= haystack@.len() - needle@.len() + 1,
            forall|k: int| 0 <= k < i ==> #[trigger] haystack@.subrange(k, k + needle@.len()) != needle@,
        decreases haystack@.len() - i,
    {
        if cloud::slice_eq_at(haystack, i, needle) {
            return true;
        }
        i += 1;
    }
    assert forall|k: int| 0 <= k && k + needle@.len() <= haystack@.len() implies
        #[trigger] haystack@.subrange(k, k + needle@.len()) != needle@ by {
        assert(k < i);
    }
    false
}

/// Markers of credentials and key material.
pub open spec fn sensitive_markers() -> Seq<Seq<u8>> {
    seq![
        t("BEGIN RSA"), t("BEGIN EC"), t("BEGIN PRIVATE"), t("sk-ant-"), t("ghp_"), t("password="),
        t("passwd="), t("secret="), t("token="), t("/etc/shadow"), t("/etc/passwd"), t(".ssh/id_"),
    ]
}

/// Markers of personal data that can be stripped: e-mail addresses and private networks.
pub open spec fn pii_markers() -> Seq<Seq<u8>> {
    seq![t("@"), t("192.168."), t("10.0."), t("172.16.")]
}

/// Whether one of `markers` occurs in `q`.
pub open spec fn any_occurs(q: Seq<u8>, markers: Seq<Seq<u8>>) -> bool {
    exists|m: int| 0 <= m < markers.len() && occurs(q, #[trigger] markers[m])
}

/// The privacy class of a query.
pub open spec fn spec_classify(q: Seq<u8>) -> PrivacyClass {
    if any_occurs(q, sensitive_markers()) {
        PrivacyClass::Sensitive
    } else if any_occurs(q, pii_markers()) {
        PrivacyClass::Redacted
    } else {
        PrivacyClass::Public
    }
}

/// Whether one of `markers` occurs in `q`.
fn any_marker(q: &[u8], markers: &[&str]) -> (r: bool)
    ensures
        r == any_occurs(q@, markers@.map_values(|m: &str| t(m))),
{
    let ghost ms = markers@.map_values(|m: &str| t(m));
    let mut i: usize = 0;
    while i < markers.len()
        invariant
            i <= markers@.len(),
            ms == markers@.map_values(|m: &str| t(m)),
            forall|k: int| 0 <= k < i ==> !occurs(q@, #[trigger] ms[k]),
        decreases markers@.len() - i,
    {
        let m = markers[i].as_bytes();
        if contains_subsequence(q, m) {
            assert(occurs(q@, ms[i as int]));
            return true;
        }
        i += 1;
    }
    false
}

/// Classify a query before deciding where to send it: key material and
/// credentials make it sensitive, personal data redactable.
pub fn classify(query: &[u8]) -> (c: PrivacyClass)
    ensures
        c == spec_classify(query@),
{
    let sensitive: [&str; 12] = [
        "BEGIN RSA", "BEGIN EC", "BEGIN PRIVATE", "sk-ant-", "ghp_", "password=",
        "passwd=", "secret=", "token=", "/etc/shadow", "/etc/passwd", ".ssh/id_",
    ];
    let pii: [&str; 4] = ["@", "192.168.", "10.0.", "172.16."];
    assert(sensitive@.map_values(|m: &str| t(m)) =~= sensitive_markers());
    assert(pii@.map_values(|m: &str| t(m)) =~= pii_markers());
    if any_marker(query, sensitive.as_slice()) {
        return PrivacyClass::Sensitive;
    }
    if any_marker(query, pii.as_slice()) {
        return PrivacyClass::Redacted;
    }
    PrivacyClass::Public
}

/// The markers after which a credential's value follows.
pub open spec fn value_markers() -> Seq<Seq<u8>> {
    seq![t("password="), t("passwd="), t("secret="), t("token=")]
}

/// The length of the first value marker (in the order above) that starts
/// at `i`; 0 when none does.
pub open spec fn marker_len_at(q: Seq<u8>, i: int) -> int {
    let ms = value_markers();
    if marker_at(q, i, ms[0]) {
        ms[0].len() as int
    } else if marker_at(q, i, ms[1]) {
        ms[1].len() as int
    } else if marker_at(q, i, ms[2]) {
        ms[2].len() as int
    } else if marker_at(q, i, ms[3]) {
        ms[3].len() as int
    } else {
        0
    }
}

/// `m` occurs in `q` at `i`.
pub open spec fn marker_at(q: Seq<u8>, i: int, m: Seq<u8>) -> bool {
    0 <= i && i + m.len() <= q.len() && q.subrange(i, i + m.len()) == m
}

/// The first place at or after `i` where a value marker starts.
pub open spec fn first_marker(q: Seq<u8>, i: int) -> Option<int>
    decreases q.len() - i,
{
    if i < 0 || i >= q.len() {
        None
    } else if marker_len_at(q, i) > 0 {
        Some(i)
    } else {
        first_marker(q, i + 1)
    }
}

/// The query with everything after its first credential marker replaced
/// by `[REDACTED]`; unchanged when it holds no marker.
pub open spec fn scrubbed(q: Seq<u8>) -> Seq<u8> {
    match first_marker(q, 0) {
        Some(p) => q.subrange(0, p + marker_len_at(q, p)) + t("[REDACTED]"),
        None => q,
    }
}

/// The redacted form of a query: scrubbed, then cut to `MAX_QUERY` bytes.
pub open spec fn spec_redacted(q: Seq<u8>) -> Seq<u8> {
    let s = scrubbed(q);
    if s.len() <= MAX_QUERY { s } else { s.subrange(0, MAX_QUERY as int) }
}

fn marker_here(q: &[u8], i: usize, m: &[u8]) -> (r: bool)
    ensures
        r == marker_at(q@, i as int, m@),
{
    if i > q.len() || m.len() > q.len() - i {
        return false;
    }
    crate::cogman::advisor::cloud::slice_eq_at(q, i, m)
}

fn marker_len(q: &[u8], i: usize) -> (n: usize)
    ensures
        n == marker_len_at(q@, i as int),
{
    let m0 = "password=".as_bytes();
    let m1 = "passwd=".as_bytes();
    let m2 = "secret=".as_bytes();
    let m3 = "token=".as_bytes();
    if marker_here(q, i, m0) {
        m0.len()
    } else if marker_here(q, i, m1) {
        m1.len()
    } else if marker_here(q, i, m2) {
        m2.len()
    } else if marker_here(q, i, m3) {
        m3.len()
    } else {
        0
    }
}

/// Write the redacted query into `out`: everything after the first
/// credential marker (`password=`, `passwd=`, `secret=`, `token=`) becomes
/// `[REDACTED]`, and at most `MAX_QUERY` bytes are kept. Returns its
/// length; the rest of `out` is unchanged.
pub fn redact(query: &[u8], out: &mut [u8; MAX_QUERY]) -> (n: usize)
    ensures
        n == spec_redacted(query@).len(),
        forall|i: int| 0 <= i < n ==> final(out)@[i] == spec_redacted(query@)[i],
        forall|i: int| n <= i < MAX_QUERY ==> final(out)@[i] == old(out)@[i],
{
    let mut p: usize = 0;
    let mut ml: usize = 0;
    while p < query.len()
        invariant_except_break
            first_marker(query@, 0) == first_marker(query@, p as int),
        invariant
            p <= query@.len(),
        ensures
            p < query@.len() ==> first_marker(query@, 0) == Some(p as int) && ml == marker_len_at(query@, p as int) && ml > 0,
            p >= query@.len() ==> first_marker(query@, 0) is None,
        decreases query@.len() - p,
    {
        ml = marker_len(query, p);
        if ml > 0 {
            break;
        }
        p += 1;
    }
    let mut text: Vec<u8> = Vec::new();
    let keep = if p < query.len() { p + ml } else { query.len() };
    proof {
        if p < query@.len() {
            assert(marker_at(query@, p as int, value_markers()[0]) || marker_at(query@, p as int, value_markers()[1])
                || marker_at(query@, p as int, value_markers()[2]) || marker_at(query@, p as int, value_markers()[3]));
        }
    }
    assert(keep <= query@.len());
    let mut i: usize = 0;
    while i < keep
        invariant
            keep <= query@.len(),
            i <= keep,
            text@ == query@.subrange(0, i as int),
        decreases keep - i,
    {
        text.push(query[i]);
        i += 1;
        assert(text@ =~= query@.subrange(0, i as int));
    }
    if p < query.len() {
        let tag = "[REDACTED]".as_bytes();
        let mut j: usize = 0;
        let ghost head = text@;
        while j < tag.len()
            invariant
                j <= tag@.len(),
                text@ == head + tag@.subrange(0, j as int),
            decreases tag@.len() - j,
        {
            text.push(tag[j]);
            j += 1;
            assert(text@ =~= head + tag@.subrange(0, j as int));
        }
        assert(tag@.subrange(0, tag@.len() as int) =~= tag@);
    }
    assert(query@.subrange(0, query@.len() as int) =~= query@);
    assert(text@ == scrubbed(query@));
    let n = if text.len() < MAX_QUERY { text.len() } else { MAX_QUERY };
    let mut k: usize = 0;
    while k < n
        invariant
            n <= text@.len(),
            n <= MAX_QUERY,
            k <= n,
            out@.len() == MAX_QUERY,
            forall|j: int| 0 <= j < k ==> out@[j] == text@[j],
            forall|j: int| k <= j < MAX_QUERY ==> out@[j] == old(out)@[j],
        decreases n - k,
    {
        out[k] = text[k];
        k += 1;
    }
    n
}

/// The backend in use: the local model when loaded, else the cloud when the
/// network is up, else none.
pub open spec fn spec_backend(model: LocalModel, network: bool) -> AdvisorBackend {
    if model.loaded() {
        AdvisorBackend::Local
    } else if network {
        AdvisorBackend::Cloud
    } else {
        AdvisorBackend::Offline
    }
}

/// Detect which backend is available right now.
pub fn detect_backend(model: &LocalModel) -> (b: AdvisorBackend)
    ensures
        b == spec_backend(*model, false),
{
    if local::is_model_loaded(model) {
        AdvisorBackend::Local
    } else if cloud::is_network_available() {
        AdvisorBackend::Cloud
    } else {
        AdvisorBackend::Offline
    }
}

/// What Cogman says about the adviser's backend.
pub open spec fn ready_speech(b: AdvisorBackend) -> Seq<u8> {
    match b {
        AdvisorBackend::Local => msg_advisor_ready(t("local model")) + msg_advisor_local_only(),
        AdvisorBackend::Cloud => msg_advisor_ready(t("cloud available")) + msg_advisor_cloud_available(),
        AdvisorBackend::Offline => msg_no_network(),
    }
}

/// Announce the adviser's backend status.
pub fn announce_ready(model: &LocalModel) -> (speech: Vec<u8>)
    ensures
        speech@ == ready_speech(spec_backend(*model, false)),
{
    match detect_backend(model) {
        AdvisorBackend::Local => {
            let mut v = say_advisor_ready("local model".as_bytes());
            let more = say_advisor_local_only();
            push_bytes(&mut v, more.as_slice());
            v
        },
        AdvisorBackend::Cloud => {
            let mut v = say_advisor_ready("cloud available".as_bytes());
            let more = say_advisor_cloud_available();
            push_bytes(&mut v, more.as_slice());
            v
        },
        AdvisorBackend::Offline => say_no_network(),
    }
}

/// The refusal of sensitive material without a local model.
pub open spec fn sensitive_reply() -> Seq<u8> {
    t("I'm afraid that query contains sensitive material. I can only handle it with a local model loaded. Ask `cogman load-model <path>` to load one.")
}

/// The answer when cloud is available but not opted in.
pub open spec fn opt_in_reply() -> Seq<u8> {
    t("Cloud inference is available but you haven't opted in. Run `cogman set cloud-opt-in true` if you'd like to enable it.")
}

/// The answer with no backend at all.
pub open spec fn offline_reply() -> Seq<u8> {
    t("I'm offline at the moment and have no local model loaded. Load a model with `cogman load-model <path>` to use the adviser.")
}

/// What the adviser answers to `q`, given the model and whether the network is up.
pub open spec fn ask_reply(q: Seq<u8>, opt_in: bool, model: LocalModel, network: bool) -> Seq<u8> {
    let privacy = spec_classify(q);
    if privacy == PrivacyClass::Sensitive && !model.loaded() {
        sensitive_reply()
    } else {
        match spec_backend(model, network) {
            AdvisorBackend::Local => local_reply(model),
            AdvisorBackend::Cloud => if opt_in { no_network_reply() } else { opt_in_reply() },
            AdvisorBackend::Offline => offline_reply(),
        }
    }
}

/// Submit a query and write the response into `out`; returns its length and
/// what Cogman says on the side (that the query was scrubbed before leaving).
/// The single dispatch point: the privacy policy is enforced here.
pub fn ask(query: &Query<'_>, out: &mut [u8; MAX_RESPONSE], model: &LocalModel) -> (r: (usize, Vec<u8>))
    ensures
        replied(ask_reply(query.text@, query.context.cloud_opt_in, *model, false), old(out)@, final(out)@, r.0),
        r.1@ == if spec_classify(query.text@) == PrivacyClass::Redacted
            && spec_backend(*model, false) == AdvisorBackend::Cloud && query.context.cloud_opt_in {
            msg_advisor_privacy_strip()
        } else {
            Seq::<u8>::empty()
        },
{
    let privacy = classify(query.text);
    if privacy == PrivacyClass::Sensitive && !local::is_model_loaded(model) {
        let n = write_reply(out, "I'm afraid that query contains sensitive material. I can only handle it with a local model loaded. Ask `cogman load-model <path>` to load one.");
        return (n, Vec::new());
    }
    match detect_backend(model) {
        AdvisorBackend::Local => (local::query(model, query.text, out), Vec::new()),
        AdvisorBackend::Cloud => {
            if query.context.cloud_opt_in {
                let mut clean = [0u8; MAX_QUERY];
                let mut side: Vec<u8> = Vec::new();
                let clean_len = if privacy == PrivacyClass::Redacted {
                    side = say_advisor_privacy_strip();
                    redact(query.text, &mut clean)
                } else {
                    redact(query.text, &mut clean)
                };
                let _ = clean_len;
                (cloud::query(clean.as_slice(), out), side)
            } else {
                let n = write_reply(out, "Cloud inference is available but you haven't opted in. Run `cogman set cloud-opt-in true` if you'd like to enable it.");
                (n, Vec::new())
            }
        },
        AdvisorBackend::Offline => {
            let n = write_reply(out, "I'm offline at the moment and have no local model loaded. Load a model with `cogman load-model <path>` to use the adviser.");
            (n, Vec::new())
        },
    }
}

} // verus!
