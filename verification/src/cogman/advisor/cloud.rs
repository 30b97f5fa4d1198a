//! Cloud adviser client: the interface to the hosted model over HTTPS.
//!
//! There is no network stack yet: the network is never available, no key is
//! read and a query answers with a notice. The JSON helpers that the
//! request and response will need are here already.
//!
//! Privacy: a query classified as redactable reaches this module only after
//! `advisor::redact`; the API key is to be read from the local filesystem,
//! never embedded; no history is sent.

use vstd::prelude::*;
use crate::cogman::advisor::{write_reply, MAX_RESPONSE};
use crate::cogman::advisor::local::replied;
use crate::cogman::persona::t;

verus! {

/// Returns true if a network interface is up and the API is reachable.
/// There is no network stack yet, so it never is.
pub fn is_network_available() -> (r: bool)
    ensures
        !r,
{
    false
}

/// Read the API key into `buf`, returning its length, or 0 on failure.
/// Filesystem reads are not wired yet: nothing is read.
pub fn read_api_key(buf: &mut [u8; 128]) -> (n: usize)
    ensures
        n == 0,
        final(buf)@ == old(buf)@,
{
    let _ = buf;
    0
}

/// The answer while there is no network.
pub open spec fn no_network_reply() -> Seq<u8> {
    t("[Cogman] Network stack not yet available. Cannot reach hosted API.")
}

/// Send a query and write the response text into `out`; returns its length.
/// Without a network stack the response is a notice.
pub fn query(text: &[u8], out: &mut [u8; MAX_RESPONSE]) -> (n: usize)
    ensures
        replied(no_network_reply(), old(out)@, final(out)@, n),
{
    let _ = text;
    write_reply(out, "[Cogman] Network stack not yet available. Cannot reach hosted API.")
}

/// Write `val` as a JSON string into `out` from `pos` on, as far as `out`
/// reaches; returns the number of bytes written.
pub fn json_string(val: &[u8], out: &mut [u8], pos: usize) -> (n: usize)
    ensures
        final(out)@.len() == old(out)@.len(),
        n == if pos >= old(out)@.len() { 0 } else if json_quoted(val@).len() <= old(out)@.len() - pos {
            json_quoted(val@).len()
        } else {
            (old(out)@.len() - pos) as nat
        },
        forall|i: int| 0 <= i < old(out)@.len() ==> #[trigger] final(out)@[i] == if pos <= i < pos + n {
            json_quoted(val@)[i - pos]
        } else {
            old(out)@[i]
        },
{
    let ghost q = json_quoted(val@);
    let mut p = pos;
    let mut k: usize = 0;
    let ghost mut produced: Seq<u8> = seq![34u8];
    emit(out, &mut p, pos, 34u8, Ghost(Seq::empty()));
    while k < val.len()
        invariant
            k <= val@.len(),
            produced == quoted_prefix(val@, k as int),
            out@.len() == old(out)@.len(),
            p == if pos >= out@.len() { pos as int } else if produced.len() <= out@.len() - pos {
                pos + produced.len()
            } else {
                out@.len() as int
            },
            forall|i: int| 0 <= i < out@.len() ==> #[trigger] out@[i] == if pos <= i < p {
                produced[i - pos]
            } else {
                old(out)@[i]
            },
        decreases val@.len() - k,
    {
        let b = val[k];
        if b == 34u8 || b == 92u8 {
            emit(out, &mut p, pos, 92u8, Ghost(produced));
            proof { produced = produced.push(92u8); }
            emit(out, &mut p, pos, b, Ghost(produced));
            proof { produced = produced.push(b); }
        } else {
            emit(out, &mut p, pos, b, Ghost(produced));
            proof { produced = produced.push(b); }
        }
        k += 1;
        proof { lemma_quoted_prefix_step(val@, k as int); }
        assert(produced =~= quoted_prefix(val@, k as int));
    }
    emit(out, &mut p, pos, 34u8, Ghost(produced));
    proof {
        produced = produced.push(34u8);
        assert(val@.subrange(0, val@.len() as int) =~= val@);
        assert(produced =~= q);
    }
    p - pos
}

/// The opening quote and the escaped first `k` bytes of `val`.
pub open spec fn quoted_prefix(val: Seq<u8>, k: int) -> Seq<u8>
    decreases k,
{
    if k <= 0 {
        seq![34u8]
    } else {
        let b = val[k - 1];
        quoted_prefix(val, k - 1) + (if b == 34 || b == 92 { seq![92u8, b] } else { seq![b] })
    }
}

/// `val` as a JSON string: the escaped bytes between quotes.
pub open spec fn json_quoted(val: Seq<u8>) -> Seq<u8> {
    quoted_prefix(val, val.len() as int).push(34u8)
}

proof fn lemma_quoted_prefix_step(val: Seq<u8>, k: int)
    requires
        1 <= k,
    ensures
        quoted_prefix(val, k) == quoted_prefix(val, k - 1) + (if val[k - 1] == 34 || val[k - 1] == 92 {
            seq![92u8, val[k - 1]]
        } else {
            seq![val[k - 1]]
        }),
{
}

/// Write `b` at `*p` if that is inside `out`, advancing `*p`; `produced` is
/// what was emitted before, starting at `pos`.
fn emit(out: &mut [u8], p: &mut usize, pos: usize, b: u8, produced: Ghost<Seq<u8>>)
    requires
        *old(p) == if pos >= old(out)@.len() { pos as int } else if produced@.len() <= old(out)@.len() - pos {
            pos + produced@.len()
        } else {
            old(out)@.len() as int
        },
    ensures
        final(out)@.len() == old(out)@.len(),
        *final(p) == if pos >= old(out)@.len() { pos as int } else if produced@.len() + 1 <= old(out)@.len() - pos {
            pos + produced@.len() + 1
        } else {
            old(out)@.len() as int
        },
        forall|i: int| 0 <= i < old(out)@.len() ==> #[trigger] final(out)@[i] == if i == *old(p) && *old(p) < old(out)@.len() {
            b
        } else {
            old(out)@[i]
        },
{
    if *p < out.len() {
        out[*p] = b;
        *p = *p + 1;
    }
}

/// `key` occurs in `body` at `k`.
pub open spec fn key_at(body: Seq<u8>, key: Seq<u8>, k: int) -> bool {
    0 <= k && k + key.len() <= body.len() && body.subrange(k, k + key.len()) == key
}

/// The first place at or after `k` where `key` occurs in `body`.
pub open spec fn first_key(body: Seq<u8>, key: Seq<u8>, k: int) -> Option<int>
    decreases body.len() + 1 - k,
{
    if k < 0 || k + key.len() > body.len() {
        None
    } else if key_at(body, key, k) {
        Some(k)
    } else {
        first_key(body, key, k + 1)
    }
}

/// The first quote (`"`) at or after `s`.
pub open spec fn next_quote(body: Seq<u8>, s: int) -> Option<int>
    decreases body.len() - s,
{
    if s < 0 || s >= body.len() {
        None
    } else if body[s] == 34u8 {
        Some(s)
    } else {
        next_quote(body, s + 1)
    }
}

/// The range of the string value after the first occurrence of `key`:
/// from just after the first quote that follows the key to the next
/// quote; none when the key or either quote is missing.
pub open spec fn json_text_range(body: Seq<u8>, key: Seq<u8>) -> Option<(int, int)> {
    match first_key(body, key, 0) {
        None => None,
        Some(k) => match next_quote(body, k + key.len()) {
            None => None,
            Some(q) => match next_quote(body, q + 1) {
                None => None,
                Some(e) => Some((q + 1, e)),
            },
        },
    }
}

/// Locate the string value following `key` in a flat JSON body: the range
/// between the first two quotes after the first occurrence of `key`.
pub fn json_extract_text(body: &[u8], key: &[u8]) -> (r: Option<(usize, usize)>)
    requires
        key@.len() > 0,
    ensures
        match r {
            Some((a, b)) => json_text_range(body@, key@) == Some((a as int, b as int)),
            None => json_text_range(body@, key@) is None,
        },
{
    if key.len() > body.len() {
        return None;
    }
    let mut k: usize = 0;
    let mut found = false;
    while k <= body.len() - key.len()
        invariant_except_break
            !found,
        invariant
            0 < key@.len() <= body@.len(),
            k <= body@.len() - key@.len() + 1,
            first_key(body@, key@, 0) == first_key(body@, key@, k as int),
        ensures
            first_key(body@, key@, 0) == first_key(body@, key@, k as int),
            found ==> k + key@.len() <= body@.len() && key_at(body@, key@, k as int),
            !found ==> k == body@.len() - key@.len() + 1,
        decreases body@.len() - k,
    {
        if slice_eq_at(body, k, key) {
            found = true;
            break;
        }
        k += 1;
    }
    if !found {
        return None;
    }
    let mut s = k + key.len();
    while s < body.len() && body[s] != 34u8
        invariant
            k + key@.len() <= s <= body@.len(),
            next_quote(body@, k + key@.len()) == next_quote(body@, s as int),
        decreases body@.len() - s,
    {
        s += 1;
    }
    if s >= body.len() {
        return None;
    }
    let a = s + 1;
    let mut e = a;
    while e < body.len() && body[e] != 34u8
        invariant
            a <= e <= body@.len(),
            next_quote(body@, a as int) == next_quote(body@, e as int),
        decreases body@.len() - e,
    {
        e += 1;
    }
    if e >= body.len() {
        return None;
    }
    Some((a, e))
}

/// Whether `needle` occurs in `hay` at position `at`.
pub fn slice_eq_at(hay: &[u8], at: usize, needle: &[u8]) -> (r: bool)
    requires
        at + needle@.len() <= hay@.len(),
    ensures
        r == (hay@.subrange(at as int, at + needle@.len()) == needle@),
{
    let hl = hay.len();
    let mut i: usize = 0;
    while i < needle.len()
        invariant
            hl == hay@.len(),
            at + needle@.len() <= hay@.len(),
            i <= needle@.len(),
            forall|j: int| 0 <= j < i ==> hay@[at + j] == needle@[j],
        decreases needle@.len() - i,
    {
        if hay[at + i] != needle[i] {
            assert(hay@.subrange(at as int, at + needle@.len())[i as int] != needle@[i as int]);
            return false;
        }
        i += 1;
    }
    assert(hay@.subrange(at as int, at + needle@.len()) =~= needle@);
    true
}

} // verus!
