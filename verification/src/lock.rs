//! The lock screen's logic: the password being typed, the wrong-password
//! notice, the unlock indicator, the image handed to X, and the replies
//! to the authentication service's prompts. Drawing, the X connection, the
//! clock and the authentication call itself are the caller's.

use vstd::prelude::*;
use crate::tools::keysym_to_char;

verus! {

/// Return and keypad-enter: try the password.
pub const KEY_RETURN: u32 = 0xff0d;
pub const KEY_KP_ENTER: u32 = 0xff8d;
/// Backspace: drop the last character.
pub const KEY_BACKSPACE: u32 = 0xff08;
/// The password stops growing at this many bytes.
pub const MAX_PASSWORD_BYTES: usize = 256;
/// Segments of the unlock ring.
pub const RING_SEGMENTS: usize = 32;
/// The authentication service's prompt styles that ask for input.
pub const PROMPT_ECHO_OFF: i32 = 1;
pub const PROMPT_ECHO_ON: i32 = 2;

/// The bytes a character takes in UTF-8.
pub open spec fn utf8_len(c: char) -> int {
    if (c as u32) < 0x80 { 1 } else if (c as u32) < 0x800 { 2 } else if (c as u32) < 0x10000 { 3 } else { 4 }
}

/// The UTF-8 length of a character sequence.
pub open spec fn utf8_total(s: Seq<char>) -> int
    decreases s.len(),
{
    if s.len() == 0 { 0 } else { utf8_total(s.drop_last()) + utf8_len(s.last()) }
}

proof fn lemma_utf8_total_nonneg(s: Seq<char>)
    ensures
        utf8_total(s) >= 0,
    decreases s.len(),
{
    if s.len() > 0 {
        lemma_utf8_total_nonneg(s.drop_last());
    }
}

/// A key symbol that types a character: printable ASCII or Latin-1 from 0xA0.
pub open spec fn types_char(keysym: u32) -> bool {
    0x20 <= keysym <= 0x7e || 0xa0 <= keysym <= 0xff
}

/// The password after a key, with `bytes` its length in bytes before:
/// Return and keypad Enter leave it, Backspace drops the last character,
/// a typing key adds its character while under 256 bytes.
pub open spec fn typed(p: Seq<char>, bytes: int, keysym: u32) -> Seq<char> {
    if keysym == KEY_RETURN || keysym == KEY_KP_ENTER {
        p
    } else if keysym == KEY_BACKSPACE {
        if p.len() > 0 { p.drop_last() } else { p }
    } else if types_char(keysym) && bytes < MAX_PASSWORD_BYTES {
        p.push(keysym as char)
    } else {
        p
    }
}

/// The lock screen's input state.
pub struct LockScreen {
    /// The characters typed so far.
    pub password: Vec<char>,
    /// Their length in UTF-8 bytes.
    pub bytes: usize,
    /// The last attempt failed and its notice is still shown.
    pub wrong: bool,
}

/// What the caller does after a key.
#[derive(Clone, Copy, Debug, PartialEq, Eq, Structural)]
pub enum LockStep {
    /// Draw the next frame.
    Redraw,
    /// Authenticate with the password typed so far.
    Authenticate,
}

impl LockScreen {
    /// `bytes` is the UTF-8 length of the password, and no character is
    /// beyond Latin-1 (the only ones a key types).
    pub open spec fn wf(&self) -> bool {
        &&& self.bytes == utf8_total(self.password@)
        &&& self.bytes <= MAX_PASSWORD_BYTES + 1
        &&& forall|i: int| 0 <= i < self.password@.len() ==> (#[trigger] self.password@[i] as u32) <= 0xff
    }

    /// Nothing typed, no notice.
    pub fn new() -> (l: Self)
        ensures
            l.wf(),
            l.password@.len() == 0,
            !l.wrong,
    {
        LockScreen { password: Vec::new(), bytes: 0, wrong: false }
    }

    /// A key press: Return or keypad Enter asks for authentication,
    /// Backspace drops the last character, a printable key adds its
    /// character while the password is under 256 bytes; anything else
    /// changes nothing.
    pub fn key(&mut self, keysym: u32) -> (step: LockStep)
        requires
            old(self).wf(),
        ensures
            final(self).wf(),
            final(self).wrong == old(self).wrong,
            (keysym == KEY_RETURN || keysym == KEY_KP_ENTER) ==> step == LockStep::Authenticate,
            !(keysym == KEY_RETURN || keysym == KEY_KP_ENTER) ==> step == LockStep::Redraw,
            final(self).password@ == typed(old(self).password@, old(self).bytes as int, keysym),
    {
        if keysym == KEY_RETURN || keysym == KEY_KP_ENTER {
            return LockStep::Authenticate;
        }
        if keysym == KEY_BACKSPACE {
            if self.password.len() > 0 {
                let ghost before = self.password@;
                let c = self.password.pop().unwrap();
                proof {
                    assert(self.password@ == before.drop_last());
                    assert(c == before.last());
                }
                let w: usize = if (c as u32) < 0x80 { 1 } else { 2 };
                proof {
                    assert(before[before.len() - 1] as u32 <= 0xff);
                    assert(w == utf8_len(c));
                    lemma_utf8_total_nonneg(before.drop_last());
                    assert forall|i: int| 0 <= i < self.password@.len() implies (#[trigger] self.password@[i] as u32) <= 0xff by {
                        assert(self.password@[i] == before[i]);
                    }
                }
                self.bytes = self.bytes - w;
            }
            return LockStep::Redraw;
        }
        if let Some(c) = keysym_to_char(keysym) {
            if self.bytes < MAX_PASSWORD_BYTES {
                let w: usize = if (c as u32) < 0x80 { 1 } else { 2 };
                let ghost before = self.password@;
                self.password.push(c);
                proof {
                    assert(self.password@.drop_last() =~= before);
                    assert(w == utf8_len(c));
                    assert forall|i: int| 0 <= i < self.password@.len() implies (#[trigger] self.password@[i] as u32) <= 0xff by {
                        if i < before.len() {
                            assert(self.password@[i] == before[i]);
                        }
                    }
                }
                self.bytes = self.bytes + w;
            }
        }
        LockStep::Redraw
    }

    /// The attempt failed: the password is cleared and the notice shown.
    pub fn rejected(&mut self)
        ensures
            final(self).wf(),
            final(self).password@.len() == 0,
            final(self).wrong,
    {
        self.password = Vec::new();
        self.bytes = 0;
        self.wrong = true;
    }

    /// The notice's time is up.
    pub fn notice_expired(&mut self)
        requires
            old(self).wf(),
        ensures
            final(self).wf(),
            final(self).password@ == old(self).password@,
            !final(self).wrong,
    {
        self.wrong = false;
    }

    /// The number of lit ring segments: the password's byte length
    /// modulo the segment count.
    pub fn lit_segments(&self) -> (n: usize)
        ensures
            n == self.bytes % RING_SEGMENTS,
    {
        self.bytes % RING_SEGMENTS
    }

    /// The hint under the ring.
    pub fn hint(&self) -> (s: &'static str)
        ensures
            self.wrong ==> s@ == "Wrong password"@,
            !self.wrong ==> s@ == "Enter password"@,
    {
        if self.wrong { "Wrong password" } else { "Enter password" }
    }
}

/// The depth of the image sent to X: 24 for deeper screens.
pub fn image_depth(depth: u8) -> (d: u8)
    ensures
        d == (if depth >= 24 { 24 } else { depth }),
{
    if depth >= 24 { 24 } else { depth }
}

/// The rendered image's pixels (bytes a, r, g, b each) in the order X
/// takes them (b, g, r, a).
pub fn to_x11_pixels(data: &[u8]) -> (out: Vec<u8>)
    requires
        data@.len() % 4 == 0,
    ensures
        out@.len() == data@.len(),
        forall|i: int| 0 <= i < data@.len() ==> #[trigger] out@[i] == data@[i - i % 4 + 3 - i % 4],
{
    let mut out: Vec<u8> = Vec::new();
    let mut k: usize = 0;
    while k < data.len()
        invariant
            data@.len() % 4 == 0,
            k % 4 == 0,
            k <= data@.len(),
            out@.len() == k,
            forall|i: int| 0 <= i < k ==> #[trigger] out@[i] == data@[i - i % 4 + 3 - i % 4],
        decreases data@.len() - k,
    {
        let a = data[k];
        let r = data[k + 1];
        let g = data[k + 2];
        let b = data[k + 3];
        out.push(b);
        out.push(g);
        out.push(r);
        out.push(a);
        assert forall|i: int| k <= i < k + 4 implies #[trigger] out@[i] == data@[i - i % 4 + 3 - i % 4] by {
            assert(i - i % 4 == k);
        }
        k += 4;
    }
    out
}

/// The replies to one conversation with the authentication service:
/// each prompt for input gets the rest of the password from `pos`,
/// zero-terminated, after which nothing of it is left; other messages and
/// missing ones get no reply. Returns the replies and the new position.
pub fn conversation_replies(styles: &[Option<i32>], password: &[u8], pos: usize) -> (r: (Vec<Option<Vec<u8>>>, usize))
    requires
        pos <= password@.len(),
    ensures
        r.0@.len() == styles@.len(),
        r.1 == reply_from(styles@, styles@.len() as int, pos as int, password@.len() as int),
        forall|i: int| 0 <= i < styles@.len() ==> match #[trigger] r.0@[i] {
            Some(v) => is_prompt(styles@[i]) && v@ == password@.subrange(reply_from(styles@, i, pos as int, password@.len() as int), password@.len() as int).push(0u8),
            None => !is_prompt(styles@[i]),
        },
{
    let mut out: Vec<Option<Vec<u8>>> = Vec::new();
    let mut p: usize = pos;
    let mut i: usize = 0;
    while i < styles.len()
        invariant
            pos <= password@.len(),
            i <= styles@.len(),
            out@.len() == i,
            p == reply_from(styles@, i as int, pos as int, password@.len() as int),
            p <= password@.len(),
            forall|j: int| 0 <= j < i ==> match #[trigger] out@[j] {
                Some(v) => is_prompt(styles@[j]) && v@ == password@.subrange(reply_from(styles@, j, pos as int, password@.len() as int), password@.len() as int).push(0u8),
                None => !is_prompt(styles@[j]),
            },
        decreases styles@.len() - i,
    {
        let prompt = match styles[i] {
            Some(s) => s == PROMPT_ECHO_OFF || s == PROMPT_ECHO_ON,
            None => false,
        };
        if prompt {
            let mut v: Vec<u8> = Vec::new();
            let mut k: usize = p;
            while k < password.len()
                invariant
                    p <= k <= password@.len(),
                    v@ == password@.subrange(p as int, k as int),
                decreases password@.len() - k,
            {
                v.push(password[k]);
                k += 1;
                assert(v@ =~= password@.subrange(p as int, k as int));
            }
            v.push(0u8);
            out.push(Some(v));
            p = password.len();
        } else {
            out.push(None);
        }
        i += 1;
    }
    (out, p)
}

/// A message asks for input.
pub open spec fn is_prompt(style: Option<i32>) -> bool {
    style matches Some(s) && (s == PROMPT_ECHO_OFF || s == PROMPT_ECHO_ON)
}

/// Where the reply to message `i` starts: `pos`, or the end `len` of the
/// password once an earlier message was a prompt.
pub open spec fn reply_from(styles: Seq<Option<i32>>, i: int, pos: int, len: int) -> int
    decreases i,
{
    if i <= 0 {
        pos
    } else if is_prompt(styles[i - 1]) {
        len
    } else {
        reply_from(styles, i - 1, pos, len)
    }
}

/// Typing a character and then Backspace gives back the password typed
/// before, while the password is under the length cap.
pub proof fn lemma_type_then_erase(p: Seq<char>, bytes: int, keysym: u32, later_bytes: int)
    requires
        types_char(keysym),
        bytes < MAX_PASSWORD_BYTES,
    ensures
        typed(typed(p, bytes, keysym), later_bytes, KEY_BACKSPACE) == p,
{
    assert(p.push(keysym as char).drop_last() =~= p);
}

} // verus!
