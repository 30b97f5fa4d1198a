//! The interactive shell: line handling and command dispatch.
//!
//! Built-in commands: help, echo [text], ls, ps, cat <file>, rm <file>,
//! clear, pwd, editor, viewer, copy, monitor, run <id>, reboot, halt and
//! exit [status]. Programs are spawned and waited for by the caller; this
//! module decides what a line asks for and formats what the shell prints.

use vstd::prelude::*;
use vstd::string::StringSliceAdditionalSpecFns;
use crate::cogman::persona::{dec, push_bytes, push_dec, push_text, t};

verus! {

/// Program id of the editor.
pub const PROG_EDITOR: u32 = 2;
/// Program id of the viewer.
pub const PROG_VIEWER: u32 = 3;
/// Program id of the copy tool.
pub const PROG_COPY: u32 = 4;
/// Program id of the monitor.
pub const PROG_MONITOR: u32 = 5;
/// Exit status the supervisor reads as halt.
pub const HALT_STATUS: i32 = 42;
/// Exit status the supervisor reads as reboot.
pub const REBOOT_STATUS: i32 = 43;

/// Whether a byte is stripped from the end of a line.
pub open spec fn is_trailing(b: u8) -> bool {
    b == 32 || b == 13 || b == 10
}

/// `s` without its leading spaces.
pub open spec fn ltrim(s: Seq<u8>) -> Seq<u8>
    decreases s.len(),
{
    if s.len() > 0 && s[0] == 32 { ltrim(s.drop_first()) } else { s }
}

/// `s` without its trailing spaces, carriage returns and line feeds.
pub open spec fn rtrim(s: Seq<u8>) -> Seq<u8>
    decreases s.len(),
{
    if s.len() > 0 && is_trailing(s.last()) { rtrim(s.drop_last()) } else { s }
}

/// A line trimmed: leading spaces, then trailing spaces and line ends, removed.
pub open spec fn trimmed(s: Seq<u8>) -> Seq<u8> {
    rtrim(ltrim(s))
}

/// The bytes of `s` from `a` to `b`.
pub fn trim_range_copy(s: &[u8], a: usize, b: usize) -> (out: Vec<u8>)
    requires
        a <= b <= s@.len(),
    ensures
        out@ == s@.subrange(a as int, b as int),
{
    copy_range(s, a, b)
}

/// The bytes of `s` from `a` to `b`.
fn copy_range(s: &[u8], a: usize, b: usize) -> (out: Vec<u8>)
    requires
        a <= b <= s@.len(),
    ensures
        out@ == s@.subrange(a as int, b as int),
{
    let mut out: Vec<u8> = Vec::new();
    let mut i = a;
    while i < b
        invariant
            a <= i <= b <= s@.len(),
            out@ == s@.subrange(a as int, i as int),
        decreases b - i,
    {
        out.push(s[i]);
        i += 1;
        assert(out@ =~= s@.subrange(a as int, i as int));
    }
    out
}

proof fn lemma_ltrim_suffix(s: Seq<u8>, a: int)
    requires
        0 <= a <= s.len(),
        forall|i: int| 0 <= i < a ==> s[i] == 32,
    ensures
        ltrim(s) == ltrim(s.subrange(a, s.len() as int)),
    decreases a,
{
    if a > 0 {
        assert(s.drop_first() =~= s.subrange(1, s.len() as int));
        lemma_ltrim_suffix(s.drop_first(), a - 1);
        assert(s.drop_first().subrange(a - 1, s.drop_first().len() as int) =~= s.subrange(a, s.len() as int));
    } else {
        assert(s.subrange(0, s.len() as int) =~= s);
    }
}

proof fn lemma_rtrim_prefix(s: Seq<u8>, b: int)
    requires
        0 <= b <= s.len(),
        forall|i: int| b <= i < s.len() ==> is_trailing(s[i]),
    ensures
        rtrim(s) == rtrim(s.subrange(0, b)),
    decreases s.len() - b,
{
    if b < s.len() {
        assert(s.drop_last() =~= s.subrange(0, s.len() - 1));
        lemma_rtrim_prefix(s.drop_last(), b);
        assert(s.drop_last().subrange(0, b) =~= s.subrange(0, b));
    } else {
        assert(s.subrange(0, b) =~= s);
    }
}

/// Trim leading spaces, then trailing spaces and CR / LF.
pub fn trim(line: &[u8]) -> (out: Vec<u8>)
    ensures
        out@ == trimmed(line@),
{
    let mut a: usize = 0;
    while a < line.len() && line[a] == 32
        invariant
            a <= line@.len(),
            forall|i: int| 0 <= i < a ==> line@[i] == 32,
        decreases line@.len() - a,
    {
        a += 1;
    }
    let mut b: usize = line.len();
    while b > a && (line[b - 1] == 32 || line[b - 1] == 13 || line[b - 1] == 10)
        invariant
            a <= b <= line@.len(),
            forall|i: int| b <= i < line@.len() ==> is_trailing(line@[i]),
        decreases b,
    {
        b -= 1;
    }
    proof {
        lemma_ltrim_suffix(line@, a as int);
        let rest = line@.subrange(a as int, line@.len() as int);
        assert(ltrim(rest) == rest);
        assert forall|i: int| b - a <= i < rest.len() implies is_trailing(rest[i]) by {
            assert(rest[i] == line@[a + i]);
        }
        lemma_rtrim_prefix(rest, b - a);
        assert(rest.subrange(0, b - a) =~= line@.subrange(a as int, b as int));
        let mid = line@.subrange(a as int, b as int);
        if b > a {
            assert(!is_trailing(mid.last()));
        }
        assert(rtrim(mid) == mid);
    }
    copy_range(line, a, b)
}

/// The position of the first space in `s`, or its length.
pub open spec fn first_space(s: Seq<u8>) -> int
    decreases s.len(),
{
    if s.len() == 0 {
        0
    } else if s[0] == 32 {
        0
    } else {
        1 + first_space(s.drop_first())
    }
}

/// A line split at its first space: the word before, and the rest trimmed.
pub open spec fn split_at_space(s: Seq<u8>) -> (Seq<u8>, Seq<u8>) {
    let i = first_space(s);
    (s.subrange(0, i), if i < s.len() { trimmed(s.subrange(i + 1, s.len() as int)) } else { Seq::empty() })
}

proof fn lemma_first_space(s: Seq<u8>, i: int)
    requires
        0 <= i <= s.len(),
        forall|j: int| 0 <= j < i ==> s[j] != 32,
        i == s.len() || s[i] == 32,
    ensures
        first_space(s) == i,
    decreases i,
{
    if i > 0 {
        lemma_first_space(s.drop_first(), i - 1);
    }
}

/// Split `cmd rest`: the command word and the trimmed rest.
pub fn split_cmd(line: &[u8]) -> (r: (Vec<u8>, Vec<u8>))
    ensures
        (r.0@, r.1@) == split_at_space(line@),
{
    let mut i: usize = 0;
    while i < line.len() && line[i] != 32
        invariant
            i <= line@.len(),
            forall|j: int| 0 <= j < i ==> line@[j] != 32,
        decreases line@.len() - i,
    {
        i += 1;
    }
    proof { lemma_first_space(line@, i as int); }
    let cmd = copy_range(line, 0, i);
    let rest = if i < line.len() {
        let tail = copy_range(line, i + 1, line.len());
        trim(tail.as_slice())
    } else {
        Vec::new()
    };
    (cmd, rest)
}

/// Split `arg1 arg2` at the first space.
pub fn split_two(s: &[u8]) -> (r: (Vec<u8>, Vec<u8>))
    ensures
        (r.0@, r.1@) == split_at_space(s@),
{
    split_cmd(s)
}

/// The value of decimal digits, wrapping modulo 2^32 as the shell computes it.
pub open spec fn dec_value(s: Seq<u8>) -> int
    decreases s.len(),
{
    if s.len() == 0 { 0 } else { (dec_value(s.drop_last()) * 10 + (s.last() - 48)) % 0x1_0000_0000 }
}

/// Whether every byte is a decimal digit.
pub open spec fn all_digits(s: Seq<u8>) -> bool {
    forall|i: int| 0 <= i < s.len() ==> 48 <= #[trigger] s[i] <= 57
}

/// Parse a decimal number (wrapping on overflow); `None` when empty or not
/// all digits.
pub fn parse_u32(s: &[u8]) -> (r: Option<u32>)
    ensures
        r == if s@.len() > 0 && all_digits(s@) { Some(dec_value(s@) as u32) } else { None::<u32> },
{
    if s.len() == 0 {
        return None;
    }
    let mut n: u32 = 0;
    let mut i: usize = 0;
    while i < s.len()
        invariant
            i <= s@.len(),
            all_digits(s@.subrange(0, i as int)),
            n == dec_value(s@.subrange(0, i as int)),
        decreases s@.len() - i,
    {
        let b = s[i];
        if b < 48 || b > 57 {
            assert(!all_digits(s@));
            return None;
        }
        assert(s@.subrange(0, i + 1).drop_last() =~= s@.subrange(0, i as int));
        n = n.wrapping_mul(10).wrapping_add((b - 48) as u32);
        proof {
            let v = dec_value(s@.subrange(0, i as int));
            assert(0 <= v < 0x1_0000_0000) by {
                lemma_dec_value_range(s@.subrange(0, i as int));
            }
        }
        i += 1;
        assert(all_digits(s@.subrange(0, i as int)));
    }
    assert(s@.subrange(0, s@.len() as int) =~= s@);
    Some(n)
}

proof fn lemma_dec_value_range(s: Seq<u8>)
    ensures
        0 <= dec_value(s) < 0x1_0000_0000,
    decreases s.len(),
{
    if s.len() > 0 {
        lemma_dec_value_range(s.drop_last());
    }
}

/// The decimal representation of `n`.
pub fn u32_to_dec(n: u32) -> (out: Vec<u8>)
    ensures
        out@ == dec(n as nat),
{
    let mut v: Vec<u8> = Vec::new();
    push_dec(&mut v, n);
    assert(v@ =~= dec(n as nat));
    v
}

/// Whether two byte strings are equal.
pub fn bytes_eq(a: &[u8], b: &[u8]) -> (r: bool)
    ensures
        r == (a@ == b@),
{
    if a.len() != b.len() {
        return false;
    }
    let mut i: usize = 0;
    while i < a.len()
        invariant
            a@.len() == b@.len(),
            i <= a@.len(),
            forall|j: int| 0 <= j < i ==> a@[j] == b@[j],
        decreases a@.len() - i,
    {
        if a[i] != b[i] {
            return false;
        }
        i += 1;
    }
    assert(a@ =~= b@);
    true
}

/// What a shell line asks for.
#[derive(Clone, Debug, PartialEq, Eq)]
pub enum ShellCommand {
    /// A blank line.
    Empty,
    /// Leave the shell with a status.
    Exit(i32),
    Halt,
    Reboot,
    Help,
    Clear,
    /// Print the text.
    Echo(Vec<u8>),
    Pwd,
    Ls,
    Ps,
    /// Print a file.
    Cat(Vec<u8>),
    /// Delete a file.
    Rm(Vec<u8>),
    /// Spawn a program and wait for it.
    Run(u32),
    /// `run` without a valid program id.
    RunUsage,
    /// Not a command.
    Unknown(Vec<u8>),
}

/// A command with its bytes as sequences.
pub enum ShellCommandView {
    Empty,
    Exit(i32),
    Halt,
    Reboot,
    Help,
    Clear,
    Echo(Seq<u8>),
    Pwd,
    Ls,
    Ps,
    Cat(Seq<u8>),
    Rm(Seq<u8>),
    Run(u32),
    RunUsage,
    Unknown(Seq<u8>),
}

impl View for ShellCommand {
    type V = ShellCommandView;

    open spec fn view(&self) -> ShellCommandView {
        match self {
            ShellCommand::Empty => ShellCommandView::Empty,
            ShellCommand::Exit(c) => ShellCommandView::Exit(*c),
            ShellCommand::Halt => ShellCommandView::Halt,
            ShellCommand::Reboot => ShellCommandView::Reboot,
            ShellCommand::Help => ShellCommandView::Help,
            ShellCommand::Clear => ShellCommandView::Clear,
            ShellCommand::Echo(t) => ShellCommandView::Echo(t@),
            ShellCommand::Pwd => ShellCommandView::Pwd,
            ShellCommand::Ls => ShellCommandView::Ls,
            ShellCommand::Ps => ShellCommandView::Ps,
            ShellCommand::Cat(f) => ShellCommandView::Cat(f@),
            ShellCommand::Rm(f) => ShellCommandView::Rm(f@),
            ShellCommand::Run(id) => ShellCommandView::Run(*id),
            ShellCommand::RunUsage => ShellCommandView::RunUsage,
            ShellCommand::Unknown(c) => ShellCommandView::Unknown(c@),
        }
    }
}

/// The value of a number argument, if it is one.
pub open spec fn spec_number(s: Seq<u8>) -> Option<u32> {
    if s.len() > 0 && all_digits(s) { Some(dec_value(s) as u32) } else { None }
}

/// What a line read at the prompt asks for.
pub open spec fn spec_dispatch(line: Seq<u8>) -> ShellCommandView {
    let l = trimmed(line);
    let cmd = split_at_space(l).0;
    let rest = split_at_space(l).1;
    if l.len() == 0 {
        ShellCommandView::Empty
    } else if cmd == t("exit") {
        ShellCommandView::Exit(match spec_number(rest) { Some(v) => v as i32, None => 0 })
    } else if cmd == t("halt") {
        ShellCommandView::Halt
    } else if cmd == t("reboot") {
        ShellCommandView::Reboot
    } else if cmd == t("help") {
        ShellCommandView::Help
    } else if cmd == t("clear") {
        ShellCommandView::Clear
    } else if cmd == t("echo") {
        ShellCommandView::Echo(rest)
    } else if cmd == t("pwd") {
        ShellCommandView::Pwd
    } else if cmd == t("ls") {
        ShellCommandView::Ls
    } else if cmd == t("ps") {
        ShellCommandView::Ps
    } else if cmd == t("cat") {
        ShellCommandView::Cat(rest)
    } else if cmd == t("rm") {
        ShellCommandView::Rm(rest)
    } else if cmd == t("editor") || cmd == t("ed") {
        ShellCommandView::Run(PROG_EDITOR)
    } else if cmd == t("viewer") || cmd == t("view") {
        ShellCommandView::Run(PROG_VIEWER)
    } else if cmd == t("copy") || cmd == t("cp") {
        ShellCommandView::Run(PROG_COPY)
    } else if cmd == t("monitor") || cmd == t("top") {
        ShellCommandView::Run(PROG_MONITOR)
    } else if cmd == t("run") {
        match spec_number(rest) {
            Some(v) => ShellCommandView::Run(v),
            None => ShellCommandView::RunUsage,
        }
    } else {
        ShellCommandView::Unknown(cmd)
    }
}

/// The position of the first space lies within the line.
proof fn lemma_first_space_bound(s: Seq<u8>)
    ensures
        0 <= first_space(s) <= s.len(),
    decreases s.len(),
{
    if s.len() > 0 && s[0] != 32 {
        lemma_first_space_bound(s.drop_first());
    }
}

/// The length and first two bytes of each command word.
proof fn lemma_command_words()
    ensures
        t("exit").len() == 4 && t("exit")[0] == 101u8 && t("exit")[1] == 120u8,
        t("halt").len() == 4 && t("halt")[0] == 104u8 && t("halt")[1] == 97u8,
        t("reboot").len() == 6 && t("reboot")[0] == 114u8 && t("reboot")[1] == 101u8,
        t("help").len() == 4 && t("help")[0] == 104u8 && t("help")[1] == 101u8,
        t("clear").len() == 5 && t("clear")[0] == 99u8 && t("clear")[1] == 108u8,
        t("echo").len() == 4 && t("echo")[0] == 101u8 && t("echo")[1] == 99u8,
        t("pwd").len() == 3 && t("pwd")[0] == 112u8 && t("pwd")[1] == 119u8,
        t("ls").len() == 2 && t("ls")[0] == 108u8 && t("ls")[1] == 115u8,
        t("ps").len() == 2 && t("ps")[0] == 112u8 && t("ps")[1] == 115u8,
        t("cat").len() == 3 && t("cat")[0] == 99u8 && t("cat")[1] == 97u8,
        t("rm").len() == 2 && t("rm")[0] == 114u8 && t("rm")[1] == 109u8,
        t("editor").len() == 6 && t("editor")[0] == 101u8 && t("editor")[1] == 100u8,
        t("ed").len() == 2 && t("ed")[0] == 101u8 && t("ed")[1] == 100u8,
        t("viewer").len() == 6 && t("viewer")[0] == 118u8 && t("viewer")[1] == 105u8,
        t("view").len() == 4 && t("view")[0] == 118u8 && t("view")[1] == 105u8,
        t("copy").len() == 4 && t("copy")[0] == 99u8 && t("copy")[1] == 111u8,
        t("cp").len() == 2 && t("cp")[0] == 99u8 && t("cp")[1] == 112u8,
        t("monitor").len() == 7 && t("monitor")[0] == 109u8 && t("monitor")[1] == 111u8,
        t("top").len() == 3 && t("top")[0] == 116u8 && t("top")[1] == 111u8,
        t("run").len() == 3 && t("run")[0] == 114u8 && t("run")[1] == 117u8,
{
    reveal_strlit("exit");
    vstd::string::is_ascii_spec_bytes("exit");
    reveal_strlit("halt");
    vstd::string::is_ascii_spec_bytes("halt");
    reveal_strlit("reboot");
    vstd::string::is_ascii_spec_bytes("reboot");
    reveal_strlit("help");
    vstd::string::is_ascii_spec_bytes("help");
    reveal_strlit("clear");
    vstd::string::is_ascii_spec_bytes("clear");
    reveal_strlit("echo");
    vstd::string::is_ascii_spec_bytes("echo");
    reveal_strlit("pwd");
    vstd::string::is_ascii_spec_bytes("pwd");
    reveal_strlit("ls");
    vstd::string::is_ascii_spec_bytes("ls");
    reveal_strlit("ps");
    vstd::string::is_ascii_spec_bytes("ps");
    reveal_strlit("cat");
    vstd::string::is_ascii_spec_bytes("cat");
    reveal_strlit("rm");
    vstd::string::is_ascii_spec_bytes("rm");
    reveal_strlit("editor");
    vstd::string::is_ascii_spec_bytes("editor");
    reveal_strlit("ed");
    vstd::string::is_ascii_spec_bytes("ed");
    reveal_strlit("viewer");
    vstd::string::is_ascii_spec_bytes("viewer");
    reveal_strlit("view");
    vstd::string::is_ascii_spec_bytes("view");
    reveal_strlit("copy");
    vstd::string::is_ascii_spec_bytes("copy");
    reveal_strlit("cp");
    vstd::string::is_ascii_spec_bytes("cp");
    reveal_strlit("monitor");
    vstd::string::is_ascii_spec_bytes("monitor");
    reveal_strlit("top");
    vstd::string::is_ascii_spec_bytes("top");
    reveal_strlit("run");
    vstd::string::is_ascii_spec_bytes("run");
}

/// The first word of a line names the command, whatever follows it: each
/// command of the help text (and each short alias) is recognised as that
/// command, taking the rest of the line as its argument where it has one,
/// and is never taken for an unknown command.
pub proof fn law_dispatch_by_first_word(line: Seq<u8>)
    ensures
        ({
            let w = split_at_space(trimmed(line)).0;
            let rest = split_at_space(trimmed(line)).1;
            let c = spec_dispatch(line);
            &&& w == t("editor") || w == t("ed") ==> c == ShellCommandView::Run(PROG_EDITOR)
            &&& w == t("viewer") || w == t("view") ==> c == ShellCommandView::Run(PROG_VIEWER)
            &&& w == t("copy") || w == t("cp") ==> c == ShellCommandView::Run(PROG_COPY)
            &&& w == t("monitor") || w == t("top") ==> c == ShellCommandView::Run(PROG_MONITOR)
            &&& w == t("help") ==> c == ShellCommandView::Help
            &&& w == t("ls") ==> c == ShellCommandView::Ls
            &&& w == t("ps") ==> c == ShellCommandView::Ps
            &&& w == t("pwd") ==> c == ShellCommandView::Pwd
            &&& w == t("clear") ==> c == ShellCommandView::Clear
            &&& w == t("reboot") ==> c == ShellCommandView::Reboot
            &&& w == t("halt") ==> c == ShellCommandView::Halt
            &&& w == t("cat") ==> c == ShellCommandView::Cat(rest)
            &&& w == t("rm") ==> c == ShellCommandView::Rm(rest)
            &&& w == t("echo") ==> c == ShellCommandView::Echo(rest)
            &&& w == t("exit") ==> c is Exit
            &&& w == t("run") ==> c is Run || c is RunUsage
            &&& c is Unknown ==> c == ShellCommandView::Unknown(w)
        }),
{
    let l = trimmed(line);
    lemma_first_space_bound(l);
    lemma_command_words();
    let w = split_at_space(l).0;
    assert(w.len() == first_space(l));
    if w.len() > 0 {
        assert(l.len() > 0);
    }
    if w == t("exit") {
        assert(w.len() == 4 && w[0] == 101u8 && w[1] == 120u8);
    }
    if w == t("halt") {
        assert(w.len() == 4 && w[0] == 104u8 && w[1] == 97u8);
    }
    if w == t("reboot") {
        assert(w.len() == 6 && w[0] == 114u8 && w[1] == 101u8);
    }
    if w == t("help") {
        assert(w.len() == 4 && w[0] == 104u8 && w[1] == 101u8);
    }
    if w == t("clear") {
        assert(w.len() == 5 && w[0] == 99u8 && w[1] == 108u8);
    }
    if w == t("echo") {
        assert(w.len() == 4 && w[0] == 101u8 && w[1] == 99u8);
    }
    if w == t("pwd") {
        assert(w.len() == 3 && w[0] == 112u8 && w[1] == 119u8);
    }
    if w == t("ls") {
        assert(w.len() == 2 && w[0] == 108u8 && w[1] == 115u8);
    }
    if w == t("ps") {
        assert(w.len() == 2 && w[0] == 112u8 && w[1] == 115u8);
    }
    if w == t("cat") {
        assert(w.len() == 3 && w[0] == 99u8 && w[1] == 97u8);
    }
    if w == t("rm") {
        assert(w.len() == 2 && w[0] == 114u8 && w[1] == 109u8);
    }
    if w == t("editor") {
        assert(w.len() == 6 && w[0] == 101u8 && w[1] == 100u8);
    }
    if w == t("ed") {
        assert(w.len() == 2 && w[0] == 101u8 && w[1] == 100u8);
    }
    if w == t("viewer") {
        assert(w.len() == 6 && w[0] == 118u8 && w[1] == 105u8);
    }
    if w == t("view") {
        assert(w.len() == 4 && w[0] == 118u8 && w[1] == 105u8);
    }
    if w == t("copy") {
        assert(w.len() == 4 && w[0] == 99u8 && w[1] == 111u8);
    }
    if w == t("cp") {
        assert(w.len() == 2 && w[0] == 99u8 && w[1] == 112u8);
    }
    if w == t("monitor") {
        assert(w.len() == 7 && w[0] == 109u8 && w[1] == 111u8);
    }
    if w == t("top") {
        assert(w.len() == 3 && w[0] == 116u8 && w[1] == 111u8);
    }
    if w == t("run") {
        assert(w.len() == 3 && w[0] == 114u8 && w[1] == 117u8);
    }
}

/// Decide what a line read at the prompt asks for.
pub fn dispatch(line: &[u8]) -> (c: ShellCommand)
    ensures
        c@ == spec_dispatch(line@),
{
    let l = trim(line);
    if l.len() == 0 {
        return ShellCommand::Empty;
    }
    let (cmd, rest) = split_cmd(l.as_slice());
    let c = cmd.as_slice();
    if bytes_eq(c, "exit".as_bytes()) {
        let code = match parse_u32(rest.as_slice()) {
            Some(v) => v as i32,
            None => 0,
        };
        ShellCommand::Exit(code)
    } else if bytes_eq(c, "halt".as_bytes()) {
        ShellCommand::Halt
    } else if bytes_eq(c, "reboot".as_bytes()) {
        ShellCommand::Reboot
    } else if bytes_eq(c, "help".as_bytes()) {
        ShellCommand::Help
    } else if bytes_eq(c, "clear".as_bytes()) {
        ShellCommand::Clear
    } else if bytes_eq(c, "echo".as_bytes()) {
        ShellCommand::Echo(rest)
    } else if bytes_eq(c, "pwd".as_bytes()) {
        ShellCommand::Pwd
    } else if bytes_eq(c, "ls".as_bytes()) {
        ShellCommand::Ls
    } else if bytes_eq(c, "ps".as_bytes()) {
        ShellCommand::Ps
    } else if bytes_eq(c, "cat".as_bytes()) {
        ShellCommand::Cat(rest)
    } else if bytes_eq(c, "rm".as_bytes()) {
        ShellCommand::Rm(rest)
    } else if bytes_eq(c, "editor".as_bytes()) || bytes_eq(c, "ed".as_bytes()) {
        ShellCommand::Run(PROG_EDITOR)
    } else if bytes_eq(c, "viewer".as_bytes()) || bytes_eq(c, "view".as_bytes()) {
        ShellCommand::Run(PROG_VIEWER)
    } else if bytes_eq(c, "copy".as_bytes()) || bytes_eq(c, "cp".as_bytes()) {
        ShellCommand::Run(PROG_COPY)
    } else if bytes_eq(c, "monitor".as_bytes()) || bytes_eq(c, "top".as_bytes()) {
        ShellCommand::Run(PROG_MONITOR)
    } else if bytes_eq(c, "run".as_bytes()) {
        match parse_u32(rest.as_slice()) {
            Some(v) => ShellCommand::Run(v),
            None => ShellCommand::RunUsage,
        }
    } else {
        ShellCommand::Unknown(cmd)
    }
}

/// The reply to an unknown command.
pub fn unknown_command(cmd: &[u8]) -> (out: Vec<u8>)
    ensures
        out@ == t("shell: unknown command: ") + cmd@ + t("\r\n       (type 'help' for a list of commands)\r\n"),
{
    let mut v: Vec<u8> = Vec::new();
    push_text(&mut v, "shell: unknown command: ");
    push_bytes(&mut v, cmd);
    push_text(&mut v, "\r\n       (type 'help' for a list of commands)\r\n");
    v
}

/// The name of a process state in the process table (nine columns).
pub open spec fn state_name(s: u8) -> Seq<u8> {
    if s == 0 { t("empty    ") }
    else if s == 1 { t("runnable ") }
    else if s == 2 { t("running  ") }
    else if s == 3 { t("blocked  ") }
    else if s == 4 { t("dead     ") }
    else { t("unknown  ") }
}

/// `n` spaces.
pub open spec fn spaces(n: int) -> Seq<u8> {
    Seq::new(if n > 0 { n as nat } else { 0 }, |i: int| 32u8)
}

/// A row of the process table: the pid padded to six columns, the state.
pub open spec fn ps_row(pid: u32, state: u8) -> Seq<u8> {
    dec(pid as nat) + spaces(6 - dec(pid as nat).len()) + state_name(state) + t("\r\n")
}

/// The rows of the first `k` processes, skipping empty slots (pid 0).
pub open spec fn ps_rows(procs: Seq<(u32, u8)>, k: int) -> Seq<u8>
    decreases k,
{
    if k <= 0 {
        Seq::empty()
    } else {
        ps_rows(procs, k - 1) + if procs[k - 1].0 != 0 { ps_row(procs[k - 1].0, procs[k - 1].1) } else { Seq::empty() }
    }
}

/// The process table printed by `ps`, from `(pid, state)` pairs.
pub fn ps_table(procs: &[(u32, u8)]) -> (out: Vec<u8>)
    ensures
        out@ == t("PID   STATE\r\n") + t("----  -----\r\n") + ps_rows(procs@, procs@.len() as int),
{
    let mut v: Vec<u8> = Vec::new();
    push_text(&mut v, "PID   STATE\r\n");
    push_text(&mut v, "----  -----\r\n");
    let ghost head = v@;
    let mut i: usize = 0;
    while i < procs.len()
        invariant
            i <= procs@.len(),
            head == t("PID   STATE\r\n") + t("----  -----\r\n"),
            v@ == head + ps_rows(procs@, i as int),
        decreases procs@.len() - i,
    {
        let (pid, state) = procs[i];
        if pid != 0 {
            let ghost before = v@;
            let d = u32_to_dec(pid);
            push_bytes(&mut v, d.as_slice());
            let mut k = d.len();
            while k < 6
                invariant
                    d@ == dec(pid as nat),
                    d@.len() <= k <= 6 || (k == d@.len() && k > 6),
                    v@ == before + d@ + spaces(k - d@.len()),
                decreases 6 - k,
            {
                v.push(32u8);
                k += 1;
                assert(v@ =~= before + d@ + spaces(k - d@.len()));
            }
            assert(spaces(k - d@.len()) =~= spaces(6 - d@.len()));
            if state == 0 { push_text(&mut v, "empty    "); }
            else if state == 1 { push_text(&mut v, "runnable "); }
            else if state == 2 { push_text(&mut v, "running  "); }
            else if state == 3 { push_text(&mut v, "blocked  "); }
            else if state == 4 { push_text(&mut v, "dead     "); }
            else { push_text(&mut v, "unknown  "); }
            push_text(&mut v, "\r\n");
            assert(v@ =~= before + ps_row(pid, state));
        }
        i += 1;
        assert(v@ =~= head + ps_rows(procs@, i as int));
    }
    v
}

/// The help text.
pub open spec fn help_text() -> Seq<u8> {
    t("\r\nKingdom OS shell commands:\r\n\r\n")
        + t("  help              -show this help\r\n")
        + t("  ls                -list filesystem root\r\n")
        + t("  cat <file>        -print file contents\r\n")
        + t("  rm  <file>        -delete a file\r\n")
        + t("  echo [text]       -print text\r\n")
        + t("  ps                -show process table\r\n")
        + t("  pwd               -print working directory\r\n")
        + t("  clear             -clear the terminal\r\n")
        + t("  editor [file]     -open text editor (id=2)\r\n")
        + t("  viewer <file>     -view a file (id=3)\r\n")
        + t("  copy <src> <dst>  -copy a file (id=4)\r\n")
        + t("  monitor           -system monitor (id=5)\r\n")
        + t("  run <id>          -spawn program by numeric id\r\n")
        + t("  reboot            -reboot the system\r\n")
        + t("  halt              -halt the system\r\n")
        + t("  exit [code]       -exit shell\r\n\r\n")
}

/// The help text printed by `help`.
pub fn cmd_help() -> (out: Vec<u8>)
    ensures
        out@ == help_text(),
{
    let mut v: Vec<u8> = Vec::new();
    push_text(&mut v, "\r\nKingdom OS shell commands:\r\n\r\n");
    push_text(&mut v, "  help              -show this help\r\n");
    push_text(&mut v, "  ls                -list filesystem root\r\n");
    push_text(&mut v, "  cat <file>        -print file contents\r\n");
    push_text(&mut v, "  rm  <file>        -delete a file\r\n");
    push_text(&mut v, "  echo [text]       -print text\r\n");
    push_text(&mut v, "  ps                -show process table\r\n");
    push_text(&mut v, "  pwd               -print working directory\r\n");
    push_text(&mut v, "  clear             -clear the terminal\r\n");
    push_text(&mut v, "  editor [file]     -open text editor (id=2)\r\n");
    push_text(&mut v, "  viewer <file>     -view a file (id=3)\r\n");
    push_text(&mut v, "  copy <src> <dst>  -copy a file (id=4)\r\n");
    push_text(&mut v, "  monitor           -system monitor (id=5)\r\n");
    push_text(&mut v, "  run <id>          -spawn program by numeric id\r\n");
    push_text(&mut v, "  reboot            -reboot the system\r\n");
    push_text(&mut v, "  halt              -halt the system\r\n");
    push_text(&mut v, "  exit [code]       -exit shell\r\n\r\n");
    v
}

/// The terminal control sequence that clears the screen and homes the cursor.
pub fn cmd_clear() -> (out: Vec<u8>)
    ensures
        out@ == t("\x1b[2J\x1b[H"),
{
    let mut v: Vec<u8> = Vec::new();
    push_text(&mut v, "\x1b[2J\x1b[H");
    v
}

} // verus!
