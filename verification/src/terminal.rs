//! The terminal emulator: a 64x24 character grid with a scrolling output
//! area, a prompt line, and a small built-in command line (help, clear,
//! ps, ls, exit). The caller renders the grid, talks to the compositor and
//! fetches what `ls` and `ps` show.

use vstd::prelude::*;
use vstd::string::StringSliceAdditionalSpecFns;
use crate::cogman::persona::t;
use crate::tiling::scene::Draw;

verus! {

/// Columns of the grid.
pub const TERM_COLS: usize = 64;
/// Rows of the grid; the last one is the prompt.
pub const TERM_ROWS: usize = 24;
/// Longest input line.
pub const MAX_LINE: usize = 62;

/// A row of `s` as shown: at most 64 bytes, padded with spaces.
pub open spec fn row_of(s: Seq<u8>) -> Seq<u8> {
    Seq::new(64, |i: int| if i < s.len() { s[i] } else { 32u8 })
}

/// An empty row.
pub open spec fn blank_row() -> Seq<u8> {
    Seq::new(64, |i: int| 32u8)
}

/// The terminal as the contracts see it: the grid's rows, where the next
/// output line goes, and the input line.
pub struct TermView {
    pub rows: Seq<Seq<u8>>,
    pub cur_row: int,
    pub line: Seq<u8>,
}

/// The rows after scrolling up one line: the prompt row comes back blank.
pub open spec fn scrolled(rows: Seq<Seq<u8>>) -> Seq<Seq<u8>> {
    rows.subrange(1, TERM_ROWS as int).push(blank_row())
}

/// The terminal after printing a line: scroll when the output area is
/// full, write the line, clear the prompt row.
pub open spec fn after_print(v: TermView, s: Seq<u8>) -> TermView {
    let (rows, r) = if v.cur_row >= TERM_ROWS - 1 { (scrolled(v.rows), TERM_ROWS - 2) } else { (v.rows, v.cur_row) };
    TermView { rows: rows.update(r, row_of(s)).update(TERM_ROWS - 1, blank_row()), cur_row: r + 1, line: v.line }
}

/// The terminal after printing `lines` in order.
pub open spec fn after_prints(v: TermView, lines: Seq<Seq<u8>>) -> TermView
    decreases lines.len(),
{
    if lines.len() == 0 { v } else { after_print(after_prints(v, lines.drop_last()), lines.last()) }
}

/// The prompt row: "> " and the input line.
pub open spec fn prompt_row(line: Seq<u8>) -> Seq<u8> {
    row_of(seq![62u8, 32u8] + line)
}

/// The terminal's character grid and input state.
pub struct Terminal {
    rows: Vec<Vec<u8>>,
    cur_row: usize,
    line: Vec<u8>,
}

impl View for Terminal {
    type V = TermView;

    closed spec fn view(&self) -> TermView {
        TermView { rows: self.rows@.map_values(|r: Vec<u8>| r@), cur_row: self.cur_row as int, line: self.line@ }
    }
}

/// Whether a view is a consistent terminal.
pub open spec fn term_ok(v: TermView) -> bool {
    &&& v.rows.len() == TERM_ROWS
    &&& forall|r: int| 0 <= r < TERM_ROWS ==> (#[trigger] v.rows[r]).len() == TERM_COLS
    &&& 0 <= v.cur_row <= TERM_ROWS - 1
    &&& v.line.len() <= MAX_LINE
}

fn blank() -> (r: Vec<u8>)
    ensures
        r@ == blank_row(),
{
    let mut r: Vec<u8> = Vec::new();
    let mut i: usize = 0;
    while i < TERM_COLS
        invariant
            i <= TERM_COLS,
            r@.len() == i,
            forall|j: int| 0 <= j < i ==> r@[j] == 32u8,
        decreases TERM_COLS - i,
    {
        r.push(32u8);
        i += 1;
    }
    assert(r@ =~= blank_row());
    r
}

fn make_row(s: &[u8]) -> (r: Vec<u8>)
    ensures
        r@ == row_of(s@),
{
    let mut r: Vec<u8> = Vec::new();
    let mut i: usize = 0;
    while i < TERM_COLS
        invariant
            i <= TERM_COLS,
            r@.len() == i,
            forall|j: int| 0 <= j < i ==> r@[j] == (if j < s@.len() { s@[j] } else { 32u8 }),
        decreases TERM_COLS - i,
    {
        if i < s.len() {
            r.push(s[i]);
        } else {
            r.push(32u8);
        }
        i += 1;
    }
    assert(r@ =~= row_of(s@));
    r
}

impl Terminal {
    #[verifier::type_invariant]
    spec fn inv(self) -> bool {
        term_ok(self@)
    }

    /// An empty screen with the output at the top and no input.
    pub fn new() -> (term: Self)
        ensures
            term@.rows == Seq::new(TERM_ROWS as nat, |r: int| blank_row()),
            term@.cur_row == 0,
            term@.line.len() == 0,
    {
        let mut rows: Vec<Vec<u8>> = Vec::new();
        let mut i: usize = 0;
        while i < TERM_ROWS
            invariant
                i <= TERM_ROWS,
                rows@.len() == i,
                forall|j: int| 0 <= j < i ==> (#[trigger] rows@[j])@ == blank_row(),
            decreases TERM_ROWS - i,
        {
            rows.push(blank());
            i += 1;
        }
        let term = Terminal { rows, cur_row: 0, line: Vec::new() };
        assert(term@.rows =~= Seq::new(TERM_ROWS as nat, |r: int| blank_row()));
        term
    }

    /// Row `r` of the grid.
    pub fn row(&self, r: usize) -> (out: &[u8])
        requires
            r < TERM_ROWS,
        ensures
            out@ == self@.rows[r as int],
    {
        proof { use_type_invariant(self); }
        self.rows[r].as_slice()
    }

    /// The input line.
    pub fn line(&self) -> (out: &[u8])
        ensures
            out@ == self@.line,
    {
        self.line.as_slice()
    }

    /// Print a line into the output area, scrolling when it is full.
    pub fn print_line(&mut self, s: &[u8])
        ensures
            final(self)@ == after_print(old(self)@, s@),
    {
        proof { use_type_invariant(&*self); }
        let ghost v0 = self@;
        let Terminal { mut rows, mut cur_row, line } = self.take();
        if cur_row >= TERM_ROWS - 1 {
            rows.remove(0);
            rows.push(blank());
            cur_row = TERM_ROWS - 2;
            assert(rows@.map_values(|r: Vec<u8>| r@) =~= scrolled(v0.rows));
        }
        rows.set(cur_row, make_row(s));
        rows.set(TERM_ROWS - 1, blank());
        cur_row = cur_row + 1;
        let term = Terminal { rows, cur_row, line };
        assert(term@.rows =~= after_print(v0, s@).rows);
        *self = term;
    }

    fn take(&mut self) -> (r: Terminal)
        ensures
            r@ == old(self)@,
            term_ok(r@),
            r.rows@.len() == TERM_ROWS,
            forall|i: int| 0 <= i < TERM_ROWS ==> (#[trigger] r.rows@[i])@.len() == TERM_COLS,
    {
        let mut e = Terminal::new();
        std::mem::swap(self, &mut e);
        proof {
            use_type_invariant(&e);
            assert forall|i: int| 0 <= i < TERM_ROWS implies (#[trigger] e.rows@[i])@.len() == TERM_COLS by {
                assert(e@.rows[i] == e.rows@[i]@);
            }
        }
        e
    }
}

/// The help text, one line each.
pub open spec fn help_lines() -> Seq<Seq<u8>> {
    seq![
        t("RogueOS Terminal v1.0"),
        t("  help     show this message"),
        t("  clear    clear screen"),
        t("  ps       list processes"),
        t("  ls       list root fs"),
        t("  exit     close terminal"),
    ]
}

/// The non-empty pieces of a listing between line ends, from the piece
/// starting at `start` with the scan at `i`.
pub open spec fn pieces(buf: Seq<u8>, start: int, i: int) -> Seq<Seq<u8>>
    decreases buf.len() - i,
{
    if i >= buf.len() {
        if buf.len() > start { seq![buf.subrange(start, buf.len() as int)] } else { Seq::empty() }
    } else if buf[i] == 10 || buf[i] == 13 {
        (if i > start { seq![buf.subrange(start, i)] } else { Seq::empty() }) + pieces(buf, i + 1, i + 1)
    } else {
        pieces(buf, start, i + 1)
    }
}

/// The five-digit field of a pid: its decimal digits, or its last five
/// digits (zero-padded) when it has more.
pub open spec fn pid_digits(p: u32) -> Seq<u8>
    decreases p,
{
    if p < 10 { seq![(48 + p) as u8] } else if p < 100000 { pid_digits(p / 10).push((48 + p % 10) as u8) } else {
        five(p % 100000)
    }
}

/// Exactly five decimal digits of `v` (below 100000).
pub open spec fn five(v: u32) -> Seq<u8> {
    seq![
        (48 + v / 10000 % 10) as u8, (48 + v / 1000 % 10) as u8, (48 + v / 100 % 10) as u8,
        (48 + v / 10 % 10) as u8, (48 + v % 10) as u8,
    ]
}

/// The name of a process state.
pub open spec fn proc_state(s: u8) -> Seq<u8> {
    if s == 0 { t("empty") }
    else if s == 1 { t("runnable") }
    else if s == 2 { t("running") }
    else if s == 3 { t("blocked") }
    else if s == 4 { t("dead") }
    else { t("?") }
}

/// A process row: the pid field padded to six columns, then the state.
pub open spec fn proc_row(p: (u32, u8)) -> Seq<u8> {
    pid_digits(p.0) + Seq::new((6 - pid_digits(p.0).len()) as nat, |i: int| 32u8) + proc_state(p.1)
}

/// The built-in commands, in the order the command line tests for them.
#[derive(Clone, Copy, Debug, PartialEq, Eq, Structural)]
pub enum TermCommand {
    Help,
    Clear,
    Empty,
    Ls,
    Ps,
    Exit,
    Unknown,
}

/// Which built-in command a line names: `help` or `?`, then `clear`, an
/// empty line, `ls`, `ps` and `exit`; anything else is unknown.
pub open spec fn term_command(cmd: Seq<u8>) -> TermCommand {
    if cmd == t("help") || cmd == t("?") {
        TermCommand::Help
    } else if cmd == t("clear") {
        TermCommand::Clear
    } else if cmd.len() == 0 {
        TermCommand::Empty
    } else if cmd == t("ls") {
        TermCommand::Ls
    } else if cmd == t("ps") {
        TermCommand::Ps
    } else if cmd == t("exit") {
        TermCommand::Exit
    } else {
        TermCommand::Unknown
    }
}

/// What a command prints, line by line (`clear` prints nothing).
pub open spec fn command_lines(cmd: Seq<u8>, listing: Seq<u8>, procs: Seq<(u32, u8)>) -> Seq<Seq<u8>> {
    match term_command(cmd) {
        TermCommand::Help => help_lines(),
        TermCommand::Clear | TermCommand::Empty => Seq::empty(),
        TermCommand::Ls => if listing.len() > 0 { pieces(listing, 0, 0) } else { seq![t("(empty or error)")] },
        TermCommand::Ps => if procs.len() > 0 {
            seq![t("PID  STATE")] + procs.map_values(|p: (u32, u8)| proc_row(p))
        } else {
            seq![t("(no process info)")]
        },
        TermCommand::Exit => seq![t("Goodbye.")],
        TermCommand::Unknown => seq![t("unknown: ") + cmd.subrange(0, if cmd.len() < 55 { cmd.len() as int } else { 55 })],
    }
}

/// Which built-in command a line names.
pub fn classify_command(cmd: &[u8]) -> (c: TermCommand)
    ensures
        c == term_command(cmd@),
{
    if crate::shell::bytes_eq(cmd, "help".as_bytes()) || crate::shell::bytes_eq(cmd, "?".as_bytes()) {
        TermCommand::Help
    } else if crate::shell::bytes_eq(cmd, "clear".as_bytes()) {
        TermCommand::Clear
    } else if cmd.len() == 0 {
        TermCommand::Empty
    } else if crate::shell::bytes_eq(cmd, "ls".as_bytes()) {
        TermCommand::Ls
    } else if crate::shell::bytes_eq(cmd, "ps".as_bytes()) {
        TermCommand::Ps
    } else if crate::shell::bytes_eq(cmd, "exit".as_bytes()) {
        TermCommand::Exit
    } else {
        TermCommand::Unknown
    }
}

/// Keys the terminal understands.
#[derive(Clone, Copy, Debug, PartialEq, Eq, Structural)]
pub enum Key {
    Space,
    Minus,
    Equal,
    Comma,
    Period,
    Slash,
    Semi,
    Quote,
    LBrace,
    RBrace,
    BSlash,
    Grave,
    /// Digit key 0 to 9.
    Digit(u8),
    /// Letter key, 0 for A to 25 for Z.
    Letter(u8),
    /// A key with no character.
    Unmapped,
}

/// The character a key types, if any.
pub open spec fn key_char(k: Key) -> Option<u8> {
    match k {
        Key::Space => Some(32u8),
        Key::Minus => Some(45u8),
        Key::Equal => Some(61u8),
        Key::Comma => Some(44u8),
        Key::Period => Some(46u8),
        Key::Slash => Some(47u8),
        Key::Semi => Some(59u8),
        Key::Quote => Some(39u8),
        Key::LBrace => Some(91u8),
        Key::RBrace => Some(93u8),
        Key::BSlash => Some(92u8),
        Key::Grave => Some(96u8),
        Key::Digit(d) => if d <= 9 { Some((48 + d) as u8) } else { None },
        Key::Letter(l) => if l < 26 { Some((97 + l) as u8) } else { None },
        Key::Unmapped => None,
    }
}

/// Convert a key to the printable ASCII character it types, or None.
pub fn keycode_to_char(k: Key) -> (c: Option<u8>)
    ensures
        c == key_char(k),
{
    match k {
        Key::Space => Some(32u8),
        Key::Minus => Some(45u8),
        Key::Equal => Some(61u8),
        Key::Comma => Some(44u8),
        Key::Period => Some(46u8),
        Key::Slash => Some(47u8),
        Key::Semi => Some(59u8),
        Key::Quote => Some(39u8),
        Key::LBrace => Some(91u8),
        Key::RBrace => Some(93u8),
        Key::BSlash => Some(92u8),
        Key::Grave => Some(96u8),
        Key::Digit(d) => if d <= 9 { Some(48 + d) } else { None },
        Key::Letter(l) => if l < 26 { Some(97 + l) } else { None },
        Key::Unmapped => None,
    }
}

/// A key event the terminal handles.
#[derive(Clone, Copy, Debug, PartialEq, Eq, Structural)]
pub enum TermKey {
    Enter,
    Backspace,
    Esc,
    Other(Key),
}

/// What the caller does after a key.
#[derive(Clone, Debug, PartialEq, Eq)]
pub enum TermAction {
    /// Nothing changed.
    Nothing,
    /// Render with the cursor at this column and commit.
    Redraw(usize),
    /// The line was echoed: run this command, show the prompt, render with
    /// the cursor at column 2 and commit.
    Execute(Vec<u8>),
    /// Disconnect from the compositor and exit.
    Disconnect,
}

fn push_str_bytes(v: &mut Vec<u8>, s: &str)
    ensures
        final(v)@ == old(v)@ + t(s),
{
    crate::cogman::persona::push_text(v, s);
}

proof fn lemma_five_len(v: u32)
    ensures
        five(v).len() == 5,
{
}

proof fn lemma_pid_digits_len(p: u32)
    ensures
        1 <= pid_digits(p).len() <= 5,
    decreases p,
{
    if p >= 10 && p < 100000 {
        lemma_pid_digits_len(p / 10);
        assert(p / 10 < 10000);
        if p / 10 >= 10 {
            lemma_pid_digits_small(p / 10);
        }
    }
}

proof fn lemma_pid_digits_small(p: u32)
    requires
        p < 10000,
    ensures
        pid_digits(p).len() <= 4,
    decreases p,
{
    if p >= 10 {
        lemma_pid_digits_small3(p / 10);
    }
}

proof fn lemma_pid_digits_small3(p: u32)
    requires
        p < 1000,
    ensures
        pid_digits(p).len() <= 3,
    decreases p,
{
    if p >= 10 {
        lemma_pid_digits_small2(p / 10);
    }
}

proof fn lemma_pid_digits_small2(p: u32)
    requires
        p < 100,
    ensures
        pid_digits(p).len() <= 2,
{
    if p >= 10 {
        let q: u32 = p / 10;
        assert(q < 10);
        assert(pid_digits(q).len() == 1);
    }
}

/// The pid field of a process row.
fn pid_field(p: u32) -> (out: Vec<u8>)
    ensures
        out@ == pid_digits(p),
    decreases p,
{
    if p < 10 {
        let mut v: Vec<u8> = Vec::new();
        v.push(48 + p as u8);
        assert(v@ =~= pid_digits(p));
        v
    } else if p < 100000 {
        let mut v = pid_field(p / 10);
        v.push(48 + (p % 10) as u8);
        v
    } else {
        let w = p % 100000;
        let mut v: Vec<u8> = Vec::new();
        v.push(48 + (w / 10000 % 10) as u8);
        v.push(48 + (w / 1000 % 10) as u8);
        v.push(48 + (w / 100 % 10) as u8);
        v.push(48 + (w / 10 % 10) as u8);
        v.push(48 + (w % 10) as u8);
        assert(v@ =~= pid_digits(p));
        v
    }
}

/// The row shown for a process.
fn proc_row_bytes(p: (u32, u8)) -> (out: Vec<u8>)
    ensures
        out@ == proc_row(p),
{
    let mut v = pid_field(p.0);
    proof { lemma_pid_digits_len(p.0); }
    let ghost d = v@;
    let mut k = v.len();
    while k < 6
        invariant
            d == pid_digits(p.0),
            d.len() <= k <= 6,
            v@ == d + Seq::new((k - d.len()) as nat, |i: int| 32u8),
        decreases 6 - k,
    {
        v.push(32u8);
        k += 1;
        assert(v@ =~= d + Seq::new((k - d.len()) as nat, |i: int| 32u8));
    }
    let s = p.1;
    if s == 0 { push_str_bytes(&mut v, "empty"); }
    else if s == 1 { push_str_bytes(&mut v, "runnable"); }
    else if s == 2 { push_str_bytes(&mut v, "running"); }
    else if s == 3 { push_str_bytes(&mut v, "blocked"); }
    else if s == 4 { push_str_bytes(&mut v, "dead"); }
    else { push_str_bytes(&mut v, "?"); }
    v
}

impl Terminal {
    /// Put the prompt and the input line on the last row.
    pub fn show_prompt(&mut self)
        ensures
            final(self)@ == (TermView { rows: old(self)@.rows.update(TERM_ROWS - 1, prompt_row(old(self)@.line)), ..old(self)@ }),
    {
        proof { use_type_invariant(&*self); }
        let mut p: Vec<u8> = Vec::new();
        p.push(62u8);
        p.push(32u8);
        let ghost head = p@;
        crate::cogman::persona::push_bytes(&mut p, self.line.as_slice());
        assert(p@ =~= seq![62u8, 32u8] + self@.line);
        let row = make_row(p.as_slice());
        let Terminal { mut rows, cur_row, line } = self.take();
        rows.set(TERM_ROWS - 1, row);
        let term = Terminal { rows, cur_row, line };
        assert(term@.rows =~= old(self)@.rows.update(TERM_ROWS - 1, prompt_row(old(self)@.line)));
        *self = term;
    }

    /// Clear the output area and start it at the top; the prompt row stays.
    pub fn clear(&mut self)
        ensures
            final(self)@.rows == Seq::new(TERM_ROWS as nat, |r: int| if r < TERM_ROWS - 1 { blank_row() } else { old(self)@.rows[r] }),
            final(self)@.cur_row == 0,
            final(self)@.line == old(self)@.line,
    {
        let Terminal { mut rows, cur_row: _, line } = self.take();
        let ghost old_rows = rows@;
        let mut r: usize = 0;
        while r < TERM_ROWS - 1
            invariant
                r <= TERM_ROWS - 1,
                rows@.len() == TERM_ROWS,
                forall|i: int| 0 <= i < r ==> (#[trigger] rows@[i])@ == blank_row(),
                forall|i: int| r <= i < TERM_ROWS ==> #[trigger] rows@[i] == old_rows[i],
                forall|i: int| 0 <= i < TERM_ROWS ==> (#[trigger] old_rows[i])@.len() == TERM_COLS,
            decreases TERM_ROWS - 1 - r,
        {
            rows.set(r, blank());
            r += 1;
        }
        let term = Terminal { rows, cur_row: 0, line };
        assert(term@.rows =~= Seq::new(TERM_ROWS as nat, |r: int| if r < TERM_ROWS - 1 { blank_row() } else { old(self)@.rows[r] }));
        *self = term;
    }

    /// Run a built-in command. `listing` is what the root directory listing
    /// returned (empty on failure) and `procs` the process table as (pid,
    /// state) pairs; only `ls` and `ps` read them. Returns whether the
    /// terminal is to exit.
    pub fn run_command(&mut self, cmd: &[u8], listing: &[u8], procs: &[(u32, u8)]) -> (exit: bool)
        ensures
            exit == (term_command(cmd@) == TermCommand::Exit),
            term_command(cmd@) == TermCommand::Clear ==> final(self)@.rows == Seq::new(TERM_ROWS as nat, |r: int| if r < TERM_ROWS - 1 {
                blank_row()
            } else {
                old(self)@.rows[r]
            }) && final(self)@.cur_row == 0 && final(self)@.line == old(self)@.line,
            term_command(cmd@) != TermCommand::Clear ==> final(self)@ == after_prints(old(self)@, command_lines(cmd@, listing@, procs@)),
    {
        let ghost v0 = self@;
        let ghost lines = command_lines(cmd@, listing@, procs@);
        assert(after_prints(v0, Seq::<Seq<u8>>::empty()) == v0);
        if crate::shell::bytes_eq(cmd, "help".as_bytes()) || crate::shell::bytes_eq(cmd, "?".as_bytes()) {
            self.print_line("RogueOS Terminal v1.0".as_bytes());
            self.print_line("  help     show this message".as_bytes());
            self.print_line("  clear    clear screen".as_bytes());
            self.print_line("  ps       list processes".as_bytes());
            self.print_line("  ls       list root fs".as_bytes());
            self.print_line("  exit     close terminal".as_bytes());
            proof { self.lemma_prints_6(v0, lines); }
            false
        } else if crate::shell::bytes_eq(cmd, "clear".as_bytes()) {
            self.clear();
            false
        } else if cmd.len() == 0 {
            assert(lines =~= Seq::<Seq<u8>>::empty());
            false
        } else if crate::shell::bytes_eq(cmd, "ls".as_bytes()) {
            if listing.len() > 0 {
                self.print_pieces(listing);
            } else {
                self.print_line("(empty or error)".as_bytes());
                assert(lines.drop_last() =~= Seq::<Seq<u8>>::empty());
            }
            false
        } else if crate::shell::bytes_eq(cmd, "ps".as_bytes()) {
            if procs.len() > 0 {
                self.print_line("PID  STATE".as_bytes());
                proof {
                    let first = seq![t("PID  STATE")];
                    assert(first + procs@.subrange(0, 0).map_values(|p: (u32, u8)| proc_row(p)) =~= first);
                    assert(first.drop_last() =~= Seq::<Seq<u8>>::empty());
                    assert(after_prints(v0, Seq::<Seq<u8>>::empty()) == v0);
                    assert(after_prints(v0, first) == after_print(v0, t("PID  STATE")));
                }
                let mut i: usize = 0;
                while i < procs.len()
                    invariant
                        i <= procs@.len(),
                        self@ == after_prints(v0, seq![t("PID  STATE")] + procs@.subrange(0, i as int).map_values(|p: (u32, u8)| proc_row(p))),
                    decreases procs@.len() - i,
                {
                    let ghost before = seq![t("PID  STATE")] + procs@.subrange(0, i as int).map_values(|p: (u32, u8)| proc_row(p));
                    let row = proc_row_bytes(procs[i]);
                    self.print_line(row.as_slice());
                    i += 1;
                    let ghost after = seq![t("PID  STATE")] + procs@.subrange(0, i as int).map_values(|p: (u32, u8)| proc_row(p));
                    assert(after.drop_last() =~= before);
                }
                assert(procs@.subrange(0, procs@.len() as int) =~= procs@);
            } else {
                self.print_line("(no process info)".as_bytes());
                assert(lines.drop_last() =~= Seq::<Seq<u8>>::empty());
            }
            false
        } else if crate::shell::bytes_eq(cmd, "exit".as_bytes()) {
            self.print_line("Goodbye.".as_bytes());
            assert(lines.drop_last() =~= Seq::<Seq<u8>>::empty());
            true
        } else {
            let mut msg: Vec<u8> = Vec::new();
            push_str_bytes(&mut msg, "unknown: ");
            let n = if cmd.len() < 55 { cmd.len() } else { 55 };
            let mut i: usize = 0;
            while i < n
                invariant
                    n <= cmd@.len(),
                    i <= n,
                    msg@ == t("unknown: ") + cmd@.subrange(0, i as int),
                decreases n - i,
            {
                msg.push(cmd[i]);
                i += 1;
                assert(msg@ =~= t("unknown: ") + cmd@.subrange(0, i as int));
            }
            self.print_line(msg.as_slice());
            assert(lines.drop_last() =~= Seq::<Seq<u8>>::empty());
            false
        }
    }

    proof fn lemma_prints_6(&self, v0: TermView, lines: Seq<Seq<u8>>)
        requires
            lines == help_lines(),
            self@ == after_print(after_print(after_print(after_print(after_print(after_print(v0,
                t("RogueOS Terminal v1.0")), t("  help     show this message")), t("  clear    clear screen")),
                t("  ps       list processes")), t("  ls       list root fs")), t("  exit     close terminal")),
        ensures
            self@ == after_prints(v0, lines),
    {
        let l = lines;
        let s0 = Seq::<Seq<u8>>::empty();
        let s1 = s0.push(l[0]);
        let s2 = s1.push(l[1]);
        let s3 = s2.push(l[2]);
        let s4 = s3.push(l[3]);
        let s5 = s4.push(l[4]);
        let s6 = s5.push(l[5]);
        assert(s1.drop_last() =~= s0);
        assert(after_prints(v0, s0) == v0);
        assert(s2.drop_last() =~= s1);
        assert(s3.drop_last() =~= s2);
        assert(s4.drop_last() =~= s3);
        assert(s5.drop_last() =~= s4);
        assert(s6.drop_last() =~= s5);
        assert(after_prints(v0, s1) == after_print(v0, l[0]));
        assert(after_prints(v0, s2) == after_print(after_prints(v0, s1), l[1]));
        assert(after_prints(v0, s3) == after_print(after_prints(v0, s2), l[2]));
        assert(after_prints(v0, s4) == after_print(after_prints(v0, s3), l[3]));
        assert(after_prints(v0, s5) == after_print(after_prints(v0, s4), l[4]));
        assert(after_prints(v0, s6) == after_print(after_prints(v0, s5), l[5]));
        assert(s6 =~= l);
    }

    /// Print the non-empty pieces of a listing between line ends.
    fn print_pieces(&mut self, buf: &[u8])
        ensures
            final(self)@ == after_prints(old(self)@, pieces(buf@, 0, 0)),
    {
        let ghost v0 = self@;
        let mut start: usize = 0;
        let mut i: usize = 0;
        let ghost mut done: Seq<Seq<u8>> = Seq::empty();
        while i < buf.len()
            invariant
                start <= i <= buf@.len(),
                self@ == after_prints(v0, done),
                pieces(buf@, 0, 0) == done + pieces(buf@, start as int, i as int),
            decreases buf@.len() - i,
        {
            if buf[i] == 10 || buf[i] == 13 {
                let ghost d0 = done;
                if i > start {
                    let piece = crate::shell::trim_range_copy(buf, start, i);
                    self.print_line(piece.as_slice());
                    proof {
                        done = done.push(buf@.subrange(start as int, i as int));
                        assert(done.drop_last() =~= d0);
                    }
                }
                proof {
                    assert(pieces(buf@, start as int, i as int) == (if i > start { seq![buf@.subrange(start as int, i as int)] } else { Seq::empty() }) + pieces(buf@, i + 1, i + 1));
                    assert(d0 + ((if i > start { seq![buf@.subrange(start as int, i as int)] } else { Seq::empty() }) + pieces(buf@, i + 1, i + 1)) =~= done + pieces(buf@, i + 1, i + 1));
                }
                start = i + 1;
            }
            i += 1;
        }
        if buf.len() > start {
            let piece = crate::shell::trim_range_copy(buf, start, buf.len());
            let ghost d0 = done;
            self.print_line(piece.as_slice());
            proof {
                done = done.push(buf@.subrange(start as int, buf@.len() as int));
                assert(done.drop_last() =~= d0);
            }
        }
        assert(pieces(buf@, 0, 0) =~= done);
    }
}

/// The terminal after Enter: the input line is cleared and echoed after
/// "> " into the output area.
pub open spec fn after_enter(v: TermView) -> TermView {
    after_print(TermView { line: Seq::empty(), ..v }, seq![62u8, 32u8] + v.line)
}

/// The terminal with a new input line shown on the prompt row.
pub open spec fn with_line(v: TermView, line: Seq<u8>) -> TermView {
    TermView { rows: v.rows.update(TERM_ROWS - 1, prompt_row(line)), line, ..v }
}

impl Terminal {
    fn set_line(&mut self, line: Vec<u8>)
        requires
            line@.len() <= MAX_LINE,
        ensures
            final(self)@ == (TermView { line: line@, ..old(self)@ }),
    {
        let Terminal { rows, cur_row, line: _ } = self.take();
        *self = Terminal { rows, cur_row, line };
    }

    /// Handle a key press. Enter echoes the line and hands it back to be
    /// run; Backspace and printable keys edit the line and show it on the
    /// prompt row; Esc asks to disconnect.
    pub fn handle_key(&mut self, key: TermKey) -> (action: TermAction)
        ensures
            match key {
                TermKey::Enter => {
                    &&& final(self)@ == after_enter(old(self)@)
                    &&& action matches TermAction::Execute(c) && c@ == old(self)@.line
                },
                TermKey::Backspace => if old(self)@.line.len() > 0 {
                    &&& final(self)@ == with_line(old(self)@, old(self)@.line.drop_last())
                    &&& action == TermAction::Redraw((old(self)@.line.len() + 1) as usize)
                } else {
                    &&& final(self)@ == old(self)@
                    &&& action == TermAction::Nothing
                },
                TermKey::Esc => {
                    &&& final(self)@ == old(self)@
                    &&& action == TermAction::Disconnect
                },
                TermKey::Other(k) => if key_char(k) is Some && old(self)@.line.len() < MAX_LINE {
                    &&& final(self)@ == with_line(old(self)@, old(self)@.line.push(key_char(k)->0))
                    &&& action == TermAction::Redraw((old(self)@.line.len() + 3) as usize)
                } else {
                    &&& final(self)@ == old(self)@
                    &&& action == TermAction::Nothing
                },
            },
    {
        proof { use_type_invariant(&*self); }
        match key {
            TermKey::Enter => {
                let cmd = self.line.clone();
                let mut echo: Vec<u8> = Vec::new();
                echo.push(62u8);
                echo.push(32u8);
                crate::cogman::persona::push_bytes(&mut echo, cmd.as_slice());
                self.set_line(Vec::new());
                self.print_line(echo.as_slice());
                assert(echo@ =~= seq![62u8, 32u8] + old(self)@.line);
                TermAction::Execute(cmd)
            },
            TermKey::Backspace => {
                if self.line.len() > 0 {
                    let mut l = self.line.clone();
                    l.pop();
                    assert(l@ =~= old(self)@.line.drop_last());
                    self.set_line(l);
                    self.show_prompt();
                    TermAction::Redraw(self.line.len() + 2)
                } else {
                    TermAction::Nothing
                }
            },
            TermKey::Esc => TermAction::Disconnect,
            TermKey::Other(k) => {
                match keycode_to_char(k) {
                    Some(ch) => {
                        if self.line.len() < MAX_LINE {
                            let mut l = self.line.clone();
                            l.push(ch);
                            self.set_line(l);
                            self.show_prompt();
                            TermAction::Redraw(self.line.len() + 2)
                        } else {
                            TermAction::Nothing
                        }
                    },
                    None => TermAction::Nothing,
                }
            },
        }
    }
}

/// Typing a character and erasing it leaves the input line, and the
/// prompt row showing it, as they were.
pub proof fn lemma_type_then_erase(v: TermView, c: u8)
    requires
        term_ok(v),
    ensures
        ({
            let typed = with_line(v, v.line.push(c));
            let erased = with_line(typed, typed.line.drop_last());
            erased.line == v.line && erased.rows[TERM_ROWS - 1] == prompt_row(v.line)
                && erased.cur_row == v.cur_row
                && forall|r: int| 0 <= r < TERM_ROWS - 1 ==> erased.rows[r] == v.rows[r]
        }),
{
    assert(v.line.push(c).drop_last() =~= v.line);
}

/// Pixels between the grid and the surface edge.
pub const PAD: u32 = 4;
/// Horizontal advance of a character cell: the 4-pixel glyph and a gap.
pub const CHAR_W: u32 = 5;
/// Vertical advance of a row: the 6-pixel glyph and two lines of leading.
pub const CHAR_H: u32 = 8;
/// Surface width in pixels.
pub const PX_W: u32 = 328;
/// Surface height in pixels.
pub const PX_H: u32 = 200;
/// Background colour.
pub const C_BG: u32 = 0xFF1A1B26;
/// Text colour.
pub const C_FG: u32 = 0xFFC0CAF5;
/// Cursor colour.
pub const C_CURSOR: u32 = 0xFF7AA2F7;

/// The characters of grid row `r`, each in its cell.
pub open spec fn row_cells(row: Seq<u8>, r: int) -> Seq<Draw> {
    Seq::new(TERM_COLS as nat, |c: int| Draw::Char(row[c], (PAD + c * CHAR_W) as u32, (PAD + r * CHAR_H) as u32, C_FG))
}

/// The characters of the first `r` grid rows, row by row.
pub open spec fn grid_cells(rows: Seq<Seq<u8>>, r: int) -> Seq<Draw>
    decreases r,
{
    if r <= 0 { Seq::empty() } else { grid_cells(rows, r - 1) + row_cells(rows[r - 1], r - 1) }
}

/// A frame of the terminal: the background, every character of the grid,
/// and a one-pixel cursor bar under the prompt row after the input line.
pub open spec fn term_frame(v: TermView) -> Seq<Draw> {
    seq![Draw::Fill(0, 0, PX_W, PX_H, C_BG)] + grid_cells(v.rows, TERM_ROWS as int)
        + seq![Draw::Fill((PAD + (v.line.len() + 2) * CHAR_W) as u32, 195, CHAR_W, 1, C_CURSOR)]
}

impl Terminal {
    /// The drawing steps of a frame for the current grid and input line.
    pub fn render_steps(&self) -> (out: Vec<Draw>)
        ensures
            out@ == term_frame(self@),
    {
        proof { use_type_invariant(self); }
        let mut out: Vec<Draw> = Vec::new();
        out.push(Draw::Fill(0, 0, PX_W, PX_H, C_BG));
        let mut r: usize = 0;
        while r < TERM_ROWS
            invariant
                term_ok(self@),
                r <= TERM_ROWS,
                out@ == seq![Draw::Fill(0, 0, PX_W, PX_H, C_BG)] + grid_cells(self@.rows, r as int),
            decreases TERM_ROWS - r,
        {
            let ghost before = out@;
            let row = self.row(r);
            let mut c: usize = 0;
            while c < TERM_COLS
                invariant
                    term_ok(self@),
                    r < TERM_ROWS,
                    c <= TERM_COLS,
                    row@ == self@.rows[r as int],
                    out@ == before + row_cells(row@, r as int).subrange(0, c as int),
                decreases TERM_COLS - c,
            {
                let x: u32 = PAD + (c as u32) * CHAR_W;
                let y: u32 = PAD + (r as u32) * CHAR_H;
                out.push(Draw::Char(row[c], x, y, C_FG));
                c += 1;
                assert(out@ =~= before + row_cells(row@, r as int).subrange(0, c as int));
            }
            r += 1;
            assert(out@ =~= seq![Draw::Fill(0, 0, PX_W, PX_H, C_BG)] + grid_cells(self@.rows, r as int));
        }
        let cx: u32 = PAD + ((self.line.len() + 2) as u32) * CHAR_W;
        out.push(Draw::Fill(cx, 195, CHAR_W, 1, C_CURSOR));
        out
    }
}

} // verus!
