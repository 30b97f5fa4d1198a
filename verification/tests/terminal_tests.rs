use userland::terminal::{C_BG, C_CURSOR, C_FG, PX_H, PX_W};
use userland::tiling::scene::Draw;
use userland::terminal::{
    classify_command, keycode_to_char, Key, TermAction, TermCommand, TermKey, Terminal, MAX_LINE,
    TERM_COLS, TERM_ROWS,
};

fn row_text(term: &Terminal, r: usize) -> Vec<u8> {
    let row = term.row(r);
    let mut end = row.len();
    while end > 0 && row[end - 1] == b' ' {
        end -= 1;
    }
    row[..end].to_vec()
}

fn type_str(term: &mut Terminal, s: &str) {
    for b in s.bytes() {
        let k = match b {
            b'a'..=b'z' => Key::Letter(b - b'a'),
            b'0'..=b'9' => Key::Digit(b - b'0'),
            b' ' => Key::Space,
            b'?' => Key::Unmapped,
            _ => Key::Period,
        };
        term.handle_key(TermKey::Other(k));
    }
}

#[test]
fn new_terminal_is_blank() {
    let term = Terminal::new();
    for r in 0..TERM_ROWS {
        assert_eq!(term.row(r).len(), TERM_COLS);
        assert_eq!(row_text(&term, r), Vec::<u8>::new());
    }
    assert!(term.line().is_empty());
}

#[test]
fn printing_fills_then_scrolls() {
    let mut term = Terminal::new();
    for i in 0..TERM_ROWS as u8 {
        term.print_line(&[b'a' + (i % 26)]);
    }
    // 24 lines into 23 output rows: the first one scrolled away.
    assert_eq!(row_text(&term, 0), b"b".to_vec());
    assert_eq!(row_text(&term, TERM_ROWS - 2), vec![b'a' + 23]);
    assert_eq!(row_text(&term, TERM_ROWS - 1), Vec::<u8>::new());
}

#[test]
fn long_lines_are_cut_to_the_grid() {
    let mut term = Terminal::new();
    term.print_line(&[b'x'; 80]);
    assert_eq!(term.row(0), &[b'x'; 64][..]);
}

#[test]
fn keys_map_to_characters() {
    assert_eq!(keycode_to_char(Key::Letter(0)), Some(b'a'));
    assert_eq!(keycode_to_char(Key::Letter(25)), Some(b'z'));
    assert_eq!(keycode_to_char(Key::Letter(26)), None);
    assert_eq!(keycode_to_char(Key::Digit(7)), Some(b'7'));
    assert_eq!(keycode_to_char(Key::Slash), Some(b'/'));
    assert_eq!(keycode_to_char(Key::Grave), Some(b'`'));
    assert_eq!(keycode_to_char(Key::Unmapped), None);
}

#[test]
fn typing_edits_the_prompt() {
    let mut term = Terminal::new();
    assert_eq!(term.handle_key(TermKey::Other(Key::Letter(11))), TermAction::Redraw(3));
    assert_eq!(term.handle_key(TermKey::Other(Key::Letter(18))), TermAction::Redraw(4));
    assert_eq!(term.line(), b"ls");
    assert_eq!(row_text(&term, TERM_ROWS - 1), b"> ls".to_vec());
    assert_eq!(term.handle_key(TermKey::Backspace), TermAction::Redraw(3));
    assert_eq!(row_text(&term, TERM_ROWS - 1), b"> l".to_vec());
    assert_eq!(term.handle_key(TermKey::Backspace), TermAction::Redraw(2));
    assert_eq!(term.handle_key(TermKey::Backspace), TermAction::Nothing);
    assert_eq!(term.handle_key(TermKey::Other(Key::Unmapped)), TermAction::Nothing);
    assert_eq!(term.handle_key(TermKey::Esc), TermAction::Disconnect);
}

#[test]
fn input_line_is_bounded() {
    let mut term = Terminal::new();
    for _ in 0..MAX_LINE {
        term.handle_key(TermKey::Other(Key::Letter(0)));
    }
    assert_eq!(term.line().len(), MAX_LINE);
    assert_eq!(term.handle_key(TermKey::Other(Key::Letter(1))), TermAction::Nothing);
    assert_eq!(term.line().len(), MAX_LINE);
}

#[test]
fn enter_echoes_and_hands_back_the_line() {
    let mut term = Terminal::new();
    type_str(&mut term, "ps");
    let action = term.handle_key(TermKey::Enter);
    assert_eq!(action, TermAction::Execute(b"ps".to_vec()));
    assert_eq!(row_text(&term, 0), b"> ps".to_vec());
    assert!(term.line().is_empty());
}

#[test]
fn commands_are_classified() {
    assert_eq!(classify_command(b"help"), TermCommand::Help);
    assert_eq!(classify_command(b"?"), TermCommand::Help);
    assert_eq!(classify_command(b"clear"), TermCommand::Clear);
    assert_eq!(classify_command(b""), TermCommand::Empty);
    assert_eq!(classify_command(b"ls"), TermCommand::Ls);
    assert_eq!(classify_command(b"ps"), TermCommand::Ps);
    assert_eq!(classify_command(b"exit"), TermCommand::Exit);
    assert_eq!(classify_command(b"cd"), TermCommand::Unknown);
}

#[test]
fn help_prints_six_lines() {
    let mut term = Terminal::new();
    assert!(!term.run_command(b"help", b"", &[]));
    assert_eq!(row_text(&term, 0), b"RogueOS Terminal v1.0".to_vec());
    assert_eq!(row_text(&term, 5), b"  exit     close terminal".to_vec());
    assert_eq!(row_text(&term, 6), Vec::<u8>::new());
}

#[test]
fn ls_prints_each_entry() {
    let mut term = Terminal::new();
    term.run_command(b"ls", b"a.txt\r\n\nb.txt", &[]);
    assert_eq!(row_text(&term, 0), b"a.txt".to_vec());
    assert_eq!(row_text(&term, 1), b"b.txt".to_vec());
    assert_eq!(row_text(&term, 2), Vec::<u8>::new());
    let mut term = Terminal::new();
    term.run_command(b"ls", b"", &[]);
    assert_eq!(row_text(&term, 0), b"(empty or error)".to_vec());
}

#[test]
fn ps_prints_a_table() {
    let mut term = Terminal::new();
    term.run_command(b"ps", b"", &[(1, 2), (123456, 3)]);
    assert_eq!(row_text(&term, 0), b"PID  STATE".to_vec());
    assert_eq!(row_text(&term, 1), b"1     running".to_vec());
    assert_eq!(row_text(&term, 2), b"23456 blocked".to_vec());
    let mut term = Terminal::new();
    term.run_command(b"ps", b"", &[]);
    assert_eq!(row_text(&term, 0), b"(no process info)".to_vec());
}

#[test]
fn clear_exit_and_unknown() {
    let mut term = Terminal::new();
    term.print_line(b"old");
    assert!(!term.run_command(b"clear", b"", &[]));
    assert_eq!(row_text(&term, 0), Vec::<u8>::new());
    term.print_line(b"new");
    assert_eq!(row_text(&term, 0), b"new".to_vec());
    assert!(!term.run_command(b"frob", b"", &[]));
    assert_eq!(row_text(&term, 1), b"unknown: frob".to_vec());
    assert!(term.run_command(b"exit", b"", &[]));
    assert_eq!(row_text(&term, 2), b"Goodbye.".to_vec());
}

#[test]
fn terminal_frame_draws_grid_and_cursor() {
    let mut term = Terminal::new();
    let f = term.render_steps();
    assert_eq!(f.len(), 1 + TERM_COLS * TERM_ROWS + 1);
    assert_eq!(f[0], Draw::Fill(0, 0, PX_W, PX_H, C_BG));
    assert_eq!(f[1], Draw::Char(b' ', 4, 4, C_FG));
    assert_eq!(f[1 + 64 + 2], Draw::Char(b' ', 14, 12, C_FG));
    assert_eq!(f[f.len() - 1], Draw::Fill(14, 195, 5, 1, C_CURSOR));
    term.print_line(b"hi");
    type_str(&mut term, "ab");
    let f = term.render_steps();
    assert_eq!(f[1], Draw::Char(b'h', 4, 4, C_FG));
    assert_eq!(f[2], Draw::Char(b'i', 9, 4, C_FG));
    assert_eq!(f[f.len() - 1], Draw::Fill(24, 195, 5, 1, C_CURSOR));
}
