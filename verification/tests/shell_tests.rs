use userland::shell::{
    bytes_eq, cmd_clear, cmd_help, dispatch, parse_u32, ps_table, split_cmd, split_two, trim,
    u32_to_dec, unknown_command, ShellCommand, PROG_COPY, PROG_EDITOR, PROG_MONITOR, PROG_VIEWER,
};

#[test]
fn trim_strips_leading_spaces_and_line_ends() {
    assert_eq!(trim(b"  ls -l \r\n"), b"ls -l".to_vec());
    assert_eq!(trim(b"   "), Vec::<u8>::new());
    assert_eq!(trim(b"\tx"), b"\tx".to_vec());
}

#[test]
fn split_at_first_space() {
    assert_eq!(split_cmd(b"cat  notes.txt"), (b"cat".to_vec(), b"notes.txt".to_vec()));
    assert_eq!(split_cmd(b"pwd"), (b"pwd".to_vec(), Vec::new()));
    assert_eq!(split_two(b"a.txt b.txt"), (b"a.txt".to_vec(), b"b.txt".to_vec()));
}

#[test]
fn numbers_parse_and_print() {
    assert_eq!(parse_u32(b"42"), Some(42));
    assert_eq!(parse_u32(b""), None);
    assert_eq!(parse_u32(b"4x"), None);
    assert_eq!(u32_to_dec(0), b"0".to_vec());
    assert_eq!(u32_to_dec(4294967295), b"4294967295".to_vec());
    assert!(bytes_eq(b"ab", b"ab"));
    assert!(!bytes_eq(b"ab", b"abc"));
}

#[test]
fn dispatch_names_each_command() {
    assert_eq!(dispatch(b"  \r\n"), ShellCommand::Empty);
    assert_eq!(dispatch(b"exit"), ShellCommand::Exit(0));
    assert_eq!(dispatch(b"exit 3"), ShellCommand::Exit(3));
    assert_eq!(dispatch(b"halt"), ShellCommand::Halt);
    assert_eq!(dispatch(b"reboot"), ShellCommand::Reboot);
    assert_eq!(dispatch(b"help\r\n"), ShellCommand::Help);
    assert_eq!(dispatch(b"clear"), ShellCommand::Clear);
    assert_eq!(dispatch(b"echo hi there"), ShellCommand::Echo(b"hi there".to_vec()));
    assert_eq!(dispatch(b"pwd"), ShellCommand::Pwd);
    assert_eq!(dispatch(b"ls"), ShellCommand::Ls);
    assert_eq!(dispatch(b"ps"), ShellCommand::Ps);
    assert_eq!(dispatch(b"cat a.txt"), ShellCommand::Cat(b"a.txt".to_vec()));
    assert_eq!(dispatch(b"rm a.txt"), ShellCommand::Rm(b"a.txt".to_vec()));
    assert_eq!(dispatch(b"ed"), ShellCommand::Run(PROG_EDITOR));
    assert_eq!(dispatch(b"view x"), ShellCommand::Run(PROG_VIEWER));
    assert_eq!(dispatch(b"copy a b"), ShellCommand::Run(PROG_COPY));
    assert_eq!(dispatch(b"monitor"), ShellCommand::Run(PROG_MONITOR));
    assert_eq!(dispatch(b"run 7"), ShellCommand::Run(7));
    assert_eq!(dispatch(b"run x"), ShellCommand::RunUsage);
    assert_eq!(dispatch(b"frob"), ShellCommand::Unknown(b"frob".to_vec()));
}

#[test]
fn unknown_command_reply() {
    assert_eq!(
        unknown_command(b"frob"),
        b"shell: unknown command: frob\r\n       (type 'help' for a list of commands)\r\n".to_vec()
    );
}

#[test]
fn ps_table_skips_empty_slots() {
    let out = ps_table(&[(1, 2), (0, 1), (12, 3), (7, 9)]);
    let expected = b"PID   STATE\r\n----  -----\r\n1     running  \r\n12    blocked  \r\n7     unknown  \r\n";
    assert_eq!(out, expected.to_vec());
}

#[test]
fn help_and_clear_text() {
    let h = cmd_help();
    assert!(h.starts_with(b"\r\nKingdom OS shell commands:\r\n\r\n"));
    assert!(h.ends_with(b"  exit [code]       -exit shell\r\n\r\n"));
    assert_eq!(cmd_clear(), b"\x1b[2J\x1b[H".to_vec());
}
