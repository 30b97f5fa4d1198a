//! Clipboard tool command line.

use userland::rogue_clip::{parse_args, text_eq, ArgError, MimeType, Operation, Parsed, X11Selection};

fn args(v: &[&str]) -> Vec<String> {
    v.iter().map(|s| s.to_string()).collect()
}

#[test]
fn no_args_copies_text_to_clipboard() {
    assert_eq!(
        parse_args("rogue-clip", &[]),
        Ok(Parsed::Run(Operation::Copy, X11Selection::Clipboard, MimeType::Text))
    );
}

#[test]
fn paste_primary() {
    assert_eq!(
        parse_args("rogue-clip", &args(&["-p", "--primary"])),
        Ok(Parsed::Run(Operation::Paste, X11Selection::Primary, MimeType::Text))
    );
}

#[test]
fn clear_with_clipboard() {
    assert_eq!(
        parse_args("rogue-clip", &args(&["--clear", "--clipboard"])),
        Ok(Parsed::Run(Operation::Clear, X11Selection::Clipboard, MimeType::Text))
    );
}

#[test]
fn type_png_and_text() {
    assert_eq!(
        parse_args("x", &args(&["-t", "image/png"])),
        Ok(Parsed::Run(Operation::Copy, X11Selection::Clipboard, MimeType::ImagePng))
    );
    assert_eq!(
        parse_args("x", &args(&["--type", "png", "--type", "text/plain"])),
        Ok(Parsed::Run(Operation::Copy, X11Selection::Clipboard, MimeType::ImagePng))
    );
    assert_eq!(
        parse_args("x", &args(&["--type", "text"])),
        Ok(Parsed::Run(Operation::Copy, X11Selection::Clipboard, MimeType::Text))
    );
}

#[test]
fn help_and_version_stop_the_scan() {
    assert_eq!(parse_args("x", &args(&["-h", "--bogus"])), Ok(Parsed::Help));
    assert_eq!(parse_args("x", &args(&["--version"])), Ok(Parsed::Version));
    assert_eq!(parse_args("x", &args(&["-p", "-V"])), Ok(Parsed::Version));
}

#[test]
fn errors() {
    assert_eq!(parse_args("x", &args(&["-t"])), Err(ArgError::TypeNeedsArgument));
    assert_eq!(
        parse_args("x", &args(&["-t", "gif"])),
        Err(ArgError::UnsupportedType("gif".to_string()))
    );
    assert_eq!(
        parse_args("x", &args(&["--frobnicate"])),
        Err(ArgError::UnexpectedArgument("--frobnicate".to_string()))
    );
    assert_eq!(parse_args("x", &args(&["-c", "-p"])), Err(ArgError::ClearWithPaste));
}

#[test]
fn text_eq_compares_bytes() {
    assert!(text_eq("--help", "--help"));
    assert!(!text_eq("--help", "--hel"));
    assert!(!text_eq("a", "b"));
    assert!(text_eq("", ""));
}
