//! Command-line handling of the clipboard tool: copy stdin to the clipboard,
//! paste it to stdout, or clear it; text or PNG images; on X11 the PRIMARY or
//! the CLIPBOARD selection. The clipboard itself is the caller's part.

use vstd::prelude::*;
use vstd::string::StringSliceAdditionalSpecFns;

verus! {

/// X11 selection target: PRIMARY (mouse selection) or CLIPBOARD (Ctrl+C).
#[derive(Clone, Copy, Debug, PartialEq, Eq, Structural)]
pub enum X11Selection {
    Clipboard,
    Primary,
}

impl Default for X11Selection {
    fn default() -> (s: Self)
        ensures
            s == X11Selection::Clipboard,
    {
        X11Selection::Clipboard
    }
}

/// Operation: copy stdin to clipboard, paste to stdout, or clear.
#[derive(Clone, Copy, Debug, PartialEq, Eq, Structural)]
pub enum Operation {
    Copy,
    Paste,
    Clear,
}

/// MIME type for copy (text or image/png for screenshots).
#[derive(Clone, Copy, Debug, PartialEq, Eq, Structural)]
pub enum MimeType {
    Text,
    ImagePng,
}

impl Default for MimeType {
    fn default() -> (m: Self)
        ensures
            m == MimeType::Text,
    {
        MimeType::Text
    }
}

/// What the command line asks for.
#[derive(Clone, Copy, Debug, PartialEq, Eq, Structural)]
pub enum Parsed {
    /// Run an operation on a selection with a type.
    Run(Operation, X11Selection, MimeType),
    /// Show the help text and exit successfully.
    Help,
    /// Show the version and exit successfully.
    Version,
}

/// Why a command line was refused.
#[derive(Clone, Debug, PartialEq, Eq)]
pub enum ArgError {
    /// `--type` was the last argument.
    TypeNeedsArgument,
    /// `--type` named a type other than text or PNG.
    UnsupportedType(String),
    /// An argument that is not an option.
    UnexpectedArgument(String),
    /// `--clear` and `--paste` were both given.
    ClearWithPaste,
}

/// A refusal with its argument seen as characters.
pub enum ArgErrorView {
    TypeNeedsArgument,
    UnsupportedType(Seq<char>),
    UnexpectedArgument(Seq<char>),
    ClearWithPaste,
}

impl View for ArgError {
    type V = ArgErrorView;

    open spec fn view(&self) -> ArgErrorView {
        match self {
            ArgError::TypeNeedsArgument => ArgErrorView::TypeNeedsArgument,
            ArgError::UnsupportedType(t) => ArgErrorView::UnsupportedType(t@),
            ArgError::UnexpectedArgument(a) => ArgErrorView::UnexpectedArgument(a@),
            ArgError::ClearWithPaste => ArgErrorView::ClearWithPaste,
        }
    }
}

/// The switches seen so far.
pub struct Flags {
    pub paste: bool,
    pub clear: bool,
    pub primary: bool,
    pub image: bool,
}

/// How a scan of the arguments ends.
pub enum Scan {
    /// All arguments read, with these switches.
    Done(Flags),
    Help,
    Version,
    Refused(ArgErrorView),
}

/// Read the arguments from position `i` on, left to right: help and version
/// stop the scan at once, switches are recorded, `--type` reads the next
/// argument, anything else is refused.
pub open spec fn scan(args: Seq<Seq<char>>, i: int, f: Flags) -> Scan
    decreases args.len() - i,
{
    if i < 0 || i >= args.len() {
        Scan::Done(f)
    } else {
        let a = args[i];
        if a == "-h"@ || a == "--help"@ {
            Scan::Help
        } else if a == "-V"@ || a == "--version"@ {
            Scan::Version
        } else if a == "-p"@ || a == "--paste"@ {
            scan(args, i + 1, Flags { paste: true, ..f })
        } else if a == "-c"@ || a == "--clear"@ {
            scan(args, i + 1, Flags { clear: true, ..f })
        } else if a == "--primary"@ {
            scan(args, i + 1, Flags { primary: true, ..f })
        } else if a == "--clipboard"@ {
            scan(args, i + 1, f)
        } else if a == "-t"@ || a == "--type"@ {
            if i + 1 >= args.len() {
                Scan::Refused(ArgErrorView::TypeNeedsArgument)
            } else {
                let t = args[i + 1];
                if t == "text"@ || t == "text/plain"@ {
                    scan(args, i + 2, f)
                } else if t == "image/png"@ || t == "png"@ {
                    scan(args, i + 2, Flags { image: true, ..f })
                } else {
                    Scan::Refused(ArgErrorView::UnsupportedType(t))
                }
            }
        } else {
            Scan::Refused(ArgErrorView::UnexpectedArgument(a))
        }
    }
}

/// The length and first characters of each option text.
proof fn lemma_option_texts()
    ensures
        "-h"@.len() == 2 && "-h"@[0] == '-' && "-h"@[1] == 'h',
        "--help"@.len() == 6 && "--help"@[0] == '-' && "--help"@[1] == '-' && "--help"@[2] == 'h',
        "-V"@.len() == 2 && "-V"@[0] == '-' && "-V"@[1] == 'V',
        "--version"@.len() == 9 && "--version"@[0] == '-' && "--version"@[1] == '-' && "--version"@[2] == 'v',
        "-p"@.len() == 2 && "-p"@[0] == '-' && "-p"@[1] == 'p',
        "--paste"@.len() == 7 && "--paste"@[0] == '-' && "--paste"@[1] == '-' && "--paste"@[2] == 'p',
        "-c"@.len() == 2 && "-c"@[0] == '-' && "-c"@[1] == 'c',
        "--clear"@.len() == 7 && "--clear"@[0] == '-' && "--clear"@[1] == '-' && "--clear"@[2] == 'c',
        "--primary"@.len() == 9 && "--primary"@[0] == '-' && "--primary"@[1] == '-' && "--primary"@[2] == 'p',
        "--clipboard"@.len() == 11 && "--clipboard"@[0] == '-' && "--clipboard"@[1] == '-' && "--clipboard"@[2] == 'c',
        "-t"@.len() == 2 && "-t"@[0] == '-' && "-t"@[1] == 't',
        "--type"@.len() == 6 && "--type"@[0] == '-' && "--type"@[1] == '-' && "--type"@[2] == 't',
        "text"@.len() == 4 && "text"@[0] == 't' && "text"@[1] == 'e' && "text"@[2] == 'x',
        "text/plain"@.len() == 10 && "text/plain"@[0] == 't' && "text/plain"@[1] == 'e' && "text/plain"@[2] == 'x',
        "image/png"@.len() == 9 && "image/png"@[0] == 'i' && "image/png"@[1] == 'm' && "image/png"@[2] == 'a',
        "png"@.len() == 3 && "png"@[0] == 'p' && "png"@[1] == 'n' && "png"@[2] == 'g',
{
    reveal_strlit("-h");
    reveal_strlit("--help");
    reveal_strlit("-V");
    reveal_strlit("--version");
    reveal_strlit("-p");
    reveal_strlit("--paste");
    reveal_strlit("-c");
    reveal_strlit("--clear");
    reveal_strlit("--primary");
    reveal_strlit("--clipboard");
    reveal_strlit("-t");
    reveal_strlit("--type");
    reveal_strlit("text");
    reveal_strlit("text/plain");
    reveal_strlit("image/png");
    reveal_strlit("png");
}

/// Each option read where an option is expected: the long and the short
/// form of a switch act alike. `-p`/`--paste` and `-c`/`--clear` set their
/// switch, `--primary` selects PRIMARY, `--clipboard` changes nothing, and
/// the scan goes on with the next argument; `-h`/`--help` and
/// `-V`/`--version` end it at once; `-t`/`--type` reads the next argument as
/// the type (text keeps text, PNG sets the image switch) and needs one;
/// anything else is refused as unexpected.
pub proof fn law_scan_options(args: Seq<Seq<char>>, i: int, f: Flags)
    requires
        0 <= i < args.len(),
    ensures
        ({
            let a = args[i];
            let next = scan(args, i + 1, f);
            let r = scan(args, i, f);
            &&& a == "-p"@ || a == "--paste"@ ==> r == scan(args, i + 1, Flags { paste: true, ..f })
            &&& a == "-c"@ || a == "--clear"@ ==> r == scan(args, i + 1, Flags { clear: true, ..f })
            &&& a == "--primary"@ ==> r == scan(args, i + 1, Flags { primary: true, ..f })
            &&& a == "--clipboard"@ ==> r == next
            &&& a == "-h"@ || a == "--help"@ ==> r is Help
            &&& a == "-V"@ || a == "--version"@ ==> r is Version
            &&& (a == "-t"@ || a == "--type"@) && i + 1 == args.len() ==> r == Scan::Refused(ArgErrorView::TypeNeedsArgument)
            &&& (a == "-t"@ || a == "--type"@) && i + 1 < args.len() && (args[i + 1] == "text"@ || args[i + 1] == "text/plain"@)
                ==> r == scan(args, i + 2, f)
            &&& (a == "-t"@ || a == "--type"@) && i + 1 < args.len() && (args[i + 1] == "png"@ || args[i + 1] == "image/png"@)
                ==> r == scan(args, i + 2, Flags { image: true, ..f })
            &&& (a == "-t"@ || a == "--type"@) && i + 1 < args.len() && !(args[i + 1] == "text"@ || args[i + 1] == "text/plain"@
                || args[i + 1] == "png"@ || args[i + 1] == "image/png"@) ==> r == Scan::Refused(ArgErrorView::UnsupportedType(args[i + 1]))
            &&& !(a == "-p"@ || a == "--paste"@ || a == "-c"@ || a == "--clear"@ || a == "--primary"@ || a == "--clipboard"@
                || a == "-h"@ || a == "--help"@ || a == "-V"@ || a == "--version"@ || a == "-t"@ || a == "--type"@)
                ==> r == Scan::Refused(ArgErrorView::UnexpectedArgument(a))
        }),
{
    lemma_option_texts();
    let a = args[i];
    if a == "-h"@ {
        assert(a.len() == 2 && a[0] == '-' && a[1] == 'h');
    }
    if a == "--help"@ {
        assert(a.len() == 6 && a[0] == '-' && a[1] == '-' && a[2] == 'h');
    }
    if a == "-V"@ {
        assert(a.len() == 2 && a[0] == '-' && a[1] == 'V');
    }
    if a == "--version"@ {
        assert(a.len() == 9 && a[0] == '-' && a[1] == '-' && a[2] == 'v');
    }
    if a == "-p"@ {
        assert(a.len() == 2 && a[0] == '-' && a[1] == 'p');
    }
    if a == "--paste"@ {
        assert(a.len() == 7 && a[0] == '-' && a[1] == '-' && a[2] == 'p');
    }
    if a == "-c"@ {
        assert(a.len() == 2 && a[0] == '-' && a[1] == 'c');
    }
    if a == "--clear"@ {
        assert(a.len() == 7 && a[0] == '-' && a[1] == '-' && a[2] == 'c');
    }
    if a == "--primary"@ {
        assert(a.len() == 9 && a[0] == '-' && a[1] == '-' && a[2] == 'p');
    }
    if a == "--clipboard"@ {
        assert(a.len() == 11 && a[0] == '-' && a[1] == '-' && a[2] == 'c');
    }
    if a == "-t"@ {
        assert(a.len() == 2 && a[0] == '-' && a[1] == 't');
    }
    if a == "--type"@ {
        assert(a.len() == 6 && a[0] == '-' && a[1] == '-' && a[2] == 't');
    }
    if i + 1 < args.len() {
        let v = args[i + 1];
        if v == "text"@ {
            assert(v.len() == 4 && v[0] == 't' && v[1] == 'e' && v[2] == 'x');
        }
        if v == "text/plain"@ {
            assert(v.len() == 10 && v[0] == 't' && v[1] == 'e' && v[2] == 'x');
        }
        if v == "image/png"@ {
            assert(v.len() == 9 && v[0] == 'i' && v[1] == 'm' && v[2] == 'a');
        }
        if v == "png"@ {
            assert(v.len() == 3 && v[0] == 'p' && v[1] == 'n' && v[2] == 'g');
        }
    }
}

/// What a parse owes once the arguments are all read: clear wins over copy,
/// paste is asked by its switch, both together are refused; PRIMARY only
/// when asked; PNG only when asked.
pub proof fn law_parse_outcome(args: Seq<String>, r: Result<Parsed, ArgError>, f: Flags)
    requires
        parse_result(args, r),
        scan(arg_texts(args), 0, Flags { paste: false, clear: false, primary: false, image: false }) == Scan::Done(f),
    ensures
        f.clear && f.paste ==> (r matches Err(e) && e@ == ArgErrorView::ClearWithPaste),
        !(f.clear && f.paste) ==> (r matches Ok(Parsed::Run(op, sel, mime)) && {
            &&& (op == Operation::Clear <==> f.clear)
            &&& (op == Operation::Paste <==> f.paste)
            &&& (sel == X11Selection::Primary <==> f.primary)
            &&& (mime == MimeType::ImagePng <==> f.image)
        }),
{
}

/// The texts of the arguments.
pub open spec fn arg_texts(args: Seq<String>) -> Seq<Seq<char>> {
    args.map_values(|a: String| a@)
}

/// Whether `r` is what `parse_args` owes for `args`.
pub open spec fn parse_result(args: Seq<String>, r: Result<Parsed, ArgError>) -> bool {
    match scan(arg_texts(args), 0, Flags { paste: false, clear: false, primary: false, image: false }) {
        Scan::Help => r == Ok::<Parsed, ArgError>(Parsed::Help),
        Scan::Version => r == Ok::<Parsed, ArgError>(Parsed::Version),
        Scan::Refused(e) => r matches Err(err) && err@ == e,
        Scan::Done(f) => if f.clear && f.paste {
            r matches Err(err) && err@ == ArgErrorView::ClearWithPaste
        } else {
            r == Ok::<Parsed, ArgError>(Parsed::Run(
                if f.clear { Operation::Clear } else if f.paste { Operation::Paste } else { Operation::Copy },
                if f.primary { X11Selection::Primary } else { X11Selection::Clipboard },
                if f.image { MimeType::ImagePng } else { MimeType::Text },
            ))
        },
    }
}

/// Whether two strings have the same text, compared byte by byte.
pub fn text_eq(a: &str, b: &str) -> (r: bool)
    ensures
        r == (a@ == b@),
{
    let x = a.as_bytes();
    let y = b.as_bytes();
    proof {
        vstd::utf8::encode_utf8_decode_utf8(a@);
        vstd::utf8::encode_utf8_decode_utf8(b@);
    }
    if x.len() != y.len() {
        return false;
    }
    let mut i: usize = 0;
    while i < x.len()
        invariant
            x@ == a.spec_bytes(),
            y@ == b.spec_bytes(),
            x@.len() == y@.len(),
            i <= x@.len(),
            forall|k: int| 0 <= k < i ==> x@[k] == y@[k],
        decreases x@.len() - i,
    {
        if x[i] != y[i] {
            return false;
        }
        i += 1;
    }
    assert(x@ =~= y@);
    true
}

/// Parse the command line (`args` without the program name) into an
/// operation, an X11 selection and a MIME type; `--help` and `--version`
/// ask for their text instead, and invalid arguments are refused.
#[verifier::spinoff_prover]
#[verifier::rlimit(30)]
pub fn parse_args(bin_name: &str, args: &[String]) -> (r: Result<Parsed, ArgError>)
    ensures
        parse_result(args@, r),
{
    let _ = bin_name;
    let ghost texts = arg_texts(args@);
    let ghost init = Flags { paste: false, clear: false, primary: false, image: false };
    let mut paste = false;
    let mut clear = false;
    let mut primary = false;
    let mut image = false;
    let mut i: usize = 0;
    while i < args.len()
        invariant
            texts == arg_texts(args@),
            i <= args@.len(),
            scan(texts, 0, init) == scan(texts, i as int, Flags { paste, clear, primary, image }),
            init == (Flags { paste: false, clear: false, primary: false, image: false }),
        decreases args@.len() - i,
    {
        let a = args[i].as_str();
        assert(texts[i as int] == a@);
        let f = Flags { paste, clear, primary, image };
        if text_eq(a, "-h") || text_eq(a, "--help") {
            assert(scan(texts, i as int, f) is Help);
            return Ok(Parsed::Help);
        } else if text_eq(a, "-V") || text_eq(a, "--version") {
            assert(scan(texts, i as int, f) is Version);
            return Ok(Parsed::Version);
        } else if text_eq(a, "-p") || text_eq(a, "--paste") {
            paste = true;
        } else if text_eq(a, "-c") || text_eq(a, "--clear") {
            clear = true;
        } else if text_eq(a, "--primary") {
            primary = true;
        } else if text_eq(a, "--clipboard") {
        } else if text_eq(a, "-t") || text_eq(a, "--type") {
            i += 1;
            if i >= args.len() {
                return Err(ArgError::TypeNeedsArgument);
            }
            let t = args[i].as_str();
            assert(texts[i as int] == t@);
            if text_eq(t, "text") || text_eq(t, "text/plain") {
            } else if text_eq(t, "image/png") || text_eq(t, "png") {
                image = true;
            } else {
                return Err(ArgError::UnsupportedType(t.to_owned()));
            }
        } else {
            return Err(ArgError::UnexpectedArgument(a.to_owned()));
        }
        i += 1;
    }
    if clear && paste {
        return Err(ArgError::ClearWithPaste);
    }
    let operation = if clear {
        Operation::Clear
    } else if paste {
        Operation::Paste
    } else {
        Operation::Copy
    };
    let selection = if primary { X11Selection::Primary } else { X11Selection::Clipboard };
    let mime = if image { MimeType::ImagePng } else { MimeType::Text };
    Ok(Parsed::Run(operation, selection, mime))
}

} // verus!
