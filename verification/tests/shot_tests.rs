//! The screenshot tool: command line, drawn selection, region checks and
//! PNG encoding.

use userland::shot::{
    check_region, encode_png, parse_i32_std, parse_shot_args, parse_u32_std, selection, Drag, PointerEvent,
    ShotCommand, ShotError,
};

fn args(v: &[&str]) -> Vec<String> {
    v.iter().map(|s| s.to_string()).collect()
}

fn parse(v: &[&str]) -> Result<ShotCommand, ShotError> {
    parse_shot_args(&args(v))
}

#[test]
fn shot_default_is_full_screen_to_stdout() {
    assert_eq!(parse(&[]), Ok(ShotCommand::Capture { region: None, interactive: false, output: None }));
}

#[test]
fn shot_selection_forms() {
    assert_eq!(parse(&["-s"]), Ok(ShotCommand::Capture { region: None, interactive: true, output: None }));
    assert_eq!(
        parse(&["--selection", "10", "-20", "300", "+400", "-o", "out.png"]),
        Ok(ShotCommand::Capture { region: Some((10, -20, 300, 400)), interactive: false, output: Some("out.png".to_string()) })
    );
    assert_eq!(parse(&["-s", "x"]), Err(ShotError::RegionX));
    assert_eq!(parse(&["-s", "1"]), Err(ShotError::RegionIncomplete));
    assert_eq!(parse(&["-s", "1", "y"]), Err(ShotError::RegionY));
    assert_eq!(parse(&["-s", "1", "2"]), Err(ShotError::RegionIncomplete));
    assert_eq!(parse(&["-s", "1", "2", "-3", "4"]), Err(ShotError::RegionWidth));
    assert_eq!(parse(&["-s", "1", "2", "3"]), Err(ShotError::RegionIncomplete));
    assert_eq!(parse(&["-s", "1", "2", "3", "h"]), Err(ShotError::RegionHeight));
    assert_eq!(parse(&["-s", "-o", "x"]), Err(ShotError::RegionX));
}

#[test]
fn shot_other_options() {
    assert_eq!(parse(&["-o"]), Err(ShotError::OutputMissing));
    assert_eq!(parse(&["-h", "junk"]), Ok(ShotCommand::Help));
    assert_eq!(parse(&["--version"]), Ok(ShotCommand::Version));
    assert_eq!(parse(&["--frob"]), Err(ShotError::UnknownOption("--frob".to_string())));
    assert_eq!(parse(&["-"]), Err(ShotError::UnknownOption("-".to_string())));
    assert_eq!(parse(&["file.png"]), Err(ShotError::UnexpectedArgument("file.png".to_string())));
    assert_eq!(
        parse(&["-o", "a", "-o", "b"]),
        Ok(ShotCommand::Capture { region: None, interactive: false, output: Some("b".to_string()) })
    );
}

#[test]
fn shot_numbers_read_as_std_does() {
    assert_eq!(parse_i32_std(b"2147483647"), Some(i32::MAX));
    assert_eq!(parse_i32_std(b"2147483648"), None);
    assert_eq!(parse_i32_std(b"-2147483648"), Some(i32::MIN));
    assert_eq!(parse_i32_std(b"-2147483649"), None);
    assert_eq!(parse_i32_std(b"+7"), Some(7));
    assert_eq!(parse_i32_std(b"-"), None);
    assert_eq!(parse_i32_std(b""), None);
    assert_eq!(parse_i32_std(b"1x"), None);
    assert_eq!(parse_u32_std(b"4294967295"), Some(u32::MAX));
    assert_eq!(parse_u32_std(b"4294967296"), None);
    assert_eq!(parse_u32_std(b"99999999999999999999"), None);
    assert_eq!(parse_u32_std(b"-0"), None);
    assert_eq!(parse_u32_std(b"+"), None);
    for s in ["0", "12", "+5", "-5", "007", "-", "+", "", "4294967295", "4294967296", "1 "] {
        assert_eq!(parse_u32_std(s.as_bytes()), s.parse::<u32>().ok());
        assert_eq!(parse_i32_std(s.as_bytes()), s.parse::<i32>().ok());
    }
}

#[test]
fn shot_drag_selection() {
    let mut d = Drag::new();
    assert!(!d.event(PointerEvent::Motion(5, 5)));
    assert!(!d.event(PointerEvent::Release(5, 5)));
    assert!(!d.event(PointerEvent::Press(60, 20)));
    assert!(!d.event(PointerEvent::Motion(50, 5)));
    assert!(d.event(PointerEvent::Release(10, 40)));
    assert_eq!(selection(&d), Ok((10, 20, 50, 20)));
    let mut d = Drag::new();
    d.event(PointerEvent::Press(0, 0));
    d.event(PointerEvent::Release(1, 100));
    assert_eq!(selection(&d), Err(ShotError::SelectionTooSmall));
}

#[test]
fn shot_region_check() {
    assert_eq!(check_region(None), Ok(None));
    assert_eq!(check_region(Some((1, 2, 3, 4))), Ok(Some((1, 2, 3, 4))));
    assert_eq!(check_region(Some((1, 2, 0, 4))), Err(ShotError::EmptyRegion));
    assert_eq!(check_region(Some((1, 2, 3, 0))), Err(ShotError::EmptyRegion));
}

#[test]
fn shot_png_encoding() {
    let px = [255u8, 0, 0, 0, 255, 0];
    let png = encode_png(&px, 2, 1).unwrap();
    assert_eq!(&png[..8], &[137, 80, 78, 71, 13, 10, 26, 10]);
    assert!(png.len() > px.len());
    assert!(matches!(encode_png(&[], 0, 5), Err(ShotError::Encode(_))));
}
