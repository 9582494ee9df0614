use image_editor::command::{resolve, ArgError, Args, Command, Flag, Kind};
use image_editor::rotation::Rot;

fn args(command: &str) -> Args {
    Args {
        command: command.to_string(),
        value: None,
        x: None,
        y: None,
        w: None,
        h: None,
        r: None,
        g: None,
        b: None,
    }
}

fn with_value(command: &str, value: &str) -> Args {
    let mut a = args(command);
    a.value = Some(value.to_string());
    a
}

fn text(s: &str) -> Option<String> {
    Some(s.to_string())
}

#[test]
fn resolve_commands_without_flags() {
    assert_eq!(resolve(&args("invert")), Ok(Command::Invert));
    assert_eq!(resolve(&args("grayscale")), Ok(Command::Grayscale));
    assert_eq!(resolve(&args("fractal")), Ok(Command::Fractal));
}

#[test]
fn resolve_ignores_flags_of_other_commands() {
    let mut a = with_value("invert", "nonsense");
    a.x = text("also nonsense");
    assert_eq!(resolve(&a), Ok(Command::Invert));
    let mut g = with_value("generate", "nonsense");
    g.w = text("-1");
    assert_eq!(resolve(&g), Ok(Command::Generate { r: 0, g: 0, b: 0 }));
}

#[test]
fn resolve_unknown_command() {
    assert_eq!(resolve(&args("sharpen")), Err(ArgError::UnknownCommand));
    assert_eq!(resolve(&args("")), Err(ArgError::UnknownCommand));
    assert_eq!(resolve(&args("Blur")), Err(ArgError::UnknownCommand));
    assert_eq!(resolve(&args("blur ")), Err(ArgError::UnknownCommand));
}

#[test]
fn resolve_blur_hands_the_radius_on() {
    assert_eq!(
        resolve(&with_value("blur", "2.5")),
        Ok(Command::Blur { sigma: "2.5".to_string() })
    );
    assert_eq!(
        resolve(&with_value("blur", "not a number")),
        Ok(Command::Blur { sigma: "not a number".to_string() })
    );
    assert_eq!(resolve(&args("blur")), Err(ArgError::Missing { flag: Flag::Value }));
}

#[test]
fn resolve_brighten() {
    assert_eq!(resolve(&with_value("brighten", "10")), Ok(Command::Brighten { delta: 10 }));
    assert_eq!(resolve(&with_value("brighten", "-10")), Ok(Command::Brighten { delta: -10 }));
    assert_eq!(
        resolve(&with_value("brighten", "-2147483648")),
        Ok(Command::Brighten { delta: i32::MIN })
    );
    assert_eq!(
        resolve(&with_value("brighten", "2147483648")),
        Err(ArgError::Invalid { flag: Flag::Value, expected: Kind::I32 })
    );
    assert_eq!(
        resolve(&with_value("brighten", "1.5")),
        Err(ArgError::Invalid { flag: Flag::Value, expected: Kind::I32 })
    );
    assert_eq!(resolve(&args("brighten")), Err(ArgError::Missing { flag: Flag::Value }));
}

#[test]
fn resolve_rotate_buckets_the_angle() {
    let cases: [(&str, Rot); 9] = [
        ("0", Rot::R0),
        ("89", Rot::R0),
        ("90", Rot::R90),
        ("179", Rot::R90),
        ("180", Rot::R180),
        ("269", Rot::R180),
        ("270", Rot::R270),
        ("360", Rot::R270),
        ("4294967295", Rot::R270),
    ];
    for (value, rotation) in cases {
        assert_eq!(resolve(&with_value("rotate", value)), Ok(Command::Rotate { rotation }));
    }
}

#[test]
fn resolve_rotate_rejects_what_is_no_u32() {
    for value in ["-90", "90.0", "", "ninety", "4294967296"] {
        assert_eq!(
            resolve(&with_value("rotate", value)),
            Err(ArgError::Invalid { flag: Flag::Value, expected: Kind::U32 })
        );
    }
    assert_eq!(resolve(&args("rotate")), Err(ArgError::Missing { flag: Flag::Value }));
}

#[test]
fn resolve_crop_with_all_flags() {
    let mut a = args("crop");
    a.x = text("1");
    a.y = text("2");
    a.w = text("30");
    a.h = text("40");
    assert_eq!(resolve(&a), Ok(Command::Crop { x: 1, y: 2, width: 30, height: 40 }));
}

#[test]
fn resolve_crop_corner_defaults_to_origin() {
    let mut a = args("crop");
    a.w = text("30");
    a.h = text("40");
    assert_eq!(resolve(&a), Ok(Command::Crop { x: 0, y: 0, width: 30, height: 40 }));
}

#[test]
fn resolve_crop_needs_width_and_height() {
    let mut a = args("crop");
    a.x = text("bad");
    assert_eq!(resolve(&a), Err(ArgError::Missing { flag: Flag::W }));
    a.w = text("30");
    assert_eq!(resolve(&a), Err(ArgError::Missing { flag: Flag::H }));
    a.w = None;
    a.h = text("40");
    assert_eq!(resolve(&a), Err(ArgError::Missing { flag: Flag::W }));
}

#[test]
fn resolve_crop_reports_the_first_bad_number() {
    let mut a = args("crop");
    a.x = text("-1");
    a.y = text("y");
    a.w = text("w");
    a.h = text("h");
    assert_eq!(resolve(&a), Err(ArgError::Invalid { flag: Flag::X, expected: Kind::U32 }));
    a.x = text("1");
    assert_eq!(resolve(&a), Err(ArgError::Invalid { flag: Flag::Y, expected: Kind::U32 }));
    a.y = text("1");
    assert_eq!(resolve(&a), Err(ArgError::Invalid { flag: Flag::W, expected: Kind::U32 }));
    a.w = text("1");
    assert_eq!(resolve(&a), Err(ArgError::Invalid { flag: Flag::H, expected: Kind::U32 }));
    a.h = text("1");
    assert_eq!(resolve(&a), Ok(Command::Crop { x: 1, y: 1, width: 1, height: 1 }));
}

#[test]
fn resolve_generate() {
    let mut a = args("generate");
    assert_eq!(resolve(&a), Ok(Command::Generate { r: 0, g: 0, b: 0 }));
    a.r = text("10");
    a.g = text("20");
    a.b = text("30");
    assert_eq!(resolve(&a), Ok(Command::Generate { r: 10, g: 20, b: 30 }));
    a.g = None;
    assert_eq!(resolve(&a), Ok(Command::Generate { r: 10, g: 0, b: 30 }));
}

#[test]
fn resolve_generate_reports_the_first_bad_channel() {
    let mut a = args("generate");
    a.r = text("256");
    a.g = text("-1");
    a.b = text("blue");
    assert_eq!(resolve(&a), Err(ArgError::Invalid { flag: Flag::R, expected: Kind::U8 }));
    a.r = text("255");
    assert_eq!(resolve(&a), Err(ArgError::Invalid { flag: Flag::G, expected: Kind::U8 }));
    a.g = text("0");
    assert_eq!(resolve(&a), Err(ArgError::Invalid { flag: Flag::B, expected: Kind::U8 }));
}

#[test]
fn messages_name_the_flag_and_the_type() {
    assert_eq!(
        ArgError::Invalid { flag: Flag::Value, expected: Kind::I32 }.message(),
        "value must be of type i32"
    );
    assert_eq!(
        ArgError::Invalid { flag: Flag::X, expected: Kind::U32 }.message(),
        "x must be of type u32"
    );
    assert_eq!(
        ArgError::Invalid { flag: Flag::R, expected: Kind::U8 }.message(),
        "r must be of type u8"
    );
    assert_eq!(ArgError::Missing { flag: Flag::W }.message(), "w is required");
    assert_eq!(ArgError::UnknownCommand.message(), "unknown command");
}

#[test]
fn flags_and_kinds_have_their_names() {
    let flags = [Flag::Value, Flag::X, Flag::Y, Flag::W, Flag::H, Flag::R, Flag::G, Flag::B];
    let names = ["value", "x", "y", "w", "h", "r", "g", "b"];
    for (flag, name) in flags.iter().zip(names) {
        assert_eq!(flag.name(), name);
    }
    assert_eq!(Kind::U8.name(), "u8");
    assert_eq!(Kind::U32.name(), "u32");
    assert_eq!(Kind::I32.name(), "i32");
}
