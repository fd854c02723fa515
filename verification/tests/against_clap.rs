use std::str::FromStr;

use clap::builder::{BoolValueParser, FalseyValueParser, PossibleValuesParser, TypedValueParser, ValueParser};
use clap::error::ErrorKind;
use clap::{Arg, ArgAction, ArgGroup, Command};

use neovide::frame::parse_frame;
use neovide::value_parsers::{parse_bool, parse_falsey};
use neovide::{parse_command_line, CmdLineError, CmdLineSettings, Dimensions, Frame};

fn dimensions(s: &str) -> Result<Dimensions, String> {
    Dimensions::from_str(s)
}

/// The command line declared with clap's builder, the way the settings'
/// declaration reads it.
fn declared() -> Command {
    Command::new("neovide")
        .version("0.1.0")
        .arg(
            Arg::new("files_to_open")
                .num_args(..)
                .action(ArgAction::Append)
                .value_parser(ValueParser::string()),
        )
        .arg(
            Arg::new("neovim_args")
                .num_args(..)
                .action(ArgAction::Append)
                .last(true)
                .allow_hyphen_values(true)
                .value_parser(ValueParser::string()),
        )
        .arg(Arg::new("log_to_file").long("log").action(ArgAction::SetTrue))
        .arg(
            Arg::new("server")
                .long("server")
                .alias("remote-tcp")
                .value_name("ADDRESS")
                .action(ArgAction::Set)
                .value_parser(ValueParser::string()),
        )
        .arg(Arg::new("wsl").long("wsl").env("NEOVIDE_WSL").action(ArgAction::SetTrue))
        .arg(
            Arg::new("frame")
                .long("frame")
                .env("NEOVIDE_FRAME")
                .default_value("full")
                .action(ArgAction::Set)
                .value_parser(PossibleValuesParser::new(["full", "none"])),
        )
        .arg(
            Arg::new("no_multi_grid")
                .long("no-multigrid")
                .env("NEOVIDE_NO_MULTIGRID")
                .action(ArgAction::SetTrue)
                .value_parser(FalseyValueParser::new()),
        )
        .arg(Arg::new("no_fork").long("no-fork").action(ArgAction::SetTrue))
        .arg(
            Arg::new("idle")
                .long("no-idle")
                .env("NEOVIDE_IDLE")
                .action(ArgAction::SetFalse)
                .value_parser(FalseyValueParser::new()),
        )
        .arg(Arg::new("no_tabs").long("no-tabs").action(ArgAction::SetTrue))
        .arg(
            Arg::new("srgb")
                .long("srgb")
                .env("NEOVIDE_SRGB")
                .action(ArgAction::SetTrue)
                .default_value("0")
                .value_parser(FalseyValueParser::new()),
        )
        .arg(
            Arg::new("_no_srgb")
                .long("no-srgb")
                .action(ArgAction::SetTrue)
                .value_parser(FalseyValueParser::new()),
        )
        .arg(
            Arg::new("vsync")
                .long("vsync")
                .env("NEOVIDE_VSYNC")
                .action(ArgAction::SetTrue)
                .default_value("1")
                .value_parser(FalseyValueParser::new()),
        )
        .arg(
            Arg::new("_no_vsync")
                .long("no-vsync")
                .action(ArgAction::SetTrue)
                .value_parser(FalseyValueParser::new()),
        )
        .arg(
            Arg::new("neovim_bin")
                .long("neovim-bin")
                .env("NEOVIM_BIN")
                .action(ArgAction::Set)
                .value_parser(ValueParser::string()),
        )
        .arg(
            Arg::new("wayland_app_id")
                .long("wayland_app_id")
                .env("NEOVIDE_APP_ID")
                .default_value("neovide")
                .action(ArgAction::Set)
                .value_parser(ValueParser::string()),
        )
        .arg(
            Arg::new("x11_wm_class")
                .long("x11-wm-class")
                .env("NEOVIDE_WM_CLASS")
                .default_value("neovide")
                .action(ArgAction::Set)
                .value_parser(ValueParser::string()),
        )
        .arg(
            Arg::new("x11_wm_class_instance")
                .long("x11-wm-class-instance")
                .env("NEOVIDE_WM_CLASS_INSTANCE")
                .default_value("neovide")
                .action(ArgAction::Set)
                .value_parser(ValueParser::string()),
        )
        .arg(
            Arg::new("grid")
                .long("grid")
                .num_args(0..=1)
                .action(ArgAction::Set)
                .value_parser(dimensions),
        )
        .arg(
            Arg::new("size")
                .long("size")
                .action(ArgAction::Set)
                .value_parser(dimensions),
        )
        .arg(
            Arg::new("maximized")
                .long("maximized")
                .env("NEOVIDE_MAXIMIZED")
                .action(ArgAction::SetTrue)
                .value_parser(FalseyValueParser::new()),
        )
        .group(
            ArgGroup::new("GeometryArgs")
                .args(["grid", "size", "maximized"])
                .multiple(false)
                .required(false),
        )
}

fn kind_of(e: CmdLineError) -> ErrorKind {
    match e {
        CmdLineError::UnknownArgument => ErrorKind::UnknownArgument,
        CmdLineError::InvalidValue => ErrorKind::InvalidValue,
        CmdLineError::ValueValidation => ErrorKind::ValueValidation,
        CmdLineError::TooManyValues => ErrorKind::TooManyValues,
        CmdLineError::ArgumentConflict => ErrorKind::ArgumentConflict,
        CmdLineError::DisplayHelp => ErrorKind::DisplayHelp,
        CmdLineError::DisplayVersion => ErrorKind::DisplayVersion,
    }
}

fn strings(m: &clap::ArgMatches, id: &str) -> Vec<String> {
    m.get_many::<String>(id).map(|v| v.cloned().collect()).unwrap_or_default()
}

fn compare(words: &[&str]) {
    let args: Vec<String> = words.iter().map(|s| s.to_string()).collect();
    let ours = parse_command_line(args.clone(), &Vec::new(), false);
    let theirs = declared().try_get_matches_from(args.clone());
    match (ours, theirs) {
        (Err(e), Err(c)) => assert_eq!(kind_of(e), c.kind(), "{:?}", words),
        (Ok(s), Ok(m)) => {
            assert_eq!(s.files_to_open, strings(&m, "files_to_open"), "{:?}", words);
            assert_eq!(s.neovim_args, strings(&m, "neovim_args"), "{:?}", words);
            assert_eq!(s.log_to_file, m.get_flag("log_to_file"), "{:?}", words);
            assert_eq!(s.server, m.get_one::<String>("server").cloned(), "{:?}", words);
            assert_eq!(s.wsl, m.get_flag("wsl"), "{:?}", words);
            let frame = match m.get_one::<String>("frame").map(|f| f.as_str()) {
                Some("none") => Frame::Frameless,
                _ => Frame::Full,
            };
            assert_eq!(s.frame, frame, "{:?}", words);
            assert_eq!(s.no_multi_grid, m.get_flag("no_multi_grid"), "{:?}", words);
            assert_eq!(s.no_fork, m.get_flag("no_fork"), "{:?}", words);
            assert_eq!(s.idle, m.get_flag("idle"), "{:?}", words);
            assert_eq!(s.no_tabs, m.get_flag("no_tabs"), "{:?}", words);
            assert_eq!(s.srgb, m.get_flag("srgb"), "{:?}", words);
            assert_eq!(s._no_srgb, m.get_flag("_no_srgb"), "{:?}", words);
            assert_eq!(s.vsync, m.get_flag("vsync"), "{:?}", words);
            assert_eq!(s._no_vsync, m.get_flag("_no_vsync"), "{:?}", words);
            assert_eq!(s.neovim_bin, m.get_one::<String>("neovim_bin").cloned(), "{:?}", words);
            assert_eq!(Some(&s.wayland_app_id), m.get_one::<String>("wayland_app_id"), "{:?}", words);
            assert_eq!(Some(&s.x11_wm_class), m.get_one::<String>("x11_wm_class"), "{:?}", words);
            assert_eq!(
                Some(&s.x11_wm_class_instance),
                m.get_one::<String>("x11_wm_class_instance"),
                "{:?}",
                words
            );
            let grid = if m.contains_id("grid") {
                Some(m.get_one::<Dimensions>("grid").copied())
            } else {
                None
            };
            assert_eq!(s.geometry.grid, grid, "{:?}", words);
            assert_eq!(s.geometry.size, m.get_one::<Dimensions>("size").copied(), "{:?}", words);
            assert_eq!(s.geometry.maximized, m.get_flag("maximized"), "{:?}", words);
        }
        (Ok(_), Err(c)) => panic!("{:?}: accepted here, refused by clap ({:?})", words, c.kind()),
        (Err(e), Ok(_)) => panic!("{:?}: refused here ({:?}), accepted by clap", words, e),
    }
}

const POOL: [&str; 24] = [
    "--", "--grid", "--grid=2x3", "--size", "4x5", "0x1", "--log", "--log=1", "--frame", "none",
    "bogus", "--server", "--server=", "--remote-tcp=h", "--no-vsync", "--vsync", "file", "-", "-h",
    "-Vx", "-x", "--bogus", "--maximized", "--help",
];

#[test]
fn matches_clap_on_short_command_lines() {
    compare(&[]);
    compare(&["neovide"]);
    for a in POOL {
        compare(&["neovide", a]);
        for b in POOL {
            compare(&["neovide", a, b]);
            for c in POOL {
                compare(&["neovide", a, b, c]);
            }
        }
    }
}

const DEEP_POOL: [&str; 12] = [
    "--", "--grid", "--size", "4x5", "--frame", "bogus", "-h", "file", "--log", "--server", "--bogus",
    "--maximized",
];

#[test]
fn matches_clap_on_longer_command_lines() {
    for a in DEEP_POOL {
        for b in DEEP_POOL {
            for c in DEEP_POOL {
                for d in DEEP_POOL {
                    compare(&["neovide", a, b, c, d]);
                }
            }
        }
    }
}

/// Values that an environment variable may hold, in several cases.
const ENV_VALUES: [&str; 40] = [
    "", "0", "1", "n", "N", "no", "No", "NO", "nO", "f", "F", "false", "False", "FALSE", "fAlSe",
    "off", "Off", "OFF", "oFf", "on", "ON", "y", "yes", "t", "true", "True", "TRUE", "x", " off",
    "off ", "offf", "nope", "0 ", "00", "full", "none", "None", "FULL", "\u{212A}", "\u{130}",
];

fn chars(s: &str) -> Vec<char> {
    s.chars().collect()
}

#[test]
fn switch_variables_read_as_clap_reads_them() {
    let cmd = Command::new("neovide");
    for v in ENV_VALUES {
        let theirs = FalseyValueParser::new().parse_ref(&cmd, None, v.as_ref()).unwrap();
        assert_eq!(parse_falsey(&chars(v)), theirs, "{:?}", v);
    }
}

#[test]
fn wsl_variable_reads_as_clap_reads_it() {
    let cmd = Command::new("neovide");
    for v in ENV_VALUES {
        let theirs = BoolValueParser::new().parse_ref(&cmd, None, v.as_ref()).ok();
        assert_eq!(parse_bool(&chars(v)), theirs, "{:?}", v);
    }
}

#[test]
fn frame_variable_reads_as_clap_reads_it() {
    let cmd = Command::new("neovide");
    for v in ENV_VALUES {
        let theirs = PossibleValuesParser::new(["full", "none"]).parse_ref(&cmd, None, v.as_ref()).ok();
        let expected = theirs.map(|f| if f == "none" { Frame::Frameless } else { Frame::Full });
        assert_eq!(parse_frame(&chars(v)), expected, "{:?}", v);
    }
}

#[test]
fn switch_variables_set_the_settings_as_clap_reads_them() {
    let cmd = Command::new("neovide");
    for v in ENV_VALUES {
        let on = FalseyValueParser::new().parse_ref(&cmd, None, v.as_ref()).unwrap();
        let env: Vec<(String, String)> = ["NEOVIDE_VSYNC", "NEOVIDE_SRGB", "NEOVIDE_IDLE", "NEOVIDE_NO_MULTIGRID"]
            .iter()
            .map(|k| (k.to_string(), v.to_string()))
            .collect();
        for srgb_default in [false, true] {
            let s = CmdLineSettings::from_environment(&env, srgb_default).unwrap();
            assert_eq!((s.vsync, s.srgb, s.idle, s.no_multi_grid), (on, on, on, on), "{:?}", v);
        }
        let maximized = vec![("NEOVIDE_MAXIMIZED".to_string(), v.to_string())];
        assert_eq!(CmdLineSettings::from_environment(&maximized, false).unwrap().geometry.maximized, on);
    }
}

