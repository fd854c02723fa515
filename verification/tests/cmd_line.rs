use neovide::{handle_command_line_arguments, CmdLineSettings, Dimensions, Frame};

fn to_args(words: &[&str]) -> Vec<String> {
    words.iter().map(|s| s.to_string()).collect()
}

fn to_env(vars: &[(&str, &str)]) -> Vec<(String, String)> {
    vars.iter().map(|(k, v)| (k.to_string(), v.to_string())).collect()
}

/// sRGB is off by default but on Windows.
const SRGB_DEFAULT_HERE: bool = false;

fn handle_on(words: &[&str], vars: &[(&str, &str)], srgb_default: bool) -> CmdLineSettings {
    handle_command_line_arguments(to_args(words), &to_env(vars), srgb_default)
        .expect("Could not parse arguments")
}

fn handle(words: &[&str]) -> CmdLineSettings {
    handle_on(words, &[], SRGB_DEFAULT_HERE)
}

fn handle_with_env(words: &[&str], vars: &[(&str, &str)]) -> CmdLineSettings {
    handle_on(words, vars, SRGB_DEFAULT_HERE)
}

#[test]
fn test_neovim_passthrough() {
    let settings = handle(&["neovide", "--no-tabs", "--", "--clean"]);
    assert_eq!(settings.neovim_args, vec!["--clean"]);
}

#[test]
fn test_files_to_open() {
    let settings = handle(&["neovide", "./foo.txt", "--no-tabs", "./bar.md"]);
    assert_eq!(settings.neovim_args, vec!["./foo.txt", "./bar.md"]);
}

#[test]
fn test_files_to_open_with_passthrough() {
    let settings = handle(&["neovide", "--no-tabs", "./foo.txt", "./bar.md", "--", "--clean"]);
    assert_eq!(settings.neovim_args, vec!["./foo.txt", "./bar.md", "--clean"]);
}

#[test]
fn test_files_to_open_with_flag() {
    let settings = handle(&["neovide", "./foo.txt", "./bar.md", "--grid=42x24"]);
    assert_eq!(settings.neovim_args, vec!["-p", "./foo.txt", "./bar.md"]);
    assert_eq!(
        settings.geometry.grid,
        Some(Some(Dimensions {
            width: 42,
            height: 24
        })),
    );
}

#[test]
fn test_grid() {
    let settings = handle(&["neovide", "--grid=42x24"]);
    assert_eq!(
        settings.geometry.grid,
        Some(Some(Dimensions {
            width: 42,
            height: 24
        })),
    );
}

#[test]
fn test_size() {
    let settings = handle(&["neovide", "--size=420x240"]);
    assert_eq!(
        settings.geometry.size,
        Some(Dimensions {
            width: 420,
            height: 240,
        }),
    );
}

#[test]
fn test_log_to_file() {
    let settings = handle(&["neovide", "--log"]);
    assert!(settings.log_to_file);
}

#[test]
fn test_frameless_flag() {
    let settings = handle(&["neovide", "--frame=full"]);
    assert_eq!(settings.frame, Frame::Full);
}

#[test]
fn test_frameless_environment_variable() {
    let settings = handle_with_env(&["neovide"], &[("NEOVIDE_FRAME", "none")]);
    assert_eq!(settings.frame, Frame::Frameless);
}

#[test]
fn test_neovim_bin_arg() {
    let settings = handle(&["neovide", "--neovim-bin", "foo"]);
    assert_eq!(settings.neovim_bin, Some("foo".to_owned()));
}

#[test]
fn test_neovim_bin_environment_variable() {
    let settings = handle_with_env(&["neovide"], &[("NEOVIM_BIN", "foo")]);
    assert_eq!(settings.neovim_bin, Some("foo".to_owned()));
}

#[test]
fn test_srgb_default() {
    for default_value in [false, true] {
        let settings = handle_on(&["neovide"], &[], default_value);
        assert_eq!(settings.srgb, default_value);
    }
}

#[test]
fn test_srgb() {
    let settings = handle(&["neovide", "--srgb"]);
    assert_eq!(settings.srgb, true);
}

#[test]
fn test_nosrgb() {
    let settings = handle(&["neovide", "--no-srgb"]);
    assert_eq!(settings.srgb, false);
}

#[test]
fn test_no_srgb_environment() {
    let settings = handle_with_env(&["neovide"], &[("NEOVIDE_SRGB", "0")]);
    assert_eq!(settings.srgb, false);
}

#[test]
fn test_override_srgb_environment() {
    let settings = handle_with_env(&["neovide", "--no-srgb"], &[("NEOVIDE_SRGB", "1")]);
    assert_eq!(settings.srgb, false);
}

#[test]
fn test_override_nosrgb_environment() {
    let settings = handle_with_env(&["neovide", "--srgb"], &[("NEOVIDE_SRGB", "0")]);
    assert_eq!(settings.srgb, true,);
}

#[test]
fn test_vsync_default() {
    let settings = handle(&["neovide"]);
    assert_eq!(settings.vsync, true);
}

#[test]
fn test_vsync() {
    let settings = handle(&["neovide", "--vsync"]);
    assert_eq!(settings.vsync, true);
}

#[test]
fn test_novsync() {
    let settings = handle(&["neovide", "--no-vsync"]);
    assert_eq!(settings.vsync, false);
}

#[test]
fn test_no_vsync_environment() {
    let settings = handle_with_env(&["neovide"], &[("NEOVIDE_VSYNC", "0")]);
    assert_eq!(settings.vsync, false);
}

#[test]
fn test_override_vsync_environment() {
    let settings = handle_with_env(&["neovide", "--no-vsync"], &[("NEOVIDE_VSYNC", "1")]);
    assert_eq!(settings.vsync, false);
}

#[test]
fn test_override_novsync_environment() {
    let settings = handle_with_env(&["neovide", "--vsync"], &[("NEOVIDE_VSYNC", "0")]);
    assert_eq!(settings.vsync, true,);
}

#[test]
fn off_words_in_the_environment_ignore_case() {
    for off in ["OFF", "Off", "oFf", "NO", "No", "N", "F", "FALSE", "False", "0"] {
        let settings = handle_with_env(&["neovide"], &[("NEOVIDE_VSYNC", off), ("NEOVIDE_SRGB", off)]);
        assert_eq!(settings.vsync, false, "{}", off);
        assert_eq!(settings.srgb, false, "{}", off);
        let windows = handle_on(&["neovide"], &[("NEOVIDE_SRGB", off)], true);
        assert_eq!(windows.srgb, false, "{}", off);
    }
    for on in ["ON", "Yes", "TRUE", "1", "offf", " off", "nope"] {
        let settings = handle_with_env(&["neovide"], &[("NEOVIDE_VSYNC", on), ("NEOVIDE_SRGB", on)]);
        assert_eq!(settings.vsync, true, "{}", on);
        assert_eq!(settings.srgb, true, "{}", on);
    }
}

#[test]
fn srgb_switches_win_over_the_platform_default() {
    assert_eq!(handle_on(&["neovide", "--no-srgb"], &[], true).srgb, false);
    assert_eq!(handle_on(&["neovide", "--srgb"], &[], false).srgb, true);
    assert_eq!(handle_on(&["neovide"], &[("NEOVIDE_SRGB", "1")], false).srgb, true);
}

#[test]
fn settings_from_the_environment_alone() {
    let frameless = CmdLineSettings::from_environment(&to_env(&[("NEOVIDE_FRAME", "none")]), false).unwrap();
    assert_eq!(frameless.frame, Frame::Frameless);
    assert_eq!(frameless.files_to_open, Vec::<String>::new());
    assert_eq!(frameless.neovim_args, Vec::<String>::new());
    let windows = CmdLineSettings::from_environment(&Vec::new(), true).unwrap();
    assert!(windows.srgb);
    assert!(CmdLineSettings::from_environment(&to_env(&[("NEOVIDE_FRAME", "bogus")]), false).is_err());
    assert!(!CmdLineSettings::default().srgb);
    assert_eq!(CmdLineSettings::default().frame, Frame::Full);
}
