use std::str::FromStr;

use neovide::{handle_command_line_arguments, parse_command_line, CmdLineError, CmdLineSettings, Dimensions, Frame};

fn to_args(words: &[&str]) -> Vec<String> {
    words.iter().map(|s| s.to_string()).collect()
}

fn to_env(vars: &[(&str, &str)]) -> Vec<(String, String)> {
    vars.iter().map(|(k, v)| (k.to_string(), v.to_string())).collect()
}

fn run(words: &[&str], vars: &[(&str, &str)]) -> Result<CmdLineSettings, CmdLineError> {
    handle_command_line_arguments(to_args(words), &to_env(vars), false)
}

fn error_of(words: &[&str], vars: &[(&str, &str)]) -> CmdLineError {
    match run(words, vars) {
        Ok(_) => panic!("the command line was accepted"),
        Err(e) => e,
    }
}

#[test]
fn passthrough_keeps_everything_after_the_first_escape() {
    let s = run(&["neovide", "a.txt", "--", "--x", "--", "-p", "-h"], &[]).unwrap();
    assert_eq!(s.neovim_args, vec!["-p", "a.txt", "--x", "--", "-p", "-h"]);
    assert!(s.files_to_open.is_empty());
}

#[test]
fn files_follow_the_tab_flag_in_order() {
    let s = run(&["neovide", "b", "a", "-", ""], &[]).unwrap();
    assert_eq!(s.neovim_args, vec!["-p", "b", "a", "-", ""]);
}

#[test]
fn parsing_alone_keeps_the_files_apart() {
    let s = parse_command_line(to_args(&["neovide", "x.txt", "--", "y"]), &Vec::new(), false).unwrap();
    assert_eq!(s.files_to_open, vec!["x.txt"]);
    assert_eq!(s.neovim_args, vec!["y"]);
}

#[test]
fn no_arguments_at_all_give_the_defaults() {
    let s = run(&[], &[]).unwrap();
    assert_eq!(s.neovim_args, vec!["-p"]);
    assert!(s.vsync);
    assert!(!s.srgb);
    assert!(s.idle);
    assert_eq!(s.frame, Frame::Full);
    assert_eq!(s.wayland_app_id, "neovide");
    assert_eq!(s.x11_wm_class, "neovide");
    assert_eq!(s.x11_wm_class_instance, "neovide");
    assert_eq!(s.server, None);
    assert_eq!(s.neovim_bin, None);
    assert_eq!(s.geometry.grid, None);
    assert_eq!(s.geometry.size, None);
    assert!(!s.geometry.maximized);
    assert!(!s.wsl && !s.no_fork && !s.no_tabs && !s.log_to_file && !s.no_multi_grid);
}

#[test]
fn default_settings_match_an_empty_command_line() {
    let s = CmdLineSettings::default();
    assert!(s.vsync);
    assert!(!s.srgb);
    assert!(s.idle);
    assert!(s.neovim_args.is_empty());
    assert_eq!(s.frame, Frame::Full);
}

#[test]
fn off_switch_wins_over_on_switch() {
    let s = run(&["neovide", "--vsync", "--no-vsync", "--srgb", "--no-srgb"], &[]).unwrap();
    assert!(!s.vsync);
    assert!(!s.srgb);
}

#[test]
fn switches_after_the_escape_are_passed_through() {
    let s = run(&["neovide", "--", "--no-vsync", "--log"], &[]).unwrap();
    assert!(s.vsync);
    assert!(!s.log_to_file);
    assert_eq!(s.neovim_args, vec!["-p", "--no-vsync", "--log"]);
}

#[test]
fn environment_switches_are_read_permissively() {
    let off = run(&["neovide"], &[("NEOVIDE_IDLE", "off")]).unwrap();
    assert!(!off.idle);
    let empty = run(&["neovide"], &[("NEOVIDE_IDLE", "")]).unwrap();
    assert!(!empty.idle);
    let yes = run(&["neovide"], &[("NEOVIDE_NO_MULTIGRID", "anything")]).unwrap();
    assert!(yes.no_multi_grid);
    let no_idle = run(&["neovide", "--no-idle"], &[("NEOVIDE_IDLE", "1")]).unwrap();
    assert!(!no_idle.idle);
}

#[test]
fn wsl_variable_is_read_strictly() {
    assert!(run(&["neovide"], &[("NEOVIDE_WSL", "true")]).unwrap().wsl);
    assert!(!run(&["neovide"], &[("NEOVIDE_WSL", "false")]).unwrap().wsl);
    assert_eq!(error_of(&["neovide"], &[("NEOVIDE_WSL", "1")]), CmdLineError::InvalidValue);
    assert!(run(&["neovide", "--wsl"], &[("NEOVIDE_WSL", "1")]).unwrap().wsl);
}

#[test]
fn text_options_come_from_the_command_line_then_the_environment() {
    let s = run(
        &["neovide", "--neovim-bin=/bin/nvim", "--x11-wm-class", "cls"],
        &[("NEOVIM_BIN", "other"), ("NEOVIDE_APP_ID", "app"), ("NEOVIDE_WM_CLASS", "envcls")],
    )
    .unwrap();
    assert_eq!(s.neovim_bin, Some("/bin/nvim".to_owned()));
    assert_eq!(s.wayland_app_id, "app");
    assert_eq!(s.x11_wm_class, "cls");
    assert_eq!(s.x11_wm_class_instance, "neovide");
}

#[test]
fn first_entry_of_a_variable_counts() {
    let s = run(&["neovide"], &[("NEOVIM_BIN", "first"), ("NEOVIM_BIN", "second")]).unwrap();
    assert_eq!(s.neovim_bin, Some("first".to_owned()));
}

#[test]
fn attached_value_is_everything_after_the_first_equals() {
    let s = run(&["neovide", "--server=host=1"], &[]).unwrap();
    assert_eq!(s.server, Some("host=1".to_owned()));
    let alias = run(&["neovide", "--remote-tcp", "127.0.0.1:6666"], &[]).unwrap();
    assert_eq!(alias.server, Some("127.0.0.1:6666".to_owned()));
    let empty = run(&["neovide", "--server="], &[]).unwrap();
    assert_eq!(empty.server, Some(String::new()));
}

#[test]
fn grid_without_value_takes_the_editor_size() {
    let s = run(&["neovide", "--grid"], &[]).unwrap();
    assert_eq!(s.geometry.grid, Some(None));
    let before_escape = run(&["neovide", "--grid", "--", "x"], &[]).unwrap();
    assert_eq!(before_escape.geometry.grid, Some(None));
    assert_eq!(before_escape.neovim_args, vec!["-p", "x"]);
}

#[test]
fn grid_takes_the_next_plain_argument_as_its_value() {
    assert_eq!(error_of(&["neovide", "--grid", "foo.txt"], &[]), CmdLineError::ValueValidation);
    let s = run(&["neovide", "--grid", "+80x+25"], &[]).unwrap();
    assert_eq!(s.geometry.grid, Some(Some(Dimensions { width: 80, height: 25 })));
}

#[test]
fn dimensions_must_be_two_positive_numbers() {
    assert_eq!(error_of(&["neovide", "--size=0x5"], &[]), CmdLineError::ValueValidation);
    assert_eq!(error_of(&["neovide", "--size=1x2x3"], &[]), CmdLineError::ValueValidation);
    assert_eq!(error_of(&["neovide", "--size=12"], &[]), CmdLineError::ValueValidation);
    assert_eq!(error_of(&["neovide", "--size=x5"], &[]), CmdLineError::ValueValidation);
    assert_eq!(error_of(&["neovide", "--size=-1x5"], &[]), CmdLineError::ValueValidation);
    assert_eq!(
        error_of(&["neovide", "--size=18446744073709551616x1"], &[]),
        CmdLineError::ValueValidation
    );
    let s = run(&["neovide", "--size=18446744073709551615x007"], &[]).unwrap();
    assert_eq!(s.geometry.size, Some(Dimensions { width: u64::MAX, height: 7 }));
}

#[test]
fn dimensions_read_from_text() {
    assert_eq!(Dimensions::from_str("42x24"), Ok(Dimensions { width: 42, height: 24 }));
    assert!(Dimensions::from_str("42X24").is_err());
    assert!(Dimensions::from_str("").is_err());
}

#[test]
fn frame_values_are_the_lower_case_names() {
    assert_eq!(run(&["neovide", "--frame", "none"], &[]).unwrap().frame, Frame::Frameless);
    assert_eq!(error_of(&["neovide", "--frame=None"], &[]), CmdLineError::InvalidValue);
    assert_eq!(error_of(&["neovide"], &[("NEOVIDE_FRAME", "")]), CmdLineError::InvalidValue);
    assert_eq!(
        run(&["neovide", "--frame=full"], &[("NEOVIDE_FRAME", "bogus")]).unwrap().frame,
        Frame::Full
    );
}

#[test]
fn geometry_options_exclude_each_other() {
    assert_eq!(error_of(&["neovide", "--grid", "--size=1x1"], &[]), CmdLineError::ArgumentConflict);
    assert_eq!(error_of(&["neovide", "--size=1x1", "--maximized"], &[]), CmdLineError::ArgumentConflict);
    assert_eq!(
        error_of(&["neovide", "--grid=2x2"], &[("NEOVIDE_MAXIMIZED", "0")]),
        CmdLineError::ArgumentConflict
    );
    assert!(run(&["neovide"], &[("NEOVIDE_MAXIMIZED", "1")]).unwrap().geometry.maximized);
}

#[test]
fn unknown_arguments_are_refused() {
    assert_eq!(error_of(&["neovide", "--bogus"], &[]), CmdLineError::UnknownArgument);
    assert_eq!(error_of(&["neovide", "-x"], &[]), CmdLineError::UnknownArgument);
    assert_eq!(error_of(&["neovide", "-p"], &[]), CmdLineError::UnknownArgument);
    assert_eq!(error_of(&["neovide", "---log"], &[]), CmdLineError::UnknownArgument);
    assert_eq!(error_of(&["neovide", "--=x"], &[]), CmdLineError::UnknownArgument);
    assert_eq!(error_of(&["neovide", "--frame", "bogus", "--bogus"], &[]), CmdLineError::UnknownArgument);
}

#[test]
fn help_and_version_are_asked_for() {
    assert_eq!(error_of(&["neovide", "--help"], &[]), CmdLineError::DisplayHelp);
    assert_eq!(error_of(&["neovide", "-h"], &[]), CmdLineError::DisplayHelp);
    assert_eq!(error_of(&["neovide", "-hV"], &[]), CmdLineError::DisplayHelp);
    assert_eq!(error_of(&["neovide", "--version"], &[]), CmdLineError::DisplayVersion);
    assert_eq!(error_of(&["neovide", "-V"], &[]), CmdLineError::DisplayVersion);
    assert_eq!(error_of(&["neovide", "--frame", "bogus", "-h"], &[]), CmdLineError::InvalidValue);
}

#[test]
fn switches_take_no_value() {
    assert_eq!(error_of(&["neovide", "--log=true"], &[]), CmdLineError::TooManyValues);
    assert_eq!(error_of(&["neovide", "--help=me"], &[]), CmdLineError::TooManyValues);
}

#[test]
fn nothing_may_be_given_twice() {
    assert_eq!(error_of(&["neovide", "--log", "--log"], &[]), CmdLineError::ArgumentConflict);
    assert_eq!(error_of(&["neovide", "--server=a", "--remote-tcp=b"], &[]), CmdLineError::ArgumentConflict);
    assert_eq!(error_of(&["neovide", "--grid", "--grid"], &[]), CmdLineError::ArgumentConflict);
}

#[test]
fn options_need_their_values() {
    assert_eq!(error_of(&["neovide", "--server"], &[]), CmdLineError::InvalidValue);
    assert_eq!(error_of(&["neovide", "--server", "--log"], &[]), CmdLineError::InvalidValue);
    assert_eq!(error_of(&["neovide", "--neovim-bin", "--", "x"], &[]), CmdLineError::InvalidValue);
    let dash = run(&["neovide", "--neovim-bin", "-"], &[]).unwrap();
    assert_eq!(dash.neovim_bin, Some("-".to_owned()));
}

#[test]
fn plain_argument_after_an_option_is_its_value() {
    let s = parse_command_line(
        to_args(&["neovide", "--neovim-bin", "nvim", "a.txt", "--frame", "none", "b.txt", "--", "c"]),
        &to_env(&[("NEOVIM_BIN", "other"), ("NEOVIDE_FRAME", "full")]),
        false,
    )
    .unwrap();
    assert_eq!(s.files_to_open, vec!["a.txt", "b.txt"]);
    assert_eq!(s.neovim_bin, Some("nvim".to_string()));
    assert_eq!(s.frame, Frame::Frameless);
    assert_eq!(s.neovim_args, vec!["c"]);
    let attached = parse_command_line(to_args(&["neovide", "--neovim-bin=nvim", "a.txt"]), &Vec::new(), false).unwrap();
    assert_eq!(attached.files_to_open, vec!["a.txt"]);
    assert_eq!(attached.neovim_bin, Some("nvim".to_string()));
    let grid = parse_command_line(to_args(&["neovide", "--grid", "80x24", "x"]), &Vec::new(), false).unwrap();
    assert_eq!(grid.geometry.grid, Some(Some(Dimensions { width: 80, height: 24 })));
    assert_eq!(grid.files_to_open, vec!["x"]);
}
