//! The settings that the command line gives, and how they are made from
//! the argument list and the environment.
use vstd::prelude::*;

use crate::dimensions::Dimensions;
use crate::error::CmdLineError;
use crate::frame::{parse_frame, spec_parse_frame, Frame};
use crate::grammar::{flag_slot, FlagId};
use crate::scan::{push_string, flag_seen, initial_scan, spec_read_args, spec_resolve_pending, spec_scan, Scan, ScanModel};
use crate::text::{chars_eq_str, string_chars};
use crate::value_parsers::{parse_bool, parse_falsey, spec_parse_bool, spec_parse_falsey};

verus! {

/// The initial window geometry; at most one of the three is given.
#[derive(Clone, Copy, Debug, PartialEq, Eq, Structural)]
pub struct GeometryArgs {
    /// The initial grid size of the window, `<columns>x<lines>`;
    /// `Some(None)` when `--grid` is given without a value, to take the
    /// size from the editor's own configuration.
    pub grid: Option<Option<Dimensions>>,
    /// The size of the window in pixels.
    pub size: Option<Dimensions>,
    /// Maximize the window on startup.
    pub maximized: bool,
}

/// Everything the command line and its environment variables set.
#[derive(Clone, Debug)]
pub struct CmdLineSettings {
    /// Files to open (appended to the editor's arguments).
    pub files_to_open: Vec<String>,
    /// Arguments given after `--`, handed to the editor uninterpreted.
    pub neovim_args: Vec<String>,
    /// `--log`: log to a file in the current directory.
    pub log_to_file: bool,
    /// `--server` (or `--remote-tcp`): the pipe or socket to connect to.
    pub server: Option<String>,
    /// `--wsl` or `NEOVIDE_WSL`: run the editor in WSL.
    pub wsl: bool,
    /// `--frame` or `NEOVIDE_FRAME`: which window decorations to use.
    pub frame: Frame,
    /// `--no-multigrid` or `NEOVIDE_NO_MULTIGRID`.
    pub no_multi_grid: bool,
    /// `--no-fork`: stay in the foreground.
    pub no_fork: bool,
    /// Render only when needed; `--no-idle` or `NEOVIDE_IDLE` clears it.
    pub idle: bool,
    /// `--no-tabs`: do not open the files in tabs.
    pub no_tabs: bool,
    /// `--srgb` or `NEOVIDE_SRGB`: request sRGB (by default on Windows only).
    pub srgb: bool,
    /// `--no-srgb`: do not request sRGB.
    pub _no_srgb: bool,
    /// `--vsync` or `NEOVIDE_VSYNC`: request VSync (the default).
    pub vsync: bool,
    /// `--no-vsync`: do not request VSync.
    pub _no_vsync: bool,
    /// `--neovim-bin` or `NEOVIM_BIN`: the editor binary to run.
    pub neovim_bin: Option<String>,
    /// `--wayland_app_id` or `NEOVIDE_APP_ID`.
    pub wayland_app_id: String,
    /// `--x11-wm-class` or `NEOVIDE_WM_CLASS`.
    pub x11_wm_class: String,
    /// `--x11-wm-class-instance` or `NEOVIDE_WM_CLASS_INSTANCE`.
    pub x11_wm_class_instance: String,
    pub geometry: GeometryArgs,
}

/// The settings as plain values.
pub struct SettingsModel {
    pub files_to_open: Seq<Seq<char>>,
    pub neovim_args: Seq<Seq<char>>,
    pub log_to_file: bool,
    pub server: Option<Seq<char>>,
    pub wsl: bool,
    pub frame: Frame,
    pub no_multi_grid: bool,
    pub no_fork: bool,
    pub idle: bool,
    pub no_tabs: bool,
    pub srgb: bool,
    pub no_srgb: bool,
    pub vsync: bool,
    pub no_vsync: bool,
    pub neovim_bin: Option<Seq<char>>,
    pub wayland_app_id: Seq<char>,
    pub x11_wm_class: Seq<char>,
    pub x11_wm_class_instance: Seq<char>,
    pub geometry: GeometryArgs,
}

impl View for CmdLineSettings {
    type V = SettingsModel;

    open spec fn view(&self) -> SettingsModel {
        SettingsModel {
            files_to_open: self.files_to_open.deep_view(),
            neovim_args: self.neovim_args.deep_view(),
            log_to_file: self.log_to_file,
            server: self.server.deep_view(),
            wsl: self.wsl,
            frame: self.frame,
            no_multi_grid: self.no_multi_grid,
            no_fork: self.no_fork,
            idle: self.idle,
            no_tabs: self.no_tabs,
            srgb: self.srgb,
            no_srgb: self._no_srgb,
            vsync: self.vsync,
            no_vsync: self._no_vsync,
            neovim_bin: self.neovim_bin.deep_view(),
            wayland_app_id: self.wayland_app_id@,
            x11_wm_class: self.x11_wm_class@,
            x11_wm_class_instance: self.x11_wm_class_instance@,
            geometry: self.geometry,
        }
    }
}

/// The value of the environment variable `name`: the first entry of that
/// name. Names are compared exactly; where the platform ignores their case
/// (Windows), the caller hands them in upper case.
pub open spec fn env_var(env: Seq<(Seq<char>, Seq<char>)>, name: Seq<char>) -> Option<Seq<char>>
    decreases env.len(),
{
    if env.len() == 0 {
        None
    } else if env[0].0 == name {
        Some(env[0].1)
    } else {
        env_var(env.drop_first(), name)
    }
}

/// The environment variables that the command line consults.
pub open spec fn consulted_variable(name: Seq<char>) -> bool {
    ||| name == "NEOVIDE_WSL"@
    ||| name == "NEOVIDE_FRAME"@
    ||| name == "NEOVIDE_NO_MULTIGRID"@
    ||| name == "NEOVIDE_IDLE"@
    ||| name == "NEOVIDE_SRGB"@
    ||| name == "NEOVIDE_VSYNC"@
    ||| name == "NEOVIM_BIN"@
    ||| name == "NEOVIDE_APP_ID"@
    ||| name == "NEOVIDE_WM_CLASS"@
    ||| name == "NEOVIDE_WM_CLASS_INSTANCE"@
    ||| name == "NEOVIDE_MAXIMIZED"@
}

/// Whether the command line consults the environment variable `name`
/// (whose value must then be text).
pub fn consults_variable(name: &String) -> (res: bool)
    ensures
        res == consulted_variable(name@),
{
    let n = string_chars(name);
    chars_eq_str(&n, "NEOVIDE_WSL") || chars_eq_str(&n, "NEOVIDE_FRAME") || chars_eq_str(&n, "NEOVIDE_NO_MULTIGRID")
        || chars_eq_str(&n, "NEOVIDE_IDLE") || chars_eq_str(&n, "NEOVIDE_SRGB") || chars_eq_str(&n, "NEOVIDE_VSYNC")
        || chars_eq_str(&n, "NEOVIM_BIN") || chars_eq_str(&n, "NEOVIDE_APP_ID") || chars_eq_str(&n, "NEOVIDE_WM_CLASS")
        || chars_eq_str(&n, "NEOVIDE_WM_CLASS_INSTANCE") || chars_eq_str(&n, "NEOVIDE_MAXIMIZED")
}

/// The environment variable consulted for a switch or an option, when the
/// command line did not give it.
pub open spec fn env_unless(given: bool, env: Seq<(Seq<char>, Seq<char>)>, name: Seq<char>) -> Option<Seq<char>> {
    if given {
        None
    } else {
        env_var(env, name)
    }
}

/// A switch that an environment variable can also set: `on` when given on
/// the command line, else the variable read permissively, else `default`.
pub open spec fn switch_value(given: bool, on: bool, env_value: Option<Seq<char>>, default: bool) -> bool {
    if given {
        on
    } else {
        match env_value {
            Some(v) => spec_parse_falsey(v),
            None => default,
        }
    }
}

/// A text option that an environment variable can also set.
pub open spec fn text_value(given: Option<Seq<char>>, env_value: Option<Seq<char>>) -> Option<Seq<char>> {
    match given {
        Some(v) => Some(v),
        None => env_value,
    }
}

/// The default of the window-class options and of the application id.
pub open spec fn default_app_name() -> Seq<char> {
    "neovide"@
}

/// The geometry options given, on the command line or (for `maximized`)
/// through the environment; at most one of them may be.
pub open spec fn geometry_given(st: ScanModel, env: Seq<(Seq<char>, Seq<char>)>) -> nat {
    (if st.grid is Some { 1nat } else { 0nat }) + (if st.size is Some { 1nat } else { 0nat }) + (
    if flag_seen(st, FlagId::Maximized) || env_var(env, "NEOVIDE_MAXIMIZED"@) is Some {
        1nat
    } else {
        0nat
    })
}

/// The environment variable for `--wsl`, when the switch was not given.
pub open spec fn wsl_env(st: ScanModel, env: Seq<(Seq<char>, Seq<char>)>) -> Option<Seq<char>> {
    env_unless(flag_seen(st, FlagId::Wsl), env, "NEOVIDE_WSL"@)
}

/// The environment variable for `--frame`, when the option was not given.
pub open spec fn frame_env(st: ScanModel, env: Seq<(Seq<char>, Seq<char>)>) -> Option<Seq<char>> {
    env_unless(st.frame is Some, env, "NEOVIDE_FRAME"@)
}

/// What the environment and the geometry options can still reject once the
/// arguments are read: a `NEOVIDE_WSL` that is not `true` or `false`, a
/// `NEOVIDE_FRAME` that names no frame (each only where the command line
/// did not give the setting), and two geometry options given together.
pub open spec fn settings_error(st: ScanModel, env: Seq<(Seq<char>, Seq<char>)>) -> Option<CmdLineError> {
    if wsl_env(st, env) matches Some(v) && spec_parse_bool(v) is None {
        Some(CmdLineError::InvalidValue)
    } else if frame_env(st, env) matches Some(v) && spec_parse_frame(v) is None {
        Some(CmdLineError::InvalidValue)
    } else if geometry_given(st, env) >= 2 {
        Some(CmdLineError::ArgumentConflict)
    } else {
        None
    }
}

/// The settings that read arguments give together with the environment:
/// the command line first, then the environment variable, then the default
/// (for sRGB, `srgb_default`).
pub open spec fn settings_of(st: ScanModel, env: Seq<(Seq<char>, Seq<char>)>, srgb_default: bool) -> SettingsModel {
    SettingsModel {
        files_to_open: st.files,
        neovim_args: st.passthrough,
        log_to_file: flag_seen(st, FlagId::Log),
        server: st.server,
        wsl: flag_seen(st, FlagId::Wsl) || (wsl_env(st, env) matches Some(v) && spec_parse_bool(v)
            == Some(true)),
        frame: match st.frame {
            Some(f) => f,
            None => match frame_env(st, env) {
                Some(v) => spec_parse_frame(v).unwrap(),
                None => Frame::Full,
            },
        },
        no_multi_grid: switch_value(
            flag_seen(st, FlagId::NoMultigrid),
            true,
            env_var(env, "NEOVIDE_NO_MULTIGRID"@),
            false,
        ),
        no_fork: flag_seen(st, FlagId::NoFork),
        idle: switch_value(flag_seen(st, FlagId::NoIdle), false, env_var(env, "NEOVIDE_IDLE"@), true),
        no_tabs: flag_seen(st, FlagId::NoTabs),
        srgb: switch_value(
            flag_seen(st, FlagId::Srgb),
            true,
            env_var(env, "NEOVIDE_SRGB"@),
            srgb_default,
        ),
        no_srgb: flag_seen(st, FlagId::NoSrgb),
        vsync: switch_value(flag_seen(st, FlagId::Vsync), true, env_var(env, "NEOVIDE_VSYNC"@), true),
        no_vsync: flag_seen(st, FlagId::NoVsync),
        neovim_bin: text_value(st.neovim_bin, env_var(env, "NEOVIM_BIN"@)),
        wayland_app_id: text_value(st.wayland_app_id, env_var(env, "NEOVIDE_APP_ID"@)).unwrap_or(
            default_app_name(),
        ),
        x11_wm_class: text_value(st.x11_wm_class, env_var(env, "NEOVIDE_WM_CLASS"@)).unwrap_or(
            default_app_name(),
        ),
        x11_wm_class_instance: text_value(
            st.x11_wm_class_instance,
            env_var(env, "NEOVIDE_WM_CLASS_INSTANCE"@),
        ).unwrap_or(default_app_name()),
        geometry: GeometryArgs {
            grid: st.grid,
            size: st.size,
            maximized: switch_value(
                flag_seen(st, FlagId::Maximized),
                true,
                env_var(env, "NEOVIDE_MAXIMIZED"@),
                false,
            ),
        },
    }
}

/// The settings that read arguments give together with the environment:
/// the environment fills in what the command line left out, the defaults
/// fill in the rest, and then the geometry options are checked to be
/// exclusive.
pub open spec fn spec_settings(st: ScanModel, env: Seq<(Seq<char>, Seq<char>)>, srgb_default: bool) -> Result<
    SettingsModel,
    CmdLineError,
> {
    match settings_error(st, env) {
        Some(e) => Err(e),
        None => Ok(settings_of(st, env, srgb_default)),
    }
}

/// What the command line `args` (the program's name first) gives in the
/// environment `env`.
pub open spec fn spec_parse_command_line(
    args: Seq<Seq<char>>,
    env: Seq<(Seq<char>, Seq<char>)>,
    srgb_default: bool,
) -> Result<
    SettingsModel,
    CmdLineError,
> {
    match spec_read_args(args) {
        Err(e) => Err(e),
        Ok(st) => spec_settings(st, env, srgb_default),
    }
}

/// The editor's arguments start with `-p` (open the files in tabs) unless
/// `--no-tabs` was given.
pub open spec fn tab_flag(no_tabs: bool) -> Seq<Seq<char>> {
    if no_tabs {
        Seq::empty()
    } else {
        seq!["-p"@]
    }
}

/// The settings as they are used: the files to open moved into the
/// editor's arguments, after the tab flag and before the passed-through
/// arguments, and `--no-vsync` and `--no-srgb` taking precedence.
pub open spec fn spec_apply(s: SettingsModel) -> SettingsModel {
    SettingsModel {
        neovim_args: tab_flag(s.no_tabs) + s.files_to_open + s.neovim_args,
        files_to_open: Seq::empty(),
        vsync: s.vsync && !s.no_vsync,
        srgb: s.srgb && !s.no_srgb,
        ..s
    }
}

/// What handling the command line `args` in the environment `env` gives.
pub open spec fn spec_handle(args: Seq<Seq<char>>, env: Seq<(Seq<char>, Seq<char>)>, srgb_default: bool) -> Result<
    SettingsModel,
    CmdLineError,
> {
    match spec_parse_command_line(args, env, srgb_default) {
        Err(e) => Err(e),
        Ok(s) => Ok(spec_apply(s)),
    }
}

/// A result of settings, compared with what the model gives.
pub open spec fn settings_result(r: Result<CmdLineSettings, CmdLineError>, expected: Result<SettingsModel, CmdLineError>) -> bool {
    match r {
        Ok(s) => expected == Ok::<SettingsModel, CmdLineError>(s@),
        Err(e) => expected == Err::<SettingsModel, CmdLineError>(e),
    }
}

/// Looks up the environment variable `name`.
fn lookup_env(env: &Vec<(String, String)>, name: &str) -> (res: Option<String>)
    ensures
        res.deep_view() == env_var(env.deep_view(), name@),
{
    let ghost full = env.deep_view();
    let n = env.len();
    let mut i: usize = 0;
    assert(full.skip(0) =~= full);
    while i < n
        invariant
            n == env.len(),
            i <= n,
            full == env.deep_view(),
            env_var(full, name@) == env_var(full.skip(i as int), name@),
        decreases n - i,
    {
        let key = string_chars(&env[i].0);
        assert(full.skip(i as int)[0] == (env[i as int].0@, env[i as int].1@));
        if chars_eq_str(&key, name) {
            return Some(env[i].1.clone());
        }
        assert(full.skip(i as int).drop_first() =~= full.skip(i + 1));
        i = i + 1;
    }
    None
}

/// A switch that an environment variable can also set.
fn switch_from(given: bool, on: bool, env_value: &Option<String>, default: bool) -> (res: bool)
    ensures
        res == switch_value(given, on, env_value.deep_view(), default),
{
    if given {
        on
    } else {
        match env_value {
            Some(v) => parse_falsey(&string_chars(v)),
            None => default,
        }
    }
}

/// A text option that an environment variable can also set, with a default.
fn text_from(given: Option<String>, env_value: Option<String>, default: &str) -> (res: String)
    ensures
        res@ == text_value(given.deep_view(), env_value.deep_view()).unwrap_or(default@),
{
    match given {
        Some(v) => v,
        None => match env_value {
            Some(v) => v,
            None => default.to_owned(),
        },
    }
}

fn text_opt_from(given: Option<String>, env_value: Option<String>) -> (res: Option<String>)
    ensures
        res.deep_view() == text_value(given.deep_view(), env_value.deep_view()),
{
    match given {
        Some(v) => Some(v),
        None => env_value,
    }
}

/// Checks what the environment and the geometry options can still reject.
fn check_settings(scan: &Scan, env: &Vec<(String, String)>) -> (res: Option<CmdLineError>)
    requires
        scan.wf(),
    ensures
        res == settings_error(scan@, env.deep_view()),
{
    let seen_wsl = scan.flags[flag_slot(FlagId::Wsl)];
    let seen_maximized = scan.flags[flag_slot(FlagId::Maximized)];
    if !seen_wsl {
        if let Some(v) = lookup_env(env, "NEOVIDE_WSL") {
            if parse_bool(&string_chars(&v)).is_none() {
                return Some(CmdLineError::InvalidValue);
            }
        }
    }
    if scan.frame.is_none() {
        if let Some(v) = lookup_env(env, "NEOVIDE_FRAME") {
            if parse_frame(&string_chars(&v)).is_none() {
                return Some(CmdLineError::InvalidValue);
            }
        }
    }
    let maximized_env = lookup_env(env, "NEOVIDE_MAXIMIZED");
    let given_count: u8 = (if scan.grid.is_some() {
        1u8
    } else {
        0u8
    }) + (if scan.size.is_some() {
        1u8
    } else {
        0u8
    }) + (if seen_maximized || maximized_env.is_some() {
        1u8
    } else {
        0u8
    });
    if given_count >= 2 {
        Some(CmdLineError::ArgumentConflict)
    } else {
        None
    }
}

/// `--wsl`, else `NEOVIDE_WSL` read strictly.
fn wsl_from(seen: bool, env: &Vec<(String, String)>) -> (res: bool)
    ensures
        res == (seen || (env_unless(seen, env.deep_view(), "NEOVIDE_WSL"@) matches Some(v)
            && spec_parse_bool(v) == Some(true))),
{
    if seen {
        return true;
    }
    match lookup_env(env, "NEOVIDE_WSL") {
        Some(v) => parse_bool(&string_chars(&v)) == Some(true),
        None => false,
    }
}

/// `--frame`, else `NEOVIDE_FRAME`, else the full frame.
fn frame_from(given: Option<Frame>, env: &Vec<(String, String)>) -> (res: Frame)
    requires
        !(env_unless(given is Some, env.deep_view(), "NEOVIDE_FRAME"@) matches Some(v)
            && spec_parse_frame(v) is None),
    ensures
        res == match given {
            Some(f) => f,
            None => match env_unless(given is Some, env.deep_view(), "NEOVIDE_FRAME"@) {
                Some(v) => spec_parse_frame(v).unwrap(),
                None => Frame::Full,
            },
        },
{
    match given {
        Some(f) => f,
        None => match lookup_env(env, "NEOVIDE_FRAME") {
            Some(v) => match parse_frame(&string_chars(&v)) {
                Some(f) => f,
                None => Frame::Full,
            },
            None => Frame::Full,
        },
    }
}

/// Makes the settings from read arguments and the environment, once
/// nothing is left to reject.
fn build_settings(scan: Scan, env: &Vec<(String, String)>, srgb_default: bool) -> (res: CmdLineSettings)
    requires
        scan.wf(),
        settings_error(scan@, env.deep_view()) is None,
    ensures
        res@ == settings_of(scan@, env.deep_view(), srgb_default),
{
    let ghost st = scan@;
    let wsl = wsl_from(scan.flags[flag_slot(FlagId::Wsl)], env);
    let frame = frame_from(scan.frame, env);
    let no_multi_grid = switch_from(
        scan.flags[flag_slot(FlagId::NoMultigrid)],
        true,
        &lookup_env(env, "NEOVIDE_NO_MULTIGRID"),
        false,
    );
    let idle = switch_from(scan.flags[flag_slot(FlagId::NoIdle)], false, &lookup_env(env, "NEOVIDE_IDLE"), true);
    let srgb = switch_from(scan.flags[flag_slot(FlagId::Srgb)], true, &lookup_env(env, "NEOVIDE_SRGB"), srgb_default);
    let vsync = switch_from(scan.flags[flag_slot(FlagId::Vsync)], true, &lookup_env(env, "NEOVIDE_VSYNC"), true);
    let maximized = switch_from(
        scan.flags[flag_slot(FlagId::Maximized)],
        true,
        &lookup_env(env, "NEOVIDE_MAXIMIZED"),
        false,
    );
    let neovim_bin = text_opt_from(scan.neovim_bin, lookup_env(env, "NEOVIM_BIN"));
    let wayland_app_id = text_from(scan.wayland_app_id, lookup_env(env, "NEOVIDE_APP_ID"), "neovide");
    let x11_wm_class = text_from(scan.x11_wm_class, lookup_env(env, "NEOVIDE_WM_CLASS"), "neovide");
    let x11_wm_class_instance = text_from(
        scan.x11_wm_class_instance,
        lookup_env(env, "NEOVIDE_WM_CLASS_INSTANCE"),
        "neovide",
    );
    CmdLineSettings {
        files_to_open: scan.files,
        neovim_args: scan.passthrough,
        log_to_file: scan.flags[flag_slot(FlagId::Log)],
        server: scan.server,
        wsl,
        frame,
        no_multi_grid,
        no_fork: scan.flags[flag_slot(FlagId::NoFork)],
        idle,
        no_tabs: scan.flags[flag_slot(FlagId::NoTabs)],
        srgb,
        _no_srgb: scan.flags[flag_slot(FlagId::NoSrgb)],
        vsync,
        _no_vsync: scan.flags[flag_slot(FlagId::NoVsync)],
        neovim_bin,
        wayland_app_id,
        x11_wm_class,
        x11_wm_class_instance,
        geometry: GeometryArgs { grid: scan.grid, size: scan.size, maximized },
    }
}

/// Makes the settings from read arguments and the environment.
fn settings_from(scan: Scan, env: &Vec<(String, String)>, srgb_default: bool) -> (res: Result<
    CmdLineSettings,
    CmdLineError,
>)
    requires
        scan.wf(),
    ensures
        settings_result(res, spec_settings(scan@, env.deep_view(), srgb_default)),
{
    match check_settings(&scan, env) {
        Some(e) => Err(e),
        None => Ok(build_settings(scan, env, srgb_default)),
    }
}

/// Reads the command line `args` (the program's name first) in the
/// environment `env` (name and value of each variable), as the command line
/// is declared: the switches and options it names, the files to open, and
/// what follows `--`. sRGB is on by default exactly when `srgb_default` is
/// (it is on Windows).
pub fn parse_command_line(args: Vec<String>, env: &Vec<(String, String)>, srgb_default: bool) -> (res: Result<
    CmdLineSettings,
    CmdLineError,
>)
    ensures
        settings_result(res, spec_parse_command_line(args.deep_view(), env.deep_view(), srgb_default)),
{
    let ghost argsd = args.deep_view();
    let ghost words = if argsd.len() == 0 {
        argsd
    } else {
        argsd.drop_first()
    };
    let mut scan = Scan::new();
    let n = args.len();
    let mut i: usize = if n == 0 {
        0
    } else {
        1
    };
    assert(words =~= argsd.skip(i as int));
    while i < n
        invariant
            n == args.len(),
            argsd == args.deep_view(),
            words == (if argsd.len() == 0 {
                argsd
            } else {
                argsd.drop_first()
            }),
            1 <= i || n == 0,
            i <= n,
            scan.wf(),
            spec_scan(words, initial_scan()) == spec_scan(argsd.skip(i as int), scan@),
        decreases n - i,
    {
        let arg = args[i].clone();
        let ghost before = scan@;
        assert(argsd.skip(i as int)[0] == arg@);
        assert(argsd.skip(i as int).drop_first() =~= argsd.skip(i + 1));
        match scan.step(arg) {
            Err(e) => {
                assert(spec_scan(argsd.skip(i as int), before) == Err::<ScanModel, CmdLineError>(e));
                assert(spec_read_args(argsd) == Err::<ScanModel, CmdLineError>(e));
                return Err(e);
            },
            Ok(()) => {},
        }
        i = i + 1;
    }
    assert(argsd.skip(i as int).len() == 0);
    match scan.resolve_pending() {
        Err(e) => {
            return Err(e);
        },
        Ok(()) => {},
    }
    settings_from(scan, env, srgb_default)
}

/// Handles the command line `args` (the program's name first) in the
/// environment `env`: reads it, then moves the files to open into the
/// editor's arguments, after `-p` unless `--no-tabs` was given and before
/// the arguments given after `--`, and lets `--no-vsync` and `--no-srgb`
/// switch VSync and sRGB off.
pub fn handle_command_line_arguments(
    args: Vec<String>,
    env: &Vec<(String, String)>,
    srgb_default: bool,
) -> (res: Result<
    CmdLineSettings,
    CmdLineError,
>)
    ensures
        settings_result(res, spec_handle(args.deep_view(), env.deep_view(), srgb_default)),
{
    let mut cmdline = match parse_command_line(args, env, srgb_default) {
        Ok(s) => s,
        Err(e) => {
            return Err(e);
        },
    };
    let ghost parsed = cmdline@;
    let mut neovim_args: Vec<String> = Vec::new();
    if !cmdline.no_tabs {
        neovim_args.push("-p".to_owned());
    }
    assert(neovim_args.deep_view() =~= tab_flag(parsed.no_tabs));
    let mut files: Vec<String> = Vec::new();
    std::mem::swap(&mut files, &mut cmdline.files_to_open);
    let nf = files.len();
    for j in 0..nf
        invariant
            nf == files.len(),
            files.deep_view() == parsed.files_to_open,
            neovim_args.deep_view() == tab_flag(parsed.no_tabs) + parsed.files_to_open.take(j as int),
    {
        push_string(&mut neovim_args, files[j].clone());
        assert(parsed.files_to_open.take(j + 1) =~= parsed.files_to_open.take(j as int).push(files[j as int]@));
        assert(neovim_args.deep_view() =~= tab_flag(parsed.no_tabs) + parsed.files_to_open.take(j + 1));
    }
    assert(parsed.files_to_open.take(nf as int) =~= parsed.files_to_open);
    let np = cmdline.neovim_args.len();
    for j in 0..np
        invariant
            np == cmdline.neovim_args.len(),
            cmdline.neovim_args.deep_view() == parsed.neovim_args,
            neovim_args.deep_view() == tab_flag(parsed.no_tabs) + parsed.files_to_open
                + parsed.neovim_args.take(j as int),
    {
        push_string(&mut neovim_args, cmdline.neovim_args[j].clone());
        assert(parsed.neovim_args.take(j + 1) =~= parsed.neovim_args.take(j as int).push(cmdline.neovim_args[j as int]@));
        assert(neovim_args.deep_view() =~= tab_flag(parsed.no_tabs) + parsed.files_to_open
            + parsed.neovim_args.take(j + 1));
    }
    assert(parsed.neovim_args.take(np as int) =~= parsed.neovim_args);
    cmdline.neovim_args = neovim_args;
    if cmdline._no_vsync {
        cmdline.vsync = false;
    }
    if cmdline._no_srgb {
        cmdline.srgb = false;
    }
    assert(cmdline.files_to_open.deep_view() =~= Seq::<Seq<char>>::empty());
    Ok(cmdline)
}

impl CmdLineSettings {
    /// The settings of an empty command line in the environment `env`,
    /// where sRGB is on by default exactly when `srgb_default` is (it is on
    /// Windows): what the environment variables alone give, or the error of
    /// a variable that holds no valid value.
    pub fn from_environment(env: &Vec<(String, String)>, srgb_default: bool) -> (res: Result<
        CmdLineSettings,
        CmdLineError,
    >)
        ensures
            settings_result(res, spec_parse_command_line(Seq::empty(), env.deep_view(), srgb_default)),
    {
        let args: Vec<String> = Vec::new();
        assert(args.deep_view() =~= Seq::<Seq<char>>::empty());
        parse_command_line(args, env, srgb_default)
    }
}

impl Default for CmdLineSettings {
    /// The settings of an empty command line in an empty environment, with
    /// sRGB off by default; `from_environment` takes the environment and the
    /// platform's sRGB default.
    fn default() -> (res: CmdLineSettings)
        ensures
            spec_parse_command_line(Seq::empty(), Seq::empty(), false) == Ok::<SettingsModel, CmdLineError>(res@),
    {
        let env: Vec<(String, String)> = Vec::new();
        assert(env.deep_view() =~= Seq::<(Seq<char>, Seq<char>)>::empty());
        match CmdLineSettings::from_environment(&env, false) {
            Ok(s) => s,
            Err(e) => {
                proof {
                    assert(spec_scan(Seq::empty(), initial_scan()) == Ok::<ScanModel, CmdLineError>(initial_scan()));
                    assert(spec_resolve_pending(initial_scan()) == Ok::<ScanModel, CmdLineError>(initial_scan()));
                }
                vstd::pervasive::unreached()
            },
        }
    }
}

} // verus!
