//! What holds of every command line: where the arguments after `--` go,
//! which arguments before it are files to open, which switches they set
//! and what value each option they name takes, which arguments are
//! refused, how the command line and the environment combine (and that
//! only the declared variables count, each looked up by its exact name),
//! and that the geometry options exclude each other. The laws on option
//! names state them by their literal long names.
//!
//! The public proof functions (`law_*`) state these over the models of
//! `cmd_line`; the lemmas before them follow the reader through the
//! argument list.
use vstd::prelude::*;

use crate::cmd_line::{
    consulted_variable, env_var, settings_error, settings_of, spec_handle, spec_parse_command_line, switch_value, tab_flag, GeometryArgs,
    SettingsModel,
};
use crate::dimensions::spec_parse_dimensions;
use crate::error::CmdLineError;
use crate::frame::{spec_parse_frame, Frame};
use crate::grammar::{arg_shape, flag_index, spec_long_arg, ArgShape, FlagId, LongArg, OptId, FLAG_COUNT};
use crate::scan::{
    flag_seen, initial_scan, opt_present, spec_read_args, spec_record_flag, spec_record_option,
    spec_resolve_pending, spec_scan, spec_step, ScanModel,
};
use crate::text::{lemma_find_char_at, lemma_find_char_none};
use crate::value_parsers::spec_parse_falsey;

verus! {

/// The arguments proper: the list without the program's name.
pub open spec fn command_words(args: Seq<Seq<char>>) -> Seq<Seq<char>> {
    if args.len() == 0 {
        args
    } else {
        args.drop_first()
    }
}

/// The words before the first `--` (all of them when there is none).
pub open spec fn before_escape(words: Seq<Seq<char>>) -> Seq<Seq<char>> {
    match words.index_of_first("--"@) {
        Some(k) => words.take(k),
        None => words,
    }
}

/// The words after the first `--` (none when there is none).
pub open spec fn after_escape(words: Seq<Seq<char>>) -> Seq<Seq<char>> {
    match words.index_of_first("--"@) {
        Some(k) => words.skip(k + 1),
        None => Seq::empty(),
    }
}

/// An argument that the reading before `--` can accept: no short form
/// (`-h` and `-V` ask for the help and the version, every other is
/// unknown), no unknown long name, no `--help` or `--version`, and no
/// value attached to a switch.
pub open spec fn accepted_word(a: Seq<char>) -> bool {
    match arg_shape(a) {
        ArgShape::Short { .. } => false,
        ArgShape::Long { name, value } => match spec_long_arg(name) {
            Some(LongArg::Opt(_)) => true,
            Some(LongArg::Flag(_)) => value is None,
            _ => false,
        },
        _ => true,
    }
}

/// The long name of each switch.
pub open spec fn flag_name(f: FlagId) -> Seq<char> {
    match f {
        FlagId::Log => "log"@,
        FlagId::Wsl => "wsl"@,
        FlagId::NoMultigrid => "no-multigrid"@,
        FlagId::NoFork => "no-fork"@,
        FlagId::NoIdle => "no-idle"@,
        FlagId::NoTabs => "no-tabs"@,
        FlagId::Srgb => "srgb"@,
        FlagId::NoSrgb => "no-srgb"@,
        FlagId::Vsync => "vsync"@,
        FlagId::NoVsync => "no-vsync"@,
        FlagId::Maximized => "maximized"@,
    }
}

/// The argument that gives switch `f`.
pub open spec fn flag_arg(f: FlagId) -> Seq<char> {
    "--"@ + flag_name(f)
}

/// Whether argument `a` names option `o` (with or without a value).
pub open spec fn names_option(a: Seq<char>, o: OptId) -> bool {
    arg_shape(a) matches ArgShape::Long { name, .. } && spec_long_arg(name) == Some(LongArg::Opt(o))
}

/// Whether one of `words` names option `o`.
pub open spec fn mentions(words: Seq<Seq<char>>, o: OptId) -> bool {
    exists|i: int| 0 <= i < words.len() && names_option(#[trigger] words[i], o)
}

/// Option `o` has been given, or waits for its value.
pub open spec fn opt_named(st: ScanModel, o: OptId) -> bool {
    opt_present(st, o) || (st.pending matches Some((p, _)) && p == o)
}

/// The sizes recorded are made of positive numbers.
pub open spec fn dims_positive(st: ScanModel) -> bool {
    &&& (st.grid matches Some(Some(d)) ==> d.width > 0 && d.height > 0)
    &&& (st.size matches Some(d) ==> d.width > 0 && d.height > 0)
}

proof fn lemma_escape_shape(a: Seq<char>)
    ensures
        (arg_shape(a) is Escape) <==> a == "--"@,
{
    reveal_strlit("--");
    if a.len() == 2 && a[0] == '-' && a[1] == '-' {
        assert(a =~= "--"@);
    }
}

/// The long name of a switch is not empty, holds no `=`, and is looked up
/// as that switch.
proof fn lemma_flag_name_chars(f: FlagId)
    ensures
        flag_name(f).len() > 0,
        forall|j: int| 0 <= j < flag_name(f).len() ==> flag_name(f)[j] != '=',
        spec_long_arg(flag_name(f)) == Some(LongArg::Flag(f)),
{
    reveal_strlit("log");
    reveal_strlit("server");
    reveal_strlit("remote-tcp");
    reveal_strlit("wsl");
    reveal_strlit("frame");
    reveal_strlit("no-multigrid");
    reveal_strlit("no-fork");
    reveal_strlit("no-idle");
    reveal_strlit("no-tabs");
    reveal_strlit("srgb");
    reveal_strlit("no-srgb");
    reveal_strlit("vsync");
    reveal_strlit("no-vsync");
    reveal_strlit("neovim-bin");
    reveal_strlit("wayland_app_id");
    reveal_strlit("x11-wm-class");
    reveal_strlit("x11-wm-class-instance");
    reveal_strlit("grid");
    reveal_strlit("size");
    reveal_strlit("maximized");
    reveal_strlit("help");
    reveal_strlit("version");
    assert("log"@.len() == 3);
    assert("server"@.len() == 6);
    assert("remote-tcp"@.len() == 10);
    assert("wsl"@.len() == 3);
    assert("frame"@.len() == 5);
    assert("no-multigrid"@.len() == 12);
    assert("no-fork"@.len() == 7);
    assert("no-idle"@.len() == 7);
    assert("no-tabs"@.len() == 7);
    assert("srgb"@.len() == 4);
    assert("no-srgb"@.len() == 7);
    assert("vsync"@.len() == 5);
    assert("no-vsync"@.len() == 8);
    assert("neovim-bin"@.len() == 10);
    assert("wayland_app_id"@.len() == 14);
    assert("x11-wm-class"@.len() == 12);
    assert("x11-wm-class-instance"@.len() == 21);
    assert("grid"@.len() == 4);
    assert("size"@.len() == 4);
    assert("maximized"@.len() == 9);
    assert("help"@.len() == 4);
    assert("version"@.len() == 7);
    assert("no-idle"@[3] != "no-fork"@[3]);
    assert("no-srgb"@[3] != "no-fork"@[3]);
    assert("no-srgb"@[3] != "no-idle"@[3]);
    assert("no-srgb"@[3] != "no-tabs"@[3]);
    assert("no-tabs"@[3] != "no-fork"@[3]);
    assert("no-tabs"@[3] != "no-idle"@[3]);
    assert("vsync"@[0] != "frame"@[0]);
    assert("wsl"@[0] != "log"@[0]);
}

/// An argument gives switch `f` exactly when it is `--` followed by the
/// switch's long name.
proof fn lemma_flag_word(a: Seq<char>, f: FlagId)
    ensures
        a == flag_arg(f) <==> (arg_shape(a) == ArgShape::Long { name: a.skip(2), value: None }
            && spec_long_arg(a.skip(2)) == Some(LongArg::Flag(f))),
{
    reveal_strlit("--");
    lemma_flag_name_chars(f);
    let n = flag_name(f);
    if a == flag_arg(f) {
        assert(a.len() == n.len() + 2);
        assert(a[0] == '-' && a[1] == '-');
        assert(a.skip(2) =~= n);
        lemma_find_char_none(n, '=');
    }
    if arg_shape(a) == (ArgShape::Long { name: a.skip(2), value: None }) && spec_long_arg(a.skip(2))
        == Some(LongArg::Flag(f)) {
        assert(a.len() > 2 && a[0] == '-' && a[1] == '-');
        assert(a.skip(2) == n);
        assert(a =~= "--"@ + a.skip(2));
    }
}

/// `flag_index` tells the switches apart.
proof fn lemma_flag_index(f: FlagId, g: FlagId)
    ensures
        0 <= flag_index(f) < FLAG_COUNT,
        (flag_index(f) == flag_index(g)) <==> f == g,
{
}

/// Settling an option changes nothing but the options.
proof fn lemma_record_option_keeps(st: ScanModel, o: OptId, v: Option<Seq<char>>)
    ensures
        spec_record_option(st, o, v) matches Ok(s) ==> {
            &&& s.trailing == st.trailing
            &&& s.passthrough == st.passthrough
            &&& s.files == st.files
            &&& s.flags == st.flags
            &&& s.pending == st.pending
        },
{
}

proof fn lemma_resolve_keeps(st: ScanModel)
    ensures
        spec_resolve_pending(st) matches Ok(s) ==> {
            &&& s.trailing == st.trailing
            &&& s.passthrough == st.passthrough
            &&& s.files == st.files
            &&& s.flags == st.flags
            &&& s.pending is None
        },
{
    if let Some((o, v)) = st.pending {
        lemma_record_option_keeps(ScanModel { pending: None, ..st }, o, v);
    }
}

/// One argument read before `--`: nothing is passed through, and switch
/// `f` becomes set exactly when the argument gives it.
proof fn lemma_step_before_escape(st: ScanModel, a: Seq<char>)
    requires
        !st.trailing,
        a != "--"@,
        st.flags.len() == FLAG_COUNT,
    ensures
        spec_step(st, a) matches Ok(s) ==> {
            &&& !s.trailing
            &&& s.passthrough == st.passthrough
            &&& s.flags.len() == FLAG_COUNT
            &&& forall|f: FlagId| #[trigger] flag_seen(s, f) == (flag_seen(st, f) || a == flag_arg(f))
            &&& accepted_word(a)
            &&& forall|f: FlagId| a == #[trigger] flag_arg(f) ==> !flag_seen(st, f)
        },
{
    lemma_escape_shape(a);
    lemma_resolve_keeps(st);
    if let Ok(s) = spec_step(st, a) {
        assert forall|f: FlagId| #[trigger] flag_seen(s, f) == (flag_seen(st, f) || a == flag_arg(f)) by {
            lemma_flag_word(a, f);
            lemma_flag_index(f, f);
            match arg_shape(a) {
                ArgShape::Long { name, value } => {
                    match spec_long_arg(name) {
                        Some(LongArg::Flag(g)) => {
                            let r = spec_resolve_pending(st).unwrap();
                            lemma_flag_index(f, g);
                            if a == flag_arg(f) {
                                assert(g == f);
                            }
                            if g == f {
                                assert(name == a.skip(2));
                            }
                            assert(s == spec_record_flag(r, g).unwrap());
                        },
                        Some(LongArg::Opt(o)) => {
                            lemma_resolve_keeps(st);
                            let r = spec_resolve_pending(st).unwrap();
                            lemma_record_option_keeps(r, o, value);
                        },
                        _ => {},
                    }
                },
                _ => {},
            }
        }
        assert forall|f: FlagId| a == #[trigger] flag_arg(f) implies !flag_seen(st, f) by {
            lemma_flag_word(a, f);
        }
    }
}

/// Reading arguments none of which is `--` succeeds only if each is
/// accepted, and if no switch is given twice or again after it was set.
proof fn lemma_scan_accepts(words: Seq<Seq<char>>, st: ScanModel)
    requires
        !st.trailing,
        !words.contains("--"@),
        st.flags.len() == FLAG_COUNT,
    ensures
        spec_scan(words, st) is Ok ==> {
            &&& forall|i: int| 0 <= i < words.len() ==> accepted_word(#[trigger] words[i])
            &&& forall|f: FlagId| flag_seen(st, f) ==> !words.contains(#[trigger] flag_arg(f))
            &&& forall|f: FlagId, i: int, j: int|
                #![trigger words[i], words[j], flag_arg(f)]
                0 <= i < j < words.len() && words[i] == flag_arg(f) ==> words[j] != flag_arg(f)
        },
    decreases words.len(),
{
    if words.len() > 0 {
        assert(words[0] != "--"@);
        lemma_step_before_escape(st, words[0]);
        if let Ok(s1) = spec_step(st, words[0]) {
            let rest = words.drop_first();
            assert(!rest.contains("--"@)) by {
                if rest.contains("--"@) {
                    let i = choose|i: int| 0 <= i < rest.len() && rest[i] == "--"@;
                    assert(words[i + 1] == "--"@);
                }
            }
            lemma_scan_accepts(rest, s1);
            if spec_scan(words, st) is Ok {
                assert forall|i: int| 0 <= i < words.len() implies accepted_word(#[trigger] words[i]) by {
                    if i > 0 {
                        assert(words[i] == rest[i - 1]);
                    }
                }
                assert forall|f: FlagId| flag_seen(st, f) implies !words.contains(#[trigger] flag_arg(f)) by {
                    assert(flag_seen(s1, f));
                    if words.contains(flag_arg(f)) {
                        let i = choose|i: int| 0 <= i < words.len() && words[i] == flag_arg(f);
                        if i > 0 {
                            assert(rest[i - 1] == flag_arg(f));
                        }
                    }
                }
                assert forall|f: FlagId, i: int, j: int|
                    #![trigger words[i], words[j], flag_arg(f)]
                    0 <= i < j < words.len() && words[i] == flag_arg(f) implies words[j] != flag_arg(f) by {
                    assert(words[j] == rest[j - 1]);
                    if i == 0 {
                        assert(flag_seen(s1, f));
                        if words[j] == flag_arg(f) {
                            assert(rest.contains(flag_arg(f)));
                        }
                    } else {
                        assert(words[i] == rest[i - 1]);
                    }
                }
            }
        }
    }
}

/// Reading arguments none of which is `--`.
proof fn lemma_scan_before_escape(words: Seq<Seq<char>>, st: ScanModel)
    requires
        !st.trailing,
        !words.contains("--"@),
        st.flags.len() == FLAG_COUNT,
    ensures
        spec_scan(words, st) matches Ok(s) ==> {
            &&& !s.trailing
            &&& s.passthrough == st.passthrough
            &&& s.flags.len() == FLAG_COUNT
            &&& forall|f: FlagId| #[trigger] flag_seen(s, f) == (flag_seen(st, f) || words.contains(flag_arg(f)))
        },
    decreases words.len(),
{
    if words.len() > 0 {
        assert(words[0] != "--"@);
        lemma_step_before_escape(st, words[0]);
        if let Ok(s1) = spec_step(st, words[0]) {
            let rest = words.drop_first();
            assert(!rest.contains("--"@)) by {
                if rest.contains("--"@) {
                    let i = choose|i: int| 0 <= i < rest.len() && rest[i] == "--"@;
                    assert(words[i + 1] == "--"@);
                }
            }
            lemma_scan_before_escape(rest, s1);
            if let Ok(s) = spec_scan(words, st) {
                assert forall|f: FlagId| #[trigger] flag_seen(s, f) == (flag_seen(st, f) || words.contains(flag_arg(f))) by {
                    assert(flag_seen(s1, f) == (flag_seen(st, f) || words[0] == flag_arg(f)));
                    if words.contains(flag_arg(f)) {
                        let i = choose|i: int| 0 <= i < words.len() && words[i] == flag_arg(f);
                        if i > 0 {
                            assert(rest[i - 1] == flag_arg(f));
                        }
                    }
                    if rest.contains(flag_arg(f)) {
                        let i = choose|i: int| 0 <= i < rest.len() && rest[i] == flag_arg(f);
                        assert(words[i + 1] == flag_arg(f));
                    }
                }
            }
        }
    }
}

/// Reading arguments after `--`: each is passed through, and nothing else
/// changes but the option left waiting.
proof fn lemma_scan_after_escape(words: Seq<Seq<char>>, st: ScanModel)
    requires
        st.trailing,
    ensures
        spec_scan(words, st) matches Ok(s) ==> {
            &&& s.passthrough == st.passthrough + words
            &&& s.flags == st.flags
            &&& s.files == st.files
        },
    decreases words.len(),
{
    if words.len() == 0 {
        assert(st.passthrough + words =~= st.passthrough);
    } else {
        lemma_resolve_keeps(st);
        if let Ok(s1) = spec_step(st, words[0]) {
            lemma_scan_after_escape(words.drop_first(), s1);
            assert(st.passthrough.push(words[0]) + words.drop_first() =~= st.passthrough + words);
        }
    }
}

/// Reading `a + b` is reading `a`, then reading `b`.
proof fn lemma_scan_concat(a: Seq<Seq<char>>, b: Seq<Seq<char>>, st: ScanModel)
    ensures
        spec_scan(a + b, st) == match spec_scan(a, st) {
            Err(e) => Err(e),
            Ok(s) => spec_scan(b, s),
        },
    decreases a.len(),
{
    if a.len() > 0 {
        assert((a + b)[0] == a[0]);
        assert((a + b).drop_first() =~= a.drop_first() + b);
        if let Ok(s1) = spec_step(st, a[0]) {
            lemma_scan_concat(a.drop_first(), b, s1);
        }
    } else {
        assert(a + b =~= b);
    }
}

/// What a whole argument list gives: the arguments after the first `--`
/// are passed through in order, and exactly the switches given before it
/// are set.
proof fn lemma_read_args(args: Seq<Seq<char>>)
    ensures
        spec_read_args(args) matches Ok(s) ==> {
            &&& s.passthrough == after_escape(command_words(args))
            &&& forall|f: FlagId| #[trigger] flag_seen(s, f) == before_escape(command_words(args)).contains(flag_arg(f))
        },
{
    let words = command_words(args);
    let init = initial_scan();
    assert(init.flags.len() == FLAG_COUNT);
    assert forall|f: FlagId| !#[trigger] flag_seen(init, f) by {
        lemma_flag_index(f, f);
    }
    words.index_of_first_ensures("--"@);
    match words.index_of_first("--"@) {
        None => {
            lemma_scan_before_escape(words, init);
            if let Ok(s) = spec_scan(words, init) {
                lemma_resolve_keeps(s);
                assert(init.passthrough =~= after_escape(words));
                if let Ok(r) = spec_resolve_pending(s) {
                    assert forall|f: FlagId| #[trigger] flag_seen(r, f) == before_escape(words).contains(flag_arg(f)) by {
                        assert(flag_seen(s, f) == (flag_seen(init, f) || words.contains(flag_arg(f))));
                    }
                }
            }
        },
        Some(k) => {
            let pre = words.take(k);
            let post = words.skip(k + 1);
            assert(words =~= pre + (seq!["--"@] + post));
            assert(!pre.contains("--"@));
            lemma_scan_concat(pre, seq!["--"@] + post, init);
            lemma_scan_before_escape(pre, init);
            if let Ok(s1) = spec_scan(pre, init) {
                lemma_escape_shape("--"@);
                let s2 = ScanModel { trailing: true, ..s1 };
                assert(spec_step(s1, "--"@) == Ok::<ScanModel, CmdLineError>(s2));
                assert((seq!["--"@] + post)[0] == "--"@);
                assert((seq!["--"@] + post).drop_first() =~= post);
                lemma_scan_after_escape(post, s2);
                if let Ok(s) = spec_scan(post, s2) {
                    lemma_resolve_keeps(s);
                    assert(s1.passthrough + post =~= post);
                    if let Ok(r) = spec_resolve_pending(s) {
                        assert forall|f: FlagId| #[trigger] flag_seen(r, f) == before_escape(words).contains(flag_arg(f)) by {
                            assert(flag_seen(s1, f) == (flag_seen(init, f) || pre.contains(flag_arg(f))));
                        }
                    }
                }
            }
        },
    }
}

/// Reading succeeds only if reading the words before the first `--` does.
proof fn lemma_read_args_before(args: Seq<Seq<char>>)
    ensures
        spec_read_args(args) is Ok ==> spec_scan(before_escape(command_words(args)), initial_scan()) is Ok,
{
    let words = command_words(args);
    words.index_of_first_ensures("--"@);
    if let Some(k) = words.index_of_first("--"@) {
        let pre = words.take(k);
        assert(words =~= pre + words.skip(k));
        lemma_scan_concat(pre, words.skip(k), initial_scan());
    }
}

proof fn lemma_record_option_named(st: ScanModel, o: OptId, v: Option<Seq<char>>)
    requires
        dims_positive(st),
    ensures
        spec_record_option(st, o, v) matches Ok(s) ==> {
            &&& forall|o2: OptId| #[trigger] opt_present(s, o2) == (opt_present(st, o2) || o2 == o)
            &&& s.pending == st.pending
            &&& dims_positive(s)
        },
{
}

proof fn lemma_resolve_named(st: ScanModel)
    requires
        dims_positive(st),
    ensures
        spec_resolve_pending(st) matches Ok(s) ==> {
            &&& forall|o: OptId| #[trigger] opt_present(s, o) == opt_named(st, o)
            &&& s.pending is None
            &&& dims_positive(s)
        },
{
    if let Some((o, v)) = st.pending {
        lemma_record_option_named(ScanModel { pending: None, ..st }, o, v);
    }
}

/// One argument read before `--` names the options it names, and keeps
/// the sizes positive.
proof fn lemma_step_named(st: ScanModel, a: Seq<char>)
    requires
        dims_positive(st),
    ensures
        spec_step(st, a) matches Ok(s) ==> {
            &&& dims_positive(s)
            &&& forall|o: OptId| #[trigger] opt_named(s, o) == (opt_named(st, o) || (!st.trailing && names_option(a, o)))
        },
{
    lemma_resolve_named(st);
    if let Ok(s) = spec_step(st, a) {
        if !st.trailing {
            match arg_shape(a) {
                ArgShape::Long { name, value } => {
                    if let Some(LongArg::Opt(o)) = spec_long_arg(name) {
                        let r = spec_resolve_pending(st).unwrap();
                        if let Some(v) = value {
                            lemma_record_option_named(r, o, Some(v));
                        }
                    }
                },
                _ => {},
            }
        }
    }
}

proof fn lemma_scan_named(words: Seq<Seq<char>>, st: ScanModel)
    requires
        dims_positive(st),
        !st.trailing,
        !words.contains("--"@),
    ensures
        spec_scan(words, st) matches Ok(s) ==> {
            &&& dims_positive(s)
            &&& forall|o: OptId| #[trigger] opt_named(s, o) == (opt_named(st, o) || mentions(words, o))
        },
    decreases words.len(),
{
    if words.len() > 0 {
        assert(words[0] != "--"@);
        lemma_step_named(st, words[0]);
        lemma_step_before_escape_trailing(st, words[0]);
        if let Ok(s1) = spec_step(st, words[0]) {
            let rest = words.drop_first();
            assert(!rest.contains("--"@)) by {
                if rest.contains("--"@) {
                    let i = choose|i: int| 0 <= i < rest.len() && rest[i] == "--"@;
                    assert(words[i + 1] == "--"@);
                }
            }
            lemma_scan_named(rest, s1);
            if let Ok(s) = spec_scan(words, st) {
                assert forall|o: OptId| #[trigger] opt_named(s, o) == (opt_named(st, o) || mentions(words, o)) by {
                    if mentions(words, o) {
                        let i = choose|i: int| 0 <= i < words.len() && names_option(#[trigger] words[i], o);
                        if i > 0 {
                            assert(names_option(rest[i - 1], o));
                        }
                    }
                    if mentions(rest, o) {
                        let i = choose|i: int| 0 <= i < rest.len() && names_option(#[trigger] rest[i], o);
                        assert(names_option(words[i + 1], o));
                    }
                }
            }
        }
    }
}

/// A step before `--` on anything but `--` leaves the reading before it.
proof fn lemma_step_before_escape_trailing(st: ScanModel, a: Seq<char>)
    requires
        !st.trailing,
        a != "--"@,
    ensures
        spec_step(st, a) matches Ok(s) ==> !s.trailing,
{
    lemma_escape_shape(a);
    lemma_resolve_keeps(st);
    if let Ok(s) = spec_step(st, a) {
        if let ArgShape::Long { name, value } = arg_shape(a) {
            if let Some(LongArg::Opt(o)) = spec_long_arg(name) {
                let r = spec_resolve_pending(st).unwrap();
                lemma_record_option_keeps(r, o, value);
            }
        }
    }
}

proof fn lemma_scan_after_named(words: Seq<Seq<char>>, st: ScanModel)
    requires
        dims_positive(st),
        st.trailing,
    ensures
        spec_scan(words, st) matches Ok(s) ==> {
            &&& dims_positive(s)
            &&& forall|o: OptId| #[trigger] opt_named(s, o) == opt_named(st, o)
        },
    decreases words.len(),
{
    if words.len() > 0 {
        lemma_step_named(st, words[0]);
        lemma_resolve_keeps(st);
        if let Ok(s1) = spec_step(st, words[0]) {
            lemma_scan_after_named(words.drop_first(), s1);
        }
    }
}

/// After the whole list is read, exactly the options named before `--`
/// are given, and the sizes are positive.
proof fn lemma_read_args_named(args: Seq<Seq<char>>)
    ensures
        spec_read_args(args) matches Ok(s) ==> {
            &&& dims_positive(s)
            &&& forall|o: OptId| #[trigger] opt_present(s, o) == mentions(before_escape(command_words(args)), o)
        },
{
    let words = command_words(args);
    let init = initial_scan();
    words.index_of_first_ensures("--"@);
    match words.index_of_first("--"@) {
        None => {
            lemma_scan_named(words, init);
            if let Ok(s) = spec_scan(words, init) {
                lemma_resolve_named(s);
            }
        },
        Some(k) => {
            let pre = words.take(k);
            let post = words.skip(k + 1);
            assert(words =~= pre + (seq!["--"@] + post));
            assert(!pre.contains("--"@));
            lemma_scan_concat(pre, seq!["--"@] + post, init);
            lemma_scan_named(pre, init);
            lemma_scan_before_escape(pre, init);
            if let Ok(s1) = spec_scan(pre, init) {
                lemma_escape_shape("--"@);
                let s2 = ScanModel { trailing: true, ..s1 };
                assert(spec_step(s1, "--"@) == Ok::<ScanModel, CmdLineError>(s2));
                assert((seq!["--"@] + post)[0] == "--"@);
                assert((seq!["--"@] + post).drop_first() =~= post);
                lemma_scan_after_named(post, s2);
                if let Ok(s) = spec_scan(post, s2) {
                    lemma_resolve_named(s);
                    if let Ok(r) = spec_resolve_pending(s) {
                        assert forall|o: OptId| #[trigger] opt_present(r, o) == mentions(pre, o) by {
                            assert(opt_named(s, o) == opt_named(s2, o));
                            assert(opt_named(s1, o) == (opt_named(init, o) || mentions(pre, o)));
                        }
                    }
                }
            }
        },
    }
}

/// The argument of each switch, written out.
proof fn lemma_flag_args()
    ensures
        flag_arg(FlagId::Log) == "--log"@,
        flag_arg(FlagId::Wsl) == "--wsl"@,
        flag_arg(FlagId::NoMultigrid) == "--no-multigrid"@,
        flag_arg(FlagId::NoFork) == "--no-fork"@,
        flag_arg(FlagId::NoIdle) == "--no-idle"@,
        flag_arg(FlagId::NoTabs) == "--no-tabs"@,
        flag_arg(FlagId::Srgb) == "--srgb"@,
        flag_arg(FlagId::NoSrgb) == "--no-srgb"@,
        flag_arg(FlagId::Vsync) == "--vsync"@,
        flag_arg(FlagId::NoVsync) == "--no-vsync"@,
        flag_arg(FlagId::Maximized) == "--maximized"@,
{
    reveal_strlit("--");
    reveal_strlit("log");
    reveal_strlit("--log");
    reveal_strlit("wsl");
    reveal_strlit("--wsl");
    reveal_strlit("no-multigrid");
    reveal_strlit("--no-multigrid");
    reveal_strlit("no-fork");
    reveal_strlit("--no-fork");
    reveal_strlit("no-idle");
    reveal_strlit("--no-idle");
    reveal_strlit("no-tabs");
    reveal_strlit("--no-tabs");
    reveal_strlit("srgb");
    reveal_strlit("--srgb");
    reveal_strlit("no-srgb");
    reveal_strlit("--no-srgb");
    reveal_strlit("vsync");
    reveal_strlit("--vsync");
    reveal_strlit("no-vsync");
    reveal_strlit("--no-vsync");
    reveal_strlit("maximized");
    reveal_strlit("--maximized");
    assert forall|f: FlagId| #[trigger] flag_arg(f) =~= "--"@ + flag_name(f) by {}
}

/// **The arguments after `--` reach the editor untouched.** When a command
/// line is accepted, the editor's arguments end with exactly the arguments
/// that follow the first `--`, in order; before them stand `-p` (unless
/// `--no-tabs` was given) and the files to open; and no files are left
/// beside them.
pub proof fn law_passthrough(args: Seq<Seq<char>>, env: Seq<(Seq<char>, Seq<char>)>, srgb_default: bool)
    ensures
        spec_parse_command_line(args, env, srgb_default) matches Ok(p) ==> p.neovim_args == after_escape(
            command_words(args),
        ),
        spec_handle(args, env, srgb_default) matches Ok(h) ==> {
            &&& spec_parse_command_line(args, env, srgb_default) matches Ok(p)
            &&& h.neovim_args == tab_flag(p.no_tabs) + p.files_to_open + after_escape(
                command_words(args),
            )
            &&& h.files_to_open.len() == 0
        },
{
    lemma_read_args(args);
}

/// **Each switch is on exactly when it was given before `--`, and a
/// switch that an environment variable can also set is read from the
/// environment only when the switch was not given.** `--wsl` takes its
/// variable strictly (`true` or `false`), the others permissively.
pub proof fn law_switches(args: Seq<Seq<char>>, env: Seq<(Seq<char>, Seq<char>)>, srgb_default: bool)
    ensures
        spec_parse_command_line(args, env, srgb_default) matches Ok(p) ==> {
            let before = before_escape(command_words(args));
            &&& p.log_to_file == before.contains("--log"@)
            &&& p.no_fork == before.contains("--no-fork"@)
            &&& p.no_tabs == before.contains("--no-tabs"@)
            &&& p.no_srgb == before.contains("--no-srgb"@)
            &&& p.no_vsync == before.contains("--no-vsync"@)
            &&& p.wsl == (before.contains("--wsl"@) || (env_var(env, "NEOVIDE_WSL"@) matches Some(v)
                && crate::value_parsers::spec_parse_bool(v) == Some(true)))
            &&& p.no_multi_grid == switch_value(
                before.contains("--no-multigrid"@),
                true,
                env_var(env, "NEOVIDE_NO_MULTIGRID"@),
                false,
            )
            &&& p.idle == switch_value(before.contains("--no-idle"@), false, env_var(env, "NEOVIDE_IDLE"@), true)
            &&& p.srgb == switch_value(before.contains("--srgb"@), true, env_var(env, "NEOVIDE_SRGB"@), srgb_default)
            &&& p.vsync == switch_value(before.contains("--vsync"@), true, env_var(env, "NEOVIDE_VSYNC"@), true)
            &&& p.geometry.maximized == switch_value(
                before.contains("--maximized"@),
                true,
                env_var(env, "NEOVIDE_MAXIMIZED"@),
                false,
            )
        },
{
    lemma_read_args(args);
    lemma_flag_args();
}

/// **The command line takes precedence over the environment, and the
/// "off" switch over the "on" switch.** VSync is on unless `--no-vsync`
/// was given; given `--vsync`, it is on whatever `NEOVIDE_VSYNC` holds;
/// given neither, `NEOVIDE_VSYNC` decides, and without it VSync is on.
/// sRGB follows the same rule with `--srgb`, `--no-srgb` and
/// `NEOVIDE_SRGB`, and is on by default exactly when `srgb_default` is
/// (on Windows).
pub proof fn law_vsync_srgb(args: Seq<Seq<char>>, env: Seq<(Seq<char>, Seq<char>)>, srgb_default: bool)
    ensures
        spec_handle(args, env, srgb_default) matches Ok(h) ==> {
            let before = before_escape(command_words(args));
            &&& h.vsync == (!before.contains("--no-vsync"@) && (before.contains("--vsync"@) || match env_var(env, "NEOVIDE_VSYNC"@) {
                Some(v) => spec_parse_falsey(v),
                None => true,
            }))
            &&& h.srgb == (!before.contains("--no-srgb"@) && (before.contains("--srgb"@) || match env_var(env, "NEOVIDE_SRGB"@) {
                Some(v) => spec_parse_falsey(v),
                None => srgb_default,
            }))
        },
{
    law_switches(args, env, srgb_default);
}

/// **At most one of the geometry options is in effect**: a grid size, a
/// window size, or maximizing the window.
pub proof fn law_geometry_exclusive(args: Seq<Seq<char>>, env: Seq<(Seq<char>, Seq<char>)>, srgb_default: bool)
    ensures
        spec_parse_command_line(args, env, srgb_default) matches Ok(p) ==> {
            &&& !(p.geometry.grid is Some && p.geometry.size is Some)
            &&& !(p.geometry.grid is Some && p.geometry.maximized)
            &&& !(p.geometry.size is Some && p.geometry.maximized)
        },
        spec_handle(args, env, srgb_default) matches Ok(h) ==> {
            &&& !(h.geometry.grid is Some && h.geometry.size is Some)
            &&& !(h.geometry.grid is Some && h.geometry.maximized)
            &&& !(h.geometry.size is Some && h.geometry.maximized)
        },
{
}

/// **A command line is refused when, before `--`, it holds a short
/// option, an unknown long option, `--help` or `--version`, a value
/// attached to a switch, or a switch given twice.** So, of an accepted
/// command line, every argument before the first `--` is accepted on its
/// own, and each switch appears there at most once.
pub proof fn law_refused_arguments(args: Seq<Seq<char>>, env: Seq<(Seq<char>, Seq<char>)>, srgb_default: bool)
    ensures
        spec_parse_command_line(args, env, srgb_default) is Ok ==> {
            let before = before_escape(command_words(args));
            &&& forall|i: int| 0 <= i < before.len() ==> accepted_word(#[trigger] before[i])
            &&& forall|f: FlagId, i: int, j: int|
                #![trigger before[i], before[j], flag_arg(f)]
                0 <= i < j < before.len() && before[i] == flag_arg(f) ==> before[j] != flag_arg(f)
        },
        spec_handle(args, env, srgb_default) is Ok ==> spec_parse_command_line(args, env, srgb_default) is Ok,
{
    let words = command_words(args);
    lemma_read_args_before(args);
    words.index_of_first_ensures("--"@);
    let before = before_escape(words);
    assert(!before.contains("--"@)) by {
        if let Some(k) = words.index_of_first("--"@) {
            if before.contains("--"@) {
                let i = choose|i: int| 0 <= i < before.len() && before[i] == "--"@;
                assert(words[i] == "--"@);
            }
        }
    }
    lemma_scan_accepts(before, initial_scan());
}

/// **The environment fills in only what the command line leaves out.** An
/// option that no argument before `--` names takes its environment
/// variable, or its default; the geometry options and `--server`, which no
/// variable sets, are then absent. And every size given is made of two
/// positive numbers.
pub proof fn law_options_from_environment(args: Seq<Seq<char>>, env: Seq<(Seq<char>, Seq<char>)>, srgb_default: bool)
    ensures
        spec_parse_command_line(args, env, srgb_default) matches Ok(p) ==> {
            let before = before_escape(command_words(args));
            &&& !mentions(before, OptId::Server) ==> p.server is None
            &&& !mentions(before, OptId::NeovimBin) ==> p.neovim_bin == env_var(env, "NEOVIM_BIN"@)
            &&& !mentions(before, OptId::WaylandAppId) ==> p.wayland_app_id == env_var(
                env,
                "NEOVIDE_APP_ID"@,
            ).unwrap_or("neovide"@)
            &&& !mentions(before, OptId::X11WmClass) ==> p.x11_wm_class == env_var(
                env,
                "NEOVIDE_WM_CLASS"@,
            ).unwrap_or("neovide"@)
            &&& !mentions(before, OptId::X11WmClassInstance) ==> p.x11_wm_class_instance == env_var(
                env,
                "NEOVIDE_WM_CLASS_INSTANCE"@,
            ).unwrap_or("neovide"@)
            &&& !mentions(before, OptId::Frame) ==> p.frame == match env_var(env, "NEOVIDE_FRAME"@) {
                Some(v) => spec_parse_frame(v).unwrap(),
                None => Frame::Full,
            }
            &&& mentions(before, OptId::Grid) == p.geometry.grid is Some
            &&& mentions(before, OptId::Size) == p.geometry.size is Some
            &&& p.geometry.grid matches Some(Some(d)) ==> d.width > 0 && d.height > 0
            &&& p.geometry.size matches Some(d) ==> d.width > 0 && d.height > 0
        },
{
    lemma_read_args_named(args);
    if let Ok(st) = spec_read_args(args) {
        assert(opt_present(st, OptId::Server) == mentions(before_escape(command_words(args)), OptId::Server));
        assert(opt_present(st, OptId::NeovimBin) == mentions(before_escape(command_words(args)), OptId::NeovimBin));
        assert(opt_present(st, OptId::WaylandAppId) == mentions(before_escape(command_words(args)), OptId::WaylandAppId));
        assert(opt_present(st, OptId::X11WmClass) == mentions(before_escape(command_words(args)), OptId::X11WmClass));
        assert(opt_present(st, OptId::X11WmClassInstance) == mentions(before_escape(command_words(args)), OptId::X11WmClassInstance));
        assert(opt_present(st, OptId::Frame) == mentions(before_escape(command_words(args)), OptId::Frame));
        assert(opt_present(st, OptId::Grid) == mentions(before_escape(command_words(args)), OptId::Grid));
        assert(opt_present(st, OptId::Size) == mentions(before_escape(command_words(args)), OptId::Size));
    }
}

/// **The command line takes precedence over the environment for the
/// options too.** What an option named before `--` gives does not depend
/// on the environment: two environments give the same value.
pub proof fn law_options_override_environment(
    args: Seq<Seq<char>>,
    env1: Seq<(Seq<char>, Seq<char>)>,
    env2: Seq<(Seq<char>, Seq<char>)>,
    srgb_default: bool,
)
    ensures
        spec_parse_command_line(args, env1, srgb_default) matches Ok(p1) ==> (spec_parse_command_line(args, env2, srgb_default) matches Ok(p2) ==> {
            let before = before_escape(command_words(args));
            &&& p1.server == p2.server
            &&& p1.geometry.grid == p2.geometry.grid
            &&& p1.geometry.size == p2.geometry.size
            &&& mentions(before, OptId::NeovimBin) ==> p1.neovim_bin == p2.neovim_bin
            &&& mentions(before, OptId::WaylandAppId) ==> p1.wayland_app_id == p2.wayland_app_id
            &&& mentions(before, OptId::X11WmClass) ==> p1.x11_wm_class == p2.x11_wm_class
            &&& mentions(before, OptId::X11WmClassInstance) ==> p1.x11_wm_class_instance
                == p2.x11_wm_class_instance
            &&& mentions(before, OptId::Frame) ==> p1.frame == p2.frame
        }),
{
    lemma_read_args_named(args);
    if let Ok(st) = spec_read_args(args) {
        assert(opt_present(st, OptId::NeovimBin) == mentions(before_escape(command_words(args)), OptId::NeovimBin));
        assert(opt_present(st, OptId::WaylandAppId) == mentions(before_escape(command_words(args)), OptId::WaylandAppId));
        assert(opt_present(st, OptId::X11WmClass) == mentions(before_escape(command_words(args)), OptId::X11WmClass));
        assert(opt_present(st, OptId::X11WmClassInstance) == mentions(before_escape(command_words(args)), OptId::X11WmClassInstance));
        assert(opt_present(st, OptId::Frame) == mentions(before_escape(command_words(args)), OptId::Frame));
    }
}


/// Whether argument `a` names an option without `=`, so that a plain
/// argument right after it is the option's value.
pub open spec fn opens_value(a: Seq<char>) -> bool {
    arg_shape(a) matches ArgShape::Long { name, value } && value is None && spec_long_arg(name) matches Some(
        LongArg::Opt(_),
    )
}

/// The files to open that `words` (arguments before `--`) give: every
/// plain argument but one that directly follows an option named without
/// `=`, which is that option's value. `waiting` tells whether the argument
/// just before `words` was such an option.
pub open spec fn files_given(words: Seq<Seq<char>>, waiting: bool) -> Seq<Seq<char>>
    decreases words.len(),
{
    if words.len() == 0 {
        Seq::empty()
    } else {
        let a = words[0];
        let rest = files_given(words.drop_first(), opens_value(a));
        if arg_shape(a) is Plain && !waiting {
            seq![a] + rest
        } else {
            rest
        }
    }
}

/// The value that `words` (arguments before `--`) give option `o`: the
/// text after `=` of an argument that names it, or the plain argument
/// right after one that names it without `=`. `waiting` tells whether the
/// argument just before `words` named `o` without `=`.
pub open spec fn given_value(words: Seq<Seq<char>>, o: OptId, waiting: bool) -> Option<Seq<char>>
    decreases words.len(),
{
    if words.len() == 0 {
        None
    } else {
        let a = words[0];
        let rest = words.drop_first();
        match arg_shape(a) {
            ArgShape::Long { name, value } => if spec_long_arg(name) == Some(LongArg::Opt(o)) {
                match value {
                    Some(v) => Some(v),
                    None => given_value(rest, o, true),
                }
            } else {
                given_value(rest, o, false)
            },
            ArgShape::Plain => if waiting {
                Some(a)
            } else {
                given_value(rest, o, false)
            },
            _ => given_value(rest, o, false),
        }
    }
}

/// Option `o` holds, in the settings `p`, what its value `v` reads as: the
/// text itself, the frame it names, or the size it gives.
pub open spec fn holds_value(p: SettingsModel, o: OptId, v: Seq<char>) -> bool {
    match o {
        OptId::Server => p.server == Some(v),
        OptId::Frame => spec_parse_frame(v) == Some(p.frame),
        OptId::NeovimBin => p.neovim_bin == Some(v),
        OptId::WaylandAppId => p.wayland_app_id == v,
        OptId::X11WmClass => p.x11_wm_class == v,
        OptId::X11WmClassInstance => p.x11_wm_class_instance == v,
        OptId::Grid => spec_parse_dimensions(v) is Some && p.geometry.grid == Some(spec_parse_dimensions(v)),
        OptId::Size => spec_parse_dimensions(v) is Some && p.geometry.size == spec_parse_dimensions(v),
    }
}

/// Some option waits for the plain argument that would be its value.
spec fn waits_for_value(st: ScanModel) -> bool {
    st.pending matches Some((_, None))
}

/// The reader has settled option `o` with value `v`.
spec fn recorded(st: ScanModel, o: OptId, v: Seq<char>) -> bool {
    match o {
        OptId::Server => st.server == Some(v),
        OptId::Frame => spec_parse_frame(v) is Some && st.frame == spec_parse_frame(v),
        OptId::NeovimBin => st.neovim_bin == Some(v),
        OptId::WaylandAppId => st.wayland_app_id == Some(v),
        OptId::X11WmClass => st.x11_wm_class == Some(v),
        OptId::X11WmClassInstance => st.x11_wm_class_instance == Some(v),
        OptId::Grid => spec_parse_dimensions(v) is Some && st.grid == Some(spec_parse_dimensions(v)),
        OptId::Size => spec_parse_dimensions(v) is Some && st.size == spec_parse_dimensions(v),
    }
}

/// The reader has settled option `o` with value `v`, or holds `v` for it,
/// to be settled next.
spec fn holds(st: ScanModel, o: OptId, v: Seq<char>) -> bool {
    recorded(st, o, v) || st.pending == Some((o, Some(v)))
}

/// Settling an option with a value records it, and a recorded value stays.
proof fn lemma_record_option_value(st: ScanModel, o2: OptId, w: Option<Seq<char>>, o: OptId, v: Seq<char>)
    ensures
        spec_record_option(st, o, Some(v)) matches Ok(s) ==> recorded(s, o, v),
        recorded(st, o, v) ==> (spec_record_option(st, o2, w) matches Ok(s) ==> recorded(s, o, v)),
{
}

/// Settling the waiting option records what is held.
proof fn lemma_resolve_value(st: ScanModel, o: OptId, v: Seq<char>)
    ensures
        holds(st, o, v) ==> (spec_resolve_pending(st) matches Ok(s) ==> recorded(s, o, v)),
{
    if let Some((o2, w)) = st.pending {
        let st0 = ScanModel { pending: None, ..st };
        lemma_record_option_value(st0, o2, w, o, v);
        if st.pending == Some((o, Some(v))) {
            lemma_record_option_value(st0, o, Some(v), o, v);
        }
    }
}

/// A value held stays held through any argument read.
proof fn lemma_step_keeps_value(st: ScanModel, a: Seq<char>, o: OptId, v: Seq<char>)
    requires
        holds(st, o, v),
    ensures
        spec_step(st, a) matches Ok(s) ==> holds(s, o, v),
{
    lemma_resolve_value(st, o, v);
    if let Ok(s) = spec_step(st, a) {
        if !st.trailing {
            if let ArgShape::Long { name, value } = arg_shape(a) {
                if let Some(LongArg::Opt(o2)) = spec_long_arg(name) {
                    let r = spec_resolve_pending(st).unwrap();
                    lemma_record_option_value(r, o2, value, o, v);
                }
            }
        }
    }
}

proof fn lemma_scan_keeps_value(words: Seq<Seq<char>>, st: ScanModel, o: OptId, v: Seq<char>)
    requires
        holds(st, o, v),
    ensures
        spec_scan(words, st) matches Ok(s) ==> holds(s, o, v),
    decreases words.len(),
{
    if words.len() > 0 {
        lemma_step_keeps_value(st, words[0], o, v);
        if let Ok(s1) = spec_step(st, words[0]) {
            lemma_scan_keeps_value(words.drop_first(), s1, o, v);
        }
    }
}

/// One argument read before `--`: the files gain it exactly when it is
/// plain and no option waits for a value, and an option waits afterwards
/// exactly when the argument names one without `=`; a value given to `o`
/// is held.
proof fn lemma_step_given(st: ScanModel, a: Seq<char>, o: OptId)
    requires
        !st.trailing,
        a != "--"@,
    ensures
        spec_step(st, a) matches Ok(s) ==> {
            &&& s.files == st.files + (if arg_shape(a) is Plain && !waits_for_value(st) {
                seq![a]
            } else {
                Seq::empty()
            })
            &&& waits_for_value(s) == opens_value(a)
            &&& (s.pending == Some((o, None::<Seq<char>>))) == (names_option(a, o) && opens_value(a))
            &&& (arg_shape(a) is Plain && st.pending == Some((o, None::<Seq<char>>))) ==> s.pending
                == Some((o, Some(a)))
            &&& match arg_shape(a) {
                ArgShape::Long { name, value: Some(v) } => spec_long_arg(name) == Some(LongArg::Opt(o))
                    ==> recorded(s, o, v),
                _ => true,
            }
        },
{
    lemma_escape_shape(a);
    lemma_resolve_keeps(st);
    if let Ok(s) = spec_step(st, a) {
        match arg_shape(a) {
            ArgShape::Long { name, value } => {
                if let Some(LongArg::Opt(o2)) = spec_long_arg(name) {
                    let r = spec_resolve_pending(st).unwrap();
                    lemma_record_option_keeps(r, o2, value);
                    if let Some(v) = value {
                        lemma_record_option_value(r, o2, value, o, v);
                    }
                    assert(r.files + Seq::<Seq<char>>::empty() =~= r.files);
                } else {
                    assert(st.files + Seq::<Seq<char>>::empty() =~= st.files);
                }
            },
            ArgShape::Plain => {
                assert(st.files + Seq::<Seq<char>>::empty() =~= st.files);
            },
            _ => {},
        }
    }
}

/// Reading arguments none of which is `--`: the files gained and the
/// value given to `o`.
proof fn lemma_scan_given(words: Seq<Seq<char>>, st: ScanModel, o: OptId)
    requires
        !st.trailing,
        !words.contains("--"@),
    ensures
        spec_scan(words, st) matches Ok(s) ==> {
            &&& s.files == st.files + files_given(words, waits_for_value(st))
            &&& given_value(words, o, st.pending == Some((o, None::<Seq<char>>))) matches Some(v)
                ==> holds(s, o, v)
        },
    decreases words.len(),
{
    if words.len() == 0 {
        assert(st.files + files_given(words, waits_for_value(st)) =~= st.files);
    } else {
        let a = words[0];
        let rest = words.drop_first();
        assert(a != "--"@);
        lemma_step_given(st, a, o);
        lemma_step_before_escape_trailing(st, a);
        if let Ok(s1) = spec_step(st, a) {
            assert(!rest.contains("--"@)) by {
                if rest.contains("--"@) {
                    let i = choose|i: int| 0 <= i < rest.len() && rest[i] == "--"@;
                    assert(words[i + 1] == "--"@);
                }
            }
            lemma_scan_given(rest, s1, o);
            if let Ok(s) = spec_scan(words, st) {
                assert(s.files == st.files + files_given(words, waits_for_value(st))) by {
                    if arg_shape(a) is Plain && !waits_for_value(st) {
                        assert(st.files + (seq![a] + files_given(rest, opens_value(a))) =~= st.files
                            + seq![a] + files_given(rest, opens_value(a)));
                    }
                }
                let waiting = st.pending == Some((o, None::<Seq<char>>));
                if let Some(v) = given_value(words, o, waiting) {
                    match arg_shape(a) {
                        ArgShape::Long { name, value } => {
                            if spec_long_arg(name) == Some(LongArg::Opt(o)) && value is Some {
                                lemma_scan_keeps_value(rest, s1, o, value.unwrap());
                            }
                        },
                        ArgShape::Plain => {
                            if waiting {
                                lemma_scan_keeps_value(rest, s1, o, a);
                            }
                        },
                        _ => {},
                    }
                }
            }
        }
    }
}

/// What a whole argument list gives of the files to open and of the
/// value of option `o`.
proof fn lemma_read_args_given(args: Seq<Seq<char>>, o: OptId)
    ensures
        spec_read_args(args) matches Ok(r) ==> {
            &&& r.files == files_given(before_escape(command_words(args)), false)
            &&& given_value(before_escape(command_words(args)), o, false) matches Some(v) ==> recorded(r, o, v)
        },
{
    let words = command_words(args);
    let init = initial_scan();
    words.index_of_first_ensures("--"@);
    match words.index_of_first("--"@) {
        None => {
            lemma_scan_given(words, init, o);
            if let Ok(s) = spec_scan(words, init) {
                lemma_resolve_keeps(s);
                if let Some(v) = given_value(words, o, false) {
                    lemma_resolve_value(s, o, v);
                }
                assert(init.files + files_given(words, false) =~= files_given(words, false));
            }
        },
        Some(k) => {
            let pre = words.take(k);
            let post = words.skip(k + 1);
            assert(words =~= pre + (seq!["--"@] + post));
            assert(!pre.contains("--"@));
            lemma_scan_concat(pre, seq!["--"@] + post, init);
            lemma_scan_given(pre, init, o);
            lemma_scan_before_escape(pre, init);
            if let Ok(s1) = spec_scan(pre, init) {
                lemma_escape_shape("--"@);
                let s2 = ScanModel { trailing: true, ..s1 };
                assert(spec_step(s1, "--"@) == Ok::<ScanModel, CmdLineError>(s2));
                assert((seq!["--"@] + post)[0] == "--"@);
                assert((seq!["--"@] + post).drop_first() =~= post);
                lemma_scan_after_escape(post, s2);
                assert(init.files + files_given(pre, false) =~= files_given(pre, false));
                if let Ok(s) = spec_scan(post, s2) {
                    lemma_resolve_keeps(s);
                    if let Some(v) = given_value(pre, o, false) {
                        lemma_scan_keeps_value(post, s2, o, v);
                        lemma_resolve_value(s, o, v);
                    }
                }
            }
        },
    }
}

/// **The files to open are the plain arguments before `--`, in order,
/// but for the value of an option named without `=`.** An option named
/// as `--name` takes the plain argument right after it as its value; any
/// other plain argument before the first `--` is a file to open, and the
/// editor receives those files after the tab flag and before the
/// arguments that follow `--`.
pub proof fn law_files_to_open(args: Seq<Seq<char>>, env: Seq<(Seq<char>, Seq<char>)>, srgb_default: bool)
    ensures
        spec_parse_command_line(args, env, srgb_default) matches Ok(p) ==> p.files_to_open
            == files_given(before_escape(command_words(args)), false),
        spec_handle(args, env, srgb_default) matches Ok(h) ==> h.neovim_args == tab_flag(h.no_tabs)
            + files_given(before_escape(command_words(args)), false) + after_escape(command_words(args)),
{
    lemma_read_args_given(args, OptId::Server);
    law_passthrough(args, env, srgb_default);
}

/// **An option named before `--` takes the value given there**: the text
/// after `=`, or the plain argument right after the option. Its setting
/// holds that text (`--server`, `--neovim-bin`, the window classes and the
/// application id), the frame it names (`--frame`), or the size it gives
/// (`--grid`, `--size`), whatever the environment holds.
pub proof fn law_option_values(
    args: Seq<Seq<char>>,
    env: Seq<(Seq<char>, Seq<char>)>,
    srgb_default: bool,
    o: OptId,
)
    ensures
        spec_parse_command_line(args, env, srgb_default) matches Ok(p) ==> (given_value(
            before_escape(command_words(args)),
            o,
            false,
        ) matches Some(v) ==> holds_value(p, o, v)),
        spec_handle(args, env, srgb_default) matches Ok(h) ==> (given_value(
            before_escape(command_words(args)),
            o,
            false,
        ) matches Some(v) ==> holds_value(h, o, v)),
{
    lemma_read_args_given(args, o);
}

/// **Only the environment variables that the command line declares
/// matter**: two environments that give those variables the same values
/// give the same result, settings or error.
pub proof fn law_consulted_variables(
    args: Seq<Seq<char>>,
    env1: Seq<(Seq<char>, Seq<char>)>,
    env2: Seq<(Seq<char>, Seq<char>)>,
    srgb_default: bool,
)
    requires
        forall|name: Seq<char>| consulted_variable(name) ==> #[trigger] env_var(env1, name) == env_var(env2, name),
    ensures
        spec_parse_command_line(args, env1, srgb_default) == spec_parse_command_line(args, env2, srgb_default),
        spec_handle(args, env1, srgb_default) == spec_handle(args, env2, srgb_default),
{
}


/// The argument `--<name>=<value>`.
pub open spec fn attached_arg(name: Seq<char>, value: Seq<char>) -> Seq<char> {
    "--"@ + name + "="@ + value
}

/// A word that is no option: empty, `-` alone, or not starting with `-`.
pub open spec fn plain_word(a: Seq<char>) -> bool {
    a.len() < 2 || a[0] != '-'
}

/// At position `i`, `words` give the option of long name `name` the value
/// `v`: as `--name=v`, or as `--name` followed by the plain word `v`.
pub open spec fn gives_at(words: Seq<Seq<char>>, i: int, name: Seq<char>, v: Seq<char>) -> bool {
    &&& 0 <= i < words.len()
    &&& (words[i] == attached_arg(name, v) || (words[i] == "--"@ + name && i + 1 < words.len() && words[i
        + 1] == v && plain_word(v)))
}

/// A long option name: not empty, without `=`, and looked up as option `o`.
spec fn option_name(name: Seq<char>, o: OptId) -> bool {
    &&& name.len() > 0
    &&& forall|j: int| 0 <= j < name.len() ==> name[j] != '='
    &&& spec_long_arg(name) == Some(LongArg::Opt(o))
}

/// Each long option name of the command line, written out.
proof fn lemma_option_names()
    ensures
        option_name("server"@, OptId::Server),
        option_name("remote-tcp"@, OptId::Server),
        option_name("frame"@, OptId::Frame),
        option_name("neovim-bin"@, OptId::NeovimBin),
        option_name("wayland_app_id"@, OptId::WaylandAppId),
        option_name("x11-wm-class"@, OptId::X11WmClass),
        option_name("x11-wm-class-instance"@, OptId::X11WmClassInstance),
        option_name("grid"@, OptId::Grid),
        option_name("size"@, OptId::Size),
{
    lemma_flag_name_chars(FlagId::Log);
    reveal_strlit("log");
    reveal_strlit("server");
    reveal_strlit("remote-tcp");
    reveal_strlit("wsl");
    reveal_strlit("frame");
    reveal_strlit("no-multigrid");
    reveal_strlit("no-fork");
    reveal_strlit("no-idle");
    reveal_strlit("no-tabs");
    reveal_strlit("srgb");
    reveal_strlit("no-srgb");
    reveal_strlit("vsync");
    reveal_strlit("no-vsync");
    reveal_strlit("neovim-bin");
    reveal_strlit("wayland_app_id");
    reveal_strlit("x11-wm-class");
    reveal_strlit("x11-wm-class-instance");
    reveal_strlit("grid");
    reveal_strlit("size");
    assert("server"@.len() == 6);
    assert("remote-tcp"@.len() == 10);
    assert("frame"@.len() == 5);
    assert("neovim-bin"@.len() == 10);
    assert("wayland_app_id"@.len() == 14);
    assert("x11-wm-class"@.len() == 12);
    assert("x11-wm-class-instance"@.len() == 21);
    assert("grid"@.len() == 4);
    assert("size"@.len() == 4);
    assert("log"@.len() == 3);
    assert("wsl"@.len() == 3);
    assert("no-multigrid"@.len() == 12);
    assert("no-fork"@.len() == 7);
    assert("no-idle"@.len() == 7);
    assert("no-tabs"@.len() == 7);
    assert("srgb"@.len() == 4);
    assert("no-srgb"@.len() == 7);
    assert("vsync"@.len() == 5);
    assert("no-vsync"@.len() == 8);
    assert("frame"@[0] != "vsync"@[0]);
    assert("remote-tcp"@[0] != "server"@[0]);
    assert("neovim-bin"@[0] != "remote-tcp"@[0]);
    assert("x11-wm-class"@[0] != "no-multigrid"@[0]);
    assert("grid"@[0] != "srgb"@[0]);
    assert("size"@[1] != "srgb"@[1]);
    assert("size"@[0] != "grid"@[0]);
}

/// The shape of `--name=value`.
proof fn lemma_attached_shape(name: Seq<char>, v: Seq<char>)
    requires
        name.len() > 0,
        forall|j: int| 0 <= j < name.len() ==> name[j] != '=',
    ensures
        arg_shape(attached_arg(name, v)) == (ArgShape::Long { name: name, value: Some(v) }),
{
    reveal_strlit("--");
    reveal_strlit("=");
    let a = attached_arg(name, v);
    let rest = name + "="@ + v;
    assert(a.skip(2) =~= rest);
    assert(a[0] == '-' && a[1] == '-');
    lemma_find_char_at(rest, '=', name.len() as int);
    assert(rest.take(name.len() as int) =~= name);
    assert(rest.skip(name.len() as int + 1) =~= v);
}

/// The shape of `--name`.
proof fn lemma_bare_shape(name: Seq<char>)
    requires
        name.len() > 0,
        forall|j: int| 0 <= j < name.len() ==> name[j] != '=',
    ensures
        arg_shape("--"@ + name) == (ArgShape::Long { name: name, value: None }),
{
    reveal_strlit("--");
    let a = "--"@ + name;
    assert(a.skip(2) =~= name);
    assert(a[0] == '-' && a[1] == '-');
    lemma_find_char_none(name, '=');
}

/// A plain word is read as a plain argument.
proof fn lemma_plain_shape(a: Seq<char>)
    requires
        plain_word(a),
    ensures
        arg_shape(a) is Plain,
{
}

/// Reading words that start by giving option `o`, named `name`, the value
/// `v` leaves that value held.
proof fn lemma_value_from(tail: Seq<Seq<char>>, s: ScanModel, name: Seq<char>, o: OptId, v: Seq<char>)
    requires
        !s.trailing,
        option_name(name, o),
        tail.len() > 0,
        tail[0] == attached_arg(name, v) || (tail[0] == "--"@ + name && tail.len() > 1 && tail[1] == v
            && plain_word(v)),
    ensures
        spec_scan(tail, s) matches Ok(st) ==> holds(st, o, v),
{
    let a = tail[0];
    lemma_attached_shape(name, v);
    lemma_bare_shape(name);
    lemma_escape_shape(a);
    lemma_step_given(s, a, o);
    lemma_step_before_escape_trailing(s, a);
    if let Ok(s1) = spec_step(s, a) {
        if a == attached_arg(name, v) {
            assert(recorded(s1, o, v));
            lemma_scan_keeps_value(tail.drop_first(), s1, o, v);
            assert(spec_scan(tail, s) == spec_scan(tail.drop_first(), s1));
        } else {
            lemma_plain_shape(v);
            assert(names_option(a, o) && opens_value(a));
            assert(tail.drop_first()[0] == v);
            lemma_step_given(s1, v, o);
            assert(spec_scan(tail, s) == spec_scan(tail.drop_first(), s1));
            if let Ok(s2) = spec_step(s1, v) {
                assert(holds(s2, o, v));
                assert(tail.drop_first().drop_first() =~= tail.skip(2));
                assert(spec_scan(tail.drop_first(), s1) == spec_scan(tail.skip(2), s2));
                lemma_scan_keeps_value(tail.skip(2), s2, o, v);
            }
        }
    }
}

/// Where an accepted command line gives option `o`, named `name`, a
/// value before `--`, the reader settles `o` with that value.
proof fn lemma_gives(args: Seq<Seq<char>>, i: int, name: Seq<char>, o: OptId, v: Seq<char>)
    requires
        option_name(name, o),
    ensures
        spec_read_args(args) matches Ok(r) ==> (gives_at(before_escape(command_words(args)), i, name, v)
            ==> recorded(r, o, v)),
{
    let words = command_words(args);
    let before = before_escape(words);
    let init = initial_scan();
    words.index_of_first_ensures("--"@);
    if gives_at(before, i, name, v) && spec_read_args(args) is Ok {
        let st = spec_scan(words, init).unwrap();
        let pre = words.take(i);
        let tail = words.skip(i);
        assert(words =~= pre + tail);
        assert(before[i] == words[i]);
        assert(tail[0] == words[i]);
        if words[i] != attached_arg(name, v) {
            assert(before[i + 1] == words[i + 1]);
            assert(tail[1] == words[i + 1]);
        }
        assert(!pre.contains("--"@)) by {
            if pre.contains("--"@) {
                let j = choose|j: int| 0 <= j < pre.len() && pre[j] == "--"@;
                assert(words[j] == "--"@);
            }
        }
        assert(init.flags.len() == FLAG_COUNT);
        lemma_scan_concat(pre, tail, init);
        lemma_scan_before_escape(pre, init);
        let s = spec_scan(pre, init).unwrap();
        lemma_value_from(tail, s, name, o, v);
        lemma_resolve_value(st, o, v);
    }
}

/// **An option named by its long name before `--` takes the value given
/// there**, as `--name=value` or as `--name` followed by a plain word: the
/// text for `--server` (also `--remote-tcp`), `--neovim-bin`,
/// `--wayland_app_id`, `--x11-wm-class` and `--x11-wm-class-instance`, the
/// frame it names for `--frame`, the size it gives for `--grid` and
/// `--size`.
pub proof fn law_named_options(
    args: Seq<Seq<char>>,
    env: Seq<(Seq<char>, Seq<char>)>,
    srgb_default: bool,
    i: int,
    v: Seq<char>,
)
    ensures
        spec_parse_command_line(args, env, srgb_default) matches Ok(p) ==> {
            let before = before_escape(command_words(args));
            &&& gives_at(before, i, "server"@, v) ==> p.server == Some(v)
            &&& gives_at(before, i, "remote-tcp"@, v) ==> p.server == Some(v)
            &&& gives_at(before, i, "neovim-bin"@, v) ==> p.neovim_bin == Some(v)
            &&& gives_at(before, i, "wayland_app_id"@, v) ==> p.wayland_app_id == v
            &&& gives_at(before, i, "x11-wm-class"@, v) ==> p.x11_wm_class == v
            &&& gives_at(before, i, "x11-wm-class-instance"@, v) ==> p.x11_wm_class_instance == v
            &&& gives_at(before, i, "frame"@, v) ==> spec_parse_frame(v) == Some(p.frame)
            &&& gives_at(before, i, "grid"@, v) ==> spec_parse_dimensions(v) is Some && p.geometry.grid
                == Some(spec_parse_dimensions(v))
            &&& gives_at(before, i, "size"@, v) ==> spec_parse_dimensions(v) is Some && p.geometry.size
                == spec_parse_dimensions(v)
        },
{
    lemma_option_names();
    lemma_gives(args, i, "server"@, OptId::Server, v);
    lemma_gives(args, i, "remote-tcp"@, OptId::Server, v);
    lemma_gives(args, i, "neovim-bin"@, OptId::NeovimBin, v);
    lemma_gives(args, i, "wayland_app_id"@, OptId::WaylandAppId, v);
    lemma_gives(args, i, "x11-wm-class"@, OptId::X11WmClass, v);
    lemma_gives(args, i, "x11-wm-class-instance"@, OptId::X11WmClassInstance, v);
    lemma_gives(args, i, "frame"@, OptId::Frame, v);
    lemma_gives(args, i, "grid"@, OptId::Grid, v);
    lemma_gives(args, i, "size"@, OptId::Size, v);
}


/// The command line `args` is the program's name and option `name` with
/// the value `v`, as `--name=v` or as `--name` followed by the plain word
/// `v`.
pub open spec fn gives_alone(args: Seq<Seq<char>>, name: Seq<char>, v: Seq<char>) -> bool {
    &&& args.len() >= 1
    &&& (args.drop_first() == seq![attached_arg(name, v)] || (args.drop_first() == seq!["--"@ + name, v]
        && plain_word(v)))
}

/// A result with the settings changed by `f`, or the same error.
pub open spec fn then_set(
    r: Result<SettingsModel, CmdLineError>,
    f: spec_fn(SettingsModel) -> SettingsModel,
) -> Result<SettingsModel, CmdLineError> {
    match r {
        Ok(s) => Ok(f(s)),
        Err(e) => Err(e),
    }
}

/// A command line of one option, `name`, with its value: the reader
/// settles that option with that value.
proof fn lemma_alone(args: Seq<Seq<char>>, name: Seq<char>, o: OptId, v: Seq<char>)
    requires
        option_name(name, o),
        gives_alone(args, name, v),
    ensures
        spec_read_args(args) == spec_record_option(initial_scan(), o, Some(v)),
        spec_read_args(seq![args[0]]) == Ok::<ScanModel, CmdLineError>(initial_scan()),
{
    let init = initial_scan();
    let words = args.drop_first();
    lemma_attached_shape(name, v);
    lemma_bare_shape(name);
    lemma_record_option_keeps(init, o, Some(v));
    assert(seq![args[0]].drop_first() =~= Seq::<Seq<char>>::empty());
    let rec = spec_record_option(init, o, Some(v));
    assert(spec_resolve_pending(init) == Ok::<ScanModel, CmdLineError>(init));
    if let Ok(r) = rec {
        assert(r.pending is None);
        assert(spec_resolve_pending(r) == Ok::<ScanModel, CmdLineError>(r));
        assert(spec_scan(Seq::<Seq<char>>::empty(), r) == Ok::<ScanModel, CmdLineError>(r));
    }
    if words == seq![attached_arg(name, v)] {
        assert(words.drop_first() =~= Seq::<Seq<char>>::empty());
        assert(words[0] == attached_arg(name, v));
        assert(spec_step(init, words[0]) == rec);
        assert(spec_scan(words, init) == match rec {
            Ok(r) => spec_scan(Seq::<Seq<char>>::empty(), r),
            Err(e) => Err(e),
        });
    } else {
        lemma_plain_shape(v);
        let s1 = ScanModel { pending: Some((o, None)), ..init };
        assert(spec_step(init, words[0]) == Ok::<ScanModel, CmdLineError>(s1));
        let s2 = ScanModel { pending: Some((o, Some(v))), ..init };
        assert(spec_step(s1, v) == Ok::<ScanModel, CmdLineError>(s2));
        assert(words.drop_first()[0] == v);
        assert(words.drop_first().drop_first() =~= Seq::<Seq<char>>::empty());
        assert(ScanModel { pending: None, ..s2 } == init);
        assert(spec_scan(words.drop_first().drop_first(), s2) == Ok::<ScanModel, CmdLineError>(s2));
        assert(spec_scan(words.drop_first(), s1) == Ok::<ScanModel, CmdLineError>(s2));
        assert(spec_scan(words, init) == Ok::<ScanModel, CmdLineError>(s2));
        assert(spec_resolve_pending(s2) == rec);
    }
}

/// The settings with text option `o` set to `v`.
spec fn set_text(s: SettingsModel, o: OptId, v: Seq<char>) -> SettingsModel {
    match o {
        OptId::Server => SettingsModel { server: Some(v), ..s },
        OptId::NeovimBin => SettingsModel { neovim_bin: Some(v), ..s },
        OptId::WaylandAppId => SettingsModel { wayland_app_id: v, ..s },
        OptId::X11WmClass => SettingsModel { x11_wm_class: v, ..s },
        OptId::X11WmClassInstance => SettingsModel { x11_wm_class_instance: v, ..s },
        _ => s,
    }
}

proof fn lemma_text_alone(
    args: Seq<Seq<char>>,
    env: Seq<(Seq<char>, Seq<char>)>,
    srgb_default: bool,
    name: Seq<char>,
    o: OptId,
    v: Seq<char>,
)
    requires
        option_name(name, o),
        gives_alone(args, name, v),
        o == OptId::Server || o == OptId::NeovimBin || o == OptId::WaylandAppId || o == OptId::X11WmClass
            || o == OptId::X11WmClassInstance,
    ensures
        spec_parse_command_line(args, env, srgb_default) == match spec_parse_command_line(
            seq![args[0]],
            env,
            srgb_default,
        ) {
            Ok(s) => Ok(set_text(s, o, v)),
            Err(e) => Err(e),
        },
{
    lemma_alone(args, name, o, v);
    let init = initial_scan();
    let r = spec_record_option(init, o, Some(v)).unwrap();
    assert(spec_record_option(init, o, Some(v)) == Ok::<ScanModel, CmdLineError>(r));
    assert(r.flags == init.flags && r.frame == init.frame && r.grid == init.grid && r.size == init.size);
    assert(settings_error(r, env) == settings_error(init, env));
    assert(settings_of(r, env, srgb_default) == set_text(settings_of(init, env, srgb_default), o, v));
}

/// **A command line that gives only a text option gives the settings of
/// the bare command line with that option's value**: `--server` (or
/// `--remote-tcp`), `--neovim-bin`, `--wayland_app_id`, `--x11-wm-class`
/// or `--x11-wm-class-instance`, with `=v` or followed by the plain word
/// `v`, is accepted exactly when the program's name alone is, and sets
/// exactly its own setting to `v`; every other setting, the other text
/// options among them, keeps its environment value or default.
pub proof fn law_text_option_alone(
    args: Seq<Seq<char>>,
    env: Seq<(Seq<char>, Seq<char>)>,
    srgb_default: bool,
    v: Seq<char>,
)
    ensures
        gives_alone(args, "server"@, v) || gives_alone(args, "remote-tcp"@, v) ==> spec_parse_command_line(
            args,
            env,
            srgb_default,
        ) == then_set(
            spec_parse_command_line(seq![args[0]], env, srgb_default),
            (|s: SettingsModel| SettingsModel { server: Some(v), ..s }),
        ),
        gives_alone(args, "neovim-bin"@, v) ==> spec_parse_command_line(args, env, srgb_default) == then_set(
            spec_parse_command_line(seq![args[0]], env, srgb_default),
            (|s: SettingsModel| SettingsModel { neovim_bin: Some(v), ..s }),
        ),
        gives_alone(args, "wayland_app_id"@, v) ==> spec_parse_command_line(args, env, srgb_default)
            == then_set(
            spec_parse_command_line(seq![args[0]], env, srgb_default),
            (|s: SettingsModel| SettingsModel { wayland_app_id: v, ..s }),
        ),
        gives_alone(args, "x11-wm-class"@, v) ==> spec_parse_command_line(args, env, srgb_default)
            == then_set(
            spec_parse_command_line(seq![args[0]], env, srgb_default),
            (|s: SettingsModel| SettingsModel { x11_wm_class: v, ..s }),
        ),
        gives_alone(args, "x11-wm-class-instance"@, v) ==> spec_parse_command_line(args, env, srgb_default)
            == then_set(
            spec_parse_command_line(seq![args[0]], env, srgb_default),
            (|s: SettingsModel| SettingsModel { x11_wm_class_instance: v, ..s }),
        ),
{
    lemma_option_names();
    if gives_alone(args, "server"@, v) {
        lemma_text_alone(args, env, srgb_default, "server"@, OptId::Server, v);
    }
    if gives_alone(args, "remote-tcp"@, v) {
        lemma_text_alone(args, env, srgb_default, "remote-tcp"@, OptId::Server, v);
    }
    if gives_alone(args, "neovim-bin"@, v) {
        lemma_text_alone(args, env, srgb_default, "neovim-bin"@, OptId::NeovimBin, v);
    }
    if gives_alone(args, "wayland_app_id"@, v) {
        lemma_text_alone(args, env, srgb_default, "wayland_app_id"@, OptId::WaylandAppId, v);
    }
    if gives_alone(args, "x11-wm-class"@, v) {
        lemma_text_alone(args, env, srgb_default, "x11-wm-class"@, OptId::X11WmClass, v);
    }
    if gives_alone(args, "x11-wm-class-instance"@, v) {
        lemma_text_alone(args, env, srgb_default, "x11-wm-class-instance"@, OptId::X11WmClassInstance, v);
    }
}

/// **A command line that gives only `--frame` sets the frame it names, or
/// is refused when the value names no frame**; the other settings are
/// those of the bare command line (here in an environment without
/// `NEOVIDE_FRAME`, which `--frame` makes unread).
pub proof fn law_frame_option_alone(
    args: Seq<Seq<char>>,
    env: Seq<(Seq<char>, Seq<char>)>,
    srgb_default: bool,
    v: Seq<char>,
)
    ensures
        gives_alone(args, "frame"@, v) && spec_parse_frame(v) is None ==> spec_parse_command_line(
            args,
            env,
            srgb_default,
        ) == Err::<SettingsModel, CmdLineError>(CmdLineError::InvalidValue),
        spec_parse_frame(v) is Some && gives_alone(args, "frame"@, v) && env_var(
            env,
            "NEOVIDE_FRAME"@,
        ) is None ==> spec_parse_command_line(args, env, srgb_default) == then_set(
            spec_parse_command_line(seq![args[0]], env, srgb_default),
            (|s: SettingsModel| SettingsModel { frame: spec_parse_frame(v).unwrap(), ..s }),
        ),
{
    lemma_option_names();
    if gives_alone(args, "frame"@, v) {
        lemma_alone(args, "frame"@, OptId::Frame, v);
        let init = initial_scan();
        if let Some(f) = spec_parse_frame(v) {
            let r = ScanModel { frame: Some(f), ..init };
            assert(spec_record_option(init, OptId::Frame, Some(v)) == Ok::<ScanModel, CmdLineError>(r));
            if env_var(env, "NEOVIDE_FRAME"@) is None {
                assert(settings_error(r, env) == settings_error(init, env));
                assert(settings_of(r, env, srgb_default) == SettingsModel {
                    frame: f,
                    ..settings_of(init, env, srgb_default)
                });
            }
        }
    }
}

/// **A command line that gives only `--grid` or `--size` with a value
/// sets the size the value gives, or is refused when the value gives
/// none**; the other settings are those of the bare command line (here in
/// an environment without `NEOVIDE_MAXIMIZED`, which would conflict).
pub proof fn law_size_option_alone(
    args: Seq<Seq<char>>,
    env: Seq<(Seq<char>, Seq<char>)>,
    srgb_default: bool,
    v: Seq<char>,
)
    ensures
        (gives_alone(args, "grid"@, v) || gives_alone(args, "size"@, v)) && spec_parse_dimensions(v) is None
            ==> spec_parse_command_line(args, env, srgb_default) == Err::<SettingsModel, CmdLineError>(
            CmdLineError::ValueValidation,
        ),
        gives_alone(args, "grid"@, v) && env_var(env, "NEOVIDE_MAXIMIZED"@) is None
            && spec_parse_dimensions(v) is Some ==> spec_parse_command_line(args, env, srgb_default)
            == then_set(
            spec_parse_command_line(seq![args[0]], env, srgb_default),
            (|s: SettingsModel|
                SettingsModel {
                    geometry: GeometryArgs { grid: Some(spec_parse_dimensions(v)), ..s.geometry },
                    ..s
                }),
        ),
        gives_alone(args, "size"@, v) && env_var(env, "NEOVIDE_MAXIMIZED"@) is None
            && spec_parse_dimensions(v) is Some ==> spec_parse_command_line(args, env, srgb_default)
            == then_set(
            spec_parse_command_line(seq![args[0]], env, srgb_default),
            (|s: SettingsModel|
                SettingsModel { geometry: GeometryArgs { size: spec_parse_dimensions(v), ..s.geometry }, ..s }),
        ),
{
    lemma_option_names();
    let init = initial_scan();
    if gives_alone(args, "grid"@, v) {
        lemma_alone(args, "grid"@, OptId::Grid, v);
        if let Some(d) = spec_parse_dimensions(v) {
            let r = ScanModel { grid: Some(Some(d)), ..init };
            assert(spec_record_option(init, OptId::Grid, Some(v)) == Ok::<ScanModel, CmdLineError>(r));
            if env_var(env, "NEOVIDE_MAXIMIZED"@) is None {
                assert(settings_error(r, env) == settings_error(init, env));
                let b = settings_of(init, env, srgb_default);
                assert(settings_of(r, env, srgb_default) == SettingsModel {
                    geometry: GeometryArgs { grid: Some(Some(d)), ..b.geometry },
                    ..b
                });
            }
        }
    }
    if gives_alone(args, "size"@, v) {
        lemma_alone(args, "size"@, OptId::Size, v);
        if let Some(d) = spec_parse_dimensions(v) {
            let r = ScanModel { size: Some(d), ..init };
            assert(spec_record_option(init, OptId::Size, Some(v)) == Ok::<ScanModel, CmdLineError>(r));
            if env_var(env, "NEOVIDE_MAXIMIZED"@) is None {
                assert(settings_error(r, env) == settings_error(init, env));
                let b = settings_of(init, env, srgb_default);
                assert(settings_of(r, env, srgb_default) == SettingsModel {
                    geometry: GeometryArgs { size: Some(d), ..b.geometry },
                    ..b
                });
            }
        }
    }
}


/// **A variable's value is that of the first entry whose name is exactly
/// the variable's name**: there is none exactly when no entry has that
/// name, and entries with other names (one that merely starts with the
/// name among them) are passed over.
pub proof fn law_variable_lookup(env: Seq<(Seq<char>, Seq<char>)>, name: Seq<char>)
    ensures
        env_var(env, name) is None <==> forall|i: int| 0 <= i < env.len() ==> (#[trigger] env[i]).0 != name,
        env_var(env, name) matches Some(v) ==> exists|i: int|
            0 <= i < env.len() && #[trigger] env[i] == (name, v) && forall|j: int| 0 <= j < i ==> env[j].0 != name,
    decreases env.len(),
{
    if env.len() > 0 {
        let rest = env.drop_first();
        law_variable_lookup(rest, name);
        assert forall|i: int| 0 < i < env.len() implies env[i] == rest[i - 1] by {}
        if env[0].0 != name {
            if let Some(v) = env_var(env, name) {
                let i = choose|i: int|
                    0 <= i < rest.len() && #[trigger] rest[i] == (name, v) && forall|j: int| 0 <= j < i ==> rest[j].0 != name;
                assert(env[i + 1] == (name, v));
                assert forall|j: int| 0 <= j < i + 1 implies env[j].0 != name by {
                    if j > 0 {
                        assert(env[j] == rest[j - 1]);
                    }
                }
            } else {
                assert forall|i: int| 0 <= i < env.len() implies (#[trigger] env[i]).0 != name by {
                    if i > 0 {
                        assert(env[i] == rest[i - 1]);
                    }
                }
            }
            if forall|i: int| 0 <= i < env.len() ==> (#[trigger] env[i]).0 != name {
                assert forall|i: int| 0 <= i < rest.len() implies (#[trigger] rest[i]).0 != name by {
                    assert(rest[i] == env[i + 1]);
                }
            }
        } else {
            assert(env[0] == (name, env[0].1));
        }
    }
}

/// **Only two different geometry options conflict.** Without `--grid` and
/// `--size` before `--`, whether a command line is refused for a conflict
/// does not depend on the environment: `NEOVIDE_MAXIMIZED`, with or
/// without `--maximized`, never causes one.
pub proof fn law_geometry_conflict_needs_two(
    args: Seq<Seq<char>>,
    env1: Seq<(Seq<char>, Seq<char>)>,
    env2: Seq<(Seq<char>, Seq<char>)>,
    srgb_default: bool,
)
    ensures
        !mentions(before_escape(command_words(args)), OptId::Grid) && !mentions(
            before_escape(command_words(args)),
            OptId::Size,
        ) ==> (spec_parse_command_line(args, env1, srgb_default) == Err::<SettingsModel, CmdLineError>(
            CmdLineError::ArgumentConflict,
        ) <==> spec_parse_command_line(args, env2, srgb_default) == Err::<SettingsModel, CmdLineError>(
            CmdLineError::ArgumentConflict,
        )),
{
    lemma_read_args_named(args);
    if let Ok(st) = spec_read_args(args) {
        assert(opt_present(st, OptId::Grid) == mentions(before_escape(command_words(args)), OptId::Grid));
        assert(opt_present(st, OptId::Size) == mentions(before_escape(command_words(args)), OptId::Size));
    }
}

/// **`--maximized` is accepted whatever `NEOVIDE_MAXIMIZED` holds**: where
/// the program's name alone is accepted, adding `--maximized` is accepted
/// too, and changes only that the window is maximized.
pub proof fn law_maximized_switch(prog: Seq<char>, env: Seq<(Seq<char>, Seq<char>)>, srgb_default: bool)
    ensures
        spec_parse_command_line(seq![prog, "--maximized"@], env, srgb_default) == then_set(
            spec_parse_command_line(seq![prog], env, srgb_default),
            (|s: SettingsModel|
                SettingsModel { geometry: GeometryArgs { maximized: true, ..s.geometry }, ..s }),
        ),
{
    let init = initial_scan();
    let a = "--maximized"@;
    lemma_flag_args();
    lemma_flag_word(a, FlagId::Maximized);
    lemma_flag_index(FlagId::Maximized, FlagId::Maximized);
    let args = seq![prog, a];
    assert(args.drop_first() =~= seq![a]);
    assert(seq![a].drop_first() =~= Seq::<Seq<char>>::empty());
    assert(seq![prog].drop_first() =~= Seq::<Seq<char>>::empty());
    assert(spec_resolve_pending(init) == Ok::<ScanModel, CmdLineError>(init));
    let r = ScanModel { flags: init.flags.update(flag_index(FlagId::Maximized), true), ..init };
    assert(spec_step(init, a) == Ok::<ScanModel, CmdLineError>(r));
    assert(seq![a][0] == a);
    assert(spec_scan(Seq::<Seq<char>>::empty(), r) == Ok::<ScanModel, CmdLineError>(r));
    assert(spec_scan(seq![a], init) == Ok::<ScanModel, CmdLineError>(r));
    assert(spec_resolve_pending(r) == Ok::<ScanModel, CmdLineError>(r));
    assert(spec_read_args(args) == Ok::<ScanModel, CmdLineError>(r));
    assert(spec_read_args(seq![prog]) == Ok::<ScanModel, CmdLineError>(init));
    assert forall|f: FlagId| f != FlagId::Maximized implies flag_seen(r, f) == flag_seen(init, f) by {
        lemma_flag_index(f, FlagId::Maximized);
    }
    assert(flag_seen(r, FlagId::Maximized));
    assert(!flag_seen(init, FlagId::Wsl));
    assert(settings_error(r, env) == settings_error(init, env));
}

} // verus!
