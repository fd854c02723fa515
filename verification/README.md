# neovide command line

The command-line handling of the Neovide front end, as a library verified
with Verus.

`handle_command_line_arguments(args, env, srgb_default)` reads the
program's arguments (the program's name first) and the environment
variables the command line consults, and gives the settings of the run, or
the error the command line reports (`CmdLineError`, which also stands for
`--help` and `--version`). `srgb_default` is the platform's sRGB default
(on for Windows). `CmdLineSettings::from_environment` gives the settings
of an empty command line.
Its contract states the result exactly, through the specification
functions `spec_handle` and `spec_parse_command_line` in `src/cmd_line.rs`.

- `src/grammar.rs`: the long names of the options and switches, and the
  shape of one argument (`--`, `--name[=value]`, `-x`, or a plain word).
- `src/scan.rs`: the reader, one argument at a time, with the option that
  may still wait for its value.
- `src/cmd_line.rs`: the environment and the defaults, the settings, and
  the final arrangement of the editor's arguments.
- `src/dimensions.rs`, `src/frame.rs`, `src/value_parsers.rs`: how option
  values are read.
- `src/text.rs`: character-level helpers on strings.
- `src/laws.rs`: properties of every command line, proved.

`app/main.rs` is the program around the library: it collects the process's
arguments and environment (names in upper case on Windows, which ignores
their case), keeps the settings, and prints the usage text, the version,
or clap's message for a refused command line.

`tests/against_clap.rs` compares the library, on many short command lines,
with the same command line declared through clap's builder, and compares
how environment values are read with clap's value parsers.
