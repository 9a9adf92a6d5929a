//! The command lines of the programs.

use crate::number::Number;
use crate::text;
use vstd::prelude::*;

verus! {

/// The programs that choose among modes.
#[derive(Clone, Copy, Debug, PartialEq, Eq, Structural)]
pub enum Program {
    /// The server.
    Server,
    /// The radar that polls by itself.
    Standalone,
}

/// What a program is to do.
#[derive(Clone, Copy, Debug, PartialEq, Eq, Structural)]
pub enum Mode {
    Serve,
    Tui,
    Headless,
    Once,
    PrintConfig,
    Help,
}

/// The mode that a flag names.
pub open spec fn mode_of(program: Program, flag: Seq<char>) -> Option<Mode> {
    if program == Program::Server && flag == "--serve"@ {
        Some(Mode::Serve)
    } else if program == Program::Standalone && flag == "--tui"@ {
        Some(Mode::Tui)
    } else if program == Program::Standalone && flag == "--headless"@ {
        Some(Mode::Headless)
    } else if flag == "--once"@ {
        Some(Mode::Once)
    } else if flag == "--print-config"@ {
        Some(Mode::PrintConfig)
    } else if flag == "-h"@ || flag == "--help"@ {
        Some(Mode::Help)
    } else {
        None
    }
}

fn read_mode(program: Program, flag: &str) -> (r: Option<Mode>)
    ensures
        r == mode_of(program, flag@),
{
    if program == Program::Server && text::same(flag, "--serve") {
        Some(Mode::Serve)
    } else if program == Program::Standalone && text::same(flag, "--tui") {
        Some(Mode::Tui)
    } else if program == Program::Standalone && text::same(flag, "--headless") {
        Some(Mode::Headless)
    } else if text::same(flag, "--once") {
        Some(Mode::Once)
    } else if text::same(flag, "--print-config") {
        Some(Mode::PrintConfig)
    } else if text::same(flag, "-h") || text::same(flag, "--help") {
        Some(Mode::Help)
    } else {
        None
    }
}

/// What a command line asks of a program.
#[derive(Debug)]
pub struct Args {
    pub mode: Mode,
    pub config_path: Option<String>,
    /// The origin to allow in place of the configured one.
    pub cors_allow_origin: Option<String>,
}

/// What is known of a command line so far: mode, path and origin.
pub type Known = (Option<Mode>, Option<Seq<char>>, Option<Seq<char>>);

/// What a command line asks, read on from what is known so far. Modes may be repeated but not
/// mixed; of a repeated path or origin the last counts.
pub open spec fn read_on(program: Program, args: Seq<Seq<char>>, known: Known) -> Result<
    Known,
    Seq<char>,
>
    decreases args.len(),
{
    if args.len() == 0 {
        Ok(known)
    } else {
        let flag = args[0];
        let rest = args.drop_first();
        match mode_of(program, flag) {
            Some(m) => if known.0 is Some && known.0 != Some(m) {
                Err("only one mode may be given"@)
            } else {
                read_on(program, rest, (Some(m), known.1, known.2))
            },
            None => if flag == "--config"@ {
                if rest.len() == 0 {
                    Err("--config requires a path"@)
                } else {
                    read_on(program, rest.drop_first(), (known.0, Some(rest[0]), known.2))
                }
            } else if program == Program::Server && flag == "--cors-allow-origin"@ {
                if rest.len() == 0 {
                    Err("--cors-allow-origin requires an origin"@)
                } else {
                    read_on(program, rest.drop_first(), (known.0, known.1, Some(rest[0])))
                }
            } else {
                Err("unknown argument: "@ + flag)
            },
        }
    }
}

/// What a program does where no mode is given.
pub open spec fn default_mode(program: Program) -> Mode {
    match program {
        Program::Server => Mode::Serve,
        Program::Standalone => Mode::Tui,
    }
}

/// Reads the command line of a program that chooses among modes.
pub fn parse_args(program: Program, args: &Vec<String>) -> (r: Result<Args, String>)
    ensures
        match (r, read_on(program, text::all(args@), (None, None, None))) {
            (Ok(a), Ok(known)) => {
                &&& a.mode == (if known.0 is Some {
                    known.0->0
                } else {
                    default_mode(program)
                })
                &&& text::opt(a.config_path) == known.1
                &&& text::opt(a.cors_allow_origin) == known.2
            },
            (Err(e), Err(words)) => e@ == words,
            _ => false,
        },
{
    let mut mode: Option<Mode> = None;
    let mut config_path: Option<String> = None;
    let mut cors_allow_origin: Option<String> = None;
    let mut i: usize = 0;
    let ghost given = text::all(args@);
    assert(given.skip(0) =~= given);
    while i < args.len()
        invariant
            i <= args.len(),
            given == text::all(args@),
            read_on(
                program,
                given.skip(i as int),
                (mode, text::opt(config_path), text::opt(cors_allow_origin)),
            ) == read_on(program, given, (None, None, None)),
        decreases args.len() - i,
    {
        let flag = args[i].as_str();
        assert(given.skip(i as int).drop_first() =~= given.skip(i + 1));
        match read_mode(program, flag) {
            Some(m) => {
                match mode {
                    Some(prev) => {
                        if prev != m {
                            return Err("only one mode may be given".to_owned());
                        }
                    },
                    None => {},
                }
                mode = Some(m);
                i = i + 1;
            },
            None => {
                let is_config = text::same(flag, "--config");
                let is_origin = program == Program::Server && text::same(
                    flag,
                    "--cors-allow-origin",
                );
                if !is_config && !is_origin {
                    return Err(text::concat("unknown argument: ", flag));
                }
                if i + 1 >= args.len() {
                    if is_config {
                        return Err("--config requires a path".to_owned());
                    } else {
                        return Err("--cors-allow-origin requires an origin".to_owned());
                    }
                }
                let value = args[i + 1].clone();
                assert(given.skip(i + 1).drop_first() =~= given.skip(i + 2));
                if is_config {
                    config_path = Some(value);
                } else {
                    cors_allow_origin = Some(value);
                }
                i = i + 2;
            },
        }
    }
    let mode = match mode {
        Some(m) => m,
        None => match program {
            Program::Server => Mode::Serve,
            Program::Standalone => Mode::Tui,
        },
    };
    Ok(Args { mode, config_path, cors_allow_origin })
}

/// What the radar's command line asks.
#[derive(Debug)]
pub struct TuiArgs {
    pub server: Option<String>,
    pub config_path: Option<String>,
    pub help: bool,
}

/// What is known of the radar's command line so far: server, path and whether help is asked.
pub type TuiKnown = (Option<Seq<char>>, Option<Seq<char>>, bool);

/// What the radar's command line asks, read on from what is known so far.
pub open spec fn tui_read_on(args: Seq<Seq<char>>, known: TuiKnown) -> Result<TuiKnown, Seq<char>>
    decreases args.len(),
{
    if args.len() == 0 {
        Ok(known)
    } else {
        let flag = args[0];
        let rest = args.drop_first();
        if flag == "-h"@ || flag == "--help"@ {
            tui_read_on(rest, (known.0, known.1, true))
        } else if flag == "--server"@ {
            if rest.len() == 0 {
                Err("--server requires a URL"@)
            } else {
                tui_read_on(rest.drop_first(), (Some(rest[0]), known.1, known.2))
            }
        } else if flag == "--config"@ {
            if rest.len() == 0 {
                Err("--config requires a path"@)
            } else {
                tui_read_on(rest.drop_first(), (known.0, Some(rest[0]), known.2))
            }
        } else {
            Err("unknown argument: "@ + flag)
        }
    }
}

/// Reads the radar's command line.
pub fn parse_tui_args(args: &Vec<String>) -> (r: Result<TuiArgs, String>)
    ensures
        match (r, tui_read_on(text::all(args@), (None, None, false))) {
            (Ok(a), Ok(known)) => text::opt(a.server) == known.0 && text::opt(a.config_path)
                == known.1 && a.help == known.2,
            (Err(e), Err(words)) => e@ == words,
            _ => false,
        },
{
    let mut server: Option<String> = None;
    let mut config_path: Option<String> = None;
    let mut help = false;
    let mut i: usize = 0;
    let ghost given = text::all(args@);
    assert(given.skip(0) =~= given);
    while i < args.len()
        invariant
            i <= args.len(),
            given == text::all(args@),
            tui_read_on(
                given.skip(i as int),
                (text::opt(server), text::opt(config_path), help),
            ) == tui_read_on(given, (None, None, false)),
        decreases args.len() - i,
    {
        let flag = args[i].as_str();
        assert(given.skip(i as int).drop_first() =~= given.skip(i + 1));
        if text::same(flag, "-h") || text::same(flag, "--help") {
            help = true;
            i = i + 1;
        } else {
            let is_server = text::same(flag, "--server");
            let is_config = text::same(flag, "--config");
            if !is_server && !is_config {
                return Err(text::concat("unknown argument: ", flag));
            }
            if i + 1 >= args.len() {
                if is_server {
                    return Err("--server requires a URL".to_owned());
                } else {
                    return Err("--config requires a path".to_owned());
                }
            }
            let value = args[i + 1].clone();
            assert(given.skip(i + 1).drop_first() =~= given.skip(i + 2));
            if is_server {
                server = Some(value);
            } else {
                config_path = Some(value);
            }
            i = i + 2;
        }
    }
    Ok(TuiArgs { server, config_path, help })
}

/// An argument, with the number it reads as and that number's shortest text.
#[derive(Debug)]
pub struct Word {
    pub text: String,
    pub number: Option<Number>,
    pub number_text: String,
}

/// What the status module's command line asks.
#[derive(Debug)]
pub struct WaybarArgs {
    pub server: Option<String>,
    pub display_range: Option<Number>,
    pub config_path: Option<String>,
    pub help: bool,
}

/// What is known of the status module's command line so far: server, range, path and whether
/// help is asked.
pub type WaybarKnown = (Option<Seq<char>>, Option<Number>, Option<Seq<char>>, bool);

/// Why an argument is no number, given the argument in quotes.
pub open spec fn no_number(quoted: Seq<char>) -> Seq<char> {
    "--display-range expects a number, got "@ + quoted
}

/// Why an argument is no number, given the argument in quotes.
pub fn no_number_text(quoted: &str) -> (r: String)
    ensures
        r@ == no_number(quoted@),
{
    text::concat("--display-range expects a number, got ", quoted)
}

/// What the status module's command line asks, read on from what is known so far. The range
/// has to be a number, finite and above zero.
pub open spec fn waybar_read_on(args: Seq<Word>, known: WaybarKnown) -> Result<
    WaybarKnown,
    Seq<char>,
>
    decreases args.len(),
{
    if args.len() == 0 {
        Ok(known)
    } else {
        let flag = args[0].text@;
        let rest = args.drop_first();
        if flag == "-h"@ || flag == "--help"@ {
            waybar_read_on(rest, (known.0, known.1, known.2, true))
        } else if flag == "--server"@ {
            if rest.len() == 0 {
                Err("--server requires a URL"@)
            } else {
                waybar_read_on(
                    rest.drop_first(),
                    (Some(rest[0].text@), known.1, known.2, known.3),
                )
            }
        } else if flag == "--display-range"@ {
            if rest.len() == 0 {
                Err("--display-range requires a distance in nm"@)
            } else {
                match rest[0].number {
                    None => Err(no_number(text::debug_text(rest[0].text@))),
                    Some(nm) => if nm.finite() && nm.above_int(0) {
                        waybar_read_on(rest.drop_first(), (known.0, Some(nm), known.2, known.3))
                    } else {
                        Err("--display-range must be a positive distance, got "@ + rest[0].number_text@)
                    },
                }
            }
        } else if flag == "--config"@ {
            if rest.len() == 0 {
                Err("--config requires a path"@)
            } else {
                waybar_read_on(
                    rest.drop_first(),
                    (known.0, known.1, Some(rest[0].text@), known.3),
                )
            }
        } else {
            Err("unknown argument: "@ + flag)
        }
    }
}

/// Reads the status module's command line.
pub fn parse_waybar_args(args: &Vec<Word>) -> (r: Result<WaybarArgs, String>)
    ensures
        match (r, waybar_read_on(args@, (None, None, None, false))) {
            (Ok(a), Ok(known)) => text::opt(a.server) == known.0 && a.display_range == known.1
                && text::opt(a.config_path) == known.2 && a.help == known.3,
            (Err(e), Err(words)) => e@ == words,
            _ => false,
        },
{
    let mut server: Option<String> = None;
    let mut display_range: Option<Number> = None;
    let mut config_path: Option<String> = None;
    let mut help = false;
    let mut i: usize = 0;
    assert(args@.skip(0) =~= args@);
    while i < args.len()
        invariant
            i <= args.len(),
            waybar_read_on(
                args@.skip(i as int),
                (text::opt(server), display_range, text::opt(config_path), help),
            ) == waybar_read_on(args@, (None, None, None, false)),
        decreases args.len() - i,
    {
        let flag = args[i].text.as_str();
        assert(args@.skip(i as int).drop_first() =~= args@.skip(i + 1));
        if text::same(flag, "-h") || text::same(flag, "--help") {
            help = true;
            i = i + 1;
        } else {
            let is_server = text::same(flag, "--server");
            let is_range = text::same(flag, "--display-range");
            let is_config = text::same(flag, "--config");
            if !is_server && !is_range && !is_config {
                return Err(text::concat("unknown argument: ", flag));
            }
            if i + 1 >= args.len() {
                if is_server {
                    return Err("--server requires a URL".to_owned());
                } else if is_range {
                    return Err("--display-range requires a distance in nm".to_owned());
                } else {
                    return Err("--config requires a path".to_owned());
                }
            }
            let value = &args[i + 1];
            assert(args@.skip(i + 1).drop_first() =~= args@.skip(i + 2));
            if is_server {
                server = Some(value.text.clone());
            } else if is_range {
                match value.number {
                    None => {
                        return Err(no_number_text(text::quoted(value.text.as_str()).as_str()));
                    },
                    Some(nm) => {
                        if !(nm.is_finite() && nm.is_above_int(0)) {
                            return Err(
                                text::concat(
                                    "--display-range must be a positive distance, got ",
                                    value.number_text.as_str(),
                                ),
                            );
                        }
                        display_range = Some(nm);
                    },
                }
            } else {
                config_path = Some(value.text.clone());
            }
            i = i + 2;
        }
    }
    Ok(WaybarArgs { server, display_range, config_path, help })
}

/// Each flag has its own mode: serving is the server's, the two radars are the standalone's, and
/// the rest is common to both; what is none of them is no mode.
pub proof fn law_each_flag_has_its_mode(program: Program, flag: Seq<char>)
    ensures
        mode_of(Program::Server, "--serve"@) == Some(Mode::Serve),
        mode_of(Program::Standalone, "--serve"@) is None,
        mode_of(Program::Standalone, "--tui"@) == Some(Mode::Tui),
        mode_of(Program::Standalone, "--headless"@) == Some(Mode::Headless),
        mode_of(Program::Server, "--tui"@) is None,
        mode_of(Program::Server, "--headless"@) is None,
        mode_of(program, "--once"@) == Some(Mode::Once),
        mode_of(program, "--print-config"@) == Some(Mode::PrintConfig),
        mode_of(program, "-h"@) == Some(Mode::Help),
        mode_of(program, "--help"@) == Some(Mode::Help),
        mode_of(program, "--config"@) is None,
        mode_of(program, "--cors-allow-origin"@) is None,
        flag.len() == 0 || flag[0] != '-' ==> mode_of(program, flag) is None,
        default_mode(Program::Server) == Mode::Serve,
        default_mode(Program::Standalone) == Mode::Tui,
{
    reveal_strlit("--serve");
    reveal_strlit("--tui");
    reveal_strlit("--headless");
    reveal_strlit("--once");
    reveal_strlit("--print-config");
    reveal_strlit("-h");
    reveal_strlit("--help");
    reveal_strlit("--config");
    reveal_strlit("--cors-allow-origin");
    assert("--serve"@.len() == 7 && "--serve"@[2] == 's');
    assert("--tui"@.len() == 5 && "--tui"@[2] == 't');
    assert("--headless"@.len() == 10 && "--headless"@[2] == 'h');
    assert("--once"@.len() == 6 && "--once"@[2] == 'o');
    assert("--print-config"@.len() == 14 && "--print-config"@[2] == 'p');
    assert("-h"@.len() == 2 && "-h"@[1] == 'h');
    assert("--help"@.len() == 6 && "--help"@[2] == 'h');
    assert("--config"@.len() == 8 && "--config"@[2] == 'c');
    assert("--cors-allow-origin"@.len() == 19 && "--cors-allow-origin"@[2] == 'c');
    assert("--config"@[3] == 'o' && "--headless"@[3] == 'e');
    assert("--serve"@[0] == '-' && "--tui"@[0] == '-' && "--headless"@[0] == '-');
    assert("--once"@[0] == '-' && "--print-config"@[0] == '-' && "-h"@[0] == '-');
    assert("--help"@[0] == '-');
}

/// A mode may be given again but not another one: the first that differs ends the reading.
pub proof fn law_modes_do_not_mix(program: Program, flag: Seq<char>, rest: Seq<Seq<char>>, known: Known)
    requires
        mode_of(program, flag) is Some,
    ensures
        known.0 is None || known.0 == mode_of(program, flag) ==> read_on(
            program,
            seq![flag] + rest,
            known,
        ) == read_on(program, rest, (mode_of(program, flag), known.1, known.2)),
        known.0 is Some && known.0 != mode_of(program, flag) ==> read_on(
            program,
            seq![flag] + rest,
            known,
        ) == Err::<Known, Seq<char>>("only one mode may be given"@),
{
    assert((seq![flag] + rest).drop_first() =~= rest);
}

/// A path is taken with the flag in front of it, in place of any that came before; the same
/// holds of an origin, which is the server's alone. A flag at the end has nothing to take.
pub proof fn law_last_value_counts(
    program: Program,
    value: Seq<char>,
    rest: Seq<Seq<char>>,
    known: Known,
)
    ensures
        read_on(program, seq!["--config"@, value] + rest, known) == read_on(
            program,
            rest,
            (known.0, Some(value), known.2),
        ),
        read_on(Program::Server, seq!["--cors-allow-origin"@, value] + rest, known) == read_on(
            Program::Server,
            rest,
            (known.0, known.1, Some(value)),
        ),
        read_on(program, seq!["--config"@], known) == Err::<Known, Seq<char>>(
            "--config requires a path"@,
        ),
        read_on(Program::Server, seq!["--cors-allow-origin"@], known) == Err::<Known, Seq<char>>(
            "--cors-allow-origin requires an origin"@,
        ),
{
    law_each_flag_has_its_mode(program, value);
    law_each_flag_has_its_mode(Program::Server, value);
    reveal_strlit("--config");
    reveal_strlit("--cors-allow-origin");
    let a = seq!["--config"@, value] + rest;
    assert(a.drop_first().drop_first() =~= rest);
    let b = seq!["--cors-allow-origin"@, value] + rest;
    assert(b.drop_first().drop_first() =~= rest);
    assert("--config"@.len() == 8 && "--cors-allow-origin"@.len() == 19);
}

/// What is neither a mode nor takes a value is unknown, and named as it was given.
pub proof fn law_anything_else_is_unknown(
    program: Program,
    word: Seq<char>,
    rest: Seq<Seq<char>>,
    known: Known,
)
    requires
        mode_of(program, word) is None,
        word != "--config"@,
        program == Program::Server ==> word != "--cors-allow-origin"@,
    ensures
        read_on(program, seq![word] + rest, known) == Err::<Known, Seq<char>>(
            "unknown argument: "@ + word,
        ),
        read_on(program, Seq::empty(), known) == Ok::<Known, Seq<char>>(known),
{
}

/// The radar takes a server and a path, of each the last, and notes that help is asked wherever
/// it is; what is none of these is unknown, and a flag at the end has nothing to take.
pub proof fn law_radar_arguments(value: Seq<char>, rest: Seq<Seq<char>>, known: TuiKnown)
    ensures
        tui_read_on(seq!["--server"@, value] + rest, known) == tui_read_on(
            rest,
            (Some(value), known.1, known.2),
        ),
        tui_read_on(seq!["--config"@, value] + rest, known) == tui_read_on(
            rest,
            (known.0, Some(value), known.2),
        ),
        tui_read_on(seq!["-h"@] + rest, known) == tui_read_on(rest, (known.0, known.1, true)),
        tui_read_on(seq!["--help"@] + rest, known) == tui_read_on(rest, (known.0, known.1, true)),
        tui_read_on(seq!["--server"@], known) == Err::<TuiKnown, Seq<char>>(
            "--server requires a URL"@,
        ),
        tui_read_on(seq!["--config"@], known) == Err::<TuiKnown, Seq<char>>(
            "--config requires a path"@,
        ),
        value != "-h"@ && value != "--help"@ && value != "--server"@ && value != "--config"@
            ==> tui_read_on(seq![value] + rest, known) == Err::<TuiKnown, Seq<char>>(
            "unknown argument: "@ + value,
        ),
        tui_read_on(Seq::empty(), known) == Ok::<TuiKnown, Seq<char>>(known),
{
    reveal_strlit("-h");
    reveal_strlit("--help");
    reveal_strlit("--server");
    reveal_strlit("--config");
    assert("-h"@.len() == 2 && "--help"@.len() == 6 && "--server"@.len() == 8);
    assert("--config"@.len() == 8 && "--config"@[2] == 'c' && "--server"@[2] == 's');
    let a = seq!["--server"@, value] + rest;
    assert(a.drop_first().drop_first() =~= rest);
    let b = seq!["--config"@, value] + rest;
    assert(b.drop_first().drop_first() =~= rest);
    assert((seq!["-h"@] + rest).drop_first() =~= rest);
    assert((seq!["--help"@] + rest).drop_first() =~= rest);
}

/// The status module takes a display range that is a number above zero, and refuses any other in
/// its own words; a server and a path are taken as they are.
pub proof fn law_status_module_arguments(
    flag: Word,
    value: Word,
    rest: Seq<Word>,
    known: WaybarKnown,
)
    ensures
        ({
            let after = waybar_read_on(seq![flag, value] + rest, known);
            &&& flag.text@ == "--server"@ ==> after == waybar_read_on(
                rest,
                (Some(value.text@), known.1, known.2, known.3),
            )
            &&& flag.text@ == "--config"@ ==> after == waybar_read_on(
                rest,
                (known.0, known.1, Some(value.text@), known.3),
            )
            &&& flag.text@ == "--display-range"@ && value.number is Some && value.number->0.finite()
                && value.number->0.units() > 0 ==> after == waybar_read_on(
                rest,
                (known.0, value.number, known.2, known.3),
            )
            &&& flag.text@ == "--display-range"@ && value.number is Some
                && !(value.number->0.finite() && value.number->0.units() > 0) ==> after == Err::<
                WaybarKnown,
                Seq<char>,
            >("--display-range must be a positive distance, got "@ + value.number_text@)
            &&& flag.text@ == "--display-range"@ && value.number is None ==> after == Err::<
                WaybarKnown,
                Seq<char>,
            >("--display-range expects a number, got "@ + text::debug_text(value.text@))
            &&& flag.text@ == "-h"@ || flag.text@ == "--help"@ ==> after == waybar_read_on(
                seq![value] + rest,
                (known.0, known.1, known.2, true),
            )
            &&& flag.text@ != "-h"@ && flag.text@ != "--help"@ && flag.text@ != "--server"@
                && flag.text@ != "--display-range"@ && flag.text@ != "--config"@ ==> after
                == Err::<WaybarKnown, Seq<char>>("unknown argument: "@ + flag.text@)
        }),
        flag.text@ == "--server"@ ==> waybar_read_on(seq![flag], known) == Err::<
            WaybarKnown,
            Seq<char>,
        >("--server requires a URL"@),
        flag.text@ == "--display-range"@ ==> waybar_read_on(seq![flag], known) == Err::<
            WaybarKnown,
            Seq<char>,
        >("--display-range requires a distance in nm"@),
        flag.text@ == "--config"@ ==> waybar_read_on(seq![flag], known) == Err::<
            WaybarKnown,
            Seq<char>,
        >("--config requires a path"@),
        waybar_read_on(Seq::empty(), known) == Ok::<WaybarKnown, Seq<char>>(known),
{
    reveal_strlit("-h");
    reveal_strlit("--help");
    reveal_strlit("--server");
    reveal_strlit("--config");
    reveal_strlit("--display-range");
    assert("-h"@.len() == 2 && "--help"@.len() == 6 && "--server"@.len() == 8);
    assert("--config"@.len() == 8 && "--config"@[2] == 'c' && "--server"@[2] == 's');
    assert("--display-range"@.len() == 15);
    assert(0 * crate::number::one() == 0) by (nonlinear_arith);
    let a = seq![flag, value] + rest;
    assert(a.drop_first() =~= seq![value] + rest);
    assert(a.drop_first().drop_first() =~= rest);
    assert(a.drop_first()[0] == value);
}

} // verus!
