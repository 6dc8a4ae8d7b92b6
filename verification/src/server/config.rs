//! Server configuration.

use vstd::prelude::*;

use crate::input::descriptor::TabletDescriptor;
use crate::text::{number_in, parse_number, same_text, trim, trimmed};

verus! {

/// Server configuration options.
#[derive(Debug, Clone, PartialEq, Eq)]
pub struct ServerConfig {
    /// UDP port to listen on.
    pub port: u16,
    /// Target frame rate.
    pub fps: u32,
    /// Target bitrate in kbps.
    pub bitrate: u32,
    /// Keyframe interval in frames.
    pub keyframe_interval: u32,
    /// Manually selected output screen for touch mapping (optional).
    pub output_name: Option<String>,
    /// Selected tablet descriptor for emulation.
    pub tablet: TabletDescriptor,
}

/// The numbers of a configuration.
#[derive(Debug, Clone, Copy, PartialEq, Eq, Structural)]
pub struct Numbers {
    pub port: u16,
    pub fps: u32,
    pub bitrate: u32,
    pub keyframe_interval: u32,
}

impl ServerConfig {
    /// The numbers of the configuration.
    pub open spec fn numbers(&self) -> Numbers {
        Numbers {
            port: self.port,
            fps: self.fps,
            bitrate: self.bitrate,
            keyframe_interval: self.keyframe_interval,
        }
    }

    /// No output is selected, and the tablet is the usual one.
    pub open spec fn is_plain(&self) -> bool {
        &&& self.output_name is None
        &&& self.tablet.name@ == "Drawing Tablet Pen"@
        &&& self.tablet.vid == 0
        &&& self.tablet.pid == 0
    }
}

/// The numbers without any arguments.
pub open spec fn default_numbers() -> Numbers {
    Numbers { port: 9999, fps: 100, bitrate: 8000, keyframe_interval: 10 }
}

fn with_numbers(numbers: Numbers) -> (config: ServerConfig)
    ensures
        config.numbers() == numbers,
        config.is_plain(),
{
    ServerConfig {
        port: numbers.port,
        fps: numbers.fps,
        bitrate: numbers.bitrate,
        keyframe_interval: numbers.keyframe_interval,
        output_name: None,
        tablet: TabletDescriptor::default(),
    }
}

impl Default for ServerConfig {
    fn default() -> (config: Self)
        ensures
            config.numbers() == default_numbers(),
            config.is_plain(),
    {
        with_numbers(Numbers { port: 9999, fps: 100, bitrate: 8000, keyframe_interval: 10 })
    }
}

/// A 16-bit number that a text denotes, or else the given one.
pub open spec fn u16_or(text: Seq<char>, otherwise: u16) -> u16 {
    match number_in(text, 0xffff) {
        Some(n) => n as u16,
        None => otherwise,
    }
}

/// A 32-bit number that a text denotes, or else the given one.
pub open spec fn u32_or(text: Seq<char>, otherwise: u32) -> u32 {
    match number_in(text, 0xffff_ffff) {
        Some(n) => n as u32,
        None => otherwise,
    }
}

fn read_u16(text: &str, otherwise: u16) -> (number: u16)
    ensures
        number == u16_or(text@, otherwise),
{
    match parse_number(text, 0xffff) {
        Some(n) => n as u16,
        None => otherwise,
    }
}

fn read_u32(text: &str, otherwise: u32) -> (number: u32)
    ensures
        number == u32_or(text@, otherwise),
{
    match parse_number(text, 0xffff_ffff) {
        Some(n) => n,
        None => otherwise,
    }
}

/// What an argument is.
#[derive(Debug, Clone, Copy, PartialEq, Eq, Structural)]
pub enum Flag {
    Port,
    Fps,
    Bitrate,
    KeyframeInterval,
    Help,
    Unknown,
}

/// What an argument is.
pub open spec fn flag_of(arg: Seq<char>) -> Flag {
    if arg == "-p"@ || arg == "--port"@ {
        Flag::Port
    } else if arg == "-f"@ || arg == "--fps"@ {
        Flag::Fps
    } else if arg == "-b"@ || arg == "--bitrate"@ {
        Flag::Bitrate
    } else if arg == "-k"@ || arg == "--keyframe-interval"@ {
        Flag::KeyframeInterval
    } else if arg == "-h"@ || arg == "--help"@ {
        Flag::Help
    } else {
        Flag::Unknown
    }
}

fn read_flag(arg: &str) -> (flag: Flag)
    ensures
        flag == flag_of(arg@),
{
    if same_text(arg, "-p") || same_text(arg, "--port") {
        Flag::Port
    } else if same_text(arg, "-f") || same_text(arg, "--fps") {
        Flag::Fps
    } else if same_text(arg, "-b") || same_text(arg, "--bitrate") {
        Flag::Bitrate
    } else if same_text(arg, "-k") || same_text(arg, "--keyframe-interval") {
        Flag::KeyframeInterval
    } else if same_text(arg, "-h") || same_text(arg, "--help") {
        Flag::Help
    } else {
        Flag::Unknown
    }
}

/// Whether an argument takes the next one as its value.
pub open spec fn takes_value(flag: Flag) -> bool {
    flag == Flag::Port || flag == Flag::Fps || flag == Flag::Bitrate || flag
        == Flag::KeyframeInterval
}

/// The numbers with a value given to one of them. A value that is no number
/// changes nothing.
pub open spec fn with_value(numbers: Numbers, flag: Flag, value: Seq<char>) -> Numbers {
    match flag {
        Flag::Port => Numbers { port: u16_or(value, numbers.port), ..numbers },
        Flag::Fps => Numbers { fps: u32_or(value, numbers.fps), ..numbers },
        Flag::Bitrate => Numbers { bitrate: u32_or(value, numbers.bitrate), ..numbers },
        Flag::KeyframeInterval => Numbers {
            keyframe_interval: u32_or(value, numbers.keyframe_interval),
            ..numbers
        },
        _ => numbers,
    }
}

/// The numbers that the arguments give, or nothing if they ask for help. A
/// flag without a value at the end and anything unknown are passed over.
pub open spec fn from_arguments(numbers: Numbers, args: Seq<Seq<char>>) -> Option<Numbers>
    decreases args.len(),
{
    if args.len() == 0 {
        Some(numbers)
    } else {
        let flag = flag_of(args[0]);
        if flag == Flag::Help {
            None
        } else if takes_value(flag) && args.len() > 1 {
            from_arguments(with_value(numbers, flag, args[1]), args.skip(2))
        } else {
            from_arguments(numbers, args.skip(1))
        }
    }
}

/// What the environment says of the configuration.
#[derive(Debug, Clone, PartialEq, Eq)]
pub struct Overrides {
    /// `DT_PORT`.
    pub port: Option<String>,
    /// `DT_FPS`.
    pub fps: Option<String>,
    /// `DT_BITRATE`.
    pub bitrate: Option<String>,
}

/// The numbers with what the environment says of them.
pub open spec fn overridden(numbers: Numbers, overrides: Overrides) -> Numbers {
    Numbers {
        port: match overrides.port {
            Some(text) => u16_or(text@, numbers.port),
            None => numbers.port,
        },
        fps: match overrides.fps {
            Some(text) => u32_or(text@, numbers.fps),
            None => numbers.fps,
        },
        bitrate: match overrides.bitrate {
            Some(text) => u32_or(text@, numbers.bitrate),
            None => numbers.bitrate,
        },
        keyframe_interval: numbers.keyframe_interval,
    }
}

/// The arguments behind the name of the program.
pub open spec fn behind_name(args: Seq<String>) -> Seq<Seq<char>> {
    if args.len() == 0 {
        Seq::empty()
    } else {
        args.skip(1).map_values(|arg: String| arg@)
    }
}

impl ServerConfig {
    /// Parse configuration from command line arguments, of which the first is
    /// the name of the program, and environment. There is none if help is
    /// asked for.
    pub fn from_args(args: &Vec<String>, overrides: &Overrides) -> (config: Option<ServerConfig>)
        ensures
            match config {
                Some(config) => {
                    &&& config.is_plain()
                    &&& from_arguments(default_numbers(), behind_name(args@)) matches Some(numbers)
                    &&& config.numbers() == overridden(numbers, *overrides)
                },
                None => from_arguments(default_numbers(), behind_name(args@)) is None,
            },
    {
        let mut config: ServerConfig = ServerConfig::default();
        let ghost all = behind_name(args@);
        let mut i: usize = 1;
        proof {
            if args@.len() > 0 {
                assert(all.skip(0) =~= all);
            }
        }
        while i < args.len()
            invariant
                1 <= i,
                all == behind_name(args@),
                i <= args@.len() || args@.len() == 0,
                config.is_plain(),
                args@.len() > 0 ==> from_arguments(default_numbers(), all) == from_arguments(
                    config.numbers(),
                    all.skip(i - 1),
                ),
                args@.len() == 0 ==> config.numbers() == default_numbers(),
            decreases args@.len() - i,
        {
            let flag: Flag = read_flag(&args[i]);
            let ghost rest = all.skip(i - 1);
            assert(rest[0] == args@[i as int]@);
            assert(rest.skip(1) =~= all.skip(i as int));
            match flag {
                Flag::Help => return None,
                Flag::Unknown => {},
                _ => {
                    if args.len() - i > 1 {
                        assert(rest[1] == args@[i + 1]@);
                        assert(rest.skip(2) =~= all.skip(i + 1));
                        let value: &str = &args[i + 1];
                        match flag {
                            Flag::Port => config.port = read_u16(value, config.port),
                            Flag::Fps => config.fps = read_u32(value, config.fps),
                            Flag::Bitrate => config.bitrate = read_u32(value, config.bitrate),
                            _ => config.keyframe_interval = read_u32(
                                value,
                                config.keyframe_interval,
                            ),
                        }
                        i = i + 1;
                    }
                },
            }
            i = i + 1;
        }
        proof {
            if args@.len() > 0 {
                assert(all.skip(i - 1).len() == 0);
            }
        }
        if let Some(port) = &overrides.port {
            config.port = read_u16(port, config.port);
        }
        if let Some(fps) = &overrides.fps {
            config.fps = read_u32(fps, config.fps);
        }
        if let Some(bitrate) = &overrides.bitrate {
            config.bitrate = read_u32(bitrate, config.bitrate);
        }
        Some(config)
    }

    /// The configuration that is typed in. What is no number is replaced, and
    /// what is too small is raised.
    pub fn from_inputs(port: &str, fps: &str, bitrate: &str, keyframe_interval: &str) -> (config:
        ServerConfig)
        ensures
            config.is_plain(),
            config.numbers() == typed_in(port@, fps@, bitrate@, keyframe_interval@),
    {
        let numbers = Numbers {
            port: read_u16(trim(port), 9999),
            fps: at_least(read_u32(trim(fps), 100), 1),
            bitrate: at_least(read_u32(trim(bitrate), 50000), 1000),
            keyframe_interval: at_least(read_u32(trim(keyframe_interval), 2), 1),
        };
        with_numbers(numbers)
    }
}

fn at_least(n: u32, least: u32) -> (raised: u32)
    ensures
        raised == raised_to(n, least),
{
    if n < least {
        least
    } else {
        n
    }
}

/// A number, or the least one if it is smaller.
pub open spec fn raised_to(n: u32, least: u32) -> u32 {
    if n < least {
        least
    } else {
        n
    }
}

/// The numbers that are typed in, without the white space around them.
pub open spec fn typed_in(
    port: Seq<char>,
    fps: Seq<char>,
    bitrate: Seq<char>,
    keyframe_interval: Seq<char>,
) -> Numbers {
    Numbers {
        port: u16_or(trimmed(port), 9999),
        fps: raised_to(u32_or(trimmed(fps), 100), 1),
        bitrate: raised_to(u32_or(trimmed(bitrate), 50000), 1000),
        keyframe_interval: raised_to(u32_or(trimmed(keyframe_interval), 2), 1),
    }
}

/// Whatever is typed in, there is at least one frame per second and one frame
/// between keyframes, and the bitrate is at least a megabit per second.
pub proof fn typed_in_is_usable(
    port: Seq<char>,
    fps: Seq<char>,
    bitrate: Seq<char>,
    keyframe_interval: Seq<char>,
)
    ensures
        typed_in(port, fps, bitrate, keyframe_interval).fps >= 1,
        typed_in(port, fps, bitrate, keyframe_interval).keyframe_interval >= 1,
        typed_in(port, fps, bitrate, keyframe_interval).bitrate >= 1000,
{
}

/// A later argument wins: of two values for the same number, both of them
/// numbers, the second one counts.
pub proof fn last_value_counts(numbers: Numbers, flag: Flag, first: Seq<char>, second: Seq<char>)
    requires
        number_in(second, 0xffff) is Some,
        number_in(second, 0xffff_ffff) is Some,
    ensures
        with_value(with_value(numbers, flag, first), flag, second) == with_value(
            numbers,
            flag,
            second,
        ),
{
}

/// What the environment says counts for more than any argument.
pub proof fn environment_wins(numbers: Numbers, others: Numbers, overrides: Overrides)
    requires
        overrides.port matches Some(text) && number_in(text@, 0xffff) is Some,
        overrides.fps matches Some(text) && number_in(text@, 0xffff_ffff) is Some,
        overrides.bitrate matches Some(text) && number_in(text@, 0xffff_ffff) is Some,
        numbers.keyframe_interval == others.keyframe_interval,
    ensures
        overridden(numbers, overrides) == overridden(others, overrides),
{
}

// ---------------------------------------------------------------------------
// Laws of arguments
// ---------------------------------------------------------------------------

proof fn lemma_flags_differ(arg: Seq<char>)
    ensures
        arg == "-p"@ || arg == "--port"@ ==> flag_of(arg) == Flag::Port,
        arg == "-f"@ || arg == "--fps"@ ==> flag_of(arg) == Flag::Fps,
        arg == "-b"@ || arg == "--bitrate"@ ==> flag_of(arg) == Flag::Bitrate,
        arg == "-k"@ || arg == "--keyframe-interval"@ ==> flag_of(arg) == Flag::KeyframeInterval,
        arg == "-h"@ || arg == "--help"@ ==> flag_of(arg) == Flag::Help,
{
    reveal_strlit("-p");
    reveal_strlit("--port");
    reveal_strlit("-f");
    reveal_strlit("--fps");
    reveal_strlit("-b");
    reveal_strlit("--bitrate");
    reveal_strlit("-k");
    reveal_strlit("--keyframe-interval");
    reveal_strlit("-h");
    reveal_strlit("--help");
    if arg == "--port"@ || arg == "--fps"@ || arg == "--bitrate"@ || arg == "--keyframe-interval"@
        || arg == "--help"@ {
        assert(arg[2] != ' ');
    }
    if arg == "-p"@ || arg == "-f"@ || arg == "-b"@ || arg == "-k"@ || arg == "-h"@ {
        assert(arg[1] != ' ');
    }
}

/// An argument that names a number takes the next one as its value: the number is
/// set to that, if it is one that fits, and keeps what it had otherwise. Nothing
/// else changes, and the arguments behind them follow. `-p` and `--port` name the
/// port, `-f` and `--fps` the frame rate, `-b` and `--bitrate` the bitrate, `-k`
/// and `--keyframe-interval` the keyframe interval.
pub proof fn arguments_set_numbers(
    numbers: Numbers,
    name: Seq<char>,
    value: Seq<char>,
    rest: Seq<Seq<char>>,
)
    ensures
        ({
            let args = seq![name, value] + rest;
            let short = number_in(value, 65535);
            let long = number_in(value, 4294967295);
            &&& name == "-p"@ || name == "--port"@ ==> from_arguments(numbers, args)
                == from_arguments(
                Numbers {
                    port: if short is Some {
                        short->Some_0 as u16
                    } else {
                        numbers.port
                    },
                    ..numbers
                },
                rest,
            )
            &&& name == "-f"@ || name == "--fps"@ ==> from_arguments(numbers, args)
                == from_arguments(
                Numbers {
                    fps: if long is Some {
                        long->Some_0 as u32
                    } else {
                        numbers.fps
                    },
                    ..numbers
                },
                rest,
            )
            &&& name == "-b"@ || name == "--bitrate"@ ==> from_arguments(numbers, args)
                == from_arguments(
                Numbers {
                    bitrate: if long is Some {
                        long->Some_0 as u32
                    } else {
                        numbers.bitrate
                    },
                    ..numbers
                },
                rest,
            )
            &&& name == "-k"@ || name == "--keyframe-interval"@ ==> from_arguments(numbers, args)
                == from_arguments(
                Numbers {
                    keyframe_interval: if long is Some {
                        long->Some_0 as u32
                    } else {
                        numbers.keyframe_interval
                    },
                    ..numbers
                },
                rest,
            )
        }),
{
    let args = seq![name, value] + rest;
    lemma_flags_differ(name);
    assert(args.skip(2) =~= rest);
    assert(args[0] == name && args[1] == value);
}

/// Help is given where it is asked for, whatever follows. An argument that names
/// nothing is passed over, and so is one that names a number at the end. Without
/// arguments, everything stays as it was.
pub proof fn other_arguments_set_nothing(
    numbers: Numbers,
    name: Seq<char>,
    rest: Seq<Seq<char>>,
)
    ensures
        ({
            let known = name == "-p"@ || name == "--port"@ || name == "-f"@ || name == "--fps"@
                || name == "-b"@ || name == "--bitrate"@ || name == "-k"@ || name
                == "--keyframe-interval"@;
            let help = name == "-h"@ || name == "--help"@;
            &&& from_arguments(numbers, Seq::empty()) == Some(numbers)
            &&& help ==> from_arguments(numbers, seq![name] + rest) is None
            &&& !help && !known ==> from_arguments(numbers, seq![name] + rest) == from_arguments(
                numbers,
                rest,
            )
            &&& !help && known ==> from_arguments(numbers, seq![name]) == Some(numbers)
        }),
{
    let args = seq![name] + rest;
    lemma_flags_differ(name);
    assert(args.skip(1) =~= rest);
    assert(args[0] == name);
    let one = seq![name];
    assert(one.skip(1) =~= Seq::<Seq<char>>::empty());
    reveal_with_fuel(from_arguments, 2);
}

/// The name of the program is no argument; all that follows it are arguments.
pub proof fn program_name_is_no_argument(args: Seq<String>, i: int)
    ensures
        args.len() > 0 ==> behind_name(args).len() == args.len() - 1,
        args.len() == 0 ==> behind_name(args).len() == 0,
        0 <= i && i + 1 < args.len() ==> behind_name(args)[i] == args[i + 1]@,
{
}

/// The server listens on port 9999 unless told otherwise, with 100 frames per
/// second at 8000 kilobits per second, and a keyframe every ten frames.
pub proof fn defaults_are_known()
    ensures
        default_numbers().port == 9999,
        default_numbers().fps == 100,
        default_numbers().bitrate == 8000,
        default_numbers().keyframe_interval == 10,
{
}

/// The environment sets the port, the frame rate and the bitrate, each to what it
/// says, if that is a number that fits; each keeps what it had otherwise. It says
/// nothing of the keyframe interval.
pub proof fn environment_sets_numbers(numbers: Numbers, overrides: Overrides)
    ensures
        ({
            let after = overridden(numbers, overrides);
            let port = number_in(overrides.port->Some_0@, 65535);
            let fps = number_in(overrides.fps->Some_0@, 4294967295);
            let bitrate = number_in(overrides.bitrate->Some_0@, 4294967295);
            &&& overrides.port is Some && port is Some ==> after.port == port->Some_0
            &&& overrides.port is None || port is None ==> after.port == numbers.port
            &&& overrides.fps is Some && fps is Some ==> after.fps == fps->Some_0
            &&& overrides.fps is None || fps is None ==> after.fps == numbers.fps
            &&& overrides.bitrate is Some && bitrate is Some ==> after.bitrate == bitrate->Some_0
            &&& overrides.bitrate is None || bitrate is None ==> after.bitrate == numbers.bitrate
            &&& after.keyframe_interval == numbers.keyframe_interval
        }),
{
}

/// What is typed in counts as it is written, without white space around it, where
/// it is a number that fits and is not too small. What is too small is raised to
/// the least that is usable, and what is no number is replaced.
pub proof fn typed_numbers_count(
    port: Seq<char>,
    fps: Seq<char>,
    bitrate: Seq<char>,
    keyframe_interval: Seq<char>,
)
    ensures
        ({
            let numbers = typed_in(port, fps, bitrate, keyframe_interval);
            let p = number_in(trimmed(port), 65535);
            let f = number_in(trimmed(fps), 4294967295);
            let b = number_in(trimmed(bitrate), 4294967295);
            let k = number_in(trimmed(keyframe_interval), 4294967295);
            &&& p is Some ==> numbers.port == p->Some_0
            &&& p is None ==> numbers.port == 9999
            &&& f is Some && f->Some_0 >= 1 ==> numbers.fps == f->Some_0
            &&& f is Some && f->Some_0 < 1 ==> numbers.fps == 1
            &&& f is None ==> numbers.fps == 100
            &&& b is Some && b->Some_0 >= 1000 ==> numbers.bitrate == b->Some_0
            &&& b is Some && b->Some_0 < 1000 ==> numbers.bitrate == 1000
            &&& b is None ==> numbers.bitrate == 50000
            &&& k is Some && k->Some_0 >= 1 ==> numbers.keyframe_interval == k->Some_0
            &&& k is Some && k->Some_0 < 1 ==> numbers.keyframe_interval == 1
            &&& k is None ==> numbers.keyframe_interval == 2
        }),
{
}

} // verus!
