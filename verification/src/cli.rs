//! The engine's command line: which options there are, what they default
//! to, and how their values are read.

use crate::number::{parse_i32, parse_usize, signed_value, unsigned_value};
use crate::options::{
    all_named, declare_flag, declare_value, declared, first_value, is_present, new_options, parse,
    parsed, plain_style, usage, usage_text, value_of, Declaration, Found, OptionFault,
};
use vstd::prelude::*;
use vstd::string::StringExecFns;

verus! {

/// Frames in an audio block, unless `-b` says otherwise.
pub const DEFAULT_BUF_SIZE: usize = 64;

/// Events that the MIDI buffer holds, unless `-B` says otherwise.
pub const DEFAULT_MIDI_BUF_SIZE: usize = 256;

/// Device channel of the left lane, unless `-l` or `-L` says otherwise.
pub const DEFAULT_LEFT: usize = 0;

/// Device channel of the right lane, unless `-r` or `-R` says otherwise.
pub const DEFAULT_RIGHT: usize = 1;

/// Read timeout of the packet capture in milliseconds, unless `-t` says otherwise.
pub const DEFAULT_PING_READ_TIMEOUT: i32 = 0;

/// Everything a run of the engine is configured by.
#[derive(Debug, PartialEq, Eq)]
pub struct RunOptions {
    pub buf_size: usize,
    pub midi_buf_size: usize,
    pub in_channels: usize,
    pub in_left: usize,
    pub in_right: usize,
    pub out_channels: usize,
    pub out_left: usize,
    pub out_right: usize,
    pub ping_interface: Option<String>,
    pub ping_read_timeout: i32,
}

/// What the command line asks for.
#[derive(Debug, PartialEq, Eq)]
pub enum Command {
    /// Print this help text and leave.
    Help(String),
    /// Run the engine.
    Run(RunOptions),
}

/// Why a command line was turned down.
#[derive(Debug, PartialEq, Eq)]
pub enum ConfigError {
    /// The arguments do not fit the options: the fault, and the option concerned.
    Options(OptionFault, String),
    /// The value of the option with this short name is not a number that
    /// fits the setting.
    Number(char),
    /// The larger of the two channels with these short names is so large
    /// that the number of channels to open cannot be represented.
    Channels(char, char),
}

/// The values given on the command line to the options that take one, as text.
#[derive(Debug, PartialEq, Eq)]
pub struct OptionValues {
    pub buf_size: Option<String>,
    pub midi_buf_size: Option<String>,
    pub in_left: Option<String>,
    pub in_right: Option<String>,
    pub out_left: Option<String>,
    pub out_right: Option<String>,
    pub ping_interface: Option<String>,
    pub ping_read_timeout: Option<String>,
}

/// `RunOptions` with its text as a sequence of characters.
pub struct RunOptionsModel {
    pub buf_size: usize,
    pub midi_buf_size: usize,
    pub in_channels: usize,
    pub in_left: usize,
    pub in_right: usize,
    pub out_channels: usize,
    pub out_left: usize,
    pub out_right: usize,
    pub ping_interface: Option<Seq<char>>,
    pub ping_read_timeout: i32,
}

/// `Command` with its text as a sequence of characters.
pub enum CommandModel {
    Help(Seq<char>),
    Run(RunOptionsModel),
}

/// `ConfigError` with its text as a sequence of characters.
pub enum ConfigErrorModel {
    Options(OptionFault, Seq<char>),
    Number(char),
    Channels(char, char),
}

/// `OptionValues` with its texts as sequences of characters.
pub struct OptionTexts {
    pub buf_size: Option<Seq<char>>,
    pub midi_buf_size: Option<Seq<char>>,
    pub in_left: Option<Seq<char>>,
    pub in_right: Option<Seq<char>>,
    pub out_left: Option<Seq<char>>,
    pub out_right: Option<Seq<char>>,
    pub ping_interface: Option<Seq<char>>,
    pub ping_read_timeout: Option<Seq<char>>,
}

impl View for RunOptions {
    type V = RunOptionsModel;

    open spec fn view(&self) -> RunOptionsModel {
        RunOptionsModel {
            buf_size: self.buf_size,
            midi_buf_size: self.midi_buf_size,
            in_channels: self.in_channels,
            in_left: self.in_left,
            in_right: self.in_right,
            out_channels: self.out_channels,
            out_left: self.out_left,
            out_right: self.out_right,
            ping_interface: self.ping_interface.deep_view(),
            ping_read_timeout: self.ping_read_timeout,
        }
    }
}

impl View for Command {
    type V = CommandModel;

    open spec fn view(&self) -> CommandModel {
        match self {
            Command::Help(text) => CommandModel::Help(text@),
            Command::Run(options) => CommandModel::Run(options@),
        }
    }
}

impl View for ConfigError {
    type V = ConfigErrorModel;

    open spec fn view(&self) -> ConfigErrorModel {
        match self {
            ConfigError::Options(fault, name) => ConfigErrorModel::Options(*fault, name@),
            ConfigError::Number(short) => ConfigErrorModel::Number(*short),
            ConfigError::Channels(left, right) => ConfigErrorModel::Channels(*left, *right),
        }
    }
}

impl View for OptionValues {
    type V = OptionTexts;

    open spec fn view(&self) -> OptionTexts {
        OptionTexts {
            buf_size: self.buf_size.deep_view(),
            midi_buf_size: self.midi_buf_size.deep_view(),
            in_left: self.in_left.deep_view(),
            in_right: self.in_right.deep_view(),
            out_left: self.out_left.deep_view(),
            out_right: self.out_right.deep_view(),
            ping_interface: self.ping_interface.deep_view(),
            ping_read_timeout: self.ping_read_timeout.deep_view(),
        }
    }
}

/// The model of a result, side by side.
pub open spec fn model_of<T: View, E: View>(result: Result<T, E>) -> Result<T::V, E::V> {
    match result {
        Ok(value) => Ok(value@),
        Err(error) => Err(error@),
    }
}

/// The setting that an option of a count stands for: `default` where the
/// option was not given, else the number that its text writes. `None`
/// where the text writes no number that fits.
pub open spec fn count_setting(text: Option<Seq<char>>, default: usize) -> Option<usize> {
    match text {
        None => Some(default),
        Some(text) => match unsigned_value(text) {
            Some(value) => if value <= usize::MAX {
                Some(value as usize)
            } else {
                None
            },
            None => None,
        },
    }
}

/// The setting that the option of the read timeout stands for: `default`
/// where the option was not given, else the number that its text writes.
/// `None` where the text writes no number that fits.
pub open spec fn timeout_setting(text: Option<Seq<char>>, default: i32) -> Option<i32> {
    match text {
        None => Some(default),
        Some(text) => match signed_value(text) {
            Some(value) => if i32::MIN <= value <= i32::MAX {
                Some(value as i32)
            } else {
                None
            },
            None => None,
        },
    }
}

/// The number of device channels to open so that both `left` and `right`
/// are among them: one more than the larger. `None` where that number
/// cannot be represented.
pub open spec fn channels_spanning(left: usize, right: usize) -> Option<usize> {
    let top = if left < right {
        right
    } else {
        left
    };
    if top < usize::MAX {
        Some((top + 1) as usize)
    } else {
        None
    }
}

/// The run that `texts` configure, or the first thing wrong with them, in
/// the order: block size, MIDI buffer size, input channels, output
/// channels, read timeout.
pub open spec fn run_options_of(texts: OptionTexts) -> Result<RunOptionsModel, ConfigErrorModel> {
    let buf_size = count_setting(texts.buf_size, DEFAULT_BUF_SIZE);
    let midi_buf_size = count_setting(texts.midi_buf_size, DEFAULT_MIDI_BUF_SIZE);
    let in_left = count_setting(texts.in_left, DEFAULT_LEFT);
    let in_right = count_setting(texts.in_right, DEFAULT_RIGHT);
    let out_left = count_setting(texts.out_left, DEFAULT_LEFT);
    let out_right = count_setting(texts.out_right, DEFAULT_RIGHT);
    let ping_read_timeout = timeout_setting(texts.ping_read_timeout, DEFAULT_PING_READ_TIMEOUT);
    if buf_size is None {
        Err(ConfigErrorModel::Number('b'))
    } else if midi_buf_size is None {
        Err(ConfigErrorModel::Number('B'))
    } else if in_left is None {
        Err(ConfigErrorModel::Number('l'))
    } else if in_right is None {
        Err(ConfigErrorModel::Number('r'))
    } else if channels_spanning(in_left->0, in_right->0) is None {
        Err(ConfigErrorModel::Channels('l', 'r'))
    } else if out_left is None {
        Err(ConfigErrorModel::Number('L'))
    } else if out_right is None {
        Err(ConfigErrorModel::Number('R'))
    } else if channels_spanning(out_left->0, out_right->0) is None {
        Err(ConfigErrorModel::Channels('L', 'R'))
    } else if ping_read_timeout is None {
        Err(ConfigErrorModel::Number('t'))
    } else {
        Ok(
            RunOptionsModel {
                buf_size: buf_size->0,
                midi_buf_size: midi_buf_size->0,
                in_channels: channels_spanning(in_left->0, in_right->0)->0,
                in_left: in_left->0,
                in_right: in_right->0,
                out_channels: channels_spanning(out_left->0, out_right->0)->0,
                out_left: out_left->0,
                out_right: out_right->0,
                ping_interface: texts.ping_interface,
                ping_read_timeout: ping_read_timeout->0,
            },
        )
    }
}

/// A run that is configured opens enough channels for its lanes: both
/// lanes of either direction lie below the number of channels opened for
/// that direction, and one of them is the topmost channel.
pub proof fn lemma_channels_span_lanes(texts: OptionTexts)
    ensures
        run_options_of(texts) matches Ok(run) ==> {
            &&& run.in_left < run.in_channels
            &&& run.in_right < run.in_channels
            &&& run.in_left + 1 == run.in_channels || run.in_right + 1 == run.in_channels
            &&& run.out_left < run.out_channels
            &&& run.out_right < run.out_channels
            &&& run.out_left + 1 == run.out_channels || run.out_right + 1 == run.out_channels
        },
{
}

/// Reads the value of a count option, or takes its default.
fn read_count(text: &Option<String>, default: usize) -> (setting: Option<usize>)
    ensures
        setting == count_setting(text.deep_view(), default),
{
    match text {
        None => Some(default),
        Some(text) => parse_usize(text.as_str()),
    }
}

/// One more than the larger of two channel indices, if that can be represented.
fn span_channels(left: usize, right: usize) -> (channels: Option<usize>)
    ensures
        channels == channels_spanning(left, right),
{
    let top = if left < right {
        right
    } else {
        left
    };
    if top < usize::MAX {
        Some(top + 1)
    } else {
        None
    }
}

/// Works out the configuration of a run from the values that the command
/// line gave, with the defaults for those it left out.
pub fn run_options(values: OptionValues) -> (outcome: Result<RunOptions, ConfigError>)
    ensures
        model_of(outcome) == run_options_of(values@),
{
    let buf_size = match read_count(&values.buf_size, DEFAULT_BUF_SIZE) {
        Some(count) => count,
        None => return Err(ConfigError::Number('b')),
    };
    let midi_buf_size = match read_count(&values.midi_buf_size, DEFAULT_MIDI_BUF_SIZE) {
        Some(count) => count,
        None => return Err(ConfigError::Number('B')),
    };
    let in_left = match read_count(&values.in_left, DEFAULT_LEFT) {
        Some(channel) => channel,
        None => return Err(ConfigError::Number('l')),
    };
    let in_right = match read_count(&values.in_right, DEFAULT_RIGHT) {
        Some(channel) => channel,
        None => return Err(ConfigError::Number('r')),
    };
    let in_channels = match span_channels(in_left, in_right) {
        Some(channels) => channels,
        None => return Err(ConfigError::Channels('l', 'r')),
    };
    let out_left = match read_count(&values.out_left, DEFAULT_LEFT) {
        Some(channel) => channel,
        None => return Err(ConfigError::Number('L')),
    };
    let out_right = match read_count(&values.out_right, DEFAULT_RIGHT) {
        Some(channel) => channel,
        None => return Err(ConfigError::Number('R')),
    };
    let out_channels = match span_channels(out_left, out_right) {
        Some(channels) => channels,
        None => return Err(ConfigError::Channels('L', 'R')),
    };
    let ping_read_timeout = match &values.ping_read_timeout {
        None => DEFAULT_PING_READ_TIMEOUT,
        Some(text) => match parse_i32(text.as_str()) {
            Some(timeout) => timeout,
            None => return Err(ConfigError::Number('t')),
        },
    };
    Ok(
        RunOptions {
            buf_size,
            midi_buf_size,
            in_channels,
            in_left,
            in_right,
            out_channels,
            out_left,
            out_right,
            ping_interface: values.ping_interface,
            ping_read_timeout,
        },
    )
}

/// The options of the engine, in the order in which the help text lists them.
pub open spec fn cli_declarations() -> Seq<Declaration> {
    seq![
        ("h"@, "help"@, "print help"@, Seq::<char>::empty(), false),
        ("b"@, "buf-size"@, "buffer size"@, "FRAMES"@, true),
        ("B"@, "midi-buf-size"@, "MIDI buffer size"@, "EVENTS"@, true),
        ("l"@, "in-left"@, "left input channel"@, "CHANNEL"@, true),
        ("r"@, "in-right"@, "right input channel"@, "CHANNEL"@, true),
        ("L"@, "out-left"@, "left output channel"@, "CHANNEL"@, true),
        ("R"@, "out-right"@, "right output channel"@, "CHANNEL"@, true),
        (
            "p"@,
            "ping-interface"@,
            "network interface on which to listen for pings"@,
            "INTERFACE"@,
            true,
        ),
        (
            "t"@,
            "ping-read-timeout"@,
            "pcap read timeout for listening to pings"@,
            "MILLISECONDS"@,
            true,
        ),
    ]
}

/// The heading of the help text of the program called `program`.
pub open spec fn brief_for(program: Seq<char>) -> Seq<char> {
    "Usage: "@ + program + " [options]"@
}

/// The name under which the program was called: the first argument, or
/// nothing where there are no arguments at all.
pub open spec fn program_of(args: Seq<Seq<char>>) -> Seq<char> {
    if args.len() > 0 {
        args[0]
    } else {
        Seq::<char>::empty()
    }
}

/// The values that a parse found for the options that take one.
pub open spec fn texts_of(found: Found) -> OptionTexts {
    OptionTexts {
        buf_size: first_value(found["b"@]),
        midi_buf_size: first_value(found["B"@]),
        in_left: first_value(found["l"@]),
        in_right: first_value(found["r"@]),
        out_left: first_value(found["L"@]),
        out_right: first_value(found["R"@]),
        ping_interface: first_value(found["p"@]),
        ping_read_timeout: first_value(found["t"@]),
    }
}

/// The command that the outcome of a parse stands for, where `help` is the
/// help text: a fault turns the command line down; a request for help
/// outranks every other option, whatever their values; else the options
/// configure a run.
pub open spec fn command_for(
    outcome: Result<Found, (OptionFault, Seq<char>)>,
    help: Seq<char>,
) -> Result<CommandModel, ConfigErrorModel> {
    match outcome {
        Err((fault, name)) => Err(ConfigErrorModel::Options(fault, name)),
        Ok(found) => if found["h"@].len() > 0 {
            Ok(CommandModel::Help(help))
        } else {
            match run_options_of(texts_of(found)) {
                Ok(options) => Ok(CommandModel::Run(options)),
                Err(error) => Err(error),
            }
        },
    }
}

/// The help text for `options`, headed by a line on how to call `program`.
fn get_usage(program: &str, options: &getopts::Options) -> (text: String)
    requires
        plain_style(*options),
    ensures
        text@ == usage_text(declared(*options), brief_for(program@)),
{
    let brief = String::from_str("Usage: ").concat(program).concat(" [options]");
    usage(options, brief.as_str())
}

/// Declares the options of the engine.
fn cli_options() -> (options: getopts::Options)
    ensures
        declared(options) == cli_declarations(),
        plain_style(options),
{
    let mut options = new_options();
    proof {
        reveal_strlit("h");
        reveal_strlit("b");
        reveal_strlit("B");
        reveal_strlit("l");
        reveal_strlit("r");
        reveal_strlit("L");
        reveal_strlit("R");
        reveal_strlit("p");
        reveal_strlit("t");
        reveal_strlit("help");
        reveal_strlit("buf-size");
        reveal_strlit("midi-buf-size");
        reveal_strlit("in-left");
        reveal_strlit("in-right");
        reveal_strlit("out-left");
        reveal_strlit("out-right");
        reveal_strlit("ping-interface");
        reveal_strlit("ping-read-timeout");
    }
    declare_flag(&mut options, "h", "help", "print help");
    declare_value(&mut options, "b", "buf-size", "buffer size", "FRAMES");
    declare_value(&mut options, "B", "midi-buf-size", "MIDI buffer size", "EVENTS");
    declare_value(&mut options, "l", "in-left", "left input channel", "CHANNEL");
    declare_value(&mut options, "r", "in-right", "right input channel", "CHANNEL");
    declare_value(&mut options, "L", "out-left", "left output channel", "CHANNEL");
    declare_value(&mut options, "R", "out-right", "right output channel", "CHANNEL");
    declare_value(
        &mut options,
        "p",
        "ping-interface",
        "network interface on which to listen for pings",
        "INTERFACE",
    );
    declare_value(
        &mut options,
        "t",
        "ping-read-timeout",
        "pcap read timeout for listening to pings",
        "MILLISECONDS",
    );
    assert(declared(options) =~= cli_declarations());
    options
}

/// Reads the command line `args`, the program's own name first.
///
/// The arguments are matched against the engine's options. A request for
/// help is answered with the help text and nothing else is looked at;
/// otherwise the values of the options, or their defaults, configure a run.
pub fn get_command(args: &Vec<String>) -> (command: Result<Command, ConfigError>)
    ensures
        model_of(command) == command_for(
            parsed(cli_declarations(), args.deep_view()),
            usage_text(cli_declarations(), brief_for(program_of(args.deep_view()))),
        ),
{
    let options = cli_options();
    proof {
        reveal_strlit("h");
        reveal_strlit("b");
        reveal_strlit("B");
        reveal_strlit("l");
        reveal_strlit("r");
        reveal_strlit("L");
        reveal_strlit("R");
        reveal_strlit("p");
        reveal_strlit("t");
        assert(all_named(cli_declarations()));
    }
    let matches = match parse(&options, args) {
        Ok(matches) => matches,
        Err((fault, name)) => {
            return Err(ConfigError::Options(fault, name));
        },
    };
    proof {
        let declarations = cli_declarations();
        assert(declarations[0].0 == "h"@);
        assert(declarations[1].0 == "b"@);
        assert(declarations[2].0 == "B"@);
        assert(declarations[3].0 == "l"@);
        assert(declarations[4].0 == "r"@);
        assert(declarations[5].0 == "L"@);
        assert(declarations[6].0 == "R"@);
        assert(declarations[7].0 == "p"@);
        assert(declarations[8].0 == "t"@);
    }
    if is_present(&matches, "h") {
        let program = if args.len() > 0 {
            args[0].as_str()
        } else {
            ""
        };
        proof {
            reveal_strlit("");
            assert(program@ == program_of(args.deep_view()));
        }
        return Ok(Command::Help(get_usage(program, &options)));
    }
    let values = OptionValues {
        buf_size: value_of(&matches, "b"),
        midi_buf_size: value_of(&matches, "B"),
        in_left: value_of(&matches, "l"),
        in_right: value_of(&matches, "r"),
        out_left: value_of(&matches, "L"),
        out_right: value_of(&matches, "R"),
        ping_interface: value_of(&matches, "p"),
        ping_read_timeout: value_of(&matches, "t"),
    };
    match run_options(values) {
        Ok(options) => Ok(Command::Run(options)),
        Err(error) => Err(error),
    }
}

} // verus!
