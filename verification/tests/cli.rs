use kirskuna::cli::{get_command, run_options, Command, ConfigError, OptionValues, RunOptions};
use kirskuna::options::OptionFault;

fn args(words: &[&str]) -> Vec<String> {
    words.iter().map(|word| word.to_string()).collect()
}

fn no_values() -> OptionValues {
    OptionValues {
        buf_size: None,
        midi_buf_size: None,
        in_left: None,
        in_right: None,
        out_left: None,
        out_right: None,
        ping_interface: None,
        ping_read_timeout: None,
    }
}

fn defaults() -> RunOptions {
    RunOptions {
        buf_size: 64,
        midi_buf_size: 256,
        in_channels: 2,
        in_left: 0,
        in_right: 1,
        out_channels: 2,
        out_left: 0,
        out_right: 1,
        ping_interface: None,
        ping_read_timeout: 0,
    }
}

fn text(value: &str) -> Option<String> {
    Some(value.to_string())
}

#[test]
fn bare_command_line_runs_with_defaults() {
    assert_eq!(get_command(&args(&["kirskuna"])), Ok(Command::Run(defaults())));
    assert_eq!(run_options(no_values()), Ok(defaults()));
}

#[test]
fn empty_argument_list_runs_with_defaults() {
    assert_eq!(get_command(&args(&[])), Ok(Command::Run(defaults())));
}

#[test]
fn every_option_is_read() {
    let command = get_command(&args(&[
        "kirskuna", "-b", "128", "-B", "512", "-l", "2", "-r", "5", "-L", "7", "-R", "3", "-p",
        "eth0", "-t", "250",
    ]));
    let expected = RunOptions {
        buf_size: 128,
        midi_buf_size: 512,
        in_channels: 6,
        in_left: 2,
        in_right: 5,
        out_channels: 8,
        out_left: 7,
        out_right: 3,
        ping_interface: text("eth0"),
        ping_read_timeout: 250,
    };
    assert_eq!(command, Ok(Command::Run(expected)));
}

#[test]
fn long_names_and_attached_values_are_read() {
    let command = get_command(&args(&[
        "kirskuna",
        "--buf-size=32",
        "--midi-buf-size",
        "16",
        "--in-left=1",
        "--in-right=0",
        "--out-left",
        "4",
        "--out-right=4",
        "--ping-interface=lo",
        "--ping-read-timeout=-1",
    ]));
    let expected = RunOptions {
        buf_size: 32,
        midi_buf_size: 16,
        in_channels: 2,
        in_left: 1,
        in_right: 0,
        out_channels: 5,
        out_left: 4,
        out_right: 4,
        ping_interface: text("lo"),
        ping_read_timeout: -1,
    };
    assert_eq!(command, Ok(Command::Run(expected)));
    assert_eq!(
        get_command(&args(&["kirskuna", "-b32", "-t-7"])),
        Ok(Command::Run(RunOptions { buf_size: 32, ping_read_timeout: -7, ..defaults() }))
    );
}

#[test]
fn help_prints_usage_under_the_program_name() {
    match get_command(&args(&["kirskuna", "-h"])) {
        Ok(Command::Help(usage)) => {
            assert!(usage.starts_with("Usage: kirskuna [options]\n\nOptions:\n"), "{}", usage);
            for line in [
                "    -h, --help          print help",
                "    -b, --buf-size FRAMES",
                "    -B, --midi-buf-size EVENTS",
                "    -l, --in-left CHANNEL",
                "    -r, --in-right CHANNEL",
                "    -L, --out-left CHANNEL",
                "    -R, --out-right CHANNEL",
                "    -p, --ping-interface INTERFACE",
                "    -t, --ping-read-timeout MILLISECONDS",
            ] {
                assert!(usage.contains(line), "{:?} not in {}", line, usage);
            }
        }
        other => panic!("{:?}", other),
    }
}

#[test]
fn help_outranks_the_values_of_other_options() {
    let command = get_command(&args(&["some/path", "-b", "many", "--help", "-l", "-1"]));
    assert!(matches!(&command, Ok(Command::Help(usage)) if usage.starts_with("Usage: some/path [options]")));
}

#[test]
fn faults_of_the_argument_list_are_reported_with_the_option() {
    let fault = |words: &[&str]| match get_command(&args(words)) {
        Err(ConfigError::Options(fault, name)) => (fault, name),
        other => panic!("{:?}", other),
    };
    assert_eq!(fault(&["kirskuna", "-x"]), (OptionFault::UnrecognizedOption, "x".to_string()));
    assert_eq!(fault(&["kirskuna", "--nope"]), (OptionFault::UnrecognizedOption, "nope".to_string()));
    assert_eq!(fault(&["kirskuna", "-b"]), (OptionFault::ArgumentMissing, "b".to_string()));
    assert_eq!(
        fault(&["kirskuna", "--buf-size"]),
        (OptionFault::ArgumentMissing, "buf-size".to_string())
    );
    assert_eq!(
        fault(&["kirskuna", "-b", "1", "-b", "2"]),
        (OptionFault::OptionDuplicated, "buf-size".to_string())
    );
    assert_eq!(
        fault(&["kirskuna", "--help=now"]),
        (OptionFault::UnexpectedArgument, "help".to_string())
    );
    assert_eq!(fault(&["kirskuna", "-h", "-x"]), (OptionFault::UnrecognizedOption, "x".to_string()));
}

#[test]
fn values_that_are_no_numbers_are_reported_with_the_option() {
    for (short, flag) in [('b', "-b"), ('B', "-B"), ('l', "-l"), ('r', "-r"), ('L', "-L"), ('R', "-R"), ('t', "-t")] {
        assert_eq!(get_command(&args(&["kirskuna", flag, "x1"])), Err(ConfigError::Number(short)));
    }
    assert_eq!(get_command(&args(&["kirskuna", "-b", "-1"])), Err(ConfigError::Number('b')));
    assert_eq!(get_command(&args(&["kirskuna", "-t", "2147483648"])), Err(ConfigError::Number('t')));
    assert_eq!(get_command(&args(&["kirskuna", "-b", ""])), Err(ConfigError::Number('b')));
}

#[test]
fn first_wrong_value_is_the_one_reported() {
    assert_eq!(
        get_command(&args(&["kirskuna", "-t", "x", "-R", "x", "-B", "x"])),
        Err(ConfigError::Number('B'))
    );
    assert_eq!(
        get_command(&args(&["kirskuna", "-t", "x", "-R", "x"])),
        Err(ConfigError::Number('R'))
    );
    let max = usize::MAX.to_string();
    assert_eq!(
        get_command(&args(&["kirskuna", "-r", &max, "-L", "x"])),
        Err(ConfigError::Channels('l', 'r'))
    );
    assert_eq!(
        get_command(&args(&["kirskuna", "-l", "x", "-r", &max])),
        Err(ConfigError::Number('l'))
    );
}

#[test]
fn channel_count_is_one_more_than_the_larger_channel() {
    let with = |left: &str, right: &str| {
        run_options(OptionValues { in_left: text(left), in_right: text(right), ..no_values() })
            .map(|options| options.in_channels)
    };
    assert_eq!(with("0", "0"), Ok(1));
    assert_eq!(with("0", "1"), Ok(2));
    assert_eq!(with("9", "3"), Ok(10));
    assert_eq!(with("3", "9"), Ok(10));
    let below_max = (usize::MAX - 1).to_string();
    assert_eq!(with(&below_max, "0"), Ok(usize::MAX));
    let max = usize::MAX.to_string();
    assert_eq!(with(&max, "0"), Err(ConfigError::Channels('l', 'r')));
    assert_eq!(with("0", &max), Err(ConfigError::Channels('l', 'r')));
    let out = run_options(OptionValues { out_right: text(&max), ..no_values() });
    assert_eq!(out, Err(ConfigError::Channels('L', 'R')));
}

#[test]
fn ping_interface_is_taken_as_it_stands() {
    let options = run_options(OptionValues { ping_interface: text(" any thing "), ..no_values() });
    assert_eq!(options, Ok(RunOptions { ping_interface: text(" any thing "), ..defaults() }));
}

#[test]
fn free_arguments_are_let_through() {
    assert_eq!(
        get_command(&args(&["kirskuna", "stray", "-b", "8", "words"])),
        Ok(Command::Run(RunOptions { buf_size: 8, ..defaults() }))
    );
    assert_eq!(
        get_command(&args(&["kirskuna", "--", "-x"])),
        Ok(Command::Run(defaults()))
    );
}
