//! The configuration of one run, and how it is read from a command line.

use crate::decimal::{decimal_of, parse_decimal};
use crate::options::{
    add_flag, add_valued, answers_to, first_value, is_given, occurrences, option_rows,
    parse_arguments, parse_outcome, plain_options, valid_names, valid_rows, value_of,
    ArgumentFault, FaultKind,
};
use vstd::prelude::*;
use vstd::string::*;

verus! {

/// What the command line asks for.
#[derive(Clone, Debug)]
pub struct Args {
    /// If true, the usage is to be shown and nothing else done.
    pub help: bool,
    /// If true, old files are to be shown, not removed.
    pub dry: bool,
    /// The age in seconds beyond which a file counts as old.
    pub age: u64,
    /// The working directory.
    pub directory: String,
}

/// An `Args` as the contracts see it.
pub struct ArgsView {
    pub help: bool,
    pub dry: bool,
    pub age: u64,
    pub directory: Seq<char>,
}

impl View for Args {
    type V = ArgsView;

    open spec fn view(&self) -> ArgsView {
        ArgsView { help: self.help, dry: self.dry, age: self.age, directory: self.directory@ }
    }
}

/// Why a command line gives no configuration.
#[derive(Clone, Debug)]
pub enum ConfigError {
    /// The command line does not fit the options.
    BadArguments(ArgumentFault),
    /// No age was given.
    MissingAge,
    /// The age is not a number of seconds.
    UnparseableAge,
}

/// A `ConfigError` as the contracts see it.
pub enum ConfigErrorView {
    BadArguments(FaultKind, Seq<char>),
    MissingAge,
    UnparseableAge,
}

impl View for ConfigError {
    type V = ConfigErrorView;

    open spec fn view(&self) -> ConfigErrorView {
        match self {
            ConfigError::BadArguments(fault) => ConfigErrorView::BadArguments(
                fault.kind,
                fault.option@,
            ),
            ConfigError::MissingAge => ConfigErrorView::MissingAge,
            ConfigError::UnparseableAge => ConfigErrorView::UnparseableAge,
        }
    }
}

/// The age that the option's value stands for.
pub open spec fn age_of(value: Option<Seq<char>>) -> Result<u64, ConfigErrorView> {
    match value {
        None => Err(ConfigErrorView::MissingAge),
        Some(text) => match decimal_of(text) {
            Some(age) => Ok(age),
            None => Err(ConfigErrorView::UnparseableAge),
        },
    }
}

/// The directory to work in: the one that was asked for, or else the one
/// that the caller offers.
pub open spec fn directory_of(value: Option<Seq<char>>, fallback: Seq<char>) -> Seq<char> {
    match value {
        Some(directory) => directory,
        None => fallback,
    }
}

/// The configuration that the four options give, once they are read.
pub open spec fn config_of(
    help: bool,
    dry: bool,
    age: Option<Seq<char>>,
    directory: Option<Seq<char>>,
    fallback: Seq<char>,
) -> Result<ArgsView, ConfigErrorView> {
    match age_of(age) {
        Ok(age) => Ok(
            ArgsView { help, dry, age, directory: directory_of(directory, fallback) },
        ),
        Err(error) => Err(error),
    }
}

/// The options of the command line: `-a`/`--age` and `-d`/`--directory`
/// take a value, `--dry` and `-h`/`--help` are flags.
pub open spec fn option_table() -> Seq<(Seq<char>, Seq<char>, bool)> {
    seq![
        ("a"@, "age"@, true),
        ("d"@, "directory"@, true),
        (""@, "dry"@, false),
        ("h"@, "help"@, false),
    ]
}

/// The configuration that a parsed command line gives.
pub open spec fn config_of_outcome(
    outcome: Result<Map<Seq<char>, Seq<Option<Seq<char>>>>, (FaultKind, Seq<char>)>,
    fallback: Seq<char>,
) -> Result<ArgsView, ConfigErrorView> {
    match outcome {
        Err(fault) => Err(ConfigErrorView::BadArguments(fault.0, fault.1)),
        Ok(given) => config_of(
            given["h"@].len() > 0,
            given["dry"@].len() > 0,
            first_value(given["a"@]),
            first_value(given["d"@]),
            fallback,
        ),
    }
}

/// A result of this module as the contracts see it.
pub open spec fn result_view(result: Result<Args, ConfigError>) -> Result<ArgsView, ConfigErrorView> {
    match result {
        Ok(args) => Ok(args@),
        Err(error) => Err(error@),
    }
}

impl Args {
    /// Reads the command line. `arguments` are the words after the
    /// program's name; `fallback` is the directory to work in when none is
    /// named. A configuration comes back exactly when the words fit the
    /// options, an age is among them, and it is a decimal number of
    /// seconds.
    pub fn new_from_args(arguments: &Vec<String>, fallback: &str) -> (result: Result<
        Args,
        ConfigError,
    >)
        ensures
            result_view(result) == config_of_outcome(
                parse_outcome(option_table(), arguments.deep_view()),
                fallback@,
            ),
    {
        proof {
            reveal_strlit("a");
            reveal_strlit("age");
            reveal_strlit("d");
            reveal_strlit("directory");
            reveal_strlit("");
            reveal_strlit("dry");
            reveal_strlit("h");
            reveal_strlit("help");
        }
        let mut options = getopts::Options::new();
        add_valued(&mut options, "a", "age", "Set the age of files to remove", "(required)");
        add_valued(&mut options, "d", "directory", "Set the working directory", "");
        add_flag(&mut options, "", "dry", "Dry run");
        add_flag(&mut options, "h", "help", "Print this menu");
        assert(option_rows(options) =~= option_table());
        match parse_arguments(&options, arguments) {
            Err(fault) => Err(ConfigError::BadArguments(fault)),
            Ok(matches) => {
                assert(option_table()[0].0 == "a"@);
                assert(option_table()[1].0 == "d"@);
                assert(option_table()[2].1 == "dry"@);
                assert(option_table()[3].0 == "h"@);
                assert(answers_to(option_table(), "a"@));
                assert(answers_to(option_table(), "d"@));
                assert(answers_to(option_table(), "dry"@));
                assert(answers_to(option_table(), "h"@));
                let help = is_given(&matches, "h");
                let dry = is_given(&matches, "dry");
                let age = value_of(&matches, "a");
                let directory = value_of(&matches, "d");
                Args::from_options(help, dry, age, directory, fallback)
            },
        }
    }

    /// Puts a configuration together from the four options as they were
    /// read. It fails exactly when the age is missing or is not a number.
    pub fn from_options(
        help: bool,
        dry: bool,
        age: Option<String>,
        directory: Option<String>,
        fallback: &str,
    ) -> (result: Result<Args, ConfigError>)
        ensures
            result_view(result) == config_of(
                help,
                dry,
                age.deep_view(),
                directory.deep_view(),
                fallback@,
            ),
    {
        match Args::compute_age(age) {
            Ok(age) => Ok(
                Args { help, dry, age, directory: Args::compute_directory(directory, fallback) },
            ),
            Err(error) => Err(error),
        }
    }

    /// The age limit in seconds that the option's value stands for.
    pub fn compute_age(opt: Option<String>) -> (result: Result<u64, ConfigError>)
        ensures
            match result {
                Ok(age) => age_of(opt.deep_view()) == Ok::<u64, ConfigErrorView>(age),
                Err(error) => age_of(opt.deep_view()) == Err::<u64, ConfigErrorView>(error@),
            },
    {
        match opt {
            Some(text) => match parse_decimal(text.as_str()) {
                Some(age) => Ok(age),
                None => Err(ConfigError::UnparseableAge),
            },
            None => Err(ConfigError::MissingAge),
        }
    }

    /// The directory to work in: the option's value, or `fallback` where
    /// the option was not given.
    pub fn compute_directory(opt: Option<String>, fallback: &str) -> (directory: String)
        ensures
            directory@ == directory_of(opt.deep_view(), fallback@),
    {
        match opt {
            Some(directory) => directory,
            None => String::from_str(fallback),
        }
    }
}

} // verus!
