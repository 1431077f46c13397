//! The command-line grammar, as far as this library relies on it.
//!
//! The grammar itself is the `getopts` crate's. Nothing in this file is
//! proved: each item states what that crate's source shows of one of its
//! functions, and the rest of the library is verified against these
//! statements.

use vstd::prelude::*;
use vstd::utf8::is_ascii_chars;

verus! {

/// `getopts::Options`: the options that a command line may hold. Its
/// inside is not looked at here.
#[verifier::external_type_specification]
#[verifier::external_body]
pub struct ExOptions(getopts::Options);

/// `getopts::Matches`: what parsing found on a command line. Its inside
/// is not looked at here.
#[verifier::external_type_specification]
#[verifier::external_body]
pub struct ExMatches(getopts::Matches);

/// The options that a `getopts::Options` holds, in the order they were
/// added: short name, long name, and whether the option takes a value.
pub uninterp spec fn option_rows(options: getopts::Options) -> Seq<(Seq<char>, Seq<char>, bool)>;

/// Whether a `getopts::Options` parses in the plain way: free arguments may
/// stand anywhere, a long option needs two dashes, and each option may be
/// given at most once and either always or never takes a value.
pub uninterp spec fn plain_options(options: getopts::Options) -> bool;

/// What a `getopts::Matches` holds: for each name that an option answers
/// to, one item for each time the option was given, with its value if it
/// came with one.
pub uninterp spec fn occurrences(matches: getopts::Matches) -> Map<Seq<char>, Seq<Option<Seq<char>>>>;

/// What `getopts::Options::parse` makes of `arguments` under the options
/// `rows`, parsed in the plain way.
pub uninterp spec fn parse_outcome(
    rows: Seq<(Seq<char>, Seq<char>, bool)>,
    arguments: Seq<Seq<char>>,
) -> Result<Map<Seq<char>, Seq<Option<Seq<char>>>>, (FaultKind, Seq<char>)>;

/// The ways in which a command line can fail to fit the options.
#[derive(Clone, Copy, Debug, PartialEq, Eq, Structural)]
pub enum FaultKind {
    /// An option that takes a value came last, with none after it.
    ArgumentMissing,
    /// An option that was never declared.
    UnrecognizedOption,
    /// A required option was left out.
    OptionMissing,
    /// An option was given more than once.
    OptionDuplicated,
    /// A flag was given a value.
    UnexpectedArgument,
}

/// A command line that does not fit the options, and the option at fault.
#[derive(Clone, Debug)]
pub struct ArgumentFault {
    pub kind: FaultKind,
    pub option: String,
}

impl View for ArgumentFault {
    type V = (FaultKind, Seq<char>);

    open spec fn view(&self) -> (FaultKind, Seq<char>) {
        (self.kind, self.option@)
    }
}

/// Names that `getopts` accepts for one option: a short name of at most one
/// character, a long name of none or of two and more, not both empty.
pub open spec fn valid_names(short_name: Seq<char>, long_name: Seq<char>) -> bool {
    &&& is_ascii_chars(short_name)
    &&& is_ascii_chars(long_name)
    &&& short_name.len() <= 1
    &&& long_name.len() != 1
    &&& short_name.len() + long_name.len() > 0
}

/// Every option has names that `getopts` accepts.
pub open spec fn valid_rows(rows: Seq<(Seq<char>, Seq<char>, bool)>) -> bool {
    forall|i: int| 0 <= i < rows.len() ==> valid_names((#[trigger] rows[i]).0, rows[i].1)
}

/// Whether one of `rows` answers to `name`, by its short or its long name.
pub open spec fn answers_to(rows: Seq<(Seq<char>, Seq<char>, bool)>, name: Seq<char>) -> bool {
    name.len() > 0 && exists|i: int|
        0 <= i < rows.len() && ((#[trigger] rows[i]).0 == name || rows[i].1 == name)
}

/// The value of the first occurrence, if the option was given and came
/// with one.
pub open spec fn first_value(given: Seq<Option<Seq<char>>>) -> Option<Seq<char>> {
    if given.len() > 0 {
        given[0]
    } else {
        None
    }
}

/// `getopts::Options::new`: a set of options that holds none and parses in
/// the plain way.
pub assume_specification[ getopts::Options::new ]() -> (options: getopts::Options)
    ensures
        option_rows(options) == Seq::<(Seq<char>, Seq<char>, bool)>::empty(),
        plain_options(options),
;

/// `getopts::Options::optopt`: adds, after those that are there, an option
/// that takes a value and may be given at most once. That function panics
/// on a short name longer than one byte and on a long name of exactly one.
#[verifier::external_body]
pub(crate) fn add_valued(
    options: &mut getopts::Options,
    short_name: &str,
    long_name: &str,
    description: &str,
    hint: &str,
)
    requires
        valid_names(short_name@, long_name@),
    ensures
        option_rows(*final(options)) == option_rows(*old(options)).push(
            (short_name@, long_name@, true),
        ),
        plain_options(*final(options)) == plain_options(*old(options)),
{
    options.optopt(short_name, long_name, description, hint);
}

/// `getopts::Options::optflag`: adds, after those that are there, an option
/// that takes no value and may be given at most once. It panics on the same
/// names as `optopt` does.
#[verifier::external_body]
pub(crate) fn add_flag(
    options: &mut getopts::Options,
    short_name: &str,
    long_name: &str,
    description: &str,
)
    requires
        valid_names(short_name@, long_name@),
    ensures
        option_rows(*final(options)) == option_rows(*old(options)).push(
            (short_name@, long_name@, false),
        ),
        plain_options(*final(options)) == plain_options(*old(options)),
{
    options.optflag(short_name, long_name, description);
}

/// `getopts::Options::parse`: the outcome depends on the options and the
/// arguments alone. On success the matches answer to exactly the names of
/// the options; on failure the fault and the option it names are handed on
/// as they come. That function panics on an option without any name.
#[verifier::external_body]
pub(crate) fn parse_arguments(options: &getopts::Options, arguments: &Vec<String>) -> (outcome:
    Result<getopts::Matches, ArgumentFault>)
    requires
        plain_options(*options),
        valid_rows(option_rows(*options)),
    ensures
        match outcome {
            Ok(matches) => {
                &&& parse_outcome(option_rows(*options), arguments.deep_view()) == Ok::<
                    Map<Seq<char>, Seq<Option<Seq<char>>>>,
                    (FaultKind, Seq<char>),
                >(occurrences(matches))
                &&& forall|name: Seq<char>| #[trigger]
                    occurrences(matches).dom().contains(name) <==> answers_to(
                        option_rows(*options),
                        name,
                    )
            },
            Err(fault) => parse_outcome(option_rows(*options), arguments.deep_view()) == Err::<
                Map<Seq<char>, Seq<Option<Seq<char>>>>,
                (FaultKind, Seq<char>),
            >(fault@),
        },
{
    match options.parse(arguments) {
        Ok(matches) => Ok(matches),
        Err(getopts::Fail::ArgumentMissing(option)) => Err(ArgumentFault { kind: FaultKind::ArgumentMissing, option }),
        Err(getopts::Fail::UnrecognizedOption(option)) => Err(ArgumentFault { kind: FaultKind::UnrecognizedOption, option }),
        Err(getopts::Fail::OptionMissing(option)) => Err(ArgumentFault { kind: FaultKind::OptionMissing, option }),
        Err(getopts::Fail::OptionDuplicated(option)) => Err(ArgumentFault { kind: FaultKind::OptionDuplicated, option }),
        Err(getopts::Fail::UnexpectedArgument(option)) => Err(ArgumentFault { kind: FaultKind::UnexpectedArgument, option }),
    }
}

/// `getopts::Matches::opt_present`: whether the option that answers to
/// `name` was given. That function panics on a name that no option answers
/// to.
#[verifier::external_body]
pub(crate) fn is_given(matches: &getopts::Matches, name: &str) -> (given: bool)
    requires
        occurrences(*matches).dom().contains(name@),
    ensures
        given == (occurrences(*matches)[name@].len() > 0),
{
    matches.opt_present(name)
}

/// `getopts::Matches::opt_str`: the value that the option came with the
/// first time it was given, if it was given and came with one. That
/// function panics on a name that no option answers to.
#[verifier::external_body]
pub(crate) fn value_of(matches: &getopts::Matches, name: &str) -> (value: Option<String>)
    requires
        occurrences(*matches).dom().contains(name@),
    ensures
        value.deep_view() == first_value(occurrences(*matches)[name@]),
{
    matches.opt_str(name)
}

} // verus!
