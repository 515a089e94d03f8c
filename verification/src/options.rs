//! What the engine takes on trust from the `getopts` crate, which reads its
//! command line. Nothing in this file is proved: each function hands its
//! arguments to `getopts` and states what the crate's source shows of the
//! result.

use vstd::prelude::*;

verus! {

/// `getopts::Options`: a list of option declarations and a parsing style.
#[verifier::external_type_specification]
#[verifier::external_body]
pub struct ExOptions(getopts::Options);

/// `getopts::Matches`: what a successful parse found for each option.
#[verifier::external_type_specification]
#[verifier::external_body]
pub struct ExMatches(getopts::Matches);

/// Why a command line does not fit the declared options.
#[derive(Clone, Copy, Debug, PartialEq, Eq, Structural)]
pub enum OptionFault {
    /// An option that takes a value came last, without one.
    ArgumentMissing,
    /// An option was given that is not declared.
    UnrecognizedOption,
    /// A required option was not given.
    OptionMissing,
    /// An option that may occur once was given more than once.
    OptionDuplicated,
    /// A value was attached to an option that takes none.
    UnexpectedArgument,
}

/// One declared option: short name, long name, description, hint for the
/// value, and whether the option takes a value.
pub type Declaration = (Seq<char>, Seq<char>, Seq<char>, Seq<char>, bool);

/// What a parse found: for each name that can be asked for, the option's
/// occurrences in order, each with the value that came with it, if any.
pub type Found = Map<Seq<char>, Seq<Option<Seq<char>>>>;

/// The declarations that `options` holds, in the order in which they were made.
pub uninterp spec fn declared(options: getopts::Options) -> Seq<Declaration>;

/// Whether `options` is plain: it parses in the style that `getopts` starts
/// out with (options and free arguments may mix, long options need two
/// dashes), and each of its options may occur at most once and either takes
/// a value or takes none.
pub uninterp spec fn plain_style(options: getopts::Options) -> bool;

/// What `matches` holds.
pub uninterp spec fn found(matches: getopts::Matches) -> Found;

/// What `getopts` makes of the arguments `args` under plain options with
/// the declarations `declarations`: what it found, or the first fault and
/// the option concerned.
pub uninterp spec fn parsed(declarations: Seq<Declaration>, args: Seq<Seq<char>>) -> Result<
    Found,
    (OptionFault, Seq<char>),
>;

/// The help text that `getopts` lays out for plain options with the
/// declarations `declarations`, under the heading `brief`.
pub uninterp spec fn usage_text(declarations: Seq<Declaration>, brief: Seq<char>) -> Seq<char>;

/// Whether every declaration has a short or a long name.
pub open spec fn all_named(declarations: Seq<Declaration>) -> bool {
    forall|i: int|
        0 <= i < declarations.len() ==> (#[trigger] declarations[i]).0.len() > 0
            || declarations[i].1.len() > 0
}

/// Whether `found` can be asked for every name in `declarations`.
pub open spec fn answers_for(found: Found, declarations: Seq<Declaration>) -> bool {
    forall|i: int|
        0 <= i < declarations.len() ==> {
            &&& (#[trigger] declarations[i]).0.len() > 0 ==> found.dom().contains(
                declarations[i].0,
            )
            &&& declarations[i].1.len() > 0 ==> found.dom().contains(declarations[i].1)
        }
}

/// The value that came with the first of `occurrences`, if there is an
/// occurrence and it had a value.
pub open spec fn first_value(occurrences: Seq<Option<Seq<char>>>) -> Option<Seq<char>> {
    if occurrences.len() > 0 {
        occurrences[0]
    } else {
        None
    }
}

/// `getopts::Options::new`: no declarations yet, and plain.
#[verifier::external_body]
pub(crate) fn new_options() -> (options: getopts::Options)
    ensures
        declared(options) == Seq::<Declaration>::empty(),
        plain_style(options),
{
    getopts::Options::new()
}

/// `getopts::Options::optflag`: appends the declaration of an option that
/// takes no value and may occur at most once, which keeps plain options
/// plain. The crate panics on a short name longer than one byte and on a
/// long name of exactly one byte; both are kept out here.
#[verifier::external_body]
pub(crate) fn declare_flag(options: &mut getopts::Options, short: &str, long: &str, desc: &str)
    requires
        short.is_ascii(),
        short@.len() <= 1,
        long@.len() != 1,
    ensures
        declared(*final(options)) == declared(*old(options)).push(
            (short@, long@, desc@, Seq::<char>::empty(), false),
        ),
        plain_style(*final(options)) == plain_style(*old(options)),
{
    options.optflag(short, long, desc);
}

/// `getopts::Options::optopt`: appends the declaration of an option that
/// takes a value and may occur at most once, which keeps plain options
/// plain. The crate panics on a short name longer than one byte and on a
/// long name of exactly one byte; both are kept out here.
#[verifier::external_body]
pub(crate) fn declare_value(
    options: &mut getopts::Options,
    short: &str,
    long: &str,
    desc: &str,
    hint: &str,
)
    requires
        short.is_ascii(),
        short@.len() <= 1,
        long@.len() != 1,
    ensures
        declared(*final(options)) == declared(*old(options)).push(
            (short@, long@, desc@, hint@, true),
        ),
        plain_style(*final(options)) == plain_style(*old(options)),
{
    options.optopt(short, long, desc, hint);
}

/// `getopts::Options::parse`: for plain options the outcome depends on the
/// declarations and the arguments alone. After a success every declared
/// name can be asked for. The crate panics on a declaration without any
/// name, which is kept out here.
#[verifier::external_body]
pub(crate) fn parse(options: &getopts::Options, args: &Vec<String>) -> (outcome: Result<
    getopts::Matches,
    (OptionFault, String),
>)
    requires
        plain_style(*options),
        all_named(declared(*options)),
    ensures
        match outcome {
            Ok(matches) => parsed(declared(*options), args.deep_view()) == Ok::<
                Found,
                (OptionFault, Seq<char>),
            >(found(matches)) && answers_for(found(matches), declared(*options)),
            Err((fault, name)) => parsed(declared(*options), args.deep_view()) == Err::<
                Found,
                (OptionFault, Seq<char>),
            >((fault, name@)),
        },
{
    match options.parse(args) {
        Ok(matches) => Ok(matches),
        Err(getopts::Fail::ArgumentMissing(name)) => Err((OptionFault::ArgumentMissing, name)),
        Err(getopts::Fail::UnrecognizedOption(name)) => Err((OptionFault::UnrecognizedOption, name)),
        Err(getopts::Fail::OptionMissing(name)) => Err((OptionFault::OptionMissing, name)),
        Err(getopts::Fail::OptionDuplicated(name)) => Err((OptionFault::OptionDuplicated, name)),
        Err(getopts::Fail::UnexpectedArgument(name)) => Err((OptionFault::UnexpectedArgument, name)),
    }
}

/// `getopts::Matches::opt_present`: whether the option occurred at all.
/// The crate panics on a name that was not declared, which is kept out here.
#[verifier::external_body]
pub(crate) fn is_present(matches: &getopts::Matches, name: &str) -> (present: bool)
    requires
        found(*matches).dom().contains(name@),
    ensures
        present == (found(*matches)[name@].len() > 0),
{
    matches.opt_present(name)
}

/// `getopts::Matches::opt_str`: the value that came with the option's first
/// occurrence, if it occurred and had one. The crate panics on a name that
/// was not declared, which is kept out here.
#[verifier::external_body]
pub(crate) fn value_of(matches: &getopts::Matches, name: &str) -> (value: Option<String>)
    requires
        found(*matches).dom().contains(name@),
    ensures
        value.deep_view() == first_value(found(*matches)[name@]),
{
    matches.opt_str(name)
}

/// `getopts::Options::usage`: the help text under the heading `brief`,
/// which for plain options depends on the declarations and the heading alone.
#[verifier::external_body]
pub(crate) fn usage(options: &getopts::Options, brief: &str) -> (text: String)
    requires
        plain_style(*options),
    ensures
        text@ == usage_text(declared(*options), brief@),
{
    options.usage(brief)
}

} // verus!
