//! Resolving the command line into a configuration.

use crate::config::{names_or_stdin, texts, Config, ConfigView};
use clap::{App, Arg};
use vstd::prelude::*;

verus! {

/// The error that clap returns where it does not accept a command line.
#[verifier::external_type_specification]
#[verifier::external_body]
pub struct ExClapError(clap::Error);

/// What clap finds in a command line, the program's name first, with the
/// arguments of this program declared: `None` where it does not accept the
/// command line (which includes a request for the help text or the version);
/// else the values of the positional argument, if it is present at all,
/// whether the flag to number all lines is present, and whether the flag to
/// number the lines that are not empty is.
pub uninterp spec fn matched_arguments(args: Seq<Seq<char>>) -> Option<
    (Option<Seq<Seq<char>>>, bool, bool),
>;

/// The plain values in what `match_arguments` returns.
pub open spec fn matched_view(
    matched: Result<(Option<Vec<String>>, bool, bool), clap::Error>,
) -> Option<(Option<Seq<Seq<char>>>, bool, bool)> {
    match matched {
        Ok((files, number, number_nonblank)) => Some(
            (
                match files {
                    Some(names) => Some(texts(names@)),
                    None => None,
                },
                number,
                number_nonblank,
            ),
        ),
        Err(_) => None,
    }
}

/// Declares this program's arguments with clap's `App` and `Arg`, parses
/// `args` with `App::get_matches_from_safe`, and reads the result with
/// `ArgMatches::values_of_lossy` and `ArgMatches::is_present`. Assumed: what
/// comes back, but for the error's content, depends on `args` alone, so it
/// is `matched_arguments` of them. Nothing is assumed of which command lines
/// clap accepts. On a request for the version clap itself writes the version
/// to standard output before it returns its error.
#[verifier::external_body]
fn match_arguments(args: &Vec<String>) -> (r: Result<(Option<Vec<String>>, bool, bool), clap::Error>)
    ensures
        matched_view(r) == matched_arguments(texts(args@)),
{
    let files = Arg::with_name("files").value_name("FILE").help("Input file(s)").multiple(true).default_value("-");
    let number = Arg::with_name("number").short("n").long("number").help("Number lines").takes_value(false).conflicts_with("number_nonblank");
    let nonblank = Arg::with_name("number_nonblank").short("b").long("number-nonblank").help("Number non-blank lines").takes_value(false);
    let app = App::new("rcat").version("0.1.0").about("Rust cat").arg(files).arg(number).arg(nonblank);
    match app.get_matches_from_safe(args) {
        Ok(m) => Ok((m.values_of_lossy("files"), m.is_present("number"), m.is_present("number_nonblank"))),
        Err(e) => Err(e),
    }
}

/// Reads the field `message` of a `clap::Error`: the text that clap made for
/// the user. Nothing is assumed of it.
#[verifier::external_body]
fn rejection_message(error: &clap::Error) -> (r: String) {
    error.message.clone()
}

/// `clap::Error::use_stderr`: whether the error is a failure, to be reported
/// on standard error, and not a request for the help text or the version.
/// Nothing is assumed of it.
pub assume_specification[ clap::Error::use_stderr ](error: &clap::Error) -> (r: bool)
;

/// Why a command line gave no configuration.
#[derive(Debug)]
pub enum ArgsError {
    /// Both ways of numbering were asked for at once.
    ConflictingNumbering,
    /// The command line was not accepted as it stands.
    Rejected {
        /// The text for the user.
        message: String,
        /// Whether this is a failure, to be reported on standard error with
        /// a non-zero exit status. Otherwise the user asked for the help
        /// text or the version, and `message` is that text.
        failure: bool,
    },
}

/// The configuration that the values found in a command line give.
pub open spec fn resolved(files: Option<Seq<Seq<char>>>, number: bool, number_nonblank: bool) -> Option<
    ConfigView,
> {
    if number && number_nonblank {
        None
    } else {
        Some(
            ConfigView {
                files: names_or_stdin(
                    match files {
                        Some(names) => names,
                        None => Seq::empty(),
                    },
                ),
                number_lines: number,
                number_nonblank_lines: number_nonblank,
            },
        )
    }
}

/// Makes the configuration from the values found in a command line. No
/// names at all stand for standard input alone; both ways of numbering at
/// once are an error.
pub fn resolve(files: Option<Vec<String>>, number: bool, number_nonblank: bool) -> (r: Result<
    Config,
    ArgsError,
>)
    ensures
        match resolved(
            match files {
                Some(names) => Some(texts(names@)),
                None => None,
            },
            number,
            number_nonblank,
        ) {
            Some(cfg) => r is Ok && r->Ok_0@ == cfg && r->Ok_0.wf(),
            None => r is Err && r->Err_0 is ConflictingNumbering,
        },
{
    let names = match files {
        Some(names) => names,
        None => Vec::new(),
    };
    assert(files is None ==> texts(names@) =~= Seq::<Seq<char>>::empty());
    match Config::new(names, number, number_nonblank) {
        Ok(config) => Ok(config),
        Err(_) => Err(ArgsError::ConflictingNumbering),
    }
}

/// What `get_args` returns for a command line of which clap found `matched`.
pub open spec fn args_outcome(
    matched: Option<(Option<Seq<Seq<char>>>, bool, bool)>,
    r: Result<Config, ArgsError>,
) -> bool {
    match matched {
        Some((files, number, number_nonblank)) => match resolved(files, number, number_nonblank) {
            Some(cfg) => r is Ok && r->Ok_0@ == cfg && r->Ok_0.wf(),
            None => r is Err && r->Err_0 is ConflictingNumbering,
        },
        None => r is Err && r->Err_0 is Rejected,
    }
}

/// Resolves the command line `args`, the program's name first, into a
/// configuration.
pub fn get_args(args: &Vec<String>) -> (r: Result<Config, ArgsError>)
    ensures
        args_outcome(matched_arguments(texts(args@)), r),
{
    match match_arguments(args) {
        Ok((files, number, number_nonblank)) => resolve(files, number, number_nonblank),
        Err(error) => {
            let message = rejection_message(&error);
            let failure = error.use_stderr();
            Err(ArgsError::Rejected { message, failure })
        },
    }
}

} // verus!
