//! The run configuration: what to look for, where, and how to compare.

use crate::search::Mode;
use vstd::prelude::*;

verus! {

/// A positional argument of the command line.
#[derive(Clone, Copy, Debug, PartialEq, Eq, Structural)]
pub enum Argument {
    /// The text to look for: the first argument after the program's name.
    Query,
    /// The path of the file to search: the second.
    Filename,
}

/// Why no configuration could be made.
#[derive(Clone, Copy, Debug, PartialEq, Eq, Structural)]
pub enum ConfigError {
    /// The command line ended before this argument.
    MissingArgument(Argument),
}

impl ConfigError {
    /// A short description for the user.
    pub fn message(&self) -> (text: &'static str)
        ensures
            text@ == (match *self {
                ConfigError::MissingArgument(Argument::Query) => "need query arg"@,
                ConfigError::MissingArgument(Argument::Filename) => "need filename arg"@,
            }),
    {
        match self {
            ConfigError::MissingArgument(Argument::Query) => "need query arg",
            ConfigError::MissingArgument(Argument::Filename) => "need filename arg",
        }
    }
}

/// One run's configuration. It is made once, from the command line and the
/// environment, and not changed afterwards.
#[derive(Debug, PartialEq, Eq)]
pub struct Config {
    /// The path of the file to search.
    pub filename: String,
    /// The text to look for.
    pub query: String,
    /// Whether upper and lower case are told apart.
    pub case_sensitive: bool,
}

impl Config {
    /// What `new` makes of a command line and of the flag for comparison
    /// without regard to case, `flag_set` saying whether the environment holds
    /// it. The first argument, by convention the program's name, is passed
    /// over; the next two are the query and the file's path, whatever they
    /// hold; further ones are not read.
    pub open spec fn resolved(self, args: Seq<String>, flag_set: bool) -> bool {
        &&& args.len() >= 3
        &&& self.query@ == args[1]@
        &&& self.filename@ == args[2]@
        &&& self.case_sensitive == !flag_set
    }

    /// The configuration for the command line `args`. `case_flag` is what the
    /// environment holds for the flag that asks for comparison without regard
    /// to case: `None` where it is not set. Its value is not read, so an
    /// empty one sets the flag too.
    pub fn new(args: &[String], case_flag: Option<&str>) -> (made: Result<Config, ConfigError>)
        ensures
            args@.len() <= 1 ==> made == Err::<Config, ConfigError>(
                ConfigError::MissingArgument(Argument::Query),
            ),
            args@.len() == 2 ==> made == Err::<Config, ConfigError>(
                ConfigError::MissingArgument(Argument::Filename),
            ),
            args@.len() >= 3 ==> made is Ok && made->Ok_0.resolved(args@, case_flag is Some),
    {
        if args.len() < 2 {
            return Err(ConfigError::MissingArgument(Argument::Query));
        }
        if args.len() < 3 {
            return Err(ConfigError::MissingArgument(Argument::Filename));
        }
        Ok(
            Config {
                query: args[1].clone(),
                filename: args[2].clone(),
                case_sensitive: case_flag.is_none(),
            },
        )
    }

    /// The comparison that this configuration asks for.
    pub open spec fn spec_mode(self) -> Mode {
        if self.case_sensitive {
            Mode::Sensitive
        } else {
            Mode::Insensitive
        }
    }

    /// The comparison that this configuration asks for.
    pub fn mode(&self) -> (mode: Mode)
        ensures
            mode == self.spec_mode(),
    {
        if self.case_sensitive {
            Mode::Sensitive
        } else {
            Mode::Insensitive
        }
    }
}

} // verus!
