use vstd::prelude::*;

verus! {

/// A command-line usage error.
#[derive(Clone, Copy, Debug, PartialEq, Eq, Structural)]
pub enum ArgsError {
    /// No input path was given.
    MissingInput,
    /// More than one argument was given.
    TooManyArgs,
}

/// Picks the input path out of the command line: exactly one
/// positional argument (after the program name) is accepted.
pub fn parse_args(args: &Vec<String>) -> (r: Result<String, ArgsError>)
    ensures
        match r {
            Ok(path) => args@.len() == 2 && path@ == args@[1]@,
            Err(ArgsError::MissingInput) => args@.len() < 2,
            Err(ArgsError::TooManyArgs) => args@.len() > 2,
        },
{
    if args.len() < 2 {
        Err(ArgsError::MissingInput)
    } else if args.len() > 2 {
        Err(ArgsError::TooManyArgs)
    } else {
        Ok(args[1].clone())
    }
}

} // verus!
