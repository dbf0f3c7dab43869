//! The command line: the path of the file to annotate.

use vstd::prelude::*;
use vstd::string::*;

verus! {

/// What the command line asks for.
#[derive(Debug, PartialEq, Eq)]
pub struct Config {
    /// The path of the file to annotate.
    pub filepath: String,
}

/// The message for a command line without a path.
pub open spec fn missing_args_text() -> Seq<char> {
    "missing args: <filepath>"@
}

/// The message for a path that does not lead to a file.
pub open spec fn invalid_path_text() -> Seq<char> {
    "invalid file path"@
}

/// What a command line means, given whether its path leads to a regular file: the
/// path is the second argument, and the first is the program's own name.
pub open spec fn config_of(args: Seq<String>, is_file: bool) -> Result<Seq<char>, Seq<char>> {
    if args.len() < 2 {
        Err(missing_args_text())
    } else if !is_file {
        Err(invalid_path_text())
    } else {
        Ok(args[1]@)
    }
}

/// The path of a configuration or the message in its place.
pub open spec fn config_view(r: Result<Config, String>) -> Result<Seq<char>, Seq<char>> {
    match r {
        Ok(config) => Ok(config.filepath@),
        Err(message) => Err(message@),
    }
}

/// Asks the file system whether `path` leads to a regular file, with
/// `std::path::Path::is_file`.
///
/// Trusted, and nothing is claimed: the answer depends on what is on disk.
#[verifier::external_body]
pub(crate) fn is_regular_file(path: &str) -> bool {
    std::path::Path::new(path).is_file()
}

impl Config {
    /// Reads the command line, given whether the path on it leads to a regular file.
    /// Where there is no path, `is_file` is not looked at.
    pub fn checked(args: &[String], is_file: bool) -> (r: Result<Config, String>)
        ensures
            config_view(r) == config_of(args@, is_file),
    {
        if args.len() < 2 {
            return Err(String::from_str("missing args: <filepath>"));
        }
        if !is_file {
            return Err(String::from_str("invalid file path"));
        }
        Ok(Config { filepath: args[1].clone() })
    }

    /// Reads the command line and looks the path up in the file system.
    ///
    /// Without a path the outcome is the missing-arguments message, and the file system
    /// is not asked. With one, the outcome is the path itself or the invalid-path
    /// message, as the file system answers.
    pub fn build(args: &[String]) -> (r: Result<Config, String>)
        ensures
            args@.len() < 2 ==> config_view(r) == Err::<Seq<char>, Seq<char>>(missing_args_text()),
            args@.len() >= 2 ==> config_view(r) == Ok::<Seq<char>, Seq<char>>(args@[1]@)
                || config_view(r) == Err::<Seq<char>, Seq<char>>(invalid_path_text()),
    {
        if args.len() < 2 {
            return Config::checked(args, false);
        }
        let is_file = is_regular_file(args[1].as_str());
        Config::checked(args, is_file)
    }
}

} // verus!
