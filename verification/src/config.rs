//! The command line: which definitions file to read, which request to run,
//! and whether to print the request instead of sending it.

use crate::text::{chars_of, str_eq, subvec, same_chars};
use vstd::prelude::*;

verus! {

/// What the command line asks for.
pub struct Config {
    pub filename: String,
    pub target: String,
    pub export_curl: bool,
}

/// Why a command line is refused.
#[derive(Clone, Copy, Debug, PartialEq, Eq, Structural)]
pub enum ConfigError {
    /// Fewer than three arguments, the program's name included.
    NotEnoughArguments,
    /// No file name or no target among the arguments.
    InvalidArguments,
    /// The file name does not end in `.lreq`.
    InvalidFilename,
}

impl ConfigError {
    /// What the refusal reads to a user.
    pub fn message(&self) -> (r: &'static str)
        ensures
            r@ == match self {
                ConfigError::NotEnoughArguments => "not enough arguments"@,
                ConfigError::InvalidArguments => "invalid arguments"@,
                ConfigError::InvalidFilename => "invalid filename provided"@,
            },
    {
        match self {
            ConfigError::NotEnoughArguments => "not enough arguments",
            ConfigError::InvalidArguments => "invalid arguments",
            ConfigError::InvalidFilename => "invalid filename provided",
        }
    }
}

/// The arguments before index `upto`, the program's name at index 0 left
/// out, that are neither the flag `--curl` nor empty, in order.
pub open spec fn positional(args: Seq<String>, upto: int) -> Seq<Seq<char>>
    decreases upto,
{
    if upto <= 1 {
        Seq::empty()
    } else {
        let rest = positional(args, upto - 1);
        let a = args[upto - 1]@;
        if a == "--curl"@ || a.len() == 0 {
            rest
        } else {
            rest.push(a)
        }
    }
}

/// Whether the flag `--curl` stands among the arguments after the program's
/// name.
pub open spec fn has_curl_flag(args: Seq<String>) -> bool {
    exists|j: int| 1 <= j < args.len() && #[trigger] args[j]@ == "--curl"@
}

/// Whether `s` ends with `tail`.
pub open spec fn is_suffix(tail: Seq<char>, s: Seq<char>) -> bool {
    tail.len() <= s.len() && s.skip(s.len() - tail.len()) == tail
}

/// The error that the arguments are refused with, if they are.
pub open spec fn config_error(args: Seq<String>) -> Option<ConfigError> {
    let names = positional(args, args.len() as int);
    if args.len() < 3 {
        Some(ConfigError::NotEnoughArguments)
    } else if names.len() < 2 {
        Some(ConfigError::InvalidArguments)
    } else if !is_suffix(".lreq"@, names[0]) {
        Some(ConfigError::InvalidFilename)
    } else {
        None
    }
}

/// Whether `s` ends with `tail`.
pub fn ends_with(s: &str, tail: &str) -> (r: bool)
    ensures
        r == is_suffix(tail@, s@),
{
    let sv = chars_of(s);
    let tv = chars_of(tail);
    if tv.len() > sv.len() {
        return false;
    }
    let end = subvec(&sv, sv.len() - tv.len(), sv.len());
    same_chars(&end, &tv)
}

impl Config {
    /// Whether this is what `args` ask for: the first two arguments that are
    /// neither the flag nor empty are the file name and the target.
    pub open spec fn reads(&self, args: Seq<String>) -> bool {
        let names = positional(args, args.len() as int);
        &&& names.len() >= 2
        &&& self.filename@ == names[0]
        &&& self.target@ == names[1]
        &&& self.export_curl == has_curl_flag(args)
    }

    /// Reads the command line, or says why it is refused.
    pub fn parse(args: &[String]) -> (r: Result<Config, ConfigError>)
        ensures
            match r {
                Ok(c) => config_error(args@) is None && c.reads(args@),
                Err(e) => config_error(args@) == Some(e),
            },
    {
        if args.len() < 3 {
            return Err(ConfigError::NotEnoughArguments);
        }
        let mut export_curl = false;
        let mut first: Option<usize> = None;
        let mut second: Option<usize> = None;
        let mut i: usize = 1;
        while i < args.len()
            invariant
                1 <= i <= args.len(),
                export_curl == (exists|j: int| 1 <= j < i && #[trigger] args@[j]@ == "--curl"@),
                first is None <==> positional(args@, i as int).len() == 0,
                first matches Some(k) ==> k < i && args@[k as int]@ == positional(
                    args@,
                    i as int,
                )[0],
                second is None <==> positional(args@, i as int).len() < 2,
                second matches Some(k) ==> k < i && args@[k as int]@ == positional(
                    args@,
                    i as int,
                )[1],
            decreases args.len() - i,
        {
            if str_eq(args[i].as_str(), "--curl") {
                export_curl = true;
            } else if args[i].as_str().is_empty() {
            } else if first.is_none() {
                first = Some(i);
            } else if second.is_none() {
                second = Some(i);
            }
            i = i + 1;
        }
        match (first, second) {
            (Some(f), Some(t)) => {
                if !ends_with(args[f].as_str(), ".lreq") {
                    return Err(ConfigError::InvalidFilename);
                }
                Ok(
                    Config {
                        filename: args[f].clone(),
                        target: args[t].clone(),
                        export_curl,
                    },
                )
            },
            _ => Err(ConfigError::InvalidArguments),
        }
    }

    /// Reads a command line that is not refused.
    pub fn new(args: &[String]) -> (c: Config)
        requires
            config_error(args@) is None,
        ensures
            c.reads(args@),
    {
        match Config::parse(args) {
            Ok(c) => c,
            Err(_) => Config {
                filename: String::new(),
                target: String::new(),
                export_curl: false,
            },
        }
    }
}

} // verus!
