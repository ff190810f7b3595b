//! Command-line parameter parsing: maps an argument list onto the flags and
//! values that drive the renaming run. Every option may appear at most
//! once; options that need a value consume the following argument.

use vstd::prelude::*;

use crate::text::str_eq;

verus! {

/// The recognised command-line parameters, and `Error` for anything else.
#[derive(Clone, Copy, Debug, PartialEq, Eq)]
pub enum ParametersType {
    Help,
    Version,
    Verbose,
    DryRun,
    Recursive,
    Directory,
    Filter,
    Output,
    WildcardChar,
    PositionSelectWrapper,
    Error,
}

/// Why an argument list was rejected.
#[derive(Clone, Copy, Debug, PartialEq, Eq)]
pub enum UsageError {
    InvalidParameter,
    DuplicateParameter,
    MissingValue,
    InvalidWildcardChar,
    InvalidPositionSelectWrapper,
}

/// Which parameter an argument names.
pub open spec fn spec_param_type(s: Seq<char>) -> ParametersType {
    if s == "--help"@ || s == "-h"@ {
        ParametersType::Help
    } else if s == "--version"@ || s == "-V"@ {
        ParametersType::Version
    } else if s == "--verbose"@ || s == "-v"@ {
        ParametersType::Verbose
    } else if s == "--dry-run"@ {
        ParametersType::DryRun
    } else if s == "--recursive"@ || s == "-r"@ {
        ParametersType::Recursive
    } else if s == "--directory"@ || s == "-d"@ {
        ParametersType::Directory
    } else if s == "--filter"@ || s == "-f"@ {
        ParametersType::Filter
    } else if s == "--new-name"@ || s == "--output"@ || s == "-n"@ {
        ParametersType::Output
    } else if s == "--wildcard-char"@ {
        ParametersType::WildcardChar
    } else if s == "--position-select-wrapper"@ {
        ParametersType::PositionSelectWrapper
    } else {
        ParametersType::Error
    }
}

/// A distinct slot per parameter in the seen-before table.
pub open spec fn spec_param_idx(t: ParametersType) -> int {
    match t {
        ParametersType::Help => 0,
        ParametersType::Version => 1,
        ParametersType::Verbose => 2,
        ParametersType::DryRun => 3,
        ParametersType::Recursive => 4,
        ParametersType::Directory => 5,
        ParametersType::Filter => 6,
        ParametersType::Output => 7,
        ParametersType::WildcardChar => 8,
        ParametersType::PositionSelectWrapper => 9,
        ParametersType::Error => 10,
    }
}

fn map_parameter_to_type(parameter: &String) -> (t: ParametersType)
    ensures
        t == spec_param_type(parameter@),
{
    let p = parameter.as_str();
    if str_eq(p, "--help") || str_eq(p, "-h") {
        ParametersType::Help
    } else if str_eq(p, "--version") || str_eq(p, "-V") {
        ParametersType::Version
    } else if str_eq(p, "--verbose") || str_eq(p, "-v") {
        ParametersType::Verbose
    } else if str_eq(p, "--dry-run") {
        ParametersType::DryRun
    } else if str_eq(p, "--recursive") || str_eq(p, "-r") {
        ParametersType::Recursive
    } else if str_eq(p, "--directory") || str_eq(p, "-d") {
        ParametersType::Directory
    } else if str_eq(p, "--filter") || str_eq(p, "-f") {
        ParametersType::Filter
    } else if str_eq(p, "--new-name") || str_eq(p, "--output") || str_eq(p, "-n") {
        ParametersType::Output
    } else if str_eq(p, "--wildcard-char") {
        ParametersType::WildcardChar
    } else if str_eq(p, "--position-select-wrapper") {
        ParametersType::PositionSelectWrapper
    } else {
        ParametersType::Error
    }
}

fn param_index(t: ParametersType) -> (i: usize)
    ensures
        i == spec_param_idx(t),
{
    match t {
        ParametersType::Help => 0,
        ParametersType::Version => 1,
        ParametersType::Verbose => 2,
        ParametersType::DryRun => 3,
        ParametersType::Recursive => 4,
        ParametersType::Directory => 5,
        ParametersType::Filter => 6,
        ParametersType::Output => 7,
        ParametersType::WildcardChar => 8,
        ParametersType::PositionSelectWrapper => 9,
        ParametersType::Error => 10,
    }
}

/// The parsed command-line values. The directory is carried as plain text;
/// whether it exists on disk is for the surrounding program to check.
#[allow(non_snake_case)]
pub struct CliParameters {
    pub Help: bool,
    pub Version: bool,
    pub Verbose: bool,
    pub DryRun: bool,
    pub Recursive: bool,
    pub Directory: String,
    pub Filter: String,
    pub Output: String,
    pub WildcardChar: char,
    pub PositionSelectWrapper: (char, char),
}

/// The mathematical image of a parsed parameter set.
pub ghost struct CliView {
    pub help: bool,
    pub version: bool,
    pub verbose: bool,
    pub dry_run: bool,
    pub recursive: bool,
    pub directory: Seq<char>,
    pub filter: Seq<char>,
    pub output: Seq<char>,
    pub wildcard_char: char,
    pub wrapper: (char, char),
}

/// The values before any argument is read: all flags off, empty strings,
/// `*` as the wildcard and `( )` as the position wrapper.
pub open spec fn spec_cli_defaults() -> CliView {
    CliView {
        help: false,
        version: false,
        verbose: false,
        dry_run: false,
        recursive: false,
        directory: Seq::empty(),
        filter: Seq::empty(),
        output: Seq::empty(),
        wildcard_char: '*',
        wrapper: ('(', ')'),
    }
}

/// Reading the arguments from position `i` on, over the values gathered so
/// far and the table of parameters already seen: an unknown parameter, a
/// repeated parameter, a missing value, or a value of the wrong shape stops
/// the parse with the matching error.
pub open spec fn spec_cli_parse_from(
    args: Seq<Seq<char>>,
    i: int,
    acc: CliView,
    seen: Seq<bool>,
) -> Result<CliView, UsageError>
    decreases args.len() - i,
{
    if i < 0 || i >= args.len() {
        Ok(acc)
    } else {
        let t = spec_param_type(args[i]);
        if t is Error {
            Err(UsageError::InvalidParameter)
        } else if seen[spec_param_idx(t)] {
            Err(UsageError::DuplicateParameter)
        } else {
            let seen2 = seen.update(spec_param_idx(t), true);
            match t {
                ParametersType::Help => spec_cli_parse_from(
                    args,
                    i + 1,
                    CliView { help: true, ..acc },
                    seen2,
                ),
                ParametersType::Version => spec_cli_parse_from(
                    args,
                    i + 1,
                    CliView { version: true, ..acc },
                    seen2,
                ),
                ParametersType::Verbose => spec_cli_parse_from(
                    args,
                    i + 1,
                    CliView { verbose: true, ..acc },
                    seen2,
                ),
                ParametersType::DryRun => spec_cli_parse_from(
                    args,
                    i + 1,
                    CliView { dry_run: true, verbose: true, ..acc },
                    seen2,
                ),
                ParametersType::Recursive => spec_cli_parse_from(
                    args,
                    i + 1,
                    CliView { recursive: true, ..acc },
                    seen2,
                ),
                ParametersType::Directory => if i + 1 < args.len() {
                    spec_cli_parse_from(
                        args,
                        i + 2,
                        CliView { directory: args[i + 1], ..acc },
                        seen2,
                    )
                } else {
                    Err(UsageError::MissingValue)
                },
                ParametersType::Filter => if i + 1 < args.len() {
                    spec_cli_parse_from(args, i + 2, CliView { filter: args[i + 1], ..acc }, seen2)
                } else {
                    Err(UsageError::MissingValue)
                },
                ParametersType::Output => if i + 1 < args.len() {
                    spec_cli_parse_from(args, i + 2, CliView { output: args[i + 1], ..acc }, seen2)
                } else {
                    Err(UsageError::MissingValue)
                },
                ParametersType::WildcardChar => if i + 1 < args.len() {
                    if args[i + 1].len() == 1 {
                        spec_cli_parse_from(
                            args,
                            i + 2,
                            CliView { wildcard_char: args[i + 1][0], ..acc },
                            seen2,
                        )
                    } else {
                        Err(UsageError::InvalidWildcardChar)
                    }
                } else {
                    Err(UsageError::MissingValue)
                },
                ParametersType::PositionSelectWrapper => if i + 1 < args.len() {
                    if args[i + 1].len() == 2 {
                        spec_cli_parse_from(
                            args,
                            i + 2,
                            CliView { wrapper: (args[i + 1][0], args[i + 1][1]), ..acc },
                            seen2,
                        )
                    } else {
                        Err(UsageError::InvalidPositionSelectWrapper)
                    }
                } else {
                    Err(UsageError::MissingValue)
                },
                ParametersType::Error => Err(UsageError::InvalidParameter),
            }
        }
    }
}

/// The parse of a whole argument list; the first argument is the program
/// name and is skipped.
pub open spec fn spec_cli_parse(args: Seq<Seq<char>>) -> Result<CliView, UsageError> {
    spec_cli_parse_from(args, 1, spec_cli_defaults(), Seq::new(10, |j: int| false))
}

impl CliParameters {
    /// The mathematical image of this parameter set.
    pub open spec fn view_of(&self) -> CliView {
        CliView {
            help: self.Help,
            version: self.Version,
            verbose: self.Verbose,
            dry_run: self.DryRun,
            recursive: self.Recursive,
            directory: self.Directory@,
            filter: self.Filter@,
            output: self.Output@,
            wildcard_char: self.WildcardChar,
            wrapper: self.PositionSelectWrapper,
        }
    }

    /// Parses an argument list, the program name first. Fails on an unknown
    /// or repeated parameter, on a parameter missing its value, on a
    /// wildcard value that is not one character, and on a wrapper value
    /// that is not two characters.
    pub fn new(args: Vec<String>) -> (r: Result<CliParameters, UsageError>)
        ensures
            match r {
                Ok(c) => spec_cli_parse(args@.map_values(|s: String| s@)) == Ok::<
                    CliView,
                    UsageError,
                >(c.view_of()),
                Err(e) => spec_cli_parse(args@.map_values(|s: String| s@)) == Err::<
                    CliView,
                    UsageError,
                >(e),
            },
    {
        let ghost argv = args@.map_values(|s: String| s@);
        let mut current = CliParameters {
            Help: false,
            Version: false,
            Verbose: false,
            DryRun: false,
            Recursive: false,
            Directory: String::new(),
            Filter: String::new(),
            Output: String::new(),
            WildcardChar: '*',
            PositionSelectWrapper: ('(', ')'),
        };
        let mut seen: Vec<bool> = Vec::new();
        let mut j: usize = 0;
        while j < 10
            invariant
                seen@.len() == j,
                j <= 10,
                forall|k: int| 0 <= k < j ==> !seen@[k],
            decreases 10 - j,
        {
            seen.push(false);
            j += 1;
        }
        proof {
            assert(seen@ =~= Seq::new(10, |k: int| false));
            assert(current.view_of() == spec_cli_defaults());
        }
        let n_args = args.len();
        let mut index: usize = 1;
        while index < n_args
            invariant
                1 <= index,
                n_args == args@.len(),
                argv == args@.map_values(|s: String| s@),
                argv.len() == n_args,
                seen@.len() == 10,
                spec_cli_parse(argv) == spec_cli_parse_from(
                    argv,
                    index as int,
                    current.view_of(),
                    seen@,
                ),
            decreases n_args - index,
        {
            let ghost pre_view = current.view_of();
            let ghost pre_seen = seen@;
            let parameter_type = map_parameter_to_type(&args[index]);
            if let ParametersType::Error = parameter_type {
                return Err(UsageError::InvalidParameter);
            }
            let idx = param_index(parameter_type);
            if seen[idx] {
                return Err(UsageError::DuplicateParameter);
            }
            seen.set(idx, true);
            match parameter_type {
                ParametersType::Help => {
                    current.Help = true;
                    index += 1;
                },
                ParametersType::Version => {
                    current.Version = true;
                    index += 1;
                },
                ParametersType::Verbose => {
                    current.Verbose = true;
                    index += 1;
                },
                ParametersType::DryRun => {
                    current.DryRun = true;
                    current.Verbose = true;
                    index += 1;
                },
                ParametersType::Recursive => {
                    current.Recursive = true;
                    index += 1;
                },
                ParametersType::Directory => {
                    if index + 1 < n_args {
                        current.Directory = args[index + 1].clone();
                        index += 2;
                    } else {
                        return Err(UsageError::MissingValue);
                    }
                },
                ParametersType::Filter => {
                    if index + 1 < n_args {
                        current.Filter = args[index + 1].clone();
                        index += 2;
                    } else {
                        return Err(UsageError::MissingValue);
                    }
                },
                ParametersType::Output => {
                    if index + 1 < n_args {
                        current.Output = args[index + 1].clone();
                        index += 2;
                    } else {
                        return Err(UsageError::MissingValue);
                    }
                },
                ParametersType::WildcardChar => {
                    if index + 1 < n_args {
                        let value = &args[index + 1];
                        if value.as_str().unicode_len() == 1 {
                            current.WildcardChar = value.as_str().get_char(0);
                            index += 2;
                        } else {
                            return Err(UsageError::InvalidWildcardChar);
                        }
                    } else {
                        return Err(UsageError::MissingValue);
                    }
                },
                ParametersType::PositionSelectWrapper => {
                    if index + 1 < n_args {
                        let value = &args[index + 1];
                        if value.as_str().unicode_len() == 2 {
                            current.PositionSelectWrapper = (
                                value.as_str().get_char(0),
                                value.as_str().get_char(1),
                            );
                            index += 2;
                        } else {
                            return Err(UsageError::InvalidPositionSelectWrapper);
                        }
                    } else {
                        return Err(UsageError::MissingValue);
                    }
                },
                ParametersType::Error => {
                    return Err(UsageError::InvalidParameter);
                },
            }
        }
        Ok(current)
    }
}

} // verus!
