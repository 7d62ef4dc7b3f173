//! What the analysis is asked to do: which tool's format to read, where the
//! log comes from, and where the report goes.

use crate::text::{chars_of, equals_str, split_first, split_once};
use vstd::prelude::*;

verus! {

/// The tool whose log format is read.
#[derive(Clone, Copy, Debug, PartialEq, Eq, Structural)]
pub enum ParserKind {
    /// Alire (Ada)
    Alire,
    /// Angular
    Angular,
    /// Biome
    Biome,
    /// Cargo
    Cargo,
    /// Clang
    Clang,
    /// Dune (OCaml)
    Dune,
    /// ESLint
    Eslint,
    /// GCC
    Gcc,
    /// Go
    Go,
    /// Gradle
    Gradle,
    /// Java exceptions
    Java,
    /// Karma with Jasmine
    KarmaJasmine,
    /// Maven
    Maven,
    /// Nix
    Nix,
    /// Odin
    Odin,
    /// V
    V,
    /// Zig
    Zig,
}

/// Where the log comes from.
#[derive(Clone, Copy, Debug, PartialEq, Eq, Structural)]
pub enum InputKind {
    /// Standard input
    Stdin,
    /// A tmux pane
    Tmux,
    /// A wezterm pane
    Wezterm,
    /// A command that is run
    Command,
    /// A file
    File,
}

/// Where the report goes.
#[derive(Clone, Copy, Debug, PartialEq, Eq, Structural)]
pub enum OutputKind {
    /// The report file
    File,
    /// Standard output
    Stdout,
}

/// The settings of one analysis.
#[derive(Debug)]
pub struct Args {
    /// The log format
    pub parser: Option<ParserKind>,
    /// The source of the log
    pub input: Option<InputKind>,
    /// The command to run
    pub command: Option<String>,
    /// The pane or file to read
    pub target: Option<String>,
    /// The shell prompt that separates builds in a pane
    pub splitby: Option<String>,
    /// The Java package of the project
    pub package: Option<String>,
    /// Where the report goes
    pub output: Vec<OutputKind>,
    /// A directory whose changes start a new analysis
    pub watch: Option<String>,
    /// Clear the terminal before running a command
    pub clear: bool,
    /// Echo the collected log
    pub print_input: bool,
}

impl Default for Args {
    fn default() -> (r: Self)
        ensures
            r.parser is None,
            r.input is None,
            r.command is None,
            r.target is None,
            r.splitby is None,
            r.package is None,
            r.output@.len() == 0,
            r.watch is None,
            r.clear,
            r.print_input,
    {
        Args {
            parser: None,
            input: None,
            command: None,
            target: None,
            splitby: None,
            package: None,
            output: Vec::new(),
            watch: None,
            clear: true,
            print_input: true,
        }
    }
}

/// The format a command's name calls for.
pub open spec fn parser_named(name: Seq<char>) -> Option<ParserKind> {
    if name == "maven"@ {
        Some(ParserKind::Maven)
    } else if name == "java"@ {
        Some(ParserKind::Java)
    } else if name == "karma-jasmine"@ {
        Some(ParserKind::KarmaJasmine)
    } else if name == "cargo"@ || name == "typos"@ {
        Some(ParserKind::Cargo)
    } else if name == "gradle"@ || name == "./gradlew"@ {
        Some(ParserKind::Gradle)
    } else if name == "dune"@ {
        Some(ParserKind::Dune)
    } else if name == "go"@ {
        Some(ParserKind::Go)
    } else {
        None
    }
}

/// The first word of a command: the text before its first space.
pub open spec fn first_word(command: Seq<char>) -> Seq<char> {
    match split_once(command, seq![' ']) {
        Some((word, _)) => word,
        None => command,
    }
}

impl ParserKind {
    /// The format that a command's name calls for: `maven`, `java`,
    /// `karma-jasmine`, `cargo` or `typos`, `gradle` or `./gradlew`, `dune`,
    /// `go`.
    pub fn from_str(input: &str) -> (r: Result<ParserKind, ()>)
        ensures
            r matches Ok(k) ==> parser_named(input@) == Some(k),
            r is Err ==> parser_named(input@) is None,
    {
        let name = chars_of(input);
        let s = name.as_slice();
        if equals_str(s, "maven") {
            Ok(ParserKind::Maven)
        } else if equals_str(s, "java") {
            Ok(ParserKind::Java)
        } else if equals_str(s, "karma-jasmine") {
            Ok(ParserKind::KarmaJasmine)
        } else if equals_str(s, "cargo") || equals_str(s, "typos") {
            Ok(ParserKind::Cargo)
        } else if equals_str(s, "gradle") || equals_str(s, "./gradlew") {
            Ok(ParserKind::Gradle)
        } else if equals_str(s, "dune") {
            Ok(ParserKind::Dune)
        } else if equals_str(s, "go") {
            Ok(ParserKind::Go)
        } else {
            Err(())
        }
    }
}

impl Args {
    /// Fills in what can be guessed: the format from the first word of the
    /// command, and the command as input where a command is given.
    pub fn validate(args: &mut Self)
        ensures
            final(args).parser == (if old(args).parser is None {
                match old(args).command {
                    Some(c) => parser_named(first_word(c@)),
                    None => None,
                }
            } else {
                old(args).parser
            }),
            final(args).input == (if old(args).input is None && old(args).command is Some {
                Some(InputKind::Command)
            } else {
                old(args).input
            }),
            final(args).command == old(args).command,
            final(args).target == old(args).target,
            final(args).splitby == old(args).splitby,
            final(args).package == old(args).package,
            final(args).output == old(args).output,
            final(args).watch == old(args).watch,
            final(args).clear == old(args).clear,
            final(args).print_input == old(args).print_input,
    {
        if args.parser.is_none() {
            let guess = match &args.command {
                Some(command) => {
                    let chars = chars_of(command.as_str());
                    let space = [' '];
                    assert(space@ =~= seq![' ']);
                    let word = match split_first(chars.as_slice(), space.as_slice()) {
                        Some((w, _)) => crate::text::string_of(w),
                        None => crate::text::string_of(chars.as_slice()),
                    };
                    match ParserKind::from_str(word.as_str()) {
                        Ok(k) => Some(k),
                        Err(()) => None,
                    }
                },
                None => {
                    return ;
                },
            };
            args.parser = guess;
        }
        if args.input.is_none() && args.command.is_some() {
            args.input = Some(InputKind::Command);
        }
    }
}

} // verus!
